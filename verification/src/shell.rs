//! The interactive shell's command handling.
//!
//! While a watch session runs, a concurrent loop reads lines from the
//! learner. Each line is trimmed and parsed here, and acted on in one
//! short critical section over the shared state: `hint` reads the
//! current hint, `quit` raises the quit flag the coordinator polls,
//! and everything else only asks the application to print. The reply
//! tells the application what to show; no command other than `quit`
//! changes any state.

use vstd::prelude::*;
use vstd::string::StrSliceExecFns;
use crate::path_match::str_eq;
use crate::watch::SharedWatchState;

verus! {

/// A character the shell strips from both ends of an input line.
pub open spec fn is_blank(c: char) -> bool {
    c == ' ' || c == '\t' || c == '\r' || c == '\n'
}

/// The input without its leading blanks.
pub open spec fn trim_front(s: Seq<char>) -> Seq<char>
    decreases s.len(),
{
    if s.len() > 0 && is_blank(s[0]) {
        trim_front(s.drop_first())
    } else {
        s
    }
}

/// The input without its trailing blanks.
pub open spec fn trim_back(s: Seq<char>) -> Seq<char>
    decreases s.len(),
{
    if s.len() > 0 && is_blank(s.last()) {
        trim_back(s.drop_last())
    } else {
        s
    }
}

/// The input without leading and trailing blanks.
pub open spec fn trimmed(s: Seq<char>) -> Seq<char> {
    trim_back(trim_front(s))
}

/// Dropping `i` leading blanks, up to the first non-blank, is what
/// `trim_front` does.
proof fn lemma_trim_front_at(s: Seq<char>, i: int)
    requires
        0 <= i <= s.len(),
        forall|j: int| 0 <= j < i ==> is_blank(s[j]),
        i < s.len() ==> !is_blank(s[i]),
    ensures
        trim_front(s) == s.subrange(i, s.len() as int),
    decreases s.len(),
{
    if i == 0 {
        if s.len() == 0 || !is_blank(s[0]) {
            assert(s.subrange(0, s.len() as int) =~= s);
        } else {
            assert(false);
        }
    } else {
        assert(is_blank(s[0]));
        lemma_trim_front_at(s.drop_first(), i - 1);
        assert(s.drop_first().subrange(i - 1, s.drop_first().len() as int) =~= s.subrange(
            i,
            s.len() as int,
        ));
    }
}

/// Keeping the first `j` characters, back to the last non-blank, is
/// what `trim_back` does.
proof fn lemma_trim_back_at(s: Seq<char>, j: int)
    requires
        0 <= j <= s.len(),
        forall|k: int| j <= k < s.len() ==> is_blank(s[k]),
        j > 0 ==> !is_blank(s[j - 1]),
    ensures
        trim_back(s) == s.subrange(0, j),
    decreases s.len(),
{
    if j == s.len() {
        if s.len() == 0 || !is_blank(s.last()) {
            assert(s.subrange(0, s.len() as int) =~= s);
        } else {
            assert(false);
        }
    } else {
        assert(is_blank(s.last()));
        lemma_trim_back_at(s.drop_last(), j);
        assert(s.drop_last().subrange(0, j) =~= s.subrange(0, j));
    }
}

/// Whether the shell strips this character.
fn char_is_blank(c: char) -> (r: bool)
    ensures
        r == is_blank(c),
{
    c == ' ' || c == '\t' || c == '\r' || c == '\n'
}

/// Strip blanks from both ends of an input line.
pub fn trim_str<'a>(s: &'a str) -> (r: &'a str)
    ensures
        r@ == trimmed(s@),
{
    let n = s.unicode_len();
    let mut i: usize = 0;
    while i < n && char_is_blank(s.get_char(i))
        invariant
            i <= n,
            n == s@.len(),
            forall|j: int| 0 <= j < i ==> is_blank(s@[j]),
        decreases n - i,
    {
        i += 1;
    }
    let mut j: usize = n;
    while j > i && char_is_blank(s.get_char(j - 1))
        invariant
            i <= j <= n,
            n == s@.len(),
            forall|k: int| j <= k < n ==> is_blank(s@[k]),
        decreases j,
    {
        j -= 1;
    }
    proof {
        lemma_trim_front_at(s@, i as int);
        let t = s@.subrange(i as int, n as int);
        lemma_trim_back_at(t, j - i);
        assert(t.subrange(0, j - i) =~= s@.subrange(i as int, j as int));
    }
    s.substring_char(i, j)
}

/// The characters of the `hint` command.
pub open spec fn cmd_hint() -> Seq<char> {
    seq!['h', 'i', 'n', 't']
}

/// The characters of the `clear` command.
pub open spec fn cmd_clear() -> Seq<char> {
    seq!['c', 'l', 'e', 'a', 'r']
}

/// The characters of the `quit` command.
pub open spec fn cmd_quit() -> Seq<char> {
    seq!['q', 'u', 'i', 't']
}

/// The characters of the `help` command.
pub open spec fn cmd_help() -> Seq<char> {
    seq!['h', 'e', 'l', 'p']
}

/// A parsed shell command.
#[derive(Clone, Copy, PartialEq, Eq, Structural, Debug)]
pub enum ShellCommand {
    Hint,
    Clear,
    Quit,
    Help,
    /// Anything else; echoed back to the learner.
    Unknown,
}

/// What an input line means: its trimmed form compared against the
/// known commands.
pub open spec fn parse_command_spec(s: Seq<char>) -> ShellCommand {
    let t = trimmed(s);
    if t == cmd_hint() {
        ShellCommand::Hint
    } else if t == cmd_clear() {
        ShellCommand::Clear
    } else if t == cmd_quit() {
        ShellCommand::Quit
    } else if t == cmd_help() {
        ShellCommand::Help
    } else {
        ShellCommand::Unknown
    }
}

/// Parse one input line into a shell command.
pub fn parse_command(input: &str) -> (c: ShellCommand)
    ensures
        c == parse_command_spec(input@),
{
    proof {
        reveal_strlit("hint");
        reveal_strlit("clear");
        reveal_strlit("quit");
        reveal_strlit("help");
        assert("hint"@ =~= cmd_hint());
        assert("clear"@ =~= cmd_clear());
        assert("quit"@ =~= cmd_quit());
        assert("help"@ =~= cmd_help());
    }
    let t = trim_str(input);
    if str_eq(t, "hint") {
        ShellCommand::Hint
    } else if str_eq(t, "clear") {
        ShellCommand::Clear
    } else if str_eq(t, "quit") {
        ShellCommand::Quit
    } else if str_eq(t, "help") {
        ShellCommand::Help
    } else {
        ShellCommand::Unknown
    }
}

/// What the application should show in reaction to one input line.
pub enum ShellReply {
    /// Print the hint, when there is one.
    ShowHint(Option<String>),
    /// Emit the terminal-clear escape sequence.
    ClearScreen,
    /// Print the farewell; the quit flag has been raised.
    Farewell,
    /// Print the static command summary.
    ShowHelp,
    /// Echo the unrecognized (trimmed) input.
    UnknownCommand(String),
}

/// Act on one input line: raise the quit flag on `quit`, read the
/// current hint on `hint`, and leave the shared state untouched for
/// every other command. The hint a `hint` command reads is whatever is
/// current at that moment — a `quit` that has not yet been read by the
/// coordinator does not change it.
pub fn shell_step(state: &mut SharedWatchState, input: &str) -> (r: ShellReply)
    ensures
        final(state).current_hint == old(state).current_hint,
        final(state).quit_requested == (old(state).quit_requested || parse_command_spec(input@)
            is Quit),
        match parse_command_spec(input@) {
            ShellCommand::Hint => r matches ShellReply::ShowHint(h) && h.deep_view() == old(
                state,
            ).current_hint.deep_view(),
            ShellCommand::Clear => r is ClearScreen,
            ShellCommand::Quit => r is Farewell,
            ShellCommand::Help => r is ShowHelp,
            ShellCommand::Unknown => r matches ShellReply::UnknownCommand(t) && t@ == trimmed(
                input@,
            ),
        },
{
    let cmd = parse_command(input);
    match cmd {
        ShellCommand::Hint => {
            let h = match &state.current_hint {
                Some(x) => Some(x.clone()),
                None => None,
            };
            ShellReply::ShowHint(h)
        },
        ShellCommand::Clear => ShellReply::ClearScreen,
        ShellCommand::Quit => {
            state.quit_requested = true;
            ShellReply::Farewell
        },
        ShellCommand::Help => ShellReply::ShowHelp,
        ShellCommand::Unknown => {
            let t = trim_str(input);
            ShellReply::UnknownCommand(t.to_owned())
        },
    }
}

} // verus!
