//! Watch-and-verify engine for an interactive exercise curriculum.
//!
//! The library holds the decision logic of the runner: the fail-fast
//! verifier that walks an ordered sequence of exercises, the watch
//! coordinator that reacts to debounced file-change events and a quit
//! flag, and the interactive shell's command handling. Everything that
//! talks to the outside world (the toolchain, the filesystem watcher,
//! the terminal) stays in the surrounding application, which hands the
//! library plain values and carries its decisions out.

pub mod exercise;
pub mod path_match;
pub mod shell;
pub mod verify;
pub mod watch;
