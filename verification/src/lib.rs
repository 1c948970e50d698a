//! The core of a text expander: it keeps snippets, finds the one whose trigger
//! was just typed, and decides how its text reaches the focused window.
//!
//! - `snippets`: the store and the matcher, over the index in `suffix`.
//! - `expansion`, `target`, `clipboard`: the insertion policy, what kind of
//!   window gets an expansion, and pasting with the user's clipboard given back.
//! - `keyboard`, `shortcuts`: what the global hooks do with an event, and when
//!   a chord fires.
//! - `ipc`, `import`: the commands of the UI.
//! - `text`, `collate`: characters and strings.
//! - `laws`: what holds across these modules.
//!
//! The host owns the threads, the clock, the files and the system calls. Where
//! a command needs one of them in its midst, it is a step function: the host
//! carries out the action that it returns, and calls it again with the outcome.

pub mod clipboard;
pub mod collate;
pub mod expansion;
pub mod import;
pub mod ipc;
pub mod keyboard;
pub mod laws;
mod seqs;
pub mod shortcuts;
pub mod snippets;
mod suffix;
pub mod target;
pub mod text;
