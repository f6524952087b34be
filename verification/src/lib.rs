//! Personal, local-first skill management with remote sync: the verified core.
use vstd::prelude::*;

pub mod text;
pub mod seqs;
pub mod greeting;
pub mod utils;
pub mod webdav;
pub mod storage;
pub mod github;
pub mod skill;
pub mod sync;
pub mod cli;
pub mod server;
pub mod tui;
pub mod screen;
pub mod laws;
pub mod rescan;
pub mod listing;
pub mod command_laws;

verus! {

} // verus!
