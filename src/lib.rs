//! Orchestration core of a tool-augmented chat agent: conversation memory,
//! prompt rendering, streamed decoding, generation control and the SQL tool gate.
use vstd::prelude::*;

pub mod agent;
pub mod chat;
pub mod config;
pub mod generation;
pub mod render;
pub mod stream;
pub mod text;
pub mod tool;

verus! {

} // verus!
