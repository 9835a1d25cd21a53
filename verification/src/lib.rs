//! Syndication of marked notes from a canvas graph to a publishing destination.

pub mod canvas;
pub mod graph;
pub mod jj_sink;
pub mod orchestrator;
pub mod publish;
pub mod select;
pub mod sink;
pub mod text;
pub mod tracker;
