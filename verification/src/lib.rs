//! Planning of image transform pipelines: a graph of abstract operations is
//! lowered, node by node, into a graph of primitive operations while frame
//! metadata is propagated through it.

pub mod error;
pub mod frame;
pub mod graph;
pub mod nodes;
pub mod ops;
pub mod reach;
pub mod sizing;
