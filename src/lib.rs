//! Repository mirroring and tree synchronization: the decisions of a
//! multi-repository checkout tool, stated and proved over plain values.

pub mod command;
pub mod config;
pub mod depot;
pub mod replace;
pub mod target;
pub mod text;
pub mod tree;
