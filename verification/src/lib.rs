//! Rules of a turn-structured strategy game played on a board of nodes and
//! undirected edges, with every operation carrying a machine-checked contract.

pub mod game;
pub mod net;
pub mod util;
