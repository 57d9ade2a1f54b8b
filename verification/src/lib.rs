//! Client-side model for a grid-based thermal simulation: thermal cells and
//! node fields with their derived statistics, grid addressing, and the guest
//! action protocol with its phantom-read consistency rules. The wire transport
//! that drives these models lives outside the verified library.

pub mod entity;
pub mod grid;
pub mod client;
