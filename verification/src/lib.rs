//! Incremental commit-graph layout engine.
//!
//! Nodes are commits, edges are parent/child relations; every commit is
//! placed at a lane (x) and a row (y) so that branch topology stays legible.
//! After a repository-changing action the engine decides how much of the
//! previous layout is still valid, computes only the row-level delta, and
//! assigns lanes so that concurrently live branch paths never collide.
//!
//! The crate works on plain values (oid strings, parent lists, ref facts)
//! supplied by a repository backend; reading the repository itself is the
//! caller's concern.

pub mod classifier;
pub mod differ;
pub mod error;
pub mod facts;
pub mod occupied_table;
pub mod parseable_info;
pub mod svg_row;
