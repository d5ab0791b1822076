//! An interaction-net reduction engine: nodes with one principal port and a
//! fixed number of auxiliary ports, single-use wires between ports, and a
//! queue of active pairs that a pluggable rule set rewrites.
//!
//! - `net`: the data model, the wire store and active-pair queue, node
//!   creation, wiring, wire resolution and the bounded reduction driver.
//! - `accounting`: which ports a sequence of wiring steps consumes.
//! - `resolution`: when taking a redex is guaranteed not to dangle.
//! - `gla`: a small example rule set (zero, erase, plus, copy).
pub mod net;
pub mod accounting;
pub mod resolution;
pub mod gla;
