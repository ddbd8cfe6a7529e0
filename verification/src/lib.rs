//! Editing rules for a street network: deciding whether a traffic-signal
//! stage runs on fixed or variable timing, planning lane-by-lane retrofits
//! that turn on-street parking into bike lanes, and a few small decision
//! helpers that the surrounding interactive session asks for.
//!
//! Every function here is a pure transformation over plain values: it reads
//! a snapshot of signal or lane state and returns a freshly built
//! description of the change. Committing a change, drawing, and input
//! handling belong to the host application, not to this crate.

pub mod connectivity;
pub mod lanes;
pub mod menu;
pub mod plan;
pub mod timing;
