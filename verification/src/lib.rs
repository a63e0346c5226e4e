//! Trace-context propagation across a chain of spawned processes.
//!
//! A chain of processes (a parent that spawns a child that spawns a
//! grandchild) correlates its telemetry into one logical trace tree even
//! though the processes share no memory: the only state handed across a
//! process boundary is a small set of environment values.  This crate holds
//! the protocol itself — the wire codec for the span identity, the lineage
//! rules that decide whether a process starts a root span or a child span,
//! the run-wide correlation identifier, the environment hand-off, and the
//! interpretation of child exit status — with contracts proved by Verus.
//! Process spawning, environment access and file output live outside the
//! library and hand it plain values.

pub mod artifact;
pub mod codec;
pub mod envmap;
pub mod hexnum;
pub mod launch;
pub mod lineage;
