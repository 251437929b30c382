//! A read-only virtual filesystem over live memory-introspection data.
//!
//! Each mounted connection exposes a tree of synthetic entries: the root
//! folder stands for the connection, one folder per running process hangs
//! under it, and pluggable modules contribute process-scoped files whose
//! contents are computed on demand. Entries are addressed by a packed
//! 64-bit identifier that stays stable per process across rebuilds; the
//! tree itself is rebuilt wholesale once its time-to-live has passed.

pub mod entry;
pub mod fsops;
pub mod ident;
pub mod lifecycle;
pub mod names;
pub mod tree;
pub mod vmfs;
