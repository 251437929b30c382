//! The mounted filesystem instance and its refresh policy.
//!
//! One instance owns the tree snapshot of one connection together with
//! the ownership and timing data fixed at mount time. The snapshot is
//! replaced wholesale — never patched — when a tree-consulting call finds
//! it older than the time-to-live; within the window every call leaves
//! the instance untouched, so staleness is bounded by the window and a
//! rebuild is never half-observed.

use vstd::prelude::*;
use std::collections::HashMap;

use crate::entry::{ProcessInfo, ProcessLister, VMFSModule, VirtualEntry};
use crate::tree::{build_tree, tree_wf};

verus! {

/// How long one tree snapshot stays current, in milliseconds.
pub const REFRESH_TTL_MILLIS: u64 = 10_000;

/// Whether a tree last rebuilt at `last` is due for a rebuild at `now`,
/// both in milliseconds of one monotonic clock.
pub open spec fn spec_refresh_due(now: u64, last: u64) -> bool {
    now > last + REFRESH_TTL_MILLIS
}

/// Decides whether the snapshot is stale. A clock reading at or before
/// the last rebuild never triggers one.
pub fn refresh_due(now: u64, last: u64) -> (due: bool)
    ensures
        due == spec_refresh_due(now, last),
{
    now > REFRESH_TTL_MILLIS && now - REFRESH_TTL_MILLIS > last
}

/// Law: a rebuild at `first` suppresses every further rebuild up to the
/// end of the time-to-live window, so polling repeatedly inside the
/// window observes exactly the one rebuild.
pub proof fn lemma_refresh_idempotent(first: u64, second: u64)
    requires
        first <= second <= first + REFRESH_TTL_MILLIS,
    ensures
        !spec_refresh_due(second, first),
{
}

/// One mounted instance: a connection's tree snapshot, the identity it
/// was mounted under, and the registered modules by scope. Connection-
/// and module-scope registrations are carried but do not contribute
/// entries yet; only process-scope modules do.
pub struct VirtualMemoryFileSystem<M: VMFSModule> {
    /// The mount id this instance is registered under.
    pub id: String,
    /// The connection whose live state the tree mirrors.
    pub conn_id: String,
    /// Owner reported for every entry, fixed at mount time.
    pub uid: u32,
    /// Owning group reported for every entry, fixed at mount time.
    pub gid: u32,
    /// When the tree was last rebuilt, in clock milliseconds.
    pub last_refresh: u64,
    /// The current tree snapshot.
    pub file_system: HashMap<u64, VirtualEntry<M::Content>>,
    /// Modules contributing at connection scope.
    pub modules_connections: Vec<M>,
    /// Modules contributing one entry per process.
    pub modules_processes: Vec<M>,
    /// Modules contributing at module scope.
    pub modules_modules: Vec<M>,
}

impl<M: VMFSModule> VirtualMemoryFileSystem<M> {
    /// Validity of an instance: its tree is well-formed and the module
    /// count leaves the 32-bit ordinal space open.
    pub open spec fn wf(&self) -> bool {
        &&& tree_wf(self.file_system@)
        &&& self.modules_processes@.len() < 0xffff_ffff
    }

    /// Queries the process listing and builds a fresh tree from the
    /// answer; a failed listing degrades to the empty list, so the tree
    /// then holds only the root.
    fn fetch_and_build<L: ProcessLister>(conn_id: &str, modules: &Vec<M>, lister: &L) -> (fs:
        HashMap<u64, VirtualEntry<M::Content>>)
        requires
            modules@.len() < 0xffff_ffff,
        ensures
            tree_wf(fs@),
    {
        let procs = match lister.process_list(conn_id) {
            Some(list) => list,
            None => Vec::new(),
        };
        build_tree(conn_id, modules, &procs)
    }

    /// Mounts a new instance: records identity and ownership, registers
    /// the process-scope modules, and builds the initial tree at clock
    /// reading `now`.
    pub fn new<L: ProcessLister>(
        id: &str,
        conn_id: &str,
        uid: u32,
        gid: u32,
        process_modules: Vec<M>,
        lister: &L,
        now: u64,
    ) -> (fs: Self)
        requires
            process_modules@.len() < 0xffff_ffff,
        ensures
            fs.wf(),
            fs.id@ == id@,
            fs.conn_id@ == conn_id@,
            fs.uid == uid,
            fs.gid == gid,
            fs.last_refresh == now,
            fs.modules_processes@ == process_modules@,
            fs.modules_connections@ == Seq::<M>::empty(),
            fs.modules_modules@ == Seq::<M>::empty(),
    {
        let file_system = Self::fetch_and_build(conn_id, &process_modules, lister);
        VirtualMemoryFileSystem {
            id: id.to_owned(),
            conn_id: conn_id.to_owned(),
            uid,
            gid,
            last_refresh: now,
            file_system,
            modules_connections: Vec::new(),
            modules_processes: process_modules,
            modules_modules: Vec::new(),
        }
    }

    /// The time-boxed refresh: rebuilds the whole tree when the snapshot
    /// has outlived the time-to-live, and does nothing at all otherwise.
    /// Identity, ownership and module registrations never change.
    pub fn update_file_system<L: ProcessLister>(&mut self, lister: &L, now: u64)
        requires
            old(self).wf(),
        ensures
            final(self).wf(),
            !spec_refresh_due(now, old(self).last_refresh) ==> *final(self) == *old(self),
            spec_refresh_due(now, old(self).last_refresh) ==> final(self).last_refresh == now,
            final(self).id == old(self).id,
            final(self).conn_id == old(self).conn_id,
            final(self).uid == old(self).uid,
            final(self).gid == old(self).gid,
            final(self).modules_connections == old(self).modules_connections,
            final(self).modules_processes == old(self).modules_processes,
            final(self).modules_modules == old(self).modules_modules,
    {
        if refresh_due(now, self.last_refresh) {
            self.file_system = Self::fetch_and_build(
                self.conn_id.as_str(),
                &self.modules_processes,
                lister,
            );
            self.last_refresh = now;
        }
    }
}

} // verus!
