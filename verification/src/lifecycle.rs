//! The lifecycle manager's share of the daemon state.
//!
//! A mounted instance is registered under its mount handle in
//! process-wide state, holding one reference on its connection. The
//! unmount cleanup pass runs detached from the thread that triggered the
//! teardown — that thread may already hold the daemon-state lock — and
//! must therefore tolerate running late or twice: a mount already gone
//! is a no-op, a connection already gone is tolerated silently, and a
//! reference count never falls below zero.

use vstd::prelude::*;
use std::collections::HashMap;

verus! {

broadcast use vstd::std_specs::hash::group_hash_axioms;

/// The mathematical model of the daemon state this module acts on:
/// every connection's open-mount reference count by connection handle,
/// and every registered mount's connection by mount handle.
#[verifier::ext_equal]
pub struct DaemonStateModel {
    pub connections: Map<u64, u64>,
    pub file_systems: Map<u64, u64>,
}

/// The daemon state as this module holds it.
pub struct DaemonState {
    /// Each connection's open-mount reference count.
    pub connections: HashMap<u64, u64>,
    /// Each registered mount's connection.
    pub file_systems: HashMap<u64, u64>,
}

impl View for DaemonState {
    type V = DaemonStateModel;

    open spec fn view(&self) -> DaemonStateModel {
        DaemonStateModel { connections: self.connections@, file_systems: self.file_systems@ }
    }
}

/// What one cleanup pass leaves of the state: everything, for a mount
/// handle that is not registered; otherwise the mount record is removed
/// and the owning connection's reference count drops by one — never
/// below zero — with an already-vanished connection tolerated silently.
pub open spec fn spec_cleanup(s: DaemonStateModel, mount_id: u64) -> DaemonStateModel {
    if !s.file_systems.contains_key(mount_id) {
        s
    } else {
        let conn_id = s.file_systems[mount_id];
        let connections = if s.connections.contains_key(conn_id) {
            s.connections.insert(
                conn_id,
                if s.connections[conn_id] > 0 {
                    (s.connections[conn_id] - 1) as u64
                } else {
                    0
                },
            )
        } else {
            s.connections
        };
        DaemonStateModel { connections, file_systems: s.file_systems.remove(mount_id) }
    }
}

impl DaemonState {
    /// A state with no connections and no mounts.
    pub fn new() -> (s: Self)
        ensures
            s@.connections == Map::<u64, u64>::empty(),
            s@.file_systems == Map::<u64, u64>::empty(),
    {
        DaemonState { connections: HashMap::new(), file_systems: HashMap::new() }
    }

    /// Adds a connection under its handle with no open mounts yet.
    pub fn add_connection(&mut self, conn_id: u64)
        ensures
            final(self)@.connections == old(self)@.connections.insert(conn_id, 0),
            final(self)@.file_systems == old(self)@.file_systems,
    {
        self.connections.insert(conn_id, 0);
    }

    /// Registers a mounted instance under its mount handle and takes one
    /// reference on its connection; a mount on an unknown connection is
    /// recorded without a count to raise.
    pub fn register_mount(&mut self, mount_id: u64, conn_id: u64)
        requires
            old(self)@.connections.contains_key(conn_id) ==> old(self)@.connections[conn_id]
                < u64::MAX,
        ensures
            final(self)@.file_systems == old(self)@.file_systems.insert(mount_id, conn_id),
            old(self)@.connections.contains_key(conn_id) ==> final(self)@.connections == old(
                self,
            )@.connections.insert(conn_id, (old(self)@.connections[conn_id] + 1) as u64),
            !old(self)@.connections.contains_key(conn_id) ==> final(self)@.connections == old(
                self,
            )@.connections,
    {
        let count = match self.connections.get(&conn_id) {
            Some(rc) => Some(*rc),
            None => None,
        };
        if let Some(rc) = count {
            self.connections.insert(conn_id, rc + 1);
        }
        self.file_systems.insert(mount_id, conn_id);
    }

    /// The unmount cleanup pass: if the mount handle is still
    /// registered, drops the owning connection's reference count by one
    /// (never below zero, and silently skipping a connection that is
    /// already gone) and removes the record. A second pass for the same
    /// handle finds nothing and changes nothing.
    pub fn cleanup_mount(&mut self, mount_id: u64)
        ensures
            final(self)@ == spec_cleanup(old(self)@, mount_id),
    {
        let record = match self.file_systems.get(&mount_id) {
            Some(conn) => Some(*conn),
            None => None,
        };
        if let Some(conn_id) = record {
            let count = match self.connections.get(&conn_id) {
                Some(rc) => Some(*rc),
                None => None,
            };
            if let Some(rc) = count {
                self.connections.insert(conn_id, if rc > 0 { rc - 1 } else { 0 });
            }
            self.file_systems.remove(&mount_id);
        }
        proof {
            assert(self@ =~= spec_cleanup(old(self)@, mount_id));
        }
    }
}

/// Law: the cleanup pass is idempotent — running it twice for one mount
/// handle leaves exactly what running it once leaves, so a double
/// teardown is a no-op the second time.
pub proof fn lemma_cleanup_idempotent(s: DaemonStateModel, mount_id: u64)
    ensures
        spec_cleanup(spec_cleanup(s, mount_id), mount_id) == spec_cleanup(s, mount_id),
{
    let once = spec_cleanup(s, mount_id);
    assert(!once.file_systems.contains_key(mount_id));
    assert(spec_cleanup(once, mount_id) =~= once);
}

/// Law: a cleanup pass never drops any connection's reference count
/// below zero, and never by more than one.
pub proof fn lemma_cleanup_refcount_floor(s: DaemonStateModel, mount_id: u64, conn: u64)
    requires
        s.connections.contains_key(conn),
    ensures
        spec_cleanup(s, mount_id).connections.contains_key(conn),
        spec_cleanup(s, mount_id).connections[conn] <= s.connections[conn],
        spec_cleanup(s, mount_id).connections[conn] + 1 >= s.connections[conn],
        s.connections[conn] == 0 ==> spec_cleanup(s, mount_id).connections[conn] == 0,
{
}

} // verus!
