//! End-to-end tests of the virtual memory filesystem: the identifier
//! codec, the tree builder, the refresh policy, the protocol adapter and
//! the lifecycle cleanup, each exercised through the public interface.

use std::cell::{Cell, RefCell};

use vmfs::entry::{
    ContentSource, ProcessInfo, ProcessLister, VMFSModule, VMFSModuleScope, VMFSScopeContext,
    VirtualEntry, VirtualFile,
};
use vmfs::fsops::EntryKind;
use vmfs::ident::{encode, primary_of, secondary_of, with_secondary};
use vmfs::lifecycle::DaemonState;
use vmfs::names::{decimal_string, folder_name, replace_dots};
use vmfs::vmfs::{VirtualMemoryFileSystem, REFRESH_TTL_MILLIS};

/// A content source with a fixed payload.
struct FixedContent {
    data: Vec<u8>,
}

impl ContentSource for FixedContent {
    fn length(&self) -> u64 {
        self.data.len() as u64
    }

    fn bytes(&self) -> Vec<u8> {
        self.data.clone()
    }
}

/// A process-scope module contributing one file per process.
struct InfoModule;

impl VMFSModule for InfoModule {
    type Content = FixedContent;

    fn scope(&self) -> VMFSModuleScope {
        VMFSModuleScope::Process
    }

    fn entry(&self, inode: u64, ctx: &VMFSScopeContext) -> Option<VirtualEntry<FixedContent>> {
        let pid = match ctx {
            VMFSScopeContext::Process { pid, .. } => *pid,
            _ => 0,
        };
        Some(VirtualEntry::File(VirtualFile {
            inode,
            name: "process_info".to_string(),
            source: FixedContent { data: format!("pid {}", pid).into_bytes() },
        }))
    }
}

/// A backend whose reported process list can be swapped mid-test and
/// that counts how often it was queried.
struct TableLister {
    procs: RefCell<Vec<(u32, String)>>,
    calls: Cell<u32>,
}

impl TableLister {
    fn new(procs: Vec<(u32, &str)>) -> Self {
        TableLister {
            procs: RefCell::new(
                procs.into_iter().map(|(p, n)| (p, n.to_string())).collect(),
            ),
            calls: Cell::new(0),
        }
    }
}

impl ProcessLister for TableLister {
    fn process_list(&self, _conn_id: &str) -> Option<Vec<ProcessInfo>> {
        self.calls.set(self.calls.get() + 1);
        Some(
            self.procs
                .borrow()
                .iter()
                .map(|(p, n)| ProcessInfo { pid: *p, name: n.clone() })
                .collect(),
        )
    }
}

/// A backend that always fails to list.
struct FailingLister;

impl ProcessLister for FailingLister {
    fn process_list(&self, _conn_id: &str) -> Option<Vec<ProcessInfo>> {
        None
    }
}

fn mount(
    procs: Vec<(u32, &str)>,
) -> (VirtualMemoryFileSystem<InfoModule>, TableLister) {
    let lister = TableLister::new(procs);
    let fs = VirtualMemoryFileSystem::new("m1", "c1", 1000, 1000, vec![InfoModule], &lister, 0);
    (fs, lister)
}

#[test]
fn identifier_round_trip() {
    assert_eq!(primary_of(encode(0, 0)), 0);
    assert_eq!(secondary_of(encode(0, 0)), 0);
    assert_eq!(primary_of(encode(1234, 7)), 1234);
    assert_eq!(secondary_of(encode(1234, 7)), 7);
    assert_eq!(primary_of(encode(u32::MAX, u32::MAX)), u32::MAX);
    assert_eq!(secondary_of(encode(u32::MAX, u32::MAX)), u32::MAX);
    assert_eq!(encode(10, 0), 10);
    assert_eq!(with_secondary(encode(10, 0), 3), encode(10, 3));
}

#[test]
fn decimal_rendering() {
    assert_eq!(decimal_string(0), "0");
    assert_eq!(decimal_string(10), "10");
    assert_eq!(decimal_string(4294967295), "4294967295");
}

#[test]
fn folder_names_replace_dots() {
    assert_eq!(folder_name(10, "a.exe"), "10_a_exe");
    assert_eq!(folder_name(0, "svc.host.exe"), "0_svc_host_exe");
    assert_eq!(replace_dots("..."), "___");
    assert_eq!(replace_dots(""), "");
}

#[test]
fn tree_uniqueness_count() {
    // Two distinct processes, one module each: 1 + 2 + 2*1 entries.
    let (fs, _lister) = mount(vec![(10, "a.exe"), (20, "b.exe")]);
    assert_eq!(fs.file_system.len(), 5);
    // All identifiers distinct: they are keys of one map, so re-check
    // the expected key set explicitly.
    for key in [0, encode(10, 0), encode(10, 1), encode(20, 0), encode(20, 1)] {
        assert!(fs.file_system.contains_key(&key));
    }
}

#[test]
fn failed_listing_degrades_to_root_only() {
    let lister = FailingLister;
    let mut fs =
        VirtualMemoryFileSystem::new("m1", "c1", 1000, 1000, vec![InfoModule], &lister, 0);
    assert_eq!(fs.file_system.len(), 1);
    let rows = fs.readdir(&lister, 0, 1, 0).expect("root must list");
    assert_eq!(rows.len(), 2);
}

#[test]
fn refresh_idempotent_within_ttl() {
    let (mut fs, lister) = mount(vec![(10, "a.exe")]);
    assert_eq!(lister.calls.get(), 1);
    // Polling repeatedly inside the window triggers no second build.
    fs.getattr(&lister, 1, 1);
    fs.getattr(&lister, REFRESH_TTL_MILLIS / 2, 1);
    fs.getattr(&lister, REFRESH_TTL_MILLIS, 1);
    assert_eq!(lister.calls.get(), 1);
    // One tick past the window: exactly one more build.
    fs.getattr(&lister, REFRESH_TTL_MILLIS + 1, 1);
    assert_eq!(lister.calls.get(), 2);
}

#[test]
fn stale_identifier_not_found_after_rebuild() {
    let (mut fs, lister) = mount(vec![(10, "a.exe")]);
    let folder_ext = encode(10, 0) + 1;
    assert!(fs.getattr(&lister, 1, folder_ext).is_some());
    // The process vanishes; a forced rebuild past the window drops it.
    lister.procs.borrow_mut().clear();
    assert!(fs.getattr(&lister, REFRESH_TTL_MILLIS + 1, folder_ext).is_none());
}

#[test]
fn readdir_pagination() {
    let (mut fs, lister) = mount(vec![(10, "a.exe"), (20, "b.exe"), (30, "c.exe")]);
    // K = 3 children under the root: K + 2 rows from offset 0.
    let rows = fs.readdir(&lister, 0, 1, 0).expect("root must list");
    assert_eq!(rows.len(), 5);
    // Resuming at the index of the next unread row.
    let rest = fs.readdir(&lister, 0, 1, 2).expect("root must list");
    assert_eq!(rest.len(), 3);
    assert_eq!(rest[0].name, "10_a_exe");
    // From offset K + 2: nothing.
    let empty = fs.readdir(&lister, 0, 1, 5).expect("root must list");
    assert!(empty.is_empty());
    // And far past the end: still nothing, no fault.
    let far = fs.readdir(&lister, 0, 1, 1_000_000).expect("root must list");
    assert!(far.is_empty());
}

#[test]
fn scenario_two_processes_one_module() {
    let (mut fs, lister) = mount(vec![(10, "a.exe"), (20, "b.exe")]);
    // Root listing: dot rows, then the process folders in report order.
    let rows = fs.readdir(&lister, 0, 1, 0).expect("root must list");
    let names: Vec<&str> = rows.iter().map(|r| r.name.as_str()).collect();
    assert_eq!(names, [".", "..", "10_a_exe", "20_b_exe"]);
    // Lookup of a process folder answers directory attributes.
    let attr = fs.lookup(&lister, 0, 1, "10_a_exe").expect("child must resolve");
    assert_eq!(attr.kind, EntryKind::Directory);
    assert_eq!(attr.nlink, 2);
    assert_eq!(attr.ino, encode(10, 0) + 1);
    assert_eq!(attr.perm, 0o755);
    assert_eq!(attr.uid, 1000);
    // Listing that folder: dot rows and exactly the one module entry.
    let sub = fs.readdir(&lister, 0, encode(10, 0) + 1, 0).expect("folder must list");
    assert_eq!(sub.len(), 3);
    assert_eq!(sub[2].name, "process_info");
    assert_eq!(sub[2].ino, encode(10, 1) + 1);
    assert_eq!(sub[2].kind, EntryKind::RegularFile);
}

#[test]
fn lookup_misses() {
    let (mut fs, lister) = mount(vec![(10, "a.exe")]);
    // Unknown name under the root.
    assert!(fs.lookup(&lister, 0, 1, "99_nope").is_none());
    // The raw process name never matches: dots are replaced.
    assert!(fs.lookup(&lister, 0, 1, "10_a.exe").is_none());
    // A file is no parent to look under.
    assert!(fs.lookup(&lister, 0, encode(10, 1) + 1, "x").is_none());
    // The protocol's reserved identifier 0 resolves to nothing.
    assert!(fs.lookup(&lister, 0, 0, ".").is_none());
    // A stale parent identifier resolves to nothing.
    assert!(fs.lookup(&lister, 0, encode(99, 0) + 1, "x").is_none());
}

#[test]
fn file_attributes_report_live_length() {
    let (mut fs, lister) = mount(vec![(10, "a.exe")]);
    let attr = fs.getattr(&lister, 0, encode(10, 1) + 1).expect("file must resolve");
    assert_eq!(attr.kind, EntryKind::RegularFile);
    assert_eq!(attr.size, "pid 10".len() as u64);
    assert_eq!(attr.perm, 0o644);
    assert_eq!(attr.nlink, 1);
    let by_name = fs.lookup(&lister, 0, encode(10, 0) + 1, "process_info").unwrap();
    assert_eq!(by_name.size, attr.size);
    assert_eq!(by_name.ino, attr.ino);
}

#[test]
fn read_slices_from_offset() {
    let (fs, _lister) = mount(vec![(10, "a.exe")]);
    let file_ext = encode(10, 1) + 1;
    let all = fs.read(file_ext, 0, 4096).expect("file must read");
    assert_eq!(all, b"pid 10");
    let tail = fs.read(file_ext, 4, 4096).expect("file must read");
    assert_eq!(tail, b"10");
}

#[test]
fn read_past_end_yields_empty() {
    let (fs, _lister) = mount(vec![(10, "a.exe")]);
    let file_ext = encode(10, 1) + 1;
    let length = b"pid 10".len() as u64;
    let empty = fs.read(file_ext, length + 100, 4096).expect("file must read");
    assert!(empty.is_empty());
    let at_end = fs.read(file_ext, length, 4096).expect("file must read");
    assert!(at_end.is_empty());
}

#[test]
fn read_misses() {
    let (fs, _lister) = mount(vec![(10, "a.exe")]);
    // A folder is not readable as a file.
    assert!(fs.read(encode(10, 0) + 1, 0, 4096).is_none());
    assert!(fs.read(1, 0, 4096).is_none());
    // Unknown and reserved identifiers.
    assert!(fs.read(encode(99, 1) + 1, 0, 4096).is_none());
    assert!(fs.read(0, 0, 4096).is_none());
}

#[test]
fn readdir_misses() {
    let (mut fs, lister) = mount(vec![(10, "a.exe")]);
    // A file does not list.
    assert!(fs.readdir(&lister, 0, encode(10, 1) + 1, 0).is_none());
    // Unknown and reserved identifiers.
    assert!(fs.readdir(&lister, 0, encode(99, 0) + 1, 0).is_none());
    assert!(fs.readdir(&lister, 0, 0, 0).is_none());
}

#[test]
fn cleanup_is_idempotent() {
    let mut state = DaemonState::new();
    state.add_connection(7);
    state.register_mount(1, 7);
    state.register_mount(2, 7);
    assert_eq!(state.connections.get(&7), Some(&2));
    state.cleanup_mount(1);
    assert_eq!(state.connections.get(&7), Some(&1));
    assert!(!state.file_systems.contains_key(&1));
    // The second pass for the same mount finds nothing and changes nothing.
    state.cleanup_mount(1);
    assert_eq!(state.connections.get(&7), Some(&1));
    state.cleanup_mount(2);
    assert_eq!(state.connections.get(&7), Some(&0));
    // Even a stray extra pass never pushes the count below zero.
    state.register_mount(3, 7);
    state.cleanup_mount(3);
    state.cleanup_mount(3);
    assert_eq!(state.connections.get(&7), Some(&0));
}

#[test]
fn cleanup_tolerates_vanished_connection() {
    let mut state = DaemonState::new();
    // A mount whose connection was never (or is no longer) known.
    state.register_mount(5, 99);
    state.cleanup_mount(5);
    assert!(!state.file_systems.contains_key(&5));
    assert!(state.connections.get(&99).is_none());
}
