//! The tree builder.
//!
//! One build constructs the complete entry mapping for a connection: the
//! root folder at identifier 0, one folder per reported process at
//! `encode(pid, 0)`, and one entry per registered process-scope module at
//! `encode(pid, ordinal)` with ordinals counted from 1 in registration
//! order. A module that materializes nothing leaves its slot empty and the
//! build proceeds; a failed process listing degrades to a tree holding
//! only the root. A build never patches an earlier tree: callers replace
//! their mapping wholesale with the result.

use vstd::prelude::*;
use std::collections::HashMap;

use crate::entry::{ProcessInfo, VMFSModule, VMFSScopeContext, VirtualEntry, VirtualFolder};
use crate::ident::{
    lemma_components_encode, lemma_identifier_round_trip, spec_encode, spec_primary_of,
    spec_secondary_of,
};
use crate::names::{folder_name, spec_folder_name};

verus! {

broadcast use vstd::std_specs::hash::group_hash_axioms;

/// The identifier of a process folder: the process id with ordinal 0.
pub open spec fn proc_folder_id(pid: u32) -> u64 {
    spec_encode(pid, 0)
}

/// Whether `key` addresses one of the slots a build reserves for a
/// process: ordinal 0 for the folder itself, 1 up to the module count for
/// module-contributed entries.
pub open spec fn slot_key(pid: u32, mcount: nat, key: u64) -> bool {
    exists|j: int| 0 <= j <= mcount && key == #[trigger] spec_encode(pid, j as u32)
}

/// Whether no slot of the given process is taken in the tree.
pub open spec fn pid_fresh<C>(t: Map<u64, VirtualEntry<C>>, pid: u32, mcount: nat) -> bool {
    forall|j: int| 0 <= j <= mcount ==> !t.contains_key(#[trigger] spec_encode(pid, j as u32))
}

/// Every child identifier of the list resolves in the tree.
pub open spec fn children_resolve<C>(t: Map<u64, VirtualEntry<C>>, ch: Seq<u64>) -> bool {
    forall|i: int| 0 <= i < ch.len() ==> t.contains_key(#[trigger] ch[i])
}

/// Structural soundness of a tree mapping: every entry records its own
/// key as its identifier, every key leaves the 32-bit ordinal maximum
/// free (so the external off-by-one offset cannot overflow), and every
/// folder's children resolve.
pub open spec fn partial_wf<C>(t: Map<u64, VirtualEntry<C>>) -> bool {
    &&& forall|k: u64| #[trigger] t.contains_key(k) ==> t[k].spec_inode() == k
        && spec_secondary_of(k) < 0xffff_ffffu32
    &&& forall|k: u64| #[trigger] t.contains_key(k) && t[k] is Folder ==> children_resolve(
        t,
        t[k]->Folder_0.children@,
    )
}

/// A well-formed tree: structurally sound and rooted at identifier 0.
pub open spec fn tree_wf<C>(t: Map<u64, VirtualEntry<C>>) -> bool {
    &&& partial_wf(t)
    &&& t.contains_key(0)
    &&& t[0] is Folder
}

/// Whether `key` belongs to the identifier space of a build over the
/// given processes: some process's slot, at any ordinal up to the module
/// count.
pub open spec fn id_from_procs(procs: Seq<ProcessInfo>, mcount: nat, key: u64) -> bool {
    exists|l: int| 0 <= l < procs.len() && slot_key(#[trigger] procs[l].pid, mcount, key)
}

/// Every key of the tree is the root or lies in the identifier space of
/// the given processes. A rebuild therefore invalidates every identifier
/// whose process is no longer reported.
pub open spec fn built_from<C>(
    t: Map<u64, VirtualEntry<C>>,
    procs: Seq<ProcessInfo>,
    mcount: nat,
) -> bool {
    forall|k: u64| #[trigger] t.contains_key(k) ==> k == 0 || id_from_procs(procs, mcount, k)
}

/// Every key of the tree lies in the identifier space of the first `i`
/// of the given processes. Kept opaque: the builder's loop carries it as
/// an invariant and only the step lemmas look inside.
#[verifier::opaque]
pub open spec fn prefix_covered<C>(
    t: Map<u64, VirtualEntry<C>>,
    procs: Seq<ProcessInfo>,
    i: int,
    mcount: nat,
) -> bool {
    forall|key: u64| #[trigger] t.contains_key(key) ==> id_from_procs(procs.take(i), mcount, key)
}

/// The processes carry pairwise distinct, nonzero ids. A zero id would
/// collide with the connection root, whose identifier is 0.
pub open spec fn distinct_nonzero_pids(procs: Seq<ProcessInfo>) -> bool {
    &&& forall|l1: int, l2: int| 0 <= l1 < l2 < procs.len() ==> procs[l1].pid != procs[l2].pid
    &&& forall|l: int| 0 <= l < procs.len() ==> procs[l].pid != 0
}

/// The root entry is a folder named after the connection whose children
/// are the process folders, one per reported process, in report order.
pub open spec fn root_folder_exact<C>(
    t: Map<u64, VirtualEntry<C>>,
    conn_id: Seq<char>,
    procs: Seq<ProcessInfo>,
) -> bool {
    &&& t.contains_key(0)
    &&& t[0] is Folder
    &&& t[0]->Folder_0.inode == 0
    &&& t[0]->Folder_0.name@ == conn_id
    &&& t[0]->Folder_0.children@ == procs.map_values(|p: ProcessInfo| proc_folder_id(p.pid))
}

/// The children of a process folder are module slots of that process:
/// ordinals between 1 and the module count, resolving in the tree, in
/// strictly increasing ordinal order.
pub open spec fn children_are_slots<C>(
    t: Map<u64, VirtualEntry<C>>,
    pid: u32,
    mcount: nat,
    ch: Seq<u64>,
) -> bool {
    &&& forall|i: int| 0 <= i < ch.len() ==> spec_primary_of(#[trigger] ch[i]) == pid
        && 1 <= spec_secondary_of(ch[i]) <= mcount && t.contains_key(ch[i])
    &&& forall|i1: int, i2: int| 0 <= i1 < i2 < ch.len() ==> spec_secondary_of(#[trigger] ch[i1])
        < spec_secondary_of(#[trigger] ch[i2])
}

/// Every module slot of the process that is taken in the tree appears in
/// the child list: together with `children_are_slots` this pins the list
/// to exactly the materialized slots, in ordinal order.
pub open spec fn children_complete<C>(
    t: Map<u64, VirtualEntry<C>>,
    pid: u32,
    mcount: nat,
    ch: Seq<u64>,
) -> bool {
    forall|j: int| 1 <= j <= mcount && #[trigger] t.contains_key(spec_encode(pid, j as u32))
        ==> ch.contains(spec_encode(pid, j as u32))
}

/// The process folder of `p` is present, carries the display name formed
/// from the process id and name, and lists exactly the materialized
/// module slots as children.
#[verifier::opaque]
pub open spec fn process_folder_exact<C>(
    t: Map<u64, VirtualEntry<C>>,
    p: ProcessInfo,
    mcount: nat,
) -> bool {
    let key = proc_folder_id(p.pid);
    &&& t.contains_key(key)
    &&& t[key] is Folder
    &&& t[key]->Folder_0.name@ == spec_folder_name(p.pid, p.name@)
    &&& children_are_slots(t, p.pid, mcount, t[key]->Folder_0.children@)
    &&& children_complete(t, p.pid, mcount, t[key]->Folder_0.children@)
}

/// Files one module's materialization result under its slot identifier:
/// a produced entry joins the mapping and the folder's child list, an
/// empty result leaves both untouched.
pub fn insert_module_entry<C>(
    fs: &mut HashMap<u64, VirtualEntry<C>>,
    folder: &mut VirtualFolder,
    produced: Option<VirtualEntry<C>>,
    inode: u64,
) -> (added: bool)
    requires
        (produced matches Some(e) ==> e.spec_inode() == inode),
    ensures
        match produced {
            Some(e) => final(fs)@ == old(fs)@.insert(inode, e) && final(folder).children@ == old(
                folder,
            ).children@.push(inode) && added,
            None => final(fs)@ == old(fs)@ && final(folder).children@ == old(folder).children@
                && !added,
        },
        final(folder).inode == old(folder).inode,
        final(folder).name@ == old(folder).name@,
{
    match produced {
        Some(e) => {
            fs.insert(inode, e);
            folder.children.push(inode);
            true
        },
        None => false,
    }
}

/// Builds the slots of one process: its folder at ordinal 0 and, per
/// registered module in registration order, the module's entry at the
/// next ordinal. Returns the folder's identifier.
fn build_process<M: VMFSModule>(
    fs: &mut HashMap<u64, VirtualEntry<M::Content>>,
    conn_id: &str,
    modules: &Vec<M>,
    pid: u32,
    pname: &str,
) -> (folder_id: u64)
    requires
        modules@.len() < 0xffff_ffff,
        partial_wf(old(fs)@),
    ensures
        folder_id == proc_folder_id(pid),
        partial_wf(final(fs)@),
        forall|key: u64| #[trigger] old(fs)@.contains_key(key) ==> final(fs)@.contains_key(key),
        forall|key: u64| #[trigger] final(fs)@.contains_key(key) ==> old(fs)@.contains_key(key)
            || slot_key(pid, modules@.len() as nat, key),
        forall|key: u64| !slot_key(pid, modules@.len() as nat, key) ==> (
        final(fs)@.contains_key(key) == old(fs)@.contains_key(key) && (old(
            fs,
        )@.contains_key(key) ==> final(fs)@[key] == old(fs)@[key])),
        final(fs)@.contains_key(proc_folder_id(pid)),
        final(fs)@[proc_folder_id(pid)] is Folder,
        final(fs)@[proc_folder_id(pid)]->Folder_0.name@ == spec_folder_name(pid, pname@),
        children_are_slots(
            final(fs)@,
            pid,
            modules@.len() as nat,
            final(fs)@[proc_folder_id(pid)]->Folder_0.children@,
        ),
        pid_fresh(old(fs)@, pid, modules@.len() as nat) ==> children_complete(
            final(fs)@,
            pid,
            modules@.len() as nat,
            final(fs)@[proc_folder_id(pid)]->Folder_0.children@,
        ),
{
    let ghost fs0 = fs@;
    let ghost mcount = modules@.len() as nat;
    let folder_id = crate::ident::encode(pid, 0);
    let name = folder_name(pid, pname);
    let mut prc = VirtualFolder::new(folder_id, name.as_str());
    let ctx = VMFSScopeContext::Process { conn_id: conn_id.to_owned(), pid };
    let mut k: usize = 0;
    while k < modules.len()
        invariant
            k <= modules@.len(),
            mcount == modules@.len(),
            mcount < 0xffff_ffff,
            partial_wf(fs@),
            prc.inode == proc_folder_id(pid),
            prc.name@ == spec_folder_name(pid, pname@),
            forall|key: u64| #[trigger] fs0.contains_key(key) ==> fs@.contains_key(key),
            forall|key: u64| #[trigger] fs@.contains_key(key) ==> fs0.contains_key(key) || (
            spec_primary_of(key) == pid && 1 <= spec_secondary_of(key) <= k),
            forall|key: u64|
                !(spec_primary_of(key) == pid && 1 <= spec_secondary_of(key) <= k) ==> (
                #[trigger] fs@.contains_key(key) == fs0.contains_key(key) && (fs0.contains_key(
                    key,
                ) ==> fs@[key] == fs0[key])),
            children_are_slots(fs@, pid, k as nat, prc.children@),
            pid_fresh(fs0, pid, mcount) ==> children_complete(fs@, pid, k as nat, prc.children@),
        decreases modules@.len() - k,
    {
        proof {
            assert(k < 0xffff_ffff);
        }
        let slot: u32 = (k as u32) + 1;
        let ino = crate::ident::encode(pid, slot);
        let produced = modules[k].entry(ino, &ctx);
        let ghost before = fs@;
        let ghost ch_before = prc.children@;
        insert_module_entry(fs, &mut prc, produced, ino);
        proof {
            lemma_identifier_round_trip(pid, slot);
            assert forall|key: u64| #[trigger] fs@.contains_key(key) implies fs0.contains_key(key)
                || (spec_primary_of(key) == pid && 1 <= spec_secondary_of(key) <= k + 1) by {
                if key != ino {
                    assert(before.contains_key(key));
                }
            }
            assert forall|key: u64|
                !(spec_primary_of(key) == pid && 1 <= spec_secondary_of(key) <= k + 1) implies (
            fs@.contains_key(key) == fs0.contains_key(key) && (fs0.contains_key(key)
                ==> fs@[key] == fs0[key])) by {
                assert(!(spec_primary_of(key) == pid && 1 <= spec_secondary_of(key) <= k));
                assert(before.contains_key(key) == fs0.contains_key(key) && (fs0.contains_key(
                    key,
                ) ==> before[key] == fs0[key]));
                assert(key != ino);
            }
            assert(partial_wf(fs@)) by {
                assert forall|key: u64| #[trigger] fs@.contains_key(key) implies fs@[key].spec_inode()
                    == key && spec_secondary_of(key) < 0xffff_ffffu32 by {
                    if key != ino {
                        assert(before.contains_key(key) && fs@[key] == before[key]);
                    }
                }
                assert forall|key: u64| #[trigger]
                    fs@.contains_key(key) && fs@[key] is Folder implies children_resolve(
                    fs@,
                    fs@[key]->Folder_0.children@,
                ) by {
                    if key != ino {
                        assert(before.contains_key(key) && fs@[key] == before[key]);
                        assert(children_resolve(before, fs@[key]->Folder_0.children@));
                    }
                }
            }
            assert(children_are_slots(fs@, pid, (k + 1) as nat, prc.children@)) by {
                assert forall|i: int| 0 <= i < prc.children@.len() implies spec_primary_of(
                    #[trigger] prc.children@[i],
                ) == pid && 1 <= spec_secondary_of(prc.children@[i]) <= k + 1 && fs@.contains_key(
                    prc.children@[i],
                ) by {
                    if i < ch_before.len() {
                        assert(prc.children@[i] == ch_before[i]);
                        assert(before.contains_key(ch_before[i]));
                    } else {
                        assert(prc.children@[i] == ino);
                    }
                }
            }
            if pid_fresh(fs0, pid, mcount) {
                assert forall|j: int|
                    1 <= j <= k + 1 && #[trigger] fs@.contains_key(
                        spec_encode(pid, j as u32),
                    ) implies prc.children@.contains(spec_encode(pid, j as u32)) by {
                    let key = spec_encode(pid, j as u32);
                    lemma_identifier_round_trip(pid, j as u32);
                    if j <= k {
                        if before.contains_key(key) {
                            assert(ch_before.contains(key));
                            let i = choose|i: int| 0 <= i < ch_before.len() && ch_before[i] == key;
                            assert(prc.children@[i] == key);
                        } else {
                            assert(key != ino);
                            assert(!fs@.contains_key(key));
                        }
                    } else {
                        if fs@.contains_key(key) {
                            assert(key == ino);
                            assert(prc.children@.last() == ino);
                        }
                    }
                }
            }
        }
        k += 1;
    }
    let ghost pre_folder = fs@;
    let ghost prc_snapshot = prc;
    fs.insert(folder_id, VirtualEntry::Folder(prc));
    proof {
        lemma_identifier_round_trip(pid, 0);
        assert(spec_secondary_of(folder_id) == 0);
        assert(partial_wf(fs@)) by {
            assert forall|key: u64| #[trigger] fs@.contains_key(key) implies fs@[key].spec_inode()
                == key && spec_secondary_of(key) < 0xffff_ffffu32 by {
                if key != folder_id {
                    assert(pre_folder.contains_key(key) && fs@[key] == pre_folder[key]);
                }
            }
            assert forall|key: u64| #[trigger]
                fs@.contains_key(key) && fs@[key] is Folder implies children_resolve(
                fs@,
                fs@[key]->Folder_0.children@,
            ) by {
                if key == folder_id {
                    assert(children_are_slots(
                        pre_folder,
                        pid,
                        mcount,
                        prc_snapshot.children@,
                    ));
                } else {
                    assert(pre_folder.contains_key(key) && fs@[key] == pre_folder[key]);
                    assert(children_resolve(pre_folder, fs@[key]->Folder_0.children@));
                }
            }
        }
        assert forall|key: u64| #[trigger] fs@.contains_key(key) implies fs0.contains_key(key)
            || slot_key(pid, mcount, key) by {
            if key == folder_id {
                assert(folder_id == spec_encode(pid, 0 as u32));
                assert(slot_key(pid, mcount, key));
            } else {
                assert(pre_folder.contains_key(key));
                if !fs0.contains_key(key) {
                    assert(spec_primary_of(key) == pid && 1 <= spec_secondary_of(key) <= mcount);
                    lemma_components_encode(key);
                    assert(key == #[trigger] spec_encode(pid, (spec_secondary_of(key) as int) as u32));
                    assert(slot_key(pid, mcount, key));
                }
            }
        }
        assert forall|key: u64| !slot_key(pid, mcount, key) implies (fs@.contains_key(key)
            == fs0.contains_key(key) && (fs0.contains_key(key) ==> fs@[key] == fs0[key])) by {
            assert(key != folder_id) by {
                if key == folder_id {
                    assert(key == spec_encode(pid, 0 as u32));
                }
            }
            if spec_primary_of(key) == pid && 1 <= spec_secondary_of(key) <= mcount {
                lemma_components_encode(key);
                assert(key == #[trigger] spec_encode(pid, (spec_secondary_of(key) as int) as u32));
                assert(slot_key(pid, mcount, key));
            }
            assert(!(spec_primary_of(key) == pid && 1 <= spec_secondary_of(key) <= mcount));
            assert(pre_folder.contains_key(key) == fs0.contains_key(key));
            assert(fs0.contains_key(key) ==> pre_folder[key] == fs0[key]);
            assert(fs@.contains_key(key) == pre_folder.contains_key(key));
            assert(pre_folder.contains_key(key) ==> fs@[key] == pre_folder[key]);
        }
        assert(pid_fresh(fs0, pid, mcount) ==> children_complete(
            fs@,
            pid,
            mcount,
            fs@[proc_folder_id(pid)]->Folder_0.children@,
        )) by {
            if pid_fresh(fs0, pid, mcount) {
                assert forall|j: int|
                    1 <= j <= mcount && #[trigger] fs@.contains_key(
                        spec_encode(pid, j as u32),
                    ) implies prc_snapshot.children@.contains(spec_encode(pid, j as u32)) by {
                    let slot = spec_encode(pid, j as u32);
                    lemma_identifier_round_trip(pid, j as u32);
                    lemma_identifier_round_trip(pid, 0);
                    assert(slot != folder_id);
                    assert(pre_folder.contains_key(slot));
                }
            }
        }
        assert(children_are_slots(
            fs@,
            pid,
            mcount,
            fs@[proc_folder_id(pid)]->Folder_0.children@,
        )) by {
            assert(fs@[folder_id]->Folder_0.children@ == prc_snapshot.children@);
            assert forall|i: int| 0 <= i < prc_snapshot.children@.len() implies spec_primary_of(
                #[trigger] prc_snapshot.children@[i],
            ) == pid && 1 <= spec_secondary_of(prc_snapshot.children@[i]) <= mcount
                && fs@.contains_key(prc_snapshot.children@[i]) by {
                assert(pre_folder.contains_key(prc_snapshot.children@[i]));
            }
        }
    }
    folder_id
}


/// One builder step, dom coverage: every key of the extended tree lies in
/// the identifier space of the first `i + 1` processes.
#[verifier::rlimit(30)]
proof fn lemma_build_step_ids<C>(
    before: Map<u64, VirtualEntry<C>>,
    after: Map<u64, VirtualEntry<C>>,
    procs: Seq<ProcessInfo>,
    i: int,
    mcount: nat,
)
    requires
        0 <= i < procs.len(),
        prefix_covered(before, procs, i, mcount),
        forall|key: u64| #[trigger] after.contains_key(key) ==> before.contains_key(key)
            || slot_key(procs[i].pid, mcount, key),
    ensures
        prefix_covered(after, procs, i + 1, mcount),
{
    reveal(prefix_covered);
    let p_pid = procs[i].pid;
    assert forall|key: u64| #[trigger] after.contains_key(key) implies id_from_procs(
        procs.take(i + 1),
        mcount,
        key,
    ) by {
        if before.contains_key(key) {
            assert(id_from_procs(procs.take(i), mcount, key));
            let l = choose|l: int| 0 <= l < procs.take(i).len() && slot_key(
                #[trigger] procs.take(i)[l].pid,
                mcount,
                key,
            );
            assert(procs.take(i + 1)[l] == procs.take(i)[l]);
            assert(slot_key(procs.take(i + 1)[l].pid, mcount, key));
        } else {
            assert(slot_key(p_pid, mcount, key));
            assert(procs.take(i + 1)[i].pid == p_pid);
        }
    }
}

/// One builder step, folder presence: the process folders of the first
/// `i + 1` processes all stand in the extended tree.
#[verifier::rlimit(30)]
proof fn lemma_build_step_folders<C>(
    before: Map<u64, VirtualEntry<C>>,
    after: Map<u64, VirtualEntry<C>>,
    procs: Seq<ProcessInfo>,
    i: int,
    mcount: nat,
)
    requires
        0 <= i < procs.len(),
        mcount < 0xffff_ffff,
        forall|l: int| 0 <= l < i ==> before.contains_key(
            proc_folder_id(#[trigger] procs[l].pid),
        ) && before[proc_folder_id(procs[l].pid)] is Folder,
        forall|key: u64| !slot_key(procs[i].pid, mcount, key) ==> (#[trigger] after.contains_key(
            key,
        ) == before.contains_key(key) && (before.contains_key(key) ==> after[key]
            == before[key])),
        after.contains_key(proc_folder_id(procs[i].pid)),
        after[proc_folder_id(procs[i].pid)] is Folder,
    ensures
        forall|l: int| 0 <= l < i + 1 ==> after.contains_key(
            proc_folder_id(#[trigger] procs[l].pid),
        ) && after[proc_folder_id(procs[l].pid)] is Folder,
{
    let p_pid = procs[i].pid;
    assert forall|l: int| 0 <= l < i + 1 implies after.contains_key(
        proc_folder_id(#[trigger] procs[l].pid),
    ) && after[proc_folder_id(procs[l].pid)] is Folder by {
        if l < i {
            let key = proc_folder_id(procs[l].pid);
            lemma_identifier_round_trip(procs[l].pid, 0);
            if !slot_key(p_pid, mcount, key) {
                assert(after.contains_key(key) == before.contains_key(key));
                assert(before.contains_key(key) ==> after[key] == before[key]);
            } else {
                let j = choose|j: int| 0 <= j <= mcount && key == #[trigger] spec_encode(
                    p_pid,
                    j as u32,
                );
                lemma_identifier_round_trip(p_pid, j as u32);
                assert(spec_primary_of(key) == p_pid);
                assert(spec_primary_of(key) == procs[l].pid);
                assert(spec_secondary_of(key) == 0);
                assert(key == proc_folder_id(p_pid));
            }
        }
    }
}

/// One builder step, exactness: with pairwise distinct nonzero process
/// ids, every process folder of the first `i + 1` processes carries its
/// exact name and child list in the extended tree.
#[verifier::rlimit(60)]
proof fn lemma_build_step_exact<C>(
    before: Map<u64, VirtualEntry<C>>,
    after: Map<u64, VirtualEntry<C>>,
    procs: Seq<ProcessInfo>,
    i: int,
    mcount: nat,
)
    requires
        0 <= i < procs.len(),
        mcount < 0xffff_ffff,
        distinct_nonzero_pids(procs),
        prefix_covered(before, procs, i, mcount),
        forall|l: int| 0 <= l < i ==> process_folder_exact(before, #[trigger] procs[l], mcount),
        forall|key: u64| #[trigger] before.contains_key(key) ==> after.contains_key(key),
        forall|key: u64| !slot_key(procs[i].pid, mcount, key) ==> (#[trigger] after.contains_key(
            key,
        ) == before.contains_key(key) && (before.contains_key(key) ==> after[key]
            == before[key])),
        after.contains_key(proc_folder_id(procs[i].pid)),
        after[proc_folder_id(procs[i].pid)] is Folder,
        after[proc_folder_id(procs[i].pid)]->Folder_0.name@ == spec_folder_name(
            procs[i].pid,
            procs[i].name@,
        ),
        children_are_slots(
            after,
            procs[i].pid,
            mcount,
            after[proc_folder_id(procs[i].pid)]->Folder_0.children@,
        ),
        pid_fresh(before, procs[i].pid, mcount) ==> children_complete(
            after,
            procs[i].pid,
            mcount,
            after[proc_folder_id(procs[i].pid)]->Folder_0.children@,
        ),
    ensures
        forall|l: int| 0 <= l < i + 1 ==> process_folder_exact(after, #[trigger] procs[l], mcount),
{
    reveal(process_folder_exact);
    reveal(prefix_covered);
    let p_pid = procs[i].pid;
    assert(pid_fresh(before, p_pid, mcount)) by {
        assert forall|j: int| 0 <= j <= mcount implies !(#[trigger] before.contains_key(
            spec_encode(p_pid, j as u32),
        )) by {
            let key = spec_encode(p_pid, j as u32);
            lemma_identifier_round_trip(p_pid, j as u32);
            if before.contains_key(key) {
                assert(id_from_procs(procs.take(i), mcount, key));
                let l2 = choose|l2: int| 0 <= l2 < procs.take(i).len() && slot_key(
                    #[trigger] procs.take(i)[l2].pid,
                    mcount,
                    key,
                );
                let j2 = choose|j2: int| 0 <= j2 <= mcount && key == #[trigger] spec_encode(
                    procs.take(i)[l2].pid,
                    j2 as u32,
                );
                lemma_identifier_round_trip(procs.take(i)[l2].pid, j2 as u32);
                assert(spec_primary_of(key) == procs[l2].pid);
                assert(spec_primary_of(key) == p_pid);
            }
        }
    }
    assert forall|l: int| 0 <= l < i + 1 implies process_folder_exact(
        after,
        #[trigger] procs[l],
        mcount,
    ) by {
        if l < i {
            let other = procs[l].pid;
            assert(other != p_pid);
            lemma_untouched_process(before, after, p_pid, other, mcount);
            assert(process_folder_exact(before, procs[l], mcount));
        }
    }
}

/// Builds the complete entry mapping of one connection from the reported
/// process list and the registered process-scope modules.
#[verifier::rlimit(100)]
pub fn build_tree<M: VMFSModule>(
    conn_id: &str,
    modules: &Vec<M>,
    procs: &Vec<ProcessInfo>,
) -> (fs: HashMap<u64, VirtualEntry<M::Content>>)
    requires
        modules@.len() < 0xffff_ffff,
    ensures
        tree_wf(fs@),
        built_from(fs@, procs@, modules@.len() as nat),
        root_folder_exact(fs@, conn_id@, procs@),
        forall|l: int| 0 <= l < procs@.len() && procs@[l].pid != 0 ==> fs@.contains_key(
            proc_folder_id(#[trigger] procs@[l].pid),
        ) && fs@[proc_folder_id(procs@[l].pid)] is Folder,
        distinct_nonzero_pids(procs@) ==> forall|l: int| 0 <= l < procs@.len()
            ==> process_folder_exact(fs@, #[trigger] procs@[l], modules@.len() as nat),
{
    let ghost mcount = modules@.len() as nat;
    let mut fs: HashMap<u64, VirtualEntry<M::Content>> = HashMap::new();
    let mut root_children: Vec<u64> = Vec::new();
    proof {
        reveal(prefix_covered);
        assert(prefix_covered(fs@, procs@, 0, mcount));
    }
    let mut i: usize = 0;
    while i < procs.len()
        invariant
            i <= procs@.len(),
            mcount == modules@.len(),
            mcount < 0xffff_ffff,
            partial_wf(fs@),
            prefix_covered(fs@, procs@, i as int, mcount),
            root_children@ == procs@.take(i as int).map_values(
                |p: ProcessInfo| proc_folder_id(p.pid),
            ),
            forall|l: int| 0 <= l < i ==> fs@.contains_key(
                proc_folder_id(#[trigger] procs@[l].pid),
            ) && fs@[proc_folder_id(procs@[l].pid)] is Folder,
            distinct_nonzero_pids(procs@) ==> forall|l: int| 0 <= l < i ==> process_folder_exact(
                fs@,
                #[trigger] procs@[l],
                mcount,
            ),
        decreases procs@.len() - i,
    {
        let ghost before = fs@;
        let p_pid = procs[i].pid;
        let p_name = procs[i].name.as_str();
        let fid = build_process(&mut fs, conn_id, modules, p_pid, p_name);
        root_children.push(fid);
        proof {
            assert(procs@.take(i + 1 as int) =~= procs@.take(i as int).push(procs@[i as int]));
            assert(root_children@ =~= procs@.take(i + 1 as int).map_values(
                |p: ProcessInfo| proc_folder_id(p.pid),
            ));
            lemma_build_step_ids(before, fs@, procs@, i as int, mcount);
            lemma_build_step_folders(before, fs@, procs@, i as int, mcount);
            if distinct_nonzero_pids(procs@) {
                lemma_build_step_exact(before, fs@, procs@, i as int, mcount);
            }

        }
        i += 1;
    }
    let ghost pre_root = fs@;
    let root = VirtualFolder { inode: 0, name: conn_id.to_owned(), children: root_children };
    let ghost root_snapshot = root;
    fs.insert(0, VirtualEntry::Folder(root));
    proof {
        assert(procs@.take(procs@.len() as int) =~= procs@);
        assert(spec_secondary_of(0) == 0) by (bit_vector);
        assert(spec_primary_of(0) == 0) by (bit_vector);
        assert(built_from(fs@, procs@, mcount)) by {
            reveal(prefix_covered);
            assert forall|k: u64| #[trigger] fs@.contains_key(k) implies k == 0 || id_from_procs(
                procs@,
                mcount,
                k,
            ) by {
                if k != 0 {
                    assert(pre_root.contains_key(k));
                }
            }
        }
        assert(partial_wf(fs@)) by {
            assert forall|key: u64| #[trigger] fs@.contains_key(key) implies fs@[key].spec_inode()
                == key && spec_secondary_of(key) < 0xffff_ffffu32 by {
                if key != 0 {
                    assert(pre_root.contains_key(key) && fs@[key] == pre_root[key]);
                }
            }
            assert forall|key: u64| #[trigger]
                fs@.contains_key(key) && fs@[key] is Folder implies children_resolve(
                fs@,
                fs@[key]->Folder_0.children@,
            ) by {
                if key == 0 {
                    assert forall|x: int|
                        0 <= x < root_snapshot.children@.len() implies fs@.contains_key(
                        #[trigger] root_snapshot.children@[x],
                    ) by {
                        assert(root_snapshot.children@[x] == proc_folder_id(procs@[x].pid));
                        if procs@[x].pid == 0 {
                            assert(proc_folder_id(0) == 0) by (bit_vector);
                        } else {
                            assert(pre_root.contains_key(proc_folder_id(procs@[x].pid)));
                        }
                    }
                } else {
                    assert(pre_root.contains_key(key) && fs@[key] == pre_root[key]);
                    assert(children_resolve(pre_root, fs@[key]->Folder_0.children@));
                }
            }
        }
        assert forall|l: int| 0 <= l < procs@.len() && procs@[l].pid != 0 implies fs@.contains_key(
            proc_folder_id(#[trigger] procs@[l].pid),
        ) && fs@[proc_folder_id(procs@[l].pid)] is Folder by {
            let key = proc_folder_id(procs@[l].pid);
            lemma_identifier_round_trip(procs@[l].pid, 0);
            assert(key != 0) by {
                if key == 0 {
                    assert(spec_primary_of(key) == procs@[l].pid);
                }
            }
            assert(pre_root.contains_key(key) && fs@[key] == pre_root[key]);
        }
        if distinct_nonzero_pids(procs@) {
            assert forall|l: int| 0 <= l < procs@.len() implies process_folder_exact(
                fs@,
                #[trigger] procs@[l],
                mcount,
            ) by {
                lemma_root_insert_keeps_process(pre_root, fs@, procs@[l], mcount);
            }
        }
    }
    fs
}

/// A build touches only the slots of its own process: the folder of a
/// different process, with everything `process_folder_exact` states of
/// it, survives untouched.
proof fn lemma_untouched_process<C>(
    before: Map<u64, VirtualEntry<C>>,
    after: Map<u64, VirtualEntry<C>>,
    built_pid: u32,
    other: u32,
    mcount: nat,
)
    requires
        built_pid != other,
        forall|key: u64| !slot_key(built_pid, mcount, key) ==> (#[trigger] after.contains_key(
            key,
        ) == before.contains_key(key) && (before.contains_key(key) ==> after[key]
            == before[key])),
        forall|key: u64| #[trigger] before.contains_key(key) ==> after.contains_key(key),
    ensures
        forall|p: ProcessInfo| p.pid == other && process_folder_exact(before, p, mcount)
            ==> process_folder_exact(after, p, mcount),
{
    reveal(process_folder_exact);
    assert forall|p: ProcessInfo| p.pid == other && process_folder_exact(
        before,
        p,
        mcount,
    ) implies process_folder_exact(after, p, mcount) by {
        let key = proc_folder_id(other);
        lemma_identifier_round_trip(other, 0);
        assert(!slot_key(built_pid, mcount, key)) by {
            if slot_key(built_pid, mcount, key) {
                let j = choose|j: int| 0 <= j <= mcount && key == #[trigger] spec_encode(
                    built_pid,
                    j as u32,
                );
                lemma_identifier_round_trip(built_pid, j as u32);
                assert(spec_primary_of(key) == built_pid);
                assert(spec_primary_of(key) == other);
            }
        }
        assert(after.contains_key(key) && after[key] == before[key]);
        let ch = after[key]->Folder_0.children@;
        assert(children_are_slots(after, other, mcount, ch)) by {
            assert forall|i: int| 0 <= i < ch.len() implies spec_primary_of(#[trigger] ch[i])
                == other && 1 <= spec_secondary_of(ch[i]) <= mcount && after.contains_key(
                ch[i],
            ) by {
                assert(before.contains_key(ch[i]));
            }
        }
        assert(children_complete(after, other, mcount, ch)) by {
            assert forall|j: int|
                1 <= j <= mcount && #[trigger] after.contains_key(
                    spec_encode(other, j as u32),
                ) implies ch.contains(spec_encode(other, j as u32)) by {
                let slot = spec_encode(other, j as u32);
                lemma_identifier_round_trip(other, j as u32);
                assert(!slot_key(built_pid, mcount, slot)) by {
                    if slot_key(built_pid, mcount, slot) {
                        let j2 = choose|j2: int| 0 <= j2 <= mcount && slot == #[trigger] spec_encode(
                            built_pid,
                            j2 as u32,
                        );
                        lemma_identifier_round_trip(built_pid, j2 as u32);
                        assert(spec_primary_of(slot) == built_pid);
                        assert(spec_primary_of(slot) == other);
                    }
                }
                assert(before.contains_key(slot));
            }
        }
    }
}

/// Inserting the root at identifier 0 leaves every nonzero-pid process
/// folder, with everything `process_folder_exact` states of it, as it
/// was.
proof fn lemma_root_insert_keeps_process<C>(
    before: Map<u64, VirtualEntry<C>>,
    after: Map<u64, VirtualEntry<C>>,
    p: ProcessInfo,
    mcount: nat,
)
    requires
        p.pid != 0,
        process_folder_exact(before, p, mcount),
        forall|key: u64| key != 0 ==> (#[trigger] after.contains_key(key)
            == before.contains_key(key) && (before.contains_key(key) ==> after[key]
            == before[key])),
        forall|key: u64| #[trigger] before.contains_key(key) ==> after.contains_key(key),
    ensures
        process_folder_exact(after, p, mcount),
{
    reveal(process_folder_exact);
    let key = proc_folder_id(p.pid);
    lemma_identifier_round_trip(p.pid, 0);
    assert(key != 0) by {
        if key == 0 {
            assert(spec_primary_of(key) == p.pid);
            assert(spec_primary_of(0) == 0) by (bit_vector);
        }
    }
    assert(after.contains_key(key) && after[key] == before[key]);
    let ch = after[key]->Folder_0.children@;
    assert forall|i: int| 0 <= i < ch.len() implies spec_primary_of(#[trigger] ch[i]) == p.pid
        && 1 <= spec_secondary_of(ch[i]) <= mcount && after.contains_key(ch[i]) by {
        assert(before.contains_key(ch[i]));
    }
    assert forall|j: int|
        1 <= j <= mcount && #[trigger] after.contains_key(
            spec_encode(p.pid, j as u32),
        ) implies ch.contains(spec_encode(p.pid, j as u32)) by {
        let slot = spec_encode(p.pid, j as u32);
        lemma_identifier_round_trip(p.pid, j as u32);
        assert(slot != 0) by {
            if slot == 0 {
                assert(spec_primary_of(slot) == p.pid);
                assert(spec_primary_of(0) == 0) by (bit_vector);
            }
        }
        assert(before.contains_key(slot));
    }
}

/// The set of slot identifiers one process occupies in a build.
pub open spec fn proc_slots(pid: u32, mcount: nat) -> Set<u64> {
    Set::new(|k: u64| slot_key(pid, mcount, k))
}

/// The full identifier space of a build: the root plus every slot of
/// every process.
pub open spec fn full_tree_ids(procs: Seq<ProcessInfo>, mcount: nat) -> Set<u64> {
    Set::new(|k: u64| k == 0 || id_from_procs(procs, mcount, k))
}

/// One process occupies exactly `mcount + 1` identifiers: its folder and
/// one per module slot.
proof fn lemma_proc_slots_card(pid: u32, mcount: nat)
    requires
        mcount < 0xffff_ffff,
    ensures
        proc_slots(pid, mcount).finite(),
        proc_slots(pid, mcount).len() == mcount + 1,
    decreases mcount,
{
    lemma_identifier_round_trip(pid, mcount as u32);
    if mcount == 0 {
        assert(proc_slots(pid, 0) =~= Set::empty().insert(spec_encode(pid, 0))) by {
            assert forall|k: u64| proc_slots(pid, 0 as nat).contains(k) implies Set::empty().insert(
                spec_encode(pid, 0),
            ).contains(k) by {
                let j = choose|j: int| 0 <= j <= 0 && k == #[trigger] spec_encode(pid, j as u32);
                assert(k == spec_encode(pid, 0));
            }
            assert(slot_key(pid, 0 as nat, spec_encode(pid, 0 as u32)));
        }
    } else {
        lemma_proc_slots_card(pid, (mcount - 1) as nat);
        let prev = proc_slots(pid, (mcount - 1) as nat);
        let top = spec_encode(pid, mcount as u32);
        assert(!prev.contains(top)) by {
            if prev.contains(top) {
                let j = choose|j: int| 0 <= j <= mcount - 1 && top == #[trigger] spec_encode(
                    pid,
                    j as u32,
                );
                lemma_identifier_round_trip(pid, j as u32);
            }
        }
        assert(proc_slots(pid, mcount) =~= prev.insert(top)) by {
            assert forall|k: u64| proc_slots(pid, mcount).contains(k) implies prev.insert(
                top,
            ).contains(k) by {
                let j = choose|j: int| 0 <= j <= mcount && k == #[trigger] spec_encode(
                    pid,
                    j as u32,
                );
                if j < mcount {
                    assert(slot_key(pid, (mcount - 1) as nat, k));
                }
            }
            assert forall|k: u64| prev.insert(top).contains(k) implies proc_slots(
                pid,
                mcount,
            ).contains(k) by {
                if k == top {
                    assert(k == spec_encode(pid, mcount as u32));
                    assert(slot_key(pid, mcount, k));
                } else {
                    let j = choose|j: int| 0 <= j <= mcount - 1 && k == #[trigger] spec_encode(
                        pid,
                        j as u32,
                    );
                    assert(slot_key(pid, mcount, k));
                }
            }
        }
    }
}

/// The identifier space of `N` distinct nonzero processes holds exactly
/// `1 + N * (M + 1)` identifiers.
proof fn lemma_full_tree_count(procs: Seq<ProcessInfo>, mcount: nat)
    requires
        distinct_nonzero_pids(procs),
        mcount < 0xffff_ffff,
    ensures
        full_tree_ids(procs, mcount).finite(),
        full_tree_ids(procs, mcount).len() == 1 + procs.len() * (mcount + 1),
    decreases procs.len(),
{
    if procs.len() == 0 {
        assert(full_tree_ids(procs, mcount) =~= Set::empty().insert(0u64));
    } else {
        let pre = procs.drop_last();
        let last = procs.last();
        assert(distinct_nonzero_pids(pre)) by {
            assert(forall|l: int| 0 <= l < pre.len() ==> pre[l] == procs[l]);
        }
        lemma_full_tree_count(pre, mcount);
        lemma_proc_slots_card(last.pid, mcount);
        let left = full_tree_ids(pre, mcount);
        let right = proc_slots(last.pid, mcount);
        assert(full_tree_ids(procs, mcount) =~= left + right) by {
            assert forall|k: u64| full_tree_ids(procs, mcount).contains(k) implies (left
                + right).contains(k) by {
                if k != 0 {
                    let l = choose|l: int| 0 <= l < procs.len() && slot_key(
                        #[trigger] procs[l].pid,
                        mcount,
                        k,
                    );
                    if l < procs.len() - 1 {
                        assert(pre[l] == procs[l]);
                        assert(id_from_procs(pre, mcount, k));
                        assert(left.contains(k));
                    } else {
                        assert(right.contains(k));
                    }
                }
            }
            assert forall|k: u64| (left + right).contains(k) implies full_tree_ids(
                procs,
                mcount,
            ).contains(k) by {
                if left.contains(k) {
                    if k != 0 {
                        let l = choose|l: int| 0 <= l < pre.len() && slot_key(
                            #[trigger] pre[l].pid,
                            mcount,
                            k,
                        );
                        assert(procs[l] == pre[l]);
                        assert(id_from_procs(procs, mcount, k));
                    }
                } else {
                    assert(right.contains(k));
                    assert(procs[procs.len() - 1].pid == last.pid);
                    assert(id_from_procs(procs, mcount, k));
                }
            }
        }
        assert(left.disjoint(right)) by {
            assert forall|k: u64| left.contains(k) implies !right.contains(k) by {
                if right.contains(k) {
                    let j = choose|j: int| 0 <= j <= mcount && k == #[trigger] spec_encode(
                        last.pid,
                        j as u32,
                    );
                    lemma_identifier_round_trip(last.pid, j as u32);
                    assert(spec_primary_of(k) == last.pid);
                    assert(last.pid != 0);
                    if k == 0 {
                        assert(spec_primary_of(0) == 0) by (bit_vector);
                    } else {
                        let l = choose|l: int| 0 <= l < pre.len() && slot_key(
                            #[trigger] pre[l].pid,
                            mcount,
                            k,
                        );
                        let j2 = choose|j2: int| 0 <= j2 <= mcount && k == #[trigger] spec_encode(
                            pre[l].pid,
                            j2 as u32,
                        );
                        lemma_identifier_round_trip(pre[l].pid, j2 as u32);
                        assert(spec_primary_of(k) == pre[l].pid);
                        assert(procs[l].pid != procs[procs.len() - 1].pid);
                    }
                }
            }
        }
        vstd::set_lib::lemma_set_disjoint_lens(left, right);
        assert((left + right).len() == left.len() + right.len());
        assert(1 + (procs.len() - 1) * (mcount + 1) + (mcount + 1) == 1 + procs.len() * (mcount
            + 1)) by (nonlinear_arith);
    }
}

/// Law: a tree built from `N` distinct processes, each with every one of
/// its `M` module slots materialized, holds exactly `1 + N + N * M`
/// entries. Their identifiers are pairwise distinct by construction: they
/// are the keys of one mapping.
pub proof fn lemma_tree_uniqueness<C>(
    t: Map<u64, VirtualEntry<C>>,
    procs: Seq<ProcessInfo>,
    mcount: nat,
)
    requires
        distinct_nonzero_pids(procs),
        mcount < 0xffff_ffff,
        t.dom() == full_tree_ids(procs, mcount),
    ensures
        t.dom().finite(),
        t.dom().len() == 1 + procs.len() + procs.len() * mcount,
{
    lemma_full_tree_count(procs, mcount);
    assert(procs.len() * (mcount + 1) == procs.len() + procs.len() * mcount) by (nonlinear_arith);
}


/// Law: when a build has materialized every slot — the root, each
/// process folder, and each module entry of each process — its key set
/// is exactly the full identifier space, so `lemma_tree_uniqueness`
/// applies to it.
pub proof fn lemma_full_build_covers<C>(
    t: Map<u64, VirtualEntry<C>>,
    procs: Seq<ProcessInfo>,
    mcount: nat,
)
    requires
        built_from(t, procs, mcount),
        t.contains_key(0),
        forall|l: int| 0 <= l < procs.len() ==> t.contains_key(
            proc_folder_id(#[trigger] procs[l].pid),
        ),
        forall|l: int, j: int| 0 <= l < procs.len() && 1 <= j <= mcount ==> t.contains_key(
            spec_encode(#[trigger] procs[l].pid, #[trigger] (j as u32)),
        ),
    ensures
        t.dom() == full_tree_ids(procs, mcount),
{
    assert forall|k: u64| t.dom().contains(k) implies full_tree_ids(procs, mcount).contains(
        k,
    ) by {
        assert(t.contains_key(k));
    }
    assert forall|k: u64| full_tree_ids(procs, mcount).contains(k) implies t.dom().contains(
        k,
    ) by {
        if k != 0 {
            let l = choose|l: int| 0 <= l < procs.len() && slot_key(
                #[trigger] procs[l].pid,
                mcount,
                k,
            );
            let j = choose|j: int| 0 <= j <= mcount && k == #[trigger] spec_encode(
                procs[l].pid,
                j as u32,
            );
            if j == 0 {
                assert(t.contains_key(proc_folder_id(procs[l].pid)));
            } else {
                assert(t.contains_key(spec_encode(procs[l].pid, j as u32)));
            }
        }
    }
    assert(t.dom() =~= full_tree_ids(procs, mcount));
}

/// Law: a nonzero identifier whose process is absent from the list a
/// tree was built from does not resolve in that tree. A rebuild that
/// drops a process therefore invalidates every identifier under it.
pub proof fn lemma_stale_identifier<C>(
    t: Map<u64, VirtualEntry<C>>,
    procs: Seq<ProcessInfo>,
    mcount: nat,
    id: u64,
)
    requires
        built_from(t, procs, mcount),
        id != 0,
        forall|l: int| 0 <= l < procs.len() ==> (#[trigger] procs[l].pid) != spec_primary_of(id),
    ensures
        !t.contains_key(id),
{
    if t.contains_key(id) {
        let l = choose|l: int| 0 <= l < procs.len() && slot_key(
            #[trigger] procs[l].pid,
            mcount,
            id,
        );
        let j = choose|j: int| 0 <= j <= mcount && id == #[trigger] spec_encode(
            procs[l].pid,
            j as u32,
        );
        lemma_identifier_round_trip(procs[l].pid, j as u32);
    }
}

} // verus!
