//! The filesystem protocol adapter: lookup, getattr, read and readdir.
//!
//! Identifiers at this boundary are offset by one against the tree's own:
//! the host protocol reserves 0 for its super-root, so every incoming
//! identifier is decremented before the tree is consulted and every
//! outgoing one incremented. Lookup, getattr and readdir refresh the
//! snapshot first; read does not, keeping an open file's view stable
//! mid-read. Every failure is the protocol's not-found answer — a stale
//! identifier, an unknown name, a read on a folder — and a read past the
//! end of a file's content yields no bytes rather than a fault.

use vstd::prelude::*;

use crate::entry::{ContentSource, ProcessLister, VMFSModule, VirtualEntry};
use crate::ident::{lemma_bounded_secondary_bounds_id, spec_secondary_of};
use crate::names::str_eq;
use crate::vmfs::VirtualMemoryFileSystem;

verus! {

broadcast use vstd::std_specs::hash::group_hash_axioms;

/// The attribute-cache time-to-live signaled to the host protocol.
pub const ATTR_TTL_SECS: u64 = 1;

/// What an entry is to the host protocol.
#[derive(Clone, Copy, PartialEq, Eq, Structural, Debug)]
pub enum EntryKind {
    Directory,
    RegularFile,
}

/// The attributes reported for one entry. Folders report directory
/// semantics with a fixed small link count and no size; files report
/// regular-file semantics with their current content length. Entries are
/// synthetic and timeless, so no timestamps are tracked: callers report
/// the conventional epoch origin.
#[derive(Clone, Copy, PartialEq, Eq, Structural, Debug)]
pub struct FileAttributes {
    /// The entry's identifier at the protocol boundary (tree identifier
    /// plus one).
    pub ino: u64,
    pub size: u64,
    pub blocks: u64,
    pub kind: EntryKind,
    pub perm: u16,
    pub nlink: u32,
    pub uid: u32,
    pub gid: u32,
}

/// One row of a directory listing.
pub struct DirEntry {
    /// The listed entry's identifier at the protocol boundary.
    pub ino: u64,
    pub kind: EntryKind,
    pub name: String,
}

/// The attributes of a folder with the given tree identifier.
pub open spec fn spec_folder_attr(inode: u64, uid: u32, gid: u32) -> FileAttributes {
    FileAttributes {
        ino: (inode + 1) as u64,
        size: 0,
        blocks: 0,
        kind: EntryKind::Directory,
        perm: 0o755,
        nlink: 2,
        uid,
        gid,
    }
}

/// The attributes of a file with the given tree identifier and current
/// content length.
pub open spec fn spec_file_attr(inode: u64, size: u64, uid: u32, gid: u32) -> FileAttributes {
    FileAttributes {
        ino: (inode + 1) as u64,
        size,
        blocks: 1,
        kind: EntryKind::RegularFile,
        perm: 0o644,
        nlink: 1,
        uid,
        gid,
    }
}

/// Resolution of a protocol-boundary identifier against a tree: subtract
/// the offset and consult the mapping; 0 never resolves.
pub open spec fn resolve<C>(t: Map<u64, VirtualEntry<C>>, ext: u64) -> Option<VirtualEntry<C>> {
    if ext >= 1 && t.contains_key((ext - 1) as u64) {
        Some(t[(ext - 1) as u64])
    } else {
        None
    }
}

/// The first child of the list that resolves and carries the wanted
/// name, scanning in list order.
pub open spec fn first_match<C>(
    t: Map<u64, VirtualEntry<C>>,
    children: Seq<u64>,
    name: Seq<char>,
) -> Option<u64>
    decreases children.len(),
{
    if children.len() == 0 {
        None
    } else if t.contains_key(children[0]) && t[children[0]].spec_name() == name {
        Some(children[0])
    } else {
        first_match(t, children.skip(1), name)
    }
}

/// What a lookup of `name` under `parent` lands on: the first matching
/// child, provided `parent` resolves to a folder.
pub open spec fn spec_lookup_target<C>(
    t: Map<u64, VirtualEntry<C>>,
    parent: u64,
    name: Seq<char>,
) -> Option<u64> {
    match resolve(t, parent) {
        Some(VirtualEntry::Folder(f)) => first_match(t, f.children@, name),
        _ => None,
    }
}

/// Whether `attr` reports `entry` for an owner: exact for a folder, and
/// exact but for the live content length for a file.
pub open spec fn attr_reports<C>(
    entry: VirtualEntry<C>,
    attr: FileAttributes,
    uid: u32,
    gid: u32,
) -> bool {
    match entry {
        VirtualEntry::Folder(f) => attr == spec_folder_attr(f.inode, uid, gid),
        VirtualEntry::File(f) => attr == spec_file_attr(f.inode, attr.size, uid, gid),
    }
}

/// The number of rows a full listing of a folder with `k` children has:
/// the two dot rows and one per child.
pub open spec fn spec_listing_total(k: nat) -> nat {
    k + 2
}

/// Where in the full listing a paginated one starts: the requested
/// offset, clamped to the end.
pub open spec fn spec_listing_start(k: nat, start_offset: u64) -> nat {
    if start_offset > spec_listing_total(k) {
        spec_listing_total(k)
    } else {
        start_offset as nat
    }
}

/// The identifier reported in row `x` of a full listing.
pub open spec fn spec_listing_ino<C>(t: Map<u64, VirtualEntry<C>>, ch: Seq<u64>, x: int) -> u64 {
    if x < 2 {
        1
    } else {
        (t[ch[x - 2]].spec_inode() + 1) as u64
    }
}

/// The kind reported in row `x` of a full listing.
pub open spec fn spec_listing_kind<C>(
    t: Map<u64, VirtualEntry<C>>,
    ch: Seq<u64>,
    x: int,
) -> EntryKind {
    if x < 2 {
        EntryKind::Directory
    } else {
        match t[ch[x - 2]] {
            VirtualEntry::Folder(_) => EntryKind::Directory,
            VirtualEntry::File(_) => EntryKind::RegularFile,
        }
    }
}

/// The name reported in row `x` of a full listing: the two dot rows,
/// then the children's names in list order.
pub open spec fn spec_listing_name<C>(
    t: Map<u64, VirtualEntry<C>>,
    ch: Seq<u64>,
    x: int,
) -> Seq<char> {
    if x == 0 {
        seq!['.']
    } else if x == 1 {
        seq!['.', '.']
    } else {
        t[ch[x - 2]].spec_name()
    }
}

/// Law: a listing of a folder with `k` children taken from offset 0
/// holds all `k + 2` rows, and one taken from offset `k + 2` holds none.
pub proof fn lemma_readdir_pagination(k: nat, start_offset: u64)
    ensures
        start_offset == 0 ==> spec_listing_total(k) - spec_listing_start(k, start_offset) == k
            + 2,
        start_offset >= k + 2 ==> spec_listing_total(k) - spec_listing_start(k, start_offset)
            == 0,
{
}

/// The tail of a payload from a byte offset: every byte from `offset`
/// on, in order, and no bytes at all when the offset lies past the end —
/// never a fault.
pub fn payload_slice(payload: &Vec<u8>, offset: u64) -> (r: Vec<u8>)
    ensures
        offset <= payload@.len() ==> r@ == payload@.skip(offset as int),
        offset > payload@.len() ==> r@ == Seq::<u8>::empty(),
{
    let len = payload.len();
    let mut out: Vec<u8> = Vec::new();
    if offset >= len as u64 {
        return out;
    }
    let mut j: usize = offset as usize;
    while j < len
        invariant
            offset < len as u64,
            len == payload@.len(),
            offset as int <= j <= len,
            out@ == payload@.subrange(offset as int, j as int),
        decreases len - j,
    {
        out.push(payload[j]);
        proof {
            assert(out@ =~= payload@.subrange(offset as int, j + 1 as int));
        }
        j += 1;
    }
    proof {
        assert(out@ =~= payload@.skip(offset as int));
    }
    out
}

impl<M: VMFSModule> VirtualMemoryFileSystem<M> {
    /// The attributes of one resolved entry, with a file's size taken
    /// live from its content source.
    fn attr_of(&self, entry: &VirtualEntry<M::Content>) -> (attr: FileAttributes)
        requires
            self.wf(),
            self.file_system@.contains_key(entry.spec_inode()),
            self.file_system@[entry.spec_inode()] == *entry,
        ensures
            attr_reports(*entry, attr, self.uid, self.gid),
    {
        proof {
            lemma_bounded_secondary_bounds_id(entry.spec_inode());
        }
        match entry {
            VirtualEntry::Folder(folder) => FileAttributes {
                ino: 1 + folder.inode,
                size: 0,
                blocks: 0,
                kind: EntryKind::Directory,
                perm: 0o755,
                nlink: 2,
                uid: self.uid,
                gid: self.gid,
            },
            VirtualEntry::File(file) => FileAttributes {
                ino: 1 + file.inode,
                size: file.source.length(),
                blocks: 1,
                kind: EntryKind::RegularFile,
                perm: 0o644,
                nlink: 1,
                uid: self.uid,
                gid: self.gid,
            },
        }
    }

    /// Looks a child up by name under a parent folder: refreshes, then
    /// scans the folder's children in order for the first whose name
    /// matches exactly, answering its attributes, or not-found when the
    /// parent does not resolve to a folder or no child matches.
    pub fn lookup<L: ProcessLister>(
        &mut self,
        lister: &L,
        now: u64,
        parent: u64,
        name: &str,
    ) -> (r: Option<FileAttributes>)
        requires
            old(self).wf(),
        ensures
            final(self).wf(),
            r is Some <==> spec_lookup_target(final(self).file_system@, parent, name@) is Some,
            (r matches Some(attr) ==> attr_reports(
                final(self).file_system@[spec_lookup_target(
                    final(self).file_system@,
                    parent,
                    name@,
                )->Some_0],
                attr,
                final(self).uid,
                final(self).gid,
            )),
            final(self).uid == old(self).uid,
            final(self).gid == old(self).gid,
    {
        self.update_file_system(lister, now);
        let ghost t = self.file_system@;
        if parent == 0 {
            return None;
        }
        let key = parent - 1;
        let parent_entry = match self.file_system.get(&key) {
            Some(e) => e,
            None => {
                return None;
            },
        };
        let folder = match parent_entry {
            VirtualEntry::Folder(f) => f,
            VirtualEntry::File(_) => {
                return None;
            },
        };
        let ghost ch = folder.children@;
        let n = folder.children.len();
        proof {
            assert(ch.skip(0) =~= ch);
        }
        let mut i: usize = 0;
        while i < n
            invariant
                self.wf(),
                t == self.file_system@,
                i <= n,
                n == ch.len(),
                folder.children@ == ch,
                self.uid == old(self).uid,
                self.gid == old(self).gid,
                parent >= 1,
                key == parent - 1,
                t.contains_key(key),
                t[key] is Folder,
                t[key]->Folder_0.children@ == ch,
                first_match(t, ch.skip(i as int), name@) == first_match(t, ch, name@),
            decreases n - i,
        {
            let child = folder.children[i];
            proof {
                assert(t.contains_key(ch[i as int]));
            }
            let child_entry = match self.file_system.get(&child) {
                Some(e) => e,
                None => {
                    proof {
                        assert(false);
                    }
                    return None;
                },
            };
            if str_eq(child_entry.name(), name) {
                proof {
                    assert(ch.skip(i as int)[0] == ch[i as int]);
                    assert(first_match(t, ch.skip(i as int), name@) == Some(ch[i as int]));
                }
                let attr = self.attr_of(child_entry);
                return Some(attr);
            }
            proof {
                assert(ch.skip(i as int)[0] == ch[i as int]);
                assert(ch.skip(i as int).skip(1) =~= ch.skip(i + 1 as int));
            }
            i += 1;
        }
        proof {
            assert(ch.skip(n as int) =~= Seq::<u64>::empty());
        }
        None
    }

    /// Answers the attributes of one identifier: refreshes, resolves,
    /// and reports directory or file attributes, or not-found for an
    /// identifier the current tree does not hold.
    pub fn getattr<L: ProcessLister>(&mut self, lister: &L, now: u64, ino: u64) -> (r: Option<
        FileAttributes,
    >)
        requires
            old(self).wf(),
        ensures
            final(self).wf(),
            r is Some <==> resolve(final(self).file_system@, ino) is Some,
            (r matches Some(attr) ==> attr_reports(
                resolve(final(self).file_system@, ino)->Some_0,
                attr,
                final(self).uid,
                final(self).gid,
            )),
            final(self).uid == old(self).uid,
            final(self).gid == old(self).gid,
    {
        self.update_file_system(lister, now);
        if ino == 0 {
            return None;
        }
        let key = ino - 1;
        let entry = match self.file_system.get(&key) {
            Some(e) => e,
            None => {
                return None;
            },
        };
        Some(self.attr_of(entry))
    }

    /// Reads a file's content from a byte offset. No refresh happens
    /// here: an open file keeps its view mid-read. The content source is
    /// invoked anew on every call, its full current payload is sliced
    /// from the offset, and an offset past the end yields no bytes. A
    /// folder, or an identifier the tree does not hold, is not-found.
    /// The requested length is not applied here: callers truncate the
    /// answer themselves, as the host protocol permits.
    pub fn read(&self, ino: u64, offset: u64, _max_length: u32) -> (r: Option<Vec<u8>>)
        ensures
            r is Some <==> (resolve(self.file_system@, ino) matches Some(
                VirtualEntry::File(_),
            )),
    {
        if ino == 0 {
            return None;
        }
        let key = ino - 1;
        let entry = match self.file_system.get(&key) {
            Some(e) => e,
            None => {
                return None;
            },
        };
        let file = match entry {
            VirtualEntry::Folder(_) => {
                return None;
            },
            VirtualEntry::File(f) => f,
        };
        let payload = file.source.bytes();
        Some(payload_slice(&payload, offset))
    }

    /// Lists a folder: refreshes, resolves the identifier as a folder,
    /// synthesizes the two dot rows, then the children in list order,
    /// and answers the rows from `start_offset` on — callers resume by
    /// passing back the index of the next unread row. Not-found for a
    /// file or an identifier the tree does not hold.
    pub fn readdir<L: ProcessLister>(
        &mut self,
        lister: &L,
        now: u64,
        ino: u64,
        start_offset: u64,
    ) -> (r: Option<Vec<DirEntry>>)
        requires
            old(self).wf(),
        ensures
            final(self).wf(),
            r is Some <==> (resolve(final(self).file_system@, ino) matches Some(
                VirtualEntry::Folder(_),
            )),
            (r matches Some(rows) ==> {
                let t = final(self).file_system@;
                let ch = t[(ino - 1) as u64]->Folder_0.children@;
                let start = spec_listing_start(ch.len(), start_offset);
                &&& rows@.len() == spec_listing_total(ch.len()) - start
                &&& forall|x: int| 0 <= x < rows@.len() ==> (#[trigger] rows@[x]).ino
                    == spec_listing_ino(t, ch, x + start) && rows@[x].kind == spec_listing_kind(
                    t,
                    ch,
                    x + start,
                ) && rows@[x].name@ == spec_listing_name(t, ch, x + start)
            }),
    {
        self.update_file_system(lister, now);
        let ghost t = self.file_system@;
        if ino == 0 {
            return None;
        }
        let key = ino - 1;
        let entry = match self.file_system.get(&key) {
            Some(e) => e,
            None => {
                return None;
            },
        };
        let folder = match entry {
            VirtualEntry::Folder(f) => f,
            VirtualEntry::File(_) => {
                return None;
            },
        };
        let ghost ch = folder.children@;
        let n = folder.children.len();
        let ghost start = spec_listing_start(ch.len(), start_offset);
        let mut rows: Vec<DirEntry> = Vec::new();
        if start_offset == 0 {
            let mut dot = String::new();
            crate::names::push_char(&mut dot, '.');
            rows.push(DirEntry { ino: 1, kind: EntryKind::Directory, name: dot });
        }
        if start_offset <= 1 {
            let mut dotdot = String::new();
            crate::names::push_char(&mut dotdot, '.');
            crate::names::push_char(&mut dotdot, '.');
            rows.push(DirEntry { ino: 1, kind: EntryKind::Directory, name: dotdot });
        }
        let begin: usize = if start_offset <= 2 {
            0
        } else if start_offset - 2 >= n as u64 {
            n
        } else {
            (start_offset - 2) as usize
        };
        proof {
            assert(rows@.len() + start == begin + 2);
            assert forall|x: int| 0 <= x < rows@.len() implies (#[trigger] rows@[x]).ino
                == spec_listing_ino(t, ch, x + start) && rows@[x].kind == spec_listing_kind(
                t,
                ch,
                x + start,
            ) && rows@[x].name@ == spec_listing_name(t, ch, x + start) by {
                assert(x + start < 2);
            }
        }
        let mut j: usize = begin;
        while j < n
            invariant
                self.wf(),
                t == self.file_system@,
                begin <= j <= n,
                n == ch.len(),
                folder.children@ == ch,
                ino >= 1,
                key == ino - 1,
                t.contains_key(key),
                t[key] is Folder,
                t[key]->Folder_0.children@ == ch,
                start == spec_listing_start(ch.len(), start_offset),
                begin + 2 >= start,
                rows@.len() + start == j + 2,
                forall|x: int| 0 <= x < rows@.len() ==> (#[trigger] rows@[x]).ino
                    == spec_listing_ino(t, ch, x + start) && rows@[x].kind == spec_listing_kind(
                    t,
                    ch,
                    x + start,
                ) && rows@[x].name@ == spec_listing_name(t, ch, x + start),
            decreases n - j,
        {
            let child = folder.children[j];
            proof {
                assert(t.contains_key(ch[j as int]));
            }
            let child_entry = match self.file_system.get(&child) {
                Some(e) => e,
                None => {
                    proof {
                        assert(false);
                    }
                    return None;
                },
            };
            proof {
                lemma_bounded_secondary_bounds_id(child_entry.spec_inode());
            }
            let row_ino = 1 + child_entry.inode();
            let row_kind = match child_entry {
                VirtualEntry::Folder(_) => EntryKind::Directory,
                VirtualEntry::File(_) => EntryKind::RegularFile,
            };
            let row_name = child_entry.name().to_owned();
            let ghost rows_before = rows@;
            rows.push(DirEntry { ino: row_ino, kind: row_kind, name: row_name });
            proof {
                assert forall|x: int| 0 <= x < rows@.len() implies (#[trigger] rows@[x]).ino
                    == spec_listing_ino(t, ch, x + start) && rows@[x].kind == spec_listing_kind(
                    t,
                    ch,
                    x + start,
                ) && rows@[x].name@ == spec_listing_name(t, ch, x + start) by {
                    if x < rows_before.len() {
                        assert(rows@[x] == rows_before[x]);
                    } else {
                        assert(x + start == j + 2);
                        assert(rows@[x].ino == row_ino);
                    }
                }
            }
            j += 1;
        }
        Some(rows)
    }
}

} // verus!
