//! The entry model: folders, files and the pluggable module interface.
//!
//! A tree entry is either a folder (a name and an ordered list of child
//! identifiers) or a file (a name and a content source queried lazily, once
//! per attribute or read request, never during tree construction). Modules
//! extend the tree: each one is bound to a scope and materializes at most
//! one entry for a scope context handed to it by the tree builder. The
//! process-listing backend is likewise an interface; the builder consumes
//! only its result, a list of process id/name pairs.

use vstd::prelude::*;

verus! {

/// What a file's length and payload come from. Both are computed on
/// demand, so a source may legitimately answer differently on repeated
/// calls: content is intentionally live. No contract constrains the
/// answers; callers state what they do with whatever comes back.
pub trait ContentSource {
    /// The current content length in bytes.
    fn length(&self) -> u64;

    /// The current full content payload.
    fn bytes(&self) -> Vec<u8>;
}

/// The tree level a module contributes entries at.
pub enum VMFSModuleScope {
    Connection,
    Process,
    Module,
}

/// The data identifying one materialization site: which connection, and —
/// at narrower scopes — which process and which module instance.
pub enum VMFSScopeContext {
    Connection { conn_id: String },
    Process { conn_id: String, pid: u32 },
    Module { conn_id: String, pid: u32, mid: u8 },
}

/// A folder: an identifier, a display name and the ordered identifiers of
/// its children.
pub struct VirtualFolder {
    pub inode: u64,
    pub name: String,
    pub children: Vec<u64>,
}

impl VirtualFolder {
    /// An empty folder with the given identifier and name.
    pub fn new(inode: u64, name: &str) -> (folder: Self)
        ensures
            folder.inode == inode,
            folder.name@ == name@,
            folder.children@ == Seq::<u64>::empty(),
    {
        VirtualFolder { inode, name: name.to_owned(), children: Vec::new() }
    }
}

/// A file: an identifier, a display name and its lazy content source.
pub struct VirtualFile<C> {
    pub inode: u64,
    pub name: String,
    pub source: C,
}

/// One entry of the tree.
pub enum VirtualEntry<C> {
    Folder(VirtualFolder),
    File(VirtualFile<C>),
}

impl<C> VirtualEntry<C> {
    /// The identifier recorded inside the entry.
    pub open spec fn spec_inode(&self) -> u64 {
        match self {
            VirtualEntry::Folder(folder) => folder.inode,
            VirtualEntry::File(file) => file.inode,
        }
    }

    /// The display name of the entry.
    pub open spec fn spec_name(&self) -> Seq<char> {
        match self {
            VirtualEntry::Folder(folder) => folder.name@,
            VirtualEntry::File(file) => file.name@,
        }
    }

    pub fn inode(&self) -> (inode: u64)
        ensures
            inode == self.spec_inode(),
    {
        match self {
            VirtualEntry::Folder(folder) => folder.inode,
            VirtualEntry::File(file) => file.inode,
        }
    }

    pub fn name(&self) -> (name: &str)
        ensures
            name@ == self.spec_name(),
    {
        match self {
            VirtualEntry::Folder(folder) => folder.name.as_str(),
            VirtualEntry::File(file) => file.name.as_str(),
        }
    }
}

/// One process reported by the introspection backend: its 32-bit id and
/// its executable name.
pub struct ProcessInfo {
    pub pid: u32,
    pub name: String,
}

/// The introspection backend's process-listing interface. `None` stands
/// for a failed listing (connection gone, backend error); the builder
/// degrades it to a tree holding only the root. Nothing is promised of the
/// answer: the tree builder states what it makes of every possible one.
pub trait ProcessLister {
    fn process_list(&self, conn_id: &str) -> Option<Vec<ProcessInfo>>;
}

/// A module of the filesystem: bound to one scope, and able to materialize
/// at most one entry for a scope context. `None` stands for a failed
/// materialization (backend unreachable, process vanished); the builder
/// then proceeds without an entry for that slot.
///
/// An implementation must record the identifier it was handed inside the
/// entry it returns, and a folder it returns starts empty: its children
/// would be contributed at a narrower scope, not invented by the module.
pub trait VMFSModule {
    /// The content source type of the files this module materializes.
    type Content: ContentSource;

    /// The scope this module contributes entries at.
    fn scope(&self) -> VMFSModuleScope;

    /// Materializes the module's entry for one scope context, or `None`
    /// when the module has nothing to contribute for it.
    fn entry(&self, inode: u64, ctx: &VMFSScopeContext) -> (entry: Option<
        VirtualEntry<Self::Content>,
    >)
        ensures
            (entry matches Some(e) ==> e.spec_inode() == inode),
            (entry matches Some(VirtualEntry::Folder(f)) ==> f.children@.len() == 0),
    ;
}

} // verus!
