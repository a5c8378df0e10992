//! The in-memory backend: the executable model of the storage contract.
//!
//! A [`MemoryStore`] is an arena of file contents and directory nodes; the
//! handle types are indices into it, so several handles may reference the
//! same underlying node. A [`WritableFileStream`] stages all mutations in a
//! private buffer and commits it to the store atomically on `close`, so a
//! reader through the store never observes a partially applied command
//! sequence; a stream dropped without closing leaves the file unchanged.
//! Removing an entry unlinks it from its parent; orphaned nodes stay in the
//! arena but are no longer reachable from any directory.

use vstd::prelude::*;

use crate::protocol::{apply_truncate, apply_write, truncate_result, write_result};
use crate::range::{selected_bytes, read_selected, ByteRange};
use crate::CreateWritableOptions;
use crate::DirectoryEntry;
use crate::FileSystemRemoveOptions;
use crate::GetDirectoryHandleOptions;
use crate::GetFileHandleOptions;
use crate::Sealed;
use crate::WriteCommandType;
use crate::WriteParams;

verus! {

/// The failures the in-memory backend can signal. Memory has no host faults,
/// so the backend-specific catch-all of other backends has no counterpart
/// here.
#[derive(Debug, Clone, Copy, PartialEq, Eq, Structural)]
pub enum MemoryError {
    NotFound,
    TypeMismatch,
    AlreadyClosed,
    NotEmpty,
}

/// A directory child by node id: a file in the file arena or a directory in
/// the directory arena.
#[derive(Debug, Clone, Copy, PartialEq, Eq, Structural)]
pub enum EntryRef {
    File(usize),
    Dir(usize),
}

/// One named child slot of a directory.
#[derive(Debug, Clone)]
pub struct NamedEntry {
    pub name: String,
    pub entry: EntryRef,
}

/// A directory node: its named children, in insertion order.
#[derive(Debug, Clone)]
pub struct DirNode {
    pub children: Vec<NamedEntry>,
}

/// The whole in-memory store: every file content and every directory node.
/// The directory at index 0 is the root.
#[derive(Debug)]
pub struct MemoryStore {
    pub files: Vec<Vec<u8>>,
    pub dirs: Vec<DirNode>,
}

/// A reference to a directory node of a [`MemoryStore`].
#[derive(Debug, Clone, Copy, PartialEq, Eq, Structural)]
pub struct DirectoryHandle {
    pub id: usize,
}

/// A reference to a file of a [`MemoryStore`].
#[derive(Debug, Clone, Copy, PartialEq, Eq, Structural)]
pub struct FileHandle {
    pub id: usize,
}

/// An exclusive writer over one file: a staging buffer, a cursor, and a
/// closed flag. Nothing reaches the store before [`Self::close`].
#[derive(Debug)]
pub struct WritableFileStream {
    pub file: FileHandle,
    pub buffer: Vec<u8>,
    pub cursor: usize,
    pub closed: bool,
}

impl Sealed for DirectoryHandle {

}

impl Sealed for FileHandle {

}

impl Sealed for WritableFileStream {

}

impl DirNode {
    /// No two children of one directory share a name.
    pub open spec fn unique_names(&self) -> bool {
        forall|i: int, j: int|
            #![trigger self.children@[i], self.children@[j]]
            0 <= i < j < self.children@.len() ==> self.children@[i].name@
                != self.children@[j].name@
    }

    /// Whether some child bears `name`.
    pub open spec fn has_child(&self, name: Seq<char>) -> bool {
        exists|i: int| 0 <= i < self.children@.len() && (#[trigger] self.children@[i]).name@ == name
    }

    /// The index of the child bearing `name` (meaningful under
    /// `has_child` and `unique_names`).
    pub open spec fn child_index(&self, name: Seq<char>) -> int {
        choose|i: int| 0 <= i < self.children@.len() && (#[trigger] self.children@[i]).name@ == name
    }

    /// The entry of the child bearing `name`.
    pub open spec fn child_entry(&self, name: Seq<char>) -> EntryRef {
        self.children@[self.child_index(name)].entry
    }
}

impl MemoryStore {
    /// An entry points into the arenas.
    pub open spec fn entry_valid(&self, e: EntryRef) -> bool {
        match e {
            EntryRef::File(f) => f < self.files@.len(),
            EntryRef::Dir(d) => d < self.dirs@.len(),
        }
    }

    /// Every entry of `node` points into the arenas.
    pub open spec fn node_valid(&self, node: DirNode) -> bool {
        forall|i: int|
            #![trigger node.children@[i]]
            0 <= i < node.children@.len() ==> self.entry_valid(node.children@[i].entry)
    }

    /// Well-formedness: a root exists, names are unique per directory, and
    /// every entry points into the arenas.
    pub open spec fn wf(&self) -> bool {
        &&& 1 <= self.dirs@.len()
        &&& forall|d: int| 0 <= d < self.dirs@.len() ==> (#[trigger] self.dirs@[d]).unique_names()
        &&& forall|d: int| 0 <= d < self.dirs@.len() ==> self.node_valid(#[trigger] self.dirs@[d])
    }

    pub open spec fn valid_dir(&self, h: DirectoryHandle) -> bool {
        h.id < self.dirs@.len()
    }

    pub open spec fn valid_file(&self, h: FileHandle) -> bool {
        h.id < self.files@.len()
    }

    /// The bytes of the file `h` refers to.
    pub open spec fn file_content(&self, h: FileHandle) -> Seq<u8> {
        self.files@[h.id as int]@
    }

    /// The directory node `h` refers to.
    pub open spec fn dir_node(&self, h: DirectoryHandle) -> DirNode {
        self.dirs@[h.id as int]
    }

    /// An empty store: a root directory with no children and no files.
    pub fn new() -> (s: MemoryStore)
        ensures
            s.wf(),
            s.dirs@.len() == 1,
            s.dirs@[0].children@.len() == 0,
            s.files@.len() == 0,
    {
        let mut dirs: Vec<DirNode> = Vec::new();
        dirs.push(DirNode { children: Vec::new() });
        let s = MemoryStore { files: Vec::new(), dirs };
        assert forall|d: int| 0 <= d < s.dirs@.len() implies (#[trigger] s.dirs@[d]).unique_names()
            && s.node_valid(s.dirs@[d]) by {
            assert(s.dirs@[d].children@.len() == 0);
        }
        s
    }

    /// The root directory handle.
    pub fn root(&self) -> (h: DirectoryHandle)
        requires
            self.wf(),
        ensures
            self.valid_dir(h),
            h.id == 0,
    {
        DirectoryHandle { id: 0 }
    }
}

/// Byte-for-byte copy of a buffer.
fn copy_bytes(v: &Vec<u8>) -> (out: Vec<u8>)
    ensures
        out@ == v@,
{
    let mut out: Vec<u8> = Vec::new();
    let mut i: usize = 0;
    while i < v.len()
        invariant
            i <= v@.len(),
            out@ == v@.subrange(0, i as int),
        decreases v@.len() - i,
    {
        out.push(v[i]);
        assert(out@ =~= v@.subrange(0, i as int + 1));
        i = i + 1;
    }
    assert(out@ =~= v@);
    out
}

impl FileHandle {
    /// The entire content of the file, length equal to `size`.
    pub fn read(&self, fs: &MemoryStore) -> (out: Vec<u8>)
        requires
            fs.valid_file(*self),
        ensures
            out@ == fs.file_content(*self),
    {
        copy_bytes(&fs.files[self.id])
    }

    /// The bytes selected by `range` under the range-resolution policy: the
    /// clamped window, or the empty vector for a degenerate or out-of-bounds
    /// range — never a failure.
    pub fn read_range(&self, fs: &MemoryStore, range: &ByteRange) -> (out: Vec<u8>)
        requires
            fs.valid_file(*self),
        ensures
            out@ == selected_bytes(fs.file_content(*self), *range),
    {
        read_selected(&fs.files[self.id], range)
    }

    /// The current committed length of the file.
    pub fn size(&self, fs: &MemoryStore) -> (n: usize)
        requires
            fs.valid_file(*self),
        ensures
            n == fs.file_content(*self).len(),
    {
        fs.files[self.id].len()
    }

    /// Open a writable stream over this file. With `keep_existing_data` the
    /// stream starts from the current content; without it, from an empty
    /// file. Either way the cursor starts at zero and nothing is committed
    /// before `close`.
    pub fn create_writable_with_options(
        &self,
        fs: &MemoryStore,
        options: &CreateWritableOptions,
    ) -> (w: WritableFileStream)
        requires
            fs.valid_file(*self),
        ensures
            w.file == *self,
            w.cursor == 0,
            !w.closed,
            options.keep_existing_data ==> w.buffer@ == fs.file_content(*self),
            !options.keep_existing_data ==> w.buffer@ == Seq::<u8>::empty(),
    {
        let buffer: Vec<u8> = if options.keep_existing_data {
            copy_bytes(&fs.files[self.id])
        } else {
            Vec::new()
        };
        WritableFileStream { file: FileHandle { id: self.id }, buffer, cursor: 0, closed: false }
    }
}

/// Scan a directory node for a child named `name`.
fn find_child(node: &DirNode, name: &str) -> (r: Option<usize>)
    ensures
        match r {
            Some(i) => i < node.children@.len() && node.children@[i as int].name@ == name@,
            None => !node.has_child(name@),
        },
{
    let target: String = name.to_owned();
    let mut i: usize = 0;
    while i < node.children.len()
        invariant
            i <= node.children@.len(),
            target@ == name@,
            forall|k: int| 0 <= k < i ==> (#[trigger] node.children@[k]).name@ != name@,
        decreases node.children@.len() - i,
    {
        if node.children[i].name == target {
            return Some(i);
        }
        i = i + 1;
    }
    None
}

/// With unique names, the child found by a scan is the child the
/// specification functions speak of.
proof fn lemma_found_is_child(node: DirNode, name: Seq<char>, i: int)
    requires
        node.unique_names(),
        0 <= i < node.children@.len(),
        node.children@[i].name@ == name,
    ensures
        node.has_child(name),
        node.child_index(name) == i,
        node.child_entry(name) == node.children@[i].entry,
{
    assert(node.has_child(name));
    let j: int = node.child_index(name);
    assert(0 <= j < node.children@.len() && node.children@[j].name@ == name);
    if i != j {
        assert(false);
    }
}

/// Every entry valid in `pre` stays valid in a store whose arenas only grew.
proof fn lemma_node_valid_monotone(pre: MemoryStore, post: MemoryStore, node: DirNode)
    requires
        pre.node_valid(node),
        pre.files@.len() <= post.files@.len(),
        pre.dirs@.len() <= post.dirs@.len(),
    ensures
        post.node_valid(node),
{
    assert forall|i: int|
        #![trigger node.children@[i]]
        0 <= i < node.children@.len() implies post.entry_valid(node.children@[i].entry) by {
        assert(pre.entry_valid(node.children@[i].entry));
    }
}

/// The relation between a store and the same store after a missing file
/// `name` was created in directory `dir`: one empty file appended to the
/// file arena, one child appended to `dir`, everything else unchanged.
pub open spec fn with_new_file(
    pre: MemoryStore,
    post: MemoryStore,
    dir: DirectoryHandle,
    name: Seq<char>,
    h: FileHandle,
) -> bool {
    &&& h.id == pre.files@.len()
    &&& post.files@.len() == pre.files@.len() + 1
    &&& post.files@[h.id as int]@ == Seq::<u8>::empty()
    &&& forall|f: int| 0 <= f < pre.files@.len() ==> post.files@[f] == pre.files@[f]
    &&& post.dirs@.len() == pre.dirs@.len()
    &&& forall|d: int| 0 <= d < pre.dirs@.len() && d != dir.id ==> post.dirs@[d] == pre.dirs@[d]
    &&& ({
        let oldc = pre.dirs@[dir.id as int].children@;
        let newc = post.dirs@[dir.id as int].children@;
        &&& newc.len() == oldc.len() + 1
        &&& forall|i: int| 0 <= i < oldc.len() ==> newc[i] == oldc[i]
        &&& newc.last().name@ == name
        &&& newc.last().entry == EntryRef::File(h.id)
    })
}

/// The relation between a store and the same store after a missing
/// sub-directory `name` was created in directory `dir`: one empty directory
/// appended to the directory arena, one child appended to `dir`, everything
/// else unchanged.
pub open spec fn with_new_dir(
    pre: MemoryStore,
    post: MemoryStore,
    dir: DirectoryHandle,
    name: Seq<char>,
    h: DirectoryHandle,
) -> bool {
    &&& h.id == pre.dirs@.len()
    &&& post.dirs@.len() == pre.dirs@.len() + 1
    &&& post.dirs@[h.id as int].children@.len() == 0
    &&& post.files@ == pre.files@
    &&& forall|d: int| 0 <= d < pre.dirs@.len() && d != dir.id ==> post.dirs@[d] == pre.dirs@[d]
    &&& ({
        let oldc = pre.dirs@[dir.id as int].children@;
        let newc = post.dirs@[dir.id as int].children@;
        &&& newc.len() == oldc.len() + 1
        &&& forall|i: int| 0 <= i < oldc.len() ==> newc[i] == oldc[i]
        &&& newc.last().name@ == name
        &&& newc.last().entry == EntryRef::Dir(h.id)
    })
}

/// The relation between a store and the same store after the child `name`
/// of `dir` was unlinked: the child slot is gone, every other directory and
/// every file content is unchanged. The unlinked subtree stays in the
/// arenas but is no longer reachable.
pub open spec fn entry_removed(
    pre: MemoryStore,
    post: MemoryStore,
    dir: DirectoryHandle,
    name: Seq<char>,
) -> bool {
    &&& post.files@ == pre.files@
    &&& post.dirs@.len() == pre.dirs@.len()
    &&& forall|d: int| 0 <= d < pre.dirs@.len() && d != dir.id ==> post.dirs@[d] == pre.dirs@[d]
    &&& post.dirs@[dir.id as int].children@ == pre.dirs@[dir.id as int].children@.remove(
        pre.dirs@[dir.id as int].child_index(name),
    )
}

/// Whether a reported directory entry refers to the arena entry `r` with
/// the matching kind.
pub open spec fn entry_matches(e: DirectoryEntry<DirectoryHandle, FileHandle>, r: EntryRef) -> bool {
    match r {
        EntryRef::File(f) => e matches DirectoryEntry::File(h) && h.id == f,
        EntryRef::Dir(d) => e matches DirectoryEntry::Directory(h) && h.id == d,
    }
}

impl DirectoryHandle {
    /// Resolve `name` to a file handle. Fails with `NotFound` when the name
    /// is absent and `create` is off, with `TypeMismatch` when the name is a
    /// directory; with `create` on, an absent name gets a fresh empty file.
    pub fn get_file_handle_with_options(
        &self,
        fs: &mut MemoryStore,
        name: &str,
        options: &GetFileHandleOptions,
    ) -> (r: Result<FileHandle, MemoryError>)
        requires
            old(fs).wf(),
            old(fs).valid_dir(*self),
        ensures
            final(fs).wf(),
            final(fs).valid_dir(*self),
            ({
                let node = old(fs).dir_node(*self);
                if node.has_child(name@) {
                    match node.child_entry(name@) {
                        EntryRef::File(f) => r == Ok::<FileHandle, MemoryError>(
                            FileHandle { id: f },
                        ) && *final(fs) == *old(fs),
                        EntryRef::Dir(d) => r == Err::<FileHandle, MemoryError>(
                            MemoryError::TypeMismatch,
                        ) && *final(fs) == *old(fs),
                    }
                } else if options.create {
                    r matches Ok(h) && with_new_file(*old(fs), *final(fs), *self, name@, h)
                        && final(fs).valid_file(h)
                } else {
                    r == Err::<FileHandle, MemoryError>(MemoryError::NotFound) && *final(fs)
                        == *old(fs)
                }
            }),
    {
        let found = find_child(&fs.dirs[self.id], name);
        match found {
            Some(i) => {
                proof {
                    lemma_found_is_child(fs.dirs@[self.id as int], name@, i as int);
                }
                match fs.dirs[self.id].children[i].entry {
                    EntryRef::File(f) => Ok(FileHandle { id: f }),
                    EntryRef::Dir(_) => Err(MemoryError::TypeMismatch),
                }
            },
            None => {
                if options.create {
                    let fid = fs.files.len();
                    fs.files.push(Vec::new());
                    let node = &mut fs.dirs[self.id];
                    node.children.push(
                        NamedEntry { name: name.to_owned(), entry: EntryRef::File(fid) },
                    );
                    proof {
                        lemma_child_appended(*old(fs), *fs, *self, name@);
                    }
                    Ok(FileHandle { id: fid })
                } else {
                    Err(MemoryError::NotFound)
                }
            },
        }
    }

    /// Resolve `name` to a sub-directory handle, symmetrically to
    /// [`Self::get_file_handle_with_options`].
    pub fn get_directory_handle_with_options(
        &self,
        fs: &mut MemoryStore,
        name: &str,
        options: &GetDirectoryHandleOptions,
    ) -> (r: Result<DirectoryHandle, MemoryError>)
        requires
            old(fs).wf(),
            old(fs).valid_dir(*self),
        ensures
            final(fs).wf(),
            final(fs).valid_dir(*self),
            ({
                let node = old(fs).dir_node(*self);
                if node.has_child(name@) {
                    match node.child_entry(name@) {
                        EntryRef::Dir(d) => r == Ok::<DirectoryHandle, MemoryError>(
                            DirectoryHandle { id: d },
                        ) && *final(fs) == *old(fs),
                        EntryRef::File(f) => r == Err::<DirectoryHandle, MemoryError>(
                            MemoryError::TypeMismatch,
                        ) && *final(fs) == *old(fs),
                    }
                } else if options.create {
                    r matches Ok(h) && with_new_dir(*old(fs), *final(fs), *self, name@, h)
                        && final(fs).valid_dir(h)
                } else {
                    r == Err::<DirectoryHandle, MemoryError>(MemoryError::NotFound) && *final(fs)
                        == *old(fs)
                }
            }),
    {
        let found = find_child(&fs.dirs[self.id], name);
        match found {
            Some(i) => {
                proof {
                    lemma_found_is_child(fs.dirs@[self.id as int], name@, i as int);
                }
                match fs.dirs[self.id].children[i].entry {
                    EntryRef::Dir(d) => Ok(DirectoryHandle { id: d }),
                    EntryRef::File(_) => Err(MemoryError::TypeMismatch),
                }
            },
            None => {
                if options.create {
                    let did = fs.dirs.len();
                    fs.dirs.push(DirNode { children: Vec::new() });
                    let node = &mut fs.dirs[self.id];
                    node.children.push(
                        NamedEntry { name: name.to_owned(), entry: EntryRef::Dir(did) },
                    );
                    proof {
                        lemma_child_appended(*old(fs), *fs, *self, name@);
                    }
                    Ok(DirectoryHandle { id: did })
                } else {
                    Err(MemoryError::NotFound)
                }
            },
        }
    }
}

impl DirectoryHandle {
    /// Remove the direct child `name`. Fails with `NotFound` when the name
    /// is absent and with `NotEmpty` when it is a non-empty directory: this
    /// form never removes a subtree.
    pub fn remove_entry(&self, fs: &mut MemoryStore, name: &str) -> (r: Result<(), MemoryError>)
        requires
            old(fs).wf(),
            old(fs).valid_dir(*self),
        ensures
            final(fs).wf(),
            final(fs).valid_dir(*self),
            ({
                let node = old(fs).dir_node(*self);
                if !node.has_child(name@) {
                    r == Err::<(), MemoryError>(MemoryError::NotFound) && *final(fs) == *old(fs)
                } else {
                    match node.child_entry(name@) {
                        EntryRef::Dir(d) => {
                            if old(fs).dirs@[d as int].children@.len() > 0 {
                                r == Err::<(), MemoryError>(MemoryError::NotEmpty) && *final(fs)
                                    == *old(fs)
                            } else {
                                r == Ok::<(), MemoryError>(()) && entry_removed(
                                    *old(fs),
                                    *final(fs),
                                    *self,
                                    name@,
                                ) && !final(fs).dir_node(*self).has_child(name@)
                            }
                        },
                        EntryRef::File(f) => r == Ok::<(), MemoryError>(()) && entry_removed(
                            *old(fs),
                            *final(fs),
                            *self,
                            name@,
                        ) && !final(fs).dir_node(*self).has_child(name@),
                    }
                }
            }),
    {
        self.remove_entry_with_options(fs, name, &FileSystemRemoveOptions { recursive: false })
    }

    /// Remove the direct child `name`. Fails with `NotFound` when the name
    /// is absent, and with `NotEmpty` when it is a non-empty directory and
    /// `recursive` is off; with `recursive` on, a non-empty directory is
    /// unlinked together with its whole subtree.
    pub fn remove_entry_with_options(
        &self,
        fs: &mut MemoryStore,
        name: &str,
        options: &FileSystemRemoveOptions,
    ) -> (r: Result<(), MemoryError>)
        requires
            old(fs).wf(),
            old(fs).valid_dir(*self),
        ensures
            final(fs).wf(),
            final(fs).valid_dir(*self),
            ({
                let node = old(fs).dir_node(*self);
                if !node.has_child(name@) {
                    r == Err::<(), MemoryError>(MemoryError::NotFound) && *final(fs) == *old(fs)
                } else {
                    match node.child_entry(name@) {
                        EntryRef::Dir(d) => {
                            if !options.recursive && old(fs).dirs@[d as int].children@.len() > 0 {
                                r == Err::<(), MemoryError>(MemoryError::NotEmpty) && *final(fs)
                                    == *old(fs)
                            } else {
                                r == Ok::<(), MemoryError>(()) && entry_removed(
                                    *old(fs),
                                    *final(fs),
                                    *self,
                                    name@,
                                ) && !final(fs).dir_node(*self).has_child(name@)
                            }
                        },
                        EntryRef::File(f) => r == Ok::<(), MemoryError>(()) && entry_removed(
                            *old(fs),
                            *final(fs),
                            *self,
                            name@,
                        ) && !final(fs).dir_node(*self).has_child(name@),
                    }
                }
            }),
    {
        let found = find_child(&fs.dirs[self.id], name);
        match found {
            None => Err(MemoryError::NotFound),
            Some(i) => {
                proof {
                    lemma_found_is_child(fs.dirs@[self.id as int], name@, i as int);
                    assert(fs.node_valid(fs.dirs@[self.id as int]));
                }
                let entry = fs.dirs[self.id].children[i].entry;
                let blocked: bool = match entry {
                    EntryRef::Dir(d) => !options.recursive && fs.dirs[d].children.len() > 0,
                    EntryRef::File(_) => false,
                };
                if blocked {
                    return Err(MemoryError::NotEmpty);
                }
                let node = &mut fs.dirs[self.id];
                node.children.remove(i);
                proof {
                    lemma_child_removed(*old(fs), *fs, *self, name@, i as int);
                }
                Ok(())
            },
        }
    }

    /// List the children of this directory: every child exactly once, in
    /// slot order, each name paired with an entry of the matching kind.
    pub fn entries(&self, fs: &MemoryStore) -> (out: Vec<
        (String, DirectoryEntry<DirectoryHandle, FileHandle>),
    >)
        requires
            fs.wf(),
            fs.valid_dir(*self),
        ensures
            ({
                let node = fs.dir_node(*self);
                &&& out@.len() == node.children@.len()
                &&& forall|i: int|
                    0 <= i < out@.len() ==> (#[trigger] out@[i]).0@ == node.children@[i].name@
                &&& forall|i: int|
                    0 <= i < out@.len() ==> entry_matches(
                        (#[trigger] out@[i]).1,
                        node.children@[i].entry,
                    )
                &&& forall|i: int, j: int|
                    #![trigger out@[i], out@[j]]
                    0 <= i < j < out@.len() ==> out@[i].0@ != out@[j].0@
            }),
    {
        let node = &fs.dirs[self.id];
        let mut out: Vec<(String, DirectoryEntry<DirectoryHandle, FileHandle>)> = Vec::new();
        let mut i: usize = 0;
        while i < node.children.len()
            invariant
                i <= node.children@.len(),
                *node == fs.dir_node(*self),
                out@.len() == i,
                forall|k: int|
                    0 <= k < i ==> (#[trigger] out@[k]).0@ == node.children@[k].name@,
                forall|k: int|
                    0 <= k < i ==> entry_matches(
                        (#[trigger] out@[k]).1,
                        node.children@[k].entry,
                    ),
            decreases node.children@.len() - i,
        {
            let child = &node.children[i];
            let child_name: String = child.name.clone();
            let tagged: DirectoryEntry<DirectoryHandle, FileHandle> = match child.entry {
                EntryRef::File(f) => DirectoryEntry::File(FileHandle { id: f }),
                EntryRef::Dir(d) => DirectoryEntry::Directory(DirectoryHandle { id: d }),
            };
            out.push((child_name, tagged));
            i = i + 1;
        }
        proof {
            assert(fs.dir_node(*self).unique_names());
            assert forall|a: int, b: int|
                #![trigger out@[a], out@[b]]
                0 <= a < b < out@.len() implies out@[a].0@ != out@[b].0@ by {
                assert(out@[a].0@ == node.children@[a].name@);
                assert(out@[b].0@ == node.children@[b].name@);
            }
        }
        out
    }
}

/// Well-formedness is preserved, and the removed name is gone, when the
/// child at the index the specification names is removed from one
/// directory and everything else is unchanged.
proof fn lemma_child_removed(
    pre: MemoryStore,
    post: MemoryStore,
    dir: DirectoryHandle,
    name: Seq<char>,
    i: int,
)
    requires
        pre.wf(),
        dir.id < pre.dirs@.len(),
        0 <= i < pre.dirs@[dir.id as int].children@.len(),
        pre.dirs@[dir.id as int].children@[i].name@ == name,
        post.files@ == pre.files@,
        post.dirs@.len() == pre.dirs@.len(),
        forall|d: int|
            0 <= d < pre.dirs@.len() && d != dir.id ==> post.dirs@[d] == pre.dirs@[d],
        post.dirs@[dir.id as int].children@ == pre.dirs@[dir.id as int].children@.remove(i),
    ensures
        post.wf(),
        entry_removed(pre, post, dir, name),
        !post.dirs@[dir.id as int].has_child(name),
{
    let oldc = pre.dirs@[dir.id as int].children@;
    let newc = post.dirs@[dir.id as int].children@;
    lemma_found_is_child(pre.dirs@[dir.id as int], name, i);
    assert forall|k: int| #![trigger newc[k]] 0 <= k < newc.len() implies newc[k] == (if k < i {
        oldc[k]
    } else {
        oldc[k + 1]
    }) by {
        assert(newc == oldc.subrange(0, i) + oldc.subrange(i + 1, oldc.len() as int));
    }
    assert forall|d: int| 0 <= d < post.dirs@.len() implies (#[trigger] post.dirs@[d]).unique_names()
        && post.node_valid(post.dirs@[d]) by {
        if d == dir.id {
            assert(pre.dirs@[d].unique_names());
            assert(pre.node_valid(pre.dirs@[d]));
            assert forall|a: int, b: int|
                #![trigger newc[a], newc[b]]
                0 <= a < b < newc.len() implies newc[a].name@ != newc[b].name@ by {
                let a0: int = if a < i {
                    a
                } else {
                    a + 1
                };
                let b0: int = if b < i {
                    b
                } else {
                    b + 1
                };
                assert(newc[a] == oldc[a0] && newc[b] == oldc[b0]);
            }
            assert forall|k: int|
                #![trigger newc[k]]
                0 <= k < newc.len() implies post.entry_valid(newc[k].entry) by {
                let k0: int = if k < i {
                    k
                } else {
                    k + 1
                };
                assert(newc[k] == oldc[k0]);
                assert(pre.entry_valid(oldc[k0].entry));
            }
        } else {
            assert(post.dirs@[d] == pre.dirs@[d]);
            assert(pre.dirs@[d].unique_names());
            assert(pre.node_valid(pre.dirs@[d]));
            lemma_node_valid_monotone(pre, post, pre.dirs@[d]);
        }
    }
    if post.dirs@[dir.id as int].has_child(name) {
        let k: int = choose|k: int|
            0 <= k < newc.len() && (#[trigger] newc[k]).name@ == name;
        let k0: int = if k < i {
            k
        } else {
            k + 1
        };
        assert(newc[k] == oldc[k0]);
        assert(oldc[k0].name@ == name && oldc[i].name@ == name && k0 != i);
        assert(pre.dirs@[dir.id as int].unique_names());
        assert(false);
    }
}

/// Well-formedness is preserved when a child with a fresh name and a valid
/// entry is appended to one directory, other directories are unchanged, and
/// the arenas only grew (plus at most one fresh empty directory node).
proof fn lemma_child_appended(pre: MemoryStore, post: MemoryStore, dir: DirectoryHandle, name: Seq<char>)
    requires
        pre.wf(),
        dir.id < pre.dirs@.len(),
        !pre.dirs@[dir.id as int].has_child(name),
        pre.files@.len() <= post.files@.len(),
        pre.dirs@.len() <= post.dirs@.len(),
        forall|d: int|
            0 <= d < post.dirs@.len() && d != dir.id && d < pre.dirs@.len() ==> post.dirs@[d]
                == pre.dirs@[d],
        forall|d: int|
            pre.dirs@.len() <= d < post.dirs@.len() ==> (#[trigger] post.dirs@[d]).children@.len()
                == 0,
        ({
            let oldc = pre.dirs@[dir.id as int].children@;
            let newc = post.dirs@[dir.id as int].children@;
            &&& newc.len() == oldc.len() + 1
            &&& forall|i: int| 0 <= i < oldc.len() ==> newc[i] == oldc[i]
            &&& newc.last().name@ == name
            &&& post.entry_valid(newc.last().entry)
        }),
    ensures
        post.wf(),
{
    let oldc = pre.dirs@[dir.id as int].children@;
    let newc = post.dirs@[dir.id as int].children@;
    assert forall|d: int| 0 <= d < post.dirs@.len() implies (#[trigger] post.dirs@[d]).unique_names() by {
        if d == dir.id {
            assert forall|i: int, j: int|
                #![trigger newc[i], newc[j]]
                0 <= i < j < newc.len() implies newc[i].name@ != newc[j].name@ by {
                if j == newc.len() - 1 {
                    assert(newc[i] == oldc[i]);
                    if newc[i].name@ == name {
                        assert(pre.dirs@[dir.id as int].has_child(name));
                    }
                } else {
                    assert(newc[i] == oldc[i] && newc[j] == oldc[j]);
                    assert(pre.dirs@[dir.id as int].unique_names());
                }
            }
        } else if d < pre.dirs@.len() {
            assert(post.dirs@[d] == pre.dirs@[d]);
            assert(pre.dirs@[d].unique_names());
        } else {
            assert(post.dirs@[d].children@.len() == 0);
        }
    }
    assert forall|d: int| 0 <= d < post.dirs@.len() implies post.node_valid(#[trigger] post.dirs@[d]) by {
        if d == dir.id {
            assert forall|i: int|
                #![trigger newc[i]]
                0 <= i < newc.len() implies post.entry_valid(newc[i].entry) by {
                if i < oldc.len() {
                    assert(newc[i] == oldc[i]);
                    assert(pre.node_valid(pre.dirs@[dir.id as int]));
                    assert(pre.entry_valid(oldc[i].entry));
                } else {
                    assert(newc[i] == newc.last());
                }
            }
        } else if d < pre.dirs@.len() {
            assert(post.dirs@[d] == pre.dirs@[d]);
            assert(pre.node_valid(pre.dirs@[d]));
            lemma_node_valid_monotone(pre, post, pre.dirs@[d]);
        } else {
            assert(post.dirs@[d].children@.len() == 0);
        }
    }
}

/// The data length a write-command descriptor carries.
pub open spec fn params_data_len(params: WriteParams) -> nat {
    match params.data {
        Option::Some(d) => d@.len(),
        Option::None => 0,
    }
}

/// The write offset a descriptor and a cursor together determine.
pub open spec fn params_write_pos(params: WriteParams, cursor: nat) -> nat {
    match params.position {
        Option::Some(p) => p as nat,
        Option::None => cursor,
    }
}

/// The machine bound a write command must respect: the write must not reach
/// past the address space.
pub open spec fn params_fit(params: WriteParams, cursor: nat) -> bool {
    match params.command_type {
        WriteCommandType::Write => params_write_pos(params, cursor) + params_data_len(params)
            <= usize::MAX,
        WriteCommandType::Seek => true,
        WriteCommandType::Truncate => true,
    }
}

/// The effect of one well-formed write command on a stream's staged state.
pub open spec fn params_applied(
    pre: WritableFileStream,
    post: WritableFileStream,
    params: WriteParams,
) -> bool {
    &&& post.file == pre.file
    &&& !post.closed
    &&& match params.command_type {
        WriteCommandType::Write => params.data matches Some(d) ==> {
            let p = params_write_pos(params, pre.cursor as nat);
            &&& post.buffer@ == write_result(pre.buffer@, p, d@)
            &&& post.cursor == p + d@.len()
        },
        WriteCommandType::Seek => params.position matches Some(p) ==> {
            &&& post.buffer == pre.buffer
            &&& post.cursor == p
        },
        WriteCommandType::Truncate => params.size matches Some(s) ==> {
            &&& post.buffer@ == truncate_result(pre.buffer@, s as nat)
            &&& post.cursor == (if pre.cursor < s {
                pre.cursor as int
            } else {
                s as int
            })
        },
    }
}

impl WritableFileStream {
    /// Write `data` at the current cursor, overwriting bytes in range and
    /// extending the staged file if the write reaches past its end; the
    /// cursor advances by the number of bytes written.
    pub fn write_at_cursor_pos(&mut self, data: Vec<u8>) -> (r: Result<(), MemoryError>)
        requires
            old(self).cursor + data@.len() <= usize::MAX,
        ensures
            old(self).closed ==> r == Err::<(), MemoryError>(MemoryError::AlreadyClosed)
                && *final(self) == *old(self),
            !old(self).closed ==> {
                &&& r == Ok::<(), MemoryError>(())
                &&& final(self).buffer@ == write_result(
                    old(self).buffer@,
                    old(self).cursor as nat,
                    data@,
                )
                &&& final(self).cursor == old(self).cursor + data@.len()
                &&& final(self).file == old(self).file
                &&& !final(self).closed
            },
    {
        if self.closed {
            return Err(MemoryError::AlreadyClosed);
        }
        let new_buffer = apply_write(&self.buffer, self.cursor, &data);
        self.buffer = new_buffer;
        self.cursor = self.cursor + data.len();
        Ok(())
    }

    /// Move the cursor to `offset` without touching any data. The cursor may
    /// land beyond the staged length; a later write there zero-fills the gap.
    pub fn seek(&mut self, offset: usize) -> (r: Result<(), MemoryError>)
        ensures
            old(self).closed ==> r == Err::<(), MemoryError>(MemoryError::AlreadyClosed)
                && *final(self) == *old(self),
            !old(self).closed ==> {
                &&& r == Ok::<(), MemoryError>(())
                &&& final(self).cursor == offset
                &&& final(self).buffer == old(self).buffer
                &&& final(self).file == old(self).file
                &&& !final(self).closed
            },
    {
        if self.closed {
            return Err(MemoryError::AlreadyClosed);
        }
        self.cursor = offset;
        Ok(())
    }

    /// Resize the staged file to exactly `size` bytes: drop trailing bytes
    /// when shrinking, zero-fill when growing; the cursor clamps to `size`
    /// if it was beyond.
    pub fn truncate(&mut self, size: usize) -> (r: Result<(), MemoryError>)
        ensures
            old(self).closed ==> r == Err::<(), MemoryError>(MemoryError::AlreadyClosed)
                && *final(self) == *old(self),
            !old(self).closed ==> {
                &&& r == Ok::<(), MemoryError>(())
                &&& final(self).buffer@ == truncate_result(old(self).buffer@, size as nat)
                &&& final(self).cursor == (if old(self).cursor < size {
                    old(self).cursor as int
                } else {
                    size as int
                })
                &&& final(self).file == old(self).file
                &&& !final(self).closed
            },
    {
        if self.closed {
            return Err(MemoryError::AlreadyClosed);
        }
        let new_buffer = apply_truncate(&self.buffer, size);
        self.buffer = new_buffer;
        if self.cursor > size {
            self.cursor = size;
        }
        Ok(())
    }

    /// Execute one generalized write command: `Write` writes `data` at the
    /// given position (or the cursor), `Seek` moves the cursor, `Truncate`
    /// resizes the staged file.
    pub fn write_with_params(&mut self, params: &WriteParams) -> (r: Result<(), MemoryError>)
        requires
            params.wf(),
            params_fit(*params, old(self).cursor as nat),
        ensures
            old(self).closed ==> r == Err::<(), MemoryError>(MemoryError::AlreadyClosed)
                && *final(self) == *old(self),
            !old(self).closed ==> r == Ok::<(), MemoryError>(()) && params_applied(
                *old(self),
                *final(self),
                *params,
            ),
    {
        if self.closed {
            return Err(MemoryError::AlreadyClosed);
        }
        match params.command_type {
            WriteCommandType::Write => match &params.data {
                Some(d) => {
                    let pos: usize = match params.position {
                        Some(p) => p,
                        None => self.cursor,
                    };
                    let new_buffer = apply_write(&self.buffer, pos, d);
                    self.buffer = new_buffer;
                    self.cursor = pos + d.len();
                    Ok(())
                },
                None => vstd::pervasive::unreached(),
            },
            WriteCommandType::Seek => match params.position {
                Some(p) => {
                    self.cursor = p;
                    Ok(())
                },
                None => vstd::pervasive::unreached(),
            },
            WriteCommandType::Truncate => match params.size {
                Some(s) => {
                    let new_buffer = apply_truncate(&self.buffer, s);
                    self.buffer = new_buffer;
                    if self.cursor > s {
                        self.cursor = s;
                    }
                    Ok(())
                },
                None => vstd::pervasive::unreached(),
            },
        }
    }

    /// Commit the staged buffer to the file, atomically with respect to the
    /// store: before this call the store is unchanged, after it the file's
    /// content is exactly the staged bytes. The stream is terminal
    /// afterwards; every further operation fails with `AlreadyClosed`.
    pub fn close(&mut self, fs: &mut MemoryStore) -> (r: Result<(), MemoryError>)
        requires
            old(fs).wf(),
            old(fs).valid_file(old(self).file),
        ensures
            final(fs).wf(),
            old(self).closed ==> r == Err::<(), MemoryError>(MemoryError::AlreadyClosed)
                && *final(self) == *old(self) && *final(fs) == *old(fs),
            !old(self).closed ==> {
                &&& r == Ok::<(), MemoryError>(())
                &&& final(self).closed
                &&& final(self).file == old(self).file
                &&& final(self).buffer == old(self).buffer
                &&& final(fs).dirs == old(fs).dirs
                &&& final(fs).files@.len() == old(fs).files@.len()
                &&& final(fs).file_content(old(self).file) == old(self).buffer@
                &&& forall|f: int|
                    0 <= f < old(fs).files@.len() && f != old(self).file.id
                        ==> final(fs).files@[f] == old(fs).files@[f]
            },
    {
        if self.closed {
            return Err(MemoryError::AlreadyClosed);
        }
        let content = copy_bytes(&self.buffer);
        let slot = &mut fs.files[self.file.id];
        *slot = content;
        self.closed = true;
        proof {
            assert forall|d: int| 0 <= d < fs.dirs@.len() implies (
            #[trigger] fs.dirs@[d]).unique_names() && fs.node_valid(fs.dirs@[d]) by {
                assert(fs.dirs@[d] == old(fs).dirs@[d]);
                assert(old(fs).node_valid(old(fs).dirs@[d]));
            }
        }
        Ok(())
    }
}

} // verus!
