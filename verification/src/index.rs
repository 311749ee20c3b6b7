//! The two-level directory a pack index file describes: folder hashes to
//! folders, file hashes to file entries.

use std::collections::HashMap;
use vstd::prelude::*;

verus! {

/// One file entry of an index: where the file's bytes sit in which dat file.
#[derive(Clone, Copy, Debug, PartialEq, Eq, Structural)]
pub struct File {
    pub folder_hash: u32,
    pub file_hash: u32,
    pub data_offset: u32,
    pub dat_file: u8,
}

/// One folder of an index: its hash and its files keyed by file hash.
pub struct Folder {
    pub folder_hash: u32,
    pub sub_files: HashMap<u32, File>,
}

/// A parsed index file: folders keyed by folder hash.
pub struct Index {
    pub folders: HashMap<u32, Folder>,
}

/// An index of the sheet pack, kept apart at the type level.
pub struct SheetIndex {
    pub index: Index,
}

impl Folder {
    /// The folder's files as a map.
    pub open spec fn files(&self) -> Map<u32, File> {
        self.sub_files@
    }

    /// Every file stands under its own file hash.
    pub open spec fn wf(&self) -> bool {
        forall|k: u32| #[trigger]
            self.files().contains_key(k) ==> self.files()[k].file_hash == k
    }

    /// Every file's folder hash agrees with the folder's own hash.
    pub open spec fn consistent(&self) -> bool {
        forall|k: u32| #[trigger]
            self.files().contains_key(k) ==> self.files()[k].folder_hash == self.folder_hash
    }

    pub fn new(hash: u32, files: HashMap<u32, File>) -> (r: Folder)
        ensures
            r.folder_hash == hash,
            r.files() == files@,
    {
        Folder { folder_hash: hash, sub_files: files }
    }

    /// The entry stored under a file hash, if any.
    pub fn get_file(&self, file_hash: u32) -> (r: Option<&File>)
        ensures
            match r {
                Option::Some(f) => self.files().contains_key(file_hash) && *f == self.files()[file_hash],
                Option::None => !self.files().contains_key(file_hash),
            },
    {
        self.sub_files.get(&file_hash)
    }
}

impl Index {
    /// The index's folders as a map.
    pub open spec fn folders(&self) -> Map<u32, Folder> {
        self.folders@
    }

    /// Every folder stands under its own hash, and its files under theirs.
    pub open spec fn wf(&self) -> bool {
        forall|h: u32| #[trigger]
            self.folders().contains_key(h) ==> self.folders()[h].folder_hash == h
                && self.folders()[h].wf()
    }

    /// Every stored entry's folder hash agrees with its folder's hash.
    pub open spec fn consistent(&self) -> bool {
        forall|h: u32| #[trigger]
            self.folders().contains_key(h) ==> self.folders()[h].consistent()
    }

    /// The entry stored under a folder hash and file hash, if any.
    pub open spec fn spec_get_file(&self, folder_hash: u32, file_hash: u32) -> Option<File> {
        if self.folders().contains_key(folder_hash) && self.folders()[folder_hash].files()
            .contains_key(file_hash) {
            Option::Some(self.folders()[folder_hash].files()[file_hash])
        } else {
            Option::None
        }
    }

    pub fn new(folders: HashMap<u32, Folder>) -> (r: Index)
        ensures
            r.folders() == folders@,
    {
        Index { folders }
    }

    /// The folder stored under a folder hash, if any.
    pub fn get_folder(&self, folder_hash: u32) -> (r: Option<&Folder>)
        ensures
            match r {
                Option::Some(f) => self.folders().contains_key(folder_hash) && *f == self.folders()[folder_hash],
                Option::None => !self.folders().contains_key(folder_hash),
            },
    {
        self.folders.get(&folder_hash)
    }

    /// The entry stored under a folder hash and file hash, if any.
    pub fn get_file(&self, folder_hash: u32, file_hash: u32) -> (r: Option<&File>)
        ensures
            match r {
                Option::Some(f) => self.spec_get_file(folder_hash, file_hash) == Option::Some(*f),
                Option::None => self.spec_get_file(folder_hash, file_hash) is None,
            },
    {
        let m = self.get_folder(folder_hash);
        match m {
            Option::None => Option::None,
            Option::Some(folder) => folder.get_file(file_hash),
        }
    }
}

impl SheetIndex {
    pub fn new(index: Index) -> (r: SheetIndex)
        ensures
            r.index.folders() == index.folders(),
    {
        SheetIndex { index }
    }
}

/// Law: in a well-formed index, the entry found under a folder hash and a
/// file hash carries exactly that file hash in its own field.  This half
/// needs only well-formedness: every entry is keyed by the hash read from
/// the entry's own record.
pub proof fn lemma_entry_file_hash_matches(ind: Index, folder_hash: u32, file_hash: u32)
    requires
        ind.wf(),
        ind.spec_get_file(folder_hash, file_hash) is Some,
    ensures
        ind.spec_get_file(folder_hash, file_hash)->Some_0.file_hash == file_hash,
{
    assert(ind.folders().contains_key(folder_hash));
    assert(ind.folders()[folder_hash].files().contains_key(file_hash));
}

/// Law: in a well-formed, consistent index — the parser ensures both of
/// every index it returns — the entry found under a folder hash and a file
/// hash carries exactly those hashes in its own fields.
pub proof fn lemma_entry_hashes_match(ind: Index, folder_hash: u32, file_hash: u32)
    requires
        ind.wf(),
        ind.consistent(),
        ind.spec_get_file(folder_hash, file_hash) is Some,
    ensures
        ind.spec_get_file(folder_hash, file_hash)->Some_0.file_hash == file_hash,
        ind.spec_get_file(folder_hash, file_hash)->Some_0.folder_hash == folder_hash,
{
    assert(ind.folders().contains_key(folder_hash));
    assert(ind.folders()[folder_hash].files().contains_key(file_hash));
}

} // verus!
