//! A plain-value picture of the directories the shell searches: for each
//! search-path directory, the entries it holds with the metadata the shell
//! reads (regular-file flag and permission bits). The caller fills one in
//! from the real filesystem; every decision made over it is verified.

use vstd::prelude::*;

verus! {

/// One directory entry with the metadata the shell's decisions read.
#[derive(Clone, Debug)]
pub struct FileEntry {
    pub name: String,
    pub is_file: bool,
    pub mode: u32,
}

/// The entries of one search-path directory.
#[derive(Clone, Debug)]
pub struct DirListing {
    pub entries: Vec<FileEntry>,
}

/// The listings of every search-path directory, in search order: `dirs[i]`
/// lists the `i`-th search path.
#[derive(Clone, Debug)]
pub struct FsView {
    pub dirs: Vec<DirListing>,
}

/// The mathematical shape of a directory entry.
#[verifier::ext_equal]
pub ghost struct EntrySpec {
    pub name: Seq<char>,
    pub is_file: bool,
    pub mode: u32,
}

/// The mathematical shape of a directory listing.
#[verifier::ext_equal]
pub ghost struct DirSpec {
    pub entries: Seq<EntrySpec>,
}

/// The mathematical shape of a filesystem view.
#[verifier::ext_equal]
pub ghost struct FsSpec {
    pub dirs: Seq<DirSpec>,
}

impl View for FileEntry {
    type V = EntrySpec;

    open spec fn view(&self) -> EntrySpec {
        EntrySpec { name: self.name@, is_file: self.is_file, mode: self.mode }
    }
}

impl View for DirListing {
    type V = DirSpec;

    open spec fn view(&self) -> DirSpec {
        DirSpec { entries: self.entries@.map_values(|e: FileEntry| e@) }
    }
}

impl View for FsView {
    type V = FsSpec;

    open spec fn view(&self) -> FsSpec {
        FsSpec { dirs: self.dirs@.map_values(|d: DirListing| d@) }
    }
}

/// What makes an entry an executable program: a regular file with at least
/// one execute permission bit set.
pub open spec fn entry_is_executable(e: EntrySpec) -> bool {
    e.is_file && e.mode & 0o111u32 != 0u32
}

/// Whether `dir` holds an executable entry of the given name.
pub open spec fn dir_has_executable(dir: DirSpec, name: Seq<char>) -> bool {
    exists|j: int|
        0 <= j < dir.entries.len() && dir.entries[j].name == name && entry_is_executable(
            dir.entries[j],
        )
}

} // verus!
