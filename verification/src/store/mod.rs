//! Content-addressed store for built ext4 images.
//!
//! Layout under the store root:
//!
//! ```text
//!   blobs/<key>.ext4     the image, mode 0444
//!   meta/<key>.json      what it is, when it was last used
//!   tmp/<name>           staging; renamed into place (same filesystem: atomic)
//!   locks/<key>.lock     one lock per key, so builds of one key take turns
//! ```
//!
//! A stored image is published by **hard link**, so many names cost one image,
//! and handed to a VM as a private writable copy.

pub mod copy;
pub mod frame;
pub mod gc;
pub mod gc_exact;
pub mod gc_laws;
pub mod gc_sizes;
pub mod get;
pub mod install;
pub mod laws;
pub mod list;
pub mod materialize;
pub mod put;
pub mod steps;

pub use gc::{GcPolicy, GcReport};

use crate::path;
use crate::text;
use vstd::prelude::*;
use vstd::string::*;
use vstd::utf8::*;

verus! {

/// The record of one stored image.
#[derive(Debug)]
pub struct Entry {
    pub key: String,
    pub size_bytes: u64,
    pub actual_bytes: u64,
    pub diff_ids: Vec<String>,
    /// Seconds since the epoch, renewed on every cache hit, so that the least
    /// recently used images can be evicted first.
    pub last_used: u64,
    pub created: u64,
}

/// An [`Entry`] as a mathematical value.
#[verifier::ext_equal]
pub struct EntryView {
    pub key: Seq<char>,
    pub size_bytes: u64,
    pub actual_bytes: u64,
    pub diff_ids: Seq<Seq<char>>,
    pub last_used: u64,
    pub created: u64,
}

impl View for Entry {
    type V = EntryView;

    open spec fn view(&self) -> EntryView {
        EntryView {
            key: self.key@,
            size_bytes: self.size_bytes,
            actual_bytes: self.actual_bytes,
            diff_ids: text::views(self.diff_ids@),
            last_used: self.last_used,
            created: self.created,
        }
    }
}

impl Entry {
    /// The same record again.
    pub fn duplicate(&self) -> (e: Entry)
        ensures
            e@ == self@,
    {
        Entry {
            key: self.key.clone(),
            size_bytes: self.size_bytes,
            actual_bytes: self.actual_bytes,
            diff_ids: text::copy_all(&self.diff_ids),
            last_used: self.last_used,
            created: self.created,
        }
    }
}

/// How a stored image was published.
#[derive(Debug, Clone, Copy, PartialEq, Eq, Structural)]
pub enum InstallKind {
    Link,
    Copy,
}

/// How a writable copy was produced, and what it cost.
#[derive(Debug, Clone, Copy, PartialEq, Eq, Structural)]
#[non_exhaustive]
pub enum Materialization {
    /// The filesystem shared the blocks.
    Cloned { bytes_written: u64 },
    /// Copied, skipping holes: `bytes_written` counts only real data.
    SparseCopy { bytes_written: u64 },
}

impl Materialization {
    /// What the copy cost, however it was made.
    pub open spec fn cost(self) -> u64 {
        match self {
            Materialization::Cloned { bytes_written } => bytes_written,
            Materialization::SparseCopy { bytes_written } => bytes_written,
        }
    }

    pub fn bytes_written(self) -> (n: u64)
        ensures
            n == self.cost(),
            self matches Materialization::Cloned { bytes_written } ==> n == bytes_written,
            self matches Materialization::SparseCopy { bytes_written } ==> n == bytes_written,
    {
        match self {
            Materialization::Cloned { bytes_written } => bytes_written,
            Materialization::SparseCopy { bytes_written } => bytes_written,
        }
    }
}

// ---------------------------------------------------------------------------
// Where things are
// ---------------------------------------------------------------------------
/// A name below a directory of the store.
pub open spec fn below(root: Seq<u8>, dir: Seq<char>, name: Seq<char>) -> Seq<u8> {
    path::joined(path::joined(root, encode_utf8(dir)), encode_utf8(name))
}

/// The image of a key.
pub open spec fn blob_path(root: Seq<u8>, key: Seq<char>) -> Seq<u8> {
    below(root, "blobs"@, key + ".ext4"@)
}

/// The record of a key.
pub open spec fn meta_path(root: Seq<u8>, key: Seq<char>) -> Seq<u8> {
    below(root, "meta"@, key + ".json"@)
}

/// Where a record is written before it is renamed into place.
pub open spec fn meta_staging_path(root: Seq<u8>, key: Seq<char>) -> Seq<u8> {
    below(root, "tmp"@, key + ".json"@)
}

/// Where an image is built before it is renamed into place.
pub open spec fn build_path(root: Seq<u8>, key: Seq<char>) -> Seq<u8> {
    below(root, "tmp"@, key + ".building"@)
}

/// Where an image from another filesystem is copied before it is renamed into
/// place.
pub open spec fn copy_path(root: Seq<u8>, key: Seq<char>) -> Seq<u8> {
    below(root, "tmp"@, key + ".part"@)
}

/// The directory of the lock files.
pub open spec fn locks_path(root: Seq<u8>) -> Seq<u8> {
    path::joined(root, encode_utf8("locks"@))
}

/// The lock file of a key in a directory of lock files.
pub open spec fn lock_path(locks: Seq<u8>, key: Seq<char>) -> Seq<u8> {
    path::joined(locks, encode_utf8(key + ".lock"@))
}

/// The store's place, given what the environment names: the store itself, the
/// data directory, the home directory.
pub open spec fn default_place(
    store: Option<Seq<char>>,
    data: Option<Seq<char>>,
    home: Option<Seq<char>>,
) -> Seq<u8> {
    match (store, data) {
        (Some(p), _) => encode_utf8(p),
        (None, Some(d)) => path::joined(encode_utf8(d), encode_utf8("vmbuild"@)),
        (None, None) => {
            let base = match home {
                Some(h) => h,
                None => "."@,
            };
            path::joined(
                path::joined(encode_utf8(base), encode_utf8(".heyo"@)),
                encode_utf8("vmbuild"@),
            )
        },
    }
}

/// A store, known by its root directory.
#[derive(Debug)]
pub struct Store {
    root: Vec<u8>,
}

impl View for Store {
    type V = Seq<u8>;

    closed spec fn view(&self) -> Seq<u8> {
        self.root@
    }
}

/// A name below a directory of the store.
fn below_of(root: &[u8], dir: &str, key: &str, suffix: &str) -> (p: Vec<u8>)
    ensures
        p@ == below(root@, dir@, key@ + suffix@),
{
    let dir_path = path::join_text(root, dir);
    let name = text::concat(key, suffix);
    path::join_text(&dir_path, name.as_str())
}

/// The lock file of a key in a directory of lock files.
pub fn lock_file(locks: &[u8], key: &str) -> (p: Vec<u8>)
    ensures
        p@ == lock_path(locks@, key@),
{
    let name = text::concat(key, ".lock");
    path::join_text(locks, name.as_str())
}

impl Store {
    /// The default root: `$VMBUILD_STORE`, else `$MVM_DATA_DIR/vmbuild`, else
    /// `~/.heyo/vmbuild`.
    pub fn default_root(store: Option<&str>, data: Option<&str>, home: Option<&str>) -> (p: Vec<u8>)
        ensures
            p@ == default_place(
                text::option_view(store),
                text::option_view(data),
                text::option_view(home),
            ),
    {
        match store {
            Some(s) => path::bytes_of(s),
            None => match data {
                Some(d) => path::join_text(d.as_bytes(), "vmbuild"),
                None => {
                    let base = match home {
                        Some(h) => h,
                        None => ".",
                    };
                    let hidden = path::join_text(base.as_bytes(), ".heyo");
                    path::join_text(&hidden, "vmbuild")
                },
            },
        }
    }

    /// The store with this root. Its [`Store::directories`] have to exist.
    pub fn open(root: &[u8]) -> (store: Store)
        ensures
            store@ == root@,
    {
        Store { root: path::copy_of(root) }
    }

    /// The directories that a store needs.
    pub fn directories(&self) -> (dirs: Vec<Vec<u8>>)
        ensures
            path::views(dirs@) == seq![
                path::joined(self@, encode_utf8("blobs"@)),
                path::joined(self@, encode_utf8("meta"@)),
                path::joined(self@, encode_utf8("tmp"@)),
                path::joined(self@, encode_utf8("locks"@)),
            ],
    {
        let mut dirs: Vec<Vec<u8>> = Vec::new();
        dirs.push(path::join_text(&self.root, "blobs"));
        dirs.push(path::join_text(&self.root, "meta"));
        dirs.push(path::join_text(&self.root, "tmp"));
        dirs.push(path::join_text(&self.root, "locks"));
        assert(path::views(dirs@) =~= seq![
            path::joined(self@, encode_utf8("blobs"@)),
            path::joined(self@, encode_utf8("meta"@)),
            path::joined(self@, encode_utf8("tmp"@)),
            path::joined(self@, encode_utf8("locks"@)),
        ]);
        dirs
    }

    pub fn root(&self) -> (root: &[u8])
        ensures
            root@ == self@,
    {
        &self.root
    }

    /// Where the image of `key` is.
    pub fn blob(&self, key: &str) -> (p: Vec<u8>)
        ensures
            p@ == blob_path(self@, key@),
    {
        below_of(&self.root, "blobs", key, ".ext4")
    }

    /// Where the record of `key` is.
    pub fn meta(&self, key: &str) -> (p: Vec<u8>)
        ensures
            p@ == meta_path(self@, key@),
    {
        below_of(&self.root, "meta", key, ".json")
    }

    /// Where the record of `key` is written before it is renamed into place.
    pub fn meta_staging(&self, key: &str) -> (p: Vec<u8>)
        ensures
            p@ == meta_staging_path(self@, key@),
    {
        below_of(&self.root, "tmp", key, ".json")
    }

    /// A path on the store's filesystem to build into, so that putting the
    /// image into the store is a rename.
    pub fn staging_path(&self, key: &str) -> (p: Vec<u8>)
        ensures
            p@ == build_path(self@, key@),
    {
        below_of(&self.root, "tmp", key, ".building")
    }

    /// Where an image from another filesystem is copied before it is renamed
    /// into place.
    pub fn copy_staging(&self, key: &str) -> (p: Vec<u8>)
        ensures
            p@ == copy_path(self@, key@),
    {
        below_of(&self.root, "tmp", key, ".part")
    }

    /// The file whose lock serializes work on `key`.
    pub fn lock(&self, key: &str) -> (p: Vec<u8>)
        ensures
            p@ == lock_path(locks_path(self@), key@),
    {
        let locks = path::join_text(&self.root, "locks");
        lock_file(&locks, key)
    }

    /// The same store again.
    pub fn duplicate(&self) -> (store: Store)
        ensures
            store@ == self@,
    {
        Store { root: path::copy_of(&self.root) }
    }
}

} // verus!
