//! Storage on ZFS: a dataset for each image, a clone for each private copy.
//!
//! An image is a file in a dataset of its own, of which a snapshot is taken;
//! a private copy is a clone of that snapshot. While a clone exists, the image
//! it came from cannot be destroyed. So a copy that is never released costs
//! twice, and an eviction asks which images are pinned before it destroys any.

pub mod gc;
pub mod laws;
pub mod procedures;
pub mod steps;

use crate::error::{Error, ErrorView};
use crate::key;
use crate::number;
use crate::path;
use crate::store;
use crate::text;
use vstd::prelude::*;
use vstd::string::*;
use vstd::utf8::*;

verus! {

/// Whether what `zfs` wrote to its standard error says that an object is pinned.
pub open spec fn busy_words(stderr: Seq<char>) -> bool {
    let s = text::lower(stderr);
    text::contains(s, "dataset is busy"@) || text::contains(s, "has dependent clones"@)
        || text::contains(s, "filesystem has children"@)
}

/// Whether a failure means that an object is pinned, as opposed to anything
/// else that can go wrong.
pub open spec fn means_busy(e: ErrorView) -> bool {
    match e {
        ErrorView::ToolFailed { stderr, .. } => busy_words(stderr),
        _ => false,
    }
}

/// Whether a failure means that an object is pinned, as opposed to anything
/// else that can go wrong.
pub fn is_busy(e: &Error) -> (r: bool)
    ensures
        r == means_busy(e@),
{
    match e {
        Error::ToolFailed { stderr, .. } => {
            let s = text::lowered(stderr.as_str());
            text::has(s.as_str(), "dataset is busy") || text::has(s.as_str(), "has dependent clones")
                || text::has(s.as_str(), "filesystem has children")
        },
        _ => false,
    }
}

/// Whether a failure means that the object is not there.
pub open spec fn means_gone(e: ErrorView) -> bool {
    match e {
        ErrorView::ToolFailed { stderr, .. } => text::contains(stderr, "does not exist"@),
        _ => false,
    }
}

/// Whether a failure means that the object is not there.
pub fn is_gone(e: &Error) -> (r: bool)
    ensures
        r == means_gone(e@),
{
    match e {
        Error::ToolFailed { stderr, .. } => text::has(stderr.as_str(), "does not exist"),
        _ => false,
    }
}

// ---------------------------------------------------------------------------
// Names
// ---------------------------------------------------------------------------
/// The dataset of an image.
pub open spec fn blob_dataset(dataset: Seq<char>, key: Seq<char>) -> Seq<char> {
    dataset + "/blobs/"@ + key
}

/// The dataset of a private copy.
pub open spec fn clone_dataset(dataset: Seq<char>, token: Seq<char>) -> Seq<char> {
    dataset + "/clones/"@ + token
}

/// The snapshot of which copies are cloned.
pub open spec fn ready_snapshot(dataset: Seq<char>, key: Seq<char>) -> Seq<char> {
    blob_dataset(dataset, key) + "@ready"@
}

/// The directory where the dataset of an image is mounted.
pub open spec fn blob_dir(mountpoint: Seq<u8>, key: Seq<char>) -> Seq<u8> {
    path::joined(path::joined(mountpoint, encode_utf8("blobs"@)), encode_utf8(key))
}

/// The image in its dataset.
pub open spec fn blob_file(mountpoint: Seq<u8>, key: Seq<char>) -> Seq<u8> {
    path::joined(blob_dir(mountpoint, key), encode_utf8("image.ext4"@))
}

/// The image in the dataset of a private copy.
pub open spec fn clone_file(mountpoint: Seq<u8>, token: Seq<char>) -> Seq<u8> {
    path::joined(
        path::joined(path::joined(mountpoint, encode_utf8("clones"@)), encode_utf8(token)),
        encode_utf8("image.ext4"@),
    )
}

/// The name of the clone for a destination: half of the hash of the
/// destination, so that it can be found again without a table.
pub open spec fn token_of(dest: Seq<u8>) -> Seq<char> {
    number::hex(key::sha256_of(dest)).take(32)
}

/// Storage below a dataset.
#[derive(Debug)]
pub struct ZfsBackend {
    /// The dataset, such as `tank/vmbuild`.
    dataset: String,
    /// Where it is mounted.
    mountpoint: Vec<u8>,
}

/// A [`ZfsBackend`] as a mathematical value.
#[verifier::ext_equal]
pub struct ZfsView {
    pub dataset: Seq<char>,
    pub mountpoint: Seq<u8>,
}

impl View for ZfsBackend {
    type V = ZfsView;

    closed spec fn view(&self) -> ZfsView {
        ZfsView { dataset: self.dataset@, mountpoint: self.mountpoint@ }
    }
}

impl ZfsBackend {
    pub fn new(dataset: &str, mountpoint: &[u8]) -> (b: ZfsBackend)
        ensures
            b@ == (ZfsView { dataset: dataset@, mountpoint: mountpoint@ }),
    {
        ZfsBackend { dataset: dataset.to_owned(), mountpoint: path::copy_of(mountpoint) }
    }

    /// The same storage again.
    pub fn duplicate(&self) -> (b: ZfsBackend)
        ensures
            b@ == self@,
    {
        ZfsBackend { dataset: self.dataset.clone(), mountpoint: path::copy_of(&self.mountpoint) }
    }

    /// The dataset below which everything is.
    pub fn dataset_name(&self) -> (s: String)
        ensures
            s@ == self@.dataset,
    {
        self.dataset.clone()
    }

    /// The dataset of the image of `key`.
    pub fn blob_ds(&self, key: &str) -> (s: String)
        ensures
            s@ == blob_dataset(self@.dataset, key@),
    {
        let head = text::concat(self.dataset.as_str(), "/blobs/");
        text::concat(head.as_str(), key)
    }

    /// The dataset of the clone of a name.
    pub fn clone_ds(&self, token: &str) -> (s: String)
        ensures
            s@ == clone_dataset(self@.dataset, token@),
    {
        let head = text::concat(self.dataset.as_str(), "/clones/");
        text::concat(head.as_str(), token)
    }

    /// The snapshot of the image of `key`.
    pub fn snapshot(&self, key: &str) -> (s: String)
        ensures
            s@ == ready_snapshot(self@.dataset, key@),
    {
        let head = self.blob_ds(key);
        text::concat(head.as_str(), "@ready")
    }

    /// The directory of the image of `key`.
    pub fn blob_dir(&self, key: &str) -> (p: Vec<u8>)
        ensures
            p@ == blob_dir(self@.mountpoint, key@),
    {
        let blobs = path::join_text(&self.mountpoint, "blobs");
        path::join_text(&blobs, key)
    }

    /// The image of `key`.
    pub fn blob_file(&self, key: &str) -> (p: Vec<u8>)
        ensures
            p@ == blob_file(self@.mountpoint, key@),
    {
        let dir = self.blob_dir(key);
        path::join_text(&dir, "image.ext4")
    }

    /// The image in the clone of a name.
    pub fn clone_file(&self, token: &str) -> (p: Vec<u8>)
        ensures
            p@ == clone_file(self@.mountpoint, token@),
    {
        let clones = path::join_text(&self.mountpoint, "clones");
        let dir = path::join_text(&clones, token);
        path::join_text(&dir, "image.ext4")
    }

    /// The record of `key`.
    pub fn meta_path(&self, key: &str) -> (p: Vec<u8>)
        ensures
            p@ == store::meta_path(self@.mountpoint, key@),
    {
        let meta = path::join_text(&self.mountpoint, "meta");
        let name = text::concat(key, ".json");
        path::join_text(&meta, name.as_str())
    }

    /// Where a record is written before it is renamed into place.
    pub fn meta_staging(&self, key: &str) -> (p: Vec<u8>)
        ensures
            p@ == store::meta_staging_path(self@.mountpoint, key@),
    {
        let tmp = path::join_text(&self.mountpoint, "tmp");
        let name = text::concat(key, ".json");
        path::join_text(&tmp, name.as_str())
    }

    /// The directory of the records.
    pub fn records(&self) -> (p: Vec<u8>)
        ensures
            p@ == store::list::records_path(self@.mountpoint),
    {
        path::join_text(&self.mountpoint, "meta")
    }

    /// Where the dataset is mounted.
    pub fn root(&self) -> (p: &[u8])
        ensures
            p@ == self@.mountpoint,
    {
        &self.mountpoint
    }

    /// The file whose lock serializes work on `key`.
    pub fn lock(&self, key: &str) -> (p: Vec<u8>)
        ensures
            p@ == store::lock_path(store::locks_path(self@.mountpoint), key@),
    {
        let locks = path::join_text(&self.mountpoint, "locks");
        store::lock_file(&locks, key)
    }

    /// A path on this storage to build into.
    pub fn staging_path(&self, key: &str) -> (p: Vec<u8>)
        ensures
            p@ == store::build_path(self@.mountpoint, key@),
    {
        let tmp = path::join_text(&self.mountpoint, "tmp");
        let name = text::concat(key, ".building");
        path::join_text(&tmp, name.as_str())
    }

    /// The name of the clone for a destination.
    pub fn clone_token(dest: &[u8]) -> (s: String)
        ensures
            s@ == token_of(dest@),
            s@.len() == 32,
    {
        let hash = key::sha256(dest);
        let hex = number::hex_of(&hash);
        let chars = text::chars_of(hex.as_str());
        let token = text::string_of(&chars, 0, 32);
        assert(token@ =~= token_of(dest@));
        token
    }
}

// ---------------------------------------------------------------------------
// The graph of clones
// ---------------------------------------------------------------------------
/// The dataset and the snapshot it was cloned from, if a line of the listing
/// tells of one: two fields with a tab between, the second neither empty nor a
/// dash.
pub open spec fn clone_line(line: Seq<char>) -> Option<(Seq<char>, Seq<char>)> {
    let at = text::find(line, '\t');
    if at < line.len() {
        let origin = text::trim(text::before(line.skip(at + 1), '\t'));
        if origin != "-"@ && origin.len() > 0 {
            Some((text::trim(text::before(line, '\t')), origin))
        } else {
            None
        }
    } else {
        None
    }
}

/// The clones that lines of the listing tell of.
pub open spec fn clones_in(lines: Seq<Seq<char>>) -> Seq<(Seq<char>, Seq<char>)>
    decreases lines.len(),
{
    if lines.len() == 0 {
        seq![]
    } else {
        match clone_line(lines.last()) {
            Some(c) => clones_in(lines.drop_last()).push(c),
            None => clones_in(lines.drop_last()),
        }
    }
}

/// Pairs of strings as mathematical values.
pub open spec fn pair_views(v: Seq<(String, String)>) -> Seq<(Seq<char>, Seq<char>)> {
    v.map_values(|p: (String, String)| (p.0@, p.1@))
}

fn clone_line_of(line: &str) -> (r: Option<(String, String)>)
    ensures
        match r {
            Some(p) => clone_line(line@) == Some((p.0@, p.1@)),
            None => clone_line(line@) is None,
        },
{
    let chars = text::chars_of(line);
    proof {
        assert(chars@.skip(0) =~= line@);
        text::lemma_find(line@, '\t');
    }
    let at: usize = text::find_from(&chars, 0, '\t');
    if at >= chars.len() {
        return None;
    }
    let name = text::string_of(&chars, 0, at);
    let end: usize = text::find_from(&chars, at + 1, '\t');
    let origin = text::string_of(&chars, at + 1, end);
    proof {
        let rest = line@.skip(at + 1);
        text::lemma_find(rest, '\t');
        assert(origin@ =~= text::before(rest, '\t'));
        assert(name@ =~= text::before(line@, '\t'));
    }
    let origin = text::trimmed(origin.as_str());
    let dash = text::same(origin.as_str(), "-");
    let empty = text::same(origin.as_str(), "");
    proof {
        reveal_strlit("");
        if origin@.len() == 0 {
            assert(origin@ =~= ""@);
        }
    }
    if dash || empty {
        None
    } else {
        Some((text::trimmed(name.as_str()), origin))
    }
}

/// The clones that a listing of names and origins tells of, each with the
/// snapshot it was cloned from.
pub fn clone_graph(listing: &str) -> (out: Vec<(String, String)>)
    ensures
        pair_views(out@) == clones_in(text::lines(listing@)),
{
    let lines = text::lines_of(listing);
    let ghost all = text::views(lines@);
    let mut out: Vec<(String, String)> = Vec::new();
    let mut i: usize = 0;
    assert(pair_views(out@) =~= seq![]);
    while i < lines.len()
        invariant
            i <= lines@.len(),
            all == text::views(lines@),
            pair_views(out@) == clones_in(all.take(i as int)),
        decreases lines@.len() - i,
    {
        let ghost done = pair_views(out@);
        proof {
            let s = all.take(i + 1);
            assert(s.drop_last() =~= all.take(i as int));
            assert(s.last() == lines@[i as int]@);
        }
        match clone_line_of(lines[i].as_str()) {
            Some(p) => {
                out.push(p);
                assert(pair_views(out@) =~= done.push((p.0@, p.1@)));
            },
            None => {},
        }
        i = i + 1;
    }
    assert(all.take(i as int) =~= all);
    out
}

/// The images that a clone pins: what stands in front of the at sign of the
/// snapshots that there are clones of.
pub open spec fn pinned_images(listing: Seq<char>) -> Seq<Seq<char>> {
    clones_in(text::lines(listing)).map_values(
        |c: (Seq<char>, Seq<char>)| text::before(c.1, '@'),
    )
}

/// The images that a clone pins.
pub fn pinned(listing: &str) -> (out: Vec<String>)
    ensures
        text::views(out@) == pinned_images(listing@),
{
    let graph = clone_graph(listing);
    let ghost all = pinned_images(listing@);
    let mut out: Vec<String> = Vec::new();
    let mut i: usize = 0;
    assert(text::views(out@) =~= all.take(0));
    while i < graph.len()
        invariant
            i <= graph@.len(),
            pair_views(graph@) == clones_in(text::lines(listing@)),
            all == pinned_images(listing@),
            text::views(out@) == all.take(i as int),
        decreases graph@.len() - i,
    {
        let ghost done = text::views(out@);
        let origin = graph[i].1.as_str();
        let chars = text::chars_of(origin);
        proof {
            assert(chars@.skip(0) =~= origin@);
            text::lemma_find(origin@, '@');
            assert(pair_views(graph@)[i as int].1 == origin@);
        }
        let at: usize = text::find_from(&chars, 0, '@');
        let image = text::string_of(&chars, 0, at);
        assert(image@ =~= text::before(origin@, '@'));
        assert(all[i as int] == image@);
        out.push(image);
        assert(text::views(out@) =~= done.push(image@));
        assert(all.take(i + 1) =~= all.take(i as int).push(all[i as int]));
        i = i + 1;
    }
    assert(all.take(i as int) =~= all);
    out
}

} // verus!
