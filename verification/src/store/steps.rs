//! What the operations of a store ask for, one step after the other, and what
//! the answers lead to.

use super::gc::{self, Gc, GcPhase, GcPolicy, GcView};
use super::get::{Get, GetView, Lookup, LookupView};
use super::install::{self, Install, InstallView};
use super::list::{self, List, ListView, Order};
use super::materialize::{Materialize, MaterializeView, Release, ReleaseView};
use super::put::{Put, PutView};
use super::{EntryView, InstallKind, Materialization};
use crate::error::{ErrorView, IoErrorView, IoKind, OsCode};
use crate::host::{FileStat, ReplyView, RequestView};
use crate::path;
use crate::procedure::Procedure;
use crate::store;
use vstd::prelude::*;
use vstd::utf8::*;

verus! {

// ---------------------------------------------------------------------------
// Names
// ---------------------------------------------------------------------------
proof fn lemma_below(root: Seq<u8>, dir: Seq<char>, key: Seq<char>, suffix: Seq<char>)
    requires
        root.len() > 0,
        root.last() != 47,
        encode_utf8(key).len() > 0,
        encode_utf8(key)[0] != 47,
        encode_utf8(dir).len() > 0,
        encode_utf8(dir)[0] != 47,
        encode_utf8(dir).last() != 47,
    ensures
        store::below(root, dir, key + suffix) == root + seq![47u8] + encode_utf8(dir) + seq![47u8]
            + encode_utf8(key) + encode_utf8(suffix),
{
    path::lemma_encode_concat(key, suffix);
    let d = encode_utf8(dir);
    let base = path::joined(root, d);
    assert(base =~= root + seq![47u8] + d);
    assert(base.last() == d.last());
    assert(encode_utf8(key + suffix)[0] == encode_utf8(key)[0]);
    assert(store::below(root, dir, key + suffix) =~= root + seq![47u8] + d + seq![47u8]
        + encode_utf8(key) + encode_utf8(suffix));
}

/// Where things are in a store: the image of a key, its record, and the names
/// under which they are prepared.
pub proof fn lemma_where_things_are(root: Seq<u8>, key: Seq<char>)
    requires
        root.len() > 0,
        root.last() != 47,
        encode_utf8(key).len() > 0,
        encode_utf8(key)[0] != 47,
    ensures
        store::blob_path(root, key) == root + encode_utf8("/blobs/"@) + encode_utf8(key)
            + encode_utf8(".ext4"@),
        store::meta_path(root, key) == root + encode_utf8("/meta/"@) + encode_utf8(key)
            + encode_utf8(".json"@),
        store::meta_staging_path(root, key) == root + encode_utf8("/tmp/"@) + encode_utf8(key)
            + encode_utf8(".json"@),
        store::build_path(root, key) == root + encode_utf8("/tmp/"@) + encode_utf8(key)
            + encode_utf8(".building"@),
        store::copy_path(root, key) == root + encode_utf8("/tmp/"@) + encode_utf8(key)
            + encode_utf8(".part"@),
        store::lock_path(store::locks_path(root), key) == root + encode_utf8("/locks/"@)
            + encode_utf8(key) + encode_utf8(".lock"@),
        list::records_path(root) == root + encode_utf8("/meta"@),
{
    reveal_strlit("blobs");
    reveal_strlit("meta");
    reveal_strlit("tmp");
    reveal_strlit("locks");
    reveal_strlit("/blobs/");
    reveal_strlit("/meta/");
    reveal_strlit("/tmp/");
    reveal_strlit("/locks/");
    reveal_strlit("/meta");
    is_ascii_chars_encode_utf8("blobs"@);
    is_ascii_chars_encode_utf8("meta"@);
    is_ascii_chars_encode_utf8("tmp"@);
    is_ascii_chars_encode_utf8("locks"@);
    is_ascii_chars_encode_utf8("/blobs/"@);
    is_ascii_chars_encode_utf8("/meta/"@);
    is_ascii_chars_encode_utf8("/tmp/"@);
    is_ascii_chars_encode_utf8("/locks/"@);
    is_ascii_chars_encode_utf8("/meta"@);
    let k = encode_utf8(key);
    assert(encode_utf8("/blobs/"@) =~= seq![47u8] + encode_utf8("blobs"@) + seq![47u8]);
    assert(encode_utf8("/meta/"@) =~= seq![47u8] + encode_utf8("meta"@) + seq![47u8]);
    assert(encode_utf8("/tmp/"@) =~= seq![47u8] + encode_utf8("tmp"@) + seq![47u8]);
    assert(encode_utf8("/locks/"@) =~= seq![47u8] + encode_utf8("locks"@) + seq![47u8]);
    assert(encode_utf8("/meta"@) =~= seq![47u8] + encode_utf8("meta"@));
    lemma_below(root, "blobs"@, key, ".ext4"@);
    lemma_below(root, "meta"@, key, ".json"@);
    lemma_below(root, "tmp"@, key, ".json"@);
    lemma_below(root, "tmp"@, key, ".building"@);
    lemma_below(root, "tmp"@, key, ".part"@);
    lemma_below(root, "locks"@, key, ".lock"@);
    assert(store::blob_path(root, key) =~= root + encode_utf8("/blobs/"@) + k + encode_utf8(
        ".ext4"@,
    ));
    assert(store::meta_path(root, key) =~= root + encode_utf8("/meta/"@) + k + encode_utf8(
        ".json"@,
    ));
    assert(store::meta_staging_path(root, key) =~= root + encode_utf8("/tmp/"@) + k + encode_utf8(
        ".json"@,
    ));
    assert(store::build_path(root, key) =~= root + encode_utf8("/tmp/"@) + k + encode_utf8(
        ".building"@,
    ));
    assert(store::copy_path(root, key) =~= root + encode_utf8("/tmp/"@) + k + encode_utf8(
        ".part"@,
    ));
    assert(store::lock_path(store::locks_path(root), key) =~= root + encode_utf8("/locks/"@) + k
        + encode_utf8(".lock"@));
    assert(list::records_path(root) =~= root + encode_utf8("/meta"@));
}

/// A store is where it is said to be; else it is `vmbuild` in the data directory;
/// else that in `.heyo` in the home directory, or in the current one.
pub proof fn lemma_where_the_store_is(
    store: Option<Seq<char>>,
    data: Option<Seq<char>>,
    home: Option<Seq<char>>,
)
    ensures
        ({
            let place = store::default_place(store, data, home);
            let base = match (data, home) {
                (Some(d), _) => encode_utf8(d),
                (None, Some(h)) => encode_utf8(h),
                (None, None) => encode_utf8("."@),
            };
            &&& store is Some ==> place == encode_utf8(store->0)
            &&& store is None && base.len() > 0 && base.last() != 47 ==> place == base + (
            if data is Some {
                encode_utf8("/vmbuild"@)
            } else {
                encode_utf8("/.heyo/vmbuild"@)
            })
            &&& store is None && (base.len() == 0 || base.last() == 47) ==> place == base + (
            if data is Some {
                encode_utf8("vmbuild"@)
            } else {
                encode_utf8(".heyo/vmbuild"@)
            })
        }),
{
    reveal_strlit("vmbuild");
    reveal_strlit(".heyo");
    reveal_strlit("/vmbuild");
    reveal_strlit("/.heyo/vmbuild");
    reveal_strlit(".heyo/vmbuild");
    is_ascii_chars_encode_utf8("vmbuild"@);
    is_ascii_chars_encode_utf8(".heyo"@);
    is_ascii_chars_encode_utf8("/vmbuild"@);
    is_ascii_chars_encode_utf8("/.heyo/vmbuild"@);
    is_ascii_chars_encode_utf8(".heyo/vmbuild"@);
    let base = match (data, home) {
        (Some(d), _) => encode_utf8(d),
        (None, Some(h)) => encode_utf8(h),
        (None, None) => encode_utf8("."@),
    };
    let place = store::default_place(store, data, home);
    if store is None {
        if data is Some {
            if base.len() > 0 && base.last() != 47 {
                assert(place =~= base + encode_utf8("/vmbuild"@));
            } else {
                assert(place =~= base + encode_utf8("vmbuild"@));
            }
        } else {
            let hidden = path::joined(base, encode_utf8(".heyo"@));
            assert(hidden.last() == 111);
            if base.len() > 0 && base.last() != 47 {
                assert(place =~= base + encode_utf8("/.heyo/vmbuild"@));
            } else {
                assert(place =~= base + encode_utf8(".heyo/vmbuild"@));
            }
        }
    }
}

// ---------------------------------------------------------------------------
// put
// ---------------------------------------------------------------------------
/// Putting an image is renaming its source to where it is stored, protecting it
/// from being written, flushing it, and writing its record beside its place and
/// renaming it there. The record holds the key, the layers, the size and what the
/// image occupies as it was measured, and the time that was told. That it could
/// not be flushed does not matter.
pub proof fn lemma_putting_an_image(
    root: Seq<u8>,
    key: Seq<char>,
    source: Seq<u8>,
    diff_ids: Seq<Seq<char>>,
    flushed: ReplyView,
    stat: FileStat,
    now: u64,
)
    requires
        flushed is Done || flushed is Failed,
    ensures
        ({
            let blob = store::blob_path(root, key);
            let staging = store::meta_staging_path(root, key);
            let s0 = PutView::start(root, key, source, diff_ids);
            let s1 = Put::after(s0, ReplyView::Done);
            let s2 = Put::after(s1, ReplyView::Done);
            let s3 = Put::after(s2, flushed);
            let s4 = Put::after(s3, ReplyView::Stat(stat));
            let s5 = Put::after(s4, ReplyView::Time(now));
            let s6 = Put::after(s5, ReplyView::Done);
            let s7 = Put::after(s6, ReplyView::Done);
            &&& Put::wants(s0) == Some(RequestView::Rename { from: source, to: blob })
            &&& Put::wants(s1) == Some(RequestView::SetMode { path: blob, mode: 0o444 })
            &&& Put::wants(s2) == Some(RequestView::Sync(blob))
            &&& Put::wants(s3) == Some(RequestView::Stat(blob))
            &&& Put::wants(s4) == Some(RequestView::Now)
            &&& Put::wants(s5) matches Some(RequestView::WriteEntry { path, entry }) && {
                &&& path == staging
                &&& entry.key == key
                &&& entry.diff_ids == diff_ids
                &&& entry.size_bytes == stat.len
                &&& entry.actual_bytes == stat.allocated
                &&& entry.created == now
                &&& entry.last_used == now
            }
            &&& Put::wants(s6) == Some(
                RequestView::Rename { from: staging, to: store::meta_path(root, key) },
            )
            &&& Put::wants(s7) is None
            &&& s7.outcome() == Some(Ok::<Seq<u8>, ErrorView>(blob))
        }),
{
}

/// Where the source is on another filesystem, it is copied beside the image and
/// renamed, and then removed; it goes on as after a rename. What was left of an
/// earlier copy is removed first. Neither of these removals has to succeed. A
/// source that is the image or the copy itself is not copied.
pub proof fn lemma_putting_an_image_across_filesystems(
    root: Seq<u8>,
    key: Seq<char>,
    source: Seq<u8>,
    diff_ids: Seq<Seq<char>>,
    e: IoErrorView,
    cleared: ReplyView,
    count: u64,
    dropped: ReplyView,
)
    requires
        cleared is Done || cleared is Failed,
        dropped is Done || dropped is Failed,
    ensures
        ({
            let blob = store::blob_path(root, key);
            let copy = store::copy_path(root, key);
            let s0 = PutView::start(root, key, source, diff_ids);
            let s1 = Put::after(s0, ReplyView::Failed(e));
            let s2 = Put::after(s1, cleared);
            let s3 = Put::after(s2, ReplyView::Count(count));
            let s4 = Put::after(s3, ReplyView::Done);
            let s5 = Put::after(s4, dropped);
            if e.code == Some(OsCode::CrossDevice) && source != blob && source != copy {
                &&& Put::wants(s1) == Some(RequestView::Remove(copy))
                &&& Put::wants(s2) == Some(RequestView::SparseCopy { from: source, to: copy })
                &&& Put::wants(s3) == Some(RequestView::Rename { from: copy, to: blob })
                &&& Put::wants(s4) == Some(RequestView::Remove(source))
                &&& s5 == Put::after(s0, ReplyView::Done)
            } else {
                &&& s1.outcome() == Some(Err::<Seq<u8>, ErrorView>(ErrorView::Io(e)))
                &&& Put::wants(s1) is None
            }
        }),
{
}

/// A put ends with the failure that it meets with, except that flushing, and
/// removing the source or an earlier copy, need not succeed, and that a rename
/// across filesystems is made up for.
pub proof fn lemma_failures_end_a_put(s: PutView, e: IoErrorView)
    requires
        Put::wants(s) is Some,
    ensures
        ({
            let next = Put::after(s, ReplyView::Failed(e));
            match Put::wants(s)->0 {
                RequestView::Now => next == s,
                RequestView::Sync(_) => Put::wants(next) == Some(RequestView::Stat(s.blob())),
                RequestView::Remove(_) => Put::wants(next) is Some,
                RequestView::Rename { from, .. } => {
                    ||| next.outcome() == Some(Err::<Seq<u8>, ErrorView>(ErrorView::Io(e)))
                    ||| e.code == Some(OsCode::CrossDevice) && from == s.source && Put::wants(next)
                        == Some(RequestView::Remove(s.copy()))
                },
                _ => next.outcome() == Some(Err::<Seq<u8>, ErrorView>(ErrorView::Io(e))),
            }
        }),
{
}

// ---------------------------------------------------------------------------
// get
// ---------------------------------------------------------------------------
/// A get finds the image of the key exactly if it is there. Then its record is
/// read, and written again with nothing changed but the date of use, which is the
/// time that was told; whatever goes wrong with the record does not matter.
pub proof fn lemma_getting_an_image(
    root: Seq<u8>,
    key: Seq<char>,
    record: EntryView,
    now: u64,
    written: ReplyView,
    e: IoErrorView,
    renamed: ReplyView,
)
    requires
        written is Done || written is Failed,
        renamed is Done || renamed is Failed,
    ensures
        ({
            let blob = store::blob_path(root, key);
            let staging = store::meta_staging_path(root, record.key);
            let s0 = GetView::start(root, key);
            let none = Get::after(s0, ReplyView::Flag(false));
            let s1 = Get::after(s0, ReplyView::Flag(true));
            let unread = Get::after(s1, ReplyView::Failed(e));
            let s2 = Get::after(s1, ReplyView::Entry(record));
            let s3 = Get::after(s2, ReplyView::Time(now));
            let s4 = Get::after(s3, written);
            let s5 = Get::after(s4, renamed);
            &&& Get::wants(s0) == Some(RequestView::Exists(blob))
            &&& none.outcome() == Some(None::<Seq<u8>>)
            &&& Get::wants(s1) == Some(RequestView::ReadEntry(store::meta_path(root, key)))
            &&& unread.outcome() == Some(Some(blob))
            &&& Get::wants(s2) == Some(RequestView::Now)
            &&& Get::wants(s3) matches Some(RequestView::WriteEntry { path, entry }) && {
                &&& path == staging
                &&& entry.key == record.key
                &&& entry.diff_ids == record.diff_ids
                &&& entry.size_bytes == record.size_bytes
                &&& entry.actual_bytes == record.actual_bytes
                &&& entry.created == record.created
                &&& entry.last_used == now
            }
            &&& written is Done ==> Get::wants(s4) == Some(
                RequestView::Rename { from: staging, to: store::meta_path(root, record.key) },
            )
            &&& written is Failed ==> s4.outcome() == Some(Some(blob))
            &&& s5.outcome() == Some(Some(blob))
            &&& Get::wants(s5) is None
        }),
{
}

/// Looking up a record reads just that record, and gives what was read.
pub proof fn lemma_looking_up_a_record(path: Seq<u8>, e: EntryView, failure: IoErrorView)
    ensures
        ({
            let s0 = LookupView { path, found: None };
            &&& Lookup::wants(s0) == Some(RequestView::ReadEntry(path))
            &&& Lookup::after(s0, ReplyView::Entry(e)).found == Some(
                Ok::<EntryView, IoErrorView>(e),
            )
            &&& Lookup::after(s0, ReplyView::Failed(failure)).found == Some(
                Err::<EntryView, IoErrorView>(failure),
            )
        }),
{
}

// ---------------------------------------------------------------------------
// install
// ---------------------------------------------------------------------------
/// An install looks for the image and, without it, fails. It makes the directory
/// of the destination. A destination that is the image already is left alone;
/// otherwise a link to the image is made beside the destination, and renamed
/// there.
pub proof fn lemma_installing_an_image(
    root: Seq<u8>,
    key: Seq<char>,
    dest: Seq<u8>,
    at_dest: FileStat,
    at_blob: FileStat,
    e: IoErrorView,
    cleared: ReplyView,
    tidied: ReplyView,
)
    requires
        cleared is Done || cleared is Failed,
        tidied is Done || tidied is Failed,
    ensures
        ({
            let blob = store::blob_path(root, key);
            let part = dest + encode_utf8(".part"@);
            let s0 = InstallView::start(root, key, dest);
            let none = Install::after(s0, ReplyView::Flag(false));
            let s1 = Install::after(s0, ReplyView::Flag(true));
            let s2 = Install::after(s1, ReplyView::Done);
            let s3 = Install::after(s2, ReplyView::Stat(at_dest));
            let s4 = Install::after(s3, ReplyView::Stat(at_blob));
            let absent = Install::after(s2, ReplyView::Failed(e));
            let unseen = Install::after(s3, ReplyView::Failed(e));
            let s5 = Install::after(absent, cleared);
            let s6 = Install::after(s5, ReplyView::Done);
            let s7 = Install::after(s6, ReplyView::Done);
            let s8 = Install::after(s7, tidied);
            let same = at_dest.inode == at_blob.inode && at_dest.device == at_blob.device;
            &&& Install::wants(s0) == Some(RequestView::Exists(blob))
            &&& none.outcome() matches Some(Err(ErrorView::Io(io))) && io.kind == IoKind::NotFound
                && io.message == "no stored image for key "@ + key
            &&& Install::wants(s1) == Some(RequestView::MakeParent(dest))
            &&& Install::wants(s2) == Some(RequestView::Stat(dest))
            &&& Install::wants(s3) == Some(RequestView::Stat(blob))
            &&& same ==> s4.outcome() == Some(Ok::<InstallKind, ErrorView>(InstallKind::Link))
                && Install::wants(s4) is None
            &&& !same ==> s4 == absent
            &&& unseen == absent
            &&& Install::wants(absent) == Some(RequestView::Remove(part))
            &&& Install::wants(s5) == Some(RequestView::HardLink { from: blob, to: part })
            &&& Install::wants(s6) == Some(RequestView::Rename { from: part, to: dest })
            &&& Install::wants(s7) == Some(RequestView::Remove(part))
            &&& s8.outcome() == Some(Ok::<InstallKind, ErrorView>(InstallKind::Link))
            &&& Install::wants(s8) is None
        }),
{
}

/// Where an image cannot be linked because its destination is on another
/// filesystem, or because that is not permitted, it is copied; any other failure
/// to link ends the install with it, and so does a failure to make the directory,
/// to copy or to rename.
pub proof fn lemma_installing_a_copy(
    root: Seq<u8>,
    key: Seq<char>,
    dest: Seq<u8>,
    looked: IoErrorView,
    e: IoErrorView,
    cleared: ReplyView,
    count: u64,
    tidied: ReplyView,
    other: IoErrorView,
)
    requires
        cleared is Done || cleared is Failed,
        tidied is Done || tidied is Failed,
    ensures
        ({
            let blob = store::blob_path(root, key);
            let part = dest + encode_utf8(".part"@);
            let failed = |s: InstallView, e: IoErrorView|
                s.outcome() == Some(Err::<InstallKind, ErrorView>(ErrorView::Io(e)))
                    && Install::wants(s) is None;
            let s1 = Install::after(InstallView::start(root, key, dest), ReplyView::Flag(true));
            let s2 = Install::after(s1, ReplyView::Done);
            let s3 = Install::after(s2, ReplyView::Failed(looked));
            let s4 = Install::after(s3, cleared);
            let s5 = Install::after(s4, ReplyView::Failed(e));
            let s6 = Install::after(s5, ReplyView::Count(count));
            let s7 = Install::after(s6, ReplyView::Done);
            let s8 = Install::after(s7, tidied);
            &&& failed(Install::after(s1, ReplyView::Failed(e)), e)
            &&& if e.code == Some(OsCode::CrossDevice) || e.kind == IoKind::PermissionDenied {
                &&& Install::wants(s5) == Some(RequestView::SparseCopy { from: blob, to: part })
                &&& failed(Install::after(s5, ReplyView::Failed(other)), other)
                &&& Install::wants(s6) == Some(RequestView::Rename { from: part, to: dest })
                &&& failed(Install::after(s6, ReplyView::Failed(other)), other)
                &&& Install::wants(s7) == Some(RequestView::Remove(part))
                &&& s8.outcome() == Some(Ok::<InstallKind, ErrorView>(InstallKind::Copy))
            } else {
                failed(s5, e)
            }
        }),
{
}

// ---------------------------------------------------------------------------
// materialize and release
// ---------------------------------------------------------------------------
/// A writable copy of an image is made at the destination, which is cleared
/// first: by sharing blocks where the filesystem does, and by copying otherwise;
/// the result says which, and how many bytes were written. Without an image it
/// fails, and with any failure but that to clear the destination.
pub proof fn lemma_materializing_an_image(
    root: Seq<u8>,
    key: Seq<char>,
    dest: Seq<u8>,
    cleared: ReplyView,
    n: u64,
    e: IoErrorView,
)
    requires
        cleared is Done || cleared is Failed,
    ensures
        ({
            let blob = store::blob_path(root, key);
            let failed = |s: MaterializeView|
                s.outcome() == Some(Err::<Materialization, ErrorView>(ErrorView::Io(e)))
                    && Materialize::wants(s) is None;
            let made = |s: MaterializeView, m: Materialization|
                s.outcome() == Some(Ok::<Materialization, ErrorView>(m)) && Materialize::wants(
                    s,
                ) is None;
            let s0 = MaterializeView::start(root, key, dest);
            let none = Materialize::after(s0, ReplyView::Flag(false));
            let s1 = Materialize::after(s0, ReplyView::Flag(true));
            let s2 = Materialize::after(s1, ReplyView::Done);
            let s3 = Materialize::after(s2, cleared);
            let s4 = Materialize::after(s3, ReplyView::Cloned(None));
            &&& Materialize::wants(s0) == Some(RequestView::Exists(blob))
            &&& none.outcome() matches Some(Err(ErrorView::Io(io))) && io.kind == IoKind::NotFound
                && io.message == "no stored image for key "@ + key
            &&& Materialize::wants(s1) == Some(RequestView::MakeParent(dest))
            &&& failed(Materialize::after(s1, ReplyView::Failed(e)))
            &&& Materialize::wants(s2) == Some(RequestView::Remove(dest))
            &&& Materialize::wants(s3) == Some(RequestView::Clone { from: blob, to: dest })
            &&& made(
                Materialize::after(s3, ReplyView::Cloned(Some(n))),
                Materialization::Cloned { bytes_written: n },
            )
            &&& failed(Materialize::after(s3, ReplyView::Failed(e)))
            &&& Materialize::wants(s4) == Some(RequestView::SparseCopy { from: blob, to: dest })
            &&& made(
                Materialize::after(s4, ReplyView::Count(n)),
                Materialization::SparseCopy { bytes_written: n },
            )
            &&& failed(Materialize::after(s4, ReplyView::Failed(e)))
        }),
{
}

/// A release removes the destination; that it is gone already is no failure, and
/// every other failure is told.
pub proof fn lemma_releasing_a_copy(dest: Seq<u8>, e: IoErrorView)
    ensures
        ({
            let s0 = ReleaseView { dest, done: None };
            let failed = Release::after(s0, ReplyView::Failed(e));
            &&& Release::wants(s0) == Some(RequestView::Remove(dest))
            &&& Release::after(s0, ReplyView::Done).done == Some(Ok::<(), IoErrorView>(()))
            &&& failed.done == Some(
                if e.kind == IoKind::NotFound {
                    Ok(())
                } else {
                    Err(e)
                },
            )
        }),
{
}

// ---------------------------------------------------------------------------
// list
// ---------------------------------------------------------------------------
/// Every record that can be read is kept, and nothing else.
pub proof fn lemma_every_readable_record_counts(found: Seq<Option<EntryView>>, e: EntryView)
    ensures
        list::readable(Seq::empty()) == Seq::<EntryView>::empty(),
        list::readable(found.push(Some(e))) == list::readable(found).push(e),
        list::readable(found.push(None)) == list::readable(found),
{
    assert(found.push(Some(e)).drop_last() =~= found);
    assert(found.push(None).drop_last() =~= found);
}

/// A list has every record that can be read, once, the most recently used first;
/// those of one date stand as they were found. A failure to list is told.
pub proof fn lemma_listing_a_store(root: Seq<u8>, found: Seq<Option<EntryView>>, e: IoErrorView)
    ensures
        ({
            let s0 = ListView { root, found: None };
            let s1 = List::after(s0, ReplyView::Entries(found));
            &&& List::wants(s0) == Some(
                RequestView::ListEntries(path::joined(root, encode_utf8("meta"@))),
            )
            &&& List::wants(s1) is None
            &&& s1.found matches Some(Ok(v)) && {
                &&& v.to_multiset() == list::readable(found).to_multiset()
                &&& forall|i: int, j: int|
                    0 <= i < j < v.len() ==> (#[trigger] v[i]).last_used >= (
                    #[trigger] v[j]).last_used
                &&& forall|t: u64|
                    v.filter(|x: EntryView| x.last_used == t) == #[trigger] list::used_at(
                        list::readable(found),
                        t,
                    )
            }
            &&& List::after(s0, ReplyView::Failed(e)).found == Some(
                Err::<Seq<EntryView>, IoErrorView>(e),
            )
        }),
{
    let all = list::readable(found);
    list::lemma_sorted(Order::NewestFirst, all);
    let v = list::sorted(Order::NewestFirst, all);
    assert forall|t: u64|
        v.filter(|x: EntryView| x.last_used == t) == #[trigger] list::used_at(all, t) by {
        assert(list::used_at(v, t) == list::used_at(all, t));
    }
}

/// What all records together say that the images occupy is added up, as far as 64
/// bits go.
pub proof fn lemma_recorded_total_adds_up(entries: Seq<EntryView>, e: EntryView)
    ensures
        list::recorded_total(Seq::empty()) == 0,
        list::recorded_total(entries.push(e)) == (list::recorded_total(entries) + e.actual_bytes)
            % 0x1_0000_0000_0000_0000,
{
    assert(entries.push(e).drop_last() =~= entries);
}

// ---------------------------------------------------------------------------
// gc
// ---------------------------------------------------------------------------
/// A store is over its size if it occupies more than the limit; an image is too
/// old if it has gone unused for more seconds than the limit; and it is unwanted
/// for either reason. Without a limit there is no such reason.
pub proof fn lemma_policies_in_numbers(p: GcPolicy, total: u64, now: u64, last_used: u64)
    ensures
        p.over_size(total) <==> p.max_bytes is Some && total > p.max_bytes->0,
        p.too_old(now, last_used) <==> p.keep_secs is Some && now - last_used > p.keep_secs->0,
        p.unwanted(total, now, last_used) <==> p.over_size(total) || p.too_old(now, last_used),
{
}

/// Whether an image is to go by the limits of a policy.
pub open spec fn goes(p: GcPolicy, total: u64, now: u64, e: EntryView) -> bool {
    ||| p.max_bytes is Some && total > p.max_bytes->0
    ||| p.keep_secs is Some && now - e.last_used > p.keep_secs->0
}

/// Whether a state goes on to the next image: the first from a position on that
/// is to go, or the end if there is none. Nothing else is different from `s`.
pub open spec fn goes_on(s: GcView, from: int, next: GcView) -> bool {
    &&& next == (GcView { phase: next.phase, ..s })
    &&& match next.phase {
        GcPhase::Checking { at } => {
            &&& from <= at < s.entries.len()
            &&& goes(s.policy, s.total, s.now, s.entries[at as int])
            &&& forall|i: int|
                from <= i < at ==> !goes(s.policy, s.total, s.now, #[trigger] s.entries[i])
        },
        GcPhase::Finished => forall|i: int|
            from <= i < s.entries.len() ==> !goes(
                s.policy,
                s.total,
                s.now,
                #[trigger] s.entries[i],
            ),
        _ => false,
    }
}

proof fn lemma_goes_on(s: GcView, from: int)
    requires
        0 <= from <= s.entries.len() <= usize::MAX,
    ensures
        goes_on(s, from, s.go_on(from)),
{
    gc::lemma_next_unwanted(s.policy, s.entries, s.total, s.now, from);
    let at = gc::next_unwanted(s.policy, s.entries, s.total, s.now, from);
    assert forall|i: int| from <= i < at implies !goes(
        s.policy,
        s.total,
        s.now,
        #[trigger] s.entries[i],
    ) by {
        assert(!s.policy.unwanted(s.total, s.now, s.entries[i].last_used));
    }
}

/// Whether a state has the image at a position behind it as one that is gone, or
/// would be: what it occupied is taken off the total, saturating, and added to
/// what was freed, and its key is reported.
pub open spec fn counts_as_gone(s: GcView, at: int, claimed: u64, t: GcView) -> bool {
    &&& t.total == (if s.total > claimed {
        s.total - claimed
    } else {
        0
    })
    &&& t.report.freed_bytes == (s.report.freed_bytes + claimed) % 0x1_0000_0000_0000_0000
    &&& t.report.removed == s.report.removed.push(s.entries[at].key)
    &&& t.report.kept_busy == s.report.kept_busy
    &&& t.report.kept_linked == s.report.kept_linked
    &&& t.report.total_before == s.report.total_before
    &&& t.report.dry_run == s.report.dry_run
    &&& t.report.stopped_early == s.report.stopped_early
    &&& t.entries == s.entries
    &&& t.root == s.root
    &&& t.policy == s.policy
    &&& t.now == s.now
}

/// An eviction lists the records, the least recently used first, and measures
/// what every image occupies; what a record says counts only where that cannot be
/// measured. Then it asks for the time, and decides upon each image that is to
/// go: one with more than one name is counted as linked; any other is measured
/// again, and in earnest it is removed, and its record after it, while a dry run
/// only reports it. An image that cannot be removed is reported as busy, and its
/// record is left alone; one that is gone already counts as removed. Under a
/// limit on the size the free space is asked for after each removal; where it has
/// grown by less than a quarter of what the image occupied since the last time,
/// the eviction ends with it and says why.
#[verifier::spinoff_prover]
#[verifier::rlimit(60)]
pub proof fn lemma_an_eviction_goes_on(s: GcView, reply: ReplyView)
    requires
        s.entries.len() <= usize::MAX,
        reply is Entries ==> reply->Entries_0.len() <= usize::MAX,
    ensures
        ({
            let next = Gc::after(s, reply);
            match (s.phase, reply) {
                (GcPhase::Listing, ReplyView::Entries(found)) => {
                    &&& next == (GcView { entries: next.entries, phase: next.phase, ..s })
                    &&& next.entries.to_multiset() == list::readable(found).to_multiset()
                    &&& forall|i: int, j: int|
                        0 <= i < j < next.entries.len() ==> (#[trigger] next.entries[i]).last_used
                            <= (#[trigger] next.entries[j]).last_used
                    &&& next.phase == if next.entries.len() > 0 {
                        GcPhase::Measuring { at: 0 }
                    } else {
                        GcPhase::Dating
                    }
                },
                (GcPhase::Listing, ReplyView::Failed(e)) => next.outcome() == Some(
                    Err::<gc::GcReportView, ErrorView>(ErrorView::Io(e)),
                ),
                (GcPhase::Measuring { at }, ReplyView::Stat(_) | ReplyView::Failed(_)) => at
                    < s.entries.len() ==> {
                    &&& next == (GcView { total: next.total, phase: next.phase, ..s })
                    &&& next.total == (s.total + (match reply {
                        ReplyView::Stat(st) => st.allocated,
                        _ => s.entries[at as int].actual_bytes,
                    })) % 0x1_0000_0000_0000_0000
                    &&& next.phase == if at + 1 < s.entries.len() {
                        GcPhase::Measuring { at: (at + 1) as usize }
                    } else {
                        GcPhase::Dating
                    }
                },
                (GcPhase::Dating, ReplyView::Time(now)) => exists|t: GcView|
                    {
                        &&& #[trigger] goes_on(t, 0, next)
                        &&& t.now == now
                        &&& t.total == s.total && t.entries == s.entries && t.root == s.root
                        &&& t.policy == s.policy && t.last_free == s.last_free
                        &&& t.report.total_before == s.total
                        &&& t.report.dry_run == s.policy.dry_run
                        &&& t.report.removed.len() == 0 && t.report.kept_busy.len() == 0
                        &&& t.report.kept_linked == 0 && t.report.freed_bytes == 0
                        &&& t.report.stopped_early is None
                    },
                (GcPhase::Checking { at }, ReplyView::Stat(st)) => at < s.entries.len() ==> (
                if st.links > 1 {
                    exists|t: GcView|
                        {
                            &&& #[trigger] goes_on(t, at + 1, next)
                            &&& t == (GcView { report: t.report, ..s })
                            &&& t.report == (gc::GcReportView {
                                kept_linked: t.report.kept_linked,
                                ..s.report
                            })
                            &&& t.report.kept_linked == s.report.kept_linked.wrapping_add(1)
                        }
                } else {
                    next == (GcView { phase: GcPhase::Sizing { at }, ..s })
                }),
                (GcPhase::Checking { at }, ReplyView::Failed(_)) => at < s.entries.len() ==> next
                    == (GcView { phase: GcPhase::Sizing { at }, ..s }),
                (GcPhase::Sizing { at }, ReplyView::Stat(_) | ReplyView::Failed(_)) => at
                    < s.entries.len() ==> {
                    let claimed = match reply {
                        ReplyView::Stat(st) => st.allocated,
                        _ => s.entries[at as int].actual_bytes,
                    };
                    if s.policy.dry_run {
                        exists|t: GcView| #[trigger]
                            goes_on(t, at + 1, next) && counts_as_gone(s, at as int, claimed, t)
                                && t.last_free == s.last_free
                    } else {
                        next == (GcView { phase: GcPhase::Removing { at, claimed }, ..s })
                    }
                },
                (GcPhase::Removing { at, claimed }, ReplyView::Done) => at < s.entries.len()
                    ==> next == (GcView { phase: GcPhase::Forgetting { at, claimed }, ..s }),
                (GcPhase::Removing { at, claimed }, ReplyView::Failed(e)) => at < s.entries.len()
                    ==> (if e.kind == IoKind::NotFound {
                    next == (GcView { phase: GcPhase::Forgetting { at, claimed }, ..s })
                } else {
                    exists|t: GcView|
                        {
                            &&& #[trigger] goes_on(t, at + 1, next)
                            &&& t == (GcView { report: t.report, ..s })
                            &&& t.report == (gc::GcReportView {
                                kept_busy: s.report.kept_busy.push(s.entries[at as int].key),
                                ..s.report
                            })
                        }
                }),
                (
                    GcPhase::Forgetting { at, claimed },
                    ReplyView::Done | ReplyView::Failed(_),
                ) => at < s.entries.len() ==> (if s.policy.max_bytes is Some && claimed > 0 {
                    next == (GcView { phase: GcPhase::Weighing { at, claimed }, ..s })
                } else {
                    exists|t: GcView| #[trigger]
                        goes_on(t, at + 1, next) && counts_as_gone(s, at as int, claimed, t)
                            && t.last_free == s.last_free
                }),
                (GcPhase::Weighing { at, claimed }, ReplyView::Space(free)) => at < s.entries.len()
                    ==> {
                    let grown = match (free, s.last_free) {
                        (Some(f), Some(before)) => Some(f.saturating_sub(before).wrapping_mul(4)),
                        _ => None,
                    };
                    if grown is Some && grown->0 < claimed {
                        &&& next.outcome() matches Some(Ok(report)) && {
                            &&& report.stopped_early
                                == Some("measured free space barely moved -- these blobs appear to share blocks with something else; stopping rather than evicting the whole store"@)
                            &&& report.removed == s.report.removed.push(s.entries[at as int].key)
                            &&& report.freed_bytes == (s.report.freed_bytes + claimed)
                                % 0x1_0000_0000_0000_0000
                            &&& report.kept_busy == s.report.kept_busy
                            &&& report.kept_linked == s.report.kept_linked
                            &&& report.total_before == s.report.total_before
                        }
                        &&& Gc::wants(next) is None
                    } else {
                        exists|t: GcView|
                            {
                                &&& #[trigger] goes_on(t, at + 1, next)
                                &&& counts_as_gone(s, at as int, claimed, t)
                                &&& t.last_free == if free is Some {
                                    free
                                } else {
                                    s.last_free
                                }
                            }
                    }
                },
                _ => next == s,
            }
        }),
{
    let next = Gc::after(s, reply);
    match (s.phase, reply) {
        (GcPhase::Listing, ReplyView::Entries(found)) => {
            let all = list::readable(found);
            let newest = list::sorted(Order::NewestFirst, all);
            list::lemma_sorted(Order::NewestFirst, all);
            list::lemma_sorted(Order::OldestFirst, newest);
        },
        (GcPhase::Dating, ReplyView::Time(now)) => {
            let t = GcView {
                now,
                report: gc::GcReportView::empty(s.total, s.policy.dry_run),
                ..s
            };
            lemma_goes_on(t, 0);
        },
        (GcPhase::Checking { at }, ReplyView::Stat(st)) => {
            if at < s.entries.len() && st.links > 1 {
                let t = GcView {
                    report: gc::GcReportView {
                        kept_linked: s.report.kept_linked.wrapping_add(1),
                        ..s.report
                    },
                    ..s
                };
                lemma_goes_on(t, at + 1);
            }
        },
        (GcPhase::Removing { at, .. }, ReplyView::Failed(e)) => {
            if at < s.entries.len() {
                let t = GcView {
                    report: gc::GcReportView {
                        kept_busy: s.report.kept_busy.push(s.entries[at as int].key),
                        ..s.report
                    },
                    ..s
                };
                lemma_goes_on(t, at + 1);
            }
        },
        (GcPhase::Sizing { at }, ReplyView::Stat(st)) => {
            if at < s.entries.len() {
                lemma_gone(s, s, at, st.allocated);
            }
        },
        (GcPhase::Sizing { at }, ReplyView::Failed(_)) => {
            if at < s.entries.len() {
                lemma_gone(s, s, at, s.entries[at as int].actual_bytes);
            }
        },
        (GcPhase::Forgetting { at, claimed }, _) => {
            if at < s.entries.len() {
                lemma_gone(s, s, at, claimed);
            }
        },
        (GcPhase::Weighing { at, claimed }, ReplyView::Space(free)) => {
            if at < s.entries.len() {
                let t = GcView {
                    last_free: if free is Some {
                        free
                    } else {
                        s.last_free
                    },
                    ..s
                };
                lemma_gone(s, t, at, claimed);
            }
        },
        _ => {},
    }
}

proof fn lemma_gone(s: GcView, u: GcView, at: usize, claimed: u64)
    requires
        at < s.entries.len() <= usize::MAX,
        u == (GcView { last_free: u.last_free, ..s }),
    ensures
        exists|t: GcView|
            {
                &&& #[trigger] goes_on(t, at + 1, u.evicted(at, claimed))
                &&& counts_as_gone(s, at as int, claimed, t)
                &&& t.last_free == u.last_free
            },
{
    let t = GcView {
        total: u.total.saturating_sub(claimed),
        report: u.report.with_removed(u.entries[at as int].key, claimed),
        ..u
    };
    lemma_goes_on(t, at + 1);
    assert(counts_as_gone(s, at as int, claimed, t));
    assert(u.evicted(at, claimed) == t.go_on(at + 1));
}

/// What an eviction asks for in each phase: the images and the records are those
/// of the key at the position.
pub proof fn lemma_what_an_eviction_asks_for(s: GcView)
    ensures
        match s.phase {
            GcPhase::Listing => Gc::wants(s) == Some(
                RequestView::ListEntries(path::joined(s.root, encode_utf8("meta"@))),
            ),
            GcPhase::Dating => Gc::wants(s) == Some(RequestView::Now),
            GcPhase::Measuring { at } | GcPhase::Checking { at } | GcPhase::Sizing { at } => at
                < s.entries.len() ==> Gc::wants(s) == Some(
                RequestView::Stat(store::blob_path(s.root, s.entries[at as int].key)),
            ),
            GcPhase::Removing { at, .. } => at < s.entries.len() ==> Gc::wants(s) == Some(
                RequestView::Remove(store::blob_path(s.root, s.entries[at as int].key)),
            ),
            GcPhase::Forgetting { at, .. } => at < s.entries.len() ==> Gc::wants(s) == Some(
                RequestView::Remove(store::meta_path(s.root, s.entries[at as int].key)),
            ),
            GcPhase::Weighing { at, .. } => at < s.entries.len() ==> Gc::wants(s) == Some(
                RequestView::FreeSpace(s.root),
            ),
            GcPhase::Finished => Gc::wants(s) is None && s.outcome() == Some(
                Ok::<gc::GcReportView, ErrorView>(s.report),
            ),
            GcPhase::Failed => Gc::wants(s) is None,
        },
{
}

/// An eviction starts from its store and its policy, and from nothing else.
pub proof fn lemma_an_eviction_starts_as_asked_for(root: Seq<u8>, policy: GcPolicy)
    ensures
        ({
            let s = GcView::start(root, policy);
            &&& s.root == root
            &&& s.policy.max_bytes == policy.max_bytes
            &&& s.policy.keep_secs == policy.keep_secs
            &&& s.policy.dry_run == policy.dry_run
            &&& s.total == 0
            &&& s.last_free is None
            &&& s.phase == GcPhase::Listing
            &&& s.failure is None
        }),
{
}

/// Every name of a store is in one of its directories, whatever its root is: that
/// of the images, of the records, of what is being prepared, or of the locks.
pub proof fn lemma_names_are_in_their_directories(root: Seq<u8>, key: Seq<char>)
    ensures
        store::blob_path(root, key) == path::joined(
            path::joined(root, encode_utf8("blobs"@)),
            encode_utf8(key + ".ext4"@),
        ),
        store::meta_path(root, key) == path::joined(
            path::joined(root, encode_utf8("meta"@)),
            encode_utf8(key + ".json"@),
        ),
        store::meta_staging_path(root, key) == path::joined(
            path::joined(root, encode_utf8("tmp"@)),
            encode_utf8(key + ".json"@),
        ),
        store::build_path(root, key) == path::joined(
            path::joined(root, encode_utf8("tmp"@)),
            encode_utf8(key + ".building"@),
        ),
        store::copy_path(root, key) == path::joined(
            path::joined(root, encode_utf8("tmp"@)),
            encode_utf8(key + ".part"@),
        ),
        store::lock_path(store::locks_path(root), key) == path::joined(
            path::joined(root, encode_utf8("locks"@)),
            encode_utf8(key + ".lock"@),
        ),
        install::part_path(root) == root + encode_utf8(".part"@),
{
}

} // verus!
