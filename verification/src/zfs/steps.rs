//! What the operations on ZFS ask for, one step after the other, and what the
//! answers lead to.

use super::gc::{ZfsGc, ZfsGcPhase, ZfsGcView};
use super::procedures::{
    ZfsGet, ZfsGetView, ZfsInstall, ZfsInstallView, ZfsList, ZfsListView, ZfsMaterialize,
    ZfsMaterializeView, ZfsPut, ZfsPutView, ZfsRelease, ZfsReleaseView,
};
use crate::error::{ErrorView, IoErrorView, IoKind};
use crate::host::{FileStat, ReplyView, RequestView};
use crate::key;
use crate::number;
use crate::path;
use crate::procedure::Procedure;
use crate::store::gc::GcReportView;
use crate::store::list::{self, Order};
use crate::store::{self, EntryView, InstallKind, Materialization};
use crate::text;
use crate::zfs::{self, ZfsView};
use vstd::prelude::*;
use vstd::utf8::*;

verus! {

// ---------------------------------------------------------------------------
// Names and words
// ---------------------------------------------------------------------------
/// The datasets and the snapshot of a key and of a destination, and the files in
/// them.
pub proof fn lemma_names_on_zfs(
    dataset: Seq<char>,
    mountpoint: Seq<u8>,
    key: Seq<char>,
    dest: Seq<u8>,
)
    requires
        mountpoint.len() > 0,
        mountpoint.last() != 47,
        encode_utf8(key).len() > 0,
        encode_utf8(key)[0] != 47,
        encode_utf8(key).last() != 47,
    ensures
        zfs::blob_dataset(dataset, key) == dataset + "/blobs/"@ + key,
        zfs::ready_snapshot(dataset, key) == dataset + "/blobs/"@ + key + "@ready"@,
        zfs::clone_dataset(dataset, key) == dataset + "/clones/"@ + key,
        zfs::token_of(dest) == number::hex(key::sha256_of(dest)).take(32),
        zfs::blob_file(mountpoint, key) == mountpoint + encode_utf8("/blobs/"@) + encode_utf8(key)
            + encode_utf8("/image.ext4"@),
        zfs::clone_file(mountpoint, key) == mountpoint + encode_utf8("/clones/"@) + encode_utf8(key)
            + encode_utf8("/image.ext4"@),
{
    reveal_strlit("blobs");
    reveal_strlit("clones");
    reveal_strlit("/blobs/");
    reveal_strlit("/clones/");
    reveal_strlit("image.ext4");
    reveal_strlit("/image.ext4");
    is_ascii_chars_encode_utf8("blobs"@);
    is_ascii_chars_encode_utf8("clones"@);
    is_ascii_chars_encode_utf8("/blobs/"@);
    is_ascii_chars_encode_utf8("/clones/"@);
    is_ascii_chars_encode_utf8("image.ext4"@);
    is_ascii_chars_encode_utf8("/image.ext4"@);
    let k = encode_utf8(key);
    let image = encode_utf8("image.ext4"@);
    let b1 = path::joined(mountpoint, encode_utf8("blobs"@));
    let b2 = path::joined(b1, k);
    assert(b1 =~= mountpoint + seq![47u8] + encode_utf8("blobs"@));
    assert(b1.last() == 115);
    assert(b2 =~= b1 + seq![47u8] + k);
    assert(b2.last() == k.last());
    assert(zfs::blob_file(mountpoint, key) =~= mountpoint + encode_utf8("/blobs/"@) + k
        + encode_utf8("/image.ext4"@));
    let c1 = path::joined(mountpoint, encode_utf8("clones"@));
    let c2 = path::joined(c1, k);
    assert(c1 =~= mountpoint + seq![47u8] + encode_utf8("clones"@));
    assert(c1.last() == 115);
    assert(c2 =~= c1 + seq![47u8] + k);
    assert(c2.last() == k.last());
    assert(zfs::clone_file(mountpoint, key) =~= mountpoint + encode_utf8("/clones/"@) + k
        + encode_utf8("/image.ext4"@));
}

/// Only a failure of a tool says that something is pinned or gone: the one in
/// three ways, whatever the case, and the other in one.
pub proof fn lemma_what_failures_mean(e: ErrorView)
    ensures
        zfs::means_busy(e) <==> (e matches ErrorView::ToolFailed { stderr, .. } && {
            ||| text::contains(text::lower(stderr), "dataset is busy"@)
            ||| text::contains(text::lower(stderr), "has dependent clones"@)
            ||| text::contains(text::lower(stderr), "filesystem has children"@)
        }),
        zfs::means_gone(e) <==> (e matches ErrorView::ToolFailed { stderr, .. } && text::contains(
            stderr,
            "does not exist"@,
        )),
{
}

/// A line of the listing tells of a clone if there is a second field behind a tab
/// that is neither blank nor a dash: the first field, without the white space
/// around it, is its name, and the second one is where it came from.
pub proof fn lemma_lines_tell_of_clones(name: Seq<char>, origin: Seq<char>, rest: Seq<char>)
    requires
        !name.contains('\t'),
        !origin.contains('\t'),
    ensures
        zfs::clone_line(name) is None,
        ({
            let told = if text::trim(origin) == "-"@ || text::trim(origin).len() == 0 {
                None
            } else {
                Some((text::trim(name), text::trim(origin)))
            };
            &&& zfs::clone_line(name + seq!['\t'] + origin) == told
            &&& zfs::clone_line(name + seq!['\t'] + origin + seq!['\t'] + rest) == told
        }),
{
    text::lemma_before(name, '\t', origin);
    text::lemma_before(origin, '\t', rest);
    assert forall|j: int| 0 <= j < name.len() implies name[j] != '\t' by {
        assert(name.contains(name[j]));
    }
    text::lemma_find_is(name, '\t', name.len() as int);
    let n = name.len() as int;
    let two = name + seq!['\t'] + origin;
    text::lemma_find_is(two, '\t', n);
    assert(two.skip(n + 1) =~= origin);
    assert(two.take(n) =~= name);
    let more = origin + seq!['\t'] + rest;
    let three = two + seq!['\t'] + rest;
    assert(three =~= name + seq!['\t'] + more);
    text::lemma_before(name, '\t', more);
    text::lemma_find_is(three, '\t', n);
    assert(three.skip(n + 1) =~= more);
}

/// An image is pinned exactly if a line of the listing tells of a clone that came
/// from one of its snapshots.
pub proof fn lemma_images_with_clones_are_pinned(listing: Seq<char>, image: Seq<char>)
    ensures
        zfs::pinned_images(listing).contains(image) <==> exists|i: int|
            0 <= i < text::lines(listing).len() && {
                let told = zfs::clone_line(#[trigger] text::lines(listing)[i]);
                told is Some && text::before((told->0).1, '@') == image
            },
{
    let lines = text::lines(listing);
    let clones = zfs::clones_in(lines);
    let all = zfs::pinned_images(listing);
    if all.contains(image) {
        let j = choose|j: int| 0 <= j < all.len() && all[j] == image;
        assert(clones.contains(clones[j]));
        lemma_clones_are_told_of(lines, clones[j]);
        let i = choose|i: int|
            0 <= i < lines.len() && zfs::clone_line(#[trigger] lines[i]) == Some(clones[j]);
        assert(zfs::clone_line(lines[i]) == Some(clones[j]));
    }
    if exists|i: int|
        0 <= i < lines.len() && {
            let told = zfs::clone_line(#[trigger] lines[i]);
            told is Some && text::before((told->0).1, '@') == image
        } {
        let i = choose|i: int|
            0 <= i < lines.len() && {
                let told = zfs::clone_line(#[trigger] lines[i]);
                told is Some && text::before((told->0).1, '@') == image
            };
        let c = zfs::clone_line(lines[i])->0;
        lemma_clones_are_told_of(lines, c);
        let j = choose|j: int| 0 <= j < clones.len() && clones[j] == c;
        assert(all[j] == image);
    }
}

proof fn lemma_clones_are_told_of(lines: Seq<Seq<char>>, c: (Seq<char>, Seq<char>))
    ensures
        zfs::clones_in(lines).contains(c) <==> exists|i: int|
            0 <= i < lines.len() && zfs::clone_line(#[trigger] lines[i]) == Some(c),
    decreases lines.len(),
{
    if lines.len() > 0 {
        let front = lines.drop_last();
        let less = zfs::clones_in(front);
        let all = zfs::clones_in(lines);
        lemma_clones_are_told_of(front, c);
        if all.contains(c) {
            let j = choose|j: int| 0 <= j < all.len() && all[j] == c;
            if j < less.len() {
                assert(less[j] == c);
                let i = choose|i: int|
                    0 <= i < front.len() && zfs::clone_line(#[trigger] front[i]) == Some(c);
                assert(zfs::clone_line(lines[i]) == Some(c));
            } else {
                assert(zfs::clone_line(lines[lines.len() - 1]) == Some(c));
            }
        }
        if exists|i: int| 0 <= i < lines.len() && zfs::clone_line(#[trigger] lines[i]) == Some(c) {
            let i = choose|i: int|
                0 <= i < lines.len() && zfs::clone_line(#[trigger] lines[i]) == Some(c);
            if i < front.len() {
                assert(zfs::clone_line(front[i]) == Some(c));
                let j = choose|j: int| 0 <= j < less.len() && less[j] == c;
                assert(all[j] == c);
            } else {
                assert(all[all.len() - 1] == c);
            }
        }
    }
}

// ---------------------------------------------------------------------------
// put and get
// ---------------------------------------------------------------------------
/// Putting an image is creating its dataset, renaming its source there, or
/// copying it and removing it where that cannot be done, flushing it, taking the
/// snapshot, protecting the dataset, and writing the record, with the key, the
/// layers, the sizes that were measured and the time that was told.
pub proof fn lemma_putting_an_image(
    backend: ZfsView,
    key: Seq<char>,
    source: Seq<u8>,
    diff_ids: Seq<Seq<char>>,
    created: Seq<char>,
    e: IoErrorView,
    count: u64,
    dropped: ReplyView,
    flushed: ReplyView,
    said: Seq<char>,
    stat: FileStat,
    now: u64,
)
    requires
        dropped is Done || dropped is Failed,
        flushed is Done || flushed is Failed,
    ensures
        ({
            let ds = backend.dataset + "/blobs/"@ + key;
            let blob = zfs::blob_file(backend.mountpoint, key);
            let meta = store::meta_path(backend.mountpoint, key);
            let s0 = ZfsPutView::start(backend, key, source, diff_ids);
            let s1 = ZfsPut::after(s0, ReplyView::Zfs(Ok(created)));
            let s2 = ZfsPut::after(s1, ReplyView::Done);
            let c1 = ZfsPut::after(s1, ReplyView::Failed(e));
            let c2 = ZfsPut::after(c1, ReplyView::Count(count));
            let s3 = ZfsPut::after(s2, flushed);
            let s4 = ZfsPut::after(s3, ReplyView::Zfs(Ok(said)));
            let s5 = ZfsPut::after(s4, ReplyView::Zfs(Ok(said)));
            let s6 = ZfsPut::after(s5, ReplyView::Stat(stat));
            let s7 = ZfsPut::after(s6, ReplyView::Time(now));
            let s8 = ZfsPut::after(s7, ReplyView::Done);
            let s9 = ZfsPut::after(s8, ReplyView::Done);
            &&& ZfsPut::wants(s0) == Some(RequestView::Zfs(seq!["create"@, "-p"@, ds]))
            &&& ZfsPut::wants(s1) == Some(RequestView::Rename { from: source, to: blob })
            &&& ZfsPut::wants(c1) == Some(RequestView::PlainCopy { from: source, to: blob })
            &&& ZfsPut::wants(c2) == Some(RequestView::Remove(source))
            &&& ZfsPut::after(c2, dropped) == s2
            &&& ZfsPut::wants(s2) == Some(RequestView::Sync(blob))
            &&& ZfsPut::wants(s3) == Some(RequestView::Zfs(seq!["snapshot"@, ds + "@ready"@]))
            &&& ZfsPut::wants(s4) == Some(RequestView::Zfs(seq!["set"@, "readonly=on"@, ds]))
            &&& ZfsPut::wants(s5) == Some(RequestView::Stat(blob))
            &&& ZfsPut::wants(s6) == Some(RequestView::Now)
            &&& ZfsPut::wants(s7) == Some(RequestView::MakeParent(meta))
            &&& ZfsPut::wants(s8) matches Some(RequestView::WriteEntry { path, entry }) && {
                &&& path == meta
                &&& entry.key == key
                &&& entry.diff_ids == diff_ids
                &&& entry.size_bytes == stat.len
                &&& entry.actual_bytes == stat.allocated
                &&& entry.created == now
                &&& entry.last_used == now
            }
            &&& s9.outcome() == Some(Ok::<Seq<u8>, ErrorView>(blob))
            &&& ZfsPut::wants(s9) is None
        }),
{
}

/// A put ends with the failure that it meets with, except that renaming is made
/// up for, and that flushing and removing the source need not succeed.
pub proof fn lemma_failures_end_a_put(s: ZfsPutView, e: IoErrorView, said: ErrorView)
    requires
        ZfsPut::wants(s) is Some,
    ensures
        match ZfsPut::wants(s)->0 {
            RequestView::Zfs(_) => ZfsPut::after(s, ReplyView::Zfs(Err(said))).outcome() == Some(
                Err::<Seq<u8>, ErrorView>(said),
            ),
            RequestView::Now | RequestView::Rename { .. } | RequestView::Remove(_)
            | RequestView::Sync(_) => ZfsPut::wants(
                ZfsPut::after(s, ReplyView::Failed(e)),
            ) is Some,
            _ => ZfsPut::after(s, ReplyView::Failed(e)).outcome() == Some(
                Err::<Seq<u8>, ErrorView>(ErrorView::Io(e)),
            ),
        },
{
}

/// A get finds the image of the key exactly if it is there. Then its record is
/// read, and written again with nothing changed but the date of use, which is the
/// time that was told; whatever goes wrong with the record does not matter.
pub proof fn lemma_getting_an_image(
    backend: ZfsView,
    key: Seq<char>,
    record: EntryView,
    now: u64,
    e: IoErrorView,
)
    ensures
        ({
            let blob = zfs::blob_file(backend.mountpoint, key);
            let staging = store::meta_staging_path(backend.mountpoint, record.key);
            let s0 = ZfsGetView::start(backend, key);
            let s1 = ZfsGet::after(s0, ReplyView::Flag(true));
            let s2 = ZfsGet::after(s1, ReplyView::Entry(record));
            let s3 = ZfsGet::after(s2, ReplyView::Time(now));
            let s4 = ZfsGet::after(s3, ReplyView::Done);
            let s5 = ZfsGet::after(s4, ReplyView::Done);
            let failed = ReplyView::Failed(e);
            let found = Some(Some(blob));
            &&& ZfsGet::wants(s0) == Some(RequestView::Exists(blob))
            &&& ZfsGet::after(s0, ReplyView::Flag(false)).outcome() == Some(None::<Seq<u8>>)
            &&& ZfsGet::wants(s1) == Some(
                RequestView::ReadEntry(store::meta_path(backend.mountpoint, key)),
            )
            &&& ZfsGet::after(s1, failed).outcome() == found
            &&& ZfsGet::wants(s2) == Some(RequestView::Now)
            &&& ZfsGet::wants(s3) == Some(RequestView::MakeParent(staging))
            &&& ZfsGet::after(s3, failed).outcome() == found
            &&& ZfsGet::wants(s4) matches Some(RequestView::WriteEntry { path, entry }) && {
                &&& path == staging
                &&& entry.key == record.key
                &&& entry.diff_ids == record.diff_ids
                &&& entry.size_bytes == record.size_bytes
                &&& entry.actual_bytes == record.actual_bytes
                &&& entry.created == record.created
                &&& entry.last_used == now
            }
            &&& ZfsGet::after(s4, failed).outcome() == found
            &&& ZfsGet::wants(s5) == Some(
                RequestView::Rename {
                    from: staging,
                    to: store::meta_path(backend.mountpoint, record.key),
                },
            )
            &&& ZfsGet::after(s5, failed).outcome() == found
            &&& ZfsGet::after(s5, ReplyView::Done).outcome() == found
        }),
{
}

// ---------------------------------------------------------------------------
// install, materialize and release
// ---------------------------------------------------------------------------
/// An install replaces the destination by a link to the image, or by a copy where
/// it cannot be linked; without an image it fails.
pub proof fn lemma_installing_an_image(
    backend: ZfsView,
    key: Seq<char>,
    dest: Seq<u8>,
    cleared: ReplyView,
    e: IoErrorView,
    count: u64,
    other: IoErrorView,
)
    requires
        cleared is Done || cleared is Failed,
    ensures
        ({
            let blob = zfs::blob_file(backend.mountpoint, key);
            let failed = |s: ZfsInstallView, e: IoErrorView|
                s.outcome() == Some(Err::<InstallKind, ErrorView>(ErrorView::Io(e)));
            let s0 = ZfsInstallView::start(backend, key, dest);
            let none = ZfsInstall::after(s0, ReplyView::Flag(false));
            let s1 = ZfsInstall::after(s0, ReplyView::Flag(true));
            let s2 = ZfsInstall::after(s1, ReplyView::Done);
            let s3 = ZfsInstall::after(s2, cleared);
            let s4 = ZfsInstall::after(s3, ReplyView::Failed(e));
            &&& ZfsInstall::wants(s0) == Some(RequestView::Exists(blob))
            &&& none.outcome() matches Some(Err(ErrorView::Io(io))) && io.kind == IoKind::NotFound
                && io.message == "no stored image for key "@ + key
            &&& ZfsInstall::wants(s1) == Some(RequestView::MakeParent(dest))
            &&& failed(ZfsInstall::after(s1, ReplyView::Failed(e)), e)
            &&& ZfsInstall::wants(s2) == Some(RequestView::Remove(dest))
            &&& ZfsInstall::wants(s3) == Some(RequestView::HardLink { from: blob, to: dest })
            &&& ZfsInstall::after(s3, ReplyView::Done).outcome() == Some(
                Ok::<InstallKind, ErrorView>(InstallKind::Link),
            )
            &&& ZfsInstall::wants(s4) == Some(RequestView::PlainCopy { from: blob, to: dest })
            &&& ZfsInstall::after(s4, ReplyView::Count(count)).outcome() == Some(
                Ok::<InstallKind, ErrorView>(InstallKind::Copy),
            )
            &&& failed(ZfsInstall::after(s4, ReplyView::Failed(other)), other)
        }),
{
}

/// A private copy is a clone of the ready snapshot, made anew as a dataset that is
/// named after the destination and can be written. If the image is seen in it, it
/// is made writable and linked as the destination, which is cleared first. It
/// costs nothing. Without an image it fails.
pub proof fn lemma_materializing_an_image(
    backend: ZfsView,
    key: Seq<char>,
    dest: Seq<u8>,
    destroyed: Result<Seq<char>, ErrorView>,
    said: Seq<char>,
    cleared: ReplyView,
    e: ErrorView,
    io: IoErrorView,
)
    requires
        cleared is Done || cleared is Failed,
    ensures
        ({
            let token = number::hex(key::sha256_of(dest)).take(32);
            let ds = backend.dataset + "/clones/"@ + token;
            let file = zfs::clone_file(backend.mountpoint, token);
            let made = Some(
                Ok::<Materialization, ErrorView>(Materialization::Cloned { bytes_written: 0 }),
            );
            let failed = |s: ZfsMaterializeView|
                s.outcome() == Some(Err::<Materialization, ErrorView>(ErrorView::Io(io)));
            let s0 = ZfsMaterializeView::start(backend, key, dest);
            let none = ZfsMaterialize::after(s0, ReplyView::Flag(false));
            let s1 = ZfsMaterialize::after(s0, ReplyView::Flag(true));
            let s2 = ZfsMaterialize::after(s1, ReplyView::Zfs(destroyed));
            let s3 = ZfsMaterialize::after(s2, ReplyView::Zfs(Ok(said)));
            let s4 = ZfsMaterialize::after(s3, ReplyView::Flag(true));
            let s5 = ZfsMaterialize::after(s4, ReplyView::Done);
            let s6 = ZfsMaterialize::after(s5, cleared);
            let s7 = ZfsMaterialize::after(s6, ReplyView::Done);
            &&& ZfsMaterialize::wants(s0) == Some(
                RequestView::Exists(zfs::blob_file(backend.mountpoint, key)),
            )
            &&& none.outcome() matches Some(Err(ErrorView::Io(x))) && x.kind == IoKind::NotFound
                && x.message == "no stored image for key "@ + key
            &&& ZfsMaterialize::wants(s1) == Some(RequestView::Zfs(seq!["destroy"@, "-r"@, ds]))
            &&& ZfsMaterialize::wants(s2) == Some(
                RequestView::Zfs(
                    seq![
                        "clone"@,
                        "-o"@,
                        "readonly=off"@,
                        backend.dataset + "/blobs/"@ + key + "@ready"@,
                        ds,
                    ],
                ),
            )
            &&& ZfsMaterialize::after(s2, ReplyView::Zfs(Err(e))).outcome() == Some(
                Err::<Materialization, ErrorView>(e),
            )
            &&& ZfsMaterialize::wants(s3) == Some(RequestView::Exists(file))
            &&& ZfsMaterialize::after(s3, ReplyView::Flag(false)).outcome() == made
            &&& ZfsMaterialize::wants(s4) == Some(
                RequestView::SetMode { path: file, mode: 0o644 },
            )
            &&& failed(ZfsMaterialize::after(s4, ReplyView::Failed(io)))
            &&& ZfsMaterialize::wants(s5) == Some(RequestView::Remove(dest))
            &&& ZfsMaterialize::wants(s6) == Some(RequestView::MakeParent(dest))
            &&& failed(ZfsMaterialize::after(s6, ReplyView::Failed(io)))
            &&& ZfsMaterialize::wants(s7) == Some(RequestView::HardLink { from: file, to: dest })
            &&& failed(ZfsMaterialize::after(s7, ReplyView::Failed(io)))
            &&& ZfsMaterialize::after(s7, ReplyView::Done).outcome() == made
        }),
{
}

/// A release removes the destination, whether or not it is there, and destroys
/// the clone that is named after it; that this is gone already is no failure, and
/// every other failure is told.
pub proof fn lemma_releasing_a_copy(
    backend: ZfsView,
    dest: Seq<u8>,
    removed: ReplyView,
    said: Seq<char>,
    e: ErrorView,
)
    requires
        removed is Done || removed is Failed,
    ensures
        ({
            let token = number::hex(key::sha256_of(dest)).take(32);
            let s0 = ZfsReleaseView::start(backend, dest);
            let s1 = ZfsRelease::after(s0, removed);
            let gone = e matches ErrorView::ToolFailed { stderr, .. } && text::contains(
                stderr,
                "does not exist"@,
            );
            &&& ZfsRelease::wants(s0) == Some(RequestView::Remove(dest))
            &&& ZfsRelease::wants(s1) == Some(
                RequestView::Zfs(
                    seq!["destroy"@, "-r"@, backend.dataset + "/clones/"@ + token],
                ),
            )
            &&& ZfsRelease::after(s1, ReplyView::Zfs(Ok(said))).outcome() == Some(
                Ok::<(), ErrorView>(()),
            )
            &&& ZfsRelease::after(s1, ReplyView::Zfs(Err(e))).outcome() == Some(
                if gone {
                    Ok(())
                } else {
                    Err(e)
                },
            )
        }),
{
}

/// A list has every record that can be read, once, the most recently used first;
/// without a directory of records there are none.
pub proof fn lemma_listing_the_storage(
    backend: ZfsView,
    found: Seq<Option<EntryView>>,
    e: IoErrorView,
)
    ensures
        ({
            let s0 = ZfsListView { backend, found: None };
            &&& ZfsList::wants(s0) == Some(
                RequestView::ListEntries(path::joined(backend.mountpoint, encode_utf8("meta"@))),
            )
            &&& ZfsList::after(s0, ReplyView::Entries(found)).found matches Some(v) && {
                &&& v.to_multiset() == list::readable(found).to_multiset()
                &&& forall|i: int, j: int|
                    0 <= i < j < v.len() ==> (#[trigger] v[i]).last_used >= (
                    #[trigger] v[j]).last_used
            }
            &&& ZfsList::after(s0, ReplyView::Failed(e)).found == Some(Seq::<EntryView>::empty())
        }),
{
    list::lemma_sorted(Order::NewestFirst, list::readable(found));
}

// ---------------------------------------------------------------------------
// gc
// ---------------------------------------------------------------------------
/// Whether a state has one more image behind it as one that is kept.
pub open spec fn counts_as_kept(s: ZfsGcView, at: int, t: ZfsGcView) -> bool {
    &&& t == (ZfsGcView { report: t.report, ..s })
    &&& t.report == (GcReportView {
        kept_busy: s.report.kept_busy.push(s.entries[at].key),
        ..s.report
    })
}

/// Whether a state has one more image behind it as one that is gone, or would be:
/// what its record says that it occupied is taken off the total, saturating, and
/// added to what was freed.
pub open spec fn counts_as_gone(s: ZfsGcView, at: int, t: ZfsGcView) -> bool {
    let claimed = s.entries[at].actual_bytes;
    &&& t == (ZfsGcView { total: t.total, report: t.report, ..s })
    &&& t.total == (if s.total > claimed {
        s.total - claimed
    } else {
        0
    })
    &&& t.report == (GcReportView {
        removed: s.report.removed.push(s.entries[at].key),
        freed_bytes: t.report.freed_bytes,
        ..s.report
    })
    &&& t.report.freed_bytes == (s.report.freed_bytes + claimed) % 0x1_0000_0000_0000_0000
}

/// Each image is decided upon in turn: one that is not to go is passed over; one
/// whose dataset is pinned is kept; in a dry run any other counts as gone, and in
/// earnest its dataset is destroyed. Behind the last one it is over.
pub proof fn lemma_each_image_is_decided_upon(s: ZfsGcView, at: int)
    requires
        0 <= at <= s.entries.len() <= usize::MAX,
    ensures
        ({
            let next = s.go_on(at);
            if at == s.entries.len() {
                next == (ZfsGcView { phase: ZfsGcPhase::Finished, ..s })
            } else if !store::steps::goes(s.policy, s.total, s.now, s.entries[at]) {
                next == s.go_on(at + 1)
            } else if s.pinned.contains(s.backend.dataset + "/blobs/"@ + s.entries[at].key) {
                exists|t: ZfsGcView| #[trigger] counts_as_kept(s, at, t) && next == t.go_on(at + 1)
            } else if s.policy.dry_run {
                exists|t: ZfsGcView| #[trigger] counts_as_gone(s, at, t) && next == t.go_on(at + 1)
            } else {
                next == (ZfsGcView { phase: ZfsGcPhase::Destroying { at: at as usize }, ..s })
            }
        }),
{
    if at < s.entries.len() {
        assert(counts_as_kept(s, at, s.kept(at)));
        assert(counts_as_gone(s, at, s.evicted(at)));
    }
}

/// An eviction lists the records, the least recently used first, asks which
/// images are pinned and for the time, and decides upon each image. A dataset that
/// was destroyed makes its record go next, whether or not that can be removed, and
/// counts as gone; one that is busy is kept; any other failure to destroy one, or
/// to ask which are pinned, ends the eviction with it. Without a directory of
/// records there are none.
pub proof fn lemma_an_eviction_goes_on(s: ZfsGcView, reply: ReplyView)
    requires
        s.entries.len() <= usize::MAX,
    ensures
        ({
            let next = ZfsGc::after(s, reply);
            match (s.phase, reply) {
                (ZfsGcPhase::Listing, ReplyView::Entries(found)) => {
                    &&& next == (ZfsGcView {
                        entries: next.entries,
                        phase: ZfsGcPhase::Graphing,
                        ..s
                    })
                    &&& next.entries.to_multiset() == list::readable(found).to_multiset()
                    &&& forall|i: int, j: int|
                        0 <= i < j < next.entries.len() ==> (#[trigger] next.entries[i]).last_used
                            <= (#[trigger] next.entries[j]).last_used
                },
                (ZfsGcPhase::Listing, ReplyView::Failed(_)) => next == (ZfsGcView {
                    entries: Seq::empty(),
                    phase: ZfsGcPhase::Graphing,
                    ..s
                }),
                (ZfsGcPhase::Graphing, ReplyView::Zfs(Ok(listing))) => next == (ZfsGcView {
                    pinned: zfs::pinned_images(listing),
                    phase: ZfsGcPhase::Dating,
                    ..s
                }),
                (ZfsGcPhase::Graphing, ReplyView::Zfs(Err(e))) => next.outcome() == Some(
                    Err::<GcReportView, ErrorView>(e),
                ),
                (ZfsGcPhase::Dating, ReplyView::Time(now)) => exists|t: ZfsGcView|
                    {
                        &&& next == #[trigger] t.go_on(0)
                        &&& t == (ZfsGcView { now, total: t.total, report: t.report, ..s })
                        &&& t.total == list::recorded_total(s.entries)
                        &&& t.report.total_before == t.total
                        &&& t.report.dry_run == s.policy.dry_run
                        &&& t.report.removed.len() == 0 && t.report.kept_busy.len() == 0
                        &&& t.report.kept_linked == 0 && t.report.freed_bytes == 0
                        &&& t.report.stopped_early is None
                    },
                (ZfsGcPhase::Destroying { at }, ReplyView::Zfs(Ok(_))) => at < s.entries.len()
                    ==> next == (ZfsGcView { phase: ZfsGcPhase::Forgetting { at }, ..s }),
                (ZfsGcPhase::Destroying { at }, ReplyView::Zfs(Err(e))) => at < s.entries.len()
                    ==> (if zfs::means_busy(e) {
                    exists|t: ZfsGcView| #[trigger]
                        counts_as_kept(s, at as int, t) && next == t.go_on(at + 1)
                } else {
                    next.outcome() == Some(Err::<GcReportView, ErrorView>(e))
                }),
                (ZfsGcPhase::Forgetting { at }, ReplyView::Done | ReplyView::Failed(_)) => at
                    < s.entries.len() ==> exists|t: ZfsGcView| #[trigger]
                    counts_as_gone(s, at as int, t) && next == t.go_on(at + 1),
                _ => next == s,
            }
        }),
{
    match s.phase {
        ZfsGcPhase::Listing => {
            if let ReplyView::Entries(found) = reply {
                let all = list::readable(found);
                list::lemma_sorted(Order::NewestFirst, all);
                list::lemma_sorted(Order::OldestFirst, list::sorted(Order::NewestFirst, all));
            }
        },
        ZfsGcPhase::Dating => {
            if let ReplyView::Time(now) = reply {
                assert(ZfsGc::after(s, reply) == s.dated(now).go_on(0));
            }
        },
        ZfsGcPhase::Destroying { at } => {
            assert(counts_as_kept(s, at as int, s.kept(at as int)));
        },
        ZfsGcPhase::Forgetting { at } => {
            assert(counts_as_gone(s, at as int, s.evicted(at as int)));
        },
        _ => {},
    }
}

/// What an eviction asks for in each phase.
pub proof fn lemma_what_an_eviction_asks_for(s: ZfsGcView)
    ensures
        match s.phase {
            ZfsGcPhase::Listing => ZfsGc::wants(s) == Some(
                RequestView::ListEntries(path::joined(s.backend.mountpoint, encode_utf8("meta"@))),
            ),
            ZfsGcPhase::Graphing => ZfsGc::wants(s) == Some(
                RequestView::Zfs(
                    seq!["list"@, "-H"@, "-r"@, "-o"@, "name,origin"@, s.backend.dataset],
                ),
            ),
            ZfsGcPhase::Dating => ZfsGc::wants(s) == Some(RequestView::Now),
            ZfsGcPhase::Destroying { at } => at < s.entries.len() ==> ZfsGc::wants(s) == Some(
                RequestView::Zfs(
                    seq![
                        "destroy"@,
                        "-r"@,
                        s.backend.dataset + "/blobs/"@ + s.entries[at as int].key,
                    ],
                ),
            ),
            ZfsGcPhase::Forgetting { at } => at < s.entries.len() ==> ZfsGc::wants(s) == Some(
                RequestView::Remove(
                    store::meta_path(s.backend.mountpoint, s.entries[at as int].key),
                ),
            ),
            ZfsGcPhase::Finished => ZfsGc::wants(s) is None && s.outcome() == Some(
                Ok::<GcReportView, ErrorView>(s.report),
            ),
            ZfsGcPhase::Failed => ZfsGc::wants(s) is None,
        },
{
}

/// An eviction starts from its storage and its policy, and from nothing else; and
/// the files of an image and of a copy are in their directories, whatever the
/// mountpoint is.
pub proof fn lemma_where_an_eviction_starts(
    backend: ZfsView,
    policy: crate::store::gc::GcPolicy,
    key: Seq<char>,
)
    ensures
        ({
            let s = ZfsGcView::start(backend, policy);
            &&& s.backend == backend
            &&& s.policy.max_bytes == policy.max_bytes
            &&& s.policy.keep_secs == policy.keep_secs
            &&& s.policy.dry_run == policy.dry_run
            &&& s.phase == ZfsGcPhase::Listing
            &&& s.failure is None
        }),
        zfs::blob_file(backend.mountpoint, key) == path::joined(
            path::joined(
                path::joined(backend.mountpoint, encode_utf8("blobs"@)),
                encode_utf8(key),
            ),
            encode_utf8("image.ext4"@),
        ),
        zfs::clone_file(backend.mountpoint, key) == path::joined(
            path::joined(
                path::joined(backend.mountpoint, encode_utf8("clones"@)),
                encode_utf8(key),
            ),
            encode_utf8("image.ext4"@),
        ),
{
}

} // verus!
