//! What putting, getting and installing images on ZFS do to the files, whatever
//! they meet with.

use super::procedures::{
    ZfsGet, ZfsGetPhase, ZfsGetView, ZfsInstall, ZfsInstallPhase, ZfsInstallView, ZfsPut,
    ZfsPutPhase, ZfsPutView,
};
use crate::disk::{Content, Disk};
use crate::error::ErrorView;
use crate::host::{FileStat, ReplyView};
use crate::procedure::{self, Procedure, Step};
use crate::store::{self, laws, EntryView, InstallKind};
use crate::zfs::{self, ZfsView};
use vstd::prelude::*;

verus! {

// ---------------------------------------------------------------------------
// put
// ---------------------------------------------------------------------------
/// Whether two names are different, and not names of one file.
pub open spec fn separate(disk: Disk, a: Seq<u8>, b: Seq<u8>) -> bool {
    a != b && !disk.is_alias(a, b)
}

/// Whether the image and the record of a key, and the name under which the
/// record is prepared, have nothing to do with each other.
pub open spec fn key_apart(disk: Disk, backend: ZfsView, key: Seq<char>) -> bool {
    let blob = zfs::blob_file(backend.mountpoint, key);
    let meta = store::meta_path(backend.mountpoint, key);
    let staging = store::meta_staging_path(backend.mountpoint, key);
    separate(disk, blob, meta) && separate(disk, blob, staging) && separate(disk, meta, staging)
}

/// Whether a source has nothing to do with the names of a key.
pub open spec fn source_apart(
    disk: Disk,
    backend: ZfsView,
    key: Seq<char>,
    source: Seq<u8>,
) -> bool {
    let blob = zfs::blob_file(backend.mountpoint, key);
    let meta = store::meta_path(backend.mountpoint, key);
    let staging = store::meta_staging_path(backend.mountpoint, key);
    separate(disk, source, blob) && separate(disk, source, meta) && separate(disk, source, staging)
}

spec fn put_keeps(disk: Disk, start: ZfsPutView, s: ZfsPutView, w: Disk) -> bool {
    let blob = s.blob();
    let content = disk.at(start.source).content;
    let stored = disk.holds(start.source) && w.holds(blob) && w.at(blob).content == content;
    let measured = |stat: FileStat| content matches Content::Bytes(b) ==> stat.len == b.len();
    &&& w.wf()
    &&& s.backend == start.backend
    &&& s.key == start.key
    &&& s.source == start.source
    &&& s.diff_ids == start.diff_ids
    &&& key_apart(w, s.backend, s.key)
    &&& match s.phase {
        ZfsPutPhase::Creating | ZfsPutPhase::Renaming | ZfsPutPhase::Copying => w == disk,
        ZfsPutPhase::DroppingSource
        | ZfsPutPhase::Flushing
        | ZfsPutPhase::Snapshotting
        | ZfsPutPhase::Protecting
        | ZfsPutPhase::Measuring => stored,
        ZfsPutPhase::Dating { stat } => stored && measured(stat),
        ZfsPutPhase::Preparing { stat, .. } => stored && measured(stat),
        ZfsPutPhase::Recording { stat, .. } => stored && measured(stat),
        ZfsPutPhase::Finished => stored && laws::recorded(
            w,
            s.meta(),
            s.key,
            s.diff_ids,
            content,
        ),
        ZfsPutPhase::Failed => true,
    }
}

#[verifier::spinoff_prover]
#[verifier::rlimit(80)]
proof fn lemma_put_step(disk: Disk, start: ZfsPutView, s: ZfsPutView, w: Disk, step: Step<Disk>)
    requires
        disk.wf(),
        source_apart(disk, start.backend, start.key, start.source),
        put_keeps(disk, start, s, w),
        procedure::can_step::<Disk, ZfsPut>(s, w, step),
    ensures
        put_keeps(disk, start, ZfsPut::after(s, step.reply), step.world),
{
    let next = ZfsPut::after(s, step.reply);
    let after = step.world;
    match s.phase {
        ZfsPutPhase::Renaming => assert(put_keeps(disk, start, next, after)),
        ZfsPutPhase::Copying => assert(put_keeps(disk, start, next, after)),
        ZfsPutPhase::DroppingSource => assert(put_keeps(disk, start, next, after)),
        ZfsPutPhase::Measuring => assert(put_keeps(disk, start, next, after)),
        ZfsPutPhase::Recording { .. } => assert(put_keeps(disk, start, next, after)),
        _ => assert(put_keeps(disk, start, next, after)),
    }
}

/// A put that succeeds leaves in the storage an image with the contents of its
/// source, and a record of it.
///
/// Names of one file are left out: renaming between two of them does nothing,
/// and what is written to one is written to the other.
pub proof fn lemma_put_stores(
    backend: ZfsView,
    key: Seq<char>,
    source: Seq<u8>,
    diff_ids: Seq<Seq<char>>,
    disk: Disk,
    steps: Seq<Step<Disk>>,
)
    requires
        disk.wf(),
        key_apart(disk, backend, key),
        source_apart(disk, backend, key, source),
        procedure::runs::<Disk, ZfsPut>(
            ZfsPutView::start(backend, key, source, diff_ids),
            disk,
            steps,
        ),
        procedure::state_after::<Disk, ZfsPut>(
            ZfsPutView::start(backend, key, source, diff_ids),
            steps,
        ).outcome() matches Some(Ok(_)),
    ensures
        ({
            let end = procedure::world_after(disk, steps);
            let blob = zfs::blob_file(backend.mountpoint, key);
            &&& procedure::state_after::<Disk, ZfsPut>(
                ZfsPutView::start(backend, key, source, diff_ids),
                steps,
            ).outcome() == Some(Ok::<Seq<u8>, ErrorView>(blob))
            &&& disk.holds(source)
            &&& end.wf()
            &&& end.holds(blob)
            &&& end.at(blob).content == disk.at(source).content
            &&& laws::recorded(
                end,
                store::meta_path(backend.mountpoint, key),
                key,
                diff_ids,
                disk.at(source).content,
            )
            &&& key_apart(end, backend, key)
        }),
{
    let start = ZfsPutView::start(backend, key, source, diff_ids);
    let inv = |s: ZfsPutView, w: Disk| put_keeps(disk, start, s, w);
    assert forall|s: ZfsPutView, w: Disk, step: Step<Disk>| #[trigger]
        procedure::can_step::<Disk, ZfsPut>(s, w, step) && inv(s, w) implies inv(
        ZfsPut::after(s, step.reply),
        step.world,
    ) by {
        lemma_put_step(disk, start, s, w, step);
    }
    procedure::lemma_invariant::<Disk, ZfsPut>(inv, start, disk, steps);
}

// ---------------------------------------------------------------------------
// get
// ---------------------------------------------------------------------------
spec fn get_traces(
    disk: Disk,
    start: ZfsGetView,
    old: EntryView,
    steps: Seq<Step<Disk>>,
    s: ZfsGetView,
    w: Disk,
) -> bool {
    let root = s.backend.mountpoint;
    let meta = store::meta_path(root, s.key);
    let staging = store::meta_staging_path(root, s.key);
    let failed = exists|i: int| 0 <= i < steps.len() && (#[trigger] steps[i]).reply is Failed;
    &&& s.backend == start.backend
    &&& s.key == start.key
    &&& w.wf()
    &&& s.record matches Some(e) ==> e == old
    &&& s.phase is Dating || s.phase is Preparing || s.phase is Recording || s.phase is Publishing
        ==> s.record is Some
    &&& s.phase != ZfsGetPhase::Found ==> laws::has_record(w, root, s.key, old)
    &&& s.phase is Looking ==> w == disk
    &&& s.phase is Absent ==> !disk.holds(zfs::blob_file(root, s.key))
    &&& !(s.phase is Looking || s.phase is Absent) ==> disk.holds(zfs::blob_file(root, s.key))
    &&& match s.phase {
        ZfsGetPhase::Preparing { now } => laws::clock_said::<ZfsGet>(start, steps, now),
        ZfsGetPhase::Recording { now } => laws::clock_said::<ZfsGet>(start, steps, now),
        ZfsGetPhase::Publishing => {
            &&& w.holds(staging)
            &&& w.at(staging).content matches Content::Record(e) && laws::clock_said::<ZfsGet>(
                start,
                steps,
                e.last_used,
            ) && e == (EntryView { last_used: e.last_used, ..old })
        },
        ZfsGetPhase::Found => {
            &&& w.holds(meta)
            &&& w.at(meta).content matches Content::Record(e) && e == (EntryView {
                last_used: e.last_used,
                ..old
            }) && (laws::clock_said::<ZfsGet>(start, steps, e.last_used) || e == old && failed)
        },
        _ => true,
    }
}

#[verifier::spinoff_prover]
#[verifier::rlimit(60)]
proof fn lemma_get_traces(start: ZfsGetView, old: EntryView, disk: Disk, steps: Seq<Step<Disk>>)
    requires
        start == ZfsGetView::start(start.backend, start.key),
        disk.wf(),
        laws::has_record(disk, start.backend.mountpoint, start.key, old),
        procedure::runs::<Disk, ZfsGet>(start, disk, steps),
    ensures
        get_traces(
            disk,
            start,
            old,
            steps,
            procedure::state_after::<Disk, ZfsGet>(start, steps),
            procedure::world_after(disk, steps),
        ),
    decreases steps.len(),
{
    if steps.len() > 0 {
        let before = steps.drop_last();
        let step = steps.last();
        lemma_get_traces(start, old, disk, before);
        let s = procedure::state_after::<Disk, ZfsGet>(start, before);
        let w = procedure::world_after(disk, before);
        let n = steps.len() - 1;
        assert(steps.take(n) =~= before);
        assert(steps[n] == step);
        let staging = store::meta_staging_path(s.backend.mountpoint, s.key);
        match s.phase {
            ZfsGetPhase::Dating => {
                if let ReplyView::Time(now) = step.reply {
                    assert(laws::told::<ZfsGet>(start, steps, n, now));
                    laws::lemma_clock_said::<ZfsGet>(start, steps, now);
                }
            },
            ZfsGetPhase::Preparing { now } => {
                laws::lemma_clock_said::<ZfsGet>(start, steps, now);
            },
            ZfsGetPhase::Recording { now } => {
                laws::lemma_clock_said::<ZfsGet>(start, steps, now);
            },
            ZfsGetPhase::Publishing => {
                if let Content::Record(e) = w.at(staging).content {
                    laws::lemma_clock_said::<ZfsGet>(start, steps, e.last_used);
                }
            },
            _ => {},
        }
    }
}

/// An image is found exactly if it is there, and a hit renews the date of last
/// use: the record is the one that was there, with the time that the clock said.
/// Where reading or writing it fails it may be the one that was there as it was,
/// but nothing else.
pub proof fn lemma_get_renews_the_record(
    backend: ZfsView,
    key: Seq<char>,
    old: EntryView,
    disk: Disk,
    steps: Seq<Step<Disk>>,
)
    requires
        disk.wf(),
        laws::has_record(disk, backend.mountpoint, key, old),
        procedure::runs::<Disk, ZfsGet>(ZfsGetView::start(backend, key), disk, steps),
    ensures
        ({
            let start = ZfsGetView::start(backend, key);
            let blob = zfs::blob_file(backend.mountpoint, key);
            let end = procedure::world_after(disk, steps);
            let meta = store::meta_path(backend.mountpoint, key);
            procedure::state_after::<Disk, ZfsGet>(start, steps).outcome() matches Some(found) ==> {
                &&& found == (if disk.holds(blob) {
                    Some(blob)
                } else {
                    None
                })
                &&& found is Some ==> {
                    &&& end.holds(meta)
                    &&& end.at(meta).content matches Content::Record(e) && {
                        &&& e == (EntryView { last_used: e.last_used, ..old })
                        &&& laws::clock_said::<ZfsGet>(start, steps, e.last_used) || e == old
                            && exists|i: int|
                            0 <= i < steps.len() && (#[trigger] steps[i]).reply is Failed
                    }
                }
            }
        }),
{
    lemma_get_traces(ZfsGetView::start(backend, key), old, disk, steps);
}

#[verifier::spinoff_prover]
#[verifier::rlimit(60)]
proof fn lemma_get_keeps_the_image(
    backend: ZfsView,
    key: Seq<char>,
    old: EntryView,
    disk: Disk,
    steps: Seq<Step<Disk>>,
)
    requires
        disk.wf(),
        key_apart(disk, backend, key),
        laws::has_record(disk, backend.mountpoint, key, old),
        procedure::runs::<Disk, ZfsGet>(ZfsGetView::start(backend, key), disk, steps),
    ensures
        ({
            let end = procedure::world_after(disk, steps);
            let blob = zfs::blob_file(backend.mountpoint, key);
            &&& key_apart(end, backend, key)
            &&& end.holds(blob) == disk.holds(blob)
            &&& disk.holds(blob) ==> end.names[blob] == disk.names[blob] && end.at(blob)
                == disk.at(blob)
        }),
    decreases steps.len(),
{
    let start = ZfsGetView::start(backend, key);
    if steps.len() > 0 {
        let before = steps.drop_last();
        lemma_get_keeps_the_image(backend, key, old, disk, before);
        lemma_get_traces(start, old, disk, before);
        let s = procedure::state_after::<Disk, ZfsGet>(start, before);
        match s.phase {
            ZfsGetPhase::Recording { .. } => {},
            ZfsGetPhase::Publishing => {},
            _ => {},
        }
    }
}

/// What was put is what is got: a get after a successful put gives the image of
/// the key, with the contents of the source, and leaves the record of the put
/// with a date that the clock said, or as it was where that could not be
/// written.
///
/// Names of one file are left out.
pub proof fn lemma_put_then_get(
    backend: ZfsView,
    key: Seq<char>,
    source: Seq<u8>,
    diff_ids: Seq<Seq<char>>,
    disk: Disk,
    put_steps: Seq<Step<Disk>>,
    get_steps: Seq<Step<Disk>>,
)
    requires
        disk.wf(),
        key_apart(disk, backend, key),
        source_apart(disk, backend, key, source),
        procedure::runs::<Disk, ZfsPut>(
            ZfsPutView::start(backend, key, source, diff_ids),
            disk,
            put_steps,
        ),
        procedure::state_after::<Disk, ZfsPut>(
            ZfsPutView::start(backend, key, source, diff_ids),
            put_steps,
        ).outcome() matches Some(Ok(_)),
        procedure::runs::<Disk, ZfsGet>(
            ZfsGetView::start(backend, key),
            procedure::world_after(disk, put_steps),
            get_steps,
        ),
        procedure::state_after::<Disk, ZfsGet>(
            ZfsGetView::start(backend, key),
            get_steps,
        ).outcome() is Some,
    ensures
        ({
            let blob = zfs::blob_file(backend.mountpoint, key);
            let meta = store::meta_path(backend.mountpoint, key);
            let put = procedure::world_after(disk, put_steps);
            let end = procedure::world_after(put, get_steps);
            &&& procedure::state_after::<Disk, ZfsGet>(
                ZfsGetView::start(backend, key),
                get_steps,
            ).outcome() == Some(Some(blob))
            &&& end.holds(blob)
            &&& end.at(blob).content == disk.at(source).content
            &&& end.holds(meta)
            &&& end.at(meta).content matches Content::Record(e) && {
                &&& e.key == key
                &&& e.diff_ids == diff_ids
                &&& disk.at(source).content matches Content::Bytes(b) ==> e.size_bytes == b.len()
                &&& e.last_used == e.created || laws::clock_said::<ZfsGet>(
                    ZfsGetView::start(backend, key),
                    get_steps,
                    e.last_used,
                )
            }
        }),
{
    lemma_put_stores(backend, key, source, diff_ids, disk, put_steps);
    let put = procedure::world_after(disk, put_steps);
    let meta = store::meta_path(backend.mountpoint, key);
    if let Content::Record(old) = put.at(meta).content {
        assert(laws::has_record(put, backend.mountpoint, key, old));
        lemma_get_renews_the_record(backend, key, old, put, get_steps);
        lemma_get_keeps_the_image(backend, key, old, put, get_steps);
    }
}

// ---------------------------------------------------------------------------
// install
// ---------------------------------------------------------------------------
spec fn install_keeps(disk: Disk, start: ZfsInstallView, s: ZfsInstallView, w: Disk) -> bool {
    let blob = s.blob();
    &&& w.wf()
    &&& s.backend == start.backend
    &&& s.key == start.key
    &&& s.dest == start.dest
    &&& w.holds(blob) == disk.holds(blob)
    &&& disk.holds(blob) ==> w.names[blob] == disk.names[blob] && w.at(blob) == disk.at(blob)
    &&& match s.phase {
        ZfsInstallPhase::Looking => w == disk,
        ZfsInstallPhase::Missing => w == disk && !disk.holds(blob),
        ZfsInstallPhase::Finished { kind } => {
            &&& disk.holds(blob)
            &&& w.holds(s.dest)
            &&& w.at(s.dest).content == disk.at(blob).content
            &&& kind == InstallKind::Link <==> w.names[s.dest] == w.names[blob]
        },
        _ => disk.holds(blob) && separate(w, blob, s.dest),
    }
}

/// An install leaves the stored image as it is. One that succeeds has made the
/// destination a name of the image, or else a file of its own, with the contents
/// of the image. It fails with [`store::install::no_image`] where there is no
/// image, and changes nothing then.
///
/// A destination that is a name of the image already is left out: it is removed
/// first, and where that fails the image would be copied onto itself.
pub proof fn lemma_install_publishes(
    backend: ZfsView,
    key: Seq<char>,
    dest: Seq<u8>,
    disk: Disk,
    steps: Seq<Step<Disk>>,
)
    requires
        disk.wf(),
        separate(disk, zfs::blob_file(backend.mountpoint, key), dest),
        procedure::runs::<Disk, ZfsInstall>(ZfsInstallView::start(backend, key, dest), disk, steps),
    ensures
        ({
            let blob = zfs::blob_file(backend.mountpoint, key);
            let end = procedure::world_after(disk, steps);
            let outcome = procedure::state_after::<Disk, ZfsInstall>(
                ZfsInstallView::start(backend, key, dest),
                steps,
            ).outcome();
            &&& end.holds(blob) == disk.holds(blob)
            &&& disk.holds(blob) ==> end.names[blob] == disk.names[blob] && end.at(blob)
                == disk.at(blob)
            &&& outcome matches Some(Ok(kind)) ==> {
                &&& end.holds(dest)
                &&& end.at(dest).content == disk.at(blob).content
                &&& kind == InstallKind::Link <==> end.names[dest] == disk.names[blob]
            }
            &&& outcome is Some && !disk.holds(blob) ==> {
                &&& outcome == Some(Err::<InstallKind, ErrorView>(store::install::no_image(key)))
                &&& end == disk
            }
        }),
{
    let start = ZfsInstallView::start(backend, key, dest);
    let inv = |s: ZfsInstallView, w: Disk| install_keeps(disk, start, s, w);
    assert forall|s: ZfsInstallView, w: Disk, step: Step<Disk>| #[trigger]
        procedure::can_step::<Disk, ZfsInstall>(s, w, step) && inv(s, w) implies inv(
        ZfsInstall::after(s, step.reply),
        step.world,
    ) by {
        lemma_install_step(disk, start, s, w, step);
    }
    procedure::lemma_invariant::<Disk, ZfsInstall>(inv, start, disk, steps);
}

#[verifier::spinoff_prover]
#[verifier::rlimit(60)]
proof fn lemma_install_step(
    disk: Disk,
    start: ZfsInstallView,
    s: ZfsInstallView,
    w: Disk,
    step: Step<Disk>,
)
    requires
        disk.wf(),
        separate(disk, start.blob(), start.dest),
        install_keeps(disk, start, s, w),
        procedure::can_step::<Disk, ZfsInstall>(s, w, step),
    ensures
        install_keeps(disk, start, ZfsInstall::after(s, step.reply), step.world),
{
    let next = ZfsInstall::after(s, step.reply);
    match s.phase {
        ZfsInstallPhase::Clearing => assert(install_keeps(disk, start, next, step.world)),
        ZfsInstallPhase::Linking => assert(install_keeps(disk, start, next, step.world)),
        ZfsInstallPhase::Copying => assert(install_keeps(disk, start, next, step.world)),
        _ => assert(install_keeps(disk, start, next, step.world)),
    }
}

/// What was put is what is published: a name that is installed after a
/// successful put has the contents of the source of the put.
///
/// Names of one file are left out.
pub proof fn lemma_put_then_install(
    backend: ZfsView,
    key: Seq<char>,
    source: Seq<u8>,
    diff_ids: Seq<Seq<char>>,
    dest: Seq<u8>,
    disk: Disk,
    put_steps: Seq<Step<Disk>>,
    steps: Seq<Step<Disk>>,
)
    requires
        disk.wf(),
        key_apart(disk, backend, key),
        source_apart(disk, backend, key, source),
        procedure::runs::<Disk, ZfsPut>(
            ZfsPutView::start(backend, key, source, diff_ids),
            disk,
            put_steps,
        ),
        procedure::state_after::<Disk, ZfsPut>(
            ZfsPutView::start(backend, key, source, diff_ids),
            put_steps,
        ).outcome() matches Some(Ok(_)),
        separate(
            procedure::world_after(disk, put_steps),
            zfs::blob_file(backend.mountpoint, key),
            dest,
        ),
        procedure::runs::<Disk, ZfsInstall>(
            ZfsInstallView::start(backend, key, dest),
            procedure::world_after(disk, put_steps),
            steps,
        ),
        procedure::state_after::<Disk, ZfsInstall>(
            ZfsInstallView::start(backend, key, dest),
            steps,
        ).outcome() matches Some(Ok(_)),
    ensures
        ({
            let end = procedure::world_after(procedure::world_after(disk, put_steps), steps);
            end.holds(dest) && end.at(dest).content == disk.at(source).content
        }),
{
    lemma_put_stores(backend, key, source, diff_ids, disk, put_steps);
    lemma_install_publishes(backend, key, dest, procedure::world_after(disk, put_steps), steps);
}

} // verus!
