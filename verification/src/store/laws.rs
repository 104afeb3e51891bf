//! What the operations of a store do to the files, whatever they meet with.

use super::get::{Get, GetPhase, GetView};
use super::install::{self, Install, InstallPhase, InstallView};
use super::materialize::{
    Materialize, MaterializePhase, MaterializeView, Release, ReleaseView,
};
use super::put::{Put, PutPhase, PutView};
use super::{EntryView, InstallKind};
use crate::disk::{Content, Disk, FileId, FileState, Visible, PRIVATE_MODE, SHARED_MODE};
use crate::error::{ErrorView, IoKind};
use crate::host::{FileStat, Reply, ReplyView, Request, RequestView};
use crate::path;
use crate::procedure::{self, Procedure, Step, World};
use crate::store;
use vstd::prelude::*;
use vstd::utf8::*;

verus! {

// ---------------------------------------------------------------------------
// The names of a store
// ---------------------------------------------------------------------------
proof fn lemma_suffix_last(root: Seq<u8>, dir: Seq<char>, key: Seq<char>, suffix: Seq<char>)
    requires
        suffix.len() > 0,
        is_ascii_chars(suffix),
    ensures
        store::below(root, dir, key + suffix).len() > 0,
        store::below(root, dir, key + suffix).last() == suffix.last() as u8,
{
    path::lemma_encode_concat(key, suffix);
    is_ascii_chars_encode_utf8(suffix);
    path::lemma_joined_last(
        path::joined(root, encode_utf8(dir)),
        encode_utf8(key + suffix),
    );
}

/// Images, records and prepared names are never mistaken for one another.
pub proof fn lemma_names_differ(root: Seq<u8>, a: Seq<char>, b: Seq<char>, dest: Seq<u8>)
    ensures
        store::blob_path(root, a) != store::meta_path(root, b),
        store::blob_path(root, a) != store::meta_staging_path(root, b),
        store::copy_path(root, a) != store::blob_path(root, b),
        store::copy_path(root, a) != store::meta_staging_path(root, b),
        store::copy_path(root, a) != store::meta_path(root, b),
        install::part_path(dest) != dest,
        install::part_path(dest) != store::blob_path(root, a),
{
    reveal_strlit(".ext4");
    reveal_strlit(".json");
    reveal_strlit(".part");
    assert(is_ascii_chars(".ext4"@));
    assert(is_ascii_chars(".json"@));
    assert(is_ascii_chars(".part"@));
    lemma_suffix_last(root, "blobs"@, a, ".ext4"@);
    lemma_suffix_last(root, "blobs"@, b, ".ext4"@);
    lemma_suffix_last(root, "tmp"@, a, ".part"@);
    lemma_suffix_last(root, "meta"@, b, ".json"@);
    lemma_suffix_last(root, "tmp"@, b, ".json"@);
    is_ascii_chars_encode_utf8(".part"@);
    assert('4' as u8 == 52 && 'n' as u8 == 110 && 't' as u8 == 116);
    assert(install::part_path(dest).len() == dest.len() + 5);
    assert(install::part_path(dest).last() == encode_utf8(".part"@).last());
}

// ---------------------------------------------------------------------------
// put
// ---------------------------------------------------------------------------
/// Whether `e` is a fresh record of an image with these contents.
pub open spec fn describes(
    e: EntryView,
    key: Seq<char>,
    diff_ids: Seq<Seq<char>>,
    content: Content,
) -> bool {
    &&& e.key == key
    &&& e.diff_ids == diff_ids
    &&& e.created == e.last_used
    &&& content matches Content::Bytes(b) ==> e.size_bytes == b.len()
}

/// Whether a name holds a fresh record of an image with these contents.
pub open spec fn recorded(
    disk: Disk,
    p: Seq<u8>,
    key: Seq<char>,
    diff_ids: Seq<Seq<char>>,
    content: Content,
) -> bool {
    &&& disk.holds(p)
    &&& disk.at(p).content matches Content::Record(e) && describes(e, key, diff_ids, content)
}

spec fn put_keeps(disk: Disk, start: PutView, s: PutView, w: Disk) -> bool {
    let blob = s.blob();
    let staging = store::meta_staging_path(s.root, s.key);
    let content = disk.at(start.source).content;
    let stored = {
        &&& disk.holds(start.source)
        &&& w.holds(blob)
        &&& w.at(blob).content == content
        &&& w.holds(staging) ==> w.names[staging] != w.names[blob]
    };
    let given = {
        &&& w.holds(start.source) == disk.holds(start.source)
        &&& disk.holds(start.source) ==> w.names[start.source] == disk.names[start.source]
            && w.at(start.source) == disk.at(start.source)
    };
    let measured = |stat: FileStat| content matches Content::Bytes(b) ==> stat.len == b.len();
    &&& w.wf()
    &&& s.root == start.root
    &&& s.key == start.key
    &&& s.source == start.source
    &&& s.diff_ids == start.diff_ids
    &&& match s.phase {
        PutPhase::Renaming => w == disk,
        PutPhase::Clearing => w == disk && s.can_copy(),
        PutPhase::Copying => s.can_copy() && given,
        PutPhase::Placing => {
            &&& s.can_copy()
            &&& disk.holds(start.source)
            &&& w.holds(s.copy())
            &&& w.at(s.copy()).content == content
            &&& !w.shared(s.copy())
        },
        PutPhase::DroppingSource => stored && s.source != blob,
        PutPhase::Protecting => stored,
        PutPhase::Flushing | PutPhase::Measuring => stored && w.at(blob).mode == SHARED_MODE,
        PutPhase::Dating { stat } => {
            stored && w.at(blob).mode == SHARED_MODE && measured(stat)
        },
        PutPhase::Recording { stat, .. } => {
            stored && w.at(blob).mode == SHARED_MODE && measured(stat)
        },
        PutPhase::Publishing => {
            &&& stored
            &&& w.at(blob).mode == SHARED_MODE
            &&& recorded(w, staging, s.key, s.diff_ids, content)
        },
        PutPhase::Finished => {
            &&& disk.holds(start.source)
            &&& w.holds(blob)
            &&& w.at(blob).content == content
            &&& w.at(blob).mode == SHARED_MODE
            &&& recorded(w, store::meta_path(s.root, s.key), s.key, s.diff_ids, content)
        },
        PutPhase::Failed => true,
    }
}

#[verifier::spinoff_prover]
#[verifier::rlimit(60)]
proof fn lemma_put_step(disk: Disk, start: PutView, s: PutView, w: Disk, step: Step<Disk>)
    requires
        disk.wf(),
        !disk.is_alias(start.source, store::meta_staging_path(start.root, start.key)),
        start.source == store::meta_staging_path(start.root, start.key) ==> !disk.is_alias(
            start.source,
            start.blob(),
        ),
        put_keeps(disk, start, s, w),
        procedure::can_step::<Disk, Put>(s, w, step),
    ensures
        put_keeps(disk, start, Put::after(s, step.reply), step.world),
{
    lemma_names_differ(start.root, start.key, start.key, start.source);
    let next = Put::after(s, step.reply);
    let after = step.world;
    match s.phase {
        PutPhase::Renaming => assert(put_keeps(disk, start, next, step.world)),
        PutPhase::Clearing => assert(put_keeps(disk, start, next, step.world)),
        PutPhase::Copying => {
            if next.phase is Placing && after.shared(s.copy()) {
                let q = choose|q: Seq<u8>| after.is_alias(s.copy(), q);
                assert(w.holds(q));
            }
            assert(put_keeps(disk, start, next, step.world));
        },
        PutPhase::Placing => {
            assert(!w.is_alias(s.copy(), s.blob()));
            assert(!w.is_alias(s.copy(), store::meta_staging_path(s.root, s.key)));
            assert(put_keeps(disk, start, next, step.world));
        },
        PutPhase::DroppingSource => assert(put_keeps(disk, start, next, step.world)),
        PutPhase::Protecting => assert(put_keeps(disk, start, next, step.world)),
        PutPhase::Recording { .. } => assert(put_keeps(disk, start, next, step.world)),
        PutPhase::Publishing => assert(put_keeps(disk, start, next, step.world)),
        _ => assert(put_keeps(disk, start, next, step.world)),
    }
}

/// A put that succeeds leaves in the store an image with the contents of its
/// source, read-only, and a record of it.
///
/// The name under which the record is prepared must not be another name of the
/// source, nor the source itself while it is linked into the store already:
/// writing the record would then change the image.
pub proof fn lemma_put_stores(
    root: Seq<u8>,
    key: Seq<char>,
    source: Seq<u8>,
    diff_ids: Seq<Seq<char>>,
    disk: Disk,
    steps: Seq<Step<Disk>>,
)
    requires
        disk.wf(),
        !disk.is_alias(source, store::meta_staging_path(root, key)),
        source == store::meta_staging_path(root, key) ==> !disk.is_alias(
            source,
            store::blob_path(root, key),
        ),
        procedure::runs::<Disk, Put>(PutView::start(root, key, source, diff_ids), disk, steps),
        procedure::state_after::<Disk, Put>(
            PutView::start(root, key, source, diff_ids),
            steps,
        ).outcome() matches Some(Ok(_)),
    ensures
        ({
            let end = procedure::world_after(disk, steps);
            let blob = store::blob_path(root, key);
            &&& disk.holds(source)
            &&& end.wf()
            &&& end.holds(blob)
            &&& end.at(blob) == (FileState {
                content: disk.at(source).content,
                mode: SHARED_MODE,
            })
            &&& recorded(
                end,
                store::meta_path(root, key),
                key,
                diff_ids,
                disk.at(source).content,
            )
        }),
{
    let start = PutView::start(root, key, source, diff_ids);
    let inv = |s: PutView, w: Disk| put_keeps(disk, start, s, w);
    assert forall|s: PutView, w: Disk, step: Step<Disk>| #[trigger]
        procedure::can_step::<Disk, Put>(s, w, step) && inv(s, w) implies inv(
        Put::after(s, step.reply),
        step.world,
    ) by {
        lemma_put_step(disk, start, s, w, step);
    }
    procedure::lemma_invariant::<Disk, Put>(inv, start, disk, steps);
}

/// Whether the time of day was asked for at a step, and was `t`.
pub open spec fn told<P: Procedure<Request = Request, Reply = Reply>>(
    start: <P as View>::V,
    steps: Seq<Step<Disk>>,
    i: int,
    t: u64,
) -> bool {
    &&& P::wants(procedure::state_after::<Disk, P>(start, steps.take(i))) == Some(RequestView::Now)
    &&& steps[i].reply == ReplyView::Time(t)
}

/// Whether the time of day was asked for, and was `t`.
pub open spec fn clock_said<P: Procedure<Request = Request, Reply = Reply>>(
    start: <P as View>::V,
    steps: Seq<Step<Disk>>,
    t: u64,
) -> bool {
    exists|i: int| 0 <= i < steps.len() && #[trigger] told::<P>(start, steps, i, t)
}

/// What the clock said before is what it said.
pub proof fn lemma_clock_said<P: Procedure<Request = Request, Reply = Reply>>(
    start: <P as View>::V,
    steps: Seq<Step<Disk>>,
    t: u64,
)
    requires
        steps.len() > 0,
        clock_said::<P>(start, steps.drop_last(), t) || told::<P>(
            start,
            steps,
            steps.len() - 1,
            t,
        ),
    ensures
        clock_said::<P>(start, steps, t),
{
    let before = steps.drop_last();
    if clock_said::<P>(start, before, t) {
        let i = choose|i: int| 0 <= i < before.len() && #[trigger] told::<P>(start, before, i, t);
        assert(before.take(i) =~= steps.take(i));
        assert(told::<P>(start, steps, i, t));
    }
}

/// Whether the source of a put could not be removed at a step.
pub open spec fn source_stays(start: PutView, steps: Seq<Step<Disk>>, i: int) -> bool {
    &&& Put::wants(procedure::state_after::<Disk, Put>(start, steps.take(i))) == Some(
        RequestView::Remove(start.source),
    )
    &&& steps[i].reply is Failed
}

spec fn put_traces(start: PutView, steps: Seq<Step<Disk>>, s: PutView, w: Disk) -> bool {
    let staging = store::meta_staging_path(s.root, s.key);
    let meta = store::meta_path(s.root, s.key);
    let dropped = w.holds(s.source) ==> exists|i: int|
        0 <= i < steps.len() && #[trigger] source_stays(start, steps, i);
    let dated = |p: Seq<u8>|
        w.at(p).content matches Content::Record(e) && clock_said::<Put>(start, steps, e.last_used);
    match s.phase {
        PutPhase::Renaming
        | PutPhase::Clearing
        | PutPhase::Copying
        | PutPhase::Placing
        | PutPhase::DroppingSource => true,
        PutPhase::Recording { now, .. } => dropped && clock_said::<Put>(start, steps, now),
        PutPhase::Publishing => dropped && dated(staging),
        PutPhase::Finished => dropped && dated(meta),
        PutPhase::Failed => true,
        _ => dropped,
    }
}

/// Whether a put is about names that have nothing to do with each other: its
/// source is none of the names in the store that it writes to, and no other
/// name of the image that is stored already.
pub open spec fn put_apart(disk: Disk, root: Seq<u8>, key: Seq<char>, source: Seq<u8>) -> bool {
    &&& source != store::blob_path(root, key)
    &&& source != store::copy_path(root, key)
    &&& source != store::meta_path(root, key)
    &&& source != store::meta_staging_path(root, key)
    &&& !disk.is_alias(source, store::blob_path(root, key))
    &&& !disk.is_alias(source, store::meta_staging_path(root, key))
}

#[verifier::spinoff_prover]
#[verifier::rlimit(60)]
proof fn lemma_put_traces(start: PutView, disk: Disk, steps: Seq<Step<Disk>>)
    requires
        start == PutView::start(start.root, start.key, start.source, start.diff_ids),
        disk.wf(),
        put_apart(disk, start.root, start.key, start.source),
        procedure::runs::<Disk, Put>(start, disk, steps),
    ensures
        ({
            let s = procedure::state_after::<Disk, Put>(start, steps);
            let w = procedure::world_after(disk, steps);
            put_keeps(disk, start, s, w) && put_traces(start, steps, s, w)
        }),
    decreases steps.len(),
{
    if steps.len() > 0 {
        let before = steps.drop_last();
        let step = steps.last();
        lemma_put_traces(start, disk, before);
        let s = procedure::state_after::<Disk, Put>(start, before);
        let w = procedure::world_after(disk, before);
        let next = Put::after(s, step.reply);
        lemma_put_step(disk, start, s, w, step);
        lemma_names_differ(start.root, start.key, start.key, start.source);
        let n = steps.len() - 1;
        assert(steps.take(n) =~= before);
        if exists|i: int| 0 <= i < before.len() && #[trigger] source_stays(start, before, i) {
            let i = choose|i: int|
                0 <= i < before.len() && #[trigger] source_stays(start, before, i);
            assert(before.take(i) =~= steps.take(i));
            assert(source_stays(start, steps, i));
        }
        match s.phase {
            PutPhase::Renaming => {
                assert(!disk.is_alias(start.source, start.blob()));
            },
            PutPhase::DroppingSource => {
                if step.reply is Failed {
                    assert(source_stays(start, steps, n));
                }
            },
            PutPhase::Dating { stat } => {
                if let ReplyView::Time(now) = step.reply {
                    assert(told::<Put>(start, steps, n, now));
                    lemma_clock_said::<Put>(start, steps, now);
                }
            },
            PutPhase::Recording { now, .. } => {
                lemma_clock_said::<Put>(start, steps, now);
            },
            PutPhase::Publishing => {
                let staging = store::meta_staging_path(s.root, s.key);
                if let Content::Record(e) = w.at(staging).content {
                    lemma_clock_said::<Put>(start, steps, e.last_used);
                }
            },
            _ => {},
        }
    }
}

/// A put that succeeds leaves nothing of its source behind, unless the source
/// of a copy could not be removed; and the record is dated as the clock said.
///
/// A source that is one of the names that the put writes to is left out, and one
/// that is another name of what they hold: renaming between two names of one
/// file does nothing.
pub proof fn lemma_put_moves_and_dates(
    root: Seq<u8>,
    key: Seq<char>,
    source: Seq<u8>,
    diff_ids: Seq<Seq<char>>,
    disk: Disk,
    steps: Seq<Step<Disk>>,
)
    requires
        disk.wf(),
        put_apart(disk, root, key, source),
        procedure::runs::<Disk, Put>(PutView::start(root, key, source, diff_ids), disk, steps),
        procedure::state_after::<Disk, Put>(
            PutView::start(root, key, source, diff_ids),
            steps,
        ).outcome() matches Some(Ok(_)),
    ensures
        ({
            let start = PutView::start(root, key, source, diff_ids);
            let end = procedure::world_after(disk, steps);
            let meta = store::meta_path(root, key);
            &&& end.holds(source) ==> exists|i: int|
                0 <= i < steps.len() && #[trigger] source_stays(start, steps, i)
            &&& end.holds(meta)
            &&& end.at(meta).content matches Content::Record(e) && e.created == e.last_used
                && clock_said::<Put>(start, steps, e.last_used)
        }),
{
    lemma_put_traces(PutView::start(root, key, source, diff_ids), disk, steps);
}

// ---------------------------------------------------------------------------
// get
// ---------------------------------------------------------------------------
/// Whether no name under which a record can be prepared is a name of the image
/// of a key.
pub open spec fn image_apart(disk: Disk, root: Seq<u8>, key: Seq<char>) -> bool {
    forall|k: Seq<char>|
        !disk.is_alias(
            store::blob_path(root, key),
            #[trigger] store::meta_staging_path(root, k),
        )
}

spec fn get_keeps(disk: Disk, start: GetView, s: GetView, w: Disk) -> bool {
    let blob = s.blob();
    &&& s.root == start.root
    &&& s.key == start.key
    &&& w.wf()
    &&& w.holds(blob) == disk.holds(blob)
    &&& w.holds(blob) ==> w.names[blob] == disk.names[blob] && w.at(blob) == disk.at(blob)
    &&& image_apart(w, s.root, s.key)
    &&& match s.outcome() {
        Some(found) => found is Some == disk.holds(blob),
        None => s.phase != GetPhase::Looking ==> disk.holds(blob),
    }
}

#[verifier::spinoff_prover]
#[verifier::rlimit(60)]
proof fn lemma_get_step(disk: Disk, start: GetView, s: GetView, w: Disk, step: Step<Disk>)
    requires
        get_keeps(disk, start, s, w),
        procedure::can_step::<Disk, Get>(s, w, step),
    ensures
        get_keeps(disk, start, Get::after(s, step.reply), step.world),
{
    if let Some(e) = s.record {
        lemma_names_differ(s.root, s.key, e.key, s.root);
    }
    let after = step.world;
    assert forall|k: Seq<char>|
        !after.is_alias(s.blob(), #[trigger] store::meta_staging_path(s.root, k)) by {
        lemma_names_differ(s.root, s.key, k, s.root);
        assert(!w.is_alias(s.blob(), store::meta_staging_path(s.root, k)));
    }
    let next = Get::after(s, step.reply);
    match s.phase {
        GetPhase::Recording { .. } => assert(get_keeps(disk, start, next, after)),
        GetPhase::Publishing => assert(get_keeps(disk, start, next, after)),
        _ => assert(get_keeps(disk, start, next, after)),
    }
}

/// A get finds an image exactly if there is one, and leaves it as it is.
pub proof fn lemma_get_finds(
    root: Seq<u8>,
    key: Seq<char>,
    disk: Disk,
    steps: Seq<Step<Disk>>,
)
    requires
        disk.wf(),
        image_apart(disk, root, key),
        procedure::runs::<Disk, Get>(GetView::start(root, key), disk, steps),
    ensures
        ({
            let end = procedure::world_after(disk, steps);
            let blob = store::blob_path(root, key);
            &&& procedure::state_after::<Disk, Get>(
                GetView::start(root, key),
                steps,
            ).outcome() matches Some(found) ==> found == (if disk.holds(blob) {
                Some(blob)
            } else {
                None
            })
            &&& end.holds(blob) == disk.holds(blob)
            &&& disk.holds(blob) ==> end.at(blob) == disk.at(blob)
        }),
{
    let start = GetView::start(root, key);
    let inv = |s: GetView, w: Disk| get_keeps(disk, start, s, w);
    assert forall|s: GetView, w: Disk, step: Step<Disk>| #[trigger]
        procedure::can_step::<Disk, Get>(s, w, step) && inv(s, w) implies inv(
        Get::after(s, step.reply),
        step.world,
    ) by {
        lemma_get_step(disk, start, s, w, step);
    }
    procedure::lemma_invariant::<Disk, Get>(inv, start, disk, steps);
}

/// Whether a key has a record, prepared nowhere, that is of this key.
pub open spec fn has_record(disk: Disk, root: Seq<u8>, key: Seq<char>, e: EntryView) -> bool {
    let meta = store::meta_path(root, key);
    let staging = store::meta_staging_path(root, key);
    &&& disk.holds(meta)
    &&& disk.at(meta).content == Content::Record(e)
    &&& e.key == key
    &&& staging != meta
    &&& !disk.is_alias(meta, staging)
}

spec fn get_traces(
    start: GetView,
    old: EntryView,
    steps: Seq<Step<Disk>>,
    s: GetView,
    w: Disk,
) -> bool {
    let meta = store::meta_path(s.root, s.key);
    let staging = store::meta_staging_path(s.root, s.key);
    let failed = exists|i: int| 0 <= i < steps.len() && (#[trigger] steps[i]).reply is Failed;
    &&& s.root == start.root
    &&& s.key == start.key
    &&& w.wf()
    &&& s.record matches Some(e) ==> e == old
    &&& s.phase is Dating || s.phase is Recording || s.phase is Publishing ==> s.record is Some
    &&& s.phase != GetPhase::Found ==> has_record(w, s.root, s.key, old)
    &&& match s.phase {
        GetPhase::Recording { now } => clock_said::<Get>(start, steps, now),
        GetPhase::Publishing => {
            &&& w.holds(staging)
            &&& w.at(staging).content matches Content::Record(e) && clock_said::<Get>(
                start,
                steps,
                e.last_used,
            ) && e == (EntryView { last_used: e.last_used, ..old })
        },
        GetPhase::Found => {
            &&& w.holds(meta)
            &&& w.at(meta).content matches Content::Record(e) && e == (EntryView {
                last_used: e.last_used,
                ..old
            }) && (clock_said::<Get>(start, steps, e.last_used) || e == old && failed)
        },
        _ => true,
    }
}

#[verifier::spinoff_prover]
#[verifier::rlimit(60)]
proof fn lemma_get_traces(start: GetView, old: EntryView, disk: Disk, steps: Seq<Step<Disk>>)
    requires
        start == GetView::start(start.root, start.key),
        disk.wf(),
        has_record(disk, start.root, start.key, old),
        procedure::runs::<Disk, Get>(start, disk, steps),
    ensures
        get_traces(
            start,
            old,
            steps,
            procedure::state_after::<Disk, Get>(start, steps),
            procedure::world_after(disk, steps),
        ),
    decreases steps.len(),
{
    if steps.len() > 0 {
        let before = steps.drop_last();
        let step = steps.last();
        lemma_get_traces(start, old, disk, before);
        let s = procedure::state_after::<Disk, Get>(start, before);
        let w = procedure::world_after(disk, before);
        let next = Get::after(s, step.reply);
        let n = steps.len() - 1;
        assert(steps.take(n) =~= before);
        assert(steps[n] == step);
        let staging = store::meta_staging_path(s.root, s.key);
        match s.phase {
            GetPhase::Dating => {
                if let ReplyView::Time(now) = step.reply {
                    assert(told::<Get>(start, steps, n, now));
                    lemma_clock_said::<Get>(start, steps, now);
                }
            },
            GetPhase::Recording { now } => {
                lemma_clock_said::<Get>(start, steps, now);
            },
            GetPhase::Publishing => {
                if let Content::Record(e) = w.at(staging).content {
                    lemma_clock_said::<Get>(start, steps, e.last_used);
                }
            },
            _ => {},
        }
    }
}

/// A hit renews the date of last use: the record is the one that was there,
/// with the time that the clock said. Where reading or writing it fails it may
/// be the one that was there as it was, but nothing else.
pub proof fn lemma_get_renews_the_record(
    root: Seq<u8>,
    key: Seq<char>,
    old: EntryView,
    disk: Disk,
    steps: Seq<Step<Disk>>,
)
    requires
        disk.wf(),
        has_record(disk, root, key, old),
        procedure::runs::<Disk, Get>(GetView::start(root, key), disk, steps),
        procedure::state_after::<Disk, Get>(
            GetView::start(root, key),
            steps,
        ).outcome() matches Some(Some(_)),
    ensures
        ({
            let end = procedure::world_after(disk, steps);
            let meta = store::meta_path(root, key);
            &&& end.holds(meta)
            &&& end.at(meta).content matches Content::Record(e) && {
                &&& e == (EntryView { last_used: e.last_used, ..old })
                &&& clock_said::<Get>(GetView::start(root, key), steps, e.last_used) || e == old
                    && exists|i: int|
                    0 <= i < steps.len() && (#[trigger] steps[i]).reply is Failed
            }
        }),
{
    lemma_get_traces(GetView::start(root, key), old, disk, steps);
}

/// Whether writing records cannot touch a source: no name under which a record
/// can be prepared is another name of it, nor is it such a name itself while
/// it is linked into the store.
pub open spec fn source_apart(disk: Disk, root: Seq<u8>, key: Seq<char>, source: Seq<u8>) -> bool {
    forall|k: Seq<char>|
        {
            let staging = #[trigger] store::meta_staging_path(root, k);
            &&& !disk.is_alias(source, staging)
            &&& source == staging ==> !disk.is_alias(source, store::blob_path(root, key))
        }
}

spec fn put_keeps_apart(s: PutView, w: Disk) -> bool {
    match s.phase {
        PutPhase::Renaming
        | PutPhase::Clearing
        | PutPhase::Copying
        | PutPhase::Placing
        | PutPhase::Failed => true,
        _ => image_apart(w, s.root, s.key),
    }
}

#[verifier::spinoff_prover]
#[verifier::rlimit(60)]
proof fn lemma_put_apart_step(disk: Disk, start: PutView, s: PutView, w: Disk, step: Step<Disk>)
    requires
        disk.wf(),
        source_apart(disk, start.root, start.key, start.source),
        put_keeps(disk, start, s, w),
        put_keeps_apart(s, w),
        procedure::can_step::<Disk, Put>(s, w, step),
    ensures
        put_keeps_apart(Put::after(s, step.reply), step.world),
{
    let next = Put::after(s, step.reply);
    let after = step.world;
    lemma_names_differ(s.root, s.key, s.key, s.source);
    if !(next.phase is Renaming || next.phase is Clearing || next.phase is Copying
        || next.phase is Placing || next.phase is Failed) {
        assert forall|k: Seq<char>|
            !after.is_alias(s.blob(), #[trigger] store::meta_staging_path(s.root, k)) by {
            let staging = store::meta_staging_path(s.root, k);
            lemma_names_differ(s.root, s.key, k, s.source);
            assert(!disk.is_alias(start.source, staging));
            match s.phase {
                PutPhase::Renaming => assert(!after.is_alias(s.blob(), staging)),
                PutPhase::Placing => {
                    assert(!w.is_alias(s.copy(), s.blob()));
                    assert(!w.is_alias(s.copy(), staging));
                    assert(!after.is_alias(s.blob(), staging));
                },
                _ => {
                    assert(!w.is_alias(s.blob(), staging));
                    assert(!after.is_alias(s.blob(), staging));
                },
            }
        }
    }
}

/// A put that succeeds leaves an image that writing records cannot touch.
pub proof fn lemma_put_leaves_image_apart(
    root: Seq<u8>,
    key: Seq<char>,
    source: Seq<u8>,
    diff_ids: Seq<Seq<char>>,
    disk: Disk,
    steps: Seq<Step<Disk>>,
)
    requires
        disk.wf(),
        source_apart(disk, root, key, source),
        procedure::runs::<Disk, Put>(PutView::start(root, key, source, diff_ids), disk, steps),
        procedure::state_after::<Disk, Put>(
            PutView::start(root, key, source, diff_ids),
            steps,
        ).outcome() matches Some(Ok(_)),
    ensures
        image_apart(procedure::world_after(disk, steps), root, key),
{
    let start = PutView::start(root, key, source, diff_ids);
    let inv = |s: PutView, w: Disk| put_keeps(disk, start, s, w) && put_keeps_apart(s, w);
    let staging = store::meta_staging_path(root, key);
    assert(!disk.is_alias(source, staging));
    assert forall|s: PutView, w: Disk, step: Step<Disk>| #[trigger]
        procedure::can_step::<Disk, Put>(s, w, step) && inv(s, w) implies inv(
        Put::after(s, step.reply),
        step.world,
    ) by {
        lemma_put_step(disk, start, s, w, step);
        lemma_put_apart_step(disk, start, s, w, step);
    }
    procedure::lemma_invariant::<Disk, Put>(inv, start, disk, steps);
}

/// What was put is what is got: a get after a successful put gives the image
/// of the key, with the contents of the source.
pub proof fn lemma_put_then_get(
    root: Seq<u8>,
    key: Seq<char>,
    source: Seq<u8>,
    diff_ids: Seq<Seq<char>>,
    disk: Disk,
    put_steps: Seq<Step<Disk>>,
    get_steps: Seq<Step<Disk>>,
)
    requires
        disk.wf(),
        source_apart(disk, root, key, source),
        procedure::runs::<Disk, Put>(PutView::start(root, key, source, diff_ids), disk, put_steps),
        procedure::state_after::<Disk, Put>(
            PutView::start(root, key, source, diff_ids),
            put_steps,
        ).outcome() matches Some(Ok(_)),
        procedure::runs::<Disk, Get>(
            GetView::start(root, key),
            procedure::world_after(disk, put_steps),
            get_steps,
        ),
        procedure::state_after::<Disk, Get>(GetView::start(root, key), get_steps).outcome() is Some,
    ensures
        procedure::state_after::<Disk, Get>(GetView::start(root, key), get_steps).outcome() == Some(
            Some(store::blob_path(root, key)),
        ),
        ({
            let end = procedure::world_after(procedure::world_after(disk, put_steps), get_steps);
            &&& end.holds(store::blob_path(root, key))
            &&& end.at(store::blob_path(root, key)).content == disk.at(source).content
        }),
{
    assert(!disk.is_alias(source, store::meta_staging_path(root, key)));
    lemma_put_leaves_image_apart(root, key, source, diff_ids, disk, put_steps);
    lemma_put_stores(root, key, source, diff_ids, disk, put_steps);
    lemma_get_finds(root, key, procedure::world_after(disk, put_steps), get_steps);
}

// ---------------------------------------------------------------------------
// install
// ---------------------------------------------------------------------------
spec fn install_keeps(disk: Disk, start: InstallView, s: InstallView, w: Disk) -> bool {
    let blob = s.blob();
    let part = s.part();
    let prepared = |kind: InstallKind, p: Seq<u8>|
        {
            &&& w.holds(p)
            &&& match kind {
                InstallKind::Link => w.names[p] == disk.names[blob] && w.at(p) == disk.at(blob),
                InstallKind::Copy => {
                    &&& w.at(p) == (FileState {
                        content: disk.at(blob).content,
                        mode: PRIVATE_MODE,
                    })
                    &&& !w.shared(p)
                },
            }
        };
    let unpublished = {
        &&& w.holds(blob)
        &&& w.names[blob] == disk.names[blob]
        &&& w.at(blob) == disk.at(blob)
        &&& w.holds(s.dest) == disk.holds(s.dest)
        &&& w.holds(s.dest) ==> w.names[s.dest] == disk.names[s.dest]
    };
    &&& s.root == start.root
    &&& s.key == start.key
    &&& s.dest == start.dest
    &&& w.wf()
    &&& s.dest != blob ==> {
        &&& w.holds(blob) == disk.holds(blob)
        &&& w.holds(blob) ==> w.names[blob] == disk.names[blob] && w.at(blob) == disk.at(blob)
    }
    &&& match s.phase {
        InstallPhase::Looking => w == disk,
        InstallPhase::Preparing | InstallPhase::LookingAtDest => w == disk && disk.holds(blob),
        InstallPhase::LookingAtBlob { dest } => {
            &&& w == disk
            &&& disk.holds(blob)
            &&& disk.reports(s.dest, dest)
        },
        InstallPhase::Clearing => w == disk && disk.holds(blob),
        InstallPhase::Linking | InstallPhase::Copying => unpublished,
        InstallPhase::Renaming { kind } => unpublished && prepared(kind, part),
        InstallPhase::Tidying { kind } => {
            &&& prepared(kind, s.dest)
            &&& w.holds(part) ==> names_image(disk, blob, s.dest)
        },
        InstallPhase::Finished { kind } => {
            &&& prepared(kind, s.dest)
            &&& w == disk || !w.holds(part) || names_image(disk, blob, s.dest)
        },
        InstallPhase::Missing => w == disk && !disk.holds(blob),
        InstallPhase::Failed => disk.holds(blob),
    }
    &&& s.phase != InstallPhase::Looking && s.phase != InstallPhase::Missing ==> disk.holds(blob)
}

/// Whether `dest` is a name of the file of `blob`.
pub open spec fn names_image(disk: Disk, blob: Seq<u8>, dest: Seq<u8>) -> bool {
    disk.holds(blob) && disk.holds(dest) && disk.names[dest] == disk.names[blob]
}

#[verifier::spinoff_prover]
#[verifier::rlimit(60)]
proof fn lemma_install_step(
    disk: Disk,
    start: InstallView,
    s: InstallView,
    w: Disk,
    step: Step<Disk>,
)
    requires
        disk.wf(),
        install_keeps(disk, start, s, w),
        procedure::can_step::<Disk, Install>(s, w, step),
    ensures
        install_keeps(disk, start, Install::after(s, step.reply), step.world),
{
    lemma_names_differ(s.root, s.key, s.key, s.dest);
    let after = step.world;
    match s.phase {
        InstallPhase::Copying => {
            if after.shared(s.part()) {
                let q = choose|q: Seq<u8>| after.is_alias(s.part(), q);
                assert(w.holds(q) || !w.holds(s.part()));
            }
        },
        InstallPhase::Renaming { kind } => {
            if kind == InstallKind::Copy {
                assert(!w.is_alias(s.part(), s.dest));
                if after != w && after.shared(s.dest) {
                    let q = choose|q: Seq<u8>| after.is_alias(s.dest, q);
                    assert(w.is_alias(s.part(), q));
                }
            }
        },
        InstallPhase::Tidying { kind } => {
            if kind == InstallKind::Copy && after.shared(s.dest) {
                let q = choose|q: Seq<u8>| after.is_alias(s.dest, q);
                assert(w.is_alias(s.dest, q));
            }
        },
        InstallPhase::Clearing => {},
        InstallPhase::Linking => {},
        InstallPhase::LookingAtBlob { .. } => {},
        _ => {},
    }
}

/// An install leaves the stored image as it is. One that succeeds has made the
/// destination either another name of the image, or a private copy of it that
/// can be written, and leaves no prepared name behind, unless the destination
/// was a name of the image before. It fails with [`install::no_image`] where
/// there is no image, and changes nothing then.
pub proof fn lemma_install_publishes(
    root: Seq<u8>,
    key: Seq<char>,
    dest: Seq<u8>,
    disk: Disk,
    steps: Seq<Step<Disk>>,
)
    requires
        disk.wf(),
        procedure::runs::<Disk, Install>(InstallView::start(root, key, dest), disk, steps),
    ensures
        ({
            let blob = store::blob_path(root, key);
            let end = procedure::world_after(disk, steps);
            let outcome = procedure::state_after::<Disk, Install>(
                InstallView::start(root, key, dest),
                steps,
            ).outcome();
            &&& dest != blob && disk.holds(blob) ==> {
                &&& end.holds(blob)
                &&& end.names[blob] == disk.names[blob]
                &&& end.at(blob) == disk.at(blob)
            }
            &&& outcome matches Some(Ok(_)) ==> {
                ||| end == disk
                ||| !end.holds(install::part_path(dest))
                ||| names_image(disk, blob, dest)
            }
            &&& outcome == Some(Ok::<InstallKind, ErrorView>(InstallKind::Link)) ==> {
                &&& end.holds(dest)
                &&& end.names[dest] == disk.names[blob]
                &&& end.at(dest) == disk.at(blob)
            }
            &&& outcome == Some(Ok::<InstallKind, ErrorView>(InstallKind::Copy)) ==> {
                &&& end.holds(dest)
                &&& end.at(dest) == (FileState {
                    content: disk.at(blob).content,
                    mode: PRIVATE_MODE,
                })
                &&& !end.shared(dest)
            }
            &&& outcome is Some && !disk.holds(blob) ==> {
                &&& outcome == Some(Err::<InstallKind, ErrorView>(install::no_image(key)))
                &&& end == disk
            }
        }),
{
    let start = InstallView::start(root, key, dest);
    let inv = |s: InstallView, w: Disk| install_keeps(disk, start, s, w);
    assert forall|s: InstallView, w: Disk, step: Step<Disk>| #[trigger]
        procedure::can_step::<Disk, Install>(s, w, step) && inv(s, w) implies inv(
        Install::after(s, step.reply),
        step.world,
    ) by {
        lemma_install_step(disk, start, s, w, step);
    }
    procedure::lemma_invariant::<Disk, Install>(inv, start, disk, steps);
}

/// Installing where the destination is a name of the image already changes
/// nothing, so installing twice is installing once.
///
/// A file that is there but cannot be looked at is left out: it is installed
/// again.
pub proof fn lemma_install_idempotent(
    root: Seq<u8>,
    key: Seq<char>,
    dest: Seq<u8>,
    disk: Disk,
    steps: Seq<Step<Visible>>,
)
    requires
        disk.wf(),
        names_image(disk, store::blob_path(root, key), dest),
        procedure::runs::<Visible, Install>(
            InstallView::start(root, key, dest),
            Visible(disk),
            steps,
        ),
    ensures
        procedure::world_after(Visible(disk), steps).0 == disk,
        procedure::state_after::<Visible, Install>(
            InstallView::start(root, key, dest),
            steps,
        ).outcome() matches Some(Ok(kind)) ==> kind == InstallKind::Link,
{
    let start = InstallView::start(root, key, dest);
    let inv = |s: InstallView, w: Visible|
        {
            &&& w.0 == disk
            &&& s.root == root
            &&& s.key == key
            &&& s.dest == dest
            &&& match s.phase {
                InstallPhase::Looking
                | InstallPhase::Preparing
                | InstallPhase::LookingAtDest
                | InstallPhase::Failed => true,
                InstallPhase::LookingAtBlob { dest: stat } => disk.reports(dest, stat),
                InstallPhase::Finished { kind } => kind == InstallKind::Link,
                _ => false,
            }
        };
    assert forall|s: InstallView, w: Visible, step: Step<Visible>| #[trigger]
        procedure::can_step::<Visible, Install>(s, w, step) && inv(s, w) implies inv(
        Install::after(s, step.reply),
        step.world,
    ) by {}
    procedure::lemma_invariant::<Visible, Install>(inv, start, Visible(disk), steps);
}

spec fn install_is_whole(disk: Disk, start: InstallView, s: InstallView, w: Disk) -> bool {
    let blob = s.blob();
    let part = s.part();
    let image = disk.at(blob).content;
    &&& s.root == start.root
    &&& s.key == start.key
    &&& s.dest == start.dest
    &&& w.wf()
    &&& disk.files.dom().subset_of(w.files.dom())
    &&& forall|id: FileId| #[trigger]
        disk.files.contains_key(id) ==> w.files[id] == disk.files[id]
    &&& match s.phase {
        InstallPhase::Looking => w == disk,
        InstallPhase::Missing => w == disk,
        InstallPhase::Tidying { .. } | InstallPhase::Finished { .. } => {
            &&& disk.holds(blob)
            &&& w.holds(s.dest)
            &&& w.at(s.dest).content == image
        },
        _ => {
            &&& disk.holds(blob)
            &&& w.holds(s.dest) == disk.holds(s.dest)
            &&& w.holds(s.dest) ==> w.names[s.dest] == disk.names[s.dest]
            &&& w.holds(blob)
            &&& w.names[blob] == disk.names[blob]
            &&& s.phase is Renaming ==> w.holds(part) && w.at(part).content == image
            &&& s.phase matches InstallPhase::LookingAtBlob { dest } ==> w.reports(s.dest, dest)
        },
    }
}

#[verifier::spinoff_prover]
#[verifier::rlimit(60)]
proof fn lemma_whole_step(disk: Disk, start: InstallView, s: InstallView, w: Disk, step: Step<Disk>)
    requires
        disk.wf(),
        install_is_whole(disk, start, s, w),
        procedure::can_step::<Disk, Install>(s, w, step),
    ensures
        install_is_whole(disk, start, Install::after(s, step.reply), step.world),
{
    lemma_names_differ(s.root, s.key, s.key, s.dest);
    let next = Install::after(s, step.reply);
    match s.phase {
        InstallPhase::Copying => assert(install_is_whole(disk, start, next, step.world)),
        InstallPhase::Linking => assert(install_is_whole(disk, start, next, step.world)),
        InstallPhase::Renaming { .. } => assert(install_is_whole(disk, start, next, step.world)),
        InstallPhase::Tidying { .. } => assert(install_is_whole(disk, start, next, step.world)),
        InstallPhase::Clearing => assert(install_is_whole(disk, start, next, step.world)),
        _ => assert(install_is_whole(disk, start, next, step.world)),
    }
}

/// Wherever an install is interrupted, its destination is what it was before
/// or the whole image, never a part of it; and where it fails, it is what it
/// was.
pub proof fn lemma_install_is_never_half_done(
    root: Seq<u8>,
    key: Seq<char>,
    dest: Seq<u8>,
    disk: Disk,
    steps: Seq<Step<Disk>>,
)
    requires
        disk.wf(),
        procedure::runs::<Disk, Install>(InstallView::start(root, key, dest), disk, steps),
    ensures
        ({
            let end = procedure::world_after(disk, steps);
            ||| end.holds(dest) == disk.holds(dest) && (disk.holds(dest) ==> end.at(dest)
                == disk.at(dest))
            ||| end.holds(dest) && end.at(dest).content == disk.at(
                store::blob_path(root, key),
            ).content
        }),
        procedure::state_after::<Disk, Install>(
            InstallView::start(root, key, dest),
            steps,
        ).outcome() matches Some(Err(_)) ==> {
            let end = procedure::world_after(disk, steps);
            &&& end.holds(dest) == disk.holds(dest)
            &&& disk.holds(dest) ==> end.names[dest] == disk.names[dest] && end.at(dest)
                == disk.at(dest)
        },
{
    let start = InstallView::start(root, key, dest);
    let inv = |s: InstallView, w: Disk| install_is_whole(disk, start, s, w);
    assert forall|s: InstallView, w: Disk, step: Step<Disk>| #[trigger]
        procedure::can_step::<Disk, Install>(s, w, step) && inv(s, w) implies inv(
        Install::after(s, step.reply),
        step.world,
    ) by {
        lemma_whole_step(disk, start, s, w, step);
    }
    procedure::lemma_invariant::<Disk, Install>(inv, start, disk, steps);
}

/// Whether an image could not be linked because its destination is on another
/// filesystem, or because that is not permitted.
pub open spec fn cannot_link(s: InstallView, reply: ReplyView) -> bool {
    &&& s.phase is Linking
    &&& reply matches ReplyView::Failed(e) && (e.is_cross_device() || e.kind
        == IoKind::PermissionDenied)
}

spec fn copies(s: InstallView) -> bool {
    match s.phase {
        InstallPhase::Copying => true,
        InstallPhase::Renaming { kind } => kind == InstallKind::Copy,
        InstallPhase::Tidying { kind } => kind == InstallKind::Copy,
        InstallPhase::Finished { kind } => kind == InstallKind::Copy,
        _ => false,
    }
}

/// An image is published as a copy only where it could not be linked: some
/// earlier reply said that the destination is on another filesystem, or that a
/// link is not permitted.
pub proof fn lemma_install_copies_only_where_it_must(
    root: Seq<u8>,
    key: Seq<char>,
    dest: Seq<u8>,
    replies: Seq<ReplyView>,
)
    requires
        procedure::state_given::<Install>(
            InstallView::start(root, key, dest),
            replies,
        ).outcome() == Some(Ok::<InstallKind, ErrorView>(InstallKind::Copy)),
    ensures
        exists|i: int|
            0 <= i < replies.len() && #[trigger] cannot_link(
                procedure::state_given::<Install>(
                    InstallView::start(root, key, dest),
                    replies.take(i),
                ),
                replies[i],
            ),
{
    lemma_copying(InstallView::start(root, key, dest), replies);
}

proof fn lemma_copying(start: InstallView, replies: Seq<ReplyView>)
    requires
        !copies(start),
        copies(procedure::state_given::<Install>(start, replies)),
    ensures
        exists|i: int|
            0 <= i < replies.len() && #[trigger] cannot_link(
                procedure::state_given::<Install>(start, replies.take(i)),
                replies[i],
            ),
    decreases replies.len(),
{
    if replies.len() > 0 {
        let before = replies.drop_last();
        let s = procedure::state_given::<Install>(start, before);
        if copies(s) {
            lemma_copying(start, before);
            let i = choose|i: int|
                0 <= i < before.len() && #[trigger] cannot_link(
                    procedure::state_given::<Install>(start, before.take(i)),
                    before[i],
                );
            assert(before.take(i) =~= replies.take(i));
            assert(cannot_link(
                procedure::state_given::<Install>(start, replies.take(i)),
                replies[i],
            ));
        } else {
            let i = replies.len() - 1;
            assert(replies.take(i) =~= before);
            assert(cannot_link(
                procedure::state_given::<Install>(start, replies.take(i)),
                replies[i],
            ));
        }
    }
}

// ---------------------------------------------------------------------------
// materialize and release
// ---------------------------------------------------------------------------
spec fn materialize_keeps(disk: Disk, start: MaterializeView, s: MaterializeView, w: Disk) -> bool {
    let blob = s.blob();
    &&& s.root == start.root
    &&& s.key == start.key
    &&& s.dest == start.dest
    &&& w.wf()
    &&& w.holds(blob) == disk.holds(blob)
    &&& w.holds(blob) ==> w.names[blob] == disk.names[blob] && w.at(blob) == disk.at(blob)
    &&& match s.phase {
        MaterializePhase::Looking => w == disk,
        MaterializePhase::Missing => w == disk && !disk.holds(blob),
        MaterializePhase::Finished { .. } => {
            &&& w.holds(blob)
            &&& w.holds(s.dest)
            &&& w.at(s.dest) == (FileState {
                content: disk.at(blob).content,
                mode: PRIVATE_MODE,
            })
            &&& !w.shared(s.dest)
        },
        _ => disk.holds(blob),
    }
}

#[verifier::rlimit(30)]
proof fn lemma_materialize_step(
    disk: Disk,
    start: MaterializeView,
    s: MaterializeView,
    w: Disk,
    step: Step<Disk>,
)
    requires
        start.dest != start.blob(),
        materialize_keeps(disk, start, s, w),
        procedure::can_step::<Disk, Materialize>(s, w, step),
    ensures
        materialize_keeps(disk, start, Materialize::after(s, step.reply), step.world),
{
    let after = step.world;
    match s.phase {
        MaterializePhase::Cloning | MaterializePhase::Copying => {
            if after.shared(s.dest) {
                let q = choose|q: Seq<u8>| after.is_alias(s.dest, q);
                assert(w.holds(q) || !w.holds(s.dest));
            }
        },
        MaterializePhase::Clearing => {},
        _ => {},
    }
}

/// Materializing leaves the stored image as it is. When it succeeds, the
/// destination is a file of its own with the contents of the image, which can
/// be written and has no other name. It fails with [`install::no_image`] where
/// there is no image, and changes nothing then.
///
/// The image itself as the destination is left out.
pub proof fn lemma_materialize_copies(
    root: Seq<u8>,
    key: Seq<char>,
    dest: Seq<u8>,
    disk: Disk,
    steps: Seq<Step<Disk>>,
)
    requires
        disk.wf(),
        dest != store::blob_path(root, key),
        procedure::runs::<Disk, Materialize>(MaterializeView::start(root, key, dest), disk, steps),
    ensures
        ({
            let blob = store::blob_path(root, key);
            let end = procedure::world_after(disk, steps);
            let outcome = procedure::state_after::<Disk, Materialize>(
                MaterializeView::start(root, key, dest),
                steps,
            ).outcome();
            &&& disk.holds(blob) ==> {
                &&& end.holds(blob)
                &&& end.names[blob] == disk.names[blob]
                &&& end.at(blob) == disk.at(blob)
            }
            &&& outcome matches Some(Ok(_)) ==> {
                &&& disk.holds(blob)
                &&& end.holds(dest)
                &&& end.at(dest) == (FileState {
                    content: disk.at(blob).content,
                    mode: PRIVATE_MODE,
                })
                &&& end.names[dest] != end.names[blob]
                &&& !end.shared(dest)
            }
            &&& outcome is Some && !disk.holds(blob) ==> {
                &&& outcome == Some(
                    Err::<store::Materialization, ErrorView>(install::no_image(key)),
                )
                &&& end == disk
            }
        }),
{
    let start = MaterializeView::start(root, key, dest);
    let inv = |s: MaterializeView, w: Disk| materialize_keeps(disk, start, s, w);
    assert forall|s: MaterializeView, w: Disk, step: Step<Disk>| #[trigger]
        procedure::can_step::<Disk, Materialize>(s, w, step) && inv(s, w) implies inv(
        Materialize::after(s, step.reply),
        step.world,
    ) by {
        lemma_materialize_step(disk, start, s, w, step);
    }
    procedure::lemma_invariant::<Disk, Materialize>(inv, start, disk, steps);
    let end = procedure::world_after(disk, steps);
    if end.holds(start.blob()) && end.holds(dest) && end.names[dest] == end.names[start.blob()] {
        assert(end.is_alias(dest, start.blob()));
    }
}

/// A release that succeeds has removed the destination and nothing else,
/// whether or not it was there, so releasing twice is releasing once.
pub proof fn lemma_release_removes(dest: Seq<u8>, disk: Disk, steps: Seq<Step<Disk>>)
    requires
        procedure::runs::<Disk, Release>(ReleaseView { dest, done: None }, disk, steps),
    ensures
        ({
            let end = procedure::world_after(disk, steps);
            match procedure::state_after::<Disk, Release>(
                ReleaseView { dest, done: None },
                steps,
            ).done {
                Some(Ok(_)) => end == disk.without(dest) && !end.holds(dest),
                _ => end == disk,
            }
        }),
{
    let start = ReleaseView { dest, done: None };
    let inv = |s: ReleaseView, w: Disk|
        {
            &&& s.dest == dest
            &&& match s.done {
                Some(Ok(_)) => w == disk.without(dest),
                _ => w == disk,
            }
        };
    assert forall|s: ReleaseView, w: Disk, step: Step<Disk>| #[trigger]
        procedure::can_step::<Disk, Release>(s, w, step) && inv(s, w) implies inv(
        Release::after(s, step.reply),
        step.world,
    ) by {
        if !disk.holds(dest) {
            assert(disk.without(dest) =~= disk);
        }
    }
    procedure::lemma_invariant::<Disk, Release>(inv, start, disk, steps);
}

// ---------------------------------------------------------------------------
// One after the other
// ---------------------------------------------------------------------------
/// What was put is what a private copy holds: a copy that is materialized
/// after a successful put has the contents of the source of the put.
pub proof fn lemma_put_then_materialize(
    root: Seq<u8>,
    key: Seq<char>,
    source: Seq<u8>,
    diff_ids: Seq<Seq<char>>,
    dest: Seq<u8>,
    disk: Disk,
    put_steps: Seq<Step<Disk>>,
    steps: Seq<Step<Disk>>,
)
    requires
        disk.wf(),
        !disk.is_alias(source, store::meta_staging_path(root, key)),
        source == store::meta_staging_path(root, key) ==> !disk.is_alias(
            source,
            store::blob_path(root, key),
        ),
        procedure::runs::<Disk, Put>(PutView::start(root, key, source, diff_ids), disk, put_steps),
        procedure::state_after::<Disk, Put>(
            PutView::start(root, key, source, diff_ids),
            put_steps,
        ).outcome() matches Some(Ok(_)),
        dest != store::blob_path(root, key),
        procedure::runs::<Disk, Materialize>(
            MaterializeView::start(root, key, dest),
            procedure::world_after(disk, put_steps),
            steps,
        ),
        procedure::state_after::<Disk, Materialize>(
            MaterializeView::start(root, key, dest),
            steps,
        ).outcome() matches Some(Ok(_)),
    ensures
        ({
            let end = procedure::world_after(procedure::world_after(disk, put_steps), steps);
            &&& end.holds(dest)
            &&& end.at(dest).content == disk.at(source).content
            &&& end.at(dest).mode == PRIVATE_MODE
            &&& end.at(store::blob_path(root, key)).mode == SHARED_MODE
        }),
{
    lemma_put_stores(root, key, source, diff_ids, disk, put_steps);
    lemma_materialize_copies(root, key, dest, procedure::world_after(disk, put_steps), steps);
}

/// What was put is what is published: a name that is installed after a
/// successful put has the contents of the source of the put.
pub proof fn lemma_put_then_install(
    root: Seq<u8>,
    key: Seq<char>,
    source: Seq<u8>,
    diff_ids: Seq<Seq<char>>,
    dest: Seq<u8>,
    disk: Disk,
    put_steps: Seq<Step<Disk>>,
    steps: Seq<Step<Disk>>,
)
    requires
        disk.wf(),
        !disk.is_alias(source, store::meta_staging_path(root, key)),
        source == store::meta_staging_path(root, key) ==> !disk.is_alias(
            source,
            store::blob_path(root, key),
        ),
        procedure::runs::<Disk, Put>(PutView::start(root, key, source, diff_ids), disk, put_steps),
        procedure::state_after::<Disk, Put>(
            PutView::start(root, key, source, diff_ids),
            put_steps,
        ).outcome() matches Some(Ok(_)),
        procedure::runs::<Disk, Install>(
            InstallView::start(root, key, dest),
            procedure::world_after(disk, put_steps),
            steps,
        ),
        procedure::state_after::<Disk, Install>(
            InstallView::start(root, key, dest),
            steps,
        ).outcome() matches Some(Ok(_)),
    ensures
        ({
            let end = procedure::world_after(procedure::world_after(disk, put_steps), steps);
            end.holds(dest) && end.at(dest).content == disk.at(source).content
        }),
{
    lemma_put_stores(root, key, source, diff_ids, disk, put_steps);
    lemma_install_publishes(root, key, dest, procedure::world_after(disk, put_steps), steps);
    let outcome = procedure::state_after::<Disk, Install>(
        InstallView::start(root, key, dest),
        steps,
    ).outcome();
    assert(outcome == Some(Ok::<InstallKind, ErrorView>(InstallKind::Link)) || outcome == Some(
        Ok::<InstallKind, ErrorView>(InstallKind::Copy),
    ));
}

/// A release after materializing gives the copy back and nothing else: the
/// destination is gone and the image is what it was.
pub proof fn lemma_materialize_then_release(
    root: Seq<u8>,
    key: Seq<char>,
    dest: Seq<u8>,
    disk: Disk,
    steps: Seq<Step<Disk>>,
    release_steps: Seq<Step<Disk>>,
)
    requires
        disk.wf(),
        disk.holds(store::blob_path(root, key)),
        dest != store::blob_path(root, key),
        procedure::runs::<Disk, Materialize>(MaterializeView::start(root, key, dest), disk, steps),
        procedure::runs::<Disk, Release>(
            ReleaseView { dest, done: None },
            procedure::world_after(disk, steps),
            release_steps,
        ),
        procedure::state_after::<Disk, Release>(
            ReleaseView { dest, done: None },
            release_steps,
        ).done matches Some(Ok(_)),
    ensures
        ({
            let end = procedure::world_after(
                procedure::world_after(disk, steps),
                release_steps,
            );
            let blob = store::blob_path(root, key);
            &&& !end.holds(dest)
            &&& end.holds(blob)
            &&& end.names[blob] == disk.names[blob]
            &&& end.at(blob) == disk.at(blob)
        }),
{
    lemma_materialize_copies(root, key, dest, disk, steps);
    lemma_release_removes(dest, procedure::world_after(disk, steps), release_steps);
}

} // verus!
