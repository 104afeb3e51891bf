//! What an eviction comes to: which images go and which stay, by what they
//! occupy and by what links to them.

use super::gc::{self, Gc, GcPhase, GcPolicy, GcReportView, GcView};
use super::gc_laws::{self, deciding, decided, position};
use super::{laws, EntryView};
use crate::disk::{Disk, Visible};
use crate::host::ReplyView;
use crate::path;
use crate::procedure::{self, Procedure, Step};
use crate::store;
use vstd::prelude::*;
use vstd::utf8::*;

verus! {

// ---------------------------------------------------------------------------
// Keys and names
// ---------------------------------------------------------------------------
/// Whether a key is no absolute name, so that its image and its record are in
/// the store.
pub open spec fn plain_key(key: Seq<char>) -> bool {
    encode_utf8(key).len() > 0 ==> encode_utf8(key)[0] != path::SLASH
}

/// Whether the keys of all records are plain.
pub open spec fn plain_keys(es: Seq<EntryView>) -> bool {
    forall|i: int| 0 <= i < es.len() ==> plain_key((#[trigger] es[i]).key)
}

/// Whether no two records are of one key.
pub open spec fn distinct_keys(es: Seq<EntryView>) -> bool {
    forall|i: int, j: int|
        0 <= i < j < es.len() ==> (#[trigger] es[i]).key != (#[trigger] es[j]).key
}

proof fn lemma_below(root: Seq<u8>, dir: Seq<char>, a: Seq<char>, b: Seq<char>, suffix: Seq<char>)
    requires
        plain_key(a),
        plain_key(b),
        encode_utf8(suffix).len() > 0,
        encode_utf8(suffix)[0] != path::SLASH,
        store::below(root, dir, a + suffix) == store::below(root, dir, b + suffix),
    ensures
        a == b,
{
    path::lemma_encode_concat(a, suffix);
    path::lemma_encode_concat(b, suffix);
    let base = path::joined(root, encode_utf8(dir));
    let x = encode_utf8(a + suffix);
    let y = encode_utf8(b + suffix);
    if encode_utf8(a).len() > 0 {
        assert(x[0] == encode_utf8(a)[0]);
    } else {
        assert(x[0] == encode_utf8(suffix)[0]);
    }
    if encode_utf8(b).len() > 0 {
        assert(y[0] == encode_utf8(b)[0]);
    } else {
        assert(y[0] == encode_utf8(suffix)[0]);
    }
    let head = if base.len() == 0 || base.last() == path::SLASH {
        base
    } else {
        base.push(path::SLASH)
    };
    assert(store::below(root, dir, a + suffix) == head + x);
    assert(store::below(root, dir, b + suffix) == head + y);
    assert((head + x).skip(head.len() as int) =~= x);
    assert((head + y).skip(head.len() as int) =~= y);
    let n = encode_utf8(suffix).len() as int;
    assert(x.take(x.len() - n) =~= encode_utf8(a));
    assert(y.take(y.len() - n) =~= encode_utf8(b));
    encode_utf8_decode_utf8(a);
    encode_utf8_decode_utf8(b);
}

/// Different plain keys have different images and different records.
pub proof fn lemma_plain_keys_have_names_of_their_own(
    root: Seq<u8>,
    a: Seq<char>,
    b: Seq<char>,
)
    requires
        plain_key(a),
        plain_key(b),
    ensures
        store::blob_path(root, a) == store::blob_path(root, b) ==> a == b,
        store::meta_path(root, a) == store::meta_path(root, b) ==> a == b,
        store::blob_path(root, a) != store::meta_path(root, b),
{
    reveal_strlit(".ext4");
    reveal_strlit(".json");
    is_ascii_chars_encode_utf8(".ext4"@);
    is_ascii_chars_encode_utf8(".json"@);
    assert('.' as u8 == 46);
    if store::blob_path(root, a) == store::blob_path(root, b) {
        lemma_below(root, "blobs"@, a, b, ".ext4"@);
    }
    if store::meta_path(root, a) == store::meta_path(root, b) {
        lemma_below(root, "meta"@, a, b, ".json"@);
    }
    laws::lemma_names_differ(root, a, b, root);
}

/// Whether no two records have one image.
pub open spec fn distinct_images(root: Seq<u8>, es: Seq<EntryView>) -> bool {
    forall|i: int, j: int|
        0 <= i < j < es.len() ==> store::blob_path(root, (#[trigger] es[i]).key)
            != store::blob_path(root, (#[trigger] es[j]).key)
}

/// Whether no two records have one name.
pub open spec fn distinct_records(root: Seq<u8>, es: Seq<EntryView>) -> bool {
    forall|i: int, j: int|
        0 <= i < j < es.len() ==> store::meta_path(root, (#[trigger] es[i]).key)
            != store::meta_path(root, (#[trigger] es[j]).key)
}

/// Plain keys that do not occur twice have images and records of their own.
pub proof fn lemma_plain_keys_are_not_mixed_up(root: Seq<u8>, es: Seq<EntryView>)
    requires
        plain_keys(es),
        distinct_keys(es),
    ensures
        distinct_images(root, es),
        distinct_records(root, es),
{
    assert forall|i: int, j: int| 0 <= i < j < es.len() implies store::blob_path(
        root,
        (#[trigger] es[i]).key,
    ) != store::blob_path(root, (#[trigger] es[j]).key) && store::meta_path(root, es[i].key)
        != store::meta_path(root, es[j].key) by {
        lemma_plain_keys_have_names_of_their_own(root, es[i].key, es[j].key);
    }
}

/// Whether a name is that of one of some records.
pub open spec fn is_record(root: Seq<u8>, es: Seq<EntryView>, p: Seq<u8>) -> bool {
    exists|i: int| 0 <= i < es.len() && p == store::meta_path(root, (#[trigger] es[i]).key)
}

/// Whether the image of a key has another name, which is not that of one of
/// some records: it is installed.
pub open spec fn linked(disk: Disk, root: Seq<u8>, es: Seq<EntryView>, key: Seq<char>) -> bool {
    exists|link: Seq<u8>| #[trigger] links_to(disk, root, es, key, link)
}

/// Whether `link` is another name of the image of a key, and not that of one of
/// some records.
pub open spec fn links_to(
    disk: Disk,
    root: Seq<u8>,
    es: Seq<EntryView>,
    key: Seq<char>,
    link: Seq<u8>,
) -> bool {
    disk.is_alias(store::blob_path(root, key), link) && !is_record(root, es, link)
}

proof fn lemma_images_are_no_records(root: Seq<u8>, es: Seq<EntryView>, key: Seq<char>)
    ensures
        !is_record(root, es, store::blob_path(root, key)),
{
    assert forall|i: int| 0 <= i < es.len() implies store::blob_path(root, key) != store::meta_path(
        root,
        (#[trigger] es[i]).key,
    ) by {
        laws::lemma_names_differ(root, key, es[i].key, root);
    }
}

// ---------------------------------------------------------------------------
// What is gone, and what is not
// ---------------------------------------------------------------------------
/// Whether a name is that of the image or of the record of a key.
pub open spec fn belongs(root: Seq<u8>, key: Seq<char>, p: Seq<u8>) -> bool {
    p == store::blob_path(root, key) || p == store::meta_path(root, key)
}

/// Whether a name is that of the image or of the record of one of some keys.
pub open spec fn belongs_to_any(root: Seq<u8>, keys: Seq<Seq<char>>, p: Seq<u8>) -> bool {
    exists|i: int| 0 <= i < keys.len() && belongs(root, #[trigger] keys[i], p)
}

/// Whether the image of a key is being removed.
pub open spec fn in_hand(s: GcView, key: Seq<char>) -> bool {
    match s.phase {
        GcPhase::Forgetting { at, .. } => s.entries[at as int].key == key,
        GcPhase::Weighing { at, .. } => s.entries[at as int].key == key,
        _ => false,
    }
}

/// Whether an image is about to go.
pub open spec fn condemned(s: GcView) -> Option<usize> {
    match s.phase {
        GcPhase::Sizing { at } => Some(at),
        GcPhase::Removing { at, .. } => Some(at),
        GcPhase::Forgetting { at, .. } => Some(at),
        GcPhase::Weighing { at, .. } => Some(at),
        _ => None,
    }
}

/// Whether a name is that of an image that has been removed, or is being, or of
/// its record.
pub(crate) open spec fn taken(s: GcView, p: Seq<u8>) -> bool {
    ||| belongs_to_any(s.root, s.report.removed, p)
    ||| exists|k: Seq<char>| in_hand(s, k) && #[trigger] belongs(s.root, k, p)
}

/// What every step of a run starts from and comes to.
pub(crate) open spec fn run_keeps(disk: Disk, start: GcView, s: GcView, w: Disk) -> bool {
    &&& gc_laws::report_keeps(start, s)
    &&& s.phase is Listing ==> w == disk
    &&& w.files == disk.files
    &&& w.within(disk)
    &&& forall|p: Seq<u8>| #[trigger] disk.holds(p) && !w.holds(p) ==> taken(s, p)
}

/// The images that a step reports as removed in addition to those before.
proof fn lemma_removed_grows(s: GcView, reply: ReplyView)
    requires
        deciding(s),
    ensures
        ({
            let next = Gc::after(s, reply);
            ||| next.report.removed == s.report.removed
            ||| condemned(s) matches Some(at) && next.report.removed == s.report.removed.push(
                s.entries[at as int].key,
            )
        }),
        Gc::after(s, reply).entries == s.entries,
{
}

/// The name that is to be removed at a step.
pub(crate) open spec fn victim(s: GcView) -> Option<Seq<u8>> {
    match s.phase {
        GcPhase::Removing { at, .. } => Some(s.blob(at)),
        GcPhase::Forgetting { at, .. } => Some(s.meta(at)),
        _ => None,
    }
}

#[verifier::spinoff_prover]
#[verifier::rlimit(60)]
pub(crate) proof fn lemma_run_step(
    disk: Disk,
    start: GcView,
    s: GcView,
    w: Disk,
    step: Step<Disk>,
)
    requires
        run_keeps(disk, start, s, w),
        procedure::can_step::<Disk, Gc>(s, w, step),
    ensures
        run_keeps(disk, start, Gc::after(s, step.reply), step.world),
        step.world == w || victim(s) is Some && step.world == w.without(victim(s)->0),
{
    let next = Gc::after(s, step.reply);
    let after = step.world;
    if s.phase == GcPhase::Listing || !(step.reply is Entries) {
        gc_laws::lemma_report_step(start, s, step.reply);
    } else {
        assert(next == s);
    }
    assert(after == w || victim(s) is Some && after == w.without(victim(s)->0));
    assert forall|p: Seq<u8>| #[trigger] after.holds(p) implies disk.holds(p) && after.names[p]
        == disk.names[p] by {
        assert(w.holds(p));
    }
    if s.phase != GcPhase::Listing {
        if deciding(s) {
            lemma_removed_grows(s, step.reply);
        }
        assert forall|p: Seq<u8>| #[trigger] disk.holds(p) && !after.holds(p) implies taken(
            next,
            p,
        ) by {
            if !w.holds(p) {
                if belongs_to_any(s.root, s.report.removed, p) {
                    let i = choose|i: int|
                        0 <= i < s.report.removed.len() && belongs(
                            s.root,
                            #[trigger] s.report.removed[i],
                            p,
                        );
                    assert(next.report.removed[i] == s.report.removed[i]);
                } else {
                    let k = choose|k: Seq<char>| in_hand(s, k) && #[trigger] belongs(s.root, k, p);
                    if !in_hand(next, k) {
                        assert(next.report.removed.last() == k);
                    }
                }
            } else {
                let k = s.entries[position(s)->0 as int].key;
                assert(belongs(s.root, k, p));
                if !in_hand(next, k) {
                    assert(next.report.removed.last() == k);
                }
            }
        }
    }
}

/// Any other name is what it was: what is gone are the images and the records
/// of the keys that are reported as removed, and no file has changed. So an
/// image that could not be removed keeps its record, and a later eviction still
/// sees it.
pub proof fn lemma_only_removed_images_are_gone(
    root: Seq<u8>,
    policy: GcPolicy,
    disk: Disk,
    steps: Seq<Step<Disk>>,
)
    requires
        procedure::runs::<Disk, Gc>(GcView::start(root, policy), disk, steps),
        procedure::state_after::<Disk, Gc>(
            GcView::start(root, policy),
            steps,
        ).outcome() is Some,
    ensures
        ({
            let end = procedure::world_after(disk, steps);
            let removed = procedure::state_after::<Disk, Gc>(
                GcView::start(root, policy),
                steps,
            ).report.removed;
            &&& end.files == disk.files
            &&& end.within(disk)
            &&& forall|p: Seq<u8>|
                !belongs_to_any(root, removed, p) ==> #[trigger] end.holds(p) == disk.holds(p)
        }),
{
    lemma_run(root, policy, disk, steps);
}

pub(crate) proof fn lemma_run(root: Seq<u8>, policy: GcPolicy, disk: Disk, steps: Seq<Step<Disk>>)
    requires
        procedure::runs::<Disk, Gc>(GcView::start(root, policy), disk, steps),
    ensures
        run_keeps(
            disk,
            GcView::start(root, policy),
            procedure::state_after::<Disk, Gc>(GcView::start(root, policy), steps),
            procedure::world_after(disk, steps),
        ),
{
    let start = GcView::start(root, policy);
    let inv = |s: GcView, w: Disk| run_keeps(disk, start, s, w);
    assert forall|s: GcView, w: Disk, step: Step<Disk>| #[trigger]
        procedure::can_step::<Disk, Gc>(s, w, step) && inv(s, w) implies inv(
        Gc::after(s, step.reply),
        step.world,
    ) by {
        lemma_run_step(disk, start, s, w, step);
    }
    procedure::lemma_invariant::<Disk, Gc>(inv, start, disk, steps);
}

/// Whether the image and the record of a key are what they were, where they are
/// not those of two of the records.
pub open spec fn is_kept(
    root: Seq<u8>,
    es: Seq<EntryView>,
    disk: Disk,
    end: Disk,
    key: Seq<char>,
) -> bool {
    let blob = store::blob_path(root, key);
    let meta = store::meta_path(root, key);
    &&& end.files == disk.files
    &&& end.within(disk)
    &&& distinct_images(root, es) ==> end.holds(blob) == disk.holds(blob)
    &&& distinct_records(root, es) ==> end.holds(meta) == disk.holds(meta)
}

/// An image that is not reported as removed is what it was, and so is its record.
///
/// Records of one image, and those of one name, are left out.
pub proof fn lemma_other_images_are_kept(
    root: Seq<u8>,
    policy: GcPolicy,
    disk: Disk,
    steps: Seq<Step<Disk>>,
    at: int,
)
    requires
        procedure::runs::<Disk, Gc>(GcView::start(root, policy), disk, steps),
        ({
            let s = procedure::state_after::<Disk, Gc>(GcView::start(root, policy), steps);
            &&& s.outcome() is Some
            &&& 0 <= at < s.entries.len()
            &&& !s.report.removed.contains(s.entries[at].key)
        }),
    ensures
        ({
            let end = procedure::world_after(disk, steps);
            let es = procedure::state_after::<Disk, Gc>(GcView::start(root, policy), steps).entries;
            is_kept(root, es, disk, end, es[at].key)
        }),
{
    lemma_run(root, policy, disk, steps);
    let s = procedure::state_after::<Disk, Gc>(GcView::start(root, policy), steps);
    let es = s.entries;
    let removed = s.report.removed;
    let blob = store::blob_path(root, es[at].key);
    let meta = store::meta_path(root, es[at].key);
    assert forall|i: int| 0 <= i < removed.len() && belongs(root, #[trigger] removed[i], blob)
        && distinct_images(root, es) implies false by {
        laws::lemma_names_differ(root, es[at].key, removed[i], root);
        let idx = choose|idx: Seq<int>| #[trigger] gc_laws::chosen(s, idx);
        assert(removed[i] == es[idx[i]].key);
    }
    assert forall|i: int| 0 <= i < removed.len() && belongs(root, #[trigger] removed[i], meta)
        && distinct_records(root, es) implies false by {
        laws::lemma_names_differ(root, removed[i], es[at].key, root);
        let idx = choose|idx: Seq<int>| #[trigger] gc_laws::chosen(s, idx);
        assert(removed[i] == es[idx[i]].key);
    }
}

/// Two names of one file, neither of which is a record, both stay.
pub(crate) open spec fn links_keep(disk: Disk, s: GcView, w: Disk) -> bool {
    &&& forall|p: Seq<u8>, q: Seq<u8>| #[trigger]
        disk.is_alias(p, q) && !is_record(s.root, s.entries, p) && !is_record(
            s.root,
            s.entries,
            q,
        ) ==> w.holds(p)
    &&& forall|i: int|
        0 <= i < s.report.removed.len() ==> !linked(
            disk,
            s.root,
            s.entries,
            #[trigger] s.report.removed[i],
        )
    &&& condemned(s) matches Some(at) ==> !linked(
        disk,
        s.root,
        s.entries,
        s.entries[at as int].key,
    )
}

#[verifier::spinoff_prover]
#[verifier::rlimit(60)]
pub(crate) proof fn lemma_links_step(disk: Disk, start: GcView, s: GcView, w: Visible, step: Step<Visible>)
    requires
        run_keeps(disk, start, s, w.0),
        links_keep(disk, s, w.0),
        procedure::can_step::<Visible, Gc>(s, w, step),
    ensures
        run_keeps(disk, start, Gc::after(s, step.reply), step.world.0),
        links_keep(disk, Gc::after(s, step.reply), step.world.0),
{
    let next = Gc::after(s, step.reply);
    let after = step.world.0;
    let seen = Step::<Disk> { reply: step.reply, world: after };
    assert(procedure::can_step::<Disk, Gc>(s, w.0, seen));
    lemma_run_step(disk, start, s, w.0, seen);
    if s.phase == GcPhase::Listing {
        assert(after == disk);
        assert(next.report.removed =~= seq![]);
        assert(condemned(next) is None);
    } else {
        let es = s.entries;
        assert(next.entries == es && next.root == s.root);
        if deciding(s) {
            lemma_removed_grows(s, step.reply);
        }
        if let Some(at) = condemned(next) {
            let k = es[at as int].key;
            if condemned(s) is None {
                assert(s.phase == GcPhase::Checking { at });
                if linked(disk, s.root, es, k) {
                    let link = choose|link: Seq<u8>| #[trigger]
                        links_to(disk, s.root, es, k, link);
                    lemma_images_are_no_records(s.root, es, k);
                    assert(disk.is_alias(s.blob(at), link));
                    assert(disk.is_alias(link, s.blob(at)));
                    assert(w.0.is_alias(s.blob(at), link));
                    assert(w.0.shared(s.blob(at)));
                }
            } else {
                assert(condemned(s) == Some(at));
            }
        }
        assert forall|i: int| 0 <= i < next.report.removed.len() implies !linked(
            disk,
            s.root,
            es,
            #[trigger] next.report.removed[i],
        ) by {
            if i < s.report.removed.len() {
                assert(!linked(disk, s.root, es, s.report.removed[i]));
            }
        }
        assert forall|p: Seq<u8>, q: Seq<u8>| #[trigger]
            disk.is_alias(p, q) && !is_record(s.root, es, p) && !is_record(
                s.root,
                es,
                q,
            ) implies after.holds(p) by {
            assert(w.0.holds(p));
            match s.phase {
                GcPhase::Removing { at, .. } => {
                    if p == s.blob(at) {
                        assert(links_to(disk, s.root, es, es[at as int].key, q));
                    }
                },
                GcPhase::Forgetting { at, .. } => {
                    assert(es[at as int].key == es[at as int].key);
                    assert(p != s.meta(at));
                },
                _ => {},
            }
        }
    }
}

proof fn lemma_links_run(
    root: Seq<u8>,
    policy: GcPolicy,
    disk: Disk,
    steps: Seq<Step<Visible>>,
)
    requires
        procedure::runs::<Visible, Gc>(GcView::start(root, policy), Visible(disk), steps),
    ensures
        ({
            let s = procedure::state_after::<Visible, Gc>(GcView::start(root, policy), steps);
            let w = procedure::world_after(Visible(disk), steps).0;
            run_keeps(disk, GcView::start(root, policy), s, w) && links_keep(disk, s, w)
        }),
{
    let start = GcView::start(root, policy);
    let inv = |s: GcView, w: Visible| run_keeps(disk, start, s, w.0) && links_keep(disk, s, w.0);
    assert forall|s: GcView, w: Visible, step: Step<Visible>| #[trigger]
        procedure::can_step::<Visible, Gc>(s, w, step) && inv(s, w) implies inv(
        Gc::after(s, step.reply),
        step.world,
    ) by {
        lemma_links_step(disk, start, s, w, step);
    }
    procedure::lemma_invariant::<Visible, Gc>(inv, start, Visible(disk), steps);
}

/// Whether no record of another key has the name of the record of a key.
pub open spec fn has_own_record(root: Seq<u8>, es: Seq<EntryView>, key: Seq<char>) -> bool {
    forall|i: int|
        0 <= i < es.len() && store::meta_path(root, (#[trigger] es[i]).key) == store::meta_path(
            root,
            key,
        ) ==> es[i].key == key
}

/// An image that is installed stays, under every policy: its key is not
/// reported as removed, and its name and what it holds are what they were, as is
/// its link. So is its record, unless it is that of another key as well.
///
/// A file that is there but cannot be looked at is left out, since it is taken
/// for one without links; and so is a link whose name is that of a record, since
/// records are removed.
pub proof fn lemma_installed_images_stay(
    root: Seq<u8>,
    policy: GcPolicy,
    key: Seq<char>,
    disk: Disk,
    steps: Seq<Step<Visible>>,
)
    requires
        procedure::runs::<Visible, Gc>(GcView::start(root, policy), Visible(disk), steps),
        linked(
            disk,
            root,
            procedure::state_after::<Visible, Gc>(GcView::start(root, policy), steps).entries,
            key,
        ),
    ensures
        ({
            let state = procedure::state_after::<Visible, Gc>(GcView::start(root, policy), steps);
            let end = procedure::world_after(Visible(disk), steps).0;
            let blob = store::blob_path(root, key);
            let meta = store::meta_path(root, key);
            &&& !state.report.removed.contains(key)
            &&& linked(end, root, state.entries, key)
            &&& end.names[blob] == disk.names[blob]
            &&& end.at(blob) == disk.at(blob)
            &&& disk.holds(meta) && has_own_record(root, state.entries, key) ==> {
                &&& end.holds(meta)
                &&& end.names[meta] == disk.names[meta]
                &&& end.at(meta) == disk.at(meta)
            }
        }),
{
    lemma_links_run(root, policy, disk, steps);
    let state = procedure::state_after::<Visible, Gc>(GcView::start(root, policy), steps);
    let es = state.entries;
    let end = procedure::world_after(Visible(disk), steps).0;
    let blob = store::blob_path(root, key);
    let meta = store::meta_path(root, key);
    let link = choose|link: Seq<u8>| #[trigger] links_to(disk, root, es, key, link);
    lemma_images_are_no_records(root, es, key);
    assert(disk.is_alias(blob, link));
    assert(disk.is_alias(link, blob));
    assert(end.holds(blob) && end.holds(link));
    assert(links_to(end, root, es, key, link));
    if state.report.removed.contains(key) {
        let i = choose|i: int|
            0 <= i < state.report.removed.len() && state.report.removed[i] == key;
        assert(!linked(disk, root, es, state.report.removed[i]));
    }
    if disk.holds(meta) && has_own_record(root, es, key) && !end.holds(meta) {
        assert(taken(state, meta));
        if belongs_to_any(root, state.report.removed, meta) {
            let i = choose|i: int|
                0 <= i < state.report.removed.len() && belongs(
                    root,
                    #[trigger] state.report.removed[i],
                    meta,
                );
            laws::lemma_names_differ(root, state.report.removed[i], key, root);
            let idx = choose|idx: Seq<int>| #[trigger] gc_laws::chosen(state, idx);
            assert(state.report.removed[i] == es[idx[i]].key);
            assert(state.report.removed.contains(key));
        } else {
            let k = choose|k: Seq<char>| in_hand(state, k) && #[trigger] belongs(root, k, meta);
            laws::lemma_names_differ(root, k, key, root);
            let at = condemned(state)->0;
            assert(es[at as int].key == key);
        }
    }
}

// ---------------------------------------------------------------------------
// Which images go, and how many stay
// ---------------------------------------------------------------------------
/// The keys of the records that have a property, in order.
pub open spec fn keys_of(es: Seq<EntryView>, f: spec_fn(EntryView) -> bool) -> Seq<Seq<char>>
    decreases es.len(),
{
    if es.len() == 0 {
        seq![]
    } else if f(es.last()) {
        keys_of(es.drop_last(), f).push(es.last().key)
    } else {
        keys_of(es.drop_last(), f)
    }
}

pub(crate) proof fn lemma_keys_next(es: Seq<EntryView>, f: spec_fn(EntryView) -> bool, i: int)
    requires
        0 <= i < es.len(),
    ensures
        keys_of(es.take(i + 1), f) == (if f(es[i]) {
            keys_of(es.take(i), f).push(es[i].key)
        } else {
            keys_of(es.take(i), f)
        }),
{
    assert(es.take(i + 1).drop_last() =~= es.take(i));
}

proof fn lemma_keys_skipped(es: Seq<EntryView>, f: spec_fn(EntryView) -> bool, a: int, b: int)
    requires
        0 <= a <= b <= es.len(),
        forall|i: int| a <= i < b ==> !f(#[trigger] es[i]),
    ensures
        keys_of(es.take(a), f) == keys_of(es.take(b), f),
    decreases b - a,
{
    if a < b {
        lemma_keys_skipped(es, f, a, b - 1);
        lemma_keys_next(es, f, b - 1);
        assert(!f(es[b - 1]));
    }
}

/// Whether no record is another name of an image.
pub open spec fn records_apart(disk: Disk, root: Seq<u8>, es: Seq<EntryView>) -> bool {
    forall|i: int, j: int|
        0 <= i < es.len() && 0 <= j < es.len() ==> !disk.is_alias(
            store::blob_path(root, (#[trigger] es[i]).key),
            store::meta_path(root, (#[trigger] es[j]).key),
        )
}

/// The records of images that are installed.
pub open spec fn is_installed(disk: Disk, root: Seq<u8>, es: Seq<EntryView>) -> spec_fn(
    EntryView,
) -> bool {
    |e: EntryView| linked(disk, root, es, e.key)
}

/// The records of images that have gone unused for too long and are installed,
/// or are not.
pub open spec fn is_old(
    disk: Disk,
    root: Seq<u8>,
    es: Seq<EntryView>,
    policy: GcPolicy,
    now: u64,
    installed: bool,
) -> spec_fn(EntryView) -> bool {
    |e: EntryView| policy.too_old(now, e.last_used) && linked(disk, root, es, e.key) == installed
}

/// What was found out about links is right: an image with another name is
/// installed.
pub(crate) proof fn lemma_links_are_installs(disk: Disk, start: GcView, s: GcView, w: Disk, at: usize)
    requires
        run_keeps(disk, start, s, w),
        records_apart(disk, s.root, s.entries),
        at < s.entries.len(),
        w.shared(s.blob(at)),
    ensures
        linked(disk, s.root, s.entries, s.entries[at as int].key),
{
    let es = s.entries;
    let q = choose|q: Seq<u8>| #[trigger] w.is_alias(s.blob(at), q);
    assert(w.holds(q) && w.holds(s.blob(at)));
    assert(disk.is_alias(s.blob(at), q));
    assert forall|j: int| 0 <= j < es.len() implies q != store::meta_path(
        s.root,
        (#[trigger] es[j]).key,
    ) by {
        assert(es[at as int].key == es[at as int].key);
    }
    assert(links_to(disk, s.root, es, es[at as int].key, q));
}

spec fn counts_keep(disk: Disk, s: GcView) -> bool {
    let known = s.entries.take(decided(s));
    let installed = keys_of(known, is_installed(disk, s.root, s.entries)).len();
    if deciding(s) {
        &&& s.report.kept_linked <= installed
        &&& s.policy.over_size(s.total) && s.report.stopped_early is None
            ==> s.report.kept_linked == installed
        &&& s.policy.max_bytes is None && s.report.kept_busy.len() == 0 ==> {
            &&& s.report.removed == keys_of(
                known,
                is_old(disk, s.root, s.entries, s.policy, s.now, false),
            )
            &&& s.report.kept_linked == keys_of(
                known,
                is_old(disk, s.root, s.entries, s.policy, s.now, true),
            ).len()
            &&& s.report.stopped_early is None
        }
    } else {
        s.report.removed.len() == 0 && s.report.kept_linked == 0 && s.report.stopped_early is None
    }
}

/// The decision at `at` is made; on to the next.
#[verifier::rlimit(40)]
proof fn lemma_counts_go_on(disk: Disk, s: GcView, t: GcView, at: int)
    requires
        0 <= at < s.entries.len() <= usize::MAX,
        t.entries == s.entries,
        t.root == s.root,
        t.policy == s.policy,
        t.now == s.now,
        t.total <= s.total,
        counts_keep(disk, s),
        deciding(s),
        s.phase != GcPhase::Finished,
        decided(s) == at,
        s.report.stopped_early is None,
        t.report.stopped_early is None,
        s.policy.unwanted(s.total, s.now, s.entries[at].last_used),
        t.report.kept_busy.len() == s.report.kept_busy.len() ==> if linked(
            disk,
            s.root,
            s.entries,
            s.entries[at].key,
        ) {
            &&& t.report.removed == s.report.removed
            &&& t.report.kept_linked == s.report.kept_linked + 1
        } else {
            &&& t.report.removed == s.report.removed.push(s.entries[at].key)
            &&& t.report.kept_linked == s.report.kept_linked
        },
        t.report.kept_busy.len() != s.report.kept_busy.len() ==> {
            &&& t.report.kept_busy.len() > 0
            &&& !linked(disk, s.root, s.entries, s.entries[at].key)
            &&& t.report.kept_linked == s.report.kept_linked
        },
    ensures
        counts_keep(disk, t.go_on(at + 1)),
{
    let es = s.entries;
    let next = t.go_on(at + 1);
    gc_laws::lemma_go_on(t, at + 1);
    gc::lemma_next_unwanted(t.policy, es, t.total, t.now, at + 1);
    let to = decided(next);
    assert(to == gc::next_unwanted(t.policy, es, t.total, t.now, at + 1) || to == es.len());
    assert(next.phase == GcPhase::Finished ==> gc::next_unwanted(
        t.policy,
        es,
        t.total,
        t.now,
        at + 1,
    ) >= es.len());
    let f = is_installed(disk, s.root, s.entries);
    let old = is_old(disk, s.root, s.entries, s.policy, s.now, false);
    let kept = is_old(disk, s.root, s.entries, s.policy, s.now, true);
    lemma_keys_next(es, f, at);
    lemma_keys_next(es, old, at);
    lemma_keys_next(es, kept, at);
    lemma_keys_grow(es, f, at + 1, to);
    if s.policy.max_bytes is None {
        assert forall|i: int| at + 1 <= i < to implies !old(#[trigger] es[i]) && !kept(es[i]) by {
            assert(!t.policy.unwanted(t.total, t.now, es[i].last_used));
        }
        lemma_keys_skipped(es, old, at + 1, to);
        lemma_keys_skipped(es, kept, at + 1, to);
    }
}

proof fn lemma_keys_grow(es: Seq<EntryView>, f: spec_fn(EntryView) -> bool, a: int, b: int)
    requires
        0 <= a <= b <= es.len(),
    ensures
        keys_of(es.take(a), f).len() <= keys_of(es.take(b), f).len(),
    decreases b - a,
{
    if a < b {
        lemma_keys_grow(es, f, a, b - 1);
        lemma_keys_next(es, f, b - 1);
    }
}

#[verifier::spinoff_prover]
#[verifier::rlimit(60)]
proof fn lemma_counts_step(
    disk: Disk,
    start: GcView,
    s: GcView,
    w: Visible,
    step: Step<Visible>,
)
    requires
        s.phase != GcPhase::Listing,
        run_keeps(disk, start, s, w.0),
        links_keep(disk, s, w.0),
        records_apart(disk, s.root, s.entries),
        counts_keep(disk, s),
        procedure::can_step::<Visible, Gc>(s, w, step),
    ensures
        counts_keep(disk, Gc::after(s, step.reply)),
{
    let next = Gc::after(s, step.reply);
    let es = s.entries;
    match s.phase {
        GcPhase::Dating => {
            if let ReplyView::Time(now) = step.reply {
                let t = GcView {
                    now,
                    report: GcReportView::empty(s.total, s.policy.dry_run),
                    ..s
                };
                gc_laws::lemma_go_on(t, 0);
                gc::lemma_next_unwanted(t.policy, es, t.total, t.now, 0);
                let to = decided(next);
                let f = is_installed(disk, s.root, s.entries);
                let old = is_old(disk, s.root, s.entries, s.policy, now, false);
                let kept = is_old(disk, s.root, s.entries, s.policy, now, true);
                assert(es.take(0) =~= seq![]);
                lemma_keys_grow(es, f, 0, to);
                if s.policy.max_bytes is None {
                    assert forall|i: int| 0 <= i < to implies !old(#[trigger] es[i]) && !kept(
                        es[i],
                    ) by {
                        assert(!t.policy.unwanted(t.total, t.now, es[i].last_used));
                    }
                    lemma_keys_skipped(es, old, 0, to);
                    lemma_keys_skipped(es, kept, 0, to);
                }
            }
        },
        GcPhase::Checking { at } => {
            if next.phase is Sizing {
            } else if let ReplyView::Stat(st) = step.reply {
                assert(w.0.reports(s.blob(at), st));
                lemma_links_are_installs(disk, start, s, w.0, at);
                let t = GcView {
                    report: GcReportView {
                        kept_linked: s.report.kept_linked.wrapping_add(1),
                        ..s.report
                    },
                    ..s
                };
                lemma_counts_go_on(disk, s, t, at as int);
            }
        },
        GcPhase::Sizing { at } => {
            if (step.reply is Stat || step.reply is Failed) && s.policy.dry_run {
                let claimed = if let ReplyView::Stat(st) = step.reply {
                    st.allocated
                } else {
                    es[at as int].actual_bytes
                };
                lemma_counts_evicted(disk, s, s, at, claimed);
            }
        },
        GcPhase::Removing { at, claimed } => {
            if next.phase is Forgetting {
            } else if step.reply is Failed {
                let t = GcView {
                    report: GcReportView {
                        kept_busy: s.report.kept_busy.push(es[at as int].key),
                        ..s.report
                    },
                    ..s
                };
                lemma_counts_go_on(disk, s, t, at as int);
            }
        },
        GcPhase::Forgetting { at, claimed } => {
            if (step.reply is Done || step.reply is Failed) && !(next.phase is Weighing) {
                lemma_counts_evicted(disk, s, s, at, claimed);
            }
        },
        GcPhase::Weighing { at, claimed } => {
            if let ReplyView::Space(free) = step.reply {
                if next.report.stopped_early is None {
                    let t = match free {
                        Some(f) => GcView { last_free: Some(f), ..s },
                        None => s,
                    };
                    lemma_counts_evicted(disk, s, t, at, claimed);
                } else {
                    assert(es.take(es.len() as int) =~= es);
                    lemma_keys_grow(es, is_installed(disk, s.root, s.entries), at as int, es.len() as int);
                }
            }
        },
        _ => {},
    }
}

proof fn lemma_counts_evicted(disk: Disk, s: GcView, t: GcView, at: usize, claimed: u64)
    requires
        at < s.entries.len() <= usize::MAX,
        counts_keep(disk, s),
        condemned(s) == Some(at),
        !linked(disk, s.root, s.entries, s.entries[at as int].key),
        s.report.stopped_early is None,
        s.policy.unwanted(s.total, s.now, s.entries[at as int].last_used),
        t == (GcView { last_free: t.last_free, ..s }),
    ensures
        counts_keep(disk, t.evicted(at, claimed)),
{
    let u = GcView {
        total: t.total.saturating_sub(claimed),
        report: t.report.with_removed(t.entries[at as int].key, claimed),
        ..t
    };
    lemma_counts_go_on(disk, s, u, at as int);
}

proof fn lemma_counts_run(
    root: Seq<u8>,
    policy: GcPolicy,
    disk: Disk,
    steps: Seq<Step<Visible>>,
)
    requires
        procedure::runs::<Visible, Gc>(GcView::start(root, policy), Visible(disk), steps),
        ({
            let es = procedure::state_after::<Visible, Gc>(
                GcView::start(root, policy),
                steps,
            ).entries;
            records_apart(disk, root, es)
        }),
    ensures
        counts_keep(
            disk,
            procedure::state_after::<Visible, Gc>(GcView::start(root, policy), steps),
        ),
{
    let start = GcView::start(root, policy);
    let inv = |s: GcView, w: Visible|
        {
            &&& run_keeps(disk, start, s, w.0)
            &&& links_keep(disk, s, w.0)
            &&& s.phase is Listing ==> counts_keep(disk, s)
            &&& records_apart(disk, root, s.entries) ==> counts_keep(disk, s)
        };
    assert forall|s: GcView, w: Visible, step: Step<Visible>| #[trigger]
        procedure::can_step::<Visible, Gc>(s, w, step) && inv(s, w) implies inv(
        Gc::after(s, step.reply),
        step.world,
    ) by {
        lemma_links_step(disk, start, s, w, step);
        let next = Gc::after(s, step.reply);
        if s.phase != GcPhase::Listing {
            assert(next.entries == s.entries);
            if records_apart(disk, root, s.entries) {
                lemma_counts_step(disk, start, s, w, step);
            }
        }
    }
    procedure::lemma_invariant::<Visible, Gc>(inv, start, Visible(disk), steps);
}

/// As many images are reported as kept for being installed as there are such
/// images, at the most, and just as many if the store is over its size to the
/// end.
///
/// Records that are names of images are left out, and files that are there but
/// cannot be looked at.
pub proof fn lemma_installed_images_are_counted(
    root: Seq<u8>,
    policy: GcPolicy,
    disk: Disk,
    steps: Seq<Step<Visible>>,
)
    requires
        procedure::runs::<Visible, Gc>(GcView::start(root, policy), Visible(disk), steps),
        ({
            let es = procedure::state_after::<Visible, Gc>(
                GcView::start(root, policy),
                steps,
            ).entries;
            records_apart(disk, root, es)
        }),
    ensures
        ({
            let end = procedure::state_after::<Visible, Gc>(GcView::start(root, policy), steps);
            let installed = keys_of(end.entries, is_installed(disk, root, end.entries)).len();
            end.outcome() matches Some(Ok(report)) ==> {
                &&& report.kept_linked <= installed
                &&& policy.over_size(end.total) && report.stopped_early is None
                    ==> report.kept_linked == installed
            }
        }),
{
    lemma_counts_run(root, policy, disk, steps);
    lemma_links_run(root, policy, disk, steps);
    let end = procedure::state_after::<Visible, Gc>(GcView::start(root, policy), steps);
    assert(end.entries.take(end.entries.len() as int) =~= end.entries);
}

/// Under a limit on the age alone, and where every removal succeeds, just the
/// images that have gone unused for longer and are not installed are removed,
/// the least recently used first, and the installed ones among the old are
/// counted. It never stops early.
///
/// Records that are names of images are left out, and files that are there but
/// cannot be looked at.
pub proof fn lemma_old_images_go(
    root: Seq<u8>,
    policy: GcPolicy,
    disk: Disk,
    steps: Seq<Step<Visible>>,
)
    requires
        policy.max_bytes is None,
        procedure::runs::<Visible, Gc>(GcView::start(root, policy), Visible(disk), steps),
        ({
            let es = procedure::state_after::<Visible, Gc>(
                GcView::start(root, policy),
                steps,
            ).entries;
            records_apart(disk, root, es)
        }),
        procedure::state_after::<Visible, Gc>(
            GcView::start(root, policy),
            steps,
        ).outcome() matches Some(Ok(report)) && report.kept_busy.len() == 0,
    ensures
        ({
            let end = procedure::state_after::<Visible, Gc>(GcView::start(root, policy), steps);
            let report = end.report;
            &&& report.removed == keys_of(
                end.entries,
                is_old(disk, root, end.entries, policy, end.now, false),
            )
            &&& report.kept_linked == keys_of(
                end.entries,
                is_old(disk, root, end.entries, policy, end.now, true),
            ).len()
            &&& report.stopped_early is None
            &&& distinct_keys(end.entries) ==> forall|i: int|
                0 <= i < end.entries.len() ==> {
                    let e = #[trigger] end.entries[i];
                    report.removed.contains(e.key) <==> policy.too_old(end.now, e.last_used)
                        && !linked(disk, root, end.entries, e.key)
                }
        }),
{
    lemma_counts_run(root, policy, disk, steps);
    lemma_links_run(root, policy, disk, steps);
    let end = procedure::state_after::<Visible, Gc>(GcView::start(root, policy), steps);
    assert(end.entries.take(end.entries.len() as int) =~= end.entries);
    if distinct_keys(end.entries) {
        assert forall|i: int| 0 <= i < end.entries.len() implies {
            let e = #[trigger] end.entries[i];
            end.report.removed.contains(e.key) <==> policy.too_old(end.now, e.last_used)
                && !linked(disk, root, end.entries, e.key)
        } by {
            lemma_keys_of_contains(
                end.entries,
                is_old(disk, root, end.entries, policy, end.now, false),
                i,
            );
        }
    }
}

/// The records that have a property are just those whose keys are listed.
pub proof fn lemma_keys_of_contains(
    es: Seq<EntryView>,
    f: spec_fn(EntryView) -> bool,
    i: int,
)
    requires
        distinct_keys(es),
        0 <= i < es.len(),
    ensures
        keys_of(es, f).contains(es[i].key) <==> f(es[i]),
    decreases es.len(),
{
    lemma_keys_among(es, f, es[i].key);
    if f(es[i]) {
        lemma_keys_hold(es, f, i);
    } else if keys_of(es, f).contains(es[i].key) {
        let j = choose|j: int| 0 <= j < es.len() && f(#[trigger] es[j]) && es[j].key == es[i].key;
        assert(i == j);
    }
}

proof fn lemma_keys_among(es: Seq<EntryView>, f: spec_fn(EntryView) -> bool, key: Seq<char>)
    ensures
        keys_of(es, f).contains(key) ==> exists|j: int|
            0 <= j < es.len() && f(#[trigger] es[j]) && es[j].key == key,
    decreases es.len(),
{
    if es.len() > 0 && keys_of(es, f).contains(key) {
        let front = es.drop_last();
        lemma_keys_among(front, f, key);
        let keys = keys_of(es, f);
        let n = choose|n: int| 0 <= n < keys.len() && keys[n] == key;
        if f(es.last()) && n == keys.len() - 1 {
            assert(es[es.len() - 1].key == key);
        } else {
            assert(keys_of(front, f)[n] == key);
            let j = choose|j: int| 0 <= j < front.len() && f(#[trigger] front[j]) && front[j].key
                == key;
            assert(es[j] == front[j]);
        }
    }
}

proof fn lemma_keys_hold(es: Seq<EntryView>, f: spec_fn(EntryView) -> bool, i: int)
    requires
        0 <= i < es.len(),
        f(es[i]),
    ensures
        keys_of(es, f).contains(es[i].key),
    decreases es.len(),
{
    let front = es.drop_last();
    let keys = keys_of(es, f);
    if i == es.len() - 1 {
        assert(keys[keys.len() - 1] == es[i].key);
    } else {
        lemma_keys_hold(front, f, i);
        let less = keys_of(front, f);
        let n = choose|n: int| 0 <= n < less.len() && less[n] == front[i].key;
        assert(keys[n] == es[i].key);
    }
}

} // verus!
