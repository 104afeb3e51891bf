//! What an eviction comes to on a disk where images occupy what they occupy:
//! how much is freed, which images have to go for it, and when it is given up.

use super::gc::{self, Gc, GcPhase, GcPolicy, GcReportView, GcView};
use super::gc_exact::{
    self, belongs, belongs_to_any, condemned, distinct_images, distinct_keys, distinct_records,
    is_kept, keys_of, linked, records_apart, run_keeps,
};
use super::gc_laws::{self, deciding, decided, position};
use super::{laws, EntryView};
use crate::disk::{Disk, FileId, Visible};
use crate::error::IoKind;
use crate::host::{Reply, ReplyView, Request, RequestView};
use crate::procedure::{self, Procedure, Step, World};
use crate::store;
use vstd::prelude::*;

verus! {

/// Files that can be looked at, each of which occupies the same number of
/// bytes all along.
pub struct Settled {
    pub disk: Disk,
    pub sizes: Map<FileId, u64>,
}

impl World for Settled {
    type Request = Request;

    type Reply = Reply;

    open spec fn allows(self, request: RequestView, reply: ReplyView, after: Settled) -> bool {
        &&& Visible(self.disk).allows(request, reply, Visible(after.disk))
        &&& after.sizes == self.sizes
        &&& (request, reply) matches (RequestView::Stat(p), ReplyView::Stat(s)) ==> s.allocated
            == self.sizes[self.disk.names[p]]
    }
}

/// What the image of a record occupies; where there is none, what the record
/// says.
pub open spec fn live(w: Settled, root: Seq<u8>, e: EntryView) -> u64 {
    let blob = store::blob_path(root, e.key);
    if w.disk.holds(blob) {
        w.sizes[w.disk.names[blob]]
    } else {
        e.actual_bytes
    }
}

/// What the images of some records occupy together.
pub open spec fn live_total(w: Settled, root: Seq<u8>, es: Seq<EntryView>) -> nat
    decreases es.len(),
{
    if es.len() == 0 {
        0
    } else {
        live_total(w, root, es.drop_last()) + live(w, root, es.last()) as nat
    }
}

/// What the images at some positions occupy together.
pub open spec fn live_at(w: Settled, root: Seq<u8>, es: Seq<EntryView>, idx: Seq<int>) -> nat
    decreases idx.len(),
{
    if idx.len() == 0 {
        0
    } else {
        live_at(w, root, es, idx.drop_last()) + live(w, root, es[idx.last()]) as nat
    }
}

proof fn lemma_live_next(w: Settled, root: Seq<u8>, es: Seq<EntryView>, i: int)
    requires
        0 <= i < es.len(),
    ensures
        live_total(w, root, es.take(i + 1)) == live_total(w, root, es.take(i)) + live(
            w,
            root,
            es[i],
        ),
{
    assert(es.take(i + 1).drop_last() =~= es.take(i));
}

proof fn lemma_live_split(w: Settled, root: Seq<u8>, es: Seq<EntryView>, i: int)
    requires
        0 <= i <= es.len(),
    ensures
        live_total(w, root, es) == live_total(w, root, es.take(i)) + live_total(
            w,
            root,
            es.skip(i),
        ),
    decreases es.len(),
{
    if i == es.len() {
        assert(es.take(i) =~= es);
        assert(es.skip(i) =~= seq![]);
    } else {
        let front = es.drop_last();
        lemma_live_split(w, root, front, i);
        assert(front.take(i) =~= es.take(i));
        assert(es.skip(i).drop_last() =~= front.skip(i));
        assert(es.skip(i).last() == es.last());
    }
}

// ---------------------------------------------------------------------------
// What holds all along
// ---------------------------------------------------------------------------
/// Whether a key is that of one of the first `n` records.
pub open spec fn among(es: Seq<EntryView>, n: int, key: Seq<char>) -> bool {
    exists|p: int| 0 <= p < n && (#[trigger] es[p]).key == key
}

/// Whether no key is reported twice, and those that are reported have been
/// decided upon.
spec fn reported_once(s: GcView) -> bool {
    let removed = s.report.removed;
    let busy = s.report.kept_busy;
    &&& removed.no_duplicates()
    &&& busy.no_duplicates()
    &&& forall|i: int, j: int|
        0 <= i < removed.len() && 0 <= j < busy.len() ==> #[trigger] removed[i]
            != #[trigger] busy[j]
    &&& forall|i: int|
        0 <= i < removed.len() ==> among(s.entries, decided(s), #[trigger] removed[i])
    &&& forall|j: int| 0 <= j < busy.len() ==> among(s.entries, decided(s), #[trigger] busy[j])
    &&& !deciding(s) ==> removed.len() == 0 && busy.len() == 0
}

proof fn lemma_among_fewer(es: Seq<EntryView>, n: int, m: int, key: Seq<char>)
    requires
        n <= m,
        among(es, n, key),
    ensures
        among(es, m, key),
{
    let p = choose|p: int| 0 <= p < n && (#[trigger] es[p]).key == key;
    assert(es[p].key == key);
}

#[verifier::spinoff_prover]
#[verifier::rlimit(60)]
proof fn lemma_reported_once_step(start: GcView, s: GcView, reply: ReplyView)
    requires
        gc_laws::report_keeps(start, s),
        distinct_keys(s.entries),
        reported_once(s),
        s.phase != GcPhase::Listing,
        gc_laws::report_keeps(start, Gc::after(s, reply)),
    ensures
        reported_once(Gc::after(s, reply)),
{
    let next = Gc::after(s, reply);
    let es = s.entries;
    assert(next.entries == es);
    if deciding(s) && s.phase != GcPhase::Finished {
        let at = decided(s);
        let key = es[at].key;
        lemma_later(s, reply);
        assert(at <= decided(next));
        assert forall|i: int| 0 <= i < s.report.removed.len() implies s.report.removed[i] != key
            && among(es, decided(next), #[trigger] s.report.removed[i]) by {
            assert(among(es, at, s.report.removed[i]));
            lemma_among_fewer(es, at, decided(next), s.report.removed[i]);
        }
        assert forall|j: int| 0 <= j < s.report.kept_busy.len() implies s.report.kept_busy[j] != key
            && among(es, decided(next), #[trigger] s.report.kept_busy[j]) by {
            assert(among(es, at, s.report.kept_busy[j]));
            lemma_among_fewer(es, at, decided(next), s.report.kept_busy[j]);
        }
        if next.report.removed != s.report.removed {
            assert(next.report.removed == s.report.removed.push(key));
            assert(next.report.kept_busy == s.report.kept_busy);
            assert(es[at].key == key && at < decided(next));
            assert(among(es, decided(next), key));
        } else if next.report.kept_busy != s.report.kept_busy {
            assert(next.report.kept_busy == s.report.kept_busy.push(key));
            assert(es[at].key == key && at < decided(next));
            assert(among(es, decided(next), key));
        }
    }
}

/// A decision that is made is not made again.
proof fn lemma_later(s: GcView, reply: ReplyView)
    requires
        deciding(s),
        s.phase != GcPhase::Finished,
        position(s) matches Some(at) && at < s.entries.len() <= usize::MAX,
    ensures
        ({
            let next = Gc::after(s, reply);
            &&& decided(s) <= decided(next) <= s.entries.len()
            &&& next.report.removed != s.report.removed || next.report.kept_busy
                != s.report.kept_busy ==> decided(s) < decided(next)
            &&& next.report.removed == s.report.removed || next.report.removed
                == s.report.removed.push(s.entries[decided(s)].key) && next.report.kept_busy
                == s.report.kept_busy
            &&& next.report.kept_busy == s.report.kept_busy || next.report.kept_busy
                == s.report.kept_busy.push(s.entries[decided(s)].key) && next.report.removed
                == s.report.removed
        }),
{
    let at = decided(s);
    gc::lemma_next_unwanted(s.policy, s.entries, s.total, s.now, at + 1);
    match s.phase {
        GcPhase::Sizing { .. } => {
            if let ReplyView::Stat(st) = reply {
                let total = s.total.saturating_sub(st.allocated);
                gc::lemma_next_unwanted(s.policy, s.entries, total, s.now, at + 1);
            } else {
                let total = s.total.saturating_sub(s.entries[at].actual_bytes);
                gc::lemma_next_unwanted(s.policy, s.entries, total, s.now, at + 1);
            }
        },
        GcPhase::Forgetting { claimed, .. } => {
            let total = s.total.saturating_sub(claimed);
            gc::lemma_next_unwanted(s.policy, s.entries, total, s.now, at + 1);
        },
        GcPhase::Weighing { claimed, .. } => {
            let total = s.total.saturating_sub(claimed);
            gc::lemma_next_unwanted(s.policy, s.entries, total, s.now, at + 1);
        },
        _ => {},
    }
}

/// What was claimed for the image that is about to go.
spec fn claim(s: GcView) -> Option<u64> {
    match s.phase {
        GcPhase::Removing { claimed, .. } => Some(claimed),
        GcPhase::Forgetting { claimed, .. } => Some(claimed),
        GcPhase::Weighing { claimed, .. } => Some(claimed),
        _ => None,
    }
}

/// Whether `idx` are the positions of the removed images, which occupied what
/// is reported as freed.
pub open spec fn freed_from(first: Settled, s: GcView, idx: Seq<int>) -> bool {
    &&& gc_laws::chosen(s, idx)
    &&& s.report.freed_bytes == live_at(first, s.root, s.entries, idx)
}

spec fn sizes_keep(first: Settled, s: GcView, w: Settled) -> bool {
    let es = s.entries;
    let all = live_total(first, s.root, es);
    let rest = live_total(first, s.root, es.skip(decided(s)));
    &&& w.sizes == first.sizes
    &&& !deciding(s) ==> w.disk == first.disk
    &&& match s.phase {
        GcPhase::Listing => s.total == 0,
        GcPhase::Measuring { at } => s.total == live_total(first, s.root, es.take(at as int)),
        GcPhase::Dating => s.total == all,
        GcPhase::Failed => true,
        _ => {
            &&& s.report.total_before == all
            &&& exists|idx: Seq<int>| #[trigger] freed_from(first, s, idx)
            &&& s.report.freed_bytes + rest <= all
            &&& s.report.stopped_early is None ==> s.total + s.report.freed_bytes == all
            &&& claim(s) matches Some(claimed) ==> claimed == live(first, s.root, es[decided(s)])
        },
    }
}

/// Records without an image in common have no key in common.
proof fn lemma_keys_are_distinct(root: Seq<u8>, es: Seq<EntryView>)
    requires
        distinct_images(root, es) || distinct_records(root, es),
    ensures
        distinct_keys(es),
{
}

/// An image has not been touched before its size is asked for.
proof fn lemma_live_is_seen(first: Settled, start: GcView, s: GcView, w: Settled, at: usize)
    requires
        distinct_images(s.root, s.entries),
        run_keeps(first.disk, start, s, w.disk),
        reported_once(s),
        w.sizes == first.sizes,
        s.phase == (GcPhase::Sizing { at }),
    ensures
        live(w, s.root, s.entries[at as int]) == live(first, s.root, s.entries[at as int]),
{
    let key = s.entries[at as int].key;
    let blob = store::blob_path(s.root, key);
    if first.disk.holds(blob) && !w.disk.holds(blob) {
        let removed = s.report.removed;
        assert(belongs_to_any(s.root, removed, blob));
        let i = choose|i: int|
            0 <= i < removed.len() && belongs(s.root, #[trigger] removed[i], blob);
        laws::lemma_names_differ(s.root, key, removed[i], s.root);
        assert(among(s.entries, at as int, removed[i]));
        let p = choose|p: int| 0 <= p < at && (#[trigger] s.entries[p]).key == removed[i];
        assert(store::blob_path(s.root, s.entries[p].key) != store::blob_path(
            s.root,
            s.entries[at as int].key,
        ));
    }
}

#[verifier::rlimit(40)]
proof fn lemma_sizes_evicted(
    first: Settled,
    start: GcView,
    s: GcView,
    t: GcView,
    w: Settled,
    at: usize,
    claimed: u64,
)
    requires
        gc_laws::report_keeps(start, s),
        sizes_keep(first, s, w),
        live_total(first, s.root, s.entries) <= u64::MAX,
        condemned(s) == Some(at),
        s.report.stopped_early is None,
        claimed == live(first, s.root, s.entries[at as int]),
        t == (GcView { last_free: t.last_free, ..s }),
    ensures
        sizes_keep(first, t.evicted(at, claimed), w),
{
    let es = s.entries;
    let root = s.root;
    let u = GcView {
        total: t.total.saturating_sub(claimed),
        report: t.report.with_removed(es[at as int].key, claimed),
        ..t
    };
    let next = t.evicted(at, claimed);
    assert(next == u.go_on(at + 1));
    gc_laws::lemma_go_on(u, at + 1);
    lemma_rest(first, root, es, at as int, at + 1);
    lemma_rest(first, root, es, at + 1, decided(next));
    let idx = choose|idx: Seq<int>| #[trigger] freed_from(first, s, idx);
    let more = idx.push(at as int);
    assert(more.drop_last() =~= idx);
    assert(gc_laws::chosen(next, more));
    assert(freed_from(first, next, more));
}

/// What is behind a position occupies no less than what is behind a later one,
/// and more by the image at it.
proof fn lemma_rest(w: Settled, root: Seq<u8>, es: Seq<EntryView>, a: int, b: int)
    requires
        0 <= a <= b <= es.len(),
    ensures
        live_total(w, root, es.skip(a)) >= live_total(w, root, es.skip(b)),
        b == a + 1 ==> live_total(w, root, es.skip(a)) == live(w, root, es[a]) + live_total(
            w,
            root,
            es.skip(b),
        ),
    decreases b - a,
{
    if a < b {
        lemma_rest(w, root, es, a + 1, b);
        lemma_live_split(w, root, es, a);
        lemma_live_split(w, root, es, a + 1);
        lemma_live_next(w, root, es, a);
    }
}

proof fn lemma_sizes_skipped(
    first: Settled,
    start: GcView,
    s: GcView,
    w: Settled,
    at: usize,
    report: GcReportView,
)
    requires
        gc_laws::report_keeps(start, s),
        sizes_keep(first, s, w),
        s.phase is Checking || s.phase is Removing,
        position(s) == Some(at),
        report.removed == s.report.removed,
        report.freed_bytes == s.report.freed_bytes,
        report.total_before == s.report.total_before,
        report.stopped_early is None,
        s.report.stopped_early is None,
    ensures
        sizes_keep(first, GcView { report, ..s }.go_on(at + 1), w),
{
    let t = GcView { report, ..s };
    let next = t.go_on(at + 1);
    gc_laws::lemma_go_on(t, at + 1);
    lemma_rest(first, s.root, s.entries, at as int, decided(next));
    let idx = choose|idx: Seq<int>| #[trigger] freed_from(first, s, idx);
    assert(gc_laws::chosen(next, idx));
    assert(freed_from(first, next, idx));
}

#[verifier::spinoff_prover]
#[verifier::rlimit(60)]
proof fn lemma_sizes_step(
    first: Settled,
    start: GcView,
    s: GcView,
    w: Settled,
    step: Step<Settled>,
)
    requires
        s.phase != GcPhase::Listing,
        distinct_images(s.root, s.entries),
        run_keeps(first.disk, start, s, w.disk),
        reported_once(s),
        sizes_keep(first, s, w),
        live_total(first, s.root, s.entries) <= u64::MAX,
        procedure::can_step::<Settled, Gc>(s, w, step),
    ensures
        sizes_keep(first, Gc::after(s, step.reply), step.world),
{
    let next = Gc::after(s, step.reply);
    let es = s.entries;
    let root = s.root;
    match s.phase {
        GcPhase::Measuring { at } => {
            if step.reply is Stat || step.reply is Failed {
                let bytes = if let ReplyView::Stat(st) = step.reply {
                    st.allocated
                } else {
                    es[at as int].actual_bytes
                };
                assert(bytes == live(first, root, es[at as int]));
                lemma_live_next(first, root, es, at as int);
                lemma_live_split(first, root, es, at + 1);
                assert(es.take(es.len() as int) =~= es);
            }
        },
        GcPhase::Dating => {
            if let ReplyView::Time(now) = step.reply {
                let t = GcView {
                    now,
                    report: GcReportView::empty(s.total, s.policy.dry_run),
                    ..s
                };
                gc_laws::lemma_go_on(t, 0);
                lemma_rest(first, root, es, 0, decided(next));
                assert(es.skip(0) =~= es);
                assert(gc_laws::chosen(next, Seq::<int>::empty()));
                assert(freed_from(first, next, Seq::<int>::empty()));
            }
        },
        GcPhase::Checking { at } => {
            if next.phase is Sizing {
                let idx = choose|idx: Seq<int>| #[trigger] freed_from(first, s, idx);
                assert(gc_laws::chosen(next, idx));
                assert(freed_from(first, next, idx));
            } else if step.reply is Stat {
                let report = GcReportView {
                    kept_linked: s.report.kept_linked.wrapping_add(1),
                    ..s.report
                };
                lemma_sizes_skipped(first, start, s, w, at, report);
            }
        },
        GcPhase::Sizing { at } => {
            if step.reply is Stat || step.reply is Failed {
                let claimed = if let ReplyView::Stat(st) = step.reply {
                    st.allocated
                } else {
                    es[at as int].actual_bytes
                };
                lemma_live_is_seen(first, start, s, w, at);
                assert(claimed == live(w, root, es[at as int]));
                if s.policy.dry_run {
                    lemma_sizes_evicted(first, start, s, s, w, at, claimed);
                } else {
                    let idx = choose|idx: Seq<int>| #[trigger] freed_from(first, s, idx);
                    assert(gc_laws::chosen(next, idx));
                    assert(freed_from(first, next, idx));
                }
            }
        },
        GcPhase::Removing { at, claimed } => {
            if next.phase is Forgetting {
                let idx = choose|idx: Seq<int>| #[trigger] freed_from(first, s, idx);
                assert(gc_laws::chosen(next, idx));
                assert(freed_from(first, next, idx));
            } else if step.reply is Failed {
                let report = GcReportView {
                    kept_busy: s.report.kept_busy.push(es[at as int].key),
                    ..s.report
                };
                lemma_sizes_skipped(first, start, s, w, at, report);
            }
        },
        GcPhase::Forgetting { at, claimed } => {
            if step.reply is Done || step.reply is Failed {
                if next.phase is Weighing {
                    let idx = choose|idx: Seq<int>| #[trigger] freed_from(first, s, idx);
                    assert(gc_laws::chosen(next, idx));
                    assert(freed_from(first, next, idx));
                } else {
                    lemma_sizes_evicted(first, start, s, s, w, at, claimed);
                }
            }
        },
        GcPhase::Weighing { at, claimed } => {
            if let ReplyView::Space(free) = step.reply {
                let idx = choose|idx: Seq<int>| #[trigger] freed_from(first, s, idx);
                if next.report.stopped_early is Some {
                    lemma_rest(first, root, es, at as int, at + 1);
                    assert(es.skip(es.len() as int) =~= seq![]);
                    let more = idx.push(at as int);
                    assert(more.drop_last() =~= idx);
                    assert(gc_laws::chosen(next, more));
                    assert(freed_from(first, next, more));
                } else {
                    let t = match free {
                        Some(f) => GcView { last_free: Some(f), ..s },
                        None => s,
                    };
                    lemma_sizes_evicted(first, start, s, t, w, at, claimed);
                }
            }
        },
        _ => {},
    }
}

// ---------------------------------------------------------------------------
// Under a limit on the size
// ---------------------------------------------------------------------------
/// The records of images that are not installed.
pub open spec fn is_loose(disk: Disk, root: Seq<u8>, es: Seq<EntryView>) -> spec_fn(
    EntryView,
) -> bool {
    |e: EntryView| !linked(disk, root, es, e.key)
}

/// What the images that are not installed, among the first `n`, occupy together.
pub open spec fn loose_total(w: Settled, root: Seq<u8>, es: Seq<EntryView>, n: int) -> nat
    decreases n,
{
    if n <= 0 {
        0
    } else if linked(w.disk, root, es, es[n - 1].key) {
        loose_total(w, root, es, n - 1)
    } else {
        loose_total(w, root, es, n - 1) + live(w, root, es[n - 1]) as nat
    }
}

/// What is left when those of the first `n` images that are not installed are
/// gone.
pub open spec fn left(w: Settled, root: Seq<u8>, es: Seq<EntryView>, n: int) -> int {
    live_total(w, root, es) - loose_total(w, root, es, n)
}

/// Whether just those of the first `n` images that are not installed have been
/// removed, and what was left was too much before each of them.
pub open spec fn oldest_gone(first: Settled, s: GcView, n: int) -> bool {
    &&& 0 <= n <= s.entries.len()
    &&& s.report.removed == keys_of(
        s.entries.take(n),
        is_loose(first.disk, s.root, s.entries),
    )
    &&& forall|j: int|
        0 <= j < n ==> #[trigger] left(first, s.root, s.entries, j) > s.policy.max_bytes->0
}

/// Whether that is so, and it was enough or all that could be done.
pub open spec fn enough_gone(first: Settled, s: GcView, n: int) -> bool {
    &&& oldest_gone(first, s, n)
    &&& left(first, s.root, s.entries, n) <= s.policy.max_bytes->0 || n == s.entries.len()
}

spec fn oldest_go(first: Settled, s: GcView) -> bool {
    deciding(s) && s.report.kept_busy.len() == 0 && s.report.stopped_early is None ==> {
        if s.phase == GcPhase::Finished {
            exists|n: int| #[trigger] enough_gone(first, s, n)
        } else {
            &&& oldest_gone(first, s, decided(s))
            &&& s.total == left(first, s.root, s.entries, decided(s))
        }
    }
}

proof fn lemma_oldest_go_on(first: Settled, t: GcView, from: int)
    requires
        0 <= from <= t.entries.len() <= usize::MAX,
        t.policy.max_bytes is Some,
        t.policy.keep_secs is None,
        t.report.stopped_early is None,
        t.total == left(first, t.root, t.entries, from),
        oldest_gone(first, t, from),
    ensures
        oldest_go(first, t.go_on(from)),
{
    gc_laws::lemma_go_on(t, from);
    let next = t.go_on(from);
    if next.phase == GcPhase::Finished {
        assert(enough_gone(first, next, from));
    }
}

/// One more decision is made.
proof fn lemma_oldest_next(first: Settled, s: GcView, t: GcView, at: int)
    requires
        0 <= at < s.entries.len(),
        s.policy.over_size(s.total),
        s.policy.max_bytes is Some,
        oldest_gone(first, s, at),
        s.total == left(first, s.root, s.entries, at),
        t.root == s.root,
        t.entries == s.entries,
        t.policy == s.policy,
        t.report.removed == if linked(first.disk, s.root, s.entries, s.entries[at].key) {
            s.report.removed
        } else {
            s.report.removed.push(s.entries[at].key)
        },
    ensures
        oldest_gone(first, t, at + 1),
        left(first, t.root, t.entries, at + 1) == if linked(
            first.disk,
            s.root,
            s.entries,
            s.entries[at].key,
        ) {
            s.total as int
        } else {
            s.total - live(first, s.root, s.entries[at])
        },
{
    gc_exact::lemma_keys_next(s.entries, is_loose(first.disk, s.root, s.entries), at);
    assert forall|j: int| 0 <= j < at + 1 implies #[trigger] left(first, t.root, t.entries, j)
        > t.policy.max_bytes->0 by {
        assert(left(first, s.root, s.entries, j) > s.policy.max_bytes->0);
    }
}

#[verifier::rlimit(40)]
proof fn lemma_oldest_evicted(
    first: Settled,
    start: GcView,
    s: GcView,
    t: GcView,
    at: usize,
    claimed: u64,
)
    requires
        gc_laws::report_keeps(start, s),
        s.policy.max_bytes is Some,
        s.policy.keep_secs is None,
        !linked(first.disk, s.root, s.entries, s.entries[at as int].key),
        oldest_go(first, s),
        condemned(s) == Some(at),
        claimed == live(first, s.root, s.entries[at as int]),
        live(first, s.root, s.entries[at as int]) <= s.total,
        t == (GcView { last_free: t.last_free, ..s }),
    ensures
        oldest_go(first, t.evicted(at, claimed)),
{
    let es = s.entries;
    let next = t.evicted(at, claimed);
    assert(next.report.kept_busy == s.report.kept_busy);
    if s.report.kept_busy.len() == 0 {
        let u = GcView {
            total: t.total.saturating_sub(claimed),
            report: t.report.with_removed(es[at as int].key, claimed),
            ..t
        };
        lemma_oldest_next(first, s, u, at as int);
        lemma_oldest_go_on(first, u, at + 1);
    }
}

#[verifier::spinoff_prover]
#[verifier::rlimit(60)]
proof fn lemma_oldest_step(
    first: Settled,
    start: GcView,
    s: GcView,
    w: Settled,
    step: Step<Settled>,
)
    requires
        s.phase != GcPhase::Listing,
        s.policy.max_bytes is Some,
        s.policy.keep_secs is None,
        distinct_images(s.root, s.entries),
        records_apart(first.disk, s.root, s.entries),
        run_keeps(first.disk, start, s, w.disk),
        gc_exact::links_keep(first.disk, s, w.disk),
        reported_once(s),
        sizes_keep(first, s, w),
        live_total(first, s.root, s.entries) <= u64::MAX,
        oldest_go(first, s),
        procedure::can_step::<Settled, Gc>(s, w, step),
    ensures
        oldest_go(first, Gc::after(s, step.reply)),
{
    let next = Gc::after(s, step.reply);
    let es = s.entries;
    match s.phase {
        GcPhase::Dating => {
            if let ReplyView::Time(now) = step.reply {
                let t = GcView {
                    now,
                    report: GcReportView::empty(s.total, s.policy.dry_run),
                    ..s
                };
                assert(es.take(0) =~= seq![]);
                lemma_oldest_go_on(first, t, 0);
            }
        },
        GcPhase::Checking { at } => {
            if let ReplyView::Stat(st) = step.reply {
                assert(w.disk.reports(s.blob(at), st));
                if !(next.phase is Sizing) && s.report.kept_busy.len() == 0 {
                    gc_exact::lemma_links_are_installs(first.disk, start, s, w.disk, at);
                    let t = GcView {
                        report: GcReportView {
                            kept_linked: s.report.kept_linked.wrapping_add(1),
                            ..s.report
                        },
                        ..s
                    };
                    lemma_oldest_next(first, s, t, at as int);
                    lemma_oldest_go_on(first, t, at + 1);
                }
            }
        },
        GcPhase::Sizing { at } => {
            if (step.reply is Stat || step.reply is Failed) && s.policy.dry_run {
                let claimed = if let ReplyView::Stat(st) = step.reply {
                    st.allocated
                } else {
                    es[at as int].actual_bytes
                };
                lemma_live_is_seen(first, start, s, w, at);
                lemma_claim_fits(first, s, w, at);
                lemma_oldest_evicted(first, start, s, s, at, claimed);
            }
        },
        GcPhase::Forgetting { at, claimed } => {
            if (step.reply is Done || step.reply is Failed) && !(next.phase is Weighing) {
                lemma_claim_fits(first, s, w, at);
                lemma_oldest_evicted(first, start, s, s, at, claimed);
            }
        },
        GcPhase::Weighing { at, claimed } => {
            if let ReplyView::Space(free) = step.reply {
                if next.report.stopped_early is None {
                    let t = match free {
                        Some(f) => GcView { last_free: Some(f), ..s },
                        None => s,
                    };
                    lemma_claim_fits(first, s, w, at);
                    lemma_oldest_evicted(first, start, s, t, at, claimed);
                }
            }
        },
        _ => {},
    }
}

/// What an image occupies is part of what is left.
proof fn lemma_claim_fits(first: Settled, s: GcView, w: Settled, at: usize)
    requires
        at < s.entries.len(),
        condemned(s) == Some(at),
        s.report.stopped_early is None,
        sizes_keep(first, s, w),
    ensures
        live(first, s.root, s.entries[at as int]) <= s.total,
{
    lemma_rest(first, s.root, s.entries, at as int, at + 1);
}

// ---------------------------------------------------------------------------
// Runs
// ---------------------------------------------------------------------------
spec fn settled_keeps(first: Settled, start: GcView, s: GcView, w: Settled) -> bool {
    let es = s.entries;
    let fits = distinct_images(s.root, es) && live_total(first, s.root, es) <= u64::MAX;
    &&& run_keeps(first.disk, start, s, w.disk)
    &&& gc_exact::links_keep(first.disk, s, w.disk)
    &&& s.phase is Listing ==> s == start && w == first
    &&& distinct_images(s.root, es) ==> reported_once(s)
    &&& fits ==> sizes_keep(first, s, w)
    &&& fits && records_apart(first.disk, s.root, es) && start.policy.max_bytes is Some
        && start.policy.keep_secs is None ==> oldest_go(first, s)
}

proof fn lemma_settled_step(
    first: Settled,
    start: GcView,
    s: GcView,
    w: Settled,
    step: Step<Settled>,
)
    requires
        start == GcView::start(start.root, start.policy),
        settled_keeps(first, start, s, w),
        procedure::can_step::<Settled, Gc>(s, w, step),
    ensures
        settled_keeps(first, start, Gc::after(s, step.reply), step.world),
{
    let next = Gc::after(s, step.reply);
    let seen = Step::<Visible> { reply: step.reply, world: Visible(step.world.disk) };
    assert(procedure::can_step::<Visible, Gc>(s, Visible(w.disk), seen));
    gc_exact::lemma_links_step(first.disk, start, s, Visible(w.disk), seen);
    let es = next.entries;
    if s.phase == GcPhase::Listing {
        assert(es.take(0) =~= seq![]);
    } else {
        assert(es == s.entries && next.root == s.root);
        if distinct_images(s.root, es) {
            lemma_keys_are_distinct(s.root, es);
            lemma_reported_once_step(start, s, step.reply);
            if live_total(first, s.root, es) <= u64::MAX {
                lemma_sizes_step(first, start, s, w, step);
                if records_apart(first.disk, s.root, es) && start.policy.max_bytes is Some
                    && start.policy.keep_secs is None {
                    lemma_oldest_step(first, start, s, w, step);
                }
            }
        }
    }
}

proof fn lemma_settled_run(
    root: Seq<u8>,
    policy: GcPolicy,
    first: Settled,
    steps: Seq<Step<Settled>>,
)
    requires
        procedure::runs::<Settled, Gc>(GcView::start(root, policy), first, steps),
    ensures
        settled_keeps(
            first,
            GcView::start(root, policy),
            procedure::state_after::<Settled, Gc>(GcView::start(root, policy), steps),
            procedure::world_after(first, steps),
        ),
{
    let start = GcView::start(root, policy);
    let inv = |s: GcView, w: Settled| settled_keeps(first, start, s, w);
    assert forall|s: GcView, w: Settled, step: Step<Settled>| #[trigger]
        procedure::can_step::<Settled, Gc>(s, w, step) && inv(s, w) implies inv(
        Gc::after(s, step.reply),
        step.world,
    ) by {
        lemma_settled_step(first, start, s, w, step);
    }
    procedure::lemma_invariant::<Settled, Gc>(inv, start, first, steps);
}

/// What a report says in bytes is what the images occupy: all of them together
/// before, and those that were removed.
///
/// Records of one image are left out, files that are there but cannot be looked
/// at, and sums that do not fit into 64 bits.
pub proof fn lemma_reported_bytes_are_live(
    root: Seq<u8>,
    policy: GcPolicy,
    first: Settled,
    steps: Seq<Step<Settled>>,
)
    requires
        procedure::runs::<Settled, Gc>(GcView::start(root, policy), first, steps),
        ({
            let es = procedure::state_after::<Settled, Gc>(
                GcView::start(root, policy),
                steps,
            ).entries;
            distinct_images(root, es) && live_total(first, root, es) <= u64::MAX
        }),
    ensures
        ({
            let end = procedure::state_after::<Settled, Gc>(GcView::start(root, policy), steps);
            end.outcome() matches Some(Ok(report)) ==> {
                &&& report.total_before == live_total(first, root, end.entries)
                &&& exists|idx: Seq<int>| #[trigger] freed_from(first, end, idx)
                &&& report.freed_bytes <= report.total_before
            }
        }),
{
    lemma_settled_run(root, policy, first, steps);
}

/// Under a limit on the size alone, where every removal succeeds and nothing
/// stops it early, the least recently used images go that are not installed, and
/// not one more than it takes: before each of them, what was left was over the
/// limit, and what is left in the end is within it, unless every image that is
/// not installed is gone. Where none is installed, those are the first images,
/// just as many as it takes.
///
/// Records of one image are left out, records that are names of images, files
/// that are there but cannot be looked at, and sums that do not fit into 64 bits.
pub proof fn lemma_no_more_images_go_than_needed(
    root: Seq<u8>,
    policy: GcPolicy,
    first: Settled,
    steps: Seq<Step<Settled>>,
)
    requires
        policy.max_bytes is Some,
        policy.keep_secs is None,
        procedure::runs::<Settled, Gc>(GcView::start(root, policy), first, steps),
        ({
            let end = procedure::state_after::<Settled, Gc>(GcView::start(root, policy), steps);
            let es = end.entries;
            &&& distinct_images(root, es)
            &&& records_apart(first.disk, root, es)
            &&& live_total(first, root, es) <= u64::MAX
            &&& end.outcome() matches Some(Ok(report)) && report.kept_busy.len() == 0
                && report.stopped_early is None
        }),
    ensures
        exists|n: int| #[trigger]
            enough_gone(
                first,
                procedure::state_after::<Settled, Gc>(GcView::start(root, policy), steps),
                n,
            ),
        ({
            let end = procedure::state_after::<Settled, Gc>(GcView::start(root, policy), steps);
            let es = end.entries;
            let n = end.report.removed.len() as int;
            none_shared(first.disk, root, es) ==> {
                &&& n <= es.len()
                &&& end.report.removed == Seq::new(n as nat, |i: int| es[i].key)
                &&& live_total(first, root, es.skip(n)) <= policy.max_bytes->0
                &&& forall|j: int|
                    0 <= j < n ==> live_total(first, root, #[trigger] es.skip(j))
                        > policy.max_bytes->0
            }
        }),
{
    lemma_settled_run(root, policy, first, steps);
    let end = procedure::state_after::<Settled, Gc>(GcView::start(root, policy), steps);
    let es = end.entries;
    if none_shared(first.disk, root, es) {
        let m = choose|m: int| #[trigger] enough_gone(first, end, m);
        lemma_all_loose(first, root, es, m);
        assert(end.report.removed =~= Seq::new(m as nat, |i: int| es[i].key));
        assert forall|j: int| 0 <= j < m implies live_total(first, root, #[trigger] es.skip(j))
            > policy.max_bytes->0 by {
            lemma_all_loose(first, root, es, j);
            assert(left(first, root, es, j) > policy.max_bytes->0);
        }
        assert(m == es.len() ==> es.skip(m) =~= seq![]);
    }
}

/// Whether none of the images has another name.
pub open spec fn none_shared(disk: Disk, root: Seq<u8>, es: Seq<EntryView>) -> bool {
    forall|i: int|
        0 <= i < es.len() ==> !disk.shared(store::blob_path(root, (#[trigger] es[i]).key))
}

proof fn lemma_all_loose(first: Settled, root: Seq<u8>, es: Seq<EntryView>, n: int)
    requires
        none_shared(first.disk, root, es),
        0 <= n <= es.len(),
    ensures
        keys_of(es.take(n), is_loose(first.disk, root, es)) == Seq::new(
            n as nat,
            |i: int| es[i].key,
        ),
        loose_total(first, root, es, n) == live_total(first, root, es.take(n)),
        left(first, root, es, n) == live_total(first, root, es.skip(n)),
    decreases n,
{
    let f = is_loose(first.disk, root, es);
    lemma_live_split(first, root, es, n);
    if n > 0 {
        lemma_all_loose(first, root, es, n - 1);
        lemma_live_next(first, root, es, n - 1);
        gc_exact::lemma_keys_next(es, f, n - 1);
        let key = es[n - 1].key;
        if linked(first.disk, root, es, key) {
            let q = choose|q: Seq<u8>| #[trigger] gc_exact::links_to(first.disk, root, es, key, q);
            assert(first.disk.is_alias(store::blob_path(root, key), q));
            assert(first.disk.shared(store::blob_path(root, key)));
        }
        assert(f(es[n - 1]));
    } else {
        assert(es.take(0) =~= seq![]);
    }
    assert(keys_of(es.take(n), f) =~= Seq::new(n as nat, |i: int| es[i].key));
}

// ---------------------------------------------------------------------------
// Reports
// ---------------------------------------------------------------------------
/// Whether what free space is compared with came of a removal, and nothing is
/// reported before the decisions.
spec fn weighings_keep(s: GcView) -> bool {
    &&& s.last_free is Some ==> deciding(s) && s.report.removed.len() >= 1 && !s.policy.dry_run
    &&& s.report.stopped_early is Some ==> s.report.removed.len() >= 2 && !s.policy.dry_run
    &&& !deciding(s) ==> s.report.kept_busy.len() == 0
}

spec fn reports_keep(start: GcView, s: GcView) -> bool {
    &&& gc_laws::report_keeps(start, s)
    &&& weighings_keep(s)
    &&& s.phase is Listing ==> s == start
    &&& distinct_keys(s.entries) ==> reported_once(s)
}

proof fn lemma_reports_run(
    root: Seq<u8>,
    policy: GcPolicy,
    disk: Disk,
    steps: Seq<Step<Disk>>,
)
    requires
        procedure::runs::<Disk, Gc>(GcView::start(root, policy), disk, steps),
    ensures
        reports_keep(
            GcView::start(root, policy),
            procedure::state_after::<Disk, Gc>(GcView::start(root, policy), steps),
        ),
{
    let start = GcView::start(root, policy);
    let inv = |s: GcView, w: Disk| reports_keep(start, s);
    assert forall|s: GcView, w: Disk, step: Step<Disk>| #[trigger]
        procedure::can_step::<Disk, Gc>(s, w, step) && inv(s, w) implies inv(
        Gc::after(s, step.reply),
        step.world,
    ) by {
        let next = Gc::after(s, step.reply);
        if s.phase == GcPhase::Listing || !(step.reply is Entries) {
            gc_laws::lemma_report_step(start, s, step.reply);
        } else {
            assert(next == s);
        }
        if s.phase != GcPhase::Listing {
            assert(next.entries == s.entries);
            if distinct_keys(s.entries) {
                lemma_reported_once_step(start, s, step.reply);
            }
        }
    }
    procedure::lemma_invariant::<Disk, Gc>(inv, start, disk, steps);
}

/// No image is reported twice, and none both as removed and as one that could
/// not be removed.
///
/// Records of one key are left out.
pub proof fn lemma_images_are_reported_once(
    root: Seq<u8>,
    policy: GcPolicy,
    disk: Disk,
    steps: Seq<Step<Disk>>,
)
    requires
        procedure::runs::<Disk, Gc>(GcView::start(root, policy), disk, steps),
        distinct_keys(
            procedure::state_after::<Disk, Gc>(GcView::start(root, policy), steps).entries,
        ),
    ensures
        ({
            let report = procedure::state_after::<Disk, Gc>(
                GcView::start(root, policy),
                steps,
            ).report;
            &&& report.removed.no_duplicates()
            &&& report.kept_busy.no_duplicates()
            &&& forall|i: int, j: int|
                0 <= i < report.removed.len() && 0 <= j < report.kept_busy.len()
                    ==> #[trigger] report.removed[i] != #[trigger] report.kept_busy[j]
        }),
{
    lemma_reports_run(root, policy, disk, steps);
}

/// The key of the image whose removal failed at a step, if one did.
pub open spec fn failed_removal(s: GcView, reply: ReplyView) -> Option<Seq<char>> {
    match (s.phase, reply) {
        (GcPhase::Removing { at, .. }, ReplyView::Failed(e)) => if s.at_entry(at) && e.kind
            != IoKind::NotFound {
            Some(s.entries[at as int].key)
        } else {
            None
        },
        _ => None,
    }
}

/// An image whose removal fails at any step is reported as one that could not be
/// removed. It is not reported as removed, and in the end it is there as before,
/// and so is its record.
///
/// Records of one key are left out of what is said of the report, since the
/// removal may succeed for the other one; and records of one image, and those of
/// one name, of what is said of the files.
pub proof fn lemma_failed_removals_are_reported(
    root: Seq<u8>,
    policy: GcPolicy,
    disk: Disk,
    steps: Seq<Step<Disk>>,
    i: int,
    key: Seq<char>,
)
    requires
        procedure::runs::<Disk, Gc>(GcView::start(root, policy), disk, steps),
        0 <= i < steps.len(),
        failed_removal(
            procedure::state_after::<Disk, Gc>(GcView::start(root, policy), steps.take(i)),
            steps[i].reply,
        ) == Some(key),
    ensures
        ({
            let s = procedure::state_after::<Disk, Gc>(GcView::start(root, policy), steps);
            let end = procedure::world_after(disk, steps);
            &&& s.report.kept_busy.contains(key)
            &&& distinct_keys(s.entries) ==> !s.report.removed.contains(key)
            &&& s.outcome() is Some ==> is_kept(root, s.entries, disk, end, key)
        }),
{
    lemma_busy_stays(root, policy, disk, steps, i, key);
    lemma_reports_run(root, policy, disk, steps);
    gc_exact::lemma_run(root, policy, disk, steps);
    let s = procedure::state_after::<Disk, Gc>(GcView::start(root, policy), steps);
    let report = s.report;
    if distinct_keys(s.entries) && report.removed.contains(key) {
        let a = choose|a: int| 0 <= a < report.removed.len() && report.removed[a] == key;
        let b = choose|b: int| 0 <= b < report.kept_busy.len() && report.kept_busy[b] == key;
        assert(report.removed[a] != report.kept_busy[b]);
    }
    if s.outcome() is Some && (distinct_images(root, s.entries) || distinct_records(
        root,
        s.entries,
    )) {
        lemma_keys_are_distinct(root, s.entries);
        let b = choose|b: int| 0 <= b < report.kept_busy.len() && report.kept_busy[b] == key;
        assert(among(s.entries, decided(s), report.kept_busy[b]));
        let at = choose|at: int| 0 <= at < decided(s) && (#[trigger] s.entries[at]).key == key;
        gc_exact::lemma_other_images_are_kept(root, policy, disk, steps, at);
    }
}

proof fn lemma_busy_stays(
    root: Seq<u8>,
    policy: GcPolicy,
    disk: Disk,
    steps: Seq<Step<Disk>>,
    i: int,
    key: Seq<char>,
)
    requires
        procedure::runs::<Disk, Gc>(GcView::start(root, policy), disk, steps),
        0 <= i < steps.len(),
        failed_removal(
            procedure::state_after::<Disk, Gc>(GcView::start(root, policy), steps.take(i)),
            steps[i].reply,
        ) == Some(key),
    ensures
        procedure::state_after::<Disk, Gc>(
            GcView::start(root, policy),
            steps,
        ).report.kept_busy.contains(key),
    decreases steps.len(),
{
    let start = GcView::start(root, policy);
    let before = steps.drop_last();
    let s = procedure::state_after::<Disk, Gc>(start, before);
    let next = Gc::after(s, steps.last().reply);
    if i == before.len() {
        assert(steps.take(i) =~= before);
        assert(next.report.kept_busy == s.report.kept_busy.push(key));
        assert(next.report.kept_busy.last() == key);
    } else {
        assert(before.take(i) =~= steps.take(i));
        lemma_busy_stays(root, policy, disk, before, i, key);
        lemma_reports_run(root, policy, disk, before);
        let n = choose|n: int| 0 <= n < s.report.kept_busy.len() && s.report.kept_busy[n] == key;
        assert(deciding(s));
        if s.phase != GcPhase::Finished {
            lemma_later(s, steps.last().reply);
        }
        assert(next.report.kept_busy[n] == key);
    }
}

/// An eviction that stops early was a real one under a limit on the size, and
/// has removed at least two images. The last of them made the disk emptier by
/// less than a quarter of what it claimed to occupy, since the last time that
/// was asked for. No image that was used more recently is reported as removed,
/// and each of them is there as before, and so is its record.
///
/// Records of one key are left out of what is said of the report, and records of
/// one image, and those of one name, of what is said of the files.
pub proof fn lemma_stopping_early(
    root: Seq<u8>,
    policy: GcPolicy,
    disk: Disk,
    steps: Seq<Step<Disk>>,
)
    requires
        procedure::runs::<Disk, Gc>(GcView::start(root, policy), disk, steps),
        procedure::state_after::<Disk, Gc>(
            GcView::start(root, policy),
            steps,
        ).report.stopped_early is Some,
    ensures
        ({
            let start = GcView::start(root, policy);
            let end = procedure::state_after::<Disk, Gc>(start, steps);
            let before = procedure::state_after::<Disk, Gc>(start, steps.drop_last());
            &&& policy.max_bytes is Some
            &&& !policy.dry_run
            &&& end.phase == GcPhase::Finished
            &&& end.report.removed.len() >= 2
            &&& steps.len() > 0
            &&& before.phase matches GcPhase::Weighing { at, claimed } && {
                &&& end.report.removed == before.report.removed.push(end.entries[at as int].key)
                &&& steps.last().reply matches ReplyView::Space(Some(free)) && {
                    &&& before.last_free matches Some(free_before)
                    &&& free.saturating_sub(free_before).wrapping_mul(4) < claimed
                }
                &&& distinct_keys(end.entries) ==> forall|p: int|
                    at < p < end.entries.len() ==> !end.report.removed.contains(
                        (#[trigger] end.entries[p]).key,
                    )
                &&& forall|p: int|
                    at < p < end.entries.len() ==> is_kept(
                        root,
                        end.entries,
                        disk,
                        procedure::world_after(disk, steps),
                        (#[trigger] end.entries[p]).key,
                    )
            }
        }),
{
    let start = GcView::start(root, policy);
    lemma_reports_run(root, policy, disk, steps);
    lemma_reports_run(root, policy, disk, steps.drop_last());
    let end = procedure::state_after::<Disk, Gc>(start, steps);
    let before = procedure::state_after::<Disk, Gc>(start, steps.drop_last());
    assert(before.phase != GcPhase::Finished);
    let at = position(before)->0;
    if distinct_keys(end.entries) {
        assert forall|p: int| at < p < end.entries.len() implies !end.report.removed.contains(
            (#[trigger] end.entries[p]).key,
        ) by {
            let key = end.entries[p].key;
            if end.report.removed.contains(key) {
                let i = choose|i: int|
                    0 <= i < end.report.removed.len() && end.report.removed[i] == key;
                if i < before.report.removed.len() {
                    assert(among(before.entries, at as int, before.report.removed[i]));
                }
            }
        }
    }
    gc_exact::lemma_run(root, policy, disk, steps);
    assert forall|p: int| at < p < end.entries.len() implies is_kept(
        root,
        end.entries,
        disk,
        procedure::world_after(disk, steps),
        (#[trigger] end.entries[p]).key,
    ) by {
        if distinct_images(root, end.entries) || distinct_records(root, end.entries) {
            lemma_keys_are_distinct(root, end.entries);
            gc_exact::lemma_other_images_are_kept(root, policy, disk, steps, p);
        }
    }
}

} // verus!
