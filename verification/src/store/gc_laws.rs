//! What an eviction does to the files and what it reports, whatever it meets
//! with.

use super::gc::{self, Gc, GcPhase, GcPolicy, GcReportView, GcView};
use super::list::{self, Order};
use super::EntryView;
use crate::disk::Disk;
use crate::host::{ReplyView, RequestView};
use crate::procedure::{self, Procedure, Step, World};
use crate::store;
use vstd::prelude::*;

verus! {

/// The position that a phase is about.
pub open spec fn position(s: GcView) -> Option<usize> {
    match s.phase {
        GcPhase::Measuring { at } => Some(at),
        GcPhase::Checking { at } => Some(at),
        GcPhase::Sizing { at } => Some(at),
        GcPhase::Removing { at, .. } => Some(at),
        GcPhase::Forgetting { at, .. } => Some(at),
        GcPhase::Weighing { at, .. } => Some(at),
        _ => None,
    }
}

/// Whether the decisions have begun.
pub open spec fn deciding(s: GcView) -> bool {
    s.phase is Checking || s.phase is Sizing || s.phase is Removing || s.phase is Forgetting
        || s.phase is Weighing || s.phase is Finished
}

/// How many of the records have been decided upon.
pub open spec fn decided(s: GcView) -> int {
    match position(s) {
        Some(at) => at as int,
        None => s.entries.len() as int,
    }
}

pub(crate) proof fn lemma_go_on(s: GcView, from: int)
    requires
        0 <= from <= s.entries.len() <= usize::MAX,
    ensures
        s.go_on(from).phase matches GcPhase::Checking { at } ==> {
            &&& from <= at < s.entries.len()
            &&& s.policy.unwanted(s.total, s.now, s.entries[at as int].last_used)
            &&& s.policy.over_size(s.total) ==> at == from
        },
        !(s.go_on(from).phase is Checking) ==> s.go_on(from).phase is Finished && (
        s.policy.over_size(s.total) ==> from == s.entries.len()),
{
    gc::lemma_next_unwanted(s.policy, s.entries, s.total, s.now, from);
    let at = gc::next_unwanted(s.policy, s.entries, s.total, s.now, from);
    if s.policy.over_size(s.total) && from < at {
        assert(!s.policy.unwanted(s.total, s.now, s.entries[from].last_used));
    }
}

// ---------------------------------------------------------------------------
// The report
// ---------------------------------------------------------------------------
/// Whether `removed` are the keys at the positions `idx`, in the order of the
/// records, each of which had to go.
pub open spec fn chosen(s: GcView, idx: Seq<int>) -> bool {
    &&& idx.len() == s.report.removed.len()
    &&& forall|i: int, j: int| 0 <= i < j < idx.len() ==> #[trigger] idx[i] < #[trigger] idx[j]
    &&& forall|i: int|
        0 <= i < idx.len() ==> {
            &&& 0 <= #[trigger] idx[i] < decided(s)
            &&& s.report.removed[i] == s.entries[idx[i]].key
            &&& s.policy.max_bytes is None ==> s.policy.too_old(s.now, s.entries[idx[i]].last_used)
        }
}

pub(crate) open spec fn report_keeps(start: GcView, s: GcView) -> bool {
    &&& s.policy == start.policy
    &&& s.root == start.root
    &&& s.entries.len() <= usize::MAX
    &&& position(s) matches Some(at) ==> at < s.entries.len()
    &&& s.policy.dry_run ==> !(s.phase is Removing || s.phase is Forgetting || s.phase is Weighing)
    &&& s.report.dry_run == s.policy.dry_run
    &&& s.phase is Weighing || s.report.stopped_early is Some ==> s.policy.max_bytes is Some
    &&& if deciding(s) {
        &&& exists|idx: Seq<int>| #[trigger] chosen(s, idx)
        &&& s.phase != GcPhase::Finished ==> s.policy.unwanted(
            s.total,
            s.now,
            s.entries[decided(s)].last_used,
        )
        &&& s.report.removed.len() + s.report.kept_linked + s.report.kept_busy.len() <= decided(s)
        &&& s.policy.over_size(s.total) && s.report.stopped_early is None ==> s.report.removed.len()
            + s.report.kept_linked + s.report.kept_busy.len() == decided(s)
        &&& s.phase != GcPhase::Finished ==> s.report.stopped_early is None
    } else {
        s.report.removed =~= seq![]
    }
}

proof fn lemma_evicted(start: GcView, s: GcView, at: usize, claimed: u64)
    requires
        report_keeps(start, s),
        s.phase is Sizing || s.phase is Forgetting || s.phase is Weighing,
        position(s) == Some(at),
    ensures
        report_keeps(start, s.evicted(at, claimed)),
{
    let t = GcView {
        total: s.total.saturating_sub(claimed),
        report: s.report.with_removed(s.entries[at as int].key, claimed),
        ..s
    };
    lemma_go_on(t, at + 1);
    let next = s.evicted(at, claimed);
    let idx = choose|idx: Seq<int>| chosen(s, idx);
    assert(chosen(next, idx.push(at as int)));
}

proof fn lemma_skipped(start: GcView, s: GcView, at: usize, report: GcReportView)
    requires
        report_keeps(start, s),
        s.phase is Checking || s.phase is Removing,
        position(s) == Some(at),
        report.removed == s.report.removed,
        report.kept_linked + report.kept_busy.len() == s.report.kept_linked
            + s.report.kept_busy.len() + 1,
        report.dry_run == s.report.dry_run,
        report.stopped_early == s.report.stopped_early,
    ensures
        report_keeps(start, GcView { report, ..s }.go_on(at + 1)),
{
    let t = GcView { report, ..s };
    lemma_go_on(t, at + 1);
    let idx = choose|idx: Seq<int>| chosen(s, idx);
    assert(chosen(t.go_on(at + 1), idx));
}

#[verifier::rlimit(30)]
pub(crate) proof fn lemma_report_step(start: GcView, s: GcView, reply: ReplyView)
    requires
        report_keeps(start, s),
        reply matches ReplyView::Entries(found) ==> found.len() <= usize::MAX,
    ensures
        report_keeps(start, Gc::after(s, reply)),
{
    let next = Gc::after(s, reply);
    match s.phase {
        GcPhase::Listing => {
            if let ReplyView::Entries(found) = reply {
                let all = list::readable(found);
                lemma_readable_len(found);
                lemma_sorted_len(Order::NewestFirst, all);
                lemma_sorted_len(Order::OldestFirst, list::sorted(Order::NewestFirst, all));
            }
        },
        GcPhase::Dating => {
            if let ReplyView::Time(now) = reply {
                let t = GcView {
                    now,
                    report: GcReportView::empty(s.total, s.policy.dry_run),
                    ..s
                };
                lemma_go_on(t, 0);
                assert(chosen(next, Seq::<int>::empty()));
            }
        },
        GcPhase::Checking { at } => {
            if next.phase is Sizing {
                let idx = choose|idx: Seq<int>| chosen(s, idx);
                assert(chosen(next, idx));
            } else if reply is Stat {
                let report = GcReportView {
                    kept_linked: s.report.kept_linked.wrapping_add(1),
                    ..s.report
                };
                lemma_skipped(start, s, at, report);
            }
        },
        GcPhase::Sizing { at } => {
            if reply is Stat || reply is Failed {
                let claimed = if let ReplyView::Stat(st) = reply {
                    st.allocated
                } else {
                    s.entries[at as int].actual_bytes
                };
                if s.policy.dry_run {
                    lemma_evicted(start, s, at, claimed);
                } else {
                    let idx = choose|idx: Seq<int>| chosen(s, idx);
                    assert(chosen(next, idx));
                }
            }
        },
        GcPhase::Removing { at, claimed } => {
            if next.phase is Forgetting {
                let idx = choose|idx: Seq<int>| chosen(s, idx);
                assert(chosen(next, idx));
            } else if reply is Failed {
                let report = GcReportView {
                    kept_busy: s.report.kept_busy.push(s.entries[at as int].key),
                    ..s.report
                };
                lemma_skipped(start, s, at, report);
            }
        },
        GcPhase::Forgetting { at, claimed } => {
            if reply is Done || reply is Failed {
                if s.policy.max_bytes is Some && claimed > 0 {
                    let idx = choose|idx: Seq<int>| chosen(s, idx);
                    assert(chosen(next, idx));
                } else {
                    lemma_evicted(start, s, at, claimed);
                }
            }
        },
        GcPhase::Weighing { at, claimed } => {
            if let ReplyView::Space(free) = reply {
                let idx = choose|idx: Seq<int>| chosen(s, idx);
                if next.report.stopped_early is Some {
                    assert(chosen(next, idx.push(at as int)));
                } else {
                    let t = match free {
                        Some(f) => GcView { last_free: Some(f), ..s },
                        None => s,
                    };
                    assert(chosen(t, idx));
                    lemma_evicted(start, t, at, claimed);
                }
            }
        },
        _ => {},
    }
}

/// There are at most as many records as there were names.
pub proof fn lemma_readable_len(found: Seq<Option<EntryView>>)
    ensures
        list::readable(found).len() <= found.len(),
    decreases found.len(),
{
    if found.len() > 0 {
        lemma_readable_len(found.drop_last());
    }
}

/// Putting records in order keeps their number.
pub proof fn lemma_sorted_len(order: Order, s: Seq<EntryView>)
    ensures
        list::sorted(order, s).len() == s.len(),
    decreases s.len(),
{
    if s.len() > 0 {
        lemma_sorted_len(order, s.drop_last());
        lemma_placed_len(order, list::sorted(order, s.drop_last()), s.last());
    }
}

proof fn lemma_placed_len(order: Order, s: Seq<EntryView>, e: EntryView)
    ensures
        list::placed(order, s, e).len() == s.len() + 1,
    decreases s.len(),
{
    if s.len() > 0 {
        lemma_placed_len(order, s.drop_last(), e);
    }
}

/// Before the first decision nothing is removed; afterwards the report lists
/// keys of records, the least recently used first. Without a limit on the size
/// each of them was unused for too long.
pub proof fn lemma_gc_removes_oldest_unwanted(
    root: Seq<u8>,
    policy: GcPolicy,
    disk: Disk,
    steps: Seq<Step<Disk>>,
)
    requires
        procedure::runs::<Disk, Gc>(GcView::start(root, policy), disk, steps),
    ensures
        ({
            let end = procedure::state_after::<Disk, Gc>(GcView::start(root, policy), steps);
            if deciding(end) {
                exists|idx: Seq<int>| #[trigger] chosen(end, idx)
            } else {
                end.report.removed == Seq::<Seq<char>>::empty()
            }
        }),
        list::is_sorted(
            Order::OldestFirst,
            procedure::state_after::<Disk, Gc>(GcView::start(root, policy), steps).entries,
        ),
{
    lemma_report_run(root, policy, disk, steps);
    let start = GcView::start(root, policy);
    let inv = |s: GcView, w: Disk| list::is_sorted(Order::OldestFirst, s.entries);
    assert forall|s: GcView, w: Disk, step: Step<Disk>| #[trigger]
        procedure::can_step::<Disk, Gc>(s, w, step) && inv(s, w) implies inv(
        Gc::after(s, step.reply),
        step.world,
    ) by {
        if s.phase == GcPhase::Listing {
            if let ReplyView::Entries(found) = step.reply {
                list::lemma_sorted(
                    Order::OldestFirst,
                    list::sorted(Order::NewestFirst, list::readable(found)),
                );
            }
        } else {
            assert(Gc::after(s, step.reply).entries == s.entries);
        }
    }
    procedure::lemma_invariant::<Disk, Gc>(inv, start, disk, steps);
}

proof fn lemma_report_run(root: Seq<u8>, policy: GcPolicy, disk: Disk, steps: Seq<Step<Disk>>)
    requires
        procedure::runs::<Disk, Gc>(GcView::start(root, policy), disk, steps),
    ensures
        report_keeps(
            GcView::start(root, policy),
            procedure::state_after::<Disk, Gc>(GcView::start(root, policy), steps),
        ),
{
    let start = GcView::start(root, policy);
    let inv = |s: GcView, w: Disk| report_keeps(start, s);
    assert forall|s: GcView, w: Disk, step: Step<Disk>| #[trigger]
        procedure::can_step::<Disk, Gc>(s, w, step) && inv(s, w) implies inv(
        Gc::after(s, step.reply),
        step.world,
    ) by {
        if s.phase == GcPhase::Listing {
            lemma_report_step(start, s, step.reply);
        } else {
            if step.reply is Entries {
                assert(Gc::after(s, step.reply) == s);
            } else {
                lemma_report_step(start, s, step.reply);
            }
        }
    }
    procedure::lemma_invariant::<Disk, Gc>(inv, start, disk, steps);
}

/// The position of every phase that has one is that of a record.
pub proof fn lemma_positions(root: Seq<u8>, policy: GcPolicy, disk: Disk, steps: Seq<Step<Disk>>)
    requires
        procedure::runs::<Disk, Gc>(GcView::start(root, policy), disk, steps),
    ensures
        ({
            let end = procedure::state_after::<Disk, Gc>(GcView::start(root, policy), steps);
            position(end) matches Some(at) ==> end.at_entry(at)
        }),
{
    lemma_report_run(root, policy, disk, steps);
}

/// An eviction that does not stop early ends only when the store is within its
/// size, or when every image has been removed or had to be kept.
pub proof fn lemma_gc_meets_size(
    root: Seq<u8>,
    policy: GcPolicy,
    disk: Disk,
    steps: Seq<Step<Disk>>,
)
    requires
        procedure::runs::<Disk, Gc>(GcView::start(root, policy), disk, steps),
    ensures
        ({
            let end = procedure::state_after::<Disk, Gc>(GcView::start(root, policy), steps);
            end.phase == GcPhase::Finished && end.report.stopped_early is None
                && policy.over_size(end.total) ==> end.report.removed.len()
                + end.report.kept_linked + end.report.kept_busy.len() == end.entries.len()
        }),
{
    lemma_report_run(root, policy, disk, steps);
}

/// While an image is being decided upon, the policy does not want it; and a
/// name is removed only in earnest.
pub proof fn lemma_gc_handles_only_unwanted(
    root: Seq<u8>,
    policy: GcPolicy,
    disk: Disk,
    steps: Seq<Step<Disk>>,
)
    requires
        procedure::runs::<Disk, Gc>(GcView::start(root, policy), disk, steps),
    ensures
        ({
            let end = procedure::state_after::<Disk, Gc>(GcView::start(root, policy), steps);
            &&& deciding(end) && end.phase != GcPhase::Finished ==> policy.unwanted(
                end.total,
                end.now,
                end.entries[decided(end)].last_used,
            )
            &&& Gc::wants(end) matches Some(RequestView::Remove(_)) ==> !policy.dry_run
        }),
{
    lemma_report_run(root, policy, disk, steps);
}

/// Where no image is unwanted, nothing is removed.
pub proof fn lemma_gc_keeps_what_fits(s: GcView, now: u64)
    requires
        s.phase == GcPhase::Dating,
        forall|i: int|
            0 <= i < s.entries.len() ==> !s.policy.unwanted(
                s.total,
                now,
                (#[trigger] s.entries[i]).last_used,
            ),
    ensures
        Gc::after(s, ReplyView::Time(now)).phase == GcPhase::Finished,
        Gc::after(s, ReplyView::Time(now)).report == GcReportView::empty(
            s.total,
            s.policy.dry_run,
        ),
{
    gc::lemma_next_unwanted(s.policy, s.entries, s.total, now, 0);
}

// ---------------------------------------------------------------------------
// The files
// ---------------------------------------------------------------------------
/// A dry run changes nothing.
pub proof fn lemma_gc_dry_run(
    root: Seq<u8>,
    policy: GcPolicy,
    disk: Disk,
    steps: Seq<Step<Disk>>,
)
    requires
        policy.dry_run,
        procedure::runs::<Disk, Gc>(GcView::start(root, policy), disk, steps),
    ensures
        procedure::world_after(disk, steps) == disk,
{
    let start = GcView::start(root, policy);
    let inv = |s: GcView, w: Disk| w == disk && report_keeps(start, s);
    assert forall|s: GcView, w: Disk, step: Step<Disk>| #[trigger]
        procedure::can_step::<Disk, Gc>(s, w, step) && inv(s, w) implies inv(
        Gc::after(s, step.reply),
        step.world,
    ) by {
        if s.phase != GcPhase::Listing && step.reply is Entries {
            assert(Gc::after(s, step.reply) == s);
        } else {
            lemma_report_step(start, s, step.reply);
        }
    }
    procedure::lemma_invariant::<Disk, Gc>(inv, start, disk, steps);
}

/// Whether a name may be gone: it is that of the image of a listed record, or
/// that of a listed record whose image is gone.
pub open spec fn rightly_gone(s: GcView, w: Disk, p: Seq<u8>) -> bool {
    exists|at: usize| #[trigger] s.at_entry(at) && (p == s.blob(at) || p == s.meta(at) && !w.holds(
        s.blob(at),
    ))
}

spec fn files_keep(disk: Disk, start: GcView, s: GcView, w: Disk) -> bool {
    &&& s.root == start.root
    &&& w.files == disk.files
    &&& w.within(disk)
    &&& s.phase is Listing ==> w == disk
    &&& forall|p: Seq<u8>| #[trigger]
        disk.holds(p) && !w.holds(p) ==> rightly_gone(s, w, p)
    &&& s.phase matches GcPhase::Forgetting { at, .. } ==> s.at_entry(at) && !w.holds(s.blob(at))
}

#[verifier::rlimit(30)]
proof fn lemma_files_step(disk: Disk, start: GcView, s: GcView, w: Disk, step: Step<Disk>)
    requires
        files_keep(disk, start, s, w),
        procedure::can_step::<Disk, Gc>(s, w, step),
    ensures
        files_keep(disk, start, Gc::after(s, step.reply), step.world),
{
    let next = Gc::after(s, step.reply);
    let after = step.world;
    let gone = match s.phase {
        GcPhase::Removing { at, .. } => Some(s.blob(at)),
        GcPhase::Forgetting { at, .. } => Some(s.meta(at)),
        _ => None,
    };
    assert(after == w || gone is Some && after == w.without(gone->0));
    assert forall|p: Seq<u8>| #[trigger] after.holds(p) implies disk.holds(p) && after.names[p]
        == disk.names[p] by {
        assert(w.holds(p));
    }
    if s.phase != GcPhase::Listing {
        assert(next.entries == s.entries && next.root == s.root);
        assert forall|p: Seq<u8>| #[trigger] disk.holds(p) && !after.holds(p) implies rightly_gone(
            next,
            after,
            p,
        ) by {
            if !w.holds(p) {
                let at = choose|at: usize| #[trigger]
                    s.at_entry(at) && (p == s.blob(at) || p == s.meta(at) && !w.holds(s.blob(at)));
                assert(next.at_entry(at));
                assert(next.blob(at) == s.blob(at) && next.meta(at) == s.meta(at));
            } else {
                match s.phase {
                    GcPhase::Removing { at, .. } => {
                        assert(next.at_entry(at));
                        assert(next.blob(at) == s.blob(at));
                    },
                    GcPhase::Forgetting { at, .. } => {
                        assert(next.at_entry(at));
                        assert(next.blob(at) == s.blob(at) && next.meta(at) == s.meta(at));
                    },
                    _ => {},
                }
            }
        }
    }
}

/// An eviction only ever takes names away: the images of listed records, and
/// their records once the image is gone. So an image that could not be removed
/// stays listed. What every other name holds is unchanged.
pub proof fn lemma_gc_records_outlive_images(
    root: Seq<u8>,
    policy: GcPolicy,
    disk: Disk,
    steps: Seq<Step<Disk>>,
)
    requires
        procedure::runs::<Disk, Gc>(GcView::start(root, policy), disk, steps),
    ensures
        ({
            let state = procedure::state_after::<Disk, Gc>(GcView::start(root, policy), steps);
            let end = procedure::world_after(disk, steps);
            &&& end.files == disk.files
            &&& end.within(disk)
            &&& forall|p: Seq<u8>| #[trigger]
                disk.holds(p) && !end.holds(p) ==> rightly_gone(state, end, p)
        }),
{
    let start = GcView::start(root, policy);
    let inv = |s: GcView, w: Disk| files_keep(disk, start, s, w);
    assert forall|s: GcView, w: Disk, step: Step<Disk>| #[trigger]
        procedure::can_step::<Disk, Gc>(s, w, step) && inv(s, w) implies inv(
        Gc::after(s, step.reply),
        step.world,
    ) by {
        lemma_files_step(disk, start, s, w, step);
    }
    procedure::lemma_invariant::<Disk, Gc>(inv, start, disk, steps);
}

spec fn removed_keeps(start: GcView, s: GcView, w: Disk) -> bool {
    &&& s.root == start.root
    &&& s.policy == start.policy
    &&& !s.policy.dry_run
    &&& forall|i: int|
        0 <= i < s.report.removed.len() ==> !w.holds(
            store::blob_path(s.root, #[trigger] s.report.removed[i]),
        )
    &&& match s.phase {
        GcPhase::Forgetting { at, .. } => !w.holds(s.blob(at)),
        GcPhase::Weighing { at, .. } => !w.holds(s.blob(at)),
        _ => true,
    }
}

#[verifier::rlimit(30)]
proof fn lemma_removed_step(start: GcView, s: GcView, w: Disk, step: Step<Disk>)
    requires
        removed_keeps(start, s, w),
        procedure::can_step::<Disk, Gc>(s, w, step),
    ensures
        removed_keeps(start, Gc::after(s, step.reply), step.world),
{
    let next = Gc::after(s, step.reply);
    let after = step.world;
    assert(after == w || after == w.without(s.blob(position(s)->0)) || after == w.without(
        s.meta(position(s)->0),
    ));
    assert forall|i: int| 0 <= i < next.report.removed.len() implies !after.holds(
        store::blob_path(next.root, #[trigger] next.report.removed[i]),
    ) by {
        if i < s.report.removed.len() && next.report.removed.len() >= s.report.removed.len() {
            if next.report.removed[i] == s.report.removed[i] {
                assert(!w.holds(store::blob_path(s.root, s.report.removed[i])));
            }
        }
    }
}

/// An image that a real eviction reports as removed is gone.
pub proof fn lemma_gc_removed_are_gone(
    root: Seq<u8>,
    policy: GcPolicy,
    disk: Disk,
    steps: Seq<Step<Disk>>,
)
    requires
        !policy.dry_run,
        procedure::runs::<Disk, Gc>(GcView::start(root, policy), disk, steps),
    ensures
        ({
            let state = procedure::state_after::<Disk, Gc>(GcView::start(root, policy), steps);
            let end = procedure::world_after(disk, steps);
            forall|i: int|
                0 <= i < state.report.removed.len() ==> !end.holds(
                    store::blob_path(root, #[trigger] state.report.removed[i]),
                )
        }),
{
    let start = GcView::start(root, policy);
    let inv = |s: GcView, w: Disk| removed_keeps(start, s, w);
    assert forall|s: GcView, w: Disk, step: Step<Disk>| #[trigger]
        procedure::can_step::<Disk, Gc>(s, w, step) && inv(s, w) implies inv(
        Gc::after(s, step.reply),
        step.world,
    ) by {
        lemma_removed_step(start, s, w, step);
    }
    procedure::lemma_invariant::<Disk, Gc>(inv, start, disk, steps);
}

} // verus!
