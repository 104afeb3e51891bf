//! Evicting images from storage on ZFS.

use super::procedures;
use super::ZfsBackend;
use crate::error::{self, Error, ErrorView};
use crate::host::{Reply, ReplyView, Request, RequestView};
use crate::procedure::{self, Procedure};
use crate::store::gc::{GcPolicy, GcReport, GcReportView};
use crate::store::gc_exact::{distinct_keys, distinct_records};
use crate::store::gc_sizes::among;
use crate::store::list::{self, Order};
use crate::store::{self, Entry, EntryView};
use crate::text;
use crate::zfs::{self, ZfsView};
use vstd::prelude::*;

verus! {

fn holds(v: &[String], s: &str) -> (r: bool)
    ensures
        r == text::views(v@).contains(s@),
{
    let ghost all = text::views(v@);
    let mut i: usize = 0;
    while i < v.len()
        invariant
            i <= v@.len(),
            all == text::views(v@),
            forall|j: int| 0 <= j < i ==> #[trigger] all[j] != s@,
        decreases v@.len() - i,
    {
        assert(all[i as int] == v@[i as int]@);
        if text::same(v[i].as_str(), s) {
            return true;
        }
        i = i + 1;
    }
    false
}

/// How far a [`ZfsGc`] has come.
#[derive(Debug, Clone, Copy, PartialEq, Eq, Structural)]
pub enum ZfsGcPhase {
    Listing,
    /// Asking which images are pinned.
    Graphing,
    Dating,
    Destroying { at: usize },
    /// Removing the record of an image that is gone.
    Forgetting { at: usize },
    Finished,
    Failed,
}

/// Evicting the least recently used images until a policy is met.
///
/// An image that a clone pins is kept, whatever the policy says. The record of
/// an image goes only once its dataset is gone.
#[derive(Debug)]
pub struct ZfsGc {
    backend: ZfsBackend,
    policy: GcPolicy,
    /// The records, the least recently used first.
    entries: Vec<Entry>,
    pinned: Vec<String>,
    total: u64,
    now: u64,
    report: GcReport,
    phase: ZfsGcPhase,
    failure: Option<Error>,
}

/// A [`ZfsGc`] as a mathematical value.
#[verifier::ext_equal]
pub struct ZfsGcView {
    pub backend: ZfsView,
    pub policy: GcPolicy,
    pub entries: Seq<EntryView>,
    pub pinned: Seq<Seq<char>>,
    pub total: u64,
    pub now: u64,
    pub report: GcReportView,
    pub phase: ZfsGcPhase,
    pub failure: Option<ErrorView>,
}

impl View for ZfsGc {
    type V = ZfsGcView;

    closed spec fn view(&self) -> ZfsGcView {
        ZfsGcView {
            backend: self.backend@,
            policy: self.policy,
            entries: list::entry_views(self.entries@),
            pinned: text::views(self.pinned@),
            total: self.total,
            now: self.now,
            report: self.report@,
            phase: self.phase,
            failure: error::error_view(self.failure),
        }
    }
}

impl ZfsGcView {
    /// Before the first step.
    pub open spec fn start(backend: ZfsView, policy: GcPolicy) -> ZfsGcView {
        ZfsGcView {
            backend,
            policy,
            entries: seq![],
            pinned: seq![],
            total: 0,
            now: 0,
            report: GcReportView::empty(0, policy.dry_run),
            phase: ZfsGcPhase::Listing,
            failure: None,
        }
    }

    /// The dataset of the image at a position.
    pub open spec fn dataset(self, at: int) -> Seq<char> {
        zfs::blob_dataset(self.backend.dataset, self.entries[at].key)
    }

    pub open spec fn to(self, phase: ZfsGcPhase) -> ZfsGcView {
        ZfsGcView { phase, ..self }
    }

    pub open spec fn fail(self, e: ErrorView) -> ZfsGcView {
        ZfsGcView { phase: ZfsGcPhase::Failed, failure: Some(e), ..self }
    }

    /// With the time told, before the first decision.
    pub open spec fn dated(self, now: u64) -> ZfsGcView {
        ZfsGcView {
            now,
            total: list::recorded_total(self.entries),
            report: GcReportView::empty(list::recorded_total(self.entries), self.policy.dry_run),
            ..self
        }
    }

    /// The image at a position has to be kept.
    pub open spec fn kept(self, at: int) -> ZfsGcView {
        ZfsGcView {
            report: GcReportView {
                kept_busy: self.report.kept_busy.push(self.entries[at].key),
                ..self.report
            },
            ..self
        }
    }

    /// The image at a position is gone, or would be.
    pub open spec fn evicted(self, at: int) -> ZfsGcView {
        let e = self.entries[at];
        ZfsGcView {
            total: self.total.saturating_sub(e.actual_bytes),
            report: self.report.with_removed(e.key, e.actual_bytes),
            ..self
        }
    }

    /// On to the next image from a position on that is to be destroyed. On the
    /// way, unwanted images that are pinned are kept, and a dry run notes the
    /// others.
    pub open spec fn go_on(self, from: int) -> ZfsGcView
        decreases self.entries.len() - from,
    {
        if from >= self.entries.len() {
            self.to(ZfsGcPhase::Finished)
        } else if !self.policy.unwanted(self.total, self.now, self.entries[from].last_used) {
            self.go_on(from + 1)
        } else if self.pinned.contains(self.dataset(from)) {
            self.kept(from).go_on(from + 1)
        } else if self.policy.dry_run {
            self.evicted(from).go_on(from + 1)
        } else {
            self.to(ZfsGcPhase::Destroying { at: from as usize })
        }
    }

    /// What came of it: the report, or why it ended.
    pub open spec fn outcome(self) -> Option<Result<GcReportView, ErrorView>> {
        match (self.phase, self.failure) {
            (ZfsGcPhase::Finished, _) => Some(Ok(self.report)),
            (ZfsGcPhase::Failed, Some(e)) => Some(Err(e)),
            _ => None,
        }
    }
}

impl Procedure for ZfsGc {
    type Request = Request;

    type Reply = Reply;

    open spec fn wants(state: ZfsGcView) -> Option<RequestView> {
        match state.phase {
            ZfsGcPhase::Listing => Some(
                RequestView::ListEntries(list::records_path(state.backend.mountpoint)),
            ),
            ZfsGcPhase::Graphing => Some(
                RequestView::Zfs(procedures::graph_args(state.backend.dataset)),
            ),
            ZfsGcPhase::Dating => Some(RequestView::Now),
            ZfsGcPhase::Destroying { at } if at < state.entries.len() => Some(
                RequestView::Zfs(procedures::destroy_args(state.dataset(at as int))),
            ),
            ZfsGcPhase::Forgetting { at } if at < state.entries.len() => Some(
                RequestView::Remove(
                    store::meta_path(state.backend.mountpoint, state.entries[at as int].key),
                ),
            ),
            _ => None,
        }
    }

    open spec fn after(state: ZfsGcView, reply: ReplyView) -> ZfsGcView {
        match (state.phase, reply) {
            (ZfsGcPhase::Listing, ReplyView::Entries(found)) => ZfsGcView {
                entries: list::sorted(
                    Order::OldestFirst,
                    list::sorted(Order::NewestFirst, list::readable(found)),
                ),
                phase: ZfsGcPhase::Graphing,
                ..state
            },
            // Without a directory of records there are none.
            (ZfsGcPhase::Listing, ReplyView::Failed(_)) => ZfsGcView {
                entries: seq![],
                phase: ZfsGcPhase::Graphing,
                ..state
            },
            (ZfsGcPhase::Graphing, ReplyView::Zfs(Ok(listing))) => ZfsGcView {
                pinned: zfs::pinned_images(listing),
                phase: ZfsGcPhase::Dating,
                ..state
            },
            (ZfsGcPhase::Graphing, ReplyView::Zfs(Err(e))) => state.fail(e),
            (ZfsGcPhase::Dating, ReplyView::Time(now)) => state.dated(now).go_on(0),
            (ZfsGcPhase::Destroying { at }, ReplyView::Zfs(Ok(_))) => if at < state.entries.len() {
                state.to(ZfsGcPhase::Forgetting { at })
            } else {
                state
            },
            (ZfsGcPhase::Destroying { at }, ReplyView::Zfs(Err(e))) => if at < state.entries.len() {
                if zfs::means_busy(e) {
                    state.kept(at as int).go_on(at + 1)
                } else {
                    state.fail(e)
                }
            } else {
                state
            },
            (ZfsGcPhase::Forgetting { at }, ReplyView::Done) => if at < state.entries.len() {
                state.evicted(at as int).go_on(at + 1)
            } else {
                state
            },
            (ZfsGcPhase::Forgetting { at }, ReplyView::Failed(_)) => if at < state.entries.len() {
                state.evicted(at as int).go_on(at + 1)
            } else {
                state
            },
            _ => state,
        }
    }

    fn request(&self) -> (request: Option<Request>) {
        match self.phase {
            ZfsGcPhase::Listing => Some(Request::ListEntries(self.backend.records())),
            ZfsGcPhase::Graphing => Some(
                Request::Zfs(procedures::graph_of(self.backend.dataset_name())),
            ),
            ZfsGcPhase::Dating => Some(Request::Now),
            ZfsGcPhase::Destroying { at } => if at < self.entries.len() {
                let ds = self.backend.blob_ds(self.entries[at].key.as_str());
                Some(Request::Zfs(procedures::destroy(ds)))
            } else {
                None
            },
            ZfsGcPhase::Forgetting { at } => if at < self.entries.len() {
                Some(Request::Remove(self.backend.meta_path(self.entries[at].key.as_str())))
            } else {
                None
            },
            ZfsGcPhase::Finished | ZfsGcPhase::Failed => None,
        }
    }

    fn resume(self, reply: Reply) -> (next: ZfsGc) {
        let mut next = self;
        match (next.phase, reply) {
            (ZfsGcPhase::Listing, Reply::Entries(found)) => {
                let newest = list::sort(Order::NewestFirst, list::keep_readable(found));
                next.entries = list::sort(Order::OldestFirst, newest);
                next.phase = ZfsGcPhase::Graphing;
                next
            },
            (ZfsGcPhase::Listing, Reply::Failed(_)) => {
                next.entries = Vec::new();
                assert(list::entry_views(next.entries@) =~= seq![]);
                next.phase = ZfsGcPhase::Graphing;
                next
            },
            (ZfsGcPhase::Graphing, Reply::Zfs(Ok(listing))) => {
                next.pinned = zfs::pinned(listing.as_str());
                next.phase = ZfsGcPhase::Dating;
                next
            },
            (ZfsGcPhase::Graphing, Reply::Zfs(Err(e))) => {
                next.failure = Some(e);
                next.phase = ZfsGcPhase::Failed;
                next
            },
            (ZfsGcPhase::Dating, Reply::Time(now)) => {
                next.now = now;
                next.total = list::total_of(&next.entries);
                next.report = GcReport::empty(next.total, next.policy.dry_run);
                next.go_on(0)
            },
            (ZfsGcPhase::Destroying { at }, Reply::Zfs(Ok(_))) => {
                if at < next.entries.len() {
                    next.phase = ZfsGcPhase::Forgetting { at };
                }
                next
            },
            (ZfsGcPhase::Destroying { at }, Reply::Zfs(Err(e))) => if at < next.entries.len() {
                if zfs::is_busy(&e) {
                    let key = next.entries[at].key.clone();
                    next.report.add_busy(key.as_str());
                    next.go_on(at + 1)
                } else {
                    next.failure = Some(e);
                    next.phase = ZfsGcPhase::Failed;
                    next
                }
            } else {
                next
            },
            (ZfsGcPhase::Forgetting { at }, Reply::Done | Reply::Failed(_)) => {
                if at < next.entries.len() {
                    let key = next.entries[at].key.clone();
                    let bytes: u64 = next.entries[at].actual_bytes;
                    next.total = next.total.saturating_sub(bytes);
                    next.report.add_removed(key.as_str(), bytes);
                    next.go_on(at + 1)
                } else {
                    next
                }
            },
            _ => next,
        }
    }
}

impl ZfsGc {
    fn go_on(self, from: usize) -> (next: ZfsGc)
        requires
            from <= self@.entries.len(),
        ensures
            next@ == self@.go_on(from as int),
    {
        let mut next = self;
        let mut i: usize = from;
        let ghost goal = self@.go_on(from as int);
        while i < next.entries.len()
            invariant
                i <= next.entries@.len(),
                goal == self@.go_on(from as int),
                next@.go_on(i as int) == goal,
            decreases next.entries@.len() - i,
        {
            let last_used: u64 = next.entries[i].last_used;
            let actual_bytes: u64 = next.entries[i].actual_bytes;
            if next.policy.is_unwanted(next.total, next.now, last_used) {
                let key = next.entries[i].key.clone();
                let ds = next.backend.blob_ds(key.as_str());
                if holds(&next.pinned, ds.as_str()) {
                    let ghost before = next@;
                    next.report.add_busy(key.as_str());
                    assert(next@ == before.kept(i as int));
                } else if next.policy.dry_run {
                    let ghost before = next@;
                    next.total = next.total.saturating_sub(actual_bytes);
                    next.report.add_removed(key.as_str(), actual_bytes);
                    assert(next@ == before.evicted(i as int));
                } else {
                    next.phase = ZfsGcPhase::Destroying { at: i };
                    return next;
                }
            }
            i = i + 1;
        }
        next.phase = ZfsGcPhase::Finished;
        next
    }

    /// The report, or why it ended; nothing while it is under way.
    pub fn outcome(self) -> (r: Option<Result<GcReport, Error>>)
        ensures
            match r {
                Some(Ok(report)) => self@.outcome() == Some(
                    Ok::<GcReportView, ErrorView>(report@),
                ),
                Some(Err(e)) => self@.outcome() == Some(Err::<GcReportView, ErrorView>(e@)),
                None => self@.outcome() is None,
            },
    {
        match self.phase {
            ZfsGcPhase::Finished => Some(Ok(self.report)),
            ZfsGcPhase::Failed => match self.failure {
                Some(e) => Some(Err(e)),
                None => None,
            },
            _ => None,
        }
    }
}

impl ZfsBackend {
    /// Evicts the least recently used images until the storage meets `policy`.
    pub fn gc(&self, policy: &GcPolicy) -> (p: ZfsGc)
        ensures
            p@ == ZfsGcView::start(self@, *policy),
    {
        let p = ZfsGc {
            backend: self.duplicate(),
            policy: *policy,
            entries: Vec::new(),
            pinned: Vec::new(),
            total: 0,
            now: 0,
            report: GcReport::empty(0, policy.dry_run),
            phase: ZfsGcPhase::Listing,
            failure: None,
        };
        assert(p@ =~= ZfsGcView::start(self@, *policy));
        p
    }
}

// ---------------------------------------------------------------------------
// What every eviction keeps to
// ---------------------------------------------------------------------------
/// Whether the position, if there is one, is that of an image that may go.
pub open spec fn may_go(s: ZfsGcView) -> bool {
    match s.phase {
        ZfsGcPhase::Destroying { at } | ZfsGcPhase::Forgetting { at } => {
            &&& at < s.entries.len()
            &&& !s.policy.dry_run
            &&& !s.pinned.contains(s.dataset(at as int))
            &&& s.policy.unwanted(s.total, s.now, s.entries[at as int].last_used)
        },
        _ => true,
    }
}

proof fn lemma_go_on(s: ZfsGcView, from: int)
    requires
        0 <= from <= s.entries.len() <= usize::MAX,
    ensures
        may_go(s.go_on(from)),
        !(s.go_on(from).phase is Forgetting),
        s.go_on(from).entries == s.entries,
        s.go_on(from).policy == s.policy,
    decreases s.entries.len() - from,
{
    if from < s.entries.len() {
        if !s.policy.unwanted(s.total, s.now, s.entries[from].last_used) {
            lemma_go_on(s, from + 1);
        } else if s.pinned.contains(s.dataset(from)) {
            lemma_go_on(s.kept(from), from + 1);
        } else if s.policy.dry_run {
            lemma_go_on(s.evicted(from), from + 1);
        }
    }
}

/// Only images that the policy does not want, and that no clone pins, are
/// destroyed; in a dry run none is, and no record is removed.
pub proof fn lemma_only_unpinned_images_go(
    backend: ZfsView,
    policy: GcPolicy,
    replies: Seq<ReplyView>,
)
    requires
        bounded(replies),
    ensures
        may_go(procedure::state_given::<ZfsGc>(ZfsGcView::start(backend, policy), replies)),
        procedure::state_given::<ZfsGc>(ZfsGcView::start(backend, policy), replies).policy
            == policy,
        procedure::state_given::<ZfsGc>(
            ZfsGcView::start(backend, policy),
            replies,
        ).entries.len() <= usize::MAX,
    decreases replies.len(),
{
    if replies.len() > 0 {
        let before = replies.drop_last();
        assert forall|i: int| #![trigger before[i]] 0 <= i < before.len() implies (
        before[i] matches ReplyView::Entries(found) ==> found.len() <= usize::MAX) by {
            assert(before[i] == replies[i]);
        }
        lemma_only_unpinned_images_go(backend, policy, before);
        let s = procedure::state_given::<ZfsGc>(ZfsGcView::start(backend, policy), before);
        let reply = replies.last();
        assert(reply == replies[replies.len() - 1]);
        match s.phase {
            ZfsGcPhase::Listing => {
                if let ReplyView::Entries(found) = reply {
                    let all = list::readable(found);
                    store::gc_laws::lemma_readable_len(found);
                    store::gc_laws::lemma_sorted_len(Order::NewestFirst, all);
                    store::gc_laws::lemma_sorted_len(
                        Order::OldestFirst,
                        list::sorted(Order::NewestFirst, all),
                    );
                }
            },
            ZfsGcPhase::Dating => {
                if let ReplyView::Time(now) = reply {
                    let t = s.dated(now);
                    lemma_go_on(t, 0);
                }
            },
            ZfsGcPhase::Destroying { at } => {
                lemma_go_on(s.kept(at as int), at + 1);
            },
            ZfsGcPhase::Forgetting { at } => {
                lemma_go_on(s.evicted(at as int), at + 1);
            },
            _ => {},
        }
    }
}

/// A record is removed only right after the dataset of its image has been
/// destroyed: an image that could not be destroyed stays listed.
pub proof fn lemma_records_outlive_datasets(s: ZfsGcView, reply: ReplyView)
    requires
        s.entries.len() <= usize::MAX,
    ensures
        ZfsGc::after(s, reply).phase is Forgetting && !(s.phase is Forgetting) ==> s.phase
            is Destroying && (reply matches ReplyView::Zfs(Ok(_))),
{
    match s.phase {
        ZfsGcPhase::Dating => {
            if let ReplyView::Time(now) = reply {
                let t = s.dated(now);
                lemma_go_on(t, 0);
            }
        },
        ZfsGcPhase::Destroying { at } => {
            if at < s.entries.len() {
                lemma_go_on(s.kept(at as int), at + 1);
            }
        },
        _ => {},
    }
}

/// How many of the records have been decided upon.
spec fn decided(s: ZfsGcView) -> int {
    match s.phase {
        ZfsGcPhase::Destroying { at } => at as int,
        ZfsGcPhase::Forgetting { at } => at as int,
        ZfsGcPhase::Finished | ZfsGcPhase::Failed => s.entries.len() as int,
        _ => 0,
    }
}

/// Whether no key is reported twice, and those that are reported are among the
/// first `n` records.
spec fn reported_once(s: ZfsGcView, n: int) -> bool {
    let removed = s.report.removed;
    let busy = s.report.kept_busy;
    &&& forall|i: int, j: int|
        0 <= i < removed.len() && 0 <= j < busy.len() ==> #[trigger] removed[i]
            != #[trigger] busy[j]
    &&& forall|i: int| 0 <= i < removed.len() ==> among(s.entries, n, #[trigger] removed[i])
    &&& forall|j: int| 0 <= j < busy.len() ==> among(s.entries, n, #[trigger] busy[j])
}

/// Whether nothing that was reported has been taken back.
spec fn still_reported(s: ZfsGcView, t: ZfsGcView) -> bool {
    &&& s.report.removed.is_prefix_of(t.report.removed)
    &&& s.report.kept_busy.is_prefix_of(t.report.kept_busy)
    &&& t.entries == s.entries
}

proof fn lemma_one_more(s: ZfsGcView, t: ZfsGcView, from: int)
    requires
        0 <= from < s.entries.len(),
        distinct_keys(s.entries),
        reported_once(s, from),
        t == s || t == s.kept(from) || t == s.evicted(from),
    ensures
        reported_once(t, from + 1),
        still_reported(s, t),
{
    let es = s.entries;
    let key = es[from].key;
    assert(among(es, from + 1, key)) by {
        assert(es[from].key == key);
    }
    assert forall|i: int| 0 <= i < s.report.removed.len() implies s.report.removed[i] != key
        && among(es, from + 1, #[trigger] s.report.removed[i]) by {
        assert(among(es, from, s.report.removed[i]));
    }
    assert forall|j: int| 0 <= j < s.report.kept_busy.len() implies s.report.kept_busy[j] != key
        && among(es, from + 1, #[trigger] s.report.kept_busy[j]) by {
        assert(among(es, from, s.report.kept_busy[j]));
    }
    assert(t.entries == es);
}

proof fn lemma_go_on_reports(s: ZfsGcView, from: int)
    requires
        0 <= from <= s.entries.len() <= usize::MAX,
        distinct_keys(s.entries),
        reported_once(s, from),
    ensures
        reported_once(s.go_on(from), decided(s.go_on(from))),
        still_reported(s, s.go_on(from)),
        s.go_on(from).phase is Destroying || s.go_on(from).phase is Finished,
        s.go_on(from).failure == s.failure,
    decreases s.entries.len() - from,
{
    if from < s.entries.len() {
        let t = if !s.policy.unwanted(s.total, s.now, s.entries[from].last_used) {
            s
        } else if s.pinned.contains(s.dataset(from)) {
            s.kept(from)
        } else if s.policy.dry_run {
            s.evicted(from)
        } else {
            s
        };
        if s.go_on(from).phase != (ZfsGcPhase::Destroying { at: from as usize })
            || !s.policy.unwanted(s.total, s.now, s.entries[from].last_used)
            || s.pinned.contains(s.dataset(from)) || s.policy.dry_run {
            lemma_one_more(s, t, from);
            lemma_go_on_reports(t, from + 1);
            assert(s.report.removed.is_prefix_of(t.report.removed));
        }
    }
}

#[verifier::rlimit(30)]
proof fn lemma_reports_step(s: ZfsGcView, reply: ReplyView)
    requires
        s.phase != ZfsGcPhase::Listing,
        s.entries.len() <= usize::MAX,
        distinct_keys(s.entries),
        may_go(s),
        reported_once(s, decided(s)),
        s.phase == ZfsGcPhase::Dating || s.phase == ZfsGcPhase::Graphing ==> s.report.removed.len()
            == 0 && s.report.kept_busy.len() == 0,
    ensures
        ({
            let next = ZfsGc::after(s, reply);
            &&& reported_once(next, decided(next))
            &&& still_reported(s, next)
        }),
{
    let next = ZfsGc::after(s, reply);
    match s.phase {
        ZfsGcPhase::Dating => {
            if let ReplyView::Time(now) = reply {
                let t = s.dated(now);
                lemma_go_on_reports(t, 0);
            }
        },
        ZfsGcPhase::Destroying { at } => {
            lemma_one_more(s, s.kept(at as int), at as int);
            lemma_go_on_reports(s.kept(at as int), at + 1);
            lemma_among_all(s, at as int);
        },
        ZfsGcPhase::Forgetting { at } => {
            lemma_one_more(s, s.evicted(at as int), at as int);
            lemma_go_on_reports(s.evicted(at as int), at + 1);
        },
        _ => {},
    }
}

proof fn lemma_among_all(s: ZfsGcView, n: int)
    requires
        n <= s.entries.len(),
        reported_once(s, n),
    ensures
        reported_once(s, s.entries.len() as int),
{
    let all = s.entries.len() as int;
    assert forall|i: int| 0 <= i < s.report.removed.len() implies among(
        s.entries,
        all,
        #[trigger] s.report.removed[i],
    ) by {
        assert(among(s.entries, n, s.report.removed[i]));
    }
    assert forall|j: int| 0 <= j < s.report.kept_busy.len() implies among(
        s.entries,
        all,
        #[trigger] s.report.kept_busy[j],
    ) by {
        assert(among(s.entries, n, s.report.kept_busy[j]));
    }
}

spec fn reports_keep(start: ZfsGcView, s: ZfsGcView) -> bool {
    &&& s.phase is Listing ==> s == start
    &&& s.phase == ZfsGcPhase::Dating || s.phase == ZfsGcPhase::Graphing ==> s.report.removed.len()
        == 0 && s.report.kept_busy.len() == 0
    &&& distinct_keys(s.entries) ==> reported_once(s, decided(s))
}

/// Whether the answers are those of a machine: a list of records is a vector.
pub open spec fn bounded(replies: Seq<ReplyView>) -> bool {
    forall|i: int| #![trigger replies[i]]
        0 <= i < replies.len() ==> (replies[i] matches ReplyView::Entries(found) ==> found.len()
            <= usize::MAX)
}

proof fn lemma_reports_run(backend: ZfsView, policy: GcPolicy, replies: Seq<ReplyView>)
    requires
        bounded(replies),
    ensures
        reports_keep(
            ZfsGcView::start(backend, policy),
            procedure::state_given::<ZfsGc>(ZfsGcView::start(backend, policy), replies),
        ),
    decreases replies.len(),
{
    if replies.len() > 0 {
        let before = replies.drop_last();
        assert forall|i: int| #![trigger before[i]] 0 <= i < before.len() implies (
        before[i] matches ReplyView::Entries(found) ==> found.len() <= usize::MAX) by {
            assert(before[i] == replies[i]);
        }
        lemma_reports_run(backend, policy, before);
        lemma_only_unpinned_images_go(backend, policy, before);
        let s = procedure::state_given::<ZfsGc>(ZfsGcView::start(backend, policy), before);
        let next = ZfsGc::after(s, replies.last());
        if s.phase != ZfsGcPhase::Listing {
            lemma_entries_stay(s, replies.last());
            if distinct_keys(s.entries) {
                lemma_reports_step(s, replies.last());
            }
        }
    }
}

proof fn lemma_entries_stay(s: ZfsGcView, reply: ReplyView)
    requires
        s.phase != ZfsGcPhase::Listing,
        s.entries.len() <= usize::MAX,
    ensures
        ZfsGc::after(s, reply).entries == s.entries,
        !(ZfsGc::after(s, reply).phase is Listing),
        ZfsGc::after(s, reply).phase is Dating || ZfsGc::after(s, reply).phase is Graphing
            ==> ZfsGc::after(s, reply).report == s.report && (s.phase is Dating || s.phase
            is Graphing),
{
    match s.phase {
        ZfsGcPhase::Dating => {
            if let ReplyView::Time(now) = reply {
                let t = s.dated(now);
                lemma_go_on_phase(t, 0);
            }
        },
        ZfsGcPhase::Destroying { at } => {
            if at < s.entries.len() {
                lemma_go_on_phase(s.kept(at as int), at + 1);
            }
        },
        ZfsGcPhase::Forgetting { at } => {
            if at < s.entries.len() {
                lemma_go_on_phase(s.evicted(at as int), at + 1);
            }
        },
        _ => {},
    }
}

proof fn lemma_go_on_phase(s: ZfsGcView, from: int)
    requires
        0 <= from <= s.entries.len() <= usize::MAX,
    ensures
        s.go_on(from).entries == s.entries,
        s.go_on(from).phase is Destroying || s.go_on(from).phase is Finished,
        s.go_on(from).phase matches ZfsGcPhase::Destroying { at } ==> at >= from,
        still_reported(s, s.go_on(from)),
    decreases s.entries.len() - from,
{
    if from < s.entries.len() {
        if !s.policy.unwanted(s.total, s.now, s.entries[from].last_used) {
            lemma_go_on_phase(s, from + 1);
        } else if s.pinned.contains(s.dataset(from)) {
            lemma_go_on_phase(s.kept(from), from + 1);
            assert(s.report.kept_busy.is_prefix_of(s.kept(from).report.kept_busy));
        } else if s.policy.dry_run {
            lemma_go_on_phase(s.evicted(from), from + 1);
            assert(s.report.removed.is_prefix_of(s.evicted(from).report.removed));
        }
    }
}

/// What has become of an image whose dataset was to be destroyed, given the
/// answer: it is noted as removed, or about to be; it is noted as one that has
/// to be kept; or the whole eviction has failed. No decision is made twice.
spec fn came_to(s: ZfsGcView, at: usize, reply: Result<Seq<char>, ErrorView>) -> bool {
    let key = s.entries[at as int].key;
    &&& match s.phase {
        ZfsGcPhase::Destroying { at: next } => next > at,
        ZfsGcPhase::Forgetting { at: next } => next > at || next == at && reply is Ok,
        ZfsGcPhase::Finished | ZfsGcPhase::Failed => true,
        _ => false,
    }
    &&& match reply {
        Ok(_) => s.report.removed.contains(key) || s.phase == ZfsGcPhase::Forgetting { at },
        Err(e) => if zfs::means_busy(e) {
            s.report.kept_busy.contains(key)
        } else {
            s.phase == ZfsGcPhase::Failed && s.failure == Some(e)
        },
    }
}

proof fn lemma_prefix_contains(a: Seq<Seq<char>>, b: Seq<Seq<char>>, key: Seq<char>)
    requires
        a.is_prefix_of(b),
        a.contains(key),
    ensures
        b.contains(key),
{
    let i = choose|i: int| 0 <= i < a.len() && a[i] == key;
    assert(b[i] == key);
}

/// What is reported stays reported.
proof fn lemma_still_reported(s: ZfsGcView, reply: ReplyView)
    requires
        s.phase != ZfsGcPhase::Listing,
        s.phase != ZfsGcPhase::Graphing,
        s.phase != ZfsGcPhase::Dating,
        s.entries.len() <= usize::MAX,
    ensures
        still_reported(s, ZfsGc::after(s, reply)),
{
    match s.phase {
        ZfsGcPhase::Destroying { at } => {
            if at < s.entries.len() {
                let t = s.kept(at as int);
                assert(s.report.kept_busy.is_prefix_of(t.report.kept_busy));
                lemma_go_on_phase(t, at + 1);
            }
        },
        ZfsGcPhase::Forgetting { at } => {
            if at < s.entries.len() {
                let t = s.evicted(at as int);
                assert(s.report.removed.is_prefix_of(t.report.removed));
                lemma_go_on_phase(t, at + 1);
            }
        },
        _ => {},
    }
}

#[verifier::rlimit(40)]
proof fn lemma_came_to(
    backend: ZfsView,
    policy: GcPolicy,
    replies: Seq<ReplyView>,
    i: int,
    at: usize,
    answer: Result<Seq<char>, ErrorView>,
)
    requires
        bounded(replies),
        0 <= i < replies.len(),
        replies[i] == ReplyView::Zfs(answer),
        procedure::state_given::<ZfsGc>(
            ZfsGcView::start(backend, policy),
            replies.take(i),
        ).phase == (ZfsGcPhase::Destroying { at }),
    ensures
        ({
            let s = procedure::state_given::<ZfsGc>(
                ZfsGcView::start(backend, policy),
                replies.take(i),
            );
            let end = procedure::state_given::<ZfsGc>(ZfsGcView::start(backend, policy), replies);
            &&& at < s.entries.len()
            &&& end.entries == s.entries
            &&& came_to(end, at, answer)
        }),
    decreases replies.len(),
{
    let start = ZfsGcView::start(backend, policy);
    let before = replies.drop_last();
    assert forall|n: int| #![trigger before[n]] 0 <= n < before.len() implies (
    before[n] matches ReplyView::Entries(found) ==> found.len() <= usize::MAX) by {
        assert(before[n] == replies[n]);
    }
    let t = procedure::state_given::<ZfsGc>(start, before);
    let next = ZfsGc::after(t, replies.last());
    lemma_only_unpinned_images_go(backend, policy, before);
    if i == before.len() {
        assert(replies.take(i) =~= before);
        let kept = t.kept(at as int);
        assert(kept.report.kept_busy.last() == t.entries[at as int].key);
        lemma_go_on_phase(kept, at + 1);
        lemma_prefix_contains(
            kept.report.kept_busy,
            kept.go_on(at + 1).report.kept_busy,
            t.entries[at as int].key,
        );
    } else {
        assert(before.take(i) =~= replies.take(i));
        assert(before[i] == replies[i]);
        lemma_came_to(backend, policy, before, i, at, answer);
        let key = t.entries[at as int].key;
        lemma_entries_stay(t, replies.last());
        lemma_still_reported(t, replies.last());
        if t.report.removed.contains(key) {
            lemma_prefix_contains(t.report.removed, next.report.removed, key);
        }
        if t.report.kept_busy.contains(key) {
            lemma_prefix_contains(t.report.kept_busy, next.report.kept_busy, key);
        }
        match t.phase {
            ZfsGcPhase::Destroying { at: here } => {
                lemma_go_on_phase(t.kept(here as int), here + 1);
            },
            ZfsGcPhase::Forgetting { at: here } => {
                let u = t.evicted(here as int);
                lemma_go_on_phase(u, here + 1);
                if here == at && next != t {
                    assert(u.report.removed.last() == key);
                    lemma_prefix_contains(u.report.removed, next.report.removed, key);
                }
            },
            _ => {},
        }
    }
}

/// Whether what is asked for in a state destroys the image of a key or removes
/// its record.
pub open spec fn goes_for(s: ZfsGcView, key: Seq<char>) -> bool {
    ||| ZfsGc::wants(s) == Some(
        RequestView::Zfs(
            procedures::destroy_args(zfs::blob_dataset(s.backend.dataset, key)),
        ),
    )
    ||| ZfsGc::wants(s) == Some(
        RequestView::Remove(store::meta_path(s.backend.mountpoint, key)),
    )
}

/// What becomes of an image that was selected, at any time after its dataset was
/// to be destroyed. If that succeeded, its record is what is removed next, and it
/// is reported as removed. An answer that it is busy makes it one that is
/// reported as kept. Any other failure ends the eviction with it, and nothing
/// more is asked for. It is not reported twice.
///
/// Records of one key are left out of what is said of the other report, since the
/// other record is decided upon for itself.
pub proof fn lemma_what_becomes_of_images(
    backend: ZfsView,
    policy: GcPolicy,
    replies: Seq<ReplyView>,
    i: int,
    at: usize,
    answer: Result<Seq<char>, ErrorView>,
)
    requires
        bounded(replies),
        0 <= i < replies.len(),
        replies[i] == ReplyView::Zfs(answer),
        procedure::state_given::<ZfsGc>(
            ZfsGcView::start(backend, policy),
            replies.take(i),
        ).phase == (ZfsGcPhase::Destroying { at }),
    ensures
        ({
            let start = ZfsGcView::start(backend, policy);
            let s = procedure::state_given::<ZfsGc>(start, replies.take(i));
            let end = procedure::state_given::<ZfsGc>(start, replies);
            let key = s.entries[at as int].key;
            match answer {
                Ok(_) => {
                    &&& ZfsGc::wants(ZfsGc::after(s, replies[i])) == Some(
                        RequestView::Remove(store::meta_path(backend.mountpoint, key)),
                    )
                    &&& end.outcome() matches Some(Ok(report)) ==> report.removed.contains(key)
                        && (distinct_keys(end.entries) ==> !report.kept_busy.contains(key))
                },
                Err(e) => if zfs::means_busy(e) {
                    end.outcome() matches Some(Ok(report)) ==> report.kept_busy.contains(key) && (
                    distinct_keys(end.entries) ==> !report.removed.contains(key))
                } else {
                    &&& end.outcome() == Some(Err::<GcReportView, ErrorView>(e))
                    &&& ZfsGc::wants(end) is None
                },
            }
        }),
{
    let start = ZfsGcView::start(backend, policy);
    lemma_came_to(backend, policy, replies, i, at, answer);
    lemma_reports_run(backend, policy, replies);
    let first = replies.take(i);
    assert forall|n: int| #![trigger first[n]] 0 <= n < first.len() implies (
    first[n] matches ReplyView::Entries(found) ==> found.len() <= usize::MAX) by {
        assert(first[n] == replies[n]);
    }
    lemma_backend_stays(backend, policy, first);
    let end = procedure::state_given::<ZfsGc>(start, replies);
    let s = procedure::state_given::<ZfsGc>(start, first);
    let key = s.entries[at as int].key;
    let report = end.report;
    if distinct_keys(end.entries) && report.removed.contains(key) && report.kept_busy.contains(
        key,
    ) {
        let a = choose|a: int| 0 <= a < report.removed.len() && report.removed[a] == key;
        let b = choose|b: int| 0 <= b < report.kept_busy.len() && report.kept_busy[b] == key;
        assert(report.removed[a] != report.kept_busy[b]);
    }
}

/// A dataset is destroyed once at the most, and an image that could not be
/// destroyed keeps its record: after the answer, neither its dataset nor its
/// record is gone for, but for the record of one that was destroyed.
///
/// Records of one key, and those of one name, are left out.
pub proof fn lemma_images_are_gone_for_once(
    backend: ZfsView,
    policy: GcPolicy,
    replies: Seq<ReplyView>,
    i: int,
    at: usize,
    answer: Result<Seq<char>, ErrorView>,
)
    requires
        bounded(replies),
        0 <= i < replies.len(),
        replies[i] == ReplyView::Zfs(answer),
        procedure::state_given::<ZfsGc>(
            ZfsGcView::start(backend, policy),
            replies.take(i),
        ).phase == (ZfsGcPhase::Destroying { at }),
        distinct_records(
            backend.mountpoint,
            procedure::state_given::<ZfsGc>(ZfsGcView::start(backend, policy), replies).entries,
        ),
    ensures
        ({
            let start = ZfsGcView::start(backend, policy);
            let s = procedure::state_given::<ZfsGc>(start, replies.take(i));
            let end = procedure::state_given::<ZfsGc>(start, replies);
            goes_for(end, s.entries[at as int].key) ==> answer is Ok && end.phase
                == (ZfsGcPhase::Forgetting { at })
        }),
{
    let end = procedure::state_given::<ZfsGc>(ZfsGcView::start(backend, policy), replies);
    lemma_came_to(backend, policy, replies, i, at, answer);
    lemma_only_unpinned_images_go(backend, policy, replies);
    lemma_backend_stays(backend, policy, replies);
    let key = end.entries[at as int].key;
    match end.phase {
        ZfsGcPhase::Destroying { at: here } => {
            let other = end.entries[here as int].key;
            assert(store::meta_path(backend.mountpoint, key) != store::meta_path(
                backend.mountpoint,
                other,
            ));
            let a = procedures::destroy_args(zfs::blob_dataset(backend.dataset, key));
            let b = procedures::destroy_args(zfs::blob_dataset(backend.dataset, other));
            if a == b {
                assert(a.last() == b.last());
                lemma_dataset_of_a_key(backend.dataset, key, other);
            }
        },
        ZfsGcPhase::Forgetting { at: here } => {
            if here != at {
                assert(store::meta_path(backend.mountpoint, end.entries[at as int].key)
                    != store::meta_path(backend.mountpoint, end.entries[here as int].key));
            }
        },
        _ => {},
    }
}

proof fn lemma_dataset_of_a_key(dataset: Seq<char>, a: Seq<char>, b: Seq<char>)
    requires
        zfs::blob_dataset(dataset, a) == zfs::blob_dataset(dataset, b),
    ensures
        a == b,
{
    let x = zfs::blob_dataset(dataset, a);
    let y = zfs::blob_dataset(dataset, b);
    let n = x.len() - a.len();
    assert(x.skip(n) =~= a);
    assert(y.skip(n) =~= b);
}

impl ZfsGcView {
    /// In a dry run, with the images decided upon that stand in front of a
    /// position.
    pub open spec fn supposed(self, at: int) -> ZfsGcView
        decreases at,
    {
        if at <= 0 {
            self
        } else {
            let before = self.supposed(at - 1);
            let e = self.entries[at - 1];
            if !before.policy.unwanted(before.total, before.now, e.last_used) {
                before
            } else if before.pinned.contains(before.dataset(at - 1)) {
                before.kept(at - 1)
            } else {
                before.evicted(at - 1)
            }
        }
    }
}

proof fn lemma_supposed(s: ZfsGcView, at: int)
    requires
        s.policy.dry_run,
        0 <= at <= s.entries.len() <= usize::MAX,
    ensures
        s.supposed(at).go_on(at) == s.go_on(0),
        s.supposed(at).entries == s.entries,
        s.supposed(at).policy == s.policy,
        s.supposed(at).pinned == s.pinned,
        s.supposed(at).backend == s.backend,
        s.supposed(at).now == s.now,
    decreases at,
{
    if at > 0 {
        lemma_supposed(s, at - 1);
    }
}

/// A dry run ends once it knows the time, without asking for anything to be
/// destroyed or removed. It goes through the images as a real one would if
/// everything succeeded: one that is unwanted by then is reported as kept if a
/// clone pins it, and as removed otherwise.
pub proof fn lemma_dry_run_tells_what_would_go(s: ZfsGcView, now: u64, at: int)
    requires
        s.phase == ZfsGcPhase::Dating,
        s.policy.dry_run,
        0 <= at < s.entries.len() <= usize::MAX,
    ensures
        ({
            let end = ZfsGc::after(s, ReplyView::Time(now));
            let before = s.dated(now).supposed(at);
            let key = s.entries[at].key;
            &&& end.outcome() matches Some(Ok(report)) && {
                s.policy.unwanted(before.total, now, s.entries[at].last_used)
                    ==> if s.pinned.contains(s.dataset(at)) {
                    report.kept_busy.contains(key)
                } else {
                    report.removed.contains(key)
                }
            }
            &&& ZfsGc::wants(end) is None
        }),
{
    let t = s.dated(now);
    lemma_go_on(t, 0);
    lemma_go_on_phase(t, 0);
    lemma_supposed(t, at);
    lemma_supposed(t, at + 1);
    let after = t.supposed(at + 1);
    lemma_go_on_phase(after, at + 1);
    let end = t.go_on(0);
    let key = s.entries[at].key;
    let before = t.supposed(at);
    if s.policy.unwanted(before.total, now, s.entries[at].last_used) {
        if s.pinned.contains(s.dataset(at)) {
            assert(after.report.kept_busy.last() == key);
            lemma_prefix_contains(after.report.kept_busy, end.report.kept_busy, key);
        } else {
            assert(after.report.removed.last() == key);
            lemma_prefix_contains(after.report.removed, end.report.removed, key);
        }
    }
}

proof fn lemma_go_on_backend(s: ZfsGcView, from: int)
    ensures
        s.go_on(from).backend == s.backend,
    decreases s.entries.len() - from,
{
    if from < s.entries.len() {
        lemma_go_on_backend(s, from + 1);
        lemma_go_on_backend(s.kept(from), from + 1);
        lemma_go_on_backend(s.evicted(from), from + 1);
    }
}

proof fn lemma_backend_stays(backend: ZfsView, policy: GcPolicy, replies: Seq<ReplyView>)
    ensures
        procedure::state_given::<ZfsGc>(ZfsGcView::start(backend, policy), replies).backend
            == backend,
{
    let inv = |s: ZfsGcView| s.backend == backend;
    assert forall|s: ZfsGcView, reply: ReplyView| inv(s) implies inv(
        #[trigger] ZfsGc::after(s, reply),
    ) by {
        match s.phase {
            ZfsGcPhase::Dating => {
                if let ReplyView::Time(now) = reply {
                    let t = s.dated(now);
                    lemma_go_on_backend(t, 0);
                }
            },
            ZfsGcPhase::Destroying { at } => {
                lemma_go_on_backend(s.kept(at as int), at + 1);
            },
            ZfsGcPhase::Forgetting { at } => {
                lemma_go_on_backend(s.evicted(at as int), at + 1);
            },
            _ => {},
        }
    }
    procedure::lemma_kept::<ZfsGc>(inv, ZfsGcView::start(backend, policy), replies);
}

} // verus!
