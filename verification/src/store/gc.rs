//! Evicting stored images until a store meets a policy.

use super::list::{self, Order};
use super::{Entry, EntryView, Store};
use crate::error::{self, Error, ErrorView, IoError, IoErrorView, IoKind};
use crate::host::{Reply, ReplyView, Request, RequestView};
use crate::path;
use crate::procedure::Procedure;
use crate::store;
use crate::text;
use vstd::prelude::*;

verus! {

/// What a store should come down to.
#[derive(Debug, Clone, Copy, PartialEq, Eq, Structural)]
pub struct GcPolicy {
    /// The bytes that all images together may occupy.
    pub max_bytes: Option<u64>,
    /// The seconds for which an image may go unused.
    pub keep_secs: Option<u64>,
    /// Only say what would be done.
    pub dry_run: bool,
}

impl Default for GcPolicy {
    /// No limit at all.
    fn default() -> (p: GcPolicy)
        ensures
            p == (GcPolicy { max_bytes: None, keep_secs: None, dry_run: false }),
    {
        GcPolicy { max_bytes: None, keep_secs: None, dry_run: false }
    }
}

impl GcPolicy {
    /// Whether the store is over its size.
    pub open spec fn over_size(self, total: u64) -> bool {
        self.max_bytes matches Some(m) && total > m
    }

    /// Whether an image has not been used for too long.
    pub open spec fn too_old(self, now: u64, last_used: u64) -> bool {
        self.keep_secs matches Some(k) && now.saturating_sub(last_used) > k
    }

    /// Whether an image is to go, in a store of `total` bytes at the time `now`.
    pub open spec fn unwanted(self, total: u64, now: u64, last_used: u64) -> bool {
        self.over_size(total) || self.too_old(now, last_used)
    }

    /// Whether an image is to go, in a store of `total` bytes at the time `now`.
    pub fn is_unwanted(self, total: u64, now: u64, last_used: u64) -> (r: bool)
        ensures
            r == self.unwanted(total, now, last_used),
    {
        let over_size = match self.max_bytes {
            Some(m) => total > m,
            None => false,
        };
        let too_old = match self.keep_secs {
            Some(k) => now.saturating_sub(last_used) > k,
            None => false,
        };
        over_size || too_old
    }
}

/// What an eviction has done, or would do.
#[derive(Debug)]
pub struct GcReport {
    pub removed: Vec<String>,
    /// Images that stay because something still links to them.
    pub kept_linked: usize,
    /// Images that could not be removed. Their records stay, so that a later
    /// eviction still sees them.
    pub kept_busy: Vec<String>,
    pub freed_bytes: u64,
    pub total_before: u64,
    pub dry_run: bool,
    /// Why it stopped although the store is still over its size.
    pub stopped_early: Option<String>,
}

/// A [`GcReport`] as a mathematical value.
#[verifier::ext_equal]
pub struct GcReportView {
    pub removed: Seq<Seq<char>>,
    pub kept_linked: usize,
    pub kept_busy: Seq<Seq<char>>,
    pub freed_bytes: u64,
    pub total_before: u64,
    pub dry_run: bool,
    pub stopped_early: Option<Seq<char>>,
}

impl View for GcReport {
    type V = GcReportView;

    open spec fn view(&self) -> GcReportView {
        GcReportView {
            removed: text::views(self.removed@),
            kept_linked: self.kept_linked,
            kept_busy: text::views(self.kept_busy@),
            freed_bytes: self.freed_bytes,
            total_before: self.total_before,
            dry_run: self.dry_run,
            stopped_early: match self.stopped_early {
                Some(s) => Some(s@),
                None => None,
            },
        }
    }
}

impl GcReportView {
    /// Nothing done yet.
    pub open spec fn empty(total_before: u64, dry_run: bool) -> GcReportView {
        GcReportView {
            removed: seq![],
            kept_linked: 0,
            kept_busy: seq![],
            freed_bytes: 0,
            total_before,
            dry_run,
            stopped_early: None,
        }
    }

    /// With one more image gone, which occupied `claimed` bytes.
    pub open spec fn with_removed(self, key: Seq<char>, claimed: u64) -> GcReportView {
        GcReportView {
            removed: self.removed.push(key),
            freed_bytes: self.freed_bytes.wrapping_add(claimed),
            ..self
        }
    }
}

impl GcReport {
    /// Nothing done yet.
    pub fn empty(total_before: u64, dry_run: bool) -> (r: GcReport)
        ensures
            r@ == GcReportView::empty(total_before, dry_run),
    {
        let r = GcReport {
            removed: Vec::new(),
            kept_linked: 0,
            kept_busy: Vec::new(),
            freed_bytes: 0,
            total_before,
            dry_run,
            stopped_early: None,
        };
        assert(r@ =~= GcReportView::empty(total_before, dry_run));
        r
    }

    /// Notes one more image as gone, which occupied `claimed` bytes.
    pub fn add_removed(&mut self, key: &str, claimed: u64)
        ensures
            final(self)@ == old(self)@.with_removed(key@, claimed),
    {
        let ghost before = self@;
        self.removed.push(key.to_owned());
        self.freed_bytes = self.freed_bytes.wrapping_add(claimed);
        assert(self@ =~= before.with_removed(key@, claimed));
    }

    /// Notes an image that could not be removed.
    pub fn add_busy(&mut self, key: &str)
        ensures
            final(self)@ == (GcReportView {
                kept_busy: old(self)@.kept_busy.push(key@),
                ..old(self)@
            }),
    {
        let ghost before = self@;
        self.kept_busy.push(key.to_owned());
        assert(self@ =~= (GcReportView { kept_busy: before.kept_busy.push(key@), ..before }));
    }
}

/// What is reported when removing images does not free space.
pub open spec fn no_progress() -> Seq<char> {
    "measured free space barely moved -- these blobs appear to share blocks with something else; stopping rather than evicting the whole store"@
}

/// The first position from `from` on at which a record is unwanted, or the
/// number of records if there is none.
pub open spec fn next_unwanted(
    policy: GcPolicy,
    entries: Seq<EntryView>,
    total: u64,
    now: u64,
    from: int,
) -> int
    decreases entries.len() - from,
{
    if from >= entries.len() {
        entries.len() as int
    } else if policy.unwanted(total, now, entries[from].last_used) {
        from
    } else {
        next_unwanted(policy, entries, total, now, from + 1)
    }
}

/// `next_unwanted` is the first such position.
pub proof fn lemma_next_unwanted(
    policy: GcPolicy,
    entries: Seq<EntryView>,
    total: u64,
    now: u64,
    from: int,
)
    requires
        0 <= from <= entries.len(),
    ensures
        from <= next_unwanted(policy, entries, total, now, from) <= entries.len(),
        next_unwanted(policy, entries, total, now, from) < entries.len() ==> policy.unwanted(
            total,
            now,
            entries[next_unwanted(policy, entries, total, now, from)].last_used,
        ),
        forall|i: int|
            from <= i < next_unwanted(policy, entries, total, now, from) ==> !policy.unwanted(
                total,
                now,
                (#[trigger] entries[i]).last_used,
            ),
    decreases entries.len() - from,
{
    if from < entries.len() && !policy.unwanted(total, now, entries[from].last_used) {
        lemma_next_unwanted(policy, entries, total, now, from + 1);
    }
}

/// The first position from `from` on at which a record is unwanted.
pub fn find_unwanted(
    policy: GcPolicy,
    entries: &[Entry],
    total: u64,
    now: u64,
    from: usize,
) -> (at: usize)
    requires
        from <= entries@.len(),
    ensures
        at == next_unwanted(policy, list::entry_views(entries@), total, now, from as int),
{
    let ghost all = list::entry_views(entries@);
    let mut at: usize = from;
    while at < entries.len() && !policy.is_unwanted(total, now, entries[at].last_used)
        invariant
            at <= entries@.len(),
            all == list::entry_views(entries@),
            next_unwanted(policy, all, total, now, from as int) == next_unwanted(
                policy,
                all,
                total,
                now,
                at as int,
            ),
        decreases entries@.len() - at,
    {
        assert(all[at as int] == entries@[at as int]@);
        at = at + 1;
    }
    if at < entries.len() {
        assert(all[at as int] == entries@[at as int]@);
    }
    at
}

/// How far a [`Gc`] has come.
#[derive(Debug, Clone, Copy, PartialEq, Eq, Structural)]
pub enum GcPhase {
    Listing,
    /// Adding up what the images occupy now.
    Measuring { at: usize },
    Dating,
    /// Is the image linked from elsewhere?
    Checking { at: usize },
    /// How much does it occupy?
    Sizing { at: usize },
    Removing { at: usize, claimed: u64 },
    /// Removing the record of an image that is gone.
    Forgetting { at: usize, claimed: u64 },
    /// Has the disk become emptier?
    Weighing { at: usize, claimed: u64 },
    Finished,
    Failed,
}

/// Evicting the least recently used images until a policy is met.
///
/// An image that is linked from elsewhere is never evicted. What an image
/// occupies is measured when it is needed, since on a filesystem that shares
/// blocks it changes. The record of an image goes only after the image, so
/// that nothing that takes up space becomes invisible. Under a limit on the
/// size it stops when removing images does not free space.
#[derive(Debug)]
pub struct Gc {
    store: Store,
    policy: GcPolicy,
    /// The records, the least recently used first.
    entries: Vec<Entry>,
    total: u64,
    now: u64,
    last_free: Option<u64>,
    report: GcReport,
    phase: GcPhase,
    failure: Option<IoError>,
}

/// A [`Gc`] as a mathematical value.
#[verifier::ext_equal]
pub struct GcView {
    pub root: Seq<u8>,
    pub policy: GcPolicy,
    pub entries: Seq<EntryView>,
    pub total: u64,
    pub now: u64,
    pub last_free: Option<u64>,
    pub report: GcReportView,
    pub phase: GcPhase,
    pub failure: Option<IoErrorView>,
}

impl View for Gc {
    type V = GcView;

    closed spec fn view(&self) -> GcView {
        GcView {
            root: self.store@,
            policy: self.policy,
            entries: list::entry_views(self.entries@),
            total: self.total,
            now: self.now,
            last_free: self.last_free,
            report: self.report@,
            phase: self.phase,
            failure: error::failure_view(self.failure),
        }
    }
}

impl GcView {
    /// Before the first step.
    pub open spec fn start(root: Seq<u8>, policy: GcPolicy) -> GcView {
        GcView {
            root,
            policy,
            entries: seq![],
            total: 0,
            now: 0,
            last_free: None,
            report: GcReportView::empty(0, policy.dry_run),
            phase: GcPhase::Listing,
            failure: None,
        }
    }

    pub open spec fn blob(self, at: usize) -> Seq<u8> {
        store::blob_path(self.root, self.entries[at as int].key)
    }

    pub open spec fn meta(self, at: usize) -> Seq<u8> {
        store::meta_path(self.root, self.entries[at as int].key)
    }

    /// Whether a position is one of a record. It is, in every phase that has
    /// one, see [`lemma_positions`].
    pub open spec fn at_entry(self, at: usize) -> bool {
        at < self.entries.len()
    }

    pub open spec fn to(self, phase: GcPhase) -> GcView {
        GcView { phase, ..self }
    }

    pub open spec fn fail(self, e: IoErrorView) -> GcView {
        GcView { phase: GcPhase::Failed, failure: Some(e), ..self }
    }

    /// On to the measurement of the next image, or to the decisions.
    pub open spec fn measured(self, at: usize, bytes: u64) -> GcView {
        let sum = GcView { total: self.total.wrapping_add(bytes), ..self };
        if at + 1 < self.entries.len() {
            sum.to(GcPhase::Measuring { at: (at + 1) as usize })
        } else {
            sum.to(GcPhase::Dating)
        }
    }

    /// On to the next unwanted image from a position on.
    pub open spec fn go_on(self, from: int) -> GcView {
        let at = next_unwanted(self.policy, self.entries, self.total, self.now, from);
        if at < self.entries.len() {
            self.to(GcPhase::Checking { at: at as usize })
        } else {
            self.to(GcPhase::Finished)
        }
    }

    /// The size of the image is known.
    pub open spec fn sized(self, at: usize, claimed: u64) -> GcView {
        if self.policy.dry_run {
            self.evicted(at, claimed)
        } else {
            self.to(GcPhase::Removing { at, claimed })
        }
    }

    /// The image is out of the store, or would be.
    pub open spec fn evicted(self, at: usize, claimed: u64) -> GcView {
        GcView {
            total: self.total.saturating_sub(claimed),
            report: self.report.with_removed(self.entries[at as int].key, claimed),
            ..self
        }.go_on(at + 1)
    }

    /// The record is gone as well, or could not be removed.
    pub open spec fn forgotten(self, at: usize, claimed: u64) -> GcView {
        if self.policy.max_bytes is Some && claimed > 0 {
            self.to(GcPhase::Weighing { at, claimed })
        } else {
            self.evicted(at, claimed)
        }
    }

    /// The free space is known. It has to have grown by a quarter of what the
    /// image claimed to occupy; the first measurement has nothing to go by.
    pub open spec fn weighed(self, at: usize, claimed: u64, free: Option<u64>) -> GcView {
        match (free, self.last_free) {
            (None, _) => self.evicted(at, claimed),
            (Some(f), None) => GcView { last_free: Some(f), ..self }.evicted(at, claimed),
            (Some(f), Some(before)) => if f.saturating_sub(before).wrapping_mul(4) < claimed {
                GcView {
                    last_free: Some(f),
                    report: GcReportView {
                        stopped_early: Some(no_progress()),
                        ..self.report.with_removed(self.entries[at as int].key, claimed)
                    },
                    phase: GcPhase::Finished,
                    ..self
                }
            } else {
                GcView { last_free: Some(f), ..self }.evicted(at, claimed)
            },
        }
    }

    /// What came of it: the report, or why the store could not be listed.
    pub open spec fn outcome(self) -> Option<Result<GcReportView, ErrorView>> {
        match (self.phase, self.failure) {
            (GcPhase::Finished, _) => Some(Ok(self.report)),
            (GcPhase::Failed, Some(e)) => Some(Err(ErrorView::Io(e))),
            _ => None,
        }
    }
}

impl Procedure for Gc {
    type Request = Request;

    type Reply = Reply;

    open spec fn wants(state: GcView) -> Option<RequestView> {
        match state.phase {
            GcPhase::Listing => Some(RequestView::ListEntries(list::records_path(state.root))),
            GcPhase::Measuring { at } if state.at_entry(at) => Some(
                RequestView::Stat(state.blob(at)),
            ),
            GcPhase::Dating => Some(RequestView::Now),
            GcPhase::Checking { at } if state.at_entry(at) => Some(
                RequestView::Stat(state.blob(at)),
            ),
            GcPhase::Sizing { at } if state.at_entry(at) => Some(RequestView::Stat(state.blob(at))),
            GcPhase::Removing { at, .. } if state.at_entry(at) => Some(
                RequestView::Remove(state.blob(at)),
            ),
            GcPhase::Forgetting { at, .. } if state.at_entry(at) => Some(
                RequestView::Remove(state.meta(at)),
            ),
            GcPhase::Weighing { at, .. } if state.at_entry(at) => Some(
                RequestView::FreeSpace(state.root),
            ),
            _ => None,
        }
    }

    open spec fn after(state: GcView, reply: ReplyView) -> GcView {
        match (state.phase, reply) {
            (GcPhase::Listing, ReplyView::Entries(found)) => {
                let entries = list::sorted(
                    Order::OldestFirst,
                    list::sorted(Order::NewestFirst, list::readable(found)),
                );
                let listed = GcView { entries, ..state };
                if entries.len() > 0 {
                    listed.to(GcPhase::Measuring { at: 0 })
                } else {
                    listed.to(GcPhase::Dating)
                }
            },
            (GcPhase::Listing, ReplyView::Failed(e)) => state.fail(e),
            (GcPhase::Measuring { at }, ReplyView::Stat(s)) if state.at_entry(at) =>
                state.measured(at, s.allocated),
            (GcPhase::Measuring { at }, ReplyView::Failed(_)) if state.at_entry(at) =>
                state.measured(at, state.entries[at as int].actual_bytes),
            (GcPhase::Dating, ReplyView::Time(now)) => GcView {
                now,
                report: GcReportView::empty(state.total, state.policy.dry_run),
                ..state
            }.go_on(0),
            (GcPhase::Checking { at }, ReplyView::Stat(s)) if state.at_entry(at) => if s.links > 1 {
                GcView {
                    report: GcReportView {
                        kept_linked: state.report.kept_linked.wrapping_add(1),
                        ..state.report
                    },
                    ..state
                }.go_on(at + 1)
            } else {
                state.to(GcPhase::Sizing { at })
            },
            (GcPhase::Checking { at }, ReplyView::Failed(_)) if state.at_entry(at) => state.to(
                GcPhase::Sizing { at },
            ),
            (GcPhase::Sizing { at }, ReplyView::Stat(s)) if state.at_entry(at) => state.sized(
                at,
                s.allocated,
            ),
            (GcPhase::Sizing { at }, ReplyView::Failed(_)) if state.at_entry(at) => state.sized(
                at,
                state.entries[at as int].actual_bytes,
            ),
            (GcPhase::Removing { at, claimed }, ReplyView::Done) if state.at_entry(at) => state.to(
                GcPhase::Forgetting { at, claimed },
            ),
            (GcPhase::Removing { at, claimed }, ReplyView::Failed(e)) if state.at_entry(at) =>
                if e.kind == IoKind::NotFound {
                    state.to(GcPhase::Forgetting { at, claimed })
                } else {
                    GcView {
                        report: GcReportView {
                            kept_busy: state.report.kept_busy.push(state.entries[at as int].key),
                            ..state.report
                        },
                        ..state
                    }.go_on(at + 1)
                },
            (GcPhase::Forgetting { at, claimed }, ReplyView::Done) if state.at_entry(at) =>
                state.forgotten(at, claimed),
            (GcPhase::Forgetting { at, claimed }, ReplyView::Failed(_)) if state.at_entry(at) =>
                state.forgotten(at, claimed),
            (GcPhase::Weighing { at, claimed }, ReplyView::Space(free)) if state.at_entry(at) =>
                state.weighed(at, claimed, free),
            _ => state,
        }
    }

    fn request(&self) -> (request: Option<Request>) {
        match self.phase {
            GcPhase::Listing => Some(Request::ListEntries(self.store.records())),
            GcPhase::Dating => Some(Request::Now),
            GcPhase::Measuring { at } | GcPhase::Checking { at } | GcPhase::Sizing { at } => if at
                < self.entries.len() {
                Some(Request::Stat(self.store.blob(self.entries[at].key.as_str())))
            } else {
                None
            },
            GcPhase::Removing { at, .. } => if at < self.entries.len() {
                Some(Request::Remove(self.store.blob(self.entries[at].key.as_str())))
            } else {
                None
            },
            GcPhase::Forgetting { at, .. } => if at < self.entries.len() {
                Some(Request::Remove(self.store.meta(self.entries[at].key.as_str())))
            } else {
                None
            },
            GcPhase::Weighing { at, .. } => if at < self.entries.len() {
                Some(Request::FreeSpace(path::copy_of(self.store.root())))
            } else {
                None
            },
            GcPhase::Finished | GcPhase::Failed => None,
        }
    }

    fn resume(self, reply: Reply) -> (next: Gc) {
        let mut next = self;
        match (next.phase, reply) {
            (GcPhase::Listing, Reply::Entries(found)) => {
                let newest = list::sort(Order::NewestFirst, list::keep_readable(found));
                next.entries = list::sort(Order::OldestFirst, newest);
                next.phase = if next.entries.len() > 0 {
                    GcPhase::Measuring { at: 0 }
                } else {
                    GcPhase::Dating
                };
                next
            },
            (GcPhase::Listing, Reply::Failed(e)) => {
                next.failure = Some(e);
                next.phase = GcPhase::Failed;
                next
            },
            (GcPhase::Measuring { at }, Reply::Stat(s)) => if at < next.entries.len() {
                next.measured(at, s.allocated)
            } else {
                next
            },
            (GcPhase::Measuring { at }, Reply::Failed(_)) => if at < next.entries.len() {
                let recorded: u64 = next.entries[at].actual_bytes;
                next.measured(at, recorded)
            } else {
                next
            },
            (GcPhase::Dating, Reply::Time(now)) => {
                next.now = now;
                next.report = GcReport::empty(next.total, next.policy.dry_run);
                next.go_on(0)
            },
            (GcPhase::Checking { at }, Reply::Stat(s)) => if at < next.entries.len() {
                if s.links > 1 {
                    next.report.kept_linked = next.report.kept_linked.wrapping_add(1);
                    next.go_on(at + 1)
                } else {
                    next.phase = GcPhase::Sizing { at };
                    next
                }
            } else {
                next
            },
            (GcPhase::Checking { at }, Reply::Failed(_)) => {
                if at < next.entries.len() {
                    next.phase = GcPhase::Sizing { at };
                }
                next
            },
            (GcPhase::Sizing { at }, Reply::Stat(s)) => if at < next.entries.len() {
                next.sized(at, s.allocated)
            } else {
                next
            },
            (GcPhase::Sizing { at }, Reply::Failed(_)) => if at < next.entries.len() {
                let recorded: u64 = next.entries[at].actual_bytes;
                next.sized(at, recorded)
            } else {
                next
            },
            (GcPhase::Removing { at, claimed }, Reply::Done) => {
                if at < next.entries.len() {
                    next.phase = GcPhase::Forgetting { at, claimed };
                }
                next
            },
            (GcPhase::Removing { at, claimed }, Reply::Failed(e)) => if at < next.entries.len() {
                if e.kind == IoKind::NotFound {
                    next.phase = GcPhase::Forgetting { at, claimed };
                    next
                } else {
                    let key = next.entries[at].key.clone();
                    next.report.add_busy(key.as_str());
                    next.go_on(at + 1)
                }
            } else {
                next
            },
            (GcPhase::Forgetting { at, claimed }, Reply::Done) => if at < next.entries.len() {
                next.forgotten(at, claimed)
            } else {
                next
            },
            (GcPhase::Forgetting { at, claimed }, Reply::Failed(_)) => if at < next.entries.len() {
                next.forgotten(at, claimed)
            } else {
                next
            },
            (GcPhase::Weighing { at, claimed }, Reply::Space(free)) => if at < next.entries.len() {
                next.weighed(at, claimed, free)
            } else {
                next
            },
            _ => next,
        }
    }
}

impl Gc {
    fn measured(self, at: usize, bytes: u64) -> (next: Gc)
        requires
            self@.at_entry(at),
        ensures
            next@ == self@.measured(at, bytes),
    {
        let mut next = self;
        next.total = next.total.wrapping_add(bytes);
        assert(at < next.entries.len());
        next.phase = if at + 1 < next.entries.len() {
            GcPhase::Measuring { at: at + 1 }
        } else {
            GcPhase::Dating
        };
        next
    }

    fn go_on(self, from: usize) -> (next: Gc)
        requires
            from <= self@.entries.len(),
        ensures
            next@ == self@.go_on(from as int),
    {
        let mut next = self;
        let at: usize = find_unwanted(next.policy, &next.entries, next.total, next.now, from);
        proof {
            lemma_next_unwanted(next.policy, next@.entries, next.total, next.now, from as int);
        }
        next.phase = if at < next.entries.len() {
            GcPhase::Checking { at }
        } else {
            GcPhase::Finished
        };
        next
    }

    fn sized(self, at: usize, claimed: u64) -> (next: Gc)
        requires
            self@.at_entry(at),
        ensures
            next@ == self@.sized(at, claimed),
    {
        let mut next = self;
        if next.policy.dry_run {
            next.evicted(at, claimed)
        } else {
            next.phase = GcPhase::Removing { at, claimed };
            next
        }
    }

    fn evicted(self, at: usize, claimed: u64) -> (next: Gc)
        requires
            self@.at_entry(at),
        ensures
            next@ == self@.evicted(at, claimed),
    {
        let mut next = self;
        let key = next.entries[at].key.clone();
        next.total = next.total.saturating_sub(claimed);
        next.report.add_removed(key.as_str(), claimed);
        assert(at < next.entries.len());
        next.go_on(at + 1)
    }

    fn forgotten(self, at: usize, claimed: u64) -> (next: Gc)
        requires
            self@.at_entry(at),
        ensures
            next@ == self@.forgotten(at, claimed),
    {
        let mut next = self;
        if next.policy.max_bytes.is_some() && claimed > 0 {
            next.phase = GcPhase::Weighing { at, claimed };
            next
        } else {
            next.evicted(at, claimed)
        }
    }

    fn weighed(self, at: usize, claimed: u64, free: Option<u64>) -> (next: Gc)
        requires
            self@.at_entry(at),
        ensures
            next@ == self@.weighed(at, claimed, free),
    {
        let mut next = self;
        match (free, next.last_free) {
            (None, _) => next.evicted(at, claimed),
            (Some(f), None) => {
                next.last_free = Some(f);
                next.evicted(at, claimed)
            },
            (Some(f), Some(before)) => {
                next.last_free = Some(f);
                if f.saturating_sub(before).wrapping_mul(4) < claimed {
                    let key = next.entries[at].key.clone();
                    next.report.add_removed(key.as_str(), claimed);
                    next.report.stopped_early = Some(
                        "measured free space barely moved -- these blobs appear to share blocks with something else; stopping rather than evicting the whole store".to_owned(),
                    );
                    next.phase = GcPhase::Finished;
                    next
                } else {
                    next.evicted(at, claimed)
                }
            },
        }
    }

    /// What came of it: the report, or why the store could not be listed;
    /// nothing while it is under way.
    pub fn outcome(self) -> (r: Option<Result<GcReport, Error>>)
        ensures
            match r {
                Some(Ok(report)) => self@.outcome() == Some(
                    Ok::<GcReportView, ErrorView>(report@),
                ),
                Some(Err(e)) => self@.outcome() == Some(Err::<GcReportView, ErrorView>(e@)),
                None => self@.outcome() is None,
            },
    {
        match self.phase {
            GcPhase::Finished => Some(Ok(self.report)),
            GcPhase::Failed => match self.failure {
                Some(e) => Some(Err(Error::Io(e))),
                None => None,
            },
            _ => None,
        }
    }
}

impl Store {
    /// Evicts the least recently used images until the store meets `policy`.
    pub fn gc(&self, policy: &GcPolicy) -> (p: Gc)
        ensures
            p@ == GcView::start(self@, *policy),
    {
        let p = Gc {
            store: self.duplicate(),
            policy: *policy,
            entries: Vec::new(),
            total: 0,
            now: 0,
            last_free: None,
            report: GcReport::empty(0, policy.dry_run),
            phase: GcPhase::Listing,
            failure: None,
        };
        assert(p@ =~= GcView::start(self@, *policy));
        p
    }
}

} // verus!
