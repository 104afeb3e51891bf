//! The records of a store, in order of use.

use super::{Entry, EntryView, Store};
use crate::error::{Error, IoError, IoErrorView};
use crate::host::{self, Reply, ReplyView, Request, RequestView};
use crate::path;
use crate::procedure::Procedure;
use vstd::prelude::*;
use vstd::utf8::*;

verus! {

/// The directions in which records are put in order of their last use.
#[derive(Debug, Clone, Copy, PartialEq, Eq, Structural)]
pub enum Order {
    NewestFirst,
    OldestFirst,
}

impl Order {
    /// Whether `a` may stand in front of `b`.
    pub open spec fn in_order(self, a: u64, b: u64) -> bool {
        match self {
            Order::NewestFirst => a >= b,
            Order::OldestFirst => a <= b,
        }
    }

    /// Whether `a` may stand in front of `b`.
    fn allows(self, a: u64, b: u64) -> (r: bool)
        ensures
            r == self.in_order(a, b),
    {
        match self {
            Order::NewestFirst => a >= b,
            Order::OldestFirst => a <= b,
        }
    }
}

/// `s` with `e` behind everything that may stand in front of it.
pub open spec fn placed(order: Order, s: Seq<EntryView>, e: EntryView) -> Seq<EntryView>
    decreases s.len(),
{
    if s.len() == 0 || order.in_order(s.last().last_used, e.last_used) {
        s.push(e)
    } else {
        placed(order, s.drop_last(), e).push(s.last())
    }
}

/// The records of `s` in order; those of one date keep the order they had, see
/// [`lemma_sorted`].
pub open spec fn sorted(order: Order, s: Seq<EntryView>) -> Seq<EntryView>
    decreases s.len(),
{
    if s.len() == 0 {
        s
    } else {
        placed(order, sorted(order, s.drop_last()), s.last())
    }
}

/// The records among what was found.
pub open spec fn readable(found: Seq<Option<EntryView>>) -> Seq<EntryView>
    decreases found.len(),
{
    if found.len() == 0 {
        seq![]
    } else {
        match found.last() {
            Some(e) => readable(found.drop_last()).push(e),
            None => readable(found.drop_last()),
        }
    }
}

/// Records as mathematical values.
pub open spec fn entry_views(v: Seq<Entry>) -> Seq<EntryView> {
    v.map_values(|e: Entry| e@)
}

/// The records of one date.
pub open spec fn used_at(s: Seq<EntryView>, t: u64) -> Seq<EntryView> {
    s.filter(|e: EntryView| e.last_used == t)
}

/// Whether every record may stand where it does.
pub open spec fn is_sorted(order: Order, s: Seq<EntryView>) -> bool {
    forall|i: int, j: int|
        0 <= i < j < s.len() ==> order.in_order(
            (#[trigger] s[i]).last_used,
            (#[trigger] s[j]).last_used,
        )
}

proof fn lemma_placed(order: Order, s: Seq<EntryView>, e: EntryView)
    requires
        is_sorted(order, s),
    ensures
        is_sorted(order, placed(order, s, e)),
        placed(order, s, e).to_multiset() == s.to_multiset().insert(e),
        forall|t: u64| #[trigger]
            used_at(placed(order, s, e), t) == (if e.last_used == t {
                used_at(s, t).push(e)
            } else {
                used_at(s, t)
            }),
        forall|i: int|
            0 <= i < placed(order, s, e).len() ==> #[trigger] placed(order, s, e)[i] == e
                || s.contains(placed(order, s, e)[i]),
    decreases s.len(),
{
    broadcast use vstd::seq_lib::group_to_multiset_ensures;

    reveal(Seq::filter);
    let r = placed(order, s, e);
    if s.len() == 0 || order.in_order(s.last().last_used, e.last_used) {
        assert(r.drop_last() =~= s);
        assert(is_sorted(order, r)) by {
            assert forall|i: int, j: int| 0 <= i < j < r.len() implies order.in_order(
                (#[trigger] r[i]).last_used,
                (#[trigger] r[j]).last_used,
            ) by {
                if j == s.len() {
                    assert(order.in_order(s[i].last_used, s.last().last_used) || i == s.len() - 1);
                }
            }
        }
    } else {
        let front = s.drop_last();
        lemma_placed(order, front, e);
        let shorter = placed(order, front, e);
        assert(r.drop_last() =~= shorter);
        assert(front.push(s.last()) =~= s);
        assert forall|i: int, j: int| 0 <= i < j < r.len() implies order.in_order(
            (#[trigger] r[i]).last_used,
            (#[trigger] r[j]).last_used,
        ) by {
            if j == r.len() - 1 {
                let x = shorter[i];
                if x != e {
                    let k = choose|k: int| 0 <= k < front.len() && front[k] == x;
                    assert(s[k] == x);
                }
            } else {
                assert(r[i] == shorter[i] && r[j] == shorter[j]);
            }
        }
        assert(r.to_multiset() =~= s.to_multiset().insert(e));
        assert forall|t: u64| #[trigger] used_at(r, t) == (if e.last_used == t {
            used_at(s, t).push(e)
        } else {
            used_at(s, t)
        }) by {
            assert(used_at(shorter, t) == used_at(r.drop_last(), t));
            assert(used_at(front, t) == used_at(s.drop_last(), t));
        }
        assert forall|i: int| 0 <= i < r.len() implies #[trigger] r[i] == e || s.contains(r[i]) by {
            if i < r.len() - 1 {
                assert(r[i] == shorter[i]);
                if r[i] != e {
                    let k = choose|k: int| 0 <= k < front.len() && front[k] == r[i];
                    assert(s[k] == r[i]);
                }
            } else {
                assert(s[s.len() - 1] == r[i]);
            }
        }
    }
}

/// Putting records in order loses none and adds none, puts each where it may
/// stand, and keeps the order among those of one date.
pub proof fn lemma_sorted(order: Order, s: Seq<EntryView>)
    ensures
        is_sorted(order, sorted(order, s)),
        sorted(order, s).to_multiset() == s.to_multiset(),
        forall|t: u64| #[trigger] used_at(sorted(order, s), t) == used_at(s, t),
    decreases s.len(),
{
    broadcast use vstd::seq_lib::group_to_multiset_ensures;

    reveal(Seq::filter);
    if s.len() > 0 {
        let front = s.drop_last();
        lemma_sorted(order, front);
        lemma_placed(order, sorted(order, front), s.last());
        assert(front.push(s.last()) =~= s);
        assert(sorted(order, s).to_multiset() =~= s.to_multiset());
        assert forall|t: u64| #[trigger] used_at(sorted(order, s), t) == used_at(s, t) by {
            assert(used_at(sorted(order, front), t) == used_at(front, t));
        }
    }
}

/// Puts `e` behind everything that may stand in front of it.
fn place(order: Order, v: &mut Vec<Entry>, e: Entry)
    ensures
        entry_views(final(v)@) == placed(order, entry_views(old(v)@), e@),
{
    let ghost all = entry_views(v@);
    let mut at: usize = v.len();
    assert(all.take(at as int) =~= all);
    assert(all.skip(at as int) =~= seq![]);
    while at > 0 && !order.allows(v[at - 1].last_used, e.last_used)
        invariant
            at <= v@.len(),
            all == entry_views(v@),
            placed(order, all, e@) =~= placed(order, all.take(at as int), e@) + all.skip(at as int),
        decreases at,
    {
        proof {
            let s = all.take(at as int);
            assert(s.last() == v@[at - 1]@);
            assert(s.drop_last() =~= all.take(at - 1));
            assert(all.skip(at - 1) =~= seq![s.last()] + all.skip(at as int));
        }
        at = at - 1;
    }
    proof {
        let s = all.take(at as int);
        if at > 0 {
            assert(s.last() == v@[at - 1]@);
        }
        assert(placed(order, s, e@) == s.push(e@));
        assert(entry_views(v@.insert(at as int, e)) =~= s.push(e@) + all.skip(at as int));
    }
    v.insert(at, e);
}

/// Puts records in order.
pub fn sort(order: Order, v: Vec<Entry>) -> (out: Vec<Entry>)
    ensures
        entry_views(out@) == sorted(order, entry_views(v@)),
{
    let ghost all = entry_views(v@);
    let mut out: Vec<Entry> = Vec::new();
    let mut i: usize = 0;
    assert(entry_views(out@) =~= seq![]);
    while i < v.len()
        invariant
            i <= v@.len(),
            all == entry_views(v@),
            entry_views(out@) == sorted(order, all.take(i as int)),
        decreases v@.len() - i,
    {
        proof {
            let s = all.take(i + 1);
            assert(s.drop_last() =~= all.take(i as int));
            assert(s.last() == v@[i as int]@);
        }
        place(order, &mut out, v[i].duplicate());
        i = i + 1;
    }
    assert(all.take(i as int) =~= all);
    out
}

/// The records among what was found.
pub fn keep_readable(found: Vec<Option<Entry>>) -> (out: Vec<Entry>)
    ensures
        entry_views(out@) == readable(
            found@.map_values(|e: Option<Entry>| host::entry_option_view(e)),
        ),
{
    let ghost all = found@.map_values(|e: Option<Entry>| host::entry_option_view(e));
    let mut out: Vec<Entry> = Vec::new();
    let mut i: usize = 0;
    assert(entry_views(out@) =~= seq![]);
    while i < found.len()
        invariant
            i <= found@.len(),
            all == found@.map_values(|e: Option<Entry>| host::entry_option_view(e)),
            entry_views(out@) == readable(all.take(i as int)),
        decreases found@.len() - i,
    {
        let ghost done = entry_views(out@);
        proof {
            let s = all.take(i + 1);
            assert(s.drop_last() =~= all.take(i as int));
            assert(s.last() == host::entry_option_view(found@[i as int]));
        }
        if let Some(e) = &found[i] {
            let kept = e.duplicate();
            out.push(kept);
            assert(entry_views(out@) =~= done.push(e@));
        }
        i = i + 1;
    }
    assert(all.take(i as int) =~= all);
    out
}

/// What all records together say that the images occupy.
pub open spec fn recorded_total(entries: Seq<EntryView>) -> u64
    decreases entries.len(),
{
    if entries.len() == 0 {
        0
    } else {
        recorded_total(entries.drop_last()).wrapping_add(entries.last().actual_bytes)
    }
}

/// What all records together say that the images occupy.
pub fn total_of(entries: &[Entry]) -> (total: u64)
    ensures
        total == recorded_total(entry_views(entries@)),
{
    let ghost all = entry_views(entries@);
    let mut total: u64 = 0;
    let mut i: usize = 0;
    while i < entries.len()
        invariant
            i <= entries@.len(),
            all == entry_views(entries@),
            total == recorded_total(all.take(i as int)),
        decreases entries@.len() - i,
    {
        proof {
            let s = all.take(i + 1);
            assert(s.drop_last() =~= all.take(i as int));
            assert(s.last() == entries@[i as int]@);
        }
        total = total.wrapping_add(entries[i].actual_bytes);
        i = i + 1;
    }
    assert(all.take(i as int) =~= all);
    total
}

/// Listing the records of a store, the most recently used first. What is not a
/// readable record is passed over.
#[derive(Debug)]
pub struct List {
    store: Store,
    found: Option<Result<Vec<Entry>, IoError>>,
}

/// A [`List`] as a mathematical value.
#[verifier::ext_equal]
pub struct ListView {
    pub root: Seq<u8>,
    pub found: Option<Result<Seq<EntryView>, IoErrorView>>,
}

impl View for List {
    type V = ListView;

    closed spec fn view(&self) -> ListView {
        ListView {
            root: self.store@,
            found: match self.found {
                Some(Ok(v)) => Some(Ok(entry_views(v@))),
                Some(Err(e)) => Some(Err(e@)),
                None => None,
            },
        }
    }
}

/// The directory of the records.
pub open spec fn records_path(root: Seq<u8>) -> Seq<u8> {
    path::joined(root, encode_utf8("meta"@))
}

impl Procedure for List {
    type Request = Request;

    type Reply = Reply;

    open spec fn wants(state: ListView) -> Option<RequestView> {
        match state.found {
            None => Some(RequestView::ListEntries(records_path(state.root))),
            Some(_) => None,
        }
    }

    open spec fn after(state: ListView, reply: ReplyView) -> ListView {
        match (state.found, reply) {
            (None, ReplyView::Entries(found)) => ListView {
                found: Some(Ok(sorted(Order::NewestFirst, readable(found)))),
                ..state
            },
            (None, ReplyView::Failed(e)) => ListView { found: Some(Err(e)), ..state },
            _ => state,
        }
    }

    fn request(&self) -> (request: Option<Request>) {
        match self.found {
            None => Some(Request::ListEntries(self.store.records())),
            Some(_) => None,
        }
    }

    fn resume(self, reply: Reply) -> (next: List) {
        let mut next = self;
        if next.found.is_none() {
            match reply {
                Reply::Entries(found) => {
                    next.found = Some(Ok(sort(Order::NewestFirst, keep_readable(found))));
                },
                Reply::Failed(e) => {
                    next.found = Some(Err(e));
                },
                _ => {},
            }
        }
        next
    }
}

impl List {
    /// The records, or why they could not be listed; nothing while it is under
    /// way.
    pub fn outcome(self) -> (r: Option<Result<Vec<Entry>, Error>>)
        ensures
            match r {
                Some(Ok(v)) => self@.found == Some(
                    Ok::<Seq<EntryView>, IoErrorView>(entry_views(v@)),
                ),
                Some(Err(e)) => {
                    &&& e@ is Io
                    &&& self@.found == Some(Err::<Seq<EntryView>, IoErrorView>(e@->Io_0))
                },
                None => self@.found is None,
            },
    {
        match self.found {
            Some(Ok(v)) => Some(Ok(v)),
            Some(Err(e)) => Some(Err(Error::Io(e))),
            None => None,
        }
    }
}

impl Store {
    /// The directory of the records.
    pub fn records(&self) -> (p: Vec<u8>)
        ensures
            p@ == records_path(self@),
    {
        path::join_text(self.root(), "meta")
    }

    /// Lists the records, the most recently used first.
    pub fn list(&self) -> (p: List)
        ensures
            p@ == (ListView { root: self@, found: None }),
    {
        List { store: self.duplicate(), found: None }
    }
}

} // verus!
