//! The arguments of a build, in order of their names.

use crate::text;
use vstd::prelude::*;
use vstd::string::*;

verus! {

/// Whether `a` comes before `b`: it does at the first character in which they
/// differ, or is the beginning of `b`.
pub open spec fn precedes(a: Seq<char>, b: Seq<char>) -> bool
    decreases a.len(),
{
    if b.len() == 0 {
        false
    } else if a.len() == 0 {
        true
    } else if a[0] != b[0] {
        a[0] < b[0]
    } else {
        precedes(a.drop_first(), b.drop_first())
    }
}

/// Of two different names one comes before the other.
pub proof fn lemma_precedes_total(a: Seq<char>, b: Seq<char>)
    ensures
        a == b <==> !precedes(a, b) && !precedes(b, a),
        !(precedes(a, b) && precedes(b, a)),
    decreases a.len(),
{
    if a.len() > 0 && b.len() > 0 {
        lemma_precedes_total(a.drop_first(), b.drop_first());
        if a[0] == b[0] {
            assert(a =~= seq![a[0]] + a.drop_first());
            assert(b =~= seq![b[0]] + b.drop_first());
        }
    } else if a.len() == 0 && b.len() == 0 {
        assert(a =~= b);
    }
}

/// The order goes on.
pub proof fn lemma_precedes_transitive(a: Seq<char>, b: Seq<char>, c: Seq<char>)
    requires
        precedes(a, b),
        precedes(b, c),
    ensures
        precedes(a, c),
    decreases a.len(),
{
    if a.len() > 0 && a[0] == b[0] && b[0] == c[0] {
        lemma_precedes_transitive(a.drop_first(), b.drop_first(), c.drop_first());
    }
}

fn comes_before(a: &str, b: &str) -> (r: bool)
    ensures
        r == precedes(a@, b@),
{
    let x = text::chars_of(a);
    let y = text::chars_of(b);
    let mut i: usize = 0;
    assert(x@.skip(0) =~= x@);
    assert(y@.skip(0) =~= y@);
    while i < x.len() && i < y.len()
        invariant
            i <= x@.len(),
            i <= y@.len(),
            x@ == a@,
            y@ == b@,
            precedes(a@, b@) == precedes(x@.skip(i as int), y@.skip(i as int)),
        decreases x@.len() - i,
    {
        proof {
            assert(x@.skip(i as int)[0] == x@[i as int]);
            assert(y@.skip(i as int)[0] == y@[i as int]);
            assert(x@.skip(i as int).drop_first() =~= x@.skip(i + 1));
            assert(y@.skip(i as int).drop_first() =~= y@.skip(i + 1));
        }
        if x[i] != y[i] {
            return x[i] < y[i];
        }
        i = i + 1;
    }
    i < y.len()
}

/// Whether the names are in order, and none occurs twice.
pub open spec fn in_order(pairs: Seq<(Seq<char>, Seq<char>)>) -> bool {
    forall|i: int, j: int|
        0 <= i < j < pairs.len() ==> precedes((#[trigger] pairs[i]).0, (#[trigger] pairs[j]).0)
}

/// Pairs with a name set to a value: in place of an older value, or where the
/// order puts it.
pub open spec fn with_pair(
    pairs: Seq<(Seq<char>, Seq<char>)>,
    name: Seq<char>,
    value: Seq<char>,
) -> Seq<(Seq<char>, Seq<char>)>
    decreases pairs.len(),
{
    if pairs.len() == 0 || precedes(name, pairs[0].0) {
        seq![(name, value)] + pairs
    } else if pairs[0].0 == name {
        seq![(name, value)] + pairs.drop_first()
    } else {
        seq![pairs[0]] + with_pair(pairs.drop_first(), name, value)
    }
}

/// Named values, in order of their names, each name once.
#[derive(Debug)]
pub struct BuildArgs {
    pairs: Vec<(String, String)>,
}

impl View for BuildArgs {
    type V = Seq<(Seq<char>, Seq<char>)>;

    closed spec fn view(&self) -> Seq<(Seq<char>, Seq<char>)> {
        pair_views(self.pairs@)
    }
}

/// Pairs of strings as mathematical values.
pub open spec fn pair_views(v: Seq<(String, String)>) -> Seq<(Seq<char>, Seq<char>)> {
    v.map_values(|p: (String, String)| (p.0@, p.1@))
}

impl BuildArgs {
    /// The names are in order, and none occurs twice.
    #[verifier::type_invariant]
    spec fn wf(self) -> bool {
        in_order(pair_views(self.pairs@))
    }

    /// No value at all.
    pub fn new() -> (a: BuildArgs)
        ensures
            a@ == Seq::<(Seq<char>, Seq<char>)>::empty(),
            in_order(a@),
    {
        let pairs: Vec<(String, String)> = Vec::new();
        assert(pair_views(pairs@) =~= seq![]);
        BuildArgs { pairs }
    }

    /// The number of values.
    pub fn len(&self) -> (n: usize)
        ensures
            n == self@.len(),
            in_order(self@),
    {
        proof {
            use_type_invariant(self);
        }
        self.pairs.len()
    }

    /// The name at a position.
    pub fn name(&self, i: usize) -> (s: &str)
        requires
            i < self@.len(),
        ensures
            s@ == self@[i as int].0,
    {
        self.pairs[i].0.as_str()
    }

    /// The value at a position.
    pub fn value(&self, i: usize) -> (s: &str)
        requires
            i < self@.len(),
        ensures
            s@ == self@[i as int].1,
    {
        self.pairs[i].1.as_str()
    }

    /// Sets a name to a value.
    pub fn insert(&mut self, name: &str, value: &str)
        ensures
            final(self)@ == with_pair(old(self)@, name@, value@),
            in_order(final(self)@),
    {
        proof {
            use_type_invariant(&*self);
            lemma_with_pair(self@, name@, value@);
        }
        let ghost all = self@;
        let mut i: usize = 0;
        assert(all.skip(0) =~= all);
        assert(all.take(0) =~= seq![]);
        assert(with_pair(all, name@, value@) =~= all.take(0) + with_pair(all, name@, value@));
        while i < self.pairs.len() && !comes_before(name, self.pairs[i].0.as_str())
            && !text::same(self.pairs[i].0.as_str(), name)
            invariant
                i <= self.pairs@.len(),
                *self == *old(self),
                all == pair_views(self.pairs@),
                with_pair(all, name@, value@) == all.take(i as int) + with_pair(
                    all.skip(i as int),
                    name@,
                    value@,
                ),
            decreases self.pairs@.len() - i,
        {
            proof {
                let rest = all.skip(i as int);
                assert(rest[0] == all[i as int]);
                assert(all[i as int].0 == self.pairs@[i as int].0@);
                assert(rest.drop_first() =~= all.skip(i + 1));
                assert(all.take(i + 1) =~= all.take(i as int).push(all[i as int]));
                assert(all.take(i as int) + (seq![rest[0]] + with_pair(
                    all.skip(i + 1),
                    name@,
                    value@,
                )) =~= all.take(i + 1) + with_pair(all.skip(i + 1), name@, value@));
            }
            i = i + 1;
        }
        let pair = (name.to_owned(), value.to_owned());
        let ghost rest = all.skip(i as int);
        if i < self.pairs.len() {
            assert(rest[0] == all[i as int]);
            assert(all[i as int].0 == self.pairs@[i as int].0@);
        }
        let replaces = i < self.pairs.len() && text::same(self.pairs[i].0.as_str(), name);
        let mut taken = BuildArgs::new();
        std::mem::swap(self, &mut taken);
        let BuildArgs { mut pairs } = taken;
        if replaces {
            proof {
                lemma_precedes_total(name@, name@);
                assert(with_pair(rest, name@, value@) =~= seq![(name@, value@)]
                    + rest.drop_first());
                assert(pair_views(pairs@.update(i as int, pair)) =~= all.take(i as int) + (
                seq![(name@, value@)] + rest.drop_first()));
            }
            pairs.set(i, pair);
        } else {
            proof {
                assert(with_pair(rest, name@, value@) =~= seq![(name@, value@)] + rest);
                assert(pair_views(pairs@.insert(i as int, pair)) =~= all.take(i as int) + (
                seq![(name@, value@)] + rest));
            }
            pairs.insert(i, pair);
        }
        *self = BuildArgs { pairs };
    }

    /// The same values again.
    pub fn duplicate(&self) -> (a: BuildArgs)
        ensures
            a@ == self@,
            in_order(a@),
    {
        proof {
            use_type_invariant(self);
        }
        let mut pairs: Vec<(String, String)> = Vec::new();
        let mut i: usize = 0;
        assert(pair_views(pairs@) =~= self@.take(0));
        while i < self.pairs.len()
            invariant
                i <= self.pairs@.len(),
                pair_views(pairs@) == self@.take(i as int),
            decreases self.pairs@.len() - i,
        {
            let ghost done = pair_views(pairs@);
            let pair = (self.pairs[i].0.clone(), self.pairs[i].1.clone());
            pairs.push(pair);
            assert(pair_views(pairs@) =~= done.push(self@[i as int]));
            assert(self@.take(i + 1) =~= self@.take(i as int).push(self@[i as int]));
            i = i + 1;
        }
        assert(self@.take(i as int) =~= self@);
        BuildArgs { pairs }
    }
}

/// Setting a name keeps the names in order and unique, and gives exactly that
/// name the value: the others keep theirs.
#[verifier::rlimit(30)]
pub proof fn lemma_with_pair(
    pairs: Seq<(Seq<char>, Seq<char>)>,
    name: Seq<char>,
    value: Seq<char>,
)
    requires
        in_order(pairs),
    ensures
        in_order(with_pair(pairs, name, value)),
        with_pair(pairs, name, value).contains((name, value)),
        forall|p: (Seq<char>, Seq<char>)|
            p.0 != name ==> (#[trigger] with_pair(pairs, name, value).contains(p)
                <==> pairs.contains(p)),
        forall|p: (Seq<char>, Seq<char>)| #[trigger]
            with_pair(pairs, name, value).contains(p) ==> p == (name, value) || pairs.contains(p),
    decreases pairs.len(),
{
    let new = with_pair(pairs, name, value);
    if pairs.len() == 0 || precedes(name, pairs[0].0) {
        assert(new[0] == (name, value));
        assert forall|i: int, j: int| 0 <= i < j < new.len() implies precedes(
            (#[trigger] new[i]).0,
            (#[trigger] new[j]).0,
        ) by {
            assert(new[j] == pairs[j - 1]);
            if i > 0 {
                assert(new[i] == pairs[i - 1]);
            } else if j > 1 {
                assert(precedes(pairs[0].0, pairs[j - 1].0));
                lemma_precedes_transitive(name, pairs[0].0, pairs[j - 1].0);
            }
        }
        assert forall|p: (Seq<char>, Seq<char>)| p.0 != name implies (#[trigger] new.contains(p)
            <==> pairs.contains(p)) by {
            if pairs.contains(p) {
                let i = choose|i: int| 0 <= i < pairs.len() && pairs[i] == p;
                assert(new[i + 1] == p);
            }
            if new.contains(p) {
                let i = choose|i: int| 0 <= i < new.len() && new[i] == p;
                assert(pairs[i - 1] == p);
            }
        }
        assert forall|p: (Seq<char>, Seq<char>)| #[trigger] new.contains(p) implies p == (
            name,
            value,
        ) || pairs.contains(p) by {
            let i = choose|i: int| 0 <= i < new.len() && new[i] == p;
            if i > 0 {
                assert(pairs[i - 1] == p);
            }
        }
    } else if pairs[0].0 == name {
        assert(new[0] == (name, value));
        assert forall|i: int| 0 < i < new.len() implies #[trigger] new[i] == pairs[i] by {}
        assert forall|i: int, j: int| 0 <= i < j < new.len() implies precedes(
            (#[trigger] new[i]).0,
            (#[trigger] new[j]).0,
        ) by {
            assert(precedes(pairs[i].0, pairs[j].0));
        }
        assert forall|p: (Seq<char>, Seq<char>)| p.0 != name implies (#[trigger] new.contains(p)
            <==> pairs.contains(p)) by {
            if pairs.contains(p) {
                let i = choose|i: int| 0 <= i < pairs.len() && pairs[i] == p;
                assert(new[i] == p);
            }
            if new.contains(p) {
                let i = choose|i: int| 0 <= i < new.len() && new[i] == p;
                assert(pairs[i] == p);
            }
        }
        assert forall|p: (Seq<char>, Seq<char>)| #[trigger] new.contains(p) implies p == (
            name,
            value,
        ) || pairs.contains(p) by {
            let i = choose|i: int| 0 <= i < new.len() && new[i] == p;
            if i > 0 {
                assert(pairs[i] == p);
            }
        }
    } else {
        let rest = pairs.drop_first();
        assert forall|i: int, j: int| 0 <= i < j < rest.len() implies precedes(
            (#[trigger] rest[i]).0,
            (#[trigger] rest[j]).0,
        ) by {
            assert(precedes(pairs[i + 1].0, pairs[j + 1].0));
        }
        lemma_with_pair(rest, name, value);
        let more = with_pair(rest, name, value);
        lemma_precedes_total(name, pairs[0].0);
        assert forall|i: int, j: int| 0 <= i < j < new.len() implies precedes(
            (#[trigger] new[i]).0,
            (#[trigger] new[j]).0,
        ) by {
            assert(new[j] == more[j - 1]);
            if i > 0 {
                assert(new[i] == more[i - 1]);
            } else {
                assert(more.contains(more[j - 1]));
                if more[j - 1].0 != name {
                    let k = choose|k: int| 0 <= k < rest.len() && rest[k] == more[j - 1];
                    assert(precedes(pairs[0].0, pairs[k + 1].0));
                }
            }
        }
        let w = choose|i: int| 0 <= i < more.len() && more[i] == (name, value);
        assert(new[w + 1] == (name, value));
        assert forall|p: (Seq<char>, Seq<char>)| p.0 != name implies (#[trigger] new.contains(p)
            <==> pairs.contains(p)) by {
            if pairs.contains(p) {
                let i = choose|i: int| 0 <= i < pairs.len() && pairs[i] == p;
                if i > 0 {
                    assert(rest[i - 1] == p);
                    assert(more.contains(p));
                    let k = choose|k: int| 0 <= k < more.len() && more[k] == p;
                    assert(new[k + 1] == p);
                } else {
                    assert(new[0] == p);
                }
            }
            if new.contains(p) {
                let i = choose|i: int| 0 <= i < new.len() && new[i] == p;
                if i > 0 {
                    assert(more[i - 1] == p);
                    assert(more.contains(p));
                    assert(rest.contains(p));
                    let k = choose|k: int| 0 <= k < rest.len() && rest[k] == p;
                    assert(pairs[k + 1] == p);
                } else {
                    assert(pairs[0] == p);
                }
            }
        }
        assert forall|p: (Seq<char>, Seq<char>)| #[trigger] new.contains(p) implies p == (
            name,
            value,
        ) || pairs.contains(p) by {
            let i = choose|i: int| 0 <= i < new.len() && new[i] == p;
            if i > 0 {
                assert(more[i - 1] == p);
                assert(more.contains(p));
                if p != (name, value) {
                    let k = choose|k: int| 0 <= k < rest.len() && rest[k] == p;
                    assert(pairs[k + 1] == p);
                }
            } else {
                assert(pairs[0] == p);
            }
        }
    }
}

/// A name comes before another if it is the beginning of it, or if it has the
/// smaller character at the first place where they differ.
pub proof fn lemma_precedes_is_alphabetical(a: Seq<char>, b: Seq<char>, n: int)
    requires
        0 <= n <= a.len(),
        n <= b.len(),
        forall|i: int| 0 <= i < n ==> a[i] == b[i],
    ensures
        n == a.len() && n < b.len() ==> precedes(a, b),
        n == b.len() ==> !precedes(a, b),
        n < a.len() && n < b.len() && a[n] != b[n] ==> (precedes(a, b) <==> a[n] < b[n]),
    decreases n,
{
    if n > 0 {
        let x = a.drop_first();
        let y = b.drop_first();
        assert(a[0] == b[0]);
        assert forall|i: int| 0 <= i < n - 1 implies x[i] == y[i] by {
            assert(a[i + 1] == b[i + 1]);
        }
        lemma_precedes_is_alphabetical(x, y, n - 1);
    }
}

} // verus!
