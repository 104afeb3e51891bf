//! File names as byte strings.
//!
//! A name is whatever the operating system takes: bytes, with `/` between the
//! components. Nothing here asks for UTF-8 except [`utf8`], which says whether
//! a name has it.

use vstd::prelude::*;
use vstd::string::*;
use vstd::utf8::*;

verus! {

/// The byte between components.
pub const SLASH: u8 = 47;

/// The byte before an extension.
pub const DOT: u8 = 46;

// ---------------------------------------------------------------------------
// Meaning
// ---------------------------------------------------------------------------
/// Byte vectors behind their contents.
pub open spec fn views(v: Seq<Vec<u8>>) -> Seq<Seq<u8>> {
    v.map_values(|b: Vec<u8>| b@)
}

/// `name` below `base`; an absolute `name` replaces it.
pub open spec fn joined(base: Seq<u8>, name: Seq<u8>) -> Seq<u8> {
    if name.len() > 0 && name[0] == SLASH {
        name
    } else if base.len() == 0 || base.last() == SLASH {
        base + name
    } else {
        base.push(SLASH) + name
    }
}

/// The number of bytes in front of the first slash.
pub open spec fn segment_len(p: Seq<u8>) -> int
    decreases p.len(),
{
    if p.len() == 0 || p[0] == SLASH {
        0
    } else {
        1 + segment_len(p.drop_first())
    }
}

/// The components of a name: its maximal runs without a slash, but for those
/// that are a single dot.
pub open spec fn components(p: Seq<u8>) -> Seq<Seq<u8>>
    decreases p.len(),
{
    if p.len() == 0 {
        seq![]
    } else if p[0] == SLASH {
        components(p.drop_first())
    } else {
        proof {
            lemma_segment_len(p);
        }
        if p.take(segment_len(p)) == seq![DOT] {
            components(p.skip(segment_len(p)))
        } else {
            seq![p.take(segment_len(p))] + components(p.skip(segment_len(p)))
        }
    }
}

/// The component that names the parent directory.
pub open spec fn parent_name() -> Seq<u8> {
    seq![DOT, DOT]
}

/// Whether a name, taken relative to some directory, can leave it.
pub open spec fn escapes(p: Seq<u8>) -> bool {
    ||| p.len() > 0 && p[0] == SLASH
    ||| components(p).contains(parent_name())
}

// ---------------------------------------------------------------------------
// Facts about the meaning
// ---------------------------------------------------------------------------
/// `segment_len` is a position up to which there is no slash, and at which
/// there is one unless it is the end.
pub proof fn lemma_segment_len(p: Seq<u8>)
    ensures
        0 <= segment_len(p) <= p.len(),
        p.len() > 0 && p[0] != SLASH ==> segment_len(p) > 0,
        segment_len(p) < p.len() ==> p[segment_len(p)] == SLASH,
        forall|j: int| 0 <= j < segment_len(p) ==> p[j] != SLASH,
    decreases p.len(),
{
    if p.len() > 0 && p[0] != SLASH {
        lemma_segment_len(p.drop_first());
        assert forall|j: int| 0 <= j < segment_len(p) implies p[j] != SLASH by {
            if j > 0 {
                assert(p[j] == p.drop_first()[j - 1]);
            }
        }
    }
}

/// There is only one such position.
pub proof fn lemma_segment_len_is(p: Seq<u8>, i: int)
    requires
        0 <= i <= p.len(),
        i < p.len() ==> p[i] == SLASH,
        forall|j: int| 0 <= j < i ==> p[j] != SLASH,
    ensures
        segment_len(p) == i,
{
    lemma_segment_len(p);
    if segment_len(p) < i {
        assert(p[segment_len(p)] != SLASH);
    }
}

/// Whether a component can stand between two slashes as it is.
pub open spec fn plain(part: Seq<u8>) -> bool {
    part.len() > 0 && part != seq![DOT] && forall|i: int|
        0 <= i < part.len() ==> #[trigger] part[i] != SLASH
}

/// Components are not empty, hold no slash and are no single dot.
pub proof fn lemma_components_plain(p: Seq<u8>)
    ensures
        forall|i: int| 0 <= i < components(p).len() ==> plain(#[trigger] components(p)[i]),
    decreases p.len(),
{
    if p.len() > 0 {
        if p[0] == SLASH {
            lemma_components_plain(p.drop_first());
            assert(components(p) == components(p.drop_first()));
        } else {
            lemma_segment_len(p);
            let n = segment_len(p);
            lemma_components_plain(p.skip(n));
            let rest = components(p.skip(n));
            if p.take(n) != seq![DOT] {
                assert(plain(p.take(n)));
                assert forall|i: int| 0 <= i < components(p).len() implies plain(
                    #[trigger] components(p)[i],
                ) by {
                    if i > 0 {
                        assert(components(p)[i] == rest[i - 1]);
                    }
                }
            } else {
                assert(components(p) == rest);
            }
        }
    }
}

/// The components of a name in UTF-8 are in UTF-8 themselves.
pub proof fn lemma_components_utf8(p: Seq<u8>)
    requires
        valid_utf8(p),
    ensures
        forall|i: int| 0 <= i < components(p).len() ==> valid_utf8(#[trigger] components(p)[i]),
    decreases p.len(),
{
    if p.len() > 0 {
        if p[0] == SLASH {
            assert(pop_first_scalar(p) =~= p.drop_first());
            lemma_components_utf8(p.drop_first());
            assert(components(p) == components(p.drop_first()));
        } else {
            lemma_segment_len(p);
            let n = segment_len(p);
            if n < p.len() {
                assert(!is_continuation_byte(p[n]));
                is_char_boundary_iff_not_is_continuation_byte(p, n);
                valid_utf8_split(p, n);
            } else {
                assert(p.subrange(0, n) =~= p);
                assert(p.subrange(n, p.len() as int) =~= Seq::<u8>::empty());
            }
            assert(p.take(n) =~= p.subrange(0, n));
            assert(p.skip(n) =~= p.subrange(n, p.len() as int));
            lemma_components_utf8(p.skip(n));
            let rest = components(p.skip(n));
            if p.take(n) != seq![DOT] {
                assert forall|i: int| 0 <= i < components(p).len() implies valid_utf8(
                    #[trigger] components(p)[i],
                ) by {
                    if i > 0 {
                        assert(components(p)[i] == rest[i - 1]);
                    }
                }
            } else {
                assert(components(p) == rest);
            }
        }
    }
}

/// Components, each behind a slash.
pub open spec fn slashed(parts: Seq<Seq<u8>>) -> Seq<u8>
    decreases parts.len(),
{
    if parts.len() == 0 {
        seq![]
    } else {
        seq![SLASH] + parts[0] + slashed(parts.drop_first())
    }
}

/// Components that can stand between slashes are those of the name made of
/// them.
pub proof fn lemma_components_of_slashed(parts: Seq<Seq<u8>>)
    requires
        forall|i: int| 0 <= i < parts.len() ==> plain(#[trigger] parts[i]),
    ensures
        components(slashed(parts)) == parts,
    decreases parts.len(),
{
    if parts.len() > 0 {
        let more = parts.drop_first();
        assert forall|i: int| 0 <= i < more.len() implies plain(#[trigger] more[i]) by {
            assert(more[i] == parts[i + 1]);
        }
        lemma_components_of_slashed(more);
        let p = slashed(parts);
        let part = parts[0];
        assert(plain(part));
        let q = part + slashed(more);
        assert(p.drop_first() =~= q);
        assert forall|j: int| 0 <= j < part.len() implies q[j] != SLASH by {
            assert(q[j] == part[j]);
        }
        if part.len() < q.len() {
            assert(q[part.len() as int] == slashed(more)[0]);
        }
        lemma_segment_len_is(q, part.len() as int);
        assert(q.take(part.len() as int) =~= part);
        assert(q.skip(part.len() as int) =~= slashed(more));
        assert(q[0] == part[0]);
        assert(components(q) == seq![part] + components(slashed(more)));
        assert(parts =~= seq![part] + more);
    }
}

/// A slash separates components: those of two names with a slash between them are
/// those of the one, followed by those of the other.
pub proof fn lemma_slashes_separate(a: Seq<u8>, b: Seq<u8>)
    ensures
        components(a + seq![47u8] + b) == components(a) + components(b),
    decreases a.len(),
{
    let p = a + seq![47u8] + b;
    if a.len() == 0 {
        assert(p.drop_first() =~= b);
        assert(components(a) + components(b) =~= components(b));
    } else if a[0] == SLASH {
        let rest = a.drop_first();
        lemma_slashes_separate(rest, b);
        assert(p.drop_first() =~= rest + seq![47u8] + b);
    } else {
        lemma_segment_len(a);
        let n = segment_len(a);
        assert forall|j: int| 0 <= j < n implies p[j] != SLASH by {
            assert(p[j] == a[j]);
        }
        if n < a.len() {
            assert(p[n] == a[n]);
        } else {
            assert(p[n] == 47);
        }
        lemma_segment_len_is(p, n);
        assert(p.take(n) =~= a.take(n));
        let rest = a.skip(n);
        lemma_slashes_separate(rest, b);
        assert(p.skip(n) =~= rest + seq![47u8] + b);
        if a.take(n) == seq![DOT] {
            assert(components(p) == components(rest) + components(b));
        } else {
            assert(components(p) =~= seq![a.take(n)] + components(rest) + components(b));
        }
    }
}

/// What is between two slashes is one component, as it stands, but for nothing
/// and a single dot, which are none.
pub proof fn lemma_what_is_between_slashes(part: Seq<u8>)
    requires
        !part.contains(47),
    ensures
        part.len() == 0 || part == seq![46u8] ==> components(part) == Seq::<Seq<u8>>::empty(),
        part.len() > 0 && part != seq![46u8] ==> components(part) == seq![part],
{
    if part.len() > 0 {
        assert forall|j: int| 0 <= j < part.len() implies part[j] != SLASH by {
            assert(part.contains(part[j]));
        }
        lemma_segment_len_is(part, part.len() as int);
        assert(part.take(part.len() as int) =~= part);
        let behind = part.skip(part.len() as int);
        assert(components(behind) =~= seq![]);
        assert(part[0] != SLASH);
        if part == seq![DOT] {
            assert(components(part) == components(behind));
        } else {
            assert(components(part) == seq![part] + components(behind));
            assert(components(part) =~= seq![part]);
        }
    } else {
        assert(components(part) =~= seq![]);
    }
}

/// A name is made of components by putting a slash in front of each.
pub proof fn lemma_slashed_grows(parts: Seq<Seq<u8>>, part: Seq<u8>)
    ensures
        slashed(Seq::empty()) == Seq::<u8>::empty(),
        slashed(parts.push(part)) == slashed(parts) + seq![47u8] + part,
    decreases parts.len(),
{
    let all = parts.push(part);
    if parts.len() == 0 {
        assert(all.drop_first() =~= Seq::empty());
        assert(slashed(all.drop_first()) =~= seq![]);
        assert(slashed(parts) =~= seq![]);
        assert(slashed(all) =~= slashed(parts) + seq![47u8] + part);
    } else {
        lemma_slashed_grows(parts.drop_first(), part);
        assert(all.drop_first() =~= parts.drop_first().push(part));
        assert(slashed(all) =~= slashed(parts) + seq![47u8] + part);
    }
}

/// A name leaves its directory exactly if it is absolute, or if one of the parts
/// between its slashes is two dots.
pub proof fn lemma_what_leaves_a_directory(p: Seq<u8>)
    ensures
        escapes(p) <==> (p.len() > 0 && p[0] == 47) || exists|i: int|
            0 <= i < components(p).len() && #[trigger] components(p)[i] == seq![46u8, 46u8],
{
    let up = seq![46u8, 46u8];
    if components(p).contains(parent_name()) {
        let i = choose|i: int| 0 <= i < components(p).len() && components(p)[i] == parent_name();
        assert(components(p)[i] == up);
    }
    if exists|i: int| 0 <= i < components(p).len() && #[trigger] components(p)[i] == up {
        let i = choose|i: int| 0 <= i < components(p).len() && #[trigger] components(p)[i] == up;
        assert(components(p)[i] == parent_name());
    }
}

/// A relative name goes below its base, with one slash between them where the
/// base does not end with one; an absolute name stands for itself.
pub proof fn lemma_joined(base: Seq<u8>, name: Seq<u8>)
    ensures
        name.len() > 0 && name[0] == 47 ==> joined(base, name) == name,
        name.len() == 0 || name[0] != 47 ==> {
            &&& base.len() == 0 ==> joined(base, name) == name
            &&& base.len() > 0 && base.last() == 47 ==> joined(base, name) == base + name
            &&& base.len() > 0 && base.last() != 47 ==> joined(base, name) == base + seq![47u8]
                + name
            &&& components(joined(base, name)) == components(base) + components(name)
        },
{
    if name.len() == 0 || name[0] != 47 {
        if base.len() == 0 {
            assert(base + name =~= name);
            assert(components(base) + components(name) =~= components(name));
        } else if base.last() == 47 {
            let front = base.drop_last();
            let nothing = Seq::<u8>::empty();
            lemma_slashes_separate(front, name);
            assert(base + name =~= front + seq![47u8] + name);
            lemma_slashes_separate(front, nothing);
            assert(base =~= front + seq![47u8] + nothing);
            assert(components(nothing) =~= seq![]);
            assert(components(front) + components(nothing) =~= components(front));
        } else {
            lemma_slashes_separate(base, name);
            assert(base.push(SLASH) + name =~= base + seq![47u8] + name);
        }
    }
}

/// The encoding of two texts in a row is that of one after that of the other.
pub proof fn lemma_encode_concat(a: Seq<char>, b: Seq<char>)
    ensures
        encode_utf8(a + b) == encode_utf8(a) + encode_utf8(b),
    decreases a.len(),
{
    if a.len() == 0 {
        assert(a + b =~= b);
        assert(encode_utf8(a) + encode_utf8(b) =~= encode_utf8(b));
    } else {
        lemma_encode_concat(a.drop_first(), b);
        assert((a + b).drop_first() =~= a.drop_first() + b);
        assert(encode_utf8(a + b) =~= encode_utf8(a) + encode_utf8(b));
    }
}

/// The last byte of a name is the last byte of its last part.
pub proof fn lemma_joined_last(base: Seq<u8>, name: Seq<u8>)
    requires
        name.len() > 0,
    ensures
        joined(base, name).len() > 0,
        joined(base, name).last() == name.last(),
{
}

// ---------------------------------------------------------------------------
// Computing it
// ---------------------------------------------------------------------------
/// A copy of some bytes.
pub fn copy_of(bytes: &[u8]) -> (v: Vec<u8>)
    ensures
        v@ == bytes@,
{
    let mut v: Vec<u8> = Vec::new();
    v.extend_from_slice(bytes);
    assert(v@ =~= bytes@);
    v
}

/// `a` followed by `b`.
pub fn concat(a: &[u8], b: &[u8]) -> (v: Vec<u8>)
    ensures
        v@ == a@ + b@,
{
    let mut v = copy_of(a);
    v.extend_from_slice(b);
    assert(v@ =~= a@ + b@);
    v
}

/// Whether two byte strings are the same.
pub fn same(a: &[u8], b: &[u8]) -> (r: bool)
    ensures
        r == (a@ == b@),
{
    if a.len() != b.len() {
        return false;
    }
    let mut i: usize = 0;
    while i < a.len()
        invariant
            i <= a@.len(),
            a@.len() == b@.len(),
            forall|j: int| 0 <= j < i ==> a@[j] == b@[j],
        decreases a@.len() - i,
    {
        if a[i] != b[i] {
            return false;
        }
        i = i + 1;
    }
    assert(a@ =~= b@);
    true
}

/// The UTF-8 bytes of a string.
pub fn bytes_of(s: &str) -> (v: Vec<u8>)
    ensures
        v@ == encode_utf8(s@),
{
    copy_of(s.as_bytes())
}

/// `String::from_utf8`: succeeds exactly on valid UTF-8 and then gives the
/// characters that the bytes encode.
#[verifier::external_body]
pub(crate) fn utf8(bytes: &[u8]) -> (r: Option<String>)
    ensures
        r is Some <==> valid_utf8(bytes@),
        r matches Some(s) ==> s@ == decode_utf8(bytes@),
{
    String::from_utf8(bytes.to_vec()).ok()
}

/// What `String::from_utf8_lossy` makes of some bytes.
pub uninterp spec fn utf8_lossy(bytes: Seq<u8>) -> Seq<char>;

/// `String::from_utf8_lossy`: a function of the bytes alone, which decodes
/// valid UTF-8 as it stands. How it replaces invalid sequences is left to its
/// name.
#[verifier::external_body]
pub(crate) fn lossy(bytes: &[u8]) -> (s: String)
    ensures
        s@ == utf8_lossy(bytes@),
        valid_utf8(bytes@) ==> s@ == decode_utf8(bytes@),
{
    String::from_utf8_lossy(bytes).into_owned()
}

/// `name` below `base`.
pub fn join(base: &[u8], name: &[u8]) -> (p: Vec<u8>)
    ensures
        p@ == joined(base@, name@),
{
    if name.len() > 0 && name[0] == SLASH {
        copy_of(name)
    } else if base.len() == 0 || base[base.len() - 1] == SLASH {
        concat(base, name)
    } else {
        let mut p = copy_of(base);
        p.push(SLASH);
        p.extend_from_slice(name);
        assert(p@ =~= base@.push(SLASH) + name@);
        p
    }
}

/// `name`, a piece of text, below `base`.
pub fn join_text(base: &[u8], name: &str) -> (p: Vec<u8>)
    ensures
        p@ == joined(base@, encode_utf8(name@)),
{
    join(base, name.as_bytes())
}

/// The components of a name.
pub fn components_of(p: &[u8]) -> (out: Vec<Vec<u8>>)
    ensures
        views(out@) == components(p@),
{
    let mut out: Vec<Vec<u8>> = Vec::new();
    let mut from: usize = 0;
    assert(p@.skip(0) =~= p@);
    while from < p.len()
        invariant
            from <= p@.len(),
            views(out@) + components(p@.skip(from as int)) == components(p@),
        decreases p@.len() - from,
    {
        let ghost rest = p@.skip(from as int);
        let ghost done = views(out@);
        if p[from] == SLASH {
            assert(rest.drop_first() =~= p@.skip(from + 1));
            from = from + 1;
        } else {
            let mut to: usize = from;
            while to < p.len() && p[to] != SLASH
                invariant
                    from <= to <= p@.len(),
                    rest == p@.skip(from as int),
                    forall|j: int| 0 <= j < to - from ==> rest[j] != SLASH,
                decreases p@.len() - to,
            {
                assert(rest[to - from] == p@[to as int]);
                to = to + 1;
            }
            proof {
                if to < p.len() {
                    assert(rest[to - from] == p@[to as int]);
                }
                lemma_segment_len_is(rest, to - from);
                lemma_segment_len(rest);
            }
            let segment = copy_of(&p[from..to]);
            assert(segment@ =~= rest.take(to - from));
            assert(rest.skip(to - from) =~= p@.skip(to as int));
            from = to;
            if segment.len() == 1 && segment[0] == DOT {
                assert(segment@ =~= seq![DOT]);
            } else {
                assert(segment@ != seq![DOT]);
                out.push(segment);
                assert(views(out@) =~= done + seq![segment@]);
                assert(views(out@) + components(p@.skip(from as int)) =~= done + (seq![segment@]
                    + components(p@.skip(from as int))));
            }
        }
    }
    assert(components(p@.skip(from as int)) =~= seq![]);
    assert(views(out@) =~= components(p@));
    out
}

/// Whether a component names the parent directory.
pub fn is_parent(component: &[u8]) -> (r: bool)
    ensures
        r == (component@ == parent_name()),
{
    let r = component.len() == 2 && component[0] == DOT && component[1] == DOT;
    assert(r ==> component@ =~= parent_name());
    r
}

/// Whether a name, taken relative to some directory, can leave it.
pub fn can_escape(p: &[u8]) -> (r: bool)
    ensures
        r == escapes(p@),
{
    if p.len() > 0 && p[0] == SLASH {
        return true;
    }
    let parts = components_of(p);
    let mut i: usize = 0;
    while i < parts.len()
        invariant
            i <= parts@.len(),
            views(parts@) == components(p@),
            forall|j: int| 0 <= j < i ==> #[trigger] parts@[j]@ != parent_name(),
        decreases parts@.len() - i,
    {
        if is_parent(&parts[i]) {
            assert(components(p@)[i as int] == parent_name());
            return true;
        }
        i = i + 1;
    }
    assert(!components(p@).contains(parent_name())) by {
        if components(p@).contains(parent_name()) {
            let j = choose|j: int| 0 <= j < components(p@).len() && components(p@)[j] == parent_name();
            assert(views(parts@)[j] == parts@[j]@);
        }
    }
    false
}

} // verus!
