//! The key under which a built image is stored.
//!
//! It is made from the chain of layers of the image, and from what of the
//! recipe for the filesystem changes the bytes that are written. What went
//! into the build is not part of it: any difference it makes shows in the
//! layers.

use crate::ext4;
use crate::number;
use crate::path;
use crate::text;
use sha2::Digest;
use vstd::prelude::*;
use vstd::string::*;
use vstd::utf8::*;

verus! {

/// What `Sha256::digest` makes of some bytes.
pub uninterp spec fn sha256_of(data: Seq<u8>) -> Seq<u8>;

/// `sha2::Sha256::digest`: a function of the bytes alone, of 32 bytes.
#[verifier::external_body]
pub(crate) fn sha256(data: &[u8]) -> (hash: Vec<u8>)
    ensures
        hash@ == sha256_of(data@),
        hash@.len() == 32,
{
    sha2::Sha256::digest(data).to_vec()
}

/// A UUID of the `uuid` crate.
#[verifier::external_type_specification]
#[verifier::external_body]
pub struct ExUuid(uuid::Uuid);

/// What `Uuid::from_bytes` makes of sixteen bytes.
pub uninterp spec fn uuid_from(bytes: Seq<u8>) -> uuid::Uuid;

/// `uuid::Uuid::from_bytes`: a function of the bytes alone. The UUID holds just
/// these bytes, so no others give the same one.
#[verifier::external_body]
fn uuid_of(bytes: [u8; 16]) -> (id: uuid::Uuid)
    ensures
        id == uuid_from(bytes@),
        forall|other: Seq<u8>|
            other.len() == 16 && #[trigger] uuid_from(other) == id ==> other == bytes@,
{
    uuid::Uuid::from_bytes(bytes)
}

/// The four bytes of a number, the least significant first.
pub open spec fn le32(n: u32) -> Seq<u8> {
    seq![
        (n % 0x100) as u8,
        (n / 0x100 % 0x100) as u8,
        (n / 0x1_0000 % 0x100) as u8,
        (n / 0x100_0000) as u8,
    ]
}

/// Appends the four bytes of a number, the least significant first.
pub fn push_le32(v: &mut Vec<u8>, n: u32)
    ensures
        final(v)@ == old(v)@ + le32(n),
{
    let ghost before = v@;
    v.push((n % 0x100) as u8);
    v.push((n / 0x100 % 0x100) as u8);
    v.push((n / 0x1_0000 % 0x100) as u8);
    v.push((n / 0x100_0000) as u8);
    assert(v@ =~= before + le32(n));
}

/// What of a recipe changes the bytes that are written.
#[derive(Debug, PartialEq, Eq)]
pub struct RecipeKey {
    pub diff_ids: Vec<String>,
    /// The rule for the size in words, not the size it comes to: that follows
    /// from the layers, and is not known before the image is looked up.
    pub size_policy: String,
    pub label: Option<String>,
    pub journal: bool,
    pub epoch_secs: u32,
}

/// A [`RecipeKey`] as a mathematical value.
#[verifier::ext_equal]
pub struct RecipeKeyView {
    pub diff_ids: Seq<Seq<char>>,
    pub size_policy: Seq<char>,
    pub label: Option<Seq<char>>,
    pub journal: bool,
    pub epoch_secs: u32,
}

impl View for RecipeKey {
    type V = RecipeKeyView;

    open spec fn view(&self) -> RecipeKeyView {
        RecipeKeyView {
            diff_ids: text::views(self.diff_ids@),
            size_policy: self.size_policy@,
            label: ext4::label_view(self.label),
            journal: self.journal,
            epoch_secs: self.epoch_secs,
        }
    }
}

/// The byte that announces an escaped one.
pub const ESCAPE: u8 = 92;

/// A byte as it stands between separators: those that separate, the zero byte
/// and the bar, and the escape itself are written as two others.
pub open spec fn escaped_byte(b: u8) -> Seq<u8> {
    if b == 0 {
        seq![ESCAPE, 48]
    } else if b == 124 {
        seq![ESCAPE, 112]
    } else if b == ESCAPE {
        seq![ESCAPE, ESCAPE]
    } else {
        seq![b]
    }
}

/// Bytes as they stand between separators.
pub open spec fn escaped(s: Seq<u8>) -> Seq<u8>
    decreases s.len(),
{
    if s.len() == 0 {
        seq![]
    } else {
        escaped_byte(s[0]) + escaped(s.drop_first())
    }
}

/// A text as it stands between separators.
pub open spec fn escaped_text(s: Seq<char>) -> Seq<u8> {
    escaped(encode_utf8(s))
}

/// A label as it stands between separators. An empty one is marked, so that it
/// is not taken for none.
pub open spec fn escaped_label(label: Option<Seq<char>>) -> Seq<u8> {
    match label {
        None => seq![],
        Some(l) => if l.len() == 0 {
            seq![ESCAPE, 101]
        } else {
            escaped_text(l)
        },
    }
}

/// Appends bytes as they stand between separators.
fn push_escaped(v: &mut Vec<u8>, s: &[u8])
    ensures
        final(v)@ == old(v)@ + escaped(s@),
{
    let ghost before = v@;
    let mut i: usize = 0;
    assert(s@.skip(0) =~= s@);
    assert(v@ + escaped(s@) =~= before + escaped(s@));
    while i < s.len()
        invariant
            i <= s@.len(),
            v@ + escaped(s@.skip(i as int)) == before + escaped(s@),
        decreases s@.len() - i,
    {
        let ghost so_far = v@;
        let b: u8 = s[i];
        if b == 0 {
            v.push(ESCAPE);
            v.push(48);
        } else if b == 124 {
            v.push(ESCAPE);
            v.push(112);
        } else if b == ESCAPE {
            v.push(ESCAPE);
            v.push(ESCAPE);
        } else {
            v.push(b);
        }
        proof {
            let rest = s@.skip(i as int);
            assert(rest[0] == b);
            assert(rest.drop_first() =~= s@.skip(i + 1));
            assert(v@ =~= so_far + escaped_byte(b));
            assert(v@ + escaped(s@.skip(i + 1)) =~= so_far + (escaped_byte(b) + escaped(
                s@.skip(i + 1),
            )));
        }
        i = i + 1;
    }
    assert(escaped(s@.skip(i as int)) =~= seq![]);
    assert(v@ =~= before + escaped(s@));
}

/// Each layer, followed by a zero byte.
pub open spec fn chain_bytes(ids: Seq<Seq<char>>) -> Seq<u8>
    decreases ids.len(),
{
    if ids.len() == 0 {
        seq![]
    } else {
        escaped_text(ids[0]).push(0) + chain_bytes(ids.drop_first())
    }
}

impl RecipeKeyView {
    /// The rule for the size and the label, each behind its name.
    pub open spec fn middle(self) -> Seq<u8> {
        encode_utf8("|size="@) + escaped_text(self.size_policy) + (encode_utf8("|label="@)
            + escaped_label(self.label))
    }

    /// The flag for the journal and the epoch, each behind its name.
    pub open spec fn tail(self) -> Seq<u8> {
        encode_utf8("|journal="@).push(
            if self.journal {
                1
            } else {
                0
            },
        ) + (encode_utf8("|epoch="@) + le32(self.epoch_secs))
    }

    /// The bytes whose hash is the key.
    pub open spec fn preimage(self) -> Seq<u8> {
        encode_utf8("vmbuild.ext4.v1"@).push(0) + chain_bytes(self.diff_ids) + self.middle()
            + self.tail()
    }

    /// The key: the hash in hexadecimal.
    pub open spec fn digest(self) -> Seq<char> {
        number::hex(sha256_of(self.preimage()))
    }
}

impl RecipeKey {
    /// The bytes whose hash is the key.
    fn bytes(&self) -> (v: Vec<u8>)
        ensures
            v@ == self@.preimage(),
    {
        let mut v = path::bytes_of("vmbuild.ext4.v1");
        v.push(0);
        let ghost head = v@;
        let ghost ids = text::views(self.diff_ids@);
        let mut i: usize = 0;
        assert(ids.skip(0) =~= ids);
        assert(v@ + chain_bytes(ids) =~= head + chain_bytes(ids));
        while i < self.diff_ids.len()
            invariant
                i <= self.diff_ids@.len(),
                ids == text::views(self.diff_ids@),
                v@ + chain_bytes(ids.skip(i as int)) == head + chain_bytes(ids),
            decreases self.diff_ids@.len() - i,
        {
            let ghost before = v@;
            push_escaped(&mut v, self.diff_ids[i].as_str().as_bytes());
            v.push(0);
            proof {
                let rest = ids.skip(i as int);
                let part = escaped_text(self.diff_ids@[i as int]@).push(0);
                assert(rest[0] == self.diff_ids@[i as int]@);
                assert(rest.drop_first() =~= ids.skip(i + 1));
                assert(v@ =~= before + part);
                assert(v@ + chain_bytes(ids.skip(i + 1)) =~= before + (part + chain_bytes(
                    ids.skip(i + 1),
                )));
            }
            i = i + 1;
        }
        assert(chain_bytes(ids.skip(i as int)) =~= seq![]);
        assert(v@ =~= head + chain_bytes(ids));
        v.extend_from_slice("|size=".as_bytes());
        push_escaped(&mut v, self.size_policy.as_str().as_bytes());
        v.extend_from_slice("|label=".as_bytes());
        match &self.label {
            Some(l) => if text::same(l.as_str(), "") {
                proof {
                    reveal_strlit("");
                }
                v.push(ESCAPE);
                v.push(101);
            } else {
                proof {
                    reveal_strlit("");
                    if l@.len() == 0 {
                        assert(l@ =~= ""@);
                    }
                }
                push_escaped(&mut v, l.as_str().as_bytes());
            },
            None => {},
        }
        assert(v@ =~= head + chain_bytes(ids) + self@.middle());
        v.extend_from_slice("|journal=".as_bytes());
        v.push(
            if self.journal {
                1
            } else {
                0
            },
        );
        v.extend_from_slice("|epoch=".as_bytes());
        push_le32(&mut v, self.epoch_secs);
        assert(v@ =~= self@.preimage());
        v
    }

    /// The key: the SHA-256 of the recipe in hexadecimal.
    pub fn digest(&self) -> (s: String)
        ensures
            s@ == self@.digest(),
            s@.len() == 64,
    {
        let hash = sha256(&self.bytes());
        number::hex_of(&hash)
    }

    /// The bytes of [`RecipeKey::uuid`]: the first half of the hash.
    pub fn uuid_bytes(&self) -> (bytes: [u8; 16])
        ensures
            bytes@ == sha256_of(self@.preimage()).take(16),
    {
        let hash = sha256(&self.bytes());
        let d = number::hex_of(&hash);
        let bytes = hex16(d.as_str());
        proof {
            lemma_hex16_of_hex(hash@);
        }
        bytes
    }

    /// An identifier for the filesystem that follows from the key, so that
    /// building the same recipe again gives the same bytes, and that another
    /// half of a hash does not give.
    pub fn uuid(&self) -> (id: uuid::Uuid)
        ensures
            id == uuid_from(sha256_of(self@.preimage()).take(16)),
            sha256_of(self@.preimage()).take(16).len() == 16,
            forall|other: Seq<u8>|
                other.len() == 16 && #[trigger] uuid_from(other) == id ==> other == sha256_of(
                    self@.preimage(),
                ).take(16),
    {
        uuid_of(self.uuid_bytes())
    }
}

/// The sixteen bytes that some text starts with in hexadecimal; a pair that is
/// missing or not hexadecimal counts as zero.
pub open spec fn leading_bytes(s: Seq<u8>) -> Seq<u8> {
    Seq::new(
        16,
        |i: int|
            if i * 2 + 2 <= s.len() {
                number::pair_value(s[i * 2], s[i * 2 + 1])
            } else {
                0
            },
    )
}

/// The sixteen bytes that `hex` starts with.
pub fn hex16(hex: &str) -> (out: [u8; 16])
    ensures
        out@ == leading_bytes(encode_utf8(hex@)),
{
    let s = hex.as_bytes();
    let mut out: [u8; 16] = [0u8; 16];
    let mut i: usize = 0;
    while i < 16
        invariant
            i <= 16,
            s@ == encode_utf8(hex@),
            forall|j: int| 0 <= j < i ==> out@[j] == leading_bytes(s@)[j],
            forall|j: int| i <= j < 16 ==> out@[j] == 0,
        decreases 16 - i,
    {
        if i * 2 + 2 <= s.len() {
            out[i] = number::byte_of_pair(s[i * 2], s[i * 2 + 1]);
        }
        i = i + 1;
    }
    assert(out@ =~= leading_bytes(s@));
    out
}

/// The first bytes of a hash, read back from its hexadecimal text.
proof fn lemma_hex16_of_hex(hash: Seq<u8>)
    requires
        hash.len() == 32,
    ensures
        leading_bytes(encode_utf8(number::hex(hash))) == hash.take(16),
{
    let h = number::hex(hash);
    assert forall|i: int| 0 <= i < h.len() implies (#[trigger] h[i] as u32) < 0x80 by {
        number::lemma_pair_of_digits(hash[i / 2]);
    }
    assert(is_ascii_chars(h));
    is_ascii_chars_encode_utf8(h);
    let b = encode_utf8(h);
    assert forall|i: int| 0 <= i < 16 implies #[trigger] leading_bytes(b)[i] == hash[i] by {
        number::lemma_pair_of_digits(hash[i]);
        assert(h[i * 2] == number::hex_digit(hash[i] as int / 16));
        assert(h[i * 2 + 1] == number::hex_digit(hash[i] as int % 16));
        assert(b[i * 2] == h[i * 2] as u8);
        assert(b[i * 2 + 1] == h[i * 2 + 1] as u8);
    }
    assert(leading_bytes(b) =~= hash.take(16));
}

// ---------------------------------------------------------------------------
// Different recipes, different bytes
// ---------------------------------------------------------------------------
/// What stands in front of the first separator, and what behind it, can be
/// told from the whole.
proof fn lemma_split(a: Seq<u8>, x: Seq<u8>, b: Seq<u8>, y: Seq<u8>, sep: u8)
    requires
        !a.contains(sep),
        !b.contains(sep),
        a.push(sep) + x == b.push(sep) + y,
    ensures
        a == b,
        x == y,
{
    let l = a.push(sep) + x;
    let r = b.push(sep) + y;
    if a.len() < b.len() {
        assert(l[a.len() as int] == sep);
        assert(r[a.len() as int] == b[a.len() as int]);
        assert(b.contains(sep));
    }
    if b.len() < a.len() {
        assert(r[b.len() as int] == sep);
        assert(l[b.len() as int] == a[b.len() as int]);
        assert(a.contains(sep));
    }
    assert forall|i: int| 0 <= i < a.len() implies a[i] == b[i] by {
        assert(l[i] == a[i] && r[i] == b[i]);
    }
    assert(a =~= b);
    assert(l.len() == a.len() + 1 + x.len());
    assert(r.len() == b.len() + 1 + y.len());
    assert forall|i: int| 0 <= i < x.len() implies x[i] == y[i] by {
        assert(l[a.len() + 1 + i] == x[i] && r[a.len() + 1 + i] == y[i]);
    }
    assert(x =~= y);
}

/// Two ends of one length can be told from the whole.
proof fn lemma_split_end(a: Seq<u8>, x: Seq<u8>, b: Seq<u8>, y: Seq<u8>)
    requires
        x.len() == y.len(),
        a + x == b + y,
    ensures
        a == b,
        x == y,
{
    assert((a + x).len() == a.len() + x.len());
    assert((b + y).len() == b.len() + y.len());
    assert forall|i: int| 0 <= i < a.len() implies a[i] == b[i] by {
        assert((a + x)[i] == a[i] && (b + y)[i] == b[i]);
    }
    assert forall|i: int| 0 <= i < x.len() implies x[i] == y[i] by {
        assert((a + x)[a.len() + i] == x[i] && (b + y)[a.len() + i] == y[i]);
    }
    assert(a =~= b);
    assert(x =~= y);
}

pub(crate) proof fn lemma_encode_injective(a: Seq<char>, b: Seq<char>)
    requires
        encode_utf8(a) == encode_utf8(b),
    ensures
        a == b,
{
    encode_utf8_decode_utf8(a);
    encode_utf8_decode_utf8(b);
}

/// Nothing that is escaped holds a separator.
proof fn lemma_escaped_holds_no_separator(s: Seq<u8>)
    ensures
        !escaped(s).contains(0),
        !escaped(s).contains(124),
        s.len() > 0 ==> escaped(s).len() > 0,
    decreases s.len(),
{
    if s.len() > 0 {
        let rest = escaped(s.drop_first());
        let first = escaped_byte(s[0]);
        lemma_escaped_holds_no_separator(s.drop_first());
        assert forall|i: int| 0 <= i < escaped(s).len() implies escaped(s)[i] != 0 && escaped(s)[i]
            != 124 by {
            if i >= first.len() {
                assert(escaped(s)[i] == rest[i - first.len()]);
                assert(rest.contains(rest[i - first.len()]));
            } else {
                assert(escaped(s)[i] == first[i]);
            }
        }
    }
}

/// What was escaped can be told from what it became.
proof fn lemma_escaped_injective(a: Seq<u8>, b: Seq<u8>)
    requires
        escaped(a) == escaped(b),
    ensures
        a == b,
    decreases a.len(),
{
    lemma_escaped_holds_no_separator(a);
    lemma_escaped_holds_no_separator(b);
    if a.len() == 0 || b.len() == 0 {
        assert(a =~= b);
    } else {
        let ra = escaped(a.drop_first());
        let rb = escaped(b.drop_first());
        let fa = escaped_byte(a[0]);
        let fb = escaped_byte(b[0]);
        assert(escaped(a)[0] == fa[0]);
        assert(escaped(b)[0] == fb[0]);
        if a[0] == 0 || a[0] == 124 || a[0] == ESCAPE {
            assert(escaped(a)[1] == fa[1]);
            assert(escaped(b)[1] == fb[1]);
        }
        assert(a[0] == b[0]);
        assert(escaped(a).skip(fa.len() as int) =~= ra);
        assert(escaped(b).skip(fb.len() as int) =~= rb);
        lemma_escaped_injective(a.drop_first(), b.drop_first());
        assert(a =~= seq![a[0]] + a.drop_first());
        assert(b =~= seq![b[0]] + b.drop_first());
    }
}

proof fn lemma_escaped_text_injective(a: Seq<char>, b: Seq<char>)
    requires
        escaped_text(a) == escaped_text(b),
    ensures
        a == b,
{
    lemma_escaped_injective(encode_utf8(a), encode_utf8(b));
    lemma_encode_injective(a, b);
}

/// A text that is not empty is neither escaped to nothing nor to the mark of an
/// empty label.
proof fn lemma_escaped_text_is_no_mark(s: Seq<char>)
    requires
        s.len() > 0,
    ensures
        escaped_text(s).len() > 0,
        escaped_text(s) != seq![ESCAPE, 101u8],
{
    let b = encode_utf8(s);
    if b.len() == 0 {
        assert(b =~= encode_utf8(Seq::<char>::empty()));
        lemma_encode_injective(s, Seq::empty());
    }
    lemma_escaped_holds_no_separator(b);
    let first = escaped_byte(b[0]);
    assert(escaped(b)[0] == first[0]);
    if first.len() == 2 {
        assert(escaped(b)[1] == first[1]);
    }
    if escaped(b) == seq![ESCAPE, 101u8] {
        assert(escaped(b)[0] == ESCAPE);
        assert(escaped(b)[1] == 101);
    }
}

proof fn lemma_escaped_label_injective(a: Option<Seq<char>>, b: Option<Seq<char>>)
    requires
        escaped_label(a) == escaped_label(b),
    ensures
        a == b,
{
    let mark = seq![ESCAPE, 101u8];
    assert(mark.len() == 2);
    if let Some(l) = a {
        if l.len() > 0 {
            lemma_escaped_text_is_no_mark(l);
        }
    }
    if let Some(l) = b {
        if l.len() > 0 {
            lemma_escaped_text_is_no_mark(l);
        }
    }
    match (a, b) {
        (Some(x), Some(y)) => {
            if x.len() > 0 && y.len() > 0 {
                lemma_escaped_text_injective(x, y);
            } else {
                assert(x =~= y);
            }
        },
        _ => {},
    }
}

/// A chain of layers can be told from what follows, if that starts with a bar.
#[verifier::rlimit(30)]
proof fn lemma_chain(a: Seq<Seq<char>>, x: Seq<u8>, b: Seq<Seq<char>>, y: Seq<u8>)
    requires
        x.len() > 0 && x[0] == 124,
        y.len() > 0 && y[0] == 124,
        chain_bytes(a) + x == chain_bytes(b) + y,
    ensures
        a == b,
        x == y,
    decreases a.len(),
{
    let l = chain_bytes(a) + x;
    let r = chain_bytes(b) + y;
    if a.len() > 0 {
        lemma_escaped_holds_no_separator(encode_utf8(a[0]));
        assert(l[0] == escaped_text(a[0]).push(0)[0]);
        if escaped_text(a[0]).len() > 0 {
            assert(escaped_text(a[0]).contains(escaped_text(a[0])[0]));
        }
    }
    if b.len() > 0 {
        lemma_escaped_holds_no_separator(encode_utf8(b[0]));
        assert(r[0] == escaped_text(b[0]).push(0)[0]);
        if escaped_text(b[0]).len() > 0 {
            assert(escaped_text(b[0]).contains(escaped_text(b[0])[0]));
        }
    }
    if a.len() == 0 || b.len() == 0 {
        assert(a =~= b);
        assert(l =~= x);
        assert(r =~= y);
    } else {
        let da = a.drop_first();
        let db = b.drop_first();
        assert(l =~= escaped_text(a[0]).push(0) + (chain_bytes(da) + x));
        assert(r =~= escaped_text(b[0]).push(0) + (chain_bytes(db) + y));
        lemma_split(
            escaped_text(a[0]),
            chain_bytes(da) + x,
            escaped_text(b[0]),
            chain_bytes(db) + y,
            0,
        );
        lemma_escaped_text_injective(a[0], b[0]);
        lemma_chain(da, x, db, y);
        assert(a =~= seq![a[0]] + da);
        assert(b =~= seq![b[0]] + db);
    }
}

proof fn lemma_tail(a: RecipeKeyView, b: RecipeKeyView)
    requires
        a.tail() == b.tail(),
    ensures
        a.journal == b.journal,
        a.epoch_secs == b.epoch_secs,
{
    let j = encode_utf8("|journal="@);
    let e = encode_utf8("|epoch="@);
    let fa: u8 = if a.journal {
        1
    } else {
        0
    };
    let fb: u8 = if b.journal {
        1
    } else {
        0
    };
    lemma_split_end(j.push(fa), e + le32(a.epoch_secs), j.push(fb), e + le32(b.epoch_secs));
    assert(j.push(fa).last() == fa);
    lemma_split_end(e, le32(a.epoch_secs), e, le32(b.epoch_secs));
    assert(le32(a.epoch_secs)[0] == le32(b.epoch_secs)[0]);
    assert(le32(a.epoch_secs)[1] == le32(b.epoch_secs)[1]);
    assert(le32(a.epoch_secs)[2] == le32(b.epoch_secs)[2]);
    assert(le32(a.epoch_secs)[3] == le32(b.epoch_secs)[3]);
}

proof fn lemma_middle_starts_with_bar(a: RecipeKeyView)
    ensures
        a.middle().len() > 0,
        a.middle()[0] == 124,
{
    reveal_strlit("|size=");
    is_ascii_chars_encode_utf8("|size="@);
    let size = encode_utf8("|size="@);
    assert(size[0] == 124);
    assert(a.middle()[0] == size[0]);
}

/// The rule for the size and the label can be told from what they make up.
proof fn lemma_middle(a: RecipeKeyView, b: RecipeKeyView)
    requires
        a.middle() == b.middle(),
    ensures
        a.size_policy == b.size_policy,
        a.label == b.label,
{
    reveal_strlit("|label=");
    is_ascii_chars_encode_utf8("|label="@);
    let size = encode_utf8("|size="@);
    let label = encode_utf8("|label="@);
    assert(label[0] == 124);
    let pa = escaped_text(a.size_policy);
    let pb = escaped_text(b.size_policy);
    lemma_escaped_holds_no_separator(encode_utf8(a.size_policy));
    lemma_escaped_holds_no_separator(encode_utf8(b.size_policy));
    let la = label.drop_first() + escaped_label(a.label);
    let lb = label.drop_first() + escaped_label(b.label);
    assert(a.middle() =~= size + (pa.push(124) + la));
    assert(b.middle() =~= size + (pb.push(124) + lb));
    assert(a.middle().len() == b.middle().len());
    lemma_split_end(size, pa.push(124) + la, size, pb.push(124) + lb);
    lemma_split(pa, la, pb, lb, 124);
    lemma_escaped_text_injective(a.size_policy, b.size_policy);
    lemma_split_end(
        label.drop_first(),
        escaped_label(a.label),
        label.drop_first(),
        escaped_label(b.label),
    );
    lemma_escaped_label_injective(a.label, b.label);
}

/// Recipes that differ in any part differ in the bytes that are hashed: no two
/// parts can be mistaken for each other.
pub proof fn lemma_recipes_are_told_apart(a: RecipeKeyView, b: RecipeKeyView)
    requires
        a.preimage() == b.preimage(),
    ensures
        a == b,
{
    let head = encode_utf8("vmbuild.ext4.v1"@).push(0);
    let xa = chain_bytes(a.diff_ids) + a.middle();
    let xb = chain_bytes(b.diff_ids) + b.middle();
    assert(head + xa =~= head + chain_bytes(a.diff_ids) + a.middle());
    assert(head + xb =~= head + chain_bytes(b.diff_ids) + b.middle());
    assert(a.tail().len() == b.tail().len());
    lemma_split_end(head + xa, a.tail(), head + xb, b.tail());
    lemma_tail(a, b);
    assert((head + xa).len() == (head + xb).len());
    lemma_split_end(head, xa, head, xb);
    lemma_middle_starts_with_bar(a);
    lemma_middle_starts_with_bar(b);
    lemma_chain(a.diff_ids, a.middle(), b.diff_ids, b.middle());
    lemma_middle(a, b);
}

/// Recipes have the same UUID exactly if they are the same, and the same key as
/// well, unless the halves of the hashes of two different byte strings agree.
pub proof fn lemma_recipes_never_collide(a: RecipeKeyView, b: RecipeKeyView)
    requires
        sha256_of(a.preimage()).take(16) == sha256_of(b.preimage()).take(16) ==> a.preimage()
            == b.preimage(),
    ensures
        sha256_of(a.preimage()).take(16) == sha256_of(b.preimage()).take(16) <==> a == b,
        a.digest() == b.digest() <==> a == b,
{
    lemma_key_is_hash(a, b);
    if a.preimage() == b.preimage() {
        lemma_recipes_are_told_apart(a, b);
    }
}

/// Two recipes have the same key exactly if their bytes have the same hash.
pub proof fn lemma_key_is_hash(a: RecipeKeyView, b: RecipeKeyView)
    ensures
        a.digest() == b.digest() <==> sha256_of(a.preimage()) == sha256_of(b.preimage()),
{
    if a.digest() == b.digest() {
        number::lemma_hex_injective(sha256_of(a.preimage()), sha256_of(b.preimage()));
    }
}

/// Four bytes are a number to the base of 256, the least significant first.
pub proof fn lemma_le32_is_the_number(n: u32)
    ensures
        le32(n).len() == 4,
        le32(n)[0] + 256 * le32(n)[1] + 65536 * le32(n)[2] + 16777216 * le32(n)[3] == n,
{
}

/// Whether some bytes hold none that separates or escapes.
pub open spec fn is_plain(s: Seq<u8>) -> bool {
    !s.contains(0) && !s.contains(124) && !s.contains(92)
}

proof fn lemma_escaped_plain(s: Seq<u8>)
    requires
        is_plain(s),
    ensures
        escaped(s) == s,
    decreases s.len(),
{
    if s.len() > 0 {
        let rest = s.drop_first();
        assert(s.contains(s[0]));
        assert forall|b: u8| rest.contains(b) implies s.contains(b) by {
            let i = choose|i: int| 0 <= i < rest.len() && rest[i] == b;
            assert(s[i + 1] == b);
        }
        lemma_escaped_plain(rest);
        assert(escaped(s) =~= s);
    } else {
        assert(escaped(s) =~= s);
    }
}

/// The chain of layers is one behind the other, in order, with a zero byte behind
/// each.
pub proof fn lemma_chains_grow_at_the_end(ids: Seq<Seq<char>>, id: Seq<char>)
    requires
        is_plain(encode_utf8(id)),
    ensures
        chain_bytes(Seq::empty()) == Seq::<u8>::empty(),
        chain_bytes(ids.push(id)) == chain_bytes(ids) + encode_utf8(id) + seq![0u8],
    decreases ids.len(),
{
    lemma_escaped_plain(encode_utf8(id));
    let all = ids.push(id);
    if ids.len() == 0 {
        assert(all.drop_first() =~= Seq::empty());
        assert(chain_bytes(all.drop_first()) =~= seq![]);
        assert(chain_bytes(ids) =~= seq![]);
        assert(chain_bytes(all) =~= chain_bytes(ids) + encode_utf8(id) + seq![0u8]);
    } else {
        lemma_chains_grow_at_the_end(ids.drop_first(), id);
        assert(all.drop_first() =~= ids.drop_first().push(id));
        assert(chain_bytes(all) =~= chain_bytes(ids) + encode_utf8(id) + seq![0u8]);
    }
}

/// What is hashed, where no part holds a separator: the version, the chain, and
/// the other parts behind their names, just as they are.
pub proof fn lemma_plain_recipes_are_hashed_as_they_are(r: RecipeKeyView)
    requires
        is_plain(encode_utf8(r.size_policy)),
        r.label is Some ==> r.label->0.len() > 0 && is_plain(encode_utf8(r.label->0)),
    ensures
        r.preimage() == encode_utf8("vmbuild.ext4.v1"@) + seq![0u8] + chain_bytes(r.diff_ids)
            + encode_utf8("|size="@) + encode_utf8(r.size_policy) + encode_utf8("|label="@) + (
        match r.label {
            Some(l) => encode_utf8(l),
            None => Seq::empty(),
        }) + encode_utf8("|journal="@) + seq![
            if r.journal {
                1u8
            } else {
                0u8
            },
        ] + encode_utf8("|epoch="@) + le32(r.epoch_secs),
        r.digest() == number::hex(sha256_of(r.preimage())),
{
    lemma_escaped_plain(encode_utf8(r.size_policy));
    if let Some(l) = r.label {
        lemma_escaped_plain(encode_utf8(l));
    }
    let head = encode_utf8("vmbuild.ext4.v1"@);
    let label = match r.label {
        Some(l) => encode_utf8(l),
        None => Seq::empty(),
    };
    assert(escaped_label(r.label) =~= label);
    assert(r.preimage() =~= head + seq![0u8] + chain_bytes(r.diff_ids) + encode_utf8("|size="@)
        + encode_utf8(r.size_policy) + encode_utf8("|label="@) + label + encode_utf8("|journal="@)
        + seq![
        if r.journal {
            1u8
        } else {
            0u8
        },
    ] + encode_utf8("|epoch="@) + le32(r.epoch_secs));
}

/// Sixteen bytes are read from the pairs of digits that a text starts with, one
/// pair each; what is missing counts as zero. Bytes that were written in
/// hexadecimal are read back.
pub proof fn lemma_leading_bytes_are_read_in_pairs(s: Seq<u8>, hash: Seq<u8>, i: int)
    requires
        0 <= i < 16,
    ensures
        leading_bytes(s).len() == 16,
        2 * i + 2 <= s.len() ==> leading_bytes(s)[i] == number::pair_value(s[2 * i], s[2 * i + 1]),
        2 * i + 2 > s.len() ==> leading_bytes(s)[i] == 0,
        hash.len() == 32 ==> leading_bytes(encode_utf8(number::hex(hash))) == hash.take(16),
{
    if hash.len() == 32 {
        lemma_hex16_of_hex(hash);
    }
}

} // verus!
