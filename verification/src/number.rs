//! Numbers in text: decimal and hexadecimal, written and read.

use crate::text;
use vstd::prelude::*;

verus! {

// ---------------------------------------------------------------------------
// Decimal
// ---------------------------------------------------------------------------
/// The decimal digits of `n`, without leading zeros.
pub open spec fn decimal(n: nat) -> Seq<char>
    decreases n,
{
    if n < 10 {
        seq![(48 + n) as char]
    } else {
        decimal(n / 10).push((48 + n % 10) as char)
    }
}

/// `n` in decimal.
pub fn decimal_of(n: u64) -> (s: String)
    ensures
        s@ == decimal(n as nat),
    decreases n,
{
    if n < 10 {
        let mut s = String::new();
        s.push((48u8 + n as u8) as char);
        assert(s@ =~= seq![(48 + n) as char]);
        s
    } else {
        let mut s = decimal_of(n / 10);
        s.push((48u8 + (n % 10) as u8) as char);
        s
    }
}

/// Whether `c` is one of the ten decimal digits.
pub open spec fn is_digit(c: char) -> bool {
    '0' <= c <= '9'
}

/// The number that a run of decimal digits stands for.
pub open spec fn value(digits: Seq<char>) -> nat
    decreases digits.len(),
{
    if digits.len() == 0 {
        0
    } else {
        value(digits.drop_last()) * 10 + (digits.last() as nat - 48) as nat
    }
}

/// The number that `s` denotes: at least one decimal digit and nothing else.
pub open spec fn plain_number(s: Seq<char>) -> Option<nat> {
    if s.len() > 0 && forall|i: int| 0 <= i < s.len() ==> is_digit(#[trigger] s[i]) {
        Some(value(s))
    } else {
        None
    }
}

/// The unsigned number that `s` denotes: an optional plus sign and a plain
/// number of at most `max`.
pub open spec fn unsigned_number(s: Seq<char>, max: nat) -> Option<nat> {
    let body = if s.len() > 0 && s[0] == '+' {
        s.drop_first()
    } else {
        s
    };
    match plain_number(body) {
        Some(n) if n <= max => Some(n),
        _ => None,
    }
}

/// The signed number that `s` denotes: an optional sign and a plain number,
/// within the range of an `i32`.
pub open spec fn signed_number(s: Seq<char>) -> Option<int> {
    if s.len() > 0 && s[0] == '-' {
        match plain_number(s.drop_first()) {
            Some(n) if n <= 0x8000_0000 => Some(-(n as int)),
            _ => None,
        }
    } else {
        match unsigned_number(s, 0x7fff_ffff) {
            Some(n) => Some(n as int),
            None => None,
        }
    }
}

/// Reads a plain number of at most `max` from `chars[from..]`.
fn read_plain(chars: &[char], from: usize, max: u64) -> (r: Option<u64>)
    requires
        from <= chars@.len(),
        max <= 0xffff_ffff,
    ensures
        match plain_number(chars@.skip(from as int)) {
            Some(n) if n <= max => r == Some(n as u64),
            _ => r is None,
        },
{
    let ghost s = chars@.skip(from as int);
    if from == chars.len() {
        return None;
    }
    let mut acc: u64 = 0;
    let mut over: bool = false;
    let mut i: usize = from;
    while i < chars.len()
        invariant
            from <= i <= chars@.len(),
            s == chars@.skip(from as int),
            max <= 0xffff_ffff,
            over == (value(s.take(i - from)) > max),
            !over ==> acc == value(s.take(i - from)),
            !over ==> acc <= max,
            forall|j: int| 0 <= j < i - from ==> is_digit(#[trigger] s[j]),
        decreases chars@.len() - i,
    {
        let c = chars[i];
        assert(s[i - from] == c);
        if !('0' <= c && c <= '9') {
            return None;
        }
        let d: u64 = c as u64 - 48;
        assert(s.take(i - from + 1).drop_last() =~= s.take(i - from));
        if !over {
            acc = acc * 10 + d;
            if acc > max {
                over = true;
            }
        }
        i = i + 1;
    }
    assert(s.take(i - from) =~= s);
    if over {
        None
    } else {
        Some(acc)
    }
}

/// Reads a `u32` the way `str::parse` does.
pub fn parse_u32(s: &str) -> (r: Option<u32>)
    ensures
        match unsigned_number(s@, 0xffff_ffff) {
            Some(n) => r == Some(n as u32),
            None => r is None,
        },
{
    let chars = text::chars_of(s);
    let from: usize = if chars.len() > 0 && chars[0] == '+' {
        1
    } else {
        0
    };
    assert(chars@.skip(0) =~= chars@);
    assert(chars@.len() > 0 ==> chars@.skip(1) =~= chars@.drop_first());
    match read_plain(&chars, from, 0xffff_ffff) {
        Some(n) => Some(n as u32),
        None => None,
    }
}

/// Reads an `i32` the way `str::parse` does.
pub fn parse_i32(s: &str) -> (r: Option<i32>)
    ensures
        match signed_number(s@) {
            Some(n) => r == Some(n as i32),
            None => r is None,
        },
{
    let chars = text::chars_of(s);
    assert(chars@.skip(0) =~= chars@);
    assert(chars@.len() > 0 ==> chars@.skip(1) =~= chars@.drop_first());
    if chars.len() > 0 && chars[0] == '-' {
        match read_plain(&chars, 1, 0x8000_0000) {
            Some(n) => Some((0 - n as i64) as i32),
            None => None,
        }
    } else {
        let from: usize = if chars.len() > 0 && chars[0] == '+' {
            1
        } else {
            0
        };
        match read_plain(&chars, from, 0x7fff_ffff) {
            Some(n) => Some(n as i32),
            None => None,
        }
    }
}

// ---------------------------------------------------------------------------
// Hexadecimal
// ---------------------------------------------------------------------------
/// The lower-case hexadecimal digit for `n`.
pub open spec fn hex_digit(n: int) -> char {
    if n < 10 {
        (48 + n) as char
    } else {
        (87 + n) as char
    }
}

/// Two lower-case hexadecimal digits for each byte.
pub open spec fn hex(bytes: Seq<u8>) -> Seq<char> {
    Seq::new(
        bytes.len() * 2,
        |i: int|
            if i % 2 == 0 {
                hex_digit(bytes[i / 2] as int / 16)
            } else {
                hex_digit(bytes[i / 2] as int % 16)
            },
    )
}

/// The lower-case hexadecimal digits of `n`, without leading zeros.
pub open spec fn hex_number(n: nat) -> Seq<char>
    decreases n,
{
    if n < 16 {
        seq![hex_digit(n as int)]
    } else {
        hex_number(n / 16).push(hex_digit((n % 16) as int))
    }
}

/// The digit for a value below sixteen.
fn digit_of(n: u8) -> (c: char)
    requires
        n < 16,
    ensures
        c == hex_digit(n as int),
{
    if n < 10 {
        (48u8 + n) as char
    } else {
        (87u8 + n) as char
    }
}

/// Bytes in lower-case hexadecimal.
pub fn hex_of(bytes: &[u8]) -> (s: String)
    ensures
        s@ == hex(bytes@),
{
    let mut s = String::new();
    let mut i: usize = 0;
    while i < bytes.len()
        invariant
            i <= bytes@.len(),
            s@ == hex(bytes@.take(i as int)),
        decreases bytes@.len() - i,
    {
        let b = bytes[i];
        let ghost prev = s@;
        s.push(digit_of(b / 16));
        s.push(digit_of(b % 16));
        i = i + 1;
        assert(s@ =~= hex(bytes@.take(i as int))) by {
            let want = hex(bytes@.take(i as int));
            assert forall|j: int| 0 <= j < want.len() implies s@[j] == want[j] by {
                if j < prev.len() {
                    assert(prev[j] == hex(bytes@.take(i - 1))[j]);
                }
            }
        }
    }
    assert(bytes@.take(i as int) =~= bytes@);
    assert(s@ =~= hex(bytes@));
    s
}

/// A number in lower-case hexadecimal.
pub fn hex_number_of(n: u64) -> (s: String)
    ensures
        s@ == hex_number(n as nat),
    decreases n,
{
    if n < 16 {
        let mut s = String::new();
        s.push(digit_of(n as u8));
        assert(s@ =~= seq![hex_digit(n as int)]);
        s
    } else {
        let mut s = hex_number_of(n / 16);
        s.push(digit_of((n % 16) as u8));
        s
    }
}

/// The value of a hexadecimal digit of either case, given as a byte.
pub open spec fn nibble(b: u8) -> Option<u8> {
    if 48 <= b <= 57 {
        Some((b - 48) as u8)
    } else if 65 <= b <= 70 {
        Some((b - 55) as u8)
    } else if 97 <= b <= 102 {
        Some((b - 87) as u8)
    } else {
        None
    }
}

/// The value of two characters read as a hexadecimal byte; a plus sign may
/// stand for the first digit, and anything else counts as zero.
pub open spec fn pair_value(first: u8, second: u8) -> u8 {
    match (nibble(first), nibble(second)) {
        (Some(h), Some(l)) => (h * 16 + l) as u8,
        (None, Some(l)) if first == 43 => l,
        _ => 0,
    }
}

fn nibble_of(b: u8) -> (r: Option<u8>)
    ensures
        r == nibble(b),
        r is Some ==> r->0 < 16,
{
    if 48 <= b && b <= 57 {
        Some(b - 48)
    } else if 65 <= b && b <= 70 {
        Some(b - 55)
    } else if 97 <= b && b <= 102 {
        Some(b - 87)
    } else {
        None
    }
}

/// The byte that two characters denote, as `pair_value` says.
pub fn byte_of_pair(first: u8, second: u8) -> (r: u8)
    ensures
        r == pair_value(first, second),
{
    match nibble_of(second) {
        Some(l) => match nibble_of(first) {
            Some(h) => h * 16 + l,
            None => if first == 43 {
                l
            } else {
                0
            },
        },
        None => 0,
    }
}

/// Writing a byte in hexadecimal and reading the two digits gives the byte.
pub proof fn lemma_pair_of_digits(b: u8)
    ensures
        pair_value(hex_digit(b as int / 16) as u8, hex_digit(b as int % 16) as u8) == b,
        (hex_digit(b as int / 16) as u32) < 0x80,
        (hex_digit(b as int % 16) as u32) < 0x80,
{
}

/// Different bytes have different hexadecimal texts.
pub proof fn lemma_hex_injective(a: Seq<u8>, b: Seq<u8>)
    requires
        hex(a) == hex(b),
    ensures
        a == b,
{
    assert(hex(a).len() == a.len() * 2);
    assert(hex(b).len() == b.len() * 2);
    assert forall|i: int| 0 <= i < a.len() implies a[i] == b[i] by {
        assert(hex(a)[2 * i] == hex_digit(a[i] as int / 16));
        assert(hex(b)[2 * i] == hex_digit(b[i] as int / 16));
        assert(hex(a)[2 * i + 1] == hex_digit(a[i] as int % 16));
        assert(hex(b)[2 * i + 1] == hex_digit(b[i] as int % 16));
        lemma_pair_of_digits(a[i]);
        lemma_pair_of_digits(b[i]);
    }
    assert(a =~= b);
}

/// Different numbers have different decimal texts.
pub proof fn lemma_decimal_injective(a: nat, b: nat)
    requires
        decimal(a) == decimal(b),
    ensures
        a == b,
    decreases a,
{
    if a < 10 && b < 10 {
        assert(decimal(a)[0] == (48 + a) as char);
        assert(decimal(b)[0] == (48 + b) as char);
        assert((48 + a) as char as int == 48 + a);
        assert((48 + b) as char as int == 48 + b);
    } else if a < 10 {
        lemma_decimal_len(b / 10);
        assert(decimal(a).len() == 1);
    } else if b < 10 {
        lemma_decimal_len(a / 10);
        assert(decimal(b).len() == 1);
    } else {
        assert(decimal(a).drop_last() =~= decimal(a / 10));
        assert(decimal(b).drop_last() =~= decimal(b / 10));
        lemma_decimal_injective(a / 10, b / 10);
        assert(decimal(a).last() == (48 + a % 10) as char);
        assert(decimal(b).last() == (48 + b % 10) as char);
        assert((48 + a % 10) as char as int == 48 + a % 10);
        assert((48 + b % 10) as char as int == 48 + b % 10);
    }
}

/// A decimal text consists of digits, of which there is at least one.
pub proof fn lemma_decimal_len(n: nat)
    ensures
        decimal(n).len() >= 1,
        forall|i: int| 0 <= i < decimal(n).len() ==> is_digit(#[trigger] decimal(n)[i]),
    decreases n,
{
    if n >= 10 {
        lemma_decimal_len(n / 10);
    }
}

/// Reading digits is adding them up by tens: one more digit behind makes ten times
/// the number and the digit.
pub proof fn lemma_value_of_digits(digits: Seq<char>, c: char)
    requires
        is_digit(c),
    ensures
        value(Seq::empty()) == 0,
        value(digits.push(c)) == value(digits) * 10 + (c as int - '0' as int),
{
    assert(digits.push(c).drop_last() =~= digits);
}

/// A number in decimal reads as itself, with a plus sign in front or without, up
/// to the limit and no further; with a minus sign in front it reads as its
/// opposite. It has no leading zero.
pub proof fn lemma_decimal_is_read_back(n: nat, max: nat)
    ensures
        plain_number(decimal(n)) == Some(n),
        unsigned_number(decimal(n), max) == (if n <= max {
            Some(n)
        } else {
            None
        }),
        unsigned_number(seq!['+'] + decimal(n), max) == (if n <= max {
            Some(n)
        } else {
            None
        }),
        signed_number(decimal(n)) == (if n <= i32::MAX {
            Some(n as int)
        } else {
            None
        }),
        signed_number(seq!['-'] + decimal(n)) == (if n <= 0x8000_0000 {
            Some(-(n as int))
        } else {
            None
        }),
        n > 0 ==> decimal(n)[0] != '0',
    decreases n,
{
    lemma_decimal_len(n);
    lemma_decimal_value(n);
    let d = decimal(n);
    assert(is_digit(d[0]));
    assert((seq!['+'] + d).drop_first() =~= d);
    assert((seq!['-'] + d).drop_first() =~= d);
}

proof fn lemma_decimal_value(n: nat)
    ensures
        value(decimal(n)) == n,
        n > 0 ==> decimal(n)[0] != '0',
    decreases n,
{
    let last = (48 + n % 10) as char;
    assert(last as int == 48 + n % 10);
    if n < 10 {
        assert(decimal(n) =~= Seq::empty().push(last));
        assert(decimal(n).drop_last() =~= Seq::empty());
        assert(value(Seq::<char>::empty()) == 0);
    } else {
        lemma_decimal_value(n / 10);
        lemma_decimal_len(n / 10);
        assert(decimal(n).drop_last() =~= decimal(n / 10));
        assert(decimal(n)[0] == decimal(n / 10)[0]);
    }
}

/// Nothing is read but digits: a text that has none, or anything besides them but
/// a sign in front, is no number.
pub proof fn lemma_only_digits_are_read(s: Seq<char>, max: nat)
    ensures
        unsigned_number(s, max) is Some ==> s.len() > 0 && (is_digit(s[0]) || s[0] == '+'
            && s.len() > 1) && forall|i: int| 0 < i < s.len() ==> is_digit(#[trigger] s[i]),
        unsigned_number(s, max) matches Some(n) ==> n <= max && n == value(
            if s[0] == '+' {
                s.drop_first()
            } else {
                s
            },
        ),
        signed_number(s) is Some ==> s.len() > 0 && (is_digit(s[0]) || (s[0] == '+' || s[0] == '-')
            && s.len() > 1) && forall|i: int| 0 < i < s.len() ==> is_digit(#[trigger] s[i]),
{
    if s.len() > 0 {
        let rest = s.drop_first();
        assert forall|i: int| 0 < i < s.len() implies s[i] == rest[i - 1] by {}
        if (s[0] == '+' || s[0] == '-') && plain_number(rest) is Some {
            assert forall|i: int| 0 < i < s.len() implies is_digit(#[trigger] s[i]) by {
                assert(is_digit(rest[i - 1]));
            }
        }
    }
}

/// Bytes in hexadecimal are two small digits each, the high half first, that read
/// back as the byte.
pub proof fn lemma_hex_is_read_back(bytes: Seq<u8>)
    ensures
        hex(bytes).len() == 2 * bytes.len(),
        forall|i: int|
            0 <= i < bytes.len() ==> {
                let high = #[trigger] hex(bytes)[2 * i];
                let low = hex(bytes)[2 * i + 1];
                &&& '0' <= high <= '9' || 'a' <= high <= 'f'
                &&& '0' <= low <= '9' || 'a' <= low <= 'f'
                &&& pair_value(high as u8, low as u8) == bytes[i]
            },
{
    assert forall|i: int| 0 <= i < bytes.len() implies {
        let high = #[trigger] hex(bytes)[2 * i];
        let low = hex(bytes)[2 * i + 1];
        &&& '0' <= high <= '9' || 'a' <= high <= 'f'
        &&& '0' <= low <= '9' || 'a' <= low <= 'f'
        &&& pair_value(high as u8, low as u8) == bytes[i]
    } by {
        lemma_pair_of_digits(bytes[i]);
        assert(hex(bytes)[2 * i] == hex_digit(bytes[i] as int / 16));
        assert(hex(bytes)[2 * i + 1] == hex_digit(bytes[i] as int % 16));
    }
}

/// A digit is worth what it says, in either case, and a pair is worth sixteen
/// times the first and the second.
pub proof fn lemma_hexadecimal_digits(first: u8, second: u8)
    ensures
        nibble('0' as u8) == Some(0u8) && nibble('9' as u8) == Some(9u8),
        nibble('a' as u8) == Some(10u8) && nibble('f' as u8) == Some(15u8),
        nibble('A' as u8) == Some(10u8) && nibble('F' as u8) == Some(15u8),
        nibble(first) is Some && nibble(second) is Some ==> pair_value(first, second)
            == nibble(first)->0 * 16 + nibble(second)->0,
        nibble(second) is None ==> pair_value(first, second) == 0,
        nibble(first) is None && first != '+' as u8 ==> pair_value(first, second) == 0,
        nibble(second) is Some ==> pair_value('+' as u8, second) == nibble(second)->0,
{
}

/// A number in hexadecimal is that of its sixteenth, with the small digit for what
/// is left behind it; what is below sixteen is one digit.
pub proof fn lemma_hexadecimal_grows_by_sixteens(n: nat, d: nat)
    requires
        d < 16,
    ensures
        hex_number(d).len() == 1,
        d < 10 ==> hex_number(d)[0] as int == '0' as int + d,
        d >= 10 ==> hex_number(d)[0] as int == 'a' as int + (d - 10),
        n > 0 ==> hex_number(n * 16 + d) == hex_number(n) + hex_number(d),
{
    assert((48 + d) as char as int == 48 + d);
    assert((87 + d) as char as int == 87 + d);
    if n > 0 {
        let m = n * 16 + d;
        assert(m / 16 == n && m % 16 == d);
        assert(hex_number(m) =~= hex_number(n) + hex_number(d));
    }
}

} // verus!
