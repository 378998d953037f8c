//! Byte and text helpers shared by the wire formats of this crate:
//! decimal numbers, searching for separators, and splitting UTF-8 text
//! at ASCII separators.

use vstd::prelude::*;
use vstd::utf8::*;
use vstd::string::*;

verus! {

broadcast use vstd::utf8::encode_utf8_valid_utf8, vstd::utf8::encode_utf8_decode_utf8;

/// `b' '`
pub const SPACE: u8 = 0x20;
/// `b'.'`
pub const DOT: u8 = 0x2e;
/// `b':'`
pub const COLON: u8 = 0x3a;
/// `b'-'`
pub const MINUS: u8 = 0x2d;
/// `b'0'`
pub const ZERO: u8 = 0x30;

/// The character of an ASCII byte.
pub open spec fn ascii_char(b: u8) -> char {
    (b as u32) as char
}

/// Index of the first occurrence of `x` in `s`.
pub open spec fn first_index_of<A>(s: Seq<A>, x: A) -> Option<int>
    decreases s.len(),
{
    if s.len() == 0 {
        None
    } else if s[0] == x {
        Some(0)
    } else {
        match first_index_of(s.drop_first(), x) {
            Some(i) => Some(i + 1),
            None => None,
        }
    }
}

/// Index of the last occurrence of `x` in `s`.
pub open spec fn last_index_of<A>(s: Seq<A>, x: A) -> Option<int>
    decreases s.len(),
{
    if s.len() == 0 {
        None
    } else if s.last() == x {
        Some(s.len() - 1)
    } else {
        last_index_of(s.drop_last(), x)
    }
}

/// What `str::split_once(sep)` returns: the text before the first `sep`
/// and the text after it.
pub open spec fn split_first<A>(s: Seq<A>, sep: A) -> Option<(Seq<A>, Seq<A>)> {
    match first_index_of(s, sep) {
        Some(i) => Some((s.subrange(0, i), s.subrange(i + 1, s.len() as int))),
        None => None,
    }
}

/// What `str::rsplitn(2, sep)` yields in its two parts, in the order
/// (before the last `sep`, after the last `sep`).
pub open spec fn split_last<A>(s: Seq<A>, sep: A) -> Option<(Seq<A>, Seq<A>)> {
    match last_index_of(s, sep) {
        Some(i) => Some((s.subrange(0, i), s.subrange(i + 1, s.len() as int))),
        None => None,
    }
}

pub proof fn lemma_first_index_of(s: Seq<u8>, x: u8)
    ensures
        first_index_of(s, x) matches Some(i) ==> 0 <= i < s.len() && s[i] == x && forall|j: int|
            0 <= j < i ==> s[j] != x,
        first_index_of(s, x) is None ==> !s.contains(x),
    decreases s.len(),
{
    if s.len() > 0 && s[0] != x {
        lemma_first_index_of(s.drop_first(), x);
        if first_index_of(s.drop_first(), x) is None {
            assert forall|j: int| 0 <= j < s.len() implies s[j] != x by {
                if j > 0 {
                    assert(s[j] == s.drop_first()[j - 1]);
                }
            }
        } else {
            let i = first_index_of(s.drop_first(), x).unwrap();
            assert forall|j: int| 0 <= j < i + 1 implies s[j] != x by {
                if j > 0 {
                    assert(s[j] == s.drop_first()[j - 1]);
                }
            }
        }
    }
}

/// The first occurrence is characterised by its position and by the
/// absence of `x` before it.
pub proof fn lemma_first_index_of_at<A>(s: Seq<A>, x: A, i: int)
    requires
        0 <= i < s.len(),
        s[i] == x,
        forall|j: int| 0 <= j < i ==> s[j] != x,
    ensures
        first_index_of(s, x) == Some(i),
    decreases s.len(),
{
    if i > 0 {
        assert forall|j: int| 0 <= j < i - 1 implies s.drop_first()[j] != x by {
            assert(s.drop_first()[j] == s[j + 1]);
        }
        lemma_first_index_of_at(s.drop_first(), x, i - 1);
    }
}

/// `first_index_of` finds nothing when `x` does not occur.
pub proof fn lemma_first_index_of_none<A>(s: Seq<A>, x: A)
    requires
        forall|j: int| 0 <= j < s.len() ==> s[j] != x,
    ensures
        first_index_of(s, x) is None,
    decreases s.len(),
{
    if s.len() > 0 {
        assert forall|j: int| 0 <= j < s.len() - 1 implies s.drop_first()[j] != x by {
            assert(s.drop_first()[j] == s[j + 1]);
        }
        lemma_first_index_of_none(s.drop_first(), x);
    }
}

pub proof fn lemma_last_index_of(s: Seq<u8>, x: u8)
    ensures
        last_index_of(s, x) matches Some(i) ==> 0 <= i < s.len() && s[i] == x && forall|j: int|
            i < j < s.len() ==> s[j] != x,
        last_index_of(s, x) is None ==> !s.contains(x),
    decreases s.len(),
{
    if s.len() > 0 && s.last() != x {
        lemma_last_index_of(s.drop_last(), x);
        if last_index_of(s.drop_last(), x) is None {
            assert forall|j: int| 0 <= j < s.len() implies s[j] != x by {
                if j < s.len() - 1 {
                    assert(s[j] == s.drop_last()[j]);
                }
            }
        } else {
            let i = last_index_of(s.drop_last(), x).unwrap();
            assert forall|j: int| i < j < s.len() implies s[j] != x by {
                if j < s.len() - 1 {
                    assert(s[j] == s.drop_last()[j]);
                }
            }
        }
    }
}

/// The last occurrence is characterised by its position and by the
/// absence of `x` after it.
pub proof fn lemma_last_index_of_at<A>(s: Seq<A>, x: A, i: int)
    requires
        0 <= i < s.len(),
        s[i] == x,
        forall|j: int| i < j < s.len() ==> s[j] != x,
    ensures
        last_index_of(s, x) == Some(i),
    decreases s.len(),
{
    if i < s.len() - 1 {
        assert forall|j: int| i < j < s.len() - 1 implies s.drop_last()[j] != x by {
            assert(s.drop_last()[j] == s[j]);
        }
        lemma_last_index_of_at(s.drop_last(), x, i);
    }
}

/// `last_index_of` finds nothing when `x` does not occur.
pub proof fn lemma_last_index_of_none<A>(s: Seq<A>, x: A)
    requires
        forall|j: int| 0 <= j < s.len() ==> s[j] != x,
    ensures
        last_index_of(s, x) is None,
    decreases s.len(),
{
    if s.len() > 0 {
        assert forall|j: int| 0 <= j < s.len() - 1 implies s.drop_last()[j] != x by {
            assert(s.drop_last()[j] == s[j]);
        }
        lemma_last_index_of_none(s.drop_last(), x);
    }
}

/// Position of the first `x` in `s`, as `first_index_of` states it.
pub fn find_first(s: &[u8], x: u8) -> (r: Option<usize>)
    ensures
        match r {
            Some(i) => first_index_of(s@, x) == Some(i as int) && i < s@.len(),
            None => first_index_of(s@, x) is None,
        },
{
    let mut i: usize = 0;
    while i < s.len()
        invariant
            i <= s.len(),
            forall|j: int| 0 <= j < i ==> s@[j] != x,
        decreases s.len() - i,
    {
        if s[i] == x {
            proof {
                lemma_first_index_of_at(s@, x, i as int);
            }
            return Some(i);
        }
        i = i + 1;
    }
    proof {
        lemma_first_index_of_none(s@, x);
    }
    None
}

/// Position of the last `x` in `s`, as `last_index_of` states it.
pub fn find_last(s: &[u8], x: u8) -> (r: Option<usize>)
    ensures
        match r {
            Some(i) => last_index_of(s@, x) == Some(i as int) && i < s@.len(),
            None => last_index_of(s@, x) is None,
        },
{
    let mut i: usize = s.len();
    while i > 0
        invariant
            i <= s.len(),
            forall|j: int| i <= j < s@.len() ==> s@[j] != x,
        decreases i,
    {
        if s[i - 1] == x {
            proof {
                lemma_last_index_of_at(s@, x, i - 1);
            }
            return Some(i - 1);
        }
        i = i - 1;
    }
    proof {
        lemma_last_index_of_none(s@, x);
    }
    None
}

/// Appends the bytes of `s` to `v`.
pub fn append_bytes(v: &mut Vec<u8>, s: &[u8])
    ensures
        final(v)@ == old(v)@ + s@,
{
    let mut i: usize = 0;
    while i < s.len()
        invariant
            i <= s.len(),
            v@ == old(v)@ + s@.subrange(0, i as int),
        decreases s.len() - i,
    {
        v.push(s[i]);
        assert(s@.subrange(0, i + 1) =~= s@.subrange(0, i as int).push(s@[i as int]));
        i = i + 1;
    }
    assert(s@.subrange(0, s@.len() as int) =~= s@);
}

/// A copy of `s` in a new vector.
pub fn bytes_to_vec(s: &[u8]) -> (r: Vec<u8>)
    ensures
        r@ == s@,
{
    let mut v: Vec<u8> = Vec::new();
    append_bytes(&mut v, s);
    v
}

/// Whether the two byte sequences are equal.
pub fn bytes_equal(a: &[u8], b: &[u8]) -> (r: bool)
    ensures
        r == (a@ == b@),
{
    if a.len() != b.len() {
        return false;
    }
    let mut i: usize = 0;
    while i < a.len()
        invariant
            i <= a.len(),
            a@.len() == b@.len(),
            a@.subrange(0, i as int) == b@.subrange(0, i as int),
        decreases a.len() - i,
    {
        if a[i] != b[i] {
            assert(a@[i as int] != b@[i as int]);
            return false;
        }
        assert(a@.subrange(0, i + 1) =~= a@.subrange(0, i as int).push(a@[i as int]));
        assert(b@.subrange(0, i + 1) =~= b@.subrange(0, i as int).push(b@[i as int]));
        i = i + 1;
    }
    assert(a@ =~= a@.subrange(0, a@.len() as int));
    assert(b@ =~= b@.subrange(0, b@.len() as int));
    true
}

/* Decimal numbers */

/// An ASCII decimal digit.
pub open spec fn is_digit(b: u8) -> bool {
    ZERO <= b <= 0x39
}

/// The number that a sequence of decimal digits denotes.
pub open spec fn digits_value(s: Seq<u8>) -> nat
    decreases s.len(),
{
    if s.len() == 0 {
        0
    } else {
        digits_value(s.drop_last()) * 10 + (s.last() - ZERO) as nat
    }
}

/// The decimal representation of `n`, without leading zeros.
pub open spec fn decimal(n: nat) -> Seq<u8>
    decreases n,
{
    if n < 10 {
        seq![(ZERO + n) as u8]
    } else {
        decimal(n / 10).push((ZERO + n % 10) as u8)
    }
}

pub open spec fn pow10(k: nat) -> nat
    decreases k,
{
    if k == 0 {
        1
    } else {
        10 * pow10((k - 1) as nat)
    }
}

/// The number of digits at `start` in `s`, counting at most `max`.
pub open spec fn digit_run(s: Seq<u8>, start: int, max: nat) -> nat
    decreases max,
{
    if max == 0 || start < 0 || start >= s.len() || !is_digit(s[start]) {
        0
    } else {
        1 + digit_run(s, start + 1, (max - 1) as nat)
    }
}

pub proof fn lemma_pow10_positive(k: nat)
    ensures
        pow10(k) >= 1,
    decreases k,
{
    if k > 0 {
        lemma_pow10_positive((k - 1) as nat);
    }
}

pub proof fn lemma_pow10_monotone(a: nat, b: nat)
    requires
        a <= b,
    ensures
        pow10(a) <= pow10(b),
    decreases b,
{
    if a < b {
        lemma_pow10_monotone(a, (b - 1) as nat);
        lemma_pow10_positive((b - 1) as nat);
    }
}

pub proof fn lemma_pow10_16()
    ensures
        pow10(16) == 10000000000000000,
{
    reveal_with_fuel(pow10, 17);
}

/// `decimal(n)` is made of digits, denotes `n`, and has at most `k`
/// digits when `n < 10^k`.
pub proof fn lemma_decimal(n: nat)
    ensures
        decimal(n).len() >= 1,
        forall|i: int| 0 <= i < decimal(n).len() ==> is_digit(#[trigger] decimal(n)[i]),
        digits_value(decimal(n)) == n,
        forall|k: nat| 1 <= k && n < #[trigger] pow10(k) ==> decimal(n).len() <= k,
    decreases n,
{
    if n < 10 {
        assert(decimal(n).drop_last() =~= Seq::<u8>::empty());
        assert(digits_value(Seq::<u8>::empty()) == 0);
        assert(decimal(n).last() == (ZERO + n) as u8);
        assert forall|k: nat| 1 <= k && n < #[trigger] pow10(k) implies decimal(n).len() <= k by {}
    } else {
        lemma_decimal(n / 10);
        let d = decimal(n);
        assert(d.drop_last() =~= decimal(n / 10));
        assert forall|i: int| 0 <= i < d.len() implies is_digit(#[trigger] d[i]) by {
            if i < d.len() - 1 {
                assert(d[i] == decimal(n / 10)[i]);
            }
        }
        assert(digits_value(d) == (n / 10) * 10 + n % 10);
        assert forall|k: nat| 1 <= k && n < #[trigger] pow10(k) implies d.len() <= k by {
            if k == 1 {
                assert(pow10(1) == 10) by {
                    reveal_with_fuel(pow10, 2);
                }
            } else {
                let k1 = (k - 1) as nat;
                assert(pow10(k) == 10 * pow10(k1));
                assert(n / 10 < pow10(k1)) by (nonlinear_arith)
                    requires
                        n < 10 * pow10(k1),
                ;
                assert(decimal(n / 10).len() <= k1);
            }
        }
    }
}

/// Appends the decimal representation of `n` to `v`.
pub fn push_decimal(v: &mut Vec<u8>, n: u64)
    ensures
        final(v)@ == old(v)@ + decimal(n as nat),
    decreases n,
{
    if n >= 10 {
        push_decimal(v, n / 10);
    }
    let digit: u8 = (n % 10) as u8;
    v.push(ZERO + digit);
    proof {
        if n >= 10 {
            assert(decimal(n as nat) == decimal((n / 10) as nat).push((ZERO + n % 10) as u8));
        } else {
            assert(decimal(n as nat) == seq![(ZERO + n) as u8]);
        }
    }
    assert(final(v)@ =~= old(v)@ + decimal(n as nat)) by {
        if n >= 10 {
            assert(old(v)@ + decimal((n / 10) as nat).push((ZERO + n % 10) as u8) =~= (old(v)@
                + decimal((n / 10) as nat)).push((ZERO + n % 10) as u8));
        }
    }
}

/// Reads the digits at `pos`, at most `max` of them: returns the position
/// after them and the number they denote.
pub fn scan_digits(s: &[u8], pos: usize, max: usize) -> (r: (usize, u64))
    requires
        pos <= s@.len(),
        max <= 16,
    ensures
        r.0 == pos + digit_run(s@, pos as int, max as nat),
        r.1 == digits_value(s@.subrange(pos as int, r.0 as int)),
        r.0 <= s@.len(),
{
    let mut i: usize = pos;
    let mut value: u64 = 0;
    proof {
        lemma_pow10_16();
        lemma_pow10_monotone(max as nat, 16);
        assert(s@.subrange(pos as int, pos as int) =~= Seq::<u8>::empty());
    }
    while i < s.len() && i - pos < max && ZERO <= s[i] && s[i] <= 0x39
        invariant
            pos <= i <= s@.len(),
            i - pos <= max,
            max <= 16,
            pow10(max as nat) <= 10000000000000000,
            digit_run(s@, pos as int, max as nat) == (i - pos) + digit_run(
                s@,
                i as int,
                (max - (i - pos)) as nat,
            ),
            value == digits_value(s@.subrange(pos as int, i as int)),
            value < pow10((i - pos) as nat),
        decreases s.len() - i,
    {
        let d: u8 = s[i] - ZERO;
        proof {
            let k = (i - pos) as nat;
            lemma_pow10_monotone(k + 1, max as nat);
            assert(pow10(k + 1) == 10 * pow10(k));
            assert(value * 10 + d < pow10(k + 1)) by (nonlinear_arith)
                requires
                    value < pow10(k),
                    d < 10,
                    pow10(k + 1) == 10 * pow10(k),
            ;
            assert(s@.subrange(pos as int, i + 1).drop_last() =~= s@.subrange(pos as int, i as int));
        }
        value = value * 10 + d as u64;
        i = i + 1;
    }
    (i, value)
}

/* UTF-8 text and ASCII separators */

proof fn lemma_scalar_bytes_high(u: u32)
    requires
        is_scalar(u),
        !has_width_1_encoding(u),
    ensures
        forall|i: int| 0 <= i < encode_scalar(u).len() ==> #[trigger] encode_scalar(u)[i] >= 0x80,
{
    assert(leading_byte_width_2(u) >= 0x80 && leading_byte_width_3(u) >= 0x80
        && leading_byte_width_4(u) >= 0x80 && last_continuation_byte(u) >= 0x80
        && second_last_continuation_byte(u) >= 0x80 && third_last_continuation_byte(u) >= 0x80)
        by (bit_vector);
}

/// An ASCII byte occurs in the UTF-8 encoding of a text exactly when its
/// character occurs in the text.
pub proof fn lemma_encode_ascii(chars: Seq<char>, c: u8)
    requires
        c < 0x80,
    ensures
        encode_utf8(chars).contains(c) <==> chars.contains(ascii_char(c)),
    decreases chars.len(),
{
    if chars.len() > 0 {
        let rest = chars.drop_first();
        lemma_encode_ascii(rest, c);
        let u = chars[0] as u32;
        vstd::utf8::char_is_scalar(chars[0]);
        vstd::utf8::char_u32_cast(chars[0], u);
        let head = encode_scalar(u);
        let all = encode_utf8(chars);
        assert(all == head + encode_utf8(rest));
        if has_width_1_encoding(u) {
            assert(leading_byte_width_1(u) == u as u8) by (bit_vector)
                requires
                    u <= 0x7f,
            ;
            assert(head =~= seq![u as u8]);
        } else {
            lemma_scalar_bytes_high(u);
        }
        if all.contains(c) {
            let k = choose|k: int| 0 <= k < all.len() && all[k] == c;
            if k < head.len() {
                assert(head[k] == c);
                assert(chars[0] == ascii_char(c));
            } else {
                assert(encode_utf8(rest)[k - head.len()] == c);
                let m = choose|m: int| 0 <= m < rest.len() && rest[m] == ascii_char(c);
                assert(chars[m + 1] == ascii_char(c));
            }
        }
        if chars.contains(ascii_char(c)) {
            let m = choose|m: int| 0 <= m < chars.len() && chars[m] == ascii_char(c);
            if m == 0 {
                assert((c as u32) as char == chars[0]);
                assert(u == c as u32);
                assert(all[0] == c);
            } else {
                assert(rest[m - 1] == ascii_char(c));
                let k = choose|k: int| 0 <= k < encode_utf8(rest).len() && encode_utf8(rest)[k] == c;
                assert(all[k + head.len()] == c);
            }
        }
    }
}

/// An ASCII byte occurs in valid UTF-8 exactly when its character occurs in
/// the decoded text.
pub proof fn lemma_decode_ascii(b: Seq<u8>, c: u8)
    requires
        valid_utf8(b),
        c < 0x80,
    ensures
        decode_utf8(b).contains(ascii_char(c)) <==> b.contains(c),
{
    vstd::utf8::decode_utf8_encode_utf8(b);
    lemma_encode_ascii(decode_utf8(b), c);
}

/// Valid UTF-8 splits at an ASCII byte into the text before it, its
/// character, and the text after it.
pub proof fn lemma_decode_split_ascii(b: Seq<u8>, j: int)
    requires
        valid_utf8(b),
        0 <= j < b.len(),
        b[j] < 0x80,
    ensures
        valid_utf8(b.subrange(0, j)),
        valid_utf8(b.subrange(j + 1, b.len() as int)),
        decode_utf8(b) == decode_utf8(b.subrange(0, j)) + seq![ascii_char(b[j])] + decode_utf8(
            b.subrange(j + 1, b.len() as int),
        ),
{
    let c = b[j];
    vstd::utf8::is_char_boundary_iff_not_is_continuation_byte(b, j);
    vstd::utf8::valid_utf8_split(b, j);
    vstd::utf8::decode_utf8_split(b, j);
    let t = b.subrange(j, b.len() as int);
    assert(t[0] == c);
    assert(is_leading_byte_width_1(c));
    assert(codepoint_width_1(c) == c as u32) by (bit_vector)
        requires
            c < 0x80,
    ;
    assert(pop_first_scalar(t) =~= b.subrange(j + 1, b.len() as int));
    assert(decode_utf8(t) == seq![ascii_char(c)] + decode_utf8(b.subrange(j + 1, b.len() as int)));
    assert(decode_utf8(b) =~= decode_utf8(b.subrange(0, j)) + seq![ascii_char(c)] + decode_utf8(
        b.subrange(j + 1, b.len() as int),
    ));
}

/// UTF-8 encoding distributes over concatenation.
pub proof fn lemma_encode_concat(a: Seq<char>, b: Seq<char>)
    ensures
        encode_utf8(a + b) == encode_utf8(a) + encode_utf8(b),
    decreases a.len(),
{
    if a.len() > 0 {
        assert((a + b).drop_first() =~= a.drop_first() + b);
        assert((a + b)[0] == a[0]);
        lemma_encode_concat(a.drop_first(), b);
        assert(encode_utf8(a + b) =~= encode_utf8(a) + encode_utf8(b));
    } else {
        assert(a + b =~= b);
    }
}

/// Two texts joined by an ASCII separator encode as their encodings joined
/// by the separator's byte.
pub proof fn lemma_encode_join(a: Seq<char>, c: u8, b: Seq<char>)
    requires
        c < 0x80,
    ensures
        encode_utf8(a + seq![ascii_char(c)] + b) == encode_utf8(a) + seq![c] + encode_utf8(b),
{
    let sep = seq![ascii_char(c)];
    assert(sep.drop_first() =~= Seq::<char>::empty());
    assert(ascii_char(c) as u32 == c as u32);
    assert(leading_byte_width_1(c as u32) == c) by (bit_vector)
        requires
            c < 0x80,
    ;
    assert(encode_utf8(Seq::<char>::empty()) == Seq::<u8>::empty());
    assert(encode_utf8(sep) == encode_scalar(c as u32) + encode_utf8(Seq::<char>::empty()));
    assert(encode_utf8(sep) =~= seq![c]);
    lemma_encode_concat(a, sep);
    lemma_encode_concat(a + sep, b);
}

/// Splitting `a + [x] + b` at its first `x` gives `a` and `b` when `a`
/// holds no `x`.
pub proof fn lemma_split_first_join<A>(a: Seq<A>, x: A, b: Seq<A>)
    requires
        !a.contains(x),
    ensures
        split_first(a + seq![x] + b, x) == Some((a, b)),
{
    let s = a + seq![x] + b;
    assert(s[a.len() as int] == x);
    assert forall|j: int| 0 <= j < a.len() implies s[j] != x by {
        assert(s[j] == a[j]);
        if a[j] == x {
            assert(a.contains(x));
        }
    }
    lemma_first_index_of_at(s, x, a.len() as int);
    assert(s.subrange(0, a.len() as int) =~= a);
    assert(s.subrange(a.len() + 1int, s.len() as int) =~= b);
}

/// Splitting `a + [x] + b` at its last `x` gives `a` and `b` when `b`
/// holds no `x`.
pub proof fn lemma_split_last_join<A>(a: Seq<A>, x: A, b: Seq<A>)
    requires
        !b.contains(x),
    ensures
        split_last(a + seq![x] + b, x) == Some((a, b)),
{
    let s = a + seq![x] + b;
    assert(s[a.len() as int] == x);
    assert forall|j: int| a.len() < j < s.len() implies s[j] != x by {
        assert(s[j] == b[j - a.len() - 1]);
        if b[j - a.len() - 1] == x {
            assert(b.contains(x));
        }
    }
    lemma_last_index_of_at(s, x, a.len() as int);
    assert(s.subrange(0, a.len() as int) =~= a);
    assert(s.subrange(a.len() + 1int, s.len() as int) =~= b);
}

/// After an ASCII byte at `j` in valid UTF-8, position `j + 1` starts a
/// character (or ends the bytes).
proof fn lemma_boundary_after_ascii(b: Seq<u8>, j: int)
    requires
        valid_utf8(b),
        0 <= j < b.len(),
        b[j] < 0x80,
    ensures
        is_char_boundary(b.subrange(j, b.len() as int), 1),
{
    lemma_decode_split_ascii(b, j);
    let t = b.subrange(j, b.len() as int);
    vstd::utf8::is_char_boundary_iff_not_is_continuation_byte(b, j);
    vstd::utf8::valid_utf8_split(b, j);
    if t.len() == 1 {
        vstd::utf8::is_char_boundary_start_end_of_seq(t);
    } else {
        let u = b.subrange(j + 1, b.len() as int);
        assert(u[0] == t[1]);
        assert(valid_first_scalar(u));
        vstd::utf8::is_char_boundary_iff_not_is_continuation_byte(t, 1);
    }
}

/// The text of `b[from..to]` when `b` is the UTF-8 encoding of `s`.
proof fn lemma_piece(s: &str, b: Seq<u8>)
    requires
        s.spec_bytes() == b,
    ensures
        s@ == decode_utf8(b),
{
}

/// `s.rsplitn(2, sep)` for an ASCII separator: the text before the last
/// `sep` and the text after it, or `None` when `sep` does not occur.
pub fn split_last_ascii(s: &str, sep: u8) -> (r: Option<(String, String)>)
    requires
        sep < 0x80,
    ensures
        match r {
            Some((a, b)) => split_last(s@, ascii_char(sep)) == Some((a@, b@)),
            None => split_last(s@, ascii_char(sep)) is None,
        },
{
    let bytes = s.as_bytes();
    let ghost b = bytes@;
    let ghost ch = ascii_char(sep);
    proof {
        assert(b == encode_utf8(s@));
        assert(decode_utf8(b) == s@);
    }
    match find_last(bytes, sep) {
        None => {
            proof {
                lemma_last_index_of(b, sep);
                lemma_decode_ascii(b, sep);
                assert forall|k: int| 0 <= k < s@.len() implies s@[k] != ch by {
                    if s@[k] == ch {
                        assert(s@.contains(ch));
                    }
                }
                lemma_last_index_of_none(s@, ch);
            }
            None
        },
        Some(j) => {
            let ghost pre = b.subrange(0, j as int);
            let ghost post = b.subrange(j + 1, b.len() as int);
            proof {
                lemma_last_index_of(b, sep);
                lemma_decode_split_ascii(b, j as int);
                vstd::utf8::is_char_boundary_iff_not_is_continuation_byte(b, j as int);
                lemma_boundary_after_ascii(b, j as int);
                assert forall|k: int| 0 <= k < post.len() implies post[k] != sep by {
                    assert(post[k] == b[j + 1 + k]);
                }
                lemma_decode_ascii(post, sep);
                let dpre = decode_utf8(pre);
                let dpost = decode_utf8(post);
                assert(s@ == dpre + seq![ch] + dpost);
                assert(s@[dpre.len() as int] == ch);
                assert forall|k: int| dpre.len() < k < s@.len() implies s@[k] != ch by {
                    assert(s@[k] == dpost[k - dpre.len() - 1]);
                    if dpost[k - dpre.len() - 1] == ch {
                        assert(dpost.contains(ch));
                    }
                }
                lemma_last_index_of_at(s@, ch, dpre.len() as int);
                assert(s@.subrange(0, dpre.len() as int) =~= dpre);
                assert(s@.subrange(dpre.len() + 1int, s@.len() as int) =~= dpost);
            }
            let (left, rest) = s.split_at(j);
            let (_, right) = rest.split_at(1);
            proof {
                assert(rest.spec_bytes().subrange(1, rest.spec_bytes().len() as int) =~= post);
                lemma_piece(left, pre);
                lemma_piece(right, post);
            }
            Some((left.to_owned(), right.to_owned()))
        },
    }
}

/// `s.split_once(sep)` for an ASCII separator: the text before the first
/// `sep` and the text after it, or `None` when `sep` does not occur.
pub fn split_first_ascii(s: &str, sep: u8) -> (r: Option<(String, String)>)
    requires
        sep < 0x80,
    ensures
        match r {
            Some((a, b)) => split_first(s@, ascii_char(sep)) == Some((a@, b@)),
            None => split_first(s@, ascii_char(sep)) is None,
        },
{
    let bytes = s.as_bytes();
    let ghost b = bytes@;
    let ghost ch = ascii_char(sep);
    proof {
        assert(b == encode_utf8(s@));
        assert(decode_utf8(b) == s@);
    }
    match find_first(bytes, sep) {
        None => {
            proof {
                lemma_first_index_of(b, sep);
                lemma_decode_ascii(b, sep);
                assert forall|k: int| 0 <= k < s@.len() implies s@[k] != ch by {
                    if s@[k] == ch {
                        assert(s@.contains(ch));
                    }
                }
                lemma_first_index_of_none(s@, ch);
            }
            None
        },
        Some(j) => {
            let ghost pre = b.subrange(0, j as int);
            let ghost post = b.subrange(j + 1, b.len() as int);
            proof {
                lemma_first_index_of(b, sep);
                lemma_decode_split_ascii(b, j as int);
                vstd::utf8::is_char_boundary_iff_not_is_continuation_byte(b, j as int);
                lemma_boundary_after_ascii(b, j as int);
                assert forall|k: int| 0 <= k < pre.len() implies pre[k] != sep by {
                    assert(pre[k] == b[k]);
                }
                lemma_decode_ascii(pre, sep);
                let dpre = decode_utf8(pre);
                let dpost = decode_utf8(post);
                assert(s@ == dpre + seq![ch] + dpost);
                assert(s@[dpre.len() as int] == ch);
                assert forall|k: int| 0 <= k < dpre.len() implies s@[k] != ch by {
                    assert(s@[k] == dpre[k]);
                    if dpre[k] == ch {
                        assert(dpre.contains(ch));
                    }
                }
                lemma_first_index_of_at(s@, ch, dpre.len() as int);
                assert(s@.subrange(0, dpre.len() as int) =~= dpre);
                assert(s@.subrange(dpre.len() + 1int, s@.len() as int) =~= dpost);
            }
            let (left, rest) = s.split_at(j);
            let (_, right) = rest.split_at(1);
            proof {
                assert(rest.spec_bytes().subrange(1, rest.spec_bytes().len() as int) =~= post);
                lemma_piece(left, pre);
                lemma_piece(right, post);
            }
            Some((left.to_owned(), right.to_owned()))
        },
    }
}

/// `std::str::from_utf8`: the text that the bytes encode, when they are
/// valid UTF-8.
#[verifier::external_body]
pub(crate) fn str_from_utf8(b: &[u8]) -> (r: Option<&str>)
    ensures
        r is Some <==> valid_utf8(b@),
        r matches Some(s) ==> s@ == decode_utf8(b@),
{
    std::str::from_utf8(b).ok()
}

/// `String::from_utf8`: the text that the bytes encode, when they are
/// valid UTF-8.
#[verifier::external_body]
pub(crate) fn string_from_utf8(b: Vec<u8>) -> (r: Option<String>)
    ensures
        r is Some <==> valid_utf8(b@),
        r matches Some(s) ==> s@ == decode_utf8(b@),
{
    String::from_utf8(b).ok()
}

/// `s` followed by the ASCII character `c`.
pub fn push_ascii(s: &mut String, c: u8)
    requires
        c < 0x80,
    ensures
        final(s)@ == old(s)@ + seq![ascii_char(c)],
{
    let piece: Vec<u8> = vec![c];
    proof {
        let b = piece@;
        assert(b == seq![c]);
        assert(leading_byte_width_1(c as u32) == c) by (bit_vector)
            requires
                c < 0x80,
        ;
        let t = seq![ascii_char(c)];
        assert(t.drop_first() =~= Seq::<char>::empty());
        assert(ascii_char(c) as u32 == c as u32);
        assert(encode_utf8(Seq::<char>::empty()) == Seq::<u8>::empty());
        assert(encode_utf8(t) == encode_scalar(c as u32) + encode_utf8(Seq::<char>::empty()));
        assert(encode_utf8(t) =~= b);
        vstd::utf8::encode_utf8_valid_utf8(t);
        vstd::utf8::encode_utf8_decode_utf8(t);
    }
    let text = string_from_utf8(piece).unwrap();
    s.append(text.as_str());
}

/// The texts joined by the ASCII character `sep`, as `format!("{}{}{}")`
/// writes them.
pub fn join_ascii(a: &str, sep: u8, b: &str) -> (r: String)
    requires
        sep < 0x80,
    ensures
        r@ == a@ + seq![ascii_char(sep)] + b@,
{
    let mut r = a.to_owned();
    push_ascii(&mut r, sep);
    r.append(b);
    r
}

} // verus!
