//! Signed integers as decimal text: no sign for zero and above, no leading
//! zeros, no padding.

use vstd::prelude::*;

verus! {

/// The byte `-`.
pub const MINUS: u8 = 45;

/// The byte `0`.
pub const ZERO: u8 = 48;

/// Whether `b` is one of the bytes `0` to `9`.
pub open spec fn is_digit(b: u8) -> bool {
    48 <= b <= 57
}

/// The byte that writes the digit `d`.
pub open spec fn digit(d: nat) -> u8
    recommends
        d < 10,
{
    (48 + d) as u8
}

/// The decimal digits of `n`, most significant first.
pub open spec fn decimal(n: nat) -> Seq<u8>
    decreases n,
{
    if n < 10 {
        seq![digit(n)]
    } else {
        decimal(n / 10).push(digit(n % 10))
    }
}

/// The text of an integer: a `-` for a negative one, then the digits of its
/// magnitude.
pub open spec fn int_text(i: int) -> Seq<u8> {
    if i < 0 {
        seq![MINUS] + decimal((-i) as nat)
    } else {
        decimal(i as nat)
    }
}

/// The number that a run of digits writes.
pub open spec fn digits_value(s: Seq<u8>) -> nat
    decreases s.len(),
{
    if s.len() == 0 {
        0
    } else {
        digits_value(s.drop_last()) * 10 + (s.last() - 48) as nat
    }
}

/// Whether every byte of `s` is a digit.
pub open spec fn all_digits(s: Seq<u8>) -> bool {
    forall|i: int| 0 <= i < s.len() ==> is_digit(#[trigger] s[i])
}

/// Whether the text of `v` stands in `x` from `p` up to `e`, and no digit
/// follows it.
pub open spec fn int_at(x: Seq<u8>, p: int, v: int, e: int) -> bool {
    &&& 0 <= p <= e <= x.len()
    &&& x.subrange(p, e) == int_text(v)
    &&& (e == x.len() || !is_digit(x[e]))
}

/// Decimal text is never empty, holds digits only, and starts with `0` only
/// for zero itself.
pub proof fn lemma_decimal_shape(n: nat)
    ensures
        decimal(n).len() >= 1,
        all_digits(decimal(n)),
        decimal(n)[0] == ZERO ==> n == 0,
        n == 0 ==> decimal(n) == seq![ZERO],
        decimal(n).len() > 1 ==> decimal(n)[0] != ZERO,
    decreases n,
{
    if n >= 10 {
        lemma_decimal_shape(n / 10);
    }
}

/// Reading the digits of `n` gives `n` back.
pub proof fn lemma_value_of_decimal(n: nat)
    ensures
        digits_value(decimal(n)) == n,
    decreases n,
{
    let s = decimal(n);
    if n < 10 {
        assert(s.drop_last().len() == 0);
        assert(digits_value(s.drop_last()) == 0);
    } else {
        lemma_value_of_decimal(n / 10);
        assert(s.drop_last() == decimal(n / 10));
        assert(s.last() == digit(n % 10));
    }
}

/// A run of digits without a leading zero is the decimal text of its value.
pub proof fn lemma_decimal_of_value(s: Seq<u8>)
    requires
        s.len() >= 1,
        all_digits(s),
        s.len() > 1 ==> s[0] != ZERO,
    ensures
        decimal(digits_value(s)) == s,
    decreases s.len(),
{
    let d: nat = (s.last() - 48) as nat;
    assert(is_digit(s[s.len() - 1]));
    if s.len() == 1 {
        assert(s.drop_last().len() == 0);
        assert(digits_value(s.drop_last()) == 0);
        assert(decimal(d) == seq![digit(d)]);
        assert(seq![digit(d)] == s);
    } else {
        let t = s.drop_last();
        assert(t[0] == s[0]);
        assert(all_digits(t)) by {
            assert forall|i: int| 0 <= i < t.len() implies is_digit(#[trigger] t[i]) by {
                assert(t[i] == s[i]);
            }
        }
        lemma_decimal_of_value(t);
        let m = digits_value(t);
        if m == 0 {
            lemma_decimal_shape(0);
            assert(t == seq![ZERO]);
            assert(t[0] == ZERO);
        }
        let n = digits_value(s);
        assert(n == m * 10 + d);
        assert(n / 10 == m && n % 10 == d);
        assert(decimal(n) == decimal(m).push(digit(d)));
        assert(t.push(digit(d)) == s);
    }
}

/// A run of digits writes at least what any of its prefixes writes.
pub proof fn lemma_value_of_prefix(s: Seq<u8>, k: int)
    requires
        0 <= k <= s.len(),
        all_digits(s),
    ensures
        digits_value(s.subrange(0, k)) <= digits_value(s),
    decreases s.len(),
{
    if k == s.len() {
        assert(s.subrange(0, k) == s);
    } else {
        let t = s.drop_last();
        assert(is_digit(s[s.len() - 1]));
        assert(all_digits(t)) by {
            assert forall|i: int| 0 <= i < t.len() implies is_digit(#[trigger] t[i]) by {
                assert(t[i] == s[i]);
            }
        }
        lemma_value_of_prefix(t, k);
        assert(t.subrange(0, k) == s.subrange(0, k));
    }
}

/// Integer text is never empty, and after an optional `-` holds digits only.
pub proof fn lemma_int_text_shape(v: int)
    ensures
        int_text(v).len() >= 1,
        v < 0 <==> int_text(v)[0] == MINUS,
        v < 0 ==> int_text(v).subrange(1, int_text(v).len() as int) == decimal((-v) as nat),
        forall|i: int| 1 <= i < int_text(v).len() ==> is_digit(#[trigger] int_text(v)[i]),
        v >= 0 ==> is_digit(int_text(v)[0]),
{
    if v < 0 {
        let d = decimal((-v) as nat);
        lemma_decimal_shape((-v) as nat);
        assert(int_text(v).subrange(1, int_text(v).len() as int) == d);
        assert forall|i: int| 1 <= i < int_text(v).len() implies is_digit(
            #[trigger] int_text(v)[i],
        ) by {
            assert(int_text(v)[i] == d[i - 1]);
        }
    } else {
        lemma_decimal_shape(v as nat);
    }
}

/// Two integers with the same text are the same integer.
pub proof fn lemma_int_text_injective(a: int, b: int)
    requires
        int_text(a) == int_text(b),
    ensures
        a == b,
{
    lemma_int_text_shape(a);
    lemma_int_text_shape(b);
    if a < 0 {
        lemma_value_of_decimal((-a) as nat);
        lemma_value_of_decimal((-b) as nat);
    } else {
        lemma_value_of_decimal(a as nat);
        lemma_value_of_decimal(b as nat);
    }
}

/// What a match of `int_at` says of the bytes: where the digits start,
/// that they are digits, and what they write.
pub proof fn lemma_int_at_shape(x: Seq<u8>, p: int, v: int, e: int)
    requires
        int_at(x, p, v, e),
    ensures
        p < e,
        (x[p] == MINUS) <==> v < 0,
        ({
            let start = if v < 0 { p + 1 } else { p };
            let mag = (if v < 0 { -v } else { v }) as nat;
            &&& start < e
            &&& x.subrange(start, e) == decimal(mag)
            &&& all_digits(x.subrange(start, e))
            &&& digits_value(x.subrange(start, e)) == mag
            &&& (x[start] == ZERO ==> v == 0 && e == start + 1)
        }),
{
    let t = int_text(v);
    lemma_int_text_shape(v);
    assert(x.subrange(p, e).len() == e - p);
    assert(x[p] == x.subrange(p, e)[0]);
    let start = if v < 0 { p + 1 } else { p };
    let mag = (if v < 0 { -v } else { v }) as nat;
    lemma_decimal_shape(mag);
    lemma_value_of_decimal(mag);
    if v < 0 {
        assert(x.subrange(start, e) == x.subrange(p, e).subrange(1, e - p));
    }
    assert(x[start] == x.subrange(start, e)[0]);
}

/// At most one integer text stands at `p` with no digit after it.
pub proof fn lemma_int_at_unique(x: Seq<u8>, p: int, a: int, ea: int, b: int, eb: int)
    requires
        int_at(x, p, a, ea),
        int_at(x, p, b, eb),
    ensures
        a == b,
        ea == eb,
{
    lemma_int_at_shape(x, p, a, ea);
    lemma_int_at_shape(x, p, b, eb);
    let start = if a < 0 { p + 1 } else { p };
    if ea < eb {
        assert(is_digit(x.subrange(start, eb)[ea - start]));
    }
    if eb < ea {
        assert(is_digit(x.subrange(start, ea)[eb - start]));
    }
    lemma_int_text_injective(a, b);
}

/// The magnitude of `v`.
pub fn magnitude(v: i64) -> (m: u64)
    ensures
        v < 0 ==> m == -(v as int),
        v >= 0 ==> m == v,
{
    if v < 0 {
        let below: i64 = -(v + 1);
        (below as u64) + 1
    } else {
        v as u64
    }
}

/// Appends the decimal digits of `n` to `out`.
pub fn push_decimal(out: &mut Vec<u8>, n: u64)
    ensures
        final(out)@ == old(out)@ + decimal(n as nat),
    decreases n,
{
    if n >= 10 {
        push_decimal(out, n / 10);
    }
    let low: u8 = (n % 10) as u8;
    out.push(48 + low);
    assert(out@ == old(out)@ + decimal(n as nat));
}

/// Appends the text of `v` to `out`.
pub fn push_int(out: &mut Vec<u8>, v: i64)
    ensures
        final(out)@ == old(out)@ + int_text(v as int),
{
    if v < 0 {
        out.push(MINUS);
    }
    push_decimal(out, magnitude(v));
    assert(out@ == old(out)@ + int_text(v as int));
}

/// Whether `b` is a digit.
pub fn byte_is_digit(b: u8) -> (r: bool)
    ensures
        r == is_digit(b),
{
    48 <= b && b <= 57
}

/// Reads the integer whose text stands at `pos` in `input` and is followed
/// by no digit, and says where the text ends. There is at most one such
/// integer; where there is none in the range of `i64`, the result is `None`.
pub fn parse_int(input: &[u8], pos: usize) -> (r: Option<(i64, usize)>)
    ensures
        r matches Some((v, end)) ==> int_at(input@, pos as int, v as int, end as int),
        forall|v: i64, end: int| #[trigger]
            int_at(input@, pos as int, v as int, end) ==> r.is_some() && r.unwrap().0 == v
                && r.unwrap().1 == end,
{
    let n: usize = input.len();
    if pos >= n {
        proof {
            assert forall|v: i64, end: int| #[trigger]
                int_at(input@, pos as int, v as int, end) implies false by {
                lemma_int_at_shape(input@, pos as int, v as int, end);
            }
        }
        return None;
    }
    let negative: bool = input[pos] == MINUS;
    let start: usize = if negative {
        pos + 1
    } else {
        pos
    };
    if start >= n || !byte_is_digit(input[start]) {
        proof {
            assert forall|v: i64, end: int| #[trigger]
                int_at(input@, pos as int, v as int, end) implies false by {
                lemma_int_at_shape(input@, pos as int, v as int, end);
                assert(is_digit(input@.subrange(start as int, end)[0]));
            }
        }
        return None;
    }
    if input[start] == ZERO {
        let end: usize = start + 1;
        if negative || (end < n && byte_is_digit(input[end])) {
            proof {
                assert forall|v: i64, e: int| #[trigger]
                    int_at(input@, pos as int, v as int, e) implies false by {
                    lemma_int_at_shape(input@, pos as int, v as int, e);
                }
            }
            return None;
        }
        proof {
            assert(input@.subrange(pos as int, end as int) == int_text(0));
            assert forall|v: i64, e: int| #[trigger]
                int_at(input@, pos as int, v as int, e) implies v == 0 && e == end by {
                lemma_int_at_unique(input@, pos as int, v as int, e, 0, end as int);
            }
        }
        return Some((0, end));
    }
    let limit: u64 = if negative {
        9223372036854775808
    } else {
        9223372036854775807
    };
    let mut acc: u64 = 0;
    let mut i: usize = start;
    while i < n && byte_is_digit(input[i])
        invariant
            start <= i <= n,
            n == input@.len(),
            all_digits(input@.subrange(start as int, i as int)),
            acc == digits_value(input@.subrange(start as int, i as int)),
            acc <= limit,
            limit == (if negative { 9223372036854775808u64 } else { 9223372036854775807u64 }),
            negative == (input@[pos as int] == MINUS),
            start == (if negative { pos + 1 } else { pos as int }),
            pos < n,
        decreases n - i,
    {
        let d: u64 = (input[i] - 48) as u64;
        let ghost run = input@.subrange(start as int, i as int);
        let ghost longer = input@.subrange(start as int, i + 1);
        proof {
            assert(longer.drop_last() == run);
            assert(longer.last() == input@[i as int]);
            assert(digits_value(longer) == acc * 10 + d);
            assert(all_digits(longer)) by {
                assert forall|j: int| 0 <= j < longer.len() implies is_digit(
                    #[trigger] longer[j],
                ) by {
                    if j < run.len() {
                        assert(longer[j] == run[j]);
                    }
                }
            }
        }
        if acc > (limit - d) / 10 {
            proof {
                assert(acc * 10 + d > limit);
                assert forall|v: i64, e: int| #[trigger]
                    int_at(input@, pos as int, v as int, e) implies false by {
                    lemma_int_at_shape(input@, pos as int, v as int, e);
                    let whole = input@.subrange(start as int, e);
                    if e <= i {
                        assert(is_digit(longer[e - start]));
                    }
                    assert(whole.subrange(0, i + 1 - start) == longer);
                    lemma_value_of_prefix(whole, i + 1 - start);
                }
            }
            return None;
        }
        acc = acc * 10 + d;
        i = i + 1;
    }
    let ghost run = input@.subrange(start as int, i as int);
    let v: i64 = if negative {
        if acc == 9223372036854775808 {
            -9223372036854775808
        } else {
            -(acc as i64)
        }
    } else {
        acc as i64
    };
    proof {
        assert(i > start);
        assert(run[0] == input@[start as int]);
        lemma_decimal_of_value(run);
        if negative {
            assert(input@.subrange(pos as int, i as int) == seq![MINUS] + run);
            assert(acc > 0) by {
                if acc == 0 {
                    lemma_decimal_shape(0);
                }
            }
        }
        assert(input@.subrange(pos as int, i as int) == int_text(v as int));
        assert(int_at(input@, pos as int, v as int, i as int));
        assert forall|w: i64, e: int| #[trigger]
            int_at(input@, pos as int, w as int, e) implies w == v && e == i by {
            lemma_int_at_unique(input@, pos as int, w as int, e, v as int, i as int);
        }
    }
    Some((v, i))
}

} // verus!
