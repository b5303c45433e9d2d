//! Numeric literals of the wire format: unsigned integers and unsigned
//! decimal fractions, parsed from and rendered to ASCII bytes.
use vstd::prelude::*;

verus! {

pub const DOT: u8 = 46;

pub open spec fn is_digit(c: u8) -> bool {
    48 <= c <= 57
}

pub open spec fn all_digits(s: Seq<u8>) -> bool {
    forall|i: int| 0 <= i < s.len() ==> is_digit(#[trigger] s[i])
}

/// The number that a string of decimal digits denotes.
pub open spec fn digits_value(s: Seq<u8>) -> nat
    decreases s.len(),
{
    if s.len() == 0 {
        0
    } else {
        digits_value(s.drop_last()) * 10 + (s.last() - 48) as nat
    }
}

/// An unsigned integer literal: one or more digits whose value fits in `u64`.
pub open spec fn u64_of(s: Seq<u8>) -> Option<u64> {
    if s.len() > 0 && all_digits(s) && digits_value(s) <= u64::MAX {
        Some(digits_value(s) as u64)
    } else {
        None
    }
}

/// Index of the first occurrence of `c` in `s`, or `s.len()` if there is none.
pub open spec fn first_index(s: Seq<u8>, c: u8) -> int
    decreases s.len(),
{
    if s.len() == 0 || s[0] == c {
        0
    } else {
        1 + first_index(s.drop_first(), c)
    }
}

pub proof fn lemma_first_index(s: Seq<u8>, c: u8, i: int)
    requires
        0 <= i <= s.len(),
        forall|j: int| 0 <= j < i ==> s[j] != c,
        i == s.len() || s[i] == c,
    ensures
        first_index(s, c) == i,
    decreases i,
{
    if i > 0 {
        lemma_first_index(s.drop_first(), c, i - 1);
    }
}

/// A non-negative decimal number: `mantissa / 10^scale`.
#[derive(Clone, Copy, Debug, PartialEq, Eq, Structural)]
pub struct Decimal {
    pub mantissa: u64,
    pub scale: usize,
}

/// An unsigned decimal literal: digits, optionally split by one point
/// (`12.00`, `5`, `.5`, `5.`), with at least one digit; the digits read as
/// one integer must fit in `u64`, and the scale is the count after the point.
pub open spec fn decimal_of(s: Seq<u8>) -> Option<Decimal> {
    let d = first_index(s, DOT);
    if d >= s.len() {
        match u64_of(s) {
            Some(m) => Some(Decimal { mantissa: m, scale: 0 }),
            None => None,
        }
    } else {
        let frac = s.subrange(d + 1, s.len() as int);
        match u64_of(s.subrange(0, d) + frac) {
            Some(m) => Some(Decimal { mantissa: m, scale: frac.len() as usize }),
            None => None,
        }
    }
}

proof fn lemma_digits_value_mono(s: Seq<u8>, i: int, j: int)
    requires
        0 <= i <= j <= s.len(),
        all_digits(s),
    ensures
        digits_value(s.subrange(0, i)) <= digits_value(s.subrange(0, j)),
    decreases j - i,
{
    if i < j {
        lemma_digits_value_mono(s, i, j - 1);
        assert(s.subrange(0, j).drop_last() =~= s.subrange(0, j - 1));
    }
}

/// Parses an unsigned integer literal.
pub fn parse_u64(s: &[u8]) -> (r: Option<u64>)
    ensures
        r == u64_of(s@),
{
    if s.len() == 0 {
        return None;
    }
    let mut v: u64 = 0;
    let mut i: usize = 0;
    while i < s.len()
        invariant
            0 <= i <= s@.len(),
            forall|j: int| 0 <= j < i ==> is_digit(#[trigger] s@[j]),
            v == digits_value(s@.subrange(0, i as int)),
        decreases s@.len() - i,
    {
        let c = s[i];
        if c < 48 || c > 57 {
            assert(!all_digits(s@));
            return None;
        }
        assert(s@.subrange(0, i + 1).drop_last() =~= s@.subrange(0, i as int));
        let next = match v.checked_mul(10) {
            Some(t) => t.checked_add((c - 48) as u64),
            None => None,
        };
        match next {
            Some(n) => {
                v = n;
            },
            None => {
                proof {
                    if all_digits(s@) {
                        lemma_digits_value_mono(s@, i + 1, s@.len() as int);
                        assert(s@.subrange(0, s@.len() as int) =~= s@);
                    }
                }
                return None;
            },
        }
        i = i + 1;
    }
    assert(s@.subrange(0, s@.len() as int) =~= s@);
    Some(v)
}

/// Index of the first `c` in `s`, or `s.len()` if there is none.
pub fn find_byte(s: &[u8], c: u8) -> (r: usize)
    ensures
        r as int == first_index(s@, c),
        r <= s@.len(),
{
    let mut i: usize = 0;
    while i < s.len() && s[i] != c
        invariant
            0 <= i <= s@.len(),
            forall|j: int| 0 <= j < i ==> s@[j] != c,
        decreases s@.len() - i,
    {
        i = i + 1;
    }
    proof {
        lemma_first_index(s@, c, i as int);
    }
    i
}

/// Parses an unsigned decimal literal.
pub fn parse_decimal(s: &[u8]) -> (r: Option<Decimal>)
    ensures
        r == decimal_of(s@),
{
    let d = find_byte(s, DOT);
    if d == s.len() {
        match parse_u64(s) {
            Some(m) => Some(Decimal { mantissa: m, scale: 0 }),
            None => None,
        }
    } else {
        let mut joined: Vec<u8> = Vec::new();
        let mut i: usize = 0;
        while i < s.len()
            invariant
                d < s@.len(),
                0 <= i <= s@.len(),
                joined@ =~= (if i <= d {
                    s@.subrange(0, i as int)
                } else {
                    s@.subrange(0, d as int) + s@.subrange(d + 1, i as int)
                }),
            decreases s@.len() - i,
        {
            if i != d {
                joined.push(s[i]);
            }
            i = i + 1;
        }
        match parse_u64(joined.as_slice()) {
            Some(m) => Some(Decimal { mantissa: m, scale: s.len() - d - 1 }),
            None => None,
        }
    }
}

/// The decimal digits of `n`, padded with leading zeros to at least `width`.
pub open spec fn padded_digits(n: nat, width: nat) -> Seq<u8>
    decreases n + width,
{
    if n < 10 && width <= 1 {
        seq![(48 + n) as u8]
    } else {
        padded_digits(n / 10, if width > 0 { (width - 1) as nat } else { 0 }).push(
            (48 + n % 10) as u8,
        )
    }
}

/// The shortest decimal digits of `n`.
pub open spec fn digits_text(n: nat) -> Seq<u8> {
    padded_digits(n, 1)
}

/// A decimal rendered with exactly `scale` digits after the point, and no
/// point when the scale is zero (`Decimal { mantissa: 500, scale: 3 }` is
/// `0.500`).
pub open spec fn decimal_text(d: Decimal) -> Seq<u8> {
    let t = padded_digits(d.mantissa as nat, (d.scale + 1) as nat);
    if d.scale == 0 {
        t
    } else {
        let k = t.len() - d.scale;
        t.subrange(0, k) + seq![DOT] + t.subrange(k, t.len() as int)
    }
}

pub proof fn lemma_padded_digits(n: nat, width: nat)
    ensures
        all_digits(padded_digits(n, width)),
        digits_value(padded_digits(n, width)) == n,
        padded_digits(n, width).len() >= width,
        padded_digits(n, width).len() >= 1,
    decreases n + width,
{
    let t = padded_digits(n, width);
    if n < 10 && width <= 1 {
        assert(t.drop_last() =~= Seq::<u8>::empty());
        assert(digits_value(t.drop_last()) == 0);
    } else {
        let w = if width > 0 { (width - 1) as nat } else { 0 };
        lemma_padded_digits(n / 10, w);
        assert(t.drop_last() =~= padded_digits(n / 10, w));
        assert(t.last() == (48 + n % 10) as u8);
        assert((n / 10) * 10 + n % 10 == n);
    }
}

/// Appends the digits of `n`, padded with zeros to at least `width`.
fn push_padded(n: u64, width: usize, out: &mut Vec<u8>)
    ensures
        final(out)@ == old(out)@ + padded_digits(n as nat, width as nat),
    decreases n + width,
{
    if n < 10 && width <= 1 {
        out.push(48 + n as u8);
    } else {
        let w: usize = if width > 0 { width - 1 } else { 0 };
        push_padded(n / 10, w, out);
        out.push(48 + (n % 10) as u8);
    }
    assert(final(out)@ =~= old(out)@ + padded_digits(n as nat, width as nat));
}

/// Appends the decimal digits of `n`.
pub fn push_u64(n: u64, out: &mut Vec<u8>)
    ensures
        final(out)@ == old(out)@ + digits_text(n as nat),
{
    push_padded(n, 1, out);
}

/// Appends the text of a decimal.
pub fn push_decimal(d: Decimal, out: &mut Vec<u8>)
    requires
        d.scale < usize::MAX,
    ensures
        final(out)@ == old(out)@ + decimal_text(d),
{
    let mut t: Vec<u8> = Vec::new();
    push_padded(d.mantissa, d.scale + 1, &mut t);
    assert(t@ =~= padded_digits(d.mantissa as nat, (d.scale + 1) as nat));
    proof {
        lemma_padded_digits(d.mantissa as nat, (d.scale + 1) as nat);
    }
    if d.scale == 0 {
        let mut i: usize = 0;
        while i < t.len()
            invariant
                0 <= i <= t@.len(),
                out@ =~= old(out)@ + t@.subrange(0, i as int),
            decreases t@.len() - i,
        {
            out.push(t[i]);
            i = i + 1;
        }
    } else {
        let k = t.len() - d.scale;
        let mut i: usize = 0;
        while i < t.len()
            invariant
                k == t@.len() - d.scale,
                0 <= k <= t@.len(),
                0 <= i <= t@.len(),
                out@ =~= old(out)@ + (if i <= k {
                    t@.subrange(0, i as int)
                } else {
                    t@.subrange(0, k as int) + seq![DOT] + t@.subrange(k as int, i as int)
                }),
            decreases t@.len() - i,
        {
            if i == k {
                out.push(DOT);
            }
            out.push(t[i]);
            i = i + 1;
        }
    }
}

/// Rendering a decimal and parsing the text back gives the same decimal.
pub proof fn lemma_decimal_round_trip(d: Decimal)
    requires
        d.scale < usize::MAX,
    ensures
        decimal_of(decimal_text(d)) == Some(d),
{
    let t = padded_digits(d.mantissa as nat, (d.scale + 1) as nat);
    lemma_padded_digits(d.mantissa as nat, (d.scale + 1) as nat);
    let s = decimal_text(d);
    if d.scale == 0 {
        assert forall|j: int| 0 <= j < s.len() implies s[j] != DOT by {
            assert(is_digit(t[j]));
        }
        lemma_first_index(s, DOT, s.len() as int);
    } else {
        let k = t.len() - d.scale;
        assert forall|j: int| 0 <= j < k implies s[j] != DOT by {
            assert(s[j] == t[j]);
            assert(is_digit(t[j]));
        }
        lemma_first_index(s, DOT, k);
        assert(s.subrange(0, k) + s.subrange(k + 1, s.len() as int) =~= t);
    }
}

} // verus!
