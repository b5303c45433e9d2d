//! Framing and decoding of the device's replies: single-line replies to a
//! query, and the batched status report of fourteen numeric lines.
use vstd::prelude::*;
use crate::number::{Decimal, decimal_of, u64_of, parse_decimal, parse_u64};

verus! {

pub const NL: u8 = 10;
pub const CR: u8 = 13;
pub const SP: u8 = 32;

/// Lines in a batched status report: seven pairs, one value per channel.
pub const FRAME_LINES: usize = 14;

/// The device's status, one entry per channel in each pair.
#[derive(Clone, Copy, Debug, PartialEq, Eq)]
pub struct Status {
    pub vsets: (Decimal, Decimal),
    pub vouts: (Decimal, Decimal),
    pub isets: (Decimal, Decimal),
    pub iouts: (Decimal, Decimal),
    pub outs: (u64, u64),
    pub ovsets: (Decimal, Decimal),
    pub ocps: (u64, u64),
}

/// The number of newline bytes in `s`.
pub open spec fn newline_count(s: Seq<u8>) -> nat
    decreases s.len(),
{
    if s.len() == 0 {
        0
    } else {
        newline_count(s.drop_last()) + if s.last() == NL { 1nat } else { 0nat }
    }
}

/// `s` without spaces, carriage returns and newlines.
pub open spec fn strip_reply(s: Seq<u8>) -> Seq<u8>
    decreases s.len(),
{
    if s.len() == 0 {
        s
    } else {
        let c = s.last();
        let r = strip_reply(s.drop_last());
        if c == SP || c == CR || c == NL {
            r
        } else {
            r.push(c)
        }
    }
}

/// Reads `s` left to right with spaces and carriage returns removed: the
/// non-empty lines finished by a newline so far, and the line still open.
pub open spec fn scan_lines(s: Seq<u8>) -> (Seq<Seq<u8>>, Seq<u8>)
    decreases s.len(),
{
    if s.len() == 0 {
        (Seq::empty(), Seq::empty())
    } else {
        let (done, open) = scan_lines(s.drop_last());
        let c = s.last();
        if c == NL {
            if open.len() == 0 {
                (done, open)
            } else {
                (done.push(open), Seq::empty())
            }
        } else if c == SP || c == CR {
            (done, open)
        } else {
            (done, open.push(c))
        }
    }
}

/// The non-empty newline-separated lines of `s`, spaces and carriage returns removed.
pub open spec fn frame_lines(s: Seq<u8>) -> Seq<Seq<u8>> {
    let (done, open) = scan_lines(s);
    if open.len() == 0 {
        done
    } else {
        done.push(open)
    }
}

/// The values of the `Some` entries of `s`, in order.
pub open spec fn somes<T>(s: Seq<Option<T>>) -> Seq<T>
    decreases s.len(),
{
    if s.len() == 0 {
        Seq::empty()
    } else {
        let r = somes(s.drop_last());
        match s.last() {
            Some(v) => r.push(v),
            None => r,
        }
    }
}

pub open spec fn decimal_pair_of(a: Seq<u8>, b: Seq<u8>) -> Option<(Decimal, Decimal)> {
    match (decimal_of(a), decimal_of(b)) {
        (Some(x), Some(y)) => Some((x, y)),
        _ => None,
    }
}

pub open spec fn u64_pair_of(a: Seq<u8>, b: Seq<u8>) -> Option<(u64, u64)> {
    match (u64_of(a), u64_of(b)) {
        (Some(x), Some(y)) => Some((x, y)),
        _ => None,
    }
}

/// The status that a batched report holds: exactly fourteen lines, read two
/// by two in the order of the fields of `Status`, every line a literal of
/// its field's kind.
pub open spec fn status_of(s: Seq<u8>) -> Option<Status> {
    let l = frame_lines(s);
    if l.len() != FRAME_LINES {
        None
    } else {
        match (
            decimal_pair_of(l[0], l[1]),
            decimal_pair_of(l[2], l[3]),
            decimal_pair_of(l[4], l[5]),
            decimal_pair_of(l[6], l[7]),
            u64_pair_of(l[8], l[9]),
            decimal_pair_of(l[10], l[11]),
            u64_pair_of(l[12], l[13]),
        ) {
            (Some(vsets), Some(vouts), Some(isets), Some(iouts), Some(outs), Some(ovsets), Some(ocps)) =>
                Some(Status { vsets, vouts, isets, iouts, outs, ovsets, ocps }),
            _ => None,
        }
    }
}

/// Returns the first two elements of a vector as a pair.
pub fn vec2tuple<T: Copy>(xs: Vec<T>) -> (r: (T, T))
    requires
        xs@.len() >= 2,
    ensures
        r == (xs@[0], xs@[1]),
{
    (xs[0], xs[1])
}

/// Keeps the values of the `Some` entries, in order.
pub fn oiter2vec<T: Copy>(xs: Vec<Option<T>>) -> (r: Vec<T>)
    ensures
        r@ == somes(xs@),
{
    let mut r: Vec<T> = Vec::new();
    let mut i: usize = 0;
    while i < xs.len()
        invariant
            0 <= i <= xs@.len(),
            r@ == somes(xs@.subrange(0, i as int)),
        decreases xs@.len() - i,
    {
        assert(xs@.subrange(0, i + 1).drop_last() =~= xs@.subrange(0, i as int));
        match xs[i] {
            Some(v) => r.push(v),
            None => {},
        }
        i = i + 1;
    }
    assert(xs@.subrange(0, xs@.len() as int) =~= xs@);
    r
}

/// Whether the bytes received so far hold a newline: a query's reply is complete.
pub fn line_complete(acc: &[u8]) -> (r: bool)
    ensures
        r == (newline_count(acc@) > 0),
{
    newline_total(acc) > 0
}

/// Whether the bytes received so far hold exactly as many newlines as a
/// batched report has lines.
pub fn frame_complete(acc: &[u8]) -> (r: bool)
    ensures
        r == (newline_count(acc@) == FRAME_LINES),
{
    newline_total(acc) == FRAME_LINES
}

/// Counts the newline bytes of `s`.
pub fn newline_total(s: &[u8]) -> (r: usize)
    ensures
        r == newline_count(s@),
{
    let mut n: usize = 0;
    let mut i: usize = 0;
    while i < s.len()
        invariant
            0 <= i <= s@.len(),
            n == newline_count(s@.subrange(0, i as int)),
            n <= i,
        decreases s@.len() - i,
    {
        assert(s@.subrange(0, i + 1).drop_last() =~= s@.subrange(0, i as int));
        if s[i] == NL {
            n = n + 1;
        }
        i = i + 1;
    }
    assert(s@.subrange(0, s@.len() as int) =~= s@);
    n
}

/// The reply to a query: the received bytes without spaces, carriage
/// returns and newlines.
pub fn query_reply(acc: &[u8]) -> (r: Vec<u8>)
    ensures
        r@ == strip_reply(acc@),
{
    let mut r: Vec<u8> = Vec::new();
    let mut i: usize = 0;
    while i < acc.len()
        invariant
            0 <= i <= acc@.len(),
            r@ == strip_reply(acc@.subrange(0, i as int)),
        decreases acc@.len() - i,
    {
        assert(acc@.subrange(0, i + 1).drop_last() =~= acc@.subrange(0, i as int));
        let c = acc[i];
        if c != SP && c != CR && c != NL {
            r.push(c);
        }
        i = i + 1;
    }
    assert(acc@.subrange(0, acc@.len() as int) =~= acc@);
    r
}

/// Splits a reply into its non-empty lines, spaces and carriage returns removed.
pub fn split_lines(s: &[u8]) -> (r: Vec<Vec<u8>>)
    ensures
        r@.len() == frame_lines(s@).len(),
        forall|k: int| 0 <= k < r@.len() ==> (#[trigger] r@[k])@ == frame_lines(s@)[k],
{
    let mut done: Vec<Vec<u8>> = Vec::new();
    let mut open: Vec<u8> = Vec::new();
    let mut i: usize = 0;
    while i < s.len()
        invariant
            0 <= i <= s@.len(),
            done@.len() == scan_lines(s@.subrange(0, i as int)).0.len(),
            forall|k: int|
                0 <= k < done@.len() ==> (#[trigger] done@[k])@ == scan_lines(
                    s@.subrange(0, i as int),
                ).0[k],
            open@ == scan_lines(s@.subrange(0, i as int)).1,
        decreases s@.len() - i,
    {
        assert(s@.subrange(0, i + 1).drop_last() =~= s@.subrange(0, i as int));
        let c = s[i];
        if c == NL {
            if open.len() > 0 {
                let line = open;
                open = Vec::new();
                done.push(line);
            }
        } else if c != SP && c != CR {
            open.push(c);
        }
        i = i + 1;
    }
    assert(s@.subrange(0, s@.len() as int) =~= s@);
    if open.len() > 0 {
        done.push(open);
    }
    done
}

/// Reads a pair of decimal lines; fails unless both parse.
pub fn decimal_pair(a: &[u8], b: &[u8]) -> (r: Option<(Decimal, Decimal)>)
    ensures
        r == decimal_pair_of(a@, b@),
{
    let mut parsed: Vec<Option<Decimal>> = Vec::new();
    parsed.push(parse_decimal(a));
    parsed.push(parse_decimal(b));
    let vals = oiter2vec(parsed);
    proof {
        reveal_with_fuel(somes, 3);
        assert(parsed@.drop_last().drop_last() =~= Seq::<Option<Decimal>>::empty());
    }
    if vals.len() == 2 {
        Some(vec2tuple(vals))
    } else {
        None
    }
}

/// Reads a pair of integer lines; fails unless both parse.
pub fn u64_pair(a: &[u8], b: &[u8]) -> (r: Option<(u64, u64)>)
    ensures
        r == u64_pair_of(a@, b@),
{
    let mut parsed: Vec<Option<u64>> = Vec::new();
    parsed.push(parse_u64(a));
    parsed.push(parse_u64(b));
    let vals = oiter2vec(parsed);
    proof {
        reveal_with_fuel(somes, 3);
        assert(parsed@.drop_last().drop_last() =~= Seq::<Option<u64>>::empty());
    }
    if vals.len() == 2 {
        Some(vec2tuple(vals))
    } else {
        None
    }
}

/// Decodes a batched status report. A report whose non-empty line count is
/// not fourteen, or with any line that is not a literal of its field's kind,
/// yields nothing.
pub fn decode_status(resp: &[u8]) -> (r: Option<Status>)
    ensures
        r == status_of(resp@),
        frame_lines(resp@).len() != FRAME_LINES ==> r is None,
{
    let l = split_lines(resp);
    if l.len() != FRAME_LINES {
        return None;
    }
    let vsets = match decimal_pair(l[0].as_slice(), l[1].as_slice()) {
        Some(p) => p,
        None => return None,
    };
    let vouts = match decimal_pair(l[2].as_slice(), l[3].as_slice()) {
        Some(p) => p,
        None => return None,
    };
    let isets = match decimal_pair(l[4].as_slice(), l[5].as_slice()) {
        Some(p) => p,
        None => return None,
    };
    let iouts = match decimal_pair(l[6].as_slice(), l[7].as_slice()) {
        Some(p) => p,
        None => return None,
    };
    let outs = match u64_pair(l[8].as_slice(), l[9].as_slice()) {
        Some(p) => p,
        None => return None,
    };
    let ovsets = match decimal_pair(l[10].as_slice(), l[11].as_slice()) {
        Some(p) => p,
        None => return None,
    };
    let ocps = match u64_pair(l[12].as_slice(), l[13].as_slice()) {
        Some(p) => p,
        None => return None,
    };
    Some(Status { vsets, vouts, isets, iouts, outs, ovsets, ocps })
}

/// Whether `line` is a literal of the kind that the field at position `k`
/// of a report holds: integers for the output and overcurrent flags,
/// decimals for the rest.
pub open spec fn line_parses(k: int, line: Seq<u8>) -> bool {
    if k == 8 || k == 9 || k == 12 || k == 13 {
        u64_of(line) is Some
    } else {
        decimal_of(line) is Some
    }
}

/// Decoding is a function of the bytes received: equal reports decode to
/// the same status, and a report of fourteen lines that all parse always
/// decodes to a status.
pub proof fn lemma_decode_deterministic(a: Seq<u8>, b: Seq<u8>)
    requires
        a == b,
    ensures
        status_of(a) == status_of(b),
        frame_lines(a).len() == FRAME_LINES && (forall|k: int|
            0 <= k < FRAME_LINES ==> line_parses(k, #[trigger] frame_lines(a)[k]))
            ==> status_of(a) is Some,
{
    let l = frame_lines(a);
    if l.len() == FRAME_LINES && (forall|k: int|
        0 <= k < FRAME_LINES ==> line_parses(k, #[trigger] l[k])) {
        assert(line_parses(0, l[0]) && line_parses(1, l[1]) && line_parses(2, l[2]));
        assert(line_parses(3, l[3]) && line_parses(4, l[4]) && line_parses(5, l[5]));
        assert(line_parses(6, l[6]) && line_parses(7, l[7]) && line_parses(8, l[8]));
        assert(line_parses(9, l[9]) && line_parses(10, l[10]) && line_parses(11, l[11]));
        assert(line_parses(12, l[12]) && line_parses(13, l[13]));
    }
}

/// A report whose count of non-empty lines is not fourteen decodes to nothing.
pub proof fn lemma_wrong_line_count(s: Seq<u8>)
    requires
        frame_lines(s).len() != FRAME_LINES,
    ensures
        status_of(s) is None,
{
}

/// A report with any line that is not a literal of its field's kind decodes
/// to nothing: no pair is filled in with a default.
pub proof fn lemma_unparsable_line(s: Seq<u8>, k: int)
    requires
        0 <= k < frame_lines(s).len(),
        !line_parses(k, frame_lines(s)[k]),
    ensures
        status_of(s) is None,
{
}

} // verus!
