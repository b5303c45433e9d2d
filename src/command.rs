//! Setpoint commands: the keyword table, formatting of `KEYWORD ch,value`
//! lines, and reading such a line back.
use vstd::prelude::*;
use vstd::slice::slice_subrange;
use crate::number::{
    Decimal, all_digits, decimal_text, digits_text, first_index, find_byte, lemma_first_index,
    lemma_padded_digits, parse_u64, push_decimal, push_u64, u64_of,
};
use crate::frame::{NL, SP};

verus! {

pub const COMMA: u8 = 44;

/// A setpoint change for one channel.
#[derive(Clone, Copy, Debug, PartialEq, Eq, Structural)]
pub enum Target {
    Volt(Decimal),
    Ampere(Decimal),
    Out(u64),
    OV(Decimal),
    OCP(u64),
}

/// Which setting a command changes.
#[derive(Clone, Copy, Debug, PartialEq, Eq, Structural)]
pub enum TargetKind {
    Volt,
    Ampere,
    Out,
    OV,
    OCP,
}

pub open spec fn kind_of(t: Target) -> TargetKind {
    match t {
        Target::Volt(_) => TargetKind::Volt,
        Target::Ampere(_) => TargetKind::Ampere,
        Target::Out(_) => TargetKind::Out,
        Target::OV(_) => TargetKind::OV,
        Target::OCP(_) => TargetKind::OCP,
    }
}

/// The keyword of each setting: `VSET`, `ISET`, `OUT`, `OVSET`, `OCP`.
pub open spec fn keyword(k: TargetKind) -> Seq<u8> {
    match k {
        TargetKind::Volt => seq![86u8, 83, 69, 84],
        TargetKind::Ampere => seq![73u8, 83, 69, 84],
        TargetKind::Out => seq![79u8, 85, 84],
        TargetKind::OV => seq![79u8, 86, 83, 69, 84],
        TargetKind::OCP => seq![79u8, 67, 80],
    }
}

/// The setting that a keyword names.
pub open spec fn kind_of_keyword(kw: Seq<u8>) -> Option<TargetKind> {
    if kw == keyword(TargetKind::Volt) {
        Some(TargetKind::Volt)
    } else if kw == keyword(TargetKind::Ampere) {
        Some(TargetKind::Ampere)
    } else if kw == keyword(TargetKind::Out) {
        Some(TargetKind::Out)
    } else if kw == keyword(TargetKind::OV) {
        Some(TargetKind::OV)
    } else if kw == keyword(TargetKind::OCP) {
        Some(TargetKind::OCP)
    } else {
        None
    }
}

pub open spec fn value_text(t: Target) -> Seq<u8> {
    match t {
        Target::Volt(d) => decimal_text(d),
        Target::Ampere(d) => decimal_text(d),
        Target::Out(n) => digits_text(n as nat),
        Target::OV(d) => decimal_text(d),
        Target::OCP(n) => digits_text(n as nat),
    }
}

/// A value that can be rendered: a decimal's scale leaves room for the
/// leading digit.
pub open spec fn renderable(t: Target) -> bool {
    match t {
        Target::Volt(d) => d.scale < usize::MAX,
        Target::Ampere(d) => d.scale < usize::MAX,
        Target::OV(d) => d.scale < usize::MAX,
        _ => true,
    }
}

/// The line that sets `t` on channel `ch`: `KEYWORD ch,value` and a newline.
pub open spec fn command_text(ch: u64, t: Target) -> Seq<u8> {
    keyword(kind_of(t)) + seq![SP] + digits_text(ch as nat) + seq![COMMA] + value_text(t) + seq![NL]
}

/// The channel and setting of a command line: the keyword up to the first
/// space, then the channel number up to the first comma.
pub open spec fn command_parts(s: Seq<u8>) -> Option<(u64, TargetKind)> {
    let sp = first_index(s, SP);
    if sp >= s.len() {
        None
    } else {
        let rest = s.subrange(sp + 1, s.len() as int);
        let cm = first_index(rest, COMMA);
        if cm >= rest.len() {
            None
        } else {
            match (kind_of_keyword(s.subrange(0, sp)), u64_of(rest.subrange(0, cm))) {
                (Some(k), Some(ch)) => Some((ch, k)),
                _ => None,
            }
        }
    }
}

/// The request for a batched status report: `++macro 1` and a newline.
pub open spec fn status_request_text() -> Seq<u8> {
    seq![43u8, 43, 109, 97, 99, 114, 111, 32, 49, 10]
}

/// Returns the request for a batched status report.
pub fn status_request() -> (r: Vec<u8>)
    ensures
        r@ == status_request_text(),
{
    let r: Vec<u8> = vec![43u8, 43, 109, 97, 99, 114, 111, 32, 49, 10];
    assert(r@ =~= status_request_text());
    r
}

fn push_keyword(k: TargetKind, out: &mut Vec<u8>)
    ensures
        final(out)@ == old(out)@ + keyword(k),
{
    match k {
        TargetKind::Volt => {
            out.push(86);
            out.push(83);
            out.push(69);
            out.push(84);
        },
        TargetKind::Ampere => {
            out.push(73);
            out.push(83);
            out.push(69);
            out.push(84);
        },
        TargetKind::Out => {
            out.push(79);
            out.push(85);
            out.push(84);
        },
        TargetKind::OV => {
            out.push(79);
            out.push(86);
            out.push(83);
            out.push(69);
            out.push(84);
        },
        TargetKind::OCP => {
            out.push(79);
            out.push(67);
            out.push(80);
        },
    }
    assert(final(out)@ =~= old(out)@ + keyword(k));
}

pub fn target_kind(t: &Target) -> (r: TargetKind)
    ensures
        r == kind_of(*t),
{
    match t {
        Target::Volt(_) => TargetKind::Volt,
        Target::Ampere(_) => TargetKind::Ampere,
        Target::Out(_) => TargetKind::Out,
        Target::OV(_) => TargetKind::OV,
        Target::OCP(_) => TargetKind::OCP,
    }
}

/// Formats the line that sets `target` on channel `ch`.
pub fn set_command(ch: u64, target: Target) -> (r: Vec<u8>)
    requires
        renderable(target),
    ensures
        r@ == command_text(ch, target),
{
    let mut out: Vec<u8> = Vec::new();
    push_keyword(target_kind(&target), &mut out);
    out.push(SP);
    push_u64(ch, &mut out);
    out.push(COMMA);
    match target {
        Target::Volt(d) => push_decimal(d, &mut out),
        Target::Ampere(d) => push_decimal(d, &mut out),
        Target::Out(n) => push_u64(n, &mut out),
        Target::OV(d) => push_decimal(d, &mut out),
        Target::OCP(n) => push_u64(n, &mut out),
    }
    out.push(NL);
    assert(out@ =~= command_text(ch, target));
    out
}

fn keyword_kind(kw: &[u8]) -> (r: Option<TargetKind>)
    ensures
        r == kind_of_keyword(kw@),
{
    let n = kw.len();
    if n == 4 && kw[0] == 86 && kw[1] == 83 && kw[2] == 69 && kw[3] == 84 {
        assert(kw@ =~= keyword(TargetKind::Volt));
        Some(TargetKind::Volt)
    } else if n == 4 && kw[0] == 73 && kw[1] == 83 && kw[2] == 69 && kw[3] == 84 {
        assert(kw@ =~= keyword(TargetKind::Ampere));
        Some(TargetKind::Ampere)
    } else if n == 3 && kw[0] == 79 && kw[1] == 85 && kw[2] == 84 {
        assert(kw@ =~= keyword(TargetKind::Out));
        Some(TargetKind::Out)
    } else if n == 5 && kw[0] == 79 && kw[1] == 86 && kw[2] == 83 && kw[3] == 69 && kw[4] == 84 {
        assert(kw@ =~= keyword(TargetKind::OV));
        Some(TargetKind::OV)
    } else if n == 3 && kw[0] == 79 && kw[1] == 67 && kw[2] == 80 {
        assert(kw@ =~= keyword(TargetKind::OCP));
        Some(TargetKind::OCP)
    } else {
        None
    }
}

/// Reads the channel and setting back from a command line.
pub fn parse_command(s: &[u8]) -> (r: Option<(u64, TargetKind)>)
    ensures
        r == command_parts(s@),
{
    let sp = find_byte(s, SP);
    if sp >= s.len() {
        return None;
    }
    let rest = slice_subrange(s, sp + 1, s.len());
    let cm = find_byte(rest, COMMA);
    if cm >= rest.len() {
        return None;
    }
    let kind = keyword_kind(slice_subrange(s, 0, sp));
    let ch = parse_u64(slice_subrange(rest, 0, cm));
    match (kind, ch) {
        (Some(k), Some(c)) => Some((c, k)),
        _ => None,
    }
}

proof fn lemma_keyword_kind(k: TargetKind)
    ensures
        kind_of_keyword(keyword(k)) == Some(k),
        forall|j: int| 0 <= j < keyword(k).len() ==> keyword(k)[j] != SP,
{
    let v = keyword(TargetKind::Volt);
    let a = keyword(TargetKind::Ampere);
    let o = keyword(TargetKind::Out);
    let ov = keyword(TargetKind::OV);
    assert(a[0] != v[0]);
    assert(o.len() != v.len() && o.len() != a.len());
    assert(ov.len() != v.len() && ov.len() != a.len() && ov.len() != o.len());
    assert(keyword(TargetKind::OCP)[1] != o[1]);
}

/// Formatting a setpoint command and reading it back recovers its channel
/// and the kind of setting it changes.
pub proof fn lemma_command_round_trip(ch: u64, t: Target)
    ensures
        command_parts(command_text(ch, t)) == Some((ch, kind_of(t))),
{
    let kw = keyword(kind_of(t));
    let dt = digits_text(ch as nat);
    let s = command_text(ch, t);
    lemma_keyword_kind(kind_of(t));
    lemma_padded_digits(ch as nat, 1);
    assert(s =~= kw + (seq![SP] + dt + seq![COMMA] + value_text(t) + seq![NL]));
    lemma_first_index(s, SP, kw.len() as int);
    let rest = s.subrange(kw.len() as int + 1, s.len() as int);
    assert(rest =~= dt + (seq![COMMA] + value_text(t) + seq![NL]));
    assert forall|j: int| 0 <= j < dt.len() implies rest[j] != COMMA by {
        assert(all_digits(dt));
        assert(rest[j] == dt[j]);
    }
    lemma_first_index(rest, COMMA, dt.len() as int);
    assert(rest.subrange(0, dt.len() as int) =~= dt);
    assert(s.subrange(0, kw.len() as int) =~= kw);
    assert(u64_of(dt) == Some(ch));
}

} // verus!
