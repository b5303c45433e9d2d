use psu_panel::command::{parse_command, set_command, status_request, Target, TargetKind};
use psu_panel::frame::{
    decode_status, frame_complete, line_complete, newline_total, oiter2vec, query_reply,
    split_lines, vec2tuple, Status,
};
use psu_panel::number::{find_byte, parse_decimal, parse_u64, push_decimal, push_u64, Decimal};
use psu_panel::panel::{Action, Button, Message, Panel};

fn dec(mantissa: u64, scale: usize) -> Decimal {
    Decimal { mantissa, scale }
}

const SCENARIO: &str =
    "12.00\n12.00\n11.98\n0.00\n1.000\n0.500\n1.00\n0.20\n1\n0\n30.0\n30.0\n1\n0\n";

#[test]
fn decodes_full_report() {
    let st = decode_status(SCENARIO.as_bytes()).expect("report decodes");
    assert_eq!(st.vsets, (dec(1200, 2), dec(1200, 2)));
    assert_eq!(st.vouts, (dec(1198, 2), dec(0, 2)));
    assert_eq!(st.isets, (dec(1000, 3), dec(500, 3)));
    assert_eq!(st.iouts, (dec(100, 2), dec(20, 2)));
    assert_eq!(st.outs, (1, 0));
    assert_eq!(st.ovsets, (dec(300, 1), dec(300, 1)));
    assert_eq!(st.ocps, (1, 0));
}

#[test]
fn decoding_is_repeatable() {
    let a = decode_status(SCENARIO.as_bytes());
    let b = decode_status(SCENARIO.as_bytes());
    assert!(a.is_some());
    assert_eq!(a, b);
}

#[test]
fn report_with_thirteen_lines_is_rejected() {
    let short = "12.00\n12.00\n11.98\n0.00\n1.000\n0.500\n1.00\n0.20\n1\n0\n30.0\n30.0\n1\n";
    assert_eq!(decode_status(short.as_bytes()), None);
}

#[test]
fn report_with_fifteen_lines_is_rejected() {
    let long = format!("{}7\n", SCENARIO);
    assert_eq!(decode_status(long.as_bytes()), None);
}

#[test]
fn report_with_blank_lines_and_padding_decodes() {
    let padded = "12.00\r\n\n 12.00\r\n11.98\n0.00\n1.000\n0.500\n1.00\n0.20\n1\n0\n30.0\n30.0\n1\n0";
    let st: Status = decode_status(padded.as_bytes()).expect("report decodes");
    assert_eq!(st.vsets, (dec(1200, 2), dec(1200, 2)));
    assert_eq!(st.ocps, (1, 0));
}

#[test]
fn unparsable_member_fails_whole_report() {
    let bad = "12.00\nabc\n11.98\n0.00\n1.000\n0.500\n1.00\n0.20\n1\n0\n30.0\n30.0\n1\n0\n";
    assert_eq!(decode_status(bad.as_bytes()), None);
    let fractional_flag =
        "12.00\n12.00\n11.98\n0.00\n1.000\n0.500\n1.00\n0.20\n1.5\n0\n30.0\n30.0\n1\n0\n";
    assert_eq!(decode_status(fractional_flag.as_bytes()), None);
}

#[test]
fn splits_nonempty_lines() {
    let lines = split_lines(b"a b\r\n\n\nc\nd");
    assert_eq!(lines, vec![b"ab".to_vec(), b"c".to_vec(), b"d".to_vec()]);
}

#[test]
fn parses_integers() {
    assert_eq!(parse_u64(b"0"), Some(0));
    assert_eq!(parse_u64(b"42"), Some(42));
    assert_eq!(parse_u64(b"18446744073709551615"), Some(u64::MAX));
    assert_eq!(parse_u64(b"18446744073709551616"), None);
    assert_eq!(parse_u64(b""), None);
    assert_eq!(parse_u64(b"4x"), None);
    assert_eq!(parse_u64(b"-1"), None);
}

#[test]
fn parses_decimals() {
    assert_eq!(parse_decimal(b"12.00"), Some(dec(1200, 2)));
    assert_eq!(parse_decimal(b"5"), Some(dec(5, 0)));
    assert_eq!(parse_decimal(b".5"), Some(dec(5, 1)));
    assert_eq!(parse_decimal(b"5."), Some(dec(5, 0)));
    assert_eq!(parse_decimal(b"."), None);
    assert_eq!(parse_decimal(b"1.2.3"), None);
    assert_eq!(parse_decimal(b""), None);
    assert_eq!(find_byte(b"12.5", b'.'), 2);
    assert_eq!(find_byte(b"125", b'.'), 3);
}

#[test]
fn renders_numbers() {
    let mut out = Vec::new();
    push_u64(0, &mut out);
    out.push(b' ');
    push_u64(1907, &mut out);
    out.push(b' ');
    push_decimal(dec(5, 3), &mut out);
    out.push(b' ');
    push_decimal(dec(1200, 2), &mut out);
    out.push(b' ');
    push_decimal(dec(5, 0), &mut out);
    assert_eq!(out, b"0 1907 0.005 12.00 5".to_vec());
}

#[test]
fn formats_voltage_setpoint() {
    assert_eq!(set_command(1, Target::Volt(dec(5, 0))), b"VSET 1,5\n".to_vec());
}

#[test]
fn formats_every_keyword() {
    assert_eq!(set_command(2, Target::Ampere(dec(500, 3))), b"ISET 2,0.500\n".to_vec());
    assert_eq!(set_command(1, Target::Out(1)), b"OUT 1,1\n".to_vec());
    assert_eq!(set_command(2, Target::OV(dec(305, 1))), b"OVSET 2,30.5\n".to_vec());
    assert_eq!(set_command(1, Target::OCP(0)), b"OCP 1,0\n".to_vec());
}

#[test]
fn command_round_trips() {
    let cases = [
        (1, Target::Volt(dec(5, 0)), TargetKind::Volt),
        (2, Target::Ampere(dec(1, 1)), TargetKind::Ampere),
        (1, Target::Out(0), TargetKind::Out),
        (2, Target::OV(dec(300, 1)), TargetKind::OV),
        (1, Target::OCP(1), TargetKind::OCP),
    ];
    for (ch, t, k) in cases {
        assert_eq!(parse_command(&set_command(ch, t)), Some((ch, k)));
    }
    assert_eq!(parse_command(b"VOUT 1,5\n"), None);
    assert_eq!(parse_command(b"VSET1,5\n"), None);
    assert_eq!(parse_command(b"VSET 1 5\n"), None);
}

#[test]
fn status_request_bytes() {
    assert_eq!(status_request(), b"++macro 1\n".to_vec());
}

#[test]
fn reply_framing() {
    assert!(!line_complete(b"12.0"));
    assert!(line_complete(b"12.0\r\n"));
    assert_eq!(query_reply(b" 12.0\r\n"), b"12.0".to_vec());
    assert_eq!(newline_total(SCENARIO.as_bytes()), 14);
    assert!(frame_complete(SCENARIO.as_bytes()));
    assert!(!frame_complete(b"1\n2\n"));
}

#[test]
fn pair_helpers() {
    assert_eq!(vec2tuple(vec![3u64, 4, 5]), (3, 4));
    assert_eq!(oiter2vec(vec![Some(1u64), None, Some(3)]), vec![1, 3]);
    assert_eq!(oiter2vec::<u64>(vec![None, None]), Vec::<u64>::new());
}

#[test]
fn panel_with_device_polls_and_sets() {
    let mut p = Panel::new(true);
    assert!(matches!(p.update(Message::Tick(None)), Action::Refresh));
    assert!(matches!(p.update(Message::Tick(None)), Action::Refresh));
    match p.update(Message::SetTarget(1, Target::Volt(dec(5, 0)))) {
        Action::SetThenRefresh(cmd) => assert_eq!(cmd, b"VSET 1,5\n".to_vec()),
        other => panic!("unexpected action {:?}", other),
    }
    let st = decode_status(SCENARIO.as_bytes()).unwrap();
    assert!(matches!(p.update(Message::Tick(Some(st))), Action::Nothing));
    assert_eq!(p.status, Some(st));
}

#[test]
fn panel_without_device_does_nothing() {
    let mut p = Panel::new(false);
    assert!(matches!(p.update(Message::Tick(None)), Action::Nothing));
    assert!(matches!(
        p.update(Message::SetTarget(2, Target::Ampere(dec(1, 0)))),
        Action::Nothing
    ));
    assert_eq!(p.status, None);
}

#[test]
fn panel_records_field_edits() {
    let mut p = Panel::new(true);
    p.update(Message::SetInput(1, Some(Target::Volt(dec(5, 0))), "5".to_string()));
    p.update(Message::SetInput(2, Some(Target::Ampere(dec(1, 0))), "1".to_string()));
    p.update(Message::SetInput(1, None, "x".to_string()));
    p.update(Message::SetInput(3, Some(Target::Volt(dec(5, 0))), "9".to_string()));
    assert_eq!(p.vset1, "5");
    assert_eq!(p.iset2, "1");
    assert_eq!(p.vset2, "");
    assert_eq!(p.iset1, "");
    assert_eq!(Button::Primary, Button::Primary);
}

#[test]
fn decimals_round_trip_through_text() {
    for d in [dec(5, 3), dec(0, 0), dec(1200, 2), dec(u64::MAX, 4), dec(7, 0)] {
        let mut out = Vec::new();
        push_decimal(d, &mut out);
        assert_eq!(parse_decimal(&out), Some(d));
    }
}
