use vidyut_prakriya::args::{Antargana, Dhatu};
use vidyut_prakriya::dhatupatha::{decompose, maybe_find_antargana, resolve, Dhatupatha};
use vidyut_prakriya::errors::DhatupathaError;

fn code_and_dhatu(text: &str, code: &str) -> Dhatu {
    let d = Dhatupatha::from_text(text).unwrap();
    d.get(code).unwrap().clone()
}

#[test]
fn antargana_bounds_of_gana_6() {
    assert_eq!(maybe_find_antargana(6, 92), None);
    assert_eq!(maybe_find_antargana(6, 93), Some(Antargana::Kutadi));
    assert_eq!(maybe_find_antargana(6, 137), Some(Antargana::Kutadi));
    assert_eq!(maybe_find_antargana(6, 138), None);
}

#[test]
fn antargana_bounds_of_gana_10() {
    assert_eq!(maybe_find_antargana(10, 191), None);
    assert_eq!(maybe_find_antargana(10, 192), Some(Antargana::Akusmiya));
    assert_eq!(maybe_find_antargana(10, 236), Some(Antargana::Akusmiya));
    assert_eq!(maybe_find_antargana(10, 237), None);
}

#[test]
fn antargana_needs_the_right_gana() {
    assert_eq!(maybe_find_antargana(10, 110), None);
    assert_eq!(maybe_find_antargana(6, 200), None);
    for gana in 0..=255u8 {
        if gana != 6 {
            assert_eq!(maybe_find_antargana(gana, 100), None);
        }
        if gana != 10 {
            assert_eq!(maybe_find_antargana(gana, 200), None);
        }
    }
}

#[test]
fn antargana_over_all_numbers() {
    for number in 0..=u16::MAX {
        let kutadi = (93..=137).contains(&number);
        let akusmiya = (192..=236).contains(&number);
        assert_eq!(maybe_find_antargana(6, number).is_some(), kutadi);
        assert_eq!(maybe_find_antargana(10, number).is_some(), akusmiya);
        assert_eq!(maybe_find_antargana(1, number), None);
    }
}

#[test]
fn decompose_splits_at_first_dot() {
    assert_eq!(decompose("06.0140"), Ok(("06".to_string(), "0140".to_string())));
    assert_eq!(decompose("1.2.3"), Ok(("1".to_string(), "2.3".to_string())));
    assert_eq!(decompose("."), Ok((String::new(), String::new())));
    assert_eq!(decompose("10."), Ok(("10".to_string(), String::new())));
}

#[test]
fn decompose_needs_a_dot() {
    assert_eq!(decompose("060140"), Err(DhatupathaError::MalformedIdentifier));
    assert_eq!(decompose(""), Err(DhatupathaError::MalformedIdentifier));
}

#[test]
fn resolve_builds_the_dhatu() {
    let d = resolve("BU", "01", "0001").unwrap();
    assert_eq!(d.upadesha(), "BU");
    assert_eq!(d.gana(), 1);
    assert_eq!(d.antargana(), None);
    assert_eq!(d.sanadi(), None);
}

#[test]
fn resolve_finds_the_antargana() {
    assert_eq!(resolve("kuwa~", "06", "0093").unwrap().antargana(), Some(Antargana::Kutadi));
    assert_eq!(resolve("citi~", "10", "0192").unwrap().antargana(), Some(Antargana::Akusmiya));
    assert_eq!(resolve("juqa~", "10", "0110").unwrap().antargana(), None);
}

#[test]
fn resolve_refuses_what_is_no_number() {
    let bad = Err(DhatupathaError::MalformedIdentifier);
    assert_eq!(resolve("BU", "", "0001"), bad);
    assert_eq!(resolve("BU", "01", ""), bad);
    assert_eq!(resolve("BU", "x", "0001"), bad);
    assert_eq!(resolve("BU", "01", "1.5"), bad);
    assert_eq!(resolve("BU", "01", " 1"), bad);
    assert_eq!(resolve("BU", "-1", "1"), bad);
    assert_eq!(resolve("BU", "+1", "1"), bad);
    assert_eq!(resolve("BU", "256", "1"), bad);
    assert_eq!(resolve("BU", "1", "65536"), bad);
    assert_eq!(resolve("", "x", "1"), bad);
}

#[test]
fn resolve_takes_the_largest_numbers() {
    let d = resolve("BU", "255", "65535").unwrap();
    assert_eq!(d.gana(), 255);
    let d = resolve("BU", "000000000000000000000000000010", "1").unwrap();
    assert_eq!(d.gana(), 10);
}

#[test]
fn resolve_refuses_an_empty_upadesha() {
    assert_eq!(resolve("", "01", "0001"), Err(DhatupathaError::BuildFailure));
}

#[test]
fn from_text_reads_one_row() {
    let d = Dhatupatha::from_text("header\n01.0001\tkzi\n").unwrap();
    let dhatu = d.get("01.0001").unwrap();
    assert_eq!(dhatu.upadesha(), "kzi");
    assert_eq!(dhatu.gana(), 1);
    assert_eq!(dhatu.antargana(), None);
    assert!(d.get("1.1").is_none());
    assert!(d.get("01.0002").is_none());
    assert!(d.get("").is_none());
}

#[test]
fn from_text_tags_kutadi() {
    let dhatu = code_and_dhatu("code\tupadesha\n06.0100\troot", "06.0100");
    assert_eq!(dhatu.antargana(), Some(Antargana::Kutadi));
    assert_eq!(dhatu.upadesha(), "root");
    assert_eq!(dhatu.gana(), 6);
}

#[test]
fn from_text_skips_the_header() {
    let body = "\n01.0001\tBU\n02.0001\tada~\n";
    let plain = Dhatupatha::from_text(&format!("code\tupadesha{body}")).unwrap();
    for header in ["", "no tab here", "x.y\tz", "\t\t\t", "99999.99999\t"] {
        let d = Dhatupatha::from_text(&format!("{header}{body}")).unwrap();
        for code in ["01.0001", "02.0001"] {
            assert_eq!(d.get(code), plain.get(code));
            assert!(d.get(code).is_some());
        }
        assert!(d.get(header).is_none());
    }
}

#[test]
fn from_text_reads_the_header_of_no_list() {
    let d = Dhatupatha::from_text("01.0001\tBU").unwrap();
    assert!(d.get("01.0001").is_none());
    let d = Dhatupatha::from_text("").unwrap();
    assert!(d.get("").is_none());
}

#[test]
fn from_text_refuses_a_bad_line_after_the_header() {
    assert_eq!(
        Dhatupatha::from_text("header\nno tab here\n").err(),
        Some(DhatupathaError::InvalidResource)
    );
}

#[test]
fn from_text_last_duplicate_wins() {
    let d = Dhatupatha::from_text("header\n01.0001\tfirst\n01.0001\tsecond\n").unwrap();
    assert_eq!(d.get("01.0001").unwrap().upadesha(), "second");
}

#[test]
fn from_text_codes_are_text() {
    let d = Dhatupatha::from_text("header\n01.0001\tfirst\n1.1\tsecond\n").unwrap();
    assert_eq!(d.get("01.0001").unwrap().upadesha(), "first");
    assert_eq!(d.get("1.1").unwrap().upadesha(), "second");
    assert!(d.get("1.0001").is_none());
}

#[test]
fn from_text_is_all_or_nothing() {
    let r = Dhatupatha::from_text("header\n01.0001\tBU\n01.0002\n");
    assert_eq!(r.err(), Some(DhatupathaError::InvalidResource));
    let r = Dhatupatha::from_text("header\n01.0001\tBU\n010002\teDa~\n");
    assert_eq!(r.err(), Some(DhatupathaError::MalformedIdentifier));
}

#[test]
fn from_text_reports_the_first_failure() {
    let r = Dhatupatha::from_text("header\n01.0001\t\nno tab\n010002\teDa~\n");
    assert_eq!(r.err(), Some(DhatupathaError::BuildFailure));
    let r = Dhatupatha::from_text("header\n010002\teDa~\n01.0001\t\nno tab\n");
    assert_eq!(r.err(), Some(DhatupathaError::MalformedIdentifier));
}

#[test]
fn from_text_error_of_each_kind() {
    let run = |line: &str| Dhatupatha::from_text(&format!("header\n{line}\n")).err();
    assert_eq!(run("01.0001"), Some(DhatupathaError::InvalidResource));
    assert_eq!(run("010001\tBU"), Some(DhatupathaError::MalformedIdentifier));
    assert_eq!(run("a.0001\tBU"), Some(DhatupathaError::MalformedIdentifier));
    assert_eq!(run("01.b\tBU"), Some(DhatupathaError::MalformedIdentifier));
    assert_eq!(run("01.00.01\tBU"), Some(DhatupathaError::MalformedIdentifier));
    assert_eq!(run("300.0001\tBU"), Some(DhatupathaError::MalformedIdentifier));
    assert_eq!(run("01.70000\tBU"), Some(DhatupathaError::MalformedIdentifier));
    assert_eq!(run("\tBU"), Some(DhatupathaError::MalformedIdentifier));
    assert_eq!(run("01.0001\t"), Some(DhatupathaError::BuildFailure));
    assert_eq!(run("01.0001\t\tBU"), Some(DhatupathaError::BuildFailure));
    assert_eq!(run("01.0001\tBU"), None);
}

#[test]
fn from_text_skips_empty_lines() {
    let d = Dhatupatha::from_text("header\n\n01.0001\tBU\n\n\n02.0001\tada~\n\n").unwrap();
    assert_eq!(d.get("01.0001").unwrap().upadesha(), "BU");
    assert_eq!(d.get("02.0001").unwrap().upadesha(), "ada~");
}

#[test]
fn from_text_reads_two_fields_only() {
    let d = Dhatupatha::from_text("header\n01.0001\tBU\tsattAyAm\t\tmore").unwrap();
    let dhatu = d.get("01.0001").unwrap();
    assert_eq!(dhatu.upadesha(), "BU");
    assert_eq!(dhatu.gana(), 1);
}

#[test]
fn from_text_keeps_other_characters() {
    let d = Dhatupatha::from_text("h\u{e9}\u{101}der\n01.0001\tbh\u{16b}\r\n").unwrap();
    assert_eq!(d.get("01.0001").unwrap().upadesha(), "bh\u{16b}\r");
}

#[test]
fn get_agrees_with_resolve() {
    let rows = [
        ("01.0001", "BU", "01", "0001"),
        ("06.0093", "kuwa~", "06", "0093"),
        ("06.0137", "kuN", "06", "0137"),
        ("06.0138", "pf\\N", "06", "0138"),
        ("10.0192", "citi~", "10", "0192"),
        ("10.0236", "kusma~", "10", "0236"),
        ("10.0110", "juqa~", "10", "0110"),
        ("7.70", "x", "7", "70"),
    ];
    let mut text = String::from("code\tupadesha\n");
    for (code, upadesha, _, _) in rows {
        text.push_str(&format!("{code}\t{upadesha}\n"));
    }
    let d = Dhatupatha::from_text(&text).unwrap();
    for (code, upadesha, gana, number) in rows {
        let expected = resolve(upadesha, gana, number).unwrap();
        assert_eq!(d.get(code), Some(&expected));
    }
}

#[test]
fn get_agrees_with_resolve_on_the_last_duplicate() {
    let text = "h\n06.0100\ta\n01.0001\tb\n06.0100\tc\n";
    let d = Dhatupatha::from_text(text).unwrap();
    assert_eq!(d.get("06.0100"), Some(&resolve("c", "06", "0100").unwrap()));
    assert_eq!(d.get("01.0001"), Some(&resolve("b", "01", "0001").unwrap()));
}

#[test]
fn stored_roots_agree_with_their_codes() {
    let codes = ["01.0001", "6.93", "06.0092", "010.00236", "10.237", "255.65535", "0.0"];
    let mut text = String::from("code\tupadesha\n");
    for code in codes {
        text.push_str(&format!("{code}\tx{code}\n"));
    }
    let d = Dhatupatha::from_text(&text).unwrap();
    for code in codes {
        let (gana, number) = decompose(code).unwrap();
        let gana: u8 = gana.parse().unwrap();
        let number: u16 = number.parse().unwrap();
        let dhatu = d.get(code).unwrap();
        assert_eq!(dhatu.gana(), gana);
        assert_eq!(dhatu.antargana(), maybe_find_antargana(gana, number));
        assert_eq!(dhatu.upadesha(), &format!("x{code}"));
        assert_eq!(dhatu.sanadi(), None);
    }
    assert_eq!(d.get("6.93").unwrap().antargana(), Some(Antargana::Kutadi));
    assert_eq!(d.get("06.0092").unwrap().antargana(), None);
    assert_eq!(d.get("010.00236").unwrap().antargana(), Some(Antargana::Akusmiya));
    assert_eq!(d.get("10.237").unwrap().antargana(), None);
}
