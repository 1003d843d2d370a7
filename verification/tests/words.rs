use ecobee_hap::accessory::hap_type;
use ecobee_hap::setup::short;
use ecobee_hap::text::{characters, is_white_space, join, number_text, same, starts_with, trim};

#[test]
fn the_forms_of_a_type_are_one_type() {
    assert_eq!(hap_type("0000004A-0000-1000-8000-0026BB765291"), "4A");
    assert_eq!(hap_type("004A"), "4A");
    assert_eq!(hap_type("4A"), "4A");
    assert_eq!(hap_type("0000000F-0000-1000-8000-0026BB765291"), "F");
}

#[test]
fn a_type_is_in_capitals() {
    assert_eq!(hap_type("4a"), "4A");
    assert_eq!(hap_type("0000008a-0000-1000-8000-0026bb765291"), "8A");
    assert_eq!(hap_type("ü"), "Ü");
    assert_eq!(hap_type("0ß"), "SS");
}

#[test]
fn a_type_of_zeros_is_zero() {
    assert_eq!(hap_type(""), "0");
    assert_eq!(hap_type("0"), "0");
    assert_eq!(hap_type("0000"), "0");
    assert_eq!(hap_type("-4A"), "0");
    assert_eq!(hap_type("00000000-0000-1000-8000-0026BB765291"), "0");
}

#[test]
fn a_short_form_is_its_own_short_form() {
    for raw in ["4A", "0000004A-0000-1000-8000-0026BB765291", "004a", "", "00", "100", "F"] {
        assert_eq!(hap_type(&hap_type(raw)), hap_type(raw));
    }
}

#[test]
fn white_space_is_what_unicode_calls_so() {
    for n in 0..=0x10FFFF_u32 {
        if let Some(c) = char::from_u32(n) {
            assert_eq!(is_white_space(c), c.is_whitespace(), "{n:x}");
        }
    }
}

#[test]
fn trimming_takes_the_ends_only() {
    for s in [
        "", " ", "0", " 0", "0 ", "\t 0\n", "123-45-678 ", "\u{3000}a b\u{A0}", "\u{200B}x", "é ü ",
    ] {
        assert_eq!(trim(s), s.trim());
    }
    assert_eq!(trim(" \t 123-45-678\r\n"), "123-45-678");
    assert_eq!(trim("a  b"), "a  b");
}

#[test]
fn numbers_are_written_in_decimal() {
    for n in [0, 1, 9, 10, 80, 100, 38399, 40937, u64::MAX] {
        assert_eq!(number_text(n), n.to_string());
    }
}

#[test]
fn a_service_name_is_cut_at_its_first_dot() {
    assert_eq!(short("ecobee._hap._tcp.local."), "ecobee");
    assert_eq!(short("My ecobee"), "My ecobee");
    assert_eq!(short(".local."), "");
    assert_eq!(short(""), "");
}

#[test]
fn strings_are_compared_and_joined_by_their_characters() {
    assert!(same("°F", "°F"));
    assert!(!same("°F", "°C"));
    assert!(!same("a", "ab"));
    assert_eq!(join("Found ", "é"), "Found é");
    assert_eq!(characters("°F"), vec!['°', 'F']);
    assert!(starts_with("ecobee3", "ecobee"));
    assert!(starts_with("x", ""));
    assert!(!starts_with("ecb", "ecb7"));
    assert!(!starts_with("xecb", "ecb"));
}

#[test]
fn letter_case_does_not_matter_to_a_type() {
    for (a, b) in [
        ("4a", "4A"),
        ("0000008a-0000-1000-8000-0026bb765291", "0000008A-0000-1000-8000-0026BB765291"),
        ("00-x", "00-X"),
    ] {
        assert_eq!(hap_type(a), hap_type(b));
    }
}

#[test]
fn zeros_and_a_tail_do_not_matter_to_any_type() {
    for ty in ["4a", "0004A-0000", "-", "", "f-f-f"] {
        assert_eq!(hap_type(&format!("000{ty}")), hap_type(ty));
        assert_eq!(hap_type(&format!("0{ty}-1000-8000")), hap_type(ty));
    }
}

#[test]
fn a_short_form_is_short() {
    for raw in ["", "0", "-", "000a0-1", "4a", "x-Y-z", "0f0", "00000000-0000"] {
        let r = hap_type(raw);
        assert!(!r.is_empty());
        assert!(r.chars().all(|c| c != '-' && !c.is_ascii_lowercase()));
        assert!(!r.starts_with('0') || r == "0");
    }
    assert_eq!(hap_type("000a0-1"), "A0");
}
