use gamepad_applet::battery::{battery_key, parse_capacity, supply_belongs_to, SupplySearch};
use gamepad_applet::text::{contains, eq_ignore_ascii_case, parse_u8, trim};

#[test]
fn trim_removes_surrounding_white_space() {
    assert_eq!(trim("  Pad One \t\n"), "Pad One");
    assert_eq!(trim("\u{3000}name\u{a0}"), "name");
    assert_eq!(trim("inner  space"), "inner  space");
    assert_eq!(trim("   "), "");
    assert_eq!(trim(""), "");
}

#[test]
fn trim_is_idempotent_on_examples() {
    for s in ["  a b  ", "\n\tx", "y\r\n", "", " "] {
        let once = trim(s);
        assert_eq!(trim(&once), once);
    }
}

#[test]
fn address_match_ignores_ascii_case_only() {
    assert!(eq_ignore_ascii_case("AA:bb:0C:11:22:33", "aa:BB:0c:11:22:33"));
    assert!(!eq_ignore_ascii_case("AA:BB", "AA:BC"));
    assert!(!eq_ignore_ascii_case("AA:BB", "AA:BB:"));
    assert!(eq_ignore_ascii_case("", ""));
    assert!(!eq_ignore_ascii_case("É", "é"));
}

#[test]
fn contains_finds_substrings() {
    assert!(contains("ps-controller-battery-aa:bb:cc", "aa:bb"));
    assert!(contains("abc", ""));
    assert!(contains("abc", "abc"));
    assert!(!contains("abc", "abcd"));
    assert!(!contains("ps-controller-battery-aa:bb:cc", "AA:BB"));
}

#[test]
fn parse_u8_follows_std() {
    for s in ["0", "7", "255", "+12", "007", "256", "", "+", "-1", "1 2", "12a", "999"] {
        assert_eq!(parse_u8(s), s.parse::<u8>().ok(), "input {:?}", s);
    }
}

#[test]
fn capacity_file_is_read_after_trimming() {
    assert_eq!(parse_capacity("87\n"), Some(87));
    assert_eq!(parse_capacity("  100 "), Some(100));
    assert_eq!(parse_capacity("300\n"), None);
    assert_eq!(parse_capacity("full\n"), None);
    assert_eq!(parse_capacity(""), None);
}

#[test]
fn battery_key_is_lower_case_address() {
    assert_eq!(battery_key("AA:BB:CC:DD:EE:0F"), "aa:bb:cc:dd:ee:0f");
    assert!(supply_belongs_to("ps-controller-battery-aa:bb:cc:dd:ee:0f", &battery_key("AA:BB:CC:DD:EE:0F")));
    assert!(!supply_belongs_to("ps-controller-battery-11:22:33:44:55:66", &battery_key("AA:BB:CC:DD:EE:0F")));
}

#[test]
fn supply_search_skips_other_devices_and_unreadable_files() {
    let mut search = SupplySearch::new(battery_key("AA:BB"));
    assert!(!search.consider("ps-controller-battery-11:22".to_string()));
    assert!(search.consider("ps-controller-battery-aa:bb".to_string()));
    assert_eq!(search.capacity("unknown\n"), None);
    assert!(search.consider("hid-aa:bb-battery".to_string()));
    assert_eq!(search.capacity(" 42\n"), Some(("hid-aa:bb-battery".to_string(), 42)));
}
