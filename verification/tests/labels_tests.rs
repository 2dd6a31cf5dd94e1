use bwt::labels::{Checksum, KeyOrigin};
use bwt::numstr::{format_u32, parse_u32};

fn cs(s: &str) -> Checksum {
    Checksum::new(s.to_owned()).expect("valid checksum")
}

#[test]
fn standalone_label_round_trip() {
    let o = KeyOrigin::Standalone;
    assert_eq!(o.to_label(), "bwt");
    assert_eq!(KeyOrigin::from_label("bwt"), Some(KeyOrigin::Standalone));
}

#[test]
fn descriptor_label_round_trip() {
    for index in [0u32, 1, 3, 19, 4294967295] {
        let o = KeyOrigin::Descriptor(cs("abc12345"), index);
        let label = o.to_label();
        assert_eq!(KeyOrigin::from_label(&label), Some(o));
    }
}

#[test]
fn descriptor_label_exact_text() {
    let o = KeyOrigin::Descriptor(cs("abc12345"), 4);
    assert_eq!(o.to_label(), "bwt/abc12345/4");
    let o = KeyOrigin::Descriptor(cs("qqqqqqqq"), 4294967295);
    assert_eq!(o.to_label(), "bwt/qqqqqqqq/4294967295");
}

#[test]
fn foreign_labels_parse_to_none() {
    for bad in [
        "",
        "b",
        "bw",
        "bwt/",
        "bwt/abc12345",
        "bwt/abc12345/",
        "bwt/short/3",
        "bwt/toolong123/3",
        "bwt/ABC12345/4",
        "bwt/abc12345/4/5",
        "bwt/abc12345/x",
        "bwt/abc12345/+7",
        "bwt/abc12345/4294967296",
        "other-app",
        "bwtx",
        "xbwt/abc12345/4",
    ] {
        assert_eq!(KeyOrigin::from_label(bad), None, "label {:?}", bad);
    }
}

#[test]
fn leading_zeros_are_accepted() {
    assert_eq!(
        KeyOrigin::from_label("bwt/abc12345/007"),
        Some(KeyOrigin::Descriptor(cs("abc12345"), 7))
    );
}

#[test]
fn is_standalone_reports_the_variant() {
    assert!(KeyOrigin::is_standalone(&KeyOrigin::Standalone));
    assert!(!KeyOrigin::is_standalone(&KeyOrigin::Descriptor(cs("abc12345"), 0)));
}

#[test]
fn checksum_validation() {
    assert!(Checksum::new("abc12345".to_owned()).is_some());
    assert!(Checksum::new("qpzry9x8".to_owned()).is_some());
    assert!(Checksum::new("abc1234".to_owned()).is_none());
    assert!(Checksum::new("abc123456".to_owned()).is_none());
    assert!(Checksum::new("ABC12345".to_owned()).is_none());
    assert!(Checksum::new("abc1234/".to_owned()).is_none());
}

#[test]
fn decimal_formatting() {
    assert_eq!(format_u32(0), "0");
    assert_eq!(format_u32(7), "7");
    assert_eq!(format_u32(10), "10");
    assert_eq!(format_u32(1234567890), "1234567890");
    assert_eq!(format_u32(4294967295), "4294967295");
}

#[test]
fn decimal_parsing() {
    assert_eq!(parse_u32("0"), Some(0));
    assert_eq!(parse_u32("007"), Some(7));
    assert_eq!(parse_u32("4294967295"), Some(4294967295));
    assert_eq!(parse_u32("4294967296"), None);
    assert_eq!(parse_u32("99999999999999999999"), None);
    assert_eq!(parse_u32(""), None);
    assert_eq!(parse_u32("12a"), None);
    assert_eq!(parse_u32("-1"), None);
    assert_eq!(parse_u32("+1"), None);
}
