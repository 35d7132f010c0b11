use locale_provider::codec::{decode_plural_rules, encode_plural_rules};
use locale_provider::plurals::PluralRuleStringsV1;

fn record(
    zero: Option<&str>,
    one: Option<&str>,
    two: Option<&str>,
    few: Option<&str>,
    many: Option<&str>,
) -> PluralRuleStringsV1 {
    PluralRuleStringsV1 {
        zero: zero.map(|s| s.to_string()),
        one: one.map(|s| s.to_string()),
        two: two.map(|s| s.to_string()),
        few: few.map(|s| s.to_string()),
        many: many.map(|s| s.to_string()),
    }
}

#[test]
fn round_trip_one_many() {
    let rec = record(None, Some("n = 1"), None, None, Some("n % 1000000 = 0"));
    let bytes = encode_plural_rules(&rec);
    let back = decode_plural_rules(&bytes).expect("a fresh encoding must decode");
    assert_eq!(back, rec);
}

#[test]
fn round_trip_empty_record() {
    let rec = PluralRuleStringsV1::default();
    assert_eq!(rec, record(None, None, None, None, None));
    let bytes = encode_plural_rules(&rec);
    assert_eq!(bytes, vec![0u8, 0, 0, 0, 0]);
    let back = decode_plural_rules(&bytes).expect("the empty record is valid");
    assert_eq!(back, rec);
}

#[test]
fn round_trip_all_fields() {
    let rec = record(
        Some("n = 0"),
        Some("n = 1"),
        Some("n = 2"),
        Some("n % 100 = 3..10"),
        Some("n % 100 = 11..99"),
    );
    let bytes = encode_plural_rules(&rec);
    assert_eq!(decode_plural_rules(&bytes), Some(rec));
}

#[test]
fn round_trip_non_ascii_rule_text() {
    let rec = record(Some("n = 0 \u{2014} ноль"), None, None, None, Some("\u{1F600}"));
    let bytes = encode_plural_rules(&rec);
    assert_eq!(decode_plural_rules(&bytes), Some(rec));
}

#[test]
fn decode_rejects_garbage() {
    assert_eq!(decode_plural_rules(&vec![7u8, 7, 7]), None);
    assert_eq!(decode_plural_rules(&vec![]), None);
}

#[test]
fn decode_rejects_truncated() {
    let rec = record(None, Some("n = 1"), None, None, None);
    let mut bytes = encode_plural_rules(&rec);
    bytes.pop();
    assert_eq!(decode_plural_rules(&bytes), None);
}

#[test]
fn decode_rejects_trailing_bytes() {
    let rec = record(None, Some("n = 1"), None, None, None);
    let mut bytes = encode_plural_rules(&rec);
    bytes.push(0);
    assert_eq!(decode_plural_rules(&bytes), None);
}

#[test]
fn decode_rejects_invalid_utf8() {
    // One present field of one byte 0xFF (not UTF-8), then four absent ones.
    let bytes = vec![1u8, 1, 0, 0, 0, 0, 0, 0, 0, 0xFF, 0, 0, 0, 0];
    assert_eq!(decode_plural_rules(&bytes), None);
}

#[test]
fn field_order_is_fixed() {
    let rec = record(None, Some("a"), None, None, None);
    let bytes = encode_plural_rules(&rec);
    // absent zero; present one ("a"); absent two, few, many.
    assert_eq!(bytes, vec![0u8, 1, 1, 0, 0, 0, 0, 0, 0, 0, b'a', 0, 0, 0]);
}
