use opuza_monero_client::checkpoint::{
    checkpoint_attribute, checkpoint_text, parse_checkpoint, read_checkpoint,
};
use opuza_monero_client::scanner::{scan_floor, SAFETY_MARGIN};

#[test]
fn checkpoint_attribute_name() {
    assert_eq!(checkpoint_attribute(), "block_height");
}

#[test]
fn checkpoint_is_written_in_decimal() {
    assert_eq!(checkpoint_text(0), "0");
    assert_eq!(checkpoint_text(9), "9");
    assert_eq!(checkpoint_text(10), "10");
    assert_eq!(checkpoint_text(3_141_592), "3141592");
    assert_eq!(checkpoint_text(u64::MAX), "18446744073709551615");
}

#[test]
fn checkpoint_is_read_from_digits_only() {
    assert_eq!(parse_checkpoint("0"), Some(0));
    assert_eq!(parse_checkpoint("007"), Some(7));
    assert_eq!(parse_checkpoint("3141592"), Some(3_141_592));
    assert_eq!(parse_checkpoint("18446744073709551615"), Some(u64::MAX));
    assert_eq!(parse_checkpoint("18446744073709551616"), None);
    assert_eq!(parse_checkpoint("99999999999999999999999"), None);
    assert_eq!(parse_checkpoint(""), None);
    assert_eq!(parse_checkpoint("+5"), None);
    assert_eq!(parse_checkpoint("-5"), None);
    assert_eq!(parse_checkpoint(" 5"), None);
    assert_eq!(parse_checkpoint("5 "), None);
    assert_eq!(parse_checkpoint("12a"), None);
    assert_eq!(parse_checkpoint("99999999999999999999999x"), None);
}

#[test]
fn checkpoint_round_trip() {
    for height in [0u64, 1, 9, 10, 99, 100, 2_999_999, u64::MAX - 1, u64::MAX] {
        assert_eq!(parse_checkpoint(&checkpoint_text(height)), Some(height));
    }
}

#[test]
fn missing_or_unreadable_checkpoint_is_none() {
    assert_eq!(read_checkpoint(None), None);
    assert_eq!(read_checkpoint(Some("")), None);
    assert_eq!(read_checkpoint(Some("height")), None);
    assert_eq!(read_checkpoint(Some("120")), Some(120));
}

#[test]
fn floor_is_margin_below_checkpoint() {
    assert_eq!(SAFETY_MARGIN, 10);
    assert_eq!(scan_floor(None, SAFETY_MARGIN), 0);
    assert_eq!(scan_floor(Some(0), SAFETY_MARGIN), 0);
    assert_eq!(scan_floor(Some(9), SAFETY_MARGIN), 0);
    assert_eq!(scan_floor(Some(10), SAFETY_MARGIN), 0);
    assert_eq!(scan_floor(Some(11), SAFETY_MARGIN), 1);
    assert_eq!(scan_floor(Some(1000), SAFETY_MARGIN), 990);
    assert_eq!(scan_floor(Some(1000), 0), 1000);
    assert_eq!(scan_floor(Some(u64::MAX), 1), u64::MAX - 1);
    assert_eq!(scan_floor(Some(5), u64::MAX), 0);
}
