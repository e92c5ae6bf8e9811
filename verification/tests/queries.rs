use ckb_client::errors::{ClientError, QueryKey, require_found};
use ckb_client::heights::{resolve_from, resolve_to};
use ckb_client::model::{Digest, Script};
use ckb_client::parse::{parse_hex_digest, parse_u64};

#[test]
fn parse_reads_a_plain_numeral() {
    assert_eq!(parse_u64("1000"), Ok(1000));
    assert_eq!(parse_u64("0"), Ok(0));
    assert_eq!(parse_u64("42"), Ok(42));
}

#[test]
fn parse_accepts_leading_zeros_and_a_plus_sign() {
    assert_eq!(parse_u64("007"), Ok(7));
    assert_eq!(parse_u64("+123"), Ok(123));
    assert_eq!(parse_u64("+0"), Ok(0));
}

#[test]
fn parse_reads_the_largest_value() {
    assert_eq!(parse_u64("18446744073709551615"), Ok(u64::MAX));
}

#[test]
fn parse_refuses_a_value_past_the_64_bit_range() {
    assert_eq!(parse_u64("18446744073709551616"), Err(ClientError::Parse));
}

#[test]
fn parse_refuses_what_is_not_a_numeral() {
    assert_eq!(parse_u64(""), Err(ClientError::Parse));
    assert_eq!(parse_u64("+"), Err(ClientError::Parse));
    assert_eq!(parse_u64(" 1"), Err(ClientError::Parse));
    assert_eq!(parse_u64("1 "), Err(ClientError::Parse));
    assert_eq!(parse_u64("-1"), Err(ClientError::Parse));
    assert_eq!(parse_u64("12a"), Err(ClientError::Parse));
    assert_eq!(parse_u64("1_000"), Err(ClientError::Parse));
    assert_eq!(parse_u64("++1"), Err(ClientError::Parse));
}

#[test]
fn absent_bounds_mean_the_whole_chain() {
    let tip: u64 = 12345;
    assert_eq!(resolve_from(None), 0);
    assert_eq!(resolve_to(None, tip), tip);
    assert_eq!(resolve_from(None), resolve_from(Some(0)));
    assert_eq!(resolve_to(None, tip), resolve_to(Some(tip), tip));
}

#[test]
fn given_bounds_are_kept() {
    assert_eq!(resolve_from(Some(17)), 17);
    assert_eq!(resolve_to(Some(90), 12345), 90);
}

#[test]
fn a_present_answer_passes_through() {
    let r = require_found(Some(41u64), QueryKey::Height(7));
    assert_eq!(r, Ok(41));
}

#[test]
fn an_absent_answer_names_its_key() {
    let key = QueryKey::Hash(Digest { bytes: [3u8; 32] });
    let r: Result<u64, ClientError> = require_found(None, key);
    assert_eq!(r, Err(ClientError::NotFound(key)));
}

#[test]
fn a_hex_digest_is_read_byte_by_byte() {
    let mut text = String::from("00");
    text.push_str(&"ff".repeat(30));
    text.push_str("A5");
    let digest = parse_hex_digest(&text).unwrap();
    assert_eq!(digest.bytes[0], 0x00);
    assert!(digest.bytes[1..31].iter().all(|b| *b == 0xff));
    assert_eq!(digest.bytes[31], 0xa5);
}

#[test]
fn a_hex_digest_must_be_64_digits() {
    assert!(parse_hex_digest("").is_none());
    assert!(parse_hex_digest(&"0".repeat(63)).is_none());
    assert!(parse_hex_digest(&"0".repeat(65)).is_none());
    let mut bad = "0".repeat(63);
    bad.push('g');
    assert!(parse_hex_digest(&bad).is_none());
}

#[test]
fn a_duplicated_script_is_equal_to_its_original() {
    let script = Script {
        code_hash: Digest { bytes: [5u8; 32] },
        args: vec![vec![1, 2, 3], vec![]],
    };
    assert_eq!(script.duplicate(), script);
}
