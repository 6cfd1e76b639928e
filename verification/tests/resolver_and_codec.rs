//! Tests for the position resolver and the identifier codec.

use binlog_client::BinLogPosition;
use binlog_client::ReplicationError;
use binlog_client::identifier_from_bytes;
use binlog_client::identifier_to_bytes;
use binlog_client::resolve_position;
use binlog_client::stream_request;

fn log(filename: &str, position: u64, encrypted: &str) -> BinLogPosition {
    BinLogPosition {
        filename: filename.to_string(),
        position,
        encrypted: encrypted.to_string(),
    }
}

#[test]
fn resolver_picks_last_reported_log() {
    let logs = vec![log("log.1", 100, ""), log("log.2", 500, "")];
    let picked = resolve_position(logs).unwrap();
    assert_eq!(picked, log("log.2", 500, ""));
}

#[test]
fn resolver_single_log() {
    let logs = vec![log("binlog.000007", 4, "No")];
    let picked = resolve_position(logs).unwrap();
    assert_eq!(picked.filename, "binlog.000007");
    assert_eq!(picked.position, 4);
}

#[test]
fn resolver_fails_on_empty_list() {
    let r = resolve_position(Vec::new());
    assert_eq!(r, Err(ReplicationError::NoLogsAvailable));
}

#[test]
fn stream_request_carries_chosen_position() {
    let req = stream_request(log("log.9", 12345, ""));
    assert_eq!(req.filename, "log.9");
    assert_eq!(req.start_position, 12345);
}

#[test]
fn identifier_round_trip_reproduces_bytes() {
    let bytes: Vec<u8> = vec![
        0x55, 0x0e, 0x84, 0x00, 0xe2, 0x9b, 0x41, 0xd4, 0xa7, 0x16, 0x44, 0x66, 0x55, 0x44, 0x00,
        0x00,
    ];
    let id = identifier_from_bytes(&bytes).unwrap();
    let encoded = identifier_to_bytes(id);
    assert_eq!(encoded, bytes);
}

#[test]
fn identifier_exact_value() {
    let mut bytes: Vec<u8> = vec![0u8; 16];
    bytes[14] = 0x12;
    bytes[15] = 0x34;
    assert_eq!(identifier_from_bytes(&bytes), Some(0x1234u128));

    let all_ff: Vec<u8> = vec![0xffu8; 16];
    assert_eq!(identifier_from_bytes(&all_ff), Some(u128::MAX));
}

#[test]
fn identifier_rejects_wrong_lengths() {
    assert_eq!(identifier_from_bytes(&vec![0u8; 15]), None);
    assert_eq!(identifier_from_bytes(&vec![0u8; 17]), None);
    assert_eq!(identifier_from_bytes(&Vec::new()), None);
}

#[test]
fn identifier_encoding_is_big_endian() {
    let encoded = identifier_to_bytes(1);
    let mut expected = vec![0u8; 16];
    expected[15] = 1;
    assert_eq!(encoded, expected);
}
