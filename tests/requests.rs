use gamedig::request::{decode_request, encode_request};
use gamedig::types::{App, Request};

#[test]
fn info_request_bytes() {
    let b = encode_request(Request::INFO, 0);
    let mut want = vec![0xFF, 0xFF, 0xFF, 0xFF, 0x54];
    want.extend_from_slice(b"Source Engine Query\0");
    assert_eq!(b, want);
}

#[test]
fn players_and_rules_request_bytes() {
    assert_eq!(
        encode_request(Request::PLAYERS, 0xFFFF_FFFF),
        vec![0xFF, 0xFF, 0xFF, 0xFF, 0x55, 0xFF, 0xFF, 0xFF, 0xFF]
    );
    assert_eq!(
        encode_request(Request::RULES, 0x0403_0201),
        vec![0xFF, 0xFF, 0xFF, 0xFF, 0x56, 1, 2, 3, 4]
    );
}

#[test]
fn request_round_trip() {
    assert_eq!(decode_request(&encode_request(Request::INFO, 9)), Some((Request::INFO, None)));
    for c in [0u32, 1, 0xFFFF_FFFF, 0x1234_5678] {
        assert_eq!(decode_request(&encode_request(Request::PLAYERS, c)), Some((Request::PLAYERS, Some(c))));
        assert_eq!(decode_request(&encode_request(Request::RULES, c)), Some((Request::RULES, Some(c))));
    }
    assert_eq!(decode_request(&vec![0xFF, 0xFF, 0xFF, 0xFF, 0x57, 0, 0, 0, 0]), None);
    assert_eq!(decode_request(&vec![0xFF, 0xFF]), None);
}

#[test]
fn opcodes_and_app_ids() {
    assert_eq!(Request::INFO.opcode(), 0x54);
    assert_eq!(Request::PLAYERS.opcode(), 0x55);
    assert_eq!(Request::RULES.opcode(), 0x56);
    assert_eq!(App::TS.id(), 2400);
    assert_eq!(App::TF2.id(), 440);
    assert_eq!(App::ASRD.id(), 563560);
}
