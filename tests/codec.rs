use std::collections::BTreeMap;

use soldiers::codec::{decode_command, encode_command};
use soldiers::types::{GameMsg, Position, SoldierID};

fn round_trip(m: GameMsg) {
    let b = encode_command(m);
    let d = decode_command(&b).expect("decodes");
    assert_eq!(d, m);
    assert_eq!(encode_command(d), b);
}

#[test]
fn commands_round_trip() {
    round_trip(GameMsg::QueryStatus);
    round_trip(GameMsg::Init(1));
    round_trip(GameMsg::TakeControl(SoldierID(3)));
    round_trip(GameMsg::MoveTo(SoldierID(2), Position { x: 5.5f64.to_bits(), y: (-1.25f64).to_bits() }));
    for v in [
        0, 1, 127, 128, 255, 256, 65535, 65536, i32::MAX, -1, -32, -33, -128, -129, -32768, -32769,
        i32::MIN,
    ] {
        round_trip(GameMsg::Init(v));
        round_trip(GameMsg::TakeControl(SoldierID(v)));
        round_trip(GameMsg::MoveTo(SoldierID(v), Position { x: u64::MAX, y: 0 }));
    }
}

#[test]
fn exact_bytes() {
    assert_eq!(encode_command(GameMsg::QueryStatus), b"\xabQueryStatus".to_vec());
    assert_eq!(encode_command(GameMsg::Init(5)), b"\x81\xa4Init\x05".to_vec());
    assert_eq!(encode_command(GameMsg::Init(-1)), b"\x81\xa4Init\xff".to_vec());
    assert_eq!(encode_command(GameMsg::Init(200)), b"\x81\xa4Init\xcc\xc8".to_vec());
    assert_eq!(encode_command(GameMsg::Init(-100)), b"\x81\xa4Init\xd0\x9c".to_vec());
    assert_eq!(encode_command(GameMsg::Init(300)), b"\x81\xa4Init\xcd\x01\x2c".to_vec());
    assert_eq!(encode_command(GameMsg::Init(-300)), b"\x81\xa4Init\xd1\xfe\xd4".to_vec());
    assert_eq!(encode_command(GameMsg::Init(70000)), b"\x81\xa4Init\xce\x00\x01\x11\x70".to_vec());
    assert_eq!(encode_command(GameMsg::Init(-70000)), b"\x81\xa4Init\xd2\xff\xfe\xee\x90".to_vec());
    assert_eq!(encode_command(GameMsg::TakeControl(SoldierID(0))), b"\x81\xabTakeControl\x00".to_vec());
    let mv = GameMsg::MoveTo(SoldierID(1), Position { x: 1.0f64.to_bits(), y: 2.0f64.to_bits() });
    let mut want = b"\x81\xa6MoveTo\x92\x01\x92\xcb".to_vec();
    want.extend_from_slice(&1.0f64.to_be_bytes());
    want.push(0xcb);
    want.extend_from_slice(&2.0f64.to_be_bytes());
    assert_eq!(encode_command(mv), want);
}

#[test]
fn same_bytes_as_messagepack_library() {
    let mut m = BTreeMap::new();
    m.insert("Init", 300000i32);
    assert_eq!(rmp_serde::to_vec(&m).unwrap(), encode_command(GameMsg::Init(300000)));
    let mut m = BTreeMap::new();
    m.insert("TakeControl", -7i32);
    assert_eq!(rmp_serde::to_vec(&m).unwrap(), encode_command(GameMsg::TakeControl(SoldierID(-7))));
    let mut m = BTreeMap::new();
    m.insert("MoveTo", (12i32, (3.5f64, -8.0f64)));
    let mv = GameMsg::MoveTo(SoldierID(12), Position { x: 3.5f64.to_bits(), y: (-8.0f64).to_bits() });
    assert_eq!(rmp_serde::to_vec(&m).unwrap(), encode_command(mv));
    assert_eq!(rmp_serde::to_vec("QueryStatus").unwrap(), encode_command(GameMsg::QueryStatus));
    let back: BTreeMap<String, (i32, (f64, f64))> = rmp_serde::from_slice(&encode_command(mv)).unwrap();
    assert_eq!(back["MoveTo"], (12, (3.5, -8.0)));
}

#[test]
fn malformed_frames_are_rejected() {
    assert_eq!(decode_command(b""), None);
    assert_eq!(decode_command(b"\xab"), None);
    assert_eq!(decode_command(b"\xabQueryStatuz"), None);
    assert_eq!(decode_command(b"\xabQueryStatus\x00"), None);
    assert_eq!(decode_command(b"\x81\xa4Init"), None);
    assert_eq!(decode_command(b"\x81\xa4Init\xcc"), None);
    assert_eq!(decode_command(b"\x81\xa4Init\xcc\x05"), None);
    assert_eq!(decode_command(b"\x81\xa4Init\xd2\x00\x00\x00\x05"), None);
    assert_eq!(decode_command(b"\x81\xa4Init\xce\x80\x00\x00\x00"), None);
    assert_eq!(decode_command(b"\x81\xa4Init\xc0"), None);
    assert_eq!(decode_command(b"\x81\xa4Inut\x05"), None);
    let mut mv = encode_command(GameMsg::MoveTo(SoldierID(1), Position { x: 1, y: 2 }));
    mv.pop();
    assert_eq!(decode_command(&mv), None);
    assert_eq!(decode_command(b"\x81\xa4Init\x05"), Some(GameMsg::Init(5)));
    assert_eq!(decode_command(b"\x81\xa4Init\xd0\x9c"), Some(GameMsg::Init(-100)));
}
