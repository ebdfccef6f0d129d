use gamedig::parse::{parse_challenge, parse_info, parse_players, parse_response, parse_rules, Parsed};
use gamedig::types::{Environment, QueryError, Server, TheShip};

fn cstr(v: &mut Vec<u8>, s: &str) {
    v.extend_from_slice(s.as_bytes());
    v.push(0);
}

fn info_payload(appid: u16, ship: Option<[u8; 3]>, edf: Option<Vec<u8>>) -> Vec<u8> {
    let mut v = vec![0x49, 17];
    cstr(&mut v, "My Server");
    cstr(&mut v, "cp_dustbowl");
    cstr(&mut v, "tf");
    cstr(&mut v, "Team Fortress");
    v.extend_from_slice(&appid.to_le_bytes());
    v.extend_from_slice(&[12, 24, 2, b'd', b'l', 0, 1]);
    if let Some(s) = ship {
        v.extend_from_slice(&s);
    }
    cstr(&mut v, "1.0.0.1");
    if let Some(e) = edf {
        v.extend_from_slice(&e);
    }
    v
}

#[test]
fn info_example_map1() {
    let mut p = vec![0x49, 0x00, 0x00];
    cstr(&mut p, "Map1");
    cstr(&mut p, "folder");
    cstr(&mut p, "Game");
    p.extend_from_slice(&440u16.to_le_bytes());
    p.extend_from_slice(&[0, 10, 0, b'l', b'w', 1, 0]);
    cstr(&mut p, "v1");
    let info = parse_info(&p).unwrap();
    assert_eq!(info.protocol, 0);
    assert_eq!(info.name, "");
    assert_eq!(info.map, "Map1");
    assert_eq!(info.folder, "folder");
    assert_eq!(info.game, "Game");
    assert_eq!(info.appid, 440);
    assert_eq!(info.server_type, Server::NonDedicated);
    assert_eq!(info.environment_type, Environment::Windows);
    assert!(info.has_password);
    assert!(!info.vac_secured);
    assert_eq!(info.version, "v1");
    assert!(info.extra_data.is_none());
    assert!(info.the_ship.is_none());

    // an extra data flag byte of zero sets no field: no extra data
    p.push(0x00);
    let info = parse_info(&p).unwrap();
    assert_eq!(info.map, "Map1");
    assert!(info.extra_data.is_none());

    // a flag byte whose bits gate no field: extra data, every field absent
    let last = p.len() - 1;
    p[last] = 0x02;
    let ed = parse_info(&p).unwrap().extra_data.unwrap();
    assert!(ed.port.is_none() && ed.steam_id.is_none() && ed.tv_port.is_none());
    assert!(ed.tv_name.is_none() && ed.keywords.is_none() && ed.game_id.is_none());
}

#[test]
fn info_fields_in_order() {
    let p = info_payload(440, None, None);
    let info = parse_info(&p).unwrap();
    assert_eq!(info.protocol, 17);
    assert_eq!(info.name, "My Server");
    assert_eq!(info.map, "cp_dustbowl");
    assert_eq!(info.folder, "tf");
    assert_eq!(info.game, "Team Fortress");
    assert_eq!(info.players, 12);
    assert_eq!(info.max_players, 24);
    assert_eq!(info.bots, 2);
    assert_eq!(info.server_type, Server::Dedicated);
    assert_eq!(info.environment_type, Environment::Linux);
    assert!(!info.has_password);
    assert!(info.vac_secured);
    assert_eq!(info.version, "1.0.0.1");
}

#[test]
fn info_players_above_max_pass_through() {
    let mut p = info_payload(440, None, None);
    let g = p.iter().position(|&b| b == 12).unwrap();
    p[g] = 200;
    let info = parse_info(&p).unwrap();
    assert_eq!(info.players, 200);
    assert_eq!(info.max_players, 24);
}

#[test]
fn info_extra_data_all_flags() {
    let mut e = vec![0x80 | 0x10 | 0x40 | 0x20 | 0x01];
    e.extend_from_slice(&27015u16.to_le_bytes());
    e.extend_from_slice(&76561198000000000u64.to_le_bytes());
    e.extend_from_slice(&27020u16.to_le_bytes());
    cstr(&mut e, "TV");
    cstr(&mut e, "alltalk,cp");
    e.extend_from_slice(&440u64.to_le_bytes());
    let p = info_payload(440, None, Some(e));
    let ed = parse_info(&p).unwrap().extra_data.unwrap();
    assert_eq!(ed.port, Some(27015));
    assert_eq!(ed.steam_id, Some(76561198000000000));
    assert_eq!(ed.tv_port, Some(27020));
    assert_eq!(ed.tv_name.as_deref(), Some("TV"));
    assert_eq!(ed.keywords.as_deref(), Some("alltalk,cp"));
    assert_eq!(ed.game_id, Some(440));
}

#[test]
fn info_extra_data_some_flags() {
    let mut e = vec![0x20 | 0x01];
    cstr(&mut e, "tags");
    e.extend_from_slice(&7u64.to_le_bytes());
    let p = info_payload(440, None, Some(e));
    let ed = parse_info(&p).unwrap().extra_data.unwrap();
    assert_eq!(ed.port, None);
    assert_eq!(ed.steam_id, None);
    assert_eq!(ed.tv_port, None);
    assert_eq!(ed.tv_name, None);
    assert_eq!(ed.keywords.as_deref(), Some("tags"));
    assert_eq!(ed.game_id, Some(7));
}

#[test]
fn info_the_ship_fields() {
    let p = info_payload(2400, Some([1, 2, 3]), None);
    let info = parse_info(&p).unwrap();
    assert_eq!(info.appid, 2400);
    assert_eq!(info.the_ship, Some(TheShip { mode: 1, witnesses: 2, duration: 3 }));
    assert_eq!(info.version, "1.0.0.1");
}

#[test]
fn info_other_app_has_no_ship_fields() {
    let p = info_payload(240, None, None);
    let info = parse_info(&p).unwrap();
    assert!(info.the_ship.is_none());
}

#[test]
fn info_truncated_is_underflow() {
    let p = info_payload(440, None, None);
    for cut in 0..p.len() {
        let short = p[..cut].to_vec();
        assert_eq!(parse_info(&short).unwrap_err(), QueryError::PacketUnderflow, "cut {}", cut);
    }
    let mut e = vec![0x80];
    e.push(0x87);
    let p = info_payload(440, None, Some(e));
    assert_eq!(parse_info(&p).unwrap_err(), QueryError::PacketUnderflow);
}

#[test]
fn info_trailing_bytes_are_overflow() {
    let p = info_payload(440, None, Some(vec![0x00, 0x55]));
    assert_eq!(parse_info(&p).unwrap_err(), QueryError::PacketOverflow);
}

#[test]
fn info_wrong_header() {
    let mut p = info_payload(440, None, None);
    p[0] = 0x44;
    assert_eq!(parse_info(&p).unwrap_err(), QueryError::UnexpectedResponseHeader);
}

fn players_payload(ship: bool) -> Vec<u8> {
    let mut v = vec![0x44, 2];
    for (i, (name, score)) in [("alice", 10u32), ("bob", 3u32)].iter().enumerate() {
        v.push(i as u8);
        cstr(&mut v, name);
        v.extend_from_slice(&score.to_le_bytes());
        v.extend_from_slice(&(1.5f32 + i as f32).to_bits().to_le_bytes());
        if ship {
            v.extend_from_slice(&(4u32 + i as u32).to_le_bytes());
            v.extend_from_slice(&(1000u32 * (i as u32 + 1)).to_le_bytes());
        }
    }
    v
}

#[test]
fn players_in_wire_order() {
    let v = parse_players(&players_payload(false), 440).unwrap();
    assert_eq!(v.len(), 2);
    assert_eq!(v[0].name, "alice");
    assert_eq!(v[0].score, 10);
    assert_eq!(f32::from_bits(v[0].duration_bits), 1.5);
    assert_eq!(v[1].name, "bob");
    assert_eq!(v[1].score, 3);
    assert_eq!(f32::from_bits(v[1].duration_bits), 2.5);
    assert!(v[0].deaths.is_none() && v[0].money.is_none());
}

#[test]
fn players_the_ship_fields() {
    let v = parse_players(&players_payload(true), 2400).unwrap();
    assert_eq!(v[0].deaths, Some(4));
    assert_eq!(v[0].money, Some(1000));
    assert_eq!(v[1].deaths, Some(5));
    assert_eq!(v[1].money, Some(2000));
    // the same bytes read without The Ship's fields leave bytes over
    assert_eq!(parse_players(&players_payload(true), 440).unwrap_err(), QueryError::PacketOverflow);
    assert_eq!(parse_players(&players_payload(false), 2400).unwrap_err(), QueryError::PacketUnderflow);
}

#[test]
fn players_empty_list() {
    let v = parse_players(&vec![0x44, 0], 440).unwrap();
    assert!(v.is_empty());
    assert_eq!(parse_players(&vec![0x44], 440).unwrap_err(), QueryError::PacketUnderflow);
}

#[test]
fn rules_keep_wire_order() {
    let mut p = vec![0x45];
    p.extend_from_slice(&3u16.to_le_bytes());
    for (n, v) in [("mp_timelimit", "30"), ("sv_gravity", "800"), ("a", "")] {
        cstr(&mut p, n);
        cstr(&mut p, v);
    }
    let r = parse_rules(&p).unwrap();
    assert_eq!(r.len(), 3);
    assert_eq!((r[0].name.as_str(), r[0].value.as_str()), ("mp_timelimit", "30"));
    assert_eq!((r[1].name.as_str(), r[1].value.as_str()), ("sv_gravity", "800"));
    assert_eq!((r[2].name.as_str(), r[2].value.as_str()), ("a", ""));
    p.pop();
    assert_eq!(parse_rules(&p).unwrap_err(), QueryError::PacketUnderflow);
}

#[test]
fn challenge_token() {
    let p = vec![0x41, 0x78, 0x56, 0x34, 0x12];
    assert_eq!(parse_challenge(&p).unwrap(), 0x12345678);
    assert_eq!(parse_challenge(&vec![0x41, 1, 2]).unwrap_err(), QueryError::PacketUnderflow);
    assert_eq!(parse_challenge(&vec![0x41, 1, 2, 3, 4, 5]).unwrap_err(), QueryError::PacketOverflow);
}

#[test]
fn response_dispatch_by_header() {
    match parse_response(&vec![0x41, 1, 0, 0, 0], 440).unwrap() {
        Parsed::Challenge(t) => assert_eq!(t, 1),
        other => panic!("{:?}", other),
    }
    match parse_response(&info_payload(440, None, None), 0).unwrap() {
        Parsed::Info(i) => assert_eq!(i.map, "cp_dustbowl"),
        other => panic!("{:?}", other),
    }
    match parse_response(&players_payload(true), 2400).unwrap() {
        Parsed::Players(v) => assert_eq!(v[1].money, Some(2000)),
        other => panic!("{:?}", other),
    }
    assert_eq!(parse_response(&vec![0x6d, 0], 440).unwrap_err(), QueryError::UnexpectedResponseHeader);
    assert_eq!(parse_response(&vec![], 440).unwrap_err(), QueryError::PacketUnderflow);
}

#[test]
fn invalid_utf8_is_replaced() {
    let mut p = vec![0x49, 0, 0xff, 0x41, 0];
    cstr(&mut p, "m");
    cstr(&mut p, "f");
    cstr(&mut p, "g");
    p.extend_from_slice(&[0, 0, 0, 0, 0, b'd', b'l', 0, 0]);
    cstr(&mut p, "v");
    let info = parse_info(&p).unwrap();
    assert_eq!(info.name, "\u{FFFD}A");
}
