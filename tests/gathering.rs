use gamedig::game;
use gamedig::gather::{start, Gathering, Step};
use gamedig::retry::TimeoutSettings;
use gamedig::types::{GatheringSettings, QueryError, Response, ServerPlayer, ServerRule, ServerInfo, Server, Environment, ExtraData};

fn cstr(v: &mut Vec<u8>, s: &str) {
    v.extend_from_slice(s.as_bytes());
    v.push(0);
}

fn info(appid: u16) -> Vec<u8> {
    let mut v = vec![0x49, 17];
    for s in ["srv", "map", "dir", "game"] {
        cstr(&mut v, s);
    }
    v.extend_from_slice(&appid.to_le_bytes());
    v.extend_from_slice(&[1, 8, 0, b'd', b'l', 0, 1]);
    if appid == 2400 {
        v.extend_from_slice(&[0, 0, 0]);
    }
    cstr(&mut v, "1");
    v
}

fn players() -> Vec<u8> {
    let mut v = vec![0x44, 1, 0];
    cstr(&mut v, "ann");
    v.extend_from_slice(&[5, 0, 0, 0, 0, 0, 0, 0]);
    v
}

fn rules() -> Vec<u8> {
    let mut v = vec![0x45, 1, 0];
    cstr(&mut v, "k");
    cstr(&mut v, "v");
    v
}

fn send(step: Step) -> (Gathering, Vec<u8>) {
    match step {
        Step::Send(g, b) => (g, b),
        other => panic!("{:?}", other),
    }
}

#[test]
fn info_only_sends_nothing_more() {
    let (g, b) = start(GatheringSettings { players: false, rules: false });
    assert_eq!(b[4], 0x54);
    match g.on_payload(&info(440)) {
        Step::Done(r) => {
            assert!(r.players.is_none());
            assert!(r.rules.is_none());
            assert_eq!(r.info.name, "srv");
        }
        other => panic!("{:?}", other),
    }
}

#[test]
fn challenge_then_resend_then_data() {
    let (g, _) = start(GatheringSettings { players: true, rules: true });
    let (g, b) = send(g.on_payload(&info(440)));
    assert_eq!(b, vec![0xFF, 0xFF, 0xFF, 0xFF, 0x55, 0xFF, 0xFF, 0xFF, 0xFF]);
    let (g, b) = send(g.on_payload(&vec![0x41, 1, 2, 3, 4]));
    assert_eq!(b, vec![0xFF, 0xFF, 0xFF, 0xFF, 0x55, 1, 2, 3, 4]);
    let (g, b) = send(g.on_payload(&players()));
    assert_eq!(b[4], 0x56);
    let (g, b) = send(g.on_payload(&vec![0x41, 9, 0, 0, 0]));
    assert_eq!(b, vec![0xFF, 0xFF, 0xFF, 0xFF, 0x56, 9, 0, 0, 0]);
    match g.on_payload(&rules()) {
        Step::Done(r) => {
            assert_eq!(r.players.as_ref().unwrap()[0].name, "ann");
            assert_eq!(r.rules.as_ref().unwrap()[0].value, "v");
        }
        other => panic!("{:?}", other),
    }
}

#[test]
fn second_challenge_is_missing_challenge() {
    let (g, _) = start(GatheringSettings { players: false, rules: true });
    let (g, b) = send(g.on_payload(&info(440)));
    assert_eq!(b[4], 0x56);
    let (g, _) = send(g.on_payload(&vec![0x41, 1, 0, 0, 0]));
    match g.on_payload(&vec![0x41, 2, 0, 0, 0]) {
        Step::Failed(e) => assert_eq!(e, QueryError::MissingChallenge),
        other => panic!("{:?}", other),
    }
}

#[test]
fn data_before_challenge_is_missing_challenge() {
    let (g, _) = start(GatheringSettings { players: true, rules: false });
    let (g, _) = send(g.on_payload(&info(440)));
    match g.on_payload(&players()) {
        Step::Failed(e) => assert_eq!(e, QueryError::MissingChallenge),
        other => panic!("{:?}", other),
    }
    let (g, _) = start(GatheringSettings { players: false, rules: true });
    let (g, _) = send(g.on_payload(&info(440)));
    match g.on_payload(&rules()) {
        Step::Failed(e) => assert_eq!(e, QueryError::MissingChallenge),
        other => panic!("{:?}", other),
    }
}

#[test]
fn header_checked_before_layout() {
    let (g, _) = start(GatheringSettings { players: true, rules: true });
    match g.on_payload(&vec![0x44]) {
        Step::Failed(e) => assert_eq!(e, QueryError::UnexpectedResponseHeader),
        other => panic!("{:?}", other),
    }
    let (g, _) = start(GatheringSettings { players: true, rules: true });
    let (g, _) = send(g.on_payload(&info(440)));
    match g.on_payload(&vec![0x49]) {
        Step::Failed(e) => assert_eq!(e, QueryError::UnexpectedResponseHeader),
        other => panic!("{:?}", other),
    }
    let (g, _) = start(GatheringSettings { players: true, rules: true });
    match g.on_payload(&vec![]) {
        Step::Failed(e) => assert_eq!(e, QueryError::PacketUnderflow),
        other => panic!("{:?}", other),
    }
}

#[test]
fn wrong_answer_fails_whole_query() {
    let (g, _) = start(GatheringSettings { players: true, rules: false });
    match g.on_payload(&rules()) {
        Step::Failed(e) => assert_eq!(e, QueryError::UnexpectedResponseHeader),
        other => panic!("{:?}", other),
    }
    let (g, _) = start(GatheringSettings { players: true, rules: false });
    match g.on_payload(&vec![0x49, 0]) {
        Step::Failed(e) => assert_eq!(e, QueryError::PacketUnderflow),
        other => panic!("{:?}", other),
    }
}

#[test]
fn the_ship_players_use_appid_from_info() {
    let (g, _) = start(GatheringSettings { players: true, rules: false });
    let (g, _) = send(g.on_payload(&info(2400)));
    let (g, _) = send(g.on_payload(&vec![0x41, 1, 0, 0, 0]));
    let mut p = players();
    p.extend_from_slice(&[2, 0, 0, 0, 50, 0, 0, 0]);
    match g.on_payload(&p) {
        Step::Done(r) => {
            let pl = &r.players.unwrap()[0];
            assert_eq!(pl.deaths, Some(2));
            assert_eq!(pl.money, Some(50));
        }
        other => panic!("{:?}", other),
    }
}

#[test]
fn timeout_after_exactly_the_retry_count() {
    let t = TimeoutSettings::new(1000, 1000, 3);
    let mut attempts: u32 = 1;
    loop {
        match t.after_timeout(attempts) {
            Ok(()) => attempts += 1,
            Err(e) => {
                assert_eq!(e, QueryError::SocketTimeout);
                break;
            }
        }
    }
    assert_eq!(attempts, 3);
    let once = TimeoutSettings::new(1000, 1000, 0);
    assert_eq!(once.after_timeout(1), Err(QueryError::SocketTimeout));
    assert_eq!(TimeoutSettings::default().retries, 3);
}

fn full_info() -> ServerInfo {
    ServerInfo {
        protocol: 17,
        name: "srv".to_string(),
        map: "map".to_string(),
        folder: "dir".to_string(),
        game: "game".to_string(),
        appid: 440,
        players: 2,
        max_players: 8,
        bots: 0,
        server_type: Server::Dedicated,
        environment_type: Environment::Linux,
        has_password: false,
        vac_secured: true,
        the_ship: None,
        version: "1".to_string(),
        extra_data: Some(ExtraData {
            port: Some(27015),
            steam_id: None,
            tv_port: None,
            tv_name: None,
            keywords: Some("tags".to_string()),
            game_id: Some(440),
        }),
    }
}

fn player(name: &str, score: u32) -> ServerPlayer {
    ServerPlayer { name: name.to_string(), score, duration_bits: 2.0f32.to_bits(), deaths: None, money: None }
}

#[test]
fn mapping_keeps_players_in_order() {
    let r = Response {
        info: full_info(),
        players: Some(vec![player("b", 1), player("a", 2)]),
        rules: Some(vec![ServerRule { name: "k".to_string(), value: "v".to_string() }]),
    };
    let g = game::Response::new_from_valve_response(r).unwrap();
    assert_eq!(g.players_details.len(), 2);
    assert_eq!(g.players_details[0].name, "b");
    assert_eq!(g.players_details[1].name, "a");
    assert_eq!(g.players_details[1].score, 2);
    assert_eq!(f32::from_bits(g.players_details[0].duration_bits), 2.0);
    assert_eq!(g.port, Some(27015));
    assert_eq!(g.keywords.as_deref(), Some("tags"));
    assert_eq!(g.rules[0].name, "k");
    assert_eq!(g.map, "map");
}

#[test]
fn mapping_without_players_or_rules_fails() {
    let r = Response { info: full_info(), players: None, rules: Some(vec![]) };
    assert_eq!(game::Response::new_from_valve_response(r).unwrap_err(), QueryError::MappingPrecondition);
    let r = Response { info: full_info(), players: Some(vec![]), rules: None };
    assert_eq!(game::Response::new_from_valve_response(r).unwrap_err(), QueryError::MappingPrecondition);
}

#[test]
fn player_projection() {
    let p = player("x", 4);
    let q = game::Player::from_valve_response(&p);
    assert_eq!(q.name, "x");
    assert_eq!(q.score, 4);
}
