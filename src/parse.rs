use vstd::prelude::*;
use crate::bytes::{
    nul_from, le16, le32, le64, text_at, lemma_nul_from_bounds, find_nul, read_u16,
    read_u32, read_u64, read_text,
};
use crate::types::{
    Server, Environment, QueryError, ServerInfo, ServerPlayer, ServerRule, TheShip, ExtraData,
    THE_SHIP_APPID,
};

verus! {

/// Header byte of a challenge response.
pub const HEADER_CHALLENGE: u8 = 0x41;
/// Header byte of an INFO response.
pub const HEADER_INFO: u8 = 0x49;
/// Header byte of a PLAYERS response.
pub const HEADER_PLAYERS: u8 = 0x44;
/// Header byte of a RULES response.
pub const HEADER_RULES: u8 = 0x45;

/// A decoded response payload, by its header byte.
#[derive(Debug)]
pub enum Parsed {
    Challenge(u32),
    Info(ServerInfo),
    Players(Vec<ServerPlayer>),
    Rules(Vec<ServerRule>),
}

/// Whether answers for this application id carry The Ship's extra fields.
pub open spec fn is_ship(appid: int) -> bool {
    appid == THE_SHIP_APPID as int
}

pub open spec fn server_of(b: u8) -> Server {
    if b == 0x64 {
        Server::Dedicated
    } else if b == 0x6c {
        Server::NonDedicated
    } else {
        Server::SourceTV
    }
}

pub open spec fn environment_of(b: u8) -> Environment {
    if b == 0x6c {
        Environment::Linux
    } else if b == 0x77 {
        Environment::Windows
    } else {
        Environment::Mac
    }
}

/// The error for a payload whose layout ends at `end`, once its header is
/// known to be right.
pub open spec fn layout_error(s: Seq<u8>, end: int) -> QueryError {
    if end > s.len() {
        QueryError::PacketUnderflow
    } else {
        QueryError::PacketOverflow
    }
}

/// The error for a payload whose header is not `header`, or whose layout
/// does not end at `end`.
pub open spec fn payload_error(s: Seq<u8>, header: u8, end: int) -> QueryError {
    if s.len() == 0 {
        QueryError::PacketUnderflow
    } else if s[0] != header {
        QueryError::UnexpectedResponseHeader
    } else {
        layout_error(s, end)
    }
}

// ---- challenge ----

pub open spec fn challenge_ok(s: Seq<u8>) -> bool {
    s.len() == 5 && s[0] == HEADER_CHALLENGE
}

/// Parses a challenge response: the header and a 32-bit token.
pub fn parse_challenge(s: &Vec<u8>) -> (r: Result<u32, QueryError>)
    ensures
        r is Ok <==> challenge_ok(s@),
        r matches Ok(t) ==> t as int == le32(s@, 1),
        r matches Err(e) ==> e == payload_error(s@, HEADER_CHALLENGE, 5),
{
    let n = s.len();
    if n == 0 {
        return Err(QueryError::PacketUnderflow);
    }
    if s[0] != HEADER_CHALLENGE {
        return Err(QueryError::UnexpectedResponseHeader);
    }
    if n < 5 {
        return Err(QueryError::PacketUnderflow);
    }
    if n > 5 {
        return Err(QueryError::PacketOverflow);
    }
    Ok(read_u32(s, 1))
}

// ---- info ----

pub open spec fn info_name_end(s: Seq<u8>) -> int {
    nul_from(s, 2)
}

pub open spec fn info_map_end(s: Seq<u8>) -> int {
    nul_from(s, info_name_end(s) + 1)
}

pub open spec fn info_folder_end(s: Seq<u8>) -> int {
    nul_from(s, info_map_end(s) + 1)
}

pub open spec fn info_game_end(s: Seq<u8>) -> int {
    nul_from(s, info_folder_end(s) + 1)
}

pub open spec fn info_appid(s: Seq<u8>) -> int {
    le16(s, info_game_end(s) + 1)
}

pub open spec fn info_version_start(s: Seq<u8>) -> int {
    info_game_end(s) + 10 + if is_ship(info_appid(s)) {
        3int
    } else {
        0int
    }
}

pub open spec fn info_version_end(s: Seq<u8>) -> int {
    nul_from(s, info_version_start(s))
}

/// Where the extra data flag stands; the payload may end just before it.
pub open spec fn info_edf_pos(s: Seq<u8>) -> int {
    info_version_end(s) + 1
}

pub open spec fn info_edf(s: Seq<u8>) -> u8 {
    s[info_edf_pos(s)]
}

pub open spec fn edf_has(s: Seq<u8>, bit: u8) -> bool {
    info_edf(s) & bit != 0
}

pub open spec fn info_port_pos(s: Seq<u8>) -> int {
    info_edf_pos(s) + 1
}

pub open spec fn info_steam_pos(s: Seq<u8>) -> int {
    info_port_pos(s) + if edf_has(s, 0x80) {
        2int
    } else {
        0int
    }
}

pub open spec fn info_tv_pos(s: Seq<u8>) -> int {
    info_steam_pos(s) + if edf_has(s, 0x10) {
        8int
    } else {
        0int
    }
}

pub open spec fn info_tv_name_end(s: Seq<u8>) -> int {
    nul_from(s, info_tv_pos(s) + 2)
}

pub open spec fn info_keywords_pos(s: Seq<u8>) -> int {
    if edf_has(s, 0x40) {
        info_tv_name_end(s) + 1
    } else {
        info_tv_pos(s)
    }
}

pub open spec fn info_keywords_end(s: Seq<u8>) -> int {
    nul_from(s, info_keywords_pos(s))
}

pub open spec fn info_game_id_pos(s: Seq<u8>) -> int {
    if edf_has(s, 0x20) {
        info_keywords_end(s) + 1
    } else {
        info_keywords_pos(s)
    }
}

/// Where the INFO layout ends.
pub open spec fn info_end(s: Seq<u8>) -> int {
    if info_edf_pos(s) < s.len() {
        info_game_id_pos(s) + if edf_has(s, 0x01) {
            8int
        } else {
            0int
        }
    } else {
        info_edf_pos(s)
    }
}

/// Whether `s` is a complete INFO payload.
pub open spec fn info_ok(s: Seq<u8>) -> bool {
    s.len() > 0 && s[0] == HEADER_INFO && info_end(s) == s.len()
}

/// The fields of the extra data, each read only when its flag is set.
pub open spec fn extra_decodes(s: Seq<u8>, ed: ExtraData) -> bool {
    &&& ed.port == if edf_has(s, 0x80) {
        Some(le16(s, info_port_pos(s)) as u16)
    } else {
        None
    }
    &&& ed.steam_id == if edf_has(s, 0x10) {
        Some(le64(s, info_steam_pos(s)) as u64)
    } else {
        None
    }
    &&& ed.tv_port == if edf_has(s, 0x40) {
        Some(le16(s, info_tv_pos(s)) as u16)
    } else {
        None
    }
    &&& (ed.tv_name matches Some(t) <==> edf_has(s, 0x40))
    &&& (ed.tv_name matches Some(t) ==> t@ == text_at(
        s,
        info_tv_pos(s) + 2,
        info_tv_name_end(s),
    ))
    &&& (ed.keywords matches Some(t) <==> edf_has(s, 0x20))
    &&& (ed.keywords matches Some(t) ==> t@ == text_at(
        s,
        info_keywords_pos(s),
        info_keywords_end(s),
    ))
    &&& ed.game_id == if edf_has(s, 0x01) {
        Some(le64(s, info_game_id_pos(s)) as u64)
    } else {
        None
    }
}

/// The server information that an INFO payload holds.
pub open spec fn info_decodes(s: Seq<u8>, info: ServerInfo) -> bool {
    let g = info_game_end(s);
    &&& info.protocol == s[1]
    &&& info.name@ == text_at(s, 2, info_name_end(s))
    &&& info.map@ == text_at(s, info_name_end(s) + 1, info_map_end(s))
    &&& info.folder@ == text_at(s, info_map_end(s) + 1, info_folder_end(s))
    &&& info.game@ == text_at(s, info_folder_end(s) + 1, g)
    &&& info.appid as int == info_appid(s)
    &&& info.players == s[g + 3]
    &&& info.max_players == s[g + 4]
    &&& info.bots == s[g + 5]
    &&& info.server_type == server_of(s[g + 6])
    &&& info.environment_type == environment_of(s[g + 7])
    &&& info.has_password == (s[g + 8] != 0)
    &&& info.vac_secured == (s[g + 9] != 0)
    &&& info.the_ship == if is_ship(info_appid(s)) {
        Some(TheShip { mode: s[g + 10], witnesses: s[g + 11], duration: s[g + 12] })
    } else {
        None
    }
    &&& info.version@ == text_at(s, info_version_start(s), info_version_end(s))
    &&& (info.extra_data is Some <==> info_edf_pos(s) < s.len() && info_edf(s) != 0)
    &&& (info.extra_data matches Some(ed) ==> extra_decodes(s, ed))
}

proof fn lemma_info_positions(s: Seq<u8>)
    ensures
        2 <= info_name_end(s),
        info_name_end(s) + 1 <= info_map_end(s),
        info_map_end(s) + 1 <= info_folder_end(s),
        info_folder_end(s) + 1 <= info_game_end(s),
        info_game_end(s) + 10 <= info_version_start(s),
        info_version_start(s) <= info_version_end(s),
        info_edf_pos(s) <= info_end(s),
        info_edf_pos(s) < s.len() ==> info_port_pos(s) <= info_steam_pos(s) <= info_tv_pos(s)
            <= info_keywords_pos(s) <= info_game_id_pos(s) <= info_end(s),
        edf_has(s, 0x40) ==> info_tv_pos(s) + 2 <= info_tv_name_end(s),
        info_keywords_pos(s) <= info_keywords_end(s),
{
    lemma_nul_from_bounds(s, 2);
    lemma_nul_from_bounds(s, info_name_end(s) + 1);
    lemma_nul_from_bounds(s, info_map_end(s) + 1);
    lemma_nul_from_bounds(s, info_folder_end(s) + 1);
    lemma_nul_from_bounds(s, info_version_start(s));
    lemma_nul_from_bounds(s, info_tv_pos(s) + 2);
    lemma_nul_from_bounds(s, info_keywords_pos(s));
}

/// Parses an INFO payload, header byte included.
pub fn parse_info(s: &Vec<u8>) -> (r: Result<ServerInfo, QueryError>)
    ensures
        r is Ok <==> info_ok(s@),
        r matches Ok(info) ==> info_decodes(s@, info),
        r matches Err(e) ==> e == payload_error(s@, HEADER_INFO, info_end(s@)),
{
    let n = s.len();
    if n == 0 {
        return Err(QueryError::PacketUnderflow);
    }
    if s[0] != HEADER_INFO {
        return Err(QueryError::UnexpectedResponseHeader);
    }
    proof {
        lemma_info_positions(s@);
    }
    if n < 2 {
        return Err(QueryError::PacketUnderflow);
    }
    let e1 = find_nul(s, 2);
    if e1 >= n {
        return Err(QueryError::PacketUnderflow);
    }
    let e2 = find_nul(s, e1 + 1);
    if e2 >= n {
        return Err(QueryError::PacketUnderflow);
    }
    let e3 = find_nul(s, e2 + 1);
    if e3 >= n {
        return Err(QueryError::PacketUnderflow);
    }
    let g = find_nul(s, e3 + 1);
    if g >= n || n - g < 10 {
        return Err(QueryError::PacketUnderflow);
    }
    let protocol = s[1];
    let name = read_text(s, 2, e1);
    let map = read_text(s, e1 + 1, e2);
    let folder = read_text(s, e2 + 1, e3);
    let game = read_text(s, e3 + 1, g);
    let appid = read_u16(s, g + 1) as u32;
    let players = s[g + 3];
    let max_players = s[g + 4];
    let bots = s[g + 5];
    let type_byte = s[g + 6];
    let server_type = if type_byte == 0x64 {
        Server::Dedicated
    } else if type_byte == 0x6c {
        Server::NonDedicated
    } else {
        Server::SourceTV
    };
    let env_byte = s[g + 7];
    let environment_type = if env_byte == 0x6c {
        Environment::Linux
    } else if env_byte == 0x77 {
        Environment::Windows
    } else {
        Environment::Mac
    };
    let has_password = s[g + 8] != 0;
    let vac_secured = s[g + 9] != 0;
    let mut vs: usize = g + 10;
    let mut the_ship: Option<TheShip> = None;
    if appid == THE_SHIP_APPID {
        if n - g < 13 {
            return Err(QueryError::PacketUnderflow);
        }
        the_ship = Some(TheShip { mode: s[g + 10], witnesses: s[g + 11], duration: s[g + 12] });
        vs = g + 13;
    }
    assert(vs as int == info_version_start(s@));
    let ve = find_nul(s, vs);
    if ve >= n {
        return Err(QueryError::PacketUnderflow);
    }
    let version = read_text(s, vs, ve);
    let edf_pos = ve + 1;
    let mut extra_data: Option<ExtraData> = None;
    if edf_pos < n {
        let edf = s[edf_pos];
        let mut p: usize = edf_pos + 1;
        let mut port: Option<u16> = None;
        if edf & 0x80 != 0 {
            if n - p < 2 {
                return Err(QueryError::PacketUnderflow);
            }
            port = Some(read_u16(s, p));
            p = p + 2;
        }
        assert(p as int == info_steam_pos(s@));
        let mut steam_id: Option<u64> = None;
        if edf & 0x10 != 0 {
            if n - p < 8 {
                return Err(QueryError::PacketUnderflow);
            }
            steam_id = Some(read_u64(s, p));
            p = p + 8;
        }
        assert(p as int == info_tv_pos(s@));
        let mut tv_port: Option<u16> = None;
        let mut tv_name: Option<String> = None;
        if edf & 0x40 != 0 {
            if n - p < 2 {
                return Err(QueryError::PacketUnderflow);
            }
            tv_port = Some(read_u16(s, p));
            let te = find_nul(s, p + 2);
            if te >= n {
                return Err(QueryError::PacketUnderflow);
            }
            tv_name = Some(read_text(s, p + 2, te));
            p = te + 1;
        }
        assert(p as int == info_keywords_pos(s@));
        let mut keywords: Option<String> = None;
        if edf & 0x20 != 0 {
            let ke = find_nul(s, p);
            if ke >= n {
                return Err(QueryError::PacketUnderflow);
            }
            keywords = Some(read_text(s, p, ke));
            p = ke + 1;
        }
        assert(p as int == info_game_id_pos(s@));
        let mut game_id: Option<u64> = None;
        if edf & 0x01 != 0 {
            if n - p < 8 {
                return Err(QueryError::PacketUnderflow);
            }
            game_id = Some(read_u64(s, p));
            p = p + 8;
        }
        assert(p as int == info_end(s@));
        if p < n {
            return Err(QueryError::PacketOverflow);
        }
        if edf != 0 {
            extra_data = Some(ExtraData { port, steam_id, tv_port, tv_name, keywords, game_id });
        }
    }
    Ok(
        ServerInfo {
            protocol,
            name,
            map,
            folder,
            game,
            appid,
            players,
            max_players,
            bots,
            server_type,
            environment_type,
            has_password,
            vac_secured,
            the_ship,
            version,
            extra_data,
        },
    )
}

// ---- players ----

/// Where the name of the player record at `p` ends.
pub open spec fn player_name_end(s: Seq<u8>, p: int) -> int {
    nul_from(s, p + 1)
}

/// Where the player record at `p` ends: index byte, name, score, duration,
/// and for The Ship deaths and money.
pub open spec fn player_next(s: Seq<u8>, p: int, ship: bool) -> int {
    player_name_end(s, p) + 9 + if ship {
        8int
    } else {
        0int
    }
}

/// Where the `i`-th player record starts.
pub open spec fn player_start(s: Seq<u8>, ship: bool, i: nat) -> int
    decreases i,
{
    if i == 0 {
        2
    } else {
        player_next(s, player_start(s, ship, (i - 1) as nat), ship)
    }
}

/// Where the PLAYERS layout ends.
pub open spec fn players_end(s: Seq<u8>, ship: bool) -> int {
    if s.len() < 2 {
        2
    } else {
        player_start(s, ship, s[1] as nat)
    }
}

pub open spec fn players_ok(s: Seq<u8>, ship: bool) -> bool {
    s.len() > 0 && s[0] == HEADER_PLAYERS && players_end(s, ship) == s.len()
}

/// The player that the record at `p` holds.
pub open spec fn player_decodes(s: Seq<u8>, ship: bool, p: int, pl: ServerPlayer) -> bool {
    let e = player_name_end(s, p);
    &&& pl.name@ == text_at(s, p + 1, e)
    &&& pl.score as int == le32(s, e + 1)
    &&& pl.duration_bits as int == le32(s, e + 5)
    &&& pl.deaths == if ship {
        Some(le32(s, e + 9) as u32)
    } else {
        None
    }
    &&& pl.money == if ship {
        Some(le32(s, e + 13) as u32)
    } else {
        None
    }
}

/// The players that a PLAYERS payload holds, in wire order.
pub open spec fn players_decode(s: Seq<u8>, ship: bool, v: Seq<ServerPlayer>) -> bool {
    &&& v.len() == s[1] as int
    &&& forall|i: int|
        0 <= i < v.len() ==> player_decodes(s, ship, #[trigger] player_start(s, ship, i as nat), v[i])
}

proof fn lemma_player_start_grows(s: Seq<u8>, ship: bool, i: nat, j: nat)
    requires
        i <= j,
    ensures
        player_start(s, ship, i) + (j - i) <= player_start(s, ship, j),
        2 <= player_start(s, ship, i),
    decreases j,
{
    if j > 0 {
        lemma_nul_from_bounds(s, player_start(s, ship, (j - 1) as nat) + 1);
        if i < j {
            lemma_player_start_grows(s, ship, i, (j - 1) as nat);
        }
        lemma_player_start_grows(s, ship, (j - 1) as nat, (j - 1) as nat);
    }
}

/// Parses a PLAYERS payload, header byte included. The Ship's extra fields
/// are read when `appid` is its id.
pub fn parse_players(s: &Vec<u8>, appid: u32) -> (r: Result<Vec<ServerPlayer>, QueryError>)
    ensures
        r is Ok <==> players_ok(s@, is_ship(appid as int)),
        r matches Ok(v) ==> players_decode(s@, is_ship(appid as int), v@),
        r matches Err(e) ==> e == payload_error(
            s@,
            HEADER_PLAYERS,
            players_end(s@, is_ship(appid as int)),
        ),
{
    let ghost ship = is_ship(appid as int);
    let n = s.len();
    if n == 0 {
        return Err(QueryError::PacketUnderflow);
    }
    if s[0] != HEADER_PLAYERS {
        return Err(QueryError::UnexpectedResponseHeader);
    }
    if n < 2 {
        return Err(QueryError::PacketUnderflow);
    }
    let count = s[1];
    let extra: usize = if appid == THE_SHIP_APPID {
        8
    } else {
        0
    };
    let mut v: Vec<ServerPlayer> = Vec::new();
    let mut p: usize = 2;
    let mut i: u8 = 0;
    while i < count
        invariant
            n == s@.len(),
            n >= 2,
            s@[0] == HEADER_PLAYERS,
            count == s@[1],
            ship == is_ship(appid as int),
            extra == (if ship { 8int } else { 0int }),
            i <= count,
            p <= n,
            p as int == player_start(s@, ship, i as nat),
            v@.len() == i,
            forall|k: int|
                0 <= k < i ==> player_decodes(
                    s@,
                    ship,
                    #[trigger] player_start(s@, ship, k as nat),
                    v@[k],
                ),
        decreases count - i,
    {
        proof {
            lemma_nul_from_bounds(s@, p + 1);
            lemma_player_start_grows(s@, ship, (i + 1) as nat, count as nat);
            assert(player_start(s@, ship, (i + 1) as nat) == player_next(s@, p as int, ship));
        }
        if p >= n {
            return Err(QueryError::PacketUnderflow);
        }
        let e = find_nul(s, p + 1);
        if e >= n || n - e < 9 + extra {
            return Err(QueryError::PacketUnderflow);
        }
        let name = read_text(s, p + 1, e);
        let score = read_u32(s, e + 1);
        let duration_bits = read_u32(s, e + 5);
        let mut deaths: Option<u32> = None;
        let mut money: Option<u32> = None;
        if appid == THE_SHIP_APPID {
            deaths = Some(read_u32(s, e + 9));
            money = Some(read_u32(s, e + 13));
        }
        let pl = ServerPlayer { name, score, duration_bits, deaths, money };
        assert(player_decodes(s@, ship, p as int, pl));
        v.push(pl);
        p = e + 9 + extra;
        i = i + 1;
    }
    if p < n {
        return Err(QueryError::PacketOverflow);
    }
    Ok(v)
}

// ---- rules ----

pub open spec fn rule_name_end(s: Seq<u8>, p: int) -> int {
    nul_from(s, p)
}

pub open spec fn rule_value_end(s: Seq<u8>, p: int) -> int {
    nul_from(s, rule_name_end(s, p) + 1)
}

/// Where the `i`-th rule record starts.
pub open spec fn rule_start(s: Seq<u8>, i: nat) -> int
    decreases i,
{
    if i == 0 {
        3
    } else {
        rule_value_end(s, rule_start(s, (i - 1) as nat)) + 1
    }
}

pub open spec fn rules_count(s: Seq<u8>) -> nat {
    le16(s, 1) as nat
}

/// Where the RULES layout ends.
pub open spec fn rules_end(s: Seq<u8>) -> int {
    if s.len() < 3 {
        3
    } else {
        rule_start(s, rules_count(s))
    }
}

pub open spec fn rules_ok(s: Seq<u8>) -> bool {
    s.len() > 0 && s[0] == HEADER_RULES && rules_end(s) == s.len()
}

/// The rule that the record at `p` holds.
pub open spec fn rule_decodes(s: Seq<u8>, p: int, rule: ServerRule) -> bool {
    &&& rule.name@ == text_at(s, p, rule_name_end(s, p))
    &&& rule.value@ == text_at(s, rule_name_end(s, p) + 1, rule_value_end(s, p))
}

/// The rules that a RULES payload holds, in wire order.
pub open spec fn rules_decode(s: Seq<u8>, v: Seq<ServerRule>) -> bool {
    &&& v.len() == rules_count(s)
    &&& forall|i: int| 0 <= i < v.len() ==> rule_decodes(s, #[trigger] rule_start(s, i as nat), v[i])
}

proof fn lemma_rule_start_grows(s: Seq<u8>, i: nat, j: nat)
    requires
        i <= j,
    ensures
        rule_start(s, i) + (j - i) <= rule_start(s, j),
        3 <= rule_start(s, i),
    decreases j,
{
    if j > 0 {
        let p = rule_start(s, (j - 1) as nat);
        lemma_nul_from_bounds(s, p);
        lemma_nul_from_bounds(s, rule_name_end(s, p) + 1);
        if i < j {
            lemma_rule_start_grows(s, i, (j - 1) as nat);
        }
        lemma_rule_start_grows(s, (j - 1) as nat, (j - 1) as nat);
    }
}

/// Parses a RULES payload, header byte included.
pub fn parse_rules(s: &Vec<u8>) -> (r: Result<Vec<ServerRule>, QueryError>)
    ensures
        r is Ok <==> rules_ok(s@),
        r matches Ok(v) ==> rules_decode(s@, v@),
        r matches Err(e) ==> e == payload_error(s@, HEADER_RULES, rules_end(s@)),
{
    let n = s.len();
    if n == 0 {
        return Err(QueryError::PacketUnderflow);
    }
    if s[0] != HEADER_RULES {
        return Err(QueryError::UnexpectedResponseHeader);
    }
    if n < 3 {
        return Err(QueryError::PacketUnderflow);
    }
    let count = read_u16(s, 1);
    let mut v: Vec<ServerRule> = Vec::new();
    let mut p: usize = 3;
    let mut i: u16 = 0;
    while i < count
        invariant
            n == s@.len(),
            n >= 3,
            s@[0] == HEADER_RULES,
            count as int == rules_count(s@),
            i <= count,
            p <= n,
            p as int == rule_start(s@, i as nat),
            v@.len() == i,
            forall|k: int|
                0 <= k < i ==> rule_decodes(s@, #[trigger] rule_start(s@, k as nat), v@[k]),
        decreases count - i,
    {
        proof {
            lemma_nul_from_bounds(s@, p as int);
            lemma_nul_from_bounds(s@, rule_name_end(s@, p as int) + 1);
            lemma_rule_start_grows(s@, (i + 1) as nat, count as nat);
            assert(rule_start(s@, (i + 1) as nat) == rule_value_end(s@, p as int) + 1);
        }
        let ne = find_nul(s, p);
        if ne >= n {
            return Err(QueryError::PacketUnderflow);
        }
        let ve = find_nul(s, ne + 1);
        if ve >= n {
            return Err(QueryError::PacketUnderflow);
        }
        let name = read_text(s, p, ne);
        let value = read_text(s, ne + 1, ve);
        let rule = ServerRule { name, value };
        assert(rule_decodes(s@, p as int, rule));
        v.push(rule);
        p = ve + 1;
        i = i + 1;
    }
    if p < n {
        return Err(QueryError::PacketOverflow);
    }
    Ok(v)
}

// ---- any response ----

/// Whether `s` is a complete payload of one of the four kinds.
pub open spec fn response_ok(s: Seq<u8>, appid: int) -> bool {
    s.len() > 0 && if s[0] == HEADER_CHALLENGE {
        challenge_ok(s)
    } else if s[0] == HEADER_INFO {
        info_ok(s)
    } else if s[0] == HEADER_PLAYERS {
        players_ok(s, is_ship(appid))
    } else if s[0] == HEADER_RULES {
        rules_ok(s)
    } else {
        false
    }
}

/// What a payload decodes to, selected by its header byte.
pub open spec fn response_decodes(s: Seq<u8>, appid: int, p: Parsed) -> bool {
    match p {
        Parsed::Challenge(t) => s[0] == HEADER_CHALLENGE && t as int == le32(s, 1),
        Parsed::Info(info) => s[0] == HEADER_INFO && info_decodes(s, info),
        Parsed::Players(v) => s[0] == HEADER_PLAYERS && players_decode(s, is_ship(appid), v@),
        Parsed::Rules(v) => s[0] == HEADER_RULES && rules_decode(s, v@),
    }
}

/// The error for a payload that is not a complete one.
pub open spec fn response_error(s: Seq<u8>, appid: int) -> QueryError {
    if s.len() == 0 {
        QueryError::PacketUnderflow
    } else if s[0] == HEADER_CHALLENGE {
        payload_error(s, HEADER_CHALLENGE, 5)
    } else if s[0] == HEADER_INFO {
        payload_error(s, HEADER_INFO, info_end(s))
    } else if s[0] == HEADER_PLAYERS {
        payload_error(s, HEADER_PLAYERS, players_end(s, is_ship(appid)))
    } else if s[0] == HEADER_RULES {
        payload_error(s, HEADER_RULES, rules_end(s))
    } else {
        QueryError::UnexpectedResponseHeader
    }
}

/// Parses a payload by its leading header byte. `appid` is the application
/// id that a prior INFO answer gave; it decides The Ship's player fields.
pub fn parse_response(s: &Vec<u8>, appid: u32) -> (r: Result<Parsed, QueryError>)
    ensures
        r is Ok <==> response_ok(s@, appid as int),
        r matches Ok(p) ==> response_decodes(s@, appid as int, p),
        r matches Err(e) ==> e == response_error(s@, appid as int),
{
    if s.len() == 0 {
        return Err(QueryError::PacketUnderflow);
    }
    let h = s[0];
    if h == HEADER_CHALLENGE {
        match parse_challenge(s) {
            Ok(t) => Ok(Parsed::Challenge(t)),
            Err(e) => Err(e),
        }
    } else if h == HEADER_INFO {
        match parse_info(s) {
            Ok(i) => Ok(Parsed::Info(i)),
            Err(e) => Err(e),
        }
    } else if h == HEADER_PLAYERS {
        match parse_players(s, appid) {
            Ok(v) => Ok(Parsed::Players(v)),
            Err(e) => Err(e),
        }
    } else if h == HEADER_RULES {
        match parse_rules(s) {
            Ok(v) => Ok(Parsed::Rules(v)),
            Err(e) => Err(e),
        }
    } else {
        Err(QueryError::UnexpectedResponseHeader)
    }
}

} // verus!
