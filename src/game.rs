use vstd::prelude::*;
use crate::types::{QueryError, Server, ServerPlayer, ServerRule};
use crate::types::Response as ValveResponse;

verus! {

/// A player, without the fields that only some games send.
#[derive(Debug)]
pub struct Player {
    pub name: String,
    pub score: u32,
    /// The connected time in seconds, as the bits of an IEEE-754
    /// single-precision number.
    pub duration_bits: u32,
}

/// Whether `q` is the simplified form of `p`.
pub open spec fn player_maps(p: ServerPlayer, q: Player) -> bool {
    q.name@ == p.name@ && q.score == p.score && q.duration_bits == p.duration_bits
}

impl Player {
    pub fn from_valve_response(player: &ServerPlayer) -> (r: Player)
        ensures
            player_maps(*player, r),
    {
        Player {
            name: player.name.clone(),
            score: player.score,
            duration_bits: player.duration_bits,
        }
    }
}

/// A game-agnostic response: the server information without the protocol
/// version, the extra data flattened, the players and the rules.
#[derive(Debug)]
pub struct Response {
    pub name: String,
    pub map: String,
    pub game: String,
    pub players: u8,
    pub players_details: Vec<Player>,
    pub max_players: u8,
    pub bots: u8,
    pub server_type: Server,
    pub has_password: bool,
    pub vac_secured: bool,
    pub version: String,
    pub port: Option<u16>,
    pub steam_id: Option<u64>,
    pub tv_port: Option<u16>,
    pub tv_name: Option<String>,
    pub keywords: Option<String>,
    pub rules: Vec<ServerRule>,
}

/// Whether `g` is the simplified form of `r`, whose players and rules are
/// both present.
pub open spec fn response_maps(r: ValveResponse, g: Response) -> bool {
    let info = r.info;
    &&& g.name == info.name
    &&& g.map == info.map
    &&& g.game == info.game
    &&& g.players == info.players
    &&& g.max_players == info.max_players
    &&& g.bots == info.bots
    &&& g.server_type == info.server_type
    &&& g.has_password == info.has_password
    &&& g.vac_secured == info.vac_secured
    &&& g.version == info.version
    &&& match info.extra_data {
        None => g.port is None && g.steam_id is None && g.tv_port is None && g.tv_name is None
            && g.keywords is None,
        Some(ed) => g.port == ed.port && g.steam_id == ed.steam_id && g.tv_port == ed.tv_port
            && g.tv_name == ed.tv_name && g.keywords == ed.keywords,
    }
    &&& r.players matches Some(ps) && g.players_details@.len() == ps@.len() && forall|i: int|
        0 <= i < ps@.len() ==> player_maps(#[trigger] ps@[i], g.players_details@[i])
    &&& r.rules == Some(g.rules)
}

impl Response {
    /// Flattens a response into its game-agnostic form. Fails with
    /// `MappingPrecondition` when players or rules were not gathered.
    pub fn new_from_valve_response(response: ValveResponse) -> (r: Result<Response, QueryError>)
        ensures
            r is Ok <==> response.players is Some && response.rules is Some,
            r matches Ok(g) ==> response_maps(response, g),
            r matches Err(e) ==> e == QueryError::MappingPrecondition,
    {
        let ghost orig = response;
        let ValveResponse { info, players, rules } = response;
        let players = match players {
            Some(p) => p,
            None => {
                return Err(QueryError::MappingPrecondition);
            },
        };
        let rules = match rules {
            Some(r) => r,
            None => {
                return Err(QueryError::MappingPrecondition);
            },
        };
        let mut details: Vec<Player> = Vec::new();
        let mut i: usize = 0;
        while i < players.len()
            invariant
                i <= players@.len(),
                details@.len() == i,
                forall|k: int| 0 <= k < i ==> player_maps(#[trigger] players@[k], details@[k]),
            decreases players@.len() - i,
        {
            details.push(Player::from_valve_response(&players[i]));
            i = i + 1;
        }
        let (port, steam_id, tv_port, tv_name, keywords) = match info.extra_data {
            None => (None, None, None, None, None),
            Some(ed) => (ed.port, ed.steam_id, ed.tv_port, ed.tv_name, ed.keywords),
        };
        Ok(
            Response {
                name: info.name,
                map: info.map,
                game: info.game,
                players: info.players,
                players_details: details,
                max_players: info.max_players,
                bots: info.bots,
                server_type: info.server_type,
                has_password: info.has_password,
                vac_secured: info.vac_secured,
                version: info.version,
                port,
                steam_id,
                tv_port,
                tv_name,
                keywords,
                rules,
            },
        )
    }
}

/// The simplified response keeps the players of a fully gathered response:
/// as many, with the same names, in the same order.
pub proof fn lemma_players_kept(r: ValveResponse, g: Response)
    requires
        r.players is Some,
        r.rules is Some,
        response_maps(r, g),
    ensures
        g.players_details@.len() == r.players.unwrap()@.len(),
        forall|i: int|
            0 <= i < g.players_details@.len() ==> (#[trigger] g.players_details@[i]).name@
                == r.players.unwrap()@[i].name@,
{
    let ps = r.players.unwrap();
    assert forall|i: int| 0 <= i < g.players_details@.len() implies (
    #[trigger] g.players_details@[i]).name@ == r.players.unwrap()@[i].name@ by {
        assert(player_maps(ps@[i], g.players_details@[i]));
    }
}

} // verus!
