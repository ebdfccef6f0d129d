use vstd::prelude::*;
use crate::bytes::le32;
use crate::parse::{
    Parsed, parse_response, response_ok, response_error, info_decodes, players_decode,
    rules_decode, is_ship, HEADER_CHALLENGE, HEADER_INFO, HEADER_PLAYERS, HEADER_RULES,
};
use crate::request::{encode_request, request_bytes};
use crate::types::{
    GatheringSettings, QueryError, Request, Response, ServerInfo, ServerPlayer,
};

verus! {

/// The token sent before the server has handed out a challenge.
pub const PLACEHOLDER_CHALLENGE: u32 = 0xFFFF_FFFF;

/// Which answer a gathering waits for.
#[derive(Debug, Clone, Copy, PartialEq, Eq, Structural)]
pub enum Stage {
    Info,
    Players,
    Rules,
}

/// The request kind that a stage sends.
pub open spec fn kind_of(stage: Stage) -> Request {
    match stage {
        Stage::Info => Request::INFO,
        Stage::Players => Request::PLAYERS,
        Stage::Rules => Request::RULES,
    }
}

/// A query in progress: what has been gathered and what comes next.
#[derive(Debug)]
pub struct Gathering {
    pub settings: GatheringSettings,
    pub stage: Stage,
    /// Whether the current stage has already resent with a real token.
    pub challenged: bool,
    pub info: Option<ServerInfo>,
    pub players: Option<Vec<ServerPlayer>>,
}

/// What to do after an answer.
#[derive(Debug)]
pub enum Step {
    /// Send these bytes and hand the answer to the new state.
    Send(Gathering, Vec<u8>),
    /// Everything asked for has been gathered.
    Done(Response),
    /// The query fails; nothing gathered so far is returned.
    Failed(QueryError),
}

impl Gathering {
    pub open spec fn wf(&self) -> bool {
        &&& self.stage == Stage::Info ==> self.info is None && self.players is None
        &&& self.stage == Stage::Players ==> self.settings.players && self.info is Some
            && self.players is None
        &&& self.stage == Stage::Rules ==> self.settings.rules && self.info is Some && (
        self.players is Some <==> self.settings.players)
    }

    /// The application id learnt from the INFO answer, 0 before it came.
    pub open spec fn spec_appid(&self) -> int {
        match self.info {
            Some(i) => i.appid as int,
            None => 0,
        }
    }
}

/// A fresh state at `stage`, which sends with the placeholder token.
pub open spec fn entered(
    g2: Gathering,
    settings: GatheringSettings,
    stage: Stage,
    b: Seq<u8>,
) -> bool {
    &&& g2.settings == settings
    &&& g2.stage == stage
    &&& !g2.challenged
    &&& b == request_bytes(kind_of(stage), PLACEHOLDER_CHALLENGE)
}

/// What follows a valid INFO answer in the INFO stage.
pub open spec fn after_info(settings: GatheringSettings, s: Seq<u8>, r: Step) -> bool {
    if settings.players {
        r matches Step::Send(g2, b) && entered(g2, settings, Stage::Players, b@) && (
        g2.info matches Some(i) && info_decodes(s, i)) && g2.players is None
    } else if settings.rules {
        r matches Step::Send(g2, b) && entered(g2, settings, Stage::Rules, b@) && (
        g2.info matches Some(i) && info_decodes(s, i)) && g2.players is None
    } else {
        r matches Step::Done(resp) && info_decodes(s, resp.info) && resp.players is None
            && resp.rules is None
    }
}

/// What follows a valid PLAYERS answer in the PLAYERS stage.
pub open spec fn after_players(g: Gathering, s: Seq<u8>, r: Step) -> bool {
    let ship = is_ship(g.spec_appid());
    if g.settings.rules {
        r matches Step::Send(g2, b) && entered(g2, g.settings, Stage::Rules, b@) && g2.info
            == g.info && (g2.players matches Some(v) && players_decode(s, ship, v@))
    } else {
        r matches Step::Done(resp) && Some(resp.info) == g.info && (resp.players matches Some(v)
            && players_decode(s, ship, v@)) && resp.rules is None
    }
}

/// What follows a valid RULES answer in the RULES stage.
pub open spec fn after_rules(g: Gathering, s: Seq<u8>, r: Step) -> bool {
    r matches Step::Done(resp) && Some(resp.info) == g.info && resp.players == g.players && (
    resp.rules matches Some(v) && rules_decode(s, v@))
}

/// Whether the answer to the request of `stage` may start with `h`: the
/// INFO request takes only an INFO answer, PLAYERS and RULES take a
/// challenge or their own data.
pub open spec fn header_expected(stage: Stage, h: u8) -> bool {
    match stage {
        Stage::Info => h == HEADER_INFO,
        Stage::Players => h == HEADER_CHALLENGE || h == HEADER_PLAYERS,
        Stage::Rules => h == HEADER_CHALLENGE || h == HEADER_RULES,
    }
}

/// What follows a valid challenge answer in the PLAYERS or RULES stage: the
/// request again with the token, unless a token was already sent back.
pub open spec fn after_challenge(g: Gathering, s: Seq<u8>, r: Step) -> bool {
    if g.challenged {
        r == Step::Failed(QueryError::MissingChallenge)
    } else {
        r matches Step::Send(g2, b) && g2.settings == g.settings && g2.stage == g.stage
            && g2.challenged && g2.info == g.info && g2.players == g.players && b@ == request_bytes(
            kind_of(g.stage),
            le32(s, 1) as u32,
        )
    }
}

/// The step taken from state `g` on the answer `s`. The header byte is
/// held against the request first; PLAYERS and RULES data is taken only
/// after the challenge token has been sent back; then the payload's layout
/// is checked.
pub open spec fn next_step(g: Gathering, s: Seq<u8>, r: Step) -> bool {
    let appid = g.spec_appid();
    if s.len() == 0 {
        r == Step::Failed(QueryError::PacketUnderflow)
    } else if !header_expected(g.stage, s[0]) {
        r == Step::Failed(QueryError::UnexpectedResponseHeader)
    } else if g.stage != Stage::Info && s[0] != HEADER_CHALLENGE && !g.challenged {
        r == Step::Failed(QueryError::MissingChallenge)
    } else if !response_ok(s, appid) {
        r == Step::Failed(response_error(s, appid))
    } else if s[0] == HEADER_CHALLENGE {
        after_challenge(g, s, r)
    } else if s[0] == HEADER_INFO {
        after_info(g.settings, s, r)
    } else if s[0] == HEADER_PLAYERS {
        after_players(g, s, r)
    } else {
        after_rules(g, s, r)
    }
}

/// Starts a query: the first state and the INFO request to send.
pub fn start(settings: GatheringSettings) -> (r: (Gathering, Vec<u8>))
    ensures
        r.0.wf(),
        r.0.info is None,
        entered(r.0, settings, Stage::Info, r.1@),
{
    let g = Gathering { settings, stage: Stage::Info, challenged: false, info: None, players: None };
    (g, encode_request(Request::INFO, PLACEHOLDER_CHALLENGE))
}

/// The state that asks for what comes after the INFO answer, or the
/// finished response when nothing else is wanted.
fn enter_after_info(settings: GatheringSettings, info: ServerInfo) -> (r: Step)
    ensures
        settings.players ==> (r matches Step::Send(g2, b) && entered(
            g2,
            settings,
            Stage::Players,
            b@,
        ) && g2.info == Some(info) && g2.players is None),
        !settings.players && settings.rules ==> (r matches Step::Send(g2, b) && entered(
            g2,
            settings,
            Stage::Rules,
            b@,
        ) && g2.info == Some(info) && g2.players is None),
        !settings.players && !settings.rules ==> (r matches Step::Done(resp) && resp.info == info
            && resp.players is None && resp.rules is None),
{
    if settings.players {
        let g = Gathering {
            settings,
            stage: Stage::Players,
            challenged: false,
            info: Some(info),
            players: None,
        };
        Step::Send(g, encode_request(Request::PLAYERS, PLACEHOLDER_CHALLENGE))
    } else if settings.rules {
        let g = Gathering {
            settings,
            stage: Stage::Rules,
            challenged: false,
            info: Some(info),
            players: None,
        };
        Step::Send(g, encode_request(Request::RULES, PLACEHOLDER_CHALLENGE))
    } else {
        Step::Done(Response { info, players: None, rules: None })
    }
}

impl Gathering {
    /// Takes the answer to the last request sent and decides the next step.
    pub fn on_payload(self, payload: &Vec<u8>) -> (r: Step)
        requires
            self.wf(),
        ensures
            next_step(self, payload@, r),
            r matches Step::Send(g2, _) ==> g2.wf(),
    {
        if payload.len() == 0 {
            return Step::Failed(QueryError::PacketUnderflow);
        }
        let h = payload[0];
        let expected = match self.stage {
            Stage::Info => h == HEADER_INFO,
            Stage::Players => h == HEADER_CHALLENGE || h == HEADER_PLAYERS,
            Stage::Rules => h == HEADER_CHALLENGE || h == HEADER_RULES,
        };
        if !expected {
            return Step::Failed(QueryError::UnexpectedResponseHeader);
        }
        if self.stage != Stage::Info && h != HEADER_CHALLENGE && !self.challenged {
            return Step::Failed(QueryError::MissingChallenge);
        }
        let appid: u32 = match &self.info {
            Some(i) => i.appid,
            None => 0,
        };
        let parsed = match parse_response(payload, appid) {
            Ok(p) => p,
            Err(e) => {
                return Step::Failed(e);
            },
        };
        let ghost g = self;
        let Gathering { settings, stage, challenged, info, players } = self;
        match parsed {
            Parsed::Challenge(t) => {
                if stage == Stage::Info {
                    Step::Failed(QueryError::UnexpectedResponseHeader)
                } else if challenged {
                    Step::Failed(QueryError::MissingChallenge)
                } else {
                    let kind = if stage == Stage::Players {
                        Request::PLAYERS
                    } else {
                        Request::RULES
                    };
                    let b = encode_request(kind, t);
                    Step::Send(Gathering { settings, stage, challenged: true, info, players }, b)
                }
            },
            Parsed::Info(i) => {
                if stage == Stage::Info {
                    enter_after_info(settings, i)
                } else {
                    Step::Failed(QueryError::UnexpectedResponseHeader)
                }
            },
            Parsed::Players(v) => {
                if stage != Stage::Players {
                    return Step::Failed(QueryError::UnexpectedResponseHeader);
                }
                match info {
                    Some(i) => {
                        if settings.rules {
                            let g2 = Gathering {
                                settings,
                                stage: Stage::Rules,
                                challenged: false,
                                info: Some(i),
                                players: Some(v),
                            };
                            Step::Send(g2, encode_request(Request::RULES, PLACEHOLDER_CHALLENGE))
                        } else {
                            Step::Done(Response { info: i, players: Some(v), rules: None })
                        }
                    },
                    None => Step::Failed(QueryError::UnexpectedResponseHeader),
                }
            },
            Parsed::Rules(v) => {
                if stage != Stage::Rules {
                    return Step::Failed(QueryError::UnexpectedResponseHeader);
                }
                match info {
                    Some(i) => Step::Done(Response { info: i, players, rules: Some(v) }),
                    None => Step::Failed(QueryError::UnexpectedResponseHeader),
                }
            },
        }
    }
}

/// With neither players nor rules wanted, the answer to the INFO request
/// ends the query: no further request is sent, and a finished response has
/// no players and no rules.
pub proof fn lemma_info_only(g: Gathering, s: Seq<u8>, r: Step)
    requires
        g.wf(),
        g.stage == Stage::Info,
        !g.settings.players,
        !g.settings.rules,
        next_step(g, s, r),
    ensures
        !(r is Send),
        r matches Step::Done(resp) ==> resp.players is None && resp.rules is None,
{
}

} // verus!
