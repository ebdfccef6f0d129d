use vstd::prelude::*;

verus! {

/// The type of the server.
#[derive(Debug, Clone, Copy, PartialEq, Eq, Structural)]
pub enum Server {
    Dedicated,
    NonDedicated,
    SourceTV,
}

/// The Operating System that the server is on.
#[derive(Debug, Clone, Copy, PartialEq, Eq, Structural)]
pub enum Environment {
    Linux,
    Windows,
    Mac,
}

/// Everything that can make a query fail.
#[derive(Debug, Clone, Copy, PartialEq, Eq, Structural)]
pub enum QueryError {
    /// The local socket could not be bound.
    SocketBind,
    /// No answer came within the timeout, after every allowed attempt.
    SocketTimeout,
    /// The payload ended before the field layout did.
    PacketUnderflow,
    /// The payload went on after the field layout ended.
    PacketOverflow,
    /// The header byte is not one that the current request allows.
    UnexpectedResponseHeader,
    /// A compressed response could not be decompressed to the announced size.
    DecompressionFailed,
    /// The CRC32 of a decompressed response differs from the announced one.
    ChecksumMismatch,
    /// PLAYERS or RULES was requested but the challenge handshake never
    /// completed: the data came before a token was sent back, or a second
    /// challenge came where the data was due.
    MissingChallenge,
    /// The simplified response was asked for without players or rules.
    MappingPrecondition,
}

/// A query response.
#[derive(Debug)]
pub struct Response {
    pub info: ServerInfo,
    pub players: Option<Vec<ServerPlayer>>,
    pub rules: Option<Vec<ServerRule>>,
}

/// General server information.
#[derive(Debug)]
pub struct ServerInfo {
    /// Protocol used by the server.
    pub protocol: u8,
    /// Name of the server.
    pub name: String,
    /// Map name.
    pub map: String,
    /// Name of the folder containing the game files.
    pub folder: String,
    /// Full name of the game.
    pub game: String,
    /// Steam application id of the game.
    pub appid: u32,
    /// Number of players on the server.
    pub players: u8,
    /// Maximum number of players the server reports it can hold.
    pub max_players: u8,
    /// Number of bots on the server.
    pub bots: u8,
    /// Dedicated, NonDedicated or SourceTV.
    pub server_type: Server,
    /// The Operating System that the server is on.
    pub environment_type: Environment,
    /// Whether the server requires a password.
    pub has_password: bool,
    /// Whether the server uses VAC.
    pub vac_secured: bool,
    /// Extra data of The Ship.
    pub the_ship: Option<TheShip>,
    /// Version of the game installed on the server.
    pub version: String,
    /// Extra data, present when the answer ends in a flag byte that is not zero.
    pub extra_data: Option<ExtraData>,
}

/// A server player.
#[derive(Debug)]
pub struct ServerPlayer {
    /// Player's name.
    pub name: String,
    /// General score.
    pub score: u32,
    /// How long they have been on the server, in seconds: the bits of an
    /// IEEE-754 single-precision number, as sent on the wire.
    pub duration_bits: u32,
    /// Only for The Ship: deaths count.
    pub deaths: Option<u32>,
    /// Only for The Ship: money amount.
    pub money: Option<u32>,
}

/// A server rule.
#[derive(Debug)]
pub struct ServerRule {
    pub name: String,
    pub value: String,
}

/// Only present for The Ship.
#[derive(Debug, Clone, Copy, PartialEq, Eq, Structural)]
pub struct TheShip {
    pub mode: u8,
    pub witnesses: u8,
    pub duration: u8,
}

/// Extra data that the server may or may not provide.
#[derive(Debug)]
pub struct ExtraData {
    /// The server's game port number.
    pub port: Option<u16>,
    /// Server's SteamID.
    pub steam_id: Option<u64>,
    /// Spectator port number for SourceTV.
    pub tv_port: Option<u16>,
    /// Name of the spectator server for SourceTV.
    pub tv_name: Option<String>,
    /// Tags that describe the game according to the server.
    pub keywords: Option<String>,
    /// The server's 64-bit GameID.
    pub game_id: Option<u64>,
}

/// The kind of a request.
#[derive(Debug, Clone, Copy, PartialEq, Eq, Structural)]
pub enum Request {
    /// Known as `A2S_INFO`.
    INFO,
    /// Known as `A2S_PLAYERS`.
    PLAYERS,
    /// Known as `A2S_RULES`.
    RULES,
}

/// The opcode byte of a request kind.
pub open spec fn opcode_of(kind: Request) -> u8 {
    match kind {
        Request::INFO => 0x54,
        Request::PLAYERS => 0x55,
        Request::RULES => 0x56,
    }
}

impl Request {
    /// The opcode byte that tags this request on the wire.
    pub fn opcode(&self) -> (r: u8)
        ensures
            r == opcode_of(*self),
    {
        match self {
            Request::INFO => 0x54,
            Request::PLAYERS => 0x55,
            Request::RULES => 0x56,
        }
    }
}

/// Supported app ids.
#[derive(Debug, Clone, Copy, PartialEq, Eq, Structural)]
pub enum App {
    /// Counter-Strike: Source
    CSS,
    /// Day of Defeat: Source
    DODS,
    /// Half-Life 2 Deathmatch
    HL2DM,
    /// Team Fortress 2
    TF2,
    /// Left 4 Dead
    L4D,
    /// Left 4 Dead 2
    L4D2,
    /// Alien Swarm
    ALIENS,
    /// Counter-Strike: Global Offensive
    CSGO,
    /// The Ship
    TS,
    /// Garry's Mod
    GM,
    /// Insurgency: Modern Infantry Combat
    INSMIC,
    /// Insurgency
    INS,
    /// Insurgency: Sandstorm
    INSS,
    /// Alien Swarm: Reactive Drop
    ASRD,
}

/// The application id of The Ship, whose answers carry extra fields.
pub const THE_SHIP_APPID: u32 = 2400;

/// The Steam application id of a known app.
pub open spec fn app_id_of(app: App) -> u32 {
    match app {
        App::CSS => 240,
        App::DODS => 300,
        App::HL2DM => 320,
        App::TF2 => 440,
        App::L4D => 500,
        App::L4D2 => 550,
        App::ALIENS => 630,
        App::CSGO => 730,
        App::TS => 2400,
        App::GM => 4000,
        App::INSMIC => 17700,
        App::INS => 222880,
        App::INSS => 581320,
        App::ASRD => 563560,
    }
}

impl App {
    /// The Steam application id of this app.
    pub fn id(&self) -> (r: u32)
        ensures
            r == app_id_of(*self),
    {
        match self {
            App::CSS => 240,
            App::DODS => 300,
            App::HL2DM => 320,
            App::TF2 => 440,
            App::L4D => 500,
            App::L4D2 => 550,
            App::ALIENS => 630,
            App::CSGO => 730,
            App::TS => 2400,
            App::GM => 4000,
            App::INSMIC => 17700,
            App::INS => 222880,
            App::INSS => 581320,
            App::ASRD => 563560,
        }
    }
}

/// What data to gather besides the server information, which is always
/// fetched.
#[derive(Debug, Clone, Copy, PartialEq, Eq, Structural)]
pub struct GatheringSettings {
    pub players: bool,
    pub rules: bool,
}

} // verus!
