//! The messages between clients, connections and rooms, as far as they hold
//! no geometry, and the rules of the handshake.

use crate::ball::{Ball, BallTickResult, HitPair, MAX_RALLIES};
use crate::player::ClientId;
use crate::room::MatchTime;
use vstd::prelude::*;
use vstd::string::StrSliceExecFns;

verus! {

/// The protocol version that this server speaks.
pub const PROTOCOL_VERSION: u32 = 9;

/// The longest name a client may take, in characters.
pub const MAX_NAME_LEN: usize = 20;

/// A client has joined the room.
#[derive(Copy, Clone)]
pub struct Join<'a> {
    pub client_id: ClientId,
    pub name: &'a str,
}

/// What a newcomer is told of a player who was there before.
pub struct PlayerAlreadyJoinedData<'a> {
    pub spawn_msg: Join<'a>,
}

/// What a newcomer is told of the room.
pub struct JoinedRoom<'a> {
    pub client_id: ClientId,
    pub host_id: ClientId,
    pub already_joined: &'a [PlayerAlreadyJoinedData<'a>],
    pub settings: UpdateSettings,
}

/// Which side of a connection speaks the older protocol.
#[derive(Debug, Copy, Clone, PartialEq, Eq, Structural)]
pub enum OutdatedReason {
    Client,
    Server,
}

/// A request to join under a name.
pub struct JoinRequest {
    pub name: String,
}

/// The settings a host may change before a match.
#[derive(Debug, Copy, Clone, PartialEq, Eq, Structural)]
pub struct UpdateSettings {
    pub balls: u8,
    pub power_ups: bool,
    pub match_time: MatchTime,
    pub spin_towards_center: bool,
}

/// What a client may ask of the lobby.
pub enum LobbyMessageFromClient {
    CreateRoom,
    JoinRoom(String),
    ListRooms,
}

/// What a client opens a connection with: its protocol version and the
/// name it wants to go by.
pub enum LoginMessageFromClient {
    SetName(u32, String),
}

/// Internal join data for player.
#[derive(Debug)]
pub struct JoinData {
    pub id: ClientId,
}

/// What the server answers to a login.
#[derive(Debug, Copy, Clone, PartialEq, Eq, Structural)]
pub enum LoginReply {
    /// The name is taken on; the client enters the lobby.
    Ack,
    /// The name is refused; the client may send another.
    NameError,
    /// The versions differ; the connection is closed.
    Outdated(OutdatedReason),
}

/// Whether `c` may stand in a name: a digit, a Latin letter or a space.
pub open spec fn name_char(c: char) -> bool {
    ('0' <= c && c <= '9') || ('A' <= c && c <= 'Z') || ('a' <= c && c <= 'z') || c == ' '
}

/// Whether `name` is acceptable: one to twenty characters, each a digit, a
/// Latin letter or a space.
pub open spec fn name_ok(name: Seq<char>) -> bool {
    &&& 1 <= name.len() <= MAX_NAME_LEN
    &&& forall|i: int| 0 <= i < name.len() ==> name_char(#[trigger] name[i])
}

/// The answer to a login that names `version` and `name`. The version is
/// judged first: a name is only looked at when the versions agree.
pub open spec fn login_reply(version: u32, name: Seq<char>) -> LoginReply {
    if version < PROTOCOL_VERSION {
        LoginReply::Outdated(OutdatedReason::Client)
    } else if version > PROTOCOL_VERSION {
        LoginReply::Outdated(OutdatedReason::Server)
    } else if name_ok(name) {
        LoginReply::Ack
    } else {
        LoginReply::NameError
    }
}

/// Whether `c` may stand in a name.
pub fn is_name_char(c: char) -> (ok: bool)
    ensures
        ok == name_char(c),
{
    ('0' <= c && c <= '9') || ('A' <= c && c <= 'Z') || ('a' <= c && c <= 'z') || c == ' '
}

/// Whether `name` is acceptable as a player's name.
pub fn is_valid_name(name: &str) -> (ok: bool)
    ensures
        ok == name_ok(name@),
{
    let len = name.unicode_len();
    if len < 1 || len > MAX_NAME_LEN {
        return false;
    }
    let mut i: usize = 0;
    while i < len
        invariant
            len == name@.len(),
            i <= len,
            forall|j: int| 0 <= j < i ==> name_char(#[trigger] name@[j]),
        decreases len - i,
    {
        if !is_name_char(name.get_char(i)) {
            return false;
        }
        i += 1;
    }
    true
}

impl LoginMessageFromClient {
    /// The answer that this login gets.
    pub fn reply(&self) -> (reply: LoginReply)
        ensures
            reply == match *self {
                LoginMessageFromClient::SetName(version, name) => login_reply(version, name@),
            },
    {
        match self {
            LoginMessageFromClient::SetName(version, name) => {
                if *version < PROTOCOL_VERSION {
                    LoginReply::Outdated(OutdatedReason::Client)
                } else if *version > PROTOCOL_VERSION {
                    LoginReply::Outdated(OutdatedReason::Server)
                } else if is_valid_name(name.as_str()) {
                    LoginReply::Ack
                } else {
                    LoginReply::NameError
                }
            },
        }
    }
}

/// The flag a ball's report carries for what its step ended in.
pub open spec fn sync_flags(result: BallTickResult) -> u8 {
    match result {
        BallTickResult::Nothing => 0,
        BallTickResult::Bounce => 1,
        BallTickResult::Outside => 2,
    }
}

/// A ball's number and its rally count in one byte.
pub open spec fn pack_index_rally(idx: u8, rally: u8) -> u8 {
    (idx << 4) | rally
}

/// A ball number below sixteen and a rally count within bounds come out of
/// the byte as they went in.
pub proof fn lemma_index_rally_unpack(idx: u8, rally: u8)
    requires
        idx < 16,
        rally <= MAX_RALLIES,
    ensures
        pack_index_rally(idx, rally) >> 4 == idx,
        pack_index_rally(idx, rally) & 15 == rally,
{
    assert(idx < 16 && rally <= 5 ==> ((idx << 4) | rally) >> 4 == idx) by (bit_vector);
    assert(idx < 16 && rally <= 5 ==> ((idx << 4) | rally) & 15 == rally) by (bit_vector);
}

/// The report on one ball that a sync carries.
pub struct BallSync<B: Copy> {
    pub index_rally_packed: u8,
    pub hit_pair: HitPair,
    pub flags: u8,
    pub characteristics: B,
}

impl<B: Copy> BallSync<B> {
    /// The report on the present state of ball number `idx`.
    pub fn new(idx: u8, flags: u8, ball: &Ball<B>) -> (sync: Self)
        ensures
            sync.index_rally_packed == pack_index_rally(idx, ball@.last().rally),
            sync.hit_pair@ == ball@.last().hit_pair,
            sync.flags == flags,
            sync.characteristics == ball@.last().base,
    {
        Self {
            index_rally_packed: (idx << 4) | ball.last_rally(),
            hit_pair: ball.last_hit_pair(),
            flags,
            characteristics: ball.characteristics(),
        }
    }

    /// The report on ball number `idx` after a step that ended in `result`.
    pub fn after_tick(idx: u8, result: BallTickResult, ball: &Ball<B>) -> (sync: Self)
        ensures
            sync.index_rally_packed == pack_index_rally(idx, ball@.last().rally),
            sync.hit_pair@ == ball@.last().hit_pair,
            sync.flags == sync_flags(result),
            sync.characteristics == ball@.last().base,
    {
        let flags: u8 = match result {
            BallTickResult::Nothing => 0,
            BallTickResult::Bounce => 1,
            BallTickResult::Outside => 2,
        };
        Self::new(idx, flags, ball)
    }
}

} // verus!
