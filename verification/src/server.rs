//! What a connection handler decides: how the events of one connection turn
//! into intents for the controller and notices for the clients.
//!
//! The transport itself, and the decoding of text into intents, belong to the
//! embedding program. It reports what happened and carries out what the
//! handler returns.

use vstd::prelude::*;
use vstd::string::*;
use crate::api_types::{ClientUpdate, PlayerId, PlayerIdMessage, ServerUpdate};
use crate::decimal::{decimal, decimal_string};
use crate::intercomm::ChannelUpdate;

verus! {

/// The token of the liveness-probe timeout.
pub const PING: usize = 1;

/// Milliseconds until the next liveness probe after one has been sent.
pub const PING_RESCHEDULE_MS: u64 = 5_000;

/// Hands out player ids by counting: the ids are the numbers from one on,
/// written in decimal.
pub struct PlayerIdResolver {
    next_player_id: usize,
}

/// The text of the error for a counter that cannot go on.
pub open spec fn ids_exhausted_message() -> Seq<char> {
    "player ids are used up"@
}

impl PlayerIdResolver {
    /// The number the next id is written from.
    pub closed spec fn next(&self) -> usize {
        self.next_player_id
    }

    /// A resolver whose first id is `1`.
    pub fn new() -> (r: PlayerIdResolver)
        ensures
            r.next() == 1,
    {
        PlayerIdResolver { next_player_id: 1 }
    }

    /// The id of a new connection: the counter in decimal. The counter then
    /// stands one higher, so no id is handed out twice. A counter that
    /// cannot go on is an error and stays as it is.
    pub fn resolve_id(&mut self) -> (r: Result<PlayerId, String>)
        ensures
            r is Ok <==> old(self).next() < usize::MAX,
            r matches Ok(id) ==> id@ == decimal(old(self).next() as nat) && final(self).next()
                == old(self).next() + 1,
            r matches Err(msg) ==> msg@ == ids_exhausted_message() && final(self).next() == old(
                self,
            ).next(),
    {
        if self.next_player_id == usize::MAX {
            return Err(String::from_str("player ids are used up"));
        }
        let id = decimal_string(self.next_player_id);
        self.next_player_id = self.next_player_id + 1;
        Ok(id)
    }
}

/// What the transport delivered on a connection.
#[derive(Debug, PartialEq, Eq)]
pub enum Incoming {
    /// A text payload, with what decoding made of it: an intent, or the
    /// decoder's complaint.
    Text { payload: String, decoded: Result<ClientUpdate, String> },
    /// Anything that is not text.
    Binary,
}

/// What the handler does about a payload.
#[derive(Debug, PartialEq, Eq)]
pub enum Reaction {
    /// Put this intent on the controller's queue.
    Forward(ChannelUpdate),
    /// Tell this one client what was wrong; the connection goes on.
    Diagnose(String),
    /// Fail the connection with this reason.
    Refuse(String),
}

/// Whether a client may send this intent. Connects and disconnects are made
/// by the handler from the life of the connection and are never taken from a
/// client.
pub open spec fn client_may_send(update: ClientUpdate) -> bool {
    update is PositionUpdate || update is ProjectileCreated
}

/// The text of the diagnostic for a payload that is no intent.
pub open spec fn diagnostic_message(id: Seq<char>, payload: Seq<char>, complaint: Seq<char>) -> Seq<
    char,
> {
    "unrecognized message from player ["@ + id + "]: ["@ + payload + "], error: ["@ + complaint
        + "]"@
}

/// The complaint about an intent that only the handler may make.
pub open spec fn reserved_message() -> Seq<char> {
    "message type is reserved to the server"@
}

/// The reason for refusing a payload that is not text.
pub open spec fn text_only_message() -> Seq<char> {
    "only accepting text strings"@
}

/// The reason for refusing anything on a connection that was never opened.
pub open spec fn not_open_message() -> Seq<char> {
    "connection has no player id"@
}

/// The reason for refusing a timeout that is not the liveness probe's.
pub open spec fn unknown_timeout_message() -> Seq<char> {
    "unrecognized timeout token encountered"@
}

/// Whether `reaction` is what the handler of player `id` owes to `incoming`.
/// A connection without a player refuses everything. A payload that is not
/// text is refused. Text that decodes to an intent a client may send is
/// forwarded under the player's id; any other text is answered with a
/// diagnostic to that client alone.
pub open spec fn reaction_to(id: Option<Seq<char>>, incoming: Incoming, reaction: Reaction) -> bool {
    match id {
        None => reaction matches Reaction::Refuse(reason) && reason@ == not_open_message(),
        Some(player) => match incoming {
            Incoming::Binary => reaction matches Reaction::Refuse(reason) && reason@
                == text_only_message(),
            Incoming::Text { payload, decoded } => match decoded {
                Ok(update) => if client_may_send(update) {
                    reaction matches Reaction::Forward(intent) && intent.id@ == player
                        && intent.update == update
                } else {
                    reaction matches Reaction::Diagnose(text) && text@ == diagnostic_message(
                        player,
                        payload@,
                        reserved_message(),
                    )
                },
                Err(complaint) => reaction matches Reaction::Diagnose(text) && text@
                    == diagnostic_message(player, payload@, complaint@),
            },
        },
    }
}

/// The diagnostic for a payload that is no intent.
fn diagnostic(id: &PlayerId, payload: &String, complaint: &str) -> (text: String)
    ensures
        text@ == diagnostic_message(id@, payload@, complaint@),
{
    let mut text = String::from_str("unrecognized message from player [");
    text.append(id.as_str());
    text.append("]: [");
    text.append(payload.as_str());
    text.append("], error: [");
    text.append(complaint);
    text.append("]");
    text
}

/// The handler of one connection.
#[derive(Debug)]
pub struct GameServer {
    player_id: Option<PlayerId>,
}

impl GameServer {
    /// The player on this connection, once it is open.
    pub closed spec fn player(&self) -> Option<Seq<char>> {
        match self.player_id {
            Some(id) => Some(id@),
            None => None,
        }
    }

    /// The handler of a connection that is not open yet.
    pub fn new() -> (s: GameServer)
        ensures
            s.player() is None,
    {
        GameServer { player_id: None }
    }

    /// The connection is open and its player is `id`. Returns the connect
    /// intent for the controller's queue and the notice that tells the client
    /// its id.
    pub fn on_open(&mut self, id: PlayerId) -> (r: (ChannelUpdate, ServerUpdate))
        ensures
            final(self).player() == Some(id@),
            r.0.id@ == id@,
            r.0.update == ClientUpdate::PlayerConnected(()),
            r.1 matches ServerUpdate::YourPlayerId(m) && m.player_id@ == id@,
    {
        let intent = ChannelUpdate { id: id.clone(), update: ClientUpdate::PlayerConnected(()) };
        let notice = ServerUpdate::YourPlayerId(PlayerIdMessage { player_id: id.clone() });
        self.player_id = Some(id);
        (intent, notice)
    }

    /// A payload arrived. Returns what `reaction_to` asks for.
    pub fn on_message(&self, incoming: Incoming) -> (reaction: Reaction)
        ensures
            reaction_to(self.player(), incoming, reaction),
    {
        let id = match &self.player_id {
            Some(id) => id,
            None => {
                return Reaction::Refuse(String::from_str("connection has no player id"));
            },
        };
        match incoming {
            Incoming::Binary => Reaction::Refuse(String::from_str("only accepting text strings")),
            Incoming::Text { payload, decoded } => match decoded {
                Ok(update) => match update {
                    ClientUpdate::PositionUpdate(_) => Reaction::Forward(
                        ChannelUpdate { id: id.clone(), update: update },
                    ),
                    ClientUpdate::ProjectileCreated(_) => Reaction::Forward(
                        ChannelUpdate { id: id.clone(), update: update },
                    ),
                    _ => Reaction::Diagnose(
                        diagnostic(id, &payload, "message type is reserved to the server"),
                    ),
                },
                Err(complaint) => Reaction::Diagnose(diagnostic(id, &payload, complaint.as_str())),
            },
        }
    }

    /// A timeout fired. The liveness probe's timeout asks for a probe now and
    /// the next timeout after the returned number of milliseconds; any other
    /// token is an error.
    pub fn on_timeout(&self, token: usize) -> (r: Result<u64, String>)
        ensures
            r is Ok <==> token == PING,
            r matches Ok(ms) ==> ms == PING_RESCHEDULE_MS,
            r matches Err(msg) ==> msg@ == unknown_timeout_message(),
    {
        if token == PING {
            Ok(PING_RESCHEDULE_MS)
        } else {
            Err(String::from_str("unrecognized timeout token encountered"))
        }
    }

    /// The connection closed. For a connection that was open, returns the
    /// disconnect intent for the controller's queue and the notice that
    /// tells every remaining client who left.
    pub fn on_close(&self) -> (r: Option<(ChannelUpdate, ServerUpdate)>)
        ensures
            r is Some <==> self.player() is Some,
            r matches Some(pair) ==> {
                &&& Some(pair.0.id@) == self.player()
                &&& pair.0.update == ClientUpdate::PlayerDisconnected(())
                &&& pair.1 matches ServerUpdate::PlayerDisconnected(m) && Some(m.player_id@)
                    == self.player()
            },
    {
        match &self.player_id {
            Some(id) => Some(
                (
                    ChannelUpdate { id: id.clone(), update: ClientUpdate::PlayerDisconnected(()) },
                    ServerUpdate::PlayerDisconnected(PlayerIdMessage { player_id: id.clone() }),
                ),
            ),
            None => None,
        }
    }
}

} // verus!
