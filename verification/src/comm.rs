//! The values that travel between the host and its clients.

use vstd::prelude::*;

verus! {

/// The role of a player in the game.
#[derive(Clone, Copy, Debug, PartialEq, Eq, Structural)]
pub enum Role {
    Wolf,
    Villager,
}

/// The side that won when the game is over.
#[derive(Clone, Copy, Debug, PartialEq, Eq, Structural)]
pub enum Winner {
    Wolf,
    Village,
}

/// A unique identifier for a player within a room. Identifiers are handed out
/// in increasing order, starting at zero.
#[derive(Clone, Copy, Debug, PartialEq, Eq, Structural, PartialOrd, Ord, Hash)]
pub struct PlayerId(pub usize);

impl PlayerId {
    /// The first identifier of a room.
    pub fn new() -> (id: PlayerId)
        ensures
            id.0 == 0,
    {
        PlayerId(0)
    }

    /// The identifier that follows this one.
    pub fn next(self) -> (id: PlayerId)
        requires
            self.0 < usize::MAX,
        ensures
            id.0 == self.0 + 1,
    {
        PlayerId(self.0 + 1)
    }
}

/// What went wrong in an exchange.
#[derive(Clone, Copy, Debug, PartialEq, Eq, Structural)]
pub enum Fault {
    /// A peer sent the wrong kind of message, or chose what it was not offered.
    /// The peer's turn is rejected; the game goes on.
    ProtocolViolation,
    /// The host asked the engine for something that the state of the game
    /// does not allow. This is a defect on the host's side.
    InvariantViolation,
}

/// A message from a client to the host.
#[derive(Clone, Debug, PartialEq)]
pub enum CtsMessage {
    /// The player's name. This is the first message of a connection; the host
    /// answers with the player's identifier.
    Connect(String),
    /// A vote against the player with the given identifier.
    Vote(PlayerId),
    /// A wolf's chosen victim.
    Kill(PlayerId),
    /// Acknowledges receipt of a message from the host. The host waits for this
    /// before it sends anything else, so that everything arrives in order.
    Received,
}

/// A message from the host to a client.
#[derive(Clone, Debug, PartialEq)]
pub enum StcMessage {
    /// The wolves have woken up and are going to choose a victim.
    WolvesWake,
    /// The game is entering a night.
    NightFalls,
    /// The player who died last night.
    Died(PlayerId),
    /// The players that can be voted against.
    VoteOptions(Vec<PlayerId>),
    /// The players that can be killed by a wolf.
    KillOptions(Vec<PlayerId>),
    /// The first player has voted against the second.
    AnnounceVote(PlayerId, PlayerId),
    /// There was not a majority on the vote.
    NoMajority,
    /// The player who was just voted out.
    VotedOut(PlayerId),
    /// The role assigned to the recipient.
    RoleAssigned(Role),
    /// A side has won the game.
    AnnounceWinner(Winner),
    /// The host is waiting for a player to vote.
    WaitingFor(PlayerId),
    /// A player just joined the game under the given name.
    AnnounceJoin(PlayerId, String),
    /// The identifier assigned to the recipient, who just joined.
    IdAssigned(PlayerId),
    /// The players that were in the game before the recipient joined, so that
    /// the recipient can tell players by identifier.
    Players(Vec<(PlayerId, String)>),
}

/// Whether `reply` is what answers `sent`: a vote answers a request for a
/// vote, a kill answers a request for a kill, and `Received` answers every
/// other message.
pub open spec fn answers(sent: StcMessage, reply: CtsMessage) -> bool {
    match sent {
        StcMessage::VoteOptions(_) => reply is Vote,
        StcMessage::KillOptions(_) => reply is Kill,
        _ => reply is Received,
    }
}

impl StcMessage {
    /// The message asks its recipient for a choice.
    pub open spec fn is_request(self) -> bool {
        self is VoteOptions || self is KillOptions
    }

    /// Whether the message asks its recipient for a choice.
    pub fn asks_choice(&self) -> (b: bool)
        ensures
            b == self.is_request(),
    {
        match self {
            StcMessage::VoteOptions(_) => true,
            StcMessage::KillOptions(_) => true,
            _ => false,
        }
    }

    /// Checks the reply that a client gave to this message. Any reply other
    /// than the one that the message calls for breaks the protocol.
    pub fn check_reply(&self, reply: &CtsMessage) -> (r: Result<(), Fault>)
        ensures
            r == if answers(*self, *reply) {
                Ok::<(), Fault>(())
            } else {
                Err::<(), Fault>(Fault::ProtocolViolation)
            },
    {
        let fits = match self {
            StcMessage::VoteOptions(_) => match reply {
                CtsMessage::Vote(_) => true,
                _ => false,
            },
            StcMessage::KillOptions(_) => match reply {
                CtsMessage::Kill(_) => true,
                _ => false,
            },
            _ => match reply {
                CtsMessage::Received => true,
                _ => false,
            },
        };
        if fits {
            Ok(())
        } else {
            Err(Fault::ProtocolViolation)
        }
    }
}

} // verus!
