//! The client's side of the game: what a player's program keeps of the game,
//! and how it answers each message of the host.
//!
//! Every message of the host is answered: a request for a choice by the
//! choice, anything else by `Received`.

use crate::comm::{CtsMessage, Fault, PlayerId, Role, StcMessage, Winner};
use vstd::prelude::*;

verus! {

/// The kind of choice that the host asks for.
#[derive(Clone, Copy, Debug, PartialEq, Eq, Structural)]
pub enum Choice {
    /// Whom to vote out.
    Vote,
    /// Whom to kill.
    Kill,
}

/// What a message tells the user. `me` says that the message is about the
/// user's own player.
#[derive(Clone, Copy, Debug, PartialEq, Eq, Structural)]
pub enum Notice {
    WolvesWake,
    NightFalls,
    Died { id: PlayerId, me: bool },
    Voted { voter: PlayerId, target: PlayerId },
    NoMajority,
    VotedOut { id: PlayerId, me: bool },
    Role(Role),
    WaitingFor { id: PlayerId, me: bool },
    Joined(PlayerId),
    Roster,
    /// The message has no place in a running game.
    Unhandled,
}

/// What the client does about a message.
#[derive(Debug, PartialEq)]
pub enum Step {
    /// Show the notice and answer `Received`.
    Ack(Notice),
    /// Let the user choose one of the options and answer with
    /// [`answer`].
    Choose { kind: Choice, options: Vec<PlayerId> },
    /// Show the winner, answer `Received` and stop: the game is over.
    Finished(Winner),
}

/// The user's player.
#[derive(Debug, PartialEq)]
pub struct Player {
    /// The identifier that the host assigned.
    pub id: PlayerId,
    /// The name chosen by the user.
    pub name: String,
    /// The player's role, once the host has told it.
    pub role: Option<Role>,
    /// Whether the player has died.
    pub dead: bool,
    /// The names of the other players by identifier, each identifier once.
    pub players: Vec<(PlayerId, String)>,
}

/// Some entry of the list has the identifier.
pub open spec fn knows(list: Seq<(PlayerId, String)>, id: PlayerId) -> bool {
    exists|k: int| 0 <= k < list.len() && (#[trigger] list[k]).0 == id
}

/// The place of the entry with the identifier.
pub open spec fn place_of(list: Seq<(PlayerId, String)>, id: PlayerId) -> int {
    choose|k: int| 0 <= k < list.len() && (#[trigger] list[k]).0 == id
}

/// No identifier has two entries.
pub open spec fn distinct(list: Seq<(PlayerId, String)>) -> bool {
    forall|i: int, j: int| 0 <= i < j < list.len() ==> list[i].0 != list[j].0
}

/// The list once it holds `name` for `id`: in place of the name that it held
/// for `id`, or else at its end.
pub open spec fn learned(list: Seq<(PlayerId, String)>, id: PlayerId, name: String) -> Seq<
    (PlayerId, String),
> {
    if knows(list, id) {
        list.update(place_of(list, id), (id, name))
    } else {
        list.push((id, name))
    }
}

/// The list once it holds every entry of `more`, taken in order.
pub open spec fn learned_all(list: Seq<(PlayerId, String)>, more: Seq<(PlayerId, String)>) -> Seq<
    (PlayerId, String),
>
    decreases more.len(),
{
    if more.len() == 0 {
        list
    } else {
        learned(learned_all(list, more.drop_last()), more.last().0, more.last().1)
    }
}

/// The message that answers a request for a choice, given the number that the
/// user entered: the options are numbered from one.
pub open spec fn answer_spec(kind: Choice, options: Seq<PlayerId>, number: int) -> Option<
    CtsMessage,
> {
    if 1 <= number <= options.len() {
        Some(
            match kind {
                Choice::Vote => CtsMessage::Vote(options[number - 1]),
                Choice::Kill => CtsMessage::Kill(options[number - 1]),
            },
        )
    } else {
        None
    }
}

/// What the client does about a message, and what its player is afterwards.
pub open spec fn handled(before: Player, msg: StcMessage, step: Step, after: Player) -> bool {
    &&& after.id == before.id
    &&& after.name == before.name
    &&& after.role == match msg {
        StcMessage::RoleAssigned(role) => Some(role),
        _ => before.role,
    }
    &&& after.dead == match msg {
        StcMessage::Died(id) => before.dead || id == before.id,
        StcMessage::VotedOut(id) => before.dead || id == before.id,
        _ => before.dead,
    }
    &&& after.players@ == match msg {
        StcMessage::AnnounceJoin(id, name) => learned(before.players@, id, name),
        StcMessage::Players(list) => learned_all(before.players@, list@),
        _ => before.players@,
    }
    &&& step == match msg {
        StcMessage::WolvesWake => Step::Ack(Notice::WolvesWake),
        StcMessage::NightFalls => Step::Ack(Notice::NightFalls),
        StcMessage::Died(id) => Step::Ack(Notice::Died { id, me: id == before.id }),
        StcMessage::VoteOptions(options) => Step::Choose { kind: Choice::Vote, options },
        StcMessage::KillOptions(options) => Step::Choose { kind: Choice::Kill, options },
        StcMessage::AnnounceVote(voter, target) => Step::Ack(Notice::Voted { voter, target }),
        StcMessage::NoMajority => Step::Ack(Notice::NoMajority),
        StcMessage::VotedOut(id) => Step::Ack(Notice::VotedOut { id, me: id == before.id }),
        StcMessage::RoleAssigned(role) => Step::Ack(Notice::Role(role)),
        StcMessage::AnnounceWinner(side) => Step::Finished(side),
        StcMessage::WaitingFor(id) => Step::Ack(Notice::WaitingFor { id, me: id == before.id }),
        StcMessage::AnnounceJoin(id, _) => Step::Ack(Notice::Joined(id)),
        StcMessage::IdAssigned(_) => Step::Ack(Notice::Unhandled),
        StcMessage::Players(_) => Step::Ack(Notice::Roster),
    }
}

/// Learning a name keeps the identifiers distinct.
pub proof fn lemma_learned_distinct(list: Seq<(PlayerId, String)>, id: PlayerId, name: String)
    requires
        distinct(list),
    ensures
        distinct(learned(list, id, name)),
        knows(learned(list, id, name), id),
        learned(list, id, name)[place_of(learned(list, id, name), id)].1 == name,
{
    let after = learned(list, id, name);
    if knows(list, id) {
        let k = place_of(list, id);
        assert(after[k].0 == id);
    } else {
        assert(after[list.len() as int].0 == id);
    }
    let p = place_of(after, id);
    assert(after[p].0 == id);
    if knows(list, id) {
        let k = place_of(list, id);
        if p != k {
            assert(list[p].0 == id);
        }
    } else {
        if p != list.len() {
            assert(list[p].0 == id);
        }
    }
}

/// The message that answers a request for a choice, given the number that the
/// user entered; `None` for a number that names no option.
pub fn answer(kind: Choice, options: &Vec<PlayerId>, number: usize) -> (r: Option<CtsMessage>)
    ensures
        r == answer_spec(kind, options@, number as int),
{
    if number >= 1 && number <= options.len() {
        let id = options[number - 1];
        Some(
            match kind {
                Choice::Vote => CtsMessage::Vote(id),
                Choice::Kill => CtsMessage::Kill(id),
            },
        )
    } else {
        None
    }
}

/// The text that `str::trim` of std gives for a text: the text without the
/// white space at its two ends.
pub uninterp spec fn trimmed(text: Seq<char>) -> Seq<char>;

/// The number that `str::parse::<usize>` of std reads from a text, if it
/// reads one.
pub uninterp spec fn parsed(text: Seq<char>) -> Option<usize>;

/// Calls `str::trim` of std, which returns the part of the text between the
/// white space at its ends. The result is that of `trimmed`; nothing else is
/// claimed of it.
#[verifier::external_body]
fn trim<'a>(text: &'a str) -> (r: &'a str)
    ensures
        r@ == trimmed(text@),
{
    text.trim()
}

/// Calls `str::parse::<usize>` of std, which reads a decimal number from the
/// whole text and fails on anything else. The result is that of `parsed`,
/// with `None` for a failure; nothing else is claimed of it.
#[verifier::external_body]
fn parse_number(text: &str) -> (r: Option<usize>)
    ensures
        r == parsed(text@),
{
    match text.parse::<usize>() {
        Ok(number) => Some(number),
        Err(_) => None,
    }
}

/// The name that a line of input gives: the line without the white space at
/// its ends. A line that holds nothing else gives no name.
pub fn read_name(line: &str) -> (r: Option<String>)
    ensures
        r is Some <==> trimmed(line@).len() > 0,
        r matches Some(name) ==> name@ == trimmed(line@),
{
    let name = trim(line);
    if name.is_empty() {
        None
    } else {
        Some(name.to_owned())
    }
}

/// The message that answers a request for a choice, given the line that the
/// user entered: the number of an option, counted from one, with or without
/// white space around it. Any other line gives no message.
pub fn read_choice(kind: Choice, options: &Vec<PlayerId>, line: &str) -> (r: Option<CtsMessage>)
    ensures
        r == match parsed(trimmed(line@)) {
            Some(number) => answer_spec(kind, options@, number as int),
            None => None,
        },
{
    match parse_number(trim(line)) {
        Some(number) => answer(kind, options, number),
        None => None,
    }
}

impl Step {
    /// Whether the step is answered with `Received`.
    pub open spec fn acknowledges(self) -> bool {
        !(self is Choose)
    }

    /// The acknowledgement that answers the step; `None` where the answer is
    /// the user's choice.
    pub fn reply(&self) -> (r: Option<CtsMessage>)
        ensures
            r == if self.acknowledges() {
                Some(CtsMessage::Received)
            } else {
                None
            },
    {
        match self {
            Step::Choose { .. } => None,
            _ => Some(CtsMessage::Received),
        }
    }
}

impl Player {
    /// The list of names holds each identifier once.
    pub open spec fn wf(&self) -> bool {
        distinct(self.players@)
    }

    /// Whether the list of names holds each identifier once. A player that
    /// was made by [`Player::new`] and changed by the steps of this module
    /// always does.
    pub fn is_wf(&self) -> (b: bool)
        ensures
            b == self.wf(),
    {
        let mut j: usize = 0;
        while j < self.players.len()
            invariant
                j <= self.players.len(),
                forall|a: int, b: int|
                    0 <= a < b < j ==> self.players@[a].0 != self.players@[b].0,
            decreases self.players.len() - j,
        {
            let mut i: usize = 0;
            while i < j
                invariant
                    i <= j < self.players.len(),
                    forall|a: int| 0 <= a < i ==> self.players@[a].0 != self.players@[j as int].0,
                decreases j - i,
            {
                if self.players[i].0 == self.players[j].0 {
                    proof {
                        assert(self.players@[i as int].0 == self.players@[j as int].0);
                    }
                    return false;
                }
                i += 1;
            }
            j += 1;
        }
        true
    }

    /// The player that the host has taken in, given the host's answer to
    /// `Connect`. The answer must be the player's identifier.
    pub fn new(name: String, first: StcMessage) -> (r: Result<Player, Fault>)
        ensures
            match first {
                StcMessage::IdAssigned(id) => {
                    &&& r matches Ok(player)
                    &&& player.wf()
                    &&& player.id == id
                    &&& player.name == name
                    &&& player.role is None
                    &&& !player.dead
                    &&& player.players@.len() == 0
                },
                _ => r is Err && r->Err_0 == Fault::ProtocolViolation,
            },
    {
        match first {
            StcMessage::IdAssigned(id) => Ok(
                Player { id, name, role: None, dead: false, players: Vec::new() },
            ),
            _ => Err(Fault::ProtocolViolation),
        }
    }

    /// The place of the entry with the identifier, if there is one.
    pub fn find(&self, id: PlayerId) -> (r: Option<usize>)
        ensures
            r matches Some(k) ==> k < self.players@.len() && self.players@[k as int].0 == id,
            r is Some <==> knows(self.players@, id),
            self.wf() && r is Some ==> r->Some_0 == place_of(self.players@, id),
    {
        let mut i: usize = 0;
        while i < self.players.len()
            invariant
                i <= self.players.len(),
                forall|k: int| 0 <= k < i ==> self.players@[k].0 != id,
            decreases self.players.len() - i,
        {
            if self.players[i].0 == id {
                proof {
                    let p = place_of(self.players@, id);
                    if self.wf() && p != i {
                        assert(self.players@[p].0 == self.players@[i as int].0);
                    }
                }
                return Some(i);
            }
            i += 1;
        }
        None
    }

    /// The name of the player with the identifier, if it is known.
    pub fn name_of(&self, id: PlayerId) -> (r: Option<&String>)
        requires
            self.wf(),
        ensures
            r is Some <==> knows(self.players@, id),
            r matches Some(name) ==> *name == self.players@[place_of(self.players@, id)].1,
    {
        match self.find(id) {
            Some(k) => Some(&self.players[k].1),
            None => None,
        }
    }

    /// Notes the name of the player with the identifier, in place of an
    /// earlier name of that player if there is one.
    pub fn learn(&mut self, id: PlayerId, name: String)
        requires
            old(self).wf(),
        ensures
            final(self).wf(),
            final(self).players@ == learned(old(self).players@, id, name),
            final(self).id == old(self).id,
            final(self).name == old(self).name,
            final(self).role == old(self).role,
            final(self).dead == old(self).dead,
    {
        proof {
            lemma_learned_distinct(self.players@, id, name);
        }
        match self.find(id) {
            Some(k) => {
                self.players[k] = (id, name);
                proof {
                    assert(self.players@ =~= learned(old(self).players@, id, name));
                }
            },
            None => {
                self.players.push((id, name));
            },
        }
    }

    /// Takes in a message of the host and says what to do about it.
    pub fn handle_message(&mut self, msg: StcMessage) -> (step: Step)
        requires
            old(self).wf(),
        ensures
            final(self).wf(),
            handled(*old(self), msg, step, *final(self)),
    {
        match msg {
            StcMessage::WolvesWake => Step::Ack(Notice::WolvesWake),
            StcMessage::NightFalls => Step::Ack(Notice::NightFalls),
            StcMessage::Died(id) => {
                let me = id == self.id;
                if me {
                    self.dead = true;
                }
                Step::Ack(Notice::Died { id, me })
            },
            StcMessage::VoteOptions(options) => Step::Choose { kind: Choice::Vote, options },
            StcMessage::KillOptions(options) => Step::Choose { kind: Choice::Kill, options },
            StcMessage::AnnounceVote(voter, target) => Step::Ack(Notice::Voted { voter, target }),
            StcMessage::NoMajority => Step::Ack(Notice::NoMajority),
            StcMessage::VotedOut(id) => {
                let me = id == self.id;
                if me {
                    self.dead = true;
                }
                Step::Ack(Notice::VotedOut { id, me })
            },
            StcMessage::RoleAssigned(role) => {
                self.role = Some(role);
                Step::Ack(Notice::Role(role))
            },
            StcMessage::AnnounceWinner(side) => Step::Finished(side),
            StcMessage::WaitingFor(id) => Step::Ack(Notice::WaitingFor { id, me: id == self.id }),
            StcMessage::AnnounceJoin(id, name) => {
                self.learn(id, name);
                Step::Ack(Notice::Joined(id))
            },
            StcMessage::IdAssigned(_) => Step::Ack(Notice::Unhandled),
            StcMessage::Players(list) => {
                let mut i: usize = 0;
                while i < list.len()
                    invariant
                        i <= list.len(),
                        self.wf(),
                        self.players@ == learned_all(old(self).players@, list@.take(i as int)),
                        self.id == old(self).id,
                        self.name == old(self).name,
                        self.role == old(self).role,
                        self.dead == old(self).dead,
                    decreases list.len() - i,
                {
                    proof {
                        assert(list@.take(i + 1).drop_last() =~= list@.take(i as int));
                    }
                    let id = list[i].0;
                    let name = list[i].1.clone();
                    self.learn(id, name);
                    i += 1;
                }
                proof {
                    assert(list@.take(list.len() as int) =~= list@);
                }
                Step::Ack(Notice::Roster)
            },
        }
    }
}

} // verus!
