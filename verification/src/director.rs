//! The order of the host's messages once the roles are drawn.
//!
//! The director owns the game and says, one directive at a time, what the
//! host sends next. The host carries out the directive and comes back with
//! the reply, if the directive asked one player for a choice. Nights and days
//! follow each other until a side has won:
//!
//! - night: `NightFalls` and `WolvesWake` to all, then `KillOptions` to the
//!   wolf, whose reply ends the night;
//! - day: `Died` to all; then for each living player in turn `WaitingFor` to
//!   all, `VoteOptions` to the player, and `AnnounceVote` to all if the reply
//!   is accepted; then `VotedOut` or `NoMajority` to all;
//! - at the end `AnnounceWinner` to all, and nothing after it.

use crate::comm::{CtsMessage, Fault, PlayerId, StcMessage, Winner};
use crate::poll::{accepted_vote, Poll};
use crate::server::{
    accepted_kill, ascending_ids, day_closed, has_player, lemma_select_ids, lemma_slot_unique,
    select_ids, slot_of, with_dead, with_lost, Audience, DayReport, Game, NightStep, Phase, Player,
};
use crate::tally::Verdict;
use vstd::prelude::*;

verus! {

/// What the host does next.
#[derive(Debug, PartialEq)]
pub enum Directive {
    /// Send the message to every player of [`Director::send_all`], one after
    /// the other, waiting for the receipt of each.
    Broadcast(StcMessage),
    /// Send the message to the player and hand its reply to the next step.
    Ask { to: PlayerId, msg: StcMessage },
    /// The game is over: send nothing more.
    Done,
}

/// How far the director has come.
#[derive(Clone, Copy, Debug, PartialEq, Eq, Structural)]
pub enum Stage {
    /// Night is about to fall.
    Dusk,
    /// `NightFalls` has been broadcast.
    NightFallen,
    /// `WolvesWake` has been broadcast.
    WolvesAwake,
    /// The wolf has been asked for its victim.
    AwaitingKill,
    /// The voter at this place of the poll is to be called next; past the
    /// last voter, the votes are to be counted.
    Calling(usize),
    /// `WaitingFor` has been broadcast for the voter at this place.
    Called(usize),
    /// The voter at this place has been asked for its vote.
    AwaitingVote(usize),
    /// The outcome of the vote has been broadcast.
    Judged,
    /// The winner has been broadcast.
    Over,
}

/// The game together with the place in its course.
#[derive(Debug, PartialEq)]
pub struct Director {
    pub game: Game,
    /// The poll of the day that goes on, or of the last one.
    pub poll: Poll,
    pub stage: Stage,
}

/// Every candidate is a player that has not died.
pub open spec fn candidates_alive(players: Seq<Player>, candidates: Seq<PlayerId>) -> bool {
    forall|k: int|
        0 <= k < candidates.len() ==> has_player(players, #[trigger] candidates[k])
            && !players[slot_of(players, candidates[k])].dead
}

/// The two polls hold the same candidates and the same choices.
pub open spec fn same_poll(a: Poll, b: Poll) -> bool {
    a.candidates@ == b.candidates@ && a.choices@ == b.choices@
}

/// The broadcast that tells the outcome of a vote.
pub open spec fn verdict_message(v: Verdict) -> StcMessage {
    match v {
        Verdict::Eliminated(t) => StcMessage::VotedOut(t),
        Verdict::NoMajority => StcMessage::NoMajority,
    }
}

/// The wolf is asked for its victim, or the night cannot be played.
///
/// A wolf that is gone has lost and one with nobody left to kill has won:
/// the winner is broadcast. Otherwise the wolf gets the living players other
/// than itself as its options.
pub open spec fn hunts(before: Director, d: Directive, after: Director) -> bool {
    let players = before.game.players@;
    let w = before.game.wolf_slot();
    &&& after.game.players == before.game.players
    &&& after.game.next_id == before.game.next_id
    &&& same_poll(after.poll, before.poll)
    &&& if !players[w].active() {
        &&& d == Directive::Broadcast(StcMessage::AnnounceWinner(Winner::Village))
        &&& after.game.phase == Phase::GameOver(Winner::Village)
        &&& after.stage == Stage::Over
    } else if select_ids(players, Audience::Prey).len() == 0 {
        &&& d == Directive::Broadcast(StcMessage::AnnounceWinner(Winner::Wolf))
        &&& after.game.phase == Phase::GameOver(Winner::Wolf)
        &&& after.stage == Stage::Over
    } else {
        &&& d matches Directive::Ask { to, msg }
        &&& to == players[w].id
        &&& msg matches StcMessage::KillOptions(list)
        &&& list@ == select_ids(players, Audience::Prey)
        &&& after.game.phase == Phase::Night
        &&& after.stage == Stage::AwaitingKill
    }
}

/// The wolf's reply ends the night.
///
/// The kill of one of its options makes the victim die: the death is
/// broadcast and a poll opens among the living. Any other reply forfeits the
/// game: the wolf is out and the village's win is broadcast.
pub open spec fn kills(before: Director, reply: CtsMessage, d: Directive, after: Director) -> bool {
    let players = before.game.players@;
    &&& after.game.next_id == before.game.next_id
    &&& match accepted_kill(players, reply) {
        Some(id) => {
            &&& d == Directive::Broadcast(StcMessage::Died(id))
            &&& after.game.players@ == with_dead(players, slot_of(players, id))
            &&& after.game.phase == Phase::Day
            &&& after.stage == Stage::Calling(0)
            &&& after.poll.candidates@ == select_ids(after.game.players@, Audience::Living)
            &&& after.poll.ballots_spec().len() == 0
        },
        None => {
            &&& d == Directive::Broadcast(StcMessage::AnnounceWinner(Winner::Village))
            &&& after.game.players@ == with_dead(players, before.game.wolf_slot())
            &&& after.game.phase == Phase::GameOver(Winner::Village)
            &&& after.stage == Stage::Over
            &&& same_poll(after.poll, before.poll)
        },
    }
}

/// The voter at place `k` of `poll` is called, or, past the last voter, the
/// votes are counted, the verdict is carried out and its outcome broadcast.
pub open spec fn calls(game: Game, poll: Poll, k: int, d: Directive, after: Director) -> bool {
    &&& same_poll(after.poll, poll)
    &&& if k < poll.candidates@.len() {
        &&& d == Directive::Broadcast(StcMessage::WaitingFor(poll.candidates@[k]))
        &&& after.game == game
        &&& after.stage == Stage::Called(k as usize)
    } else {
        &&& d == Directive::Broadcast(verdict_message(poll.verdict()))
        &&& exists|report: DayReport|
            report.verdict == poll.verdict() && #[trigger] day_closed(
                game,
                poll.verdict(),
                Ok(report),
                after.game,
            )
        &&& after.stage == Stage::Judged
    }
}

/// The reply of the voter at place `k` ends its turn.
///
/// A vote against one of the candidates takes the voter's slot and is
/// broadcast. Any other reply, or none, leaves the slot as it was, and the
/// next voter is called at once.
pub open spec fn votes(
    before: Director,
    k: int,
    reply: Option<CtsMessage>,
    d: Directive,
    after: Director,
) -> bool {
    let voter = before.poll.candidates@[k];
    let vote = match reply {
        Some(r) => accepted_vote(before.poll.candidates@, r),
        None => None,
    };
    match vote {
        Some(t) => {
            &&& d == Directive::Broadcast(StcMessage::AnnounceVote(voter, t))
            &&& after.stage == Stage::Calling((k + 1) as usize)
            &&& after.game == before.game
            &&& after.poll.candidates@ == before.poll.candidates@
            &&& after.poll.choices@ == before.poll.choices@.update(k, Some(t))
        },
        None => calls(before.game, before.poll, k + 1, d, after),
    }
}

/// What one step does: the directive that it gives, and the director after
/// it, for the director before it and the reply to its last directive.
pub open spec fn stepped(
    before: Director,
    reply: Option<CtsMessage>,
    d: Directive,
    after: Director,
) -> bool {
    match before.stage {
        Stage::Dusk => {
            &&& d == Directive::Broadcast(StcMessage::NightFalls)
            &&& after.stage == Stage::NightFallen
            &&& after.game == before.game
            &&& same_poll(after.poll, before.poll)
        },
        Stage::NightFallen => {
            &&& d == Directive::Broadcast(StcMessage::WolvesWake)
            &&& after.stage == Stage::WolvesAwake
            &&& after.game == before.game
            &&& same_poll(after.poll, before.poll)
        },
        Stage::WolvesAwake => hunts(before, d, after),
        Stage::AwaitingKill => match reply {
            Some(r) => kills(before, r, d, after),
            // Without a reply the wolf is asked again, unless it is gone.
            None => hunts(before, d, after),
        },
        Stage::Calling(k) => calls(before.game, before.poll, k as int, d, after),
        Stage::Called(k) => {
            &&& d matches Directive::Ask { to, msg }
            &&& to == before.poll.candidates@[k as int]
            &&& msg matches StcMessage::VoteOptions(list)
            &&& list@ == before.poll.candidates@
            &&& after.stage == Stage::AwaitingVote(k)
            &&& after.game == before.game
            &&& same_poll(after.poll, before.poll)
        },
        Stage::AwaitingVote(k) => votes(before, k as int, reply, d, after),
        Stage::Judged => {
            &&& after.game == before.game
            &&& same_poll(after.poll, before.poll)
            &&& match before.game.phase {
                Phase::GameOver(side) => d == Directive::Broadcast(
                    StcMessage::AnnounceWinner(side),
                ) && after.stage == Stage::Over,
                _ => d == Directive::Broadcast(StcMessage::NightFalls) && after.stage
                    == Stage::NightFallen,
            }
        },
        Stage::Over => {
            &&& d == Directive::Done
            &&& after.stage == Stage::Over
            &&& after.game == before.game
            &&& same_poll(after.poll, before.poll)
        },
    }
}

impl Director {
    /// The director is sound: its game and its poll are, the stage fits the
    /// phase of the game, and while a day goes on the poll's candidates are
    /// players that have not died.
    pub open spec fn wf(&self) -> bool {
        &&& self.game.wf()
        &&& self.poll.wf()
        &&& match self.stage {
            Stage::Dusk | Stage::NightFallen | Stage::WolvesAwake | Stage::AwaitingKill =>
                self.game.phase == Phase::Night,
            Stage::Calling(k) => {
                &&& self.game.phase == Phase::Day
                &&& k <= self.poll.candidates@.len()
                &&& candidates_alive(self.game.players@, self.poll.candidates@)
            },
            Stage::Called(k) | Stage::AwaitingVote(k) => {
                &&& self.game.phase == Phase::Day
                &&& k < self.poll.candidates@.len()
                &&& candidates_alive(self.game.players@, self.poll.candidates@)
            },
            Stage::Judged => self.game.phase == Phase::Night || self.game.phase is GameOver,
            Stage::Over => self.game.phase is GameOver,
        }
    }

    /// Whether every candidate of the poll is a player that has not died.
    fn has_candidates_alive(&self) -> (b: bool)
        requires
            self.game.wf(),
        ensures
            b == candidates_alive(self.game.players@, self.poll.candidates@),
    {
        let mut k: usize = 0;
        while k < self.poll.candidates.len()
            invariant
                k <= self.poll.candidates.len(),
                self.game.wf(),
                forall|j: int|
                    0 <= j < k ==> has_player(
                        self.game.players@,
                        #[trigger] self.poll.candidates@[j],
                    ) && !self.game.players@[slot_of(
                        self.game.players@,
                        self.poll.candidates@[j],
                    )].dead,
            decreases self.poll.candidates.len() - k,
        {
            match self.game.find(self.poll.candidates[k]) {
                Some(i) => {
                    proof {
                        lemma_slot_unique(self.game.players@, i as int);
                    }
                    if self.game.players[i].dead {
                        return false;
                    }
                },
                None => {
                    return false;
                },
            }
            k += 1;
        }
        true
    }

    /// Whether the director is sound. A director that was made by
    /// [`Director::begin`] and changed by the steps of this module always is.
    pub fn is_wf(&self) -> (b: bool)
        ensures
            b == self.wf(),
    {
        if !self.game.is_wf() || !self.poll.is_wf() {
            return false;
        }
        let voters = self.poll.candidates.len();
        match self.stage {
            Stage::Dusk | Stage::NightFallen | Stage::WolvesAwake | Stage::AwaitingKill => {
                self.game.phase == Phase::Night
            },
            Stage::Calling(k) => self.game.phase == Phase::Day && k <= voters
                && self.has_candidates_alive(),
            Stage::Called(k) | Stage::AwaitingVote(k) => self.game.phase == Phase::Day && k
                < voters && self.has_candidates_alive(),
            Stage::Judged => match self.game.phase {
                Phase::Night => true,
                Phase::GameOver(_) => true,
                _ => false,
            },
            Stage::Over => match self.game.phase {
                Phase::GameOver(_) => true,
                _ => false,
            },
        }
    }

    /// Takes over a game whose roles have just been drawn, before its first
    /// night. A game in any other phase is handed back.
    pub fn begin(game: Game) -> (r: Result<Director, Game>)
        requires
            game.wf(),
        ensures
            r is Ok <==> game.phase == Phase::Night,
            r matches Ok(director) ==> director.wf() && director.game == game && director.stage
                == Stage::Dusk && director.poll.candidates@.len() == 0,
            r matches Err(back) ==> back == game,
    {
        match game.phase {
            Phase::Night => {},
            _ => {
                return Err(game);
            },
        }
        let poll = Poll { candidates: Vec::new(), choices: Vec::new() };
        Ok(Director { game, poll, stage: Stage::Dusk })
    }

    /// The players that a broadcast goes to: every player whose session
    /// works, dead or alive, in the order in which they joined.
    pub fn send_all(&self) -> (out: Vec<PlayerId>)
        ensures
            out@ == select_ids(self.game.players@, Audience::Everyone),
    {
        self.game.send_all()
    }

    /// The side that has won, once the game is over.
    pub fn winner(&self) -> (r: Option<Winner>)
        ensures
            r == match self.game.phase {
                Phase::GameOver(side) => Some(side),
                _ => None,
            },
    {
        self.game.winner()
    }

    /// Records that the session of a player has failed, as
    /// [`Game::session_lost`] does. The course of the game goes on from where
    /// it stands.
    pub fn session_lost(&mut self, id: PlayerId) -> (found: bool)
        requires
            old(self).wf(),
        ensures
            final(self).wf(),
            found == has_player(old(self).game.players@, id),
            final(self).game.next_id == old(self).game.next_id,
            final(self).game.phase == old(self).game.phase,
            final(self).stage == old(self).stage,
            final(self).poll == old(self).poll,
            found ==> final(self).game.players@ == with_lost(
                old(self).game.players@,
                slot_of(old(self).game.players@, id),
            ),
            !found ==> final(self).game.players@ == old(self).game.players@,
    {
        let found = self.game.session_lost(id);
        proof {
            if found {
                lemma_lost_keeps_candidates(
                    old(self).game.players@,
                    slot_of(old(self).game.players@, id),
                    self.poll.candidates@,
                );
            }
        }
        found
    }

    /// Asks the wolf for its victim, or ends a game whose night cannot be
    /// played.
    fn hunt(&mut self) -> (d: Directive)
        requires
            old(self).wf(),
            old(self).game.phase == Phase::Night,
        ensures
            final(self).wf(),
            hunts(*old(self), d, *final(self)),
    {
        match self.game.play_night() {
            Ok(NightStep::Ask { wolf, options }) => {
                self.stage = Stage::AwaitingKill;
                Directive::Ask { to: wolf, msg: options }
            },
            Ok(NightStep::Over(side)) => {
                self.stage = Stage::Over;
                Directive::Broadcast(StcMessage::AnnounceWinner(side))
            },
            Err(_) => {
                // Not reached: the game is in its night.
                Directive::Done
            },
        }
    }

    /// Ends the night with the wolf's reply.
    fn kill(&mut self, reply: &CtsMessage) -> (d: Directive)
        requires
            old(self).wf(),
            old(self).game.phase == Phase::Night,
        ensures
            final(self).wf(),
            kills(*old(self), *reply, d, *final(self)),
    {
        match self.game.resolve_kill(reply) {
            Ok(victim) => {
                match self.game.play_day() {
                    Ok(poll) => {
                        proof {
                            lemma_select_ids(self.game.players@, Audience::Living);
                        }
                        self.poll = poll;
                        self.stage = Stage::Calling(0);
                    },
                    Err(_) => {
                        // Not reached: the kill has made it day.
                    },
                }
                Directive::Broadcast(StcMessage::Died(victim))
            },
            Err(_) => {
                self.stage = Stage::Over;
                Directive::Broadcast(StcMessage::AnnounceWinner(Winner::Village))
            },
        }
    }

    /// Calls the voter at place `k`, or counts the votes past the last voter.
    fn call(&mut self, k: usize) -> (d: Directive)
        requires
            old(self).game.wf(),
            old(self).poll.wf(),
            old(self).game.phase == Phase::Day,
            k <= old(self).poll.candidates@.len(),
            candidates_alive(old(self).game.players@, old(self).poll.candidates@),
        ensures
            final(self).wf(),
            calls(old(self).game, old(self).poll, k as int, d, *final(self)),
    {
        if k < self.poll.candidates.len() {
            self.stage = Stage::Called(k);
            Directive::Broadcast(StcMessage::WaitingFor(self.poll.candidates[k]))
        } else {
            let verdict = self.poll.close();
            let closed = self.game.close_day(&self.poll);
            self.stage = Stage::Judged;
            proof {
                assert(closed is Ok);
                assert(day_closed(old(self).game, self.poll.verdict(), Ok(closed->Ok_0), self.game));
            }
            match verdict {
                Verdict::Eliminated(t) => Directive::Broadcast(StcMessage::VotedOut(t)),
                Verdict::NoMajority => Directive::Broadcast(StcMessage::NoMajority),
            }
        }
    }

    /// Ends the turn of the voter at place `k` with its reply, if it gave one.
    fn vote(&mut self, k: usize, reply: Option<CtsMessage>) -> (d: Directive)
        requires
            old(self).wf(),
            old(self).stage == Stage::AwaitingVote(k),
        ensures
            final(self).wf(),
            votes(*old(self), k as int, reply, d, *final(self)),
    {
        let voters = self.poll.candidates.len();
        let voter = self.poll.candidates[k];
        proof {
            assert(self.poll.candidates@.contains(voter));
            let slot = self.poll.candidates@.index_of(voter);
            assert(self.poll.candidates@[slot] == voter);
            assert(slot == k);
        }
        let cast = match reply {
            Some(r) => self.poll.cast(voter, &r),
            None => Err(Fault::ProtocolViolation),
        };
        match cast {
            Ok(target) => {
                self.stage = Stage::Calling(k + 1);
                Directive::Broadcast(StcMessage::AnnounceVote(voter, target))
            },
            Err(_) => {
                proof {
                    assert(same_poll(self.poll, old(self).poll));
                }
                self.call(k + 1)
            },
        }
    }

    /// Gives the next directive. `reply` is the reply to the last directive if
    /// that asked a player for a choice and the player replied, and `None`
    /// otherwise.
    pub fn step(&mut self, reply: Option<CtsMessage>) -> (d: Directive)
        requires
            old(self).wf(),
        ensures
            final(self).wf(),
            stepped(*old(self), reply, d, *final(self)),
    {
        match self.stage {
            Stage::Dusk => {
                self.stage = Stage::NightFallen;
                Directive::Broadcast(StcMessage::NightFalls)
            },
            Stage::NightFallen => {
                self.stage = Stage::WolvesAwake;
                Directive::Broadcast(StcMessage::WolvesWake)
            },
            Stage::WolvesAwake => self.hunt(),
            Stage::AwaitingKill => match reply {
                Some(r) => self.kill(&r),
                None => self.hunt(),
            },
            Stage::Calling(k) => self.call(k),
            Stage::Called(k) => {
                self.stage = Stage::AwaitingVote(k);
                Directive::Ask { to: self.poll.candidates[k], msg: self.poll.options() }
            },
            Stage::AwaitingVote(k) => self.vote(k, reply),
            Stage::Judged => match self.game.winner() {
                Some(side) => {
                    self.stage = Stage::Over;
                    Directive::Broadcast(StcMessage::AnnounceWinner(side))
                },
                None => {
                    self.stage = Stage::NightFallen;
                    Directive::Broadcast(StcMessage::NightFalls)
                },
            },
            Stage::Over => Directive::Done,
        }
    }
}

/// A player whose session is lost is still a player, and as dead or alive as
/// before: the candidates of a poll stay what they were.
pub proof fn lemma_lost_keeps_candidates(players: Seq<Player>, i: int, candidates: Seq<PlayerId>)
    requires
        ascending_ids(players),
        0 <= i < players.len(),
    ensures
        candidates_alive(players, candidates) ==> candidates_alive(
            with_lost(players, i),
            candidates,
        ),
{
    let after = with_lost(players, i);
    if candidates_alive(players, candidates) {
        assert forall|k: int| 0 <= k < candidates.len() implies has_player(
            after,
            #[trigger] candidates[k],
        ) && !after[slot_of(after, candidates[k])].dead by {
            let j = slot_of(players, candidates[k]);
            assert(has_player(players, candidates[k]));
            assert(after[j].id == candidates[k]);
            assert forall|a: int, b: int| 0 <= a < b < after.len() implies after[a].id.0
                < after[b].id.0 by {
                assert(after[a].id == players[a].id);
                assert(after[b].id == players[b].id);
            }
            lemma_slot_unique(after, j);
        }
    }
}

} // verus!
