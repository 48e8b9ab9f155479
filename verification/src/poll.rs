//! The ballot box of one day.
//!
//! The players that are alive when the day begins are both the voters and the
//! candidates. Each voter has one slot, so a voter holds at most one ballot
//! and a later vote replaces an earlier one.

use crate::comm::{CtsMessage, Fault, PlayerId, StcMessage};
use crate::tally::{
    is_majority, lemma_eliminated_iff_majority, tabulate, votes_for, Ballot, Verdict,
};
use vstd::prelude::*;

verus! {

/// Identifiers in strictly increasing order.
pub open spec fn ascending(ids: Seq<PlayerId>) -> bool {
    forall|i: int, j: int| 0 <= i < j < ids.len() ==> ids[i].0 < ids[j].0
}

/// The ballots that the slots hold, in the order of their voters.
pub open spec fn ballots_of(voters: Seq<PlayerId>, choices: Seq<Option<PlayerId>>) -> Seq<Ballot>
    recommends
        voters.len() == choices.len(),
    decreases choices.len(),
{
    if choices.len() == 0 {
        Seq::empty()
    } else {
        let rest = ballots_of(voters.drop_last(), choices.drop_last());
        match choices.last() {
            Some(t) => rest.push(Ballot { voter: voters.last(), target: t }),
            None => rest,
        }
    }
}

/// There are no more ballots than voters, and the ballots' voters are in
/// strictly increasing order: no voter holds two ballots.
pub proof fn lemma_one_ballot_each(voters: Seq<PlayerId>, choices: Seq<Option<PlayerId>>)
    requires
        voters.len() == choices.len(),
        ascending(voters),
    ensures
        ballots_of(voters, choices).len() <= voters.len(),
        forall|i: int|
            0 <= i < ballots_of(voters, choices).len() ==> (#[trigger] ballots_of(
                voters,
                choices,
            )[i]).voter.0 <= voters.last().0,
        forall|i: int, j: int|
            0 <= i < j < ballots_of(voters, choices).len() ==> ballots_of(voters, choices)[i].voter.0
                < ballots_of(voters, choices)[j].voter.0,
    decreases choices.len(),
{
    if choices.len() > 0 {
        lemma_one_ballot_each(voters.drop_last(), choices.drop_last());
        let rest = ballots_of(voters.drop_last(), choices.drop_last());
        assert forall|i: int| 0 <= i < rest.len() implies (#[trigger] rest[i]).voter.0
            < voters.last().0 by {
            assert(voters.drop_last().last() == voters[voters.len() - 2]);
        }
    }
}

/// Some slot holds the ballot: its voter's slot holds its target.
pub open spec fn slot_holds(
    voters: Seq<PlayerId>,
    choices: Seq<Option<PlayerId>>,
    ballot: Ballot,
) -> bool {
    exists|k: int|
        0 <= k < choices.len() && voters[k] == ballot.voter && #[trigger] choices[k] == Some(
            ballot.target,
        )
}

/// Every ballot comes from a slot.
pub proof fn lemma_ballots_from_slots(voters: Seq<PlayerId>, choices: Seq<Option<PlayerId>>)
    requires
        voters.len() == choices.len(),
    ensures
        forall|i: int|
            0 <= i < ballots_of(voters, choices).len() ==> slot_holds(
                voters,
                choices,
                #[trigger] ballots_of(voters, choices)[i],
            ),
    decreases choices.len(),
{
    if choices.len() > 0 {
        let front_voters = voters.drop_last();
        let front = choices.drop_last();
        let rest = ballots_of(front_voters, front);
        let all = ballots_of(voters, choices);
        lemma_ballots_from_slots(front_voters, front);
        assert forall|i: int| 0 <= i < all.len() implies slot_holds(
            voters,
            choices,
            #[trigger] all[i],
        ) by {
            if i < rest.len() {
                assert(all[i] == rest[i]);
                let k = choose|k: int|
                    0 <= k < front.len() && front_voters[k] == rest[i].voter && #[trigger] front[k]
                        == Some(rest[i].target);
                assert(voters[k] == all[i].voter && choices[k] == Some(all[i].target));
            } else {
                let k = choices.len() - 1;
                assert(voters[k] == all[i].voter && choices[k] == Some(all[i].target));
            }
        }
    }
}

/// A target with a vote was chosen in some slot.
pub proof fn lemma_voted_was_chosen(
    voters: Seq<PlayerId>,
    choices: Seq<Option<PlayerId>>,
    t: PlayerId,
)
    requires
        votes_for(ballots_of(voters, choices), t) > 0,
    ensures
        exists|k: int| 0 <= k < choices.len() && #[trigger] choices[k] == Some(t),
    decreases choices.len(),
{
    if choices.len() > 0 {
        let rest = ballots_of(voters.drop_last(), choices.drop_last());
        if choices.last() == Some(t) {
            assert(choices[choices.len() - 1] == Some(t));
        } else {
            match choices.last() {
                Some(u) => {
                    assert(rest.push(Ballot { voter: voters.last(), target: u }).drop_last()
                        =~= rest);
                },
                None => {},
            }
            lemma_voted_was_chosen(voters.drop_last(), choices.drop_last(), t);
            let k = choose|k: int|
                0 <= k < choices.drop_last().len() && #[trigger] choices.drop_last()[k] == Some(t);
            assert(choices[k] == Some(t));
        }
    }
}

/// The target that a reply votes against, if the reply is a vote against one
/// of the candidates.
pub open spec fn accepted_vote(candidates: Seq<PlayerId>, reply: CtsMessage) -> Option<PlayerId> {
    match reply {
        CtsMessage::Vote(t) => if candidates.contains(t) {
            Some(t)
        } else {
            None
        },
        _ => None,
    }
}

/// `v` is the verdict that the ballots give among `living` voters: a target
/// with a majority is eliminated, and without one nobody is.
pub open spec fn gives(ballots: Seq<Ballot>, living: nat, v: Verdict) -> bool {
    match v {
        Verdict::Eliminated(t) => is_majority(votes_for(ballots, t), living),
        Verdict::NoMajority => forall|t: PlayerId|
            !is_majority(#[trigger] votes_for(ballots, t), living),
    }
}

/// The verdict that the ballots give among `living` voters.
pub open spec fn verdict_for(ballots: Seq<Ballot>, living: nat) -> Verdict {
    choose|v: Verdict| gives(ballots, living, v)
}

/// The ballot box of one day.
#[derive(Debug, PartialEq)]
pub struct Poll {
    /// The players that vote and that can be voted against.
    pub candidates: Vec<PlayerId>,
    /// For each candidate, in the same order, whom it currently votes against.
    pub choices: Vec<Option<PlayerId>>,
}

impl Poll {
    /// Every candidate has a slot, the candidates are in increasing order, and
    /// every choice is a candidate.
    pub open spec fn wf(&self) -> bool {
        &&& self.candidates@.len() == self.choices@.len()
        &&& ascending(self.candidates@)
        &&& forall|k: int|
            0 <= k < self.choices@.len() && (#[trigger] self.choices@[k]) is Some
                ==> self.candidates@.contains(self.choices@[k]->Some_0)
    }

    /// The ballots that would be counted now.
    pub open spec fn ballots_spec(&self) -> Seq<Ballot> {
        ballots_of(self.candidates@, self.choices@)
    }

    /// `v` is the verdict that the ballots give now.
    pub open spec fn verdict_spec(&self, v: Verdict) -> bool {
        gives(self.ballots_spec(), self.candidates@.len(), v)
    }

    /// The verdict that the ballots give now. A sound poll has exactly one.
    pub open spec fn verdict(&self) -> Verdict {
        verdict_for(self.ballots_spec(), self.candidates@.len())
    }

    /// Opens the vote among the given players, with no ballot cast yet. The
    /// players must come in the order of their identifiers, each once.
    pub fn open(candidates: Vec<PlayerId>) -> (r: Result<Poll, Fault>)
        ensures
            r is Ok <==> ascending(candidates@),
            r is Err ==> r->Err_0 == Fault::InvariantViolation,
            r matches Ok(poll) ==> {
                &&& poll.wf()
                &&& poll.candidates@ == candidates@
                &&& forall|k: int| 0 <= k < poll.choices@.len() ==> poll.choices@[k] is None
                &&& poll.ballots_spec().len() == 0
            },
    {
        let mut choices: Vec<Option<PlayerId>> = Vec::new();
        let mut i: usize = 0;
        while i < candidates.len()
            invariant
                i <= candidates.len(),
                choices@.len() == i,
                forall|k: int| 0 <= k < i ==> choices@[k] is None,
                ballots_of(candidates@.take(i as int), choices@).len() == 0,
            decreases candidates.len() - i,
        {
            proof {
                assert(candidates@.take(i + 1).drop_last() =~= candidates@.take(i as int));
                assert(choices@.push(None).drop_last() =~= choices@);
            }
            choices.push(None);
            i += 1;
        }
        proof {
            assert(candidates@.take(candidates.len() as int) =~= candidates@);
        }
        let poll = Poll { candidates, choices };
        if poll.is_wf() {
            Ok(poll)
        } else {
            Err(Fault::InvariantViolation)
        }
    }

    /// Whether the poll is sound. A poll that was opened by [`Poll::open`] and
    /// changed by [`Poll::cast`] always is.
    pub fn is_wf(&self) -> (b: bool)
        ensures
            b == self.wf(),
    {
        if self.candidates.len() != self.choices.len() {
            return false;
        }
        let mut i: usize = 0;
        while i < self.candidates.len()
            invariant
                i <= self.candidates.len(),
                self.candidates@.len() == self.choices@.len(),
                forall|a: int, b: int|
                    0 <= a < b < i ==> self.candidates@[a].0 < self.candidates@[b].0,
                forall|k: int|
                    0 <= k < i && (#[trigger] self.choices@[k]) is Some
                        ==> self.candidates@.contains(self.choices@[k]->Some_0),
            decreases self.candidates.len() - i,
        {
            if i > 0 && self.candidates[i - 1].0 >= self.candidates[i].0 {
                proof {
                    assert(!(self.candidates@[i - 1].0 < self.candidates@[i as int].0));
                }
                return false;
            }
            proof {
                assert forall|a: int| 0 <= a < i implies self.candidates@[a].0
                    < self.candidates@[i as int].0 by {
                    if a < i - 1 {
                        assert(self.candidates@[a].0 < self.candidates@[i - 1].0);
                    }
                }
            }
            match self.choices[i] {
                Some(t) => {
                    if self.position(t).is_none() {
                        proof {
                            assert(self.choices@[i as int] is Some);
                        }
                        return false;
                    }
                },
                None => {},
            }
            i += 1;
        }
        true
    }

    /// The request for a vote: the candidates as options.
    pub fn options(&self) -> (msg: StcMessage)
        ensures
            msg matches StcMessage::VoteOptions(list) && list@ == self.candidates@,
    {
        let mut list: Vec<PlayerId> = Vec::new();
        let mut i: usize = 0;
        while i < self.candidates.len()
            invariant
                i <= self.candidates.len(),
                list@ == self.candidates@.take(i as int),
            decreases self.candidates.len() - i,
        {
            list.push(self.candidates[i]);
            proof {
                assert(self.candidates@.take(i + 1) =~= self.candidates@.take(i as int).push(
                    self.candidates@[i as int],
                ));
            }
            i += 1;
        }
        proof {
            assert(self.candidates@.take(self.candidates.len() as int) =~= self.candidates@);
        }
        StcMessage::VoteOptions(list)
    }

    /// The slot of the given player, if it is a candidate.
    pub fn position(&self, id: PlayerId) -> (r: Option<usize>)
        ensures
            r matches Some(k) ==> k < self.candidates@.len() && self.candidates@[k as int] == id,
            r is None ==> !self.candidates@.contains(id),
    {
        let mut i: usize = 0;
        while i < self.candidates.len()
            invariant
                i <= self.candidates.len(),
                forall|k: int| 0 <= k < i ==> self.candidates@[k] != id,
            decreases self.candidates.len() - i,
        {
            if self.candidates[i] == id {
                return Some(i);
            }
            i += 1;
        }
        None
    }

    /// Records the reply of `voter` to the request for its vote, and returns
    /// the target to announce.
    ///
    /// A voter that is no candidate has no turn. A reply that is no vote, or a
    /// vote against someone who is no candidate, is rejected and leaves the
    /// voter's earlier ballot, if any, as it was. An accepted vote replaces the
    /// voter's earlier ballot.
    pub fn cast(&mut self, voter: PlayerId, reply: &CtsMessage) -> (r: Result<PlayerId, Fault>)
        requires
            old(self).wf(),
        ensures
            final(self).wf(),
            final(self).candidates@ == old(self).candidates@,
            !old(self).candidates@.contains(voter) ==> r == Err::<PlayerId, Fault>(
                Fault::InvariantViolation,
            ),
            old(self).candidates@.contains(voter) ==> r == match accepted_vote(
                old(self).candidates@,
                *reply,
            ) {
                Some(t) => Ok::<PlayerId, Fault>(t),
                None => Err::<PlayerId, Fault>(Fault::ProtocolViolation),
            },
            r is Err ==> final(self).choices@ == old(self).choices@,
            r matches Ok(t) ==> final(self).choices@ == old(self).choices@.update(
                old(self).candidates@.index_of(voter),
                Some(t),
            ),
    {
        match self.position(voter) {
            None => Err(Fault::InvariantViolation),
            Some(k) => {
                match reply {
                    CtsMessage::Vote(t) => {
                        match self.position(*t) {
                            None => Err(Fault::ProtocolViolation),
                            Some(_) => {
                                self.choices[k] = Some(*t);
                                proof {
                                    let slot = self.candidates@.index_of(voter);
                                    assert(self.candidates@[k as int] == voter);
                                    assert(slot == k);
                                    assert(self.choices@ =~= old(self).choices@.update(
                                        slot,
                                        Some(*t),
                                    ));
                                }
                                Ok(*t)
                            },
                        }
                    },
                    _ => Err(Fault::ProtocolViolation),
                }
            },
        }
    }

    /// The ballots to count: one for each candidate that has voted.
    pub fn ballots(&self) -> (out: Vec<Ballot>)
        requires
            self.wf(),
        ensures
            out@ == self.ballots_spec(),
            out@.len() <= self.candidates@.len(),
    {
        let mut out: Vec<Ballot> = Vec::new();
        let mut i: usize = 0;
        while i < self.choices.len()
            invariant
                self.candidates@.len() == self.choices@.len(),
                i <= self.choices.len(),
                out@.len() <= i,
                out@ == ballots_of(self.candidates@.take(i as int), self.choices@.take(i as int)),
            decreases self.choices.len() - i,
        {
            proof {
                assert(self.candidates@.take(i + 1).drop_last() =~= self.candidates@.take(
                    i as int,
                ));
                assert(self.choices@.take(i + 1).drop_last() =~= self.choices@.take(i as int));
            }
            match self.choices[i] {
                Some(t) => {
                    out.push(Ballot { voter: self.candidates[i], target: t });
                },
                None => {},
            }
            i += 1;
        }
        proof {
            assert(self.candidates@.take(self.candidates.len() as int) =~= self.candidates@);
            assert(self.choices@.take(self.choices.len() as int) =~= self.choices@);
        }
        out
    }

    /// Closes the vote. A candidate is eliminated exactly if more than half of
    /// all the candidates, rounded down, currently vote against it.
    pub fn close(&self) -> (v: Verdict)
        requires
            self.wf(),
        ensures
            self.verdict_spec(v),
            v == self.verdict(),
            v matches Verdict::Eliminated(t) ==> self.candidates@.contains(t),
    {
        let ballots = self.ballots();
        let living = self.candidates.len();
        let v = match tabulate(&ballots, living) {
            Ok(Verdict::Eliminated(t)) => {
                proof {
                    lemma_eliminated_iff_majority(ballots@, living as nat, t);
                    lemma_voted_was_chosen(self.candidates@, self.choices@, t);
                }
                Verdict::Eliminated(t)
            },
            Ok(Verdict::NoMajority) => {
                proof {
                    assert forall|t: PlayerId|
                        !is_majority(
                            #[trigger] votes_for(self.ballots_spec(), t),
                            self.candidates@.len() as nat,
                        ) by {
                        lemma_eliminated_iff_majority(ballots@, living as nat, t);
                    }
                }
                Verdict::NoMajority
            },
            // Nobody has voted, so nobody holds a majority.
            Err(_) => Verdict::NoMajority,
        };
        proof {
            assert(self.verdict_spec(v));
            lemma_poll_verdict_unique(*self, v, self.verdict());
        }
        v
    }
}

/// A poll never holds more ballots than it has candidates, no voter holds two
/// of them, and every ballot is the vote of a candidate against a candidate.
pub proof fn lemma_poll_ballots(poll: Poll)
    requires
        poll.wf(),
    ensures
        poll.ballots_spec().len() <= poll.candidates@.len(),
        forall|i: int, j: int|
            0 <= i < j < poll.ballots_spec().len() ==> poll.ballots_spec()[i].voter
                != poll.ballots_spec()[j].voter,
        forall|i: int|
            0 <= i < poll.ballots_spec().len() ==> poll.candidates@.contains(
                (#[trigger] poll.ballots_spec()[i]).voter,
            ) && poll.candidates@.contains(poll.ballots_spec()[i].target),
{
    lemma_one_ballot_each(poll.candidates@, poll.choices@);
    lemma_ballots_from_slots(poll.candidates@, poll.choices@);
    let ballots = poll.ballots_spec();
    assert forall|i: int| 0 <= i < ballots.len() implies poll.candidates@.contains(
        (#[trigger] ballots[i]).voter,
    ) && poll.candidates@.contains(ballots[i].target) by {
        assert(slot_holds(poll.candidates@, poll.choices@, ballots[i]));
        let k = choose|k: int|
            0 <= k < poll.choices@.len() && poll.candidates@[k] == ballots[i].voter
                && #[trigger] poll.choices@[k] == Some(ballots[i].target);
        assert(poll.candidates@[k] == ballots[i].voter);
    }
}

/// At most one candidate can hold a majority, so the verdict of a poll is
/// decided by its slots.
pub proof fn lemma_poll_verdict_unique(poll: Poll, v: Verdict, w: Verdict)
    requires
        poll.wf(),
        poll.verdict_spec(v),
        poll.verdict_spec(w),
    ensures
        v == w,
{
    lemma_one_ballot_each(poll.candidates@, poll.choices@);
    match (v, w) {
        (Verdict::Eliminated(t), Verdict::Eliminated(u)) => {
            if t != u {
                crate::tally::lemma_votes_disjoint(poll.ballots_spec(), t, u);
            }
        },
        _ => {},
    }
}

} // verus!
