//! The vote count that closes a day.
//!
//! Ballots are grouped by target. The target with the most votes leads; among
//! targets with equally many votes the one with the lowest identifier leads.
//! The leader is eliminated only if it holds a majority: strictly more votes
//! than half of the living players, rounded down.

use crate::comm::{Fault, PlayerId};
use vstd::prelude::*;

verus! {

/// One voter's current choice of target.
#[derive(Clone, Copy, Debug, PartialEq, Eq, Structural)]
pub struct Ballot {
    pub voter: PlayerId,
    pub target: PlayerId,
}

/// How a vote ended.
#[derive(Clone, Copy, Debug, PartialEq, Eq, Structural)]
pub enum Verdict {
    /// The player held a majority and leaves the game.
    Eliminated(PlayerId),
    /// Nobody held a majority; nobody leaves.
    NoMajority,
}

/// The number of ballots that name `target`.
pub open spec fn votes_for(ballots: Seq<Ballot>, target: PlayerId) -> nat
    decreases ballots.len(),
{
    if ballots.len() == 0 {
        0
    } else {
        votes_for(ballots.drop_last(), target) + if ballots.last().target == target {
            1nat
        } else {
            0nat
        }
    }
}

/// A count is a majority among `living` players when it exceeds half of them.
pub open spec fn is_majority(count: nat, living: nat) -> bool {
    count > living / 2
}

/// `t` leads the count: it is named, no target has more votes, and no target
/// with as many votes has a lower identifier.
pub open spec fn is_leader(ballots: Seq<Ballot>, t: PlayerId) -> bool {
    &&& votes_for(ballots, t) > 0
    &&& forall|u: PlayerId| #[trigger] votes_for(ballots, u) <= votes_for(ballots, t)
    &&& forall|u: PlayerId| #[trigger]
        votes_for(ballots, u) == votes_for(ballots, t) ==> t.0 <= u.0
}

/// `v` is the verdict that the ballots give among `living` players.
pub open spec fn verdict_of(ballots: Seq<Ballot>, living: nat, v: Verdict) -> bool {
    match v {
        Verdict::Eliminated(t) => is_leader(ballots, t) && is_majority(
            votes_for(ballots, t),
            living,
        ),
        Verdict::NoMajority => forall|t: PlayerId|
            is_leader(ballots, t) ==> !is_majority(#[trigger] votes_for(ballots, t), living),
    }
}

/// A target with a vote is named on some ballot.
pub proof fn lemma_voted_is_named(ballots: Seq<Ballot>, t: PlayerId)
    requires
        votes_for(ballots, t) > 0,
    ensures
        exists|i: int| 0 <= i < ballots.len() && (#[trigger] ballots[i]).target == t,
    decreases ballots.len(),
{
    if ballots.last().target == t {
        assert(ballots[ballots.len() - 1].target == t);
    } else {
        lemma_voted_is_named(ballots.drop_last(), t);
        let i = choose|i: int|
            0 <= i < ballots.drop_last().len() && (#[trigger] ballots.drop_last()[i]).target == t;
        assert(ballots[i].target == t);
    }
}

/// The target of any ballot has at least one vote.
pub proof fn lemma_named_is_voted(ballots: Seq<Ballot>, i: int)
    requires
        0 <= i < ballots.len(),
    ensures
        votes_for(ballots, ballots[i].target) > 0,
    decreases ballots.len(),
{
    if i < ballots.len() - 1 {
        lemma_named_is_voted(ballots.drop_last(), i);
    }
}

/// The votes of two different targets come from different ballots.
pub proof fn lemma_votes_disjoint(ballots: Seq<Ballot>, t: PlayerId, u: PlayerId)
    requires
        t != u,
    ensures
        votes_for(ballots, t) + votes_for(ballots, u) <= ballots.len(),
    decreases ballots.len(),
{
    if ballots.len() > 0 {
        lemma_votes_disjoint(ballots.drop_last(), t, u);
    }
}

/// At most one target leads a count.
pub proof fn lemma_leader_unique(ballots: Seq<Ballot>, t: PlayerId, u: PlayerId)
    requires
        is_leader(ballots, t),
        is_leader(ballots, u),
    ensures
        t == u,
{
    assert(votes_for(ballots, u) <= votes_for(ballots, t));
    assert(votes_for(ballots, t) <= votes_for(ballots, u));
}

/// The ballots and the number of living players decide the verdict.
pub proof fn lemma_verdict_unique(ballots: Seq<Ballot>, living: nat, v: Verdict, w: Verdict)
    requires
        verdict_of(ballots, living, v),
        verdict_of(ballots, living, w),
    ensures
        v == w,
{
    match (v, w) {
        (Verdict::Eliminated(t), Verdict::Eliminated(u)) => {
            lemma_leader_unique(ballots, t, u);
        },
        _ => {},
    }
}

/// Where there are no more ballots than living players, a target with a
/// majority leads the count, and it does so alone: ties never decide.
pub proof fn lemma_majority_leads(ballots: Seq<Ballot>, living: nat, t: PlayerId)
    requires
        ballots.len() <= living,
        is_majority(votes_for(ballots, t), living),
    ensures
        is_leader(ballots, t),
        forall|u: PlayerId| u != t ==> #[trigger] votes_for(ballots, u) < votes_for(ballots, t),
{
    assert forall|u: PlayerId| u != t implies #[trigger] votes_for(ballots, u) < votes_for(
        ballots,
        t,
    ) by {
        lemma_votes_disjoint(ballots, t, u);
    }
}

/// Where there are no more ballots than living players, a verdict eliminates
/// a player exactly if that player holds a majority.
pub proof fn lemma_eliminated_iff_majority(ballots: Seq<Ballot>, living: nat, t: PlayerId)
    requires
        ballots.len() <= living,
    ensures
        verdict_of(ballots, living, Verdict::Eliminated(t)) <==> is_majority(
            votes_for(ballots, t),
            living,
        ),
{
    if is_majority(votes_for(ballots, t), living) {
        lemma_majority_leads(ballots, living, t);
    }
}

/// Whether `count` votes are a majority among `living` players.
pub fn majority(count: usize, living: usize) -> (b: bool)
    ensures
        b == is_majority(count as nat, living as nat),
{
    count > living / 2
}

/// Counts the ballots that name `target`.
pub fn count_votes(ballots: &Vec<Ballot>, target: PlayerId) -> (n: usize)
    ensures
        n == votes_for(ballots@, target),
{
    let mut n: usize = 0;
    let mut i: usize = 0;
    while i < ballots.len()
        invariant
            i <= ballots.len(),
            n <= i,
            n == votes_for(ballots@.take(i as int), target),
        decreases ballots.len() - i,
    {
        proof {
            assert(ballots@.take(i + 1).drop_last() =~= ballots@.take(i as int));
        }
        if ballots[i].target == target {
            n += 1;
        }
        i += 1;
    }
    proof {
        assert(ballots@.take(ballots.len() as int) =~= ballots@);
    }
    n
}

/// The target that leads the count, with its number of votes; `None` where
/// there is no ballot.
pub fn leader(ballots: &Vec<Ballot>) -> (r: Option<(PlayerId, usize)>)
    ensures
        r is None <==> ballots@.len() == 0,
        r matches Some((t, c)) ==> is_leader(ballots@, t) && c == votes_for(ballots@, t),
{
    if ballots.len() == 0 {
        return None;
    }
    let mut best: PlayerId = ballots[0].target;
    let mut best_count: usize = count_votes(ballots, best);
    proof {
        lemma_named_is_voted(ballots@, 0);
    }
    let mut i: usize = 1;
    while i < ballots.len()
        invariant
            1 <= i <= ballots.len(),
            best_count == votes_for(ballots@, best),
            best_count > 0,
            forall|j: int|
                0 <= j < i ==> votes_for(ballots@, (#[trigger] ballots@[j]).target) <= best_count,
            forall|j: int|
                0 <= j < i && votes_for(ballots@, (#[trigger] ballots@[j]).target) == best_count
                    ==> best.0 <= ballots@[j].target.0,
        decreases ballots.len() - i,
    {
        let t = ballots[i].target;
        let c = count_votes(ballots, t);
        if c > best_count || (c == best_count && t.0 < best.0) {
            best = t;
            best_count = c;
        }
        i += 1;
    }
    proof {
        assert forall|u: PlayerId| #[trigger] votes_for(ballots@, u) <= best_count by {
            if votes_for(ballots@, u) > 0 {
                lemma_voted_is_named(ballots@, u);
            }
        }
        assert forall|u: PlayerId| #[trigger] votes_for(ballots@, u) == best_count implies best.0
            <= u.0 by {
            lemma_voted_is_named(ballots@, u);
        }
    }
    Some((best, best_count))
}

/// Closes a vote among `living` players.
///
/// With no ballot at all there is nothing to count, which the caller should
/// have ruled out. Otherwise the leader is eliminated if it holds a majority,
/// and nobody is eliminated if it does not.
pub fn tabulate(ballots: &Vec<Ballot>, living: usize) -> (r: Result<Verdict, Fault>)
    ensures
        ballots@.len() == 0 ==> r == Err::<Verdict, Fault>(Fault::InvariantViolation),
        ballots@.len() > 0 ==> r is Ok && verdict_of(ballots@, living as nat, r->Ok_0),
{
    match leader(ballots) {
        None => Err(Fault::InvariantViolation),
        Some((t, c)) => {
            if majority(c, living) {
                Ok(Verdict::Eliminated(t))
            } else {
                Ok(Verdict::NoMajority)
            }
        },
    }
}

} // verus!
