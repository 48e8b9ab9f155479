//! The host's side of the game: who plays, which phase the game is in, and
//! what each phase decides.
//!
//! The engine never sends or receives. Each step says what is to be sent and
//! to whom, and takes the replies as arguments; the caller owns the sessions.
//! A broadcast goes, one session after the other, to the players that
//! [`Game::send_all`] lists. A session that fails is reported with
//! [`Game::session_lost`] and is left out from then on.

use crate::comm::{CtsMessage, Fault, PlayerId, Role, StcMessage, Winner};
use crate::poll::{ascending, Poll};
use crate::tally::Verdict;
use rand::Rng;
use vstd::prelude::*;

verus! {

/// The least number of players that a game starts with.
pub const MIN_PLAYERS: usize = 2;

/// Where the game stands.
#[derive(Clone, Copy, Debug, PartialEq, Eq, Structural)]
pub enum Phase {
    /// Players may join.
    AwaitingPlayers,
    /// The join window is closed and the roles are about to be drawn.
    RoleAssignment,
    /// The wolf chooses a victim.
    Night,
    /// The living players vote.
    Day,
    /// A side has won; nothing more happens.
    GameOver(Winner),
}

/// A group of players that a step addresses.
#[derive(Clone, Copy, Debug, PartialEq, Eq, Structural)]
pub enum Audience {
    /// Every player whose session still works, dead or alive.
    Everyone,
    /// The players that are alive and whose session still works.
    Living,
    /// The living players that the wolf may kill: all but the wolf.
    Prey,
}

/// A player in the game.
#[derive(Debug, PartialEq)]
pub struct Player {
    /// The player's identifier, by which messages refer to it.
    pub id: PlayerId,
    /// The name chosen by the player.
    pub name: String,
    /// Whether the player has died, by being killed or voted out.
    pub dead: bool,
    /// The player's role, once the roles have been drawn.
    pub role: Option<Role>,
    /// Whether the player's session still works.
    pub connected: bool,
}

/// A message and the player that it goes to.
#[derive(Debug, PartialEq)]
pub struct Outgoing {
    pub to: PlayerId,
    pub msg: StcMessage,
}

/// What to send when a player has joined, in this order: `assigned` to the
/// newcomer, `announce` to each player of `announce_to`, `roster` to the
/// newcomer.
#[derive(Debug, PartialEq)]
pub struct JoinPlan {
    /// The newcomer's identifier.
    pub id: PlayerId,
    /// Tells the newcomer its identifier.
    pub assigned: StcMessage,
    /// Tells the others who joined.
    pub announce: StcMessage,
    /// The players that were in the game before, and whose session works.
    pub announce_to: Vec<PlayerId>,
    /// Tells the newcomer who was in the game before it.
    pub roster: StcMessage,
}

/// How a night begins.
#[derive(Debug, PartialEq)]
pub enum NightStep {
    /// Ask the wolf to answer `options` with its victim.
    Ask { wolf: PlayerId, options: StcMessage },
    /// The night cannot be played and the game is over.
    Over(Winner),
}

/// How a day ended.
#[derive(Clone, Copy, Debug, PartialEq, Eq, Structural)]
pub struct DayReport {
    /// Who was voted out, if anyone.
    pub verdict: Verdict,
    /// The side that has won by this vote, if any.
    pub winner: Option<Winner>,
}

/// The game: its players in the order in which they joined, and its phase.
#[derive(Debug, PartialEq)]
pub struct Game {
    /// The players participating in the game.
    pub players: Vec<Player>,
    /// The next available identifier.
    pub next_id: PlayerId,
    /// The phase that the game is in.
    pub phase: Phase,
}

/// The result is the error `f`.
pub open spec fn fails<T>(r: Result<T, Fault>, f: Fault) -> bool {
    r is Err && r->Err_0 == f
}

/// Whether a player belongs to an audience.
pub open spec fn reaches(a: Audience, p: Player) -> bool {
    match a {
        Audience::Everyone => p.connected,
        Audience::Living => p.active(),
        Audience::Prey => p.active() && p.role != Some(Role::Wolf),
    }
}

/// The identifiers of the players of an audience, in the players' order.
pub open spec fn select_ids(players: Seq<Player>, a: Audience) -> Seq<PlayerId>
    decreases players.len(),
{
    if players.len() == 0 {
        Seq::empty()
    } else {
        let rest = select_ids(players.drop_last(), a);
        if reaches(a, players.last()) {
            rest.push(players.last().id)
        } else {
            rest
        }
    }
}

/// The number of living players with the given role.
pub open spec fn living_count(players: Seq<Player>, role: Role) -> nat
    decreases players.len(),
{
    if players.len() == 0 {
        0
    } else {
        living_count(players.drop_last(), role) + if players.last().active()
            && players.last().role == Some(role) {
            1nat
        } else {
            0nat
        }
    }
}

/// The players' identifiers are in strictly increasing order.
pub open spec fn ascending_ids(players: Seq<Player>) -> bool {
    forall|i: int, j: int| 0 <= i < j < players.len() ==> players[i].id.0 < players[j].id.0
}

/// Some player has the identifier.
pub open spec fn has_player(players: Seq<Player>, id: PlayerId) -> bool {
    exists|i: int| 0 <= i < players.len() && (#[trigger] players[i]).id == id
}

/// The place of the player with the identifier.
pub open spec fn slot_of(players: Seq<Player>, id: PlayerId) -> int {
    choose|i: int| 0 <= i < players.len() && (#[trigger] players[i]).id == id
}

/// The player at `w` is the wolf and every other player is a villager.
pub open spec fn is_wolf_at(players: Seq<Player>, w: int) -> bool {
    &&& 0 <= w < players.len()
    &&& forall|i: int|
        0 <= i < players.len() ==> (#[trigger] players[i]).role == Some(
            if i == w {
                Role::Wolf
            } else {
                Role::Villager
            },
        )
}

/// No player has a role, and none has died.
pub open spec fn no_roles(players: Seq<Player>) -> bool {
    forall|i: int|
        0 <= i < players.len() ==> (#[trigger] players[i]).role is None && !players[i].dead
}

/// The players with the one at `i` dead.
pub open spec fn with_dead(players: Seq<Player>, i: int) -> Seq<Player> {
    players.update(i, Player { dead: true, ..players[i] })
}

/// The players with the session of the one at `i` lost.
pub open spec fn with_lost(players: Seq<Player>, i: int) -> Seq<Player> {
    players.update(i, Player { connected: false, ..players[i] })
}

/// `list` pairs each player's identifier with its name, in the players' order.
pub open spec fn is_roster(players: Seq<Player>, list: Seq<(PlayerId, String)>) -> bool {
    &&& list.len() == players.len()
    &&& forall|i: int|
        0 <= i < players.len() ==> (#[trigger] list[i]).0 == players[i].id && list[i].1
            == players[i].name
}

/// The place of a player is decided by its identifier.
pub proof fn lemma_slot_unique(players: Seq<Player>, i: int)
    requires
        ascending_ids(players),
        0 <= i < players.len(),
    ensures
        has_player(players, players[i].id),
        slot_of(players, players[i].id) == i,
{
    let j = slot_of(players, players[i].id);
    if j < i {
        assert(players[j].id.0 < players[i].id.0);
    }
    if i < j {
        assert(players[i].id.0 < players[j].id.0);
    }
}

/// A game has exactly one wolf.
pub proof fn lemma_wolf_unique(players: Seq<Player>, v: int, w: int)
    requires
        is_wolf_at(players, v),
        is_wolf_at(players, w),
    ensures
        v == w,
{
    assert(players[v].role == Some(Role::Wolf));
}

/// The identifiers of an audience are in increasing order, are no more than
/// the players, and are those of the players that belong to it.
pub proof fn lemma_select_ids(players: Seq<Player>, a: Audience)
    requires
        ascending_ids(players),
    ensures
        ascending(select_ids(players, a)),
        select_ids(players, a).len() <= players.len(),
        forall|k: int|
            0 <= k < select_ids(players, a).len() ==> has_player(
                players,
                #[trigger] select_ids(players, a)[k],
            ) && reaches(a, players[slot_of(players, select_ids(players, a)[k])]),
        forall|i: int|
            0 <= i < players.len() && reaches(a, #[trigger] players[i]) ==> select_ids(
                players,
                a,
            ).contains(players[i].id),
    decreases players.len(),
{
    if players.len() > 0 {
        let front = players.drop_last();
        let rest = select_ids(front, a);
        let all = select_ids(players, a);
        let n = players.len() - 1;
        lemma_select_ids(front, a);
        assert forall|k: int| 0 <= k < rest.len() implies has_player(players, #[trigger] rest[k])
            && slot_of(players, rest[k]) == slot_of(front, rest[k]) && rest[k].0
            < players.last().id.0 by {
            let i = slot_of(front, rest[k]);
            assert(front[i] == players[i]);
            lemma_slot_unique(players, i);
        }
        assert forall|k: int| 0 <= k < all.len() implies has_player(players, #[trigger] all[k])
            && reaches(a, players[slot_of(players, all[k])]) by {
            if k < rest.len() {
                assert(all[k] == rest[k]);
                assert(front[slot_of(front, rest[k])] == players[slot_of(front, rest[k])]);
            } else {
                lemma_slot_unique(players, n);
            }
        }
        assert forall|i: int| 0 <= i < players.len() && reaches(
            a,
            #[trigger] players[i],
        ) implies all.contains(players[i].id) by {
            if i < n {
                assert(front[i] == players[i]);
                let k = choose|k: int| 0 <= k < rest.len() && rest[k] == front[i].id;
                assert(all[k] == players[i].id);
            } else {
                assert(all[all.len() - 1] == players[i].id);
            }
        }
    }
}

impl Player {
    /// The player takes part: it is alive and its session works.
    pub open spec fn active(&self) -> bool {
        !self.dead && self.connected
    }

    /// Whether the player is alive and its session works.
    pub fn is_active(&self) -> (b: bool)
        ensures
            b == self.active(),
    {
        !self.dead && self.connected
    }

    /// The player's role. To ask for it before the roles are drawn is a
    /// defect of the host.
    pub fn role(&self) -> (r: Result<Role, Fault>)
        ensures
            r == match self.role {
                Some(role) => Ok::<Role, Fault>(role),
                None => Err::<Role, Fault>(Fault::InvariantViolation),
            },
    {
        match self.role {
            Some(role) => Ok(role),
            None => Err(Fault::InvariantViolation),
        }
    }

    /// Whether the player belongs to the audience.
    pub fn is_reached(&self, a: Audience) -> (b: bool)
        ensures
            b == reaches(a, *self),
    {
        match a {
            Audience::Everyone => self.connected,
            Audience::Living => self.is_active(),
            Audience::Prey => self.is_active() && match self.role {
                Some(Role::Wolf) => false,
                _ => true,
            },
        }
    }
}

impl Game {
    /// The game is sound: identifiers rise with the order of joining and lie
    /// below the next free one; no player has a role before the roles are
    /// drawn, and from then on exactly one player is the wolf, who is alive
    /// while nights and days go on.
    pub open spec fn wf(&self) -> bool {
        &&& ascending_ids(self.players@)
        &&& forall|i: int|
            0 <= i < self.players@.len() ==> (#[trigger] self.players@[i]).id.0 < self.next_id.0
        &&& match self.phase {
            Phase::AwaitingPlayers => no_roles(self.players@),
            Phase::RoleAssignment => no_roles(self.players@) && self.players@.len()
                >= MIN_PLAYERS,
            Phase::Night | Phase::Day => exists|w: int|
                #[trigger] is_wolf_at(self.players@, w) && !self.players@[w].dead,
            Phase::GameOver(_) => exists|w: int| #[trigger] is_wolf_at(self.players@, w),
        }
    }

    /// The place of the wolf.
    pub open spec fn wolf_slot(&self) -> int {
        choose|w: int| is_wolf_at(self.players@, w)
    }

    /// A game without players, which players may join.
    pub fn new() -> (game: Game)
        ensures
            game.wf(),
            game.players@.len() == 0,
            game.next_id.0 == 0,
            game.phase == Phase::AwaitingPlayers,
    {
        Game { players: Vec::new(), next_id: PlayerId::new(), phase: Phase::AwaitingPlayers }
    }

    /// The place of the player with the identifier, if there is one.
    pub fn find(&self, id: PlayerId) -> (r: Option<usize>)
        ensures
            r matches Some(i) ==> i < self.players@.len() && self.players@[i as int].id == id,
            r is Some <==> has_player(self.players@, id),
    {
        let mut i: usize = 0;
        while i < self.players.len()
            invariant
                i <= self.players.len(),
                forall|k: int| 0 <= k < i ==> self.players@[k].id != id,
            decreases self.players.len() - i,
        {
            if self.players[i].id == id {
                return Some(i);
            }
            i += 1;
        }
        None
    }

    /// The identifiers of the players of an audience, in the order in which
    /// they joined.
    pub fn ids(&self, a: Audience) -> (out: Vec<PlayerId>)
        ensures
            out@ == select_ids(self.players@, a),
    {
        let mut out: Vec<PlayerId> = Vec::new();
        let mut i: usize = 0;
        while i < self.players.len()
            invariant
                i <= self.players.len(),
                out@ == select_ids(self.players@.take(i as int), a),
            decreases self.players.len() - i,
        {
            proof {
                assert(self.players@.take(i + 1).drop_last() =~= self.players@.take(i as int));
            }
            if self.players[i].is_reached(a) {
                out.push(self.players[i].id);
            }
            i += 1;
        }
        proof {
            assert(self.players@.take(self.players.len() as int) =~= self.players@);
        }
        out
    }

    /// The players that a broadcast goes to: every player whose session
    /// works, dead or alive, in the order in which they joined.
    pub fn send_all(&self) -> (out: Vec<PlayerId>)
        ensures
            out@ == select_ids(self.players@, Audience::Everyone),
    {
        self.ids(Audience::Everyone)
    }

    /// Records that the session of a player has failed. The player gets no
    /// further message and is no longer counted among the living. Returns
    /// whether there is such a player.
    pub fn session_lost(&mut self, id: PlayerId) -> (found: bool)
        requires
            old(self).wf(),
        ensures
            final(self).wf(),
            found == has_player(old(self).players@, id),
            final(self).next_id == old(self).next_id,
            final(self).phase == old(self).phase,
            found ==> final(self).players@ == with_lost(
                old(self).players@,
                slot_of(old(self).players@, id),
            ),
            !found ==> final(self).players@ == old(self).players@,
    {
        match self.find(id) {
            None => false,
            Some(i) => {
                self.players[i].connected = false;
                proof {
                    lemma_slot_unique(old(self).players@, i as int);
                    assert(self.players@ =~= with_lost(old(self).players@, i as int));
                    lemma_roles_kept(old(self).players@, self.players@);
                }
                true
            },
        }
    }

    /// Returns an identifier for a player that joins. No later call returns
    /// the same one.
    pub fn take_next_id(&mut self) -> (id: PlayerId)
        requires
            old(self).wf(),
            old(self).next_id.0 < usize::MAX,
        ensures
            final(self).wf(),
            id == old(self).next_id,
            !has_player(old(self).players@, id),
            final(self).next_id.0 == id.0 + 1,
            final(self).players == old(self).players,
            final(self).phase == old(self).phase,
    {
        let id = self.next_id;
        self.next_id = id.next();
        id
    }
}

/// The players are the same but for who is dead and whose session works.
pub open spec fn same_cast(before: Seq<Player>, after: Seq<Player>) -> bool {
    &&& after.len() == before.len()
    &&& forall|i: int|
        0 <= i < before.len() ==> (#[trigger] after[i]).id == before[i].id && after[i].name
            == before[i].name && after[i].role == before[i].role
}

/// Among the same players the same one is the wolf, and the identifiers keep
/// their order.
pub proof fn lemma_roles_kept(before: Seq<Player>, after: Seq<Player>)
    requires
        same_cast(before, after),
    ensures
        ascending_ids(before) ==> ascending_ids(after),
        forall|w: int| is_wolf_at(before, w) ==> is_wolf_at(after, w),
{
    if ascending_ids(before) {
        assert forall|i: int, j: int| 0 <= i < j < after.len() implies after[i].id.0
            < after[j].id.0 by {
            assert(after[i].id == before[i].id);
            assert(after[j].id == before[j].id);
        }
    }
    assert forall|w: int| is_wolf_at(before, w) implies is_wolf_at(after, w) by {
        assert forall|i: int| 0 <= i < after.len() implies (#[trigger] after[i]).role == Some(
            if i == w {
                Role::Wolf
            } else {
                Role::Villager
            },
        ) by {
            assert(before[i].role == after[i].role);
        }
    }
}

/// What `plan` and the game after it say of a player that joined under `name`:
/// the newcomer got the next free identifier and stands last among the
/// players, alive and without a role; the others are told of it, and it is
/// told of the others.
pub open spec fn admitted(before: Game, name: String, plan: JoinPlan, after: Game) -> bool {
    &&& plan.id == before.next_id
    &&& plan.assigned == StcMessage::IdAssigned(plan.id)
    &&& plan.announce == StcMessage::AnnounceJoin(plan.id, name)
    &&& plan.announce_to@ == select_ids(before.players@, Audience::Everyone)
    &&& plan.roster matches StcMessage::Players(list) && is_roster(before.players@, list@)
    &&& after.players@ == before.players@.push(
        Player { id: plan.id, name, dead: false, role: None, connected: true },
    )
    &&& after.next_id.0 == before.next_id.0 + 1
    &&& after.phase == before.phase
}

/// What the game after the draw says of the roles, and `script` of whom to
/// tell: the player at `w` is the wolf, every other player a villager, each
/// is told its own role, and night follows.
pub open spec fn roles_drawn(before: Game, w: int, script: Seq<Outgoing>, after: Game) -> bool {
    &&& 0 <= w < before.players@.len()
    &&& after.phase == Phase::Night
    &&& after.next_id == before.next_id
    &&& after.players@.len() == before.players@.len()
    &&& script.len() == before.players@.len()
    &&& forall|i: int|
        0 <= i < before.players@.len() ==> {
            let role = if i == w {
                Role::Wolf
            } else {
                Role::Villager
            };
            &&& after.players@[i] == Player { role: Some(role), ..before.players@[i] }
            &&& (#[trigger] script[i]).to == before.players@[i].id
            &&& script[i].msg == StcMessage::RoleAssigned(role)
        }
}

/// Calls `gen_range` of the crate rand on the generator that `thread_rng`
/// gives, with the range from zero up to, and without, `n`. An empty range
/// makes `gen_range` panic, so `n` must not be zero. Nothing is said of which
/// index is drawn, only that it lies in the range.
#[verifier::external_body]
fn draw_index(n: usize) -> (i: usize)
    requires
        n > 0,
    ensures
        i < n,
{
    rand::thread_rng().gen_range(0..n)
}

impl Game {
    /// The names of the players by identifier, in the order in which they
    /// joined.
    pub fn roster(&self) -> (list: Vec<(PlayerId, String)>)
        ensures
            is_roster(self.players@, list@),
    {
        let mut list: Vec<(PlayerId, String)> = Vec::new();
        let mut i: usize = 0;
        while i < self.players.len()
            invariant
                i <= self.players.len(),
                list@.len() == i,
                forall|k: int|
                    0 <= k < i ==> (#[trigger] list@[k]).0 == self.players@[k].id && list@[k].1
                        == self.players@[k].name,
            decreases self.players.len() - i,
        {
            list.push((self.players[i].id, self.players[i].name.clone()));
            i += 1;
        }
        list
    }

    /// The player can be added: players may still join, the player is alive
    /// and has no role, and its identifier was handed out by this game and
    /// lies above those of the players that are in the game.
    pub open spec fn admissible(&self, player: Player) -> bool {
        &&& self.phase == Phase::AwaitingPlayers
        &&& player.role is None
        &&& !player.dead
        &&& player.id.0 < self.next_id.0
        &&& forall|i: int|
            0 <= i < self.players@.len() ==> (#[trigger] self.players@[i]).id.0 < player.id.0
    }

    /// Adds the given player to the game. Returns the players to tell of it,
    /// and the players that it is to be told of: those that were in the game
    /// before it. A player that cannot be added is refused, and nothing
    /// changes.
    pub fn add_player(&mut self, player: Player) -> (r: Result<
        (Vec<PlayerId>, Vec<(PlayerId, String)>),
        Fault,
    >)
        requires
            old(self).wf(),
        ensures
            final(self).wf(),
            r is Ok <==> old(self).admissible(player),
            r is Err ==> fails(r, Fault::InvariantViolation) && *final(self) == *old(self),
            r matches Ok(told) ==> {
                &&& final(self).players@ == old(self).players@.push(player)
                &&& final(self).next_id == old(self).next_id
                &&& final(self).phase == old(self).phase
                &&& told.0@ == select_ids(old(self).players@, Audience::Everyone)
                &&& is_roster(old(self).players@, told.1@)
            },
    {
        match self.phase {
            Phase::AwaitingPlayers => {},
            _ => {
                return Err(Fault::InvariantViolation);
            },
        }
        if player.role.is_some() || player.dead || player.id.0 >= self.next_id.0 {
            return Err(Fault::InvariantViolation);
        }
        let n = self.players.len();
        if n > 0 && self.players[n - 1].id.0 >= player.id.0 {
            proof {
                assert(!(self.players@[n - 1].id.0 < player.id.0));
            }
            return Err(Fault::InvariantViolation);
        }
        proof {
            assert forall|i: int| 0 <= i < n implies (#[trigger] self.players@[i]).id.0
                < player.id.0 by {
                if i < n - 1 {
                    assert(self.players@[i].id.0 < self.players@[n - 1].id.0);
                }
            }
        }
        let announce_to = self.send_all();
        let list = self.roster();
        self.players.push(player);
        Ok((announce_to, list))
    }

    /// Closes the join window. A game starts with at least `MIN_PLAYERS`
    /// players, and only once.
    pub fn start(&mut self) -> (r: Result<(), Fault>)
        requires
            old(self).wf(),
        ensures
            final(self).wf(),
            final(self).players == old(self).players,
            final(self).next_id == old(self).next_id,
            r is Ok <==> old(self).phase == Phase::AwaitingPlayers && old(self).players@.len()
                >= MIN_PLAYERS,
            r is Ok ==> final(self).phase == Phase::RoleAssignment,
            r is Err ==> fails(r, Fault::InvariantViolation) && final(self).phase == old(
                self,
            ).phase,
    {
        match self.phase {
            Phase::AwaitingPlayers => {
                if self.players.len() >= MIN_PLAYERS {
                    self.phase = Phase::RoleAssignment;
                    Ok(())
                } else {
                    Err(Fault::InvariantViolation)
                }
            },
            _ => Err(Fault::InvariantViolation),
        }
    }

    /// Makes the player at `wolf_index` the wolf and every other player a
    /// villager, and returns the message that tells each player its role.
    ///
    /// Roles are drawn once, after the join window has closed: in any other
    /// phase, or for an index that names no player, nothing changes.
    pub fn assign_roles_with(&mut self, wolf_index: usize) -> (r: Result<Vec<Outgoing>, Fault>)
        requires
            old(self).wf(),
        ensures
            final(self).wf(),
            r is Ok <==> old(self).phase == Phase::RoleAssignment && wolf_index < old(
                self,
            ).players@.len(),
            r matches Ok(script) ==> roles_drawn(
                *old(self),
                wolf_index as int,
                script@,
                *final(self),
            ),
            r is Err ==> fails(r, Fault::InvariantViolation) && *final(self) == *old(self),
    {
        match self.phase {
            Phase::RoleAssignment => {},
            _ => {
                return Err(Fault::InvariantViolation);
            },
        }
        if wolf_index >= self.players.len() {
            return Err(Fault::InvariantViolation);
        }
        let mut script: Vec<Outgoing> = Vec::new();
        let mut i: usize = 0;
        while i < self.players.len()
            invariant
                i <= self.players.len(),
                self.players@.len() == old(self).players@.len(),
                self.next_id == old(self).next_id,
                self.phase == old(self).phase,
                script@.len() == i,
                forall|k: int| i <= k < self.players@.len() ==> self.players@[k] == old(
                    self,
                ).players@[k],
                forall|k: int|
                    0 <= k < i ==> {
                        let role = if k == wolf_index {
                            Role::Wolf
                        } else {
                            Role::Villager
                        };
                        &&& self.players@[k] == Player {
                            role: Some(role),
                            ..old(self).players@[k]
                        }
                        &&& (#[trigger] script@[k]).to == old(self).players@[k].id
                        &&& script@[k].msg == StcMessage::RoleAssigned(role)
                    },
            decreases self.players.len() - i,
        {
            let role = if i == wolf_index {
                Role::Wolf
            } else {
                Role::Villager
            };
            self.players[i].role = Some(role);
            script.push(Outgoing { to: self.players[i].id, msg: StcMessage::RoleAssigned(role) });
            i += 1;
        }
        self.phase = Phase::Night;
        proof {
            assert forall|k: int| 0 <= k < self.players@.len() implies (#[trigger] self.players@[k])
                == (Player {
                role: Some(
                    if k == wolf_index {
                        Role::Wolf
                    } else {
                        Role::Villager
                    },
                ),
                ..old(self).players@[k]
            }) by {
                let _ = script@[k];
            }
            assert(is_wolf_at(self.players@, wolf_index as int));
            assert(!old(self).players@[wolf_index as int].dead);
        }
        Ok(script)
    }

    /// Draws the wolf among the players, each with the same chance, makes
    /// every other player a villager, and returns the message that tells each
    /// player its role.
    ///
    /// Roles are drawn once, after the join window has closed: in any other
    /// phase nothing changes.
    pub fn assign_roles(&mut self) -> (r: Result<Vec<Outgoing>, Fault>)
        requires
            old(self).wf(),
        ensures
            final(self).wf(),
            r is Ok <==> old(self).phase == Phase::RoleAssignment,
            r matches Ok(script) ==> exists|w: int|
                #[trigger] roles_drawn(*old(self), w, script@, *final(self)),
            r is Err ==> fails(r, Fault::InvariantViolation) && *final(self) == *old(self),
    {
        match self.phase {
            Phase::RoleAssignment => {
                let wolf_index = draw_index(self.players.len());
                self.assign_roles_with(wolf_index)
            },
            _ => Err(Fault::InvariantViolation),
        }
    }
}

impl Player {
    /// Takes a newcomer into the game, given the first message of its
    /// connection, and says what to send to whom.
    ///
    /// The first message must be `Connect` with the player's name, and players
    /// join only before the game has started: otherwise the connection is
    /// refused and nothing changes. The newcomer gets the next free
    /// identifier; running out of identifiers is the host's fault.
    pub fn join(game: &mut Game, hello: CtsMessage) -> (r: Result<JoinPlan, Fault>)
        requires
            old(game).wf(),
        ensures
            final(game).wf(),
            r is Err ==> *final(game) == *old(game),
            match hello {
                CtsMessage::Connect(name) => if old(game).phase != Phase::AwaitingPlayers {
                    fails(r, Fault::ProtocolViolation)
                } else if old(game).next_id.0 == usize::MAX {
                    fails(r, Fault::InvariantViolation)
                } else {
                    r is Ok && admitted(*old(game), name, r->Ok_0, *final(game))
                },
                _ => fails(r, Fault::ProtocolViolation),
            },
    {
        let name = match hello {
            CtsMessage::Connect(name) => name,
            _ => {
                return Err(Fault::ProtocolViolation);
            },
        };
        match game.phase {
            Phase::AwaitingPlayers => {},
            _ => {
                return Err(Fault::ProtocolViolation);
            },
        }
        if game.next_id.0 == usize::MAX {
            return Err(Fault::InvariantViolation);
        }
        let id = game.take_next_id();
        let announce = StcMessage::AnnounceJoin(id, name.clone());
        let player = Player { id, name, dead: false, role: None, connected: true };
        match game.add_player(player) {
            Ok((announce_to, list)) => Ok(
                JoinPlan {
                    id,
                    assigned: StcMessage::IdAssigned(id),
                    announce,
                    announce_to,
                    roster: StcMessage::Players(list),
                },
            ),
            Err(fault) => Err(fault),
        }
    }
}

/// A newcomer is not among the players that are told of its joining.
pub proof fn lemma_newcomer_not_told(before: Game, name: String, plan: JoinPlan, after: Game)
    requires
        before.wf(),
        admitted(before, name, plan, after),
    ensures
        !plan.announce_to@.contains(plan.id),
{
    lemma_select_ids(before.players@, Audience::Everyone);
    if plan.announce_to@.contains(plan.id) {
        let k = choose|k: int|
            0 <= k < plan.announce_to@.len() && plan.announce_to@[k] == plan.id;
        let i = slot_of(before.players@, plan.announce_to@[k]);
        assert(has_player(before.players@, plan.announce_to@[k]));
        assert(before.players@[i].id.0 < before.next_id.0);
    }
}

/// The victim that a reply names, if the reply is a kill of one of the
/// players that the wolf may kill.
pub open spec fn accepted_kill(players: Seq<Player>, reply: CtsMessage) -> Option<PlayerId> {
    match reply {
        CtsMessage::Kill(id) => if select_ids(players, Audience::Prey).contains(id) {
            Some(id)
        } else {
            None
        },
        _ => None,
    }
}

/// How a night begins in a game whose wolf stands at `w`. A wolf that is
/// gone has lost. A wolf with nobody left to kill has won. Otherwise the wolf
/// is asked to choose among the living players other than itself.
pub open spec fn night_begins(players: Seq<Player>, w: int, step: NightStep, next: Phase) -> bool {
    if !players[w].active() {
        step == NightStep::Over(Winner::Village) && next == Phase::GameOver(Winner::Village)
    } else if select_ids(players, Audience::Prey).len() == 0 {
        step == NightStep::Over(Winner::Wolf) && next == Phase::GameOver(Winner::Wolf)
    } else {
        &&& next == Phase::Night
        &&& step matches NightStep::Ask { wolf, options }
        &&& wolf == players[w].id
        &&& options matches StcMessage::KillOptions(list)
        &&& list@ == select_ids(players, Audience::Prey)
    }
}

/// The side that has won once the player at `out` has been voted out, among
/// the players as they are after that. With the wolf out the village has won.
/// With exactly one wolf and one villager left alive the wolf has won.
pub open spec fn winner_after(players: Seq<Player>, out: int) -> Option<Winner> {
    if players[out].role == Some(Role::Wolf) {
        Some(Winner::Village)
    } else if living_count(players, Role::Wolf) == 1 && living_count(players, Role::Villager)
        == 1 {
        Some(Winner::Wolf)
    } else {
        None
    }
}

/// What the verdict `v` does to a game. Outside a day it is refused. Without
/// a majority nobody dies and night follows. A player that is voted out dies,
/// and the game ends if that decides it; a verdict against someone who is not
/// alive in this game is refused.
pub open spec fn day_closed(
    before: Game,
    v: Verdict,
    r: Result<DayReport, Fault>,
    after: Game,
) -> bool {
    if before.phase != Phase::Day {
        fails(r, Fault::InvariantViolation) && after == before
    } else {
        match v {
            Verdict::NoMajority => {
                &&& r == Ok::<DayReport, Fault>(DayReport { verdict: v, winner: None })
                &&& after.players@ == before.players@
                &&& after.next_id == before.next_id
                &&& after.phase == Phase::Night
            },
            Verdict::Eliminated(t) => {
                let i = slot_of(before.players@, t);
                if !has_player(before.players@, t) || before.players@[i].dead {
                    fails(r, Fault::InvariantViolation) && after == before
                } else {
                    let winner = winner_after(with_dead(before.players@, i), i);
                    &&& r == Ok::<DayReport, Fault>(DayReport { verdict: v, winner })
                    &&& after.players@ == with_dead(before.players@, i)
                    &&& after.next_id == before.next_id
                    &&& after.phase == match winner {
                        Some(side) => Phase::GameOver(side),
                        None => Phase::Night,
                    }
                }
            },
        }
    }
}

impl Game {
    /// The roles have been drawn.
    pub open spec fn started(&self) -> bool {
        self.phase != Phase::AwaitingPlayers && self.phase != Phase::RoleAssignment
    }

    /// The place of the wolf in a game whose roles are drawn.
    fn wolf(&self) -> (w: usize)
        requires
            self.wf(),
            self.started(),
        ensures
            is_wolf_at(self.players@, w as int),
            w == self.wolf_slot(),
    {
        proof {
            let v = choose|v: int| is_wolf_at(self.players@, v);
            lemma_wolf_unique(self.players@, v, self.wolf_slot());
        }
        let mut i: usize = 0;
        while i < self.players.len()
            invariant
                i <= self.players.len(),
                is_wolf_at(self.players@, self.wolf_slot()),
                i <= self.wolf_slot(),
            decreases self.players.len() - i,
        {
            match self.players[i].role {
                Some(Role::Wolf) => {
                    return i;
                },
                _ => {},
            }
            i += 1;
        }
        0
    }

    /// The number of living players with the given role.
    pub fn count_living(&self, role: Role) -> (n: usize)
        ensures
            n == living_count(self.players@, role),
    {
        let mut n: usize = 0;
        let mut i: usize = 0;
        while i < self.players.len()
            invariant
                i <= self.players.len(),
                n <= i,
                n == living_count(self.players@.take(i as int), role),
            decreases self.players.len() - i,
        {
            proof {
                assert(self.players@.take(i + 1).drop_last() =~= self.players@.take(i as int));
            }
            let counts = self.players[i].is_active() && match self.players[i].role {
                Some(r) => r == role,
                None => false,
            };
            if counts {
                n += 1;
            }
            i += 1;
        }
        proof {
            assert(self.players@.take(self.players.len() as int) =~= self.players@);
        }
        n
    }

    /// The side that has won, once the game is over.
    pub fn winner(&self) -> (r: Option<Winner>)
        ensures
            r == match self.phase {
                Phase::GameOver(side) => Some(side),
                _ => None,
            },
    {
        match self.phase {
            Phase::GameOver(side) => Some(side),
            _ => None,
        }
    }

    /// The last broadcast of a game: the side that has won. There is none
    /// before the game is over.
    pub fn announcement(&self) -> (r: Option<StcMessage>)
        ensures
            r == match self.phase {
                Phase::GameOver(side) => Some(StcMessage::AnnounceWinner(side)),
                _ => None,
            },
    {
        match self.phase {
            Phase::GameOver(side) => Some(StcMessage::AnnounceWinner(side)),
            _ => None,
        }
    }

    /// Begins a night. The caller broadcasts `NightFalls` and `WolvesWake`,
    /// then does as the step says: it asks the wolf for its victim and hands
    /// the reply to [`Game::resolve_kill`], or announces the winner.
    pub fn play_night(&mut self) -> (r: Result<NightStep, Fault>)
        requires
            old(self).wf(),
        ensures
            final(self).wf(),
            final(self).players == old(self).players,
            final(self).next_id == old(self).next_id,
            r is Ok <==> old(self).phase == Phase::Night,
            r is Err ==> fails(r, Fault::InvariantViolation) && final(self).phase == old(
                self,
            ).phase,
            r matches Ok(step) ==> night_begins(
                old(self).players@,
                old(self).wolf_slot(),
                step,
                final(self).phase,
            ),
    {
        match self.phase {
            Phase::Night => {},
            _ => {
                return Err(Fault::InvariantViolation);
            },
        }
        let w = self.wolf();
        if !self.players[w].is_active() {
            self.phase = Phase::GameOver(Winner::Village);
            return Ok(NightStep::Over(Winner::Village));
        }
        let prey = self.ids(Audience::Prey);
        if prey.len() == 0 {
            self.phase = Phase::GameOver(Winner::Wolf);
            return Ok(NightStep::Over(Winner::Wolf));
        }
        Ok(NightStep::Ask { wolf: self.players[w].id, options: StcMessage::KillOptions(prey) })
    }

    /// Ends a night with the wolf's reply to its options.
    ///
    /// A kill of one of the players that were offered makes that player die,
    /// and day follows; the victim is returned, to be broadcast with `Died`.
    /// Any other reply forfeits the game: the wolf is out and the village has
    /// won.
    pub fn resolve_kill(&mut self, reply: &CtsMessage) -> (r: Result<PlayerId, Fault>)
        requires
            old(self).wf(),
        ensures
            final(self).wf(),
            final(self).next_id == old(self).next_id,
            old(self).phase != Phase::Night ==> fails(r, Fault::InvariantViolation) && *final(self)
                == *old(self),
            old(self).phase == Phase::Night ==> match accepted_kill(old(self).players@, *reply) {
                Some(id) => {
                    &&& r == Ok::<PlayerId, Fault>(id)
                    &&& has_player(old(self).players@, id)
                    &&& final(self).players@ == with_dead(
                        old(self).players@,
                        slot_of(old(self).players@, id),
                    )
                    &&& final(self).phase == Phase::Day
                },
                None => {
                    &&& fails(r, Fault::ProtocolViolation)
                    &&& final(self).players@ == with_dead(
                        old(self).players@,
                        old(self).wolf_slot(),
                    )
                    &&& final(self).phase == Phase::GameOver(Winner::Village)
                },
            },
    {
        match self.phase {
            Phase::Night => {},
            _ => {
                return Err(Fault::InvariantViolation);
            },
        }
        let w = self.wolf();
        proof {
            lemma_select_ids(self.players@, Audience::Prey);
        }
        let victim: Option<usize> = match reply {
            CtsMessage::Kill(id) => match self.find(*id) {
                Some(i) => {
                    proof {
                        lemma_slot_unique(self.players@, i as int);
                    }
                    if self.players[i].is_reached(Audience::Prey) {
                        Some(i)
                    } else {
                        None
                    }
                },
                None => None,
            },
            _ => None,
        };
        proof {
            let prey = select_ids(self.players@, Audience::Prey);
            match accepted_kill(self.players@, *reply) {
                Some(id) => {
                    let k = choose|k: int| 0 <= k < prey.len() && prey[k] == id;
                    assert(has_player(self.players@, prey[k]));
                    assert(victim is Some);
                },
                None => {
                    assert(victim is None);
                },
            }
        }
        match victim {
            Some(i) => {
                let id = self.players[i].id;
                self.players[i].dead = true;
                self.phase = Phase::Day;
                proof {
                    assert(self.players@ =~= with_dead(old(self).players@, i as int));
                    lemma_roles_kept(old(self).players@, self.players@);
                    assert(is_wolf_at(self.players@, w as int));
                }
                Ok(id)
            },
            None => {
                self.players[w].dead = true;
                self.phase = Phase::GameOver(Winner::Village);
                proof {
                    assert(self.players@ =~= with_dead(old(self).players@, w as int));
                    lemma_roles_kept(old(self).players@, self.players@);
                    assert(is_wolf_at(self.players@, w as int));
                }
                Err(Fault::ProtocolViolation)
            },
        }
    }

    /// Begins a day: opens the vote among the living players, each of whom
    /// votes and can be voted against.
    ///
    /// The caller takes the voters in the order of the poll's candidates. For
    /// each it broadcasts `WaitingFor`, asks the voter with
    /// [`Poll::options`], hands the reply to [`Poll::cast`] and broadcasts the
    /// accepted vote with `AnnounceVote`. Then it calls [`Game::close_day`].
    pub fn play_day(&self) -> (r: Result<Poll, Fault>)
        requires
            self.wf(),
        ensures
            r is Ok <==> self.phase == Phase::Day,
            r is Err ==> fails(r, Fault::InvariantViolation),
            r matches Ok(poll) ==> {
                &&& poll.wf()
                &&& poll.candidates@ == select_ids(self.players@, Audience::Living)
                &&& poll.ballots_spec().len() == 0
                &&& forall|k: int| 0 <= k < poll.choices@.len() ==> poll.choices@[k] is None
            },
    {
        match self.phase {
            Phase::Day => {
                let living = self.ids(Audience::Living);
                proof {
                    lemma_select_ids(self.players@, Audience::Living);
                }
                Poll::open(living)
            },
            _ => Err(Fault::InvariantViolation),
        }
    }

    /// Ends a day with the given verdict.
    pub fn apply_verdict(&mut self, v: Verdict) -> (r: Result<DayReport, Fault>)
        requires
            old(self).wf(),
        ensures
            final(self).wf(),
            day_closed(*old(self), v, r, *final(self)),
    {
        match self.phase {
            Phase::Day => {},
            _ => {
                return Err(Fault::InvariantViolation);
            },
        }
        let w = self.wolf();
        match v {
            Verdict::NoMajority => {
                self.phase = Phase::Night;
                Ok(DayReport { verdict: v, winner: None })
            },
            Verdict::Eliminated(t) => {
                let i = match self.find(t) {
                    Some(i) => i,
                    None => {
                        return Err(Fault::InvariantViolation);
                    },
                };
                proof {
                    lemma_slot_unique(self.players@, i as int);
                }
                if self.players[i].dead {
                    return Err(Fault::InvariantViolation);
                }
                self.players[i].dead = true;
                proof {
                    assert(self.players@ =~= with_dead(old(self).players@, i as int));
                    lemma_roles_kept(old(self).players@, self.players@);
                    assert(is_wolf_at(self.players@, w as int));
                }
                let winner = if i == w {
                    Some(Winner::Village)
                } else if self.count_living(Role::Wolf) == 1 && self.count_living(Role::Villager)
                    == 1 {
                    Some(Winner::Wolf)
                } else {
                    None
                };
                self.phase = match winner {
                    Some(side) => Phase::GameOver(side),
                    None => Phase::Night,
                };
                Ok(DayReport { verdict: v, winner })
            },
        }
    }

    /// Ends a day: counts the poll's ballots and carries out the verdict.
    ///
    /// A candidate is voted out if more than half of the poll's candidates,
    /// rounded down, vote against it. The caller broadcasts `VotedOut` or
    /// `NoMajority` as the report says, and the winner if there is one.
    pub fn close_day(&mut self, poll: &Poll) -> (r: Result<DayReport, Fault>)
        requires
            old(self).wf(),
            poll.wf(),
        ensures
            final(self).wf(),
            day_closed(*old(self), poll.verdict(), r, *final(self)),
    {
        let verdict = poll.close();
        self.apply_verdict(verdict)
    }
}

/// Voting the wolf out ends the game at once, and the village has won.
pub proof fn lemma_wolf_out_village_wins(
    before: Game,
    t: PlayerId,
    r: Result<DayReport, Fault>,
    after: Game,
)
    requires
        before.wf(),
        before.phase == Phase::Day,
        has_player(before.players@, t),
        before.players@[slot_of(before.players@, t)].role == Some(Role::Wolf),
        day_closed(before, Verdict::Eliminated(t), r, after),
    ensures
        r is Ok,
        r->Ok_0.winner == Some(Winner::Village),
        after.phase == Phase::GameOver(Winner::Village),
{
    let w = choose|w: int| #[trigger] is_wolf_at(before.players@, w) && !before.players@[w].dead;
    assert(before.players@[slot_of(before.players@, t)].role == Some(Role::Wolf));
}

/// Voting a villager out so that exactly one wolf and one villager are left
/// alive ends the game at once, and the wolf has won.
pub proof fn lemma_parity_wolf_wins(
    before: Game,
    t: PlayerId,
    r: Result<DayReport, Fault>,
    after: Game,
)
    requires
        before.wf(),
        before.phase == Phase::Day,
        has_player(before.players@, t),
        !before.players@[slot_of(before.players@, t)].dead,
        before.players@[slot_of(before.players@, t)].role == Some(Role::Villager),
        day_closed(before, Verdict::Eliminated(t), r, after),
        living_count(after.players@, Role::Wolf) == 1,
        living_count(after.players@, Role::Villager) == 1,
    ensures
        r is Ok,
        r->Ok_0.winner == Some(Winner::Wolf),
        after.phase == Phase::GameOver(Winner::Wolf),
{
}

/// A wolf that answers its options with anything but one of them, itself
/// included, has lost at once: the village has won.
pub proof fn lemma_wolf_cannot_kill_itself(players: Seq<Player>, w: int)
    requires
        ascending_ids(players),
        is_wolf_at(players, w),
    ensures
        accepted_kill(players, CtsMessage::Kill(players[w].id)) is None,
{
    lemma_select_ids(players, Audience::Prey);
    let prey = select_ids(players, Audience::Prey);
    if prey.contains(players[w].id) {
        let k = choose|k: int| 0 <= k < prey.len() && prey[k] == players[w].id;
        assert(has_player(players, prey[k]));
        lemma_slot_unique(players, w);
    }
}

/// Once the roles are drawn, the game is past the drawing and the player
/// that was drawn is its wolf.
pub proof fn lemma_roles_drawn_once(before: Game, w: int, script: Seq<Outgoing>, after: Game)
    requires
        roles_drawn(before, w, script, after),
    ensures
        after.phase != Phase::RoleAssignment,
        is_wolf_at(after.players@, w),
{
    assert forall|i: int| 0 <= i < after.players@.len() implies (#[trigger] after.players@[i]).role
        == Some(
        if i == w {
            Role::Wolf
        } else {
            Role::Villager
        },
    ) by {
        let _ = script[i];
    }
}

/// A game whose roles are drawn has exactly one wolf: the player at the
/// wolf's place is the wolf and no other player is.
pub proof fn lemma_one_wolf(game: Game)
    requires
        game.wf(),
        game.started(),
    ensures
        is_wolf_at(game.players@, game.wolf_slot()),
        forall|i: int|
            0 <= i < game.players@.len() ==> ((#[trigger] game.players@[i]).role == Some(
                Role::Wolf,
            ) <==> i == game.wolf_slot()),
{
    let w = choose|w: int| #[trigger] is_wolf_at(game.players@, w);
    lemma_wolf_unique(game.players@, w, game.wolf_slot());
}

/// A player that dies or whose session is lost keeps its identifier, its
/// name and its role, and no player that was dead comes back to life.
pub proof fn lemma_cast_kept(players: Seq<Player>, i: int)
    requires
        0 <= i < players.len(),
    ensures
        same_cast(players, with_dead(players, i)),
        same_cast(players, with_lost(players, i)),
        forall|k: int|
            0 <= k < players.len() && players[k].dead ==> (#[trigger] with_dead(
                players,
                i,
            )[k]).dead,
        forall|k: int|
            0 <= k < players.len() ==> (#[trigger] with_lost(players, i)[k]).dead
                == players[k].dead,
{
}

impl Game {
    /// Whether no player has a role or has died.
    pub fn all_fresh(&self) -> (b: bool)
        ensures
            b == no_roles(self.players@),
    {
        let mut i: usize = 0;
        while i < self.players.len()
            invariant
                i <= self.players.len(),
                forall|k: int|
                    0 <= k < i ==> (#[trigger] self.players@[k]).role is None
                        && !self.players@[k].dead,
            decreases self.players.len() - i,
        {
            if self.players[i].role.is_some() || self.players[i].dead {
                return false;
            }
            i += 1;
        }
        true
    }

    /// The place of the wolf, if exactly one player is the wolf and every
    /// other player is a villager.
    pub fn sole_wolf(&self) -> (r: Option<usize>)
        ensures
            r matches Some(w) ==> is_wolf_at(self.players@, w as int),
            r is None ==> forall|w: int| !is_wolf_at(self.players@, w),
    {
        let mut w: usize = 0;
        let mut found = false;
        while w < self.players.len() && !found
            invariant
                w <= self.players.len(),
                forall|k: int| 0 <= k < w ==> (#[trigger] self.players@[k]).role != Some(Role::Wolf),
                found ==> w < self.players.len() && self.players@[w as int].role == Some(
                    Role::Wolf,
                ),
            decreases self.players.len() - w + if found { 0int } else { 1int },
        {
            match self.players[w].role {
                Some(Role::Wolf) => {
                    found = true;
                },
                _ => {
                    w += 1;
                },
            }
        }
        if !found {
            proof {
                assert forall|v: int| !is_wolf_at(self.players@, v) by {
                    if is_wolf_at(self.players@, v) {
                        assert(self.players@[v].role == Some(Role::Wolf));
                    }
                }
            }
            return None;
        }
        let mut i: usize = 0;
        while i < self.players.len()
            invariant
                i <= self.players.len(),
                w < self.players.len(),
                self.players@[w as int].role == Some(Role::Wolf),
                forall|k: int|
                    0 <= k < i && k != w ==> (#[trigger] self.players@[k]).role == Some(
                        Role::Villager,
                    ),
            decreases self.players.len() - i,
        {
            if i != w {
                let villager = match self.players[i].role {
                    Some(Role::Villager) => true,
                    _ => false,
                };
                if !villager {
                    proof {
                        assert forall|v: int| !is_wolf_at(self.players@, v) by {
                            if is_wolf_at(self.players@, v) {
                                if v == w {
                                    assert(self.players@[i as int].role == Some(Role::Villager));
                                } else {
                                    assert(self.players@[w as int].role == Some(Role::Villager));
                                }
                            }
                        }
                    }
                    return None;
                }
            }
            i += 1;
        }
        Some(w)
    }

    /// Whether the game is sound. A game that was made by [`Game::new`] and
    /// changed by the steps of this module always is.
    pub fn is_wf(&self) -> (b: bool)
        ensures
            b == self.wf(),
    {
        let mut i: usize = 0;
        while i < self.players.len()
            invariant
                i <= self.players.len(),
                forall|k: int|
                    0 <= k < i ==> (#[trigger] self.players@[k]).id.0 < self.next_id.0,
                forall|a: int, b: int|
                    0 <= a < b < i ==> self.players@[a].id.0 < self.players@[b].id.0,
            decreases self.players.len() - i,
        {
            if self.players[i].id.0 >= self.next_id.0 {
                return false;
            }
            if i > 0 && self.players[i - 1].id.0 >= self.players[i].id.0 {
                proof {
                    assert(!(self.players@[i - 1].id.0 < self.players@[i as int].id.0));
                }
                return false;
            }
            proof {
                assert forall|a: int| 0 <= a < i implies self.players@[a].id.0
                    < self.players@[i as int].id.0 by {
                    if a < i - 1 {
                        assert(self.players@[a].id.0 < self.players@[i - 1].id.0);
                    }
                }
            }
            i += 1;
        }
        match self.phase {
            Phase::AwaitingPlayers => self.all_fresh(),
            Phase::RoleAssignment => self.all_fresh() && self.players.len() >= MIN_PLAYERS,
            Phase::Night | Phase::Day => match self.sole_wolf() {
                Some(w) => {
                    proof {
                        if self.players@[w as int].dead {
                            assert forall|v: int| #[trigger]
                                is_wolf_at(self.players@, v) implies self.players@[v].dead by {
                                lemma_wolf_unique(self.players@, v, w as int);
                            }
                        }
                    }
                    !self.players[w].dead
                },
                None => false,
            },
            Phase::GameOver(_) => self.sole_wolf().is_some(),
        }
    }
}

} // verus!
