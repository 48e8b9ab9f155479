use werewolf::comm::{CtsMessage, Fault, PlayerId, Role, StcMessage, Winner};
use werewolf::server::{
    Audience, DayReport, Game, NightStep, Outgoing, Phase, Player, MIN_PLAYERS,
};
use werewolf::tally::Verdict;

fn connect(name: &str) -> CtsMessage {
    CtsMessage::Connect(String::from(name))
}

fn ids(raw: &[usize]) -> Vec<PlayerId> {
    raw.iter().map(|&n| PlayerId(n)).collect()
}

/// A game of players named a, b, c, ... in which the player at `wolf` is the
/// wolf and the first night is about to begin.
fn game_at_night(n: usize, wolf: usize) -> Game {
    let mut game = Game::new();
    for i in 0..n {
        let name = ((b'a' + i as u8) as char).to_string();
        Player::join(&mut game, CtsMessage::Connect(name)).unwrap();
    }
    assert_eq!(game.start(), Ok(()));
    game.assign_roles_with(wolf).unwrap();
    game
}

fn wolves(game: &Game) -> Vec<PlayerId> {
    game.players.iter().filter(|p| p.role == Some(Role::Wolf)).map(|p| p.id).collect()
}

fn vote(game: &mut Game, votes: &[(usize, usize)]) -> Result<DayReport, Fault> {
    let mut poll = game.play_day().unwrap();
    for &(voter, target) in votes {
        assert_eq!(
            poll.cast(PlayerId(voter), &CtsMessage::Vote(PlayerId(target))),
            Ok(PlayerId(target))
        );
    }
    game.close_day(&poll)
}

#[test]
fn new_game_awaits_players() {
    let game = Game::new();
    assert!(game.players.is_empty());
    assert_eq!(game.next_id, PlayerId(0));
    assert_eq!(game.phase, Phase::AwaitingPlayers);
    assert_eq!(game.winner(), None);
    assert_eq!(game.announcement(), None);
    assert!(game.send_all().is_empty());
}

#[test]
fn take_next_id_never_repeats() {
    let mut game = Game::new();
    assert_eq!(game.take_next_id(), PlayerId(0));
    assert_eq!(game.take_next_id(), PlayerId(1));
    assert_eq!(game.take_next_id(), PlayerId(2));
    assert_eq!(game.next_id, PlayerId(3));
}

#[test]
fn join_ordering() {
    let mut game = Game::new();

    let a = Player::join(&mut game, connect("A")).unwrap();
    assert_eq!(a.id, PlayerId(0));
    assert_eq!(a.assigned, StcMessage::IdAssigned(PlayerId(0)));
    assert_eq!(a.roster, StcMessage::Players(Vec::new()));
    assert!(a.announce_to.is_empty());

    let b = Player::join(&mut game, connect("B")).unwrap();
    assert_eq!(b.id, PlayerId(1));
    assert_eq!(b.assigned, StcMessage::IdAssigned(PlayerId(1)));
    assert_eq!(b.roster, StcMessage::Players(vec![(PlayerId(0), String::from("A"))]));
    assert_eq!(b.announce, StcMessage::AnnounceJoin(PlayerId(1), String::from("B")));
    assert_eq!(b.announce_to, ids(&[0]));
    assert!(!b.announce_to.contains(&b.id));

    let c = Player::join(&mut game, connect("C")).unwrap();
    assert_eq!(c.id, PlayerId(2));
    assert_eq!(
        c.roster,
        StcMessage::Players(vec![
            (PlayerId(0), String::from("A")),
            (PlayerId(1), String::from("B"))
        ])
    );
    assert_eq!(c.announce_to, ids(&[0, 1]));

    assert_eq!(game.players.len(), 3);
    assert_eq!(
        game.players[2],
        Player {
            id: PlayerId(2),
            name: String::from("C"),
            dead: false,
            role: None,
            connected: true
        }
    );
    assert_eq!(game.next_id, PlayerId(3));
    assert_eq!(game.phase, Phase::AwaitingPlayers);
}

#[test]
fn join_needs_connect_first() {
    let mut game = Game::new();
    for hello in [CtsMessage::Received, CtsMessage::Vote(PlayerId(0)), CtsMessage::Kill(PlayerId(0))]
    {
        assert_eq!(Player::join(&mut game, hello), Err(Fault::ProtocolViolation));
    }
    assert_eq!(game, Game::new());
}

#[test]
fn join_after_start_is_refused() {
    let mut game = Game::new();
    Player::join(&mut game, connect("A")).unwrap();
    Player::join(&mut game, connect("B")).unwrap();
    game.start().unwrap();
    assert_eq!(Player::join(&mut game, connect("C")), Err(Fault::ProtocolViolation));
    assert_eq!(game.players.len(), 2);
    assert_eq!(game.next_id, PlayerId(2));
    game.assign_roles_with(0).unwrap();
    assert_eq!(Player::join(&mut game, connect("C")), Err(Fault::ProtocolViolation));
    assert_eq!(game.players.len(), 2);
}

#[test]
fn join_without_identifiers_left_is_a_host_fault() {
    let mut game = Game::new();
    game.next_id = PlayerId(usize::MAX);
    assert_eq!(Player::join(&mut game, connect("A")), Err(Fault::InvariantViolation));
    assert!(game.players.is_empty());
    assert_eq!(game.next_id, PlayerId(usize::MAX));
}

#[test]
fn join_skips_lost_sessions_in_the_announcement() {
    let mut game = Game::new();
    Player::join(&mut game, connect("A")).unwrap();
    Player::join(&mut game, connect("B")).unwrap();
    assert!(game.session_lost(PlayerId(0)));
    let c = Player::join(&mut game, connect("C")).unwrap();
    assert_eq!(c.announce_to, ids(&[1]));
    assert_eq!(
        c.roster,
        StcMessage::Players(vec![
            (PlayerId(0), String::from("A")),
            (PlayerId(1), String::from("B"))
        ])
    );
}

#[test]
fn add_player_reports_who_was_there() {
    let mut game = Game::new();
    let first = game.take_next_id();
    let told = game.add_player(Player {
        id: first,
        name: String::from("A"),
        dead: false,
        role: None,
        connected: true,
    });
    assert_eq!(told, Ok((Vec::new(), Vec::new())));
    let second = game.take_next_id();
    let told = game.add_player(Player {
        id: second,
        name: String::from("B"),
        dead: false,
        role: None,
        connected: true,
    });
    assert_eq!(told, Ok((ids(&[0]), vec![(PlayerId(0), String::from("A"))])));
    assert_eq!(game.roster(), vec![(PlayerId(0), String::from("A")), (PlayerId(1), String::from("B"))]);
}

#[test]
fn add_player_refuses_what_would_break_the_game() {
    let fresh = |id: usize| Player {
        id: PlayerId(id),
        name: String::from("x"),
        dead: false,
        role: None,
        connected: true,
    };
    let mut game = Game::new();
    // The identifier was never handed out.
    assert_eq!(game.add_player(fresh(0)), Err(Fault::InvariantViolation));
    game.take_next_id();
    game.take_next_id();
    assert!(game.add_player(fresh(1)).is_ok());
    // The identifier is taken, or lies below one that is.
    assert_eq!(game.add_player(fresh(1)), Err(Fault::InvariantViolation));
    assert_eq!(game.add_player(fresh(0)), Err(Fault::InvariantViolation));
    game.take_next_id();
    // A newcomer is alive and has no role.
    assert_eq!(
        game.add_player(Player { dead: true, ..fresh(2) }),
        Err(Fault::InvariantViolation)
    );
    assert_eq!(
        game.add_player(Player { role: Some(Role::Villager), ..fresh(2) }),
        Err(Fault::InvariantViolation)
    );
    assert_eq!(game.players.len(), 1);
    assert!(game.add_player(fresh(2)).is_ok());
    // Nobody joins a game that has started.
    game.start().unwrap();
    game.take_next_id();
    assert_eq!(game.add_player(fresh(3)), Err(Fault::InvariantViolation));
    assert_eq!(game.players.len(), 2);
    assert!(game.is_wf());
}

#[test]
fn soundness_check_tells_broken_games() {
    let mut game = Game::new();
    assert!(game.is_wf());
    for name in ["A", "B", "C"] {
        Player::join(&mut game, connect(name)).unwrap();
        assert!(game.is_wf());
    }
    assert!(game.all_fresh());
    assert_eq!(game.sole_wolf(), None);

    // Identifiers out of order, or not below the next free one.
    game.players.swap(0, 1);
    assert!(!game.is_wf());
    game.players.swap(0, 1);
    game.next_id = PlayerId(2);
    assert!(!game.is_wf());
    game.next_id = PlayerId(3);
    assert!(game.is_wf());

    // A role or a death before the roles are drawn.
    game.players[1].role = Some(Role::Villager);
    assert!(!game.all_fresh());
    assert!(!game.is_wf());
    game.players[1].role = None;
    game.players[1].dead = true;
    assert!(!game.is_wf());
    game.players[1].dead = false;

    // Too few players to draw roles.
    let mut small = Game::new();
    Player::join(&mut small, connect("A")).unwrap();
    small.phase = Phase::RoleAssignment;
    assert!(!small.is_wf());

    game.start().unwrap();
    assert!(game.is_wf());
    game.assign_roles_with(2).unwrap();
    assert!(game.is_wf());
    assert!(!game.all_fresh());
    assert_eq!(game.sole_wolf(), Some(2));

    // Two wolves, no wolf, a player without a role.
    game.players[0].role = Some(Role::Wolf);
    assert_eq!(game.sole_wolf(), None);
    assert!(!game.is_wf());
    game.players[0].role = Some(Role::Villager);
    game.players[2].role = Some(Role::Villager);
    assert_eq!(game.sole_wolf(), None);
    assert!(!game.is_wf());
    game.players[2].role = Some(Role::Wolf);
    game.players[1].role = None;
    assert_eq!(game.sole_wolf(), None);
    assert!(!game.is_wf());
    game.players[1].role = Some(Role::Villager);
    assert!(game.is_wf());

    // A dead wolf while the game goes on; the same once it is over.
    game.players[2].dead = true;
    assert!(!game.is_wf());
    game.phase = Phase::Day;
    assert!(!game.is_wf());
    game.phase = Phase::GameOver(Winner::Village);
    assert!(game.is_wf());
}

#[test]
fn start_needs_enough_players() {
    assert_eq!(MIN_PLAYERS, 2);
    let mut game = Game::new();
    assert_eq!(game.start(), Err(Fault::InvariantViolation));
    Player::join(&mut game, connect("A")).unwrap();
    assert_eq!(game.start(), Err(Fault::InvariantViolation));
    assert_eq!(game.phase, Phase::AwaitingPlayers);
    Player::join(&mut game, connect("B")).unwrap();
    assert_eq!(game.start(), Ok(()));
    assert_eq!(game.phase, Phase::RoleAssignment);
    assert_eq!(game.start(), Err(Fault::InvariantViolation));
    assert_eq!(game.phase, Phase::RoleAssignment);
}

#[test]
fn role_before_assignment_is_a_host_fault() {
    let mut game = Game::new();
    Player::join(&mut game, connect("A")).unwrap();
    assert_eq!(game.players[0].role(), Err(Fault::InvariantViolation));
}

#[test]
fn assign_roles_with_makes_one_wolf() {
    let mut game = Game::new();
    for name in ["A", "B", "C"] {
        Player::join(&mut game, connect(name)).unwrap();
    }
    game.start().unwrap();
    let script = game.assign_roles_with(1).unwrap();
    assert_eq!(
        script,
        vec![
            Outgoing { to: PlayerId(0), msg: StcMessage::RoleAssigned(Role::Villager) },
            Outgoing { to: PlayerId(1), msg: StcMessage::RoleAssigned(Role::Wolf) },
            Outgoing { to: PlayerId(2), msg: StcMessage::RoleAssigned(Role::Villager) },
        ]
    );
    assert_eq!(game.players[0].role(), Ok(Role::Villager));
    assert_eq!(game.players[1].role(), Ok(Role::Wolf));
    assert_eq!(game.players[2].role(), Ok(Role::Villager));
    assert_eq!(game.phase, Phase::Night);
    assert_eq!(game.sole_wolf(), Some(1));
    assert_eq!(game.count_living(Role::Wolf), 1);
    assert_eq!(game.count_living(Role::Villager), 2);
}

#[test]
fn assign_roles_with_refuses_a_missing_player() {
    let mut game = Game::new();
    for name in ["A", "B"] {
        Player::join(&mut game, connect(name)).unwrap();
    }
    game.start().unwrap();
    assert_eq!(game.assign_roles_with(2), Err(Fault::InvariantViolation));
    assert_eq!(game.phase, Phase::RoleAssignment);
    assert!(game.players.iter().all(|p| p.role.is_none()));
}

#[test]
fn assign_roles_before_start_is_refused() {
    let mut game = Game::new();
    for name in ["A", "B"] {
        Player::join(&mut game, connect(name)).unwrap();
    }
    assert_eq!(game.assign_roles(), Err(Fault::InvariantViolation));
    assert_eq!(game.assign_roles_with(0), Err(Fault::InvariantViolation));
    assert_eq!(game.phase, Phase::AwaitingPlayers);
    assert!(game.players.iter().all(|p| p.role.is_none()));
}

#[test]
fn assign_roles_draws_exactly_one_wolf() {
    for n in 2..7 {
        for _ in 0..20 {
            let mut game = Game::new();
            for i in 0..n {
                Player::join(&mut game, connect(&i.to_string())).unwrap();
            }
            game.start().unwrap();
            let script = game.assign_roles().unwrap();
            assert_eq!(script.len(), n);
            assert_eq!(wolves(&game).len(), 1);
            for (i, out) in script.iter().enumerate() {
                assert_eq!(out.to, game.players[i].id);
                assert_eq!(out.msg, StcMessage::RoleAssigned(game.players[i].role.unwrap()));
            }
            assert!(game.players.iter().all(|p| p.role.is_some()));
            assert_eq!(game.phase, Phase::Night);
        }
    }
}

#[test]
fn assign_roles_runs_once() {
    let mut game = game_at_night(4, 2);
    let before: Vec<Option<Role>> = game.players.iter().map(|p| p.role).collect();
    assert_eq!(game.assign_roles(), Err(Fault::InvariantViolation));
    assert_eq!(game.assign_roles_with(0), Err(Fault::InvariantViolation));
    let after: Vec<Option<Role>> = game.players.iter().map(|p| p.role).collect();
    assert_eq!(before, after);
    assert_eq!(wolves(&game), ids(&[2]));
    assert_eq!(game.phase, Phase::Night);
}

#[test]
fn audiences() {
    let mut game = game_at_night(5, 1);
    assert_eq!(game.ids(Audience::Everyone), ids(&[0, 1, 2, 3, 4]));
    assert_eq!(game.ids(Audience::Living), ids(&[0, 1, 2, 3, 4]));
    assert_eq!(game.ids(Audience::Prey), ids(&[0, 2, 3, 4]));
    game.play_night().unwrap();
    game.resolve_kill(&CtsMessage::Kill(PlayerId(3))).unwrap();
    assert!(game.session_lost(PlayerId(4)));
    assert_eq!(game.send_all(), ids(&[0, 1, 2, 3]));
    assert_eq!(game.ids(Audience::Living), ids(&[0, 1, 2]));
    assert_eq!(game.ids(Audience::Prey), ids(&[0, 2]));
    assert!(game.players[0].is_active());
    assert!(!game.players[3].is_active());
    assert!(!game.players[4].is_active());
    assert!(game.players[3].is_reached(Audience::Everyone));
    assert!(!game.players[1].is_reached(Audience::Prey));
}

#[test]
fn find_goes_by_identifier() {
    let game = game_at_night(3, 0);
    assert_eq!(game.find(PlayerId(2)), Some(2));
    assert_eq!(game.find(PlayerId(3)), None);
}

#[test]
fn session_lost_of_a_stranger_changes_nothing() {
    let mut game = game_at_night(3, 0);
    let before = game_at_night(3, 0);
    assert!(!game.session_lost(PlayerId(9)));
    assert_eq!(game, before);
}

#[test]
fn night_asks_the_wolf_with_the_living_villagers() {
    let mut game = game_at_night(4, 2);
    let step = game.play_night().unwrap();
    assert_eq!(
        step,
        NightStep::Ask { wolf: PlayerId(2), options: StcMessage::KillOptions(ids(&[0, 1, 3])) }
    );
    assert_eq!(game.phase, Phase::Night);
}

#[test]
fn night_kill_marks_the_victim_dead() {
    let mut game = game_at_night(4, 2);
    game.play_night().unwrap();
    assert_eq!(game.resolve_kill(&CtsMessage::Kill(PlayerId(1))), Ok(PlayerId(1)));
    assert!(game.players[1].dead);
    assert!(!game.players[0].dead && !game.players[2].dead && !game.players[3].dead);
    assert_eq!(game.phase, Phase::Day);
    assert_eq!(game.winner(), None);
    assert_eq!(wolves(&game), ids(&[2]));
}

#[test]
fn wolf_that_kills_itself_forfeits() {
    let mut game = game_at_night(3, 0);
    game.play_night().unwrap();
    assert_eq!(game.resolve_kill(&CtsMessage::Kill(PlayerId(0))), Err(Fault::ProtocolViolation));
    assert_eq!(game.phase, Phase::GameOver(Winner::Village));
    assert_eq!(game.winner(), Some(Winner::Village));
    assert_eq!(game.announcement(), Some(StcMessage::AnnounceWinner(Winner::Village)));
    assert!(game.players[0].dead);
    assert!(!game.players[1].dead && !game.players[2].dead);
}

#[test]
fn wolf_that_answers_wrongly_forfeits() {
    for reply in [
        CtsMessage::Received,
        CtsMessage::Vote(PlayerId(1)),
        CtsMessage::Kill(PlayerId(17)),
        CtsMessage::Connect(String::from("x")),
    ] {
        let mut game = game_at_night(3, 2);
        game.play_night().unwrap();
        assert_eq!(game.resolve_kill(&reply), Err(Fault::ProtocolViolation));
        assert_eq!(game.winner(), Some(Winner::Village));
        assert!(game.players[2].dead);
    }
}

#[test]
fn wolf_cannot_kill_the_dead() {
    let mut game = game_at_night(5, 0);
    game.play_night().unwrap();
    game.resolve_kill(&CtsMessage::Kill(PlayerId(1))).unwrap();
    assert_eq!(vote(&mut game, &[]).unwrap().verdict, Verdict::NoMajority);
    let step = game.play_night().unwrap();
    assert_eq!(
        step,
        NightStep::Ask { wolf: PlayerId(0), options: StcMessage::KillOptions(ids(&[2, 3, 4])) }
    );
    assert_eq!(game.resolve_kill(&CtsMessage::Kill(PlayerId(1))), Err(Fault::ProtocolViolation));
    assert_eq!(game.winner(), Some(Winner::Village));
}

#[test]
fn night_without_the_wolf_ends_the_game() {
    let mut game = game_at_night(3, 1);
    assert!(game.session_lost(PlayerId(1)));
    assert_eq!(game.play_night(), Ok(NightStep::Over(Winner::Village)));
    assert_eq!(game.phase, Phase::GameOver(Winner::Village));
}

#[test]
fn night_without_prey_ends_the_game() {
    let mut game = game_at_night(3, 1);
    assert!(game.session_lost(PlayerId(0)));
    assert!(game.session_lost(PlayerId(2)));
    assert_eq!(game.play_night(), Ok(NightStep::Over(Winner::Wolf)));
    assert_eq!(game.phase, Phase::GameOver(Winner::Wolf));
}

#[test]
fn steps_in_the_wrong_phase_are_host_faults() {
    let mut game = Game::new();
    Player::join(&mut game, connect("A")).unwrap();
    Player::join(&mut game, connect("B")).unwrap();
    let before_phase = game.phase;
    assert_eq!(game.play_night(), Err(Fault::InvariantViolation));
    assert_eq!(game.resolve_kill(&CtsMessage::Kill(PlayerId(1))), Err(Fault::InvariantViolation));
    assert_eq!(game.play_day(), Err(Fault::InvariantViolation));
    assert_eq!(game.apply_verdict(Verdict::NoMajority), Err(Fault::InvariantViolation));
    assert_eq!(game.phase, before_phase);
    assert!(game.players.iter().all(|p| !p.dead));

    let mut game = game_at_night(3, 0);
    assert_eq!(game.play_day(), Err(Fault::InvariantViolation));
    assert_eq!(
        game.apply_verdict(Verdict::Eliminated(PlayerId(1))),
        Err(Fault::InvariantViolation)
    );
    assert!(!game.players[1].dead);
    game.play_night().unwrap();
    game.resolve_kill(&CtsMessage::Kill(PlayerId(1))).unwrap();
    assert_eq!(game.play_night(), Err(Fault::InvariantViolation));
    assert_eq!(game.resolve_kill(&CtsMessage::Kill(PlayerId(2))), Err(Fault::InvariantViolation));
    assert!(!game.players[2].dead);
    assert_eq!(game.phase, Phase::Day);
}

#[test]
fn day_opens_a_poll_of_the_living() {
    let mut game = game_at_night(4, 0);
    game.play_night().unwrap();
    game.resolve_kill(&CtsMessage::Kill(PlayerId(2))).unwrap();
    let poll = game.play_day().unwrap();
    assert_eq!(poll.candidates, ids(&[0, 1, 3]));
    assert_eq!(poll.choices, vec![None, None, None]);
    assert_eq!(poll.options(), StcMessage::VoteOptions(ids(&[0, 1, 3])));
}

#[test]
fn dead_player_gets_no_vote() {
    let mut game = game_at_night(4, 0);
    game.play_night().unwrap();
    game.resolve_kill(&CtsMessage::Kill(PlayerId(2))).unwrap();
    let mut poll = game.play_day().unwrap();
    assert_eq!(
        poll.cast(PlayerId(2), &CtsMessage::Vote(PlayerId(0))),
        Err(Fault::InvariantViolation)
    );
    assert_eq!(
        poll.cast(PlayerId(1), &CtsMessage::Vote(PlayerId(2))),
        Err(Fault::ProtocolViolation)
    );
}

#[test]
fn voting_the_wolf_out_wins_for_the_village() {
    let mut game = game_at_night(5, 3);
    game.play_night().unwrap();
    game.resolve_kill(&CtsMessage::Kill(PlayerId(0))).unwrap();
    let report = vote(&mut game, &[(1, 3), (2, 3), (3, 1), (4, 3)]).unwrap();
    assert_eq!(
        report,
        DayReport { verdict: Verdict::Eliminated(PlayerId(3)), winner: Some(Winner::Village) }
    );
    assert_eq!(game.phase, Phase::GameOver(Winner::Village));
    assert!(game.players[3].dead);
    assert_eq!(game.announcement(), Some(StcMessage::AnnounceWinner(Winner::Village)));
}

#[test]
fn parity_wins_for_the_wolf() {
    let mut game = game_at_night(4, 0);
    game.play_night().unwrap();
    game.resolve_kill(&CtsMessage::Kill(PlayerId(1))).unwrap();
    let report = vote(&mut game, &[(0, 2), (2, 3), (3, 2)]).unwrap();
    assert_eq!(
        report,
        DayReport { verdict: Verdict::Eliminated(PlayerId(2)), winner: Some(Winner::Wolf) }
    );
    assert_eq!(game.phase, Phase::GameOver(Winner::Wolf));
    assert_eq!(game.count_living(Role::Wolf), 1);
    assert_eq!(game.count_living(Role::Villager), 1);
}

#[test]
fn voting_a_villager_out_above_parity_goes_on() {
    let mut game = game_at_night(6, 0);
    game.play_night().unwrap();
    game.resolve_kill(&CtsMessage::Kill(PlayerId(1))).unwrap();
    let report = vote(&mut game, &[(0, 2), (2, 3), (3, 2), (4, 2), (5, 0)]).unwrap();
    assert_eq!(
        report,
        DayReport { verdict: Verdict::Eliminated(PlayerId(2)), winner: None }
    );
    assert_eq!(game.phase, Phase::Night);
    assert!(game.players[2].dead);
    assert_eq!(game.count_living(Role::Villager), 3);
}

#[test]
fn no_majority_eliminates_nobody() {
    let mut game = game_at_night(5, 0);
    game.play_night().unwrap();
    game.resolve_kill(&CtsMessage::Kill(PlayerId(1))).unwrap();
    let report = vote(&mut game, &[(0, 2), (2, 0), (3, 2), (4, 0)]).unwrap();
    assert_eq!(report, DayReport { verdict: Verdict::NoMajority, winner: None });
    assert_eq!(game.phase, Phase::Night);
    assert_eq!(game.ids(Audience::Living), ids(&[0, 2, 3, 4]));
}

#[test]
fn day_without_any_ballot_eliminates_nobody() {
    let mut game = game_at_night(3, 0);
    game.play_night().unwrap();
    game.resolve_kill(&CtsMessage::Kill(PlayerId(1))).unwrap();
    let mut poll = game.play_day().unwrap();
    assert_eq!(poll.cast(PlayerId(0), &CtsMessage::Received), Err(Fault::ProtocolViolation));
    assert_eq!(
        poll.cast(PlayerId(2), &CtsMessage::Kill(PlayerId(0))),
        Err(Fault::ProtocolViolation)
    );
    assert_eq!(
        game.close_day(&poll),
        Ok(DayReport { verdict: Verdict::NoMajority, winner: None })
    );
    assert_eq!(game.phase, Phase::Night);
}

#[test]
fn verdict_against_a_stranger_or_the_dead_is_a_host_fault() {
    let mut game = game_at_night(4, 0);
    game.play_night().unwrap();
    game.resolve_kill(&CtsMessage::Kill(PlayerId(1))).unwrap();
    assert_eq!(
        game.apply_verdict(Verdict::Eliminated(PlayerId(9))),
        Err(Fault::InvariantViolation)
    );
    assert_eq!(
        game.apply_verdict(Verdict::Eliminated(PlayerId(1))),
        Err(Fault::InvariantViolation)
    );
    assert_eq!(game.phase, Phase::Day);
    assert_eq!(game.ids(Audience::Living), ids(&[0, 2, 3]));
}

#[test]
fn end_to_end_village_wins() {
    let mut game = Game::new();
    for name in ["A", "B", "C"] {
        Player::join(&mut game, connect(name)).unwrap();
    }
    game.start().unwrap();
    game.assign_roles().unwrap();
    assert_eq!(wolves(&game).len(), 1);
    let wolf = wolves(&game)[0];

    let (asked, options) = match game.play_night().unwrap() {
        NightStep::Ask { wolf, options: StcMessage::KillOptions(options) } => (wolf, options),
        other => panic!("the wolf was not asked: {:?}", other),
    };
    assert_eq!(asked, wolf);
    assert_eq!(options.len(), 2);
    assert!(!options.contains(&wolf));
    let victim = options[0];
    let survivor = options[1];
    assert_eq!(game.resolve_kill(&CtsMessage::Kill(victim)), Ok(victim));

    let mut poll = game.play_day().unwrap();
    assert_eq!(poll.candidates.len(), 2);
    assert!(poll.candidates.contains(&wolf) && poll.candidates.contains(&survivor));
    assert_eq!(poll.cast(wolf, &CtsMessage::Vote(wolf)), Ok(wolf));
    assert_eq!(poll.cast(survivor, &CtsMessage::Vote(wolf)), Ok(wolf));
    assert_eq!(
        game.close_day(&poll),
        Ok(DayReport { verdict: Verdict::Eliminated(wolf), winner: Some(Winner::Village) })
    );
    assert_eq!(game.winner(), Some(Winner::Village));
    assert_eq!(wolves(&game), vec![wolf]);
}

#[test]
fn end_to_end_split_vote_returns_to_night() {
    for wolf in 0..3 {
        let mut game = game_at_night(3, wolf);
        let victim = (wolf + 1) % 3;
        let survivor = (wolf + 2) % 3;
        game.play_night().unwrap();
        assert_eq!(game.resolve_kill(&CtsMessage::Kill(PlayerId(victim))), Ok(PlayerId(victim)));

        // Each of the two votes against the other.
        let report = vote(&mut game, &[(wolf, survivor), (survivor, wolf)]).unwrap();
        assert_eq!(report, DayReport { verdict: Verdict::NoMajority, winner: None });
        assert_eq!(game.phase, Phase::Night);
        assert_eq!(game.winner(), None);
        assert_eq!(wolves(&game), ids(&[wolf]));

        // The next night the wolf is asked again, with the one villager left.
        assert_eq!(
            game.play_night(),
            Ok(NightStep::Ask {
                wolf: PlayerId(wolf),
                options: StcMessage::KillOptions(ids(&[survivor]))
            })
        );
    }
}

#[test]
fn end_to_end_both_vote_for_themselves() {
    let mut game = game_at_night(3, 1);
    game.play_night().unwrap();
    game.resolve_kill(&CtsMessage::Kill(PlayerId(0))).unwrap();
    let report = vote(&mut game, &[(1, 1), (2, 2)]).unwrap();
    assert_eq!(report, DayReport { verdict: Verdict::NoMajority, winner: None });
    assert_eq!(game.phase, Phase::Night);
}

#[test]
fn the_wolf_stays_the_same_through_the_game() {
    let mut game = game_at_night(6, 4);
    let mut nights = 0;
    while game.winner().is_none() {
        assert_eq!(wolves(&game), ids(&[4]));
        let options = match game.play_night().unwrap() {
            NightStep::Ask { options: StcMessage::KillOptions(options), .. } => options,
            NightStep::Over(_) => break,
            other => panic!("unexpected step {:?}", other),
        };
        game.resolve_kill(&CtsMessage::Kill(options[0])).unwrap();
        assert_eq!(wolves(&game), ids(&[4]));
        let poll = game.play_day().unwrap();
        game.close_day(&poll).unwrap();
        nights += 1;
        assert!(nights <= 6);
    }
    assert_eq!(wolves(&game), ids(&[4]));
    assert_eq!(game.sole_wolf(), Some(4));
}
