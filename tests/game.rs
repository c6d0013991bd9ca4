use hoops::court::CourtArea;
use hoops::dice::Dice;
use hoops::event::{format_clock, GameEvent, Possession};
use hoops::game::{rng, Game, GamePhase, TickDraws, PERIOD_MS, SHOT_CLOCK_MS};
use hoops::player::{Player, PlayerAttributes};
use hoops::team::Team;

fn roster(prefix: &str, shooting: i32, ath: i32) -> Vec<Player> {
    (0..5)
        .map(|i| {
            let mut a = PlayerAttributes::new();
            a.close_shot = shooting;
            a.mid_shot = shooting;
            a.deep_shot = shooting;
            a.ath = ath + i;
            Player::new(
                Some(i as i64),
                format!("{}{}", prefix, i),
                "Player".to_string(),
                "G".to_string(),
                25,
                78,
                200,
                a,
            )
        })
        .collect()
}

fn new_game(home_shooting: i32, away_shooting: i32) -> Game {
    Game::new(
        Team::new(Some(1), "Hawks".to_string(), "Atlanta".to_string()),
        Team::new(Some(2), "Celtics".to_string(), "Boston".to_string()),
        roster("H", home_shooting, 60),
        Vec::new(),
        roster("A", away_shooting, 50),
        Vec::new(),
    )
    .unwrap()
}

fn draws(jump: u64, receiver: u64, pass: u64, shot: u64, elapsed: u64) -> TickDraws {
    TickDraws {
        jump,
        receiver,
        pass,
        shot,
        elapsed,
        players: vec![0; 20],
    }
}

fn ball_holders(g: &Game) -> Vec<(Possession, usize)> {
    let (home, away) = g.get_player_states();
    let mut r = Vec::new();
    for (j, s) in home.iter().enumerate() {
        if s.has_ball {
            r.push((Possession::Home, j));
        }
    }
    for (j, s) in away.iter().enumerate() {
        if s.has_ball {
            r.push((Possession::Away, j));
        }
    }
    r
}

/// The elapsed draw that makes a tick take `ms` with `time` left.
fn elapsed_draw(time: u64, ms: u64) -> u64 {
    let hi = time.min(8000);
    let lo = hi.min(1000);
    ms - lo
}

fn same_events(a: &[GameEvent], b: &[GameEvent]) -> bool {
    a.len() == b.len()
        && a.iter().zip(b.iter()).all(|(x, y)| {
            x.action == y.action
                && x.time == y.time
                && x.period == y.period
                && x.possession == y.possession
        })
}

#[test]
fn new_game_starts_level_with_full_clocks() {
    let g = new_game(50, 50);
    assert_eq!(g.get_period(), 1);
    assert_eq!(g.get_time_ms(), 720_000);
    assert_eq!(g.get_shot_clock_ms(), 24_000);
    assert_eq!(g.get_score(), (0, 0));
    assert_eq!(g.get_possession(), None);
    assert_eq!(g.get_phase(), GamePhase::NotStarted);
    assert_eq!(g.get_time(), "12:00:000");
    assert!(g.player_has_ball().is_none());
}

#[test]
fn short_roster_is_rejected() {
    let mut four = roster("H", 50, 50);
    four.pop();
    let r = Game::new(
        Team::new(None, "A".to_string(), "B".to_string()),
        Team::new(None, "C".to_string(), "D".to_string()),
        four,
        Vec::new(),
        roster("A", 50, 50),
        Vec::new(),
    );
    assert!(r.is_err());
}

#[test]
fn jump_ball_gives_one_player_the_ball() {
    let mut g = new_game(50, 50);
    let e = g.advance_with(&draws(99, 7, 0, 0, 0)).unwrap();
    assert_eq!(g.get_phase(), GamePhase::InPeriod);
    assert_eq!(g.get_period(), 1);
    assert_eq!(g.get_time_ms(), PERIOD_MS);
    assert_eq!(g.get_shot_clock_ms(), SHOT_CLOCK_MS);
    assert_eq!(g.get_score(), (0, 0));
    // Home's best composite (64 + 78) beats away's (54 + 78) by 10: home wins below 60.
    // The roll of 99 goes to the underdog.
    assert_eq!(g.get_possession(), Some((Possession::Away, 2)));
    assert_eq!(ball_holders(&g), vec![(Possession::Away, 2)]);
    assert_eq!(e.possession, Some(Possession::Away));
    assert_eq!(e.action, "Jump Ball won for Away by A4 Player. A2 Player has the ball.");
    assert_eq!(g.events().len(), 1);
}

#[test]
fn jump_ball_decision() {
    assert_eq!(rng(100, 100, 49), 0);
    assert_eq!(rng(100, 100, 50), 1);
    assert_eq!(rng(110, 100, 59), 0);
    assert_eq!(rng(110, 100, 60), 1);
    assert_eq!(rng(100, 110, 59), 1);
    assert_eq!(rng(100, 110, 60), 0);
    assert_eq!(rng(200, 100, 99), 0);
}

#[test]
fn ball_stays_with_one_player_through_a_game() {
    let mut g = new_game(60, 60);
    let mut dice = Dice::seeded(11);
    for _ in 0..400 {
        if g.generate_next_game_event(&mut dice).is_err() {
            break;
        }
        let holders = ball_holders(&g);
        assert_eq!(holders.len(), 1);
        let (t, j) = g.get_possession().unwrap();
        assert_eq!(holders[0], (t, j));
    }
}

#[test]
fn shot_flips_possession_once_and_resets_shot_clock() {
    let mut g = new_game(90, 90);
    g.advance_with(&draws(0, 0, 0, 0, 0)).unwrap();
    let mut dice = Dice::seeded(3);
    let mut checked = 0;
    for _ in 0..300 {
        let (t, j) = g.get_possession().unwrap();
        if g.get_time_ms() == 0 {
            break;
        }
        let (home, away) = g.get_player_states();
        let handler = if t == Possession::Home { home[j] } else { away[j] };
        let d = TickDraws::roll(&mut dice);
        let before_time = g.get_time_ms();
        let before_shot_clock = g.get_shot_clock_ms();
        let shot = handler.is_shot().is_some() || before_shot_clock < 500 || before_time < 500;
        let e = g.advance_with(&d).unwrap();
        let (u, _) = g.get_possession().unwrap();
        let elapsed = before_time - g.get_time_ms();
        assert!(elapsed >= 1000.min(before_time) && elapsed <= 8000.min(before_time));
        if shot {
            assert_ne!(u, t);
            assert_eq!(g.get_shot_clock_ms(), SHOT_CLOCK_MS - elapsed);
            checked += 1;
        } else if elapsed > before_shot_clock {
            assert_ne!(u, t);
            assert_eq!(g.get_shot_clock_ms(), SHOT_CLOCK_MS);
            assert_eq!(e.action, "Turnover");
            assert_eq!(e.possession, Some(t));
        } else {
            assert_eq!(u, t);
            assert_eq!(g.get_shot_clock_ms(), before_shot_clock - elapsed);
        }
        assert!(g.get_time_ms() <= before_time);
    }
    assert!(checked > 0);
}

#[test]
fn possession_change_regroups_players() {
    let mut g = new_game(50, 50);
    g.advance_with(&draws(0, 0, 0, 0, 0)).unwrap();
    let (t, _) = g.get_possession().unwrap();
    let (home_before, away_before) = g.get_player_states();
    let other = if t == Possession::Home { Possession::Away } else { Possession::Home };
    g.change_possession(Some((other, 1)));
    assert_eq!(g.get_shot_clock_ms(), SHOT_CLOCK_MS);
    let (home, away) = g.get_player_states();
    for (before, after) in home_before.iter().zip(home.iter()).chain(away_before.iter().zip(away.iter())) {
        if before.current_area.is_front_court() {
            assert_eq!(after.current_area, CourtArea::Backcourt);
        } else if before.current_area == CourtArea::Backcourt {
            assert_eq!(after.current_area, CourtArea::Center);
        } else {
            assert_eq!(after.current_area, before.current_area);
        }
    }
    assert_eq!(ball_holders(&g), vec![(other, 1)]);
    // A pass within the team keeps everyone in place.
    let (home_before, _) = g.get_player_states();
    let shot_clock = g.get_shot_clock_ms();
    g.change_possession(Some((other, 4)));
    let (home_after, _) = g.get_player_states();
    for (b, a) in home_before.iter().zip(home_after.iter()) {
        assert_eq!(b.current_area, a.current_area);
    }
    assert_eq!(g.get_shot_clock_ms(), shot_clock);
}

/// Plays ticks with fixed draws (every shot made when `make`, missed otherwise), eight
/// seconds at a time, until the clock of the current period runs out.
fn run_out_period(g: &mut Game, make: bool) {
    while g.get_time_ms() > 0 {
        let t = g.get_time_ms();
        let ms = t.min(8000);
        let d = draws(0, 1, 2, if make { 0 } else { 99_999 }, elapsed_draw(t, ms.max(t.min(1000))));
        g.advance_with(&d).unwrap();
    }
}

#[test]
fn regulation_ending_level_goes_to_overtime() {
    let mut g = new_game(0, 0);
    g.advance_with(&draws(0, 0, 0, 0, 0)).unwrap();
    for period in 1..=4u8 {
        assert_eq!(g.get_period(), period);
        run_out_period(&mut g, false);
        assert_eq!(g.get_score(), (0, 0));
        let e = g.advance_with(&draws(0, 0, 0, 0, 0)).unwrap();
        if period < 4 {
            assert_eq!(e.action, "End of Quarter");
            assert_eq!(g.get_time_ms(), PERIOD_MS);
        } else {
            assert_eq!(e.action, "Overtime");
        }
    }
    assert_eq!(g.get_period(), 5);
    assert_eq!(g.get_time_ms(), 300_000);
    assert_eq!(g.get_shot_clock_ms(), SHOT_CLOCK_MS);
    assert_eq!(g.get_phase(), GamePhase::InPeriod);
}

#[test]
fn regulation_ending_apart_ends_the_game() {
    for seed in 0..20 {
        let mut g = new_game(80, 60);
        let mut dice = Dice::seeded(seed);
        loop {
            let closing = g.get_phase() == GamePhase::InPeriod
                && g.get_time_ms() == 0
                && g.get_period() >= 4;
            let score = g.get_score();
            let period = g.get_period();
            let r = g.generate_next_game_event(&mut dice);
            if closing {
                let e = r.unwrap();
                if score.0 != score.1 {
                    assert!(e.is_game_end());
                    assert_eq!(g.get_phase(), GamePhase::Ended);
                    assert_eq!(g.get_period(), period);
                    assert!(g.generate_next_game_event(&mut dice).is_err());
                    return;
                }
                assert_eq!(e.action, "Overtime");
                assert_eq!(g.get_period(), period + 1);
                assert_eq!(g.get_time_ms(), 300_000);
            } else {
                r.unwrap();
            }
        }
    }
    panic!("no game ended with the teams apart");
}

#[test]
fn buzzer_beater_is_one_shot() {
    let mut g = new_game(100, 100);
    g.advance_with(&draws(0, 0, 0, 0, 0)).unwrap();
    // Run the clock down to 200 ms.
    while g.get_time_ms() > 200 {
        let t = g.get_time_ms();
        let ms = if t - 200 >= 8000 { 8000 } else if t - 200 >= 1000 { t - 200 } else { t.min(1000) };
        g.advance_with(&draws(0, 1, 2, 99_999, elapsed_draw(t, ms))).unwrap();
    }
    assert_eq!(g.get_time_ms(), 200);
    let (t, _) = g.get_possession().unwrap();
    let before = g.get_score();
    let events = g.events().len();
    let e = g.advance_with(&draws(0, 3, 0, 0, 0)).unwrap();
    assert_eq!(g.events().len(), events + 1);
    assert!(e.action.contains(" from "));
    let after = g.get_score();
    let delta = (after.0 - before.0) + (after.1 - before.1);
    assert!(delta == 0 || delta == 2 || delta == 3);
    let (u, j) = g.get_possession().unwrap();
    assert_ne!(u, t);
    assert_eq!(j, 3);
    assert_eq!(g.get_time_ms(), 0);
    assert_eq!(e.time, "00:00:200");
}

#[test]
fn seeded_replay_is_identical() {
    let mut a = new_game(70, 65);
    let mut b = new_game(70, 65);
    let mut da = Dice::seeded(2024);
    let mut db = Dice::seeded(2024);
    for _ in 0..500 {
        let ra = a.generate_next_game_event(&mut da);
        let rb = b.generate_next_game_event(&mut db);
        assert_eq!(ra.is_ok(), rb.is_ok());
    }
    assert!(same_events(a.events(), b.events()));
    assert_eq!(a.get_score(), b.get_score());
    assert_eq!(a.get_player_states(), b.get_player_states());
}

#[test]
fn clock_text() {
    assert_eq!(format_clock(720_000), "12:00:000");
    assert_eq!(format_clock(61_005), "01:01:005");
    assert_eq!(format_clock(0), "00:00:000");
}

#[test]
fn events_record_game_end() {
    let e = GameEvent::new("End of Game".to_string(), "00:00:000".to_string(), 4, None);
    assert!(e.is_game_end());
    let f = GameEvent::new("Turnover".to_string(), "00:00:000".to_string(), 4, None);
    assert!(!f.is_game_end());
}

#[test]
fn pass_moves_the_ball_and_describes_it() {
    let mut g = new_game(0, 0);
    g.advance_with(&draws(0, 0, 0, 0, 0)).unwrap();
    // With no shooting ability every handler passes on an action draw of 0.
    let (t, j) = g.get_possession().unwrap();
    let (home, away) = g.get_player_states();
    let states = if t == Possession::Home { home } else { away };
    let handler = states[j];
    assert_eq!(handler.action, hoops::player_state::PlayerAction::Pass);
    let target = (j + 1 + 2) % 5;
    let e = g.advance_with(&draws(0, 0, 2, 0, 0)).unwrap();
    let prefix = if t == Possession::Home { "H" } else { "A" };
    assert_eq!(
        e.action,
        format!(
            "{}{} Player passes to {}{} Player from {:?} to {:?}",
            prefix, j, prefix, target, handler.current_area, states[target].current_area
        )
    );
    assert_eq!(g.get_possession(), Some((t, target)));
    assert_eq!(ball_holders(&g), vec![(t, target)]);
}

#[test]
fn event_entry_point_advances_the_game() {
    let mut g = new_game(50, 50);
    let mut dice = Dice::seeded(9);
    let first = GameEvent::generate_next_game_event(&mut g, &mut dice).unwrap();
    assert!(first.action.starts_with("Jump Ball won for "));
    assert_eq!(first.time, "12:00:000");
    assert_eq!(first.period, 1);
    let second = GameEvent::generate_next_game_event(&mut g, &mut dice).unwrap();
    assert_eq!(second.time, "12:00:000");
    assert!(g.get_time_ms() < PERIOD_MS);
    assert_eq!(g.events().len(), 2);
    assert!(same_events(&g.events()[..1], std::slice::from_ref(&first)));
    assert!(same_events(&g.events()[1..], std::slice::from_ref(&second)));
}
