use hoops::court::{can_move_to, CourtArea};
use hoops::player::{Player, PlayerAttributes};
use hoops::player_state::{PlayerAction, PlayerState, SHOT_SCALE};

fn shooter(close: i32, mid: i32, deep: i32) -> PlayerAttributes {
    let mut a = PlayerAttributes::new();
    a.close_shot = close;
    a.mid_shot = mid;
    a.deep_shot = deep;
    a
}

fn at(area: CourtArea, action: PlayerAction) -> PlayerState {
    let mut s = PlayerState::new(Some(area));
    s.action = action;
    s
}

#[test]
fn new_state_is_idle_at_center() {
    let s = PlayerState::new(None);
    assert_eq!(s.action, PlayerAction::Idle);
    assert_eq!(s.current_area, CourtArea::Center);
    assert!(!s.has_ball);
    assert_eq!(PlayerState::new(Some(CourtArea::ElbowLeft)).current_area, CourtArea::ElbowLeft);
}

#[test]
fn shot_chance_formula() {
    let a = shooter(80, 60, 40);
    // 90 percent from the low post times a close rating of 80: 0.72.
    assert_eq!(at(CourtArea::LowPostLeft, PlayerAction::Idle).calculate_shot_chance(&a), 72_000);
    assert_eq!(at(CourtArea::ElbowLeft, PlayerAction::Idle).calculate_shot_chance(&a), 48_000);
    assert_eq!(
        at(CourtArea::ThreePointLineCenter, PlayerAction::Idle).calculate_shot_chance(&a),
        40_000
    );
    // Center court: a tenth of a percent of a tenth of a point.
    assert_eq!(at(CourtArea::Center, PlayerAction::Idle).calculate_shot_chance(&a), 10);
    assert_eq!(at(CourtArea::Backcourt, PlayerAction::Idle).calculate_shot_chance(&a), 0);
    assert_eq!(a.shot_chance(CourtArea::Basket), 800);
}

#[test]
fn shot_chance_stays_within_unit_range() {
    for rating in [-50, 0, 37, 99, 100, 150, i32::MAX] {
        let a = shooter(rating, rating, rating);
        for i in 0..28 {
            let area = CourtArea::from_ordinal(i);
            let c = at(area, PlayerAction::Idle).calculate_shot_chance(&a);
            assert!(c <= SHOT_SCALE);
        }
    }
    let a = shooter(100, 100, 100);
    assert_eq!(at(CourtArea::Basket, PlayerAction::Idle).calculate_shot_chance(&a), SHOT_SCALE);
}

#[test]
fn weak_shooter_passes_or_drives() {
    let a = shooter(10, 10, 10);
    let mut s = at(CourtArea::ElbowLeft, PlayerAction::Idle);
    s.generate_offensive_player_action(&a, true, 0);
    assert_eq!(s.action, PlayerAction::Pass);
    s.generate_offensive_player_action(&a, true, 1);
    assert_eq!(s.action, PlayerAction::Drive);
}

#[test]
fn shooter_after_drive_finishes_at_rim() {
    let a = shooter(90, 90, 90);
    let mut s = at(CourtArea::RestrictedAreaLeft, PlayerAction::Drive);
    s.generate_offensive_player_action(&a, true, 1);
    assert_eq!(s.action, PlayerAction::Dunk);
    let mut s = at(CourtArea::RestrictedAreaLeft, PlayerAction::Idle);
    s.generate_offensive_player_action(&a, true, 7);
    assert_eq!(s.action, PlayerAction::Shoot);
    let mut s = at(CourtArea::ElbowRight, PlayerAction::Drive);
    s.generate_offensive_player_action(&a, true, 3);
    assert_eq!(s.action, PlayerAction::ShootOfDribble);
}

#[test]
fn off_ball_and_defensive_actions() {
    let a = shooter(50, 50, 50);
    let mut s = at(CourtArea::ElbowRight, PlayerAction::Idle);
    s.generate_offensive_player_action(&a, false, 4);
    assert_eq!(s.action, PlayerAction::SpotUp);
    s.generate_defensive_player_action(2);
    assert_eq!(s.action, PlayerAction::Defend);
    s.generate_defensive_player_action(11);
    assert_eq!(s.action, PlayerAction::Foul);
}

#[test]
fn is_shot_reports_points() {
    assert_eq!(at(CourtArea::ElbowLeft, PlayerAction::Shoot).is_shot(), Some(2));
    assert_eq!(at(CourtArea::ThreePointLineWingLeft, PlayerAction::ShootOfDribble).is_shot(), Some(3));
    assert_eq!(at(CourtArea::ElbowLeft, PlayerAction::Pass).is_shot(), None);
}

#[test]
fn offense_moves_along_the_table() {
    let mut s = at(CourtArea::Basket, PlayerAction::Idle);
    s.generate_offensive_player_next_area(4);
    assert_eq!(s.current_area, CourtArea::RestrictedAreaRight);
}

#[test]
fn defender_steps_toward_the_lane() {
    let mut s = at(CourtArea::Center, PlayerAction::Idle);
    s.generate_defense_player_next_area(CourtArea::ElbowLeft);
    assert!(
        s.current_area == CourtArea::Center
            || can_move_to(CourtArea::Center).contains(&s.current_area)
    );
    assert_ne!(s.current_area, CourtArea::Center);
}

#[test]
fn next_state_rejects_same_roles() {
    let a = shooter(50, 50, 50);
    let mut s = at(CourtArea::ElbowLeft, PlayerAction::Idle);
    let before = s;
    assert!(s.generate_next_player_state(&a, (true, false), (true, None), (0, 0)).is_err());
    assert!(s.generate_next_player_state(&a, (false, false), (false, None), (0, 0)).is_err());
    assert_eq!(s, before);
}

#[test]
fn shooter_does_not_move() {
    let a = shooter(90, 90, 90);
    let mut s = at(CourtArea::ElbowLeft, PlayerAction::Idle);
    s.generate_next_player_state(&a, (true, true), (false, None), (0, 5)).unwrap();
    assert_eq!(s.action, PlayerAction::Shoot);
    assert_eq!(s.current_area, CourtArea::ElbowLeft);
}

#[test]
fn attacker_without_ball_moves() {
    let a = shooter(90, 90, 90);
    let mut s = at(CourtArea::Basket, PlayerAction::Idle);
    s.generate_next_player_state(&a, (true, false), (false, None), (1, 2)).unwrap();
    assert_eq!(s.action, PlayerAction::Cut);
    assert_eq!(s.current_area, CourtArea::RestrictedAreaLeft);
}

#[test]
fn defender_without_man_stays() {
    let a = shooter(90, 90, 90);
    let mut s = at(CourtArea::ElbowLeft, PlayerAction::Idle);
    s.generate_next_player_state(&a, (false, false), (true, None), (0, 9)).unwrap();
    assert_eq!(s.action, PlayerAction::Block);
    assert_eq!(s.current_area, CourtArea::ElbowLeft);
}

#[test]
fn player_accessors() {
    let p = Player::new(None, "Ann".to_string(), "Lee".to_string(), "PG".to_string(), 24, 74, 190, shooter(1, 2, 3));
    assert!(p.get_id().is_err());
    assert_eq!(p.get_height(), 74);
    assert_eq!(p.get_player_attributes().deep_shot, 3);
    assert_eq!(p.first(), "Ann");
    let q = Player::new(Some(7), "Bo".to_string(), "Kim".to_string(), "C".to_string(), 30, 84, 250, PlayerAttributes::new());
    assert_eq!(q.get_id(), Ok(7));
    assert_eq!(q.position(), "C");
}

#[test]
fn dice_draws_stay_in_range() {
    let mut dice = hoops::dice::Dice::seeded(5);
    let mut seen_nonzero = false;
    for n in 1..200u64 {
        let r = dice.below(n);
        assert!(r < n);
        seen_nonzero |= r != 0;
    }
    assert!(seen_nonzero);
    let a = hoops::player::gen_rand_attrs(&mut dice);
    for v in [a.spd, a.close_shot, a.mid_shot, a.deep_shot, a.ath, a.conditioning] {
        assert!((0..100).contains(&v));
    }
}

#[test]
fn seeded_dice_repeat() {
    let mut a = hoops::dice::Dice::seeded(42);
    let mut b = hoops::dice::Dice::seeded(42);
    let xs: Vec<u64> = (0..20).map(|_| a.any()).collect();
    let ys: Vec<u64> = (0..20).map(|_| b.any()).collect();
    assert_eq!(xs, ys);
    let mut c = hoops::dice::Dice::seeded(43);
    let zs: Vec<u64> = (0..20).map(|_| c.any()).collect();
    assert_ne!(xs, zs);
}

#[test]
fn stored_player_gets_id() {
    let mut p = Player::new(None, "Ann".to_string(), "Lee".to_string(), "PG".to_string(), 24, 74, 190, PlayerAttributes::new());
    p.set_id(12);
    assert_eq!(p.get_id(), Ok(12));
    assert_eq!(p.get_weight(), 190);
    assert_eq!(p.get_age(), 24);
}

#[test]
fn ratings_above_scale_clamp_the_probability() {
    let a = shooter(150, 120, 100);
    assert_eq!(a.shot_chance(CourtArea::Basket), 1500);
    // 80 percent at the elbow times a mid rating of 120: 0.96.
    assert_eq!(at(CourtArea::ElbowLeft, PlayerAction::Idle).calculate_shot_chance(&a), 96_000);
    // 100 percent at the rim times 150 would be 1.5: held at 1.
    assert_eq!(at(CourtArea::Basket, PlayerAction::Idle).calculate_shot_chance(&a), SHOT_SCALE);
    let low = shooter(-20, 0, 0);
    assert_eq!(low.shot_chance(CourtArea::Basket), -200);
    assert_eq!(at(CourtArea::Basket, PlayerAction::Idle).calculate_shot_chance(&low), 0);
}

#[test]
fn drive_to_the_basket_finishes_at_rim() {
    let a = shooter(90, 90, 90);
    let mut s = at(CourtArea::Basket, PlayerAction::Drive);
    s.generate_offensive_player_action(&a, true, 0);
    assert_eq!(s.action, PlayerAction::Layup);
    let mut s = at(CourtArea::Basket, PlayerAction::Drive);
    s.generate_offensive_player_action(&a, true, 1);
    assert_eq!(s.action, PlayerAction::Dunk);
}

#[test]
fn missing_id_error_text() {
    let p = Player::new(None, "Ann".to_string(), "Lee".to_string(), "PG".to_string(), 24, 74, 190, PlayerAttributes::new());
    assert_eq!(p.get_id(), Err("Player has no id. Write to db first.".to_string()));
}
