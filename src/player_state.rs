//! Per-player simulation state and its once-per-tick transition.
use crate::court::{
    base_chance, can_move_to, defend_towards, go_towards, in_lane, is_between_basket, lane_target,
    moves, point_value, step, toward, CourtArea,
};
use crate::player::{rating_tenths, PlayerAttributes};
use vstd::prelude::*;

verus! {

/// What a player is doing this tick.
#[derive(Clone, Copy, Debug, PartialEq, Eq, Structural)]
pub enum PlayerAction {
    Pass,
    Drive,
    Rebound,
    Layup,
    Dunk,
    ShootOfDribble,
    Shoot,
    SpotUp,
    Cut,
    BallScreen,
    OffBallScreen,
    Contest,
    Block,
    DefendTight,
    Defend,
    DefendLoose,
    Steal,
    Foul,
    Idle,
}

/// Make probabilities are counted in units of one in `SHOT_SCALE`.
pub const SHOT_SCALE: u32 = 100_000;

/// A ball handler whose make probability is below this passes or drives instead of shooting.
pub const SHOT_THRESHOLD: u32 = 30_000;

/// Probability, in units of one in `SHOT_SCALE`, that a shot from `area` by a player with
/// ratings `a` goes in: the region's base percentage times the applicable rating, held to
/// `0..=SHOT_SCALE`.
pub open spec fn shot_probability(area: CourtArea, a: PlayerAttributes) -> int {
    let raw = base_chance(area) * rating_tenths(a, area);
    if raw < 0 {
        0
    } else if raw > SHOT_SCALE {
        SHOT_SCALE as int
    } else {
        raw
    }
}

/// The four scoring attempts.
pub open spec fn is_shot_action(a: PlayerAction) -> bool {
    a == PlayerAction::Shoot || a == PlayerAction::ShootOfDribble || a == PlayerAction::Layup
        || a == PlayerAction::Dunk
}

/// Regions from which a shot is a close-range attempt.
pub open spec fn inside_shot_area(a: CourtArea) -> bool {
    a == CourtArea::Basket || a == CourtArea::RestrictedAreaLeft || a
        == CourtArea::RestrictedAreaRight || a
        == CourtArea::RestrictedAreaMiddle || a == CourtArea::LowPostLeft || a
        == CourtArea::LowPostRight || a == CourtArea::ShortCornerLeft || a
        == CourtArea::ShortCornerRight
}

/// The actions an attacker picks from, given the make probability `chance` from where they stand.
pub open spec fn offensive_options(s: PlayerState, chance: int, has_ball: bool) -> Seq<PlayerAction> {
    if has_ball {
        if chance < SHOT_THRESHOLD {
            seq![PlayerAction::Pass, PlayerAction::Drive]
        } else if inside_shot_area(s.current_area) {
            if s.action == PlayerAction::Drive {
                seq![PlayerAction::Layup, PlayerAction::Dunk]
            } else {
                seq![PlayerAction::Shoot]
            }
        } else if s.action == PlayerAction::Drive {
            seq![PlayerAction::ShootOfDribble]
        } else {
            seq![PlayerAction::Shoot]
        }
    } else {
        seq![
            PlayerAction::Rebound,
            PlayerAction::Cut,
            PlayerAction::BallScreen,
            PlayerAction::OffBallScreen,
            PlayerAction::SpotUp,
        ]
    }
}

/// The actions a defender picks from.
pub open spec fn defensive_options() -> Seq<PlayerAction> {
    seq![
        PlayerAction::Block,
        PlayerAction::DefendTight,
        PlayerAction::Defend,
        PlayerAction::DefendLoose,
        PlayerAction::Steal,
        PlayerAction::Foul,
    ]
}

/// Where a defender in `a` guarding an attacker in `o` may step to, `f`: toward the attacker
/// when already in the attacker's lane to the basket, else toward the first region of that lane.
pub open spec fn defender_move(a: CourtArea, o: CourtArea, f: CourtArea) -> bool {
    exists|b: bool, g: CourtArea|
        in_lane(a, o, b) && (b ==> g == o) && (!b ==> lane_target(a, o, g)) && toward(a, g, f)
}

/// The option that a raw draw `roll` selects.
pub open spec fn pick<T>(options: Seq<T>, roll: u64) -> T {
    options[(roll % (options.len() as u64)) as int]
}

/// An attacker's state after one tick: a new action from the options, then, unless that action
/// is a shot, a move to one of the regions reachable from where they stand.
pub open spec fn offense_next(
    s: PlayerState,
    a: PlayerAttributes,
    has_ball: bool,
    action_roll: u64,
    move_roll: u64,
) -> PlayerState {
    let action = pick(
        offensive_options(s, shot_probability(s.current_area, a), has_ball),
        action_roll,
    );
    PlayerState {
        action,
        current_area: if is_shot_action(action) {
            s.current_area
        } else {
            pick(moves(s.current_area), move_roll)
        },
        ..s
    }
}

/// One player's state during a game.
#[derive(Clone, Copy, Debug, PartialEq, Eq, Structural)]
pub struct PlayerState {
    pub action: PlayerAction,
    pub current_area: CourtArea,
    pub has_ball: bool,
}

impl PlayerState {
    /// An idle player without the ball, in `area` or at center court.
    pub fn new(area: Option<CourtArea>) -> (r: PlayerState)
        ensures
            r.action == PlayerAction::Idle,
            !r.has_ball,
            r.current_area == match area {
                Some(v) => v,
                None => CourtArea::Center,
            },
    {
        match area {
            Some(value) => PlayerState {
                action: PlayerAction::Idle,
                current_area: value,
                has_ball: false,
            },
            None => PlayerState {
                action: PlayerAction::Idle,
                current_area: CourtArea::Center,
                has_ball: false,
            },
        }
    }

    /// Probability, in units of one in `SHOT_SCALE`, that this player's shot from where they
    /// stand goes in.
    pub fn calculate_shot_chance(&self, attributes: &PlayerAttributes) -> (r: u32)
        ensures
            r == shot_probability(self.current_area, *attributes),
            r <= SHOT_SCALE,
    {
        let area_shot_chance = self.current_area.shot_chance() as i64;
        let attributes_shot_chance = attributes.shot_chance(self.current_area);
        proof {
            assert(-2147483648000 <= area_shot_chance * attributes_shot_chance <= 2147483647000)
                by (nonlinear_arith)
                requires
                    0 <= area_shot_chance <= 100,
                    -21474836480 <= attributes_shot_chance <= 21474836470,
            ;
        }
        let raw = area_shot_chance * attributes_shot_chance;
        if raw < 0 {
            0
        } else if raw > SHOT_SCALE as i64 {
            SHOT_SCALE
        } else {
            raw as u32
        }
    }

    /// The actions this player picks from on offense.
    pub fn offensive_actions(&self, attributes: &PlayerAttributes, has_ball: bool) -> (r: Vec<
        PlayerAction,
    >)
        ensures
            r@ == offensive_options(
                *self,
                shot_probability(self.current_area, *attributes),
                has_ball,
            ),
            r@.len() > 0,
    {
        if has_ball {
            let shot_chance = self.calculate_shot_chance(attributes);
            if shot_chance < SHOT_THRESHOLD {
                vec![PlayerAction::Pass, PlayerAction::Drive]
            } else {
                let inside = match self.current_area {
                    CourtArea::Basket
                    | CourtArea::RestrictedAreaLeft
                    | CourtArea::RestrictedAreaRight
                    | CourtArea::RestrictedAreaMiddle
                    | CourtArea::LowPostLeft
                    | CourtArea::LowPostRight
                    | CourtArea::ShortCornerLeft
                    | CourtArea::ShortCornerRight => true,
                    _ => false,
                };
                if inside {
                    if self.action == PlayerAction::Drive {
                        vec![PlayerAction::Layup, PlayerAction::Dunk]
                    } else {
                        vec![PlayerAction::Shoot]
                    }
                } else {
                    if self.action == PlayerAction::Drive {
                        vec![PlayerAction::ShootOfDribble]
                    } else {
                        vec![PlayerAction::Shoot]
                    }
                }
            }
        } else {
            vec![
                PlayerAction::Rebound,
                PlayerAction::Cut,
                PlayerAction::BallScreen,
                PlayerAction::OffBallScreen,
                PlayerAction::SpotUp,
            ]
        }
    }

    /// Picks this attacker's action with the raw draw `roll`: with the ball, a shot when the
    /// make probability reaches the threshold (a layup or dunk close in, or a pull-up, after a
    /// drive), else a pass or a drive; without it, an off-ball action.
    pub fn generate_offensive_player_action(
        &mut self,
        attributes: &PlayerAttributes,
        has_ball: bool,
        roll: u64,
    )
        ensures
            final(self).action == pick(
                offensive_options(
                    *old(self),
                    shot_probability(old(self).current_area, *attributes),
                    has_ball,
                ),
                roll,
            ),
            final(self).current_area == old(self).current_area,
            final(self).has_ball == old(self).has_ball,
    {
        let actions = self.offensive_actions(attributes, has_ball);
        let index = roll % (actions.len() as u64);
        self.action = actions[index as usize];
    }

    /// Points at stake when the current action is a shot; `None` otherwise.
    pub fn is_shot(&self) -> (r: Option<u8>)
        ensures
            is_shot_action(self.action) ==> r == Some(point_value(self.current_area)),
            !is_shot_action(self.action) ==> r is None,
    {
        match self.action {
            PlayerAction::Shoot
            | PlayerAction::ShootOfDribble
            | PlayerAction::Layup
            | PlayerAction::Dunk => Some(self.current_area.points()),
            _ => None,
        }
    }

    /// Picks this defender's action with the raw draw `roll`.
    pub fn generate_defensive_player_action(&mut self, roll: u64)
        ensures
            final(self).action == pick(defensive_options(), roll),
            final(self).current_area == old(self).current_area,
            final(self).has_ball == old(self).has_ball,
    {
        let actions = vec![
            PlayerAction::Block,
            PlayerAction::DefendTight,
            PlayerAction::Defend,
            PlayerAction::DefendLoose,
            PlayerAction::Steal,
            PlayerAction::Foul,
        ];
        let index = roll % (actions.len() as u64);
        self.action = actions[index as usize];
    }

    /// Moves this defender one step to shadow an attacker in `opp_area`: straight at them when
    /// the defender already stands between them and the basket, else toward the attacker's lane
    /// to the basket.
    pub fn generate_defense_player_next_area(&mut self, opp_area: CourtArea)
        ensures
            defender_move(old(self).current_area, opp_area, final(self).current_area),
            final(self).current_area == old(self).current_area || step(
                old(self).current_area,
                final(self).current_area,
            ),
            final(self).action == old(self).action,
            final(self).has_ball == old(self).has_ball,
    {
        let area = self.current_area;
        let between = is_between_basket(area, opp_area);
        if between {
            self.current_area = go_towards(area, opp_area);
            assert(in_lane(area, opp_area, between) && toward(area, opp_area, self.current_area));
        } else {
            let goal_area = defend_towards(area, opp_area);
            self.current_area = go_towards(area, goal_area);
            assert(in_lane(area, opp_area, between) && lane_target(area, opp_area, goal_area)
                && toward(area, goal_area, self.current_area));
        }
    }

    /// Moves this attacker to the region among those reachable that the raw draw `roll` selects.
    pub fn generate_offensive_player_next_area(&mut self, roll: u64)
        ensures
            final(self).current_area == pick(moves(old(self).current_area), roll),
            final(self).action == old(self).action,
            final(self).has_ball == old(self).has_ball,
    {
        let available_areas = can_move_to(self.current_area);
        proof {
            assert(available_areas@.len() > 0) by {
                assert(moves(self.current_area).len() > 0);
            }
        }
        let index = roll % (available_areas.len() as u64);
        self.current_area = available_areas[index as usize];
    }

    /// Advances this player one tick. `is_offense` says whether the player attacks and whether
    /// they hold the ball; `is_defense` whether they defend and whom they guard. An attacker
    /// picks an action and, unless shooting, moves; a defender with a man to guard moves to
    /// shadow them, and every defender picks a defensive action. `rolls` are the raw draws for
    /// the action and the move. The two roles must differ.
    pub fn generate_next_player_state(
        &mut self,
        attributes: &PlayerAttributes,
        is_offense: (bool, bool),
        is_defense: (bool, Option<CourtArea>),
        rolls: (u64, u64),
    ) -> (r: Result<(), String>)
        ensures
            (r is Err) == (is_offense.0 == is_defense.0),
            r is Err ==> *final(self) == *old(self),
            r is Ok && is_offense.0 ==> *final(self) == offense_next(
                *old(self),
                *attributes,
                is_offense.1,
                rolls.0,
                rolls.1,
            ),
            r is Ok && is_defense.0 ==> {
                &&& final(self).action == pick(defensive_options(), rolls.0)
                &&& final(self).has_ball == old(self).has_ball
                &&& is_defense.1 is None ==> final(self).current_area == old(self).current_area
                &&& is_defense.1 matches Some(o) ==> defender_move(
                    old(self).current_area,
                    o,
                    final(self).current_area,
                )
                &&& final(self).current_area == old(self).current_area || step(
                    old(self).current_area,
                    final(self).current_area,
                )
            },
    {
        if is_offense.0 == is_defense.0 {
            return Err(String::from_str("Both offense and defense are the same"));
        }
        if is_offense.0 {
            self.generate_offensive_player_action(attributes, is_offense.1, rolls.0);
            if !self.is_shot_attempt() {
                self.generate_offensive_player_next_area(rolls.1);
            }
        } else {
            match is_defense.1 {
                Some(area) => {
                    self.generate_defense_player_next_area(area);
                },
                None => {},
            }
            self.generate_defensive_player_action(rolls.0);
        }
        Ok(())
    }

    /// Whether the current action is one of the four scoring attempts.
    pub fn is_shot_attempt(&self) -> (r: bool)
        ensures
            r == is_shot_action(self.action),
    {
        match self.action {
            PlayerAction::Shoot
            | PlayerAction::ShootOfDribble
            | PlayerAction::Layup
            | PlayerAction::Dunk => true,
            _ => false,
        }
    }
}

/// The name of a action as text.
pub open spec fn action_label(a: PlayerAction) -> Seq<char> {
    match a {
        PlayerAction::Pass => "Pass"@,
        PlayerAction::Drive => "Drive"@,
        PlayerAction::Rebound => "Rebound"@,
        PlayerAction::Layup => "Layup"@,
        PlayerAction::Dunk => "Dunk"@,
        PlayerAction::ShootOfDribble => "ShootOfDribble"@,
        PlayerAction::Shoot => "Shoot"@,
        PlayerAction::SpotUp => "SpotUp"@,
        PlayerAction::Cut => "Cut"@,
        PlayerAction::BallScreen => "BallScreen"@,
        PlayerAction::OffBallScreen => "OffBallScreen"@,
        PlayerAction::Contest => "Contest"@,
        PlayerAction::Block => "Block"@,
        PlayerAction::DefendTight => "DefendTight"@,
        PlayerAction::Defend => "Defend"@,
        PlayerAction::DefendLoose => "DefendLoose"@,
        PlayerAction::Steal => "Steal"@,
        PlayerAction::Foul => "Foul"@,
        PlayerAction::Idle => "Idle"@,
    }
}

/// The name of an action, as it appears in play-by-play text.
pub fn action_name(a: PlayerAction) -> (r: &'static str)
    ensures
        r@ == action_label(a),
{
    match a {
        PlayerAction::Pass => "Pass",
        PlayerAction::Drive => "Drive",
        PlayerAction::Rebound => "Rebound",
        PlayerAction::Layup => "Layup",
        PlayerAction::Dunk => "Dunk",
        PlayerAction::ShootOfDribble => "ShootOfDribble",
        PlayerAction::Shoot => "Shoot",
        PlayerAction::SpotUp => "SpotUp",
        PlayerAction::Cut => "Cut",
        PlayerAction::BallScreen => "BallScreen",
        PlayerAction::OffBallScreen => "OffBallScreen",
        PlayerAction::Contest => "Contest",
        PlayerAction::Block => "Block",
        PlayerAction::DefendTight => "DefendTight",
        PlayerAction::Defend => "Defend",
        PlayerAction::DefendLoose => "DefendLoose",
        PlayerAction::Steal => "Steal",
        PlayerAction::Foul => "Foul",
        PlayerAction::Idle => "Idle",
    }
}

} // verus!
