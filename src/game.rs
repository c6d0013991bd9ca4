//! The game orchestrator: clock, shot clock, score, possession, and the tick that advances them.
use crate::court::{area_label, area_name, front_court, point_value, step, CourtArea};
use crate::dice::Dice;
use crate::event::{clock_text, format_clock, game_end_text, other, GameEvent, Possession};
use crate::player::{Player, PlayerAttributes};
use crate::player_state::{
    action_label, action_name, defender_move, defensive_options, is_shot_action, offense_next,
    pick, shot_probability, PlayerAction, PlayerState, SHOT_SCALE,
};
use crate::team::Team;
use vstd::prelude::*;

verus! {

/// Players on court per team.
pub const ROSTER_SIZE: usize = 5;

/// Length of a regulation period, in milliseconds.
pub const PERIOD_MS: u64 = 720_000;

/// Length of an overtime period, in milliseconds.
pub const OVERTIME_MS: u64 = 300_000;

/// Full shot clock, in milliseconds.
pub const SHOT_CLOCK_MS: u64 = 24_000;

/// Below this much time on either clock, the ball handler must shoot.
pub const BUZZER_MS: u64 = 500;

/// Shortest time one tick takes, in milliseconds, when that much is left.
pub const MIN_ELAPSED_MS: u64 = 1_000;

/// Longest time one tick takes, in milliseconds.
pub const MAX_ELAPSED_MS: u64 = 8_000;

/// Periods in regulation.
pub const REGULATION_PERIODS: u8 = 4;

/// Who inbounds after a shot-clock violation.
pub const INBOUNDER: usize = 3;

/// Raw draws a tick takes per player: one for the action, one for the move.
pub const PLAYER_DRAWS: usize = 20;

/// Where a game stands.
#[derive(Clone, Copy, Debug, PartialEq, Eq, Structural)]
pub enum GamePhase {
    NotStarted,
    InPeriod,
    Ended,
}

/// A player's state before the opening tip: idle at center court without the ball.
pub open spec fn fresh_state() -> PlayerState {
    PlayerState { action: PlayerAction::Idle, current_area: CourtArea::Center, has_ball: false }
}

/// One team's five players on court, their states, and the bench.
#[derive(Debug)]
pub struct TeamState {
    players: Vec<Player>,
    states: Vec<PlayerState>,
    bench: Vec<Player>,
}

impl TeamState {
    /// Five players on court, each with a state.
    pub closed spec fn wf(&self) -> bool {
        self.players@.len() == ROSTER_SIZE && self.states@.len() == ROSTER_SIZE
    }

    /// The states of the players on court.
    pub closed spec fn states_view(&self) -> Seq<PlayerState> {
        self.states@
    }

    /// The ratings of the players on court.
    pub closed spec fn attrs_view(&self) -> Seq<PlayerAttributes> {
        Seq::new(self.players@.len(), |i: int| self.players@[i].attrs())
    }

    /// "First Last" of player `j` on court.
    pub closed spec fn name_view(&self, j: int) -> Seq<char> {
        self.players@[j].first_view() + " "@ + self.players@[j].last_view()
    }

    /// The players on court.
    pub closed spec fn players_view(&self) -> Seq<Player> {
        self.players@
    }

    /// The players on the bench.
    pub closed spec fn bench_view(&self) -> Seq<Player> {
        self.bench@
    }

    /// The heights of the players on court.
    pub closed spec fn heights_view(&self) -> Seq<i32> {
        Seq::new(self.players@.len(), |i: int| self.players@[i].height())
    }

    /// The jump-ball composite (athleticism plus height) of each player on court.
    pub open spec fn composites(&self) -> Seq<int> {
        Seq::new(
            ROSTER_SIZE as nat,
            |i: int| self.attrs_view()[i].ath as int + self.heights_view()[i] as int,
        )
    }

    /// The first player with the largest jump-ball composite, and that composite.
    pub fn best_jumper(&self) -> (r: (usize, i64))
        requires
            self.wf(),
        ensures
            r.0 < ROSTER_SIZE,
            r.1 == self.composites()[r.0 as int],
            is_best(self.composites(), r.1 as int),
            forall|k: int| 0 <= k < r.0 ==> self.composites()[k] < r.1,
    {
        let mut best: usize = 0;
        let mut best_value: i64 = self.players[0].attributes().ath as i64
            + self.players[0].get_height() as i64;
        let mut j: usize = 1;
        while j < ROSTER_SIZE
            invariant
                1 <= j <= ROSTER_SIZE,
                self.wf(),
                best < j,
                best_value == self.composites()[best as int],
                forall|k: int| 0 <= k < j ==> self.composites()[k] <= best_value,
                forall|k: int| 0 <= k < best ==> self.composites()[k] < best_value,
            decreases ROSTER_SIZE - j,
        {
            let v = self.players[j].attributes().ath as i64 + self.players[j].get_height() as i64;
            if v > best_value {
                best = j;
                best_value = v;
            }
            j += 1;
        }
        (best, best_value)
    }

    /// `starters` on court, idle at center court without the ball.
    pub fn new(starters: Vec<Player>, bench: Vec<Player>) -> (r: TeamState)
        requires
            starters@.len() == ROSTER_SIZE,
        ensures
            r.wf(),
            r.players_view() == starters@,
            r.bench_view() == bench@,
            r.attrs_view() == Seq::new(5, |i: int| starters@[i].attrs()),
            forall|j: int| 0 <= j < ROSTER_SIZE ==> #[trigger] r.states_view()[j] == fresh_state(),
    {
        let mut states: Vec<PlayerState> = Vec::new();
        let mut j: usize = 0;
        while j < ROSTER_SIZE
            invariant
                j <= ROSTER_SIZE,
                states@.len() == j,
                forall|k: int| 0 <= k < j ==> #[trigger] states@[k] == fresh_state(),
            decreases ROSTER_SIZE - j,
        {
            states.push(PlayerState::new(None));
            j += 1;
        }
        let r = TeamState { players: starters, states, bench };
        assert(r.attrs_view() =~= Seq::new(5, |i: int| starters@[i].attrs()));
        r
    }

    /// The state of player `j`.
    pub fn state(&self, j: usize) -> (r: PlayerState)
        requires
            self.wf(),
            j < ROSTER_SIZE,
        ensures
            r == self.states_view()[j as int],
    {
        self.states[j]
    }

    /// Player `j` on court.
    pub fn player(&self, j: usize) -> (r: &Player)
        requires
            self.wf(),
            j < ROSTER_SIZE,
        ensures
            *r == self.players_view()[j as int],
            r.attrs() == self.attrs_view()[j as int],
            r.first_view() + " "@ + r.last_view() == self.name_view(j as int),
    {
        &self.players[j]
    }

    /// The players on the bench.
    pub fn bench(&self) -> (r: &Vec<Player>)
        ensures
            r@ == self.bench_view(),
    {
        &self.bench
    }

    fn set_state(&mut self, j: usize, s: PlayerState)
        requires
            old(self).wf(),
            j < ROSTER_SIZE,
        ensures
            final(self).wf(),
            final(self).states_view() == old(self).states_view().update(j as int, s),
            final(self).attrs_view() == old(self).attrs_view(),
            final(self).players == old(self).players,
    {
        self.states.set(j, s);
    }

    /// Copies of all five states.
    pub fn states(&self) -> (r: Vec<PlayerState>)
        requires
            self.wf(),
        ensures
            r@ == self.states_view(),
    {
        let mut r: Vec<PlayerState> = Vec::new();
        let mut j: usize = 0;
        while j < ROSTER_SIZE
            invariant
                j <= ROSTER_SIZE,
                self.wf(),
                r@ == self.states_view().take(j as int),
            decreases ROSTER_SIZE - j,
        {
            r.push(self.states[j]);
            j += 1;
            assert(r@ =~= self.states_view().take(j as int));
        }
        assert(r@ =~= self.states_view());
        r
    }
}

/// Whether the team in possession differs between `a` and `b` (gaining or losing the ball
/// counts as a change).
pub open spec fn possession_changes(
    a: Option<(Possession, usize)>,
    b: Option<(Possession, usize)>,
) -> bool {
    match (a, b) {
        (None, None) => false,
        (Some((x, _)), Some((y, _))) => x != y,
        _ => true,
    }
}

/// Where a player stands once the ball changes hands: front court falls back to the backcourt,
/// the backcourt moves up to center court, any other region is kept.
pub open spec fn regroup(a: CourtArea) -> CourtArea {
    if front_court(a) {
        CourtArea::Backcourt
    } else if a == CourtArea::Backcourt {
        CourtArea::Center
    } else {
        a
    }
}

/// Player `j` of `team` holds the ball exactly when possession names them.
pub open spec fn ball_consistent(
    states: Seq<PlayerState>,
    team: Possession,
    pos: Option<(Possession, usize)>,
) -> bool {
    forall|j: int|
        0 <= j < ROSTER_SIZE ==> (#[trigger] states[j]).has_ball == (pos == Some(
            (team, j as usize),
        ))
}

/// A player's state once possession becomes `pos`.
pub open spec fn relabel(
    s: PlayerState,
    team: Possession,
    j: int,
    pos: Option<(Possession, usize)>,
    changed: bool,
) -> PlayerState {
    PlayerState {
        current_area: if changed {
            regroup(s.current_area)
        } else {
            s.current_area
        },
        has_ball: pos == Some((team, j as usize)),
        ..s
    }
}

/// The raw random draws one tick consumes, each reduced to the range it needs.
pub struct TickDraws {
    /// Jump ball: out of 100.
    pub jump: u64,
    /// The player who gets the ball after a jump ball or a shot: out of five.
    pub receiver: u64,
    /// The teammate a pass goes to: out of the four others.
    pub pass: u64,
    /// Whether a shot falls: out of `SHOT_SCALE`.
    pub shot: u64,
    /// Time the tick takes, within the allowed range.
    pub elapsed: u64,
    /// Per player an action draw and a move draw, home players first.
    pub players: Vec<u64>,
}

impl TickDraws {
    /// Enough draws for every player.
    pub open spec fn wf(&self) -> bool {
        self.players@.len() == PLAYER_DRAWS
    }

    /// Fresh draws from `dice`, each bounded draw within its range.
    pub fn roll(dice: &mut Dice) -> (r: TickDraws)
        ensures
            r.wf(),
            r.jump < 100,
            r.receiver < ROSTER_SIZE,
            r.pass < ROSTER_SIZE - 1,
            r.shot < SHOT_SCALE,
    {
        let jump = dice.below(100);
        let receiver = dice.below(ROSTER_SIZE as u64);
        let pass = dice.below(ROSTER_SIZE as u64 - 1);
        let shot = dice.below(SHOT_SCALE as u64);
        let elapsed = dice.any();
        let mut players: Vec<u64> = Vec::new();
        let mut j: usize = 0;
        while j < PLAYER_DRAWS
            invariant
                j <= PLAYER_DRAWS,
                players@.len() == j,
            decreases PLAYER_DRAWS - j,
        {
            players.push(dice.any());
            j += 1;
        }
        TickDraws { jump, receiver, pass, shot, elapsed, players }
    }
}

/// A game between two teams.
#[derive(Debug)]
pub struct Game {
    teams: (Team, Team),
    events: Vec<GameEvent>,
    time: u64,
    shot_clock: u64,
    period: u8,
    possession: Option<(Possession, usize)>,
    home: TeamState,
    away: TeamState,
    fouls: (u8, u8),
    timeouts: (u8, u8),
    score: (u32, u32),
    phase: GamePhase,
}


/// Sets every player's ball flag for possession `pos` and, when `changed`, regroups them.
fn relabel_team(ts: &mut TeamState, team: Possession, pos: Option<(Possession, usize)>, changed: bool)
    requires
        old(ts).wf(),
    ensures
        final(ts).wf(),
        final(ts).attrs_view() == old(ts).attrs_view(),
        final(ts).players == old(ts).players,
        forall|j: int|
            0 <= j < ROSTER_SIZE ==> #[trigger] final(ts).states_view()[j] == relabel(
                old(ts).states_view()[j],
                team,
                j,
                pos,
                changed,
            ),
{
    let mut j: usize = 0;
    while j < ROSTER_SIZE
        invariant
            j <= ROSTER_SIZE,
            ts.wf(),
            ts.attrs_view() == old(ts).attrs_view(),
            ts.players == old(ts).players,
            forall|k: int|
                0 <= k < j ==> #[trigger] ts.states_view()[k] == relabel(
                    old(ts).states_view()[k],
                    team,
                    k,
                    pos,
                    changed,
                ),
            forall|k: int|
                j <= k < ROSTER_SIZE ==> #[trigger] ts.states_view()[k] == old(ts).states_view()[k],
        decreases ROSTER_SIZE - j,
    {
        let mut s = ts.state(j);
        if changed {
            if s.current_area.is_front_court() {
                s.current_area = CourtArea::Backcourt;
            } else if s.current_area == CourtArea::Backcourt {
                s.current_area = CourtArea::Center;
            }
        }
        s.has_ball = match pos {
            Some((t, k)) => t == team && k == j,
            None => false,
        };
        ts.set_state(j, s);
        j += 1;
    }
}

/// First of the draws that the players of team `t` use.
pub open spec fn draw_base(t: Possession) -> int {
    match t {
        Possession::Home => 0,
        Possession::Away => 10,
    }
}

/// A defender's state after one tick guarding an attacker in `opp`: a defensive action from the
/// options, the ball flag kept, and at most one legal step, taken to shadow the attacker.
pub open spec fn defense_step(
    old: PlayerState,
    new: PlayerState,
    action_roll: u64,
    opp: CourtArea,
) -> bool {
    &&& new.action == pick(defensive_options(), action_roll)
    &&& new.has_ball == old.has_ball
    &&& new.current_area == old.current_area || step(old.current_area, new.current_area)
    &&& defender_move(old.current_area, opp, new.current_area)
}

/// Advances the five players of one team a tick, as attackers or as defenders guarding
/// `opponents` man to man, with draws from `rolls` starting at `base`.
fn advance_team(
    ts: &mut TeamState,
    offense: bool,
    opponents: &Vec<PlayerState>,
    rolls: &Vec<u64>,
    base: usize,
)
    requires
        old(ts).wf(),
        opponents@.len() == ROSTER_SIZE,
        base <= 10,
        base + 2 * ROSTER_SIZE <= rolls@.len(),
    ensures
        final(ts).wf(),
        final(ts).attrs_view() == old(ts).attrs_view(),
        final(ts).players == old(ts).players,
        forall|j: int|
            0 <= j < ROSTER_SIZE ==> {
                let o = old(ts).states_view()[j];
                let n = #[trigger] final(ts).states_view()[j];
                &&& offense ==> n == offense_next(
                    o,
                    old(ts).attrs_view()[j],
                    o.has_ball,
                    rolls@[base + 2 * j],
                    rolls@[base + 2 * j + 1],
                )
                &&& !offense ==> defense_step(
                    o,
                    n,
                    rolls@[base + 2 * j],
                    opponents@[j].current_area,
                )
            },
{
    let mut j: usize = 0;
    while j < ROSTER_SIZE
        invariant
            j <= ROSTER_SIZE,
            ts.wf(),
            ts.attrs_view() == old(ts).attrs_view(),
            ts.players == old(ts).players,
            opponents@.len() == ROSTER_SIZE,
            base <= 10,
            base + 2 * ROSTER_SIZE <= rolls@.len(),
            forall|k: int|
                0 <= k < j ==> {
                    let o = old(ts).states_view()[k];
                    let n = #[trigger] ts.states_view()[k];
                    &&& offense ==> n == offense_next(
                        o,
                        old(ts).attrs_view()[k],
                        o.has_ball,
                        rolls@[base + 2 * k],
                        rolls@[base + 2 * k + 1],
                    )
                    &&& !offense ==> defense_step(
                        o,
                        n,
                        rolls@[base + 2 * k],
                        opponents@[k].current_area,
                    )
                },
            forall|k: int|
                j <= k < ROSTER_SIZE ==> #[trigger] ts.states_view()[k] == old(ts).states_view()[k],
        decreases ROSTER_SIZE - j,
    {
        let mut s = ts.state(j);
        let draws = (rolls[base + 2 * j], rolls[base + 2 * j + 1]);
        let attributes = *ts.player(j).attributes();
        let outcome = if offense {
            s.generate_next_player_state(&attributes, (true, s.has_ball), (false, None), draws)
        } else {
            s.generate_next_player_state(
                &attributes,
                (false, false),
                (true, Some(opponents[j].current_area)),
                draws,
            )
        };
        ts.set_state(j, s);
        j += 1;
    }
}

impl Game {
    /// Game clock, in milliseconds.
    pub closed spec fn time_ms(&self) -> u64 {
        self.time
    }

    /// Shot clock, in milliseconds.
    pub closed spec fn shot_clock_ms(&self) -> u64 {
        self.shot_clock
    }

    pub closed spec fn period_view(&self) -> u8 {
        self.period
    }

    /// The team in possession and the index of its ball handler.
    pub closed spec fn possession_view(&self) -> Option<(Possession, usize)> {
        self.possession
    }

    /// Points of the home and the away team.
    pub closed spec fn score_view(&self) -> (u32, u32) {
        self.score
    }

    pub closed spec fn phase_view(&self) -> GamePhase {
        self.phase
    }

    /// The states of one team's players on court.
    pub closed spec fn states_of(&self, t: Possession) -> Seq<PlayerState> {
        match t {
            Possession::Home => self.home.states_view(),
            Possession::Away => self.away.states_view(),
        }
    }

    /// The ratings of one team's players on court.
    pub closed spec fn attrs_of(&self, t: Possession) -> Seq<PlayerAttributes> {
        match t {
            Possession::Home => self.home.attrs_view(),
            Possession::Away => self.away.attrs_view(),
        }
    }

    /// The events logged so far, oldest first.
    pub closed spec fn log(&self) -> Seq<GameEvent> {
        self.events@
    }

    /// The number of events logged so far.
    pub open spec fn event_count(&self) -> nat {
        self.log().len()
    }

    /// The game's invariant: five players a side, clocks within their limits, a ball handler
    /// who is on court, and exactly that player flagged as holding the ball.
    pub closed spec fn wf(&self) -> bool {
        &&& self.wf_core()
        &&& (self.phase == GamePhase::NotStarted) == (self.possession is None)
        &&& self.phase == GamePhase::NotStarted ==> self.period == 1 && self.time == PERIOD_MS
            && self.shot_clock == SHOT_CLOCK_MS && self.score == (0u32, 0u32)
        &&& self.phase == GamePhase::Ended ==> self.time == 0
    }

    /// The invariant but for the link between the phase and possession.
    closed spec fn wf_core(&self) -> bool {
        &&& self.home.wf()
        &&& self.away.wf()
        &&& self.time <= PERIOD_MS
        &&& self.shot_clock <= SHOT_CLOCK_MS
        &&& self.period >= 1
        &&& self.possession matches Some((_, j)) ==> j < ROSTER_SIZE
        &&& ball_consistent(self.home.states_view(), Possession::Home, self.possession)
        &&& ball_consistent(self.away.states_view(), Possession::Away, self.possession)
    }

    /// The points of team `t`.
    pub open spec fn points_of(&self, t: Possession) -> u32 {
        match t {
            Possession::Home => self.score_view().0,
            Possession::Away => self.score_view().1,
        }
    }

    /// A game not yet started between `home` and `away`: period one, a full clock and shot
    /// clock, no score. Fails unless each side has exactly five starters.
    pub fn new(
        home: Team,
        away: Team,
        home_starters: Vec<Player>,
        home_bench: Vec<Player>,
        away_starters: Vec<Player>,
        away_bench: Vec<Player>,
    ) -> (r: Result<Game, String>)
        ensures
            r is Err <==> (home_starters@.len() != ROSTER_SIZE || away_starters@.len()
                != ROSTER_SIZE),
            r matches Ok(g) ==> {
                &&& g.wf()
                &&& g.phase_view() == GamePhase::NotStarted
                &&& g.period_view() == 1
                &&& g.time_ms() == PERIOD_MS
                &&& g.shot_clock_ms() == SHOT_CLOCK_MS
                &&& g.score_view() == (0u32, 0u32)
                &&& g.possession_view() is None
                &&& g.event_count() == 0
                &&& g.team_view(Possession::Home).players_view() == home_starters@
                &&& g.team_view(Possession::Home).bench_view() == home_bench@
                &&& g.team_view(Possession::Away).players_view() == away_starters@
                &&& g.team_view(Possession::Away).bench_view() == away_bench@
                &&& g.attrs_of(Possession::Home) == Seq::new(
                    5,
                    |i: int| home_starters@[i].attrs(),
                )
                &&& g.attrs_of(Possession::Away) == Seq::new(
                    5,
                    |i: int| away_starters@[i].attrs(),
                )
                &&& forall|t: Possession, j: int|
                    0 <= j < ROSTER_SIZE ==> #[trigger] g.states_of(t)[j] == fresh_state()
            },
    {
        if home_starters.len() != ROSTER_SIZE || away_starters.len() != ROSTER_SIZE {
            return Err(String::from_str("A team needs five starters"));
        }
        let home_state = TeamState::new(home_starters, home_bench);
        let away_state = TeamState::new(away_starters, away_bench);
        let g = Game {
            teams: (home, away),
            events: Vec::new(),
            time: PERIOD_MS,
            shot_clock: SHOT_CLOCK_MS,
            period: 1,
            possession: None,
            home: home_state,
            away: away_state,
            fouls: (0, 0),
            timeouts: (0, 0),
            score: (0, 0),
            phase: GamePhase::NotStarted,
        };
        assert forall|t: Possession, j: int|
            0 <= j < ROSTER_SIZE implies #[trigger] g.states_of(t)[j] == fresh_state() by {}
        Ok(g)
    }

    /// Hands the ball to `new_possession`. When the team in possession changes, every player
    /// regroups (front court back to the backcourt, backcourt up to center court) and the shot
    /// clock resets; a pass within a team changes neither.
    pub fn change_possession(&mut self, new_possession: Option<(Possession, usize)>)
        requires
            old(self).wf(),
            new_possession matches Some((_, j)) ==> j < ROSTER_SIZE,
            old(self).phase_view() == GamePhase::NotStarted ==> new_possession is None,
            old(self).phase_view() != GamePhase::NotStarted ==> new_possession is Some,
        ensures
            final(self).wf(),
            final(self).possession_view() == new_possession,
            possession_changes(old(self).possession_view(), new_possession)
                ==> final(self).shot_clock_ms() == SHOT_CLOCK_MS,
            !possession_changes(old(self).possession_view(), new_possession)
                ==> final(self).shot_clock_ms() == old(self).shot_clock_ms(),
            forall|t: Possession, j: int|
                0 <= j < ROSTER_SIZE ==> #[trigger] final(self).states_of(t)[j] == relabel(
                    old(self).states_of(t)[j],
                    t,
                    j,
                    new_possession,
                    possession_changes(old(self).possession_view(), new_possession),
                ),
            final(self).time_ms() == old(self).time_ms(),
            final(self).period_view() == old(self).period_view(),
            final(self).score_view() == old(self).score_view(),
            final(self).phase_view() == old(self).phase_view(),
            final(self).log() == old(self).log(),
            forall|t: Possession| #[trigger] final(self).attrs_of(t) == old(self).attrs_of(t),
            forall|t: Possession, j: int|
                #[trigger] name_of(*final(self), t, j) == name_of(*old(self), t, j),
    {
        self.hand_ball(new_possession);
    }

    /// `change_possession` without the link between the phase and possession.
    fn hand_ball(&mut self, new_possession: Option<(Possession, usize)>)
        requires
            old(self).wf_core(),
            new_possession matches Some((_, j)) ==> j < ROSTER_SIZE,
        ensures
            final(self).wf_core(),
            final(self).possession_view() == new_possession,
            possession_changes(old(self).possession_view(), new_possession)
                ==> final(self).shot_clock_ms() == SHOT_CLOCK_MS,
            !possession_changes(old(self).possession_view(), new_possession)
                ==> final(self).shot_clock_ms() == old(self).shot_clock_ms(),
            forall|t: Possession, j: int|
                0 <= j < ROSTER_SIZE ==> #[trigger] final(self).states_of(t)[j] == relabel(
                    old(self).states_of(t)[j],
                    t,
                    j,
                    new_possession,
                    possession_changes(old(self).possession_view(), new_possession),
                ),
            final(self).time_ms() == old(self).time_ms(),
            final(self).period_view() == old(self).period_view(),
            final(self).score_view() == old(self).score_view(),
            final(self).phase_view() == old(self).phase_view(),
            final(self).log() == old(self).log(),
            forall|t: Possession| #[trigger] final(self).attrs_of(t) == old(self).attrs_of(t),
            forall|t: Possession, j: int|
                #[trigger] name_of(*final(self), t, j) == name_of(*old(self), t, j),
    {
        let possession_changed = match (self.possession, new_possession) {
            (None, None) => false,
            (Some((old_team, _)), Some((new_team, _))) => old_team != new_team,
            _ => true,
        };
        relabel_team(&mut self.home, Possession::Home, new_possession, possession_changed);
        relabel_team(&mut self.away, Possession::Away, new_possession, possession_changed);
        if possession_changed {
            self.shot_clock = SHOT_CLOCK_MS;
        }
        self.possession = new_possession;
        proof {
            assert forall|t: Possession, j: int|
                0 <= j < ROSTER_SIZE implies #[trigger] self.states_of(t)[j]
                == relabel(
                old(self).states_of(t)[j],
                t,
                j,
                new_possession,
                possession_changed,
            ) by {}
            assert(ball_consistent(self.home.states_view(), Possession::Home, self.possession));
            assert(ball_consistent(self.away.states_view(), Possession::Away, self.possession));
        }
    }

    /// Advances all ten players one tick with the draws in `rolls` (home players first, an
    /// action and a move draw each): the team in possession attacks, the other defends man to
    /// man. Before the opening tip nobody moves.
    pub fn advance_players(&mut self, rolls: &Vec<u64>)
        requires
            old(self).wf(),
            rolls@.len() == PLAYER_DRAWS,
        ensures
            final(self).wf(),
            old(self).possession_view() is None ==> final(self).states_of(Possession::Home)
                == old(self).states_of(Possession::Home) && final(self).states_of(Possession::Away)
                == old(self).states_of(Possession::Away),
            old(self).possession_view() matches Some((t, _)) ==> forall|j: int|
                0 <= j < ROSTER_SIZE ==> {
                    let o = old(self).states_of(t)[j];
                    let n = #[trigger] final(self).states_of(t)[j];
                    n == offense_next(
                        o,
                        old(self).attrs_of(t)[j],
                        o.has_ball,
                        rolls@[draw_base(t) + 2 * j],
                        rolls@[draw_base(t) + 2 * j + 1],
                    )
                },
            old(self).possession_view() matches Some((t, _)) ==> forall|j: int|
                0 <= j < ROSTER_SIZE ==> defense_step(
                    old(self).states_of(other(t))[j],
                    #[trigger] final(self).states_of(other(t))[j],
                    rolls@[draw_base(other(t)) + 2 * j],
                    old(self).states_of(t)[j].current_area,
                ),
            final(self).possession_view() == old(self).possession_view(),
            final(self).time_ms() == old(self).time_ms(),
            final(self).shot_clock_ms() == old(self).shot_clock_ms(),
            final(self).period_view() == old(self).period_view(),
            final(self).score_view() == old(self).score_view(),
            final(self).phase_view() == old(self).phase_view(),
            final(self).log() == old(self).log(),
            forall|t: Possession| #[trigger] final(self).attrs_of(t) == old(self).attrs_of(t),
            forall|t: Possession, j: int|
                #[trigger] name_of(*final(self), t, j) == name_of(*old(self), t, j),
    {
        match self.possession {
            None => {},
            Some((Possession::Home, _)) => {
                let attackers = self.home.states();
                advance_team(&mut self.away, false, &attackers, rolls, 10);
                let defenders = self.away.states();
                advance_team(&mut self.home, true, &defenders, rolls, 0);
            },
            Some((Possession::Away, _)) => {
                let attackers = self.away.states();
                advance_team(&mut self.home, false, &attackers, rolls, 0);
                let defenders = self.home.states();
                advance_team(&mut self.away, true, &defenders, rolls, 10);
            },
        }
        proof {
            assert(ball_consistent(self.home.states_view(), Possession::Home, self.possession)) by {
                assert forall|j: int|
                    0 <= j < ROSTER_SIZE implies (#[trigger] self.home.states_view()[j]).has_ball
                    == (self.possession == Some((Possession::Home, j as usize))) by {
                    assert(self.home.states_view()[j].has_ball
                        == old(self).home.states_view()[j].has_ball);
                }
            }
            assert(ball_consistent(self.away.states_view(), Possession::Away, self.possession)) by {
                assert forall|j: int|
                    0 <= j < ROSTER_SIZE implies (#[trigger] self.away.states_view()[j]).has_ball
                    == (self.possession == Some((Possession::Away, j as usize))) by {
                    assert(self.away.states_view()[j].has_ball
                        == old(self).away.states_view()[j].has_ball);
                }
            }
        }
    }

    /// Advances all ten players one tick with fresh draws from `dice`.
    pub fn update_player_states(&mut self, dice: &mut Dice)
        requires
            old(self).wf(),
        ensures
            final(self).wf(),
            exists|rolls: Seq<u64>|
                rolls.len() == PLAYER_DRAWS && players_advanced(*old(self), *final(self), rolls),
            final(self).possession_view() == old(self).possession_view(),
            final(self).time_ms() == old(self).time_ms(),
            final(self).shot_clock_ms() == old(self).shot_clock_ms(),
            final(self).period_view() == old(self).period_view(),
            final(self).score_view() == old(self).score_view(),
            final(self).phase_view() == old(self).phase_view(),
            final(self).log() == old(self).log(),
    {
        let draws = TickDraws::roll(dice);
        self.advance_players(&draws.players);
        assert(players_advanced(*old(self), *self, draws.players@));
    }
}

/// `mid` is `old` with the ball handed to `p`: every player relabelled, and regrouped when
/// the team in possession changes.
pub open spec fn regrouped(old: Game, mid: Game, p: Option<(Possession, usize)>) -> bool {
    &&& mid.possession_view() == p
    &&& forall|t: Possession| #[trigger] mid.attrs_of(t) == old.attrs_of(t)
    &&& forall|t: Possession, j: int|
        0 <= j < ROSTER_SIZE ==> #[trigger] mid.states_of(t)[j] == relabel(
            old.states_of(t)[j],
            t,
            j,
            p,
            possession_changes(old.possession_view(), p),
        )
}

/// `new` holds the players of `old` advanced one tick with the draws `rolls`.
pub open spec fn players_advanced(old: Game, new: Game, rolls: Seq<u64>) -> bool {
    &&& old.possession_view() is None ==> new.states_of(Possession::Home) == old.states_of(
        Possession::Home,
    ) && new.states_of(Possession::Away) == old.states_of(Possession::Away)
    &&& old.possession_view() matches Some((t, _)) ==> forall|j: int|
        0 <= j < ROSTER_SIZE ==> {
            let o = old.states_of(t)[j];
            #[trigger] new.states_of(t)[j] == offense_next(
                o,
                old.attrs_of(t)[j],
                o.has_ball,
                rolls[draw_base(t) + 2 * j],
                rolls[draw_base(t) + 2 * j + 1],
            )
        }
    &&& old.possession_view() matches Some((t, _)) ==> forall|j: int|
        0 <= j < ROSTER_SIZE ==> defense_step(
            old.states_of(other(t))[j],
            #[trigger] new.states_of(other(t))[j],
            rolls[draw_base(other(t)) + 2 * j],
            old.states_of(t)[j].current_area,
        )
    &&& forall|t: Possession| #[trigger] new.attrs_of(t) == old.attrs_of(t)
}


/// `v` is an entry of `s` and no entry exceeds it.
pub open spec fn is_best(s: Seq<int>, v: int) -> bool {
    (exists|k: int| 0 <= k < s.len() && s[k] == v) && forall|k: int|
        0 <= k < s.len() ==> s[k] <= v
}

/// Jump-ball winner, 0 for home and 1 for away, given both composites and a roll out of 100:
/// even composites split 50/50; otherwise the favourite wins when the roll falls below the
/// difference plus 50.
pub open spec fn jump_winner(home: int, away: int, roll: int) -> u8 {
    let sub = home - away;
    let ratio = if sub < 0 {
        -sub
    } else {
        sub
    } + 50;
    if sub == 0 {
        if roll < 50 {
            0
        } else {
            1
        }
    } else if sub > 0 {
        if roll < ratio {
            0
        } else {
            1
        }
    } else {
        if roll < ratio {
            1
        } else {
            0
        }
    }
}

/// Decides a jump ball between composites `home_value` and `away_value` with a roll out of
/// 100: 0 when home wins, 1 when away wins.
pub fn rng(home_value: i64, away_value: i64, roll: u64) -> (r: u8)
    requires
        roll < 100,
    ensures
        r == jump_winner(home_value as int, away_value as int, roll as int),
{
    let sub = home_value as i128 - away_value as i128;
    let abs_sub = if sub < 0 {
        -sub
    } else {
        sub
    };
    let ratio = abs_sub + 50;
    let roll = roll as i128;
    if sub == 0 {
        if roll < 50 {
            0
        } else {
            1
        }
    } else if sub > 0 {
        if roll < ratio {
            0
        } else {
            1
        }
    } else {
        if roll < ratio {
            1
        } else {
            0
        }
    }
}

/// The team that wins a jump ball in `g` with roll `roll` out of 100.
pub open spec fn jump_team(g: Game, roll: int) -> Possession {
    if jump_winner(
        g.best_composite(Possession::Home),
        g.best_composite(Possession::Away),
        roll,
    ) == 0 {
        Possession::Home
    } else {
        Possession::Away
    }
}

/// The first of team `t`'s players with the best jump-ball composite.
pub open spec fn best_jumper_of(g: Game, t: Possession) -> int {
    let c = g.team_view(t).composites();
    choose|k: int|
        0 <= k < ROSTER_SIZE && is_best(c, c[k]) && forall|m: int| 0 <= m < k ==> c[m] < c[k]
}

/// The announcement of a jump ball won by team `t`, whose player `j` gets the ball.
pub open spec fn jump_text(g: Game, t: Possession, j: int) -> Seq<char> {
    "Jump Ball won for "@ + (if t == Possession::Home {
        "Home"@
    } else {
        "Away"@
    }) + " by "@ + name_of(g, t, best_jumper_of(g, t)) + ". "@ + name_of(g, t, j)
        + " has the ball."@
}

/// The ball handler must shoot: under the buzzer threshold on the shot clock or the game clock.
pub open spec fn shot_forced(g: Game) -> bool {
    g.shot_clock_ms() < BUZZER_MS || g.time_ms() < BUZZER_MS
}

/// The ball handler's state (meaningful while a team has the ball).
pub open spec fn handler(g: Game) -> PlayerState {
    let (t, j) = g.possession_view()->Some_0;
    g.states_of(t)[j as int]
}

/// The ball handler's ratings.
pub open spec fn handler_attrs(g: Game) -> PlayerAttributes {
    let (t, j) = g.possession_view()->Some_0;
    g.attrs_of(t)[j as int]
}

/// The ball handler attempts a shot this tick.
pub open spec fn shot_taken(g: Game) -> bool {
    shot_forced(g) || is_shot_action(handler(g).action)
}

/// The shot attempted this tick falls, with the draw `roll`.
pub open spec fn shot_made(g: Game, roll: u64) -> bool {
    shot_taken(g) && (roll % (SHOT_SCALE as u64)) < shot_probability(
        handler(g).current_area,
        handler_attrs(g),
    )
}

/// The teammate a pass from `j` goes to with the draw `roll`: one of the four others.
pub open spec fn pass_target(j: usize, roll: u64) -> usize {
    ((j + 1 + roll % 4) % 5) as usize
}

/// Who has the ball once the handler's action resolves: after a shot, the other team, with
/// the player the draw picks; after a pass, the receiver; else nobody new.
pub open spec fn next_possession(g: Game, d: TickDraws) -> Option<(Possession, usize)> {
    let (t, j) = g.possession_view()->Some_0;
    if shot_taken(g) {
        Some((other(t), (d.receiver % 5) as usize))
    } else if handler(g).action == PlayerAction::Pass {
        Some((t, pass_target(j, d.pass)))
    } else {
        g.possession_view()
    }
}

/// Points scored this tick with the draws `d`.
pub open spec fn points_scored(g: Game, d: TickDraws) -> int {
    if shot_made(g, d.shot) {
        point_value(handler(g).current_area) as int
    } else {
        0
    }
}

/// "First Last" of player `j` of team `t`.
pub open spec fn name_of(g: Game, t: Possession, j: int) -> Seq<char> {
    g.team_view(t).name_view(j)
}

/// The play-by-play text of the handler's action with draws `d`: the shot and whether it fell,
/// the pass and its receiver, the drive, or the action and where it happened.
pub open spec fn play_text(g: Game, d: TickDraws) -> Seq<char> {
    let (t, j) = g.possession_view()->Some_0;
    let h = handler(g);
    let name = name_of(g, t, j as int);
    if shot_taken(g) {
        name + " "@ + action_label(h.action) + " from "@ + area_label(h.current_area) + if shot_made(
            g,
            d.shot,
        ) {
            " and makes it!"@
        } else {
            " and misses it!"@
        }
    } else if h.action == PlayerAction::Pass {
        let k = pass_target(j, d.pass) as int;
        name + " passes to "@ + name_of(g, t, k) + " from "@ + area_label(h.current_area)
            + " to "@ + area_label(g.states_of(t)[k].current_area)
    } else if h.action == PlayerAction::Drive {
        name + " drives to "@ + area_label(h.current_area)
    } else {
        name + " "@ + action_label(h.action) + " in "@ + area_label(h.current_area)
    }
}

/// `score` plus `points`, held at the largest `u32`.
pub open spec fn add_points(score: u32, points: int) -> u32 {
    if score + points > u32::MAX {
        u32::MAX
    } else {
        (score + points) as u32
    }
}

/// The time a tick takes with the draw `draw` and `time` left: between one and eight seconds,
/// never more than is left.
pub open spec fn elapsed_ms(time: u64, draw: u64) -> int {
    let hi = if time < MAX_ELAPSED_MS {
        time as int
    } else {
        MAX_ELAPSED_MS as int
    };
    let lo = if hi < MIN_ELAPSED_MS {
        hi
    } else {
        MIN_ELAPSED_MS as int
    };
    lo + (draw as int) % (hi - lo + 1)
}

/// The teams are level.
pub open spec fn tied(g: Game) -> bool {
    g.score_view().0 == g.score_view().1
}

/// What one tick with draws `d` does to a game `old` in play with time left: the handler's
/// action resolves, the clocks run, and a shot-clock violation hands the ball over.
pub open spec fn play_post(old: Game, new: Game, d: TickDraws) -> bool {
    let (t, _) = old.possession_view()->Some_0;
    let np = next_possession(old, d);
    let e = elapsed_ms(old.time_ms(), d.elapsed);
    let shot_clock = if possession_changes(old.possession_view(), np) {
        SHOT_CLOCK_MS as int
    } else {
        old.shot_clock_ms() as int
    };
    let violation = e > shot_clock;
    &&& new.time_ms() == old.time_ms() - e
    &&& violation ==> new.possession_view() == Some((other(np->Some_0.0), INBOUNDER))
        && new.shot_clock_ms() == SHOT_CLOCK_MS
    &&& !violation ==> new.possession_view() == np && new.shot_clock_ms() == shot_clock - e
    &&& new.points_of(t) == add_points(old.points_of(t), points_scored(old, d))
    &&& new.points_of(other(t)) == old.points_of(other(t))
    &&& new.period_view() == old.period_view()
    &&& new.phase_view() == old.phase_view()
}

/// What a tick does at the end of a period: the next quarter, overtime when regulation ends
/// level, or the end of the game.
pub open spec fn period_end_post(old: Game, new: Game, action: Seq<char>) -> bool {
    &&& old.period_view() < REGULATION_PERIODS ==> {
        &&& new.period_view() == old.period_view() + 1
        &&& new.time_ms() == PERIOD_MS
        &&& new.shot_clock_ms() == SHOT_CLOCK_MS
        &&& new.phase_view() == GamePhase::InPeriod
        &&& action == "End of Quarter"@
    }
    &&& old.period_view() >= REGULATION_PERIODS && tied(old) ==> {
        &&& new.period_view() == (if old.period_view() < u8::MAX {
            old.period_view() + 1
        } else {
            old.period_view() as int
        })
        &&& new.time_ms() == OVERTIME_MS
        &&& new.shot_clock_ms() == SHOT_CLOCK_MS
        &&& new.phase_view() == GamePhase::InPeriod
        &&& action == "Overtime"@
    }
    &&& old.period_view() >= REGULATION_PERIODS && !tied(old) ==> {
        &&& new.period_view() == old.period_view()
        &&& new.time_ms() == 0
        &&& new.phase_view() == GamePhase::Ended
        &&& action == game_end_text()
    }
    &&& new.score_view() == old.score_view()
    &&& new.possession_view() == old.possession_view()
}

/// Two events carry the same text, period and team.
pub open spec fn same_event(a: GameEvent, b: GameEvent) -> bool {
    a.action@ == b.action@ && a.time@ == b.time@ && a.period == b.period && a.possession
        == b.possession
}

/// `new`'s log is `old`'s with one more entry, a record of `e`.
pub open spec fn logged(old: Game, new: Game, e: GameEvent) -> bool {
    &&& new.log().len() == old.log().len() + 1
    &&& new.log().drop_last() == old.log()
    &&& same_event(new.log().last(), e)
}

/// A shot-clock violation ends the tick with draws `d` in `g`.
pub open spec fn violation(g: Game, d: TickDraws) -> bool {
    elapsed_ms(g.time_ms(), d.elapsed) > (if possession_changes(
        g.possession_view(),
        next_possession(g, d),
    ) {
        SHOT_CLOCK_MS as int
    } else {
        g.shot_clock_ms() as int
    })
}

/// What one tick with draws `d` does to `old`, returning `r`.
pub open spec fn tick_post(old: Game, new: Game, d: TickDraws, r: Result<GameEvent, String>) -> bool {
    &&& new.wf()
    &&& old.phase_view() == GamePhase::Ended ==> r is Err && new == old
    &&& old.phase_view() != GamePhase::Ended ==> (r matches Ok(e) && logged(old, new, e))
    &&& old.phase_view() == GamePhase::NotStarted ==> {
        &&& new.phase_view() == GamePhase::InPeriod
        &&& new.period_view() == 1
        &&& new.time_ms() == PERIOD_MS
        &&& new.shot_clock_ms() == SHOT_CLOCK_MS
        &&& new.score_view() == old.score_view()
        &&& new.possession_view() == Some(
            (jump_team(old, (d.jump % 100) as int), (d.receiver % 5) as usize),
        )
        &&& (r matches Ok(e) && e.action@ == jump_text(
            old,
            jump_team(old, (d.jump % 100) as int),
            (d.receiver % 5) as int,
        ))
    }
    &&& old.phase_view() == GamePhase::InPeriod && old.time_ms() == 0 ==> (r matches Ok(e)
        && period_end_post(old, new, e.action@))
    &&& old.phase_view() == GamePhase::InPeriod && old.time_ms() > 0 ==> {
        &&& play_post(old, new, d)
        &&& exists|mid: Game, moved: Game|
            {
                &&& regrouped(old, mid, next_possession(old, d))
                &&& players_advanced(mid, moved, d.players@)
                &&& violation(old, d) ==> regrouped(
                    moved,
                    new,
                    Some((other(next_possession(old, d)->Some_0.0), INBOUNDER)),
                )
                &&& !violation(old, d) ==> forall|t: Possession|
                    #[trigger] new.states_of(t) == moved.states_of(t)
            }
        &&& (r matches Ok(e) && e.period == old.period_view() && e.time@ == clock_text(
            old.time_ms() as nat,
        ) && e.possession == Some(old.possession_view()->Some_0.0) && e.action@ == if violation(
            old,
            d,
        ) {
            "Turnover"@
        } else {
            play_text(old, d)
        })
    }
}

/// Appends "First Last" of a player.
fn append_name(s: &mut String, p: &Player)
    ensures
        final(s)@ == old(s)@ + (p.first_view() + " "@ + p.last_view()),
{
    s.append(p.first());
    s.append(" ");
    s.append(p.last());
    assert(s@ =~= old(s)@ + (p.first_view() + " "@ + p.last_view()));
}

impl Game {
    /// The largest jump-ball composite among team `t`'s players on court.
    pub open spec fn best_composite(&self, t: Possession) -> int {
        choose|v: int| is_best(self.team_view(t).composites(), v)
    }

    /// One team's players.
    pub closed spec fn team_view(&self, t: Possession) -> TeamState {
        match t {
            Possession::Home => self.home,
            Possession::Away => self.away,
        }
    }

    /// One team's players.
    pub fn team_state(&self, t: Possession) -> (r: &TeamState)
        ensures
            *r == self.team_view(t),
    {
        match t {
            Possession::Home => &self.home,
            Possession::Away => &self.away,
        }
    }

    /// Resolves the ball handler's action with the draws `d`: a shot (forced under the buzzer)
    /// scores the region's points when the draw falls below the make probability, then the
    /// other team gets the ball; a pass goes to one of the four teammates; anything else keeps
    /// the ball. Possession then changes hands as decided and all ten players advance. Fails,
    /// changing nothing, when no team has the ball.
    pub fn handle_player_actions(&mut self, d: &TickDraws) -> (r: Result<GameEvent, String>)
        requires
            old(self).wf(),
            d.wf(),
        ensures
            final(self).wf(),
            (r is Err) == (old(self).possession_view() is None),
            r is Err ==> *final(self) == *old(self),
            r is Ok ==> {
                let (t, _) = old(self).possession_view()->Some_0;
                let np = next_possession(*old(self), *d);
                &&& final(self).possession_view() == np
                &&& final(self).shot_clock_ms() == if possession_changes(
                    old(self).possession_view(),
                    np,
                ) {
                    SHOT_CLOCK_MS
                } else {
                    old(self).shot_clock_ms()
                }
                &&& final(self).points_of(t) == add_points(
                    old(self).points_of(t),
                    points_scored(*old(self), *d),
                )
                &&& final(self).points_of(other(t)) == old(self).points_of(other(t))
                &&& final(self).time_ms() == old(self).time_ms()
                &&& final(self).period_view() == old(self).period_view()
                &&& final(self).phase_view() == old(self).phase_view()
                &&& final(self).log() == old(self).log()
                &&& exists|mid: Game|
                    regrouped(*old(self), mid, np) && players_advanced(
                        mid,
                        *final(self),
                        d.players@,
                    )
            },
            r matches Ok(e) ==> e.period == old(self).period_view() && e.possession == Some(
                old(self).possession_view()->Some_0.0,
            ) && e.time@ == clock_text(old(self).time_ms() as nat) && e.action@ == play_text(
                *old(self),
                *d,
            ),
    {
        let (team, idx) = match self.possession {
            Some(p) => p,
            None => {
                return Err(String::from_str("No event generated"));
            },
        };
        let h = self.team_state(team).state(idx);
        let attributes = *self.team_state(team).player(idx).attributes();
        let forced = self.shot_clock < BUZZER_MS || self.time < BUZZER_MS;
        let mut message = String::new();
        let mut new_possession = self.possession;
        let mut points_added: u32 = 0;
        append_name(&mut message, self.team_state(team).player(idx));
        proof {
            assert(self.team_view(team) == old(self).team_view(team));
            assert(message@ == name_of(*old(self), team, idx as int));
        }
        if forced || h.is_shot_attempt() {
            let chance = h.calculate_shot_chance(&attributes);
            message.append(" ");
            message.append(action_name(h.action));
            message.append(" from ");
            message.append(area_name(h.current_area));
            if d.shot % (SHOT_SCALE as u64) < chance as u64 {
                message.append(" and makes it!");
                points_added = h.current_area.points() as u32;
            } else {
                message.append(" and misses it!");
            }
            new_possession = Some((team.other(), (d.receiver % 5) as usize));
        } else if h.action == PlayerAction::Pass {
            let target = ((idx as u64 + 1 + d.pass % 4) % 5) as usize;
            message.append(" passes to ");
            append_name(&mut message, self.team_state(team).player(target));
            message.append(" from ");
            message.append(area_name(h.current_area));
            message.append(" to ");
            message.append(area_name(self.team_state(team).state(target).current_area));
            new_possession = Some((team, target));
        } else if h.action == PlayerAction::Drive {
            message.append(" drives to ");
            message.append(area_name(h.current_area));
        } else {
            message.append(" ");
            message.append(action_name(h.action));
            message.append(" in ");
            message.append(area_name(h.current_area));
        }
        match team {
            Possession::Home => {
                self.score.0 = self.score.0.saturating_add(points_added);
            },
            Possession::Away => {
                self.score.1 = self.score.1.saturating_add(points_added);
            },
        }
        assert(message@ == play_text(*old(self), *d));
        let event = GameEvent::new(message, format_clock(self.time), self.period, Some(team));
        assert(new_possession == next_possession(*old(self), *d));
        let ghost pre = *self;
        self.change_possession(new_possession);
        let ghost mid = *self;
        assert(regrouped(pre, mid, new_possession));
        self.advance_players(&d.players);
        assert(players_advanced(mid, *self, d.players@));
        assert(regrouped(*old(self), mid, new_possession)) by {
            assert forall|t: Possession, j: int| 0 <= j < ROSTER_SIZE implies #[trigger] pre.states_of(
                t,
            )[j] == old(self).states_of(t)[j] by {}
            assert forall|t: Possession| #[trigger] pre.attrs_of(t) == old(self).attrs_of(t) by {}
        }
        Ok(event)
    }

    /// Runs the clocks for one tick: the draw picks the elapsed time, taken off the game
    /// clock; past the shot clock it is a violation and the other team inbounds, else it comes
    /// off the shot clock too. Returns whether it was a violation.
    fn run_clock(&mut self, draw: u64) -> (violation: bool)
        requires
            old(self).wf(),
            old(self).phase_view() == GamePhase::InPeriod,
            old(self).time_ms() > 0,
        ensures
            final(self).wf(),
            final(self).time_ms() == old(self).time_ms() - elapsed_ms(old(self).time_ms(), draw),
            violation == (elapsed_ms(old(self).time_ms(), draw) > old(self).shot_clock_ms()),
            violation ==> final(self).possession_view() == Some(
                (other(old(self).possession_view()->Some_0.0), INBOUNDER),
            ) && final(self).shot_clock_ms() == SHOT_CLOCK_MS,
            !violation ==> final(self).possession_view() == old(self).possession_view()
                && final(self).shot_clock_ms() == old(self).shot_clock_ms() - elapsed_ms(
                old(self).time_ms(),
                draw,
            ),
            final(self).score_view() == old(self).score_view(),
            final(self).period_view() == old(self).period_view(),
            final(self).phase_view() == old(self).phase_view(),
            final(self).log() == old(self).log(),
            violation ==> regrouped(
                *old(self),
                *final(self),
                Some((other(old(self).possession_view()->Some_0.0), INBOUNDER)),
            ),
            !violation ==> forall|t: Possession|
                #[trigger] final(self).states_of(t) == old(self).states_of(t)
                    && final(self).attrs_of(t) == old(self).attrs_of(t),
    {
        let hi = if self.time < MAX_ELAPSED_MS {
            self.time
        } else {
            MAX_ELAPSED_MS
        };
        let lo = if hi < MIN_ELAPSED_MS {
            hi
        } else {
            MIN_ELAPSED_MS
        };
        let elapsed = lo + draw % (hi - lo + 1);
        let violation = elapsed > self.shot_clock;
        if violation {
            let (team, _) = self.possession.unwrap();
            self.change_possession(Some((team.other(), INBOUNDER)));
            assert(regrouped(*old(self), *self, Some((other(team), INBOUNDER))));
            let ghost after = *self;
            self.time = self.time - elapsed;
            assert forall|t: Possession|
                #[trigger] self.states_of(t) == after.states_of(t) && self.attrs_of(t)
                    == after.attrs_of(t) by {}
            assert(self.possession_view() == after.possession_view());
            assert forall|t: Possession| #[trigger] self.attrs_of(t) == old(self).attrs_of(t) by {
                assert(after.attrs_of(t) == old(self).attrs_of(t));
            }
            assert forall|t: Possession, j: int|
                0 <= j < ROSTER_SIZE implies #[trigger] self.states_of(t)[j] == relabel(
                old(self).states_of(t)[j],
                t,
                j,
                Some((other(team), INBOUNDER)),
                possession_changes(old(self).possession_view(), Some((other(team), INBOUNDER))),
            ) by {
                assert(self.states_of(t) == after.states_of(t));
            }
            assert(regrouped(*old(self), *self, Some((other(team), INBOUNDER))));
            return violation;
        } else {
            self.shot_clock = self.shot_clock - elapsed;
        }
        self.time = self.time - elapsed;
        violation
    }

    /// Closes a period whose clock has run out: the next quarter, overtime when regulation
    /// ends level, or the end of the game.
    fn end_of_period(&mut self) -> (r: GameEvent)
        requires
            old(self).wf(),
            old(self).phase_view() == GamePhase::InPeriod,
            old(self).time_ms() == 0,
        ensures
            final(self).wf(),
            period_end_post(*old(self), *final(self), r.action@),
            final(self).log() == old(self).log(),
            r.period == old(self).period_view(),
            r.possession is None,
    {
        let period = self.period;
        let action;
        if self.period < REGULATION_PERIODS {
            self.period = self.period + 1;
            self.time = PERIOD_MS;
            self.shot_clock = SHOT_CLOCK_MS;
            action = String::from_str("End of Quarter");
        } else if self.score.0 == self.score.1 {
            if self.period < u8::MAX {
                self.period = self.period + 1;
            }
            self.time = OVERTIME_MS;
            self.shot_clock = SHOT_CLOCK_MS;
            action = String::from_str("Overtime");
        } else {
            self.phase = GamePhase::Ended;
            action = String::from_str("End of Game");
        }
        GameEvent::new(action, format_clock(self.time), period, None)
    }

    /// The opening tip: the best jump-ball composite of each side goes in, the draw decides
    /// the winner, and the winning side's player picked by the draw gets the ball with full
    /// clocks in period one. Everyone then advances a tick.
    pub fn generate_jump_ball(&mut self, d: &TickDraws) -> (r: GameEvent)
        requires
            old(self).wf(),
            old(self).phase_view() == GamePhase::NotStarted,
            d.wf(),
        ensures
            final(self).wf(),
            final(self).phase_view() == GamePhase::InPeriod,
            final(self).period_view() == 1,
            final(self).time_ms() == PERIOD_MS,
            final(self).shot_clock_ms() == SHOT_CLOCK_MS,
            final(self).score_view() == old(self).score_view(),
            final(self).possession_view() == Some(
                (jump_team(*old(self), (d.jump % 100) as int), (d.receiver % 5) as usize),
            ),
            logged(*old(self), *final(self), r),
            r.period == 1,
            r.possession == Some(jump_team(*old(self), (d.jump % 100) as int)),
            r.action@ == jump_text(
                *old(self),
                jump_team(*old(self), (d.jump % 100) as int),
                (d.receiver % 5) as int,
            ),
            r.time@ == clock_text(PERIOD_MS as nat),
    {
        let ghost start = *self;
        let (home_best, home_value) = self.home.best_jumper();
        let (away_best, away_value) = self.away.best_jumper();
        proof {
            let hc = self.home.composites();
            let ac = self.away.composites();
            assert(is_best(hc, self.best_composite(Possession::Home))) by {
                assert(self.team_view(Possession::Home) == self.home);
            }
            assert(is_best(ac, self.best_composite(Possession::Away))) by {
                assert(self.team_view(Possession::Away) == self.away);
            }
            let hb = self.best_composite(Possession::Home);
            let ab = self.best_composite(Possession::Away);
            let k1 = choose|k: int| 0 <= k < hc.len() && hc[k] == hb;
            let k2 = choose|k: int| 0 <= k < ac.len() && ac[k] == ab;
            assert(hc[k1] <= home_value && hc[home_best as int] <= hb);
            assert(ac[k2] <= away_value && ac[away_best as int] <= ab);
        }
        let winner = rng(home_value, away_value, d.jump % 100);
        let (possession, best) = if winner == 0 {
            (Possession::Home, home_best)
        } else {
            (Possession::Away, away_best)
        };
        proof {
            let c = self.team_view(possession).composites();
            let k = best_jumper_of(*self, possession);
            assert(0 <= best < ROSTER_SIZE && is_best(c, c[best as int]) && forall|m: int|
                0 <= m < best ==> c[m] < c[best as int]);
            assert(0 <= k < ROSTER_SIZE && is_best(c, c[k]) && forall|m: int|
                0 <= m < k ==> c[m] < c[k]);
            if k < best {
                assert(c[k] < c[best as int]);
                assert(c[best as int] <= c[k]);
            }
            if best < k {
                assert(c[best as int] < c[k]);
                assert(c[k] <= c[best as int]);
            }
            assert(k == best);
        }

        let player_index = (d.receiver % 5) as usize;
        self.hand_ball(Some((possession, player_index)));
        assert(name_of(*self, possession, best as int) == name_of(start, possession, best as int));
        assert(name_of(*self, possession, player_index as int) == name_of(
            start,
            possession,
            player_index as int,
        ));
        self.phase = GamePhase::InPeriod;
        self.period = 1;
        self.time = PERIOD_MS;
        self.shot_clock = SHOT_CLOCK_MS;
        let mut message = String::from_str("Jump Ball won for ");
        proof {
            reveal_strlit("Home");
            reveal_strlit("Away");
        }
        message.append(possession.name());
        message.append(" by ");
        append_name(&mut message, self.team_state(possession).player(best));
        message.append(". ");
        append_name(&mut message, self.team_state(possession).player(player_index));
        message.append(" has the ball.");
        proof {
            assert(message@ == jump_text(start, possession, player_index as int));
        }
        let event = GameEvent::new(message, format_clock(self.time), 1, Some(possession));
        self.advance_players(&d.players);
        let ghost before = self.log();
        self.events.push(event.copy());
        assert(self.log().drop_last() =~= before);
        event
    }

    /// Advances the game one tick with the draws `d` and logs the event: the opening tip,
    /// the close of a period whose clock has run out, or a play. Fails, changing nothing, once
    /// the game has ended.
    pub fn advance_with(&mut self, d: &TickDraws) -> (r: Result<GameEvent, String>)
        requires
            old(self).wf(),
            d.wf(),
        ensures
            tick_post(*old(self), *final(self), *d, r),
    {
        let ghost mut mid_w = *self;
        let ghost mut moved_w = *self;
        let ghost mut clocked = *self;
        let event = match self.phase {
            GamePhase::Ended => {
                return Err(String::from_str("The game has ended"));
            },
            GamePhase::NotStarted => {
                return Ok(self.generate_jump_ball(d));
            },
            GamePhase::InPeriod => {
                if self.time == 0 {
                    self.end_of_period()
                } else {
                    let play = self.handle_player_actions(d);
                    let ghost moved = *self;
                    let violation = self.run_clock(d.elapsed);
                    proof {
                        let mid = choose|mid: Game|
                            regrouped(*old(self), mid, next_possession(*old(self), *d))
                                && players_advanced(mid, moved, d.players@);
                        assert(violation == crate::game::violation(*old(self), *d));
                        mid_w = mid;
                        moved_w = moved;
                        clocked = *self;
                    }
                    match play {
                        Ok(e) => {
                            if violation {
                                GameEvent::new(
                                    String::from_str("Turnover"),
                                    e.time,
                                    e.period,
                                    e.possession,
                                )
                            } else {
                                e
                            }
                        },
                        Err(_) => {
                            return Err(String::from_str("No event generated"));
                        },
                    }
                }
            },
        };
        let ghost before = self.log();
        self.events.push(event.copy());
        assert(self.log().drop_last() =~= before);
        proof {
            if old(self).phase_view() == GamePhase::InPeriod && old(self).time_ms() > 0 {
                assert(self.possession_view() == clocked.possession_view());
                assert forall|t: Possession| #[trigger] self.states_of(t) == clocked.states_of(t)
                    && self.attrs_of(t) == clocked.attrs_of(t) by {}
                assert forall|t: Possession| #[trigger] self.attrs_of(t) == clocked.attrs_of(t) by {}
                if violation(*old(self), *d) {
                    let p = Some((other(next_possession(*old(self), *d)->Some_0.0), INBOUNDER));
                    assert(regrouped(moved_w, clocked, p));
                    assert forall|t: Possession, j: int|
                        0 <= j < ROSTER_SIZE implies #[trigger] self.states_of(t)[j] == relabel(
                        moved_w.states_of(t)[j],
                        t,
                        j,
                        p,
                        possession_changes(moved_w.possession_view(), p),
                    ) by {
                        assert(self.states_of(t) == clocked.states_of(t));
                    }
                    assert forall|t: Possession| #[trigger] self.attrs_of(t) == moved_w.attrs_of(t) by {
                        assert(clocked.attrs_of(t) == moved_w.attrs_of(t));
                    }
                    assert(regrouped(moved_w, *self, p));
                } else {
                    assert forall|t: Possession|
                        #[trigger] self.states_of(t) == moved_w.states_of(t) by {
                        assert(clocked.states_of(t) == moved_w.states_of(t));
                    }
                }
                assert(regrouped(*old(self), mid_w, next_possession(*old(self), *d)));
                assert(players_advanced(mid_w, moved_w, d.players@));
            }
        }
        Ok(event)
    }

    /// Advances the game one tick with fresh draws from `dice`; see `advance_with`.
    pub fn generate_next_game_event(&mut self, dice: &mut Dice) -> (r: Result<GameEvent, String>)
        requires
            old(self).wf(),
        ensures
            exists|d: TickDraws| d.wf() && tick_post(*old(self), *final(self), d, r),
    {
        let d = TickDraws::roll(dice);
        let r = self.advance_with(&d);
        assert(d.wf() && tick_post(*old(self), *self, d, r));
        r
    }

    /// The game clock as `MM:SS:mmm`.
    pub fn get_time(&self) -> (r: String)
        ensures
            r@ == clock_text(self.time_ms() as nat),
    {
        format_clock(self.time)
    }

    /// Points of the home and the away team.
    pub fn get_score(&self) -> (r: (u32, u32))
        ensures
            r == self.score_view(),
    {
        (self.score.0, self.score.1)
    }

    /// Game clock, in milliseconds.
    pub fn get_time_ms(&self) -> (r: u64)
        ensures
            r == self.time_ms(),
    {
        self.time
    }

    /// Shot clock, in milliseconds.
    pub fn get_shot_clock_ms(&self) -> (r: u64)
        ensures
            r == self.shot_clock_ms(),
    {
        self.shot_clock
    }

    pub fn get_period(&self) -> (r: u8)
        ensures
            r == self.period_view(),
    {
        self.period
    }

    /// The team in possession and the index of its ball handler.
    pub fn get_possession(&self) -> (r: Option<(Possession, usize)>)
        ensures
            r == self.possession_view(),
    {
        self.possession
    }

    pub fn get_phase(&self) -> (r: GamePhase)
        ensures
            r == self.phase_view(),
    {
        self.phase
    }

    /// The events logged so far, oldest first.
    pub fn events(&self) -> (r: &Vec<GameEvent>)
        ensures
            r@.len() == self.event_count(),
    {
        &self.events
    }

    /// The two teams, home first.
    pub fn teams(&self) -> &(Team, Team) {
        &self.teams
    }

    /// Copies of the states of the home and the away players on court.
    pub fn get_player_states(&self) -> (r: (Vec<PlayerState>, Vec<PlayerState>))
        requires
            self.wf(),
        ensures
            r.0@ == self.states_of(Possession::Home),
            r.1@ == self.states_of(Possession::Away),
    {
        (self.home.states(), self.away.states())
    }

    /// The ball handler and their state; `None` before the opening tip.
    pub fn player_has_ball(&self) -> (r: Option<(&Player, PlayerState)>)
        requires
            self.wf(),
        ensures
            self.possession_view() is None ==> r is None,
            self.possession_view() matches Some((t, j)) ==> (r matches Some((p, s))
                && *p == self.team_view(t).players_view()[j as int] && p.attrs()
                == self.attrs_of(t)[j as int] && s == self.states_of(t)[j as int] && s.has_ball),
    {
        match self.possession {
            Some((team, index)) => {
                let ts = self.team_state(team);
                proof {
                    assert(ts.states_view() == self.states_of(team));
                    assert(ts.attrs_view() == self.attrs_of(team));
                }
                Some((ts.player(index), ts.state(index)))
            },
            None => None,
        }
    }
}

/// When the team in possession changes, no player keeps a front-court region: whatever the
/// players held before, a change that regroups them leaves front court behind.
pub proof fn lemma_change_clears_front_court(
    old: Game,
    new: Game,
    p: Option<(Possession, usize)>,
)
    requires
        possession_changes(old.possession_view(), p),
        forall|t: Possession, j: int|
            0 <= j < ROSTER_SIZE ==> #[trigger] new.states_of(t)[j] == relabel(
                old.states_of(t)[j],
                t,
                j,
                p,
                possession_changes(old.possession_view(), p),
            ),
    ensures
        forall|t: Possession, j: int|
            0 <= j < ROSTER_SIZE && front_court(#[trigger] old.states_of(t)[j].current_area)
                ==> new.states_of(t)[j].current_area == CourtArea::Backcourt && !front_court(
                new.states_of(t)[j].current_area,
            ),
{
    assert forall|t: Possession, j: int|
        0 <= j < ROSTER_SIZE && front_court(#[trigger] old.states_of(t)[j].current_area)
            implies new.states_of(t)[j].current_area == CourtArea::Backcourt && !front_court(
        new.states_of(t)[j].current_area,
    ) by {
        assert(new.states_of(t)[j] == relabel(old.states_of(t)[j], t, j, p, true));
    }
}

/// In a game under way exactly one player on the court holds the ball, and they belong to the
/// team in possession.
pub proof fn lemma_one_ball_handler(g: Game)
    requires
        g.wf(),
        g.phase_view() != GamePhase::NotStarted,
    ensures
        g.possession_view() matches Some((t, j)) && j < ROSTER_SIZE
            && g.states_of(t)[j as int].has_ball,
        forall|u: Possession, k: int|
            0 <= k < ROSTER_SIZE && (#[trigger] g.states_of(u)[k]).has_ball ==> g.possession_view()
                == Some((u, k as usize)),
{
    reveal(Game::wf);
    reveal(Game::wf_core);
    let (t, j) = g.possession_view()->Some_0;
    assert(g.states_of(t)[j as int].has_ball);
}

/// A tick in play hands the ball to the other team exactly when a shot goes up or the shot
/// clock runs out, and never both: possession flips at most once per tick.
pub proof fn lemma_possession_flips_once(old: Game, new: Game, d: TickDraws)
    requires
        old.wf(),
        old.phase_view() == GamePhase::InPeriod,
        old.time_ms() > 0,
        play_post(old, new, d),
    ensures
        ({
            let (t, _) = old.possession_view()->Some_0;
            let violation = !shot_taken(old) && elapsed_ms(old.time_ms(), d.elapsed)
                > old.shot_clock_ms();
            &&& !(shot_taken(old) && elapsed_ms(old.time_ms(), d.elapsed) > SHOT_CLOCK_MS)
            &&& new.possession_view() matches Some((u, _)) && u == if shot_taken(old) || violation {
                other(t)
            } else {
                t
            }
        }),
{
    reveal(Game::wf);
    reveal(Game::wf_core);
}

/// Within a period the clocks only run down: a tick takes no more than the time left, and the
/// shot clock rises only when it resets on a change of possession.
pub proof fn lemma_clocks_run_down(old: Game, new: Game, d: TickDraws)
    requires
        old.wf(),
        old.phase_view() == GamePhase::InPeriod,
        old.time_ms() > 0,
        play_post(old, new, d),
    ensures
        0 <= elapsed_ms(old.time_ms(), d.elapsed) <= old.time_ms(),
        new.time_ms() <= old.time_ms(),
        new.possession_view()->Some_0.0 == old.possession_view()->Some_0.0 ==> new.shot_clock_ms()
            <= old.shot_clock_ms(),
        new.shot_clock_ms() <= SHOT_CLOCK_MS,
{
    reveal(Game::wf);
    reveal(Game::wf_core);
}

/// A shot forced by the buzzer always goes up, and scores nothing, two or three.
pub proof fn lemma_buzzer_shot_scores(old: Game, new: Game, d: TickDraws)
    requires
        old.wf(),
        old.phase_view() == GamePhase::InPeriod,
        old.time_ms() > 0,
        shot_forced(old),
        play_post(old, new, d),
        old.points_of(old.possession_view()->Some_0.0) <= u32::MAX - 3,
    ensures
        shot_taken(old),
        ({
            let t = old.possession_view()->Some_0.0;
            let delta = new.points_of(t) - old.points_of(t);
            delta == 0 || delta == 2 || delta == 3
        }),
        new.points_of(other(old.possession_view()->Some_0.0)) == old.points_of(
            other(old.possession_view()->Some_0.0),
        ),
{
}

} // verus!
