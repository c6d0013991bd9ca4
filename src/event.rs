//! Play-by-play events and the clock text they carry.
use crate::dice::Dice;
use crate::game::{tick_post, Game, TickDraws};
use vstd::prelude::*;

verus! {

/// Which team a record concerns.
#[derive(Clone, Copy, Debug, PartialEq, Eq, Structural)]
pub enum Possession {
    Home,
    Away,
}

/// The other team.
pub open spec fn other(p: Possession) -> Possession {
    match p {
        Possession::Home => Possession::Away,
        Possession::Away => Possession::Home,
    }
}

impl Possession {
    /// The other team.
    pub fn other(&self) -> (r: Possession)
        ensures
            r == other(*self),
    {
        match self {
            Possession::Home => Possession::Away,
            Possession::Away => Possession::Home,
        }
    }

    /// The team's name.
    pub fn name(&self) -> (r: &'static str)
        ensures
            *self == Possession::Home ==> r@ == "Home"@,
            *self == Possession::Away ==> r@ == "Away"@,
    {
        match self {
            Possession::Home => "Home",
            Possession::Away => "Away",
        }
    }
}

/// One simulated tick: what happened, the game clock as `MM:SS:mmm`, the period, and the team
/// in possession.
#[derive(Debug)]
pub struct GameEvent {
    pub action: String,
    pub time: String,
    pub period: u8,
    pub possession: Option<Possession>,
}

/// The action text of the event that closes a game.
pub open spec fn game_end_text() -> Seq<char> {
    "End of Game"@
}

impl GameEvent {
    pub fn new(action: String, time: String, period: u8, possession: Option<Possession>) -> (r:
        GameEvent)
        ensures
            r.action@ == action@,
            r.time@ == time@,
            r.period == period,
            r.possession == possession,
    {
        GameEvent { action, time, period, possession }
    }

    /// Whether this event closes the game.
    pub fn is_game_end(&self) -> (r: bool)
        ensures
            r == (self.action@ == game_end_text()),
    {
        let end = String::from_str("End of Game");
        self.action == end
    }

    /// Advances `game` one tick with fresh draws from `dice` and returns the tick's event.
    pub fn generate_next_game_event(game: &mut Game, dice: &mut Dice) -> (r: Result<
        GameEvent,
        String,
    >)
        requires
            old(game).wf(),
        ensures
            exists|d: TickDraws| d.wf() && tick_post(*old(game), *final(game), d, r),
    {
        game.generate_next_game_event(dice)
    }

    /// A field-by-field copy.
    pub fn copy(&self) -> (r: GameEvent)
        ensures
            r.action@ == self.action@,
            r.time@ == self.time@,
            r.period == self.period,
            r.possession == self.possession,
    {
        GameEvent {
            action: self.action.clone(),
            time: self.time.clone(),
            period: self.period,
            possession: self.possession,
        }
    }
}

/// The decimal digits.
pub open spec fn digits() -> Seq<char> {
    seq!['0', '1', '2', '3', '4', '5', '6', '7', '8', '9']
}

/// The last `width` decimal digits of `n`, zero-padded.
pub open spec fn padded(n: nat, width: nat) -> Seq<char>
    decreases width,
{
    if width == 0 {
        seq![]
    } else {
        padded(n / 10, (width - 1) as nat).push(digits()[(n % 10) as int])
    }
}

/// A clock of `ms` milliseconds as `MM:SS:mmm`.
pub open spec fn clock_text(ms: nat) -> Seq<char> {
    padded(ms / 60000, 2) + seq![':'] + padded((ms / 1000) % 60, 2) + seq![':'] + padded(
        ms % 1000,
        3,
    )
}

fn digit_text(d: u64) -> (r: &'static str)
    requires
        d < 10,
    ensures
        r@ == seq![digits()[d as int]],
{
    proof {
        reveal_strlit("0");
        reveal_strlit("1");
        reveal_strlit("2");
        reveal_strlit("3");
        reveal_strlit("4");
        reveal_strlit("5");
        reveal_strlit("6");
        reveal_strlit("7");
        reveal_strlit("8");
        reveal_strlit("9");
    }
    match d {
        0 => "0",
        1 => "1",
        2 => "2",
        3 => "3",
        4 => "4",
        5 => "5",
        6 => "6",
        7 => "7",
        8 => "8",
        _ => "9",
    }
}

/// Appends the last `width` digits of `n`, zero-padded.
fn append_padded(s: &mut String, n: u64, width: u64)
    requires
        width <= 3,
    ensures
        final(s)@ == old(s)@ + padded(n as nat, width as nat),
    decreases width,
{
    if width > 0 {
        append_padded(s, n / 10, width - 1);
        s.append(digit_text(n % 10));
    }
}

/// The text of a clock showing `ms` milliseconds, as `MM:SS:mmm`.
pub fn format_clock(ms: u64) -> (r: String)
    ensures
        r@ == clock_text(ms as nat),
{
    let mut s = String::new();
    append_padded(&mut s, ms / 60000, 2);
    s.append(":");
    append_padded(&mut s, (ms / 1000) % 60, 2);
    s.append(":");
    append_padded(&mut s, ms % 1000, 3);
    proof {
        reveal_strlit(":");
    }
    s
}

} // verus!
