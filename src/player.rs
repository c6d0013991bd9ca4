//! Players and their static ability ratings.
use crate::court::CourtArea;
use crate::dice::Dice;
use vstd::prelude::*;

verus! {

/// A player's ability ratings, nominally from 0 to 99.
#[derive(Clone, Copy, Debug, PartialEq, Eq, Structural)]
pub struct PlayerAttributes {
    pub spd: i32,
    pub interior_def: i32,
    pub perimeter_def: i32,
    pub close_shot: i32,
    pub mid_shot: i32,
    pub deep_shot: i32,
    pub shot_in_traffic: i32,
    pub intelligence: i32,
    pub handle: i32,
    pub pass: i32,
    pub block: i32,
    pub steal: i32,
    pub off_rebound: i32,
    pub def_rebound: i32,
    pub ath: i32,
    pub strength: i32,
    pub durability: i32,
    pub conditioning: i32,
}

/// The shooter's rating that applies from `area`, in tenths of a point, as rated (no bound is
/// imposed here): close range for the basket, the restricted area and the post, mid range
/// for the elbows and the mid-range band, deep range beyond the arc, a token tenth at center
/// court, nothing from the backcourt or a boundary.
pub open spec fn rating_tenths(a: PlayerAttributes, area: CourtArea) -> int {
    match area {
        CourtArea::RestrictedAreaLeft
        | CourtArea::RestrictedAreaRight
        | CourtArea::RestrictedAreaMiddle
        | CourtArea::Basket
        | CourtArea::LowPostLeft
        | CourtArea::LowPostRight
        | CourtArea::ShortCornerLeft
        | CourtArea::ShortCornerRight => 10 * (a.close_shot as int),
        CourtArea::ElbowLeft
        | CourtArea::ElbowRight
        | CourtArea::FreeThrowLine
        | CourtArea::MidrangeCenter
        | CourtArea::MidrangeWingLeft
        | CourtArea::MidrangeWingRight
        | CourtArea::MidrangeBaselineLeft
        | CourtArea::MidrangeBaselineRight => 10 * (a.mid_shot as int),
        CourtArea::ThreePointLineCornerLeft
        | CourtArea::ThreePointLineCornerRight
        | CourtArea::ThreePointLineWingLeft
        | CourtArea::ThreePointLineWingRight
        | CourtArea::ThreePointLineCenter => 10 * (a.deep_shot as int),
        CourtArea::Center => 1,
        _ => 0,
    }
}

impl PlayerAttributes {
    /// All ratings zero.
    pub fn new() -> (r: PlayerAttributes)
        ensures
            r.spd == 0 && r.interior_def == 0 && r.perimeter_def == 0 && r.close_shot == 0,
            r.mid_shot == 0 && r.deep_shot == 0 && r.shot_in_traffic == 0 && r.intelligence == 0,
            r.handle == 0 && r.pass == 0 && r.block == 0 && r.steal == 0,
            r.off_rebound == 0 && r.def_rebound == 0 && r.ath == 0 && r.strength == 0,
            r.durability == 0 && r.conditioning == 0,
    {
        PlayerAttributes {
            spd: 0,
            interior_def: 0,
            perimeter_def: 0,
            close_shot: 0,
            mid_shot: 0,
            deep_shot: 0,
            shot_in_traffic: 0,
            intelligence: 0,
            handle: 0,
            pass: 0,
            block: 0,
            steal: 0,
            off_rebound: 0,
            def_rebound: 0,
            ath: 0,
            strength: 0,
            durability: 0,
            conditioning: 0,
        }
    }

    /// The shooting rating that applies from `area`, in tenths of a point.
    pub fn shot_chance(&self, area: CourtArea) -> (r: i64)
        ensures
            r == rating_tenths(*self, area),
            -21474836480 <= r <= 21474836470,
    {
        match area {
            CourtArea::RestrictedAreaLeft
            | CourtArea::RestrictedAreaRight
            | CourtArea::RestrictedAreaMiddle
            | CourtArea::Basket
            | CourtArea::LowPostLeft
            | CourtArea::LowPostRight
            | CourtArea::ShortCornerLeft
            | CourtArea::ShortCornerRight => 10 * (self.close_shot as i64),
            CourtArea::ElbowLeft
            | CourtArea::ElbowRight
            | CourtArea::FreeThrowLine
            | CourtArea::MidrangeCenter
            | CourtArea::MidrangeWingLeft
            | CourtArea::MidrangeWingRight
            | CourtArea::MidrangeBaselineLeft
            | CourtArea::MidrangeBaselineRight => 10 * (self.mid_shot as i64),
            CourtArea::ThreePointLineCornerLeft
            | CourtArea::ThreePointLineCornerRight
            | CourtArea::ThreePointLineWingLeft
            | CourtArea::ThreePointLineWingRight
            | CourtArea::ThreePointLineCenter => 10 * (self.deep_shot as i64),
            CourtArea::Center => 1,
            CourtArea::Backcourt
            | CourtArea::SidelineLeft
            | CourtArea::SidelineRight
            | CourtArea::BaselineLeft
            | CourtArea::BaselineRight
            | CourtArea::OutOfBounds => 0,
        }
    }
}

/// A rating in `0..100`.
pub open spec fn rating_range(v: i32) -> bool {
    0 <= v < 100
}

/// Ratings drawn from `dice`, each in `0..100`.
pub fn gen_rand_attrs(dice: &mut Dice) -> (r: PlayerAttributes)
    ensures
        rating_range(r.spd) && rating_range(r.interior_def) && rating_range(r.perimeter_def),
        rating_range(r.close_shot) && rating_range(r.mid_shot) && rating_range(r.deep_shot),
        rating_range(r.shot_in_traffic) && rating_range(r.intelligence) && rating_range(r.handle),
        rating_range(r.pass) && rating_range(r.block) && rating_range(r.steal),
        rating_range(r.off_rebound) && rating_range(r.def_rebound) && rating_range(r.ath),
        rating_range(r.strength) && rating_range(r.durability) && rating_range(r.conditioning),
{
    PlayerAttributes {
        spd: dice.below(100) as i32,
        interior_def: dice.below(100) as i32,
        perimeter_def: dice.below(100) as i32,
        close_shot: dice.below(100) as i32,
        mid_shot: dice.below(100) as i32,
        deep_shot: dice.below(100) as i32,
        shot_in_traffic: dice.below(100) as i32,
        intelligence: dice.below(100) as i32,
        handle: dice.below(100) as i32,
        pass: dice.below(100) as i32,
        block: dice.below(100) as i32,
        steal: dice.below(100) as i32,
        off_rebound: dice.below(100) as i32,
        def_rebound: dice.below(100) as i32,
        ath: dice.below(100) as i32,
        strength: dice.below(100) as i32,
        durability: dice.below(100) as i32,
        conditioning: dice.below(100) as i32,
    }
}

/// A rostered player.
#[derive(Debug)]
pub struct Player {
    id: Option<i64>,
    pub first_name: String,
    pub last_name: String,
    position: String,
    age: u8,
    height: i32,
    weight: i32,
    attributes: PlayerAttributes,
}

impl Player {
    /// Identity in storage, if the player has been stored.
    pub closed spec fn id(&self) -> Option<i64> {
        self.id
    }

    /// Height, in inches.
    pub closed spec fn height(&self) -> i32 {
        self.height
    }

    /// Ability ratings.
    pub closed spec fn attrs(&self) -> PlayerAttributes {
        self.attributes
    }

    /// First name.
    pub closed spec fn first_view(&self) -> Seq<char> {
        self.first_name@
    }

    /// Last name.
    pub closed spec fn last_view(&self) -> Seq<char> {
        self.last_name@
    }

    /// Playing position.
    pub closed spec fn position_view(&self) -> Seq<char> {
        self.position@
    }

    /// Age, in years.
    pub closed spec fn age(&self) -> u8 {
        self.age
    }

    /// Weight, in pounds.
    pub closed spec fn weight(&self) -> i32 {
        self.weight
    }

    pub fn new(
        id: Option<i64>,
        first_name: String,
        last_name: String,
        position: String,
        age: u8,
        height: i32,
        weight: i32,
        attributes: PlayerAttributes,
    ) -> (r: Player)
        ensures
            r.id() == id,
            r.first_view() == first_name@,
            r.last_view() == last_name@,
            r.position_view() == position@,
            r.age() == age,
            r.height() == height,
            r.weight() == weight,
            r.attrs() == attributes,
    {
        Player { id, first_name, last_name, position, age, height, weight, attributes }
    }

    /// The player's identity in storage; an error for a player not yet stored.
    pub fn get_id(&self) -> (r: Result<i64, String>)
        ensures
            self.id() matches Some(v) ==> r == Ok::<i64, String>(v),
            self.id() is None ==> (r matches Err(e) && e@ == "Player has no id. Write to db first."@),
    {
        if let Some(id) = self.id {
            Ok(id)
        } else {
            Err(String::from_str("Player has no id. Write to db first."))
        }
    }

    /// Records the identity the player got in storage.
    pub fn set_id(&mut self, id: i64)
        ensures
            final(self).id() == Some(id),
            final(self).first_view() == old(self).first_view(),
            final(self).last_view() == old(self).last_view(),
            final(self).position_view() == old(self).position_view(),
            final(self).age() == old(self).age(),
            final(self).height() == old(self).height(),
            final(self).weight() == old(self).weight(),
            final(self).attrs() == old(self).attrs(),
    {
        self.id = Some(id);
    }

    /// Height, in inches.
    pub fn get_height(&self) -> (r: i32)
        ensures
            r == self.height(),
    {
        self.height
    }

    /// A copy of the ability ratings.
    pub fn get_player_attributes(&self) -> (r: PlayerAttributes)
        ensures
            r == self.attrs(),
    {
        self.attributes
    }

    /// The ability ratings.
    pub fn attributes(&self) -> (r: &PlayerAttributes)
        ensures
            *r == self.attrs(),
    {
        &self.attributes
    }

    /// First name.
    pub fn first(&self) -> (r: &str)
        ensures
            r@ == self.first_view(),
    {
        self.first_name.as_str()
    }

    /// Last name.
    pub fn last(&self) -> (r: &str)
        ensures
            r@ == self.last_view(),
    {
        self.last_name.as_str()
    }

    /// Playing position.
    pub fn position(&self) -> (r: &str)
        ensures
            r@ == self.position_view(),
    {
        self.position.as_str()
    }

    /// Age, in years.
    pub fn get_age(&self) -> (r: u8)
        ensures
            r == self.age(),
    {
        self.age
    }

    /// Weight, in pounds.
    pub fn get_weight(&self) -> (r: i32)
        ensures
            r == self.weight(),
    {
        self.weight
    }
}

} // verus!
