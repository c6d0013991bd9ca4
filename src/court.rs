//! Court regions, the movement graph between them, and shortest-path search.
use vstd::prelude::*;

verus! {

/// One discrete region of the half court, or a boundary beyond it.
#[derive(Clone, Copy, Debug, PartialEq, Eq, Hash, Structural)]
pub enum CourtArea {
    Basket,
    RestrictedAreaLeft,
    RestrictedAreaMiddle,
    RestrictedAreaRight,
    LowPostLeft,
    LowPostRight,
    ShortCornerLeft,
    ShortCornerRight,
    ElbowLeft,
    ElbowRight,
    FreeThrowLine,
    MidrangeBaselineLeft,
    MidrangeBaselineRight,
    MidrangeWingLeft,
    MidrangeCenter,
    MidrangeWingRight,
    ThreePointLineCornerLeft,
    ThreePointLineCornerRight,
    ThreePointLineWingLeft,
    ThreePointLineWingRight,
    ThreePointLineCenter,
    Center,
    Backcourt,
    SidelineLeft,
    SidelineRight,
    BaselineLeft,
    BaselineRight,
    OutOfBounds,
}

/// Number of regions.
pub const AREA_COUNT: usize = 28;

/// Position of a region in declaration order.
pub open spec fn ord(a: CourtArea) -> int {
    match a {
        CourtArea::Basket => 0,
        CourtArea::RestrictedAreaLeft => 1,
        CourtArea::RestrictedAreaMiddle => 2,
        CourtArea::RestrictedAreaRight => 3,
        CourtArea::LowPostLeft => 4,
        CourtArea::LowPostRight => 5,
        CourtArea::ShortCornerLeft => 6,
        CourtArea::ShortCornerRight => 7,
        CourtArea::ElbowLeft => 8,
        CourtArea::ElbowRight => 9,
        CourtArea::FreeThrowLine => 10,
        CourtArea::MidrangeBaselineLeft => 11,
        CourtArea::MidrangeBaselineRight => 12,
        CourtArea::MidrangeWingLeft => 13,
        CourtArea::MidrangeCenter => 14,
        CourtArea::MidrangeWingRight => 15,
        CourtArea::ThreePointLineCornerLeft => 16,
        CourtArea::ThreePointLineCornerRight => 17,
        CourtArea::ThreePointLineWingLeft => 18,
        CourtArea::ThreePointLineWingRight => 19,
        CourtArea::ThreePointLineCenter => 20,
        CourtArea::Center => 21,
        CourtArea::Backcourt => 22,
        CourtArea::SidelineLeft => 23,
        CourtArea::SidelineRight => 24,
        CourtArea::BaselineLeft => 25,
        CourtArea::BaselineRight => 26,
        CourtArea::OutOfBounds => 27,
    }
}

/// Every region, in declaration order.
pub open spec fn all_areas() -> Seq<CourtArea> {
    seq![
        CourtArea::Basket,
        CourtArea::RestrictedAreaLeft,
        CourtArea::RestrictedAreaMiddle,
        CourtArea::RestrictedAreaRight,
        CourtArea::LowPostLeft,
        CourtArea::LowPostRight,
        CourtArea::ShortCornerLeft,
        CourtArea::ShortCornerRight,
        CourtArea::ElbowLeft,
        CourtArea::ElbowRight,
        CourtArea::FreeThrowLine,
        CourtArea::MidrangeBaselineLeft,
        CourtArea::MidrangeBaselineRight,
        CourtArea::MidrangeWingLeft,
        CourtArea::MidrangeCenter,
        CourtArea::MidrangeWingRight,
        CourtArea::ThreePointLineCornerLeft,
        CourtArea::ThreePointLineCornerRight,
        CourtArea::ThreePointLineWingLeft,
        CourtArea::ThreePointLineWingRight,
        CourtArea::ThreePointLineCenter,
        CourtArea::Center,
        CourtArea::Backcourt,
        CourtArea::SidelineLeft,
        CourtArea::SidelineRight,
        CourtArea::BaselineLeft,
        CourtArea::BaselineRight,
        CourtArea::OutOfBounds,
    ]
}

/// The region at position `i` in declaration order.
pub open spec fn area_of(i: int) -> CourtArea {
    all_areas()[i]
}

/// `ord` and `area_of` are inverse bijections between regions and `0..AREA_COUNT`.
pub broadcast proof fn lemma_ord_area_of(a: CourtArea)
    ensures
        0 <= #[trigger] ord(a) < AREA_COUNT,
        area_of(ord(a)) == a,
{
}

/// Traversal cost of entering a region, in tenths; `None` marks an impassable boundary.
pub open spec fn weight(a: CourtArea) -> Option<u32> {
    match a {
        CourtArea::Basket => Some(0u32),
        CourtArea::RestrictedAreaLeft => Some(12u32),
        CourtArea::RestrictedAreaMiddle => Some(10u32),
        CourtArea::RestrictedAreaRight => Some(12u32),
        CourtArea::LowPostLeft => Some(15u32),
        CourtArea::LowPostRight => Some(15u32),
        CourtArea::ShortCornerLeft => Some(17u32),
        CourtArea::ShortCornerRight => Some(17u32),
        CourtArea::ElbowLeft => Some(20u32),
        CourtArea::ElbowRight => Some(20u32),
        CourtArea::FreeThrowLine => Some(22u32),
        CourtArea::MidrangeBaselineLeft => Some(25u32),
        CourtArea::MidrangeBaselineRight => Some(25u32),
        CourtArea::MidrangeWingLeft => Some(23u32),
        CourtArea::MidrangeCenter => Some(27u32),
        CourtArea::MidrangeWingRight => Some(23u32),
        CourtArea::ThreePointLineCornerLeft => Some(30u32),
        CourtArea::ThreePointLineCornerRight => Some(30u32),
        CourtArea::ThreePointLineWingLeft => Some(32u32),
        CourtArea::ThreePointLineWingRight => Some(32u32),
        CourtArea::ThreePointLineCenter => Some(35u32),
        CourtArea::Center => Some(40u32),
        CourtArea::Backcourt => Some(50u32),
        _ => None,
    }
}

/// The regions one movement step can reach from `a`, in table order.
pub open spec fn moves(a: CourtArea) -> Seq<CourtArea> {
    match a {
        CourtArea::Basket => seq![
            CourtArea::RestrictedAreaMiddle,
            CourtArea::RestrictedAreaRight,
            CourtArea::RestrictedAreaLeft,
        ],
        CourtArea::RestrictedAreaLeft => seq![
            CourtArea::RestrictedAreaLeft,
            CourtArea::RestrictedAreaMiddle,
            CourtArea::LowPostLeft,
            CourtArea::ShortCornerLeft,
            CourtArea::ElbowLeft,
            CourtArea::FreeThrowLine,
            CourtArea::Basket,
        ],
        CourtArea::RestrictedAreaMiddle => seq![
            CourtArea::RestrictedAreaLeft,
            CourtArea::RestrictedAreaMiddle,
            CourtArea::RestrictedAreaRight,
            CourtArea::LowPostLeft,
            CourtArea::LowPostRight,
            CourtArea::ElbowLeft,
            CourtArea::ElbowRight,
            CourtArea::FreeThrowLine,
            CourtArea::Basket,
        ],
        CourtArea::RestrictedAreaRight => seq![
            CourtArea::RestrictedAreaMiddle,
            CourtArea::RestrictedAreaRight,
            CourtArea::LowPostRight,
            CourtArea::ShortCornerRight,
            CourtArea::ElbowRight,
            CourtArea::FreeThrowLine,
            CourtArea::Basket,
        ],
        CourtArea::LowPostLeft => seq![
            CourtArea::RestrictedAreaLeft,
            CourtArea::RestrictedAreaMiddle,
            CourtArea::LowPostLeft,
            CourtArea::ShortCornerLeft,
            CourtArea::ElbowLeft,
            CourtArea::MidrangeBaselineLeft,
            CourtArea::MidrangeWingLeft,
        ],
        CourtArea::LowPostRight => seq![
            CourtArea::RestrictedAreaRight,
            CourtArea::RestrictedAreaMiddle,
            CourtArea::LowPostRight,
            CourtArea::ShortCornerRight,
            CourtArea::ElbowRight,
            CourtArea::MidrangeBaselineRight,
            CourtArea::MidrangeWingRight,
        ],
        CourtArea::ShortCornerLeft => seq![
            CourtArea::RestrictedAreaLeft,
            CourtArea::ShortCornerLeft,
            CourtArea::ElbowLeft,
            CourtArea::MidrangeBaselineLeft,
        ],
        CourtArea::ShortCornerRight => seq![
            CourtArea::RestrictedAreaRight,
            CourtArea::ShortCornerRight,
            CourtArea::ElbowRight,
            CourtArea::MidrangeBaselineRight,
        ],
        CourtArea::ElbowLeft => seq![
            CourtArea::RestrictedAreaLeft,
            CourtArea::RestrictedAreaMiddle,
            CourtArea::ElbowLeft,
            CourtArea::FreeThrowLine,
            CourtArea::MidrangeWingLeft,
            CourtArea::MidrangeBaselineLeft,
            CourtArea::MidrangeCenter,
        ],
        CourtArea::ElbowRight => seq![
            CourtArea::RestrictedAreaRight,
            CourtArea::RestrictedAreaMiddle,
            CourtArea::ElbowRight,
            CourtArea::FreeThrowLine,
            CourtArea::MidrangeWingRight,
            CourtArea::MidrangeBaselineRight,
            CourtArea::MidrangeCenter,
        ],
        CourtArea::FreeThrowLine => seq![
            CourtArea::RestrictedAreaLeft,
            CourtArea::RestrictedAreaMiddle,
            CourtArea::RestrictedAreaRight,
            CourtArea::FreeThrowLine,
            CourtArea::LowPostLeft,
            CourtArea::LowPostRight,
            CourtArea::ElbowLeft,
            CourtArea::ElbowRight,
            CourtArea::MidrangeWingLeft,
            CourtArea::MidrangeWingRight,
            CourtArea::MidrangeCenter,
        ],
        CourtArea::MidrangeBaselineLeft => seq![
            CourtArea::MidrangeBaselineLeft,
            CourtArea::ShortCornerLeft,
            CourtArea::LowPostLeft,
            CourtArea::ElbowLeft,
            CourtArea::MidrangeWingLeft,
            CourtArea::ThreePointLineCornerLeft,
        ],
        CourtArea::MidrangeBaselineRight => seq![
            CourtArea::MidrangeBaselineRight,
            CourtArea::ShortCornerRight,
            CourtArea::LowPostRight,
            CourtArea::ElbowRight,
            CourtArea::MidrangeWingRight,
            CourtArea::ThreePointLineCornerRight,
        ],
        CourtArea::MidrangeWingLeft => seq![
            CourtArea::MidrangeWingLeft,
            CourtArea::MidrangeCenter,
            CourtArea::MidrangeBaselineLeft,
            CourtArea::FreeThrowLine,
            CourtArea::ElbowLeft,
            CourtArea::LowPostLeft,
            CourtArea::ThreePointLineWingLeft,
            CourtArea::ThreePointLineCenter,
        ],
        CourtArea::MidrangeCenter => seq![
            CourtArea::MidrangeCenter,
            CourtArea::MidrangeWingLeft,
            CourtArea::MidrangeWingRight,
            CourtArea::ThreePointLineWingLeft,
            CourtArea::ThreePointLineWingRight,
            CourtArea::ThreePointLineCenter,
            CourtArea::ElbowLeft,
            CourtArea::ElbowRight,
            CourtArea::FreeThrowLine,
        ],
        CourtArea::MidrangeWingRight => seq![
            CourtArea::MidrangeWingRight,
            CourtArea::MidrangeCenter,
            CourtArea::MidrangeBaselineRight,
            CourtArea::FreeThrowLine,
            CourtArea::ElbowRight,
            CourtArea::LowPostRight,
            CourtArea::ThreePointLineWingRight,
            CourtArea::ThreePointLineCenter,
        ],
        CourtArea::ThreePointLineCornerLeft => seq![
            CourtArea::ThreePointLineCornerLeft,
            CourtArea::ThreePointLineWingLeft,
            CourtArea::MidrangeBaselineLeft,
            CourtArea::MidrangeWingLeft,
        ],
        CourtArea::ThreePointLineCornerRight => seq![
            CourtArea::ThreePointLineCornerRight,
            CourtArea::ThreePointLineWingRight,
            CourtArea::MidrangeBaselineRight,
            CourtArea::MidrangeWingRight,
        ],
        CourtArea::ThreePointLineWingLeft => seq![
            CourtArea::ThreePointLineWingLeft,
            CourtArea::ThreePointLineCenter,
            CourtArea::MidrangeWingLeft,
            CourtArea::MidrangeCenter,
            CourtArea::MidrangeBaselineLeft,
            CourtArea::ThreePointLineCornerLeft,
        ],
        CourtArea::ThreePointLineWingRight => seq![
            CourtArea::ThreePointLineWingRight,
            CourtArea::ThreePointLineCenter,
            CourtArea::MidrangeWingRight,
            CourtArea::MidrangeCenter,
            CourtArea::MidrangeBaselineRight,
            CourtArea::ThreePointLineCornerRight,
        ],
        CourtArea::ThreePointLineCenter => seq![
            CourtArea::ThreePointLineCenter,
            CourtArea::ThreePointLineWingLeft,
            CourtArea::ThreePointLineWingRight,
            CourtArea::MidrangeWingLeft,
            CourtArea::MidrangeWingRight,
            CourtArea::MidrangeCenter,
            CourtArea::Center,
        ],
        CourtArea::Center => seq![
            CourtArea::Center,
            CourtArea::ThreePointLineCenter,
            CourtArea::ThreePointLineWingLeft,
            CourtArea::ThreePointLineWingRight,
            CourtArea::Backcourt,
        ],
        CourtArea::Backcourt => seq![
            CourtArea::Backcourt,
            CourtArea::Center,
            CourtArea::ThreePointLineWingLeft,
            CourtArea::ThreePointLineWingRight,
        ],
        CourtArea::SidelineLeft => seq![
            CourtArea::SidelineLeft,
            CourtArea::ThreePointLineCornerLeft,
            CourtArea::ThreePointLineWingLeft,
            CourtArea::MidrangeWingLeft,
            CourtArea::MidrangeBaselineLeft,
        ],
        CourtArea::SidelineRight => seq![
            CourtArea::SidelineRight,
            CourtArea::ThreePointLineCornerRight,
            CourtArea::ThreePointLineWingRight,
            CourtArea::MidrangeBaselineRight,
            CourtArea::MidrangeWingRight,
        ],
        CourtArea::BaselineLeft => seq![
            CourtArea::BaselineLeft,
            CourtArea::LowPostLeft,
            CourtArea::ShortCornerLeft,
            CourtArea::MidrangeBaselineLeft,
            CourtArea::RestrictedAreaLeft,
            CourtArea::RestrictedAreaMiddle,
        ],
        CourtArea::BaselineRight => seq![
            CourtArea::BaselineRight,
            CourtArea::LowPostRight,
            CourtArea::ShortCornerRight,
            CourtArea::MidrangeBaselineRight,
            CourtArea::RestrictedAreaRight,
            CourtArea::RestrictedAreaMiddle,
        ],
        CourtArea::OutOfBounds => seq![CourtArea::OutOfBounds],
    }
}

impl CourtArea {
    /// Position of this region in declaration order.
    pub fn ordinal(&self) -> (r: usize)
        ensures
            r == ord(*self),
            r < AREA_COUNT,
    {
        match self {
            CourtArea::Basket => 0,
            CourtArea::RestrictedAreaLeft => 1,
            CourtArea::RestrictedAreaMiddle => 2,
            CourtArea::RestrictedAreaRight => 3,
            CourtArea::LowPostLeft => 4,
            CourtArea::LowPostRight => 5,
            CourtArea::ShortCornerLeft => 6,
            CourtArea::ShortCornerRight => 7,
            CourtArea::ElbowLeft => 8,
            CourtArea::ElbowRight => 9,
            CourtArea::FreeThrowLine => 10,
            CourtArea::MidrangeBaselineLeft => 11,
            CourtArea::MidrangeBaselineRight => 12,
            CourtArea::MidrangeWingLeft => 13,
            CourtArea::MidrangeCenter => 14,
            CourtArea::MidrangeWingRight => 15,
            CourtArea::ThreePointLineCornerLeft => 16,
            CourtArea::ThreePointLineCornerRight => 17,
            CourtArea::ThreePointLineWingLeft => 18,
            CourtArea::ThreePointLineWingRight => 19,
            CourtArea::ThreePointLineCenter => 20,
            CourtArea::Center => 21,
            CourtArea::Backcourt => 22,
            CourtArea::SidelineLeft => 23,
            CourtArea::SidelineRight => 24,
            CourtArea::BaselineLeft => 25,
            CourtArea::BaselineRight => 26,
            CourtArea::OutOfBounds => 27,
        }
    }

    /// The region at position `i` in declaration order.
    pub fn from_ordinal(i: usize) -> (r: CourtArea)
        requires
            i < AREA_COUNT,
        ensures
            ord(r) == i,
            r == area_of(i as int),
    {
        match i {
            0 => CourtArea::Basket,
            1 => CourtArea::RestrictedAreaLeft,
            2 => CourtArea::RestrictedAreaMiddle,
            3 => CourtArea::RestrictedAreaRight,
            4 => CourtArea::LowPostLeft,
            5 => CourtArea::LowPostRight,
            6 => CourtArea::ShortCornerLeft,
            7 => CourtArea::ShortCornerRight,
            8 => CourtArea::ElbowLeft,
            9 => CourtArea::ElbowRight,
            10 => CourtArea::FreeThrowLine,
            11 => CourtArea::MidrangeBaselineLeft,
            12 => CourtArea::MidrangeBaselineRight,
            13 => CourtArea::MidrangeWingLeft,
            14 => CourtArea::MidrangeCenter,
            15 => CourtArea::MidrangeWingRight,
            16 => CourtArea::ThreePointLineCornerLeft,
            17 => CourtArea::ThreePointLineCornerRight,
            18 => CourtArea::ThreePointLineWingLeft,
            19 => CourtArea::ThreePointLineWingRight,
            20 => CourtArea::ThreePointLineCenter,
            21 => CourtArea::Center,
            22 => CourtArea::Backcourt,
            23 => CourtArea::SidelineLeft,
            24 => CourtArea::SidelineRight,
            25 => CourtArea::BaselineLeft,
            26 => CourtArea::BaselineRight,
            _ => CourtArea::OutOfBounds,
        }
    }
}

/// Traversal cost of entering `area`, in tenths of a unit: the basket costs nothing,
/// the backcourt the most, and boundary regions cannot be entered (`None`).
pub fn get_position_weight(area: CourtArea) -> (r: Option<u32>)
    ensures
        r == weight(area),
{
    match area {
        CourtArea::Basket => Some(0),
        CourtArea::RestrictedAreaLeft => Some(12),
        CourtArea::RestrictedAreaMiddle => Some(10),
        CourtArea::RestrictedAreaRight => Some(12),
        CourtArea::LowPostLeft => Some(15),
        CourtArea::LowPostRight => Some(15),
        CourtArea::ShortCornerLeft => Some(17),
        CourtArea::ShortCornerRight => Some(17),
        CourtArea::ElbowLeft => Some(20),
        CourtArea::ElbowRight => Some(20),
        CourtArea::FreeThrowLine => Some(22),
        CourtArea::MidrangeBaselineLeft => Some(25),
        CourtArea::MidrangeBaselineRight => Some(25),
        CourtArea::MidrangeWingLeft => Some(23),
        CourtArea::MidrangeCenter => Some(27),
        CourtArea::MidrangeWingRight => Some(23),
        CourtArea::ThreePointLineCornerLeft => Some(30),
        CourtArea::ThreePointLineCornerRight => Some(30),
        CourtArea::ThreePointLineWingLeft => Some(32),
        CourtArea::ThreePointLineWingRight => Some(32),
        CourtArea::ThreePointLineCenter => Some(35),
        CourtArea::Center => Some(40),
        CourtArea::Backcourt => Some(50),
        _ => None,
    }
}

/// The regions reachable from `current_area` in one step, without repeats.
pub fn can_move_to(current_area: CourtArea) -> (r: Vec<CourtArea>)
    ensures
        r@ == moves(current_area),
{
    match current_area {
        CourtArea::Basket => vec![
            CourtArea::RestrictedAreaMiddle,
            CourtArea::RestrictedAreaRight,
            CourtArea::RestrictedAreaLeft,
        ],
        CourtArea::RestrictedAreaLeft => vec![
            CourtArea::RestrictedAreaLeft,
            CourtArea::RestrictedAreaMiddle,
            CourtArea::LowPostLeft,
            CourtArea::ShortCornerLeft,
            CourtArea::ElbowLeft,
            CourtArea::FreeThrowLine,
            CourtArea::Basket,
        ],
        CourtArea::RestrictedAreaMiddle => vec![
            CourtArea::RestrictedAreaLeft,
            CourtArea::RestrictedAreaMiddle,
            CourtArea::RestrictedAreaRight,
            CourtArea::LowPostLeft,
            CourtArea::LowPostRight,
            CourtArea::ElbowLeft,
            CourtArea::ElbowRight,
            CourtArea::FreeThrowLine,
            CourtArea::Basket,
        ],
        CourtArea::RestrictedAreaRight => vec![
            CourtArea::RestrictedAreaMiddle,
            CourtArea::RestrictedAreaRight,
            CourtArea::LowPostRight,
            CourtArea::ShortCornerRight,
            CourtArea::ElbowRight,
            CourtArea::FreeThrowLine,
            CourtArea::Basket,
        ],
        CourtArea::LowPostLeft => vec![
            CourtArea::RestrictedAreaLeft,
            CourtArea::RestrictedAreaMiddle,
            CourtArea::LowPostLeft,
            CourtArea::ShortCornerLeft,
            CourtArea::ElbowLeft,
            CourtArea::MidrangeBaselineLeft,
            CourtArea::MidrangeWingLeft,
        ],
        CourtArea::LowPostRight => vec![
            CourtArea::RestrictedAreaRight,
            CourtArea::RestrictedAreaMiddle,
            CourtArea::LowPostRight,
            CourtArea::ShortCornerRight,
            CourtArea::ElbowRight,
            CourtArea::MidrangeBaselineRight,
            CourtArea::MidrangeWingRight,
        ],
        CourtArea::ShortCornerLeft => vec![
            CourtArea::RestrictedAreaLeft,
            CourtArea::ShortCornerLeft,
            CourtArea::ElbowLeft,
            CourtArea::MidrangeBaselineLeft,
        ],
        CourtArea::ShortCornerRight => vec![
            CourtArea::RestrictedAreaRight,
            CourtArea::ShortCornerRight,
            CourtArea::ElbowRight,
            CourtArea::MidrangeBaselineRight,
        ],
        CourtArea::ElbowLeft => vec![
            CourtArea::RestrictedAreaLeft,
            CourtArea::RestrictedAreaMiddle,
            CourtArea::ElbowLeft,
            CourtArea::FreeThrowLine,
            CourtArea::MidrangeWingLeft,
            CourtArea::MidrangeBaselineLeft,
            CourtArea::MidrangeCenter,
        ],
        CourtArea::ElbowRight => vec![
            CourtArea::RestrictedAreaRight,
            CourtArea::RestrictedAreaMiddle,
            CourtArea::ElbowRight,
            CourtArea::FreeThrowLine,
            CourtArea::MidrangeWingRight,
            CourtArea::MidrangeBaselineRight,
            CourtArea::MidrangeCenter,
        ],
        CourtArea::FreeThrowLine => vec![
            CourtArea::RestrictedAreaLeft,
            CourtArea::RestrictedAreaMiddle,
            CourtArea::RestrictedAreaRight,
            CourtArea::FreeThrowLine,
            CourtArea::LowPostLeft,
            CourtArea::LowPostRight,
            CourtArea::ElbowLeft,
            CourtArea::ElbowRight,
            CourtArea::MidrangeWingLeft,
            CourtArea::MidrangeWingRight,
            CourtArea::MidrangeCenter,
        ],
        CourtArea::MidrangeBaselineLeft => vec![
            CourtArea::MidrangeBaselineLeft,
            CourtArea::ShortCornerLeft,
            CourtArea::LowPostLeft,
            CourtArea::ElbowLeft,
            CourtArea::MidrangeWingLeft,
            CourtArea::ThreePointLineCornerLeft,
        ],
        CourtArea::MidrangeBaselineRight => vec![
            CourtArea::MidrangeBaselineRight,
            CourtArea::ShortCornerRight,
            CourtArea::LowPostRight,
            CourtArea::ElbowRight,
            CourtArea::MidrangeWingRight,
            CourtArea::ThreePointLineCornerRight,
        ],
        CourtArea::MidrangeWingLeft => vec![
            CourtArea::MidrangeWingLeft,
            CourtArea::MidrangeCenter,
            CourtArea::MidrangeBaselineLeft,
            CourtArea::FreeThrowLine,
            CourtArea::ElbowLeft,
            CourtArea::LowPostLeft,
            CourtArea::ThreePointLineWingLeft,
            CourtArea::ThreePointLineCenter,
        ],
        CourtArea::MidrangeCenter => vec![
            CourtArea::MidrangeCenter,
            CourtArea::MidrangeWingLeft,
            CourtArea::MidrangeWingRight,
            CourtArea::ThreePointLineWingLeft,
            CourtArea::ThreePointLineWingRight,
            CourtArea::ThreePointLineCenter,
            CourtArea::ElbowLeft,
            CourtArea::ElbowRight,
            CourtArea::FreeThrowLine,
        ],
        CourtArea::MidrangeWingRight => vec![
            CourtArea::MidrangeWingRight,
            CourtArea::MidrangeCenter,
            CourtArea::MidrangeBaselineRight,
            CourtArea::FreeThrowLine,
            CourtArea::ElbowRight,
            CourtArea::LowPostRight,
            CourtArea::ThreePointLineWingRight,
            CourtArea::ThreePointLineCenter,
        ],
        CourtArea::ThreePointLineCornerLeft => vec![
            CourtArea::ThreePointLineCornerLeft,
            CourtArea::ThreePointLineWingLeft,
            CourtArea::MidrangeBaselineLeft,
            CourtArea::MidrangeWingLeft,
        ],
        CourtArea::ThreePointLineCornerRight => vec![
            CourtArea::ThreePointLineCornerRight,
            CourtArea::ThreePointLineWingRight,
            CourtArea::MidrangeBaselineRight,
            CourtArea::MidrangeWingRight,
        ],
        CourtArea::ThreePointLineWingLeft => vec![
            CourtArea::ThreePointLineWingLeft,
            CourtArea::ThreePointLineCenter,
            CourtArea::MidrangeWingLeft,
            CourtArea::MidrangeCenter,
            CourtArea::MidrangeBaselineLeft,
            CourtArea::ThreePointLineCornerLeft,
        ],
        CourtArea::ThreePointLineWingRight => vec![
            CourtArea::ThreePointLineWingRight,
            CourtArea::ThreePointLineCenter,
            CourtArea::MidrangeWingRight,
            CourtArea::MidrangeCenter,
            CourtArea::MidrangeBaselineRight,
            CourtArea::ThreePointLineCornerRight,
        ],
        CourtArea::ThreePointLineCenter => vec![
            CourtArea::ThreePointLineCenter,
            CourtArea::ThreePointLineWingLeft,
            CourtArea::ThreePointLineWingRight,
            CourtArea::MidrangeWingLeft,
            CourtArea::MidrangeWingRight,
            CourtArea::MidrangeCenter,
            CourtArea::Center,
        ],
        CourtArea::Center => vec![
            CourtArea::Center,
            CourtArea::ThreePointLineCenter,
            CourtArea::ThreePointLineWingLeft,
            CourtArea::ThreePointLineWingRight,
            CourtArea::Backcourt,
        ],
        CourtArea::Backcourt => vec![
            CourtArea::Backcourt,
            CourtArea::Center,
            CourtArea::ThreePointLineWingLeft,
            CourtArea::ThreePointLineWingRight,
        ],
        CourtArea::SidelineLeft => vec![
            CourtArea::SidelineLeft,
            CourtArea::ThreePointLineCornerLeft,
            CourtArea::ThreePointLineWingLeft,
            CourtArea::MidrangeWingLeft,
            CourtArea::MidrangeBaselineLeft,
        ],
        CourtArea::SidelineRight => vec![
            CourtArea::SidelineRight,
            CourtArea::ThreePointLineCornerRight,
            CourtArea::ThreePointLineWingRight,
            CourtArea::MidrangeBaselineRight,
            CourtArea::MidrangeWingRight,
        ],
        CourtArea::BaselineLeft => vec![
            CourtArea::BaselineLeft,
            CourtArea::LowPostLeft,
            CourtArea::ShortCornerLeft,
            CourtArea::MidrangeBaselineLeft,
            CourtArea::RestrictedAreaLeft,
            CourtArea::RestrictedAreaMiddle,
        ],
        CourtArea::BaselineRight => vec![
            CourtArea::BaselineRight,
            CourtArea::LowPostRight,
            CourtArea::ShortCornerRight,
            CourtArea::MidrangeBaselineRight,
            CourtArea::RestrictedAreaRight,
            CourtArea::RestrictedAreaMiddle,
        ],
        CourtArea::OutOfBounds => vec![CourtArea::OutOfBounds],
    }
}

/// Out of bounds is absorbing: its only move is to stay there.
pub proof fn lemma_out_of_bounds_absorbing()
    ensures
        moves(CourtArea::OutOfBounds) == seq![CourtArea::OutOfBounds],
        moves(CourtArea::OutOfBounds).to_set() == set![CourtArea::OutOfBounds],
{
    let s = moves(CourtArea::OutOfBounds);
    assert forall|x: CourtArea| s.to_set().contains(x) <==> x == CourtArea::OutOfBounds by {
        if x == CourtArea::OutOfBounds {
            assert(s[0] == x);
        }
    }
    assert(s.to_set() =~= set![CourtArea::OutOfBounds]);
}

/// Cost of entering `a`, zero for a boundary region (which no path enters).
pub open spec fn entry_cost(a: CourtArea) -> int {
    match weight(a) {
        Some(w) => w as int,
        None => 0,
    }
}

/// One legal movement: `b` is among the moves from `a` and may be entered.
pub open spec fn step(a: CourtArea, b: CourtArea) -> bool {
    moves(a).contains(b) && weight(b).is_some()
}

/// `p` walks from `start` to `goal` by legal movements.
pub open spec fn is_path(p: Seq<CourtArea>, start: CourtArea, goal: CourtArea) -> bool {
    &&& p.len() >= 1
    &&& p[0] == start
    &&& p.last() == goal
    &&& forall|i: int| 0 <= i < p.len() - 1 ==> #[trigger] step(p[i], p[i + 1])
}

/// Total cost of the regions a path enters (every region after the first).
pub open spec fn path_cost(p: Seq<CourtArea>) -> int
    decreases p.len(),
{
    if p.len() <= 1 {
        0
    } else {
        path_cost(p.drop_last()) + entry_cost(p.last())
    }
}

/// Some path leads from `start` to `goal`.
pub open spec fn reachable(start: CourtArea, goal: CourtArea) -> bool {
    exists|p: Seq<CourtArea>| is_path(p, start, goal)
}

/// `p` is a path from `start` to `goal` whose cost no other such path undercuts.
pub open spec fn is_shortest(p: Seq<CourtArea>, start: CourtArea, goal: CourtArea) -> bool {
    &&& is_path(p, start, goal)
    &&& forall|q: Seq<CourtArea>| is_path(q, start, goal) ==> path_cost(p) <= path_cost(q)
}

proof fn lemma_path_cost_nonneg(p: Seq<CourtArea>)
    ensures
        path_cost(p) >= 0,
    decreases p.len(),
{
    if p.len() > 1 {
        lemma_path_cost_nonneg(p.drop_last());
    }
}

/// A prefix of a path is a path to its last region, and costs no more.
proof fn lemma_path_prefix(p: Seq<CourtArea>, start: CourtArea, goal: CourtArea, j: int)
    requires
        is_path(p, start, goal),
        0 <= j < p.len(),
    ensures
        is_path(p.take(j + 1), start, p[j]),
        path_cost(p.take(j + 1)) <= path_cost(p),
    decreases p.len() - j,
{
    let t = p.take(j + 1);
    assert forall|i: int| 0 <= i < t.len() - 1 implies #[trigger] step(t[i], t[i + 1]) by {
        assert(step(p[i], p[i + 1]));
    }
    if j + 1 < p.len() {
        lemma_path_prefix(p, start, goal, j + 1);
        let u = p.take(j + 2);
        assert(u.drop_last() =~= t);
        assert(entry_cost(u.last()) >= 0);
    } else {
        assert(t =~= p);
    }
}

/// A path extended by one legal movement is a path, costing the entry of the new region more.
proof fn lemma_path_extend(p: Seq<CourtArea>, start: CourtArea, a: CourtArea, b: CourtArea)
    requires
        is_path(p, start, a),
        step(a, b),
    ensures
        is_path(p.push(b), start, b),
        path_cost(p.push(b)) == path_cost(p) + entry_cost(b),
{
    let q = p.push(b);
    assert forall|i: int| 0 <= i < q.len() - 1 implies #[trigger] step(q[i], q[i + 1]) by {
        if i < p.len() - 1 {
            assert(step(p[i], p[i + 1]));
        }
    }
    assert(q.drop_last() =~= p);
}

/// Number of `false` entries.
spec fn open_count(s: Seq<bool>) -> nat
    decreases s.len(),
{
    if s.len() == 0 {
        0
    } else {
        open_count(s.drop_last()) + if s.last() {
            0nat
        } else {
            1nat
        }
    }
}

proof fn lemma_open_count_bound(s: Seq<bool>)
    ensures
        open_count(s) <= s.len(),
    decreases s.len(),
{
    if s.len() > 0 {
        lemma_open_count_bound(s.drop_last());
    }
}

proof fn lemma_open_count_close(s: Seq<bool>, u: int)
    requires
        0 <= u < s.len(),
        !s[u],
    ensures
        open_count(s.update(u, true)) + 1 == open_count(s),
    decreases s.len(),
{
    let t = s.update(u, true);
    if u == s.len() - 1 {
        assert(t.drop_last() =~= s.drop_last());
    } else {
        lemma_open_count_close(s.drop_last(), u);
        assert(t.drop_last() =~= s.drop_last().update(u, true));
    }
}

/// A path that starts in the closed set and ends outside it crosses the boundary somewhere.
proof fn lemma_crossing(
    q: Seq<CourtArea>,
    start: CourtArea,
    goal: CourtArea,
    closed: Seq<bool>,
) -> (i: int)
    requires
        is_path(q, start, goal),
        closed.len() == AREA_COUNT,
        closed[ord(start)],
        !closed[ord(goal)],
    ensures
        0 <= i < q.len() - 1,
        closed[ord(q[i])],
        !closed[ord(q[i + 1])],
    decreases q.len(),
{
    let n = q.len();
    if n == 1 {
        assert(false);
        0
    } else if closed[ord(q[n - 2])] {
        n - 2
    } else {
        lemma_path_prefix(q, start, goal, n - 2);
        let i = lemma_crossing(q.take(n - 1), start, q[n - 2], closed);
        i
    }
}

/// `best[ord(b)]` already accounts for reaching `b` through `a`.
spec fn relaxed(best: Seq<Option<u32>>, a: CourtArea, b: CourtArea) -> bool {
    best[ord(b)] is Some && best[ord(b)]->Some_0 <= best[ord(a)]->Some_0 + entry_cost(b)
}

/// Costs found so far, and the paths that realise them, as a search from `start` keeps them.
spec fn found_ok(
    start: CourtArea,
    best: Seq<Option<u32>>,
    paths: Seq<Seq<CourtArea>>,
    closed: Seq<bool>,
) -> bool {
    &&& best.len() == AREA_COUNT
    &&& paths.len() == AREA_COUNT
    &&& closed.len() == AREA_COUNT
    &&& best[ord(start)] == Some(0u32)
    &&& forall|a: CourtArea| #[trigger]
        best[ord(a)] matches Some(c) ==> is_path(paths[ord(a)], start, a) && path_cost(
            paths[ord(a)],
        ) == c && c <= 50 * (AREA_COUNT - open_count(closed))
    &&& forall|a: CourtArea| #[trigger] closed[ord(a)] ==> best[ord(a)] is Some
    &&& forall|a: CourtArea, q: Seq<CourtArea>|
        #[trigger] closed[ord(a)] && #[trigger] is_path(q, start, a) ==> best[ord(a)]->Some_0
            <= path_cost(q)
}

/// Every closed region has passed its cost on to each region it steps to.
spec fn search_state(
    start: CourtArea,
    best: Seq<Option<u32>>,
    paths: Seq<Seq<CourtArea>>,
    closed: Seq<bool>,
) -> bool {
    &&& found_ok(start, best, paths, closed)
    &&& forall|a: CourtArea, b: CourtArea| #[trigger]
        closed[ord(a)] && #[trigger] step(a, b) ==> relaxed(best, a, b)
}

/// The cheapest region that is found but not closed costs no more than any path to it.
proof fn lemma_min_open_optimal(
    start: CourtArea,
    best: Seq<Option<u32>>,
    paths: Seq<Seq<CourtArea>>,
    closed: Seq<bool>,
    u: CourtArea,
    q: Seq<CourtArea>,
)
    requires
        search_state(start, best, paths, closed),
        !closed[ord(u)],
        best[ord(u)] is Some,
        forall|a: CourtArea|
            !closed[ord(a)] && #[trigger] best[ord(a)] is Some ==> best[ord(u)]->Some_0
                <= best[ord(a)]->Some_0,
        is_path(q, start, u),
    ensures
        best[ord(u)]->Some_0 <= path_cost(q),
{
    lemma_path_cost_nonneg(q);
    if closed[ord(start)] {
        let i = lemma_crossing(q, start, u, closed);
        let x = q[i];
        let y = q[i + 1];
        lemma_path_prefix(q, start, u, i);
        lemma_path_prefix(q, start, u, i + 1);
        assert(step(q[i], q[i + 1]));
        assert(q.take(i + 2).drop_last() =~= q.take(i + 1));
        assert(relaxed(best, x, y));
        assert(closed[ord(x)] && is_path(q.take(i + 1), start, x));
    } else {
        assert(best[ord(start)] is Some);
        assert(is_path(paths[ord(start)], start, start));
        assert(best[ord(u)]->Some_0 <= best[ord(start)]->Some_0);
    }
}

proof fn lemma_open_count_all_open(s: Seq<bool>)
    requires
        forall|j: int| 0 <= j < s.len() ==> !s[j],
    ensures
        open_count(s) == s.len(),
    decreases s.len(),
{
    if s.len() > 0 {
        lemma_open_count_all_open(s.drop_last());
    }
}

proof fn lemma_weight_bound(a: CourtArea)
    ensures
        weight(a) matches Some(w) ==> w <= 50,
{
}

/// The views of a sequence of vectors.
spec fn views(ps: Seq<Vec<CourtArea>>) -> Seq<Seq<CourtArea>> {
    Seq::new(ps.len(), |i: int| ps[i]@)
}

/// A copy of `p` with `b` appended.
fn extended(p: &Vec<CourtArea>, b: CourtArea) -> (r: Vec<CourtArea>)
    ensures
        r@ == p@.push(b),
{
    let mut r: Vec<CourtArea> = Vec::new();
    let mut i: usize = 0;
    while i < p.len()
        invariant
            i <= p.len(),
            r@ == p@.take(i as int),
        decreases p.len() - i,
    {
        r.push(p[i]);
        i += 1;
        assert(r@ =~= p@.take(i as int));
    }
    assert(r@ =~= p@);
    r.push(b);
    r
}

/// A cheapest path from `start` to `goal`, entering no boundary region after `start`.
/// Ties between equally cheap paths go to the one that comes first when read region by region
/// from the goal back, by declaration order. `None` when `goal` cannot be reached; `[start]`
/// when the two coincide.
pub fn find_path(start: CourtArea, goal: CourtArea) -> (r: Option<Vec<CourtArea>>)
    ensures
        start == goal ==> (r matches Some(p) && p@ == seq![start]),
        r matches Some(p) ==> is_chosen(p@, start, goal),
        r is None <==> !reachable(start, goal),
{
    broadcast use lemma_ord_area_of;

    if start == goal {
        let r = vec![start];
        assert forall|q: Seq<CourtArea>| is_path(q, start, goal) implies path_cost(r@) <= path_cost(
            q,
        ) by {
            lemma_path_cost_nonneg(q);
        }
        assert(is_path(r@, start, goal));
        assert forall|q: Seq<CourtArea>| is_shortest(q, start, goal) implies rev_before(r@, q) by {
            assert(r@.drop_last() =~= Seq::<CourtArea>::empty());
            assert(rev_before(r@.drop_last(), q.drop_last()));
        }
        return Some(r);
    }
    let mut best: Vec<Option<u32>> = Vec::new();
    let mut paths: Vec<Vec<CourtArea>> = Vec::new();
    let mut closed: Vec<bool> = Vec::new();
    let mut i: usize = 0;
    while i < AREA_COUNT
        invariant
            i <= AREA_COUNT,
            best@.len() == i,
            paths@.len() == i,
            closed@.len() == i,
            forall|j: int| 0 <= j < i ==> best@[j] is None,
            forall|j: int| 0 <= j < i ==> !closed@[j],
        decreases AREA_COUNT - i,
    {
        best.push(None);
        paths.push(Vec::new());
        closed.push(false);
        i += 1;
    }
    let s = start.ordinal();
    let ghost unset = best@;
    best.set(s, Some(0));
    paths.set(s, vec![start]);
    proof {
        lemma_open_count_all_open(closed@);
        assert(is_path(paths@[s as int]@, start, start));
        assert(path_cost(paths@[s as int]@) == 0);
        assert forall|a: CourtArea| #[trigger] best@[ord(a)] is Some implies a == start by {
            if a != start {
                assert(unset[ord(a)] is None);
            }
        }
        assert forall|a: CourtArea| !#[trigger] closed@[ord(a)] by {}
    }
    loop
        invariant
            search_state(start, best@, views(paths@), closed@),
            start != goal,
        decreases open_count(closed@),
    {
        let mut pick: usize = AREA_COUNT;
        let mut pick_cost: u32 = 0;
        let mut j: usize = 0;
        while j < AREA_COUNT
            invariant
                j <= AREA_COUNT,
                best@.len() == AREA_COUNT,
                closed@.len() == AREA_COUNT,
                pick == AREA_COUNT ==> forall|k: int|
                    0 <= k < j ==> !(!closed@[k] && best@[k] is Some),
                pick < AREA_COUNT ==> pick < j && !closed@[pick as int] && best@[pick as int]
                    == Some(pick_cost),
                pick < AREA_COUNT ==> forall|k: int|
                    0 <= k < j && !closed@[k] && best@[k] is Some ==> pick_cost
                        <= best@[k]->Some_0,
                pick <= AREA_COUNT,
            decreases AREA_COUNT - j,
        {
            if !closed[j] {
                match best[j] {
                    Some(c) => {
                        if pick == AREA_COUNT || c < pick_cost {
                            pick = j;
                            pick_cost = c;
                        }
                    },
                    None => {},
                }
            }
            j += 1;
        }
        if pick == AREA_COUNT {
            proof {
                assert forall|a: CourtArea|
                    #[trigger] best@[ord(a)] is Some implies closed@[ord(a)] by {
                    assert(ord(a) < AREA_COUNT);
                }
                assert(settled(start, best@, views(paths@), closed@));
            }
            if !closed[goal.ordinal()] {
                proof {
                    if reachable(start, goal) {
                        let q = choose|q: Seq<CourtArea>| is_path(q, start, goal);
                        lemma_settled_reachable(start, best@, views(paths@), closed@, goal, q);
                    }
                }
                return None;
            }
            return Some(rebuild(start, goal, &best, &closed, Ghost(views(paths@))));
        }
        let u = CourtArea::from_ordinal(pick);
        assert forall|a: CourtArea|
            !closed@[ord(a)] && #[trigger] best@[ord(a)] is Some implies best@[ord(u)]->Some_0
                <= best@[ord(a)]->Some_0 by {}
        proof {
            assert forall|q: Seq<CourtArea>| is_path(q, start, u) implies pick_cost <= path_cost(
                q,
            ) by {
                lemma_min_open_optimal(start, best@, views(paths@), closed@, u, q);
            }
            lemma_open_count_close(closed@, pick as int);
            lemma_open_count_bound(closed@.update(pick as int, true));
            assert(best@[ord(u)] matches Some(c) && c <= 50 * (AREA_COUNT - open_count(closed@)));
        }
        closed.set(pick, true);
        let nbrs = can_move_to(u);
        let mut k: usize = 0;
        while k < nbrs.len()
            invariant
                k <= nbrs@.len(),
                nbrs@ == moves(u),
                pick < AREA_COUNT,
                pick == ord(u),
                paths@.len() == AREA_COUNT,
                found_ok(start, best@, views(paths@), closed@),
                closed@[ord(u)],
                best@[ord(u)] == Some(pick_cost),
                pick_cost + 50 <= 50 * (AREA_COUNT - open_count(closed@)),
                forall|a: CourtArea, b: CourtArea| #[trigger]
                    closed@[ord(a)] && #[trigger] step(a, b) && a != u ==> relaxed(best@, a, b),
                forall|b: CourtArea|
                    #[trigger] step(u, b) && nbrs@.take(k as int).contains(b) ==> relaxed(
                        best@,
                        u,
                        b,
                    ),
            decreases nbrs@.len() - k,
        {
            let v = nbrs[k];
            match get_position_weight(v) {
                Some(w) => {
                    let vi = v.ordinal();
                    assert(step(u, v)) by {
                        assert(nbrs@[k as int] == v);
                    }
                    let cand = pick_cost + w;
                    let better = match best[vi] {
                        None => true,
                        Some(c) => cand < c,
                    };
                    if better {
                        let np = extended(&paths[pick], v);
                        proof {
                            let pu = views(paths@)[ord(u)];
                            lemma_path_extend(pu, start, u, v);
                            assert(np@ == pu.push(v));
                            if closed@[ord(v)] {
                                assert(is_path(np@, start, v));
                                assert(best@[ord(v)]->Some_0 <= path_cost(np@));
                            }
                            assert(v != start) by {
                                lemma_path_cost_nonneg(pu);
                            }
                            lemma_weight_bound(v);
                            assert(!closed@[ord(v)]);
                            assert(path_cost(np@) == cand);
                        }
                        let ghost old_best = best@;
                        let ghost old_paths = views(paths@);
                        best.set(vi, Some(cand));
                        paths.set(vi, np);
                        proof {
                            assert(views(paths@) =~= old_paths.update(ord(v), np@));
                            assert forall|a: CourtArea| #[trigger]
                                best@[ord(a)] is Some implies is_path(
                                views(paths@)[ord(a)],
                                start,
                                a,
                            ) && path_cost(views(paths@)[ord(a)]) == best@[ord(a)]->Some_0
                                && best@[ord(a)]->Some_0 <= 50 * (AREA_COUNT - open_count(
                                closed@,
                            )) by {
                                if a != v {
                                    assert(old_best[ord(a)] == best@[ord(a)]);
                                }
                            }
                            assert forall|a: CourtArea, q: Seq<CourtArea>|
                                #[trigger] closed@[ord(a)] && #[trigger] is_path(
                                    q,
                                    start,
                                    a,
                                ) implies best@[ord(a)]->Some_0 <= path_cost(q) by {
                                assert(a != v);
                                assert(old_best[ord(a)] == best@[ord(a)]);
                            }
                            assert forall|a: CourtArea, b: CourtArea| #[trigger]
                                closed@[ord(a)] && #[trigger] step(a, b) && a != u implies relaxed(
                                best@,
                                a,
                                b,
                            ) by {
                                assert(relaxed(old_best, a, b));
                            }
                        }
                    }
                    proof {
                        assert(relaxed(best@, u, v));
                    }
                },
                None => {},
            }
            proof {
                assert forall|b: CourtArea|
                    #[trigger] step(u, b) && nbrs@.take(k + 1).contains(b) implies relaxed(
                    best@,
                    u,
                    b,
                ) by {
                    if b != v {
                        assert(nbrs@.take(k as int).contains(b)) by {
                            let t = choose|t: int|
                                0 <= t < k + 1 && #[trigger] nbrs@.take(k + 1)[t] == b;
                            assert(nbrs@.take(k as int)[t] == b);
                        }
                    }
                }
            }
            k += 1;
        }
        proof {
            assert(nbrs@.take(nbrs@.len() as int) =~= nbrs@);
            assert forall|a: CourtArea, b: CourtArea| #[trigger]
                closed@[ord(a)] && #[trigger] step(a, b) implies relaxed(best@, a, b) by {
                if a == u {
                    assert(moves(u).contains(b));
                    assert(nbrs@.take(nbrs@.len() as int).contains(b));
                }
            }
        }
    }
}


/// The region a walk along `p` occupies after one move (the start itself for a one-region walk).
pub open spec fn next_on(p: Seq<CourtArea>) -> CourtArea {
    if p.len() >= 2 {
        p[1]
    } else {
        p[0]
    }
}

/// `f` is where a step from `a` toward `x` lands: the second region of the chosen path, or
/// staying put when already there or when no path leads there.
pub open spec fn toward(a: CourtArea, x: CourtArea, f: CourtArea) -> bool {
    if reachable(a, x) {
        f == next_on(chosen_path(a, x))
    } else {
        f == a
    }
}

/// `g` is where a defender in `a` guarding `o` aims: the first region after `o` on the chosen
/// path from `o` to the basket (the basket itself when `o` is the basket), `a` when no path
/// leads there.
pub open spec fn lane_target(a: CourtArea, o: CourtArea, g: CourtArea) -> bool {
    if reachable(o, CourtArea::Basket) {
        g == next_on(chosen_path(o, CourtArea::Basket))
    } else {
        g == a
    }
}

/// `b` tells whether `a` lies on the chosen path from `o` to the basket.
pub open spec fn in_lane(a: CourtArea, o: CourtArea, b: bool) -> bool {
    b == (reachable(o, CourtArea::Basket) && chosen_path(o, CourtArea::Basket).contains(a))
}

/// A path that is chosen is the chosen path.
proof fn lemma_is_chosen_path(p: Seq<CourtArea>, start: CourtArea, goal: CourtArea)
    requires
        is_chosen(p, start, goal),
    ensures
        chosen_path(start, goal) == p,
{
    let c = chosen_path(start, goal);
    assert(is_chosen(c, start, goal));
    lemma_chosen_unique(c, p, start, goal);
}

/// One step from `area` along a cheapest path to `target`; `area` itself when it is the
/// target or when no path leads there.
pub fn go_towards(area: CourtArea, target: CourtArea) -> (r: CourtArea)
    ensures
        toward(area, target, r),
        area == target ==> r == area,
        !reachable(area, target) ==> r == area,
        reachable(area, target) ==> exists|p: Seq<CourtArea>|
            is_shortest(p, area, target) && next_on(p) == r,
        reachable(area, target) && area != target ==> step(area, r),
{
    match find_path(area, target) {
        Some(path) => {
            let r = if path.len() >= 2 {
                path[1]
            } else {
                path[0]
            };
            proof {
                if area != target {
                    let i = 0int;
                    assert(step(path@[i], path@[i + 1]));
                }
                assert(is_shortest(path@, area, target) && next_on(path@) == r);
                lemma_is_chosen_path(path@, area, target);
            }
            r
        },
        None => area,
    }
}

/// Where a defender guarding `target` heads: the first region on a cheapest path from
/// `target` to the basket (the basket itself when `target` is the basket), or `area` when
/// the basket cannot be reached from `target`.
pub fn defend_towards(area: CourtArea, target: CourtArea) -> (r: CourtArea)
    ensures
        lane_target(area, target, r),
        target == CourtArea::Basket ==> r == CourtArea::Basket,
        !reachable(target, CourtArea::Basket) ==> r == area,
        reachable(target, CourtArea::Basket) ==> exists|p: Seq<CourtArea>|
            is_shortest(p, target, CourtArea::Basket) && next_on(p) == r,
{
    match find_path(target, CourtArea::Basket) {
        Some(path) => {
            let mut area_selected = target;
            if path.len() == 1 {
                area_selected = path[0];
            } else if path.len() >= 2 {
                area_selected = path[1];
            }
            assert(is_shortest(path@, target, CourtArea::Basket) && next_on(path@)
                == area_selected);
            proof {
                lemma_is_chosen_path(path@, target, CourtArea::Basket);
            }
            area_selected
        },
        None => area,
    }
}

/// Whether `area` lies on the cheapest path that the search finds from `target` to the basket.
pub fn is_between_basket(area: CourtArea, target: CourtArea) -> (r: bool)
    ensures
        in_lane(area, target, r),
        r ==> exists|p: Seq<CourtArea>|
            is_shortest(p, target, CourtArea::Basket) && p.contains(area),
        !r ==> !reachable(target, CourtArea::Basket) || exists|p: Seq<CourtArea>|
            is_shortest(p, target, CourtArea::Basket) && !p.contains(area),
        target == CourtArea::Basket ==> r == (area == CourtArea::Basket),
{
    match find_path(target, CourtArea::Basket) {
        Some(path) => {
            let mut i: usize = 0;
            while i < path.len()
                invariant
                    i <= path@.len(),
                    !path@.take(i as int).contains(area),
                    is_shortest(path@, target, CourtArea::Basket),
                    is_chosen(path@, target, CourtArea::Basket),
                    target == CourtArea::Basket ==> path@ == seq![CourtArea::Basket],
                decreases path@.len() - i,
            {
                if path[i] == area {
                    assert(path@[i as int] == area);
                    assert(is_shortest(path@, target, CourtArea::Basket) && path@.contains(area));
                    proof {
                        lemma_is_chosen_path(path@, target, CourtArea::Basket);
                    }
                    return true;
                }
                assert(path@.take(i + 1) =~= path@.take(i as int).push(path@[i as int]));
                i += 1;
            }
            assert(path@.take(i as int) =~= path@);
            assert(is_shortest(path@, target, CourtArea::Basket) && !path@.contains(area));
            proof {
                lemma_is_chosen_path(path@, target, CourtArea::Basket);
            }
            if target == CourtArea::Basket {
                assert(path@[0] == CourtArea::Basket);
            }
            false
        },
        None => false,
    }
}

/// Points a made shot from `a` is worth.
pub open spec fn point_value(a: CourtArea) -> u8 {
    match a {
        CourtArea::RestrictedAreaLeft
        | CourtArea::RestrictedAreaMiddle
        | CourtArea::RestrictedAreaRight
        | CourtArea::LowPostLeft
        | CourtArea::LowPostRight
        | CourtArea::ShortCornerLeft
        | CourtArea::ShortCornerRight
        | CourtArea::ElbowLeft
        | CourtArea::ElbowRight
        | CourtArea::FreeThrowLine
        | CourtArea::MidrangeBaselineLeft
        | CourtArea::MidrangeBaselineRight
        | CourtArea::MidrangeWingLeft
        | CourtArea::MidrangeCenter
        | CourtArea::MidrangeWingRight => 2,
        CourtArea::ThreePointLineCornerLeft
        | CourtArea::ThreePointLineCornerRight
        | CourtArea::ThreePointLineWingLeft
        | CourtArea::ThreePointLineWingRight
        | CourtArea::ThreePointLineCenter
        | CourtArea::Center
        | CourtArea::Backcourt => 3,
        _ => 0,
    }
}

/// Whether a region counts as front court.
pub open spec fn front_court(a: CourtArea) -> bool {
    !(a == CourtArea::Backcourt || a == CourtArea::OutOfBounds || a == CourtArea::SidelineLeft
        || a == CourtArea::SidelineRight || a == CourtArea::ThreePointLineCenter || a
        == CourtArea::ThreePointLineWingLeft || a == CourtArea::ThreePointLineWingRight)
}

/// Base chance, in percent, that a shot from `a` goes in before the shooter's rating applies.
pub open spec fn base_chance(a: CourtArea) -> u32 {
    match a {
        CourtArea::Basket
        | CourtArea::RestrictedAreaLeft
        | CourtArea::RestrictedAreaRight
        | CourtArea::RestrictedAreaMiddle => 100,
        CourtArea::LowPostRight | CourtArea::LowPostLeft => 90,
        CourtArea::ShortCornerLeft | CourtArea::ShortCornerRight => 85,
        CourtArea::ElbowLeft | CourtArea::ElbowRight | CourtArea::FreeThrowLine => 80,
        CourtArea::Center => 10,
        CourtArea::ThreePointLineCornerLeft
        | CourtArea::ThreePointLineCornerRight
        | CourtArea::ThreePointLineWingLeft
        | CourtArea::ThreePointLineWingRight
        | CourtArea::ThreePointLineCenter => 100,
        CourtArea::MidrangeCenter
        | CourtArea::MidrangeWingLeft
        | CourtArea::MidrangeWingRight
        | CourtArea::MidrangeBaselineLeft
        | CourtArea::MidrangeBaselineRight => 70,
        _ => 0,
    }
}

impl CourtArea {
    /// Base chance, in percent, that a shot from this region goes in.
    pub fn shot_chance(&self) -> (r: u32)
        ensures
            r == base_chance(*self),
            r <= 100,
    {
        match self {
            CourtArea::Basket
            | CourtArea::RestrictedAreaLeft
            | CourtArea::RestrictedAreaRight
            | CourtArea::RestrictedAreaMiddle => 100,
            CourtArea::LowPostRight | CourtArea::LowPostLeft => 90,
            CourtArea::ShortCornerLeft | CourtArea::ShortCornerRight => 85,
            CourtArea::ElbowLeft | CourtArea::ElbowRight | CourtArea::FreeThrowLine => 80,
            CourtArea::Center => 10,
            CourtArea::ThreePointLineCornerLeft | CourtArea::ThreePointLineCornerRight => 100,
            CourtArea::ThreePointLineWingLeft
            | CourtArea::ThreePointLineWingRight
            | CourtArea::ThreePointLineCenter => 100,
            CourtArea::MidrangeCenter
            | CourtArea::MidrangeWingLeft
            | CourtArea::MidrangeWingRight => 70,
            CourtArea::MidrangeBaselineLeft | CourtArea::MidrangeBaselineRight => 70,
            CourtArea::Backcourt => 0,
            CourtArea::SidelineLeft
            | CourtArea::SidelineRight
            | CourtArea::BaselineLeft
            | CourtArea::BaselineRight
            | CourtArea::OutOfBounds => 0,
        }
    }

    /// Points a made shot from this region is worth: 2 inside the arc, 3 beyond it (and for
    /// heaves from center court or the backcourt), 0 from a boundary.
    pub fn points(&self) -> (r: u8)
        ensures
            r == point_value(*self),
            r == 0 || r == 2 || r == 3,
    {
        match self {
            CourtArea::ElbowLeft
            | CourtArea::ElbowRight
            | CourtArea::LowPostLeft
            | CourtArea::LowPostRight
            | CourtArea::FreeThrowLine
            | CourtArea::MidrangeBaselineRight
            | CourtArea::MidrangeBaselineLeft
            | CourtArea::RestrictedAreaMiddle
            | CourtArea::RestrictedAreaRight
            | CourtArea::RestrictedAreaLeft
            | CourtArea::MidrangeWingRight
            | CourtArea::MidrangeWingLeft
            | CourtArea::ShortCornerRight
            | CourtArea::ShortCornerLeft
            | CourtArea::MidrangeCenter => 2,
            CourtArea::ThreePointLineCornerRight
            | CourtArea::ThreePointLineCornerLeft
            | CourtArea::ThreePointLineWingRight
            | CourtArea::ThreePointLineWingLeft
            | CourtArea::ThreePointLineCenter
            | CourtArea::Backcourt
            | CourtArea::Center => 3,
            _ => 0,
        }
    }

    /// Whether this region counts as front court.
    pub fn is_front_court(&self) -> (r: bool)
        ensures
            r == front_court(*self),
    {
        match self {
            CourtArea::Backcourt
            | CourtArea::OutOfBounds
            | CourtArea::SidelineLeft
            | CourtArea::SidelineRight
            | CourtArea::ThreePointLineCenter
            | CourtArea::ThreePointLineWingLeft
            | CourtArea::ThreePointLineWingRight => false,
            _ => true,
        }
    }
}

/// The name of a region as text.
pub open spec fn area_label(a: CourtArea) -> Seq<char> {
    match a {
        CourtArea::Basket => "Basket"@,
        CourtArea::RestrictedAreaLeft => "RestrictedAreaLeft"@,
        CourtArea::RestrictedAreaMiddle => "RestrictedAreaMiddle"@,
        CourtArea::RestrictedAreaRight => "RestrictedAreaRight"@,
        CourtArea::LowPostLeft => "LowPostLeft"@,
        CourtArea::LowPostRight => "LowPostRight"@,
        CourtArea::ShortCornerLeft => "ShortCornerLeft"@,
        CourtArea::ShortCornerRight => "ShortCornerRight"@,
        CourtArea::ElbowLeft => "ElbowLeft"@,
        CourtArea::ElbowRight => "ElbowRight"@,
        CourtArea::FreeThrowLine => "FreeThrowLine"@,
        CourtArea::MidrangeBaselineLeft => "MidrangeBaselineLeft"@,
        CourtArea::MidrangeBaselineRight => "MidrangeBaselineRight"@,
        CourtArea::MidrangeWingLeft => "MidrangeWingLeft"@,
        CourtArea::MidrangeCenter => "MidrangeCenter"@,
        CourtArea::MidrangeWingRight => "MidrangeWingRight"@,
        CourtArea::ThreePointLineCornerLeft => "ThreePointLineCornerLeft"@,
        CourtArea::ThreePointLineCornerRight => "ThreePointLineCornerRight"@,
        CourtArea::ThreePointLineWingLeft => "ThreePointLineWingLeft"@,
        CourtArea::ThreePointLineWingRight => "ThreePointLineWingRight"@,
        CourtArea::ThreePointLineCenter => "ThreePointLineCenter"@,
        CourtArea::Center => "Center"@,
        CourtArea::Backcourt => "Backcourt"@,
        CourtArea::SidelineLeft => "SidelineLeft"@,
        CourtArea::SidelineRight => "SidelineRight"@,
        CourtArea::BaselineLeft => "BaselineLeft"@,
        CourtArea::BaselineRight => "BaselineRight"@,
        CourtArea::OutOfBounds => "OutOfBounds"@,
    }
}

/// The name of a region, as it appears in play-by-play text.
pub fn area_name(a: CourtArea) -> (r: &'static str)
    ensures
        r@ == area_label(a),
{
    match a {
        CourtArea::Basket => "Basket",
        CourtArea::RestrictedAreaLeft => "RestrictedAreaLeft",
        CourtArea::RestrictedAreaMiddle => "RestrictedAreaMiddle",
        CourtArea::RestrictedAreaRight => "RestrictedAreaRight",
        CourtArea::LowPostLeft => "LowPostLeft",
        CourtArea::LowPostRight => "LowPostRight",
        CourtArea::ShortCornerLeft => "ShortCornerLeft",
        CourtArea::ShortCornerRight => "ShortCornerRight",
        CourtArea::ElbowLeft => "ElbowLeft",
        CourtArea::ElbowRight => "ElbowRight",
        CourtArea::FreeThrowLine => "FreeThrowLine",
        CourtArea::MidrangeBaselineLeft => "MidrangeBaselineLeft",
        CourtArea::MidrangeBaselineRight => "MidrangeBaselineRight",
        CourtArea::MidrangeWingLeft => "MidrangeWingLeft",
        CourtArea::MidrangeCenter => "MidrangeCenter",
        CourtArea::MidrangeWingRight => "MidrangeWingRight",
        CourtArea::ThreePointLineCornerLeft => "ThreePointLineCornerLeft",
        CourtArea::ThreePointLineCornerRight => "ThreePointLineCornerRight",
        CourtArea::ThreePointLineWingLeft => "ThreePointLineWingLeft",
        CourtArea::ThreePointLineWingRight => "ThreePointLineWingRight",
        CourtArea::ThreePointLineCenter => "ThreePointLineCenter",
        CourtArea::Center => "Center",
        CourtArea::Backcourt => "Backcourt",
        CourtArea::SidelineLeft => "SidelineLeft",
        CourtArea::SidelineRight => "SidelineRight",
        CourtArea::BaselineLeft => "BaselineLeft",
        CourtArea::BaselineRight => "BaselineRight",
        CourtArea::OutOfBounds => "OutOfBounds",
    }
}



/// `p` comes no later than `q` when both are read region by region from their last one back,
/// by declaration order; a sequence that runs out first comes first.
pub open spec fn rev_before(p: Seq<CourtArea>, q: Seq<CourtArea>) -> bool
    decreases p.len(),
{
    if p.len() == 0 {
        true
    } else if q.len() == 0 {
        false
    } else if ord(p.last()) < ord(q.last()) {
        true
    } else if ord(p.last()) > ord(q.last()) {
        false
    } else {
        rev_before(p.drop_last(), q.drop_last())
    }
}

/// The path the search settles on: a cheapest one, and among the cheapest the first when read
/// from the goal back.
pub open spec fn is_chosen(p: Seq<CourtArea>, start: CourtArea, goal: CourtArea) -> bool {
    &&& is_shortest(p, start, goal)
    &&& forall|q: Seq<CourtArea>| is_shortest(q, start, goal) ==> rev_before(p, q)
}

/// The chosen path from `start` to `goal` (meaningful when `goal` is reachable).
pub open spec fn chosen_path(start: CourtArea, goal: CourtArea) -> Seq<CourtArea> {
    choose|p: Seq<CourtArea>| is_chosen(p, start, goal)
}

proof fn lemma_rev_antisym(p: Seq<CourtArea>, q: Seq<CourtArea>)
    requires
        rev_before(p, q),
        rev_before(q, p),
    ensures
        p == q,
    decreases p.len(),
{
    broadcast use lemma_ord_area_of;

    if p.len() > 0 && q.len() > 0 {
        lemma_rev_antisym(p.drop_last(), q.drop_last());
        assert(p.last() == q.last());
        assert(p =~= p.drop_last().push(p.last()));
        assert(q =~= q.drop_last().push(q.last()));
    } else {
        assert(p =~= q);
    }
}

/// At most one path is the chosen one.
pub proof fn lemma_chosen_unique(
    p: Seq<CourtArea>,
    q: Seq<CourtArea>,
    start: CourtArea,
    goal: CourtArea,
)
    requires
        is_chosen(p, start, goal),
        is_chosen(q, start, goal),
    ensures
        p == q,
{
    lemma_rev_antisym(p, q);
}

/// `t` ends `q`.
spec fn is_suffix(t: Seq<CourtArea>, q: Seq<CourtArea>) -> bool {
    t.len() <= q.len() && q.subrange(q.len() - t.len(), q.len() as int) == t
}

proof fn lemma_rev_prepend(u: CourtArea, t: Seq<CourtArea>, q: Seq<CourtArea>)
    requires
        rev_before(t, q),
        is_suffix(t, q) ==> q.len() > t.len() && ord(u) <= ord(q[q.len() - t.len() - 1]),
    ensures
        rev_before(seq![u] + t, q),
    decreases t.len(),
{
    broadcast use lemma_ord_area_of;

    let ut = seq![u] + t;
    if t.len() == 0 {
        assert(is_suffix(t, q)) by {
            assert(q.subrange(q.len() - t.len(), q.len() as int) =~= t);
        }
        assert(ut.last() == u);
        assert(ut.drop_last() =~= Seq::<CourtArea>::empty());
        assert(rev_before(ut.drop_last(), q.drop_last()));
        if ord(u) == ord(q.last()) {
            assert(u == q.last());
        }
    } else if q.len() == 0 {
    } else if ord(t.last()) < ord(q.last()) {
        assert(ut.last() == t.last());
    } else {
        assert(ut.last() == t.last());
        assert(t.last() == q.last());
        assert(ut.drop_last() =~= seq![u] + t.drop_last());
        let t2 = t.drop_last();
        let q2 = q.drop_last();
        if is_suffix(t2, q2) {
            assert(q.subrange(q.len() - t.len(), q.len() as int) =~= q2.subrange(
                q2.len() - t2.len(),
                q2.len() as int,
            ).push(q.last()));
            assert(t =~= t2.push(t.last()));
            assert(is_suffix(t, q));
            assert(q2[q2.len() - t2.len() - 1] == q[q.len() - t.len() - 1]);
        }
        lemma_rev_prepend(u, t2, q2);
        assert(rev_before(ut.drop_last(), q2));
    }
}

/// Joining a path to `x` with a path from `x` gives a path whose cost is the sum.
proof fn lemma_path_concat(
    a: Seq<CourtArea>,
    b: Seq<CourtArea>,
    s: CourtArea,
    x: CourtArea,
    g: CourtArea,
)
    requires
        is_path(a, s, x),
        is_path(b, x, g),
    ensures
        is_path(a + b.drop_first(), s, g),
        path_cost(a + b.drop_first()) == path_cost(a) + path_cost(b),
    decreases b.len(),
{
    let c = a + b.drop_first();
    if b.len() == 1 {
        assert(c =~= a);
    } else {
        let b2 = b.drop_last();
        lemma_path_prefix(b, x, g, b.len() - 2);
        assert(b.take(b.len() - 1) =~= b2);
        lemma_path_concat(a, b2, s, x, b[b.len() - 2]);
        let c2 = a + b2.drop_first();
        assert(c =~= c2.push(b.last()));
        assert(step(b[b.len() - 2], b[b.len() - 1]));
        assert(b2.drop_first().len() == b.len() - 2);
        assert(c2.last() == b[b.len() - 2]);
        lemma_path_extend(c2, s, b[b.len() - 2], b.last());
        assert(b.drop_last() =~= b2);
    }
}

/// A path splits at any region into a path to it and a path from it, costs adding up.
proof fn lemma_path_split(q: Seq<CourtArea>, s: CourtArea, g: CourtArea, i: int)
    requires
        is_path(q, s, g),
        0 <= i < q.len(),
    ensures
        is_path(q.subrange(i, q.len() as int), q[i], g),
        path_cost(q) == path_cost(q.take(i + 1)) + path_cost(q.subrange(i, q.len() as int)),
{
    let b = q.subrange(i, q.len() as int);
    assert forall|k: int| 0 <= k < b.len() - 1 implies #[trigger] step(b[k], b[k + 1]) by {
        assert(step(q[i + k], q[i + k + 1]));
    }
    lemma_path_prefix(q, s, g, i);
    lemma_path_concat(q.take(i + 1), b, s, q[i], g);
    assert(q.take(i + 1) + b.drop_first() =~= q);
}


/// A search from `start` that has nothing left to close.
spec fn settled(
    start: CourtArea,
    best: Seq<Option<u32>>,
    paths: Seq<Seq<CourtArea>>,
    closed: Seq<bool>,
) -> bool {
    &&& search_state(start, best, paths, closed)
    &&& forall|a: CourtArea| #[trigger] best[ord(a)] is Some ==> closed[ord(a)]
}

/// Once settled, every region reachable from `start` is closed.
proof fn lemma_settled_reachable(
    start: CourtArea,
    best: Seq<Option<u32>>,
    paths: Seq<Seq<CourtArea>>,
    closed: Seq<bool>,
    v: CourtArea,
    q: Seq<CourtArea>,
)
    requires
        settled(start, best, paths, closed),
        is_path(q, start, v),
    ensures
        closed[ord(v)],
        best[ord(v)] is Some,
{
    broadcast use lemma_ord_area_of;

    assert(best[ord(start)] is Some);
    if !closed[ord(v)] {
        let x = lemma_crossing(q, start, v, closed);
        assert(step(q[x], q[x + 1]));
        assert(relaxed(best, q[x], q[x + 1]));
    }
}

/// Once settled, every region on a cheapest path to `goal` is reached at exactly the cost the
/// search found for it.
proof fn lemma_tight(
    start: CourtArea,
    goal: CourtArea,
    best: Seq<Option<u32>>,
    paths: Seq<Seq<CourtArea>>,
    closed: Seq<bool>,
    q: Seq<CourtArea>,
    i: int,
)
    requires
        settled(start, best, paths, closed),
        is_shortest(q, start, goal),
        0 <= i < q.len(),
    ensures
        closed[ord(q[i])],
        best[ord(q[i])] is Some,
        best[ord(q[i])]->Some_0 == path_cost(q.take(i + 1)),
{
    broadcast use lemma_ord_area_of;

    let x = q[i];
    lemma_path_prefix(q, start, goal, i);
    lemma_settled_reachable(start, best, paths, closed, x, q.take(i + 1));
    assert(closed[ord(x)] && is_path(q.take(i + 1), start, x));
    lemma_path_split(q, start, goal, i);
    let b = q.subrange(i, q.len() as int);
    let px = paths[ord(x)];
    lemma_path_concat(px, b, start, x, goal);
    assert(is_path(px + b.drop_first(), start, goal));
}

/// Whether `v` holds `a`.
fn holds_area(v: &Vec<CourtArea>, a: CourtArea) -> (r: bool)
    ensures
        r == v@.contains(a),
{
    let mut i: usize = 0;
    while i < v.len()
        invariant
            i <= v@.len(),
            forall|k: int| 0 <= k < i ==> v@[k] != a,
        decreases v@.len() - i,
    {
        if v[i] == a {
            assert(v@[i as int] == a);
            return true;
        }
        i += 1;
    }
    false
}

/// `u` may precede `cur` on a cheapest path: closed, one legal step away, and exactly as much
/// cheaper as entering `cur` costs.
spec fn tight_pred(best: Seq<Option<u32>>, closed: Seq<bool>, u: CourtArea, cur: CourtArea) -> bool {
    &&& closed[ord(u)]
    &&& best[ord(u)] is Some
    &&& step(u, cur)
    &&& best[ord(u)]->Some_0 + entry_cost(cur) == best[ord(cur)]->Some_0
}

proof fn lemma_entry_cost_positive(a: CourtArea)
    ensures
        weight(a) is Some && a != CourtArea::Basket ==> entry_cost(a) >= 10,
        a == CourtArea::Basket ==> entry_cost(a) == 0 && !moves(a).contains(a),
{
    if a == CourtArea::Basket {
        let m = moves(a);
        assert(m[0] != a && m[1] != a && m[2] != a);
    }
}

/// Rebuilds, from the goal back, the chosen path of a settled search.
fn rebuild(
    start: CourtArea,
    goal: CourtArea,
    best: &Vec<Option<u32>>,
    closed: &Vec<bool>,
    Ghost(paths): Ghost<Seq<Seq<CourtArea>>>,
) -> (r: Vec<CourtArea>)
    requires
        settled(start, best@, paths, closed@),
        closed@[ord(goal)],
    ensures
        is_chosen(r@, start, goal),
{
    broadcast use lemma_ord_area_of;

    let mut cur = goal;
    let mut tail: Vec<CourtArea> = vec![goal];
    proof {
        assert forall|q: Seq<CourtArea>| is_shortest(q, start, goal) implies rev_before(
            tail@,
            q,
        ) by {
            assert(tail@.drop_last() =~= Seq::<CourtArea>::empty());
            assert(q.last() == goal);
            assert(rev_before(tail@.drop_last(), q.drop_last()));
        }
    }
    while cur != start
        invariant
            settled(start, best@, paths, closed@),
            best@.len() == AREA_COUNT,
            closed@.len() == AREA_COUNT,
            closed@[ord(cur)],
            best@[ord(cur)] is Some,
            is_path(tail@, cur, goal),
            best@[ord(cur)]->Some_0 + path_cost(tail@) == best@[ord(goal)]->Some_0,
            forall|q: Seq<CourtArea>|
                is_shortest(q, start, goal) ==> #[trigger] rev_before(tail@, q),
        decreases 2 * (best@[ord(cur)]->Some_0 as int) + if cur == CourtArea::Basket {
            1int
        } else {
            0int
        },
    {
        let bcur = best[cur.ordinal()].unwrap();
        let mut found: Option<CourtArea> = None;
        let mut k: usize = 0;
        while k < AREA_COUNT && found.is_none()
            invariant
                k <= AREA_COUNT,
                best@.len() == AREA_COUNT,
                closed@.len() == AREA_COUNT,
                best@[ord(cur)] == Some(bcur),
                found is None ==> forall|a: CourtArea|
                    ord(a) < k ==> !tight_pred(best@, closed@, a, cur),
                found matches Some(u) ==> tight_pred(best@, closed@, u, cur) && forall|a: CourtArea|
                    ord(a) < ord(u) ==> !tight_pred(best@, closed@, a, cur),
            decreases AREA_COUNT - k,
        {
            let a = CourtArea::from_ordinal(k);
            if closed[k] {
                match (best[k], get_position_weight(cur)) {
                    (Some(ba), Some(w)) => {
                        if ba as u64 + w as u64 == bcur as u64 && holds_area(&can_move_to(a), cur) {
                            found = Some(a);
                        }
                    },
                    _ => {},
                }
            }
            proof {
                if found is None {
                    assert forall|b: CourtArea|
                        ord(b) < k + 1 implies !tight_pred(best@, closed@, b, cur) by {
                        if ord(b) == k {
                            assert(b == a);
                        }
                    }
                }
            }
            k += 1;
        }
        proof {
            // A cheapest path to `cur` ends in a step from a tight predecessor.
            let pc = paths[ord(cur)];
            assert(is_path(pc, start, cur) && path_cost(pc) == best@[ord(cur)]->Some_0);
            assert(pc.len() >= 2);
            let n = pc.len();
            let w = pc[n - 2];
            lemma_path_prefix(pc, start, cur, n - 2);
            lemma_settled_reachable(start, best@, paths, closed@, w, pc.take(n - 1));
            assert(closed@[ord(w)] && is_path(pc.take(n - 1), start, w));
            assert(step(pc[n - 2], pc[n - 1]));
            assert(relaxed(best@, w, cur));
            assert(pc.take(n - 1) =~= pc.drop_last());
            assert(tight_pred(best@, closed@, w, cur));
            assert(found is Some);
        }
        let u = found.unwrap();
        proof {
            lemma_entry_cost_positive(cur);
            assert(path_cost(seq![u, cur]) == entry_cost(cur)) by {
                assert(seq![u, cur].drop_last() =~= seq![u]);
                assert(path_cost(seq![u]) == 0);
            }
            assert(is_path(seq![u, cur], u, cur)) by {
                let i = 0int;
                assert(step(seq![u, cur][i], seq![u, cur][i + 1]));
            }
            lemma_path_concat(seq![u, cur], tail@, u, cur, goal);
            assert(seq![u, cur] + tail@.drop_first() =~= seq![u] + tail@);
            assert forall|q: Seq<CourtArea>| is_shortest(q, start, goal) implies #[trigger] rev_before(
                seq![u] + tail@,
                q,
            ) by {
                let t = tail@;
                if is_suffix(t, q) {
                    let j = q.len() - t.len();
                    assert(q.subrange(j, q.len() as int)[0] == t[0]);
                    assert(q[j] == cur);
                    assert(j > 0);
                    lemma_tight(start, goal, best@, paths, closed@, q, j - 1);
                    lemma_tight(start, goal, best@, paths, closed@, q, j);
                    lemma_path_prefix(q, start, goal, j);
                    assert(q.take(j + 1).drop_last() =~= q.take(j));
                    assert(step(q[j - 1], q[j - 1 + 1]));
                    assert(tight_pred(best@, closed@, q[j - 1], cur));
                }
                lemma_rev_prepend(u, t, q);
            }
        }
        let ghost old_tail = tail@;
        tail.insert(0, u);
        assert(tail@ =~= seq![u] + old_tail);
        cur = u;
    }
    proof {
        assert(best@[ord(start)] == Some(0u32));
        assert forall|q: Seq<CourtArea>| is_path(q, start, goal) implies path_cost(tail@)
            <= path_cost(q) by {
            assert(best@[ord(goal)]->Some_0 <= path_cost(q));
        }
    }
    tail
}

} // verus!
