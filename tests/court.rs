use hoops::court::{
    can_move_to, defend_towards, find_path, get_position_weight, go_towards, is_between_basket,
    CourtArea, AREA_COUNT,
};
use hoops::geometry::Court;

fn all_areas() -> Vec<CourtArea> {
    (0..AREA_COUNT).map(CourtArea::from_ordinal).collect()
}

fn path_cost(path: &[CourtArea]) -> u32 {
    path[1..].iter().map(|a| get_position_weight(*a).unwrap()).sum()
}

#[test]
fn test_long_paths() {
    // A path lists its regions, start and goal included, so it makes one move fewer.
    let cases = vec![
        (CourtArea::Backcourt, CourtArea::RestrictedAreaMiddle, 4),
        (
            CourtArea::ThreePointLineCornerLeft,
            CourtArea::ThreePointLineCornerRight,
            4,
        ),
    ];

    for (start, goal, expected_moves) in cases {
        let result = find_path(start, goal);
        assert!(
            result.is_some(),
            "Failed to find path from {:?} to {:?}",
            start,
            goal
        );

        let path = result.unwrap();
        assert_eq!(
            path.len() - 1,
            expected_moves,
            "Path length {} from {:?} to {:?} not equal to expected {}",
            path.len(),
            start,
            goal,
            expected_moves
        );
        assert_eq!(path[0], start);
        assert_eq!(*path.last().unwrap(), goal);
    }
}

#[test]
fn cheapest_path_from_backcourt() {
    let path = find_path(CourtArea::Backcourt, CourtArea::RestrictedAreaMiddle).unwrap();
    assert_eq!(
        path,
        vec![
            CourtArea::Backcourt,
            CourtArea::ThreePointLineWingLeft,
            CourtArea::MidrangeWingLeft,
            CourtArea::LowPostLeft,
            CourtArea::RestrictedAreaMiddle,
        ]
    );
    assert_eq!(path_cost(&path), 80);
}

#[test]
fn cheapest_path_corner_to_corner() {
    let path = find_path(
        CourtArea::ThreePointLineCornerLeft,
        CourtArea::ThreePointLineCornerRight,
    )
    .unwrap();
    assert_eq!(path_cost(&path), 112);
    assert_eq!(path.len(), 5);
}

#[test]
fn path_to_self_is_single_region() {
    for a in all_areas() {
        assert_eq!(find_path(a, a), Some(vec![a]));
    }
}

#[test]
fn paths_are_walks_of_legal_moves() {
    for a in all_areas() {
        for b in all_areas() {
            if let Some(path) = find_path(a, b) {
                assert_eq!(path[0], a);
                assert_eq!(*path.last().unwrap(), b);
                for pair in path.windows(2) {
                    assert!(can_move_to(pair[0]).contains(&pair[1]));
                    assert!(get_position_weight(pair[1]).is_some());
                }
            }
        }
    }
}

#[test]
fn boundaries_cannot_be_entered() {
    assert_eq!(find_path(CourtArea::Basket, CourtArea::OutOfBounds), None);
    assert_eq!(find_path(CourtArea::Center, CourtArea::SidelineLeft), None);
    assert_eq!(find_path(CourtArea::OutOfBounds, CourtArea::Basket), None);
    let from_sideline = find_path(CourtArea::SidelineLeft, CourtArea::Basket).unwrap();
    assert_eq!(path_cost(&from_sideline), 48);
}

#[test]
fn out_of_bounds_is_absorbing() {
    assert_eq!(can_move_to(CourtArea::OutOfBounds), vec![CourtArea::OutOfBounds]);
}

#[test]
fn moves_from_basket() {
    assert_eq!(
        can_move_to(CourtArea::Basket),
        vec![
            CourtArea::RestrictedAreaMiddle,
            CourtArea::RestrictedAreaRight,
            CourtArea::RestrictedAreaLeft,
        ]
    );
}

#[test]
fn position_weights() {
    assert_eq!(get_position_weight(CourtArea::Basket), Some(0));
    assert_eq!(get_position_weight(CourtArea::RestrictedAreaLeft), Some(12));
    assert_eq!(get_position_weight(CourtArea::Backcourt), Some(50));
    assert_eq!(get_position_weight(CourtArea::OutOfBounds), None);
    assert_eq!(get_position_weight(CourtArea::BaselineRight), None);
}

#[test]
fn go_towards_takes_first_step() {
    assert_eq!(
        go_towards(CourtArea::ElbowLeft, CourtArea::Basket),
        CourtArea::RestrictedAreaMiddle
    );
    assert_eq!(go_towards(CourtArea::Center, CourtArea::Center), CourtArea::Center);
    assert_eq!(
        go_towards(CourtArea::Center, CourtArea::OutOfBounds),
        CourtArea::Center
    );
}

#[test]
fn defend_towards_heads_for_the_lane() {
    assert_eq!(
        defend_towards(CourtArea::Center, CourtArea::ElbowLeft),
        CourtArea::RestrictedAreaMiddle
    );
    assert_eq!(
        defend_towards(CourtArea::Center, CourtArea::Basket),
        CourtArea::Basket
    );
    assert_eq!(
        defend_towards(CourtArea::Center, CourtArea::OutOfBounds),
        CourtArea::Center
    );
}

#[test]
fn between_basket_follows_the_path() {
    assert!(is_between_basket(
        CourtArea::RestrictedAreaMiddle,
        CourtArea::ElbowLeft
    ));
    assert!(!is_between_basket(CourtArea::Center, CourtArea::ElbowLeft));
    assert!(is_between_basket(CourtArea::Basket, CourtArea::Basket));
    assert!(!is_between_basket(CourtArea::Center, CourtArea::OutOfBounds));
}

#[test]
fn region_points_and_front_court() {
    assert_eq!(CourtArea::ElbowLeft.points(), 2);
    assert_eq!(CourtArea::ThreePointLineCenter.points(), 3);
    assert_eq!(CourtArea::Backcourt.points(), 3);
    assert_eq!(CourtArea::Basket.points(), 0);
    assert_eq!(CourtArea::OutOfBounds.points(), 0);
    assert!(CourtArea::ElbowLeft.is_front_court());
    assert!(!CourtArea::Backcourt.is_front_court());
    assert!(!CourtArea::ThreePointLineWingLeft.is_front_court());
    assert_eq!(CourtArea::LowPostLeft.shot_chance(), 90);
    assert_eq!(CourtArea::Backcourt.shot_chance(), 0);
}

#[test]
fn ordinals_round_trip() {
    for i in 0..AREA_COUNT {
        assert_eq!(CourtArea::from_ordinal(i).ordinal(), i);
    }
}

#[test]
fn court_geometry() {
    let court = Court::new();
    assert!(court.is_inside_court(0, 0));
    assert!(court.is_inside_court(23, 12));
    assert!(!court.is_inside_court(24, 0));
    assert!(court.is_inside_key(4, 4));
    assert!(!court.is_inside_key(5, 0));
    // Basket at x = 23.5 grid units; 12 units away (24 ft) is beyond the 23.75 ft arc.
    assert!(court.is_three_point_shot(11, 0));
    assert!(!court.is_three_point_shot(12, 0));
    // In the corner strip the line sits at 22 ft: 11 units across (22 ft) counts.
    assert!(court.is_three_point_shot(23, 11));
    assert!(!court.is_three_point_shot(23, 10));
}

#[test]
fn ties_go_to_the_path_first_from_the_goal_back() {
    // Two paths of cost 80 lead from center court to the middle of the restricted area, one
    // through each low post; the left post comes first in declaration order.
    let path = find_path(CourtArea::Center, CourtArea::RestrictedAreaMiddle).unwrap();
    assert_eq!(
        path,
        vec![
            CourtArea::Center,
            CourtArea::ThreePointLineWingLeft,
            CourtArea::MidrangeWingLeft,
            CourtArea::LowPostLeft,
            CourtArea::RestrictedAreaMiddle,
        ]
    );
    assert_eq!(
        go_towards(CourtArea::Backcourt, CourtArea::RestrictedAreaMiddle),
        CourtArea::ThreePointLineWingLeft
    );
    assert!(is_between_basket(CourtArea::LowPostLeft, CourtArea::MidrangeWingLeft));
    assert!(!is_between_basket(CourtArea::LowPostRight, CourtArea::MidrangeWingLeft));
}
