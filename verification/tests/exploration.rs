use trashinator::exploration::{
    calculate_random_direction_with_weighted_previous_direction, direction_weight,
    select_direction,
};
use trashinator::grid::Direction;

const ALL: [Direction; 4] = [
    Direction::Left,
    Direction::Right,
    Direction::Up,
    Direction::Down,
];

fn index_of(direction: Direction) -> usize {
    match direction {
        Direction::Left => 0,
        Direction::Right => 1,
        Direction::Up => 2,
        Direction::Down => 3,
    }
}

#[test]
fn reverse_of_the_previous_direction_weighs_half() {
    for previous in ALL {
        for direction in ALL {
            let expected = if direction == previous.reversed() { 50 } else { 100 };
            assert_eq!(direction_weight(&Some(previous), direction), expected);
        }
    }
    for direction in ALL {
        assert_eq!(direction_weight(&None, direction), 100);
    }
}

#[test]
fn reversed_is_the_opposite_direction() {
    assert_eq!(Direction::Up.reversed(), Direction::Down);
    assert_eq!(Direction::Down.reversed(), Direction::Up);
    assert_eq!(Direction::Left.reversed(), Direction::Right);
    assert_eq!(Direction::Right.reversed(), Direction::Left);
    assert!(Direction::Up.same(&Direction::Up));
    assert!(!Direction::Up.same(&Direction::Left));
}

#[test]
fn highest_score_wins() {
    assert_eq!(select_direction(10, 3, 7, 9), Direction::Left);
    assert_eq!(select_direction(3, 10, 7, 9), Direction::Right);
    assert_eq!(select_direction(3, 7, 10, 9), Direction::Up);
    assert_eq!(select_direction(3, 7, 9, 10), Direction::Down);
}

#[test]
fn ties_go_to_the_first_in_scan_order() {
    assert_eq!(select_direction(0, 0, 0, 0), Direction::Left);
    assert_eq!(select_direction(5, 5, 5, 5), Direction::Left);
    assert_eq!(select_direction(1, 5, 5, 5), Direction::Right);
    assert_eq!(select_direction(1, 2, 5, 5), Direction::Up);
    assert_eq!(select_direction(1, 2, 3, 5), Direction::Down);
    assert_eq!(select_direction(7, 2, 7, 1), Direction::Left);
    assert_eq!(select_direction(2, 7, 1, 7), Direction::Right);
}

#[test]
fn turning_back_is_rare_but_happens() {
    for previous in ALL {
        let mut counts = [0usize; 4];
        for _ in 0..40000 {
            let d = calculate_random_direction_with_weighted_previous_direction(&Some(previous));
            counts[index_of(d)] += 1;
        }
        let back = counts[index_of(previous.reversed())];
        assert!(back > 0, "never turned back after {:?}", previous);
        for direction in ALL {
            if direction != previous.reversed() {
                assert!(
                    2 * back < counts[index_of(direction)],
                    "after {:?}: {:?}",
                    previous,
                    counts
                );
            }
        }
    }
}

#[test]
fn without_a_previous_direction_every_direction_comes_up() {
    let mut counts = [0usize; 4];
    for _ in 0..20000 {
        let d = calculate_random_direction_with_weighted_previous_direction(&None);
        counts[index_of(d)] += 1;
    }
    for direction in ALL {
        assert!(counts[index_of(direction)] > 3000, "{:?}", counts);
    }
}
