use trashinator::grid::Direction;
use trashinator::navigation::{determine_action_to_perform_task, NavigationUndetermined, Step};

fn step_from(agent: (usize, usize), direction: Direction) -> (usize, usize) {
    match direction {
        Direction::Up => (agent.0 - 1, agent.1),
        Direction::Down => (agent.0 + 1, agent.1),
        Direction::Left => (agent.0, agent.1 - 1),
        Direction::Right => (agent.0, agent.1 + 1),
    }
}

fn manhattan(a: (usize, usize), b: (usize, usize)) -> usize {
    a.0.abs_diff(b.0) + a.1.abs_diff(b.1)
}

#[test]
fn fire_two_columns_right_is_walked_to_then_acted_on() {
    let target = (5, 7);
    assert_eq!(
        determine_action_to_perform_task((5, 5), target),
        Ok(Step::Move(Direction::Right))
    );
    assert_eq!(
        determine_action_to_perform_task((5, 6), target),
        Ok(Step::Act(Direction::Right))
    );
}

#[test]
fn rows_are_closed_before_columns() {
    assert_eq!(
        determine_action_to_perform_task((9, 0), (2, 8)),
        Ok(Step::Move(Direction::Up))
    );
    assert_eq!(
        determine_action_to_perform_task((2, 0), (9, 8)),
        Ok(Step::Move(Direction::Down))
    );
    assert_eq!(
        determine_action_to_perform_task((3, 9), (4, 2)),
        Ok(Step::Move(Direction::Left))
    );
    assert_eq!(
        determine_action_to_perform_task((3, 2), (3, 9)),
        Ok(Step::Move(Direction::Right))
    );
}

#[test]
fn diagonal_neighbour_is_approached_along_the_column_axis() {
    assert_eq!(
        determine_action_to_perform_task((4, 4), (3, 5)),
        Ok(Step::Move(Direction::Right))
    );
    assert_eq!(
        determine_action_to_perform_task((4, 4), (5, 3)),
        Ok(Step::Move(Direction::Left))
    );
    assert_eq!(
        determine_action_to_perform_task((4, 4), (5, 5)),
        Ok(Step::Move(Direction::Right))
    );
    assert_eq!(
        determine_action_to_perform_task((4, 4), (3, 3)),
        Ok(Step::Move(Direction::Left))
    );
}

#[test]
fn orthogonal_neighbour_is_acted_on() {
    assert_eq!(
        determine_action_to_perform_task((4, 4), (3, 4)),
        Ok(Step::Act(Direction::Up))
    );
    assert_eq!(
        determine_action_to_perform_task((4, 4), (5, 4)),
        Ok(Step::Act(Direction::Down))
    );
    assert_eq!(
        determine_action_to_perform_task((4, 4), (4, 3)),
        Ok(Step::Act(Direction::Left))
    );
    assert_eq!(
        determine_action_to_perform_task((4, 4), (4, 5)),
        Ok(Step::Act(Direction::Right))
    );
}

#[test]
fn standing_on_the_target_is_undetermined() {
    assert_eq!(
        determine_action_to_perform_task((4, 4), (4, 4)),
        Err(NavigationUndetermined)
    );
    assert_eq!(
        determine_action_to_perform_task((0, 0), (0, 0)),
        Err(NavigationUndetermined)
    );
}

#[test]
fn far_corners_of_the_grid_do_not_overflow() {
    let far = usize::MAX;
    assert_eq!(
        determine_action_to_perform_task((0, 0), (far, far)),
        Ok(Step::Move(Direction::Down))
    );
    assert_eq!(
        determine_action_to_perform_task((far, far), (0, 0)),
        Ok(Step::Move(Direction::Up))
    );
    assert_eq!(
        determine_action_to_perform_task((far, 0), (far, far)),
        Ok(Step::Move(Direction::Right))
    );
    assert_eq!(
        determine_action_to_perform_task((far, far), (far, far - 1)),
        Ok(Step::Act(Direction::Left))
    );
}

#[test]
fn walking_converges_within_the_manhattan_distance() {
    let targets = [(0, 0), (3, 9), (9, 3), (6, 6), (12, 1)];
    for target in targets {
        for row in 0..13 {
            for col in 0..13 {
                let start = (row, col);
                if start == target {
                    continue;
                }
                let total = manhattan(start, target);
                let mut agent = start;
                let mut moves = 0;
                loop {
                    match determine_action_to_perform_task(agent, target) {
                        Ok(Step::Move(d)) => {
                            let next = step_from(agent, d);
                            assert_eq!(manhattan(next, target) + 1, manhattan(agent, target));
                            agent = next;
                            moves += 1;
                            assert!(moves <= total);
                        }
                        Ok(Step::Act(_)) => break,
                        Err(_) => panic!("walked onto the target from {:?}", start),
                    }
                }
                assert_eq!(moves, total - 1);
                assert_eq!(manhattan(agent, target), 1);
                assert!(matches!(
                    determine_action_to_perform_task(agent, target),
                    Ok(Step::Act(_))
                ));
            }
        }
    }
}
