use trashinator::grid::{Cell, Direction};
use trashinator::robot::TrashinatorRobot;
use trashinator::sensing::{beam_cells, locate, present_cells};
use trashinator::state::AiState;
use trashinator::task::{Task, TaskAction};

#[test]
fn beam_coordinates_follow_the_direction() {
    let at = (10, 20);
    assert_eq!(locate(at, Direction::Up, 0, 0), Some((9, 19)));
    assert_eq!(locate(at, Direction::Up, 2, 1), Some((7, 20)));
    assert_eq!(locate(at, Direction::Down, 0, 0), Some((11, 19)));
    assert_eq!(locate(at, Direction::Down, 3, 2), Some((14, 21)));
    assert_eq!(locate(at, Direction::Left, 0, 0), Some((9, 19)));
    assert_eq!(locate(at, Direction::Left, 2, 3), Some((11, 16)));
    assert_eq!(locate(at, Direction::Right, 0, 0), Some((9, 21)));
    assert_eq!(locate(at, Direction::Right, 1, 3), Some((10, 24)));
}

#[test]
fn beam_cells_off_the_grid_have_no_coordinate() {
    assert_eq!(locate((0, 0), Direction::Up, 0, 1), None);
    assert_eq!(locate((0, 0), Direction::Down, 0, 0), None);
    assert_eq!(locate((0, 0), Direction::Down, 0, 1), Some((1, 0)));
    assert_eq!(locate((0, 0), Direction::Left, 1, 0), None);
    assert_eq!(locate((0, 0), Direction::Right, 0, 0), None);
    assert_eq!(locate((0, 0), Direction::Right, 1, 0), Some((0, 1)));
    assert_eq!(locate((2, 5), Direction::Up, 2, 1), None);
    assert_eq!(locate((2, 5), Direction::Up, 1, 1), Some((0, 5)));
    let far = usize::MAX;
    assert_eq!(locate((far, far), Direction::Down, 0, 1), None);
    assert_eq!(locate((far, far), Direction::Right, 1, 0), None);
    assert_eq!(locate((far, far), Direction::Up, 0, 1), Some((far - 1, far)));
    assert_eq!(locate((far, 3), Direction::Left, 1, 0), Some((far, 2)));
    assert_eq!(locate((far, 3), Direction::Left, 2, 0), None);
}

#[test]
fn full_view_lists_known_cells_in_order() {
    let view = vec![
        vec![(None, 0, 0), (Some(Cell::Fire), 0, 1)],
        vec![],
        vec![(Some(Cell::Empty), 2, 0), (None, 2, 1), (Some(Cell::Garbage(3)), 2, 2)],
    ];
    assert_eq!(
        present_cells(&view),
        vec![
            (Cell::Fire, (0, 1)),
            (Cell::Empty, (2, 0)),
            (Cell::Garbage(3), (2, 2)),
        ]
    );
    assert_eq!(present_cells(&Vec::new()), Vec::new());
}

#[test]
fn directional_view_is_laid_out_from_the_agent() {
    let view = vec![
        vec![Cell::Empty, Cell::Fire, Cell::Other],
        vec![Cell::Garbage(1), Cell::Empty, Cell::Bin(4)],
    ];
    assert_eq!(
        beam_cells((5, 5), Direction::Up, &view),
        vec![
            (Cell::Empty, (4, 4)),
            (Cell::Fire, (4, 5)),
            (Cell::Other, (4, 6)),
            (Cell::Garbage(1), (3, 4)),
            (Cell::Empty, (3, 5)),
            (Cell::Bin(4), (3, 6)),
        ]
    );
    assert_eq!(
        beam_cells((5, 5), Direction::Left, &view),
        vec![
            (Cell::Empty, (4, 4)),
            (Cell::Fire, (4, 3)),
            (Cell::Other, (4, 2)),
            (Cell::Garbage(1), (5, 4)),
            (Cell::Empty, (5, 3)),
            (Cell::Bin(4), (5, 2)),
        ]
    );
    assert_eq!(
        beam_cells((0, 0), Direction::Down, &view),
        vec![
            (Cell::Fire, (1, 0)),
            (Cell::Other, (1, 1)),
            (Cell::Empty, (2, 0)),
            (Cell::Bin(4), (2, 1)),
        ]
    );
}

#[test]
fn every_known_cell_is_logged_and_work_is_queued() {
    let mut robot = TrashinatorRobot::new(5);
    let mut state: AiState<u32> = AiState::new();
    let view = vec![
        vec![(Some(Cell::Empty), 1, 1), (Some(Cell::Garbage(2)), 1, 2), (None, 1, 3)],
        vec![(Some(Cell::Teleport(true)), 2, 1), (Some(Cell::Fire), 2, 2), (Some(Cell::Bin(3)), 2, 3)],
    ];
    robot.discover_tiles_and_populate_pq(&mut state, &view, 2);
    assert_eq!(
        state.discovered_tiles,
        vec![
            (Cell::Empty, (1, 1)),
            (Cell::Garbage(2), (1, 2)),
            (Cell::Teleport(true), (2, 1)),
            (Cell::Fire, (2, 2)),
            (Cell::Bin(3), (2, 3)),
        ]
    );
    assert_eq!(robot.pending_tasks(), 2);
    assert!(robot.teleports().contains(true, (2, 1)));
    assert!(robot.has_marked((1, 2)));
    assert!(robot.has_marked((2, 2)));
    assert!(!robot.has_marked((2, 3)));
    robot.determine_current_task();
    assert_eq!(
        robot.current_task(),
        Some(Task::new(TaskAction::DestroyFire, (2, 2)))
    );
}

#[test]
fn sensing_again_logs_again_but_queues_nothing_new() {
    let mut robot = TrashinatorRobot::new(5);
    let mut state: AiState<u32> = AiState::new();
    let view = vec![vec![(Some(Cell::Fire), 2, 2), (Some(Cell::Teleport(false)), 2, 3)]];
    robot.discover_tiles_and_populate_pq(&mut state, &view, 0);
    state.reset();
    robot.discover_tiles_and_populate_pq(&mut state, &view, 0);
    assert_eq!(state.discovered_tiles.len(), 2);
    assert_eq!(robot.pending_tasks(), 1);
    assert_eq!(robot.teleports().count(false), 1);
}

#[test]
fn directional_view_feeds_the_queue() {
    let mut robot = TrashinatorRobot::new(5);
    let mut state: AiState<u32> = AiState::new();
    let view = vec![vec![Cell::Empty, Cell::Garbage(1), Cell::Empty], vec![Cell::Fire]];
    robot.discover_tiles_one_direction_and_populate_pq(
        &mut state,
        (5, 5),
        Direction::Right,
        &view,
        0,
    );
    assert_eq!(
        state.discovered_tiles,
        vec![
            (Cell::Empty, (4, 6)),
            (Cell::Garbage(1), (4, 7)),
            (Cell::Empty, (4, 8)),
            (Cell::Fire, (5, 6)),
        ]
    );
    assert_eq!(robot.pending_tasks(), 2);
    robot.determine_current_task();
    assert_eq!(
        robot.current_task(),
        Some(Task::new(TaskAction::DestroyFire, (5, 6)))
    );
}

#[test]
fn take_in_keeps_what_was_logged_before() {
    let mut robot = TrashinatorRobot::new(5);
    let mut state: AiState<u32> = AiState::new();
    state.handle_event(1);
    robot.take_in(&mut state, &vec![(Cell::Fire, (1, 1))], 0);
    robot.take_in(&mut state, &vec![(Cell::Other, (1, 2))], 0);
    assert_eq!(
        state.discovered_tiles,
        vec![(Cell::Fire, (1, 1)), (Cell::Other, (1, 2))]
    );
    assert_eq!(state.events_of_tick, vec![1]);
    assert!(!state.terminate);
}

#[test]
fn reset_empties_the_record() {
    let mut state: AiState<u32> = AiState::new();
    state.handle_event(3);
    state.handle_event(4);
    state.discovered_tiles.push((Cell::Fire, (1, 1)));
    state.terminate = true;
    assert_eq!(state.events_of_tick, vec![3, 4]);
    state.reset();
    assert!(state.events_of_tick.is_empty());
    assert!(state.discovered_tiles.is_empty());
    assert!(!state.terminate);
}
