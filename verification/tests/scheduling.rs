use trashinator::grid::Cell;
use trashinator::robot::TrashinatorRobot;
use trashinator::task::{Task, TaskAction};

fn pop(robot: &mut TrashinatorRobot) -> Option<Task> {
    robot.determine_current_task();
    let task = robot.current_task();
    if task.is_some() {
        robot.record_outcome(&trashinator::decision::Action::Abandon, true);
    }
    task
}

#[test]
fn priorities_are_fixed_by_the_action() {
    assert_eq!(TaskAction::DestroyFire.get_priority_for_task(), 100);
    assert_eq!(TaskAction::DestroyGarbage.get_priority_for_task(), 50);
    assert_eq!(TaskAction::PutGarbageInBin.get_priority_for_task(), 1);
}

#[test]
fn action_codes_round_trip() {
    for action in [
        TaskAction::DestroyFire,
        TaskAction::DestroyGarbage,
        TaskAction::PutGarbageInBin,
    ] {
        assert_eq!(TaskAction::from_code(action.to_code()), Some(action));
    }
    assert_eq!(TaskAction::DestroyFire.to_code(), 0);
    assert_eq!(TaskAction::DestroyGarbage.to_code(), 1);
    assert_eq!(TaskAction::PutGarbageInBin.to_code(), 2);
    assert_eq!(TaskAction::from_code(3), None);
    assert_eq!(TaskAction::from_code(255), None);
}

#[test]
fn new_task_keeps_action_and_coordinates() {
    let task = Task::new(TaskAction::DestroyGarbage, (3, 8));
    assert_eq!(task.action, TaskAction::DestroyGarbage);
    assert_eq!(task.coordinates, (3, 8));
}

#[test]
fn new_robot_has_nothing_to_do() {
    let mut robot = TrashinatorRobot::new(10);
    assert_eq!(robot.pending_tasks(), 0);
    assert_eq!(robot.current_task(), None);
    assert_eq!(robot.tasks_completed(), 0);
    assert_eq!(robot.tasks_to_complete(), 10);
    assert_eq!(robot.previous_move_direction(), None);
    assert_eq!(robot.previous_one_directional_view_direction(), None);
    assert!(!robot.has_marked((0, 0)));
    robot.determine_current_task();
    assert_eq!(robot.current_task(), None);
}

#[test]
fn same_coordinate_sensed_twice_is_queued_once() {
    let mut robot = TrashinatorRobot::new(10);
    robot.populate_pq(&Cell::Fire, (4, 4), 0);
    assert_eq!(robot.pending_tasks(), 1);
    assert!(robot.has_marked((4, 4)));
    robot.populate_pq(&Cell::Fire, (4, 4), 0);
    assert_eq!(robot.pending_tasks(), 1);
    robot.populate_pq(&Cell::Garbage(3), (4, 4), 0);
    assert_eq!(robot.pending_tasks(), 1);
    assert_eq!(pop(&mut robot), Some(Task::new(TaskAction::DestroyFire, (4, 4))));
    assert_eq!(pop(&mut robot), None);
    robot.populate_pq(&Cell::Fire, (4, 4), 0);
    assert_eq!(robot.pending_tasks(), 0);
    assert_eq!(pop(&mut robot), None);
}

#[test]
fn fire_garbage_deposit_pop_in_that_order_whatever_the_insertion_order() {
    let fire = (Cell::Fire, (1, 1));
    let garbage = (Cell::Garbage(2), (2, 2));
    let bin = (Cell::Bin(10), (3, 3));
    let orders = [
        [fire, garbage, bin],
        [fire, bin, garbage],
        [garbage, fire, bin],
        [garbage, bin, fire],
        [bin, fire, garbage],
        [bin, garbage, fire],
    ];
    for order in orders {
        let mut robot = TrashinatorRobot::new(10);
        for (cell, coordinate) in order {
            robot.populate_pq(&cell, coordinate, 6);
        }
        assert_eq!(robot.pending_tasks(), 3);
        assert_eq!(pop(&mut robot), Some(Task::new(TaskAction::DestroyFire, (1, 1))));
        assert_eq!(pop(&mut robot), Some(Task::new(TaskAction::DestroyGarbage, (2, 2))));
        assert_eq!(pop(&mut robot), Some(Task::new(TaskAction::PutGarbageInBin, (3, 3))));
        assert_eq!(pop(&mut robot), None);
    }
}

#[test]
fn bin_and_fire_found_in_one_tick_fire_goes_first() {
    let mut robot = TrashinatorRobot::new(10);
    robot.populate_pq(&Cell::Bin(10), (2, 2), 6);
    robot.populate_pq(&Cell::Fire, (2, 3), 6);
    assert_eq!(robot.pending_tasks(), 2);
    robot.determine_current_task();
    assert_eq!(
        robot.current_task(),
        Some(Task::new(TaskAction::DestroyFire, (2, 3)))
    );
    assert_eq!(robot.pending_tasks(), 1);
    robot.record_outcome(
        &trashinator::decision::Action::Destroy(trashinator::grid::Direction::Right),
        true,
    );
    robot.determine_current_task();
    assert_eq!(
        robot.current_task(),
        Some(Task::new(TaskAction::PutGarbageInBin, (2, 2)))
    );
    assert_eq!(robot.pending_tasks(), 0);
}

#[test]
fn bin_needs_more_than_five_units_carried() {
    let mut robot = TrashinatorRobot::new(10);
    robot.populate_pq(&Cell::Bin(10), (2, 2), 0);
    robot.populate_pq(&Cell::Bin(10), (2, 2), 5);
    assert_eq!(robot.pending_tasks(), 0);
    assert!(!robot.has_marked((2, 2)));
    robot.populate_pq(&Cell::Bin(10), (2, 2), 6);
    assert_eq!(robot.pending_tasks(), 1);
    assert!(robot.has_marked((2, 2)));
    assert_eq!(TrashinatorRobot::classify(&Cell::Bin(1), 5), None);
    assert_eq!(
        TrashinatorRobot::classify(&Cell::Bin(1), 6),
        Some(TaskAction::PutGarbageInBin)
    );
}

#[test]
fn cells_without_work_queue_nothing() {
    let mut robot = TrashinatorRobot::new(10);
    robot.populate_pq(&Cell::Empty, (1, 1), 9);
    robot.populate_pq(&Cell::Other, (1, 2), 9);
    robot.populate_pq(&Cell::Teleport(true), (1, 3), 9);
    robot.populate_pq(&Cell::Teleport(false), (1, 4), 9);
    assert_eq!(robot.pending_tasks(), 0);
    assert!(!robot.has_marked((1, 1)));
    assert!(!robot.has_marked((1, 3)));
    assert_eq!(TrashinatorRobot::classify(&Cell::Empty, 9), None);
    assert_eq!(TrashinatorRobot::classify(&Cell::Other, 9), None);
    assert_eq!(TrashinatorRobot::classify(&Cell::Teleport(true), 9), None);
    assert_eq!(
        TrashinatorRobot::classify(&Cell::Garbage(0), 0),
        Some(TaskAction::DestroyGarbage)
    );
    assert_eq!(
        TrashinatorRobot::classify(&Cell::Fire, 0),
        Some(TaskAction::DestroyFire)
    );
}

#[test]
fn current_task_is_not_displaced_by_a_more_urgent_one() {
    let mut robot = TrashinatorRobot::new(10);
    robot.populate_pq(&Cell::Garbage(1), (5, 5), 0);
    robot.determine_current_task();
    let garbage = Task::new(TaskAction::DestroyGarbage, (5, 5));
    assert_eq!(robot.current_task(), Some(garbage));
    robot.populate_pq(&Cell::Fire, (6, 6), 0);
    robot.determine_current_task();
    assert_eq!(robot.current_task(), Some(garbage));
    assert_eq!(robot.pending_tasks(), 1);
}

#[test]
fn equal_priorities_all_come_out() {
    let mut robot = TrashinatorRobot::new(10);
    let spots = [(1, 1), (1, 2), (7, 0), (0, 9)];
    for spot in spots {
        robot.populate_pq(&Cell::Garbage(1), spot, 0);
    }
    assert_eq!(robot.pending_tasks(), 4);
    let mut popped = Vec::new();
    while let Some(task) = pop(&mut robot) {
        assert_eq!(task.action, TaskAction::DestroyGarbage);
        popped.push(task.coordinates);
    }
    popped.sort();
    assert_eq!(popped, vec![(0, 9), (1, 1), (1, 2), (7, 0)]);
}
