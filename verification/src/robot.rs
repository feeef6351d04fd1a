//! The agent: task extraction, scheduling, and the decision of each tick.

use crate::decision::{lemma_after, Action};
use crate::exploration::{calculate_random_direction_with_weighted_previous_direction, may_follow};
use crate::grid::{Cell, Direction};
use crate::navigation::{determine_action_to_perform_task, Step};
use crate::queue::{queue_len, queue_new, queue_pop, queue_push, queued, Entry, TaskQueue};
use crate::schedule::{candidate, lemma_observe, Schedule, DEPOSIT_THRESHOLD};
use crate::state::AiState;
use crate::task::{Task, TaskAction};
use crate::teleport::{holds, TeleportRegistry};
use vstd::prelude::*;
use vstd::set_lib::lemma_map_size;

verus! {

/// The task a queue entry stands for.
spec fn task_of(entry: Entry) -> Task {
    Task {
        action: match TaskAction::of_code(entry.0) {
            Some(action) => action,
            None => TaskAction::DestroyFire,
        },
        coordinates: (entry.1, entry.2),
    }
}

/// The tasks a queue's entries stand for.
spec fn tasks_in(entries: Map<Entry, usize>) -> Set<Task> {
    entries.dom().map(|entry: Entry| task_of(entry))
}

/// Every entry names an action and is stored under that action's priority.
spec fn well_keyed(entries: Map<Entry, usize>) -> bool {
    &&& entries.dom().finite()
    &&& forall|entry: Entry| #[trigger]
        entries.contains_key(entry) ==> TaskAction::of_code(entry.0) is Some && entries[entry]
            == task_of(entry).priority()
}

/// In a well-keyed queue a task is queued exactly when its entry is stored,
/// and there are as many tasks as entries.
proof fn lemma_tasks_in(entries: Map<Entry, usize>)
    requires
        well_keyed(entries),
    ensures
        forall|t: Task| #[trigger] tasks_in(entries).contains(t) <==> entries.contains_key(t.entry()),
        forall|entry: Entry| #[trigger]
            entries.contains_key(entry) ==> task_of(entry).entry() == entry,
        forall|t: Task| #[trigger] task_of(t.entry()) == t,
        tasks_in(entries).finite(),
        tasks_in(entries).len() == entries.len(),
{
    let f = |entry: Entry| task_of(entry);
    assert forall|t: Task| #[trigger] task_of(t.entry()) == t by {
        t.action.lemma_code_round_trip();
    }
    assert forall|entry: Entry| #[trigger] entries.contains_key(entry) implies task_of(
        entry,
    ).entry() == entry by {
        TaskAction::of_code(entry.0)->Some_0.lemma_code_round_trip();
    }
    assert forall|t: Task| #[trigger] tasks_in(entries).contains(t) <==> entries.contains_key(
        t.entry(),
    ) by {
        if tasks_in(entries).contains(t) {
            let e = choose|e: Entry| entries.dom().contains(e) && t == f(e);
            assert(entries.contains_key(e));
        }
        if entries.contains_key(t.entry()) {
            assert(entries.dom().contains(t.entry()) && t == f(t.entry()));
        }
    }
    assert(vstd::relations::injective_on(f, entries.dom())) by {
        assert forall|a: Entry, b: Entry|
            entries.dom().contains(a) && entries.dom().contains(b) && #[trigger] f(a)
                == #[trigger] f(b) implies a == b by {
            assert(entries.contains_key(a) && entries.contains_key(b));
            assert(task_of(a).entry() == a);
            assert(task_of(b).entry() == b);
        }
    }
    lemma_map_size(entries.dom(), tasks_in(entries), f);
}

/// The cleaning agent's decision state. The world, the agent's position and
/// what it carries belong to whoever drives it and are passed in as values.
pub struct TrashinatorRobot {
    pq: TaskQueue,
    current_task: Option<Task>,
    marked_coords: Vec<(usize, usize)>,
    charted_map: TeleportRegistry,
    previous_move_direction: Option<Direction>,
    previous_one_directional_view_direction: Option<Direction>,
    tasks_completed: usize,
    tasks_to_complete: usize,
}

impl View for TrashinatorRobot {
    type V = Schedule;

    closed spec fn view(&self) -> Schedule {
        Schedule {
            pending: tasks_in(queued(self.pq)),
            seen: self.marked_coords@.to_set(),
            current: self.current_task,
            active_teleports: self.charted_map.known(true),
            inactive_teleports: self.charted_map.known(false),
            last_move: self.previous_move_direction,
            last_scan: self.previous_one_directional_view_direction,
            completed: self.tasks_completed as nat,
            goal: self.tasks_to_complete as nat,
        }
    }
}

impl TrashinatorRobot {
    /// The representation is sound and the state it stands for is
    /// consistent.
    pub closed spec fn wf(&self) -> bool {
        &&& well_keyed(queued(self.pq))
        &&& self.marked_coords@.no_duplicates()
        &&& self.charted_map.wf()
        &&& self@.consistent()
    }

    /// A well-formed agent is in a consistent state.
    pub proof fn lemma_wf_consistent(&self)
        requires
            self.wf(),
        ensures
            self@.consistent(),
    {
    }

    /// A new agent that is done after `tasks_to_complete` completions.
    pub fn new(tasks_to_complete: usize) -> (robot: TrashinatorRobot)
        ensures
            robot.wf(),
            robot@ == Schedule::initial(tasks_to_complete as nat),
    {
        let robot = TrashinatorRobot {
            pq: queue_new(),
            current_task: None,
            marked_coords: Vec::new(),
            charted_map: TeleportRegistry::new(),
            previous_move_direction: None,
            previous_one_directional_view_direction: None,
            tasks_completed: 0,
            tasks_to_complete,
        };
        proof {
            robot.charted_map.lemma_wf();
            lemma_tasks_in(queued(robot.pq));
            assert(robot@.pending =~= Set::<Task>::empty());
            assert(robot@.seen =~= Set::<(usize, usize)>::empty());
        }
        robot
    }

    /// The task a cell calls for, if any.
    pub fn classify(cell: &Cell, carried_garbage: usize) -> (action: Option<TaskAction>)
        ensures
            action == candidate(*cell, carried_garbage),
    {
        match cell {
            Cell::Garbage(_) => Some(TaskAction::DestroyGarbage),
            Cell::Fire => Some(TaskAction::DestroyFire),
            Cell::Bin(_) => {
                if carried_garbage > DEPOSIT_THRESHOLD {
                    Some(TaskAction::PutGarbageInBin)
                } else {
                    None
                }
            },
            _ => None,
        }
    }

    /// Takes in one sensed cell: registers a teleport, and queues the task
    /// the cell calls for unless its coordinate was seen before.
    pub fn populate_pq(&mut self, cell: &Cell, coordinate: (usize, usize), carried_garbage: usize)
        requires
            old(self).wf(),
        ensures
            final(self).wf(),
            final(self)@ == old(self)@.observe(*cell, coordinate, carried_garbage),
    {
        proof {
            lemma_observe(self@, *cell, coordinate, carried_garbage);
            lemma_tasks_in(queued(self.pq));
            self.charted_map.lemma_wf();
        }
        match cell {
            Cell::Teleport(active) => {
                self.charted_map.save(*active, coordinate);
            },
            _ => {},
        }
        if let Some(action) = Self::classify(cell, carried_garbage) {
            if !holds(&self.marked_coords, coordinate) {
                self.marked_coords.push(coordinate);
                let priority = action.get_priority_for_task();
                let task = Task::new(action, coordinate);
                let ghost before = queued(self.pq);
                queue_push(&mut self.pq, (action.to_code(), coordinate.0, coordinate.1), priority);
                proof {
                    action.lemma_code_round_trip();
                    assert(queued(self.pq) == before.insert(task.entry(), priority));
                    lemma_tasks_in(queued(self.pq));
                    assert(self@.pending =~= old(self)@.pending.insert(task));
                    assert(self@.seen =~= old(self)@.seen.insert(coordinate)) by {
                        assert forall|c: (usize, usize)|
                            self.marked_coords@.contains(c) <==> (c == coordinate || old(
                                self,
                            ).marked_coords@.contains(c)) by {
                            let grown = self.marked_coords@;
                            let prior = old(self).marked_coords@;
                            assert(grown == prior.push(coordinate));
                            if prior.contains(c) {
                                let i = choose|i: int| 0 <= i < prior.len() && prior[i] == c;
                                assert(grown[i] == c);
                            }
                            if c == coordinate {
                                assert(grown[prior.len() as int] == c);
                            }
                        }
                    }
                }
            }
        }
    }

    /// Makes the highest-priority queued task the current one, unless a
    /// task is already at hand: a current task is never displaced.
    pub fn determine_current_task(&mut self)
        requires
            old(self).wf(),
        ensures
            final(self).wf(),
            old(self)@.schedules(final(self)@),
    {
        proof {
            lemma_tasks_in(queued(self.pq));
        }
        if self.current_task.is_none() {
            match queue_pop(&mut self.pq) {
                Some((entry, _)) => {
                    proof {
                        lemma_tasks_in(queued(self.pq));
                    }
                    match TaskAction::from_code(entry.0) {
                        Some(action) => {
                            let task = Task::new(action, (entry.1, entry.2));
                            self.current_task = Some(task);
                            proof {
                                assert(task == task_of(entry));
                                assert(old(self)@.pending.contains(task));
                                assert(self@.pending =~= old(self)@.pending.remove(task));
                                assert forall|u: Task| #[trigger]
                                    old(self)@.pending.contains(u) implies u.priority()
                                    <= task.priority() by {
                                    assert(queued(old(self).pq).contains_key(u.entry()));
                                }
                            }
                        },
                        None => {
                            proof {
                                assert(false);
                            }
                        },
                    }
                },
                None => {
                    proof {
                        assert(old(self)@.pending =~= Set::<Task>::empty());
                    }
                },
            }
        }
    }

    /// The action of this tick where no draw is needed; `None` when the
    /// agent is idle without a shortcut and has to explore.
    pub fn settled_action(&self, position: (usize, usize), carried_garbage: usize) -> (action:
        Option<Action>)
        ensures
            action == self@.settled(position, carried_garbage),
    {
        match &self.current_task {
            None => match self.charted_map.shortcut_from(position) {
                Some(target) => Some(Action::Relocate(target)),
                None => None,
            },
            Some(task) => match determine_action_to_perform_task(position, task.coordinates) {
                Err(_) => Some(Action::Idle),
                Ok(Step::Move(d)) => Some(Action::Move(d)),
                Ok(Step::Act(d)) => match task.action {
                    TaskAction::PutGarbageInBin => {
                        if carried_garbage > 0 {
                            Some(Action::Deposit(d, carried_garbage))
                        } else {
                            Some(Action::Abandon)
                        }
                    },
                    _ => Some(Action::Destroy(d)),
                },
            },
        }
    }

    /// Decides the action of this tick. Where nothing is settled the agent
    /// explores: it moves in a direction drawn with the way back weighted
    /// down.
    pub fn next_action(&self, position: (usize, usize), carried_garbage: usize) -> (action: Action)
        ensures
            self@.decides(position, carried_garbage, action),
    {
        match self.settled_action(position, carried_garbage) {
            Some(action) => action,
            None => Action::Move(
                calculate_random_direction_with_weighted_previous_direction(
                    &self.previous_move_direction,
                ),
            ),
        }
    }

    /// Records how the action of this tick went.
    pub fn record_outcome(&mut self, action: &Action, succeeded: bool)
        requires
            old(self).wf(),
        ensures
            final(self).wf(),
            final(self)@ == old(self)@.after(*action, succeeded),
    {
        proof {
            lemma_after(self@, *action, succeeded);
        }
        match action {
            Action::Relocate(_) => {},
            Action::Idle => {},
            Action::Move(d) => {
                self.previous_move_direction = Some(*d);
            },
            Action::Abandon => {
                self.current_task = None;
            },
            _ => {
                if succeeded && self.current_task.is_some() {
                    if self.tasks_completed < usize::MAX {
                        self.tasks_completed += 1;
                    }
                    self.current_task = None;
                }
            },
        }
    }

    /// Draws the direction of a directional scan, with the reverse of the
    /// last scan weighted down, and remembers it.
    pub fn choose_scan_direction(&mut self) -> (direction: Direction)
        requires
            old(self).wf(),
        ensures
            final(self).wf(),
            may_follow(old(self)@.last_scan, direction),
            final(self)@ == (Schedule { last_scan: Some(direction), ..old(self)@ }),
    {
        let direction = calculate_random_direction_with_weighted_previous_direction(
            &self.previous_one_directional_view_direction,
        );
        self.previous_one_directional_view_direction = Some(direction);
        direction
    }

    /// Raises the terminate flag of the tick's record once the goal is
    /// reached. Nothing else raises it, and nothing here lowers it.
    pub fn conclude_tick<E>(&self, state: &mut AiState<E>)
        ensures
            final(state).terminate == (old(state).terminate || self@.goal_reached()),
            final(state).events_of_tick@ == old(state).events_of_tick@,
            final(state).discovered_tiles@ == old(state).discovered_tiles@,
    {
        if self.tasks_completed >= self.tasks_to_complete {
            state.terminate = true;
        }
    }

    /// The task being worked on.
    pub fn current_task(&self) -> (task: Option<Task>)
        ensures
            task == self@.current,
    {
        self.current_task
    }

    /// The number of tasks waiting in the queue.
    pub fn pending_tasks(&self) -> (n: usize)
        requires
            self.wf(),
        ensures
            n == self@.pending.len(),
    {
        proof {
            lemma_tasks_in(queued(self.pq));
        }
        queue_len(&self.pq)
    }

    /// Whether a task was ever queued for `coordinate`.
    pub fn has_marked(&self, coordinate: (usize, usize)) -> (seen: bool)
        ensures
            seen == self@.seen.contains(coordinate),
    {
        holds(&self.marked_coords, coordinate)
    }

    /// The teleports known so far.
    pub fn teleports(&self) -> (registry: &TeleportRegistry)
        ensures
            registry.known(true) == self@.active_teleports,
            registry.known(false) == self@.inactive_teleports,
    {
        &self.charted_map
    }

    pub fn tasks_completed(&self) -> (n: usize)
        ensures
            n == self@.completed,
    {
        self.tasks_completed
    }

    pub fn tasks_to_complete(&self) -> (n: usize)
        ensures
            n == self@.goal,
    {
        self.tasks_to_complete
    }

    pub fn previous_move_direction(&self) -> (d: Option<Direction>)
        ensures
            d == self@.last_move,
    {
        self.previous_move_direction
    }

    pub fn previous_one_directional_view_direction(&self) -> (d: Option<Direction>)
        ensures
            d == self@.last_scan,
    {
        self.previous_one_directional_view_direction
    }
}

} // verus!
