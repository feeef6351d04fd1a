//! The agent's scheduling state as mathematical values, and the steps that
//! change it.

use crate::grid::{Cell, Direction};
use crate::task::{Task, TaskAction};
use crate::teleport::{lemma_saved_keeps_distinct, saved};
use vstd::prelude::*;

verus! {

/// A bin becomes a deposit task only while more garbage than this is carried.
pub const DEPOSIT_THRESHOLD: usize = 5;

/// The task a sensed cell calls for, if any, given the garbage carried.
pub open spec fn candidate(cell: Cell, carried: usize) -> Option<TaskAction> {
    match cell {
        Cell::Garbage(_) => Some(TaskAction::DestroyGarbage),
        Cell::Fire => Some(TaskAction::DestroyFire),
        Cell::Bin(_) => if carried > DEPOSIT_THRESHOLD {
            Some(TaskAction::PutGarbageInBin)
        } else {
            None
        },
        _ => None,
    }
}

/// Whether taking `top` from the queued tasks `pending` is a rightful pop
/// that leaves `rest`: `top` was queued, nothing queued has a higher
/// priority, and only `top` has left.
pub open spec fn pops(pending: Set<Task>, top: Task, rest: Set<Task>) -> bool {
    &&& pending.contains(top)
    &&& forall|u: Task| #[trigger] pending.contains(u) ==> u.priority() <= top.priority()
    &&& rest == pending.remove(top)
}

/// Everything the agent remembers between ticks.
pub struct Schedule {
    /// The tasks waiting in the queue.
    pub pending: Set<Task>,
    /// The coordinates that already gave rise to a task.
    pub seen: Set<(usize, usize)>,
    /// The task being worked on.
    pub current: Option<Task>,
    /// Known active teleports, in the order of first sighting.
    pub active_teleports: Seq<(usize, usize)>,
    /// Known inactive teleports, in the order of first sighting.
    pub inactive_teleports: Seq<(usize, usize)>,
    /// The direction of the last move attempted.
    pub last_move: Option<Direction>,
    /// The direction of the last directional scan.
    pub last_scan: Option<Direction>,
    /// Tasks completed so far.
    pub completed: nat,
    /// Completions after which the agent is done.
    pub goal: nat,
}

impl Schedule {
    /// The state of a new agent with the given goal.
    pub open spec fn initial(goal: nat) -> Schedule {
        Schedule {
            pending: Set::empty(),
            seen: Set::empty(),
            current: None,
            active_teleports: Seq::empty(),
            inactive_teleports: Seq::empty(),
            last_move: None,
            last_scan: None,
            completed: 0,
            goal,
        }
    }

    /// What always holds of the state: the queue is finite, every queued
    /// task and the current one stem from a seen coordinate, no coordinate
    /// has two tasks, queued or current, and no teleport is registered twice.
    pub open spec fn consistent(self) -> bool {
        &&& self.pending.finite()
        &&& forall|t: Task| #[trigger] self.pending.contains(t) ==> self.seen.contains(t.coordinates)
        &&& forall|t: Task, u: Task|
            #![trigger self.pending.contains(t), self.pending.contains(u)]
            self.pending.contains(t) && self.pending.contains(u) && t.coordinates
                == u.coordinates ==> t == u
        &&& match self.current {
            Some(c) => self.seen.contains(c.coordinates) && forall|t: Task| #[trigger]
                self.pending.contains(t) ==> t.coordinates != c.coordinates,
            None => true,
        }
        &&& self.active_teleports.no_duplicates()
        &&& self.inactive_teleports.no_duplicates()
    }

    /// The state after one more sighting of a teleport.
    pub open spec fn with_teleport(self, active: bool, coordinate: (usize, usize)) -> Schedule {
        if active {
            Schedule { active_teleports: saved(self.active_teleports, coordinate), ..self }
        } else {
            Schedule { inactive_teleports: saved(self.inactive_teleports, coordinate), ..self }
        }
    }

    /// The state after sensing `cell` at `coordinate` while carrying
    /// `carried` units of garbage: a teleport is registered; a cell that
    /// calls for a task at a coordinate not seen before marks the
    /// coordinate and queues the task; nothing else changes.
    pub open spec fn observe(self, cell: Cell, coordinate: (usize, usize), carried: usize) -> Schedule {
        let registered = match cell {
            Cell::Teleport(active) => self.with_teleport(active, coordinate),
            _ => self,
        };
        match candidate(cell, carried) {
            Some(action) => if self.seen.contains(coordinate) {
                registered
            } else {
                Schedule {
                    seen: self.seen.insert(coordinate),
                    pending: self.pending.insert(Task { action, coordinates: coordinate }),
                    ..registered
                }
            },
            None => registered,
        }
    }

    /// The state after sensing each of `sightings` in turn.
    pub open spec fn observe_all(
        self,
        sightings: Seq<(Cell, (usize, usize))>,
        carried: usize,
    ) -> Schedule
        decreases sightings.len(),
    {
        if sightings.len() == 0 {
            self
        } else {
            self.observe_all(sightings.drop_last(), carried).observe(
                sightings.last().0,
                sightings.last().1,
                carried,
            )
        }
    }

    /// Whether `later` may come out of scheduling on `self`: with a task at
    /// hand or an empty queue nothing changes; otherwise a task of highest
    /// priority moves from the queue to the current slot.
    pub open spec fn schedules(self, later: Schedule) -> bool {
        if self.current is Some || self.pending.is_empty() {
            later == self
        } else {
            &&& later.current is Some
            &&& pops(self.pending, later.current->Some_0, later.pending)
            &&& later == Schedule { current: later.current, pending: later.pending, ..self }
        }
    }

    /// Whether the goal has been reached.
    pub open spec fn goal_reached(self) -> bool {
        self.completed >= self.goal
    }

    /// Whether `self` can be a later state of `earlier`: the goal is the
    /// same, and completions, seen coordinates and known teleports have only
    /// grown.
    pub open spec fn follows(self, earlier: Schedule) -> bool {
        &&& self.goal == earlier.goal
        &&& self.completed >= earlier.completed
        &&& earlier.seen.subset_of(self.seen)
        &&& forall|c: (usize, usize)| #[trigger]
            earlier.active_teleports.contains(c) ==> self.active_teleports.contains(c)
        &&& forall|c: (usize, usize)| #[trigger]
            earlier.inactive_teleports.contains(c) ==> self.inactive_teleports.contains(c)
    }
}

/// Sensing keeps the state consistent and only adds to it.
pub proof fn lemma_observe(s: Schedule, cell: Cell, coordinate: (usize, usize), carried: usize)
    requires
        s.consistent(),
    ensures
        s.observe(cell, coordinate, carried).consistent(),
        s.observe(cell, coordinate, carried).follows(s),
        s.observe(cell, coordinate, carried).current == s.current,
        s.observe(cell, coordinate, carried).completed == s.completed,
{
    lemma_saved_keeps_distinct(s.active_teleports, coordinate);
    lemma_saved_keeps_distinct(s.inactive_teleports, coordinate);
}

/// Sensing a whole view keeps the state consistent and only adds to it.
pub proof fn lemma_observe_all(s: Schedule, sightings: Seq<(Cell, (usize, usize))>, carried: usize)
    requires
        s.consistent(),
    ensures
        s.observe_all(sightings, carried).consistent(),
        s.observe_all(sightings, carried).follows(s),
        s.observe_all(sightings, carried).current == s.current,
        s.observe_all(sightings, carried).completed == s.completed,
    decreases sightings.len(),
{
    if sightings.len() > 0 {
        lemma_observe_all(s, sightings.drop_last(), carried);
        lemma_observe(
            s.observe_all(sightings.drop_last(), carried),
            sightings.last().0,
            sightings.last().1,
            carried,
        );
    }
}

/// Sensing one view after another is sensing their concatenation.
pub proof fn lemma_observe_all_concat(
    s: Schedule,
    first: Seq<(Cell, (usize, usize))>,
    second: Seq<(Cell, (usize, usize))>,
    carried: usize,
)
    ensures
        s.observe_all(first + second, carried) == s.observe_all(first, carried).observe_all(
            second,
            carried,
        ),
    decreases second.len(),
{
    if second.len() == 0 {
        assert(first + second =~= first);
    } else {
        lemma_observe_all_concat(s, first, second.drop_last(), carried);
        assert((first + second).drop_last() =~= first + second.drop_last());
        assert((first + second).last() == second.last());
    }
}

/// Sensing a coordinate twice never queues two tasks for it, whatever the
/// two cells and the garbage carried at either time. Once the first sensing
/// has queued a task or found the coordinate seen, the second adds nothing to
/// the queue or to the seen coordinates.
pub proof fn lemma_extraction_idempotent(
    s: Schedule,
    coordinate: (usize, usize),
    first: Cell,
    carried_first: usize,
    second: Cell,
    carried_second: usize,
)
    requires
        s.consistent(),
    ensures
        ({
            let once = s.observe(first, coordinate, carried_first);
            let twice = once.observe(second, coordinate, carried_second);
            &&& twice.consistent()
            &&& forall|t: Task, u: Task|
                #![trigger twice.pending.contains(t), twice.pending.contains(u)]
                twice.pending.contains(t) && twice.pending.contains(u) && t.coordinates
                    == coordinate && u.coordinates == coordinate ==> t == u
            &&& twice.pending.len() <= s.pending.len() + 1
            &&& candidate(first, carried_first) is Some ==> twice.pending == once.pending
                && twice.seen == once.seen
            &&& second == first && carried_second == carried_first ==> twice == once
        }),
{
    let once = s.observe(first, coordinate, carried_first);
    lemma_observe(s, first, coordinate, carried_first);
    lemma_observe(once, second, coordinate, carried_second);
    lemma_saved_keeps_distinct(s.active_teleports, coordinate);
    lemma_saved_keeps_distinct(s.inactive_teleports, coordinate);
    let twice = once.observe(second, coordinate, carried_second);
    if candidate(first, carried_first) is Some {
        assert(once.seen.contains(coordinate));
    } else {
        assert(once.pending == s.pending);
    }
}

/// A fire, some garbage and a bin, each with its coordinate.
pub open spec fn three_finds(
    fire: (usize, usize),
    garbage: (usize, usize),
    amount: usize,
    bin: (usize, usize),
    room: usize,
) -> Set<(Cell, (usize, usize))> {
    Set::empty().insert((Cell::Fire, fire)).insert((Cell::Garbage(amount), garbage)).insert(
        (Cell::Bin(room), bin),
    )
}

/// The tasks a fire, some garbage and a bin give rise to.
pub open spec fn three_tasks(
    fire: (usize, usize),
    garbage: (usize, usize),
    bin: (usize, usize),
) -> Set<Task> {
    Set::empty().insert(Task { action: TaskAction::DestroyFire, coordinates: fire }).insert(
        Task { action: TaskAction::DestroyGarbage, coordinates: garbage },
    ).insert(Task { action: TaskAction::PutGarbageInBin, coordinates: bin })
}

/// A fire, some garbage and a bin sensed in whatever order, at coordinates
/// not seen before, with enough garbage carried and nothing queued, queue
/// the same three tasks.
pub proof fn lemma_three_finds_in_any_order(
    s: Schedule,
    order: Seq<(Cell, (usize, usize))>,
    carried: usize,
    fire: (usize, usize),
    garbage: (usize, usize),
    amount: usize,
    bin: (usize, usize),
    room: usize,
)
    requires
        s.pending == Set::<Task>::empty(),
        !s.seen.contains(fire) && !s.seen.contains(garbage) && !s.seen.contains(bin),
        fire != garbage && garbage != bin && fire != bin,
        carried > DEPOSIT_THRESHOLD,
        order.len() == 3,
        order.to_set() == three_finds(fire, garbage, amount, bin, room),
    ensures
        s.observe_all(order, carried).pending == three_tasks(fire, garbage, bin),
{
    let found = three_finds(fire, garbage, amount, bin, room);
    assert(order.contains(order[0]) && order.contains(order[1]) && order.contains(order[2]));
    assert(found.contains(order[0]) && found.contains(order[1]) && found.contains(order[2]));
    assert(found.contains((Cell::Fire, fire)) && found.contains((Cell::Garbage(amount), garbage))
        && found.contains((Cell::Bin(room), bin)));
    assert(order.contains((Cell::Fire, fire)) && order.contains((Cell::Garbage(amount), garbage))
        && order.contains((Cell::Bin(room), bin)));
    let two = order.drop_last();
    let one = two.drop_last();
    assert(one.drop_last().len() == 0);
    assert(one.last() == order[0] && two.last() == order[1] && order.last() == order[2]);
    let first = s.observe(order[0].0, order[0].1, carried);
    assert(s.observe_all(one.drop_last(), carried) == s);
    assert(s.observe_all(one, carried) == first);
    let second = first.observe(order[1].0, order[1].1, carried);
    assert(s.observe_all(two, carried) == second);
    let third = second.observe(order[2].0, order[2].1, carried);
    assert(s.observe_all(order, carried) == third);
    assert(third.pending =~= three_tasks(fire, garbage, bin));
}

/// With a fire, a garbage and a deposit task queued, in whatever order
/// they came in, three pops give the fire, then the garbage, then the
/// deposit, and leave nothing queued.
pub proof fn lemma_pops_by_priority(
    fire: (usize, usize),
    garbage: (usize, usize),
    bin: (usize, usize),
    first: Task,
    after_first: Set<Task>,
    second: Task,
    after_second: Set<Task>,
    third: Task,
    rest: Set<Task>,
)
    requires
        pops(three_tasks(fire, garbage, bin), first, after_first),
        pops(after_first, second, after_second),
        pops(after_second, third, rest),
    ensures
        first == (Task { action: TaskAction::DestroyFire, coordinates: fire }),
        second == (Task { action: TaskAction::DestroyGarbage, coordinates: garbage }),
        third == (Task { action: TaskAction::PutGarbageInBin, coordinates: bin }),
        rest == Set::<Task>::empty(),
{
    let queue = three_tasks(fire, garbage, bin);
    let f = Task { action: TaskAction::DestroyFire, coordinates: fire };
    let g = Task { action: TaskAction::DestroyGarbage, coordinates: garbage };
    let b = Task { action: TaskAction::PutGarbageInBin, coordinates: bin };
    assert(queue.contains(f) && queue.contains(g) && queue.contains(b));
    assert(first == f);
    assert(after_first.contains(g) && after_first.contains(b));
    assert(second == g);
    assert(after_second.contains(b));
    assert(third == b);
    assert(rest =~= Set::<Task>::empty());
}

/// Scheduling keeps the state consistent and forgets nothing.
pub proof fn lemma_schedules(s: Schedule, later: Schedule)
    requires
        s.consistent(),
        s.schedules(later),
    ensures
        later.consistent(),
        later.follows(s),
{
}

/// `follows` holds of a state and itself, and carries over a chain of states.
pub proof fn lemma_follows_chain(a: Schedule, b: Schedule, c: Schedule)
    requires
        b.follows(a),
        c.follows(b),
    ensures
        a.follows(a),
        c.follows(a),
{
}

/// Once the goal is reached it stays reached in every later state.
pub proof fn lemma_goal_stays_reached(earlier: Schedule, later: Schedule)
    requires
        later.follows(earlier),
        earlier.goal_reached(),
    ensures
        later.goal_reached(),
{
}

} // verus!
