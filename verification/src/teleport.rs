//! The teleports the agent has come across, by activation state.

use vstd::prelude::*;

verus! {

/// Whether `coordinates` holds `c`.
pub fn holds(coordinates: &Vec<(usize, usize)>, c: (usize, usize)) -> (found: bool)
    ensures
        found == coordinates@.contains(c),
{
    let mut i: usize = 0;
    while i < coordinates.len()
        invariant
            i <= coordinates.len(),
            forall|j: int| 0 <= j < i ==> coordinates@[j] != c,
        decreases coordinates.len() - i,
    {
        if coordinates[i].0 == c.0 && coordinates[i].1 == c.1 {
            return true;
        }
        i += 1;
    }
    false
}

/// The first coordinate of `known`, from index `from` on, that is not
/// `position`.
pub open spec fn first_other_from(known: Seq<(usize, usize)>, position: (usize, usize), from: int) -> Option<
    (usize, usize),
>
    decreases known.len() - from,
{
    if from < 0 || from >= known.len() {
        None
    } else if known[from] != position {
        Some(known[from])
    } else {
        first_other_from(known, position, from + 1)
    }
}

/// The relocation on offer at `position`: the first registered active
/// teleport other than the one stood on, if `position` is itself a
/// registered active teleport.
pub open spec fn shortcut(active: Seq<(usize, usize)>, position: (usize, usize)) -> Option<
    (usize, usize),
> {
    if active.contains(position) {
        first_other_from(active, position, 0)
    } else {
        None
    }
}

/// The coordinates of known teleports, active and inactive apart, each in
/// the order of first sighting. Nothing is ever removed.
pub struct TeleportRegistry {
    active: Vec<(usize, usize)>,
    inactive: Vec<(usize, usize)>,
}

impl TeleportRegistry {
    /// The coordinates registered under the given activation state.
    pub closed spec fn known(&self, active: bool) -> Seq<(usize, usize)> {
        if active {
            self.active@
        } else {
            self.inactive@
        }
    }

    /// No coordinate is registered twice under one activation state.
    pub closed spec fn wf(&self) -> bool {
        self.active@.no_duplicates() && self.inactive@.no_duplicates()
    }

    /// In a well-formed registry no coordinate occurs twice in either list.
    pub proof fn lemma_wf(&self)
        requires
            self.wf(),
        ensures
            self.known(true).no_duplicates(),
            self.known(false).no_duplicates(),
    {
    }

    pub fn new() -> (registry: TeleportRegistry)
        ensures
            registry.wf(),
            registry.known(true) == Seq::<(usize, usize)>::empty(),
            registry.known(false) == Seq::<(usize, usize)>::empty(),
    {
        TeleportRegistry { active: Vec::new(), inactive: Vec::new() }
    }

    pub fn contains(&self, active: bool, c: (usize, usize)) -> (found: bool)
        ensures
            found == self.known(active).contains(c),
    {
        if active {
            holds(&self.active, c)
        } else {
            holds(&self.inactive, c)
        }
    }

    /// The number of coordinates registered under the given state.
    pub fn count(&self, active: bool) -> (n: usize)
        ensures
            n == self.known(active).len(),
    {
        if active {
            self.active.len()
        } else {
            self.inactive.len()
        }
    }

    /// Registers a teleport sighting. Registering a known coordinate again
    /// changes nothing.
    pub fn save(&mut self, active: bool, c: (usize, usize))
        requires
            old(self).wf(),
        ensures
            final(self).wf(),
            final(self).known(!active) == old(self).known(!active),
            final(self).known(active) == saved(old(self).known(active), c),
    {
        if active {
            if !holds(&self.active, c) {
                self.active.push(c);
            }
        } else {
            if !holds(&self.inactive, c) {
                self.inactive.push(c);
            }
        }
        proof {
            lemma_saved_keeps_distinct(old(self).known(active), c);
        }
    }

    /// The relocation target on offer at `position`, if any.
    pub fn shortcut_from(&self, position: (usize, usize)) -> (target: Option<(usize, usize)>)
        ensures
            target == shortcut(self.known(true), position),
    {
        if !holds(&self.active, position) {
            return None;
        }
        let mut i: usize = 0;
        while i < self.active.len()
            invariant
                i <= self.active.len(),
                self.active@.contains(position),
                first_other_from(self.active@, position, 0) == first_other_from(
                    self.active@,
                    position,
                    i as int,
                ),
            decreases self.active.len() - i,
        {
            let candidate = self.active[i];
            if candidate.0 != position.0 || candidate.1 != position.1 {
                assert(self.active@[i as int] != position);
                return Some(candidate);
            }
            assert(self.active@[i as int] == position);
            i += 1;
        }
        None
    }
}

/// A list of coordinates after one more sighting of `c`.
pub open spec fn saved(known: Seq<(usize, usize)>, c: (usize, usize)) -> Seq<(usize, usize)> {
    if known.contains(c) {
        known
    } else {
        known.push(c)
    }
}

/// One more sighting keeps a list free of duplicates, keeps what it held,
/// makes it hold the coordinate sighted, and changes nothing when repeated.
pub proof fn lemma_saved_keeps_distinct(known: Seq<(usize, usize)>, c: (usize, usize))
    requires
        known.no_duplicates(),
    ensures
        saved(known, c).no_duplicates(),
        saved(known, c).contains(c),
        forall|other: (usize, usize)| known.contains(other) ==> saved(known, c).contains(other),
        saved(saved(known, c), c) == saved(known, c),
{
    if !known.contains(c) {
        let grown = known.push(c);
        assert(grown[known.len() as int] == c);
        assert forall|other: (usize, usize)| known.contains(other) implies grown.contains(
            other,
        ) by {
            let i = choose|i: int| 0 <= i < known.len() && known[i] == other;
            assert(grown[i] == other);
        }
    }
}

/// What `first_other_from` finds is a registered coordinate other than
/// `position`, and it finds one whenever one is registered from `from` on.
pub proof fn lemma_first_other(known: Seq<(usize, usize)>, position: (usize, usize), from: int)
    requires
        0 <= from,
    ensures
        match first_other_from(known, position, from) {
            Some(t) => t != position && known.contains(t),
            None => forall|i: int| from <= i < known.len() ==> known[i] == position,
        },
    decreases known.len() - from,
{
    if from < known.len() && known[from] == position {
        lemma_first_other(known, position, from + 1);
    }
}

/// Standing on a registered active teleport while another active teleport
/// is known, a relocation is on offer, and it leads to a registered active
/// teleport other than the one stood on.
pub proof fn lemma_shortcut_taken(
    active: Seq<(usize, usize)>,
    position: (usize, usize),
    other: (usize, usize),
)
    requires
        active.contains(position),
        active.contains(other),
        other != position,
    ensures
        shortcut(active, position) is Some,
        active.contains(shortcut(active, position)->Some_0),
        shortcut(active, position)->Some_0 != position,
        active.len() == 2 && active.no_duplicates() ==> shortcut(active, position) == Some(other),
{
    lemma_first_other(active, position, 0);
    if active.len() == 2 && active.no_duplicates() {
        let t = shortcut(active, position)->Some_0;
        let i = choose|i: int| 0 <= i < active.len() && active[i] == position;
        let j = choose|j: int| 0 <= j < active.len() && active[j] == other;
        let k = choose|k: int| 0 <= k < active.len() && active[k] == t;
        assert(i != j && k != i);
    }
}

} // verus!
