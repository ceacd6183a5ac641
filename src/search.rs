use vstd::prelude::*;

verus! {

/// A proven game result for the side to move at a node of the search tree.
#[derive(Clone, Copy, Debug, PartialEq, Eq, Structural)]
pub enum Outcome {
    Win,
    Loss,
}

impl Outcome {
    /// The same result seen from the other side.
    pub open spec fn opposite(self) -> Outcome {
        match self {
            Outcome::Win => Outcome::Loss,
            Outcome::Loss => Outcome::Win,
        }
    }

    /// Inverts the outcome.
    pub fn next(&self) -> (r: Outcome)
        ensures
            r == self.opposite(),
    {
        match self {
            Outcome::Win => Outcome::Loss,
            Outcome::Loss => Outcome::Win,
        }
    }
}

/// What the solver concludes for a node from its children's outcomes, each
/// in the child's own frame: a win if some child is lost for the side to
/// move there; a loss if there are children and all of them are won there;
/// nothing while a child is unsolved.
pub open spec fn solver_verdict(children: Seq<Option<Outcome>>) -> Option<Outcome> {
    if exists|i: int| 0 <= i < children.len() && children[i] == Some(Outcome::Loss) {
        Some(Outcome::Win)
    } else if children.len() > 0 && forall|i: int| 0 <= i < children.len() ==> children[i] is Some {
        Some(Outcome::Loss)
    } else {
        None
    }
}

/// Computes the solver's verdict for a node from its children's outcomes.
pub fn solve_from_children(children: &Vec<Option<Outcome>>) -> (r: Option<Outcome>)
    ensures
        r == solver_verdict(children@),
{
    let mut all = true;
    let mut any_loss = false;
    let mut i: usize = 0;
    while i < children.len()
        invariant
            i <= children@.len(),
            all == forall|k: int| 0 <= k < i ==> children@[k] is Some,
            any_loss == exists|k: int| 0 <= k < i && children@[k] == Some(Outcome::Loss),
        decreases children@.len() - i,
    {
        match children[i] {
            None => {
                all = false;
            },
            Some(Outcome::Loss) => {
                any_loss = true;
            },
            Some(Outcome::Win) => {},
        }
        i = i + 1;
    }
    if any_loss {
        Some(Outcome::Win)
    } else if children.len() > 0 && all {
        Some(Outcome::Loss)
    } else {
        None
    }
}

/// The two events a searcher reports to its pool.
#[derive(Clone, Copy, Debug, PartialEq, Eq, Structural)]
pub enum SearcherEvent {
    Start,
    Finish,
}

impl SearcherEvent {
    /// The state of the status latch that signals the event: set for a start,
    /// clear for a finish.
    pub fn as_bool(&self) -> (r: bool)
        ensures
            r == (*self == SearcherEvent::Start),
    {
        match self {
            SearcherEvent::Start => true,
            SearcherEvent::Finish => false,
        }
    }
}

} // verus!
