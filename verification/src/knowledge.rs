use vstd::prelude::*;

verus! {

/// A common-knowledge slot for one card of a hand. A freshly dealt card
/// has nothing known about it; richer knowledge tracking belongs to an
/// outside collaborator, so this slot records no detail of its own.
#[derive(Clone, Copy, PartialEq, Eq, Structural, Debug)]
pub struct CardKnowledge {}

impl CardKnowledge {
    /// A fresh slot: nothing is known yet.
    pub fn new() -> (r: CardKnowledge)
        ensures
            r == (CardKnowledge {  }),
    {
        CardKnowledge {  }
    }
}

} // verus!
