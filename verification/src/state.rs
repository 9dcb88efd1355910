//! The override intent of an identifier.

use vstd::prelude::*;

verus! {

/// How an identifier takes part in a patch.
#[derive(Clone, Copy, Debug, PartialEq, Eq, Structural)]
pub enum State {
    /// No override intent.
    Included,
    /// Excluded by a rule that names the identifier.
    Excluded,
    /// Excluded because an ancestor is.
    ExcludedByAncestor,
    /// Forced by a rule that names the identifier.
    Forced,
    /// Forced because an ancestor is.
    ForcedByAncestor,
}

impl State {
    /// The state that a node without a rule of its own takes from its parent.
    pub open spec fn inherited(parent: State) -> State {
        match parent {
            State::Included => State::Included,
            State::Excluded | State::ExcludedByAncestor => State::ExcludedByAncestor,
            State::Forced | State::ForcedByAncestor => State::ForcedByAncestor,
        }
    }

    /// The state of a node: forced by name first, excluded by name second,
    /// else what the parent hands down.
    pub open spec fn resolved(forced: bool, excluded: bool, parent: State) -> State {
        if forced {
            State::Forced
        } else if excluded {
            State::Excluded
        } else {
            State::inherited(parent)
        }
    }

    /// Resolves the state of a node from the rules that name it and from its
    /// parent's state.
    pub fn resolve(forced: bool, excluded: bool, parent: State) -> (r: State)
        ensures
            r == State::resolved(forced, excluded, parent),
            forced ==> r == State::Forced,
            !forced && excluded ==> r == State::Excluded,
            !forced && !excluded && (parent == State::Excluded || parent
                == State::ExcludedByAncestor) ==> r == State::ExcludedByAncestor,
            !forced && !excluded && (parent == State::Forced || parent == State::ForcedByAncestor)
                ==> r == State::ForcedByAncestor,
            !forced && !excluded && parent == State::Included ==> r == State::Included,
    {
        if forced {
            State::Forced
        } else if excluded {
            State::Excluded
        } else {
            match parent {
                State::Included => State::Included,
                State::Excluded | State::ExcludedByAncestor => State::ExcludedByAncestor,
                State::Forced | State::ForcedByAncestor => State::ForcedByAncestor,
            }
        }
    }
}

} // verus!
