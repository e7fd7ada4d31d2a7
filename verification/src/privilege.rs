//! The privilege gate: a total order over privilege levels.

use vstd::prelude::*;

verus! {

/// An ordered capability level gating protected operations.
/// `Basic` is the floor; `Admin` sits above it.
#[derive(Clone, Copy, Debug, PartialEq, Eq, Structural)]
pub enum Privilege {
    Basic,
    Admin,
}

impl Privilege {
    /// The numeric rank that orders the levels.
    pub open spec fn spec_level(self) -> u8 {
        match self {
            Privilege::Basic => 0,
            Privilege::Admin => 1,
        }
    }

    /// Whether a held level suffices for a required one.
    pub open spec fn spec_at_least(self, required: Privilege) -> bool {
        self.spec_level() >= required.spec_level()
    }

    /// The numeric rank of this level, as stored by the persistence layer.
    pub fn level(self) -> (r: u8)
        ensures
            r == self.spec_level(),
    {
        match self {
            Privilege::Basic => 0,
            Privilege::Admin => 1,
        }
    }

    /// The level a stored rank denotes, if any.
    pub fn from(value: u8) -> (r: Option<Privilege>)
        ensures
            value == 0 ==> r == Some(Privilege::Basic),
            value == 1 ==> r == Some(Privilege::Admin),
            value > 1 ==> r is None,
    {
        match value {
            0 => Some(Privilege::Basic),
            1 => Some(Privilege::Admin),
            _ => None,
        }
    }

    /// Whether this held level meets a required one, by the total order.
    pub fn at_least(self, required: Privilege) -> (r: bool)
        ensures
            r == self.spec_at_least(required),
    {
        self.level() >= required.level()
    }
}

/// The order on privilege levels is total.
pub proof fn lemma_at_least_total(a: Privilege, b: Privilege)
    ensures
        a.spec_at_least(b) || b.spec_at_least(a),
{
}

/// The order on privilege levels is reflexive.
pub proof fn lemma_at_least_reflexive(a: Privilege)
    ensures
        a.spec_at_least(a),
{
}

/// `Privilege::Basic` is the floor of the order: every level meets it.
pub proof fn lemma_basic_is_floor(a: Privilege)
    ensures
        a.spec_at_least(Privilege::Basic),
{
}

} // verus!
