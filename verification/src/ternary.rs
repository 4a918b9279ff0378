use vstd::prelude::*;

verus! {

/// A ternary value: Negative (-1), Zero (0), or Positive (+1).
#[derive(Debug, Clone, Copy, PartialEq, Eq, Hash, Structural)]
pub enum Ternary {
    Negative,
    Zero,
    Positive,
}

impl Ternary {
    /// The integer that a ternary value stands for.
    pub open spec fn spec_value(self) -> int {
        match self {
            Ternary::Negative => -1,
            Ternary::Zero => 0,
            Ternary::Positive => 1,
        }
    }

    /// The ternary value that stands for `v`, if `v` is -1, 0 or 1.
    pub open spec fn spec_from_value(v: int) -> Option<Ternary> {
        if v == -1 {
            Some(Ternary::Negative)
        } else if v == 0 {
            Some(Ternary::Zero)
        } else if v == 1 {
            Some(Ternary::Positive)
        } else {
            None
        }
    }

    /// The value of opposite sign.
    pub open spec fn spec_neg(self) -> Ternary {
        match self {
            Ternary::Negative => Ternary::Positive,
            Ternary::Zero => Ternary::Zero,
            Ternary::Positive => Ternary::Negative,
        }
    }

    pub fn value(self) -> (r: i8)
        ensures
            r == self.spec_value(),
    {
        match self {
            Ternary::Negative => -1,
            Ternary::Zero => 0,
            Ternary::Positive => 1,
        }
    }

    pub fn from_value(v: i8) -> (r: Option<Self>)
        ensures
            r == Self::spec_from_value(v as int),
            r is Some <==> -1 <= v <= 1,
    {
        match v {
            -1 => Some(Ternary::Negative),
            0 => Some(Ternary::Zero),
            1 => Some(Ternary::Positive),
            _ => None,
        }
    }
}

/// Every ternary value is found again from its integer, and every integer
/// that names a ternary value names exactly one.
pub proof fn lemma_value_round_trip(t: Ternary, v: int)
    ensures
        Ternary::spec_from_value(t.spec_value()) == Some(t),
        -1 <= t.spec_value() <= 1,
        Ternary::spec_from_value(v) matches Some(u) ==> u.spec_value() == v,
{
}

} // verus!
