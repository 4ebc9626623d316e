//! Price adjustment modes of kline requests.
use vstd::prelude::*;

verus! {

/// How prices are adjusted for corporate actions.
#[derive(Debug, Clone, Copy, PartialEq, Eq, Structural, Hash)]
pub enum AdjustType {
    /// Forward adjustment (the default).
    Forward,
    /// Backward adjustment.
    Backward,
    /// Additive forward adjustment.
    ForwardAdditive,
    /// Additive backward adjustment.
    BackwardAdditive,
    /// No adjustment.
    Unadjusted,
}

/// The wire code of an adjustment mode.
pub open spec fn adjust_code(a: AdjustType) -> Seq<char> {
    match a {
        AdjustType::Forward => "forward"@,
        AdjustType::Backward => "backward"@,
        AdjustType::ForwardAdditive => "forward_additive"@,
        AdjustType::BackwardAdditive => "backward_additive"@,
        AdjustType::Unadjusted => "none"@,
    }
}

impl AdjustType {
    /// The mode's wire code.
    pub fn as_str(&self) -> (r: &'static str)
        ensures
            r@ == adjust_code(*self),
    {
        match self {
            AdjustType::Forward => "forward",
            AdjustType::Backward => "backward",
            AdjustType::ForwardAdditive => "forward_additive",
            AdjustType::BackwardAdditive => "backward_additive",
            AdjustType::Unadjusted => "none",
        }
    }
}

impl Default for AdjustType {
    fn default() -> (r: Self)
        ensures
            r == AdjustType::Forward,
    {
        AdjustType::Forward
    }
}

} // verus!
