//! AArch64 exception levels.
use vstd::prelude::*;

verus! {

#[derive(Clone, Copy, Debug, PartialEq, Eq, Structural)]
pub enum ExceptionLevel {
    El0,
    El1,
    El2,
    El3,
}

/// The level's number, 0 to 3.
pub open spec fn el_index(level: ExceptionLevel) -> int {
    match level {
        ExceptionLevel::El0 => 0,
        ExceptionLevel::El1 => 1,
        ExceptionLevel::El2 => 2,
        ExceptionLevel::El3 => 3,
    }
}

impl ExceptionLevel {
    pub fn from_u8(value: u8) -> (r: Option<ExceptionLevel>)
        ensures
            value <= 3 <==> r is Some,
            r matches Some(l) ==> el_index(l) == value,
    {
        match value {
            0 => Some(ExceptionLevel::El0),
            1 => Some(ExceptionLevel::El1),
            2 => Some(ExceptionLevel::El2),
            3 => Some(ExceptionLevel::El3),
            _ => None,
        }
    }

    /// The level's number, 0 to 3.
    pub fn index(self) -> (v: u8)
        ensures
            v == el_index(self),
    {
        match self {
            ExceptionLevel::El0 => 0,
            ExceptionLevel::El1 => 1,
            ExceptionLevel::El2 => 2,
            ExceptionLevel::El3 => 3,
        }
    }
}

} // verus!
