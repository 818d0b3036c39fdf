//! The one way in which building a board can fail.

use vstd::prelude::*;

verus! {

/// A constructor argument that no board can be built from.
#[derive(Clone, Copy, Debug, PartialEq, Eq, Structural)]
pub enum InvalidParameter {
    /// The probability of a live cell does not lie between zero and one.
    Probability,
    /// A width of zero was given for a board built from an array.
    ZeroWidth,
    /// The number of cells is not a whole multiple of the width.
    Length,
}

impl InvalidParameter {
    /// The text of the message, one per variant.
    pub open spec fn text(self) -> Seq<char> {
        match self {
            InvalidParameter::Probability => "p_live must be between 0 and 1"@,
            InvalidParameter::ZeroWidth => "With must be non-zero"@,
            InvalidParameter::Length => "Array length must be an integer multiple of width"@,
        }
    }

    /// A sentence for the user that says which argument was refused.
    pub fn message(&self) -> (msg: String)
        ensures
            msg@ == self.text(),
    {
        match self {
            InvalidParameter::Probability => "p_live must be between 0 and 1".to_owned(),
            InvalidParameter::ZeroWidth => "With must be non-zero".to_owned(),
            InvalidParameter::Length => "Array length must be an integer multiple of width".to_owned(),
        }
    }
}

} // verus!
