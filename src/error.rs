//! Errors raised by the library.

use vstd::prelude::*;

verus! {

/// What went wrong, with the offending text where there is one.
#[derive(Debug, Clone)]
pub enum WallbashError {
    /// A color that is not six hex digits after an optional leading `#`.
    InvalidHexColor(String),
    /// A curve line that does not hold exactly two values.
    CurveLineMalformed(String),
    /// A curve line with a value that is not a decimal number.
    CurveValueInvalid(String),
    /// A curve line with a value above 100.
    CurveValueOutOfRange(String),
    /// More than one color profile was selected.
    ConflictingProfiles,
    /// Both the dark and the light mode were selected.
    ConflictingModes,
    /// Output of the image tool that does not have the expected shape.
    MagickParse(String),
    /// Fewer primary colors could be obtained than were asked for.
    NotEnoughColors { required: usize, found: usize },
    /// An answer or request that does not fit the state of a palette build.
    OutOfTurn,
}

/// The mathematical value of a [`WallbashError`]: texts as character sequences.
pub ghost enum Fault {
    InvalidHexColor(Seq<char>),
    CurveLineMalformed(Seq<char>),
    CurveValueInvalid(Seq<char>),
    CurveValueOutOfRange(Seq<char>),
    ConflictingProfiles,
    ConflictingModes,
    MagickParse(Seq<char>),
    NotEnoughColors { required: nat, found: nat },
    OutOfTurn,
}

impl View for WallbashError {
    type V = Fault;

    open spec fn view(&self) -> Fault {
        match self {
            WallbashError::InvalidHexColor(s) => Fault::InvalidHexColor(s@),
            WallbashError::CurveLineMalformed(s) => Fault::CurveLineMalformed(s@),
            WallbashError::CurveValueInvalid(s) => Fault::CurveValueInvalid(s@),
            WallbashError::CurveValueOutOfRange(s) => Fault::CurveValueOutOfRange(s@),
            WallbashError::ConflictingProfiles => Fault::ConflictingProfiles,
            WallbashError::ConflictingModes => Fault::ConflictingModes,
            WallbashError::MagickParse(s) => Fault::MagickParse(s@),
            WallbashError::NotEnoughColors { required, found } => Fault::NotEnoughColors {
                required: *required as nat,
                found: *found as nat,
            },
            WallbashError::OutOfTurn => Fault::OutOfTurn,
        }
    }
}

impl WallbashError {
    /// Whether the error is a rejection of user-supplied input.
    pub fn is_invalid_input(&self) -> (r: bool)
        ensures
            r == (self is InvalidHexColor || self is CurveLineMalformed
                || self is CurveValueInvalid || self is CurveValueOutOfRange
                || self is ConflictingProfiles || self is ConflictingModes),
    {
        match self {
            WallbashError::MagickParse(_) => false,
            WallbashError::NotEnoughColors { .. } => false,
            WallbashError::OutOfTurn => false,
            _ => true,
        }
    }
}

} // verus!
