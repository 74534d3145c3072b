use vstd::prelude::*;

verus! {

/// The ways in which an operation on a key generator can fail.
#[derive(Clone, Copy, Debug, PartialEq, Eq, Structural)]
pub enum GenError {
    /// A class has a nonzero count but no character to draw from.
    MissChar,
    /// A character to delete is not in the alphabet.
    DelNonExistValue,
    /// The unit was set to zero.
    InvalidUnit,
    /// A character is not ASCII, or is an ASCII control character.
    InvalidChar,
    /// A text is not a non-negative decimal integer.
    InvalidNumber,
    /// A key checked against the stored counts has other counts.
    InconsistentField,
    /// A class selector is none of `"L"`, `"S"` and `"N"`.
    InvalidKind,
    /// The requested key is longer than a machine word can count.
    Overflow,
}

impl GenError {
    /// The message that belongs to each kind of failure.
    pub open spec fn text(self) -> Seq<char> {
        match self {
            GenError::MissChar => "The corresponding character is missing!"@,
            GenError::DelNonExistValue => "Delete non-exist value!"@,
            GenError::InvalidUnit => "Require unit to be non-negative"@,
            GenError::InvalidChar => "Require ASCII characters excluded control ones"@,
            GenError::InvalidNumber => "Require Non-negative integer in `&str`"@,
            GenError::InconsistentField => "Require consistent field"@,
            GenError::InvalidKind => "Require one of the kinds `L`, `S` and `N`"@,
            GenError::Overflow => "Require a key length that fits a machine word"@,
        }
    }

    /// A human-readable description of the failure.
    pub fn message(&self) -> (r: String)
        ensures
            r@ == self.text(),
    {
        match self {
            GenError::MissChar => "The corresponding character is missing!".to_owned(),
            GenError::DelNonExistValue => "Delete non-exist value!".to_owned(),
            GenError::InvalidUnit => "Require unit to be non-negative".to_owned(),
            GenError::InvalidChar => "Require ASCII characters excluded control ones".to_owned(),
            GenError::InvalidNumber => "Require Non-negative integer in `&str`".to_owned(),
            GenError::InconsistentField => "Require consistent field".to_owned(),
            GenError::InvalidKind => "Require one of the kinds `L`, `S` and `N`".to_owned(),
            GenError::Overflow => "Require a key length that fits a machine word".to_owned(),
        }
    }
}

} // verus!
