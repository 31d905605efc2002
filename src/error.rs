use vstd::prelude::*;

verus! {

/// Why a recognizer or a rule did not match.
#[derive(Debug, Clone, Copy, PartialEq, Eq, Structural)]
pub enum DateTimeError {
    /// One or two digits were there, but their value is above 12.
    NotMonth,
    /// One or two digits were there, but their value is above 31.
    NotDay,
    /// The hour's two digits have a value above 24.
    NotTimePart,
    /// No non-digit character stands where a separator was looked for.
    NotSeparator,
    /// The expected characters were missing at the given position.
    NoMatch(usize),
}

} // verus!
