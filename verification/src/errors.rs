use vstd::prelude::*;

verus! {

/// The failures the engine can signal.  `Configuration` is fatal and raised
/// before any round starts (a final-word list that is not a subset of the
/// acceptable list, a malformed or duplicated word list entry).
/// `InvalidGuess` is recoverable: the guess is rejected without consuming an
/// attempt.  `InputExhausted` ends a round or session gracefully when the
/// caller has no more input.  `LengthMismatch` marks a classifier call whose
/// guess and answer lengths differ, a caller contract violation upstream.
#[derive(Clone, Copy, Debug, PartialEq, Eq, Structural)]
pub enum GameError {
    Configuration,
    InvalidGuess,
    InputExhausted,
    LengthMismatch,
}

} // verus!
