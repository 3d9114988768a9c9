//! Operation codes of requests.
use vstd::prelude::*;

verus! {

/// Create a game under a new name.
pub const NEW_GAME: u8 = 2;

/// Join the game of a given name.
pub const JOIN_GAME: u8 = 3;

} // verus!
