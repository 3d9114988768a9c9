//! Operation codes of responses.
use vstd::prelude::*;

verus! {

/// The request failed; a length-prefixed message follows.
pub const ERROR: u8 = 0;

/// A game was created; the host player's id follows.
pub const GAME_CREATED: u8 = 2;

/// A game was joined; the new player's id follows.
pub const GAME_JOINED: u8 = 3;

} // verus!
