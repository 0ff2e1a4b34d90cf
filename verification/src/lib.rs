pub mod benchmark;
pub mod game;
pub mod game_objects;
pub mod game_state;
pub mod game_util;
pub mod structs;
pub mod util;

use vstd::prelude::*;

verus! {

} // verus!
