//! The options the game is started with.
use vstd::prelude::*;

verus! {

/// Command-line options of the game.
#[derive(Clone, Copy, PartialEq, Eq, Structural, Debug)]
pub struct Cli {
    /// Whether god mode (downing every unit of a side with a key, and the
    /// inspector) is on during battle.
    pub god_mode: bool,
}

impl Cli {
    pub fn new(god_mode: bool) -> (c: Cli)
        ensures
            c.god_mode == god_mode,
    {
        Cli { god_mode }
    }
}

} // verus!
