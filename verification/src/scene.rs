//! The scenes of the game.

use vstd::prelude::*;

verus! {

/// The scene that is on screen.
#[derive(Clone, Copy, Debug, PartialEq, Eq, Structural)]
pub enum Scene {
    Loading,
    Login,
    Role,
    Play,
}

} // verus!
