//! Which screen is active.

use vstd::prelude::*;

verus! {

/// The kind of content on screen: the menus, or the game itself.
#[derive(Clone, Copy, Debug, PartialEq, Eq, Structural)]
pub enum ContentType {
    Menu,
    Game,
}

} // verus!
