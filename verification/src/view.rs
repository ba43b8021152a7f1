//! Presentation toggles and the view layer's shell. Rendering itself
//! happens outside this crate; these types only carry the settings a
//! renderer reads.

use vstd::prelude::*;

verus! {

/// Which debug overlays a renderer should draw.
#[derive(Clone, Copy, Debug, PartialEq, Eq, Structural)]
pub struct ViewSettings {
    pub show_velocites: bool,
    pub show_contact_points: bool,
    pub show_tiles: bool,
}

impl Default for ViewSettings {
    /// All overlays off.
    fn default() -> (r: ViewSettings)
        ensures
            r == (ViewSettings { show_velocites: false, show_contact_points: false, show_tiles: false }),
    {
        ViewSettings { show_velocites: false, show_contact_points: false, show_tiles: false }
    }
}

/// Settings of the game view; drawing options live in `ViewSettings`.
#[derive(Clone, Copy, Debug, PartialEq, Eq, Structural)]
pub struct GameViewSettings {
}

/// The view layer's shell: it holds the settings a renderer consumes.
#[derive(Clone, Copy, Debug, PartialEq, Eq, Structural)]
pub struct GameView {
    pub settings: GameViewSettings,
}

impl GameView {
    /// A view with stock settings.
    pub fn new() -> (r: GameView)
        ensures
            r == (GameView { settings: GameViewSettings { } }),
    {
        GameView { settings: GameViewSettings { } }
    }
}

} // verus!
