//! The tile map's place among the stages of a host program.

use vstd::prelude::*;

verus! {

/// Names the stage that lays out the tile map. The map is presentation and
/// replicates nothing, so the stage carries no state: a host registers it
/// under this name and draws what it likes.
#[derive(Debug, Clone, Copy, PartialEq, Eq, Structural)]
pub struct TileMapPlugin;

impl Default for TileMapPlugin {
    fn default() -> (plugin: TileMapPlugin)
        ensures
            plugin == TileMapPlugin,
    {
        TileMapPlugin
    }
}

} // verus!
