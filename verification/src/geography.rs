//! The playable area.

use vstd::prelude::*;

verus! {

/// Extent of the map. A hitscan attack reaches as far as the map is wide.
#[derive(Clone, Copy, Debug, PartialEq, Eq, Structural)]
pub struct GameMap {
    pub max_dimension: usize,
}

} // verus!
