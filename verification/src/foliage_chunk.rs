use vstd::prelude::*;

use crate::dimensions::IntVec2;
use crate::foliage_density::FoliageDensityMapsComponent;
use crate::foliage_layer::grid_u16_view;

verus! {

/// A chunk of a foliage scene, numbered row by row across the scene.
#[derive(Clone, Copy, Debug, PartialEq, Eq, Structural)]
pub struct FoliageChunk {
    pub chunk_id: u32,
}

/// Ground heights under one chunk: `0[y][x]` is the height at column `x`, row `y`.
#[derive(Clone, Debug)]
pub struct FoliageHeightMapData(pub Vec<Vec<u16>>);

impl View for FoliageHeightMapData {
    type V = Seq<Seq<u16>>;

    open spec fn view(&self) -> Seq<Seq<u16>> {
        grid_u16_view(self.0@)
    }
}

/// The extent of the ground that a chunk's data covers.
#[derive(Clone, Copy, Debug, PartialEq, Eq, Structural)]
pub struct FoliageDimensionsData(pub IntVec2);

/// Whether a chunk is close enough to the viewer to carry foliage.
#[derive(Clone, Copy, Debug, PartialEq, Eq, Structural)]
pub enum FoliageChunkActive {
    Deactivated,
    Activated,
}

impl Default for FoliageChunkActive {
    fn default() -> (active: Self)
        ensures
            active == FoliageChunkActive::Deactivated,
    {
        FoliageChunkActive::Deactivated
    }
}

/// Whether a chunk is drawn: as its parent is, or not at all.
#[derive(Clone, Copy, Debug, PartialEq, Eq, Structural)]
pub enum ChunkVisibility {
    Inherited,
    Hidden,
}

/// The activity a chunk should have given whether it lies within render distance.
pub open spec fn wanted_activity(within_render_distance: bool) -> FoliageChunkActive {
    if within_render_distance {
        FoliageChunkActive::Activated
    } else {
        FoliageChunkActive::Deactivated
    }
}

/// Sets a chunk's activity from whether it lies within render distance of the
/// viewer. The value is written only when it changes, so that a change is seen
/// exactly when one happens; the result tells whether it changed.
pub fn update_chunk_active(chunk_active: &mut FoliageChunkActive, within_render_distance: bool) -> (changed: bool)
    ensures
        *final(chunk_active) == wanted_activity(within_render_distance),
        changed == (*old(chunk_active) != wanted_activity(within_render_distance)),
        within_render_distance <==> *final(chunk_active) == FoliageChunkActive::Activated,
        changed <==> *old(chunk_active) != *final(chunk_active),
{
    if within_render_distance {
        if *chunk_active != FoliageChunkActive::Activated {
            *chunk_active = FoliageChunkActive::Activated;
            true
        } else {
            false
        }
    } else {
        if *chunk_active != FoliageChunkActive::Deactivated {
            *chunk_active = FoliageChunkActive::Deactivated;
            true
        } else {
            false
        }
    }
}

/// The visibility a chunk takes from its activity.
pub open spec fn visibility_of(chunk_active: FoliageChunkActive) -> ChunkVisibility {
    match chunk_active {
        FoliageChunkActive::Activated => ChunkVisibility::Inherited,
        FoliageChunkActive::Deactivated => ChunkVisibility::Hidden,
    }
}

/// An active chunk inherits its parent's visibility; an inactive one is hidden.
pub fn update_chunk_visible(chunk_active: FoliageChunkActive) -> (visibility: ChunkVisibility)
    ensures
        visibility == visibility_of(chunk_active),
        visibility == ChunkVisibility::Inherited <==> chunk_active == FoliageChunkActive::Activated,
{
    match chunk_active {
        FoliageChunkActive::Activated => ChunkVisibility::Inherited,
        FoliageChunkActive::Deactivated => ChunkVisibility::Hidden,
    }
}

/// The layers a chunk gets when it is rebuilt: none while it is inactive,
/// otherwise one for every layer that has a density map, each once.
pub fn chunk_layers_to_rebuild(chunk_active: FoliageChunkActive, density_maps: &FoliageDensityMapsComponent) -> (layers: Vec<usize>)
    ensures
        chunk_active == FoliageChunkActive::Deactivated ==> layers@.len() == 0,
        chunk_active == FoliageChunkActive::Activated ==> layers@.no_duplicates()
            && layers@.to_set() == density_maps@.dom(),
{
    if chunk_active == FoliageChunkActive::Deactivated {
        Vec::new()
    } else {
        density_maps.layer_indices()
    }
}

} // verus!
