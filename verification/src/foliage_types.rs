use vstd::prelude::*;

verus! {

/// One foliage layer's kind: its name and the mesh and material it is drawn with.
#[derive(Clone, Debug)]
pub struct FoliageDefinition {
    pub name: String,
    pub mesh_name: Option<String>,
    pub material_name: Option<String>,
}

/// Which material family a foliage material is built from.
#[derive(Clone, Copy, Debug, PartialEq, Eq, Structural)]
pub enum FoliageMaterialPreset {
    Standard,
    Foliage,
}

impl Default for FoliageMaterialPreset {
    fn default() -> (preset: Self)
        ensures
            preset == FoliageMaterialPreset::Standard,
    {
        FoliageMaterialPreset::Standard
    }
}

} // verus!
