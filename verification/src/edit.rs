use vstd::prelude::*;

use crate::dimensions::IntVec2;
use crate::foliage_density::{FoliageDensityMapU8, FoliageDensityMapsComponent};

verus! {

/// The tool an edit applies.
#[derive(Clone, Copy, Debug, PartialEq, Eq, Structural)]
pub enum EditingTool {
    /// Paints layer `foliage_index` toward density `density`.
    SetFoliageDensity { foliage_index: u8, density: u8 },
}

/// How a brush stroke acts on the cells under it.
#[derive(Clone, Copy, Debug, PartialEq, Eq, Structural)]
pub enum BrushType {
    SetExact,
    Smooth,
    EyeDropper,
}

impl Default for BrushType {
    fn default() -> (brush: Self)
        ensures
            brush == BrushType::SetExact,
    {
        BrushType::SetExact
    }
}

/// The name a brush type is shown under.
pub open spec fn brush_label(brush: BrushType) -> Seq<char> {
    match brush {
        BrushType::SetExact => "SetExact"@,
        BrushType::Smooth => "Smooth"@,
        BrushType::EyeDropper => "EyeDropper"@,
    }
}

impl BrushType {
    /// The name this brush type is shown under.
    pub fn label(&self) -> (label: &'static str)
        ensures
            label@ == brush_label(*self),
            *self == BrushType::SetExact ==> label@ == "SetExact"@,
            *self == BrushType::Smooth ==> label@ == "Smooth"@,
            *self == BrushType::EyeDropper ==> label@ == "EyeDropper"@,
    {
        match self {
            BrushType::SetExact => "SetExact",
            BrushType::Smooth => "Smooth",
            BrushType::EyeDropper => "EyeDropper",
        }
    }
}

/// What a brush reports back to the editor.
#[derive(Clone, Copy, Debug, PartialEq, Eq, Structural)]
pub enum FoliageBrushEvent {
    /// The eye dropper read this density.
    EyeDropFoliageDensity { density: u8 },
}

/// Commands the editor sends to the foliage tool.
#[derive(Clone, Copy, Debug, PartialEq, Eq, Structural)]
pub enum FoliageCommandEvent {
    SaveAll,
}

/// What one tool edit did.
#[derive(Clone, Copy, Debug, PartialEq, Eq, Structural)]
pub enum ToolEditResult {
    /// The scene has no density map for the tool's layer; nothing changed.
    LayerMissing,
    /// The brush was applied to the layer's cells.
    Painted,
    /// The eye dropper read a density.
    Picked(FoliageBrushEvent),
    /// The eye dropper was outside the scene's bounds; nothing was read.
    PickedOutside,
    /// This brush type does nothing yet.
    BrushNotImplemented,
}

/// A brush turned the cell (`x`, `y`) holding `before` into `after`: it either
/// answered `after`, or answered nothing and the cell kept its value.
pub open spec fn brush_applied<F: Fn(usize, usize, u8) -> Option<u8>>(brush: F, x: usize, y: usize, before: u8, after: u8) -> bool {
    ||| brush.ensures((x, y, before), Some(after))
    ||| (after == before && brush.ensures((x, y, before), None))
}

/// `after` is `before` with the brush applied to every cell that lies both in
/// the grid and in the first `width` columns and `height` rows; the grid's shape
/// and all other cells are unchanged.
pub open spec fn painted<F: Fn(usize, usize, u8) -> Option<u8>>(
    before: Seq<Seq<u8>>,
    after: Seq<Seq<u8>>,
    width: nat,
    height: nat,
    brush: F,
) -> bool {
    &&& after.len() == before.len()
    &&& forall|y: int| 0 <= y < before.len() ==> #[trigger] after[y].len() == before[y].len()
    &&& forall|y: int, x: int|
        0 <= y < before.len() && 0 <= x < before[y].len() ==> {
            if x < width && y < height {
                brush_applied(brush, x as usize, y as usize, before[y][x], #[trigger] after[y][x])
            } else {
                after[y][x] == before[y][x]
            }
        }
}

/// Cells of the column done so far (`x` below `col`, or `x == col` and `y` below `row`).
pub open spec fn visited(x: int, y: int, col: int, row: int) -> bool {
    x < col || (x == col && y < row)
}

impl FoliageDensityMapU8 {
    /// Applies `brush` to every cell in the first `width` columns and `height`
    /// rows that the map has, column by column; a cell whose brush answer is
    /// `None` keeps its value.
    pub fn paint_with<F: Fn(usize, usize, u8) -> Option<u8>>(&mut self, width: usize, height: usize, brush: F)
        requires
            forall|x: usize, y: usize, v: u8| brush.requires((x, y, v)),
        ensures
            painted(old(self)@, final(self)@, width as nat, height as nat, brush),
    {
        let ghost before = self@;
        let mut x: usize = 0;
        while x < width
            invariant
                0 <= x <= width,
                forall|x1: usize, y1: usize, v: u8| brush.requires((x1, y1, v)),
                self.0@.len() == before.len(),
                forall|r: int| 0 <= r < before.len() ==> #[trigger] self.0@[r]@.len() == before[r].len(),
                forall|r: int, c: int|
                    0 <= r < before.len() && 0 <= c < before[r].len() ==> {
                        if c < x && r < height {
                            brush_applied(brush, c as usize, r as usize, before[r][c], #[trigger] self.0@[r]@[c])
                        } else {
                            self.0@[r]@[c] == before[r][c]
                        }
                    },
            decreases width - x,
        {
            let mut y: usize = 0;
            while y < height
                invariant
                    0 <= x < width,
                    0 <= y <= height,
                    forall|x1: usize, y1: usize, v: u8| brush.requires((x1, y1, v)),
                    self.0@.len() == before.len(),
                    forall|r: int| 0 <= r < before.len() ==> #[trigger] self.0@[r]@.len() == before[r].len(),
                    forall|r: int, c: int|
                        0 <= r < before.len() && 0 <= c < before[r].len() ==> {
                            if visited(c, r, x as int, y as int) && r < height {
                                brush_applied(brush, c as usize, r as usize, before[r][c], #[trigger] self.0@[r]@[c])
                            } else {
                                self.0@[r]@[c] == before[r][c]
                            }
                        },
                decreases height - y,
            {
                if y < self.0.len() && x < self.0[y].len() {
                    let original_density = self.0[y][x];
                    match brush(x, y, original_density) {
                        Some(new_density) => {
                            self.0[y][x] = new_density;
                        },
                        None => {},
                    }
                }
                y = y + 1;
            }
            x = x + 1;
        }
        proof {
            let after = self@;
            assert forall|r: int| 0 <= r < before.len() implies #[trigger] after[r] == self.0@[r]@ by {}
        }
    }
}

/// The eye dropper, if it lands inside the scene's bounds, lands on a cell
/// that the layer's map has.
pub open spec fn eye_drop_readable(grid: Seq<Seq<u8>>, dimensions: IntVec2, x: usize, y: usize) -> bool {
    eye_drop_inside(dimensions, x, y) ==> (y < grid.len() && x < grid[y as int].len())
}

/// The eye dropper lies inside the scene's bounds, each bound taken as an
/// index (a negative bound wraps around to a large one, as Rust's `as` does).
pub open spec fn eye_drop_inside(dimensions: IntVec2, x: usize, y: usize) -> bool {
    x < dimensions.x as usize && y < dimensions.y as usize
}

/// Bounds on which the exact brush finishes: no negative column count, and
/// no negative row count unless there are no columns at all (the brush then
/// visits nothing). Each bound is taken as an index, as Rust's `as` does.
pub open spec fn exact_brush_bounds_usable(dimensions: IntVec2) -> bool {
    dimensions.x >= 0 && (dimensions.x > 0 ==> dimensions.y >= 0)
}

/// The layer an editing tool works on.
pub open spec fn tool_layer(tool: EditingTool) -> usize {
    match tool {
        EditingTool::SetFoliageDensity { foliage_index, .. } => foliage_index as usize,
    }
}

/// What an eye dropper at (`x`, `y`) reports on a layer holding `grid`.
pub open spec fn eye_drop_result(grid: Seq<Seq<u8>>, dimensions: IntVec2, x: usize, y: usize) -> ToolEditResult {
    if eye_drop_inside(dimensions, x, y) {
        ToolEditResult::Picked(FoliageBrushEvent::EyeDropFoliageDensity { density: grid[y as int][x as int] })
    } else {
        ToolEditResult::PickedOutside
    }
}

/// Whether an edit runs on these inputs: where the tool's layer exists, an
/// exact brush needs usable bounds (`exact_brush_bounds_usable`), and an eye
/// dropper inside the bounds must land on a cell the layer has.
pub fn tool_edit_inputs_ok(
    maps: &FoliageDensityMapsComponent,
    tool: EditingTool,
    brush_type: BrushType,
    dimensions: IntVec2,
    tool_x: usize,
    tool_y: usize,
) -> (ok: bool)
    ensures
        ok == ((brush_type == BrushType::SetExact && maps@.contains_key(tool_layer(tool)) ==> exact_brush_bounds_usable(dimensions))
            && (brush_type == BrushType::EyeDropper && maps@.contains_key(tool_layer(tool))
            ==> eye_drop_readable(maps@[tool_layer(tool)], dimensions, tool_x, tool_y))),
{
    let layer_index = match tool {
        EditingTool::SetFoliageDensity { foliage_index, density: _ } => foliage_index as usize,
    };
    match maps.layer(layer_index) {
        None => true,
        Some(layer) => {
            if brush_type == BrushType::SetExact {
                return dimensions.x >= 0 && (dimensions.x == 0 || dimensions.y >= 0);
            }
            if brush_type != BrushType::EyeDropper {
                return true;
            }
            if tool_x < dimensions.x as usize && tool_y < dimensions.y as usize {
                if tool_y >= layer.0.len() {
                    return false;
                }
                assert(layer@[tool_y as int] == layer.0@[tool_y as int]@);
                tool_x < layer.0[tool_y].len()
            } else {
                true
            }
        },
    }
}

/// Applies one edit of `tool` with a brush of type `brush_type` to the
/// density maps of a scene of size `dimensions`.
///
/// `brush` is the stroke's effect on one cell: given the cell's column, row and
/// density it answers the cell's new density, or `None` for a cell the stroke
/// does not reach. The exact brush paints every cell of the tool's layer that
/// lies inside the scene's bounds; the eye dropper reads the cell at
/// (`tool_x`, `tool_y`); a smoothing brush does nothing yet.
pub fn apply_tool_edit<F: Fn(usize, usize, u8) -> Option<u8>>(
    maps: &mut FoliageDensityMapsComponent,
    tool: EditingTool,
    brush_type: BrushType,
    dimensions: IntVec2,
    tool_x: usize,
    tool_y: usize,
    brush: F,
) -> (result: ToolEditResult)
    requires
        brush_type == BrushType::SetExact && old(maps)@.contains_key(tool_layer(tool)) ==> exact_brush_bounds_usable(dimensions),
        forall|x: usize, y: usize, v: u8| brush.requires((x, y, v)),
        brush_type == BrushType::EyeDropper && old(maps)@.contains_key(tool_layer(tool))
            ==> eye_drop_readable(old(maps)@[tool_layer(tool)], dimensions, tool_x, tool_y),
    ensures
        !old(maps)@.contains_key(tool_layer(tool)) ==> result == ToolEditResult::LayerMissing
            && final(maps)@ == old(maps)@,
        old(maps)@.contains_key(tool_layer(tool)) ==> match brush_type {
            BrushType::SetExact => {
                &&& result == ToolEditResult::Painted
                &&& final(maps)@ == old(maps)@.insert(tool_layer(tool), final(maps)@[tool_layer(tool)])
                &&& painted(
                    old(maps)@[tool_layer(tool)],
                    final(maps)@[tool_layer(tool)],
                    (dimensions.x as usize) as nat,
                    (dimensions.y as usize) as nat,
                    brush,
                )
            },
            BrushType::EyeDropper => {
                &&& result == eye_drop_result(old(maps)@[tool_layer(tool)], dimensions, tool_x, tool_y)
                &&& final(maps)@ == old(maps)@
            },
            BrushType::Smooth => {
                &&& result == ToolEditResult::BrushNotImplemented
                &&& final(maps)@ == old(maps)@
            },
        },
        // The edit acts on the layer whose key is the tool's `foliage_index`,
        // and on no other.
        match tool {
            EditingTool::SetFoliageDensity { foliage_index, .. } => {
                &&& final(maps)@.dom() == old(maps)@.dom()
                &&& forall|k: usize| k != foliage_index as usize && #[trigger] old(maps)@.contains_key(k)
                    ==> final(maps)@[k] == old(maps)@[k]
                &&& (!old(maps)@.contains_key(foliage_index as usize) <==> result == ToolEditResult::LayerMissing)
                &&& old(maps)@.contains_key(foliage_index as usize) && brush_type == BrushType::SetExact
                    ==> painted(
                        old(maps)@[foliage_index as usize],
                        final(maps)@[foliage_index as usize],
                        (dimensions.x as usize) as nat,
                        (dimensions.y as usize) as nat,
                        brush,
                    )
                &&& old(maps)@.contains_key(foliage_index as usize) && brush_type == BrushType::EyeDropper ==> {
                    if tool_x < dimensions.x as usize && tool_y < dimensions.y as usize {
                        result == ToolEditResult::Picked(FoliageBrushEvent::EyeDropFoliageDensity {
                            density: old(maps)@[foliage_index as usize][tool_y as int][tool_x as int],
                        })
                    } else {
                        result == ToolEditResult::PickedOutside
                    }
                }
            },
        },
{
    let layer_index = match tool {
        EditingTool::SetFoliageDensity { foliage_index, density: _ } => foliage_index as usize,
    };
    let ghost before = maps@;
    match maps.layer_mut(layer_index) {
        None => ToolEditResult::LayerMissing,
        Some(layer) => {
            match brush_type {
                BrushType::SetExact => {
                    layer.paint_with(dimensions.x as usize, dimensions.y as usize, brush);
                    ToolEditResult::Painted
                },
                BrushType::EyeDropper => {
                    let result = if tool_x < dimensions.x as usize && tool_y < dimensions.y as usize {
                        assert(layer@[tool_y as int] == layer.0@[tool_y as int]@);
                        let local_data = layer.0[tool_y][tool_x];
                        ToolEditResult::Picked(FoliageBrushEvent::EyeDropFoliageDensity { density: local_data })
                    } else {
                        ToolEditResult::PickedOutside
                    };
                    assert(before.insert(layer_index, layer@) =~= before);
                    result
                },
                BrushType::Smooth => {
                    assert(before.insert(layer_index, layer@) =~= before);
                    ToolEditResult::BrushNotImplemented
                },
            }
        },
    }
}

/// A tool works on the layer its `foliage_index` names.
pub proof fn lemma_tool_works_on_named_layer(tool: EditingTool, foliage_index: u8, density: u8)
    requires
        tool == (EditingTool::SetFoliageDensity { foliage_index, density }),
    ensures
        tool_layer(tool) == foliage_index as usize,
{
}

/// The eye dropper inside the scene's bounds picks the density at row
/// `y`, column `x` of the layer; only outside the bounds does it pick nothing.
pub proof fn lemma_eye_drop_reads_cell_under_tool(grid: Seq<Seq<u8>>, dimensions: IntVec2, x: usize, y: usize)
    ensures
        x < dimensions.x as usize && y < dimensions.y as usize ==> eye_drop_result(grid, dimensions, x, y)
            == ToolEditResult::Picked(FoliageBrushEvent::EyeDropFoliageDensity { density: grid[y as int][x as int] }),
        !(x < dimensions.x as usize && y < dimensions.y as usize) ==> eye_drop_result(grid, dimensions, x, y)
            == ToolEditResult::PickedOutside,
{
}

/// What a stroke writes is what the eye dropper reads back: if the brush
/// answers `density` for a cell inside the scene, the eye dropper on the painted
/// layer at that cell picks `density`.
pub proof fn lemma_eye_drop_reads_painted<F: Fn(usize, usize, u8) -> Option<u8>>(
    before: Seq<Seq<u8>>,
    after: Seq<Seq<u8>>,
    dimensions: IntVec2,
    brush: F,
    x: usize,
    y: usize,
    density: u8,
)
    requires
        painted(before, after, (dimensions.x as usize) as nat, (dimensions.y as usize) as nat, brush),
        eye_drop_inside(dimensions, x, y),
        y < before.len(),
        x < before[y as int].len(),
        forall|answer: Option<u8>| brush.ensures((x, y, before[y as int][x as int]), answer) ==> answer == Some(density),
    ensures
        eye_drop_result(after, dimensions, x, y)
            == ToolEditResult::Picked(FoliageBrushEvent::EyeDropFoliageDensity { density }),
{
    assert(brush_applied(brush, x, y, before[y as int][x as int], after[y as int][x as int]));
}

/// A stroke that reaches no cell leaves the layer as it was.
pub proof fn lemma_stroke_reaching_nothing_changes_nothing<F: Fn(usize, usize, u8) -> Option<u8>>(
    before: Seq<Seq<u8>>,
    after: Seq<Seq<u8>>,
    width: nat,
    height: nat,
    brush: F,
)
    requires
        painted(before, after, width, height, brush),
        forall|x: usize, y: usize, v: u8, answer: Option<u8>| brush.ensures((x, y, v), answer) ==> answer is None,
    ensures
        after == before,
{
    assert forall|r: int| 0 <= r < before.len() implies #[trigger] after[r] =~= before[r] by {
        assert forall|c: int| 0 <= c < before[r].len() implies after[r][c] == before[r][c] by {
            if c < width && r < height {
                assert(brush_applied(brush, c as usize, r as usize, before[r][c], after[r][c]));
            }
        }
    }
    assert(after =~= before);
}

/// A painted layer keeps its shape; a cell inside the first `width` columns
/// and `height` rows (column `x`, row `y`) holds what the brush answered for
/// (`x`, `y`) and the cell's old density, or keeps its density where the brush
/// answered nothing; every other cell keeps its density.
pub proof fn lemma_painted_cells<F: Fn(usize, usize, u8) -> Option<u8>>(
    before: Seq<Seq<u8>>,
    after: Seq<Seq<u8>>,
    width: nat,
    height: nat,
    brush: F,
    x: int,
    y: int,
)
    requires
        painted(before, after, width, height, brush),
        0 <= y < before.len(),
        0 <= x < before[y].len(),
    ensures
        after.len() == before.len(),
        after[y].len() == before[y].len(),
        x < width && y < height ==> brush.ensures((x as usize, y as usize, before[y][x]), Some(after[y][x]))
            || (after[y][x] == before[y][x] && brush.ensures((x as usize, y as usize, before[y][x]), None)),
        !(x < width && y < height) ==> after[y][x] == before[y][x],
{
}

} // verus!
