use vstd::prelude::*;

use crate::dimensions::IntVec2;
use crate::foliage_chunk::FoliageHeightMapData;
use crate::foliage_density::{
    chunk_sub_section, sub_section_arguments_valid, FoliageDensityMapU8, FoliageDensityMapsComponent,
};
use crate::foliage_types::FoliageDefinition;

verus! {

/// One layer of foliage within a chunk.
#[derive(Clone, Copy, Debug, PartialEq, Eq, Structural)]
pub struct FoliageChunkLayer {
    pub layer_index: usize,
}

/// A grid point of a chunk where a foliage node is placed, with what was read
/// there: the ground height, the painted density and the noise sample.
#[derive(Clone, Copy, Debug, PartialEq, Eq, Structural)]
pub struct FoliageSpawnSample {
    pub x: usize,
    pub y: usize,
    pub height: u16,
    pub density: u8,
    pub noise: u8,
}

/// The cells of a noise texture, where it has any.
pub open spec fn noise_view(noise: Option<Vec<u8>>) -> Option<Seq<u8>> {
    match noise {
        Some(data) => Some(data@),
        None => None,
    }
}

/// The noise texel that grid point (`x`, `y`) samples: the texture is read as
/// rows of 256 texels and wraps around at its end.
pub open spec fn noise_index(x: int, y: int, len: int) -> int {
    (y * 256 + x) % len
}

/// What grid point (`x`, `y`) gives: a node where some density is painted and
/// it is at least the noise sample there; nothing where nothing is painted,
/// where the density is lower than the noise, or where there is no noise texture.
pub open spec fn spawn_sample_at(
    density: Seq<Seq<u8>>,
    height: Seq<Seq<u16>>,
    noise: Option<Seq<u8>>,
    x: int,
    y: int,
) -> Option<FoliageSpawnSample> {
    match noise {
        None => None,
        Some(data) => {
            let n = data[noise_index(x, y, data.len() as int)];
            let d = density[y][x];
            if d == 0 || d < n {
                None
            } else {
                Some(FoliageSpawnSample { x: x as usize, y: y as usize, height: height[y][x], density: d, noise: n })
            }
        },
    }
}

/// Grid point (`x`, `y`) can be sampled: both maps have the cell, and a noise
/// texture, if there is one, is not empty and its index fits in `usize`.
pub open spec fn spawn_readable(
    density: Seq<Seq<u8>>,
    height: Seq<Seq<u16>>,
    noise: Option<Seq<u8>>,
    x: int,
    y: int,
) -> bool {
    &&& 0 <= y < density.len() && 0 <= x < density[y].len()
    &&& 0 <= y < height.len() && 0 <= x < height[y].len()
    &&& noise matches Some(data) ==> data.len() > 0 && y * 256 + x <= usize::MAX
}

/// Decides whether a foliage node grows at (`x`, `y`) of a chunk, by comparing
/// the painted density there with the noise texture's sample. Where nothing
/// is painted (density 0), nothing grows.
///
/// Densities and noise samples are bytes; comparing them directly is the same
/// as comparing them after scaling both by 1/255.
pub fn get_foliage_node_spawn_sample(
    x: usize,
    y: usize,
    chunk_height_data: &FoliageHeightMapData,
    chunk_density_map: &FoliageDensityMapU8,
    noise_texture_data: &Option<Vec<u8>>,
) -> (sample: Option<FoliageSpawnSample>)
    requires
        spawn_readable(chunk_density_map@, chunk_height_data@, noise_view(*noise_texture_data), x as int, y as int),
    ensures
        sample == spawn_sample_at(chunk_density_map@, chunk_height_data@, noise_view(*noise_texture_data), x as int, y as int),
        // The noise texture is read as rows of 256 texels, `y` the row.
        noise_texture_data is None ==> sample is None,
        noise_texture_data matches Some(data) ==> {
            let texel = data@[(y * 256 + x) % data@.len() as int];
            let density = chunk_density_map@[y as int][x as int];
            &&& (sample is Some <==> density > 0 && density >= texel)
            &&& sample matches Some(s) ==> s == (FoliageSpawnSample {
                x,
                y,
                height: chunk_height_data@[y as int][x as int],
                density,
                noise: texel,
            })
        },
{
    proof {
        assert(chunk_density_map@[y as int] == chunk_density_map.0@[y as int]@);
        assert(chunk_height_data@[y as int] == chunk_height_data.0@[y as int]@);
    }
    let density_at_point = chunk_density_map.0[y][x];
    let height_at_point = chunk_height_data.0[y][x];
    match noise_texture_data {
        None => None,
        Some(noise_data) => {
            let noise_tex_data_index = (y * 256 + x) % noise_data.len();
            let noise_sample_at_point = noise_data[noise_tex_data_index];
            if density_at_point == 0 || density_at_point < noise_sample_at_point {
                None
            } else {
                Some(
                    FoliageSpawnSample {
                        x,
                        y,
                        height: height_at_point,
                        density: density_at_point,
                        noise: noise_sample_at_point,
                    },
                )
            }
        },
    }
}

/// How many of the numbers `0, 2, 4, ...` lie below `n`.
pub open spec fn every_other(n: int) -> nat {
    if n <= 0 {
        0
    } else {
        ((n + 1) / 2) as nat
    }
}

/// The grid points `(x, 0), (x, 2), ...`, `count_y` of them.
pub open spec fn column_positions(x: int, count_y: nat) -> Seq<(int, int)> {
    Seq::new(count_y, |j: int| (x, 2 * j))
}

/// The grid points of the first `count_x` even columns, column by column,
/// `count_y` even rows each.
pub open spec fn grid_positions(count_x: nat, count_y: nat) -> Seq<(int, int)>
    decreases count_x,
{
    if count_x == 0 {
        Seq::empty()
    } else {
        grid_positions((count_x - 1) as nat, count_y) + column_positions(2 * (count_x - 1), count_y)
    }
}

/// The nodes that the grid points `positions` give, in their order.
pub open spec fn spawned(
    positions: Seq<(int, int)>,
    density: Seq<Seq<u8>>,
    height: Seq<Seq<u16>>,
    noise: Option<Seq<u8>>,
) -> Seq<FoliageSpawnSample>
    decreases positions.len(),
{
    if positions.len() == 0 {
        Seq::empty()
    } else {
        let rest = spawned(positions.drop_last(), density, height, noise);
        match spawn_sample_at(density, height, noise, positions.last().0, positions.last().1) {
            Some(s) => rest.push(s),
            None => rest,
        }
    }
}

/// The even grid points of a chunk of `dimensions`, column by column.
pub open spec fn chunk_sample_positions(dimensions: IntVec2) -> Seq<(int, int)> {
    grid_positions(every_other(dimensions.x as int), every_other(dimensions.y as int))
}

/// Every even grid point of a chunk of `dimensions` can be sampled.
pub open spec fn chunk_nodes_readable(
    density: Seq<Seq<u8>>,
    height: Seq<Seq<u16>>,
    noise: Option<Seq<u8>>,
    dimensions: IntVec2,
) -> bool {
    forall|x: int, y: int|
        0 <= x < dimensions.x && 0 <= y < dimensions.y && x % 2 == 0 && y % 2 == 0
            ==> #[trigger] spawn_readable(density, height, noise, x, y)
}

/// Why a chunk layer cannot be built.
#[derive(Clone, Copy, Debug, PartialEq, Eq, Structural)]
pub enum ChunkLayerError {
    /// The manifest has no foliage definition for the layer.
    MissingDefinition,
    /// The scene has no density map for the layer.
    MissingDensityMap,
}

/// The number of chunks per row as the density map's chunk numbering sees it.
pub open spec fn chunk_rows_u32(chunk_rows: usize) -> u32 {
    (chunk_rows as i32) as u32
}

/// The part of layer `layer_index`'s density map that chunk `chunk_id` covers.
pub open spec fn chunk_layer_density(
    density_maps: Map<usize, Seq<Seq<u8>>>,
    layer_index: usize,
    chunk_id: u32,
    chunk_rows: usize,
    dimensions: IntVec2,
) -> Seq<Seq<u8>> {
    chunk_sub_section(density_maps[layer_index], chunk_id, chunk_rows_u32(chunk_rows), dimensions)
}

/// The inputs on which building a chunk layer runs to the end, given that the
/// layer has a definition and a density map.
pub open spec fn chunk_layer_inputs_valid(
    density_maps: Map<usize, Seq<Seq<u8>>>,
    layer_index: usize,
    chunk_id: u32,
    chunk_rows: usize,
    dimensions: IntVec2,
    height: Seq<Seq<u16>>,
    noise: Option<Seq<u8>>,
) -> bool {
    &&& sub_section_arguments_valid(density_maps[layer_index], chunk_id, chunk_rows_u32(chunk_rows), dimensions)
    &&& chunk_nodes_readable(
        chunk_layer_density(density_maps, layer_index, chunk_id, chunk_rows, dimensions),
        height,
        noise,
        dimensions,
    )
}

/// Whether building the chunk layer runs on these inputs: it does where the
/// layer lacks a definition or a density map (the build stops there), and
/// otherwise exactly where `chunk_layer_inputs_valid` holds.
pub fn chunk_layer_inputs_ok(
    chunk_id: u32,
    chunk_rows: usize,
    layer_index: usize,
    foliage_definitions: &Vec<FoliageDefinition>,
    density_maps: &FoliageDensityMapsComponent,
    dimensions: IntVec2,
    chunk_height_data: &FoliageHeightMapData,
    noise_texture_data: &Option<Vec<u8>>,
) -> (ok: bool)
    ensures
        ok == (layer_index < foliage_definitions@.len() && density_maps@.contains_key(layer_index)
            ==> chunk_layer_inputs_valid(
                density_maps@,
                layer_index,
                chunk_id,
                chunk_rows,
                dimensions,
                chunk_height_data@,
                noise_view(*noise_texture_data),
            )),
{
    if layer_index >= foliage_definitions.len() {
        return true;
    }
    let layer_density_map = match density_maps.layer(layer_index) {
        Some(m) => m,
        None => {
            return true;
        },
    };
    let rows = chunk_rows as i32 as u32;
    if !layer_density_map.sub_section_arguments_ok(chunk_id, rows, dimensions) {
        return false;
    }
    let ghost density = chunk_layer_density(density_maps@, layer_index, chunk_id, chunk_rows, dimensions);
    let ghost height = chunk_height_data@;
    let ghost noise = noise_view(*noise_texture_data);
    let width = dimensions.x as usize;
    let depth = dimensions.y as usize;
    let mut x: usize = 0;
    while x < width
        invariant
            x % 2 == 0,
            x <= width + 1,
            width == dimensions.x,
            depth == dimensions.y,
            dimensions.is_nonnegative(),
            density.len() == depth,
            forall|r: int| 0 <= r < depth ==> #[trigger] density[r].len() == width,
            height == chunk_height_data@,
            noise == noise_view(*noise_texture_data),
            layer_index < foliage_definitions@.len(),
            density_maps@.contains_key(layer_index),
            density == chunk_layer_density(density_maps@, layer_index, chunk_id, chunk_rows, dimensions),
            sub_section_arguments_valid(density_maps@[layer_index], chunk_id, chunk_rows_u32(chunk_rows), dimensions),
            forall|a: int, b: int| 0 <= a < x && 0 <= b < depth && a % 2 == 0 && b % 2 == 0
                ==> #[trigger] spawn_readable(density, height, noise, a, b),
        decreases width + 1 - x,
    {
        let mut y: usize = 0;
        while y < depth
            invariant
                x % 2 == 0,
                x < width,
                y % 2 == 0,
                y <= depth + 1,
                width == dimensions.x,
                depth == dimensions.y,
                dimensions.is_nonnegative(),
                density.len() == depth,
                forall|r: int| 0 <= r < depth ==> #[trigger] density[r].len() == width,
                height == chunk_height_data@,
                noise == noise_view(*noise_texture_data),
                layer_index < foliage_definitions@.len(),
                density_maps@.contains_key(layer_index),
                density == chunk_layer_density(density_maps@, layer_index, chunk_id, chunk_rows, dimensions),
                forall|a: int, b: int| 0 <= a < x && 0 <= b < depth && a % 2 == 0 && b % 2 == 0
                    ==> #[trigger] spawn_readable(density, height, noise, a, b),
                forall|b: int| 0 <= b < y && b % 2 == 0 ==> #[trigger] spawn_readable(density, height, noise, x as int, b),
            decreases depth + 1 - y,
        {
            if y >= chunk_height_data.0.len() {
                assert(!spawn_readable(density, height, noise, x as int, y as int));
                return false;
            }
            proof {
                assert(height[y as int] == chunk_height_data.0@[y as int]@);
            }
            if x >= chunk_height_data.0[y].len() {
                assert(!spawn_readable(density, height, noise, x as int, y as int));
                return false;
            }
            match noise_texture_data {
                Some(data) => {
                    if data.len() == 0 || (y as u128) * 256 + (x as u128) > usize::MAX as u128 {
                        assert(!spawn_readable(density, height, noise, x as int, y as int));
                        return false;
                    }
                },
                None => {},
            }
            assert(spawn_readable(density, height, noise, x as int, y as int));
            y = y + 2;
        }
        x = x + 2;
    }
    true
}

/// What a chunk layer is built from, checked before anything is read: the
/// layer needs a foliage definition, then a density map.
pub fn check_chunk_layer_sources(
    layer_index: usize,
    foliage_definitions: &Vec<FoliageDefinition>,
    density_maps: &FoliageDensityMapsComponent,
) -> (checked: Result<(), ChunkLayerError>)
    ensures
        layer_index >= foliage_definitions@.len() ==> checked == Err::<(), _>(ChunkLayerError::MissingDefinition),
        layer_index < foliage_definitions@.len() && !density_maps@.contains_key(layer_index)
            ==> checked == Err::<(), _>(ChunkLayerError::MissingDensityMap),
        layer_index < foliage_definitions@.len() && density_maps@.contains_key(layer_index) ==> checked is Ok,
{
    if layer_index >= foliage_definitions.len() {
        return Err(ChunkLayerError::MissingDefinition);
    }
    match density_maps.layer(layer_index) {
        Some(_) => Ok(()),
        None => Err(ChunkLayerError::MissingDensityMap),
    }
}

/// The foliage nodes of layer `layer_index` in chunk `chunk_id`.
///
/// The chunk's cut of the layer's density map is taken (chunks numbered row by
/// row, `chunk_rows` per row, each as large as `dimensions`), and every second
/// grid point in both directions is sampled, column by column; the result lists
/// the points that grow a node, in that order.
pub fn plan_chunk_layer_nodes(
    chunk_id: u32,
    chunk_rows: usize,
    layer_index: usize,
    foliage_definitions: &Vec<FoliageDefinition>,
    density_maps: &FoliageDensityMapsComponent,
    dimensions: IntVec2,
    chunk_height_data: &FoliageHeightMapData,
    noise_texture_data: &Option<Vec<u8>>,
) -> (nodes: Result<Vec<FoliageSpawnSample>, ChunkLayerError>)
    requires
        layer_index < foliage_definitions@.len() && density_maps@.contains_key(layer_index)
            ==> chunk_layer_inputs_valid(
                density_maps@,
                layer_index,
                chunk_id,
                chunk_rows,
                dimensions,
                chunk_height_data@,
                noise_view(*noise_texture_data),
            ),
    ensures
        layer_index >= foliage_definitions@.len() ==> nodes == Err::<Vec<FoliageSpawnSample>, _>(ChunkLayerError::MissingDefinition),
        layer_index < foliage_definitions@.len() && !density_maps@.contains_key(layer_index)
            ==> nodes == Err::<Vec<FoliageSpawnSample>, _>(ChunkLayerError::MissingDensityMap),
        layer_index < foliage_definitions@.len() && density_maps@.contains_key(layer_index) ==> {
            &&& nodes is Ok
            &&& nodes->Ok_0@ == spawned(
                chunk_sample_positions(dimensions),
                chunk_layer_density(density_maps@, layer_index, chunk_id, chunk_rows, dimensions),
                chunk_height_data@,
                noise_view(*noise_texture_data),
            )
        },
{
    match check_chunk_layer_sources(layer_index, foliage_definitions, density_maps) {
        Err(e) => {
            return Err(e);
        },
        Ok(()) => {},
    }
    let layer_density_map = match density_maps.layer(layer_index) {
        Some(m) => m,
        None => {
            return Err(ChunkLayerError::MissingDensityMap);
        },
    };
    let rows = chunk_rows as i32 as u32;
    let chunk_dimensions = IntVec2 { x: dimensions.x / 1, y: dimensions.y / 1 };
    assert(chunk_dimensions == dimensions);
    let chunk_density_map = layer_density_map.get_sub_section_by_chunk_id(chunk_id, rows, chunk_dimensions);
    let ghost density = chunk_density_map@;
    let ghost height = chunk_height_data@;
    let ghost noise = noise_view(*noise_texture_data);
    let ghost count_y = every_other(dimensions.y as int);
    let width = chunk_dimensions.x as usize;
    let depth = chunk_dimensions.y as usize;
    let mut nodes: Vec<FoliageSpawnSample> = Vec::new();
    let ghost mut visited: Seq<(int, int)> = Seq::empty();
    let ghost mut column: nat = 0;
    let mut x: usize = 0;
    while x < width
        invariant
            x == 2 * column,
            x <= width + 1,
            width == dimensions.x,
            depth == dimensions.y,
            dimensions.is_nonnegative(),
            density == chunk_density_map@,
            density.len() == depth,
            forall|r: int| 0 <= r < depth ==> #[trigger] density[r].len() == width,
            chunk_nodes_readable(density, height, noise, dimensions),
            height == chunk_height_data@,
            noise == noise_view(*noise_texture_data),
            count_y == every_other(depth as int),
            visited == grid_positions(column, count_y),
            nodes@ == spawned(visited, density, height, noise),
        decreases width + 1 - x,
    {
        let ghost column_start = visited;
        let ghost mut row: nat = 0;
        let mut y: usize = 0;
        while y < depth
            invariant
                x == 2 * column,
                x < width,
                y == 2 * row,
                y <= depth + 1,
                width == dimensions.x,
                depth == dimensions.y,
                dimensions.is_nonnegative(),
                density == chunk_density_map@,
                density.len() == depth,
                forall|r: int| 0 <= r < depth ==> #[trigger] density[r].len() == width,
                chunk_nodes_readable(density, height, noise, dimensions),
                height == chunk_height_data@,
                noise == noise_view(*noise_texture_data),
                column_start == grid_positions(column, count_y),
                visited == column_start + column_positions(x as int, row),
                nodes@ == spawned(visited, density, height, noise),
            decreases depth + 1 - y,
        {
            assert(spawn_readable(density, height, noise, x as int, y as int));
            let sample = get_foliage_node_spawn_sample(x, y, chunk_height_data, &chunk_density_map, noise_texture_data);
            proof {
                let next = visited.push((x as int, y as int));
                assert(next.drop_last() =~= visited);
                assert(column_start + column_positions(x as int, row + 1) =~= next);
                visited = next;
                row = row + 1;
            }
            match sample {
                Some(s) => {
                    nodes.push(s);
                },
                None => {},
            }
            y = y + 2;
        }
        proof {
            assert(row == count_y);
            assert(grid_positions(column + 1, count_y) == grid_positions(column, count_y) + column_positions(
                2 * column as int,
                count_y,
            ));
            column = column + 1;
        }
        x = x + 2;
    }
    proof {
        assert(column == every_other(dimensions.x as int));
    }
    Ok(nodes)
}

/// The change in ground height across a grid point: right neighbour minus
/// left neighbour (`dx`) and lower neighbour minus upper neighbour (`dz`),
/// each spanning two cells.
#[derive(Clone, Copy, Debug, PartialEq, Eq, Structural)]
pub struct HeightGradient {
    pub dx: i32,
    pub dz: i32,
}

/// The grid point lies on the height map's border, where the ground is taken as
/// flat; the map's width is that of row 0.
pub open spec fn on_height_map_edge(grid: Seq<Seq<u16>>, x: int, y: int) -> bool {
    y == 0 || y >= grid.len() - 1 || x == 0 || x >= grid[0].len() - 1
}

/// The gradient at an inner grid point; none on the border.
pub open spec fn height_gradient(grid: Seq<Seq<u16>>, x: int, y: int) -> Option<HeightGradient> {
    if on_height_map_edge(grid, x, y) {
        None
    } else {
        Some(HeightGradient {
            dx: (grid[y][x + 1] - grid[y][x - 1]) as i32,
            dz: (grid[y + 1][x] - grid[y - 1][x]) as i32,
        })
    }
}

/// The gradient at (`x`, `y`) can be read: the map has a row, its width can be
/// taken where the border test needs it, and an inner point's neighbours exist.
pub open spec fn gradient_readable(grid: Seq<Seq<u16>>, x: int, y: int) -> bool {
    &&& grid.len() > 0
    &&& (y != 0 && y < grid.len() - 1 && x != 0) ==> grid[0].len() > 0
    &&& !on_height_map_edge(grid, x, y) ==> {
        &&& grid[y].len() > x + 1
        &&& grid[y - 1].len() > x
        &&& grid[y + 1].len() > x
    }
}

/// Whether the gradient at (`x`, `y`) can be read (see `gradient_readable`).
pub fn height_gradient_readable(height_data: &FoliageHeightMapData, x: usize, y: usize) -> (ok: bool)
    ensures
        ok == gradient_readable(height_data@, x as int, y as int),
{
    let height_map = &height_data.0;
    let rows = height_map.len();
    let ghost g = height_data@;
    if rows == 0 {
        return false;
    }
    proof {
        assert(g[0] == height_map@[0]@);
    }
    let cols = height_map[0].len();
    if y != 0 && y < rows - 1 && x != 0 && cols == 0 {
        return false;
    }
    if y == 0 || y >= rows - 1 || x == 0 || x >= cols - 1 {
        return true;
    }
    proof {
        assert(g[y as int] == height_map@[y as int]@);
        assert(g[y - 1] == height_map@[y - 1]@);
        assert(g[y + 1] == height_map@[y + 1]@);
    }
    height_map[y].len() > x + 1 && height_map[y - 1].len() > x && height_map[y + 1].len() > x
}

/// The slope of the ground at (`x`, `y`) as height differences between
/// opposite neighbours, or `None` on the map's border, where the ground counts
/// as flat. The surface normal is derived from these differences.
pub fn height_gradient_at(height_data: &FoliageHeightMapData, x: usize, y: usize) -> (gradient: Option<HeightGradient>)
    requires
        gradient_readable(height_data@, x as int, y as int),
    ensures
        gradient == height_gradient(height_data@, x as int, y as int),
        // Row `y`, column `x`: the border is the first and last row and column.
        (y == 0 || y + 1 >= height_data@.len() || x == 0 || x + 1 >= height_data@[0].len()) ==> gradient is None,
        !(y == 0 || y + 1 >= height_data@.len() || x == 0 || x + 1 >= height_data@[0].len()) ==> gradient == Some(
            HeightGradient {
                dx: (height_data@[y as int][x + 1] - height_data@[y as int][x - 1]) as i32,
                dz: (height_data@[y + 1][x as int] - height_data@[y - 1][x as int]) as i32,
            },
        ),
{
    let height_map = &height_data.0;
    let rows = height_map.len();
    proof {
        assert(height_data@[0] == height_map@[0]@);
    }
    let cols = height_map[0].len();
    if y == 0 || y >= rows - 1 || x == 0 || x >= cols - 1 {
        return None;
    }
    proof {
        assert(height_data@[y as int] == height_map@[y as int]@);
        assert(height_data@[y - 1] == height_map@[y - 1]@);
        assert(height_data@[y + 1] == height_map@[y + 1]@);
    }
    let h_left = height_map[y][x - 1] as i32;
    let h_right = height_map[y][x + 1] as i32;
    let h_up = height_map[y - 1][x] as i32;
    let h_down = height_map[y + 1][x] as i32;
    Some(HeightGradient { dx: h_right - h_left, dz: h_down - h_up })
}

/// The noise sample a grid point reads is texel `(y * 256 + x) % len`, the
/// texture taken as rows of 256 texels with `y` the row: a node grows exactly
/// where the density is painted and at least that texel, and then it reports
/// that texel, the point, and the density and height there.
pub proof fn lemma_spawn_compares_with_texel_under_point(
    density: Seq<Seq<u8>>,
    height: Seq<Seq<u16>>,
    data: Seq<u8>,
    x: int,
    y: int,
)
    requires
        data.len() > 0,
        0 <= x <= usize::MAX,
        0 <= y <= usize::MAX,
    ensures
        spawn_sample_at(density, height, Some(data), x, y) is Some
            <==> density[y][x] > 0 && density[y][x] >= data[(y * 256 + x) % data.len() as int],
        spawn_sample_at(density, height, Some(data), x, y) matches Some(s) ==> {
            &&& s.noise == data[(y * 256 + x) % data.len() as int]
            &&& s.x == x && s.y == y
            &&& s.density == density[y][x]
            &&& s.height == height[y][x]
        },
{
}

/// At a point off the border, the gradient's `dx` is the height to the right
/// minus the height to the left in the point's row, and `dz` the height below
/// minus the height above in the point's column; on the border there is none.
pub proof fn lemma_gradient_reads_row_and_column(grid: Seq<Seq<u16>>, x: int, y: int)
    requires
        grid.len() > 0,
        0 <= x,
        0 <= y,
    ensures
        0 < y < grid.len() - 1 && 0 < x < grid[0].len() - 1 ==> height_gradient(grid, x, y) == Some(
            HeightGradient {
                dx: (grid[y][x + 1] - grid[y][x - 1]) as i32,
                dz: (grid[y + 1][x] - grid[y - 1][x]) as i32,
            },
        ),
        !(0 < y < grid.len() - 1 && 0 < x < grid[0].len() - 1) ==> height_gradient(grid, x, y) is None,
{
}

/// On ground whose rows are all alike (the height depending on the column
/// only), the slope across rows is zero at every inner point.
pub proof fn lemma_uniform_rows_have_no_row_slope(grid: Seq<Seq<u16>>, x: int, y: int)
    requires
        grid.len() > 0,
        forall|r: int| 0 <= r < grid.len() ==> #[trigger] grid[r] == grid[0],
        0 < y < grid.len() - 1,
        0 < x < grid[0].len() - 1,
    ensures
        height_gradient(grid, x, y) matches Some(g) && g.dz == 0,
{
    assert(grid[y + 1] == grid[0]);
    assert(grid[y - 1] == grid[0]);
}

/// Painting a cell denser never takes its foliage away: where a density grows
/// a node, any density at least as high grows one too.
pub proof fn lemma_denser_cells_keep_foliage(
    density: Seq<Seq<u8>>,
    denser: Seq<Seq<u8>>,
    height: Seq<Seq<u16>>,
    noise: Option<Seq<u8>>,
    x: int,
    y: int,
)
    requires
        spawn_sample_at(density, height, noise, x, y) is Some,
        denser[y][x] >= density[y][x],
    ensures
        spawn_sample_at(denser, height, noise, x, y) is Some,
{
}

/// A cell where nothing is painted grows nothing, whatever the noise there.
pub proof fn lemma_unpainted_cells_grow_nothing(
    density: Seq<Seq<u8>>,
    height: Seq<Seq<u16>>,
    noise: Option<Seq<u8>>,
    x: int,
    y: int,
)
    requires
        density[y][x] == 0,
    ensures
        spawn_sample_at(density, height, noise, x, y) is None,
{
}

/// A cell painted at full density always grows a node where there is a noise texture.
pub proof fn lemma_full_density_always_spawns(
    density: Seq<Seq<u8>>,
    height: Seq<Seq<u16>>,
    noise: Option<Seq<u8>>,
    x: int,
    y: int,
)
    requires
        noise is Some,
        density[y][x] == 255,
    ensures
        spawn_sample_at(density, height, noise, x, y) is Some,
{
}

/// A grid point lies on the even sampling lattice of a chunk of `dimensions`.
pub open spec fn on_sampling_lattice(dimensions: IntVec2, x: int, y: int) -> bool {
    0 <= x < dimensions.x && 0 <= y < dimensions.y && x % 2 == 0 && y % 2 == 0
}

/// A planned node sits on the sampling lattice, where some density is painted
/// and it is at least the noise, and reports that grid point's readings.
pub open spec fn node_well_placed(
    node: FoliageSpawnSample,
    density: Seq<Seq<u8>>,
    height: Seq<Seq<u16>>,
    dimensions: IntVec2,
) -> bool {
    &&& on_sampling_lattice(dimensions, node.x as int, node.y as int)
    &&& node.density == density[node.y as int][node.x as int]
    &&& node.height == height[node.y as int][node.x as int]
    &&& node.density > 0
    &&& node.density >= node.noise
}

/// Every point of the sampling positions of a chunk lies on its lattice.
proof fn lemma_grid_positions_on_lattice(dimensions: IntVec2, count_x: nat, i: int)
    requires
        dimensions.is_nonnegative(),
        count_x <= every_other(dimensions.x as int),
        0 <= i < grid_positions(count_x, every_other(dimensions.y as int)).len(),
    ensures
        grid_positions(count_x, every_other(dimensions.y as int)).len() == count_x * every_other(dimensions.y as int),
        on_sampling_lattice(
            dimensions,
            grid_positions(count_x, every_other(dimensions.y as int))[i].0,
            grid_positions(count_x, every_other(dimensions.y as int))[i].1,
        ),
    decreases count_x,
{
    let count_y = every_other(dimensions.y as int);
    if count_x > 0 {
        let prev = grid_positions((count_x - 1) as nat, count_y);
        assert(prev.len() == (count_x - 1) * count_y) by {
            if prev.len() > 0 {
                lemma_grid_positions_on_lattice(dimensions, (count_x - 1) as nat, 0);
            } else {
                lemma_grid_positions_length((count_x - 1) as nat, count_y);
            }
        }
        assert((count_x - 1) * count_y + count_y == count_x * count_y) by (nonlinear_arith);
        if i < prev.len() {
            lemma_grid_positions_on_lattice(dimensions, (count_x - 1) as nat, i);
        } else {
            let j = i - prev.len();
            assert(2 * (count_x - 1) < dimensions.x);
            assert(2 * j < dimensions.y);
        }
    } else {
    }
}

/// The sampling positions of `count_x` columns number `count_x * count_y`.
proof fn lemma_grid_positions_length(count_x: nat, count_y: nat)
    ensures
        grid_positions(count_x, count_y).len() == count_x * count_y,
    decreases count_x,
{
    if count_x > 0 {
        lemma_grid_positions_length((count_x - 1) as nat, count_y);
        assert((count_x - 1) * count_y + count_y == count_x * count_y) by (nonlinear_arith);
    } else {
        assert(count_x * count_y == 0) by (nonlinear_arith)
            requires count_x == 0;
    }
}

/// The nodes that any list of lattice points gives are well placed.
proof fn lemma_spawned_well_placed(
    positions: Seq<(int, int)>,
    density: Seq<Seq<u8>>,
    height: Seq<Seq<u16>>,
    noise: Option<Seq<u8>>,
    dimensions: IntVec2,
)
    requires
        forall|i: int| 0 <= i < positions.len() ==> on_sampling_lattice(dimensions, #[trigger] positions[i].0, positions[i].1),
    ensures
        forall|k: int| 0 <= k < spawned(positions, density, height, noise).len()
            ==> node_well_placed(#[trigger] spawned(positions, density, height, noise)[k], density, height, dimensions),
    decreases positions.len(),
{
    if positions.len() > 0 {
        let rest = positions.drop_last();
        assert forall|i: int| 0 <= i < rest.len() implies on_sampling_lattice(dimensions, #[trigger] rest[i].0, rest[i].1) by {
            assert(rest[i] == positions[i]);
        }
        lemma_spawned_well_placed(rest, density, height, noise, dimensions);
        let last = positions.last();
        assert(on_sampling_lattice(dimensions, positions[positions.len() - 1].0, positions[positions.len() - 1].1));
        let prev = spawned(rest, density, height, noise);
        let all = spawned(positions, density, height, noise);
        match spawn_sample_at(density, height, noise, last.0, last.1) {
            Some(node) => {
                assert(all == prev.push(node));
                assert(node.x as int == last.0 && node.y as int == last.1);
                assert(node_well_placed(node, density, height, dimensions));
                assert forall|k: int| 0 <= k < all.len() implies node_well_placed(#[trigger] all[k], density, height, dimensions) by {
                    if k < prev.len() {
                        assert(all[k] == prev[k]);
                    }
                }
            },
            None => {
                assert(all == prev);
            },
        }
    }
}

/// Every node planned for a chunk layer sits on the chunk's sampling lattice,
/// where some density is painted and it is at least the noise, and reports the density and
/// ground height of its grid point.
pub proof fn lemma_planned_nodes_well_placed(
    density: Seq<Seq<u8>>,
    height: Seq<Seq<u16>>,
    noise: Option<Seq<u8>>,
    dimensions: IntVec2,
)
    requires
        dimensions.is_nonnegative(),
    ensures
        forall|k: int| 0 <= k < spawned(chunk_sample_positions(dimensions), density, height, noise).len()
            ==> node_well_placed(
                #[trigger] spawned(chunk_sample_positions(dimensions), density, height, noise)[k],
                density,
                height,
                dimensions,
            ),
{
    let positions = chunk_sample_positions(dimensions);
    assert forall|i: int| 0 <= i < positions.len() implies on_sampling_lattice(dimensions, #[trigger] positions[i].0, positions[i].1) by {
        lemma_grid_positions_on_lattice(dimensions, every_other(dimensions.x as int), i);
    }
    lemma_spawned_well_placed(positions, density, height, noise, dimensions);
}

/// `a` comes before `b` column by column: a smaller column, or the same
/// column and a smaller row.
pub open spec fn column_major_before(a: (int, int), b: (int, int)) -> bool {
    a.0 < b.0 || (a.0 == b.0 && a.1 < b.1)
}

/// The sampling positions of `count_x` columns, `count_y` rows each, come in
/// strictly increasing column-major order, at even columns below `2 * count_x`
/// and even rows below `2 * count_y`.
proof fn lemma_grid_positions_sorted(count_x: nat, count_y: nat)
    ensures
        forall|i: int, j: int| 0 <= i < j < grid_positions(count_x, count_y).len()
            ==> column_major_before(grid_positions(count_x, count_y)[i], grid_positions(count_x, count_y)[j]),
        forall|i: int| 0 <= i < grid_positions(count_x, count_y).len() ==> {
            &&& 0 <= (#[trigger] grid_positions(count_x, count_y)[i]).0 < 2 * count_x
            &&& 0 <= grid_positions(count_x, count_y)[i].1 < 2 * count_y
        },
    decreases count_x,
{
    if count_x > 0 {
        let prev = grid_positions((count_x - 1) as nat, count_y);
        let col = column_positions(2 * (count_x - 1), count_y);
        let all = grid_positions(count_x, count_y);
        lemma_grid_positions_sorted((count_x - 1) as nat, count_y);
        assert(all == prev + col);
        assert forall|i: int| 0 <= i < all.len() implies {
            &&& 0 <= (#[trigger] all[i]).0 < 2 * count_x
            &&& 0 <= all[i].1 < 2 * count_y
        } by {
            if i < prev.len() {
                assert(all[i] == prev[i]);
            } else {
                assert(all[i] == col[i - prev.len()]);
            }
        }
        assert forall|i: int, j: int| 0 <= i < j < all.len() implies column_major_before(all[i], all[j]) by {
            if j < prev.len() {
                assert(all[i] == prev[i] && all[j] == prev[j]);
            } else if i < prev.len() {
                assert(all[i] == prev[i]);
                assert(all[j] == col[j - prev.len()]);
            } else {
                assert(all[i] == col[i - prev.len()]);
                assert(all[j] == col[j - prev.len()]);
            }
        }
    }
}

/// Every even point below `2 * count_x` columns and `2 * count_y` rows is
/// among the sampling positions.
proof fn lemma_grid_positions_contain(count_x: nat, count_y: nat, x: int, y: int)
    requires
        0 <= x < 2 * count_x,
        0 <= y < 2 * count_y,
        x % 2 == 0,
        y % 2 == 0,
    ensures
        exists|i: int| 0 <= i < grid_positions(count_x, count_y).len() && #[trigger] grid_positions(count_x, count_y)[i] == (x, y),
    decreases count_x,
{
    let prev = grid_positions((count_x - 1) as nat, count_y);
    let col = column_positions(2 * (count_x - 1), count_y);
    let all = grid_positions(count_x, count_y);
    assert(all == prev + col);
    if x < 2 * (count_x - 1) {
        lemma_grid_positions_contain((count_x - 1) as nat, count_y, x, y);
        let i = choose|i: int| 0 <= i < prev.len() && #[trigger] prev[i] == (x, y);
        assert(all[i] == prev[i]);
    } else {
        assert(x == 2 * (count_x - 1));
        let j = y / 2;
        assert(col[j] == (x, y));
        assert(all[prev.len() + j] == col[j]);
    }
}

/// Each node listed for some positions stands at one of those positions.
proof fn lemma_spawned_at_positions(
    positions: Seq<(int, int)>,
    density: Seq<Seq<u8>>,
    height: Seq<Seq<u16>>,
    noise: Option<Seq<u8>>,
)
    requires
        forall|i: int| 0 <= i < positions.len() ==> 0 <= (#[trigger] positions[i]).0 <= usize::MAX && 0 <= positions[i].1 <= usize::MAX,
    ensures
        forall|k: int| 0 <= k < spawned(positions, density, height, noise).len() ==> exists|j: int|
            0 <= j < positions.len() && #[trigger] positions[j] == (
                (#[trigger] spawned(positions, density, height, noise)[k]).x as int,
                spawned(positions, density, height, noise)[k].y as int,
            ),
    decreases positions.len(),
{
    if positions.len() > 0 {
        let rest = positions.drop_last();
        assert forall|i: int| 0 <= i < rest.len() implies 0 <= (#[trigger] rest[i]).0 <= usize::MAX && 0 <= rest[i].1 <= usize::MAX by {
            assert(rest[i] == positions[i]);
        }
        lemma_spawned_at_positions(rest, density, height, noise);
        let prev = spawned(rest, density, height, noise);
        let all = spawned(positions, density, height, noise);
        let last = positions.last();
        assert(0 <= positions[positions.len() - 1].0 <= usize::MAX);
        assert forall|k: int| 0 <= k < all.len() implies exists|j: int|
            0 <= j < positions.len() && #[trigger] positions[j] == ((#[trigger] all[k]).x as int, all[k].y as int) by {
            if k < prev.len() {
                assert(all[k] == prev[k]);
                let j = choose|j: int| 0 <= j < rest.len() && #[trigger] rest[j] == (prev[k].x as int, prev[k].y as int);
                assert(positions[j] == rest[j]);
            } else {
                assert(positions[positions.len() - 1] == (all[k].x as int, all[k].y as int));
            }
        }
    }
}

/// Nodes listed for positions in strictly increasing column-major order come
/// in strictly increasing column-major order too.
proof fn lemma_spawned_sorted(
    positions: Seq<(int, int)>,
    density: Seq<Seq<u8>>,
    height: Seq<Seq<u16>>,
    noise: Option<Seq<u8>>,
)
    requires
        forall|i: int| 0 <= i < positions.len() ==> 0 <= (#[trigger] positions[i]).0 <= usize::MAX && 0 <= positions[i].1 <= usize::MAX,
        forall|i: int, j: int| 0 <= i < j < positions.len() ==> column_major_before(positions[i], positions[j]),
    ensures
        forall|k1: int, k2: int| 0 <= k1 < k2 < spawned(positions, density, height, noise).len() ==> column_major_before(
            (spawned(positions, density, height, noise)[k1].x as int, spawned(positions, density, height, noise)[k1].y as int),
            (spawned(positions, density, height, noise)[k2].x as int, spawned(positions, density, height, noise)[k2].y as int),
        ),
    decreases positions.len(),
{
    if positions.len() > 0 {
        let rest = positions.drop_last();
        assert forall|i: int| 0 <= i < rest.len() implies 0 <= (#[trigger] rest[i]).0 <= usize::MAX && 0 <= rest[i].1 <= usize::MAX by {
            assert(rest[i] == positions[i]);
        }
        assert forall|i: int, j: int| 0 <= i < j < rest.len() implies column_major_before(rest[i], rest[j]) by {
            assert(rest[i] == positions[i] && rest[j] == positions[j]);
        }
        lemma_spawned_sorted(rest, density, height, noise);
        lemma_spawned_at_positions(rest, density, height, noise);
        let prev = spawned(rest, density, height, noise);
        let all = spawned(positions, density, height, noise);
        let last = positions.last();
        assert(0 <= positions[positions.len() - 1].0 <= usize::MAX);
        assert forall|k1: int, k2: int| 0 <= k1 < k2 < all.len() implies column_major_before(
            (all[k1].x as int, all[k1].y as int),
            (all[k2].x as int, all[k2].y as int),
        ) by {
            assert(all[k1] == prev[k1]);
            if k2 < prev.len() {
                assert(all[k2] == prev[k2]);
            } else {
                let j = choose|j: int| 0 <= j < rest.len() && #[trigger] rest[j] == (prev[k1].x as int, prev[k1].y as int);
                assert(positions[j] == rest[j]);
                assert(column_major_before(positions[j], positions[positions.len() - 1]));
            }
        }
    }
}

/// A position that grows a node has its node among those listed.
proof fn lemma_spawned_contains(
    positions: Seq<(int, int)>,
    density: Seq<Seq<u8>>,
    height: Seq<Seq<u16>>,
    noise: Option<Seq<u8>>,
    i: int,
)
    requires
        0 <= i < positions.len(),
        spawn_sample_at(density, height, noise, positions[i].0, positions[i].1) is Some,
    ensures
        exists|k: int| 0 <= k < spawned(positions, density, height, noise).len()
            && #[trigger] spawned(positions, density, height, noise)[k]
                == spawn_sample_at(density, height, noise, positions[i].0, positions[i].1)->0,
    decreases positions.len(),
{
    let rest = positions.drop_last();
    let prev = spawned(rest, density, height, noise);
    let all = spawned(positions, density, height, noise);
    if i == positions.len() - 1 {
        assert(all[all.len() - 1] == spawn_sample_at(density, height, noise, positions[i].0, positions[i].1)->0);
    } else {
        assert(rest[i] == positions[i]);
        lemma_spawned_contains(rest, density, height, noise, i);
        let k = choose|k: int| 0 <= k < prev.len() && #[trigger] prev[k]
            == spawn_sample_at(density, height, noise, rest[i].0, rest[i].1)->0;
        assert(all[k] == prev[k]);
    }
}

/// The nodes planned for a chunk come column by column, and within a column
/// row by row, each grid point at most once.
pub proof fn lemma_planned_nodes_ordered(
    density: Seq<Seq<u8>>,
    height: Seq<Seq<u16>>,
    noise: Option<Seq<u8>>,
    dimensions: IntVec2,
)
    requires
        dimensions.is_nonnegative(),
    ensures
        forall|k1: int, k2: int|
            #![trigger spawned(chunk_sample_positions(dimensions), density, height, noise)[k1], spawned(chunk_sample_positions(dimensions), density, height, noise)[k2]]
            0 <= k1 < k2 < spawned(chunk_sample_positions(dimensions), density, height, noise).len() ==> {
            let a = spawned(chunk_sample_positions(dimensions), density, height, noise)[k1];
            let b = spawned(chunk_sample_positions(dimensions), density, height, noise)[k2];
            a.x < b.x || (a.x == b.x && a.y < b.y)
        },
{
    let cx = every_other(dimensions.x as int);
    let cy = every_other(dimensions.y as int);
    let positions = chunk_sample_positions(dimensions);
    lemma_grid_positions_sorted(cx, cy);
    assert forall|i: int| 0 <= i < positions.len() implies 0 <= (#[trigger] positions[i]).0 <= usize::MAX && 0 <= positions[i].1 <= usize::MAX by {
        assert(0 <= positions[i].0 < 2 * cx);
        assert(0 <= positions[i].1 < 2 * cy);
    }
    lemma_spawned_sorted(positions, density, height, noise);
    let nodes = spawned(positions, density, height, noise);
    assert forall|k1: int, k2: int| 0 <= k1 < k2 < nodes.len() implies
        nodes[k1].x < nodes[k2].x || (nodes[k1].x == nodes[k2].x && nodes[k1].y < nodes[k2].y) by {
        assert(column_major_before((nodes[k1].x as int, nodes[k1].y as int), (nodes[k2].x as int, nodes[k2].y as int)));
    }
}

/// Every even grid point of a chunk where some density is painted and it is at
/// least the noise texel there (texture rows of 256 texels, `y` the row) gets a
/// node: nothing that should grow is left out.
pub proof fn lemma_planned_nodes_complete(
    density: Seq<Seq<u8>>,
    height: Seq<Seq<u16>>,
    data: Seq<u8>,
    dimensions: IntVec2,
    x: int,
    y: int,
)
    requires
        data.len() > 0,
        0 <= x < dimensions.x,
        0 <= y < dimensions.y,
        x % 2 == 0,
        y % 2 == 0,
        density[y][x] > 0,
        density[y][x] >= data[(y * 256 + x) % data.len() as int],
    ensures
        exists|k: int| 0 <= k < spawned(chunk_sample_positions(dimensions), density, height, Some(data)).len()
            && (#[trigger] spawned(chunk_sample_positions(dimensions), density, height, Some(data))[k]).x == x
            && spawned(chunk_sample_positions(dimensions), density, height, Some(data))[k].y == y,
{
    let cx = every_other(dimensions.x as int);
    let cy = every_other(dimensions.y as int);
    let positions = chunk_sample_positions(dimensions);
    assert(x < 2 * cx);
    assert(y < 2 * cy);
    lemma_grid_positions_contain(cx, cy, x, y);
    let i = choose|i: int| 0 <= i < positions.len() && #[trigger] positions[i] == (x, y);
    lemma_spawned_contains(positions, density, height, Some(data), i);
    let k = choose|k: int| 0 <= k < spawned(positions, density, height, Some(data)).len()
        && #[trigger] spawned(positions, density, height, Some(data))[k]
            == spawn_sample_at(density, height, Some(data), positions[i].0, positions[i].1)->0;
}

/// Without a noise texture no node is planned.
pub proof fn lemma_no_noise_plans_nothing(density: Seq<Seq<u8>>, height: Seq<Seq<u16>>, positions: Seq<(int, int)>)
    ensures
        spawned(positions, density, height, None).len() == 0,
    decreases positions.len(),
{
    if positions.len() > 0 {
        lemma_no_noise_plans_nothing(density, height, positions.drop_last());
    }
}

} // verus!
