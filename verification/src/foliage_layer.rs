use vstd::prelude::*;

use crate::dimensions::IntVec2;
pub use crate::foliage_density::FoliageDensityMapU8;
use crate::foliage_density::{chunk_start_x, chunk_start_y, zero_grid};
use vstd::arithmetic::div_mod::{lemma_fundamental_div_mod, lemma_fundamental_div_mod_converse};

verus! {

/// A grid of `height` rows, each holding `width` zero cells of 16 bits.
pub open spec fn zero_grid_u16(height: nat, width: nat) -> Seq<Seq<u16>> {
    Seq::new(height, |_y: int| Seq::new(width, |_x: int| 0u16))
}

/// `height` rows of `width` zeros.
fn zero_rows_u16(width: usize, height: usize) -> (rows: Vec<Vec<u16>>)
    ensures
        rows@.len() == height,
        forall|r: int| 0 <= r < height ==> #[trigger] rows@[r]@ == Seq::new(width as nat, |_x: int| 0u16),
{
    let mut rows: Vec<Vec<u16>> = Vec::new();
    let mut j: usize = 0;
    while j < height
        invariant
            j <= height,
            rows@.len() == j,
            forall|r: int| 0 <= r < j ==> #[trigger] rows@[r]@ == Seq::new(width as nat, |_x: int| 0u16),
        decreases height - j,
    {
        let mut row: Vec<u16> = Vec::new();
        let mut i: usize = 0;
        while i < width
            invariant
                i <= width,
                row@ == Seq::new(i as nat, |_x: int| 0u16),
            decreases width - i,
        {
            row.push(0u16);
            i = i + 1;
        }
        rows.push(row);
        j = j + 1;
    }
    rows
}

/// The cells of a grid of 16-bit values.
pub open spec fn grid_u16_view(rows: Seq<Vec<u16>>) -> Seq<Seq<u16>> {
    rows.map_values(|row: Vec<u16>| row@)
}

/// A layer's base height: `0[y][x]` is the ground height at column `x`, row `y`.
#[derive(Clone, Debug)]
pub struct FoliageBaseHeightMapU16(pub Vec<Vec<u16>>);

impl View for FoliageBaseHeightMapU16 {
    type V = Seq<Seq<u16>>;

    open spec fn view(&self) -> Seq<Seq<u16>> {
        grid_u16_view(self.0@)
    }
}

impl FoliageBaseHeightMapU16 {
    /// A height map of `dimensions.y` rows by `dimensions.x` columns, all zero.
    pub fn new(dimensions: IntVec2) -> (map: Self)
        requires
            dimensions.is_nonnegative(),
        ensures
            map@ == zero_grid_u16(dimensions.y as nat, dimensions.x as nat),
    {
        let map = FoliageBaseHeightMapU16(zero_rows_u16(dimensions.x as usize, dimensions.y as usize));
        assert(map@ =~= zero_grid_u16(dimensions.y as nat, dimensions.x as nat));
        map
    }
}

/// A layer's packed ground normals, one 16-bit value per cell.
#[derive(Clone, Debug)]
pub struct FoliageBaseNormalMapU16(pub Vec<Vec<u16>>);

impl View for FoliageBaseNormalMapU16 {
    type V = Seq<Seq<u16>>;

    open spec fn view(&self) -> Seq<Seq<u16>> {
        grid_u16_view(self.0@)
    }
}

impl FoliageBaseNormalMapU16 {
    /// A normal map of `dimensions.y` rows by `dimensions.x` columns, all zero.
    pub fn new(dimensions: IntVec2) -> (map: Self)
        requires
            dimensions.is_nonnegative(),
        ensures
            map@ == zero_grid_u16(dimensions.y as nat, dimensions.x as nat),
    {
        let map = FoliageBaseNormalMapU16(zero_rows_u16(dimensions.x as usize, dimensions.y as usize));
        assert(map@ =~= zero_grid_u16(dimensions.y as nat, dimensions.x as nat));
        map
    }
}

/// A foliage layer: its extent, how many chunks each row of it is cut into,
/// and which foliage definition it draws.
#[derive(Clone, Copy, Debug, PartialEq, Eq, Structural)]
pub struct FoliageLayer {
    pub dimensions: IntVec2,
    pub chunk_rows: usize,
    pub foliage_index: usize,
}

/// Everything stored for one foliage layer.
#[derive(Clone, Debug)]
pub struct FoliageLayerData {
    pub foliage_index: usize,
    pub density_map: FoliageDensityMapU8,
    pub base_height_map: Option<FoliageBaseHeightMapU16>,
    pub base_normal_map: Option<FoliageBaseNormalMapU16>,
}

impl FoliageLayerData {
    /// A layer for definition `foliage_index` with a zero density map of the
    /// layer's size and neither height nor normal map.
    pub fn new(foliage_index: usize, boundary_dimensions: IntVec2) -> (data: Self)
        requires
            boundary_dimensions.is_nonnegative(),
        ensures
            data.foliage_index == foliage_index,
            data.density_map@ == zero_grid(boundary_dimensions.y as nat, boundary_dimensions.x as nat),
            data.base_height_map is None,
            data.base_normal_map is None,
    {
        FoliageLayerData {
            foliage_index,
            density_map: FoliageDensityMapU8::new(boundary_dimensions),
            base_height_map: None,
            base_normal_map: None,
        }
    }
}

/// Rust's integer division, which rounds toward zero.
pub open spec fn div_toward_zero(a: int, b: int) -> int {
    if a >= 0 {
        a / b
    } else {
        -((-a) / b)
    }
}

/// The extent of one chunk when a layer of `dimensions` is cut into
/// `chunk_rows` chunks along each axis.
pub open spec fn chunk_extent(dimensions: IntVec2, chunk_rows: int) -> (int, int) {
    (div_toward_zero(dimensions.x as int, chunk_rows), div_toward_zero(dimensions.y as int, chunk_rows))
}

/// Where one chunk of a layer goes: its position in the chunk grid and the
/// ground-plane offset (x and z) of its corner.
#[derive(Clone, Copy, Debug, PartialEq, Eq, Structural)]
pub struct ChunkPlacement {
    pub chunk_offset: IntVec2,
    pub translation: IntVec2,
}

/// The placement of the chunk at column `x`, row `y` of the chunk grid.
pub open spec fn chunk_placement(dimensions: IntVec2, chunk_rows: int, x: int, y: int) -> ChunkPlacement {
    ChunkPlacement {
        chunk_offset: IntVec2 { x: x as i32, y: y as i32 },
        translation: IntVec2 {
            x: (x * chunk_extent(dimensions, chunk_rows).0) as i32,
            y: (y * chunk_extent(dimensions, chunk_rows).1) as i32,
        },
    }
}

/// A product `k * (d / n)`, rounded toward zero, with `0 <= k < n`, stays between 0 and `d`.
proof fn lemma_chunk_corner_bounded(k: int, d: int, n: int)
    requires
        0 <= k < n,
        i32::MIN <= d <= i32::MAX,
    ensures
        i32::MIN <= k * div_toward_zero(d, n) <= i32::MAX,
{
    if d >= 0 {
        assert(k * (d / n) <= n * (d / n)) by (nonlinear_arith)
            requires 0 <= k < n, d >= 0;
        assert(n * (d / n) <= d) by (nonlinear_arith)
            requires n > 0, d >= 0;
        assert(k * (d / n) >= 0) by (nonlinear_arith)
            requires 0 <= k, d >= 0, n > 0;
    } else {
        let q = (-d) / n;
        assert(k * q <= n * q) by (nonlinear_arith)
            requires 0 <= k < n, q >= 0;
        assert(n * q <= -d) by (nonlinear_arith)
            requires n > 0, -d >= 0, q == (-d) / n;
        assert(k * q >= 0) by (nonlinear_arith)
            requires 0 <= k, q >= 0;
        assert(k * (-q) == -(k * q)) by (nonlinear_arith);
    }
}

/// The chunks a layer of `dimensions` is cut into, `chunk_rows` along each
/// axis, listed column by column: entry `x * chunk_rows + y` is the chunk at
/// column `x`, row `y`, its corner at `(x, y)` times the chunk extent.
pub fn layer_chunk_placements(dimensions: IntVec2, chunk_rows: usize) -> (placements: Vec<ChunkPlacement>)
    requires
        chunk_rows <= i32::MAX,
        chunk_rows * chunk_rows <= usize::MAX,
    ensures
        placements@.len() == chunk_rows * chunk_rows,
        forall|i: int| 0 <= i < placements@.len()
            ==> #[trigger] placements@[i] == chunk_placement(dimensions, chunk_rows as int, i / chunk_rows as int, i % chunk_rows as int),
        // Entry `i` is the chunk at column `i / chunk_rows`, row `i % chunk_rows`,
        // its corner that many chunk extents (rounded toward zero) from the origin.
        forall|i: int| 0 <= i < placements@.len() ==> {
            &&& (#[trigger] placements@[i]).chunk_offset.x == i / chunk_rows as int
            &&& placements@[i].chunk_offset.y == i % chunk_rows as int
            &&& placements@[i].translation.x == (i / chunk_rows as int) * div_toward_zero(dimensions.x as int, chunk_rows as int)
            &&& placements@[i].translation.y == (i % chunk_rows as int) * div_toward_zero(dimensions.y as int, chunk_rows as int)
        },
{
    let mut placements: Vec<ChunkPlacement> = Vec::new();
    let n = chunk_rows;
    let mut x: usize = 0;
    while x < n
        invariant
            x <= n,
            n == chunk_rows,
            n <= i32::MAX,
            n * n <= usize::MAX,
            placements@.len() == x * n,
            forall|a: int, b: int| 0 <= a < x && 0 <= b < n
                ==> #[trigger] placements@[a * n + b] == chunk_placement(dimensions, n as int, a, b),
        decreases n - x,
    {
        let mut y: usize = 0;
        while y < n
            invariant
                x < n,
                y <= n,
                n == chunk_rows,
                n <= i32::MAX,
                n * n <= usize::MAX,
                placements@.len() == x * n + y,
                forall|a: int, b: int| 0 <= a < x && 0 <= b < n
                    ==> #[trigger] placements@[a * n + b] == chunk_placement(dimensions, n as int, a, b),
                forall|b: int| 0 <= b < y
                    ==> #[trigger] placements@[x * n + b] == chunk_placement(dimensions, n as int, x as int, b),
            decreases n - y,
        {
            let chunk_offset = IntVec2 { x: x as i32, y: y as i32 };
            let rows = n as i32;
            let chunk_width = dimensions.x / rows;
            let chunk_height = dimensions.y / rows;
            proof {
                lemma_chunk_corner_bounded(x as int, dimensions.x as int, n as int);
                lemma_chunk_corner_bounded(y as int, dimensions.y as int, n as int);
            }
            let translation = IntVec2 { x: chunk_offset.x * chunk_width, y: chunk_offset.y * chunk_height };
            let ghost before = placements@;
            placements.push(ChunkPlacement { chunk_offset, translation });
            proof {
                assert(x * n + y < (x + 1) * n) by (nonlinear_arith)
                    requires y < n;
                assert forall|a: int, b: int| 0 <= a < x && 0 <= b < n
                    implies #[trigger] placements@[a * n + b] == chunk_placement(dimensions, n as int, a, b) by {
                    assert(a * n + b < x * n) by (nonlinear_arith)
                        requires 0 <= a < x, 0 <= b < n;
                    assert(placements@[a * n + b] == before[a * n + b]);
                }
            }
            y = y + 1;
        }
        proof {
            assert(x * n + n == (x + 1) * n) by (nonlinear_arith);
            assert forall|a: int, b: int| 0 <= a < x + 1 && 0 <= b < n
                implies #[trigger] placements@[a * n + b] == chunk_placement(dimensions, n as int, a, b) by {
                if a == x {
                } else {
                }
            }
        }
        x = x + 1;
    }
    proof {
        assert forall|i: int| 0 <= i < placements@.len()
            implies #[trigger] placements@[i] == chunk_placement(dimensions, n as int, i / n as int, i % n as int) by {
            let a = i / n as int;
            let b = i % n as int;
            lemma_fundamental_div_mod(i, n as int);
            assert(0 <= b < n);
            assert(0 <= a < n) by (nonlinear_arith)
                requires i == n * a + b, 0 <= b < n, 0 <= i < n * n, n > 0;
            assert(i == a * n + b) by (nonlinear_arith)
                requires i == n * a + b;
        }
        assert forall|i: int| 0 <= i < placements@.len() implies {
            &&& (#[trigger] placements@[i]).chunk_offset.x == i / n as int
            &&& placements@[i].chunk_offset.y == i % n as int
            &&& placements@[i].translation.x == (i / n as int) * div_toward_zero(dimensions.x as int, n as int)
            &&& placements@[i].translation.y == (i % n as int) * div_toward_zero(dimensions.y as int, n as int)
        } by {
            let a = i / n as int;
            let b = i % n as int;
            lemma_fundamental_div_mod(i, n as int);
            assert(0 <= a < n) by (nonlinear_arith)
                requires i == n * a + b, 0 <= b < n, 0 <= i < n * n, n > 0;
            lemma_chunk_corner_bounded(a, dimensions.x as int, n as int);
            lemma_chunk_corner_bounded(b, dimensions.y as int, n as int);
        }
    }
    placements
}

/// Neighbouring chunks sit one chunk extent apart: the chunk after (`x`, `y`)
/// in either direction has its corner moved by exactly that chunk's extent, so
/// chunks of a layer neither overlap nor leave gaps between them.
pub proof fn lemma_neighbouring_chunks_adjoin(dimensions: IntVec2, chunk_rows: int, x: int, y: int)
    requires
        0 < chunk_rows,
        0 <= x,
        0 <= y,
        x + 1 < chunk_rows,
        y + 1 < chunk_rows,
    ensures
        chunk_placement(dimensions, chunk_rows, x + 1, y).translation.x
            == chunk_placement(dimensions, chunk_rows, x, y).translation.x + chunk_extent(dimensions, chunk_rows).0,
        chunk_placement(dimensions, chunk_rows, x, y + 1).translation.y
            == chunk_placement(dimensions, chunk_rows, x, y).translation.y + chunk_extent(dimensions, chunk_rows).1,
{
    let (w, h) = chunk_extent(dimensions, chunk_rows);
    lemma_chunk_corner_bounded(x, dimensions.x as int, chunk_rows);
    lemma_chunk_corner_bounded(x + 1, dimensions.x as int, chunk_rows);
    lemma_chunk_corner_bounded(y, dimensions.y as int, chunk_rows);
    lemma_chunk_corner_bounded(y + 1, dimensions.y as int, chunk_rows);
    assert((x + 1) * w == x * w + w) by (nonlinear_arith);
    assert((y + 1) * h == y * h + h) by (nonlinear_arith);
}

/// The number of the chunk at column `x`, row `y` of a chunk grid with
/// `chunk_rows` chunks per row: chunks are numbered row by row.
pub open spec fn chunk_number(x: int, y: int, chunk_rows: int) -> int {
    y * chunk_rows + x
}

/// The number of the chunk at `chunk_offset` in a grid of `chunk_rows` chunks
/// per row, or `None` where the offset lies outside the grid's columns, is
/// negative, or the number does not fit in 32 bits.
pub fn chunk_id_at(chunk_offset: IntVec2, chunk_rows: u32) -> (id: Option<u32>)
    ensures
        id is Some <==> (0 <= chunk_offset.x < chunk_rows && 0 <= chunk_offset.y
            && chunk_number(chunk_offset.x as int, chunk_offset.y as int, chunk_rows as int) <= u32::MAX),
        id matches Some(n) ==> n == chunk_number(chunk_offset.x as int, chunk_offset.y as int, chunk_rows as int),
        id matches Some(n) ==> n == chunk_offset.y as int * chunk_rows as int + chunk_offset.x as int,
        id matches Some(n) ==> n % chunk_rows == chunk_offset.x && n / chunk_rows == chunk_offset.y,
{
    if chunk_offset.x < 0 || chunk_offset.y < 0 || chunk_offset.x as u32 >= chunk_rows {
        return None;
    }
    let x = chunk_offset.x as u64;
    let y = chunk_offset.y as u64;
    proof {
        assert(y * (chunk_rows as u64) <= 0x7fff_ffff * 0xffff_ffff) by (nonlinear_arith)
            requires y <= 0x7fff_ffff, chunk_rows <= 0xffff_ffff;
    }
    let number = y * (chunk_rows as u64) + x;
    if number > u32::MAX as u64 {
        None
    } else {
        proof {
            lemma_fundamental_div_mod_converse(number as int, chunk_rows as int, y as int, x as int);
        }
        Some(number as u32)
    }
}

/// A chunk's number leads back to its place: the chunk numbered for column
/// `x`, row `y` cuts the density map starting at `x` chunk widths across and
/// `y` chunk heights down.
pub proof fn lemma_chunk_number_locates_chunk(x: int, y: int, chunk_rows: u32, chunk_dimensions: IntVec2)
    requires
        0 <= x < chunk_rows,
        0 <= y,
        chunk_number(x, y, chunk_rows as int) <= u32::MAX,
    ensures
        chunk_start_x(chunk_number(x, y, chunk_rows as int) as u32, chunk_rows, chunk_dimensions.x) == x * chunk_dimensions.x,
        chunk_start_y(chunk_number(x, y, chunk_rows as int) as u32, chunk_rows, chunk_dimensions.y) == y * chunk_dimensions.y,
{
    let id = chunk_number(x, y, chunk_rows as int);
    lemma_fundamental_div_mod_converse(id, chunk_rows as int, y, x);
}

/// A 16-bit zero grid has the given number of rows, each of the given width,
/// and every cell is 0.
pub proof fn lemma_zero_grid_u16_shape(height: nat, width: nat)
    ensures
        zero_grid_u16(height, width).len() == height,
        forall|r: int| 0 <= r < height ==> #[trigger] zero_grid_u16(height, width)[r].len() == width,
        forall|r: int, c: int| 0 <= r < height && 0 <= c < width ==> #[trigger] zero_grid_u16(height, width)[r][c] == 0,
{
}

} // verus!
