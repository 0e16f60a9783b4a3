use vstd::prelude::*;
use vstd::arithmetic::div_mod::{lemma_fundamental_div_mod, lemma_fundamental_div_mod_converse};

use bevy::platform::collections::HashMap;
use bevy::platform::hash::FixedHasher;

use crate::dimensions::IntVec2;
use crate::foliage_types::FoliageDefinition;

verus! {

/// A grid of `height` rows, each holding `width` zero cells.
pub open spec fn zero_grid(height: nat, width: nat) -> Seq<Seq<u8>> {
    Seq::new(height, |_y: int| Seq::new(width, |_x: int| 0u8))
}

/// A single layer's foliage density: `0[y][x]` is the density at column `x`, row `y`.
#[derive(Clone, Debug)]
pub struct FoliageDensityMapU8(pub Vec<Vec<u8>>);

impl View for FoliageDensityMapU8 {
    type V = Seq<Seq<u8>>;

    open spec fn view(&self) -> Seq<Seq<u8>> {
        self.0@.map_values(|row: Vec<u8>| row@)
    }
}

/// A row of `width` zero bytes.
fn zero_row_u8(width: usize) -> (row: Vec<u8>)
    ensures
        row@ == Seq::new(width as nat, |_x: int| 0u8),
{
    let mut row: Vec<u8> = Vec::new();
    let mut i: usize = 0;
    while i < width
        invariant
            i <= width,
            row@ == Seq::new(i as nat, |_x: int| 0u8),
        decreases width - i,
    {
        row.push(0u8);
        i = i + 1;
    }
    row
}

impl FoliageDensityMapU8 {
    /// A density map of `dimensions.y` rows by `dimensions.x` columns, all zero.
    pub fn new(dimensions: IntVec2) -> (map: Self)
        requires
            dimensions.is_nonnegative(),
        ensures
            map@ == zero_grid(dimensions.y as nat, dimensions.x as nat),
            map@.len() == dimensions.y,
            forall|r: int| 0 <= r < dimensions.y ==> #[trigger] map@[r].len() == dimensions.x,
            forall|r: int, c: int| 0 <= r < dimensions.y && 0 <= c < dimensions.x ==> #[trigger] map@[r][c] == 0,
    {
        let width = dimensions.x as usize;
        let height = dimensions.y as usize;
        let mut rows: Vec<Vec<u8>> = Vec::new();
        let mut j: usize = 0;
        while j < height
            invariant
                j <= height,
                rows@.len() == j,
                forall|k: int| 0 <= k < j ==> #[trigger] rows@[k]@ == Seq::new(width as nat, |_x: int| 0u8),
            decreases height - j,
        {
            let row = zero_row_u8(width);
            rows.push(row);
            j = j + 1;
        }
        let map = FoliageDensityMapU8(rows);
        assert(map@ =~= zero_grid(height as nat, width as nat));
        map
    }
}


/// The cell that a window starting at (`start_x`, `start_y`) shows at (`x`, `y`):
/// the grid's cell where the grid has one (its width taken from row 0), else 0.
pub open spec fn window_cell(grid: Seq<Seq<u8>>, start_x: int, start_y: int, x: int, y: int) -> u8 {
    if start_y + y < grid.len() && start_x + x < grid[0].len() {
        grid[start_y + y][start_x + x]
    } else {
        0u8
    }
}

/// A `height` by `width` window of `grid` starting at (`start_x`, `start_y`).
pub open spec fn window(grid: Seq<Seq<u8>>, start_x: int, start_y: int, width: nat, height: nat) -> Seq<Seq<u8>> {
    Seq::new(height, |y: int| Seq::new(width, |x: int| window_cell(grid, start_x, start_y, x, y)))
}

/// Every row that a window reads is long enough for the columns it reads.
/// Columns are bounded by the length of row 0; a shorter row met inside the
/// window would be indexed past its end.
pub open spec fn window_rows_readable(grid: Seq<Seq<u8>>, start_x: int, start_y: int, width: nat, height: nat) -> bool {
    forall|oy: int|
        start_y <= oy < start_y + height && 0 <= oy < grid.len() && start_x < grid[0].len() && width > 0
            ==> #[trigger] grid[oy].len() >= grid[0].len() || grid[oy].len() >= start_x + width
}

/// Column index of the first cell of chunk `chunk_id` in a grid of `chunk_rows` chunks per row.
pub open spec fn chunk_start_x(chunk_id: u32, chunk_rows: u32, chunk_width: i32) -> int {
    (chunk_id % chunk_rows) as int * chunk_width as int
}

/// Row index of the first cell of chunk `chunk_id`.
pub open spec fn chunk_start_y(chunk_id: u32, chunk_rows: u32, chunk_height: i32) -> int {
    (chunk_id / chunk_rows) as int * chunk_height as int
}

/// The part of `grid` that chunk `chunk_id` covers; cells past the grid's edge are 0.
pub open spec fn chunk_sub_section(grid: Seq<Seq<u8>>, chunk_id: u32, chunk_rows: u32, chunk_dimensions: IntVec2) -> Seq<Seq<u8>> {
    window(
        grid,
        chunk_start_x(chunk_id, chunk_rows, chunk_dimensions.x),
        chunk_start_y(chunk_id, chunk_rows, chunk_dimensions.y),
        chunk_dimensions.x as nat,
        chunk_dimensions.y as nat,
    )
}

/// The inputs on which cutting out a chunk runs: a nonzero chunk count per
/// row, nonnegative chunk extents, indices that fit in `usize`, and rows long
/// enough for the cells the chunk reads.
pub open spec fn sub_section_arguments_valid(grid: Seq<Seq<u8>>, chunk_id: u32, chunk_rows: u32, chunk_dimensions: IntVec2) -> bool {
    &&& chunk_rows > 0
    &&& chunk_dimensions.is_nonnegative()
    &&& chunk_start_x(chunk_id, chunk_rows, chunk_dimensions.x) + chunk_dimensions.x <= usize::MAX + 1
    &&& chunk_start_y(chunk_id, chunk_rows, chunk_dimensions.y) + chunk_dimensions.y <= usize::MAX + 1
    &&& window_rows_readable(
        grid,
        chunk_start_x(chunk_id, chunk_rows, chunk_dimensions.x),
        chunk_start_y(chunk_id, chunk_rows, chunk_dimensions.y),
        chunk_dimensions.x as nat,
        chunk_dimensions.y as nat,
    )
}

impl FoliageDensityMapU8 {
    /// Whether cutting out chunk `chunk_id` runs on these arguments (see
    /// `sub_section_arguments_valid`).
    pub fn sub_section_arguments_ok(&self, chunk_id: u32, chunk_rows: u32, chunk_dimensions: IntVec2) -> (ok: bool)
        ensures
            ok == sub_section_arguments_valid(self@, chunk_id, chunk_rows, chunk_dimensions),
    {
        if chunk_rows == 0 || chunk_dimensions.x < 0 || chunk_dimensions.y < 0 {
            return false;
        }
        let chunk_x = (chunk_id % chunk_rows) as u128;
        let chunk_y = (chunk_id / chunk_rows) as u128;
        let width = chunk_dimensions.x as u128;
        let height = chunk_dimensions.y as u128;
        proof {
            assert(chunk_x * width <= 0xffff_ffff * 0x7fff_ffff) by (nonlinear_arith)
                requires chunk_x <= 0xffff_ffff, width <= 0x7fff_ffff;
            assert(chunk_y * height <= 0xffff_ffff * 0x7fff_ffff) by (nonlinear_arith)
                requires chunk_y <= 0xffff_ffff, height <= 0x7fff_ffff;
        }
        let end_x = chunk_x * width + width;
        let end_y = chunk_y * height + height;
        if end_x > usize::MAX as u128 + 1 || end_y > usize::MAX as u128 + 1 {
            return false;
        }
        proof {
            assert(chunk_x * width <= usize::MAX) by (nonlinear_arith)
                requires chunk_x * width + width <= usize::MAX + 1;
            assert(chunk_y * height <= usize::MAX) by (nonlinear_arith)
                requires chunk_y * height + height <= usize::MAX + 1;
        }
        let start_x = (chunk_x * width) as usize;
        let start_y = (chunk_y * height) as usize;
        let w = width as usize;
        let h = height as usize;
        let ghost g = self@;
        assert(start_x as int == chunk_start_x(chunk_id, chunk_rows, chunk_dimensions.x));
        assert(start_y as int == chunk_start_y(chunk_id, chunk_rows, chunk_dimensions.y));
        assert(g.len() == self.0@.len());
        if self.0.len() == 0 || w == 0 {
            return true;
        }
        proof {
            assert(g[0] == self.0@[0]@);
        }
        let first_len = self.0[0].len();
        if start_x >= first_len {
            return true;
        }
        let mut oy: usize = start_y;
        while oy < self.0.len() && oy - start_y < h
            invariant
                start_y <= oy,
                g == self@,
                g.len() > 0,
                g.len() == self.0@.len(),
                start_x as int == chunk_start_x(chunk_id, chunk_rows, chunk_dimensions.x),
                start_y as int == chunk_start_y(chunk_id, chunk_rows, chunk_dimensions.y),
                w == chunk_dimensions.x,
                h == chunk_dimensions.y,
                chunk_rows > 0,
                chunk_dimensions.is_nonnegative(),
                chunk_start_x(chunk_id, chunk_rows, chunk_dimensions.x) + chunk_dimensions.x <= usize::MAX + 1,
                chunk_start_y(chunk_id, chunk_rows, chunk_dimensions.y) + chunk_dimensions.y <= usize::MAX + 1,
                first_len == g[0].len(),
                start_x < first_len,
                w > 0,
                forall|r: int| start_y <= r < oy && r < g.len() && r < start_y + h
                    ==> #[trigger] g[r].len() >= g[0].len() || g[r].len() >= start_x + w,
            decreases self.0.len() - oy,
        {
            proof {
                assert(g[oy as int] == self.0@[oy as int]@);
            }
            let row_len = self.0[oy].len();
            if row_len < first_len && (row_len as u128) < start_x as u128 + w as u128 {
                assert(!(g[oy as int].len() >= g[0].len() || g[oy as int].len() >= start_x + w));
                assert(oy < g.len());
                assert(!window_rows_readable(g, start_x as int, start_y as int, w as nat, h as nat));
                return false;
            }
            oy = oy + 1;
        }
        true
    }

    /// The chunk `chunk_id` of this map, chunks being numbered row by row with
    /// `chunk_rows` chunks per row, each `chunk_dimensions` large. Cells of the
    /// chunk that fall outside the map are 0.
    pub fn get_sub_section_by_chunk_id(&self, chunk_id: u32, chunk_rows: u32, chunk_dimensions: IntVec2) -> (sub: Self)
        requires
            sub_section_arguments_valid(self@, chunk_id, chunk_rows, chunk_dimensions),
        ensures
            sub@ == chunk_sub_section(self@, chunk_id, chunk_rows, chunk_dimensions),
            // Chunk `chunk_id` sits at column `chunk_id % chunk_rows`, row
            // `chunk_id / chunk_rows` of the chunk grid.
            sub@.len() == chunk_dimensions.y,
            forall|r: int| 0 <= r < chunk_dimensions.y ==> #[trigger] sub@[r].len() == chunk_dimensions.x,
            forall|r: int, c: int| 0 <= r < chunk_dimensions.y && 0 <= c < chunk_dimensions.x ==> {
                let gy = (chunk_id / chunk_rows) as int * chunk_dimensions.y as int + r;
                let gx = (chunk_id % chunk_rows) as int * chunk_dimensions.x as int + c;
                #[trigger] sub@[r][c] == if gy < self@.len() && gx < self@[0].len() { self@[gy][gx] } else { 0u8 }
            },
    {
        let chunk_x = (chunk_id % chunk_rows) as usize;
        let chunk_y = (chunk_id / chunk_rows) as usize;
        let width = chunk_dimensions.x as usize;
        let height = chunk_dimensions.y as usize;
        proof {
            assert(chunk_x * width <= usize::MAX) by (nonlinear_arith)
                requires chunk_x * width + width <= usize::MAX + 1;
            assert(chunk_y * height <= usize::MAX) by (nonlinear_arith)
                requires chunk_y * height + height <= usize::MAX + 1;
        }
        let start_x = chunk_x * width;
        let start_y = chunk_y * height;
        let ghost g = self@;
        let ghost sx = start_x as int;
        let ghost sy = start_y as int;
        let initial = FoliageDensityMapU8::new(chunk_dimensions);
        let mut rows = initial.0;
        proof {
            assert(rows@.len() == initial@.len());
            assert forall|r: int| 0 <= r < height implies #[trigger] rows@[r]@ == Seq::new(width as nat, |_x: int| 0u8) by {
                assert(initial@[r] == rows@[r]@);
            }
        }
        let mut y: usize = 0;
        while y < height
            invariant
                0 <= y <= height,
                g == self@,
                sx == start_x,
                sy == start_y,
                start_x + width <= usize::MAX + 1,
                start_y + height <= usize::MAX + 1,
                window_rows_readable(g, sx, sy, width as nat, height as nat),
                rows@.len() == height,
                forall|r: int| 0 <= r < height ==> #[trigger] rows@[r]@.len() == width,
                forall|r: int, c: int| 0 <= r < y && 0 <= c < width
                    ==> rows@[r]@[c] == window_cell(g, sx, sy, c, r),
                forall|r: int, c: int| y <= r < height && 0 <= c < width ==> rows@[r]@[c] == 0u8,
            decreases height - y,
        {
            let mut x: usize = 0;
            while x < width
                invariant
                    0 <= y < height,
                    0 <= x <= width,
                    g == self@,
                    sx == start_x,
                    sy == start_y,
                    start_x + width <= usize::MAX + 1,
                    start_y + height <= usize::MAX + 1,
                    window_rows_readable(g, sx, sy, width as nat, height as nat),
                    rows@.len() == height,
                    forall|r: int| 0 <= r < height ==> #[trigger] rows@[r]@.len() == width,
                    forall|r: int, c: int| 0 <= r < y && 0 <= c < width
                        ==> rows@[r]@[c] == window_cell(g, sx, sy, c, r),
                    forall|c: int| 0 <= c < x ==> rows@[y as int]@[c] == window_cell(g, sx, sy, c, y as int),
                    forall|r: int, c: int| y <= r < height && 0 <= c < width && !(r == y && c < x)
                        ==> rows@[r]@[c] == 0u8,
                decreases width - x,
            {
                let orig_y = start_y + y;
                let orig_x = start_x + x;
                if orig_y < self.0.len() && orig_x < self.0[0].len() {
                    assert(g[orig_y as int].len() > orig_x);
                    let value = self.0[orig_y][orig_x];
                    rows[y][x] = value;
                }
                x = x + 1;
            }
            y = y + 1;
        }
        let subsection = FoliageDensityMapU8(rows);
        proof {
            let expected = chunk_sub_section(g, chunk_id, chunk_rows, chunk_dimensions);
            assert(sx == chunk_start_x(chunk_id, chunk_rows, chunk_dimensions.x));
            assert(sy == chunk_start_y(chunk_id, chunk_rows, chunk_dimensions.y));
            assert forall|r: int| 0 <= r < height implies #[trigger] subsection@[r] =~= expected[r] by {
                assert(subsection@[r] == rows@[r]@);
            }
            assert(subsection@ =~= expected);
        }
        subsection
    }
}


/// Bevy's hash map, whose contents Verus sees only through `density_layers`.
#[verifier::external_type_specification]
#[verifier::external_body]
#[verifier::reject_recursive_types(K)]
#[verifier::reject_recursive_types(V)]
#[verifier::reject_recursive_types(S)]
pub struct ExBevyHashMap<K, V, S>(HashMap<K, V, S>);

/// Bevy's fixed, seedless hasher, the map's default hash builder.
#[verifier::external_type_specification]
#[verifier::external_body]
pub struct ExFixedHasher(FixedHasher);

/// What a map from layer index to density map holds: each key with the cells
/// of its density map.
pub uninterp spec fn density_layers(m: HashMap<usize, FoliageDensityMapU8>) -> Map<usize, Seq<Seq<u8>>>;

/// Calls `HashMap::with_hasher` with the default fixed hasher; the new map is empty.
#[verifier::external_body]
fn empty_layer_map() -> (empty: HashMap<usize, FoliageDensityMapU8>)
    ensures
        density_layers(empty).is_empty(),
{
    HashMap::with_hasher(Default::default())
}

/// Calls `HashMap::insert`: afterwards `key` maps to `value`, every other key as before.
#[verifier::external_body]
fn layer_map_insert(m: &mut HashMap<usize, FoliageDensityMapU8>, key: usize, value: FoliageDensityMapU8)
    ensures
        density_layers(*final(m)) == density_layers(*old(m)).insert(key, value@),
{
    m.insert(key, value);
}

/// Calls `HashMap::get`: the value stored under `key`, if any.
#[verifier::external_body]
fn layer_map_get(m: &HashMap<usize, FoliageDensityMapU8>, key: usize) -> (r: Option<&FoliageDensityMapU8>)
    ensures
        r is Some <==> density_layers(*m).contains_key(key),
        r matches Some(v) ==> v@ == density_layers(*m)[key],
{
    m.get(&key)
}

/// Calls `HashMap::get_mut`: a handle on the value stored under `key`, if any;
/// what is written through it is what the map holds under `key` afterwards.
#[verifier::external_body]
fn layer_map_get_mut(m: &mut HashMap<usize, FoliageDensityMapU8>, key: usize) -> (r: Option<&mut FoliageDensityMapU8>)
    ensures
        r is Some <==> density_layers(*old(m)).contains_key(key),
        r matches Some(v) ==> v@ == density_layers(*old(m))[key]
            && density_layers(*final(m)) == density_layers(*old(m)).insert(key, final(v)@),
        r is None ==> density_layers(*final(m)) == density_layers(*old(m)),
{
    m.get_mut(&key)
}

/// Calls `HashMap::iter` and keeps each entry's key: every key once, in the map's own order.
#[verifier::external_body]
fn layer_map_keys(m: &HashMap<usize, FoliageDensityMapU8>) -> (keys: Vec<usize>)
    ensures
        keys@.no_duplicates(),
        keys@.to_set() == density_layers(*m).dom(),
{
    m.iter().map(|(k, _v)| *k).collect()
}

/// The density maps of all layers of a foliage scene, keyed by layer index.
pub struct FoliageDensityMapsComponent(pub HashMap<usize, FoliageDensityMapU8>);

impl View for FoliageDensityMapsComponent {
    type V = Map<usize, Seq<Seq<u8>>>;

    open spec fn view(&self) -> Map<usize, Seq<Seq<u8>>> {
        density_layers(self.0)
    }
}

/// One zero density map of the given size for each layer index below `layer_count`.
pub open spec fn fresh_layers(layer_count: nat, dimensions: IntVec2) -> Map<usize, Seq<Seq<u8>>> {
    Map::new(|k: usize| k < layer_count, |k: usize| zero_grid(dimensions.y as nat, dimensions.x as nat))
}

impl FoliageDensityMapsComponent {
    /// A zero density map of size `layer_dimension` for every foliage definition,
    /// keyed by the definition's position in `foliage_definitions`.
    pub fn new(layer_dimension: IntVec2, foliage_definitions: Vec<FoliageDefinition>) -> (maps: Self)
        requires
            foliage_definitions@.len() > 0 ==> layer_dimension.is_nonnegative(),
        ensures
            maps@ == fresh_layers(foliage_definitions@.len(), layer_dimension),
            forall|k: usize| #[trigger] maps@.contains_key(k) <==> k < foliage_definitions@.len(),
            forall|k: usize| k < foliage_definitions@.len()
                ==> #[trigger] maps@[k] == zero_grid(layer_dimension.y as nat, layer_dimension.x as nat),
    {
        let mut new_hashmap = empty_layer_map();
        let count = foliage_definitions.len();
        let mut layer_index: usize = 0;
        while layer_index < count
            invariant
                layer_index <= count,
                count == foliage_definitions@.len(),
                count > 0 ==> layer_dimension.is_nonnegative(),
                density_layers(new_hashmap) == fresh_layers(layer_index as nat, layer_dimension),
            decreases count - layer_index,
        {
            layer_map_insert(&mut new_hashmap, layer_index, FoliageDensityMapU8::new(layer_dimension));
            assert(density_layers(new_hashmap) =~= fresh_layers((layer_index + 1) as nat, layer_dimension));
            layer_index = layer_index + 1;
        }
        assert(density_layers(new_hashmap) =~= fresh_layers(count as nat, layer_dimension));
        FoliageDensityMapsComponent(new_hashmap)
    }

    /// The maps read from storage where there are any, else fresh zero maps
    /// for every foliage definition.
    pub fn create_or_load(
        loaded: Option<FoliageDensityMapsComponent>,
        foliage_dimensions: IntVec2,
        foliage_definitions: Vec<FoliageDefinition>,
    ) -> (maps: Self)
        requires
            loaded is None && foliage_definitions@.len() > 0 ==> foliage_dimensions.is_nonnegative(),
        ensures
            loaded matches Some(l) ==> maps@ == l@,
            loaded is None ==> maps@ == fresh_layers(foliage_definitions@.len(), foliage_dimensions),
    {
        match loaded {
            Some(r) => r,
            None => FoliageDensityMapsComponent::new(foliage_dimensions, foliage_definitions),
        }
    }

    /// The density map of layer `layer_index`, if the scene has that layer.
    pub fn layer(&self, layer_index: usize) -> (r: Option<&FoliageDensityMapU8>)
        ensures
            r is Some <==> self@.contains_key(layer_index),
            r matches Some(m) ==> m@ == self@[layer_index],
    {
        layer_map_get(&self.0, layer_index)
    }

    /// A handle on the density map of layer `layer_index`, if the scene has that
    /// layer; what is written through it becomes that layer's map.
    pub fn layer_mut(&mut self, layer_index: usize) -> (r: Option<&mut FoliageDensityMapU8>)
        ensures
            r is Some <==> old(self)@.contains_key(layer_index),
            r matches Some(m) ==> m@ == old(self)@[layer_index]
                && final(self)@ == old(self)@.insert(layer_index, final(m)@),
            r is None ==> final(self)@ == old(self)@,
    {
        layer_map_get_mut(&mut self.0, layer_index)
    }

    /// The layer indices that have a density map, each once.
    pub fn layer_indices(&self) -> (keys: Vec<usize>)
        ensures
            keys@.no_duplicates(),
            keys@.to_set() == self@.dom(),
    {
        layer_map_keys(&self.0)
    }
}

/// The number of the chunk that covers cell (`x`, `y`).
pub open spec fn covering_chunk(chunk_rows: u32, chunk_dimensions: IntVec2, x: int, y: int) -> int {
    (y / chunk_dimensions.y as int) * chunk_rows as int + x / chunk_dimensions.x as int
}

/// Cutting a grid into chunks loses nothing: each cell of the grid shows up in
/// the chunk that covers it, at the cell's offset within that chunk.
pub proof fn lemma_chunks_cover_grid(grid: Seq<Seq<u8>>, chunk_rows: u32, chunk_dimensions: IntVec2, x: int, y: int)
    requires
        chunk_dimensions.x > 0,
        chunk_dimensions.y > 0,
        0 <= y < grid.len(),
        0 <= x < grid[0].len(),
        x < chunk_rows * chunk_dimensions.x,
        covering_chunk(chunk_rows, chunk_dimensions, x, y) <= u32::MAX,
    ensures
        chunk_sub_section(grid, covering_chunk(chunk_rows, chunk_dimensions, x, y) as u32, chunk_rows, chunk_dimensions)
            [y % chunk_dimensions.y as int][x % chunk_dimensions.x as int] == grid[y][x],
{
    let w = chunk_dimensions.x as int;
    let h = chunk_dimensions.y as int;
    let n = chunk_rows as int;
    let cx = x / w;
    let cy = y / h;
    lemma_fundamental_div_mod(x, w);
    lemma_fundamental_div_mod(y, h);
    assert(cx < n) by (nonlinear_arith)
        requires x < n * w, x == w * cx + x % w, 0 <= x % w, w > 0;
    assert(cx >= 0) by (nonlinear_arith)
        requires x >= 0, w > 0, cx == x / w;
    assert(cy >= 0) by (nonlinear_arith)
        requires y >= 0, h > 0, cy == y / h;
    let id = covering_chunk(chunk_rows, chunk_dimensions, x, y);
    assert(id == cy * n + cx);
    lemma_fundamental_div_mod_converse(id, n, cy, cx);
    let id32 = id as u32;
    assert(id32 as int == id);
    assert(chunk_start_x(id32, chunk_rows, chunk_dimensions.x) == cx * w);
    assert(chunk_start_y(id32, chunk_rows, chunk_dimensions.y) == cy * h);
    assert(cx * w + x % w == x) by (nonlinear_arith)
        requires x == w * cx + x % w;
    assert(cy * h + y % h == y) by (nonlinear_arith)
        requires y == h * cy + y % h;
}

/// A fresh map has nothing painted in any chunk.
pub proof fn lemma_fresh_chunks_are_empty(height: nat, width: nat, chunk_id: u32, chunk_rows: u32, chunk_dimensions: IntVec2)
    requires
        chunk_rows > 0,
        chunk_dimensions.is_nonnegative(),
    ensures
        chunk_sub_section(zero_grid(height, width), chunk_id, chunk_rows, chunk_dimensions)
            == zero_grid(chunk_dimensions.y as nat, chunk_dimensions.x as nat),
{
    let sub = chunk_sub_section(zero_grid(height, width), chunk_id, chunk_rows, chunk_dimensions);
    let zero = zero_grid(chunk_dimensions.y as nat, chunk_dimensions.x as nat);
    assert forall|r: int| 0 <= r < sub.len() implies #[trigger] sub[r] =~= zero[r] by {}
    assert(sub =~= zero);
}

/// A zero grid has the given number of rows, each of the given width, and
/// every cell is 0.
pub proof fn lemma_zero_grid_shape(height: nat, width: nat)
    ensures
        zero_grid(height, width).len() == height,
        forall|r: int| 0 <= r < height ==> #[trigger] zero_grid(height, width)[r].len() == width,
        forall|r: int, c: int| 0 <= r < height && 0 <= c < width ==> #[trigger] zero_grid(height, width)[r][c] == 0,
{
}

/// Fresh density maps have exactly the layers `0 .. layer_count`, each a grid
/// of `dimensions.y` rows of `dimensions.x` zeros.
pub proof fn lemma_fresh_layers_shape(layer_count: nat, dimensions: IntVec2)
    requires
        dimensions.is_nonnegative(),
    ensures
        forall|k: usize| #[trigger] fresh_layers(layer_count, dimensions).contains_key(k) <==> k < layer_count,
        forall|k: usize| k < layer_count ==> {
            &&& (#[trigger] fresh_layers(layer_count, dimensions)[k]).len() == dimensions.y
            &&& forall|r: int| 0 <= r < dimensions.y ==> #[trigger] fresh_layers(layer_count, dimensions)[k][r].len() == dimensions.x
            &&& forall|r: int, c: int| 0 <= r < dimensions.y && 0 <= c < dimensions.x
                ==> #[trigger] fresh_layers(layer_count, dimensions)[k][r][c] == 0
        },
{
}

} // verus!
