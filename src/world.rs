//! Moisture advection, classification and assembly of the world grid and of
//! chunks.
use vstd::arithmetic::div_mod::{lemma_fundamental_div_mod, lemma_fundamental_div_mod_converse};
use vstd::prelude::*;

use crate::biome::{biome_from_climate, classify, Biome, MAX_ELEVATION};
use crate::climate::{climate_of, generate_square_at_position, Climate, FieldSamples};
use crate::fixed::{clamp_to_unit, clamp_unit, UNIT};
use crate::torus::{index_toroidal, toroidal_index, wrapped};

verus! {

/// Columns computed beyond a chunk's right edge, read by the advection pass.
pub const HALO: usize = 1;

/// One finished cell of the world.
#[derive(Clone, Copy, Debug, PartialEq, Eq, Structural)]
pub struct Square {
    pub biome: Biome,
    pub elevation: i64,
    pub temperature: i64,
    pub moisture: i64,
}

/// The whole world: `width * height` squares, row-major.
pub struct WorldMap {
    pub width: u32,
    pub height: u32,
    pub squares: Vec<Square>,
}

/// The climates of one chunk before advection: `chunk_size` rows of
/// `chunk_size + HALO` cells. The last column is the halo: the climates of
/// the cells just beyond the chunk's right edge (wrapping around the world),
/// computed directly like every other cell, so that a chunk needs nothing
/// from the chunks beside it.
pub struct ChunkBuffer {
    pub chunk_size: usize,
    pub climates: Vec<Climate>,
}

/// Moisture of a cell after advection from its upwind neighbour: moisture
/// climbing to a higher cell loses `0.4` times the height difference
/// (as a fraction of the highest elevation); the result stays in `[0, 1]`.
pub open spec fn advected_moisture(cur: Climate, up: Climate) -> int {
    if cur.elevation > up.elevation {
        clamp_unit(up.moisture - (cur.elevation - up.elevation) / 250)
    } else {
        clamp_unit(up.moisture as int)
    }
}

/// The finished square of a cell, given the climates of the cell and of its
/// upwind neighbour.
pub open spec fn settled(cur: Climate, up: Climate) -> Square {
    let m = advected_moisture(cur, up);
    Square {
        biome: classify(cur.temperature as int, m, cur.elevation as int, MAX_ELEVATION as int),
        elevation: cur.elevation,
        temperature: cur.temperature,
        moisture: m as i64,
    }
}

/// Index of the first cell of the row that holds cell `j`.
pub open spec fn row_start(j: int, width: int) -> int {
    j - j % width
}

/// Index of the upwind neighbour of cell `j`: the next cell of its row,
/// wrapping from the row's last cell to its first.
pub open spec fn upwind_index(j: int, width: int) -> int {
    if j % width + 1 == width {
        row_start(j, width)
    } else {
        j + 1
    }
}

/// Square `j` of the world whose climates before advection are `c`.
pub open spec fn world_square(c: Seq<Climate>, size: int, j: int) -> Square {
    settled(c[j], c[upwind_index(j, size)])
}

/// Square `j` of a chunk, from its buffer `b` of rows `size + HALO` long.
pub open spec fn chunk_square(b: Seq<Climate>, size: int, j: int) -> Square {
    let k = j + j / size;
    settled(b[k], b[k + 1])
}

impl WorldMap {
    /// A square grid whose squares fill it exactly.
    pub open spec fn wf(&self) -> bool {
        &&& self.width > 0
        &&& self.height == self.width
        &&& self.squares.len() == self.width * self.height
    }

    /// The biome at `(x, y)`, both taken modulo the side of the world.
    pub fn biome_at(&self, x: i64, y: i64) -> (r: Biome)
        requires
            self.wf(),
        ensures
            r == self.squares[toroidal_index(x as int, y as int, self.width as int)].biome,
    {
        let i = index_toroidal(x, y, self.width as i64);
        self.squares[i].biome
    }
}

impl ChunkBuffer {
    /// `chunk_size` full rows of `chunk_size + HALO` climates in range.
    pub open spec fn wf(&self) -> bool {
        &&& self.chunk_size > 0
        &&& self.climates.len() == self.chunk_size * (self.chunk_size + HALO)
        &&& forall|i: int| 0 <= i < self.climates.len() ==> (#[trigger] self.climates[i]).wf()
    }
}

/// Advects moisture into a cell from its upwind neighbour and classifies it.
fn settle(cur: &Climate, up: &Climate) -> (r: Square)
    requires
        cur.wf(),
        up.wf(),
    ensures
        r == settled(*cur, *up),
        0 <= r.moisture <= UNIT,
{
    let moisture = if cur.elevation > up.elevation {
        clamp_to_unit(up.moisture - (cur.elevation - up.elevation) / 250)
    } else {
        clamp_to_unit(up.moisture)
    };
    let biome = biome_from_climate(cur.temperature, moisture, cur.elevation, MAX_ELEVATION);
    Square { biome, elevation: cur.elevation, temperature: cur.temperature, moisture }
}

/// Splits cell `j` of a `width`-wide grid of `rows` rows into row and column.
proof fn lemma_cell_split(j: int, width: int, rows: int)
    requires
        width > 0,
        0 <= j < width * rows,
    ensures
        j == (j / width) * width + j % width,
        0 <= j % width < width,
        0 <= j / width < rows,
        (j / width) * width + width <= width * rows,
{
    lemma_fundamental_div_mod(j, width);
    let q = j / width;
    let r = j % width;
    assert(q * width == width * q) by (nonlinear_arith);
    assert(0 <= q < rows) by (nonlinear_arith)
        requires
            j == width * q + r,
            0 <= r < width,
            0 <= j < width * rows,
            width > 0,
    ;
    assert(q * width + width <= width * rows) by (nonlinear_arith)
        requires
            q < rows,
            width > 0,
    ;
}

/// Runs the advection pass over each row of the world and classifies every
/// square. Every cell takes its upwind neighbour's moisture from before the
/// pass. Each row wraps: its last cell's upwind neighbour is its first.
pub fn generate_world(climates: &Vec<Climate>, world_size: u32) -> (r: WorldMap)
    requires
        world_size > 0,
        climates.len() == world_size * world_size,
        forall|i: int| 0 <= i < climates.len() ==> (#[trigger] climates[i]).wf(),
    ensures
        r.wf(),
        r.width == world_size,
        forall|j: int|
            0 <= j < r.squares.len() ==> #[trigger] r.squares[j] == world_square(
                climates@,
                world_size as int,
                j,
            ),
        forall|j: int| 0 <= j < r.squares.len() ==> 0 <= #[trigger] r.squares[j].moisture <= UNIT,
{
    let w = world_size as usize;
    let n = climates.len();
    let mut squares: Vec<Square> = Vec::with_capacity(n);
    let mut i: usize = 0;
    while i < n
        invariant
            w == world_size,
            w > 0,
            n == climates.len() == w * w,
            i <= n,
            squares.len() == i,
            forall|k: int| 0 <= k < climates.len() ==> (#[trigger] climates[k]).wf(),
            forall|j: int|
                0 <= j < i ==> #[trigger] squares[j] == world_square(climates@, w as int, j),
            forall|j: int| 0 <= j < i ==> 0 <= #[trigger] squares[j].moisture <= UNIT,
        decreases n - i,
    {
        let x = i % w;
        proof {
            lemma_cell_split(i as int, w as int, w as int);
        }
        let up = if x + 1 == w {
            i - x
        } else {
            i + 1
        };
        let sq = settle(&climates[i], &climates[up]);
        squares.push(sq);
        i = i + 1;
    }
    WorldMap { width: world_size, height: world_size, squares }
}

/// The climates, before advection, of a world whose cell `j` has the noise
/// samples `samples[j]`.
pub open spec fn climate_grid(samples: Seq<FieldSamples>, size: int) -> Seq<Climate> {
    Seq::new(samples.len(), |j: int| climate_of(&samples[j], j / size, size))
}

/// Generates the whole world from the noise samples of its cells, given
/// row-major: the climate of every cell, then the advection pass and the
/// biomes.
pub fn generate_logical_world(samples: &Vec<FieldSamples>, world_size: u32) -> (r: WorldMap)
    requires
        world_size > 0,
        samples.len() == world_size * world_size,
        forall|i: int| 0 <= i < samples.len() ==> (#[trigger] samples[i]).wf(),
    ensures
        r.wf(),
        r.width == world_size,
        forall|j: int|
            0 <= j < r.squares.len() ==> #[trigger] r.squares[j] == world_square(
                climate_grid(samples@, world_size as int),
                world_size as int,
                j,
            ),
        forall|j: int| 0 <= j < r.squares.len() ==> 0 <= #[trigger] r.squares[j].moisture <= UNIT,
{
    let w = world_size as usize;
    let n = samples.len();
    let mut climates: Vec<Climate> = Vec::with_capacity(n);
    let mut i: usize = 0;
    while i < n
        invariant
            w == world_size,
            w > 0,
            n == samples.len() == w * w,
            i <= n,
            climates.len() == i,
            forall|k: int| 0 <= k < samples.len() ==> (#[trigger] samples[k]).wf(),
            forall|k: int|
                0 <= k < i ==> #[trigger] climates[k] == climate_grid(samples@, w as int)[k],
            forall|k: int| 0 <= k < i ==> (#[trigger] climates[k]).wf(),
        decreases n - i,
    {
        proof {
            lemma_cell_split(i as int, w as int, w as int);
            vstd::arithmetic::div_mod::lemma_small_mod((i / w) as nat, w as nat);
        }
        let y = (i / w) as i64;
        let c = generate_square_at_position(&samples[i], y, world_size as i64);
        climates.push(c);
        i = i + 1;
    }
    assert(climates@ =~= climate_grid(samples@, w as int));
    generate_world(&climates, world_size)
}

/// The climates of a chunk buffer whose cell `i` has the noise samples
/// `samples[i]`, the buffer's first row lying at world row `origin_y`.
pub open spec fn chunk_climates(samples: Seq<FieldSamples>, origin_y: int, chunk_size: int, size: int) -> Seq<Climate> {
    Seq::new(
        samples.len(),
        |i: int| climate_of(&samples[i], wrapped(origin_y + i / (chunk_size + HALO), size), size),
    )
}

/// Computes the climates of a chunk and its halo column from the noise
/// samples of its cells, given row by row, `chunk_size + HALO` to a row. The
/// chunk's row on the world is `chunk_y`; its column only enters through the
/// samples.
pub fn generate_chunk_primary(
    samples: &Vec<FieldSamples>,
    chunk_y: i32,
    chunk_size: usize,
    world_size: u32,
) -> (r: ChunkBuffer)
    requires
        0 < chunk_size <= u32::MAX,
        world_size > 0,
        samples.len() == chunk_size * (chunk_size + HALO),
        forall|i: int| 0 <= i < samples.len() ==> (#[trigger] samples[i]).wf(),
    ensures
        r.wf(),
        r.chunk_size == chunk_size,
        r.climates@ == chunk_climates(
            samples@,
            chunk_y * chunk_size,
            chunk_size as int,
            world_size as int,
        ),
{
    let width = chunk_size + HALO;
    let n = samples.len();
    assert(-0x8000_0000 * 0xffff_ffff <= chunk_y * chunk_size <= 0x7fff_ffff * 0xffff_ffff) by (nonlinear_arith)
        requires
            -0x8000_0000 <= chunk_y < 0x8000_0000,
            0 < chunk_size <= 0xffff_ffff,
    ;
    let origin: i64 = chunk_y as i64 * chunk_size as i64;
    let mut climates: Vec<Climate> = Vec::with_capacity(n);
    let mut i: usize = 0;
    while i < n
        invariant
            width == chunk_size + HALO,
            0 < chunk_size <= u32::MAX,
            world_size > 0,
            origin == chunk_y * chunk_size,
            -0x8000_0000 * 0xffff_ffff <= origin <= 0x7fff_ffff * 0xffff_ffff,
            n == samples.len() == chunk_size * width,
            i <= n,
            climates.len() == i,
            forall|k: int| 0 <= k < samples.len() ==> (#[trigger] samples[k]).wf(),
            forall|k: int|
                0 <= k < i ==> #[trigger] climates[k] == chunk_climates(
                    samples@,
                    origin as int,
                    chunk_size as int,
                    world_size as int,
                )[k],
            forall|k: int| 0 <= k < i ==> (#[trigger] climates[k]).wf(),
        decreases n - i,
    {
        proof {
            assert(width * chunk_size == chunk_size * width) by (nonlinear_arith);
            lemma_cell_split(i as int, width as int, chunk_size as int);
        }
        let y = origin + (i / width) as i64;
        let c = generate_square_at_position(&samples[i], y, world_size as i64);
        climates.push(c);
        i = i + 1;
    }
    assert(climates@ =~= chunk_climates(samples@, origin as int, chunk_size as int, world_size as int));
    ChunkBuffer { chunk_size, climates }
}

/// Runs the advection pass over a chunk and classifies its squares. Each
/// row's last visible cell reads its upwind neighbour from the halo column,
/// so the chunk needs nothing from the chunks beside it.
pub fn generate_chunk_data(buffer: &ChunkBuffer) -> (r: Vec<Square>)
    requires
        buffer.wf(),
    ensures
        r.len() == buffer.chunk_size * buffer.chunk_size,
        forall|j: int|
            0 <= j < r.len() ==> #[trigger] r[j] == chunk_square(
                buffer.climates@,
                buffer.chunk_size as int,
                j,
            ),
        forall|j: int| 0 <= j < r.len() ==> 0 <= #[trigger] r[j].moisture <= UNIT,
{
    let s = buffer.chunk_size;
    proof {
        assert(s * s <= s * (s + HALO)) by (nonlinear_arith)
            requires
                s > 0,
        ;
    }
    let n = s * s;
    let mut squares: Vec<Square> = Vec::with_capacity(n);
    let mut j: usize = 0;
    while j < n
        invariant
            s == buffer.chunk_size,
            buffer.wf(),
            n == s * s,
            j <= n,
            squares.len() == j,
            forall|k: int|
                0 <= k < j ==> #[trigger] squares[k] == chunk_square(
                    buffer.climates@,
                    s as int,
                    k,
                ),
            forall|k: int| 0 <= k < j ==> 0 <= #[trigger] squares[k].moisture <= UNIT,
        decreases n - j,
    {
        proof {
            lemma_cell_split(j as int, s as int, s as int);
            assert(j + j / s + 1 < s * (s + 1)) by (nonlinear_arith)
                requires
                    j / s < s,
                    j < s * s,
            ;
        }
        let row = j / s;
        let k = j + row;
        let sq = settle(&buffer.climates[k], &buffer.climates[k + 1]);
        squares.push(sq);
        j = j + 1;
    }
    squares
}

/// Stepping once upwind from the cell at `(x, y)` reaches the cell at
/// `(x + 1, y)`, on the torus.
proof fn lemma_upwind_of_toroidal(x: int, y: int, size: int)
    requires
        size > 0,
    ensures
        upwind_index(toroidal_index(x, y, size), size) == toroidal_index(x + 1, y, size),
{
    let wx = wrapped(x, size);
    let wy = wrapped(y, size);
    let j = toroidal_index(x, y, size);
    lemma_fundamental_div_mod(x, size);
    lemma_fundamental_div_mod_converse(j, size, wy, wx);
    let q = x / size;
    if wx + 1 == size {
        assert(x + 1 == (q + 1) * size + 0) by (nonlinear_arith)
            requires
                x == size * q + wx,
                wx + 1 == size,
        ;
        lemma_fundamental_div_mod_converse(x + 1, size, q + 1, 0);
    } else {
        assert(x + 1 == q * size + (wx + 1)) by (nonlinear_arith)
            requires
                x == size * q + wx,
        ;
        lemma_fundamental_div_mod_converse(x + 1, size, q, wx + 1);
    }
}

/// Generating a chunk gives, at each of its cells, the square that generating
/// the whole world gives at the same place: the result does not depend on how
/// the world is split into chunks. `origin_x`, `origin_y` is the chunk's first
/// cell; its buffer holds the world's climates at the places it covers.
pub proof fn lemma_chunk_matches_world(
    world: Seq<Climate>,
    world_size: int,
    buffer: Seq<Climate>,
    chunk_size: int,
    origin_x: int,
    origin_y: int,
)
    requires
        world_size > 0,
        chunk_size > 0,
        world.len() == world_size * world_size,
        buffer.len() == chunk_size * (chunk_size + HALO),
        forall|r: int, k: int|
            0 <= r < chunk_size && 0 <= k <= chunk_size ==> #[trigger] buffer[r * (chunk_size + HALO)
                + k] == world[toroidal_index(origin_x + k, origin_y + r, world_size)],
    ensures
        forall|j: int|
            0 <= j < chunk_size * chunk_size ==> #[trigger] chunk_square(buffer, chunk_size, j)
                == world_square(
                world,
                world_size,
                toroidal_index(origin_x + j % chunk_size, origin_y + j / chunk_size, world_size),
            ),
{
    assert forall|j: int| 0 <= j < chunk_size * chunk_size implies #[trigger] chunk_square(
        buffer,
        chunk_size,
        j,
    ) == world_square(
        world,
        world_size,
        toroidal_index(origin_x + j % chunk_size, origin_y + j / chunk_size, world_size),
    ) by {
        lemma_cell_split(j, chunk_size, chunk_size);
        let r = j / chunk_size;
        let k = j % chunk_size;
        assert(j + r == r * (chunk_size + HALO) + k) by (nonlinear_arith)
            requires
                j == r * chunk_size + k,
        ;
        assert(buffer[r * (chunk_size + HALO) + k] == world[toroidal_index(
            origin_x + k,
            origin_y + r,
            world_size,
        )]);
        assert(buffer[r * (chunk_size + HALO) + (k + 1)] == world[toroidal_index(
            origin_x + (k + 1),
            origin_y + r,
            world_size,
        )]);
        lemma_upwind_of_toroidal(origin_x + k, origin_y + r, world_size);
    }
}

/// Generating a chunk from noise samples gives, at each of its cells, the
/// square that generating the whole world from its samples gives at the same
/// place, provided the chunk's samples are the world's samples there.
pub proof fn lemma_chunk_from_samples_matches_world(
    world: Seq<FieldSamples>,
    world_size: int,
    chunk: Seq<FieldSamples>,
    chunk_size: int,
    chunk_x: int,
    chunk_y: int,
)
    requires
        world_size > 0,
        chunk_size > 0,
        world.len() == world_size * world_size,
        chunk.len() == chunk_size * (chunk_size + HALO),
        forall|r: int, k: int|
            0 <= r < chunk_size && 0 <= k <= chunk_size ==> #[trigger] chunk[r * (chunk_size + HALO)
                + k] == world[toroidal_index(
                chunk_x * chunk_size + k,
                chunk_y * chunk_size + r,
                world_size,
            )],
    ensures
        forall|j: int|
            0 <= j < chunk_size * chunk_size ==> #[trigger] chunk_square(
                chunk_climates(chunk, chunk_y * chunk_size, chunk_size, world_size),
                chunk_size,
                j,
            ) == world_square(
                climate_grid(world, world_size),
                world_size,
                toroidal_index(
                    chunk_x * chunk_size + j % chunk_size,
                    chunk_y * chunk_size + j / chunk_size,
                    world_size,
                ),
            ),
{
    let ox = chunk_x * chunk_size;
    let oy = chunk_y * chunk_size;
    let w = chunk_size + HALO;
    let buffer = chunk_climates(chunk, oy, chunk_size, world_size);
    let grid = climate_grid(world, world_size);
    assert forall|r: int, k: int| 0 <= r < chunk_size && 0 <= k <= chunk_size implies #[trigger] buffer[r
        * w + k] == grid[toroidal_index(ox + k, oy + r, world_size)] by {
        let i = r * w + k;
        let t = toroidal_index(ox + k, oy + r, world_size);
        assert(0 <= i < chunk.len()) by (nonlinear_arith)
            requires
                0 <= r < chunk_size,
                0 <= k <= chunk_size,
                w == chunk_size + 1,
                i == r * w + k,
                chunk.len() == chunk_size * w,
        ;
        lemma_fundamental_div_mod_converse(i, w, r, k);
        assert(chunk[i] == world[t]);
        let wx = wrapped(ox + k, world_size);
        let wy = wrapped(oy + r, world_size);
        assert(0 <= wx < world_size && 0 <= wy < world_size);
        lemma_fundamental_div_mod_converse(t, world_size, wy, wx);
        assert(0 <= t < world.len()) by (nonlinear_arith)
            requires
                t == wy * world_size + wx,
                0 <= wx < world_size,
                0 <= wy < world_size,
                world.len() == world_size * world_size,
        ;
    }
    lemma_chunk_matches_world(grid, world_size, buffer, chunk_size, ox, oy);
}

/// A square depends on its own row alone: two worlds whose climates agree on
/// the row of cell `j` give the same square at `j`, so rows may be settled
/// in any order, or at once, with the same result.
pub proof fn lemma_square_depends_on_its_row(c1: Seq<Climate>, c2: Seq<Climate>, size: int, j: int)
    requires
        size > 0,
        c1.len() == c2.len() == size * size,
        0 <= j < size * size,
        forall|k: int|
            row_start(j, size) <= k < row_start(j, size) + size ==> #[trigger] c1[k] == c2[k],
    ensures
        world_square(c1, size, j) == world_square(c2, size, j),
{
    lemma_cell_split(j, size, size);
    assert(c1[j] == c2[j]);
    assert(c1[upwind_index(j, size)] == c2[upwind_index(j, size)]);
}

/// Every square that the advection pass settles has moisture in `[0, 1]`.
pub proof fn lemma_settled_moisture_in_range(cur: Climate, up: Climate)
    requires
        cur.wf(),
        up.wf(),
    ensures
        0 <= settled(cur, up).moisture <= UNIT,
{
}

/// A settled square whose elevation lies below sea level (48) is Ocean,
/// whatever its temperature and moisture.
pub proof fn lemma_low_squares_are_ocean(cur: Climate, up: Climate)
    requires
        cur.elevation < 48 * UNIT,
    ensures
        settled(cur, up).biome == Biome::Ocean,
{
}

/// Rain shadow: along a row whose elevation rises strictly from left to right
/// and whose moisture before the pass is uniform, moisture after the pass
/// never increases from left to right.
pub proof fn lemma_rain_shadow_on_rising_row(row: Seq<Climate>)
    requires
        row.len() > 0,
        forall|i: int| 0 <= i < row.len() ==> (#[trigger] row[i]).wf(),
        forall|i: int| 0 <= i < row.len() ==> (#[trigger] row[i]).moisture == row[0].moisture,
        forall|i: int, j: int|
            0 <= i < j < row.len() ==> (#[trigger] row[i]).elevation < (#[trigger] row[j]).elevation,
    ensures
        forall|j: int|
            0 <= j < row.len() - 1 ==> (#[trigger] world_square(row, row.len() as int, j + 1)).moisture
                <= world_square(row, row.len() as int, j).moisture,
{
    let w = row.len() as int;
    assert forall|j: int| 0 <= j < w - 1 implies (#[trigger] world_square(
        row,
        w,
        j + 1,
    )).moisture <= world_square(row, w, j).moisture by {
        vstd::arithmetic::div_mod::lemma_small_mod(j as nat, w as nat);
        vstd::arithmetic::div_mod::lemma_small_mod((j + 1) as nat, w as nat);
        assert(upwind_index(j, w) == j + 1);
        assert(row[j].elevation < row[j + 1].elevation);
        if j + 2 < w {
            vstd::arithmetic::div_mod::lemma_small_mod((j + 2) as nat, w as nat);
            assert(upwind_index(j + 1, w) == j + 2);
            assert(row[j + 1].elevation < row[j + 2].elevation);
        } else {
            assert(upwind_index(j + 1, w) == 0);
        }
    }
}

} // verus!
