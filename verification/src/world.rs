use vstd::prelude::*;

verus! {

/// Side of a square chunk of tiles.
pub const CHUNK_DIM: usize = 64;

/// Number of tiles in one chunk.
pub const CHUNK_TILES: usize = CHUNK_DIM * CHUNK_DIM;

/// Width of the tile map, in tiles.
pub const MAP_W: usize = 256;

/// Height of the tile map, in tiles.
pub const MAP_H: usize = 256;

/// Number of tiles in the map.
pub const MAP_TILES: usize = MAP_W * MAP_H;

/// Chunks along one side of the world.
pub const OUTPUT_DIM: usize = MAP_H / CHUNK_DIM;

/// Number of chunks in the world.
pub const N_CHUNKS: usize = (MAP_W * MAP_H) / (CHUNK_DIM * CHUNK_DIM);

/// The sizes above, worked out.
pub proof fn lemma_world_dims()
    ensures
        CHUNK_TILES == 4096,
        MAP_TILES == 65536,
        OUTPUT_DIM == 4,
        N_CHUNKS == 16,
{
    assert(CHUNK_DIM * CHUNK_DIM == 4096) by (nonlinear_arith);
    assert(MAP_W * MAP_H == 65536) by (nonlinear_arith);
    assert(MAP_H / CHUNK_DIM == 4) by (nonlinear_arith);
    assert((MAP_W * MAP_H) / (CHUNK_DIM * CHUNK_DIM) == 16) by (nonlinear_arith);
}

/// A coordinate along one axis of the tile world: the chunk, and the tile
/// within that chunk.
#[derive(Debug, Clone, Copy, PartialEq, Eq, Structural)]
pub struct TileCoord {
    pub chunk: i64,
    pub tile: i64,
}

impl TileCoord {
    /// The tile index along the axis, counted from the start of chunk 0.
    pub open spec fn absolute(self) -> int {
        self.chunk * (CHUNK_DIM as int) + self.tile
    }

    /// The tile lies inside its chunk.
    pub open spec fn is_canonical(self) -> bool {
        0 <= self.tile < CHUNK_DIM as int
    }

    /// Moving `n` tiles from `self`, with euclidean carry into the chunk.
    pub open spec fn spec_offset(self, n: int) -> TileCoord {
        TileCoord {
            chunk: (self.chunk + (self.tile + n) / (CHUNK_DIM as int)) as i64,
            tile: ((self.tile + n) % (CHUNK_DIM as int)) as i64,
        }
    }

    /// `spec_offset` stays inside `i64`.
    pub open spec fn offset_fits(self, n: int) -> bool {
        &&& i64::MIN <= self.tile + n <= i64::MAX
        &&& i64::MIN <= self.chunk + (self.tile + n) / (CHUNK_DIM as int) <= i64::MAX
    }

    /// Moves `rhs` tiles along the axis; the result is canonical.
    pub fn add(self, rhs: i64) -> (r: TileCoord)
        requires
            self.offset_fits(rhs as int),
        ensures
            r == self.spec_offset(rhs as int),
            r.is_canonical(),
            r.absolute() == self.absolute() + rhs,
    {
        let total: i64 = self.tile + rhs;
        let chunk_dim: i64 = CHUNK_DIM as i64;
        let carry: i64 = total.checked_div_euclid(chunk_dim).unwrap();
        let tile: i64 = total.checked_rem_euclid(chunk_dim).unwrap();
        TileCoord { chunk: self.chunk + carry, tile }
    }
}


/// One chunk of the world: `CHUNK_DIM` rows of `CHUNK_DIM` tile values, row
/// by row.
pub struct TileChunk {
    pub tiles: Vec<u8>,
}

impl TileChunk {
    /// The chunk holds exactly one value per tile.
    pub open spec fn wf(&self) -> bool {
        self.tiles.len() == CHUNK_TILES
    }

    /// Reads the tile at column `x`, row `y` of the chunk (index
    /// `CHUNK_DIM * y + x`).
    pub fn value_at(&self, x: i64, y: i64) -> (r: u8)
        requires
            i64::MIN <= CHUNK_DIM * y <= i64::MAX,
            0 <= CHUNK_DIM * y + x < self.tiles.len(),
            CHUNK_DIM * y + x <= i64::MAX,
        ensures
            r == self.tiles@[CHUNK_DIM * y + x],
    {
        let row: i64 = CHUNK_DIM as i64 * y;
        let col: i64 = x;
        assert(row == CHUNK_DIM * y);
        self.tiles[(row + col) as usize]
    }
}

impl Default for TileChunk {
    /// An all-empty chunk.
    fn default() -> (r: Self)
        ensures
            r.wf(),
            forall|i: int| 0 <= i < CHUNK_TILES ==> r.tiles@[i] == 0u8,
    {
        proof {
            lemma_world_dims();
        }
        let mut tiles: Vec<u8> = Vec::new();
        let mut i: usize = 0;
        while i < CHUNK_TILES
            invariant
                i <= CHUNK_TILES,
                tiles.len() == i,
                forall|j: int| 0 <= j < i ==> tiles@[j] == 0u8,
            decreases CHUNK_TILES - i,
        {
            tiles.push(0u8);
            i = i + 1;
        }
        TileChunk { tiles }
    }
}

/// The tile world: `OUTPUT_DIM` by `OUTPUT_DIM` chunks, row by row.
pub struct World {
    pub tile_chunk_count_x: i64,
    pub tile_chunk_count_y: i64,
    pub tile_chunks: Vec<TileChunk>,
}

/// The chunk coordinate names a chunk of the world.
pub open spec fn chunk_in_range(c: int) -> bool {
    0 <= c < OUTPUT_DIM
}

/// Where the chunk at chunk column `cx`, chunk row `cy` is stored.
pub open spec fn chunk_index(cx: int, cy: int) -> int {
    cy * OUTPUT_DIM + cx
}

/// Where the tile at column `tx`, row `ty` of a chunk is stored.
pub open spec fn tile_index(tx: int, ty: int) -> int {
    ty * CHUNK_DIM + tx
}

/// Where the map cell at column `x`, row `y` is stored.
pub open spec fn map_index(x: int, y: int) -> int {
    y * MAP_W + x
}

impl World {
    /// The world's shape: its chunk counts, and one full chunk per slot.
    pub open spec fn wf(&self) -> bool {
        &&& self.tile_chunk_count_x == OUTPUT_DIM
        &&& self.tile_chunk_count_y == OUTPUT_DIM
        &&& self.tile_chunks.len() == N_CHUNKS
        &&& forall|i: int| 0 <= i < N_CHUNKS ==> (#[trigger] self.tile_chunks@[i]).wf()
    }

    /// The value of tile (`tx`, `ty`) in chunk (`cx`, `cy`).
    pub open spec fn cell(&self, cx: int, cy: int, tx: int, ty: int) -> u8 {
        self.tile_chunks@[chunk_index(cx, cy)].tiles@[tile_index(tx, ty)]
    }

    /// Each chunk of the world holds the matching square of the map
    /// `map`, stored row by row.
    pub open spec fn matches_tilemap(&self, map: Seq<u8>) -> bool {
        forall|cx: int, cy: int, tx: int, ty: int|
            chunk_in_range(cx) && chunk_in_range(cy) && 0 <= tx < CHUNK_DIM && 0 <= ty < CHUNK_DIM
                ==> #[trigger] self.cell(cx, cy, tx, ty) == map[map_index(
                cx * CHUNK_DIM + tx,
                cy * CHUNK_DIM + ty,
            )]
    }

    /// Where the world stores the chunk at chunk column `cx`, chunk row
    /// `cy`: `tile_chunk_count_x` chunks to a row.
    pub open spec fn chunk_slot(&self, cx: int, cy: int) -> int {
        cy * self.tile_chunk_count_x + cx
    }

    /// Every chunk coordinate pair in range names a stored chunk, and its
    /// slot is worked out within `i64`.
    pub open spec fn indexable(&self) -> bool {
        &&& 0 <= self.tile_chunk_count_x
        &&& (OUTPUT_DIM - 1) * self.tile_chunk_count_x + (OUTPUT_DIM - 1) < self.tile_chunks.len()
        &&& (OUTPUT_DIM - 1) * self.tile_chunk_count_x + (OUTPUT_DIM - 1) <= i64::MAX
    }

    /// Every chunk the world's coordinates reach holds a value per tile.
    pub open spec fn chunks_full(&self) -> bool {
        forall|cx: int, cy: int|
            chunk_in_range(cx) && chunk_in_range(cy) ==> (#[trigger] self.tile_chunks@[self.chunk_slot(
                cx,
                cy,
            )]).tiles.len() >= CHUNK_TILES
    }

    /// The chunk stored for chunk coordinates (`cx`, `cy`).
    pub open spec fn chunk_at(&self, cx: int, cy: int) -> TileChunk {
        self.tile_chunks@[self.chunk_slot(cx, cy)]
    }

    /// The value at tile coordinates (`x`, `y`), read at index
    /// `CHUNK_DIM * y.tile + x.tile` of their chunk: `None` when the chunk
    /// is outside the world.
    pub open spec fn tile_value(&self, x: TileCoord, y: TileCoord) -> Option<u8> {
        if chunk_in_range(x.chunk as int) && chunk_in_range(y.chunk as int) {
            Some(
                self.chunk_at(x.chunk as int, y.chunk as int).tiles@[CHUNK_DIM * y.tile
                    + x.tile],
            )
        } else {
            None
        }
    }

    /// Tile coordinates (`x`, `y`), when their chunk is in the world, index
    /// a tile of it, worked out within `i64`.
    pub open spec fn tile_readable(&self, x: TileCoord, y: TileCoord) -> bool {
        chunk_in_range(x.chunk as int) && chunk_in_range(y.chunk as int) ==> {
            &&& i64::MIN <= CHUNK_DIM * y.tile <= i64::MAX
            &&& 0 <= CHUNK_DIM * y.tile + x.tile
            &&& CHUNK_DIM * y.tile + x.tile < self.chunk_at(x.chunk as int, y.chunk as int).tiles.len()
            &&& CHUNK_DIM * y.tile + x.tile <= i64::MAX
        }
    }

    /// Cuts the map `map` (stored row by row) into the world's chunks: the
    /// chunk at chunk column `cx`, chunk row `cy` receives the square of
    /// the map whose top-left cell is (`cx * CHUNK_DIM`, `cy * CHUNK_DIM`).
    pub fn from_tilemap(map: &Vec<u8>) -> (world: World)
        requires
            map.len() == MAP_TILES,
        ensures
            world.wf(),
            world.indexable(),
            world.chunks_full(),
            world.matches_tilemap(map@),
    {
        proof {
            lemma_world_dims();
        }
        let mut tile_chunks: Vec<TileChunk> = Vec::new();
        let mut r_i: usize = 0;
        while r_i < OUTPUT_DIM
            invariant
                r_i <= OUTPUT_DIM,
                OUTPUT_DIM == 4,
                CHUNK_TILES == 4096,
                map.len() == MAP_TILES,
                MAP_TILES == 65536,
                tile_chunks.len() == r_i * OUTPUT_DIM,
                forall|i: int| 0 <= i < tile_chunks.len() ==> (#[trigger] tile_chunks@[i]).wf(),
                forall|cx: int, cy: int, tx: int, ty: int|
                    chunk_in_range(cx) && 0 <= cy < r_i && 0 <= tx < CHUNK_DIM && 0 <= ty
                        < CHUNK_DIM ==> #[trigger] tile_chunks@[chunk_index(cx, cy)].tiles@[tile_index(
                        tx,
                        ty,
                    )] == map@[map_index(cx * CHUNK_DIM + tx, cy * CHUNK_DIM + ty)],
            decreases OUTPUT_DIM - r_i,
        {
            let mut c_i: usize = 0;
            while c_i < OUTPUT_DIM
                invariant
                    r_i < OUTPUT_DIM,
                    c_i <= OUTPUT_DIM,
                    OUTPUT_DIM == 4,
                    CHUNK_TILES == 4096,
                    map.len() == MAP_TILES,
                    MAP_TILES == 65536,
                    tile_chunks.len() == r_i * OUTPUT_DIM + c_i,
                    forall|i: int|
                        0 <= i < tile_chunks.len() ==> (#[trigger] tile_chunks@[i]).wf(),
                    forall|cx: int, cy: int, tx: int, ty: int|
                        chunk_in_range(cx) && 0 <= cy < r_i && 0 <= tx < CHUNK_DIM && 0 <= ty
                            < CHUNK_DIM ==> #[trigger] tile_chunks@[chunk_index(
                            cx,
                            cy,
                        )].tiles@[tile_index(tx, ty)] == map@[map_index(
                            cx * CHUNK_DIM + tx,
                            cy * CHUNK_DIM + ty,
                        )],
                    forall|cx: int, tx: int, ty: int|
                        0 <= cx < c_i && 0 <= tx < CHUNK_DIM && 0 <= ty < CHUNK_DIM
                            ==> #[trigger] tile_chunks@[chunk_index(
                            cx,
                            r_i as int,
                        )].tiles@[tile_index(tx, ty)] == map@[map_index(
                            cx * CHUNK_DIM + tx,
                            r_i * CHUNK_DIM + ty,
                        )],
                decreases OUTPUT_DIM - c_i,
            {
                let c_start: usize = c_i * CHUNK_DIM;
                let c_end: usize = (c_i + 1) * CHUNK_DIM;
                let r_start: usize = r_i * CHUNK_DIM;
                let r_end: usize = (r_i + 1) * CHUNK_DIM;
                let mut tiles: Vec<u8> = Vec::new();
                let mut r: usize = r_start;
                while r < r_end
                    invariant
                        r_i < OUTPUT_DIM,
                        c_i < OUTPUT_DIM,
                        c_start == c_i * CHUNK_DIM,
                        c_end == c_start + CHUNK_DIM,
                        r_start == r_i * CHUNK_DIM,
                        r_end == r_start + CHUNK_DIM,
                        r_start <= r <= r_end,
                        map.len() == MAP_TILES,
                        MAP_TILES == 65536,
                        tiles.len() == (r - r_start) * CHUNK_DIM,
                        forall|tx: int, ty: int|
                            0 <= tx < CHUNK_DIM && 0 <= ty < r - r_start
                                ==> #[trigger] tiles@[tile_index(tx, ty)] == map@[map_index(
                                c_start + tx,
                                r_start + ty,
                            )],
                    decreases r_end - r,
                {
                    let mut c: usize = c_start;
                    while c < c_end
                        invariant
                            r_i < OUTPUT_DIM,
                            c_i < OUTPUT_DIM,
                            c_start == c_i * CHUNK_DIM,
                            c_end == c_start + CHUNK_DIM,
                            r_start == r_i * CHUNK_DIM,
                            r_end == r_start + CHUNK_DIM,
                            r_start <= r < r_end,
                            c_start <= c <= c_end,
                            map.len() == MAP_TILES,
                            MAP_TILES == 65536,
                            tiles.len() == (r - r_start) * CHUNK_DIM + (c - c_start),
                            forall|tx: int, ty: int|
                                0 <= tx < CHUNK_DIM && 0 <= ty < r - r_start
                                    ==> #[trigger] tiles@[tile_index(tx, ty)] == map@[map_index(
                                    c_start + tx,
                                    r_start + ty,
                                )],
                            forall|tx: int|
                                0 <= tx < c - c_start ==> #[trigger] tiles@[tile_index(
                                    tx,
                                    r - r_start,
                                )] == map@[map_index(c_start + tx, r as int)],
                        decreases c_end - c,
                    {
                        let v: u8 = map[r * MAP_W + c];
                        let ghost before = tiles@;
                        tiles.push(v);
                        proof {
                            assert forall|tx: int, ty: int|
                                0 <= tx < CHUNK_DIM && 0 <= ty < r - r_start implies #[trigger] tiles@[tile_index(
                                tx,
                                ty,
                            )] == map@[map_index(c_start + tx, r_start + ty)] by {
                                assert(tiles@[tile_index(tx, ty)] == before[tile_index(tx, ty)]);
                            }
                            assert forall|tx: int|
                                0 <= tx < c + 1 - c_start implies #[trigger] tiles@[tile_index(
                                tx,
                                r - r_start,
                            )] == map@[map_index(c_start + tx, r as int)] by {
                                if tx < c - c_start {
                                    assert(tiles@[tile_index(tx, r - r_start)] == before[tile_index(
                                        tx,
                                        r - r_start,
                                    )]);
                                }
                            }
                        }
                        c = c + 1;
                    }
                    r = r + 1;
                }
                let ghost before = tile_chunks@;
                tile_chunks.push(TileChunk { tiles });
                proof {
                    assert forall|i: int|
                        0 <= i < tile_chunks.len() implies (#[trigger] tile_chunks@[i]).wf() by {
                        if i < before.len() {
                            assert(tile_chunks@[i] == before[i]);
                        }
                    }
                    assert forall|cx: int, cy: int, tx: int, ty: int|
                        chunk_in_range(cx) && 0 <= cy < r_i && 0 <= tx < CHUNK_DIM && 0 <= ty
                            < CHUNK_DIM implies #[trigger] tile_chunks@[chunk_index(
                        cx,
                        cy,
                    )].tiles@[tile_index(tx, ty)] == map@[map_index(
                        cx * CHUNK_DIM + tx,
                        cy * CHUNK_DIM + ty,
                    )] by {
                        assert(tile_chunks@[chunk_index(cx, cy)] == before[chunk_index(cx, cy)]);
                    }
                    assert forall|cx: int, tx: int, ty: int|
                        0 <= cx < c_i + 1 && 0 <= tx < CHUNK_DIM && 0 <= ty < CHUNK_DIM implies #[trigger] tile_chunks@[chunk_index(
                        cx,
                        r_i as int,
                    )].tiles@[tile_index(tx, ty)] == map@[map_index(
                        cx * CHUNK_DIM + tx,
                        r_i * CHUNK_DIM + ty,
                    )] by {
                        if cx < c_i {
                            assert(tile_chunks@[chunk_index(cx, r_i as int)] == before[chunk_index(
                                cx,
                                r_i as int,
                            )]);
                        }
                    }
                }
                c_i = c_i + 1;
            }
            r_i = r_i + 1;
        }
        let world: World = World {
            tile_chunk_count_x: OUTPUT_DIM as i64,
            tile_chunk_count_y: OUTPUT_DIM as i64,
            tile_chunks,
        };
        proof {
            lemma_wf_world(world);
        }
        world
    }

    /// The chunk holding tile coordinates (`abs_tile_x`, `abs_tile_y`), or
    /// `None` when it is outside the world.
    pub fn get_tile_chunk(&self, abs_tile_x: TileCoord, abs_tile_y: TileCoord) -> (r: Option<
        &TileChunk,
    >)
        requires
            self.indexable(),
        ensures
            r is Some <==> chunk_in_range(abs_tile_x.chunk as int) && chunk_in_range(
                abs_tile_y.chunk as int,
            ),
            r matches Some(c) ==> *c == self.chunk_at(
                abs_tile_x.chunk as int,
                abs_tile_y.chunk as int,
            ),
    {
        proof {
            lemma_world_dims();
        }
        let all_valid: bool = 0 <= abs_tile_x.chunk && abs_tile_x.chunk < OUTPUT_DIM as i64
            && 0 <= abs_tile_y.chunk && abs_tile_y.chunk < OUTPUT_DIM as i64;
        if !all_valid {
            return None;
        }
        let ghost k = self.tile_chunk_count_x as int;
        assert(0 <= abs_tile_y.chunk * k + abs_tile_x.chunk <= 3 * k + 3) by (nonlinear_arith)
            requires
                0 <= abs_tile_y.chunk < 4,
                0 <= abs_tile_x.chunk < 4,
                0 <= k,
        ;
        let idx: i64 = abs_tile_y.chunk * self.tile_chunk_count_x + abs_tile_x.chunk;
        Some(&self.tile_chunks[idx as usize])
    }
}

/// A well-formed world can be indexed by chunk coordinates, stores its
/// chunks in the slots `chunk_index` names, and each is full.
pub proof fn lemma_wf_world(world: World)
    requires
        world.wf(),
    ensures
        world.indexable(),
        world.chunks_full(),
        forall|cx: int, cy: int| #[trigger] world.chunk_slot(cx, cy) == chunk_index(cx, cy),
{
    lemma_world_dims();
    assert forall|cx: int, cy: int|
        chunk_in_range(cx) && chunk_in_range(cy) implies (#[trigger] world.tile_chunks@[world.chunk_slot(
        cx,
        cy,
    )]).tiles.len() >= CHUNK_TILES by {
        assert(world.tile_chunks@[chunk_index(cx, cy)].wf());
    }
}

/// A position in the world, down to the tile.
#[derive(Debug, Clone, Copy, PartialEq, Eq, Structural)]
pub struct TilePosition {
    pub global_x: TileCoord,
    pub global_y: TileCoord,
}

impl TilePosition {
    /// The tile under the position is in the world and holds 0.
    pub fn is_empty(&self, world: &World) -> (r: bool)
        requires
            world.indexable(),
            world.tile_readable(self.global_x, self.global_y),
        ensures
            r == (world.tile_value(self.global_x, self.global_y) == Some(0u8)),
    {
        proof {
            lemma_world_dims();
        }
        let mut empty: bool = false;
        if let Some(tile_chunk) = world.get_tile_chunk(self.global_x, self.global_y) {
            let val: u8 = tile_chunk.value_at(self.global_x.tile, self.global_y.tile);
            empty = val == 0;
        }
        empty
    }
}

/// In the simple map, chunk pair (`cy`, `cx`) walls two cells: the one on
/// the chunk's diagonal at step `cy`, `cx` and the chunk's first cell.
pub open spec fn simple_wall_hit(x: int, y: int, cy: int, cx: int) -> bool {
    ||| (y == cy * CHUNK_DIM + cy && x == cx * CHUNK_DIM + cx)
    ||| (y == cy * CHUNK_DIM && x == cx * CHUNK_DIM)
}

/// The cell (`x`, `y`) of the simple map: 1 where some chunk pair walls it,
/// else 0.
pub open spec fn simple_cell(x: int, y: int) -> u8 {
    if exists|cy: int, cx: int|
        chunk_in_range(cy) && chunk_in_range(cx) && #[trigger] simple_wall_hit(x, y, cy, cx) {
        1
    } else {
        0
    }
}

/// `map` is the simple map, stored row by row.
pub open spec fn is_simple_map(map: Seq<u8>) -> bool {
    &&& map.len() == MAP_TILES
    &&& forall|x: int, y: int|
        0 <= x < MAP_W && 0 <= y < MAP_H ==> #[trigger] map[map_index(x, y)] == simple_cell(x, y)
}

/// The walls of the simple map at pairs processed so far: rows of chunk
/// pairs before `ny`, and pairs before `nx` in row `ny`.
spec fn simple_cell_upto(x: int, y: int, ny: int, nx: int) -> u8 {
    if exists|cy: int, cx: int|
        chunk_in_range(cy) && chunk_in_range(cx) && (cy < ny || (cy == ny && cx < nx))
            && #[trigger] simple_wall_hit(x, y, cy, cx) {
        1
    } else {
        0
    }
}

/// Builds the simple map: for every pair of chunk indices (`cy`, `cx`),
/// the cell at step (`cy`, `cx`) along the chunk diagonal and the chunk's
/// first cell are walls (1); every other cell is 0. The map is stored row
/// by row, `MAP_W` cells to a row.
pub fn generate_simple() -> (map: Vec<u8>)
    ensures
        is_simple_map(map@),
{
    proof {
        lemma_world_dims();
    }
    let mut map: Vec<u8> = Vec::new();
    let mut i: usize = 0;
    while i < MAP_TILES
        invariant
            i <= MAP_TILES,
            MAP_TILES == 65536,
            map.len() == i,
            forall|j: int| 0 <= j < i ==> map@[j] == 0u8,
        decreases MAP_TILES - i,
    {
        map.push(0u8);
        i = i + 1;
    }
    let mut chunk_y: usize = 0;
    while chunk_y < OUTPUT_DIM
        invariant
            chunk_y <= OUTPUT_DIM,
            OUTPUT_DIM == 4,
            MAP_TILES == 65536,
            map.len() == MAP_TILES,
            forall|x: int, y: int|
                0 <= x < MAP_W && 0 <= y < MAP_H ==> #[trigger] map@[map_index(x, y)]
                    == simple_cell_upto(x, y, chunk_y as int, 0),
        decreases OUTPUT_DIM - chunk_y,
    {
        let mut chunk_x: usize = 0;
        while chunk_x < OUTPUT_DIM
            invariant
                chunk_y < OUTPUT_DIM,
                chunk_x <= OUTPUT_DIM,
                OUTPUT_DIM == 4,
                MAP_TILES == 65536,
                map.len() == MAP_TILES,
                forall|x: int, y: int|
                    0 <= x < MAP_W && 0 <= y < MAP_H ==> #[trigger] map@[map_index(x, y)]
                        == simple_cell_upto(x, y, chunk_y as int, chunk_x as int),
            decreases OUTPUT_DIM - chunk_x,
        {
            let ghost before = map@;
            let diag: usize = (chunk_y * CHUNK_DIM + chunk_y) * MAP_W + (chunk_x * CHUNK_DIM
                + chunk_x);
            let corner: usize = (chunk_y * CHUNK_DIM) * MAP_W + chunk_x * CHUNK_DIM;
            map[diag] = 1;
            map[corner] = 1;
            proof {
                let ny = chunk_y as int;
                let nx = chunk_x as int;
                assert forall|x: int, y: int| 0 <= x < MAP_W && 0 <= y < MAP_H implies #[trigger]
                    map@[map_index(x, y)] == simple_cell_upto(x, y, ny, nx + 1) by {
                    if simple_wall_hit(x, y, ny, nx) {
                        assert(map_index(x, y) == diag || map_index(x, y) == corner);
                    } else {
                        assert(map_index(x, y) != diag && map_index(x, y) != corner);
                        assert(map@[map_index(x, y)] == before[map_index(x, y)]);
                        if simple_cell_upto(x, y, ny, nx + 1) == 1 {
                            let (cy, cx) = choose|cy: int, cx: int|
                                chunk_in_range(cy) && chunk_in_range(cx) && (cy < ny || (cy == ny
                                    && cx < nx + 1)) && #[trigger] simple_wall_hit(x, y, cy, cx);
                            assert(simple_wall_hit(x, y, cy, cx));
                        }
                        if simple_cell_upto(x, y, ny, nx) == 1 {
                            let (cy, cx) = choose|cy: int, cx: int|
                                chunk_in_range(cy) && chunk_in_range(cx) && (cy < ny || (cy == ny
                                    && cx < nx)) && #[trigger] simple_wall_hit(x, y, cy, cx);
                            assert(simple_wall_hit(x, y, cy, cx));
                        }
                    }
                }
            }
            chunk_x = chunk_x + 1;
        }
        proof {
            let ny = chunk_y as int;
            assert forall|x: int, y: int| 0 <= x < MAP_W && 0 <= y < MAP_H implies #[trigger]
                map@[map_index(x, y)] == simple_cell_upto(x, y, ny + 1, 0) by {
                if simple_cell_upto(x, y, ny + 1, 0) == 1 {
                    let (cy, cx) = choose|cy: int, cx: int|
                        chunk_in_range(cy) && chunk_in_range(cx) && (cy < ny + 1 || (cy == ny + 1
                            && cx < 0)) && #[trigger] simple_wall_hit(x, y, cy, cx);
                    assert(simple_wall_hit(x, y, cy, cx));
                }
                if simple_cell_upto(x, y, ny, OUTPUT_DIM as int) == 1 {
                    let (cy, cx) = choose|cy: int, cx: int|
                        chunk_in_range(cy) && chunk_in_range(cx) && (cy < ny || (cy == ny && cx
                            < OUTPUT_DIM as int)) && #[trigger] simple_wall_hit(x, y, cy, cx);
                    assert(simple_wall_hit(x, y, cy, cx));
                }
            }
        }
        chunk_y = chunk_y + 1;
    }
    proof {
        assert forall|x: int, y: int| 0 <= x < MAP_W && 0 <= y < MAP_H implies #[trigger]
            map@[map_index(x, y)] == simple_cell(x, y) by {
            if simple_cell(x, y) == 1 {
                let (cy, cx) = choose|cy: int, cx: int|
                    chunk_in_range(cy) && chunk_in_range(cx) && #[trigger] simple_wall_hit(
                        x,
                        y,
                        cy,
                        cx,
                    );
                assert(simple_wall_hit(x, y, cy, cx));
            }
            if simple_cell_upto(x, y, OUTPUT_DIM as int, 0) == 1 {
                let (cy, cx) = choose|cy: int, cx: int|
                    chunk_in_range(cy) && chunk_in_range(cx) && (cy < OUTPUT_DIM as int || (cy
                        == OUTPUT_DIM as int && cx < 0)) && #[trigger] simple_wall_hit(x, y, cy, cx);
                assert(simple_wall_hit(x, y, cy, cx));
            }
        }
    }
    map
}

/// The cell at column `x`, row `y` of the map that `generate_simple`
/// builds.
pub fn tile(x: usize, y: usize) -> (r: u8)
    requires
        x < MAP_W,
        y < MAP_H,
    ensures
        r == simple_cell(x as int, y as int),
{
    let step: usize = CHUNK_DIM + 1;
    let on_diagonal: bool = x % step == 0 && y % step == 0 && x / step < OUTPUT_DIM && y / step
        < OUTPUT_DIM;
    let on_corner: bool = x % CHUNK_DIM == 0 && y % CHUNK_DIM == 0;
    proof {
        lemma_world_dims();
        let (xi, yi) = (x as int, y as int);
        if on_diagonal {
            assert(simple_wall_hit(xi, yi, yi / 65, xi / 65));
        } else if on_corner {
            assert(simple_wall_hit(xi, yi, yi / 64, xi / 64));
        } else {
            assert forall|cy: int, cx: int|
                chunk_in_range(cy) && chunk_in_range(cx) implies !#[trigger] simple_wall_hit(
                xi,
                yi,
                cy,
                cx,
            ) by {
                if yi == cy * CHUNK_DIM + cy && xi == cx * CHUNK_DIM + cx {
                    assert(yi % 65 == 0 && yi / 65 == cy);
                    assert(xi % 65 == 0 && xi / 65 == cx);
                }
                if yi == cy * CHUNK_DIM && xi == cx * CHUNK_DIM {
                    assert(yi % 64 == 0);
                    assert(xi % 64 == 0);
                }
            }
        }
    }
    if on_diagonal || on_corner {
        1
    } else {
        0
    }
}

/// Seed of the random map's generator before its first step.
pub const GENERATOR_SEED: u32 = 0x9E37_79B9;

/// One step of the random map's linear congruential generator.
pub open spec fn lcg_step(seed: u32) -> u32 {
    vstd::wrapping::u32_specs::wrapping_add(
        vstd::wrapping::u32_specs::wrapping_mul(seed, 1_664_525),
        1_013_904_223,
    )
}

/// The generator's state after `n` steps.
pub open spec fn lcg_seed(n: nat) -> u32
    decreases n,
{
    if n == 0 {
        GENERATOR_SEED
    } else {
        lcg_step(lcg_seed((n - 1) as nat))
    }
}

/// The cell (`x`, `y`) of the random map: a wall (1) on the map's border,
/// and where the generator's top byte, after the step made for this
/// cell, is below 64 (about a quarter of the cells); else 0. Cells take
/// one step each, row by row.
pub open spec fn generated_cell(x: int, y: int) -> u8 {
    let seed = lcg_seed((map_index(x, y) + 1) as nat);
    let border = x == 0 || y == 0 || x == MAP_W - 1 || y == MAP_H - 1;
    let wall = (seed >> 24u32) < 64;
    if border || wall {
        1
    } else {
        0
    }
}

/// `map` is the random map, stored row by row.
pub open spec fn is_generated_map(map: Seq<u8>) -> bool {
    &&& map.len() == MAP_TILES
    &&& forall|x: int, y: int|
        0 <= x < MAP_W && 0 <= y < MAP_H ==> #[trigger] map[map_index(x, y)] == generated_cell(
            x,
            y,
        )
}

/// Builds the random map: walls around the border, and about a quarter of
/// the other cells walled by a linear congruential generator.
pub fn generate() -> (map: Vec<u8>)
    ensures
        is_generated_map(map@),
{
    proof {
        lemma_world_dims();
    }
    let mut map: Vec<u8> = Vec::new();
    let mut seed: u32 = GENERATOR_SEED;
    let mut y: usize = 0;
    while y < MAP_H
        invariant
            y <= MAP_H,
            map.len() == y * MAP_W,
            seed == lcg_seed((y * MAP_W) as nat),
            forall|xx: int, yy: int|
                0 <= xx < MAP_W && 0 <= yy < y ==> #[trigger] map@[map_index(xx, yy)]
                    == generated_cell(xx, yy),
        decreases MAP_H - y,
    {
        let mut x: usize = 0;
        while x < MAP_W
            invariant
                y < MAP_H,
                x <= MAP_W,
                map.len() == y * MAP_W + x,
                seed == lcg_seed((y * MAP_W + x) as nat),
                forall|xx: int, yy: int|
                    0 <= xx < MAP_W && 0 <= yy < y ==> #[trigger] map@[map_index(xx, yy)]
                        == generated_cell(xx, yy),
                forall|xx: int|
                    0 <= xx < x ==> #[trigger] map@[map_index(xx, y as int)] == generated_cell(
                        xx,
                        y as int,
                    ),
            decreases MAP_W - x,
        {
            seed = seed.wrapping_mul(1_664_525).wrapping_add(1_013_904_223);
            let border: bool = x == 0 || y == 0 || x == MAP_W - 1 || y == MAP_H - 1;
            let wall: bool = (seed >> 24u32) < 64;
            let cell: u8 = if border || wall {
                1
            } else {
                0
            };
            let ghost before = map@;
            map.push(cell);
            proof {
                assert(seed == lcg_seed((y * MAP_W + x + 1) as nat));
                assert(map@[map_index(x as int, y as int)] == generated_cell(x as int, y as int));
                assert forall|xx: int, yy: int|
                    0 <= xx < MAP_W && 0 <= yy < y implies #[trigger] map@[map_index(xx, yy)]
                    == generated_cell(xx, yy) by {
                    assert(map@[map_index(xx, yy)] == before[map_index(xx, yy)]);
                }
                assert forall|xx: int| 0 <= xx < x + 1 implies #[trigger] map@[map_index(
                    xx,
                    y as int,
                )] == generated_cell(xx, y as int) by {
                    if xx < x {
                        assert(map@[map_index(xx, y as int)] == before[map_index(xx, y as int)]);
                    }
                }
            }
            x = x + 1;
        }
        y = y + 1;
    }
    map
}

/// The player may step to a new position when the tiles under both feet,
/// `left` and `right`, are in the world and empty.
pub fn may_step(world: &World, left: TilePosition, right: TilePosition) -> (r: bool)
    requires
        world.indexable(),
        world.tile_readable(left.global_x, left.global_y),
        world.tile_readable(right.global_x, right.global_y),
    ensures
        r == (world.tile_value(left.global_x, left.global_y) == Some(0u8) && world.tile_value(
            right.global_x,
            right.global_y,
        ) == Some(0u8)),
{
    left.is_empty(world) && right.is_empty(world)
}

/// Tiles drawn on each side of the player, along each axis.
pub const VIEW_RADIUS: i64 = 15;

/// Tiles drawn along each axis.
pub const VIEW_SPAN: usize = 30;

/// One tile of the view around the player: where it is, and whether it is
/// a wall (`None` when its chunk is outside the world).
#[derive(Debug, Clone, Copy, PartialEq, Eq, Structural)]
pub struct VisibleTile {
    pub x: TileCoord,
    pub y: TileCoord,
    pub wall: Option<bool>,
}

/// Every move within the view radius stays inside `i64`.
pub open spec fn view_fits(c: TileCoord) -> bool {
    forall|d: int| -VIEW_RADIUS <= d < VIEW_RADIUS ==> #[trigger] c.offset_fits(d)
}

/// Whether the tile at (`x`, `y`) is a wall, as the view reports it.
pub open spec fn wall_at(world: World, x: TileCoord, y: TileCoord) -> Option<bool> {
    match world.tile_value(x, y) {
        Some(v) => Some(v > 0),
        None => None,
    }
}

/// The view entry `i`: row `i / VIEW_SPAN`, column `i % VIEW_SPAN` of the
/// square of tiles centred on `player`.
pub open spec fn view_entry(world: World, player: TilePosition, i: int) -> VisibleTile {
    let x = player.global_x.spec_offset(i % (VIEW_SPAN as int) - VIEW_RADIUS);
    let y = player.global_y.spec_offset(i / (VIEW_SPAN as int) - VIEW_RADIUS);
    VisibleTile { x, y, wall: wall_at(world, x, y) }
}

/// The square of tiles around the player that a frame draws, row by row
/// from `VIEW_RADIUS` tiles before the player to `VIEW_RADIUS - 1` after,
/// with whether each is a wall.
pub fn visible_tiles(world: &World, player: TilePosition) -> (tiles: Vec<VisibleTile>)
    requires
        world.indexable(),
        world.chunks_full(),
        view_fits(player.global_x),
        view_fits(player.global_y),
    ensures
        tiles.len() == VIEW_SPAN * VIEW_SPAN,
        forall|i: int|
            0 <= i < VIEW_SPAN * VIEW_SPAN ==> #[trigger] tiles@[i] == view_entry(
                *world,
                player,
                i,
            ),
        forall|i: int|
            0 <= i < VIEW_SPAN * VIEW_SPAN ==> {
                &&& (#[trigger] tiles@[i]).x.absolute() == player.global_x.absolute() + i % 30
                    - 15
                &&& tiles@[i].y.absolute() == player.global_y.absolute() + i / 30 - 15
                &&& tiles@[i].x.is_canonical()
                &&& tiles@[i].y.is_canonical()
                &&& tiles@[i].wall == match world.tile_value(tiles@[i].x, tiles@[i].y) {
                    Some(v) => Some(v > 0),
                    None => None,
                }
            },
{
    proof {
        lemma_world_dims();
    }
    let mut tiles: Vec<VisibleTile> = Vec::new();
    let mut y: i64 = -VIEW_RADIUS;
    while y < VIEW_RADIUS
        invariant
            world.indexable(),
            world.chunks_full(),
            view_fits(player.global_x),
            view_fits(player.global_y),
            -VIEW_RADIUS <= y <= VIEW_RADIUS,
            tiles.len() == (y + VIEW_RADIUS) * VIEW_SPAN,
            forall|i: int| 0 <= i < tiles.len() ==> #[trigger] tiles@[i] == view_entry(
                *world,
                player,
                i,
            ),
        decreases VIEW_RADIUS - y,
    {
        let mut x: i64 = -VIEW_RADIUS;
        while x < VIEW_RADIUS
            invariant
                world.indexable(),
                world.chunks_full(),
                view_fits(player.global_x),
                view_fits(player.global_y),
                -VIEW_RADIUS <= y < VIEW_RADIUS,
                -VIEW_RADIUS <= x <= VIEW_RADIUS,
                tiles.len() == (y + VIEW_RADIUS) * VIEW_SPAN + (x + VIEW_RADIUS),
                forall|i: int| 0 <= i < tiles.len() ==> #[trigger] tiles@[i] == view_entry(
                    *world,
                    player,
                    i,
                ),
            decreases VIEW_RADIUS - x,
        {
            assert(player.global_x.offset_fits(x as int));
            assert(player.global_y.offset_fits(y as int));
            let x_coord: TileCoord = player.global_x.add(x);
            let y_coord: TileCoord = player.global_y.add(y);
            let wall: Option<bool> = match world.get_tile_chunk(x_coord, y_coord) {
                Some(tile_chunk) => Some(tile_chunk.value_at(x_coord.tile, y_coord.tile) > 0),
                None => None,
            };
            let ghost i = tiles.len() as int;
            let ghost before = tiles@;
            tiles.push(VisibleTile { x: x_coord, y: y_coord, wall });
            proof {
                assert(i % (VIEW_SPAN as int) == x + VIEW_RADIUS);
                assert(i / (VIEW_SPAN as int) == y + VIEW_RADIUS);
                assert forall|j: int| 0 <= j < tiles.len() implies #[trigger] tiles@[j]
                    == view_entry(*world, player, j) by {
                    if j < i {
                        assert(tiles@[j] == before[j]);
                    }
                }
            }
            x = x + 1;
        }
        y = y + 1;
    }
    proof {
        assert forall|i: int| 0 <= i < VIEW_SPAN * VIEW_SPAN implies {
            &&& (#[trigger] tiles@[i]).x.absolute() == player.global_x.absolute() + i % 30 - 15
            &&& tiles@[i].y.absolute() == player.global_y.absolute() + i / 30 - 15
            &&& tiles@[i].x.is_canonical()
            &&& tiles@[i].y.is_canonical()
            &&& tiles@[i].wall == match world.tile_value(tiles@[i].x, tiles@[i].y) {
                Some(v) => Some(v > 0),
                None => None,
            }
        } by {
            lemma_view_entry(*world, player, i);
        }
    }
    tiles
}

/// Entry `i` of the view is the tile `i % VIEW_SPAN - VIEW_RADIUS` columns
/// right of the player and `i / VIEW_SPAN - VIEW_RADIUS` rows below, each
/// coordinate inside its chunk, and is a wall exactly when the world holds
/// a non-zero value there.
pub proof fn lemma_view_entry(world: World, player: TilePosition, i: int)
    requires
        view_fits(player.global_x),
        view_fits(player.global_y),
        0 <= i < VIEW_SPAN * VIEW_SPAN,
    ensures
        view_entry(world, player, i).x.absolute() == player.global_x.absolute() + i % 30 - 15,
        view_entry(world, player, i).y.absolute() == player.global_y.absolute() + i / 30 - 15,
        view_entry(world, player, i).x.is_canonical(),
        view_entry(world, player, i).y.is_canonical(),
        view_entry(world, player, i).wall == match world.tile_value(
            view_entry(world, player, i).x,
            view_entry(world, player, i).y,
        ) {
            Some(v) => Some(v > 0),
            None => None,
        },
{
    let dx = i % 30 - 15;
    let dy = i / 30 - 15;
    assert(player.global_x.offset_fits(dx));
    assert(player.global_y.offset_fits(dy));
    lemma_offset_absolute(player.global_x, dx);
    lemma_offset_absolute(player.global_y, dy);
}

/// In a world cut from a map, the value at a position inside a chunk is the
/// map's cell at that absolute tile; outside the world there is none.
pub proof fn lemma_tile_value_reads_map(world: World, map: Seq<u8>, x: TileCoord, y: TileCoord)
    requires
        world.wf(),
        world.matches_tilemap(map),
        x.is_canonical(),
        y.is_canonical(),
    ensures
        world.tile_value(x, y) == if chunk_in_range(x.chunk as int) && chunk_in_range(
            y.chunk as int,
        ) {
            Some(map[map_index(x.absolute(), y.absolute())])
        } else {
            None
        },
{
    lemma_wf_world(world);
    if chunk_in_range(x.chunk as int) && chunk_in_range(y.chunk as int) {
        assert(world.cell(x.chunk as int, y.chunk as int, x.tile as int, y.tile as int)
            == map[map_index(
            x.chunk * CHUNK_DIM + x.tile,
            y.chunk * CHUNK_DIM + y.tile,
        )]);
    }
}

/// Two moves along an axis land where one move by their sum lands.
pub proof fn lemma_offset_composes(c: TileCoord, a: int, b: int)
    requires
        c.offset_fits(a),
        c.spec_offset(a).offset_fits(b),
        c.offset_fits(a + b),
    ensures
        c.spec_offset(a).spec_offset(b) == c.spec_offset(a + b),
{
    let d = c.spec_offset(a);
    lemma_offset_absolute(c, a);
    lemma_offset_absolute(d, b);
    lemma_offset_absolute(c, a + b);
    lemma_canonical_unique(d.spec_offset(b), c.spec_offset(a + b));
}

/// A move keeps the absolute tile index exact and lands inside a chunk.
pub proof fn lemma_offset_absolute(c: TileCoord, n: int)
    requires
        c.offset_fits(n),
    ensures
        c.spec_offset(n).is_canonical(),
        c.spec_offset(n).absolute() == c.absolute() + n,
{
}

/// A coordinate inside its chunk is fixed by its absolute tile index.
pub proof fn lemma_canonical_unique(a: TileCoord, b: TileCoord)
    requires
        a.is_canonical(),
        b.is_canonical(),
        a.absolute() == b.absolute(),
    ensures
        a == b,
{
    vstd::arithmetic::div_mod::lemma_fundamental_div_mod_converse(
        a.absolute(),
        CHUNK_DIM as int,
        a.chunk as int,
        a.tile as int,
    );
    vstd::arithmetic::div_mod::lemma_fundamental_div_mod_converse(
        b.absolute(),
        CHUNK_DIM as int,
        b.chunk as int,
        b.tile as int,
    );
}

/// A move by zero tiles leaves a coordinate inside its chunk unchanged.
pub proof fn lemma_offset_zero(c: TileCoord)
    requires
        c.is_canonical(),
    ensures
        c.spec_offset(0) == c,
{
    lemma_offset_absolute(c, 0);
    lemma_canonical_unique(c.spec_offset(0), c);
}

} // verus!
