use tilegame::world::{
    generate, generate_simple, may_step, tile, visible_tiles, TileChunk, TileCoord, TilePosition, World,
    CHUNK_DIM, MAP_H, MAP_TILES, MAP_W, N_CHUNKS, OUTPUT_DIM, VIEW_SPAN,
};

fn coord(chunk: i64, tile: i64) -> TileCoord {
    TileCoord { chunk, tile }
}

#[test]
fn tile_coord_add_stays_in_chunk() {
    assert_eq!(coord(0, 5).add(3), coord(0, 8));
    assert_eq!(coord(0, 63).add(1), coord(1, 0));
    assert_eq!(coord(0, 0).add(-1), coord(-1, 63));
    assert_eq!(coord(2, 5).add(130), coord(4, 7));
    assert_eq!(coord(1, 10).add(-75), coord(-1, 63));
    assert_eq!(coord(-3, 0).add(-129), coord(-6, 63));
}

#[test]
fn tile_coord_add_by_zero_keeps_canonical_coord() {
    for t in 0..64 {
        assert_eq!(coord(7, t).add(0), coord(7, t));
    }
}

#[test]
fn tile_coord_moves_compose() {
    let starts = [coord(0, 0), coord(3, 17), coord(-2, 63), coord(5, 100), coord(1, -70)];
    let moves = [-200i64, -64, -15, -1, 0, 1, 14, 63, 64, 129];
    for c in starts {
        for a in moves {
            for b in moves {
                assert_eq!(c.add(a).add(b), c.add(a + b));
            }
        }
    }
}

#[test]
fn tile_coord_add_keeps_absolute_index() {
    let c = coord(3, 100);
    for n in [-500i64, -1, 0, 1, 77, 1000] {
        let r = c.add(n);
        assert!(r.tile >= 0 && r.tile < CHUNK_DIM as i64);
        assert_eq!(r.chunk * 64 + r.tile, c.chunk * 64 + c.tile + n);
    }
}

#[test]
fn sizes_of_the_world() {
    assert_eq!(OUTPUT_DIM, 4);
    assert_eq!(N_CHUNKS, 16);
    assert_eq!(MAP_TILES, MAP_W * MAP_H);
}

#[test]
fn simple_map_walls() {
    assert_eq!(tile(0, 0), 1);
    assert_eq!(tile(65, 65), 1);
    assert_eq!(tile(65, 0), 1);
    assert_eq!(tile(130, 195), 1);
    assert_eq!(tile(64, 0), 1);
    assert_eq!(tile(64, 192), 1);
    assert_eq!(tile(1, 1), 0);
    assert_eq!(tile(64, 65), 0);
    assert_eq!(tile(255, 255), 0);
    assert_eq!(tile(260 - 5, 0), 0);
}

#[test]
fn simple_map_agrees_with_tile() {
    let map = generate_simple();
    assert_eq!(map.len(), MAP_TILES);
    let mut walls = 0;
    for y in 0..MAP_H {
        for x in 0..MAP_W {
            assert_eq!(map[y * MAP_W + x], tile(x, y));
            walls += map[y * MAP_W + x] as usize;
        }
    }
    assert_eq!(walls, 31);
}

#[test]
fn random_map_follows_its_generator() {
    let map = generate();
    assert_eq!(map.len(), MAP_TILES);
    let mut seed: u32 = 0x9E37_79B9;
    for y in 0..MAP_H {
        for x in 0..MAP_W {
            seed = seed.wrapping_mul(1_664_525).wrapping_add(1_013_904_223);
            let border = x == 0 || y == 0 || x == MAP_W - 1 || y == MAP_H - 1;
            let wall = (seed >> 24) < 64;
            assert_eq!(map[y * MAP_W + x], (border || wall) as u8);
        }
    }
    for i in 0..MAP_W {
        assert_eq!(map[i], 1);
        assert_eq!(map[(MAP_H - 1) * MAP_W + i], 1);
        assert_eq!(map[i * MAP_W], 1);
        assert_eq!(map[i * MAP_W + MAP_W - 1], 1);
    }
}

#[test]
fn default_chunk_is_empty() {
    let c = TileChunk::default();
    assert_eq!(c.tiles.len(), CHUNK_DIM * CHUNK_DIM);
    assert!(c.tiles.iter().all(|&t| t == 0));
}

#[test]
fn chunk_value_at_reads_row_major() {
    let tiles: Vec<u8> = (0..4096u32).map(|i| (i % 251) as u8).collect();
    let c = TileChunk { tiles };
    assert_eq!(c.value_at(0, 0), 0);
    assert_eq!(c.value_at(3, 2), ((2 * 64 + 3) % 251) as u8);
    assert_eq!(c.value_at(63, 63), (4095 % 251) as u8);
    assert_eq!(c.value_at(64, 0), c.value_at(0, 1));
}

#[test]
fn world_chunks_hold_the_map() {
    let map = generate();
    let world = World::from_tilemap(&map);
    assert_eq!(world.tile_chunks.len(), N_CHUNKS);
    assert_eq!(world.tile_chunk_count_x, 4);
    for cy in 0..4usize {
        for cx in 0..4usize {
            let chunk = world.get_tile_chunk(coord(cx as i64, 0), coord(cy as i64, 0)).unwrap();
            for ty in 0..64usize {
                for tx in 0..64usize {
                    assert_eq!(
                        chunk.value_at(tx as i64, ty as i64),
                        map[(cy * 64 + ty) * MAP_W + cx * 64 + tx]
                    );
                }
            }
        }
    }
}

#[test]
fn world_outside_has_no_chunk() {
    let world = World::from_tilemap(&generate_simple());
    assert!(world.get_tile_chunk(coord(-1, 0), coord(0, 0)).is_none());
    assert!(world.get_tile_chunk(coord(0, 0), coord(4, 0)).is_none());
    assert!(world.get_tile_chunk(coord(3, 0), coord(3, 0)).is_some());
}

#[test]
fn position_is_empty_reads_the_map() {
    let map = generate_simple();
    let world = World::from_tilemap(&map);
    let wall = TilePosition { global_x: coord(1, 1), global_y: coord(1, 1) };
    assert!(!wall.is_empty(&world));
    let floor = TilePosition { global_x: coord(1, 2), global_y: coord(1, 1) };
    assert!(floor.is_empty(&world));
    let outside = TilePosition { global_x: coord(9, 2), global_y: coord(1, 1) };
    assert!(!outside.is_empty(&world));
    for y in 0..MAP_H as i64 {
        for x in (0..MAP_W as i64).step_by(7) {
            let p = TilePosition { global_x: coord(0, 0).add(x), global_y: coord(0, 0).add(y) };
            assert_eq!(p.is_empty(&world), map[(y as usize) * MAP_W + x as usize] == 0);
        }
    }
}

#[test]
fn view_around_player() {
    let map = generate_simple();
    let world = World::from_tilemap(&map);
    let player = TilePosition { global_x: coord(0, 1), global_y: coord(0, 1) };
    let tiles = visible_tiles(&world, player);
    assert_eq!(tiles.len(), VIEW_SPAN * VIEW_SPAN);
    let first = tiles[0];
    assert_eq!(first.x, coord(-1, 50));
    assert_eq!(first.y, coord(-1, 50));
    assert_eq!(first.wall, None);
    let centre = tiles[15 * 30 + 15];
    assert_eq!(centre.x, coord(0, 1));
    assert_eq!(centre.wall, Some(false));
    let corner = tiles[14 * 30 + 14];
    assert_eq!(corner.x, coord(0, 0));
    assert_eq!(corner.y, coord(0, 0));
    assert_eq!(corner.wall, Some(true));
    let last = tiles[29 * 30 + 29];
    assert_eq!(last.x, coord(0, 15));
    assert_eq!(last.y, coord(0, 15));
}

#[test]
fn random_map_walls_where_top_byte_is_low() {
    let map = generate();
    // Cell (1, 1) takes the generator's 258th step: 976040275, top byte 58.
    let mut seed: u32 = 0x9E37_79B9;
    for _ in 0..(MAP_W + 2) {
        seed = seed.wrapping_mul(1_664_525).wrapping_add(1_013_904_223);
    }
    assert_eq!(seed, 976_040_275);
    assert_eq!(map[MAP_W + 1], 1);
    let interior = (1..MAP_H - 1)
        .flat_map(|y| (1..MAP_W - 1).map(move |x| (x, y)))
        .filter(|&(x, y)| map[y * MAP_W + x] == 1)
        .count();
    let cells = (MAP_W - 2) * (MAP_H - 2);
    assert!(interior * 5 > cells && interior * 3 < cells);
}

#[test]
fn step_needs_both_feet_on_empty_tiles() {
    let world = World::from_tilemap(&generate_simple());
    let floor = TilePosition { global_x: coord(0, 2), global_y: coord(0, 1) };
    let floor2 = TilePosition { global_x: coord(0, 3), global_y: coord(0, 1) };
    let wall = TilePosition { global_x: coord(0, 0), global_y: coord(0, 0) };
    let outside = TilePosition { global_x: coord(-1, 3), global_y: coord(0, 1) };
    assert!(may_step(&world, floor, floor2));
    assert!(!may_step(&world, floor, wall));
    assert!(!may_step(&world, wall, floor));
    assert!(!may_step(&world, outside, floor));
}
