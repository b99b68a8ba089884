//! Tile partitioning and mesh generation tests: counts, exact vertex and UV
//! values, index bounds, seam stitching, and normal lengths.

use terrain_mesh::grid::HeightGrid;
use terrain_mesh::mesh::{build_indices, build_tile_mesh, TILE_TRIS, TILE_VERTS};
use terrain_mesh::normal::{isqrt, normalize_fixed, NORMAL_SCALE};
use terrain_mesh::rat::Rat;
use terrain_mesh::tile::{tile_layout, TILE_SIZE};

fn rat_value(r: &Rat) -> f64 {
    r.num as f64 / r.den as f64
}

fn bumpy_grid(width: usize, height: usize) -> HeightGrid {
    let samples: Vec<u8> = (0..width * height).map(|i| ((i * 37 + i / 131) % 256) as u8).collect();
    HeightGrid::from_samples(width, height, samples).expect("sample count matches")
}

fn flat_grid(width: usize, height: usize, level: u8) -> HeightGrid {
    HeightGrid::from_samples(width, height, vec![level; width * height]).expect("count matches")
}

#[test]
fn layout_covers_the_grid_row_major() {
    let tiles = tile_layout(256, 384).expect("valid dimensions");
    assert_eq!(tiles.len(), 2 * 3);
    for ty in 0..3 {
        for tx in 0..2 {
            let t = &tiles[ty * 2 + tx];
            assert_eq!(t.tx, tx);
            assert_eq!(t.ty, ty);
            assert_eq!(t.start_x, tx * TILE_SIZE);
            assert_eq!(t.start_y, ty * TILE_SIZE);
            assert_eq!(t.width, TILE_SIZE);
            assert_eq!(t.height, TILE_SIZE);
        }
    }
}

#[test]
fn layout_is_deterministic_across_calls() {
    // Tile names must be stable across a reload, so two runs of the
    // partitioner give the identical ordered list.
    let first = tile_layout(256, 256).expect("valid");
    let second = tile_layout(256, 256).expect("valid");
    assert_eq!(first, second);
}

#[test]
fn layout_tiles_cover_each_sample_exactly_once() {
    let tiles = tile_layout(384, 256).expect("valid");
    assert_eq!(tiles.len(), 3 * 2);
    let probes = [(0, 0), (127, 127), (128, 0), (0, 128), (383, 255), (200, 130), (255, 128)];
    for &(gx, gy) in probes.iter() {
        let containing = tiles
            .iter()
            .filter(|t| {
                t.start_x <= gx && gx < t.start_x + t.width && t.start_y <= gy && gy < t.start_y
                    + t.height
            })
            .count();
        assert_eq!(containing, 1, "sample ({}, {}) must lie in exactly one tile", gx, gy);
    }
}

#[test]
fn layout_rejects_unaligned_or_empty_dimensions() {
    assert!(tile_layout(100, 128).is_err());
    assert!(tile_layout(128, 100).is_err());
    assert!(tile_layout(0, 128).is_err());
    assert!(tile_layout(128, 0).is_err());
    assert!(tile_layout(129, 128).is_err());
    assert!(tile_layout(128, 128).is_ok());
}

#[test]
fn index_list_has_two_triangles_per_quad() {
    let tris = build_indices();
    assert_eq!(tris.len(), TILE_TRIS);
    assert_eq!(TILE_TRIS, 2 * (TILE_SIZE - 1) * (TILE_SIZE - 1));
    // First quad: top (0, 129, 1), bottom (0, 128, 129).
    assert_eq!((tris[0].a, tris[0].b, tris[0].c), (0, 129, 1));
    assert_eq!((tris[1].a, tris[1].b, tris[1].c), (0, 128, 129));
    // Every index stays inside the vertex buffer.
    for t in tris.iter() {
        assert!((t.a as usize) < TILE_VERTS);
        assert!((t.b as usize) < TILE_VERTS);
        assert!((t.c as usize) < TILE_VERTS);
    }
    // Last quad of the first row: base index 126.
    let k = 2 * 126;
    assert_eq!((tris[k].a, tris[k].b, tris[k].c), (126, 255, 127));
}

#[test]
fn mesh_buffers_have_matching_lengths() {
    let g = bumpy_grid(128, 128);
    let tiles = tile_layout(128, 128).expect("valid");
    let mesh = build_tile_mesh(&g, &tiles[0]);
    assert_eq!(mesh.vertices.len(), TILE_VERTS);
    assert_eq!(mesh.uvs.len(), TILE_VERTS);
    assert_eq!(mesh.normals.len(), TILE_VERTS);
    assert_eq!(mesh.indices.len(), TILE_TRIS);
    assert_eq!(TILE_VERTS, TILE_SIZE * TILE_SIZE);
}

#[test]
fn vertex_positions_follow_the_stitch_rule() {
    let g = bumpy_grid(128, 128);
    let tiles = tile_layout(128, 128).expect("valid");
    let mesh = build_tile_mesh(&g, &tiles[0]);
    // First column: x == 0 - 128/2 == -64.
    let v0 = &mesh.vertices[0];
    assert_eq!((v0.x.num, v0.x.den), (-128, 2));
    // Last column: x == (127 + 1) - 128/2 == 64.
    let v_last = &mesh.vertices[127];
    assert_eq!((v_last.x.num, v_last.x.den), (128, 2));
    // Interior column 5: x == 5 - 127/2 == (10 - 127) / 2.
    let v5 = &mesh.vertices[5];
    assert_eq!((v5.x.num, v5.x.den), (10 - 127, 2));
    // Rows mirror the same rule in Z.
    let v_row1 = &mesh.vertices[128 + 5];
    assert_eq!((v_row1.z.num, v_row1.z.den), (2 - 127, 2));
    // Elevation is the sample over 255.
    assert_eq!(v5.y.den, 255);
    assert_eq!(v5.y.num as u8, g.sample(5, 0));
}

#[test]
fn uvs_span_the_full_heightfield_flipped() {
    let g = bumpy_grid(256, 128);
    let tiles = tile_layout(256, 128).expect("valid");
    let left = build_tile_mesh(&g, &tiles[0]);
    let right = build_tile_mesh(&g, &tiles[1]);
    // Top-left corner of the left tile: uv = (1 - 0, 1 - 0).
    assert_eq!((left.uvs[0].x.num, left.uvs[0].x.den), (255, 255));
    assert_eq!((left.uvs[0].y.num, left.uvs[0].y.den), (127, 127));
    // The right tile's first column sits at gx == 128: u == 1 - 128/255.
    assert_eq!((right.uvs[0].x.num, right.uvs[0].x.den), (255 - 128, 255));
}

#[test]
fn adjacent_tiles_share_their_boundary_column() {
    let g = bumpy_grid(256, 128);
    let tiles = tile_layout(256, 128).expect("valid");
    let left = build_tile_mesh(&g, &tiles[0]);
    let right = build_tile_mesh(&g, &tiles[1]);
    for row in 0..TILE_SIZE {
        let l = &left.vertices[row * TILE_SIZE + (TILE_SIZE - 1)];
        let r = &right.vertices[row * TILE_SIZE];
        assert!(l.x.eqv(&r.x), "row {}: left {}/{} vs right {}/{}", row, l.x.num, l.x.den, r.x.num, r.x.den);
    }
}

#[test]
fn flat_terrain_has_straight_up_normals() {
    let g = flat_grid(128, 128, 100);
    let tiles = tile_layout(128, 128).expect("valid");
    let mesh = build_tile_mesh(&g, &tiles[0]);
    for n in mesh.normals.iter() {
        assert_eq!(n.x.num, 0);
        assert_eq!(n.y.num, NORMAL_SCALE);
        assert_eq!(n.y.den, NORMAL_SCALE);
        assert_eq!(n.z.num, 0);
    }
}

#[test]
fn normals_have_unit_length_within_tolerance() {
    let g = bumpy_grid(128, 128);
    let tiles = tile_layout(128, 128).expect("valid");
    let mesh = build_tile_mesh(&g, &tiles[0]);
    for n in mesh.normals.iter() {
        let len2 = rat_value(&n.x) * rat_value(&n.x) + rat_value(&n.y) * rat_value(&n.y)
            + rat_value(&n.z) * rat_value(&n.z);
        assert!((len2 - 1.0).abs() < 0.01, "squared length {}", len2);
    }
}

#[test]
fn isqrt_brackets_its_argument() {
    assert_eq!(isqrt(0), 0);
    assert_eq!(isqrt(1), 1);
    assert_eq!(isqrt(2), 1);
    assert_eq!(isqrt(3), 1);
    assert_eq!(isqrt(4), 2);
    assert_eq!(isqrt(16), 4);
    assert_eq!(isqrt(24), 4);
    assert_eq!(isqrt(25), 5);
    assert_eq!(isqrt(1 << 62), 1 << 31);
    assert_eq!(isqrt(u64::MAX as u128), (1 << 32) - 1);
}

#[test]
fn normalize_fixed_is_the_documented_rounding() {
    assert_eq!(normalize_fixed(0, 0, 0), (0, 0, 0));
    assert_eq!(normalize_fixed(0, 5, 0), (0, NORMAL_SCALE, 0));
    assert_eq!(normalize_fixed(0, -7, 0), (0, -NORMAL_SCALE, 0));
    // |(3, 4, 0)| == 5 exactly.
    assert_eq!(
        normalize_fixed(3, 4, 0),
        (3 * NORMAL_SCALE / 5, 4 * NORMAL_SCALE / 5, 0)
    );
    // A large diagonal vector: components near NORMAL_SCALE / sqrt(2).
    let (x, y, z) = normalize_fixed(1000000, 1000000, 0);
    assert_eq!(x, y);
    assert_eq!(z, 0);
    let c = x as f64 / NORMAL_SCALE as f64;
    assert!((c - 0.7071).abs() < 0.001);
}
