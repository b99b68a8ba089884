//! Heightmap lifecycle tests: loading, tile generation into the registry,
//! transactional reload, the height transform, display modes, and the alpha
//! map.

use terrain_mesh::alphamap::{Alphamap, Rgb};
use terrain_mesh::grid::HeightGrid;
use terrain_mesh::heightmap::{Error, Heightmap};
use terrain_mesh::rat::Rat;
use terrain_mesh::registry::MeshRegistry;
use terrain_mesh::terrain_mode::{render_style, TerrainMode, TextureChoice};
use terrain_mesh::tile::TileKey;

fn grid_with(width: usize, height: usize, seed: usize) -> HeightGrid {
    let samples: Vec<u8> = (0..width * height).map(|i| ((i * 31 + seed) % 256) as u8).collect();
    HeightGrid::from_samples(width, height, samples).expect("sample count matches")
}

#[test]
fn grid_construction_checks_the_sample_count() {
    assert!(HeightGrid::from_samples(2, 3, vec![0; 6]).is_some());
    assert!(HeightGrid::from_samples(2, 3, vec![0; 5]).is_none());
    let g = HeightGrid::from_samples(4, 2, (0..8u8).collect()).unwrap();
    assert_eq!(g.sample(0, 0), 0);
    assert_eq!(g.sample(3, 0), 3);
    assert_eq!(g.sample(0, 1), 4);
    assert_eq!(g.sample(3, 1), 7);
}

#[test]
fn heightmap_rejects_unaligned_grids() {
    let bad = HeightGrid::from_samples(64, 64, vec![0; 64 * 64]).unwrap();
    assert_eq!(Heightmap::from_grid(bad).unwrap_err(), Error::FileNotSupported);
    let good = grid_with(128, 128, 0);
    let h = Heightmap::from_grid(good).unwrap();
    assert_eq!(h.dimensions(), (128, 128));
    assert_eq!(h.terrain_mode(), TerrainMode::Textured);
    assert!(h.height_scale().eqv(&Rat::from_int(10)));
    assert!(h.height_offset().eqv(&Rat::from_int(0)));
}

#[test]
fn generation_registers_every_tile_once() {
    let mut h = Heightmap::from_grid(grid_with(256, 128, 3)).unwrap();
    let mut mm = MeshRegistry::new();
    h.generate_mesh_tiles(&mut mm);
    assert_eq!(h.tiles().len(), 2);
    assert_eq!(mm.len(), 2);
    assert!(mm.contains(&TileKey { tx: 0, ty: 0 }));
    assert!(mm.contains(&TileKey { tx: 1, ty: 0 }));
    assert!(!mm.contains(&TileKey { tx: 2, ty: 0 }));
    let mesh = mm.lookup(&TileKey { tx: 1, ty: 0 }).expect("registered");
    // The right tile's first vertex samples column 128 of the full grid.
    assert_eq!(mesh.vertices[0].y.num as u8, ((128 * 31 + 3) % 256) as u8);
}

#[test]
fn failed_reload_leaves_meshes_byte_identical() {
    let mut h = Heightmap::from_grid(grid_with(128, 128, 1)).unwrap();
    let mut mm = MeshRegistry::new();
    h.generate_mesh_tiles(&mut mm);
    let key = TileKey { tx: 0, ty: 0 };
    let before = mm.lookup(&key).expect("registered").clone();

    // An unreadable source: nothing may change.
    assert_eq!(h.reload(&mut mm, None).unwrap_err(), Error::InvalidFile);
    assert_eq!(*mm.lookup(&key).expect("still registered"), before);
    assert_eq!(h.dimensions(), (128, 128));

    // A source with different dimensions: nothing may change either.
    let other = grid_with(256, 128, 1);
    assert_eq!(h.reload(&mut mm, Some(other)).unwrap_err(), Error::FileNotSupported);
    assert_eq!(*mm.lookup(&key).expect("still registered"), before);
}

#[test]
fn successful_reload_replaces_meshes_in_place() {
    let mut h = Heightmap::from_grid(grid_with(128, 128, 1)).unwrap();
    let mut mm = MeshRegistry::new();
    h.generate_mesh_tiles(&mut mm);
    let key = TileKey { tx: 0, ty: 0 };
    let before = mm.lookup(&key).expect("registered").clone();

    let fresh = grid_with(128, 128, 77);
    assert!(h.reload(&mut mm, Some(fresh)).is_ok());
    assert_eq!(h.tiles().len(), 1, "tile identity preserved");
    assert_eq!(mm.len(), 1);
    let after = mm.lookup(&key).expect("still registered");
    assert_ne!(*after, before);
    assert_eq!(after.vertices[0].y.num as u8, (77 % 256) as u8);
    // Positions and UVs are unchanged by a reload of equal dimensions.
    assert_eq!(after.vertices[0].x, before.vertices[0].x);
    assert_eq!(after.uvs, before.uvs);
}

#[test]
fn reload_skips_tiles_missing_from_the_registry() {
    let mut h = Heightmap::from_grid(grid_with(128, 128, 5)).unwrap();
    let mut mm = MeshRegistry::new();
    h.generate_mesh_tiles(&mut mm);
    let key = TileKey { tx: 0, ty: 0 };
    mm.remove(&key);
    assert!(h.reload(&mut mm, Some(grid_with(128, 128, 9))).is_ok());
    assert!(!mm.contains(&key), "an absent tile stays absent");
}

#[test]
fn height_scale_clamps_to_the_floor_of_one() {
    let mut h = Heightmap::from_grid(grid_with(128, 128, 0)).unwrap();
    h.set_height_scale(Rat::new(3, 10));
    assert!(h.height_scale().eqv(&Rat::from_int(1)), "0.3 clamps up to 1");
    h.set_height_scale(Rat::from_int(7));
    assert!(h.height_scale().eqv(&Rat::from_int(7)), "7 stays 7");
    h.set_height_scale(Rat::from_int(1));
    assert!(h.height_scale().eqv(&Rat::from_int(1)));
    h.set_height_offset(Rat::new(-5, 2));
    assert!(h.height_offset().eqv(&Rat::new(-5, 2)), "offset is unconstrained");
}

#[test]
fn registry_replaces_and_removes_by_name() {
    let mut h = Heightmap::from_grid(grid_with(128, 128, 2)).unwrap();
    let mut mm = MeshRegistry::new();
    h.generate_mesh_tiles(&mut mm);
    let key = TileKey { tx: 0, ty: 0 };
    let mesh = mm.lookup(&key).unwrap().clone();
    // Inserting under the same name replaces, never duplicates.
    mm.insert(key, mesh.clone());
    assert_eq!(mm.len(), 1);
    mm.remove(&key);
    assert_eq!(mm.len(), 0);
    assert!(mm.lookup(&key).is_none());
    mm.remove(&key);
    assert_eq!(mm.len(), 0);
    mm.insert(key, mesh);
    assert_eq!(mm.len(), 1);
}

#[test]
fn terrain_modes_cycle_through_all_five() {
    let start = TerrainMode::Wireframe;
    let mut m = start;
    let mut seen = vec![m];
    for _ in 0..4 {
        m = m.next();
        assert!(!seen.contains(&m));
        seen.push(m);
    }
    assert_eq!(m.next(), start);
}

#[test]
fn render_styles_match_their_modes() {
    let w = render_style(TerrainMode::Wireframe);
    assert!(!w.surface && !w.backface_culling);
    assert_eq!((w.points_size, w.lines_width), (3, 1));
    assert!(w.object_material);
    assert_eq!(w.texture, TextureChoice::DefaultTexture);

    let p = render_style(TerrainMode::Points);
    assert!(!p.surface);
    assert_eq!((p.points_size, p.lines_width), (3, 0));

    let s = render_style(TerrainMode::Solid);
    assert!(s.surface && s.backface_culling && s.object_material);
    assert_eq!((s.points_size, s.lines_width), (0, 0));
    assert_eq!(s.texture, TextureChoice::DefaultTexture);

    let t = render_style(TerrainMode::Textured);
    assert!(t.surface && t.backface_culling && !t.object_material);
    assert_eq!(t.texture, TextureChoice::HeightmapTexture);

    let a = render_style(TerrainMode::Alphamap);
    assert!(a.surface && a.backface_culling && !a.object_material);
    assert_eq!(a.texture, TextureChoice::AlphamapTexture);
}

#[test]
fn mode_changes_keep_the_rest_of_the_heightmap() {
    let mut h = Heightmap::from_grid(grid_with(128, 128, 0)).unwrap();
    h.set_terrain_mode(TerrainMode::Points);
    assert_eq!(h.terrain_mode(), TerrainMode::Points);
    assert_eq!(h.dimensions(), (128, 128));
}

#[test]
fn default_alphamap_is_all_red() {
    let a = Alphamap::default_red(128, 128);
    assert_eq!(a.width, 128);
    assert_eq!(a.height, 128);
    assert_eq!(a.pixels.len(), 128 * 128);
    assert_eq!(a.pixel(0, 0), Rgb { r: 255, g: 0, b: 0 });
    assert_eq!(a.pixel(127, 127), Rgb { r: 255, g: 0, b: 0 });
}

#[test]
fn alphamap_from_source_prefers_the_decoded_image() {
    let decoded = Alphamap {
        width: 128,
        height: 128,
        pixels: vec![Rgb { r: 1, g: 2, b: 3 }; 128 * 128],
    };
    let a = Alphamap::from_source(Some(decoded.clone()), 128, 128);
    assert_eq!(a, decoded);
    let b = Alphamap::from_source(None, 128, 128);
    assert_eq!(b.pixel(5, 7), Rgb { r: 255, g: 0, b: 0 });
}
