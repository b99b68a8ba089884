//! The heightmap: a validated heightfield, its tiles, and the presentation
//! transform, with one-shot tile generation and a transactional reload.
//!
//! A heightmap is built from a sample grid whose dimensions must be positive
//! multiples of the tile edge. [`Heightmap::generate_mesh_tiles`] partitions
//! the grid once and registers every tile's mesh in a caller-owned
//! [`MeshRegistry`]; calling it a second time before a reload is a contract
//! violation and excluded by precondition. [`Heightmap::reload`] is a
//! transaction: either the new grid matches and every registered tile mesh is
//! regenerated in place under its old name, or nothing at all changes.
//!
//! The height transform (`height_scale`, `height_offset`) is stored here and
//! applied by the presentation layer as a node transform; changing it never
//! regenerates a mesh. The scale is clamped to at least 1.

use crate::grid::HeightGrid;
use crate::mesh::{build_tile_mesh, is_mesh_for, TileMesh};
use crate::rat::{q_le, q_lt, qv, Rat};
use crate::registry::MeshRegistry;
use crate::terrain_mode::TerrainMode;
use crate::tile::{tile_at, tile_key, tile_layout, valid_dims, Tile, TileKey, TILE_SIZE};
use vstd::prelude::*;

verus! {

/// How loading or reloading a heightfield can fail.
#[derive(Clone, Copy, Debug, Eq, PartialEq, Structural)]
pub enum Error {
    /// The source could not be read at all.
    InvalidFile,
    /// The source was read but is not usable as a heightfield (wrong channel
    /// layout, or dimensions that do not fit the tiling).
    FileNotSupported,
}

/// Whether `k` names a tile of a layout `ntx` by `nty` tiles.
pub open spec fn is_tile_key(ntx: int, nty: int, k: TileKey) -> bool {
    k.tx < ntx && k.ty < nty
}

/// The row-major position of the tile named `k` in a layout `ntx` tiles
/// wide.
pub open spec fn key_index(ntx: int, k: TileKey) -> int {
    k.ty * ntx + k.tx
}

/// Keys outside the tile layout keep their registry entry across an
/// operation: present with the same mesh, or absent, exactly as before.
pub open spec fn key_preserved(
    before: Map<TileKey, TileMesh>,
    after: Map<TileKey, TileMesh>,
    k: TileKey,
) -> bool {
    &&& after.dom().contains(k) <==> before.dom().contains(k)
    &&& before.dom().contains(k) ==> after[k] == before[k]
}

/// The tile name at layout position `i` points back to `i`.
proof fn lemma_key_index_roundtrip(ntx: int, nty: int, i: int)
    requires
        0 < ntx <= 0x80,
        0 < nty <= 0x80,
        0 <= i < ntx * nty,
    ensures
        ({
            let k = tile_key(tile_at(ntx, i));
            &&& is_tile_key(ntx, nty, k)
            &&& key_index(ntx, k) == i
        }),
{
    vstd::arithmetic::div_mod::lemma_fundamental_div_mod(i, ntx);
    let tx = i % ntx;
    let ty = i / ntx;
    assert(0 <= tx < ntx);
    assert(ty < nty) by (nonlinear_arith)
        requires
            ntx > 0,
            i == ntx * ty + tx,
            0 <= tx < ntx,
            0 <= i < ntx * nty,
    ;
    assert(0 <= ty) by (nonlinear_arith)
        requires
            ntx > 0,
            i == ntx * ty + tx,
            0 <= tx < ntx,
            0 <= i,
    ;
    assert(ty * ntx == ntx * ty) by (nonlinear_arith);
}

/// A heightfield with its tiles and presentation transform.
#[derive(Debug)]
pub struct Heightmap {
    /// The elevation samples.
    pub grid: HeightGrid,
    /// Vertical scale the presentation layer applies to every tile node;
    /// never below 1.
    pub height_scale: Rat,
    /// Vertical offset the presentation layer applies to every tile node.
    pub height_offset: Rat,
    /// How the terrain is currently displayed.
    pub terrain_mode: TerrainMode,
    /// The tile partition; empty until `generate_mesh_tiles` runs.
    pub tiles: Vec<Tile>,
}

impl Heightmap {
    /// Tiles across.
    pub open spec fn ntx(self) -> int {
        self.grid.width as int / (TILE_SIZE as int)
    }

    /// Tiles down.
    pub open spec fn nty(self) -> int {
        self.grid.height as int / (TILE_SIZE as int)
    }

    /// The tile list is the exact row-major layout of the grid.
    pub open spec fn tiles_are_layout(self) -> bool {
        &&& self.tiles@.len() == self.ntx() * self.nty()
        &&& forall|i: int|
            0 <= i < self.tiles@.len() ==> self.tiles@[i] == tile_at(self.ntx(), i) && (
            #[trigger] self.tiles@[i]).wf() && self.tiles@[i].start_x + TILE_SIZE <= self.grid.width
                && self.tiles@[i].start_y + TILE_SIZE <= self.grid.height
    }

    /// A valid heightmap: a well-formed, tile-aligned, bounded grid; a scale
    /// of at least 1; and a tile list that is either still empty or the full
    /// layout.
    pub open spec fn wf(self) -> bool {
        &&& self.grid.wf()
        &&& valid_dims(self.grid.width as int, self.grid.height as int)
        &&& self.grid.width <= 0x4000
        &&& self.grid.height <= 0x4000
        &&& self.height_scale.wf()
        &&& q_le((1int, 1int), qv(self.height_scale))
        &&& self.height_offset.wf()
        &&& self.tiles@.len() == 0 || self.tiles_are_layout()
    }

    /// Builds a heightmap over `grid`. Fails with `FileNotSupported` exactly
    /// when the grid's dimensions are not positive multiples of the tile
    /// edge. The fresh heightmap starts textured, with height scale 10 and
    /// offset 0, and no tiles generated yet.
    pub fn from_grid(grid: HeightGrid) -> (r: Result<Heightmap, Error>)
        requires
            grid.wf(),
            grid.width <= 0x4000,
            grid.height <= 0x4000,
        ensures
            r is Ok <==> valid_dims(grid.width as int, grid.height as int),
            r matches Err(e) ==> e == Error::FileNotSupported,
            r matches Ok(h) ==> {
                &&& h.wf()
                &&& h.grid == grid
                &&& qv(h.height_scale) == (10int, 1int)
                &&& qv(h.height_offset) == (0int, 1int)
                &&& h.terrain_mode == TerrainMode::Textured
                &&& h.tiles@.len() == 0
            },
    {
        if grid.width == 0 || grid.height == 0 || grid.width % TILE_SIZE != 0 || grid.height
            % TILE_SIZE != 0 {
            return Err(Error::FileNotSupported);
        }
        Ok(
            Heightmap {
                grid,
                height_scale: Rat::from_int(10),
                height_offset: Rat::from_int(0),
                terrain_mode: TerrainMode::Textured,
                tiles: Vec::new(),
            },
        )
    }

    /// The heightfield's width and height in samples.
    pub fn dimensions(&self) -> (r: (usize, usize))
        ensures
            r == (self.grid.width, self.grid.height),
    {
        (self.grid.width, self.grid.height)
    }

    /// The vertical scale the presentation layer must apply.
    pub fn height_scale(&self) -> (r: Rat)
        ensures
            r == self.height_scale,
    {
        self.height_scale
    }

    /// The vertical offset the presentation layer must apply.
    pub fn height_offset(&self) -> (r: Rat)
        ensures
            r == self.height_offset,
    {
        self.height_offset
    }

    /// Sets the vertical scale, clamped up to the minimum of 1: asking for
    /// less than 1 yields exactly 1, anything else is stored unchanged.
    /// No mesh is touched.
    pub fn set_height_scale(&mut self, scale: Rat)
        requires
            old(self).wf(),
            scale.wf(),
        ensures
            final(self).wf(),
            qv(final(self).height_scale) == (if q_lt(qv(scale), (1int, 1int)) {
                (1int, 1int)
            } else {
                qv(scale)
            }),
            final(self).grid == old(self).grid,
            final(self).height_offset == old(self).height_offset,
            final(self).terrain_mode == old(self).terrain_mode,
            final(self).tiles == old(self).tiles,
    {
        let one = Rat::from_int(1);
        if scale.lt(&one) {
            self.height_scale = one;
        } else {
            self.height_scale = scale;
        }
    }

    /// Sets the vertical offset; it is unconstrained. No mesh is touched.
    pub fn set_height_offset(&mut self, offset: Rat)
        requires
            old(self).wf(),
            offset.wf(),
        ensures
            final(self).wf(),
            final(self).height_offset == offset,
            final(self).grid == old(self).grid,
            final(self).height_scale == old(self).height_scale,
            final(self).terrain_mode == old(self).terrain_mode,
            final(self).tiles == old(self).tiles,
    {
        self.height_offset = offset;
    }

    /// How the terrain is currently displayed.
    pub fn terrain_mode(&self) -> (r: TerrainMode)
        ensures
            r == self.terrain_mode,
    {
        self.terrain_mode
    }

    /// Selects the display mode; the presentation layer applies the matching
    /// render style to every tile node.
    pub fn set_terrain_mode(&mut self, mode: TerrainMode)
        requires
            old(self).wf(),
        ensures
            final(self).wf(),
            final(self).terrain_mode == mode,
            final(self).grid == old(self).grid,
            final(self).height_scale == old(self).height_scale,
            final(self).height_offset == old(self).height_offset,
            final(self).tiles == old(self).tiles,
    {
        self.terrain_mode = mode;
    }

    /// The tile partition; empty until the tiles are generated.
    pub fn tiles(&self) -> (r: &Vec<Tile>)
        ensures
            r == self.tiles,
    {
        &self.tiles
    }

    /// Partitions the heightfield and registers every tile's mesh in `mm`
    /// under the tile's name. To be called exactly once per heightmap; the
    /// precondition excludes a second call before a reload. Afterward every
    /// tile of the layout has its exact mesh registered, and every other
    /// registry entry is exactly as it was.
    pub fn generate_mesh_tiles(&mut self, mm: &mut MeshRegistry)
        requires
            old(self).wf(),
            old(self).tiles@.len() == 0,
            old(mm).wf(),
        ensures
            final(self).wf(),
            final(mm).wf(),
            final(self).tiles_are_layout(),
            final(self).grid == old(self).grid,
            final(self).height_scale == old(self).height_scale,
            final(self).height_offset == old(self).height_offset,
            final(self).terrain_mode == old(self).terrain_mode,
            forall|i: int|
                0 <= i < final(self).tiles@.len() ==> {
                    let k = tile_key(#[trigger] final(self).tiles@[i]);
                    &&& final(mm)@.dom().contains(k)
                    &&& is_mesh_for(final(mm)@[k], old(self).grid, final(self).tiles@[i])
                },
            forall|k: TileKey|
                !is_tile_key(old(self).ntx(), old(self).nty(), k) ==> key_preserved(
                    old(mm)@,
                    final(mm)@,
                    k,
                ),
    {
        let ghost ntx = self.ntx();
        let ghost nty = self.nty();
        let tiles = match tile_layout(self.grid.width, self.grid.height) {
            Ok(ts) => ts,
            Err(_) => {
                proof {
                    assert(false);
                }
                return ;
            },
        };
        let n = tiles.len();
        let ghost mm0 = mm@;
        let mut i: usize = 0;
        while i < n
            invariant
                mm0 == old(mm)@,
                self == old(self),
                mm.wf(),
                n == tiles@.len(),
                i <= n,
                self.wf(),
                self.tiles@.len() == 0,
                0 < ntx <= 0x80,
                0 < nty <= 0x80,
                ntx == self.ntx(),
                nty == self.nty(),
                n == ntx * nty,
                forall|j: int|
                    0 <= j < n ==> tiles@[j] == tile_at(ntx, j) && (#[trigger] tiles@[j]).wf()
                        && tiles@[j].start_x + TILE_SIZE <= self.grid.width
                        && tiles@[j].start_y + TILE_SIZE <= self.grid.height,
                forall|j: int|
                    0 <= j < i ==> {
                        let k = tile_key(#[trigger] tiles@[j]);
                        &&& mm@.dom().contains(k)
                        &&& is_mesh_for(mm@[k], self.grid, tiles@[j])
                    },
                forall|k: TileKey|
                    #[trigger] key_preserved(mm0, mm@, k) || (is_tile_key(ntx, nty, k)
                        && key_index(ntx, k) < i),
            decreases n - i,
        {
            let t = tiles[i];
            let mesh = build_tile_mesh(&self.grid, &t);
            let key = t.key();
            proof {
                lemma_key_index_roundtrip(ntx, nty, i as int);
            }
            let ghost mm_prev = mm@;
            mm.insert(key, mesh);
            proof {
                assert forall|j: int| 0 <= j < i + 1 implies {
                    let k = tile_key(#[trigger] tiles@[j]);
                    &&& mm@.dom().contains(k)
                    &&& is_mesh_for(mm@[k], self.grid, tiles@[j])
                } by {
                    if j < i {
                        lemma_key_index_roundtrip(ntx, nty, j);
                        assert(key_index(ntx, tile_key(tiles@[j])) == j && key_index(ntx, key)
                            == i);
                        assert(key_preserved(mm_prev, mm@, tile_key(tiles@[j])));
                    }
                }
                assert forall|k: TileKey|
                    #[trigger] key_preserved(mm0, mm@, k) || (is_tile_key(ntx, nty, k)
                        && key_index(ntx, k) < i + 1) by {
                    if !(is_tile_key(ntx, nty, k) && key_index(ntx, k) < i + 1) {
                        assert(key_preserved(mm0, mm_prev, k));
                        assert(is_tile_key(ntx, nty, key) && key_index(ntx, key) == i as int);
                        assert(k != key);
                        assert(key_preserved(mm0, mm@, k));
                    }
                }
            }
            i = i + 1;
        }
        self.tiles = tiles;
        proof {
            assert forall|j: int| 0 <= j < self.tiles@.len() implies {
                let k = tile_key(#[trigger] self.tiles@[j]);
                &&& mm@.dom().contains(k)
                &&& is_mesh_for(mm@[k], old(self).grid, self.tiles@[j])
            } by {}
            assert forall|k: TileKey|
                !is_tile_key(old(self).ntx(), old(self).nty(), k) implies key_preserved(
                old(mm)@,
                mm@,
                k,
            ) by {
                assert(key_preserved(mm0, mm@, k));
            }
        }
    }

    /// Replaces the heightfield from a freshly read source and regenerates
    /// every registered tile mesh in place, preserving tile identity. The
    /// reload is a transaction: when the source could not be read
    /// (`InvalidFile`) or its dimensions differ from the current grid
    /// (`FileNotSupported`), the heightmap and every registry entry are left
    /// exactly as they were. On success only the registered tile meshes
    /// change, each to the exact mesh of the new grid under its old name.
    pub fn reload(&mut self, mm: &mut MeshRegistry, source: Option<HeightGrid>) -> (r: Result<
        (),
        Error,
    >)
        requires
            old(self).wf(),
            old(mm).wf(),
            source matches Some(g) ==> g.wf() && g.width <= 0x4000 && g.height <= 0x4000,
        ensures
            final(self).wf(),
            final(mm).wf(),
            r is Ok <==> (source matches Some(g) && g.width == old(self).grid.width && g.height
                == old(self).grid.height),
            source is None ==> r == Result::<(), Error>::Err(Error::InvalidFile),
            r is Err ==> *final(self) == *old(self) && final(mm)@ == old(mm)@,
            r is Ok ==> {
                &&& final(self).grid == source.unwrap()
                &&& final(self).tiles == old(self).tiles
                &&& final(self).height_scale == old(self).height_scale
                &&& final(self).height_offset == old(self).height_offset
                &&& final(self).terrain_mode == old(self).terrain_mode
                &&& forall|j: int|
                    0 <= j < old(self).tiles@.len() ==> {
                        let k = tile_key(#[trigger] old(self).tiles@[j]);
                        &&& old(mm)@.dom().contains(k) ==> final(mm)@.dom().contains(k)
                            && is_mesh_for(final(mm)@[k], source.unwrap(), old(self).tiles@[j])
                        &&& !old(mm)@.dom().contains(k) ==> !final(mm)@.dom().contains(k)
                    }
                &&& forall|k: TileKey|
                    !is_tile_key(old(self).ntx(), old(self).nty(), k) ==> key_preserved(
                        old(mm)@,
                        final(mm)@,
                        k,
                    )
            },
    {
        let new_grid = match source {
            Some(g) => g,
            None => {
                return Err(Error::InvalidFile);
            },
        };
        if new_grid.width != self.grid.width || new_grid.height != self.grid.height {
            return Err(Error::FileNotSupported);
        }
        let ghost ntx = self.ntx();
        let ghost nty = self.nty();
        self.grid = new_grid;
        let n = self.tiles.len();
        let ghost mm0 = mm@;
        let mut i: usize = 0;
        while i < n
            invariant
                mm0 == old(mm)@,
                mm.wf(),
                self.grid == old(self).grid || self.grid == source.unwrap(),
                self.grid.wf(),
                self.grid.width == old(self).grid.width,
                self.grid.height == old(self).grid.height,
                self.grid == source.unwrap(),
                self.tiles == old(self).tiles,
                self.height_scale == old(self).height_scale,
                self.height_offset == old(self).height_offset,
                self.terrain_mode == old(self).terrain_mode,
                old(self).wf(),
                n == self.tiles@.len(),
                i <= n,
                ntx == old(self).ntx(),
                nty == old(self).nty(),
                0 < ntx <= 0x80,
                0 < nty <= 0x80,
                n == 0 || n == ntx * nty,
                forall|j: int|
                    0 <= j < n ==> old(self).tiles@[j] == tile_at(ntx, j) && (#[trigger] old(
                        self,
                    ).tiles@[j]).wf() && old(self).tiles@[j].start_x + TILE_SIZE
                        <= old(self).grid.width && old(self).tiles@[j].start_y + TILE_SIZE
                        <= old(self).grid.height,
                forall|j: int|
                    0 <= j < i ==> {
                        let k = tile_key(#[trigger] old(self).tiles@[j]);
                        &&& mm0.dom().contains(k) ==> mm@.dom().contains(k) && is_mesh_for(
                            mm@[k],
                            source.unwrap(),
                            old(self).tiles@[j],
                        )
                        &&& !mm0.dom().contains(k) ==> !mm@.dom().contains(k)
                    },
                forall|k: TileKey|
                    #[trigger] key_preserved(mm0, mm@, k) || (is_tile_key(ntx, nty, k)
                        && key_index(ntx, k) < i),
            decreases n - i,
        {
            let t = self.tiles[i];
            let key = t.key();
            proof {
                lemma_key_index_roundtrip(ntx, nty, i as int);
            }
            let ghost mm_prev = mm@;
            if mm.contains(&key) {
                mm.remove(&key);
                let new_mesh = build_tile_mesh(&self.grid, &t);
                mm.insert(key, new_mesh);
            }
            proof {
                assert forall|j: int| 0 <= j < i + 1 implies {
                    let k = tile_key(#[trigger] old(self).tiles@[j]);
                    &&& mm0.dom().contains(k) ==> mm@.dom().contains(k) && is_mesh_for(
                        mm@[k],
                        source.unwrap(),
                        old(self).tiles@[j],
                    )
                    &&& !mm0.dom().contains(k) ==> !mm@.dom().contains(k)
                } by {
                    if j < i {
                        lemma_key_index_roundtrip(ntx, nty, j);
                        assert(key_index(ntx, tile_key(old(self).tiles@[j])) == j && key_index(
                            ntx,
                            key,
                        ) == i);
                        assert(key_preserved(mm_prev, mm@, tile_key(old(self).tiles@[j])));
                    } else {
                        assert(key_preserved(mm0, mm_prev, key));
                    }
                }
                assert forall|k: TileKey|
                    #[trigger] key_preserved(mm0, mm@, k) || (is_tile_key(ntx, nty, k)
                        && key_index(ntx, k) < i + 1) by {
                    if !(is_tile_key(ntx, nty, k) && key_index(ntx, k) < i + 1) {
                        assert(key_preserved(mm0, mm_prev, k));
                        assert(is_tile_key(ntx, nty, key) && key_index(ntx, key) == i as int);
                        assert(k != key);
                        assert(key_preserved(mm0, mm@, k));
                    }
                }
            }
            i = i + 1;
        }
        Ok(())
    }
}

} // verus!
