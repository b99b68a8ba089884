//! The tile partitioner.
//!
//! A validated heightfield is divided into a row-major sequence of
//! non-overlapping square tiles of [`TILE_SIZE`] samples per edge. Each tile
//! is identified by its grid coordinates `(tx, ty)`, the stable name under
//! which its mesh is registered. The layout is a pure function of the
//! dimensions, so regenerating it after a reload yields the identical list.

use crate::heightmap::Error;
use vstd::arithmetic::div_mod::lemma_fundamental_div_mod;
use vstd::arithmetic::div_mod::lemma_fundamental_div_mod_converse;
use vstd::prelude::*;

verus! {

/// Samples per tile edge.
pub const TILE_SIZE: usize = 128;

/// One square partition of the heightfield, identified by its tile-grid
/// coordinates `(tx, ty)`; it covers grid columns
/// `[start_x, start_x + width)` and rows `[start_y, start_y + height)`.
#[derive(Clone, Copy, Debug, PartialEq, Eq, Structural)]
pub struct Tile {
    /// Tile column in the tile grid.
    pub tx: usize,
    /// Tile row in the tile grid.
    pub ty: usize,
    /// First heightfield column covered.
    pub start_x: usize,
    /// First heightfield row covered.
    pub start_y: usize,
    /// Columns covered; always [`TILE_SIZE`].
    pub width: usize,
    /// Rows covered; always [`TILE_SIZE`].
    pub height: usize,
}

/// The stable name of a tile: its coordinates in the tile grid. Meshes are
/// registered and replaced under this name.
#[derive(Clone, Copy, Debug, PartialEq, Eq, Hash, Structural)]
pub struct TileKey {
    /// Tile column.
    pub tx: usize,
    /// Tile row.
    pub ty: usize,
}

/// The name of tile `t`.
pub open spec fn tile_key(t: Tile) -> TileKey {
    TileKey { tx: t.tx, ty: t.ty }
}

impl Tile {
    /// The offsets agree with the tile coordinates and the edges are
    /// [`TILE_SIZE`].
    pub open spec fn wf(self) -> bool {
        &&& self.start_x == self.tx * TILE_SIZE
        &&& self.start_y == self.ty * TILE_SIZE
        &&& self.width == TILE_SIZE
        &&& self.height == TILE_SIZE
    }

    /// The tile's stable name.
    pub fn key(&self) -> (r: TileKey)
        ensures
            r == tile_key(*self),
    {
        TileKey { tx: self.tx, ty: self.ty }
    }
}

/// Dimensions a heightfield must have: positive exact multiples of
/// [`TILE_SIZE`].
pub open spec fn valid_dims(width: int, height: int) -> bool {
    &&& width > 0
    &&& height > 0
    &&& width % (TILE_SIZE as int) == 0
    &&& height % (TILE_SIZE as int) == 0
}

/// The tile at row-major position `i` of a layout `tiles_x` tiles wide.
pub open spec fn tile_at(tiles_x: int, i: int) -> Tile {
    Tile {
        tx: (i % tiles_x) as usize,
        ty: (i / tiles_x) as usize,
        start_x: ((i % tiles_x) * (TILE_SIZE as int)) as usize,
        start_y: ((i / tiles_x) * (TILE_SIZE as int)) as usize,
        width: TILE_SIZE,
        height: TILE_SIZE,
    }
}

/// Whether the grid sample `(gx, gy)` lies inside tile `t`.
pub open spec fn tile_contains(t: Tile, gx: int, gy: int) -> bool {
    &&& t.start_x <= gx < t.start_x + t.width
    &&& t.start_y <= gy < t.start_y + t.height
}

/// Divides a `width * height` heightfield into its row-major tile list:
/// `(width / TILE_SIZE) * (height / TILE_SIZE)` tiles, `ty` outer, `tx`
/// inner. Fails exactly when the dimensions are not positive multiples of
/// [`TILE_SIZE`]. Deterministic: the same dimensions always give the
/// identical list.
pub fn tile_layout(width: usize, height: usize) -> (r: Result<Vec<Tile>, Error>)
    requires
        width <= 0x4000,
        height <= 0x4000,
    ensures
        r is Ok <==> valid_dims(width as int, height as int),
        r matches Err(e) ==> e == Error::FileNotSupported,
        r matches Ok(tiles) ==> {
            let ntx = width as int / (TILE_SIZE as int);
            let nty = height as int / (TILE_SIZE as int);
            &&& tiles@.len() == ntx * nty
            &&& forall|i: int|
                0 <= i < tiles@.len() ==> tiles@[i] == tile_at(ntx, i) && (
                #[trigger] tiles@[i]).wf() && tiles@[i].start_x + TILE_SIZE <= width
                    && tiles@[i].start_y + TILE_SIZE <= height
        },
{
    if width == 0 || height == 0 || width % TILE_SIZE != 0 || height % TILE_SIZE != 0 {
        return Err(Error::FileNotSupported);
    }
    let ntx = width / TILE_SIZE;
    let nty = height / TILE_SIZE;
    proof {
        lemma_fundamental_div_mod(width as int, TILE_SIZE as int);
        lemma_fundamental_div_mod(height as int, TILE_SIZE as int);
    }
    let mut tiles: Vec<Tile> = Vec::new();
    let mut ty: usize = 0;
    while ty < nty
        invariant
            ty <= nty,
            ntx == width as int / (TILE_SIZE as int),
            nty == height as int / (TILE_SIZE as int),
            width == ntx * TILE_SIZE,
            height == nty * TILE_SIZE,
            ntx <= 0x80,
            nty <= 0x80,
            tiles@.len() == ty * ntx,
            forall|i: int|
                0 <= i < tiles@.len() ==> tiles@[i] == tile_at(ntx as int, i) && (
                #[trigger] tiles@[i]).wf() && tiles@[i].start_x + TILE_SIZE <= width
                    && tiles@[i].start_y + TILE_SIZE <= height,
        decreases nty - ty,
    {
        let mut tx: usize = 0;
        while tx < ntx
            invariant
                tx <= ntx,
                ty < nty,
                width == ntx * TILE_SIZE,
                height == nty * TILE_SIZE,
                ntx <= 0x80,
                nty <= 0x80,
                tiles@.len() == ty * ntx + tx,
                forall|i: int|
                    0 <= i < tiles@.len() ==> tiles@[i] == tile_at(ntx as int, i) && (
                    #[trigger] tiles@[i]).wf() && tiles@[i].start_x + TILE_SIZE <= width
                        && tiles@[i].start_y + TILE_SIZE <= height,
            decreases ntx - tx,
        {
            let t = Tile {
                tx,
                ty,
                start_x: tx * TILE_SIZE,
                start_y: ty * TILE_SIZE,
                width: TILE_SIZE,
                height: TILE_SIZE,
            };
            proof {
                lemma_fundamental_div_mod_converse(
                    (ty * ntx + tx) as int,
                    ntx as int,
                    ty as int,
                    tx as int,
                );
            }
            tiles.push(t);
            tx = tx + 1;
        }
        proof {
            assert((ty + 1) * ntx == ty * ntx + ntx) by (nonlinear_arith);
        }
        ty = ty + 1;
    }
    proof {
        assert(tiles@.len() == nty * ntx);
    }
    Ok(tiles)
}

/// Coverage: every sample `(gx, gy)` of a valid heightfield lies in the tile
/// at row-major index `(gy / TILE_SIZE) * (width / TILE_SIZE) +
/// gx / TILE_SIZE`, and that index is inside the layout. Together with
/// [`lemma_tiles_disjoint`] the tiles partition the grid exactly: no
/// overlap, no gaps.
pub proof fn lemma_tiles_cover(width: int, height: int, gx: int, gy: int)
    requires
        valid_dims(width, height),
        width <= 0x4000,
        height <= 0x4000,
        0 <= gx < width,
        0 <= gy < height,
    ensures
        ({
            let t = TILE_SIZE as int;
            let ntx = width / t;
            let nty = height / t;
            let i = (gy / t) * ntx + gx / t;
            &&& 0 <= i < ntx * nty
            &&& tile_contains(tile_at(ntx, i), gx, gy)
        }),
{
    let t = TILE_SIZE as int;
    let ntx = width / t;
    let nty = height / t;
    let qx = gx / t;
    let qy = gy / t;
    let i = qy * ntx + qx;
    lemma_fundamental_div_mod(width, t);
    lemma_fundamental_div_mod(height, t);
    assert(width == ntx * t && height == nty * t);
    assert(qx < ntx && qy < nty) by (nonlinear_arith)
        requires
            t == 128,
            width == ntx * t,
            height == nty * t,
            0 <= gx < width,
            0 <= gy < height,
            qx == gx / t,
            qy == gy / t,
    ;
    assert(0 <= i < ntx * nty) by (nonlinear_arith)
        requires
            0 <= qx < ntx,
            0 <= qy < nty,
            i == qy * ntx + qx,
    ;
    lemma_fundamental_div_mod_converse(i, ntx, qy, qx);
    assert(i % ntx == qx && i / ntx == qy);
    assert(qx * t <= gx < qx * t + t);
    assert(qy * t <= gy < qy * t + t);
    assert(0 <= qx * t <= gx && 0 <= qy * t <= gy);
    assert(tile_contains(tile_at(ntx, i), gx, gy));
}

/// No overlap: two distinct tiles of one layout never contain the same
/// sample.
pub proof fn lemma_tiles_disjoint(width: int, height: int, i: int, j: int, gx: int, gy: int)
    requires
        valid_dims(width, height),
        width <= 0x4000,
        height <= 0x4000,
        0 <= i < (width / (TILE_SIZE as int)) * (height / (TILE_SIZE as int)),
        0 <= j < (width / (TILE_SIZE as int)) * (height / (TILE_SIZE as int)),
        i != j,
        tile_contains(tile_at(width / (TILE_SIZE as int), i), gx, gy),
    ensures
        !tile_contains(tile_at(width / (TILE_SIZE as int), j), gx, gy),
{
    let t = TILE_SIZE as int;
    let ntx = width / t;
    let nty = height / t;
    assert(ntx >= 0 && nty >= 0);
    assert(ntx > 0) by (nonlinear_arith)
        requires
            ntx >= 0,
            nty >= 0,
            0 <= i < ntx * nty,
    ;
    if tile_contains(tile_at(ntx, j), gx, gy) {
        lemma_fundamental_div_mod(i, ntx);
        lemma_fundamental_div_mod(j, ntx);
        assert(0 <= i % ntx < ntx && 0 <= j % ntx < ntx);
        let txi = i % ntx;
        let tyi = i / ntx;
        let txj = j % ntx;
        let tyj = j / ntx;
        assert(tyi < nty) by (nonlinear_arith)
            requires
                ntx > 0,
                i == ntx * tyi + txi,
                0 <= txi < ntx,
                0 <= i < ntx * nty,
        ;
        assert(tyj < nty) by (nonlinear_arith)
            requires
                ntx > 0,
                j == ntx * tyj + txj,
                0 <= txj < ntx,
                0 <= j < ntx * nty,
        ;
        assert(0 <= tyi && 0 <= tyj) by (nonlinear_arith)
            requires
                ntx > 0,
                i == ntx * tyi + txi,
                j == ntx * tyj + txj,
                0 <= txi < ntx,
                0 <= txj < ntx,
                0 <= i,
                0 <= j,
        ;
        assert(txi * t <= gx < txi * t + t && txj * t <= gx < txj * t + t);
        assert(tyi * t <= gy < tyi * t + t && tyj * t <= gy < tyj * t + t);
        assert(txi == txj && tyi == tyj) by (nonlinear_arith)
            requires
                t > 0,
                txi * t <= gx < txi * t + t,
                txj * t <= gx < txj * t + t,
                tyi * t <= gy < tyi * t + t,
                tyj * t <= gy < tyj * t + t,
        ;
        assert(i == ntx * tyi + txi && j == ntx * tyj + txj);
        assert(false);
    }
}

} // verus!
