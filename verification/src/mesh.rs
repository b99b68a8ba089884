//! The tile mesh builder.
//!
//! For one tile of the heightfield this module produces the four parallel
//! buffers a renderer needs: vertex positions, texture coordinates, smooth
//! vertex normals, and the triangle index list. All values are pinned down
//! exactly:
//!
//! * Vertex X/Z are centered on the heightfield midpoint and carry the
//!   edge-stitching rule of [`axis_pos2`]: a tile's first column/row uses the
//!   raw grid coordinate minus half the full extent, its last column/row the
//!   *next* grid coordinate minus half the extent, and interior samples the
//!   UV-interpolated position. Boundary vertices of neighboring tiles thus
//!   coincide exactly ([`lemma_edge_stitch_x`]).
//! * Vertex Y is the elevation sample normalized to `[0, 1]` (denominator
//!   255); the caller's height scale and offset are presentation transforms,
//!   never baked in.
//! * UVs parameterize the *full* heightfield and are flipped on both axes to
//!   match the source image's row convention.
//! * Each interior quad yields two triangles with fixed winding; every index
//!   stays inside the tile's vertex buffer
//!   ([`lemma_triangle_indices_in_bounds`]).
//! * Normals accumulate the fixed-point unit normal of every adjacent
//!   triangle and are then normalized once more ([`vertex_normal`]).

use crate::grid::HeightGrid;
use crate::normal::{
    isqrt_r, lemma_unit_fixed_length, normalize_fixed, sq_len, unit_fixed, NORMAL_SCALE,
};
use crate::rat::{lemma_mul_in_bounds, qv, Rat};
use crate::tile::{Tile, TILE_SIZE};
use crate::vec3::{Vec2, Vec3};
use vstd::arithmetic::div_mod::lemma_fundamental_div_mod_converse;
use vstd::prelude::*;

verus! {

/// Vertices per tile mesh: `TILE_SIZE * TILE_SIZE`.
pub const TILE_VERTS: usize = 16384;

/// Triangles per tile mesh, two per interior quad:
/// `2 * (TILE_SIZE - 1) * (TILE_SIZE - 1)`.
pub const TILE_TRIS: usize = 32258;

/// One triangle of a tile mesh, as indices into the tile's vertex buffer,
/// in winding order.
#[derive(Clone, Copy, Debug, PartialEq, Eq, Structural)]
pub struct Triangle {
    pub a: u16,
    pub b: u16,
    pub c: u16,
}

/// What the mesh builder needs of a grid and tile: a well-formed tile lying
/// inside a well-formed grid whose dimensions leave all index arithmetic far
/// from overflow.
pub open spec fn mesh_inputs_ok(g: HeightGrid, t: Tile) -> bool {
    &&& g.wf()
    &&& t.wf()
    &&& 2 <= g.width <= 0x4000
    &&& 2 <= g.height <= 0x4000
    &&& t.start_x + TILE_SIZE <= g.width
    &&& t.start_y + TILE_SIZE <= g.height
}

/// The tile-local column of vertex `i` of a tile mesh.
pub open spec fn vert_col(i: int) -> int {
    i % (TILE_SIZE as int)
}

/// The tile-local row of vertex `i` of a tile mesh.
pub open spec fn vert_row(i: int) -> int {
    i / (TILE_SIZE as int)
}

/// The heightfield column vertex `i` of tile `t` samples.
pub open spec fn vert_gx(t: Tile, i: int) -> int {
    t.start_x + vert_col(i)
}

/// The heightfield row vertex `i` of tile `t` samples.
pub open spec fn vert_gy(t: Tile, i: int) -> int {
    t.start_y + vert_row(i)
}

/// Twice the world coordinate of grid coordinate `c` along one axis of a
/// tile starting at `start`, on a heightfield of `full` samples along that
/// axis. This is the edge-stitching rule: the tile's first line uses
/// `c - full/2`, its last line `(c+1) - full/2`, and interior lines the
/// UV-interpolated `c - (full-1)/2`; doubling keeps everything an integer.
pub open spec fn axis_pos2(full: int, start: int, c: int) -> int {
    if c == start {
        2 * c - full
    } else if c == start + (TILE_SIZE as int) - 1 {
        2 * (c + 1) - full
    } else {
        2 * c - (full - 1)
    }
}

/// Twice the world X of vertex `i` of tile `t`.
pub open spec fn px2(g: HeightGrid, t: Tile, i: int) -> int {
    axis_pos2(g.width as int, t.start_x as int, vert_gx(t, i))
}

/// Twice the world Z of vertex `i` of tile `t`.
pub open spec fn pz2(g: HeightGrid, t: Tile, i: int) -> int {
    axis_pos2(g.height as int, t.start_y as int, vert_gy(t, i))
}

/// The raw elevation sample of vertex `i` of tile `t` (the world Y is this
/// over 255).
pub open spec fn elev(g: HeightGrid, t: Tile, i: int) -> int {
    g.sample_at(vert_gx(t, i), vert_gy(t, i)) as int
}

/// The exact world position of vertex `i`: X and Z are half the doubled
/// stitched coordinates, Y the elevation normalized into `[0, 1]`.
pub open spec fn vertex_ok(g: HeightGrid, t: Tile, i: int, v: Vec3) -> bool {
    &&& qv(v.x) == (px2(g, t, i), 2int)
    &&& qv(v.y) == (elev(g, t, i), 255int)
    &&& qv(v.z) == (pz2(g, t, i), 2int)
}

/// The exact texture coordinate of vertex `i`: the full-heightfield
/// parameterization `(gx/(width-1), gy/(height-1))`, flipped on both axes.
pub open spec fn uv_ok(g: HeightGrid, t: Tile, i: int, u: Vec2) -> bool {
    &&& qv(u.x) == (g.width - 1 - vert_gx(t, i), g.width - 1 as int)
    &&& qv(u.y) == (g.height - 1 - vert_gy(t, i), g.height - 1 as int)
}

/// The `k`-th triangle of every tile mesh. Triangles come two per quad in
/// row-major quad order: for the quad at `(qx, qy)` with base index
/// `qy * TILE_SIZE + qx`, first the "top" triangle
/// `(index, index + TILE_SIZE + 1, index + 1)`, then the "bottom" triangle
/// `(index, index + TILE_SIZE, index + TILE_SIZE + 1)`.
pub open spec fn tri_at(k: int) -> Triangle {
    let t = TILE_SIZE as int;
    let q = k / 2;
    let qy = q / (t - 1);
    let qx = q % (t - 1);
    let index = qy * t + qx;
    if k % 2 == 0 {
        Triangle { a: index as u16, b: (index + t + 1) as u16, c: (index + 1) as u16 }
    } else {
        Triangle { a: index as u16, b: (index + t) as u16, c: (index + t + 1) as u16 }
    }
}

/// The two triangles of the quad at `(qx, qy)`, by explicit vertex indices.
pub proof fn lemma_quad_triangles(qx: int, qy: int, k: int)
    requires
        0 <= qx < (TILE_SIZE as int) - 1,
        0 <= qy < (TILE_SIZE as int) - 1,
        k == 2 * (qy * ((TILE_SIZE as int) - 1) + qx),
    ensures
        tri_at(k) == (Triangle {
            a: (qy * (TILE_SIZE as int) + qx) as u16,
            b: (qy * (TILE_SIZE as int) + qx + (TILE_SIZE as int) + 1) as u16,
            c: (qy * (TILE_SIZE as int) + qx + 1) as u16,
        }),
        tri_at(k + 1) == (Triangle {
            a: (qy * (TILE_SIZE as int) + qx) as u16,
            b: (qy * (TILE_SIZE as int) + qx + (TILE_SIZE as int)) as u16,
            c: (qy * (TILE_SIZE as int) + qx + (TILE_SIZE as int) + 1) as u16,
        }),
{
    let t = TILE_SIZE as int;
    let q = qy * (t - 1) + qx;
    lemma_fundamental_div_mod_converse(k, 2, q, 0);
    lemma_fundamental_div_mod_converse(k + 1, 2, q, 1);
    lemma_fundamental_div_mod_converse(q, t - 1, qy, qx);
}

/// Every triangle references only vertices of the tile's own buffer: all
/// three indices are below [`TILE_VERTS`].
pub proof fn lemma_triangle_indices_in_bounds(k: int)
    requires
        0 <= k < TILE_TRIS,
    ensures
        (tri_at(k).a as int) < TILE_VERTS,
        (tri_at(k).b as int) < TILE_VERTS,
        (tri_at(k).c as int) < TILE_VERTS,
{
    let t = TILE_SIZE as int;
    let q = k / 2;
    assert(0 <= q < (t - 1) * (t - 1));
    let qy = q / (t - 1);
    let qx = q % (t - 1);
    assert(0 <= qx < t - 1);
    assert(0 <= qy <= t - 2);
    let index = qy * t + qx;
    assert(index + t + 1 < t * t);
}

/// Builds the vertex positions and texture coordinates of tile `t`, row by
/// row: `TILE_VERTS` of each, every entry exactly as [`vertex_ok`] and
/// [`uv_ok`] state.
pub fn build_vertex_data(g: &HeightGrid, t: &Tile) -> (r: (Vec<Vec3>, Vec<Vec2>))
    requires
        mesh_inputs_ok(*g, *t),
    ensures
        r.0@.len() == TILE_VERTS,
        r.1@.len() == TILE_VERTS,
        forall|i: int|
            0 <= i < TILE_VERTS ==> vertex_ok(*g, *t, i, #[trigger] r.0@[i]) && r.0@[i].wf(),
        forall|i: int| 0 <= i < TILE_VERTS ==> uv_ok(*g, *t, i, #[trigger] r.1@[i]) && r.1@[i].wf(),
{
    let mut verts: Vec<Vec3> = Vec::new();
    let mut uvs: Vec<Vec2> = Vec::new();
    let mut row: usize = 0;
    while row < TILE_SIZE
        invariant
            mesh_inputs_ok(*g, *t),
            row <= TILE_SIZE,
            verts@.len() == row * TILE_SIZE,
            uvs@.len() == row * TILE_SIZE,
            forall|i: int|
                0 <= i < verts@.len() ==> vertex_ok(*g, *t, i, #[trigger] verts@[i])
                    && verts@[i].wf(),
            forall|i: int| 0 <= i < uvs@.len() ==> uv_ok(*g, *t, i, #[trigger] uvs@[i])
                && uvs@[i].wf(),
        decreases TILE_SIZE - row,
    {
        let mut col: usize = 0;
        while col < TILE_SIZE
            invariant
                mesh_inputs_ok(*g, *t),
                row < TILE_SIZE,
                col <= TILE_SIZE,
                verts@.len() == row * TILE_SIZE + col,
                uvs@.len() == row * TILE_SIZE + col,
                forall|i: int|
                    0 <= i < verts@.len() ==> vertex_ok(*g, *t, i, #[trigger] verts@[i])
                        && verts@[i].wf(),
                forall|i: int| 0 <= i < uvs@.len() ==> uv_ok(*g, *t, i, #[trigger] uvs@[i])
                    && uvs@[i].wf(),
            decreases TILE_SIZE - col,
        {
            let x = t.start_x + col;
            let y = t.start_y + row;
            let num_x: i128 = if x == t.start_x {
                2 * (x as i128) - (g.width as i128)
            } else if x == t.start_x + TILE_SIZE - 1 {
                2 * ((x as i128) + 1) - (g.width as i128)
            } else {
                2 * (x as i128) - ((g.width as i128) - 1)
            };
            let num_z: i128 = if y == t.start_y {
                2 * (y as i128) - (g.height as i128)
            } else if y == t.start_y + TILE_SIZE - 1 {
                2 * ((y as i128) + 1) - (g.height as i128)
            } else {
                2 * (y as i128) - ((g.height as i128) - 1)
            };
            let s = g.sample(x, y);
            let v = Vec3 {
                x: Rat::new(num_x, 2),
                y: Rat::new(s as i128, 255),
                z: Rat::new(num_z, 2),
            };
            let u = Vec2 {
                x: Rat::new((g.width - 1 - x) as i128, (g.width - 1) as i128),
                y: Rat::new((g.height - 1 - y) as i128, (g.height - 1) as i128),
            };
            proof {
                let i = verts@.len() as int;
                lemma_fundamental_div_mod_converse(i, TILE_SIZE as int, row as int, col as int);
                assert(vert_gx(*t, i) == x as int && vert_gy(*t, i) == y as int);
                assert(vertex_ok(*g, *t, i, v));
                assert(uv_ok(*g, *t, i, u));
            }
            verts.push(v);
            uvs.push(u);
            col = col + 1;
        }
        row = row + 1;
    }
    (verts, uvs)
}

/// Builds the triangle index list shared by every tile: [`TILE_TRIS`]
/// entries, the `k`-th exactly [`tri_at`]`(k)`.
pub fn build_indices() -> (r: Vec<Triangle>)
    ensures
        r@.len() == TILE_TRIS,
        forall|k: int| 0 <= k < TILE_TRIS ==> #[trigger] r@[k] == tri_at(k),
{
    let mut tris: Vec<Triangle> = Vec::new();
    let mut qy: usize = 0;
    while qy < TILE_SIZE - 1
        invariant
            qy <= TILE_SIZE - 1,
            tris@.len() == 2 * (qy * (TILE_SIZE - 1)),
            forall|k: int| 0 <= k < tris@.len() ==> #[trigger] tris@[k] == tri_at(k),
        decreases TILE_SIZE - 1 - qy,
    {
        let mut qx: usize = 0;
        while qx < TILE_SIZE - 1
            invariant
                qy < TILE_SIZE - 1,
                qx <= TILE_SIZE - 1,
                tris@.len() == 2 * (qy * (TILE_SIZE - 1) + qx),
                forall|k: int| 0 <= k < tris@.len() ==> #[trigger] tris@[k] == tri_at(k),
            decreases TILE_SIZE - 1 - qx,
        {
            let index = qy * TILE_SIZE + qx;
            let top = Triangle {
                a: index as u16,
                b: (index + TILE_SIZE + 1) as u16,
                c: (index + 1) as u16,
            };
            let bottom = Triangle {
                a: index as u16,
                b: (index + TILE_SIZE) as u16,
                c: (index + TILE_SIZE + 1) as u16,
            };
            proof {
                lemma_quad_triangles(qx as int, qy as int, tris@.len() as int);
            }
            tris.push(top);
            tris.push(bottom);
            qx = qx + 1;
        }
        proof {
            assert((qy + 1) * ((TILE_SIZE - 1) as int) == qy * ((TILE_SIZE - 1) as int) + (
            (TILE_SIZE - 1) as int)) by (nonlinear_arith);
        }
        qy = qy + 1;
    }
    tris
}

/// The cross product of a triangle's edge vectors `(v1-v0) x (v2-v0)`,
/// scaled by 1020 so it is an integer vector: positions carry X/Z in halves
/// and Y in 255ths, and 1020 is a common multiple of the resulting component
/// denominators (510, 4, 510). The scaling drops out under normalization.
pub open spec fn face_cross(g: HeightGrid, t: Tile, k: int) -> (int, int, int) {
    let tri = tri_at(k);
    let ia = tri.a as int;
    let ib = tri.b as int;
    let ic = tri.c as int;
    let ax = px2(g, t, ib) - px2(g, t, ia);
    let ay = elev(g, t, ib) - elev(g, t, ia);
    let az = pz2(g, t, ib) - pz2(g, t, ia);
    let bx = px2(g, t, ic) - px2(g, t, ia);
    let by = elev(g, t, ic) - elev(g, t, ia);
    let bz = pz2(g, t, ic) - pz2(g, t, ia);
    (2 * (ay * bz - az * by), 255 * (az * bx - ax * bz), 2 * (ax * by - ay * bx))
}

/// The fixed-point unit normal of triangle `k`.
pub open spec fn face_unit(g: HeightGrid, t: Tile, k: int) -> (int, int, int) {
    unit_fixed(face_cross(g, t, k))
}

/// How many corners of triangle `tri` are vertex `v` (0 to 3).
pub open spec fn tri_mult(tri: Triangle, v: int) -> int {
    (if tri.a as int == v {
        1int
    } else {
        0int
    }) + (if tri.b as int == v {
        1int
    } else {
        0int
    }) + (if tri.c as int == v {
        1int
    } else {
        0int
    })
}

/// Componentwise sum of integer vectors.
pub open spec fn add3(a: (int, int, int), b: (int, int, int)) -> (int, int, int) {
    (a.0 + b.0, a.1 + b.1, a.2 + b.2)
}

/// An integer vector scaled by `c`.
pub open spec fn scale3(u: (int, int, int), c: int) -> (int, int, int) {
    (u.0 * c, u.1 * c, u.2 * c)
}

/// The normal accumulator of vertex `v` after the first `k` triangles: each
/// triangle adds its fixed-point unit normal once per corner at `v`.
pub open spec fn acc_normal(g: HeightGrid, t: Tile, k: int, v: int) -> (int, int, int)
    decreases k,
{
    if k <= 0 {
        (0, 0, 0)
    } else {
        add3(
            acc_normal(g, t, k - 1, v),
            scale3(face_unit(g, t, k - 1), tri_mult(tri_at(k - 1), v)),
        )
    }
}

/// The finished vertex normal: the accumulated sum of adjacent face normals,
/// normalized once more to the fixed-point unit scale.
pub open spec fn vertex_normal(g: HeightGrid, t: Tile, v: int) -> (int, int, int) {
    unit_fixed(acc_normal(g, t, TILE_TRIS as int, v))
}

/// The exact vertex normal of vertex `i`, as a rational vector over the
/// fixed-point scale.
pub open spec fn normal_ok(g: HeightGrid, t: Tile, i: int, n: Vec3) -> bool {
    &&& qv(n.x) == (vertex_normal(g, t, i).0, NORMAL_SCALE as int)
    &&& qv(n.y) == (vertex_normal(g, t, i).1, NORMAL_SCALE as int)
    &&& qv(n.z) == (vertex_normal(g, t, i).2, NORMAL_SCALE as int)
}

/// An integer triple as unbounded integers.
pub open spec fn tup_int(a: (i128, i128, i128)) -> (int, int, int) {
    (a.0 as int, a.1 as int, a.2 as int)
}

/// Every component of `a` within `[-b, b]`.
pub open spec fn bounded3(a: (i128, i128, i128), b: int) -> bool {
    &&& -b <= a.0 <= b
    &&& -b <= a.1 <= b
    &&& -b <= a.2 <= b
}

/// Twice the stitched world coordinate of grid coordinate `c`, as executable
/// code; the result is within `[-0x4000, 0x4000]`.
fn axis_pos2_at(full: usize, start: usize, c: usize) -> (r: i128)
    requires
        full <= 0x4000,
        start + TILE_SIZE <= full,
        start <= c < start + TILE_SIZE,
    ensures
        r as int == axis_pos2(full as int, start as int, c as int),
        -0x4000 <= r <= 0x4000,
{
    if c == start {
        2 * (c as i128) - (full as i128)
    } else if c == start + TILE_SIZE - 1 {
        2 * ((c as i128) + 1) - (full as i128)
    } else {
        2 * (c as i128) - ((full as i128) - 1)
    }
}

/// The doubled world X, raw elevation, and doubled world Z of the vertex at
/// tile-local column `cx`, row `cy`.
fn corner_data(g: &HeightGrid, t: &Tile, cx: usize, cy: usize) -> (d: (i128, i128, i128))
    requires
        mesh_inputs_ok(*g, *t),
        cx < TILE_SIZE,
        cy < TILE_SIZE,
    ensures
        ({
            let i = (cy as int) * (TILE_SIZE as int) + cx as int;
            &&& d.0 as int == px2(*g, *t, i)
            &&& d.1 as int == elev(*g, *t, i)
            &&& d.2 as int == pz2(*g, *t, i)
        }),
        -0x4000 <= d.0 <= 0x4000,
        0 <= d.1 <= 255,
        -0x4000 <= d.2 <= 0x4000,
{
    proof {
        lemma_fundamental_div_mod_converse(
            (cy as int) * (TILE_SIZE as int) + cx as int,
            TILE_SIZE as int,
            cy as int,
            cx as int,
        );
    }
    let px = axis_pos2_at(g.width, t.start_x, t.start_x + cx);
    let e = g.sample(t.start_x + cx, t.start_y + cy);
    let pz = axis_pos2_at(g.height, t.start_y, t.start_y + cy);
    (px, e as i128, pz)
}

/// The fixed-point unit normal of triangle `k`, whose corners sit at the
/// given tile-local `(column, row)` pairs.
fn face_unit_at(
    g: &HeightGrid,
    t: &Tile,
    ca_col: usize,
    ca_row: usize,
    cb_col: usize,
    cb_row: usize,
    cc_col: usize,
    cc_row: usize,
    Ghost(k): Ghost<int>,
) -> (u: (i128, i128, i128))
    requires
        mesh_inputs_ok(*g, *t),
        ca_col < TILE_SIZE,
        ca_row < TILE_SIZE,
        cb_col < TILE_SIZE,
        cb_row < TILE_SIZE,
        cc_col < TILE_SIZE,
        cc_row < TILE_SIZE,
        tri_at(k).a as int == (ca_row as int) * (TILE_SIZE as int) + ca_col as int,
        tri_at(k).b as int == (cb_row as int) * (TILE_SIZE as int) + cb_col as int,
        tri_at(k).c as int == (cc_row as int) * (TILE_SIZE as int) + cc_col as int,
    ensures
        tup_int(u) == face_unit(*g, *t, k),
        -NORMAL_SCALE <= u.0 <= NORMAL_SCALE,
        -NORMAL_SCALE <= u.1 <= NORMAL_SCALE,
        -NORMAL_SCALE <= u.2 <= NORMAL_SCALE,
{
    let da = corner_data(g, t, ca_col, ca_row);
    let db = corner_data(g, t, cb_col, cb_row);
    let dc = corner_data(g, t, cc_col, cc_row);
    let ax = db.0 - da.0;
    let ay = db.1 - da.1;
    let az = db.2 - da.2;
    let bx = dc.0 - da.0;
    let by = dc.1 - da.1;
    let bz = dc.2 - da.2;
    proof {
        lemma_mul_in_bounds(ay as int, bz as int, 255, 0x8000);
        lemma_mul_in_bounds(az as int, by as int, 0x8000, 255);
        lemma_mul_in_bounds(az as int, bx as int, 0x8000, 0x8000);
        lemma_mul_in_bounds(ax as int, bz as int, 0x8000, 0x8000);
        lemma_mul_in_bounds(ax as int, by as int, 0x8000, 255);
        lemma_mul_in_bounds(ay as int, bx as int, 255, 0x8000);
    }
    let nx = 2 * (ay * bz - az * by);
    let ny = 255 * (az * bx - ax * bz);
    let nz = 2 * (ax * by - ay * bx);
    proof {
        assert((nx as int, ny as int, nz as int) == face_cross(*g, *t, k));
    }
    normalize_fixed(nx, ny, nz)
}

/// Adds the unit normal `u` of triangle `k` into the accumulators of its
/// three corner slots.
#[verifier::rlimit(100)]
fn add_face(
    acc: &mut Vec<(i128, i128, i128)>,
    ia: usize,
    ib: usize,
    ic: usize,
    u: (i128, i128, i128),
    Ghost(g): Ghost<HeightGrid>,
    Ghost(t): Ghost<Tile>,
    Ghost(k): Ghost<int>,
)
    requires
        old(acc)@.len() == TILE_VERTS,
        ia < TILE_VERTS,
        ib < TILE_VERTS,
        ic < TILE_VERTS,
        0 <= k < TILE_TRIS,
        ia as int == tri_at(k).a as int,
        ib as int == tri_at(k).b as int,
        ic as int == tri_at(k).c as int,
        tup_int(u) == face_unit(g, t, k),
        -NORMAL_SCALE <= u.0 <= NORMAL_SCALE,
        -NORMAL_SCALE <= u.1 <= NORMAL_SCALE,
        -NORMAL_SCALE <= u.2 <= NORMAL_SCALE,
        forall|v: int|
            0 <= v < TILE_VERTS ==> {
                let e = #[trigger] old(acc)@[v];
                tup_int(e) == acc_normal(g, t, k, v) && bounded3(e, 3 * k * (NORMAL_SCALE as int))
            },
    ensures
        final(acc)@.len() == TILE_VERTS,
        forall|v: int|
            0 <= v < TILE_VERTS ==> {
                let e = #[trigger] final(acc)@[v];
                tup_int(e) == acc_normal(g, t, k + 1, v) && bounded3(
                    e,
                    3 * (k + 1) * (NORMAL_SCALE as int),
                )
            },
{
    let va = acc[ia];
    acc.set(ia, (va.0 + u.0, va.1 + u.1, va.2 + u.2));
    let vb = acc[ib];
    acc.set(ib, (vb.0 + u.0, vb.1 + u.1, vb.2 + u.2));
    let vc = acc[ic];
    acc.set(ic, (vc.0 + u.0, vc.1 + u.1, vc.2 + u.2));
    proof {
        assert forall|v: int| 0 <= v < TILE_VERTS implies {
            let e = #[trigger] acc@[v];
            tup_int(e) == acc_normal(g, t, k + 1, v) && bounded3(
                e,
                3 * (k + 1) * (NORMAL_SCALE as int),
            )
        } by {
            let uu = face_unit(g, t, k);
            let m = tri_mult(tri_at(k), v);
            assert(acc_normal(g, t, k + 1, v) == add3(acc_normal(g, t, k, v), scale3(uu, m)));
            assert(scale3(uu, 0) == (0int, 0int, 0int));
            assert(scale3(uu, 1) == uu);
            assert(scale3(uu, 2) == add3(uu, uu));
            assert(scale3(uu, 3) == add3(uu, add3(uu, uu)));
        }
    }
}

/// Runs the whole normal accumulation pass: for every triangle in order, its
/// fixed-point unit normal is added into the accumulators of its three
/// corners.
fn accumulate_normals(g: &HeightGrid, t: &Tile) -> (acc: Vec<(i128, i128, i128)>)
    requires
        mesh_inputs_ok(*g, *t),
    ensures
        acc@.len() == TILE_VERTS,
        forall|v: int|
            0 <= v < TILE_VERTS ==> {
                let e = #[trigger] acc@[v];
                tup_int(e) == acc_normal(*g, *t, TILE_TRIS as int, v) && bounded3(
                    e,
                    3 * (TILE_TRIS as int) * (NORMAL_SCALE as int),
                )
            },
{
    let mut acc: Vec<(i128, i128, i128)> = Vec::new();
    let mut v0: usize = 0;
    while v0 < TILE_VERTS
        invariant
            v0 <= TILE_VERTS,
            acc@.len() == v0,
            forall|v: int| 0 <= v < v0 ==> #[trigger] acc@[v] == (0i128, 0i128, 0i128),
        decreases TILE_VERTS - v0,
    {
        acc.push((0, 0, 0));
        v0 = v0 + 1;
    }
    let mut qy: usize = 0;
    while qy < TILE_SIZE - 1
        invariant
            mesh_inputs_ok(*g, *t),
            qy <= TILE_SIZE - 1,
            acc@.len() == TILE_VERTS,
            forall|v: int|
                0 <= v < TILE_VERTS ==> {
                    let e = #[trigger] acc@[v];
                    tup_int(e) == acc_normal(*g, *t, 2 * ((qy as int) * 127), v) && bounded3(
                        e,
                        3 * (2 * ((qy as int) * 127)) * (NORMAL_SCALE as int),
                    )
                },
        decreases TILE_SIZE - 1 - qy,
    {
        let mut qx: usize = 0;
        while qx < TILE_SIZE - 1
            invariant
                mesh_inputs_ok(*g, *t),
                qy < TILE_SIZE - 1,
                qx <= TILE_SIZE - 1,
                acc@.len() == TILE_VERTS,
                forall|v: int|
                    0 <= v < TILE_VERTS ==> {
                        let e = #[trigger] acc@[v];
                        tup_int(e) == acc_normal(
                            *g,
                            *t,
                            2 * ((qy as int) * 127 + qx as int),
                            v,
                        ) && bounded3(
                            e,
                            3 * (2 * ((qy as int) * 127 + qx as int)) * (NORMAL_SCALE as int),
                        )
                    },
            decreases TILE_SIZE - 1 - qx,
        {
            let idx = qy * TILE_SIZE + qx;
            let ghost k: int = 2 * ((qy as int) * 127 + qx as int);
            proof {
                lemma_quad_triangles(qx as int, qy as int, k);
                assert(0 <= k && k + 1 < TILE_TRIS) by (nonlinear_arith)
                    requires
                        k == 2 * ((qy as int) * 127 + qx as int),
                        0 <= qx < 127,
                        0 <= qy < 127,
                ;
            }
            let u_top = face_unit_at(g, t, qx, qy, qx + 1, qy + 1, qx + 1, qy, Ghost(k));
            add_face(
                &mut acc,
                idx,
                idx + TILE_SIZE + 1,
                idx + 1,
                u_top,
                Ghost(*g),
                Ghost(*t),
                Ghost(k),
            );
            let u_bot = face_unit_at(g, t, qx, qy, qx, qy + 1, qx + 1, qy + 1, Ghost(k + 1));
            add_face(
                &mut acc,
                idx,
                idx + TILE_SIZE,
                idx + TILE_SIZE + 1,
                u_bot,
                Ghost(*g),
                Ghost(*t),
                Ghost(k + 1),
            );
            qx = qx + 1;
        }
        qy = qy + 1;
    }
    acc
}

/// The renderable mesh of one tile: parallel vertex, texture-coordinate and
/// normal buffers, plus the triangle index list.
#[derive(Clone, Debug, PartialEq, Eq)]
pub struct TileMesh {
    /// World positions, one per tile sample, row-major.
    pub vertices: Vec<Vec3>,
    /// Texture coordinates, parallel to `vertices`.
    pub uvs: Vec<Vec2>,
    /// Unit normals (fixed-point exact), parallel to `vertices`.
    pub normals: Vec<Vec3>,
    /// Triangles as index triples into the buffers.
    pub indices: Vec<Triangle>,
}

/// `m` is exactly the mesh of tile `t` over grid `g`: all four buffers have
/// their stated lengths and every entry its stated exact value.
pub open spec fn is_mesh_for(m: TileMesh, g: HeightGrid, t: Tile) -> bool {
    &&& m.vertices@.len() == TILE_VERTS
    &&& m.uvs@.len() == TILE_VERTS
    &&& m.normals@.len() == TILE_VERTS
    &&& m.indices@.len() == TILE_TRIS
    &&& forall|i: int| 0 <= i < TILE_VERTS ==> vertex_ok(g, t, i, #[trigger] m.vertices@[i])
    &&& forall|i: int| 0 <= i < TILE_VERTS ==> uv_ok(g, t, i, #[trigger] m.uvs@[i])
    &&& forall|i: int| 0 <= i < TILE_VERTS ==> normal_ok(g, t, i, #[trigger] m.normals@[i])
    &&& forall|k: int| 0 <= k < TILE_TRIS ==> #[trigger] m.indices@[k] == tri_at(k)
}

/// Builds the complete mesh of tile `t`: exact vertex positions and UVs, the
/// shared triangle list, and the accumulated, normalized vertex normals.
pub fn build_tile_mesh(g: &HeightGrid, t: &Tile) -> (m: TileMesh)
    requires
        mesh_inputs_ok(*g, *t),
    ensures
        is_mesh_for(m, *g, *t),
{
    let (vertices, uvs) = build_vertex_data(g, t);
    let indices = build_indices();
    let acc = accumulate_normals(g, t);
    let mut normals: Vec<Vec3> = Vec::new();
    let mut v: usize = 0;
    while v < TILE_VERTS
        invariant
            mesh_inputs_ok(*g, *t),
            v <= TILE_VERTS,
            acc@.len() == TILE_VERTS,
            forall|w: int|
                0 <= w < TILE_VERTS ==> {
                    let e = #[trigger] acc@[w];
                    tup_int(e) == acc_normal(*g, *t, TILE_TRIS as int, w) && bounded3(
                        e,
                        3 * (TILE_TRIS as int) * (NORMAL_SCALE as int),
                    )
                },
            normals@.len() == v,
            forall|i: int| 0 <= i < v ==> normal_ok(*g, *t, i, #[trigger] normals@[i]),
        decreases TILE_VERTS - v,
    {
        let a = acc[v];
        let u = normalize_fixed(a.0, a.1, a.2);
        normals.push(
            Vec3 {
                x: Rat::new(u.0, NORMAL_SCALE),
                y: Rat::new(u.1, NORMAL_SCALE),
                z: Rat::new(u.2, NORMAL_SCALE),
            },
        );
        v = v + 1;
    }
    TileMesh { vertices, uvs, normals, indices }
}

/// Unit length of output normals: every vertex normal whose accumulated
/// face-normal sum is nonzero is a fixed-point unit vector up to integer
/// rounding — its squared length is at least `S^2 - 6*S` for the unit scale
/// `S`, and at most `S^2` times the accumulator's squared length over the
/// square of its integer root (off by at most a factor `(1 + 1/l)^2`).
pub proof fn lemma_vertex_normal_unit_length(g: HeightGrid, t: Tile, v: int)
    requires
        sq_len(acc_normal(g, t, TILE_TRIS as int, v)) > 0,
    ensures
        ({
            let s = NORMAL_SCALE as int;
            let acc = acc_normal(g, t, TILE_TRIS as int, v);
            let l = isqrt_r(sq_len(acc) as nat) as int;
            &&& s * s - 6 * s <= sq_len(vertex_normal(g, t, v))
            &&& sq_len(vertex_normal(g, t, v)) * (l * l) <= s * s * sq_len(acc)
            &&& s * s * sq_len(acc) < s * s * ((l + 1) * (l + 1))
        }),
{
    lemma_unit_fixed_length(acc_normal(g, t, TILE_TRIS as int, v));
}

/// Edge stitching: for two horizontally adjacent tiles, the shared boundary
/// column gets the identical world X on both sides — the left tile's last
/// column and the right tile's first column yield the same doubled
/// coordinate, for every row.
pub proof fn lemma_edge_stitch_x(g: HeightGrid, left: Tile, right: Tile, row: int)
    requires
        left.wf(),
        right.wf(),
        right.tx == left.tx + 1,
        right.ty == left.ty,
        0 <= row < TILE_SIZE,
    ensures
        ({
            let i_left = row * (TILE_SIZE as int) + ((TILE_SIZE as int) - 1);
            let i_right = row * (TILE_SIZE as int);
            px2(g, left, i_left) == px2(g, right, i_right)
        }),
{
    let t = TILE_SIZE as int;
    let i_left = row * t + (t - 1);
    let i_right = row * t;
    lemma_fundamental_div_mod_converse(i_left, t, row, t - 1);
    lemma_fundamental_div_mod_converse(i_right, t, row, 0);
    assert(vert_gx(left, i_left) == left.start_x + t - 1);
    assert(vert_gx(right, i_right) == right.start_x as int);
    assert(right.start_x == left.start_x + t);
}

} // verus!
