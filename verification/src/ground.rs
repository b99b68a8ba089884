//! The reference ground-plane grid.
//!
//! A square lattice of lines on the plane `y == 0`, centered on the origin:
//! for every stepped offset `r` (multiples of `delta` below half the
//! lattice's edge length) one line parallel to Z and one parallel to X, and
//! for `r != 0` their mirror images. The drawing itself belongs to the
//! renderer; this module owns the exact line geometry and the visibility
//! flag.

use crate::rat::Rat;
use crate::vec3::Vec3;
use vstd::arithmetic::div_mod::lemma_fundamental_div_mod_converse;
use vstd::prelude::*;

verus! {

/// One line of the lattice, as two endpoints on the ground plane.
#[derive(Clone, Copy, Debug, PartialEq, Eq, Structural)]
pub struct Line {
    /// One endpoint.
    pub a: Vec3,
    /// The other endpoint.
    pub b: Vec3,
}

/// The point `(x2/2, 0, z2/2)` on the ground plane.
pub open spec fn gp_vec(x2: int, z2: int) -> Vec3 {
    Vec3 {
        x: (Rat { num: x2 as i128, den: 2 }),
        y: (Rat { num: 0i128, den: 2 }),
        z: (Rat { num: z2 as i128, den: 2 }),
    }
}

/// The lines contributed by offset `r` of a lattice of edge `length`: a line
/// parallel to Z at `x == r` and one parallel to X at `z == r`, plus, for
/// nonzero `r`, their mirror images. Endpoints sit at half the edge length.
pub open spec fn group_lines(length: int, r: int) -> Seq<Line> {
    let h = length;
    let r2 = 2 * r;
    if r == 0 {
        seq![
            (Line { a: gp_vec(r2, h), b: gp_vec(r2, -h) }),
            (Line { a: gp_vec(h, r2), b: gp_vec(-h, r2) }),
        ]
    } else {
        seq![
            (Line { a: gp_vec(r2, h), b: gp_vec(r2, -h) }),
            (Line { a: gp_vec(-r2, h), b: gp_vec(-r2, -h) }),
            (Line { a: gp_vec(h, r2), b: gp_vec(-h, r2) }),
            (Line { a: gp_vec(h, -r2), b: gp_vec(-h, -r2) }),
        ]
    }
}

/// The first `groups` offset groups of the lattice, in order: offsets `0,
/// delta, 2 * delta, ...`.
pub open spec fn lattice(length: int, delta: int, groups: int) -> Seq<Line>
    decreases groups,
{
    if groups <= 0 {
        Seq::empty()
    } else {
        lattice(length, delta, groups - 1) + group_lines(length, delta * (groups - 1))
    }
}

/// How many offsets the lattice steps through: the multiples of `delta`
/// below `length / 2`.
pub open spec fn group_count(length: int, delta: int) -> int {
    (length / 2 + delta - 1) / delta
}

/// The reference grid on the ground plane: its lines and whether the
/// renderer should draw them.
pub struct GroundPlane {
    /// Whether the grid is drawn.
    pub visible: bool,
    /// The line color, one channel in `[0, 1]` per component (dark gray).
    pub color: Vec3,
    /// The lattice lines.
    pub lines: Vec<Line>,
}

impl GroundPlane {
    /// Builds the lattice of edge `length` with line spacing `delta`,
    /// visible, in dark gray. The lines are exactly the stepped groups of
    /// [`lattice`].
    pub fn new(length: usize, delta: usize) -> (r: GroundPlane)
        requires
            1 <= delta <= 0x100000,
            length <= 0x100000,
        ensures
            r.visible,
            r.color == (Vec3 {
                x: (Rat { num: 1i128, den: 5 }),
                y: (Rat { num: 1i128, den: 5 }),
                z: (Rat { num: 1i128, den: 5 }),
            }),
            r.lines@ == lattice(length as int, delta as int, group_count(length as int, delta as int)),
    {
        let lim = length / 2;
        let mut lines: Vec<Line> = Vec::new();
        let mut r: usize = 0;
        let mut g: usize = 0;
        while r < lim
            invariant
                1 <= delta <= 0x100000,
                length <= 0x100000,
                lim == length / 2,
                r == g * delta,
                g <= r,
                g == 0 || (g as int - 1) * (delta as int) < lim,
                lines@ == lattice(length as int, delta as int, g as int),
            decreases lim + delta - r,
        {
            let h: i128 = length as i128;
            let r2: i128 = 2 * (r as i128);
            let za = Vec3 {
                x: Rat::new(r2, 2),
                y: Rat::new(0, 2),
                z: Rat::new(h, 2),
            };
            let zb = Vec3 {
                x: Rat::new(r2, 2),
                y: Rat::new(0, 2),
                z: Rat::new(-h, 2),
            };
            lines.push(Line { a: za, b: zb });
            if r != 0 {
                lines.push(
                    Line {
                        a: Vec3 { x: Rat::new(-r2, 2), y: Rat::new(0, 2), z: Rat::new(h, 2) },
                        b: Vec3 { x: Rat::new(-r2, 2), y: Rat::new(0, 2), z: Rat::new(-h, 2) },
                    },
                );
            }
            lines.push(
                Line {
                    a: Vec3 { x: Rat::new(h, 2), y: Rat::new(0, 2), z: Rat::new(r2, 2) },
                    b: Vec3 { x: Rat::new(-h, 2), y: Rat::new(0, 2), z: Rat::new(r2, 2) },
                },
            );
            if r != 0 {
                lines.push(
                    Line {
                        a: Vec3 { x: Rat::new(h, 2), y: Rat::new(0, 2), z: Rat::new(-r2, 2) },
                        b: Vec3 { x: Rat::new(-h, 2), y: Rat::new(0, 2), z: Rat::new(-r2, 2) },
                    },
                );
            }
            proof {
                assert(lattice(length as int, delta as int, g + 1) == lattice(
                    length as int,
                    delta as int,
                    g as int,
                ) + group_lines(length as int, (delta as int) * (g as int)));
                assert((delta as int) * (g as int) == r as int) by (nonlinear_arith)
                    requires
                        r == g * delta,
                ;
                assert(lines@ =~= lattice(length as int, delta as int, g + 1));
                assert((g + 1) * delta == g * delta + delta) by (nonlinear_arith);
                assert(((g + 1) as int - 1) * (delta as int) == g * delta) by (nonlinear_arith);
            }
            r = r + delta;
            g = g + 1;
        }
        proof {
            assert(g as int == group_count(length as int, delta as int)) by {
                let d = delta as int;
                let gg = g as int;
                let x = lim + d - 1;
                if g == 0 {
                    assert(lim == 0);
                    assert(0 <= d - 1 < d);
                    lemma_fundamental_div_mod_converse(x, d, 0, d - 1);
                } else {
                    assert(gg * d == r as int) by (nonlinear_arith)
                        requires
                            r == g * delta,
                            gg == g as int,
                            d == delta as int,
                    ;
                    assert((gg - 1) * d < lim as int);
                    assert(0 <= x - gg * d < d) by (nonlinear_arith)
                        requires
                            gg * d >= lim,
                            (gg - 1) * d < lim,
                            x == lim + d - 1,
                            d >= 1,
                    ;
                    lemma_fundamental_div_mod_converse(x, d, gg, x - gg * d);
                }
            }
        }
        GroundPlane {
            visible: true,
            color: Vec3 { x: Rat::new(1, 5), y: Rat::new(1, 5), z: Rat::new(1, 5) },
            lines,
        }
    }

    /// Whether the grid is drawn.
    pub fn is_visible(&self) -> (r: bool)
        ensures
            r == self.visible,
    {
        self.visible
    }

    /// Shows or hides the grid.
    pub fn set_visible(&mut self, visible: bool)
        ensures
            final(self).visible == visible,
            final(self).color == old(self).color,
            final(self).lines == old(self).lines,
    {
        self.visible = visible;
    }

    /// The lattice lines, for the renderer to draw when visible.
    pub fn lines(&self) -> (r: &Vec<Line>)
        ensures
            r == self.lines,
    {
        &self.lines
    }
}

} // verus!
