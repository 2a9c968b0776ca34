//! Procedural line geometry: grids, axes, boundary boxes, polylines and
//! helixes, as lists of colored segments ready for a line renderer.
//!
//! Every generator returns exactly the lines its contract lists, computed
//! in fixed-point arithmetic; the surrounding application only uploads
//! them to vertex buffers.

use vstd::prelude::*;

verus! {

use crate::fx::{FX_ONE, fx_mul, fx_mul_spec, tdiv, lemma_mul_abs_bound, lemma_tdiv_bounds};
use crate::vec3::{Vec3, in_range, vadd_spec, vadd};
use crate::trig::{cos_sin_turn, turn_cos_spec, turn_sin_spec, TWO_PI_FX};

/// A simple line segment with start and end points and a color.
#[derive(Clone, Copy, PartialEq, Eq, Structural, Debug)]
pub struct Line {
    pub start: Vec3,
    pub end: Vec3,
    pub color: Vec3,
}

/// One endpoint of a line strip as a renderer consumes it.
#[derive(Clone, Copy, PartialEq, Eq, Structural, Debug)]
pub struct LineVertex {
    pub position: Vec3,
    pub color: Vec3,
}

impl Line {
    pub fn new(start: Vec3, end: Vec3, color: Vec3) -> (r: Line)
        ensures
            r == (Line { start, end, color }),
    {
        Line { start, end, color }
    }
}

/// Interleaves each line's endpoints into a flat vertex list: vertex
/// `2 i` is the start and vertex `2 i + 1` the end of line `i`, both in
/// the line's color.
pub fn line_vertices(lines: &Vec<Line>) -> (vs: Vec<LineVertex>)
    requires
        lines@.len() <= 0x1000000,
    ensures
        vs@.len() == 2 * lines@.len(),
        forall|i: int|
            0 <= i < lines@.len() ==> {
                &&& (#[trigger] vs@[2 * i]) == (LineVertex {
                    position: lines@[i].start,
                    color: lines@[i].color,
                })
                &&& vs@[2 * i + 1] == (LineVertex {
                    position: lines@[i].end,
                    color: lines@[i].color,
                })
            },
{
    let mut vs: Vec<LineVertex> = Vec::new();
    let mut i: usize = 0;
    while i < lines.len()
        invariant
            lines@.len() <= 0x1000000,
            i <= lines@.len(),
            vs@.len() == 2 * i,
            forall|j: int|
                0 <= j < i ==> {
                    &&& (#[trigger] vs@[2 * j]) == (LineVertex {
                        position: lines@[j].start,
                        color: lines@[j].color,
                    })
                    &&& vs@[2 * j + 1] == (LineVertex {
                        position: lines@[j].end,
                        color: lines@[j].color,
                    })
                },
        decreases lines@.len() - i,
    {
        let line = lines[i];
        vs.push(LineVertex { position: line.start, color: line.color });
        vs.push(LineVertex { position: line.end, color: line.color });
        i = i + 1;
    }
    vs
}

/// Grey shade of the grid lines.
pub open spec fn grid_color_spec() -> Vec3 {
    Vec3 { x: 734003, y: 734003, z: 734003 }
}

/// The `i`-th pair of grid lines: one running along the third axis and one
/// along the first, both on the ground plane, at the `i`-th station of an
/// eleven-station ten-unit grid centered on the origin.
pub open spec fn grid_pair_spec(i: int) -> (Line, Line) {
    let half = 5 * (FX_ONE as int);
    let pos = (-half + i * (FX_ONE as int)) as i64;
    (
        Line {
            start: Vec3 { x: pos, y: 0, z: (-half) as i64 },
            end: Vec3 { x: pos, y: 0, z: half as i64 },
            color: grid_color_spec(),
        },
        Line {
            start: Vec3 { x: (-half) as i64, y: 0, z: pos },
            end: Vec3 { x: half as i64, y: 0, z: pos },
            color: grid_color_spec(),
        },
    )
}

/// A ten-by-ten unit grid on the ground plane, centered at the origin,
/// with two slightly elevated colored axis markers appended: twenty-two
/// grey grid lines, then the two markers.
pub fn create_grid_lines() -> (lines: Vec<Line>)
    ensures
        lines@.len() == 24,
        forall|i: int|
            0 <= i <= 10 ==> (#[trigger] lines@[2 * i]) == grid_pair_spec(i).0 && lines@[2 * i + 1]
                == grid_pair_spec(i).1,
        lines@[22] == (Line {
            start: Vec3 { x: 0, y: 20972, z: 0 },
            end: Vec3 { x: (5 * (FX_ONE as int)) as i64, y: 20972, z: 0 },
            color: Vec3 { x: FX_ONE, y: 0, z: 0 },
        }),
        lines@[23] == (Line {
            start: Vec3 { x: 0, y: 20972, z: 0 },
            end: Vec3 { x: 0, y: 20972, z: (-5 * (FX_ONE as int)) as i64 },
            color: Vec3 { x: 0, y: FX_ONE, z: 0 },
        }),
{
    let mut lines: Vec<Line> = Vec::new();
    let half: i64 = 5 * FX_ONE;
    let grid_color = Vec3 { x: 734003, y: 734003, z: 734003 };
    let mut i: u32 = 0;
    while i <= 10
        invariant
            i <= 11,
            half == 5 * FX_ONE,
            grid_color == grid_color_spec(),
            lines@.len() == 2 * i,
            forall|j: int|
                0 <= j < i ==> (#[trigger] lines@[2 * j]) == grid_pair_spec(j) .0 && lines@[2 * j
                    + 1] == grid_pair_spec(j).1,
        decreases 11 - i,
    {
        let pos: i64 = -half + (i as i64) * FX_ONE;
        lines.push(
            Line {
                start: Vec3 { x: pos, y: 0, z: -half },
                end: Vec3 { x: pos, y: 0, z: half },
                color: grid_color,
            },
        );
        lines.push(
            Line {
                start: Vec3 { x: -half, y: 0, z: pos },
                end: Vec3 { x: half, y: 0, z: pos },
                color: grid_color,
            },
        );
        proof {
            assert(lines@[2 * (i as int)] == grid_pair_spec(i as int).0);
            assert(lines@[2 * (i as int) + 1] == grid_pair_spec(i as int).1);
        }
        i = i + 1;
    }
    // Slightly elevated axis markers, as a modeling package draws them.
    let elevation: i64 = 20972;
    lines.push(
        Line {
            start: Vec3 { x: 0, y: elevation, z: 0 },
            end: Vec3 { x: 5 * FX_ONE, y: elevation, z: 0 },
            color: Vec3 { x: FX_ONE, y: 0, z: 0 },
        },
    );
    lines.push(
        Line {
            start: Vec3 { x: 0, y: elevation, z: 0 },
            end: Vec3 { x: 0, y: elevation, z: -5 * FX_ONE },
            color: Vec3 { x: 0, y: FX_ONE, z: 0 },
        },
    );
    proof {
        assert forall|i2: int| 0 <= i2 <= 10 implies (#[trigger] lines@[2 * i2]) == grid_pair_spec(
            i2,
        ).0 && lines@[2 * i2 + 1] == grid_pair_spec(i2).1 by {}
    }
    lines
}

/// Coordinate axes from `origin`: one line of length `size` along each
/// coordinate direction, in the three given colors.
pub fn create_axes(size: i64, origin: Vec3, colors: [Vec3; 3]) -> (lines: Vec<Line>)
    requires
        0 <= size <= 0x400000000,
        in_range(origin, 0x400000000),
    ensures
        lines@.len() == 3,
        lines@[0] == (Line {
            start: origin,
            end: vadd_spec(origin, Vec3 { x: size, y: 0, z: 0 }),
            color: colors@[0],
        }),
        lines@[1] == (Line {
            start: origin,
            end: vadd_spec(origin, Vec3 { x: 0, y: size, z: 0 }),
            color: colors@[1],
        }),
        lines@[2] == (Line {
            start: origin,
            end: vadd_spec(origin, Vec3 { x: 0, y: 0, z: size }),
            color: colors@[2],
        }),
{
    let mut lines: Vec<Line> = Vec::new();
    lines.push(
        Line { start: origin, end: vadd(origin, Vec3 { x: size, y: 0, z: 0 }), color: colors[0] },
    );
    lines.push(
        Line { start: origin, end: vadd(origin, Vec3 { x: 0, y: size, z: 0 }), color: colors[1] },
    );
    lines.push(
        Line { start: origin, end: vadd(origin, Vec3 { x: 0, y: 0, z: size }), color: colors[2] },
    );
    lines
}

/// The twelve edges of the axis-aligned box spanned by `low` and `high`:
/// four around the bottom face, four around the top face, and the four
/// vertical edges, in that order.
pub fn create_boundary_box(low: Vec3, high: Vec3, color: Vec3) -> (lines: Vec<Line>)
    ensures
        lines@.len() == 12,
        lines@[0] == (Line {
            start: Vec3 { x: low.x, y: low.y, z: low.z },
            end: Vec3 { x: high.x, y: low.y, z: low.z },
            color,
        }),
        lines@[1] == (Line {
            start: Vec3 { x: high.x, y: low.y, z: low.z },
            end: Vec3 { x: high.x, y: low.y, z: high.z },
            color,
        }),
        lines@[2] == (Line {
            start: Vec3 { x: high.x, y: low.y, z: high.z },
            end: Vec3 { x: low.x, y: low.y, z: high.z },
            color,
        }),
        lines@[3] == (Line {
            start: Vec3 { x: low.x, y: low.y, z: high.z },
            end: Vec3 { x: low.x, y: low.y, z: low.z },
            color,
        }),
        lines@[4] == (Line {
            start: Vec3 { x: low.x, y: high.y, z: low.z },
            end: Vec3 { x: high.x, y: high.y, z: low.z },
            color,
        }),
        lines@[5] == (Line {
            start: Vec3 { x: high.x, y: high.y, z: low.z },
            end: Vec3 { x: high.x, y: high.y, z: high.z },
            color,
        }),
        lines@[6] == (Line {
            start: Vec3 { x: high.x, y: high.y, z: high.z },
            end: Vec3 { x: low.x, y: high.y, z: high.z },
            color,
        }),
        lines@[7] == (Line {
            start: Vec3 { x: low.x, y: high.y, z: high.z },
            end: Vec3 { x: low.x, y: high.y, z: low.z },
            color,
        }),
        lines@[8] == (Line {
            start: Vec3 { x: low.x, y: low.y, z: low.z },
            end: Vec3 { x: low.x, y: high.y, z: low.z },
            color,
        }),
        lines@[9] == (Line {
            start: Vec3 { x: high.x, y: low.y, z: low.z },
            end: Vec3 { x: high.x, y: high.y, z: low.z },
            color,
        }),
        lines@[10] == (Line {
            start: Vec3 { x: high.x, y: low.y, z: high.z },
            end: Vec3 { x: high.x, y: high.y, z: high.z },
            color,
        }),
        lines@[11] == (Line {
            start: Vec3 { x: low.x, y: low.y, z: high.z },
            end: Vec3 { x: low.x, y: high.y, z: high.z },
            color,
        }),
{
    let mut lines: Vec<Line> = Vec::new();
    // Bottom face edges.
    lines.push(Line {
        start: Vec3 { x: low.x, y: low.y, z: low.z },
        end: Vec3 { x: high.x, y: low.y, z: low.z },
        color,
    });
    lines.push(Line {
        start: Vec3 { x: high.x, y: low.y, z: low.z },
        end: Vec3 { x: high.x, y: low.y, z: high.z },
        color,
    });
    lines.push(Line {
        start: Vec3 { x: high.x, y: low.y, z: high.z },
        end: Vec3 { x: low.x, y: low.y, z: high.z },
        color,
    });
    lines.push(Line {
        start: Vec3 { x: low.x, y: low.y, z: high.z },
        end: Vec3 { x: low.x, y: low.y, z: low.z },
        color,
    });
    // Top face edges.
    lines.push(Line {
        start: Vec3 { x: low.x, y: high.y, z: low.z },
        end: Vec3 { x: high.x, y: high.y, z: low.z },
        color,
    });
    lines.push(Line {
        start: Vec3 { x: high.x, y: high.y, z: low.z },
        end: Vec3 { x: high.x, y: high.y, z: high.z },
        color,
    });
    lines.push(Line {
        start: Vec3 { x: high.x, y: high.y, z: high.z },
        end: Vec3 { x: low.x, y: high.y, z: high.z },
        color,
    });
    lines.push(Line {
        start: Vec3 { x: low.x, y: high.y, z: high.z },
        end: Vec3 { x: low.x, y: high.y, z: low.z },
        color,
    });
    // Vertical edges.
    lines.push(Line {
        start: Vec3 { x: low.x, y: low.y, z: low.z },
        end: Vec3 { x: low.x, y: high.y, z: low.z },
        color,
    });
    lines.push(Line {
        start: Vec3 { x: high.x, y: low.y, z: low.z },
        end: Vec3 { x: high.x, y: high.y, z: low.z },
        color,
    });
    lines.push(Line {
        start: Vec3 { x: high.x, y: low.y, z: high.z },
        end: Vec3 { x: high.x, y: high.y, z: high.z },
        color,
    });
    lines.push(Line {
        start: Vec3 { x: low.x, y: low.y, z: high.z },
        end: Vec3 { x: low.x, y: high.y, z: high.z },
        color,
    });
    lines
}

/// Connects consecutive sample points into line segments of one color:
/// the computational core of drawing any parametric curve, whose sampling
/// is left to the caller.
pub fn create_polyline(points: &Vec<Vec3>, color: Vec3) -> (lines: Vec<Line>)
    requires
        1 <= points@.len() <= 0x1000000,
    ensures
        lines@.len() == points@.len() - 1,
        forall|i: int|
            0 <= i < lines@.len() ==> (#[trigger] lines@[i]) == (Line {
                start: points@[i],
                end: points@[i + 1],
                color,
            }),
{
    let mut lines: Vec<Line> = Vec::new();
    let mut i: usize = 0;
    while i + 1 < points.len()
        invariant
            1 <= points@.len() <= 0x1000000,
            i <= points@.len() - 1,
            lines@.len() == i,
            forall|j: int|
                0 <= j < i ==> (#[trigger] lines@[j]) == (Line {
                    start: points@[j],
                    end: points@[j + 1],
                    color,
                }),
        decreases points@.len() - i,
    {
        lines.push(Line { start: points[i], end: points[i + 1], color });
        i = i + 1;
    }
    lines
}

/// Sample `t` of a helix of `total` segments: the point at angle
/// `t * turns * 2 pi / total` on a circle of the given radius, lifted to
/// height `t * height / total`, all in truncating fixed-point arithmetic.
pub open spec fn helix_point_spec(radius: i64, height: i64, turns: i64, total: i64, t: int) -> Vec3 {
    let sweep = fx_mul_spec(turns as int, TWO_PI_FX as int);
    let a = tdiv(sweep * t, total as int) % (TWO_PI_FX as int);
    Vec3 {
        x: fx_mul_spec(radius as int, turn_cos_spec(a)) as i64,
        y: tdiv(height as int * t, total as int) as i64,
        z: fx_mul_spec(radius as int, turn_sin_spec(a)) as i64,
    }
}

/// The gradient color of helix segment `i`: from one hue at the base to
/// its complement at the top.
pub open spec fn helix_color_spec(total: i64, i: int) -> Vec3 {
    let h = tdiv(i * (FX_ONE as int), total as int);
    Vec3 { x: h as i64, y: (FX_ONE - h) as i64, z: (FX_ONE / 2) as i64 }
}

/// A helix of the given radius, height and number of turns, sampled at
/// `segments_per_turn` stations per turn and drawn as line segments with
/// a gradient color.
pub fn create_helix(radius: i64, height: i64, turns: i64, segments_per_turn: u32) -> (lines: Vec<
    Line,
>)
    requires
        0 <= radius <= 0x40000000,
        0 <= height <= 0x400000000,
        0 <= turns <= 0x4000000,
        1 <= segments_per_turn <= 4096,
    ensures
        ({
            let total = tdiv((segments_per_turn as int) * (turns as int), FX_ONE as int);
            &&& lines@.len() == (if total >= 1 {
                total
            } else {
                0
            })
            &&& (forall|i: int|
                0 <= i < lines@.len() ==> (#[trigger] lines@[i]) == (Line {
                    start: helix_point_spec(radius, height, turns, total as i64, i),
                    end: helix_point_spec(radius, height, turns, total as i64, i + 1),
                    color: helix_color_spec(total as i64, i),
                }))
        }),
{
    proof {
        lemma_mul_abs_bound(segments_per_turn as int, turns as int, 4096, 0x4000000);
        lemma_tdiv_bounds(
            (segments_per_turn as int) * (turns as int),
            FX_ONE as int,
            4096int * 0x4000000,
        );
    }
    let total: i64 = ((segments_per_turn as i64) * turns) / FX_ONE;
    let mut lines: Vec<Line> = Vec::new();
    if total < 1 {
        return lines;
    }
    let mut i: i64 = 0;
    while i < total
        invariant
            1 <= total <= 0x40000,
            0 <= radius <= 0x40000000,
            0 <= height <= 0x400000000,
            0 <= turns <= 0x4000000,
            0 <= i <= total,
            lines@.len() == i,
            forall|j: int|
                0 <= j < i ==> (#[trigger] lines@[j]) == (Line {
                    start: helix_point_spec(radius, height, turns, total, j),
                    end: helix_point_spec(radius, height, turns, total, j + 1),
                    color: helix_color_spec(total, j),
                }),
        decreases total - i,
    {
        let p1 = helix_point(radius, height, turns, total, i);
        let p2 = helix_point(radius, height, turns, total, i + 1);
        proof {
            lemma_mul_abs_bound(i as int, FX_ONE as int, 0x40000, 1048576);
            lemma_tdiv_bounds(i as int * (FX_ONE as int), total as int, 0x40000int * 1048576);
        }
        let h: i64 = (i * FX_ONE) / total;
        let color = Vec3 { x: h, y: FX_ONE - h, z: FX_ONE / 2 };
        lines.push(Line { start: p1, end: p2, color });
        i = i + 1;
    }
    lines
}

/// One helix sample in fixed-point arithmetic.
fn helix_point(radius: i64, height: i64, turns: i64, total: i64, t: i64) -> (p: Vec3)
    requires
        0 <= radius <= 0x40000000,
        0 <= height <= 0x400000000,
        0 <= turns <= 0x4000000,
        1 <= total <= 0x40000,
        0 <= t <= total,
    ensures
        p == helix_point_spec(radius, height, turns, total, t as int),
{
    proof {
        lemma_mul_abs_bound(turns as int, TWO_PI_FX as int, 0x4000000, 6588397);
        lemma_tdiv_bounds(
            (turns as int) * (TWO_PI_FX as int),
            FX_ONE as int,
            0x4000000int * 6588397,
        );
    }
    let sweep: i64 = fx_mul(turns, TWO_PI_FX);
    proof {
        lemma_mul_abs_bound(sweep as int, t as int, 0x19900000000, 0x40000);
        lemma_tdiv_bounds((sweep as int) * (t as int), total as int, 0x19900000000int * 0x40000);
    }
    let a_raw: i64 = (sweep * t) / total;
    let a: i64 = a_raw % TWO_PI_FX;
    let (c, s) = cos_sin_turn(a);
    proof {
        lemma_mul_abs_bound(radius as int, c as int, 0x40000000, 1048576);
        lemma_mul_abs_bound(radius as int, s as int, 0x40000000, 1048576);
        lemma_mul_abs_bound(height as int, t as int, 0x400000000, 0x40000);
        lemma_tdiv_bounds((height as int) * (t as int), total as int, 0x400000000int * 0x40000);
    }
    let y: i64 = (height * t) / total;
    Vec3 { x: fx_mul(radius, c), y, z: fx_mul(radius, s) }
}

/// The helix the demo scene shows: three units wide, ten tall, five
/// turns, a hundred segments.
pub fn create_helix_polyline() -> (lines: Vec<Line>)
    ensures
        lines@.len() == 100,
        forall|i: int|
            0 <= i < 100 ==> (#[trigger] lines@[i]) == (Line {
                start: helix_point_spec(3145728, 10485760, 5242880, 100, i),
                end: helix_point_spec(3145728, 10485760, 5242880, 100, i + 1),
                color: helix_color_spec(100, i),
            }),
{
    let lines = create_helix(3 * FX_ONE, 10 * FX_ONE, 5 * FX_ONE, 20);
    proof {
        assert(tdiv(20int * 5242880, FX_ONE as int) == 100);
    }
    lines
}

} // verus!
