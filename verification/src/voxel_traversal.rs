use vstd::prelude::*;

use crate::math::{floor_div_i64, FxVec3, IVec3, FX_ONE};
use crate::voxel::VoxelFace;

verus! {

/// One voxel visited by a grid trace: the voxel, the time along the
/// segment at which the ray entered it (an exact fraction
/// `time_num / time_den` of the whole segment, in `[0, 1]`), and the face
/// through which it was entered (`None` for the very first voxel).
#[derive(Clone, Copy, Debug, PartialEq, Eq, Structural)]
pub struct VoxelVisit {
    pub voxel: IVec3,
    pub time_num: i64,
    pub time_den: i64,
    pub face: Option<VoxelFace>,
}

/// Keeps the fixed-point endpoints small enough that every intermediate
/// product of the traversal fits in the machine integers.
pub open spec fn trace_point_in_range(p: FxVec3) -> bool {
    &&& -0x4000_0000_0000 <= p.x <= 0x4000_0000_0000
    &&& -0x4000_0000_0000 <= p.y <= 0x4000_0000_0000
    &&& -0x4000_0000_0000 <= p.z <= 0x4000_0000_0000
}

/// A fraction comparison: `a_num / a_den <= b_num / b_den` for positive
/// denominators, stated without division.
pub open spec fn frac_le(a_num: int, a_den: int, b_num: int, b_den: int) -> bool {
    a_num * b_den <= b_num * a_den
}

proof fn lemma_frac_le_trans(an: int, ad: int, bn: int, bd: int, cn: int, cd: int)
    requires
        0 < ad,
        0 < bd,
        0 < cd,
        frac_le(an, ad, bn, bd),
        frac_le(bn, bd, cn, cd),
    ensures
        frac_le(an, ad, cn, cd),
{
    assert(an * cd <= cn * ad) by (nonlinear_arith)
        requires
            0 < ad,
            0 < bd,
            0 < cd,
            an * bd <= bn * ad,
            bn * cd <= cn * bd,
    ;
}

/// What one traversal step promises, given the segment from `start` to
/// `end` (both fixed point): the voxel moved one cell on the axis named by
/// the entry face, toward the segment's end, and the reported time is
/// exactly the fraction of the segment at which that cell boundary is
/// crossed.
pub open spec fn visit_step_ok(start: FxVec3, end: FxVec3, prev: VoxelVisit, cur: VoxelVisit) -> bool {
    &&& cur.face is Some
    &&& match cur.face {
        Option::Some(VoxelFace::Left) => {
            &&& end.x > start.x
            &&& cur.voxel == (IVec3 { x: (prev.voxel.x + 1) as i32, ..prev.voxel })
            &&& cur.time_den == end.x - start.x
            &&& cur.time_num == (cur.voxel.x as int) * FX_ONE - start.x
        },
        Option::Some(VoxelFace::Right) => {
            &&& end.x < start.x
            &&& cur.voxel == (IVec3 { x: (prev.voxel.x - 1) as i32, ..prev.voxel })
            &&& cur.time_den == start.x - end.x
            &&& cur.time_num == start.x - (prev.voxel.x as int) * FX_ONE
        },
        Option::Some(VoxelFace::Bottom) => {
            &&& end.y > start.y
            &&& cur.voxel == (IVec3 { y: (prev.voxel.y + 1) as i32, ..prev.voxel })
            &&& cur.time_den == end.y - start.y
            &&& cur.time_num == (cur.voxel.y as int) * FX_ONE - start.y
        },
        Option::Some(VoxelFace::Top) => {
            &&& end.y < start.y
            &&& cur.voxel == (IVec3 { y: (prev.voxel.y - 1) as i32, ..prev.voxel })
            &&& cur.time_den == start.y - end.y
            &&& cur.time_num == start.y - (prev.voxel.y as int) * FX_ONE
        },
        Option::Some(VoxelFace::Back) => {
            &&& end.z > start.z
            &&& cur.voxel == (IVec3 { z: (prev.voxel.z + 1) as i32, ..prev.voxel })
            &&& cur.time_den == end.z - start.z
            &&& cur.time_num == (cur.voxel.z as int) * FX_ONE - start.z
        },
        Option::Some(VoxelFace::Forward) => {
            &&& end.z < start.z
            &&& cur.voxel == (IVec3 { z: (prev.voxel.z - 1) as i32, ..prev.voxel })
            &&& cur.time_den == start.z - end.z
            &&& cur.time_num == start.z - (prev.voxel.z as int) * FX_ONE
        },
        Option::None => false,
    }
}

/// The grid axis a face lies on: x faces are 0, y faces 1, z faces 2.
pub open spec fn spec_face_axis(f: VoxelFace) -> int {
    match f {
        VoxelFace::Left => 0,
        VoxelFace::Right => 0,
        VoxelFace::Bottom => 1,
        VoxelFace::Top => 1,
        VoxelFace::Back => 2,
        VoxelFace::Forward => 2,
    }
}

/// The axis a visit stepped on; the trace's first visit stepped on none,
/// which ranks above every axis.
pub open spec fn spec_visit_axis(v: VoxelVisit) -> int {
    match v.face {
        Option::Some(f) => spec_face_axis(f),
        Option::None => 3,
    }
}

/// Two visit times are exactly equal, as fractions of the segment.
pub open spec fn visit_times_equal(a: VoxelVisit, b: VoxelVisit) -> bool {
    (a.time_num as int) * (b.time_den as int) == (b.time_num as int) * (a.time_den as int)
}

/// The whole contract of a grid trace from `start` to `end`, as one
/// predicate: at least the start voxel, visited first at time zero with
/// no entry face; the end voxel last; every time within the unit
/// interval; every later visit one exact boundary crossing along its
/// entry face's axis; times never decreasing. Any sequence satisfying
/// this walks the segment's voxels in order (the only freedom is which
/// axis steps first when two crossings coincide exactly).
pub open spec fn trace_ok(start: FxVec3, end: FxVec3, visits: Seq<VoxelVisit>) -> bool {
    &&& visits.len() >= 1
    &&& visits[0] == (VoxelVisit {
        voxel: spec_fx_voxel(start),
        time_num: 0,
        time_den: 1,
        face: Option::None,
    })
    &&& visits.last().voxel == spec_fx_voxel(end)
    &&& (forall|k: int|
        0 <= k < visits.len() ==> 0 <= (#[trigger] visits[k]).time_num <= visits[k].time_den
            && 1 <= visits[k].time_den)
    &&& (forall|k: int|
        1 <= k < visits.len() ==> visit_step_ok(start, end, visits[k - 1], #[trigger] visits[k]))
    &&& (forall|k: int|
        1 <= k < visits.len() ==> frac_le(
            (#[trigger] visits[k - 1]).time_num as int,
            visits[k - 1].time_den as int,
            visits[k].time_num as int,
            visits[k].time_den as int,
        ))
    &&& (forall|k: int|
        1 <= k < visits.len() && visit_times_equal(visits[k - 1], #[trigger] visits[k])
            ==> spec_visit_axis(visits[k]) < spec_visit_axis(visits[k - 1]))
}

/// The voxel containing a fixed-point position: floor on each axis.
pub open spec fn spec_fx_voxel(p: FxVec3) -> IVec3 {
    IVec3 {
        x: (p.x as int / (FX_ONE as int)) as i32,
        y: (p.y as int / (FX_ONE as int)) as i32,
        z: (p.z as int / (FX_ONE as int)) as i32,
    }
}

/// The voxel containing a fixed-point position.
pub fn fx_voxel(p: FxVec3) -> (r: IVec3)
    requires
        trace_point_in_range(p),
    ensures
        r == spec_fx_voxel(p),
        -0x4000_0000 <= r.x <= 0x4000_0000,
        -0x4000_0000 <= r.y <= 0x4000_0000,
        -0x4000_0000 <= r.z <= 0x4000_0000,
        (r.x as int) * FX_ONE <= p.x < (r.x + 1) * FX_ONE,
        (r.y as int) * FX_ONE <= p.y < (r.y + 1) * FX_ONE,
        (r.z as int) * FX_ONE <= p.z < (r.z + 1) * FX_ONE,
{
    let x = floor_div_i64(p.x, FX_ONE);
    let y = floor_div_i64(p.y, FX_ONE);
    let z = floor_div_i64(p.z, FX_ONE);
    proof {
        lemma_fx_floor(p.x as int, x as int);
        lemma_fx_floor(p.y as int, y as int);
        lemma_fx_floor(p.z as int, z as int);
    }
    IVec3 { x: x as i32, y: y as i32, z: z as i32 }
}

proof fn lemma_fx_floor(a: int, q: int)
    requires
        -0x4000_0000_0000 <= a <= 0x4000_0000_0000,
        q == a / (FX_ONE as int),
    ensures
        q * FX_ONE <= a < (q + 1) * FX_ONE,
        -0x4000_0000 <= q <= 0x4000_0000,
{
    vstd::arithmetic::div_mod::lemma_fundamental_div_mod(a, FX_ONE as int);
    vstd::arithmetic::div_mod::lemma_mod_bound(a, FX_ONE as int);
    vstd::arithmetic::div_mod::lemma_div_is_ordered(a, 0x4000_0000_0000, FX_ONE as int);
    vstd::arithmetic::div_mod::lemma_div_is_ordered(-0x4000_0000_0000, a, FX_ONE as int);
}

/// Visits every voxel along the segment from `start` to `end` (fixed
/// point, `FX_ONE` per voxel edge), in the order the segment crosses
/// them, using exact integer arithmetic throughout.
///
/// The first visit is always the voxel containing `start`, at time zero
/// and with no entry face; the last visit is always the voxel containing
/// `end`. Every intermediate visit steps one cell along the axis named by
/// its entry face, carries the exact crossing time as a fraction of the
/// segment, and the reported times never decrease.
#[verifier::rlimit(100)]
pub fn voxel_line_traversal(start: FxVec3, end: FxVec3) -> (r: Vec<VoxelVisit>)
    requires
        trace_point_in_range(start),
        trace_point_in_range(end),
    ensures
        r@.len() >= 1,
        // The start voxel comes first, at time zero, entered through no
        // face.
        r@[0] == (VoxelVisit {
            voxel: spec_fx_voxel(start),
            time_num: 0,
            time_den: 1,
            face: Option::None,
        }),
        // The end voxel is always reached.
        r@.last().voxel == spec_fx_voxel(end),
        // Every reported time lies in [0, 1].
        forall|k: int|
            0 <= k < r@.len() ==> 0 <= (#[trigger] r@[k]).time_num <= r@[k].time_den && 1 <= r@[k].time_den,
        // Each later visit steps one voxel along the axis of its entry
        // face, toward the end, at the exact boundary-crossing time.
        forall|k: int| 1 <= k < r@.len() ==> visit_step_ok(start, end, r@[k - 1], #[trigger] r@[k]),
        // Times never decrease along the path.
        forall|k: int|
            1 <= k < r@.len() ==> frac_le(
                (#[trigger] r@[k - 1]).time_num as int,
                r@[k - 1].time_den as int,
                r@[k].time_num as int,
                r@[k].time_den as int,
            ),
        // When two crossings coincide exactly, the axes step in a fixed
        // order: z before y before x.
        forall|k: int|
            1 <= k < r@.len() && visit_times_equal(r@[k - 1], #[trigger] r@[k])
                ==> spec_visit_axis(r@[k]) < spec_visit_axis(r@[k - 1]),
        trace_ok(start, end, r@),
{
    let sv: IVec3 = fx_voxel(start);
    let ev: IVec3 = fx_voxel(end);
    let dx: i64 = end.x - start.x;
    let dy: i64 = end.y - start.y;
    let dz: i64 = end.z - start.z;

    // Remaining boundary crossings per axis.
    let mut nx: i64 = if ev.x >= sv.x {
        (ev.x as i64) - (sv.x as i64)
    } else {
        (sv.x as i64) - (ev.x as i64)
    };
    let mut ny: i64 = if ev.y >= sv.y {
        (ev.y as i64) - (sv.y as i64)
    } else {
        (sv.y as i64) - (ev.y as i64)
    };
    let mut nz: i64 = if ev.z >= sv.z {
        (ev.z as i64) - (sv.z as i64)
    } else {
        (sv.z as i64) - (ev.z as i64)
    };

    let mut cur: IVec3 = sv;
    // Next crossing of each axis, as a fraction of the segment: numerator
    // is the distance from start to the next cell boundary, denominator
    // the total distance, both along that axis.
    let mut numx: i64 = if dx >= 0 {
        ((cur.x as i64) + 1) * FX_ONE - start.x
    } else {
        start.x - (cur.x as i64) * FX_ONE
    };
    let denx: i64 = if dx >= 0 {
        dx
    } else {
        -dx
    };
    let mut numy: i64 = if dy >= 0 {
        ((cur.y as i64) + 1) * FX_ONE - start.y
    } else {
        start.y - (cur.y as i64) * FX_ONE
    };
    let deny: i64 = if dy >= 0 {
        dy
    } else {
        -dy
    };
    let mut numz: i64 = if dz >= 0 {
        ((cur.z as i64) + 1) * FX_ONE - start.z
    } else {
        start.z - (cur.z as i64) * FX_ONE
    };
    let denz: i64 = if dz >= 0 {
        dz
    } else {
        -dz
    };

    let mut visits: Vec<VoxelVisit> = Vec::new();
    visits.push(VoxelVisit { voxel: sv, time_num: 0, time_den: 1, face: Option::None });
    let mut tn: i64 = 0;
    let mut td: i64 = 1;

    while nx + ny + nz > 0
        invariant
            0 <= nx && 0 <= ny && 0 <= nz,
            // Ambient facts about the segment and its endpoints.
            trace_point_in_range(start),
            trace_point_in_range(end),
            sv == spec_fx_voxel(start),
            ev == spec_fx_voxel(end),
            (sv.x as int) * FX_ONE <= start.x < (sv.x + 1) * FX_ONE,
            (sv.y as int) * FX_ONE <= start.y < (sv.y + 1) * FX_ONE,
            (sv.z as int) * FX_ONE <= start.z < (sv.z + 1) * FX_ONE,
            (ev.x as int) * FX_ONE <= end.x < (ev.x + 1) * FX_ONE,
            (ev.y as int) * FX_ONE <= end.y < (ev.y + 1) * FX_ONE,
            (ev.z as int) * FX_ONE <= end.z < (ev.z + 1) * FX_ONE,
            -0x4000_0000 <= sv.x <= 0x4000_0000 && -0x4000_0000 <= sv.y <= 0x4000_0000
                && -0x4000_0000 <= sv.z <= 0x4000_0000,
            -0x4000_0000 <= ev.x <= 0x4000_0000 && -0x4000_0000 <= ev.y <= 0x4000_0000
                && -0x4000_0000 <= ev.z <= 0x4000_0000,
            dx == end.x - start.x && dy == end.y - start.y && dz == end.z - start.z,
            denx == (if dx >= 0 {
                dx as int
            } else {
                -dx
            }),
            deny == (if dy >= 0 {
                dy as int
            } else {
                -dy
            }),
            denz == (if dz >= 0 {
                dz as int
            } else {
                -dz
            }),
            // The remaining crossings connect the current voxel to the
            // end voxel, along each axis's direction of travel.
            dx >= 0 ==> cur.x + nx == ev.x && sv.x <= cur.x,
            dx < 0 ==> cur.x - nx == ev.x && cur.x <= sv.x,
            dy >= 0 ==> cur.y + ny == ev.y && sv.y <= cur.y,
            dy < 0 ==> cur.y - ny == ev.y && cur.y <= sv.y,
            dz >= 0 ==> cur.z + nz == ev.z && sv.z <= cur.z,
            dz < 0 ==> cur.z - nz == ev.z && cur.z <= sv.z,
            nx > 0 ==> denx >= 1,
            ny > 0 ==> deny >= 1,
            nz > 0 ==> denz >= 1,
            // The next crossing fractions are exact and within the
            // segment.
            nx > 0 ==> (if dx >= 0 {
                numx == ((cur.x + 1) as int) * FX_ONE - start.x
            } else {
                numx == start.x - (cur.x as int) * FX_ONE
            }),
            ny > 0 ==> (if dy >= 0 {
                numy == ((cur.y + 1) as int) * FX_ONE - start.y
            } else {
                numy == start.y - (cur.y as int) * FX_ONE
            }),
            nz > 0 ==> (if dz >= 0 {
                numz == ((cur.z + 1) as int) * FX_ONE - start.z
            } else {
                numz == start.z - (cur.z as int) * FX_ONE
            }),
            nx > 0 ==> 0 <= numx <= denx,
            ny > 0 ==> 0 <= numy <= deny,
            nz > 0 ==> 0 <= numz <= denz,
            // What has been emitted so far.
            visits@.len() >= 1,
            visits@[0] == (VoxelVisit {
                voxel: spec_fx_voxel(start),
                time_num: 0,
                time_den: 1,
                face: Option::None,
            }),
            visits@.last().voxel == cur,
            visits@.last().time_num == tn && visits@.last().time_den == td,
            0 <= tn <= td && 1 <= td,
            forall|k: int|
                0 <= k < visits@.len() ==> 0 <= (#[trigger] visits@[k]).time_num
                    <= visits@[k].time_den && 1 <= visits@[k].time_den,
            forall|k: int|
                1 <= k < visits@.len() ==> visit_step_ok(
                    start,
                    end,
                    visits@[k - 1],
                    #[trigger] visits@[k],
                ),
            forall|k: int|
                1 <= k < visits@.len() ==> frac_le(
                    (#[trigger] visits@[k - 1]).time_num as int,
                    visits@[k - 1].time_den as int,
                    visits@[k].time_num as int,
                    visits@[k].time_den as int,
                ),
            forall|k: int|
                1 <= k < visits@.len() && visit_times_equal(
                    visits@[k - 1],
                    #[trigger] visits@[k],
                ) ==> spec_visit_axis(visits@[k]) < spec_visit_axis(visits@[k - 1]),
            // The last emitted time is no later than any upcoming
            // crossing, and strictly earlier for axes at or above the
            // axis last stepped (the cascade steps z over y over x on
            // exact ties).
            nx > 0 ==> frac_le(tn as int, td as int, numx as int, denx as int),
            ny > 0 ==> frac_le(tn as int, td as int, numy as int, deny as int),
            nz > 0 ==> frac_le(tn as int, td as int, numz as int, denz as int),
            (nx > 0 && spec_visit_axis(visits@.last()) <= 0) ==> (tn as int) * (denx as int)
                < (numx as int) * (td as int),
            (ny > 0 && spec_visit_axis(visits@.last()) <= 1) ==> (tn as int) * (deny as int)
                < (numy as int) * (td as int),
            (nz > 0 && spec_visit_axis(visits@.last()) <= 2) ==> (tn as int) * (denz as int)
                < (numz as int) * (td as int),
            // Keeps every quantity small enough for exact products.
            -0x4000_0000 <= cur.x <= 0x4000_0000,
            -0x4000_0000 <= cur.y <= 0x4000_0000,
            -0x4000_0000 <= cur.z <= 0x4000_0000,
            0 <= numx <= 0x1_0000_0000_0000 && 0 <= numy <= 0x1_0000_0000_0000 && 0 <= numz
                <= 0x1_0000_0000_0000,
            0 <= denx <= 0x1_0000_0000_0000 && 0 <= deny <= 0x1_0000_0000_0000 && 0 <= denz
                <= 0x1_0000_0000_0000,
            0 <= tn <= 0x1_0000_0000_0000 && 1 <= td <= 0x1_0000_0000_0000,
        decreases nx + ny + nz,
    {
        proof {
            assert(0 <= (numx as int) * (deny as int) <= 0x1_0000_0000_0000_0000_0000_0000 && 0 <= (
            numy as int) * (denx as int) <= 0x1_0000_0000_0000_0000_0000_0000 && 0 <= (numx as int)
                * (denz as int) <= 0x1_0000_0000_0000_0000_0000_0000 && 0 <= (numz as int) * (
            denx as int) <= 0x1_0000_0000_0000_0000_0000_0000 && 0 <= (numy as int) * (denz as int)
                <= 0x1_0000_0000_0000_0000_0000_0000 && 0 <= (numz as int) * (deny as int)
                <= 0x1_0000_0000_0000_0000_0000_0000) by (nonlinear_arith)
                requires
                    0 <= numx <= 0x1_0000_0000_0000,
                    0 <= numy <= 0x1_0000_0000_0000,
                    0 <= numz <= 0x1_0000_0000_0000,
                    0 <= denx <= 0x1_0000_0000_0000,
                    0 <= deny <= 0x1_0000_0000_0000,
                    0 <= denz <= 0x1_0000_0000_0000,
            ;
        }
        // Pick the eligible axis whose next crossing comes first; an axis
        // with no remaining crossings never wins.
        let x_lt_y: bool = nx > 0 && (ny <= 0 || (numx as i128) * (deny as i128) < (
        numy as i128) * (denx as i128));
        let x_lt_z: bool = nx > 0 && (nz <= 0 || (numx as i128) * (denz as i128) < (
        numz as i128) * (denx as i128));
        let y_lt_z: bool = ny > 0 && (nz <= 0 || (numy as i128) * (denz as i128) < (
        numz as i128) * (deny as i128));
        let ghost pre_visits = visits@;
        let ghost pre_last = visits@.last();
        let vnum: i64;
        let vden: i64;
        let face: VoxelFace;
        if x_lt_y && x_lt_z {
            let step: i32 = if dx >= 0 {
                1
            } else {
                -1
            };
            face = if dx >= 0 {
                VoxelFace::Left
            } else {
                VoxelFace::Right
            };
            cur = IVec3 { x: cur.x + step, ..cur };
            nx = nx - 1;
            vnum = numx;
            vden = denx;
            proof {
                if dx >= 0 {
                    assert(dx > 0);
                }
                if ny > 0 {
                    assert(frac_le(vnum as int, vden as int, numy as int, deny as int));
                }
                if nz > 0 {
                    assert(frac_le(vnum as int, vden as int, numz as int, denz as int));
                }
                // At an exactly tied time the previous step was on a
                // higher axis, else its strictness would contradict the
                // equality.
                assert((tn as int) * (vden as int) == (vnum as int) * (td as int)
                    ==> spec_visit_axis(pre_last) > 0);
            }
            if nx > 0 {
                numx = numx + FX_ONE;
            }
            proof {
                if nx > 0 {
                    assert((vnum as int) * (denx as int) < (numx as int) * (vden as int))
                        by (nonlinear_arith)
                        requires
                            numx == vnum + FX_ONE,
                            denx == vden,
                            1 <= vden,
                    ;
                }
            }
        } else if y_lt_z {
            let step: i32 = if dy >= 0 {
                1
            } else {
                -1
            };
            face = if dy >= 0 {
                VoxelFace::Bottom
            } else {
                VoxelFace::Top
            };
            cur = IVec3 { y: cur.y + step, ..cur };
            ny = ny - 1;
            vnum = numy;
            vden = deny;
            proof {
                if dy >= 0 {
                    assert(dy > 0);
                }
                // y's crossing is no later than x's: either directly from
                // the failed x-versus-y comparison, or through z.
                if nx > 0 {
                    if !x_lt_y {
                        assert(frac_le(vnum as int, vden as int, numx as int, denx as int));
                    } else {
                        assert(!x_lt_z && nz > 0);
                        lemma_frac_le_trans(
                            numy as int,
                            deny as int,
                            numz as int,
                            denz as int,
                            numx as int,
                            denx as int,
                        );
                    }
                }
                if nz > 0 {
                    assert(frac_le(vnum as int, vden as int, numz as int, denz as int));
                }
                assert((tn as int) * (vden as int) == (vnum as int) * (td as int)
                    ==> spec_visit_axis(pre_last) > 1);
            }
            if ny > 0 {
                numy = numy + FX_ONE;
            }
            proof {
                if ny > 0 {
                    assert((vnum as int) * (deny as int) < (numy as int) * (vden as int))
                        by (nonlinear_arith)
                        requires
                            numy == vnum + FX_ONE,
                            deny == vden,
                            1 <= vden,
                    ;
                }
            }
        } else {
            proof {
                // z must still have crossings left: an eligible y would
                // have won against an exhausted z, and so would an
                // eligible x.
                assert(nz > 0);
                if dz >= 0 {
                    assert(dz > 0);
                }
            }
            let step: i32 = if dz >= 0 {
                1
            } else {
                -1
            };
            face = if dz >= 0 {
                VoxelFace::Back
            } else {
                VoxelFace::Forward
            };
            cur = IVec3 { z: cur.z + step, ..cur };
            nz = nz - 1;
            vnum = numz;
            vden = denz;
            proof {
                // z's crossing is no later than y's and x's.
                if ny > 0 {
                    assert(frac_le(vnum as int, vden as int, numy as int, deny as int));
                }
                if nx > 0 {
                    if x_lt_y {
                        assert(!x_lt_z);
                        assert(frac_le(vnum as int, vden as int, numx as int, denx as int));
                    } else if ny > 0 {
                        lemma_frac_le_trans(
                            numz as int,
                            denz as int,
                            numy as int,
                            deny as int,
                            numx as int,
                            denx as int,
                        );
                    } else {
                        assert(frac_le(vnum as int, vden as int, numx as int, denx as int));
                    }
                }
                assert((tn as int) * (vden as int) == (vnum as int) * (td as int)
                    ==> spec_visit_axis(pre_last) > 2);
            }
            if nz > 0 {
                numz = numz + FX_ONE;
            }
            proof {
                if nz > 0 {
                    assert((vnum as int) * (denz as int) < (numz as int) * (vden as int))
                        by (nonlinear_arith)
                        requires
                            numz == vnum + FX_ONE,
                            denz == vden,
                            1 <= vden,
                    ;
                }
            }
        }
        let visit = VoxelVisit { voxel: cur, time_num: vnum, time_den: vden, face: Option::Some(face) };
        proof {
            assert(visit_step_ok(start, end, pre_last, visit));
            assert(frac_le(tn as int, td as int, vnum as int, vden as int));
        }
        visits.push(visit);
        tn = vnum;
        td = vden;
        proof {
            assert(visits@.len() == pre_visits.len() + 1);
            assert forall|k: int|
                1 <= k < visits@.len() implies visit_step_ok(
                start,
                end,
                visits@[k - 1],
                #[trigger] visits@[k],
            ) by {
                if k < pre_visits.len() {
                    assert(visit_step_ok(start, end, pre_visits[k - 1], pre_visits[k]));
                } else {
                    assert(visits@[k - 1] == pre_last && visits@[k] == visit);
                }
            }
            assert forall|k: int|
                1 <= k < visits@.len() implies frac_le(
                (#[trigger] visits@[k - 1]).time_num as int,
                visits@[k - 1].time_den as int,
                visits@[k].time_num as int,
                visits@[k].time_den as int,
            ) by {
                if k < pre_visits.len() {
                    assert(frac_le(
                        pre_visits[k - 1].time_num as int,
                        pre_visits[k - 1].time_den as int,
                        pre_visits[k].time_num as int,
                        pre_visits[k].time_den as int,
                    ));
                } else {
                    assert(visits@[k - 1] == pre_last && visits@[k] == visit);
                }
            }
            assert forall|k: int|
                1 <= k < visits@.len() && visit_times_equal(
                    visits@[k - 1],
                    #[trigger] visits@[k],
                ) implies spec_visit_axis(visits@[k]) < spec_visit_axis(visits@[k - 1]) by {
                if k < pre_visits.len() {
                    assert(visit_times_equal(pre_visits[k - 1], pre_visits[k])
                        ==> spec_visit_axis(pre_visits[k]) < spec_visit_axis(
                        pre_visits[k - 1],
                    ));
                } else {
                    assert(visits@[k - 1] == pre_last && visits@[k] == visit);
                }
            }
        }
    }
    visits
}

/// Visits the voxels from `start` (included) to `end` (excluded) along a
/// single grid axis: exactly one component of `end - start` may be
/// non-zero.
pub fn voxel_cartesian_traversal(start: IVec3, end: IVec3) -> (r: Vec<IVec3>)
    requires
        (start.x != end.x) as int + (start.y != end.y) as int + (start.z != end.z) as int == 1,
    ensures
        r@.len() == (if start.x != end.x {
            if end.x > start.x {
                end.x - start.x
            } else {
                start.x - end.x
            }
        } else if start.y != end.y {
            if end.y > start.y {
                end.y - start.y
            } else {
                start.y - end.y
            }
        } else {
            if end.z > start.z {
                end.z - start.z
            } else {
                start.z - end.z
            }
        }),
        forall|i: int|
            0 <= i < r@.len() ==> #[trigger] r@[i] == (IVec3 {
                x: (start.x + i * (if end.x > start.x {
                    1 as int
                } else if end.x < start.x {
                    -1 as int
                } else {
                    0 as int
                })) as i32,
                y: (start.y + i * (if end.y > start.y {
                    1 as int
                } else if end.y < start.y {
                    -1 as int
                } else {
                    0 as int
                })) as i32,
                z: (start.z + i * (if end.z > start.z {
                    1 as int
                } else if end.z < start.z {
                    -1 as int
                } else {
                    0 as int
                })) as i32,
            }),
{
    let sx: i32 = if end.x > start.x {
        1
    } else if end.x < start.x {
        -1
    } else {
        0
    };
    let sy: i32 = if end.y > start.y {
        1
    } else if end.y < start.y {
        -1
    } else {
        0
    };
    let sz: i32 = if end.z > start.z {
        1
    } else if end.z < start.z {
        -1
    } else {
        0
    };
    let distance: i64 = {
        let dx: i64 = (end.x as i64) - (start.x as i64);
        let dy: i64 = (end.y as i64) - (start.y as i64);
        let dz: i64 = (end.z as i64) - (start.z as i64);
        let ax: i64 = if dx >= 0 {
            dx
        } else {
            -dx
        };
        let ay: i64 = if dy >= 0 {
            dy
        } else {
            -dy
        };
        let az: i64 = if dz >= 0 {
            dz
        } else {
            -dz
        };
        if ax > 0 {
            ax
        } else if ay > 0 {
            ay
        } else {
            az
        }
    };
    let mut r: Vec<IVec3> = Vec::new();
    let mut i: i64 = 0;
    while i < distance
        invariant
            0 <= i <= distance,
            r@.len() == i,
            distance <= 0x1_0000_0000,
            sx == (if end.x > start.x {
                1 as int
            } else if end.x < start.x {
                -1 as int
            } else {
                0 as int
            }),
            sy == (if end.y > start.y {
                1 as int
            } else if end.y < start.y {
                -1 as int
            } else {
                0 as int
            }),
            sz == (if end.z > start.z {
                1 as int
            } else if end.z < start.z {
                -1 as int
            } else {
                0 as int
            }),
            sx != 0 ==> distance == (if end.x > start.x {
                end.x - start.x
            } else {
                start.x - end.x
            }) && sy == 0 && sz == 0,
            sy != 0 ==> distance == (if end.y > start.y {
                end.y - start.y
            } else {
                start.y - end.y
            }) && sx == 0 && sz == 0,
            sz != 0 ==> distance == (if end.z > start.z {
                end.z - start.z
            } else {
                start.z - end.z
            }) && sx == 0 && sy == 0,
            sx != 0 || sy != 0 || sz != 0,
            forall|j: int|
                0 <= j < r@.len() ==> #[trigger] r@[j] == (IVec3 {
                    x: (start.x + j * (sx as int)) as i32,
                    y: (start.y + j * (sy as int)) as i32,
                    z: (start.z + j * (sz as int)) as i32,
                }),
        decreases distance - i,
    {
        proof {
            assert(-0x1_0000_0000 <= i * (sx as int) <= 0x1_0000_0000 && -0x1_0000_0000 <= i
                * (sy as int) <= 0x1_0000_0000 && -0x1_0000_0000 <= i * (sz as int)
                <= 0x1_0000_0000) by (nonlinear_arith)
                requires
                    0 <= i <= 0x1_0000_0000,
                    -1 <= sx <= 1,
                    -1 <= sy <= 1,
                    -1 <= sz <= 1,
            ;
            assert(sx != 0 ==> start.x + i * (sx as int) == start.x + i || start.x + i * (
            sx as int) == start.x - i) by (nonlinear_arith)
                requires
                    sx == 1 || sx == -1 || sx == 0,
            ;
            assert(sy != 0 ==> start.y + i * (sy as int) == start.y + i || start.y + i * (
            sy as int) == start.y - i) by (nonlinear_arith)
                requires
                    sy == 1 || sy == -1 || sy == 0,
            ;
            assert(sz != 0 ==> start.z + i * (sz as int) == start.z + i || start.z + i * (
            sz as int) == start.z - i) by (nonlinear_arith)
                requires
                    sz == 1 || sz == -1 || sz == 0,
            ;
            assert(sx == 0 ==> i * (sx as int) == 0) by (nonlinear_arith);
            assert(sy == 0 ==> i * (sy as int) == 0) by (nonlinear_arith);
            assert(sz == 0 ==> i * (sz as int) == 0) by (nonlinear_arith);
        }
        let vx: i64 = (start.x as i64) + i * (sx as i64);
        let vy: i64 = (start.y as i64) + i * (sy as i64);
        let vz: i64 = (start.z as i64) + i * (sz as i64);
        r.push(IVec3 { x: vx as i32, y: vy as i32, z: vz as i32 });
        i = i + 1;
    }
    r
}

} // verus!
