use vstd::prelude::*;

use crate::math::UVec3;

verus! {

/// Edge length of a chunk in voxels.
pub const CHUNK_SIZE_U: u32 = 32;

pub const CHUNK_SIZE_I: i32 = 32;

/// Edge length of the default padded chunk array: one voxel of padding on
/// each face, so that boundary faces can be culled against the neighbours.
pub const PADDED_CHUNK_SIZE: u32 = 34;

/// A padded shape is sane when each axis holds at least one interior cell
/// and the whole array is small enough to index comfortably.
pub open spec fn shape_wf(s: UVec3) -> bool {
    3 <= s.x <= 256 && 3 <= s.y <= 256 && 3 <= s.z <= 256
}

/// Number of cells of a padded array of this shape.
pub open spec fn spec_shape_size(s: UVec3) -> int {
    s.x * s.y * s.z
}

/// Row-major linear index of a cell, x fastest.
pub open spec fn spec_linearize(s: UVec3, cx: int, cy: int, cz: int) -> int {
    cz * (s.x * s.y) + cy * s.x + cx
}

pub open spec fn cell_in_shape(s: UVec3, cx: int, cy: int, cz: int) -> bool {
    0 <= cx < s.x && 0 <= cy < s.y && 0 <= cz < s.z
}

/// The padded shape around the given interior extents.
pub fn padded_chunk_shape(interior: UVec3) -> (r: UVec3)
    requires
        interior.x <= 254,
        interior.y <= 254,
        interior.z <= 254,
    ensures
        r == (UVec3 { x: (interior.x + 2) as u32, y: (interior.y + 2) as u32, z: (interior.z
            + 2) as u32 }),
{
    UVec3 { x: interior.x + 2, y: interior.y + 2, z: interior.z + 2 }
}

/// The padded shape of a cube with the given interior edge length.
pub fn padded_chunk_shape_uniform(edge: u32) -> (r: UVec3)
    requires
        edge <= 254,
    ensures
        r.x == edge + 2 && r.y == edge + 2 && r.z == edge + 2,
{
    UVec3 { x: edge + 2, y: edge + 2, z: edge + 2 }
}

/// Clamps a caller-supplied padded shape to the supported range; a sane
/// shape passes through unchanged.
pub fn sanitize_shape(s: UVec3) -> (r: UVec3)
    ensures
        shape_wf(r),
        shape_wf(s) ==> r == s,
{
    if s.x >= 3 && s.x <= 256 && s.y >= 3 && s.y <= 256 && s.z >= 3 && s.z <= 256 {
        s
    } else {
        UVec3 { x: PADDED_CHUNK_SIZE, y: PADDED_CHUNK_SIZE, z: PADDED_CHUNK_SIZE }
    }
}

pub proof fn lemma_shape_size_bounds(s: UVec3)
    requires
        shape_wf(s),
    ensures
        27 <= spec_shape_size(s) <= 0x100_0000,
{
    assert(27 <= s.x * s.y * s.z <= 0x100_0000) by (nonlinear_arith)
        requires
            3 <= s.x <= 256,
            3 <= s.y <= 256,
            3 <= s.z <= 256,
    ;
}

pub proof fn lemma_linearize_in_range(s: UVec3, cx: int, cy: int, cz: int)
    requires
        shape_wf(s),
        cell_in_shape(s, cx, cy, cz),
    ensures
        0 <= spec_linearize(s, cx, cy, cz) < spec_shape_size(s),
{
    assert(0 <= cz * (s.x * s.y) + cy * s.x + cx < s.x * s.y * s.z) by (nonlinear_arith)
        requires
            3 <= s.x <= 256,
            3 <= s.y <= 256,
            3 <= s.z <= 256,
            0 <= cx < s.x,
            0 <= cy < s.y,
            0 <= cz < s.z,
    ;
}

/// Two distinct in-shape cells always get distinct linear indices: the
/// linear index determines the cell.
pub proof fn lemma_linearize_injective(s: UVec3, cx: int, cy: int, cz: int, dx: int, dy: int, dz: int)
    requires
        shape_wf(s),
        cell_in_shape(s, cx, cy, cz),
        cell_in_shape(s, dx, dy, dz),
        spec_linearize(s, cx, cy, cz) == spec_linearize(s, dx, dy, dz),
    ensures
        cx == dx && cy == dy && cz == dz,
{
    assert(cx == dx && cy == dy && cz == dz) by (nonlinear_arith)
        requires
            3 <= s.x <= 256,
            3 <= s.y <= 256,
            3 <= s.z <= 256,
            0 <= cx < s.x,
            0 <= cy < s.y,
            0 <= cz < s.z,
            0 <= dx < s.x,
            0 <= dy < s.y,
            0 <= dz < s.z,
            cz * (s.x * s.y) + cy * s.x + cx == dz * (s.x * s.y) + dy * s.x + dx,
    ;
}

/// Number of cells of a padded array of this shape.
pub fn shape_size(s: UVec3) -> (r: u32)
    requires
        shape_wf(s),
    ensures
        r == spec_shape_size(s),
{
    proof {
        lemma_shape_size_bounds(s);
        assert(s.x * s.y <= 0x1_0000 && s.x * s.y * s.z == (s.x * s.y) * s.z)
            by (nonlinear_arith)
            requires
                3 <= s.x <= 256,
                3 <= s.y <= 256,
                3 <= s.z <= 256,
        ;
    }
    s.x * s.y * s.z
}

/// Row-major linear index of a cell, x fastest.
pub fn linearize(s: UVec3, c: UVec3) -> (r: u32)
    requires
        shape_wf(s),
        cell_in_shape(s, c.x as int, c.y as int, c.z as int),
    ensures
        r == spec_linearize(s, c.x as int, c.y as int, c.z as int),
        r < spec_shape_size(s),
{
    proof {
        lemma_shape_size_bounds(s);
        lemma_linearize_in_range(s, c.x as int, c.y as int, c.z as int);
        assert(s.x * s.y <= 0x1_0000) by (nonlinear_arith)
            requires
                3 <= s.x <= 256,
                3 <= s.y <= 256,
        ;
        assert(c.z * (s.x * s.y) <= 0x100_0000 && c.y * s.x <= 0x1_0000) by (nonlinear_arith)
            requires
                s.x * s.y <= 0x1_0000,
                0 <= c.z < s.z <= 256,
                0 <= c.y < s.y <= 256,
                s.x <= 256,
        ;
    }
    c.z * (s.x * s.y) + c.y * s.x + c.x
}

/// The cell a linear index stands for: the inverse of `linearize`.
pub fn delinearize(s: UVec3, i: u32) -> (r: UVec3)
    requires
        shape_wf(s),
        i < spec_shape_size(s),
    ensures
        cell_in_shape(s, r.x as int, r.y as int, r.z as int),
        spec_linearize(s, r.x as int, r.y as int, r.z as int) == i,
{
    proof {
        lemma_shape_size_bounds(s);
        assert(9 <= s.x * s.y <= 0x1_0000) by (nonlinear_arith)
            requires
                3 <= s.x <= 256,
                3 <= s.y <= 256,
        ;
    }
    let plane: u32 = s.x * s.y;
    let cz: u32 = i / plane;
    let rest: u32 = i % plane;
    let cy: u32 = rest / s.x;
    let cx: u32 = rest % s.x;
    proof {
        lemma_delinearize_correct(s, i as int, cz as int, rest as int, cy as int, cx as int);
    }
    UVec3 { x: cx, y: cy, z: cz }
}

proof fn lemma_delinearize_correct(s: UVec3, i: int, cz: int, rest: int, cy: int, cx: int)
    requires
        shape_wf(s),
        0 <= i < spec_shape_size(s),
        cz == i / (s.x * s.y),
        rest == i % (s.x * s.y),
        cy == rest / (s.x as int),
        cx == rest % (s.x as int),
    ensures
        cell_in_shape(s, cx, cy, cz),
        spec_linearize(s, cx, cy, cz) == i,
{
    let plane = (s.x * s.y) as int;
    assert(0 < plane && plane * s.z == spec_shape_size(s)) by (nonlinear_arith)
        requires
            3 <= s.x,
            3 <= s.y,
            plane == s.x * s.y,
    ;
    vstd::arithmetic::div_mod::lemma_fundamental_div_mod(i, plane);
    vstd::arithmetic::div_mod::lemma_mod_bound(i, plane);
    vstd::arithmetic::div_mod::lemma_fundamental_div_mod(rest, s.x as int);
    vstd::arithmetic::div_mod::lemma_mod_bound(rest, s.x as int);
    vstd::arithmetic::div_mod::lemma_div_is_ordered(0, i, plane);
    vstd::arithmetic::div_mod::lemma_div_is_ordered(0, rest, s.x as int);
    // cz is within the z extent because i < plane * s.z.
    assert(cz < s.z) by (nonlinear_arith)
        requires
            i == plane * cz + rest,
            0 <= rest < plane,
            0 <= cz,
            i < plane * s.z,
            0 < plane,
    ;
    assert(cy < s.y) by (nonlinear_arith)
        requires
            rest == s.x * cy + cx,
            0 <= cx < s.x,
            0 <= cy,
            rest < plane,
            plane == s.x * s.y,
            0 < s.x,
    ;
    assert(cz * plane + cy * s.x + cx == i) by (nonlinear_arith)
        requires
            i == plane * cz + rest,
            rest == s.x * cy + cx,
    ;
}

} // verus!
