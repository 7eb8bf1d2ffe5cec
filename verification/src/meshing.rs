use vstd::prelude::*;

use crate::configuration::TextureIndexMapper;
use crate::math::{IVec3, UVec3};
use crate::shape::{
    cell_in_shape, delinearize, linearize, shape_size, shape_wf, spec_linearize, spec_shape_size,
};
use crate::voxel::{spec_face_normal, MaterialIndex, VoxelFace, WorldVoxel};

verus! {

/// One unit face of a solid voxel that borders a non-solid cell: the
/// voxel's padded cell and the face that is visible.
#[derive(Clone, Copy, Debug, PartialEq, Eq, Structural)]
pub struct Quad {
    pub cell: UVec3,
    pub face: VoxelFace,
}

/// One vertex of a renderable chunk mesh, in mesh-lattice units: the host
/// scales positions and texture coordinates by the chunk edge length over
/// the interior extent of `mesh_shape`.
#[derive(Clone, Copy, Debug)]
pub struct MeshVertex {
    /// Lattice corner position in padded mesh space.
    pub cell: UVec3,
    /// Unit face normal.
    pub normal: IVec3,
    /// Texture coordinate in face-lattice units (zero or one).
    pub uv: (u32, u32),
    /// Ambient-occlusion level, 0 (darkest) to 3 (fully lit).
    pub ao_level: u8,
    /// Texture-array indices for the top, the sides and the bottom.
    pub tex_indices: [u32; 3],
}

/// A renderable chunk mesh: four vertices and six triangle-list indices
/// per visible face, plus the padded shape the lattice refers to.
#[derive(Clone, Debug)]
pub struct RenderableMesh {
    pub vertices: Vec<MeshVertex>,
    pub indices: Vec<u32>,
    pub mesh_shape: UVec3,
}

/// Whether the cell at the given padded coordinates holds a solid voxel;
/// out-of-shape coordinates read as empty.
pub open spec fn spec_opaque_at(voxels: Seq<WorldVoxel>, shape: UVec3, cx: int, cy: int, cz: int) -> bool {
    cell_in_shape(shape, cx, cy, cz) && voxels[spec_linearize(shape, cx, cy, cz)] is Solid
}

/// A visible face: an interior solid voxel whose neighbour across `face`
/// is not solid. The outermost padding layer informs visibility but never
/// emits faces of its own.
pub open spec fn spec_face_visible(
    voxels: Seq<WorldVoxel>,
    shape: UVec3,
    cx: int,
    cy: int,
    cz: int,
    face: VoxelFace,
) -> bool {
    let n = spec_face_normal(face);
    &&& 1 <= cx < shape.x - 1
    &&& 1 <= cy < shape.y - 1
    &&& 1 <= cz < shape.z - 1
    &&& spec_opaque_at(voxels, shape, cx, cy, cz)
    &&& !spec_opaque_at(voxels, shape, cx + n.x, cy + n.y, cz + n.z)
}

/// A stable rank for emitted quads: face-major, then row-major cell
/// order; the quad list of a mesh is strictly increasing in this rank.
pub open spec fn spec_face_index(face: VoxelFace) -> int {
    match face {
        VoxelFace::Bottom => 0,
        VoxelFace::Top => 1,
        VoxelFace::Left => 2,
        VoxelFace::Right => 3,
        VoxelFace::Back => 4,
        VoxelFace::Forward => 5,
    }
}

pub open spec fn spec_quad_rank(shape: UVec3, q: Quad) -> int {
    spec_face_index(q.face) * spec_shape_size(shape) + spec_linearize(
        shape,
        q.cell.x as int,
        q.cell.y as int,
        q.cell.z as int,
    )
}

/// The quad list is exactly the visible faces of the voxel array: every
/// listed quad is visible, every visible face is listed, and the list is
/// strictly ordered by rank (so it is uniquely determined).
pub open spec fn quads_are_visible_faces(quads: Seq<Quad>, voxels: Seq<WorldVoxel>, shape: UVec3) -> bool {
    &&& (forall|k: int|
        0 <= k < quads.len() ==> spec_face_visible(
            voxels,
            shape,
            (#[trigger] quads[k]).cell.x as int,
            quads[k].cell.y as int,
            quads[k].cell.z as int,
            quads[k].face,
        ))
    &&& (forall|cx: int, cy: int, cz: int, face: VoxelFace|
        #[trigger] spec_face_visible(voxels, shape, cx, cy, cz, face) ==> quads.contains(
            Quad { cell: UVec3 { x: cx as u32, y: cy as u32, z: cz as u32 }, face },
        ))
    &&& (forall|k: int, l: int|
        0 <= k < l < quads.len() ==> spec_quad_rank(shape, #[trigger] quads[k]) < spec_quad_rank(
            shape,
            #[trigger] quads[l],
        ))
}

/// The face scanned at step `fi` of the face-major sweep.
pub open spec fn spec_face_of_index(fi: int) -> VoxelFace {
    if fi == 0 {
        VoxelFace::Bottom
    } else if fi == 1 {
        VoxelFace::Top
    } else if fi == 2 {
        VoxelFace::Left
    } else if fi == 3 {
        VoxelFace::Right
    } else if fi == 4 {
        VoxelFace::Back
    } else {
        VoxelFace::Forward
    }
}

fn face_of_index(fi: u32) -> (r: VoxelFace)
    requires
        fi < 6,
    ensures
        r == spec_face_of_index(fi as int),
        spec_face_index(r) == fi,
{
    if fi == 0 {
        VoxelFace::Bottom
    } else if fi == 1 {
        VoxelFace::Top
    } else if fi == 2 {
        VoxelFace::Left
    } else if fi == 3 {
        VoxelFace::Right
    } else if fi == 4 {
        VoxelFace::Back
    } else {
        VoxelFace::Forward
    }
}

/// Whether the cell at the given padded coordinates holds a solid voxel.
fn opaque_at(voxels: &Vec<WorldVoxel>, shape: UVec3, cx: i64, cy: i64, cz: i64) -> (r: bool)
    requires
        shape_wf(shape),
        voxels@.len() == spec_shape_size(shape),
        -2 <= cx <= 0x1_0000,
        -2 <= cy <= 0x1_0000,
        -2 <= cz <= 0x1_0000,
    ensures
        r == spec_opaque_at(voxels@, shape, cx as int, cy as int, cz as int),
{
    if cx < 0 || cy < 0 || cz < 0 || cx >= shape.x as i64 || cy >= shape.y as i64 || cz
        >= shape.z as i64 {
        return false;
    }
    let i = linearize(shape, UVec3 { x: cx as u32, y: cy as u32, z: cz as u32 });
    voxels[i as usize].is_solid()
}

/// Face-visibility culling over the padded voxel array: emits one unit
/// quad wherever an interior solid voxel borders a non-solid cell,
/// sweeping face-major, then in row-major cell order.
#[verifier::loop_isolation(false)]
#[verifier::rlimit(100)]
pub fn find_visible_faces(voxels: &Vec<WorldVoxel>, shape: UVec3) -> (quads: Vec<Quad>)
    requires
        shape_wf(shape),
        voxels@.len() == spec_shape_size(shape),
    ensures
        quads_are_visible_faces(quads@, voxels@, shape),
{
    let size: u32 = shape_size(shape);
    let mut quads: Vec<Quad> = Vec::new();
    let mut fi: u32 = 0;
    while fi < 6
        invariant
            0 <= fi <= 6,
            forall|k: int|
                0 <= k < quads@.len() ==> spec_face_visible(
                    voxels@,
                    shape,
                    (#[trigger] quads@[k]).cell.x as int,
                    quads@[k].cell.y as int,
                    quads@[k].cell.z as int,
                    quads@[k].face,
                ),
            forall|cx: int, cy: int, cz: int, face: VoxelFace|
                #[trigger] spec_face_visible(voxels@, shape, cx, cy, cz, face)
                    && spec_face_index(face) < fi ==> quads@.contains(
                    Quad { cell: UVec3 { x: cx as u32, y: cy as u32, z: cz as u32 }, face },
                ),
            forall|k: int, l: int|
                0 <= k < l < quads@.len() ==> spec_quad_rank(shape, #[trigger] quads@[k])
                    < spec_quad_rank(shape, #[trigger] quads@[l]),
            forall|k: int|
                0 <= k < quads@.len() ==> spec_quad_rank(shape, #[trigger] quads@[k])
                    < fi * spec_shape_size(shape),
        decreases 6 - fi,
    {
        let face = face_of_index(fi);
        let n: IVec3 = crate::voxel::face_normal(face);
        let mut i: u32 = 0;
        while i < size
            invariant
                0 <= i <= size,
                face == spec_face_of_index(fi as int),
                spec_face_index(face) == fi,
                n == spec_face_normal(face),
                fi < 6,
                forall|k: int|
                    0 <= k < quads@.len() ==> spec_face_visible(
                        voxels@,
                        shape,
                        (#[trigger] quads@[k]).cell.x as int,
                        quads@[k].cell.y as int,
                        quads@[k].cell.z as int,
                        quads@[k].face,
                    ),
                forall|cx: int, cy: int, cz: int, f2: VoxelFace|
                    #[trigger] spec_face_visible(voxels@, shape, cx, cy, cz, f2) && (
                    spec_face_index(f2) < fi || (spec_face_index(f2) == fi && spec_linearize(
                        shape,
                        cx,
                        cy,
                        cz,
                    ) < i)) ==> quads@.contains(
                        Quad { cell: UVec3 { x: cx as u32, y: cy as u32, z: cz as u32 }, face: f2 },
                    ),
                forall|k: int, l: int|
                    0 <= k < l < quads@.len() ==> spec_quad_rank(shape, #[trigger] quads@[k])
                        < spec_quad_rank(shape, #[trigger] quads@[l]),
                forall|k: int|
                    0 <= k < quads@.len() ==> spec_quad_rank(shape, #[trigger] quads@[k]) < fi
                        * spec_shape_size(shape) + i,
            decreases size - i,
        {
            let cell: UVec3 = delinearize(shape, i);
            let ghost pre_quads = quads@;
            if cell.x >= 1 && cell.x < shape.x - 1 && cell.y >= 1 && cell.y < shape.y - 1
                && cell.z >= 1 && cell.z < shape.z - 1 {
                let here = opaque_at(voxels, shape, cell.x as i64, cell.y as i64, cell.z as i64);
                let there = opaque_at(
                    voxels,
                    shape,
                    cell.x as i64 + n.x as i64,
                    cell.y as i64 + n.y as i64,
                    cell.z as i64 + n.z as i64,
                );
                if here && !there {
                    quads.push(Quad { cell, face });
                }
            }
            proof {
                assert forall|cx: int, cy: int, cz: int, f2: VoxelFace|
                    #[trigger] spec_face_visible(voxels@, shape, cx, cy, cz, f2) && (
                    spec_face_index(f2) < fi || (spec_face_index(f2) == fi && spec_linearize(
                        shape,
                        cx,
                        cy,
                        cz,
                    ) < i + 1)) implies quads@.contains(
                    Quad { cell: UVec3 { x: cx as u32, y: cy as u32, z: cz as u32 }, face: f2 },
                ) by {
                    let q2 = Quad {
                        cell: UVec3 { x: cx as u32, y: cy as u32, z: cz as u32 },
                        face: f2,
                    };
                    if spec_face_index(f2) < fi || spec_linearize(shape, cx, cy, cz) < i {
                        assert(pre_quads.contains(q2));
                        let k = choose|k: int| 0 <= k < pre_quads.len() && pre_quads[k] == q2;
                        assert(quads@[k] == q2);
                    } else {
                        // This is exactly the quad scanned in this step.
                        crate::shape::lemma_linearize_injective(
                            shape,
                            cx,
                            cy,
                            cz,
                            cell.x as int,
                            cell.y as int,
                            cell.z as int,
                        );
                        assert(quads@.last() == q2);
                    }
                }
            }
            i = i + 1;
        }
        proof {
            assert((fi + 1) * spec_shape_size(shape) == fi * spec_shape_size(shape)
                + spec_shape_size(shape)) by (nonlinear_arith);
            assert forall|cx: int, cy: int, cz: int, f2: VoxelFace|
                #[trigger] spec_face_visible(voxels@, shape, cx, cy, cz, f2)
                    && spec_face_index(f2) < fi + 1 implies quads@.contains(
                Quad { cell: UVec3 { x: cx as u32, y: cy as u32, z: cz as u32 }, face: f2 },
            ) by {
                crate::shape::lemma_linearize_in_range(shape, cx, cy, cz);
            }
        }
        fi = fi + 1;
    }
    quads
}

/// The classic three-neighbour ambient-occlusion level of one corner of a
/// face: both edge neighbours occluded is darkest (0), everything clear
/// is lightest (3).
pub open spec fn spec_ao_value(side1: bool, corner: bool, side2: bool) -> u8 {
    if side1 && side2 {
        0
    } else if corner && (side1 || side2) {
        1
    } else if !side1 && !corner && !side2 {
        3
    } else {
        2
    }
}

pub fn ao_value(side1: bool, corner: bool, side2: bool) -> (r: u8)
    ensures
        r == spec_ao_value(side1, corner, side2),
{
    if side1 && side2 {
        0
    } else if corner && (side1 || side2) {
        1
    } else if !side1 && !corner && !side2 {
        3
    } else {
        2
    }
}

/// The eight cells ringing a face, in the fixed order the four corner
/// levels are derived from.
pub open spec fn spec_ao_neighbor(face: VoxelFace, k: int) -> (int, int, int) {
    match face {
        VoxelFace::Left => if k == 0 {
            (-1, 0, -1)
        } else if k == 1 {
            (-1, -1, -1)
        } else if k == 2 {
            (-1, -1, 0)
        } else if k == 3 {
            (-1, -1, 1)
        } else if k == 4 {
            (-1, 0, 1)
        } else if k == 5 {
            (-1, 1, 1)
        } else if k == 6 {
            (-1, 1, 0)
        } else {
            (-1, 1, -1)
        },
        VoxelFace::Right => if k == 0 {
            (1, 0, -1)
        } else if k == 1 {
            (1, -1, -1)
        } else if k == 2 {
            (1, -1, 0)
        } else if k == 3 {
            (1, -1, 1)
        } else if k == 4 {
            (1, 0, 1)
        } else if k == 5 {
            (1, 1, 1)
        } else if k == 6 {
            (1, 1, 0)
        } else {
            (1, 1, -1)
        },
        VoxelFace::Bottom => if k == 0 {
            (0, -1, -1)
        } else if k == 1 {
            (-1, -1, -1)
        } else if k == 2 {
            (-1, -1, 0)
        } else if k == 3 {
            (-1, -1, 1)
        } else if k == 4 {
            (0, -1, 1)
        } else if k == 5 {
            (1, -1, 1)
        } else if k == 6 {
            (1, -1, 0)
        } else {
            (1, -1, -1)
        },
        VoxelFace::Top => if k == 0 {
            (0, 1, -1)
        } else if k == 1 {
            (-1, 1, -1)
        } else if k == 2 {
            (-1, 1, 0)
        } else if k == 3 {
            (-1, 1, 1)
        } else if k == 4 {
            (0, 1, 1)
        } else if k == 5 {
            (1, 1, 1)
        } else if k == 6 {
            (1, 1, 0)
        } else {
            (1, 1, -1)
        },
        VoxelFace::Back => if k == 0 {
            (-1, 0, -1)
        } else if k == 1 {
            (-1, -1, -1)
        } else if k == 2 {
            (0, -1, -1)
        } else if k == 3 {
            (1, -1, -1)
        } else if k == 4 {
            (1, 0, -1)
        } else if k == 5 {
            (1, 1, -1)
        } else if k == 6 {
            (0, 1, -1)
        } else {
            (-1, 1, -1)
        },
        VoxelFace::Forward => if k == 0 {
            (-1, 0, 1)
        } else if k == 1 {
            (-1, -1, 1)
        } else if k == 2 {
            (0, -1, 1)
        } else if k == 3 {
            (1, -1, 1)
        } else if k == 4 {
            (1, 0, 1)
        } else if k == 5 {
            (1, 1, 1)
        } else if k == 6 {
            (0, 1, 1)
        } else {
            (-1, 1, 1)
        },
    }
}

fn ao_neighbor(face: VoxelFace, k: u32) -> (r: (i32, i32, i32))
    requires
        k < 8,
    ensures
        (r.0 as int, r.1 as int, r.2 as int) == spec_ao_neighbor(face, k as int),
        -1 <= r.0 <= 1 && -1 <= r.1 <= 1 && -1 <= r.2 <= 1,
{
    let (a, b): (i32, i32) = if k == 0 {
        (0, -1)
    } else if k == 1 {
        (-1, -1)
    } else if k == 2 {
        (-1, 0)
    } else if k == 3 {
        (-1, 1)
    } else if k == 4 {
        (0, 1)
    } else if k == 5 {
        (1, 1)
    } else if k == 6 {
        (1, 0)
    } else {
        (1, -1)
    };
    match face {
        VoxelFace::Left => (-1, a, b),
        VoxelFace::Right => (1, a, b),
        VoxelFace::Bottom => (a, -1, b),
        VoxelFace::Top => (a, 1, b),
        VoxelFace::Back => (b, a, -1),
        VoxelFace::Forward => (b, a, 1),
    }
}

/// Whether the `k`-th ring neighbour of a face is solid.
pub open spec fn spec_ao_ring(
    voxels: Seq<WorldVoxel>,
    shape: UVec3,
    cell: UVec3,
    face: VoxelFace,
    k: int,
) -> bool {
    let (ox, oy, oz) = spec_ao_neighbor(face, k);
    spec_opaque_at(voxels, shape, cell.x + ox, cell.y + oy, cell.z + oz)
}

/// The four corner ambient-occlusion levels of a face, derived from its
/// ring of eight neighbours.
pub open spec fn spec_face_aos(
    voxels: Seq<WorldVoxel>,
    shape: UVec3,
    cell: UVec3,
    face: VoxelFace,
) -> [u8; 4] {
    let n0 = spec_ao_ring(voxels, shape, cell, face, 0);
    let n1 = spec_ao_ring(voxels, shape, cell, face, 1);
    let n2 = spec_ao_ring(voxels, shape, cell, face, 2);
    let n3 = spec_ao_ring(voxels, shape, cell, face, 3);
    let n4 = spec_ao_ring(voxels, shape, cell, face, 4);
    let n5 = spec_ao_ring(voxels, shape, cell, face, 5);
    let n6 = spec_ao_ring(voxels, shape, cell, face, 6);
    let n7 = spec_ao_ring(voxels, shape, cell, face, 7);
    [
        spec_ao_value(n0, n1, n2),
        spec_ao_value(n2, n3, n4),
        spec_ao_value(n6, n7, n0),
        spec_ao_value(n4, n5, n6),
    ]
}

/// Computes the four corner ambient-occlusion levels of a face.
pub fn face_aos(voxels: &Vec<WorldVoxel>, shape: UVec3, cell: UVec3, face: VoxelFace) -> (r: [u8; 4])
    requires
        shape_wf(shape),
        voxels@.len() == spec_shape_size(shape),
        cell.x < shape.x && cell.y < shape.y && cell.z < shape.z,
    ensures
        r == spec_face_aos(voxels@, shape, cell, face),
{
    let mut ns: [bool; 8] = [false, false, false, false, false, false, false, false];
    let mut k: u32 = 0;
    while k < 8
        invariant
            0 <= k <= 8,
            cell.x < shape.x && cell.y < shape.y && cell.z < shape.z,
            shape_wf(shape),
            voxels@.len() == spec_shape_size(shape),
            forall|j: int|
                0 <= j < k ==> ns@[j] == spec_ao_ring(voxels@, shape, cell, face, j),
        decreases 8 - k,
    {
        let (ox, oy, oz) = ao_neighbor(face, k);
        let v = opaque_at(
            voxels,
            shape,
            cell.x as i64 + ox as i64,
            cell.y as i64 + oy as i64,
            cell.z as i64 + oz as i64,
        );
        ns[k as usize] = v;
        k = k + 1;
    }
    let r: [u8; 4] = [
        ao_value(ns[0], ns[1], ns[2]),
        ao_value(ns[2], ns[3], ns[4]),
        ao_value(ns[6], ns[7], ns[0]),
        ao_value(ns[4], ns[5], ns[6]),
    ];
    r
}

/// Nearest-neighbour index mapping from mesh space to data space on one
/// axis. Index zero and the last index always map to data-space zero and
/// last, so resampling never erodes the outer padding layer; interior
/// indices map proportionally, rounding half up.
pub open spec fn spec_map_nearest_1d(mesh_i: int, mesh_dim: int, data_dim: int) -> int {
    let mesh_inner = if mesh_dim - 2 >= 1 {
        mesh_dim - 2
    } else {
        1
    };
    let data_inner = if data_dim - 2 >= 1 {
        data_dim - 2
    } else {
        1
    };
    if mesh_inner == data_inner {
        mesh_i
    } else if mesh_i == 0 {
        0
    } else if mesh_i >= mesh_dim - 1 {
        data_dim - 1
    } else {
        let mesh_steps = if mesh_inner - 1 >= 1 {
            mesh_inner - 1
        } else {
            1
        };
        let data_steps = if data_inner - 1 >= 1 {
            data_inner - 1
        } else {
            1
        };
        let mapped = (2 * (mesh_i - 1) * data_steps + mesh_steps) / (2 * mesh_steps);
        if mapped + 1 <= data_dim - 1 {
            mapped + 1
        } else {
            data_dim - 1
        }
    }
}

pub fn map_nearest_1d(mesh_i: u32, mesh_dim: u32, data_dim: u32) -> (r: u32)
    requires
        3 <= mesh_dim <= 256,
        3 <= data_dim <= 256,
        mesh_i < mesh_dim,
    ensures
        r == spec_map_nearest_1d(mesh_i as int, mesh_dim as int, data_dim as int),
        r < data_dim,
{
    let mesh_inner: u32 = mesh_dim - 2;
    let data_inner: u32 = data_dim - 2;
    if mesh_inner == data_inner {
        return mesh_i;
    }
    if mesh_i == 0 {
        return 0;
    }
    if mesh_i >= mesh_dim - 1 {
        return data_dim - 1;
    }
    let mesh_steps: u32 = if mesh_inner >= 2 {
        mesh_inner - 1
    } else {
        1
    };
    let data_steps: u32 = if data_inner >= 2 {
        data_inner - 1
    } else {
        1
    };
    proof {
        assert(2 * (mesh_i - 1) * data_steps + mesh_steps <= 0x4_0000) by (nonlinear_arith)
            requires
                1 <= mesh_i <= 256,
                1 <= data_steps <= 255,
                1 <= mesh_steps <= 255,
        ;
    }
    let mapped: u32 = (2 * (mesh_i - 1) * data_steps + mesh_steps) / (2 * mesh_steps);
    proof {
        vstd::arithmetic::div_mod::lemma_div_is_ordered(
            0,
            (2 * (mesh_i - 1) * data_steps + mesh_steps) as int,
            (2 * mesh_steps) as int,
        );
    }
    if mapped + 1 <= data_dim - 1 {
        mapped + 1
    } else {
        data_dim - 1
    }
}

/// The resampled array matches the source through the nearest-neighbour
/// index mapping, cell for cell.
pub open spec fn resampled_rel(
    rs: Seq<WorldVoxel>,
    voxels: Seq<WorldVoxel>,
    data_shape: UVec3,
    mesh_shape: UVec3,
) -> bool {
    &&& rs.len() == spec_shape_size(mesh_shape)
    &&& forall|cx: int, cy: int, cz: int|
        cell_in_shape(mesh_shape, cx, cy, cz) ==> rs[#[trigger] spec_linearize(
            mesh_shape,
            cx,
            cy,
            cz,
        )] == voxels[spec_linearize(
            data_shape,
            spec_map_nearest_1d(cx, mesh_shape.x as int, data_shape.x as int),
            spec_map_nearest_1d(cy, mesh_shape.y as int, data_shape.y as int),
            spec_map_nearest_1d(cz, mesh_shape.z as int, data_shape.z as int),
        )]
}

/// Resamples a padded voxel array from the data shape to the mesh shape
/// by nearest neighbour, keeping the outer padding aligned.
#[verifier::loop_isolation(false)]
#[verifier::rlimit(100)]
pub fn resample_voxels_nearest(
    data_voxels: &Vec<WorldVoxel>,
    data_shape: UVec3,
    mesh_shape: UVec3,
) -> (r: Vec<WorldVoxel>)
    requires
        shape_wf(data_shape),
        shape_wf(mesh_shape),
        data_voxels@.len() == spec_shape_size(data_shape),
    ensures
        resampled_rel(r@, data_voxels@, data_shape, mesh_shape),
{
    let size: u32 = shape_size(mesh_shape);
    let mut out: Vec<WorldVoxel> = Vec::new();
    let mut lin: u32 = 0;
    while lin < size
        invariant
            0 <= lin <= size,
            out@.len() == lin,
            forall|cx: int, cy: int, cz: int|
                cell_in_shape(mesh_shape, cx, cy, cz) && spec_linearize(mesh_shape, cx, cy, cz)
                    < lin ==> out@[#[trigger] spec_linearize(mesh_shape, cx, cy, cz)]
                    == data_voxels@[spec_linearize(
                    data_shape,
                    spec_map_nearest_1d(cx, mesh_shape.x as int, data_shape.x as int),
                    spec_map_nearest_1d(cy, mesh_shape.y as int, data_shape.y as int),
                    spec_map_nearest_1d(cz, mesh_shape.z as int, data_shape.z as int),
                )],
        decreases size - lin,
    {
        let cell: UVec3 = delinearize(mesh_shape, lin);
        let sx: u32 = map_nearest_1d(cell.x, mesh_shape.x, data_shape.x);
        let sy: u32 = map_nearest_1d(cell.y, mesh_shape.y, data_shape.y);
        let sz: u32 = map_nearest_1d(cell.z, mesh_shape.z, data_shape.z);
        let src = linearize(data_shape, UVec3 { x: sx, y: sy, z: sz });
        let ghost pre_out = out@;
        out.push(data_voxels[src as usize]);
        proof {
            assert forall|cx: int, cy: int, cz: int|
                cell_in_shape(mesh_shape, cx, cy, cz) && spec_linearize(mesh_shape, cx, cy, cz)
                    < lin + 1 implies out@[#[trigger] spec_linearize(mesh_shape, cx, cy, cz)]
                == data_voxels@[spec_linearize(
                data_shape,
                spec_map_nearest_1d(cx, mesh_shape.x as int, data_shape.x as int),
                spec_map_nearest_1d(cy, mesh_shape.y as int, data_shape.y as int),
                spec_map_nearest_1d(cz, mesh_shape.z as int, data_shape.z as int),
            )] by {
                crate::shape::lemma_linearize_in_range(mesh_shape, cx, cy, cz);
                let l = spec_linearize(mesh_shape, cx, cy, cz);
                if l == lin {
                    crate::shape::lemma_linearize_injective(
                        mesh_shape,
                        cx,
                        cy,
                        cz,
                        cell.x as int,
                        cell.y as int,
                        cell.z as int,
                    );
                    assert(cx == cell.x && cy == cell.y && cz == cell.z);
                    assert(out@[l] == data_voxels@[src as int]);
                    assert(sx == spec_map_nearest_1d(cx, mesh_shape.x as int, data_shape.x as int)
                        && sy == spec_map_nearest_1d(cy, mesh_shape.y as int, data_shape.y as int)
                        && sz == spec_map_nearest_1d(cz, mesh_shape.z as int, data_shape.z as int));
                } else {
                    assert(cell_in_shape(mesh_shape, cx, cy, cz) && spec_linearize(
                        mesh_shape,
                        cx,
                        cy,
                        cz,
                    ) < lin);
                    assert(pre_out[l] == data_voxels@[spec_linearize(
                        data_shape,
                        spec_map_nearest_1d(cx, mesh_shape.x as int, data_shape.x as int),
                        spec_map_nearest_1d(cy, mesh_shape.y as int, data_shape.y as int),
                        spec_map_nearest_1d(cz, mesh_shape.z as int, data_shape.z as int),
                    )]);
                    assert(out@[l] == pre_out[l]);
                }
            }
        }
        lin = lin + 1;
    }
    proof {
        assert forall|cx: int, cy: int, cz: int|
            cell_in_shape(mesh_shape, cx, cy, cz) implies out@[#[trigger] spec_linearize(
            mesh_shape,
            cx,
            cy,
            cz,
        )] == data_voxels@[spec_linearize(
            data_shape,
            spec_map_nearest_1d(cx, mesh_shape.x as int, data_shape.x as int),
            spec_map_nearest_1d(cy, mesh_shape.y as int, data_shape.y as int),
            spec_map_nearest_1d(cz, mesh_shape.z as int, data_shape.z as int),
        )] by {
            crate::shape::lemma_linearize_in_range(mesh_shape, cx, cy, cz);
        }
    }
    out
}

/// The lattice offsets (each zero or one) of the four corners of a face,
/// in emission order, and the matching face-local texture coordinates.
pub open spec fn spec_quad_corner(face: VoxelFace, j: int) -> (int, int, int) {
    match face {
        VoxelFace::Left => if j == 0 {
            (0, 0, 0)
        } else if j == 1 {
            (0, 0, 1)
        } else if j == 2 {
            (0, 1, 0)
        } else {
            (0, 1, 1)
        },
        VoxelFace::Right => if j == 0 {
            (1, 0, 0)
        } else if j == 1 {
            (1, 1, 0)
        } else if j == 2 {
            (1, 0, 1)
        } else {
            (1, 1, 1)
        },
        VoxelFace::Bottom => if j == 0 {
            (0, 0, 0)
        } else if j == 1 {
            (1, 0, 0)
        } else if j == 2 {
            (0, 0, 1)
        } else {
            (1, 0, 1)
        },
        VoxelFace::Top => if j == 0 {
            (0, 1, 0)
        } else if j == 1 {
            (0, 1, 1)
        } else if j == 2 {
            (1, 1, 0)
        } else {
            (1, 1, 1)
        },
        VoxelFace::Back => if j == 0 {
            (0, 0, 0)
        } else if j == 1 {
            (0, 1, 0)
        } else if j == 2 {
            (1, 0, 0)
        } else {
            (1, 1, 0)
        },
        VoxelFace::Forward => if j == 0 {
            (0, 0, 1)
        } else if j == 1 {
            (1, 0, 1)
        } else if j == 2 {
            (0, 1, 1)
        } else {
            (1, 1, 1)
        },
    }
}

fn quad_corner(face: VoxelFace, j: u32) -> (r: (u32, u32, u32))
    requires
        j < 4,
    ensures
        (r.0 as int, r.1 as int, r.2 as int) == spec_quad_corner(face, j as int),
        r.0 <= 1 && r.1 <= 1 && r.2 <= 1,
{
    let (a, b): (u32, u32) = if j == 0 {
        (0, 0)
    } else if j == 1 {
        (0, 1)
    } else if j == 2 {
        (1, 0)
    } else {
        (1, 1)
    };
    match face {
        VoxelFace::Left => (0, a, b),
        VoxelFace::Right => (1, b, a),
        VoxelFace::Bottom => (b, 0, a),
        VoxelFace::Top => (0 + a, 1, b),
        VoxelFace::Back => (a, b, 0),
        VoxelFace::Forward => (b, a, 1),
    }
}

/// The face-local texture coordinate of corner `j`.
pub open spec fn spec_corner_uv(j: int) -> (u32, u32) {
    if j == 0 {
        (0u32, 0u32)
    } else if j == 1 {
        (1u32, 0u32)
    } else if j == 2 {
        (0u32, 1u32)
    } else {
        (1u32, 1u32)
    }
}

/// The triangle-list index pattern: each quad contributes two triangles
/// over its four vertices, with a consistent winding.
pub open spec fn spec_quad_index_offset(t: int) -> int {
    let j = t % 6;
    if j == 0 {
        0
    } else if j == 1 {
        1
    } else if j == 2 {
        2
    } else if j == 3 {
        2
    } else if j == 4 {
        1
    } else {
        3
    }
}

/// The vertex and index streams encode exactly the given quads over the
/// given voxel array: four vertices per quad at the face's lattice
/// corners, with the face normal, corner texture coordinates, the
/// ambient-occlusion level of that corner, and the texture triple the
/// mapper gives for the source voxel's material (zero for a non-solid
/// source); six indices per quad forming two triangles.
pub open spec fn mesh_of_quads(
    vertices: Seq<MeshVertex>,
    indices: Seq<u32>,
    quads: Seq<Quad>,
    voxels: Seq<WorldVoxel>,
    shape: UVec3,
    texf: spec_fn(MaterialIndex) -> [u32; 3],
) -> bool {
    &&& vertices.len() == 4 * quads.len()
    &&& indices.len() == 6 * quads.len()
    &&& (forall|v: int|
        0 <= v < vertices.len() ==> {
            let q = quads[v / 4];
            let j = v % 4;
            let (ox, oy, oz) = spec_quad_corner(q.face, j);
            &&& (#[trigger] vertices[v]).cell == (UVec3 {
                x: (q.cell.x + ox) as u32,
                y: (q.cell.y + oy) as u32,
                z: (q.cell.z + oz) as u32,
            })
            &&& vertices[v].normal == spec_face_normal(q.face)
            &&& vertices[v].uv == spec_corner_uv(j)
            &&& vertices[v].ao_level == spec_face_aos(voxels, shape, q.cell, q.face)[j]
            &&& vertices[v].tex_indices == (match voxels[spec_linearize(
                shape,
                q.cell.x as int,
                q.cell.y as int,
                q.cell.z as int,
            )] {
                WorldVoxel::Solid(m) => texf(m),
                _ => [0u32, 0u32, 0u32],
            })
        })
    &&& (forall|t: int|
        0 <= t < indices.len() ==> (#[trigger] indices[t]) == 4 * (t / 6)
            + spec_quad_index_offset(t))
}

/// Builds the vertex and index streams for a list of visible faces.
#[verifier::loop_isolation(false)]
#[verifier::rlimit(100)]
#[verifier::spinoff_prover]
pub fn mesh_from_quads<M: TextureIndexMapper>(
    quads: &Vec<Quad>,
    voxels: &Vec<WorldVoxel>,
    shape: UVec3,
    texture_index_mapper: &M,
) -> (r: RenderableMesh)
    requires
        shape_wf(shape),
        voxels@.len() == spec_shape_size(shape),
        quads@.len() <= 0x800_0000,
        forall|k: int|
            0 <= k < quads@.len() ==> cell_in_shape(
                shape,
                (#[trigger] quads@[k]).cell.x as int,
                quads@[k].cell.y as int,
                quads@[k].cell.z as int,
            ),
    ensures
        mesh_of_quads(
            r.vertices@,
            r.indices@,
            quads@,
            voxels@,
            shape,
            (|m: MaterialIndex| texture_index_mapper.spec_texture_indices(m)),
        ),
        r.mesh_shape == shape,
{
    let ghost texf = (|m: MaterialIndex| texture_index_mapper.spec_texture_indices(m));
    let mut vertices: Vec<MeshVertex> = Vec::new();
    let mut indices: Vec<u32> = Vec::new();
    let mut qi: usize = 0;
    while qi < quads.len()
        invariant
            0 <= qi <= quads@.len(),
            vertices@.len() == 4 * qi,
            indices@.len() == 6 * qi,
            forall|v: int|
                0 <= v < vertices@.len() ==> {
                    let q = quads@[v / 4];
                    let j = v % 4;
                    let (ox, oy, oz) = spec_quad_corner(q.face, j);
                    &&& (#[trigger] vertices@[v]).cell == (UVec3 {
                        x: (q.cell.x + ox) as u32,
                        y: (q.cell.y + oy) as u32,
                        z: (q.cell.z + oz) as u32,
                    })
                    &&& vertices@[v].normal == spec_face_normal(q.face)
                    &&& vertices@[v].uv == spec_corner_uv(j)
                    &&& vertices@[v].ao_level == spec_face_aos(voxels@, shape, q.cell, q.face)[j]
                    &&& vertices@[v].tex_indices == (match voxels@[spec_linearize(
                        shape,
                        q.cell.x as int,
                        q.cell.y as int,
                        q.cell.z as int,
                    )] {
                        WorldVoxel::Solid(m) => texf(m),
                        _ => [0u32, 0u32, 0u32],
                    })
                },
            forall|t: int|
                0 <= t < indices@.len() ==> (#[trigger] indices@[t]) == 4 * (t / 6)
                    + spec_quad_index_offset(t),
        decreases quads@.len() - qi,
    {
        let quad: Quad = quads[qi];
        let normal: IVec3 = crate::voxel::face_normal(quad.face);
        let ao: [u8; 4] = face_aos(voxels, shape, quad.cell, quad.face);
        let vi = linearize(shape, quad.cell);
        let tex: [u32; 3] = match voxels[vi as usize] {
            WorldVoxel::Solid(mt) => texture_index_mapper.texture_indices(mt),
            _ => [0, 0, 0],
        };
        proof {
            assert(tex == (match voxels@[vi as int] {
                WorldVoxel::Solid(m) => texf(m),
                _ => [0u32, 0u32, 0u32],
            }));
        }
        let base: u32 = (4 * qi) as u32;
        let ghost pre_vertices = vertices@;
        let ghost pre_indices = indices@;
        let mut j: u32 = 0;
        while j < 4
            invariant
                0 <= j <= 4,
                vertices@.len() == 4 * qi + j,
                vertices@ =~= pre_vertices + vertices@.skip(4 * qi as int),
                pre_vertices.len() == 4 * qi,
                forall|v: int| 0 <= v < 4 * qi ==> vertices@[v] == pre_vertices[v],
                forall|jj: int|
                    0 <= jj < j ==> {
                        let (ox, oy, oz) = spec_quad_corner(quad.face, jj);
                        &&& (#[trigger] vertices@[4 * (qi as int) + jj]).cell == (UVec3 {
                            x: (quad.cell.x + ox) as u32,
                            y: (quad.cell.y + oy) as u32,
                            z: (quad.cell.z + oz) as u32,
                        })
                        &&& vertices@[4 * (qi as int) + jj].normal == spec_face_normal(quad.face)
                        &&& vertices@[4 * (qi as int) + jj].uv == spec_corner_uv(jj)
                        &&& vertices@[4 * (qi as int) + jj].ao_level == spec_face_aos(
                            voxels@,
                            shape,
                            quad.cell,
                            quad.face,
                        )[jj]
                        &&& vertices@[4 * (qi as int) + jj].tex_indices == tex
                    },
            decreases 4 - j,
        {
            let (ox, oy, oz) = quad_corner(quad.face, j);
            let uv: (u32, u32) = if j == 0 {
                (0, 0)
            } else if j == 1 {
                (1, 0)
            } else if j == 2 {
                (0, 1)
            } else {
                (1, 1)
            };
            let level: u8 = ao[j as usize];
            vertices.push(
                MeshVertex {
                    cell: UVec3 {
                        x: quad.cell.x + ox,
                        y: quad.cell.y + oy,
                        z: quad.cell.z + oz,
                    },
                    normal,
                    uv,
                    ao_level: level,
                    tex_indices: tex,
                },
            );
            j = j + 1;
        }
        indices.push(base);
        indices.push(base + 1);
        indices.push(base + 2);
        indices.push(base + 2);
        indices.push(base + 1);
        indices.push(base + 3);
        proof {
            assert forall|v: int| 0 <= v < vertices@.len() implies {
                let q = quads@[v / 4];
                let j2 = v % 4;
                let (ox, oy, oz) = spec_quad_corner(q.face, j2);
                &&& (#[trigger] vertices@[v]).cell == (UVec3 {
                    x: (q.cell.x + ox) as u32,
                    y: (q.cell.y + oy) as u32,
                    z: (q.cell.z + oz) as u32,
                })
                &&& vertices@[v].normal == spec_face_normal(q.face)
                &&& vertices@[v].uv == spec_corner_uv(j2)
                &&& vertices@[v].ao_level == spec_face_aos(voxels@, shape, q.cell, q.face)[j2]
                &&& vertices@[v].tex_indices == (match voxels@[spec_linearize(
                    shape,
                    q.cell.x as int,
                    q.cell.y as int,
                    q.cell.z as int,
                )] {
                    WorldVoxel::Solid(m) => texf(m),
                    _ => [0u32, 0u32, 0u32],
                })
            } by {
                if v < 4 * qi {
                    assert(vertices@[v] == pre_vertices[v]);
                    assert(4 * (v / 4) < 4 * qi) by (nonlinear_arith)
                        requires
                            0 <= v < 4 * qi,
                    ;
                    assert(vertices@[4 * (v / 4)] == pre_vertices[4 * (v / 4)]);
                } else {
                    let j2 = v - 4 * (qi as int);
                    vstd::arithmetic::div_mod::lemma_fundamental_div_mod_converse(
                        v,
                        4,
                        qi as int,
                        j2,
                    );
                }
            }
            assert forall|t: int| 0 <= t < indices@.len() implies (#[trigger] indices@[t]) == 4
                * (t / 6) + spec_quad_index_offset(t) by {
                if t < 6 * qi {
                    assert(indices@[t] == pre_indices[t]);
                } else {
                    let j2 = t - 6 * (qi as int);
                    vstd::arithmetic::div_mod::lemma_fundamental_div_mod_converse(
                        t,
                        6,
                        qi as int,
                        j2,
                    );
                }
            }
        }
        qi = qi + 1;
    }
    RenderableMesh { vertices, indices, mesh_shape: shape }
}

/// Generates the renderable mesh of a padded voxel array: resamples to
/// the mesh shape when it differs from the data shape, finds the visible
/// faces, and builds the vertex and index streams.
pub fn generate_chunk_mesh_for_shape<M: TextureIndexMapper>(
    voxels: &Vec<WorldVoxel>,
    data_shape: UVec3,
    mesh_shape: UVec3,
    texture_index_mapper: &M,
) -> (r: RenderableMesh)
    requires
        shape_wf(data_shape),
        shape_wf(mesh_shape),
        voxels@.len() == spec_shape_size(data_shape),
    ensures
        r.mesh_shape == mesh_shape,
        exists|rs: Seq<WorldVoxel>, q: Seq<Quad>|
            {
                &&& #[trigger] resampled_rel(rs, voxels@, data_shape, mesh_shape)
                &&& #[trigger] quads_are_visible_faces(q, rs, mesh_shape)
                &&& mesh_of_quads(
                    r.vertices@,
                    r.indices@,
                    q,
                    rs,
                    mesh_shape,
                    (|m: MaterialIndex| texture_index_mapper.spec_texture_indices(m)),
                )
            },
{
    let resampled: Vec<WorldVoxel> = resample_voxels_nearest(voxels, data_shape, mesh_shape);
    let quads = find_visible_faces(&resampled, mesh_shape);
    proof {
        crate::shape::lemma_shape_size_bounds(mesh_shape);
        lemma_visible_quads_bounded(quads@, resampled@, mesh_shape);
    }
    let r = mesh_from_quads(&quads, &resampled, mesh_shape, texture_index_mapper);
    proof {
        assert(resampled_rel(resampled@, voxels@, data_shape, mesh_shape) && quads_are_visible_faces(
            quads@,
            resampled@,
            mesh_shape,
        ) && mesh_of_quads(
            r.vertices@,
            r.indices@,
            quads@,
            resampled@,
            mesh_shape,
            (|m: MaterialIndex| texture_index_mapper.spec_texture_indices(m)),
        ));
    }
    r
}

/// A strictly rank-ordered quad list cannot be longer than six times the
/// cell count.
proof fn lemma_visible_quads_bounded(quads: Seq<Quad>, voxels: Seq<WorldVoxel>, shape: UVec3)
    requires
        shape_wf(shape),
        quads_are_visible_faces(quads, voxels, shape),
    ensures
        quads.len() <= 6 * spec_shape_size(shape),
    decreases quads.len(),
{
    if quads.len() > 6 * spec_shape_size(shape) {
        // Ranks are distinct values in [0, 6 * size), so by strict
        // ordering the first and last differ by at least len - 1.
        let n = quads.len() as int;
        lemma_rank_spread(quads, voxels, shape, 0, n - 1);
        assert(spec_face_visible(
            voxels,
            shape,
            quads[0].cell.x as int,
            quads[0].cell.y as int,
            quads[0].cell.z as int,
            quads[0].face,
        ));
        crate::shape::lemma_linearize_in_range(
            shape,
            quads[0].cell.x as int,
            quads[0].cell.y as int,
            quads[0].cell.z as int,
        );
        crate::shape::lemma_linearize_in_range(
            shape,
            quads[n - 1].cell.x as int,
            quads[n - 1].cell.y as int,
            quads[n - 1].cell.z as int,
        );
    }
}

/// In a strictly rank-ordered quad list, ranks grow at least as fast as
/// indices.
proof fn lemma_rank_spread(quads: Seq<Quad>, voxels: Seq<WorldVoxel>, shape: UVec3, k: int, l: int)
    requires
        quads_are_visible_faces(quads, voxels, shape),
        0 <= k <= l < quads.len(),
    ensures
        spec_quad_rank(shape, quads[l]) - spec_quad_rank(shape, quads[k]) >= l - k,
    decreases l - k,
{
    if k < l {
        lemma_rank_spread(quads, voxels, shape, k, l - 1);
    }
}

/// Generates the renderable mesh of a padded voxel array at the default
/// chunk shape.
pub fn generate_chunk_mesh<M: TextureIndexMapper>(
    voxels: &Vec<WorldVoxel>,
    texture_index_mapper: &M,
) -> (r: RenderableMesh)
    requires
        voxels@.len() == spec_shape_size(
            UVec3 {
                x: crate::shape::PADDED_CHUNK_SIZE,
                y: crate::shape::PADDED_CHUNK_SIZE,
                z: crate::shape::PADDED_CHUNK_SIZE,
            },
        ),
    ensures
        r.mesh_shape == (UVec3 {
            x: crate::shape::PADDED_CHUNK_SIZE,
            y: crate::shape::PADDED_CHUNK_SIZE,
            z: crate::shape::PADDED_CHUNK_SIZE,
        }),
        exists|rs: Seq<WorldVoxel>, q: Seq<Quad>|
            {
                &&& #[trigger] resampled_rel(
                    rs,
                    voxels@,
                    UVec3 {
                        x: crate::shape::PADDED_CHUNK_SIZE,
                        y: crate::shape::PADDED_CHUNK_SIZE,
                        z: crate::shape::PADDED_CHUNK_SIZE,
                    },
                    r.mesh_shape,
                )
                &&& #[trigger] quads_are_visible_faces(q, rs, r.mesh_shape)
                &&& mesh_of_quads(
                    r.vertices@,
                    r.indices@,
                    q,
                    rs,
                    r.mesh_shape,
                    (|m: MaterialIndex| texture_index_mapper.spec_texture_indices(m)),
                )
            },
{
    let shape = UVec3 {
        x: crate::shape::PADDED_CHUNK_SIZE,
        y: crate::shape::PADDED_CHUNK_SIZE,
        z: crate::shape::PADDED_CHUNK_SIZE,
    };
    generate_chunk_mesh_for_shape(voxels, shape, shape, texture_index_mapper)
}

} // verus!
