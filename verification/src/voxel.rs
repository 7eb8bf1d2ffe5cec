use vstd::prelude::*;

verus! {

/// Material index stored inside a solid voxel.
pub type MaterialIndex = u8;

/// One cell of the voxel grid.
///
/// `Unset` marks a cell that was never generated (a sentinel), `Air` a
/// generated but empty cell, and `Solid` an opaque cell carrying its
/// material index.
#[derive(Copy, Clone, Debug, PartialEq, Eq, Hash, Structural)]
pub enum WorldVoxel {
    Unset,
    Air,
    Solid(MaterialIndex),
}

impl WorldVoxel {
    pub fn is_unset(&self) -> (r: bool)
        ensures
            r == (*self == WorldVoxel::Unset),
    {
        *self == WorldVoxel::Unset
    }

    pub fn is_air(&self) -> (r: bool)
        ensures
            r == (*self == WorldVoxel::Air),
    {
        *self == WorldVoxel::Air
    }

    pub fn is_solid(&self) -> (r: bool)
        ensures
            r == (*self is Solid),
    {
        matches!(self, WorldVoxel::Solid(_))
    }

    /// True for the cells that count as filled during generation and that
    /// occlude faces during meshing: exactly the solid ones.
    pub open spec fn spec_is_opaque(self) -> bool {
        self is Solid
    }
}

impl Default for WorldVoxel {
    fn default() -> (r: Self)
        ensures
            r == WorldVoxel::Unset,
    {
        WorldVoxel::Unset
    }
}

/// The face through which a traversal or ray entered a voxel.
///
/// The very first voxel of a trace is entered through no face at all;
/// traversal results carry an `Option<VoxelFace>` for that reason.
#[derive(Eq, PartialEq, Copy, Clone, Debug, Structural)]
pub enum VoxelFace {
    Bottom,
    Top,
    Left,
    Right,
    Back,
    Forward,
}

/// The outward unit normal of the face: the direction against which a
/// ray entering through this face was travelling.
pub open spec fn spec_face_normal(f: VoxelFace) -> crate::math::IVec3 {
    match f {
        VoxelFace::Bottom => crate::math::IVec3 { x: 0, y: -1 as i32, z: 0 },
        VoxelFace::Top => crate::math::IVec3 { x: 0, y: 1, z: 0 },
        VoxelFace::Left => crate::math::IVec3 { x: -1 as i32, y: 0, z: 0 },
        VoxelFace::Right => crate::math::IVec3 { x: 1, y: 0, z: 0 },
        VoxelFace::Back => crate::math::IVec3 { x: 0, y: 0, z: -1 as i32 },
        VoxelFace::Forward => crate::math::IVec3 { x: 0, y: 0, z: 1 },
    }
}

/// The outward unit normal of the face.
pub fn face_normal(f: VoxelFace) -> (r: crate::math::IVec3)
    ensures
        r == spec_face_normal(f),
{
    match f {
        VoxelFace::Bottom => crate::math::IVec3 { x: 0, y: -1 as i32, z: 0 },
        VoxelFace::Top => crate::math::IVec3 { x: 0, y: 1, z: 0 },
        VoxelFace::Left => crate::math::IVec3 { x: -1 as i32, y: 0, z: 0 },
        VoxelFace::Right => crate::math::IVec3 { x: 1, y: 0, z: 0 },
        VoxelFace::Back => crate::math::IVec3 { x: 0, y: 0, z: -1 as i32 },
        VoxelFace::Forward => crate::math::IVec3 { x: 0, y: 0, z: 1 },
    }
}

} // verus!
