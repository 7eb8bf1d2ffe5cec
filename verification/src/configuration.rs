use vstd::prelude::*;

use crate::math::{FxVec3, IVec3, UVec3};
use crate::voxel::{MaterialIndex, WorldVoxel};

verus! {

/// How a chunk's voxel data is produced when it is (re)generated.
#[derive(Clone, Copy, PartialEq, Eq, Debug, Structural)]
pub enum ChunkRegenerateStrategy {
    /// Attempt to reuse previously generated chunk data before invoking the
    /// voxel lookup delegate.
    Reuse,
    /// Always regenerate voxel data using the voxel lookup delegate.
    Repopulate,
}

impl Default for ChunkRegenerateStrategy {
    fn default() -> (r: Self)
        ensures
            r == ChunkRegenerateStrategy::Reuse,
    {
        ChunkRegenerateStrategy::Reuse
    }
}

/// When loaded chunks are tagged for despawning.
#[derive(Clone, Copy, PartialEq, Eq, Debug, Structural)]
pub enum ChunkDespawnStrategy {
    /// Despawn chunks that are farther than the spawning distance from the
    /// camera, or outside of the viewport.
    FarAwayOrOutOfView,
    /// Only despawn chunks that are farther than the spawning distance.
    FarAway,
}

impl Default for ChunkDespawnStrategy {
    fn default() -> (r: Self)
        ensures
            r == ChunkDespawnStrategy::FarAwayOrOutOfView,
    {
        ChunkDespawnStrategy::FarAwayOrOutOfView
    }
}

/// Which of the discovered chunk coordinates are queued for spawning.
#[derive(Clone, Copy, PartialEq, Eq, Debug, Structural)]
pub enum ChunkSpawnStrategy {
    /// Spawn chunks that are within the spawning distance of the camera and
    /// also inside the viewport.
    CloseAndInView,
    /// Spawn every chunk within the spawning distance, in view or not; the
    /// discovery flood fill then visits all 26 neighbours of a new chunk.
    Close,
}

impl Default for ChunkSpawnStrategy {
    fn default() -> (r: Self)
        ensures
            r == ChunkSpawnStrategy::CloseAndInView,
    {
        ChunkSpawnStrategy::CloseAndInView
    }
}

/// The world definition supplies a voxel for every world coordinate it is
/// asked about; the previous voxel at that position, where one is known, is
/// handed along so that generators can resample stably.
///
/// Implemented by the host application; the generation task promises
/// nothing about the returned values.
pub trait VoxelLookup {
    fn lookup(&mut self, pos: IVec3, previous: Option<WorldVoxel>) -> WorldVoxel;
}

/// Maps a voxel material to the three texture-array indices used for the
/// top, the sides and the bottom of a block.
///
/// Implemented by the host application; must behave as a pure function,
/// which the implementation states by giving `spec_texture_indices` and
/// proving `texture_indices` returns it.
pub trait TextureIndexMapper {
    spec fn spec_texture_indices(&self, material: MaterialIndex) -> [u32; 3];

    fn texture_indices(&self, material: MaterialIndex) -> (r: [u32; 3])
        ensures
            r == self.spec_texture_indices(material),
    ;
}

/// A custom chunk mesher: given the padded voxel array and the data and
/// mesh shapes, produces the renderable mesh and, optionally, a
/// chunk-specific bundle of auxiliary data (as plain bytes) that rides
/// along with the mesh through the cache.
///
/// Implemented by the host application when the built-in mesher is not
/// wanted; nothing is promised about a custom mesher's output.
pub trait ChunkMeshingDelegate {
    fn mesh_chunk(
        &mut self,
        voxels: &Vec<WorldVoxel>,
        data_shape: UVec3,
        mesh_shape: UVec3,
    ) -> (crate::meshing::RenderableMesh, Option<Vec<u8>>);
}

/// Chooses the level of detail of a chunk and the padded shapes used for
/// its data and its mesh at each level.
///
/// Implemented by the host application; shapes outside the supported
/// range are replaced by the default padded chunk shape.
pub trait LodSettings {
    fn chunk_lod(&self, chunk_position: IVec3, camera_chunk: IVec3) -> u8;

    fn chunk_data_shape(&self, lod: u8) -> UVec3;

    fn chunk_meshing_shape(&self, lod: u8) -> UVec3;
}

/// Tells the scheduler whether a chunk intersects the current view
/// volume. An implementation states its view test as
/// `spec_chunk_in_view` and proves `chunk_in_view` returns it, so the
/// scheduler's contracts can speak of visibility exactly; hosts
/// configure one of the library's implementations (`ConeVisibility`
/// around their camera, or `DefaultWorld` for no culling) with plain
/// values.
pub trait ChunkVisibility {
    spec fn spec_chunk_in_view(&self, chunk: IVec3) -> bool;

    fn chunk_in_view(&self, chunk: IVec3) -> (r: bool)
        ensures
            r == self.spec_chunk_in_view(chunk),
    ;
}

/// A coarse, conservative view test around a camera given by fixed-point
/// position and forward direction: a chunk is in view unless the
/// direction from the camera to the chunk's centre points clearly
/// against the forward direction (more than one chunk edge behind the
/// camera plane, for a unit-scaled forward vector). A camera outside the
/// supported coordinate range culls nothing.
pub struct ConeVisibility {
    pub position: FxVec3,
    pub forward: FxVec3,
}

/// The camera ranges under which the cone test is exact: the position
/// within the traceable world, the forward direction of at most sixteen
/// voxels per unit step.
pub open spec fn cone_camera_in_range(position: FxVec3, forward: FxVec3) -> bool {
    &&& -0x4000_0000_0000 <= position.x <= 0x4000_0000_0000
    &&& -0x4000_0000_0000 <= position.y <= 0x4000_0000_0000
    &&& -0x4000_0000_0000 <= position.z <= 0x4000_0000_0000
    &&& -0x10_0000 <= forward.x <= 0x10_0000
    &&& -0x10_0000 <= forward.y <= 0x10_0000
    &&& -0x10_0000 <= forward.z <= 0x10_0000
}

/// The signed view depth of a chunk's centre relative to the camera: the
/// dot product of (centre - position) with the forward direction, in
/// squared fixed-point units.
pub open spec fn spec_view_depth(position: FxVec3, forward: FxVec3, chunk: IVec3) -> int {
    let cx = chunk.x * 32 * 65536 + 16 * 65536 - position.x;
    let cy = chunk.y * 32 * 65536 + 16 * 65536 - position.y;
    let cz = chunk.z * 32 * 65536 + 16 * 65536 - position.z;
    cx * forward.x + cy * forward.y + cz * forward.z
}

impl ChunkVisibility for ConeVisibility {
    open spec fn spec_chunk_in_view(&self, chunk: IVec3) -> bool {
        if cone_camera_in_range(self.position, self.forward) {
            spec_view_depth(self.position, self.forward, chunk) >= -(32 * 65536 * 65536)
        } else {
            true
        }
    }

    fn chunk_in_view(&self, chunk: IVec3) -> (r: bool) {
        let p = self.position;
        let f = self.forward;
        if p.x < -0x4000_0000_0000 || p.x > 0x4000_0000_0000 || p.y < -0x4000_0000_0000 || p.y
            > 0x4000_0000_0000 || p.z < -0x4000_0000_0000 || p.z > 0x4000_0000_0000 || f.x
            < -0x10_0000 || f.x > 0x10_0000 || f.y < -0x10_0000 || f.y > 0x10_0000 || f.z
            < -0x10_0000 || f.z > 0x10_0000 {
            return true;
        }
        let cx: i128 = (chunk.x as i128) * 32 * 65536 + 16 * 65536 - p.x as i128;
        let cy: i128 = (chunk.y as i128) * 32 * 65536 + 16 * 65536 - p.y as i128;
        let cz: i128 = (chunk.z as i128) * 32 * 65536 + 16 * 65536 - p.z as i128;
        proof {
            crate::math::lemma_product_bound(
                cx as int,
                f.x as int,
                0x40_0000_0000_0000,
                0x10_0000,
            );
            crate::math::lemma_product_bound(
                cy as int,
                f.y as int,
                0x40_0000_0000_0000,
                0x10_0000,
            );
            crate::math::lemma_product_bound(
                cz as int,
                f.z as int,
                0x40_0000_0000_0000,
                0x10_0000,
            );
            assert((cx as int) * (f.x as int) + (cy as int) * (f.y as int) + (cz as int) * (
            f.z as int) == spec_view_depth(p, f, chunk));
        }
        let depth: i128 = cx * (f.x as i128) + cy * (f.y as i128) + cz * (f.z as i128);
        depth >= -(32i128 * 65536 * 65536)
    }
}

/// Caller-settable knobs of the spawn/despawn scheduler.
#[derive(Clone, Copy, Debug)]
pub struct VoxelWorldConfig {
    /// Maximum distance in chunks at which chunks spawn.
    pub spawning_distance: u32,
    /// Radius in chunks around the camera that always stays spawned.
    pub min_despawn_distance: u32,
    pub despawn_strategy: ChunkDespawnStrategy,
    pub spawn_strategy: ChunkSpawnStrategy,
    /// Hard cap on how many chunks may be queued for spawning per tick.
    pub max_spawn_per_frame: usize,
    /// Number of discovery rays cast per tick.
    pub spawning_rays: usize,
    /// How far outside the viewport (in pixels) discovery rays may start.
    pub spawning_ray_margin: u32,
    pub regenerate_strategy: ChunkRegenerateStrategy,
}

impl Default for VoxelWorldConfig {
    fn default() -> (r: Self)
        ensures
            r.spawning_distance == 10,
            r.min_despawn_distance == 1,
            r.despawn_strategy == ChunkDespawnStrategy::FarAwayOrOutOfView,
            r.spawn_strategy == ChunkSpawnStrategy::CloseAndInView,
            r.max_spawn_per_frame == 10000,
            r.spawning_rays == 100,
            r.spawning_ray_margin == 25,
            r.regenerate_strategy == ChunkRegenerateStrategy::Reuse,
    {
        VoxelWorldConfig {
            spawning_distance: 10,
            min_despawn_distance: 1,
            despawn_strategy: ChunkDespawnStrategy::FarAwayOrOutOfView,
            spawn_strategy: ChunkSpawnStrategy::CloseAndInView,
            max_spawn_per_frame: 10000,
            spawning_rays: 100,
            spawning_ray_margin: 25,
            regenerate_strategy: ChunkRegenerateStrategy::Reuse,
        }
    }
}

/// The configuration of the stock example world: identity-like texture
/// mapping for the first few materials.
#[derive(Clone, Copy, Debug, Default)]
pub struct DefaultWorld;

impl TextureIndexMapper for DefaultWorld {
    open spec fn spec_texture_indices(&self, material: MaterialIndex) -> [u32; 3] {
        spec_default_texture_indices(material)
    }

    fn texture_indices(&self, material: MaterialIndex) -> (r: [u32; 3]) {
        match material {
            0 => [0, 0, 0],
            1 => [1, 1, 1],
            2 => [2, 2, 2],
            3 => [3, 3, 3],
            _ => [0, 0, 0],
        }
    }
}

impl LodSettings for DefaultWorld {
    fn chunk_lod(&self, _chunk_position: IVec3, _camera_chunk: IVec3) -> u8 {
        0
    }

    fn chunk_data_shape(&self, _lod: u8) -> UVec3 {
        UVec3 { x: 34, y: 34, z: 34 }
    }

    fn chunk_meshing_shape(&self, _lod: u8) -> UVec3 {
        UVec3 { x: 34, y: 34, z: 34 }
    }
}

impl ChunkVisibility for DefaultWorld {
    open spec fn spec_chunk_in_view(&self, _chunk: IVec3) -> bool {
        true
    }

    fn chunk_in_view(&self, _chunk: IVec3) -> bool {
        true
    }
}

pub open spec fn spec_default_texture_indices(material: MaterialIndex) -> [u32; 3] {
    if material == 1 {
        [1u32, 1u32, 1u32]
    } else if material == 2 {
        [2u32, 2u32, 2u32]
    } else if material == 3 {
        [3u32, 3u32, 3u32]
    } else {
        [0u32, 0u32, 0u32]
    }
}

} // verus!
