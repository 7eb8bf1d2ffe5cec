use vstd::prelude::*;

use crate::configuration::{ChunkRegenerateStrategy, VoxelLookup};
use crate::hash::{content_hash, spec_content_hash};
use crate::math::{floor_div_chunk, floor_div_i64, spec_pack_key, IVec3, UVec3};
use crate::overlay::ModifiedVoxels;
use crate::shape::{
    cell_in_shape, delinearize, linearize, shape_size, shape_wf, spec_linearize, spec_shape_size,
    PADDED_CHUNK_SIZE,
};
use crate::voxel::WorldVoxel;

verus! {

/// The scene-graph identity a chunk is linked to; chosen by the host
/// application, carried through regeneration unchanged.
pub type EntityId = u64;

/// Identity of a chunk that has not been linked to a scene object yet.
pub const ENTITY_PLACEHOLDER: EntityId = 0xffff_ffff_ffff_ffff;

/// Classification of a generated chunk's content.
#[derive(Clone, Copy, Debug, PartialEq, Eq, Structural)]
pub enum FillType {
    /// No filled voxel at all; the dense array is not kept.
    Empty,
    /// A mix of filled and unfilled voxels, or of several materials; the
    /// dense array is kept.
    Mixed,
    /// Completely full of one single voxel value, which is carried here;
    /// the dense array is not kept.
    Uniform(WorldVoxel),
}

/// The durable, queryable snapshot of one chunk.
#[derive(Clone, Debug)]
pub struct ChunkData {
    /// Chunk coordinate: world position divided by the chunk edge length,
    /// floored.
    pub position: IVec3,
    /// Level of detail this data was generated at; 0 is full resolution.
    pub lod_level: u8,
    /// Dense padded voxel array; present exactly for `Mixed` chunks.
    pub voxels: Option<Vec<WorldVoxel>>,
    /// Content hash over `(data_shape, mesh_shape, voxels)`; zero while no
    /// dense array has been hashed.
    pub voxels_hash: u64,
    pub is_full: bool,
    pub is_empty: bool,
    pub fill_type: FillType,
    pub entity: EntityId,
    /// False for placeholder entries the generation task has not reached.
    pub has_generated: bool,
    /// Padded extents of the voxel array.
    pub data_shape: UVec3,
    /// Padded extents used for meshing; differing from `data_shape`
    /// triggers resampling.
    pub mesh_shape: UVec3,
}

/// Per-axis width, in world voxels, of one cell of a padded array: the
/// chunk edge length divided by the interior extent, and at least one.
pub open spec fn spec_axis_scale(dim: u32) -> int {
    if dim - 2 >= 32 {
        1
    } else {
        32 as int / (dim - 2)
    }
}

pub fn axis_scale(dim: u32) -> (r: u32)
    requires
        3 <= dim,
    ensures
        r == spec_axis_scale(dim),
        1 <= r <= 32,
{
    let inner: u32 = dim - 2;
    if inner >= 32 {
        1
    } else {
        proof {
            vstd::arithmetic::div_mod::lemma_fundamental_div_mod(32, inner as int);
            vstd::arithmetic::div_mod::lemma_mod_bound(32, inner as int);
            vstd::arithmetic::div_mod::lemma_div_is_ordered(0, 32, inner as int);
            assert(1 <= 32 as int / (inner as int) <= 32) by (nonlinear_arith)
                requires
                    1 <= inner <= 31,
                    32 == (inner as int) * (32 as int / (inner as int)) + 32 as int % (
                    inner as int),
                    0 <= 32 as int % (inner as int) < inner,
                    0 <= 32 as int / (inner as int),
            ;
        }
        32 / inner
    }
}

/// World x-coordinate of a cell of this chunk's padded array (the y and z
/// axes read the same way): padding starts one scaled cell before the
/// chunk's origin.
pub open spec fn spec_cell_world_x(position: IVec3, shape: UVec3, cx: int) -> int {
    (cx - 1) * spec_axis_scale(shape.x) + position.x * 32
}

pub open spec fn spec_cell_world_y(position: IVec3, shape: UVec3, cy: int) -> int {
    (cy - 1) * spec_axis_scale(shape.y) + position.y * 32
}

pub open spec fn spec_cell_world_z(position: IVec3, shape: UVec3, cz: int) -> int {
    (cz - 1) * spec_axis_scale(shape.z) + position.z * 32
}

/// The padded cell whose lattice point covers a world coordinate, on the
/// x axis; inverse of `spec_cell_world_x` up to flooring.
pub open spec fn spec_cell_of_world_x(position: IVec3, shape: UVec3, wx: int) -> int {
    (wx - position.x * 32) / spec_axis_scale(shape.x) + 1
}

pub open spec fn spec_cell_of_world_y(position: IVec3, shape: UVec3, wy: int) -> int {
    (wy - position.y * 32) / spec_axis_scale(shape.y) + 1
}

pub open spec fn spec_cell_of_world_z(position: IVec3, shape: UVec3, wz: int) -> int {
    (wz - position.z * 32) / spec_axis_scale(shape.z) + 1
}

/// Keeps the chunk coordinate small enough that world voxel coordinates
/// fit comfortably in 32 bits.
pub open spec fn chunk_position_in_range(p: IVec3) -> bool {
    -0x100_0000 <= p.x <= 0x100_0000 && -0x100_0000 <= p.y <= 0x100_0000 && -0x100_0000 <= p.z
        <= 0x100_0000
}

/// Every voxel of the sequence is solid.
pub open spec fn all_voxels_solid(s: Seq<WorldVoxel>) -> bool {
    forall|k: int| 0 <= k < s.len() ==> (#[trigger] s[k]) is Solid
}

impl ChunkData {
    /// Structural invariant: the dense array is present exactly for
    /// `Mixed` chunks and sized to the data shape, a `Uniform` chunk
    /// carries a solid voxel and counts as full, and the `is_empty` /
    /// `is_full` flags agree with the fill type.
    pub open spec fn wf(&self) -> bool {
        &&& shape_wf(self.data_shape)
        &&& shape_wf(self.mesh_shape)
        &&& chunk_position_in_range(self.position)
        &&& (self.voxels is Some <==> self.fill_type is Mixed)
        &&& (match self.voxels {
            Option::Some(v) => v@.len() == spec_shape_size(self.data_shape),
            Option::None => true,
        })
        &&& (match self.fill_type {
            FillType::Uniform(u) => u is Solid && self.is_full && !self.is_empty,
            FillType::Empty => self.is_empty && !self.is_full,
            FillType::Mixed => !self.is_empty,
        })
        &&& (self.is_empty <==> self.fill_type is Empty)
        &&& (match self.voxels {
            Option::Some(v) => self.is_full <==> all_voxels_solid(v@),
            Option::None => true,
        })
    }

    /// The voxel stored at a padded cell of this chunk.
    pub open spec fn spec_voxel_at(&self, cx: int, cy: int, cz: int) -> WorldVoxel {
        match self.fill_type {
            FillType::Uniform(v) => v,
            FillType::Empty => WorldVoxel::Unset,
            FillType::Mixed => match self.voxels {
                Option::Some(v) => v@[spec_linearize(self.data_shape, cx, cy, cz)],
                Option::None => WorldVoxel::Unset,
            },
        }
    }

    /// The voxel this chunk stores for a world coordinate, or nothing when
    /// the coordinate falls outside the chunk's padded array.
    pub open spec fn spec_voxel_at_world(&self, w: IVec3) -> Option<WorldVoxel> {
        let cx = spec_cell_of_world_x(self.position, self.data_shape, w.x as int);
        let cy = spec_cell_of_world_y(self.position, self.data_shape, w.y as int);
        let cz = spec_cell_of_world_z(self.position, self.data_shape, w.z as int);
        if cell_in_shape(self.data_shape, cx, cy, cz) {
            Option::Some(self.spec_voxel_at(cx, cy, cz))
        } else {
            Option::None
        }
    }

    /// A fresh placeholder entry: empty, not yet generated, default shapes.
    pub fn new() -> (r: Self)
        ensures
            r.wf(),
            r.position == (IVec3 { x: 0, y: 0, z: 0 }),
            r.voxels is None,
            r.voxels_hash == 0,
            !r.is_full,
            r.is_empty,
            r.fill_type == FillType::Empty,
            r.entity == ENTITY_PLACEHOLDER,
            !r.has_generated,
            r.lod_level == 0,
            r.data_shape == (UVec3 { x: PADDED_CHUNK_SIZE, y: PADDED_CHUNK_SIZE, z: PADDED_CHUNK_SIZE }),
            r.mesh_shape == (UVec3 { x: PADDED_CHUNK_SIZE, y: PADDED_CHUNK_SIZE, z: PADDED_CHUNK_SIZE }),
    {
        ChunkData {
            position: IVec3 { x: 0, y: 0, z: 0 },
            lod_level: 0,
            voxels: Option::None,
            voxels_hash: 0,
            is_full: false,
            is_empty: true,
            fill_type: FillType::Empty,
            entity: ENTITY_PLACEHOLDER,
            has_generated: false,
            data_shape: UVec3 { x: PADDED_CHUNK_SIZE, y: PADDED_CHUNK_SIZE, z: PADDED_CHUNK_SIZE },
            mesh_shape: UVec3 { x: PADDED_CHUNK_SIZE, y: PADDED_CHUNK_SIZE, z: PADDED_CHUNK_SIZE },
        }
    }

    /// A fresh placeholder entry linked to a scene object.
    pub fn with_entity(entity: EntityId) -> (r: Self)
        ensures
            r.wf(),
            r == (ChunkData { entity, ..ChunkData::spec_placeholder() }),
    {
        let mut r = Self::new();
        r.entity = entity;
        proof {
            assert(r == (ChunkData { entity, ..ChunkData::spec_placeholder() }));
        }
        r
    }

    /// The value `ChunkData::new` returns.
    pub open spec fn spec_placeholder() -> ChunkData {
        ChunkData {
            position: IVec3 { x: 0, y: 0, z: 0 },
            lod_level: 0,
            voxels: Option::None,
            voxels_hash: 0,
            is_full: false,
            is_empty: true,
            fill_type: FillType::Empty,
            entity: ENTITY_PLACEHOLDER,
            has_generated: false,
            data_shape: UVec3 { x: PADDED_CHUNK_SIZE, y: PADDED_CHUNK_SIZE, z: PADDED_CHUNK_SIZE },
            mesh_shape: UVec3 { x: PADDED_CHUNK_SIZE, y: PADDED_CHUNK_SIZE, z: PADDED_CHUNK_SIZE },
        }
    }

    /// Recomputes the content hash; a no-op while no dense array is kept.
    pub fn generate_hash(&mut self)
        requires
            old(self).wf(),
        ensures
            final(self).wf(),
            *final(self) == (ChunkData { voxels_hash: final(self).voxels_hash, ..*old(self) }),
            match final(self).voxels {
                Option::Some(v) => final(self).voxels_hash == spec_content_hash(
                    final(self).data_shape,
                    final(self).mesh_shape,
                    v@,
                ),
                Option::None => final(self).voxels_hash == old(self).voxels_hash,
            },
    {
        let ds = self.data_shape;
        let ms = self.mesh_shape;
        let h: Option<u64> = match &self.voxels {
            Option::Some(v) => Option::Some(content_hash(ds, ms, v)),
            Option::None => Option::None,
        };
        if let Option::Some(h) = h {
            self.voxels_hash = h;
        }
    }

    /// The voxel at a cell of the padded array, in local padded
    /// coordinates.
    pub fn get_voxel(&self, position: UVec3) -> (r: WorldVoxel)
        requires
            self.wf(),
            cell_in_shape(self.data_shape, position.x as int, position.y as int, position.z as int),
        ensures
            r == self.spec_voxel_at(position.x as int, position.y as int, position.z as int),
    {
        match &self.voxels {
            Option::Some(v) => {
                let i = linearize(self.data_shape, position);
                v[i as usize]
            },
            Option::None => match self.fill_type {
                FillType::Uniform(voxel) => voxel,
                _ => WorldVoxel::Unset,
            },
        }
    }

    /// The voxel this chunk stores for a world coordinate, if the
    /// coordinate falls inside the chunk's padded array.
    pub fn get_voxel_at_world_position(&self, world: IVec3) -> (r: Option<WorldVoxel>)
        requires
            self.wf(),
        ensures
            r == self.spec_voxel_at_world(world),
    {
        let sx = axis_scale(self.data_shape.x);
        let sy = axis_scale(self.data_shape.y);
        let sz = axis_scale(self.data_shape.z);
        let cx: i64 = floor_div_i64(world.x as i64 - (self.position.x as i64) * 32, sx as i64) + 1;
        let cy: i64 = floor_div_i64(world.y as i64 - (self.position.y as i64) * 32, sy as i64) + 1;
        let cz: i64 = floor_div_i64(world.z as i64 - (self.position.z as i64) * 32, sz as i64) + 1;
        if 0 <= cx && cx < self.data_shape.x as i64 && 0 <= cy && cy < self.data_shape.y as i64
            && 0 <= cz && cz < self.data_shape.z as i64 {
            Option::Some(
                self.get_voxel(UVec3 { x: cx as u32, y: cy as u32, z: cz as u32 }),
            )
        } else {
            Option::None
        }
    }

    /// True if the chunk is full; no mesh is generated for full chunks.
    pub fn is_full(&self) -> (r: bool)
        ensures
            r == self.is_full,
    {
        self.is_full
    }

    /// True if the chunk is empty; no mesh is generated for empty chunks.
    pub fn is_empty(&self) -> (r: bool)
        ensures
            r == self.is_empty,
    {
        self.is_empty
    }

    /// The classification of this chunk's content.
    pub fn get_fill_type(&self) -> (r: &FillType)
        ensures
            r == self.fill_type,
    {
        &self.fill_type
    }

    /// The scene-graph identity of the owning chunk object.
    pub fn get_entity(&self) -> (r: EntityId)
        ensures
            r == self.entity,
    {
        self.entity
    }

    /// The world voxel coordinate of the chunk's origin corner.
    pub fn world_position(&self) -> (r: IVec3)
        requires
            chunk_position_in_range(self.position),
        ensures
            r.x == self.position.x * 32,
            r.y == self.position.y * 32,
            r.z == self.position.z * 32,
    {
        IVec3 {
            x: self.position.x * 32,
            y: self.position.y * 32,
            z: self.position.z * 32,
        }
    }

    /// True if the given world voxel coordinate lies inside this chunk
    /// (its unpadded 32-voxel cube), in whole voxels.
    pub fn encloses_point(&self, point: IVec3) -> (r: bool)
        requires
            chunk_position_in_range(self.position),
        ensures
            r == (self.position.x * 32 <= point.x <= self.position.x * 32 + 32
                && self.position.y * 32 <= point.y <= self.position.y * 32 + 32
                && self.position.z * 32 <= point.z <= self.position.z * 32 + 32),
    {
        let o = self.world_position();
        o.x <= point.x && point.x <= o.x + 32 && o.y <= point.y && point.y <= o.y + 32 && o.z
            <= point.z && point.z <= o.z + 32
    }

    /// True if the voxel coordinate falls in this chunk and the stored
    /// voxel there equals the given one.
    pub fn has_voxel(&self, voxel_pos: IVec3, voxel: WorldVoxel) -> (r: bool)
        requires
            self.wf(),
        ensures
            r == (IVec3 {
                x: (voxel_pos.x as int / 32) as i32,
                y: (voxel_pos.y as int / 32) as i32,
                z: (voxel_pos.z as int / 32) as i32,
            } == self.position && self.spec_voxel_at_world(voxel_pos) == Option::Some(voxel)),
    {
        let chunk_pos = IVec3 {
            x: floor_div_chunk(voxel_pos.x),
            y: floor_div_chunk(voxel_pos.y),
            z: floor_div_chunk(voxel_pos.z),
        };
        if chunk_pos.x != self.position.x || chunk_pos.y != self.position.y || chunk_pos.z
            != self.position.z {
            return false;
        }
        match self.get_voxel_at_world_position(voxel_pos) {
            Option::Some(v) => v == voxel,
            Option::None => false,
        }
    }

    /// True once the generation task has filled this chunk's data.
    pub fn has_generated(&self) -> (r: bool)
        ensures
            r == self.has_generated,
    {
        self.has_generated
    }
}

/// The fill-type invariant of chunk data: a `Uniform` chunk never keeps
/// the dense array and carries a solid voxel, a `Mixed` chunk always
/// keeps it, and a full chunk is exactly one that is uniform or has
/// every stored voxel solid.
pub proof fn lemma_fill_type_invariant(c: ChunkData)
    requires
        c.wf(),
    ensures
        c.fill_type is Uniform ==> c.voxels is None,
        c.fill_type is Mixed <==> c.voxels is Some,
        c.fill_type matches FillType::Uniform(u) ==> u is Solid && c.is_full,
        c.is_empty <==> c.fill_type is Empty,
        c.fill_type is Mixed ==> (c.is_full <==> all_voxels_solid(c.voxels->0@)),
{
}

/// Number of filled (solid) voxels of a sequence.
pub open spec fn spec_filled(s: Seq<WorldVoxel>) -> int
    decreases s.len(),
{
    if s.len() == 0 {
        0
    } else {
        spec_filled(s.drop_last()) + if s.last() is Solid {
            1 as int
        } else {
            0
        }
    }
}

pub proof fn lemma_filled_bounds(s: Seq<WorldVoxel>)
    ensures
        0 <= spec_filled(s) <= s.len(),
        spec_filled(s) == s.len() <==> all_voxels_solid(s),
        spec_filled(s) == 0 <==> (forall|k: int| 0 <= k < s.len() ==> !((#[trigger] s[k]) is Solid)),
    decreases s.len(),
{
    if s.len() > 0 {
        lemma_filled_bounds(s.drop_last());
        assert forall|k: int| 0 <= k < s.len() - 1 implies s.drop_last()[k] == s[k] by {}
        if all_voxels_solid(s.drop_last()) && s.last() is Solid {
            assert(all_voxels_solid(s));
        }
    }
}

/// The classification `generate` applies to a resolved cell sequence:
/// empty when no cell is filled, uniform when every cell holds one and
/// the same solid value, mixed otherwise — and mixed even when the chunk
/// is full but holds several materials, so such chunks keep their dense
/// array and still get a mesh. The array is kept exactly for mixed.
pub open spec fn spec_classified_from(cd: ChunkData, cells: Seq<WorldVoxel>) -> bool {
    &&& (cd.is_empty <==> spec_filled(cells) == 0)
    &&& (cd.is_full <==> spec_filled(cells) == cells.len())
    &&& (if spec_filled(cells) == cells.len() && cells.len() > 0 && (forall|k: int|
        0 <= k < cells.len() ==> #[trigger] cells[k] == cells[0]) {
        cd.fill_type == FillType::Uniform(cells[0]) && cd.voxels is None
    } else if spec_filled(cells) > 0 {
        cd.fill_type is Mixed && (match cd.voxels {
            Option::Some(v) => v@ == cells,
            Option::None => false,
        })
    } else {
        cd.fill_type is Empty && cd.voxels is None
    })
}

/// The world voxel coordinate of a padded cell of a chunk at `position`
/// with shape `shape`.
pub open spec fn spec_cell_world(position: IVec3, shape: UVec3, cx: int, cy: int, cz: int) -> IVec3 {
    IVec3 {
        x: spec_cell_world_x(position, shape, cx) as i32,
        y: spec_cell_world_y(position, shape, cy) as i32,
        z: spec_cell_world_z(position, shape, cz) as i32,
    }
}

/// The overlay key of a padded cell of a chunk at `position`.
pub open spec fn spec_cell_key(position: IVec3, shape: UVec3, cx: int, cy: int, cz: int) -> u128 {
    spec_pack_key(spec_cell_world(position, shape, cx, cy, cz)) as u128
}

/// The previous chunk handed to `generate`, as a value.
pub open spec fn prev_value(p: Option<&ChunkData>) -> Option<ChunkData> {
    match p {
        Option::Some(c) => Option::Some(*c),
        Option::None => Option::None,
    }
}

/// The voxel the reuse pass would take for world coordinate `w`: the
/// previous chunk's voxel there, when the strategy allows reuse and that
/// voxel exists and was actually generated.
pub open spec fn spec_reuse_candidate(
    previous: Option<ChunkData>,
    strategy: ChunkRegenerateStrategy,
    w: IVec3,
) -> Option<WorldVoxel> {
    if strategy is Reuse {
        match previous {
            Option::Some(p) => match p.spec_voxel_at_world(w) {
                Option::Some(pv) => if pv is Unset {
                    Option::None
                } else {
                    Option::Some(pv)
                },
                Option::None => Option::None,
            },
            Option::None => Option::None,
        }
    } else {
        Option::None
    }
}

/// What the generation task promises of the voxel it stored for one cell:
/// an overlay entry is taken verbatim; failing that, a reusable previous
/// voxel is taken verbatim; only otherwise was the caller's lookup free to
/// choose the value.
pub open spec fn cell_obeys_sources(
    overlay: Map<u128, WorldVoxel>,
    previous: Option<ChunkData>,
    strategy: ChunkRegenerateStrategy,
    position: IVec3,
    shape: UVec3,
    cx: int,
    cy: int,
    cz: int,
    v: WorldVoxel,
) -> bool {
    let w = spec_cell_world(position, shape, cx, cy, cz);
    let key = spec_pack_key(w) as u128;
    if overlay.contains_key(key) {
        v == overlay[key]
    } else {
        match spec_reuse_candidate(previous, strategy, w) {
            Option::Some(pv) => v == pv,
            Option::None => true,
        }
    }
}

/// The padded shape the generation task actually fills: the previous
/// chunk's larger (or equal) shape is kept when reuse is allowed, so a
/// chunk once generated at high resolution is not destructively
/// downsampled.
pub open spec fn spec_active_shape(
    requested: UVec3,
    previous: Option<ChunkData>,
    strategy: ChunkRegenerateStrategy,
) -> UVec3 {
    if strategy is Reuse && (match previous {
        Option::Some(p) => p.has_generated && p.data_shape.x >= requested.x && p.data_shape.y
            >= requested.y && p.data_shape.z >= requested.z,
        Option::None => false,
    }) {
        previous->Some_0.data_shape
    } else {
        requested
    }
}

/// A mesh that renders the given chunk data: built over the chunk's
/// dense voxel array, resampled to the chunk's mesh shape, with exactly
/// the visible faces.
pub open spec fn mesh_matches_chunk(
    m: crate::meshing::RenderableMesh,
    cd: ChunkData,
    texf: spec_fn(crate::voxel::MaterialIndex) -> [u32; 3],
) -> bool {
    &&& cd.voxels is Some
    &&& m.mesh_shape == cd.mesh_shape
    &&& exists|rs: Seq<WorldVoxel>, q: Seq<crate::meshing::Quad>|
        {
            &&& #[trigger] crate::meshing::resampled_rel(
                rs,
                cd.voxels->0@,
                cd.data_shape,
                cd.mesh_shape,
            )
            &&& #[trigger] crate::meshing::quads_are_visible_faces(q, rs, cd.mesh_shape)
            &&& crate::meshing::mesh_of_quads(m.vertices@, m.indices@, q, rs, cd.mesh_shape, texf)
        }
}

/// Holds all data needed to generate and mesh one chunk, off the main
/// tick.
pub struct ChunkTask {
    pub position: IVec3,
    pub lod_level: u8,
    pub data_shape: UVec3,
    pub mesh_shape: UVec3,
    pub chunk_data: ChunkData,
    /// Snapshot of the modified-voxel overlay, taken when the task was
    /// created.
    pub modified_voxels: ModifiedVoxels,
    /// The renderable mesh, once `mesh` has produced it.
    pub mesh: Option<crate::meshing::RenderableMesh>,
    /// Auxiliary data a custom meshing delegate returned with the mesh.
    pub user_bundle: Option<Vec<u8>>,
}

impl ChunkTask {
    pub open spec fn req_wf(&self) -> bool {
        &&& shape_wf(self.data_shape)
        &&& shape_wf(self.mesh_shape)
        &&& chunk_position_in_range(self.position)
    }

    pub fn new(
        entity: EntityId,
        position: IVec3,
        lod_level: u8,
        data_shape: UVec3,
        mesh_shape: UVec3,
        modified_voxels: ModifiedVoxels,
    ) -> (r: Self)
        requires
            shape_wf(data_shape),
            shape_wf(mesh_shape),
            chunk_position_in_range(position),
        ensures
            r.req_wf(),
            r.position == position,
            r.lod_level == lod_level,
            r.data_shape == data_shape,
            r.mesh_shape == mesh_shape,
            r.modified_voxels@ == modified_voxels@,
            r.chunk_data.wf(),
            r.chunk_data.entity == entity,
            !r.chunk_data.has_generated,
            r.chunk_data.is_empty,
            r.mesh is None,
            r.user_bundle is None,
    {
        let chunk_data = ChunkData::with_entity(entity);
        ChunkTask {
            position,
            lod_level,
            data_shape,
            mesh_shape,
            chunk_data,
            modified_voxels,
            mesh: Option::None,
            user_bundle: Option::None,
        }
    }

    pub fn is_empty(&self) -> (r: bool)
        ensures
            r == self.chunk_data.is_empty,
    {
        self.chunk_data.is_empty
    }

    pub fn is_full(&self) -> (r: bool)
        ensures
            r == self.chunk_data.is_full,
    {
        self.chunk_data.is_full
    }

    pub fn voxels_hash(&self) -> (r: u64)
        ensures
            r == self.chunk_data.voxels_hash,
    {
        self.chunk_data.voxels_hash
    }

    /// Generates a mesh for the chunk from its current voxel data; a
    /// no-op when a mesh already exists or when no dense array is kept
    /// (empty and uniform chunks draw nothing).
    pub fn mesh<M: crate::configuration::TextureIndexMapper>(&mut self, texture_index_mapper: &M)
        requires
            old(self).chunk_data.wf(),
        ensures
            final(self).position == old(self).position,
            final(self).lod_level == old(self).lod_level,
            final(self).data_shape == old(self).data_shape,
            final(self).mesh_shape == old(self).mesh_shape,
            final(self).chunk_data == old(self).chunk_data,
            final(self).modified_voxels@ == old(self).modified_voxels@,
            final(self).user_bundle == old(self).user_bundle,
            old(self).mesh is Some ==> final(self).mesh == old(self).mesh,
            old(self).chunk_data.voxels is None ==> final(self).mesh == old(self).mesh,
            (old(self).mesh is None && old(self).chunk_data.voxels is Some) ==> (match final(self).mesh {
                Option::Some(m) => mesh_matches_chunk(
                    m,
                    old(self).chunk_data,
                    (|mt: crate::voxel::MaterialIndex| texture_index_mapper.spec_texture_indices(
                        mt,
                    )),
                ),
                Option::None => false,
            }),
    {
        if self.mesh.is_none() {
            let make: bool = match &self.chunk_data.voxels {
                Option::Some(_) => true,
                Option::None => false,
            };
            if make {
                let ds = self.chunk_data.data_shape;
                let ms = self.chunk_data.mesh_shape;
                let m = match &self.chunk_data.voxels {
                    Option::Some(v) => crate::meshing::generate_chunk_mesh_for_shape(
                        v,
                        ds,
                        ms,
                        texture_index_mapper,
                    ),
                    Option::None => {
                        proof {
                            assert(false);
                        }
                        crate::meshing::generate_chunk_mesh_for_shape(
                            &Vec::new(),
                            ds,
                            ms,
                            texture_index_mapper,
                        )
                    },
                };
                self.mesh = Option::Some(m);
            }
        }
    }

    /// Generates a mesh through a caller-supplied meshing delegate; a
    /// no-op when a mesh already exists or when no dense array is kept.
    /// The delegate's mesh and auxiliary bundle are taken as they come:
    /// nothing is promised about their content.
    pub fn mesh_with<M: crate::configuration::ChunkMeshingDelegate>(&mut self, delegate: &mut M)
        requires
            old(self).chunk_data.wf(),
        ensures
            final(self).position == old(self).position,
            final(self).lod_level == old(self).lod_level,
            final(self).data_shape == old(self).data_shape,
            final(self).mesh_shape == old(self).mesh_shape,
            final(self).chunk_data == old(self).chunk_data,
            final(self).modified_voxels@ == old(self).modified_voxels@,
            old(self).mesh is Some ==> final(self).mesh == old(self).mesh && final(self).user_bundle == old(self).user_bundle,
            old(self).chunk_data.voxels is None ==> final(self).mesh == old(self).mesh
                && final(self).user_bundle == old(self).user_bundle,
            (old(self).mesh is None && old(self).chunk_data.voxels is Some) ==> final(self).mesh is Some,
    {
        if self.mesh.is_none() {
            let ds = self.chunk_data.data_shape;
            let ms = self.chunk_data.mesh_shape;
            match &self.chunk_data.voxels {
                Option::Some(v) => {
                    let (m, bundle) = delegate.mesh_chunk(v, ds, ms);
                    self.mesh = Option::Some(m);
                    self.user_bundle = bundle;
                },
                Option::None => {},
            }
        }
    }

    /// Fills the chunk's voxel data. Per cell, the overlay snapshot wins;
    /// failing that, a reusable voxel of `previous` is taken; only
    /// otherwise is the caller's `lookup` consulted (with the previous
    /// voxel, if known, as a hint). The result is classified into its fill
    /// type and content-hashed.
    #[verifier::loop_isolation(false)]
    #[verifier::rlimit(60)]
    pub fn generate<L: VoxelLookup>(
        &mut self,
        lookup: &mut L,
        previous: Option<&ChunkData>,
        strategy: ChunkRegenerateStrategy,
    )
        requires
            old(self).req_wf(),
            match previous {
                Option::Some(p) => p.wf(),
                Option::None => true,
            },
        ensures
            final(self).position == old(self).position,
            final(self).lod_level == old(self).lod_level,
            final(self).data_shape == old(self).data_shape,
            final(self).mesh_shape == old(self).mesh_shape,
            final(self).modified_voxels@ == old(self).modified_voxels@,
            final(self).mesh == old(self).mesh,
            final(self).user_bundle == old(self).user_bundle,
            final(self).chunk_data.wf(),
            final(self).chunk_data.has_generated,
            final(self).chunk_data.position == old(self).position,
            final(self).chunk_data.lod_level == old(self).lod_level,
            final(self).chunk_data.entity == old(self).chunk_data.entity,
            final(self).chunk_data.data_shape == spec_active_shape(
                old(self).data_shape,
                prev_value(previous),
                strategy,
            ),
            final(self).chunk_data.mesh_shape == old(self).mesh_shape,
            // The content hash is a pure function of the shapes and the
            // dense voxel array, so byte-identical chunks hash alike.
            match final(self).chunk_data.voxels {
                Option::Some(v) => final(self).chunk_data.voxels_hash == spec_content_hash(
                    final(self).chunk_data.data_shape,
                    final(self).chunk_data.mesh_shape,
                    v@,
                ),
                Option::None => final(self).chunk_data.voxels_hash == 0,
            },
            // The fill classification is pinned: there is a resolved cell
            // sequence, obeying the overlay and reuse sources, of which
            // the produced chunk is exactly the classification.
            exists|cells: Seq<WorldVoxel>|
                {
                    &&& cells.len() == spec_shape_size(final(self).chunk_data.data_shape)
                    &&& (forall|cx: int, cy: int, cz: int|
                        cell_in_shape(final(self).chunk_data.data_shape, cx, cy, cz)
                            ==> #[trigger] cell_obeys_sources(
                            old(self).modified_voxels@,
                            prev_value(previous),
                            strategy,
                            old(self).position,
                            final(self).chunk_data.data_shape,
                            cx,
                            cy,
                            cz,
                            cells[spec_linearize(
                                final(self).chunk_data.data_shape,
                                cx,
                                cy,
                                cz,
                            )],
                        ))
                    &&& #[trigger] spec_classified_from(final(self).chunk_data, cells)
                },
            // Mixed chunks keep every cell exactly as resolved from the
            // overlay, the previous data and the lookup.
            final(self).chunk_data.fill_type is Mixed ==> forall|cx: int, cy: int, cz: int|
                cell_in_shape(final(self).chunk_data.data_shape, cx, cy, cz)
                    ==> #[trigger] cell_obeys_sources(
                    old(self).modified_voxels@,
                    prev_value(previous),
                    strategy,
                    old(self).position,
                    final(self).chunk_data.data_shape,
                    cx,
                    cy,
                    cz,
                    final(self).chunk_data.spec_voxel_at(cx, cy, cz),
                ),
            // A uniform chunk agrees with every overlay entry in range.
            forall|cx: int, cy: int, cz: int|
                final(self).chunk_data.fill_type matches FillType::Uniform(u) ==> ((cell_in_shape(
                    final(self).chunk_data.data_shape,
                    cx,
                    cy,
                    cz,
                ) && old(self).modified_voxels@.contains_key(
                    #[trigger] spec_cell_key(
                        old(self).position,
                        final(self).chunk_data.data_shape,
                        cx,
                        cy,
                        cz,
                    ),
                )) ==> old(self).modified_voxels@[spec_cell_key(
                    old(self).position,
                    final(self).chunk_data.data_shape,
                    cx,
                    cy,
                    cz,
                )] == u),
            // An empty chunk saw no solid overlay entry in range.
            forall|cx: int, cy: int, cz: int|
                (final(self).chunk_data.fill_type is Empty && cell_in_shape(
                    final(self).chunk_data.data_shape,
                    cx,
                    cy,
                    cz,
                ) && old(self).modified_voxels@.contains_key(
                    #[trigger] spec_cell_key(
                        old(self).position,
                        final(self).chunk_data.data_shape,
                        cx,
                        cy,
                        cz,
                    ),
                )) ==> !(old(self).modified_voxels@[spec_cell_key(
                    old(self).position,
                    final(self).chunk_data.data_shape,
                    cx,
                    cy,
                    cz,
                )] is Solid),
            // Overlay precedence: a solid overlay entry is reproduced by
            // the generated chunk, whatever the fill type.
            forall|cx: int, cy: int, cz: int|
                (cell_in_shape(final(self).chunk_data.data_shape, cx, cy, cz) && old(
                    self,
                ).modified_voxels@.contains_key(
                    #[trigger] spec_cell_key(
                        old(self).position,
                        final(self).chunk_data.data_shape,
                        cx,
                        cy,
                        cz,
                    ),
                ) && old(self).modified_voxels@[spec_cell_key(
                    old(self).position,
                    final(self).chunk_data.data_shape,
                    cx,
                    cy,
                    cz,
                )] is Solid) ==> final(self).chunk_data.spec_voxel_at(cx, cy, cz) == old(
                    self,
                ).modified_voxels@[spec_cell_key(
                    old(self).position,
                    final(self).chunk_data.data_shape,
                    cx,
                    cy,
                    cz,
                )],
    {
        let active: UVec3 = match &previous {
            Option::Some(p) => {
                if strategy == ChunkRegenerateStrategy::Reuse && p.has_generated
                    && p.data_shape.x >= self.data_shape.x && p.data_shape.y >= self.data_shape.y
                    && p.data_shape.z >= self.data_shape.z {
                    p.data_shape
                } else {
                    self.data_shape
                }
            },
            Option::None => self.data_shape,
        };
        assert(active == spec_active_shape(self.data_shape, prev_value(previous), strategy));
        let size: u32 = shape_size(active);
        let sx: u32 = axis_scale(active.x);
        let sy: u32 = axis_scale(active.y);
        let sz: u32 = axis_scale(active.z);
        let mut vs: Vec<WorldVoxel> = Vec::new();
        let mut filled: u32 = 0;
        let mut all_eq: bool = true;
        let mut i: u32 = 0;
        while i < size
            invariant
                vs@.len() == i,
                i <= size,
                filled == spec_filled(vs@),
                filled <= i,
                all_eq <==> (forall|k: int| 0 <= k < vs@.len() ==> #[trigger] vs@[k] == vs@[0]),
                forall|cx: int, cy: int, cz: int|
                    cell_in_shape(active, cx, cy, cz) && spec_linearize(active, cx, cy, cz) < i
                        ==> #[trigger] cell_obeys_sources(
                        old(self).modified_voxels@,
                        prev_value(previous),
                        strategy,
                        old(self).position,
                        active,
                        cx,
                        cy,
                        cz,
                        vs@[spec_linearize(active, cx, cy, cz)],
                    ),
                self.modified_voxels@ == old(self).modified_voxels@,
                self.position == old(self).position,
            decreases size - i,
        {
            let cell: UVec3 = delinearize(active, i);
            proof {
                assert((cell.x as int - 1) * (sx as int) <= 255 * 32 && (cell.x as int - 1) * (
                sx as int) >= -32) by (nonlinear_arith)
                    requires
                        0 <= cell.x <= 255,
                        1 <= sx <= 32,
                ;
                assert((cell.y as int - 1) * (sy as int) <= 255 * 32 && (cell.y as int - 1) * (
                sy as int) >= -32) by (nonlinear_arith)
                    requires
                        0 <= cell.y <= 255,
                        1 <= sy <= 32,
                ;
                assert((cell.z as int - 1) * (sz as int) <= 255 * 32 && (cell.z as int - 1) * (
                sz as int) >= -32) by (nonlinear_arith)
                    requires
                        0 <= cell.z <= 255,
                        1 <= sz <= 32,
                ;
            }
            let wx64: i64 = (cell.x as i64 - 1) * (sx as i64) + (self.position.x as i64) * 32;
            let wy64: i64 = (cell.y as i64 - 1) * (sy as i64) + (self.position.y as i64) * 32;
            let wz64: i64 = (cell.z as i64 - 1) * (sz as i64) + (self.position.z as i64) * 32;
            let w = IVec3 { x: wx64 as i32, y: wy64 as i32, z: wz64 as i32 };
            let ghost gcx: int = cell.x as int;
            let ghost gcy: int = cell.y as int;
            let ghost gcz: int = cell.z as int;
            proof {
                assert(w == spec_cell_world(old(self).position, active, gcx, gcy, gcz));
            }
            let ov: Option<WorldVoxel> = self.modified_voxels.get_voxel(w);
            let v: WorldVoxel = match ov {
                Option::Some(o) => o,
                Option::None => {
                    let hint: Option<WorldVoxel> = match &previous {
                        Option::Some(p) => p.get_voxel_at_world_position(w),
                        Option::None => Option::None,
                    };
                    let reuse_ok: bool = strategy == ChunkRegenerateStrategy::Reuse && match hint {
                        Option::Some(pv) => !pv.is_unset(),
                        Option::None => false,
                    };
                    if reuse_ok {
                        match hint {
                            Option::Some(pv) => pv,
                            Option::None => WorldVoxel::Unset,
                        }
                    } else {
                        lookup.lookup(w, hint)
                    }
                },
            };
            proof {
                assert(cell_obeys_sources(
                    old(self).modified_voxels@,
                    prev_value(previous),
                    strategy,
                    old(self).position,
                    active,
                    gcx,
                    gcy,
                    gcz,
                    v,
                ));
            }
            if vs.len() > 0 {
                let first: WorldVoxel = vs[0];
                if v != first {
                    all_eq = false;
                }
            }
            if v.is_solid() {
                filled = filled + 1;
            }
            let ghost old_vs = vs@;
            vs.push(v);
            proof {
                assert(vs@.drop_last() =~= old_vs);
                assert(spec_filled(vs@) == spec_filled(old_vs) + if v is Solid {
                    1 as int
                } else {
                    0
                });
                assert forall|cx: int, cy: int, cz: int|
                    cell_in_shape(active, cx, cy, cz) && spec_linearize(active, cx, cy, cz) < i
                        + 1 implies #[trigger] cell_obeys_sources(
                    old(self).modified_voxels@,
                    prev_value(previous),
                    strategy,
                    old(self).position,
                    active,
                    cx,
                    cy,
                    cz,
                    vs@[spec_linearize(active, cx, cy, cz)],
                ) by {
                    if spec_linearize(active, cx, cy, cz) == i {
                        crate::shape::lemma_linearize_injective(
                            active,
                            cx,
                            cy,
                            cz,
                            gcx,
                            gcy,
                            gcz,
                        );
                    }
                }
            }
            i = i + 1;
        }
        proof {
            lemma_filled_bounds(vs@);
            crate::shape::lemma_shape_size_bounds(active);
        }
        let is_empty: bool = filled == 0;
        let is_full: bool = filled == size;
        let ghost gvs = vs@;
        let ghost gall_eq = all_eq;
        let ghost gfilled = filled;
        let (fill_type, voxels): (FillType, Option<Vec<WorldVoxel>>) = if is_full && all_eq {
            let u: WorldVoxel = vs[0];
            (FillType::Uniform(u), Option::None)
        } else if filled > 0 {
            (FillType::Mixed, Option::Some(vs))
        } else {
            (FillType::Empty, Option::None)
        };
        self.chunk_data = ChunkData {
            position: self.position,
            lod_level: self.lod_level,
            voxels,
            voxels_hash: 0,
            is_full,
            is_empty,
            fill_type,
            entity: self.chunk_data.entity,
            has_generated: true,
            data_shape: active,
            mesh_shape: self.mesh_shape,
        };
        self.chunk_data.generate_hash();
        proof {
            let ghost cd = self.chunk_data;
            let ghost overlay = old(self).modified_voxels@;
            let ghost pos = old(self).position;
            // Every in-shape cell keeps the value the loop resolved for it.
            assert forall|cx: int, cy: int, cz: int|
                cell_in_shape(active, cx, cy, cz) implies cell_obeys_sources(
                overlay,
                prev_value(previous),
                strategy,
                pos,
                active,
                cx,
                cy,
                cz,
                gvs[spec_linearize(active, cx, cy, cz)],
            ) && 0 <= spec_linearize(active, cx, cy, cz) < gvs.len() by {
                crate::shape::lemma_linearize_in_range(active, cx, cy, cz);
                assert(cell_obeys_sources(
                    overlay,
                    prev_value(previous),
                    strategy,
                    pos,
                    active,
                    cx,
                    cy,
                    cz,
                    gvs[spec_linearize(active, cx, cy, cz)],
                ));
            }
            if cd.fill_type is Mixed {
                assert forall|cx: int, cy: int, cz: int|
                    cell_in_shape(cd.data_shape, cx, cy, cz) implies #[trigger] cell_obeys_sources(
                    overlay,
                    prev_value(previous),
                    strategy,
                    pos,
                    cd.data_shape,
                    cx,
                    cy,
                    cz,
                    cd.spec_voxel_at(cx, cy, cz),
                ) by {
                    assert(cd.spec_voxel_at(cx, cy, cz) == gvs[spec_linearize(
                        active,
                        cx,
                        cy,
                        cz,
                    )]);
                }
            }
            if cd.fill_type is Uniform {
                let u = cd.fill_type->Uniform_0;
                assert forall|cx: int, cy: int, cz: int|
                    cell_in_shape(cd.data_shape, cx, cy, cz) && overlay.contains_key(
                        #[trigger] spec_cell_key(pos, cd.data_shape, cx, cy, cz),
                    ) implies overlay[spec_cell_key(pos, cd.data_shape, cx, cy, cz)] == u by {
                    let lin = spec_linearize(active, cx, cy, cz);
                    assert(gvs[lin] == overlay[spec_cell_key(pos, cd.data_shape, cx, cy, cz)]);
                    assert(gvs[lin] == gvs[0]);
                }
            }
            if cd.fill_type is Empty {
                assert forall|cx: int, cy: int, cz: int|
                    cell_in_shape(cd.data_shape, cx, cy, cz) && overlay.contains_key(
                        #[trigger] spec_cell_key(pos, cd.data_shape, cx, cy, cz),
                    ) implies !(overlay[spec_cell_key(pos, cd.data_shape, cx, cy, cz)]
                    is Solid) by {
                    let lin = spec_linearize(active, cx, cy, cz);
                    assert(gvs[lin] == overlay[spec_cell_key(pos, cd.data_shape, cx, cy, cz)]);
                    assert(!(gvs[lin] is Solid));
                }
            }
            // The classification clause, witnessed by the resolved cells.
            assert(gvs.len() == spec_shape_size(cd.data_shape));
            assert(spec_classified_from(cd, gvs));
            // Overlay precedence for solid entries, by cases on the fill.
            assert forall|cx: int, cy: int, cz: int|
                cell_in_shape(cd.data_shape, cx, cy, cz) && overlay.contains_key(
                    #[trigger] spec_cell_key(pos, cd.data_shape, cx, cy, cz),
                ) && overlay[spec_cell_key(pos, cd.data_shape, cx, cy, cz)]
                is Solid implies cd.spec_voxel_at(cx, cy, cz) == overlay[spec_cell_key(
                pos,
                cd.data_shape,
                cx,
                cy,
                cz,
            )] by {
                let lin = spec_linearize(active, cx, cy, cz);
                assert(gvs[lin] == overlay[spec_cell_key(pos, cd.data_shape, cx, cy, cz)]);
                match cd.fill_type {
                    FillType::Mixed => {
                        assert(cd.spec_voxel_at(cx, cy, cz) == gvs[lin]);
                    },
                    FillType::Uniform(u) => {
                        assert(gvs[lin] == gvs[0]);
                    },
                    FillType::Empty => {
                        assert(!(gvs[lin] is Solid));
                    },
                }
            }
        }
    }
}

} // verus!
