use vstd::prelude::*;

use crate::chunk::{
    chunk_position_in_range, ChunkData, ChunkTask, EntityId, ENTITY_PLACEHOLDER,
};
use crate::chunk_map::ChunkMap;
use crate::mesh_cache::MeshCache;
use crate::configuration::{ChunkSpawnStrategy, ChunkVisibility, VoxelWorldConfig};
use crate::math::{floor_div_chunk, pack_key, spec_dist_sq, spec_pack_key, FxVec3, IVec3, UVec3};
use crate::overlay::ModifiedVoxels;
use crate::shape::{shape_wf, PADDED_CHUNK_SIZE};
use crate::voxel::WorldVoxel;

verus! {

broadcast use vstd::std_specs::hash::group_hash_axioms;

/// A notification that something is about to happen to a chunk, carrying
/// the chunk coordinate and its scene-graph identity.
#[derive(Clone, Copy, Debug, PartialEq, Eq, Structural)]
pub struct ChunkEvent {
    pub chunk_key: IVec3,
    pub entity: EntityId,
}

impl ChunkEvent {
    pub fn new(chunk_key: IVec3, entity: EntityId) -> (r: Self)
        ensures
            r == (ChunkEvent { chunk_key, entity }),
    {
        ChunkEvent { chunk_key, entity }
    }
}

/// Fired when a chunk is about to be despawned.
pub type ChunkWillDespawn = ChunkEvent;

/// Fired when a chunk is about to be spawned.
pub type ChunkWillSpawn = ChunkEvent;

/// Fired when a chunk is about to be remeshed.
pub type ChunkWillRemesh = ChunkEvent;

/// Fired when a voxel write lands in a loaded chunk.
pub type ChunkWillUpdate = ChunkEvent;

/// The chunk coordinate that contains a world voxel coordinate.
pub open spec fn spec_chunk_of(p: IVec3) -> IVec3 {
    IVec3 {
        x: (p.x as int / 32) as i32,
        y: (p.y as int / 32) as i32,
        z: (p.z as int / 32) as i32,
    }
}

/// The chunk coordinate that contains a world voxel coordinate.
pub fn chunk_of(p: IVec3) -> (r: IVec3)
    ensures
        r == spec_chunk_of(p),
{
    IVec3 { x: floor_div_chunk(p.x), y: floor_div_chunk(p.y), z: floor_div_chunk(p.z) }
}

/// The newest pending write for a position, if any: later writes shadow
/// earlier ones.
pub open spec fn spec_buffer_lookup(s: Seq<(IVec3, WorldVoxel)>, p: IVec3) -> Option<WorldVoxel>
    decreases s.len(),
{
    if s.len() == 0 {
        Option::None
    } else if s.last().0 == p {
        Option::Some(s.last().1)
    } else {
        spec_buffer_lookup(s.drop_last(), p)
    }
}

/// The effect of flushing pending writes into the overlay, front to back.
pub open spec fn spec_apply_writes(m: Map<u128, WorldVoxel>, s: Seq<(IVec3, WorldVoxel)>) -> Map<
    u128,
    WorldVoxel,
>
    decreases s.len(),
{
    if s.len() == 0 {
        m
    } else {
        spec_apply_writes(m.insert(spec_pack_key(s[0].0) as u128, s[0].1), s.skip(1))
    }
}


/// A coordinate of the camera's neighbourhood cube, by offset.
pub open spec fn spec_cube_coord(center: IVec3, ox: int, oy: int, oz: int) -> IVec3 {
    IVec3 { x: (center.x + ox) as i32, y: (center.y + oy) as i32, z: (center.z + oz) as i32 }
}

/// Whether a coordinate appears among the staged insertions from index
/// `from` on.
pub open spec fn staged_from(s: Seq<(IVec3, crate::chunk::ChunkData)>, from: int, p: IVec3) -> bool {
    exists|i: int| from <= i < s.len() && (#[trigger] s[i]).0 == p
}

proof fn lemma_push_keeps_contains(s: Seq<IVec3>, v: IVec3, x: IVec3)
    requires
        s.contains(x),
    ensures
        s.push(v).contains(x),
{
    let i = choose|i: int| 0 <= i < s.len() && s[i] == x;
    assert(s.push(v)[i] == x);
}

/// The whole voxel world: the chunk map, the modified-voxel overlay, the
/// per-tick voxel write buffer, the set of chunks waiting for a remesh,
/// the chunks tagged for retirement, and the scheduler configuration.
pub struct VoxelWorld {
    pub config: VoxelWorldConfig,
    chunk_map: ChunkMap,
    modified_voxels: ModifiedVoxels,
    voxel_write_buffer: Vec<(IVec3, WorldVoxel)>,
    /// Chunks whose data changed and that need regeneration + remeshing.
    dirty_chunks: Vec<IVec3>,
    /// Chunks tagged for despawning, awaiting `despawn_retired_chunks`.
    retired_chunks: Vec<IVec3>,
    next_entity: EntityId,
}

impl VoxelWorld {
    pub closed spec fn chunk_map_view(&self) -> Map<u128, ChunkData> {
        self.chunk_map.map_view()
    }

    pub closed spec fn overlay_view(&self) -> Map<u128, WorldVoxel> {
        self.modified_voxels@
    }

    pub closed spec fn write_buffer_view(&self) -> Seq<(IVec3, WorldVoxel)> {
        self.voxel_write_buffer@
    }

    pub closed spec fn dirty_view(&self) -> Seq<IVec3> {
        self.dirty_chunks@
    }

    pub closed spec fn retired_view(&self) -> Seq<IVec3> {
        self.retired_chunks@
    }

    pub closed spec fn spec_wf(&self) -> bool {
        self.chunk_map.wf()
    }

    pub closed spec fn spec_config(&self) -> VoxelWorldConfig {
        self.config
    }

    /// The loaded chunk covering a chunk coordinate, if any.
    pub open spec fn spec_chunk_at(&self, chunk_pos: IVec3) -> Option<ChunkData> {
        if self.chunk_map_view().contains_key(spec_pack_key(chunk_pos) as u128) {
            Option::Some(self.chunk_map_view()[spec_pack_key(chunk_pos) as u128])
        } else {
            Option::None
        }
    }

    /// What a live voxel query returns: the newest unflushed write if one
    /// exists, else the overlay, else the loaded chunk's data, else
    /// `Unset`.
    pub open spec fn spec_get_voxel(&self, p: IVec3) -> WorldVoxel {
        match spec_buffer_lookup(self.write_buffer_view(), p) {
            Option::Some(v) => v,
            Option::None => match self.spec_overlay_at(p) {
                Option::Some(v) => v,
                Option::None => match self.spec_chunk_at(spec_chunk_of(p)) {
                    Option::Some(c) => match c.spec_voxel_at_world(p) {
                        Option::Some(v) => v,
                        Option::None => WorldVoxel::Unset,
                    },
                    Option::None => WorldVoxel::Unset,
                },
            },
        }
    }

    pub open spec fn spec_overlay_at(&self, p: IVec3) -> Option<WorldVoxel> {
        if self.overlay_view().contains_key(spec_pack_key(p) as u128) {
            Option::Some(self.overlay_view()[spec_pack_key(p) as u128])
        } else {
            Option::None
        }
    }

    /// A fresh world with nothing loaded.
    pub fn new(config: VoxelWorldConfig) -> (r: Self)
        ensures
            r.spec_wf(),
            r.chunk_map_view() == Map::<u128, ChunkData>::empty(),
            r.overlay_view() == Map::<u128, WorldVoxel>::empty(),
            r.write_buffer_view() == Seq::<(IVec3, WorldVoxel)>::empty(),
            r.dirty_view() == Seq::<IVec3>::empty(),
            r.retired_view() == Seq::<IVec3>::empty(),
            r.spec_config() == config,
    {
        VoxelWorld {
            config,
            chunk_map: ChunkMap::new(),
            modified_voxels: ModifiedVoxels::new(),
            voxel_write_buffer: Vec::new(),
            dirty_chunks: Vec::new(),
            retired_chunks: Vec::new(),
            next_entity: 1,
        }
    }

    /// Queues a voxel write. The write is visible at once through
    /// `get_voxel`, and reaches the overlay (and regeneration) at the next
    /// `flush_voxel_write_buffer`.
    pub fn set_voxel(&mut self, position: IVec3, voxel: WorldVoxel)
        requires
            old(self).spec_wf(),
        ensures
            final(self).spec_wf(),
            final(self).write_buffer_view() == old(self).write_buffer_view().push(
                (position, voxel),
            ),
            // A write is immediately observable: setting then getting the
            // same position yields the written voxel.
            final(self).spec_get_voxel(position) == voxel,
            // Other positions read as before.
            forall|q: IVec3|
                q != position ==> final(self).spec_get_voxel(q) == old(self).spec_get_voxel(q),
            final(self).chunk_map_view() == old(self).chunk_map_view(),
            final(self).overlay_view() == old(self).overlay_view(),
            final(self).dirty_view() == old(self).dirty_view(),
            final(self).retired_view() == old(self).retired_view(),
            final(self).spec_config() == old(self).spec_config(),
    {
        self.voxel_write_buffer.push((position, voxel));
        proof {
            assert(self.write_buffer_view().last() == (position, voxel));
            assert forall|q: IVec3| q != position implies self.spec_get_voxel(q) == old(self).spec_get_voxel(q) by {
                assert(self.write_buffer_view().drop_last() =~= old(self).write_buffer_view());
            }
        }
    }

    /// The voxel at a world coordinate: pending writes first, then the
    /// overlay, then loaded chunk data; `Unset` where nothing is known.
    pub fn get_voxel(&self, position: IVec3) -> (r: WorldVoxel)
        requires
            self.spec_wf(),
        ensures
            r == self.spec_get_voxel(position),
    {
        let buf: &Vec<(IVec3, WorldVoxel)> = &self.voxel_write_buffer;
        let mut i: usize = buf.len();
        proof {
            assert(buf@.take(buf@.len() as int) =~= buf@);
        }
        while i > 0
            invariant
                0 <= i <= buf@.len(),
                buf@ == self.write_buffer_view(),
                spec_buffer_lookup(buf@, position) == spec_buffer_lookup(
                    buf@.take(i as int),
                    position,
                ),
            decreases i,
        {
            i = i - 1;
            let (p, v) = buf[i];
            proof {
                assert(buf@.take(i + 1).last() == buf@[i as int]);
                assert(buf@.take(i + 1).drop_last() =~= buf@.take(i as int));
                assert(spec_buffer_lookup(buf@.take(i + 1), position) == if buf@[i as int].0
                    == position {
                    Option::Some(buf@[i as int].1)
                } else {
                    spec_buffer_lookup(buf@.take(i as int), position)
                });
            }
            if p == position {
                proof {
                    assert(buf@[i as int].0 == position && buf@[i as int].1 == v);
                    assert(spec_buffer_lookup(buf@.take(i + 1), position) == Option::Some(v));
                    assert(spec_buffer_lookup(buf@, position) == Option::Some(v));
                }
                return v;
            }
        }
        proof {
            assert(buf@.take(0) =~= Seq::<(IVec3, WorldVoxel)>::empty());
        }
        match self.modified_voxels.get_voxel(position) {
            Option::Some(v) => v,
            Option::None => {
                let chunk_pos = chunk_of(position);
                match self.chunk_map.get(chunk_pos) {
                    Option::Some(chunk) => {
                        proof {
                            assert(self.chunk_map_view().dom().contains(
                                spec_pack_key(chunk_pos) as u128,
                            ));
                        }
                        match chunk.get_voxel_at_world_position(position) {
                            Option::Some(v) => v,
                            Option::None => WorldVoxel::Unset,
                        }
                    },
                    Option::None => WorldVoxel::Unset,
                }
            },
        }
    }

    /// The data of the loaded chunk at a chunk coordinate, if any.
    pub fn get_chunk_data(&self, chunk_pos: IVec3) -> (r: Option<&ChunkData>)
        ensures
            match r {
                Option::Some(d) => self.spec_chunk_at(chunk_pos) == Option::Some(*d),
                Option::None => self.spec_chunk_at(chunk_pos) is None,
            },
    {
        self.chunk_map.get(chunk_pos)
    }

    /// The number of loaded chunks.
    pub fn loaded_chunk_count(&self) -> (r: usize)
        ensures
            r == self.chunk_map_view().len(),
    {
        self.chunk_map.len()
    }

    /// The inclusive chunk-coordinate bounding box of the loaded set.
    pub fn get_bounds(&self) -> (r: (IVec3, IVec3)) {
        self.chunk_map.get_bounds()
    }

    /// The coordinates of all loaded chunks.
    pub fn loaded_chunk_positions(&self) -> (r: &Vec<IVec3>)
        ensures
            r@ == self.chunk_positions(),
    {
        self.chunk_map.get_positions()
    }

    /// Stages a chunk for replacement at the next chunk-map flush; the
    /// event is reported back when the buffers are applied.
    pub fn buffer_chunk_update(&mut self, position: IVec3, data: ChunkData, event: ChunkEvent)
        requires
            old(self).spec_wf(),
            chunk_position_in_range(position),
            data.wf(),
        ensures
            final(self).spec_wf(),
            final(self).staged_updates() == old(self).staged_updates().push(
                (position, data, event),
            ),
            final(self).chunk_map_view() == old(self).chunk_map_view(),
            final(self).overlay_view() == old(self).overlay_view(),
            final(self).write_buffer_view() == old(self).write_buffer_view(),
            final(self).dirty_view() == old(self).dirty_view(),
            final(self).retired_view() == old(self).retired_view(),
            final(self).staged_inserts() == old(self).staged_inserts(),
            final(self).staged_removes() == old(self).staged_removes(),
            final(self).spec_config() == old(self).spec_config(),
    {
        self.chunk_map.buffer_update(position, data, event);
    }

    /// Flushes all pending voxel writes into the overlay, newest last (so
    /// the newest write to a position wins), marks every loaded chunk that
    /// received a write as dirty, and reports one update event per such
    /// chunk.
    #[verifier::rlimit(100)]
    pub fn flush_voxel_write_buffer(&mut self) -> (events: Vec<ChunkEvent>)
        requires
            old(self).spec_wf(),
        ensures
            final(self).spec_wf(),
            final(self).overlay_view() == spec_apply_writes(
                old(self).overlay_view(),
                old(self).write_buffer_view(),
            ),
            final(self).write_buffer_view() == Seq::<(IVec3, WorldVoxel)>::empty(),
            final(self).chunk_map_view() == old(self).chunk_map_view(),
            final(self).retired_view() == old(self).retired_view(),
            final(self).spec_config() == old(self).spec_config(),
            // Soundness: every event names a loaded chunk that received a
            // write, with that chunk's scene identity.
            forall|e: int|
                0 <= e < events@.len() ==> {
                    let key = spec_pack_key((#[trigger] events@[e]).chunk_key) as u128;
                    &&& old(self).chunk_map_view().contains_key(key)
                    &&& events@[e].entity == old(self).chunk_map_view()[key].entity
                    &&& exists|j: int|
                        0 <= j < old(self).write_buffer_view().len() && spec_chunk_of(
                            (#[trigger] old(self).write_buffer_view()[j]).0,
                        ) == events@[e].chunk_key
                },
            // Exactly one event per written chunk: no two events share a
            // chunk coordinate.
            forall|e1: int, e2: int|
                0 <= e1 < e2 < events@.len() ==> (#[trigger] events@[e1]).chunk_key != (
                #[trigger] events@[e2]).chunk_key,
            // Completeness: every write that hit a loaded chunk is
            // reported.
            forall|j: int|
                0 <= j < old(self).write_buffer_view().len() && old(self).chunk_map_view().contains_key(
                    spec_pack_key(
                        spec_chunk_of((#[trigger] old(self).write_buffer_view()[j]).0),
                    ) as u128,
                ) ==> exists|e: int|
                    0 <= e < events@.len() && (#[trigger] events@[e]).chunk_key == spec_chunk_of(
                        old(self).write_buffer_view()[j].0,
                    ),
            // Every chunk that received a write is marked dirty.
            forall|j: int|
                0 <= j < old(self).write_buffer_view().len() && old(self).chunk_map_view().contains_key(
                    spec_pack_key(
                        spec_chunk_of((#[trigger] old(self).write_buffer_view()[j]).0),
                    ) as u128,
                ) ==> final(self).dirty_view().contains(
                    spec_chunk_of(old(self).write_buffer_view()[j].0),
                ),
            // Dirty marks only grow.
            forall|d: int|
                0 <= d < old(self).dirty_view().len() ==> final(self).dirty_view().contains(
                    #[trigger] old(self).dirty_view()[d],
                ),
    {
        let mut buffer: Vec<(IVec3, WorldVoxel)> = Vec::new();
        std::mem::swap(&mut buffer, &mut self.voxel_write_buffer);
        let ghost g_buffer = buffer@;
        let ghost m0 = self.modified_voxels@;
        proof {
            assert(g_buffer.skip(0) =~= g_buffer);
        }
        // First pass: land every write in the overlay, oldest first, so
        // the newest write to a position wins.
        let mut j: usize = 0;
        while j < buffer.len()
            invariant
                0 <= j <= buffer@.len(),
                buffer@ == g_buffer,
                spec_apply_writes(m0, g_buffer) == spec_apply_writes(
                    self.overlay_view(),
                    g_buffer.skip(j as int),
                ),
                *self == (VoxelWorld {
                    modified_voxels: self.modified_voxels,
                    voxel_write_buffer: self.voxel_write_buffer,
                    ..*old(self)
                }),
                self.write_buffer_view() == Seq::<(IVec3, WorldVoxel)>::empty(),
            decreases buffer@.len() - j,
        {
            let (position, voxel) = buffer[j];
            self.modified_voxels.insert(position, voxel);
            proof {
                assert(g_buffer.skip(j as int)[0] == g_buffer[j as int]);
                assert(g_buffer.skip(j as int).skip(1) =~= g_buffer.skip(j as int + 1));
            }
            j = j + 1;
        }
        proof {
            assert(g_buffer.skip(g_buffer.len() as int) =~= Seq::<(IVec3, WorldVoxel)>::empty());
        }
        // Second pass: mark every loaded chunk that received a write as
        // dirty, reporting each such chunk once.
        let ghost m_final = self.modified_voxels@;
        let mut events: Vec<ChunkEvent> = Vec::new();
        let mut j2: usize = 0;
        while j2 < buffer.len()
            invariant
                0 <= j2 <= buffer@.len(),
                buffer@ == g_buffer,
                self.overlay_view() == m_final,
                *self == (VoxelWorld {
                    modified_voxels: self.modified_voxels,
                    dirty_chunks: self.dirty_chunks,
                    voxel_write_buffer: self.voxel_write_buffer,
                    ..*old(self)
                }),
                self.write_buffer_view() == Seq::<(IVec3, WorldVoxel)>::empty(),
                self.overlay_view() == spec_apply_writes(m0, g_buffer),
                forall|e: int|
                    0 <= e < events@.len() ==> {
                        let key = spec_pack_key((#[trigger] events@[e]).chunk_key) as u128;
                        &&& old(self).chunk_map_view().contains_key(key)
                        &&& events@[e].entity == old(self).chunk_map_view()[key].entity
                        &&& exists|jj: int|
                            0 <= jj < g_buffer.len() && spec_chunk_of(
                                (#[trigger] g_buffer[jj]).0,
                            ) == events@[e].chunk_key
                    },
                forall|e1: int, e2: int|
                    0 <= e1 < e2 < events@.len() ==> (#[trigger] events@[e1]).chunk_key != (
                    #[trigger] events@[e2]).chunk_key,
                forall|jj: int|
                    0 <= jj < j2 && old(self).chunk_map_view().contains_key(
                        spec_pack_key(spec_chunk_of((#[trigger] g_buffer[jj]).0)) as u128,
                    ) ==> exists|e: int|
                        0 <= e < events@.len() && (#[trigger] events@[e]).chunk_key
                            == spec_chunk_of(g_buffer[jj].0),
                forall|jj: int|
                    0 <= jj < j2 && old(self).chunk_map_view().contains_key(
                        spec_pack_key(spec_chunk_of((#[trigger] g_buffer[jj]).0)) as u128,
                    ) ==> self.dirty_view().contains(spec_chunk_of(g_buffer[jj].0)),
                forall|d: int|
                    0 <= d < old(self).dirty_view().len() ==> self.dirty_view().contains(
                        #[trigger] old(self).dirty_view()[d],
                    ),
            decreases buffer@.len() - j2,
        {
            let (position, _voxel) = buffer[j2];
            let chunk_pos = chunk_of(position);
            let entity_opt: Option<EntityId> = match self.chunk_map.get(chunk_pos) {
                Option::Some(chunk) => Option::Some(chunk.entity),
                Option::None => Option::None,
            };
            let ghost pre_events = events@;
            let ghost pre_dirty = self.dirty_view();
            match entity_opt {
                Option::Some(entity) => {
                    self.mark_dirty(chunk_pos);
                    let mut found: bool = false;
                    let mut e: usize = 0;
                    while e < events.len()
                        invariant
                            0 <= e <= events@.len(),
                            events@ == pre_events,
                            found ==> exists|ee: int|
                                0 <= ee < events@.len() && (#[trigger] events@[ee]).chunk_key
                                    == chunk_pos,
                            !found ==> forall|ee: int|
                                0 <= ee < e ==> (#[trigger] events@[ee]).chunk_key != chunk_pos,
                        decreases events@.len() - e,
                    {
                        if events[e].chunk_key == chunk_pos {
                            found = true;
                            proof {
                                assert(events@[e as int].chunk_key == chunk_pos);
                            }
                        }
                        e = e + 1;
                    }
                    if !found {
                        events.push(ChunkEvent { chunk_key: chunk_pos, entity });
                        proof {
                            assert(events@.last().chunk_key == chunk_pos);
                        }
                    }
                },
                Option::None => {},
            }
            proof {
                assert forall|jj: int|
                    0 <= jj < j2 + 1 && old(self).chunk_map_view().contains_key(
                        spec_pack_key(spec_chunk_of((#[trigger] g_buffer[jj]).0)) as u128,
                    ) implies exists|e: int|
                    0 <= e < events@.len() && (#[trigger] events@[e]).chunk_key == spec_chunk_of(
                        g_buffer[jj].0,
                    ) by {
                    if jj < j2 {
                        let e0 = choose|e0: int|
                            0 <= e0 < pre_events.len() && (#[trigger] pre_events[e0]).chunk_key
                                == spec_chunk_of(g_buffer[jj].0);
                        assert(events@[e0] == pre_events[e0]);
                    } else {
                        assert(exists|ee: int|
                            0 <= ee < events@.len() && (#[trigger] events@[ee]).chunk_key
                                == chunk_pos);
                    }
                }
                assert forall|jj: int|
                    0 <= jj < j2 + 1 && old(self).chunk_map_view().contains_key(
                        spec_pack_key(spec_chunk_of((#[trigger] g_buffer[jj]).0)) as u128,
                    ) implies self.dirty_view().contains(spec_chunk_of(g_buffer[jj].0)) by {
                    if jj < j2 {
                        let d0 = choose|d0: int|
                            0 <= d0 < pre_dirty.len() && pre_dirty[d0] == spec_chunk_of(
                                g_buffer[jj].0,
                            );
                        assert(self.dirty_view().contains(pre_dirty[d0]));
                    }
                }
                assert forall|e: int| 0 <= e < events@.len() implies {
                    let key = spec_pack_key((#[trigger] events@[e]).chunk_key) as u128;
                    &&& old(self).chunk_map_view().contains_key(key)
                    &&& events@[e].entity == old(self).chunk_map_view()[key].entity
                    &&& exists|jj: int|
                        0 <= jj < g_buffer.len() && spec_chunk_of(
                            (#[trigger] g_buffer[jj]).0,
                        ) == events@[e].chunk_key
                } by {
                    if e < pre_events.len() {
                        assert(events@[e] == pre_events[e]);
                    } else if e < events@.len() {
                        assert(events@[e].chunk_key == chunk_pos);
                        assert(spec_chunk_of((g_buffer[j2 as int]).0) == chunk_pos);
                    }
                }
            }
            j2 = j2 + 1;
        }
        events
    }

    /// Records that a loaded chunk needs regeneration and remeshing.
    fn mark_dirty(&mut self, chunk_pos: IVec3)
        ensures
            *final(self) == (VoxelWorld { dirty_chunks: final(self).dirty_chunks, ..*old(self) }),
            final(self).dirty_view().contains(chunk_pos),
            forall|d: int|
                0 <= d < old(self).dirty_view().len() ==> final(self).dirty_view().contains(
                    #[trigger] old(self).dirty_view()[d],
                ),
            forall|d: int|
                0 <= d < final(self).dirty_view().len() ==> old(self).dirty_view().contains(
                    #[trigger] final(self).dirty_view()[d],
                ) || final(self).dirty_view()[d] == chunk_pos,
    {
        let mut i: usize = 0;
        let n = self.dirty_chunks.len();
        while i < n
            invariant
                0 <= i <= n,
                n == self.dirty_chunks@.len(),
                *self == *old(self),
                forall|d: int| 0 <= d < i ==> (#[trigger] self.dirty_chunks@[d]) != chunk_pos,
            decreases n - i,
        {
            if self.dirty_chunks[i] == chunk_pos {
                proof {
                    assert(self.dirty_view().contains(chunk_pos));
                }
                return ;
            }
            i = i + 1;
        }
        self.dirty_chunks.push(chunk_pos);
        proof {
            assert(self.dirty_view().last() == chunk_pos);
            assert forall|d: int|
                0 <= d < old(self).dirty_view().len() implies final(self).dirty_view().contains(
                #[trigger] old(self).dirty_view()[d],
            ) by {
                assert(self.dirty_view()[d] == old(self).dirty_view()[d]);
            }
        }
    }

    /// Keeps the configured scheduler limits small enough for the integer
    /// arithmetic of the discovery walk.
    pub open spec fn spec_limits_ok(&self) -> bool {
        &&& 1 <= self.spec_config().spawning_distance <= 1000
        &&& self.spec_config().min_despawn_distance <= 32
    }

    /// Discovers chunks to spawn around the camera: walks each discovery
    /// ray in chunk-length steps (stopping early at a loaded, fully solid
    /// chunk), always seeds the small neighbourhood around the camera's
    /// own chunk, then drains the queue breadth first. Every coordinate
    /// that is not yet loaded, lies within the spawning distance and
    /// respects the per-tick cap is staged as a placeholder; when the
    /// spawn strategy asks for it, its neighbours continue the flood fill.
    ///
    /// Returns one event per staged chunk, for the host to create the
    /// scene object.
    #[verifier::loop_isolation(false)]
    #[verifier::rlimit(100)]
    #[verifier::spinoff_prover]
    pub fn spawn_chunks<V: ChunkVisibility>(
        &mut self,
        camera_pos: IVec3,
        rays: &Vec<(FxVec3, FxVec3)>,
        vis: &V,
    ) -> (events: Vec<ChunkEvent>)
        requires
            old(self).spec_wf(),
            old(self).spec_limits_ok(),
            -0x1000_0000 <= camera_pos.x <= 0x1000_0000,
            -0x1000_0000 <= camera_pos.y <= 0x1000_0000,
            -0x1000_0000 <= camera_pos.z <= 0x1000_0000,
            forall|r: int|
                0 <= r < rays@.len() ==> {
                    let (o, d) = #[trigger] rays@[r];
                    &&& -0x10_0000_0000 <= o.x <= 0x10_0000_0000
                    &&& -0x10_0000_0000 <= o.y <= 0x10_0000_0000
                    &&& -0x10_0000_0000 <= o.z <= 0x10_0000_0000
                    &&& -0x10_0000 <= d.x <= 0x10_0000
                    &&& -0x10_0000 <= d.y <= 0x10_0000
                    &&& -0x10_0000 <= d.z <= 0x10_0000
                },
        ensures
            final(self).spec_wf(),
            final(self).chunk_map_view() == old(self).chunk_map_view(),
            final(self).overlay_view() == old(self).overlay_view(),
            final(self).write_buffer_view() == old(self).write_buffer_view(),
            final(self).dirty_view() == old(self).dirty_view(),
            final(self).retired_view() == old(self).retired_view(),
            final(self).spec_config() == old(self).spec_config(),
            // The staged insertions only grow.
            old(self).staged_inserts().len() <= final(self).staged_inserts().len(),
            forall|i: int|
                0 <= i < old(self).staged_inserts().len() ==> #[trigger] final(self).staged_inserts()[i] == old(self).staged_inserts()[i],
            // Every newly staged chunk is an unloaded placeholder within
            // the spawning distance of the camera's chunk.
            forall|i: int|
                old(self).staged_inserts().len() <= i < final(self).staged_inserts().len()
                    ==> {
                    let (p, d) = #[trigger] final(self).staged_inserts()[i];
                    &&& spec_dist_sq(p, spec_chunk_of(camera_pos)) <= old(self).spec_config().spawning_distance * old(self).spec_config().spawning_distance
                    &&& !old(self).chunk_map_view().contains_key(spec_pack_key(p) as u128)
                    &&& !d.has_generated
                    &&& d.is_empty
                    &&& d.wf()
                },
            // At most the per-tick cap is staged, and no coordinate is
            // staged twice.
            final(self).staged_inserts().len() - old(self).staged_inserts().len() <= old(self).spec_config().max_spawn_per_frame,
            forall|i: int, j: int|
                old(self).staged_inserts().len() <= i < j < final(self).staged_inserts().len()
                    ==> spec_pack_key((#[trigger] final(self).staged_inserts()[i]).0)
                    != spec_pack_key((#[trigger] final(self).staged_inserts()[j]).0),
            // The camera's immediate neighbourhood never waits on ray
            // luck: unless the per-tick cap cut the sweep short, every
            // unloaded in-range coordinate of the cube around the
            // camera's chunk is staged.
            (final(self).staged_inserts().len() - old(self).staged_inserts().len() < old(self).spec_config().max_spawn_per_frame) ==> forall|ox: int, oy: int, oz: int|
                (-(old(self).spec_config().min_despawn_distance as int) <= ox <= old(self).spec_config().min_despawn_distance && -(old(self).spec_config().min_despawn_distance as int)
                    <= oy <= old(self).spec_config().min_despawn_distance && -(old(self).spec_config().min_despawn_distance as int) <= oz
                    <= old(self).spec_config().min_despawn_distance && spec_dist_sq(
                    #[trigger] spec_cube_coord(spec_chunk_of(camera_pos), ox, oy, oz),
                    spec_chunk_of(camera_pos),
                ) <= old(self).spec_config().spawning_distance * old(self).spec_config().spawning_distance
                    && !old(self).chunk_map_view().contains_key(
                    spec_pack_key(spec_cube_coord(spec_chunk_of(camera_pos), ox, oy, oz)) as u128,
                )) ==> staged_from(
                    final(self).staged_inserts(),
                    old(self).staged_inserts().len() as int,
                    spec_cube_coord(spec_chunk_of(camera_pos), ox, oy, oz),
                ),
            // One event per newly staged chunk, in order.
            events@.len() == final(self).staged_inserts().len() - old(self).staged_inserts().len(),
            forall|e: int|
                0 <= e < events@.len() ==> (#[trigger] events@[e]).chunk_key == final(self).staged_inserts()[old(self).staged_inserts().len() + e].0 && events@[e].entity
                    == final(self).staged_inserts()[old(self).staged_inserts().len() + e].1.entity,
    {
        let camera_chunk: IVec3 = chunk_of(camera_pos);
        let spawning_distance: u32 = self.config.spawning_distance;
        proof {
            assert(1 <= (spawning_distance as int) * (spawning_distance as int) <= 1000000)
                by (nonlinear_arith)
                requires
                    1 <= spawning_distance <= 1000,
            ;
        }
        let dist_sq_cap: i128 = (spawning_distance as i128) * (spawning_distance as i128);
        let mut queue: Vec<IVec3> = Vec::new();

        // Discovery rays: walk forward one chunk length at a time, and
        // queue every not-yet-loaded chunk on the way.
        let mut r: usize = 0;
        while r < rays.len()
            invariant
                *self == *old(self),
            decreases rays@.len() - r,
        {
            let (origin, dir) = rays[r];
            let mut k: u32 = 0;
            while k <= spawning_distance
                invariant
                    *self == *old(self),
                decreases spawning_distance + 1 - k,
            {
                let t: i64 = 32 * (k as i64);
                proof {
                    assert(-0x2_0000_0000_0000 <= dir.x * t <= 0x2_0000_0000_0000
                        && -0x2_0000_0000_0000 <= dir.y * t <= 0x2_0000_0000_0000
                        && -0x2_0000_0000_0000 <= dir.z * t <= 0x2_0000_0000_0000)
                        by (nonlinear_arith)
                        requires
                            -0x10_0000 <= dir.x <= 0x10_0000,
                            -0x10_0000 <= dir.y <= 0x10_0000,
                            -0x10_0000 <= dir.z <= 0x10_0000,
                            0 <= t <= 32032,
                    ;
                }
                let px: i64 = origin.x + crate::math::floor_div_i64(dir.x * t, 65536);
                let py: i64 = origin.y + crate::math::floor_div_i64(dir.y * t, 65536);
                let pz: i64 = origin.z + crate::math::floor_div_i64(dir.z * t, 65536);
                let vx: i64 = crate::math::floor_div_i64(px, 65536);
                let vy: i64 = crate::math::floor_div_i64(py, 65536);
                let vz: i64 = crate::math::floor_div_i64(pz, 65536);
                if vx < -0x4000_0000 || vx > 0x4000_0000 || vy < -0x4000_0000 || vy
                    > 0x4000_0000 || vz < -0x4000_0000 || vz > 0x4000_0000 {
                    break ;
                }
                let voxel = IVec3 { x: vx as i32, y: vy as i32, z: vz as i32 };
                let chunk_pos = chunk_of(voxel);
                let mut stop: bool = false;
                match self.chunk_map.get(chunk_pos) {
                    Option::Some(chunk) => {
                        if chunk.is_full {
                            // A fully solid chunk occludes everything
                            // behind it: stop this ray early.
                            stop = true;
                        }
                    },
                    Option::None => {
                        queue.push(chunk_pos);
                    },
                }
                if stop {
                    break ;
                }
                k = k + 1;
            }
            r = r + 1;
        }

        // The camera's immediate neighbourhood always spawns, no matter
        // what the rays happened to hit.
        let min_distance: u32 = self.config.min_despawn_distance;
        let d: i32 = min_distance as i32;
        let mut x: i32 = -d;
        while x <= d
            invariant
                *self == *old(self),
                -d <= x <= d + 1,
                forall|ox: int, oy: int, oz: int|
                    (-d <= ox < x && -d <= oy <= d && -d <= oz <= d) ==> queue@.contains(
                        #[trigger] spec_cube_coord(camera_chunk, ox, oy, oz),
                    ),
            decreases d + 1 - x,
        {
            let mut y: i32 = -d;
            while y <= d
                invariant
                    *self == *old(self),
                    -d <= x <= d,
                    -d <= y <= d + 1,
                    forall|ox: int, oy: int, oz: int|
                        (-d <= ox < x && -d <= oy <= d && -d <= oz <= d) ==> queue@.contains(
                            #[trigger] spec_cube_coord(camera_chunk, ox, oy, oz),
                        ),
                    forall|oy: int, oz: int|
                        (-d <= oy < y && -d <= oz <= d) ==> queue@.contains(
                            #[trigger] spec_cube_coord(camera_chunk, x as int, oy, oz),
                        ),
                decreases d + 1 - y,
            {
                let mut z: i32 = -d;
                while z <= d
                    invariant
                        *self == *old(self),
                        -d <= x <= d,
                        -d <= y <= d,
                        -d <= z <= d + 1,
                        forall|ox: int, oy: int, oz: int|
                            (-d <= ox < x && -d <= oy <= d && -d <= oz <= d) ==> queue@.contains(
                                #[trigger] spec_cube_coord(camera_chunk, ox, oy, oz),
                            ),
                        forall|oy: int, oz: int|
                            (-d <= oy < y && -d <= oz <= d) ==> queue@.contains(
                                #[trigger] spec_cube_coord(camera_chunk, x as int, oy, oz),
                            ),
                        forall|oz: int|
                            (-d <= oz < z) ==> queue@.contains(
                                #[trigger] spec_cube_coord(camera_chunk, x as int, y as int, oz),
                            ),
                    decreases d + 1 - z,
                {
                    let ghost pre_queue = queue@;
                    queue.push(
                        IVec3 {
                            x: camera_chunk.x + x,
                            y: camera_chunk.y + y,
                            z: camera_chunk.z + z,
                        },
                    );
                    proof {
                        assert(queue@.last() == spec_cube_coord(
                            camera_chunk,
                            x as int,
                            y as int,
                            z as int,
                        ));
                        assert forall|ox: int, oy: int, oz: int|
                            (-d <= ox < x && -d <= oy <= d && -d <= oz <= d) implies queue@.contains(
                            #[trigger] spec_cube_coord(camera_chunk, ox, oy, oz),
                        ) by {
                            lemma_push_keeps_contains(
                                pre_queue,
                                queue@.last(),
                                spec_cube_coord(camera_chunk, ox, oy, oz),
                            );
                        }
                        assert forall|oy: int, oz: int|
                            (-d <= oy < y && -d <= oz <= d) implies queue@.contains(
                            #[trigger] spec_cube_coord(camera_chunk, x as int, oy, oz),
                        ) by {
                            lemma_push_keeps_contains(
                                pre_queue,
                                queue@.last(),
                                spec_cube_coord(camera_chunk, x as int, oy, oz),
                            );
                        }
                        assert forall|oz: int| (-d <= oz < z + 1) implies queue@.contains(
                            #[trigger] spec_cube_coord(camera_chunk, x as int, y as int, oz),
                        ) by {
                            if oz < z {
                                lemma_push_keeps_contains(
                                    pre_queue,
                                    queue@.last(),
                                    spec_cube_coord(camera_chunk, x as int, y as int, oz),
                                );
                            }
                        }
                    }
                    z = z + 1;
                }
                y = y + 1;
            }
            x = x + 1;
        }
        // From here on the queue only grows, so this snapshot keeps every
        // neighbourhood coordinate at a stable index.
        let ghost g_queue0 = queue@;

        // Breadth-first drain with a visited set, a distance check and the
        // per-tick cap.
        let mut visited: std::collections::HashSet<u128> = std::collections::HashSet::new();
        let mut events: Vec<ChunkEvent> = Vec::new();
        let cap: usize = self.config.max_spawn_per_frame;
        let mut inserted: usize = 0;
        let mut qi: usize = 0;
        let ghost base = old(self).staged_inserts().len();
        while qi < queue.len() && inserted < cap
            invariant
                self.spec_wf(),
                self.chunk_map_view() == old(self).chunk_map_view(),
                self.overlay_view() == old(self).overlay_view(),
                self.write_buffer_view() == old(self).write_buffer_view(),
                self.dirty_view() == old(self).dirty_view(),
                self.retired_view() == old(self).retired_view(),
                self.spec_config() == old(self).spec_config(),
                self.staged_updates() == old(self).staged_updates(),
                self.staged_removes() == old(self).staged_removes(),
                self.staged_inserts().len() == base + inserted,
                inserted <= cap,
                qi <= queue@.len(),
                // The seeded prefix of the queue is stable.
                g_queue0.len() <= queue@.len(),
                forall|idx: int| 0 <= idx < g_queue0.len() ==> #[trigger] queue@[idx] == g_queue0[idx],
                // Every queue entry already passed is in the visited set.
                forall|idx: int|
                    0 <= idx < qi ==> visited@.contains(
                        spec_pack_key(#[trigger] queue@[idx]) as u128,
                    ),
                // Every visited coordinate was disposed of: staged, or
                // already loaded, or out of range.
                forall|c: IVec3|
                    #[trigger] visited@.contains(spec_pack_key(c) as u128) ==> staged_from(
                        self.staged_inserts(),
                        base as int,
                        c,
                    ) || old(self).chunk_map_view().contains_key(spec_pack_key(c) as u128)
                        || spec_dist_sq(c, camera_chunk) > dist_sq_cap,
                // Staged keys sit in the visited set, and are distinct.
                forall|i: int|
                    base <= i < self.staged_inserts().len() ==> visited@.contains(
                        spec_pack_key((#[trigger] self.staged_inserts()[i]).0) as u128,
                    ),
                forall|i: int, j: int|
                    base <= i < j < self.staged_inserts().len() ==> spec_pack_key(
                        (#[trigger] self.staged_inserts()[i]).0,
                    ) != spec_pack_key((#[trigger] self.staged_inserts()[j]).0),
                forall|i: int|
                    0 <= i < base ==> #[trigger] self.staged_inserts()[i] == old(self).staged_inserts()[i],
                forall|i: int|
                    base <= i < self.staged_inserts().len() ==> {
                        let (p, dd) = #[trigger] self.staged_inserts()[i];
                        &&& spec_dist_sq(p, camera_chunk) <= dist_sq_cap
                        &&& !old(self).chunk_map_view().contains_key(spec_pack_key(p) as u128)
                        &&& !dd.has_generated
                        &&& dd.is_empty
                        &&& dd.wf()
                    },
                events@.len() == inserted,
                forall|e: int|
                    0 <= e < events@.len() ==> (#[trigger] events@[e]).chunk_key
                        == self.staged_inserts()[base + e].0 && events@[e].entity
                        == self.staged_inserts()[base + e].1.entity,
            decreases cap - inserted, queue@.len() - qi,
        {
            let ghost pre_queue_len = queue@.len();
            let ghost pre_queue = queue@;
            let ghost pre_staged = self.staged_inserts();
            let ghost pre_visited = visited@;
            let chunk_position = queue[qi];
            qi = qi + 1;
            let key: u128 = pack_key(chunk_position);
            if !visited.contains(&key) {
                visited.insert(key);
                let dist_sq: i128 = chunk_position.distance_squared(camera_chunk);
                if dist_sq <= dist_sq_cap {
                    if !self.chunk_map.contains_chunk(chunk_position) {
                        proof {
                            assert(-1000 <= chunk_position.x - camera_chunk.x <= 1000
                                && -1000 <= chunk_position.y - camera_chunk.y <= 1000 && -1000
                                <= chunk_position.z - camera_chunk.z <= 1000) by (nonlinear_arith)
                                requires
                                    spec_dist_sq(chunk_position, camera_chunk) <= 1000000,
                            ;
                        }
                        let entity: EntityId = self.next_entity;
                        self.next_entity = self.next_entity.wrapping_add(1);
                        let data = ChunkData::with_entity(entity);
                        self.chunk_map.buffer_insert(chunk_position, data);
                        events.push(ChunkEvent { chunk_key: chunk_position, entity });
                        inserted = inserted + 1;
                        proof {
                            assert((self.staged_inserts().last()).0 == chunk_position);
                        }
                        // Continue the flood fill through this chunk's
                        // neighbours, when the strategy asks for it.
                        let expand: bool = match self.config.spawn_strategy {
                            ChunkSpawnStrategy::Close => true,
                            ChunkSpawnStrategy::CloseAndInView => vis.chunk_in_view(
                                chunk_position,
                            ),
                        };
                        if expand {
                            let mut nx: i32 = -1;
                            while nx <= 1
                                invariant
                                    -1 <= nx <= 2,
                                    queue@.len() <= pre_queue_len + (nx + 1) * 9,
                                    pre_queue_len <= queue@.len(),
                                    forall|idx: int|
                                        0 <= idx < pre_queue_len ==> #[trigger] queue@[idx]
                                            == pre_queue[idx],
                                decreases 2 - nx,
                            {
                                let mut ny: i32 = -1;
                                while ny <= 1
                                    invariant
                                        -1 <= nx <= 1,
                                        -1 <= ny <= 2,
                                        queue@.len() <= pre_queue_len + (nx + 1) * 9 + (ny + 1)
                                            * 3,
                                        pre_queue_len <= queue@.len(),
                                        forall|idx: int|
                                            0 <= idx < pre_queue_len ==> #[trigger] queue@[idx]
                                                == pre_queue[idx],
                                    decreases 2 - ny,
                                {
                                    let mut nz: i32 = -1;
                                    while nz <= 1
                                        invariant
                                            -1 <= nx <= 1,
                                            -1 <= ny <= 1,
                                            -1 <= nz <= 2,
                                            queue@.len() <= pre_queue_len + (nx + 1) * 9 + (ny
                                                + 1) * 3 + (nz + 1),
                                            pre_queue_len <= queue@.len(),
                                            forall|idx: int|
                                                0 <= idx < pre_queue_len ==> #[trigger] queue@[idx]
                                                    == pre_queue[idx],
                                        decreases 2 - nz,
                                    {
                                        if nx != 0 || ny != 0 || nz != 0 {
                                            queue.push(
                                                IVec3 {
                                                    x: chunk_position.x + nx,
                                                    y: chunk_position.y + ny,
                                                    z: chunk_position.z + nz,
                                                },
                                            );
                                        }
                                        nz = nz + 1;
                                    }
                                    ny = ny + 1;
                                }
                                nx = nx + 1;
                            }
                            proof {
                                assert(queue@.len() <= pre_queue_len + 27);
                            }
                        }
                    }
                }
                proof {
                    // The coordinate just visited is disposed of, and the
                    // dispositions of the earlier ones persist.
                    assert forall|c: IVec3|
                        #[trigger] visited@.contains(spec_pack_key(c) as u128) implies staged_from(
                        self.staged_inserts(),
                        base as int,
                        c,
                    ) || old(self).chunk_map_view().contains_key(spec_pack_key(c) as u128)
                        || spec_dist_sq(c, camera_chunk) > dist_sq_cap by {
                        if pre_visited.contains(spec_pack_key(c) as u128) {
                            if staged_from(pre_staged, base as int, c) {
                                let i = choose|i: int|
                                    base <= i < pre_staged.len() && (#[trigger] pre_staged[i]).0
                                        == c;
                                assert((self.staged_inserts()[i]).0 == c);
                            }
                        } else {
                            crate::math::lemma_pack_key_injective(c, chunk_position);
                        }
                    }
                }
            }
        }
        proof {
            // When the cap did not cut the sweep short, the whole queue
            // was drained, so every neighbourhood coordinate was visited
            // and disposed of.
            if inserted < cap {
                assert forall|ox: int, oy: int, oz: int|
                    (-(min_distance as int) <= ox <= min_distance && -(min_distance as int)
                        <= oy <= min_distance && -(min_distance as int) <= oz <= min_distance
                        && spec_dist_sq(
                        #[trigger] spec_cube_coord(camera_chunk, ox, oy, oz),
                        camera_chunk,
                    ) <= dist_sq_cap && !old(self).chunk_map_view().contains_key(
                        spec_pack_key(spec_cube_coord(camera_chunk, ox, oy, oz)) as u128,
                    )) implies staged_from(
                    self.staged_inserts(),
                    base as int,
                    spec_cube_coord(camera_chunk, ox, oy, oz),
                ) by {
                    let c = spec_cube_coord(camera_chunk, ox, oy, oz);
                    assert(g_queue0.contains(c));
                    let idx = choose|idx: int|
                        0 <= idx < g_queue0.len() && g_queue0[idx] == c;
                    assert(queue@[idx] == c);
                    assert(visited@.contains(spec_pack_key(queue@[idx]) as u128));
                }
            }
        }
        events
    }

    /// Tags loaded chunks for retirement: any chunk whose squared
    /// distance to the camera's chunk exceeds the squared spawning
    /// distance, and, under the `FarAwayOrOutOfView` strategy, any chunk
    /// that is out of view and outside the always-keep radius. Returns
    /// one despawn event per newly tagged chunk.
    #[verifier::loop_isolation(false)]
    #[verifier::rlimit(100)]
    pub fn retire_chunks<V: ChunkVisibility>(&mut self, camera_pos: IVec3, vis: &V) -> (events:
        Vec<ChunkEvent>)
        requires
            old(self).spec_wf(),
            old(self).spec_limits_ok(),
            -0x1000_0000 <= camera_pos.x <= 0x1000_0000,
            -0x1000_0000 <= camera_pos.y <= 0x1000_0000,
            -0x1000_0000 <= camera_pos.z <= 0x1000_0000,
        ensures
            final(self).spec_wf(),
            final(self).chunk_map_view() == old(self).chunk_map_view(),
            final(self).overlay_view() == old(self).overlay_view(),
            final(self).write_buffer_view() == old(self).write_buffer_view(),
            final(self).dirty_view() == old(self).dirty_view(),
            final(self).spec_config() == old(self).spec_config(),
            // Soundness: every newly tagged chunk is loaded and deserved
            // it: beyond the spawning distance, or culled while outside
            // the keep radius.
            forall|i: int|
                old(self).retired_view().len() <= i < final(self).retired_view().len() ==> {
                    let p = #[trigger] final(self).retired_view()[i];
                    &&& old(self).chunk_map_view().contains_key(spec_pack_key(p) as u128)
                    &&& (spec_dist_sq(p, spec_chunk_of(camera_pos)) > old(self).spec_config().spawning_distance * old(self).spec_config().spawning_distance
                        || (old(self).spec_config().despawn_strategy
                        == crate::configuration::ChunkDespawnStrategy::FarAwayOrOutOfView
                        && !vis.spec_chunk_in_view(p) && spec_dist_sq(
                        p,
                        spec_chunk_of(camera_pos),
                    ) > old(self).spec_config().min_despawn_distance * old(self).spec_config().min_despawn_distance))
                },
            forall|i: int|
                0 <= i < old(self).retired_view().len() ==> #[trigger] final(self).retired_view()[i] == old(self).retired_view()[i],
            // Completeness: every loaded chunk that meets the retirement
            // rule is tagged.
            forall|i: int|
                0 <= i < old(self).chunk_positions().len() && (spec_dist_sq(
                    #[trigger] old(self).chunk_positions()[i],
                    spec_chunk_of(camera_pos),
                ) > old(self).spec_config().spawning_distance * old(self).spec_config().spawning_distance || (old(self).spec_config().despawn_strategy
                    == crate::configuration::ChunkDespawnStrategy::FarAwayOrOutOfView
                    && !vis.spec_chunk_in_view(old(self).chunk_positions()[i]) && spec_dist_sq(
                    old(self).chunk_positions()[i],
                    spec_chunk_of(camera_pos),
                ) > old(self).spec_config().min_despawn_distance * old(self).spec_config().min_despawn_distance)) ==> final(self).retired_view().contains(
                    old(self).chunk_positions()[i],
                ),
            events@.len() == final(self).retired_view().len() - old(self).retired_view().len(),
            forall|e: int|
                0 <= e < events@.len() ==> (#[trigger] events@[e]).chunk_key == final(self).retired_view()[old(self).retired_view().len() + e],
    {
        let camera_chunk: IVec3 = chunk_of(camera_pos);
        let spawning_distance: u32 = self.config.spawning_distance;
        let min_d: u32 = self.config.min_despawn_distance;
        proof {
            assert(1 <= (spawning_distance as int) * (spawning_distance as int) <= 1000000
                && 0 <= (min_d as int) * (min_d as int) <= 1024) by (nonlinear_arith)
                requires
                    1 <= spawning_distance <= 1000,
                    0 <= min_d <= 32,
            ;
        }
        let dist_sq_cap: i128 = (spawning_distance as i128) * (spawning_distance as i128);
        let keep_sq: i128 = (min_d as i128) * (min_d as i128);
        let mut events: Vec<ChunkEvent> = Vec::new();
        let n: usize = self.chunk_map.position_count();
        let ghost base = old(self).retired_view().len();
        let mut i: usize = 0;
        while i < n
            invariant
                self.spec_wf(),
                *self == (VoxelWorld { retired_chunks: self.retired_chunks, ..*old(self) }),
                n == self.chunk_positions().len(),
                self.retired_view().len() == base + events@.len(),
                forall|j: int|
                    0 <= j < base ==> #[trigger] self.retired_view()[j] == old(self).retired_view()[j],
                forall|j: int|
                    base <= j < self.retired_view().len() ==> {
                        let p = #[trigger] self.retired_view()[j];
                        &&& old(self).chunk_map_view().contains_key(spec_pack_key(p) as u128)
                        &&& (spec_dist_sq(p, camera_chunk) > dist_sq_cap || (old(self).spec_config().despawn_strategy
                            == crate::configuration::ChunkDespawnStrategy::FarAwayOrOutOfView
                            && !vis.spec_chunk_in_view(p) && spec_dist_sq(p, camera_chunk)
                            > keep_sq))
                    },
                forall|j: int|
                    0 <= j < i && (spec_dist_sq(
                        #[trigger] old(self).chunk_positions()[j],
                        camera_chunk,
                    ) > dist_sq_cap || (old(self).spec_config().despawn_strategy
                        == crate::configuration::ChunkDespawnStrategy::FarAwayOrOutOfView
                        && !vis.spec_chunk_in_view(old(self).chunk_positions()[j])
                        && spec_dist_sq(old(self).chunk_positions()[j], camera_chunk)
                        > keep_sq)) ==> self.retired_view().contains(
                        old(self).chunk_positions()[j],
                    ),
                forall|e: int|
                    0 <= e < events@.len() ==> (#[trigger] events@[e]).chunk_key
                        == self.retired_view()[base + e],
            decreases n - i,
        {
            let p: IVec3 = self.chunk_map.position_at(i);
            let ghost pre_retired = self.retired_view();
            let dist_sq: i128 = p.distance_squared(camera_chunk);
            let culled: bool = match self.config.despawn_strategy {
                crate::configuration::ChunkDespawnStrategy::FarAway => false,
                crate::configuration::ChunkDespawnStrategy::FarAwayOrOutOfView => !vis
                    .chunk_in_view(p),
            };
            let near_camera: bool = dist_sq <= keep_sq;
            if (culled && !near_camera) || dist_sq > dist_sq_cap {
                let entity: EntityId = match self.chunk_map.get(p) {
                    Option::Some(c) => c.entity,
                    Option::None => ENTITY_PLACEHOLDER,
                };
                proof {
                    let keys = crate::chunk_map::pos_keys(self.chunk_map.positions_view());
                    assert(keys[i as int] == spec_pack_key(p) as u128);
                    assert(keys.contains(keys[i as int]));
                    assert(self.chunk_map_view().dom().contains(spec_pack_key(p) as u128));
                }
                self.retired_chunks.push(p);
                events.push(ChunkEvent { chunk_key: p, entity });
            }
            proof {
                assert forall|j: int|
                    0 <= j < i + 1 && (spec_dist_sq(
                        #[trigger] old(self).chunk_positions()[j],
                        camera_chunk,
                    ) > dist_sq_cap || (old(self).spec_config().despawn_strategy
                        == crate::configuration::ChunkDespawnStrategy::FarAwayOrOutOfView
                        && !vis.spec_chunk_in_view(old(self).chunk_positions()[j])
                        && spec_dist_sq(old(self).chunk_positions()[j], camera_chunk)
                        > keep_sq)) implies self.retired_view().contains(
                    old(self).chunk_positions()[j],
                ) by {
                    if j < i {
                        let d0 = choose|d0: int|
                            0 <= d0 < pre_retired.len() && pre_retired[d0] == old(self).chunk_positions()[j];
                        assert(self.retired_view()[d0] == pre_retired[d0]);
                    } else {
                        assert(self.retired_view().last() == p);
                    }
                }
            }
            i = i + 1;
        }
        events
    }

    /// Despawns the chunks previously tagged for retirement: every tagged
    /// coordinate that is still loaded is staged for removal from the
    /// chunk map, and reported so the host can drop the scene object.
    #[verifier::loop_isolation(false)]
    #[verifier::rlimit(100)]
    pub fn despawn_retired_chunks(&mut self) -> (events: Vec<ChunkEvent>)
        requires
            old(self).spec_wf(),
        ensures
            final(self).spec_wf(),
            final(self).chunk_map_view() == old(self).chunk_map_view(),
            final(self).overlay_view() == old(self).overlay_view(),
            final(self).write_buffer_view() == old(self).write_buffer_view(),
            final(self).dirty_view() == old(self).dirty_view(),
            final(self).spec_config() == old(self).spec_config(),
            final(self).retired_view() == Seq::<IVec3>::empty(),
            // Every tagged coordinate that is still loaded is now staged
            // for removal.
            forall|i: int|
                0 <= i < old(self).retired_view().len() && old(self).chunk_map_view().contains_key(
                    spec_pack_key(#[trigger] old(self).retired_view()[i]) as u128,
                ) ==> final(self).staged_removes().contains(old(self).retired_view()[i]),
            // Staged removals only grow, and only by tagged coordinates.
            forall|i: int|
                0 <= i < old(self).staged_removes().len() ==> #[trigger] final(self).staged_removes()[i] == old(self).staged_removes()[i],
            forall|i: int|
                old(self).staged_removes().len() <= i < final(self).staged_removes().len()
                    ==> old(self).retired_view().contains(
                    #[trigger] final(self).staged_removes()[i],
                ),
    {
        let mut retired: Vec<IVec3> = Vec::new();
        std::mem::swap(&mut retired, &mut self.retired_chunks);
        let ghost g_retired = retired@;
        let mut events: Vec<ChunkEvent> = Vec::new();
        let mut i: usize = 0;
        while i < retired.len()
            invariant
                self.spec_wf(),
                retired@ == g_retired,
                0 <= i <= g_retired.len(),
                self.retired_view() == Seq::<IVec3>::empty(),
                self.chunk_map_view() == old(self).chunk_map_view(),
                self.overlay_view() == old(self).overlay_view(),
                self.write_buffer_view() == old(self).write_buffer_view(),
                self.dirty_view() == old(self).dirty_view(),
                self.spec_config() == old(self).spec_config(),
                self.staged_inserts() == old(self).staged_inserts(),
                self.staged_updates() == old(self).staged_updates(),
                forall|j: int|
                    0 <= j < i && old(self).chunk_map_view().contains_key(
                        spec_pack_key(#[trigger] g_retired[j]) as u128,
                    ) ==> self.staged_removes().contains(g_retired[j]),
                old(self).staged_removes().len() <= self.staged_removes().len(),
                forall|j: int|
                    0 <= j < old(self).staged_removes().len() ==> #[trigger] self.staged_removes()[j]
                        == old(self).staged_removes()[j],
                forall|j: int|
                    old(self).staged_removes().len() <= j < self.staged_removes().len()
                        ==> g_retired.contains(#[trigger] self.staged_removes()[j]),
            decreases g_retired.len() - i,
        {
            let p: IVec3 = retired[i];
            let ghost pre_removes = self.staged_removes();
            match self.despawn_one(p) {
                Option::Some(ev) => {
                    events.push(ev);
                },
                Option::None => {},
            }
            proof {
                assert forall|j: int|
                    0 <= j < i + 1 && old(self).chunk_map_view().contains_key(
                        spec_pack_key(#[trigger] g_retired[j]) as u128,
                    ) implies self.staged_removes().contains(g_retired[j]) by {
                    if j < i {
                        let d0 = choose|d0: int|
                            0 <= d0 < pre_removes.len() && pre_removes[d0] == g_retired[j];
                        assert(self.staged_removes()[d0] == pre_removes[d0]);
                    } else {
                        assert(self.staged_removes().last() == g_retired[j]);
                    }
                }
            }
            i = i + 1;
        }
        events
    }

    /// Stages one tagged chunk for removal, if it is still loaded.
    fn despawn_one(&mut self, p: IVec3) -> (ev: Option<ChunkEvent>)
        requires
            old(self).spec_wf(),
        ensures
            final(self).spec_wf(),
            final(self).chunk_map_view() == old(self).chunk_map_view(),
            final(self).overlay_view() == old(self).overlay_view(),
            final(self).write_buffer_view() == old(self).write_buffer_view(),
            final(self).dirty_view() == old(self).dirty_view(),
            final(self).retired_view() == old(self).retired_view(),
            final(self).spec_config() == old(self).spec_config(),
            final(self).staged_inserts() == old(self).staged_inserts(),
            final(self).staged_updates() == old(self).staged_updates(),
            old(self).chunk_map_view().contains_key(spec_pack_key(p) as u128) ==> final(self).staged_removes() == old(self).staged_removes().push(p) && ev is Some,
            !old(self).chunk_map_view().contains_key(spec_pack_key(p) as u128) ==> final(self).staged_removes() == old(self).staged_removes() && ev is None,
    {
        if self.chunk_map.contains_chunk(p) {
            let entity: EntityId = match self.chunk_map.get(p) {
                Option::Some(c) => c.entity,
                Option::None => ENTITY_PLACEHOLDER,
            };
            self.chunk_map.buffer_remove(p);
            Option::Some(ChunkEvent { chunk_key: p, entity })
        } else {
            Option::None
        }
    }

    /// Replays all staged chunk-map mutations — inserts, updates, then
    /// removals — transactionally, clearing the buffers; hands back one
    /// spawn event per staged update.
    pub fn flush_chunk_map_buffers(&mut self) -> (events: Vec<ChunkEvent>)
        requires
            old(self).spec_wf(),
        ensures
            final(self).spec_wf(),
            final(self).chunk_map_view() == crate::chunk_map::spec_apply_removes(
                crate::chunk_map::spec_apply_updates(
                    crate::chunk_map::spec_apply_inserts(
                        old(self).chunk_map_view(),
                        old(self).staged_inserts(),
                    ),
                    old(self).staged_updates(),
                ),
                old(self).staged_removes(),
            ),
            final(self).staged_inserts() == Seq::<(IVec3, ChunkData)>::empty(),
            final(self).staged_updates() == Seq::<(IVec3, ChunkData, ChunkEvent)>::empty(),
            final(self).staged_removes() == Seq::<IVec3>::empty(),
            events@ == old(self).staged_updates().map_values(
                |t: (IVec3, ChunkData, ChunkEvent)| t.2,
            ),
            final(self).overlay_view() == old(self).overlay_view(),
            final(self).write_buffer_view() == old(self).write_buffer_view(),
            final(self).dirty_view() == old(self).dirty_view(),
            final(self).retired_view() == old(self).retired_view(),
            final(self).spec_config() == old(self).spec_config(),
    {
        self.chunk_map.apply_buffers()
    }

    pub closed spec fn staged_inserts(&self) -> Seq<(IVec3, ChunkData)> {
        self.chunk_map.insert_buffer_view()
    }

    pub closed spec fn staged_updates(&self) -> Seq<(IVec3, ChunkData, ChunkEvent)> {
        self.chunk_map.update_buffer_view()
    }

    pub closed spec fn staged_removes(&self) -> Seq<IVec3> {
        self.chunk_map.remove_buffer_view()
    }

    pub closed spec fn chunk_positions(&self) -> Seq<IVec3> {
        self.chunk_map.positions_view()
    }

    /// The loaded-position list mirrors the chunk map exactly: its packed
    /// keys are the map's domain, without duplicates. Callers chain this
    /// with the retirement contracts to reason about whole-map sweeps.
    pub proof fn lemma_positions_mirror_map(&self)
        requires
            self.spec_wf(),
        ensures
            crate::chunk_map::pos_keys(self.chunk_positions()).to_set()
                == self.chunk_map_view().dom(),
            crate::chunk_map::pos_keys(self.chunk_positions()).no_duplicates(),
    {
    }

    /// Creates one regeneration task per dirty loaded chunk, clearing the
    /// dirty set; each task snapshots the overlay and carries the shapes
    /// the LOD settings choose for its position. Returns the tasks and
    /// one remesh event per task.
    #[verifier::loop_isolation(false)]
    #[verifier::rlimit(100)]
    pub fn remesh_dirty_chunks<Ls: crate::configuration::LodSettings>(
        &mut self,
        lod_settings: &Ls,
        camera_chunk: IVec3,
    ) -> (r: (Vec<ChunkTask>, Vec<ChunkEvent>))
        requires
            old(self).spec_wf(),
        ensures
            final(self).spec_wf(),
            final(self).chunk_map_view() == old(self).chunk_map_view(),
            final(self).overlay_view() == old(self).overlay_view(),
            final(self).write_buffer_view() == old(self).write_buffer_view(),
            final(self).retired_view() == old(self).retired_view(),
            final(self).spec_config() == old(self).spec_config(),
            final(self).staged_inserts() == old(self).staged_inserts(),
            final(self).staged_updates() == old(self).staged_updates(),
            final(self).staged_removes() == old(self).staged_removes(),
            final(self).dirty_view() == Seq::<IVec3>::empty(),
            r.0@.len() == r.1@.len(),
            // Every task regenerates a chunk that was dirty and is loaded,
            // under that chunk's scene identity, over the current overlay.
            forall|i: int|
                0 <= i < r.0@.len() ==> {
                    let t = #[trigger] r.0@[i];
                    &&& t.req_wf()
                    &&& old(self).dirty_view().contains(t.position)
                    &&& old(self).chunk_map_view().contains_key(
                        spec_pack_key(t.position) as u128,
                    )
                    &&& t.chunk_data.entity == old(self).chunk_map_view()[spec_pack_key(
                        t.position,
                    ) as u128].entity
                    &&& t.modified_voxels@ == old(self).overlay_view()
                    &&& !t.chunk_data.has_generated
                    &&& r.1@[i] == (ChunkEvent {
                        chunk_key: t.position,
                        entity: t.chunk_data.entity,
                    })
                },
            // Every dirty loaded chunk gets a task.
            forall|d: int|
                0 <= d < old(self).dirty_view().len() && old(self).chunk_map_view().contains_key(
                    spec_pack_key(#[trigger] old(self).dirty_view()[d]) as u128,
                ) ==> exists|i: int|
                    0 <= i < r.0@.len() && (#[trigger] r.0@[i]).position == old(self).dirty_view()[d],
    {
        let mut dirty: Vec<IVec3> = Vec::new();
        std::mem::swap(&mut dirty, &mut self.dirty_chunks);
        let ghost g_dirty = dirty@;
        let mut tasks: Vec<ChunkTask> = Vec::new();
        let mut events: Vec<ChunkEvent> = Vec::new();
        let mut i: usize = 0;
        while i < dirty.len()
            invariant
                0 <= i <= g_dirty.len(),
                dirty@ == g_dirty,
                self.spec_wf(),
                self.chunk_map_view() == old(self).chunk_map_view(),
                self.overlay_view() == old(self).overlay_view(),
                self.write_buffer_view() == old(self).write_buffer_view(),
                self.retired_view() == old(self).retired_view(),
                self.spec_config() == old(self).spec_config(),
                self.staged_inserts() == old(self).staged_inserts(),
                self.staged_updates() == old(self).staged_updates(),
                self.staged_removes() == old(self).staged_removes(),
                self.dirty_view() == Seq::<IVec3>::empty(),
                tasks@.len() == events@.len(),
                forall|k: int|
                    0 <= k < tasks@.len() ==> {
                        let t = #[trigger] tasks@[k];
                        &&& t.req_wf()
                        &&& g_dirty.contains(t.position)
                        &&& old(self).chunk_map_view().contains_key(
                            spec_pack_key(t.position) as u128,
                        )
                        &&& t.chunk_data.entity == old(self).chunk_map_view()[spec_pack_key(
                            t.position,
                        ) as u128].entity
                        &&& t.modified_voxels@ == old(self).overlay_view()
                        &&& !t.chunk_data.has_generated
                        &&& events@[k] == (ChunkEvent {
                            chunk_key: t.position,
                            entity: t.chunk_data.entity,
                        })
                    },
                forall|d: int|
                    0 <= d < i && old(self).chunk_map_view().contains_key(
                        spec_pack_key(#[trigger] g_dirty[d]) as u128,
                    ) ==> exists|k: int|
                        0 <= k < tasks@.len() && (#[trigger] tasks@[k]).position == g_dirty[d],
            decreases g_dirty.len() - i,
        {
            let p: IVec3 = dirty[i];
            let ghost pre_tasks = tasks@;
            let entity_opt: Option<EntityId> = match self.chunk_map.get(p) {
                Option::Some(c) => Option::Some(c.entity),
                Option::None => Option::None,
            };
            match entity_opt {
                Option::Some(entity) => {
                    proof {
                        let k = spec_pack_key(p) as u128;
                        assert(self.chunk_map_view().dom().contains(k));
                        crate::math::lemma_pack_key_injective(
                            self.chunk_map_view()[k].position,
                            p,
                        );
                    }
                    let lod: u8 = lod_settings.chunk_lod(p, camera_chunk);
                    let data_shape = crate::shape::sanitize_shape(
                        lod_settings.chunk_data_shape(lod),
                    );
                    let mesh_shape = crate::shape::sanitize_shape(
                        lod_settings.chunk_meshing_shape(lod),
                    );
                    let task = ChunkTask::new(
                        entity,
                        p,
                        lod,
                        data_shape,
                        mesh_shape,
                        self.modified_voxels.clone(),
                    );
                    let ghost gt = task;
                    tasks.push(task);
                    events.push(ChunkEvent { chunk_key: p, entity });
                    proof {
                        assert(g_dirty[i as int] == p);
                        assert(g_dirty.contains(p));
                        assert(tasks@.last() == gt);
                    }
                },
                Option::None => {},
            }
            proof {
                assert forall|d: int|
                    0 <= d < i + 1 && old(self).chunk_map_view().contains_key(
                        spec_pack_key(#[trigger] g_dirty[d]) as u128,
                    ) implies exists|k: int|
                    0 <= k < tasks@.len() && (#[trigger] tasks@[k]).position == g_dirty[d] by {
                    if d < i {
                        let k0 = choose|k0: int|
                            0 <= k0 < pre_tasks.len() && (#[trigger] pre_tasks[k0]).position
                                == g_dirty[d];
                        assert(tasks@[k0] == pre_tasks[k0]);
                    } else {
                        assert(tasks@[tasks@.len() - 1].position == g_dirty[d]);
                    }
                }
            }
            i = i + 1;
        }
        (tasks, events)
    }

    /// Folds one finished generation task back into the world: empty and
    /// full chunks are staged without a mesh; otherwise the mesh cache is
    /// consulted by content hash, a cache hit reuses the shared mesh
    /// resource, a fresh mesh is staged into the cache, and a task that
    /// lost its mesh (cache entry expired before it arrived) is marked
    /// dirty again instead. On success the chunk data is staged as an
    /// update of the chunk map.
    pub fn integrate_finished_task(
        &mut self,
        task: ChunkTask,
        mesh_cache: &mut MeshCache,
    ) -> (r: Option<std::sync::Arc<crate::meshing::RenderableMesh>>)
        requires
            old(self).spec_wf(),
            task.chunk_data.wf(),
            chunk_position_in_range(task.position),
        ensures
            final(self).spec_wf(),
            final(self).chunk_map_view() == old(self).chunk_map_view(),
            final(self).overlay_view() == old(self).overlay_view(),
            final(self).write_buffer_view() == old(self).write_buffer_view(),
            final(self).retired_view() == old(self).retired_view(),
            final(self).spec_config() == old(self).spec_config(),
            final(self).staged_inserts() == old(self).staged_inserts(),
            final(self).staged_removes() == old(self).staged_removes(),
            // Chunks with nothing to draw are staged directly.
            (task.chunk_data.is_empty || task.chunk_data.is_full) ==> r is None && final(self).staged_updates() == old(self).staged_updates().push(
                (
                    task.position,
                    task.chunk_data,
                    ChunkEvent { chunk_key: task.position, entity: task.chunk_data.entity },
                ),
            ) && final(self).dirty_view() == old(self).dirty_view(),
            // A mesh handle comes back exactly when the chunk is staged;
            // it is the cache's shared mesh for this content hash, or the
            // task's own fresh mesh (which is then staged into the cache).
            (!task.chunk_data.is_empty && !task.chunk_data.is_full) ==> match r {
                Option::Some(handle) => {
                    &&& final(self).staged_updates() == old(self).staged_updates().push(
                        (
                            task.position,
                            task.chunk_data,
                            ChunkEvent {
                                chunk_key: task.position,
                                entity: task.chunk_data.entity,
                            },
                        ),
                    )
                    &&& final(self).dirty_view() == old(self).dirty_view()
                    &&& ((old(mesh_cache).contents().contains_key(task.chunk_data.voxels_hash)
                        && handle == old(mesh_cache).contents()[task.chunk_data.voxels_hash])
                        || (task.mesh matches Option::Some(m) && handle == m))
                },
                Option::None => {
                    &&& task.mesh is None
                    &&& final(self).staged_updates() == old(self).staged_updates()
                    &&& final(self).dirty_view().contains(task.position)
                },
            },
    {
        let cd = task.chunk_data;
        let entity = cd.entity;
        let position = task.position;
        if cd.is_empty || cd.is_full {
            self.chunk_map.buffer_update(
                position,
                cd,
                ChunkEvent { chunk_key: position, entity },
            );
            return Option::None;
        }
        let hash = cd.voxels_hash;
        let handle: Option<std::sync::Arc<crate::meshing::RenderableMesh>> = match mesh_cache
            .get_mesh_handle(hash) {
            Option::Some(shared) => Option::Some(shared),
            Option::None => match task.mesh {
                Option::Some(m) => {
                    let fresh = std::sync::Arc::new(m);
                    mesh_cache.buffer_insert(hash, fresh.clone(), task.user_bundle);
                    Option::Some(fresh)
                },
                Option::None => Option::None,
            },
        };
        match handle {
            Option::Some(h) => {
                self.chunk_map.buffer_update(
                    position,
                    cd,
                    ChunkEvent { chunk_key: position, entity },
                );
                Option::Some(h)
            },
            Option::None => {
                // The cached mesh expired and the task skipped meshing:
                // regenerate next tick.
                self.mark_dirty(position);
                Option::None
            },
        }
    }

    /// A position whose voxel is solid while the voxel straight above it
    /// is not: the definition of a surface cell for the helper queries.
    pub open spec fn spec_is_surface(&self, p: IVec3) -> bool {
        &&& self.spec_get_voxel(p) is Solid
        &&& !(self.spec_get_voxel(IVec3 { x: p.x, y: (p.y + 1) as i32, z: p.z }) is Solid)
    }

    /// True if the voxel at `p` is solid and the voxel above it is not.
    pub fn is_surface_at(&self, p: IVec3) -> (r: bool)
        requires
            self.spec_wf(),
            p.y < 0x4000_0000,
        ensures
            r == self.spec_is_surface(p),
    {
        let v = self.get_voxel(p);
        let above = self.get_voxel(IVec3 { x: p.x, y: p.y + 1, z: p.z });
        v.is_solid() && !above.is_solid()
    }

    /// Walks straight down from `position` to the first surface voxel (a
    /// solid voxel under a non-solid one). Returns nothing when the
    /// starting voxel is already solid, or when no surface shows up above
    /// depth -256.
    #[verifier::rlimit(100)]
    pub fn get_closest_surface_voxel(&self, position: IVec3) -> (r: Option<(IVec3, WorldVoxel)>)
        requires
            self.spec_wf(),
            -0x4000_0000 < position.y < 0x4000_0000,
        ensures
            match r {
                Option::Some((p, v)) => {
                    &&& self.spec_is_surface(p)
                    &&& v == self.spec_get_voxel(p)
                    &&& p.x == position.x && p.z == position.z
                    &&& p.y <= position.y
                    // Nothing closer to the start is a surface.
                    &&& forall|yy: int|
                        p.y < yy <= position.y ==> !(#[trigger] self.spec_is_surface(
                            IVec3 { x: position.x, y: yy as i32, z: position.z },
                        ))
                },
                Option::None => self.spec_get_voxel(position) is Solid || (forall|yy: int|
                    -256 <= yy <= position.y && !(self.spec_get_voxel(position) is Solid) ==> !(
                    #[trigger] self.spec_is_surface(
                        IVec3 { x: position.x, y: yy as i32, z: position.z },
                    ))),
            },
    {
        let current_voxel = self.get_voxel(position);
        if current_voxel.is_solid() {
            return Option::None;
        }
        let mut current = position;
        loop
            invariant
                self.spec_wf(),
                current.x == position.x && current.z == position.z,
                -0x4000_0000 <= current.y <= position.y,
                position.y < 0x4000_0000,
                forall|yy: int|
                    current.y < yy <= position.y ==> !(#[trigger] self.spec_is_surface(
                        IVec3 { x: position.x, y: yy as i32, z: position.z },
                    )),
            ensures
                (self.spec_is_surface(current) && current.x == position.x && current.z
                    == position.z && current.y <= position.y && forall|yy: int|
                    current.y < yy <= position.y ==> !(#[trigger] self.spec_is_surface(
                        IVec3 { x: position.x, y: yy as i32, z: position.z },
                    ))) || (current.y < -256 && forall|yy: int|
                    -256 <= yy <= position.y ==> !(#[trigger] self.spec_is_surface(
                        IVec3 { x: position.x, y: yy as i32, z: position.z },
                    ))),
            decreases current.y + 0x8000_0000,
        {
            if self.is_surface_at(current) {
                break ;
            }
            current = IVec3 { x: current.x, y: current.y - 1, z: current.z };
            if current.y < -256 {
                return Option::None;
            }
        }
        if current.y < -256 {
            return Option::None;
        }
        let v = self.get_voxel(current);
        Option::Some((current, v))
    }

    /// Tries up to a hundred random columns within `radius` of `position`
    /// (on x and z) and returns the first surface voxel found below them.
    pub fn get_random_surface_voxel(&self, position: IVec3, radius: u32) -> (r: Option<
        (IVec3, WorldVoxel),
    >)
        requires
            self.spec_wf(),
            1 <= radius <= 0x1000,
            -0x1000_0000 <= position.x <= 0x1000_0000,
            -0x1000_0000 <= position.y <= 0x1000_0000,
            -0x1000_0000 <= position.z <= 0x1000_0000,
        ensures
            match r {
                Option::Some((p, v)) => {
                    &&& self.spec_is_surface(p)
                    &&& v == self.spec_get_voxel(p)
                    &&& position.x - radius <= p.x <= position.x + radius
                    &&& position.z - radius <= p.z <= position.z + radius
                },
                Option::None => true,
            },
    {
        let mut tries: u32 = 0;
        while tries < 100
            invariant
                self.spec_wf(),
                tries <= 100,
                1 <= radius <= 0x1000,
                -0x1000_0000 <= position.x <= 0x1000_0000,
                -0x1000_0000 <= position.y <= 0x1000_0000,
                -0x1000_0000 <= position.z <= 0x1000_0000,
            decreases 100 - tries,
        {
            tries = tries + 1;
            let x: i32 = crate::rng::random_in_range(-(radius as i32), radius as i32 + 1);
            let z: i32 = crate::rng::random_in_range(-(radius as i32), radius as i32 + 1);
            let probe = IVec3 {
                x: position.x + x,
                y: position.y + position.y,
                z: position.z + z,
            };
            match self.get_closest_surface_voxel(probe) {
                Option::Some(result) => {
                    return Option::Some(result);
                },
                Option::None => {},
            }
        }
        Option::None
    }

    /// The first surface voxel under the given 2-D column, scanning down
    /// from height 256.
    pub fn get_surface_voxel_at_2d_pos(&self, pos_x: i32, pos_z: i32) -> (r: Option<
        (IVec3, WorldVoxel),
    >)
        requires
            self.spec_wf(),
        ensures
            match r {
                Option::Some((p, v)) => {
                    &&& self.spec_is_surface(p)
                    &&& v == self.spec_get_voxel(p)
                    &&& p.x == pos_x && p.z == pos_z
                    &&& p.y <= 256
                },
                Option::None => self.spec_get_voxel(IVec3 { x: pos_x, y: 256, z: pos_z })
                    is Solid || (forall|yy: int|
                    -256 <= yy <= 256 && !(self.spec_get_voxel(
                        IVec3 { x: pos_x, y: 256, z: pos_z },
                    ) is Solid) ==> !(#[trigger] self.spec_is_surface(
                        IVec3 { x: pos_x, y: yy as i32, z: pos_z },
                    ))),
            },
    {
        self.get_closest_surface_voxel(IVec3 { x: pos_x, y: 256, z: pos_z })
    }

    pub closed spec fn spec_chunk_bounds(&self) -> (IVec3, IVec3) {
        self.chunk_map.spec_bounds()
    }

    /// The dominant-axis parameters of the conservative raycast trace:
    /// the largest direction magnitude, the loaded world bounds' slab on
    /// that axis in fixed point, and the origin's coordinate there.
    pub open spec fn spec_trace_sel(&self, origin: FxVec3, direction: FxVec3) -> (int, int, int, int) {
        let ax = vstd::math::abs(direction.x as int);
        let ay = vstd::math::abs(direction.y as int);
        let az = vstd::math::abs(direction.z as int);
        let bmin = self.spec_chunk_bounds().0;
        let bmax = self.spec_chunk_bounds().1;
        if ax >= ay && ax >= az {
            (ax as int, bmin.x * 32 * 65536, (bmax.x + 1) * 32 * 65536, origin.x as int)
        } else if ay >= az {
            (ay as int, bmin.y * 32 * 65536, (bmax.y + 1) * 32 * 65536, origin.y as int)
        } else {
            (az as int, bmin.z * 32 * 65536, (bmax.z + 1) * 32 * 65536, origin.z as int)
        }
    }

    /// How many direction-steps the conservative trace walks: enough to
    /// pass the whole loaded box along the dominant axis, capped.
    pub open spec fn spec_trace_steps(&self, origin: FxVec3, direction: FxVec3) -> int {
        let (mag, lo, hi, o) = self.spec_trace_sel(origin, direction);
        let d1 = vstd::math::abs(hi - o);
        let d2 = vstd::math::abs(lo - o);
        let span = (if d1 >= d2 {
            d1 as int
        } else {
            d2 as int
        }) + 65536;
        let steps = span / mag + 1;
        if steps > 0x200_0000 {
            0x200_0000
        } else {
            steps
        }
    }

    /// Where the conservative raycast trace ends: the origin advanced by
    /// the stepped direction.
    pub open spec fn spec_trace_end(&self, origin: FxVec3, direction: FxVec3) -> FxVec3 {
        let steps = self.spec_trace_steps(origin, direction);
        FxVec3 {
            x: (origin.x + direction.x * steps) as i64,
            y: (origin.y + direction.y * steps) as i64,
            z: (origin.z + direction.z * steps) as i64,
        }
    }

    /// A voxel a raycast passes over without hitting: not solid (an
    /// `Unset` or `Air` cell), or a solid one the filter was permitted to
    /// reject.
    pub open spec fn spec_ray_skips<F: Fn((IVec3, WorldVoxel)) -> bool>(
        &self,
        filter: F,
        p: IVec3,
    ) -> bool {
        ||| !(self.spec_get_voxel(p) is Solid)
        ||| call_ensures(filter, ((p, self.spec_get_voxel(p)),), false)
    }

    /// Finds the first solid voxel along a ray, walking the exact grid
    /// traversal from the ray origin through the loaded bounds. `Unset`
    /// voxels (never generated) are skipped, never hit; the caller's
    /// filter can reject voxels from consideration.
    ///
    /// On a hit, the result carries the hit voxel's coordinate, its
    /// value, and the outward normal of the face the ray entered through.
    #[verifier::rlimit(100)]
    #[verifier::spinoff_prover]
    pub fn raycast<F: Fn((IVec3, WorldVoxel)) -> bool>(
        &self,
        origin: FxVec3,
        direction: FxVec3,
        filter: &F,
    ) -> (r: Option<VoxelRaycastResult>)
        requires
            self.spec_wf(),
            -0x1000_0000_0000 <= origin.x <= 0x1000_0000_0000,
            -0x1000_0000_0000 <= origin.y <= 0x1000_0000_0000,
            -0x1000_0000_0000 <= origin.z <= 0x1000_0000_0000,
            -0x10_0000 <= direction.x <= 0x10_0000,
            -0x10_0000 <= direction.y <= 0x10_0000,
            -0x10_0000 <= direction.z <= 0x10_0000,
            direction.x != 0 || direction.y != 0 || direction.z != 0,
            forall|p: IVec3, v: WorldVoxel| #[trigger] call_requires(*filter, ((p, v),)),
        ensures
            match r {
                // A hit is a visit of the conservative trace: the first
                // qualifying voxel along it, solid, equal to the world's
                // voxel there, accepted by the filter, with the entry
                // face of that very visit as its outward normal.
                Option::Some(res) => exists|visits: Seq<crate::voxel_traversal::VoxelVisit>, k: int|
                    {
                        &&& crate::voxel_traversal::trace_ok(
                            origin,
                            self.spec_trace_end(origin, direction),
                            visits,
                        )
                        &&& 0 <= k < visits.len()
                        &&& res.position == (#[trigger] visits[k]).voxel
                        &&& res.voxel == self.spec_get_voxel(res.position)
                        &&& res.voxel is Solid
                        &&& call_ensures(*filter, ((res.position, res.voxel),), true)
                        &&& res.normal == (match visits[k].face {
                            Option::Some(f) => Option::Some(crate::voxel::spec_face_normal(f)),
                            Option::None => Option::<IVec3>::None,
                        })
                        &&& (res.normal is None ==> k == 0)
                        &&& forall|j: int|
                            0 <= j < k ==> self.spec_ray_skips(
                                *filter,
                                (#[trigger] visits[j]).voxel,
                            )
                    },
                // A miss means the whole trace was walked and every voxel
                // on it was non-solid or rejectable by the filter.
                Option::None => exists|visits: Seq<crate::voxel_traversal::VoxelVisit>|
                    {
                        &&& #[trigger] crate::voxel_traversal::trace_ok(
                            origin,
                            self.spec_trace_end(origin, direction),
                            visits,
                        )
                        &&& forall|j: int|
                            0 <= j < visits.len() ==> self.spec_ray_skips(
                                *filter,
                                (#[trigger] visits[j]).voxel,
                            )
                    },
            },
    {
        let trace_end = self.conservative_trace_end(origin, direction);
        let visits = crate::voxel_traversal::voxel_line_traversal(origin, trace_end);
        let mut i: usize = 0;
        while i < visits.len()
            invariant
                0 <= i <= visits@.len(),
                self.spec_wf(),
                trace_end == self.spec_trace_end(origin, direction),
                crate::voxel_traversal::trace_ok(origin, trace_end, visits@),
                forall|p: IVec3, v: WorldVoxel| #[trigger] call_requires(*filter, ((p, v),)),
                forall|j: int|
                    0 <= j < i ==> self.spec_ray_skips(*filter, (#[trigger] visits@[j]).voxel),
            decreases visits@.len() - i,
        {
            let visit = visits[i];
            let voxel = self.get_voxel(visit.voxel);
            if !voxel.is_unset() && filter((visit.voxel, voxel)) {
                if voxel.is_solid() {
                    let normal: Option<IVec3> = match visit.face {
                        Option::Some(f) => Option::Some(crate::voxel::face_normal(f)),
                        Option::None => Option::None,
                    };
                    proof {
                        if i > 0 {
                            assert(crate::voxel_traversal::visit_step_ok(
                                origin,
                                trace_end,
                                visits@[i as int - 1],
                                visits@[i as int],
                            ));
                        }
                    }
                    return Option::Some(
                        VoxelRaycastResult { position: visit.voxel, normal, voxel },
                    );
                }
            }
            proof {
                assert(self.spec_ray_skips(*filter, visits@[i as int].voxel));
            }
            i = i + 1;
        }
        Option::None
    }

    /// Computes where the conservative raycast trace ends: far enough
    /// along the ray, on its dominant axis, to pass the whole box of
    /// loaded chunks.
    #[verifier::rlimit(100)]
    fn conservative_trace_end(&self, origin: FxVec3, direction: FxVec3) -> (r: FxVec3)
        requires
            self.spec_wf(),
            -0x1000_0000_0000 <= origin.x <= 0x1000_0000_0000,
            -0x1000_0000_0000 <= origin.y <= 0x1000_0000_0000,
            -0x1000_0000_0000 <= origin.z <= 0x1000_0000_0000,
            -0x10_0000 <= direction.x <= 0x10_0000,
            -0x10_0000 <= direction.y <= 0x10_0000,
            -0x10_0000 <= direction.z <= 0x10_0000,
            direction.x != 0 || direction.y != 0 || direction.z != 0,
        ensures
            r == self.spec_trace_end(origin, direction),
            crate::voxel_traversal::trace_point_in_range(r),
    {
        // Conservative trace end: far enough along the ray to pass
        // through the whole box of loaded chunks.
        let (wb_min, wb_max) = self.chunk_map.get_world_bounds();
        let ax: i64 = if direction.x >= 0 {
            direction.x
        } else {
            -direction.x
        };
        let ay: i64 = if direction.y >= 0 {
            direction.y
        } else {
            -direction.y
        };
        let az: i64 = if direction.z >= 0 {
            direction.z
        } else {
            -direction.z
        };
        let (mag, lo, hi, o): (i64, i64, i64, i64) = if ax >= ay && ax >= az {
            (ax, (wb_min.x as i64) * 65536, (wb_max.x as i64) * 65536, origin.x)
        } else if ay >= az {
            (ay, (wb_min.y as i64) * 65536, (wb_max.y as i64) * 65536, origin.y)
        } else {
            (az, (wb_min.z as i64) * 65536, (wb_max.z as i64) * 65536, origin.z)
        };
        let d1: i64 = if hi >= o {
            hi - o
        } else {
            o - hi
        };
        let d2: i64 = if lo >= o {
            lo - o
        } else {
            o - lo
        };
        let span: i64 = if d1 >= d2 {
            d1 + 65536
        } else {
            d2 + 65536
        };
        proof {
            assert((mag as int, lo as int, hi as int, o as int) == self.spec_trace_sel(
                origin,
                direction,
            ));
        }
        let mut steps: i64 = crate::math::floor_div_i64(span, mag) + 1;
        if steps > 0x200_0000 {
            steps = 0x200_0000;
        }
        proof {
            assert(steps as int == self.spec_trace_steps(origin, direction));
            assert(-0x2000_0000_0000 <= direction.x * steps <= 0x2000_0000_0000
                && -0x2000_0000_0000 <= direction.y * steps <= 0x2000_0000_0000
                && -0x2000_0000_0000 <= direction.z * steps <= 0x2000_0000_0000)
                by (nonlinear_arith)
                requires
                    -0x10_0000 <= direction.x <= 0x10_0000,
                    -0x10_0000 <= direction.y <= 0x10_0000,
                    -0x10_0000 <= direction.z <= 0x10_0000,
                    0 <= steps <= 0x200_0000,
            ;
        }
        let trace_end = FxVec3 {
            x: origin.x + direction.x * steps,
            y: origin.y + direction.y * steps,
            z: origin.z + direction.z * steps,
        };
        trace_end
    }
}

/// The result of a raycast: the hit voxel's grid coordinate, the outward
/// normal of the face the ray entered through (absent only when the hit
/// was the very first voxel of the trace), and the voxel value.
#[derive(Debug, PartialEq, Eq, Clone, Copy, Structural)]
pub struct VoxelRaycastResult {
    pub position: IVec3,
    pub normal: Option<IVec3>,
    pub voxel: WorldVoxel,
}

impl VoxelRaycastResult {
    /// The voxel grid position of the raycast hit.
    pub fn voxel_pos(&self) -> (r: IVec3)
        ensures
            r == self.position,
    {
        self.position
    }

    /// The face normal of the ray hit.
    pub fn voxel_normal(&self) -> (r: Option<IVec3>)
        ensures
            r == self.normal,
    {
        self.normal
    }
}

} // verus!
