use vstd::prelude::*;

use std::collections::HashMap;

use crate::chunk::{chunk_position_in_range, ChunkData};
use crate::math::{lemma_pack_key_injective, pack_key, spec_pack_key, IVec3};
use crate::voxel_world::ChunkEvent;

verus! {

broadcast use vstd::std_specs::hash::group_hash_axioms;

/// The packed map keys of a sequence of chunk positions.
pub open spec fn pos_keys(s: Seq<IVec3>) -> Seq<u128> {
    s.map_values(|p: IVec3| spec_pack_key(p) as u128)
}

pub open spec fn bounds_contain(min: IVec3, max: IVec3, p: IVec3) -> bool {
    min.x <= p.x <= max.x && min.y <= p.y <= max.y && min.z <= p.z <= max.z
}

/// A chunk and its destination coordinate, staged for insertion.
pub open spec fn buffered_entry_wf(p: IVec3, d: ChunkData) -> bool {
    chunk_position_in_range(p) && d.wf()
}

/// All staged insertions are well formed.
pub open spec fn insert_entries_wf(s: Seq<(IVec3, ChunkData)>) -> bool {
    forall|i: int|
        0 <= i < s.len() ==> buffered_entry_wf((#[trigger] s[i]).0, s[i].1)
}

/// All staged updates are well formed.
pub open spec fn update_entries_wf(s: Seq<(IVec3, ChunkData, ChunkEvent)>) -> bool {
    forall|i: int|
        0 <= i < s.len() ==> buffered_entry_wf((#[trigger] s[i]).0, s[i].1)
}

/// The chunk as it is stored under a coordinate: the coordinate wins over
/// whatever position the staged data carried.
pub open spec fn with_position(d: ChunkData, p: IVec3) -> ChunkData {
    ChunkData { position: p, ..d }
}

/// The effect of replaying staged insertions, front to back.
pub open spec fn spec_apply_inserts(m: Map<u128, ChunkData>, s: Seq<(IVec3, ChunkData)>) -> Map<
    u128,
    ChunkData,
>
    decreases s.len(),
{
    if s.len() == 0 {
        m
    } else {
        spec_apply_inserts(
            m.insert(spec_pack_key(s[0].0) as u128, with_position(s[0].1, s[0].0)),
            s.skip(1),
        )
    }
}

/// The effect of replaying staged updates, front to back.
pub open spec fn spec_apply_updates(
    m: Map<u128, ChunkData>,
    s: Seq<(IVec3, ChunkData, ChunkEvent)>,
) -> Map<u128, ChunkData>
    decreases s.len(),
{
    if s.len() == 0 {
        m
    } else {
        spec_apply_updates(
            m.insert(spec_pack_key(s[0].0) as u128, with_position(s[0].1, s[0].0)),
            s.skip(1),
        )
    }
}

/// The effect of replaying staged removals, front to back.
pub open spec fn spec_apply_removes(m: Map<u128, ChunkData>, s: Seq<IVec3>) -> Map<u128, ChunkData>
    decreases s.len(),
{
    if s.len() == 0 {
        m
    } else {
        spec_apply_removes(m.remove(spec_pack_key(s[0]) as u128), s.skip(1))
    }
}

/// The spatial index of all loaded chunks, with staged insert / update /
/// remove buffers that are replayed transactionally once per tick, and a
/// running inclusive bounding box (in chunk coordinates) of the loaded
/// set.
pub struct ChunkMap {
    map: HashMap<u128, ChunkData>,
    /// The coordinates of the loaded chunks, mirroring the map's keys.
    positions: Vec<IVec3>,
    insert_buffer: Vec<(IVec3, ChunkData)>,
    update_buffer: Vec<(IVec3, ChunkData, ChunkEvent)>,
    remove_buffer: Vec<IVec3>,
    bounds_min: IVec3,
    bounds_max: IVec3,
}

impl ChunkMap {
    pub closed spec fn map_view(&self) -> Map<u128, ChunkData> {
        self.map@
    }

    pub closed spec fn positions_view(&self) -> Seq<IVec3> {
        self.positions@
    }

    pub closed spec fn insert_buffer_view(&self) -> Seq<(IVec3, ChunkData)> {
        self.insert_buffer@
    }

    pub closed spec fn update_buffer_view(&self) -> Seq<(IVec3, ChunkData, ChunkEvent)> {
        self.update_buffer@
    }

    pub closed spec fn remove_buffer_view(&self) -> Seq<IVec3> {
        self.remove_buffer@
    }

    pub closed spec fn spec_bounds(&self) -> (IVec3, IVec3) {
        (self.bounds_min, self.bounds_max)
    }

    /// The chunk stored for a coordinate, if any.
    pub open spec fn spec_get(&self, p: IVec3) -> Option<ChunkData> {
        if self.map_view().contains_key(spec_pack_key(p) as u128) {
            Option::Some(self.map_view()[spec_pack_key(p) as u128])
        } else {
            Option::None
        }
    }

    /// The invariant of the loaded set: every stored chunk is well formed,
    /// keyed by its own position, mirrored in `positions`, and inside the
    /// running bounds; staged entries are well formed too.
    pub open spec fn wf(&self) -> bool {
        &&& (forall|k: u128| #[trigger]
            self.map_view().dom().contains(k) ==> spec_pack_key(self.map_view()[k].position)
                == k && self.map_view()[k].wf())
        &&& pos_keys(self.positions_view()).to_set() =~= self.map_view().dom()
        &&& pos_keys(self.positions_view()).no_duplicates()
        &&& (forall|k: u128| #[trigger]
            self.map_view().dom().contains(k) ==> bounds_contain(
                self.spec_bounds().0,
                self.spec_bounds().1,
                self.map_view()[k].position,
            ))
        &&& chunk_position_in_range(self.spec_bounds().0)
        &&& chunk_position_in_range(self.spec_bounds().1)
        &&& insert_entries_wf(self.insert_buffer_view())
        &&& update_entries_wf(self.update_buffer_view())
    }

    /// An empty map: no chunks, empty buffers, bounds collapsed onto the
    /// origin.
    pub fn new() -> (r: Self)
        ensures
            r.wf(),
            r.map_view() == Map::<u128, ChunkData>::empty(),
            r.insert_buffer_view() == Seq::<(IVec3, ChunkData)>::empty(),
            r.update_buffer_view() == Seq::<(IVec3, ChunkData, ChunkEvent)>::empty(),
            r.remove_buffer_view() == Seq::<IVec3>::empty(),
            r.positions_view() == Seq::<IVec3>::empty(),
    {
        let r = ChunkMap {
            map: HashMap::new(),
            positions: Vec::new(),
            insert_buffer: Vec::new(),
            update_buffer: Vec::new(),
            remove_buffer: Vec::new(),
            bounds_min: IVec3 { x: 0, y: 0, z: 0 },
            bounds_max: IVec3 { x: 0, y: 0, z: 0 },
        };
        proof {
            assert(pos_keys(r.positions@).to_set() =~= r.map@.dom());
        }
        r
    }

    /// The chunk stored for a coordinate.
    pub fn get(&self, position: IVec3) -> (r: Option<&ChunkData>)
        ensures
            match r {
                Option::Some(d) => self.spec_get(position) == Option::Some(*d),
                Option::None => self.spec_get(position) is None,
            },
    {
        let key: u128 = pack_key(position);
        self.map.get(&key)
    }

    /// True if a chunk is loaded at the coordinate.
    pub fn contains_chunk(&self, position: IVec3) -> (r: bool)
        ensures
            r == self.map_view().contains_key(spec_pack_key(position) as u128),
    {
        let key: u128 = pack_key(position);
        self.map.contains_key(&key)
    }

    /// The number of loaded chunks.
    pub fn len(&self) -> (r: usize)
        ensures
            r == self.map_view().len(),
    {
        self.map.len()
    }

    /// The coordinates of all loaded chunks.
    pub fn get_positions(&self) -> (r: &Vec<IVec3>)
        ensures
            r@ == self.positions_view(),
    {
        &self.positions
    }

    /// How many loaded chunk coordinates the mirror holds.
    pub fn position_count(&self) -> (r: usize)
        ensures
            r == self.positions_view().len(),
    {
        self.positions.len()
    }

    /// The coordinate of one loaded chunk, by mirror index.
    pub fn position_at(&self, i: usize) -> (r: IVec3)
        requires
            i < self.positions_view().len(),
        ensures
            r == self.positions_view()[i as int],
    {
        self.positions[i]
    }

    /// The current inclusive bounding box of loaded chunks, in chunk
    /// coordinates.
    pub fn get_bounds(&self) -> (r: (IVec3, IVec3))
        ensures
            r == self.spec_bounds(),
    {
        (self.bounds_min, self.bounds_max)
    }

    /// The current bounding box of loaded chunks, in world voxel
    /// coordinates: from the minimum corner of the lowest chunk to the far
    /// corner of the highest one.
    pub fn get_world_bounds(&self) -> (r: (IVec3, IVec3))
        requires
            self.wf(),
        ensures
            r.0.x == self.spec_bounds().0.x * 32,
            r.0.y == self.spec_bounds().0.y * 32,
            r.0.z == self.spec_bounds().0.z * 32,
            r.1.x == (self.spec_bounds().1.x + 1) * 32,
            r.1.y == (self.spec_bounds().1.y + 1) * 32,
            r.1.z == (self.spec_bounds().1.z + 1) * 32,
    {
        let min = self.bounds_min;
        let max = self.bounds_max;
        (
            IVec3 { x: min.x * 32, y: min.y * 32, z: min.z * 32 },
            IVec3 { x: (max.x + 1) * 32, y: (max.y + 1) * 32, z: (max.z + 1) * 32 },
        )
    }

    /// Stages a chunk for insertion at the next flush.
    pub fn buffer_insert(&mut self, position: IVec3, data: ChunkData)
        requires
            old(self).wf(),
            chunk_position_in_range(position),
            data.wf(),
        ensures
            final(self).wf(),
            final(self).insert_buffer_view() == old(self).insert_buffer_view().push(
                (position, data),
            ),
            final(self).map_view() == old(self).map_view(),
            final(self).positions_view() == old(self).positions_view(),
            final(self).update_buffer_view() == old(self).update_buffer_view(),
            final(self).remove_buffer_view() == old(self).remove_buffer_view(),
            final(self).spec_bounds() == old(self).spec_bounds(),
    {
        self.insert_buffer.push((position, data));
        proof {
            let s = self.insert_buffer_view();
            assert forall|i: int| 0 <= i < s.len() implies buffered_entry_wf(
                (#[trigger] s[i]).0,
                s[i].1,
            ) by {
                if i < old(self).insert_buffer_view().len() {
                    assert(buffered_entry_wf(
                        (old(self).insert_buffer_view()[i]).0,
                        old(self).insert_buffer_view()[i].1,
                    ));
                } else {
                    assert(s[i] == (position, data));
                }
            }
        }
    }

    /// Stages a chunk for replacement at the next flush; the event is
    /// handed back by `apply_buffers`.
    pub fn buffer_update(&mut self, position: IVec3, data: ChunkData, event: ChunkEvent)
        requires
            old(self).wf(),
            chunk_position_in_range(position),
            data.wf(),
        ensures
            final(self).wf(),
            final(self).update_buffer_view() == old(self).update_buffer_view().push(
                (position, data, event),
            ),
            final(self).map_view() == old(self).map_view(),
            final(self).positions_view() == old(self).positions_view(),
            final(self).insert_buffer_view() == old(self).insert_buffer_view(),
            final(self).remove_buffer_view() == old(self).remove_buffer_view(),
            final(self).spec_bounds() == old(self).spec_bounds(),
    {
        self.update_buffer.push((position, data, event));
        proof {
            let s = self.update_buffer_view();
            assert forall|i: int| 0 <= i < s.len() implies buffered_entry_wf(
                (#[trigger] s[i]).0,
                s[i].1,
            ) by {
                if i < old(self).update_buffer_view().len() {
                    assert(buffered_entry_wf(
                        (old(self).update_buffer_view()[i]).0,
                        old(self).update_buffer_view()[i].1,
                    ));
                } else {
                    assert(s[i] == (position, data, event));
                }
            }
        }
    }

    /// Stages a chunk for removal at the next flush.
    pub fn buffer_remove(&mut self, position: IVec3)
        requires
            old(self).wf(),
        ensures
            final(self).wf(),
            final(self).remove_buffer_view() == old(self).remove_buffer_view().push(position),
            final(self).map_view() == old(self).map_view(),
            final(self).positions_view() == old(self).positions_view(),
            final(self).insert_buffer_view() == old(self).insert_buffer_view(),
            final(self).update_buffer_view() == old(self).update_buffer_view(),
            final(self).spec_bounds() == old(self).spec_bounds(),
    {
        self.remove_buffer.push(position);
    }

    /// Inserts one chunk now: stores it under its coordinate, mirrors the
    /// coordinate, and extends the bounds.
    #[verifier::rlimit(100)]
    fn insert_entry(&mut self, position: IVec3, data: ChunkData)
        requires
            old(self).wf(),
            chunk_position_in_range(position),
            data.wf(),
        ensures
            final(self).wf(),
            final(self).map_view() == old(self).map_view().insert(
                spec_pack_key(position) as u128,
                with_position(data, position),
            ),
            final(self).insert_buffer_view() == old(self).insert_buffer_view(),
            final(self).update_buffer_view() == old(self).update_buffer_view(),
            final(self).remove_buffer_view() == old(self).remove_buffer_view(),
    {
        let key: u128 = pack_key(position);
        let had: bool = self.map.contains_key(&key);
        let mut stored = data;
        stored.position = position;
        self.map.insert(key, stored);
        if !had {
            self.positions.push(position);
        }
        if position.x < self.bounds_min.x {
            self.bounds_min.x = position.x;
        }
        if position.y < self.bounds_min.y {
            self.bounds_min.y = position.y;
        }
        if position.z < self.bounds_min.z {
            self.bounds_min.z = position.z;
        }
        if position.x > self.bounds_max.x {
            self.bounds_max.x = position.x;
        }
        if position.y > self.bounds_max.y {
            self.bounds_max.y = position.y;
        }
        if position.z > self.bounds_max.z {
            self.bounds_max.z = position.z;
        }
        proof {
            let k = spec_pack_key(position) as u128;
            assert(stored == with_position(data, position));
            if had {
                assert(pos_keys(self.positions@).to_set() =~= self.map@.dom());
            } else {
                assert(pos_keys(self.positions@) =~= pos_keys(old(self).positions@).push(k));
                assert forall|a: u128|
                    pos_keys(self.positions@).contains(a) <==> (pos_keys(
                        old(self).positions@,
                    ).contains(a) || a == k) by {
                    let s = pos_keys(old(self).positions@);
                    if pos_keys(self.positions@).contains(a) {
                        let i = choose|i: int|
                            0 <= i < s.push(k).len() && s.push(k)[i] == a;
                        if i < s.len() {
                            assert(s[i] == a);
                        }
                    }
                    if s.contains(a) {
                        let i = choose|i: int| 0 <= i < s.len() && s[i] == a;
                        assert(s.push(k)[i] == a);
                    }
                    if a == k {
                        assert(s.push(k)[s.len() as int] == k);
                    }
                }
                assert(pos_keys(self.positions@).to_set() =~= self.map@.dom());
                assert(!pos_keys(old(self).positions@).contains(k));
                assert forall|i: int, j: int|
                    0 <= i < j < pos_keys(self.positions@).len() implies pos_keys(
                    self.positions@,
                )[i] != pos_keys(self.positions@)[j] by {
                    let s = pos_keys(old(self).positions@);
                    if j == s.len() {
                        assert(s[i] == pos_keys(self.positions@)[i]);
                        if s[i] == k {
                            assert(s.contains(k));
                        }
                    }
                }
            }
        }
    }

    /// Removes one chunk now, dropping its mirror entry and rebuilding the
    /// bounds when it sat exactly on a corner of them.
    fn remove_entry(&mut self, position: IVec3)
        requires
            old(self).wf(),
        ensures
            final(self).wf(),
            final(self).map_view() == old(self).map_view().remove(
                spec_pack_key(position) as u128,
            ),
            final(self).insert_buffer_view() == old(self).insert_buffer_view(),
            final(self).update_buffer_view() == old(self).update_buffer_view(),
            final(self).remove_buffer_view() == old(self).remove_buffer_view(),
    {
        let key: u128 = pack_key(position);
        let had: bool = self.map.contains_key(&key);
        if !had {
            proof {
                assert(self.map@.remove(key) =~= self.map@);
            }
            return ;
        }
        self.map.remove(&key);
        let ghost old_positions = self.positions@;
        let n: usize = self.positions.len();
        let mut i: usize = 0;
        proof {
            assert(pos_keys(old_positions).to_set().contains(key));
            assert(pos_keys(old_positions).contains(key));
            let j = choose|j: int|
                0 <= j < pos_keys(old_positions).len() && pos_keys(old_positions)[j] == key;
            lemma_pack_key_injective(old_positions[j], position);
            assert(old_positions[j] == position);
        }
        while self.positions[i] != position
            invariant
                0 <= i < n,
                n == self.positions@.len(),
                self.positions@ == old_positions,
                exists|j: int| i <= j < old_positions.len() && old_positions[j] == position,
            decreases self.positions@.len() - i,
        {
            proof {
                let j = choose|j: int|
                    i <= j < old_positions.len() && old_positions[j] == position;
                assert(j >= i + 1);
            }
            i = i + 1;
        }
        self.positions.remove(i);
        let at_min: bool = position == self.bounds_min;
        let at_max: bool = position == self.bounds_max;
        proof {
            let k = key;
            let gi = i as int;
            let old_keys = pos_keys(old_positions);
            let new_keys = pos_keys(self.positions@);
            assert(old_keys[gi] == k);
            assert(new_keys =~= old_keys.remove(gi));
            assert forall|a: u128| new_keys.contains(a) implies (old_keys.contains(a) && a
                != k) by {
                let j = choose|j: int| 0 <= j < new_keys.len() && new_keys[j] == a;
                if j < gi {
                    assert(old_keys[j] == a);
                    if a == k {
                        lemma_pack_key_injective(old_positions[j], position);
                    }
                } else {
                    assert(old_keys[j + 1] == a);
                    if a == k {
                        lemma_pack_key_injective(old_positions[j + 1], position);
                    }
                }
            }
            assert forall|a: u128| old_keys.contains(a) && a != k implies new_keys.contains(
                a,
            ) by {
                let j = choose|j: int| 0 <= j < old_keys.len() && old_keys[j] == a;
                if j < gi {
                    assert(new_keys[j] == a);
                } else {
                    assert(j != gi);
                    assert(new_keys[j - 1] == a);
                }
            }
            assert(new_keys.to_set() =~= self.map@.dom());
            assert forall|x: int, y: int| 0 <= x < y < new_keys.len() implies new_keys[x]
                != new_keys[y] by {
                if y < gi {
                    assert(old_keys[x] == new_keys[x] && old_keys[y] == new_keys[y]);
                } else if x < gi {
                    assert(old_keys[x] == new_keys[x] && old_keys[y + 1] == new_keys[y]);
                } else {
                    assert(old_keys[x + 1] == new_keys[x] && old_keys[y + 1] == new_keys[y]);
                }
            }
        }
        if at_min || at_max {
            self.rebuild_bounds();
        }
    }

    /// Recomputes the bounds from scratch over the mirrored coordinates.
    fn rebuild_bounds(&mut self)
        requires
            forall|k: u128| #[trigger]
                old(self).map_view().dom().contains(k) ==> spec_pack_key(
                    old(self).map_view()[k].position,
                ) == k && old(self).map_view()[k].wf(),
            pos_keys(old(self).positions_view()).to_set() =~= old(self).map_view().dom(),
            pos_keys(old(self).positions_view()).no_duplicates(),
            insert_entries_wf(old(self).insert_buffer_view()),
            update_entries_wf(old(self).update_buffer_view()),
        ensures
            final(self).wf(),
            final(self).map_view() == old(self).map_view(),
            final(self).positions_view() == old(self).positions_view(),
            final(self).insert_buffer_view() == old(self).insert_buffer_view(),
            final(self).update_buffer_view() == old(self).update_buffer_view(),
            final(self).remove_buffer_view() == old(self).remove_buffer_view(),
    {
        proof {
            assert forall|j: int| 0 <= j < self.positions@.len() implies chunk_position_in_range(
                #[trigger] self.positions@[j],
            ) by {
                let keys = pos_keys(self.positions@);
                assert(keys[j] == spec_pack_key(self.positions@[j]) as u128);
                assert(keys.contains(keys[j]));
                assert(self.map@.dom().contains(keys[j]));
                lemma_pack_key_injective(self.map@[keys[j]].position, self.positions@[j]);
            }
        }
        let n = self.positions.len();
        let mut min = IVec3 { x: 0, y: 0, z: 0 };
        let mut max = IVec3 { x: 0, y: 0, z: 0 };
        if n > 0 {
            min = self.positions[0];
            max = self.positions[0];
            let mut i: usize = 1;
            while i < n
                invariant
                    1 <= i <= n,
                    n == self.positions@.len(),
                    forall|j: int|
                        0 <= j < i ==> bounds_contain(min, max, #[trigger] self.positions@[j]),
                    chunk_position_in_range(min),
                    chunk_position_in_range(max),
                    min.x <= max.x && min.y <= max.y && min.z <= max.z,
                    forall|j: int|
                        0 <= j < self.positions@.len() ==> chunk_position_in_range(
                            #[trigger] self.positions@[j],
                        ),
                decreases n - i,
            {
                let p = self.positions[i];
                if p.x < min.x {
                    min.x = p.x;
                }
                if p.y < min.y {
                    min.y = p.y;
                }
                if p.z < min.z {
                    min.z = p.z;
                }
                if p.x > max.x {
                    max.x = p.x;
                }
                if p.y > max.y {
                    max.y = p.y;
                }
                if p.z > max.z {
                    max.z = p.z;
                }
                i = i + 1;
            }
        }
        self.bounds_min = min;
        self.bounds_max = max;
        proof {
            assert forall|k: u128| #[trigger] self.map@.dom().contains(k) implies bounds_contain(
                self.bounds_min,
                self.bounds_max,
                self.map@[k].position,
            ) by {
                assert(pos_keys(self.positions@).to_set().contains(k));
                assert(pos_keys(self.positions@).contains(k));
                let j = choose|j: int|
                    0 <= j < pos_keys(self.positions@).len() && pos_keys(self.positions@)[j]
                        == k;
                lemma_pack_key_injective(self.positions@[j], self.map@[k].position);
            }
        }
    }

    /// Replays all staged mutations, in buffer order: inserts, then
    /// updates, then removals; clears the buffers and hands back one
    /// spawn event per staged update.
    pub fn apply_buffers(&mut self) -> (events: Vec<ChunkEvent>)
        requires
            old(self).wf(),
        ensures
            final(self).wf(),
            final(self).map_view() == spec_apply_removes(
                spec_apply_updates(
                    spec_apply_inserts(old(self).map_view(), old(self).insert_buffer_view()),
                    old(self).update_buffer_view(),
                ),
                old(self).remove_buffer_view(),
            ),
            final(self).insert_buffer_view() == Seq::<(IVec3, ChunkData)>::empty(),
            final(self).update_buffer_view() == Seq::<(IVec3, ChunkData, ChunkEvent)>::empty(),
            final(self).remove_buffer_view() == Seq::<IVec3>::empty(),
            events@ == old(self).update_buffer_view().map_values(
                |t: (IVec3, ChunkData, ChunkEvent)| t.2,
            ),
    {
        let mut inserts: Vec<(IVec3, ChunkData)> = Vec::new();
        std::mem::swap(&mut inserts, &mut self.insert_buffer);
        let ghost g_inserts = inserts@;
        let ghost m0 = self.map@;
        proof {
            assert(inserts@ == old(self).insert_buffer_view());
        }
        while inserts.len() > 0
            invariant
                self.wf(),
                spec_apply_inserts(m0, g_inserts) == spec_apply_inserts(
                    self.map_view(),
                    inserts@,
                ),
                insert_entries_wf(inserts@),
                self.insert_buffer_view() == Seq::<(IVec3, ChunkData)>::empty(),
                self.update_buffer_view() == old(self).update_buffer_view(),
                self.remove_buffer_view() == old(self).remove_buffer_view(),
            decreases inserts@.len(),
        {
            let ghost pre = inserts@;
            let (p, d) = inserts.remove(0);
            proof {
                assert(inserts@ =~= pre.skip(1));
                assert(buffered_entry_wf((pre[0]).0, pre[0].1));
                assert forall|j: int| 0 <= j < inserts@.len() implies buffered_entry_wf(
                    (#[trigger] inserts@[j]).0,
                    inserts@[j].1,
                ) by {
                    assert(buffered_entry_wf((pre[j + 1]).0, pre[j + 1].1));
                }
            }
            self.insert_entry(p, d);
        }
        let mut updates: Vec<(IVec3, ChunkData, ChunkEvent)> = Vec::new();
        std::mem::swap(&mut updates, &mut self.update_buffer);
        let ghost g_updates = updates@;
        let ghost m1 = self.map@;
        proof {
            assert(updates@ == old(self).update_buffer_view());
        }
        let mut events: Vec<ChunkEvent> = Vec::new();
        while updates.len() > 0
            invariant
                self.wf(),
                spec_apply_updates(m1, g_updates) == spec_apply_updates(
                    self.map_view(),
                    updates@,
                ),
                g_updates.map_values(|t: (IVec3, ChunkData, ChunkEvent)| t.2) =~= events@
                    + updates@.map_values(|t: (IVec3, ChunkData, ChunkEvent)| t.2),
                update_entries_wf(updates@),
                self.insert_buffer_view() == Seq::<(IVec3, ChunkData)>::empty(),
                self.update_buffer_view() == Seq::<(IVec3, ChunkData, ChunkEvent)>::empty(),
                self.remove_buffer_view() == old(self).remove_buffer_view(),
            decreases updates@.len(),
        {
            let ghost pre = updates@;
            let (p, d, e) = updates.remove(0);
            proof {
                assert(updates@ =~= pre.skip(1));
                assert(pre.map_values(|t: (IVec3, ChunkData, ChunkEvent)| t.2) =~= seq![
                    pre[0].2,
                ] + pre.skip(1).map_values(|t: (IVec3, ChunkData, ChunkEvent)| t.2));
                assert(buffered_entry_wf((pre[0]).0, pre[0].1));
                assert forall|j: int| 0 <= j < updates@.len() implies buffered_entry_wf(
                    (#[trigger] updates@[j]).0,
                    updates@[j].1,
                ) by {
                    assert(buffered_entry_wf((pre[j + 1]).0, pre[j + 1].1));
                }
            }
            self.insert_entry(p, d);
            events.push(e);
        }
        let mut removes: Vec<IVec3> = Vec::new();
        std::mem::swap(&mut removes, &mut self.remove_buffer);
        let ghost g_removes = removes@;
        let ghost m2 = self.map@;
        while removes.len() > 0
            invariant
                self.wf(),
                spec_apply_removes(m2, g_removes) == spec_apply_removes(
                    self.map_view(),
                    removes@,
                ),
                self.insert_buffer_view() == Seq::<(IVec3, ChunkData)>::empty(),
                self.update_buffer_view() == Seq::<(IVec3, ChunkData, ChunkEvent)>::empty(),
                self.remove_buffer_view() == Seq::<IVec3>::empty(),
            decreases removes@.len(),
        {
            let ghost pre = removes@;
            let p = removes.remove(0);
            proof {
                assert(removes@ =~= pre.skip(1));
            }
            self.remove_entry(p);
        }
        events
    }
}

/// Replaying removals never adds a key.
pub proof fn lemma_apply_removes_subset(m: Map<u128, ChunkData>, s: Seq<IVec3>, k: u128)
    requires
        spec_apply_removes(m, s).contains_key(k),
    ensures
        m.contains_key(k),
    decreases s.len(),
{
    if s.len() > 0 {
        lemma_apply_removes_subset(m.remove(spec_pack_key(s[0]) as u128), s.skip(1), k);
    }
}

/// Retirement is effective: once a coordinate is staged for removal, the
/// flushed map no longer contains it, whatever else was staged.
pub proof fn lemma_apply_removes_removes(m: Map<u128, ChunkData>, s: Seq<IVec3>, p: IVec3)
    requires
        s.contains(p),
    ensures
        !spec_apply_removes(m, s).contains_key(spec_pack_key(p) as u128),
    decreases s.len(),
{
    let k = spec_pack_key(p) as u128;
    if s[0] == p {
        let m1 = m.remove(k);
        if spec_apply_removes(m1, s.skip(1)).contains_key(k) {
            lemma_apply_removes_subset(m1, s.skip(1), k);
        }
    } else {
        let i = choose|i: int| 0 <= i < s.len() && s[i] == p;
        assert(s.skip(1)[i - 1] == p);
        assert(s.skip(1).contains(p));
        lemma_apply_removes_removes(m.remove(spec_pack_key(s[0]) as u128), s.skip(1), p);
    }
}

} // verus!
