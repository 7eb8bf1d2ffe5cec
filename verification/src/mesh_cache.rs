use vstd::prelude::*;

use std::collections::HashMap;
use std::sync::Arc;

use crate::meshing::RenderableMesh;

verus! {

broadcast use vstd::std_specs::hash::group_hash_axioms;

/// The weak-value table the cache is built on; opaque to the verifier,
/// which sees it only through `mesh_table_contents` and the wrappers
/// below.
#[verifier::external_body]
pub struct WeakMeshTable {
    table: weak_table::WeakValueHashMap<u64, std::sync::Weak<RenderableMesh>>,
}

/// What the weak-value map remembers for each key: the mesh that was
/// last inserted under it. An entry may expire at any moment (once no
/// chunk holds the mesh any more), so lookups may miss, but a lookup
/// that succeeds always hands back the remembered mesh.
pub uninterp spec fn mesh_table_contents(m: WeakMeshTable) -> Map<u64, Arc<RenderableMesh>>;

/// Relies on `WeakValueHashMap::with_capacity`: a fresh map has no
/// entries.
#[verifier::external_body]
fn weak_table_with_capacity(capacity: usize) -> (r: WeakMeshTable)
{
    WeakMeshTable { table: weak_table::WeakValueHashMap::with_capacity(capacity) }
}

/// Relies on `WeakValueHashMap::insert`: stores (a weak reference to)
/// the value under the key, replacing whatever was there.
#[verifier::external_body]
fn weak_table_insert(m: &mut WeakMeshTable, key: u64, value: Arc<RenderableMesh>)
    ensures
        mesh_table_contents(*final(m)) == mesh_table_contents(*old(m)).insert(key, value),
{
    m.table.insert(key, value);
}

/// Relies on `WeakValueHashMap::get`: upgrades the stored weak reference.
/// The entry may have expired (then nothing comes back), but a hit is
/// always the mesh last inserted under the key.
#[verifier::external_body]
fn weak_table_get(m: &WeakMeshTable, key: u64) -> (r: Option<Arc<RenderableMesh>>)
    ensures
        match r {
            Option::Some(a) => mesh_table_contents(*m).contains_key(key) && a
                == mesh_table_contents(*m)[key],
            Option::None => true,
        },
{
    m.table.get(&key)
}

/// Deduplicates chunk meshes by voxel-content hash: byte-identical
/// chunks share one mesh resource. The table holds weak references, so a
/// mesh lives only as long as some chunk still uses it; expired entries
/// are dropped by the table itself. A side table carries the optional
/// user bundle a meshing delegate returned with each mesh. Insertions
/// are staged and applied once per tick.
pub struct MeshCache {
    mesh_handles: WeakMeshTable,
    user_bundles: HashMap<u64, Vec<u8>>,
    insert_buffer: Vec<(u64, Arc<RenderableMesh>, Option<Vec<u8>>)>,
}

/// The effect of replaying staged cache insertions on the mesh table,
/// front to back.
pub open spec fn spec_apply_cache_inserts(
    m: Map<u64, Arc<RenderableMesh>>,
    s: Seq<(u64, Arc<RenderableMesh>, Option<Vec<u8>>)>,
) -> Map<u64, Arc<RenderableMesh>>
    decreases s.len(),
{
    if s.len() == 0 {
        m
    } else {
        spec_apply_cache_inserts(m.insert(s[0].0, s[0].1), s.skip(1))
    }
}

/// The effect of replaying staged cache insertions on the user-bundle
/// side table: entries that carry a bundle land there.
pub open spec fn spec_apply_bundle_inserts(
    m: Map<u64, Vec<u8>>,
    s: Seq<(u64, Arc<RenderableMesh>, Option<Vec<u8>>)>,
) -> Map<u64, Vec<u8>>
    decreases s.len(),
{
    if s.len() == 0 {
        m
    } else {
        spec_apply_bundle_inserts(
            match s[0].2 {
                Option::Some(b) => m.insert(s[0].0, b),
                Option::None => m,
            },
            s.skip(1),
        )
    }
}

impl MeshCache {
    pub closed spec fn contents(&self) -> Map<u64, Arc<RenderableMesh>> {
        mesh_table_contents(self.mesh_handles)
    }

    pub closed spec fn insert_buffer_view(&self) -> Seq<(u64, Arc<RenderableMesh>, Option<Vec<u8>>)> {
        self.insert_buffer@
    }

    pub closed spec fn bundles_view(&self) -> Map<u64, Vec<u8>> {
        self.user_bundles@
    }

    pub fn new() -> (r: Self)
        ensures
            r.insert_buffer_view() == Seq::<(u64, Arc<RenderableMesh>, Option<Vec<u8>>)>::empty(),
            r.bundles_view() == Map::<u64, Vec<u8>>::empty(),
    {
        MeshCache {
            mesh_handles: weak_table_with_capacity(2000),
            user_bundles: HashMap::new(),
            insert_buffer: Vec::new(),
        }
    }

    /// Stages a freshly generated mesh, and the bundle that came with it,
    /// for insertion at the next flush.
    pub fn buffer_insert(
        &mut self,
        voxels_hash: u64,
        mesh: Arc<RenderableMesh>,
        user_bundle: Option<Vec<u8>>,
    )
        ensures
            final(self).insert_buffer_view() == old(self).insert_buffer_view().push(
                (voxels_hash, mesh, user_bundle),
            ),
            final(self).contents() == old(self).contents(),
            final(self).bundles_view() == old(self).bundles_view(),
    {
        self.insert_buffer.push((voxels_hash, mesh, user_bundle));
    }

    /// The user bundle stored for a content hash, if any.
    pub fn get_user_bundle(&self, voxels_hash: u64) -> (r: Option<&Vec<u8>>)
        ensures
            match r {
                Option::Some(b) => self.bundles_view().contains_key(voxels_hash)
                    && self.bundles_view()[voxels_hash] == *b,
                Option::None => !self.bundles_view().contains_key(voxels_hash),
            },
    {
        self.user_bundles.get(&voxels_hash)
    }

    /// The cached mesh for a content hash, if one is still alive: a hit
    /// is always the mesh last stored under that hash, so byte-identical
    /// chunks share one mesh resource.
    pub fn get_mesh_handle(&self, voxels_hash: u64) -> (r: Option<Arc<RenderableMesh>>)
        ensures
            match r {
                Option::Some(a) => self.contents().contains_key(voxels_hash) && a
                    == self.contents()[voxels_hash],
                Option::None => true,
            },
    {
        weak_table_get(&self.mesh_handles, voxels_hash)
    }

    /// True if a mesh for this content hash is already cached (or
    /// staged). A staged mesh is always found; a cached one may be missed
    /// when its weak entry has expired.
    pub fn has_mesh(&self, voxels_hash: u64) -> (r: bool)
        ensures
            r ==> (self.contents().contains_key(voxels_hash) || exists|i: int|
                0 <= i < self.insert_buffer_view().len() && (#[trigger] self.insert_buffer_view()[i]).0
                    == voxels_hash),
            (exists|i: int|
                0 <= i < self.insert_buffer_view().len() && (#[trigger] self.insert_buffer_view()[i]).0
                    == voxels_hash) ==> r,
    {
        match weak_table_get(&self.mesh_handles, voxels_hash) {
            Option::Some(_) => true,
            Option::None => {
                let mut i: usize = 0;
                while i < self.insert_buffer.len()
                    invariant
                        0 <= i <= self.insert_buffer@.len(),
                        forall|j: int|
                            0 <= j < i ==> (#[trigger] self.insert_buffer_view()[j]).0
                                != voxels_hash,
                    decreases self.insert_buffer@.len() - i,
                {
                    if self.insert_buffer[i].0 == voxels_hash {
                        proof {
                            assert((self.insert_buffer_view()[i as int]).0 == voxels_hash);
                        }
                        return true;
                    }
                    proof {
                        assert((self.insert_buffer_view()[i as int]).0 != voxels_hash);
                    }
                    i = i + 1;
                }
                false
            },
        }
    }

    /// Whether a finished generation task still needs a mesh built: only
    /// chunks that are neither empty nor full draw anything, and a mesh
    /// already cached or staged under the task's content hash is reused
    /// instead.
    pub fn should_mesh(&self, task: &crate::chunk::ChunkTask) -> (r: bool)
        ensures
            r ==> !task.chunk_data.is_empty && !task.chunk_data.is_full && !exists|i: int|
                0 <= i < self.insert_buffer_view().len() && (#[trigger] self.insert_buffer_view()[i]).0
                    == task.chunk_data.voxels_hash,
            !r ==> (task.chunk_data.is_empty || task.chunk_data.is_full || self.contents().contains_key(
                task.chunk_data.voxels_hash,
            ) || exists|i: int|
                0 <= i < self.insert_buffer_view().len() && (#[trigger] self.insert_buffer_view()[i]).0
                    == task.chunk_data.voxels_hash),
    {
        if task.is_empty() || task.is_full() {
            return false;
        }
        !self.has_mesh(task.voxels_hash())
    }

    /// Replays the staged insertions into the weak table and the bundle
    /// side table, oldest first.
    pub fn apply_buffers(&mut self)
        ensures
            final(self).contents() == spec_apply_cache_inserts(
                old(self).contents(),
                old(self).insert_buffer_view(),
            ),
            final(self).bundles_view() == spec_apply_bundle_inserts(
                old(self).bundles_view(),
                old(self).insert_buffer_view(),
            ),
            final(self).insert_buffer_view() == Seq::<
                (u64, Arc<RenderableMesh>, Option<Vec<u8>>),
            >::empty(),
    {
        let mut staged: Vec<(u64, Arc<RenderableMesh>, Option<Vec<u8>>)> = Vec::new();
        std::mem::swap(&mut staged, &mut self.insert_buffer);
        let ghost g_staged = staged@;
        let ghost m0 = self.contents();
        let ghost b0 = self.bundles_view();
        proof {
            assert(g_staged.skip(0) =~= g_staged);
        }
        while staged.len() > 0
            invariant
                spec_apply_cache_inserts(m0, g_staged) == spec_apply_cache_inserts(
                    self.contents(),
                    staged@,
                ),
                spec_apply_bundle_inserts(b0, g_staged) == spec_apply_bundle_inserts(
                    self.bundles_view(),
                    staged@,
                ),
                self.insert_buffer_view() == Seq::<
                    (u64, Arc<RenderableMesh>, Option<Vec<u8>>),
                >::empty(),
            decreases staged@.len(),
        {
            let ghost pre = staged@;
            let (hash, mesh, bundle) = staged.remove(0);
            proof {
                assert(staged@ =~= pre.skip(1));
            }
            weak_table_insert(&mut self.mesh_handles, hash, mesh);
            match bundle {
                Option::Some(b) => {
                    self.user_bundles.insert(hash, b);
                },
                Option::None => {},
            }
        }
    }
}

} // verus!
