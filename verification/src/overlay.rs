use vstd::prelude::*;

use std::collections::HashMap;

use crate::math::{pack_key, spec_pack_key, IVec3};
use crate::voxel::WorldVoxel;

verus! {

broadcast use vstd::std_specs::hash::group_hash_axioms;

/// The modified-voxel overlay: a sparse map from world voxel coordinate to
/// an explicit voxel value. It is written before any chunk is touched and
/// consulted first by generation and live lookups, and entries survive a
/// chunk being despawned and respawned.
///
/// Keys are the packed form of the coordinate (see `pack_key`); the map
/// itself is viewed through `view`.
pub struct ModifiedVoxels {
    map: HashMap<u128, WorldVoxel>,
}

impl ModifiedVoxels {
    pub closed spec fn view(&self) -> Map<u128, WorldVoxel> {
        self.map@
    }

    /// The overlay entry for a world coordinate, as the generation task
    /// sees it.
    pub open spec fn spec_get(&self, p: IVec3) -> Option<WorldVoxel> {
        if self@.contains_key(spec_pack_key(p) as u128) {
            Option::Some(self@[spec_pack_key(p) as u128])
        } else {
            Option::None
        }
    }

    pub fn new() -> (r: Self)
        ensures
            r@ == Map::<u128, WorldVoxel>::empty(),
    {
        ModifiedVoxels { map: HashMap::new() }
    }

    /// The override stored for a world voxel coordinate, if any.
    pub fn get_voxel(&self, position: IVec3) -> (r: Option<WorldVoxel>)
        ensures
            r == self.spec_get(position),
    {
        let key: u128 = pack_key(position);
        match self.map.get(&key) {
            Option::Some(v) => Option::Some(*v),
            Option::None => Option::None,
        }
    }

    /// Records an override for a world voxel coordinate; the newest write
    /// wins.
    pub fn insert(&mut self, position: IVec3, voxel: WorldVoxel)
        ensures
            final(self)@ == old(self)@.insert(spec_pack_key(position) as u128, voxel),
    {
        let key: u128 = pack_key(position);
        self.map.insert(key, voxel);
    }

    pub fn len(&self) -> (r: usize)
        ensures
            r == self@.len(),
    {
        self.map.len()
    }
}

impl Clone for ModifiedVoxels {
    /// A snapshot of the overlay, handed to background generation tasks.
    fn clone(&self) -> (r: Self)
        ensures
            r@ == self@,
    {
        ModifiedVoxels { map: self.map.clone() }
    }
}

} // verus!
