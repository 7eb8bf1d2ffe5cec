use vstd::prelude::*;

use crate::math::UVec3;
use crate::voxel::WorldVoxel;

verus! {

/// FNV-1a, 64 bit: the offset basis.
pub const FNV_OFFSET: u64 = 0xcbf29ce484222325;

/// FNV-1a, 64 bit: the prime.
pub const FNV_PRIME: u64 = 0x100000001b3;

/// One FNV-1a round: fold a byte into the running hash.
pub open spec fn fnv1a_step(h: u64, b: u8) -> u64 {
    (((h ^ (b as u64)) as int) * (FNV_PRIME as int)) as u64
}

/// The two bytes a voxel contributes to the content hash: a tag and the
/// material index (zero for non-solid voxels).
pub open spec fn voxel_tag(v: WorldVoxel) -> u8 {
    match v {
        WorldVoxel::Unset => 0,
        WorldVoxel::Air => 1,
        WorldVoxel::Solid(_) => 2,
    }
}

pub open spec fn voxel_material(v: WorldVoxel) -> u8 {
    match v {
        WorldVoxel::Solid(m) => m,
        _ => 0,
    }
}

pub open spec fn hash_voxel_step(h: u64, v: WorldVoxel) -> u64 {
    fnv1a_step(fnv1a_step(h, voxel_tag(v)), voxel_material(v))
}

/// Folds a voxel sequence into the hash, front to back.
pub open spec fn hash_voxels(s: Seq<WorldVoxel>, h: u64) -> u64
    decreases s.len(),
{
    if s.len() == 0 {
        h
    } else {
        hash_voxels(s.skip(1), hash_voxel_step(h, s[0]))
    }
}

/// Folds one little-endian `u32` into the hash.
pub open spec fn hash_u32(h: u64, x: u32) -> u64 {
    fnv1a_step(
        fnv1a_step(fnv1a_step(fnv1a_step(h, (x & 0xff) as u8), ((x >> 8) & 0xff) as u8), ((x
            >> 16) & 0xff) as u8),
        ((x >> 24) & 0xff) as u8,
    )
}

pub open spec fn hash_shape(h: u64, s: UVec3) -> u64 {
    hash_u32(hash_u32(hash_u32(h, s.x), s.y), s.z)
}

/// The content hash of a chunk: a pure function of the two padded shapes
/// and the voxel array, so byte-identical chunks always hash alike.
pub open spec fn spec_content_hash(data_shape: UVec3, mesh_shape: UVec3, voxels: Seq<WorldVoxel>) -> u64 {
    hash_voxels(voxels, hash_shape(hash_shape(FNV_OFFSET, data_shape), mesh_shape))
}

fn fnv1a_byte(h: u64, b: u8) -> (r: u64)
    ensures
        r == fnv1a_step(h, b),
{
    let x: u64 = h ^ (b as u64);
    let wide: u128 = (x as u128) * (FNV_PRIME as u128);
    proof {
        assert((((x as int) * (FNV_PRIME as int)) as u64) == ((x as u128) * (
        FNV_PRIME as u128)) as u64) by (nonlinear_arith)
            requires
                0 <= x <= u64::MAX,
        ;
    }
    #[verifier::truncate]
    (wide as u64)
}

fn fnv1a_u32(h: u64, x: u32) -> (r: u64)
    ensures
        r == hash_u32(h, x),
{
    let b0: u8 = (x & 0xff) as u8;
    let b1: u8 = ((x >> 8) & 0xff) as u8;
    let b2: u8 = ((x >> 16) & 0xff) as u8;
    let b3: u8 = ((x >> 24) & 0xff) as u8;
    assert((x & 0xff) < 256 && ((x >> 8) & 0xff) < 256 && ((x >> 16) & 0xff) < 256 && ((x
        >> 24) & 0xff) < 256) by (bit_vector);
    fnv1a_byte(fnv1a_byte(fnv1a_byte(fnv1a_byte(h, b0), b1), b2), b3)
}

fn hash_one_voxel(h: u64, v: WorldVoxel) -> (r: u64)
    ensures
        r == hash_voxel_step(h, v),
{
    let (tag, mat): (u8, u8) = match v {
        WorldVoxel::Unset => (0u8, 0u8),
        WorldVoxel::Air => (1u8, 0u8),
        WorldVoxel::Solid(m) => (2u8, m),
    };
    fnv1a_byte(fnv1a_byte(h, tag), mat)
}

proof fn lemma_hash_voxels_unfold(s: Seq<WorldVoxel>, h: u64, i: int)
    requires
        0 <= i < s.len(),
    ensures
        hash_voxels(s.skip(i), h) == hash_voxels(s.skip(i + 1), hash_voxel_step(h, s[i])),
{
    assert(s.skip(i)[0] == s[i]);
    assert(s.skip(i).skip(1) =~= s.skip(i + 1));
}

/// Computes the chunk content hash of a voxel array and its shapes.
pub fn content_hash(data_shape: UVec3, mesh_shape: UVec3, voxels: &Vec<WorldVoxel>) -> (r: u64)
    ensures
        r == spec_content_hash(data_shape, mesh_shape, voxels@),
{
    let mut h: u64 = FNV_OFFSET;
    h = fnv1a_u32(h, data_shape.x);
    h = fnv1a_u32(h, data_shape.y);
    h = fnv1a_u32(h, data_shape.z);
    h = fnv1a_u32(h, mesh_shape.x);
    h = fnv1a_u32(h, mesh_shape.y);
    h = fnv1a_u32(h, mesh_shape.z);
    let ghost h0: u64 = h;
    proof {
        assert(voxels@.skip(0) =~= voxels@);
    }
    let mut i: usize = 0;
    while i < voxels.len()
        invariant
            0 <= i <= voxels.len(),
            hash_voxels(voxels@, h0) == hash_voxels(voxels@.skip(i as int), h),
        decreases voxels.len() - i,
    {
        proof {
            lemma_hash_voxels_unfold(voxels@, h, i as int);
        }
        h = hash_one_voxel(h, voxels[i]);
        i = i + 1;
    }
    proof {
        assert(voxels@.skip(voxels@.len() as int) =~= Seq::<WorldVoxel>::empty());
    }
    h
}

} // verus!
