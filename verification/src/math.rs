use vstd::prelude::*;

verus! {

/// Scale of the 16.16 fixed-point world coordinates: one voxel edge.
pub const FX_ONE: i64 = 65536;

/// An integer 3-vector: voxel coordinates, chunk coordinates, steps.
#[derive(Copy, Clone, Debug, PartialEq, Eq, Hash, Structural)]
pub struct IVec3 {
    pub x: i32,
    pub y: i32,
    pub z: i32,
}

/// An unsigned 3-vector: padded shape extents and cell indices.
#[derive(Copy, Clone, Debug, PartialEq, Eq, Hash, Structural)]
pub struct UVec3 {
    pub x: u32,
    pub y: u32,
    pub z: u32,
}

/// A world-space position in 16.16 fixed point: `FX_ONE` units per voxel.
#[derive(Copy, Clone, Debug, PartialEq, Eq, Structural)]
pub struct FxVec3 {
    pub x: i64,
    pub y: i64,
    pub z: i64,
}

impl IVec3 {
    pub fn new(x: i32, y: i32, z: i32) -> (r: IVec3)
        ensures
            r == (IVec3 { x, y, z }),
    {
        IVec3 { x, y, z }
    }

    /// Squared Euclidean distance, exact in `i128`.
    pub fn distance_squared(self, other: IVec3) -> (r: i128)
        ensures
            r == spec_dist_sq(self, other),
    {
        let dx: i128 = self.x as i128 - other.x as i128;
        let dy: i128 = self.y as i128 - other.y as i128;
        let dz: i128 = self.z as i128 - other.z as i128;
        proof {
            assert(0 <= dx * dx <= 0x1_0000_0000_0000_0000 && 0 <= dy * dy
                <= 0x1_0000_0000_0000_0000 && 0 <= dz * dz <= 0x1_0000_0000_0000_0000)
                by (nonlinear_arith)
                requires
                    -0x1_0000_0000 <= dx <= 0x1_0000_0000,
                    -0x1_0000_0000 <= dy <= 0x1_0000_0000,
                    -0x1_0000_0000 <= dz <= 0x1_0000_0000,
            ;
        }
        dx * dx + dy * dy + dz * dz
    }
}

pub open spec fn spec_dist_sq(a: IVec3, b: IVec3) -> int {
    (a.x - b.x) * (a.x - b.x) + (a.y - b.y) * (a.y - b.y) + (a.z - b.z) * (a.z - b.z)
}

/// Floor division by a positive divisor, matching mathematical integer
/// division (which rounds toward negative infinity).
pub fn floor_div_i64(a: i64, b: i64) -> (r: i64)
    requires
        0 < b,
        i64::MIN < a,
    ensures
        r == a as int / b as int,
        a >= 0 ==> 0 <= r <= a,
        a < 0 ==> a <= r <= 0,
{
    if a >= 0 {
        let q: u64 = (a as u64) / (b as u64);
        proof {
            vstd::arithmetic::div_mod::lemma_fundamental_div_mod(a as int, b as int);
            vstd::arithmetic::div_mod::lemma_mod_bound(a as int, b as int);
            vstd::arithmetic::div_mod::lemma_div_is_ordered(0, a as int, b as int);
            assert(q <= a) by (nonlinear_arith)
                requires
                    0 <= a,
                    1 <= b,
                    0 <= q,
                    a as int == b as int * (q as int) + (a as int % b as int),
                    0 <= a as int % b as int,
            ;
        }
        q as i64
    } else {
        let m: u64 = (-a) as u64;
        let q: u64 = m / (b as u64);
        let rem: u64 = m % (b as u64);
        proof {
            lemma_floor_div_negative(a as int, b as int, q as int, rem as int);
        }
        if rem == 0 {
            -(q as i64)
        } else {
            -(q as i64) - 1
        }
    }
}

proof fn lemma_floor_div_negative(a: int, b: int, q: int, rem: int)
    requires
        0 < b,
        a < 0,
        -a <= i64::MAX,
        q == (-a) / b,
        rem == (-a) % b,
    ensures
        rem == 0 ==> a / b == -q,
        rem != 0 ==> a / b == -q - 1,
        q <= i64::MAX,
        a <= a / b <= 0,
{
    vstd::arithmetic::div_mod::lemma_fundamental_div_mod(-a, b);
    vstd::arithmetic::div_mod::lemma_mod_bound(-a, b);
    vstd::arithmetic::div_mod::lemma_div_is_ordered(0, -a, b);
    assert(q <= i64::MAX && (rem == 0 ==> a <= -q) && (rem != 0 ==> a <= -q - 1))
        by (nonlinear_arith)
        requires
            -a == b * q + rem,
            0 <= rem < b,
            1 <= b,
            0 <= q,
            -a <= i64::MAX,
    ;
    if rem == 0 {
        // a == b * (-q), so the quotient of a by b is exactly -q.
        assert(a == b * (-q) + 0) by (nonlinear_arith)
            requires
                -a == b * q + rem,
                rem == 0,
        ;
        vstd::arithmetic::div_mod::lemma_fundamental_div_mod_converse(a, b, -q, 0);
    } else {
        // a == b * (-q - 1) + (b - rem), and 0 <= b - rem < b, so the
        // quotient of a by b is exactly -q - 1.
        assert(a == b * (-q - 1) + (b - rem)) by (nonlinear_arith)
            requires
                -a == b * q + rem,
        ;
        vstd::arithmetic::div_mod::lemma_fundamental_div_mod_converse(a, b, -q - 1, b - rem);
    }
}

/// The chunk that contains a world voxel coordinate: floor division by the
/// chunk edge length.
pub fn floor_div_chunk(a: i32) -> (r: i32)
    ensures
        r == a as int / 32,
        -0x400_0000 <= r <= 0x400_0000,
{
    let q: i64 = floor_div_i64(a as i64, 32);
    proof {
        if a >= 0 {
            vstd::arithmetic::div_mod::lemma_div_is_ordered(a as int, 0x8000_0000, 32);
        } else {
            vstd::arithmetic::div_mod::lemma_div_is_ordered(-0x8000_0000, a as int, 32);
        }
    }
    q as i32
}

/// A product of box-bounded factors is box-bounded.
pub proof fn lemma_product_bound(a: int, b: int, ab: int, bb: int)
    requires
        -ab <= a <= ab,
        -bb <= b <= bb,
        0 <= ab,
        0 <= bb,
    ensures
        -(ab * bb) <= a * b <= ab * bb,
{
    assert(-(ab * bb) <= a * b <= ab * bb) by (nonlinear_arith)
        requires
            -ab <= a <= ab,
            -bb <= b <= bb,
            0 <= ab,
            0 <= bb,
    ;
}

/// Packs a signed 3-vector into one map key; `lemma_pack_key_injective`
/// shows that distinct vectors get distinct keys.
pub fn pack_key(p: IVec3) -> (r: u128)
    ensures
        r == spec_pack_key(p),
{
    let a: u128 = (p.x as i64 + 0x8000_0000i64) as u128;
    let b: u128 = (p.y as i64 + 0x8000_0000i64) as u128;
    let c: u128 = (p.z as i64 + 0x8000_0000i64) as u128;
    a * 0x1_0000_0000_0000_0000u128 + b * 0x1_0000_0000u128 + c
}

pub open spec fn spec_pack_key(p: IVec3) -> int {
    (p.x + 0x8000_0000) * 0x1_0000_0000_0000_0000 + (p.y + 0x8000_0000) * 0x1_0000_0000 + (
    p.z + 0x8000_0000)
}

pub proof fn lemma_pack_key_injective(p: IVec3, q: IVec3)
    requires
        spec_pack_key(p) == spec_pack_key(q),
    ensures
        p == q,
{
    let ax = p.x + 0x8000_0000;
    let ay = p.y + 0x8000_0000;
    let az = p.z + 0x8000_0000;
    let bx = q.x + 0x8000_0000;
    let by = q.y + 0x8000_0000;
    let bz = q.z + 0x8000_0000;
    assert(ax == bx && ay == by && az == bz) by (nonlinear_arith)
        requires
            0 <= ax < 0x1_0000_0000,
            0 <= ay < 0x1_0000_0000,
            0 <= az < 0x1_0000_0000,
            0 <= bx < 0x1_0000_0000,
            0 <= by < 0x1_0000_0000,
            0 <= bz < 0x1_0000_0000,
            ax * 0x1_0000_0000_0000_0000 + ay * 0x1_0000_0000 + az == bx
                * 0x1_0000_0000_0000_0000 + by * 0x1_0000_0000 + bz,
    ;
}

} // verus!
