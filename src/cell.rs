use vstd::prelude::*;

verus! {

/// Multiplier applied to the x component of a cell before hashing.
pub const X_PRIME: i32 = 73856093;

/// Multiplier applied to the y component of a cell before hashing.
pub const Y_PRIME: i32 = 19349663;

/// Multiplier applied to the z component of a cell before hashing.
pub const Z_PRIME: i32 = 83492791;

/// Integer address of a cell of the grid.
#[derive(Clone, Copy, Debug, PartialEq, Eq, Structural)]
pub struct Int3 {
    pub x: i32,
    pub y: i32,
    pub z: i32,
}

/// The two's-complement 32-bit value congruent to `v` modulo 2^32.
pub open spec fn wrap_i32(v: int) -> i32 {
    let m = v % 0x1_0000_0000;
    if m > i32::MAX as int {
        (m - 0x1_0000_0000) as i32
    } else {
        m as i32
    }
}

/// The hash of a cell: each component times its prime, reduced to 32 bits
/// with wraparound, and the three products combined by exclusive or.
pub open spec fn spec_cell_hash(c: Int3) -> i32 {
    wrap_i32(c.x * X_PRIME) ^ wrap_i32(c.y * Y_PRIME) ^ wrap_i32(c.z * Z_PRIME)
}

/// Hashes a cell coordinate. Overflow in the products wraps silently.
pub fn hash(grid_pos: &Int3) -> (r: i32)
    ensures
        r == spec_cell_hash(*grid_pos),
{
    let x = grid_pos.x.wrapping_mul(X_PRIME);
    let y = grid_pos.y.wrapping_mul(Y_PRIME);
    let z = grid_pos.z.wrapping_mul(Z_PRIME);
    x ^ y ^ z
}

/// Hashing is a function of the cell alone: equal cells hash equally.
pub proof fn lemma_hash_deterministic(a: Int3, b: Int3)
    requires
        a == b,
    ensures
        spec_cell_hash(a) == spec_cell_hash(b),
{
}

} // verus!
