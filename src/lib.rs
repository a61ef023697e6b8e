//! Spatial hashing over a uniform 3D grid: a hash of integer cell
//! coordinates and a lower-bound lookup of a cell's hash in a table of
//! `(hash, index)` records sorted by hash.

pub mod cell;
pub mod lookup;

pub use cell::{hash, spec_cell_hash, wrap_i32, Int3, X_PRIME, Y_PRIME, Z_PRIME};
pub use lookup::{
    binary_search_first_grid, first_index_of_hash, is_first_match, sorted_by_hash, HashAndIndex,
};
