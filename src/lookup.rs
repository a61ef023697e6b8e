use vstd::prelude::*;

use crate::cell::{hash, spec_cell_hash, Int3};

verus! {

/// One binned entity: the hash of its cell and an index chosen by the caller.
#[derive(Clone, Copy, Debug, PartialEq, Eq, Structural)]
pub struct HashAndIndex {
    pub hash: i32,
    pub index: i32,
}

/// The records are in non-decreasing order of their hash field.
pub open spec fn sorted_by_hash(s: Seq<HashAndIndex>) -> bool {
    forall|i: int, j: int| 0 <= i <= j < s.len() ==> s[i].hash <= s[j].hash
}

/// Position `i` holds a record with hash `h`, and no earlier one does.
pub open spec fn is_first_match(s: Seq<HashAndIndex>, h: i32, i: int) -> bool {
    &&& 0 <= i < s.len()
    &&& s[i].hash == h
    &&& forall|j: int| 0 <= j < i ==> s[j].hash != h
}

/// The lowest position of a record with hash `h`, or -1 when there is none.
pub open spec fn first_index_of_hash(s: Seq<HashAndIndex>, h: i32) -> int {
    if exists|i: int| is_first_match(s, h, i) {
        choose|i: int| is_first_match(s, h, i)
    } else {
        -1
    }
}

proof fn lemma_first_match_unique(s: Seq<HashAndIndex>, h: i32, i: int)
    requires
        is_first_match(s, h, i),
    ensures
        first_index_of_hash(s, h) == i,
{
    let k = choose|k: int| is_first_match(s, h, k);
    assert(is_first_match(s, h, k));
    if k < i {
        assert(s[k].hash != h);
    } else if i < k {
        assert(s[i].hash != h);
    }
}

proof fn lemma_first_match_exists(s: Seq<HashAndIndex>, h: i32, i: int)
    requires
        0 <= i < s.len(),
        s[i].hash == h,
    ensures
        0 <= first_index_of_hash(s, h) <= i,
        is_first_match(s, h, first_index_of_hash(s, h)),
    decreases i,
{
    if exists|j: int| 0 <= j < i && s[j].hash == h {
        let j = choose|j: int| 0 <= j < i && s[j].hash == h;
        lemma_first_match_exists(s, h, j);
    } else {
        assert(is_first_match(s, h, i));
        lemma_first_match_unique(s, h, i);
    }
}

/// Hashes `grid_pos`, stores the hash in `out_hash`, and searches `array`
/// for the first record carrying that hash with a lower-bound binary
/// search. Returns that record's position, or -1 when there is none.
///
/// Whatever the order of `array`, a position returned holds the hash.
/// When `array` is sorted by hash, the result is exactly the lowest position
/// holding the hash, or -1 when no record holds it.
pub fn binary_search_first_grid(grid_pos: &Int3, array: &[HashAndIndex], out_hash: &mut i32) -> (r:
    i32)
    requires
        array@.len() <= i32::MAX,
    ensures
        *final(out_hash) == spec_cell_hash(*grid_pos),
        r == -1 || (0 <= r < array@.len() && array@[r as int].hash == spec_cell_hash(*grid_pos)),
        sorted_by_hash(array@) ==> r == first_index_of_hash(array@, spec_cell_hash(*grid_pos)),
        array@.len() == 0 ==> r == -1,
{
    let h = hash(grid_pos);
    *out_hash = h;

    let mut left: usize = 0;
    let mut right: usize = array.len();
    while left < right
        invariant
            left <= right <= array@.len(),
            sorted_by_hash(array@) ==> forall|i: int| 0 <= i < left ==> array@[i].hash < h,
            sorted_by_hash(array@) ==> forall|i: int|
                right <= i < array@.len() ==> array@[i].hash >= h,
        decreases right - left,
    {
        let mid = left + (right - left) / 2;
        if array[mid].hash < h {
            left = mid + 1;
        } else {
            right = mid;
        }
    }

    if left < array.len() && array[left].hash == h {
        proof {
            if sorted_by_hash(array@) {
                assert(is_first_match(array@, h, left as int));
                lemma_first_match_unique(array@, h, left as int);
            }
        }
        left as i32
    } else {
        proof {
            if sorted_by_hash(array@) {
                assert forall|i: int| 0 <= i < array@.len() implies array@[i].hash != h by {
                    if i >= left {
                        assert(array@[left as int].hash <= array@[i].hash);
                    }
                }
                assert(!exists|i: int| is_first_match(array@, h, i));
            }
        }
        -1
    }
}

/// With the records sorted and exactly one of them carrying the cell's hash,
/// the lookup finds that record's position.
pub proof fn lemma_lookup_single_match(s: Seq<HashAndIndex>, cell: Int3, i: int)
    requires
        sorted_by_hash(s),
        0 <= i < s.len(),
        s[i].hash == spec_cell_hash(cell),
        forall|j: int| 0 <= j < s.len() && j != i ==> s[j].hash != spec_cell_hash(cell),
    ensures
        first_index_of_hash(s, spec_cell_hash(cell)) == i,
{
    assert(is_first_match(s, spec_cell_hash(cell), i));
    lemma_first_match_unique(s, spec_cell_hash(cell), i);
}

/// With the records sorted and none carrying the cell's hash, the lookup
/// yields -1.
pub proof fn lemma_lookup_no_match(s: Seq<HashAndIndex>, cell: Int3)
    requires
        sorted_by_hash(s),
        forall|j: int| 0 <= j < s.len() ==> s[j].hash != spec_cell_hash(cell),
    ensures
        first_index_of_hash(s, spec_cell_hash(cell)) == -1,
{
}

/// An empty table is sorted, and the lookup of any cell in it yields -1.
pub proof fn lemma_lookup_empty(cell: Int3)
    ensures
        sorted_by_hash(Seq::<HashAndIndex>::empty()),
        first_index_of_hash(Seq::<HashAndIndex>::empty(), spec_cell_hash(cell)) == -1,
{
}

/// A record carrying the cell's hash at position `i` of a sorted table is
/// found: the lookup yields the lowest position carrying that hash, which is
/// `i` itself unless an equal hash stands before it.
pub proof fn lemma_lookup_round_trip(s: Seq<HashAndIndex>, cell: Int3, i: int)
    requires
        sorted_by_hash(s),
        0 <= i < s.len(),
        s[i].hash == spec_cell_hash(cell),
    ensures
        0 <= first_index_of_hash(s, spec_cell_hash(cell)) <= i,
        is_first_match(s, spec_cell_hash(cell), first_index_of_hash(s, spec_cell_hash(cell))),
        (forall|j: int| 0 <= j < i ==> s[j].hash != spec_cell_hash(cell)) ==> first_index_of_hash(
            s,
            spec_cell_hash(cell),
        ) == i,
{
    lemma_first_match_exists(s, spec_cell_hash(cell), i);
    if forall|j: int| 0 <= j < i ==> s[j].hash != spec_cell_hash(cell) {
        lemma_first_match_unique(s, spec_cell_hash(cell), i);
    }
}

} // verus!
