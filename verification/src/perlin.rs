//! The lattice of gradient noise: three shuffled index tables and a table of
//! gradient vectors, looked up by hashing integer lattice coordinates.

use vstd::prelude::*;
use crate::rt_weekend::random_int_in_range;
use crate::vec3::Vec3;

verus! {

/// Number of gradients, and length of each index table.
pub const POINT_COUNT: usize = 256;

/// `s` holds each of `0 .. POINT_COUNT` exactly once.
pub open spec fn is_permutation(s: Seq<i32>) -> bool {
    &&& s.len() == POINT_COUNT
    &&& forall|i: int| 0 <= i < s.len() ==> 0 <= #[trigger] s[i] < POINT_COUNT
    &&& s.no_duplicates()
}

/// The low eight bits of `n`: its place in an index table.
pub open spec fn low_byte(n: i32) -> int {
    (n & 255) as int
}

pub struct Perlin {
    pub ran_vec: Vec<Vec3>,
    pub perm_x: Vec<i32>,
    pub perm_y: Vec<i32>,
    pub perm_z: Vec<i32>,
}

impl Perlin {
    pub open spec fn well_formed(&self) -> bool {
        &&& self.ran_vec@.len() == POINT_COUNT
        &&& is_permutation(self.perm_x@)
        &&& is_permutation(self.perm_y@)
        &&& is_permutation(self.perm_z@)
    }

    /// Index into the gradient table for the lattice point `(i, j, k)`.
    pub open spec fn cell(&self, i: i32, j: i32, k: i32) -> int {
        (self.perm_x@[low_byte(i)] ^ self.perm_y@[low_byte(j)] ^ self.perm_z@[low_byte(k)]) as int
    }

    /// The gradient at the lattice point `(i, j, k)`.
    pub open spec fn gradient_at(&self, i: i32, j: i32, k: i32) -> Vec3 {
        self.ran_vec@[self.cell(i, j, k)]
    }

    /// A noise lattice over the given gradients, with three freshly shuffled
    /// index tables.
    pub fn new(ran_vec: Vec<Vec3>) -> (r: Perlin)
        requires
            ran_vec@.len() == POINT_COUNT,
        ensures
            r.well_formed(),
            r.ran_vec@ == ran_vec@,
    {
        Perlin {
            ran_vec,
            perm_x: Self::perlin_generate_perm(),
            perm_y: Self::perlin_generate_perm(),
            perm_z: Self::perlin_generate_perm(),
        }
    }

    /// The gradient at one lattice point.
    pub fn gradient(&self, i: i32, j: i32, k: i32) -> (r: Vec3)
        requires
            self.well_formed(),
        ensures
            r == self.gradient_at(i, j, k),
    {
        let a: i32 = self.perm_x[Self::slot(i)];
        let b: i32 = self.perm_y[Self::slot(j)];
        let c: i32 = self.perm_z[Self::slot(k)];
        assert(0 <= (a ^ b ^ c) < 256) by (bit_vector)
            requires
                0 <= a < 256,
                0 <= b < 256,
                0 <= c < 256,
        ;
        self.ran_vec[(a ^ b ^ c) as usize]
    }

    /// The gradients at the eight corners of the lattice cell whose lowest corner
    /// is `(i, j, k)`; the corner `(i + di, j + dj, k + dk)` stands at index
    /// `4 * di + 2 * dj + dk`.
    pub fn corners(&self, i: i32, j: i32, k: i32) -> (r: Vec<Vec3>)
        requires
            self.well_formed(),
            i < i32::MAX,
            j < i32::MAX,
            k < i32::MAX,
        ensures
            r@.len() == 8,
            r@[0] == self.gradient_at(i, j, k),
            r@[1] == self.gradient_at(i, j, (k + 1) as i32),
            r@[2] == self.gradient_at(i, (j + 1) as i32, k),
            r@[3] == self.gradient_at(i, (j + 1) as i32, (k + 1) as i32),
            r@[4] == self.gradient_at((i + 1) as i32, j, k),
            r@[5] == self.gradient_at((i + 1) as i32, j, (k + 1) as i32),
            r@[6] == self.gradient_at((i + 1) as i32, (j + 1) as i32, k),
            r@[7] == self.gradient_at((i + 1) as i32, (j + 1) as i32, (k + 1) as i32),
    {
        let mut c: Vec<Vec3> = Vec::new();
        c.push(self.gradient(i, j, k));
        c.push(self.gradient(i, j, k + 1));
        c.push(self.gradient(i, j + 1, k));
        c.push(self.gradient(i, j + 1, k + 1));
        c.push(self.gradient(i + 1, j, k));
        c.push(self.gradient(i + 1, j, k + 1));
        c.push(self.gradient(i + 1, j + 1, k));
        c.push(self.gradient(i + 1, j + 1, k + 1));
        c
    }

    fn slot(n: i32) -> (r: usize)
        ensures
            r == low_byte(n),
            r < POINT_COUNT,
    {
        let m: i32 = n & 255;
        assert(0 <= (n & 255) < 256) by (bit_vector);
        m as usize
    }

    /// A fresh random arrangement of `0 .. POINT_COUNT`.
    pub fn perlin_generate_perm() -> (p: Vec<i32>)
        ensures
            is_permutation(p@),
    {
        let mut p: Vec<i32> = Vec::new();
        let mut i: usize = 0;
        while i < POINT_COUNT
            invariant
                i <= POINT_COUNT,
                p@.len() == i,
                forall|k: int| 0 <= k < i ==> #[trigger] p@[k] == k,
            decreases POINT_COUNT - i,
        {
            p.push(i as i32);
            i += 1;
        }
        let ghost start = p@;
        assert(start.no_duplicates());
        Self::permute(&mut p, POINT_COUNT);
        proof {
            broadcast use vstd::seq_lib::group_to_multiset_ensures;

            start.lemma_multiset_has_no_duplicates();
            p@.lemma_multiset_has_no_duplicates_conv();
            assert forall|k: int| 0 <= k < p@.len() implies 0 <= #[trigger] p@[k] < POINT_COUNT by {
                assert(p@.contains(p@[k]));
                assert(start.to_multiset().count(p@[k]) > 0);
                assert(start.contains(p@[k]));
            }
        }
        p
    }

    /// Shuffles the first `n` entries of `p` in place: from the last of them down
    /// to the second, each changes places with a random entry at or before it.
    /// The result is what [`shuffled`] makes of the input for the picks that
    /// were drawn, so it holds the same entries, and those from `n` on stay.
    pub fn permute(p: &mut Vec<i32>, n: usize)
        requires
            n <= old(p)@.len(),
            n <= i32::MAX,
        ensures
            is_shuffle(final(p)@, old(p)@, n as int),
            final(p)@.len() == old(p)@.len(),
            final(p)@.to_multiset() == old(p)@.to_multiset(),
            forall|k: int| n <= k < old(p)@.len() ==> final(p)@[k] == old(p)@[k],
    {
        let ghost start = p@;
        let ghost mut picks: Seq<int> = Seq::empty();
        if n < 2 {
            proof {
                assert(fair_picks(picks, n as int));
                assert(p@ == shuffled(start, n as int, picks));
            }
            return ;
        }
        let mut i: usize = n - 1;
        while i > 0
            invariant
                i < n,
                n <= p@.len(),
                n <= i32::MAX,
                p@.len() == start.len(),
                p@.to_multiset() == start.to_multiset(),
                forall|k: int| n <= k < start.len() ==> p@[k] == start[k],
                picks.len() == n - 1 - i,
                forall|k: int| 0 <= k < picks.len() ==> 0 <= #[trigger] picks[k] <= n - 1 - k,
                p@ == shuffled(start, n as int, picks),
            decreases i,
        {
            let target: usize = random_int_in_range(0, i as i32) as usize;
            let ghost before = p@;
            let ghost drawn = picks;
            let a: i32 = p[i];
            let b: i32 = p[target];
            p.set(i, b);
            p.set(target, a);
            proof {
                broadcast use vstd::seq_lib::group_to_multiset_ensures;
                broadcast use vstd::multiset::group_multiset_axioms;

                let mid = before.update(i as int, b);
                assert(before.contains(a));
                assert(before.contains(b));
                assert(mid[target as int] == b);
                assert(p@ == mid.update(target as int, a));
                assert(p@.to_multiset() =~= before.to_multiset());
                picks = drawn.push(target as int);
                assert(picks.drop_last() == drawn);
                assert(picks.last() == target);
                assert(p@ == exchanged(before, i as int, target as int));
            }
            i -= 1;
        }
        proof {
            assert(fair_picks(picks, n as int));
        }
    }
}

/// `s` with the entries at `i` and `j` in each other's place.
pub open spec fn exchanged(s: Seq<i32>, i: int, j: int) -> Seq<i32> {
    s.update(i, s[j]).update(j, s[i])
}

/// The picks that a shuffle of the first `n` entries may draw, in the order in
/// which they are drawn: one for each index from `n - 1` down to 1, each at or
/// before its index.
pub open spec fn fair_picks(picks: Seq<int>, n: int) -> bool {
    &&& picks.len() == if n >= 1 {
        n - 1
    } else {
        0
    }
    &&& forall|k: int| 0 <= k < picks.len() ==> 0 <= #[trigger] picks[k] <= n - 1 - k
}

/// What the shuffle of the first `n` entries makes of `s` when it draws
/// `picks`: the first pick changes places with the entry at `n - 1`, the next
/// with the entry at `n - 2`, and so on down.
pub open spec fn shuffled(s: Seq<i32>, n: int, picks: Seq<int>) -> Seq<i32>
    decreases picks.len(),
{
    if picks.len() == 0 {
        s
    } else {
        exchanged(shuffled(s, n, picks.drop_last()), n - picks.len(), picks.last())
    }
}

/// `after` is what the shuffle of the first `n` entries makes of `before` for
/// some picks that it may draw.
pub open spec fn is_shuffle(after: Seq<i32>, before: Seq<i32>, n: int) -> bool {
    exists|picks: Seq<int>| #[trigger] fair_picks(picks, n) && after == shuffled(before, n, picks)
}

} // verus!
