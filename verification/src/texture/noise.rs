//! The lattice of a coherent noise: random values at the points of a grid,
//! found by hashing the three coordinates of a point through three
//! permutations.
use vstd::prelude::*;
use crate::hittable::bvh::lemma_same_members;
use crate::random::Random;
use crate::scalar::Scalar;

verus! {

/// The number of random values, and the length of each permutation.
pub const POINT_COUNT: usize = 256;

/// The numbers from 0 up to `n`, in order.
pub open spec fn identity(n: nat) -> Seq<usize> {
    Seq::new(n, |i: int| i as usize)
}

/// Whether a list is a permutation of the numbers from 0 up to `POINT_COUNT`.
pub open spec fn is_permutation(perm: Seq<usize>) -> bool {
    perm.to_multiset() == identity(POINT_COUNT as nat).to_multiset()
}

/// The place in a permutation for a grid coordinate `i` and an offset `di`:
/// their sum, taken modulo `POINT_COUNT`, with a result that is never
/// negative.
pub open spec fn lattice_place(i: i64, di: usize) -> int {
    (i + di) % (POINT_COUNT as int)
}

/// The random values and the three permutations.
#[derive(Debug)]
pub struct Perlin {
    ranfloat: Vec<Scalar>,
    perm_x: Vec<usize>,
    perm_y: Vec<usize>,
    perm_z: Vec<usize>,
}

/// The numbers from 0 up to `POINT_COUNT` in a random order.
fn generate_perm(rng: &mut Random) -> (perm: Vec<usize>)
    ensures
        is_permutation(perm@),
        perm@.len() == POINT_COUNT,
        forall|i: int| 0 <= i < perm@.len() ==> #[trigger] perm@[i] < POINT_COUNT,
{
    let mut perm: Vec<usize> = Vec::new();
    let mut i: usize = 0;
    while i < POINT_COUNT
        invariant
            i <= POINT_COUNT,
            perm@ == identity(i as nat),
        decreases POINT_COUNT - i,
    {
        perm.push(i);
        proof {
            assert(perm@ =~= identity((i + 1) as nat));
        }
        i += 1;
    }
    let ghost ordered = perm@;
    rng.shuffle(&mut perm);
    proof {
        perm@.to_multiset_ensures();
        ordered.to_multiset_ensures();
        assert forall|k: int| 0 <= k < perm@.len() implies #[trigger] perm@[k] < POINT_COUNT by {
            assert(perm@.contains(perm@[k]));
            lemma_same_members(perm@, ordered, perm@[k]);
            let j = choose|j: int| 0 <= j < ordered.len() && ordered[j] == perm@[k];
            assert(ordered[j] == j);
        }
    }
    perm
}

impl Perlin {
    /// The lattice is whole: there are `POINT_COUNT` random values, and each
    /// of the three lists is a permutation of the numbers below `POINT_COUNT`.
    #[verifier::type_invariant]
    pub closed spec fn well_formed(self) -> bool {
        &&& self.ranfloat@.len() == POINT_COUNT
        &&& self.perm_x@.len() == POINT_COUNT
        &&& self.perm_y@.len() == POINT_COUNT
        &&& self.perm_z@.len() == POINT_COUNT
        &&& is_permutation(self.perm_x@)
        &&& is_permutation(self.perm_y@)
        &&& is_permutation(self.perm_z@)
        &&& forall|i: int| 0 <= i < POINT_COUNT ==> #[trigger] self.perm_x@[i] < POINT_COUNT
        &&& forall|i: int| 0 <= i < POINT_COUNT ==> #[trigger] self.perm_y@[i] < POINT_COUNT
        &&& forall|i: int| 0 <= i < POINT_COUNT ==> #[trigger] self.perm_z@[i] < POINT_COUNT
    }

    /// The random values.
    pub closed spec fn values(self) -> Seq<Scalar> {
        self.ranfloat@
    }

    /// The permutation for one of the axes: 0 for x, 1 for y, anything else
    /// for z.
    pub closed spec fn permutation(self, axis: int) -> Seq<usize> {
        if axis == 0 {
            self.perm_x@
        } else if axis == 1 {
            self.perm_y@
        } else {
            self.perm_z@
        }
    }

    /// The number of the random value at a grid point.
    pub open spec fn hashed(self, px: int, py: int, pz: int) -> usize {
        self.permutation(0)[px] ^ self.permutation(1)[py] ^ self.permutation(2)[pz]
    }

    /// A lattice of the given random values, with three permutations drawn
    /// afresh; `None` unless there are exactly `POINT_COUNT` values.
    pub fn new(ranfloat: Vec<Scalar>, rng: &mut Random) -> (perlin: Option<Perlin>)
        ensures
            perlin is Some <==> ranfloat@.len() == POINT_COUNT,
            perlin matches Some(p) ==> {
                &&& p.values() == ranfloat@
                &&& is_permutation(p.permutation(0))
                &&& is_permutation(p.permutation(1))
                &&& is_permutation(p.permutation(2))
            },
    {
        if ranfloat.len() != POINT_COUNT {
            return None;
        }
        let perm_x = generate_perm(rng);
        let perm_y = generate_perm(rng);
        let perm_z = generate_perm(rng);
        Some(Perlin { ranfloat, perm_x, perm_y, perm_z })
    }

    /// The place in a permutation for a grid coordinate and an offset.
    pub fn place(i: i64, di: usize) -> (p: usize)
        requires
            di <= 1,
        ensures
            p == lattice_place(i, di),
            p < POINT_COUNT,
    {
        // 2^63 is a multiple of 256: adding it changes no remainder and
        // leaves nothing negative.
        let shifted: u128 = ((i as i128) + 0x8000_0000_0000_0000i128 + (di as i128)) as u128;
        let p: u128 = shifted % 256;
        proof {
            assert((i + di + 0x8000_0000_0000_0000int) % 256 == (i + di) % 256);
        }
        p as usize
    }

    /// The random value at the grid point `(i + di, j + dj, k + dk)`: the three
    /// coordinates are looked up in the three permutations and the results
    /// combined bit by bit.
    pub fn corner(&self, i: i64, j: i64, k: i64, di: usize, dj: usize, dk: usize) -> (value: Scalar)
        requires
            di <= 1,
            dj <= 1,
            dk <= 1,
        ensures
            self.hashed(lattice_place(i, di), lattice_place(j, dj), lattice_place(k, dk))
                < POINT_COUNT,
            value == self.values()[self.hashed(
                lattice_place(i, di),
                lattice_place(j, dj),
                lattice_place(k, dk),
            ) as int],
    {
        proof {
            use_type_invariant(self);
        }
        let a: usize = self.perm_x[Perlin::place(i, di)];
        let b: usize = self.perm_y[Perlin::place(j, dj)];
        let c: usize = self.perm_z[Perlin::place(k, dk)];
        assert(a ^ b ^ c < 256) by (bit_vector)
            requires
                a < 256,
                b < 256,
                c < 256,
        ;
        self.ranfloat[a ^ b ^ c]
    }
}

} // verus!
