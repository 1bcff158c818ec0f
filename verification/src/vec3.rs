//! Triples of scalars: vectors, points, and the frame built round a normal.
use vstd::prelude::*;
use crate::scalar::Scalar;

verus! {

/// The rank of 1e-8, below which a component counts as zero.
pub const NEAR_ZERO_RANK: i64 = 0x3E45_798E_E230_8C3A;

/// The rank of 0.9, above which a unit normal counts as parallel to an axis.
pub const PARALLEL_RANK: i64 = 0x3FEC_CCCC_CCCC_CCCD;

/// A vector of three scalars.
#[derive(Clone, Copy, Debug, PartialEq, Eq, Structural)]
pub struct Vec3 {
    pub x: Scalar,
    pub y: Scalar,
    pub z: Scalar,
}

/// A position in space.
pub type Point3 = Vec3;

/// The absolute value of a rank.
pub open spec fn abs_rank(rank: int) -> int {
    if rank < 0 {
        -rank
    } else {
        rank
    }
}

impl Vec3 {
    /// The vector with the given components.
    pub fn new(x: Scalar, y: Scalar, z: Scalar) -> (r: Vec3)
        ensures
            r == (Vec3 { x, y, z }),
    {
        Vec3 { x, y, z }
    }

    /// The component along an axis: 0 for x, 1 for y, anything else for z.
    pub open spec fn component(self, axis: int) -> Scalar {
        if axis == 0 {
            self.x
        } else if axis == 1 {
            self.y
        } else {
            self.z
        }
    }

    /// The component along an axis: 0 for x, 1 for y, anything else for z.
    pub fn axis(&self, axis: usize) -> (r: Scalar)
        ensures
            r == self.component(axis as int),
    {
        if axis == 0 {
            self.x
        } else if axis == 1 {
            self.y
        } else {
            self.z
        }
    }

    /// The vector that points the opposite way.
    pub fn neg(&self) -> (r: Vec3)
        ensures
            r.x@ == -self.x@,
            r.y@ == -self.y@,
            r.z@ == -self.z@,
    {
        Vec3 { x: self.x.neg(), y: self.y.neg(), z: self.z.neg() }
    }

    /// Whether every component is closer to zero than 1e-8.
    pub open spec fn is_near_zero(self) -> bool {
        &&& abs_rank(self.x@) < NEAR_ZERO_RANK
        &&& abs_rank(self.y@) < NEAR_ZERO_RANK
        &&& abs_rank(self.z@) < NEAR_ZERO_RANK
    }

    /// Whether every component is closer to zero than 1e-8, in which case the
    /// vector is of no use as a direction.
    pub fn near_zero(&self) -> (b: bool)
        ensures
            b == self.is_near_zero(),
    {
        let eps = Scalar::from_rank(NEAR_ZERO_RANK);
        self.x.abs().lt(eps) && self.y.abs().lt(eps) && self.z.abs().lt(eps)
    }

    /// The matrix whose columns are the three vectors, row by row.
    pub fn to_matrix(a: &Vec3, b: &Vec3, c: &Vec3) -> (m: Vec<Vec<Scalar>>)
        ensures
            m@.len() == 3,
            m@[0]@ == seq![a.x, b.x, c.x],
            m@[1]@ == seq![a.y, b.y, c.y],
            m@[2]@ == seq![a.z, b.z, c.z],
    {
        let mut row0: Vec<Scalar> = Vec::new();
        row0.push(a.x);
        row0.push(b.x);
        row0.push(c.x);
        let mut row1: Vec<Scalar> = Vec::new();
        row1.push(a.y);
        row1.push(b.y);
        row1.push(c.y);
        let mut row2: Vec<Scalar> = Vec::new();
        row2.push(a.z);
        row2.push(b.z);
        row2.push(c.z);
        let mut m: Vec<Vec<Scalar>> = Vec::new();
        m.push(row0);
        m.push(row1);
        m.push(row2);
        proof {
            assert(m@[0]@ =~= seq![a.x, b.x, c.x]);
            assert(m@[1]@ =~= seq![a.y, b.y, c.y]);
            assert(m@[2]@ =~= seq![a.z, b.z, c.z]);
        }
        m
    }

    /// The three components in a list.
    pub fn to_vec(&self) -> (v: Vec<Scalar>)
        ensures
            v@ == seq![self.x, self.y, self.z],
    {
        let mut v: Vec<Scalar> = Vec::new();
        v.push(self.x);
        v.push(self.y);
        v.push(self.z);
        proof {
            assert(v@ =~= seq![self.x, self.y, self.z]);
        }
        v
    }

    /// The vector held in a list of exactly three components; any other length
    /// is refused.
    pub fn try_from(value: &Vec<Scalar>) -> (r: Result<Vec3, ()>)
        ensures
            value@.len() != 3 <==> r is Err,
            r matches Ok(v) ==> v == (Vec3 { x: value@[0], y: value@[1], z: value@[2] }),
    {
        if value.len() != 3 {
            return Err(());
        }
        Ok(Vec3 { x: value[0], y: value[1], z: value[2] })
    }
}

impl Default for Vec3 {
    /// The zero vector.
    fn default() -> (r: Vec3)
        ensures
            r.x@ == 0,
            r.y@ == 0,
            r.z@ == 0,
    {
        Vec3 { x: Scalar::zero(), y: Scalar::zero(), z: Scalar::zero() }
    }
}

/// A right-handed frame of three unit vectors, `w` being the normal that it was
/// built round.
#[derive(Clone, Copy, Debug, PartialEq, Eq, Structural)]
pub struct Onb {
    pub u: Vec3,
    pub v: Vec3,
    pub w: Vec3,
}

impl Onb {
    /// The axis to cross a unit normal `w` with when building a frame round it:
    /// the world's up axis y, unless `w` is nearly parallel to it (its y
    /// component beyond 0.9 either way), in which case the cross product would
    /// vanish and the x axis is taken.
    pub fn helper_axis(w: &Vec3) -> (a: Vec3)
        ensures
            a.x@ == if abs_rank(w.y@) > PARALLEL_RANK { crate::scalar::ONE_RANK as int } else { 0 },
            a.y@ == if abs_rank(w.y@) > PARALLEL_RANK { 0 } else { crate::scalar::ONE_RANK as int },
            a.z@ == 0,
    {
        if w.y.abs().gt(Scalar::from_rank(PARALLEL_RANK)) {
            Vec3 { x: Scalar::one(), y: Scalar::zero(), z: Scalar::zero() }
        } else {
            Vec3 { x: Scalar::zero(), y: Scalar::one(), z: Scalar::zero() }
        }
    }

    /// The frame of three given vectors.
    pub fn new(u: Vec3, v: Vec3, w: Vec3) -> (r: Onb)
        ensures
            r == (Onb { u, v, w }),
    {
        Onb { u, v, w }
    }
}

} // verus!
