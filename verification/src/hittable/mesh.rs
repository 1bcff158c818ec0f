//! Meshes read from outside: which polygons can become triangles.
use vstd::prelude::*;

verus! {

/// Why a mesh cannot be taken.
#[derive(Clone, Copy, Debug, PartialEq, Eq, Structural)]
pub enum MeshError {
    /// The polygon at this place has some other number of corners than three.
    NotTriangle { polygon: usize },
    /// The polygon at this place names a vertex that the mesh does not have.
    MissingVertex { polygon: usize },
}

/// The corners of a triangle, as places in the mesh's list of vertices.
#[derive(Clone, Copy, Debug, PartialEq, Eq, Structural)]
pub struct Corners {
    pub first: usize,
    pub second: usize,
    pub third: usize,
}

/// What is wrong with one polygon, if anything.
pub open spec fn fault_of(poly: Seq<usize>, at: usize, vertex_count: usize) -> Option<MeshError> {
    if poly.len() != 3 {
        Some(MeshError::NotTriangle { polygon: at })
    } else if poly[0] >= vertex_count || poly[1] >= vertex_count || poly[2] >= vertex_count {
        Some(MeshError::MissingVertex { polygon: at })
    } else {
        None
    }
}

/// The triangles of a mesh whose polygons each list the places of their
/// corners among `vertex_count` vertices. The first polygon that is no
/// triangle, or that names a vertex beyond the list, is an error: no polygon
/// is passed over.
pub fn triangles(polys: &Vec<Vec<usize>>, vertex_count: usize) -> (r: Result<
    Vec<Corners>,
    MeshError,
>)
    ensures
        match r {
            Ok(list) => {
                &&& list@.len() == polys@.len()
                &&& forall|i: int|
                    0 <= i < polys@.len() ==> fault_of(
                        (#[trigger] polys@[i])@,
                        i as usize,
                        vertex_count,
                    ) is None
                &&& forall|i: int|
                    0 <= i < polys@.len() ==> #[trigger] list@[i] == (Corners {
                        first: polys@[i]@[0],
                        second: polys@[i]@[1],
                        third: polys@[i]@[2],
                    })
            },
            Err(e) => exists|i: int|
                {
                    &&& 0 <= i < polys@.len()
                    &&& fault_of((#[trigger] polys@[i])@, i as usize, vertex_count) == Some(e)
                    &&& forall|k: int|
                        0 <= k < i ==> fault_of((#[trigger] polys@[k])@, k as usize, vertex_count)
                            is None
                },
        },
{
    let mut list: Vec<Corners> = Vec::new();
    let mut i: usize = 0;
    while i < polys.len()
        invariant
            i <= polys@.len(),
            list@.len() == i,
            forall|k: int|
                0 <= k < i ==> fault_of((#[trigger] polys@[k])@, k as usize, vertex_count) is None,
            forall|k: int|
                0 <= k < i ==> #[trigger] list@[k] == (Corners {
                    first: polys@[k]@[0],
                    second: polys@[k]@[1],
                    third: polys@[k]@[2],
                }),
        decreases polys@.len() - i,
    {
        let poly = &polys[i];
        if poly.len() != 3 {
            return Err(MeshError::NotTriangle { polygon: i });
        }
        if poly[0] >= vertex_count || poly[1] >= vertex_count || poly[2] >= vertex_count {
            return Err(MeshError::MissingVertex { polygon: i });
        }
        list.push(Corners { first: poly[0], second: poly[1], third: poly[2] });
        i += 1;
    }
    Ok(list)
}

} // verus!
