//! The growable vertex/index accumulator for one pass.

use vstd::prelude::*;

use crate::draw::Color;
use crate::transform::Point;

verus! {

/// A mesh vertex: a position and a flat color.
#[derive(Clone, Copy, Debug, PartialEq, Eq, Structural)]
pub struct Vertex {
    pub position: Point,
    pub color: Color,
}

/// The mathematical content of a geometry buffer: vertices plus triangle
/// indices, the indices widened to unbounded integers.
pub ghost struct Mesh {
    pub verts: Seq<Vertex>,
    pub idx: Seq<int>,
}

/// Indices come in triples and each refers to an existing vertex.
pub open spec fn mesh_wf(m: Mesh) -> bool {
    m.idx.len() % 3 == 0 && (forall|i: int|
        0 <= i < m.idx.len() ==> 0 <= #[trigger] m.idx[i] < m.verts.len())
}

/// Append a block of vertices and of block-relative indices to a mesh.
pub open spec fn mesh_add(m: Mesh, bvs: Seq<Vertex>, bix: Seq<int>) -> Mesh {
    Mesh {
        verts: m.verts + bvs,
        idx: m.idx + bix.map_values(|j: int| j + m.verts.len()),
    }
}

/// Appending a well-formed block preserves mesh well-formedness.
pub proof fn lemma_mesh_add_wf(m: Mesh, bvs: Seq<Vertex>, bix: Seq<int>)
    requires
        mesh_wf(m),
        bix.len() % 3 == 0,
        forall|i: int| 0 <= i < bix.len() ==> 0 <= #[trigger] bix[i] < bvs.len(),
    ensures
        mesh_wf(mesh_add(m, bvs, bix)),
        mesh_add(m, bvs, bix).verts.len() == m.verts.len() + bvs.len(),
        mesh_add(m, bvs, bix).idx.len() == m.idx.len() + bix.len(),
{
    let r = mesh_add(m, bvs, bix);
    assert forall|i: int| 0 <= i < r.idx.len() implies 0 <= #[trigger] r.idx[i]
        < r.verts.len() by {
        if i < m.idx.len() {
            assert(r.idx[i] == m.idx[i]);
        } else {
            assert(r.idx[i] == bix[i - m.idx.len()] + m.verts.len());
        }
    }
}

/// Tessellated triangle geometry accumulated over one pass.
#[derive(Clone, Debug)]
pub struct Geometry {
    pub vertices: Vec<Vertex>,
    pub indices: Vec<u32>,
}

impl View for Geometry {
    type V = Mesh;

    open spec fn view(&self) -> Mesh {
        Mesh {
            verts: self.vertices@,
            idx: self.indices@.map_values(|v: u32| v as int),
        }
    }
}

impl Geometry {
    /// The buffer invariant: triangles are whole, indices in range, and the
    /// vertex count small enough that an index always fits its encoding.
    pub open spec fn wf(self) -> bool {
        mesh_wf(self@) && self.vertices@.len() <= 0xFFFF_FFFF
    }

    /// Create empty geometry.
    #[must_use]
    pub fn new() -> (g: Geometry)
        ensures
            g@.verts.len() == 0,
            g@.idx.len() == 0,
            g.wf(),
    {
        Geometry { vertices: Vec::new(), indices: Vec::new() }
    }

    /// Clear all vertices and indices.
    pub fn clear(&mut self)
        ensures
            final(self)@.verts == Seq::<Vertex>::empty(),
            final(self)@.idx == Seq::<int>::empty(),
            final(self).wf(),
    {
        self.vertices.clear();
        self.indices.clear();
        proof {
            assert(self@.idx =~= Seq::<int>::empty());
            assert(self@.verts =~= Seq::<Vertex>::empty());
        }
    }

    /// Append one vertex.
    pub(crate) fn push_vertex(&mut self, v: Vertex)
        requires
            old(self).vertices@.len() < 0xFFFF_FFFF,
        ensures
            final(self)@.verts == old(self)@.verts.push(v),
            final(self)@.idx == old(self)@.idx,
            final(self).vertices@.len() == old(self).vertices@.len() + 1,
            final(self).indices@ == old(self).indices@,
    {
        self.vertices.push(v);
    }

    /// Append one index, given as a vertex position already in range.
    pub(crate) fn push_index(&mut self, i: u32)
        ensures
            final(self)@.idx == old(self)@.idx.push(i as int),
            final(self)@.verts == old(self)@.verts,
            final(self).vertices@ == old(self).vertices@,
    {
        self.indices.push(i);
        proof {
            assert(self@.idx =~= old(self)@.idx.push(i as int));
        }
    }
}

/// The capacity a growable GPU-side buffer is resized to: the least power of
/// two that holds `required` items.
pub fn next_capacity(required: usize) -> (r: usize)
    requires
        required <= usize::MAX / 2 + 1,
    ensures
        required <= r,
        exists|k: nat| r == vstd::arithmetic::power2::pow2(k),
        r == 1 || r / 2 < required,
{
    let mut c: usize = 1;
    let ghost mut k: nat = 0;
    proof {
        vstd::arithmetic::power2::lemma2_to64();
    }
    while c < required
        invariant
            c == vstd::arithmetic::power2::pow2(k),
            1 <= c,
            required <= usize::MAX / 2 + 1,
            c == 1 || c / 2 < required,
        decreases usize::MAX - c,
    {
        proof {
            k = k + 1;
            vstd::arithmetic::power2::lemma_pow2_unfold(k);
        }
        c = c * 2;
    }
    c
}

} // verus!
