use vstd::prelude::*;
use crate::point::Point;

verus! {

/// The reserved index that stands for "absent". No arena ever holds an item at it.
pub const NIL: usize = usize::MAX;

#[derive(Clone, Copy, Debug, PartialEq, Eq, Structural)]
pub struct Vertex {
    pub coordinates: Point,
    pub incident_edge: usize,
}

#[derive(Clone, Copy, Debug, PartialEq, Eq, Structural)]
pub struct HalfEdge {
    pub origin: usize,
    pub twin: usize,
    pub next: usize,
    pub face: usize,
    pub alive: bool,
}

#[derive(Clone, Copy, Debug, PartialEq, Eq, Structural)]
pub struct Face {
    /// Index of the input site whose cell this is; `NIL` for the outer face.
    pub site: usize,
    pub outer_component: usize,
    pub alive: bool,
}

/// Doubly-connected edge list: three append-only arenas linked by indices.
#[derive(Debug)]
pub struct Dcel {
    pub vertices: Vec<Vertex>,
    pub halfedges: Vec<HalfEdge>,
    pub faces: Vec<Face>,
}

/// `i` is absent or a valid index into an arena of `len` items.
pub open spec fn link_ok(i: usize, len: int) -> bool {
    i == NIL || (i as int) < len
}

impl Dcel {
    /// Every link is `NIL` or in range, and half-edges come in twin pairs
    /// that live and die together.
    pub open spec fn well_formed(&self) -> bool {
        &&& forall|e: int|
            0 <= e < self.halfedges@.len() ==> {
                let h = #[trigger] self.halfedges@[e];
                &&& (h.twin as int) < self.halfedges@.len()
                &&& h.twin as int != e
                &&& self.halfedges@[h.twin as int].twin as int == e
                &&& self.halfedges@[h.twin as int].alive == h.alive
                &&& link_ok(h.origin, self.vertices@.len() as int)
                &&& link_ok(h.next, self.halfedges@.len() as int)
                &&& link_ok(h.face, self.faces@.len() as int)
            }
        &&& forall|v: int|
            0 <= v < self.vertices@.len() ==> link_ok(
                (#[trigger] self.vertices@[v]).incident_edge,
                self.halfedges@.len() as int,
            )
        &&& forall|f: int|
            0 <= f < self.faces@.len() ==> link_ok(
                (#[trigger] self.faces@[f]).outer_component,
                self.halfedges@.len() as int,
            )
    }

    pub fn new() -> (d: Dcel)
        ensures
            d.well_formed(),
            d.vertices@.len() == 0,
            d.halfedges@.len() == 0,
            d.faces@.len() == 0,
    {
        Dcel { vertices: Vec::new(), halfedges: Vec::new(), faces: Vec::new() }
    }

    /// Appends a vertex at `p` with no incident edge yet.
    pub fn new_vertex(&mut self, p: Point) -> (v: usize)
        requires
            old(self).well_formed(),
        ensures
            final(self).well_formed(),
            v as int == old(self).vertices@.len(),
            v != NIL,
            final(self).vertices@ == old(self).vertices@.push(
                (Vertex { coordinates: p, incident_edge: NIL }),
            ),
            final(self).halfedges@ == old(self).halfedges@,
            final(self).faces@ == old(self).faces@,
    {
        self.vertices.push(Vertex { coordinates: p, incident_edge: NIL });
        self.vertices.len() - 1
    }

    /// The pair that `new_edge_pair` appends to an arena of `len` half-edges.
    pub open spec fn fresh_pair(len: int) -> Seq<HalfEdge> {
        seq![
            (HalfEdge { origin: NIL, twin: (len + 1) as usize, next: NIL, face: NIL, alive: true }),
            (HalfEdge { origin: NIL, twin: len as usize, next: NIL, face: NIL, alive: true }),
        ]
    }

    /// Appends two half-edges that are each other's twin, alive, with origin,
    /// next and face unresolved.
    pub fn new_edge_pair(&mut self) -> (pair: (usize, usize))
        requires
            old(self).well_formed(),
        ensures
            final(self).well_formed(),
            pair.0 as int == old(self).halfedges@.len(),
            pair.1 as int == old(self).halfedges@.len() + 1,
            pair.0 != NIL,
            pair.1 != NIL,
            final(self).halfedges@ == old(self).halfedges@ + Self::fresh_pair(
                old(self).halfedges@.len() as int,
            ),
            final(self).vertices@ == old(self).vertices@,
            final(self).faces@ == old(self).faces@,
    {
        let a: usize = self.halfedges.len();
        self.halfedges.push(HalfEdge { origin: NIL, twin: NIL, next: NIL, face: NIL, alive: true });
        let b: usize = self.halfedges.len();
        self.halfedges.push(HalfEdge { origin: NIL, twin: a, next: NIL, face: NIL, alive: true });
        assert(self.halfedges.len() == b + 1);
        self.halfedges.set(a, HalfEdge { origin: NIL, twin: b, next: NIL, face: NIL, alive: true });
        proof {
            assert(final(self).halfedges@ =~= old(self).halfedges@ + Self::fresh_pair(
                old(self).halfedges@.len() as int,
            ));
        }
        (a, b)
    }

    /// Appends the face of input site `site`, alive and without boundary yet.
    pub fn attach_face(&mut self, site: usize) -> (f: usize)
        requires
            old(self).well_formed(),
        ensures
            final(self).well_formed(),
            f as int == old(self).faces@.len(),
            f != NIL,
            final(self).faces@ == old(self).faces@.push(
                (Face { site, outer_component: NIL, alive: true }),
            ),
            final(self).vertices@ == old(self).vertices@,
            final(self).halfedges@ == old(self).halfedges@,
    {
        self.faces.push(Face { site, outer_component: NIL, alive: true });
        self.faces.len() - 1
    }

    /// Appends the outer, unbounded face. It belongs to no site and is not
    /// alive, so that `faces` passes over it.
    pub fn attach_outer_face(&mut self) -> (f: usize)
        requires
            old(self).well_formed(),
        ensures
            final(self).well_formed(),
            f as int == old(self).faces@.len(),
            f != NIL,
            final(self).faces@ == old(self).faces@.push(
                (Face { site: NIL, outer_component: NIL, alive: false }),
            ),
            final(self).vertices@ == old(self).vertices@,
            final(self).halfedges@ == old(self).halfedges@,
    {
        self.faces.push(Face { site: NIL, outer_component: NIL, alive: false });
        self.faces.len() - 1
    }

    pub fn twin(&self, e: usize) -> (t: usize)
        requires
            self.well_formed(),
            (e as int) < self.halfedges@.len(),
        ensures
            t == self.halfedges@[e as int].twin,
            (t as int) < self.halfedges@.len(),
            t != e,
            self.halfedges@[t as int].twin == e,
    {
        self.halfedges[e].twin
    }

    /// Fixes the start of half-edge `e` at vertex `v`.
    pub fn set_origin(&mut self, e: usize, v: usize)
        requires
            old(self).well_formed(),
            (e as int) < old(self).halfedges@.len(),
            link_ok(v, old(self).vertices@.len() as int),
        ensures
            final(self).well_formed(),
            final(self).halfedges@ == old(self).halfedges@.update(
                e as int,
                (HalfEdge { origin: v, ..old(self).halfedges@[e as int] }),
            ),
            final(self).vertices@ == old(self).vertices@,
            final(self).faces@ == old(self).faces@,
    {
        let h = self.halfedges[e];
        self.halfedges.set(e, HalfEdge { origin: v, ..h });
    }

    /// Makes `n` follow `e` around its face.
    pub fn set_next(&mut self, e: usize, n: usize)
        requires
            old(self).well_formed(),
            (e as int) < old(self).halfedges@.len(),
            link_ok(n, old(self).halfedges@.len() as int),
        ensures
            final(self).well_formed(),
            final(self).halfedges@ == old(self).halfedges@.update(
                e as int,
                (HalfEdge { next: n, ..old(self).halfedges@[e as int] }),
            ),
            final(self).vertices@ == old(self).vertices@,
            final(self).faces@ == old(self).faces@,
    {
        let h = self.halfedges[e];
        self.halfedges.set(e, HalfEdge { next: n, ..h });
    }

    /// Puts half-edge `e` on the boundary of face `f`.
    pub fn set_face(&mut self, e: usize, f: usize)
        requires
            old(self).well_formed(),
            (e as int) < old(self).halfedges@.len(),
            link_ok(f, old(self).faces@.len() as int),
        ensures
            final(self).well_formed(),
            final(self).halfedges@ == old(self).halfedges@.update(
                e as int,
                (HalfEdge { face: f, ..old(self).halfedges@[e as int] }),
            ),
            final(self).vertices@ == old(self).vertices@,
            final(self).faces@ == old(self).faces@,
    {
        let h = self.halfedges[e];
        self.halfedges.set(e, HalfEdge { face: f, ..h });
    }

    /// Names `e` as the representative boundary half-edge of face `f`.
    pub fn set_outer_component(&mut self, f: usize, e: usize)
        requires
            old(self).well_formed(),
            (f as int) < old(self).faces@.len(),
            link_ok(e, old(self).halfedges@.len() as int),
        ensures
            final(self).well_formed(),
            final(self).faces@ == old(self).faces@.update(
                f as int,
                (Face { outer_component: e, ..old(self).faces@[f as int] }),
            ),
            final(self).vertices@ == old(self).vertices@,
            final(self).halfedges@ == old(self).halfedges@,
    {
        let face = self.faces[f];
        self.faces.set(f, Face { outer_component: e, ..face });
    }

    /// Soft-deletes half-edge `e` together with its twin; indices stay stable.
    pub fn kill_edge_pair(&mut self, e: usize)
        requires
            old(self).well_formed(),
            (e as int) < old(self).halfedges@.len(),
        ensures
            final(self).well_formed(),
            final(self).halfedges@ == old(self).halfedges@.update(
                e as int,
                (HalfEdge { alive: false, ..old(self).halfedges@[e as int] }),
            ).update(
                old(self).halfedges@[e as int].twin as int,
                (HalfEdge {
                    alive: false,
                    ..old(self).halfedges@[old(self).halfedges@[e as int].twin as int]
                }),
            ),
            final(self).vertices@ == old(self).vertices@,
            final(self).faces@ == old(self).faces@,
    {
        let h = self.halfedges[e];
        let t: usize = h.twin;
        let ht = self.halfedges[t];
        self.halfedges.set(e, HalfEdge { alive: false, ..h });
        self.halfedges.set(t, HalfEdge { alive: false, ..ht });
    }

    /// A twin pair appended to an arena of `len` half-edges, the first on the
    /// boundary of face `f`, the second on that of face `g`.
    pub open spec fn faced_pair(len: int, f: usize, g: usize) -> Seq<HalfEdge> {
        seq![
            (HalfEdge { origin: NIL, twin: (len + 1) as usize, next: NIL, face: f, alive: true }),
            (HalfEdge { origin: NIL, twin: len as usize, next: NIL, face: g, alive: true }),
        ]
    }

    /// Appends the twin pair that separates faces `f` and `g`, origins unresolved.
    pub fn new_edge_between(&mut self, f: usize, g: usize) -> (pair: (usize, usize))
        requires
            old(self).well_formed(),
            link_ok(f, old(self).faces@.len() as int),
            link_ok(g, old(self).faces@.len() as int),
        ensures
            final(self).well_formed(),
            pair.0 as int == old(self).halfedges@.len(),
            pair.1 as int == old(self).halfedges@.len() + 1,
            pair.0 != NIL,
            pair.1 != NIL,
            final(self).halfedges@ == old(self).halfedges@ + Self::faced_pair(
                old(self).halfedges@.len() as int,
                f,
                g,
            ),
            final(self).vertices@ == old(self).vertices@,
            final(self).faces@ == old(self).faces@,
    {
        let pair = self.new_edge_pair();
        self.set_face(pair.0, f);
        self.set_face(pair.1, g);
        proof {
            assert(final(self).halfedges@ =~= old(self).halfedges@ + Self::faced_pair(
                old(self).halfedges@.len() as int,
                f,
                g,
            ));
        }
        pair
    }

    /// A twin pair appended to an arena of `len` half-edges that leaves
    /// vertex `v` between faces `f` and `g`: the second half-edge starts at
    /// `v`, the origin of the first, at the far end, is unresolved.
    pub open spec fn rooted_pair(len: int, f: usize, g: usize, v: usize) -> Seq<HalfEdge> {
        seq![
            (HalfEdge { origin: NIL, twin: (len + 1) as usize, next: NIL, face: f, alive: true }),
            (HalfEdge { origin: v, twin: len as usize, next: NIL, face: g, alive: true }),
        ]
    }

    /// Appends the twin pair of the edge that leaves vertex `v` between
    /// faces `f` and `g`.
    pub fn new_edge_from(&mut self, f: usize, g: usize, v: usize) -> (pair: (usize, usize))
        requires
            old(self).well_formed(),
            link_ok(f, old(self).faces@.len() as int),
            link_ok(g, old(self).faces@.len() as int),
            link_ok(v, old(self).vertices@.len() as int),
        ensures
            final(self).well_formed(),
            pair.0 as int == old(self).halfedges@.len(),
            pair.1 as int == old(self).halfedges@.len() + 1,
            pair.0 != NIL,
            pair.1 != NIL,
            final(self).halfedges@ == old(self).halfedges@ + Self::rooted_pair(
                old(self).halfedges@.len() as int,
                f,
                g,
                v,
            ),
            final(self).vertices@ == old(self).vertices@,
            final(self).faces@ == old(self).faces@,
    {
        let pair = self.new_edge_between(f, g);
        self.set_origin(pair.1, v);
        proof {
            assert(final(self).halfedges@ =~= old(self).halfedges@ + Self::rooted_pair(
                old(self).halfedges@.len() as int,
                f,
                g,
                v,
            ));
        }
        pair
    }

    /// The half-edges after the trace of `e` ended at `v`: `e` starts there if
    /// its origin was unresolved; an `e` that names no half-edge, or one that
    /// has its origin, changes nothing.
    pub open spec fn resolved(halfedges: Seq<HalfEdge>, e: usize, v: usize) -> Seq<HalfEdge> {
        if (e as int) < halfedges.len() && halfedges[e as int].origin == NIL {
            halfedges.update(e as int, (HalfEdge { origin: v, ..halfedges[e as int] }))
        } else {
            halfedges
        }
    }

    /// Ends the trace of half-edge `e` at vertex `v`.
    pub fn resolve_origin(&mut self, e: usize, v: usize)
        requires
            old(self).well_formed(),
            link_ok(v, old(self).vertices@.len() as int),
        ensures
            final(self).well_formed(),
            final(self).halfedges@ == Self::resolved(old(self).halfedges@, e, v),
            final(self).halfedges@.len() == old(self).halfedges@.len(),
            final(self).vertices@ == old(self).vertices@,
            final(self).faces@ == old(self).faces@,
    {
        if e < self.halfedges.len() && self.halfedges[e].origin == NIL {
            self.set_origin(e, v);
        }
    }
}

} // verus!
