use vstd::prelude::*;
use crate::point::Point;
use crate::dcel::{Dcel, NIL};

verus! {

impl Dcel {
    /// The alive faces among the first `k`, in index order.
    pub open spec fn alive_faces(&self, k: int) -> Seq<usize>
        decreases k,
    {
        if k <= 0 {
            Seq::empty()
        } else if self.faces@[k - 1].alive {
            self.alive_faces(k - 1).push((k - 1) as usize)
        } else {
            self.alive_faces(k - 1)
        }
    }

    /// Indices of the faces that are alive, ascending. The outer face is not
    /// alive and so is left out.
    pub fn faces(&self) -> (out: Vec<usize>)
        ensures
            out@ == self.alive_faces(self.faces@.len() as int),
    {
        let mut out: Vec<usize> = Vec::new();
        let mut i: usize = 0;
        while i < self.faces.len()
            invariant
                i <= self.faces@.len(),
                out@ == self.alive_faces(i as int),
            decreases self.faces@.len() - i,
        {
            if self.faces[i].alive {
                out.push(i);
            }
            i += 1;
        }
        out
    }

    /// The half-edges met from `cur` on by following `next`, until the walk
    /// would come back to `start`, leaves the arena, or `fuel` steps are made.
    pub open spec fn cycle_from(&self, start: usize, cur: usize, fuel: nat) -> Seq<usize>
        decreases fuel,
    {
        if fuel == 0 || cur as int >= self.halfedges@.len() {
            Seq::empty()
        } else if self.halfedges@[cur as int].next == start {
            seq![cur]
        } else {
            seq![cur] + self.cycle_from(start, self.halfedges@[cur as int].next, (fuel - 1) as nat)
        }
    }

    /// The boundary of face `f` as half-edge indices: the walk along `next`
    /// from the face's representative half-edge, each half-edge once. A face
    /// without a representative has an empty boundary.
    pub open spec fn boundary(&self, f: int) -> Seq<usize> {
        let start = self.faces@[f].outer_component;
        self.cycle_from(start, start, self.halfedges@.len())
    }

    pub fn face_cycle(&self, f: usize) -> (out: Vec<usize>)
        requires
            (f as int) < self.faces@.len(),
        ensures
            out@ == self.boundary(f as int),
    {
        let start: usize = self.faces[f].outer_component;
        let n: usize = self.halfedges.len();
        let mut out: Vec<usize> = Vec::new();
        let mut cur: usize = start;
        let mut fuel: usize = n;
        let mut open: bool = true;
        while open && fuel > 0 && cur < n
            invariant
                n == self.halfedges@.len(),
                open ==> out@ + self.cycle_from(start, cur, fuel as nat) == self.cycle_from(
                    start,
                    start,
                    n as nat,
                ),
                !open ==> out@ == self.cycle_from(start, start, n as nat),
            decreases fuel, open as int,
        {
            let next: usize = self.halfedges[cur].next;
            proof {
                let rest = self.cycle_from(start, cur, fuel as nat);
                if next == start {
                    assert(out@.push(cur) =~= out@ + rest);
                } else {
                    let tail = self.cycle_from(start, next, (fuel - 1) as nat);
                    assert(out@.push(cur) + tail =~= out@ + rest);
                }
            }
            out.push(cur);
            if next == start {
                open = false;
            } else {
                cur = next;
                fuel -= 1;
            }
        }
        proof {
            if open {
                assert(self.cycle_from(start, cur, fuel as nat) =~= Seq::empty());
                assert(out@ + Seq::<usize>::empty() =~= out@);
            }
        }
        out
    }

    /// Coordinates of the resolved origins of the first `k` half-edges of `path`.
    pub open spec fn origins(&self, path: Seq<usize>, k: int) -> Seq<Point>
        decreases k,
    {
        if k <= 0 {
            Seq::empty()
        } else {
            let e = path[k - 1] as int;
            if e < self.halfedges@.len() && (self.halfedges@[e].origin as int)
                < self.vertices@.len() {
                self.origins(path, k - 1).push(
                    self.vertices@[self.halfedges@[e].origin as int].coordinates,
                )
            } else {
                self.origins(path, k - 1)
            }
        }
    }

    /// The corner points of cell `f`: the origins of its boundary half-edges
    /// in boundary order, those still unresolved left out.
    pub open spec fn polygon(&self, f: int) -> Seq<Point> {
        self.origins(self.boundary(f), self.boundary(f).len() as int)
    }

    pub fn cell_polygon(&self, f: usize) -> (out: Vec<Point>)
        requires
            (f as int) < self.faces@.len(),
        ensures
            out@ == self.polygon(f as int),
    {
        let path = self.face_cycle(f);
        let mut out: Vec<Point> = Vec::new();
        let mut i: usize = 0;
        while i < path.len()
            invariant
                i <= path@.len(),
                path@ == self.boundary(f as int),
                out@ == self.origins(path@, i as int),
            decreases path@.len() - i,
        {
            let e: usize = path[i];
            if e < self.halfedges.len() {
                let o: usize = self.halfedges[e].origin;
                if o < self.vertices.len() {
                    out.push(self.vertices[o].coordinates);
                }
            }
            i += 1;
        }
        out
    }

    /// Half-edge `e` stands for a finished segment: it is alive, it is the
    /// one of its pair with the lower index, and both ends are resolved.
    pub open spec fn is_segment(&self, e: int) -> bool {
        let h = self.halfedges@[e];
        let t = h.twin as int;
        &&& h.alive
        &&& e < t < self.halfedges@.len()
        &&& (h.origin as int) < self.vertices@.len()
        &&& (self.halfedges@[t].origin as int) < self.vertices@.len()
    }

    /// The segments among the first `k` half-edges, each by its two ends.
    pub open spec fn segments(&self, k: int) -> Seq<(Point, Point)>
        decreases k,
    {
        if k <= 0 {
            Seq::empty()
        } else if self.is_segment(k - 1) {
            let h = self.halfedges@[k - 1];
            self.segments(k - 1).push(
                (
                    self.vertices@[h.origin as int].coordinates,
                    self.vertices@[self.halfedges@[h.twin as int].origin as int].coordinates,
                ),
            )
        } else {
            self.segments(k - 1)
        }
    }

    /// The undirected segments of the diagram, one per alive twin pair whose
    /// two ends are resolved, in index order.
    pub fn edges(&self) -> (out: Vec<(Point, Point)>)
        ensures
            out@ == self.segments(self.halfedges@.len() as int),
    {
        let mut out: Vec<(Point, Point)> = Vec::new();
        let mut e: usize = 0;
        while e < self.halfedges.len()
            invariant
                e <= self.halfedges@.len(),
                out@ == self.segments(e as int),
            decreases self.halfedges@.len() - e,
        {
            let h = self.halfedges[e];
            if h.alive && e < h.twin && h.twin < self.halfedges.len() && h.origin
                < self.vertices.len() {
                let o: usize = self.halfedges[h.twin].origin;
                if o < self.vertices.len() {
                    out.push((self.vertices[h.origin].coordinates, self.vertices[o].coordinates));
                }
            }
            e += 1;
        }
        out
    }

    /// The alive half-edges among the first `k` whose origin is unresolved.
    pub open spec fn open_ends(&self, k: int) -> Seq<usize>
        decreases k,
    {
        if k <= 0 {
            Seq::empty()
        } else if self.halfedges@[k - 1].alive && self.halfedges@[k - 1].origin == NIL {
            self.open_ends(k - 1).push((k - 1) as usize)
        } else {
            self.open_ends(k - 1)
        }
    }

    /// The half-edges that still lack their origin once the sweep is over:
    /// the ends that clipping has to fix on the bounding square.
    pub fn rays(&self) -> (out: Vec<usize>)
        ensures
            out@ == self.open_ends(self.halfedges@.len() as int),
    {
        let mut out: Vec<usize> = Vec::new();
        let mut e: usize = 0;
        while e < self.halfedges.len()
            invariant
                e <= self.halfedges@.len(),
                out@ == self.open_ends(e as int),
            decreases self.halfedges@.len() - e,
        {
            if self.halfedges[e].alive && self.halfedges[e].origin == NIL {
                out.push(e);
            }
            e += 1;
        }
        out
    }
}

/// The segments of the diagram, each by its two ends.
pub fn make_line_segments(dcel: &Dcel) -> (out: Vec<(Point, Point)>)
    ensures
        out@ == dcel.segments(dcel.halfedges@.len() as int),
{
    dcel.edges()
}

/// The polygon of every face, the outer face included, in face order.
pub fn make_polygons(dcel: &Dcel) -> (out: Vec<Vec<Point>>)
    ensures
        out@.len() == dcel.faces@.len(),
        forall|f: int| 0 <= f < out@.len() ==> (#[trigger] out@[f])@ == dcel.polygon(f),
{
    let mut out: Vec<Vec<Point>> = Vec::new();
    let mut f: usize = 0;
    while f < dcel.faces.len()
        invariant
            f <= dcel.faces@.len(),
            out@.len() == f,
            forall|g: int| 0 <= g < out@.len() ==> (#[trigger] out@[g])@ == dcel.polygon(g),
        decreases dcel.faces@.len() - f,
    {
        out.push(dcel.cell_polygon(f));
        f += 1;
    }
    out
}

} // verus!
