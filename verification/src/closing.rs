use vstd::prelude::*;
use crate::dcel::{Dcel, Face, HalfEdge, Vertex, NIL};
use crate::point::Point;

verus! {

/// The half-edge that follows position `i` when `chain` is read as a cycle.
pub open spec fn successor(chain: Seq<usize>, i: int) -> usize {
    if i + 1 < chain.len() {
        chain[i + 1]
    } else {
        chain[0]
    }
}

/// The half-edges after the first `k` entries of `chain` were put on face `f`
/// and each linked to its successor in the cycle.
pub open spec fn chained(halfedges: Seq<HalfEdge>, chain: Seq<usize>, f: usize, k: int) -> Seq<
    HalfEdge,
>
    decreases k,
{
    if k <= 0 {
        halfedges
    } else {
        let prev = chained(halfedges, chain, f, k - 1);
        let e = chain[k - 1] as int;
        prev.update(e, (HalfEdge { next: successor(chain, k - 1), face: f, ..prev[e] }))
    }
}

/// `chain` can bound a cell: it is not empty, no longer than the arena, and
/// each entry names a half-edge.
pub open spec fn chain_ok(halfedges: Seq<HalfEdge>, chain: Seq<usize>) -> bool {
    &&& 0 < chain.len() <= halfedges.len()
    &&& forall|i: int| 0 <= i < chain.len() ==> (#[trigger] chain[i] as int) < halfedges.len()
}

/// Linking changes `next` and `face` of the chain's half-edges and nothing else.
pub proof fn lemma_chained_frame(halfedges: Seq<HalfEdge>, chain: Seq<usize>, f: usize, k: int)
    requires
        chain_ok(halfedges, chain),
        0 <= k <= chain.len(),
    ensures
        chained(halfedges, chain, f, k).len() == halfedges.len(),
        forall|e: int|
            0 <= e < halfedges.len() ==> {
                let h = #[trigger] chained(halfedges, chain, f, k)[e];
                &&& h.twin == halfedges[e].twin
                &&& h.origin == halfedges[e].origin
                &&& h.alive == halfedges[e].alive
                &&& (h.next == halfedges[e].next || (h.next as int) < halfedges.len())
                &&& (h.face == halfedges[e].face || h.face == f)
            },
    decreases k,
{
    if k > 0 {
        lemma_chained_frame(halfedges, chain, f, k - 1);
        assert((successor(chain, k - 1) as int) < halfedges.len());
    }
}

/// Linking leaves every half-edge outside the chain as it was.
pub proof fn lemma_chained_others(
    halfedges: Seq<HalfEdge>,
    chain: Seq<usize>,
    f: usize,
    k: int,
    e: int,
)
    requires
        chain_ok(halfedges, chain),
        0 <= k <= chain.len(),
        0 <= e < halfedges.len(),
        forall|i: int| 0 <= i < k ==> chain[i] as int != e,
    ensures
        chained(halfedges, chain, f, k)[e] == halfedges[e],
    decreases k,
{
    if k > 0 {
        lemma_chained_others(halfedges, chain, f, k - 1, e);
        lemma_chained_frame(halfedges, chain, f, k - 1);
    }
}

/// Where no half-edge stands twice in `chain`, each of its first `k` entries
/// ends up on face `f`, followed by its successor in the cycle.
pub proof fn lemma_chained_links(halfedges: Seq<HalfEdge>, chain: Seq<usize>, f: usize, k: int)
    requires
        chain_ok(halfedges, chain),
        chain.no_duplicates(),
        0 <= k <= chain.len(),
    ensures
        forall|i: int|
            0 <= i < k ==> {
                let h = chained(halfedges, chain, f, k)[chain[i] as int];
                h.next == #[trigger] successor(chain, i) && h.face == f
            },
    decreases k,
{
    if k > 0 {
        lemma_chained_links(halfedges, chain, f, k - 1);
        lemma_chained_frame(halfedges, chain, f, k - 1);
        assert forall|i: int| 0 <= i < k implies {
            let h = chained(halfedges, chain, f, k)[chain[i] as int];
            h.next == #[trigger] successor(chain, i) && h.face == f
        } by {
            if i < k - 1 {
                assert(chain[i] != chain[k - 1]);
            }
        }
    }
}

impl Dcel {
    /// Half-edge `e` is a ray: alive, with its origin unresolved.
    pub open spec fn is_ray(&self, e: usize) -> bool {
        (e as int) < self.halfedges@.len() && self.halfedges@[e as int].alive
            && self.halfedges@[e as int].origin == NIL
    }

    /// Clips ray `e`: a vertex is made at `p`, the point where the ray meets
    /// the bounding square, and `e` starts there. Returns the vertex, or
    /// `None`, with nothing changed, where `e` is no ray.
    pub fn clip_ray(&mut self, e: usize, p: Point) -> (r: Option<usize>)
        requires
            old(self).well_formed(),
        ensures
            final(self).well_formed(),
            r.is_some() <==> old(self).is_ray(e),
            r.is_none() ==> *final(self) == *old(self),
            r.is_some() ==> {
                &&& r.unwrap() as int == old(self).vertices@.len()
                &&& final(self).vertices@ == old(self).vertices@.push(
                    (Vertex { coordinates: p, incident_edge: e }),
                )
                &&& final(self).halfedges@ == old(self).halfedges@.update(
                    e as int,
                    (HalfEdge { origin: r.unwrap(), ..old(self).halfedges@[e as int] }),
                )
                &&& final(self).faces@ == old(self).faces@
            },
    {
        if e >= self.halfedges.len() || !self.halfedges[e].alive || self.halfedges[e].origin
            != NIL {
            return None;
        }
        let v = self.new_vertex(p);
        self.set_origin(e, v);
        self.vertices.set(v, Vertex { coordinates: p, incident_edge: e });
        proof {
            assert(self.vertices@ =~= old(self).vertices@.push(
                (Vertex { coordinates: p, incident_edge: e }),
            ));
        }
        Some(v)
    }

    /// Makes `chain` the boundary of face `f`: each of its half-edges is put
    /// on `f` and linked to the one behind it, the last to the first, and the
    /// first becomes the face's representative. Returns `false`, with nothing
    /// changed, where `chain` cannot bound a cell.
    pub fn close_cell(&mut self, f: usize, chain: &Vec<usize>) -> (done: bool)
        requires
            old(self).well_formed(),
            (f as int) < old(self).faces@.len(),
        ensures
            final(self).well_formed(),
            done == chain_ok(old(self).halfedges@, chain@),
            !done ==> *final(self) == *old(self),
            done ==> {
                &&& final(self).vertices@ == old(self).vertices@
                &&& final(self).halfedges@ == chained(
                    old(self).halfedges@,
                    chain@,
                    f,
                    chain@.len() as int,
                )
                &&& final(self).faces@ == old(self).faces@.update(
                    f as int,
                    (Face { outer_component: chain@[0], ..old(self).faces@[f as int] }),
                )
            },
    {
        let n: usize = chain.len();
        if n == 0 || n > self.halfedges.len() {
            return false;
        }
        let mut i: usize = 0;
        while i < n
            invariant
                n == chain@.len(),
                i <= n,
                *self == *old(self),
                self.well_formed(),
                forall|j: int| 0 <= j < i ==> (#[trigger] chain@[j] as int) < self.halfedges@.len(),
            decreases n - i,
        {
            if chain[i] >= self.halfedges.len() {
                return false;
            }
            i += 1;
        }
        i = 0;
        while i < n
            invariant
                n == chain@.len(),
                i <= n,
                chain_ok(old(self).halfedges@, chain@),
                self.well_formed(),
                (f as int) < self.faces@.len(),
                self.vertices@ == old(self).vertices@,
                self.faces@ == old(self).faces@,
                self.halfedges@ == chained(old(self).halfedges@, chain@, f, i as int),
                self.halfedges@.len() == old(self).halfedges@.len(),
            decreases n - i,
        {
            let e: usize = chain[i];
            let next: usize = if i + 1 < n { chain[i + 1] } else { chain[0] };
            let ghost prev = self.halfedges@;
            self.set_next(e, next);
            self.set_face(e, f);
            proof {
                assert(self.halfedges@ =~= prev.update(
                    e as int,
                    (HalfEdge { next, face: f, ..prev[e as int] }),
                ));
            }
            i += 1;
        }
        self.set_outer_component(f, chain[0]);
        true
    }
}

/// A closed cell's boundary is its chain: after `close_cell` has linked a
/// chain in which no half-edge stands twice, the walk along `next` from the
/// face's representative visits exactly the chain, each half-edge once, and
/// comes back to its start; every half-edge of the chain lies on the face,
/// and the half-edges outside the chain are as they were.
pub proof fn lemma_closed_cell_boundary(d: Dcel, before: Seq<HalfEdge>, chain: Seq<usize>, f: usize)
    requires
        chain_ok(before, chain),
        chain.no_duplicates(),
        d.halfedges@ == chained(before, chain, f, chain.len() as int),
        (f as int) < d.faces@.len(),
        d.faces@[f as int].outer_component == chain[0],
    ensures
        d.boundary(f as int) == chain,
        forall|i: int| 0 <= i < chain.len() ==> d.halfedges@[#[trigger] chain[i] as int].face == f,
        forall|i: int|
            0 <= i < chain.len() ==> d.halfedges@[chain[i] as int].next == #[trigger] successor(
                chain,
                i,
            ),
        forall|e: int|
            0 <= e < before.len() && !chain.contains(e as usize) ==> #[trigger] d.halfedges@[e]
                == before[e],
{
    assert forall|e: int|
        0 <= e < before.len() && !chain.contains(e as usize) implies #[trigger] d.halfedges@[e]
        == before[e] by {
        assert forall|i: int| 0 <= i < chain.len() implies chain[i] as int != e by {
            if chain[i] as int == e {
                assert(chain[i] == e as usize);
            }
        }
        lemma_chained_others(before, chain, f, chain.len() as int, e);
    }
    lemma_chained_links(before, chain, f, chain.len() as int);
    lemma_chained_frame(before, chain, f, chain.len() as int);
    assert forall|i: int| 0 <= i < chain.len() implies d.halfedges@[#[trigger] chain[i] as int].face
        == f by {
        assert(d.halfedges@[chain[i] as int].next == successor(chain, i));
    }
    lemma_walk(d, chain, 0, d.halfedges@.len());
    assert(chain.subrange(0, chain.len() as int) =~= chain);
}

/// On a linked chain without repeats, the walk from position `i` with enough
/// fuel yields the rest of the chain.
proof fn lemma_walk(d: Dcel, chain: Seq<usize>, i: int, fuel: nat)
    requires
        0 <= i < chain.len(),
        fuel >= chain.len() - i,
        chain.no_duplicates(),
        forall|j: int| 0 <= j < chain.len() ==> (#[trigger] chain[j] as int) < d.halfedges@.len(),
        forall|j: int|
            0 <= j < chain.len() ==> d.halfedges@[chain[j] as int].next == #[trigger] successor(
                chain,
                j,
            ),
    ensures
        d.cycle_from(chain[0], chain[i], fuel) == chain.subrange(i, chain.len() as int),
    decreases chain.len() - i,
{
    let n = chain.len() as int;
    assert(d.halfedges@[chain[i] as int].next == successor(chain, i));
    if i + 1 < n {
        assert(chain[i + 1] != chain[0]);
        lemma_walk(d, chain, i + 1, (fuel - 1) as nat);
        assert(seq![chain[i]] + chain.subrange(i + 1, n) =~= chain.subrange(i, n));
    } else {
        assert(seq![chain[i]] =~= chain.subrange(i, n));
    }
}

/// The corners of the square of side `size`, counter-clockwise from the origin.
pub open spec fn square(size: i64) -> Seq<Point> {
    seq![
        (Point { x: 0, y: 0 }),
        (Point { x: size, y: 0 }),
        (Point { x: size, y: size }),
        (Point { x: 0, y: size }),
    ]
}

/// The four corner vertices, none with an incident edge noted.
pub open spec fn square_vertices(size: i64) -> Seq<Vertex> {
    Seq::new(4, |i: int| (Vertex { coordinates: square(size)[i], incident_edge: NIL }))
}

/// The eight half-edges of a square whose corners are vertices `v` to
/// `v + 3`, appended to an arena of `n` half-edges. Side `i` is the pair
/// `(n + 2i, n + 2i + 1)`: the first runs from corner `i` to the next one
/// around `cell`, its twin runs back around `outer`.
pub open spec fn square_edges(n: int, v: int, cell: usize, outer: usize) -> Seq<HalfEdge> {
    seq![
        side(v, n + 1, n + 2, cell),
        side(v + 1, n, n + 7, outer),
        side(v + 1, n + 3, n + 4, cell),
        side(v + 2, n + 2, n + 1, outer),
        side(v + 2, n + 5, n + 6, cell),
        side(v + 3, n + 4, n + 3, outer),
        side(v + 3, n + 7, n, cell),
        side(v, n + 6, n + 5, outer),
    ]
}

/// An alive half-edge with every link given.
pub open spec fn side(origin: int, twin: int, next: int, face: usize) -> HalfEdge {
    HalfEdge { origin: origin as usize, twin: twin as usize, next: next as usize, face, alive: true }
}

/// In an edge list that ends in the eight half-edges of a square, with the
/// four corners as its last vertices, the cell inside the square has the
/// four corners as its polygon.
pub proof fn lemma_square_polygon(
    d: Dcel,
    edges_before: Seq<HalfEdge>,
    vertices_before: Seq<Vertex>,
    cell: usize,
    outer: usize,
    size: i64,
)
    requires
        edges_before.len() + 8 <= usize::MAX,
        vertices_before.len() + 4 <= usize::MAX,
        d.halfedges@ == edges_before + square_edges(
            edges_before.len() as int,
            vertices_before.len() as int,
            cell,
            outer,
        ),
        d.vertices@ == vertices_before + square_vertices(size),
        (cell as int) < d.faces@.len(),
        d.faces@[cell as int].outer_component as int == edges_before.len(),
    ensures
        d.polygon(cell as int) == square(size),
{
    let n = edges_before.len() as int;
    let v = vertices_before.len() as int;
    let edges = square_edges(n, v, cell, outer);
    let corners = square_vertices(size);
    assert(d.halfedges@[n] == edges[0] && d.halfedges@[n + 2] == edges[2] && d.halfedges@[n + 4]
        == edges[4] && d.halfedges@[n + 6] == edges[6]);
    assert(d.vertices@[v] == corners[0] && d.vertices@[v + 1] == corners[1] && d.vertices@[v + 2]
        == corners[2] && d.vertices@[v + 3] == corners[3]);
    let path = seq![n as usize, (n + 2) as usize, (n + 4) as usize, (n + 6) as usize];
    assert(d.boundary(cell as int) =~= path) by {
        reveal_with_fuel(Dcel::cycle_from, 5);
    }
    assert(d.origins(path, 4) =~= square(size)) by {
        reveal_with_fuel(Dcel::origins, 5);
    }
}

/// The same eight half-edges before they are linked around their faces.
pub open spec fn unlinked_square_edges(n: int, v: int, cell: usize, outer: usize) -> Seq<HalfEdge> {
    Seq::new(8, |k: int| (HalfEdge { next: NIL, ..square_edges(n, v, cell, outer)[k] }))
}

/// The four `next` links that make a ring of `a`, `b`, `c`, `d`.
pub open spec fn ringed(h: Seq<HalfEdge>, a: int, b: int, c: int, d: int) -> Seq<HalfEdge> {
    h.update(a, (HalfEdge { next: b as usize, ..h[a] })).update(
        b,
        (HalfEdge { next: c as usize, ..h[b] }),
    ).update(c, (HalfEdge { next: d as usize, ..h[c] })).update(
        d,
        (HalfEdge { next: a as usize, ..h[d] }),
    )
}

/// Ringing the inner and the outer half-edges of the unlinked square gives
/// the linked square.
proof fn lemma_square_rings(base: Seq<HalfEdge>, v: int, cell: usize, outer: usize)
    requires
        base.len() + 8 <= usize::MAX,
    ensures
        ({
            let n = base.len() as int;
            ringed(
                ringed(base + unlinked_square_edges(n, v, cell, outer), n, n + 2, n + 4, n + 6),
                n + 7,
                n + 5,
                n + 3,
                n + 1,
            ) == base + square_edges(n, v, cell, outer)
        }),
{
    let n = base.len() as int;
    let open = unlinked_square_edges(n, v, cell, outer);
    let edges = square_edges(n, v, cell, outer);
    let sides = base + open;
    let fin = ringed(ringed(sides, n, n + 2, n + 4, n + 6), n + 7, n + 5, n + 3, n + 1);
    assert(sides[n] == open[0] && sides[n + 1] == open[1] && sides[n + 2] == open[2] && sides[n
        + 3] == open[3]);
    assert(sides[n + 4] == open[4] && sides[n + 5] == open[5] && sides[n + 6] == open[6]
        && sides[n + 7] == open[7]);
    assert(fin[n] == edges[0]);
    assert(fin[n + 1] == edges[1]);
    assert(fin[n + 2] == edges[2]);
    assert(fin[n + 3] == edges[3]);
    assert(fin[n + 4] == edges[4]);
    assert(fin[n + 5] == edges[5]);
    assert(fin[n + 6] == edges[6]);
    assert(fin[n + 7] == edges[7]);
    assert(fin =~= base + edges);
}

impl Dcel {
    fn add_square_sides(&mut self, cell: usize, outer: usize, size: i64) -> (first: usize)
        requires
            old(self).well_formed(),
            (cell as int) < old(self).faces@.len(),
            (outer as int) < old(self).faces@.len(),
        ensures
            final(self).well_formed(),
            first as int == old(self).halfedges@.len(),
            old(self).halfedges@.len() + 8 <= usize::MAX,
            final(self).vertices@ == old(self).vertices@ + square_vertices(size),
            final(self).halfedges@ == old(self).halfedges@ + unlinked_square_edges(
                old(self).halfedges@.len() as int,
                old(self).vertices@.len() as int,
                cell,
                outer,
            ),
            final(self).faces@ == old(self).faces@,
    {
        let ghost n = self.halfedges@.len() as int;
        let ghost v = self.vertices@.len() as int;
        let v0 = self.new_vertex(Point { x: 0, y: 0 });
        let v1 = self.new_vertex(Point { x: size, y: 0 });
        let v2 = self.new_vertex(Point { x: size, y: size });
        let v3 = self.new_vertex(Point { x: 0, y: size });
        assert(self.vertices@ =~= old(self).vertices@ + square_vertices(size));
        let (a0, b0) = self.new_edge_from(cell, outer, v1);
        self.set_origin(a0, v0);
        let (a1, b1) = self.new_edge_from(cell, outer, v2);
        self.set_origin(a1, v1);
        let (a2, b2) = self.new_edge_from(cell, outer, v3);
        self.set_origin(a2, v2);
        let (a3, b3) = self.new_edge_from(cell, outer, v0);
        self.set_origin(a3, v3);
        proof {
            let edges = unlinked_square_edges(n, v, cell, outer);
            assert(self.halfedges@.len() == n + 8);
            assert(self.halfedges@[n] == edges[0]);
            assert(self.halfedges@[n + 1] == edges[1]);
            assert(self.halfedges@[n + 2] == edges[2]);
            assert(self.halfedges@[n + 3] == edges[3]);
            assert(self.halfedges@[n + 4] == edges[4]);
            assert(self.halfedges@[n + 5] == edges[5]);
            assert(self.halfedges@[n + 6] == edges[6]);
            assert(self.halfedges@[n + 7] == edges[7]);
            assert(self.halfedges@ =~= old(self).halfedges@ + edges);
        }
        a0
    }

    /// Links four half-edges into a cycle: `a`, `b`, `c`, `d` and back to `a`.
    fn link_ring(&mut self, a: usize, b: usize, c: usize, d: usize)
        requires
            old(self).well_formed(),
            (a as int) < old(self).halfedges@.len(),
            (b as int) < old(self).halfedges@.len(),
            (c as int) < old(self).halfedges@.len(),
            (d as int) < old(self).halfedges@.len(),
            a != b && a != c && a != d && b != c && b != d && c != d,
        ensures
            final(self).well_formed(),
            final(self).vertices@ == old(self).vertices@,
            final(self).faces@ == old(self).faces@,
            final(self).halfedges@ == ringed(
                old(self).halfedges@,
                a as int,
                b as int,
                c as int,
                d as int,
            ),
    {
        self.set_next(a, b);
        self.set_next(b, c);
        self.set_next(c, d);
        self.set_next(d, a);
    }

    /// Links the last eight half-edges, the sides of a square, into the
    /// inner ring and the outer ring.
    fn link_square(&mut self, first: usize)
        requires
            old(self).well_formed(),
            first + 8 == old(self).halfedges@.len(),
        ensures
            final(self).well_formed(),
            final(self).vertices@ == old(self).vertices@,
            final(self).faces@ == old(self).faces@,
            final(self).halfedges@ == ringed(
                ringed(old(self).halfedges@, first as int, first + 2, first + 4, first + 6),
                first + 7,
                first + 5,
                first + 3,
                first + 1,
            ),
    {
        assert(first + 8 == self.halfedges.len());
        self.link_ring(first, first + 2, first + 4, first + 6);
        self.link_ring(first + 7, first + 5, first + 3, first + 1);
    }

    /// Bounds face `cell` by the whole square of side `size`, with face
    /// `outer` on the other side of its four edges.
    pub fn close_with_square(&mut self, cell: usize, outer: usize, size: i64)
        requires
            old(self).well_formed(),
            (cell as int) < old(self).faces@.len(),
            (outer as int) < old(self).faces@.len(),
            cell != outer,
        ensures
            final(self).well_formed(),
            final(self).vertices@ == old(self).vertices@ + square_vertices(size),
            final(self).halfedges@ == old(self).halfedges@ + square_edges(
                old(self).halfedges@.len() as int,
                old(self).vertices@.len() as int,
                cell,
                outer,
            ),
            final(self).faces@ == old(self).faces@.update(
                outer as int,
                (Face {
                    outer_component: (old(self).halfedges@.len() + 7) as usize,
                    ..old(self).faces@[outer as int]
                }),
            ).update(
                cell as int,
                (Face {
                    outer_component: old(self).halfedges@.len() as usize,
                    ..old(self).faces@[cell as int]
                }),
            ),
            final(self).polygon(cell as int) == square(size),
    {
        let ghost n = self.halfedges@.len() as int;
        let ghost v = self.vertices@.len() as int;
        let a0: usize = self.add_square_sides(cell, outer, size);
        self.link_square(a0);
        self.set_outer_component(outer, a0 + 7);
        self.set_outer_component(cell, a0);
        proof {
            lemma_square_rings(old(self).halfedges@, v, cell, outer);
            assert(self.vertices@.len() == self.vertices.len());
            lemma_square_polygon(
                *self,
                old(self).halfedges@,
                old(self).vertices@,
                cell,
                outer,
                size,
            );
        }
    }
}

/// The half-edges of the first `k` pieces of a boundary laid along the
/// vertices of `ring`, appended to an arena of `n` half-edges. Piece `i` runs
/// from `ring[i]` to the next vertex of the ring, with cell `cells[i]` on its
/// inner side; its twin runs back on face `outer`.
pub open spec fn boundary_edges(
    n: int,
    ring: Seq<usize>,
    cells: Seq<usize>,
    outer: usize,
    k: int,
) -> Seq<HalfEdge>
    decreases k,
{
    if k <= 0 {
        Seq::empty()
    } else {
        boundary_edges(n, ring, cells, outer, k - 1) + seq![
            side(ring[k - 1] as int, n + 2 * k - 1, NIL as int, cells[k - 1]),
            side(successor(ring, k - 1) as int, n + 2 * k - 2, NIL as int, outer),
        ]
    }
}

impl Dcel {
    /// A boundary can be laid: `ring` is not empty, names vertices only, and
    /// `cells` names one face for each of its pieces.
    pub open spec fn ring_ok(&self, ring: Seq<usize>, cells: Seq<usize>) -> bool {
        &&& 0 < ring.len() == cells.len()
        &&& forall|i: int| 0 <= i < ring.len() ==> (#[trigger] ring[i] as int) < self.vertices@.len()
        &&& forall|i: int| 0 <= i < cells.len() ==> (#[trigger] cells[i] as int) < self.faces@.len()
    }

    /// Lays the boundary of the bounding square: `ring` lists the vertices on
    /// it in order around the square, and piece `i`, from `ring[i]` to the
    /// next vertex, gets a twin pair between cell `cells[i]` and face `outer`.
    /// Returns `false`, with nothing changed, where no boundary can be laid.
    pub fn lay_boundary(&mut self, ring: &Vec<usize>, cells: &Vec<usize>, outer: usize) -> (done:
        bool)
        requires
            old(self).well_formed(),
            (outer as int) < old(self).faces@.len(),
        ensures
            final(self).well_formed(),
            done == old(self).ring_ok(ring@, cells@),
            !done ==> *final(self) == *old(self),
            done ==> {
                &&& final(self).vertices@ == old(self).vertices@
                &&& final(self).faces@ == old(self).faces@
                &&& final(self).halfedges@ == old(self).halfedges@ + boundary_edges(
                    old(self).halfedges@.len() as int,
                    ring@,
                    cells@,
                    outer,
                    ring@.len() as int,
                )
            },
    {
        let n: usize = ring.len();
        if n == 0 || cells.len() != n {
            return false;
        }
        let mut i: usize = 0;
        while i < n
            invariant
                n == ring@.len(),
                n == cells@.len(),
                i <= n,
                *self == *old(self),
                self.well_formed(),
                forall|j: int| 0 <= j < i ==> (#[trigger] ring@[j] as int) < self.vertices@.len(),
                forall|j: int| 0 <= j < i ==> (#[trigger] cells@[j] as int) < self.faces@.len(),
            decreases n - i,
        {
            if ring[i] >= self.vertices.len() || cells[i] >= self.faces.len() {
                return false;
            }
            i += 1;
        }
        i = 0;
        while i < n
            invariant
                n == ring@.len(),
                n == cells@.len(),
                i <= n,
                old(self).ring_ok(ring@, cells@),
                self.well_formed(),
                (outer as int) < self.faces@.len(),
                self.vertices@ == old(self).vertices@,
                self.faces@ == old(self).faces@,
                self.halfedges@ == old(self).halfedges@ + boundary_edges(
                    old(self).halfedges@.len() as int,
                    ring@,
                    cells@,
                    outer,
                    i as int,
                ),
                self.halfedges@.len() == old(self).halfedges@.len() + 2 * i,
            decreases n - i,
        {
            let to: usize = if i + 1 < n { ring[i + 1] } else { ring[0] };
            let ghost before = self.halfedges@;
            let (a, b) = self.new_edge_from(cells[i], outer, to);
            self.set_origin(a, ring[i]);
            proof {
                let base = old(self).halfedges@.len() as int;
                assert(self.halfedges@ =~= before + seq![
                    side(ring@[i as int] as int, base + 2 * (i + 1) - 1, NIL as int, cells@[i as int]),
                    side(successor(ring@, i as int) as int, base + 2 * (i + 1) - 2, NIL as int, outer),
                ]);
                assert(self.halfedges@ =~= old(self).halfedges@ + boundary_edges(
                    base,
                    ring@,
                    cells@,
                    outer,
                    i + 1,
                ));
            }
            i += 1;
        }
        true
    }
}

} // verus!
