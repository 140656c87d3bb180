use vstd::prelude::*;
use crate::dcel::{Dcel, HalfEdge, NIL};

verus! {

/// Half-edge `h` can follow half-edge `e` around a face: both are alive and
/// on one face, and `h` starts at the vertex where `e` ends.
pub open spec fn follows(halfedges: Seq<HalfEdge>, e: int, h: int) -> bool {
    let end = halfedges[halfedges[e].twin as int].origin;
    &&& halfedges[e].alive
    &&& halfedges[h].alive
    &&& end != NIL
    &&& halfedges[h].origin == end
    &&& halfedges[h].face == halfedges[e].face
    &&& h != halfedges[e].twin as int
}

/// The first half-edge from index `from` on that can follow `e`; the number
/// of half-edges where there is none.
pub open spec fn follower(halfedges: Seq<HalfEdge>, e: int, from: int) -> int
    decreases halfedges.len() - from,
{
    if from < 0 || from >= halfedges.len() {
        halfedges.len() as int
    } else if follows(halfedges, e, from) {
        from
    } else {
        follower(halfedges, e, from + 1)
    }
}

/// The half-edges with each one linked to its follower; one that has no
/// follower keeps the link it had.
pub open spec fn cycled(halfedges: Seq<HalfEdge>) -> Seq<HalfEdge> {
    Seq::new(
        halfedges.len(),
        |e: int|
            if follower(halfedges, e, 0) < halfedges.len() {
                HalfEdge { next: follower(halfedges, e, 0) as usize, ..halfedges[e] }
            } else {
                halfedges[e]
            },
    )
}

/// Who follows whom does not depend on the `next` links.
pub proof fn lemma_follower_frame(a: Seq<HalfEdge>, b: Seq<HalfEdge>, e: int, from: int)
    requires
        a.len() == b.len(),
        0 <= e < a.len(),
        0 <= from,
        forall|k: int|
            0 <= k < a.len() ==> {
                &&& (#[trigger] a[k]).origin == b[k].origin
                &&& a[k].twin == b[k].twin
                &&& a[k].face == b[k].face
                &&& a[k].alive == b[k].alive
                &&& (a[k].twin as int) < a.len()
            },
    ensures
        follower(a, e, from) == follower(b, e, from),
    decreases a.len() - from,
{
    if from < a.len() {
        assert(follows(a, e, from) == follows(b, e, from));
        lemma_follower_frame(a, b, e, from + 1);
    }
}

impl Dcel {
    /// The first half-edge that can follow `e`, if there is one.
    pub fn find_follower(&self, e: usize) -> (r: Option<usize>)
        requires
            self.well_formed(),
            (e as int) < self.halfedges@.len(),
        ensures
            match r {
                Some(h) => h as int == follower(self.halfedges@, e as int, 0) && (h as int)
                    < self.halfedges@.len(),
                None => follower(self.halfedges@, e as int, 0) == self.halfedges@.len(),
            },
    {
        let twin: usize = self.halfedges[e].twin;
        let end: usize = self.halfedges[twin].origin;
        let mut h: usize = 0;
        while h < self.halfedges.len()
            invariant
                self.well_formed(),
                (e as int) < self.halfedges@.len(),
                twin == self.halfedges@[e as int].twin,
                end == self.halfedges@[twin as int].origin,
                h <= self.halfedges@.len(),
                follower(self.halfedges@, e as int, h as int) == follower(
                    self.halfedges@,
                    e as int,
                    0,
                ),
            decreases self.halfedges@.len() - h,
        {
            let c = self.halfedges[h];
            if self.halfedges[e].alive && c.alive && end != NIL && c.origin == end && c.face
                == self.halfedges[e].face && h != twin {
                return Some(h);
            }
            h += 1;
        }
        None
    }

    /// Links every half-edge to its follower, so that the half-edges of a
    /// cell whose corners are all resolved form its boundary cycle.
    pub fn link_cycles(&mut self)
        requires
            old(self).well_formed(),
        ensures
            final(self).well_formed(),
            final(self).halfedges@ == cycled(old(self).halfedges@),
            final(self).vertices@ == old(self).vertices@,
            final(self).faces@ == old(self).faces@,
    {
        let n: usize = self.halfedges.len();
        let mut e: usize = 0;
        while e < n
            invariant
                self.well_formed(),
                old(self).well_formed(),
                n == self.halfedges@.len(),
                n == old(self).halfedges@.len(),
                e <= n,
                self.vertices@ == old(self).vertices@,
                self.faces@ == old(self).faces@,
                forall|k: int|
                    0 <= k < e ==> #[trigger] self.halfedges@[k] == cycled(old(self).halfedges@)[k],
                forall|k: int| e <= k < n ==> #[trigger] self.halfedges@[k] == old(self).halfedges@[k],
            decreases n - e,
        {
            proof {
                lemma_follower_frame(self.halfedges@, old(self).halfedges@, e as int, 0);
            }
            if let Some(h) = self.find_follower(e) {
                self.set_next(e, h);
            }
            e += 1;
        }
        proof {
            assert(self.halfedges@ =~= cycled(old(self).halfedges@));
        }
    }

    /// The first alive half-edge from index `from` on that lies on face `f`;
    /// the number of half-edges where there is none.
    pub open spec fn first_on_face(&self, f: usize, from: int) -> int
        decreases self.halfedges@.len() - from,
    {
        if from < 0 || from >= self.halfedges@.len() {
            self.halfedges@.len() as int
        } else if self.halfedges@[from].alive && self.halfedges@[from].face == f {
            from
        } else {
            self.first_on_face(f, from + 1)
        }
    }

    /// The first alive half-edge on the boundary of face `f`, if the face has
    /// one: the half-edge to name as the face's representative.
    pub fn first_edge_of(&self, f: usize) -> (r: Option<usize>)
        ensures
            match r {
                Some(e) => e as int == self.first_on_face(f, 0) && (e as int)
                    < self.halfedges@.len(),
                None => self.first_on_face(f, 0) == self.halfedges@.len(),
            },
    {
        let mut e: usize = 0;
        while e < self.halfedges.len()
            invariant
                e <= self.halfedges@.len(),
                self.first_on_face(f, e as int) == self.first_on_face(f, 0),
            decreases self.halfedges@.len() - e,
        {
            if self.halfedges[e].alive && self.halfedges[e].face == f {
                return Some(e);
            }
            e += 1;
        }
        None
    }
}

} // verus!
