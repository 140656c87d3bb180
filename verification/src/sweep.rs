use vstd::prelude::*;
use crate::point::Point;
use crate::dcel::{Dcel, Face, Vertex, NIL};
use crate::event::{Event, EventQueue};
use crate::beachline::Beachline;

verus! {

#[derive(Clone, Copy, Debug, PartialEq, Eq, Structural)]
pub enum SweepError {
    /// No site, a bounding size that is not positive, or a site outside the
    /// bounding square.
    InvalidInput,
}

/// What a site event did to the beachline.
#[derive(Clone, Copy, Debug, PartialEq, Eq, Structural)]
pub enum SiteOutcome {
    /// The site number or the position was out of range; nothing changed.
    Rejected,
    /// The site became the lone first arc.
    First { arc: usize },
    /// An arc was split; the handles of left copy, new arc and right copy.
    Split { left: usize, arc: usize, right: usize },
}

/// What a circle event that took effect produced: the new vertex, and the
/// two arcs that became neighbours.
#[derive(Clone, Copy, Debug, PartialEq, Eq, Structural)]
pub struct CircleOutcome {
    pub vertex: usize,
    pub left: usize,
    pub right: usize,
}

/// The state of one sweep over a set of sites.
#[derive(Debug)]
pub struct Sweep {
    pub sites: Vec<Point>,
    pub box_size: i64,
    pub queue: EventQueue,
    pub beach: Beachline,
    pub dcel: Dcel,
}

/// The inputs that a sweep refuses: no site, a bounding size that is not
/// positive, or a site that the bounding square does not contain.
pub open spec fn invalid_input(sites: Seq<Point>, box_size: i64) -> bool {
    sites.len() == 0 || box_size <= 0 || exists|i: int|
        0 <= i < sites.len() && !(#[trigger] sites[i]).within(box_size)
}

/// One site event per site, numbered as the sites are.
pub open spec fn site_events(sites: Seq<Point>) -> Seq<Event> {
    Seq::new(sites.len(), |i: int| (Event::Site { site: i as usize, point: sites[i] }))
}

/// One face per site, numbered as the sites are, alive and without boundary.
pub open spec fn site_faces(n: nat) -> Seq<Face> {
    Seq::new(n, |i: int| (Face { site: i as usize, outer_component: NIL, alive: true }))
}

impl Sweep {
    /// The parts are well formed, face `i` is the alive cell of site `i` and
    /// there is no other face yet, every arc belongs to a site, and every
    /// breakpoint traces a half-edge between the faces of its two arcs.
    pub open spec fn well_formed(&self) -> bool {
        &&& self.queue.well_formed()
        &&& self.beach.well_formed()
        &&& self.dcel.well_formed()
        &&& self.dcel.faces@.len() == self.sites@.len()
        &&& forall|i: int|
            0 <= i < self.sites@.len() ==> {
                &&& (#[trigger] self.dcel.faces@[i]).site == i
                &&& self.dcel.faces@[i].alive
            }
        &&& forall|h: int|
            0 <= h < self.beach.arcs@.len() ==> ((#[trigger] self.beach.arcs@[h]).site as int)
                < self.sites@.len()
        &&& forall|i: int| 0 <= i < self.beach.order@.len() ==> #[trigger] self.traced(i)
    }

    /// The breakpoint at the right end of the arc at position `i` traces a
    /// half-edge on the face of the right neighbour's site whose twin lies on
    /// the face of the arc's own site; the last arc has no breakpoint there.
    pub open spec fn traced(&self, i: int) -> bool {
        let arc = self.beach.arcs@[self.beach.order@[i] as int];
        if i + 1 < self.beach.order@.len() {
            let e = arc.right_edge as int;
            &&& e < self.dcel.halfedges@.len()
            &&& self.dcel.halfedges@[e].face
                == self.beach.arcs@[self.beach.order@[i + 1] as int].site
            &&& self.dcel.halfedges@[self.dcel.halfedges@[e].twin as int].face == arc.site
        } else {
            arc.right_edge == NIL
        }
    }

    /// Seeds a sweep: checks the input, queues one site event per site and
    /// attaches one face per site.
    pub fn new(sites: Vec<Point>, box_size: i64) -> (r: Result<Sweep, SweepError>)
        ensures
            r.is_err() <==> invalid_input(sites@, box_size),
            r.is_ok() ==> {
                let s = r.unwrap();
                &&& s.well_formed()
                &&& s.sites@ == sites@
                &&& s.box_size == box_size
                &&& s.queue.events@ == site_events(sites@)
                &&& s.queue.valid@ == Seq::new(sites@.len(), |i: int| true)
                &&& s.queue.pending_ids() == Set::new(|id: usize| (id as int) < sites@.len())
                &&& s.beach.arcs@.len() == 0
                &&& s.beach.order@.len() == 0
                &&& s.dcel.vertices@.len() == 0
                &&& s.dcel.halfedges@.len() == 0
                &&& s.dcel.faces@ == site_faces(sites@.len())
            },
    {
        if sites.len() == 0 || box_size <= 0 {
            return Err(SweepError::InvalidInput);
        }
        let mut queue = EventQueue::new();
        let mut dcel = Dcel::new();
        let mut i: usize = 0;
        while i < sites.len()
            invariant
                i <= sites@.len(),
                queue.well_formed(),
                dcel.well_formed(),
                forall|j: int| 0 <= j < i ==> (#[trigger] sites@[j]).within(box_size),
                queue.events@ == site_events(sites@.take(i as int)),
                queue.valid@ == Seq::new(i as nat, |j: int| true),
                queue.pending_ids() == Set::new(|id: usize| (id as int) < i),
                dcel.vertices@.len() == 0,
                dcel.halfedges@.len() == 0,
                dcel.faces@ == site_faces(i as nat),
            decreases sites@.len() - i,
        {
            let p = sites[i];
            if !p.is_within(box_size) {
                return Err(SweepError::InvalidInput);
            }
            queue.push(Event::Site { site: i, point: p });
            dcel.attach_face(i);
            proof {
                assert(queue.events@ =~= site_events(sites@.take(i + 1)));
                assert(queue.valid@ =~= Seq::new((i + 1) as nat, |j: int| true));
                assert(queue.pending_ids() =~= Set::new(|id: usize| (id as int) < i + 1));
                assert(dcel.faces@ =~= site_faces((i + 1) as nat));
            }
            i += 1;
        }
        proof {
            assert(sites@.take(i as int) =~= sites@);
        }
        Ok(Sweep { sites, box_size, queue, beach: Beachline::new(), dcel })
    }

    /// Takes the next event off the queue: its number, the event and whether
    /// it is still valid. `None` once the queue is drained.
    pub fn next_event(&mut self) -> (r: Option<(usize, Event, bool)>)
        requires
            old(self).well_formed(),
        ensures
            final(self).well_formed(),
            final(self).sites@ == old(self).sites@,
            final(self).box_size == old(self).box_size,
            final(self).beach == old(self).beach,
            final(self).dcel == old(self).dcel,
            final(self).queue.events@ == old(self).queue.events@,
            final(self).queue.valid@ == old(self).queue.valid@,
            r.is_none() <==> old(self).queue.pending@.len() == 0,
            r.is_none() ==> final(self).queue.pending@ == old(self).queue.pending@,
            r.is_some() ==> {
                let id = r.unwrap().0;
                &&& old(self).queue.pending_ids().contains(id)
                &&& forall|j: usize| #[trigger]
                    old(self).queue.pending_ids().contains(j) ==> crate::event::precedes(
                        old(self).queue.events@,
                        id as int,
                        j as int,
                    )
                &&& (id as int) < old(self).queue.events@.len()
                &&& r.unwrap().1 == old(self).queue.events@[id as int]
                &&& r.unwrap().2 == old(self).queue.valid@[id as int]
                &&& final(self).queue.pending_ids() == old(self).queue.pending_ids().remove(id)
            },
    {
        let r = self.queue.pop_min();
        proof {
            assert forall|i: int| 0 <= i < self.beach.order@.len() implies #[trigger] self.traced(
                i,
            ) by {
                assert(old(self).traced(i));
            }
        }
        r
    }

    /// Handles the site event of site `site`, given the position `above` of
    /// the arc that lies over it. On an empty beachline the site becomes the
    /// lone first arc. Otherwise the arc at `above` is split, its circle
    /// event is flagged as stale, and a fresh twin pair is allocated between
    /// the face of `site` and the face of the split arc's site: the left
    /// breakpoint traces the first half-edge, the right one its twin.
    pub fn handle_site(&mut self, site: usize, above: usize) -> (r: SiteOutcome)
        requires
            old(self).well_formed(),
        ensures
            final(self).well_formed(),
            final(self).sites@ == old(self).sites@,
            final(self).box_size == old(self).box_size,
            final(self).dcel.vertices@ == old(self).dcel.vertices@,
            final(self).dcel.faces@ == old(self).dcel.faces@,
            final(self).queue.events@ == old(self).queue.events@,
            final(self).queue.pending@ == old(self).queue.pending@,
            old(self).site_rejected(site, above) ==> r == SiteOutcome::Rejected && *final(self)
                == *old(self),
            !old(self).site_rejected(site, above) && old(self).beach.order@.len() == 0 ==> {
                &&& r == (SiteOutcome::First { arc: old(self).beach.arcs@.len() as usize })
                &&& final(self).beach.arcs@ == old(self).beach.arcs@.push(
                    (crate::beachline::Arc { site, circle: NIL, right_edge: NIL }),
                )
                &&& final(self).beach.order@ == seq![old(self).beach.arcs@.len() as usize]
                &&& final(self).dcel.halfedges@ == old(self).dcel.halfedges@
                &&& final(self).queue.valid@ == old(self).queue.valid@
            },
            !old(self).site_rejected(site, above) && old(self).beach.order@.len() > 0 ==> {
                let split = old(self).beach.order@[above as int];
                let owner = old(self).beach.arcs@[split as int].site;
                let edges = old(self).dcel.halfedges@.len() as int;
                &&& r == (SiteOutcome::Split {
                    left: split,
                    arc: old(self).beach.arcs@.len() as usize,
                    right: (old(self).beach.arcs@.len() + 1) as usize,
                })
                &&& final(self).beach.arcs@ == old(self).beach.split_arcs(
                    above as int,
                    site,
                    edges as usize,
                    (edges + 1) as usize,
                )
                &&& final(self).beach.order@ == old(self).beach.split_order(above as int)
                &&& final(self).dcel.halfedges@ == old(self).dcel.halfedges@ + Dcel::faced_pair(
                    edges,
                    site,
                    owner,
                )
                &&& final(self).queue.valid@ == EventQueue::flagged(
                    old(self).queue.valid@,
                    old(self).beach.arcs@[split as int].circle,
                )
            },
    {
        if site >= self.sites.len() {
            return SiteOutcome::Rejected;
        }
        if self.beach.len() == 0 {
            let arc = self.beach.insert_first(site);
            return SiteOutcome::First { arc };
        }
        if above >= self.beach.len() {
            return SiteOutcome::Rejected;
        }
        let owner: usize = self.beach.arc_at(above).site;
        let pair = self.dcel.new_edge_between(site, owner);
        let (left, arc, right) = self.beach.insert_site(
            &mut self.queue,
            above,
            site,
            pair.0,
            pair.1,
        );
        proof {
            let pos = above as int;
            assert forall|i: int| 0 <= i < self.beach.order@.len() implies #[trigger] self.traced(
                i,
            ) by {
                if i <= pos {
                    assert(old(self).traced(i));
                } else if i >= pos + 2 {
                    assert(old(self).traced(i - 2));
                    assert(old(self).traced(pos));
                }
            }
        }
        SiteOutcome::Split { left, arc, right }
    }

    /// Whether `handle_site` has nothing to do: the site does not exist, or
    /// the beachline has arcs and `above` is none of their positions.
    pub open spec fn site_rejected(&self, site: usize, above: usize) -> bool {
        site as int >= self.sites@.len() || (self.beach.order@.len() > 0 && above as int
            >= self.beach.order@.len())
    }

    /// The sites of the arc to the left of `arc`, of `arc` itself and of the
    /// arc to its right, where `arc` stands on the beachline between two
    /// neighbours: the triple whose circle decides when `arc` vanishes.
    pub fn triple_of(&self, arc: usize) -> (r: Option<(usize, usize, usize)>)
        requires
            self.well_formed(),
        ensures
            r.is_some() <==> self.squeezes(arc, true),
            r.is_some() ==> {
                let pos = self.beach.order@.index_of(arc);
                let arcs = self.beach.arcs@;
                r.unwrap() == (
                    arcs[self.beach.order@[pos - 1] as int].site,
                    arcs[arc as int].site,
                    arcs[self.beach.order@[pos + 1] as int].site,
                )
            },
    {
        let pos: usize = match self.beach.position_of(arc) {
            Some(p) => p,
            None => {
                return None;
            },
        };
        proof {
            assert(self.beach.order@[pos as int] == arc);
            assert(self.beach.order@.contains(arc));
            assert(self.beach.order@.index_of(arc) == pos);
        }
        let n: usize = self.beach.len();
        if pos == 0 || pos + 1 >= n {
            return None;
        }
        Some(
            (
                self.beach.arc_at(pos - 1).site,
                self.beach.arc_at(pos).site,
                self.beach.arc_at(pos + 1).site,
            ),
        )
    }

    /// Queues the circle event at which arc `arc` will vanish at `center`,
    /// with the sweep line at `bottom`, and registers it on the arc; a circle
    /// event that the arc already had is flagged as stale. The event is
    /// queued only if it lies ahead, that is `bottom` is not before the sweep
    /// line's position `sweep`, and `arc` stands between two neighbours;
    /// otherwise nothing changes. Returns the new event's number.
    pub fn add_circle(&mut self, arc: usize, center: Point, bottom: i64, sweep: i64) -> (r: Option<
        usize,
    >)
        requires
            old(self).well_formed(),
        ensures
            final(self).well_formed(),
            final(self).sites@ == old(self).sites@,
            final(self).box_size == old(self).box_size,
            final(self).dcel == old(self).dcel,
            r.is_some() <==> old(self).squeezes(arc, true) && bottom >= sweep,
            r.is_none() ==> *final(self) == *old(self),
            r.is_some() ==> {
                let id = old(self).queue.events@.len() as usize;
                &&& r == Some(id)
                &&& final(self).queue.events@ == old(self).queue.events@.push(
                    (Event::Circle { arc, center, bottom }),
                )
                &&& final(self).queue.pending_ids() == old(self).queue.pending_ids().insert(id)
                &&& final(self).queue.valid@ == EventQueue::flagged(
                    old(self).queue.valid@.push(true),
                    old(self).beach.arcs@[arc as int].circle,
                )
                &&& final(self).beach.order@ == old(self).beach.order@
                &&& final(self).beach.arcs@ == old(self).beach.arcs@.update(
                    arc as int,
                    (crate::beachline::Arc { circle: id, ..old(self).beach.arcs@[arc as int] }),
                )
            },
    {
        if bottom < sweep || self.triple_of(arc).is_none() {
            return None;
        }
        proof {
            let pos = self.beach.order@.index_of(arc);
            assert(self.beach.order@[pos] == arc);
        }
        let id = self.queue.push(Event::Circle { arc, center, bottom });
        self.beach.set_circle(&mut self.queue, arc, id);
        proof {
            assert forall|i: int| 0 <= i < self.beach.order@.len() implies #[trigger] self.traced(
                i,
            ) by {
                assert(old(self).traced(i));
            }
        }
        Some(id)
    }

    /// Whether a popped circle event for arc `arc` takes effect: it is still
    /// valid, and the arc still stands on the beachline between two others.
    pub open spec fn squeezes(&self, arc: usize, valid: bool) -> bool {
        let p = self.beach.order@.index_of(arc);
        valid && self.beach.order@.contains(arc) && 0 < p && p + 1 < self.beach.order@.len()
    }

    /// Handles a popped circle event for arc `arc` with centre `center`.
    ///
    /// A stale event, or one whose arc no longer stands between two
    /// neighbours, changes nothing at all. Otherwise a vertex is made at
    /// `center`, the two half-edges traced by the arc's breakpoints start
    /// there, the arc leaves the beachline, its neighbours' circle events are
    /// flagged as stale, and a fresh twin pair that leaves the vertex is
    /// allocated between the neighbours' faces, traced by their breakpoint.
    pub fn handle_circle(&mut self, arc: usize, center: Point, valid: bool) -> (r: Option<
        CircleOutcome,
    >)
        requires
            old(self).well_formed(),
        ensures
            final(self).well_formed(),
            final(self).sites@ == old(self).sites@,
            final(self).box_size == old(self).box_size,
            final(self).dcel.faces@ == old(self).dcel.faces@,
            final(self).queue.events@ == old(self).queue.events@,
            final(self).queue.pending@ == old(self).queue.pending@,
            r.is_some() <==> old(self).squeezes(arc, valid),
            r.is_none() ==> *final(self) == *old(self),
            r.is_some() ==> {
                let pos = old(self).beach.order@.index_of(arc);
                let left = old(self).beach.order@[pos - 1];
                let right = old(self).beach.order@[pos + 1];
                let arcs = old(self).beach.arcs@;
                let vertex = old(self).dcel.vertices@.len() as usize;
                let edges = old(self).dcel.halfedges@.len() as int;
                &&& r.unwrap() == (CircleOutcome { vertex, left, right })
                &&& final(self).dcel.vertices@ == old(self).dcel.vertices@.push(
                    (Vertex { coordinates: center, incident_edge: NIL }),
                )
                &&& final(self).dcel.halfedges@ == Dcel::resolved(
                    Dcel::resolved(old(self).dcel.halfedges@, arcs[left as int].right_edge, vertex),
                    arcs[arc as int].right_edge,
                    vertex,
                ) + Dcel::rooted_pair(
                    edges,
                    arcs[right as int].site,
                    arcs[left as int].site,
                    vertex,
                )
                &&& final(self).beach.arcs@ == old(self).beach.squeezed_arcs(pos, edges as usize)
                &&& final(self).beach.order@ == old(self).beach.order@.remove(pos)
                &&& final(self).queue.valid@ == EventQueue::flagged(
                    EventQueue::flagged(old(self).queue.valid@, arcs[left as int].circle),
                    arcs[right as int].circle,
                )
            },
    {
        if !valid {
            return None;
        }
        let pos: usize = match self.beach.position_of(arc) {
            Some(p) => p,
            None => {
                return None;
            },
        };
        proof {
            assert(self.beach.order@[pos as int] == arc);
            assert(self.beach.order@.contains(arc));
            assert(self.beach.order@.index_of(arc) == pos);
        }
        let n: usize = self.beach.len();
        if pos == 0 || pos + 1 >= n {
            return None;
        }
        let left_arc = self.beach.arc_at(pos - 1);
        let mid_arc = self.beach.arc_at(pos);
        let right_arc = self.beach.arc_at(pos + 1);
        let vertex = self.dcel.new_vertex(center);
        self.dcel.resolve_origin(left_arc.right_edge, vertex);
        self.dcel.resolve_origin(mid_arc.right_edge, vertex);
        let ghost fixed = self.dcel.halfedges@;
        proof {
            let once = Dcel::resolved(old(self).dcel.halfedges@, left_arc.right_edge, vertex);
            lemma_resolved_keeps(old(self).dcel.halfedges@, left_arc.right_edge, vertex);
            lemma_resolved_keeps(once, mid_arc.right_edge, vertex);
        }
        let pair = self.dcel.new_edge_from(right_arc.site, left_arc.site, vertex);
        let (left, right) = self.beach.remove(&mut self.queue, pos, pair.0);
        proof {
            let at = pos as int;
            let edges = old(self).dcel.halfedges@;
            let now = self.dcel.halfedges@;
            assert(now.len() == edges.len() + 2);
            assert forall|e: int| 0 <= e < edges.len() implies (#[trigger] now[e]).face
                == edges[e].face && now[e].twin == edges[e].twin by {
                assert(now[e] == fixed[e]);
            }
            assert forall|i: int| 0 <= i < self.beach.order@.len() implies #[trigger] self.traced(
                i,
            ) by {
                let h = self.beach.order@[i];
                if i < at - 1 {
                    assert(old(self).traced(i));
                    assert(h == old(self).beach.order@[i]);
                    assert(h != left && h != right);
                } else if i == at - 1 {
                    assert(h == left);
                    assert(self.beach.arcs@[left as int].right_edge == pair.0);
                    assert(self.beach.order@[i + 1] == right);
                } else {
                    assert(old(self).traced(i + 1));
                    assert(h == old(self).beach.order@[i + 1]);
                    assert(h != left);
                }
            }
        }
        Some(CircleOutcome { vertex, left, right })
    }

    /// The sweep left a single site without any edge: its cell is the whole
    /// bounding square.
    pub open spec fn lone_cell(&self) -> bool {
        self.sites@.len() == 1 && self.dcel.halfedges@.len() == 0
    }

    /// Ends the sweep: attaches the outer face, which is not alive, behind
    /// the faces of the sites, and hands the edge list over. The cell of a
    /// lone site is bounded by the bounding square there and then; with more
    /// sites the open ends are left for clipping.
    pub fn finish(self) -> (d: Dcel)
        requires
            self.well_formed(),
        ensures
            d.well_formed(),
            d.faces@.len() == self.sites@.len() + 1,
            d.alive_faces(d.faces@.len() as int) == Seq::new(
                self.sites@.len(),
                |i: int| i as usize,
            ),
            d.faces@[self.sites@.len() as int].site == NIL,
            !self.lone_cell() ==> {
                &&& d.vertices@ == self.dcel.vertices@
                &&& d.halfedges@ == self.dcel.halfedges@
                &&& d.faces@ == self.dcel.faces@.push(
                    (Face { site: NIL, outer_component: NIL, alive: false }),
                )
            },
            self.lone_cell() ==> {
                &&& d.vertices@ == self.dcel.vertices@ + crate::closing::square_vertices(
                    self.box_size,
                )
                &&& d.halfedges@ == crate::closing::square_edges(
                    0,
                    self.dcel.vertices@.len() as int,
                    0,
                    1,
                )
                &&& d.faces@ == seq![
                    (Face { outer_component: 0, ..self.dcel.faces@[0] }),
                    (Face { site: NIL, outer_component: 7, alive: false }),
                ]
                &&& d.polygon(0) == crate::closing::square(self.box_size)
                &&& d.vertices@.len() - d.halfedges@.len() / 2 + d.faces@.len()
                    == self.dcel.vertices@.len() + 2
            },
    {
        let lone: bool = self.sites.len() == 1 && self.dcel.halfedges.len() == 0;
        let size: i64 = self.box_size;
        let mut d = self.dcel;
        d.attach_outer_face();
        if lone {
            d.close_with_square(0, 1, size);
            proof {
                assert(d.halfedges@ =~= crate::closing::square_edges(
                    0,
                    self.dcel.vertices@.len() as int,
                    0,
                    1,
                ));
                assert(d.faces@ =~= seq![
                    (Face { outer_component: 0, ..self.dcel.faces@[0] }),
                    (Face { site: NIL, outer_component: 7, alive: false }),
                ]);
            }
        }
        proof {
            lemma_site_faces_alive(d, self.sites@.len() as int);
            assert(d.alive_faces(d.faces@.len() as int) == d.alive_faces(
                self.sites@.len() as int,
            ));
        }
        d
    }
}

/// Fixing an open end changes origins only: the arena keeps its length and
/// every half-edge its face and its twin.
pub proof fn lemma_resolved_keeps(halfedges: Seq<crate::dcel::HalfEdge>, e: usize, v: usize)
    ensures
        Dcel::resolved(halfedges, e, v).len() == halfedges.len(),
        forall|k: int|
            0 <= k < halfedges.len() ==> {
                let h = #[trigger] Dcel::resolved(halfedges, e, v)[k];
                h.face == halfedges[k].face && h.twin == halfedges[k].twin && h.next
                    == halfedges[k].next && h.alive == halfedges[k].alive
            },
{
}

/// Where the first `k` faces are all alive, the alive faces among them are
/// those `k` faces, in order.
pub proof fn lemma_site_faces_alive(d: Dcel, k: int)
    requires
        0 <= k <= d.faces@.len(),
        forall|i: int| 0 <= i < k ==> (#[trigger] d.faces@[i]).alive,
    ensures
        d.alive_faces(k) == Seq::new(k as nat, |i: int| i as usize),
    decreases k,
{
    if k > 0 {
        lemma_site_faces_alive(d, k - 1);
        assert(d.alive_faces(k) =~= Seq::new(k as nat, |i: int| i as usize));
    } else {
        assert(d.alive_faces(k) =~= Seq::new(k as nat, |i: int| i as usize));
    }
}

} // verus!
