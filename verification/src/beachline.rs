use vstd::prelude::*;
use crate::dcel::NIL;
use crate::event::EventQueue;

verus! {

/// One parabolic arc of the beachline.
#[derive(Clone, Copy, Debug, PartialEq, Eq, Structural)]
pub struct Arc {
    /// The input site whose parabola the arc is part of.
    pub site: usize,
    /// Number of the arc's pending circle event, `NIL` when it has none.
    pub circle: usize,
    /// The half-edge traced by the breakpoint at the arc's right end, `NIL`
    /// when the arc has none.
    pub right_edge: usize,
}

/// The arcs in left-to-right order.
///
/// `arcs` keeps every arc ever made, so a handle (an index into it) stays
/// good; `order` lists the handles of the arcs now on the beachline.
#[derive(Debug)]
pub struct Beachline {
    pub arcs: Vec<Arc>,
    pub order: Vec<usize>,
}

impl Beachline {
    /// Every handle on the beachline names an arc, and none stands twice.
    pub open spec fn well_formed(&self) -> bool {
        &&& forall|i: int|
            0 <= i < self.order@.len() ==> (#[trigger] self.order@[i] as int) < self.arcs@.len()
        &&& forall|i: int, j: int|
            0 <= i < j < self.order@.len() ==> self.order@[i] != self.order@[j]
    }

    pub fn new() -> (b: Beachline)
        ensures
            b.well_formed(),
            b.arcs@.len() == 0,
            b.order@.len() == 0,
    {
        Beachline { arcs: Vec::new(), order: Vec::new() }
    }

    pub fn len(&self) -> (n: usize)
        ensures
            n == self.order@.len(),
    {
        self.order.len()
    }

    /// Where arc `handle` stands on the beachline, if it still does.
    pub fn position_of(&self, handle: usize) -> (r: Option<usize>)
        requires
            self.well_formed(),
        ensures
            match r {
                Some(p) => (p as int) < self.order@.len() && self.order@[p as int] == handle,
                None => forall|i: int|
                    0 <= i < self.order@.len() ==> self.order@[i] != handle,
            },
    {
        let mut i: usize = 0;
        while i < self.order.len()
            invariant
                i <= self.order@.len(),
                forall|j: int| 0 <= j < i ==> self.order@[j] != handle,
            decreases self.order@.len() - i,
        {
            if self.order[i] == handle {
                return Some(i);
            }
            i += 1;
        }
        None
    }

    /// The arc standing at position `pos`.
    pub fn arc_at(&self, pos: usize) -> (a: Arc)
        requires
            self.well_formed(),
            (pos as int) < self.order@.len(),
        ensures
            a == self.arcs@[self.order@[pos as int] as int],
    {
        self.arcs[self.order[pos]]
    }

    /// Puts the lone first arc, of site `site`, on an empty beachline.
    pub fn insert_first(&mut self, site: usize) -> (handle: usize)
        requires
            old(self).well_formed(),
            old(self).order@.len() == 0,
        ensures
            final(self).well_formed(),
            handle as int == old(self).arcs@.len(),
            final(self).arcs@ == old(self).arcs@.push(
                (Arc { site, circle: NIL, right_edge: NIL }),
            ),
            final(self).order@ == seq![handle],
    {
        self.arcs.push(Arc { site, circle: NIL, right_edge: NIL });
        let handle: usize = self.arcs.len() - 1;
        self.order.push(handle);
        proof {
            assert(final(self).order@ =~= seq![handle]);
        }
        handle
    }

    /// The arena after the arc at `pos` was split by an arc of `site`: the
    /// split arc stays as the left copy, now ending in `left_edge` and with no
    /// circle event; the new arc, ending in `right_edge`, and the right copy,
    /// ending where the split arc ended, are appended.
    pub open spec fn split_arcs(&self, pos: int, site: usize, left_edge: usize, right_edge: usize)
        -> Seq<Arc> {
        let h = self.order@[pos] as int;
        let a = self.arcs@[h];
        self.arcs@.update(h, (Arc { site: a.site, circle: NIL, right_edge: left_edge })).push(
            (Arc { site, circle: NIL, right_edge }),
        ).push((Arc { site: a.site, circle: NIL, right_edge: a.right_edge }))
    }

    /// The order after that split: the two appended arcs stand right behind
    /// position `pos`.
    pub open spec fn split_order(&self, pos: int) -> Seq<usize> {
        let n = self.arcs@.len();
        self.order@.insert(pos + 1, (n + 1) as usize).insert(pos + 1, n as usize)
    }

    /// Splits the arc at `pos` into left copy, new arc of `site`, right copy.
    /// The split arc's pending circle event is flagged as stale. Returns the
    /// handles of the three arcs, left to right.
    pub fn insert_site(
        &mut self,
        queue: &mut EventQueue,
        pos: usize,
        site: usize,
        left_edge: usize,
        right_edge: usize,
    ) -> (r: (usize, usize, usize))
        requires
            old(self).well_formed(),
            old(queue).well_formed(),
            (pos as int) < old(self).order@.len(),
        ensures
            final(self).well_formed(),
            final(queue).well_formed(),
            r.0 == old(self).order@[pos as int],
            r.1 as int == old(self).arcs@.len(),
            r.2 as int == old(self).arcs@.len() + 1,
            final(self).arcs@ == old(self).split_arcs(pos as int, site, left_edge, right_edge),
            final(self).order@ == old(self).split_order(pos as int),
            final(queue).events@ == old(queue).events@,
            final(queue).pending@ == old(queue).pending@,
            final(queue).valid@ == EventQueue::flagged(
                old(queue).valid@,
                old(self).arcs@[old(self).order@[pos as int] as int].circle,
            ),
    {
        assert(pos < self.order.len());
        let behind: usize = pos + 1;
        let h: usize = self.order[pos];
        let a = self.arcs[h];
        queue.invalidate(a.circle);
        self.arcs.set(h, Arc { site: a.site, circle: NIL, right_edge: left_edge });
        self.arcs.push(Arc { site, circle: NIL, right_edge });
        let mid: usize = self.arcs.len() - 1;
        self.arcs.push(Arc { site: a.site, circle: NIL, right_edge: a.right_edge });
        let right: usize = self.arcs.len() - 1;
        self.order.insert(behind, right);
        self.order.insert(behind, mid);
        (h, mid, right)
    }

    /// The arena after the arc at `pos` was squeezed out: its two neighbours
    /// lose their circle events, and the left one now ends in `edge`.
    pub open spec fn squeezed_arcs(&self, pos: int, edge: usize) -> Seq<Arc> {
        let l = self.order@[pos - 1] as int;
        let r = self.order@[pos + 1] as int;
        self.arcs@.update(
            l,
            (Arc { site: self.arcs@[l].site, circle: NIL, right_edge: edge }),
        ).update(r, (Arc { circle: NIL, ..self.arcs@[r] }))
    }

    /// Takes the arc at `pos` off the beachline; it must have a neighbour on
    /// each side. The neighbours become adjacent, with `edge` traced between
    /// them, and their pending circle events are flagged as stale. Returns the
    /// handles of the left and the right neighbour.
    pub fn remove(&mut self, queue: &mut EventQueue, pos: usize, edge: usize) -> (r: (usize, usize))
        requires
            old(self).well_formed(),
            old(queue).well_formed(),
            0 < pos,
            pos + 1 < old(self).order@.len(),
        ensures
            final(self).well_formed(),
            final(queue).well_formed(),
            r.0 == old(self).order@[pos - 1],
            r.1 == old(self).order@[pos + 1],
            final(self).arcs@ == old(self).squeezed_arcs(pos as int, edge),
            final(self).order@ == old(self).order@.remove(pos as int),
            final(queue).events@ == old(queue).events@,
            final(queue).pending@ == old(queue).pending@,
            final(queue).valid@ == EventQueue::flagged(
                EventQueue::flagged(
                    old(queue).valid@,
                    old(self).arcs@[old(self).order@[pos - 1] as int].circle,
                ),
                old(self).arcs@[old(self).order@[pos + 1] as int].circle,
            ),
    {
        assert(pos + 1 < self.order.len());
        let after: usize = pos + 1;
        let l: usize = self.order[pos - 1];
        let r: usize = self.order[after];
        let la = self.arcs[l];
        let ra = self.arcs[r];
        queue.invalidate(la.circle);
        queue.invalidate(ra.circle);
        self.arcs.set(l, Arc { site: la.site, circle: NIL, right_edge: edge });
        self.arcs.set(r, Arc { circle: NIL, ..ra });
        self.order.remove(pos);
        (l, r)
    }

    /// Registers circle event `event` on arc `handle`. An arc has at most one
    /// live circle event, so the one it had is flagged as stale.
    pub fn set_circle(&mut self, queue: &mut EventQueue, handle: usize, event: usize)
        requires
            old(self).well_formed(),
            old(queue).well_formed(),
            (handle as int) < old(self).arcs@.len(),
        ensures
            final(self).well_formed(),
            final(queue).well_formed(),
            final(self).order@ == old(self).order@,
            final(self).arcs@ == old(self).arcs@.update(
                handle as int,
                (Arc { circle: event, ..old(self).arcs@[handle as int] }),
            ),
            final(queue).events@ == old(queue).events@,
            final(queue).pending@ == old(queue).pending@,
            final(queue).valid@ == EventQueue::flagged(
                old(queue).valid@,
                old(self).arcs@[handle as int].circle,
            ),
    {
        let a = self.arcs[handle];
        queue.invalidate(a.circle);
        self.arcs.set(handle, Arc { circle: event, ..a });
    }
}

/// The first position whose breakpoint lies beyond `x`, looking from
/// position `from` on; the number of breakpoints where none does.
pub open spec fn first_beyond(breakpoints: Seq<i64>, x: i64, from: int) -> int
    decreases breakpoints.len() - from,
{
    if from < 0 || from >= breakpoints.len() {
        breakpoints.len() as int
    } else if x < breakpoints[from] {
        from
    } else {
        first_beyond(breakpoints, x, from + 1)
    }
}

/// The position of the arc that lies over `x`, given the breakpoints between
/// the arcs from left to right, as they stand for the current sweep line:
/// the first arc whose right breakpoint lies beyond `x`, or the last arc.
pub fn locate(breakpoints: &Vec<i64>, x: i64) -> (pos: usize)
    ensures
        pos as int == first_beyond(breakpoints@, x, 0),
        pos <= breakpoints@.len(),
        forall|j: int| 0 <= j < pos ==> breakpoints@[j] <= x,
        (pos as int) < breakpoints@.len() ==> x < breakpoints@[pos as int],
{
    let mut pos: usize = 0;
    while pos < breakpoints.len() && x >= breakpoints[pos]
        invariant
            pos <= breakpoints@.len(),
            first_beyond(breakpoints@, x, pos as int) == first_beyond(breakpoints@, x, 0),
            forall|j: int| 0 <= j < pos ==> breakpoints@[j] <= x,
        decreases breakpoints@.len() - pos,
    {
        pos += 1;
    }
    pos
}

} // verus!
