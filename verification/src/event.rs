use vstd::prelude::*;
use crate::point::Point;

verus! {

/// What the sweep reacts to.
#[derive(Clone, Copy, Debug, PartialEq, Eq, Structural)]
pub enum Event {
    /// The sweep line reaches input site number `site`, which lies at `point`.
    Site { site: usize, point: Point },
    /// Arc `arc` shrinks to nothing at `center`; the sweep line is then at
    /// `bottom`, the lowest point of the circle through the three sites.
    Circle { arc: usize, center: Point, bottom: i64 },
}

impl Event {
    /// The sweep coordinate at which the event happens.
    pub open spec fn primary(self) -> i64 {
        match self {
            Event::Site { point, .. } => point.y,
            Event::Circle { bottom, .. } => bottom,
        }
    }

    /// The coordinate that orders events of equal sweep coordinate.
    pub open spec fn secondary(self) -> i64 {
        match self {
            Event::Site { point, .. } => point.x,
            Event::Circle { center, .. } => center.x,
        }
    }

    pub fn sweep_key(&self) -> (k: (i64, i64))
        ensures
            k.0 == self.primary(),
            k.1 == self.secondary(),
    {
        match self {
            Event::Site { point, .. } => (point.y, point.x),
            Event::Circle { center, bottom, .. } => (*bottom, center.x),
        }
    }
}

/// Pending events, handed out in sweep order.
///
/// Every event pushed keeps its number for good. A stale circle event is
/// flagged, not removed: it still comes out of `pop_min`, with its flag.
/// `pending` holds the numbers of the events not yet handed out, as a binary
/// heap.
#[derive(Debug)]
pub struct EventQueue {
    pub events: Vec<Event>,
    pub valid: Vec<bool>,
    pub pending: Vec<usize>,
}

/// Event `a` is handed out no later than event `b`: by sweep coordinate, then
/// by secondary coordinate, then by the order in which they were pushed.
pub open spec fn precedes(events: Seq<Event>, a: int, b: int) -> bool {
    let (ea, eb) = (events[a], events[b]);
    ea.primary() < eb.primary() || (ea.primary() == eb.primary() && (ea.secondary()
        < eb.secondary() || (ea.secondary() == eb.secondary() && a <= b)))
}

/// `precedes` is a total order on event numbers: any two compare, it is
/// transitive, and two events that precede each other are one event.
pub proof fn lemma_precedes_total_order(events: Seq<Event>, a: int, b: int, c: int)
    ensures
        precedes(events, a, b) || precedes(events, b, a),
        precedes(events, a, b) && precedes(events, b, c) ==> precedes(events, a, c),
        precedes(events, a, b) && precedes(events, b, a) ==> a == b,
{
}

/// Which event comes out next depends on the pending set alone: two events
/// of the set that each precede every event of the set are one event.
pub proof fn lemma_least_is_unique(events: Seq<Event>, pending: Set<usize>, a: usize, b: usize)
    requires
        pending.contains(a),
        pending.contains(b),
        forall|j: usize| #[trigger] pending.contains(j) ==> precedes(events, a as int, j as int),
        forall|j: usize| #[trigger] pending.contains(j) ==> precedes(events, b as int, j as int),
    ensures
        a == b,
{
    assert(precedes(events, a as int, b as int));
    assert(precedes(events, b as int, a as int));
}

/// The pending list is a binary heap: no entry precedes its parent.
pub open spec fn heap_ordered(events: Seq<Event>, pending: Seq<usize>) -> bool {
    forall|k: int|
        0 < k < pending.len() ==> precedes(
            events,
            pending[(k - 1) / 2] as int,
            #[trigger] pending[k] as int,
        )
}

/// In a heap the root precedes every entry.
pub proof fn lemma_root_is_least(events: Seq<Event>, pending: Seq<usize>, j: int)
    requires
        heap_ordered(events, pending),
        0 <= j < pending.len(),
    ensures
        precedes(events, pending[0] as int, pending[j] as int),
    decreases j,
{
    if j > 0 {
        lemma_root_is_least(events, pending, (j - 1) / 2);
        assert(precedes(events, pending[(j - 1) / 2] as int, pending[j] as int));
    }
}

/// Swapping two entries keeps the set of entries, and keeps them distinct.
proof fn lemma_swap(s: Seq<usize>, a: int, b: int)
    requires
        0 <= a < s.len(),
        0 <= b < s.len(),
    ensures
        s.update(a, s[b]).update(b, s[a]).to_set() == s.to_set(),
        s.no_duplicates() ==> s.update(a, s[b]).update(b, s[a]).no_duplicates(),
{
    let t = s.update(a, s[b]).update(b, s[a]);
    assert forall|x: usize| t.to_set().contains(x) <==> s.to_set().contains(x) by {
        if t.to_set().contains(x) {
            let i = choose|i: int| 0 <= i < t.len() && t[i] == x;
            let j = if i == a { b } else if i == b { a } else { i };
            assert(s[j] == x);
        }
        if s.to_set().contains(x) {
            let i = choose|i: int| 0 <= i < s.len() && s[i] == x;
            let j = if i == a { b } else if i == b { a } else { i };
            assert(t[j] == x);
        }
    }
    assert(t.to_set() =~= s.to_set());
    if s.no_duplicates() {
        assert forall|i: int, j: int| 0 <= i < t.len() && 0 <= j < t.len() && i != j implies t[i]
            != t[j] by {
            let i2 = if i == a { b } else if i == b { a } else { i };
            let j2 = if j == a { b } else if j == b { a } else { j };
            assert(s[i2] == t[i] && s[j2] == t[j] && i2 != j2);
        }
    }
}

/// Appending an entry that is not there yet adds it to the set of entries.
proof fn lemma_append(s: Seq<usize>, x: usize)
    requires
        s.no_duplicates(),
        !s.to_set().contains(x),
    ensures
        s.push(x).to_set() == s.to_set().insert(x),
        s.push(x).no_duplicates(),
{
    let t = s.push(x);
    assert forall|y: usize| t.to_set().contains(y) <==> s.to_set().insert(x).contains(y) by {
        if t.to_set().contains(y) {
            let i = choose|i: int| 0 <= i < t.len() && t[i] == y;
            if i < s.len() {
                assert(s[i] == y);
            }
        }
        if s.to_set().contains(y) {
            let i = choose|i: int| 0 <= i < s.len() && s[i] == y;
            assert(t[i] == y);
        }
        if y == x {
            assert(t[s.len() as int] == x);
        }
    }
    assert(t.to_set() =~= s.to_set().insert(x));
    assert forall|i: int, j: int| 0 <= i < t.len() && 0 <= j < t.len() && i != j implies t[i]
        != t[j] by {
        if i < s.len() && j < s.len() {
        } else if i < s.len() {
            assert(s.to_set().contains(s[i]));
        } else {
            assert(s.to_set().contains(s[j]));
        }
    }
}

/// Moving the last entry to the front and dropping the old front takes
/// exactly the front out of the set of entries.
proof fn lemma_replace_root(s: Seq<usize>)
    requires
        s.no_duplicates(),
        s.len() >= 2,
    ensures
        s.drop_last().update(0, s.last()).to_set() == s.to_set().remove(s[0]),
        s.drop_last().update(0, s.last()).no_duplicates(),
{
    let t = s.drop_last().update(0, s.last());
    let n = s.len() as int;
    assert forall|y: usize| t.to_set().contains(y) <==> s.to_set().remove(s[0]).contains(y) by {
        if t.to_set().contains(y) {
            let i = choose|i: int| 0 <= i < t.len() && t[i] == y;
            if i == 0 {
                assert(s[n - 1] == y);
            } else {
                assert(s[i] == y);
            }
        }
        if s.to_set().remove(s[0]).contains(y) {
            let i = choose|i: int| 0 <= i < s.len() && s[i] == y;
            if i == n - 1 {
                assert(t[0] == y);
            } else {
                assert(t[i] == y);
            }
        }
    }
    assert(t.to_set() =~= s.to_set().remove(s[0]));
    assert forall|i: int, j: int| 0 <= i < t.len() && 0 <= j < t.len() && i != j implies t[i]
        != t[j] by {
        let i2 = if i == 0 { n - 1 } else { i };
        let j2 = if j == 0 { n - 1 } else { j };
        assert(s[i2] == t[i] && s[j2] == t[j] && i2 != j2);
    }
}

impl EventQueue {
    pub open spec fn well_formed(&self) -> bool {
        &&& self.valid@.len() == self.events@.len()
        &&& forall|j: int|
            0 <= j < self.pending@.len() ==> (#[trigger] self.pending@[j] as int)
                < self.events@.len()
        &&& self.pending@.no_duplicates()
        &&& heap_ordered(self.events@, self.pending@)
    }

    /// The numbers of the events that are pending.
    pub open spec fn pending_ids(&self) -> Set<usize> {
        self.pending@.to_set()
    }

    pub fn new() -> (q: EventQueue)
        ensures
            q.well_formed(),
            q.events@.len() == 0,
            q.valid@.len() == 0,
            q.pending@.len() == 0,
    {
        EventQueue { events: Vec::new(), valid: Vec::new(), pending: Vec::new() }
    }

    pub fn is_empty(&self) -> (b: bool)
        ensures
            b == (self.pending@.len() == 0),
    {
        self.pending.len() == 0
    }

    /// Adds `ev` as a valid pending event and returns its number.
    pub fn push(&mut self, ev: Event) -> (id: usize)
        requires
            old(self).well_formed(),
        ensures
            final(self).well_formed(),
            id as int == old(self).events@.len(),
            final(self).events@ == old(self).events@.push(ev),
            final(self).valid@ == old(self).valid@.push(true),
            final(self).pending_ids() == old(self).pending_ids().insert(id),
            final(self).pending@.len() == old(self).pending@.len() + 1,
    {
        self.events.push(ev);
        self.valid.push(true);
        let id: usize = self.events.len() - 1;
        proof {
            if self.pending@.to_set().contains(id) {
                let j = choose|j: int| 0 <= j < self.pending@.len() && self.pending@[j] == id;
                assert((old(self).pending@[j] as int) < old(self).events@.len());
            }
            lemma_append(self.pending@, id);
        }
        self.pending.push(id);
        let mut i: usize = self.pending.len() - 1;
        let mut settled: bool = false;
        while i > 0 && !settled
            invariant
                (i as int) < self.pending@.len(),
                self.events@ == old(self).events@.push(ev),
                self.valid@ == old(self).valid@.push(true),
                self.pending@.len() == old(self).pending@.len() + 1,
                self.pending@.to_set() == old(self).pending@.to_set().insert(id),
                self.pending@.no_duplicates(),
                forall|j: int|
                    0 <= j < self.pending@.len() ==> (#[trigger] self.pending@[j] as int)
                        < self.events@.len(),
                forall|k: int|
                    0 < k < self.pending@.len() && k != i ==> precedes(
                        self.events@,
                        self.pending@[(k - 1) / 2] as int,
                        #[trigger] self.pending@[k] as int,
                    ),
                forall|k: int|
                    0 < k < self.pending@.len() && (k - 1) / 2 == i && i > 0 ==> precedes(
                        self.events@,
                        self.pending@[(i - 1) / 2] as int,
                        #[trigger] self.pending@[k] as int,
                    ),
                settled ==> i > 0 && precedes(
                    self.events@,
                    self.pending@[(i - 1) / 2] as int,
                    self.pending@[i as int] as int,
                ),
            decreases i, !settled as int,
        {
            let p: usize = (i - 1) / 2;
            let up: usize = self.pending[p];
            let down: usize = self.pending[i];
            if self.comes_before(up, down) {
                settled = true;
            } else {
                proof {
                    lemma_swap(self.pending@, p as int, i as int);
                }
                self.pending.set(p, down);
                self.pending.set(i, up);
                i = p;
            }
        }
        id
    }

    /// Flags event `id` as stale. It stays in the queue. A number that no
    /// event has (`NIL` among them) changes nothing.
    pub fn invalidate(&mut self, id: usize)
        requires
            old(self).well_formed(),
        ensures
            final(self).well_formed(),
            final(self).events@ == old(self).events@,
            final(self).pending@ == old(self).pending@,
            final(self).valid@ == Self::flagged(old(self).valid@, id),
    {
        if id < self.valid.len() {
            self.valid.set(id, false);
        }
    }

    /// The validity flags after event `id` was flagged as stale.
    pub open spec fn flagged(valid: Seq<bool>, id: usize) -> Seq<bool> {
        if (id as int) < valid.len() {
            valid.update(id as int, false)
        } else {
            valid
        }
    }

    fn comes_before(&self, a: usize, b: usize) -> (r: bool)
        requires
            (a as int) < self.events@.len(),
            (b as int) < self.events@.len(),
        ensures
            r == precedes(self.events@, a as int, b as int),
    {
        let ka = self.events[a].sweep_key();
        let kb = self.events[b].sweep_key();
        ka.0 < kb.0 || (ka.0 == kb.0 && (ka.1 < kb.1 || (ka.1 == kb.1 && a <= b)))
    }

    /// Takes out the pending event that comes first in sweep order and returns
    /// its number, the event and its validity flag; `None` when nothing is
    /// pending.
    pub fn pop_min(&mut self) -> (r: Option<(usize, Event, bool)>)
        requires
            old(self).well_formed(),
        ensures
            final(self).well_formed(),
            final(self).events@ == old(self).events@,
            final(self).valid@ == old(self).valid@,
            r.is_none() <==> old(self).pending@.len() == 0,
            r.is_none() ==> final(self).pending@ == old(self).pending@,
            r.is_some() ==> {
                let id = r.unwrap().0;
                &&& old(self).pending_ids().contains(id)
                &&& forall|j: usize| #[trigger]
                    old(self).pending_ids().contains(j) ==> precedes(
                        old(self).events@,
                        id as int,
                        j as int,
                    )
                &&& (id as int) < old(self).events@.len()
                &&& r.unwrap().1 == old(self).events@[id as int]
                &&& r.unwrap().2 == old(self).valid@[id as int]
                &&& final(self).pending_ids() == old(self).pending_ids().remove(id)
                &&& final(self).pending@.len() == old(self).pending@.len() - 1
            },
    {
        let n: usize = self.pending.len();
        if n == 0 {
            return None;
        }
        let id: usize = self.pending[0];
        proof {
            assert forall|j: usize| #[trigger]
                self.pending@.to_set().contains(j) implies precedes(
                self.events@,
                id as int,
                j as int,
            ) by {
                let at = choose|at: int| 0 <= at < self.pending@.len() && self.pending@[at] == j;
                lemma_root_is_least(self.events@, self.pending@, at);
            }
            assert(self.pending@.to_set().contains(self.pending@[0]));
        }
        let last: usize = self.pending[n - 1];
        self.pending.pop();
        if n == 1 {
            proof {
                assert(self.pending@.to_set() =~= old(self).pending@.to_set().remove(id)) by {
                    assert forall|y: usize| old(self).pending@.to_set().contains(y) implies y
                        == id by {
                        let at = choose|at: int|
                            0 <= at < old(self).pending@.len() && old(self).pending@[at] == y;
                    }
                }
            }
            return Some((id, self.events[id], self.valid[id]));
        }
        proof {
            lemma_replace_root(old(self).pending@);
        }
        self.pending.set(0, last);
        let m: usize = n - 1;
        let mut i: usize = 0;
        let mut settled: bool = false;
        while i < m / 2 && !settled
            invariant
                m == self.pending@.len(),
                (i as int) < m,
                self.events@ == old(self).events@,
                self.valid@ == old(self).valid@,
                self.valid@.len() == self.events@.len(),
                self.pending@.to_set() == old(self).pending@.to_set().remove(id),
                self.pending@.no_duplicates(),
                forall|j: int|
                    0 <= j < self.pending@.len() ==> (#[trigger] self.pending@[j] as int)
                        < self.events@.len(),
                forall|k: int|
                    0 < k < self.pending@.len() && (k - 1) / 2 != i ==> precedes(
                        self.events@,
                        self.pending@[(k - 1) / 2] as int,
                        #[trigger] self.pending@[k] as int,
                    ),
                forall|k: int|
                    0 < k < self.pending@.len() && (k - 1) / 2 == i && i > 0 ==> precedes(
                        self.events@,
                        self.pending@[(i - 1) / 2] as int,
                        #[trigger] self.pending@[k] as int,
                    ),
                settled ==> forall|k: int|
                    0 < k < self.pending@.len() && (k - 1) / 2 == i ==> precedes(
                        self.events@,
                        self.pending@[i as int] as int,
                        #[trigger] self.pending@[k] as int,
                    ),
            decreases m - i, !settled as int,
        {
            let left: usize = 2 * i + 1;
            let right: usize = left + 1;
            let mut child: usize = left;
            if right < m && !self.comes_before(self.pending[left], self.pending[right]) {
                child = right;
            }
            let up: usize = self.pending[i];
            let down: usize = self.pending[child];
            if self.comes_before(up, down) {
                settled = true;
                proof {
                    assert forall|k: int|
                        0 < k < self.pending@.len() && (k - 1) / 2 == i implies precedes(
                        self.events@,
                        self.pending@[i as int] as int,
                        #[trigger] self.pending@[k] as int,
                    ) by {
                        assert(k == left || k == right);
                    }
                }
            } else {
                proof {
                    lemma_swap(self.pending@, i as int, child as int);
                }
                let ghost before = self.pending@;
                self.pending.set(i, down);
                self.pending.set(child, up);
                proof {
                    assert forall|k: int|
                        0 < k < self.pending@.len() && (k - 1) / 2 != child implies precedes(
                        self.events@,
                        self.pending@[(k - 1) / 2] as int,
                        #[trigger] self.pending@[k] as int,
                    ) by {
                        if (k - 1) / 2 == i {
                            assert(k == left || k == right);
                            assert(precedes(self.events@, before[child as int] as int, before[k] as int));
                        } else if k == i {
                            assert(precedes(
                                self.events@,
                                before[(i - 1) / 2] as int,
                                before[child as int] as int,
                            ));
                        } else {
                            assert(precedes(
                                self.events@,
                                before[(k - 1) / 2] as int,
                                before[k] as int,
                            ));
                        }
                    }
                }
                i = child;
            }
        }
        proof {
            assert forall|k: int| 0 < k < self.pending@.len() implies precedes(
                self.events@,
                self.pending@[(k - 1) / 2] as int,
                #[trigger] self.pending@[k] as int,
            ) by {
                if (k - 1) / 2 == i && !settled {
                    assert(i >= m / 2);
                }
            }
        }
        Some((id, self.events[id], self.valid[id]))
    }
}

} // verus!
