use vstd::prelude::*;
use crate::point::Point;
use crate::dcel::Dcel;

verus! {

/// A finished diagram, ready for read-only traversal.
#[derive(Debug)]
pub struct VoronoiDiagram {
    /// The edge list is public, for low-level access.
    pub dcel: Dcel,
}

/// The corner points of one cell, in boundary order.
#[derive(Debug)]
pub struct VoronoiCell {
    pub points: Vec<Point>,
}

impl VoronoiDiagram {
    pub fn new(dcel: Dcel) -> (d: VoronoiDiagram)
        ensures
            d.dcel == dcel,
    {
        VoronoiDiagram { dcel }
    }

    /// One cell per face, the outer face included, in face order.
    pub fn cells(&self) -> (out: Vec<VoronoiCell>)
        ensures
            out@.len() == self.dcel.faces@.len(),
            forall|f: int|
                0 <= f < out@.len() ==> (#[trigger] out@[f]).points@ == self.dcel.polygon(f),
    {
        let mut out: Vec<VoronoiCell> = Vec::new();
        let mut f: usize = 0;
        while f < self.dcel.faces.len()
            invariant
                f <= self.dcel.faces@.len(),
                out@.len() == f,
                forall|g: int|
                    0 <= g < out@.len() ==> (#[trigger] out@[g]).points@ == self.dcel.polygon(g),
            decreases self.dcel.faces@.len() - f,
        {
            let points = self.dcel.cell_polygon(f);
            out.push(VoronoiCell { points });
            f += 1;
        }
        out
    }
}

} // verus!
