use vstd::prelude::*;
use crate::point::Point;

verus! {

/// The sites after one relaxation pass: a site whose cell has a centroid
/// moves there, a site whose cell is open or degenerate, and so has none,
/// stays where it is.
pub open spec fn relocated(sites: Seq<Point>, centroids: Seq<Option<Point>>) -> Seq<Point> {
    Seq::new(
        sites.len(),
        |i: int|
            if i < centroids.len() && centroids[i].is_some() {
                centroids[i].unwrap()
            } else {
                sites[i]
            },
    )
}

/// Replaces each site by the centroid of its cell, where there is one.
pub fn relocate(sites: &Vec<Point>, centroids: &Vec<Option<Point>>) -> (out: Vec<Point>)
    ensures
        out@ == relocated(sites@, centroids@),
{
    let mut out: Vec<Point> = Vec::new();
    let mut i: usize = 0;
    while i < sites.len()
        invariant
            i <= sites@.len(),
            out@ == relocated(sites@, centroids@).take(i as int),
        decreases sites@.len() - i,
    {
        let mut p = sites[i];
        if i < centroids.len() {
            if let Some(c) = centroids[i] {
                p = c;
            }
        }
        out.push(p);
        proof {
            assert(out@ =~= relocated(sites@, centroids@).take(i + 1));
        }
        i += 1;
    }
    proof {
        assert(out@ =~= relocated(sites@, centroids@));
    }
    out
}

} // verus!
