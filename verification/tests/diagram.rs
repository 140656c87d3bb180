use voronoi::beachline::locate;
use voronoi::event::Event;
use voronoi::lloyd::relocate;
use voronoi::sweep::{SiteOutcome, Sweep, SweepError};
use voronoi::{Dcel, Point, VoronoiDiagram, NIL};

fn key(v: f64) -> i64 {
    let b = (v + 0.0).to_bits() as i64;
    b ^ ((((b >> 63) as u64) >> 1) as i64)
}

fn unkey(k: i64) -> f64 {
    let b = k ^ ((((k >> 63) as u64) >> 1) as i64);
    f64::from_bits(b as u64)
}

fn site_of(sweep: &Sweep, pos: usize) -> (f64, f64) {
    let p = sweep.sites[sweep.beach.arc_at(pos).site];
    (unkey(p.x), unkey(p.y))
}

fn breakpoint(p: (f64, f64), q: (f64, f64), d: f64) -> f64 {
    if p.1 == d {
        return p.0;
    }
    if q.1 == d {
        return q.0;
    }
    if p.1 == q.1 {
        return (p.0 + q.0) / 2.0;
    }
    let (dp, dq) = (2.0 * (p.1 - d), 2.0 * (q.1 - d));
    let a = 1.0 / dp - 1.0 / dq;
    let b = -2.0 * p.0 / dp + 2.0 * q.0 / dq;
    let c = (p.0 * p.0 + p.1 * p.1 - d * d) / dp - (q.0 * q.0 + q.1 * q.1 - d * d) / dq;
    let root = (b * b - 4.0 * a * c).max(0.0).sqrt();
    let (x1, x2) = ((-b - root) / (2.0 * a), (-b + root) / (2.0 * a));
    let (lo, hi) = if x1 <= x2 { (x1, x2) } else { (x2, x1) };
    if a < 0.0 {
        hi
    } else {
        lo
    }
}

fn arc_above(sweep: &Sweep, x: f64, d: f64) -> usize {
    let mut breakpoints = Vec::new();
    for pos in 1..sweep.beach.len() {
        breakpoints.push(key(breakpoint(site_of(sweep, pos - 1), site_of(sweep, pos), d)));
    }
    locate(&breakpoints, key(x))
}

fn predict(sweep: &mut Sweep, handle: usize, d: f64) {
    let (l, m, r) = match sweep.triple_of(handle) {
        Some(t) => t,
        None => return,
    };
    let at = |i: usize| (unkey(sweep.sites[i].x), unkey(sweep.sites[i].y));
    let (a, b, c) = (at(l), at(m), at(r));
    let cross = (b.0 - a.0) * (c.1 - a.1) - (c.0 - a.0) * (b.1 - a.1);
    if cross <= 1e-12 {
        return;
    }
    let (bx, by, cx, cy) = (b.0 - a.0, b.1 - a.1, c.0 - a.0, c.1 - a.1);
    let (e, f) = (bx * bx + by * by, cx * cx + cy * cy);
    let ux = (cy * e - by * f) / (2.0 * cross);
    let uy = (bx * f - cx * e) / (2.0 * cross);
    let bottom = a.1 + uy + (ux * ux + uy * uy).sqrt();
    sweep.add_circle(handle, Point::new(key(a.0 + ux), key(a.1 + uy)), key(bottom), key(d));
}

fn build(points: &[(f64, f64)], box_size: f64) -> Result<Dcel, SweepError> {
    let sites: Vec<Point> = points.iter().map(|p| Point::new(key(p.0), key(p.1))).collect();
    let mut sweep = Sweep::new(sites, key(box_size))?;
    while let Some((_, event, valid)) = sweep.next_event() {
        match event {
            Event::Site { site, point } => {
                let d = unkey(point.y);
                let above = arc_above(&sweep, unkey(point.x), d);
                if let SiteOutcome::Split { left, right, .. } = sweep.handle_site(site, above) {
                    predict(&mut sweep, left, d);
                    predict(&mut sweep, right, d);
                }
            }
            Event::Circle { arc, center, bottom } => {
                if let Some(out) = sweep.handle_circle(arc, center, valid) {
                    predict(&mut sweep, out.left, unkey(bottom));
                    predict(&mut sweep, out.right, unkey(bottom));
                }
            }
        }
    }
    Ok(sweep.finish())
}

fn coords(d: &Dcel, v: usize) -> (f64, f64) {
    (unkey(d.vertices[v].coordinates.x), unkey(d.vertices[v].coordinates.y))
}

// The point where the ray from `from` along `dir` leaves the square.
fn exit(from: (f64, f64), dir: (f64, f64), size: f64) -> (f64, f64) {
    let reach = |o: f64, v: f64| {
        if v > 0.0 {
            (size - o) / v
        } else if v < 0.0 {
            -o / v
        } else {
            f64::INFINITY
        }
    };
    let (tx, ty) = (reach(from.0, dir.0), reach(from.1, dir.1));
    if tx <= ty {
        (if dir.0 > 0.0 { size } else { 0.0 }, (from.1 + tx * dir.1).clamp(0.0, size))
    } else {
        ((from.0 + ty * dir.0).clamp(0.0, size), if dir.1 > 0.0 { size } else { 0.0 })
    }
}

// How far along the square's boundary `p` lies, counter-clockwise from the origin.
fn perimeter(p: (f64, f64), size: f64) -> f64 {
    if p.1 == 0.0 {
        p.0
    } else if p.0 == size {
        size + p.1
    } else if p.1 == size {
        2.0 * size + (size - p.0)
    } else {
        3.0 * size + (size - p.1)
    }
}

fn nearest(pts: &[(f64, f64)], p: (f64, f64)) -> usize {
    let dist = |s: &(f64, f64)| (s.0 - p.0).powi(2) + (s.1 - p.1).powi(2);
    (0..pts.len()).min_by(|a, b| dist(&pts[*a]).partial_cmp(&dist(&pts[*b])).unwrap()).unwrap()
}

// Clips the rays to the square, lays the square's boundary and closes every cell.
fn close_cells(d: &mut Dcel, pts: &[(f64, f64)], size: f64) {
    let outer = pts.len();
    if d.rays().is_empty() {
        // A lone cell comes closed out of the sweep.
        return;
    }
    for e in d.rays() {
        let t = d.twin(e);
        let (sf, sg) = (pts[d.halfedges[e].face], pts[d.halfedges[t].face]);
        let mid = ((sf.0 + sg.0) / 2.0, (sf.1 + sg.1) / 2.0);
        // The half-edge runs along the bisector with its own cell on the left.
        let (mut dx, mut dy) = (sf.1 - sg.1, sg.0 - sf.0);
        if (sf.0 - mid.0) * (-dy) + (sf.1 - mid.1) * dx < 0.0 {
            dx = -dx;
            dy = -dy;
        }
        let end = d.halfedges[t].origin;
        let to = if end != NIL { coords(d, end) } else { mid };
        let start = exit(to, (-dx, -dy), size);
        d.clip_ray(e, Point::new(key(start.0), key(start.1)));
    }
    let mut ring: Vec<(f64, usize)> = Vec::new();
    for v in 0..d.vertices.len() {
        let p = coords(d, v);
        if p.0 == 0.0 || p.0 == size || p.1 == 0.0 || p.1 == size {
            ring.push((perimeter(p, size), v));
        }
    }
    for c in [(0.0, 0.0), (size, 0.0), (size, size), (0.0, size)] {
        let v = d.new_vertex(Point::new(key(c.0), key(c.1)));
        ring.push((perimeter(c, size), v));
    }
    ring.sort_by(|a, b| a.0.partial_cmp(&b.0).unwrap());
    let order: Vec<usize> = ring.iter().map(|r| r.1).collect();
    let mut cells = Vec::new();
    for k in 0..order.len() {
        let (pu, pw) = (coords(d, order[k]), coords(d, order[(k + 1) % order.len()]));
        cells.push(nearest(pts, ((pu.0 + pw.0) / 2.0, (pu.1 + pw.1) / 2.0)));
    }
    assert!(d.lay_boundary(&order, &cells, outer));
    d.link_cycles();
    for f in 0..d.faces.len() {
        let first = d.first_edge_of(f).unwrap();
        d.set_outer_component(f, first);
    }
}

fn area(polygon: &[(f64, f64)]) -> f64 {
    let mut twice = 0.0;
    for i in 0..polygon.len() {
        let (p, q) = (polygon[i], polygon[(i + 1) % polygon.len()]);
        twice += p.0 * q.1 - q.0 * p.1;
    }
    twice / 2.0
}

fn check_closed_diagram(pts: &[(f64, f64)], size: f64) {
    let mut d = build(pts, size).unwrap();
    close_cells(&mut d, pts, size);
    // Euler's formula, the outer face counted.
    let (v, e, f) = (d.vertices.len() as i64, (d.halfedges.len() / 2) as i64, d.faces.len() as i64);
    assert_eq!(v - e + f, 2);
    assert_eq!(d.rays().len(), 0);
    assert_eq!(d.edges().len() as i64, e);
    let mut total = 0.0;
    for cell in d.faces() {
        let polygon: Vec<(f64, f64)> =
            d.cell_polygon(cell).iter().map(|p| (unkey(p.x), unkey(p.y))).collect();
        assert_eq!(polygon.len(), d.face_cycle(cell).len());
        assert!(polygon.len() >= 3);
        // Convex and counter-clockwise: every turn is to the left.
        for i in 0..polygon.len() {
            let (a, b, c) =
                (polygon[i], polygon[(i + 1) % polygon.len()], polygon[(i + 2) % polygon.len()]);
            assert!((b.0 - a.0) * (c.1 - b.1) - (b.1 - a.1) * (c.0 - b.0) >= -1e-9);
        }
        // Every corner is as near to the cell's own site as to any other.
        for p in polygon.iter() {
            let own = (pts[cell].0 - p.0).powi(2) + (pts[cell].1 - p.1).powi(2);
            for s in pts.iter() {
                assert!(own <= (s.0 - p.0).powi(2) + (s.1 - p.1).powi(2) + 1e-9);
            }
        }
        total += area(&polygon);
    }
    assert!((total - size * size).abs() < 1e-6);
    for e in 0..d.halfedges.len() {
        assert_eq!(d.twin(d.twin(e)), e);
        assert_eq!(d.halfedges[d.halfedges[e].next].face, d.halfedges[e].face);
    }
}

#[test]
fn closed_cells_tile_the_square() {
    check_closed_diagram(&[(1.0, 1.0), (5.0, 2.0), (3.0, 6.0)], 10.);
    check_closed_diagram(&[(5.0, 5.0), (2.0, 2.5), (8.0, 2.0), (8.5, 8.0), (1.5, 8.5)], 10.);
    check_closed_diagram(&[(2.0, 3.0), (7.0, 6.5)], 10.);
    check_closed_diagram(&[(4.0, 4.5)], 10.);
    check_closed_diagram(
        &[
            (1.0, 1.0),
            (9.0, 1.25),
            (8.75, 9.0),
            (1.25, 8.75),
            (5.0, 0.75),
            (9.25, 5.0),
            (5.5, 9.25),
            (0.75, 5.5),
            (4.5, 5.25),
        ],
        10.,
    );
}

#[test]
fn wrapper_readme_example() {
    let vor_pts = vec![(0.0, 1.0), (2.0, 3.0), (10.0, 12.0)];
    let vor_diagram = VoronoiDiagram::new(build(&vor_pts, 800.).unwrap());
    // The outer face is not skipped here, hence 4.
    assert_eq!(vor_diagram.cells().iter().count(), 4);
}

#[test]
fn three_sites_have_three_alive_faces() {
    let d = build(&[(0.0, 1.0), (2.0, 3.0), (10.0, 12.0)], 800.).unwrap();
    assert_eq!(d.faces(), vec![0, 1, 2]);
    assert_eq!(d.faces.len(), 4);
    assert_eq!(d.faces[3].site, NIL);
    assert!(!d.faces[3].alive);
}

#[test]
fn single_site_has_one_cell_and_the_outer_face() {
    let d = build(&[(0.0, 1.0)], 800.).unwrap();
    assert_eq!(d.faces(), vec![0]);
    // The lone cell is the whole square: V - E + F = 4 - 4 + 2.
    assert_eq!(d.vertices.len(), 4);
    assert_eq!(d.halfedges.len(), 8);
    assert_eq!(d.edges().len(), 4);
    assert_eq!(d.rays().len(), 0);
    let corners: Vec<(f64, f64)> =
        d.cell_polygon(0).iter().map(|p| (unkey(p.x), unkey(p.y))).collect();
    assert_eq!(corners, vec![(0.0, 0.0), (800.0, 0.0), (800.0, 800.0), (0.0, 800.0)]);
    let outer: Vec<(f64, f64)> =
        d.cell_polygon(1).iter().map(|p| (unkey(p.x), unkey(p.y))).collect();
    assert_eq!(outer, vec![(0.0, 0.0), (0.0, 800.0), (800.0, 800.0), (800.0, 0.0)]);
    for e in 0..8 {
        assert_eq!(d.twin(d.twin(e)), e);
        assert_eq!(d.halfedges[d.halfedges[e].next].origin, d.halfedges[d.twin(e)].origin);
    }
    let diagram = VoronoiDiagram::new(d);
    let cells = diagram.cells();
    assert_eq!(cells.len(), 2);
    assert_eq!(cells[0].points.len(), 4);
}

#[test]
fn keys_order_as_their_coordinates() {
    let values = [-800.0, -1.5, -1e-300, 0.0, 1e-300, 0.5, 1.0, 12.0, 800.0];
    for w in values.windows(2) {
        assert!(key(w[0]) < key(w[1]));
    }
    assert_eq!(key(0.0), 0);
    assert_eq!(key(-0.0), 0);
    for v in values.iter() {
        assert_eq!(unkey(key(*v)), *v);
    }
}

#[test]
fn three_sites_meet_in_their_circumcentre() {
    let d = build(&[(1.0, 1.0), (5.0, 2.0), (3.0, 6.0)], 10.).unwrap();
    assert_eq!(d.vertices.len(), 1);
    let v = d.vertices[0].coordinates;
    assert!((unkey(v.x) - 92.0 / 36.0).abs() < 1e-9);
    assert!((unkey(v.y) - (27.0 - 8.0 * 92.0 / 36.0) / 2.0).abs() < 1e-9);
    // One pair per site event after the first, one pair for the circle event.
    assert_eq!(d.halfedges.len(), 2 * (1 + 1 + 1));
    // Two traces end at the vertex and the new edge leaves it: three rays.
    let resolved = d.halfedges.iter().filter(|h| h.origin == 0).count();
    assert_eq!(resolved, 3);
    assert_eq!(d.rays().len(), 3);
    assert_eq!(d.edges().len(), 0);
    for e in d.rays() {
        assert_eq!(d.halfedges[d.twin(e)].origin, 0);
    }
    // Each of the three cells lies along two of the three edges.
    for f in 0..3 {
        assert_eq!(d.halfedges.iter().filter(|h| h.face == f).count(), 2);
    }
}

#[test]
fn four_sites_on_a_square_with_centre_give_four_vertices() {
    let pts = [(5.0, 5.0), (2.0, 2.5), (8.0, 2.0), (8.5, 8.0), (1.5, 8.5)];
    let d = build(&pts, 10.).unwrap();
    assert_eq!(d.faces().len(), 5);
    assert_eq!(d.vertices.len(), 4);
    // Four edges bound the middle cell, four rays run to the square.
    assert_eq!(d.halfedges.len(), 16);
    assert_eq!(d.edges().len(), 4);
    assert_eq!(d.rays().len(), 4);
    assert_eq!(d.halfedges.iter().filter(|h| h.face == 0).count(), 4);
    assert!(d.halfedges.iter().filter(|h| h.face == 0).all(|h| h.origin != NIL));
    for v in d.vertices.iter() {
        let (x, y) = (unkey(v.coordinates.x), unkey(v.coordinates.y));
        let mut dist: Vec<f64> =
            pts.iter().map(|p| ((p.0 - x).powi(2) + (p.1 - y).powi(2)).sqrt()).collect();
        dist.sort_by(|a, b| a.partial_cmp(b).unwrap());
        assert!((dist[0] - dist[2]).abs() < 1e-9);
    }
}

#[test]
fn building_twice_gives_the_same_diagram() {
    let pts = [(5.0, 5.0), (2.0, 2.5), (8.0, 2.0), (8.5, 8.0), (1.5, 8.5)];
    let a = build(&pts, 10.).unwrap();
    let b = build(&pts, 10.).unwrap();
    assert_eq!(a.vertices, b.vertices);
    assert_eq!(a.halfedges, b.halfedges);
    assert_eq!(a.faces, b.faces);
}

#[test]
fn invalid_inputs_are_refused() {
    assert_eq!(build(&[], 800.).unwrap_err(), SweepError::InvalidInput);
    assert_eq!(build(&[(1.0, 1.0)], 0.).unwrap_err(), SweepError::InvalidInput);
    assert_eq!(build(&[(1.0, 1.0)], -5.).unwrap_err(), SweepError::InvalidInput);
    assert_eq!(build(&[(1.0, 1.0), (9.0, 3.0)], 9.).unwrap_err(), SweepError::InvalidInput);
    assert_eq!(build(&[(-1.0, 1.0)], 9.).unwrap_err(), SweepError::InvalidInput);
    assert!(build(&[(0.0, 1.0), (8.5, 3.0)], 9.).is_ok());
}

fn centroid(polygon: &[(f64, f64)]) -> (f64, f64) {
    let (mut cx, mut cy) = (0.0, 0.0);
    for i in 0..polygon.len() {
        let (p, q) = (polygon[i], polygon[(i + 1) % polygon.len()]);
        let w = p.0 * q.1 - q.0 * p.1;
        cx += (p.0 + q.0) * w;
        cy += (p.1 + q.1) * w;
    }
    (cx / (6.0 * area(polygon)), cy / (6.0 * area(polygon)))
}

// One relaxation pass, and the sum of squared distances of the sites to the
// centroids of their cells before it.
fn relax(pts: &[(f64, f64)], size: f64) -> (Vec<(f64, f64)>, f64) {
    let mut d = build(pts, size).unwrap();
    close_cells(&mut d, pts, size);
    let mut centroids = vec![None; pts.len()];
    let mut energy = 0.0;
    for cell in d.faces() {
        let polygon: Vec<(f64, f64)> =
            d.cell_polygon(cell).iter().map(|p| (unkey(p.x), unkey(p.y))).collect();
        let c = centroid(&polygon);
        energy += (c.0 - pts[cell].0).powi(2) + (c.1 - pts[cell].1).powi(2);
        centroids[cell] = Some(Point::new(key(c.0), key(c.1)));
    }
    let sites: Vec<Point> = pts.iter().map(|p| Point::new(key(p.0), key(p.1))).collect();
    let moved = relocate(&sites, &centroids).iter().map(|p| (unkey(p.x), unkey(p.y))).collect();
    (moved, energy)
}

#[test]
fn relaxation_passes_do_not_increase_the_energy() {
    let mut pts = vec![(5.0, 5.0), (2.0, 2.5), (8.0, 2.0), (8.5, 8.0), (1.5, 8.5)];
    let mut last = f64::INFINITY;
    for _ in 0..4 {
        let (moved, energy) = relax(&pts, 10.);
        assert!(energy <= last + 1e-9);
        last = energy;
        pts = moved;
    }
    assert!(last < 1.0);
}
