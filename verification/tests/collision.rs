use grapes::linal::rank::rank_of_bits;
use grapes::objects::collision::epa::{contact_pairs, first_least, Polytope, EPA_MAX_ITERS};
use grapes::objects::collision::gjk::{first_greatest, Probe, Region, Simplex};

// ---- the kernel on its own ----

#[test]
fn simplex_grows_from_point_to_triangle() {
    let mut s = Simplex::seed('c');
    assert_eq!(s.len(), 1);
    assert_eq!(s.offer('b', true), Probe::Segment);
    assert_eq!(s.vertices(), &vec!['c', 'b']);
    assert_eq!(s.offer('a', true), Probe::Triangle);
    assert_eq!(s.vertices(), &vec!['c', 'b', 'a']);
    assert_eq!(s.len(), 3);
}

#[test]
fn a_point_short_of_the_origin_ends_the_search() {
    let mut s = Simplex::seed(1);
    assert_eq!(s.offer(2, false), Probe::Apart);
    assert_eq!(s.vertices(), &vec![1]);
    assert_eq!(s.offer(3, true), Probe::Segment);
    assert_eq!(s.offer(4, false), Probe::Apart);
    assert_eq!(s.vertices(), &vec![1, 3]);
}

#[test]
fn origin_beyond_ab_drops_the_oldest_vertex() {
    let mut s = Simplex::seed('c');
    s.offer('b', true);
    s.offer('a', true);
    assert_eq!(s.reduce(true, false), Region::BeyondAb);
    assert_eq!(s.into_vertices(), vec!['b', 'a']);
}

#[test]
fn origin_beyond_ac_drops_the_middle_vertex() {
    let mut s = Simplex::seed('c');
    s.offer('b', true);
    s.offer('a', true);
    assert_eq!(s.reduce(false, true), Region::BeyondAc);
    assert_eq!(s.into_vertices(), vec!['c', 'a']);
}

#[test]
fn the_test_of_ab_is_looked_at_first() {
    let mut s = Simplex::seed('c');
    s.offer('b', true);
    s.offer('a', true);
    assert_eq!(s.reduce(true, true), Region::BeyondAb);
    assert_eq!(s.into_vertices(), vec!['b', 'a']);
}

#[test]
fn origin_inside_keeps_the_triangle() {
    let mut s = Simplex::seed('c');
    s.offer('b', true);
    s.offer('a', true);
    assert_eq!(s.reduce(false, false), Region::Inside);
    assert_eq!(s.into_vertices(), vec!['c', 'b', 'a']);
}

#[test]
fn a_reduced_simplex_takes_the_next_point() {
    let mut s = Simplex::seed(0);
    s.offer(1, true);
    s.offer(2, true);
    s.reduce(false, true);
    assert_eq!(s.offer(3, true), Probe::Triangle);
    assert_eq!(s.vertices(), &vec![0, 2, 3]);
}

#[test]
fn polytope_needs_three_vertices() {
    assert!(Polytope::<u8>::begin(vec![]).is_none());
    assert!(Polytope::begin(vec![1]).is_none());
    assert!(Polytope::begin(vec![1, 2]).is_none());
    let p = Polytope::begin(vec![1, 2, 3]).unwrap();
    assert_eq!(p.len(), 3);
    assert_eq!(p.vertices(), &vec![1, 2, 3]);
    assert!(p.may_expand());
}

#[test]
fn edges_close_the_polygon() {
    let p = Polytope::begin(vec!['a', 'b', 'c', 'd']).unwrap();
    assert_eq!(p.edge_end(0), 1);
    assert_eq!(p.edge_end(1), 2);
    assert_eq!(p.edge_end(2), 3);
    assert_eq!(p.edge_end(3), 0);
}

#[test]
fn expand_puts_the_point_where_the_edge_ends() {
    let mut p = Polytope::begin(vec!['a', 'b', 'c']).unwrap();
    p.expand(0, 'x');
    assert_eq!(p.vertices(), &vec!['a', 'x', 'b', 'c']);
    p.expand(3, 'y');
    // the edge from the last vertex ends at the first
    assert_eq!(p.vertices(), &vec!['y', 'a', 'x', 'b', 'c']);
    p.expand(2, 'z');
    assert_eq!(p.vertices(), &vec!['y', 'a', 'x', 'z', 'b', 'c']);
    assert_eq!(p.len(), 6);
}

#[test]
fn a_search_has_sixty_four_rounds() {
    assert_eq!(EPA_MAX_ITERS, 64);
    let mut p = Polytope::begin(vec![0usize, 1, 2]).unwrap();
    let mut rounds = 0;
    while p.may_expand() {
        p.expand(rounds % p.len(), 100 + rounds);
        rounds += 1;
    }
    assert_eq!(rounds, 64);
    assert_eq!(p.len(), 3 + 64);
}

#[test]
fn one_or_two_contact_pairs() {
    assert_eq!(contact_pairs((1, 2), (3, 4), true, true), vec![(1, 2), (3, 4)]);
    assert_eq!(contact_pairs((1, 2), (3, 4), true, false), vec![(1, 2)]);
    assert_eq!(contact_pairs((1, 2), (3, 4), false, true), vec![(1, 2)]);
    assert_eq!(contact_pairs((1, 2), (3, 4), false, false), vec![(1, 2)]);
}

#[test]
fn first_greatest_takes_the_first_of_equals() {
    assert_eq!(first_greatest(&[]), 0);
    assert_eq!(first_greatest(&[5]), 0);
    assert_eq!(first_greatest(&[1, 3, 2]), 1);
    assert_eq!(first_greatest(&[1, 3, 3, 2, 3]), 1);
    assert_eq!(first_greatest(&[i32::MIN, i32::MIN]), 0);
    assert_eq!(first_greatest(&[i32::MIN, -5, i32::MAX, i32::MAX]), 2);
    assert_eq!(first_greatest(&[-1, -2, -3]), 0);
}

#[test]
fn first_least_takes_the_first_of_equals() {
    assert_eq!(first_least(&[]), 0);
    assert_eq!(first_least(&[5]), 0);
    assert_eq!(first_least(&[3, 1, 2]), 1);
    assert_eq!(first_least(&[3, 1, 1, 2, 1]), 1);
    assert_eq!(first_least(&[i32::MAX, i32::MAX]), 0);
    assert_eq!(first_least(&[i32::MAX, 5, i32::MIN, i32::MIN]), 2);
    assert_eq!(first_least(&[1, 2, 3]), 0);
}

// ---- the kernel under single-precision geometry ----

fn rising_key(x: f32) -> i32 {
    if x.is_nan() || x == f32::NEG_INFINITY {
        i32::MIN
    } else {
        rank_of_bits(x.to_bits())
    }
}

fn falling_key(x: f32) -> i32 {
    if x.is_nan() || x == f32::INFINITY {
        i32::MAX
    } else {
        rank_of_bits(x.to_bits())
    }
}

#[derive(Clone, Copy, Debug, PartialEq)]
struct P {
    x: f32,
    y: f32,
}

fn p(x: f32, y: f32) -> P {
    P { x, y }
}

fn sub(a: P, b: P) -> P {
    p(a.x - b.x, a.y - b.y)
}

fn neg(a: P) -> P {
    p(-a.x, -a.y)
}

fn dot(a: P, b: P) -> f32 {
    a.x * b.x + a.y * b.y
}

fn length(a: P) -> f32 {
    (a.x * a.x + a.y * a.y).sqrt()
}

fn lerp(a: P, b: P, t: f32) -> P {
    p(a.x + (b.x - a.x) * t, a.y + (b.y - a.y) * t)
}

#[derive(Clone, Debug)]
enum Shape {
    Polygon(Vec<P>),
    Circle(P, f32),
}

fn rectangle(cx: f32, cy: f32, w: f32, h: f32) -> Shape {
    let (wo, ho) = (w * 0.5, h * 0.5);
    Shape::Polygon(vec![
        p(cx - wo, cy + ho),
        p(cx + wo, cy + ho),
        p(cx + wo, cy - ho),
        p(cx - wo, cy - ho),
    ])
}

fn vertices(s: &Shape) -> Vec<P> {
    match s {
        Shape::Polygon(v) => v.clone(),
        Shape::Circle(c, _) => vec![*c],
    }
}

fn support(s: &Shape, dir: P) -> P {
    match s {
        Shape::Polygon(v) => {
            let keys: Vec<i32> = v.iter().map(|q| rising_key(dot(dir, *q))).collect();
            v[first_greatest(&keys)]
        }
        Shape::Circle(c, r) => {
            if dir.x.abs() < f32::EPSILON && dir.y.abs() < f32::EPSILON {
                return p(c.x + r, c.y);
            }
            let l = length(dir);
            p(c.x + dir.x / l * r, c.y + dir.y / l * r)
        }
    }
}

#[derive(Clone, Copy, Debug)]
struct M {
    v: P,
    a: P,
    b: P,
}

fn minkowski(a: &Shape, b: &Shape, dir: P) -> M {
    let sa = support(a, dir);
    let sb = support(b, neg(dir));
    M {
        v: sub(sa, sb),
        a: sa,
        b: sb,
    }
}

fn triple(a: P, b: P, c: P) -> P {
    let cross = a.x * b.y - a.y * b.x;
    p(-c.y * cross, c.x * cross)
}

fn toward_origin(edge: P, ao: P) -> P {
    let perp = triple(edge, ao, edge);
    if perp.x.abs() < f32::EPSILON && perp.y.abs() < f32::EPSILON {
        let alt = p(-edge.y, edge.x);
        if dot(alt, ao) < 0.0 {
            return neg(alt);
        }
        return alt;
    }
    perp
}

fn mean(points: &[P]) -> P {
    let mut sum = p(0.0, 0.0);
    for q in points {
        sum.x += q.x;
        sum.y += q.y;
    }
    p(sum.x / points.len() as f32, sum.y / points.len() as f32)
}

/// The triangle around the origin where the shapes overlap. Gives up with a
/// panic after a thousand rounds.
fn search(a: &Shape, b: &Shape) -> Option<Vec<M>> {
    let mut dir = sub(mean(&vertices(a)), mean(&vertices(b)));
    if dir.x == 0.0 && dir.y == 0.0 {
        dir = p(1.0, 0.0);
    }
    let first = minkowski(a, b, dir);
    let mut simplex = Simplex::seed(first);
    dir = neg(first.v);
    for _ in 0..1000 {
        let next = minkowski(a, b, dir);
        let passes_origin = !(dot(next.v, dir) <= 0.0);
        match simplex.offer(next, passes_origin) {
            Probe::Apart => return None,
            Probe::Segment => {
                let v = simplex.vertices();
                let (a1, b1) = (v[1].v, v[0].v);
                dir = toward_origin(sub(b1, a1), neg(a1));
            }
            Probe::Triangle => {
                let v = simplex.vertices();
                let (a1, b1, c1) = (v[2].v, v[1].v, v[0].v);
                let ao = neg(a1);
                let ab = sub(b1, a1);
                let ac = sub(c1, a1);
                let perp_ab = triple(ac, ab, ab);
                let perp_ac = triple(ab, ac, ac);
                match simplex.reduce(dot(perp_ab, ao) > 0.0, dot(perp_ac, ao) > 0.0) {
                    Region::BeyondAb => dir = perp_ab,
                    Region::BeyondAc => dir = perp_ac,
                    Region::Inside => return Some(simplex.into_vertices()),
                }
            }
        }
    }
    panic!("the search did not end");
}

fn overlap(a: &Shape, b: &Shape) -> bool {
    search(a, b).is_some()
}

struct Hit {
    normal: P,
    depth: f32,
    contacts: Vec<(P, P)>,
}

fn penetration(mut simplex: Vec<M>, a: &Shape, b: &Shape) -> Option<Hit> {
    let points: Vec<P> = simplex.iter().map(|m| m.v).collect();
    let c = if points.is_empty() { p(0.0, 0.0) } else { mean(&points) };
    simplex.sort_by(|m, n| {
        let am = (m.v.y - c.y).atan2(m.v.x - c.x);
        let an = (n.v.y - c.y).atan2(n.v.x - c.x);
        am.partial_cmp(&an).unwrap()
    });
    let mut poly = Polytope::begin(simplex)?;
    while poly.may_expand() {
        let mut edges: Vec<(P, f32)> = Vec::new();
        let mut keys: Vec<i32> = Vec::new();
        for i in 0..poly.len() {
            let j = poly.edge_end(i);
            let vi = poly.vertices()[i].v;
            let edge = sub(poly.vertices()[j].v, vi);
            let mut n = p(-edge.y, edge.x);
            let l = length(n);
            if l.abs() < f32::EPSILON {
                edges.push((p(0.0, 0.0), f32::INFINITY));
                keys.push(i32::MAX);
                continue;
            }
            n = p(n.x / l, n.y / l);
            let mut d = dot(n, vi);
            if d < 0.0 {
                n = neg(n);
                d = -d;
            }
            edges.push((n, d));
            keys.push(falling_key(d));
        }
        let mut best_i = first_least(&keys);
        let (mut best_n, mut best_d) = edges[best_i];
        if keys[best_i] == i32::MAX {
            best_i = 0;
            best_n = p(0.0, 0.0);
            best_d = f32::INFINITY;
        }
        let j = poly.edge_end(best_i);
        let found = minkowski(a, b, best_n);
        if dot(best_n, found.v) - best_d < 1e-6 {
            let v0 = poly.vertices()[best_i];
            let v1 = poly.vertices()[j];
            let seg = sub(v1.v, v0.v);
            let denom = dot(seg, seg);
            let t = if denom.abs() < f32::EPSILON {
                0.0
            } else {
                (dot(neg(v0.v), seg) / denom).clamp(0.0, 1.0)
            };
            let on_a = lerp(v0.a, v1.a, t);
            let on_b = lerp(v0.b, v1.b, t);
            let mut normal = best_n;
            let mut depth = dot(normal, sub(on_b, on_a));
            if depth < 0.0 {
                normal = neg(normal);
                depth = -depth;
            }
            let inside_edge = t > 1e-4 && t < 1.0 - 1e-4;
            let apart_from_ends =
                length(sub(found.v, v0.v)) > 1e-6 && length(sub(found.v, v1.v)) > 1e-6;
            let contacts = contact_pairs(
                (on_a, on_b),
                (found.a, found.b),
                inside_edge,
                apart_from_ends,
            );
            return Some(Hit {
                normal,
                depth,
                contacts,
            });
        }
        poly.expand(best_i, found);
    }
    None
}

fn resolve(a: &Shape, b: &Shape) -> Option<Hit> {
    penetration(search(a, b)?, a, b)
}

#[test]
fn search_ends_with_a_triangle() {
    let a = rectangle(0.0, 0.0, 4.0, 4.0);
    let b = rectangle(2.0, 0.0, 2.0, 2.0);
    assert_eq!(search(&a, &b).unwrap().len(), 3);
}

#[test]
fn rectangles_apart_do_not_overlap() {
    let a = rectangle(0.0, 0.0, 4.0, 4.0);
    let b = rectangle(5.0, 0.0, 2.0, 2.0);
    assert!(!overlap(&a, &b));
    assert!(resolve(&a, &b).is_none());
}

#[test]
fn rectangles_that_share_an_edge_count_as_overlapping() {
    let a = rectangle(0.0, 0.0, 4.0, 4.0);
    let b = rectangle(3.0, 0.0, 2.0, 2.0);
    assert!(overlap(&a, &b));
}

#[test]
fn rectangles_overlapping_by_one() {
    let a = rectangle(0.0, 0.0, 4.0, 4.0);
    let b = rectangle(2.0, 0.0, 2.0, 2.0);
    assert!(overlap(&a, &b));
    let hit = resolve(&a, &b).unwrap();
    assert!((hit.normal.x.abs() - 1.0).abs() < 1e-4);
    assert!(hit.normal.y.abs() < 1e-4);
    assert!((hit.depth - 1.0).abs() < 1e-4);
    assert!(hit.contacts.len() == 1 || hit.contacts.len() == 2);
}

#[test]
fn rectangles_overlapping_by_half() {
    let a = rectangle(0.0, 0.0, 4.0, 4.0);
    let b = rectangle(2.5, 0.0, 2.0, 2.0);
    let hit = resolve(&a, &b).unwrap();
    assert!((hit.normal.x.abs() - 1.0).abs() < 1e-4);
    assert!((hit.depth - 0.5).abs() < 1e-4);
}

#[test]
fn overlap_gives_a_unit_normal_and_a_depth_that_is_not_negative() {
    let a = rectangle(0.0, 0.0, 4.0, 4.0);
    let others = [
        rectangle(2.5, 0.3, 2.0, 2.0),
        rectangle(1.5, 0.25, 2.0, 2.0),
        rectangle(0.5, 2.5, 2.0, 2.0),
        rectangle(-2.25, 0.5, 2.0, 2.0),
        rectangle(2.5, 2.5, 2.0, 2.0),
        Shape::Circle(p(2.5, 0.0), 1.0),
        Shape::Circle(p(0.0, -2.5), 0.75),
    ];
    for b in &others {
        assert!(overlap(&a, b));
        let hit = resolve(&a, b).unwrap();
        assert!(hit.depth >= 0.0);
        assert!((length(hit.normal) - 1.0).abs() < 1e-4);
        assert!(hit.contacts.len() == 1 || hit.contacts.len() == 2);
    }
}

#[test]
fn overlap_does_not_depend_on_the_order_of_the_shapes() {
    let shapes = [
        rectangle(0.0, 0.0, 4.0, 4.0),
        rectangle(3.0, 0.0, 2.0, 2.0),
        rectangle(5.0, 0.0, 2.0, 2.0),
        rectangle(2.5, 2.5, 2.0, 2.0),
        rectangle(-4.0, 1.0, 1.0, 6.0),
        Shape::Circle(p(0.0, 0.0), 1.0),
        Shape::Circle(p(1.5, 0.0), 1.0),
        Shape::Circle(p(2.5, 0.0), 1.0),
        Shape::Circle(p(-3.0, -3.0), 1.5),
    ];
    for a in &shapes {
        for b in &shapes {
            assert_eq!(overlap(a, b), overlap(b, a));
        }
    }
}

#[test]
fn circles_overlap_where_their_centres_are_closer_than_their_radii() {
    let cases = [
        ((0.0, 0.0), 1.0, (1.5, 0.0), 1.0),
        ((0.0, 0.0), 1.0, (2.5, 0.0), 1.0),
        ((0.0, 0.0), 2.0, (1.0, 1.0), 1.0),
        ((0.0, 0.0), 1.0, (0.0, 1.9), 1.0),
        ((3.0, 4.0), 2.5, (0.0, 0.0), 3.0),
        ((0.0, 0.0), 1.0, (0.5, 0.2), 0.25),
        ((10.0, 10.0), 5.0, (13.0, 14.0), 1.0),
        ((0.0, 0.0), 1.0, (0.0, -2.25), 1.0),
        ((-1.0, -1.0), 0.5, (1.0, 1.0), 0.5),
    ];
    for ((x1, y1), r1, (x2, y2), r2) in cases {
        let a = Shape::Circle(p(x1, y1), r1);
        let b = Shape::Circle(p(x2, y2), r2);
        let apart = length(p(x1 - x2, y1 - y2));
        assert_eq!(overlap(&a, &b), apart < r1 + r2);
        if apart < r1 + r2 {
            let hit = resolve(&a, &b).unwrap();
            assert!((hit.depth - (r1 + r2 - apart)).abs() < 1e-3);
            assert!((length(hit.normal) - 1.0).abs() < 1e-4);
        }
    }
}
