//! Ray picking against the cloth mesh.
use vstd::prelude::*;
use crate::grid::{grid_index, lemma_cell_order, triangle_of};
use crate::math::{Real, Vector};
use crate::particle::Particle;

verus! {

/// A half line from `origin` along `direction`.
pub struct Ray<V: Vector> {
    pub origin: V,
    pub direction: V,
}

impl<V: Vector> Ray<V> {
    pub fn new(origin: V, direction: V) -> (r: Self)
        ensures
            r.origin == origin,
            r.direction == direction,
    {
        Ray { origin, direction }
    }
}

/// Grid coordinate reported for a hit on triangle `second` of the quad at
/// `(x, y)`: the first listed corner of that triangle.
pub open spec fn reported_corner(x: int, y: int, second: bool) -> (int, int) {
    if second {
        (x + 1, y + 1)
    } else {
        (x + 1, y)
    }
}

/// `(gx, gy)` is the first listed corner of some triangle of a
/// `cols x rows` lattice.
pub open spec fn is_reported_corner(cols: int, rows: int, gx: int, gy: int) -> bool {
    exists|x: int, y: int, second: bool|
        0 <= x < cols - 1 && 0 <= y < rows - 1 && #[trigger] reported_corner(x, y, second) == (
        gx,
        gy,
        )
}

/// Distance along `ray` (in units of its direction) at which it crosses the
/// triangle `v0, v1, v2`, by the Moller-Trumbore test: with
/// `e1 = v1 - v0`, `e2 = v2 - v0`, `h = dir x e2`, `a = e1 . h`,
/// `s = origin - v0`, `q = s x e1`, the barycentric coordinates are
/// `u = (s . h) / a` and `v = (dir . q) / a` and the distance is
/// `t = (e2 . q) / a`. `None` when the ray runs parallel to the plane
/// (`|a| < 1e-6`), misses the triangle (`u < 0`, `u > 1`, `v < 0` or
/// `u + v > 1`), or crosses it no further than `1e-6` along.
pub open spec fn ray_triangle_spec<V: Vector>(ray: Ray<V>, v0: V, v1: V, v2: V) -> Option<V::Scalar> {
    let zero = V::Scalar::spec_zero();
    let one = V::Scalar::spec_one();
    let epsilon = one.spec_over(V::Scalar::spec_from_count(1_000_000));
    let edge1 = v1.spec_minus(v0);
    let edge2 = v2.spec_minus(v0);
    let h = ray.direction.spec_cross(edge2);
    let a = edge1.spec_dot(h);
    if a.spec_absolute().spec_less_than(epsilon) {
        None
    } else {
        let f = one.spec_over(a);
        let s = ray.origin.spec_minus(v0);
        let u = f.spec_times(s.spec_dot(h));
        if u.spec_less_than(zero) || one.spec_less_than(u) {
            None
        } else {
            let q = s.spec_cross(edge1);
            let v = f.spec_times(ray.direction.spec_dot(q));
            if v.spec_less_than(zero) || one.spec_less_than(u.spec_plus(v)) {
                None
            } else {
                let t = f.spec_times(edge2.spec_dot(q));
                if epsilon.spec_less_than(t) {
                    Some(t)
                } else {
                    None
                }
            }
        }
    }
}

/// The Moller-Trumbore test of [`ray_triangle_spec`].
pub fn ray_triangle<V: Vector>(ray: &Ray<V>, v0: &V, v1: &V, v2: &V) -> (r: Option<V::Scalar>)
    ensures
        r == ray_triangle_spec(*ray, *v0, *v1, *v2),
{
    let zero = V::Scalar::zero();
    let one = V::Scalar::one();
    let epsilon = one.over(&V::Scalar::from_count(1_000_000));
    let edge1 = v1.minus(v0);
    let edge2 = v2.minus(v0);
    let h = ray.direction.cross(&edge2);
    let a = edge1.dot(&h);
    if a.absolute().less_than(&epsilon) {
        return None;
    }
    let f = one.over(&a);
    let s = ray.origin.minus(v0);
    let u = f.times(&s.dot(&h));
    if u.less_than(&zero) || one.less_than(&u) {
        return None;
    }
    let q = s.cross(&edge1);
    let v = f.times(&ray.direction.dot(&q));
    if v.less_than(&zero) || one.less_than(&u.plus(&v)) {
        return None;
    }
    let t = f.times(&edge2.dot(&q));
    if epsilon.less_than(&t) {
        Some(t)
    } else {
        None
    }
}

/// No entry after `i` holds a distance below that of entry `i`.
pub open spec fn no_later_nearer<S: Real>(hits: Seq<Option<S>>, i: int) -> bool {
    forall|j: int|
        i < j < hits.len() && (#[trigger] hits[j]) is Some ==> !hits[j]->0.spec_less_than(hits[i]->0)
}

/// Position of the nearest hit in `hits`: the entry with the smallest
/// distance, the first of them on a tie. `None` exactly when no entry holds
/// a distance.
pub fn nearest_index<S: Real>(hits: &Vec<Option<S>>) -> (r: Option<usize>)
    ensures
        r is None <==> forall|i: int| 0 <= i < hits@.len() ==> (#[trigger] hits@[i]) is None,
        r matches Some(i) ==> i < hits@.len() && hits@[i as int] is Some && no_later_nearer(
            hits@,
            i as int,
        ),
{
    let mut best: Option<usize> = None;
    let mut k: usize = 0;
    while k < hits.len()
        invariant
            k <= hits@.len(),
            best is None <==> forall|i: int| 0 <= i < k ==> (#[trigger] hits@[i]) is None,
            best matches Some(i) ==> i < k && hits@[i as int] is Some && forall|j: int|
                i < j < k && (#[trigger] hits@[j]) is Some ==> !hits@[j]->0.spec_less_than(
                    hits@[i as int]->0,
                ),
        decreases hits@.len() - k,
    {
        if let Some(t) = hits[k] {
            best = match best {
                None => Some(k),
                Some(b) => match hits[b] {
                    Some(bt) => {
                        if t.less_than(&bt) {
                            Some(k)
                        } else {
                            Some(b)
                        }
                    },
                    None => Some(k),
                },
            };
        }
        k = k + 1;
    }
    best
}

/// Grid coordinate reported for triangle `t` of the mesh, the triangles
/// taken two per quad, quads column by column.
pub open spec fn triangle_corner(rows: int, t: int) -> (int, int) {
    let q = t / 2;
    reported_corner(q / (rows - 1), q % (rows - 1), t % 2 == 1)
}

/// The coordinate reported for triangle `t`.
pub fn corner_of_triangle(cols: usize, rows: usize, t: usize) -> (r: (usize, usize))
    requires
        cols >= 2,
        rows >= 2,
        t < 2 * (cols - 1) * (rows - 1),
    ensures
        (r.0 as int, r.1 as int) == triangle_corner(rows as int, t as int),
        is_reported_corner(cols as int, rows as int, r.0 as int, r.1 as int),
{
    let q = t / 2;
    let x = q / (rows - 1);
    let y = q % (rows - 1);
    proof {
        let h = (rows - 1) as int;
        let qi = q as int;
        let xi = x as int;
        assert(qi < (cols - 1) * h) by (nonlinear_arith)
            requires
                qi == t / 2,
                t < 2 * (cols - 1) * h,
        ;
        assert(xi < cols - 1) by (nonlinear_arith)
            requires
                h > 0,
                xi == qi / h,
                0 <= qi < (cols - 1) * h,
        ;
        let second = t % 2 == 1;
        assert(reported_corner(x as int, y as int, second) == triangle_corner(rows as int, t as int));
    }
    if t % 2 == 1 {
        (x + 1, y + 1)
    } else {
        (x + 1, y)
    }
}

/// The test of `ray` against triangle `t` of the mesh (two per quad, quads
/// column by column).
pub open spec fn triangle_hit<V: Vector>(
    ps: Seq<Particle<V>>,
    cols: int,
    rows: int,
    ray: Ray<V>,
    t: int,
) -> Option<V::Scalar> {
    let q = t / 2;
    let tri = triangle_of(cols, q / (rows - 1), q % (rows - 1), t % 2 == 1);
    ray_triangle_spec(ray, ps[tri.0].position, ps[tri.1].position, ps[tri.2].position)
}

/// The test of `ray` against every triangle of the mesh, in mesh order.
pub open spec fn mesh_hits<V: Vector>(ps: Seq<Particle<V>>, cols: int, rows: int, ray: Ray<V>) -> Seq<
    Option<V::Scalar>,
> {
    Seq::new((2 * (cols - 1) * (rows - 1)) as nat, |t: int| triangle_hit(ps, cols, rows, ray, t))
}

/// What picking reports for the hits `hits`: `None` when no triangle is
/// hit, otherwise the reported corner of a hit triangle that no later
/// triangle undercuts.
pub open spec fn picks<S: Real>(hits: Seq<Option<S>>, rows: int, r: Option<(usize, usize)>) -> bool {
    &&& (r is None <==> forall|t: int| 0 <= t < hits.len() ==> (#[trigger] hits[t]) is None)
    &&& (r matches Some((gx, gy)) ==> exists|t: int|
        0 <= t < hits.len() && (#[trigger] hits[t]) is Some && no_later_nearer(hits, t) && (
        gx as int,
        gy as int,
        ) == triangle_corner(rows, t))
}

/// Tests `ray` against both triangles of every quad and reports the first
/// listed corner of the nearest triangle hit; the earlier triangle wins a tie.
pub fn nearest_hit<V: Vector>(particles: &Vec<Particle<V>>, cols: usize, rows: usize, ray: &Ray<V>) -> (r:
    Option<(usize, usize)>)
    requires
        cols >= 2,
        rows >= 2,
        particles.len() == cols * rows,
        6 * cols * rows <= usize::MAX,
    ensures
        picks(mesh_hits(particles@, cols as int, rows as int, *ray), rows as int, r),
        r matches Some((gx, gy)) ==> is_reported_corner(cols as int, rows as int, gx as int, gy as int),
{
    let ghost c = cols as int;
    let ghost rr = rows as int;
    proof {
        assert(cols * rows <= 6 * cols * rows) by (nonlinear_arith)
            requires
                cols >= 2,
                rows >= 2,
        ;
        assert(2 * (cols - 1) * (rows - 1) <= 6 * cols * rows) by (nonlinear_arith)
            requires
                cols >= 2,
                rows >= 2,
        ;
    }
    let mut hits: Vec<Option<V::Scalar>> = Vec::new();
    let mut x: usize = 0;
    while x < cols - 1
        invariant
            x <= cols - 1,
            cols >= 2,
            rows >= 2,
            particles.len() == cols * rows,
            cols * rows <= usize::MAX,
            hits@.len() == 2 * (x * (rows - 1)),
            c == cols,
            rr == rows,
            forall|t: int|
                0 <= t < hits@.len() ==> #[trigger] hits@[t] == triangle_hit(particles@, c, rr, *ray, t),
        decreases cols - x,
    {
        let mut y: usize = 0;
        while y < rows - 1
            invariant
                x < cols - 1,
                y <= rows - 1,
                cols >= 2,
                rows >= 2,
                particles.len() == cols * rows,
                cols * rows <= usize::MAX,
                hits@.len() == 2 * (x * (rows - 1) + y),
                c == cols,
                rr == rows,
                forall|t: int|
                    0 <= t < hits@.len() ==> #[trigger] hits@[t] == triangle_hit(
                        particles@,
                        c,
                        rr,
                        *ray,
                        t,
                    ),
            decreases rows - y,
        {
            let right = grid_index(cols, rows, x + 1, y);
            let here = grid_index(cols, rows, x, y);
            let below = grid_index(cols, rows, x, y + 1);
            let corner = grid_index(cols, rows, x + 1, y + 1);
            let ghost n = x * (rows - 1) + y;
            proof {
                lemma_cell_order(2 * n, 2, n, 0);
                lemma_cell_order(2 * n + 1, 2, n, 1);
                lemma_cell_order(n, rr - 1, x as int, y as int);
            }
            hits.push(
                ray_triangle(
                    ray,
                    &particles[right].position,
                    &particles[here].position,
                    &particles[below].position,
                ),
            );
            hits.push(
                ray_triangle(
                    ray,
                    &particles[corner].position,
                    &particles[right].position,
                    &particles[below].position,
                ),
            );
            y = y + 1;
        }
        proof {
            assert(x * (rows - 1) + (rows - 1) == (x + 1) * (rows - 1)) by (nonlinear_arith);
        }
        x = x + 1;
    }
    proof {
        assert(2 * ((cols - 1) * (rows - 1)) == 2 * (cols - 1) * (rows - 1)) by (nonlinear_arith);
    }
    proof {
        assert(hits@ =~= mesh_hits(particles@, c, rr, *ray));
    }
    match nearest_index(&hits) {
        Some(t) => {
            let r = corner_of_triangle(cols, rows, t);
            proof {
                let h = mesh_hits(particles@, c, rr, *ray);
                assert(h[t as int] is Some && no_later_nearer(h, t as int));
            }
            Some(r)
        },
        None => None,
    }
}

} // verus!
