//! Operations on the whole particle array: forces, the relaxation pass, the
//! integration step and the rebuild of the normals.
use vstd::prelude::*;
use crate::grid::{grid_index, lemma_cell_order, triangle_of};
use crate::math::{Real, Vector};
use crate::particle::{
    Constraint,
    Particle,
    moved_at_most,
    normal_added_spec,
    normal_reset_spec,
    pushed_at_most,
    pushed_spec,
    satisfy_spec,
    shaded_at_most,
    stepped_spec,
};

verus! {

/// No particle of `a` that is anchored has moved or come loose in `b`.
pub open spec fn keeps_pins<V: Vector>(a: Seq<Particle<V>>, b: Seq<Particle<V>>) -> bool {
    &&& b.len() == a.len()
    &&& forall|i: int|
        #![trigger b[i]]
        0 <= i < a.len() ==> b[i].is_movable == a[i].is_movable && (!a[i].is_movable ==> b[i].position
            == a[i].position)
}

/// Only gathered forces differ between `a` and `b`.
pub open spec fn all_pushed<V: Vector>(a: Seq<Particle<V>>, b: Seq<Particle<V>>) -> bool {
    &&& b.len() == a.len()
    &&& forall|i: int| 0 <= i < a.len() ==> pushed_at_most(a[i], #[trigger] b[i])
}

/// Only positions of movable particles differ between `a` and `b`.
pub open spec fn all_moved<V: Vector>(a: Seq<Particle<V>>, b: Seq<Particle<V>>) -> bool {
    &&& b.len() == a.len()
    &&& forall|i: int| 0 <= i < a.len() ==> moved_at_most(a[i], #[trigger] b[i])
}

/// Only accumulated normals differ between `a` and `b`.
pub open spec fn all_shaded<V: Vector>(a: Seq<Particle<V>>, b: Seq<Particle<V>>) -> bool {
    &&& b.len() == a.len()
    &&& forall|i: int| 0 <= i < a.len() ==> shaded_at_most(a[i], #[trigger] b[i])
}

/// `b` is `a` after one integration step: anchor, texture coordinate and
/// normal kept, a movable particle remembering where it was.
pub open spec fn stepped_at_most<V: Vector>(a: Particle<V>, b: Particle<V>) -> bool {
    &&& b.is_movable == a.is_movable
    &&& b.tex_coords == a.tex_coords
    &&& b.accumulated_normal == a.accumulated_normal
    &&& (a.is_movable ==> b.old_position == a.position)
    &&& (!a.is_movable ==> b.position == a.position && b.old_position == a.old_position)
}

/// `b` is `a` after one integration step of every particle.
pub open spec fn all_stepped<V: Vector>(a: Seq<Particle<V>>, b: Seq<Particle<V>>) -> bool {
    &&& b.len() == a.len()
    &&& forall|i: int| 0 <= i < a.len() ==> stepped_at_most(a[i], #[trigger] b[i])
}

/// Every constraint joins two particles of an array of `n`.
pub open spec fn constraints_in_bounds<V: Vector>(cs: Seq<Constraint<V>>, n: int) -> bool {
    forall|k: int| 0 <= k < cs.len() ==> (#[trigger] cs[k]).p1 < n && cs[k].p2 < n
}

/// Preserving anchors is transitive.
pub proof fn lemma_keeps_pins_trans<V: Vector>(
    a: Seq<Particle<V>>,
    b: Seq<Particle<V>>,
    c: Seq<Particle<V>>,
)
    requires
        keeps_pins(a, b),
        keeps_pins(b, c),
    ensures
        keeps_pins(a, c),
{
    assert forall|i: int| 0 <= i < a.len() implies c[i].is_movable == a[i].is_movable && (
    !a[i].is_movable ==> c[i].position == a[i].position) by {
        assert(b[i].is_movable == a[i].is_movable);
        assert(c[i].is_movable == b[i].is_movable);
    }
}

/// Anchored particles stay where they are across any sequence of steps
/// that each keep the anchors (forces, relaxation passes, integration,
/// normal rebuilds): every state of the run keeps the anchors of the first.
pub proof fn lemma_pins_hold_over_any_sequence<V: Vector>(states: Seq<Seq<Particle<V>>>)
    requires
        forall|i: int| 0 <= i < states.len() - 1 ==> keeps_pins(#[trigger] states[i], states[i + 1]),
    ensures
        forall|j: int| 0 <= j < states.len() ==> keeps_pins(states[0], #[trigger] states[j]),
    decreases states.len(),
{
    if states.len() > 1 {
        let front = states.drop_last();
        assert forall|i: int| 0 <= i < front.len() - 1 implies keeps_pins(
            #[trigger] front[i],
            front[i + 1],
        ) by {
            assert(keeps_pins(states[i], states[i + 1]));
        }
        lemma_pins_hold_over_any_sequence(front);
        let last = states.len() - 1;
        assert forall|j: int| 0 <= j < states.len() implies keeps_pins(
            states[0],
            #[trigger] states[j],
        ) by {
            if j < last {
                assert(front[j] == states[j]);
            } else {
                assert(keeps_pins(states[0], front[last - 1]));
                assert(keeps_pins(states[last - 1], states[last]));
                lemma_keeps_pins_trans(states[0], states[last - 1], states[last]);
            }
        }
    } else if states.len() == 1 {
        assert(keeps_pins(states[0], states[0]));
    }
}

/// Each of the lattice operations keeps the anchors.
pub proof fn lemma_changes_keep_pins<V: Vector>(a: Seq<Particle<V>>, b: Seq<Particle<V>>)
    ensures
        all_pushed(a, b) ==> keeps_pins(a, b),
        all_moved(a, b) ==> keeps_pins(a, b),
        all_shaded(a, b) ==> keeps_pins(a, b),
        all_stepped(a, b) ==> keeps_pins(a, b),
{
    if all_stepped(a, b) {
        assert forall|i: int| 0 <= i < a.len() implies b[i].is_movable == a[i].is_movable && (
        !a[i].is_movable ==> b[i].position == a[i].position) by {
            assert(stepped_at_most(a[i], b[i]));
        }
    }
    if all_pushed(a, b) {
        assert forall|i: int| 0 <= i < a.len() implies b[i].is_movable == a[i].is_movable && (
        !a[i].is_movable ==> b[i].position == a[i].position) by {
            assert(pushed_at_most(a[i], b[i]));
        }
    }
    if all_moved(a, b) {
        assert forall|i: int| 0 <= i < a.len() implies b[i].is_movable == a[i].is_movable && (
        !a[i].is_movable ==> b[i].position == a[i].position) by {
            assert(moved_at_most(a[i], b[i]));
        }
    }
    if all_shaded(a, b) {
        assert forall|i: int| 0 <= i < a.len() implies b[i].is_movable == a[i].is_movable && (
        !a[i].is_movable ==> b[i].position == a[i].position) by {
            assert(shaded_at_most(a[i], b[i]));
        }
    }
}

/// Every particle with `force` added to its gathered force.
pub open spec fn push_all_spec<V: Vector>(ps: Seq<Particle<V>>, force: V) -> Seq<Particle<V>> {
    ps.map_values(|p: Particle<V>| pushed_spec(p, force))
}

/// Unnormalised normal of the triangle `p1, p2, p3`: `(p2 - p1) x (p3 - p1)`.
pub open spec fn triangle_normal_spec<V: Vector>(p1: V, p2: V, p3: V) -> V {
    p2.spec_minus(p1).spec_cross(p3.spec_minus(p1))
}

/// Wind along `dir` on a face with unnormalised normal `n`: `n * (unit(n) . dir)`.
pub open spec fn wind_force<V: Vector>(n: V, dir: V) -> V {
    n.spec_scaled(n.spec_normalized().spec_dot(dir))
}

/// The particles after the wind on triangle `a, b, c` is added to each of
/// its corners in turn.
pub open spec fn wind_triangle_spec<V: Vector>(ps: Seq<Particle<V>>, a: int, b: int, c: int, dir: V) -> Seq<
    Particle<V>,
> {
    let f = wind_force(triangle_normal_spec(ps[a].position, ps[b].position, ps[c].position), dir);
    let s1 = ps.update(a, pushed_spec(ps[a], f));
    let s2 = s1.update(b, pushed_spec(s1[b], f));
    s2.update(c, pushed_spec(s2[c], f))
}

/// Wind on both triangles of the quad at `(x, y)`.
pub open spec fn wind_quad_spec<V: Vector>(ps: Seq<Particle<V>>, cols: int, x: int, y: int, dir: V) -> Seq<
    Particle<V>,
> {
    let t0 = triangle_of(cols, x, y, false);
    let t1 = triangle_of(cols, x, y, true);
    wind_triangle_spec(wind_triangle_spec(ps, t0.0, t0.1, t0.2, dir), t1.0, t1.1, t1.2, dir)
}

/// Wind on the first `n` quads, column by column.
pub open spec fn wind_upto<V: Vector>(ps: Seq<Particle<V>>, cols: int, rows: int, dir: V, n: nat) -> Seq<
    Particle<V>,
>
    decreases n,
{
    if n == 0 {
        ps
    } else {
        wind_quad_spec(
            wind_upto(ps, cols, rows, dir, (n - 1) as nat),
            cols,
            (n - 1) / (rows - 1),
            (n - 1) % (rows - 1),
            dir,
        )
    }
}

/// Wind along `dir` on every triangle of a `cols x rows` lattice.
pub open spec fn wind_spec<V: Vector>(ps: Seq<Particle<V>>, cols: int, rows: int, dir: V) -> Seq<Particle<V>> {
    wind_upto(ps, cols, rows, dir, ((cols - 1) * (rows - 1)) as nat)
}

/// The unit normal of triangle `a, b, c` added to each of its corners in turn.
pub open spec fn shade_triangle_spec<V: Vector>(ps: Seq<Particle<V>>, a: int, b: int, c: int) -> Seq<
    Particle<V>,
> {
    let n = triangle_normal_spec(ps[a].position, ps[b].position, ps[c].position);
    let s1 = ps.update(a, normal_added_spec(ps[a], n));
    let s2 = s1.update(b, normal_added_spec(s1[b], n));
    s2.update(c, normal_added_spec(s2[c], n))
}

/// Normals of both triangles of the quad at `(x, y)`.
pub open spec fn shade_quad_spec<V: Vector>(ps: Seq<Particle<V>>, cols: int, x: int, y: int) -> Seq<
    Particle<V>,
> {
    let t0 = triangle_of(cols, x, y, false);
    let t1 = triangle_of(cols, x, y, true);
    shade_triangle_spec(shade_triangle_spec(ps, t0.0, t0.1, t0.2), t1.0, t1.1, t1.2)
}

/// Normals of the first `n` quads, column by column.
pub open spec fn shade_upto<V: Vector>(ps: Seq<Particle<V>>, cols: int, rows: int, n: nat) -> Seq<Particle<V>>
    decreases n,
{
    if n == 0 {
        ps
    } else {
        shade_quad_spec(
            shade_upto(ps, cols, rows, (n - 1) as nat),
            cols,
            (n - 1) / (rows - 1),
            (n - 1) % (rows - 1),
        )
    }
}

/// The normal rebuild: every accumulated normal cleared, then each
/// particle given the sum of the unit normals of the triangles it is a
/// corner of.
pub open spec fn shade_spec<V: Vector>(ps: Seq<Particle<V>>, cols: int, rows: int) -> Seq<Particle<V>> {
    shade_upto(
        ps.map_values(|p: Particle<V>| normal_reset_spec(p)),
        cols,
        rows,
        ((cols - 1) * (rows - 1)) as nat,
    )
}

/// The first `k` constraints applied in order.
pub open spec fn pass_upto<V: Vector>(ps: Seq<Particle<V>>, cs: Seq<Constraint<V>>, k: nat) -> Seq<
    Particle<V>,
>
    decreases k,
{
    if k == 0 {
        ps
    } else {
        satisfy_spec(pass_upto(ps, cs, (k - 1) as nat), cs[k - 1])
    }
}

/// One relaxation pass: every constraint once, in order.
pub open spec fn pass_spec<V: Vector>(ps: Seq<Particle<V>>, cs: Seq<Constraint<V>>) -> Seq<Particle<V>> {
    pass_upto(ps, cs, cs.len())
}

/// `n` relaxation passes.
pub open spec fn relax_spec<V: Vector>(ps: Seq<Particle<V>>, cs: Seq<Constraint<V>>, n: nat) -> Seq<
    Particle<V>,
>
    decreases n,
{
    if n == 0 {
        ps
    } else {
        pass_spec(relax_spec(ps, cs, (n - 1) as nat), cs)
    }
}

/// Every particle integrated over `dt`.
pub open spec fn step_all_spec<V: Vector>(ps: Seq<Particle<V>>, dt: V::Scalar, damping: V::Scalar) -> Seq<
    Particle<V>,
> {
    ps.map_values(|p: Particle<V>| stepped_spec(p, dt, damping))
}

/// A pass leaves particles in place when every constraint, taken alone,
/// leaves them in place: a configuration at rest is a fixed point of any
/// number of relaxation passes.
pub proof fn lemma_rest_is_fixed_point<V: Vector>(ps: Seq<Particle<V>>, cs: Seq<Constraint<V>>, n: nat)
    requires
        forall|k: int| 0 <= k < cs.len() ==> satisfy_spec(ps, #[trigger] cs[k]) == ps,
    ensures
        pass_spec(ps, cs) == ps,
        relax_spec(ps, cs, n) == ps,
    decreases n,
{
    lemma_pass_upto_fixed(ps, cs, cs.len());
    if n > 0 {
        lemma_rest_is_fixed_point(ps, cs, (n - 1) as nat);
    }
}

proof fn lemma_pass_upto_fixed<V: Vector>(ps: Seq<Particle<V>>, cs: Seq<Constraint<V>>, k: nat)
    requires
        k <= cs.len(),
        forall|j: int| 0 <= j < cs.len() ==> satisfy_spec(ps, #[trigger] cs[j]) == ps,
    ensures
        pass_upto(ps, cs, k) == ps,
    decreases k,
{
    if k > 0 {
        lemma_pass_upto_fixed(ps, cs, (k - 1) as nat);
        assert(satisfy_spec(ps, cs[k - 1]) == ps);
    }
}

/// Adds `force` to every particle.
pub fn push_each<V: Vector>(particles: &mut Vec<Particle<V>>, force: V)
    ensures
        final(particles)@ == push_all_spec(old(particles)@, force),
        all_pushed(old(particles)@, final(particles)@),
{
    let ghost start = particles@;
    let n = particles.len();
    let mut i: usize = 0;
    while i < n
        invariant
            i <= n,
            n == start.len(),
            particles@.len() == n,
            forall|j: int| 0 <= j < i ==> #[trigger] particles@[j] == pushed_spec(start[j], force),
            forall|j: int| i <= j < n ==> #[trigger] particles@[j] == start[j],
        decreases n - i,
    {
        particles[i].add_force(force);
        i = i + 1;
    }
    proof {
        assert(particles@ =~= push_all_spec(start, force));
    }
}

/// Unnormalised normal of the triangle `p1, p2, p3`: `(p2 - p1) x (p3 - p1)`.
pub fn triangle_normal<V: Vector>(p1: &V, p2: &V, p3: &V) -> (r: V)
    ensures
        r == triangle_normal_spec(*p1, *p2, *p3),
{
    p2.minus(p1).cross(&p3.minus(p1))
}

/// Wind on one triangle: with `n` its unnormalised normal, the force
/// `n * (unit(n) . dir)` goes to each of its three corners.
fn push_triangle<V: Vector>(particles: &mut Vec<Particle<V>>, a: usize, b: usize, c: usize, dir: &V)
    requires
        a < old(particles).len(),
        b < old(particles).len(),
        c < old(particles).len(),
    ensures
        final(particles)@ == wind_triangle_spec(old(particles)@, a as int, b as int, c as int, *dir),
        all_pushed(old(particles)@, final(particles)@),
{
    let ghost start = particles@;
    let normal = triangle_normal(&particles[a].position, &particles[b].position, &particles[c].position);
    let force = normal.scaled(&normal.normalized().dot(dir));
    particles[a].add_force(force);
    particles[b].add_force(force);
    particles[c].add_force(force);
    proof {
        assert(particles@ =~= wind_triangle_spec(start, a as int, b as int, c as int, *dir));
        assert forall|i: int| 0 <= i < start.len() implies pushed_at_most(
            start[i],
            #[trigger] particles@[i],
        ) by {}
    }
}

/// Wind along `dir` on every triangle of a `cols x rows` lattice.
pub fn push_wind<V: Vector>(particles: &mut Vec<Particle<V>>, cols: usize, rows: usize, dir: &V)
    requires
        cols >= 2,
        rows >= 2,
        old(particles).len() == cols * rows,
        cols * rows <= usize::MAX,
    ensures
        final(particles)@ == wind_spec(old(particles)@, cols as int, rows as int, *dir),
        all_pushed(old(particles)@, final(particles)@),
{
    let ghost start = particles@;
    let ghost c = cols as int;
    let ghost r = rows as int;
    let mut x: usize = 0;
    while x < cols - 1
        invariant
            x <= cols - 1,
            c == cols,
            r == rows,
            cols >= 2,
            rows >= 2,
            cols * rows <= usize::MAX,
            particles@.len() == cols * rows,
            all_pushed(start, particles@),
            particles@ == wind_upto(start, c, r, *dir, (x * (rows - 1)) as nat),
        decreases cols - x,
    {
        let mut y: usize = 0;
        while y < rows - 1
            invariant
                x < cols - 1,
                y <= rows - 1,
                c == cols,
                r == rows,
                cols >= 2,
                rows >= 2,
                cols * rows <= usize::MAX,
                particles@.len() == cols * rows,
                all_pushed(start, particles@),
                particles@ == wind_upto(start, c, r, *dir, (x * (rows - 1) + y) as nat),
            decreases rows - y,
        {
            let ghost before = particles@;
            let ghost n = x * (rows - 1) + y;
            let right = grid_index(cols, rows, x + 1, y);
            let here = grid_index(cols, rows, x, y);
            let below = grid_index(cols, rows, x, y + 1);
            let corner = grid_index(cols, rows, x + 1, y + 1);
            push_triangle(particles, right, here, below, dir);
            push_triangle(particles, corner, right, below, dir);
            proof {
                lemma_cell_order(n, r - 1, x as int, y as int);
                assert(particles@ == wind_upto(start, c, r, *dir, (n + 1) as nat));
                assert forall|i: int| 0 <= i < start.len() implies pushed_at_most(
                    start[i],
                    #[trigger] particles@[i],
                ) by {
                    assert(pushed_at_most(start[i], before[i]));
                }
            }
            y = y + 1;
        }
        proof {
            assert(x * (rows - 1) + (rows - 1) == (x + 1) * (rows - 1)) by (nonlinear_arith);
        }
        x = x + 1;
    }
}

/// One relaxation pass: every constraint once, in order.
pub fn relax_pass<V: Vector>(particles: &mut Vec<Particle<V>>, constraints: &Vec<Constraint<V>>)
    requires
        constraints_in_bounds(constraints@, old(particles).len() as int),
    ensures
        final(particles)@ == pass_spec(old(particles)@, constraints@),
        all_moved(old(particles)@, final(particles)@),
{
    let ghost start = particles@;
    let n = constraints.len();
    let mut k: usize = 0;
    while k < n
        invariant
            k <= n,
            n == constraints@.len(),
            constraints_in_bounds(constraints@, start.len() as int),
            all_moved(start, particles@),
            particles@ == pass_upto(start, constraints@, k as nat),
        decreases n - k,
    {
        let ghost before = particles@;
        constraints[k].satisfy(particles);
        proof {
            assert(particles@ == pass_upto(start, constraints@, (k + 1) as nat));
            assert forall|i: int| 0 <= i < start.len() implies moved_at_most(
                start[i],
                #[trigger] particles@[i],
            ) by {
                assert(moved_at_most(start[i], before[i]));
                assert(moved_at_most(before[i], particles@[i]));
            }
        }
        k = k + 1;
    }
}

/// `passes` relaxation passes.
pub fn relax_all<V: Vector>(
    particles: &mut Vec<Particle<V>>,
    constraints: &Vec<Constraint<V>>,
    passes: usize,
)
    requires
        constraints_in_bounds(constraints@, old(particles).len() as int),
    ensures
        final(particles)@ == relax_spec(old(particles)@, constraints@, passes as nat),
        all_moved(old(particles)@, final(particles)@),
{
    let ghost start = particles@;
    let mut pass: usize = 0;
    while pass < passes
        invariant
            pass <= passes,
            constraints_in_bounds(constraints@, start.len() as int),
            all_moved(start, particles@),
            particles@ == relax_spec(start, constraints@, pass as nat),
        decreases passes - pass,
    {
        let ghost before = particles@;
        relax_pass(particles, constraints);
        proof {
            assert(particles@ == relax_spec(start, constraints@, (pass + 1) as nat));
            assert forall|i: int| 0 <= i < start.len() implies moved_at_most(
                start[i],
                #[trigger] particles@[i],
            ) by {
                assert(moved_at_most(start[i], before[i]));
                assert(moved_at_most(before[i], particles@[i]));
            }
        }
        pass = pass + 1;
    }
}

/// Integrates every particle over `timestep`.
pub fn step_each<V: Vector>(particles: &mut Vec<Particle<V>>, timestep: V::Scalar, damping: V::Scalar)
    ensures
        final(particles)@ == step_all_spec(old(particles)@, timestep, damping),
        all_stepped(old(particles)@, final(particles)@),
{
    let ghost start = particles@;
    let n = particles.len();
    let mut i: usize = 0;
    while i < n
        invariant
            i <= n,
            n == start.len(),
            particles@.len() == n,
            forall|j: int|
                0 <= j < i ==> #[trigger] particles@[j] == stepped_spec(start[j], timestep, damping),
            forall|j: int| i <= j < n ==> #[trigger] particles@[j] == start[j],
        decreases n - i,
    {
        particles[i].time_step(timestep, damping);
        i = i + 1;
    }
    proof {
        assert(particles@ =~= step_all_spec(start, timestep, damping));
        assert forall|j: int| 0 <= j < n implies stepped_at_most(start[j], #[trigger] particles@[j]) by {
            assert(particles@[j] == stepped_spec(start[j], timestep, damping));
        }
    }
}

/// Recomputes every accumulated normal: each particle gets the sum of the
/// unit normals of the triangles it is a corner of.
pub fn shade_all<V: Vector>(particles: &mut Vec<Particle<V>>, cols: usize, rows: usize)
    requires
        cols >= 2,
        rows >= 2,
        old(particles).len() == cols * rows,
        cols * rows <= usize::MAX,
    ensures
        final(particles)@ == shade_spec(old(particles)@, cols as int, rows as int),
        all_shaded(old(particles)@, final(particles)@),
{
    let ghost start = particles@;
    let ghost c = cols as int;
    let ghost r = rows as int;
    let n = particles.len();
    let mut i: usize = 0;
    while i < n
        invariant
            i <= n,
            n == start.len(),
            particles@.len() == n,
            forall|j: int| 0 <= j < i ==> #[trigger] particles@[j] == normal_reset_spec(start[j]),
            forall|j: int| i <= j < n ==> #[trigger] particles@[j] == start[j],
        decreases n - i,
    {
        particles[i].reset_normal();
        i = i + 1;
    }
    let ghost cleared = particles@;
    proof {
        assert(cleared =~= start.map_values(|p: Particle<V>| normal_reset_spec(p)));
        assert forall|j: int| 0 <= j < n implies shaded_at_most(start[j], #[trigger] cleared[j]) by {
            assert(cleared[j] == normal_reset_spec(start[j]));
        }
    }
    let mut x: usize = 0;
    while x < cols - 1
        invariant
            x <= cols - 1,
            c == cols,
            r == rows,
            cols >= 2,
            rows >= 2,
            cols * rows <= usize::MAX,
            start.len() == cols * rows,
            all_shaded(start, particles@),
            particles@ == shade_upto(cleared, c, r, (x * (rows - 1)) as nat),
        decreases cols - x,
    {
        let mut y: usize = 0;
        while y < rows - 1
            invariant
                x < cols - 1,
                y <= rows - 1,
                c == cols,
                r == rows,
                cols >= 2,
                rows >= 2,
                cols * rows <= usize::MAX,
                start.len() == cols * rows,
                all_shaded(start, particles@),
                particles@ == shade_upto(cleared, c, r, (x * (rows - 1) + y) as nat),
            decreases rows - y,
        {
            let ghost before = particles@;
            let ghost m = x * (rows - 1) + y;
            let right = grid_index(cols, rows, x + 1, y);
            let here = grid_index(cols, rows, x, y);
            let below = grid_index(cols, rows, x, y + 1);
            let corner = grid_index(cols, rows, x + 1, y + 1);
            let first = triangle_normal(
                &particles[right].position,
                &particles[here].position,
                &particles[below].position,
            );
            particles[right].add_normal(first);
            particles[here].add_normal(first);
            particles[below].add_normal(first);
            let ghost after_first = particles@;
            let second = triangle_normal(
                &particles[corner].position,
                &particles[right].position,
                &particles[below].position,
            );
            particles[corner].add_normal(second);
            particles[right].add_normal(second);
            particles[below].add_normal(second);
            proof {
                lemma_cell_order(m, r - 1, x as int, y as int);
                assert(after_first =~= shade_triangle_spec(
                    before,
                    right as int,
                    here as int,
                    below as int,
                ));
                assert(particles@ =~= shade_triangle_spec(
                    after_first,
                    corner as int,
                    right as int,
                    below as int,
                ));
                assert(particles@ == shade_upto(cleared, c, r, (m + 1) as nat));
                assert forall|j: int| 0 <= j < start.len() implies shaded_at_most(
                    start[j],
                    #[trigger] particles@[j],
                ) by {
                    assert(shaded_at_most(start[j], before[j]));
                }
            }
            y = y + 1;
        }
        proof {
            assert(x * (rows - 1) + (rows - 1) == (x + 1) * (rows - 1)) by (nonlinear_arith);
        }
        x = x + 1;
    }
}

} // verus!
