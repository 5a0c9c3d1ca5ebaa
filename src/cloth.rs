//! The cloth: a lattice of particles held together by distance
//! constraints, advanced in fixed steps, with its renderable buffers.
use vstd::prelude::*;
use crate::grid::{
    buffer_len,
    constraint_links,
    grid_index,
    is_pinned,
    lemma_cell_order,
    lemma_links_forward,
    link_pairs,
    pairs_view,
};
use crate::lattice::{
    all_moved,
    push_all_spec,
    relax_spec,
    step_all_spec,
    stepped_at_most,
    wind_spec,
    all_pushed,
    all_shaded,
    constraints_in_bounds,
    keeps_pins,
    lemma_changes_keep_pins,
    lemma_keeps_pins_trans,
    push_each,
    push_wind,
    relax_all,
    shade_all,
    shade_spec,
    step_each,
};
use crate::math::{Real, Vector, zero_vec};
use crate::mesh::{fill_buffers, shows_particles};
use crate::particle::{Constraint, Particle, moved_at_most, verlet_position, pushed_at_most, pushed_spec, shaded_at_most};
use crate::pick::{Ray, is_reported_corner, mesh_hits, nearest_hit, picks};
use crate::stepper::{DEFAULT_STEP_NANOS, FixedStep, steps_due};

verus! {

/// Relaxation passes per step unless configured otherwise.
pub const DEFAULT_ITERATIONS: usize = 30;

/// Anchored columns at each end of the top row unless configured otherwise.
pub const DEFAULT_PIN_COLUMNS: usize = 3;

/// Nanoseconds in a second.
pub const NANOS_PER_SECOND: u64 = 1_000_000_000;

/// Why a cloth could not be built.
#[derive(Clone, Copy, Debug, PartialEq, Eq, Structural)]
pub enum ClothError {
    /// A side that is not positive, or fewer than two particles along a side.
    InvalidGeometry,
}

/// Whether a cloth of `cols x rows` particles with sides of the given
/// signs can be built.
pub open spec fn geometry_ok(width_positive: bool, height_positive: bool, cols: int, rows: int) -> bool {
    width_positive && height_positive && cols >= 2 && rows >= 2
}

/// Checks the shape of a cloth before it is built: both sides positive and
/// at least two particles along each.
pub fn validate_geometry(width_positive: bool, height_positive: bool, cols: usize, rows: usize) -> (r:
    Result<(), ClothError>)
    ensures
        r is Ok <==> geometry_ok(width_positive, height_positive, cols as int, rows as int),
        r is Err ==> r == Err::<(), ClothError>(ClothError::InvalidGeometry),
{
    if width_positive && height_positive && cols >= 2 && rows >= 2 {
        Ok(())
    } else {
        Err(ClothError::InvalidGeometry)
    }
}

/// The tunables of the simulation.
pub struct SimConfig<V: Vector> {
    /// Length of one physics step, in nanoseconds.
    pub step_nanos: u64,
    /// Share of the velocity lost at each step.
    pub damping: V::Scalar,
    /// Relaxation passes per step.
    pub iterations: usize,
    /// Anchored columns at each end of the top row.
    pub pin_columns: usize,
    /// Uniform force per second, applied at every step.
    pub gravity: V,
    /// Wind per second, applied at every step.
    pub wind: V,
}

impl<V: Vector> SimConfig<V> {
    /// Steps of 1/120 s, damping 0.01, 30 passes, three anchored columns at
    /// each end, gravity `(0, -2.8, 0)` and wind `(10.5, 0, 0.2)`.
    pub fn standard() -> (c: Self)
        ensures
            c.step_nanos == DEFAULT_STEP_NANOS,
            c.iterations == DEFAULT_ITERATIONS,
            c.pin_columns == DEFAULT_PIN_COLUMNS,
            c.damping == V::Scalar::spec_one().spec_over(V::Scalar::spec_from_count(100)),
            c.gravity == V::spec_new(
                V::Scalar::spec_zero(),
                V::Scalar::spec_from_count(28).spec_over(V::Scalar::spec_from_count(10)).spec_negated(),
                V::Scalar::spec_zero(),
            ),
            c.wind == V::spec_new(
                V::Scalar::spec_from_count(105).spec_over(V::Scalar::spec_from_count(10)),
                V::Scalar::spec_zero(),
                V::Scalar::spec_from_count(2).spec_over(V::Scalar::spec_from_count(10)),
            ),
    {
        let zero = V::Scalar::zero();
        let ten = V::Scalar::from_count(10);
        SimConfig {
            step_nanos: DEFAULT_STEP_NANOS,
            damping: V::Scalar::one().over(&V::Scalar::from_count(100)),
            iterations: DEFAULT_ITERATIONS,
            pin_columns: DEFAULT_PIN_COLUMNS,
            gravity: V::new(zero, V::Scalar::from_count(28).over(&ten).negated(), zero),
            wind: V::new(V::Scalar::from_count(105).over(&ten), zero, V::Scalar::from_count(2).over(&ten)),
        }
    }
}

/// A rectangular cloth of `cols x rows` particles.
pub struct Cloth<V: Vector> {
    particles: Vec<Particle<V>>,
    constraints: Vec<Constraint<V>>,
    cols: usize,
    rows: usize,
    config: SimConfig<V>,
    step_seconds: V::Scalar,
    clock: FixedStep,
    vertices: Vec<V>,
    normals: Vec<V>,
    tex_coords: Vec<(V::Scalar, V::Scalar)>,
}

/// Where the particle at column `x`, row `y` of a `cols x rows` lattice
/// spanning `width` by `height` is laid out:
/// `(width * (x / cols), -height * (y / rows), 0)`.
pub open spec fn layout_position<V: Vector>(
    width: V::Scalar,
    height: V::Scalar,
    cols: int,
    rows: int,
    x: int,
    y: int,
) -> V {
    V::spec_new(
        width.spec_times(
            V::Scalar::spec_from_count(x as u64).spec_over(V::Scalar::spec_from_count(cols as u64)),
        ),
        height.spec_negated().spec_times(
            V::Scalar::spec_from_count(y as u64).spec_over(V::Scalar::spec_from_count(rows as u64)),
        ),
        V::Scalar::spec_zero(),
    )
}

/// Particle `i` of a freshly laid out lattice: at rest at its layout
/// position, no force, no normal, texture coordinate
/// `(px / width, |py| / height)`, anchored when in the pinned columns of
/// the top row.
pub open spec fn layout_particle<V: Vector>(
    width: V::Scalar,
    height: V::Scalar,
    cols: int,
    rows: int,
    pins: int,
    i: int,
) -> Particle<V> {
    let pos: V = layout_position(width, height, cols, rows, i % cols, i / cols);
    Particle {
        position: pos,
        old_position: pos,
        acceleration: zero_vec(),
        tex_coords: (pos.spec_x().spec_over(width), pos.spec_y().spec_absolute().spec_over(height)),
        accumulated_normal: zero_vec(),
        is_movable: !is_pinned(cols, pins, i),
    }
}

/// The freshly laid out lattice, row by row.
pub open spec fn layout_spec<V: Vector>(
    width: V::Scalar,
    height: V::Scalar,
    cols: int,
    rows: int,
    pins: int,
) -> Seq<Particle<V>> {
    Seq::new((cols * rows) as nat, |i: int| layout_particle(width, height, cols, rows, pins, i))
}

/// Whether the particle at `(x, y)` is anchored.
fn pinned_at(cols: usize, rows: usize, pins: usize, x: usize, y: usize) -> (p: bool)
    requires
        x < cols,
        y < rows,
        cols * rows <= usize::MAX,
    ensures
        p == is_pinned(cols as int, pins as int, y * cols + x),
{
    proof {
        if y >= 1 {
            assert(y * cols >= cols) by (nonlinear_arith)
                requires
                    y >= 1,
            ;
        }
    }
    y == 0 && (x < pins || pins >= cols || x >= cols - pins)
}

/// The particles of a `cols x rows` lattice spanning `width` by `height`,
/// row by row: the particle at `(x, y)` sits at
/// `(width * x / cols, -height * y / rows, 0)`, at rest, with texture
/// coordinate `(px / width, |py| / height)` of its position `p`.
fn lay_out<V: Vector>(width: &V::Scalar, height: &V::Scalar, cols: usize, rows: usize, pins: usize) -> (ps:
    Vec<Particle<V>>)
    requires
        cols >= 1,
        rows >= 1,
        cols * rows <= usize::MAX,
    ensures
        ps@ == layout_spec::<V>(*width, *height, cols as int, rows as int, pins as int),
{
    let ghost w = *width;
    let ghost h = *height;
    let zero = V::Scalar::zero();
    let across = V::Scalar::from_count(cols as u64);
    let down = V::Scalar::from_count(rows as u64);
    let mut ps: Vec<Particle<V>> = Vec::new();
    let mut y: usize = 0;
    while y < rows
        invariant
            y <= rows,
            cols >= 1,
            rows >= 1,
            cols * rows <= usize::MAX,
            w == *width,
            h == *height,
            across == V::Scalar::spec_from_count(cols as u64),
            down == V::Scalar::spec_from_count(rows as u64),
            zero == V::Scalar::spec_zero(),
            ps@.len() == y * cols,
            forall|i: int|
                0 <= i < ps@.len() ==> #[trigger] ps@[i] == layout_particle::<V>(
                    w,
                    h,
                    cols as int,
                    rows as int,
                    pins as int,
                    i,
                ),
        decreases rows - y,
    {
        let mut x: usize = 0;
        while x < cols
            invariant
                x <= cols,
                y < rows,
                cols >= 1,
                rows >= 1,
                cols * rows <= usize::MAX,
                w == *width,
                h == *height,
                across == V::Scalar::spec_from_count(cols as u64),
                down == V::Scalar::spec_from_count(rows as u64),
                zero == V::Scalar::spec_zero(),
                ps@.len() == y * cols + x,
                forall|i: int|
                    0 <= i < ps@.len() ==> #[trigger] ps@[i] == layout_particle::<V>(
                        w,
                        h,
                        cols as int,
                        rows as int,
                        pins as int,
                        i,
                    ),
            decreases cols - x,
        {
            let position = V::new(
                width.times(&V::Scalar::from_count(x as u64).over(&across)),
                height.negated().times(&V::Scalar::from_count(y as u64).over(&down)),
                zero,
            );
            let tex_coord = (position.x().over(width), position.y().absolute().over(height));
            let movable = !pinned_at(cols, rows, pins, x, y);
            let ghost i = y * cols + x;
            ps.push(Particle::at_rest(position, tex_coord, movable));
            proof {
                lemma_cell_order(i, cols as int, y as int, x as int);
                assert(ps@[i] == layout_particle::<V>(w, h, cols as int, rows as int, pins as int, i));
            }
            x = x + 1;
        }
        proof {
            assert(y * cols + cols == (y + 1) * cols) by (nonlinear_arith);
        }
        y = y + 1;
    }
    proof {
        assert(rows * cols == cols * rows) by (nonlinear_arith);
        assert(ps@ =~= layout_spec::<V>(w, h, cols as int, rows as int, pins as int));
    }
    ps
}

/// One constraint per pair, at the distance that separates its particles now.
fn link_up<V: Vector>(particles: &Vec<Particle<V>>, links: &Vec<(usize, usize)>) -> (cs: Vec<
    Constraint<V>,
>)
    requires
        forall|k: int|
            0 <= k < links@.len() ==> (#[trigger] links@[k]).0 < particles@.len() && links@[k].1
                < particles@.len(),
    ensures
        constraint_view(cs@) == pairs_view(links@),
        constraints_in_bounds(cs@, particles@.len() as int),
        forall|k: int|
            0 <= k < cs@.len() ==> (#[trigger] cs@[k]).rest_distance == rest_length(
                particles@,
                cs@[k],
            ),
{
    let mut cs: Vec<Constraint<V>> = Vec::new();
    let mut k: usize = 0;
    while k < links.len()
        invariant
            k <= links@.len(),
            cs@.len() == k,
            forall|j: int|
                0 <= j < links@.len() ==> (#[trigger] links@[j]).0 < particles@.len() && links@[j].1
                    < particles@.len(),
            forall|j: int|
                0 <= j < k ==> (#[trigger] cs@[j]).p1 == links@[j].0 && cs@[j].p2 == links@[j].1
                    && cs@[j].rest_distance == rest_length(particles@, cs@[j]),
        decreases links@.len() - k,
    {
        let (a, b) = links[k];
        let rest = particles[a].position.minus(&particles[b].position).magnitude();
        cs.push(Constraint::new(a, b, rest));
        k = k + 1;
    }
    proof {
        assert(constraint_view(cs@) =~= pairs_view(links@));
    }
    cs
}

/// Distance between the two particles that constraint `c` joins, as the
/// arithmetic computes it: `|pos[p1] - pos[p2]|`.
pub open spec fn rest_length<V: Vector>(ps: Seq<Particle<V>>, c: Constraint<V>) -> V::Scalar {
    ps[c.p1 as int].position.spec_minus(ps[c.p2 as int].position).spec_magnitude()
}

/// `ps` with the planar force `(dx, dy, 0)` added to the particle at
/// `(x, y)` of a `cols x rows` lattice; `ps` itself when `(x, y)` lies
/// outside it.
pub open spec fn mouse_spec<V: Vector>(
    ps: Seq<Particle<V>>,
    cols: int,
    rows: int,
    x: int,
    y: int,
    dx: V::Scalar,
    dy: V::Scalar,
) -> Seq<Particle<V>> {
    if 0 <= x < cols && 0 <= y < rows {
        let i = y * cols + x;
        ps.update(i, pushed_spec(ps[i], V::spec_new(dx, dy, V::Scalar::spec_zero())))
    } else {
        ps
    }
}

/// The drag at `(x, y)`: the planar force on `(x, y)`, then on
/// `(x - 1, y - 1)`, then on `(x + 1, y + 1)`, each where it lies on the
/// lattice.
pub open spec fn drag_spec<V: Vector>(
    ps: Seq<Particle<V>>,
    cols: int,
    rows: int,
    x: int,
    y: int,
    dx: V::Scalar,
    dy: V::Scalar,
) -> Seq<Particle<V>> {
    let s1 = mouse_spec(ps, cols, rows, x, y, dx, dy);
    let s2 = mouse_spec(s1, cols, rows, x - 1, y - 1, dx, dy);
    mouse_spec(s2, cols, rows, x + 1, y + 1, dx, dy)
}

/// `iterations` relaxation passes, then one integration step over `dt`.
pub open spec fn time_step_spec<V: Vector>(
    ps: Seq<Particle<V>>,
    cs: Seq<Constraint<V>>,
    iterations: nat,
    dt: V::Scalar,
    damping: V::Scalar,
) -> Seq<Particle<V>> {
    step_all_spec(relax_spec(ps, cs, iterations), dt, damping)
}

/// With no relaxation pass, a time step is the integration alone: each
/// movable particle goes to `pos + (pos - old) * (1 - damping) + acc * dt`.
pub proof fn lemma_time_step_without_relaxation<V: Vector>(
    ps: Seq<Particle<V>>,
    cs: Seq<Constraint<V>>,
    dt: V::Scalar,
    damping: V::Scalar,
)
    ensures
        time_step_spec(ps, cs, 0, dt, damping) == step_all_spec(ps, dt, damping),
        forall|i: int|
            0 <= i < ps.len() && ps[i].is_movable ==> (#[trigger] time_step_spec(
                ps,
                cs,
                0,
                dt,
                damping,
            )[i]).position == verlet_position(ps[i], dt, damping),
{
}

/// Texture coordinates and accumulated normals are those of `a`.
pub open spec fn keeps_look<V: Vector>(a: Seq<Particle<V>>, b: Seq<Particle<V>>) -> bool {
    &&& b.len() == a.len()
    &&& forall|i: int|
        0 <= i < a.len() ==> (#[trigger] b[i]).tex_coords == a[i].tex_coords && b[i].accumulated_normal
            == a[i].accumulated_normal
}

/// Index pairs of a constraint sequence.
pub open spec fn constraint_view<V: Vector>(cs: Seq<Constraint<V>>) -> Seq<(int, int)> {
    cs.map_values(|c: Constraint<V>| (c.p1 as int, c.p2 as int))
}

impl<V: Vector> Cloth<V> {
    pub closed spec fn particles_spec(&self) -> Seq<Particle<V>> {
        self.particles@
    }

    pub closed spec fn constraints_spec(&self) -> Seq<Constraint<V>> {
        self.constraints@
    }

    pub closed spec fn cols_spec(&self) -> int {
        self.cols as int
    }

    pub closed spec fn rows_spec(&self) -> int {
        self.rows as int
    }

    pub closed spec fn pins_spec(&self) -> int {
        self.config.pin_columns as int
    }

    pub closed spec fn iterations_spec(&self) -> int {
        self.config.iterations as int
    }

    pub closed spec fn config_spec(&self) -> SimConfig<V> {
        self.config
    }

    /// The step length in seconds.
    pub closed spec fn step_seconds_spec(&self) -> V::Scalar {
        self.step_seconds
    }

    pub closed spec fn clock_spec(&self) -> FixedStep {
        self.clock
    }

    pub closed spec fn vertices_spec(&self) -> Seq<V> {
        self.vertices@
    }

    pub closed spec fn normals_spec(&self) -> Seq<V> {
        self.normals@
    }

    pub closed spec fn tex_coords_spec(&self) -> Seq<(V::Scalar, V::Scalar)> {
        self.tex_coords@
    }

    /// Builds a cloth of `cols x rows` particles spanning `width` by
    /// `height` from the origin towards `+x` and `-y`, at rest, with every
    /// constraint of the lattice at its initial length and the first and
    /// last `config.pin_columns` particles of the top row anchored.
    /// Fails with `InvalidGeometry` when a side is not positive or has fewer
    /// than two particles.
    pub fn new(width: V::Scalar, height: V::Scalar, cols: usize, rows: usize, config: SimConfig<V>) -> (r:
        Result<Self, ClothError>)
        requires
            config.step_nanos > 0,
            6 * cols * rows <= usize::MAX,
        ensures
            r is Ok <==> geometry_ok(
                width.spec_is_positive(),
                height.spec_is_positive(),
                cols as int,
                rows as int,
            ),
            r is Err ==> r == Err::<Self, ClothError>(ClothError::InvalidGeometry),
            r matches Ok(c) ==> {
                &&& c.wf()
                &&& c.config_spec() == config
                &&& c.step_seconds_spec() == V::Scalar::spec_from_count(config.step_nanos).spec_over(
                    V::Scalar::spec_from_count(NANOS_PER_SECOND),
                )
                &&& c.particles_spec() == shade_spec(
                    layout_spec::<V>(width, height, cols as int, rows as int, config.pin_columns as int),
                    cols as int,
                    rows as int,
                )
                &&& forall|k: int|
                    0 <= k < c.constraints_spec().len() ==> (#[trigger] c.constraints_spec()[k]).rest_distance
                        == rest_length(c.particles_spec(), c.constraints_spec()[k])
                &&& c.cols_spec() == cols
                &&& c.rows_spec() == rows
                &&& c.pins_spec() == config.pin_columns
                &&& c.iterations_spec() == config.iterations
                &&& c.clock_spec().step_spec() == config.step_nanos
                &&& c.clock_spec().pending_spec() == 0
                &&& c.buffers_current()
                &&& forall|i: int|
                    0 <= i < c.particles_spec().len() ==> (#[trigger] c.particles_spec()[i]).old_position
                        == c.particles_spec()[i].position
            },
    {
        validate_geometry(width.is_positive(), height.is_positive(), cols, rows)?;
        proof {
            assert(cols * rows <= 6 * cols * rows) by (nonlinear_arith)
                requires
                    cols >= 2,
                    rows >= 2,
            ;
        }
        let mut particles = lay_out(&width, &height, cols, rows, config.pin_columns);
        let links = constraint_links(cols, rows);
        let constraints = link_up(&particles, &links);
        let ghost laid = particles@;
        shade_all(&mut particles, cols, rows);
        proof {
            lemma_changes_keep_pins(laid, particles@);
            assert forall|i: int| 0 <= i < particles@.len() implies (
            #[trigger] particles@[i]).old_position == particles@[i].position by {
                assert(laid[i].old_position == laid[i].position);
            }
            assert forall|k: int| 0 <= k < constraints@.len() implies (
            #[trigger] constraints@[k]).rest_distance == rest_length(particles@, constraints@[k]) by {
                let ck = constraints@[k];
                assert(shaded_at_most(laid[ck.p1 as int], particles@[ck.p1 as int]));
                assert(shaded_at_most(laid[ck.p2 as int], particles@[ck.p2 as int]));
            }
            assert forall|i: int| 0 <= i < particles@.len() implies (
            #[trigger] particles@[i]).is_movable == !is_pinned(
                cols as int,
                config.pin_columns as int,
                i,
            ) by {
                assert(laid[i].is_movable == particles@[i].is_movable);
            }
        }
        let mut vertices: Vec<V> = Vec::new();
        let mut normals: Vec<V> = Vec::new();
        let mut tex_coords: Vec<(V::Scalar, V::Scalar)> = Vec::new();
        fill_buffers(&particles, cols, rows, &mut vertices, &mut normals, &mut tex_coords);
        let step_seconds = V::Scalar::from_count(config.step_nanos).over(
            &V::Scalar::from_count(NANOS_PER_SECOND),
        );
        let clock = FixedStep::new(config.step_nanos);
        Ok(Cloth {
            particles,
            constraints,
            cols,
            rows,
            config,
            step_seconds,
            clock,
            vertices,
            normals,
            tex_coords,
        })
    }

    /// Internal consistency: the lattice shape, the constraints in creation
    /// order, the permanent anchors, the clock and the buffer sizes.
    pub open spec fn wf(&self) -> bool {
        let c = self.cols_spec();
        let r = self.rows_spec();
        let ps = self.particles_spec();
        &&& c >= 2
        &&& r >= 2
        &&& 6 * c * r <= usize::MAX
        &&& ps.len() == c * r
        &&& constraint_view(self.constraints_spec()) == link_pairs(c, r)
        &&& constraints_in_bounds(self.constraints_spec(), c * r)
        &&& forall|i: int|
            0 <= i < ps.len() ==> (#[trigger] ps[i]).is_movable == !is_pinned(
                c,
                self.pins_spec(),
                i,
            )
        &&& self.clock_spec().wf()
        &&& self.vertices_spec().len() == buffer_len(c, r)
        &&& self.normals_spec().len() == buffer_len(c, r)
        &&& self.tex_coords_spec().len() == buffer_len(c, r)
    }

    /// The buffers show the current particles.
    pub open spec fn buffers_current(&self) -> bool {
        shows_particles(
            self.particles_spec(),
            self.cols_spec(),
            self.rows_spec(),
            self.vertices_spec(),
            self.normals_spec(),
            self.tex_coords_spec(),
        )
    }

    /// Everything but the particles (and the clock's remainder) is as in `other`.
    pub open spec fn same_frame(&self, other: &Self) -> bool {
        &&& self.cols_spec() == other.cols_spec()
        &&& self.rows_spec() == other.rows_spec()
        &&& self.pins_spec() == other.pins_spec()
        &&& self.iterations_spec() == other.iterations_spec()
        &&& self.constraints_spec() == other.constraints_spec()
        &&& self.clock_spec().step_spec() == other.clock_spec().step_spec()
        &&& self.config_spec() == other.config_spec()
        &&& self.step_seconds_spec() == other.step_seconds_spec()
    }

    /// Running `a` steps and then `b` more is running `a + b` steps: how a
    /// stretch of time is cut into frames does not change the particles it
    /// steps them through.
    pub proof fn lemma_ticks_compose(&self, ps: Seq<Particle<V>>, a: nat, b: nat)
        ensures
            self.ticks_spec(self.ticks_spec(ps, a), b) == self.ticks_spec(ps, a + b),
        decreases b,
    {
        if b > 0 {
            self.lemma_ticks_compose(ps, a, (b - 1) as nat);
            assert(self.ticks_spec(ps, a + b) == self.tick_spec(self.ticks_spec(ps, (a + b - 1) as nat)));
        }
    }

    /// A physics step depends only on the frame, so two cloths with the same
    /// frame step alike.
    pub proof fn lemma_tick_spec_same_frame(&self, other: Self)
        requires
            other.same_frame(self),
        ensures
            forall|ps: Seq<Particle<V>>| #[trigger] other.tick_spec(ps) == self.tick_spec(ps),
    {
    }

    /// The buffers are those of `other`.
    pub open spec fn same_buffers(&self, other: &Self) -> bool {
        &&& self.vertices_spec() == other.vertices_spec()
        &&& self.normals_spec() == other.normals_spec()
        &&& self.tex_coords_spec() == other.tex_coords_spec()
    }
    /// A well-formed cloth holds `cols * rows` particles and
    /// `6 * (cols - 1) * (rows - 1)` entries in each buffer.
    pub proof fn lemma_sizes(&self)
        requires
            self.wf(),
        ensures
            self.particles_spec().len() == self.cols_spec() * self.rows_spec(),
            self.vertices_spec().len() == 6 * (self.cols_spec() - 1) * (self.rows_spec() - 1),
            self.normals_spec().len() == 6 * (self.cols_spec() - 1) * (self.rows_spec() - 1),
            self.tex_coords_spec().len() == 6 * (self.cols_spec() - 1) * (self.rows_spec() - 1),
    {
    }

    /// Every constraint of a well-formed cloth joins two distinct particles
    /// of the lattice, the lower index first.
    pub proof fn lemma_constraints_forward(&self)
        requires
            self.wf(),
        ensures
            forall|k: int|
                0 <= k < self.constraints_spec().len() ==> (#[trigger] self.constraints_spec()[k]).p1
                    < self.constraints_spec()[k].p2 && self.constraints_spec()[k].p2
                    < self.particles_spec().len(),
    {
        lemma_links_forward(self.cols_spec(), self.rows_spec());
        let cs = self.constraints_spec();
        assert forall|k: int| 0 <= k < cs.len() implies (#[trigger] cs[k]).p1 < cs[k].p2 by {
            assert(constraint_view(cs)[k] == link_pairs(self.cols_spec(), self.rows_spec())[k]);
        }
    }

    /// A cloth whose frame and buffer sizes match a well-formed `prev`, and
    /// whose particles kept `prev`'s anchors, is well-formed.
    proof fn lemma_wf_from(&self, prev: &Self)
        requires
            prev.wf(),
            self.same_frame(prev),
            keeps_pins(prev.particles_spec(), self.particles_spec()),
            self.clock_spec().wf(),
            self.vertices_spec().len() == prev.vertices_spec().len(),
            self.normals_spec().len() == prev.normals_spec().len(),
            self.tex_coords_spec().len() == prev.tex_coords_spec().len(),
        ensures
            self.wf(),
    {
        let ps = self.particles_spec();
        let old_ps = prev.particles_spec();
        assert forall|i: int| 0 <= i < ps.len() implies (#[trigger] ps[i]).is_movable == !is_pinned(
            self.cols_spec(),
            self.pins_spec(),
            i,
        ) by {
            assert(old_ps[i].is_movable == !is_pinned(prev.cols_spec(), prev.pins_spec(), i));
        }
    }

    /// Adds `force` to the gathered force of every particle.
    pub fn add_force(&mut self, force: V)
        requires
            old(self).wf(),
        ensures
            final(self).wf(),
            final(self).same_frame(old(self)),
            final(self).same_buffers(old(self)),
            final(self).clock_spec() == old(self).clock_spec(),
            final(self).particles_spec() == push_all_spec(old(self).particles_spec(), force),
            all_pushed(old(self).particles_spec(), final(self).particles_spec()),
    {
        push_each(&mut self.particles, force);
        proof {
            lemma_changes_keep_pins(old(self).particles_spec(), self.particles_spec());
            self.lemma_wf_from(old(self));
        }
    }

    /// Wind along `dir` on every triangle of the mesh: a triangle with
    /// unnormalised normal `n` adds `n * (unit(n) . dir)` to each of its
    /// corners, so the push grows with the area the wind meets and pulls
    /// on triangles that face away.
    pub fn add_wind_force(&mut self, dir: V)
        requires
            old(self).wf(),
        ensures
            final(self).wf(),
            final(self).same_frame(old(self)),
            final(self).same_buffers(old(self)),
            final(self).clock_spec() == old(self).clock_spec(),
            final(self).particles_spec() == wind_spec(
                old(self).particles_spec(),
                old(self).cols_spec(),
                old(self).rows_spec(),
                dir,
            ),
            all_pushed(old(self).particles_spec(), final(self).particles_spec()),
    {
        proof {
            assert(self.cols * self.rows <= 6 * self.cols * self.rows) by (nonlinear_arith)
                requires
                    self.cols >= 2,
                    self.rows >= 2,
            ;
        }
        push_wind(&mut self.particles, self.cols, self.rows, &dir);
        proof {
            lemma_changes_keep_pins(old(self).particles_spec(), self.particles_spec());
            self.lemma_wf_from(old(self));
        }
    }

    /// Adds the planar force `(dx, dy, 0)` to the particle at `(x, y)`;
    /// does nothing when `(x, y)` lies outside the lattice.
    pub fn mouse_force(&mut self, x: usize, y: usize, dx: V::Scalar, dy: V::Scalar)
        requires
            old(self).wf(),
        ensures
            final(self).wf(),
            final(self).same_frame(old(self)),
            final(self).same_buffers(old(self)),
            final(self).clock_spec() == old(self).clock_spec(),
            final(self).particles_spec() == mouse_spec(
                old(self).particles_spec(),
                old(self).cols_spec(),
                old(self).rows_spec(),
                x as int,
                y as int,
                dx,
                dy,
            ),
            all_pushed(old(self).particles_spec(), final(self).particles_spec()),
    {
        if x < self.cols && y < self.rows {
            proof {
                assert(self.cols * self.rows <= 6 * self.cols * self.rows) by (nonlinear_arith)
                    requires
                        self.cols >= 2,
                        self.rows >= 2,
                ;
            }
            let i = grid_index(self.cols, self.rows, x, y);
            let force = V::new(dx, dy, V::Scalar::zero());
            self.particles[i].add_force(force);
            proof {
                let a = old(self).particles_spec();
                let b = self.particles_spec();
                assert(b =~= mouse_spec(a, self.cols as int, self.rows as int, x as int, y as int, dx, dy));
                assert forall|k: int| 0 <= k < a.len() implies pushed_at_most(a[k], #[trigger] b[k]) by {}
                lemma_changes_keep_pins(a, b);
                self.lemma_wf_from(old(self));
            }
        }
    }

    /// A drag on the particle at `(x, y)`: the same planar force on it and
    /// on its diagonal neighbours `(x - 1, y - 1)` and `(x + 1, y + 1)`,
    /// each only if it lies on the lattice.
    pub fn drag_force(&mut self, x: usize, y: usize, dx: V::Scalar, dy: V::Scalar)
        requires
            old(self).wf(),
        ensures
            final(self).wf(),
            final(self).same_frame(old(self)),
            final(self).same_buffers(old(self)),
            final(self).clock_spec() == old(self).clock_spec(),
            final(self).particles_spec() == drag_spec(
                old(self).particles_spec(),
                old(self).cols_spec(),
                old(self).rows_spec(),
                x as int,
                y as int,
                dx,
                dy,
            ),
            all_pushed(old(self).particles_spec(), final(self).particles_spec()),
    {
        let ghost start = *self;
        self.mouse_force(x, y, dx, dy);
        let ghost first = *self;
        if x >= 1 && y >= 1 {
            self.mouse_force(x - 1, y - 1, dx, dy);
        }
        let ghost second = *self;
        if x < usize::MAX && y < usize::MAX {
            self.mouse_force(x + 1, y + 1, dx, dy);
        }
        proof {
            let a = start.particles_spec();
            let b = first.particles_spec();
            let c = second.particles_spec();
            let d = self.particles_spec();
            assert forall|k: int| 0 <= k < a.len() implies pushed_at_most(a[k], #[trigger] d[k]) by {
                assert(pushed_at_most(a[k], b[k]));
                assert(pushed_at_most(b[k], c[k]));
                assert(pushed_at_most(c[k], d[k]));
            }
        }
    }

    /// `iterations` relaxation passes over every constraint, in creation order.
    pub fn relax(&mut self)
        requires
            old(self).wf(),
        ensures
            final(self).wf(),
            final(self).same_frame(old(self)),
            final(self).same_buffers(old(self)),
            final(self).clock_spec() == old(self).clock_spec(),
            final(self).particles_spec() == relax_spec(
                old(self).particles_spec(),
                old(self).constraints_spec(),
                old(self).iterations_spec() as nat,
            ),
            all_moved(old(self).particles_spec(), final(self).particles_spec()),
    {
        relax_all(&mut self.particles, &self.constraints, self.config.iterations);
        proof {
            lemma_changes_keep_pins(old(self).particles_spec(), self.particles_spec());
            self.lemma_wf_from(old(self));
        }
    }

    /// Relaxes the constraints, then integrates every particle over `timestep`.
    pub fn time_step(&mut self, timestep: V::Scalar)
        requires
            old(self).wf(),
        ensures
            final(self).wf(),
            final(self).same_frame(old(self)),
            final(self).same_buffers(old(self)),
            final(self).clock_spec() == old(self).clock_spec(),
            final(self).particles_spec() == time_step_spec(
                old(self).particles_spec(),
                old(self).constraints_spec(),
                old(self).iterations_spec() as nat,
                timestep,
                old(self).config_spec().damping,
            ),
            keeps_pins(old(self).particles_spec(), final(self).particles_spec()),
            keeps_look(old(self).particles_spec(), final(self).particles_spec()),
    {
        self.relax();
        let ghost relaxed = self.particles_spec();
        step_each(&mut self.particles, timestep, self.config.damping);
        proof {
            lemma_changes_keep_pins(old(self).particles_spec(), relaxed);
            lemma_changes_keep_pins(relaxed, self.particles_spec());
            lemma_keeps_pins_trans(old(self).particles_spec(), relaxed, self.particles_spec());
            self.lemma_wf_from(old(self));
            let a = old(self).particles_spec();
            let c = self.particles_spec();
            assert forall|i: int| 0 <= i < a.len() implies (#[trigger] c[i]).tex_coords == a[i].tex_coords
                && c[i].accumulated_normal == a[i].accumulated_normal by {
                assert(moved_at_most(a[i], relaxed[i]));
                assert(stepped_at_most(relaxed[i], c[i]));
            }
        }
    }

    /// The particles after one physics step from `ps`: gravity and wind,
    /// each scaled by the step length, then relaxation and integration
    /// over the step.
    pub open spec fn tick_spec(&self, ps: Seq<Particle<V>>) -> Seq<Particle<V>> {
        let step = self.step_seconds_spec();
        let pushed = push_all_spec(ps, self.config_spec().gravity.spec_scaled(step));
        let blown = wind_spec(
            pushed,
            self.cols_spec(),
            self.rows_spec(),
            self.config_spec().wind.spec_scaled(step),
        );
        time_step_spec(
            blown,
            self.constraints_spec(),
            self.iterations_spec() as nat,
            step,
            self.config_spec().damping,
        )
    }

    /// The particles after `n` physics steps from `ps`.
    pub open spec fn ticks_spec(&self, ps: Seq<Particle<V>>, n: nat) -> Seq<Particle<V>>
        decreases n,
    {
        if n == 0 {
            ps
        } else {
            self.tick_spec(self.ticks_spec(ps, (n - 1) as nat))
        }
    }

    /// One physics step: gravity and wind, each scaled by the step length,
    /// then relaxation and integration over the step.
    pub fn tick(&mut self)
        requires
            old(self).wf(),
        ensures
            final(self).wf(),
            final(self).same_frame(old(self)),
            final(self).same_buffers(old(self)),
            final(self).clock_spec() == old(self).clock_spec(),
            final(self).particles_spec() == old(self).tick_spec(old(self).particles_spec()),
            keeps_pins(old(self).particles_spec(), final(self).particles_spec()),
    {
        let step = self.step_seconds;
        let gravity = self.config.gravity.scaled(&step);
        let wind = self.config.wind.scaled(&step);
        self.add_force(gravity);
        let ghost pushed = self.particles_spec();
        self.add_wind_force(wind);
        let ghost blown = self.particles_spec();
        self.time_step(step);
        proof {
            lemma_changes_keep_pins(old(self).particles_spec(), pushed);
            lemma_changes_keep_pins(pushed, blown);
            lemma_keeps_pins_trans(old(self).particles_spec(), pushed, blown);
            lemma_keeps_pins_trans(old(self).particles_spec(), blown, self.particles_spec());
        }
    }

    /// Recomputes every particle's accumulated normal from the triangles
    /// around it.
    pub fn update_normals(&mut self)
        requires
            old(self).wf(),
        ensures
            final(self).wf(),
            final(self).same_frame(old(self)),
            final(self).same_buffers(old(self)),
            final(self).clock_spec() == old(self).clock_spec(),
            final(self).particles_spec() == shade_spec(
                old(self).particles_spec(),
                old(self).cols_spec(),
                old(self).rows_spec(),
            ),
            all_shaded(old(self).particles_spec(), final(self).particles_spec()),
    {
        proof {
            assert(self.cols * self.rows <= 6 * self.cols * self.rows) by (nonlinear_arith)
                requires
                    self.cols >= 2,
                    self.rows >= 2,
            ;
        }
        shade_all(&mut self.particles, self.cols, self.rows);
        proof {
            lemma_changes_keep_pins(old(self).particles_spec(), self.particles_spec());
            self.lemma_wf_from(old(self));
        }
    }

    /// Rewrites the renderable buffers from the particles.
    pub fn fill_vertices(&mut self)
        requires
            old(self).wf(),
        ensures
            final(self).wf(),
            final(self).same_frame(old(self)),
            final(self).clock_spec() == old(self).clock_spec(),
            final(self).particles_spec() == old(self).particles_spec(),
            final(self).buffers_current(),
    {
        fill_buffers(
            &self.particles,
            self.cols,
            self.rows,
            &mut self.vertices,
            &mut self.normals,
            &mut self.tex_coords,
        );
    }

    /// Advances the simulation by `elapsed_nanos` of wall-clock time: runs
    /// every whole step now due (time short of a step is carried to the next
    /// call), then, if any step ran, rebuilds the normals and the buffers.
    /// Returns the number of steps run.
    pub fn update(&mut self, elapsed_nanos: u64) -> (steps: u128)
        requires
            old(self).wf(),
        ensures
            final(self).wf(),
            final(self).same_frame(old(self)),
            steps == steps_due(
                old(self).clock_spec().pending_spec(),
                elapsed_nanos as int,
                old(self).clock_spec().step_spec(),
            ),
            final(self).clock_spec().pending_spec() == (old(self).clock_spec().pending_spec()
                + elapsed_nanos) % old(self).clock_spec().step_spec(),
            keeps_pins(old(self).particles_spec(), final(self).particles_spec()),
            steps == 0 ==> final(self).particles_spec() == old(self).particles_spec()
                && final(self).same_buffers(old(self)),
            steps > 0 ==> final(self).particles_spec() == shade_spec(
                old(self).ticks_spec(old(self).particles_spec(), steps as nat),
                old(self).cols_spec(),
                old(self).rows_spec(),
            ) && final(self).buffers_current(),
    {
        let steps = self.clock.advance(elapsed_nanos);
        proof {
            self.lemma_wf_from(old(self));
        }
        let ghost advanced = *self;
        let mut done: u128 = 0;
        while done < steps
            invariant
                done <= steps,
                self.wf(),
                self.same_frame(old(self)),
                self.same_buffers(old(self)),
                self.clock_spec() == advanced.clock_spec(),
                keeps_pins(old(self).particles_spec(), self.particles_spec()),
                self.particles_spec() == old(self).ticks_spec(old(self).particles_spec(), done as nat),
            decreases steps - done,
        {
            let ghost before = self.particles_spec();
            self.tick();
            proof {
                lemma_keeps_pins_trans(old(self).particles_spec(), before, self.particles_spec());
                old(self).lemma_tick_spec_same_frame(*self);
            }
            done = done + 1;
        }
        if steps > 0 {
            let ghost ticked = self.particles_spec();
            self.update_normals();
            self.fill_vertices();
            proof {
                lemma_changes_keep_pins(ticked, self.particles_spec());
                lemma_keeps_pins_trans(old(self).particles_spec(), ticked, self.particles_spec());
            }
        }
        steps
    }

    /// Casts `ray` against every triangle and reports the grid coordinate of
    /// the first listed corner of the nearest triangle hit, `None` if it
    /// hits none.
    pub fn intersects(&self, ray: &Ray<V>) -> (r: Option<(usize, usize)>)
        requires
            self.wf(),
        ensures
            picks(mesh_hits(self.particles_spec(), self.cols_spec(), self.rows_spec(), *ray), self.rows_spec(), r),
            r matches Some((gx, gy)) ==> is_reported_corner(
                self.cols_spec(),
                self.rows_spec(),
                gx as int,
                gy as int,
            ),
    {
        nearest_hit(&self.particles, self.cols, self.rows, ray)
    }

    /// Vertex positions, six per quad.
    pub fn triangles(&self) -> (r: &[V])
        ensures
            r@ == self.vertices_spec(),
    {
        self.vertices.as_slice()
    }

    /// Unit vertex normals, six per quad.
    pub fn normals(&self) -> (r: &[V])
        ensures
            r@ == self.normals_spec(),
    {
        self.normals.as_slice()
    }

    /// Texture coordinates, six per quad.
    pub fn tex_coords(&self) -> (r: &[(V::Scalar, V::Scalar)])
        ensures
            r@ == self.tex_coords_spec(),
    {
        self.tex_coords.as_slice()
    }

    /// The particles, row by row.
    pub fn particles(&self) -> (r: &[Particle<V>])
        ensures
            r@ == self.particles_spec(),
    {
        self.particles.as_slice()
    }

    /// The constraints, in creation order.
    pub fn constraints(&self) -> (r: &[Constraint<V>])
        ensures
            r@ == self.constraints_spec(),
    {
        self.constraints.as_slice()
    }

    /// Particles along a row.
    pub fn num_particles_width(&self) -> (r: usize)
        ensures
            r == self.cols_spec(),
    {
        self.cols
    }

    /// Particles along a column.
    pub fn num_particles_height(&self) -> (r: usize)
        ensures
            r == self.rows_spec(),
    {
        self.rows
    }

    /// Index of the particle at `(x, y)`.
    pub fn particle_index(&self, x: usize, y: usize) -> (i: usize)
        requires
            self.wf(),
            x < self.cols_spec(),
            y < self.rows_spec(),
        ensures
            i == y * self.cols_spec() + x,
            i < self.particles_spec().len(),
    {
        proof {
            assert(self.cols * self.rows <= 6 * self.cols * self.rows) by (nonlinear_arith)
                requires
                    self.cols >= 2,
                    self.rows >= 2,
            ;
        }
        grid_index(self.cols, self.rows, x, y)
    }

    /// Time carried towards the next step, in nanoseconds.
    pub fn pending_nanos(&self) -> (r: u64)
        ensures
            r == self.clock_spec().pending_spec(),
    {
        self.clock.pending()
    }
}

} // verus!
