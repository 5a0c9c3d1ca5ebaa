//! Particles of the cloth and the distance constraints between them.
use vstd::prelude::*;
use crate::math::{Real, Vector, zero_vec};

verus! {

/// One mass point of the cloth.
pub struct Particle<V: Vector> {
    pub position: V,
    /// Position before the last integration step; with `position` it
    /// carries the velocity.
    pub old_position: V,
    /// Force gathered since the last integration step.
    pub acceleration: V,
    /// Texture coordinate, fixed when the cloth is built.
    pub tex_coords: (V::Scalar, V::Scalar),
    /// Sum of the unit normals of the triangles around the particle.
    pub accumulated_normal: V,
    /// A particle that is not movable never changes position.
    pub is_movable: bool,
}

/// `b` equals `a` except perhaps for its position, which may only change
/// when `a` is movable.
pub open spec fn moved_at_most<V: Vector>(a: Particle<V>, b: Particle<V>) -> bool {
    &&& b.old_position == a.old_position
    &&& b.acceleration == a.acceleration
    &&& b.tex_coords == a.tex_coords
    &&& b.accumulated_normal == a.accumulated_normal
    &&& b.is_movable == a.is_movable
    &&& (!a.is_movable ==> b.position == a.position)
}

/// `b` equals `a` except perhaps for its gathered force.
pub open spec fn pushed_at_most<V: Vector>(a: Particle<V>, b: Particle<V>) -> bool {
    &&& b.position == a.position
    &&& b.old_position == a.old_position
    &&& b.tex_coords == a.tex_coords
    &&& b.accumulated_normal == a.accumulated_normal
    &&& b.is_movable == a.is_movable
}

/// `b` equals `a` except perhaps for its accumulated normal.
pub open spec fn shaded_at_most<V: Vector>(a: Particle<V>, b: Particle<V>) -> bool {
    &&& b.position == a.position
    &&& b.old_position == a.old_position
    &&& b.acceleration == a.acceleration
    &&& b.tex_coords == a.tex_coords
    &&& b.is_movable == a.is_movable
}

/// `p` moved by `d` if it is movable, `p` itself otherwise.
pub open spec fn offset_spec<V: Vector>(p: Particle<V>, d: V) -> Particle<V> {
    if p.is_movable {
        Particle { position: p.position.spec_plus(d), ..p }
    } else {
        p
    }
}

/// `p` with `f` added to its gathered force.
pub open spec fn pushed_spec<V: Vector>(p: Particle<V>, f: V) -> Particle<V> {
    Particle { acceleration: p.acceleration.spec_plus(f), ..p }
}

/// `p` with the unit vector along `n` added to its accumulated normal.
pub open spec fn normal_added_spec<V: Vector>(p: Particle<V>, n: V) -> Particle<V> {
    Particle { accumulated_normal: p.accumulated_normal.spec_plus(n.spec_normalized()), ..p }
}

/// `p` with a zero accumulated normal.
pub open spec fn normal_reset_spec<V: Vector>(p: Particle<V>) -> Particle<V> {
    Particle { accumulated_normal: zero_vec(), ..p }
}

/// Where a Verlet step of length `dt` takes `p`:
/// `position + (position - old_position) * (1 - damping) + acceleration * dt`.
pub open spec fn verlet_position<V: Vector>(p: Particle<V>, dt: V::Scalar, damping: V::Scalar) -> V {
    let keep = V::Scalar::spec_one().spec_minus(damping);
    p.position.spec_plus(p.position.spec_minus(p.old_position).spec_scaled(keep)).spec_plus(
        p.acceleration.spec_scaled(dt),
    )
}

/// `p` after one integration step: a movable particle goes to its Verlet
/// position and remembers the one it left; every particle's gathered force
/// is cleared.
pub open spec fn stepped_spec<V: Vector>(p: Particle<V>, dt: V::Scalar, damping: V::Scalar) -> Particle<V> {
    if p.is_movable {
        Particle {
            position: verlet_position(p, dt, damping),
            old_position: p.position,
            acceleration: zero_vec(),
            ..p
        }
    } else {
        Particle { acceleration: zero_vec(), ..p }
    }
}

/// The zero vector.
pub fn zero_vector<V: Vector>() -> (r: V)
    ensures
        r == zero_vec::<V>(),
{
    V::new(V::Scalar::zero(), V::Scalar::zero(), V::Scalar::zero())
}
impl<V: Vector> Particle<V> {
    /// A particle at rest at `position`.
    pub fn at_rest(position: V, tex_coord: (V::Scalar, V::Scalar), movable: bool) -> (p: Self)
        ensures
            p.position == position,
            p.old_position == position,
            p.tex_coords == tex_coord,
            p.is_movable == movable,
            p.acceleration == zero_vec::<V>(),
            p.accumulated_normal == zero_vec::<V>(),
    {
        Particle {
            position,
            old_position: position,
            acceleration: zero_vector(),
            tex_coords: tex_coord,
            accumulated_normal: zero_vector(),
            is_movable: movable,
        }
    }

    /// Adds the unit vector along `normal` to the accumulated normal.
    pub fn add_normal(&mut self, normal: V)
        ensures
            *final(self) == normal_added_spec(*old(self), normal),
            shaded_at_most(*old(self), *final(self)),
    {
        self.accumulated_normal = self.accumulated_normal.plus(&normal.normalized());
    }

    /// Sets the accumulated normal to zero.
    pub fn reset_normal(&mut self)
        ensures
            *final(self) == normal_reset_spec(*old(self)),
            shaded_at_most(*old(self), *final(self)),
    {
        self.accumulated_normal = zero_vector();
    }

    /// Moves the particle by `offset` if it is movable; does nothing otherwise.
    pub fn offset_pos(&mut self, offset: V)
        ensures
            *final(self) == offset_spec(*old(self), offset),
            moved_at_most(*old(self), *final(self)),
    {
        if self.is_movable {
            self.position = self.position.plus(&offset);
        }
    }

    /// Anchors the particle.
    pub fn make_unmovable(&mut self)
        ensures
            !final(self).is_movable,
            final(self).position == old(self).position,
            final(self).old_position == old(self).old_position,
            final(self).acceleration == old(self).acceleration,
            final(self).tex_coords == old(self).tex_coords,
            final(self).accumulated_normal == old(self).accumulated_normal,
    {
        self.is_movable = false;
    }

    /// Adds `force` to the gathered force, whether or not the particle is
    /// movable.
    pub fn add_force(&mut self, force: V)
        ensures
            *final(self) == pushed_spec(*old(self), force),
            pushed_at_most(*old(self), *final(self)),
    {
        self.acceleration = self.acceleration.plus(&force);
    }

    /// One Verlet step of length `timestep`: a movable particle goes to
    /// `position + (position - old_position) * (1 - damping) + acceleration * timestep`
    /// and remembers its previous position. The gathered force is cleared
    /// for every particle. The force is scaled by `timestep`, not by its
    /// square: callers that pass a force already multiplied by the step get
    /// the textbook response.
    pub fn time_step(&mut self, timestep: V::Scalar, damping: V::Scalar)
        ensures
            *final(self) == stepped_spec(*old(self), timestep, damping),
    {
        if self.is_movable {
            let keep = V::Scalar::one().minus(&damping);
            let velocity = self.position.minus(&self.old_position).scaled(&keep);
            let previous = self.position;
            self.position = self.position.plus(&velocity).plus(&self.acceleration.scaled(&timestep));
            self.old_position = previous;
        }
        self.acceleration = zero_vector();
    }
}

/// Keeps particles `p1` and `p2` at `rest_distance` from each other.
pub struct Constraint<V: Vector> {
    pub p1: usize,
    pub p2: usize,
    pub rest_distance: V::Scalar,
}

/// `pos[p2] - pos[p1]` for constraint `c` over particles `ps`.
pub open spec fn link_delta<V: Vector>(ps: Seq<Particle<V>>, c: Constraint<V>) -> V {
    ps[c.p2 as int].position.spec_minus(ps[c.p1 as int].position)
}

/// The share of the correction each end takes: a half when both are
/// movable, the whole when only one is.
pub open spec fn correction_share<V: Vector>(ps: Seq<Particle<V>>, c: Constraint<V>) -> V::Scalar {
    if ps[c.p1 as int].is_movable && ps[c.p2 as int].is_movable {
        V::Scalar::spec_one().spec_over(V::Scalar::spec_from_count(2))
    } else {
        V::Scalar::spec_one()
    }
}

/// The offset of `p1`: `delta * (1 - rest / |delta|) * share`; `p2` gets
/// its opposite.
pub open spec fn correction<V: Vector>(ps: Seq<Particle<V>>, c: Constraint<V>) -> V {
    let delta = link_delta(ps, c);
    let one = V::Scalar::spec_one();
    delta.spec_scaled(one.spec_minus(c.rest_distance.spec_over(delta.spec_magnitude()))).spec_scaled(
        correction_share(ps, c),
    )
}

/// The particles after constraint `c` is applied once: unchanged when the
/// two particles are not a positive distance apart, otherwise `p1` offset
/// by the correction and then `p2` by its opposite, each only if movable.
pub open spec fn satisfy_spec<V: Vector>(ps: Seq<Particle<V>>, c: Constraint<V>) -> Seq<Particle<V>> {
    if !link_delta(ps, c).spec_magnitude().spec_is_positive() {
        ps
    } else {
        let corr = correction(ps, c);
        let first = ps.update(c.p1 as int, offset_spec(ps[c.p1 as int], corr));
        first.update(c.p2 as int, offset_spec(first[c.p2 as int], corr.spec_negated()))
    }
}

impl<V: Vector> Constraint<V> {
    pub fn new(p1: usize, p2: usize, rest_distance: V::Scalar) -> (c: Self)
        ensures
            c.p1 == p1,
            c.p2 == p2,
            c.rest_distance == rest_distance,
    {
        Constraint { p1, p2, rest_distance }
    }

    /// Pulls the two particles towards the rest distance along the line
    /// that joins them. With `delta = pos[p2] - pos[p1]`, `dist = |delta|`
    /// and `c = delta * (1 - rest / dist)`, two movable particles share the
    /// correction (`p1` moves by `c / 2`, `p2` by `-c / 2`); when only one
    /// is movable it takes the whole of it; two anchored particles stay.
    /// Coincident particles (no positive distance) are left alone.
    pub fn satisfy(&self, particles: &mut Vec<Particle<V>>)
        requires
            self.p1 < old(particles).len(),
            self.p2 < old(particles).len(),
        ensures
            final(particles)@ == satisfy_spec(old(particles)@, *self),
            final(particles).len() == old(particles).len(),
            forall|k: int|
                0 <= k < old(particles).len() ==> moved_at_most(
                    #[trigger] old(particles)[k],
                    final(particles)[k],
                ),
            forall|k: int|
                0 <= k < old(particles).len() && k != self.p1 && k != self.p2
                    ==> final(particles)[k] == #[trigger] old(particles)[k],
    {
        let delta = particles[self.p2].position.minus(&particles[self.p1].position);
        let distance = delta.magnitude();
        if distance.is_positive() {
            let one = V::Scalar::one();
            let share = if particles[self.p1].is_movable && particles[self.p2].is_movable {
                one.over(&V::Scalar::from_count(2))
            } else {
                one
            };
            let correction = delta.scaled(&one.minus(&self.rest_distance.over(&distance))).scaled(
                &share,
            );
            let ghost start = particles@;
            particles[self.p1].offset_pos(correction);
            particles[self.p2].offset_pos(correction.negated());
            proof {
                assert(particles@ =~= satisfy_spec(start, *self));
            }
        }
    }
}

/// Two movable ends a positive distance apart move by equal and opposite
/// amounts: `p1` by half the correction, `p2` by minus the same half.
pub proof fn lemma_satisfy_equal_and_opposite<V: Vector>(ps: Seq<Particle<V>>, c: Constraint<V>)
    requires
        c.p1 < ps.len(),
        c.p2 < ps.len(),
        c.p1 != c.p2,
        ps[c.p1 as int].is_movable,
        ps[c.p2 as int].is_movable,
        link_delta(ps, c).spec_magnitude().spec_is_positive(),
    ensures
        ({
            let half = V::Scalar::spec_one().spec_over(V::Scalar::spec_from_count(2));
            let delta = link_delta(ps, c);
            let corr = delta.spec_scaled(
                V::Scalar::spec_one().spec_minus(c.rest_distance.spec_over(delta.spec_magnitude())),
            ).spec_scaled(half);
            &&& satisfy_spec(ps, c)[c.p1 as int].position == ps[c.p1 as int].position.spec_plus(corr)
            &&& satisfy_spec(ps, c)[c.p2 as int].position == ps[c.p2 as int].position.spec_plus(
                corr.spec_negated(),
            )
        }),
{
}

/// With one end anchored, the anchored end stays and the movable end takes
/// the whole correction, twice the share it takes when both ends move.
pub proof fn lemma_satisfy_pinned_end<V: Vector>(ps: Seq<Particle<V>>, c: Constraint<V>)
    requires
        c.p1 < ps.len(),
        c.p2 < ps.len(),
        c.p1 != c.p2,
        !ps[c.p1 as int].is_movable,
        ps[c.p2 as int].is_movable,
        link_delta(ps, c).spec_magnitude().spec_is_positive(),
    ensures
        ({
            let delta = link_delta(ps, c);
            let full = delta.spec_scaled(
                V::Scalar::spec_one().spec_minus(c.rest_distance.spec_over(delta.spec_magnitude())),
            ).spec_scaled(V::Scalar::spec_one());
            &&& satisfy_spec(ps, c)[c.p1 as int] == ps[c.p1 as int]
            &&& satisfy_spec(ps, c)[c.p2 as int].position == ps[c.p2 as int].position.spec_plus(
                full.spec_negated(),
            )
        }),
{
}

/// Coincident particles (no positive distance) are left as they are.
pub proof fn lemma_satisfy_skips_coincident<V: Vector>(ps: Seq<Particle<V>>, c: Constraint<V>)
    requires
        !link_delta(ps, c).spec_magnitude().spec_is_positive(),
    ensures
        satisfy_spec(ps, c) == ps,
{
}

} // verus!
