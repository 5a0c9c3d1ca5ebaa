use cgmath::{InnerSpace, Vector3};
use cloth_sim::cloth::{DEFAULT_ITERATIONS, DEFAULT_PIN_COLUMNS};
use cloth_sim::pick::{corner_of_triangle, nearest_index};
use cloth_sim::stepper::DEFAULT_STEP_NANOS;
use cloth_sim::{Cloth, ClothError, Constraint, Particle, Ray, Real, SimConfig, Vector};

#[derive(Clone, Copy, Debug, PartialEq)]
struct F(f32);

impl Real for F {
    fn spec_zero() -> Self {
        F(0.0)
    }
    fn spec_one() -> Self {
        F(1.0)
    }
    fn spec_from_count(n: u64) -> Self {
        F(n as f32)
    }
    fn spec_plus(self, o: Self) -> Self {
        F(self.0 + o.0)
    }
    fn spec_minus(self, o: Self) -> Self {
        F(self.0 - o.0)
    }
    fn spec_times(self, o: Self) -> Self {
        F(self.0 * o.0)
    }
    fn spec_over(self, o: Self) -> Self {
        F(self.0 / o.0)
    }
    fn spec_negated(self) -> Self {
        F(-self.0)
    }
    fn spec_absolute(self) -> Self {
        F(self.0.abs())
    }
    fn spec_is_positive(self) -> bool {
        self.0 > 0.0
    }
    fn spec_less_than(self, o: Self) -> bool {
        self.0 < o.0
    }
    fn zero() -> Self {
        Self::spec_zero()
    }
    fn one() -> Self {
        Self::spec_one()
    }
    fn from_count(n: u64) -> Self {
        Self::spec_from_count(n)
    }
    fn plus(&self, o: &Self) -> Self {
        self.spec_plus(*o)
    }
    fn minus(&self, o: &Self) -> Self {
        self.spec_minus(*o)
    }
    fn times(&self, o: &Self) -> Self {
        self.spec_times(*o)
    }
    fn over(&self, o: &Self) -> Self {
        self.spec_over(*o)
    }
    fn negated(&self) -> Self {
        self.spec_negated()
    }
    fn absolute(&self) -> Self {
        self.spec_absolute()
    }
    fn is_positive(&self) -> bool {
        self.spec_is_positive()
    }
    fn less_than(&self, o: &Self) -> bool {
        self.spec_less_than(*o)
    }
}

#[derive(Clone, Copy, Debug, PartialEq)]
struct V3(Vector3<f32>);

impl Vector for V3 {
    type Scalar = F;
    fn spec_new(x: F, y: F, z: F) -> Self {
        V3(Vector3::new(x.0, y.0, z.0))
    }
    fn spec_x(self) -> F {
        F(self.0.x)
    }
    fn spec_y(self) -> F {
        F(self.0.y)
    }
    fn spec_z(self) -> F {
        F(self.0.z)
    }
    fn spec_plus(self, o: Self) -> Self {
        V3(self.0 + o.0)
    }
    fn spec_minus(self, o: Self) -> Self {
        V3(self.0 - o.0)
    }
    fn spec_negated(self) -> Self {
        V3(-self.0)
    }
    fn spec_scaled(self, s: F) -> Self {
        V3(self.0 * s.0)
    }
    fn spec_dot(self, o: Self) -> F {
        F(self.0.dot(o.0))
    }
    fn spec_cross(self, o: Self) -> Self {
        V3(self.0.cross(o.0))
    }
    fn spec_magnitude(self) -> F {
        F(self.0.magnitude())
    }
    fn spec_normalized(self) -> Self {
        V3(self.0.normalize())
    }
    fn new(x: F, y: F, z: F) -> Self {
        Self::spec_new(x, y, z)
    }
    fn x(&self) -> F {
        self.spec_x()
    }
    fn y(&self) -> F {
        self.spec_y()
    }
    fn z(&self) -> F {
        self.spec_z()
    }
    fn plus(&self, o: &Self) -> Self {
        self.spec_plus(*o)
    }
    fn minus(&self, o: &Self) -> Self {
        self.spec_minus(*o)
    }
    fn negated(&self) -> Self {
        self.spec_negated()
    }
    fn scaled(&self, s: &F) -> Self {
        self.spec_scaled(*s)
    }
    fn dot(&self, o: &Self) -> F {
        self.spec_dot(*o)
    }
    fn cross(&self, o: &Self) -> Self {
        self.spec_cross(*o)
    }
    fn magnitude(&self) -> F {
        self.spec_magnitude()
    }
    fn normalized(&self) -> Self {
        self.spec_normalized()
    }
}

fn v(x: f32, y: f32, z: f32) -> V3 {
    V3(Vector3::new(x, y, z))
}

fn config(iterations: usize, pin_columns: usize, gravity: V3, wind: V3) -> SimConfig<V3> {
    SimConfig {
        step_nanos: DEFAULT_STEP_NANOS,
        damping: F(0.01),
        iterations,
        pin_columns,
        gravity,
        wind,
    }
}

fn still_config(iterations: usize, pin_columns: usize) -> SimConfig<V3> {
    config(iterations, pin_columns, v(0.0, 0.0, 0.0), v(0.0, 0.0, 0.0))
}

fn standard_cloth(w: f32, h: f32, cols: usize, rows: usize) -> Cloth<V3> {
    match Cloth::new(F(w), F(h), cols, rows, SimConfig::standard()) {
        Ok(c) => c,
        Err(_) => panic!("valid geometry was refused"),
    }
}

fn free_particle(p: V3) -> Particle<V3> {
    Particle {
        position: p,
        old_position: p,
        acceleration: v(0.0, 0.0, 0.0),
        tex_coords: (F(0.0), F(0.0)),
        accumulated_normal: v(0.0, 0.0, 0.0),
        is_movable: true,
    }
}

fn step_seconds() -> f32 {
    DEFAULT_STEP_NANOS as f32 / 1_000_000_000.0
}

#[test]
fn standard_config_values() {
    let c: SimConfig<V3> = SimConfig::standard();
    assert_eq!(c.step_nanos, 8_333_333);
    assert_eq!(c.iterations, 30);
    assert_eq!(c.pin_columns, 3);
    assert_eq!(DEFAULT_ITERATIONS, 30);
    assert_eq!(DEFAULT_PIN_COLUMNS, 3);
    assert!((c.damping.0 - 0.01).abs() < 1e-7);
    assert!((c.gravity.0.y + 2.8).abs() < 1e-6);
    assert!((c.wind.0.x - 10.5).abs() < 1e-6);
    assert!((c.wind.0.z - 0.2).abs() < 1e-6);
}

#[test]
fn new_rejects_too_few_particles() {
    let r = Cloth::new(F(1.0), F(1.0), 1, 5, SimConfig::<V3>::standard());
    assert!(matches!(r, Err(ClothError::InvalidGeometry)));
    let r = Cloth::new(F(1.0), F(1.0), 5, 1, SimConfig::<V3>::standard());
    assert!(matches!(r, Err(ClothError::InvalidGeometry)));
    let r = Cloth::new(F(1.0), F(1.0), 0, 0, SimConfig::<V3>::standard());
    assert!(matches!(r, Err(ClothError::InvalidGeometry)));
}

#[test]
fn new_rejects_non_positive_sides() {
    let r = Cloth::new(F(0.0), F(1.0), 3, 3, SimConfig::<V3>::standard());
    assert!(matches!(r, Err(ClothError::InvalidGeometry)));
    let r = Cloth::new(F(1.0), F(-2.0), 3, 3, SimConfig::<V3>::standard());
    assert!(matches!(r, Err(ClothError::InvalidGeometry)));
    let r = Cloth::new(F(f32::NAN), F(1.0), 3, 3, SimConfig::<V3>::standard());
    assert!(matches!(r, Err(ClothError::InvalidGeometry)));
}

#[test]
fn particle_and_buffer_counts() {
    let c = standard_cloth(10.0, 14.0, 22, 26);
    assert_eq!(c.particles().len(), 22 * 26);
    assert_eq!(c.triangles().len(), 6 * 21 * 25);
    assert_eq!(c.normals().len(), 6 * 21 * 25);
    assert_eq!(c.tex_coords().len(), 6 * 21 * 25);
    assert_eq!(c.num_particles_width(), 22);
    assert_eq!(c.num_particles_height(), 26);

    let small = standard_cloth(1.0, 1.0, 2, 2);
    assert_eq!(small.particles().len(), 4);
    assert_eq!(small.triangles().len(), 6);
}

#[test]
fn counts_hold_after_updates() {
    let mut c = standard_cloth(4.0, 3.0, 5, 4);
    c.update(DEFAULT_STEP_NANOS * 3);
    c.add_wind_force(v(1.0, 0.0, 1.0));
    c.mouse_force(2, 2, F(1.0), F(1.0));
    c.update(DEFAULT_STEP_NANOS);
    assert_eq!(c.particles().len(), 20);
    assert_eq!(c.triangles().len(), 6 * 4 * 3);
    assert_eq!(c.normals().len(), 6 * 4 * 3);
    assert_eq!(c.tex_coords().len(), 6 * 4 * 3);
}

#[test]
fn layout_positions_and_tex_coords() {
    let c = standard_cloth(10.0, 14.0, 5, 7);
    let p = &c.particles()[c.particle_index(2, 3)];
    assert!((p.position.0.x - 10.0 * 2.0 / 5.0).abs() < 1e-5);
    assert!((p.position.0.y + 14.0 * 3.0 / 7.0).abs() < 1e-5);
    assert_eq!(p.position.0.z, 0.0);
    assert_eq!(p.position, p.old_position);
    assert!((p.tex_coords.0 .0 - 2.0 / 5.0).abs() < 1e-6);
    assert!((p.tex_coords.1 .0 - 3.0 / 7.0).abs() < 1e-6);
    assert_eq!(c.particle_index(2, 3), 3 * 5 + 2);
}

#[test]
fn anchors_are_three_columns_at_each_end_of_top_row() {
    let c = standard_cloth(8.0, 4.0, 8, 4);
    let ps = c.particles();
    for x in 0..8 {
        let pinned = x < 3 || x >= 5;
        assert_eq!(ps[x].is_movable, !pinned, "column {}", x);
    }
    for i in 8..32 {
        assert!(ps[i].is_movable);
    }
}

#[test]
fn constraints_in_creation_order() {
    let c = Cloth::new(F(3.0), F(3.0), 3, 3, still_config(1, 0)).unwrap_or_else(|_| panic!());
    let pairs: Vec<(usize, usize)> = c.constraints().iter().map(|k| (k.p1, k.p2)).collect();
    // structural and shear: 6 + 6 + 8; bending: 3 + 3 + 2
    assert_eq!(pairs.len(), 28);
    assert_eq!(&pairs[0..4], &[(0, 1), (0, 3), (0, 4), (1, 3)]);
    // second cell of the first sweep is (0, 1): right, down, diagonals
    assert_eq!(&pairs[4..8], &[(3, 4), (3, 6), (3, 7), (4, 6)]);
    // the bending sweep starts at cell (0, 0)
    assert_eq!(&pairs[20..24], &[(0, 2), (0, 6), (0, 8), (2, 6)]);
    for k in c.constraints() {
        assert!(k.p1 < 9 && k.p2 < 9);
        let d = (c.particles()[k.p1].position.0 - c.particles()[k.p2].position.0).magnitude();
        assert!((k.rest_distance.0 - d).abs() < 1e-6);
        assert!(k.rest_distance.0 > 0.0);
    }
}

#[test]
fn buffers_show_particles_in_quad_order() {
    let c = standard_cloth(3.0, 3.0, 3, 3);
    let ps = c.particles();
    let t = c.triangles();
    let tc = c.tex_coords();
    let idx = |x: usize, y: usize| y * 3 + x;
    let expected = [idx(1, 0), idx(0, 0), idx(0, 1), idx(1, 1), idx(1, 0), idx(0, 1)];
    for (k, i) in expected.iter().enumerate() {
        assert_eq!(t[k], ps[*i].position);
        assert_eq!(tc[k], ps[*i].tex_coords);
    }
    // second quad is (0, 1): quads go column by column
    assert_eq!(t[6], ps[idx(1, 1)].position);
    assert_eq!(t[7], ps[idx(0, 1)].position);
    // a flat cloth in the z = 0 plane has unit normals along z
    for n in c.normals() {
        assert!((n.0.magnitude() - 1.0).abs() < 1e-5);
        assert!((n.0.z.abs() - 1.0).abs() < 1e-5);
    }
}

#[test]
fn short_frame_runs_no_step() {
    let mut c = standard_cloth(10.0, 14.0, 6, 6);
    let before: Vec<V3> = c.triangles().to_vec();
    let particles_before: Vec<V3> = c.particles().iter().map(|p| p.position).collect();
    let steps = c.update(DEFAULT_STEP_NANOS - 1);
    assert_eq!(steps, 0);
    assert_eq!(c.triangles(), &before[..]);
    let particles_after: Vec<V3> = c.particles().iter().map(|p| p.position).collect();
    assert_eq!(particles_after, particles_before);
    assert_eq!(c.pending_nanos(), DEFAULT_STEP_NANOS - 1);
}

#[test]
fn zero_frame_runs_no_step() {
    let mut c = standard_cloth(10.0, 14.0, 4, 4);
    assert_eq!(c.update(0), 0);
    assert_eq!(c.pending_nanos(), 0);
}

#[test]
fn sixtieth_of_a_second_runs_two_steps() {
    let mut c = standard_cloth(10.0, 14.0, 6, 6);
    let frame = std::time::Duration::from_secs_f64(1.0 / 60.0).as_nanos() as u64;
    assert_eq!(c.update(frame), 2);
}

#[test]
fn whole_steps_run_exactly() {
    let mut c = standard_cloth(10.0, 14.0, 4, 4);
    assert_eq!(c.update(DEFAULT_STEP_NANOS * 3), 3);
    assert_eq!(c.pending_nanos(), 0);
    assert_eq!(c.update(DEFAULT_STEP_NANOS / 2), 0);
    assert_eq!(c.update(DEFAULT_STEP_NANOS * 2), 2);
    assert_eq!(c.pending_nanos(), DEFAULT_STEP_NANOS / 2);
}

#[test]
fn steps_refresh_buffers() {
    let mut c = standard_cloth(10.0, 14.0, 5, 5);
    let before: Vec<V3> = c.triangles().to_vec();
    assert_eq!(c.update(DEFAULT_STEP_NANOS), 1);
    assert_ne!(c.triangles(), &before[..]);
    let ps = c.particles();
    assert_eq!(c.triangles()[0], ps[1].position);
    assert_eq!(c.triangles()[1], ps[0].position);
}

#[test]
fn anchors_never_move() {
    let mut c = standard_cloth(10.0, 14.0, 10, 8);
    let anchored: Vec<(usize, V3)> = c
        .particles()
        .iter()
        .enumerate()
        .filter(|(_, p)| !p.is_movable)
        .map(|(i, p)| (i, p.position))
        .collect();
    assert_eq!(anchored.len(), 6);
    for frame in 0..30 {
        c.add_force(v(0.5, -3.0, 1.0));
        c.add_wind_force(v(2.0, 0.0, 3.0));
        c.drag_force(4, 1 + frame % 3, F(5.0), F(-2.0));
        c.time_step(F(0.01));
        c.update(DEFAULT_STEP_NANOS * 2);
    }
    for (i, p) in anchored {
        assert_eq!(c.particles()[i].position, p);
        assert!(!c.particles()[i].is_movable);
    }
    // the free part did move
    assert_ne!(c.particles()[c.particle_index(5, 7)].position, c.particles()[c.particle_index(5, 7)].old_position);
}

#[test]
fn both_movable_constraint_moves_equal_and_opposite() {
    let mut ps = vec![free_particle(v(0.0, 0.0, 0.0)), free_particle(v(2.0, 0.0, 0.0))];
    let k: Constraint<V3> = Constraint::new(0, 1, F(1.0));
    k.satisfy(&mut ps);
    let d0 = ps[0].position.0 - Vector3::new(0.0, 0.0, 0.0);
    let d1 = ps[1].position.0 - Vector3::new(2.0, 0.0, 0.0);
    assert_eq!(d0, -d1);
    assert!((d0.x - 0.5).abs() < 1e-6);
    let dist = (ps[1].position.0 - ps[0].position.0).magnitude();
    assert!((dist - 1.0).abs() < 1e-6);
}

#[test]
fn repeated_satisfy_drives_error_down() {
    let mut ps = vec![free_particle(v(0.0, 0.0, 0.0)), free_particle(v(3.0, 4.0, 0.0))];
    // rest 2, current 5
    let k: Constraint<V3> = Constraint::new(0, 1, F(2.0));
    let mut last = f32::INFINITY;
    for _ in 0..5 {
        let e = ((ps[1].position.0 - ps[0].position.0).magnitude() - 2.0).abs();
        assert!(e <= last);
        last = e;
        k.satisfy(&mut ps);
    }
    let e = ((ps[1].position.0 - ps[0].position.0).magnitude() - 2.0).abs();
    assert!(e < 1e-5);
}

#[test]
fn pinned_end_takes_no_correction() {
    let mut both = vec![free_particle(v(0.0, 0.0, 0.0)), free_particle(v(2.0, 0.0, 0.0))];
    let mut pinned = vec![free_particle(v(0.0, 0.0, 0.0)), free_particle(v(2.0, 0.0, 0.0))];
    pinned[0].make_unmovable();
    let k: Constraint<V3> = Constraint::new(0, 1, F(1.0));
    k.satisfy(&mut both);
    k.satisfy(&mut pinned);
    assert_eq!(pinned[0].position, v(0.0, 0.0, 0.0));
    let moved_both = (both[1].position.0 - Vector3::new(2.0, 0.0, 0.0)).magnitude();
    let moved_pinned = (pinned[1].position.0 - Vector3::new(2.0, 0.0, 0.0)).magnitude();
    assert!((moved_pinned - 2.0 * moved_both).abs() < 1e-6);
    assert!((moved_pinned - 1.0).abs() < 1e-6);
}

#[test]
fn pinned_end_second_position() {
    let mut ps = vec![free_particle(v(0.0, 0.0, 0.0)), free_particle(v(0.0, -3.0, 0.0))];
    ps[1].make_unmovable();
    let k: Constraint<V3> = Constraint::new(0, 1, F(1.0));
    k.satisfy(&mut ps);
    assert_eq!(ps[1].position, v(0.0, -3.0, 0.0));
    assert!((ps[0].position.0.y + 2.0).abs() < 1e-6);
    let dist = (ps[1].position.0 - ps[0].position.0).magnitude();
    assert!((dist - 1.0).abs() < 1e-6);
}

#[test]
fn two_anchors_stay_apart() {
    let mut ps = vec![free_particle(v(0.0, 0.0, 0.0)), free_particle(v(2.0, 0.0, 0.0))];
    ps[0].make_unmovable();
    ps[1].make_unmovable();
    let k: Constraint<V3> = Constraint::new(0, 1, F(1.0));
    k.satisfy(&mut ps);
    assert_eq!(ps[0].position, v(0.0, 0.0, 0.0));
    assert_eq!(ps[1].position, v(2.0, 0.0, 0.0));
}

#[test]
fn coincident_particles_are_skipped() {
    let mut ps = vec![free_particle(v(1.0, 1.0, 1.0)), free_particle(v(1.0, 1.0, 1.0))];
    let k: Constraint<V3> = Constraint::new(0, 1, F(1.0));
    k.satisfy(&mut ps);
    assert_eq!(ps[0].position, v(1.0, 1.0, 1.0));
    assert_eq!(ps[1].position, v(1.0, 1.0, 1.0));
    assert!(!ps[0].position.0.x.is_nan());
}

#[test]
fn rest_configuration_is_fixed_point() {
    // sides of 2 over 2 particles: unit spacing
    let mut c = Cloth::new(F(2.0), F(2.0), 2, 2, still_config(1, 0)).unwrap_or_else(|_| panic!());
    assert_eq!(c.particles().len(), 4);
    assert_eq!(c.particles()[1].position, v(1.0, 0.0, 0.0));
    assert_eq!(c.particles()[2].position, v(0.0, -1.0, 0.0));
    assert_eq!(c.triangles().len(), 6);
    assert!(c.particles().iter().all(|p| p.is_movable));
    let before: Vec<V3> = c.particles().iter().map(|p| p.position).collect();
    c.relax();
    let after: Vec<V3> = c.particles().iter().map(|p| p.position).collect();
    assert_eq!(after, before);
}

#[test]
fn one_step_of_unit_gravity_moves_by_step() {
    let mut c = Cloth::new(F(2.0), F(2.0), 2, 2, still_config(0, 0)).unwrap_or_else(|_| panic!());
    let before: Vec<f32> = c.particles().iter().map(|p| p.position.0.y).collect();
    let dt = step_seconds();
    c.add_force(v(0.0, -1.0, 0.0));
    c.time_step(F(dt));
    for (p, y0) in c.particles().iter().zip(before.iter()) {
        assert!(((p.position.0.y - y0) + dt).abs() < 1e-6);
        assert_eq!(p.old_position.0.y, *y0);
        assert_eq!(p.acceleration, v(0.0, 0.0, 0.0));
    }
}

#[test]
fn verlet_step_formula() {
    let mut p = free_particle(v(1.0, 0.0, 0.0));
    p.old_position = v(0.0, 0.0, 0.0);
    p.add_force(v(0.0, 2.0, 0.0));
    p.time_step(F(0.5), F(0.1));
    assert!((p.position.0.x - 1.9).abs() < 1e-6);
    assert!((p.position.0.y - 1.0).abs() < 1e-6);
    assert_eq!(p.old_position, v(1.0, 0.0, 0.0));
    assert_eq!(p.acceleration, v(0.0, 0.0, 0.0));
}

#[test]
fn pinned_particle_ignores_step_and_offset() {
    let mut p = free_particle(v(1.0, 2.0, 3.0));
    p.make_unmovable();
    p.add_force(v(5.0, 5.0, 5.0));
    assert_eq!(p.acceleration, v(5.0, 5.0, 5.0));
    p.offset_pos(v(1.0, 1.0, 1.0));
    p.time_step(F(1.0), F(0.0));
    assert_eq!(p.position, v(1.0, 2.0, 3.0));
    assert_eq!(p.acceleration, v(0.0, 0.0, 0.0));
}

#[test]
fn normals_accumulate_unit_vectors() {
    let mut p = free_particle(v(0.0, 0.0, 0.0));
    p.add_normal(v(0.0, 0.0, 10.0));
    p.add_normal(v(0.0, 0.0, 0.5));
    assert_eq!(p.accumulated_normal, v(0.0, 0.0, 2.0));
    p.reset_normal();
    assert_eq!(p.accumulated_normal, v(0.0, 0.0, 0.0));
}

#[test]
fn uniform_force_reaches_every_particle() {
    let mut c = Cloth::new(F(2.0), F(2.0), 3, 3, still_config(0, 3)).unwrap_or_else(|_| panic!());
    c.add_force(v(0.0, -1.0, 0.0));
    for p in c.particles() {
        assert_eq!(p.acceleration, v(0.0, -1.0, 0.0));
    }
}

#[test]
fn wind_pushes_along_face_normal() {
    let mut c = Cloth::new(F(2.0), F(2.0), 2, 2, still_config(0, 0)).unwrap_or_else(|_| panic!());
    c.add_wind_force(v(0.0, 0.0, 1.0));
    // each triangle has area 0.5, |n| = 1; both triangles face the same way
    for p in c.particles() {
        assert_eq!(p.acceleration.0.x, 0.0);
        assert_eq!(p.acceleration.0.y, 0.0);
        assert!(p.acceleration.0.z.abs() > 0.0);
    }
    let corner = &c.particles()[c.particle_index(1, 0)];
    assert!((corner.acceleration.0.z.abs() - 2.0).abs() < 1e-5);
    let lone = &c.particles()[c.particle_index(0, 0)];
    assert!((lone.acceleration.0.z.abs() - 1.0).abs() < 1e-5);
}

#[test]
fn wind_in_the_plane_does_nothing() {
    let mut c = Cloth::new(F(2.0), F(2.0), 3, 3, still_config(0, 0)).unwrap_or_else(|_| panic!());
    c.add_wind_force(v(1.0, 0.0, 0.0));
    for p in c.particles() {
        assert!(p.acceleration.0.magnitude() < 1e-6);
    }
}

#[test]
fn mouse_force_hits_one_particle() {
    let mut c = Cloth::new(F(2.0), F(2.0), 3, 3, still_config(0, 0)).unwrap_or_else(|_| panic!());
    c.mouse_force(1, 2, F(3.0), F(-4.0));
    for (i, p) in c.particles().iter().enumerate() {
        if i == 2 * 3 + 1 {
            assert_eq!(p.acceleration, v(3.0, -4.0, 0.0));
        } else {
            assert_eq!(p.acceleration, v(0.0, 0.0, 0.0));
        }
    }
}

#[test]
fn mouse_force_out_of_range_is_ignored() {
    let mut c = Cloth::new(F(2.0), F(2.0), 3, 3, still_config(0, 0)).unwrap_or_else(|_| panic!());
    c.mouse_force(3, 0, F(1.0), F(1.0));
    c.mouse_force(0, 3, F(1.0), F(1.0));
    c.mouse_force(usize::MAX, usize::MAX, F(1.0), F(1.0));
    for p in c.particles() {
        assert_eq!(p.acceleration, v(0.0, 0.0, 0.0));
    }
}

#[test]
fn drag_nudges_diagonal_neighbours() {
    let mut c = Cloth::new(F(2.0), F(2.0), 3, 3, still_config(0, 0)).unwrap_or_else(|_| panic!());
    c.drag_force(1, 1, F(1.0), F(2.0));
    let touched = [0, 4, 8];
    for (i, p) in c.particles().iter().enumerate() {
        if touched.contains(&i) {
            assert_eq!(p.acceleration, v(1.0, 2.0, 0.0));
        } else {
            assert_eq!(p.acceleration, v(0.0, 0.0, 0.0));
        }
    }
}

#[test]
fn drag_at_corner_stays_on_lattice() {
    let mut c = Cloth::new(F(2.0), F(2.0), 3, 3, still_config(0, 0)).unwrap_or_else(|_| panic!());
    c.drag_force(0, 0, F(1.0), F(0.0));
    c.drag_force(2, 2, F(1.0), F(0.0));
    assert_eq!(c.particles()[0].acceleration, v(1.0, 0.0, 0.0));
    assert_eq!(c.particles()[4].acceleration, v(2.0, 0.0, 0.0));
    assert_eq!(c.particles()[8].acceleration, v(1.0, 0.0, 0.0));
}

#[test]
fn ray_picks_first_corner_of_hit_triangle() {
    let c = Cloth::new(F(3.0), F(3.0), 3, 3, still_config(0, 0)).unwrap_or_else(|_| panic!());
    // particles sit at x = 0, 1, 2 and y = 0, -1, -2
    let upper = Ray::new(v(0.3, -0.3, 5.0), v(0.0, 0.0, -1.0));
    assert_eq!(c.intersects(&upper), Some((1, 0)));
    let lower = Ray::new(v(0.8, -0.8, 5.0), v(0.0, 0.0, -1.0));
    assert_eq!(c.intersects(&lower), Some((1, 1)));
    let far_quad = Ray::new(v(1.7, -1.8, -5.0), v(0.0, 0.0, 1.0));
    assert_eq!(c.intersects(&far_quad), Some((2, 2)));
}

#[test]
fn ray_that_misses_reports_nothing() {
    let c = Cloth::new(F(3.0), F(3.0), 3, 3, still_config(0, 0)).unwrap_or_else(|_| panic!());
    let away = Ray::new(v(0.5, -0.5, 5.0), v(0.0, 0.0, 1.0));
    assert_eq!(c.intersects(&away), None);
    let outside = Ray::new(v(10.0, 10.0, 5.0), v(0.0, 0.0, -1.0));
    assert_eq!(c.intersects(&outside), None);
    let parallel = Ray::new(v(-1.0, -0.5, 0.0), v(1.0, 0.0, 0.0));
    assert_eq!(c.intersects(&parallel), None);
}

#[test]
fn nearest_index_takes_first_smallest() {
    let hits = vec![None, Some(F(3.0)), Some(F(1.0)), Some(F(1.0)), None, Some(F(2.0))];
    assert_eq!(nearest_index(&hits), Some(2));
    let one = vec![None, None, Some(F(7.0))];
    assert_eq!(nearest_index(&one), Some(2));
}

#[test]
fn nearest_index_without_hits() {
    let none: Vec<Option<F>> = vec![None, None, None];
    assert_eq!(nearest_index(&none), None);
    let empty: Vec<Option<F>> = Vec::new();
    assert_eq!(nearest_index(&empty), None);
}

#[test]
fn triangle_corners_in_mesh_order() {
    assert_eq!(corner_of_triangle(3, 3, 0), (1, 0));
    assert_eq!(corner_of_triangle(3, 3, 1), (1, 1));
    assert_eq!(corner_of_triangle(3, 3, 2), (1, 1));
    assert_eq!(corner_of_triangle(3, 3, 3), (1, 2));
    assert_eq!(corner_of_triangle(3, 3, 4), (2, 0));
    assert_eq!(corner_of_triangle(3, 3, 7), (2, 2));
}
