//! The renderable buffers: six corners per quad, no shared vertices.
use vstd::prelude::*;
use crate::grid::{
    buffer_len,
    corners_upto,
    grid_index,
    lemma_cell_order,
    lemma_corners_in_bounds,
    lemma_corners_len,
    mesh_corners,
    quad_corners,
};
use crate::math::Vector;
use crate::particle::Particle;

verus! {

/// `vertices` and `tex_coords` show, entry by entry, the position and the
/// texture coordinate of the particle at that corner of the mesh, and
/// `normals` its normalised accumulated normal; every corner is a particle
/// of the lattice.
pub open spec fn shows_particles<V: Vector>(
    particles: Seq<Particle<V>>,
    cols: int,
    rows: int,
    vertices: Seq<V>,
    normals: Seq<V>,
    tex_coords: Seq<(V::Scalar, V::Scalar)>,
) -> bool {
    let corners = mesh_corners(cols, rows);
    &&& vertices.len() == buffer_len(cols, rows)
    &&& normals.len() == buffer_len(cols, rows)
    &&& tex_coords.len() == buffer_len(cols, rows)
    &&& corners.len() == buffer_len(cols, rows)
    &&& forall|k: int| 0 <= k < corners.len() ==> 0 <= #[trigger] corners[k] < particles.len()
    &&& forall|k: int|
        0 <= k < vertices.len() ==> #[trigger] vertices[k] == particles[corners[k]].position
    &&& forall|k: int|
        0 <= k < tex_coords.len() ==> #[trigger] tex_coords[k] == particles[corners[k]].tex_coords
    &&& forall|k: int|
        0 <= k < normals.len() ==> #[trigger] normals[k]
            == particles[corners[k]].accumulated_normal.spec_normalized()
}

fn push_corner<V: Vector>(
    particles: &Vec<Particle<V>>,
    i: usize,
    vertices: &mut Vec<V>,
    normals: &mut Vec<V>,
    tex_coords: &mut Vec<(V::Scalar, V::Scalar)>,
)
    requires
        i < particles.len(),
    ensures
        final(vertices)@ == old(vertices)@.push(particles@[i as int].position),
        final(tex_coords)@ == old(tex_coords)@.push(particles@[i as int].tex_coords),
        final(normals)@ == old(normals)@.push(
            particles@[i as int].accumulated_normal.spec_normalized(),
        ),
{
    vertices.push(particles[i].position);
    normals.push(particles[i].accumulated_normal.normalized());
    tex_coords.push(particles[i].tex_coords);
}

/// Rewrites the three buffers from the particles: per quad, in column by
/// column order, the corners of its two triangles, each with its position,
/// its texture coordinate and its normalised accumulated normal.
pub fn fill_buffers<V: Vector>(
    particles: &Vec<Particle<V>>,
    cols: usize,
    rows: usize,
    vertices: &mut Vec<V>,
    normals: &mut Vec<V>,
    tex_coords: &mut Vec<(V::Scalar, V::Scalar)>,
)
    requires
        cols >= 2,
        rows >= 2,
        particles.len() == cols * rows,
        6 * cols * rows <= usize::MAX,
    ensures
        shows_particles(
            particles@,
            cols as int,
            rows as int,
            final(vertices)@,
            final(normals)@,
            final(tex_coords)@,
        ),
{
    let ghost c = cols as int;
    let ghost r = rows as int;
    let ghost ps = particles@;
    vertices.clear();
    normals.clear();
    tex_coords.clear();
    let mut x: usize = 0;
    while x < cols - 1
        invariant
            x <= cols - 1,
            c == cols,
            r == rows,
            ps == particles@,
            cols >= 2,
            rows >= 2,
            particles.len() == cols * rows,
            6 * cols * rows <= usize::MAX,
            vertices@.len() == 6 * (x * (rows - 1)),
            normals@.len() == vertices@.len(),
            tex_coords@.len() == vertices@.len(),
            forall|k: int|
                0 <= k < vertices@.len() ==> #[trigger] vertices@[k] == ps[corners_upto(
                    c,
                    r,
                    (x * (rows - 1)) as nat,
                )[k]].position,
            forall|k: int|
                0 <= k < tex_coords@.len() ==> #[trigger] tex_coords@[k] == ps[corners_upto(
                    c,
                    r,
                    (x * (rows - 1)) as nat,
                )[k]].tex_coords,
            forall|k: int|
                0 <= k < normals@.len() ==> #[trigger] normals@[k] == ps[corners_upto(
                    c,
                    r,
                    (x * (rows - 1)) as nat,
                )[k]].accumulated_normal.spec_normalized(),
        decreases cols - x,
    {
        let mut y: usize = 0;
        while y < rows - 1
            invariant
                x < cols - 1,
                y <= rows - 1,
                c == cols,
                r == rows,
                ps == particles@,
                cols >= 2,
                rows >= 2,
                particles.len() == cols * rows,
                6 * cols * rows <= usize::MAX,
                vertices@.len() == 6 * (x * (rows - 1) + y),
                normals@.len() == vertices@.len(),
                tex_coords@.len() == vertices@.len(),
                forall|k: int|
                    0 <= k < vertices@.len() ==> #[trigger] vertices@[k] == ps[corners_upto(
                        c,
                        r,
                        (x * (rows - 1) + y) as nat,
                    )[k]].position,
                forall|k: int|
                    0 <= k < tex_coords@.len() ==> #[trigger] tex_coords@[k] == ps[corners_upto(
                        c,
                        r,
                        (x * (rows - 1) + y) as nat,
                    )[k]].tex_coords,
                forall|k: int|
                    0 <= k < normals@.len() ==> #[trigger] normals@[k] == ps[corners_upto(
                        c,
                        r,
                        (x * (rows - 1) + y) as nat,
                    )[k]].accumulated_normal.spec_normalized(),
            decreases rows - y,
        {
            let ghost n = x * (rows - 1) + y;
            let ghost old_v = vertices@;
            let ghost old_t = tex_coords@;
            let ghost old_n = normals@;
            proof {
                assert((x + 1) * (rows - 1) <= (cols - 1) * (rows - 1)) by (nonlinear_arith)
                    requires
                        x < cols - 1,
                        rows >= 2,
                ;
                assert((cols - 1) * (rows - 1) <= cols * rows) by (nonlinear_arith)
                    requires
                        cols >= 2,
                        rows >= 2,
                ;
                assert(x * (rows - 1) + y + 1 <= (x + 1) * (rows - 1)) by (nonlinear_arith)
                    requires
                        y < rows - 1,
                ;
            }
            let right = grid_index(cols, rows, x + 1, y);
            let here = grid_index(cols, rows, x, y);
            let below = grid_index(cols, rows, x, y + 1);
            let corner = grid_index(cols, rows, x + 1, y + 1);
            push_corner(particles, right, vertices, normals, tex_coords);
            push_corner(particles, here, vertices, normals, tex_coords);
            push_corner(particles, below, vertices, normals, tex_coords);
            push_corner(particles, corner, vertices, normals, tex_coords);
            push_corner(particles, right, vertices, normals, tex_coords);
            push_corner(particles, below, vertices, normals, tex_coords);
            proof {
                lemma_cell_order(n, r - 1, x as int, y as int);
                lemma_corners_len(c, r, n as nat);
                let before = corners_upto(c, r, n as nat);
                let after = corners_upto(c, r, (n + 1) as nat);
                let quad = quad_corners(c, x as int, y as int);
                assert(after == before + quad);
                assert(quad =~= seq![
                    right as int,
                    here as int,
                    below as int,
                    corner as int,
                    right as int,
                    below as int,
                ]);
                assert forall|k: int| 0 <= k < vertices@.len() implies #[trigger] vertices@[k]
                    == ps[after[k]].position by {
                    if k < 6 * n {
                        assert(vertices@[k] == old_v[k]);
                        assert(after[k] == before[k]);
                    }
                }
                assert forall|k: int| 0 <= k < tex_coords@.len() implies #[trigger] tex_coords@[k]
                    == ps[after[k]].tex_coords by {
                    if k < 6 * n {
                        assert(tex_coords@[k] == old_t[k]);
                        assert(after[k] == before[k]);
                    }
                }
                assert forall|k: int| 0 <= k < normals@.len() implies #[trigger] normals@[k]
                    == ps[after[k]].accumulated_normal.spec_normalized() by {
                    if k < 6 * n {
                        assert(normals@[k] == old_n[k]);
                        assert(after[k] == before[k]);
                    }
                }
            }
            y = y + 1;
        }
        proof {
            assert(x * (rows - 1) + (rows - 1) == (x + 1) * (rows - 1)) by (nonlinear_arith);
        }
        x = x + 1;
    }
    proof {
        assert(6 * ((cols - 1) * (rows - 1)) == buffer_len(c, r)) by (nonlinear_arith)
            requires
                c == cols,
                r == rows,
        ;
        lemma_corners_len(c, r, ((cols - 1) * (rows - 1)) as nat);
        lemma_corners_in_bounds(c, r, ((cols - 1) * (rows - 1)) as nat);
    }
}

} // verus!
