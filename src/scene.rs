use crate::collision::{participants_of, Collision};
use crate::particle::{colors_of, glyph_of, Particle, ParticleColors, ParticleId};
use crate::spatial::{cell_of_coord, ConsoleCell};
use crossterm::style::Color;
use vstd::prelude::*;

verus! {

/// The particles of a simulation and the next identity to hand out.
#[derive(Clone)]
pub struct Scene {
    pub particles: Vec<Particle>,
    pub next_id: u64,
}

/// What a scene shows in one tick: the cells to draw and the collisions.
pub struct RenderableScene {
    pub cells: Vec<(ConsoleCell, char, ParticleColors)>,
    pub collisions: Vec<Collision>,
}

/// Whether `(x, y)` lies inside the border ring of a `w` by `h` grid.
pub open spec fn interior(x: int, y: int, w: int, h: int) -> bool {
    1 <= x < w - 1 && 1 <= y < h - 1
}

/// Sprite cells placed so that `anchor` lands on `base`, without those that
/// fall outside the interior; each with foreground from the sprite and
/// background `bg`.
pub open spec fn placed(
    cells: Seq<(ConsoleCell, char, Color)>,
    anchor: ConsoleCell,
    base: ConsoleCell,
    bg: Color,
    w: int,
    h: int,
) -> Seq<(ConsoleCell, char, ParticleColors)>
    decreases cells.len(),
{
    if cells.len() == 0 {
        seq![]
    } else {
        let rest = placed(cells.drop_last(), anchor, base, bg, w, h);
        let (rel, ch, fg) = cells.last();
        let x = base.x + rel.x - anchor.x;
        let y = base.y + rel.y - anchor.y;
        if interior(x, y, w, h) {
            rest.push(
                (ConsoleCell { x: x as u16, y: y as u16 }, ch, ParticleColors { foreground: fg, background: bg }),
            )
        } else {
            rest
        }
    }
}

/// The drawn cells of one particle.
pub open spec fn particle_cells(p: Particle, w: int, h: int) -> Seq<(ConsoleCell, char, ParticleColors)> {
    placed(
        seq![(ConsoleCell { x: 0, y: 0 }, glyph_of(p), colors_of(p).foreground)],
        ConsoleCell { x: 0, y: 0 },
        cell_of_coord(p.position),
        colors_of(p).background,
        w,
        h,
    )
}

/// The drawn cells of the first `n` particles, in slot order.
pub open spec fn render_cells(ps: Seq<Particle>, n: int, w: int, h: int) -> Seq<
    (ConsoleCell, char, ParticleColors),
>
    decreases n,
{
    if n <= 0 {
        seq![]
    } else {
        render_cells(ps, n - 1, w, h) + particle_cells(ps[n - 1], w, h)
    }
}

/// The grid cell of the particle in slot `i`.
pub open spec fn cell_at(ps: Seq<Particle>, i: int) -> ConsoleCell {
    cell_of_coord(ps[i].position)
}

/// Ids of the particles among the first `n` slots that stand in cell `c`, in
/// slot order.
pub open spec fn ids_in_cell(ps: Seq<Particle>, c: ConsoleCell, n: int) -> Seq<ParticleId>
    decreases n,
{
    if n <= 0 {
        seq![]
    } else if cell_at(ps, n - 1) == c {
        ids_in_cell(ps, c, n - 1).push(ps[n - 1].uid)
    } else {
        ids_in_cell(ps, c, n - 1)
    }
}

/// No earlier slot stands in the cell of slot `i`.
pub open spec fn first_in_cell(ps: Seq<Particle>, i: int) -> bool {
    forall|j: int| 0 <= j < i ==> cell_at(ps, j) != cell_at(ps, i)
}

/// The collisions claimed by the first `n` slots: each slot that is the first
/// in its cell, where the cell holds two or more particles, gives the ids of
/// every particle in that cell.
pub open spec fn collisions_upto(ps: Seq<Particle>, n: int) -> Seq<Seq<ParticleId>>
    decreases n,
{
    if n <= 0 {
        seq![]
    } else {
        let ids = ids_in_cell(ps, cell_at(ps, n - 1), ps.len() as int);
        if first_in_cell(ps, n - 1) && ids.len() >= 2 {
            collisions_upto(ps, n - 1).push(ids)
        } else {
            collisions_upto(ps, n - 1)
        }
    }
}

/// The collisions of a particle set, one per shared cell, in the order in
/// which the cells are first met.
pub open spec fn collisions_of(ps: Seq<Particle>) -> Seq<Seq<ParticleId>> {
    collisions_upto(ps, ps.len() as int)
}

/// Ids are either unassigned or below `next_id`.
pub open spec fn ids_below(ps: Seq<Particle>, next_id: u64) -> bool {
    forall|i: int| 0 <= i < ps.len() ==> (#[trigger] ps[i]).uid.0 == 0 || ps[i].uid.0 < next_id
}

/// The identity `add_particle` gives a particle.
pub open spec fn assigned_id(next_id: u64, p: Particle) -> ParticleId {
    if p.uid.0 == 0 {
        ParticleId(next_id)
    } else {
        p.uid
    }
}

/// `next_id` after `add_particle`.
pub open spec fn next_id_after(next_id: u64, p: Particle) -> int {
    if p.uid.0 == 0 {
        next_id + 1
    } else if p.uid.0 >= next_id {
        p.uid.0 + 1
    } else {
        next_id as int
    }
}

proof fn lemma_ids_in_cell_none(ps: Seq<Particle>, c: ConsoleCell, n: int)
    requires
        forall|j: int| 0 <= j < n ==> cell_at(ps, j) != c,
    ensures
        ids_in_cell(ps, c, n) == Seq::<ParticleId>::empty(),
    decreases n,
{
    if n > 0 {
        lemma_ids_in_cell_none(ps, c, n - 1);
    }
}

/// Two particles in one cell and a third in another give exactly one
/// collision, which holds the ids of the first two; the third takes part in
/// none.
pub proof fn lemma_two_share_one_apart(a: Particle, b: Particle, c: Particle)
    requires
        cell_of_coord(a.position) == cell_of_coord(b.position),
        cell_of_coord(c.position) != cell_of_coord(a.position),
    ensures
        collisions_of(seq![a, b, c]) == seq![seq![a.uid, b.uid]],
{
    let ps = seq![a, b, c];
    let ca = cell_of_coord(a.position);
    let cc = cell_of_coord(c.position);
    assert(cell_at(ps, 0) == ca && cell_at(ps, 1) == ca && cell_at(ps, 2) == cc);
    assert(ids_in_cell(ps, ca, 0) == Seq::<ParticleId>::empty());
    assert(ids_in_cell(ps, ca, 1) == seq![a.uid]);
    assert(ids_in_cell(ps, ca, 2) == seq![a.uid, b.uid]);
    assert(ids_in_cell(ps, ca, 3) == seq![a.uid, b.uid]);
    assert(ids_in_cell(ps, cc, 2) == Seq::<ParticleId>::empty()) by {
        lemma_ids_in_cell_none(ps, cc, 2);
    }
    assert(ids_in_cell(ps, cc, 3) == seq![c.uid]);
    assert(first_in_cell(ps, 0));
    assert(!first_in_cell(ps, 1));
    assert(collisions_upto(ps, 0) == Seq::<Seq<ParticleId>>::empty());
    assert(collisions_upto(ps, 1) == seq![seq![a.uid, b.uid]]);
    assert(collisions_upto(ps, 2) == seq![seq![a.uid, b.uid]]);
}

impl Scene {
    /// Every id is unassigned or below `next_id`, and `next_id` is not the
    /// unassigned id.
    pub open spec fn wf(self) -> bool {
        self.next_id >= 1 && ids_below(self.particles@, self.next_id)
    }

    pub fn new(particles: Vec<Particle>) -> (r: Self)
        ensures
            r.particles@ == particles@,
            r.next_id == 1,
    {
        Self { particles, next_id: 1 }
    }

    /// Appends a particle. An unassigned id becomes `next_id`, which then
    /// advances; an id at or above `next_id` moves `next_id` past it.
    pub fn add_particle(&mut self, particle: Particle)
        requires
            particle.uid.0 == 0 ==> old(self).next_id < u64::MAX,
            particle.uid.0 >= old(self).next_id ==> particle.uid.0 < u64::MAX,
        ensures
            final(self).particles@ == old(self).particles@.push(
                Particle { uid: assigned_id(old(self).next_id, particle), ..particle },
            ),
            final(self).next_id == next_id_after(old(self).next_id, particle),
            old(self).wf() ==> final(self).wf(),
            old(self).wf() && particle.uid.0 == 0 ==> forall|i: int|
                0 <= i < old(self).particles@.len() ==> old(self).particles@[i].uid
                    != assigned_id(old(self).next_id, particle),
    {
        let mut particle = particle;
        if particle.uid.0 == 0 {
            particle.uid = ParticleId(self.next_id);
            self.next_id = self.next_id + 1;
        } else if particle.uid.0 >= self.next_id {
            self.next_id = particle.uid.0 + 1;
        }
        self.particles.push(particle);
        proof {
            if old(self).wf() {
                let ps = self.particles@;
                assert forall|i: int| 0 <= i < ps.len() implies (#[trigger] ps[i]).uid.0 == 0
                    || ps[i].uid.0 < self.next_id by {
                    if i < ps.len() - 1 {
                        assert(ps[i] == old(self).particles@[i]);
                    }
                }
            }
        }
    }

    /// The cells to draw, in slot order, and the collisions, for a grid of
    /// `cell_width` by `cell_height` cells.
    pub fn get_renderable(&self, cell_width: u16, cell_height: u16) -> (r: RenderableScene)
        ensures
            r.cells@ == render_cells(
                self.particles@,
                self.particles@.len() as int,
                cell_width as int,
                cell_height as int,
            ),
            r.collisions@.map_values(|c: Collision| participants_of(c)) == collisions_of(
                self.particles@,
            ),
    {
        let ghost ps = self.particles@;
        let ghost w = cell_width as int;
        let ghost h = cell_height as int;
        let n = self.particles.len();
        let mut cells_to_render: Vec<(ConsoleCell, char, ParticleColors)> = Vec::new();
        for i in 0..n
            invariant
                n == ps.len(),
                ps == self.particles@,
                w == cell_width as int,
                h == cell_height as int,
                cells_to_render@ == render_cells(ps, i as int, w, h),
        {
            let p = &self.particles[i];
            let base_cell = p.get_position().to_cell();
            let sprite = p.get_particle_char();
            let bg = p.get_colors().background;
            let ghost before = cells_to_render@;
            let m = sprite.cells.len();
            for k in 0..m
                invariant
                    m == sprite.cells@.len(),
                    w == cell_width as int,
                    h == cell_height as int,
                    cells_to_render@ == before + placed(
                        sprite.cells@.take(k as int),
                        sprite.anchor,
                        base_cell,
                        bg,
                        w,
                        h,
                    ),
            {
                let (rel_cell, ch, fg) = sprite.cells[k];
                let abs_x: i32 = base_cell.x as i32 + rel_cell.x as i32 - sprite.anchor.x as i32;
                let abs_y: i32 = base_cell.y as i32 + rel_cell.y as i32 - sprite.anchor.y as i32;
                let ghost done = placed(sprite.cells@.take(k as int), sprite.anchor, base_cell, bg, w, h);
                assert(sprite.cells@.take(k + 1).drop_last() == sprite.cells@.take(k as int));
                assert(sprite.cells@.take(k + 1).last() == sprite.cells@[k as int]);
                if abs_x >= 1 && abs_x < cell_width as i32 - 1 && abs_y >= 1 && abs_y
                    < cell_height as i32 - 1 {
                    let abs_cell = ConsoleCell::new(abs_x as u16, abs_y as u16);
                    let colors = ParticleColors { foreground: fg, background: bg };
                    cells_to_render.push((abs_cell, ch, colors));
                    assert(cells_to_render@ == before + done.push((abs_cell, ch, colors)));
                }
            }
            assert(sprite.cells@.take(m as int) == sprite.cells@);
        }

        let mut cells: Vec<ConsoleCell> = Vec::new();
        for i in 0..n
            invariant
                n == ps.len(),
                ps == self.particles@,
                cells@.len() == i,
                forall|j: int| 0 <= j < i ==> cells@[j] == cell_at(ps, j),
        {
            cells.push(self.particles[i].get_position().to_cell());
        }

        let mut collisions: Vec<Collision> = Vec::new();
        for i in 0..n
            invariant
                n == ps.len(),
                ps == self.particles@,
                cells@.len() == n,
                forall|j: int| 0 <= j < n ==> cells@[j] == cell_at(ps, j),
                collisions@.map_values(|c: Collision| participants_of(c)) == collisions_upto(
                    ps,
                    i as int,
                ),
        {
            let cell_i = cells[i];
            let mut seen = false;
            let mut k: usize = 0;
            while k < i
                invariant
                    k <= i < n,
                    cells@.len() == n,
                    seen == exists|j: int| 0 <= j < k && cells@[j] == cell_i,
                decreases i - k,
            {
                if cells[k] == cell_i {
                    seen = true;
                }
                k = k + 1;
            }
            assert(seen == !first_in_cell(ps, i as int)) by {
                if seen {
                    let j = choose|j: int| 0 <= j < i && cells@[j] == cell_i;
                    assert(cell_at(ps, j) == cell_at(ps, i as int));
                }
            }
            let ghost before = collisions@.map_values(|c: Collision| participants_of(c));
            if !seen {
                let mut group: Vec<ParticleId> = vec![self.particles[i].uid];
                proof {
                    lemma_ids_in_cell_none(ps, cell_i, i as int);
                    assert(group@ == ids_in_cell(ps, cell_i, i + 1));
                }
                for j in i + 1..n
                    invariant
                        n == ps.len(),
                        ps == self.particles@,
                        cells@.len() == n,
                        forall|j: int| 0 <= j < n ==> cells@[j] == cell_at(ps, j),
                        group@ == ids_in_cell(ps, cell_i, j as int),
                {
                    if cells[j] == cell_i {
                        group.push(self.particles[j].uid);
                    }
                }
                if group.len() > 1 {
                    collisions.push(Collision::Refuel { participants: group });
                    assert(collisions@.map_values(|c: Collision| participants_of(c)) == before.push(
                        group@,
                    ));
                }
            }
        }
        RenderableScene { cells: cells_to_render, collisions }
    }
}

} // verus!
