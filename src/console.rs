use crate::border::{border_at, BorderChars};
use crate::collision::{participants_of, Collision};
use crate::game_events::GameEvent;
use crate::particle::{Boost, Particle, ParticleId, ParticleType, FULL_FUEL};
use crate::scene::{
    assigned_id, cell_at, collisions_of, collisions_upto, first_in_cell, ids_in_cell, ids_below, next_id_after, render_cells, RenderableScene, Scene,
};
use crate::spatial::SUBPIXEL_SCALE;
use vstd::prelude::*;

verus! {

/// Slot `i` is the first slot that holds id `id`.
pub open spec fn is_first_with_id(ps: Seq<Particle>, id: ParticleId, i: int) -> bool {
    &&& 0 <= i < ps.len()
    &&& ps[i].uid == id
    &&& forall|j: int| 0 <= j < i ==> ps[j].uid != id
}

/// The slot of the first particle with id `id`, if there is one.
pub open spec fn index_of(ps: Seq<Particle>, id: ParticleId) -> Option<int> {
    if exists|i: int| is_first_with_id(ps, id, i) {
        Some(choose|i: int| is_first_with_id(ps, id, i))
    } else {
        None
    }
}

/// Scanning `ids` in order, the slot of the first one that resolves to a
/// particle of kind `kind`.
pub open spec fn first_of_kind(ps: Seq<Particle>, ids: Seq<ParticleId>, kind: ParticleType) -> Option<
    int,
>
    decreases ids.len(),
{
    if ids.len() == 0 {
        None
    } else {
        let prev = first_of_kind(ps, ids.drop_last(), kind);
        if prev is Some {
            prev
        } else {
            match index_of(ps, ids.last()) {
                Some(i) => if ps[i].kind == kind {
                    Some(i)
                } else {
                    None
                },
                None => None,
            }
        }
    }
}

/// The event of one collision: its first rocket with its first fuel cell,
/// when it has both.
pub open spec fn event_for(ps: Seq<Particle>, ids: Seq<ParticleId>) -> Option<GameEvent> {
    match (first_of_kind(ps, ids, ParticleType::Rocket), first_of_kind(ps, ids, ParticleType::FuelCell)) {
        (Some(r), Some(f)) => Some(GameEvent::Refuel { rocket_idx: r as usize, fuel_cell_idx: f as usize }),
        _ => None,
    }
}

/// The events of a sequence of collisions, in order.
pub open spec fn events_from(ps: Seq<Particle>, cs: Seq<Seq<ParticleId>>) -> Seq<GameEvent>
    decreases cs.len(),
{
    if cs.len() == 0 {
        seq![]
    } else {
        let rest = events_from(ps, cs.drop_last());
        match event_for(ps, cs.last()) {
            Some(e) => rest.push(e),
            None => rest,
        }
    }
}

/// The events that the collisions of a particle set give.
pub open spec fn events_of(ps: Seq<Particle>) -> Seq<GameEvent> {
    events_from(ps, collisions_of(ps))
}

/// The boost for slot `i`; slots past the end of `boosts` get none.
pub open spec fn boost_at(boosts: Seq<Option<Boost>>, i: int) -> Option<Boost> {
    if 0 <= i < boosts.len() {
        boosts[i]
    } else {
        None
    }
}

spec fn as_slot(o: Option<usize>) -> Option<int> {
    match o {
        Some(i) => Some(i as int),
        None => None,
    }
}

proof fn lemma_index_of_found(ps: Seq<Particle>, id: ParticleId, k: int)
    requires
        is_first_with_id(ps, id, k),
    ensures
        index_of(ps, id) == Some(k),
{
    let c = choose|i: int| is_first_with_id(ps, id, i);
    assert(is_first_with_id(ps, id, c));
    if c < k {
        assert(ps[c].uid != id);
    } else if c > k {
        assert(ps[k].uid != id);
    }
}

proof fn lemma_index_of_missing(ps: Seq<Particle>, id: ParticleId)
    requires
        forall|j: int| 0 <= j < ps.len() ==> ps[j].uid != id,
    ensures
        index_of(ps, id) is None,
{
}

proof fn lemma_first_of_kind_settled(
    ps: Seq<Particle>,
    ids: Seq<ParticleId>,
    kind: ParticleType,
    m: int,
)
    requires
        0 <= m <= ids.len(),
        first_of_kind(ps, ids.take(m), kind) is Some,
    ensures
        first_of_kind(ps, ids, kind) == first_of_kind(ps, ids.take(m), kind),
    decreases ids.len(),
{
    if ids.len() > m {
        assert(ids.drop_last().take(m) == ids.take(m));
        lemma_first_of_kind_settled(ps, ids.drop_last(), kind, m);
    } else {
        assert(ids.take(m) == ids);
    }
}

/// Width, in characters, of the fuel gauge.
pub const GAUGE_WIDTH: usize = 32;

/// How many characters of the fuel gauge are filled for `fuel` units,
/// rounded down.
pub fn fuel_gauge_fill(fuel: u16) -> (r: usize)
    requires
        fuel <= FULL_FUEL,
    ensures
        r == fuel * GAUGE_WIDTH / (FULL_FUEL as int),
        r <= GAUGE_WIDTH,
{
    assert(fuel * 32 <= 510 * 32) by (nonlinear_arith)
        requires
            fuel <= 510,
    ;
    let r = (fuel as usize * GAUGE_WIDTH) / (FULL_FUEL as usize);
    assert(r <= 32) by {
        vstd::arithmetic::div_mod::lemma_div_is_ordered((fuel * 32) as int, 16320, 510);
    }
    r
}

/// No two particles share an id.
pub open spec fn distinct_ids(ps: Seq<Particle>) -> bool {
    forall|i: int, j: int| 0 <= i < ps.len() && 0 <= j < ps.len() && i != j ==> ps[i].uid != ps[j].uid
}

/// Removing the particle in slot `k` changes no other particle's id, and
/// each remaining id still resolves to its particle, now in the slot it moved
/// to; the removed id no longer resolves.
pub proof fn lemma_remove_keeps_identity(ps: Seq<Particle>, k: int)
    requires
        0 <= k < ps.len(),
        distinct_ids(ps),
    ensures
        forall|j: int|
            0 <= j < ps.len() && j != k ==> {
                let slot = if j < k {
                    j
                } else {
                    j - 1
                };
                &&& ps.remove(k)[slot].uid == ps[j].uid
                &&& index_of(ps.remove(k), #[trigger] ps[j].uid) == Some(slot)
            },
        index_of(ps.remove(k), ps[k].uid) is None,
{
    let q = ps.remove(k);
    assert forall|j: int| 0 <= j < ps.len() && j != k implies {
        let slot = if j < k {
            j
        } else {
            j - 1
        };
        &&& q[slot].uid == ps[j].uid
        &&& index_of(q, #[trigger] ps[j].uid) == Some(slot)
    } by {
        let slot = if j < k {
            j
        } else {
            j - 1
        };
        assert(q[slot] == ps[j]);
        assert forall|i: int| 0 <= i < slot implies q[i].uid != ps[j].uid by {
            if i < k {
                assert(q[i] == ps[i]);
            } else {
                assert(q[i] == ps[i + 1]);
            }
        }
        lemma_index_of_found(q, ps[j].uid, slot);
    }
    assert forall|i: int| 0 <= i < q.len() implies q[i].uid != ps[k].uid by {
        if i < k {
            assert(q[i] == ps[i]);
        } else {
            assert(q[i] == ps[i + 1]);
        }
    }
    lemma_index_of_missing(q, ps[k].uid);
}

/// A collision whose participants are two rockets and then a fuel cell, in
/// that order, gives exactly one event: the first rocket with the fuel cell.
pub proof fn lemma_first_rocket_first_fuel_cell(
    ps: Seq<Particle>,
    r1: ParticleId,
    r2: ParticleId,
    f1: ParticleId,
)
    requires
        index_of(ps, r1) matches Some(i) && ps[i].kind == ParticleType::Rocket,
        index_of(ps, r2) matches Some(i) && ps[i].kind == ParticleType::Rocket,
        index_of(ps, f1) matches Some(i) && ps[i].kind == ParticleType::FuelCell,
    ensures
        events_from(ps, seq![seq![r1, r2, f1]]) == seq![
            GameEvent::Refuel {
                rocket_idx: index_of(ps, r1)->Some_0 as usize,
                fuel_cell_idx: index_of(ps, f1)->Some_0 as usize,
            },
        ],
{
    let ids = seq![r1, r2, f1];
    assert(ids.drop_last() == seq![r1, r2]);
    assert(seq![r1, r2].drop_last() == seq![r1]);
    assert(seq![r1].drop_last() == Seq::<ParticleId>::empty());
    assert(first_of_kind(ps, Seq::<ParticleId>::empty(), ParticleType::Rocket) is None);
    assert(first_of_kind(ps, Seq::<ParticleId>::empty(), ParticleType::FuelCell) is None);
    assert(seq![r1].last() == r1);
    assert(seq![r1, r2].last() == r2);
    assert(ids.last() == f1);
    assert(first_of_kind(ps, seq![r1], ParticleType::Rocket) == index_of(ps, r1));
    assert(first_of_kind(ps, seq![r1], ParticleType::FuelCell) is None);
    assert(first_of_kind(ps, seq![r1, r2], ParticleType::FuelCell) is None);
    assert(first_of_kind(ps, seq![r1, r2], ParticleType::Rocket) == index_of(ps, r1));
    assert(first_of_kind(ps, ids, ParticleType::Rocket) == index_of(ps, r1));
    assert(first_of_kind(ps, ids, ParticleType::FuelCell) == index_of(ps, f1));
    let cs = seq![ids];
    assert(cs.drop_last() == Seq::<Seq<ParticleId>>::empty());
    assert(cs.last() == ids);
    assert(events_from(ps, Seq::<Seq<ParticleId>>::empty()) == Seq::<GameEvent>::empty());
}

/// The first rocket slot of three slots whose only fuel cell is in slot `f`.
pub open spec fn first_rocket_of_three(f: int) -> int {
    if f == 0 {
        1
    } else {
        0
    }
}

/// Three particles with distinct ids in one cell, two rockets and one fuel
/// cell, give exactly one event: the rocket in the lower slot with the fuel
/// cell.
pub proof fn lemma_three_in_one_cell(ps: Seq<Particle>, f: int)
    requires
        ps.len() == 3,
        distinct_ids(ps),
        cell_at(ps, 0) == cell_at(ps, 1),
        cell_at(ps, 1) == cell_at(ps, 2),
        0 <= f < 3,
        ps[f].kind == ParticleType::FuelCell,
        forall|i: int| 0 <= i < 3 && i != f ==> ps[i].kind == ParticleType::Rocket,
    ensures
        events_of(ps) == seq![
            GameEvent::Refuel {
                rocket_idx: first_rocket_of_three(f) as usize,
                fuel_cell_idx: f as usize,
            },
        ],
{
    let c = cell_at(ps, 0);
    let ids = seq![ps[0].uid, ps[1].uid, ps[2].uid];
    assert(ids_in_cell(ps, c, 0) == Seq::<ParticleId>::empty());
    assert(ids_in_cell(ps, c, 1) == seq![ps[0].uid]);
    assert(ids_in_cell(ps, c, 2) == seq![ps[0].uid, ps[1].uid]);
    assert(ids_in_cell(ps, c, 3) == ids);
    assert(first_in_cell(ps, 0));
    assert(!first_in_cell(ps, 1));
    assert(!first_in_cell(ps, 2));
    assert(collisions_upto(ps, 0) == Seq::<Seq<ParticleId>>::empty());
    assert(collisions_upto(ps, 1) == seq![ids]);
    assert(collisions_upto(ps, 2) == seq![ids]);
    assert(collisions_of(ps) == seq![ids]);
    assert forall|i: int| 0 <= i < 3 implies index_of(ps, #[trigger] ps[i].uid) == Some(i) by {
        lemma_index_of_found(ps, ps[i].uid, i);
    }
    assert(ids.drop_last() == seq![ps[0].uid, ps[1].uid]);
    assert(seq![ps[0].uid, ps[1].uid].drop_last() == seq![ps[0].uid]);
    assert(seq![ps[0].uid].drop_last() == Seq::<ParticleId>::empty());
    assert(seq![ps[0].uid].last() == ps[0].uid);
    assert(seq![ps[0].uid, ps[1].uid].last() == ps[1].uid);
    assert(ids.last() == ps[2].uid);
    assert(index_of(ps, ps[0].uid) == Some(0int));
    assert(index_of(ps, ps[1].uid) == Some(1int));
    assert(index_of(ps, ps[2].uid) == Some(2int));
    let k = ParticleType::Rocket;
    let g = ParticleType::FuelCell;
    assert(first_of_kind(ps, Seq::<ParticleId>::empty(), k) is None);
    assert(first_of_kind(ps, Seq::<ParticleId>::empty(), g) is None);
    assert(first_of_kind(ps, ids, k) == Some(first_rocket_of_three(f))) by {
        assert(first_of_kind(ps, seq![ps[0].uid], k) == (if f == 0 { None } else { Some(0int) }));
        assert(first_of_kind(ps, seq![ps[0].uid, ps[1].uid], k) == Some(first_rocket_of_three(f)));
    }
    assert(first_of_kind(ps, ids, g) == Some(f)) by {
        assert(first_of_kind(ps, seq![ps[0].uid], g) == (if f == 0 { Some(0int) } else { None }));
        assert(first_of_kind(ps, seq![ps[0].uid, ps[1].uid], g) == (if f == 2 { None } else { Some(f) }));
    }
    let cs = seq![ids];
    assert(cs.drop_last() == Seq::<Seq<ParticleId>>::empty());
    assert(cs.last() == ids);
    assert(events_from(ps, Seq::<Seq<ParticleId>>::empty()) == Seq::<GameEvent>::empty());
}

/// A grid of cells with the scene that moves on it.
pub struct Console {
    cell_width: u16,
    cell_height: u16,
    height: i32,
    width: i32,
    scene: Scene,
}

impl Console {
    pub closed spec fn particles(&self) -> Seq<Particle> {
        self.scene.particles@
    }

    pub closed spec fn next_id(&self) -> u64 {
        self.scene.next_id
    }

    /// Pixel width, pixel height, cell width and cell height of the grid.
    pub closed spec fn bounds(&self) -> (i32, i32, u16, u16) {
        (self.width, self.height, self.cell_width, self.cell_height)
    }

    /// Every particle id is unassigned or below the next id to hand out.
    pub open spec fn wf(&self) -> bool {
        self.next_id() >= 1 && ids_below(self.particles(), self.next_id())
    }

    /// The inputs on which `tick` is defined: each particle's update is.
    pub open spec fn tick_defined(&self, boosts: Seq<Option<Boost>>) -> bool {
        forall|i: int|
            0 <= i < self.particles().len() ==> (#[trigger] self.particles()[i]).update_defined(
                self.bounds(),
                boost_at(boosts, i),
            )
    }

    /// An empty grid of `cell_width` by `cell_height` cells.
    pub fn new(cell_width: u16, cell_height: u16) -> (r: Self)
        ensures
            r.bounds().0 == cell_width * SUBPIXEL_SCALE,
            r.bounds().1 == cell_height * SUBPIXEL_SCALE,
            r.bounds().2 == cell_width,
            r.bounds().3 == cell_height,
            r.particles() == Seq::<Particle>::empty(),
            r.next_id() == 1,
            r.wf(),
    {
        Self {
            cell_width,
            cell_height,
            width: cell_width as i32 * SUBPIXEL_SCALE,
            height: cell_height as i32 * SUBPIXEL_SCALE,
            scene: Scene::new(Vec::new()),
        }
    }

    pub fn cell_width(&self) -> (r: u16)
        ensures
            r == self.bounds().2,
    {
        self.cell_width
    }

    pub fn cell_height(&self) -> (r: u16)
        ensures
            r == self.bounds().3,
    {
        self.cell_height
    }

    /// The number of particles.
    pub fn particle_count(&self) -> (r: usize)
        ensures
            r == self.particles().len(),
    {
        self.scene.particles.len()
    }

    /// The cells to draw and the collisions of the present state.
    pub fn renderable(&self) -> (r: RenderableScene)
        ensures
            r.cells@ == render_cells(
                self.particles(),
                self.particles().len() as int,
                self.bounds().2 as int,
                self.bounds().3 as int,
            ),
            r.collisions@.map_values(|c: Collision| participants_of(c)) == collisions_of(
                self.particles(),
            ),
    {
        self.scene.get_renderable(self.cell_width, self.cell_height)
    }

    /// The slot of the particle with stable id `id`, if there is one.
    pub fn find_particle_index_by_id(&self, id: ParticleId) -> (r: Option<usize>)
        ensures
            r matches Some(i) ==> is_first_with_id(self.particles(), id, i as int),
            r is None ==> forall|j: int|
                0 <= j < self.particles().len() ==> self.particles()[j].uid != id,
            r matches Some(i) ==> index_of(self.particles(), id) == Some(i as int),
            r is None ==> index_of(self.particles(), id) is None,
    {
        let n = self.scene.particles.len();
        for k in 0..n
            invariant
                n == self.particles().len(),
                forall|j: int| 0 <= j < k ==> self.particles()[j].uid != id,
        {
            if self.scene.particles[k].uid == id {
                proof {
                    lemma_index_of_found(self.particles(), id, k as int);
                }
                return Some(k);
            }
        }
        proof {
            lemma_index_of_missing(self.particles(), id);
        }
        None
    }

    /// The frame piece at `(row, col)` of a `height` by `width` grid.
    pub fn get_border_char(row: u16, col: u16, height: u16, width: u16) -> (r: Option<BorderChars>)
        requires
            height >= 1,
            width >= 1,
        ensures
            r == border_at(row as int, col as int, height as int, width as int),
    {
        let is_top_row = row == 0;
        let is_bottom_row = row == height - 1;
        let is_left_column = col == 0;
        let is_right_column = col == width - 1;

        match (is_top_row, is_bottom_row, is_left_column, is_right_column) {
            (true, false, true, false) => Some(BorderChars::TopLeft),
            (true, false, false, true) => Some(BorderChars::TopRight),
            (true, false, false, false) => Some(BorderChars::Horizontal),
            (false, true, true, false) => Some(BorderChars::BottomLeft),
            (false, true, false, true) => Some(BorderChars::BottomRight),
            (false, true, false, false) => Some(BorderChars::Horizontal),
            (false, false, true, false) | (false, false, false, true) => Some(
                BorderChars::Vertical,
            ),
            _ => None,
        }
    }

    /// Adds a particle to the scene; see `Scene::add_particle`.
    pub fn add_particle(&mut self, particle: Particle)
        requires
            particle.uid.0 == 0 ==> old(self).next_id() < u64::MAX,
            particle.uid.0 >= old(self).next_id() ==> particle.uid.0 < u64::MAX,
        ensures
            final(self).particles() == old(self).particles().push(
                Particle { uid: assigned_id(old(self).next_id(), particle), ..particle },
            ),
            final(self).next_id() == next_id_after(old(self).next_id(), particle),
            final(self).bounds() == old(self).bounds(),
            old(self).wf() ==> final(self).wf(),
            old(self).wf() && particle.uid.0 == 0 ==> forall|i: int|
                0 <= i < old(self).particles().len() ==> old(self).particles()[i].uid
                    != assigned_id(old(self).next_id(), particle),
    {
        self.scene.add_particle(particle);
    }

    /// The particle in slot `index`, if there is one.
    pub fn get_particle(&self, index: usize) -> (r: Option<&Particle>)
        ensures
            index < self.particles().len() ==> r == Some(&self.particles()[index as int]),
            index >= self.particles().len() ==> r is None,
    {
        if index < self.scene.particles.len() {
            Some(&self.scene.particles[index])
        } else {
            None
        }
    }

    /// Sets the fuel of the particle in slot `idx`; nothing happens when
    /// there is no such slot.
    pub fn set_particle_fuel(&mut self, idx: usize, amount: u16)
        ensures
            idx < old(self).particles().len() ==> final(self).particles() == old(
                self,
            ).particles().update(idx as int, Particle { fuel: amount, ..old(self).particles()[idx as int] }),
            idx >= old(self).particles().len() ==> final(self).particles() == old(self).particles(),
            final(self).next_id() == old(self).next_id(),
            final(self).bounds() == old(self).bounds(),
            old(self).wf() ==> final(self).wf(),
    {
        if idx < self.scene.particles.len() {
            let mut p = self.scene.particles[idx];
            p.fuel = amount;
            self.scene.particles.set(idx, p);
        }
        proof {
            if old(self).wf() {
                let ps = self.particles();
                assert forall|i: int| 0 <= i < ps.len() implies (#[trigger] ps[i]).uid.0 == 0
                    || ps[i].uid.0 < self.next_id() by {
                    assert(ps[i].uid == old(self).particles()[i].uid);
                }
            }
        }
    }

    /// Removes the particle in slot `idx`; later particles move down one
    /// slot. Nothing happens when there is no such slot.
    pub fn remove_particle(&mut self, idx: usize)
        ensures
            idx < old(self).particles().len() ==> final(self).particles() == old(
                self,
            ).particles().remove(idx as int),
            idx >= old(self).particles().len() ==> final(self).particles() == old(self).particles(),
            final(self).next_id() == old(self).next_id(),
            final(self).bounds() == old(self).bounds(),
            old(self).wf() ==> final(self).wf(),
    {
        if idx < self.scene.particles.len() {
            self.scene.particles.remove(idx);
        }
        proof {
            if old(self).wf() && idx < old(self).particles().len() {
                let ps = self.particles();
                assert forall|i: int| 0 <= i < ps.len() implies (#[trigger] ps[i]).uid.0 == 0
                    || ps[i].uid.0 < self.next_id() by {
                    if i < idx {
                        assert(ps[i] == old(self).particles()[i]);
                    } else {
                        assert(ps[i] == old(self).particles()[i + 1]);
                    }
                }
            }
        }
    }

    /// Whether `tick` is defined for these boosts (see `tick_defined`).
    pub fn can_tick(&self, boosts: &Vec<Option<Boost>>) -> (r: bool)
        ensures
            r == self.tick_defined(boosts@),
    {
        let bounds = (self.width, self.height, self.cell_width, self.cell_height);
        let n = self.scene.particles.len();
        for i in 0..n
            invariant
                n == self.particles().len(),
                bounds == self.bounds(),
                forall|j: int|
                    0 <= j < i ==> (#[trigger] self.particles()[j]).update_defined(
                        bounds,
                        boost_at(boosts@, j),
                    ),
        {
            let b = if i < boosts.len() {
                boosts[i]
            } else {
                None
            };
            if !self.scene.particles[i].can_update(bounds, b) {
                return false;
            }
        }
        true
    }

    /// The event of one collision, given the ids of its participants.
    fn refuel_event(&self, participants: &Vec<ParticleId>) -> (r: Option<GameEvent>)
        ensures
            r == event_for(self.particles(), participants@),
    {
        let ghost ps = self.particles();
        let ghost ids = participants@;
        let mut rocket_idx: Option<usize> = None;
        let mut fuel_idx: Option<usize> = None;
        let n = participants.len();
        let mut j: usize = 0;
        while j < n
            invariant
                j <= n == ids.len(),
                ps == self.particles(),
                ids == participants@,
                as_slot(rocket_idx) == first_of_kind(
                    ps,
                    ids.take(j as int),
                    ParticleType::Rocket,
                ),
                as_slot(fuel_idx) == first_of_kind(
                    ps,
                    ids.take(j as int),
                    ParticleType::FuelCell,
                ),
            ensures
                j <= n,
                as_slot(rocket_idx) == first_of_kind(ps, ids.take(j as int), ParticleType::Rocket),
                as_slot(fuel_idx) == first_of_kind(ps, ids.take(j as int), ParticleType::FuelCell),
                j == n || (rocket_idx is Some && fuel_idx is Some),
            decreases n - j,
        {
            let pid = participants[j];
            assert(ids.take(j + 1).drop_last() == ids.take(j as int));
            assert(ids.take(j + 1).last() == pid);
            if let Some(idx) = self.find_particle_index_by_id(pid) {
                match self.scene.particles[idx].kind {
                    ParticleType::Rocket => {
                        if rocket_idx.is_none() {
                            rocket_idx = Some(idx);
                        }
                    },
                    ParticleType::FuelCell => {
                        if fuel_idx.is_none() {
                            fuel_idx = Some(idx);
                        }
                    },
                }
                j = j + 1;
                if rocket_idx.is_some() && fuel_idx.is_some() {
                    break;
                }
            } else {
                j = j + 1;
            }
        }
        proof {
            if rocket_idx is Some {
                lemma_first_of_kind_settled(ps, ids, ParticleType::Rocket, j as int);
            } else {
                assert(ids.take(j as int) == ids);
            }
            if fuel_idx is Some {
                lemma_first_of_kind_settled(ps, ids, ParticleType::FuelCell, j as int);
            } else {
                assert(ids.take(j as int) == ids);
            }
        }
        match (rocket_idx, fuel_idx) {
            (Some(ri), Some(fi)) => Some(GameEvent::Refuel { rocket_idx: ri, fuel_cell_idx: fi }),
            _ => None,
        }
    }

    /// One simulation step: particle `i` is updated with `boosts[i]`, or with
    /// no boost past the end of `boosts`; then each collision of the new
    /// state that holds a rocket and a fuel cell gives a refuel event with
    /// their current slots. The scene is not changed on account of events.
    pub fn tick(&mut self, boosts: Vec<Option<Boost>>) -> (r: Vec<GameEvent>)
        requires
            old(self).tick_defined(boosts@),
        ensures
            final(self).particles().len() == old(self).particles().len(),
            forall|i: int|
                0 <= i < old(self).particles().len() ==> (#[trigger] old(self).particles()[i]).is_step(
                    final(self).particles()[i],
                    old(self).bounds(),
                    boost_at(boosts@, i),
                ),
            final(self).next_id() == old(self).next_id(),
            final(self).bounds() == old(self).bounds(),
            old(self).wf() ==> final(self).wf(),
            r@ == events_of(final(self).particles()),
    {
        let count = self.scene.particles.len();
        let bounds = (self.width, self.height, self.cell_width, self.cell_height);
        for i in 0..count
            invariant
                count == self.particles().len() == old(self).particles().len(),
                bounds == self.bounds(),
                bounds == old(self).bounds(),
                self.next_id() == old(self).next_id(),
                old(self).tick_defined(boosts@),
                forall|j: int|
                    0 <= j < i ==> (#[trigger] old(self).particles()[j]).is_step(
                        self.particles()[j],
                        bounds,
                        boost_at(boosts@, j),
                    ),
                forall|j: int| i <= j < count ==> self.particles()[j] == old(self).particles()[j],
        {
            let b = if i < boosts.len() {
                boosts[i]
            } else {
                None
            };
            assert(old(self).particles()[i as int].update_defined(bounds, boost_at(boosts@, i as int)));
            self.scene.particles[i].update(bounds, b);
        }
        proof {
            if old(self).wf() {
                let ps = self.particles();
                assert forall|i: int| 0 <= i < ps.len() implies (#[trigger] ps[i]).uid.0 == 0
                    || ps[i].uid.0 < self.next_id() by {
                    assert(old(self).particles()[i].is_step(ps[i], bounds, boost_at(boosts@, i)));
                }
            }
        }

        let renderable_now = self.scene.get_renderable(self.cell_width, self.cell_height);
        let ghost ps = self.particles();
        let ghost cs = renderable_now.collisions@.map_values(|c: Collision| participants_of(c));
        let mut events: Vec<GameEvent> = Vec::new();
        let m = renderable_now.collisions.len();
        for k in 0..m
            invariant
                m == renderable_now.collisions@.len(),
                ps == self.particles(),
                cs == renderable_now.collisions@.map_values(|c: Collision| participants_of(c)),
                cs == collisions_of(ps),
                events@ == events_from(ps, cs.take(k as int)),
        {
            assert(cs.take(k + 1).drop_last() == cs.take(k as int));
            assert(cs.take(k + 1).last() == cs[k as int]);
            match &renderable_now.collisions[k] {
                Collision::Refuel { participants } => {
                    if let Some(e) = self.refuel_event(participants) {
                        events.push(e);
                    }
                },
            }
        }
        assert(cs.take(m as int) == cs);
        events
    }
}

} // verus!
