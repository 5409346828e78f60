use vstd::prelude::*;
use crate::components::{Bullet, Explosion, Particle, Plant, Zombie};
use crate::geometry::{in_field, GridCell};
use crate::resources::{GameState, SpawnTimer};
use crate::timer::{Timer, TimerMode};
use crate::constants::SPAWN_INTERVAL_MS;

verus! {

/// Every entity of a running game, with the economy and the arrival timer.
pub struct Game {
    pub state: GameState,
    pub spawn_timer: SpawnTimer,
    pub plants: Vec<Plant>,
    pub zombies: Vec<Zombie>,
    pub bullets: Vec<Bullet>,
    pub explosions: Vec<Explosion>,
    pub particles: Vec<Particle>,
    /// The next entity id to hand out.
    pub next_id: u64,
}

/// No two defenders share a cell.
pub open spec fn one_per_cell(s: Seq<Plant>) -> bool {
    forall|i: int, j: int|
        #![trigger s[i].cell, s[j].cell]
        0 <= i < s.len() && 0 <= j < s.len() && i != j ==> s[i].cell != s[j].cell
}

pub open spec fn plant_ids_unique(s: Seq<Plant>) -> bool {
    forall|i: int, j: int|
        #![trigger s[i].id, s[j].id]
        0 <= i < s.len() && 0 <= j < s.len() && i != j ==> s[i].id != s[j].id
}

pub open spec fn zombie_ids_unique(s: Seq<Zombie>) -> bool {
    forall|i: int, j: int|
        #![trigger s[i].id, s[j].id]
        0 <= i < s.len() && 0 <= j < s.len() && i != j ==> s[i].id != s[j].id
}

pub open spec fn plants_wf(s: Seq<Plant>, next_id: u64) -> bool {
    &&& forall|i: int| 0 <= i < s.len() ==> (#[trigger] s[i]).wf() && s[i].id < next_id
    &&& plant_ids_unique(s)
    &&& one_per_cell(s)
}

pub open spec fn zombies_wf(s: Seq<Zombie>, next_id: u64) -> bool {
    &&& forall|i: int| 0 <= i < s.len() ==> (#[trigger] s[i]).wf() && s[i].id < next_id
    &&& zombie_ids_unique(s)
}

pub open spec fn bullets_wf(s: Seq<Bullet>) -> bool {
    forall|i: int| 0 <= i < s.len() ==> in_field((#[trigger] s[i]).pos)
}

pub open spec fn explosions_wf(s: Seq<Explosion>) -> bool {
    forall|i: int| 0 <= i < s.len() ==> (#[trigger] s[i]).wf()
}

pub open spec fn particles_wf(s: Seq<Particle>) -> bool {
    forall|i: int| 0 <= i < s.len() ==> (#[trigger] s[i]).wf()
}

/// Whether a defender stands on `c`.
pub open spec fn occupied(s: Seq<Plant>, c: GridCell) -> bool {
    exists|i: int| 0 <= i < s.len() && (#[trigger] s[i]).cell == c
}

/// Position of the defender standing on `c`, if any.
pub open spec fn occupant(s: Seq<Plant>, c: GridCell) -> Option<int> {
    if occupied(s, c) {
        Some(choose|i: int| 0 <= i < s.len() && (#[trigger] s[i]).cell == c)
    } else {
        None
    }
}

/// Position of the defender with this id, if it still exists.
pub open spec fn plant_index(s: Seq<Plant>, id: u64) -> Option<int> {
    if exists|i: int| 0 <= i < s.len() && (#[trigger] s[i]).id == id {
        Some(choose|i: int| 0 <= i < s.len() && (#[trigger] s[i]).id == id)
    } else {
        None
    }
}

/// No adversary present in both `a` and `b` has more health in `b`.
pub open spec fn zombie_health_not_raised(a: Seq<Zombie>, b: Seq<Zombie>) -> bool {
    forall|j: int, k: int|
        #![trigger a[j].id, b[k].id]
        0 <= j < a.len() && 0 <= k < b.len() && a[j].id == b[k].id ==> b[k].health <= a[j].health
}

/// Every adversary of `b` was already in `a`.
pub open spec fn zombie_ids_kept(a: Seq<Zombie>, b: Seq<Zombie>) -> bool {
    forall|k: int| 0 <= k < b.len() ==> has_zombie_id(a, (#[trigger] b[k]).id)
}

pub open spec fn has_zombie_id(s: Seq<Zombie>, id: u64) -> bool {
    exists|j: int| 0 <= j < s.len() && (#[trigger] s[j]).id == id
}

pub open spec fn has_plant_id(s: Seq<Plant>, id: u64) -> bool {
    exists|j: int| 0 <= j < s.len() && (#[trigger] s[j]).id == id
}

/// No defender present in both `a` and `b` has more health in `b`, is of
/// another kind, or has been disarmed.
pub open spec fn plant_progress(a: Seq<Plant>, b: Seq<Plant>) -> bool {
    forall|j: int, k: int|
        #![trigger a[j].id, b[k].id]
        0 <= j < a.len() && 0 <= k < b.len() && a[j].id == b[k].id ==> {
            &&& b[k].health <= a[j].health
            &&& b[k].kind == a[j].kind
            &&& a[j].armed ==> b[k].armed
        }
}

/// Every defender of `b` was already in `a`.
pub open spec fn plant_ids_kept(a: Seq<Plant>, b: Seq<Plant>) -> bool {
    forall|k: int| 0 <= k < b.len() ==> has_plant_id(a, (#[trigger] b[k]).id)
}

/// Defender progress and id retention compose.
pub proof fn lemma_plants_descend_trans(a: Seq<Plant>, b: Seq<Plant>, c: Seq<Plant>)
    requires
        plant_progress(a, b),
        plant_ids_kept(a, b),
        plant_progress(b, c),
        plant_ids_kept(b, c),
    ensures
        plant_progress(a, c),
        plant_ids_kept(a, c),
{
    assert forall|j: int, k: int|
        #![trigger a[j].id, c[k].id]
        0 <= j < a.len() && 0 <= k < c.len() && a[j].id == c[k].id implies {
            &&& c[k].health <= a[j].health
            &&& c[k].kind == a[j].kind
            &&& a[j].armed ==> c[k].armed
        } by {
        assert(has_plant_id(b, c[k].id));
        let m = choose|m: int| 0 <= m < b.len() && (#[trigger] b[m]).id == c[k].id;
        assert(b[m].id == a[j].id);
    }
    assert forall|k: int| 0 <= k < c.len() implies has_plant_id(a, (#[trigger] c[k]).id) by {
        assert(has_plant_id(b, c[k].id));
        let m = choose|m: int| 0 <= m < b.len() && (#[trigger] b[m]).id == c[k].id;
        assert(has_plant_id(a, b[m].id));
    }
}

/// Adversary health bounds and id retention compose.
pub proof fn lemma_zombies_descend_trans(a: Seq<Zombie>, b: Seq<Zombie>, c: Seq<Zombie>)
    requires
        zombie_health_not_raised(a, b),
        zombie_ids_kept(a, b),
        zombie_health_not_raised(b, c),
        zombie_ids_kept(b, c),
    ensures
        zombie_health_not_raised(a, c),
        zombie_ids_kept(a, c),
{
    assert forall|j: int, k: int|
        #![trigger a[j].id, c[k].id]
        0 <= j < a.len() && 0 <= k < c.len() && a[j].id == c[k].id implies c[k].health
        <= a[j].health by {
        assert(has_zombie_id(b, c[k].id));
        let m = choose|m: int| 0 <= m < b.len() && (#[trigger] b[m]).id == c[k].id;
        assert(b[m].id == a[j].id);
    }
    assert forall|k: int| 0 <= k < c.len() implies has_zombie_id(a, (#[trigger] c[k]).id) by {
        assert(has_zombie_id(b, c[k].id));
        let m = choose|m: int| 0 <= m < b.len() && (#[trigger] b[m]).id == c[k].id;
        assert(has_zombie_id(a, b[m].id));
    }
}

/// Removing one defender keeps the rest well formed, in order.
pub proof fn lemma_plants_remove(s: Seq<Plant>, i: int, n: u64)
    requires
        plants_wf(s, n),
        0 <= i < s.len(),
    ensures
        plants_wf(s.remove(i), n),
        plant_progress(s, s.remove(i)),
        plant_ids_kept(s, s.remove(i)),
{
    let r = s.remove(i);
    assert forall|x: int| 0 <= x < r.len() implies #[trigger] r[x] == s[if x < i {
        x
    } else {
        x + 1
    }] by {}
    assert forall|x: int, y: int|
        0 <= x < r.len() && 0 <= y < r.len() && x != y implies r[x].cell != r[y].cell && r[x].id
        != r[y].id by {
        assert(r[x] == s[if x < i { x } else { x + 1 }]);
        assert(r[y] == s[if y < i { y } else { y + 1 }]);
    }
    assert forall|j: int, k: int|
        #![trigger s[j].id, r[k].id]
        0 <= j < s.len() && 0 <= k < r.len() && s[j].id == r[k].id implies {
            &&& r[k].health <= s[j].health
            &&& r[k].kind == s[j].kind
            &&& s[j].armed ==> r[k].armed
        } by {
        let x = if k < i { k } else { k + 1 };
        assert(r[k] == s[x]);
        assert(s[x].id == s[j].id);
    }
    assert forall|k: int| 0 <= k < r.len() implies has_plant_id(s, (#[trigger] r[k]).id) by {
        let x = if k < i { k } else { k + 1 };
        assert(r[k] == s[x]);
    }
}

/// `kept` holds distinct adversaries drawn, in order and without gaining
/// health, from the first `i` of `orig`.
pub open spec fn drawn_from(kept: Seq<Zombie>, orig: Seq<Zombie>, i: int) -> bool {
    &&& zombie_ids_unique(kept)
    &&& forall|k: int| 0 <= k < kept.len() ==> has_zombie_id(orig.subrange(0, i), (#[trigger] kept[k]).id)
    &&& zombie_health_not_raised(orig, kept)
}

/// Keeping the next adversary, possibly with less health.
pub proof fn lemma_drawn_push(kept: Seq<Zombie>, orig: Seq<Zombie>, i: int, z: Zombie)
    requires
        drawn_from(kept, orig, i),
        zombie_ids_unique(orig),
        0 <= i < orig.len(),
        z.id == orig[i].id,
        z.health <= orig[i].health,
    ensures
        drawn_from(kept.push(z), orig, i + 1),
{
    let r = kept.push(z);
    let pre = orig.subrange(0, i);
    let pre1 = orig.subrange(0, i + 1);
    assert forall|k: int| 0 <= k < r.len() implies has_zombie_id(pre1, (#[trigger] r[k]).id) by {
        if k < kept.len() {
            assert(r[k] == kept[k]);
            assert(has_zombie_id(pre, kept[k].id));
            let j = choose|j: int| 0 <= j < pre.len() && (#[trigger] pre[j]).id == kept[k].id;
            assert(pre1[j] == pre[j]);
        } else {
            assert(pre1[i] == orig[i]);
        }
    }
    assert forall|x: int, y: int|
        #![trigger r[x].id, r[y].id]
        0 <= x < r.len() && 0 <= y < r.len() && x != y implies r[x].id != r[y].id by {
        if x == kept.len() || y == kept.len() {
            let o = if x == kept.len() { y } else { x };
            assert(r[o] == kept[o]);
            assert(has_zombie_id(pre, kept[o].id));
            let j = choose|j: int| 0 <= j < pre.len() && (#[trigger] pre[j]).id == kept[o].id;
            assert(pre[j] == orig[j]);
            assert(orig[j].id != orig[i].id);
        } else {
            assert(r[x] == kept[x] && r[y] == kept[y]);
        }
    }
    assert forall|j: int, k: int|
        #![trigger orig[j].id, r[k].id]
        0 <= j < orig.len() && 0 <= k < r.len() && orig[j].id == r[k].id implies r[k].health
        <= orig[j].health by {
        if k < kept.len() {
            assert(r[k] == kept[k]);
        } else {
            assert(orig[j].id == orig[i].id);
        }
    }
}

/// Dropping the next adversary.
pub proof fn lemma_drawn_skip(kept: Seq<Zombie>, orig: Seq<Zombie>, i: int)
    requires
        drawn_from(kept, orig, i),
        0 <= i < orig.len(),
    ensures
        drawn_from(kept, orig, i + 1),
{
    let pre = orig.subrange(0, i);
    let pre1 = orig.subrange(0, i + 1);
    assert forall|k: int| 0 <= k < kept.len() implies has_zombie_id(pre1, (#[trigger] kept[k]).id) by {
        assert(has_zombie_id(pre, kept[k].id));
        let j = choose|j: int| 0 <= j < pre.len() && (#[trigger] pre[j]).id == kept[k].id;
        assert(pre1[j] == pre[j]);
    }
}

/// Once all of `orig` is drawn from, only its adversaries remain.
pub proof fn lemma_drawn_done(kept: Seq<Zombie>, orig: Seq<Zombie>)
    requires
        drawn_from(kept, orig, orig.len() as int),
    ensures
        zombie_ids_unique(kept),
        zombie_ids_kept(orig, kept),
        zombie_health_not_raised(orig, kept),
{
    assert(orig.subrange(0, orig.len() as int) =~= orig);
}

/// Taking `dmg` off the adversary at `i`: it is removed once its health
/// reaches zero.
pub open spec fn struck(s: Seq<Zombie>, i: int, dmg: int) -> Seq<Zombie> {
    let h = s[i].health - dmg;
    if h <= 0 {
        s.remove(i)
    } else {
        s.update(i, Zombie { health: h as i64, ..s[i] })
    }
}

/// Striking one adversary keeps the rest well formed and raises no health.
pub proof fn lemma_struck(s: Seq<Zombie>, i: int, dmg: int, n: u64)
    requires
        zombies_wf(s, n),
        0 <= i < s.len(),
        dmg >= 0,
    ensures
        zombies_wf(struck(s, i, dmg), n),
        zombie_health_not_raised(s, struck(s, i, dmg)),
        zombie_ids_kept(s, struck(s, i, dmg)),
{
    let r = struck(s, i, dmg);
    let h = s[i].health - dmg;
    let src = |x: int|
        if h <= 0 && x >= i {
            x + 1
        } else {
            x
        };
    assert forall|x: int| 0 <= x < r.len() implies #[trigger] r[x].id == s[src(x)].id && r[x].pos
        == s[src(x)].pos && r[x].health <= s[src(x)].health && 0 < r[x].health by {}
    assert forall|x: int, y: int|
        #![trigger r[x].id, r[y].id]
        0 <= x < r.len() && 0 <= y < r.len() && x != y implies r[x].id != r[y].id by {
        assert(r[x].id == s[src(x)].id);
        assert(r[y].id == s[src(y)].id);
    }
    assert forall|j: int, k: int|
        #![trigger s[j].id, r[k].id]
        0 <= j < s.len() && 0 <= k < r.len() && s[j].id == r[k].id implies r[k].health
        <= s[j].health by {
        assert(r[k].id == s[src(k)].id);
    }
    assert forall|k: int| 0 <= k < r.len() implies has_zombie_id(s, (#[trigger] r[k]).id) by {
        assert(r[k].id == s[src(k)].id);
    }
    assert forall|k: int| 0 <= k < r.len() implies (#[trigger] r[k]).wf() && r[k].id < n by {
        assert(r[k].id == s[src(k)].id);
        assert(s[src(k)].wf());
    }
}

/// At most one defender stands on any cell of a well-formed game.
pub proof fn lemma_one_defender_per_cell(game: &Game, i: int, j: int)
    requires
        game.wf(),
        0 <= i < game.plants@.len(),
        0 <= j < game.plants@.len(),
        game.plants@[i].cell == game.plants@[j].cell,
    ensures
        i == j,
{
}

/// Every defender sequence with distinct ids descends from itself.
pub proof fn lemma_plants_descend_refl(s: Seq<Plant>)
    requires
        plant_ids_unique(s),
    ensures
        plant_progress(s, s),
        plant_ids_kept(s, s),
{
    assert forall|j: int, k: int|
        #![trigger s[j].id, s[k].id]
        0 <= j < s.len() && 0 <= k < s.len() && s[j].id == s[k].id implies j == k by {}
    assert forall|k: int| 0 <= k < s.len() implies has_plant_id(s, (#[trigger] s[k]).id) by {}
}

/// Lowering one defender's health, to a positive value, keeps the defenders
/// well formed.
pub proof fn lemma_plants_lower_health(s: Seq<Plant>, i: int, h: i64, n: u64)
    requires
        plants_wf(s, n),
        0 <= i < s.len(),
        0 < h <= s[i].health,
    ensures
        plants_wf(s.update(i, Plant { health: h, ..s[i] }), n),
        plant_progress(s, s.update(i, Plant { health: h, ..s[i] })),
        plant_ids_kept(s, s.update(i, Plant { health: h, ..s[i] })),
{
    let r = s.update(i, Plant { health: h, ..s[i] });
    assert forall|x: int, y: int|
        0 <= x < r.len() && 0 <= y < r.len() && x != y implies r[x].cell != r[y].cell && r[x].id
        != r[y].id by {
        assert(r[x].cell == s[x].cell && r[x].id == s[x].id);
        assert(r[y].cell == s[y].cell && r[y].id == s[y].id);
    }
    assert forall|j: int, k: int|
        #![trigger s[j].id, r[k].id]
        0 <= j < s.len() && 0 <= k < r.len() && s[j].id == r[k].id implies {
            &&& r[k].health <= s[j].health
            &&& r[k].kind == s[j].kind
            &&& s[j].armed ==> r[k].armed
        } by {
        assert(s[k].id == s[j].id);
    }
    assert forall|k: int| 0 <= k < r.len() implies has_plant_id(s, (#[trigger] r[k]).id) by {
        assert(s[k].id == r[k].id);
    }
}

/// Every adversary sequence with distinct ids descends from itself.
pub proof fn lemma_zombies_descend_refl(s: Seq<Zombie>)
    requires
        zombie_ids_unique(s),
    ensures
        zombie_health_not_raised(s, s),
        zombie_ids_kept(s, s),
{
    assert forall|j: int, k: int|
        #![trigger s[j].id, s[k].id]
        0 <= j < s.len() && 0 <= k < s.len() && s[j].id == s[k].id implies j == k by {}
    assert forall|k: int| 0 <= k < s.len() implies has_zombie_id(s, (#[trigger] s[k]).id) by {}
}

impl Game {
    pub open spec fn wf(self) -> bool {
        &&& self.spawn_timer.wf()
        &&& plants_wf(self.plants@, self.next_id)
        &&& zombies_wf(self.zombies@, self.next_id)
        &&& bullets_wf(self.bullets@)
        &&& explosions_wf(self.explosions@)
        &&& particles_wf(self.particles@)
    }

    /// Another id can still be handed out.
    pub open spec fn has_fresh_id(self) -> bool {
        self.next_id < u64::MAX
    }

    /// A game before the first frame: 150 sun, the peashooter selected, an
    /// empty lawn and a fresh arrival timer.
    pub fn new() -> (r: Game)
        ensures
            r.wf(),
            r.state == GameState::initial(),
            r.spawn_timer.0 == Timer::fresh(SPAWN_INTERVAL_MS, TimerMode::Repeating),
            r.plants@ == Seq::<Plant>::empty(),
            r.zombies@ == Seq::<Zombie>::empty(),
            r.bullets@ == Seq::<Bullet>::empty(),
            r.explosions@ == Seq::<Explosion>::empty(),
            r.particles@ == Seq::<Particle>::empty(),
            r.next_id == 0,
    {
        Game {
            state: GameState::default(),
            spawn_timer: SpawnTimer::new(),
            plants: Vec::new(),
            zombies: Vec::new(),
            bullets: Vec::new(),
            explosions: Vec::new(),
            particles: Vec::new(),
            next_id: 0,
        }
    }

    /// Hand out a fresh id.
    pub fn allocate_id(&mut self) -> (r: u64)
        requires
            old(self).has_fresh_id(),
        ensures
            r == old(self).next_id,
            final(self).next_id == old(self).next_id + 1,
            final(self).state == old(self).state,
            final(self).spawn_timer == old(self).spawn_timer,
            final(self).plants == old(self).plants,
            final(self).zombies == old(self).zombies,
            final(self).bullets == old(self).bullets,
            final(self).explosions == old(self).explosions,
            final(self).particles == old(self).particles,
    {
        let id = self.next_id;
        self.next_id = self.next_id + 1;
        id
    }
}

/// Index of the defender standing on `c`, scanning all defenders.
pub fn find_occupant(plants: &Vec<Plant>, c: GridCell) -> (r: Option<usize>)
    requires
        one_per_cell(plants@),
    ensures
        r matches Some(i) ==> occupant(plants@, c) == Some(i as int),
        r is None ==> occupant(plants@, c) is None,
{
    let mut i: usize = 0;
    while i < plants.len()
        invariant
            i <= plants.len(),
            one_per_cell(plants@),
            forall|k: int| 0 <= k < i ==> (#[trigger] plants@[k]).cell != c,
        decreases plants.len() - i,
    {
        if plants[i].cell == c {
            proof {
                assert(plants@[i as int].cell == c);
                assert(occupied(plants@, c));
                let j = choose|j: int| 0 <= j < plants@.len() && (#[trigger] plants@[j]).cell == c;
                assert(plants@[j].cell == plants@[i as int].cell);
            }
            return Some(i);
        }
        i = i + 1;
    }
    None
}

/// Index of the defender with this id, if it still exists.
pub fn find_plant(plants: &Vec<Plant>, id: u64) -> (r: Option<usize>)
    requires
        plant_ids_unique(plants@),
    ensures
        r matches Some(i) ==> plant_index(plants@, id) == Some(i as int),
        r is None ==> plant_index(plants@, id) is None,
{
    let mut i: usize = 0;
    while i < plants.len()
        invariant
            i <= plants.len(),
            plant_ids_unique(plants@),
            forall|k: int| 0 <= k < i ==> (#[trigger] plants@[k]).id != id,
        decreases plants.len() - i,
    {
        if plants[i].id == id {
            proof {
                assert(plants@[i as int].id == id);
                assert(exists|k: int| 0 <= k < plants@.len() && (#[trigger] plants@[k]).id == id);
                let j = choose|j: int| 0 <= j < plants@.len() && (#[trigger] plants@[j]).id == id;
                assert(plants@[j].id == plants@[i as int].id);
            }
            return Some(i);
        }
        i = i + 1;
    }
    None
}

} // verus!
