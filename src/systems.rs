//! Per-tick cleanup systems, and the player component.

use vstd::prelude::*;
use crate::casting::{update_post, CastInput, CastResult, PatternDrawState, SpellCaster};
use crate::world::WorldView;
use crate::damage::Damageable;
use crate::physics::{
    body_components, body_keys, bridge_wf, collider_components, collider_parents, dead_flags, despawn_with_physics,
    entity_linked, entry, issued_entities, live_entities, players, timers_left, PhysicsWorld,
};
use crate::timers::{ticked_time, LimitedTimeOffer};
use crate::world::EntityId;

verus! {

/// Component for the player.
#[derive(Debug)]
pub struct Player {
    /// Some while a spell is being drawn.
    pub wip_spell: Option<SpellCaster>,
}

impl Player {
    pub fn new() -> (r: Self)
        ensures
            r.wip_spell is None,
    {
        Self { wip_spell: None }
    }

    /// One frame of casting for the player `me`: a cast in progress takes the input,
    /// and ends once it is no longer `NotDone`; without one, pressing the button
    /// starts a cast at the pointer. The caller acts on `Success` and `Mistake`.
    pub fn handle_cast(&mut self, me: EntityId, input: CastInput, view: &WorldView) -> (r: CastResult)
        ensures
            old(self).wip_spell is Some ==> (final(self).wip_spell is None <==> !(r is NotDone)),
            old(self).wip_spell is Some ==> exists|c: SpellCaster|
                #[trigger] update_post(old(self).wip_spell->0, c, input, *view, r) && (r is NotDone ==> final(self).wip_spell
                    == Some(c)),
            old(self).wip_spell is None ==> r is NotDone && (final(self).wip_spell is Some <==> input.clicked_down),
            old(self).wip_spell is None && input.clicked_down ==> ({
                let c = final(self).wip_spell->0;
                &&& c.patterns@.len() == 0
                &&& c.stack@.len() == 0
                &&& c.context.caster == me
                &&& c.state == PatternDrawState::new_drawing_spec(input.mouse)
            }),
    {
        let mut current: Option<SpellCaster> = None;
        std::mem::swap(&mut current, &mut self.wip_spell);
        match current {
            Some(mut caster) => {
                let ghost c0 = caster;
                let r = caster.update(input, view);
                assert(update_post(c0, caster, input, *view, r));
                if matches!(r, CastResult::NotDone) {
                    self.wip_spell = Some(caster);
                }
                r
            },
            None => {
                if input.clicked_down {
                    self.wip_spell = Some(SpellCaster::new(me, input.mouse));
                }
                CastResult::NotDone
            },
        }
    }
}

/// The listed entities are alive and listed once each.
pub open spec fn lists_live_once(w: hecs::World, r: Seq<(EntityId, bool)>) -> bool {
    &&& forall|i: int| 0 <= i < r.len() ==> live_entities(w).contains(#[trigger] r[i].0.bits)
    &&& forall|i: int, j: int| 0 <= i < j < r.len() ==> #[trigger] r[i].0.bits != #[trigger] r[j].0.bits
}

/// Relies on hecs's query for `&Damageable`, which yields each alive entity with
/// the component once: each with whether it is dead.
#[verifier::external_body]
fn damageable_states(w: &hecs::World) -> (r: Vec<(EntityId, bool)>)
    ensures
        lists_live_once(*w, r@),
        forall|i: int| 0 <= i < r@.len() ==> dead_flags(*w).contains_key(#[trigger] r@[i].0.bits)
            && dead_flags(*w)[r@[i].0.bits] == r@[i].1,
        forall|x: u64| #[trigger] dead_flags(*w).contains_key(x) ==> exists|i: int| 0 <= i < r@.len() && r@[i].0.bits == x,
{
    w.query::<&Damageable>().iter().map(|(e, d)| (EntityId { bits: e.to_bits() }, d.is_dead())).collect()
}

/// Relies on hecs's mutable query for `&mut LimitedTimeOffer`, which yields each
/// alive entity with the component once, and changes nothing but those
/// components: each ticked by `dt`, with whether it ran out.
#[verifier::external_body]
fn tick_timers(w: &mut hecs::World, dt: i64) -> (r: Vec<(EntityId, bool)>)
    requires
        dt >= 0,
    ensures
        lists_live_once(*final(w), r@),
        forall|i: int| 0 <= i < r@.len() ==> timers_left(*old(w)).contains_key(#[trigger] r@[i].0.bits)
            && r@[i].1 == (ticked_time(timers_left(*old(w))[r@[i].0.bits], dt) < 0),
        forall|x: u64| #[trigger] timers_left(*old(w)).contains_key(x) ==> exists|i: int| 0 <= i < r@.len() && r@[i].0.bits == x,
        timers_left(*final(w)).dom() == timers_left(*old(w)).dom(),
        forall|x: u64| #[trigger] timers_left(*final(w)).contains_key(x) ==> timers_left(*final(w))[x] == ticked_time(
            timers_left(*old(w))[x],
            dt,
        ),
        issued_entities(*final(w)) == issued_entities(*old(w)),
        live_entities(*final(w)) == live_entities(*old(w)),
        body_components(*final(w)) == body_components(*old(w)),
        collider_components(*final(w)) == collider_components(*old(w)),
        dead_flags(*final(w)) == dead_flags(*old(w)),
        players(*final(w)) == players(*old(w)),
{
    w.query_mut::<&mut LimitedTimeOffer>().into_iter().map(|(e, t)| (EntityId { bits: e.to_bits() }, t.tick(dt))).collect()
}

/// Relies on hecs's query for `&Player`, which yields each alive entity with the
/// component: the first of them, if there is any.
#[verifier::external_body]
fn first_player(w: &hecs::World) -> (r: Option<EntityId>)
    ensures
        r is Some ==> live_entities(*w).contains(r->0.bits) && players(*w).contains(r->0.bits),
        players(*w) != Set::<u64>::empty() ==> r is Some,
{
    w.query::<&Player>().iter().next().map(|(e, _)| EntityId { bits: e.to_bits() })
}

/// The player's entity: the first with a `Player` component.
pub fn get_player(world: &hecs::World) -> (r: Option<EntityId>)
    ensures
        r is Some ==> live_entities(*world).contains(r->0.bits) && players(*world).contains(r->0.bits),
        players(*world) != Set::<u64>::empty() ==> r is Some,
{
    first_player(world)
}

/// Relies on `hecs::World::iter`, which yields each alive entity once.
#[verifier::external_body]
fn all_entities(w: &hecs::World) -> (r: Vec<EntityId>)
    ensures
        forall|i: int| 0 <= i < r@.len() ==> live_entities(*w).contains(#[trigger] r@[i].bits),
        forall|i: int, j: int| 0 <= i < j < r@.len() ==> #[trigger] r@[i].bits != #[trigger] r@[j].bits,
        forall|x: u64| #[trigger] live_entities(*w).contains(x) ==> exists|i: int| 0 <= i < r@.len() && r@[i].bits == x,
{
    w.iter().map(|e| EntityId { bits: e.entity().to_bits() }).collect()
}

/// Relies on `hecs::World::get`, which fails for an alive entity exactly when it
/// lacks the component.
#[verifier::external_body]
fn has_player(w: &hecs::World, e: EntityId) -> (r: bool)
    requires
        live_entities(*w).contains(e.bits),
    ensures
        r == players(*w).contains(e.bits),
{
    w.get::<Player>(hecs::Entity::from_bits(e.bits)).is_ok()
}

/// Entity `x` has the same physics, damage and timer components in both worlds.
pub open spec fn keeps_components(a: hecs::World, b: hecs::World, x: u64) -> bool {
    &&& entry(body_components(b), x) == entry(body_components(a), x)
    &&& entry(collider_components(b), x) == entry(collider_components(a), x)
    &&& entry(dead_flags(b), x) == entry(dead_flags(a), x)
    &&& entry(timers_left(b), x) == entry(timers_left(a), x)
    &&& players(b).contains(x) == players(a).contains(x)
}

/// Entity `x`, alive in `w`, has had its body and collider taken out of `p`.
pub open spec fn physics_gone(w: hecs::World, p: PhysicsWorld, x: u64) -> bool {
    &&& body_components(w).contains_key(x) ==> !body_keys(p.rigid_bodies).contains(body_components(w)[x])
    &&& collider_components(w).contains_key(x) ==> !collider_parents(p.colliders).contains_key(collider_components(w)[x])
}

/// The list flags `x`.
pub open spec fn flagged(list: Seq<(EntityId, bool)>, x: u64) -> bool {
    exists|i: int| 0 <= i < list.len() && list[i].1 && list[i].0.bits == x
}

/// Despawn each listed entity that is flagged.
fn despawn_flagged(world: &mut hecs::World, physics: &mut PhysicsWorld, list: &Vec<(EntityId, bool)>)
    requires
        bridge_wf(*old(world), *old(physics)),
        lists_live_once(*old(world), list@),
    ensures
        bridge_wf(*final(world), *final(physics)),
        issued_entities(*final(world)) == issued_entities(*old(world)),
        forall|x: u64| #[trigger] live_entities(*final(world)).contains(x) <==> live_entities(*old(world)).contains(x)
            && !flagged(list@, x),
        forall|x: u64| #[trigger] live_entities(*final(world)).contains(x) ==> keeps_components(*old(world), *final(world), x),
        forall|x: u64| #[trigger] flagged(list@, x) ==> physics_gone(*old(world), *final(physics), x),
{
    let ghost start = *world;
    let ghost start_phys = *physics;
    let mut i: usize = 0;
    while i < list.len()
        invariant
            i <= list@.len(),
            bridge_wf(*world, *physics),
            bridge_wf(start, start_phys),
            issued_entities(*world) == issued_entities(start),
            live_entities(start).subset_of(issued_entities(start)),
            forall|j: int, k: int| 0 <= j < k < list@.len() ==> #[trigger] list@[j].0.bits != #[trigger] list@[k].0.bits,
            forall|j: int| 0 <= j < list@.len() ==> live_entities(start).contains(#[trigger] list@[j].0.bits),
            forall|j: int| i <= j < list@.len() ==> live_entities(*world).contains(#[trigger] list@[j].0.bits),
            forall|x: u64| #[trigger] live_entities(*world).contains(x) <==> live_entities(start).contains(x) && !(exists|j: int|
                0 <= j < i && list@[j].1 && list@[j].0.bits == x),
            forall|x: u64| #[trigger] live_entities(*world).contains(x) ==> keeps_components(start, *world, x),
            forall|x: u64| (exists|j: int| 0 <= j < i && list@[j].1 && list@[j].0.bits == x) ==> #[trigger] physics_gone(start, *physics, x),
        decreases list@.len() - i,
    {
        let (e, flagged_now) = list[i];
        let ghost w_before = *world;
        let ghost p_before = *physics;
        if flagged_now {
            assert(live_entities(start).contains(e.bits));
            let _ = despawn_with_physics(world, physics, e);
            proof {
                assert(live_entities(w_before).contains(e.bits));
                assert(keeps_components(start, w_before, e.bits));
                assert forall|x: u64| (exists|j: int| 0 <= j < i + 1 && list@[j].1 && list@[j].0.bits == x) implies #[trigger] physics_gone(start, *physics, x) by {
                    if x != e.bits {
                        let j = choose|j: int| 0 <= j < i + 1 && list@[j].1 && list@[j].0.bits == x;
                        assert(j < i);
                        assert(physics_gone(start, p_before, x));
                    } else {
                        if body_components(w_before).contains_key(x) {
                            assert(entity_linked(w_before, p_before, x));
                        }
                    }
                }
            }
        }
        proof {
            assert forall|x: u64| #[trigger] live_entities(*world).contains(x) <==> live_entities(start).contains(x) && !(exists|j: int|
                0 <= j < i + 1 && list@[j].1 && list@[j].0.bits == x) by {
                if flagged_now && x == e.bits {
                    assert(0 <= i < i + 1 && list@[i as int].1 && list@[i as int].0.bits == x);
                }
                if exists|j: int| 0 <= j < i + 1 && list@[j].1 && list@[j].0.bits == x {
                    let j = choose|j: int| 0 <= j < i + 1 && list@[j].1 && list@[j].0.bits == x;
                    if j == i {
                        assert(flagged_now && x == e.bits);
                    }
                }
            }
            assert forall|x: u64| #[trigger] live_entities(*world).contains(x) implies keeps_components(start, *world, x) by {
                assert(live_entities(w_before).contains(x));
                assert(keeps_components(start, w_before, x));
            }
            assert forall|x: u64| (exists|j: int| 0 <= j < i + 1 && list@[j].1 && list@[j].0.bits == x) implies #[trigger] physics_gone(start, *physics, x) by {
                if !flagged_now {
                    let j = choose|j: int| 0 <= j < i + 1 && list@[j].1 && list@[j].0.bits == x;
                    assert(j < i);
                }
            }
        }
        i = i + 1;
    }
}

/// Despawn every damageable entity flagged dead, with its physics objects, and no
/// other: the dead entities' bodies and colliders leave the physics store, and
/// the survivors keep their components. Run it after every system that deals
/// damage in a tick.
pub fn system_cleanup_dead(world: &mut hecs::World, physics: &mut PhysicsWorld)
    requires
        bridge_wf(*old(world), *old(physics)),
    ensures
        bridge_wf(*final(world), *final(physics)),
        issued_entities(*final(world)) == issued_entities(*old(world)),
        forall|x: u64| #[trigger] live_entities(*final(world)).contains(x) <==> live_entities(*old(world)).contains(x)
            && !(dead_flags(*old(world)).contains_key(x) && dead_flags(*old(world))[x]),
        forall|x: u64| #[trigger] live_entities(*final(world)).contains(x) ==> keeps_components(*old(world), *final(world), x),
        forall|x: u64|
            #![trigger physics_gone(*old(world), *final(physics), x)]
            dead_flags(*old(world)).contains_key(x) && dead_flags(*old(world))[x] ==> physics_gone(*old(world), *final(physics), x),
{
    let ghost world_before = *world;
    let list = damageable_states(world);
    despawn_flagged(world, physics, &list);
    proof {
        assert forall|x: u64| flagged(list@, x) <==> dead_flags(world_before).contains_key(x) && dead_flags(world_before)[x] by {
            if dead_flags(world_before).contains_key(x) && dead_flags(world_before)[x] {
                let i = choose|i: int| 0 <= i < list@.len() && list@[i].0.bits == x;
                assert(list@[i].1);
            }
            if flagged(list@, x) {
                let i = choose|i: int| 0 <= i < list@.len() && list@[i].1 && list@[i].0.bits == x;
                assert(dead_flags(world_before).contains_key(list@[i].0.bits));
            }
        }
    }
}

/// Count down every timed entity by `dt` microseconds and despawn those that ran
/// out, with their physics objects, and no other; the survivors' timers are counted
/// down, and their other components kept.
pub fn system_cleanup_limited_timers(world: &mut hecs::World, physics: &mut PhysicsWorld, dt: i64)
    requires
        bridge_wf(*old(world), *old(physics)),
        dt >= 0,
    ensures
        bridge_wf(*final(world), *final(physics)),
        issued_entities(*final(world)) == issued_entities(*old(world)),
        forall|x: u64| #[trigger] live_entities(*final(world)).contains(x) <==> live_entities(*old(world)).contains(x)
            && !(timers_left(*old(world)).contains_key(x) && ticked_time(timers_left(*old(world))[x], dt) < 0),
        forall|x: u64| #[trigger] live_entities(*final(world)).contains(x) ==> {
            &&& entry(body_components(*final(world)), x) == entry(body_components(*old(world)), x)
            &&& entry(collider_components(*final(world)), x) == entry(collider_components(*old(world)), x)
            &&& entry(dead_flags(*final(world)), x) == entry(dead_flags(*old(world)), x)
            &&& timers_left(*final(world)).contains_key(x) == timers_left(*old(world)).contains_key(x)
            &&& timers_left(*final(world)).contains_key(x) ==> timers_left(*final(world))[x] == ticked_time(
                timers_left(*old(world))[x],
                dt,
            )
        },
        forall|x: u64|
            #![trigger physics_gone(*old(world), *final(physics), x)]
            timers_left(*old(world)).contains_key(x) && ticked_time(timers_left(*old(world))[x], dt) < 0 ==> physics_gone(
                *old(world),
                *final(physics),
                x,
            ),
{
    let ghost world_before = *world;
    let list = tick_timers(world, dt);
    let ghost ticked = *world;
    despawn_flagged(world, physics, &list);
    proof {
        let tl = timers_left(world_before);
        assert forall|x: u64| flagged(list@, x) <==> tl.contains_key(x) && ticked_time(tl[x], dt) < 0 by {
            if tl.contains_key(x) && ticked_time(tl[x], dt) < 0 {
                let i = choose|i: int| 0 <= i < list@.len() && list@[i].0.bits == x;
                assert(list@[i].1);
            }
            if flagged(list@, x) {
                let i = choose|i: int| 0 <= i < list@.len() && list@[i].1 && list@[i].0.bits == x;
                assert(tl.contains_key(list@[i].0.bits));
            }
        }
        assert forall|x: u64| #[trigger] live_entities(*world).contains(x) implies {
            &&& entry(body_components(*world), x) == entry(body_components(world_before), x)
            &&& entry(collider_components(*world), x) == entry(collider_components(world_before), x)
            &&& entry(dead_flags(*world), x) == entry(dead_flags(world_before), x)
            &&& timers_left(*world).contains_key(x) == tl.contains_key(x)
            &&& timers_left(*world).contains_key(x) ==> timers_left(*world)[x] == ticked_time(tl[x], dt)
        } by {
            assert(keeps_components(ticked, *world, x));
            if timers_left(ticked).contains_key(x) {
                assert(timers_left(ticked)[x] == ticked_time(tl[x], dt));
            }
        }
    }
}

/// Despawn every entity but the players, with their physics objects; the players
/// keep their components.
pub fn despawn_all_but_players(world: &mut hecs::World, physics: &mut PhysicsWorld)
    requires
        bridge_wf(*old(world), *old(physics)),
    ensures
        bridge_wf(*final(world), *final(physics)),
        issued_entities(*final(world)) == issued_entities(*old(world)),
        forall|x: u64| #[trigger] live_entities(*final(world)).contains(x) <==> live_entities(*old(world)).contains(x)
            && players(*old(world)).contains(x),
        forall|x: u64| #[trigger] live_entities(*final(world)).contains(x) ==> keeps_components(*old(world), *final(world), x),
        forall|x: u64|
            #![trigger physics_gone(*old(world), *final(physics), x)]
            live_entities(*old(world)).contains(x) && !players(*old(world)).contains(x) ==> physics_gone(*old(world), *final(physics), x),
{
    let ghost world_before = *world;
    let all = all_entities(world);
    let mut list: Vec<(EntityId, bool)> = Vec::new();
    let mut i: usize = 0;
    while i < all.len()
        invariant
            i <= all@.len(),
            *world == world_before,
            list@.len() == i,
            forall|j: int| 0 <= j < i ==> #[trigger] list@[j] == (all@[j], !players(world_before).contains(all@[j].bits)),
            forall|j: int| 0 <= j < all@.len() ==> live_entities(world_before).contains(#[trigger] all@[j].bits),
        decreases all@.len() - i,
    {
        let e = all[i];
        let keep = has_player(world, e);
        list.push((e, !keep));
        i = i + 1;
    }
    proof {
        assert forall|x: u64| flagged(list@, x) <==> live_entities(world_before).contains(x) && !players(world_before).contains(x) by {
            if live_entities(world_before).contains(x) && !players(world_before).contains(x) {
                let j = choose|j: int| 0 <= j < all@.len() && all@[j].bits == x;
                assert(list@[j] == (all@[j], !players(world_before).contains(all@[j].bits)));
            }
            if flagged(list@, x) {
                let j = choose|j: int| 0 <= j < list@.len() && list@[j].1 && list@[j].0.bits == x;
                assert(list@[j] == (all@[j], !players(world_before).contains(all@[j].bits)));
            }
        }
        assert forall|j: int, k: int| 0 <= j < k < list@.len() implies #[trigger] list@[j].0.bits != #[trigger] list@[k].0.bits by {
            assert(list@[j] == (all@[j], !players(world_before).contains(all@[j].bits)));
            assert(list@[k] == (all@[k], !players(world_before).contains(all@[k].bits)));
        }
        assert forall|j: int| 0 <= j < list@.len() implies live_entities(world_before).contains(#[trigger] list@[j].0.bits) by {
            assert(list@[j] == (all@[j], !players(world_before).contains(all@[j].bits)));
        }
    }
    despawn_flagged(world, physics, &list);
}

} // verus!
