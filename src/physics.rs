//! The bridge between entities and the physics store: each physical entity owns
//! at most one rigid body and one collider, tagged with the entity's id.

use vstd::prelude::*;
use crate::world::EntityId;

verus! {

/// A rigid body's handle, as `(index, generation)`.
pub type BodyKey = (u32, u32);

/// A collider's handle, as `(index, generation)`.
pub type ColliderKey = (u32, u32);

/// Component for entities with a collider.
#[derive(Clone, Copy, Debug)]
pub struct HasCollider(pub ColliderKey);

/// Component for entities with a rigid body.
#[derive(Clone, Copy, Debug)]
pub struct HasRigidBody(pub BodyKey);

#[verifier::external_type_specification]
#[verifier::external_body]
pub struct ExWorld(hecs::World);

#[verifier::external_type_specification]
#[verifier::external_body]
pub struct ExNoSuchEntity(hecs::NoSuchEntity);

#[verifier::external_type_specification]
#[verifier::external_body]
pub struct ExRigidBodySet(rapier2d::dynamics::RigidBodySet);

#[verifier::external_type_specification]
#[verifier::external_body]
pub struct ExColliderSet(rapier2d::geometry::ColliderSet);

#[verifier::external_type_specification]
#[verifier::external_body]
pub struct ExJointSet(rapier2d::dynamics::JointSet);

#[verifier::external_type_specification]
#[verifier::external_body]
pub struct ExIslandManager(rapier2d::dynamics::IslandManager);

#[verifier::external_type_specification]
#[verifier::external_body]
pub struct ExRigidBody(rapier2d::dynamics::RigidBody);

#[verifier::external_type_specification]
#[verifier::external_body]
pub struct ExCollider(rapier2d::geometry::Collider);

/// The bits of the entities alive in a world: handed out by a spawn and not
/// despawned since.
pub uninterp spec fn live_entities(w: hecs::World) -> Set<u64>;

/// The bits of every entity id a world has handed out, alive or despawned since.
pub uninterp spec fn issued_entities(w: hecs::World) -> Set<u64>;

/// The `HasRigidBody` components of a world, by entity bits.
pub uninterp spec fn body_components(w: hecs::World) -> Map<u64, BodyKey>;

/// The `HasCollider` components of a world, by entity bits.
pub uninterp spec fn collider_components(w: hecs::World) -> Map<u64, ColliderKey>;

/// The dead flags of the `Damageable` components of a world, by entity bits.
pub uninterp spec fn dead_flags(w: hecs::World) -> Map<u64, bool>;

/// The time left of the `LimitedTimeOffer` components of a world, by entity bits.
pub uninterp spec fn timers_left(w: hecs::World) -> Map<u64, i64>;

/// The bits of the entities of a world that have a `Player` component.
pub uninterp spec fn players(w: hecs::World) -> Set<u64>;

/// The handles of the bodies in a body set.
pub uninterp spec fn body_keys(s: rapier2d::dynamics::RigidBodySet) -> Set<BodyKey>;

/// The `user_data` of the bodies in a body set, by handle.
pub uninterp spec fn body_tags(s: rapier2d::dynamics::RigidBodySet) -> Map<BodyKey, u128>;

/// The colliders in a collider set, each with the body it is attached to, if any.
pub uninterp spec fn collider_parents(s: rapier2d::geometry::ColliderSet) -> Map<ColliderKey, Option<BodyKey>>;

/// The `user_data` of the colliders in a collider set, by handle.
pub uninterp spec fn collider_tags(s: rapier2d::geometry::ColliderSet) -> Map<ColliderKey, u128>;

/// Relies on `RigidBodySet::new`: a new set holds no body.
#[verifier::external_body]
fn new_body_set() -> (r: rapier2d::dynamics::RigidBodySet)
    ensures
        body_keys(r) == Set::<BodyKey>::empty(),
        body_tags(r).dom() == Set::<BodyKey>::empty(),
{
    rapier2d::dynamics::RigidBodySet::new()
}

/// Relies on `ColliderSet::new`: a new set holds no collider.
#[verifier::external_body]
fn new_collider_set() -> (r: rapier2d::geometry::ColliderSet)
    ensures
        collider_parents(r).dom() == Set::<ColliderKey>::empty(),
        collider_tags(r).dom() == Set::<ColliderKey>::empty(),
{
    rapier2d::geometry::ColliderSet::new()
}

/// Relies on `JointSet::new`.
#[verifier::external_body]
fn new_joint_set() -> rapier2d::dynamics::JointSet {
    rapier2d::dynamics::JointSet::new()
}

/// Relies on `IslandManager::new`.
#[verifier::external_body]
fn new_island_manager() -> rapier2d::dynamics::IslandManager {
    rapier2d::dynamics::IslandManager::new()
}

/// Relies on `hecs::World::new`: a new world has handed out no entity.
#[verifier::external_body]
fn new_hecs_world() -> (r: hecs::World)
    ensures
        issued_entities(r) == Set::<u64>::empty(),
        live_entities(r) == Set::<u64>::empty(),
        body_components(r).dom() == Set::<u64>::empty(),
        collider_components(r).dom() == Set::<u64>::empty(),
        dead_flags(r).dom() == Set::<u64>::empty(),
        timers_left(r).dom() == Set::<u64>::empty(),
        players(r) == Set::<u64>::empty(),
{
    hecs::World::new()
}

/// Relies on `hecs::World::spawn` of an empty bundle: an id never handed out before
/// (a fresh slot, or a freed slot at the generation its free raised it to), alive
/// afterwards, with no components.
#[verifier::external_body]
fn spawn_empty(w: &mut hecs::World) -> (r: EntityId)
    ensures
        !issued_entities(*old(w)).contains(r.bits),
        issued_entities(*final(w)) == issued_entities(*old(w)).insert(r.bits),
        live_entities(*final(w)) == live_entities(*old(w)).insert(r.bits),
        body_components(*final(w)) == body_components(*old(w)),
        collider_components(*final(w)) == collider_components(*old(w)),
        dead_flags(*final(w)) == dead_flags(*old(w)),
        timers_left(*final(w)) == timers_left(*old(w)),
        players(*final(w)) == players(*old(w)),
{
    EntityId { bits: w.spawn(()).to_bits() }
}

/// Relies on `hecs::World::insert` on an alive entity, which adds the components.
#[verifier::external_body]
fn insert_physics_components(w: &mut hecs::World, e: EntityId, b: BodyKey, c: ColliderKey)
    requires
        live_entities(*old(w)).contains(e.bits),
    ensures
        issued_entities(*final(w)) == issued_entities(*old(w)),
        live_entities(*final(w)) == live_entities(*old(w)),
        body_components(*final(w)) == body_components(*old(w)).insert(e.bits, b),
        collider_components(*final(w)) == collider_components(*old(w)).insert(e.bits, c),
        dead_flags(*final(w)) == dead_flags(*old(w)),
        timers_left(*final(w)) == timers_left(*old(w)),
        players(*final(w)) == players(*old(w)),
{
    let _ = w.insert(hecs::Entity::from_bits(e.bits), (HasRigidBody(b), HasCollider(c)));
}

/// Relies on `hecs::World::insert_one` on an alive entity, which adds the component.
#[verifier::external_body]
fn insert_collider_component(w: &mut hecs::World, e: EntityId, c: ColliderKey)
    requires
        live_entities(*old(w)).contains(e.bits),
    ensures
        issued_entities(*final(w)) == issued_entities(*old(w)),
        live_entities(*final(w)) == live_entities(*old(w)),
        body_components(*final(w)) == body_components(*old(w)),
        collider_components(*final(w)) == collider_components(*old(w)).insert(e.bits, c),
        dead_flags(*final(w)) == dead_flags(*old(w)),
        timers_left(*final(w)) == timers_left(*old(w)),
        players(*final(w)) == players(*old(w)),
{
    let _ = w.insert_one(hecs::Entity::from_bits(e.bits), HasCollider(c));
}

/// Relies on `hecs::World::get`, which fails for an entity that is not alive or lacks the component.
#[verifier::external_body]
pub(crate) fn get_body_component(w: &hecs::World, e: EntityId) -> (r: Option<BodyKey>)
    ensures
        r == (if body_components(*w).contains_key(e.bits) { Some(body_components(*w)[e.bits]) } else { None }),
{
    w.get::<HasRigidBody>(hecs::Entity::from_bits(e.bits)).ok().map(|h| h.0)
}

/// Relies on `hecs::World::get`, which fails for an entity that is not alive or lacks the component.
#[verifier::external_body]
pub(crate) fn get_collider_component(w: &hecs::World, e: EntityId) -> (r: Option<ColliderKey>)
    ensures
        r == (if collider_components(*w).contains_key(e.bits) { Some(collider_components(*w)[e.bits]) } else { None }),
{
    w.get::<HasCollider>(hecs::Entity::from_bits(e.bits)).ok().map(|h| h.0)
}

/// Relies on `hecs::World::despawn` for an id the world has handed out: it fails
/// exactly when that entity was despawned already, and otherwise removes the entity
/// with all its components.
#[verifier::external_body]
fn despawn_entity(w: &mut hecs::World, e: EntityId) -> (r: Result<(), hecs::NoSuchEntity>)
    requires
        issued_entities(*old(w)).contains(e.bits),
    ensures
        r is Ok == live_entities(*old(w)).contains(e.bits),
        issued_entities(*final(w)) == issued_entities(*old(w)),
        live_entities(*final(w)) == live_entities(*old(w)).remove(e.bits),
        body_components(*final(w)) == body_components(*old(w)).remove(e.bits),
        collider_components(*final(w)) == collider_components(*old(w)).remove(e.bits),
        dead_flags(*final(w)) == dead_flags(*old(w)).remove(e.bits),
        timers_left(*final(w)) == timers_left(*old(w)).remove(e.bits),
        players(*final(w)) == players(*old(w)).remove(e.bits),
{
    w.despawn(hecs::Entity::from_bits(e.bits))
}

/// Relies on `RigidBodySet::insert`: the body gets a handle that was not in the set.
/// The body is first tagged with the entity's bits, as `user_data`.
#[verifier::external_body]
fn insert_tagged_body(s: &mut rapier2d::dynamics::RigidBodySet, mut body: rapier2d::dynamics::RigidBody, tag: EntityId) -> (r: BodyKey)
    ensures
        !body_keys(*old(s)).contains(r),
        body_keys(*final(s)) == body_keys(*old(s)).insert(r),
        body_tags(*final(s)) == body_tags(*old(s)).insert(r, tag.bits as u128),
{
    body.user_data = tag.bits as u128;
    s.insert(body).into_raw_parts()
}

/// Relies on `ColliderSet::insert`: the collider gets a handle that was not in the
/// set, and no parent. The collider is first tagged with the entity's bits.
#[verifier::external_body]
fn insert_tagged_collider(s: &mut rapier2d::geometry::ColliderSet, mut coll: rapier2d::geometry::Collider, tag: EntityId) -> (r: ColliderKey)
    ensures
        !collider_parents(*old(s)).contains_key(r),
        collider_parents(*final(s)) == collider_parents(*old(s)).insert(r, None),
        collider_tags(*final(s)) == collider_tags(*old(s)).insert(r, tag.bits as u128),
{
    coll.user_data = tag.bits as u128;
    s.insert(coll).into_raw_parts()
}

/// Relies on `ColliderSet::insert_with_parent`, which panics when the parent is not
/// in the body set: the collider gets a fresh handle and is attached to the parent.
/// The collider is first tagged with the entity's bits.
#[verifier::external_body]
fn insert_tagged_collider_with_parent(
    s: &mut rapier2d::geometry::ColliderSet,
    mut coll: rapier2d::geometry::Collider,
    parent: BodyKey,
    bodies: &mut rapier2d::dynamics::RigidBodySet,
    tag: EntityId,
) -> (r: ColliderKey)
    requires
        body_keys(*old(bodies)).contains(parent),
    ensures
        !collider_parents(*old(s)).contains_key(r),
        collider_parents(*final(s)) == collider_parents(*old(s)).insert(r, Some(parent)),
        collider_tags(*final(s)) == collider_tags(*old(s)).insert(r, tag.bits as u128),
        body_keys(*final(bodies)) == body_keys(*old(bodies)),
        body_tags(*final(bodies)) == body_tags(*old(bodies)),
{
    coll.user_data = tag.bits as u128;
    let parent = rapier2d::dynamics::RigidBodyHandle::from_raw_parts(parent.0, parent.1);
    s.insert_with_parent(coll, parent, bodies).into_raw_parts()
}

/// The colliders of `m` that are not attached to `b`.
pub open spec fn without_children(m: Map<ColliderKey, Option<BodyKey>>, b: BodyKey) -> Map<ColliderKey, Option<BodyKey>> {
    Map::new(|c: ColliderKey| m.contains_key(c) && m[c] != Some(b), |c: ColliderKey| m[c])
}

/// Relies on `RigidBodySet::remove`: where the body is in the set, it leaves the set
/// with the colliders attached to it; otherwise nothing changes.
#[verifier::external_body]
fn remove_body(
    s: &mut rapier2d::dynamics::RigidBodySet,
    b: BodyKey,
    islands: &mut rapier2d::dynamics::IslandManager,
    colliders: &mut rapier2d::geometry::ColliderSet,
    joints: &mut rapier2d::dynamics::JointSet,
)
    ensures
        body_keys(*final(s)) == body_keys(*old(s)).remove(b),
        body_tags(*final(s)) == body_tags(*old(s)).remove(b),
        collider_parents(*final(colliders)) == (if body_keys(*old(s)).contains(b) {
            without_children(collider_parents(*old(colliders)), b)
        } else {
            collider_parents(*old(colliders))
        }),
        collider_tags(*final(colliders)) == collider_tags(*old(colliders)).restrict(collider_parents(*final(colliders)).dom()),
{
    let handle = rapier2d::dynamics::RigidBodyHandle::from_raw_parts(b.0, b.1);
    s.remove(handle, islands, colliders, joints);
}

/// Relies on `ColliderSet::remove`: the collider leaves the set if it was there;
/// the bodies stay.
#[verifier::external_body]
fn remove_collider(
    s: &mut rapier2d::geometry::ColliderSet,
    c: ColliderKey,
    islands: &mut rapier2d::dynamics::IslandManager,
    bodies: &mut rapier2d::dynamics::RigidBodySet,
)
    ensures
        collider_parents(*final(s)) == collider_parents(*old(s)).remove(c),
        collider_tags(*final(s)) == collider_tags(*old(s)).remove(c),
        body_keys(*final(bodies)) == body_keys(*old(bodies)),
        body_tags(*final(bodies)) == body_tags(*old(bodies)),
{
    let handle = rapier2d::geometry::ColliderHandle::from_raw_parts(c.0, c.1);
    s.remove(handle, islands, bodies, false);
}

/// The physics objects of the game, with the island bookkeeping that removal needs.
pub struct PhysicsWorld {
    pub rigid_bodies: rapier2d::dynamics::RigidBodySet,
    pub colliders: rapier2d::geometry::ColliderSet,
    pub joints: rapier2d::dynamics::JointSet,
    pub island_manager: rapier2d::dynamics::IslandManager,
}

/// The entity with bits `e` and its physics objects agree: its body is in the body
/// set; its collider is in the collider set, attached to its body if it has one and
/// to nothing otherwise; and both carry the entity's bits as their tag.
pub open spec fn entity_linked(w: hecs::World, p: PhysicsWorld, e: u64) -> bool {
    let bodies = body_components(w);
    let colls = collider_components(w);
    &&& bodies.contains_key(e) ==> body_keys(p.rigid_bodies).contains(bodies[e]) && colls.contains_key(e)
        && body_tags(p.rigid_bodies).contains_key(bodies[e]) && body_tags(p.rigid_bodies)[bodies[e]] == e as u128
    &&& colls.contains_key(e) ==> collider_parents(p.colliders).contains_key(colls[e])
        && collider_parents(p.colliders)[colls[e]] == (if bodies.contains_key(e) { Some(bodies[e]) } else { None })
        && collider_tags(p.colliders).contains_key(colls[e]) && collider_tags(p.colliders)[colls[e]] == e as u128
}

/// The world and the physics store agree: alive entities were handed out, only
/// alive entities have physics components, each is linked to its objects, and no
/// two entities share a body or a collider.
pub open spec fn bridge_wf(w: hecs::World, p: PhysicsWorld) -> bool {
    &&& live_entities(w).subset_of(issued_entities(w))
    &&& forall|e: u64| #[trigger] body_components(w).contains_key(e) ==> live_entities(w).contains(e)
    &&& forall|e: u64| #[trigger] collider_components(w).contains_key(e) ==> live_entities(w).contains(e)
    &&& forall|e: u64| #[trigger] live_entities(w).contains(e) ==> entity_linked(w, p, e)
    &&& forall|e1: u64, e2: u64|
        #![trigger body_components(w)[e1], body_components(w)[e2]]
        e1 != e2 && body_components(w).contains_key(e1) && body_components(w).contains_key(e2)
            ==> body_components(w)[e1] != body_components(w)[e2]
    &&& forall|e1: u64, e2: u64|
        #![trigger collider_components(w)[e1], collider_components(w)[e2]]
        e1 != e2 && collider_components(w).contains_key(e1) && collider_components(w).contains_key(e2)
            ==> collider_components(w)[e1] != collider_components(w)[e2]
}

impl PhysicsWorld {
    /// An empty physics store.
    pub fn new() -> (r: Self)
        ensures
            body_keys(r.rigid_bodies) == Set::<BodyKey>::empty(),
            collider_parents(r.colliders).dom() == Set::<ColliderKey>::empty(),
    {
        PhysicsWorld {
            rigid_bodies: new_body_set(),
            colliders: new_collider_set(),
            joints: new_joint_set(),
            island_manager: new_island_manager(),
        }
    }
}

/// An empty entity world, which agrees with any physics store.
pub fn new_world() -> (r: hecs::World)
    ensures
        issued_entities(r) == Set::<u64>::empty(),
        live_entities(r) == Set::<u64>::empty(),
        forall|p: PhysicsWorld| bridge_wf(r, p),
{
    new_hecs_world()
}

/// A despawn asked for an entity that is not alive.
#[derive(Clone, Copy, Debug, PartialEq, Eq, Structural)]
pub enum DespawnError {
    NoSuchEntity,
}

/// The colliders left after despawning an entity whose body (if any) is `body`
/// and whose collider (if any) is `coll`.
pub open spec fn colliders_after_despawn(
    m: Map<ColliderKey, Option<BodyKey>>,
    body: Option<BodyKey>,
    coll: Option<ColliderKey>,
) -> Map<ColliderKey, Option<BodyKey>> {
    let m1 = match body {
        Some(b) => without_children(m, b),
        None => m,
    };
    match coll {
        Some(c) => m1.remove(c),
        None => m1,
    }
}

/// The entry for `e` in `m`, if any.
pub open spec fn entry<V>(m: Map<u64, V>, e: u64) -> Option<V> {
    if m.contains_key(e) {
        Some(m[e])
    } else {
        None
    }
}

/// Spawn an entity with a collider, and with a rigid body if one is given; the
/// collider is then attached to the body. Both are tagged with the new entity's
/// bits, and the entity gets the `HasCollider` (and `HasRigidBody`) components that
/// name them. Other components are added to the returned entity afterwards.
pub fn spawn_with_physics(
    world: &mut hecs::World,
    physics: &mut PhysicsWorld,
    collider: rapier2d::geometry::Collider,
    body: Option<rapier2d::dynamics::RigidBody>,
) -> (r: EntityId)
    requires
        bridge_wf(*old(world), *old(physics)),
    ensures
        bridge_wf(*final(world), *final(physics)),
        !issued_entities(*old(world)).contains(r.bits),
        issued_entities(*final(world)) == issued_entities(*old(world)).insert(r.bits),
        live_entities(*final(world)) == live_entities(*old(world)).insert(r.bits),
        collider_components(*final(world)).contains_key(r.bits),
        body_components(*final(world)).contains_key(r.bits) == body is Some,
        entity_linked(*final(world), *final(physics), r.bits),
        body_components(*final(world)).remove(r.bits) == body_components(*old(world)),
        collider_components(*final(world)).remove(r.bits) == collider_components(*old(world)),
        dead_flags(*final(world)) == dead_flags(*old(world)),
        timers_left(*final(world)) == timers_left(*old(world)),
        players(*final(world)) == players(*old(world)),
{
    let ghost world_before = *world;
    let e = spawn_empty(world);
    proof {
        assert(!live_entities(world_before).contains(e.bits));
        assert(!body_components(world_before).contains_key(e.bits));
        assert(!collider_components(world_before).contains_key(e.bits));
    }
    let ghost phys_before = *physics;
    match body {
        Some(body) => {
            let b = insert_tagged_body(&mut physics.rigid_bodies, body, e);
            let c = insert_tagged_collider_with_parent(&mut physics.colliders, collider, b, &mut physics.rigid_bodies, e);
            insert_physics_components(world, e, b, c);
            proof {
                let w = *world;
                let p = *physics;
                assert(body_components(w).remove(e.bits) =~= body_components(world_before));
                assert(collider_components(w).remove(e.bits) =~= collider_components(world_before));
                assert forall|x: u64| #[trigger] live_entities(w).contains(x) implies entity_linked(w, p, x) by {
                    if x != e.bits {
                        assert(entity_linked(world_before, phys_before, x));
                        if collider_components(world_before).contains_key(x) {
                            assert(collider_components(world_before)[x] != c);
                        }
                        if body_components(world_before).contains_key(x) {
                            assert(body_components(world_before)[x] != b);
                        }
                    }
                }
                assert forall|e1: u64, e2: u64|
                    e1 != e2 && body_components(w).contains_key(e1) && body_components(w).contains_key(e2)
                    implies #[trigger] body_components(w)[e1] != #[trigger] body_components(w)[e2] by {
                    if e1 == e.bits {
                        assert(entity_linked(world_before, phys_before, e2));
                    } else if e2 == e.bits {
                        assert(entity_linked(world_before, phys_before, e1));
                    }
                }
                assert forall|e1: u64, e2: u64|
                    e1 != e2 && collider_components(w).contains_key(e1) && collider_components(w).contains_key(e2)
                    implies #[trigger] collider_components(w)[e1] != #[trigger] collider_components(w)[e2] by {
                    if e1 == e.bits {
                        assert(entity_linked(world_before, phys_before, e2));
                    } else if e2 == e.bits {
                        assert(entity_linked(world_before, phys_before, e1));
                    }
                }
            }
        },
        None => {
            let c = insert_tagged_collider(&mut physics.colliders, collider, e);
            insert_collider_component(world, e, c);
            proof {
                let w = *world;
                let p = *physics;
                assert(body_components(w).remove(e.bits) =~= body_components(world_before));
                assert(collider_components(w).remove(e.bits) =~= collider_components(world_before));
                assert forall|x: u64| #[trigger] live_entities(w).contains(x) implies entity_linked(w, p, x) by {
                    if x != e.bits {
                        assert(entity_linked(world_before, phys_before, x));
                        if collider_components(world_before).contains_key(x) {
                            assert(collider_components(world_before)[x] != c);
                        }
                    }
                }
                assert forall|e1: u64, e2: u64|
                    e1 != e2 && collider_components(w).contains_key(e1) && collider_components(w).contains_key(e2)
                    implies #[trigger] collider_components(w)[e1] != #[trigger] collider_components(w)[e2] by {
                    if e1 == e.bits {
                        assert(entity_linked(world_before, phys_before, e2));
                    } else if e2 == e.bits {
                        assert(entity_linked(world_before, phys_before, e1));
                    }
                }
            }
        },
    }
    e
}

/// Despawn an entity the world has handed out: first its rigid body, which takes
/// the attached collider with it, then a collider that was not attached, then the
/// entity itself. Every other entity keeps its components, and its body and
/// collider stay in the physics store. An entity that is no longer alive is an
/// error, and then nothing changes.
pub fn despawn_with_physics(world: &mut hecs::World, physics: &mut PhysicsWorld, entity: EntityId) -> (r: Result<(), DespawnError>)
    requires
        bridge_wf(*old(world), *old(physics)),
        issued_entities(*old(world)).contains(entity.bits),
    ensures
        bridge_wf(*final(world), *final(physics)),
        r is Ok == live_entities(*old(world)).contains(entity.bits),
        issued_entities(*final(world)) == issued_entities(*old(world)),
        live_entities(*final(world)) == live_entities(*old(world)).remove(entity.bits),
        body_components(*final(world)) == body_components(*old(world)).remove(entity.bits),
        collider_components(*final(world)) == collider_components(*old(world)).remove(entity.bits),
        dead_flags(*final(world)) == dead_flags(*old(world)).remove(entity.bits),
        timers_left(*final(world)) == timers_left(*old(world)).remove(entity.bits),
        players(*final(world)) == players(*old(world)).remove(entity.bits),
        body_keys(final(physics).rigid_bodies) == (match entry(body_components(*old(world)), entity.bits) {
            Some(b) => body_keys(old(physics).rigid_bodies).remove(b),
            None => body_keys(old(physics).rigid_bodies),
        }),
        collider_parents(final(physics).colliders) == colliders_after_despawn(
            collider_parents(old(physics).colliders),
            entry(body_components(*old(world)), entity.bits),
            entry(collider_components(*old(world)), entity.bits),
        ),
        body_keys(final(physics).rigid_bodies).subset_of(body_keys(old(physics).rigid_bodies)),
        collider_parents(final(physics).colliders).dom().subset_of(collider_parents(old(physics).colliders).dom()),
        r is Err ==> *final(physics) == *old(physics),
{
    let ghost world_before = *world;
    let ghost phys_before = *physics;
    let ghost x = entity.bits;
    if let Some(b) = get_body_component(world, entity) {
        remove_body(&mut physics.rigid_bodies, b, &mut physics.island_manager, &mut physics.colliders, &mut physics.joints);
    }
    let ghost mid = collider_parents(physics.colliders);
    if let Some(c) = get_collider_component(world, entity) {
        remove_collider(&mut physics.colliders, c, &mut physics.island_manager, &mut physics.rigid_bodies);
    }
    let res = despawn_entity(world, entity);
    proof {
        let w = *world;
        let p = *physics;
        if !live_entities(world_before).contains(x) {
            assert(!body_components(world_before).contains_key(x));
            assert(!collider_components(world_before).contains_key(x));
        }
        if body_components(world_before).contains_key(x) {
            assert(entity_linked(world_before, phys_before, x));
        }
        assert forall|y: u64| #[trigger] live_entities(w).contains(y) implies entity_linked(w, p, y) by {
            assert(y != x);
            assert(live_entities(world_before).contains(y));
            assert(entity_linked(world_before, phys_before, y));
            if body_components(world_before).contains_key(y) && body_components(world_before).contains_key(x) {
                assert(body_components(world_before)[y] != body_components(world_before)[x]);
            }
            if collider_components(world_before).contains_key(y) && collider_components(world_before).contains_key(x) {
                assert(collider_components(world_before)[y] != collider_components(world_before)[x]);
            }
            if collider_components(world_before).contains_key(y) {
                assert(mid.contains_key(collider_components(world_before)[y]));
            }
        }
        assert(collider_parents(p.colliders).dom().subset_of(collider_parents(phys_before.colliders).dom()));
    }
    match res {
        Ok(()) => Ok(()),
        Err(_) => Err(DespawnError::NoSuchEntity),
    }
}

/// One entity of an intersecting pair: whether it is an explosion, and whether it
/// has both a rigid body and a collider.
#[derive(Clone, Copy, Debug, PartialEq, Eq, Structural)]
pub struct Intersecting {
    pub entity: EntityId,
    pub explodes: bool,
    pub physical: bool,
}

/// For an intersecting pair, the explosion and the body it acts on: the pair in
/// its own order if that works, else the other way round, else none.
pub fn explosion_pair(a: Intersecting, b: Intersecting) -> (r: Option<(EntityId, EntityId)>)
    ensures
        r == (if a.explodes && b.physical {
            Some((a.entity, b.entity))
        } else if b.explodes && a.physical {
            Some((b.entity, a.entity))
        } else {
            None
        }),
{
    if a.explodes && b.physical {
        Some((a.entity, b.entity))
    } else if b.explodes && a.physical {
        Some((b.entity, a.entity))
    } else {
        None
    }
}

} // verus!
