use caverune::physics::{despawn_with_physics, spawn_with_physics, DespawnError, HasCollider, HasRigidBody, PhysicsWorld};
use caverune::physics::{explosion_pair, Intersecting};
use caverune::spells::{Heading, RenderedSpell, RenderedSpellKind, SpellContext, SpellEffect};
use caverune::world::{EntityId, Point};
use rapier2d::prelude::{ColliderBuilder, ColliderHandle, RigidBodyBuilder, RigidBodyHandle};

fn ball() -> rapier2d::geometry::Collider {
    ColliderBuilder::ball(0.5).build()
}

fn entity(e: EntityId) -> hecs::Entity {
    hecs::Entity::from_bits(e.bits)
}

#[test]
fn despawn_removes_body_and_collider() {
    let mut world = hecs::World::new();
    let mut physics = PhysicsWorld::new();
    let e = spawn_with_physics(&mut world, &mut physics, ball(), Some(RigidBodyBuilder::new_dynamic().build()));
    assert_eq!(physics.rigid_bodies.len(), 1);
    assert_eq!(physics.colliders.len(), 1);
    let b = world.get::<HasRigidBody>(entity(e)).unwrap().0;
    let c = world.get::<HasCollider>(entity(e)).unwrap().0;
    let body = physics.rigid_bodies.get(RigidBodyHandle::from_raw_parts(b.0, b.1)).unwrap();
    assert_eq!(body.user_data, e.bits as u128);
    let coll = physics.colliders.get(ColliderHandle::from_raw_parts(c.0, c.1)).unwrap();
    assert_eq!(coll.user_data, e.bits as u128);
    assert_eq!(coll.parent(), Some(RigidBodyHandle::from_raw_parts(b.0, b.1)));
    assert_eq!(despawn_with_physics(&mut world, &mut physics, e), Ok(()));
    assert_eq!(physics.rigid_bodies.len(), 0);
    assert_eq!(physics.colliders.len(), 0);
    assert!(!world.contains(entity(e)));
}

#[test]
fn despawning_one_entity_keeps_the_others_handles() {
    let mut world = hecs::World::new();
    let mut physics = PhysicsWorld::new();
    let a = spawn_with_physics(&mut world, &mut physics, ball(), None);
    let b = spawn_with_physics(&mut world, &mut physics, ball(), Some(RigidBodyBuilder::new_dynamic().build()));
    let c = spawn_with_physics(&mut world, &mut physics, ball(), None);
    assert!(world.get::<HasRigidBody>(entity(a)).is_err());
    assert_eq!(physics.colliders.len(), 3);
    assert_eq!(despawn_with_physics(&mut world, &mut physics, a), Ok(()));
    assert_eq!(physics.colliders.len(), 2);
    for other in [b, c] {
        let h = world.get::<HasCollider>(entity(other)).unwrap().0;
        let coll = physics.colliders.get(ColliderHandle::from_raw_parts(h.0, h.1)).unwrap();
        assert_eq!(coll.user_data, other.bits as u128);
    }
    let hb = world.get::<HasRigidBody>(entity(b)).unwrap().0;
    assert!(physics.rigid_bodies.get(RigidBodyHandle::from_raw_parts(hb.0, hb.1)).is_some());
}

#[test]
fn despawning_twice_reports_no_such_entity() {
    let mut world = hecs::World::new();
    let mut physics = PhysicsWorld::new();
    let e = spawn_with_physics(&mut world, &mut physics, ball(), None);
    assert_eq!(despawn_with_physics(&mut world, &mut physics, e), Ok(()));
    assert_eq!(despawn_with_physics(&mut world, &mut physics, e), Err(DespawnError::NoSuchEntity));
    assert_eq!(physics.colliders.len(), 0);
}

#[test]
fn explosion_pairs_try_both_orders() {
    let boom = Intersecting { entity: EntityId { bits: 1 }, explodes: true, physical: false };
    let body = Intersecting { entity: EntityId { bits: 2 }, explodes: false, physical: true };
    let wall = Intersecting { entity: EntityId { bits: 3 }, explodes: false, physical: false };
    assert_eq!(explosion_pair(boom, body), Some((EntityId { bits: 1 }, EntityId { bits: 2 })));
    assert_eq!(explosion_pair(body, boom), Some((EntityId { bits: 1 }, EntityId { bits: 2 })));
    assert_eq!(explosion_pair(boom, wall), None);
    assert_eq!(explosion_pair(body, body), None);
}

#[test]
fn starburst_effect_needs_a_living_caster() {
    let mut world = hecs::World::new();
    let mut physics = PhysicsWorld::new();
    let caster = spawn_with_physics(&mut world, &mut physics, ball(), Some(RigidBodyBuilder::new_dynamic().build()));
    let c = world.get::<HasCollider>(entity(caster)).unwrap().0;
    let dir = Heading::Toward { dx: 1, dy: 0 };
    let spell = RenderedSpell { kind: RenderedSpellKind::Starburst { direction: dir }, context: SpellContext { caster } };
    assert!(matches!(spell.effect(&world), SpellEffect::Launch { from, .. } if from == c));
    despawn_with_physics(&mut world, &mut physics, caster).unwrap();
    assert!(matches!(spell.effect(&world), SpellEffect::Nothing));
    let light = RenderedSpell { kind: RenderedSpellKind::Light { pos: Point { x: 1, y: 2 } }, context: SpellContext { caster } };
    assert!(matches!(light.effect(&world), SpellEffect::Glow { pos: Point { x: 1, y: 2 } }));
    let shield = RenderedSpell { kind: RenderedSpellKind::Shield { pos: Point { x: 1, y: 2 } }, context: SpellContext { caster } };
    assert!(matches!(shield.effect(&world), SpellEffect::Nothing));
}

#[test]
fn spawned_objects_carry_the_entity_tag_in_a_new_world() {
    let mut world = caverune::physics::new_world();
    let mut physics = PhysicsWorld::new();
    let e = spawn_with_physics(&mut world, &mut physics, ball(), None);
    let c = world.get::<HasCollider>(entity(e)).unwrap().0;
    let coll = physics.colliders.get(ColliderHandle::from_raw_parts(c.0, c.1)).unwrap();
    assert_eq!(coll.user_data, e.bits as u128);
    assert_eq!(coll.parent(), None);
}
