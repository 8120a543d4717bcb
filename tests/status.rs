use caverune::damage::{DamagePacket, DamageSensitivities, DamageSource, Damageable, HpStyle};
use caverune::dazing::{DazeStep, Dazeable};
use caverune::physics::{spawn_with_physics, PhysicsWorld};
use caverune::casting::{CastInput, CastResult, ScreenPos};
use caverune::systems::{despawn_all_but_players, get_player, system_cleanup_dead, system_cleanup_limited_timers, Player};
use caverune::world::{EntityId, WorldView};
use caverune::timers::{LimitedTimeOffer, Shrine};
use rapier2d::prelude::{ColliderBuilder, RigidBodyBuilder};

const NEUTRAL: DamageSensitivities = DamageSensitivities { projectile: 1000, explosive: 1000 };

fn hit(amount: u64) -> DamagePacket {
    DamagePacket { source: DamageSource::Projectile, amount }
}

#[test]
fn pool_damage_stops_at_zero_and_dies_once() {
    let mut d = Damageable::pool(10, NEUTRAL);
    d.take_damage(hit(4));
    assert_eq!(d.hp, HpStyle::Pool { hp: 6, max_hp: 10 });
    assert!(!d.is_dead());
    d.take_damage(hit(6));
    assert_eq!(d.hp, HpStyle::Pool { hp: 0, max_hp: 10 });
    assert!(d.is_dead());
    d.take_damage(hit(u64::MAX));
    assert_eq!(d.hp, HpStyle::Pool { hp: 0, max_hp: 10 });
    assert!(d.is_dead());
}

#[test]
fn one_shot_needs_the_whole_threshold() {
    let mut d = Damageable::one_shot(50, NEUTRAL);
    d.take_damage(hit(49));
    d.take_damage(hit(49));
    assert!(!d.is_dead());
    d.take_damage(hit(50));
    assert!(d.is_dead());
}

#[test]
fn sensitivity_scales_by_source() {
    let sens = DamageSensitivities { projectile: 1500, explosive: 250 };
    let mut d = Damageable::pool(100, sens);
    d.take_damage(hit(10));
    assert_eq!(d.hp, HpStyle::Pool { hp: 85, max_hp: 100 });
    d.take_damage(DamagePacket { source: DamageSource::Explosive, amount: 7 });
    assert_eq!(d.hp, HpStyle::Pool { hp: 84, max_hp: 100 });
    let mut huge = Damageable::one_shot(u64::MAX, DamageSensitivities { projectile: u64::MAX, explosive: 0 });
    huge.take_damage(hit(u64::MAX));
    assert!(huge.is_dead());
}

#[test]
fn daze_restores_the_exact_original_damping() {
    let original = 20.0f32.to_bits();
    let mut z = Dazeable::new();
    assert_eq!(z.time_left(), None);
    assert_eq!(z.tick(1000), DazeStep::Undazed);
    z.add_time_with(10_000, original);
    z.add_time_with(5_000, 3.5f32.to_bits());
    assert_eq!(z.time_left(), Some(15_000));
    assert_eq!(z.tick(10_000), DazeStep::Damp { original, time_left: 15_000 });
    assert_eq!(z.tick(5_000), DazeStep::Damp { original, time_left: 5_000 });
    assert_eq!(z.time_left(), Some(0));
    assert_eq!(z.tick(1), DazeStep::Restore { original });
    assert_eq!(f32::from_bits(original), 20.0f32);
    assert_eq!(z.time_left(), None);
}

#[test]
fn daze_reads_the_damping_of_the_entity_body() {
    let mut world = hecs::World::new();
    let mut physics = PhysicsWorld::new();
    let body = RigidBodyBuilder::new_dynamic().linear_damping(20.0).build();
    let e = spawn_with_physics(&mut world, &mut physics, ColliderBuilder::ball(0.5).build(), Some(body));
    let mut z = Dazeable::new();
    z.add_time(e, 1_000, &world, &physics);
    assert_eq!(z.tick(2_000), DazeStep::Restore { original: 20.0f32.to_bits() });
}

#[test]
fn timers_count_down_and_expire_below_zero() {
    let mut t = LimitedTimeOffer::new(100);
    assert!(!t.tick(100));
    assert_eq!(t.time_left(), 0);
    assert!(t.tick(1));
    *t.time_left_mut() = 5;
    assert_eq!(t.time_left(), 5);
    let mut low = LimitedTimeOffer::new(i64::MIN + 1);
    assert!(low.tick(10));
    assert_eq!(low.time_left(), i64::MIN);
    assert_eq!(Shrine::new(4).level, 4);
}

#[test]
fn cleanup_systems_despawn_dead_and_expired() {
    let mut world = hecs::World::new();
    let mut physics = PhysicsWorld::new();
    let ball = || ColliderBuilder::ball(0.5).build();
    let dead = spawn_with_physics(&mut world, &mut physics, ball(), Some(RigidBodyBuilder::new_dynamic().build()));
    let mut d = Damageable::pool(1, NEUTRAL);
    d.take_damage(hit(1));
    world.insert_one(hecs::Entity::from_bits(dead.bits), d).unwrap();
    let alive = spawn_with_physics(&mut world, &mut physics, ball(), None);
    world.insert_one(hecs::Entity::from_bits(alive.bits), Damageable::pool(5, NEUTRAL)).unwrap();
    let timed = spawn_with_physics(&mut world, &mut physics, ball(), None);
    world.insert_one(hecs::Entity::from_bits(timed.bits), LimitedTimeOffer::new(10)).unwrap();
    let player = spawn_with_physics(&mut world, &mut physics, ball(), None);
    world.insert_one(hecs::Entity::from_bits(player.bits), Player::new()).unwrap();

    system_cleanup_dead(&mut world, &mut physics);
    assert!(!world.contains(hecs::Entity::from_bits(dead.bits)));
    assert!(world.contains(hecs::Entity::from_bits(alive.bits)));
    assert_eq!(physics.rigid_bodies.len(), 0);
    assert_eq!(physics.colliders.len(), 3);

    system_cleanup_limited_timers(&mut world, &mut physics, 10);
    assert!(world.contains(hecs::Entity::from_bits(timed.bits)));
    system_cleanup_limited_timers(&mut world, &mut physics, 1);
    assert!(!world.contains(hecs::Entity::from_bits(timed.bits)));
    assert_eq!(physics.colliders.len(), 2);
    assert_eq!(get_player(&world), Some(player));
}

#[test]
fn timer_cleanup_counts_survivors_down() {
    let mut world = caverune::physics::new_world();
    let mut physics = PhysicsWorld::new();
    let t = spawn_with_physics(&mut world, &mut physics, ColliderBuilder::ball(0.5).build(), None);
    world.insert_one(hecs::Entity::from_bits(t.bits), LimitedTimeOffer::new(1_000)).unwrap();
    system_cleanup_limited_timers(&mut world, &mut physics, 300);
    assert_eq!(world.get::<LimitedTimeOffer>(hecs::Entity::from_bits(t.bits)).unwrap().time_left(), 700);
}

#[test]
fn regeneration_keeps_only_players() {
    let mut world = caverune::physics::new_world();
    let mut physics = PhysicsWorld::new();
    let ball = || ColliderBuilder::ball(0.5).build();
    let player = spawn_with_physics(&mut world, &mut physics, ball(), Some(RigidBodyBuilder::new_dynamic().build()));
    world.insert_one(hecs::Entity::from_bits(player.bits), Player::new()).unwrap();
    let wall = spawn_with_physics(&mut world, &mut physics, ball(), Some(RigidBodyBuilder::new_static().build()));
    let light = spawn_with_physics(&mut world, &mut physics, ball(), None);
    despawn_all_but_players(&mut world, &mut physics);
    assert!(world.contains(hecs::Entity::from_bits(player.bits)));
    assert!(!world.contains(hecs::Entity::from_bits(wall.bits)));
    assert!(!world.contains(hecs::Entity::from_bits(light.bits)));
    assert_eq!(physics.rigid_bodies.len(), 1);
    assert_eq!(physics.colliders.len(), 1);
}

#[test]
fn player_cast_starts_on_click_and_ends_on_mistake() {
    let view = WorldView { colliders: vec![], shrines: vec![] };
    let me = EntityId { bits: 4 };
    let mut p = Player::new();
    let idle = CastInput { pressed: false, clicked_down: false, mouse: ScreenPos { x: 0, y: 0 } };
    assert!(matches!(p.handle_cast(me, idle, &view), CastResult::NotDone));
    assert!(p.wip_spell.is_none());
    let click = CastInput { pressed: true, clicked_down: true, mouse: ScreenPos { x: 0, y: 0 } };
    assert!(matches!(p.handle_cast(me, click, &view), CastResult::NotDone));
    assert_eq!(p.wip_spell.as_ref().unwrap().context.caster, me);
    // One line to the right and a turn: a pattern that means nothing.
    let held = |x, y| CastInput { pressed: true, clicked_down: false, mouse: ScreenPos { x, y } };
    p.handle_cast(me, held(500, 0), &view);
    p.handle_cast(me, held(750, 433), &view);
    let release = CastInput { pressed: false, clicked_down: false, mouse: ScreenPos { x: 750, y: 433 } };
    assert!(matches!(p.handle_cast(me, release, &view), CastResult::Mistake));
    assert!(p.wip_spell.is_none());
}
