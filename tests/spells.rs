use caverune::casting::{quantize, CastInput, CastResult, PatternDrawState, ScreenPos, SpellCaster};
use caverune::pattern::{refinement_of, RawPattern, FIRST_REFINEMENT_WEIGHT, REFINEMENT_UNIT};
use caverune::spells::{Function, Heading, RenderedSpellKind, SpellContext, SpellData, SpellPrototype};
use caverune::world::{EntityId, Located, Point, WorldView};
use hex2d::Angle::{Back, Forward, Left, LeftBack, Right, RightBack};
use hex2d::{Angle, Direction};

fn empty_view() -> WorldView {
    WorldView { colliders: Vec::new(), shrines: Vec::new() }
}

fn held(x: i32, y: i32) -> CastInput {
    CastInput { pressed: true, clicked_down: false, mouse: ScreenPos { x, y } }
}

fn released(x: i32, y: i32) -> CastInput {
    CastInput { pressed: false, clicked_down: false, mouse: ScreenPos { x, y } }
}

fn click(x: i32, y: i32) -> CastInput {
    CastInput { pressed: true, clicked_down: true, mouse: ScreenPos { x, y } }
}

/// Drive the caster through a path of pointer positions while held, then release.
fn drag(caster: &mut SpellCaster, view: &WorldView, path: &[(i32, i32)]) -> CastResult {
    for &(x, y) in path {
        assert!(matches!(caster.update(held(x, y), view), CastResult::NotDone));
    }
    let &(x, y) = path.last().unwrap();
    caster.update(released(x, y), view)
}

fn wip_len(caster: &SpellCaster) -> Option<usize> {
    match caster.state() {
        PatternDrawState::Drawing { wip_pattern: Some((p, _)), .. } => Some(p.deltas.len()),
        _ => None,
    }
}

fn origin(caster: &SpellCaster) -> Option<ScreenPos> {
    match caster.state() {
        PatternDrawState::Drawing { mouse_origin, .. } => Some(*mouse_origin),
        _ => None,
    }
}

#[test]
fn scripted_direction_then_starburst_casts_starburst() {
    let view = empty_view();
    let me = EntityId { bits: 7 };
    let mut caster = SpellCaster::new(me, ScreenPos { x: 0, y: 0 });
    // Right, right, right, then down-right: [Forward, Forward, Right].
    let r = drag(&mut caster, &view, &[(500, 0), (1000, 0), (1500, 0), (1750, 433)]);
    assert!(matches!(r, CastResult::NotDone));
    assert_eq!(caster.stack.len(), 1);
    // A new click starts the starburst: right, right, up-left, down-left, down-left.
    assert!(matches!(caster.update(click(0, 0), &view), CastResult::NotDone));
    let r = drag(&mut caster, &view, &[(500, 0), (1000, 0), (750, -433), (500, 0), (250, 433)]);
    match r {
        CastResult::Success(spell) => {
            assert_eq!(spell.context.caster, me);
            match spell.kind {
                RenderedSpellKind::Starburst { direction: Heading::Drawn { base, refinement } } => {
                    assert_eq!(base, Direction::XY);
                    assert_eq!(refinement, FIRST_REFINEMENT_WEIGHT);
                    // The first direction points along +x (zero radians); one clockwise
                    // refining turn adds a third of a radian at a weight of one sixth.
                    let radians = refinement as f64 / REFINEMENT_UNIT as f64;
                    let expected = (1.0f64 / 3.0) * (1.0 / 6.0);
                    assert!((radians - expected).abs() < 1e-9);
                }
                other => panic!("wrong spell {:?}", other),
            }
        }
        other => panic!("expected success, got {:?}", other),
    }
    assert_eq!(caster.patterns().len(), 2);
}

#[test]
fn backtrack_sample_leaves_pattern_and_origin() {
    let view = empty_view();
    let mut caster = SpellCaster::new(EntityId { bits: 1 }, ScreenPos { x: 0, y: 0 });
    caster.update(held(500, 0), &view);
    caster.update(held(1000, 0), &view);
    assert_eq!(wip_len(&caster), Some(1));
    assert_eq!(origin(&caster), Some(ScreenPos { x: 1000, y: 0 }));
    // Straight back to the left: rejected.
    assert!(matches!(caster.update(held(500, 0), &view), CastResult::NotDone));
    assert_eq!(wip_len(&caster), Some(1));
    assert_eq!(origin(&caster), Some(ScreenPos { x: 1000, y: 0 }));
    // A short move draws nothing either.
    caster.update(held(1100, 100), &view);
    assert_eq!(wip_len(&caster), Some(1));
    assert_eq!(origin(&caster), Some(ScreenPos { x: 1000, y: 0 }));
}

#[test]
fn click_without_drag_feeds_nothing() {
    let view = empty_view();
    let mut caster = SpellCaster::new(EntityId { bits: 1 }, ScreenPos { x: 0, y: 0 });
    assert!(matches!(caster.update(released(0, 0), &view), CastResult::NotDone));
    assert!(matches!(caster.state(), PatternDrawState::Waiting));
    assert!(caster.patterns().is_empty());
    assert!(caster.stack.is_empty());
}

#[test]
fn junk_pattern_is_a_mistake() {
    let view = empty_view();
    let mut caster = SpellCaster::new(EntityId { bits: 1 }, ScreenPos { x: 0, y: 0 });
    // Right then down-right: [Right] means nothing.
    let r = drag(&mut caster, &view, &[(500, 0), (750, 433)]);
    assert!(matches!(r, CastResult::Mistake));
}

fn pattern(deltas: Vec<Angle>) -> RawPattern {
    RawPattern { first_direction: Direction::YZ, deltas }
}

#[test]
fn classification_of_fixed_shapes() {
    assert!(matches!(pattern(vec![Left, LeftBack, Left]).to_data(), SpellData::Function(Function::GetCaster)));
    assert!(matches!(pattern(vec![Right, RightBack, Right]).to_data(), SpellData::Function(Function::GetCaster)));
    assert!(matches!(pattern(vec![LeftBack, LeftBack]).to_data(), SpellData::Function(Function::GetPosition)));
    assert!(matches!(pattern(vec![RightBack, RightBack]).to_data(), SpellData::Function(Function::GetPosition)));
    assert!(matches!(
        pattern(vec![Forward, LeftBack, LeftBack, Forward]).to_data(),
        SpellData::Function(Function::Spell(SpellPrototype::Starburst))
    ));
    assert!(matches!(
        pattern(vec![Forward, Left, Forward, Left, Forward, Left, Forward, Left, Forward, Left, Forward]).to_data(),
        SpellData::Function(Function::Spell(SpellPrototype::Shield))
    ));
    assert!(matches!(pattern(vec![]).to_data(), SpellData::Junk));
    assert!(matches!(pattern(vec![Left, Left]).to_data(), SpellData::Junk));
}

#[test]
fn direction_refinement_weights_shrink_by_six() {
    let w = FIRST_REFINEMENT_WEIGHT;
    assert_eq!(refinement_of(&vec![]), 0);
    assert_eq!(refinement_of(&vec![RightBack]), 2 * w);
    assert_eq!(refinement_of(&vec![Left, Right]), -w + w / 6);
    assert_eq!(refinement_of(&vec![Back, LeftBack, Forward]), -2 * (w / 6));
    match pattern(vec![Forward, Forward, Right, Left]).to_data() {
        SpellData::Direction(Heading::Drawn { base, refinement }) => {
            assert_eq!(base, Direction::YZ);
            assert_eq!(refinement, w - w / 6);
        }
        other => panic!("{:?}", other),
    }
    // Past twenty refining turns the weight is gone.
    let long: Vec<Angle> = vec![RightBack; 30];
    let short: Vec<Angle> = vec![RightBack; 20];
    assert_eq!(refinement_of(&long), refinement_of(&short));
}

#[test]
fn too_few_arguments_is_a_mistake_for_every_function() {
    let view = empty_view();
    let needs_args: Vec<(Vec<Angle>, usize)> = vec![
        (vec![LeftBack, LeftBack], 1),
        (vec![Forward, LeftBack, LeftBack, Forward], 1),
        (vec![Forward, Left, Forward, Left, Forward, Left, Forward, Left, Forward, Left, Forward], 1),
    ];
    for (deltas, argc) in needs_args {
        let mut caster = SpellCaster::new(EntityId { bits: 1 }, ScreenPos { x: 0, y: 0 });
        assert!(caster.stack.len() < argc);
        let r = caster.add_pattern(pattern(deltas), &view);
        assert!(matches!(r, CastResult::Mistake));
        assert!(caster.stack.is_empty());
    }
    let all = [
        Function::GetCaster,
        Function::GetPosition,
        Function::CheckNull,
        Function::GetDeltaDirection,
        Function::FindShrine,
        Function::Duplicate,
        Function::Swap,
        Function::Spell(SpellPrototype::Starburst),
        Function::Spell(SpellPrototype::Shield),
        Function::Spell(SpellPrototype::Light),
        Function::Spell(SpellPrototype::Wayfinder),
    ];
    let argcs: Vec<usize> = all.iter().map(|f| f.argc()).collect();
    assert_eq!(argcs, vec![0, 1, 2, 2, 0, 1, 2, 1, 1, 1, 2]);
}

fn ctx() -> SpellContext {
    SpellContext { caster: EntityId { bits: 3 } }
}

#[test]
fn stack_functions_on_their_arguments() {
    let p = |x, y| SpellData::Position(Point { x, y });
    let view = WorldView {
        colliders: vec![
            Located { entity: EntityId { bits: 3 }, pos: Point { x: 0, y: 0 } },
            Located { entity: EntityId { bits: 9 }, pos: Point { x: 4000, y: -2000 } },
        ],
        shrines: vec![
            Located { entity: EntityId { bits: 20 }, pos: Point { x: 5000, y: 0 } },
            Located { entity: EntityId { bits: 21 }, pos: Point { x: 0, y: 3000 } },
            Located { entity: EntityId { bits: 22 }, pos: Point { x: -3000, y: 0 } },
        ],
    };
    let r = Function::GetCaster.try_execute(vec![], &ctx(), &view).unwrap();
    assert!(matches!(r[..], [SpellData::Entity(EntityId { bits: 3 })]));
    let r = Function::GetPosition.try_execute(vec![SpellData::Entity(EntityId { bits: 9 })], &ctx(), &view).unwrap();
    assert!(matches!(r[..], [SpellData::Position(Point { x: 4000, y: -2000 })]));
    assert!(Function::GetPosition.try_execute(vec![SpellData::Entity(EntityId { bits: 10 })], &ctx(), &view).is_none());
    assert!(Function::GetPosition.try_execute(vec![SpellData::Null], &ctx(), &view).is_none());
    let r = Function::CheckNull.try_execute(vec![SpellData::Null, p(1, 2)], &ctx(), &view).unwrap();
    assert!(matches!(r[..], [SpellData::Position(Point { x: 1, y: 2 })]));
    let r = Function::CheckNull.try_execute(vec![p(5, 6), SpellData::Null], &ctx(), &view).unwrap();
    assert!(matches!(r[..], [SpellData::Position(Point { x: 5, y: 6 })]));
    let r = Function::GetDeltaDirection.try_execute(vec![p(0, 0), p(3, 4)], &ctx(), &view).unwrap();
    assert!(matches!(r[..], [SpellData::Null]));
    let r = Function::GetDeltaDirection.try_execute(vec![p(0, 0), p(10, 0)], &ctx(), &view).unwrap();
    assert!(matches!(r[..], [SpellData::Direction(Heading::Toward { dx: 10, dy: 0 })]));
    assert!(Function::GetDeltaDirection.try_execute(vec![p(0, 0), SpellData::Null], &ctx(), &view).is_none());
    // Two shrines are three units away; the first listed wins.
    let r = Function::FindShrine.try_execute(vec![], &ctx(), &view).unwrap();
    assert!(matches!(r[..], [SpellData::Entity(EntityId { bits: 21 })]));
    let no_shrines = WorldView { colliders: view.colliders.clone(), shrines: vec![] };
    let r = Function::FindShrine.try_execute(vec![], &ctx(), &no_shrines).unwrap();
    assert!(matches!(r[..], [SpellData::Null]));
    assert!(Function::FindShrine.try_execute(vec![], &ctx(), &empty_view()).is_none());
    let r = Function::Duplicate.try_execute(vec![p(1, 1)], &ctx(), &view).unwrap();
    assert!(matches!(r[..], [SpellData::Position(Point { x: 1, y: 1 }), SpellData::Position(Point { x: 1, y: 1 })]));
    let r = Function::Swap.try_execute(vec![p(1, 1), SpellData::Null], &ctx(), &view).unwrap();
    assert!(matches!(r[..], [SpellData::Null, SpellData::Position(Point { x: 1, y: 1 })]));
}

#[test]
fn spells_render_only_from_the_right_shapes() {
    let dir = SpellData::Direction(Heading::Toward { dx: 1, dy: 0 });
    let pos = SpellData::Position(Point { x: 2, y: 3 });
    let r = Function::Spell(SpellPrototype::Wayfinder).try_execute(vec![pos, dir], &ctx(), &empty_view()).unwrap();
    match r[..] {
        [SpellData::RenderedSpell(s)] => {
            assert!(matches!(s.kind, RenderedSpellKind::Wayfinder { pos: Point { x: 2, y: 3 }, towards: Heading::Toward { dx: 1, dy: 0 } }));
            assert_eq!(s.context.caster, EntityId { bits: 3 });
        }
        _ => panic!(),
    }
    assert!(Function::Spell(SpellPrototype::Wayfinder).try_execute(vec![dir, pos], &ctx(), &empty_view()).is_none());
    assert!(Function::Spell(SpellPrototype::Starburst).try_execute(vec![pos], &ctx(), &empty_view()).is_none());
    assert!(matches!(
        RenderedSpellKind::try_render(SpellPrototype::Light, vec![pos]),
        Some(RenderedSpellKind::Light { pos: Point { x: 2, y: 3 } })
    ));
    assert!(matches!(
        RenderedSpellKind::try_render(SpellPrototype::Shield, vec![pos]),
        Some(RenderedSpellKind::Shield { pos: Point { x: 2, y: 3 } })
    ));
    assert!(RenderedSpellKind::try_render(SpellPrototype::Shield, vec![pos, pos]).is_none());
}

#[test]
fn stack_grows_and_completes_with_one_rendered_spell() {
    let view = WorldView {
        colliders: vec![Located { entity: EntityId { bits: 3 }, pos: Point { x: 100, y: 200 } }],
        shrines: vec![],
    };
    let mut caster = SpellCaster::new(EntityId { bits: 3 }, ScreenPos { x: 0, y: 0 });
    // get caster, get its position, then shield.
    assert!(matches!(caster.add_pattern(pattern(vec![Left, LeftBack, Left]), &view), CastResult::NotDone));
    assert!(matches!(caster.add_pattern(pattern(vec![LeftBack, LeftBack]), &view), CastResult::NotDone));
    assert!(matches!(caster.stack[..], [SpellData::Position(Point { x: 100, y: 200 })]));
    let r = caster.add_pattern(
        pattern(vec![Forward, Left, Forward, Left, Forward, Left, Forward, Left, Forward, Left, Forward]),
        &view,
    );
    match r {
        CastResult::Success(s) => assert!(matches!(s.kind, RenderedSpellKind::Shield { pos: Point { x: 100, y: 200 } })),
        other => panic!("{:?}", other),
    }
    assert_eq!(caster.patterns().len(), 3);
}

#[test]
fn quantized_sectors_follow_the_hex_directions() {
    assert_eq!(quantize(10, 0), Direction::XY);
    assert_eq!(quantize(10, 10), Direction::ZY);
    assert_eq!(quantize(0, 10), Direction::ZX);
    assert_eq!(quantize(-10, 1), Direction::YX);
    assert_eq!(quantize(-10, -10), Direction::YZ);
    assert_eq!(quantize(0, -10), Direction::XZ);
    // The sector edge at 30 degrees belongs to the lower sector: 3*dy^2 == dx^2.
    assert_eq!(quantize(3, 0), Direction::XY);
    assert_eq!(quantize(30, 17), Direction::XY);
    assert_eq!(quantize(30, 18), Direction::ZY);
}
