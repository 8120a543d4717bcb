//! Values of the spell stack, the catalog of stack functions, and spell rendering.

use vstd::prelude::*;
use crate::physics::{collider_components, get_collider_component, ColliderKey};
use crate::world::{EntityId, Point, WorldView, position_of, nearest_of, dist2};

verus! {

/// Squared distance, in thousandths squared, under which two positions count as
/// the same point (a ten-thousandth of a square unit).
pub const SAME_POINT_DIST2: i64 = 100;

/// A direction value.
#[derive(Clone, Copy, Debug)]
pub enum Heading {
    /// Drawn with a pattern: the pattern's first direction, refined by an offset of
    /// `refinement / (3 * 6^20)` radians (see `pattern::REFINEMENT_UNIT`).
    Drawn { base: hex2d::Direction, refinement: i64 },
    /// Pointing along the vector `(dx, dy)`, in thousandths of a unit.
    Toward { dx: i64, dy: i64 },
}

/// Context in which a spell is cast.
#[derive(Clone, Copy, Debug)]
pub struct SpellContext {
    /// Entity casting this spell
    pub caster: EntityId,
}

/// The spells that a function can render.
#[derive(Clone, Copy, Debug, PartialEq, Eq, Structural)]
pub enum SpellPrototype {
    Starburst,
    Shield,
    Light,
    Wayfinder,
}

/// A spell with its arguments filled in.
#[derive(Clone, Copy, Debug)]
pub enum RenderedSpellKind {
    /// A small projectile shot from the caster in the given direction.
    Starburst { direction: Heading },
    /// A shield around the given point.
    Shield { pos: Point },
    /// A light at the given point.
    Light { pos: Point },
    /// A short particle effect at a point, pointing in a direction.
    Wayfinder { pos: Point, towards: Heading },
}

/// A spell with all its data filled in, and the context it was cast in.
#[derive(Clone, Copy, Debug)]
pub struct RenderedSpell {
    pub kind: RenderedSpellKind,
    pub context: SpellContext,
}

/// Stack operations.
#[derive(Clone, Copy, Debug, PartialEq, Eq, Structural)]
pub enum Function {
    /// Get the caster
    GetCaster,
    /// Get the position of the given entity (the center of its collider)
    GetPosition,
    /// If the first argument is null, return the second, otherwise the first
    CheckNull,
    /// The direction from the first position to the second
    GetDeltaDirection,
    /// The shrine closest to the caster
    FindShrine,
    /// Duplicate the top of the stack
    Duplicate,
    /// Swap the top two elements of the stack
    Swap,
    /// The functions that are spells
    Spell(SpellPrototype),
}

/// A value on the spell stack.
#[derive(Clone, Copy, Debug)]
pub enum SpellData {
    Direction(Heading),
    Position(Point),
    Entity(EntityId),
    Function(Function),
    RenderedSpell(RenderedSpell),
    /// Sentinel for "no result"
    Null,
    /// A pattern that means nothing
    Junk,
}

impl SpellPrototype {
    pub open spec fn arity(self) -> nat {
        match self {
            SpellPrototype::Starburst => 1,
            SpellPrototype::Shield => 1,
            SpellPrototype::Light => 1,
            SpellPrototype::Wayfinder => 2,
        }
    }

    /// Number of arguments the spell takes.
    pub fn argc(&self) -> (r: usize)
        ensures
            r == self.arity(),
    {
        match self {
            SpellPrototype::Starburst => 1,
            SpellPrototype::Shield => 1,
            SpellPrototype::Light => 1,
            SpellPrototype::Wayfinder => 2,
        }
    }

    /// Render this prototype with the given arguments and context.
    pub fn try_render(proto: SpellPrototype, stack: Vec<SpellData>, ctx: SpellContext) -> (r: Option<RenderedSpell>)
        ensures
            r == (match render_spec(proto, stack@) {
                Some(kind) => Some(RenderedSpell { kind, context: ctx }),
                None => None,
            }),
    {
        match RenderedSpellKind::try_render(proto, stack) {
            Some(kind) => Some(RenderedSpell { kind, context: ctx }),
            None => None,
        }
    }
}

/// The spell that `proto` renders from `args`, if they have the right count and shapes.
pub open spec fn render_spec(proto: SpellPrototype, args: Seq<SpellData>) -> Option<RenderedSpellKind> {
    match proto {
        SpellPrototype::Starburst => if args.len() == 1 {
            match args[0] {
                SpellData::Direction(direction) => Some(RenderedSpellKind::Starburst { direction }),
                _ => None,
            }
        } else {
            None
        },
        SpellPrototype::Shield => if args.len() == 1 {
            match args[0] {
                SpellData::Position(pos) => Some(RenderedSpellKind::Shield { pos }),
                _ => None,
            }
        } else {
            None
        },
        SpellPrototype::Light => if args.len() == 1 {
            match args[0] {
                SpellData::Position(pos) => Some(RenderedSpellKind::Light { pos }),
                _ => None,
            }
        } else {
            None
        },
        SpellPrototype::Wayfinder => if args.len() == 2 {
            match (args[0], args[1]) {
                (SpellData::Position(pos), SpellData::Direction(towards)) => Some(
                    RenderedSpellKind::Wayfinder { pos, towards },
                ),
                _ => None,
            }
        } else {
            None
        },
    }
}

impl RenderedSpellKind {
    /// Given an argument list, try to build the rendered spell of `proto`.
    pub fn try_render(proto: SpellPrototype, data: Vec<SpellData>) -> (r: Option<RenderedSpellKind>)
        ensures
            r == render_spec(proto, data@),
    {
        match proto {
            SpellPrototype::Starburst => {
                if data.len() != 1 {
                    return None;
                }
                match data[0] {
                    SpellData::Direction(direction) => Some(RenderedSpellKind::Starburst { direction }),
                    _ => None,
                }
            },
            SpellPrototype::Shield => {
                if data.len() != 1 {
                    return None;
                }
                match data[0] {
                    SpellData::Position(pos) => Some(RenderedSpellKind::Shield { pos }),
                    _ => None,
                }
            },
            SpellPrototype::Light => {
                if data.len() != 1 {
                    return None;
                }
                match data[0] {
                    SpellData::Position(pos) => Some(RenderedSpellKind::Light { pos }),
                    _ => None,
                }
            },
            SpellPrototype::Wayfinder => {
                if data.len() != 2 {
                    return None;
                }
                match (data[0], data[1]) {
                    (SpellData::Position(pos), SpellData::Direction(towards)) => Some(
                        RenderedSpellKind::Wayfinder { pos, towards },
                    ),
                    _ => None,
                }
            },
        }
    }
}

/// The direction from `a` to `b`, or null where the two are the same point.
pub open spec fn delta_direction(a: Point, b: Point) -> SpellData {
    if dist2(a, b) < SAME_POINT_DIST2 {
        SpellData::Null
    } else {
        SpellData::Direction(Heading::Toward { dx: (b.x - a.x) as i64, dy: (b.y - a.y) as i64 })
    }
}

/// What `f` leaves on the stack in place of its arguments `args`, or `None` where it fails.
pub open spec fn execute_spec(f: Function, args: Seq<SpellData>, ctx: SpellContext, world: WorldView) -> Option<Seq<SpellData>> {
    match f {
        Function::GetCaster => Some(seq![SpellData::Entity(ctx.caster)]),
        Function::GetPosition => match args[0] {
            SpellData::Entity(target) => match position_of(world.colliders@, target) {
                Some(p) => Some(seq![SpellData::Position(p)]),
                None => None,
            },
            _ => None,
        },
        Function::CheckNull => match args[0] {
            SpellData::Null => Some(seq![args[1]]),
            _ => Some(seq![args[0]]),
        },
        Function::GetDeltaDirection => match (args[0], args[1]) {
            (SpellData::Position(a), SpellData::Position(b)) => Some(seq![delta_direction(a, b)]),
            _ => None,
        },
        Function::FindShrine => match position_of(world.colliders@, ctx.caster) {
            Some(from) => match nearest_of(world.shrines@, from) {
                Some(s) => Some(seq![SpellData::Entity(s)]),
                None => Some(seq![SpellData::Null]),
            },
            None => None,
        },
        Function::Duplicate => Some(seq![args[0], args[0]]),
        Function::Swap => Some(seq![args[1], args[0]]),
        Function::Spell(proto) => match render_spec(proto, args) {
            Some(kind) => Some(seq![SpellData::RenderedSpell(RenderedSpell { kind, context: ctx })]),
            None => None,
        },
    }
}

impl Function {
    pub open spec fn arity(self) -> nat {
        match self {
            Function::GetCaster => 0,
            Function::GetPosition => 1,
            Function::CheckNull => 2,
            Function::GetDeltaDirection => 2,
            Function::FindShrine => 0,
            Function::Duplicate => 1,
            Function::Swap => 2,
            Function::Spell(spell) => spell.arity(),
        }
    }

    /// Number of arguments this function takes off the stack.
    pub fn argc(&self) -> (r: usize)
        ensures
            r == self.arity(),
    {
        match self {
            Function::GetCaster => 0,
            Function::GetPosition => 1,
            Function::CheckNull => 2,
            Function::GetDeltaDirection => 2,
            Function::FindShrine => 0,
            Function::Duplicate => 1,
            Function::Swap => 2,
            Function::Spell(spell) => spell.argc(),
        }
    }

    /// Run this function on its arguments, the top `argc` values of the stack in
    /// stack order. `Some` holds what replaces them; `None` is a failed cast.
    pub fn try_execute(self, stack: Vec<SpellData>, ctx: &SpellContext, world: &WorldView) -> (r: Option<Vec<SpellData>>)
        requires
            stack@.len() == self.arity(),
        ensures
            r is Some <==> execute_spec(self, stack@, *ctx, *world) is Some,
            r is Some ==> r->0@ == execute_spec(self, stack@, *ctx, *world)->0,
    {
        match self {
            Function::GetCaster => Some(vec![SpellData::Entity(ctx.caster)]),
            Function::GetPosition => {
                match stack[0] {
                    SpellData::Entity(target) => match world.position(target) {
                        Some(p) => Some(vec![SpellData::Position(p)]),
                        None => None,
                    },
                    _ => None,
                }
            },
            Function::CheckNull => {
                match stack[0] {
                    SpellData::Null => Some(vec![stack[1]]),
                    _ => Some(vec![stack[0]]),
                }
            },
            Function::GetDeltaDirection => {
                match (stack[0], stack[1]) {
                    (SpellData::Position(a), SpellData::Position(b)) => {
                        let dx: i64 = b.x as i64 - a.x as i64;
                        let dy: i64 = b.y as i64 - a.y as i64;
                        assert(dx * dx <= 0x1_0000_0000i64 * 0x1_0000_0000i64) by (nonlinear_arith)
                            requires -0x1_0000_0000i64 <= dx <= 0x1_0000_0000i64;
                        assert(dy * dy <= 0x1_0000_0000i64 * 0x1_0000_0000i64) by (nonlinear_arith)
                            requires -0x1_0000_0000i64 <= dy <= 0x1_0000_0000i64;
                        assert(dx * dx >= 0 && dy * dy >= 0) by (nonlinear_arith);
                        let d2: i128 = (dx as i128) * (dx as i128) + (dy as i128) * (dy as i128);
                        assert(d2 == dist2(a, b)) by (nonlinear_arith)
                            requires
                                dx == b.x - a.x,
                                dy == b.y - a.y,
                                d2 == dx * dx + dy * dy;
                        if d2 < SAME_POINT_DIST2 as i128 {
                            Some(vec![SpellData::Null])
                        } else {
                            Some(vec![SpellData::Direction(Heading::Toward { dx, dy })])
                        }
                    },
                    _ => None,
                }
            },
            Function::FindShrine => {
                match world.position(ctx.caster) {
                    Some(from) => match world.nearest_shrine(from) {
                        Some(s) => Some(vec![SpellData::Entity(s)]),
                        None => Some(vec![SpellData::Null]),
                    },
                    None => None,
                }
            },
            Function::Duplicate => {
                let it = stack[0];
                Some(vec![it, it])
            },
            Function::Swap => Some(vec![stack[1], stack[0]]),
            Function::Spell(proto) => {
                match SpellPrototype::try_render(proto, stack, *ctx) {
                    Some(it) => Some(vec![SpellData::RenderedSpell(it)]),
                    None => None,
                }
            },
        }
    }
}

impl SpellData {
    /// The rendered spell inside, where this is one.
    pub fn into_rendered_spell(self) -> (r: Option<RenderedSpell>)
        ensures
            r == (match self {
                SpellData::RenderedSpell(s) => Some(s),
                _ => None,
            }),
    {
        match self {
            SpellData::RenderedSpell(s) => Some(s),
            _ => None,
        }
    }
}

/// What committing a rendered spell puts into the world.
#[derive(Clone, Copy, Debug)]
pub enum SpellEffect {
    /// A projectile launched from outside the caster's collider, along `direction`.
    Launch { from: ColliderKey, direction: Heading },
    /// A light at a point.
    Glow { pos: Point },
    /// A short pointer at a point, along a direction.
    Pointer { pos: Point, towards: Heading },
    /// Nothing: the spell does nothing yet, or what it needs is gone.
    Nothing,
}

impl RenderedSpell {
    /// What this spell does when committed to `world`. Entities named in the spell
    /// may be gone by now: a starburst whose caster has no collider any more does
    /// nothing.
    pub fn effect(&self, world: &hecs::World) -> (r: SpellEffect)
        ensures
            r == (match self.kind {
                RenderedSpellKind::Starburst { direction } => if collider_components(*world).contains_key(
                    self.context.caster.bits,
                ) {
                    SpellEffect::Launch { from: collider_components(*world)[self.context.caster.bits], direction }
                } else {
                    SpellEffect::Nothing
                },
                RenderedSpellKind::Shield { .. } => SpellEffect::Nothing,
                RenderedSpellKind::Light { pos } => SpellEffect::Glow { pos },
                RenderedSpellKind::Wayfinder { pos, towards } => SpellEffect::Pointer { pos, towards },
            }),
    {
        match self.kind {
            RenderedSpellKind::Starburst { direction } => match get_collider_component(world, self.context.caster) {
                Some(from) => SpellEffect::Launch { from, direction },
                None => SpellEffect::Nothing,
            },
            RenderedSpellKind::Shield { .. } => SpellEffect::Nothing,
            RenderedSpellKind::Light { pos } => SpellEffect::Glow { pos },
            RenderedSpellKind::Wayfinder { pos, towards } => SpellEffect::Pointer { pos, towards },
        }
    }
}

} // verus!
