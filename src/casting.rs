//! The casting state machine: pointer drags become patterns, and patterns feed
//! the spell stack until a spell is complete or a mistake ends the cast.

use vstd::prelude::*;
use crate::hex::{angle_of, dir_index, dir_of, direction_from_int, turn_between};
use crate::pattern::{classify, refine_sum, RawPattern, FIRST_REFINEMENT_WEIGHT};
use crate::spells::{execute_spec, Function, Heading, RenderedSpell, RenderedSpellKind, SpellContext, SpellData};
use crate::world::{EntityId, WorldView};

verus! {

/// How far, in tenths of a pixel, the pointer must move from where the current line
/// started before a new line is drawn (nine tenths of a hex's width of 48 pixels).
pub const NEW_DRAW_TOLERANCE: i64 = 432;

/// Pointer position on the game canvas, in tenths of a pixel, y growing downwards.
#[derive(Clone, Copy, Debug, PartialEq, Eq, Structural)]
pub struct ScreenPos {
    pub x: i32,
    pub y: i32,
}

/// The casting control as sampled on one frame.
#[derive(Clone, Copy, Debug, PartialEq, Eq, Structural)]
pub struct CastInput {
    /// The cast button is held.
    pub pressed: bool,
    /// The cast button went down on this frame.
    pub clicked_down: bool,
    /// Where the pointer is.
    pub mouse: ScreenPos,
}

/// How we're drawing.
#[derive(Debug)]
pub enum PatternDrawState {
    /// Waiting for the button to start a new pattern
    Waiting,
    /// In the middle of drawing a pattern.
    Drawing {
        /// The pattern drawn so far with the absolute direction of its last line,
        /// or `None` if no line has been drawn yet.
        wip_pattern: Option<(RawPattern, hex2d::Direction)>,
        /// Where the pointer was when the current line started.
        mouse_origin: ScreenPos,
    },
}

/// How did casting our spell go?
#[derive(Clone, Copy, Debug)]
pub enum CastResult {
    /// Not finished yet
    NotDone,
    /// The cast is complete
    Success(RenderedSpell),
    /// Something went wrong: the cast ends
    Mistake,
}

/// The state of a cast in progress.
#[derive(Debug)]
pub struct SpellCaster {
    /// Patterns that have been drawn so far
    pub patterns: Vec<RawPattern>,
    /// The stack of data we're working on
    pub stack: Vec<SpellData>,
    /// Current spell context
    pub context: SpellContext,
    /// How we're drawing
    pub state: PatternDrawState,
}

/// The sixth of the circle that the drag `(dx, dy)` points into, numbered so that
/// sector 0 spans the angles from 30 up to 90 degrees below the positive x axis
/// (screen y grows downwards), and each next sector lies 60 degrees further on.
/// The sector edges sit where `3 * dy^2 == dx^2` or `dx == 0`.
pub open spec fn sector_of(dx: int, dy: int) -> int {
    if dy > 0 && dx > 0 && 3 * dy * dy >= dx * dx {
        0
    } else if dy > 0 && dx <= 0 && 3 * dy * dy > dx * dx {
        1
    } else if dx < 0 && (if dy >= 0 { 3 * dy * dy <= dx * dx } else { 3 * dy * dy < dx * dx }) {
        2
    } else if dy < 0 && dx < 0 && 3 * dy * dy >= dx * dx {
        3
    } else if dy < 0 && dx >= 0 && 3 * dy * dy > dx * dx {
        4
    } else {
        5
    }
}

/// The pointer moved far enough from `o` to draw a line.
pub open spec fn far_enough(o: ScreenPos, m: ScreenPos) -> bool {
    (m.x - o.x) * (m.x - o.x) + (m.y - o.y) * (m.y - o.y) >= NEW_DRAW_TOLERANCE * NEW_DRAW_TOLERANCE
}

/// The hex direction of a line drawn from `o` to `m`.
pub open spec fn drawn_direction(o: ScreenPos, m: ScreenPos) -> hex2d::Direction {
    dir_of(sector_of(m.x - o.x, m.y - o.y) + 3)
}

/// `s` is drawing a pattern with this first direction and these turns, whose last
/// line points along `last`, and whose current line started at `origin`.
pub open spec fn is_drawing(
    s: PatternDrawState,
    first: hex2d::Direction,
    deltas: Seq<hex2d::Angle>,
    last: hex2d::Direction,
    origin: ScreenPos,
) -> bool {
    match s {
        PatternDrawState::Drawing { wip_pattern: Some((p, l)), mouse_origin } => p.first_direction == first
            && p.deltas@ == deltas && l == last && mouse_origin == origin,
        _ => false,
    }
}

/// The stack after `data` is fed to it.
pub open spec fn stack_after(stack: Seq<SpellData>, data: SpellData, ctx: SpellContext, world: WorldView) -> Seq<SpellData> {
    match data {
        SpellData::Junk => stack,
        SpellData::Function(f) => if f.arity() > stack.len() {
            stack
        } else {
            let split = stack.len() - f.arity();
            match execute_spec(f, stack.subrange(split, stack.len() as int), ctx, world) {
                Some(res) => stack.subrange(0, split) + res,
                None => stack.subrange(0, split),
            }
        },
        _ => stack.push(data),
    }
}

/// Feeding `data` to `stack` is a mistake: junk, a function with too few arguments
/// on the stack, or a function that fails on its arguments.
pub open spec fn is_mistake(stack: Seq<SpellData>, data: SpellData, ctx: SpellContext, world: WorldView) -> bool {
    match data {
        SpellData::Junk => true,
        SpellData::Function(f) => f.arity() > stack.len() || execute_spec(
            f,
            stack.subrange(stack.len() - f.arity(), stack.len() as int),
            ctx,
            world,
        ) is None,
        _ => false,
    }
}

/// How the cast stands after `data` is fed to `stack`.
pub open spec fn outcome(stack: Seq<SpellData>, data: SpellData, ctx: SpellContext, world: WorldView) -> CastResult {
    if is_mistake(stack, data, ctx, world) {
        CastResult::Mistake
    } else {
        let s = stack_after(stack, data, ctx, world);
        if s.len() == 1 && s[0] is RenderedSpell {
            CastResult::Success(s[0]->RenderedSpell_0)
        } else {
            CastResult::NotDone
        }
    }
}

/// A function fed to a stack holding fewer values than it takes is a mistake, for
/// every function of the catalog, and leaves the stack as it was.
pub proof fn lemma_arity_enforced(stack: Seq<SpellData>, f: Function, ctx: SpellContext, world: WorldView)
    requires
        stack.len() < f.arity(),
    ensures
        outcome(stack, SpellData::Function(f), ctx, world) is Mistake,
        stack_after(stack, SpellData::Function(f), ctx, world) == stack,
{
}

/// On an empty stack, a direction pattern (two straight turns, then refining turns)
/// followed by the starburst pattern casts a starburst in the drawn direction.
pub proof fn lemma_direction_then_starburst(
    first: hex2d::Direction,
    tail: Seq<hex2d::Angle>,
    star_first: hex2d::Direction,
    ctx: SpellContext,
    world: WorldView,
)
    ensures
        ({
            let dir = classify(first, seq![hex2d::Angle::Forward, hex2d::Angle::Forward] + tail);
            let star = classify(
                star_first,
                seq![hex2d::Angle::Forward, hex2d::Angle::LeftBack, hex2d::Angle::LeftBack, hex2d::Angle::Forward],
            );
            let s1 = stack_after(Seq::empty(), dir, ctx, world);
            &&& outcome(Seq::empty(), dir, ctx, world) is NotDone
            &&& stack_after(s1, star, ctx, world).len() == 1
            &&& stack_after(s1, star, ctx, world)[0] is RenderedSpell
            &&& outcome(s1, star, ctx, world) == CastResult::Success(
                RenderedSpell {
                    kind: RenderedSpellKind::Starburst {
                        direction: Heading::Drawn {
                            base: first,
                            refinement: refine_sum(tail, FIRST_REFINEMENT_WEIGHT as int) as i64,
                        },
                    },
                    context: ctx,
                },
            )
        }),
{
    let d = seq![hex2d::Angle::Forward, hex2d::Angle::Forward] + tail;
    assert(d[0] == hex2d::Angle::Forward && d[1] == hex2d::Angle::Forward);
    assert(d.skip(2) =~= tail);
    let s1 = stack_after(Seq::empty(), classify(first, d), ctx, world);
    assert(s1.subrange(0, 0) + s1.subrange(0, 1) =~= s1);
    assert(s1.subrange(0, 1) =~= s1);
}

/// The hex direction of a drag of `(dx, dy)`.
pub fn quantize(dx: i64, dy: i64) -> (r: hex2d::Direction)
    requires
        -0x1_0000_0000 <= dx <= 0x1_0000_0000,
        -0x1_0000_0000 <= dy <= 0x1_0000_0000,
    ensures
        r == dir_of(sector_of(dx as int, dy as int) + 3),
{
    assert(0 <= dx * dx <= 0x1_0000_0000 * 0x1_0000_0000) by (nonlinear_arith)
        requires -0x1_0000_0000 <= dx <= 0x1_0000_0000;
    assert(0 <= dy * dy <= 0x1_0000_0000 * 0x1_0000_0000) by (nonlinear_arith)
        requires -0x1_0000_0000 <= dy <= 0x1_0000_0000;
    let x2: i128 = (dx as i128) * (dx as i128);
    let y2: i128 = 3 * ((dy as i128) * (dy as i128));
    assert(x2 == dx * dx && y2 == 3 * dy * dy) by (nonlinear_arith)
        requires x2 == dx * dx, y2 == 3 * (dy * dy);
    let sector: i64 = if dy > 0 && dx > 0 && y2 >= x2 {
        0
    } else if dy > 0 && dx <= 0 && y2 > x2 {
        1
    } else if dx < 0 && (if dy >= 0 { y2 <= x2 } else { y2 < x2 }) {
        2
    } else if dy < 0 && dx < 0 && y2 >= x2 {
        3
    } else if dy < 0 && dx >= 0 && y2 > x2 {
        4
    } else {
        5
    };
    direction_from_int(sector + 3)
}

/// What one frame of input does to a cast: `c0` becomes `c1` and the frame's
/// result is `r` (see `SpellCaster::update`).
pub open spec fn update_post(c0: SpellCaster, c1: SpellCaster, input: CastInput, world: WorldView, r: CastResult) -> bool {
    &&& c1.context == c0.context
    &&& match c0.state {
        PatternDrawState::Waiting => {
            &&& r is NotDone
            &&& c1.patterns == c0.patterns
            &&& c1.stack == c0.stack
            &&& c1.state == (if input.clicked_down {
                PatternDrawState::new_drawing_spec(input.mouse)
            } else {
                PatternDrawState::Waiting
            })
        },
        PatternDrawState::Drawing { wip_pattern, mouse_origin } => if input.pressed {
            &&& r is NotDone
            &&& c1.patterns == c0.patterns
            &&& c1.stack == c0.stack
            &&& if !far_enough(mouse_origin, input.mouse) {
                c1.state == c0.state
            } else {
                let dir = drawn_direction(mouse_origin, input.mouse);
                match wip_pattern {
                    None => is_drawing(c1.state, dir, Seq::empty(), dir, input.mouse),
                    Some((p, prev)) => if angle_of(dir_index(dir) - dir_index(prev)) == hex2d::Angle::Back {
                        c1.state == c0.state
                    } else {
                        is_drawing(
                            c1.state,
                            p.first_direction,
                            p.deltas@.push(angle_of(dir_index(dir) - dir_index(prev))),
                            dir,
                            input.mouse,
                        )
                    },
                }
            }
        } else {
            &&& c1.state is Waiting
            &&& match wip_pattern {
                None => r is NotDone && c1.patterns == c0.patterns && c1.stack
                    == c0.stack,
                Some((p, _)) => {
                    let data = classify(p.first_direction, p.deltas@);
                    &&& c1.patterns@ == c0.patterns@.push(p)
                    &&& c1.stack@ == stack_after(c0.stack@, data, c0.context, world)
                    &&& r == outcome(c0.stack@, data, c0.context, world)
                },
            }
        },
    }
}

impl SpellCaster {
    /// A new cast by `player`, drawing from where the pointer is.
    pub fn new(player: EntityId, mouse: ScreenPos) -> (r: Self)
        ensures
            r.patterns@.len() == 0,
            r.stack@.len() == 0,
            r.context.caster == player,
            r.state == PatternDrawState::new_drawing_spec(mouse),
    {
        Self {
            patterns: Vec::new(),
            stack: Vec::new(),
            context: SpellContext { caster: player },
            state: PatternDrawState::new_drawing(mouse),
        }
    }

    /// Feed a freshly drawn pattern to the stack.
    pub fn add_pattern(&mut self, pattern: RawPattern, world: &WorldView) -> (r: CastResult)
        ensures
            final(self).patterns@ == old(self).patterns@.push(pattern),
            final(self).context == old(self).context,
            final(self).state == old(self).state,
            final(self).stack@ == stack_after(
                old(self).stack@,
                classify(pattern.first_direction, pattern.deltas@),
                old(self).context,
                *world,
            ),
            r == outcome(old(self).stack@, classify(pattern.first_direction, pattern.deltas@), old(self).context, *world),
    {
        let data = pattern.duplicate().to_data();
        self.patterns.push(pattern);
        let ghost old_stack = self.stack@;
        let ghost pushed = self.patterns;
        match data {
            SpellData::Junk => {
                return CastResult::Mistake;
            },
            SpellData::Function(func) => {
                let argc = func.argc();
                if argc > self.stack.len() {
                    return CastResult::Mistake;
                }
                let splitpos = self.stack.len() - argc;
                let args = self.stack.split_off(splitpos);
                match func.try_execute(args, &self.context, world) {
                    Some(res) => {
                        let mut i: usize = 0;
                        while i < res.len()
                            invariant
                                i <= res@.len(),
                                splitpos <= old_stack.len(),
                                self.patterns == pushed,
                                self.context == old(self).context,
                                self.state == old(self).state,
                                self.stack@ =~= old_stack.subrange(0, splitpos as int) + res@.subrange(0, i as int),
                            decreases res@.len() - i,
                        {
                            self.stack.push(res[i]);
                            i = i + 1;
                        }
                        assert(res@.subrange(0, i as int) =~= res@);
                    },
                    None => {
                        return CastResult::Mistake;
                    },
                }
            },
            _ => {
                self.stack.push(data);
            },
        }
        if self.stack.len() == 1 {
            match self.stack[0] {
                SpellData::RenderedSpell(spell) => CastResult::Success(spell),
                _ => CastResult::NotDone,
            }
        } else {
            CastResult::NotDone
        }
    }

    /// Advance the cast by one frame of input.
    ///
    /// While waiting, pressing the button starts a pattern at the pointer. While
    /// drawing with the button held, once the pointer is far enough from where the
    /// current line started, the drag's hex direction adds a line, unless it would
    /// turn straight back. Releasing the button ends the pattern, which is then fed
    /// to the stack.
    pub fn update(&mut self, input: CastInput, world: &WorldView) -> (r: CastResult)
        ensures
            update_post(*old(self), *final(self), input, *world, r),
    {
        let mut state = PatternDrawState::Waiting;
        std::mem::swap(&mut self.state, &mut state);
        match state {
            PatternDrawState::Waiting => {
                if input.clicked_down {
                    self.state = PatternDrawState::new_drawing(input.mouse);
                }
                CastResult::NotDone
            },
            PatternDrawState::Drawing { wip_pattern, mouse_origin } => {
                if input.pressed {
                    let dx: i64 = input.mouse.x as i64 - mouse_origin.x as i64;
                    let dy: i64 = input.mouse.y as i64 - mouse_origin.y as i64;
                    assert(0 <= dx * dx <= 0x1_0000_0000 * 0x1_0000_0000) by (nonlinear_arith)
                        requires -0x1_0000_0000 <= dx <= 0x1_0000_0000;
                    assert(0 <= dy * dy <= 0x1_0000_0000 * 0x1_0000_0000) by (nonlinear_arith)
                        requires -0x1_0000_0000 <= dy <= 0x1_0000_0000;
                    let d2: i128 = (dx as i128) * (dx as i128) + (dy as i128) * (dy as i128);
                    assert(d2 == (input.mouse.x - mouse_origin.x) * (input.mouse.x - mouse_origin.x) + (
                    input.mouse.y - mouse_origin.y) * (input.mouse.y - mouse_origin.y));
                    assert((NEW_DRAW_TOLERANCE as i128) * (NEW_DRAW_TOLERANCE as i128) == 186624) by (nonlinear_arith);
                    if d2 >= (NEW_DRAW_TOLERANCE as i128) * (NEW_DRAW_TOLERANCE as i128) {
                        let dir = quantize(dx, dy);
                        match wip_pattern {
                            Some((mut pattern, prev_dir)) => {
                                let angle = turn_between(dir, prev_dir);
                                if matches!(angle, hex2d::Angle::Back) {
                                    self.state = PatternDrawState::Drawing {
                                        wip_pattern: Some((pattern, prev_dir)),
                                        mouse_origin,
                                    };
                                } else {
                                    pattern.deltas.push(angle);
                                    self.state = PatternDrawState::Drawing {
                                        wip_pattern: Some((pattern, dir)),
                                        mouse_origin: input.mouse,
                                    };
                                }
                            },
                            None => {
                                self.state = PatternDrawState::Drawing {
                                    wip_pattern: Some((RawPattern { deltas: Vec::new(), first_direction: dir }, dir)),
                                    mouse_origin: input.mouse,
                                };
                            },
                        }
                    } else {
                        self.state = PatternDrawState::Drawing { wip_pattern, mouse_origin };
                    }
                    CastResult::NotDone
                } else {
                    match wip_pattern {
                        Some((pattern, _)) => self.add_pattern(pattern, world),
                        None => CastResult::NotDone,
                    }
                }
            },
        }
    }

    /// The patterns drawn so far.
    pub fn patterns(&self) -> (r: &[RawPattern])
        ensures
            r@ == self.patterns@,
    {
        self.patterns.as_slice()
    }

    /// The drawing state.
    pub fn state(&self) -> (r: &PatternDrawState)
        ensures
            *r == self.state,
    {
        &self.state
    }
}

impl PatternDrawState {
    pub open spec fn new_drawing_spec(mouse: ScreenPos) -> PatternDrawState {
        PatternDrawState::Drawing { wip_pattern: None, mouse_origin: mouse }
    }

    /// Start drawing a pattern from the pointer's position.
    pub fn new_drawing(mouse: ScreenPos) -> (r: Self)
        ensures
            r == Self::new_drawing_spec(mouse),
    {
        PatternDrawState::Drawing { wip_pattern: None, mouse_origin: mouse }
    }
}

} // verus!
