//! Patterns drawn on the hex grid, and what they mean.

use vstd::prelude::*;
use crate::hex::{angle_index, angle_index_of};
use crate::spells::{Function, Heading, SpellData, SpellPrototype};
use hex2d::Angle::{Back, Forward, Left, LeftBack, Right, RightBack};

verus! {

/// Weight of the first refining turn of a direction pattern. A drawn direction is
/// the pattern's first direction plus `refinement / REFINEMENT_UNIT` radians.
pub const FIRST_REFINEMENT_WEIGHT: i64 = 609359740010496;

/// `3 * 6^20`: a refinement of one is this fraction of a radian.
pub const REFINEMENT_UNIT: i64 = 10968475320188928;

/// A pattern as drawn by the player: the direction of the first line, then the turn
/// taken before each later line.
#[derive(Debug)]
pub struct RawPattern {
    /// The direction the first connection was drawn in
    pub first_direction: hex2d::Direction,
    /// Turns after the first connection
    pub deltas: Vec<hex2d::Angle>,
}

/// How far a turn pulls a drawn direction, in thirds of a radian at the current weight:
/// clockwise turns pull clockwise; straight on and back do not pull.
pub open spec fn pull(a: hex2d::Angle) -> int {
    match a {
        hex2d::Angle::RightBack => 2,
        hex2d::Angle::Right => 1,
        hex2d::Angle::Forward => 0,
        hex2d::Angle::Back => 0,
        hex2d::Angle::Left => -1,
        hex2d::Angle::LeftBack => -2,
    }
}

/// Sum of the pulls of `tail`, the first at weight `w`, each later one at a sixth
/// of the weight before it, while the weight is not zero.
pub open spec fn refine_sum(tail: Seq<hex2d::Angle>, w: int) -> int
    decreases tail.len(),
{
    if tail.len() == 0 || w <= 0 {
        0
    } else {
        pull(tail[0]) * w + refine_sum(tail.drop_first(), w / 6)
    }
}

/// What a pattern with this first direction and these turns stands for.
pub open spec fn classify(first: hex2d::Direction, d: Seq<hex2d::Angle>) -> SpellData {
    if d.len() >= 2 && d[0] == Forward && d[1] == Forward {
        SpellData::Direction(
            Heading::Drawn { base: first, refinement: refine_sum(d.skip(2), FIRST_REFINEMENT_WEIGHT as int) as i64 },
        )
    } else if d == seq![Left, LeftBack, Left] || d == seq![Right, RightBack, Right] {
        SpellData::Function(Function::GetCaster)
    } else if d == seq![LeftBack, LeftBack] || d == seq![RightBack, RightBack] {
        SpellData::Function(Function::GetPosition)
    } else if d == seq![Forward, LeftBack, LeftBack, Forward] {
        SpellData::Function(Function::Spell(SpellPrototype::Starburst))
    } else if d == seq![Forward, Left, Forward, Left, Forward, Left, Forward, Left, Forward, Left, Forward] {
        SpellData::Function(Function::Spell(SpellPrototype::Shield))
    } else {
        SpellData::Junk
    }
}

fn pull_of(a: hex2d::Angle) -> (r: i64)
    ensures
        r == pull(a),
{
    match a {
        hex2d::Angle::RightBack => 2,
        hex2d::Angle::Right => 1,
        hex2d::Angle::Forward => 0,
        hex2d::Angle::Back => 0,
        hex2d::Angle::Left => -1,
        hex2d::Angle::LeftBack => -2,
    }
}

proof fn lemma_index_injective(a: hex2d::Angle, b: hex2d::Angle)
    requires
        angle_index(a) == angle_index(b),
    ensures
        a == b,
{
}

/// The refinement of a drawn direction whose refining turns are `tail`.
pub fn refinement_of(tail: &Vec<hex2d::Angle>) -> (r: i64)
    ensures
        r == refine_sum(tail@, FIRST_REFINEMENT_WEIGHT as int),
        -3 * FIRST_REFINEMENT_WEIGHT <= r <= 3 * FIRST_REFINEMENT_WEIGHT,
{
    let mut acc: i64 = 0;
    let mut w: i64 = FIRST_REFINEMENT_WEIGHT;
    let mut i: usize = 0;
    assert(tail@.subrange(0, tail@.len() as int) =~= tail@);
    while i < tail.len() && w > 0
        invariant
            i <= tail@.len(),
            0 <= w <= FIRST_REFINEMENT_WEIGHT,
            -(3 * FIRST_REFINEMENT_WEIGHT - 3 * w) <= acc <= 3 * FIRST_REFINEMENT_WEIGHT - 3 * w,
            acc + refine_sum(tail@.subrange(i as int, tail@.len() as int), w as int)
                == refine_sum(tail@, FIRST_REFINEMENT_WEIGHT as int),
        decreases tail@.len() - i,
    {
        let ghost rest = tail@.subrange(i as int, tail@.len() as int);
        assert(rest.drop_first() =~= tail@.subrange(i + 1, tail@.len() as int));
        assert(rest[0] == tail@[i as int]);
        let p = pull_of(tail[i]);
        assert(-2 * w <= p * w <= 2 * w) by (nonlinear_arith)
            requires -2 <= p <= 2, w >= 0;
        acc = acc + p * w;
        w = w / 6;
        i = i + 1;
    }
    if w <= 0 {
        assert(refine_sum(tail@.subrange(i as int, tail@.len() as int), w as int) == 0);
    } else {
        assert(tail@.subrange(i as int, tail@.len() as int).len() == 0);
    }
    acc
}

fn code_at(d: &Vec<hex2d::Angle>, i: usize) -> (r: i64)
    requires
        i < d@.len(),
    ensures
        r == angle_index(d@[i as int]),
{
    angle_index_of(d[i])
}

/// `d` has exactly the turns whose indices are listed in `codes`.
fn has_codes(d: &Vec<hex2d::Angle>, codes: &Vec<i64>) -> (r: bool)
    ensures
        r == (d@.len() == codes@.len() && forall|i: int| 0 <= i < d@.len() ==> angle_index(d@[i]) == codes@[i]),
{
    if d.len() != codes.len() {
        return false;
    }
    let mut i: usize = 0;
    while i < d.len()
        invariant
            d@.len() == codes@.len(),
            i <= d@.len(),
            forall|j: int| 0 <= j < i ==> angle_index(d@[j]) == codes@[j],
        decreases d@.len() - i,
    {
        if code_at(d, i) != codes[i] {
            return false;
        }
        i = i + 1;
    }
    true
}

proof fn lemma_codes_shape(d: Seq<hex2d::Angle>, shape: Seq<hex2d::Angle>)
    requires
        d.len() == shape.len(),
        forall|i: int| 0 <= i < d.len() ==> angle_index(d[i]) == angle_index(shape[i]),
    ensures
        d == shape,
{
    assert forall|i: int| 0 <= i < d.len() implies d[i] == shape[i] by {
        lemma_index_injective(d[i], shape[i]);
    }
    assert(d =~= shape);
}

/// The turns of `d`, copied one by one.
fn copy_turns(d: &Vec<hex2d::Angle>) -> (r: Vec<hex2d::Angle>)
    ensures
        r@ == d@,
{
    let mut out: Vec<hex2d::Angle> = Vec::new();
    let mut i: usize = 0;
    while i < d.len()
        invariant
            i <= d@.len(),
            out@ =~= d@.subrange(0, i as int),
        decreases d@.len() - i,
    {
        out.push(d[i]);
        i = i + 1;
    }
    assert(out@ =~= d@);
    out
}

impl RawPattern {
    /// A copy of this pattern.
    pub fn duplicate(&self) -> (r: RawPattern)
        ensures
            r.first_direction == self.first_direction,
            r.deltas@ == self.deltas@,
    {
        RawPattern { first_direction: self.first_direction, deltas: copy_turns(&self.deltas) }
    }

    /// What this pattern stands for on the spell stack.
    pub fn to_data(self) -> (r: SpellData)
        ensures
            r == classify(self.first_direction, self.deltas@),
    {
            let d = &self.deltas;
        let ghost s = d@;
        if d.len() >= 2 && code_at(d, 0) == 0 && code_at(d, 1) == 0 {
            proof {
                lemma_index_injective(s[0], Forward);
                lemma_index_injective(s[1], Forward);
            }
            let mut tail: Vec<hex2d::Angle> = Vec::new();
            let mut i: usize = 2;
            while i < d.len()
                invariant
                    2 <= i <= d@.len(),
                    tail@ =~= d@.subrange(2, i as int),
                decreases d@.len() - i,
            {
                tail.push(d[i]);
                i = i + 1;
            }
            assert(tail@ =~= s.skip(2));
            let refinement = refinement_of(&tail);
            return SpellData::Direction(Heading::Drawn { base: self.first_direction, refinement });
        }
        let caster_l = has_codes(d, &vec![5, 4, 5]);
        let caster_r = has_codes(d, &vec![1, 2, 1]);
        let position_l = has_codes(d, &vec![4, 4]);
        let position_r = has_codes(d, &vec![2, 2]);
        let starburst = has_codes(d, &vec![0, 4, 4, 0]);
        let shield = has_codes(d, &vec![0, 5, 0, 5, 0, 5, 0, 5, 0, 5, 0]);
        proof {
            let cl = seq![Left, LeftBack, Left];
            let cr = seq![Right, RightBack, Right];
            let pl = seq![LeftBack, LeftBack];
            let pr = seq![RightBack, RightBack];
            let sb = seq![Forward, LeftBack, LeftBack, Forward];
            let sh = seq![Forward, Left, Forward, Left, Forward, Left, Forward, Left, Forward, Left, Forward];
            if caster_l { lemma_codes_shape(s, cl); }
            if caster_r { lemma_codes_shape(s, cr); }
            if position_l { lemma_codes_shape(s, pl); }
            if position_r { lemma_codes_shape(s, pr); }
            if starburst { lemma_codes_shape(s, sb); }
            if shield { lemma_codes_shape(s, sh); }
            if s == cl { assert(angle_index(s[0]) == 5 && angle_index(s[1]) == 4 && angle_index(s[2]) == 5); }
            if s == cr { assert(angle_index(s[0]) == 1 && angle_index(s[1]) == 2 && angle_index(s[2]) == 1); }
            if s == pl { assert(angle_index(s[0]) == 4 && angle_index(s[1]) == 4); }
            if s == pr { assert(angle_index(s[0]) == 2 && angle_index(s[1]) == 2); }
            if s == sb { assert(angle_index(s[0]) == 0 && angle_index(s[1]) == 4 && angle_index(s[2]) == 4 && angle_index(s[3]) == 0); }
            if s == sh {
                assert(forall|i: int| 0 <= i < 11 ==> angle_index(s[i]) == (if i % 2 == 0 { 0int } else { 5int }));
            }
            if s.len() >= 2 && s[0] == Forward && s[1] == Forward {
                assert(angle_index(s[0]) == 0);
            }
        }
        if caster_l || caster_r {
            SpellData::Function(Function::GetCaster)
        } else if position_l || position_r {
            SpellData::Function(Function::GetPosition)
        } else if starburst {
            SpellData::Function(Function::Spell(SpellPrototype::Starburst))
        } else if shield {
            SpellData::Function(Function::Spell(SpellPrototype::Shield))
        } else {
            SpellData::Junk
        }
    }
}

} // verus!
