//! Plain-value identities and positions that the spell machine reads.

use vstd::prelude::*;

verus! {

/// An entity, by the bits of its ECS identifier.
#[derive(Clone, Copy, Debug, PartialEq, Eq, Structural)]
pub struct EntityId {
    pub bits: u64,
}

/// A point in world space, in thousandths of a world unit (one unit is one tile).
#[derive(Clone, Copy, Debug, PartialEq, Eq, Structural)]
pub struct Point {
    pub x: i32,
    pub y: i32,
}

/// An entity together with the center of its collider's bounding box.
#[derive(Clone, Copy, Debug, PartialEq, Eq, Structural)]
pub struct Located {
    pub entity: EntityId,
    pub pos: Point,
}

/// What the spell functions may read of the world while a pattern is resolved:
/// the entities that have a collider, with the collider's center, and the shrines.
pub struct WorldView {
    pub colliders: Vec<Located>,
    pub shrines: Vec<Located>,
}

/// Squared distance between two points.
pub open spec fn dist2(a: Point, b: Point) -> int {
    (a.x - b.x) * (a.x - b.x) + (a.y - b.y) * (a.y - b.y)
}

/// The position of the first listed entry for `e`.
pub open spec fn position_of(cs: Seq<Located>, e: EntityId) -> Option<Point>
    decreases cs.len(),
{
    if cs.len() == 0 {
        None
    } else if cs[0].entity == e {
        Some(cs[0].pos)
    } else {
        position_of(cs.drop_first(), e)
    }
}

/// `i` is the first of the entries nearest to `from`.
pub open spec fn is_first_nearest(s: Seq<Located>, from: Point, i: int) -> bool {
    &&& 0 <= i < s.len()
    &&& forall|j: int| 0 <= j < s.len() ==> dist2(s[j].pos, from) >= dist2(s[i].pos, from)
    &&& forall|j: int| 0 <= j < i ==> dist2(s[j].pos, from) > dist2(s[i].pos, from)
}

/// The entity of the first entry nearest to `from`, if there is any entry.
pub open spec fn nearest_of(s: Seq<Located>, from: Point) -> Option<EntityId> {
    if s.len() == 0 {
        None
    } else {
        Some(s[choose|i: int| is_first_nearest(s, from, i)].entity)
    }
}

proof fn lemma_first_nearest_unique(s: Seq<Located>, from: Point, i: int, k: int)
    requires
        is_first_nearest(s, from, i),
        is_first_nearest(s, from, k),
    ensures
        i == k,
{
    if i < k {
        assert(dist2(s[i].pos, from) > dist2(s[k].pos, from));
    } else if k < i {
        assert(dist2(s[k].pos, from) > dist2(s[i].pos, from));
    }
}

fn dist2_exec(a: Point, b: Point) -> (r: i128)
    ensures
        r == dist2(a, b),
{
    let dx: i128 = a.x as i128 - b.x as i128;
    let dy: i128 = a.y as i128 - b.y as i128;
    assert(dx * dx <= 0x1_0000_0000i128 * 0x1_0000_0000i128) by (nonlinear_arith)
        requires
            -0x1_0000_0000i128 <= dx <= 0x1_0000_0000i128,
    ;
    assert(dy * dy <= 0x1_0000_0000i128 * 0x1_0000_0000i128) by (nonlinear_arith)
        requires
            -0x1_0000_0000i128 <= dy <= 0x1_0000_0000i128,
    ;
    assert(dx * dx >= 0 && dy * dy >= 0) by (nonlinear_arith);
    dx * dx + dy * dy
}

impl WorldView {
    /// Center of the collider of `e`, if `e` is listed with one.
    pub fn position(&self, e: EntityId) -> (r: Option<Point>)
        ensures
            r == position_of(self.colliders@, e),
    {
        let mut i: usize = 0;
        assert(self.colliders@.subrange(0, self.colliders@.len() as int) =~= self.colliders@);
        while i < self.colliders.len()
            invariant
                i <= self.colliders@.len(),
                position_of(self.colliders@, e) == position_of(self.colliders@.subrange(i as int, self.colliders@.len() as int), e),
            decreases self.colliders@.len() - i,
        {
            let c = self.colliders[i];
            let ghost rest = self.colliders@.subrange(i as int, self.colliders@.len() as int);
            assert(rest.drop_first() =~= self.colliders@.subrange(i + 1, self.colliders@.len() as int));
            if c.entity == e {
                return Some(c.pos);
            }
            i = i + 1;
        }
        assert(self.colliders@.subrange(i as int, self.colliders@.len() as int) =~= Seq::<Located>::empty());
        None
    }

    /// The first of the shrines nearest to `from`, if there are shrines.
    pub fn nearest_shrine(&self, from: Point) -> (r: Option<EntityId>)
        ensures
            r == nearest_of(self.shrines@, from),
    {
        let n = self.shrines.len();
        if n == 0 {
            return None;
        }
        let mut best: usize = 0;
        let mut best_d = dist2_exec(self.shrines[0].pos, from);
        let mut i: usize = 1;
        while i < n
            invariant
                n == self.shrines@.len(),
                1 <= i <= n,
                best < i,
                best_d == dist2(self.shrines@[best as int].pos, from),
                forall|j: int| 0 <= j < i ==> dist2(self.shrines@[j].pos, from) >= best_d,
                forall|j: int| 0 <= j < best ==> dist2(self.shrines@[j].pos, from) > best_d,
            decreases n - i,
        {
            let d = dist2_exec(self.shrines[i].pos, from);
            if d < best_d {
                best = i;
                best_d = d;
            }
            i = i + 1;
        }
        proof {
            assert(is_first_nearest(self.shrines@, from, best as int));
            let k = choose|k: int| is_first_nearest(self.shrines@, from, k);
            lemma_first_nearest_unique(self.shrines@, from, best as int, k);
        }
        Some(self.shrines[best].entity)
    }
}

} // verus!
