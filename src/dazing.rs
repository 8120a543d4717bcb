//! Daze: a timed status that lowers an entity's damping, so that it slides, and
//! restores the exact original damping when it runs out.

use vstd::prelude::*;
use crate::physics::{body_components, body_keys, entry, get_body_component, BodyKey, PhysicsWorld};
use crate::world::EntityId;

verus! {

/// How fast damping comes back while dazed: it is
/// `original / (1 + seconds_left * DAMP_TIME_COEFFICIENT)`.
pub const DAMP_TIME_COEFFICIENT: u64 = 4;

/// The linear damping of the bodies in a body set, as the bits of its `f32`, by handle.
pub uninterp spec fn body_damping(s: rapier2d::dynamics::RigidBodySet) -> Map<BodyKey, u32>;

/// Relies on `RigidBodySet::get` and `RigidBody::linear_damping`: the damping's bits
/// (`f32::to_bits`), where the body is in the set.
#[verifier::external_body]
fn body_damping_bits(bodies: &rapier2d::dynamics::RigidBodySet, b: BodyKey) -> (r: Option<u32>)
    ensures
        r is Some == body_keys(*bodies).contains(b),
        r is Some ==> r->0 == body_damping(*bodies)[b],
{
    bodies.get(rapier2d::dynamics::RigidBodyHandle::from_raw_parts(b.0, b.1)).map(|rb| rb.linear_damping().to_bits())
}

/// Component for things that can be dazed. While dazed, damping is lowered and the
/// player's input is less effective. Changing the damping while dazed is undone
/// when the daze ends.
#[derive(Clone, Copy, Debug)]
pub struct Dazeable {
    /// While dazed: the microseconds left, and the damping from before the daze
    /// (the bits of its `f32`).
    pub time_left: Option<(u64, u32)>,
}

/// What one tick of daze does to the body's damping.
#[derive(Clone, Copy, Debug, PartialEq, Eq, Structural)]
pub enum DazeStep {
    /// Not dazed: leave the damping alone.
    Undazed,
    /// Still dazed: set the damping from the original and the microseconds that
    /// were left at the start of the tick (see `DAMP_TIME_COEFFICIENT`).
    Damp { original: u32, time_left: u64 },
    /// The daze ran out: set the damping back to exactly these bits.
    Restore { original: u32 },
}

/// The damping a daze of `e` starts from: its body's, or zero where it has none.
pub open spec fn pre_daze_damping(w: hecs::World, p: PhysicsWorld, e: EntityId) -> u32 {
    match entry(body_components(w), e.bits) {
        Some(b) => if body_keys(p.rigid_bodies).contains(b) {
            body_damping(p.rigid_bodies)[b]
        } else {
            0
        },
        None => 0,
    }
}

/// Microseconds left of a daze.
pub open spec fn remaining(z: Dazeable) -> u64 {
    match z.time_left {
        Some((t, _)) => t,
        None => 0,
    }
}

/// The damping kept from before a daze.
pub open spec fn original_damping(z: Dazeable) -> u32 {
    match z.time_left {
        Some((_, d)) => d,
        None => 0,
    }
}

/// The status after `time` more microseconds of daze; where a daze starts, it
/// keeps `damping` as the original.
pub open spec fn with_daze(z: Dazeable, time: u64, damping: u32) -> Dazeable {
    match z.time_left {
        Some((t, d)) => Dazeable {
            time_left: Some((if t + time > u64::MAX { u64::MAX } else { (t + time) as u64 }, d)),
        },
        None => Dazeable { time_left: Some((time, damping)) },
    }
}

/// The status after a tick of `dt` microseconds, and what the tick does.
pub open spec fn ticked(z: Dazeable, dt: u64) -> (Dazeable, DazeStep) {
    match z.time_left {
        None => (z, DazeStep::Undazed),
        Some((t, d)) => if dt > t {
            (Dazeable { time_left: None }, DazeStep::Restore { original: d })
        } else {
            (Dazeable { time_left: Some(((t - dt) as u64, d)) }, DazeStep::Damp { original: d, time_left: t })
        },
    }
}

impl Dazeable {
    pub fn new() -> (r: Self)
        ensures
            r.time_left is None,
    {
        Self { time_left: None }
    }

    /// Daze `entity` for `time` more microseconds. A daze that starts now keeps the
    /// damping of the entity's body as the original (zero where it has none); one
    /// that goes on keeps its original and only gets longer.
    pub fn add_time(&mut self, entity: EntityId, time: u64, world: &hecs::World, physics: &PhysicsWorld)
        ensures
            *final(self) == with_daze(*old(self), time, pre_daze_damping(*world, *physics, entity)),
    {
        let damp: u32 = if self.time_left.is_some() {
            0
        } else {
            match get_body_component(world, entity) {
                Some(b) => match body_damping_bits(&physics.rigid_bodies, b) {
                    Some(bits) => bits,
                    None => 0,
                },
                None => 0,
            }
        };
        self.add_time_with(time, damp);
    }

    /// The daze's whole effect on the status, once the original damping is known.
    pub fn add_time_with(&mut self, time: u64, damping: u32)
        ensures
            *final(self) == with_daze(*old(self), time, damping),
    {
        match self.time_left {
            Some((t, d)) => {
                self.time_left = Some((t.saturating_add(time), d));
            },
            None => {
                self.time_left = Some((time, damping));
            },
        }
    }

    /// How much longer we're dazed, in microseconds, or `None` if we're not.
    pub fn time_left(&self) -> (r: Option<u64>)
        ensures
            r == (match self.time_left {
                Some((t, _)) => Some(t),
                None => None,
            }),
    {
        match self.time_left {
            Some((t, _)) => Some(t),
            None => None,
        }
    }

    /// One tick of `dt` microseconds: count the daze down; when less than nothing is
    /// left it ends, and the original damping comes back.
    pub fn tick(&mut self, dt: u64) -> (r: DazeStep)
        ensures
            (*final(self), r) == ticked(*old(self), dt),
    {
        match self.time_left {
            None => DazeStep::Undazed,
            Some((t, d)) => {
                if dt > t {
                    self.time_left = None;
                    DazeStep::Restore { original: d }
                } else {
                    self.time_left = Some((t - dt, d));
                    DazeStep::Damp { original: d, time_left: t }
                }
            },
        }
    }
}

/// The status after ticks of `dts`, in order.
pub open spec fn after_ticks(z: Dazeable, dts: Seq<u64>) -> Dazeable
    decreases dts.len(),
{
    if dts.len() == 0 {
        z
    } else {
        after_ticks(ticked(z, dts[0]).0, dts.drop_first())
    }
}

/// Dazing again before the daze ends adds the time and keeps the original damping
/// from when the daze began, whatever the damping is by then.
pub proof fn lemma_daze_stacks(z: Dazeable, t1: u64, d1: u32, t2: u64, d2: u32)
    requires
        z.time_left is None,
        t1 + t2 <= u64::MAX,
    ensures
        with_daze(with_daze(z, t1, d1), t2, d2) == (Dazeable { time_left: Some(((t1 + t2) as u64, d1)) }),
{
}

/// While a daze lasts, ticks keep its original damping, and the tick that ends it
/// hands back exactly that damping.
pub proof fn lemma_daze_restores(z: Dazeable, dts: Seq<u64>, d: u32)
    requires
        z.time_left is Some,
        original_damping(z) == d,
    ensures
        after_ticks(z, dts).time_left is Some ==> original_damping(after_ticks(z, dts)) == d,
        forall|k: int|
            0 <= k < dts.len() && after_ticks(z, dts.take(k)).time_left is Some ==> match #[trigger] ticked(
                after_ticks(z, dts.take(k)),
                dts[k],
            ).1 {
                DazeStep::Damp { original, .. } => original == d,
                DazeStep::Restore { original } => original == d,
                DazeStep::Undazed => false,
            },
    decreases dts.len(),
{
    if dts.len() > 0 {
        let (z1, _) = ticked(z, dts[0]);
        let rest = dts.drop_first();
        if z1.time_left is Some {
            lemma_daze_restores(z1, rest, d);
        } else {
            lemma_undazed_stays(z1, rest);
        }
        assert forall|k: int|
            0 <= k < dts.len() && after_ticks(z, dts.take(k)).time_left is Some implies match #[trigger] ticked(
                after_ticks(z, dts.take(k)),
                dts[k],
            ).1 {
                DazeStep::Damp { original, .. } => original == d,
                DazeStep::Restore { original } => original == d,
                DazeStep::Undazed => false,
            } by {
            if k == 0 {
                assert(dts.take(0) =~= Seq::<u64>::empty());
            } else {
                assert(rest.take(k - 1) =~= dts.take(k).drop_first());
                assert(dts.take(k)[0] == dts[0]);
                assert(after_ticks(z, dts.take(k)) == after_ticks(z1, rest.take(k - 1)));
                assert(rest[k - 1] == dts[k]);
                if z1.time_left is None {
                    lemma_undazed_stays(z1, rest.take(k - 1));
                }
            }
        }
    }
}

/// A daze of an undazed entity keeps the damping its body had before the daze, and
/// every later tick of it, up to the one that ends it and hands the damping back,
/// carries exactly that damping.
pub proof fn lemma_daze_keeps_pre_daze_damping(
    z: Dazeable,
    w: hecs::World,
    p: PhysicsWorld,
    e: EntityId,
    time: u64,
    dts: Seq<u64>,
)
    requires
        z.time_left is None,
    ensures
        ({
            let z1 = with_daze(z, time, pre_daze_damping(w, p, e));
            &&& original_damping(z1) == pre_daze_damping(w, p, e)
            &&& after_ticks(z1, dts).time_left is Some ==> original_damping(after_ticks(z1, dts)) == pre_daze_damping(w, p, e)
            &&& forall|k: int|
                0 <= k < dts.len() && after_ticks(z1, dts.take(k)).time_left is Some ==> match #[trigger] ticked(
                    after_ticks(z1, dts.take(k)),
                    dts[k],
                ).1 {
                    DazeStep::Damp { original, .. } => original == pre_daze_damping(w, p, e),
                    DazeStep::Restore { original } => original == pre_daze_damping(w, p, e),
                    DazeStep::Undazed => false,
                }
        }),
{
    let z1 = with_daze(z, time, pre_daze_damping(w, p, e));
    lemma_daze_restores(z1, dts, pre_daze_damping(w, p, e));
}

proof fn lemma_undazed_stays(z: Dazeable, dts: Seq<u64>)
    requires
        z.time_left is None,
    ensures
        after_ticks(z, dts) == z,
    decreases dts.len(),
{
    if dts.len() > 0 {
        lemma_undazed_stays(z, dts.drop_first());
    }
}

} // verus!
