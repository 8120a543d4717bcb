//! Damage: packets, per-source sensitivities, and the two models of hit points.

use vstd::prelude::*;

verus! {

/// A sensitivity of this many units leaves damage unchanged.
pub const SENSITIVITY_UNIT: u64 = 1000;

/// Sources of damage
#[derive(Clone, Copy, Debug, PartialEq, Eq, Structural)]
pub enum DamageSource {
    /// Normal damage from plain spells
    Projectile,
    /// Various explosions
    Explosive,
}

/// One instance of an attack. Attacks that do several kinds of damage use several packets.
#[derive(Clone, Copy, Debug, PartialEq, Eq, Structural)]
pub struct DamagePacket {
    pub source: DamageSource,
    pub amount: u64,
}

/// Resistances (or vulnerabilities) to each source of damage, in thousandths:
/// incoming damage is multiplied by `sensitivity / SENSITIVITY_UNIT`.
#[derive(Clone, Copy, Debug, PartialEq, Eq, Structural)]
pub struct DamageSensitivities {
    pub projectile: u64,
    pub explosive: u64,
}

/// How an entity loses hit points.
#[derive(Clone, Copy, Debug, PartialEq, Eq, Structural)]
pub enum HpStyle {
    /// A pool of hit points, depleted by each attack; empty means dead.
    Pool { hp: u64, max_hp: u64 },
    /// All the hit points must go at once: a smaller hit does nothing.
    OneShot { max_hp: u64 },
}

/// Component for things that can take damage.
#[derive(Clone, Copy, Debug, PartialEq, Eq, Structural)]
pub struct Damageable {
    pub hp: HpStyle,
    /// Set when the entity runs out of hit points; cleanup removes it later.
    pub is_dead: bool,
    pub sensitivities: DamageSensitivities,
}

impl DamageSensitivities {
    pub open spec fn of(self, source: DamageSource) -> u64 {
        match source {
            DamageSource::Projectile => self.projectile,
            DamageSource::Explosive => self.explosive,
        }
    }
}

/// `amount` scaled by `sensitivity` thousandths, rounded down, capped at `u64::MAX`.
pub open spec fn scaled(amount: u64, sensitivity: u64) -> u64 {
    let v = amount * sensitivity / (SENSITIVITY_UNIT as int);
    if v > u64::MAX {
        u64::MAX
    } else {
        v as u64
    }
}

/// Hit points after a hit of `amount`: they stop at zero.
pub open spec fn hp_after(hp: u64, amount: u64) -> u64 {
    if amount >= hp {
        0
    } else {
        (hp - amount) as u64
    }
}

/// The entity after a hit of `dmg`.
pub open spec fn damaged(d: Damageable, dmg: DamagePacket) -> Damageable {
    let amount = scaled(dmg.amount, d.sensitivities.of(dmg.source));
    match d.hp {
        HpStyle::Pool { hp, max_hp } => Damageable {
            hp: HpStyle::Pool { hp: hp_after(hp, amount), max_hp },
            is_dead: d.is_dead || hp_after(hp, amount) == 0,
            sensitivities: d.sensitivities,
        },
        HpStyle::OneShot { max_hp } => Damageable {
            hp: d.hp,
            is_dead: d.is_dead || amount >= max_hp,
            sensitivities: d.sensitivities,
        },
    }
}

/// The entity after the hits of `hits`, in order.
pub open spec fn after_hits(d: Damageable, hits: Seq<DamagePacket>) -> Damageable
    decreases hits.len(),
{
    if hits.len() == 0 {
        d
    } else {
        after_hits(damaged(d, hits[0]), hits.drop_first())
    }
}

/// Repeated hits on a pool: the hit points only go down, and stop at zero; the
/// entity is dead exactly when they are zero; and once dead it stays dead, so the
/// flag is set once, when the pool empties.
pub proof fn lemma_pool_saturates(d: Damageable, hits: Seq<DamagePacket>, i: int)
    requires
        d.hp is Pool,
        d.wf(),
        0 <= i <= hits.len(),
    ensures
        after_hits(d, hits).hp is Pool,
        after_hits(d, hits).wf(),
        after_hits(d, hits).hp->Pool_hp <= d.hp->Pool_hp,
        after_hits(d, hits.take(i)).is_dead ==> after_hits(d, hits).is_dead,
    decreases hits.len(),
{
    if hits.len() > 0 {
        let d1 = damaged(d, hits[0]);
        if i == 0 {
            lemma_pool_saturates(d1, hits.drop_first(), 0);
            assert(hits.take(0) =~= Seq::<DamagePacket>::empty());
            if d.is_dead {
                lemma_dead_stays_dead(d, hits);
            }
        } else {
            assert(hits.drop_first().take(i - 1) =~= hits.take(i).drop_first());
            lemma_pool_saturates(d1, hits.drop_first(), i - 1);
        }
    }
}

/// Hits never revive an entity.
pub proof fn lemma_dead_stays_dead(d: Damageable, hits: Seq<DamagePacket>)
    requires
        d.is_dead,
    ensures
        after_hits(d, hits).is_dead,
    decreases hits.len(),
{
    if hits.len() > 0 {
        lemma_dead_stays_dead(damaged(d, hits[0]), hits.drop_first());
    }
}

/// A one-shot entity dies from a hit exactly when the hit, once scaled by its
/// sensitivity, reaches the threshold; smaller hits leave it alive.
pub proof fn lemma_one_shot_threshold(d: Damageable, dmg: DamagePacket)
    requires
        d.hp is OneShot,
        !d.is_dead,
    ensures
        damaged(d, dmg).is_dead <==> scaled(dmg.amount, d.sensitivities.of(dmg.source)) >= d.hp->OneShot_max_hp,
        damaged(d, dmg).hp == d.hp,
{
}

impl Damageable {
    /// A pool of `max_hp` hit points, full.
    pub fn pool(max_hp: u64, sensitivities: DamageSensitivities) -> (r: Self)
        ensures
            r.hp == (HpStyle::Pool { hp: max_hp, max_hp }),
            r.is_dead == (max_hp == 0),
            r.sensitivities == sensitivities,
            r.wf(),
    {
        Damageable { hp: HpStyle::Pool { hp: max_hp, max_hp }, is_dead: max_hp == 0, sensitivities }
    }

    /// Dies to a single hit of at least `max_hp`.
    pub fn one_shot(max_hp: u64, sensitivities: DamageSensitivities) -> (r: Self)
        ensures
            r.hp == (HpStyle::OneShot { max_hp }),
            !r.is_dead,
            r.sensitivities == sensitivities,
            r.wf(),
    {
        Damageable { hp: HpStyle::OneShot { max_hp }, is_dead: false, sensitivities }
    }

    /// A pool is dead exactly when it is empty.
    pub open spec fn wf(self) -> bool {
        match self.hp {
            HpStyle::Pool { hp, .. } => self.is_dead == (hp == 0),
            HpStyle::OneShot { .. } => true,
        }
    }

    /// Take a hit: scale it by the sensitivity to its source, then take it off
    /// the pool (which stops at zero, and is dead at zero), or, for a one-shot
    /// entity, die if the scaled hit reaches the threshold.
    pub fn take_damage(&mut self, dmg: DamagePacket)
        ensures
            *final(self) == damaged(*old(self), dmg),
            old(self).wf() ==> final(self).wf(),
            old(self).is_dead ==> final(self).is_dead,
    {
        let scale = match dmg.source {
            DamageSource::Projectile => self.sensitivities.projectile,
            DamageSource::Explosive => self.sensitivities.explosive,
        };
        assert(0 <= (dmg.amount as int) * (scale as int) <= (u64::MAX as int) * (u64::MAX as int)) by (nonlinear_arith)
            requires dmg.amount <= u64::MAX, scale <= u64::MAX;
        let wide: u128 = (dmg.amount as u128) * (scale as u128) / (SENSITIVITY_UNIT as u128);
        let amount: u64 = if wide > u64::MAX as u128 { u64::MAX } else { wide as u64 };
        match self.hp {
            HpStyle::Pool { hp, max_hp } => {
                let left = hp.saturating_sub(amount);
                self.hp = HpStyle::Pool { hp: left, max_hp };
                if left == 0 {
                    self.is_dead = true;
                }
            },
            HpStyle::OneShot { max_hp } => {
                if amount >= max_hp {
                    self.is_dead = true;
                }
            },
        }
    }

    /// Am I dead
    pub fn is_dead(&self) -> (r: bool)
        ensures
            r == self.is_dead,
    {
        self.is_dead
    }
}

/// Component for things that hurt what they touch.
#[derive(Clone, Copy, Debug, PartialEq, Eq, Structural)]
pub struct Hurtbox {
    /// Damage that I do
    pub ouchie: DamagePacket,
    /// Whether this goes away as soon as it does any damage
    pub fragile: bool,
}

} // verus!
