use vstd::prelude::*;

use crate::fighter::Fighter;
use crate::stats::{AttackType, Element, Stat};

verus! {

/// A potential change of state carried by a weapon, not yet resolved to numbers.
#[derive(Debug, Clone, Copy, PartialEq, Eq, Structural)]
pub enum Effect {
    /// Damage of an element; `on_self` turns it against the user.
    Attack { on_self: bool, attack_type: AttackType, element: Element, damage: u16 },
    /// A heal; it resolves to no consequence yet.
    Heal { on_self: bool, health: u16, duration: u8 },
    /// A change of one stat, on the user or on the target.
    Boost { on_self: bool, stat: Stat, amount: i32, duration: u8 },
}

/// A fully resolved change of state, ready to be applied to one fighter.
#[derive(Debug, Clone, Copy, PartialEq, Eq, Structural)]
pub enum Consequence {
    /// Damage, with the attack and defense powers that weigh it.
    Attack { attack: u16, defense: u16, damage: u16 },
    /// A signed change of one stat, until the fighter's next turn.
    Buff { stat: Stat, amount: i32, duration: u8 },
}

/// A named bundle of effects.
#[derive(Debug, Clone, PartialEq, Eq)]
pub struct Weapon {
    pub name: String,
    pub effects: Vec<Effect>,
}

/// The health lost to a hit: `damage * (attack + 1) / (attack + defense + 1)`, floored.
pub open spec fn dealt(attack: u16, defense: u16, damage: u16) -> int {
    damage * (attack + 1) / (attack + defense + 1)
}

/// The health lost to a hit, as [`dealt`] states it.
pub fn damage_dealt(attack: u16, defense: u16, damage: u16) -> (r: u16)
    ensures
        r == dealt(attack, defense, damage),
        r <= damage,
{
    assert(damage as int * (attack as int + 1) <= 65535 * 65536) by (nonlinear_arith)
        requires
            damage <= 65535,
            attack <= 65535,
            damage >= 0,
    ;
    let num: u64 = damage as u64 * (attack as u64 + 1);
    let den: u64 = attack as u64 + defense as u64 + 1;
    proof {
        let n = damage as int * (attack as int + 1);
        assert(n / (den as int) <= damage) by (nonlinear_arith)
            requires
                n == damage as int * (attack as int + 1),
                den as int >= attack as int + 1,
                attack >= 0,
                damage >= 0,
        ;
        assert(n / (den as int) >= 0) by (nonlinear_arith)
            requires
                n >= 0,
                den > 0,
        ;
    }
    (num / den) as u16
}

/// With no attack and no defense power, a hit deals exactly its raw damage.
pub proof fn lemma_zero_powers_deal_raw_damage(damage: u16)
    ensures
        dealt(0, 0, damage) == damage,
{
    let d = damage as int;
    assert(dealt(0, 0, damage) == (d * 1) / 1);
    assert((d * 1) / 1 == d) by (nonlinear_arith);
}

/// Adds a signed amount to a stat value, clamped to the range of `u16`.
pub open spec fn shifted(v: u16, amount: i32) -> u16 {
    if v + amount < 0 {
        0
    } else if v + amount > u16::MAX {
        u16::MAX
    } else {
        (v + amount) as u16
    }
}

fn shift(v: u16, amount: i32) -> (r: u16)
    ensures
        r == shifted(v, amount),
{
    let s: i64 = v as i64 + amount as i64;
    if s < 0 {
        0
    } else if s > u16::MAX as i64 {
        u16::MAX
    } else {
        s as u16
    }
}

impl Effect {
    /// What the effect resolves to for `source` acting on `target`: nothing
    /// when the target is dead.
    pub open spec fn outcome(self, source: Fighter, target: Fighter) -> Seq<(bool, Consequence)> {
        if !target.alive {
            seq![]
        } else {
            match self {
                Effect::Attack { on_self, attack_type, element, damage } => {
                    let defender = if on_self {
                        source
                    } else {
                        target
                    };
                    seq![
                        (
                            on_self,
                            Consequence::Attack {
                                attack: source.power(attack_type, element, false),
                                defense: defender.power(attack_type, element, true),
                                damage,
                            },
                        ),
                    ]
                },
                Effect::Heal { .. } => seq![],
                Effect::Boost { on_self, stat, amount, duration } => seq![
                    (on_self, Consequence::Buff { stat, amount, duration }),
                ],
            }
        }
    }

    /// Resolves the effect to consequences, each tagged with whether it lands
    /// on the source (`true`) or on the target.
    pub fn apply_on_target(&self, source: &Fighter, target: &Fighter) -> (r: Vec<(bool, Consequence)>)
        ensures
            r@ == self.outcome(*source, *target),
    {
        let mut consequences = Vec::new();
        if !target.alive {
            return consequences;
        }
        match self {
            Effect::Attack { on_self, attack_type, element, damage } => {
                let defender = if *on_self {
                    source
                } else {
                    target
                };
                let attack = source.power_of(*attack_type, *element, false);
                let defense = defender.power_of(*attack_type, *element, true);
                consequences.push((*on_self, Consequence::Attack { attack, defense, damage: *damage }));
            },
            Effect::Heal { .. } => {},
            Effect::Boost { on_self, stat, amount, duration } => {
                consequences.push(
                    (*on_self, Consequence::Buff { stat: *stat, amount: *amount, duration: *duration }),
                );
            },
        }
        proof {
            assert(consequences@ =~= self.outcome(*source, *target));
        }
        consequences
    }
}

/// The consequences of a list of effects, in order.
pub open spec fn outcomes(effects: Seq<Effect>, source: Fighter, target: Fighter) -> Seq<
    (bool, Consequence),
>
    decreases effects.len(),
{
    if effects.len() == 0 {
        seq![]
    } else {
        outcomes(effects.drop_last(), source, target) + effects.last().outcome(source, target)
    }
}

impl Weapon {
    pub fn get_effects(&self) -> (r: &Vec<Effect>)
        ensures
            r@ == self.effects@,
    {
        &self.effects
    }

    pub fn get_name(&self) -> (r: &String)
        ensures
            r@ == self.name@,
    {
        &self.name
    }

    /// The consequences of every effect of the weapon, in order.
    pub fn use_on_target(&self, source: &Fighter, target: &Fighter) -> (r: Vec<(bool, Consequence)>)
        ensures
            r@ == outcomes(self.effects@, *source, *target),
    {
        let mut consequences = Vec::new();
        let mut i: usize = 0;
        while i < self.effects.len()
            invariant
                0 <= i <= self.effects@.len(),
                consequences@ == outcomes(self.effects@.take(i as int), *source, *target),
            decreases self.effects@.len() - i,
        {
            let mut more = self.effects[i].apply_on_target(source, target);
            consequences.append(&mut more);
            proof {
                assert(self.effects@.take(i + 1).drop_last() =~= self.effects@.take(i as int));
            }
            i += 1;
        }
        proof {
            assert(self.effects@.take(i as int) =~= self.effects@);
        }
        consequences
    }
}

impl Consequence {
    /// The fighter after the consequence: a dead fighter is left as it is.
    pub open spec fn applied(self, f: Fighter) -> Fighter {
        if !f.alive {
            f
        } else {
            match self {
                Consequence::Attack { attack, defense, damage } => f.damaged(
                    dealt(attack, defense, damage),
                ),
                Consequence::Buff { stat, amount, .. } => f.buffed(stat, amount),
            }
        }
    }

    /// Applies the consequence; on a dead fighter it does nothing.
    pub fn apply_on(&self, fighter: &mut Fighter)
        ensures
            *final(fighter) == self.applied(*old(fighter)),
    {
        if !fighter.alive {
            return;
        }
        match self {
            Consequence::Attack { attack, defense, damage } => {
                let d = damage_dealt(*attack, *defense, *damage);
                fighter.damage(d);
            },
            Consequence::Buff { stat, amount, .. } => {
                let v = shift(fighter.stats.get(*stat), *amount);
                fighter.set_stat(*stat, v);
            },
        }
    }
}

} // verus!
