use vstd::prelude::*;

use crate::effect::{Effect, Weapon};
use crate::fighter::Fighter;
use crate::rule::{Action, Condition, Gate, Rule, Target};
use crate::stats::{AttackType, Element, Stat, Stats};

verus! {

/// The named rules of the catalogue.
#[derive(Debug, Clone, Copy, PartialEq, Eq, Structural)]
pub enum AllRules {
    /// Wait, every turn.
    Default,
    /// Defend, every turn.
    Defense,
    /// Attack the foe with the least health, every second turn.
    Attack2,
    /// Defend on every second turn while low on health.
    Careful,
}

/// The named weapons of the catalogue.
#[derive(Debug, Clone, Copy, PartialEq, Eq, Structural)]
pub enum AllWeapons {
    WoodenSword,
    FireRod,
}

/// The named fighters of the catalogue.
#[derive(Debug, Clone, Copy, PartialEq, Eq, Structural)]
pub enum Fighters {
    Arches,
    Bat,
}

impl AllRules {
    pub open spec fn rule(self) -> Rule {
        match self {
            AllRules::Default => Rule { gate: Gate::ID(Condition::EveryXTurn(1)), action: Action::Wait },
            AllRules::Defense => Rule {
                gate: Gate::ID(Condition::EveryXTurn(1)),
                action: Action::Defense,
            },
            AllRules::Attack2 => Rule {
                gate: Gate::ID(Condition::EveryXTurn(2)),
                action: Action::Attack(Target::FoeLess(Stat::Health)),
            },
            AllRules::Careful => Rule {
                gate: Gate::AND(Condition::EveryXTurn(2), Condition::LessXHP(30, Target::Them)),
                action: Action::Defense,
            },
        }
    }

    pub fn new(self) -> (r: Rule)
        ensures
            r == self.rule(),
            r.wf(),
    {
        match self {
            AllRules::Default => Rule { gate: Gate::ID(Condition::EveryXTurn(1)), action: Action::Wait },
            AllRules::Defense => Rule {
                gate: Gate::ID(Condition::EveryXTurn(1)),
                action: Action::Defense,
            },
            AllRules::Attack2 => Rule {
                gate: Gate::ID(Condition::EveryXTurn(2)),
                action: Action::Attack(Target::FoeLess(Stat::Health)),
            },
            AllRules::Careful => Rule {
                gate: Gate::AND(Condition::EveryXTurn(2), Condition::LessXHP(30, Target::Them)),
                action: Action::Defense,
            },
        }
    }
}

impl AllWeapons {
    pub open spec fn effects(self) -> Seq<Effect> {
        match self {
            AllWeapons::WoodenSword => seq![
                Effect::Attack {
                    on_self: false,
                    attack_type: AttackType::Physical,
                    element: Element::Natural,
                    damage: 10,
                },
            ],
            AllWeapons::FireRod => seq![
                Effect::Attack {
                    on_self: false,
                    attack_type: AttackType::Magical,
                    element: Element::Demonic,
                    damage: 15,
                },
                Effect::Boost { on_self: false, stat: Stat::Defense, amount: -5 as i32, duration: 1 },
            ],
        }
    }

    pub fn new(self) -> (r: Weapon)
        ensures
            r.effects@ == self.effects(),
    {
        let mut effects = Vec::new();
        match self {
            AllWeapons::WoodenSword => {
                effects.push(
                    Effect::Attack {
                        on_self: false,
                        attack_type: AttackType::Physical,
                        element: Element::Natural,
                        damage: 10,
                    },
                );
                proof {
                    assert(effects@ =~= self.effects());
                }
                Weapon { name: "Wooden Sword".to_owned(), effects }
            },
            AllWeapons::FireRod => {
                effects.push(
                    Effect::Attack {
                        on_self: false,
                        attack_type: AttackType::Magical,
                        element: Element::Demonic,
                        damage: 15,
                    },
                );
                effects.push(Effect::Boost { on_self: false, stat: Stat::Defense, amount: -5, duration: 1 });
                proof {
                    assert(effects@ =~= self.effects());
                }
                Weapon { name: "Fire Rod".to_owned(), effects }
            },
        }
    }
}

impl Fighters {
    pub open spec fn stats(self) -> Stats {
        match self {
            Fighters::Arches => Stats { health: 100, attack: 5, defense: 10, nature: 10, demon: 0, speed: 10 },
            Fighters::Bat => Stats { health: 60, attack: 8, defense: 15, nature: 5, demon: 8, speed: 4 },
        }
    }

    /// A catalogue fighter: its stats, one rule (attack every second turn), a
    /// wooden sword, and waiting as the default.
    pub fn new(self) -> (r: Fighter)
        ensures
            r.stats == self.stats(),
            r.base_stats == self.stats(),
            r.rules@ == seq![AllRules::Attack2.rule()],
            r.default_rule == AllRules::Default.rule(),
            r.weapon matches Some(w) && w.effects@ == AllWeapons::WoodenSword.effects(),
            r.wf(),
    {
        let mut rules = Vec::new();
        rules.push(AllRules::Attack2.new());
        proof {
            assert(rules@ =~= seq![AllRules::Attack2.rule()]);
        }
        let (name, stats) = match self {
            Fighters::Arches => ("Arches".to_owned(), Stats::new(100, 5, 10, 10, 0, 10)),
            Fighters::Bat => ("Bat".to_owned(), Stats::new(60, 8, 15, 5, 8, 4)),
        };
        Fighter::new(name, stats, rules, AllRules::Default.new(), Some(AllWeapons::WoodenSword.new()))
    }
}

/// A fighter with no rule and no weapon, which only ever waits.
pub fn dummy_fighter() -> (r: Fighter)
    ensures
        r.stats == dummy_stats(),
        r.base_stats == r.stats,
        r.alive,
        r.rules@.len() == 0,
        r.default_rule == AllRules::Default.rule(),
        r.weapon is None,
        r.statuses@.len() == 0,
        r.wf(),
{
    Fighter::new(
        "Arches".to_owned(),
        Stats::new(20, 10, 2, 0, 0, 0),
        Vec::new(),
        AllRules::Default.new(),
        None,
    )
}

/// The dummy fighter renamed, with base speed and base defense of 5; its
/// working stats stay those of the dummy until its first turn.
pub fn dummy_foe() -> (r: Fighter)
    ensures
        r.stats == dummy_stats(),
        r.base_stats == (Stats { speed: 5, defense: 5, ..dummy_stats() }),
        r.alive,
        r.rules@.len() == 0,
        r.default_rule == AllRules::Default.rule(),
        r.weapon is None,
        r.wf(),
{
    let mut foe = dummy_fighter();
    foe.name = "Azazel".to_owned();
    foe.base_stats.speed = 5;
    foe.base_stats.defense = 5;
    foe
}

pub open spec fn dummy_stats() -> Stats {
    Stats { health: 20, attack: 10, defense: 2, nature: 0, demon: 0, speed: 0 }
}

} // verus!
