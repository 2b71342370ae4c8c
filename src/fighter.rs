use vstd::prelude::*;

use crate::effect::{Consequence, Weapon};
use crate::fight::{Fight, FighterID};
use crate::rule::{Rule, Status};
use crate::stats::{AttackType, Element, Stat, StatWeights, Stats};

verus! {

/// A participant in a fight.
pub struct Fighter {
    pub name: String,
    /// The permanent stats.
    pub base_stats: Stats,
    /// The working copy of the stats for the current turn.
    pub stats: Stats,
    pub alive: bool,
    /// The rules, by priority.
    pub rules: Vec<Rule>,
    /// The rule taken when no rule of `rules` holds.
    pub default_rule: Rule,
    pub weapon: Option<Weapon>,
    /// The status effects currently active.
    pub statuses: Vec<Status>,
}

/// The first rule of `rules` whose gate holds, or `default`.
pub open spec fn first_rule(
    rules: Seq<Rule>,
    default: Rule,
    active: FighterID,
    turn: u8,
    roster: Seq<(FighterID, Fighter)>,
) -> Rule
    decreases rules.len(),
{
    if rules.len() == 0 {
        default
    } else if rules[0].gate.holds(active, turn, roster) {
        rules[0]
    } else {
        first_rule(rules.drop_first(), default, active, turn, roster)
    }
}

/// When no rule of a fighter ever holds, the rule taken is its default rule.
pub proof fn lemma_no_match_gives_default(
    rules: Seq<Rule>,
    default: Rule,
    active: FighterID,
    turn: u8,
    roster: Seq<(FighterID, Fighter)>,
)
    requires
        forall|i: int| 0 <= i < rules.len() ==> !(#[trigger] rules[i]).gate.holds(active, turn, roster),
    ensures
        first_rule(rules, default, active, turn, roster) == default,
    decreases rules.len(),
{
    if rules.len() > 0 {
        assert(!rules[0].gate.holds(active, turn, roster));
        let rest = rules.drop_first();
        assert forall|i: int| 0 <= i < rest.len() implies !(#[trigger] rest[i]).gate.holds(
            active,
            turn,
            roster,
        ) by {
            assert(rest[i] == rules[i + 1]);
        }
        lemma_no_match_gives_default(rest, default, active, turn, roster);
    }
}

/// A stats record with one stat replaced.
pub open spec fn with_stat(s: Stats, stat: Stat, v: u16) -> Stats {
    match stat {
        Stat::Health => Stats { health: v, ..s },
        Stat::Attack => Stats { attack: v, ..s },
        Stat::Defense => Stats { defense: v, ..s },
        Stat::Speed => Stats { speed: v, ..s },
        Stat::Nature => Stats { nature: v, ..s },
        Stat::Demon => Stats { demon: v, ..s },
    }
}

impl Fighter {
    /// A fighter is alive exactly while its health is above zero, and its
    /// rules are well formed.
    pub open spec fn wf(self) -> bool {
        &&& self.alive == (self.stats.health > 0)
        &&& forall|i: int| 0 <= i < self.rules@.len() ==> (#[trigger] self.rules@[i]).wf()
        &&& self.default_rule.wf()
    }

    /// The attack power (or, with `defending`, the defense power) of one kind
    /// of attack and one element.
    pub open spec fn power(self, attack_type: AttackType, element: Element, defending: bool) -> u16 {
        self.stats.calc_spec(StatWeights::table(attack_type, element, defending)) as u16
    }

    /// The fighter after losing `amount` health: at zero it is dead.
    pub open spec fn damaged(self, amount: int) -> Fighter {
        if amount >= self.stats.health {
            Fighter { stats: Stats { health: 0, ..self.stats }, alive: false, ..self }
        } else {
            Fighter { stats: Stats { health: (self.stats.health - amount) as u16, ..self.stats }, ..self }
        }
    }

    /// The fighter after a signed change of one stat, clamped to `u16`; a
    /// change of health that reaches zero kills.
    pub open spec fn buffed(self, stat: Stat, amount: i32) -> Fighter {
        let v = crate::effect::shifted(self.stats.value(stat), amount);
        match stat {
            Stat::Health => Fighter { stats: with_stat(self.stats, stat, v), alive: v > 0, ..self },
            _ => Fighter { stats: with_stat(self.stats, stat, v), ..self },
        }
    }

    /// The fighter at the start of its turn: every stat but health is taken
    /// back from the base stats.
    pub open spec fn refreshed(self) -> Fighter {
        Fighter { stats: self.stats.reset_from(self.base_stats), ..self }
    }

    /// The consequence of taking a defensive stance: defense raised by the
    /// base defense until the fighter's next turn.
    pub open spec fn defense_spec(self) -> Consequence {
        Consequence::Buff { stat: Stat::Defense, amount: self.base_stats.defense as i32, duration: 0 }
    }

    /// The rule that the fighter `active` follows in a fight at `turn`.
    pub open spec fn rule_spec(self, active: FighterID, turn: u8, roster: Seq<(FighterID, Fighter)>) -> Rule {
        first_rule(self.rules@, self.default_rule, active, turn, roster)
    }

    /// A fighter at full stats, alive when its health is above zero.
    pub fn new(name: String, stats: Stats, rules: Vec<Rule>, default_rule: Rule, weapon: Option<Weapon>) -> (r: Self)
        ensures
            r.name == name,
            r.base_stats == stats,
            r.stats == stats,
            r.alive == (stats.health > 0),
            r.rules == rules,
            r.default_rule == default_rule,
            r.weapon == weapon,
            r.statuses@ == Seq::<Status>::empty(),
    {
        Fighter {
            name,
            base_stats: stats,
            stats,
            alive: stats.health > 0,
            rules,
            default_rule,
            weapon,
            statuses: Vec::new(),
        }
    }

    /// Start-of-turn bookkeeping: what the last turn changed expires.
    pub fn turn(&mut self)
        ensures
            *final(self) == old(self).refreshed(),
    {
        let base = self.base_stats;
        self.stats.reset(base);
    }

    /// Whether the fighter is well formed: alive exactly while its health is
    /// above zero, with well-formed rules.
    pub fn is_valid(&self) -> (r: bool)
        ensures
            r == self.wf(),
    {
        if self.alive != (self.stats.health > 0) || !self.default_rule.gate.is_valid() {
            return false;
        }
        let mut i: usize = 0;
        while i < self.rules.len()
            invariant
                0 <= i <= self.rules@.len(),
                forall|j: int| 0 <= j < i ==> (#[trigger] self.rules@[j]).wf(),
            decreases self.rules@.len() - i,
        {
            if !self.rules[i].gate.is_valid() {
                return false;
            }
            i += 1;
        }
        true
    }

    pub fn get_name(&self) -> (r: &String)
        ensures
            r@ == self.name@,
    {
        &self.name
    }

    pub fn get_stat(&self, stat: &Stat) -> (r: u16)
        ensures
            r == self.stats.value(*stat),
    {
        self.stats.get(*stat)
    }

    /// The first rule whose gate holds for the fighter `active` in `fight`, or
    /// the default rule.
    pub fn get_rule(&self, active: &FighterID, fight: &Fight) -> (r: Rule)
        requires
            self.wf(),
        ensures
            r == self.rule_spec(*active, fight.turn, fight.fighters@),
    {
        let ghost rules = self.rules@;
        let mut i: usize = 0;
        assert(rules.subrange(0, rules.len() as int) =~= rules);
        while i < self.rules.len()
            invariant
                0 <= i <= rules.len(),
                rules == self.rules@,
                self.wf(),
                first_rule(rules, self.default_rule, *active, fight.turn, fight.fighters@)
                    == first_rule(rules.subrange(i as int, rules.len() as int), self.default_rule, *active, fight.turn, fight.fighters@),
            decreases rules.len() - i,
        {
            let rule = self.rules[i];
            let ghost rest = rules.subrange(i as int, rules.len() as int);
            assert(rest[0] == rule);
            if rule.check(active, fight) {
                return rule;
            }
            assert(rest.drop_first() =~= rules.subrange(i + 1, rules.len() as int));
            i += 1;
        }
        self.default_rule
    }

    pub fn set_rules(&mut self, rules: Vec<Rule>)
        ensures
            *final(self) == (Fighter { rules, ..*old(self) }),
    {
        self.rules = rules;
    }

    pub fn is_alive(&self) -> (r: bool)
        ensures
            r == self.alive,
    {
        self.alive
    }

    pub fn has_status(&self, status: Status) -> (r: bool)
        ensures
            r == self.statuses@.contains(status),
    {
        let mut i: usize = 0;
        while i < self.statuses.len()
            invariant
                0 <= i <= self.statuses@.len(),
                forall|j: int| 0 <= j < i ==> self.statuses@[j] != status,
            decreases self.statuses@.len() - i,
        {
            if self.statuses[i] == status {
                return true;
            }
            i += 1;
        }
        false
    }

    /// Loses `amount` health; at zero the fighter dies.
    pub fn damage(&mut self, amount: u16)
        ensures
            *final(self) == old(self).damaged(amount as int),
    {
        if amount >= self.stats.health {
            self.stats.health = 0;
            self.alive = false;
        } else {
            self.stats.health = self.stats.health - amount;
        }
    }

    /// Sets one stat of the working copy; setting health also decides whether
    /// the fighter is alive.
    pub fn set_stat(&mut self, stat: Stat, v: u16)
        ensures
            *final(self) == (match stat {
                Stat::Health => Fighter { stats: with_stat(old(self).stats, stat, v), alive: v > 0, ..*old(self) },
                _ => Fighter { stats: with_stat(old(self).stats, stat, v), ..*old(self) },
            }),
    {
        match stat {
            Stat::Health => {
                self.stats.health = v;
                self.alive = v > 0;
            },
            Stat::Attack => self.stats.attack = v,
            Stat::Defense => self.stats.defense = v,
            Stat::Speed => self.stats.speed = v,
            Stat::Nature => self.stats.nature = v,
            Stat::Demon => self.stats.demon = v,
        }
    }

    /// The attack power (or, with `defending`, the defense power) of one kind
    /// of attack and one element, from the current stats.
    pub fn power_of(&self, attack_type: AttackType, element: Element, defending: bool) -> (r: u16)
        ensures
            r == self.power(attack_type, element, defending),
    {
        let w = StatWeights::for_power(attack_type, element, defending);
        proof {
            StatWeights::lemma_table_positive(attack_type, element, defending);
        }
        self.stats.calc(w)
    }

    pub fn physical_attack(&self, element: &Element) -> (r: u16)
        ensures
            r == self.power(AttackType::Physical, *element, false),
    {
        self.power_of(AttackType::Physical, *element, false)
    }

    pub fn physical_defense(&self, element: &Element) -> (r: u16)
        ensures
            r == self.power(AttackType::Physical, *element, true),
    {
        self.power_of(AttackType::Physical, *element, true)
    }

    pub fn magical_attack(&self, element: &Element) -> (r: u16)
        ensures
            r == self.power(AttackType::Magical, *element, false),
    {
        self.power_of(AttackType::Magical, *element, false)
    }

    pub fn magical_defense(&self, element: &Element) -> (r: u16)
        ensures
            r == self.power(AttackType::Magical, *element, true),
    {
        self.power_of(AttackType::Magical, *element, true)
    }

    /// The consequence of taking a defensive stance.
    pub fn defense(&self) -> (r: Consequence)
        ensures
            r == self.defense_spec(),
    {
        Consequence::Buff { stat: Stat::Defense, amount: self.base_stats.defense as i32, duration: 0 }
    }
}

} // verus!
