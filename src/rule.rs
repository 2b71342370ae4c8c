use vstd::prelude::*;

use crate::effect::{outcomes, Consequence};
use crate::fight::{slot, Fight, FighterID};
use crate::fighter::Fighter;
use crate::stats::Stat;

verus! {

/// A status effect that can be active on a fighter.
#[derive(Debug, Clone, Copy, PartialEq, Eq, Structural)]
pub enum Status {
    Poisoned,
}

/// A rule: when its gate holds, its action is performed.
#[derive(Debug, Clone, Copy, PartialEq, Eq, Structural)]
pub struct Rule {
    pub gate: Gate,
    pub action: Action,
}

/// A boolean combinator over one or two conditions.
#[derive(Debug, Clone, Copy, PartialEq, Eq, Structural)]
pub enum Gate {
    ID(Condition),
    NOT(Condition),
    AND(Condition, Condition),
    NAND(Condition, Condition),
    OR(Condition, Condition),
    XOR(Condition, Condition),
    NOR(Condition, Condition),
    NXOR(Condition, Condition),
}

/// An atomic predicate over the state of a fight.
#[derive(Debug, Clone, Copy, PartialEq, Eq, Structural)]
pub enum Condition {
    /// The turn is a multiple of the number (which is never zero).
    EveryXTurn(u8),
    /// The turn is exactly the number.
    OnTurn(u8),
    /// The turn is at least the number.
    FromTurnX(u8),
    /// The target's health is below the number.
    LessXHP(u8, Target),
    /// The target's health is above the number.
    MoreXHP(u8, Target),
    /// The status is active on the target.
    HasStatus(Target, Status),
}

/// What a fighter does on its turn.
#[derive(Debug, Clone, Copy, PartialEq, Eq, Structural)]
pub enum Action {
    Attack(Target),
    Defense,
    Wait,
}

/// A strategy that picks a fighter from the roster.
#[derive(Debug, Clone, Copy, PartialEq, Eq, Structural)]
pub enum Target {
    /// The acting fighter itself.
    Them,
    /// The fighter of the acting fighter's side with the most of a stat.
    AllyMost(Stat),
    /// The fighter of the acting fighter's side with the least of a stat.
    AllyLess(Stat),
    /// The fighter of the other side with the most of a stat.
    FoeMost(Stat),
    /// The fighter of the other side with the least of a stat.
    FoeLess(Stat),
}

impl Condition {
    /// A condition is well formed when no turn modulus is zero.
    pub open spec fn wf(self) -> bool {
        match self {
            Condition::EveryXTurn(n) => n > 0,
            _ => true,
        }
    }

    /// Whether the condition holds for the fighter `active` in a fight at
    /// `turn` with `roster`.
    pub open spec fn holds(
        self,
        active: FighterID,
        turn: u8,
        roster: Seq<(FighterID, Fighter)>,
    ) -> bool {
        match self {
            Condition::EveryXTurn(n) => turn as int % n as int == 0,
            Condition::OnTurn(n) => turn == n,
            Condition::FromTurnX(n) => turn >= n,
            Condition::LessXHP(n, t) => {
                let k = slot(roster, t.resolve_spec(active, roster));
                k >= 0 && roster[k].1.stats.health < n
            },
            Condition::MoreXHP(n, t) => {
                let k = slot(roster, t.resolve_spec(active, roster));
                k >= 0 && roster[k].1.stats.health > n
            },
            Condition::HasStatus(t, s) => {
                let k = slot(roster, t.resolve_spec(active, roster));
                k >= 0 && roster[k].1.statuses@.contains(s)
            },
        }
    }

    /// Whether the condition is well formed.
    pub fn is_valid(&self) -> (r: bool)
        ensures
            r == self.wf(),
    {
        match self {
            Condition::EveryXTurn(n) => *n > 0,
            _ => true,
        }
    }

    /// The condition that holds on every `n`-th turn.
    pub fn every_x_turn(n: u8) -> (r: Condition)
        requires
            n > 0,
        ensures
            r == Condition::EveryXTurn(n),
            r.wf(),
    {
        Condition::EveryXTurn(n)
    }

    /// Evaluates the condition; health is compared as an absolute value, and a
    /// target that resolves to no fighter makes the health and status
    /// conditions false.
    pub fn check(&self, active: &FighterID, fight: &Fight) -> (r: bool)
        requires
            self.wf(),
        ensures
            r == self.holds(*active, fight.turn, fight.fighters@),
    {
        match self {
            Condition::EveryXTurn(n) => fight.turn % *n == 0,
            Condition::OnTurn(n) => fight.turn == *n,
            Condition::FromTurnX(n) => fight.turn >= *n,
            Condition::LessXHP(n, t) => {
                let id = t.resolve(active, fight);
                match fight.get_fighter(id) {
                    Some(f) => f.stats.health < *n as u16,
                    None => false,
                }
            },
            Condition::MoreXHP(n, t) => {
                let id = t.resolve(active, fight);
                match fight.get_fighter(id) {
                    Some(f) => f.stats.health > *n as u16,
                    None => false,
                }
            },
            Condition::HasStatus(t, s) => {
                let id = t.resolve(active, fight);
                match fight.get_fighter(id) {
                    Some(f) => f.has_status(*s),
                    None => false,
                }
            },
        }
    }
}

/// On every turn, the condition that holds every `n`-th turn holds exactly
/// when the turn is a multiple of `n`.
pub proof fn lemma_every_x_turn(n: u8, turn: u8, active: FighterID, roster: Seq<(FighterID, Fighter)>)
    requires
        n > 0,
    ensures
        Condition::EveryXTurn(n).wf(),
        Condition::EveryXTurn(n).holds(active, turn, roster) <==> turn as int % n as int == 0,
{
}

impl Gate {
    pub open spec fn wf(self) -> bool {
        match self {
            Gate::ID(c) => c.wf(),
            Gate::NOT(c) => c.wf(),
            Gate::AND(c1, c2) => c1.wf() && c2.wf(),
            Gate::NAND(c1, c2) => c1.wf() && c2.wf(),
            Gate::OR(c1, c2) => c1.wf() && c2.wf(),
            Gate::XOR(c1, c2) => c1.wf() && c2.wf(),
            Gate::NOR(c1, c2) => c1.wf() && c2.wf(),
            Gate::NXOR(c1, c2) => c1.wf() && c2.wf(),
        }
    }

    /// The truth table of each combinator.
    pub open spec fn holds(
        self,
        active: FighterID,
        turn: u8,
        roster: Seq<(FighterID, Fighter)>,
    ) -> bool {
        match self {
            Gate::ID(c) => c.holds(active, turn, roster),
            Gate::NOT(c) => !c.holds(active, turn, roster),
            Gate::AND(c1, c2) => c1.holds(active, turn, roster) && c2.holds(active, turn, roster),
            Gate::NAND(c1, c2) => !(c1.holds(active, turn, roster) && c2.holds(
                active,
                turn,
                roster,
            )),
            Gate::OR(c1, c2) => c1.holds(active, turn, roster) || c2.holds(active, turn, roster),
            Gate::XOR(c1, c2) => c1.holds(active, turn, roster) != c2.holds(active, turn, roster),
            Gate::NOR(c1, c2) => !(c1.holds(active, turn, roster) || c2.holds(
                active,
                turn,
                roster,
            )),
            Gate::NXOR(c1, c2) => c1.holds(active, turn, roster) == c2.holds(active, turn, roster),
        }
    }

    /// Whether every condition of this combinator is well formed.
    pub fn is_valid(&self) -> (r: bool)
        ensures
            r == self.wf(),
    {
        match self {
            Gate::ID(c) => c.is_valid(),
            Gate::NOT(c) => c.is_valid(),
            Gate::AND(c1, c2) => c1.is_valid() && c2.is_valid(),
            Gate::NAND(c1, c2) => c1.is_valid() && c2.is_valid(),
            Gate::OR(c1, c2) => c1.is_valid() && c2.is_valid(),
            Gate::XOR(c1, c2) => c1.is_valid() && c2.is_valid(),
            Gate::NOR(c1, c2) => c1.is_valid() && c2.is_valid(),
            Gate::NXOR(c1, c2) => c1.is_valid() && c2.is_valid(),
        }
    }

    pub fn check(&self, active: &FighterID, fight: &Fight) -> (r: bool)
        requires
            self.wf(),
        ensures
            r == self.holds(*active, fight.turn, fight.fighters@),
    {
        match self {
            Gate::ID(c) => c.check(active, fight),
            Gate::NOT(c) => !c.check(active, fight),
            Gate::AND(c1, c2) => c1.check(active, fight) && c2.check(active, fight),
            Gate::NAND(c1, c2) => !(c1.check(active, fight) && c2.check(active, fight)),
            Gate::OR(c1, c2) => c1.check(active, fight) || c2.check(active, fight),
            Gate::XOR(c1, c2) => c1.check(active, fight) != c2.check(active, fight),
            Gate::NOR(c1, c2) => !(c1.check(active, fight) || c2.check(active, fight)),
            Gate::NXOR(c1, c2) => c1.check(active, fight) == c2.check(active, fight),
        }
    }
}

impl Rule {
    pub open spec fn wf(self) -> bool {
        self.gate.wf()
    }

    pub fn check(&self, active: &FighterID, fight: &Fight) -> (r: bool)
        requires
            self.wf(),
        ensures
            r == self.gate.holds(*active, fight.turn, fight.fighters@),
    {
        self.gate.check(active, fight)
    }

    pub fn get_action(&self) -> (r: &Action)
        ensures
            *r == self.action,
    {
        &self.action
    }
}

/// Whether `id` stands on the side the target looks at: the acting fighter's
/// own side (`allies`) or the other one.
pub open spec fn on_side(active: FighterID, id: FighterID, allies: bool) -> bool {
    (id.is_ally_spec() == active.is_ally_spec()) == allies
}

/// The roster entry `i` is on the side and holds the most (or, without `most`,
/// the least) of `stat` there, and no entry before it on that side ties it.
pub open spec fn best_at(
    roster: Seq<(FighterID, Fighter)>,
    active: FighterID,
    allies: bool,
    stat: Stat,
    most: bool,
    i: int,
) -> bool {
    &&& 0 <= i < roster.len()
    &&& on_side(active, roster[i].0, allies)
    &&& forall|j: int|
        0 <= j < roster.len() && on_side(active, roster[j].0, allies) ==> if most {
            roster[j].1.stats.value(stat) <= roster[i].1.stats.value(stat)
        } else {
            roster[j].1.stats.value(stat) >= roster[i].1.stats.value(stat)
        }
    &&& forall|j: int|
        0 <= j < i && on_side(active, roster[j].0, allies) ==> if most {
            roster[j].1.stats.value(stat) < roster[i].1.stats.value(stat)
        } else {
            roster[j].1.stats.value(stat) > roster[i].1.stats.value(stat)
        }
}

/// The id of the first fighter of the side with the most (or least) of
/// `stat`, or `FighterID::Nobody` when that side is empty.
pub open spec fn extreme(
    roster: Seq<(FighterID, Fighter)>,
    active: FighterID,
    allies: bool,
    stat: Stat,
    most: bool,
) -> FighterID {
    if exists|i: int| best_at(roster, active, allies, stat, most, i) {
        roster[choose|i: int| best_at(roster, active, allies, stat, most, i)].0
    } else {
        FighterID::Nobody
    }
}

proof fn lemma_best_unique(
    roster: Seq<(FighterID, Fighter)>,
    active: FighterID,
    allies: bool,
    stat: Stat,
    most: bool,
    i: int,
)
    requires
        best_at(roster, active, allies, stat, most, i),
    ensures
        extreme(roster, active, allies, stat, most) == roster[i].0,
{
    let c = choose|c: int| best_at(roster, active, allies, stat, most, c);
    if c < i {
        assert(on_side(active, roster[c].0, allies));
    } else if i < c {
        assert(on_side(active, roster[i].0, allies));
    }
}

/// Finds the first fighter of a side with the most (or least) of a stat.
fn find_extreme(
    fight: &Fight,
    active: &FighterID,
    allies: bool,
    stat: Stat,
    most: bool,
) -> (r: FighterID)
    ensures
        r == extreme(fight.fighters@, *active, allies, stat, most),
{
    let ghost roster = fight.fighters@;
    let mut best: Option<usize> = None;
    let mut i: usize = 0;
    while i < fight.fighters.len()
        invariant
            roster == fight.fighters@,
            0 <= i <= roster.len(),
            match best {
                Some(b) => {
                    &&& b < i
                    &&& on_side(*active, roster[b as int].0, allies)
                    &&& forall|j: int|
                        0 <= j < i && on_side(*active, roster[j].0, allies) ==> if most {
                            roster[j].1.stats.value(stat) <= roster[b as int].1.stats.value(stat)
                        } else {
                            roster[j].1.stats.value(stat) >= roster[b as int].1.stats.value(stat)
                        }
                    &&& forall|j: int|
                        0 <= j < b && on_side(*active, roster[j].0, allies) ==> if most {
                            roster[j].1.stats.value(stat) < roster[b as int].1.stats.value(stat)
                        } else {
                            roster[j].1.stats.value(stat) > roster[b as int].1.stats.value(stat)
                        }
                },
                None => forall|j: int| 0 <= j < i ==> !on_side(*active, #[trigger] roster[j].0, allies),
            },
        decreases roster.len() - i,
    {
        let id = fight.fighters[i].0;
        if (id.is_ally() == active.is_ally()) == allies {
            let v = fight.fighters[i].1.stats.get(stat);
            match best {
                None => {
                    best = Some(i);
                },
                Some(b) => {
                    let w = fight.fighters[b].1.stats.get(stat);
                    if (most && v > w) || (!most && v < w) {
                        best = Some(i);
                    }
                },
            }
        }
        i += 1;
    }
    match best {
        Some(b) => {
            proof {
                lemma_best_unique(roster, *active, allies, stat, most, b as int);
            }
            fight.fighters[b].0
        },
        None => {
            proof {
                if exists|c: int| best_at(roster, *active, allies, stat, most, c) {
                    let c = choose|c: int| best_at(roster, *active, allies, stat, most, c);
                    assert(!on_side(*active, roster[c].0, allies));
                }
            }
            FighterID::Nobody
        },
    }
}

impl Target {
    /// The fighter that the target designates for `active`.
    pub open spec fn resolve_spec(self, active: FighterID, roster: Seq<(FighterID, Fighter)>) -> FighterID {
        match self {
            Target::Them => active,
            Target::AllyMost(s) => extreme(roster, active, true, s, true),
            Target::AllyLess(s) => extreme(roster, active, true, s, false),
            Target::FoeMost(s) => extreme(roster, active, false, s, true),
            Target::FoeLess(s) => extreme(roster, active, false, s, false),
        }
    }

    /// Resolves the target against the current roster. Ties go to the first
    /// fighter in roster order; an empty side gives `FighterID::Nobody`.
    pub fn resolve(&self, active: &FighterID, fight: &Fight) -> (r: FighterID)
        ensures
            r == self.resolve_spec(*active, fight.fighters@),
    {
        match self {
            Target::Them => *active,
            Target::AllyMost(s) => find_extreme(fight, active, true, *s, true),
            Target::AllyLess(s) => find_extreme(fight, active, true, *s, false),
            Target::FoeMost(s) => find_extreme(fight, active, false, *s, true),
            Target::FoeLess(s) => find_extreme(fight, active, false, *s, false),
        }
    }
}

/// When the roster holds no fighter of the other side, a target among the
/// foes resolves to `FighterID::Nobody`, and an attack at no fighter has no
/// consequence.
pub proof fn lemma_no_foe_no_target(
    active: FighterID,
    roster: Seq<(FighterID, Fighter)>,
    stat: Stat,
    performer: Fighter,
)
    requires
        forall|i: int| 0 <= i < roster.len() ==> !on_side(active, #[trigger] roster[i].0, false),
    ensures
        Target::FoeMost(stat).resolve_spec(active, roster) == FighterID::Nobody,
        Target::FoeLess(stat).resolve_spec(active, roster) == FighterID::Nobody,
        Action::Attack(Target::FoeMost(stat)).outcome(performer, None) == Seq::<(bool, Consequence)>::empty(),
        Action::Attack(Target::FoeLess(stat)).outcome(performer, None) == Seq::<(bool, Consequence)>::empty(),
{
    assert(!exists|i: int| best_at(roster, active, false, stat, true, i));
    assert(!exists|i: int| best_at(roster, active, false, stat, false, i));
    assert(Action::Attack(Target::FoeMost(stat)).outcome(performer, None) =~= seq![]);
    assert(Action::Attack(Target::FoeLess(stat)).outcome(performer, None) =~= seq![]);
}

impl Action {
    /// The fighter that the action is aimed at.
    pub open spec fn target_spec(self, active: FighterID, roster: Seq<(FighterID, Fighter)>) -> FighterID {
        match self {
            Action::Attack(t) => t.resolve_spec(active, roster),
            _ => active,
        }
    }

    pub fn get_target(&self, active: &FighterID, fight: &Fight) -> (r: FighterID)
        ensures
            r == self.target_spec(*active, fight.fighters@),
    {
        match self {
            Action::Wait | Action::Defense => *active,
            Action::Attack(target) => target.resolve(active, fight),
        }
    }
}

impl Action {
    /// The consequences of the action of `performer` aimed at `target` (none
    /// when the target is no fighter).
    pub open spec fn outcome(self, performer: Fighter, target: Option<Fighter>) -> Seq<(bool, Consequence)> {
        match self {
            Action::Wait => seq![],
            Action::Defense => seq![(true, performer.defense_spec())],
            Action::Attack(_) => match (performer.weapon, target) {
                (Some(w), Some(t)) => outcomes(w.effects@, performer, t),
                _ => seq![],
            },
        }
    }

    /// Executes the action: waiting does nothing, defending raises the
    /// performer's defense, attacking uses the performer's weapon, if any, on
    /// the target, if any.
    pub fn execute(&self, active: &Fighter, target: Option<&Fighter>) -> (r: Vec<(bool, Consequence)>)
        ensures
            r@ == self.outcome(
                *active,
                match target {
                    Some(t) => Some(*t),
                    None => None,
                },
            ),
    {
        match self {
            Action::Wait => Vec::new(),
            Action::Defense => {
                let mut v = Vec::new();
                v.push((true, active.defense()));
                proof {
                    assert(v@ =~= seq![(true, active.defense_spec())]);
                }
                v
            },
            Action::Attack(_) => match (&active.weapon, target) {
                (Some(w), Some(t)) => w.use_on_target(active, t),
                _ => Vec::new(),
            },
        }
    }
}

} // verus!
