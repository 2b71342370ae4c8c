use vstd::multiset::Multiset;
use vstd::prelude::*;

use crate::effect::Consequence;
use crate::fighter::Fighter;

verus! {

/// The outcome of a fight.
#[derive(Debug, Clone, Copy, PartialEq, Eq, Structural)]
pub enum State {
    AlliesVictory,
    EnemiesVictory,
    Draw,
}

/// A stable handle on a fighter of a fight; `Nobody` designates no fighter.
#[derive(Debug, Clone, Copy, PartialEq, Eq, Structural)]
pub enum FighterID {
    Ally(usize),
    Enemy(usize),
    Nobody,
}

/// The last turn that is played; the turn after it ends the fight in a draw.
pub const MAX_TURNS: u8 = 50;

/// A fight: the turn counter and the roster of both sides.
pub struct Fight {
    pub turn: u8,
    pub fighters: Vec<(FighterID, Fighter)>,
}

impl FighterID {
    pub open spec fn is_ally_spec(&self) -> bool {
        self is Ally
    }

    #[verifier::when_used_as_spec(is_ally_spec)]
    pub fn is_ally(&self) -> (r: bool)
        ensures
            r == self.is_ally_spec(),
    {
        match self {
            FighterID::Ally(_) => true,
            _ => false,
        }
    }
}

/// `i` is the first index of the roster that holds `id`.
pub open spec fn first_at(roster: Seq<(FighterID, Fighter)>, id: FighterID, i: int) -> bool {
    &&& 0 <= i < roster.len()
    &&& roster[i].0 == id
    &&& forall|j: int| 0 <= j < i ==> roster[j].0 != id
}

/// The first index of the roster that holds `id`, or -1.
pub open spec fn slot(roster: Seq<(FighterID, Fighter)>, id: FighterID) -> int {
    if exists|i: int| first_at(roster, id, i) {
        choose|i: int| first_at(roster, id, i)
    } else {
        -1
    }
}

proof fn lemma_slot(roster: Seq<(FighterID, Fighter)>, id: FighterID)
    ensures
        slot(roster, id) == -1 || first_at(roster, id, slot(roster, id)),
        slot(roster, id) == -1 ==> forall|i: int| 0 <= i < roster.len() ==> roster[i].0 != id,
{
    if slot(roster, id) == -1 {
        assert forall|i: int| 0 <= i < roster.len() implies roster[i].0 != id by {
            if roster[i].0 == id {
                lemma_first_exists(roster, id, i);
            }
        }
    }
}

proof fn lemma_first_exists(roster: Seq<(FighterID, Fighter)>, id: FighterID, i: int)
    requires
        0 <= i < roster.len(),
        roster[i].0 == id,
    ensures
        exists|c: int| first_at(roster, id, c),
    decreases i,
{
    if exists|j: int| 0 <= j < i && roster[j].0 == id {
        let j = choose|j: int| 0 <= j < i && roster[j].0 == id;
        lemma_first_exists(roster, id, j);
    } else {
        assert(first_at(roster, id, i));
    }
}

proof fn lemma_first_unique(roster: Seq<(FighterID, Fighter)>, id: FighterID, i: int)
    requires
        first_at(roster, id, i),
    ensures
        slot(roster, id) == i,
{
    let c = choose|c: int| first_at(roster, id, c);
    if c < i {
        assert(roster[c].0 == id);
    } else if i < c {
        assert(roster[i].0 == id);
    }
}

proof fn lemma_remove_insert<T>(s: Seq<T>, k: int, x: T)
    requires
        0 <= k < s.len(),
    ensures
        s.remove(k).insert(k, x) == s.update(k, x),
{
    assert(s.remove(k).insert(k, x) =~= s.update(k, x));
}

/// Every fighter of the side (the allies, or the others) is dead.
pub open spec fn side_down(roster: Seq<(FighterID, Fighter)>, allies: bool) -> bool {
    forall|i: int| 0 <= i < roster.len() && roster[i].0.is_ally_spec() == allies ==> !(#[trigger] roster[i]).1.alive
}

/// The allies win once every other fighter is dead; otherwise the enemies
/// win once every ally is dead; otherwise the fight goes on.
pub open spec fn check_state_spec(roster: Seq<(FighterID, Fighter)>) -> Option<State> {
    if side_down(roster, false) {
        Some(State::AlliesVictory)
    } else if side_down(roster, true) {
        Some(State::EnemiesVictory)
    } else {
        None
    }
}

/// The ids of the roster, in order.
pub open spec fn ids(roster: Seq<(FighterID, Fighter)>) -> Seq<FighterID> {
    roster.map_values(|e: (FighterID, Fighter)| e.0)
}

/// `after` holds the entries of `before`, by descending speed.
pub open spec fn speed_order(before: Seq<(FighterID, Fighter)>, after: Seq<(FighterID, Fighter)>) -> bool {
    &&& after.to_multiset() == before.to_multiset()
    &&& forall|i: int, j: int|
        0 <= i < j < after.len() ==> after[i].1.stats.speed >= after[j].1.stats.speed
}

/// The index of the last entry of greatest speed (`s` is not empty).
pub open spec fn last_fastest(s: Seq<(FighterID, Fighter)>) -> int
    decreases s.len(),
{
    if s.len() <= 1 {
        0
    } else {
        let m = last_fastest(s.drop_last());
        if s.last().1.stats.speed >= s[m].1.stats.speed {
            s.len() - 1
        } else {
            m
        }
    }
}

/// The roster sorted by descending speed: the last of the fastest entries
/// first, then the rest sorted the same way. Entries of equal speed thus come
/// out in reverse order.
pub open spec fn by_speed(s: Seq<(FighterID, Fighter)>) -> Seq<(FighterID, Fighter)>
    decreases s.len(),
{
    if s.len() == 0 {
        s
    } else {
        let m = last_fastest(s);
        if 0 <= m < s.len() {
            seq![s[m]] + by_speed(s.remove(m))
        } else {
            s
        }
    }
}

/// The roster after one consequence, which lands on the actor or on the target.
pub open spec fn apply_one(
    roster: Seq<(FighterID, Fighter)>,
    c: (bool, Consequence),
    actor: FighterID,
    target: FighterID,
) -> Seq<(FighterID, Fighter)> {
    let k = slot(roster, if c.0 { actor } else { target });
    if k < 0 {
        roster
    } else {
        roster.update(k, (roster[k].0, c.1.applied(roster[k].1)))
    }
}

/// The roster after a list of consequences, applied in order.
pub open spec fn apply_all(
    roster: Seq<(FighterID, Fighter)>,
    cs: Seq<(bool, Consequence)>,
    actor: FighterID,
    target: FighterID,
) -> Seq<(FighterID, Fighter)>
    decreases cs.len(),
{
    if cs.len() == 0 {
        roster
    } else {
        apply_one(apply_all(roster, cs.drop_last(), actor, target), cs.last(), actor, target)
    }
}

/// The roster after the turn of the fighter `id`: a dead or missing fighter
/// does nothing; a living one refreshes its stats, picks its rule, resolves
/// the rule's target and applies the consequences of the rule's action.
pub open spec fn act(roster: Seq<(FighterID, Fighter)>, turn: u8, id: FighterID) -> Seq<(FighterID, Fighter)> {
    let k = slot(roster, id);
    if k < 0 || !roster[k].1.alive {
        roster
    } else {
        let r1 = roster.update(k, (id, roster[k].1.refreshed()));
        let f = r1[k].1;
        let action = f.rule_spec(id, turn, r1).action;
        let target = action.target_spec(id, r1);
        let tk = slot(r1, target);
        let cs = action.outcome(f, if tk < 0 { None } else { Some(r1[tk].1) });
        apply_all(r1, cs, id, target)
    }
}

/// The roster and outcome after the fighters of `order` act in turn; the
/// first action that decides the fight ends it.
pub open spec fn play(roster: Seq<(FighterID, Fighter)>, turn: u8, order: Seq<FighterID>) -> (Seq<(FighterID, Fighter)>, Option<State>)
    decreases order.len(),
{
    if order.len() == 0 {
        (roster, None)
    } else {
        let k = slot(roster, order[0]);
        if k < 0 || !roster[k].1.alive {
            play(roster, turn, order.drop_first())
        } else {
            let r2 = act(roster, turn, order[0]);
            match check_state_spec(r2) {
                Some(s) => (r2, Some(s)),
                None => play(r2, turn, order.drop_first()),
            }
        }
    }
}

/// A turn ends with an outcome only when that outcome is what the roster
/// shows: a side is fully eliminated.
pub proof fn lemma_play_decided(roster: Seq<(FighterID, Fighter)>, turn: u8, order: Seq<FighterID>)
    ensures
        play(roster, turn, order).1 is Some ==> play(roster, turn, order).1 == check_state_spec(play(roster, turn, order).0),
    decreases order.len(),
{
    if order.len() > 0 {
        let k = slot(roster, order[0]);
        if k < 0 || !roster[k].1.alive {
            lemma_play_decided(roster, turn, order.drop_first());
        } else {
            lemma_play_decided(act(roster, turn, order[0]), turn, order.drop_first());
        }
    }
}

/// The roster and outcome of the turn numbered `turn`: past [`MAX_TURNS`] a
/// draw; otherwise the fighters act by descending speed, as [`play`] states.
pub open spec fn turn_spec(roster: Seq<(FighterID, Fighter)>, turn: u8) -> (Seq<(FighterID, Fighter)>, Option<State>) {
    if turn > MAX_TURNS {
        (roster, Some(State::Draw))
    } else {
        play(by_speed(roster), turn, ids(by_speed(roster)))
    }
}

/// The outcome of a fight whose last played turn is `turn`, played to the end.
pub open spec fn run_spec(roster: Seq<(FighterID, Fighter)>, turn: u8) -> State
    decreases MAX_TURNS - turn,
{
    if turn >= MAX_TURNS {
        State::Draw
    } else {
        let (next, outcome) = turn_spec(roster, (turn + 1) as u8);
        match outcome {
            Some(s) => s,
            None => run_spec(next, (turn + 1) as u8),
        }
    }
}

/// The roster of a new fight: the first team as `Ally(0..)`, then the second
/// as `Enemy(0..)`.
pub open spec fn roster_of(team1: Seq<Fighter>, team2: Seq<Fighter>) -> Seq<(FighterID, Fighter)> {
    Seq::new(team1.len(), |i: int| (FighterID::Ally(i as usize), team1[i])) + Seq::new(
        team2.len(),
        |i: int| (FighterID::Enemy(i as usize), team2[i]),
    )
}

/// A turn ends with a victory only when a side has been fully eliminated.
pub proof fn lemma_outcome_needs_elimination(roster: Seq<(FighterID, Fighter)>, turn: u8, order: Seq<FighterID>)
    ensures
        play(roster, turn, order).1 is Some ==> side_down(play(roster, turn, order).0, false) || side_down(
            play(roster, turn, order).0,
            true,
        ),
        play(roster, turn, order).1 != Some(State::Draw),
{
    lemma_play_decided(roster, turn, order);
}

impl Fight {
    /// Every fighter is well formed.
    pub open spec fn wf(&self) -> bool {
        forall|i: int| 0 <= i < self.fighters@.len() ==> (#[trigger] self.fighters@[i]).1.wf()
    }

    /// The index of the first entry of the roster that holds `id`.
    pub fn position(&self, id: FighterID) -> (r: Option<usize>)
        ensures
            match r {
                Some(k) => k == slot(self.fighters@, id) && first_at(self.fighters@, id, k as int),
                None => slot(self.fighters@, id) == -1,
            },
    {
        let mut i: usize = 0;
        while i < self.fighters.len()
            invariant
                0 <= i <= self.fighters@.len(),
                forall|j: int| 0 <= j < i ==> self.fighters@[j].0 != id,
            decreases self.fighters@.len() - i,
        {
            if self.fighters[i].0 == id {
                proof {
                    lemma_first_unique(self.fighters@, id, i as int);
                }
                return Some(i);
            }
            i += 1;
        }
        proof {
            lemma_slot(self.fighters@, id);
        }
        None
    }

    /// The fighter that `id` designates, if it is in the roster.
    pub fn get_fighter(&self, id: FighterID) -> (r: Option<&Fighter>)
        ensures
            match r {
                Some(f) => slot(self.fighters@, id) >= 0 && *f == self.fighters@[slot(self.fighters@, id)].1,
                None => slot(self.fighters@, id) == -1,
            },
    {
        match self.position(id) {
            Some(k) => Some(&self.fighters[k].1),
            None => None,
        }
    }

    /// Applies a consequence to the first fighter that `id` designates.
    fn apply_to(&mut self, id: FighterID, c: Consequence)
        requires
            old(self).wf(),
        ensures
            final(self).turn == old(self).turn,
            final(self).wf(),
            final(self).fighters@ == apply_one(old(self).fighters@, (true, c), id, id),
    {
        match self.position(id) {
            Some(k) => {
                let (eid, mut f) = self.fighters.remove(k);
                c.apply_on(&mut f);
                proof {
                    lemma_applied_wf(c, old(self).fighters@[k as int].1);
                }
                self.fighters.insert(k, (eid, f));
                proof {
                    lemma_remove_insert(old(self).fighters@, k as int, (eid, f));
                    assert forall|i: int| 0 <= i < self.fighters@.len() implies (#[trigger] self.fighters@[i]).1.wf() by {
                        if i != k {
                            assert(self.fighters@[i] == old(self).fighters@[i]);
                        }
                    }
                }
            },
            None => {},
        }
    }

    /// The turn of the fighter `id`, as [`act`] states it.
    fn act(&mut self, id: FighterID)
        requires
            old(self).wf(),
        ensures
            final(self).turn == old(self).turn,
            final(self).wf(),
            final(self).fighters@ == act(old(self).fighters@, old(self).turn, id),
    {
        let ghost roster = self.fighters@;
        let k = match self.position(id) {
            Some(k) => k,
            None => {
                return ;
            },
        };
        if !self.fighters[k].1.alive {
            return ;
        }
        let (eid, mut f) = self.fighters.remove(k);
        f.turn();
        self.fighters.insert(k, (eid, f));
        proof {
            lemma_remove_insert(roster, k as int, (eid, f));
            assert forall|i: int| 0 <= i < self.fighters@.len() implies (#[trigger] self.fighters@[i]).1.wf() by {
                if i != k {
                    assert(self.fighters@[i] == roster[i]);
                } else {
                    assert(roster[i].1.wf());
                }
            }
        }
        let ghost r1 = self.fighters@;
        let rule = self.fighters[k].1.get_rule(&id, self);
        let action = rule.action;
        let target = action.get_target(&id, self);
        let consequences = match self.get_fighter(target) {
            Some(t) => action.execute(&self.fighters[k].1, Some(t)),
            None => action.execute(&self.fighters[k].1, None),
        };
        let mut i: usize = 0;
        while i < consequences.len()
            invariant
                0 <= i <= consequences@.len(),
                self.wf(),
                self.turn == old(self).turn,
                self.fighters@ == apply_all(r1, consequences@.take(i as int), id, target),
            decreases consequences@.len() - i,
        {
            let (on_self, c) = consequences[i];
            let who = if on_self {
                id
            } else {
                target
            };
            self.apply_to(who, c);
            proof {
                assert(consequences@.take(i + 1).drop_last() =~= consequences@.take(i as int));
            }
            i += 1;
        }
        proof {
            assert(consequences@.take(i as int) =~= consequences@);
        }
    }
}

impl Fight {
    /// The fight at turn 0: the first team as `Ally(0..)`, then the second as
    /// `Enemy(0..)`, in the order given.
    pub fn build_fight(team1: Vec<Fighter>, team2: Vec<Fighter>) -> (r: Fight)
        ensures
            r.turn == 0,
            r.fighters@ == roster_of(team1@, team2@),
            r.fighters@.len() == team1@.len() + team2@.len(),
            forall|i: int| 0 <= i < team1@.len() ==> #[trigger] r.fighters@[i] == (FighterID::Ally(i as usize), team1@[i]),
            forall|i: int| 0 <= i < team2@.len() ==> #[trigger] r.fighters@[team1@.len() + i] == (FighterID::Enemy(i as usize), team2@[i]),
    {
        let ghost t1 = team1@;
        let ghost t2 = team2@;
        let mut fighters: Vec<(FighterID, Fighter)> = Vec::new();
        let n1 = team1.len();
        let n2 = team2.len();
        let mut team1 = team1;
        let mut team2 = team2;
        let mut i: usize = 0;
        while team1.len() > 0
            invariant
                i + team1@.len() == t1.len(),
                t1.len() == n1,
                team1@ == t1.subrange(i as int, t1.len() as int),
                fighters@.len() == i,
                forall|j: int| 0 <= j < i ==> #[trigger] fighters@[j] == (FighterID::Ally(j as usize), t1[j]),
            decreases team1@.len(),
        {
            let f = team1.remove(0);
            fighters.push((FighterID::Ally(i), f));
            i += 1;
            proof {
                assert(team1@ =~= t1.subrange(i as int, t1.len() as int));
            }
        }
        let mut j: usize = 0;
        while team2.len() > 0
            invariant
                i == t1.len(),
                j + team2@.len() == t2.len(),
                t2.len() == n2,
                team2@ == t2.subrange(j as int, t2.len() as int),
                fighters@.len() == i + j,
                forall|k: int| 0 <= k < i ==> #[trigger] fighters@[k] == (FighterID::Ally(k as usize), t1[k]),
                forall|k: int| 0 <= k < j ==> #[trigger] fighters@[i + k] == (FighterID::Enemy(k as usize), t2[k]),
            decreases team2@.len(),
        {
            let f = team2.remove(0);
            fighters.push((FighterID::Enemy(j), f));
            j += 1;
            proof {
                assert(team2@ =~= t2.subrange(j as int, t2.len() as int));
            }
        }
        assert forall|k: int| 0 <= k < fighters@.len() implies #[trigger] fighters@[k] == roster_of(t1, t2)[k] by {
            if k >= i {
                assert(fighters@[i + (k - i)] == (FighterID::Enemy((k - i) as usize), t2[k - i]));
            }
        }
        assert(fighters@ =~= roster_of(t1, t2));
        Fight { turn: 0, fighters }
    }

    /// Whether a side has been eliminated, as [`check_state_spec`] states it.
    pub fn check_state(&self) -> (r: Option<State>)
        ensures
            r == check_state_spec(self.fighters@),
    {
        let mut enemies_down = true;
        let mut allies_down = true;
        let mut i: usize = 0;
        while i < self.fighters.len()
            invariant
                0 <= i <= self.fighters@.len(),
                enemies_down == side_down(self.fighters@.take(i as int), false),
                allies_down == side_down(self.fighters@.take(i as int), true),
            decreases self.fighters@.len() - i,
        {
            let ghost before = self.fighters@.take(i as int);
            let ghost after = self.fighters@.take(i + 1);
            if self.fighters[i].1.alive {
                if self.fighters[i].0.is_ally() {
                    allies_down = false;
                    assert(after[i as int].0.is_ally_spec() && after[i as int].1.alive);
                } else {
                    enemies_down = false;
                    assert(!after[i as int].0.is_ally_spec() && after[i as int].1.alive);
                }
            }
            proof {
                assert forall|j: int| 0 <= j < i implies after[j] == before[j] by {}
            }
            i += 1;
        }
        proof {
            assert(self.fighters@.take(i as int) =~= self.fighters@);
        }
        if enemies_down {
            Some(State::AlliesVictory)
        } else if allies_down {
            Some(State::EnemiesVictory)
        } else {
            None
        }
    }

    /// Sorts the roster by descending speed and returns the order of the ids;
    /// fighters of equal speed swap their relative order.
    pub fn order_by_speed(&mut self) -> (order: Vec<FighterID>)
        ensures
            final(self).turn == old(self).turn,
            final(self).fighters@ == by_speed(old(self).fighters@),
            speed_order(old(self).fighters@, final(self).fighters@),
            order@ == ids(final(self).fighters@),
            old(self).wf() ==> final(self).wf(),
    {
        let ghost before = self.fighters@;
        let mut rest: Vec<(FighterID, Fighter)> = Vec::new();
        std::mem::swap(&mut rest, &mut self.fighters);
        let mut sorted: Vec<(FighterID, Fighter)> = Vec::new();
        proof {
            broadcast use vstd::seq_lib::group_to_multiset_ensures;
            assert(sorted@.to_multiset() =~= Multiset::empty());
            assert(Multiset::empty().add(rest@.to_multiset()) =~= rest@.to_multiset());
            assert(sorted@ + by_speed(rest@) =~= by_speed(rest@));
        }
        while rest.len() > 0
            invariant
                self.turn == old(self).turn,
                sorted@ + by_speed(rest@) == by_speed(before),
                sorted@.to_multiset().add(rest@.to_multiset()) == before.to_multiset(),
                forall|i: int, j: int|
                    0 <= i < j < sorted@.len() ==> sorted@[i].1.stats.speed >= sorted@[j].1.stats.speed,
                forall|i: int, j: int|
                    0 <= i < sorted@.len() && 0 <= j < rest@.len() ==> sorted@[i].1.stats.speed >= rest@[j].1.stats.speed,
            decreases rest@.len(),
        {
            let mut m: usize = 0;
            let mut j: usize = 1;
            while j < rest.len()
                invariant
                    0 <= m < j <= rest@.len(),
                    m == last_fastest(rest@.take(j as int)),
                    forall|t: int| 0 <= t < j ==> rest@[t].1.stats.speed <= rest@[m as int].1.stats.speed,
                decreases rest@.len() - j,
            {
                proof {
                    assert(rest@.take(j + 1).drop_last() =~= rest@.take(j as int));
                }
                if rest[j].1.stats.speed >= rest[m].1.stats.speed {
                    m = j;
                }
                j += 1;
            }
            proof {
                assert(rest@.take(j as int) =~= rest@);
                assert(sorted@.push(rest@[m as int]) + by_speed(rest@.remove(m as int)) =~= sorted@ + (seq![rest@[m as int]] + by_speed(rest@.remove(m as int))));
            }
            let ghost old_rest = rest@;
            let ghost old_sorted = sorted@;
            let e = rest.remove(m);
            sorted.push(e);
            proof {
                broadcast use vstd::seq_lib::group_to_multiset_ensures;
                assert(old_rest.to_multiset().count(e) > 0);
                assert(sorted@.to_multiset().add(rest@.to_multiset()) =~= old_sorted.to_multiset().add(old_rest.to_multiset()));
                assert forall|i: int, j: int|
                    0 <= i < sorted@.len() && 0 <= j < rest@.len() implies sorted@[i].1.stats.speed >= rest@[j].1.stats.speed by {
                    if j < m {
                        assert(rest@[j] == old_rest[j]);
                    } else {
                        assert(rest@[j] == old_rest[j + 1]);
                    }
                }
            }
        }
        proof {
            broadcast use vstd::seq_lib::group_to_multiset_ensures;
            assert(sorted@ + by_speed(rest@) =~= sorted@);
            assert(rest@.to_multiset() =~= Multiset::empty());
            assert(sorted@.to_multiset().add(Multiset::empty()) =~= sorted@.to_multiset());
        }
        proof {
            if old(self).wf() {
                assert forall|i: int| 0 <= i < sorted@.len() implies (#[trigger] sorted@[i]).1.wf() by {
                    broadcast use vstd::seq_lib::group_to_multiset_ensures;
                    assert(sorted@.contains(sorted@[i]));
                    assert(before.to_multiset().count(sorted@[i]) > 0);
                    assert(before.contains(sorted@[i]));
                    let j = choose|j: int| 0 <= j < before.len() && before[j] == sorted@[i];
                    assert(old(self).fighters@[j].1.wf());
                }
            }
        }
        self.fighters = sorted;
        let mut order: Vec<FighterID> = Vec::new();
        let mut i: usize = 0;
        while i < self.fighters.len()
            invariant
                0 <= i <= self.fighters@.len(),
                order@ == ids(self.fighters@).take(i as int),
            decreases self.fighters@.len() - i,
        {
            order.push(self.fighters[i].0);
            i += 1;
            proof {
                assert(order@ =~= ids(self.fighters@).take(i as int));
            }
        }
        proof {
            assert(order@ =~= ids(self.fighters@));
        }
        order
    }
}

impl Fight {
    /// Plays one turn. The turn counter goes up by one; past [`MAX_TURNS`] the
    /// fight is a draw. Otherwise the roster is sorted by descending speed,
    /// and the fighters act in that order, as [`play`] states, the dead ones
    /// skipped; the turn ends early once a side is eliminated.
    pub fn turn(&mut self) -> (r: Option<State>)
        requires
            old(self).turn < 255,
            old(self).wf(),
        ensures
            final(self).turn == old(self).turn + 1,
            final(self).wf(),
            final(self).turn > MAX_TURNS ==> r == Some(State::Draw) && final(self).fighters@ == old(self).fighters@,
            (final(self).fighters@, r) == turn_spec(old(self).fighters@, final(self).turn),
            final(self).turn <= MAX_TURNS ==> speed_order(old(self).fighters@, by_speed(old(self).fighters@)),
            r is Some ==> (r == Some(State::Draw) && final(self).turn > MAX_TURNS) || r == check_state_spec(final(self).fighters@),
    {
        let t = self.turn + 1;
        self.turn = t;
        if self.turn > MAX_TURNS {
            return Some(State::Draw);
        }
        let order = self.order_by_speed();
        let ghost sorted = self.fighters@;
        let mut i: usize = 0;
        assert(order@.subrange(0, order@.len() as int) =~= order@);
        while i < order.len()
            invariant
                0 <= i <= order@.len(),
                order@ == ids(sorted),
                self.turn == t,
                t == old(self).turn + 1,
                t <= MAX_TURNS,
                self.wf(),
                speed_order(old(self).fighters@, sorted),
                sorted == by_speed(old(self).fighters@),
                play(sorted, t, order@) == play(self.fighters@, t, order@.subrange(i as int, order@.len() as int)),
            decreases order@.len() - i,
        {
            let id = order[i];
            let ghost sub = order@.subrange(i as int, order@.len() as int);
            assert(sub[0] == id);
            assert(sub.drop_first() =~= order@.subrange(i + 1, order@.len() as int));
            let alive = match self.position(id) {
                Some(k) => self.fighters[k].1.alive,
                None => false,
            };
            if alive {
                self.act(id);
                let s = self.check_state();
                match s {
                    Some(_) => {
                        return s;
                    },
                    None => {},
                }
            }
            i += 1;
        }
        assert(order@.subrange(i as int, order@.len() as int) =~= Seq::<FighterID>::empty());
        None
    }

    /// Plays turns until the fight is decided: a draw after [`MAX_TURNS`],
    /// or the victory that the roster shows.
    pub fn run(&mut self) -> (r: State)
        requires
            old(self).turn <= MAX_TURNS,
            old(self).wf(),
        ensures
            r == run_spec(old(self).fighters@, old(self).turn),
            (r == State::Draw && final(self).turn == MAX_TURNS + 1) || (final(self).turn <= MAX_TURNS
                && Some(r) == check_state_spec(final(self).fighters@)),
    {
        loop
            invariant
                self.turn <= MAX_TURNS,
                self.wf(),
                run_spec(old(self).fighters@, old(self).turn) == run_spec(self.fighters@, self.turn),
            decreases MAX_TURNS - self.turn,
        {
            match self.turn() {
                Some(r) => {
                    return r;
                },
                None => {},
            }
        }
    }

    /// Builds the fight of two teams and plays it to the end.
    pub fn start(team1: Vec<Fighter>, team2: Vec<Fighter>) -> (r: State)
        requires
            forall|i: int| 0 <= i < team1@.len() ==> (#[trigger] team1@[i]).wf(),
            forall|i: int| 0 <= i < team2@.len() ==> (#[trigger] team2@[i]).wf(),
        ensures
            r == run_spec(roster_of(team1@, team2@), 0),
    {
        let ghost t1 = team1@;
        let ghost t2 = team2@;
        let mut fight = Fight::build_fight(team1, team2);
        assert(fight.fighters@ =~= roster_of(t1, t2));
        assert forall|i: int| 0 <= i < fight.fighters@.len() implies (#[trigger] fight.fighters@[i]).1.wf() by {
            if i >= team1@.len() {
                assert(fight.fighters@[team1@.len() + (i - team1@.len())] == fight.fighters@[i]);
            }
        }
        fight.run()
    }
}

/// A consequence keeps a fighter well formed.
pub proof fn lemma_applied_wf(c: Consequence, f: Fighter)
    requires
        f.wf(),
    ensures
        c.applied(f).wf(),
{
}

} // verus!
