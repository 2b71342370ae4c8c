use vstd::prelude::*;

verus! {

/// One of the numeric attributes of a fighter.
#[derive(Debug, Clone, Copy, PartialEq, Eq, Structural)]
pub enum Stat {
    Health,
    Attack,
    Defense,
    Speed,
    Nature,
    Demon,
}

/// The elemental flavour of an attack or a defense.
#[derive(Debug, Clone, Copy, PartialEq, Eq, Structural)]
pub enum Element {
    Neutral,
    Demonic,
    Natural,
}

/// Whether an attack is physical or magical.
#[derive(Debug, Clone, Copy, PartialEq, Eq, Structural)]
pub enum AttackType {
    Physical,
    Magical,
}

/// The numeric attributes of a fighter.
#[derive(Debug, Clone, Copy, PartialEq, Eq, Structural)]
pub struct Stats {
    pub health: u16,
    pub attack: u16,
    pub defense: u16,
    pub nature: u16,
    pub demon: u16,
    pub speed: u16,
}

/// Signed weights of a linear combination of stats (health takes no part).
#[derive(Debug, Clone, Copy, PartialEq, Eq, Structural)]
pub struct StatWeights {
    pub attack: i8,
    pub defense: i8,
    pub nature: i8,
    pub demon: i8,
    pub speed: i8,
}

/// The positive part of a weight.
pub open spec fn positive(x: i8) -> int {
    if x < 0 {
        0
    } else {
        x as int
    }
}

impl Stats {
    /// The value of one stat.
    pub open spec fn value(self, stat: Stat) -> u16 {
        match stat {
            Stat::Health => self.health,
            Stat::Attack => self.attack,
            Stat::Defense => self.defense,
            Stat::Speed => self.speed,
            Stat::Nature => self.nature,
            Stat::Demon => self.demon,
        }
    }

    /// These stats with every stat but health taken from `base`.
    pub open spec fn reset_from(self, base: Stats) -> Stats {
        Stats { health: self.health, ..base }
    }

    /// The weighted sum of the stats.
    pub open spec fn weighted(self, w: StatWeights) -> int {
        self.attack * w.attack + self.defense * w.defense + self.nature * w.nature + self.demon
            * w.demon + self.speed * w.speed
    }

    /// The weighted sum divided by the sum of the positive weights, floored and
    /// clamped at zero.
    pub open spec fn calc_spec(self, w: StatWeights) -> int {
        if self.weighted(w) <= 0 {
            0
        } else {
            self.weighted(w) / w.sum_spec()
        }
    }

    pub fn new(health: u16, attack: u16, defense: u16, nature: u16, demon: u16, speed: u16) -> (r:
        Stats)
        ensures
            r == (Stats { health, attack, defense, nature, demon, speed }),
    {
        Stats { health, attack, defense, nature, demon, speed }
    }

    /// Takes every stat but health back from `base`: what a turn changed expires.
    pub fn reset(&mut self, base: Stats)
        ensures
            *final(self) == old(self).reset_from(base),
    {
        self.attack = base.attack;
        self.defense = base.defense;
        self.speed = base.speed;
        self.nature = base.nature;
        self.demon = base.demon;
    }

    pub fn get(&self, stat: Stat) -> (r: u16)
        ensures
            r == self.value(stat),
    {
        match stat {
            Stat::Health => self.health,
            Stat::Attack => self.attack,
            Stat::Defense => self.defense,
            Stat::Speed => self.speed,
            Stat::Nature => self.nature,
            Stat::Demon => self.demon,
        }
    }

    /// The weighted combination of the stats, normalised by the sum of the
    /// positive weights and clamped at zero.
    pub fn calc(&self, weights: StatWeights) -> (r: u16)
        requires
            weights.sum_spec() > 0,
        ensures
            r == self.calc_spec(weights),
    {
        proof {
            lemma_weighted_bound(*self, weights);
        }
        let a = term(self.attack, weights.attack);
        let d = term(self.defense, weights.defense);
        let n = term(self.nature, weights.nature);
        let m = term(self.demon, weights.demon);
        let s = term(self.speed, weights.speed);
        let product: i64 = a + d + n + m + s;
        if product <= 0 {
            return 0;
        }
        let sum = weights.sum() as i64;
        let q = product / sum;
        proof {
            lemma_quotient_bound(product as int, sum as int);
        }
        q as u16
    }
}

/// One stat times its weight.
fn term(s: u16, w: i8) -> (r: i64)
    ensures
        r == s * w,
        -65535 * 128 <= r <= 65535 * 127,
{
    proof {
        lemma_term_bound(s, w);
    }
    s as i64 * w as i64
}

proof fn lemma_term_bound(s: u16, w: i8)
    ensures
        s * w <= 65535 * positive(w),
        -65535 * 128 <= s * w <= 65535 * 127,
{
    if w < 0 {
        assert(s * w <= 0) by (nonlinear_arith)
            requires
                w < 0,
        ;
        assert(s * w >= -65535 * 128) by (nonlinear_arith)
            requires
                w < 0,
                w >= -128,
                s <= 65535,
        ;
    } else {
        assert(s * w <= 65535 * w) by (nonlinear_arith)
            requires
                w >= 0,
                s <= 65535,
        ;
        assert(s * w >= 0) by (nonlinear_arith)
            requires
                w >= 0,
        ;
    }
}

proof fn lemma_weighted_bound(st: Stats, w: StatWeights)
    ensures
        st.weighted(w) <= 65535 * w.sum_spec(),
        -65535 * 128 * 5 <= st.weighted(w) <= 65535 * 127 * 5,
{
    lemma_term_bound(st.attack, w.attack);
    lemma_term_bound(st.defense, w.defense);
    lemma_term_bound(st.nature, w.nature);
    lemma_term_bound(st.demon, w.demon);
    lemma_term_bound(st.speed, w.speed);
}

proof fn lemma_quotient_bound(p: int, s: int)
    requires
        0 < p <= 65535 * s,
        s > 0,
    ensures
        0 <= p / s <= 65535,
{
    assert(p / s <= 65535) by (nonlinear_arith)
        requires
            0 < p <= 65535 * s,
            s > 0,
    ;
    assert(p / s >= 0) by (nonlinear_arith)
        requires
            0 < p,
            s > 0,
    ;
}

impl StatWeights {
    /// The sum of the positive weights.
    pub open spec fn sum_spec(self) -> int {
        positive(self.attack) + positive(self.defense) + positive(self.nature) + positive(
            self.demon,
        ) + positive(self.speed)
    }

    pub fn new(attack: i8, defense: i8, nature: i8, demon: i8, speed: i8) -> (r: Self)
        ensures
            r == (StatWeights { attack, defense, nature, demon, speed }),
    {
        StatWeights { attack, defense, nature, demon, speed }
    }

    /// The sum of the positive weights.
    pub fn sum(&self) -> (r: u16)
        ensures
            r == self.sum_spec(),
    {
        positive_part(self.attack) + positive_part(self.defense) + positive_part(self.nature)
            + positive_part(self.demon) + positive_part(self.speed)
    }

    /// The weights of the attack or defense power of one kind and element.
    pub open spec fn table(attack_type: AttackType, element: Element, defending: bool) -> StatWeights {
        match (attack_type, defending, element) {
            (AttackType::Physical, false, Element::Neutral) => weights(4, 0, 0, 0, 1),
            (AttackType::Physical, false, Element::Natural) => weights(4, 0, -1 as i8, 4, 0),
            (AttackType::Physical, false, Element::Demonic) => weights(4, 0, 4, -1 as i8, 0),
            (AttackType::Physical, true, Element::Neutral) => weights(0, 1, 0, 0, 0),
            (AttackType::Physical, true, Element::Natural) => weights(0, 4, 2, -2 as i8, 0),
            (AttackType::Physical, true, Element::Demonic) => weights(0, 4, -2 as i8, 2, 0),
            (AttackType::Magical, false, Element::Neutral) => weights(1, 0, 0, 0, 0),
            (AttackType::Magical, false, Element::Natural) => weights(1, 0, -1 as i8, 4, 0),
            (AttackType::Magical, false, Element::Demonic) => weights(1, 0, 4, -1 as i8, 0),
            (AttackType::Magical, true, Element::Neutral) => weights(0, 1, 0, 0, 0),
            (AttackType::Magical, true, Element::Natural) => weights(0, 1, 1, -1 as i8, 0),
            (AttackType::Magical, true, Element::Demonic) => weights(0, 1, -1 as i8, 1, 0),
        }
    }

    /// Every entry of the table has a positive weight.
    pub proof fn lemma_table_positive(attack_type: AttackType, element: Element, defending: bool)
        ensures
            Self::table(attack_type, element, defending).sum_spec() > 0,
    {
    }

    /// The weights of the attack (or, with `defending`, the defense) power of
    /// one kind of attack and one element.
    pub fn for_power(attack_type: AttackType, element: Element, defending: bool) -> (r: Self)
        ensures
            r == Self::table(attack_type, element, defending),
    {
        match (attack_type, defending, element) {
            (AttackType::Physical, false, Element::Neutral) => StatWeights::new(4, 0, 0, 0, 1),
            (AttackType::Physical, false, Element::Natural) => StatWeights::new(4, 0, -1, 4, 0),
            (AttackType::Physical, false, Element::Demonic) => StatWeights::new(4, 0, 4, -1, 0),
            (AttackType::Physical, true, Element::Neutral) => StatWeights::new(0, 1, 0, 0, 0),
            (AttackType::Physical, true, Element::Natural) => StatWeights::new(0, 4, 2, -2, 0),
            (AttackType::Physical, true, Element::Demonic) => StatWeights::new(0, 4, -2, 2, 0),
            (AttackType::Magical, false, Element::Neutral) => StatWeights::new(1, 0, 0, 0, 0),
            (AttackType::Magical, false, Element::Natural) => StatWeights::new(1, 0, -1, 4, 0),
            (AttackType::Magical, false, Element::Demonic) => StatWeights::new(1, 0, 4, -1, 0),
            (AttackType::Magical, true, Element::Neutral) => StatWeights::new(0, 1, 0, 0, 0),
            (AttackType::Magical, true, Element::Natural) => StatWeights::new(0, 1, 1, -1, 0),
            (AttackType::Magical, true, Element::Demonic) => StatWeights::new(0, 1, -1, 1, 0),
        }
    }
}

/// A weight vector, written in the order attack, defense, nature, demon, speed.
pub open spec fn weights(a: i8, d: i8, n: i8, m: i8, s: i8) -> StatWeights {
    StatWeights { attack: a, defense: d, nature: n, demon: m, speed: s }
}

fn positive_part(x: i8) -> (r: u16)
    ensures
        r == positive(x),
        r <= 127,
{
    if x < 0 {
        0
    } else {
        x as u16
    }
}

} // verus!
