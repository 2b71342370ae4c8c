use vstd::prelude::*;

use crate::rule::{Action, Condition, Gate, Rule, Target};
use crate::stats::Stat;

verus! {

/// One piece of a rule read from text.
#[derive(Debug, Clone, Copy, PartialEq, Eq, Structural)]
pub enum Rune {
    Gate(Gate),
    Condition(Condition),
    Action(Action),
    Target(Target),
    Stat(Stat),
    Number(u8),
}

/// The characters of each word.
pub open spec fn words(v: Seq<&str>) -> Seq<Seq<char>> {
    v.map_values(|t: &str| t@)
}

/// The text cut at every single space, as `str::split(" ")` cuts it: two
/// spaces in a row, or a space at either end, give an empty word.
pub open spec fn pieces(s: Seq<char>) -> Seq<Seq<char>>
    decreases s.len(),
{
    if s.len() == 0 {
        seq![Seq::<char>::empty()]
    } else {
        let p = pieces(s.drop_last());
        if s.last() == ' ' {
            p.push(Seq::<char>::empty())
        } else {
            p.update(p.len() - 1, p.last().push(s.last()))
        }
    }
}

proof fn lemma_pieces_nonempty(s: Seq<char>)
    ensures
        pieces(s).len() >= 1,
    decreases s.len(),
{
    if s.len() > 0 {
        lemma_pieces_nonempty(s.drop_last());
    }
}

/// The words in reverse order, so that the first word is on top of the stack.
pub open spec fn reversed(s: Seq<Seq<char>>) -> Seq<Seq<char>> {
    Seq::new(s.len(), |i: int| s[s.len() - 1 - i])
}

pub open spec fn is_digit(c: char) -> bool {
    48 <= c as u32 <= 57
}

/// The value of a sequence of decimal digits.
pub open spec fn digits_value(d: Seq<char>) -> int
    decreases d.len(),
{
    if d.len() == 0 {
        0
    } else {
        digits_value(d.drop_last()) * 10 + (d.last() as u32 - 48)
    }
}

/// The word without its leading `+`, if any.
pub open spec fn digit_run(w: Seq<char>) -> Seq<char> {
    if w.len() > 0 && w[0] == '+' {
        w.drop_first()
    } else {
        w
    }
}

/// The number a word spells as `u8::from_str` reads it: an optional `+`,
/// then one or more decimal digits, of value at most 255.
pub open spec fn number_value(w: Seq<char>) -> Option<u8> {
    let d = digit_run(w);
    if d.len() > 0 && (forall|i: int| 0 <= i < d.len() ==> is_digit(#[trigger] d[i]))
        && digits_value(d) <= 255 {
        Some(digits_value(d) as u8)
    } else {
        None
    }
}

proof fn lemma_digits_monotone(d: Seq<char>, k: int)
    requires
        0 <= k <= d.len(),
        forall|i: int| 0 <= i < d.len() ==> is_digit(#[trigger] d[i]),
    ensures
        digits_value(d) >= digits_value(d.take(k)) >= 0,
    decreases d.len(),
{
    if d.len() > 0 {
        let p = d.drop_last();
        assert forall|i: int| 0 <= i < p.len() implies is_digit(#[trigger] p[i]) by {
            assert(p[i] == d[i]);
        }
        if k == d.len() {
            assert(d.take(k) =~= d);
            lemma_digits_monotone(p, 0);
        } else {
            lemma_digits_monotone(p, k);
            assert(p.take(k) =~= d.take(k));
        }
    } else {
        assert(d.take(k) =~= d);
    }
}

/// The top word as a stat.
pub open spec fn stat_rune(st: Seq<Seq<char>>) -> (Option<Rune>, Seq<Seq<char>>) {
    if st.len() == 0 {
        (None, st)
    } else {
        let w = st.last();
        (
            if w == "HP"@ {
                Some(Rune::Stat(Stat::Health))
            } else if w == "ATK"@ {
                Some(Rune::Stat(Stat::Attack))
            } else if w == "DEF"@ {
                Some(Rune::Stat(Stat::Defense))
            } else if w == "SPD"@ {
                Some(Rune::Stat(Stat::Speed))
            } else if w == "NAT"@ {
                Some(Rune::Stat(Stat::Nature))
            } else if w == "DEM"@ {
                Some(Rune::Stat(Stat::Demon))
            } else {
                None
            },
            st.drop_last(),
        )
    }
}

/// The top word as a number.
pub open spec fn number_rune(st: Seq<Seq<char>>) -> (Option<Rune>, Seq<Seq<char>>) {
    if st.len() == 0 {
        (None, st)
    } else {
        (
            match number_value(st.last()) {
                Some(n) => Some(Rune::Number(n)),
                None => None,
            },
            st.drop_last(),
        )
    }
}

/// `SLF`, or one of `AL+ AL- FO+ FO-` followed by a stat.
pub open spec fn target_rune(st: Seq<Seq<char>>) -> (Option<Rune>, Seq<Seq<char>>) {
    if st.len() == 0 {
        (None, st)
    } else {
        let w = st.last();
        let rest = st.drop_last();
        if w == "SLF"@ {
            (Some(Rune::Target(Target::Them)), rest)
        } else {
            let (s, rest2) = stat_rune(rest);
            (
                match s {
                    Some(Rune::Stat(s)) => if w == "AL+"@ {
                        Some(Rune::Target(Target::AllyMost(s)))
                    } else if w == "AL-"@ {
                        Some(Rune::Target(Target::AllyLess(s)))
                    } else if w == "FO+"@ {
                        Some(Rune::Target(Target::FoeMost(s)))
                    } else if w == "FO-"@ {
                        Some(Rune::Target(Target::FoeLess(s)))
                    } else {
                        None
                    },
                    _ => None,
                },
                rest2,
            )
        }
    }
}

/// `ATK` followed by a target, `DEF` or `W`.
pub open spec fn action_rune(st: Seq<Seq<char>>) -> (Option<Rune>, Seq<Seq<char>>) {
    if st.len() == 0 {
        (None, st)
    } else {
        let w = st.last();
        let rest = st.drop_last();
        if w == "ATK"@ {
            let (t, rest2) = target_rune(rest);
            (
                match t {
                    Some(Rune::Target(t)) => Some(Rune::Action(Action::Attack(t))),
                    _ => None,
                },
                rest2,
            )
        } else if w == "DEF"@ {
            (Some(Rune::Action(Action::Defense)), rest)
        } else if w == "W"@ {
            (Some(Rune::Action(Action::Wait)), rest)
        } else {
            (None, rest)
        }
    }
}

/// `EXT n` (with `n` above zero), `T= n`, `T> n`, or `HP> n target`,
/// `HP< n target`.
pub open spec fn condition_rune(st: Seq<Seq<char>>) -> (Option<Rune>, Seq<Seq<char>>) {
    if st.len() == 0 {
        (None, st)
    } else {
        let w = st.last();
        let rest = st.drop_last();
        if w == "EXT"@ || w == "T="@ || w == "T>"@ {
            let (n, rest2) = number_rune(rest);
            (
                match n {
                    Some(Rune::Number(n)) => if w == "EXT"@ {
                        if n == 0 {
                            None
                        } else {
                            Some(Rune::Condition(Condition::EveryXTurn(n)))
                        }
                    } else if w == "T="@ {
                        Some(Rune::Condition(Condition::OnTurn(n)))
                    } else {
                        Some(Rune::Condition(Condition::FromTurnX(n)))
                    },
                    _ => None,
                },
                rest2,
            )
        } else if w == "HP>"@ || w == "HP<"@ {
            let (n, rest2) = number_rune(rest);
            match n {
                Some(Rune::Number(n)) => {
                    let (t, rest3) = target_rune(rest2);
                    (
                        match t {
                            Some(Rune::Target(t)) => if w == "HP>"@ {
                                Some(Rune::Condition(Condition::MoreXHP(n, t)))
                            } else {
                                Some(Rune::Condition(Condition::LessXHP(n, t)))
                            },
                            _ => None,
                        },
                        rest3,
                    )
                },
                _ => (None, rest2),
            }
        } else {
            (None, rest)
        }
    }
}

/// `ID` or `NOT` followed by a condition, or one of
/// `AND NAND OR XOR NOR NXOR` followed by two conditions.
pub open spec fn gate_rune(st: Seq<Seq<char>>) -> (Option<Rune>, Seq<Seq<char>>) {
    if st.len() == 0 {
        (None, st)
    } else {
        let w = st.last();
        let rest = st.drop_last();
        if w == "ID"@ || w == "NOT"@ {
            let (c, rest2) = condition_rune(rest);
            (
                match c {
                    Some(Rune::Condition(c)) => if w == "ID"@ {
                        Some(Rune::Gate(Gate::ID(c)))
                    } else {
                        Some(Rune::Gate(Gate::NOT(c)))
                    },
                    _ => None,
                },
                rest2,
            )
        } else {
            let (c1, rest2) = condition_rune(rest);
            match c1 {
                Some(Rune::Condition(c1)) => {
                    let (c2, rest3) = condition_rune(rest2);
                    match c2 {
                        Some(Rune::Condition(c2)) => (
                            if w == "AND"@ {
                                Some(Rune::Gate(Gate::AND(c1, c2)))
                            } else if w == "NAND"@ {
                                Some(Rune::Gate(Gate::NAND(c1, c2)))
                            } else if w == "OR"@ {
                                Some(Rune::Gate(Gate::OR(c1, c2)))
                            } else if w == "XOR"@ {
                                Some(Rune::Gate(Gate::XOR(c1, c2)))
                            } else if w == "NOR"@ {
                                Some(Rune::Gate(Gate::NOR(c1, c2)))
                            } else if w == "NXOR"@ {
                                Some(Rune::Gate(Gate::NXOR(c1, c2)))
                            } else {
                                None
                            },
                            rest3,
                        ),
                        _ => (None, rest3),
                    }
                },
                _ => (None, rest2),
            }
        }
    }
}

/// The rule that the text spells: a gate, then an action, and no word left.
pub open spec fn rule_of(s: Seq<char>) -> Option<Rule> {
    let (g, rest) = gate_rune(reversed(pieces(s)));
    match g {
        Some(Rune::Gate(gate)) => {
            let (a, rest2) = action_rune(rest);
            match a {
                Some(Rune::Action(action)) => if rest2.len() == 0 {
                    Some(Rule { gate, action })
                } else {
                    None
                },
                _ => None,
            }
        },
        _ => None,
    }
}

/// Whether two texts hold the same characters.
fn same(a: &str, b: &str) -> (r: bool)
    ensures
        r == (a@ == b@),
{
    let n = a.unicode_len();
    if n != b.unicode_len() {
        return false;
    }
    let mut i: usize = 0;
    while i < n
        invariant
            n == a@.len() == b@.len(),
            0 <= i <= n,
            forall|j: int| 0 <= j < i ==> a@[j] == b@[j],
        decreases n - i,
    {
        if a.get_char(i) != b.get_char(i) {
            return false;
        }
        i += 1;
    }
    assert(a@ =~= b@);
    true
}

/// Takes the top word off the stack.
fn pop_word<'a>(rule: &mut Vec<&'a str>) -> (r: Option<&'a str>)
    ensures
        old(rule)@.len() == 0 ==> r is None && final(rule)@ == old(rule)@,
        old(rule)@.len() > 0 ==> r == Some(old(rule)@.last()) && words(final(rule)@) == words(
            old(rule)@,
        ).drop_last(),
        r matches Some(t) ==> words(old(rule)@).len() > 0 && words(old(rule)@).last() == t@,
{
    let r = rule.pop();
    proof {
        if old(rule)@.len() > 0 {
            assert(words(rule@) =~= words(old(rule)@).drop_last());
        }
    }
    r
}

/// Reads the top word as a number, as [`number_rune`] states.
pub fn read_number(rule: &mut Vec<&str>) -> (r: Option<Rune>)
    ensures
        (r, words(final(rule)@)) == number_rune(words(old(rule)@)),
{
    let rune = match pop_word(rule) {
        Some(w) => w,
        None => {
            return None;
        },
    };
    let ghost w = rune@;
    let n = rune.unicode_len();
    let start: usize = if n > 0 && rune.get_char(0) == '+' {
        1
    } else {
        0
    };
    let ghost d = digit_run(w);
    assert(d =~= w.subrange(start as int, n as int));
    if start == n {
        return None;
    }
    let mut acc: u32 = 0;
    let mut i: usize = start;
    while i < n
        invariant
            n == w.len(),
            w == rune@,
            words(rule@) == words(old(rule)@).drop_last(),
            words(old(rule)@).len() > 0,
            words(old(rule)@).last() == w,
            start <= i <= n,
            d == w.subrange(start as int, n as int),
            d == digit_run(w),
            forall|j: int| start <= j < i ==> is_digit(#[trigger] w[j]),
            acc == digits_value(w.subrange(start as int, i as int)),
            acc <= 255,
        decreases n - i,
    {
        let c = rune.get_char(i);
        if !((c as u32) >= 48 && (c as u32) <= 57) {
            proof {
                assert(d[i - start] == w[i as int]);
                assert(!is_digit(d[i - start]));
            }
            return None;
        }
        proof {
            let p = w.subrange(start as int, i + 1);
            assert(p.drop_last() =~= w.subrange(start as int, i as int));
        }
        acc = acc * 10 + (c as u32 - 48);
        i += 1;
        if acc > 255 {
            proof {
                if forall|j: int| 0 <= j < d.len() ==> is_digit(#[trigger] d[j]) {
                    lemma_digits_monotone(d, i - start);
                    assert(d.take(i - start) =~= w.subrange(start as int, i as int));
                }
            }
            return None;
        }
    }
    proof {
        assert(w.subrange(start as int, i as int) =~= d);
        assert forall|j: int| 0 <= j < d.len() implies is_digit(#[trigger] d[j]) by {
            assert(d[j] == w[j + start]);
        }
    }
    Some(Rune::Number(acc as u8))
}

/// Reads the top word as a stat, as [`stat_rune`] states.
pub fn read_stat(rule: &mut Vec<&str>) -> (r: Option<Rune>)
    ensures
        (r, words(final(rule)@)) == stat_rune(words(old(rule)@)),
{
    let rune = match pop_word(rule) {
        Some(w) => w,
        None => {
            return None;
        },
    };
    if same(rune, "HP") {
        Some(Rune::Stat(Stat::Health))
    } else if same(rune, "ATK") {
        Some(Rune::Stat(Stat::Attack))
    } else if same(rune, "DEF") {
        Some(Rune::Stat(Stat::Defense))
    } else if same(rune, "SPD") {
        Some(Rune::Stat(Stat::Speed))
    } else if same(rune, "NAT") {
        Some(Rune::Stat(Stat::Nature))
    } else if same(rune, "DEM") {
        Some(Rune::Stat(Stat::Demon))
    } else {
        None
    }
}

/// Reads a target, as [`target_rune`] states.
pub fn read_target(rule: &mut Vec<&str>) -> (r: Option<Rune>)
    ensures
        (r, words(final(rule)@)) == target_rune(words(old(rule)@)),
{
    let rune = match pop_word(rule) {
        Some(w) => w,
        None => {
            return None;
        },
    };
    if same(rune, "SLF") {
        return Some(Rune::Target(Target::Them));
    }
    match read_stat(rule) {
        Some(Rune::Stat(s)) => {
            if same(rune, "AL+") {
                Some(Rune::Target(Target::AllyMost(s)))
            } else if same(rune, "AL-") {
                Some(Rune::Target(Target::AllyLess(s)))
            } else if same(rune, "FO+") {
                Some(Rune::Target(Target::FoeMost(s)))
            } else if same(rune, "FO-") {
                Some(Rune::Target(Target::FoeLess(s)))
            } else {
                None
            }
        },
        _ => None,
    }
}

/// Reads an action, as [`action_rune`] states.
pub fn read_action(rule: &mut Vec<&str>) -> (r: Option<Rune>)
    ensures
        (r, words(final(rule)@)) == action_rune(words(old(rule)@)),
{
    let rune = match pop_word(rule) {
        Some(w) => w,
        None => {
            return None;
        },
    };
    if same(rune, "ATK") {
        match read_target(rule) {
            Some(Rune::Target(t)) => Some(Rune::Action(Action::Attack(t))),
            _ => None,
        }
    } else if same(rune, "DEF") {
        Some(Rune::Action(Action::Defense))
    } else if same(rune, "W") {
        Some(Rune::Action(Action::Wait))
    } else {
        None
    }
}

/// Reads a condition, as [`condition_rune`] states; `EXT 0` is refused.
pub fn read_condition(rule: &mut Vec<&str>) -> (r: Option<Rune>)
    ensures
        (r, words(final(rule)@)) == condition_rune(words(old(rule)@)),
        r matches Some(Rune::Condition(c)) ==> c.wf(),
{
    let rune = match pop_word(rule) {
        Some(w) => w,
        None => {
            return None;
        },
    };
    let ext = same(rune, "EXT");
    let on = same(rune, "T=");
    let from = same(rune, "T>");
    if ext || on || from {
        match read_number(rule) {
            Some(Rune::Number(n)) => {
                if ext {
                    if n == 0 {
                        None
                    } else {
                        Some(Rune::Condition(Condition::EveryXTurn(n)))
                    }
                } else if on {
                    Some(Rune::Condition(Condition::OnTurn(n)))
                } else {
                    Some(Rune::Condition(Condition::FromTurnX(n)))
                }
            },
            _ => None,
        }
    } else {
        let more = same(rune, "HP>");
        let less = same(rune, "HP<");
        if more || less {
            match read_number(rule) {
                Some(Rune::Number(n)) => match read_target(rule) {
                    Some(Rune::Target(t)) => {
                        if more {
                            Some(Rune::Condition(Condition::MoreXHP(n, t)))
                        } else {
                            Some(Rune::Condition(Condition::LessXHP(n, t)))
                        }
                    },
                    _ => None,
                },
                _ => None,
            }
        } else {
            None
        }
    }
}

/// Reads a gate, as [`gate_rune`] states.
pub fn read_gate(rule: &mut Vec<&str>) -> (r: Option<Rune>)
    ensures
        (r, words(final(rule)@)) == gate_rune(words(old(rule)@)),
        r matches Some(Rune::Gate(g)) ==> g.wf(),
{
    let rune = match pop_word(rule) {
        Some(w) => w,
        None => {
            return None;
        },
    };
    let id = same(rune, "ID");
    let not = same(rune, "NOT");
    if id || not {
        match read_condition(rule) {
            Some(Rune::Condition(c)) => {
                if id {
                    Some(Rune::Gate(Gate::ID(c)))
                } else {
                    Some(Rune::Gate(Gate::NOT(c)))
                }
            },
            _ => None,
        }
    } else {
        let c1 = match read_condition(rule) {
            Some(Rune::Condition(c)) => c,
            _ => {
                return None;
            },
        };
        let c2 = match read_condition(rule) {
            Some(Rune::Condition(c)) => c,
            _ => {
                return None;
            },
        };
        if same(rune, "AND") {
            Some(Rune::Gate(Gate::AND(c1, c2)))
        } else if same(rune, "NAND") {
            Some(Rune::Gate(Gate::NAND(c1, c2)))
        } else if same(rune, "OR") {
            Some(Rune::Gate(Gate::OR(c1, c2)))
        } else if same(rune, "XOR") {
            Some(Rune::Gate(Gate::XOR(c1, c2)))
        } else if same(rune, "NOR") {
            Some(Rune::Gate(Gate::NOR(c1, c2)))
        } else if same(rune, "NXOR") {
            Some(Rune::Gate(Gate::NXOR(c1, c2)))
        } else {
            None
        }
    }
}

/// Cuts the text at every single space, as [`pieces`] states.
fn split_words<'a>(rule: &'a str) -> (r: Vec<&'a str>)
    ensures
        words(r@) == pieces(rule@),
{
    let n = rule.unicode_len();
    let mut out: Vec<&'a str> = Vec::new();
    let mut start: usize = 0;
    let mut i: usize = 0;
    assert(rule@.take(0) =~= Seq::<char>::empty());
    assert(words(out@).push(rule@.subrange(0, 0)) =~= pieces(rule@.take(0)));
    while i < n
        invariant
            n == rule@.len(),
            0 <= start <= i <= n,
            words(out@).push(rule@.subrange(start as int, i as int)) == pieces(rule@.take(i as int)),
        decreases n - i,
    {
        let c = rule.get_char(i);
        let ghost before = words(out@);
        let ghost old_start = start;
        proof {
            assert(rule@.take(i + 1).drop_last() =~= rule@.take(i as int));
            assert(rule@.take(i + 1).last() == c);
            lemma_pieces_nonempty(rule@.take(i as int));
        }
        if c == ' ' {
            out.push(rule.substring_char(start, i));
            start = i + 1;
            proof {
                assert(words(out@) =~= before.push(rule@.subrange(old_start as int, i as int)));
                assert(rule@.subrange(start as int, i + 1) =~= Seq::<char>::empty());
            }
        } else {
            proof {
                assert(rule@.subrange(start as int, i + 1) =~= rule@.subrange(start as int, i as int).push(c));
            }
        }
        i += 1;
        proof {
            assert(words(out@).push(rule@.subrange(start as int, i as int)) =~= pieces(rule@.take(i as int)));
        }
    }
    out.push(rule.substring_char(start, n));
    proof {
        assert(rule@.take(n as int) =~= rule@);
        assert(words(out@) =~= pieces(rule@));
    }
    out
}

/// Reads a rule from its text: a gate, then an action, with no word left
/// over; any other text gives `None`.
pub fn read_rule(rule: &str) -> (r: Option<Rule>)
    ensures
        r == rule_of(rule@),
        r matches Some(x) ==> x.wf(),
{
    let tokens = split_words(rule);
    let n = tokens.len();
    let mut runes: Vec<&str> = Vec::new();
    while runes.len() < n
        invariant
            n == tokens@.len(),
            runes@.len() <= n,
            forall|k: int| 0 <= k < runes@.len() ==> #[trigger] runes@[k] == tokens@[n - 1 - k],
        decreases n - runes@.len(),
    {
        let k = runes.len();
        runes.push(tokens[n - 1 - k]);
    }
    assert(words(runes@) =~= reversed(pieces(rule@)));
    let gate = match read_gate(&mut runes) {
        Some(Rune::Gate(g)) => g,
        _ => {
            return None;
        },
    };
    let action = match read_action(&mut runes) {
        Some(Rune::Action(a)) => a,
        _ => {
            return None;
        },
    };
    if runes.len() != 0 {
        return None;
    }
    Some(Rule { gate, action })
}

} // verus!
