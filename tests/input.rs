use battle_logic::input::{read_number, read_rule, read_stat, read_target, Rune};
use battle_logic::rule::{Action, Condition, Gate, Rule, Target};
use battle_logic::stats::Stat;

#[test]
fn test() {
    let c1 = Condition::EveryXTurn(2);
    let c2 = Condition::EveryXTurn(3);
    for (id, gate) in [
        ("ID", Gate::ID(c1.clone())),
        ("NOT", Gate::NOT(c1.clone()))
    ] {
        assert_eq!(read_rule(id), None);
        assert_eq!(read_rule(&format!("{} EXT 2 W", id)),
                   Some(Rule { gate, action: Action::Wait, }));
    }

    for (id, gate) in [
        ("AND", Gate::AND(c1.clone(), c2.clone())),
        ("NAND", Gate::NAND(c1.clone(), c2.clone())),
        ("OR", Gate::OR(c1.clone(), c2.clone())),
        ("XOR", Gate::XOR(c1.clone(), c2.clone())),
        ("NOR", Gate::NOR(c1.clone(), c2.clone())),
        ("NXOR", Gate::NXOR(c1.clone(), c2.clone())),
    ] {
        assert_eq!(read_rule(id), None);
        assert_eq!(read_rule(&format!("{} EXT 2 EXT 3 W", id)),
                   Some(Rule { gate, action: Action::Wait, }));
    }

    for (id, cond) in [
        ("EXT 2", Condition::EveryXTurn(2)),
        ("T= 2", Condition::OnTurn(2)),
        ("T> 2", Condition::FromTurnX(2)),
        ("HP> 10 SLF", Condition::MoreXHP(10, Target::Them)),
        ("HP< 10 SLF", Condition::LessXHP(10, Target::Them)),
    ] {
        assert_eq!(read_rule(&format!("ID {}", id)), None);
        assert_eq!(read_rule(&format!("ID {} W", id)),
                   Some(Rule { gate: Gate::ID(cond), action: Action::Wait }));
    }

    for (id, action) in [
        ("ATK SLF", Action::Attack(Target::Them)),
        ("DEF", Action::Defense),
        ("W", Action::Wait),
    ] {
        assert_eq!(read_rule(&format!("ID EXT 1 {}", id)),
                   Some(Rule { gate: Gate::ID(Condition::EveryXTurn(1)), action }))
    }
}

#[test]
fn targets_with_stats() {
    assert_eq!(
        read_rule("OR T= 3 HP< 40 AL- HP ATK FO+ SPD"),
        Some(Rule {
            gate: Gate::OR(Condition::OnTurn(3), Condition::LessXHP(40, Target::AllyLess(Stat::Health))),
            action: Action::Attack(Target::FoeMost(Stat::Speed)),
        })
    );
    assert_eq!(
        read_rule("NOT HP> 5 AL+ DEF ATK FO- NAT"),
        Some(Rule {
            gate: Gate::NOT(Condition::MoreXHP(5, Target::AllyMost(Stat::Defense))),
            action: Action::Attack(Target::FoeLess(Stat::Nature)),
        })
    );
    assert_eq!(read_rule("ID EXT 1 ATK FO- DEM").map(|r| r.action), Some(Action::Attack(Target::FoeLess(Stat::Demon))));
    assert_eq!(read_rule("ID EXT 1 ATK FO- WIS"), None);
    assert_eq!(read_rule("ID EXT 1 ATK XX HP"), None);
}

#[test]
fn every_word_must_be_read() {
    assert_eq!(read_rule("ID EXT 2 W W"), None);
    assert_eq!(read_rule("ID EXT 2 W "), None);
    assert_eq!(read_rule(" ID EXT 2 W"), None);
    assert_eq!(read_rule("ID  EXT 2 W"), None);
    assert_eq!(read_rule(""), None);
    assert_eq!(read_rule("W"), None);
    assert_eq!(read_rule("STA SLF W"), None);
}

#[test]
fn zero_modulus_is_refused() {
    assert_eq!(read_rule("ID EXT 0 W"), None);
    assert_eq!(read_rule("ID T= 0 W"), Some(Rule { gate: Gate::ID(Condition::OnTurn(0)), action: Action::Wait }));
}

#[test]
fn numbers_read_like_u8() {
    for (word, expected) in [
        ("0", Some(0u8)),
        ("7", Some(7)),
        ("+7", Some(7)),
        ("007", Some(7)),
        ("255", Some(255)),
        ("256", None),
        ("1000", None),
        ("-1", None),
        ("+", None),
        ("", None),
        ("1a", None),
        ("99999999999", None),
    ] {
        assert_eq!(word.parse::<u8>().ok(), expected);
        let mut stack = vec!["rest", word];
        let got = match read_number(&mut stack) {
            Some(Rune::Number(n)) => Some(n),
            _ => None,
        };
        assert_eq!(got, expected);
        assert_eq!(stack, vec!["rest"]);
    }
    let mut empty: Vec<&str> = vec![];
    assert!(read_number(&mut empty).is_none());
}

#[test]
fn stack_readers_pop_from_the_end() {
    let mut stack = vec!["HP", "FO+"];
    assert_eq!(read_target(&mut stack), Some(Rune::Target(Target::FoeMost(Stat::Health))));
    assert!(stack.is_empty());
    let mut stack = vec!["SPD", "x"];
    assert_eq!(read_stat(&mut stack), None);
    assert_eq!(stack, vec!["SPD"]);
    assert_eq!(read_stat(&mut stack), Some(Rune::Stat(Stat::Speed)));
}
