use battle_logic::effect::{damage_dealt, Consequence};
use battle_logic::fight::{Fight, FighterID, State, MAX_TURNS};
use battle_logic::fighter::Fighter;
use battle_logic::predefined::{dummy_fighter, dummy_foe, AllRules, AllWeapons, Fighters};
use battle_logic::rule::{Action, Condition, Gate, Rule, Target};
use battle_logic::stats::{Stat, Stats};

fn fighter(name: &str, stats: Stats, rules: Vec<Rule>) -> Fighter {
    Fighter::new(name.to_string(), stats, rules, AllRules::Default.new(), None)
}

#[test]
fn default_rule() {
    let fight = Fight::build_fight(vec![dummy_fighter()], vec![]);

    let (id, f0) = &fight.fighters[0];
    assert_eq!(f0.get_rule(id, &fight), AllRules::Default.new());
}

#[test]
fn every_two_turn() {
    let mut f = dummy_fighter();
    f.set_rules(vec![AllRules::Attack2.new()]);

    let mut fight = Fight::build_fight(vec![f], vec![]);
    fight.turn = 2;

    let (id, fighter) = &fight.fighters[0];
    assert_eq!(fighter.get_rule(id, &fight), AllRules::Attack2.new());
}

#[test]
fn max_turns() {
    let team1 = vec![dummy_fighter()];
    let team2 = vec![dummy_foe()];

    assert_eq!(Fight::start(team1, team2), State::Draw);
}

#[test]
fn order_by_speed() {
    let mut fight = Fight::build_fight(vec![dummy_fighter()], vec![dummy_foe()]);
    let foe = dummy_foe().get_name().clone();
    let fighter = dummy_fighter().get_name().clone();

    {
        let (_, f0) = &fight.fighters[0];
        let (_, f1) = &fight.fighters[1];
        assert_eq!(f0.get_name(), &fighter);
        assert_eq!(f1.get_name(), &foe);
    }

    fight.turn();

    {
        let (_, f0) = &fight.fighters[0];
        let (_, f1) = &fight.fighters[1];
        assert_eq!(f0.get_name(), &foe);
        assert_eq!(f1.get_name(), &fighter);
    }
}

#[test]
fn build_assigns_ids_in_roster_order() {
    let fight = Fight::build_fight(vec![dummy_fighter(), dummy_fighter()], vec![dummy_foe()]);
    assert_eq!(fight.turn, 0);
    let ids: Vec<FighterID> = fight.fighters.iter().map(|(id, _)| *id).collect();
    assert_eq!(ids, vec![FighterID::Ally(0), FighterID::Ally(1), FighterID::Enemy(0)]);
    assert!(FighterID::Ally(3).is_ally());
    assert!(!FighterID::Enemy(0).is_ally());
    assert!(!FighterID::Nobody.is_ally());
}

#[test]
fn every_x_turn_holds_on_multiples() {
    for n in 1u8..=6 {
        let c = Condition::every_x_turn(n);
        let mut fight = Fight::build_fight(vec![dummy_fighter()], vec![]);
        for t in 0u8..=20 {
            fight.turn = t;
            assert_eq!(c.check(&FighterID::Ally(0), &fight), t % n == 0);
        }
    }
}

#[test]
fn turn_conditions() {
    let mut fight = Fight::build_fight(vec![dummy_fighter()], vec![]);
    fight.turn = 7;
    let me = FighterID::Ally(0);
    assert!(Condition::OnTurn(7).check(&me, &fight));
    assert!(!Condition::OnTurn(6).check(&me, &fight));
    assert!(Condition::FromTurnX(7).check(&me, &fight));
    assert!(Condition::FromTurnX(3).check(&me, &fight));
    assert!(!Condition::FromTurnX(8).check(&me, &fight));
}

#[test]
fn health_conditions_read_the_target() {
    let fight = Fight::build_fight(vec![dummy_fighter()], vec![]);
    let me = FighterID::Ally(0);
    // The dummy has 20 health.
    assert!(Condition::LessXHP(30, Target::Them).check(&me, &fight));
    assert!(!Condition::LessXHP(20, Target::Them).check(&me, &fight));
    assert!(Condition::MoreXHP(19, Target::Them).check(&me, &fight));
    assert!(!Condition::MoreXHP(20, Target::Them).check(&me, &fight));
    // No foe: the target resolves to no fighter and the condition is false.
    assert!(!Condition::LessXHP(200, Target::FoeLess(Stat::Health)).check(&me, &fight));
    assert!(!Condition::HasStatus(Target::Them, battle_logic::rule::Status::Poisoned).check(&me, &fight));
}

#[test]
fn gate_truth_tables() {
    let mut fight = Fight::build_fight(vec![dummy_fighter()], vec![]);
    fight.turn = 6;
    let me = FighterID::Ally(0);
    let t = Condition::EveryXTurn(2);
    let f = Condition::EveryXTurn(4);
    let cases = [(t, t), (t, f), (f, t), (f, f)];
    let expect = |g: Gate| g.check(&me, &fight);
    assert!(expect(Gate::ID(t)));
    assert!(!expect(Gate::ID(f)));
    assert!(!expect(Gate::NOT(t)));
    assert!(expect(Gate::NOT(f)));
    let and = [true, false, false, false];
    let or = [true, true, true, false];
    let xor = [false, true, true, false];
    for (i, (a, b)) in cases.iter().enumerate() {
        assert_eq!(expect(Gate::AND(*a, *b)), and[i]);
        assert_eq!(expect(Gate::NAND(*a, *b)), !and[i]);
        assert_eq!(expect(Gate::OR(*a, *b)), or[i]);
        assert_eq!(expect(Gate::NOR(*a, *b)), !or[i]);
        assert_eq!(expect(Gate::XOR(*a, *b)), xor[i]);
        assert_eq!(expect(Gate::NXOR(*a, *b)), !xor[i]);
    }
}

#[test]
fn first_matching_rule_wins() {
    let defend_on_three = Rule { gate: Gate::ID(Condition::OnTurn(3)), action: Action::Defense };
    let attack_from_two = Rule {
        gate: Gate::ID(Condition::FromTurnX(2)),
        action: Action::Attack(Target::FoeMost(Stat::Attack)),
    };
    let f = fighter("a", Stats::new(10, 1, 1, 0, 0, 1), vec![defend_on_three, attack_from_two]);
    let mut fight = Fight::build_fight(vec![f], vec![]);
    let expected = [
        (1u8, AllRules::Default.new()),
        (2, attack_from_two),
        (3, defend_on_three),
        (4, attack_from_two),
    ];
    for (t, rule) in expected {
        fight.turn = t;
        let (id, f) = &fight.fighters[0];
        assert_eq!(f.get_rule(id, &fight), rule);
    }
}

#[test]
fn rules_that_never_match_give_the_default() {
    let never = Rule { gate: Gate::ID(Condition::OnTurn(200)), action: Action::Defense };
    let also_never = Rule { gate: Gate::AND(Condition::OnTurn(1), Condition::OnTurn(2)), action: Action::Defense };
    let f = fighter("a", Stats::new(10, 1, 1, 0, 0, 1), vec![never, also_never]);
    let mut fight = Fight::build_fight(vec![f], vec![]);
    for t in 0u8..=50 {
        fight.turn = t;
        let (id, f) = &fight.fighters[0];
        assert_eq!(f.get_rule(id, &fight), AllRules::Default.new());
    }
}

#[test]
fn target_resolution_breaks_ties_by_roster_order() {
    let a = fighter("a", Stats::new(10, 3, 1, 0, 0, 1), vec![]);
    let b = fighter("b", Stats::new(30, 7, 1, 0, 0, 1), vec![]);
    let c = fighter("c", Stats::new(10, 7, 1, 0, 0, 1), vec![]);
    let x = fighter("x", Stats::new(5, 1, 1, 0, 0, 1), vec![]);
    let fight = Fight::build_fight(vec![a, b, c], vec![x]);
    let me = FighterID::Ally(0);
    assert_eq!(Target::Them.resolve(&me, &fight), me);
    assert_eq!(Target::AllyMost(Stat::Attack).resolve(&me, &fight), FighterID::Ally(1));
    assert_eq!(Target::AllyLess(Stat::Health).resolve(&me, &fight), FighterID::Ally(0));
    assert_eq!(Target::AllyMost(Stat::Health).resolve(&me, &fight), FighterID::Ally(1));
    assert_eq!(Target::FoeMost(Stat::Health).resolve(&me, &fight), FighterID::Enemy(0));
    assert_eq!(Target::FoeLess(Stat::Health).resolve(&FighterID::Enemy(0), &fight), FighterID::Ally(0));
    assert_eq!(Target::AllyLess(Stat::Speed).resolve(&FighterID::Enemy(0), &fight), FighterID::Enemy(0));
}

#[test]
fn empty_foe_side_resolves_to_nobody_and_attack_does_nothing() {
    let mut f = dummy_fighter();
    f.weapon = Some(AllWeapons::WoodenSword.new());
    let fight = Fight::build_fight(vec![f], vec![]);
    let me = FighterID::Ally(0);
    let attack = Action::Attack(Target::FoeLess(Stat::Health));
    let target = attack.get_target(&me, &fight);
    assert_eq!(target, FighterID::Nobody);
    assert!(fight.get_fighter(target).is_none());
    assert!(attack.execute(&fight.fighters[0].1, None).is_empty());

    // A whole turn with that attack goes through and leaves the attacker untouched.
    let mut f = dummy_fighter();
    f.weapon = Some(AllWeapons::WoodenSword.new());
    f.set_rules(vec![Rule { gate: Gate::ID(Condition::EveryXTurn(1)), action: attack }]);
    let mut fight = Fight::build_fight(vec![f], vec![]);
    assert_eq!(fight.turn(), Some(State::AlliesVictory));
    assert_eq!(fight.fighters[0].1.stats.health, 20);
}

#[test]
fn check_state_sides() {
    let mut fight = Fight::build_fight(vec![dummy_fighter()], vec![dummy_foe()]);
    assert_eq!(fight.check_state(), None);
    fight.fighters[1].1.damage(20);
    assert_eq!(fight.check_state(), Some(State::AlliesVictory));
    let mut fight = Fight::build_fight(vec![dummy_fighter()], vec![dummy_foe()]);
    fight.fighters[0].1.damage(25);
    assert_eq!(fight.check_state(), Some(State::EnemiesVictory));
}

#[test]
fn scenario_b_waiting_fighters_draw_after_the_cap() {
    let ally = fighter("ally", Stats::new(10, 1, 1, 0, 0, 3), vec![]);
    let enemy = fighter("enemy", Stats::new(10, 1, 1, 0, 0, 2), vec![]);
    let mut fight = Fight::build_fight(vec![ally], vec![enemy]);
    let mut steps = 0;
    let result = loop {
        steps += 1;
        if let Some(s) = fight.turn() {
            break s;
        }
    };
    assert_eq!(result, State::Draw);
    assert_eq!(fight.turn, 51);
    assert_eq!(fight.turn, MAX_TURNS + 1);
    assert_eq!(steps, 51);
}

#[test]
fn scenario_c_faster_ally_comes_first() {
    // The ally is listed after the enemy, and every turn resets its stats.
    let ally = fighter("ally", Stats::new(10, 1, 1, 0, 0, 9), vec![]);
    let enemy = fighter("enemy", Stats::new(10, 1, 1, 0, 0, 5), vec![]);
    let mut fight = Fight::build_fight(vec![], vec![enemy]);
    fight.fighters.push((FighterID::Ally(0), ally));
    assert_eq!(fight.order_by_speed(), vec![FighterID::Ally(0), FighterID::Enemy(0)]);
    for _ in 0..5 {
        assert_eq!(fight.turn(), None);
        assert_eq!(fight.fighters[0].0, FighterID::Ally(0));
        assert_eq!(fight.fighters[1].0, FighterID::Enemy(0));
    }
}

#[test]
fn speed_changes_between_turns_reorder_the_roster() {
    let slow = fighter("slow", Stats::new(10, 1, 1, 0, 0, 1), vec![]);
    let fast = fighter("fast", Stats::new(10, 1, 1, 0, 0, 8), vec![]);
    let mut fight = Fight::build_fight(vec![slow], vec![fast]);
    assert_eq!(fight.order_by_speed(), vec![FighterID::Enemy(0), FighterID::Ally(0)]);
    // A buff on the slow one's speed lasts until its next turn.
    Consequence::Buff { stat: Stat::Speed, amount: 20, duration: 1 }.apply_on(&mut fight.fighters[1].1);
    assert_eq!(fight.order_by_speed(), vec![FighterID::Ally(0), FighterID::Enemy(0)]);
    assert_eq!(fight.turn(), None);
    // Its turn reset the speed: the next turn puts the fast one first again.
    assert_eq!(fight.order_by_speed(), vec![FighterID::Enemy(0), FighterID::Ally(0)]);
}

#[test]
fn scenario_d_victory_ends_the_turn_at_once() {
    let mut striker = fighter(
        "striker",
        Stats::new(10, 50, 1, 0, 0, 9),
        vec![Rule { gate: Gate::ID(Condition::EveryXTurn(1)), action: Action::Attack(Target::FoeLess(Stat::Health)) }],
    );
    striker.weapon = Some(AllWeapons::WoodenSword.new());
    let mut idle = fighter("idle", Stats::new(10, 1, 1, 0, 0, 1), vec![]);
    // A working stat that the idle one's own turn would reset.
    idle.stats.attack = 99;
    let victim = fighter("victim", Stats::new(1, 0, 0, 0, 0, 5), vec![]);
    let mut fight = Fight::build_fight(vec![striker, idle], vec![victim]);
    assert_eq!(fight.turn(), Some(State::AlliesVictory));
    let victim = fight.get_fighter(FighterID::Enemy(0)).unwrap();
    assert_eq!(victim.stats.health, 0);
    assert!(!victim.is_alive());
    let idle = fight.get_fighter(FighterID::Ally(1)).unwrap();
    assert_eq!(idle.stats.attack, 99);
}

#[test]
fn scenario_a_damage_formula() {
    assert_eq!(damage_dealt(10, 0, 10), 10);
    let mut target = fighter("target", Stats::new(50, 0, 0, 0, 0, 0), vec![]);
    Consequence::Attack { attack: 10, defense: 0, damage: 10 }.apply_on(&mut target);
    assert_eq!(target.stats.health, 40);
    assert!(target.is_alive());
}

#[test]
fn damage_with_zero_powers_is_the_raw_damage() {
    for d in [0u16, 1, 7, 100, 65535] {
        assert_eq!(damage_dealt(0, 0, d), d);
    }
}

#[test]
fn damage_formula_values() {
    assert_eq!(damage_dealt(1, 1, 9), 6);
    assert_eq!(damage_dealt(0, 9, 10), 1);
    assert_eq!(damage_dealt(0, 10, 10), 0);
    assert_eq!(damage_dealt(65535, 65535, 65535), 32767);
}

#[test]
fn lethal_damage_kills_once() {
    let mut target = fighter("target", Stats::new(15, 0, 0, 0, 0, 0), vec![]);
    Consequence::Attack { attack: 0, defense: 0, damage: 15 }.apply_on(&mut target);
    assert_eq!(target.stats.health, 0);
    assert!(!target.is_alive());
    // A dead fighter is left as it is, heal included.
    Consequence::Buff { stat: Stat::Health, amount: 30, duration: 0 }.apply_on(&mut target);
    assert_eq!(target.stats.health, 0);
    assert!(!target.is_alive());
}

#[test]
fn buffs_are_clamped_and_reset_next_turn() {
    let mut f = fighter("f", Stats::new(15, 4, 3, 0, 0, 2), vec![]);
    Consequence::Buff { stat: Stat::Defense, amount: -10, duration: 1 }.apply_on(&mut f);
    assert_eq!(f.get_stat(&Stat::Defense), 0);
    Consequence::Buff { stat: Stat::Attack, amount: 70000, duration: 1 }.apply_on(&mut f);
    assert_eq!(f.get_stat(&Stat::Attack), 65535);
    f.turn();
    assert_eq!(f.stats, Stats::new(15, 4, 3, 0, 0, 2));
    Consequence::Buff { stat: Stat::Health, amount: -15, duration: 1 }.apply_on(&mut f);
    assert!(!f.is_alive());
}

#[test]
fn defense_raises_defense_until_the_next_turn() {
    let mut f = fighter("f", Stats::new(15, 4, 3, 0, 0, 2), vec![]);
    let out = Action::Defense.execute(&f, None);
    assert_eq!(out, vec![(true, Consequence::Buff { stat: Stat::Defense, amount: 3, duration: 0 })]);
    out[0].1.apply_on(&mut f);
    assert_eq!(f.get_stat(&Stat::Defense), 6);
    assert!(Action::Wait.execute(&f, Some(&f)).is_empty());
}

#[test]
fn validity_checks() {
    assert!(dummy_fighter().is_valid());
    assert!(Condition::EveryXTurn(3).is_valid());
    assert!(!Condition::EveryXTurn(0).is_valid());
    assert!(!Gate::XOR(Condition::OnTurn(1), Condition::EveryXTurn(0)).is_valid());
    let mut f = dummy_fighter();
    f.set_rules(vec![Rule { gate: Gate::NOT(Condition::EveryXTurn(0)), action: Action::Wait }]);
    assert!(!f.is_valid());
    let mut g = dummy_fighter();
    g.alive = false;
    assert!(!g.is_valid());
}

#[test]
fn catalogue_fight_ends() {
    let allies = vec![Fighters::Arches.new(), Fighters::Arches.new()];
    let enemies = vec![Fighters::Bat.new()];
    assert!(allies.iter().chain(enemies.iter()).all(|f| f.is_valid()));
    let mut fight = Fight::build_fight(allies, enemies);
    let result = loop {
        if let Some(s) = fight.turn() {
            break s;
        }
    };
    assert!(fight.turn <= MAX_TURNS + 1);
    match result {
        State::Draw => assert_eq!(fight.turn, MAX_TURNS + 1),
        s => assert_eq!(fight.check_state(), Some(s)),
    }
}
