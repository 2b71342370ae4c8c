use battle_logic::effect::{Consequence, Effect, Weapon};
use battle_logic::fighter::Fighter;
use battle_logic::predefined::{dummy_fighter, AllRules, AllWeapons, Fighters};
use battle_logic::rule::{Action, Target};
use battle_logic::stats::{AttackType, Element, Stat, StatWeights, Stats};

#[test]
fn weighted_powers() {
    let arches = Fighters::Arches.new();
    // attack 5, defense 10, nature 10, demon 0, speed 10
    assert_eq!(arches.physical_attack(&Element::Neutral), (5 * 4 + 10) / 5);
    assert_eq!(arches.physical_attack(&Element::Natural), (5 * 4 - 10) / 8);
    assert_eq!(arches.physical_attack(&Element::Demonic), (5 * 4 + 10 * 4) / 8);
    assert_eq!(arches.physical_defense(&Element::Neutral), 10);
    assert_eq!(arches.physical_defense(&Element::Natural), (10 * 4 + 10 * 2) / 6);
    assert_eq!(arches.physical_defense(&Element::Demonic), (10 * 4 - 10 * 2) / 6);
    assert_eq!(arches.magical_attack(&Element::Neutral), 5);
    assert_eq!(arches.magical_attack(&Element::Natural), 0);
    assert_eq!(arches.magical_defense(&Element::Natural), (10 + 10) / 2);
    assert_eq!(arches.magical_defense(&Element::Demonic), 0);
}

#[test]
fn calc_normalises_and_clamps() {
    let s = Stats::new(1, 10, 20, 30, 40, 50);
    let w = StatWeights::new(1, 1, 0, 0, 0);
    assert_eq!(w.sum(), 2);
    assert_eq!(s.calc(w), 15);
    let w = StatWeights::new(-3, 1, -1, 2, 0);
    assert_eq!(w.sum(), 3);
    assert_eq!(s.calc(w), 13);
    let w = StatWeights::new(1, -5, 0, 0, 0);
    assert_eq!(s.calc(w), 0);
    assert_eq!(StatWeights::new(127, 127, 127, 127, 127).sum(), 635);
    let big = Stats::new(65535, 65535, 65535, 65535, 65535, 65535);
    assert_eq!(big.calc(StatWeights::new(127, 127, 127, 127, 127)), 65535);
}

#[test]
fn stats_reset_keeps_health() {
    let mut s = Stats::new(7, 1, 2, 3, 4, 5);
    s.reset(Stats::new(100, 10, 20, 30, 40, 50));
    assert_eq!(s, Stats::new(7, 10, 20, 30, 40, 50));
}

#[test]
fn wooden_sword_hits_the_target() {
    let mut user = dummy_fighter();
    user.weapon = Some(AllWeapons::WoodenSword.new());
    let target = Fighters::Bat.new();
    let sword = AllWeapons::WoodenSword.new();
    let out = sword.use_on_target(&user, &target);
    let attack = user.physical_attack(&Element::Natural);
    let defense = target.physical_defense(&Element::Natural);
    assert_eq!(out, vec![(false, Consequence::Attack { attack, defense, damage: 10 })]);
    assert_eq!(Action::Attack(Target::Them).execute(&user, Some(&target)), out);
}

#[test]
fn fire_rod_hits_and_lowers_defense() {
    let user = Fighters::Arches.new();
    let target = Fighters::Bat.new();
    let rod = AllWeapons::FireRod.new();
    let out = rod.use_on_target(&user, &target);
    assert_eq!(out.len(), 2);
    assert_eq!(
        out[0],
        (false, Consequence::Attack {
            attack: user.magical_attack(&Element::Demonic),
            defense: target.magical_defense(&Element::Demonic),
            damage: 15,
        })
    );
    assert_eq!(out[1], (false, Consequence::Buff { stat: Stat::Defense, amount: -5, duration: 1 }));
}

#[test]
fn effects_on_a_dead_target_do_nothing() {
    let user = Fighters::Arches.new();
    let mut target = Fighters::Bat.new();
    target.damage(60);
    assert!(!target.is_alive());
    assert!(AllWeapons::FireRod.new().use_on_target(&user, &target).is_empty());
}

#[test]
fn self_inflicted_attack_uses_own_defense() {
    let user = Fighters::Bat.new();
    let target = Fighters::Arches.new();
    let e = Effect::Attack { on_self: true, attack_type: AttackType::Physical, element: Element::Neutral, damage: 4 };
    let out = e.apply_on_target(&user, &target);
    assert_eq!(
        out,
        vec![(true, Consequence::Attack {
            attack: user.physical_attack(&Element::Neutral),
            defense: user.physical_defense(&Element::Neutral),
            damage: 4,
        })]
    );
    let heal = Effect::Heal { on_self: true, health: 5, duration: 1 };
    assert!(heal.apply_on_target(&user, &target).is_empty());
}

#[test]
fn attack_without_weapon_does_nothing() {
    let user = dummy_fighter();
    let target = Fighters::Bat.new();
    assert!(Action::Attack(Target::Them).execute(&user, Some(&target)).is_empty());
}

#[test]
fn weapon_accessors() {
    let w = Weapon { name: "Stick".to_string(), effects: vec![] };
    assert_eq!(w.get_name(), "Stick");
    assert!(w.get_effects().is_empty());
    let arches = Fighters::Arches.new();
    assert_eq!(arches.get_name(), "Arches");
    assert_eq!(arches.rules, vec![AllRules::Attack2.new()]);
    let bat: Fighter = Fighters::Bat.new();
    assert_eq!(bat.get_stat(&Stat::Speed), 4);
}
