use combat_core::character::Character;
use combat_core::character::Health;
use combat_core::character::Mana;
use combat_core::effects::Effect;
use combat_core::effects::EffectManager;
use combat_core::effects::EffectStatus;
use combat_core::flow::CharacterManager;
use combat_core::positioning::Grid;
use combat_core::positioning::Point;
use combat_core::skills::Hit;

#[test]
fn effect_with_one_turn_expires_after_one_tick() {
    let mut m = EffectManager::default();
    m.apply(EffectStatus { remain_turn: 1, effect_type: Effect::AtkEnhanced });
    assert!(m.active(Effect::AtkEnhanced));
    let expired = m.tick();
    assert_eq!(expired, vec![Effect::AtkEnhanced]);
    assert!(!m.active(Effect::AtkEnhanced));
    assert!(m.0.is_empty());
}

#[test]
fn longer_effect_survives_a_tick_with_one_turn_less() {
    let mut m = EffectManager::default();
    m.apply(EffectStatus { remain_turn: 2, effect_type: Effect::AtkEnhanced });
    let expired = m.tick();
    assert!(expired.is_empty());
    assert_eq!(m.0.len(), 1);
    assert_eq!(m.0[0].remain_turn, 1);
    let expired2 = m.tick();
    assert_eq!(expired2, vec![Effect::AtkEnhanced]);
    assert!(m.0.is_empty());
}

#[test]
fn reapplying_an_active_kind_refreshes_instead_of_stacking() {
    let mut m = EffectManager::default();
    m.apply(EffectStatus { remain_turn: 3, effect_type: Effect::AtkEnhanced });
    m.apply(EffectStatus { remain_turn: 5, effect_type: Effect::AtkEnhanced });
    assert_eq!(m.0.len(), 1);
    assert_eq!(m.0[0].remain_turn, 5);
}

#[test]
fn regeneration_is_clamped_at_maximum() {
    let mut h = Health::new(950, 1000);
    h.regen_percent(20);
    assert_eq!(h.value, 1000);
    assert_eq!(h.max, 1000);
}

#[test]
fn regeneration_adds_percent_of_maximum() {
    let mut h = Health::new(100, 1000);
    h.regen_percent(15);
    assert_eq!(h.value, 250);
}

#[test]
fn damage_is_clamped_at_zero() {
    let mut h = Health::new(100, 1000);
    h.damage(500);
    assert_eq!(h.value, 0);
    let mut h2 = Health::new(800, 1000);
    h2.damage(300);
    assert_eq!(h2.value, 500);
}

#[test]
fn default_pools_match_the_reference_values() {
    let c = Character::default();
    assert_eq!(c.hp.value, 1000);
    assert_eq!(c.hp.max, 1000);
    assert_eq!(c.mp.value, 100);
    assert_eq!(c.mp.max, 100);
    assert_eq!(c.inborn.atk, 100);
    assert_eq!(c.inborn.def, 100);
    assert_eq!(c.inborn.spd, 100);
    assert_eq!(c.action_value.value, 1000);
    assert!(c.id.is_empty());
    let m = Mana::new(40, 90);
    assert_eq!(m.value, 40);
    assert_eq!(m.max, 90);
}

#[test]
fn hit_regenerates_a_fifth_of_maximum_health() {
    let mut c = Character::default();
    c.hp = Health::new(500, 1000);
    Hit::cast(&mut c);
    assert_eq!(c.hp.value, 700);
    Hit::cast(&mut c);
    Hit::cast(&mut c);
    assert_eq!(c.hp.value, 1000);
}

#[test]
fn grid_reports_size_and_bounds() {
    let g = Grid::default();
    let size = g.size();
    assert_eq!(size.x, 12);
    assert_eq!(size.y, 12);
    assert!(g.is_within(&Point::new(0, 0)));
    assert!(g.is_within(&Point::new(11, 11)));
    assert!(!g.is_within(&Point::new(12, 0)));
    assert!(!g.is_within(&Point::new(-1, 3)));
}

#[test]
fn contains_id_sees_every_member() {
    let mut cm = CharacterManager::new();
    let mut c = Character::default();
    c.id = String::from("A");
    cm.append(c);
    assert!(cm.contains_id(&String::from("A")));
    assert!(!cm.contains_id(&String::from("B")));
    assert_eq!(cm.id_at(0), String::from("A"));
}
