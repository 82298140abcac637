use combat_core::character::Character;
use combat_core::character::Health;
use combat_core::errors::StructuralError;
use combat_core::flow::ActionValue;
use combat_core::flow::CharacterManager;
use combat_core::flow::Runtime;
use combat_core::flow::TurnCounter;
use combat_core::skills::Hit;
use combat_core::skills::TargetSpec;

fn two_speed_runtime() -> Runtime {
    let mut rt = Runtime::init();
    rt.char_create(String::from("A"), 100).unwrap();
    rt.char_create(String::from("B"), 50).unwrap();
    rt.runtime_start().unwrap();
    rt
}

#[test]
fn first_advance_selects_faster_combatant() {
    let mut rt = two_speed_runtime();
    let skill = Hit::skill();
    let s1 = rt.turn_execute(&skill, &TargetSpec::Caster).unwrap();
    assert_eq!(s1.actor, 0);
    assert_eq!(s1.elapsed, 10);
    assert_eq!(rt.characters.action_value_at(0), 1000);
    assert_eq!(rt.characters.action_value_at(1), 500);
    assert_eq!(rt.turn_counter.count, 1);
}

#[test]
fn tie_is_broken_by_insertion_order() {
    let mut rt = two_speed_runtime();
    let skill = Hit::skill();
    rt.turn_execute(&skill, &TargetSpec::Caster).unwrap();
    let s2 = rt.turn_execute(&skill, &TargetSpec::Caster).unwrap();
    assert_eq!(s2.actor, 0);
    assert_eq!(s2.elapsed, 10);
    assert_eq!(rt.characters.action_value_at(0), 1000);
    assert_eq!(rt.characters.action_value_at(1), 0);
    let s3 = rt.turn_execute(&skill, &TargetSpec::Caster).unwrap();
    assert_eq!(s3.actor, 1);
    assert_eq!(s3.elapsed, 0);
    assert_eq!(rt.characters.action_value_at(1), 1000);
}

#[test]
fn select_next_returns_index_present_in_roster() {
    let mut cm = CharacterManager::new();
    let mut a = Character::default();
    a.id = String::from("slow");
    a.inborn.spd = 0;
    let mut b = Character::default();
    b.id = String::from("alsoslow");
    b.inborn.spd = 0;
    cm.append(a);
    cm.append(b);
    let (idx, elapsed) = cm.select_next().unwrap();
    assert!(idx < cm.len());
    assert_eq!(idx, 0);
    assert_eq!(elapsed, 1000);
    assert_eq!(cm.action_value_at(0), 0);
    assert_eq!(cm.action_value_at(1), 0);
}

#[test]
fn select_next_on_empty_roster_is_rejected() {
    let mut cm = CharacterManager::new();
    assert_eq!(cm.select_next().unwrap_err(), StructuralError::EmptyRoster);
}

#[test]
fn select_next_is_deterministic() {
    let mut cm1 = CharacterManager::new();
    let mut cm2 = CharacterManager::new();
    for (name, spd, hp) in [("x", 73, 400), ("y", 19, 900), ("z", 73, 1000)] {
        for cm in [&mut cm1, &mut cm2] {
            let mut c = Character::default();
            c.id = String::from(name);
            c.inborn.spd = spd;
            c.hp = Health::new(hp, 1000);
            cm.append(c);
        }
    }
    let r1 = cm1.select_next().unwrap();
    let r2 = cm2.select_next().unwrap();
    assert_eq!(r1, r2);
    for i in 0..cm1.len() {
        assert_eq!(cm1.action_value_at(i), cm2.action_value_at(i));
    }
}

#[test]
fn action_orders_get_next_returns_first_ready_index() {
    let mut cm = CharacterManager::new();
    let mut a = Character::default();
    a.id = String::from("A");
    a.inborn.spd = 10;
    let mut b = Character::default();
    b.id = String::from("B");
    b.inborn.spd = 200;
    cm.append(a);
    cm.append(b);
    assert_eq!(cm.action_orders_get_next().unwrap(), 1);
}

#[test]
fn faster_combatant_acts_at_least_as_often() {
    let mut rt = Runtime::init();
    rt.char_create(String::from("fast"), 130).unwrap();
    rt.char_create(String::from("slow"), 70).unwrap();
    rt.runtime_start().unwrap();
    let skill = Hit::skill();
    let mut acts = [0u32, 0u32];
    for _ in 0..200 {
        let s = rt.turn_execute(&skill, &TargetSpec::Caster).unwrap();
        acts[s.actor] += 1;
    }
    assert!(acts[0] >= acts[1]);
}

#[test]
fn turn_counter_counts_from_zero() {
    let mut t = TurnCounter::new();
    assert_eq!(t.count, 0);
    t.proceed();
    t.proceed();
    assert_eq!(t.count, 2);
}

#[test]
fn action_value_counts_down_at_effective_speed() {
    let mut av = ActionValue::new();
    assert_eq!(av.value, 1000);
    av.proceed(100, 3);
    assert_eq!(av.value, 700);
    let mut stalled = ActionValue::new();
    stalled.proceed(0, 5);
    assert_eq!(stalled.value, 995);
}

#[test]
fn carryover_preserves_speed_advantage() {
    let mut rt = Runtime::init();
    rt.char_create(String::from("A"), 300).unwrap();
    rt.runtime_start().unwrap();
    let skill = Hit::skill();
    // ticks needed: ceil(1000 / 300) = 4; av drops to 1000 - 1200 = -200,
    // then rises by 1000 to 800 instead of resetting to 1000.
    let s = rt.turn_execute(&skill, &TargetSpec::Caster).unwrap();
    assert_eq!(s.elapsed, 4);
    assert_eq!(rt.characters.action_value_at(0), 800);
}
