use combat_core::character::Character;
use combat_core::character::Health;
use combat_core::effects::Effect;
use combat_core::errors::DispatchError;
use combat_core::errors::StructuralError;
use combat_core::errors::TurnError;
use combat_core::flow::CharacterManager;
use combat_core::flow::Runtime;
use combat_core::positioning::Grid;
use combat_core::positioning::Point;
use combat_core::skills::cast;
use combat_core::skills::Skill;
use combat_core::skills::SkillAction;
use combat_core::skills::SkillCapability;
use combat_core::skills::TargetSpec;

fn named(id: &str, hp: i32) -> Character {
    let mut c = Character::default();
    c.id = String::from(id);
    c.hp = Health::new(hp, 1000);
    c
}

fn roster_ab() -> CharacterManager {
    let mut cm = CharacterManager::new();
    cm.append(named("A", 1000));
    cm.append(named("B", 1000));
    cm
}

#[test]
fn location_skill_rejects_single_target_spec() {
    let mut cm = roster_ab();
    let grid = Grid::default();
    let skill = Skill {
        capability: SkillCapability::HasLocation,
        action: SkillAction::RegenPercent(20),
    };
    let r = cast(&mut cm, &grid, &skill, &String::from("A"), &TargetSpec::Single(
        String::from("B"),
    ));
    assert_eq!(r.unwrap_err(), DispatchError::TargetShapeMismatch);
    // no partial effects: both combatants untouched
    assert_eq!(cm.health_at(0), 1000);
    assert_eq!(cm.health_at(1), 1000);
}

#[test]
fn single_target_skill_rejects_location_spec() {
    let mut cm = roster_ab();
    let grid = Grid::default();
    let skill = Skill {
        capability: SkillCapability::HasOneTarget,
        action: SkillAction::DamageFlat(100),
    };
    let r = cast(&mut cm, &grid, &skill, &String::from("A"), &TargetSpec::Location(
        Point::new(3, 3),
    ));
    assert_eq!(r.unwrap_err(), DispatchError::TargetShapeMismatch);
}

#[test]
fn unknown_caster_is_rejected() {
    let mut cm = roster_ab();
    let grid = Grid::default();
    let skill = Skill {
        capability: SkillCapability::OnlyCaster,
        action: SkillAction::RegenPercent(20),
    };
    let r = cast(&mut cm, &grid, &skill, &String::from("nobody"), &TargetSpec::Caster);
    assert_eq!(r.unwrap_err(), DispatchError::InvalidCaster);
}

#[test]
fn dead_caster_is_rejected() {
    let mut cm = CharacterManager::new();
    cm.append(named("A", 0));
    let grid = Grid::default();
    let skill = Skill {
        capability: SkillCapability::OnlyCaster,
        action: SkillAction::RegenPercent(20),
    };
    let r = cast(&mut cm, &grid, &skill, &String::from("A"), &TargetSpec::Caster);
    assert_eq!(r.unwrap_err(), DispatchError::InvalidCaster);
    assert_eq!(cm.health_at(0), 0);
}

#[test]
fn dead_target_is_rejected() {
    let mut cm = CharacterManager::new();
    cm.append(named("A", 1000));
    cm.append(named("B", 0));
    let grid = Grid::default();
    let skill = Skill {
        capability: SkillCapability::HasOneTarget,
        action: SkillAction::DamageFlat(100),
    };
    let r = cast(&mut cm, &grid, &skill, &String::from("A"), &TargetSpec::Single(
        String::from("B"),
    ));
    assert_eq!(r.unwrap_err(), DispatchError::InvalidTarget);
}

#[test]
fn out_of_bounds_location_is_rejected() {
    let mut cm = roster_ab();
    let grid = Grid::default();
    let skill = Skill {
        capability: SkillCapability::HasLocation,
        action: SkillAction::RegenPercent(20),
    };
    let r = cast(&mut cm, &grid, &skill, &String::from("A"), &TargetSpec::Location(
        Point::new(20, 5),
    ));
    assert_eq!(r.unwrap_err(), DispatchError::OutOfBounds);
    let ok = cast(&mut cm, &grid, &skill, &String::from("A"), &TargetSpec::Location(
        Point::new(11, 11),
    ));
    assert_eq!(ok.unwrap().affected, 0);
}

#[test]
fn multiple_targets_each_take_damage() {
    let mut cm = roster_ab();
    let grid = Grid::default();
    let skill = Skill {
        capability: SkillCapability::HasMultipleTarget,
        action: SkillAction::DamageFlat(300),
    };
    let targets = TargetSpec::Multiple(vec![String::from("A"), String::from("B")]);
    let summary = cast(&mut cm, &grid, &skill, &String::from("A"), &targets).unwrap();
    assert_eq!(summary.affected, 2);
    assert_eq!(cm.health_at(0), 700);
    assert_eq!(cm.health_at(1), 700);
}

#[test]
fn duplicate_targets_compound() {
    let mut cm = roster_ab();
    let grid = Grid::default();
    let skill = Skill {
        capability: SkillCapability::HasMultipleTarget,
        action: SkillAction::DamageFlat(300),
    };
    let targets = TargetSpec::Multiple(vec![String::from("B"), String::from("B")]);
    let summary = cast(&mut cm, &grid, &skill, &String::from("A"), &targets).unwrap();
    assert_eq!(summary.affected, 2);
    assert_eq!(cm.health_at(0), 1000);
    assert_eq!(cm.health_at(1), 400);
}

#[test]
fn regen_scenario_heals_fifth_of_maximum() {
    let mut rt = Runtime::init();
    let mut c = Character::default();
    c.id = String::from("A");
    c.hp = Health::new(500, 1000);
    rt.char_append(c).unwrap();
    rt.runtime_start().unwrap();
    let skill = Skill {
        capability: SkillCapability::OnlyCaster,
        action: SkillAction::RegenPercent(20),
    };
    rt.turn_execute(&skill, &TargetSpec::Caster).unwrap();
    assert_eq!(rt.characters.health_at(0), 700);
}

#[test]
fn grant_effect_is_applied_then_ticked_once() {
    let mut rt = Runtime::init();
    rt.char_create(String::from("A"), 100).unwrap();
    rt.char_create(String::from("B"), 50).unwrap();
    rt.runtime_start().unwrap();
    let skill = Skill {
        capability: SkillCapability::HasOneTarget,
        action: SkillAction::GrantEffect { effect: Effect::AtkEnhanced, turns: 3 },
    };
    rt.turn_execute(&skill, &TargetSpec::Single(String::from("B"))).unwrap();
    assert_eq!(rt.characters.content[1].effects.0.len(), 1);
    assert_eq!(rt.characters.content[1].effects.0[0].remain_turn, 2);
    assert!(rt.characters.content[0].effects.0.is_empty());
}

#[test]
fn rejected_turn_leaves_runtime_unchanged() {
    let mut rt = Runtime::init();
    rt.char_create(String::from("A"), 100).unwrap();
    rt.char_create(String::from("B"), 50).unwrap();
    rt.runtime_start().unwrap();
    let skill = Skill {
        capability: SkillCapability::HasLocation,
        action: SkillAction::RegenPercent(20),
    };
    let r = rt.turn_execute(&skill, &TargetSpec::Single(String::from("B")));
    assert_eq!(r.unwrap_err(), TurnError::Dispatch(DispatchError::TargetShapeMismatch));
    assert_eq!(rt.turn_counter.count, 0);
    assert_eq!(rt.characters.action_value_at(0), 1000);
    assert_eq!(rt.characters.action_value_at(1), 1000);
    assert_eq!(rt.characters.health_at(0), 1000);
}

#[test]
fn lifecycle_errors_are_reported() {
    let mut rt = Runtime::init();
    assert_eq!(rt.runtime_start().unwrap_err(), StructuralError::EmptyRoster);
    let skill = Skill {
        capability: SkillCapability::OnlyCaster,
        action: SkillAction::RegenPercent(20),
    };
    assert_eq!(
        rt.turn_execute(&skill, &TargetSpec::Caster).unwrap_err(),
        TurnError::Lifecycle(StructuralError::NotStarted)
    );
    rt.char_create(String::from("A"), 100).unwrap();
    rt.runtime_start().unwrap();
    assert_eq!(rt.runtime_start().unwrap_err(), StructuralError::AlreadyStarted);
    assert_eq!(
        rt.char_append(named("C", 500)).unwrap_err(),
        StructuralError::AlreadyStarted
    );
    assert_eq!(
        rt.char_create(String::from("D"), 10).unwrap_err(),
        StructuralError::AlreadyStarted
    );
}
