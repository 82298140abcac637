//! The combatant data model: stats, health, mana, sprite and identity.
//!
//! Health and mana keep the invariant `0 <= value <= max` and are mutated
//! only through clamped operations.

use vstd::prelude::*;
use crate::effects::EffectManager;
use crate::flow::ActionValue;
use crate::flow::ACTION_VALUE_INIT;
use crate::positioning::LocationManager;
use crate::skills::SkillManager;

verus! {

/// A combatant's position marker on the field.
#[derive(Clone, Copy, Debug, PartialEq, Eq, Structural)]
pub struct Sprite {
    pub location: LocationManager,
}

impl Default for Sprite {
    fn default() -> (s: Sprite)
        ensures
            s.location.0.x == 0,
            s.location.0.y == 0,
    {
        Sprite { location: LocationManager(crate::positioning::Point { x: 0, y: 0 }) }
    }
}

/// Inborn numeric attributes; all are nonnegative.
#[derive(Clone, Copy, Debug, PartialEq, Eq, Structural)]
pub struct CharacterInborn {
    pub atk: i32,
    pub def: i32,
    pub spd: i32,
}

impl CharacterInborn {
    pub open spec fn wf(self) -> bool {
        self.atk >= 0 && self.def >= 0 && self.spd >= 0
    }
}

impl Default for CharacterInborn {
    fn default() -> (c: CharacterInborn)
        ensures
            c == (CharacterInborn { atk: 100, def: 100, spd: 100 }),
            c.wf(),
    {
        CharacterInborn { atk: 100, def: 100, spd: 100 }
    }
}

/// The clamped health result of regenerating `p` percent of the maximum.
pub open spec fn regen_result(v: int, m: int, p: int) -> int {
    if v + p * m / 100 >= m {
        m
    } else {
        v + p * m / 100
    }
}

/// The clamped health result of taking `a` points of damage.
pub open spec fn damage_result(v: int, a: int) -> int {
    if v - a <= 0 {
        0
    } else {
        v - a
    }
}

/// Current and maximum health, with `0 <= value <= max`.
#[derive(Clone, Copy, Debug, PartialEq, Eq, Structural)]
pub struct Health {
    pub value: i32,
    pub max: i32,
}

impl Health {
    pub open spec fn wf(self) -> bool {
        0 <= self.value <= self.max
    }

    pub fn new(value: i32, max: i32) -> (h: Health)
        requires
            0 <= value <= max,
        ensures
            h.value == value,
            h.max == max,
            h.wf(),
    {
        Health { value, max }
    }

    /// Regenerate `percent` percent of the maximum, clamped to the maximum.
    pub fn regen_percent(&mut self, percent: i32)
        requires
            old(self).wf(),
            percent >= 0,
        ensures
            final(self).max == old(self).max,
            final(self).value as int == regen_result(
                old(self).value as int,
                old(self).max as int,
                percent as int,
            ),
            final(self).wf(),
    {
        proof {
            vstd::arithmetic::mul::lemma_mul_upper_bound(
                percent as int,
                0x7fff_ffff,
                self.max as int,
                0x7fff_ffff,
            );
            vstd::arithmetic::mul::lemma_mul_nonnegative(percent as int, self.max as int);
            vstd::arithmetic::div_mod::lemma_div_pos_is_pos(
                percent as int * self.max as int,
                100,
            );
            vstd::arithmetic::div_mod::lemma_div_nonincreasing(
                percent as int * self.max as int,
                100,
            );
        }
        let gain: u64 = (percent as u64) * (self.max as u64) / 100;
        let sum: u64 = (self.value as u64) + gain;
        if sum >= self.max as u64 {
            self.value = self.max;
        } else {
            self.value = sum as i32;
        }
    }

    /// Take `amount` points of damage, clamped so health stays at least zero.
    pub fn damage(&mut self, amount: i32)
        requires
            old(self).wf(),
            amount >= 0,
        ensures
            final(self).max == old(self).max,
            final(self).value as int == damage_result(old(self).value as int, amount as int),
            final(self).wf(),
    {
        if amount >= self.value {
            self.value = 0;
        } else {
            self.value = self.value - amount;
        }
    }
}

impl Default for Health {
    fn default() -> (h: Health)
        ensures
            h.value == 1000,
            h.max == 1000,
            h.wf(),
    {
        Health { value: 1000, max: 1000 }
    }
}

/// Current and maximum mana, with `0 <= value <= max`.
#[derive(Clone, Copy, Debug, PartialEq, Eq, Structural)]
pub struct Mana {
    pub value: i32,
    pub max: i32,
}

impl Mana {
    pub open spec fn wf(self) -> bool {
        0 <= self.value <= self.max
    }

    pub fn new(value: i32, max: i32) -> (m: Mana)
        requires
            0 <= value <= max,
        ensures
            m.value == value,
            m.max == max,
            m.wf(),
    {
        Mana { value, max }
    }
}

impl Default for Mana {
    fn default() -> (m: Mana)
        ensures
            m.value == 100,
            m.max == 100,
            m.wf(),
    {
        Mana { value: 100, max: 100 }
    }
}

/// The effective speed used by the scheduler: speed clamped to at least one,
/// so that a stalled combatant still consumes countdown ticks.
pub open spec fn eff_speed_of(spd: int) -> int {
    if spd < 1 {
        1
    } else {
        spd
    }
}

/// One combatant: identity, stats, effect tracker and scheduling counter.
#[derive(Debug)]
pub struct Character {
    pub id: String,
    pub effects: EffectManager,
    pub sprite: Sprite,
    pub inborn: CharacterInborn,
    pub skills: SkillManager,
    pub hp: Health,
    pub mp: Mana,
    pub action_value: ActionValue,
}

impl Character {
    /// Effective speed of this combatant.
    pub open spec fn eff_speed(self) -> int {
        eff_speed_of(self.inborn.spd as int)
    }

    /// Whether this combatant may still act.
    pub open spec fn alive(self) -> bool {
        self.hp.value > 0
    }

    /// Well-formedness: stats and pools keep their invariants, and the
    /// action value never drifts past one countdown step below zero nor
    /// above the initial threshold.
    pub open spec fn wf(self) -> bool {
        &&& self.inborn.wf()
        &&& self.hp.wf()
        &&& self.mp.wf()
        &&& self.effects.wf()
        &&& -self.eff_speed() < self.action_value.value <= ACTION_VALUE_INIT
    }
}

impl Default for Character {
    fn default() -> (c: Character)
        ensures
            c.id@ == Seq::<char>::empty(),
            c.effects.0@.len() == 0,
            c.inborn == (CharacterInborn { atk: 100, def: 100, spd: 100 }),
            c.hp.value == 1000,
            c.hp.max == 1000,
            c.mp.value == 100,
            c.mp.max == 100,
            c.action_value.value == ACTION_VALUE_INIT,
            c.wf(),
    {
        Character {
            id: String::new(),
            effects: EffectManager::default(),
            sprite: Sprite::default(),
            inborn: CharacterInborn::default(),
            skills: SkillManager::default(),
            hp: Health::default(),
            mp: Mana::default(),
            action_value: ActionValue::new(),
        }
    }
}

} // verus!
