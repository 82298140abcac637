//! Skills and the dispatcher that validates and applies them.
//!
//! A skill is identified by a capability variant that fixes the shape of
//! target specification it accepts, plus a pure action. Dispatch first
//! validates the shape, the caster and every named target, then applies the
//! action; a rejected cast changes nothing.

use vstd::prelude::*;
use crate::character::damage_result;
use crate::character::regen_result;
use crate::character::Character;
use crate::effects::has_kind;
use crate::effects::refreshed;
use crate::effects::kind_index;
use crate::effects::Effect;
use crate::effects::EffectStatus;
use crate::errors::DispatchError;
use crate::flow::unique_ids;
use crate::flow::CharacterManager;
use crate::positioning::Grid;
use crate::positioning::Point;

verus! {

/// The list of skill names a combatant knows.
#[derive(Debug)]
pub struct SkillManager(pub Vec<String>);

impl Default for SkillManager {
    fn default() -> (m: SkillManager)
        ensures
            m.0@.len() == 0,
    {
        SkillManager(Vec::new())
    }
}

/// The closed set of target-shape capabilities a skill may declare.
#[derive(Clone, Copy, Debug, PartialEq, Eq, Structural)]
pub enum SkillCapability {
    OnlyCaster,
    HasOneTarget,
    HasMultipleTarget,
    HasLocation,
}

/// The pure transformation a skill performs on each recipient.
#[derive(Clone, Copy, Debug, PartialEq, Eq, Structural)]
pub enum SkillAction {
    /// Regenerate this percentage of the recipient's maximum health.
    RegenPercent(i32),
    /// Deal this many points of damage to the recipient.
    DamageFlat(i32),
    /// Grant a timed status effect to the recipient.
    GrantEffect { effect: Effect, turns: i32 },
}

/// An action's numeric parameters lie in their meaningful ranges.
pub open spec fn action_wf(a: SkillAction) -> bool {
    match a {
        SkillAction::RegenPercent(p) => p >= 0,
        SkillAction::DamageFlat(d) => d >= 0,
        SkillAction::GrantEffect { effect: _, turns } => turns >= 1,
    }
}

/// A skill: a capability variant and the action applied to recipients.
#[derive(Clone, Copy, Debug, PartialEq, Eq, Structural)]
pub struct Skill {
    pub capability: SkillCapability,
    pub action: SkillAction,
}

impl Skill {
    pub open spec fn wf(self) -> bool {
        action_wf(self.action)
    }
}

/// The sample self-targeting skill: the caster regains a fifth of their
/// maximum health.
pub struct Hit;

impl Hit {
    /// Apply the skill directly to a caster.
    pub fn cast(caster: &mut Character)
        requires
            old(caster).hp.wf(),
        ensures
            final(caster).hp.max == old(caster).hp.max,
            final(caster).hp.value as int == regen_result(
                old(caster).hp.value as int,
                old(caster).hp.max as int,
                20,
            ),
            final(caster).id == old(caster).id,
            final(caster).inborn == old(caster).inborn,
            final(caster).mp == old(caster).mp,
            final(caster).effects == old(caster).effects,
            final(caster).action_value == old(caster).action_value,
            final(caster).sprite == old(caster).sprite,
            final(caster).skills == old(caster).skills,
    {
        caster.hp.regen_percent(20);
    }

    /// The same skill in dispatchable form.
    pub fn skill() -> (s: Skill)
        ensures
            s == (Skill {
                capability: SkillCapability::OnlyCaster,
                action: SkillAction::RegenPercent(20),
            }),
            s.wf(),
    {
        Skill { capability: SkillCapability::OnlyCaster, action: SkillAction::RegenPercent(20) }
    }
}

/// The shape of target a cast is aimed at.
#[derive(Debug)]
pub enum TargetSpec {
    /// The caster targets only themself.
    Caster,
    /// Exactly one named target.
    Single(String),
    /// A list of named targets.
    Multiple(Vec<String>),
    /// A point on the grid.
    Location(Point),
}

/// What a successful cast reports: how many recipients were affected.
#[derive(Clone, Copy, Debug, PartialEq, Eq, Structural)]
pub struct AppliedEffectsSummary {
    pub affected: usize,
}

/// Whether the target specification's shape matches the capability.
pub open spec fn shape_matches(cap: SkillCapability, t: TargetSpec) -> bool {
    match (cap, t) {
        (SkillCapability::OnlyCaster, TargetSpec::Caster) => true,
        (SkillCapability::HasOneTarget, TargetSpec::Single(_)) => true,
        (SkillCapability::HasMultipleTarget, TargetSpec::Multiple(_)) => true,
        (SkillCapability::HasLocation, TargetSpec::Location(_)) => true,
        _ => false,
    }
}

/// The identities that receive the action, in dispatch order.
pub open spec fn recip_ids(cid: Seq<char>, t: TargetSpec) -> Seq<Seq<char>> {
    match t {
        TargetSpec::Caster => seq![cid],
        TargetSpec::Single(id) => seq![id@],
        TargetSpec::Multiple(ids) => ids@.map_values(|s: String| s@),
        TargetSpec::Location(_) => Seq::empty(),
    }
}

/// Whether some living combatant in `s` carries identity `id`.
pub open spec fn has_living_id(s: Seq<Character>, id: Seq<char>) -> bool {
    exists|i: int| 0 <= i < s.len() && s[i].id@ == id && s[i].hp.value > 0
}

/// The error a cast is rejected with, or `None` when it is accepted.
/// Checks run in a fixed order: shape, caster, named targets, bounds.
pub open spec fn spec_cast_err(
    s: Seq<Character>,
    g: Grid,
    skill: Skill,
    cid: Seq<char>,
    t: TargetSpec,
) -> Option<DispatchError> {
    if !shape_matches(skill.capability, t) {
        Some(DispatchError::TargetShapeMismatch)
    } else if !has_living_id(s, cid) {
        Some(DispatchError::InvalidCaster)
    } else if exists|k: int|
        0 <= k < recip_ids(cid, t).len() && !has_living_id(s, recip_ids(cid, t)[k]) {
        Some(DispatchError::InvalidTarget)
    } else if match t {
        TargetSpec::Location(p) => !g.spec_contains(p),
        _ => false,
    } {
        Some(DispatchError::OutOfBounds)
    } else {
        None
    }
}

/// The status granted by a `GrantEffect` action.
pub open spec fn grant_status(a: SkillAction) -> EffectStatus {
    match a {
        SkillAction::GrantEffect { effect, turns } => EffectStatus {
            remain_turn: turns,
            effect_type: effect,
        },
        _ => EffectStatus { remain_turn: 1, effect_type: Effect::AtkEnhanced },
    }
}

/// One application of the action to a health pool.
pub open spec fn hp_step(v: int, m: int, a: SkillAction) -> int {
    match a {
        SkillAction::RegenPercent(p) => regen_result(v, m, p as int),
        SkillAction::DamageFlat(d) => damage_result(v, d as int),
        SkillAction::GrantEffect { .. } => v,
    }
}

/// `k` repeated applications of the action to a health pool.
pub open spec fn iter_hp(v: int, m: int, a: SkillAction, k: nat) -> int
    decreases k,
{
    if k == 0 {
        v
    } else {
        hp_step(iter_hp(v, m, a, (k - 1) as nat), m, a)
    }
}

/// Repeated application keeps health within its pool bounds.
pub proof fn lemma_iter_hp_wf(v: int, m: int, a: SkillAction, k: nat)
    requires
        0 <= v <= m,
        action_wf(a),
    ensures
        0 <= iter_hp(v, m, a, k) <= m,
    decreases k,
{
    if k > 0 {
        lemma_iter_hp_wf(v, m, a, (k - 1) as nat);
        let w = iter_hp(v, m, a, (k - 1) as nat);
        match a {
            SkillAction::RegenPercent(p) => {
                vstd::arithmetic::mul::lemma_mul_nonnegative(p as int, m);
                vstd::arithmetic::div_mod::lemma_div_pos_is_pos(p as int * m, 100);
            },
            SkillAction::DamageFlat(_) => {},
            SkillAction::GrantEffect { .. } => {},
        }
    }
}

/// How many entries of `ids` equal `id`.
pub open spec fn count_matches(ids: Seq<Seq<char>>, id: Seq<char>) -> nat
    decreases ids.len(),
{
    if ids.len() == 0 {
        0
    } else {
        count_matches(ids.drop_last(), id) + (if ids.last() == id {
            1nat
        } else {
            0nat
        })
    }
}

/// How many entries of `idxs` equal `j`.
pub open spec fn count_idx(idxs: Seq<usize>, j: int) -> nat
    decreases idxs.len(),
{
    if idxs.len() == 0 {
        0
    } else {
        count_idx(idxs.drop_last(), j) + (if idxs.last() as int == j {
            1nat
        } else {
            0nat
        })
    }
}

/// How `n` applications of the action transform one combatant: health is
/// stepped `n` times, a granted effect is refreshed once if `n > 0`, and
/// every other field is untouched.
pub open spec fn applied_at(c0: Character, c1: Character, a: SkillAction, n: nat) -> bool {
    &&& c1.id == c0.id
    &&& c1.inborn == c0.inborn
    &&& c1.sprite == c0.sprite
    &&& c1.skills == c0.skills
    &&& c1.mp == c0.mp
    &&& c1.action_value == c0.action_value
    &&& c1.hp.max == c0.hp.max
    &&& c1.hp.value as int == iter_hp(c0.hp.value as int, c0.hp.max as int, a, n)
    &&& c1.effects.0@ == (if a is GrantEffect && n > 0 {
        refreshed(c0.effects.0@, grant_status(a))
    } else {
        c0.effects.0@
    })
}

/// Refreshing the same status twice equals refreshing it once.
pub proof fn lemma_refresh_idempotent(s: Seq<EffectStatus>, st: EffectStatus)
    requires
        forall|i: int, j: int|
            #![trigger s[i], s[j]]
            0 <= i < j < s.len() ==> s[i].effect_type != s[j].effect_type,
    ensures
        refreshed(refreshed(s, st), st) == refreshed(s, st),
{
    let t = refreshed(s, st);
    let k = st.effect_type;
    if has_kind(s, k) {
        let i = kind_index(s, k);
        assert(0 <= i < s.len() && s[i].effect_type == k);
        assert(t[i].effect_type == k);
        assert(has_kind(t, k));
        let i2 = kind_index(t, k);
        assert(0 <= i2 < t.len() && t[i2].effect_type == k);
        if i2 != i {
            if i2 < s.len() {
                assert(t[i2] == s[i2]);
                assert(false);
            }
        }
        assert(refreshed(t, st) == t.update(i, st));
        assert(t.update(i, st) =~= t);
    } else {
        let t2 = s.push(st);
        assert(t2[s.len() as int].effect_type == k);
        assert(has_kind(t2, k));
        let i2 = kind_index(t2, k);
        if i2 != s.len() {
            assert(t2[i2] == s[i2]);
            assert(has_kind(s, k));
            assert(false);
        }
        assert(refreshed(t2, st) == t2.update(s.len() as int, st));
        assert(t2.update(s.len() as int, st) =~= t2);
    }
}

/// When each resolved index carries the matching identity and identities
/// are unique, counting by index equals counting by identity.
pub proof fn lemma_count_correspondence(
    s: Seq<Character>,
    idxs: Seq<usize>,
    rids: Seq<Seq<char>>,
)
    requires
        idxs.len() == rids.len(),
        forall|k: int|
            0 <= k < idxs.len() ==> (#[trigger] idxs[k]) < s.len() && s[idxs[k] as int].id@
                == rids[k],
        unique_ids(s),
    ensures
        forall|j: int|
            0 <= j < s.len() ==> count_idx(idxs, j) == count_matches(rids, (#[trigger] s[j]).id@),
    decreases idxs.len(),
{
    if idxs.len() > 0 {
        lemma_count_correspondence(s, idxs.drop_last(), rids.drop_last());
        let r = idxs.last() as int;
        assert forall|j: int| 0 <= j < s.len() implies count_idx(idxs, j) == count_matches(
            rids,
            (#[trigger] s[j]).id@,
        ) by {
            assert(s[r].id@ == rids.last());
            if r == j {
                assert(rids.last() == s[j].id@);
            } else {
                assert(s[r].id@ != s[j].id@);
            }
        }
    }
}

/// Law: a location-shaped skill given a single-target specification is
/// always rejected with a shape mismatch, whatever the roster holds.
pub proof fn lemma_location_skill_rejects_single_target(
    s: Seq<Character>,
    g: Grid,
    skill: Skill,
    cid: Seq<char>,
    id: String,
)
    requires
        skill.capability is HasLocation,
    ensures
        spec_cast_err(s, g, skill, cid, TargetSpec::Single(id)) == Some(
            DispatchError::TargetShapeMismatch,
        ),
{
}

/// Validate a cast without touching any state: resolve the caster and every
/// recipient to roster indices, or report the exact rejection.
pub fn check_cast(
    roster: &CharacterManager,
    grid: &Grid,
    skill: &Skill,
    caster_id: &String,
    target: &TargetSpec,
) -> (r: Result<Vec<usize>, DispatchError>)
    ensures
        match r {
            Result::Err(e) => Some(e) == spec_cast_err(
                roster@,
                *grid,
                *skill,
                caster_id@,
                *target,
            ),
            Result::Ok(idxs) => {
                &&& spec_cast_err(roster@, *grid, *skill, caster_id@, *target) is None
                &&& idxs@.len() == recip_ids(caster_id@, *target).len()
                &&& forall|k: int|
                    0 <= k < idxs@.len() ==> (#[trigger] idxs@[k]) < roster@.len()
                        && roster@[idxs@[k] as int].id@ == recip_ids(caster_id@, *target)[k]
                        && roster@[idxs@[k] as int].hp.value > 0
            },
        },
{
    let shape_ok: bool = match (skill.capability, target) {
        (SkillCapability::OnlyCaster, TargetSpec::Caster) => true,
        (SkillCapability::HasOneTarget, TargetSpec::Single(_)) => true,
        (SkillCapability::HasMultipleTarget, TargetSpec::Multiple(_)) => true,
        (SkillCapability::HasLocation, TargetSpec::Location(_)) => true,
        _ => false,
    };
    if !shape_ok {
        return Err(DispatchError::TargetShapeMismatch);
    }
    let caster_idx: usize = match roster.find_living(caster_id) {
        Some(i) => i,
        None => {
            return Err(DispatchError::InvalidCaster);
        },
    };
    proof {
        assert(roster@[caster_idx as int].id@ == caster_id@ && roster@[caster_idx as int].hp.value
            > 0);
        assert(has_living_id(roster@, caster_id@));
    }
    let mut idxs: Vec<usize> = Vec::new();
    match target {
        TargetSpec::Caster => {
            idxs.push(caster_idx);
        },
        TargetSpec::Single(tid) => {
            proof {
                assert(recip_ids(caster_id@, *target) =~= seq![tid@]);
            }
            match roster.find_living(tid) {
                Some(i) => idxs.push(i),
                None => {
                    proof {
                        assert(recip_ids(caster_id@, *target)[0] == tid@);
                    }
                    return Err(DispatchError::InvalidTarget);
                },
            }
        },
        TargetSpec::Multiple(tids) => {
            let ghost rids = recip_ids(caster_id@, *target);
            proof {
                assert(rids == tids@.map_values(|s: String| s@));
            }
            let n = tids.len();
            let mut k: usize = 0;
            while k < n
                invariant
                    n == tids@.len(),
                    k <= n,
                    rids == recip_ids(caster_id@, *target),
                    rids == tids@.map_values(|s: String| s@),
                    has_living_id(roster@, caster_id@),
                    shape_matches(skill.capability, *target),
                    idxs@.len() == k,
                    forall|q: int|
                        0 <= q < k ==> (#[trigger] idxs@[q]) < roster@.len()
                            && roster@[idxs@[q] as int].id@ == rids[q]
                            && roster@[idxs@[q] as int].hp.value > 0,
                decreases n - k,
            {
                proof {
                    assert(rids[k as int] == tids@[k as int]@);
                }
                match roster.find_living(&tids[k]) {
                    Some(i) => idxs.push(i),
                    None => {
                        proof {
                            assert(recip_ids(caster_id@, *target)[k as int] == tids@[k as int]@);
                        }
                        return Err(DispatchError::InvalidTarget);
                    },
                }
                k = k + 1;
            }
        },
        TargetSpec::Location(p) => {
            if !grid.is_within(p) {
                return Err(DispatchError::OutOfBounds);
            }
        },
    }
    proof {
        let rids = recip_ids(caster_id@, *target);
        assert forall|k: int|
            0 <= k < rids.len() implies has_living_id(roster@, #[trigger] rids[k]) by {
            assert(roster@[idxs@[k] as int].id@ == rids[k]);
        }
    }
    Ok(idxs)
}

/// Dispatch a cast: validate shape, caster, targets and bounds in that
/// order; on success apply the skill's action to every recipient, on
/// rejection leave the roster untouched.
pub fn cast(
    roster: &mut CharacterManager,
    grid: &Grid,
    skill: &Skill,
    caster_id: &String,
    target: &TargetSpec,
) -> (r: Result<AppliedEffectsSummary, DispatchError>)
    requires
        old(roster).wf(),
        skill.wf(),
    ensures
        match r {
            Result::Err(e) => Some(e) == spec_cast_err(
                old(roster)@,
                *grid,
                *skill,
                caster_id@,
                *target,
            ) && *final(roster) == *old(roster),
            Result::Ok(summary) => {
                &&& spec_cast_err(old(roster)@, *grid, *skill, caster_id@, *target) is None
                &&& summary.affected == recip_ids(caster_id@, *target).len()
                &&& final(roster)@.len() == old(roster)@.len()
                &&& forall|j: int|
                    0 <= j < final(roster)@.len() ==> applied_at(
                        old(roster)@[j],
                        #[trigger] final(roster)@[j],
                        skill.action,
                        count_matches(recip_ids(caster_id@, *target), old(roster)@[j].id@),
                    )
            },
        },
        final(roster).wf(),
{
    let idxs: Vec<usize> = match check_cast(roster, grid, skill, caster_id, target) {
        Ok(v) => v,
        Err(e) => {
            return Err(e);
        },
    };
    proof {
        lemma_count_correspondence(roster@, idxs@, recip_ids(caster_id@, *target));
    }
    roster.apply_to_indices(&idxs, &skill.action);
    Ok(AppliedEffectsSummary { affected: idxs.len() })
}

} // verus!
