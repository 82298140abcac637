//! Match flow: the turn counter, per-combatant action values, the roster,
//! the speed-driven countdown scheduler and the match runtime.
//!
//! Scheduling: every combatant needs `ceil(action_value / effective_speed)`
//! ticks before acting; the smallest such count elapses, every action value
//! drops by `elapsed * effective_speed`, and among combatants at or below
//! zero the one with the lowest insertion index acts. After acting, a
//! combatant's action value rises by the initial threshold, carrying any
//! negative remainder over so speed advantage accumulates across rounds.

use vstd::prelude::*;
use vstd::arithmetic::div_mod::lemma_fundamental_div_mod;
use vstd::arithmetic::mul::lemma_mul_inequality;
use vstd::arithmetic::mul::lemma_mul_left_inequality;
use vstd::arithmetic::mul::lemma_mul_nonnegative;
use vstd::arithmetic::mul::lemma_mul_upper_bound;
use crate::character::eff_speed_of;
use crate::character::CharacterInborn;
use crate::character::Character;
use crate::errors::StructuralError;
use crate::errors::TurnError;
use crate::positioning::Grid;
use crate::skills::action_wf;
use crate::skills::applied_at;
use crate::skills::count_idx;
use crate::skills::count_matches;
use crate::skills::check_cast;
use crate::skills::grant_status;
use crate::skills::has_living_id;
use crate::skills::recip_ids;
use crate::skills::spec_cast_err;
use crate::skills::Skill;
use crate::skills::SkillAction;
use crate::skills::TargetSpec;
use crate::effects::refreshed;
use crate::effects::ticked;
use crate::positioning::DEFAULT_GRID_SIDE;
use crate::skills::iter_hp;

verus! {

/// The action value every combatant starts with, and the amount restored
/// after acting.
pub const ACTION_VALUE_INIT: i32 = 1000;

/// Counts completed turns.
#[derive(Clone, Copy, Debug, PartialEq, Eq, Structural)]
pub struct TurnCounter {
    pub count: i32,
}

impl TurnCounter {
    pub fn new() -> (t: TurnCounter)
        ensures
            t.count == 0,
    {
        TurnCounter { count: 0 }
    }

    pub fn proceed(&mut self)
        requires
            old(self).count < i32::MAX,
        ensures
            final(self).count == old(self).count + 1,
    {
        self.count = self.count + 1;
    }
}

/// A combatant's countdown toward its next turn.
#[derive(Clone, Copy, Debug, PartialEq, Eq, Structural)]
pub struct ActionValue {
    pub value: i32,
}

impl ActionValue {
    pub fn new() -> (a: ActionValue)
        ensures
            a.value == ACTION_VALUE_INIT,
    {
        ActionValue { value: ACTION_VALUE_INIT }
    }

    /// Consume `ticks` scheduling ticks at the given speed.
    pub fn proceed(&mut self, speed: i32, ticks: i32)
        requires
            0 <= ticks <= ACTION_VALUE_INIT,
            i32::MIN <= old(self).value - ticks * eff_speed_of(speed as int),
        ensures
            final(self).value as int == old(self).value - ticks * eff_speed_of(speed as int),
    {
        let es: i64 = if speed < 1 {
            1
        } else {
            speed as i64
        };
        proof {
            lemma_mul_nonnegative(ticks as int, es as int);
            lemma_mul_upper_bound(ticks as int, ACTION_VALUE_INIT as int, es as int, 0x7fff_ffff);
        }
        let nv: i64 = (self.value as i64) - (ticks as i64) * es;
        self.value = nv as i32;
    }
}

/// How many ticks this combatant still needs before it may act.
pub open spec fn ticks_needed(c: Character) -> int {
    if c.action_value.value <= 0 {
        0
    } else {
        (c.action_value.value + c.eff_speed() - 1) / c.eff_speed()
    }
}

/// The smallest tick count needed by any combatant in the roster.
pub open spec fn min_ticks(s: Seq<Character>) -> int
    decreases s.len(),
{
    if s.len() == 0 {
        0
    } else if s.len() == 1 {
        ticks_needed(s[0])
    } else {
        let m = min_ticks(s.drop_last());
        let t = ticks_needed(s.last());
        if t < m {
            t
        } else {
            m
        }
    }
}

/// A combatant's action value after `e` elapsed ticks.
pub open spec fn dec_value(c: Character, e: int) -> int {
    c.action_value.value - e * c.eff_speed()
}

/// No two combatants share an identity.
pub open spec fn unique_ids(s: Seq<Character>) -> bool {
    forall|i: int, j: int| #![trigger s[i], s[j]] 0 <= i < j < s.len() ==> s[i].id@ != s[j].id@
}

/// The lowest roster index whose action value reaches zero after `e` ticks.
pub open spec fn first_ready_index(s: Seq<Character>, e: int) -> int {
    choose|i: int|
        0 <= i < s.len() && dec_value(s[i], e) <= 0 && (forall|j: int|
            0 <= j < i ==> dec_value(s[j], e) > 0)
}

/// Ceiling division `(a + b - 1) / b` lies between `1` and `a`, and its
/// product with `b` lands in `[a, a + b - 1]`.
proof fn lemma_ceil_div(a: int, b: int)
    requires
        a >= 1,
        b >= 1,
    ensures
        1 <= (a + b - 1) / b <= a,
        a <= ((a + b - 1) / b) * b <= a + b - 1,
{
    let q = (a + b - 1) / b;
    let r = (a + b - 1) % b;
    lemma_fundamental_div_mod(a + b - 1, b);
    assert(a + b - 1 == b * q + r);
    assert(0 <= r < b) by {
        vstd::arithmetic::div_mod::lemma_mod_bound(a + b - 1, b);
    }
    assert(q * b == a + b - 1 - r) by {
        vstd::arithmetic::mul::lemma_mul_is_commutative(q, b);
    }
    assert(q * b >= a);
    assert(q * b <= a + b - 1);
    if q < 1 {
        lemma_mul_inequality(q, 0, b);
        assert(q * b <= 0);
        assert(false);
    }
    if q > a {
        lemma_mul_inequality(a + 1, q, b);
        lemma_mul_left_inequality(a + 1, 1, b);
        assert((a + 1) * b >= (a + 1) * 1);
        assert((a + 1) * b <= q * b);
        assert((a + 1) * b == a * b + b) by {
            vstd::arithmetic::mul::lemma_mul_is_distributive_add_other_way(b, a, 1);
        }
        lemma_mul_left_inequality(a, 1, b);
        assert(a * b >= a * 1);
        assert(q * b >= a + b);
        assert(false);
    }
}

/// A well-formed combatant needs between zero and the initial threshold of
/// ticks.
proof fn lemma_ticks_bounds(c: Character)
    requires
        c.wf(),
    ensures
        0 <= ticks_needed(c) <= ACTION_VALUE_INIT,
{
    if c.action_value.value > 0 {
        lemma_ceil_div(c.action_value.value as int, c.eff_speed());
    }
}

/// The minimum is a lower bound for every combatant's tick count.
proof fn lemma_min_ticks_le(s: Seq<Character>, i: int)
    requires
        0 <= i < s.len(),
    ensures
        min_ticks(s) <= ticks_needed(s[i]),
    decreases s.len(),
{
    if s.len() > 1 && i < s.len() - 1 {
        lemma_min_ticks_le(s.drop_last(), i);
    }
}

/// The minimum is attained by some combatant.
proof fn lemma_min_ticks_attained(s: Seq<Character>)
    requires
        s.len() >= 1,
    ensures
        exists|i: int| 0 <= i < s.len() && ticks_needed(#[trigger] s[i]) == min_ticks(s),
    decreases s.len(),
{
    if s.len() == 1 {
        assert(ticks_needed(s[0]) == min_ticks(s));
    } else {
        lemma_min_ticks_attained(s.drop_last());
        let t = ticks_needed(s.last());
        let m = min_ticks(s.drop_last());
        if t < m {
            assert(ticks_needed(s[s.len() - 1]) == min_ticks(s));
        } else {
            let i = choose|i: int|
                0 <= i < s.drop_last().len() && ticks_needed(#[trigger] s.drop_last()[i])
                    == min_ticks(s.drop_last());
            assert(ticks_needed(s[i]) == min_ticks(s));
        }
    }
}

/// After the minimal tick count elapses, a well-formed combatant's action
/// value stays within one countdown step of zero.
proof fn lemma_dec_range(c: Character, e: int)
    requires
        c.wf(),
        0 <= e <= ticks_needed(c),
    ensures
        -c.eff_speed() < dec_value(c, e) <= ACTION_VALUE_INIT,
{
    let av = c.action_value.value as int;
    let es = c.eff_speed();
    lemma_mul_nonnegative(e, es);
    if av <= 0 {
        assert(e == 0);
        assert(dec_value(c, e) == av);
    } else {
        lemma_ceil_div(av, es);
        lemma_mul_inequality(e, ticks_needed(c), es);
        assert(dec_value(c, e) >= av - ((av + es - 1) / es) * es);
    }
}

/// Law: in every non-empty roster of well-formed combatants, once the
/// minimal tick count elapses some combatant is ready to act — so the
/// scheduler always finds an actor.
pub proof fn lemma_ready_exists(s: Seq<Character>)
    requires
        s.len() >= 1,
        forall|i: int| 0 <= i < s.len() ==> (#[trigger] s[i]).wf(),
    ensures
        exists|i: int| 0 <= i < s.len() && dec_value(#[trigger] s[i], min_ticks(s)) <= 0,
{
    lemma_min_ticks_attained(s);
    let i = choose|i: int|
        0 <= i < s.len() && ticks_needed(#[trigger] s[i]) == min_ticks(s);
    let c = s[i];
    let av = c.action_value.value as int;
    let es = c.eff_speed();
    if av <= 0 {
        lemma_min_ticks_le(s, i);
        lemma_ticks_bounds(c);
        assert(min_ticks(s) == 0);
        assert(dec_value(c, min_ticks(s)) == av);
    } else {
        lemma_ceil_div(av, es);
        assert(dec_value(c, min_ticks(s)) <= 0);
    }
}

/// Law: the scheduler is deterministic. For one roster state and elapsed
/// count there is exactly one index satisfying the selection contract, so
/// identical rosters always yield the same actor and elapsed ticks.
pub proof fn lemma_select_next_deterministic(s: Seq<Character>, e: int, i1: int, i2: int)
    requires
        0 <= i1 < s.len(),
        0 <= i2 < s.len(),
        dec_value(s[i1], e) <= 0,
        dec_value(s[i2], e) <= 0,
        forall|j: int| 0 <= j < i1 ==> dec_value(#[trigger] s[j], e) > 0,
        forall|j: int| 0 <= j < i2 ==> dec_value(#[trigger] s[j], e) > 0,
    ensures
        i1 == i2,
{
}

/// Law: the scheduling identity `action_value == INIT * (1 + acts) - ticks
/// * speed` is preserved by one resolution step that elapses `e` ticks and
/// lets the combatant act or not.
pub proof fn lemma_accounting_step(
    av: int,
    es: int,
    acts_before: int,
    ticks_before: int,
    e: int,
    acting: bool,
)
    requires
        av == ACTION_VALUE_INIT * (1 + acts_before) - ticks_before * es,
    ensures
        acting ==> av - e * es + ACTION_VALUE_INIT == ACTION_VALUE_INIT * (1 + acts_before + 1) - (
        ticks_before + e) * es,
        !acting ==> av - e * es == ACTION_VALUE_INIT * (1 + acts_before) - (ticks_before + e) * es,
{
    assert((ticks_before + e) * es == ticks_before * es + e * es) by {
        vstd::arithmetic::mul::lemma_mul_is_distributive_add_other_way(es, ticks_before, e);
    }
    assert(ACTION_VALUE_INIT * (1 + acts_before + 1) == ACTION_VALUE_INIT * (1 + acts_before)
        + ACTION_VALUE_INIT) by {
        vstd::arithmetic::mul::lemma_mul_is_distributive_add(ACTION_VALUE_INIT as int, 1
            + acts_before, 1);
    }
}

/// Law: speed monotonicity. If both combatants' action values have stayed
/// within one countdown step of zero and at most the initial threshold —
/// which the scheduler guarantees — then once enough total ticks have
/// elapsed, the strictly faster combatant has acted at least as often.
pub proof fn lemma_speed_monotonic(
    es_a: int,
    es_b: int,
    acts_a: int,
    acts_b: int,
    ticks: int,
)
    requires
        1 <= es_b < es_a,
        -es_a < ACTION_VALUE_INIT * (1 + acts_a) - ticks * es_a <= ACTION_VALUE_INIT,
        -es_b < ACTION_VALUE_INIT * (1 + acts_b) - ticks * es_b <= ACTION_VALUE_INIT,
        ticks * (es_a - es_b) >= ACTION_VALUE_INIT + es_a,
    ensures
        acts_a >= acts_b,
{
    assert(ticks * (es_a - es_b) == ticks * es_a - ticks * es_b) by {
        vstd::arithmetic::mul::lemma_mul_is_distributive_sub(ticks, es_a, es_b);
    }
    assert(ACTION_VALUE_INIT * (1 + acts_a) == ACTION_VALUE_INIT + ACTION_VALUE_INIT * acts_a) by {
        vstd::arithmetic::mul::lemma_mul_is_distributive_add(ACTION_VALUE_INIT as int, 1, acts_a);
    }
    assert(ACTION_VALUE_INIT * (1 + acts_b) == ACTION_VALUE_INIT + ACTION_VALUE_INIT * acts_b) by {
        vstd::arithmetic::mul::lemma_mul_is_distributive_add(ACTION_VALUE_INIT as int, 1, acts_b);
    }
    assert(ACTION_VALUE_INIT * acts_a > ACTION_VALUE_INIT * acts_b);
    if acts_a < acts_b {
        lemma_mul_left_inequality(ACTION_VALUE_INIT as int, acts_a, acts_b);
        assert(false);
    }
}

/// One combatant's view of a run of resolved turns: each entry is the
/// turn's elapsed tick count and whether this combatant was the actor.
/// This is exactly the action-value transformation that `turn_result_at`
/// states for every completed turn.
pub open spec fn run_av(av0: int, es: int, steps: Seq<(int, bool)>) -> int
    decreases steps.len(),
{
    if steps.len() == 0 {
        av0
    } else {
        run_av(av0, es, steps.drop_last()) - steps.last().0 * es + if steps.last().1 {
            ACTION_VALUE_INIT as int
        } else {
            0
        }
    }
}

/// The total ticks elapsed across a run.
pub open spec fn run_ticks(steps: Seq<(int, bool)>) -> int
    decreases steps.len(),
{
    if steps.len() == 0 {
        0
    } else {
        run_ticks(steps.drop_last()) + steps.last().0
    }
}

/// How often the combatant acted across a run.
pub open spec fn run_acts(steps: Seq<(int, bool)>) -> int
    decreases steps.len(),
{
    if steps.len() == 0 {
        0
    } else {
        run_acts(steps.drop_last()) + if steps.last().1 {
            1int
        } else {
            0
        }
    }
}

/// Law: across any run of resolved turns, a combatant's action value obeys
/// the scheduling identity `av == INIT * (1 + acts) - ticks * speed`.
pub proof fn lemma_accounting_run(es: int, steps: Seq<(int, bool)>)
    ensures
        run_av(ACTION_VALUE_INIT as int, es, steps) == ACTION_VALUE_INIT * (1 + run_acts(steps))
            - run_ticks(steps) * es,
    decreases steps.len(),
{
    if steps.len() == 0 {
        assert(run_ticks(steps) * es == 0) by {
            vstd::arithmetic::mul::lemma_mul_by_zero_is_zero(es);
        }
    } else {
        let front = steps.drop_last();
        lemma_accounting_run(es, front);
        lemma_accounting_step(
            run_av(ACTION_VALUE_INIT as int, es, front),
            es,
            run_acts(front),
            run_ticks(front),
            steps.last().0,
            steps.last().1,
        );
    }
}

/// Law: speed monotonicity across whole runs. Two combatants go through the
/// same turns (equal total ticks); both finish with action values within
/// one countdown step of zero and at most the initial threshold, which the
/// roster invariant guarantees of every reachable state. Then once enough
/// ticks have elapsed, the strictly faster combatant has acted at least as
/// often as the slower one.
pub proof fn lemma_speed_monotonic_run(
    es_a: int,
    es_b: int,
    steps_a: Seq<(int, bool)>,
    steps_b: Seq<(int, bool)>,
)
    requires
        1 <= es_b < es_a,
        run_ticks(steps_a) == run_ticks(steps_b),
        -es_a < run_av(ACTION_VALUE_INIT as int, es_a, steps_a) <= ACTION_VALUE_INIT,
        -es_b < run_av(ACTION_VALUE_INIT as int, es_b, steps_b) <= ACTION_VALUE_INIT,
        run_ticks(steps_a) * (es_a - es_b) >= ACTION_VALUE_INIT + es_a,
    ensures
        run_acts(steps_a) >= run_acts(steps_b),
{
    lemma_accounting_run(es_a, steps_a);
    lemma_accounting_run(es_b, steps_b);
    lemma_speed_monotonic(
        es_a,
        es_b,
        run_acts(steps_a),
        run_acts(steps_b),
        run_ticks(steps_a),
    );
}

/// The ordered roster of combatants; insertion order is the deterministic
/// tie-break key.
#[derive(Debug)]
pub struct CharacterManager {
    pub content: Vec<Character>,
}

impl View for CharacterManager {
    type V = Seq<Character>;

    open spec fn view(&self) -> Seq<Character> {
        self.content@
    }
}

impl Default for CharacterManager {
    fn default() -> (m: CharacterManager)
        ensures
            m@.len() == 0,
            m.wf(),
    {
        CharacterManager { content: Vec::new() }
    }
}

impl CharacterManager {
    /// Every combatant is well formed and identities are unique.
    pub open spec fn wf(self) -> bool {
        &&& forall|i: int| 0 <= i < self@.len() ==> (#[trigger] self@[i]).wf()
        &&& unique_ids(self@)
    }

    pub fn new() -> (m: CharacterManager)
        ensures
            m@.len() == 0,
            m.wf(),
    {
        CharacterManager { content: Vec::new() }
    }

    pub fn len(&self) -> (n: usize)
        ensures
            n == self@.len(),
    {
        self.content.len()
    }

    /// Append a combatant; the caller guarantees a fresh identity.
    pub fn append(&mut self, c: Character)
        requires
            old(self).wf(),
            c.wf(),
            forall|i: int| 0 <= i < old(self)@.len() ==> (#[trigger] old(self)@[i]).id@ != c.id@,
        ensures
            final(self)@ == old(self)@.push(c),
            final(self).wf(),
    {
        self.content.push(c);
    }

    /// Whether some combatant carries identity `id`.
    pub fn contains_id(&self, id: &String) -> (r: bool)
        ensures
            r == exists|i: int| 0 <= i < self@.len() && (#[trigger] self@[i]).id@ == id@,
    {
        let n = self.content.len();
        let mut i: usize = 0;
        while i < n
            invariant
                n == self@.len(),
                i <= n,
                forall|j: int| 0 <= j < i ==> (#[trigger] self@[j]).id@ != id@,
            decreases n - i,
        {
            if self.content[i].id == *id {
                return true;
            }
            i = i + 1;
        }
        false
    }

    /// Find the living combatant carrying identity `id`.
    pub fn find_living(&self, id: &String) -> (r: Option<usize>)
        ensures
            match r {
                Some(i) => i < self@.len() && self@[i as int].id@ == id@ && self@[i as int].hp.value
                    > 0,
                None => !has_living_id(self@, id@),
            },
    {
        let n = self.content.len();
        let mut i: usize = 0;
        while i < n
            invariant
                n == self@.len(),
                i <= n,
                forall|j: int|
                    0 <= j < i ==> !((#[trigger] self@[j]).id@ == id@ && self@[j].hp.value > 0),
            decreases n - i,
        {
            if self.content[i].id == *id && self.content[i].hp.value > 0 {
                return Some(i);
            }
            i = i + 1;
        }
        None
    }

    /// A copy of the identity at roster index `i`.
    pub fn id_at(&self, i: usize) -> (id: String)
        requires
            i < self@.len(),
        ensures
            id@ == self@[i as int].id@,
    {
        self.content[i].id.clone()
    }

    /// The action value at roster index `i`.
    pub fn action_value_at(&self, i: usize) -> (v: i32)
        requires
            i < self@.len(),
        ensures
            v == self@[i as int].action_value.value,
    {
        self.content[i].action_value.value
    }

    /// The health at roster index `i`.
    pub fn health_at(&self, i: usize) -> (v: i32)
        requires
            i < self@.len(),
        ensures
            v == self@[i as int].hp.value,
    {
        self.content[i].hp.value
    }

    /// Ticks needed by the combatant at index `i`.
    fn ticks_needed_at(&self, i: usize) -> (t: i32)
        requires
            i < self@.len(),
            self@[i as int].wf(),
        ensures
            t as int == ticks_needed(self@[i as int]),
            0 <= t <= ACTION_VALUE_INIT,
    {
        let av = self.content[i].action_value.value;
        if av <= 0 {
            0
        } else {
            let spd = self.content[i].inborn.spd;
            let es: u64 = if spd < 1 {
                1
            } else {
                spd as u64
            };
            proof {
                lemma_ceil_div(av as int, es as int);
            }
            let q: u64 = ((av as u64) + es - 1) / es;
            q as i32
        }
    }

    /// The elapsed tick count: the minimum over the whole roster.
    fn compute_elapsed(&self) -> (e: i32)
        requires
            self.wf(),
            self@.len() >= 1,
        ensures
            e as int == min_ticks(self@),
            0 <= e <= ACTION_VALUE_INIT,
    {
        let n = self.content.len();
        let mut m: i32 = self.ticks_needed_at(0);
        let mut i: usize = 1;
        proof {
            assert(self@.take(1) =~= seq![self@[0]]);
        }
        while i < n
            invariant
                self.wf(),
                n == self@.len(),
                1 <= i <= n,
                m as int == min_ticks(self@.take(i as int)),
                0 <= m <= ACTION_VALUE_INIT,
            decreases n - i,
        {
            let t = self.ticks_needed_at(i);
            proof {
                assert(self@.take(i + 1).drop_last() =~= self@.take(i as int));
                assert(self@.take(i + 1).last() == self@[i as int]);
            }
            if t < m {
                m = t;
            }
            i = i + 1;
        }
        proof {
            assert(self@.take(n as int) =~= self@);
        }
        m
    }

    /// The decremented action value of index `i` after `e` ticks, computed
    /// without mutating.
    fn dec_at(&self, i: usize, e: i32) -> (d: i64)
        requires
            i < self@.len(),
            0 <= e <= ACTION_VALUE_INIT,
        ensures
            d as int == dec_value(self@[i as int], e as int),
    {
        let c = &self.content[i];
        let spd = c.inborn.spd;
        let es: i64 = if spd < 1 {
            1
        } else {
            spd as i64
        };
        proof {
            lemma_mul_nonnegative(e as int, es as int);
            lemma_mul_upper_bound(e as int, ACTION_VALUE_INIT as int, es as int, 0x7fff_ffff);
        }
        (c.action_value.value as i64) - (e as i64) * es
    }

    /// The lowest index ready to act after `e` elapsed ticks.
    fn first_ready(&self, e: i32) -> (idx: usize)
        requires
            self.wf(),
            self@.len() >= 1,
            e as int == min_ticks(self@),
            0 <= e <= ACTION_VALUE_INIT,
        ensures
            idx < self@.len(),
            dec_value(self@[idx as int], e as int) <= 0,
            forall|j: int| 0 <= j < idx ==> dec_value(#[trigger] self@[j], e as int) > 0,
            idx == first_ready_index(self@, e as int),
    {
        let n = self.content.len();
        let mut i: usize = 0;
        while i < n
            invariant
                self.wf(),
                n == self@.len(),
                i <= n,
                e as int == min_ticks(self@),
                0 <= e <= ACTION_VALUE_INIT,
                forall|j: int| 0 <= j < i ==> dec_value(#[trigger] self@[j], e as int) > 0,
            decreases n - i,
        {
            if self.dec_at(i, e) <= 0 {
                proof {
                    let found = choose|k: int|
                        0 <= k < self@.len() && dec_value(self@[k], e as int) <= 0 && (forall|
                            j: int,
                        | 0 <= j < k ==> dec_value(self@[j], e as int) > 0);
                    lemma_select_next_deterministic(self@, e as int, i as int, found);
                }
                return i;
            }
            i = i + 1;
        }
        proof {
            lemma_ready_exists(self@);
        }
        unreached()
    }

    /// Decrement every combatant's action value by `e` ticks at its own
    /// effective speed. This touches every combatant, not just the actor:
    /// that is what encodes relative speed.
    fn apply_elapsed(&mut self, e: i32)
        requires
            old(self).wf(),
            e as int == min_ticks(old(self)@),
            0 <= e <= ACTION_VALUE_INIT,
        ensures
            final(self)@.len() == old(self)@.len(),
            forall|j: int|
                0 <= j < final(self)@.len() ==> {
                    let c0 = old(self)@[j];
                    let c1 = #[trigger] final(self)@[j];
                    c1.id == c0.id && c1.inborn == c0.inborn && c1.sprite == c0.sprite
                        && c1.skills == c0.skills && c1.hp == c0.hp && c1.mp == c0.mp && c1.effects
                        == c0.effects && c1.action_value.value as int == dec_value(c0, e as int)
                },
            final(self).wf(),
    {
        let ghost s0 = self@;
        let n = self.content.len();
        let mut i: usize = 0;
        while i < n
            invariant
                n == s0.len(),
                self@.len() == s0.len(),
                i <= n,
                e as int == min_ticks(s0),
                0 <= e <= ACTION_VALUE_INIT,
                forall|j: int| 0 <= j < s0.len() ==> (#[trigger] s0[j]).wf(),
                unique_ids(s0),
                forall|j: int| i <= j < s0.len() ==> #[trigger] self@[j] == s0[j],
                forall|j: int|
                    0 <= j < i ==> {
                        let c0 = s0[j];
                        let c1 = #[trigger] self@[j];
                        c1.id == c0.id && c1.inborn == c0.inborn && c1.sprite == c0.sprite
                            && c1.skills == c0.skills && c1.hp == c0.hp && c1.mp == c0.mp
                            && c1.effects == c0.effects && c1.action_value.value as int
                            == dec_value(c0, e as int) && c1.wf()
                    },
            decreases n - i,
        {
            proof {
                lemma_min_ticks_le(s0, i as int);
                lemma_dec_range(s0[i as int], e as int);
            }
            let d = self.dec_at(i, e);
            let c = &mut self.content[i];
            c.action_value.value = d as i32;
            i = i + 1;
        }
    }

    /// Select the next actor: elapse the minimal tick count, decrement every
    /// action value, and pick the lowest ready index. Returns the actor's
    /// index and the elapsed ticks; the result is a function of the roster
    /// state alone.
    pub fn select_next(&mut self) -> (r: Result<(usize, i32), StructuralError>)
        requires
            old(self).wf(),
        ensures
            match r {
                Result::Err(e) => e == StructuralError::EmptyRoster && old(self)@.len() == 0
                    && *final(self) == *old(self),
                Result::Ok((idx, e)) => {
                    &&& old(self)@.len() >= 1
                    &&& e as int == min_ticks(old(self)@)
                    &&& idx == first_ready_index(old(self)@, e as int)
                    &&& idx < final(self)@.len()
                    &&& dec_value(old(self)@[idx as int], e as int) <= 0
                    &&& forall|j: int|
                        0 <= j < idx ==> dec_value(#[trigger] old(self)@[j], e as int) > 0
                    &&& final(self)@.len() == old(self)@.len()
                    &&& forall|j: int|
                        0 <= j < final(self)@.len() ==> {
                            let c0 = old(self)@[j];
                            let c1 = #[trigger] final(self)@[j];
                            c1.id == c0.id && c1.inborn == c0.inborn && c1.sprite == c0.sprite
                                && c1.skills == c0.skills && c1.hp == c0.hp && c1.mp == c0.mp
                                && c1.effects == c0.effects && c1.action_value.value as int
                                == dec_value(c0, e as int)
                        }
                },
            },
            final(self).wf(),
    {
        if self.content.len() == 0 {
            return Err(StructuralError::EmptyRoster);
        }
        let e = self.compute_elapsed();
        let idx = self.first_ready(e);
        self.apply_elapsed(e);
        Ok((idx, e))
    }

    /// The original selection entry point: the next actor's roster index.
    /// The scheduling side effect is the same as `select_next`'s: every
    /// combatant's action value drops by the minimal tick count times its
    /// own effective speed.
    pub fn action_orders_get_next(&mut self) -> (r: Result<usize, StructuralError>)
        requires
            old(self).wf(),
        ensures
            match r {
                Result::Err(e) => e == StructuralError::EmptyRoster && old(self)@.len() == 0
                    && *final(self) == *old(self),
                Result::Ok(idx) => {
                    &&& old(self)@.len() >= 1
                    &&& idx == first_ready_index(old(self)@, min_ticks(old(self)@))
                    &&& idx < final(self)@.len()
                    &&& dec_value(old(self)@[idx as int], min_ticks(old(self)@)) <= 0
                    &&& forall|j: int|
                        0 <= j < idx ==> dec_value(
                            #[trigger] old(self)@[j],
                            min_ticks(old(self)@),
                        ) > 0
                    &&& final(self)@.len() == old(self)@.len()
                    &&& forall|j: int|
                        0 <= j < final(self)@.len() ==> {
                            let c0 = old(self)@[j];
                            let c1 = #[trigger] final(self)@[j];
                            c1.id == c0.id && c1.inborn == c0.inborn && c1.sprite == c0.sprite
                                && c1.skills == c0.skills && c1.hp == c0.hp && c1.mp == c0.mp
                                && c1.effects == c0.effects && c1.action_value.value as int
                                == dec_value(c0, min_ticks(old(self)@))
                        }
                },
            },
            final(self).wf(),
    {
        match self.select_next() {
            Ok((idx, _e)) => Ok(idx),
            Err(e) => Err(e),
        }
    }

    /// Apply the action once per occurrence of each index in `idxs`.
    pub fn apply_to_indices(&mut self, idxs: &Vec<usize>, a: &SkillAction)
        requires
            old(self).wf(),
            action_wf(*a),
            forall|k: int| 0 <= k < idxs@.len() ==> (#[trigger] idxs@[k]) < old(self)@.len(),
        ensures
            final(self)@.len() == old(self)@.len(),
            forall|j: int|
                0 <= j < final(self)@.len() ==> applied_at(
                    old(self)@[j],
                    #[trigger] final(self)@[j],
                    *a,
                    count_idx(idxs@, j),
                ),
            final(self).wf(),
    {
        let ghost s0 = self@;
        let n = idxs.len();
        let mut k: usize = 0;
        while k < n
            invariant
                n == idxs@.len(),
                k <= n,
                action_wf(*a),
                forall|q: int| 0 <= q < n ==> (#[trigger] idxs@[q]) < s0.len(),
                self@.len() == s0.len(),
                forall|j: int| 0 <= j < s0.len() ==> (#[trigger] s0[j]).wf(),
                unique_ids(s0),
                self.wf(),
                forall|j: int|
                    0 <= j < s0.len() ==> applied_at(
                        s0[j],
                        #[trigger] self@[j],
                        *a,
                        count_idx(idxs@.take(k as int), j),
                    ),
            decreases n - k,
        {
            let r = idxs[k];
            proof {
                assert(idxs@.take(k + 1).drop_last() =~= idxs@.take(k as int));
                assert(idxs@.take(k + 1).last() == idxs@[k as int]);
                crate::skills::lemma_iter_hp_wf(
                    s0[r as int].hp.value as int,
                    s0[r as int].hp.max as int,
                    *a,
                    count_idx(idxs@.take(k as int), r as int),
                );
                if *a is GrantEffect && count_idx(idxs@.take(k as int), r as int) > 0 {
                    crate::skills::lemma_refresh_idempotent(
                        s0[r as int].effects.0@,
                        grant_status(*a),
                    );
                }
            }
            self.apply_action_at(r, a);
            k = k + 1;
        }
        proof {
            assert(idxs@.take(n as int) =~= idxs@);
        }
    }

    /// Apply the action once to the combatant at index `i`.
    fn apply_action_at(&mut self, i: usize, a: &SkillAction)
        requires
            old(self).wf(),
            action_wf(*a),
            i < old(self)@.len(),
        ensures
            final(self)@.len() == old(self)@.len(),
            forall|j: int|
                0 <= j < final(self)@.len() && j != i ==> #[trigger] final(self)@[j] == old(self)@[j],
            ({
                let c0 = old(self)@[i as int];
                let c1 = final(self)@[i as int];
                &&& c1.id == c0.id
                &&& c1.inborn == c0.inborn
                &&& c1.sprite == c0.sprite
                &&& c1.skills == c0.skills
                &&& c1.mp == c0.mp
                &&& c1.action_value == c0.action_value
                &&& c1.hp.max == c0.hp.max
                &&& c1.hp.value as int == crate::skills::hp_step(
                    c0.hp.value as int,
                    c0.hp.max as int,
                    *a,
                )
                &&& c1.effects.0@ == (if *a is GrantEffect {
                    crate::effects::refreshed(c0.effects.0@, grant_status(*a))
                } else {
                    c0.effects.0@
                })
            }),
            final(self).wf(),
    {
        match *a {
            SkillAction::RegenPercent(p) => {
                let c = &mut self.content[i];
                c.hp.regen_percent(p);
            },
            SkillAction::DamageFlat(d) => {
                let c = &mut self.content[i];
                c.hp.damage(d);
            },
            SkillAction::GrantEffect { effect, turns } => {
                let c = &mut self.content[i];
                c.effects.apply(
                    crate::effects::EffectStatus { remain_turn: turns, effect_type: effect },
                );
            },
        }
    }

    /// Restore the actor's action value by the initial threshold, carrying
    /// any negative remainder over.
    fn refill_actor(&mut self, idx: usize)
        requires
            old(self).wf(),
            idx < old(self)@.len(),
            old(self)@[idx as int].action_value.value <= 0,
        ensures
            final(self)@.len() == old(self)@.len(),
            forall|j: int|
                0 <= j < final(self)@.len() && j != idx ==> #[trigger] final(self)@[j] == old(self)@[j],
            ({
                let c0 = old(self)@[idx as int];
                let c1 = final(self)@[idx as int];
                &&& c1.id == c0.id
                &&& c1.inborn == c0.inborn
                &&& c1.sprite == c0.sprite
                &&& c1.skills == c0.skills
                &&& c1.mp == c0.mp
                &&& c1.hp == c0.hp
                &&& c1.effects == c0.effects
                &&& c1.action_value.value == c0.action_value.value + ACTION_VALUE_INIT
            }),
            final(self).wf(),
    {
        let c = &mut self.content[idx];
        c.action_value.value = c.action_value.value + ACTION_VALUE_INIT;
    }

    /// Advance every combatant's effect tracker by one completed turn.
    fn tick_all(&mut self)
        requires
            old(self).wf(),
        ensures
            final(self)@.len() == old(self)@.len(),
            forall|j: int|
                0 <= j < final(self)@.len() ==> {
                    let c0 = old(self)@[j];
                    let c1 = #[trigger] final(self)@[j];
                    c1.id == c0.id && c1.inborn == c0.inborn && c1.sprite == c0.sprite
                        && c1.skills == c0.skills && c1.hp == c0.hp && c1.mp == c0.mp
                        && c1.action_value == c0.action_value && c1.effects.0@ == ticked(
                        c0.effects.0@,
                    )
                },
            final(self).wf(),
    {
        let ghost s0 = self@;
        let n = self.content.len();
        let mut i: usize = 0;
        while i < n
            invariant
                n == s0.len(),
                self@.len() == s0.len(),
                i <= n,
                forall|j: int| 0 <= j < s0.len() ==> (#[trigger] s0[j]).wf(),
                unique_ids(s0),
                forall|j: int| i <= j < s0.len() ==> #[trigger] self@[j] == s0[j],
                forall|j: int|
                    0 <= j < i ==> {
                        let c0 = s0[j];
                        let c1 = #[trigger] self@[j];
                        c1.id == c0.id && c1.inborn == c0.inborn && c1.sprite == c0.sprite
                            && c1.skills == c0.skills && c1.hp == c0.hp && c1.mp == c0.mp
                            && c1.action_value == c0.action_value && c1.effects.0@ == ticked(
                            c0.effects.0@,
                        ) && c1.wf()
                    },
            decreases n - i,
        {
            let c = &mut self.content[i];
            let _expired = c.effects.tick();
            i = i + 1;
        }
    }
}

/// What one completed turn reports: who acted, how many ticks elapsed, and
/// how many recipients the cast touched.
#[derive(Clone, Copy, Debug, PartialEq, Eq, Structural)]
pub struct TurnSummary {
    pub actor: usize,
    pub elapsed: i32,
    pub affected: usize,
}

/// How one whole resolved turn transforms a single combatant: `e` elapsed
/// ticks are consumed, the action lands `n` times, every effect tracker
/// advances once, and the actor's action value is restored by the initial
/// threshold.
pub open spec fn turn_result_at(
    c0: Character,
    c1: Character,
    e: int,
    actor: bool,
    a: SkillAction,
    n: nat,
) -> bool {
    &&& c1.id == c0.id
    &&& c1.inborn == c0.inborn
    &&& c1.sprite == c0.sprite
    &&& c1.skills == c0.skills
    &&& c1.mp == c0.mp
    &&& c1.hp.max == c0.hp.max
    &&& c1.hp.value as int == iter_hp(c0.hp.value as int, c0.hp.max as int, a, n)
    &&& c1.effects.0@ == ticked(
        if a is GrantEffect && n > 0 {
            refreshed(c0.effects.0@, grant_status(a))
        } else {
            c0.effects.0@
        },
    )
    &&& c1.action_value.value as int == dec_value(c0, e) + if actor {
        ACTION_VALUE_INIT as int
    } else {
        0
    }
}

/// The exclusively owned turn unit: while a turn resolves, the roster lives
/// here and the runtime holds an empty placeholder, so no other path can
/// read or write combatants mid-turn.
pub struct TurnUnit {
    pub now_index: usize,
    pub characters: CharacterManager,
    pub map: Grid,
}

impl TurnUnit {
    pub fn new(now_index: usize, characters: CharacterManager, map: Grid) -> (u: TurnUnit)
        ensures
            u.now_index == now_index,
            u.characters == characters,
            u.map == map,
    {
        TurnUnit { now_index, characters, map }
    }

    /// Resolve the actor's turn on the checked-out roster: elapse the
    /// scheduled ticks on every combatant, land the action on each resolved
    /// recipient, advance every effect tracker once, and restore the
    /// actor's action value.
    pub fn execute(&mut self, e: i32, idxs: &Vec<usize>, a: &SkillAction)
        requires
            old(self).characters.wf(),
            old(self).characters@.len() >= 1,
            e as int == min_ticks(old(self).characters@),
            0 <= e <= ACTION_VALUE_INIT,
            old(self).now_index < old(self).characters@.len(),
            dec_value(old(self).characters@[old(self).now_index as int], e as int) <= 0,
            action_wf(*a),
            forall|k: int|
                0 <= k < idxs@.len() ==> (#[trigger] idxs@[k]) < old(self).characters@.len(),
        ensures
            final(self).now_index == old(self).now_index,
            final(self).map == old(self).map,
            final(self).characters@.len() == old(self).characters@.len(),
            forall|j: int|
                0 <= j < final(self).characters@.len() ==> turn_result_at(
                    old(self).characters@[j],
                    #[trigger] final(self).characters@[j],
                    e as int,
                    j == old(self).now_index,
                    *a,
                    count_idx(idxs@, j),
                ),
            final(self).characters.wf(),
    {
        let ghost s0 = self.characters@;
        self.characters.apply_elapsed(e);
        let ghost s1 = self.characters@;
        self.characters.apply_to_indices(idxs, a);
        let ghost s2 = self.characters@;
        self.characters.tick_all();
        let ghost s3 = self.characters@;
        self.characters.refill_actor(self.now_index);
        proof {
            assert forall|j: int| 0 <= j < self.characters@.len() implies turn_result_at(
                s0[j],
                #[trigger] self.characters@[j],
                e as int,
                j == self.now_index,
                *a,
                count_idx(idxs@, j),
            ) by {
                assert(applied_at(s1[j], s2[j], *a, count_idx(idxs@, j)));
                assert(s1[j].hp == s0[j].hp);
                assert(s2[j].effects.0@ == (if *a is GrantEffect && count_idx(idxs@, j) > 0 {
                    refreshed(s1[j].effects.0@, grant_status(*a))
                } else {
                    s1[j].effects.0@
                }));
                assert(s3[j].effects.0@ == ticked(s2[j].effects.0@));
            }
        }
    }

    /// Hand the roster back to the runtime, swapping it for the placeholder
    /// the runtime held while this unit owned the combatants.
    pub fn give_back(&mut self, runtime: &mut Runtime)
        ensures
            final(self).characters == old(runtime).characters,
            final(runtime).characters == old(self).characters,
            final(self).now_index == old(self).now_index,
            final(self).map == old(self).map,
            final(runtime).is_started == old(runtime).is_started,
            final(runtime).turn_counter == old(runtime).turn_counter,
            final(runtime).map == old(runtime).map,
    {
        core::mem::swap(&mut self.characters, &mut runtime.characters);
    }
}

/// The match runtime: owns the roster, freezes membership at start, and
/// resolves one turn per `turn_execute` call.
pub struct Runtime {
    pub is_started: bool,
    pub turn_counter: TurnCounter,
    pub characters: CharacterManager,
    pub map: Grid,
}

impl Runtime {
    pub open spec fn wf(self) -> bool {
        &&& self.characters.wf()
        &&& self.map.wf()
        &&& self.turn_counter.count >= 0
        &&& (self.is_started ==> self.characters@.len() >= 1)
    }

    /// A fresh match: no combatants, not started, turn counter at zero.
    pub fn init() -> (r: Runtime)
        ensures
            !r.is_started,
            r.turn_counter.count == 0,
            r.characters@.len() == 0,
            r.map.width == DEFAULT_GRID_SIDE,
            r.map.height == DEFAULT_GRID_SIDE,
            r.wf(),
    {
        Runtime {
            is_started: false,
            turn_counter: TurnCounter::new(),
            characters: CharacterManager::new(),
            map: Grid::default(),
        }
    }

    /// Append a combatant; only valid before the match starts. The caller
    /// guarantees a fresh identity (see `CharacterManager::contains_id`).
    pub fn char_append(&mut self, c: Character) -> (r: Result<(), StructuralError>)
        requires
            old(self).wf(),
            c.wf(),
            forall|i: int|
                0 <= i < old(self).characters@.len() ==> (
                #[trigger] old(self).characters@[i]).id@ != c.id@,
        ensures
            match r {
                Result::Err(e) => e == StructuralError::AlreadyStarted && old(self).is_started
                    && *final(self) == *old(self),
                Result::Ok(_) => !old(self).is_started && final(self).characters@ == old(self).characters@.push(c) && final(self).is_started == old(self).is_started && final(self).turn_counter == old(self).turn_counter && final(self).map == old(self).map,
            },
            final(self).wf(),
    {
        if self.is_started {
            return Err(StructuralError::AlreadyStarted);
        }
        self.characters.append(c);
        Ok(())
    }

    /// Create a combatant with the given identity and speed, default in
    /// everything else, and append it.
    pub fn char_create(&mut self, id: String, spd: i32) -> (r: Result<(), StructuralError>)
        requires
            old(self).wf(),
            spd >= 0,
            forall|i: int|
                0 <= i < old(self).characters@.len() ==> (
                #[trigger] old(self).characters@[i]).id@ != id@,
        ensures
            match r {
                Result::Err(e) => e == StructuralError::AlreadyStarted && old(self).is_started
                    && *final(self) == *old(self),
                Result::Ok(_) => {
                    &&& !old(self).is_started
                    &&& final(self).characters@.len() == old(self).characters@.len() + 1
                    &&& final(self).characters@.drop_last() == old(self).characters@
                    &&& ({
                        let l = final(self).characters@.last();
                        l.id == id && l.inborn == (CharacterInborn { atk: 100, def: 100, spd })
                            && l.hp.value == 1000 && l.hp.max == 1000 && l.mp.value == 100
                            && l.mp.max == 100 && l.effects.0@.len() == 0
                            && l.action_value.value == ACTION_VALUE_INIT
                    })
                    &&& final(self).is_started == old(self).is_started
                    &&& final(self).turn_counter == old(self).turn_counter
                    &&& final(self).map == old(self).map
                },
            },
            final(self).wf(),
    {
        if self.is_started {
            return Err(StructuralError::AlreadyStarted);
        }
        let mut c = Character::default();
        c.id = id;
        c.inborn.spd = spd;
        self.characters.append(c);
        proof {
            assert(self.characters@.drop_last() =~= old(self).characters@);
        }
        Ok(())
    }

    /// Start the match: requires a non-empty roster, freezes membership.
    pub fn runtime_start(&mut self) -> (r: Result<(), StructuralError>)
        requires
            old(self).wf(),
        ensures
            match r {
                Result::Err(e) => *final(self) == *old(self) && ((e
                    == StructuralError::AlreadyStarted && old(self).is_started) || (e
                    == StructuralError::EmptyRoster && !old(self).is_started && old(self).characters@.len() == 0)),
                Result::Ok(_) => !old(self).is_started && old(self).characters@.len() >= 1
                    && final(self).is_started && final(self).characters == old(self).characters
                    && final(self).turn_counter == old(self).turn_counter && final(self).map
                    == old(self).map,
            },
            final(self).wf(),
    {
        if self.is_started {
            return Err(StructuralError::AlreadyStarted);
        }
        if self.characters.len() == 0 {
            return Err(StructuralError::EmptyRoster);
        }
        self.is_started = true;
        Ok(())
    }

    /// Resolve one whole turn: select the actor by the countdown scheduler,
    /// validate the chosen skill against the target specification, and only
    /// if the cast is accepted commit the turn — elapse ticks, apply the
    /// action, tick every effect tracker, restore the actor and count the
    /// turn. Any failure leaves the runtime exactly as it was.
    pub fn turn_execute(&mut self, skill: &Skill, target: &TargetSpec) -> (r: Result<
        TurnSummary,
        TurnError,
    >)
        requires
            old(self).wf(),
            skill.wf(),
            old(self).turn_counter.count < i32::MAX,
        ensures
            match r {
                Result::Err(TurnError::Lifecycle(se)) => se == StructuralError::NotStarted && !old(self).is_started && *final(self) == *old(self),
                Result::Err(TurnError::Dispatch(de)) => {
                    let s0 = old(self).characters@;
                    let cid = s0[first_ready_index(s0, min_ticks(s0))].id@;
                    &&& old(self).is_started
                    &&& Some(de) == spec_cast_err(s0, old(self).map, *skill, cid, *target)
                    &&& *final(self) == *old(self)
                },
                Result::Ok(summary) => {
                    let s0 = old(self).characters@;
                    let e = min_ticks(s0);
                    let actor = first_ready_index(s0, e);
                    let cid = s0[actor].id@;
                    let rids = recip_ids(cid, *target);
                    &&& old(self).is_started
                    &&& spec_cast_err(s0, old(self).map, *skill, cid, *target) is None
                    &&& summary.actor as int == actor
                    &&& summary.elapsed as int == e
                    &&& summary.affected == rids.len()
                    &&& final(self).is_started
                    &&& final(self).map == old(self).map
                    &&& final(self).turn_counter.count == old(self).turn_counter.count + 1
                    &&& final(self).characters@.len() == s0.len()
                    &&& forall|j: int|
                        0 <= j < s0.len() ==> turn_result_at(
                            s0[j],
                            #[trigger] final(self).characters@[j],
                            e,
                            j == actor,
                            skill.action,
                            count_matches(rids, s0[j].id@),
                        )
                },
            },
            final(self).wf(),
    {
        if !self.is_started {
            return Err(TurnError::Lifecycle(StructuralError::NotStarted));
        }
        let e = self.characters.compute_elapsed();
        let idx = self.characters.first_ready(e);
        let caster_id = self.characters.id_at(idx);
        let idxs: Vec<usize> = match check_cast(
            &self.characters,
            &self.map,
            skill,
            &caster_id,
            target,
        ) {
            Ok(v) => v,
            Err(de) => {
                return Err(TurnError::Dispatch(de));
            },
        };
        proof {
            crate::skills::lemma_count_correspondence(
                self.characters@,
                idxs@,
                recip_ids(caster_id@, *target),
            );
        }
        let mut taken = CharacterManager::new();
        core::mem::swap(&mut taken, &mut self.characters);
        let mut unit = TurnUnit::new(idx, taken, self.map);
        unit.execute(e, &idxs, &skill.action);
        unit.give_back(self);
        self.turn_counter.proceed();
        Ok(TurnSummary { actor: idx, elapsed: e, affected: idxs.len() })
    }
}

} // verus!
