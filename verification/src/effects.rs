//! Timed status effects and the per-combatant tracker that expires them.
//!
//! Each `EffectStatus` carries a positive number of remaining turns. A tick
//! decrements every held status once; statuses reaching zero are removed and
//! reported as expired. Reapplying an already-active kind refreshes its
//! duration rather than stacking a second instance.

use vstd::prelude::*;

verus! {

/// The closed set of status-effect kinds.
#[derive(Clone, Copy, Debug, PartialEq, Eq, Structural)]
pub enum Effect {
    AtkEnhanced,
}

/// One active timed effect: its kind and how many turns remain.
#[derive(Clone, Copy, Debug, PartialEq, Eq, Structural)]
pub struct EffectStatus {
    pub remain_turn: i32,
    pub effect_type: Effect,
}

impl EffectStatus {
    /// An active status always has at least one turn remaining.
    pub open spec fn wf(self) -> bool {
        self.remain_turn >= 1
    }
}

/// Whether some status in `s` has kind `k`.
pub open spec fn has_kind(s: Seq<EffectStatus>, k: Effect) -> bool {
    exists|i: int| 0 <= i < s.len() && s[i].effect_type == k
}

/// The statuses left after one tick: every `remain_turn` drops by one and
/// those reaching zero are removed; order is preserved.
pub open spec fn ticked(s: Seq<EffectStatus>) -> Seq<EffectStatus>
    decreases s.len(),
{
    if s.len() == 0 {
        Seq::empty()
    } else {
        let rest = ticked(s.drop_last());
        let e = s.last();
        if e.remain_turn > 1 {
            rest.push(EffectStatus { remain_turn: (e.remain_turn - 1) as i32, ..e })
        } else {
            rest
        }
    }
}

/// The kinds expired by one tick, in the order they were held.
pub open spec fn expired_of(s: Seq<EffectStatus>) -> Seq<Effect>
    decreases s.len(),
{
    if s.len() == 0 {
        Seq::empty()
    } else {
        let rest = expired_of(s.drop_last());
        let e = s.last();
        if e.remain_turn <= 1 {
            rest.push(e.effect_type)
        } else {
            rest
        }
    }
}

/// The statuses after applying `st` under the refresh-on-reapply policy:
/// an already-active kind has its entry replaced in place, a new kind is
/// appended.
pub open spec fn refreshed(s: Seq<EffectStatus>, st: EffectStatus) -> Seq<EffectStatus> {
    if has_kind(s, st.effect_type) {
        s.update(kind_index(s, st.effect_type), st)
    } else {
        s.push(st)
    }
}

/// The index holding kind `k`; well defined whenever kinds are unique.
pub open spec fn kind_index(s: Seq<EffectStatus>, k: Effect) -> int {
    choose|i: int| 0 <= i < s.len() && s[i].effect_type == k
}

/// Ticking keeps only kinds that were already held.
pub proof fn lemma_ticked_kinds(s: Seq<EffectStatus>, k: Effect)
    requires
        has_kind(ticked(s), k),
    ensures
        has_kind(s, k),
    decreases s.len(),
{
    if s.len() > 0 {
        let e = s.last();
        if e.remain_turn > 1 {
            let t = ticked(s.drop_last()).push(
                EffectStatus { remain_turn: (e.remain_turn - 1) as i32, ..e },
            );
            let j = choose|j: int| 0 <= j < t.len() && t[j].effect_type == k;
            if j < t.len() - 1 {
                lemma_ticked_kinds(s.drop_last(), k);
                let i = choose|i: int|
                    0 <= i < s.drop_last().len() && s.drop_last()[i].effect_type == k;
                assert(s[i].effect_type == k);
            } else {
                assert(s[s.len() - 1].effect_type == k);
            }
        } else {
            lemma_ticked_kinds(s.drop_last(), k);
            let i = choose|i: int|
                0 <= i < s.drop_last().len() && s.drop_last()[i].effect_type == k;
            assert(s[i].effect_type == k);
        }
    }
}

/// Law: a status with exactly one remaining turn is removed by a single
/// tick, and its kind is reported as expired.
pub proof fn lemma_one_turn_effect_expires(s: Seq<EffectStatus>, i: int)
    requires
        0 <= i < s.len(),
        s[i].remain_turn == 1,
        forall|k: int, j: int|
            #![trigger s[k], s[j]]
            0 <= k < j < s.len() ==> s[k].effect_type != s[j].effect_type,
    ensures
        !has_kind(ticked(s), s[i].effect_type),
        expired_of(s).contains(s[i].effect_type),
    decreases s.len(),
{
    let kd = s[i].effect_type;
    let front = s.drop_last();
    let e = s.last();
    if i == s.len() - 1 {
        if has_kind(ticked(front), kd) {
            lemma_ticked_kinds(front, kd);
            let m = choose|m: int| 0 <= m < front.len() && front[m].effect_type == kd;
            assert(s[m].effect_type == s[i].effect_type);
            assert(false);
        }
        assert(expired_of(s).last() == kd);
    } else {
        lemma_one_turn_effect_expires(front, i);
        assert(front[i] == s[i]);
        if e.remain_turn > 1 {
            let d = EffectStatus { remain_turn: (e.remain_turn - 1) as i32, ..e };
            let t = ticked(front).push(d);
            assert(s[s.len() - 1].effect_type != kd);
            if has_kind(t, kd) {
                let m = choose|m: int| 0 <= m < t.len() && t[m].effect_type == kd;
                if m < t.len() - 1 {
                    assert(has_kind(ticked(front), kd));
                    assert(false);
                } else {
                    assert(t[m] == d);
                    assert(false);
                }
            }
            assert(expired_of(s) == expired_of(front));
        } else {
            assert(expired_of(s) == expired_of(front).push(e.effect_type));
            let w = choose|w: int|
                0 <= w < expired_of(front).len() && expired_of(front)[w] == kd;
            assert(expired_of(s)[w] == kd);
        }
    }
}

/// The tracker of one combatant's active timed effects.
#[derive(Debug)]
pub struct EffectManager(pub Vec<EffectStatus>);

impl EffectManager {
    /// Every status is active and no kind appears twice.
    pub open spec fn wf(self) -> bool {
        &&& forall|i: int| 0 <= i < self.0@.len() ==> (#[trigger] self.0@[i]).wf()
        &&& forall|i: int, j: int|
            #![trigger self.0@[i], self.0@[j]]
            0 <= i < j < self.0@.len() ==> self.0@[i].effect_type != self.0@[j].effect_type
    }

    /// Advance every held status by one elapsed turn; remove and report the
    /// kinds whose remaining turns reach zero.
    pub fn tick(&mut self) -> (expired: Vec<Effect>)
        requires
            old(self).wf(),
        ensures
            final(self).0@ == ticked(old(self).0@),
            expired@ == expired_of(old(self).0@),
            final(self).wf(),
    {
        let s = Ghost(self.0@);
        let mut kept: Vec<EffectStatus> = Vec::new();
        let mut expired: Vec<Effect> = Vec::new();
        let n = self.0.len();
        let mut i: usize = 0;
        while i < n
            invariant
                n == s@.len(),
                s@ == old(self).0@,
                self.0@ == s@,
                i <= n,
                kept@ == ticked(s@.take(i as int)),
                expired@ == expired_of(s@.take(i as int)),
                forall|k: int| 0 <= k < s@.len() ==> (#[trigger] s@[k]).wf(),
            decreases n - i,
        {
            let e = self.0[i];
            proof {
                assert(s@.take(i + 1).drop_last() =~= s@.take(i as int));
                assert(s@.take(i + 1).last() == s@[i as int]);
            }
            if e.remain_turn > 1 {
                kept.push(EffectStatus { remain_turn: e.remain_turn - 1, ..e });
            } else {
                expired.push(e.effect_type);
            }
            i = i + 1;
        }
        proof {
            assert(s@.take(n as int) =~= s@);
        }
        self.0 = kept;
        proof {
            lemma_ticked_wf(s@);
        }
        expired
    }

    /// Apply a fresh status under the refresh-on-reapply policy.
    pub fn apply(&mut self, status: EffectStatus)
        requires
            old(self).wf(),
            status.wf(),
        ensures
            final(self).0@ == refreshed(old(self).0@, status),
            final(self).wf(),
    {
        let s = Ghost(self.0@);
        let n = self.0.len();
        let mut i: usize = 0;
        while i < n
            invariant
                n == s@.len(),
                s@ == old(self).0@,
                self.0@ == s@,
                i <= n,
                status.wf(),
                forall|k: int| 0 <= k < s@.len() ==> (#[trigger] s@[k]).wf(),
                forall|k: int| 0 <= k < i ==> (#[trigger] s@[k]).effect_type != status.effect_type,
                forall|k: int, j: int|
                    #![trigger s@[k], s@[j]]
                    0 <= k < j < s@.len() ==> s@[k].effect_type != s@[j].effect_type,
            decreases n - i,
        {
            if self.0[i].effect_type == status.effect_type {
                self.0[i] = status;
                proof {
                    assert(s@[i as int].effect_type == status.effect_type);
                    assert(has_kind(s@, status.effect_type));
                    let ki = kind_index(s@, status.effect_type);
                    assert(0 <= ki < s@.len() && s@[ki].effect_type == status.effect_type);
                    if ki < i as int {
                        assert(s@[ki].effect_type != s@[i as int].effect_type);
                        assert(false);
                    }
                    if ki > i as int {
                        assert(s@[i as int].effect_type != s@[ki].effect_type);
                        assert(false);
                    }
                    assert(self.0@ == s@.update(i as int, status));
                    assert forall|k: int| 0 <= k < self.0@.len() implies (
                    #[trigger] self.0@[k]).wf() by {
                        if k != i as int {
                            assert(self.0@[k] == s@[k]);
                        }
                    }
                    assert forall|k: int, j: int|
                        #![trigger self.0@[k], self.0@[j]]
                        0 <= k < j < self.0@.len() implies self.0@[k].effect_type
                        != self.0@[j].effect_type by {
                        assert(self.0@[k].effect_type == s@[k].effect_type);
                        assert(self.0@[j].effect_type == s@[j].effect_type);
                    }
                }
                return ;
            }
            i = i + 1;
        }
        self.0.push(status);
        proof {
            assert forall|k: int|
                0 <= k < s@.len() implies (#[trigger] s@[k]).effect_type
                != status.effect_type by {}
            assert(!has_kind(s@, status.effect_type));
            assert(self.0@ == s@.push(status));
            assert forall|k: int| 0 <= k < self.0@.len() implies (
            #[trigger] self.0@[k]).wf() by {
                if k < s@.len() {
                    assert(self.0@[k] == s@[k]);
                }
            }
            assert forall|k: int, j: int|
                #![trigger self.0@[k], self.0@[j]]
                0 <= k < j < self.0@.len() implies self.0@[k].effect_type
                != self.0@[j].effect_type by {
                if j < s@.len() {
                    assert(self.0@[k] == s@[k] && self.0@[j] == s@[j]);
                } else {
                    assert(self.0@[k] == s@[k] && self.0@[j] == status);
                }
            }
        }
    }

    /// Whether an effect of kind `k` is currently active.
    pub fn active(&self, k: Effect) -> (r: bool)
        ensures
            r == has_kind(self.0@, k),
    {
        let mut i: usize = 0;
        let n = self.0.len();
        while i < n
            invariant
                n == self.0@.len(),
                i <= n,
                forall|j: int| 0 <= j < i ==> (#[trigger] self.0@[j]).effect_type != k,
            decreases n - i,
        {
            if self.0[i].effect_type == k {
                return true;
            }
            i = i + 1;
        }
        false
    }
}

/// Ticking a well-formed tracker yields a well-formed tracker: remaining
/// turns stay positive and kinds stay unique.
pub proof fn lemma_ticked_wf(s: Seq<EffectStatus>)
    requires
        forall|i: int| 0 <= i < s.len() ==> (#[trigger] s[i]).wf(),
        forall|i: int, j: int|
            #![trigger s[i], s[j]]
            0 <= i < j < s.len() ==> s[i].effect_type != s[j].effect_type,
    ensures
        forall|i: int| 0 <= i < ticked(s).len() ==> (#[trigger] ticked(s)[i]).wf(),
        forall|i: int, j: int|
            #![trigger ticked(s)[i], ticked(s)[j]]
            0 <= i < j < ticked(s).len() ==> ticked(s)[i].effect_type
                != ticked(s)[j].effect_type,
    decreases s.len(),
{
    if s.len() > 0 {
        let p = s.drop_last();
        lemma_ticked_wf(p);
        let e = s.last();
        if e.remain_turn > 1 {
            let d = EffectStatus { remain_turn: (e.remain_turn - 1) as i32, ..e };
            let t = ticked(p).push(d);
            assert forall|i: int, j: int|
                #![trigger t[i], t[j]]
            0 <= i < j < t.len() implies t[i].effect_type != t[j].effect_type by {
                if j == t.len() - 1 {
                    if has_kind(ticked(p), d.effect_type) {
                        lemma_ticked_kinds(p, d.effect_type);
                        let m = choose|m: int| 0 <= m < p.len() && p[m].effect_type == d.effect_type;
                        assert(s[m].effect_type == s[s.len() - 1].effect_type);
                        assert(false);
                    }
                    assert(t[i].effect_type == ticked(p)[i].effect_type);
                }
            }
        }
    }
}

impl Default for EffectManager {
    fn default() -> (m: EffectManager)
        ensures
            m.0@.len() == 0,
            m.wf(),
    {
        EffectManager(Vec::new())
    }
}

} // verus!
