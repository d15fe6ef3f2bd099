//! What happens to the alerts raised by the threshold checks: those that a
//! silence rule mutes are dropped; the rest are recorded in the alert history
//! and escalated under the critical escalation policy.
use vstd::prelude::*;
use crate::dup::{Duplicate, views};
use crate::text::owned;
use crate::monitor::types::{Alert, AlertView};
use crate::monitor::deadlock::bounded_push;
use crate::monitor::alert::AlertManager;
use crate::monitor::silence::{SilenceManager, EscalationManager, EscalationStatus, silenced, start_post};

verus! {

/// The alerts of `s` that no rule of `m` silences at `now`, in order.
pub open spec fn unsilenced(m: SilenceManager, s: Seq<AlertView>, now: u64) -> Seq<AlertView>
    decreases s.len(),
{
    if s.len() == 0 {
        seq![]
    } else if silenced(m.rule_list(), s.last().level, s.last().metric_type, s.last().id, now) {
        unsilenced(m, s.drop_last(), now)
    } else {
        unsilenced(m, s.drop_last(), now).push(s.last())
    }
}

/// The history `h` (keeping at most `max`) after recording each of `s` in turn.
pub open spec fn recorded_all(h: Seq<AlertView>, max: usize, s: Seq<AlertView>) -> Seq<AlertView>
    decreases s.len(),
{
    if s.len() == 0 { h } else { bounded_push(recorded_all(h, max, s.drop_last()), max, s.last()) }
}

/// Whether some alert of `s` has id `k`.
pub open spec fn has_alert_id(s: Seq<AlertView>, k: Seq<char>) -> bool {
    exists|j: int| 0 <= j < s.len() && #[trigger] s[j].id == k
}

/// The policy every recorded alert is escalated under.
pub open spec fn escalation_policy() -> Seq<char> {
    "critical_escalation"@
}

/// What escalating each of `s` at `now` does to the escalations: nothing
/// unless the critical policy exists and is enabled; then each alert of `s`
/// has a pending escalation at level 0 under that policy, begun at `now`,
/// and every other escalation is left as it was.
pub open spec fn escalated_all(old: EscalationManager, new: EscalationManager, s: Seq<AlertView>, now: u64) -> bool {
    &&& new.policy_map() == old.policy_map()
    &&& new.max_history() == old.max_history()
    &&& if old.policy_map().dom().contains(escalation_policy()) && old.policy_map()[escalation_policy()].enabled {
        &&& forall|k: Seq<char>| #[trigger] new.active_map().dom().contains(k)
            <==> (old.active_map().dom().contains(k) || has_alert_id(s, k))
        &&& forall|k: Seq<char>| #[trigger] new.active_map().dom().contains(k) && has_alert_id(s, k) ==> {
            let ev = new.active_map()[k];
            &&& ev.alert_id == k && ev.policy_id == escalation_policy() && ev.current_level == 0
            &&& ev.status == EscalationStatus::Pending && ev.timestamp == now
        }
        &&& forall|k: Seq<char>| #[trigger] new.active_map().dom().contains(k) && !has_alert_id(s, k)
            ==> new.active_map()[k] == old.active_map()[k]
    } else {
        new.active_map() == old.active_map() && new.history() == old.history()
    }
}

/// Handles the alerts `candidates` raised at `now`: the ones no silence rule
/// mutes are recorded in the alert history, escalated under the critical
/// escalation policy (see `escalated_all`) and returned, in order.
pub fn process_alerts_at(alerts: &mut AlertManager, silences: &SilenceManager, escalations: &mut EscalationManager,
    candidates: Vec<Alert>, now: u64) -> (kept: Vec<Alert>)
    ensures
        views(kept@) == unsilenced(*silences, views(candidates@), now),
        final(alerts).history() == recorded_all(old(alerts).history(), old(alerts).max_history(), views(kept@)),
        final(alerts).thresholds() == old(alerts).thresholds(),
        final(alerts).cooldowns() == old(alerts).cooldowns(),
        final(alerts).rules() == old(alerts).rules(),
        final(alerts).max_history() == old(alerts).max_history(),
        escalated_all(*old(escalations), *final(escalations), views(kept@), now),
{
    let ghost cs = views(candidates@);
    let n = candidates.len();
    let mut kept: Vec<Alert> = Vec::new();
    let mut i: usize = 0;
    while i < n
        invariant
            n == candidates@.len(),
            cs == views(candidates@),
            i <= n,
            views(kept@) == unsilenced(*silences, cs.take(i as int), now),
            alerts.history() == recorded_all(old(alerts).history(), old(alerts).max_history(), views(kept@)),
            alerts.thresholds() == old(alerts).thresholds(),
            alerts.cooldowns() == old(alerts).cooldowns(),
            alerts.rules() == old(alerts).rules(),
            alerts.max_history() == old(alerts).max_history(),
        decreases n - i,
    {
        proof {
            assert(cs.take(i + 1).drop_last() =~= cs.take(i as int));
            assert(cs.take(i + 1).last() == candidates@[i as int]@);
        }
        let a = &candidates[i];
        if !silences.is_silenced_at(a, now) {
            let ghost before = views(kept@);
            alerts.record_alert(a.dup());
            kept.push(a.dup());
            proof {
                assert(views(kept@) =~= before.push(a@));
                assert(views(kept@).drop_last() =~= before);
            }
        }
        i = i + 1;
    }
    proof { assert(cs.take(n as int) =~= cs); }
    let ghost ks = views(kept@);
    let policy = owned("critical_escalation");
    let m = kept.len();
    let mut j: usize = 0;
    while j < m
        invariant
            m == kept@.len(),
            ks == views(kept@),
            j <= m,
            policy@ == escalation_policy(),
            escalated_all(*old(escalations), *escalations, ks.take(j as int), now),
        decreases m - j,
    {
        let ghost before = *escalations;
        let r = escalations.start_escalation_at(&kept[j], policy.as_str(), now);
        proof {
            let t = ks.take(j as int);
            let t2 = ks.take(j + 1);
            let x = kept@[j as int]@;
            assert(t2 =~= t.push(x));
            assert(start_post(before, *escalations, x.id, escalation_policy(), now, r));
            assert forall|k: Seq<char>| has_alert_id(t2, k) <==> (has_alert_id(t, k) || k == x.id) by {
                if has_alert_id(t2, k) {
                    let q = choose|q: int| 0 <= q < t2.len() && #[trigger] t2[q].id == k;
                    if q < t.len() {
                        assert(t[q] == t2[q]);
                    }
                }
                if has_alert_id(t, k) {
                    let q = choose|q: int| 0 <= q < t.len() && #[trigger] t[q].id == k;
                    assert(t2[q] == t[q]);
                }
                if k == x.id {
                    assert(t2[t.len() as int] == x);
                }
            }
        }
        j = j + 1;
    }
    proof { assert(ks.take(m as int) =~= ks); }
    kept
}

} // verus!
