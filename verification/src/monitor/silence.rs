//! Alert silencing and escalation: silence rules with match conditions and time
//! windows, active silences, escalation policies with levels of recipients, and
//! the escalation of individual alerts through those levels. Times are
//! milliseconds on one clock.
use vstd::prelude::*;
use crate::keyed::{Keyed, Store, unique_keys, has_key};
use crate::text::{owned, str_eq, strings_view, opt_view, copy_strings, copy_vec, contains_str};
use crate::ids::{new_uuid_string, is_hyphenated_uuid};
use crate::clock::now_millis_unsigned;
use crate::monitor::types::{Alert, AlertLevel};
use crate::monitor::deadlock::bounded_push;
use crate::security::audit_log::newest;
use crate::security::ddos_protection::deadline;

verus! {

/// One hour in milliseconds.
pub const HOUR_MS: u64 = 3_600_000;
/// Fifteen minutes in milliseconds.
pub const QUARTER_HOUR_MS: u64 = 900_000;

/// Which alerts a silence rule applies to; each condition given must hold.
pub struct SilenceMatchConditions {
    pub alert_levels: Option<Vec<AlertLevel>>,
    pub metric_types: Option<Vec<String>>,
    pub alert_ids: Option<Vec<String>>,
    pub patterns: Option<Vec<String>>,
}

/// How often a rule recurs.
#[derive(Clone, Copy, PartialEq, Eq, Structural, Debug)]
pub enum RecurrenceFrequency {
    Minutely,
    Hourly,
    Daily,
    Weekly,
    Monthly,
}

/// A daily time window.
#[derive(Clone, Copy, PartialEq, Eq, Structural, Debug)]
pub struct TimeRange {
    pub start_hour: u8,
    pub start_minute: u8,
    pub end_hour: u8,
    pub end_minute: u8,
}

/// When a recurring rule applies.
pub struct RecurrencePattern {
    pub frequency: RecurrenceFrequency,
    pub interval: u32,
    pub days_of_week: Option<Vec<u8>>,
    pub days_of_month: Option<Vec<u8>>,
    pub time_range: Option<TimeRange>,
}

/// A rule that silences matching alerts between two times.
pub struct SilenceRule {
    pub id: String,
    pub name: String,
    pub description: String,
    pub match_conditions: SilenceMatchConditions,
    pub start_time: u64,
    pub end_time: u64,
    pub is_recurring: bool,
    pub recurrence_pattern: Option<RecurrencePattern>,
    pub created_at: u64,
    pub created_by: String,
    pub enabled: bool,
}

/// The plain content of match conditions.
pub struct ConditionsView {
    pub alert_levels: Option<Seq<AlertLevel>>,
    pub metric_types: Option<Seq<Seq<char>>>,
    pub alert_ids: Option<Seq<Seq<char>>>,
    pub patterns: Option<Seq<Seq<char>>>,
}

/// The plain content of a recurrence pattern.
pub struct RecurrenceView {
    pub frequency: RecurrenceFrequency,
    pub interval: u32,
    pub days_of_week: Option<Seq<u8>>,
    pub days_of_month: Option<Seq<u8>>,
    pub time_range: Option<TimeRange>,
}

/// The plain content of a silence rule.
pub struct SilenceRuleView {
    pub id: Seq<char>,
    pub name: Seq<char>,
    pub description: Seq<char>,
    pub match_conditions: ConditionsView,
    pub start_time: u64,
    pub end_time: u64,
    pub is_recurring: bool,
    pub recurrence_pattern: Option<RecurrenceView>,
    pub created_at: u64,
    pub created_by: Seq<char>,
    pub enabled: bool,
}

/// The plain content of optional strings.
pub open spec fn opt_strings_view(o: Option<Vec<String>>) -> Option<Seq<Seq<char>>> {
    match o {
        Some(v) => Some(strings_view(v@)),
        None => None,
    }
}

/// The plain content of an optional vector.
pub open spec fn opt_seq<T>(o: Option<Vec<T>>) -> Option<Seq<T>> {
    match o {
        Some(v) => Some(v@),
        None => None,
    }
}

impl View for SilenceMatchConditions {
    type V = ConditionsView;

    open spec fn view(&self) -> ConditionsView {
        ConditionsView {
            alert_levels: opt_seq(self.alert_levels),
            metric_types: opt_strings_view(self.metric_types),
            alert_ids: opt_strings_view(self.alert_ids),
            patterns: opt_strings_view(self.patterns),
        }
    }
}

impl View for RecurrencePattern {
    type V = RecurrenceView;

    open spec fn view(&self) -> RecurrenceView {
        RecurrenceView {
            frequency: self.frequency,
            interval: self.interval,
            days_of_week: opt_seq(self.days_of_week),
            days_of_month: opt_seq(self.days_of_month),
            time_range: self.time_range,
        }
    }
}

impl View for SilenceRule {
    type V = SilenceRuleView;

    open spec fn view(&self) -> SilenceRuleView {
        SilenceRuleView {
            id: self.id@,
            name: self.name@,
            description: self.description@,
            match_conditions: self.match_conditions@,
            start_time: self.start_time,
            end_time: self.end_time,
            is_recurring: self.is_recurring,
            recurrence_pattern: match self.recurrence_pattern { Some(p) => Some(p@), None => None },
            created_at: self.created_at,
            created_by: self.created_by@,
            enabled: self.enabled,
        }
    }
}

fn copy_opt_strings(o: &Option<Vec<String>>) -> (r: Option<Vec<String>>)
    ensures
        opt_strings_view(r) == opt_strings_view(*o),
{
    match o {
        Some(v) => Some(copy_strings(v)),
        None => None,
    }
}

fn copy_opt_vec<T: Copy>(o: &Option<Vec<T>>) -> (r: Option<Vec<T>>)
    ensures
        opt_seq(r) == opt_seq(*o),
{
    match o {
        Some(v) => Some(copy_vec(v)),
        None => None,
    }
}

impl SilenceMatchConditions {
    /// A field-by-field copy.
    pub fn duplicate(&self) -> (r: SilenceMatchConditions)
        ensures
            r@ == self@,
    {
        SilenceMatchConditions {
            alert_levels: copy_opt_vec(&self.alert_levels),
            metric_types: copy_opt_strings(&self.metric_types),
            alert_ids: copy_opt_strings(&self.alert_ids),
            patterns: copy_opt_strings(&self.patterns),
        }
    }
}

impl SilenceRule {
    /// A field-by-field copy.
    pub fn duplicate(&self) -> (r: SilenceRule)
        ensures
            r@ == self@,
    {
        SilenceRule {
            id: self.id.clone(),
            name: self.name.clone(),
            description: self.description.clone(),
            match_conditions: self.match_conditions.duplicate(),
            start_time: self.start_time,
            end_time: self.end_time,
            is_recurring: self.is_recurring,
            recurrence_pattern: match &self.recurrence_pattern {
                Some(p) => Some(RecurrencePattern {
                    frequency: p.frequency,
                    interval: p.interval,
                    days_of_week: copy_opt_vec(&p.days_of_week),
                    days_of_month: copy_opt_vec(&p.days_of_month),
                    time_range: p.time_range,
                }),
                None => None,
            },
            created_at: self.created_at,
            created_by: self.created_by.clone(),
            enabled: self.enabled,
        }
    }
}

/// A silence in force for one alert.
pub struct ActiveSilence {
    pub rule_id: String,
    pub alert_id: String,
    pub silenced_at: u64,
    pub expires_at: u64,
}

/// The plain content of an active silence.
pub struct ActiveSilenceView {
    pub rule_id: Seq<char>,
    pub alert_id: Seq<char>,
    pub silenced_at: u64,
    pub expires_at: u64,
}

impl View for ActiveSilence {
    type V = ActiveSilenceView;

    open spec fn view(&self) -> ActiveSilenceView {
        ActiveSilenceView { rule_id: self.rule_id@, alert_id: self.alert_id@, silenced_at: self.silenced_at, expires_at: self.expires_at }
    }
}

impl ActiveSilence {
    /// A field-by-field copy.
    pub fn duplicate(&self) -> (r: ActiveSilence)
        ensures
            r@ == self@,
    {
        ActiveSilence { rule_id: self.rule_id.clone(), alert_id: self.alert_id.clone(), silenced_at: self.silenced_at, expires_at: self.expires_at }
    }
}

// ---------------------------------------------------------------------------
// Silencing
// ---------------------------------------------------------------------------

/// Whether an alert meets the conditions (patterns are not consulted).
pub open spec fn conditions_match(level: AlertLevel, metric_type: Seq<char>, id: Seq<char>, c: ConditionsView) -> bool {
    &&& (c.alert_levels matches Some(l) ==> l.contains(level))
    &&& (c.metric_types matches Some(t) ==> t.contains(metric_type))
    &&& (c.alert_ids matches Some(i) ==> i.contains(id))
}

/// Whether rule `r` silences the alert at `now`: enabled, within its window,
/// and matching.
pub open spec fn rule_silences(r: SilenceRuleView, level: AlertLevel, metric_type: Seq<char>, id: Seq<char>, now: u64) -> bool {
    r.enabled && r.start_time <= now && now <= r.end_time && conditions_match(level, metric_type, id, r.match_conditions)
}

/// Whether some rule of `rules` silences the alert at `now`.
pub open spec fn silenced(rules: Seq<SilenceRuleView>, level: AlertLevel, metric_type: Seq<char>, id: Seq<char>, now: u64) -> bool {
    exists|i: int| 0 <= i < rules.len() && #[trigger] rule_silences(rules[i], level, metric_type, id, now)
}

/// The rules of `s` other than those with id `id`, in order.
pub open spec fn rules_without(s: Seq<SilenceRuleView>, id: Seq<char>) -> Seq<SilenceRuleView>
    decreases s.len(),
{
    if s.len() == 0 {
        seq![]
    } else if s.last().id == id {
        rules_without(s.drop_last(), id)
    } else {
        rules_without(s.drop_last(), id).push(s.last())
    }
}

/// The silences of `s` still in force at `now`, in order.
pub open spec fn in_force(s: Seq<ActiveSilenceView>, now: u64) -> Seq<ActiveSilenceView>
    decreases s.len(),
{
    if s.len() == 0 {
        seq![]
    } else if s.last().expires_at > now {
        in_force(s.drop_last(), now).push(s.last())
    } else {
        in_force(s.drop_last(), now)
    }
}

fn contains_level(v: &Vec<AlertLevel>, l: AlertLevel) -> (b: bool)
    ensures
        b == v@.contains(l),
{
    let n = v.len();
    let mut i: usize = 0;
    while i < n
        invariant
            n == v@.len(),
            i <= n,
            forall|j: int| 0 <= j < i ==> v@[j] != l,
        decreases n - i,
    {
        if v[i] == l {
            return true;
        }
        i = i + 1;
    }
    false
}

/// Whether `alert` meets the conditions (patterns are not consulted).
pub fn matches_conditions(alert: &Alert, conditions: &SilenceMatchConditions) -> (b: bool)
    ensures
        b == conditions_match(alert.level, alert.metric_type@, alert.id@, conditions@),
{
    if let Some(levels) = &conditions.alert_levels {
        if !contains_level(levels, alert.level) {
            return false;
        }
    }
    if let Some(types) = &conditions.metric_types {
        if !contains_str(types, alert.metric_type.as_str()) {
            return false;
        }
    }
    if let Some(ids) = &conditions.alert_ids {
        if !contains_str(ids, alert.id.as_str()) {
            return false;
        }
    }
    true
}

/// Silence rules and the silences in force, the latter kept up to a bound.
pub struct SilenceManager {
    rules: Vec<SilenceRule>,
    active_silences: Vec<ActiveSilence>,
    max_history_size: usize,
}

impl SilenceManager {
    /// The rules, in the order added.
    pub closed spec fn rule_list(&self) -> Seq<SilenceRuleView> {
        self.rules@.map_values(|r: SilenceRule| r@)
    }

    /// The recorded silences, oldest first.
    pub closed spec fn silence_list(&self) -> Seq<ActiveSilenceView> {
        self.active_silences@.map_values(|s: ActiveSilence| s@)
    }

    /// How many silences are kept.
    pub closed spec fn max_history(&self) -> usize {
        self.max_history_size
    }

    /// No rules, no silences.
    pub fn new(max_history_size: usize) -> (m: SilenceManager)
        ensures
            m.rule_list() == Seq::<SilenceRuleView>::empty(),
            m.silence_list() == Seq::<ActiveSilenceView>::empty(),
            m.max_history() == max_history_size,
    {
        let m = SilenceManager { rules: Vec::new(), active_silences: Vec::new(), max_history_size };
        assert(m.rule_list() =~= Seq::<SilenceRuleView>::empty());
        assert(m.silence_list() =~= Seq::<ActiveSilenceView>::empty());
        m
    }

    /// No rules, no silences, keeping up to a thousand silences.
    pub fn with_default() -> (m: SilenceManager)
        ensures
            m.rule_list() == Seq::<SilenceRuleView>::empty(),
            m.silence_list() == Seq::<ActiveSilenceView>::empty(),
            m.max_history() == 1000,
    {
        SilenceManager::new(1000)
    }

    /// How many silences are kept.
    pub fn max_history_size(&self) -> (n: usize)
        ensures
            n == self.max_history(),
    {
        self.max_history_size
    }

    /// Appends a rule.
    pub fn add_rule(&mut self, rule: SilenceRule)
        ensures
            final(self).rule_list() == old(self).rule_list().push(rule@),
            final(self).silence_list() == old(self).silence_list(),
            final(self).max_history() == old(self).max_history(),
    {
        let ghost before = self.rule_list();
        let ghost rv = rule@;
        self.rules.push(rule);
        assert(self.rule_list() =~= before.push(rv));
    }

    /// Drops the rules with id `rule_id`, then takes the last remaining rule off
    /// the list and returns it.
    pub fn remove_rule(&mut self, rule_id: &str) -> (r: Option<SilenceRule>)
        ensures
            ({
                let kept = rules_without(old(self).rule_list(), rule_id@);
                if kept.len() == 0 {
                    r is None && final(self).rule_list() == kept
                } else {
                    r matches Some(x) && x@ == kept.last() && final(self).rule_list() == kept.drop_last()
                }
            }),
            final(self).silence_list() == old(self).silence_list(),
            final(self).max_history() == old(self).max_history(),
    {
        let ghost s = self.rule_list();
        let mut kept: Vec<SilenceRule> = Vec::new();
        let n = self.rules.len();
        let mut i: usize = 0;
        while i < n
            invariant
                n == self.rules@.len(),
                s == self.rule_list(),
                i <= n,
                kept@.map_values(|r: SilenceRule| r@) == rules_without(s.subrange(0, i as int), rule_id@),
            decreases n - i,
        {
            proof { assert(s.subrange(0, i + 1).drop_last() =~= s.subrange(0, i as int)); }
            if !str_eq(self.rules[i].id.as_str(), rule_id) {
                let ghost before = kept@.map_values(|r: SilenceRule| r@);
                kept.push(self.rules[i].duplicate());
                assert(kept@.map_values(|r: SilenceRule| r@) =~= before.push(s[i as int]));
            }
            i = i + 1;
        }
        proof { assert(s.subrange(0, n as int) =~= s); }
        let ghost kv = kept@.map_values(|r: SilenceRule| r@);
        let last = kept.pop();
        self.rules = kept;
        proof {
            assert(self.rule_list() =~= if kv.len() == 0 { kv } else { kv.drop_last() });
        }
        last
    }

    /// A copy of the first rule with id `rule_id`, if any.
    pub fn get_rule(&self, rule_id: &str) -> (r: Option<SilenceRule>)
        ensures
            match r {
                Some(x) => exists|i: int| 0 <= i < self.rule_list().len() && #[trigger] self.rule_list()[i].id == rule_id@
                    && x@ == self.rule_list()[i] && forall|j: int| 0 <= j < i ==> #[trigger] self.rule_list()[j].id != rule_id@,
                None => forall|i: int| 0 <= i < self.rule_list().len() ==> #[trigger] self.rule_list()[i].id != rule_id@,
            },
    {
        let n = self.rules.len();
        let mut i: usize = 0;
        while i < n
            invariant
                n == self.rules@.len(),
                i <= n,
                forall|j: int| 0 <= j < i ==> #[trigger] self.rule_list()[j].id != rule_id@,
            decreases n - i,
        {
            if str_eq(self.rules[i].id.as_str(), rule_id) {
                assert(self.rule_list()[i as int].id == rule_id@);
                return Some(self.rules[i].duplicate());
            }
            assert(self.rule_list()[i as int].id != rule_id@);
            i = i + 1;
        }
        None
    }

    /// Copies of all rules, in order.
    pub fn get_all_rules(&self) -> (v: Vec<SilenceRule>)
        ensures
            v@.map_values(|r: SilenceRule| r@) == self.rule_list(),
    {
        let n = self.rules.len();
        let mut v: Vec<SilenceRule> = Vec::new();
        let mut i: usize = 0;
        while i < n
            invariant
                n == self.rules@.len(),
                i <= n,
                v@.map_values(|r: SilenceRule| r@) == self.rule_list().subrange(0, i as int),
            decreases n - i,
        {
            let ghost before = v@.map_values(|r: SilenceRule| r@);
            v.push(self.rules[i].duplicate());
            assert(v@.map_values(|r: SilenceRule| r@) =~= before.push(self.rule_list()[i as int]));
            i = i + 1;
            assert(v@.map_values(|r: SilenceRule| r@) =~= self.rule_list().subrange(0, i as int));
        }
        assert(self.rule_list().subrange(0, n as int) =~= self.rule_list());
        v
    }

    fn set_enabled(&mut self, rule_id: &str, enabled: bool) -> (r: Result<(), String>)
        ensures
            final(self).silence_list() == old(self).silence_list(),
            final(self).max_history() == old(self).max_history(),
            match r {
                Ok(()) => exists|i: int| 0 <= i < old(self).rule_list().len() && #[trigger] old(self).rule_list()[i].id == rule_id@
                    && (forall|j: int| 0 <= j < i ==> #[trigger] old(self).rule_list()[j].id != rule_id@)
                    && final(self).rule_list() == old(self).rule_list().update(i, SilenceRuleView { enabled, ..old(self).rule_list()[i] }),
                Err(e) => e@ == "Rule not found"@ && final(self).rule_list() == old(self).rule_list()
                    && forall|i: int| 0 <= i < old(self).rule_list().len() ==> #[trigger] old(self).rule_list()[i].id != rule_id@,
            },
    {
        let n = self.rules.len();
        let mut i: usize = 0;
        while i < n
            invariant
                n == self.rules@.len(),
                *self == *old(self),
                i <= n,
                forall|j: int| 0 <= j < i ==> #[trigger] self.rule_list()[j].id != rule_id@,
            decreases n - i,
        {
            if str_eq(self.rules[i].id.as_str(), rule_id) {
                let mut r = self.rules[i].duplicate();
                r.enabled = enabled;
                let ghost rl = self.rule_list();
                self.rules.set(i, r);
                assert(self.rule_list() =~= rl.update(i as int, SilenceRuleView { enabled, ..rl[i as int] }));
                assert(old(self).rule_list()[i as int].id == rule_id@);
                return Ok(());
            }
            assert(self.rule_list()[i as int].id != rule_id@);
            i = i + 1;
        }
        Err(owned("Rule not found"))
    }

    /// Turns the first rule with id `rule_id` on.
    pub fn enable_rule(&mut self, rule_id: &str) -> (r: Result<(), String>)
        ensures
            final(self).silence_list() == old(self).silence_list(),
            match r {
                Ok(()) => exists|i: int| 0 <= i < old(self).rule_list().len() && #[trigger] old(self).rule_list()[i].id == rule_id@
                    && (forall|j: int| 0 <= j < i ==> #[trigger] old(self).rule_list()[j].id != rule_id@)
                    && final(self).rule_list() == old(self).rule_list().update(i, SilenceRuleView { enabled: true, ..old(self).rule_list()[i] }),
                Err(e) => e@ == "Rule not found"@ && final(self).rule_list() == old(self).rule_list()
                    && forall|i: int| 0 <= i < old(self).rule_list().len() ==> #[trigger] old(self).rule_list()[i].id != rule_id@,
            },
    {
        self.set_enabled(rule_id, true)
    }

    /// Turns the first rule with id `rule_id` off.
    pub fn disable_rule(&mut self, rule_id: &str) -> (r: Result<(), String>)
        ensures
            final(self).silence_list() == old(self).silence_list(),
            match r {
                Ok(()) => exists|i: int| 0 <= i < old(self).rule_list().len() && #[trigger] old(self).rule_list()[i].id == rule_id@
                    && (forall|j: int| 0 <= j < i ==> #[trigger] old(self).rule_list()[j].id != rule_id@)
                    && final(self).rule_list() == old(self).rule_list().update(i, SilenceRuleView { enabled: false, ..old(self).rule_list()[i] }),
                Err(e) => e@ == "Rule not found"@ && final(self).rule_list() == old(self).rule_list()
                    && forall|i: int| 0 <= i < old(self).rule_list().len() ==> #[trigger] old(self).rule_list()[i].id != rule_id@,
            },
    {
        self.set_enabled(rule_id, false)
    }

    /// Whether some rule silences `alert` at `now`.
    pub fn is_silenced_at(&self, alert: &Alert, now: u64) -> (b: bool)
        ensures
            b == silenced(self.rule_list(), alert.level, alert.metric_type@, alert.id@, now),
    {
        let n = self.rules.len();
        let mut i: usize = 0;
        while i < n
            invariant
                n == self.rules@.len(),
                i <= n,
                forall|j: int| 0 <= j < i ==> !#[trigger] rule_silences(self.rule_list()[j], alert.level, alert.metric_type@, alert.id@, now),
            decreases n - i,
        {
            let r = &self.rules[i];
            assert(self.rule_list()[i as int] == r@);
            if r.enabled && !(now < r.start_time || now > r.end_time) && matches_conditions(alert, &r.match_conditions) {
                assert(rule_silences(self.rule_list()[i as int], alert.level, alert.metric_type@, alert.id@, now));
                return true;
            }
            i = i + 1;
        }
        false
    }

    /// Whether some rule silences `alert` now.
    pub fn is_silenced(&self, alert: &Alert) -> (b: bool)
        ensures
            exists|now: u64| b == #[trigger] silenced(self.rule_list(), alert.level, alert.metric_type@, alert.id@, now),
    {
        self.is_silenced_at(alert, now_millis_unsigned())
    }

    /// Records a silence of `alert` under `rule` from `now` for `duration_secs`
    /// seconds (saturating at the end of the clock) and returns it.
    pub fn silence_alert_at(&mut self, alert: &Alert, rule: &SilenceRule, duration_secs: u64, now: u64) -> (s: ActiveSilence)
        ensures
            s@ == (ActiveSilenceView { rule_id: rule.id@, alert_id: alert.id@, silenced_at: now, expires_at: deadline(now, duration_secs) }),
            final(self).silence_list() == bounded_push(old(self).silence_list(), old(self).max_history(), s@),
            final(self).rule_list() == old(self).rule_list(),
            final(self).max_history() == old(self).max_history(),
    {
        let ms = crate::security::ddos_protection::secs_to_millis(duration_secs);
        let silence = ActiveSilence { rule_id: rule.id.clone(), alert_id: alert.id.clone(), silenced_at: now, expires_at: now.saturating_add(ms) };
        let ghost before = self.silence_list();
        if self.active_silences.len() >= self.max_history_size && self.active_silences.len() > 0 {
            let _ = self.active_silences.remove(0);
            assert(self.silence_list() =~= before.drop_first());
        }
        let ghost mid = self.silence_list();
        self.active_silences.push(silence.duplicate());
        assert(self.silence_list() =~= mid.push(silence@));
        silence
    }

    /// Records a silence of `alert` under `rule` from now for `duration_secs`.
    pub fn silence_alert(&mut self, alert: &Alert, rule: &SilenceRule, duration_secs: u64) -> (s: ActiveSilence)
        ensures
            s@.rule_id == rule.id@ && s@.alert_id == alert.id@ && s@.expires_at == deadline(s@.silenced_at, duration_secs),
            final(self).silence_list() == bounded_push(old(self).silence_list(), old(self).max_history(), s@),
            final(self).rule_list() == old(self).rule_list(),
    {
        self.silence_alert_at(alert, rule, duration_secs, now_millis_unsigned())
    }

    /// Copies of the silences still in force at `now`, oldest first.
    pub fn get_active_silences_at(&self, now: u64) -> (v: Vec<ActiveSilence>)
        ensures
            v@.map_values(|s: ActiveSilence| s@) == in_force(self.silence_list(), now),
    {
        let ghost s = self.silence_list();
        let n = self.active_silences.len();
        let mut v: Vec<ActiveSilence> = Vec::new();
        let mut i: usize = 0;
        while i < n
            invariant
                n == self.active_silences@.len(),
                s == self.silence_list(),
                i <= n,
                v@.map_values(|x: ActiveSilence| x@) == in_force(s.subrange(0, i as int), now),
            decreases n - i,
        {
            proof { assert(s.subrange(0, i + 1).drop_last() =~= s.subrange(0, i as int)); }
            if self.active_silences[i].expires_at > now {
                let ghost before = v@.map_values(|x: ActiveSilence| x@);
                v.push(self.active_silences[i].duplicate());
                assert(v@.map_values(|x: ActiveSilence| x@) =~= before.push(s[i as int]));
            }
            i = i + 1;
        }
        proof { assert(s.subrange(0, n as int) =~= s); }
        v
    }

    /// Copies of the silences still in force now.
    pub fn get_active_silences(&self) -> (v: Vec<ActiveSilence>)
        ensures
            exists|now: u64| v@.map_values(|s: ActiveSilence| s@) == in_force(self.silence_list(), now),
    {
        self.get_active_silences_at(now_millis_unsigned())
    }

    /// Adds and returns an enabled rule silencing every alert from `now` for
    /// `duration_hours` hours (saturating at the end of the clock).
    pub fn create_maintenance_window_at(&mut self, name: &str, description: &str, duration_hours: u32, created_by: &str, now: u64) -> (r: SilenceRule)
        ensures
            maintenance_post(*old(self), *final(self), name@, description@, duration_hours, created_by@, now, r),
    {
        let span: u64 = (duration_hours as u64) * HOUR_MS;
        let rule = SilenceRule {
            id: new_uuid_string(),
            name: owned(name),
            description: owned(description),
            match_conditions: SilenceMatchConditions { alert_levels: None, metric_types: None, alert_ids: None, patterns: None },
            start_time: now,
            end_time: now.saturating_add(span),
            is_recurring: false,
            recurrence_pattern: None,
            created_at: now,
            created_by: owned(created_by),
            enabled: true,
        };
        self.add_rule(rule.duplicate());
        rule
    }

    /// Adds and returns an enabled rule silencing every alert from now for
    /// `duration_hours` hours.
    pub fn create_maintenance_window(&mut self, name: &str, description: &str, duration_hours: u32, created_by: &str) -> (r: SilenceRule)
        ensures
            exists|now: u64| maintenance_post(*old(self), *final(self), name@, description@, duration_hours, created_by@, now, r),
            r@.name == name@ && r@.enabled,
            final(self).rule_list() == old(self).rule_list().push(r@),
    {
        self.create_maintenance_window_at(name, description, duration_hours, created_by, now_millis_unsigned())
    }

    /// Drops the silences no longer in force at `now`; returns how many went.
    pub fn cleanup_expired_at(&mut self, now: u64) -> (removed: usize)
        ensures
            final(self).silence_list() == in_force(old(self).silence_list(), now),
            removed == old(self).silence_list().len() - in_force(old(self).silence_list(), now).len(),
            final(self).rule_list() == old(self).rule_list(),
    {
        let kept = self.get_active_silences_at(now);
        proof { lemma_in_force_len(self.silence_list(), now); }
        let removed = self.active_silences.len() - kept.len();
        self.active_silences = kept;
        removed
    }

    /// Drops the silences no longer in force now.
    pub fn cleanup_expired(&mut self) -> (removed: usize)
        ensures
            exists|now: u64| final(self).silence_list() == in_force(old(self).silence_list(), now),
            final(self).rule_list() == old(self).rule_list(),
    {
        self.cleanup_expired_at(now_millis_unsigned())
    }
}

proof fn lemma_in_force_len(s: Seq<ActiveSilenceView>, now: u64)
    ensures
        in_force(s, now).len() <= s.len(),
    decreases s.len(),
{
    if s.len() > 0 {
        lemma_in_force_len(s.drop_last(), now);
    }
}

// ---------------------------------------------------------------------------
// Escalation
// ---------------------------------------------------------------------------

/// Who is notified.
#[derive(Clone, Copy, PartialEq, Eq, Structural, Debug)]
pub enum RecipientType {
    User,
    Group,
    Webhook,
    Email,
    Sms,
}

/// What an escalation level does besides notifying.
#[derive(Clone, Copy, PartialEq, Eq, Structural, Debug)]
pub enum EscalationActionType {
    Notify,
    CreateTicket,
    RunCommand,
    SendEmail,
    SendSms,
    ExecuteWebhook,
}

/// Where an escalation stands.
#[derive(Clone, Copy, PartialEq, Eq, Structural, Debug)]
pub enum EscalationStatus {
    Pending,
    Notified,
    Resolved,
    Cancelled,
}

/// One recipient of an escalation level.
pub struct EscalationRecipient {
    pub recipient_type: RecipientType,
    pub identifier: String,
    pub name: String,
}

/// One action of an escalation level, with its settings as key-value pairs.
pub struct EscalationAction {
    pub action_type: EscalationActionType,
    pub config: Vec<(String, String)>,
}

/// One level of an escalation policy.
pub struct EscalationLevel {
    pub level: u32,
    pub notify_after_minutes: u32,
    pub recipients: Vec<EscalationRecipient>,
    pub escalation_actions: Vec<EscalationAction>,
}

/// A policy: levels of recipients notified in turn.
pub struct EscalationPolicy {
    pub id: String,
    pub name: String,
    pub description: String,
    pub levels: Vec<EscalationLevel>,
    pub repeat_count: u32,
    pub created_at: u64,
    pub enabled: bool,
}

/// The escalation of one alert.
pub struct EscalationEvent {
    pub id: String,
    pub alert_id: String,
    pub policy_id: String,
    pub current_level: u32,
    pub notified_recipients: Vec<EscalationRecipient>,
    pub timestamp: u64,
    pub status: EscalationStatus,
}

/// An alert with its silencing and escalation state.
pub struct AlertState {
    pub alert: Alert,
    pub silence_rule_id: Option<String>,
    pub escalation_policy_id: Option<String>,
    pub escalation_level: u32,
    pub last_escalation: Option<u64>,
    pub silenced_until: Option<u64>,
    pub resolved_at: Option<u64>,
}

/// The plain content of a recipient.
pub struct RecipientView {
    pub recipient_type: RecipientType,
    pub identifier: Seq<char>,
    pub name: Seq<char>,
}

/// The plain content of an action.
pub struct ActionView {
    pub action_type: EscalationActionType,
    pub config: Seq<(Seq<char>, Seq<char>)>,
}

/// The plain content of a level.
pub struct LevelView {
    pub level: u32,
    pub notify_after_minutes: u32,
    pub recipients: Seq<RecipientView>,
    pub escalation_actions: Seq<ActionView>,
}

/// The plain content of a policy.
pub struct PolicyView {
    pub id: Seq<char>,
    pub name: Seq<char>,
    pub description: Seq<char>,
    pub levels: Seq<LevelView>,
    pub repeat_count: u32,
    pub created_at: u64,
    pub enabled: bool,
}

/// The plain content of an escalation event.
pub struct EventView {
    pub id: Seq<char>,
    pub alert_id: Seq<char>,
    pub policy_id: Seq<char>,
    pub current_level: u32,
    pub notified_recipients: Seq<RecipientView>,
    pub timestamp: u64,
    pub status: EscalationStatus,
}

impl View for EscalationRecipient {
    type V = RecipientView;

    open spec fn view(&self) -> RecipientView {
        RecipientView { recipient_type: self.recipient_type, identifier: self.identifier@, name: self.name@ }
    }
}

/// The plain content of each recipient.
pub open spec fn recipients_view(v: Seq<EscalationRecipient>) -> Seq<RecipientView> {
    v.map_values(|r: EscalationRecipient| r@)
}

impl View for EscalationAction {
    type V = ActionView;

    open spec fn view(&self) -> ActionView {
        ActionView { action_type: self.action_type, config: self.config@.map_values(|p: (String, String)| (p.0@, p.1@)) }
    }
}

impl View for EscalationLevel {
    type V = LevelView;

    open spec fn view(&self) -> LevelView {
        LevelView {
            level: self.level,
            notify_after_minutes: self.notify_after_minutes,
            recipients: recipients_view(self.recipients@),
            escalation_actions: self.escalation_actions@.map_values(|a: EscalationAction| a@),
        }
    }
}

impl View for EscalationPolicy {
    type V = PolicyView;

    open spec fn view(&self) -> PolicyView {
        PolicyView {
            id: self.id@,
            name: self.name@,
            description: self.description@,
            levels: self.levels@.map_values(|l: EscalationLevel| l@),
            repeat_count: self.repeat_count,
            created_at: self.created_at,
            enabled: self.enabled,
        }
    }
}

impl View for EscalationEvent {
    type V = EventView;

    open spec fn view(&self) -> EventView {
        EventView {
            id: self.id@,
            alert_id: self.alert_id@,
            policy_id: self.policy_id@,
            current_level: self.current_level,
            notified_recipients: recipients_view(self.notified_recipients@),
            timestamp: self.timestamp,
            status: self.status,
        }
    }
}

impl Keyed for EscalationPolicy {
    open spec fn key_view(&self) -> Seq<char> {
        self.id@
    }

    fn key_str(&self) -> (r: &str) {
        self.id.as_str()
    }
}

impl Keyed for EscalationEvent {
    open spec fn key_view(&self) -> Seq<char> {
        self.alert_id@
    }

    fn key_str(&self) -> (r: &str) {
        self.alert_id.as_str()
    }
}

fn copy_recipients(v: &Vec<EscalationRecipient>) -> (r: Vec<EscalationRecipient>)
    ensures
        recipients_view(r@) == recipients_view(v@),
{
    let n = v.len();
    let mut r: Vec<EscalationRecipient> = Vec::new();
    let mut i: usize = 0;
    while i < n
        invariant
            n == v@.len(),
            i <= n,
            recipients_view(r@) == recipients_view(v@).subrange(0, i as int),
        decreases n - i,
    {
        let ghost before = recipients_view(r@);
        r.push(EscalationRecipient { recipient_type: v[i].recipient_type, identifier: v[i].identifier.clone(), name: v[i].name.clone() });
        assert(recipients_view(r@) =~= before.push(v@[i as int]@));
        i = i + 1;
        assert(recipients_view(r@) =~= recipients_view(v@).subrange(0, i as int));
    }
    assert(recipients_view(v@).subrange(0, n as int) =~= recipients_view(v@));
    r
}

pub(crate) fn copy_config(v: &Vec<(String, String)>) -> (r: Vec<(String, String)>)
    ensures
        r@.map_values(|p: (String, String)| (p.0@, p.1@)) == v@.map_values(|p: (String, String)| (p.0@, p.1@)),
{
    let n = v.len();
    let mut r: Vec<(String, String)> = Vec::new();
    let mut i: usize = 0;
    while i < n
        invariant
            n == v@.len(),
            i <= n,
            r@.map_values(|p: (String, String)| (p.0@, p.1@)) == v@.map_values(|p: (String, String)| (p.0@, p.1@)).subrange(0, i as int),
        decreases n - i,
    {
        let ghost before = r@.map_values(|p: (String, String)| (p.0@, p.1@));
        r.push((v[i].0.clone(), v[i].1.clone()));
        assert(r@.map_values(|p: (String, String)| (p.0@, p.1@)) =~= before.push((v@[i as int].0@, v@[i as int].1@)));
        i = i + 1;
        assert(r@.map_values(|p: (String, String)| (p.0@, p.1@)) =~= v@.map_values(|p: (String, String)| (p.0@, p.1@)).subrange(0, i as int));
    }
    assert(v@.map_values(|p: (String, String)| (p.0@, p.1@)).subrange(0, n as int) =~= v@.map_values(|p: (String, String)| (p.0@, p.1@)));
    r
}

impl EscalationLevel {
    /// A field-by-field copy.
    pub fn duplicate(&self) -> (r: EscalationLevel)
        ensures
            r@ == self@,
    {
        let n = self.escalation_actions.len();
        let mut acts: Vec<EscalationAction> = Vec::new();
        let mut i: usize = 0;
        while i < n
            invariant
                n == self.escalation_actions@.len(),
                i <= n,
                acts@.map_values(|a: EscalationAction| a@) == self.escalation_actions@.map_values(|a: EscalationAction| a@).subrange(0, i as int),
            decreases n - i,
        {
            let ghost before = acts@.map_values(|a: EscalationAction| a@);
            let a = EscalationAction { action_type: self.escalation_actions[i].action_type, config: copy_config(&self.escalation_actions[i].config) };
            acts.push(a);
            assert(acts@.map_values(|a: EscalationAction| a@) =~= before.push(self.escalation_actions@[i as int]@));
            i = i + 1;
            assert(acts@.map_values(|a: EscalationAction| a@) =~= self.escalation_actions@.map_values(|a: EscalationAction| a@).subrange(0, i as int));
        }
        assert(self.escalation_actions@.map_values(|a: EscalationAction| a@).subrange(0, n as int) =~= self.escalation_actions@.map_values(|a: EscalationAction| a@));
        EscalationLevel {
            level: self.level,
            notify_after_minutes: self.notify_after_minutes,
            recipients: copy_recipients(&self.recipients),
            escalation_actions: acts,
        }
    }
}

impl EscalationPolicy {
    /// A field-by-field copy.
    pub fn duplicate(&self) -> (r: EscalationPolicy)
        ensures
            r@ == self@,
    {
        let n = self.levels.len();
        let mut levels: Vec<EscalationLevel> = Vec::new();
        let mut i: usize = 0;
        while i < n
            invariant
                n == self.levels@.len(),
                i <= n,
                levels@.map_values(|l: EscalationLevel| l@) == self.levels@.map_values(|l: EscalationLevel| l@).subrange(0, i as int),
            decreases n - i,
        {
            let ghost before = levels@.map_values(|l: EscalationLevel| l@);
            levels.push(self.levels[i].duplicate());
            assert(levels@.map_values(|l: EscalationLevel| l@) =~= before.push(self.levels@[i as int]@));
            i = i + 1;
            assert(levels@.map_values(|l: EscalationLevel| l@) =~= self.levels@.map_values(|l: EscalationLevel| l@).subrange(0, i as int));
        }
        assert(self.levels@.map_values(|l: EscalationLevel| l@).subrange(0, n as int) =~= self.levels@.map_values(|l: EscalationLevel| l@));
        EscalationPolicy {
            id: self.id.clone(),
            name: self.name.clone(),
            description: self.description.clone(),
            levels,
            repeat_count: self.repeat_count,
            created_at: self.created_at,
            enabled: self.enabled,
        }
    }
}

impl EscalationEvent {
    /// A field-by-field copy.
    pub fn duplicate(&self) -> (r: EscalationEvent)
        ensures
            r@ == self@,
    {
        EscalationEvent {
            id: self.id.clone(),
            alert_id: self.alert_id.clone(),
            policy_id: self.policy_id.clone(),
            current_level: self.current_level,
            notified_recipients: copy_recipients(&self.notified_recipients),
            timestamp: self.timestamp,
            status: self.status,
        }
    }
}

/// Policies by id, the escalation of each alert by alert id, and a history of
/// escalation steps.
pub struct EscalationManager {
    policies: Store<EscalationPolicy>,
    active_escalations: Store<EscalationEvent>,
    escalation_history: Vec<EscalationEvent>,
    max_history_size: usize,
}

/// What adding a maintenance window named `name` for `duration_hours` hours
/// at `now` does: an enabled rule matching every alert, from `now` until
/// `duration_hours` hours later (saturating at the end of the clock), is
/// added at the end of the rules and returned.
pub open spec fn maintenance_post(old: SilenceManager, new: SilenceManager, name: Seq<char>, description: Seq<char>,
    duration_hours: u32, created_by: Seq<char>, now: u64, r: SilenceRule) -> bool {
    &&& is_hyphenated_uuid(r@.id)
    &&& r@.name == name && r@.description == description && r@.created_by == created_by
    &&& r@.match_conditions == (ConditionsView { alert_levels: None, metric_types: None, alert_ids: None, patterns: None })
    &&& r@.start_time == now && r@.end_time == now.saturating_add(((duration_hours as u64) * HOUR_MS) as u64)
    &&& !r@.is_recurring && r@.recurrence_pattern is None && r@.created_at == now && r@.enabled
    &&& new.rule_list() == old.rule_list().push(r@)
    &&& new.silence_list() == old.silence_list()
}

/// What marking the escalation of `alert_id` with `status` at `now` does.
pub open spec fn status_post(old: EscalationManager, new: EscalationManager, alert_id: Seq<char>, status: EscalationStatus, now: u64, r: Result<(), String>) -> bool {
    &&& new.policy_map() == old.policy_map()
    &&& new.history() == old.history()
    &&& if old.active_map().dom().contains(alert_id) {
        r is Ok && new.active_map() == old.active_map().insert(alert_id,
            EventView { status, timestamp: now, ..old.active_map()[alert_id] })
    } else {
        r matches Err(e) && e@ == "Escalation not found"@ && new.active_map() == old.active_map()
    }
}

/// What starting to escalate alert `alert_id` under policy `policy_id` at
/// `now` does: a pending event at level 0 replaces any earlier escalation of
/// the alert and is added to the (bounded) history.
pub open spec fn start_post(old: EscalationManager, new: EscalationManager, alert_id: Seq<char>, policy_id: Seq<char>, now: u64, r: Result<EscalationEvent, String>) -> bool {
    &&& new.policy_map() == old.policy_map()
    &&& new.max_history() == old.max_history()
    &&& if !old.policy_map().dom().contains(policy_id) {
        r matches Err(e) && e@ == "Policy not found"@ && new.active_map() == old.active_map()
            && new.history() == old.history()
    } else if !old.policy_map()[policy_id].enabled {
        r matches Err(e) && e@ == "Policy is disabled"@ && new.active_map() == old.active_map()
            && new.history() == old.history()
    } else {
        r matches Ok(ev) && {
            &&& is_hyphenated_uuid(ev@.id)
            &&& ev@.alert_id == alert_id && ev@.policy_id == policy_id && ev@.current_level == 0
            &&& ev@.notified_recipients == Seq::<RecipientView>::empty()
            &&& ev@.timestamp == now && ev@.status == EscalationStatus::Pending
            &&& new.active_map() == old.active_map().insert(alert_id, ev@)
            &&& new.history() == bounded_push(old.history(), old.max_history(), ev@)
        }
    }
}

/// Whether the escalation of `alert_id` in `m` is still pending fifteen
/// minutes after it was last touched, at `now`.
pub open spec fn overdue(m: EscalationManager, alert_id: Seq<char>, now: u64) -> bool {
    m.active_map().dom().contains(alert_id)
        && m.active_map()[alert_id].status == EscalationStatus::Pending
        && m.active_map()[alert_id].timestamp < now.saturating_sub(QUARTER_HOUR_MS)
}

/// What escalating the alert `alert_id` at `now` does.
pub open spec fn escalate_post(old: EscalationManager, new: EscalationManager, alert_id: Seq<char>, now: u64, r: Result<EscalationEvent, String>) -> bool {
    &&& new.policy_map() == old.policy_map()
    &&& new.max_history() == old.max_history()
    &&& if !old.active_map().dom().contains(alert_id) {
        r matches Err(e) && e@ == "Escalation not found"@ && new.active_map() == old.active_map() && new.history() == old.history()
    } else if !old.policy_map().dom().contains(old.active_map()[alert_id].policy_id) {
        r matches Err(e) && e@ == "Policy not found"@ && new.active_map() == old.active_map() && new.history() == old.history()
    } else {
        let e = old.active_map()[alert_id];
        let levels = old.policy_map()[e.policy_id].levels;
        let next = e.current_level.saturating_add(1);
        let stepped = if next >= (levels.len() as u32) {
            EventView { current_level: next, status: EscalationStatus::Resolved, ..e }
        } else {
            EventView {
                current_level: next,
                notified_recipients: levels[next as int].recipients,
                status: EscalationStatus::Notified,
                timestamp: now,
                ..e
            }
        };
        &&& r matches Ok(x) && x@ == stepped
        &&& new.active_map() == old.active_map().insert(alert_id, stepped)
        &&& new.history() == old.history().push(stepped)
    }
}

impl EscalationManager {
    /// The policies, by id.
    pub closed spec fn policy_map(&self) -> Map<Seq<char>, PolicyView> {
        Map::new(|k: Seq<char>| self.policies.map().dom().contains(k), |k: Seq<char>| self.policies.map()[k]@)
    }

    /// The policies in their order.
    pub closed spec fn policy_list(&self) -> Seq<PolicyView> {
        self.policies.items().map_values(|p: EscalationPolicy| p@)
    }

    /// The escalation of each alert, by alert id.
    pub closed spec fn active_map(&self) -> Map<Seq<char>, EventView> {
        Map::new(|k: Seq<char>| self.active_escalations.map().dom().contains(k), |k: Seq<char>| self.active_escalations.map()[k]@)
    }

    /// The escalation steps, oldest first.
    pub closed spec fn history(&self) -> Seq<EventView> {
        self.escalation_history@.map_values(|e: EscalationEvent| e@)
    }

    /// How many steps `start_escalation` keeps in the history.
    pub closed spec fn max_history(&self) -> usize {
        self.max_history_size
    }

    /// No policies, no escalations.
    pub fn new(max_history_size: usize) -> (m: EscalationManager)
        ensures
            m.policy_map() == Map::<Seq<char>, PolicyView>::empty(),
            m.active_map() == Map::<Seq<char>, EventView>::empty(),
            m.history() == Seq::<EventView>::empty(),
            m.max_history() == max_history_size,
    {
        let m = EscalationManager { policies: Store::new(), active_escalations: Store::new(), escalation_history: Vec::new(), max_history_size };
        assert(m.policy_map() =~= Map::<Seq<char>, PolicyView>::empty());
        assert(m.active_map() =~= Map::<Seq<char>, EventView>::empty());
        assert(m.history() =~= Seq::<EventView>::empty());
        m
    }

    /// No policies, no escalations, a history of a thousand steps.
    pub fn with_default() -> (m: EscalationManager)
        ensures
            m.policy_map() == Map::<Seq<char>, PolicyView>::empty(),
            m.active_map() == Map::<Seq<char>, EventView>::empty(),
            m.history() == Seq::<EventView>::empty(),
            m.max_history() == 1000,
    {
        EscalationManager::new(1000)
    }

    /// How many steps `start_escalation` keeps in the history.
    pub fn max_history_size(&self) -> (n: usize)
        ensures
            n == self.max_history(),
    {
        self.max_history_size
    }

    /// Adds `policy`, replacing a policy with the same id.
    pub fn add_policy(&mut self, policy: EscalationPolicy)
        ensures
            final(self).policy_map() == old(self).policy_map().insert(policy@.id, policy@),
            final(self).active_map() == old(self).active_map(),
            final(self).history() == old(self).history(),
            final(self).max_history() == old(self).max_history(),
    {
        let ghost pv = policy@;
        self.policies.upsert(policy);
        assert(self.policy_map() =~= old(self).policy_map().insert(pv.id, pv));
    }

    /// Takes out the policy `policy_id`, if any.
    pub fn remove_policy(&mut self, policy_id: &str) -> (r: Option<EscalationPolicy>)
        ensures
            final(self).policy_map() == old(self).policy_map().remove(policy_id@),
            match r {
                Some(p) => old(self).policy_map().dom().contains(policy_id@) && p@ == old(self).policy_map()[policy_id@],
                None => !old(self).policy_map().dom().contains(policy_id@),
            },
            final(self).active_map() == old(self).active_map(),
            final(self).history() == old(self).history(),
    {
        let r = self.policies.remove(policy_id);
        assert(self.policy_map() =~= old(self).policy_map().remove(policy_id@));
        r
    }

    /// A copy of the policy `policy_id`, if any.
    pub fn get_policy(&self, policy_id: &str) -> (r: Option<EscalationPolicy>)
        ensures
            match r {
                Some(p) => self.policy_map().dom().contains(policy_id@) && p@ == self.policy_map()[policy_id@],
                None => !self.policy_map().dom().contains(policy_id@),
            },
    {
        match self.policies.get(policy_id) {
            Some(p) => Some(p.duplicate()),
            None => None,
        }
    }

    /// Copies of all policies, in store order.
    pub fn get_all_policies(&self) -> (v: Vec<EscalationPolicy>)
        ensures
            v@.map_values(|p: EscalationPolicy| p@) == self.policy_list(),
    {
        let items = self.policies.as_vec();
        let n = items.len();
        let mut v: Vec<EscalationPolicy> = Vec::new();
        let mut i: usize = 0;
        while i < n
            invariant
                n == items@.len(),
                items@ == self.policies.items(),
                i <= n,
                v@.map_values(|p: EscalationPolicy| p@) == self.policy_list().subrange(0, i as int),
            decreases n - i,
        {
            let ghost before = v@.map_values(|p: EscalationPolicy| p@);
            v.push(items[i].duplicate());
            assert(v@.map_values(|p: EscalationPolicy| p@) =~= before.push(self.policy_list()[i as int]));
            i = i + 1;
            assert(v@.map_values(|p: EscalationPolicy| p@) =~= self.policy_list().subrange(0, i as int));
        }
        assert(self.policy_list().subrange(0, n as int) =~= self.policy_list());
        v
    }

    fn set_policy_enabled(&mut self, policy_id: &str, enabled: bool) -> (r: Result<(), String>)
        ensures
            final(self).active_map() == old(self).active_map(),
            final(self).history() == old(self).history(),
            if old(self).policy_map().dom().contains(policy_id@) {
                r is Ok && final(self).policy_map() == old(self).policy_map().insert(policy_id@, PolicyView { enabled, ..old(self).policy_map()[policy_id@] })
            } else {
                r matches Err(e) && e@ == "Policy not found"@ && final(self).policy_map() == old(self).policy_map()
            },
    {
        match self.policies.remove(policy_id) {
            Some(p) => {
                let mut p = p;
                p.enabled = enabled;
                let ghost pv = p@;
                self.policies.upsert(p);
                assert(self.policy_map() =~= old(self).policy_map().insert(policy_id@, pv));
                Ok(())
            }
            None => Err(owned("Policy not found")),
        }
    }

    /// Turns policy `policy_id` on.
    pub fn enable_policy(&mut self, policy_id: &str) -> (r: Result<(), String>)
        ensures
            final(self).active_map() == old(self).active_map(),
            final(self).history() == old(self).history(),
            if old(self).policy_map().dom().contains(policy_id@) {
                r is Ok && final(self).policy_map() == old(self).policy_map().insert(policy_id@, PolicyView { enabled: true, ..old(self).policy_map()[policy_id@] })
            } else {
                r matches Err(e) && e@ == "Policy not found"@ && final(self).policy_map() == old(self).policy_map()
            },
    {
        self.set_policy_enabled(policy_id, true)
    }

    /// Turns policy `policy_id` off.
    pub fn disable_policy(&mut self, policy_id: &str) -> (r: Result<(), String>)
        ensures
            final(self).active_map() == old(self).active_map(),
            final(self).history() == old(self).history(),
            if old(self).policy_map().dom().contains(policy_id@) {
                r is Ok && final(self).policy_map() == old(self).policy_map().insert(policy_id@, PolicyView { enabled: false, ..old(self).policy_map()[policy_id@] })
            } else {
                r matches Err(e) && e@ == "Policy not found"@ && final(self).policy_map() == old(self).policy_map()
            },
    {
        self.set_policy_enabled(policy_id, false)
    }

    /// Starts escalating `alert` under policy `policy_id` at `now`: a pending
    /// event at level 0 replaces any earlier escalation of the alert and is
    /// added to the (bounded) history.
    pub fn start_escalation_at(&mut self, alert: &Alert, policy_id: &str, now: u64) -> (r: Result<EscalationEvent, String>)
        ensures
            start_post(*old(self), *final(self), alert.id@, policy_id@, now, r),
    {
        match self.policies.get(policy_id) {
            None => return Err(owned("Policy not found")),
            Some(p) => {
                if !p.enabled {
                    return Err(owned("Policy is disabled"));
                }
            }
        }
        let event = EscalationEvent {
            id: new_uuid_string(),
            alert_id: alert.id.clone(),
            policy_id: owned(policy_id),
            current_level: 0,
            notified_recipients: Vec::new(),
            timestamp: now,
            status: EscalationStatus::Pending,
        };
        assert(recipients_view(event.notified_recipients@) =~= Seq::<RecipientView>::empty());
        let ghost ev = event@;
        self.active_escalations.upsert(event.duplicate());
        assert(self.active_map() =~= old(self).active_map().insert(alert.id@, ev));
        let ghost before = self.history();
        if self.escalation_history.len() >= self.max_history_size && self.escalation_history.len() > 0 {
            let _ = self.escalation_history.remove(0);
            assert(self.history() =~= before.drop_first());
        }
        let ghost mid = self.history();
        self.escalation_history.push(event.duplicate());
        assert(self.history() =~= mid.push(ev));
        Ok(event)
    }

    /// Starts escalating `alert` under policy `policy_id` now.
    pub fn start_escalation(&mut self, alert: &Alert, policy_id: &str) -> (r: Result<EscalationEvent, String>)
        ensures
            exists|now: u64| start_post(*old(self), *final(self), alert.id@, policy_id@, now, r),
            r is Ok <==> (old(self).policy_map().dom().contains(policy_id@) && old(self).policy_map()[policy_id@].enabled),
    {
        self.start_escalation_at(alert, policy_id, now_millis_unsigned())
    }

    /// Moves the escalation of `alert_id` to its next level at `now` (see
    /// `escalate_post`).
    pub fn escalate_at(&mut self, alert_id: &str, now: u64) -> (r: Result<EscalationEvent, String>)
        ensures
            escalate_post(*old(self), *final(self), alert_id@, now, r),
    {
        let policy_id = match self.active_escalations.get(alert_id) {
            Some(e) => e.policy_id.clone(),
            None => return Err(owned("Escalation not found")),
        };
        let (levels_len, recipients) = match self.policies.get(policy_id.as_str()) {
            None => return Err(owned("Policy not found")),
            Some(p) => {
                let e = self.active_escalations.get(alert_id);
                let cur = match e { Some(x) => x.current_level, None => 0 };
                let next = cur.saturating_add(1);
                let len32: u32 = #[verifier::truncate] (p.levels.len() as u32);
                if next >= len32 {
                    (len32, None)
                } else {
                    let lv = &p.levels[next as usize];
                    (len32, Some(copy_recipients(&lv.recipients)))
                }
            }
        };
        let mut e = match self.active_escalations.remove(alert_id) {
            Some(x) => x,
            None => return Err(owned("Escalation not found")),
        };
        e.current_level = e.current_level.saturating_add(1);
        match recipients {
            None => {
                e.status = EscalationStatus::Resolved;
            }
            Some(rs) => {
                e.notified_recipients = rs;
                e.status = EscalationStatus::Notified;
                e.timestamp = now;
            }
        }
        let ghost ev = e@;
        let copy = e.duplicate();
        let hist = e.duplicate();
        self.active_escalations.upsert(e);
        assert(self.active_map() =~= old(self).active_map().insert(alert_id@, ev));
        let ghost before = self.history();
        self.escalation_history.push(hist);
        assert(self.history() =~= before.push(ev));
        Ok(copy)
    }

    /// Moves the escalation of `alert_id` to its next level now.
    pub fn escalate(&mut self, alert_id: &str) -> (r: Result<EscalationEvent, String>)
        ensures
            exists|now: u64| escalate_post(*old(self), *final(self), alert_id@, now, r),
    {
        self.escalate_at(alert_id, now_millis_unsigned())
    }

    fn set_status(&mut self, alert_id: &str, status: EscalationStatus, now: u64) -> (r: Result<(), String>)
        ensures
            status_post(*old(self), *final(self), alert_id@, status, now, r),
    {
        match self.active_escalations.remove(alert_id) {
            Some(e) => {
                let mut e = e;
                e.status = status;
                e.timestamp = now;
                let ghost ev = e@;
                self.active_escalations.upsert(e);
                assert(self.active_map() =~= old(self).active_map().insert(alert_id@, ev));
                Ok(())
            }
            None => Err(owned("Escalation not found")),
        }
    }

    /// Marks the escalation of `alert_id` resolved at `now`.
    pub fn resolve_escalation_at(&mut self, alert_id: &str, now: u64) -> (r: Result<(), String>)
        ensures
            status_post(*old(self), *final(self), alert_id@, EscalationStatus::Resolved, now, r),
    {
        self.set_status(alert_id, EscalationStatus::Resolved, now)
    }

    /// Marks the escalation of `alert_id` resolved now.
    pub fn resolve_escalation(&mut self, alert_id: &str) -> (r: Result<(), String>)
        ensures
            exists|now: u64| status_post(*old(self), *final(self), alert_id@, EscalationStatus::Resolved, now, r),
            r is Ok <==> old(self).active_map().dom().contains(alert_id@),
            final(self).active_map().dom() == old(self).active_map().dom(),
    {
        let r = self.resolve_escalation_at(alert_id, now_millis_unsigned());
        r
    }

    /// Marks the escalation of `alert_id` cancelled at `now`.
    pub fn cancel_escalation_at(&mut self, alert_id: &str, now: u64) -> (r: Result<(), String>)
        ensures
            status_post(*old(self), *final(self), alert_id@, EscalationStatus::Cancelled, now, r),
    {
        self.set_status(alert_id, EscalationStatus::Cancelled, now)
    }

    /// Marks the escalation of `alert_id` cancelled now.
    pub fn cancel_escalation(&mut self, alert_id: &str) -> (r: Result<(), String>)
        ensures
            exists|now: u64| status_post(*old(self), *final(self), alert_id@, EscalationStatus::Cancelled, now, r),
            r is Ok <==> old(self).active_map().dom().contains(alert_id@),
            final(self).active_map().dom() == old(self).active_map().dom(),
    {
        let r = self.cancel_escalation_at(alert_id, now_millis_unsigned());
        r
    }

    /// A copy of the escalation of `alert_id`, if any.
    pub fn get_active_escalation(&self, alert_id: &str) -> (r: Option<EscalationEvent>)
        ensures
            match r {
                Some(e) => self.active_map().dom().contains(alert_id@) && e@ == self.active_map()[alert_id@],
                None => !self.active_map().dom().contains(alert_id@),
            },
    {
        match self.active_escalations.get(alert_id) {
            Some(e) => Some(e.duplicate()),
            None => None,
        }
    }

    /// Copies of the newest `limit` escalation steps, newest first.
    pub fn get_escalation_history(&self, limit: usize) -> (v: Vec<EscalationEvent>)
        ensures
            v@.map_values(|e: EscalationEvent| e@) == newest(self.history(), limit as nat),
    {
        let len = self.escalation_history.len();
        let take = if limit < len { limit } else { len };
        let ghost s = self.history();
        let mut r: Vec<EscalationEvent> = Vec::new();
        let mut i: usize = 0;
        while i < take
            invariant
                len == self.escalation_history@.len(),
                s == self.history(),
                take <= len,
                i <= take,
                r@.map_values(|e: EscalationEvent| e@) == Seq::new(i as nat, |k: int| s[s.len() - 1 - k]),
            decreases take - i,
        {
            let ghost before = r@.map_values(|e: EscalationEvent| e@);
            r.push(self.escalation_history[len - 1 - i].duplicate());
            assert(r@.map_values(|e: EscalationEvent| e@) =~= before.push(s[s.len() - 1 - i]));
            i = i + 1;
            assert(r@.map_values(|e: EscalationEvent| e@) =~= Seq::new(i as nat, |k: int| s[s.len() - 1 - k]));
        }
        assert(r@.map_values(|e: EscalationEvent| e@) =~= newest(s, limit as nat));
        r
    }

    /// Whether the escalation of `alert` is still pending fifteen minutes after
    /// it was last touched, at `now`.
    pub fn check_escalation_needed_at(&self, alert: &Alert, now: u64) -> (b: bool)
        ensures
            b == overdue(*self, alert.id@, now),
    {
        match self.active_escalations.get(alert.id.as_str()) {
            Some(e) => e.status == EscalationStatus::Pending && e.timestamp < now.saturating_sub(QUARTER_HOUR_MS),
            None => false,
        }
    }

    /// Whether the escalation of `alert` is overdue now.
    pub fn check_escalation_needed(&self, alert: &Alert) -> (b: bool)
        ensures
            exists|now: u64| b == overdue(*self, alert.id@, now),
            b ==> self.active_map().dom().contains(alert.id@) && self.active_map()[alert.id@].status == EscalationStatus::Pending,
    {
        self.check_escalation_needed_at(alert, now_millis_unsigned())
    }

    /// Adds the two default policies, created at `now`: critical alerts go to the
    /// primary on-call webhook after five minutes, then to the operations team
    /// with a ticket after fifteen (repeated twice); warnings go to the secondary
    /// on-call webhook after thirty minutes (once).
    pub fn create_default_policies_at(&mut self, now: u64)
        ensures
            final(self).policy_map() == old(self).policy_map()
                .insert("critical_escalation"@, critical_policy(now))
                .insert("warning_escalation"@, warning_policy(now)),
            final(self).active_map() == old(self).active_map(),
            final(self).history() == old(self).history(),
    {
        let mut crit_levels: Vec<EscalationLevel> = Vec::new();
        crit_levels.push(make_level(0, 5, RecipientType::Webhook, "webhook_1", "Primary On-Call", EscalationActionType::Notify));
        crit_levels.push(make_level(1, 15, RecipientType::Group, "ops_team", "Operations Team", EscalationActionType::CreateTicket));
        let critical = EscalationPolicy {
            id: owned("critical_escalation"),
            name: owned("Critical Alert Escalation"),
            description: owned("Escalation policy for critical alerts"),
            levels: crit_levels,
            repeat_count: 2,
            created_at: now,
            enabled: true,
        };
        assert(critical@ == critical_policy(now)) by {
            assert(critical@.levels =~= critical_policy(now).levels);
        }
        self.add_policy(critical);
        let mut warn_levels: Vec<EscalationLevel> = Vec::new();
        warn_levels.push(make_level(0, 30, RecipientType::Webhook, "webhook_2", "Secondary On-Call", EscalationActionType::Notify));
        let warning = EscalationPolicy {
            id: owned("warning_escalation"),
            name: owned("Warning Alert Escalation"),
            description: owned("Escalation policy for warning alerts"),
            levels: warn_levels,
            repeat_count: 1,
            created_at: now,
            enabled: true,
        };
        assert(warning@ == warning_policy(now)) by {
            assert(warning@.levels =~= warning_policy(now).levels);
        }
        self.add_policy(warning);
    }

    /// Adds the two default policies, created now.
    pub fn create_default_policies(&mut self)
        ensures
            exists|now: u64| final(self).policy_map() == old(self).policy_map()
                .insert("critical_escalation"@, critical_policy(now))
                .insert("warning_escalation"@, warning_policy(now)),
            final(self).active_map() == old(self).active_map(),
    {
        self.create_default_policies_at(now_millis_unsigned())
    }
}

/// One level with one recipient and one action without settings.
pub open spec fn level_of(level: u32, after: u32, t: RecipientType, identifier: Seq<char>, name: Seq<char>, a: EscalationActionType) -> LevelView {
    LevelView {
        level,
        notify_after_minutes: after,
        recipients: seq![RecipientView { recipient_type: t, identifier, name }],
        escalation_actions: seq![ActionView { action_type: a, config: seq![] }],
    }
}

/// The default policy for critical alerts, created at `now`.
pub open spec fn critical_policy(now: u64) -> PolicyView {
    PolicyView {
        id: "critical_escalation"@,
        name: "Critical Alert Escalation"@,
        description: "Escalation policy for critical alerts"@,
        levels: seq![
            level_of(0, 5, RecipientType::Webhook, "webhook_1"@, "Primary On-Call"@, EscalationActionType::Notify),
            level_of(1, 15, RecipientType::Group, "ops_team"@, "Operations Team"@, EscalationActionType::CreateTicket),
        ],
        repeat_count: 2,
        created_at: now,
        enabled: true,
    }
}

/// The default policy for warnings, created at `now`.
pub open spec fn warning_policy(now: u64) -> PolicyView {
    PolicyView {
        id: "warning_escalation"@,
        name: "Warning Alert Escalation"@,
        description: "Escalation policy for warning alerts"@,
        levels: seq![level_of(0, 30, RecipientType::Webhook, "webhook_2"@, "Secondary On-Call"@, EscalationActionType::Notify)],
        repeat_count: 1,
        created_at: now,
        enabled: true,
    }
}

fn make_level(level: u32, after: u32, t: RecipientType, identifier: &str, name: &str, a: EscalationActionType) -> (l: EscalationLevel)
    ensures
        l@ == level_of(level, after, t, identifier@, name@, a),
{
    let mut recipients: Vec<EscalationRecipient> = Vec::new();
    recipients.push(EscalationRecipient { recipient_type: t, identifier: owned(identifier), name: owned(name) });
    let mut actions: Vec<EscalationAction> = Vec::new();
    actions.push(EscalationAction { action_type: a, config: Vec::new() });
    let l = EscalationLevel { level, notify_after_minutes: after, recipients, escalation_actions: actions };
    assert(l@.recipients =~= level_of(level, after, t, identifier@, name@, a).recipients);
    assert(l@.escalation_actions[0].config =~= Seq::<(Seq<char>, Seq<char>)>::empty());
    assert(l@.escalation_actions =~= level_of(level, after, t, identifier@, name@, a).escalation_actions);
    l
}

/// Escalating an alert just started under a policy with at least two levels
/// notifies the recipients of the second level.
pub proof fn law_first_escalation_notifies_second_level(
    m1: EscalationManager, m2: EscalationManager, alert_id: Seq<char>, now: u64, r: Result<EscalationEvent, String>,
)
    requires
        escalate_post(m1, m2, alert_id, now, r),
        m1.active_map().dom().contains(alert_id),
        m1.active_map()[alert_id].current_level == 0,
        m1.policy_map().dom().contains(m1.active_map()[alert_id].policy_id),
        m1.policy_map()[m1.active_map()[alert_id].policy_id].levels.len() >= 2,
        m1.policy_map()[m1.active_map()[alert_id].policy_id].levels.len() <= u32::MAX,
    ensures
        r matches Ok(e) && e@.current_level == 1 && e@.status == EscalationStatus::Notified
            && e@.notified_recipients == m1.policy_map()[m1.active_map()[alert_id].policy_id].levels[1].recipients,
{
}

/// Escalating past the last level resolves the escalation.
pub proof fn law_escalation_past_last_level_resolves(
    m1: EscalationManager, m2: EscalationManager, alert_id: Seq<char>, now: u64, r: Result<EscalationEvent, String>,
)
    requires
        escalate_post(m1, m2, alert_id, now, r),
        m1.active_map().dom().contains(alert_id),
        m1.policy_map().dom().contains(m1.active_map()[alert_id].policy_id),
        m1.policy_map()[m1.active_map()[alert_id].policy_id].levels.len() <= u32::MAX,
        m1.active_map()[alert_id].current_level + 1 >= m1.policy_map()[m1.active_map()[alert_id].policy_id].levels.len(),
        m1.active_map()[alert_id].current_level < u32::MAX,
    ensures
        r matches Ok(e) && e@.status == EscalationStatus::Resolved,
        m2.active_map()[alert_id].status == EscalationStatus::Resolved,
{
}

} // verus!
