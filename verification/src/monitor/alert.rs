//! Threshold alerting: thresholds on metrics with a cooldown each, the alerts
//! they raise and their acknowledgement, and rules that combine several
//! conditions. Measured values and thresholds are the bit patterns of IEEE
//! doubles. Two things need floating-point arithmetic and are asked of the
//! caller: whether two doubles differ by less than machine epsilon (for the
//! `Equal` operator), and how a double is written out in an alert's message.
//! Times are milliseconds since the epoch.
use vstd::prelude::*;
use crate::keyed::{Keyed, Store, lemma_store_keys};
use crate::ids::{new_uuid_string, is_hyphenated_uuid};
use crate::text::owned;
use crate::clock::now_millis_unsigned;
use crate::monitor::types::{
    Alert, AlertView, AlertLevel, AlertThreshold, ThresholdView, MetricType, ThresholdOperator, metric_name,
    double_lt, double_le, double_less, double_less_eq, bits_rank, bits_is_nan,
};
use crate::monitor::deadlock::bounded_push;
use crate::monitor::dashboard::view_map;
use crate::security::audit_log::newest;
use crate::dup::{Duplicate, views, dup_vec, newest_dup};

verus! {

/// Why an alerting operation was refused.
#[derive(Debug)]
pub enum AlertError {
    ThresholdNotFound(String),
    InvalidConfiguration(String),
    AlertNotFound(String),
}

/// How the results of a rule's conditions are combined.
#[derive(Clone, Copy, PartialEq, Eq, Structural, Debug)]
pub enum LogicalOperator {
    And,
    Or,
}

/// A threshold setting with a duration and a notify-once switch.
pub struct ThresholdConfig {
    pub id: String,
    pub name: String,
    pub metric_type: MetricType,
    pub operator: ThresholdOperator,
    pub threshold_value_bits: u64,
    pub alert_level: AlertLevel,
    pub enabled: bool,
    pub cooldown_seconds: u64,
    pub duration_seconds: u64,
    pub notify_once: bool,
}

impl ThresholdConfig {
    /// An enabled setting under a fresh id, with a five-minute cooldown, no
    /// duration, notifying every time.
    pub fn new(name: String, metric_type: MetricType, operator: ThresholdOperator, threshold_value_bits: u64, alert_level: AlertLevel) -> (c: ThresholdConfig)
        ensures
            is_hyphenated_uuid(c.id@),
            c.name == name && c.metric_type == metric_type && c.operator == operator,
            c.threshold_value_bits == threshold_value_bits && c.alert_level == alert_level,
            c.enabled && c.cooldown_seconds == 300 && c.duration_seconds == 0 && !c.notify_once,
    {
        ThresholdConfig {
            id: new_uuid_string(),
            name,
            metric_type,
            operator,
            threshold_value_bits,
            alert_level,
            enabled: true,
            cooldown_seconds: 300,
            duration_seconds: 0,
            notify_once: false,
        }
    }
}

/// One condition of a rule.
pub struct AlertCondition {
    pub metric_type: MetricType,
    pub operator: ThresholdOperator,
    pub threshold_bits: u64,
    pub logical_operator: Option<LogicalOperator>,
}

/// A rule raising alerts of one level when its conditions hold together.
pub struct AlertRule {
    pub id: String,
    pub name: String,
    pub metric_type: MetricType,
    pub conditions: Vec<AlertCondition>,
    pub alert_level: AlertLevel,
    pub enabled: bool,
    pub cooldown_seconds: u64,
    pub created_at: u64,
    pub updated_at: u64,
}

/// The plain content of a condition.
pub struct ConditionView {
    pub metric_type: MetricType,
    pub operator: ThresholdOperator,
    pub threshold_bits: u64,
    pub logical_operator: Option<LogicalOperator>,
}

/// The plain content of a rule.
pub struct RuleView {
    pub id: Seq<char>,
    pub name: Seq<char>,
    pub metric_type: MetricType,
    pub conditions: Seq<ConditionView>,
    pub alert_level: AlertLevel,
    pub enabled: bool,
    pub cooldown_seconds: u64,
    pub created_at: u64,
    pub updated_at: u64,
}

impl View for AlertCondition {
    type V = ConditionView;

    open spec fn view(&self) -> ConditionView {
        ConditionView {
            metric_type: self.metric_type,
            operator: self.operator,
            threshold_bits: self.threshold_bits,
            logical_operator: self.logical_operator,
        }
    }
}

impl Duplicate for AlertCondition {
    fn dup(&self) -> (r: AlertCondition) {
        AlertCondition {
            metric_type: self.metric_type,
            operator: self.operator,
            threshold_bits: self.threshold_bits,
            logical_operator: self.logical_operator,
        }
    }
}

impl View for AlertRule {
    type V = RuleView;

    open spec fn view(&self) -> RuleView {
        RuleView {
            id: self.id@,
            name: self.name@,
            metric_type: self.metric_type,
            conditions: views(self.conditions@),
            alert_level: self.alert_level,
            enabled: self.enabled,
            cooldown_seconds: self.cooldown_seconds,
            created_at: self.created_at,
            updated_at: self.updated_at,
        }
    }
}

impl Duplicate for AlertRule {
    fn dup(&self) -> (r: AlertRule) {
        AlertRule {
            id: self.id.clone(),
            name: self.name.clone(),
            metric_type: self.metric_type,
            conditions: dup_vec(&self.conditions),
            alert_level: self.alert_level,
            enabled: self.enabled,
            cooldown_seconds: self.cooldown_seconds,
            created_at: self.created_at,
            updated_at: self.updated_at,
        }
    }
}

impl Keyed for AlertRule {
    open spec fn key_view(&self) -> Seq<char> {
        self.id@
    }

    fn key_str(&self) -> (r: &str) {
        self.id.as_str()
    }
}

/// When a threshold last raised an alert.
pub struct Cooldown {
    pub threshold_id: String,
    pub at: u64,
}

impl View for Cooldown {
    type V = u64;

    open spec fn view(&self) -> u64 {
        self.at
    }
}

impl Keyed for Cooldown {
    open spec fn key_view(&self) -> Seq<char> {
        self.threshold_id@
    }

    fn key_str(&self) -> (r: &str) {
        self.threshold_id.as_str()
    }
}

// ---------------------------------------------------------------------------
// Conditions
// ---------------------------------------------------------------------------

/// `value op threshold` on doubles; for `Equal`, `near` says whether the two
/// differ by less than machine epsilon.
pub open spec fn condition_holds(value: u64, op: ThresholdOperator, threshold: u64, near: bool) -> bool {
    match op {
        ThresholdOperator::GreaterThan => double_lt(threshold, value),
        ThresholdOperator::LessThan => double_lt(value, threshold),
        ThresholdOperator::GreaterThanOrEqual => double_le(threshold, value),
        ThresholdOperator::LessThanOrEqual => double_le(value, threshold),
        ThresholdOperator::Equal => near,
    }
}

/// Whether `value op threshold` holds on doubles; for `Equal`, `near` is the
/// caller's finding whether the two differ by less than machine epsilon.
pub fn evaluate_condition(value_bits: u64, operator: ThresholdOperator, threshold_bits: u64, near: bool) -> (b: bool)
    ensures
        b == condition_holds(value_bits, operator, threshold_bits, near),
{
    match operator {
        ThresholdOperator::GreaterThan => double_less(threshold_bits, value_bits),
        ThresholdOperator::LessThan => double_less(value_bits, threshold_bits),
        ThresholdOperator::GreaterThanOrEqual => double_less_eq(threshold_bits, value_bits),
        ThresholdOperator::LessThanOrEqual => double_less_eq(value_bits, threshold_bits),
        ThresholdOperator::Equal => near,
    }
}

/// The condition `value op threshold` holds, where for `Equal` the caller's
/// comparison `near` answered `true` for the pair.
pub open spec fn holds_with<W: Fn(u64, u64) -> bool>(near: W, value: u64, op: ThresholdOperator, threshold: u64) -> bool {
    if op == ThresholdOperator::Equal {
        near.ensures((value, threshold), true)
    } else {
        condition_holds(value, op, threshold, false)
    }
}

/// The condition `value op threshold` fails, where for `Equal` the caller's
/// comparison `near` answered `false` for the pair.
pub open spec fn fails_with<W: Fn(u64, u64) -> bool>(near: W, value: u64, op: ThresholdOperator, threshold: u64) -> bool {
    if op == ThresholdOperator::Equal {
        near.ensures((value, threshold), false)
    } else {
        !condition_holds(value, op, threshold, false)
    }
}

fn check_with<W: Fn(u64, u64) -> bool>(near: &W, value: u64, op: ThresholdOperator, threshold: u64) -> (b: bool)
    requires
        forall|a: u64, c: u64| #[trigger] near.requires((a, c)),
    ensures
        b ==> holds_with(*near, value, op, threshold),
        !b ==> fails_with(*near, value, op, threshold),
{
    let close = if op == ThresholdOperator::Equal { near(value, threshold) } else { false };
    evaluate_condition(value, op, threshold, close)
}

// ---------------------------------------------------------------------------
// Cooldowns and alerts
// ---------------------------------------------------------------------------

/// Whole seconds from `last` to `now`, truncated toward zero (negative when the
/// clock went back).
pub open spec fn secs_since(last: u64, now: u64) -> int {
    if now >= last { (now - last) / 1000 } else { -((last - now) / 1000) }
}

/// A cooldown in seconds read as a signed 64-bit count (two's complement).
pub open spec fn signed_secs(c: u64) -> int {
    if c <= i64::MAX { c as int } else { c - 0x1_0000_0000_0000_0000 }
}

/// Threshold `t` raised an alert recently enough at `now` that it must stay quiet.
pub open spec fn in_cooldown(cooldowns: Map<Seq<char>, u64>, t: ThresholdView, now: u64) -> bool {
    cooldowns.dom().contains(t.id) && secs_since(cooldowns[t.id], now) < signed_secs(t.cooldown_seconds)
}

fn cooling(last: u64, cooldown: u64, now: u64) -> (b: bool)
    ensures
        b == (secs_since(last, now) < signed_secs(cooldown)),
{
    let elapsed: i128 = if now >= last { ((now - last) / 1000) as i128 } else { -(((last - now) / 1000) as i128) };
    let limit: i128 = if cooldown <= 0x7fff_ffff_ffff_ffff { cooldown as i128 } else { cooldown as i128 - 0x1_0000_0000_0000_0000 };
    elapsed < limit
}

/// The word a threshold's operator is described with.
pub open spec fn operator_verb(op: ThresholdOperator) -> Seq<char> {
    match op {
        ThresholdOperator::GreaterThan => "exceeded"@,
        ThresholdOperator::LessThan => "below"@,
        ThresholdOperator::GreaterThanOrEqual => "reached or exceeded"@,
        ThresholdOperator::LessThanOrEqual => "at or below"@,
        ThresholdOperator::Equal => "equals"@,
    }
}

fn operator_word(op: ThresholdOperator) -> (s: &'static str)
    ensures
        s@ == operator_verb(op),
{
    match op {
        ThresholdOperator::GreaterThan => "exceeded",
        ThresholdOperator::LessThan => "below",
        ThresholdOperator::GreaterThanOrEqual => "reached or exceeded",
        ThresholdOperator::LessThanOrEqual => "at or below",
        ThresholdOperator::Equal => "equals",
    }
}

/// `a` is the alert threshold `t` raises at `now` for `value`: a fresh id, the
/// threshold's level and metric, and a message naming the threshold and its
/// operator with the numbers as the caller's `render` wrote them (shortest form
/// for the threshold, then two decimals for the value and the threshold).
pub open spec fn raised_by<R: Fn(u64, bool) -> String>(render: R, a: AlertView, t: ThresholdView, value: u64, now: u64) -> bool {
    &&& is_hyphenated_uuid(a.id)
    &&& a.level == t.alert_level
    &&& a.metric_type == metric_name(t.metric_type)
    &&& a.value_bits == value
    &&& a.threshold_bits == t.threshold_value_bits
    &&& a.timestamp == now
    &&& !a.acknowledged && a.acknowledged_by is None && a.acknowledged_at is None
    &&& exists|s1: String, s2: String, s3: String|
        render.ensures((t.threshold_value_bits, false), s1) && render.ensures((value, true), s2)
            && render.ensures((t.threshold_value_bits, true), s3)
            && #[trigger] a.message == t.name + " "@ + operator_verb(t.operator) + " "@ + s1@ + " (current: "@ + s2@
                + ", threshold: "@ + s3@ + ")"@
}

fn raise<R: Fn(u64, bool) -> String>(render: &R, t: &AlertThreshold, value: u64, now: u64) -> (a: Alert)
    requires
        forall|b: u64, f: bool| #[trigger] render.requires((b, f)),
    ensures
        raised_by(*render, a@, t@, value, now),
{
    let s1 = render(t.threshold_value_bits, false);
    let s2 = render(value, true);
    let s3 = render(t.threshold_value_bits, true);
    let message = t.name.clone().concat(" ").concat(operator_word(t.operator)).concat(" ").concat(s1.as_str())
        .concat(" (current: ").concat(s2.as_str()).concat(", threshold: ").concat(s3.as_str()).concat(")");
    let a = Alert {
        id: new_uuid_string(),
        level: t.alert_level,
        metric_type: owned(t.metric_type.as_str()),
        message,
        value_bits: value,
        threshold_bits: t.threshold_value_bits,
        timestamp: now,
        acknowledged: false,
        acknowledged_by: None,
        acknowledged_at: None,
    };
    assert(a@.message == t@.name + " "@ + operator_verb(t@.operator) + " "@ + s1@ + " (current: "@ + s2@
        + ", threshold: "@ + s3@ + ")"@);
    a
}

/// One threshold check of metric `m` at value `value` and time `now`, over the
/// thresholds `ts` in order, taking cooldowns from `cd` to `cd2` and giving
/// `out`: the first enabled threshold of the metric whose condition holds
/// decides; it raises an alert and starts its cooldown unless it is in
/// cooldown, in which case nothing happens; with no such threshold nothing
/// happens either.
pub open spec fn check_step<W: Fn(u64, u64) -> bool, R: Fn(u64, bool) -> String>(
    near: W,
    render: R,
    ts: Seq<ThresholdView>,
    cd: Map<Seq<char>, u64>,
    m: MetricType,
    value: u64,
    now: u64,
    cd2: Map<Seq<char>, u64>,
    out: Option<AlertView>,
) -> bool {
    match out {
        Some(a) => exists|i: int| 0 <= i < ts.len() && #[trigger] ts[i].enabled && ts[i].metric_type == m
            && holds_with(near, value, ts[i].operator, ts[i].threshold_value_bits)
            && (forall|j: int| 0 <= j < i ==> #[trigger] skipped(near, ts[j], m, value))
            && !in_cooldown(cd, ts[i], now)
            && cd2 == cd.insert(ts[i].id, now)
            && raised_by(render, a, ts[i], value, now),
        None => cd2 == cd && (
            (forall|j: int| 0 <= j < ts.len() ==> #[trigger] skipped(near, ts[j], m, value))
            || exists|i: int| 0 <= i < ts.len() && #[trigger] ts[i].enabled && ts[i].metric_type == m
                && holds_with(near, value, ts[i].operator, ts[i].threshold_value_bits)
                && (forall|j: int| 0 <= j < i ==> #[trigger] skipped(near, ts[j], m, value))
                && in_cooldown(cd, ts[i], now)),
    }
}

/// Threshold `t` does not fire for metric `m` at `value`: it is off, watches
/// another metric, or its condition fails.
pub open spec fn skipped<W: Fn(u64, u64) -> bool>(near: W, t: ThresholdView, m: MetricType, value: u64) -> bool {
    !t.enabled || t.metric_type != m || fails_with(near, value, t.operator, t.threshold_value_bits)
}

/// The alerts among `outs`, in order.
pub open spec fn raised(outs: Seq<Option<AlertView>>) -> Seq<AlertView>
    decreases outs.len(),
{
    if outs.len() == 0 {
        seq![]
    } else {
        match outs.last() {
            Some(a) => raised(outs.drop_last()).push(a),
            None => raised(outs.drop_last()),
        }
    }
}

/// Checking each of `metrics` in turn at `now` (see `check_step`) takes the
/// cooldowns from `cd` to `cd2` and raises the alerts `alerts`, in order.
pub open spec fn checked_all<W: Fn(u64, u64) -> bool, R: Fn(u64, bool) -> String>(
    near: W,
    render: R,
    ts: Seq<ThresholdView>,
    cd: Map<Seq<char>, u64>,
    metrics: Seq<(MetricType, u64)>,
    now: u64,
    cd2: Map<Seq<char>, u64>,
    alerts: Seq<AlertView>,
) -> bool {
    exists|states: Seq<Map<Seq<char>, u64>>, outs: Seq<Option<AlertView>>|
        #![trigger states.len(), outs.len()]
        states.len() == metrics.len() + 1 && outs.len() == metrics.len()
        && states[0] == cd && states[metrics.len() as int] == cd2
        && (forall|k: int| 0 <= k < metrics.len() ==> #[trigger] check_step(near, render, ts,
            states[k], metrics[k].0, metrics[k].1, now, states[k + 1], outs[k]))
        && alerts == raised(outs)
}

/// The value of the first entry for metric `m`, if any.
pub open spec fn lookup(metrics: Seq<(MetricType, u64)>, m: MetricType) -> Option<u64>
    decreases metrics.len(),
{
    if metrics.len() == 0 {
        None
    } else if metrics[0].0 == m {
        Some(metrics[0].1)
    } else {
        lookup(metrics.drop_first(), m)
    }
}

fn find_metric(metrics: &Vec<(MetricType, u64)>, m: MetricType) -> (r: Option<u64>)
    ensures
        r == lookup(metrics@, m),
{
    let n = metrics.len();
    let mut i: usize = 0;
    assert(metrics@.subrange(0, n as int) =~= metrics@);
    while i < n
        invariant
            n == metrics@.len(),
            i <= n,
            lookup(metrics@, m) == lookup(metrics@.subrange(i as int, n as int), m),
        decreases n - i,
    {
        assert(metrics@.subrange(i as int, n as int).drop_first() =~= metrics@.subrange(i + 1, n as int));
        if metrics[i].0 == m {
            return Some(metrics[i].1);
        }
        i = i + 1;
    }
    None
}

/// `r` is an outcome of condition `c` for the metrics: false when the metric is
/// absent, else whether the condition holds as the caller's `near` answered.
pub open spec fn condition_outcome<W: Fn(u64, u64) -> bool>(near: W, metrics: Seq<(MetricType, u64)>, c: ConditionView, r: bool) -> bool {
    match lookup(metrics, c.metric_type) {
        None => !r,
        Some(v) => if r { holds_with(near, v, c.operator, c.threshold_bits) } else { fails_with(near, v, c.operator, c.threshold_bits) },
    }
}

/// How a rule combines its outcomes: any of them when its first condition says
/// `Or`, all of them otherwise; a rule that is off or has no conditions is false.
pub open spec fn rule_result(rule: RuleView, outcomes: Seq<bool>) -> bool {
    if !rule.enabled || rule.conditions.len() == 0 {
        false
    } else if rule.conditions[0].logical_operator == Some(LogicalOperator::Or) {
        exists|k: int| 0 <= k < outcomes.len() && #[trigger] outcomes[k]
    } else {
        forall|k: int| 0 <= k < outcomes.len() ==> #[trigger] outcomes[k]
    }
}

// ---------------------------------------------------------------------------
// The manager
// ---------------------------------------------------------------------------

/// `s` with its `i`th alert acknowledged by `by` at `now`.
pub open spec fn acknowledged_at(s: Seq<AlertView>, i: int, by: Seq<char>, now: u64) -> Seq<AlertView> {
    s.update(i, AlertView { acknowledged: true, acknowledged_by: Some(by), acknowledged_at: Some(now), ..s[i] })
}

/// Which alerts a query keeps.
pub enum AlertFilter {
    Unacknowledged,
    Level(AlertLevel),
    Metric(Seq<char>),
}

/// Alert `a` is kept by filter `f`.
pub open spec fn kept_by(f: AlertFilter, a: AlertView) -> bool {
    match f {
        AlertFilter::Unacknowledged => !a.acknowledged,
        AlertFilter::Level(l) => a.level == l,
        AlertFilter::Metric(m) => a.metric_type == m,
    }
}

/// The alerts of `s` kept by `f`, in order.
pub open spec fn filtered(s: Seq<AlertView>, f: AlertFilter) -> Seq<AlertView>
    decreases s.len(),
{
    if s.len() == 0 {
        seq![]
    } else if kept_by(f, s.last()) {
        filtered(s.drop_last(), f).push(s.last())
    } else {
        filtered(s.drop_last(), f)
    }
}

enum Pick<'a> {
    Unacknowledged,
    Level(AlertLevel),
    Metric(&'a str),
}

spec fn pick_filter(p: Pick) -> AlertFilter {
    match p {
        Pick::Unacknowledged => AlertFilter::Unacknowledged,
        Pick::Level(l) => AlertFilter::Level(l),
        Pick::Metric(m) => AlertFilter::Metric(m@),
    }
}

fn keeps(p: &Pick, a: &Alert) -> (b: bool)
    ensures
        b == kept_by(pick_filter(*p), a@),
{
    match p {
        Pick::Unacknowledged => !a.acknowledged,
        Pick::Level(l) => a.level == *l,
        Pick::Metric(m) => crate::text::str_eq(a.metric_type.as_str(), *m),
    }
}

fn select(v: &Vec<Alert>, p: Pick) -> (r: Vec<Alert>)
    ensures
        views(r@) == filtered(views(v@), pick_filter(p)),
{
    let ghost s = views(v@);
    let n = v.len();
    let mut r: Vec<Alert> = Vec::new();
    let mut i: usize = 0;
    while i < n
        invariant
            n == v@.len(),
            s == views(v@),
            i <= n,
            views(r@) == filtered(s.subrange(0, i as int), pick_filter(p)),
        decreases n - i,
    {
        assert(s.subrange(0, i + 1).drop_last() =~= s.subrange(0, i as int));
        if keeps(&p, &v[i]) {
            let ghost before = views(r@);
            r.push(v[i].dup());
            assert(views(r@) =~= before.push(s[i as int]));
        }
        i = i + 1;
    }
    assert(s.subrange(0, n as int) =~= s);
    r
}

/// `s` lists the thresholds of `m` once each (in some order), each under its id.
pub open spec fn lists_thresholds(s: Seq<ThresholdView>, m: Map<Seq<char>, ThresholdView>) -> bool {
    &&& s.len() == m.dom().len()
    &&& forall|i: int| 0 <= i < s.len() ==> #[trigger] m.dom().contains(s[i].id) && m[s[i].id] == s[i]
    &&& forall|i: int, j: int| 0 <= i < s.len() && 0 <= j < s.len() && i != j ==> #[trigger] s[i].id != #[trigger] s[j].id
}

/// `s` lists the rules of `m` once each (in some order), each under its id.
pub open spec fn lists_rules(s: Seq<RuleView>, m: Map<Seq<char>, RuleView>) -> bool {
    &&& s.len() == m.dom().len()
    &&& forall|i: int| 0 <= i < s.len() ==> #[trigger] m.dom().contains(s[i].id) && m[s[i].id] == s[i]
    &&& forall|i: int, j: int| 0 <= i < s.len() && 0 <= j < s.len() && i != j ==> #[trigger] s[i].id != #[trigger] s[j].id
}

/// Thresholds by id, the alerts raised (kept up to a bound), when each
/// threshold last fired, and rules by id.
pub struct AlertManager {
    thresholds: Store<AlertThreshold>,
    alert_history: Vec<Alert>,
    cooldown_tracker: Store<Cooldown>,
    alert_rules: Store<AlertRule>,
    max_history_size: usize,
}

/// The plain content of an optional alert.
pub open spec fn opt_alert(o: Option<Alert>) -> Option<AlertView> {
    match o {
        Some(a) => Some(a@),
        None => None,
    }
}

impl AlertManager {
    /// The thresholds by id.
    pub closed spec fn thresholds(&self) -> Map<Seq<char>, ThresholdView> {
        view_map(self.thresholds)
    }

    /// The thresholds in the order they are checked.
    pub closed spec fn threshold_list(&self) -> Seq<ThresholdView> {
        views(self.thresholds.items())
    }

    /// The recorded alerts, oldest first.
    pub closed spec fn history(&self) -> Seq<AlertView> {
        views(self.alert_history@)
    }

    /// When each threshold last raised an alert, by threshold id.
    pub closed spec fn cooldowns(&self) -> Map<Seq<char>, u64> {
        view_map(self.cooldown_tracker)
    }

    /// The rules by id.
    pub closed spec fn rules(&self) -> Map<Seq<char>, RuleView> {
        view_map(self.alert_rules)
    }

    /// How many alerts are kept.
    pub closed spec fn max_history(&self) -> usize {
        self.max_history_size
    }

    /// Each threshold and rule is stored under its own id.
    pub proof fn lemma_keys(&self)
        ensures
            forall|k: Seq<char>| #[trigger] self.thresholds().dom().contains(k) ==> self.thresholds()[k].id == k,
            forall|k: Seq<char>| #[trigger] self.rules().dom().contains(k) ==> self.rules()[k].id == k,
    {
        lemma_store_keys(self.thresholds);
        lemma_store_keys(self.alert_rules);
    }

    /// No thresholds, alerts, cooldowns or rules; up to `max_history_size` alerts are kept.
    pub fn new(max_history_size: usize) -> (m: AlertManager)
        ensures
            m.thresholds() == Map::<Seq<char>, ThresholdView>::empty(),
            m.threshold_list() == Seq::<ThresholdView>::empty(),
            m.history() == Seq::<AlertView>::empty(),
            m.cooldowns() == Map::<Seq<char>, u64>::empty(),
            m.rules() == Map::<Seq<char>, RuleView>::empty(),
            m.max_history() == max_history_size,
    {
        let m = AlertManager {
            thresholds: Store::new(),
            alert_history: Vec::new(),
            cooldown_tracker: Store::new(),
            alert_rules: Store::new(),
            max_history_size,
        };
        assert(m.thresholds() =~= Map::<Seq<char>, ThresholdView>::empty());
        assert(m.threshold_list() =~= Seq::<ThresholdView>::empty());
        assert(m.history() =~= Seq::<AlertView>::empty());
        assert(m.cooldowns() =~= Map::<Seq<char>, u64>::empty());
        assert(m.rules() =~= Map::<Seq<char>, RuleView>::empty());
        m
    }

    /// An empty manager keeping a thousand alerts.
    pub fn with_default() -> (m: AlertManager)
        ensures
            m.thresholds() == Map::<Seq<char>, ThresholdView>::empty(),
            m.threshold_list() == Seq::<ThresholdView>::empty(),
            m.history() == Seq::<AlertView>::empty(),
            m.cooldowns() == Map::<Seq<char>, u64>::empty(),
            m.rules() == Map::<Seq<char>, RuleView>::empty(),
            m.max_history() == 1000,
    {
        AlertManager::new(1000)
    }

    /// How many alerts are kept.
    pub fn max_history_size(&self) -> (n: usize)
        ensures
            n == self.max_history(),
    {
        self.max_history_size
    }

    /// Stores `threshold` under its id, replacing any with that id; never fails.
    pub fn add_threshold(&mut self, threshold: AlertThreshold) -> (r: Result<(), AlertError>)
        ensures
            r is Ok,
            final(self).thresholds() == old(self).thresholds().insert(threshold.id@, threshold@),
            final(self).history() == old(self).history(),
            final(self).cooldowns() == old(self).cooldowns(),
            final(self).rules() == old(self).rules(),
            final(self).max_history() == old(self).max_history(),
    {
        let ghost tv = threshold@;
        self.thresholds.upsert(threshold);
        assert(self.thresholds() =~= old(self).thresholds().insert(tv.id, tv));
        Ok(())
    }

    /// Takes out the threshold with id `id`; fails if there is none.
    pub fn remove_threshold(&mut self, id: &str) -> (r: Result<AlertThreshold, AlertError>)
        ensures
            final(self).thresholds() == old(self).thresholds().remove(id@),
            match r {
                Ok(t) => old(self).thresholds().dom().contains(id@) && t@ == old(self).thresholds()[id@],
                Err(e) => !old(self).thresholds().dom().contains(id@) && (e matches AlertError::ThresholdNotFound(x) && x@ == id@),
            },
            final(self).history() == old(self).history(),
            final(self).cooldowns() == old(self).cooldowns(),
            final(self).rules() == old(self).rules(),
            final(self).max_history() == old(self).max_history(),
    {
        let r = self.thresholds.remove(id);
        assert(self.thresholds() =~= old(self).thresholds().remove(id@));
        match r {
            Some(t) => Ok(t),
            None => Err(AlertError::ThresholdNotFound(owned(id))),
        }
    }

    /// A copy of the threshold with id `id`, if any.
    pub fn get_threshold(&self, id: &str) -> (r: Option<AlertThreshold>)
        ensures
            match r {
                Some(t) => self.thresholds().dom().contains(id@) && t@ == self.thresholds()[id@],
                None => !self.thresholds().dom().contains(id@),
            },
    {
        match self.thresholds.get(id) {
            Some(t) => Some(t.dup()),
            None => None,
        }
    }

    /// Copies of all thresholds, in the order they are checked.
    pub fn get_all_thresholds(&self) -> (r: Vec<AlertThreshold>)
        ensures
            views(r@) == self.threshold_list(),
            lists_thresholds(views(r@), self.thresholds()),
    {
        self.thresholds.facts();
        let items = self.thresholds.as_vec();
        let r = dup_vec(items);
        proof {
            let s = views(r@);
            assert(self.thresholds().dom() =~= self.thresholds.map().dom());
            assert forall|i: int| 0 <= i < s.len() implies #[trigger] self.thresholds().dom().contains(s[i].id) && self.thresholds()[s[i].id] == s[i] by {
                assert(self.thresholds.map().dom().contains(items@[i].key_view()));
            }
            assert forall|i: int, j: int| 0 <= i < s.len() && 0 <= j < s.len() && i != j implies #[trigger] s[i].id != #[trigger] s[j].id by {
                assert(items@[i].key_view() != items@[j].key_view());
            }
        }
        r
    }

    /// Replaces the threshold with the same id by `threshold`; fails if there is none.
    pub fn update_threshold(&mut self, threshold: AlertThreshold) -> (r: Result<(), AlertError>)
        ensures
            match r {
                Ok(()) => old(self).thresholds().dom().contains(threshold.id@)
                    && final(self).thresholds() == old(self).thresholds().insert(threshold.id@, threshold@),
                Err(e) => !old(self).thresholds().dom().contains(threshold.id@)
                    && (e matches AlertError::ThresholdNotFound(x) && x@ == threshold.id@)
                    && final(self).thresholds() == old(self).thresholds(),
            },
            final(self).history() == old(self).history(),
            final(self).cooldowns() == old(self).cooldowns(),
            final(self).rules() == old(self).rules(),
            final(self).max_history() == old(self).max_history(),
    {
        if self.thresholds.find(threshold.id.as_str()).is_none() {
            return Err(AlertError::ThresholdNotFound(threshold.id.clone()));
        }
        let _ = self.add_threshold(threshold);
        Ok(())
    }

    fn set_threshold_enabled(&mut self, id: &str, enabled: bool) -> (r: Result<(), AlertError>)
        ensures
            match r {
                Ok(()) => old(self).thresholds().dom().contains(id@)
                    && final(self).thresholds() == old(self).thresholds().insert(id@, ThresholdView { enabled, ..old(self).thresholds()[id@] }),
                Err(e) => !old(self).thresholds().dom().contains(id@) && (e matches AlertError::ThresholdNotFound(x) && x@ == id@)
                    && final(self).thresholds() == old(self).thresholds(),
            },
            final(self).history() == old(self).history(),
            final(self).cooldowns() == old(self).cooldowns(),
            final(self).rules() == old(self).rules(),
            final(self).max_history() == old(self).max_history(),
    {
        match self.thresholds.remove(id) {
            Some(mut t) => {
                proof { lemma_store_keys(old(self).thresholds); }
                t.enabled = enabled;
                self.thresholds.upsert(t);
                assert(self.thresholds() =~= old(self).thresholds().insert(id@, ThresholdView { enabled, ..old(self).thresholds()[id@] }));
                Ok(())
            }
            None => Err(AlertError::ThresholdNotFound(owned(id))),
        }
    }

    /// Turns the threshold with id `id` on; fails if there is none.
    pub fn enable_threshold(&mut self, id: &str) -> (r: Result<(), AlertError>)
        ensures
            match r {
                Ok(()) => old(self).thresholds().dom().contains(id@)
                    && final(self).thresholds() == old(self).thresholds().insert(id@, ThresholdView { enabled: true, ..old(self).thresholds()[id@] }),
                Err(e) => !old(self).thresholds().dom().contains(id@) && (e matches AlertError::ThresholdNotFound(x) && x@ == id@)
                    && final(self).thresholds() == old(self).thresholds(),
            },
            final(self).history() == old(self).history(),
            final(self).cooldowns() == old(self).cooldowns(),
            final(self).rules() == old(self).rules(),
            final(self).max_history() == old(self).max_history(),
    {
        self.set_threshold_enabled(id, true)
    }

    /// Turns the threshold with id `id` off; fails if there is none.
    pub fn disable_threshold(&mut self, id: &str) -> (r: Result<(), AlertError>)
        ensures
            match r {
                Ok(()) => old(self).thresholds().dom().contains(id@)
                    && final(self).thresholds() == old(self).thresholds().insert(id@, ThresholdView { enabled: false, ..old(self).thresholds()[id@] }),
                Err(e) => !old(self).thresholds().dom().contains(id@) && (e matches AlertError::ThresholdNotFound(x) && x@ == id@)
                    && final(self).thresholds() == old(self).thresholds(),
            },
            final(self).history() == old(self).history(),
            final(self).cooldowns() == old(self).cooldowns(),
            final(self).rules() == old(self).rules(),
            final(self).max_history() == old(self).max_history(),
    {
        self.set_threshold_enabled(id, false)
    }

    /// Checks `value_bits` of metric `metric_type` at `now` against the
    /// thresholds in order (see `check_step`): `near` answers for `Equal`
    /// whether two doubles differ by less than machine epsilon, and `render`
    /// writes a double out (with two decimals when asked).
    pub fn check_threshold_at<W: Fn(u64, u64) -> bool, R: Fn(u64, bool) -> String>(
        &mut self,
        metric_type: MetricType,
        value_bits: u64,
        near: &W,
        render: &R,
        now: u64,
    ) -> (r: Option<Alert>)
        requires
            forall|a: u64, b: u64| #[trigger] near.requires((a, b)),
            forall|b: u64, f: bool| #[trigger] render.requires((b, f)),
        ensures
            check_step(*near, *render, old(self).threshold_list(), old(self).cooldowns(), metric_type, value_bits, now,
                final(self).cooldowns(), opt_alert(r)),
            final(self).thresholds() == old(self).thresholds(),
            final(self).threshold_list() == old(self).threshold_list(),
            final(self).history() == old(self).history(),
            final(self).rules() == old(self).rules(),
            final(self).max_history() == old(self).max_history(),
    {
        let ghost ts = self.threshold_list();
        let n = self.thresholds.len();
        let mut i: usize = 0;
        while i < n
            invariant
                n == self.thresholds.items().len(),
                ts == self.threshold_list(),
                *self == *old(self),
                forall|a: u64, b: u64| #[trigger] near.requires((a, b)),
                forall|b: u64, f: bool| #[trigger] render.requires((b, f)),
                i <= n,
                forall|j: int| 0 <= j < i ==> #[trigger] skipped(*near, ts[j], metric_type, value_bits),
            decreases n - i,
        {
            let t = &self.thresholds.as_vec()[i];
            assert(t@ == ts[i as int]);
            if t.enabled && t.metric_type == metric_type && check_with(near, value_bits, t.operator, t.threshold_value_bits) {
                let cooling_now = match self.cooldown_tracker.get(t.id.as_str()) {
                    Some(c) => cooling(c.at, t.cooldown_seconds, now),
                    None => false,
                };
                if cooling_now {
                    proof {
                        assert(in_cooldown(old(self).cooldowns(), ts[i as int], now));
                        assert(ts[i as int].enabled && ts[i as int].metric_type == metric_type
                            && holds_with(*near, value_bits, ts[i as int].operator, ts[i as int].threshold_value_bits)
                            && (forall|j: int| 0 <= j < i ==> #[trigger] skipped(*near, ts[j], metric_type, value_bits))
                            && in_cooldown(old(self).cooldowns(), ts[i as int], now));
                    }
                    return None;
                }
                let a = raise(render, t, value_bits, now);
                let id = t.id.clone();
                self.cooldown_tracker.upsert(Cooldown { threshold_id: id, at: now });
                assert(self.cooldowns() =~= old(self).cooldowns().insert(ts[i as int].id, now));
                proof {
                    assert(!in_cooldown(old(self).cooldowns(), ts[i as int], now));
                    assert(ts[i as int].enabled && ts[i as int].metric_type == metric_type
                        && holds_with(*near, value_bits, ts[i as int].operator, ts[i as int].threshold_value_bits)
                        && (forall|j: int| 0 <= j < i ==> #[trigger] skipped(*near, ts[j], metric_type, value_bits))
                        && !in_cooldown(old(self).cooldowns(), ts[i as int], now)
                        && self.cooldowns() == old(self).cooldowns().insert(ts[i as int].id, now)
                        && raised_by(*render, a@, ts[i as int], value_bits, now));
                }
                return Some(a);
            }
            assert(skipped(*near, ts[i as int], metric_type, value_bits));
            i = i + 1;
        }
        None
    }

    /// `check_threshold_at` at the current time.
    pub fn check_threshold<W: Fn(u64, u64) -> bool, R: Fn(u64, bool) -> String>(
        &mut self,
        metric_type: MetricType,
        value_bits: u64,
        near: &W,
        render: &R,
    ) -> (r: Option<Alert>)
        requires
            forall|a: u64, b: u64| #[trigger] near.requires((a, b)),
            forall|b: u64, f: bool| #[trigger] render.requires((b, f)),
        ensures
            exists|now: u64| check_step(*near, *render, old(self).threshold_list(), old(self).cooldowns(), metric_type, value_bits, now,
                final(self).cooldowns(), opt_alert(r)),
            final(self).thresholds() == old(self).thresholds(),
            final(self).threshold_list() == old(self).threshold_list(),
            final(self).history() == old(self).history(),
            final(self).rules() == old(self).rules(),
            final(self).max_history() == old(self).max_history(),
    {
        self.check_threshold_at(metric_type, value_bits, near, render, now_millis_unsigned())
    }

    /// Checks each measured metric in turn, as `check_threshold_at` does, and
    /// gives the alerts raised, in order.
    pub fn check_all_thresholds_at<W: Fn(u64, u64) -> bool, R: Fn(u64, bool) -> String>(
        &mut self,
        metrics: &Vec<(MetricType, u64)>,
        near: &W,
        render: &R,
        now: u64,
    ) -> (r: Vec<Alert>)
        requires
            forall|a: u64, b: u64| #[trigger] near.requires((a, b)),
            forall|b: u64, f: bool| #[trigger] render.requires((b, f)),
        ensures
            checked_all(*near, *render, old(self).threshold_list(), old(self).cooldowns(), metrics@, now,
                final(self).cooldowns(), views(r@)),
            final(self).thresholds() == old(self).thresholds(),
            final(self).threshold_list() == old(self).threshold_list(),
            final(self).history() == old(self).history(),
            final(self).rules() == old(self).rules(),
            final(self).max_history() == old(self).max_history(),
    {
        let n = metrics.len();
        let mut r: Vec<Alert> = Vec::new();
        let ghost mut states: Seq<Map<Seq<char>, u64>> = seq![self.cooldowns()];
        let ghost mut outs: Seq<Option<AlertView>> = seq![];
        let mut i: usize = 0;
        while i < n
            invariant
                n == metrics@.len(),
                i <= n,
                forall|a: u64, b: u64| #[trigger] near.requires((a, b)),
                forall|b: u64, f: bool| #[trigger] render.requires((b, f)),
                states.len() == i + 1,
                outs.len() == i,
                states[0] == old(self).cooldowns(),
                states[i as int] == self.cooldowns(),
                forall|k: int| 0 <= k < i ==> #[trigger] check_step(*near, *render, old(self).threshold_list(),
                    states[k], metrics@[k].0, metrics@[k].1, now, states[k + 1], outs[k]),
                views(r@) == raised(outs),
                self.thresholds() == old(self).thresholds(),
                self.threshold_list() == old(self).threshold_list(),
                self.history() == old(self).history(),
                self.rules() == old(self).rules(),
                self.max_history() == old(self).max_history(),
            decreases n - i,
        {
            let (m, v) = metrics[i];
            let o = self.check_threshold_at(m, v, near, render, now);
            let ghost ov = opt_alert(o);
            proof {
                let s0 = states;
                let o0 = outs;
                states = states.push(self.cooldowns());
                outs = outs.push(ov);
                assert(outs.drop_last() =~= o0);
                assert forall|k: int| 0 <= k < i + 1 implies #[trigger] check_step(*near, *render, old(self).threshold_list(),
                    states[k], metrics@[k].0, metrics@[k].1, now, states[k + 1], outs[k]) by {
                    if k < i {
                        assert(states[k] == s0[k]);
                        assert(states[k + 1] == s0[k + 1]);
                        assert(outs[k] == o0[k]);
                    }
                }
            }
            match o {
                Some(a) => {
                    let ghost before = views(r@);
                    r.push(a);
                    assert(views(r@) =~= before.push(ov.unwrap()));
                }
                None => {}
            }
            i = i + 1;
        }
        r
    }

    /// `check_all_thresholds_at` at the current time.
    pub fn check_all_thresholds<W: Fn(u64, u64) -> bool, R: Fn(u64, bool) -> String>(
        &mut self,
        metrics: &Vec<(MetricType, u64)>,
        near: &W,
        render: &R,
    ) -> (r: Vec<Alert>)
        requires
            forall|a: u64, b: u64| #[trigger] near.requires((a, b)),
            forall|b: u64, f: bool| #[trigger] render.requires((b, f)),
        ensures
            exists|now: u64| checked_all(*near, *render, old(self).threshold_list(), old(self).cooldowns(), metrics@, now,
                final(self).cooldowns(), views(r@)),
            final(self).thresholds() == old(self).thresholds(),
            final(self).threshold_list() == old(self).threshold_list(),
            final(self).history() == old(self).history(),
            final(self).rules() == old(self).rules(),
            final(self).max_history() == old(self).max_history(),
    {
        self.check_all_thresholds_at(metrics, near, render, now_millis_unsigned())
    }

    /// Appends `alert` to the history, the oldest making way at the bound.
    pub fn record_alert(&mut self, alert: Alert)
        ensures
            final(self).history() == bounded_push(old(self).history(), old(self).max_history(), alert@),
            final(self).thresholds() == old(self).thresholds(),
            final(self).threshold_list() == old(self).threshold_list(),
            final(self).cooldowns() == old(self).cooldowns(),
            final(self).rules() == old(self).rules(),
            final(self).max_history() == old(self).max_history(),
    {
        let ghost before = self.history();
        let ghost av = alert@;
        if self.alert_history.len() >= self.max_history_size && self.alert_history.len() > 0 {
            let _ = self.alert_history.remove(0);
            assert(views(self.alert_history@) =~= before.drop_first());
        }
        let ghost mid = views(self.alert_history@);
        self.alert_history.push(alert);
        assert(self.history() =~= mid.push(av));
    }

    /// Marks the oldest recorded alert with id `alert_id` acknowledged by
    /// `acknowledged_by` at `now` and returns a copy of it; fails if there is none.
    pub fn acknowledge_alert_at(&mut self, alert_id: &str, acknowledged_by: &str, now: u64) -> (r: Result<Alert, AlertError>)
        ensures
            match r {
                Ok(a) => exists|i: int| 0 <= i < old(self).history().len() && #[trigger] old(self).history()[i].id == alert_id@
                    && (forall|j: int| 0 <= j < i ==> #[trigger] old(self).history()[j].id != alert_id@)
                    && final(self).history() == acknowledged_at(old(self).history(), i, acknowledged_by@, now)
                    && a@ == final(self).history()[i],
                Err(e) => (e matches AlertError::AlertNotFound(x) && x@ == alert_id@) && final(self).history() == old(self).history()
                    && forall|i: int| 0 <= i < old(self).history().len() ==> #[trigger] old(self).history()[i].id != alert_id@,
            },
            final(self).thresholds() == old(self).thresholds(),
            final(self).threshold_list() == old(self).threshold_list(),
            final(self).cooldowns() == old(self).cooldowns(),
            final(self).rules() == old(self).rules(),
            final(self).max_history() == old(self).max_history(),
    {
        let n = self.alert_history.len();
        let mut i: usize = 0;
        while i < n
            invariant
                n == self.alert_history@.len(),
                *self == *old(self),
                i <= n,
                forall|j: int| 0 <= j < i ==> #[trigger] self.history()[j].id != alert_id@,
            decreases n - i,
        {
            if crate::text::str_eq(self.alert_history[i].id.as_str(), alert_id) {
                let mut a = self.alert_history[i].dup();
                a.acknowledged = true;
                a.acknowledged_by = Some(owned(acknowledged_by));
                a.acknowledged_at = Some(now);
                let copy = a.dup();
                let ghost h = self.history();
                self.alert_history.set(i, a);
                assert(self.history() =~= acknowledged_at(h, i as int, acknowledged_by@, now));
                assert(old(self).history()[i as int].id == alert_id@);
                return Ok(copy);
            }
            assert(self.history()[i as int].id != alert_id@);
            i = i + 1;
        }
        Err(AlertError::AlertNotFound(owned(alert_id)))
    }

    /// `acknowledge_alert_at` at the current time.
    pub fn acknowledge_alert(&mut self, alert_id: &str, acknowledged_by: &str) -> (r: Result<Alert, AlertError>)
        ensures
            match r {
                Ok(a) => exists|i: int, now: u64| #![trigger acknowledged_at(old(self).history(), i, acknowledged_by@, now)]
                    0 <= i < old(self).history().len() && old(self).history()[i].id == alert_id@
                    && (forall|j: int| 0 <= j < i ==> #[trigger] old(self).history()[j].id != alert_id@)
                    && final(self).history() == acknowledged_at(old(self).history(), i, acknowledged_by@, now)
                    && a@ == final(self).history()[i],
                Err(e) => (e matches AlertError::AlertNotFound(x) && x@ == alert_id@) && final(self).history() == old(self).history()
                    && forall|i: int| 0 <= i < old(self).history().len() ==> #[trigger] old(self).history()[i].id != alert_id@,
            },
            final(self).thresholds() == old(self).thresholds(),
            final(self).threshold_list() == old(self).threshold_list(),
            final(self).cooldowns() == old(self).cooldowns(),
            final(self).rules() == old(self).rules(),
            final(self).max_history() == old(self).max_history(),
    {
        self.acknowledge_alert_at(alert_id, acknowledged_by, now_millis_unsigned())
    }

    /// Copies of the recorded alerts not yet acknowledged, oldest first.
    pub fn get_active_alerts(&self) -> (r: Vec<Alert>)
        ensures
            views(r@) == filtered(self.history(), AlertFilter::Unacknowledged),
    {
        select(&self.alert_history, Pick::Unacknowledged)
    }

    /// Copies of the newest `limit` recorded alerts, newest first.
    pub fn get_alert_history(&self, limit: usize) -> (r: Vec<Alert>)
        ensures
            views(r@) == newest(self.history(), limit as nat),
    {
        newest_dup(&self.alert_history, limit)
    }

    /// Copies of the recorded alerts of level `level`, oldest first.
    pub fn get_alerts_by_level(&self, level: AlertLevel) -> (r: Vec<Alert>)
        ensures
            views(r@) == filtered(self.history(), AlertFilter::Level(level)),
    {
        select(&self.alert_history, Pick::Level(level))
    }

    /// Copies of the recorded alerts on metric `metric_type`, oldest first.
    pub fn get_alerts_by_metric(&self, metric_type: &str) -> (r: Vec<Alert>)
        ensures
            views(r@) == filtered(self.history(), AlertFilter::Metric(metric_type@)),
    {
        select(&self.alert_history, Pick::Metric(metric_type))
    }

    /// Forgets every recorded alert.
    pub fn clear_alert_history(&mut self)
        ensures
            final(self).history() == Seq::<AlertView>::empty(),
            final(self).thresholds() == old(self).thresholds(),
            final(self).threshold_list() == old(self).threshold_list(),
            final(self).cooldowns() == old(self).cooldowns(),
            final(self).rules() == old(self).rules(),
            final(self).max_history() == old(self).max_history(),
    {
        self.alert_history = Vec::new();
        assert(self.history() =~= Seq::<AlertView>::empty());
    }

    /// Stores `rule` under its id, replacing any with that id.
    pub fn add_rule(&mut self, rule: AlertRule)
        ensures
            final(self).rules() == old(self).rules().insert(rule.id@, rule@),
            final(self).thresholds() == old(self).thresholds(),
            final(self).threshold_list() == old(self).threshold_list(),
            final(self).history() == old(self).history(),
            final(self).cooldowns() == old(self).cooldowns(),
            final(self).max_history() == old(self).max_history(),
    {
        let ghost rv = rule@;
        self.alert_rules.upsert(rule);
        assert(self.rules() =~= old(self).rules().insert(rv.id, rv));
    }

    /// Takes out the rule with id `id`, if any.
    pub fn remove_rule(&mut self, id: &str) -> (r: Option<AlertRule>)
        ensures
            final(self).rules() == old(self).rules().remove(id@),
            match r {
                Some(x) => old(self).rules().dom().contains(id@) && x@ == old(self).rules()[id@],
                None => !old(self).rules().dom().contains(id@),
            },
            final(self).thresholds() == old(self).thresholds(),
            final(self).threshold_list() == old(self).threshold_list(),
            final(self).history() == old(self).history(),
            final(self).cooldowns() == old(self).cooldowns(),
            final(self).max_history() == old(self).max_history(),
    {
        let r = self.alert_rules.remove(id);
        assert(self.rules() =~= old(self).rules().remove(id@));
        r
    }

    /// Copies of all rules.
    pub fn get_all_rules(&self) -> (r: Vec<AlertRule>)
        ensures
            lists_rules(views(r@), self.rules()),
    {
        self.alert_rules.facts();
        let items = self.alert_rules.as_vec();
        let r = dup_vec(items);
        proof {
            lemma_store_keys(self.alert_rules);
            let s = views(r@);
            assert(self.rules().dom() =~= self.alert_rules.map().dom());
            assert forall|i: int| 0 <= i < s.len() implies #[trigger] self.rules().dom().contains(s[i].id) && self.rules()[s[i].id] == s[i] by {
                assert(self.alert_rules.map().dom().contains(items@[i].key_view()));
            }
            assert forall|i: int, j: int| 0 <= i < s.len() && 0 <= j < s.len() && i != j implies #[trigger] s[i].id != #[trigger] s[j].id by {
                assert(items@[i].key_view() != items@[j].key_view());
            }
        }
        r
    }

    /// Whether `rule` holds for the measured metrics (see `rule_result`);
    /// `near` answers for `Equal` whether two doubles differ by less than
    /// machine epsilon.
    pub fn evaluate_rule<W: Fn(u64, u64) -> bool>(&self, rule: &AlertRule, metrics: &Vec<(MetricType, u64)>, near: &W) -> (b: bool)
        requires
            forall|a: u64, c: u64| #[trigger] near.requires((a, c)),
        ensures
            (!rule.enabled || rule.conditions@.len() == 0) ==> !b,
            (rule.enabled && rule.conditions@.len() > 0) ==> exists|outcomes: Seq<bool>| outcomes.len() == rule.conditions@.len()
                && (forall|k: int| 0 <= k < outcomes.len() ==> #[trigger] condition_outcome(*near, metrics@, rule.conditions@[k]@, outcomes[k]))
                && b == rule_result(rule@, outcomes),
    {
        if !rule.enabled {
            return false;
        }
        let n = rule.conditions.len();
        if n == 0 {
            return false;
        }
        let any = match rule.conditions[0].logical_operator {
            Some(LogicalOperator::Or) => true,
            _ => false,
        };
        let mut acc: bool = !any;
        let ghost mut outcomes: Seq<bool> = seq![];
        let mut i: usize = 0;
        while i < n
            invariant
                n == rule.conditions@.len(),
                i <= n,
                forall|a: u64, c: u64| #[trigger] near.requires((a, c)),
                outcomes.len() == i,
                forall|k: int| 0 <= k < i ==> #[trigger] condition_outcome(*near, metrics@, rule.conditions@[k]@, outcomes[k]),
                any ==> (acc == exists|k: int| 0 <= k < i && #[trigger] outcomes[k]),
                !any ==> (acc == forall|k: int| 0 <= k < i ==> #[trigger] outcomes[k]),
            decreases n - i,
        {
            let c = &rule.conditions[i];
            let res = match find_metric(metrics, c.metric_type) {
                Some(v) => check_with(near, v, c.operator, c.threshold_bits),
                None => false,
            };
            proof {
                let o0 = outcomes;
                outcomes = outcomes.push(res);
                assert forall|k: int| 0 <= k < i + 1 implies #[trigger] condition_outcome(*near, metrics@, rule.conditions@[k]@, outcomes[k]) by {
                    if k < i { assert(outcomes[k] == o0[k]); }
                }
                assert forall|k: int| 0 <= k < i implies outcomes[k] == #[trigger] o0[k] by {}
                if any {
                    if acc {
                        let k0 = choose|k: int| 0 <= k < i && #[trigger] o0[k];
                        assert(outcomes[k0]);
                    } else if !res {
                        assert forall|k: int| 0 <= k < i + 1 implies !#[trigger] outcomes[k] by {
                            if k < i { assert(outcomes[k] == o0[k]); }
                        }
                    }
                    if res { assert(outcomes[i as int]); }
                } else {
                    if !acc {
                        let k0 = choose|k: int| 0 <= k < i && !#[trigger] o0[k];
                        assert(!outcomes[k0]);
                    } else if res {
                        assert forall|k: int| 0 <= k < i + 1 implies #[trigger] outcomes[k] by {
                            if k < i { assert(outcomes[k] == o0[k]); }
                        }
                    } else {
                        assert(!outcomes[i as int]);
                    }
                }
            }
            if any { acc = acc || res; } else { acc = acc && res; }
            i = i + 1;
        }
        proof {
            assert(rule@.conditions[0] == rule.conditions@[0]@);
            assert(outcomes.len() == rule.conditions@.len()
                && (forall|k: int| 0 <= k < outcomes.len() ==> #[trigger] condition_outcome(*near, metrics@, rule.conditions@[k]@, outcomes[k]))
                && acc == rule_result(rule@, outcomes));
        }
        acc
    }

    /// Adds the four standard thresholds, made at `now`: CPU usage above 80
    /// (warning, five-minute cooldown) and above 95 (critical, one minute), and
    /// the same for the memory percentage.
    pub fn create_default_thresholds_at(&mut self, now: u64)
        ensures
            final(self).thresholds() == old(self).thresholds()
                .insert("cpu_warning"@, default_threshold("cpu_warning"@, "CPU Usage Warning"@, MetricType::CpuUsage, EIGHTY, AlertLevel::Warning, 300, now))
                .insert("cpu_critical"@, default_threshold("cpu_critical"@, "CPU Usage Critical"@, MetricType::CpuUsage, NINETY_FIVE, AlertLevel::Critical, 60, now))
                .insert("memory_warning"@, default_threshold("memory_warning"@, "Memory Usage Warning"@, MetricType::MemoryPercent, EIGHTY, AlertLevel::Warning, 300, now))
                .insert("memory_critical"@, default_threshold("memory_critical"@, "Memory Usage Critical"@, MetricType::MemoryPercent, NINETY_FIVE, AlertLevel::Critical, 60, now)),
            final(self).history() == old(self).history(),
            final(self).cooldowns() == old(self).cooldowns(),
            final(self).rules() == old(self).rules(),
            final(self).max_history() == old(self).max_history(),
    {
        let _ = self.add_threshold(make_default("cpu_warning", "CPU Usage Warning", MetricType::CpuUsage, EIGHTY, AlertLevel::Warning, 300, now));
        let _ = self.add_threshold(make_default("cpu_critical", "CPU Usage Critical", MetricType::CpuUsage, NINETY_FIVE, AlertLevel::Critical, 60, now));
        let _ = self.add_threshold(make_default("memory_warning", "Memory Usage Warning", MetricType::MemoryPercent, EIGHTY, AlertLevel::Warning, 300, now));
        let _ = self.add_threshold(make_default("memory_critical", "Memory Usage Critical", MetricType::MemoryPercent, NINETY_FIVE, AlertLevel::Critical, 60, now));
    }

    /// `create_default_thresholds_at` at the current time.
    pub fn create_default_thresholds(&mut self)
        ensures
            exists|now: u64| final(self).thresholds() == old(self).thresholds()
                .insert("cpu_warning"@, default_threshold("cpu_warning"@, "CPU Usage Warning"@, MetricType::CpuUsage, EIGHTY, AlertLevel::Warning, 300, now))
                .insert("cpu_critical"@, default_threshold("cpu_critical"@, "CPU Usage Critical"@, MetricType::CpuUsage, NINETY_FIVE, AlertLevel::Critical, 60, now))
                .insert("memory_warning"@, default_threshold("memory_warning"@, "Memory Usage Warning"@, MetricType::MemoryPercent, EIGHTY, AlertLevel::Warning, 300, now))
                .insert("memory_critical"@, default_threshold("memory_critical"@, "Memory Usage Critical"@, MetricType::MemoryPercent, NINETY_FIVE, AlertLevel::Critical, 60, now)),
            final(self).history() == old(self).history(),
            final(self).cooldowns() == old(self).cooldowns(),
            final(self).rules() == old(self).rules(),
            final(self).max_history() == old(self).max_history(),
    {
        self.create_default_thresholds_at(now_millis_unsigned())
    }
}

/// The bit pattern of the double 80.0.
pub const EIGHTY: u64 = 0x4054_0000_0000_0000;
/// The bit pattern of the double 95.0.
pub const NINETY_FIVE: u64 = 0x4057_c000_0000_0000;

/// An enabled "greater than" threshold made at `t`.
pub open spec fn default_threshold(id: Seq<char>, name: Seq<char>, m: MetricType, bits: u64, level: AlertLevel, cooldown: u64, t: u64) -> ThresholdView {
    ThresholdView {
        id,
        name,
        metric_type: m,
        operator: ThresholdOperator::GreaterThan,
        threshold_value_bits: bits,
        alert_level: level,
        enabled: true,
        cooldown_seconds: cooldown,
        created_at: t,
    }
}

fn make_default(id: &str, name: &str, m: MetricType, bits: u64, level: AlertLevel, cooldown: u64, t: u64) -> (r: AlertThreshold)
    ensures
        r@ == default_threshold(id@, name@, m, bits, level, cooldown, t),
{
    AlertThreshold {
        id: owned(id),
        name: owned(name),
        metric_type: m,
        operator: ThresholdOperator::GreaterThan,
        threshold_value_bits: bits,
        alert_level: level,
        enabled: true,
        cooldown_seconds: cooldown,
        created_at: t,
    }
}

// ---------------------------------------------------------------------------
// Laws
// ---------------------------------------------------------------------------

/// The caller's epsilon comparison answers each pair of doubles one way only.
pub open spec fn consistent<W: Fn(u64, u64) -> bool>(near: W) -> bool {
    forall|a: u64, b: u64, r1: bool, r2: bool| #[trigger] near.ensures((a, b), r1) && #[trigger] near.ensures((a, b), r2) ==> r1 == r2
}

proof fn lemma_fire_exclusive<W: Fn(u64, u64) -> bool>(near: W, t: ThresholdView, m: MetricType, v: u64)
    requires
        consistent(near),
        t.enabled && t.metric_type == m && holds_with(near, v, t.operator, t.threshold_value_bits),
    ensures
        !skipped(near, t, m, v),
{
    if t.operator == ThresholdOperator::Equal {
        if near.ensures((v, t.threshold_value_bits), false) {
            assert(near.ensures((v, t.threshold_value_bits), true));
        }
    }
}

/// A threshold that has just raised an alert stays quiet while its cooldown
/// lasts: checking the same value of the same metric again, before every
/// threshold's cooldown is over, raises nothing and leaves the cooldowns as they
/// are (given an epsilon comparison that answers consistently).
pub proof fn law_cooldown_silences_repeat<W: Fn(u64, u64) -> bool, R: Fn(u64, bool) -> String>(
    near: W,
    render: R,
    ts: Seq<ThresholdView>,
    cd: Map<Seq<char>, u64>,
    m: MetricType,
    v: u64,
    now: u64,
    cd2: Map<Seq<char>, u64>,
    a: AlertView,
    now2: u64,
    cd3: Map<Seq<char>, u64>,
    out2: Option<AlertView>,
)
    requires
        consistent(near),
        check_step(near, render, ts, cd, m, v, now, cd2, Some(a)),
        check_step(near, render, ts, cd2, m, v, now2, cd3, out2),
        now <= now2,
        forall|j: int| 0 <= j < ts.len() ==> (#[trigger] ts[j]).cooldown_seconds <= i64::MAX
            && (now2 - now) / 1000 < ts[j].cooldown_seconds,
    ensures
        out2 is None,
        cd3 == cd2,
{
    let i = choose|i: int| 0 <= i < ts.len() && #[trigger] ts[i].enabled && ts[i].metric_type == m
        && holds_with(near, v, ts[i].operator, ts[i].threshold_value_bits)
        && (forall|j: int| 0 <= j < i ==> #[trigger] skipped(near, ts[j], m, v))
        && !in_cooldown(cd, ts[i], now)
        && cd2 == cd.insert(ts[i].id, now)
        && raised_by(render, a, ts[i], v, now);
    assert(ts[i].cooldown_seconds <= i64::MAX);
    assert(in_cooldown(cd2, ts[i], now2));
    lemma_fire_exclusive(near, ts[i], m, v);
    if out2 is Some || cd3 != cd2 {
        if out2 is Some {
            let i2 = choose|i2: int| 0 <= i2 < ts.len() && #[trigger] ts[i2].enabled && ts[i2].metric_type == m
                && holds_with(near, v, ts[i2].operator, ts[i2].threshold_value_bits)
                && (forall|j: int| 0 <= j < i2 ==> #[trigger] skipped(near, ts[j], m, v))
                && !in_cooldown(cd2, ts[i2], now2)
                && cd3 == cd2.insert(ts[i2].id, now2)
                && raised_by(render, out2.unwrap(), ts[i2], v, now2);
            lemma_fire_exclusive(near, ts[i2], m, v);
            if i2 < i {
                assert(skipped(near, ts[i2], m, v));
            } else if i < i2 {
                assert(skipped(near, ts[i], m, v));
            }
        }
    }
}

/// Recording an alert never takes the history past its bound (when the bound
/// is at least one), and the alert just recorded is the newest.
pub proof fn law_alert_history_bounded(m1: AlertManager, m2: AlertManager, x: AlertView)
    requires
        m2.history() == bounded_push(m1.history(), m1.max_history(), x),
        m1.max_history() > 0,
        m1.history().len() <= m1.max_history(),
    ensures
        m2.history().len() <= m1.max_history(),
        newest(m2.history(), 1) == seq![x],
{
    assert(newest(m2.history(), 1) =~= seq![x]);
}

proof fn lemma_filtered_update(s: Seq<AlertView>, i: int, x: AlertView)
    requires
        0 <= i < s.len(),
    ensures
        filtered(s.update(i, x), AlertFilter::Unacknowledged).len() + (if kept_by(AlertFilter::Unacknowledged, s[i]) { 1int } else { 0int })
            == filtered(s, AlertFilter::Unacknowledged).len() + (if kept_by(AlertFilter::Unacknowledged, x) { 1int } else { 0int }),
    decreases s.len(),
{
    let f = AlertFilter::Unacknowledged;
    let u = s.update(i, x);
    if i == s.len() - 1 {
        assert(u.drop_last() =~= s.drop_last());
    } else {
        assert(u.drop_last() =~= s.drop_last().update(i, x));
        lemma_filtered_update(s.drop_last(), i, x);
    }
}

/// Acknowledging an alert that was active takes exactly one alert off the
/// list of active alerts.
pub proof fn law_acknowledge_retires_one(m1: AlertManager, m2: AlertManager, i: int, by: Seq<char>, now: u64)
    requires
        0 <= i < m1.history().len(),
        !m1.history()[i].acknowledged,
        m2.history() == acknowledged_at(m1.history(), i, by, now),
    ensures
        filtered(m2.history(), AlertFilter::Unacknowledged).len() + 1 == filtered(m1.history(), AlertFilter::Unacknowledged).len(),
{
    lemma_filtered_update(m1.history(), i, AlertView { acknowledged: true, acknowledged_by: Some(by), acknowledged_at: Some(now), ..m1.history()[i] });
}

/// Each ordering operator compares the measured value with the threshold the
/// way its name reads, value on the left: `LessThanOrEqual` holds exactly when
/// the value is at most the threshold, `GreaterThanOrEqual` when it is at
/// least the threshold, and the strict ones likewise; with a NaN on either
/// side none of them holds. Between two non-negative doubles (NaN excluded)
/// the order is that of their bit patterns. `Equal` is the caller's finding.
pub proof fn law_operators_read_value_op_threshold(value: u64, threshold: u64, near: bool)
    ensures
        !bits_is_nan(value) && !bits_is_nan(threshold) ==> {
            &&& condition_holds(value, ThresholdOperator::LessThanOrEqual, threshold, near) == (bits_rank(value) <= bits_rank(threshold))
            &&& condition_holds(value, ThresholdOperator::LessThan, threshold, near) == (bits_rank(value) < bits_rank(threshold))
            &&& condition_holds(value, ThresholdOperator::GreaterThanOrEqual, threshold, near) == (bits_rank(value) >= bits_rank(threshold))
            &&& condition_holds(value, ThresholdOperator::GreaterThan, threshold, near) == (bits_rank(value) > bits_rank(threshold))
        },
        bits_is_nan(value) || bits_is_nan(threshold) ==> {
            &&& !condition_holds(value, ThresholdOperator::LessThanOrEqual, threshold, near)
            &&& !condition_holds(value, ThresholdOperator::LessThan, threshold, near)
            &&& !condition_holds(value, ThresholdOperator::GreaterThanOrEqual, threshold, near)
            &&& !condition_holds(value, ThresholdOperator::GreaterThan, threshold, near)
        },
        value <= 0x7ff0_0000_0000_0000 && threshold <= 0x7ff0_0000_0000_0000 ==> {
            &&& condition_holds(value, ThresholdOperator::LessThanOrEqual, threshold, near) == (value <= threshold)
            &&& condition_holds(value, ThresholdOperator::LessThan, threshold, near) == (value < threshold)
            &&& condition_holds(value, ThresholdOperator::GreaterThanOrEqual, threshold, near) == (value >= threshold)
            &&& condition_holds(value, ThresholdOperator::GreaterThan, threshold, near) == (value > threshold)
        },
        condition_holds(value, ThresholdOperator::Equal, threshold, near) == near,
{
}

} // verus!
