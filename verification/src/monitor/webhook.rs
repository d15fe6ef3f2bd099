//! Outgoing alert notifications: webhook configurations with their filters,
//! the message bodies written for Discord, Slack and Teams, and the record of
//! deliveries. Sending over the network is done by the caller: this module
//! decides whether and what to send, and keeps what came of it. Measured values
//! are carried as the bit patterns of IEEE doubles; the caller also supplies
//! their two-decimal renderings. Times are milliseconds since the epoch.
use vstd::prelude::*;
use crate::keyed::{Keyed, Store, lemma_store_keys};
use crate::ids::{new_uuid_string, is_hyphenated_uuid};
use crate::text::{owned, opt_view, copy_opt_string, copy_strings, strings_view, contains_str};
use crate::clock::{now_millis_unsigned, utc_text, format_utc};
use crate::monitor::types::{Alert, AlertLevel, double_lt, double_less};
use crate::monitor::deadlock::bounded_push;
use crate::monitor::silence::copy_config;
use crate::monitor::dashboard::view_map;
use crate::security::audit_log::newest;
use crate::dup::{Duplicate, views, newest_dup};

verus! {

/// Why a webhook operation was refused.
#[derive(Debug)]
pub enum WebhookError {
    NotFound(String),
    SendFailed(String),
    InvalidConfig(String),
}

/// The service a webhook posts to.
#[derive(Clone, Copy, PartialEq, Eq, Structural, Debug)]
pub enum WebhookType {
    Discord,
    Slack,
    Teams,
    Telegram,
    Email,
    Generic,
    Custom,
}

/// The name of a webhook type, capitalised as its variant.
pub open spec fn kind_name(t: WebhookType) -> Seq<char> {
    match t {
        WebhookType::Discord => "Discord"@,
        WebhookType::Slack => "Slack"@,
        WebhookType::Teams => "Teams"@,
        WebhookType::Telegram => "Telegram"@,
        WebhookType::Email => "Email"@,
        WebhookType::Generic => "Generic"@,
        WebhookType::Custom => "Custom"@,
    }
}

impl WebhookType {
    /// The name of the type, capitalised as its variant.
    pub fn name(&self) -> (s: &'static str)
        ensures
            s@ == kind_name(*self),
    {
        match self {
            WebhookType::Discord => "Discord",
            WebhookType::Slack => "Slack",
            WebhookType::Teams => "Teams",
            WebhookType::Telegram => "Telegram",
            WebhookType::Email => "Email",
            WebhookType::Generic => "Generic",
            WebhookType::Custom => "Custom",
        }
    }
}

/// Which alerts a webhook is told of; each filter given must pass. The
/// minimum value is the bit pattern of a double.
pub struct WebhookFilters {
    pub alert_levels: Option<Vec<String>>,
    pub metric_types: Option<Vec<String>>,
    pub min_value_bits: Option<u64>,
    pub pattern: Option<String>,
}

/// The plain content of webhook filters.
pub struct FiltersView {
    pub alert_levels: Option<Seq<Seq<char>>>,
    pub metric_types: Option<Seq<Seq<char>>>,
    pub min_value_bits: Option<u64>,
    pub pattern: Option<Seq<char>>,
}

/// The plain content of optional strings.
pub open spec fn opt_strings(o: Option<Vec<String>>) -> Option<Seq<Seq<char>>> {
    match o {
        Some(v) => Some(strings_view(v@)),
        None => None,
    }
}

impl View for WebhookFilters {
    type V = FiltersView;

    open spec fn view(&self) -> FiltersView {
        FiltersView {
            alert_levels: opt_strings(self.alert_levels),
            metric_types: opt_strings(self.metric_types),
            min_value_bits: self.min_value_bits,
            pattern: opt_view(self.pattern),
        }
    }
}

/// Filters that let every alert through.
pub open spec fn no_filters() -> FiltersView {
    FiltersView { alert_levels: None, metric_types: None, min_value_bits: None, pattern: None }
}

impl Default for WebhookFilters {
    fn default() -> (f: WebhookFilters)
        ensures
            f@ == no_filters(),
    {
        WebhookFilters { alert_levels: None, metric_types: None, min_value_bits: None, pattern: None }
    }
}

fn copy_opt_strings(o: &Option<Vec<String>>) -> (r: Option<Vec<String>>)
    ensures
        opt_strings(r) == opt_strings(*o),
{
    match o {
        Some(v) => Some(copy_strings(v)),
        None => None,
    }
}

impl Duplicate for WebhookFilters {
    fn dup(&self) -> (r: WebhookFilters) {
        WebhookFilters {
            alert_levels: copy_opt_strings(&self.alert_levels),
            metric_types: copy_opt_strings(&self.metric_types),
            min_value_bits: self.min_value_bits,
            pattern: copy_opt_string(&self.pattern),
        }
    }
}

/// Where and how to post notifications. Extra headers are name and value pairs.
pub struct WebhookConfig {
    pub id: String,
    pub name: String,
    pub url: String,
    pub webhook_type: WebhookType,
    pub enabled: bool,
    pub secret: Option<String>,
    pub headers: Vec<(String, String)>,
    pub retry_count: u32,
    pub retry_delay_ms: u64,
    pub timeout_secs: u64,
    pub filters: WebhookFilters,
    pub created_at: u64,
    pub updated_at: u64,
}

/// The plain content of a webhook configuration.
pub struct ConfigView {
    pub id: Seq<char>,
    pub name: Seq<char>,
    pub url: Seq<char>,
    pub webhook_type: WebhookType,
    pub enabled: bool,
    pub secret: Option<Seq<char>>,
    pub headers: Seq<(Seq<char>, Seq<char>)>,
    pub retry_count: u32,
    pub retry_delay_ms: u64,
    pub timeout_secs: u64,
    pub filters: FiltersView,
    pub created_at: u64,
    pub updated_at: u64,
}

impl View for WebhookConfig {
    type V = ConfigView;

    open spec fn view(&self) -> ConfigView {
        ConfigView {
            id: self.id@,
            name: self.name@,
            url: self.url@,
            webhook_type: self.webhook_type,
            enabled: self.enabled,
            secret: opt_view(self.secret),
            headers: self.headers@.map_values(|p: (String, String)| (p.0@, p.1@)),
            retry_count: self.retry_count,
            retry_delay_ms: self.retry_delay_ms,
            timeout_secs: self.timeout_secs,
            filters: self.filters@,
            created_at: self.created_at,
            updated_at: self.updated_at,
        }
    }
}

/// The headers a delivery to `c` carries: the JSON content type, the
/// configured headers in order, then the secret when there is one.
pub open spec fn request_headers_of(c: ConfigView) -> Seq<(Seq<char>, Seq<char>)> {
    seq![("Content-Type"@, "application/json"@)] + c.headers + match c.secret {
        Some(s) => seq![("X-Webhook-Secret"@, s)],
        None => Seq::empty(),
    }
}

impl WebhookConfig {
    /// The headers of a delivery to this webhook (see `request_headers_of`).
    pub fn request_headers(&self) -> (h: Vec<(String, String)>)
        ensures
            h@.map_values(|p: (String, String)| (p.0@, p.1@)) == request_headers_of(self@),
    {
        let mut h: Vec<(String, String)> = Vec::new();
        h.push((owned("Content-Type"), owned("application/json")));
        let ghost first = h@.map_values(|p: (String, String)| (p.0@, p.1@));
        assert(first =~= seq![("Content-Type"@, "application/json"@)]);
        let mut rest = copy_config(&self.headers);
        let ghost mid = rest@.map_values(|p: (String, String)| (p.0@, p.1@));
        h.append(&mut rest);
        assert(h@.map_values(|p: (String, String)| (p.0@, p.1@)) =~= first + mid);
        match &self.secret {
            Some(s) => {
                let ghost before = h@.map_values(|p: (String, String)| (p.0@, p.1@));
                h.push((owned("X-Webhook-Secret"), s.clone()));
                assert(h@.map_values(|p: (String, String)| (p.0@, p.1@)) =~= before + seq![("X-Webhook-Secret"@, s@)]);
            }
            None => {
                assert(h@.map_values(|p: (String, String)| (p.0@, p.1@)) =~= first + mid + Seq::empty());
            }
        }
        h
    }
}

impl Duplicate for WebhookConfig {
    fn dup(&self) -> (r: WebhookConfig) {
        WebhookConfig {
            id: self.id.clone(),
            name: self.name.clone(),
            url: self.url.clone(),
            webhook_type: self.webhook_type,
            enabled: self.enabled,
            secret: copy_opt_string(&self.secret),
            headers: copy_config(&self.headers),
            retry_count: self.retry_count,
            retry_delay_ms: self.retry_delay_ms,
            timeout_secs: self.timeout_secs,
            filters: self.filters.dup(),
            created_at: self.created_at,
            updated_at: self.updated_at,
        }
    }
}

impl Keyed for WebhookConfig {
    open spec fn key_view(&self) -> Seq<char> {
        self.id@
    }

    fn key_str(&self) -> (r: &str) {
        self.id.as_str()
    }
}

/// A new enabled webhook with no secret, headers or filters, three retries a
/// second apart and a thirty-second timeout, made at `t`.
pub open spec fn new_config_spec(id: Seq<char>, name: Seq<char>, url: Seq<char>, kind: WebhookType, t: u64) -> ConfigView {
    ConfigView {
        id,
        name,
        url,
        webhook_type: kind,
        enabled: true,
        secret: None,
        headers: seq![],
        retry_count: 3,
        retry_delay_ms: 1000,
        timeout_secs: 30,
        filters: no_filters(),
        created_at: t,
        updated_at: t,
    }
}

fn new_config_at(name: &str, url: &str, kind: WebhookType, now: u64) -> (c: WebhookConfig)
    ensures
        is_hyphenated_uuid(c@.id),
        c@ == new_config_spec(c@.id, name@, url@, kind, now),
{
    let c = WebhookConfig {
        id: new_uuid_string(),
        name: owned(name),
        url: owned(url),
        webhook_type: kind,
        enabled: true,
        secret: None,
        headers: Vec::new(),
        retry_count: 3,
        retry_delay_ms: 1000,
        timeout_secs: 30,
        filters: WebhookFilters::default(),
        created_at: now,
        updated_at: now,
    };
    assert(c@.headers =~= seq![]);
    c
}

/// What one attempt to post a notification came to.
pub struct WebhookDeliveryResult {
    pub webhook_id: String,
    pub payload_id: String,
    pub success: bool,
    pub status_code: Option<u16>,
    pub response_body: Option<String>,
    pub error_message: Option<String>,
    pub delivered_at: u64,
}

/// The plain content of a delivery result.
pub struct DeliveryView {
    pub webhook_id: Seq<char>,
    pub payload_id: Seq<char>,
    pub success: bool,
    pub status_code: Option<u16>,
    pub response_body: Option<Seq<char>>,
    pub error_message: Option<Seq<char>>,
    pub delivered_at: u64,
}

impl View for WebhookDeliveryResult {
    type V = DeliveryView;

    open spec fn view(&self) -> DeliveryView {
        DeliveryView {
            webhook_id: self.webhook_id@,
            payload_id: self.payload_id@,
            success: self.success,
            status_code: self.status_code,
            response_body: opt_view(self.response_body),
            error_message: opt_view(self.error_message),
            delivered_at: self.delivered_at,
        }
    }
}

impl Duplicate for WebhookDeliveryResult {
    fn dup(&self) -> (r: WebhookDeliveryResult) {
        WebhookDeliveryResult {
            webhook_id: self.webhook_id.clone(),
            payload_id: self.payload_id.clone(),
            success: self.success,
            status_code: self.status_code,
            response_body: copy_opt_string(&self.response_body),
            error_message: copy_opt_string(&self.error_message),
            delivered_at: self.delivered_at,
        }
    }
}

/// An HTTP status in the 2xx range.
pub open spec fn is_success_status(status: u16) -> bool {
    200 <= status <= 299
}

/// The result of a post that got an HTTP answer with status `status`;
/// `status_text` is how the status is written (its code and reason phrase).
pub fn response_result(webhook_id: &str, payload_id: &str, status: u16, status_text: &str, body: Option<String>, now: u64) -> (r: WebhookDeliveryResult)
    ensures
        r@ == (DeliveryView {
            webhook_id: webhook_id@,
            payload_id: payload_id@,
            success: is_success_status(status),
            status_code: Some(status),
            response_body: opt_view(body),
            error_message: if is_success_status(status) { None } else { Some("HTTP "@ + status_text@) },
            delivered_at: now,
        }),
{
    let success = 200 <= status && status <= 299;
    WebhookDeliveryResult {
        webhook_id: owned(webhook_id),
        payload_id: owned(payload_id),
        success,
        status_code: Some(status),
        response_body: body,
        error_message: if success { None } else { Some(owned("HTTP ").concat(status_text)) },
        delivered_at: now,
    }
}

/// The result of a post that failed before any answer, with the error's text.
pub fn failure_result(webhook_id: &str, payload_id: &str, error: String, now: u64) -> (r: WebhookDeliveryResult)
    ensures
        r@ == (DeliveryView {
            webhook_id: webhook_id@,
            payload_id: payload_id@,
            success: false,
            status_code: None,
            response_body: None,
            error_message: Some(error@),
            delivered_at: now,
        }),
{
    WebhookDeliveryResult {
        webhook_id: owned(webhook_id),
        payload_id: owned(payload_id),
        success: false,
        status_code: None,
        response_body: None,
        error_message: Some(error),
        delivered_at: now,
    }
}

// ---------------------------------------------------------------------------
// Filters
// ---------------------------------------------------------------------------

/// The character code of `c` with ASCII upper-case letters folded to lower case.
pub open spec fn fold_code(c: char) -> u32 {
    let n = c as u32;
    if 65 <= n && n <= 90 { (n + 32) as u32 } else { n }
}

/// `a` and `b` are equal when ASCII letters are compared without case.
pub open spec fn eq_ignore_ascii_case(a: Seq<char>, b: Seq<char>) -> bool {
    a.len() == b.len() && forall|i: int| 0 <= i < a.len() ==> #[trigger] fold_code(a[i]) == fold_code(b[i])
}

fn fold(c: char) -> (n: u32)
    ensures
        n == fold_code(c),
{
    let n = c as u32;
    if 65 <= n && n <= 90 { n + 32 } else { n }
}

/// Whether `a` and `b` are equal when ASCII letters are compared without case.
pub fn equal_ignoring_ascii_case(a: &str, b: &str) -> (r: bool)
    ensures
        r == eq_ignore_ascii_case(a@, b@),
{
    let n = a.unicode_len();
    if n != b.unicode_len() {
        return false;
    }
    let mut i: usize = 0;
    while i < n
        invariant
            n == a@.len(),
            n == b@.len(),
            i <= n,
            forall|j: int| 0 <= j < i ==> #[trigger] fold_code(a@[j]) == fold_code(b@[j]),
        decreases n - i,
    {
        if fold(a.get_char(i)) != fold(b.get_char(i)) {
            return false;
        }
        i = i + 1;
    }
    true
}

/// The name of an alert level as its variant is written ("Info", "Warning", "Critical").
pub open spec fn level_variant_name(l: AlertLevel) -> Seq<char> {
    match l {
        AlertLevel::Info => "Info"@,
        AlertLevel::Warning => "Warning"@,
        AlertLevel::Critical => "Critical"@,
    }
}

fn level_variant_str(l: AlertLevel) -> (s: &'static str)
    ensures
        s@ == level_variant_name(l),
{
    match l {
        AlertLevel::Info => "Info",
        AlertLevel::Warning => "Warning",
        AlertLevel::Critical => "Critical",
    }
}

/// An alert of level `level` on metric `metric` with value `value_bits` passes
/// the filters: its level is among the listed ones (compared without ASCII
/// case), its metric among the listed ones, and its value not below the minimum
/// (a NaN on either side never counts as below). The pattern is not consulted.
pub open spec fn passes_filters(f: FiltersView, level: AlertLevel, metric: Seq<char>, value_bits: u64) -> bool {
    &&& (f.alert_levels matches Some(ls) ==> exists|i: int| 0 <= i < ls.len() && #[trigger] eq_ignore_ascii_case(ls[i], level_variant_name(level)))
    &&& (f.metric_types matches Some(ts) ==> ts.contains(metric))
    &&& (f.min_value_bits matches Some(m) ==> !double_lt(value_bits, m))
}

fn any_level_matches(levels: &Vec<String>, name: &str) -> (b: bool)
    ensures
        b == exists|i: int| 0 <= i < levels@.len() && #[trigger] eq_ignore_ascii_case(strings_view(levels@)[i], name@),
{
    let n = levels.len();
    let mut i: usize = 0;
    while i < n
        invariant
            n == levels@.len(),
            i <= n,
            forall|j: int| 0 <= j < i ==> !#[trigger] eq_ignore_ascii_case(strings_view(levels@)[j], name@),
        decreases n - i,
    {
        if equal_ignoring_ascii_case(levels[i].as_str(), name) {
            assert(eq_ignore_ascii_case(strings_view(levels@)[i as int], name@));
            return true;
        }
        i = i + 1;
    }
    false
}

/// Whether an alert passes the filters (see `passes_filters`).
pub fn alert_passes(f: &WebhookFilters, alert: &Alert) -> (b: bool)
    ensures
        b == passes_filters(f@, alert.level, alert.metric_type@, alert.value_bits),
{
    if let Some(levels) = &f.alert_levels {
        if !any_level_matches(levels, level_variant_str(alert.level)) {
            return false;
        }
    }
    if let Some(types) = &f.metric_types {
        if !contains_str(types, alert.metric_type.as_str()) {
            return false;
        }
    }
    if let Some(m) = f.min_value_bits {
        if double_less(alert.value_bits, m) {
            return false;
        }
    }
    true
}

// ---------------------------------------------------------------------------
// Payloads and message bodies
// ---------------------------------------------------------------------------

/// What is to be sent: an alert or a plain message. Extra data are name and
/// JSON text pairs.
pub struct WebhookPayload {
    pub id: String,
    pub webhook_type: WebhookType,
    pub alert: Option<Alert>,
    pub message: Option<String>,
    pub data: Option<Vec<(String, String)>>,
    pub timestamp: u64,
}

impl WebhookPayload {
    /// A payload carrying `alert`, under a fresh id, stamped now.
    pub fn from_alert(webhook_type: WebhookType, alert: Alert) -> (p: WebhookPayload)
        ensures
            is_hyphenated_uuid(p.id@),
            p.webhook_type == webhook_type,
            p.alert == Some(alert),
            p.message is None,
            p.data is None,
    {
        WebhookPayload {
            id: new_uuid_string(),
            webhook_type,
            alert: Some(alert),
            message: None,
            data: None,
            timestamp: now_millis_unsigned(),
        }
    }

    /// A payload carrying a plain message, under a fresh id, stamped now.
    pub fn with_message(webhook_type: WebhookType, message: String) -> (p: WebhookPayload)
        ensures
            is_hyphenated_uuid(p.id@),
            p.webhook_type == webhook_type,
            p.alert is None,
            p.message == Some(message),
            p.data is None,
    {
        WebhookPayload {
            id: new_uuid_string(),
            webhook_type,
            alert: None,
            message: Some(message),
            data: None,
            timestamp: now_millis_unsigned(),
        }
    }
}

/// The payload's message, or nothing.
pub open spec fn message_or_empty(p: WebhookPayload) -> Seq<char> {
    match p.message {
        Some(m) => m@,
        None => seq![],
    }
}

fn message_text(p: &WebhookPayload) -> (s: String)
    ensures
        s@ == message_or_empty(*p),
{
    match &p.message {
        Some(m) => m.clone(),
        None => String::new(),
    }
}

/// A Discord message.
pub struct DiscordWebhook {
    pub content: Option<String>,
    pub embeds: Vec<DiscordEmbed>,
    pub username: Option<String>,
    pub avatar_url: Option<String>,
}

/// A Discord embed.
pub struct DiscordEmbed {
    pub title: Option<String>,
    pub description: Option<String>,
    pub color: u32,
    pub fields: Vec<DiscordField>,
    pub footer: Option<DiscordFooter>,
    pub timestamp: Option<u64>,
}

/// A field of a Discord embed.
pub struct DiscordField {
    pub name: String,
    pub value: String,
    pub inline: bool,
}

/// The footer of a Discord embed.
pub struct DiscordFooter {
    pub text: String,
    pub icon_url: Option<String>,
}

/// A Slack message.
pub struct SlackWebhook {
    pub text: String,
    pub blocks: Vec<SlackBlock>,
    pub attachments: Vec<SlackAttachment>,
}

/// A Slack block.
pub struct SlackBlock {
    pub block_type: String,
    pub text: Option<SlackText>,
    pub elements: Option<Vec<SlackElement>>,
}

/// A text object of a Slack block.
pub struct SlackText {
    pub text_type: String,
    pub text: String,
}

/// An element of a Slack block.
pub struct SlackElement {
    pub element_type: String,
    pub text: Option<String>,
    pub url: Option<String>,
}

/// A Slack attachment.
pub struct SlackAttachment {
    pub color: String,
    pub blocks: Vec<SlackBlock>,
}

/// A Microsoft Teams message card.
pub struct TeamsWebhook {
    pub msg_type: String,
    pub context: String,
    pub theme_color: String,
    pub summary: String,
    pub sections: Vec<TeamsSection>,
}

/// A section of a Teams card.
pub struct TeamsSection {
    pub activity_title: String,
    pub activity_subtitle: Option<String>,
    pub facts: Vec<TeamsFact>,
}

/// A name and value shown in a Teams section.
pub struct TeamsFact {
    pub name: String,
    pub value: String,
}

/// A Telegram message.
pub struct TelegramMessage {
    pub chat_id: String,
    pub text: String,
    pub parse_mode: Option<String>,
}

/// The embed colour Discord shows for an alert level.
pub open spec fn discord_color(l: AlertLevel) -> u32 {
    match l {
        AlertLevel::Info => 3447003,
        AlertLevel::Warning => 16776960,
        AlertLevel::Critical => 15158332,
    }
}

/// The attachment colour Slack shows for an alert level.
pub open spec fn slack_color(l: AlertLevel) -> Seq<char> {
    match l {
        AlertLevel::Info => "#3498db"@,
        AlertLevel::Warning => "#f39c12"@,
        AlertLevel::Critical => "#e74c3c"@,
    }
}

/// The theme colour a Teams card shows for an alert level.
pub open spec fn teams_color(l: AlertLevel) -> Seq<char> {
    match l {
        AlertLevel::Info => "3498db"@,
        AlertLevel::Warning => "f39c12"@,
        AlertLevel::Critical => "e74c3c"@,
    }
}

/// The footer Discord messages carry, with the time `now` written out.
pub open spec fn footer_text(now: u64) -> Seq<char> {
    "MC Server Monitor \u{2022} "@ + utc_text(now, "%Y-%m-%d %H:%M:%S"@)
}

/// The description of a Discord embed: the alert's message with its value and
/// threshold as rendered by the caller, or the payload's message.
pub open spec fn discord_description(p: WebhookPayload, value_text: Seq<char>, threshold_text: Seq<char>) -> Seq<char> {
    match p.alert {
        Some(a) => a.message@ + "\n**Value:** "@ + value_text + "\n**Threshold:** "@ + threshold_text,
        None => message_or_empty(p),
    }
}

/// The plain content of Discord fields.
pub open spec fn fields_view(s: Seq<DiscordField>) -> Seq<(Seq<char>, Seq<char>, bool)> {
    s.map_values(|f: DiscordField| (f.name@, f.value@, f.inline))
}

/// `d` is the Discord message for `p` at `now`.
pub open spec fn is_discord_body(d: DiscordWebhook, p: WebhookPayload, value_text: Seq<char>, threshold_text: Seq<char>, now: u64) -> bool {
    &&& opt_view(d.content) == Some("**"@ + kind_name(p.webhook_type) + " Alert**"@)
    &&& opt_view(d.username) == Some("MC Server Monitor"@)
    &&& d.avatar_url is None
    &&& d.embeds@.len() == 1
    &&& opt_view(d.embeds@[0].title) == Some(kind_name(p.webhook_type))
    &&& opt_view(d.embeds@[0].description) == Some(discord_description(p, value_text, threshold_text))
    &&& d.embeds@[0].color == (match p.alert { Some(a) => discord_color(a.level), None => 3447003u32 })
    &&& fields_view(d.embeds@[0].fields@) == (match p.alert {
            Some(a) => seq![("Metric"@, a.metric_type@, true), ("Level"@, level_variant_name(a.level), true)],
            None => Seq::<(Seq<char>, Seq<char>, bool)>::empty(),
        })
    &&& d.embeds@[0].footer matches Some(f) && f.text@ == footer_text(now) && f.icon_url is None
    &&& d.embeds@[0].timestamp == Some(now)
}

fn discord_color_of(l: AlertLevel) -> (c: u32)
    ensures
        c == discord_color(l),
{
    match l {
        AlertLevel::Info => 3447003,
        AlertLevel::Warning => 16776960,
        AlertLevel::Critical => 15158332,
    }
}

/// The Discord message for `p` at `now`; `value_text` and `threshold_text` are
/// the alert's value and threshold written with two decimals.
pub fn build_discord_payload(p: &WebhookPayload, value_text: &str, threshold_text: &str, now: u64) -> (d: DiscordWebhook)
    ensures
        is_discord_body(d, *p, value_text@, threshold_text@, now),
{
    let (description, color, fields) = match &p.alert {
        Some(a) => {
            let desc = a.message.clone().concat("\n**Value:** ").concat(value_text).concat("\n**Threshold:** ").concat(threshold_text);
            let mut fields: Vec<DiscordField> = Vec::new();
            fields.push(DiscordField { name: owned("Metric"), value: a.metric_type.clone(), inline: true });
            fields.push(DiscordField { name: owned("Level"), value: owned(level_variant_str(a.level)), inline: true });
            assert(fields_view(fields@) =~= seq![("Metric"@, a.metric_type@, true), ("Level"@, level_variant_name(a.level), true)]);
            (desc, discord_color_of(a.level), fields)
        }
        None => {
            let fields: Vec<DiscordField> = Vec::new();
            assert(fields_view(fields@) =~= Seq::<(Seq<char>, Seq<char>, bool)>::empty());
            (message_text(p), 3447003u32, fields)
        }
    };
    let footer = DiscordFooter {
        text: owned("MC Server Monitor \u{2022} ").concat(format_utc(now, "%Y-%m-%d %H:%M:%S").as_str()),
        icon_url: None,
    };
    let mut embeds: Vec<DiscordEmbed> = Vec::new();
    embeds.push(DiscordEmbed {
        title: Some(owned(p.webhook_type.name())),
        description: Some(description),
        color,
        fields,
        footer: Some(footer),
        timestamp: Some(now),
    });
    DiscordWebhook {
        content: Some(owned("**").concat(p.webhook_type.name()).concat(" Alert**")),
        embeds,
        username: Some(owned("MC Server Monitor")),
        avatar_url: None,
    }
}

/// The text of a Slack message: the alert's level and message with its value
/// and threshold as rendered by the caller, or the payload's message.
pub open spec fn slack_text(p: WebhookPayload, value_text: Seq<char>, threshold_text: Seq<char>) -> Seq<char> {
    match p.alert {
        Some(a) => "*"@ + level_variant_name(a.level) + "*\n> "@ + a.message@ + "\n*Current:* "@ + value_text
            + " | *Threshold:* "@ + threshold_text,
        None => message_or_empty(p),
    }
}

/// `b` is a block of kind `kind` holding text `text` of type `text_type`, with no elements.
pub open spec fn is_text_block(b: SlackBlock, kind: Seq<char>, text_type: Seq<char>, text: Seq<char>) -> bool {
    &&& b.block_type@ == kind
    &&& b.text matches Some(t) && t.text_type@ == text_type && t.text@ == text
    &&& b.elements is None
}

/// `m` is the Slack message for `p`.
pub open spec fn is_slack_body(m: SlackWebhook, p: WebhookPayload, value_text: Seq<char>, threshold_text: Seq<char>) -> bool {
    &&& m.text@ == slack_text(p, value_text, threshold_text)
    &&& m.blocks@.len() == 2
    &&& is_text_block(m.blocks@[0], "header"@, "plain_text"@, "MC Server Alert"@)
    &&& is_text_block(m.blocks@[1], "section"@, "mrkdwn"@, slack_text(p, value_text, threshold_text))
    &&& m.attachments@.len() == 1
    &&& m.attachments@[0].color@ == (match p.alert { Some(a) => slack_color(a.level), None => "#3498db"@ })
    &&& m.attachments@[0].blocks@.len() == 0
}

fn text_block(kind: &str, text_type: &str, text: String) -> (b: SlackBlock)
    ensures
        is_text_block(b, kind@, text_type@, text@),
{
    SlackBlock { block_type: owned(kind), text: Some(SlackText { text_type: owned(text_type), text }), elements: None }
}

/// The Slack message for `p`; `value_text` and `threshold_text` are the
/// alert's value and threshold written with two decimals.
pub fn build_slack_payload(p: &WebhookPayload, value_text: &str, threshold_text: &str) -> (m: SlackWebhook)
    ensures
        is_slack_body(m, *p, value_text@, threshold_text@),
{
    let (color, text) = match &p.alert {
        Some(a) => {
            let color = match a.level {
                AlertLevel::Info => owned("#3498db"),
                AlertLevel::Warning => owned("#f39c12"),
                AlertLevel::Critical => owned("#e74c3c"),
            };
            let text = owned("*").concat(level_variant_str(a.level)).concat("*\n> ").concat(a.message.as_str())
                .concat("\n*Current:* ").concat(value_text).concat(" | *Threshold:* ").concat(threshold_text);
            (color, text)
        }
        None => (owned("#3498db"), message_text(p)),
    };
    let mut blocks: Vec<SlackBlock> = Vec::new();
    blocks.push(text_block("header", "plain_text", owned("MC Server Alert")));
    blocks.push(text_block("section", "mrkdwn", text.clone()));
    let mut attachments: Vec<SlackAttachment> = Vec::new();
    attachments.push(SlackAttachment { color, blocks: Vec::new() });
    SlackWebhook { text, blocks, attachments }
}

/// The title of a Teams card: the alert's level and metric, or a fixed title.
pub open spec fn teams_title(p: WebhookPayload) -> Seq<char> {
    match p.alert {
        Some(a) => level_variant_name(a.level) + " - "@ + a.metric_type@,
        None => "MC Server Monitor"@,
    }
}

/// The plain content of Teams facts.
pub open spec fn facts_view(s: Seq<TeamsFact>) -> Seq<(Seq<char>, Seq<char>)> {
    s.map_values(|f: TeamsFact| (f.name@, f.value@))
}

/// `c` is the Teams card for `p`.
pub open spec fn is_teams_body(c: TeamsWebhook, p: WebhookPayload, value_text: Seq<char>, threshold_text: Seq<char>) -> bool {
    &&& c.msg_type@ == "Message"@
    &&& c.context@ == "http://schema.org/extensions/message/1.0/em"@
    &&& c.theme_color@ == (match p.alert { Some(a) => teams_color(a.level), None => "3498db"@ })
    &&& c.summary@ == teams_title(p)
    &&& c.sections@.len() == 1
    &&& c.sections@[0].activity_title@ == teams_title(p)
    &&& opt_view(c.sections@[0].activity_subtitle) == Some(match p.alert { Some(a) => a.message@, None => message_or_empty(p) })
    &&& facts_view(c.sections@[0].facts@) == (match p.alert {
            Some(a) => seq![("Metric"@, a.metric_type@), ("Current Value"@, value_text), ("Threshold"@, threshold_text)],
            None => Seq::<(Seq<char>, Seq<char>)>::empty(),
        })
}

/// The Teams card for `p`; `value_text` and `threshold_text` are the alert's
/// value and threshold written with two decimals.
pub fn build_teams_payload(p: &WebhookPayload, value_text: &str, threshold_text: &str) -> (c: TeamsWebhook)
    ensures
        is_teams_body(c, *p, value_text@, threshold_text@),
{
    let (color, title, message, facts) = match &p.alert {
        Some(a) => {
            let color = match a.level {
                AlertLevel::Info => owned("3498db"),
                AlertLevel::Warning => owned("f39c12"),
                AlertLevel::Critical => owned("e74c3c"),
            };
            let mut facts: Vec<TeamsFact> = Vec::new();
            facts.push(TeamsFact { name: owned("Metric"), value: a.metric_type.clone() });
            facts.push(TeamsFact { name: owned("Current Value"), value: owned(value_text) });
            facts.push(TeamsFact { name: owned("Threshold"), value: owned(threshold_text) });
            assert(facts_view(facts@) =~= seq![("Metric"@, a.metric_type@), ("Current Value"@, value_text@), ("Threshold"@, threshold_text@)]);
            let title = owned(level_variant_str(a.level)).concat(" - ").concat(a.metric_type.as_str());
            (color, title, a.message.clone(), facts)
        }
        None => {
            let facts: Vec<TeamsFact> = Vec::new();
            assert(facts_view(facts@) =~= Seq::<(Seq<char>, Seq<char>)>::empty());
            (owned("3498db"), owned("MC Server Monitor"), message_text(p), facts)
        }
    };
    let mut sections: Vec<TeamsSection> = Vec::new();
    sections.push(TeamsSection { activity_title: title.clone(), activity_subtitle: Some(message), facts });
    TeamsWebhook {
        msg_type: owned("Message"),
        context: owned("http://schema.org/extensions/message/1.0/em"),
        theme_color: color,
        summary: title,
        sections,
    }
}

/// The body to post: one of the service-specific messages, or the payload
/// itself for the other kinds of webhook.
pub enum WebhookBody {
    Discord(DiscordWebhook),
    Slack(SlackWebhook),
    Teams(TeamsWebhook),
    Payload,
}

/// The body a webhook of kind `kind` posts for `p` at `now`.
pub fn build_body(kind: WebhookType, p: &WebhookPayload, value_text: &str, threshold_text: &str, now: u64) -> (b: WebhookBody)
    ensures
        match b {
            WebhookBody::Discord(d) => kind == WebhookType::Discord && is_discord_body(d, *p, value_text@, threshold_text@, now),
            WebhookBody::Slack(m) => kind == WebhookType::Slack && is_slack_body(m, *p, value_text@, threshold_text@),
            WebhookBody::Teams(c) => kind == WebhookType::Teams && is_teams_body(c, *p, value_text@, threshold_text@),
            WebhookBody::Payload => kind != WebhookType::Discord && kind != WebhookType::Slack && kind != WebhookType::Teams,
        },
{
    match kind {
        WebhookType::Discord => WebhookBody::Discord(build_discord_payload(p, value_text, threshold_text, now)),
        WebhookType::Slack => WebhookBody::Slack(build_slack_payload(p, value_text, threshold_text)),
        WebhookType::Teams => WebhookBody::Teams(build_teams_payload(p, value_text, threshold_text)),
        _ => WebhookBody::Payload,
    }
}

// ---------------------------------------------------------------------------
// The notifier
// ---------------------------------------------------------------------------

/// `s` lists the configurations of `m` once each (in some order), each under its id.
pub open spec fn lists_webhooks(s: Seq<ConfigView>, m: Map<Seq<char>, ConfigView>) -> bool {
    &&& s.len() == m.dom().len()
    &&& forall|i: int| 0 <= i < s.len() ==> #[trigger] m.dom().contains(s[i].id) && m[s[i].id] == s[i]
    &&& forall|i: int, j: int| 0 <= i < s.len() && 0 <= j < s.len() && i != j ==> #[trigger] s[i].id != #[trigger] s[j].id
}

/// The alert passes the filters of the webhook `id`, which exists.
pub open spec fn should_notify(m: Map<Seq<char>, ConfigView>, id: Seq<char>, level: AlertLevel, metric: Seq<char>, value_bits: u64) -> bool {
    m.dom().contains(id) && passes_filters(m[id].filters, level, metric, value_bits)
}

/// The error for an absent webhook.
pub open spec fn is_not_found(e: WebhookError, id: Seq<char>) -> bool {
    e matches WebhookError::NotFound(x) && x@ == id
}

/// An error refusing a configuration, with the given text.
pub open spec fn is_invalid(e: WebhookError, text: Seq<char>) -> bool {
    e matches WebhookError::InvalidConfig(x) && x@ == text
}

/// The webhooks by id and the results of recent deliveries, the latter kept up to a bound.
pub struct WebhookNotifier {
    webhooks: Store<WebhookConfig>,
    delivery_history: Vec<WebhookDeliveryResult>,
    max_history_size: usize,
}

impl WebhookNotifier {
    /// The webhooks by id.
    pub closed spec fn webhooks(&self) -> Map<Seq<char>, ConfigView> {
        view_map(self.webhooks)
    }

    /// The recorded deliveries, oldest first.
    pub closed spec fn deliveries(&self) -> Seq<DeliveryView> {
        views(self.delivery_history@)
    }

    /// How many deliveries are kept.
    pub closed spec fn max_history(&self) -> usize {
        self.max_history_size
    }

    /// Each webhook is stored under its own id.
    pub proof fn lemma_keys(&self)
        ensures
            forall|k: Seq<char>| #[trigger] self.webhooks().dom().contains(k) ==> self.webhooks()[k].id == k,
    {
        lemma_store_keys(self.webhooks);
    }

    /// No webhooks and no deliveries; a thousand deliveries are kept.
    pub fn new() -> (n: WebhookNotifier)
        ensures
            n.webhooks() == Map::<Seq<char>, ConfigView>::empty(),
            n.deliveries() == Seq::<DeliveryView>::empty(),
            n.max_history() == 1000,
    {
        let n = WebhookNotifier { webhooks: Store::new(), delivery_history: Vec::new(), max_history_size: 1000 };
        assert(n.webhooks() =~= Map::<Seq<char>, ConfigView>::empty());
        assert(n.deliveries() =~= Seq::<DeliveryView>::empty());
        n
    }

    /// How many deliveries are kept.
    pub fn max_history_size(&self) -> (n: usize)
        ensures
            n == self.max_history(),
    {
        self.max_history_size
    }

    /// Stores `config` under its id, replacing any webhook with that id.
    pub fn add_webhook(&mut self, config: WebhookConfig)
        ensures
            final(self).webhooks() == old(self).webhooks().insert(config.id@, config@),
            final(self).deliveries() == old(self).deliveries(),
            final(self).max_history() == old(self).max_history(),
    {
        let ghost cv = config@;
        self.webhooks.upsert(config);
        assert(self.webhooks() =~= old(self).webhooks().insert(cv.id, cv));
    }

    /// Takes out the webhook with id `id`, if any.
    pub fn remove_webhook(&mut self, id: &str) -> (r: Option<WebhookConfig>)
        ensures
            final(self).webhooks() == old(self).webhooks().remove(id@),
            match r {
                Some(c) => old(self).webhooks().dom().contains(id@) && c@ == old(self).webhooks()[id@],
                None => !old(self).webhooks().dom().contains(id@),
            },
            final(self).deliveries() == old(self).deliveries(),
            final(self).max_history() == old(self).max_history(),
    {
        let r = self.webhooks.remove(id);
        assert(self.webhooks() =~= old(self).webhooks().remove(id@));
        r
    }

    /// A copy of the webhook with id `id`, if any.
    pub fn get_webhook(&self, id: &str) -> (r: Option<WebhookConfig>)
        ensures
            match r {
                Some(c) => self.webhooks().dom().contains(id@) && c@ == self.webhooks()[id@],
                None => !self.webhooks().dom().contains(id@),
            },
    {
        match self.webhooks.get(id) {
            Some(c) => Some(c.dup()),
            None => None,
        }
    }

    /// Copies of all webhooks.
    pub fn get_all_webhooks(&self) -> (r: Vec<WebhookConfig>)
        ensures
            lists_webhooks(views(r@), self.webhooks()),
    {
        self.webhooks.facts();
        let items = self.webhooks.as_vec();
        let n = items.len();
        let mut r: Vec<WebhookConfig> = Vec::new();
        let mut i: usize = 0;
        while i < n
            invariant
                n == items@.len(),
                items@ == self.webhooks.items(),
                i <= n,
                views(r@) == views(items@).subrange(0, i as int),
            decreases n - i,
        {
            let ghost before = views(r@);
            r.push(items[i].dup());
            assert(views(r@) =~= before.push(items@[i as int]@));
            i = i + 1;
            assert(views(r@) =~= views(items@).subrange(0, i as int));
        }
        assert(views(items@).subrange(0, n as int) =~= views(items@));
        proof {
            let s = views(r@);
            assert(self.webhooks().dom() =~= self.webhooks.map().dom());
            assert forall|i: int| 0 <= i < s.len() implies #[trigger] self.webhooks().dom().contains(s[i].id) && self.webhooks()[s[i].id] == s[i] by {
                assert(self.webhooks.map().dom().contains(items@[i].key_view()));
            }
            assert forall|i: int, j: int| 0 <= i < s.len() && 0 <= j < s.len() && i != j implies #[trigger] s[i].id != #[trigger] s[j].id by {
                assert(items@[i].key_view() != items@[j].key_view());
            }
        }
        r
    }

    /// Replaces the webhook with the same id by `config`; fails if there is none.
    pub fn update_webhook(&mut self, config: WebhookConfig) -> (r: Result<(), WebhookError>)
        ensures
            match r {
                Ok(()) => old(self).webhooks().dom().contains(config.id@)
                    && final(self).webhooks() == old(self).webhooks().insert(config.id@, config@),
                Err(e) => !old(self).webhooks().dom().contains(config.id@) && is_not_found(e, config.id@)
                    && final(self).webhooks() == old(self).webhooks(),
            },
            final(self).deliveries() == old(self).deliveries(),
            final(self).max_history() == old(self).max_history(),
    {
        if self.webhooks.find(config.id.as_str()).is_none() {
            return Err(WebhookError::NotFound(config.id.clone()));
        }
        self.add_webhook(config);
        Ok(())
    }

    fn set_enabled(&mut self, id: &str, enabled: bool) -> (r: Result<(), WebhookError>)
        ensures
            match r {
                Ok(()) => old(self).webhooks().dom().contains(id@)
                    && final(self).webhooks() == old(self).webhooks().insert(id@, ConfigView { enabled, ..old(self).webhooks()[id@] }),
                Err(e) => !old(self).webhooks().dom().contains(id@) && is_not_found(e, id@)
                    && final(self).webhooks() == old(self).webhooks(),
            },
            final(self).deliveries() == old(self).deliveries(),
            final(self).max_history() == old(self).max_history(),
    {
        match self.webhooks.remove(id) {
            Some(mut c) => {
                proof { lemma_store_keys(old(self).webhooks); }
                c.enabled = enabled;
                let ghost cv = c@;
                self.webhooks.upsert(c);
                assert(self.webhooks() =~= old(self).webhooks().insert(id@, ConfigView { enabled, ..old(self).webhooks()[id@] }));
                Ok(())
            }
            None => Err(WebhookError::NotFound(owned(id))),
        }
    }

    /// Turns the webhook with id `id` on; fails if there is none.
    pub fn enable_webhook(&mut self, id: &str) -> (r: Result<(), WebhookError>)
        ensures
            match r {
                Ok(()) => old(self).webhooks().dom().contains(id@)
                    && final(self).webhooks() == old(self).webhooks().insert(id@, ConfigView { enabled: true, ..old(self).webhooks()[id@] }),
                Err(e) => !old(self).webhooks().dom().contains(id@) && is_not_found(e, id@)
                    && final(self).webhooks() == old(self).webhooks(),
            },
            final(self).deliveries() == old(self).deliveries(),
            final(self).max_history() == old(self).max_history(),
    {
        self.set_enabled(id, true)
    }

    /// Turns the webhook with id `id` off; fails if there is none.
    pub fn disable_webhook(&mut self, id: &str) -> (r: Result<(), WebhookError>)
        ensures
            match r {
                Ok(()) => old(self).webhooks().dom().contains(id@)
                    && final(self).webhooks() == old(self).webhooks().insert(id@, ConfigView { enabled: false, ..old(self).webhooks()[id@] }),
                Err(e) => !old(self).webhooks().dom().contains(id@) && is_not_found(e, id@)
                    && final(self).webhooks() == old(self).webhooks(),
            },
            final(self).deliveries() == old(self).deliveries(),
            final(self).max_history() == old(self).max_history(),
    {
        self.set_enabled(id, false)
    }

    /// Copies of the newest `limit` delivery results, newest first.
    pub fn get_delivery_history(&self, limit: usize) -> (r: Vec<WebhookDeliveryResult>)
        ensures
            views(r@) == newest(self.deliveries(), limit as nat),
    {
        newest_dup(&self.delivery_history, limit)
    }

    /// Whether the webhook `id` exists and `alert` passes its filters.
    pub fn filter_should_notify(&self, webhook_id: &str, alert: &Alert) -> (b: bool)
        ensures
            b == should_notify(self.webhooks(), webhook_id@, alert.level, alert.metric_type@, alert.value_bits),
    {
        match self.webhooks.get(webhook_id) {
            Some(c) => alert_passes(&c.filters, alert),
            None => false,
        }
    }

    /// The webhook to post to for a send to `webhook_id`: it must exist and be enabled.
    pub fn delivery_target(&self, webhook_id: &str) -> (r: Result<WebhookConfig, WebhookError>)
        ensures
            match r {
                Ok(c) => self.webhooks().dom().contains(webhook_id@) && self.webhooks()[webhook_id@].enabled
                    && c@ == self.webhooks()[webhook_id@],
                Err(e) => if self.webhooks().dom().contains(webhook_id@) {
                    !self.webhooks()[webhook_id@].enabled && is_invalid(e, "Webhook is disabled"@)
                } else {
                    is_not_found(e, webhook_id@)
                },
            },
    {
        match self.webhooks.get(webhook_id) {
            Some(c) => {
                if !c.enabled {
                    return Err(WebhookError::InvalidConfig(owned("Webhook is disabled")));
                }
                Ok(c.dup())
            }
            None => Err(WebhookError::NotFound(owned(webhook_id))),
        }
    }

    /// The webhook to post `alert` to right away: the alert must pass the
    /// webhook's filters, and the webhook must be enabled.
    pub fn alert_target(&self, webhook_id: &str, alert: &Alert) -> (r: Result<WebhookConfig, WebhookError>)
        ensures
            match r {
                Ok(c) => should_notify(self.webhooks(), webhook_id@, alert.level, alert.metric_type@, alert.value_bits)
                    && self.webhooks()[webhook_id@].enabled && c@ == self.webhooks()[webhook_id@],
                Err(e) => if !should_notify(self.webhooks(), webhook_id@, alert.level, alert.metric_type@, alert.value_bits) {
                    is_invalid(e, "Alert does not match webhook filters"@)
                } else {
                    !self.webhooks()[webhook_id@].enabled && is_invalid(e, "Webhook is disabled"@)
                },
            },
    {
        if !self.filter_should_notify(webhook_id, alert) {
            return Err(WebhookError::InvalidConfig(owned("Alert does not match webhook filters")));
        }
        self.delivery_target(webhook_id)
    }

    /// The webhook to queue `alert` for: the alert must pass the webhook's
    /// filters; whether the webhook is enabled is not consulted.
    pub fn queue_target(&self, webhook_id: &str, alert: &Alert) -> (r: Result<WebhookConfig, WebhookError>)
        ensures
            match r {
                Ok(c) => should_notify(self.webhooks(), webhook_id@, alert.level, alert.metric_type@, alert.value_bits)
                    && c@ == self.webhooks()[webhook_id@],
                Err(e) => !should_notify(self.webhooks(), webhook_id@, alert.level, alert.metric_type@, alert.value_bits)
                    && is_invalid(e, "Alert does not match webhook filters"@),
            },
    {
        if !self.filter_should_notify(webhook_id, alert) {
            return Err(WebhookError::InvalidConfig(owned("Alert does not match webhook filters")));
        }
        match self.webhooks.get(webhook_id) {
            Some(c) => Ok(c.dup()),
            None => Err(WebhookError::NotFound(owned(webhook_id))),
        }
    }

    /// Keeps the result of a delivery (the oldest making way at the bound) and
    /// passes it on: a failed delivery becomes `SendFailed` with its error text.
    pub fn record_delivery(&mut self, result: WebhookDeliveryResult) -> (r: Result<WebhookDeliveryResult, WebhookError>)
        ensures
            final(self).deliveries() == bounded_push(old(self).deliveries(), old(self).max_history(), result@),
            final(self).webhooks() == old(self).webhooks(),
            final(self).max_history() == old(self).max_history(),
            match r {
                Ok(x) => result.success && x@ == result@,
                Err(e) => !result.success && (e matches WebhookError::SendFailed(t)
                    && t@ == (match result@.error_message { Some(m) => m, None => Seq::<char>::empty() })),
            },
    {
        let ghost before = self.deliveries();
        let ghost rv = result@;
        let copy = result.dup();
        if self.delivery_history.len() >= self.max_history_size && self.delivery_history.len() > 0 {
            let _ = self.delivery_history.remove(0);
            assert(views(self.delivery_history@) =~= before.drop_first());
        }
        let ghost mid = views(self.delivery_history@);
        self.delivery_history.push(result);
        assert(self.deliveries() =~= mid.push(rv));
        if !copy.success {
            let text = match copy.error_message {
                Some(m) => m,
                None => String::new(),
            };
            Err(WebhookError::SendFailed(text))
        } else {
            Ok(copy)
        }
    }

    /// A new enabled Discord webhook named `name` posting to `url`.
    pub fn create_discord_webhook(name: &str, url: &str) -> (c: WebhookConfig)
        ensures
            is_hyphenated_uuid(c@.id),
            c@ == new_config_spec(c@.id, name@, url@, WebhookType::Discord, c@.created_at),
    {
        new_config_at(name, url, WebhookType::Discord, now_millis_unsigned())
    }

    /// A new enabled Slack webhook named `name` posting to `url`.
    pub fn create_slack_webhook(name: &str, url: &str) -> (c: WebhookConfig)
        ensures
            is_hyphenated_uuid(c@.id),
            c@ == new_config_spec(c@.id, name@, url@, WebhookType::Slack, c@.created_at),
    {
        new_config_at(name, url, WebhookType::Slack, now_millis_unsigned())
    }
}

// ---------------------------------------------------------------------------
// Laws
// ---------------------------------------------------------------------------

/// Turning a webhook off and then on again gives back the webhooks as they were,
/// when it was on to begin with.
pub proof fn law_disable_then_enable_restores(w1: WebhookNotifier, w2: WebhookNotifier, w3: WebhookNotifier, id: Seq<char>)
    requires
        w1.webhooks().dom().contains(id),
        w1.webhooks()[id].enabled,
        w2.webhooks() == w1.webhooks().insert(id, ConfigView { enabled: false, ..w1.webhooks()[id] }),
        w3.webhooks() == w2.webhooks().insert(id, ConfigView { enabled: true, ..w2.webhooks()[id] }),
    ensures
        w3.webhooks() == w1.webhooks(),
{
    assert(w3.webhooks() =~= w1.webhooks());
}

/// A webhook without filters is told of every alert.
pub proof fn law_no_filters_pass_everything(level: AlertLevel, metric: Seq<char>, value_bits: u64)
    ensures
        passes_filters(no_filters(), level, metric, value_bits),
{
}

/// Recording a delivery never takes the history past its bound (when the bound
/// is at least one), and the delivery just recorded is the newest.
pub proof fn law_delivery_history_bounded(w1: WebhookNotifier, w2: WebhookNotifier, x: DeliveryView)
    requires
        w2.deliveries() == bounded_push(w1.deliveries(), w1.max_history(), x),
        w1.max_history() > 0,
        w1.deliveries().len() <= w1.max_history(),
    ensures
        w2.deliveries().len() <= w1.max_history(),
        newest(w2.deliveries(), 1) == seq![x],
{
    assert(newest(w2.deliveries(), 1) =~= seq![x]);
}

} // verus!
