//! The server certificate: its record, expiry status, renewal tasks and their
//! history. Certificate validity times are seconds since the epoch; task times
//! are milliseconds.
use vstd::prelude::*;
use crate::text::{owned, str_eq, concat, chars_of, string_from_chars, copy_opt_string};
use crate::ids::{new_uuid_string, is_hyphenated_uuid};
use crate::clock::now_millis_unsigned;
use crate::security::totp::ascii_upper;

verus! {

/// Sixty days in seconds.
pub const SIXTY_DAYS_SECS: u64 = 5_184_000;
/// Ninety days in seconds.
pub const NINETY_DAYS_SECS: u64 = 7_776_000;

/// Where the certificate lives and when to renew it.
pub struct SslCertConfig {
    pub cert_path: String,
    pub key_path: String,
    pub renewal_threshold_days: u32,
    pub auto_renewal_enabled: bool,
    pub check_interval_hours: u64,
    pub acme_email: Option<String>,
}

impl SslCertConfig {
    /// Whether this is the default configuration.
    pub open spec fn is_default(&self) -> bool {
        &&& self.cert_path@ == "/etc/ssl/certs/server.crt"@
        &&& self.key_path@ == "/etc/ssl/private/server.key"@
        &&& self.renewal_threshold_days == 30
        &&& self.auto_renewal_enabled
        &&& self.check_interval_hours == 24
        &&& self.acme_email is None
    }

    /// The default configuration.
    pub fn default_config() -> (c: SslCertConfig)
        ensures
            c.is_default(),
    {
        SslCertConfig {
            cert_path: owned("/etc/ssl/certs/server.crt"),
            key_path: owned("/etc/ssl/private/server.key"),
            renewal_threshold_days: 30,
            auto_renewal_enabled: true,
            check_interval_hours: 24,
            acme_email: None,
        }
    }

    /// A field-by-field copy.
    pub fn duplicate(&self) -> (c: SslCertConfig)
        ensures
            c.cert_path@ == self.cert_path@,
            c.key_path@ == self.key_path@,
            c.renewal_threshold_days == self.renewal_threshold_days,
            c.auto_renewal_enabled == self.auto_renewal_enabled,
            c.check_interval_hours == self.check_interval_hours,
            c.acme_email == self.acme_email,
    {
        SslCertConfig {
            cert_path: self.cert_path.clone(),
            key_path: self.key_path.clone(),
            renewal_threshold_days: self.renewal_threshold_days,
            auto_renewal_enabled: self.auto_renewal_enabled,
            check_interval_hours: self.check_interval_hours,
            acme_email: copy_opt_string(&self.acme_email),
        }
    }
}

impl Default for SslCertConfig {
    fn default() -> (c: SslCertConfig)
        ensures
            c.is_default(),
    {
        SslCertConfig::default_config()
    }
}

/// What is known of the current certificate.
pub struct CertificateInfo {
    pub subject: String,
    pub issuer: String,
    pub valid_from: u64,
    pub valid_until: u64,
    pub serial_number: String,
    pub is_valid: bool,
    pub days_until_expiry: i64,
    pub fingerprint_sha256: String,
}

/// The plain content of a certificate record.
pub struct CertificateView {
    pub subject: Seq<char>,
    pub issuer: Seq<char>,
    pub valid_from: u64,
    pub valid_until: u64,
    pub serial_number: Seq<char>,
    pub is_valid: bool,
    pub days_until_expiry: i64,
    pub fingerprint_sha256: Seq<char>,
}

impl View for CertificateInfo {
    type V = CertificateView;

    open spec fn view(&self) -> CertificateView {
        CertificateView {
            subject: self.subject@,
            issuer: self.issuer@,
            valid_from: self.valid_from,
            valid_until: self.valid_until,
            serial_number: self.serial_number@,
            is_valid: self.is_valid,
            days_until_expiry: self.days_until_expiry,
            fingerprint_sha256: self.fingerprint_sha256@,
        }
    }
}

impl CertificateInfo {
    /// A field-by-field copy.
    pub fn duplicate(&self) -> (r: CertificateInfo)
        ensures
            r@ == self@,
    {
        CertificateInfo {
            subject: self.subject.clone(),
            issuer: self.issuer.clone(),
            valid_from: self.valid_from,
            valid_until: self.valid_until,
            serial_number: self.serial_number.clone(),
            is_valid: self.is_valid,
            days_until_expiry: self.days_until_expiry,
            fingerprint_sha256: self.fingerprint_sha256.clone(),
        }
    }
}

/// The outcome of a renewal.
pub struct RenewalResult {
    pub success: bool,
    pub message: String,
    pub new_expiry: Option<u64>,
    pub error: Option<String>,
}

/// Where a renewal stands.
#[derive(Clone, Copy, PartialEq, Eq, Structural, Debug)]
pub enum RenewalStatus {
    Pending,
    InProgress,
    Completed,
    Failed,
}

/// One renewal.
pub struct RenewalTask {
    pub id: String,
    pub status: RenewalStatus,
    pub created_at: u64,
    pub completed_at: Option<u64>,
    pub result: Option<RenewalResult>,
}

/// The plain content of a renewal result.
pub struct RenewalResultView {
    pub success: bool,
    pub message: Seq<char>,
    pub new_expiry: Option<u64>,
    pub error: Option<Seq<char>>,
}

/// The plain content of a renewal task.
pub struct RenewalTaskView {
    pub id: Seq<char>,
    pub status: RenewalStatus,
    pub created_at: u64,
    pub completed_at: Option<u64>,
    pub result: Option<RenewalResultView>,
}

impl View for RenewalTask {
    type V = RenewalTaskView;

    open spec fn view(&self) -> RenewalTaskView {
        RenewalTaskView {
            id: self.id@,
            status: self.status,
            created_at: self.created_at,
            completed_at: self.completed_at,
            result: match self.result {
                Some(r) => Some(RenewalResultView {
                    success: r.success,
                    message: r.message@,
                    new_expiry: r.new_expiry,
                    error: crate::text::opt_view(r.error),
                }),
                None => None,
            },
        }
    }
}

impl RenewalTask {
    /// A field-by-field copy.
    pub fn duplicate(&self) -> (r: RenewalTask)
        ensures
            r@ == self@,
    {
        RenewalTask {
            id: self.id.clone(),
            status: self.status,
            created_at: self.created_at,
            completed_at: self.completed_at,
            result: match &self.result {
                Some(r) => Some(RenewalResult {
                    success: r.success,
                    message: r.message.clone(),
                    new_expiry: r.new_expiry,
                    error: copy_opt_string(&r.error),
                }),
                None => None,
            },
        }
    }
}

/// How close the certificate is to expiry.
#[derive(Clone, Copy, PartialEq, Eq, Structural, Debug)]
pub enum CertificateExpiryStatus {
    Valid { days_remaining: u32 },
    NeedsRenewal { days_remaining: u32, threshold: u32 },
    Expired,
    NotLoaded,
}

/// Certificate and renewal counts.
pub struct SslCertStats {
    pub certificate_loaded: bool,
    pub days_until_expiry: Option<i64>,
    pub total_renewals: usize,
    pub successful_renewals: usize,
    pub failed_renewals: usize,
    pub pending_renewals: usize,
}

/// The expiry status of a certificate with `days` days left under `threshold`.
pub open spec fn expiry_status(days: i64, threshold: u32) -> CertificateExpiryStatus {
    if days <= 0 {
        CertificateExpiryStatus::Expired
    } else if days <= threshold as i64 {
        CertificateExpiryStatus::NeedsRenewal { days_remaining: days as u32, threshold }
    } else {
        CertificateExpiryStatus::Valid { days_remaining: days as u32 }
    }
}

/// Whether a certificate is within its validity period at `now` (seconds).
pub open spec fn in_validity(c: CertificateView, now: u64) -> bool {
    c.valid_from <= now && now < c.valid_until
}

/// The certificate record loaded at `now` (seconds).
pub open spec fn loaded_certificate(c: CertificateView, now: u64) -> bool {
    &&& c.subject == "CN=minecraft-server"@
    &&& c.issuer == "Let's Encrypt Authority X3"@
    &&& c.valid_from == now.saturating_sub(SIXTY_DAYS_SECS)
    &&& c.valid_until == now.saturating_add(SIXTY_DAYS_SECS)
    &&& c.serial_number == "04:7A:3B:9C:1D:8E:4F:2A"@
    &&& c.is_valid
    &&& c.days_until_expiry == 60
    &&& c.fingerprint_sha256 == "A1:B2:C3:D4:E5:F6:A7:B8:C9:D0:E1:F2:A3:B4:C5:D6:E7:F8:09:1A:2B:3C:4D:5E:6F:70:81:92:A3:B4:C5"@
}

/// The upper-cased first `n` characters of `s`.
pub open spec fn upper_prefix(s: Seq<char>, n: int) -> Seq<char> {
    Seq::new(n as nat, |i: int| ascii_upper(s[i]))
}

/// The certificate record issued by a renewal at `now` (seconds) with serial
/// number taken from identifier `id`.
pub open spec fn renewed_certificate(c: CertificateView, now: u64, id: Seq<char>) -> bool {
    &&& c.subject == "CN=minecraft-server"@
    &&& c.issuer == "Let's Encrypt Authority X3"@
    &&& c.valid_from == now
    &&& c.valid_until == now.saturating_add(NINETY_DAYS_SECS)
    &&& c.serial_number == upper_prefix(id, 18)
    &&& c.is_valid
    &&& c.days_until_expiry == 90
    &&& c.fingerprint_sha256 == "NEW:1:2:3:4:5:6:7:8:9:0:A:B:C:D:E:F:1:2:3:4:5:6:7:8:9:0:A:B:C:D:E:F:1:2"@
}

/// The tasks of `s` still pending or in progress, in order.
pub open spec fn pending_of(s: Seq<RenewalTaskView>) -> Seq<RenewalTaskView>
    decreases s.len(),
{
    if s.len() == 0 {
        seq![]
    } else if s.last().status == RenewalStatus::Pending || s.last().status == RenewalStatus::InProgress {
        pending_of(s.drop_last()).push(s.last())
    } else {
        pending_of(s.drop_last())
    }
}

/// How many tasks of `s` have a result whose success is `ok`.
pub open spec fn outcome_count(s: Seq<RenewalTaskView>, ok: bool) -> nat
    decreases s.len(),
{
    if s.len() == 0 {
        0
    } else {
        outcome_count(s.drop_last(), ok) + if s.last().result matches Some(r) && r.success == ok { 1nat } else { 0nat }
    }
}

/// The plain content of each task.
pub open spec fn tasks_view(v: Seq<RenewalTask>) -> Seq<RenewalTaskView> {
    v.map_values(|t: RenewalTask| t@)
}

fn upper_serial(id: &str) -> (s: String)
    requires
        id@.len() >= 18,
    ensures
        s@ == upper_prefix(id@, 18),
{
    let chars = chars_of(id);
    let mut out: Vec<char> = Vec::new();
    let mut i: usize = 0;
    while i < 18
        invariant
            chars@ == id@,
            chars@.len() >= 18,
            i <= 18,
            out@ == upper_prefix(id@, i as int),
        decreases 18 - i,
    {
        let c = chars[i];
        let u = if 'a' <= c && c <= 'z' { (((c as u32) - 32) as u8) as char } else { c };
        out.push(u);
        i = i + 1;
        assert(out@ =~= upper_prefix(id@, i as int));
    }
    string_from_chars(&out)
}

fn copy_tasks(v: &Vec<RenewalTask>) -> (r: Vec<RenewalTask>)
    ensures
        tasks_view(r@) == tasks_view(v@),
{
    let n = v.len();
    let mut r: Vec<RenewalTask> = Vec::new();
    let mut i: usize = 0;
    while i < n
        invariant
            n == v@.len(),
            i <= n,
            tasks_view(r@) == tasks_view(v@).subrange(0, i as int),
        decreases n - i,
    {
        let ghost before = tasks_view(r@);
        r.push(v[i].duplicate());
        assert(tasks_view(r@) =~= before.push(v@[i as int]@));
        i = i + 1;
        assert(tasks_view(r@) =~= tasks_view(v@).subrange(0, i as int));
    }
    assert(tasks_view(v@).subrange(0, n as int) =~= tasks_view(v@));
    r
}

/// The certificate, renewal tasks and renewal history.
pub struct SslCertManager {
    config: SslCertConfig,
    current_cert: Option<CertificateInfo>,
    renewal_tasks: Vec<RenewalTask>,
    renewal_history: Vec<RenewalTask>,
}

/// What renewing at `now_ms` does: a completed task (with a successful result
/// and a ninety-day expiry) is recorded in the task list and the history, and a
/// new certificate replaces the current one.
pub open spec fn renewal_post(old: SslCertManager, new: SslCertManager, now_ms: u64, r: Result<String, String>) -> bool {
    let now = now_ms / 1000;
    r matches Ok(id) && {
        let task = new.task_list().last();
        &&& is_hyphenated_uuid(id@)
        &&& new.task_list().len() == old.task_list().len() + 1
        &&& new.task_list().drop_last() == old.task_list()
        &&& task.id == id@
        &&& task.status == RenewalStatus::Completed
        &&& task.created_at == now_ms
        &&& task.completed_at == Some(now_ms)
        &&& task.result == Some(RenewalResultView {
            success: true,
            message: "Certificate renewed successfully via Let's Encrypt ACME"@,
            new_expiry: Some(now.saturating_add(NINETY_DAYS_SECS)),
            error: None,
        })
        &&& new.history().drop_last() == old.history()
        &&& new.history().len() == old.history().len() + 1
        &&& new.history().last() == task
        &&& new.certificate() matches Some(c) && renewed_certificate(c, now, id@)
        &&& new.config_view() == old.config_view()
    }
}

impl SslCertManager {
    /// The current certificate record, if one is loaded.
    pub closed spec fn certificate(&self) -> Option<CertificateView> {
        match self.current_cert {
            Some(c) => Some(c@),
            None => None,
        }
    }

    /// The renewal tasks, oldest first.
    pub closed spec fn task_list(&self) -> Seq<RenewalTaskView> {
        tasks_view(self.renewal_tasks@)
    }

    /// The finished renewals, oldest first.
    pub closed spec fn history(&self) -> Seq<RenewalTaskView> {
        tasks_view(self.renewal_history@)
    }

    /// The configuration.
    pub closed spec fn config_view(&self) -> SslCertConfig {
        self.config
    }

    /// No certificate, no tasks, default configuration.
    pub fn new() -> (m: SslCertManager)
        ensures
            m.certificate() is None,
            m.task_list() == Seq::<RenewalTaskView>::empty(),
            m.history() == Seq::<RenewalTaskView>::empty(),
            m.config_view().is_default(),
    {
        let m = SslCertManager {
            config: SslCertConfig::default_config(),
            current_cert: None,
            renewal_tasks: Vec::new(),
            renewal_history: Vec::new(),
        };
        assert(m.task_list() =~= Seq::<RenewalTaskView>::empty());
        assert(m.history() =~= Seq::<RenewalTaskView>::empty());
        m
    }

    /// Replaces the configuration.
    pub fn set_config(&mut self, config: SslCertConfig)
        ensures
            final(self).config_view() == config,
            final(self).certificate() == old(self).certificate(),
            final(self).task_list() == old(self).task_list(),
            final(self).history() == old(self).history(),
    {
        self.config = config;
    }

    /// A copy of the configuration.
    pub fn get_config(&self) -> (c: SslCertConfig)
        ensures
            c.cert_path@ == self.config_view().cert_path@,
            c.key_path@ == self.config_view().key_path@,
            c.renewal_threshold_days == self.config_view().renewal_threshold_days,
            c.auto_renewal_enabled == self.config_view().auto_renewal_enabled,
            c.check_interval_hours == self.config_view().check_interval_hours,
            c.acme_email == self.config_view().acme_email,
    {
        self.config.duplicate()
    }

    /// Loads the certificate record at `now` (seconds): valid from sixty days
    /// before to sixty days after.
    pub fn load_certificate_at(&mut self, now: u64) -> (r: Result<CertificateInfo, String>)
        ensures
            r matches Ok(c) && loaded_certificate(c@, now) && final(self).certificate() == Some(c@),
            final(self).task_list() == old(self).task_list(),
            final(self).history() == old(self).history(),
            final(self).config_view() == old(self).config_view(),
    {
        let info = CertificateInfo {
            subject: owned("CN=minecraft-server"),
            issuer: owned("Let's Encrypt Authority X3"),
            valid_from: now.saturating_sub(SIXTY_DAYS_SECS),
            valid_until: now.saturating_add(SIXTY_DAYS_SECS),
            serial_number: owned("04:7A:3B:9C:1D:8E:4F:2A"),
            is_valid: true,
            days_until_expiry: 60,
            fingerprint_sha256: owned("A1:B2:C3:D4:E5:F6:A7:B8:C9:D0:E1:F2:A3:B4:C5:D6:E7:F8:09:1A:2B:3C:4D:5E:6F:70:81:92:A3:B4:C5"),
        };
        self.current_cert = Some(info.duplicate());
        Ok(info)
    }

    /// Loads the certificate record now.
    pub fn load_certificate(&mut self) -> (r: Result<CertificateInfo, String>)
        ensures
            r matches Ok(c) && (exists|now: u64| loaded_certificate(c@, now)) && final(self).certificate() == Some(c@),
            final(self).task_list() == old(self).task_list(),
            final(self).history() == old(self).history(),
    {
        let now = now_millis_unsigned() / 1000;
        self.load_certificate_at(now)
    }

    /// A copy of the current certificate record, if any.
    pub fn get_certificate(&self) -> (r: Option<CertificateInfo>)
        ensures
            match r {
                Some(c) => self.certificate() == Some(c@),
                None => self.certificate() is None,
            },
    {
        match &self.current_cert {
            Some(c) => Some(c.duplicate()),
            None => None,
        }
    }

    /// How close the current certificate is to expiry, by its recorded days left.
    pub fn check_certificate_expiry(&self) -> (s: CertificateExpiryStatus)
        ensures
            s == match self.certificate() {
                None => CertificateExpiryStatus::NotLoaded,
                Some(c) => expiry_status(c.days_until_expiry, self.config_view().renewal_threshold_days),
            },
    {
        let cert = match &self.current_cert {
            Some(c) => c,
            None => return CertificateExpiryStatus::NotLoaded,
        };
        let days = cert.days_until_expiry;
        let threshold = self.config.renewal_threshold_days;
        if days <= 0 {
            CertificateExpiryStatus::Expired
        } else if days <= threshold as i64 {
            CertificateExpiryStatus::NeedsRenewal { days_remaining: #[verifier::truncate] (days as u32), threshold }
        } else {
            CertificateExpiryStatus::Valid { days_remaining: #[verifier::truncate] (days as u32) }
        }
    }

    /// Renews the certificate at `now_ms` (see `renewal_post`); returns the task id.
    pub fn initiate_renewal_at(&mut self, now_ms: u64) -> (r: Result<String, String>)
        ensures
            renewal_post(*old(self), *final(self), now_ms, r),
    {
        let task_id = new_uuid_string();
        let now = now_ms / 1000;
        let new_expiry = now.saturating_add(NINETY_DAYS_SECS);
        let task = RenewalTask {
            id: task_id.clone(),
            status: RenewalStatus::Completed,
            created_at: now_ms,
            completed_at: Some(now_ms),
            result: Some(RenewalResult {
                success: true,
                message: owned("Certificate renewed successfully via Let's Encrypt ACME"),
                new_expiry: Some(new_expiry),
                error: None,
            }),
        };
        let record = task.duplicate();
        let ghost tv = task@;
        let ghost t0 = self.task_list();
        let ghost h0 = self.history();
        self.renewal_tasks.push(task);
        assert(self.task_list() =~= t0.push(tv));
        self.current_cert = Some(CertificateInfo {
            subject: owned("CN=minecraft-server"),
            issuer: owned("Let's Encrypt Authority X3"),
            valid_from: now,
            valid_until: new_expiry,
            serial_number: upper_serial(task_id.as_str()),
            is_valid: true,
            days_until_expiry: 90,
            fingerprint_sha256: owned("NEW:1:2:3:4:5:6:7:8:9:0:A:B:C:D:E:F:1:2:3:4:5:6:7:8:9:0:A:B:C:D:E:F:1:2"),
        });
        self.renewal_history.push(record);
        assert(self.history() =~= h0.push(tv));
        assert(self.task_list().drop_last() =~= t0);
        assert(self.history().drop_last() =~= h0);
        Ok(task_id)
    }

    /// Renews the certificate now.
    pub fn initiate_renewal(&mut self) -> (r: Result<String, String>)
        ensures
            exists|now_ms: u64| renewal_post(*old(self), *final(self), now_ms, r),
    {
        let now = now_millis_unsigned();
        self.initiate_renewal_at(now)
    }

    /// A copy of the oldest task with id `id`, if any.
    pub fn get_renewal_status(&self, task_id: &str) -> (r: Option<RenewalTask>)
        ensures
            match r {
                Some(t) => exists|i: int| 0 <= i < self.task_list().len() && #[trigger] self.task_list()[i].id == task_id@
                    && t@ == self.task_list()[i] && forall|j: int| 0 <= j < i ==> #[trigger] self.task_list()[j].id != task_id@,
                None => forall|i: int| 0 <= i < self.task_list().len() ==> #[trigger] self.task_list()[i].id != task_id@,
            },
    {
        let n = self.renewal_tasks.len();
        let mut i: usize = 0;
        while i < n
            invariant
                n == self.renewal_tasks@.len(),
                i <= n,
                forall|j: int| 0 <= j < i ==> #[trigger] self.task_list()[j].id != task_id@,
            decreases n - i,
        {
            if str_eq(self.renewal_tasks[i].id.as_str(), task_id) {
                assert(self.task_list()[i as int].id == task_id@);
                return Some(self.renewal_tasks[i].duplicate());
            }
            assert(self.task_list()[i as int].id != task_id@);
            i = i + 1;
        }
        None
    }

    /// Copies of the tasks pending or in progress, oldest first.
    pub fn get_pending_renewals(&self) -> (v: Vec<RenewalTask>)
        ensures
            tasks_view(v@) == pending_of(self.task_list()),
    {
        let ghost s = self.task_list();
        let n = self.renewal_tasks.len();
        let mut v: Vec<RenewalTask> = Vec::new();
        let mut i: usize = 0;
        while i < n
            invariant
                n == self.renewal_tasks@.len(),
                s == self.task_list(),
                i <= n,
                tasks_view(v@) == pending_of(s.subrange(0, i as int)),
            decreases n - i,
        {
            proof { assert(s.subrange(0, i + 1).drop_last() =~= s.subrange(0, i as int)); }
            let st = self.renewal_tasks[i].status;
            if st == RenewalStatus::Pending || st == RenewalStatus::InProgress {
                let ghost before = tasks_view(v@);
                v.push(self.renewal_tasks[i].duplicate());
                assert(tasks_view(v@) =~= before.push(s[i as int]));
            }
            i = i + 1;
        }
        proof { assert(s.subrange(0, n as int) =~= s); }
        v
    }

    /// Copies of the finished renewals, oldest first.
    pub fn get_renewal_history(&self) -> (v: Vec<RenewalTask>)
        ensures
            tasks_view(v@) == self.history(),
    {
        copy_tasks(&self.renewal_history)
    }

    /// Certificate and renewal counts.
    pub fn get_stats(&self) -> (st: SslCertStats)
        ensures
            st.certificate_loaded == (self.certificate() is Some),
            st.days_until_expiry == match self.certificate() { Some(c) => Some(c.days_until_expiry), None => None::<i64> },
            st.total_renewals == self.history().len(),
            st.successful_renewals == outcome_count(self.history(), true),
            st.failed_renewals == outcome_count(self.history(), false),
            st.pending_renewals == pending_of(self.task_list()).len(),
    {
        let ghost h = self.history();
        let n = self.renewal_history.len();
        let mut ok: usize = 0;
        let mut bad: usize = 0;
        let mut i: usize = 0;
        while i < n
            invariant
                n == self.renewal_history@.len(),
                h == self.history(),
                i <= n,
                ok == outcome_count(h.subrange(0, i as int), true),
                bad == outcome_count(h.subrange(0, i as int), false),
                ok + bad <= i,
            decreases n - i,
        {
            proof { assert(h.subrange(0, i + 1).drop_last() =~= h.subrange(0, i as int)); }
            match &self.renewal_history[i].result {
                Some(r) => {
                    if r.success { ok = ok + 1; } else { bad = bad + 1; }
                }
                None => {}
            }
            i = i + 1;
        }
        proof { assert(h.subrange(0, n as int) =~= h); }
        let pending = self.get_pending_renewals();
        let days = match &self.current_cert {
            Some(c) => Some(c.days_until_expiry),
            None => None,
        };
        SslCertStats {
            certificate_loaded: self.current_cert.is_some(),
            days_until_expiry: days,
            total_renewals: n,
            successful_renewals: ok,
            failed_renewals: bad,
            pending_renewals: pending.len(),
        }
    }

    /// Whether the current certificate is within its validity period at `now`
    /// (seconds); an error when none is loaded.
    pub fn verify_certificate_at(&self, now: u64) -> (r: Result<bool, String>)
        ensures
            match self.certificate() {
                None => r matches Err(e) && e@ == "No certificate loaded"@,
                Some(c) => r == Ok::<bool, String>(in_validity(c, now)),
            },
    {
        let cert = match &self.current_cert {
            Some(c) => c,
            None => return Err(owned("No certificate loaded")),
        };
        if cert.valid_from > now {
            return Ok(false);
        }
        if cert.valid_until <= now {
            return Ok(false);
        }
        Ok(true)
    }

    /// Whether the current certificate is within its validity period now.
    pub fn verify_certificate(&self) -> (r: Result<bool, String>)
        ensures
            match self.certificate() {
                None => r matches Err(e) && e@ == "No certificate loaded"@,
                Some(c) => exists|now: u64| r == Ok::<bool, String>(in_validity(c, now)),
            },
    {
        let now = now_millis_unsigned() / 1000;
        self.verify_certificate_at(now)
    }

    /// A certificate signing request naming `common_name`.
    pub fn generate_csr(&self, common_name: &str) -> (r: Result<String, String>)
        ensures
            r matches Ok(s) && s@ == "-----BEGIN CERTIFICATE REQUEST-----\nMIICijCCAXICAQAwRTELMAkGA1UEBhMCQVUxEzARBgNVBAgMClNvbWUtU3RhdGUx\nITAfBgNVBA MGAAAAAName:"@
                + common_name@ + ":CSR_DATA\n-----END CERTIFICATE REQUEST-----"@,
    {
        let a = concat("-----BEGIN CERTIFICATE REQUEST-----\nMIICijCCAXICAQAwRTELMAkGA1UEBhMCQVUxEzARBgNVBAgMClNvbWUtU3RhdGUx\nITAfBgNVBA MGAAAAAName:", common_name);
        Ok(concat(a.as_str(), ":CSR_DATA\n-----END CERTIFICATE REQUEST-----"))
    }
}

impl Default for SslCertManager {
    fn default() -> (m: SslCertManager)
        ensures
            m.certificate() is None,
            m.task_list() == Seq::<RenewalTaskView>::empty(),
            m.history() == Seq::<RenewalTaskView>::empty(),
            m.config_view().is_default(),
    {
        SslCertManager::new()
    }
}

/// A certificate just renewed is within its validity period at the renewal time.
pub proof fn law_renewed_certificate_is_valid(m1: SslCertManager, m2: SslCertManager, now_ms: u64, r: Result<String, String>)
    requires
        renewal_post(m1, m2, now_ms, r),
        now_ms / 1000 < u64::MAX - NINETY_DAYS_SECS,
    ensures
        m2.certificate() matches Some(c) && in_validity(c, now_ms / 1000),
{
}

/// A certificate just loaded is within its validity period at the load time.
pub proof fn law_loaded_certificate_is_valid(c: CertificateView, now: u64)
    requires
        loaded_certificate(c, now),
        now < u64::MAX,
    ensures
        in_validity(c, now),
{
}

/// A certificate just renewed is not due for renewal while the threshold is
/// under ninety days.
pub proof fn law_renewed_certificate_needs_no_renewal(m1: SslCertManager, m2: SslCertManager, now_ms: u64, r: Result<String, String>)
    requires
        renewal_post(m1, m2, now_ms, r),
        m1.config_view().renewal_threshold_days < 90,
    ensures
        m2.certificate() matches Some(c) && expiry_status(c.days_until_expiry, m2.config_view().renewal_threshold_days)
            == (CertificateExpiryStatus::Valid { days_remaining: 90 }),
{
}

} // verus!
