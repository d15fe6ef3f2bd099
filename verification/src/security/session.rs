//! User sessions with idle and absolute timeouts, permissions and a per-user
//! session limit. Times are milliseconds on one clock.
use vstd::prelude::*;
use crate::keyed::{Keyed, Store, unique_keys, has_key, CountEntry, bump_count};
use crate::text::{owned, str_eq, opt_view, strings_view, without, remove_all, contains_str, copy_opt_string, copy_strings};
use crate::ids::{new_uuid_string, is_hyphenated_uuid};
use crate::clock::now_millis_unsigned;
use crate::security::ddos_protection::deadline;
use crate::security::rcon_brute_force::lemma_has_key_step;

verus! {

/// Timeouts, per-user limit and refresh tokens.
#[derive(Clone, Copy, Debug)]
pub struct SessionConfig {
    pub session_timeout_mins: u64,
    pub absolute_timeout_mins: u64,
    pub max_sessions_per_user: usize,
    pub refresh_token_enabled: bool,
    pub refresh_token_expiry_days: u64,
}

impl SessionConfig {
    /// 30-minute idle timeout, 8-hour absolute timeout, 5 sessions per user,
    /// refresh tokens valid for 7 days.
    pub open spec fn default_spec() -> SessionConfig {
        SessionConfig {
            session_timeout_mins: 30,
            absolute_timeout_mins: 480,
            max_sessions_per_user: 5,
            refresh_token_enabled: true,
            refresh_token_expiry_days: 7,
        }
    }

    /// The default configuration.
    pub fn default_config() -> (c: SessionConfig)
        ensures
            c == SessionConfig::default_spec(),
    {
        SessionConfig {
            session_timeout_mins: 30,
            absolute_timeout_mins: 480,
            max_sessions_per_user: 5,
            refresh_token_enabled: true,
            refresh_token_expiry_days: 7,
        }
    }

    /// Timeouts in seconds fit in 64 bits.
    pub open spec fn timeouts_fit(self) -> bool {
        self.session_timeout_mins * 60 <= u64::MAX && self.absolute_timeout_mins * 60 <= u64::MAX
    }
}

impl Default for SessionConfig {
    fn default() -> (c: SessionConfig)
        ensures
            c == SessionConfig::default_spec(),
    {
        SessionConfig::default_config()
    }
}

/// One login session.
pub struct Session {
    pub id: String,
    pub user_id: String,
    pub username: String,
    pub created_at: u64,
    pub last_activity: u64,
    pub expires_at: u64,
    pub absolute_expires_at: u64,
    pub ip_address: Option<String>,
    pub user_agent: Option<String>,
    pub is_active: bool,
    pub permissions: Vec<String>,
    pub refresh_token: Option<String>,
}

/// The plain content of a session.
pub struct SessionView {
    pub id: Seq<char>,
    pub user_id: Seq<char>,
    pub username: Seq<char>,
    pub created_at: u64,
    pub last_activity: u64,
    pub expires_at: u64,
    pub absolute_expires_at: u64,
    pub ip_address: Option<Seq<char>>,
    pub user_agent: Option<Seq<char>>,
    pub is_active: bool,
    pub permissions: Seq<Seq<char>>,
    pub refresh_token: Option<Seq<char>>,
}

impl View for Session {
    type V = SessionView;

    open spec fn view(&self) -> SessionView {
        SessionView {
            id: self.id@,
            user_id: self.user_id@,
            username: self.username@,
            created_at: self.created_at,
            last_activity: self.last_activity,
            expires_at: self.expires_at,
            absolute_expires_at: self.absolute_expires_at,
            ip_address: opt_view(self.ip_address),
            user_agent: opt_view(self.user_agent),
            is_active: self.is_active,
            permissions: strings_view(self.permissions@),
            refresh_token: opt_view(self.refresh_token),
        }
    }
}

impl Keyed for Session {
    open spec fn key_view(&self) -> Seq<char> {
        self.id@
    }

    fn key_str(&self) -> (r: &str) {
        self.id.as_str()
    }
}

/// Past the idle deadline or the absolute deadline at `now`.
pub open spec fn expired_at(s: SessionView, now: u64) -> bool {
    now > s.expires_at || now > s.absolute_expires_at
}

/// Active and not expired at `now`.
pub open spec fn valid_at(s: SessionView, now: u64) -> bool {
    s.is_active && !expired_at(s, now)
}

/// Granted `p`, directly or through the wildcard `*`.
pub open spec fn grants(s: SessionView, p: Seq<char>) -> bool {
    s.permissions.contains(p) || s.permissions.contains("*"@)
}

impl Session {
    /// A new active session for a user, created at `now`, with a random id and,
    /// when refresh tokens are enabled, a random refresh token.
    pub fn new(user_id: String, username: String, config: &SessionConfig, now: u64) -> (s: Session)
        requires
            config.timeouts_fit(),
        ensures
            is_hyphenated_uuid(s@.id),
            s@.user_id == user_id@,
            s@.username == username@,
            s@.created_at == now && s@.last_activity == now,
            s@.expires_at == deadline(now, (config.session_timeout_mins * 60) as u64),
            s@.absolute_expires_at == deadline(now, (config.absolute_timeout_mins * 60) as u64),
            s@.ip_address is None && s@.user_agent is None,
            s@.is_active,
            s@.permissions == Seq::<Seq<char>>::empty(),
            s@.refresh_token is Some <==> config.refresh_token_enabled,
            s@.refresh_token matches Some(t) ==> is_hyphenated_uuid(t),
    {
        let refresh_token = if config.refresh_token_enabled { Some(new_uuid_string()) } else { None };
        let s = Session {
            id: new_uuid_string(),
            user_id,
            username,
            created_at: now,
            last_activity: now,
            expires_at: now.saturating_add(crate::security::ddos_protection::secs_to_millis(config.session_timeout_mins * 60)),
            absolute_expires_at: now.saturating_add(crate::security::ddos_protection::secs_to_millis(config.absolute_timeout_mins * 60)),
            ip_address: None,
            user_agent: None,
            is_active: true,
            permissions: Vec::new(),
            refresh_token,
        };
        assert(s@.permissions =~= Seq::<Seq<char>>::empty());
        s
    }

    /// Whether the session has expired at `now`.
    pub fn is_expired(&self, now: u64) -> (b: bool)
        ensures
            b == expired_at(self@, now),
    {
        now > self.expires_at || now > self.absolute_expires_at
    }

    /// Whether the session is active and unexpired at `now`.
    pub fn is_valid(&self, now: u64) -> (b: bool)
        ensures
            b == valid_at(self@, now),
    {
        self.is_active && !self.is_expired(now)
    }

    /// Records activity at `now` and moves the idle deadline.
    pub fn touch(&mut self, config: &SessionConfig, now: u64)
        requires
            config.session_timeout_mins * 60 <= u64::MAX,
        ensures
            final(self)@ == (SessionView {
                last_activity: now,
                expires_at: deadline(now, (config.session_timeout_mins * 60) as u64),
                ..old(self)@
            }),
    {
        self.last_activity = now;
        self.expires_at = now.saturating_add(crate::security::ddos_protection::secs_to_millis(config.session_timeout_mins * 60));
    }

    /// Marks the session inactive.
    pub fn invalidate(&mut self)
        ensures
            final(self)@ == (SessionView { is_active: false, ..old(self)@ }),
    {
        self.is_active = false;
    }

    /// Replaces the client address and user agent.
    pub fn update_context(&mut self, ip_address: Option<String>, user_agent: Option<String>)
        ensures
            final(self)@ == (SessionView { ip_address: opt_view(ip_address), user_agent: opt_view(user_agent), ..old(self)@ }),
    {
        self.ip_address = ip_address;
        self.user_agent = user_agent;
    }

    /// Grants a permission unless already granted.
    pub fn add_permission(&mut self, permission: String)
        ensures
            final(self)@ == (SessionView {
                permissions: if old(self)@.permissions.contains(permission@) {
                    old(self)@.permissions
                } else {
                    old(self)@.permissions.push(permission@)
                },
                ..old(self)@
            }),
    {
        if !contains_str(&self.permissions, permission.as_str()) {
            let ghost before = strings_view(self.permissions@);
            self.permissions.push(permission);
            assert(strings_view(self.permissions@) =~= before.push(permission@));
        }
    }

    /// Revokes every grant equal to `permission`.
    pub fn remove_permission(&mut self, permission: &str)
        ensures
            final(self)@ == (SessionView { permissions: without(old(self)@.permissions, permission@), ..old(self)@ }),
    {
        let kept = remove_all(&self.permissions, permission);
        self.permissions = kept;
    }

    /// Whether `permission` or the wildcard is granted.
    pub fn has_permission(&self, permission: &str) -> (b: bool)
        ensures
            b == grants(self@, permission@),
    {
        contains_str(&self.permissions, permission) || contains_str(&self.permissions, "*")
    }

    /// Milliseconds until the idle deadline (zero once passed).
    pub fn remaining_ttl(&self, now: u64) -> (ms: u64)
        ensures
            ms == self.expires_at.saturating_sub(now),
    {
        self.expires_at.saturating_sub(now)
    }

    /// A field-by-field copy.
    pub fn duplicate(&self) -> (r: Session)
        ensures
            r@ == self@,
    {
        Session {
            id: self.id.clone(),
            user_id: self.user_id.clone(),
            username: self.username.clone(),
            created_at: self.created_at,
            last_activity: self.last_activity,
            expires_at: self.expires_at,
            absolute_expires_at: self.absolute_expires_at,
            ip_address: copy_opt_string(&self.ip_address),
            user_agent: copy_opt_string(&self.user_agent),
            is_active: self.is_active,
            permissions: copy_strings(&self.permissions),
            refresh_token: copy_opt_string(&self.refresh_token),
        }
    }
}


/// The session ids of one user, in creation order.
pub struct UserSessions {
    pub user_id: String,
    pub session_ids: Vec<String>,
}

impl Keyed for UserSessions {
    open spec fn key_view(&self) -> Seq<char> {
        self.user_id@
    }

    fn key_str(&self) -> (r: &str) {
        self.user_id.as_str()
    }
}

/// Session lifecycle events.
#[derive(Clone, Copy, PartialEq, Eq, Debug)]
pub enum SessionEvent {
    Created,
    Refreshed,
    Invalidated,
    Expired,
}

/// An event and the session it concerns, for listeners.
pub struct SessionNotice {
    pub event: SessionEvent,
    pub session: Session,
}

/// The answer to validating a session id.
pub enum SessionValidationResult {
    Valid { session: Session },
    Expired { session_id: String },
    Invalid { reason: String },
    NotFound,
}

impl SessionValidationResult {
    /// Whether the session is valid.
    pub fn is_valid(&self) -> (b: bool)
        ensures
            b == (*self is Valid),
    {
        match self {
            SessionValidationResult::Valid { .. } => true,
            _ => false,
        }
    }
}

/// Session counters and distributions.
pub struct SessionStats {
    pub total_sessions: usize,
    pub active_sessions: usize,
    pub expired_sessions: usize,
    pub unique_users: usize,
    pub sessions_per_user: Vec<CountEntry>,
    pub sessions_per_ip: Vec<CountEntry>,
}

/// The ids of `ids` whose session exists and is valid at `now`, in order.
pub open spec fn live_ids(ids: Seq<Seq<char>>, sessions: Map<Seq<char>, Session>, now: u64) -> Seq<Seq<char>>
    decreases ids.len(),
{
    if ids.len() == 0 {
        seq![]
    } else if sessions.dom().contains(ids.last()) && valid_at(sessions[ids.last()]@, now) {
        live_ids(ids.drop_last(), sessions, now).push(ids.last())
    } else {
        live_ids(ids.drop_last(), sessions, now)
    }
}

/// The first id of `ids` whose session has the earliest creation time.
pub open spec fn first_oldest(ids: Seq<Seq<char>>, sessions: Map<Seq<char>, Session>) -> Seq<char>
    decreases ids.len(),
{
    if ids.len() <= 1 {
        ids[0]
    } else {
        let best = first_oldest(ids.drop_last(), sessions);
        if sessions[ids.last()].created_at < sessions[best].created_at { ids.last() } else { best }
    }
}

/// How many sessions of `s` each user has.
pub open spec fn count_by_user(s: Seq<Session>) -> Map<Seq<char>, nat>
    decreases s.len(),
{
    if s.len() == 0 {
        Map::empty()
    } else {
        let m = count_by_user(s.drop_last());
        let k = s.last().user_id@;
        m.insert(k, if m.dom().contains(k) { m[k] + 1 } else { 1 })
    }
}

/// How many sessions of `s` come from each client address.
pub open spec fn count_by_ip(s: Seq<Session>) -> Map<Seq<char>, nat>
    decreases s.len(),
{
    if s.len() == 0 {
        Map::empty()
    } else {
        let m = count_by_ip(s.drop_last());
        match s.last().ip_address {
            Some(ip) => m.insert(ip@, if m.dom().contains(ip@) { m[ip@] + 1 } else { 1 }),
            None => m,
        }
    }
}

/// The sessions of `s` valid at `now`, in order.
pub open spec fn valid_sessions(s: Seq<Session>, now: u64) -> Seq<Session>
    decreases s.len(),
{
    if s.len() == 0 {
        seq![]
    } else if valid_at(s.last()@, now) {
        valid_sessions(s.drop_last(), now).push(s.last())
    } else {
        valid_sessions(s.drop_last(), now)
    }
}

/// The sessions named by `ids` that exist, in the order of `ids`.
pub open spec fn sessions_of(ids: Seq<Seq<char>>, sessions: Map<Seq<char>, Session>) -> Seq<Session>
    decreases ids.len(),
{
    if ids.len() == 0 {
        seq![]
    } else if sessions.dom().contains(ids.last()) {
        sessions_of(ids.drop_last(), sessions).push(sessions[ids.last()])
    } else {
        sessions_of(ids.drop_last(), sessions)
    }
}

/// How many of `ids` name an existing session.
pub open spec fn existing_count(ids: Seq<Seq<char>>, sessions: Map<Seq<char>, Session>) -> nat {
    sessions_of(ids, sessions).len()
}

/// Session store: sessions by id, each user's session ids, configuration, and
/// the events not yet delivered to listeners.
pub struct SessionManager {
    sessions: Store<Session>,
    user_sessions: Store<UserSessions>,
    config: SessionConfig,
    events: Vec<SessionNotice>,
}

/// What invalidating session `id` does.
pub open spec fn invalidate_post(old: SessionManager, new: SessionManager, id: Seq<char>, r: Result<(), String>) -> bool {
    &&& new.config_view() == old.config_view()
    &&& if !old.sessions().dom().contains(id) {
        &&& r matches Err(e) && e@ == "Session not found"@
        &&& new.sessions() == old.sessions()
        &&& new.user_index() == old.user_index()
        &&& new.event_list() == old.event_list()
    } else {
        let s = old.sessions()[id]@;
        let u = s.user_id;
        let inactive = SessionView { is_active: false, ..s };
        &&& r is Ok
        &&& new.sessions().dom() =~= old.sessions().dom()
        &&& new.sessions()[id]@ == inactive
        &&& forall|k: Seq<char>| k != id && #[trigger] old.sessions().dom().contains(k) ==> new.sessions()[k] == old.sessions()[k]
        &&& new.user_index() =~= if old.user_index().dom().contains(u) {
            let rest = without(old.user_index()[u], id);
            if rest.len() == 0 { old.user_index().remove(u) } else { old.user_index().insert(u, rest) }
        } else {
            old.user_index()
        }
        &&& new.event_list() == old.event_list().push((SessionEvent::Invalidated, inactive))
    }
}

/// What creating a session for `user` at `now` does: when the user already has
/// as many valid sessions as allowed, the oldest of them is invalidated first.
pub open spec fn create_session_post(
    old: SessionManager, new: SessionManager, user: Seq<char>, username: Seq<char>,
    ip: Option<Seq<char>>, ua: Option<Seq<char>>, now: u64, r: Result<Session, String>,
) -> bool {
    let cfg = old.config_view();
    let live = live_ids(old.ids_of(user), old.sessions(), now);
    exists|mid: SessionManager| #![trigger mid.config_view()] {
        &&& if live.len() >= cfg.max_sessions_per_user && live.len() > 0 {
            invalidate_post(old, mid, first_oldest(live, old.sessions()), Ok(()))
        } else {
            mid == old
        }
        &&& r matches Ok(s) && {
            &&& is_hyphenated_uuid(s@.id)
            &&& s@.user_id == user && s@.username == username
            &&& s@.created_at == now && s@.last_activity == now
            &&& s@.expires_at == deadline(now, (cfg.session_timeout_mins * 60) as u64)
            &&& s@.absolute_expires_at == deadline(now, (cfg.absolute_timeout_mins * 60) as u64)
            &&& s@.ip_address == ip && s@.user_agent == ua
            &&& s@.is_active
            &&& s@.permissions == Seq::<Seq<char>>::empty()
            &&& (s@.refresh_token is Some <==> cfg.refresh_token_enabled)
            &&& new.sessions().dom() =~= mid.sessions().dom().insert(s@.id)
            &&& new.sessions()[s@.id]@ == s@
            &&& forall|k: Seq<char>| k != s@.id && #[trigger] mid.sessions().dom().contains(k) ==> new.sessions()[k] == mid.sessions()[k]
            &&& new.user_index() =~= mid.user_index().insert(user, mid.ids_of(user).push(s@.id))
            &&& new.event_list() == mid.event_list().push((SessionEvent::Created, s@))
        }
        &&& new.config_view() == cfg
    }
}

/// Whether `v` holds, in order, copies of the sessions of `m` valid at `now`.
pub open spec fn active_list(m: SessionManager, v: Seq<Session>, now: u64) -> bool {
    &&& v.len() == valid_sessions(m.session_list(), now).len()
    &&& forall|i: int| 0 <= i < v.len() ==> #[trigger] v[i]@ == valid_sessions(m.session_list(), now)[i]@
}

impl SessionManager {
    /// The sessions, by id.
    pub closed spec fn sessions(&self) -> Map<Seq<char>, Session> {
        self.sessions.map()
    }

    /// The sessions in their order.
    pub closed spec fn session_list(&self) -> Seq<Session> {
        self.sessions.items()
    }

    /// Each user's session ids, in creation order.
    pub closed spec fn user_index(&self) -> Map<Seq<char>, Seq<Seq<char>>> {
        Map::new(
            |u: Seq<char>| self.user_sessions.map().dom().contains(u),
            |u: Seq<char>| strings_view(self.user_sessions.map()[u].session_ids@),
        )
    }

    /// The session ids of `user` (none when the user has no entry).
    pub open spec fn ids_of(&self, user: Seq<char>) -> Seq<Seq<char>> {
        if self.user_index().dom().contains(user) { self.user_index()[user] } else { seq![] }
    }

    /// The configuration.
    pub closed spec fn config_view(&self) -> SessionConfig {
        self.config
    }

    /// The events not yet taken, oldest first.
    pub closed spec fn event_list(&self) -> Seq<(SessionEvent, SessionView)> {
        self.events@.map_values(|n: SessionNotice| (n.event, n.session@))
    }

    /// No sessions, default configuration.
    pub fn new() -> (m: SessionManager)
        ensures
            m.sessions() == Map::<Seq<char>, Session>::empty(),
            m.user_index() == Map::<Seq<char>, Seq<Seq<char>>>::empty(),
            m.config_view() == SessionConfig::default_spec(),
            m.event_list() == Seq::<(SessionEvent, SessionView)>::empty(),
    {
        let m = SessionManager {
            sessions: Store::new(),
            user_sessions: Store::new(),
            config: SessionConfig::default_config(),
            events: Vec::new(),
        };
        assert(m.user_index() =~= Map::<Seq<char>, Seq<Seq<char>>>::empty());
        assert(m.event_list() =~= Seq::<(SessionEvent, SessionView)>::empty());
        m
    }

    /// Replaces the configuration.
    pub fn set_config(&mut self, config: SessionConfig)
        ensures
            final(self).config_view() == config,
            final(self).sessions() == old(self).sessions(),
            final(self).user_index() == old(self).user_index(),
            final(self).event_list() == old(self).event_list(),
    {
        self.config = config;
    }

    /// The configuration.
    pub fn get_config(&self) -> (c: SessionConfig)
        ensures
            c == self.config_view(),
    {
        self.config
    }

    /// Hands the pending events to the caller, oldest first.
    pub fn take_events(&mut self) -> (v: Vec<SessionNotice>)
        ensures
            v@.map_values(|n: SessionNotice| (n.event, n.session@)) == old(self).event_list(),
            final(self).event_list() == Seq::<(SessionEvent, SessionView)>::empty(),
            final(self).sessions() == old(self).sessions(),
            final(self).user_index() == old(self).user_index(),
            final(self).config_view() == old(self).config_view(),
    {
        let mut v: Vec<SessionNotice> = Vec::new();
        std::mem::swap(&mut v, &mut self.events);
        assert(self.event_list() =~= Seq::<(SessionEvent, SessionView)>::empty());
        v
    }

    fn notify(&mut self, event: SessionEvent, session: &Session)
        ensures
            final(self).event_list() == old(self).event_list().push((event, session@)),
            final(self).sessions() == old(self).sessions(),
            final(self).user_index() == old(self).user_index(),
            final(self).config_view() == old(self).config_view(),
    {
        let ghost before = self.event_list();
        self.events.push(SessionNotice { event, session: session.duplicate() });
        assert(self.event_list() =~= before.push((event, session@)));
    }

    fn user_ids(&self, user: &str) -> (v: Vec<String>)
        ensures
            strings_view(v@) == self.ids_of(user@),
    {
        match self.user_sessions.get(user) {
            Some(entry) => copy_strings(&entry.session_ids),
            None => Vec::new(),
        }
    }

    /// Marks session `id` inactive and drops it from its user's list (and the
    /// user's entry once the list is empty).
    pub fn invalidate_session(&mut self, id: &str) -> (r: Result<(), String>)
        ensures
            invalidate_post(*old(self), *final(self), id@, r),
    {
        let mut session = match self.sessions.remove(id) {
            Some(s) => s,
            None => {
                proof { assert(old(self).sessions().remove(id@) =~= old(self).sessions()); }
                return Err(owned("Session not found"));
            }
        };
        session.is_active = false;
        let notice = session.duplicate();
        let user_id = session.user_id.clone();
        self.sessions.upsert(session);
        proof {
            assert(self.sessions().dom() =~= old(self).sessions().dom());
        }
        let ghost mid_index = self.user_index();
        assert(mid_index == old(self).user_index());
        match self.user_sessions.remove(user_id.as_str()) {
            Some(entry) => {
                let rest = remove_all(&entry.session_ids, id);
                if rest.len() == 0 {
                    assert(self.user_index() =~= old(self).user_index().remove(user_id@));
                } else {
                    self.user_sessions.upsert(UserSessions { user_id: user_id.clone(), session_ids: rest });
                    assert(self.user_index() =~= old(self).user_index().insert(user_id@, without(old(self).user_index()[user_id@], id@)));
                }
            }
            None => {
                assert(self.user_index() =~= old(self).user_index());
            }
        }
        self.notify(SessionEvent::Invalidated, &notice);
        Ok(())
    }

    /// Creates a session for a user at `now`; when the user already holds as
    /// many valid sessions as allowed, the oldest valid one is invalidated.
    pub fn create_session_at(
        &mut self, user_id: &str, username: &str, ip_address: Option<String>, user_agent: Option<String>, now: u64,
    ) -> (r: Result<Session, String>)
        requires
            old(self).config_view().timeouts_fit(),
        ensures
            create_session_post(*old(self), *final(self), user_id@, username@, opt_view(ip_address), opt_view(user_agent), now, r),
    {
        let config = self.config;
        let ids = self.user_ids(user_id);
        let ghost sv = strings_view(ids@);
        let n = ids.len();
        let mut count: usize = 0;
        let mut oldest: Option<usize> = None;
        let mut i: usize = 0;
        while i < n
            invariant
                n == ids@.len(),
                sv == strings_view(ids@),
                i <= n,
                count == live_ids(sv.subrange(0, i as int), self.sessions(), now).len(),
                count <= i,
                oldest is None ==> count == 0,
                oldest matches Some(j) ==> j < i && count > 0,
                oldest matches Some(j) ==> self.sessions().dom().contains(sv[j as int]),
                oldest matches Some(j) ==> sv[j as int] == first_oldest(live_ids(sv.subrange(0, i as int), self.sessions(), now), self.sessions()),
            decreases n - i,
        {
            proof {
                assert(sv.subrange(0, i + 1).drop_last() =~= sv.subrange(0, i as int));
                assert(sv.subrange(0, i + 1).last() == ids@[i as int]@);
            }
            let ghost live_before = live_ids(sv.subrange(0, i as int), self.sessions(), now);
            match self.sessions.get(ids[i].as_str()) {
                Some(s) => {
                    assert(self.sessions()[sv[i as int]] == *s);
                    if s.is_valid(now) {
                        count = count + 1;
                        assert(live_ids(sv.subrange(0, i + 1), self.sessions(), now) == live_before.push(sv[i as int]));
                        assert(live_before.push(sv[i as int]).drop_last() =~= live_before);
                        match oldest {
                            None => {
                                oldest = Some(i);
                                assert(live_before.len() == 0);
                                assert(live_before.push(sv[i as int]).len() == 1);
                            }
                            Some(j) => {
                                match self.sessions.get(ids[j].as_str()) {
                                    Some(b) => {
                                        assert(self.sessions()[sv[j as int]] == *b);
                                        assert(live_before.len() > 0);
                                        if s.created_at < b.created_at {
                                            oldest = Some(i);
                                        }
                                    }
                                    None => {}
                                }
                            }
                        }
                    }
                }
                None => {}
            }
            i = i + 1;
        }
        assert(sv.subrange(0, n as int) =~= sv);
        let ghost live = live_ids(sv, old(self).sessions(), now);
        assert(sv == old(self).ids_of(user_id@));
        if count >= config.max_sessions_per_user {
            match oldest {
                Some(j) => {
                    let res = self.invalidate_session(ids[j].as_str());
                    match res {
                        Ok(()) => {}
                        Err(e) => { return Err(e); }
                    }
                }
                None => {}
            }
        }
        let ghost mid = *self;
        let mut session = Session::new(owned(user_id), owned(username), &config, now);
        session.update_context(ip_address, user_agent);
        let entry_ids = self.user_ids(user_id);
        let mut entry_ids = entry_ids;
        let ghost before_ids = strings_view(entry_ids@);
        entry_ids.push(session.id.clone());
        assert(strings_view(entry_ids@) =~= before_ids.push(session@.id));
        self.sessions.upsert(session.duplicate());
        self.user_sessions.upsert(UserSessions { user_id: owned(user_id), session_ids: entry_ids });
        self.notify(SessionEvent::Created, &session);
        proof {
            assert(self.user_index() =~= mid.user_index().insert(user_id@, mid.ids_of(user_id@).push(session@.id)));
            if live.len() >= config.max_sessions_per_user && live.len() > 0 {
                assert(invalidate_post(*old(self), mid, first_oldest(live, old(self).sessions()), Ok(())));
            } else {
                assert(mid == *old(self));
            }
        }
        let result: Result<Session, String> = Ok(session);
        proof {
            let cfg = old(self).config_view();
            assert(mid.config_view() == cfg);
            assert(result matches Ok(s) && {
                &&& is_hyphenated_uuid(s@.id)
                &&& s@.user_id == user_id@ && s@.username == username@
                &&& s@.created_at == now && s@.last_activity == now
                &&& s@.expires_at == deadline(now, (cfg.session_timeout_mins * 60) as u64)
                &&& s@.absolute_expires_at == deadline(now, (cfg.absolute_timeout_mins * 60) as u64)
                &&& s@.ip_address == opt_view(ip_address) && s@.user_agent == opt_view(user_agent)
                &&& s@.is_active
                &&& s@.permissions == Seq::<Seq<char>>::empty()
                &&& (s@.refresh_token is Some <==> cfg.refresh_token_enabled)
                &&& self.sessions().dom() =~= mid.sessions().dom().insert(s@.id)
                &&& self.sessions()[s@.id]@ == s@
                &&& forall|k: Seq<char>| k != s@.id && #[trigger] mid.sessions().dom().contains(k) ==> self.sessions()[k] == mid.sessions()[k]
                &&& self.user_index() =~= mid.user_index().insert(user_id@, mid.ids_of(user_id@).push(s@.id))
                &&& self.event_list() == mid.event_list().push((SessionEvent::Created, s@))
            });
        }
        result
    }

    /// Creates a session at the current time.
    pub fn create_session(
        &mut self, user_id: &str, username: &str, ip_address: Option<String>, user_agent: Option<String>,
    ) -> (r: Result<Session, String>)
        requires
            old(self).config_view().timeouts_fit(),
        ensures
            exists|now: u64| create_session_post(*old(self), *final(self), user_id@, username@, opt_view(ip_address), opt_view(user_agent), now, r),
    {
        let now = now_millis_unsigned();
        self.create_session_at(user_id, username, ip_address, user_agent, now)
    }
}


/// What validating session `id` at `now` answers.
pub open spec fn validation_outcome(m: SessionManager, id: Seq<char>, now: u64, r: SessionValidationResult) -> bool {
    if !m.sessions().dom().contains(id) {
        r is NotFound
    } else if !m.sessions()[id]@.is_active {
        r matches SessionValidationResult::Invalid { reason } && reason@ == "session invalidated"@
    } else if expired_at(m.sessions()[id]@, now) {
        r matches SessionValidationResult::Expired { session_id } && session_id@ == id
    } else {
        r matches SessionValidationResult::Valid { session } && session@ == m.sessions()[id]@
    }
}

/// The session after a refresh at `now`.
pub open spec fn touched(s: SessionView, cfg: SessionConfig, now: u64) -> SessionView {
    SessionView { last_activity: now, expires_at: deadline(now, (cfg.session_timeout_mins * 60) as u64), ..s }
}

/// What refreshing session `id` at `now` does.
pub open spec fn refresh_post(old: SessionManager, new: SessionManager, id: Seq<char>, now: u64, r: Result<Session, String>) -> bool {
    &&& new.config_view() == old.config_view()
    &&& new.user_index() == old.user_index()
    &&& if !old.sessions().dom().contains(id) || !old.sessions()[id]@.is_active || expired_at(old.sessions()[id]@, now) {
        &&& new.sessions() == old.sessions()
        &&& new.event_list() == old.event_list()
        &&& r matches Err(e) && e@ == (if !old.sessions().dom().contains(id) {
            "Session not found"@
        } else if !old.sessions()[id]@.is_active {
            "Session invalidated"@
        } else {
            "Session expired"@
        })
    } else {
        let t = touched(old.sessions()[id]@, old.config_view(), now);
        &&& new.sessions().dom() =~= old.sessions().dom()
        &&& new.sessions()[id]@ == t
        &&& forall|k: Seq<char>| k != id && #[trigger] old.sessions().dom().contains(k) ==> new.sessions()[k] == old.sessions()[k]
        &&& new.event_list() == old.event_list().push((SessionEvent::Refreshed, t))
        &&& r matches Ok(s) && s@ == t
    }
}

impl SessionManager {
    /// A copy of session `id`, if any.
    pub fn get_session(&self, id: &str) -> (r: Option<Session>)
        ensures
            match r {
                Some(s) => self.sessions().dom().contains(id@) && s@ == self.sessions()[id@]@,
                None => !self.sessions().dom().contains(id@),
            },
    {
        match self.sessions.get(id) {
            Some(s) => Some(s.duplicate()),
            None => None,
        }
    }

    /// Validates session `id` at `now`.
    pub fn validate_session_at(&self, id: &str, now: u64) -> (r: SessionValidationResult)
        ensures
            validation_outcome(*self, id@, now, r),
    {
        match self.sessions.get(id) {
            None => SessionValidationResult::NotFound,
            Some(s) => {
                if !s.is_active {
                    SessionValidationResult::Invalid { reason: owned("session invalidated") }
                } else if s.is_expired(now) {
                    SessionValidationResult::Expired { session_id: owned(id) }
                } else {
                    SessionValidationResult::Valid { session: s.duplicate() }
                }
            }
        }
    }

    /// Validates session `id` now.
    pub fn validate_session(&self, id: &str) -> (r: SessionValidationResult)
        ensures
            exists|now: u64| validation_outcome(*self, id@, now, r),
    {
        let now = now_millis_unsigned();
        self.validate_session_at(id, now)
    }

    /// Extends the idle deadline of a valid session at `now`.
    pub fn refresh_session_at(&mut self, id: &str, now: u64) -> (r: Result<Session, String>)
        requires
            old(self).config_view().timeouts_fit(),
        ensures
            refresh_post(*old(self), *final(self), id@, now, r),
    {
        let config = self.config;
        let mut session = match self.sessions.remove(id) {
            Some(s) => s,
            None => {
                proof { assert(old(self).sessions().remove(id@) =~= old(self).sessions()); }
                return Err(owned("Session not found"));
            }
        };
        if !session.is_active {
            self.sessions.upsert(session);
            proof { assert(self.sessions() =~= old(self).sessions()); }
            return Err(owned("Session invalidated"));
        }
        if session.is_expired(now) {
            self.sessions.upsert(session);
            proof { assert(self.sessions() =~= old(self).sessions()); }
            return Err(owned("Session expired"));
        }
        session.touch(&config, now);
        let copy = session.duplicate();
        self.sessions.upsert(session);
        self.notify(SessionEvent::Refreshed, &copy);
        proof { assert(self.sessions().dom() =~= old(self).sessions().dom()); }
        Ok(copy)
    }

    /// Extends the idle deadline of a valid session now.
    pub fn refresh_session(&mut self, id: &str) -> (r: Result<Session, String>)
        requires
            old(self).config_view().timeouts_fit(),
        ensures
            exists|now: u64| refresh_post(*old(self), *final(self), id@, now, r),
    {
        let now = now_millis_unsigned();
        self.refresh_session_at(id, now)
    }

    /// Invalidates every session listed for `user_id`; returns how many list
    /// entries named an existing session.
    pub fn invalidate_all_user_sessions(&mut self, user_id: &str) -> (n: usize)
        ensures
            n == existing_count(old(self).ids_of(user_id@), old(self).sessions()),
            final(self).config_view() == old(self).config_view(),
            final(self).sessions().dom() == old(self).sessions().dom(),
            forall|k: Seq<char>| #[trigger] final(self).sessions().dom().contains(k) ==>
                final(self).sessions()[k]@ == if old(self).ids_of(user_id@).contains(k) {
                    SessionView { is_active: false, ..old(self).sessions()[k]@ }
                } else {
                    old(self).sessions()[k]@
                },
    {
        let ids = self.user_ids(user_id);
        let ghost sv = strings_view(ids@);
        let n = ids.len();
        let mut count: usize = 0;
        let mut i: usize = 0;
        while i < n
            invariant
                n == ids@.len(),
                sv == strings_view(ids@),
                sv == old(self).ids_of(user_id@),
                i <= n,
                count == existing_count(sv.subrange(0, i as int), old(self).sessions()),
                count <= i,
                self.config_view() == old(self).config_view(),
                self.sessions().dom() == old(self).sessions().dom(),
                forall|k: Seq<char>| #[trigger] self.sessions().dom().contains(k) ==>
                    self.sessions()[k]@ == if sv.subrange(0, i as int).contains(k) {
                        SessionView { is_active: false, ..old(self).sessions()[k]@ }
                    } else {
                        old(self).sessions()[k]@
                    },
            decreases n - i,
        {
            proof {
                assert(sv.subrange(0, i + 1).drop_last() =~= sv.subrange(0, i as int));
                assert(sv[i as int] == ids@[i as int]@);
                assert forall|k: Seq<char>| sv.subrange(0, i + 1).contains(k) <==> (sv.subrange(0, i as int).contains(k) || k == sv[i as int]) by {
                    if sv.subrange(0, i + 1).contains(k) {
                        let j = choose|j: int| 0 <= j < i + 1 && #[trigger] sv.subrange(0, i + 1)[j] == k;
                        if j < i { assert(sv.subrange(0, i as int)[j] == k); }
                    }
                    if sv.subrange(0, i as int).contains(k) {
                        let j = choose|j: int| 0 <= j < i && #[trigger] sv.subrange(0, i as int)[j] == k;
                        assert(sv.subrange(0, i + 1)[j] == k);
                    }
                    if k == sv[i as int] { assert(sv.subrange(0, i + 1)[i as int] == k); }
                }
            }
            let res = self.invalidate_session(ids[i].as_str());
            if res.is_ok() {
                count = count + 1;
            }
            i = i + 1;
        }
        assert(sv.subrange(0, n as int) =~= sv);
        count
    }

    /// Copies of the sessions listed for `user_id`, in list order.
    pub fn get_user_sessions(&self, user_id: &str) -> (v: Vec<Session>)
        ensures
            v@.len() == sessions_of(self.ids_of(user_id@), self.sessions()).len(),
            forall|i: int| 0 <= i < v@.len() ==> #[trigger] v@[i]@ == sessions_of(self.ids_of(user_id@), self.sessions())[i]@,
    {
        let ids = self.user_ids(user_id);
        let ghost sv = strings_view(ids@);
        let n = ids.len();
        let mut v: Vec<Session> = Vec::new();
        let mut i: usize = 0;
        while i < n
            invariant
                n == ids@.len(),
                sv == strings_view(ids@),
                i <= n,
                v@.len() == sessions_of(sv.subrange(0, i as int), self.sessions()).len(),
                forall|j: int| 0 <= j < v@.len() ==> #[trigger] v@[j]@ == sessions_of(sv.subrange(0, i as int), self.sessions())[j]@,
            decreases n - i,
        {
            proof {
                assert(sv.subrange(0, i + 1).drop_last() =~= sv.subrange(0, i as int));
                assert(sv[i as int] == ids@[i as int]@);
            }
            match self.sessions.get(ids[i].as_str()) {
                Some(s) => v.push(s.duplicate()),
                None => {}
            }
            i = i + 1;
        }
        assert(sv.subrange(0, n as int) =~= sv);
        v
    }

    /// Copies of the sessions valid at `now`, in store order.
    pub fn get_active_sessions_at(&self, now: u64) -> (v: Vec<Session>)
        ensures
            active_list(*self, v@, now),
    {
        let items = self.sessions.as_vec();
        let n = items.len();
        let mut v: Vec<Session> = Vec::new();
        let mut i: usize = 0;
        while i < n
            invariant
                n == items@.len(),
                items@ == self.session_list(),
                i <= n,
                v@.len() == valid_sessions(items@.subrange(0, i as int), now).len(),
                forall|j: int| 0 <= j < v@.len() ==> #[trigger] v@[j]@ == valid_sessions(items@.subrange(0, i as int), now)[j]@,
            decreases n - i,
        {
            proof { assert(items@.subrange(0, i + 1).drop_last() =~= items@.subrange(0, i as int)); }
            if items[i].is_valid(now) {
                v.push(items[i].duplicate());
            }
            i = i + 1;
        }
        assert(items@.subrange(0, n as int) =~= items@);
        v
    }

    /// Copies of the sessions valid now.
    pub fn get_active_sessions(&self) -> (v: Vec<Session>)
        ensures
            exists|now: u64| active_list(*self, v@, now),
    {
        let now = now_millis_unsigned();
        self.get_active_sessions_at(now)
    }

    /// Replaces the client address and user agent of session `id`.
    pub fn update_session_context(&mut self, id: &str, ip_address: Option<String>, user_agent: Option<String>) -> (r: Result<(), String>)
        ensures
            final(self).config_view() == old(self).config_view(),
            final(self).user_index() == old(self).user_index(),
            final(self).event_list() == old(self).event_list(),
            if old(self).sessions().dom().contains(id@) {
                &&& r is Ok
                &&& final(self).sessions() == old(self).sessions().insert(id@, final(self).sessions()[id@])
                &&& final(self).sessions()[id@]@ == (SessionView {
                    ip_address: opt_view(ip_address), user_agent: opt_view(user_agent), ..old(self).sessions()[id@]@ })
            } else {
                r matches Err(e) && e@ == "Session not found"@ && final(self).sessions() == old(self).sessions()
            },
    {
        match self.sessions.remove(id) {
            Some(s) => {
                let mut s = s;
                s.update_context(ip_address, user_agent);
                self.sessions.upsert(s);
                proof {
                    assert(self.sessions() =~= old(self).sessions().insert(id@, self.sessions()[id@]));
                }
                Ok(())
            }
            None => {
                proof { assert(old(self).sessions().remove(id@) =~= old(self).sessions()); }
                Err(owned("Session not found"))
            }
        }
    }

    /// Replaces the permissions of session `id`.
    pub fn update_permissions(&mut self, id: &str, permissions: Vec<String>) -> (r: Result<(), String>)
        ensures
            final(self).config_view() == old(self).config_view(),
            final(self).user_index() == old(self).user_index(),
            final(self).event_list() == old(self).event_list(),
            if old(self).sessions().dom().contains(id@) {
                &&& r is Ok
                &&& final(self).sessions() == old(self).sessions().insert(id@, final(self).sessions()[id@])
                &&& final(self).sessions()[id@]@ == (SessionView {
                    permissions: strings_view(permissions@), ..old(self).sessions()[id@]@ })
            } else {
                r matches Err(e) && e@ == "Session not found"@ && final(self).sessions() == old(self).sessions()
            },
    {
        match self.sessions.remove(id) {
            Some(s) => {
                let mut s = s;
                s.permissions = permissions;
                self.sessions.upsert(s);
                proof {
                    assert(self.sessions() =~= old(self).sessions().insert(id@, self.sessions()[id@]));
                }
                Ok(())
            }
            None => {
                proof { assert(old(self).sessions().remove(id@) =~= old(self).sessions()); }
                Err(owned("Session not found"))
            }
        }
    }
}

/// The ids of `ids` that belong to `live`, in order.
pub open spec fn ids_in(ids: Seq<Seq<char>>, live: Set<Seq<char>>) -> Seq<Seq<char>>
    decreases ids.len(),
{
    if ids.len() == 0 {
        seq![]
    } else if live.contains(ids.last()) {
        ids_in(ids.drop_last(), live).push(ids.last())
    } else {
        ids_in(ids.drop_last(), live)
    }
}

/// The user index once every id outside `live` is dropped, and with it every
/// user left without ids.
pub open spec fn pruned_index(index: Map<Seq<char>, Seq<Seq<char>>>, live: Set<Seq<char>>) -> Map<Seq<char>, Seq<Seq<char>>> {
    Map::new(
        |u: Seq<char>| index.dom().contains(u) && ids_in(index[u], live).len() > 0,
        |u: Seq<char>| ids_in(index[u], live),
    )
}

/// What removing the sessions no longer valid at `now` does.
pub open spec fn cleanup_post(old: SessionManager, new: SessionManager, now: u64, removed: usize) -> bool {
    let kept = old.sessions().dom().filter(|k: Seq<char>| valid_at(old.sessions()[k]@, now));
    &&& new.sessions().dom() == kept
    &&& forall|k: Seq<char>| #[trigger] new.sessions().dom().contains(k) ==> new.sessions()[k]@ == old.sessions()[k]@
    &&& new.user_index() == pruned_index(old.user_index(), kept)
    &&& removed == old.session_list().len() - valid_sessions(old.session_list(), now).len()
    &&& new.config_view() == old.config_view()
    &&& new.event_list() == old.event_list()
}

/// At most as many sessions are valid as there are sessions.
pub proof fn lemma_valid_sessions_len(s: Seq<Session>, now: u64)
    ensures
        valid_sessions(s, now).len() <= s.len(),
    decreases s.len(),
{
    if s.len() > 0 {
        lemma_valid_sessions_len(s.drop_last(), now);
    }
}

/// Each count of a user is at most the number of sessions.
proof fn lemma_count_by_user_bound(s: Seq<Session>)
    ensures
        forall|k: Seq<char>| #[trigger] count_by_user(s).dom().contains(k) ==> count_by_user(s)[k] <= s.len(),
    decreases s.len(),
{
    if s.len() > 0 {
        lemma_count_by_user_bound(s.drop_last());
        let m = count_by_user(s.drop_last());
        assert forall|k: Seq<char>| #[trigger] count_by_user(s).dom().contains(k) implies count_by_user(s)[k] <= s.len() by {
            if m.dom().contains(k) {
                assert(m[k] <= s.len() - 1);
            }
        }
    }
}

/// Each count of an address is at most the number of sessions.
proof fn lemma_count_by_ip_bound(s: Seq<Session>)
    ensures
        forall|k: Seq<char>| #[trigger] count_by_ip(s).dom().contains(k) ==> count_by_ip(s)[k] <= s.len(),
    decreases s.len(),
{
    if s.len() > 0 {
        lemma_count_by_ip_bound(s.drop_last());
        let m = count_by_ip(s.drop_last());
        assert forall|k: Seq<char>| #[trigger] count_by_ip(s).dom().contains(k) implies count_by_ip(s)[k] <= s.len() by {
            if m.dom().contains(k) {
                assert(m[k] <= s.len() - 1);
            }
        }
    }
}

/// The ids of `ids` that name a session of `sessions`, in order.
fn retain_known(ids: &Vec<String>, sessions: &Store<Session>) -> (r: Vec<String>)
    ensures
        strings_view(r@) == ids_in(strings_view(ids@), sessions.map().dom()),
{
    let ghost sv = strings_view(ids@);
    let n = ids.len();
    let mut r: Vec<String> = Vec::new();
    let mut i: usize = 0;
    while i < n
        invariant
            n == ids@.len(),
            sv == strings_view(ids@),
            i <= n,
            strings_view(r@) == ids_in(sv.subrange(0, i as int), sessions.map().dom()),
        decreases n - i,
    {
        proof {
            assert(sv.subrange(0, i + 1).drop_last() =~= sv.subrange(0, i as int));
            assert(sv[i as int] == ids@[i as int]@);
        }
        let ghost before = r@;
        if sessions.get(ids[i].as_str()).is_some() {
            r.push(ids[i].clone());
            proof { assert(strings_view(r@) =~= strings_view(before).push(sv[i as int])); }
        }
        i = i + 1;
    }
    assert(sv.subrange(0, n as int) =~= sv);
    r
}

impl SessionManager {
    /// Removes the sessions that are no longer valid at `now` and prunes the
    /// user index; returns how many sessions were removed.
    pub fn cleanup_expired_at(&mut self, now: u64) -> (removed: usize)
        ensures
            cleanup_post(*old(self), *final(self), now, removed),
    {
        let mut old_sessions: Store<Session> = Store::new();
        std::mem::swap(&mut old_sessions, &mut self.sessions);
        old_sessions.facts();
        let ghost osm = old_sessions.map();
        let mut fresh: Store<Session> = Store::new();
        let items = old_sessions.as_vec();
        let n = items.len();
        let mut removed: usize = 0;
        let mut i: usize = 0;
        while i < n
            invariant
                n == items@.len(),
                items@ == old_sessions.items(),
                osm == old_sessions.map(),
                unique_keys(items@),
                forall|j: int| 0 <= j < items@.len() ==> #[trigger] osm.dom().contains(items@[j].key_view())
                    && osm[items@[j].key_view()] == items@[j],
                forall|k: Seq<char>| #[trigger] osm.dom().contains(k) <==> has_key(items@, k),
                i <= n,
                removed == i - valid_sessions(items@.subrange(0, i as int), now).len(),
                valid_sessions(items@.subrange(0, i as int), now).len() <= i,
                forall|k: Seq<char>| #[trigger] fresh.map().dom().contains(k) <==>
                    (has_key(items@.subrange(0, i as int), k) && valid_at(osm[k]@, now)),
                forall|k: Seq<char>| #[trigger] fresh.map().dom().contains(k) ==> fresh.map()[k]@ == osm[k]@,
            decreases n - i,
        {
            proof {
                lemma_has_key_step(items@, i as int);
                assert(items@.subrange(0, i + 1).drop_last() =~= items@.subrange(0, i as int));
                let k = items@[i as int].key_view();
                assert(osm[k] == items@[i as int]);
            }
            if items[i].is_valid(now) {
                fresh.upsert(items[i].duplicate());
            } else {
                removed = removed + 1;
            }
            i = i + 1;
        }
        proof {
            assert(items@.subrange(0, n as int) =~= items@);
            assert(fresh.map().dom() =~= osm.dom().filter(|k: Seq<char>| valid_at(osm[k]@, now)));
        }
        self.sessions = fresh;

        let mut old_users: Store<UserSessions> = Store::new();
        std::mem::swap(&mut old_users, &mut self.user_sessions);
        old_users.facts();
        let ghost oum = old_users.map();
        let ghost live = self.sessions.map().dom();
        let mut users: Store<UserSessions> = Store::new();
        let uitems = old_users.as_vec();
        let un = uitems.len();
        let mut j: usize = 0;
        while j < un
            invariant
                un == uitems@.len(),
                uitems@ == old_users.items(),
                oum == old_users.map(),
                live == self.sessions.map().dom(),
                unique_keys(uitems@),
                forall|x: int| 0 <= x < uitems@.len() ==> #[trigger] oum.dom().contains(uitems@[x].key_view())
                    && oum[uitems@[x].key_view()] == uitems@[x],
                forall|k: Seq<char>| #[trigger] oum.dom().contains(k) <==> has_key(uitems@, k),
                j <= un,
                forall|k: Seq<char>| #[trigger] users.map().dom().contains(k) <==>
                    (has_key(uitems@.subrange(0, j as int), k) && ids_in(strings_view(oum[k].session_ids@), live).len() > 0),
                forall|k: Seq<char>| #[trigger] users.map().dom().contains(k) ==>
                    strings_view(users.map()[k].session_ids@) == ids_in(strings_view(oum[k].session_ids@), live),
            decreases un - j,
        {
            proof {
                lemma_has_key_step(uitems@, j as int);
                let k = uitems@[j as int].key_view();
                assert(oum[k] == uitems@[j as int]);
            }
            let rest = retain_known(&uitems[j].session_ids, &self.sessions);
            if rest.len() > 0 {
                users.upsert(UserSessions { user_id: uitems[j].user_id.clone(), session_ids: rest });
            }
            j = j + 1;
        }
        proof {
            assert(uitems@.subrange(0, un as int) =~= uitems@);
        }
        self.user_sessions = users;
        proof {
            assert(self.user_index() =~= pruned_index(old(self).user_index(), live));
        }
        removed
    }

    /// Removes the sessions that are no longer valid now.
    pub fn cleanup_expired(&mut self) -> (removed: usize)
        ensures
            exists|now: u64| cleanup_post(*old(self), *final(self), now, removed),
    {
        let now = now_millis_unsigned();
        self.cleanup_expired_at(now)
    }

    /// Counters and per-user and per-address distributions at `now`.
    pub fn get_stats_at(&self, now: u64) -> (st: SessionStats)
        ensures
            st.total_sessions == self.session_list().len(),
            st.active_sessions == valid_sessions(self.session_list(), now).len(),
            st.expired_sessions == self.session_list().len() - valid_sessions(self.session_list(), now).len(),
            st.unique_users == st.sessions_per_user@.len(),
            unique_keys(st.sessions_per_user@),
            unique_keys(st.sessions_per_ip@),
            forall|k: Seq<char>| #[trigger] has_key(st.sessions_per_user@, k) <==> count_by_user(self.session_list()).dom().contains(k),
            forall|i: int| 0 <= i < st.sessions_per_user@.len() ==>
                #[trigger] st.sessions_per_user@[i].count == count_by_user(self.session_list())[st.sessions_per_user@[i].key@],
            forall|k: Seq<char>| #[trigger] has_key(st.sessions_per_ip@, k) <==> count_by_ip(self.session_list()).dom().contains(k),
            forall|i: int| 0 <= i < st.sessions_per_ip@.len() ==>
                #[trigger] st.sessions_per_ip@[i].count == count_by_ip(self.session_list())[st.sessions_per_ip@[i].key@],
    {
        let items = self.sessions.as_vec();
        let n = items.len();
        let mut active: usize = 0;
        let mut users: Store<CountEntry> = Store::new();
        let mut ips: Store<CountEntry> = Store::new();
        let mut i: usize = 0;
        while i < n
            invariant
                n == items@.len(),
                items@ == self.session_list(),
                i <= n,
                active == valid_sessions(items@.subrange(0, i as int), now).len(),
                active <= i,
                users.map().dom() == count_by_user(items@.subrange(0, i as int)).dom(),
                forall|k: Seq<char>| #[trigger] users.map().dom().contains(k) ==>
                    users.map()[k].count == count_by_user(items@.subrange(0, i as int))[k],
                ips.map().dom() == count_by_ip(items@.subrange(0, i as int)).dom(),
                forall|k: Seq<char>| #[trigger] ips.map().dom().contains(k) ==>
                    ips.map()[k].count == count_by_ip(items@.subrange(0, i as int))[k],
            decreases n - i,
        {
            let ghost pre = items@.subrange(0, i as int);
            proof {
                assert(items@.subrange(0, i + 1).drop_last() =~= pre);
                lemma_count_by_user_bound(pre);
                lemma_count_by_ip_bound(pre);
            }
            if items[i].is_valid(now) {
                active = active + 1;
            }
            bump_count(&mut users, items[i].user_id.as_str());
            match &items[i].ip_address {
                Some(ip) => bump_count(&mut ips, ip.as_str()),
                None => {}
            }
            proof {
                let post = items@.subrange(0, i + 1);
                assert(users.map().dom() =~= count_by_user(post).dom());
                assert(ips.map().dom() =~= count_by_ip(post).dom());
            }
            i = i + 1;
        }
        proof {
            assert(items@.subrange(0, n as int) =~= items@);
            lemma_valid_sessions_len(items@, now);
        }
        users.facts();
        ips.facts();
        let ghost um = users.map();
        let ghost im = ips.map();
        let per_user = users.into_vec();
        let per_ip = ips.into_vec();
        proof {
            assert forall|i: int| 0 <= i < per_user@.len() implies
                #[trigger] per_user@[i].count == count_by_user(items@)[per_user@[i].key@] by {
                assert(um.dom().contains(per_user@[i].key_view()));
            }
            assert forall|i: int| 0 <= i < per_ip@.len() implies
                #[trigger] per_ip@[i].count == count_by_ip(items@)[per_ip@[i].key@] by {
                assert(im.dom().contains(per_ip@[i].key_view()));
            }
        }
        SessionStats {
            total_sessions: n,
            active_sessions: active,
            expired_sessions: n - active,
            unique_users: per_user.len(),
            sessions_per_user: per_user,
            sessions_per_ip: per_ip,
        }
    }

    /// Counters and distributions now.
    pub fn get_stats(&self) -> (st: SessionStats)
        ensures
            st.total_sessions == self.session_list().len(),
            st.unique_users == st.sessions_per_user@.len(),
            exists|now: u64| st.active_sessions == valid_sessions(self.session_list(), now).len(),
    {
        let now = now_millis_unsigned();
        self.get_stats_at(now)
    }
}

/// A session just created at `now` validates as `Valid` at that same time.
pub proof fn law_created_session_is_valid(
    m1: SessionManager, m2: SessionManager, user: Seq<char>, username: Seq<char>,
    ip: Option<Seq<char>>, ua: Option<Seq<char>>, now: u64, r: Result<Session, String>, v: SessionValidationResult,
)
    requires
        create_session_post(m1, m2, user, username, ip, ua, now, r),
        r matches Ok(s) && validation_outcome(m2, s@.id, now, v),
    ensures
        v is Valid,
{
    let s = r->Ok_0;
    assert(m2.sessions().dom().contains(s@.id));
}

/// A session that has been invalidated validates as `Invalid`.
pub proof fn law_invalidated_session_is_refused(
    m1: SessionManager, m2: SessionManager, id: Seq<char>, u: Result<(), String>, now: u64, v: SessionValidationResult,
)
    requires
        invalidate_post(m1, m2, id, u),
        u is Ok,
        validation_outcome(m2, id, now, v),
    ensures
        v is Invalid,
{
}

} // verus!
