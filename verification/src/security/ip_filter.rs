//! Allow and deny lists of IP addresses, with an audit trail of list entries.
//! Addresses arrive already put in canonical text form by the caller (`None`
//! when the text is not an IP address); the lists hold canonical forms.
use vstd::prelude::*;
use crate::keyed::{Keyed, Store, unique_keys, has_key};
use crate::text::{owned, concat, opt_view, strings_view, copy_opt_string};
use crate::clock::now_millis_unsigned;

verus! {

/// Which list an entry belongs to.
#[derive(Clone, Copy, PartialEq, Eq, Structural, Debug)]
pub enum IpEntryType {
    Blacklist,
    Whitelist,
}

/// What to do with an address that no list decides.
#[derive(Clone, Copy, PartialEq, Eq, Structural, Debug)]
pub enum DefaultAction {
    Allow,
    Deny,
}

/// Which lists are consulted.
#[derive(Clone, Copy, PartialEq, Eq, Structural, Debug)]
pub struct IpFilterConfig {
    pub whitelist_enabled: bool,
    pub blacklist_enabled: bool,
    pub default_action: DefaultAction,
}

impl IpFilterConfig {
    /// Deny list on, allow list off, default allow.
    pub open spec fn default_spec() -> IpFilterConfig {
        IpFilterConfig { whitelist_enabled: false, blacklist_enabled: true, default_action: DefaultAction::Allow }
    }

    /// Deny list on, allow list off, default allow.
    pub fn default_config() -> (c: IpFilterConfig)
        ensures
            c == IpFilterConfig::default_spec(),
    {
        IpFilterConfig { whitelist_enabled: false, blacklist_enabled: true, default_action: DefaultAction::Allow }
    }
}

impl Default for IpFilterConfig {
    fn default() -> (c: IpFilterConfig)
        ensures
            c == IpFilterConfig::default_spec(),
    {
        IpFilterConfig::default_config()
    }
}

/// One addition to a list; times are milliseconds since the epoch.
pub struct IpEntry {
    pub ip: String,
    pub entry_type: IpEntryType,
    pub reason: Option<String>,
    pub created_at: u64,
    pub expires_at: Option<u64>,
}

/// The plain content of an entry.
pub struct IpEntryView {
    pub ip: Seq<char>,
    pub entry_type: IpEntryType,
    pub reason: Option<Seq<char>>,
    pub created_at: u64,
    pub expires_at: Option<u64>,
}

impl View for IpEntry {
    type V = IpEntryView;

    open spec fn view(&self) -> IpEntryView {
        IpEntryView {
            ip: self.ip@,
            entry_type: self.entry_type,
            reason: opt_view(self.reason),
            created_at: self.created_at,
            expires_at: self.expires_at,
        }
    }
}

impl IpEntry {
    /// A field-by-field copy.
    pub fn duplicate(&self) -> (r: IpEntry)
        ensures
            r@ == self@,
    {
        IpEntry {
            ip: self.ip.clone(),
            entry_type: self.entry_type,
            reason: copy_opt_string(&self.reason),
            created_at: self.created_at,
            expires_at: self.expires_at,
        }
    }
}

/// List sizes.
pub struct IpFilterStats {
    pub whitelist_count: usize,
    pub blacklist_count: usize,
    pub total_entries: usize,
}

/// The answer to checking an address.
pub enum IpCheckResult {
    Allowed { reason: String },
    Denied { reason: String },
    Invalid { reason: String },
}

impl IpCheckResult {
    /// Whether the address was allowed.
    pub fn is_allowed(&self) -> (b: bool)
        ensures
            b == (*self is Allowed),
    {
        match self {
            IpCheckResult::Allowed { .. } => true,
            _ => false,
        }
    }

    /// Whether the address was denied.
    pub fn is_denied(&self) -> (b: bool)
        ensures
            b == (*self is Denied),
    {
        match self {
            IpCheckResult::Denied { .. } => true,
            _ => false,
        }
    }
}

/// Everything the filter keeps, as stored and restored by its owner.
pub struct IpFilterStorage {
    pub whitelist: Vec<String>,
    pub blacklist: Vec<String>,
    pub entries: Vec<IpEntry>,
    pub config: Option<IpFilterConfig>,
}

/// The error for text that is not an IP address.
pub open spec fn invalid_ip_message(ip: Seq<char>) -> Seq<char> {
    "Invalid IP address: "@ + ip
}

/// A fresh entry for `ip` in list `t` with `reason` (its creation time is the clock's).
pub open spec fn is_fresh_entry(e: IpEntryView, ip: Seq<char>, t: IpEntryType, reason: Option<Seq<char>>) -> bool {
    &&& e.ip == ip
    &&& e.entry_type == t
    &&& e.reason == reason
    &&& e.expires_at is None
}

/// `es` without the entries for `ip` in list `t`, in order.
pub open spec fn drop_entries(es: Seq<IpEntryView>, ip: Seq<char>, t: IpEntryType) -> Seq<IpEntryView>
    decreases es.len(),
{
    if es.len() == 0 {
        seq![]
    } else if es.last().ip == ip && es.last().entry_type == t {
        drop_entries(es.drop_last(), ip, t)
    } else {
        drop_entries(es.drop_last(), ip, t).push(es.last())
    }
}

/// The canonical forms among `ips`, in order.
pub open spec fn parsed_addrs(ips: Seq<(String, Option<String>)>) -> Seq<Seq<char>>
    decreases ips.len(),
{
    if ips.len() == 0 {
        seq![]
    } else {
        match ips.last().1 {
            Some(a) => parsed_addrs(ips.drop_last()).push(a@),
            None => parsed_addrs(ips.drop_last()),
        }
    }
}

/// Whether an address passes the lists (`None`: not an address). The default
/// action is not consulted: an address no list refuses passes.
pub open spec fn passes(cfg: IpFilterConfig, white: Set<Seq<char>>, black: Set<Seq<char>>, addr: Option<Seq<char>>) -> bool {
    match addr {
        None => false,
        Some(a) => if cfg.whitelist_enabled {
            white.contains(a)
        } else {
            !(cfg.blacklist_enabled && black.contains(a))
        },
    }
}

/// The allow list (`Whitelist`) or deny list (`Blacklist`) of `f`.
pub open spec fn list_of_type(f: IpFilter, t: IpEntryType) -> Set<Seq<char>> {
    match t {
        IpEntryType::Whitelist => f.white(),
        IpEntryType::Blacklist => f.black(),
    }
}

/// The other list than `t`.
pub open spec fn other_list(f: IpFilter, t: IpEntryType) -> Set<Seq<char>> {
    match t {
        IpEntryType::Whitelist => f.black(),
        IpEntryType::Blacklist => f.white(),
    }
}

/// What adding `ip` (canonical form `canonical`) to list `t` does.
pub open spec fn added_post(
    old: IpFilter, new: IpFilter, t: IpEntryType, ip: Seq<char>, canonical: Option<Seq<char>>, reason: Option<Seq<char>>,
    r: Result<(), String>,
) -> bool {
    &&& other_list(new, t) == other_list(old, t)
    &&& new.config_view() == old.config_view()
    &&& match canonical {
        Some(a) => {
            &&& r is Ok
            &&& list_of_type(new, t) == list_of_type(old, t).insert(a)
            &&& new.entry_list().len() == old.entry_list().len() + 1
            &&& new.entry_list().drop_last() == old.entry_list()
            &&& is_fresh_entry(new.entry_list().last(), a, t, reason)
        },
        None => {
            &&& r matches Err(e) && e@ == invalid_ip_message(ip)
            &&& list_of_type(new, t) == list_of_type(old, t)
            &&& new.entry_list() == old.entry_list()
        },
    }
}

/// What taking `ip` (canonical form `canonical`) off list `t` does.
pub open spec fn removed_post(
    old: IpFilter, new: IpFilter, t: IpEntryType, ip: Seq<char>, canonical: Option<Seq<char>>, r: Result<(), String>,
) -> bool {
    &&& other_list(new, t) == other_list(old, t)
    &&& new.config_view() == old.config_view()
    &&& match canonical {
        Some(a) => {
            &&& r is Ok
            &&& list_of_type(new, t) == list_of_type(old, t).remove(a)
            &&& new.entry_list() == drop_entries(old.entry_list(), a, t)
        },
        None => {
            &&& r matches Err(e) && e@ == invalid_ip_message(ip)
            &&& list_of_type(new, t) == list_of_type(old, t)
            &&& new.entry_list() == old.entry_list()
        },
    }
}

/// Allow list, deny list, the entries added to them, and the configuration.
pub struct IpFilter {
    whitelist: Store<String>,
    blacklist: Store<String>,
    entries: Vec<IpEntry>,
    config: IpFilterConfig,
}

impl IpFilter {
    /// The allowed addresses.
    pub closed spec fn white(&self) -> Set<Seq<char>> {
        self.whitelist.map().dom()
    }

    /// The denied addresses.
    pub closed spec fn black(&self) -> Set<Seq<char>> {
        self.blacklist.map().dom()
    }

    /// The entries, oldest first.
    pub closed spec fn entry_list(&self) -> Seq<IpEntryView> {
        self.entries@.map_values(|e: IpEntry| e@)
    }

    /// The configuration.
    pub closed spec fn config_view(&self) -> IpFilterConfig {
        self.config
    }

    /// Empty lists, default configuration.
    pub fn new() -> (f: IpFilter)
        ensures
            f.white() == Set::<Seq<char>>::empty(),
            f.black() == Set::<Seq<char>>::empty(),
            f.entry_list() == Seq::<IpEntryView>::empty(),
            f.config_view() == IpFilterConfig::default_spec(),
    {
        let f = IpFilter { whitelist: Store::new(), blacklist: Store::new(), entries: Vec::new(), config: IpFilterConfig::default_config() };
        assert(f.entry_list() =~= Seq::<IpEntryView>::empty());
        f
    }

    fn normalize_ip(ip: &str, canonical: Option<String>) -> (r: Result<String, String>)
        ensures
            match canonical {
                Some(a) => r matches Ok(s) && s@ == a@,
                None => r matches Err(e) && e@ == invalid_ip_message(ip@),
            },
    {
        match canonical {
            Some(a) => Ok(a),
            None => Err(concat("Invalid IP address: ", ip)),
        }
    }

    fn add_entry(&mut self, ip: String, entry_type: IpEntryType, reason: Option<String>)
        ensures
            final(self).entry_list().len() == old(self).entry_list().len() + 1,
            final(self).entry_list().drop_last() == old(self).entry_list(),
            is_fresh_entry(final(self).entry_list().last(), ip@, entry_type, opt_view(reason)),
            final(self).white() == old(self).white(),
            final(self).black() == old(self).black(),
            final(self).config_view() == old(self).config_view(),
    {
        let now = now_millis_unsigned();
        let ghost before = self.entry_list();
        self.entries.push(IpEntry { ip, entry_type, reason, created_at: now, expires_at: None });
        assert(self.entry_list().drop_last() =~= before);
    }

    fn remove_entry(&mut self, ip: &str, entry_type: IpEntryType)
        ensures
            final(self).entry_list() == drop_entries(old(self).entry_list(), ip@, entry_type),
            final(self).white() == old(self).white(),
            final(self).black() == old(self).black(),
            final(self).config_view() == old(self).config_view(),
    {
        let ghost ev = self.entry_list();
        let mut kept: Vec<IpEntry> = Vec::new();
        let n = self.entries.len();
        let mut i: usize = 0;
        while i < n
            invariant
                n == self.entries@.len(),
                ev == self.entry_list(),
                i <= n,
                kept@.map_values(|e: IpEntry| e@) == drop_entries(ev.subrange(0, i as int), ip@, entry_type),
            decreases n - i,
        {
            proof {
                assert(ev.subrange(0, i + 1).drop_last() =~= ev.subrange(0, i as int));
                assert(ev[i as int] == self.entries@[i as int]@);
            }
            let same = crate::text::str_eq(self.entries[i].ip.as_str(), ip) && self.entries[i].entry_type == entry_type;
            if !same {
                let ghost before = kept@.map_values(|e: IpEntry| e@);
                kept.push(self.entries[i].duplicate());
                assert(kept@.map_values(|e: IpEntry| e@) =~= before.push(ev[i as int]));
            }
            i = i + 1;
        }
        assert(ev.subrange(0, n as int) =~= ev);
        self.entries = kept;
    }

    /// Adds an address to the allow list and records an entry for it.
    pub fn add_to_whitelist(&mut self, ip: &str, canonical: Option<String>, reason: Option<String>) -> (r: Result<(), String>)
        ensures
            added_post(*old(self), *final(self), IpEntryType::Whitelist, ip@, opt_view(canonical), opt_view(reason), r),
    {
        let addr = match Self::normalize_ip(ip, canonical) {
            Ok(a) => a,
            Err(e) => return Err(e),
        };
        let key = addr.clone();
        self.whitelist.upsert(key);
        self.add_entry(addr, IpEntryType::Whitelist, reason);
        Ok(())
    }

    /// Adds an address to the deny list and records an entry for it.
    pub fn add_to_blacklist(&mut self, ip: &str, canonical: Option<String>, reason: Option<String>) -> (r: Result<(), String>)
        ensures
            added_post(*old(self), *final(self), IpEntryType::Blacklist, ip@, opt_view(canonical), opt_view(reason), r),
    {
        let addr = match Self::normalize_ip(ip, canonical) {
            Ok(a) => a,
            Err(e) => return Err(e),
        };
        let key = addr.clone();
        self.blacklist.upsert(key);
        self.add_entry(addr, IpEntryType::Blacklist, reason);
        Ok(())
    }

    /// Takes an address off the allow list, with its allow-list entries.
    pub fn remove_from_whitelist(&mut self, ip: &str, canonical: Option<String>) -> (r: Result<(), String>)
        ensures
            removed_post(*old(self), *final(self), IpEntryType::Whitelist, ip@, opt_view(canonical), r),
    {
        let addr = match Self::normalize_ip(ip, canonical) {
            Ok(a) => a,
            Err(e) => return Err(e),
        };
        let _ = self.whitelist.remove(addr.as_str());
        self.remove_entry(addr.as_str(), IpEntryType::Whitelist);
        Ok(())
    }

    /// Takes an address off the deny list, with its deny-list entries.
    pub fn remove_from_blacklist(&mut self, ip: &str, canonical: Option<String>) -> (r: Result<(), String>)
        ensures
            removed_post(*old(self), *final(self), IpEntryType::Blacklist, ip@, opt_view(canonical), r),
    {
        let addr = match Self::normalize_ip(ip, canonical) {
            Ok(a) => a,
            Err(e) => return Err(e),
        };
        let _ = self.blacklist.remove(addr.as_str());
        self.remove_entry(addr.as_str(), IpEntryType::Blacklist);
        Ok(())
    }

    /// Whether an address may connect: with the allow list on, exactly the listed
    /// addresses; otherwise every address not on an enabled deny list.
    pub fn is_allowed(&self, canonical: Option<String>) -> (b: bool)
        ensures
            b == passes(self.config_view(), self.white(), self.black(), opt_view(canonical)),
    {
        let addr = match canonical {
            Some(a) => a,
            None => return false,
        };
        if self.config.whitelist_enabled {
            return self.whitelist.get(addr.as_str()).is_some();
        }
        if self.config.blacklist_enabled {
            if self.blacklist.get(addr.as_str()).is_some() {
                return false;
            }
        }
        match self.config.default_action {
            DefaultAction::Allow => true,
            DefaultAction::Deny => true,
        }
    }

    /// Checks an address and says why. The deny list is consulted whether or
    /// not it is enabled.
    pub fn check_ip(&self, ip: &str, canonical: Option<String>) -> (r: IpCheckResult)
        ensures
            match canonical {
                None => r matches IpCheckResult::Invalid { reason } && reason@ == invalid_ip_message(ip@),
                Some(a) => if self.config_view().whitelist_enabled {
                    if self.white().contains(a@) {
                        r matches IpCheckResult::Allowed { reason } && reason@ == "whitelisted"@
                    } else {
                        r matches IpCheckResult::Denied { reason } && reason@ == "not in whitelist"@
                    }
                } else if self.black().contains(a@) {
                    r matches IpCheckResult::Denied { reason } && reason@ == "blacklisted"@
                } else {
                    r matches IpCheckResult::Allowed { reason } && reason@ == "default policy"@
                },
            },
    {
        let addr = match Self::normalize_ip(ip, canonical) {
            Ok(a) => a,
            Err(e) => return IpCheckResult::Invalid { reason: e },
        };
        if self.config.whitelist_enabled {
            if self.whitelist.get(addr.as_str()).is_some() {
                return IpCheckResult::Allowed { reason: owned("whitelisted") };
            }
            return IpCheckResult::Denied { reason: owned("not in whitelist") };
        }
        if self.blacklist.get(addr.as_str()).is_some() {
            return IpCheckResult::Denied { reason: owned("blacklisted") };
        }
        IpCheckResult::Allowed { reason: owned("default policy") }
    }

    fn list_of(store: &Store<String>) -> (v: Vec<String>)
        ensures
            strings_view(v@).no_duplicates(),
            forall|k: Seq<char>| strings_view(v@).contains(k) <==> #[trigger] store.map().dom().contains(k),
    {
        store.facts();
        let items = store.as_vec();
        let n = items.len();
        let mut v: Vec<String> = Vec::new();
        let mut i: usize = 0;
        while i < n
            invariant
                n == items@.len(),
                i <= n,
                v@ == items@.subrange(0, i as int),
                items@ == store.items(),
                unique_keys(items@),
            decreases n - i,
        {
            v.push(items[i].clone());
            i = i + 1;
            assert(v@ =~= items@.subrange(0, i as int));
        }
        assert(v@ =~= items@);
        proof {
            let sv = strings_view(v@);
            assert forall|a: int, b: int| 0 <= a < sv.len() && 0 <= b < sv.len() && a != b implies sv[a] != sv[b] by {
                assert(items@[a].key_view() != items@[b].key_view());
            }
            assert forall|k: Seq<char>| sv.contains(k) <==> #[trigger] store.map().dom().contains(k) by {
                if sv.contains(k) {
                    let j = choose|j: int| 0 <= j < sv.len() && sv[j] == k;
                    assert(items@[j].key_view() == k);
                }
                if store.map().dom().contains(k) {
                    assert(has_key(items@, k));
                    let j = choose|j: int| 0 <= j < items@.len() && #[trigger] items@[j].key_view() == k;
                    assert(sv[j] == k);
                }
            }
        }
        v
    }

    /// The allowed addresses, each once.
    pub fn get_whitelist(&self) -> (v: Vec<String>)
        ensures
            strings_view(v@).no_duplicates(),
            forall|k: Seq<char>| strings_view(v@).contains(k) <==> #[trigger] self.white().contains(k),
    {
        Self::list_of(&self.whitelist)
    }

    /// The denied addresses, each once.
    pub fn get_blacklist(&self) -> (v: Vec<String>)
        ensures
            strings_view(v@).no_duplicates(),
            forall|k: Seq<char>| strings_view(v@).contains(k) <==> #[trigger] self.black().contains(k),
    {
        Self::list_of(&self.blacklist)
    }

    /// Copies of the entries, oldest first.
    pub fn get_entries(&self) -> (v: Vec<IpEntry>)
        ensures
            v@.map_values(|e: IpEntry| e@) == self.entry_list(),
    {
        let n = self.entries.len();
        let mut v: Vec<IpEntry> = Vec::new();
        let mut i: usize = 0;
        while i < n
            invariant
                n == self.entries@.len(),
                i <= n,
                v@.map_values(|e: IpEntry| e@) == self.entry_list().subrange(0, i as int),
            decreases n - i,
        {
            let ghost before = v@.map_values(|e: IpEntry| e@);
            v.push(self.entries[i].duplicate());
            assert(v@.map_values(|e: IpEntry| e@) =~= before.push(self.entries@[i as int]@));
            assert(self.entry_list().subrange(0, i + 1) =~= self.entry_list().subrange(0, i as int).push(self.entry_list()[i as int]));
            i = i + 1;
        }
        assert(self.entry_list().subrange(0, n as int) =~= self.entry_list());
        v
    }

    /// List sizes.
    pub fn get_stats(&self) -> (s: IpFilterStats)
        ensures
            s.whitelist_count == self.white().len(),
            s.blacklist_count == self.black().len(),
            s.total_entries == self.entry_list().len(),
    {
        self.whitelist.facts();
        self.blacklist.facts();
        IpFilterStats {
            whitelist_count: self.whitelist.len(),
            blacklist_count: self.blacklist.len(),
            total_entries: self.entries.len(),
        }
    }

    /// Replaces the configuration.
    pub fn set_config(&mut self, config: IpFilterConfig)
        ensures
            final(self).config_view() == config,
            final(self).white() == old(self).white(),
            final(self).black() == old(self).black(),
            final(self).entry_list() == old(self).entry_list(),
    {
        self.config = config;
    }

    /// The configuration.
    pub fn get_config(&self) -> (c: IpFilterConfig)
        ensures
            c == self.config_view(),
    {
        self.config
    }

    /// Empties the deny list (its entries stay).
    pub fn clear_blacklist(&mut self)
        ensures
            final(self).black() == Set::<Seq<char>>::empty(),
            final(self).white() == old(self).white(),
            final(self).entry_list() == old(self).entry_list(),
            final(self).config_view() == old(self).config_view(),
    {
        self.blacklist.clear();
    }

    /// Empties the allow list (its entries stay).
    pub fn clear_whitelist(&mut self)
        ensures
            final(self).white() == Set::<Seq<char>>::empty(),
            final(self).black() == old(self).black(),
            final(self).entry_list() == old(self).entry_list(),
            final(self).config_view() == old(self).config_view(),
    {
        self.whitelist.clear();
    }

    /// Adds every address of `ips` that is one to the deny list, with reason
    /// "bulk import"; each pair is the text given and its canonical form. Returns
    /// how many were added.
    pub fn bulk_add_blacklist(&mut self, ips: Vec<(String, Option<String>)>) -> (r: Result<usize, String>)
        ensures
            r matches Ok(n) && n == parsed_addrs(ips@).len(),
            final(self).black() == old(self).black() + parsed_addrs(ips@).to_set(),
            final(self).white() == old(self).white(),
            final(self).config_view() == old(self).config_view(),
            final(self).entry_list().len() == old(self).entry_list().len() + parsed_addrs(ips@).len(),
            final(self).entry_list().subrange(0, old(self).entry_list().len() as int) == old(self).entry_list(),
            forall|j: int| 0 <= j < parsed_addrs(ips@).len() ==> #[trigger] is_fresh_entry(
                final(self).entry_list()[old(self).entry_list().len() + j], parsed_addrs(ips@)[j], IpEntryType::Blacklist, Some("bulk import"@)),
    {
        let ghost e0 = self.entry_list();
        let n = ips.len();
        let mut added: usize = 0;
        let mut i: usize = 0;
        while i < n
            invariant
                n == ips@.len(),
                i <= n,
                added == parsed_addrs(ips@.subrange(0, i as int)).len(),
                added <= i,
                self.black() == old(self).black() + parsed_addrs(ips@.subrange(0, i as int)).to_set(),
                self.white() == old(self).white(),
                self.config_view() == old(self).config_view(),
                e0 == old(self).entry_list(),
                self.entry_list().len() == e0.len() + added,
                self.entry_list().subrange(0, e0.len() as int) == e0,
                forall|j: int| 0 <= j < added ==> #[trigger] is_fresh_entry(
                    self.entry_list()[e0.len() + j], parsed_addrs(ips@.subrange(0, i as int))[j], IpEntryType::Blacklist, Some("bulk import"@)),
            decreases n - i,
        {
            let ghost pre = ips@.subrange(0, i as int);
            let ghost before = self.entry_list();
            proof {
                assert(ips@.subrange(0, i + 1).drop_last() =~= pre);
                reveal_strlit("bulk import");
            }
            let canonical = copy_opt_string(&ips[i].1);
            let res = self.add_to_blacklist(ips[i].0.as_str(), canonical, Some(owned("bulk import")));
            if res.is_ok() {
                added = added + 1;
            }
            proof {
                let post = ips@.subrange(0, i + 1);
                assert(post.last() == ips@[i as int]);
                if let Some(a) = ips@[i as int].1 {
                    assert(parsed_addrs(post) == parsed_addrs(pre).push(a@));
                    parsed_addrs(pre).lemma_push_to_set_commute(a@);
                }
                assert(parsed_addrs(post).to_set() =~= match ips@[i as int].1 {
                    Some(a) => parsed_addrs(pre).to_set().insert(a@),
                    None => parsed_addrs(pre).to_set(),
                });
                assert(self.black() =~= old(self).black() + parsed_addrs(post).to_set());
                assert(self.entry_list().subrange(0, e0.len() as int) =~= e0) by {
                    if ips@[i as int].1 is Some {
                        assert(self.entry_list().drop_last() == before);
                        assert forall|x: int| 0 <= x < e0.len() implies self.entry_list()[x] == e0[x] by {
                            assert(before.subrange(0, e0.len() as int)[x] == e0[x]);
                        }
                    }
                }
                assert forall|j: int| 0 <= j < added implies #[trigger] is_fresh_entry(
                    self.entry_list()[e0.len() + j], parsed_addrs(post)[j], IpEntryType::Blacklist, Some("bulk import"@)) by {
                    if j < parsed_addrs(pre).len() {
                        if ips@[i as int].1 is Some {
                            assert(self.entry_list()[e0.len() + j] == before[e0.len() + j]);
                        }
                    }
                }
            }
            i = i + 1;
        }
        proof { assert(ips@.subrange(0, n as int) =~= ips@); }
        Ok(added)
    }

    /// What the filter keeps, for storing.
    pub fn storage_snapshot(&self) -> (d: IpFilterStorage)
        ensures
            strings_view(d.whitelist@).no_duplicates(),
            forall|k: Seq<char>| strings_view(d.whitelist@).contains(k) <==> #[trigger] self.white().contains(k),
            strings_view(d.blacklist@).no_duplicates(),
            forall|k: Seq<char>| strings_view(d.blacklist@).contains(k) <==> #[trigger] self.black().contains(k),
            d.entries@.map_values(|e: IpEntry| e@) == self.entry_list(),
            d.config == Some(self.config_view()),
    {
        IpFilterStorage {
            whitelist: self.get_whitelist(),
            blacklist: self.get_blacklist(),
            entries: self.get_entries(),
            config: Some(self.config),
        }
    }

    /// Replaces the lists and entries by stored ones, and the configuration
    /// when one was stored.
    pub fn load_storage(&mut self, data: IpFilterStorage)
        ensures
            final(self).white() == strings_view(data.whitelist@).to_set(),
            final(self).black() == strings_view(data.blacklist@).to_set(),
            final(self).entry_list() == data.entries@.map_values(|e: IpEntry| e@),
            final(self).config_view() == match data.config {
                Some(c) => c,
                None => old(self).config_view(),
            },
    {
        let IpFilterStorage { whitelist, blacklist, entries, config } = data;
        self.whitelist = Self::set_of(whitelist);
        self.blacklist = Self::set_of(blacklist);
        self.entries = entries;
        match config {
            Some(c) => { self.config = c; }
            None => {}
        }
    }

    fn set_of(v: Vec<String>) -> (s: Store<String>)
        ensures
            s.map().dom() == strings_view(v@).to_set(),
    {
        let mut s: Store<String> = Store::new();
        let ghost sv = strings_view(v@);
        let n = v.len();
        let mut i: usize = 0;
        while i < n
            invariant
                n == v@.len(),
                sv == strings_view(v@),
                i <= n,
                s.map().dom() == sv.subrange(0, i as int).to_set(),
            decreases n - i,
        {
            proof {
                assert(sv.subrange(0, i + 1).to_set() =~= sv.subrange(0, i as int).to_set().insert(sv[i as int])) by {
                    assert(sv.subrange(0, i + 1) =~= sv.subrange(0, i as int).push(sv[i as int]));
                    sv.subrange(0, i as int).lemma_push_to_set_commute(sv[i as int]);
                }
            }
            s.upsert(v[i].clone());
            i = i + 1;
        }
        assert(sv.subrange(0, n as int) =~= sv);
        s
    }
}

impl Default for IpFilter {
    fn default() -> (f: IpFilter)
        ensures
            f.white() == Set::<Seq<char>>::empty(),
            f.black() == Set::<Seq<char>>::empty(),
            f.entry_list() == Seq::<IpEntryView>::empty(),
            f.config_view() == IpFilterConfig::default_spec(),
    {
        IpFilter::new()
    }
}

/// An address that has just been put on the deny list is refused while the
/// allow list is off and the deny list on.
pub proof fn law_blacklisted_address_is_refused(
    f1: IpFilter, f2: IpFilter, ip: Seq<char>, canonical: Seq<char>, reason: Option<Seq<char>>, r: Result<(), String>,
)
    requires
        added_post(f1, f2, IpEntryType::Blacklist, ip, Some(canonical), reason, r),
        !f1.config_view().whitelist_enabled,
        f1.config_view().blacklist_enabled,
    ensures
        !passes(f2.config_view(), f2.white(), f2.black(), Some(canonical)),
{
}

/// An address that has just been taken off the deny list passes while the
/// allow list is off.
pub proof fn law_unblacklisted_address_passes(
    f1: IpFilter, f2: IpFilter, ip: Seq<char>, canonical: Seq<char>, r: Result<(), String>,
)
    requires
        removed_post(f1, f2, IpEntryType::Blacklist, ip, Some(canonical), r),
        !f1.config_view().whitelist_enabled,
    ensures
        passes(f2.config_view(), f2.white(), f2.black(), Some(canonical)),
{
}

/// With the allow list on, an address that has just been put on it passes.
pub proof fn law_whitelisted_address_passes(
    f1: IpFilter, f2: IpFilter, ip: Seq<char>, canonical: Seq<char>, reason: Option<Seq<char>>, r: Result<(), String>,
)
    requires
        added_post(f1, f2, IpEntryType::Whitelist, ip, Some(canonical), reason, r),
        f1.config_view().whitelist_enabled,
    ensures
        passes(f2.config_view(), f2.white(), f2.black(), Some(canonical)),
{
}

} // verus!
