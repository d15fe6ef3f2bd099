//! The player management state and its operations: operator grants, bans,
//! actions and statistics, backups, permission groups, chat, warnings and the
//! server commands these send. Commands are returned as text for the owner to
//! send over RCON; times are milliseconds since the epoch, and the sample
//! records shown when a list is empty are dated relative to the time given.
use vstd::prelude::*;
use crate::text::{owned, str_eq, opt_view, strings_view, lowercase, to_lowercase, has_substring, has_substring_exec, copy_strings, is_ws, is_ws_exec, words, lemma_words_nonempty, replace_all, replace_exec};
use crate::dup::{Duplicate, views, dup_vec};
use crate::ids::{new_uuid_string, is_hyphenated_uuid};
use crate::clock::{utc_text, format_utc};
use crate::players::models::{
    BanType, ActionType, BackupType, PlayerStats, OpRecord, OpRecordView, BanRecord, BanRecordView, PlayerAction,
    PlayerActionView, PlayerBackup, PlayerBackupView, PermissionGroup, PermissionGroupView, ChatMessage, ChatMessageView,
    Warning, WarningView, InventorySlot, InventorySlotView,
};

verus! {

/// One minute in milliseconds.
pub const MINUTE_MS: u64 = 60_000;
/// One hour in milliseconds.
pub const HOUR_MS: u64 = 3_600_000;
/// One day in milliseconds.
pub const DAY_MS: u64 = 86_400_000;

/// `d` milliseconds before `now` (at least zero).
pub open spec fn ago(now: u64, d: u64) -> u64 {
    if d >= now { 0 } else { (now - d) as u64 }
}

/// `d` milliseconds after `now` (at most `u64::MAX`).
pub open spec fn later(now: u64, d: u64) -> u64 {
    if now + d > u64::MAX { u64::MAX } else { (now + d) as u64 }
}

fn ago_exec(now: u64, d: u64) -> (t: u64)
    ensures
        t == ago(now, d),
{
    now.saturating_sub(d)
}

fn later_exec(now: u64, d: u64) -> (t: u64)
    ensures
        t == later(now, d),
{
    now.saturating_add(d)
}

/// The time `hours` hours (possibly negative) after `now`, kept within the
/// range of the clock.
pub open spec fn shifted_hours(now: u64, hours: i32) -> u64 {
    let t = now + hours * 3_600_000;
    if t < 0 { 0 } else if t > u64::MAX { u64::MAX } else { t as u64 }
}

fn shifted_hours_exec(now: u64, hours: i32) -> (t: u64)
    ensures
        t == shifted_hours(now, hours),
{
    if hours >= 0 {
        let span: u64 = (hours as u64) * 3_600_000;
        now.saturating_add(span)
    } else {
        let span: u64 = ((-(hours as i64)) as u64) * 3_600_000;
        now.saturating_sub(span)
    }
}

/// The first `n` entries of `s` (all when there are fewer).
pub open spec fn first_n<T>(s: Seq<T>, n: usize) -> Seq<T> {
    if (n as int) < s.len() { s.take(n as int) } else { s }
}

/// How many entries a limit allows: the limit given (or the default),
/// reinterpreted as an unsigned count as Rust's `as usize` does.
pub open spec fn limit_of(limit: Option<i32>, default: i32) -> usize {
    match limit {
        Some(l) => l as usize,
        None => default as usize,
    }
}

fn limit_exec(limit: Option<i32>, default: i32) -> (n: usize)
    ensures
        n == limit_of(limit, default),
{
    match limit {
        Some(l) => l as usize,
        None => default as usize,
    }
}

/// Copies of the first `n` elements of `v`.
fn first_dup<T: Duplicate>(v: Vec<T>, n: usize) -> (r: Vec<T>)
    ensures
        views(r@) == first_n(views(v@), n),
{
    if n >= v.len() {
        return v;
    }
    let mut r: Vec<T> = Vec::new();
    let mut i: usize = 0;
    while i < n
        invariant
            n < v@.len(),
            i <= n,
            views(r@) == views(v@).take(i as int),
        decreases n - i,
    {
        let ghost before = views(r@);
        r.push(v[i].dup());
        assert(views(r@) =~= before.push(v@[i as int]@));
        i = i + 1;
        assert(views(r@) =~= views(v@).take(i as int));
    }
    r
}

// ---------------------------------------------------------------------------
// Sample records
// ---------------------------------------------------------------------------

/// The sample operator grants, dated relative to `now`.
pub open spec fn demo_ops(now: u64) -> Seq<OpRecordView> {
    seq![
        OpRecordView {
            player_name: "AdminSteve"@,
            player_uuid: "a1b2c3d4-e5f6-7890-abcd-ef1234567890"@,
            operator_level: 4,
            granted_by: "console"@,
            granted_at: ago(now, (30 * DAY_MS) as u64),
            revoked_by: None,
            revoked_at: None,
            active: true,
        },
        OpRecordView {
            player_name: "ModAlex"@,
            player_uuid: "b2c3d4e5-f6a7-8901-bcde-f12345678901"@,
            operator_level: 2,
            granted_by: "AdminSteve"@,
            granted_at: ago(now, (15 * DAY_MS) as u64),
            revoked_by: None,
            revoked_at: None,
            active: true,
        },
    ]
}

/// The sample operator grants, dated relative to `now`.
pub fn generate_demo_op_records(now: u64) -> (v: Vec<OpRecord>)
    ensures
        views(v@) == demo_ops(now),
{
    let v = vec![
        OpRecord {
            player_name: owned("AdminSteve"),
            player_uuid: owned("a1b2c3d4-e5f6-7890-abcd-ef1234567890"),
            operator_level: 4,
            granted_by: owned("console"),
            granted_at: ago_exec(now, 30 * DAY_MS),
            revoked_by: None,
            revoked_at: None,
            active: true,
        },
        OpRecord {
            player_name: owned("ModAlex"),
            player_uuid: owned("b2c3d4e5-f6a7-8901-bcde-f12345678901"),
            operator_level: 2,
            granted_by: owned("AdminSteve"),
            granted_at: ago_exec(now, 15 * DAY_MS),
            revoked_by: None,
            revoked_at: None,
            active: true,
        },
    ];
    assert(views(v@) =~= demo_ops(now));
    v
}

/// The sample bans, dated relative to `now`.
pub open spec fn demo_bans(now: u64) -> Seq<BanRecordView> {
    seq![
        BanRecordView {
            id: "ban-001"@,
            player_name: "Griefer123"@,
            player_uuid: "c3d4e5f6-a7b8-9012-cdef-123456789012"@,
            ban_type: BanType::Ban,
            reason: "Griefing server builds"@,
            banned_by: "AdminSteve"@,
            banned_at: ago(now, (7 * DAY_MS) as u64),
            expires_at: None,
            server_id: "server-1"@,
            active: true,
        },
        BanRecordView {
            id: "ban-002"@,
            player_name: "Spammer456"@,
            player_uuid: "d4e5f6a7-b8c9-0123-defa-234567890123"@,
            ban_type: BanType::TempBan,
            reason: "Advertising"@,
            banned_by: "ModAlex"@,
            banned_at: ago(now, (12 * HOUR_MS) as u64),
            expires_at: Some(later(now, (12 * HOUR_MS) as u64)),
            server_id: "server-1"@,
            active: true,
        },
    ]
}

/// The sample bans, dated relative to `now`.
pub fn generate_demo_ban_records(now: u64) -> (v: Vec<BanRecord>)
    ensures
        views(v@) == demo_bans(now),
{
    let v = vec![
        BanRecord {
            id: owned("ban-001"),
            player_name: owned("Griefer123"),
            player_uuid: owned("c3d4e5f6-a7b8-9012-cdef-123456789012"),
            ban_type: BanType::Ban,
            reason: owned("Griefing server builds"),
            banned_by: owned("AdminSteve"),
            banned_at: ago_exec(now, 7 * DAY_MS),
            expires_at: None,
            server_id: owned("server-1"),
            active: true,
        },
        BanRecord {
            id: owned("ban-002"),
            player_name: owned("Spammer456"),
            player_uuid: owned("d4e5f6a7-b8c9-0123-defa-234567890123"),
            ban_type: BanType::TempBan,
            reason: owned("Advertising"),
            banned_by: owned("ModAlex"),
            banned_at: ago_exec(now, 12 * HOUR_MS),
            expires_at: Some(later_exec(now, 12 * HOUR_MS)),
            server_id: owned("server-1"),
            active: true,
        },
    ];
    assert(views(v@) =~= demo_bans(now));
    v
}

/// The sample player actions, dated relative to `now`.
pub open spec fn demo_actions(now: u64) -> Seq<PlayerActionView> {
    seq![
        PlayerActionView {
            id: "action-001"@,
            player_name: "Steve"@,
            action_type: ActionType::Join,
            details: "Player joined the server"@,
            timestamp: ago(now, (5 * MINUTE_MS) as u64),
            server_id: "server-1"@,
        },
        PlayerActionView {
            id: "action-002"@,
            player_name: "Steve"@,
            action_type: ActionType::Chat,
            details: "Hello everyone!"@,
            timestamp: ago(now, (4 * MINUTE_MS) as u64),
            server_id: "server-1"@,
        },
        PlayerActionView {
            id: "action-003"@,
            player_name: "Alex"@,
            action_type: ActionType::Death,
            details: "Died to Creeper"@,
            timestamp: ago(now, (10 * MINUTE_MS) as u64),
            server_id: "server-1"@,
        },
    ]
}

/// The sample player actions, dated relative to `now`.
pub fn generate_demo_player_actions(now: u64) -> (v: Vec<PlayerAction>)
    ensures
        views(v@) == demo_actions(now),
{
    let v = vec![
        PlayerAction {
            id: owned("action-001"),
            player_name: owned("Steve"),
            action_type: ActionType::Join,
            details: owned("Player joined the server"),
            timestamp: ago_exec(now, 5 * MINUTE_MS),
            server_id: owned("server-1"),
        },
        PlayerAction {
            id: owned("action-002"),
            player_name: owned("Steve"),
            action_type: ActionType::Chat,
            details: owned("Hello everyone!"),
            timestamp: ago_exec(now, 4 * MINUTE_MS),
            server_id: owned("server-1"),
        },
        PlayerAction {
            id: owned("action-003"),
            player_name: owned("Alex"),
            action_type: ActionType::Death,
            details: owned("Died to Creeper"),
            timestamp: ago_exec(now, 10 * MINUTE_MS),
            server_id: owned("server-1"),
        },
    ];
    assert(views(v@) =~= demo_actions(now));
    v
}

/// A sample permission group available in every world.
pub open spec fn demo_group(id: Seq<char>, name: Seq<char>, display: Seq<char>, color: Seq<char>, prefix: Option<Seq<char>>,
    weight: i32, permissions: Seq<Seq<char>>, parent: Option<Seq<char>>) -> PermissionGroupView {
    PermissionGroupView {
        id,
        name,
        display_name: display,
        color,
        prefix,
        suffix: None,
        weight,
        permissions,
        parent_id: parent,
        worlds: seq!["*"@],
    }
}

/// The sample permission groups: administrator, moderator, VIP and member.
pub open spec fn demo_groups() -> Seq<PermissionGroupView> {
    seq![
        demo_group("group-admin"@, "admin"@, "Administrator"@, "#FF5555"@, Some("[Admin]"@), 100, seq!["*"@], None),
        demo_group("group-mod"@, "mod"@, "Moderator"@, "#00AA00"@, Some("[Mod]"@), 80,
            seq!["essentials.kick"@, "essentials.ban"@, "essentials.mute"@], Some("group-vip"@)),
        demo_group("group-vip"@, "vip"@, "VIP"@, "#FFAA00"@, Some("[VIP]"@), 50,
            seq!["essentials.home"@, "essentials.sethome"@], Some("group-default"@)),
        demo_group("group-default"@, "default"@, "Member"@, "#FFFFFF"@, None, 10, seq!["essentials.spawn"@], None),
    ]
}

fn make_group(id: &str, name: &str, display: &str, color: &str, prefix: Option<&str>, weight: i32, permissions: Vec<String>,
    parent: Option<&str>) -> (g: PermissionGroup)
    ensures
        g@ == demo_group(id@, name@, display@, color@, match prefix { Some(p) => Some(p@), None => None }, weight,
            strings_view(permissions@), match parent { Some(p) => Some(p@), None => None }),
{
    let worlds = vec![owned("*")];
    assert(strings_view(worlds@) =~= seq!["*"@]);
    PermissionGroup {
        id: owned(id),
        name: owned(name),
        display_name: owned(display),
        color: owned(color),
        prefix: match prefix {
            Some(p) => Some(owned(p)),
            None => None,
        },
        suffix: None,
        weight,
        permissions,
        parent_id: match parent {
            Some(p) => Some(owned(p)),
            None => None,
        },
        worlds,
    }
}

/// The sample permission groups: administrator, moderator, VIP and member.
pub fn generate_demo_permission_groups() -> (v: Vec<PermissionGroup>)
    ensures
        views(v@) == demo_groups(),
{
    let admin_perms = vec![owned("*")];
    assert(strings_view(admin_perms@) =~= seq!["*"@]);
    let mod_perms = vec![owned("essentials.kick"), owned("essentials.ban"), owned("essentials.mute")];
    assert(strings_view(mod_perms@) =~= seq!["essentials.kick"@, "essentials.ban"@, "essentials.mute"@]);
    let vip_perms = vec![owned("essentials.home"), owned("essentials.sethome")];
    assert(strings_view(vip_perms@) =~= seq!["essentials.home"@, "essentials.sethome"@]);
    let member_perms = vec![owned("essentials.spawn")];
    assert(strings_view(member_perms@) =~= seq!["essentials.spawn"@]);
    let v = vec![
        make_group("group-admin", "admin", "Administrator", "#FF5555", Some("[Admin]"), 100, admin_perms, None),
        make_group("group-mod", "mod", "Moderator", "#00AA00", Some("[Mod]"), 80, mod_perms, Some("group-vip")),
        make_group("group-vip", "vip", "VIP", "#FFAA00", Some("[VIP]"), 50, vip_perms, Some("group-default")),
        make_group("group-default", "default", "Member", "#FFFFFF", None, 10, member_perms, None),
    ];
    assert(views(v@) =~= demo_groups());
    v
}

/// The sample chat lines, dated relative to `now`.
pub open spec fn demo_chat(now: u64) -> Seq<ChatMessageView> {
    seq![
        ChatMessageView {
            id: "chat-001"@,
            player_name: "Steve"@,
            player_uuid: "a1b2c3d4-e5f6-7890-abcd-ef1234567890"@,
            message: "Hello, world!"@,
            channel: "global"@,
            timestamp: ago(now, (30 * MINUTE_MS) as u64),
            server_id: "server-1"@,
        },
        ChatMessageView {
            id: "chat-002"@,
            player_name: "Alex"@,
            player_uuid: "b2c3d4e5-f6a7-8901-bcde-f12345678901"@,
            message: "Welcome to the server!"@,
            channel: "global"@,
            timestamp: ago(now, (25 * MINUTE_MS) as u64),
            server_id: "server-1"@,
        },
    ]
}

/// The sample chat lines, dated relative to `now`.
pub fn generate_demo_chat_messages(now: u64) -> (v: Vec<ChatMessage>)
    ensures
        views(v@) == demo_chat(now),
{
    let v = vec![
        ChatMessage {
            id: owned("chat-001"),
            player_name: owned("Steve"),
            player_uuid: owned("a1b2c3d4-e5f6-7890-abcd-ef1234567890"),
            message: owned("Hello, world!"),
            channel: owned("global"),
            timestamp: ago_exec(now, 30 * MINUTE_MS),
            server_id: owned("server-1"),
        },
        ChatMessage {
            id: owned("chat-002"),
            player_name: owned("Alex"),
            player_uuid: owned("b2c3d4e5-f6a7-8901-bcde-f12345678901"),
            message: owned("Welcome to the server!"),
            channel: owned("global"),
            timestamp: ago_exec(now, 25 * MINUTE_MS),
            server_id: owned("server-1"),
        },
    ];
    assert(views(v@) =~= demo_chat(now));
    v
}

/// The sample warnings, dated relative to `now`.
pub open spec fn demo_warnings(now: u64) -> Seq<WarningView> {
    seq![
        WarningView {
            id: "warn-001"@,
            player_name: "NewPlayer123"@,
            player_uuid: "c3d4e5f6-a7b8-9012-cdef-123456789012"@,
            reason: "Inappropriate chat language"@,
            issued_by: "ModAlex"@,
            issued_at: ago(now, (2 * DAY_MS) as u64),
            expires_at: None,
            active: true,
            server_id: "server-1"@,
        },
        WarningView {
            id: "warn-002"@,
            player_name: "Builder456"@,
            player_uuid: "d4e5f6a7-b8c9-0123-defa-234567890123"@,
            reason: "Building in restricted area"@,
            issued_by: "AdminSteve"@,
            issued_at: ago(now, (6 * HOUR_MS) as u64),
            expires_at: Some(later(now, (7 * DAY_MS) as u64)),
            active: true,
            server_id: "server-1"@,
        },
    ]
}

/// The sample warnings, dated relative to `now`.
pub fn generate_demo_warnings(now: u64) -> (v: Vec<Warning>)
    ensures
        views(v@) == demo_warnings(now),
{
    let v = vec![
        Warning {
            id: owned("warn-001"),
            player_name: owned("NewPlayer123"),
            player_uuid: owned("c3d4e5f6-a7b8-9012-cdef-123456789012"),
            reason: owned("Inappropriate chat language"),
            issued_by: owned("ModAlex"),
            issued_at: ago_exec(now, 2 * DAY_MS),
            expires_at: None,
            active: true,
            server_id: owned("server-1"),
        },
        Warning {
            id: owned("warn-002"),
            player_name: owned("Builder456"),
            player_uuid: owned("d4e5f6a7-b8c9-0123-defa-234567890123"),
            reason: owned("Building in restricted area"),
            issued_by: owned("AdminSteve"),
            issued_at: ago_exec(now, 6 * HOUR_MS),
            expires_at: Some(later_exec(now, 7 * DAY_MS)),
            active: true,
            server_id: owned("server-1"),
        },
    ];
    assert(views(v@) =~= demo_warnings(now));
    v
}

/// The sample inventory: a diamond sword, an iron pickaxe and a stack of torches.
pub open spec fn demo_inventory() -> Seq<InventorySlotView> {
    seq![
        InventorySlotView { slot: 0, item: "minecraft:diamond_sword"@, count: 1, metadata: None, nbt: None },
        InventorySlotView { slot: 1, item: "minecraft:iron_pickaxe"@, count: 1, metadata: None, nbt: None },
        InventorySlotView { slot: 2, item: "minecraft:torch"@, count: 64, metadata: None, nbt: None },
    ]
}

/// The sample inventory.
pub fn generate_demo_inventory() -> (v: Vec<InventorySlot>)
    ensures
        views(v@) == demo_inventory(),
{
    let v = vec![
        InventorySlot { slot: 0, item: owned("minecraft:diamond_sword"), count: 1, metadata: None, nbt: None },
        InventorySlot { slot: 1, item: owned("minecraft:iron_pickaxe"), count: 1, metadata: None, nbt: None },
        InventorySlot { slot: 2, item: owned("minecraft:torch"), count: 64, metadata: None, nbt: None },
    ];
    assert(views(v@) =~= demo_inventory());
    v
}

// ---------------------------------------------------------------------------
// Requests
// ---------------------------------------------------------------------------

/// A request to ban a player, for `duration_hours` hours when given.
pub struct BanRequest {
    pub player_name: String,
    pub reason: String,
    pub duration_hours: Option<i32>,
}

/// A request to warn a player, for `duration_hours` hours when given.
pub struct WarningRequest {
    pub player_name: String,
    pub reason: String,
    pub duration_hours: Option<i32>,
}

// ---------------------------------------------------------------------------
// Server commands
// ---------------------------------------------------------------------------

/// The command granting operator rights to `player`.
pub fn op_command(player: &str) -> (c: String)
    ensures
        c@ == "op "@ + player@,
{
    owned("op ").concat(player)
}

/// The command revoking operator rights from `player`.
pub fn deop_command(player: &str) -> (c: String)
    ensures
        c@ == "deop "@ + player@,
{
    owned("deop ").concat(player)
}

/// The command banning `player` for `reason`.
pub fn ban_command(player: &str, reason: &str) -> (c: String)
    ensures
        c@ == "ban "@ + player@ + " "@ + reason@,
{
    owned("ban ").concat(player).concat(" ").concat(reason)
}

/// The command lifting the ban of `player`.
pub fn pardon_command(player: &str) -> (c: String)
    ensures
        c@ == "pardon "@ + player@,
{
    owned("pardon ").concat(player)
}

// ---------------------------------------------------------------------------
// Item names and inventory commands
// ---------------------------------------------------------------------------


/// The words `w` joined by "_".
pub open spec fn join_us(w: Seq<Seq<char>>) -> Seq<char>
    decreases w.len(),
{
    if w.len() == 0 {
        seq![]
    } else if w.len() == 1 {
        w[0]
    } else {
        join_us(w.drop_last()) + seq!['_'] + w.last()
    }
}

/// The words of `s` joined by "_" (as `split_whitespace` and `join("_")` give).
fn join_words(s: &Vec<char>) -> (r: Vec<char>)
    ensures
        r@ == join_us(words(s@)),
{
    let n = s.len();
    let mut out: Vec<char> = Vec::new();
    let mut in_word = false;
    let mut i: usize = 0;
    while i < n
        invariant
            n == s@.len(),
            i <= n,
            out@ == join_us(words(s@.take(i as int))),
            in_word == (i > 0 && !is_ws(s@[i - 1])),
            out@.len() == 0 <==> words(s@.take(i as int)).len() == 0,
        decreases n - i,
    {
        let c = s[i];
        let ghost p = s@.take(i as int);
        let ghost q = s@.take(i + 1);
        proof {
            assert(q.drop_last() =~= p);
            assert(q.last() == c);
            lemma_words_nonempty(p);
            if i > 0 {
                assert(p.last() == s@[i - 1]);
                assert(q[q.len() - 2] == s@[i - 1]);
            }
        }
        if is_ws_exec(c) {
            in_word = false;
        } else {
            let ghost w = words(p);
            if in_word {
                out.push(c);
                proof {
                    let w2 = w.update(w.len() - 1, w.last().push(c));
                    assert(words(q) == w2);
                    if w.len() >= 2 {
                        assert(w2.drop_last() =~= w.drop_last());
                    }
                    assert(join_us(w2) =~= join_us(w).push(c));
                }
            } else {
                if out.len() > 0 {
                    out.push('_');
                }
                out.push(c);
                proof {
                    let w2 = w.push(seq![c]);
                    assert(words(q) == w2);
                    assert(w2.drop_last() =~= w);
                    if w.len() == 0 {
                        assert(join_us(w2) =~= seq![c]);
                    }
                }
                in_word = true;
            }
        }
        i = i + 1;
    }
    assert(s@.take(n as int) =~= s@);
    out
}

/// The item name `parse_item_name` gives for `item`: without "minecraft:",
/// underscores as spaces, its words joined by "_", the spaces then written as
/// underscores, and "minecraft:" put back in front; none when no word is left.
pub open spec fn parsed_item(item: Seq<char>) -> Option<Seq<char>> {
    let clean = join_us(words(replace_all(replace_all(item, "minecraft:"@, seq![]), seq!['_'], seq![' '])));
    if clean.len() == 0 { None } else { Some("minecraft:"@ + replace_all(clean, seq![' '], seq!['_'])) }
}

/// The item name to give for `item` (see `parsed_item`).
pub fn parse_item_name(item: &str) -> (r: Option<String>)
    ensures
        match r {
            Some(x) => parsed_item(item@) == Some(x@),
            None => parsed_item(item@) is None,
        },
{
    proof { reveal_strlit("minecraft:"); }
    let chars = crate::text::chars_of(item);
    let prefix = crate::text::chars_of("minecraft:");
    let empty: Vec<char> = Vec::new();
    let underscore = vec!['_'];
    let space = vec![' '];
    assert(empty@ =~= Seq::<char>::empty());
    assert(underscore@ =~= seq!['_']);
    assert(space@ =~= seq![' ']);
    let a = replace_exec(&chars, &prefix, &empty);
    let b = replace_exec(&a, &underscore, &space);
    let clean = join_words(&b);
    if clean.len() == 0 {
        return None;
    }
    let fixed = replace_exec(&clean, &space, &underscore);
    let name = crate::text::string_from_chars(&fixed);
    Some(owned("minecraft:").concat(name.as_str()))
}

/// The decimal form of a signed number, as `to_string` gives it.
pub open spec fn int_text(x: i32) -> Seq<char> {
    if x < 0 { "-"@ + crate::text::decimal((-x) as nat) } else { crate::text::decimal(x as nat) }
}

fn int_to_text(x: i32) -> (s: String)
    ensures
        s@ == int_text(x),
{
    if x < 0 {
        let m: u64 = (-(x as i64)) as u64;
        owned("-").concat(crate::text::u64_to_decimal(m).as_str())
    } else {
        crate::text::u64_to_decimal(x as u64)
    }
}

/// The give command of an inventory slot holding item `item`.
pub open spec fn give_command(player: Seq<char>, item: Seq<char>, count: i32, slot: i32) -> Seq<char> {
    "give "@ + player + " "@ + item + " "@ + int_text(count) + " "@ + int_text(slot)
}

/// The give commands for the slots of `s` whose item name parses and whose
/// count is positive, in order.
pub open spec fn give_commands(player: Seq<char>, s: Seq<InventorySlotView>) -> Seq<Seq<char>>
    decreases s.len(),
{
    if s.len() == 0 {
        seq![]
    } else {
        let rest = give_commands(player, s.drop_last());
        let l = s.last();
        match parsed_item(l.item) {
            Some(it) => if l.count > 0 { rest.push(give_command(player, it, l.count, l.slot)) } else { rest },
            None => rest,
        }
    }
}

/// The commands replacing the inventory of `player` by `inventory`: clear
/// it, then give each slot whose item name parses and whose count is positive.
pub fn update_player_inventory(player: &str, inventory: &Vec<InventorySlot>) -> (v: Vec<String>)
    ensures
        strings_view(v@) == seq!["clear "@ + player@ + " * 0"@] + give_commands(player@, views(inventory@)),
{
    let ghost s = views(inventory@);
    let mut v: Vec<String> = Vec::new();
    v.push(owned("clear ").concat(player).concat(" * 0"));
    let n = inventory.len();
    let mut i: usize = 0;
    while i < n
        invariant
            n == inventory@.len(),
            s == views(inventory@),
            i <= n,
            strings_view(v@) == seq!["clear "@ + player@ + " * 0"@] + give_commands(player@, s.take(i as int)),
        decreases n - i,
    {
        proof {
            assert(s.take(i + 1).drop_last() =~= s.take(i as int));
            assert(s.take(i + 1).last() == inventory@[i as int]@);
        }
        let slot = &inventory[i];
        match parse_item_name(slot.item.as_str()) {
            Some(item) => {
                if slot.count > 0 {
                    let c = owned("give ").concat(player).concat(" ").concat(item.as_str()).concat(" ")
                        .concat(int_to_text(slot.count).as_str()).concat(" ").concat(int_to_text(slot.slot).as_str());
                    let ghost before = strings_view(v@);
                    let ghost cv = c@;
                    v.push(c);
                    assert(strings_view(v@) =~= before.push(cv));
                }
            }
            None => {}
        }
        i = i + 1;
        assert(strings_view(v@) =~= seq!["clear "@ + player@ + " * 0"@] + give_commands(player@, s.take(i as int)));
    }
    proof { assert(s.take(n as int) =~= s); }
    v
}

// ---------------------------------------------------------------------------
// Selection helpers
// ---------------------------------------------------------------------------

/// The active grants of `s`, in order.
pub open spec fn active_ops(s: Seq<OpRecordView>) -> Seq<OpRecordView>
    decreases s.len(),
{
    if s.len() == 0 {
        seq![]
    } else if s.last().active {
        active_ops(s.drop_last()).push(s.last())
    } else {
        active_ops(s.drop_last())
    }
}

/// Whether a ban passes a listing's filters: on server `server` when one is
/// given, and active unless `active_only` is `Some(false)`.
pub open spec fn ban_listed(b: BanRecordView, server: Option<Seq<char>>, active_only: Option<bool>) -> bool {
    &&& (server matches Some(sid) ==> b.server_id == sid)
    &&& (match active_only { Some(false) => true, _ => b.active })
}

/// The bans of `s` that pass the listing's filters, in order.
pub open spec fn listed_bans(s: Seq<BanRecordView>, server: Option<Seq<char>>, active_only: Option<bool>) -> Seq<BanRecordView>
    decreases s.len(),
{
    if s.len() == 0 {
        seq![]
    } else if ban_listed(s.last(), server, active_only) {
        listed_bans(s.drop_last(), server, active_only).push(s.last())
    } else {
        listed_bans(s.drop_last(), server, active_only)
    }
}

/// The name of an action kind as its debug form prints it.
pub open spec fn action_name(t: ActionType) -> Seq<char> {
    match t {
        ActionType::Join => "Join"@,
        ActionType::Leave => "Leave"@,
        ActionType::Chat => "Chat"@,
        ActionType::Command => "Command"@,
        ActionType::Death => "Death"@,
        ActionType::Kill => "Kill"@,
        ActionType::Trade => "Trade"@,
    }
}

/// The name of an action kind as its debug form prints it.
pub fn action_type_name(t: ActionType) -> (s: &'static str)
    ensures
        s@ == action_name(t),
{
    match t {
        ActionType::Join => "Join",
        ActionType::Leave => "Leave",
        ActionType::Chat => "Chat",
        ActionType::Command => "Command",
        ActionType::Death => "Death",
        ActionType::Kill => "Kill",
        ActionType::Trade => "Trade",
    }
}

/// Whether an action passes a listing's filters: by player `name` and by kind
/// `kind` (compared in lower case) when given.
pub open spec fn action_listed(a: PlayerActionView, name: Option<Seq<char>>, kind: Option<Seq<char>>) -> bool {
    &&& (name matches Some(n) ==> a.player_name == n)
    &&& (kind matches Some(k) ==> lowercase(action_name(a.action_type)) == lowercase(k))
}

/// The actions of `s` that pass the listing's filters, in order.
pub open spec fn listed_actions(s: Seq<PlayerActionView>, name: Option<Seq<char>>, kind: Option<Seq<char>>) -> Seq<PlayerActionView>
    decreases s.len(),
{
    if s.len() == 0 {
        seq![]
    } else if action_listed(s.last(), name, kind) {
        listed_actions(s.drop_last(), name, kind).push(s.last())
    } else {
        listed_actions(s.drop_last(), name, kind)
    }
}

/// How many actions of `s` by `name` are of kind `t`.
pub open spec fn count_actions(s: Seq<PlayerActionView>, name: Seq<char>, t: ActionType) -> nat
    decreases s.len(),
{
    if s.len() == 0 {
        0
    } else {
        count_actions(s.drop_last(), name, t) + if s.last().player_name == name && s.last().action_type == t { 1nat } else { 0nat }
    }
}

proof fn lemma_count_actions_le(s: Seq<PlayerActionView>, name: Seq<char>, t: ActionType)
    ensures
        count_actions(s, name, t) <= s.len(),
    decreases s.len(),
{
    if s.len() > 0 {
        lemma_count_actions_le(s.drop_last(), name, t);
    }
}

fn opt_matches(o: &Option<String>, x: &str) -> (b: bool)
    ensures
        b == (o matches Some(v) ==> v@ == x@),
{
    match o {
        Some(v) => str_eq(v.as_str(), x),
        None => true,
    }
}

fn opt_str_view(o: &Option<String>) -> (r: Option<&str>)
    ensures
        match r {
            Some(x) => opt_view(*o) == Some(x@),
            None => o is None,
        },
{
    match o {
        Some(v) => Some(v.as_str()),
        None => None,
    }
}

// ---------------------------------------------------------------------------
// The state
// ---------------------------------------------------------------------------

/// The lists kept by the player management: operator grants, bans, player
/// actions, backups, permission groups, chat lines and warnings.
pub struct PlayersState {
    pub op_records: Vec<OpRecord>,
    pub ban_records: Vec<BanRecord>,
    pub player_actions: Vec<PlayerAction>,
    pub backups: Vec<PlayerBackup>,
    pub permission_groups: Vec<PermissionGroup>,
    pub chat_messages: Vec<ChatMessage>,
    pub warnings: Vec<Warning>,
}

/// The lower-case file-name word of a backup kind.
pub open spec fn backup_word(t: BackupType) -> Seq<char> {
    match t {
        BackupType::Full => "full"@,
        BackupType::Inventory => "inventory"@,
        BackupType::Stats => "stats"@,
        BackupType::Location => "location"@,
    }
}

/// The lower-case file-name word of a backup kind.
pub fn backup_type_word(t: BackupType) -> (s: &'static str)
    ensures
        s@ == backup_word(t),
{
    match t {
        BackupType::Full => "full",
        BackupType::Inventory => "inventory",
        BackupType::Stats => "stats",
        BackupType::Location => "location",
    }
}

/// The backups of `s` of player `name`, in order.
pub open spec fn backups_of(s: Seq<PlayerBackupView>, name: Seq<char>) -> Seq<PlayerBackupView>
    decreases s.len(),
{
    if s.len() == 0 {
        seq![]
    } else if s.last().player_name == name {
        backups_of(s.drop_last(), name).push(s.last())
    } else {
        backups_of(s.drop_last(), name)
    }
}

/// The groups of `s` other than those with id `id`, in order.
pub open spec fn groups_without(s: Seq<PermissionGroupView>, id: Seq<char>) -> Seq<PermissionGroupView>
    decreases s.len(),
{
    if s.len() == 0 {
        seq![]
    } else if s.last().id == id {
        groups_without(s.drop_last(), id)
    } else {
        groups_without(s.drop_last(), id).push(s.last())
    }
}

/// The chat lines of `s` by `name` when given, in order.
pub open spec fn chats_by(s: Seq<ChatMessageView>, name: Option<Seq<char>>) -> Seq<ChatMessageView>
    decreases s.len(),
{
    if s.len() == 0 {
        seq![]
    } else if (name matches Some(n) ==> s.last().player_name == n) {
        chats_by(s.drop_last(), name).push(s.last())
    } else {
        chats_by(s.drop_last(), name)
    }
}

/// Whether a chat line passes a search: its text contains `keyword` (both in
/// lower case) and it is by `name`, each when given.
pub open spec fn chat_found(m: ChatMessageView, keyword: Option<Seq<char>>, name: Option<Seq<char>>) -> bool {
    &&& (keyword matches Some(k) ==> has_substring(lowercase(m.message), lowercase(k)))
    &&& (name matches Some(n) ==> m.player_name == n)
}

/// The chat lines of `s` that pass a search, in order.
pub open spec fn chats_found(s: Seq<ChatMessageView>, keyword: Option<Seq<char>>, name: Option<Seq<char>>) -> Seq<ChatMessageView>
    decreases s.len(),
{
    if s.len() == 0 {
        seq![]
    } else if chat_found(s.last(), keyword, name) {
        chats_found(s.drop_last(), keyword, name).push(s.last())
    } else {
        chats_found(s.drop_last(), keyword, name)
    }
}

/// Whether a warning passes a listing's filters: of `name` when given, and
/// active unless `active_only` is `Some(false)`.
pub open spec fn warning_listed(w: WarningView, name: Option<Seq<char>>, active_only: Option<bool>) -> bool {
    &&& (name matches Some(n) ==> w.player_name == n)
    &&& (match active_only { Some(false) => true, _ => w.active })
}

/// The warnings of `s` that pass a listing's filters, in order.
pub open spec fn listed_warnings(s: Seq<WarningView>, name: Option<Seq<char>>, active_only: Option<bool>) -> Seq<WarningView>
    decreases s.len(),
{
    if s.len() == 0 {
        seq![]
    } else if warning_listed(s.last(), name, active_only) {
        listed_warnings(s.drop_last(), name, active_only).push(s.last())
    } else {
        listed_warnings(s.drop_last(), name, active_only)
    }
}

/// The command re-applying ban `b` on the server.
pub open spec fn sync_command_of(b: BanRecordView) -> Seq<char> {
    match b.ban_type {
        BanType::Ban | BanType::TempBan => "ban "@ + b.player_name + " "@ + b.reason,
        BanType::IPBan => "ban-ip "@ + b.player_name + " "@ + b.reason,
        BanType::Mute => "mute "@ + b.player_name + " "@ + b.reason,
    }
}

/// The commands re-applying the active bans of server-1 in `s`, in order.
pub open spec fn sync_commands(s: Seq<BanRecordView>) -> Seq<Seq<char>>
    decreases s.len(),
{
    if s.len() == 0 {
        seq![]
    } else if s.last().active && s.last().server_id == "server-1"@ {
        sync_commands(s.drop_last()).push(sync_command_of(s.last()))
    } else {
        sync_commands(s.drop_last())
    }
}

/// A grant `r` revoked by the administrator at `now`.
pub open spec fn revoked_op(r: OpRecordView, now: u64) -> OpRecordView {
    OpRecordView { active: false, revoked_by: Some("admin"@), revoked_at: Some(now), ..r }
}

/// `s2` is `s1` with the first active grant of `name` revoked at `now`, or
/// `s1` itself when `name` has no active grant.
pub open spec fn ops_revoked(s1: Seq<OpRecordView>, s2: Seq<OpRecordView>, name: Seq<char>, now: u64) -> bool {
    (exists|i: int| 0 <= i < s1.len() && #[trigger] s1[i].player_name == name && s1[i].active
        && (forall|j: int| 0 <= j < i ==> !(#[trigger] s1[j].player_name == name && s1[j].active))
        && s2 == s1.update(i, revoked_op(s1[i], now)))
    || ((forall|i: int| 0 <= i < s1.len() ==> !(#[trigger] s1[i].player_name == name && s1[i].active)) && s2 == s1)
}

/// `s2` is `s1` with the first active ban of `name` lifted, or `s1` itself
/// when `name` has no active ban.
pub open spec fn bans_lifted(s1: Seq<BanRecordView>, s2: Seq<BanRecordView>, name: Seq<char>) -> bool {
    (exists|i: int| 0 <= i < s1.len() && #[trigger] s1[i].player_name == name && s1[i].active
        && (forall|j: int| 0 <= j < i ==> !(#[trigger] s1[j].player_name == name && s1[j].active))
        && s2 == s1.update(i, BanRecordView { active: false, ..s1[i] }))
    || ((forall|i: int| 0 <= i < s1.len() ==> !(#[trigger] s1[i].player_name == name && s1[i].active)) && s2 == s1)
}

impl PlayersState {
    /// The operator grants.
    pub open spec fn ops(&self) -> Seq<OpRecordView> {
        views(self.op_records@)
    }

    /// The bans.
    pub open spec fn bans(&self) -> Seq<BanRecordView> {
        views(self.ban_records@)
    }

    /// The player actions.
    pub open spec fn actions(&self) -> Seq<PlayerActionView> {
        views(self.player_actions@)
    }

    /// The backups.
    pub open spec fn backup_list(&self) -> Seq<PlayerBackupView> {
        views(self.backups@)
    }

    /// The permission groups.
    pub open spec fn groups(&self) -> Seq<PermissionGroupView> {
        views(self.permission_groups@)
    }

    /// The chat lines.
    pub open spec fn chats(&self) -> Seq<ChatMessageView> {
        views(self.chat_messages@)
    }

    /// The warnings.
    pub open spec fn warning_list(&self) -> Seq<WarningView> {
        views(self.warnings@)
    }

    /// Everything is empty.
    pub open spec fn is_empty(&self) -> bool {
        &&& self.op_records@.len() == 0
        &&& self.ban_records@.len() == 0
        &&& self.player_actions@.len() == 0
        &&& self.backups@.len() == 0
        &&& self.permission_groups@.len() == 0
        &&& self.chat_messages@.len() == 0
        &&& self.warnings@.len() == 0
    }

    /// Empty lists.
    pub fn new() -> (s: PlayersState)
        ensures
            s.is_empty(),
    {
        PlayersState {
            op_records: Vec::new(),
            ban_records: Vec::new(),
            player_actions: Vec::new(),
            backups: Vec::new(),
            permission_groups: Vec::new(),
            chat_messages: Vec::new(),
            warnings: Vec::new(),
        }
    }

    /// Copies of the active operator grants, or the sample grants (dated
    /// relative to `now`) when there are none.
    pub fn get_op_list(&self, now: u64) -> (v: Vec<OpRecord>)
        ensures
            views(v@) == if active_ops(self.ops()).len() == 0 { demo_ops(now) } else { active_ops(self.ops()) },
    {
        let ghost s = self.ops();
        let n = self.op_records.len();
        let mut v: Vec<OpRecord> = Vec::new();
        let mut i: usize = 0;
        while i < n
            invariant
                n == self.op_records@.len(),
                s == self.ops(),
                i <= n,
                views(v@) == active_ops(s.take(i as int)),
            decreases n - i,
        {
            proof {
                assert(s.take(i + 1).drop_last() =~= s.take(i as int));
                assert(s.take(i + 1).last() == self.op_records@[i as int]@);
            }
            if self.op_records[i].active {
                let ghost before = views(v@);
                v.push(self.op_records[i].dup());
                assert(views(v@) =~= before.push(s[i as int]));
            }
            i = i + 1;
        }
        proof { assert(s.take(n as int) =~= s); }
        if v.len() == 0 {
            generate_demo_op_records(now)
        } else {
            v
        }
    }

    /// Records operator rights for `player_name` at `level`, granted by the
    /// administrator at `now` under a fresh id; returns a copy of the record.
    pub fn grant_op(&mut self, player_name: &str, level: i32, now: u64) -> (r: OpRecord)
        ensures
            is_hyphenated_uuid(r@.player_uuid),
            r@ == (OpRecordView {
                player_name: player_name@,
                player_uuid: r@.player_uuid,
                operator_level: level,
                granted_by: "admin"@,
                granted_at: now,
                revoked_by: None,
                revoked_at: None,
                active: true,
            }),
            final(self).ops() == old(self).ops().push(r@),
            final(self).bans() == old(self).bans(),
            final(self).actions() == old(self).actions(),
    {
        let record = OpRecord {
            player_name: owned(player_name),
            player_uuid: new_uuid_string(),
            operator_level: level,
            granted_by: owned("admin"),
            granted_at: now,
            revoked_by: None,
            revoked_at: None,
            active: true,
        };
        let copy = record.dup();
        let ghost before = self.ops();
        self.op_records.push(record);
        assert(self.ops() =~= before.push(copy@));
        copy
    }

    /// Revokes, at `now`, the first active grant of `player_name`, if any;
    /// returns the confirmation text.
    pub fn revoke_op(&mut self, player_name: &str, now: u64) -> (m: String)
        ensures
            m@ == "OP revoked for "@ + player_name@,
            ops_revoked(old(self).ops(), final(self).ops(), player_name@, now),
            final(self).bans() == old(self).bans(),
            final(self).actions() == old(self).actions(),
    {
        let ghost s = self.ops();
        let n = self.op_records.len();
        let mut i: usize = 0;
        while i < n
            invariant
                n == self.op_records@.len(),
                s == self.ops(),
                s == old(self).ops(),
                self.bans() == old(self).bans(),
                self.actions() == old(self).actions(),
                i <= n,
                forall|j: int| 0 <= j < i ==> !(#[trigger] s[j].player_name == player_name@ && s[j].active),
            decreases n - i,
        {
            if str_eq(self.op_records[i].player_name.as_str(), player_name) && self.op_records[i].active {
                let mut r = self.op_records[i].dup();
                r.active = false;
                r.revoked_by = Some(owned("admin"));
                r.revoked_at = Some(now);
                let ghost rv = r@;
                self.op_records.set(i, r);
                assert(self.ops() =~= s.update(i as int, revoked_op(s[i as int], now)));
                return owned("OP revoked for ").concat(player_name);
            }
            i = i + 1;
        }
        owned("OP revoked for ").concat(player_name)
    }

    /// Copies of the bans on `server_id` (when given) that are active (unless
    /// `active_only` is `Some(false)`), or the sample bans (dated relative to
    /// `now`) when none pass.
    pub fn get_ban_list(&self, server_id: Option<String>, active_only: Option<bool>, now: u64) -> (v: Vec<BanRecord>)
        ensures
            ({
                let l = listed_bans(self.bans(), opt_view(server_id), active_only);
                views(v@) == if l.len() == 0 { demo_bans(now) } else { l }
            }),
    {
        let ghost s = self.bans();
        let ghost sv = opt_view(server_id);
        let only_active = match active_only {
            Some(b) => b,
            None => true,
        };
        let n = self.ban_records.len();
        let mut v: Vec<BanRecord> = Vec::new();
        let mut i: usize = 0;
        while i < n
            invariant
                n == self.ban_records@.len(),
                s == self.bans(),
                sv == opt_view(server_id),
                only_active == match active_only { Some(b) => b, None => true },
                i <= n,
                views(v@) == listed_bans(s.take(i as int), sv, active_only),
            decreases n - i,
        {
            proof {
                assert(s.take(i + 1).drop_last() =~= s.take(i as int));
                assert(s.take(i + 1).last() == self.ban_records@[i as int]@);
            }
            let b = &self.ban_records[i];
            let server_match = opt_matches(&server_id, b.server_id.as_str());
            let active_match = if only_active { b.active } else { true };
            if server_match && active_match {
                let ghost before = views(v@);
                v.push(b.dup());
                assert(views(v@) =~= before.push(s[i as int]));
            }
            i = i + 1;
        }
        proof { assert(s.take(n as int) =~= s); }
        if v.len() == 0 {
            generate_demo_ban_records(now)
        } else {
            v
        }
    }

    /// Records a ban of `req.player_name` by the administrator at `now` on
    /// server-1, temporary (until `duration_hours` later) when a duration is
    /// given; returns a copy of the record.
    pub fn ban_player(&mut self, req: BanRequest, now: u64) -> (r: BanRecord)
        ensures
            is_hyphenated_uuid(r@.id),
            is_hyphenated_uuid(r@.player_uuid),
            r@ == (BanRecordView {
                id: r@.id,
                player_name: req.player_name@,
                player_uuid: r@.player_uuid,
                ban_type: if req.duration_hours is Some { BanType::TempBan } else { BanType::Ban },
                reason: req.reason@,
                banned_by: "admin"@,
                banned_at: now,
                expires_at: match req.duration_hours { Some(h) => Some(shifted_hours(now, h)), None => None },
                server_id: "server-1"@,
                active: true,
            }),
            final(self).bans() == old(self).bans().push(r@),
            final(self).ops() == old(self).ops(),
            final(self).actions() == old(self).actions(),
    {
        let record = BanRecord {
            id: new_uuid_string(),
            player_name: req.player_name,
            player_uuid: new_uuid_string(),
            ban_type: if req.duration_hours.is_some() { BanType::TempBan } else { BanType::Ban },
            reason: req.reason,
            banned_by: owned("admin"),
            banned_at: now,
            expires_at: match req.duration_hours {
                Some(h) => Some(shifted_hours_exec(now, h)),
                None => None,
            },
            server_id: owned("server-1"),
            active: true,
        };
        let copy = record.dup();
        let ghost before = self.bans();
        self.ban_records.push(record);
        assert(self.bans() =~= before.push(copy@));
        copy
    }

    /// Lifts the first active ban of `player_name`, if any; returns the
    /// confirmation text.
    pub fn unban_player(&mut self, player_name: &str) -> (m: String)
        ensures
            m@ == "Player "@ + player_name@ + " unbanned"@,
            bans_lifted(old(self).bans(), final(self).bans(), player_name@),
            final(self).ops() == old(self).ops(),
            final(self).actions() == old(self).actions(),
    {
        let ghost s = self.bans();
        let n = self.ban_records.len();
        let mut i: usize = 0;
        while i < n
            invariant
                n == self.ban_records@.len(),
                s == self.bans(),
                s == old(self).bans(),
                self.ops() == old(self).ops(),
                self.actions() == old(self).actions(),
                i <= n,
                forall|j: int| 0 <= j < i ==> !(#[trigger] s[j].player_name == player_name@ && s[j].active),
            decreases n - i,
        {
            if str_eq(self.ban_records[i].player_name.as_str(), player_name) && self.ban_records[i].active {
                let mut r = self.ban_records[i].dup();
                r.active = false;
                self.ban_records.set(i, r);
                assert(self.bans() =~= s.update(i as int, BanRecordView { active: false, ..s[i as int] }));
                return owned("Player ").concat(player_name).concat(" unbanned");
            }
            i = i + 1;
        }
        owned("Player ").concat(player_name).concat(" unbanned")
    }

    /// Copies of the first `limit` (default 100) actions by `player_name` and
    /// of kind `action_type` (compared in lower case) when given, or the sample
    /// actions (dated relative to `now`) when none pass.
    pub fn get_player_actions(&self, player_name: Option<String>, action_type: Option<String>, limit: Option<i32>, now: u64) -> (v: Vec<PlayerAction>)
        ensures
            ({
                let l = first_n(listed_actions(self.actions(), opt_view(player_name), opt_view(action_type)), limit_of(limit, 100));
                views(v@) == if l.len() == 0 { demo_actions(now) } else { l }
            }),
    {
        let ghost s = self.actions();
        let ghost nv = opt_view(player_name);
        let ghost kv = opt_view(action_type);
        let kind_lower: Option<String> = match &action_type {
            Some(k) => Some(to_lowercase(k.as_str())),
            None => None,
        };
        let n = self.player_actions.len();
        let mut sel: Vec<PlayerAction> = Vec::new();
        let mut i: usize = 0;
        while i < n
            invariant
                n == self.player_actions@.len(),
                s == self.actions(),
                nv == opt_view(player_name),
                kv == opt_view(action_type),
                match kind_lower { Some(k) => kv matches Some(t) && k@ == lowercase(t), None => kv is None },
                i <= n,
                views(sel@) == listed_actions(s.take(i as int), nv, kv),
            decreases n - i,
        {
            proof {
                assert(s.take(i + 1).drop_last() =~= s.take(i as int));
                assert(s.take(i + 1).last() == self.player_actions@[i as int]@);
            }
            let a = &self.player_actions[i];
            let name_match = opt_matches(&player_name, a.player_name.as_str());
            let type_match = match &kind_lower {
                Some(k) => {
                    let an = to_lowercase(action_type_name(a.action_type));
                    str_eq(an.as_str(), k.as_str())
                }
                None => true,
            };
            if name_match && type_match {
                let ghost before = views(sel@);
                sel.push(a.dup());
                assert(views(sel@) =~= before.push(s[i as int]));
            }
            i = i + 1;
        }
        proof { assert(s.take(n as int) =~= s); }
        let v = first_dup(sel, limit_exec(limit, 100));
        if v.len() == 0 {
            generate_demo_player_actions(now)
        } else {
            v
        }
    }

    /// Statistics of `player_name` from their actions: an hour of play and a
    /// session per join, and the numbers of deaths and kills.
    pub fn get_player_stats(&self, player_name: &str) -> (st: PlayerStats)
        requires
            self.player_actions@.len() < 0x1_0000_0000_0000,
        ensures
            st.player_name@ == player_name@,
            st.total_playtime == count_actions(self.actions(), player_name@, ActionType::Join) * 3600,
            st.total_deaths == count_actions(self.actions(), player_name@, ActionType::Death) as i32,
            st.total_kills == count_actions(self.actions(), player_name@, ActionType::Kill) as i32,
            st.sessions == count_actions(self.actions(), player_name@, ActionType::Join) as i32,
            st.blocks_broken == 0 && st.blocks_placed == 0 && st.items_crafted == 0,
            st.distance_traveled_bits == 0,
    {
        let ghost s = self.actions();
        let n = self.player_actions.len();
        let mut joins: usize = 0;
        let mut deaths: usize = 0;
        let mut kills: usize = 0;
        let mut i: usize = 0;
        while i < n
            invariant
                n == self.player_actions@.len(),
                n < 0x1_0000_0000_0000,
                s == self.actions(),
                i <= n,
                joins == count_actions(s.take(i as int), player_name@, ActionType::Join),
                deaths == count_actions(s.take(i as int), player_name@, ActionType::Death),
                kills == count_actions(s.take(i as int), player_name@, ActionType::Kill),
                joins <= i && deaths <= i && kills <= i,
            decreases n - i,
        {
            proof {
                assert(s.take(i + 1).drop_last() =~= s.take(i as int));
                assert(s.take(i + 1).last() == self.player_actions@[i as int]@);
            }
            let a = &self.player_actions[i];
            if str_eq(a.player_name.as_str(), player_name) {
                match a.action_type {
                    ActionType::Join => { joins = joins + 1; }
                    ActionType::Death => { deaths = deaths + 1; }
                    ActionType::Kill => { kills = kills + 1; }
                    _ => {}
                }
            }
            i = i + 1;
        }
        proof { assert(s.take(n as int) =~= s); }
        PlayerStats {
            player_name: owned(player_name),
            total_playtime: (joins as i64) * 3600,
            total_deaths: deaths as i32,
            total_kills: kills as i32,
            blocks_broken: 0,
            blocks_placed: 0,
            items_crafted: 0,
            distance_traveled_bits: 0,
            sessions: joins as i32,
        }
    }

    /// Records a backup of kind `backup_type` of `player_name` made at `now`
    /// (the file is named after the player, the kind and the time) on
    /// server-1; returns a copy of the record.
    pub fn create_player_backup(&mut self, player_name: &str, backup_type: BackupType, now: u64) -> (r: PlayerBackup)
        ensures
            is_hyphenated_uuid(r@.id),
            is_hyphenated_uuid(r@.player_uuid),
            r@ == (PlayerBackupView {
                id: r@.id,
                player_name: player_name@,
                player_uuid: r@.player_uuid,
                backup_type,
                file_path: "backups/players/server-1/"@ + player_name@ + "_"@ + backup_word(backup_type) + "_"@
                    + utc_text(now, "%Y%m%d_%H%M%S"@) + ".dat"@,
                file_size: 0,
                created_at: now,
                server_id: "server-1"@,
            }),
            final(self).backup_list() == old(self).backup_list().push(r@),
            final(self).ops() == old(self).ops(),
            final(self).bans() == old(self).bans(),
    {
        let stamp = format_utc(now, "%Y%m%d_%H%M%S");
        let path = owned("backups/players/server-1/").concat(player_name).concat("_").concat(backup_type_word(backup_type))
            .concat("_").concat(stamp.as_str()).concat(".dat");
        let backup = PlayerBackup {
            id: new_uuid_string(),
            player_name: owned(player_name),
            player_uuid: new_uuid_string(),
            backup_type,
            file_path: path,
            file_size: 0,
            created_at: now,
            server_id: owned("server-1"),
        };
        let copy = backup.dup();
        let ghost before = self.backup_list();
        self.backups.push(backup);
        assert(self.backup_list() =~= before.push(copy@));
        copy
    }

    /// Copies of the backups of `player_name`.
    pub fn get_player_backups(&self, player_name: &str) -> (v: Vec<PlayerBackup>)
        ensures
            views(v@) == backups_of(self.backup_list(), player_name@),
    {
        let ghost s = self.backup_list();
        let n = self.backups.len();
        let mut v: Vec<PlayerBackup> = Vec::new();
        let mut i: usize = 0;
        while i < n
            invariant
                n == self.backups@.len(),
                s == self.backup_list(),
                i <= n,
                views(v@) == backups_of(s.take(i as int), player_name@),
            decreases n - i,
        {
            proof {
                assert(s.take(i + 1).drop_last() =~= s.take(i as int));
                assert(s.take(i + 1).last() == self.backups@[i as int]@);
            }
            if str_eq(self.backups[i].player_name.as_str(), player_name) {
                let ghost before = views(v@);
                v.push(self.backups[i].dup());
                assert(views(v@) =~= before.push(s[i as int]));
            }
            i = i + 1;
        }
        proof { assert(s.take(n as int) =~= s); }
        v
    }

    /// The confirmation for restoring backup `backup_id` of `player_name`, or
    /// an error when there is no such backup.
    pub fn restore_player_backup(&self, player_name: &str, backup_id: &str) -> (r: Result<String, String>)
        ensures
            match r {
                Ok(m) => exists|i: int| 0 <= i < self.backup_list().len() && #[trigger] self.backup_list()[i].id == backup_id@
                    && self.backup_list()[i].player_name == player_name@
                    && (forall|j: int| 0 <= j < i ==> !(#[trigger] self.backup_list()[j].id == backup_id@ && self.backup_list()[j].player_name == player_name@))
                    && m@ == "Backup "@ + self.backup_list()[i].file_path + " restored for "@ + player_name@,
                Err(e) => e@ == "Backup not found"@
                    && forall|i: int| 0 <= i < self.backup_list().len() ==> !(#[trigger] self.backup_list()[i].id == backup_id@ && self.backup_list()[i].player_name == player_name@),
            },
    {
        let ghost s = self.backup_list();
        let n = self.backups.len();
        let mut i: usize = 0;
        while i < n
            invariant
                n == self.backups@.len(),
                s == self.backup_list(),
                i <= n,
                forall|j: int| 0 <= j < i ==> !(#[trigger] s[j].id == backup_id@ && s[j].player_name == player_name@),
            decreases n - i,
        {
            let b = &self.backups[i];
            if str_eq(b.id.as_str(), backup_id) && str_eq(b.player_name.as_str(), player_name) {
                assert(s[i as int].id == backup_id@);
                return Ok(owned("Backup ").concat(b.file_path.as_str()).concat(" restored for ").concat(player_name));
            }
            i = i + 1;
        }
        Err(owned("Backup not found"))
    }

    /// Copies of the permission groups, or the sample groups when there are none.
    pub fn get_permission_groups(&self) -> (v: Vec<PermissionGroup>)
        ensures
            views(v@) == if self.groups().len() == 0 { demo_groups() } else { self.groups() },
    {
        if self.permission_groups.len() == 0 {
            generate_demo_permission_groups()
        } else {
            dup_vec(&self.permission_groups)
        }
    }

    /// Adds `group` under a fresh id; returns a copy of it.
    pub fn create_permission_group(&mut self, group: PermissionGroup) -> (r: PermissionGroup)
        ensures
            is_hyphenated_uuid(r@.id),
            r@ == (PermissionGroupView { id: r@.id, ..group@ }),
            final(self).groups() == old(self).groups().push(r@),
            final(self).ops() == old(self).ops(),
            final(self).bans() == old(self).bans(),
    {
        let mut g = group;
        g.id = new_uuid_string();
        let copy = g.dup();
        let ghost before = self.groups();
        self.permission_groups.push(g);
        assert(self.groups() =~= before.push(copy@));
        copy
    }

    /// Replaces the first group with id `group_id` by `group`; fails when there is none.
    pub fn update_permission_group(&mut self, group_id: &str, group: PermissionGroup) -> (r: Result<PermissionGroup, String>)
        ensures
            match r {
                Ok(g) => g@ == group@ && exists|i: int| 0 <= i < old(self).groups().len() && #[trigger] old(self).groups()[i].id == group_id@
                    && (forall|j: int| 0 <= j < i ==> #[trigger] old(self).groups()[j].id != group_id@)
                    && final(self).groups() == old(self).groups().update(i, group@),
                Err(e) => e@ == "Group not found"@ && final(self).groups() == old(self).groups()
                    && forall|i: int| 0 <= i < old(self).groups().len() ==> #[trigger] old(self).groups()[i].id != group_id@,
            },
            final(self).ops() == old(self).ops(),
            final(self).bans() == old(self).bans(),
    {
        let ghost s = self.groups();
        let n = self.permission_groups.len();
        let mut i: usize = 0;
        while i < n
            invariant
                n == self.permission_groups@.len(),
                s == self.groups(),
                i <= n,
                forall|j: int| 0 <= j < i ==> #[trigger] s[j].id != group_id@,
            ensures
                i <= n,
                forall|j: int| 0 <= j < i ==> #[trigger] s[j].id != group_id@,
                i < n ==> s[i as int].id == group_id@,
            decreases n - i,
        {
            if str_eq(self.permission_groups[i].id.as_str(), group_id) {
                break;
            }
            i = i + 1;
        }
        if i == n {
            return Err(owned("Group not found"));
        }
        let copy = group.dup();
        let ghost gv = group@;
        self.permission_groups.set(i, group);
        assert(self.groups() =~= s.update(i as int, gv));
        Ok(copy)
    }

    /// Drops every group with id `group_id`; returns the confirmation text.
    pub fn delete_permission_group(&mut self, group_id: &str) -> (m: String)
        ensures
            m@ == "Group deleted"@,
            final(self).groups() == groups_without(old(self).groups(), group_id@),
            final(self).ops() == old(self).ops(),
            final(self).bans() == old(self).bans(),
    {
        let ghost s = self.groups();
        let n = self.permission_groups.len();
        let mut kept: Vec<PermissionGroup> = Vec::new();
        let mut i: usize = 0;
        while i < n
            invariant
                n == self.permission_groups@.len(),
                s == self.groups(),
                i <= n,
                views(kept@) == groups_without(s.take(i as int), group_id@),
            decreases n - i,
        {
            proof {
                assert(s.take(i + 1).drop_last() =~= s.take(i as int));
                assert(s.take(i + 1).last() == self.permission_groups@[i as int]@);
            }
            if !str_eq(self.permission_groups[i].id.as_str(), group_id) {
                let ghost before = views(kept@);
                kept.push(self.permission_groups[i].dup());
                assert(views(kept@) =~= before.push(s[i as int]));
            }
            i = i + 1;
        }
        proof { assert(s.take(n as int) =~= s); }
        self.permission_groups = kept;
        owned("Group deleted")
    }

    /// Adds `permission` to the first group with id `group_id`; fails when there is none.
    pub fn add_permission_to_group(&mut self, group_id: &str, permission: &str) -> (r: Result<String, String>)
        ensures
            match r {
                Ok(m) => m@ == "Permission "@ + permission@ + " added"@
                    && exists|i: int| 0 <= i < old(self).groups().len() && #[trigger] old(self).groups()[i].id == group_id@
                    && (forall|j: int| 0 <= j < i ==> #[trigger] old(self).groups()[j].id != group_id@)
                    && final(self).groups() == old(self).groups().update(i,
                        PermissionGroupView { permissions: old(self).groups()[i].permissions.push(permission@), ..old(self).groups()[i] }),
                Err(e) => e@ == "Group not found"@ && final(self).groups() == old(self).groups()
                    && forall|i: int| 0 <= i < old(self).groups().len() ==> #[trigger] old(self).groups()[i].id != group_id@,
            },
            final(self).ops() == old(self).ops(),
            final(self).bans() == old(self).bans(),
    {
        match self.group_index(group_id) {
            Some(i) => {
                let ghost s = self.groups();
                let mut g = self.permission_groups[i].dup();
                let ghost before = strings_view(g.permissions@);
                g.permissions.push(owned(permission));
                assert(strings_view(g.permissions@) =~= before.push(permission@));
                let ghost gv = g@;
                self.permission_groups.set(i, g);
                assert(self.groups() =~= s.update(i as int, gv));
                Ok(owned("Permission ").concat(permission).concat(" added"))
            }
            None => Err(owned("Group not found")),
        }
    }

    /// Drops every copy of `permission` from the first group with id
    /// `group_id`; fails when there is none.
    pub fn remove_permission_from_group(&mut self, group_id: &str, permission: &str) -> (r: Result<String, String>)
        ensures
            match r {
                Ok(m) => m@ == "Permission "@ + permission@ + " removed"@
                    && exists|i: int| 0 <= i < old(self).groups().len() && #[trigger] old(self).groups()[i].id == group_id@
                    && (forall|j: int| 0 <= j < i ==> #[trigger] old(self).groups()[j].id != group_id@)
                    && final(self).groups() == old(self).groups().update(i,
                        PermissionGroupView { permissions: crate::text::without(old(self).groups()[i].permissions, permission@), ..old(self).groups()[i] }),
                Err(e) => e@ == "Group not found"@ && final(self).groups() == old(self).groups()
                    && forall|i: int| 0 <= i < old(self).groups().len() ==> #[trigger] old(self).groups()[i].id != group_id@,
            },
            final(self).ops() == old(self).ops(),
            final(self).bans() == old(self).bans(),
    {
        match self.group_index(group_id) {
            Some(i) => {
                let ghost s = self.groups();
                let mut g = self.permission_groups[i].dup();
                g.permissions = crate::text::remove_all(&g.permissions, permission);
                let ghost gv = g@;
                self.permission_groups.set(i, g);
                assert(self.groups() =~= s.update(i as int, gv));
                Ok(owned("Permission ").concat(permission).concat(" removed"))
            }
            None => Err(owned("Group not found")),
        }
    }

    /// The position of the first group with id `group_id`, if any.
    fn group_index(&self, group_id: &str) -> (r: Option<usize>)
        ensures
            match r {
                Some(i) => i < self.groups().len() && self.groups()[i as int].id == group_id@
                    && forall|j: int| 0 <= j < i ==> #[trigger] self.groups()[j].id != group_id@,
                None => forall|i: int| 0 <= i < self.groups().len() ==> #[trigger] self.groups()[i].id != group_id@,
            },
    {
        let n = self.permission_groups.len();
        let mut i: usize = 0;
        while i < n
            invariant
                n == self.permission_groups@.len(),
                i <= n,
                forall|j: int| 0 <= j < i ==> #[trigger] self.groups()[j].id != group_id@,
            decreases n - i,
        {
            if str_eq(self.permission_groups[i].id.as_str(), group_id) {
                return Some(i);
            }
            i = i + 1;
        }
        None
    }

    /// Copies of the first `limit` (default 100) chat lines by `player_name`
    /// when given, or the sample lines (dated relative to `now`) when none pass.
    pub fn get_chat_history(&self, player_name: Option<String>, limit: Option<i32>, now: u64) -> (v: Vec<ChatMessage>)
        ensures
            ({
                let l = first_n(chats_by(self.chats(), opt_view(player_name)), limit_of(limit, 100));
                views(v@) == if l.len() == 0 { demo_chat(now) } else { l }
            }),
    {
        let ghost s = self.chats();
        let ghost nv = opt_view(player_name);
        let n = self.chat_messages.len();
        let mut sel: Vec<ChatMessage> = Vec::new();
        let mut i: usize = 0;
        while i < n
            invariant
                n == self.chat_messages@.len(),
                s == self.chats(),
                nv == opt_view(player_name),
                i <= n,
                views(sel@) == chats_by(s.take(i as int), nv),
            decreases n - i,
        {
            proof {
                assert(s.take(i + 1).drop_last() =~= s.take(i as int));
                assert(s.take(i + 1).last() == self.chat_messages@[i as int]@);
            }
            if opt_matches(&player_name, self.chat_messages[i].player_name.as_str()) {
                let ghost before = views(sel@);
                sel.push(self.chat_messages[i].dup());
                assert(views(sel@) =~= before.push(s[i as int]));
            }
            i = i + 1;
        }
        proof { assert(s.take(n as int) =~= s); }
        let v = first_dup(sel, limit_exec(limit, 100));
        if v.len() == 0 {
            generate_demo_chat_messages(now)
        } else {
            v
        }
    }

    /// Copies of the first `limit` (default 50) chat lines whose text contains
    /// `keyword` (ignoring case) and that are by `player_name`, each when given.
    pub fn search_chat(&self, keyword: Option<String>, player_name: Option<String>, limit: Option<i32>) -> (v: Vec<ChatMessage>)
        ensures
            views(v@) == first_n(chats_found(self.chats(), opt_view(keyword), opt_view(player_name)), limit_of(limit, 50)),
    {
        let ghost s = self.chats();
        let ghost kv = opt_view(keyword);
        let ghost nv = opt_view(player_name);
        let key_lower: Option<String> = match &keyword {
            Some(k) => Some(to_lowercase(k.as_str())),
            None => None,
        };
        let n = self.chat_messages.len();
        let mut sel: Vec<ChatMessage> = Vec::new();
        let mut i: usize = 0;
        while i < n
            invariant
                n == self.chat_messages@.len(),
                s == self.chats(),
                kv == opt_view(keyword),
                nv == opt_view(player_name),
                match key_lower { Some(k) => kv matches Some(t) && k@ == lowercase(t), None => kv is None },
                i <= n,
                views(sel@) == chats_found(s.take(i as int), kv, nv),
            decreases n - i,
        {
            proof {
                assert(s.take(i + 1).drop_last() =~= s.take(i as int));
                assert(s.take(i + 1).last() == self.chat_messages@[i as int]@);
            }
            let m = &self.chat_messages[i];
            let key_match = match &key_lower {
                Some(k) => {
                    let lm = to_lowercase(m.message.as_str());
                    has_substring_exec(lm.as_str(), k.as_str())
                }
                None => true,
            };
            let name_match = opt_matches(&player_name, m.player_name.as_str());
            if key_match && name_match {
                let ghost before = views(sel@);
                sel.push(m.dup());
                assert(views(sel@) =~= before.push(s[i as int]));
            }
            i = i + 1;
        }
        proof { assert(s.take(n as int) =~= s); }
        first_dup(sel, limit_exec(limit, 50))
    }

    /// Copies of the warnings of `player_name` (when given) that are active
    /// (unless `active_only` is `Some(false)`), or the sample warnings (dated
    /// relative to `now`) when none pass.
    pub fn get_warnings(&self, player_name: Option<String>, active_only: Option<bool>, now: u64) -> (v: Vec<Warning>)
        ensures
            ({
                let l = listed_warnings(self.warning_list(), opt_view(player_name), active_only);
                views(v@) == if l.len() == 0 { demo_warnings(now) } else { l }
            }),
    {
        let ghost s = self.warning_list();
        let ghost nv = opt_view(player_name);
        let only_active = match active_only {
            Some(b) => b,
            None => true,
        };
        let n = self.warnings.len();
        let mut v: Vec<Warning> = Vec::new();
        let mut i: usize = 0;
        while i < n
            invariant
                n == self.warnings@.len(),
                s == self.warning_list(),
                nv == opt_view(player_name),
                only_active == match active_only { Some(b) => b, None => true },
                i <= n,
                views(v@) == listed_warnings(s.take(i as int), nv, active_only),
            decreases n - i,
        {
            proof {
                assert(s.take(i + 1).drop_last() =~= s.take(i as int));
                assert(s.take(i + 1).last() == self.warnings@[i as int]@);
            }
            let w = &self.warnings[i];
            let name_match = opt_matches(&player_name, w.player_name.as_str());
            let active_match = if only_active { w.active } else { true };
            if name_match && active_match {
                let ghost before = views(v@);
                v.push(w.dup());
                assert(views(v@) =~= before.push(s[i as int]));
            }
            i = i + 1;
        }
        proof { assert(s.take(n as int) =~= s); }
        if v.len() == 0 {
            generate_demo_warnings(now)
        } else {
            v
        }
    }

    /// Records a warning of `req.player_name` by the administrator at `now` on
    /// server-1, expiring `duration_hours` later when a duration is given;
    /// returns a copy of it.
    pub fn issue_warning(&mut self, req: WarningRequest, now: u64) -> (r: Warning)
        ensures
            is_hyphenated_uuid(r@.id),
            is_hyphenated_uuid(r@.player_uuid),
            r@ == (WarningView {
                id: r@.id,
                player_name: req.player_name@,
                player_uuid: r@.player_uuid,
                reason: req.reason@,
                issued_by: "admin"@,
                issued_at: now,
                expires_at: match req.duration_hours { Some(h) => Some(shifted_hours(now, h)), None => None },
                active: true,
                server_id: "server-1"@,
            }),
            final(self).warning_list() == old(self).warning_list().push(r@),
            final(self).ops() == old(self).ops(),
            final(self).bans() == old(self).bans(),
    {
        let w = Warning {
            id: new_uuid_string(),
            player_name: req.player_name,
            player_uuid: new_uuid_string(),
            reason: req.reason,
            issued_by: owned("admin"),
            issued_at: now,
            expires_at: match req.duration_hours {
                Some(h) => Some(shifted_hours_exec(now, h)),
                None => None,
            },
            active: true,
            server_id: owned("server-1"),
        };
        let copy = w.dup();
        let ghost before = self.warning_list();
        self.warnings.push(w);
        assert(self.warning_list() =~= before.push(copy@));
        copy
    }

    /// Withdraws the first warning with id `warning_id`; fails when there is none.
    pub fn revoke_warning(&mut self, warning_id: &str) -> (r: Result<String, String>)
        ensures
            match r {
                Ok(m) => m@ == "Warning revoked"@
                    && exists|i: int| 0 <= i < old(self).warning_list().len() && #[trigger] old(self).warning_list()[i].id == warning_id@
                    && (forall|j: int| 0 <= j < i ==> #[trigger] old(self).warning_list()[j].id != warning_id@)
                    && final(self).warning_list() == old(self).warning_list().update(i, WarningView { active: false, ..old(self).warning_list()[i] }),
                Err(e) => e@ == "Warning not found"@ && final(self).warning_list() == old(self).warning_list()
                    && forall|i: int| 0 <= i < old(self).warning_list().len() ==> #[trigger] old(self).warning_list()[i].id != warning_id@,
            },
            final(self).ops() == old(self).ops(),
            final(self).bans() == old(self).bans(),
    {
        let ghost s = self.warning_list();
        let n = self.warnings.len();
        let mut i: usize = 0;
        while i < n
            invariant
                n == self.warnings@.len(),
                s == self.warning_list(),
                i <= n,
                forall|j: int| 0 <= j < i ==> #[trigger] s[j].id != warning_id@,
            ensures
                i <= n,
                forall|j: int| 0 <= j < i ==> #[trigger] s[j].id != warning_id@,
                i < n ==> s[i as int].id == warning_id@,
            decreases n - i,
        {
            if str_eq(self.warnings[i].id.as_str(), warning_id) {
                break;
            }
            i = i + 1;
        }
        if i == n {
            return Err(owned("Warning not found"));
        }
        let mut w = self.warnings[i].dup();
        w.active = false;
        self.warnings.set(i, w);
        assert(self.warning_list() =~= s.update(i as int, WarningView { active: false, ..s[i as int] }));
        Ok(owned("Warning revoked"))
    }

    /// The commands re-applying the active bans of server-1, in order: a ban
    /// for bans and temporary bans, an IP ban, or a mute.
    pub fn sync_bans_to_server(&self) -> (v: Vec<String>)
        ensures
            strings_view(v@) == sync_commands(self.bans()),
    {
        let ghost s = self.bans();
        let n = self.ban_records.len();
        let mut v: Vec<String> = Vec::new();
        let mut i: usize = 0;
        while i < n
            invariant
                n == self.ban_records@.len(),
                s == self.bans(),
                i <= n,
                strings_view(v@) == sync_commands(s.take(i as int)),
            decreases n - i,
        {
            proof {
                assert(s.take(i + 1).drop_last() =~= s.take(i as int));
                assert(s.take(i + 1).last() == self.ban_records@[i as int]@);
            }
            let b = &self.ban_records[i];
            if b.active && str_eq(b.server_id.as_str(), "server-1") {
                let c = match b.ban_type {
                    BanType::Ban | BanType::TempBan => owned("ban ").concat(b.player_name.as_str()).concat(" ").concat(b.reason.as_str()),
                    BanType::IPBan => owned("ban-ip ").concat(b.player_name.as_str()).concat(" ").concat(b.reason.as_str()),
                    BanType::Mute => owned("mute ").concat(b.player_name.as_str()).concat(" ").concat(b.reason.as_str()),
                };
                let ghost before = strings_view(v@);
                let ghost cv = c@;
                v.push(c);
                assert(strings_view(v@) =~= before.push(cv));
            }
            i = i + 1;
        }
        proof { assert(s.take(n as int) =~= s); }
        v
    }
}

// ---------------------------------------------------------------------------
// Laws
// ---------------------------------------------------------------------------

/// Banning a player who has no active ban and then lifting their ban leaves
/// the new ban on record, inactive, and every earlier ban as it was.
pub proof fn law_unban_lifts_new_ban(s1: Seq<BanRecordView>, b: BanRecordView, s3: Seq<BanRecordView>)
    requires
        forall|i: int| 0 <= i < s1.len() ==> !(#[trigger] s1[i].player_name == b.player_name && s1[i].active),
        b.active,
        bans_lifted(s1.push(b), s3, b.player_name),
    ensures
        s3 == s1.push(BanRecordView { active: false, ..b }),
{
    let s2 = s1.push(b);
    if exists|i: int| 0 <= i < s2.len() && #[trigger] s2[i].player_name == b.player_name && s2[i].active
        && (forall|j: int| 0 <= j < i ==> !(#[trigger] s2[j].player_name == b.player_name && s2[j].active))
        && s3 == s2.update(i, BanRecordView { active: false, ..s2[i] }) {
        let i = choose|i: int| 0 <= i < s2.len() && #[trigger] s2[i].player_name == b.player_name && s2[i].active
            && (forall|j: int| 0 <= j < i ==> !(#[trigger] s2[j].player_name == b.player_name && s2[j].active))
            && s3 == s2.update(i, BanRecordView { active: false, ..s2[i] });
        if i < s1.len() {
            assert(s2[i] == s1[i]);
        }
        assert(i == s1.len());
        assert(s3 =~= s1.push(BanRecordView { active: false, ..b }));
    } else {
        assert(s2[s1.len() as int] == b);
        assert(!(s2[s1.len() as int].player_name == b.player_name && s2[s1.len() as int].active));
    }
}

/// Granting operator rights to a player who has no active grant and then
/// revoking them leaves the new grant on record, revoked at that time.
pub proof fn law_revoke_undoes_grant(s1: Seq<OpRecordView>, g: OpRecordView, s3: Seq<OpRecordView>, now: u64)
    requires
        forall|i: int| 0 <= i < s1.len() ==> !(#[trigger] s1[i].player_name == g.player_name && s1[i].active),
        g.active,
        ops_revoked(s1.push(g), s3, g.player_name, now),
    ensures
        s3 == s1.push(revoked_op(g, now)),
        active_ops(s3) == active_ops(s1),
{
    let s2 = s1.push(g);
    if exists|i: int| 0 <= i < s2.len() && #[trigger] s2[i].player_name == g.player_name && s2[i].active
        && (forall|j: int| 0 <= j < i ==> !(#[trigger] s2[j].player_name == g.player_name && s2[j].active))
        && s3 == s2.update(i, revoked_op(s2[i], now)) {
        let i = choose|i: int| 0 <= i < s2.len() && #[trigger] s2[i].player_name == g.player_name && s2[i].active
            && (forall|j: int| 0 <= j < i ==> !(#[trigger] s2[j].player_name == g.player_name && s2[j].active))
            && s3 == s2.update(i, revoked_op(s2[i], now));
        if i < s1.len() {
            assert(s2[i] == s1[i]);
        }
        assert(i == s1.len());
        assert(s3 =~= s1.push(revoked_op(g, now)));
        assert(s3.drop_last() =~= s1);
    } else {
        assert(s2[s1.len() as int] == g);
        assert(!(s2[s1.len() as int].player_name == g.player_name && s2[s1.len() as int].active));
    }
}


/// The envelope of an API answer: the data on success, the error otherwise.
pub struct ApiResponse<T> {
    pub success: bool,
    pub data: Option<T>,
    pub error: Option<String>,
}

impl<T> ApiResponse<T> {
    /// A successful answer carrying `data`.
    pub fn success(data: T) -> (r: Self)
        ensures
            r.success,
            r.data == Some(data),
            r.error is None,
    {
        ApiResponse { success: true, data: Some(data), error: None }
    }

    /// A failed answer carrying the message `msg`.
    pub fn error(msg: String) -> (r: Self)
        ensures
            !r.success,
            r.data is None,
            r.error matches Some(e) && e@ == msg@,
    {
        ApiResponse { success: false, data: None, error: Some(msg) }
    }
}

} // verus!
