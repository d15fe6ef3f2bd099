//! Player records: operator grants, bans, actions, backups, permission
//! groups, chat lines, warnings and inventory slots, each with its plain
//! content. Times are milliseconds since the epoch.
use vstd::prelude::*;
use crate::text::{opt_view, copy_opt_string, copy_strings, strings_view};
use crate::dup::Duplicate;

verus! {

/// How a player is kept off the server or quiet.
#[derive(Clone, Copy, PartialEq, Eq, Structural, Debug)]
pub enum BanType {
    Ban,
    TempBan,
    IPBan,
    Mute,
}

/// What a player did.
#[derive(Clone, Copy, PartialEq, Eq, Structural, Debug)]
pub enum ActionType {
    Join,
    Leave,
    Chat,
    Command,
    Death,
    Kill,
    Trade,
}

/// What a player backup holds.
#[derive(Clone, Copy, PartialEq, Eq, Structural, Debug)]
pub enum BackupType {
    Full,
    Inventory,
    Stats,
    Location,
}

/// How money moved.
#[derive(Clone, Copy, PartialEq, Eq, Structural, Debug)]
pub enum TransactionType {
    Deposit,
    Withdraw,
    Transfer,
    Earn,
    Spend,
}

/// A player's statistics, counted from their actions; the distance is an
/// IEEE double bit pattern.
pub struct PlayerStats {
    pub player_name: String,
    pub total_playtime: i64,
    pub total_deaths: i32,
    pub total_kills: i32,
    pub blocks_broken: i32,
    pub blocks_placed: i32,
    pub items_crafted: i32,
    pub distance_traveled_bits: u64,
    pub sessions: i32,
}

/// A grant of operator rights to a player; times are milliseconds.
pub struct OpRecord {
    pub player_name: String,
    pub player_uuid: String,
    pub operator_level: i32,
    pub granted_by: String,
    pub granted_at: u64,
    pub revoked_by: Option<String>,
    pub revoked_at: Option<u64>,
    pub active: bool,
}

/// The plain content of an operator grant.
pub struct OpRecordView {
    pub player_name: Seq<char>,
    pub player_uuid: Seq<char>,
    pub operator_level: i32,
    pub granted_by: Seq<char>,
    pub granted_at: u64,
    pub revoked_by: Option<Seq<char>>,
    pub revoked_at: Option<u64>,
    pub active: bool,
}

impl View for OpRecord {
    type V = OpRecordView;

    open spec fn view(&self) -> OpRecordView {
        OpRecordView {
            player_name: self.player_name@,
            player_uuid: self.player_uuid@,
            operator_level: self.operator_level,
            granted_by: self.granted_by@,
            granted_at: self.granted_at,
            revoked_by: opt_view(self.revoked_by),
            revoked_at: self.revoked_at,
            active: self.active,
        }
    }
}

impl Duplicate for OpRecord {
    fn dup(&self) -> (r: OpRecord) {
        OpRecord {
            player_name: self.player_name.clone(),
            player_uuid: self.player_uuid.clone(),
            operator_level: self.operator_level,
            granted_by: self.granted_by.clone(),
            granted_at: self.granted_at,
            revoked_by: copy_opt_string(&self.revoked_by),
            revoked_at: self.revoked_at,
            active: self.active,
        }
    }
}

/// A ban or mute of a player; times are milliseconds.
pub struct BanRecord {
    pub id: String,
    pub player_name: String,
    pub player_uuid: String,
    pub ban_type: BanType,
    pub reason: String,
    pub banned_by: String,
    pub banned_at: u64,
    pub expires_at: Option<u64>,
    pub server_id: String,
    pub active: bool,
}

/// The plain content of a BanRecord record.
pub struct BanRecordView {
    pub id: Seq<char>,
    pub player_name: Seq<char>,
    pub player_uuid: Seq<char>,
    pub ban_type: BanType,
    pub reason: Seq<char>,
    pub banned_by: Seq<char>,
    pub banned_at: u64,
    pub expires_at: Option<u64>,
    pub server_id: Seq<char>,
    pub active: bool,
}

impl View for BanRecord {
    type V = BanRecordView;

    open spec fn view(&self) -> BanRecordView {
        BanRecordView {
            id: self.id@,
            player_name: self.player_name@,
            player_uuid: self.player_uuid@,
            ban_type: self.ban_type,
            reason: self.reason@,
            banned_by: self.banned_by@,
            banned_at: self.banned_at,
            expires_at: self.expires_at,
            server_id: self.server_id@,
            active: self.active,
        }
    }
}

impl Duplicate for BanRecord {
    fn dup(&self) -> (r: BanRecord) {
        BanRecord {
            id: self.id.clone(),
            player_name: self.player_name.clone(),
            player_uuid: self.player_uuid.clone(),
            ban_type: self.ban_type,
            reason: self.reason.clone(),
            banned_by: self.banned_by.clone(),
            banned_at: self.banned_at,
            expires_at: self.expires_at,
            server_id: self.server_id.clone(),
            active: self.active,
        }
    }
}

/// Something a player did; the time is in milliseconds.
pub struct PlayerAction {
    pub id: String,
    pub player_name: String,
    pub action_type: ActionType,
    pub details: String,
    pub timestamp: u64,
    pub server_id: String,
}

/// The plain content of a PlayerAction record.
pub struct PlayerActionView {
    pub id: Seq<char>,
    pub player_name: Seq<char>,
    pub action_type: ActionType,
    pub details: Seq<char>,
    pub timestamp: u64,
    pub server_id: Seq<char>,
}

impl View for PlayerAction {
    type V = PlayerActionView;

    open spec fn view(&self) -> PlayerActionView {
        PlayerActionView {
            id: self.id@,
            player_name: self.player_name@,
            action_type: self.action_type,
            details: self.details@,
            timestamp: self.timestamp,
            server_id: self.server_id@,
        }
    }
}

impl Duplicate for PlayerAction {
    fn dup(&self) -> (r: PlayerAction) {
        PlayerAction {
            id: self.id.clone(),
            player_name: self.player_name.clone(),
            action_type: self.action_type,
            details: self.details.clone(),
            timestamp: self.timestamp,
            server_id: self.server_id.clone(),
        }
    }
}

/// A saved copy of a player's data; the time is in milliseconds.
pub struct PlayerBackup {
    pub id: String,
    pub player_name: String,
    pub player_uuid: String,
    pub backup_type: BackupType,
    pub file_path: String,
    pub file_size: i64,
    pub created_at: u64,
    pub server_id: String,
}

/// The plain content of a PlayerBackup record.
pub struct PlayerBackupView {
    pub id: Seq<char>,
    pub player_name: Seq<char>,
    pub player_uuid: Seq<char>,
    pub backup_type: BackupType,
    pub file_path: Seq<char>,
    pub file_size: i64,
    pub created_at: u64,
    pub server_id: Seq<char>,
}

impl View for PlayerBackup {
    type V = PlayerBackupView;

    open spec fn view(&self) -> PlayerBackupView {
        PlayerBackupView {
            id: self.id@,
            player_name: self.player_name@,
            player_uuid: self.player_uuid@,
            backup_type: self.backup_type,
            file_path: self.file_path@,
            file_size: self.file_size,
            created_at: self.created_at,
            server_id: self.server_id@,
        }
    }
}

impl Duplicate for PlayerBackup {
    fn dup(&self) -> (r: PlayerBackup) {
        PlayerBackup {
            id: self.id.clone(),
            player_name: self.player_name.clone(),
            player_uuid: self.player_uuid.clone(),
            backup_type: self.backup_type,
            file_path: self.file_path.clone(),
            file_size: self.file_size,
            created_at: self.created_at,
            server_id: self.server_id.clone(),
        }
    }
}

/// A group of permissions players can belong to.
pub struct PermissionGroup {
    pub id: String,
    pub name: String,
    pub display_name: String,
    pub color: String,
    pub prefix: Option<String>,
    pub suffix: Option<String>,
    pub weight: i32,
    pub permissions: Vec<String>,
    pub parent_id: Option<String>,
    pub worlds: Vec<String>,
}

/// The plain content of a PermissionGroup record.
pub struct PermissionGroupView {
    pub id: Seq<char>,
    pub name: Seq<char>,
    pub display_name: Seq<char>,
    pub color: Seq<char>,
    pub prefix: Option<Seq<char>>,
    pub suffix: Option<Seq<char>>,
    pub weight: i32,
    pub permissions: Seq<Seq<char>>,
    pub parent_id: Option<Seq<char>>,
    pub worlds: Seq<Seq<char>>,
}

impl View for PermissionGroup {
    type V = PermissionGroupView;

    open spec fn view(&self) -> PermissionGroupView {
        PermissionGroupView {
            id: self.id@,
            name: self.name@,
            display_name: self.display_name@,
            color: self.color@,
            prefix: opt_view(self.prefix),
            suffix: opt_view(self.suffix),
            weight: self.weight,
            permissions: strings_view(self.permissions@),
            parent_id: opt_view(self.parent_id),
            worlds: strings_view(self.worlds@),
        }
    }
}

impl Duplicate for PermissionGroup {
    fn dup(&self) -> (r: PermissionGroup) {
        let permissions = copy_strings(&self.permissions);
        assert(strings_view(permissions@) == strings_view(self.permissions@));
        let worlds = copy_strings(&self.worlds);
        assert(strings_view(worlds@) == strings_view(self.worlds@));
        PermissionGroup {
            id: self.id.clone(),
            name: self.name.clone(),
            display_name: self.display_name.clone(),
            color: self.color.clone(),
            prefix: copy_opt_string(&self.prefix),
            suffix: copy_opt_string(&self.suffix),
            weight: self.weight,
            permissions,
            parent_id: copy_opt_string(&self.parent_id),
            worlds,
        }
    }
}

/// A chat line; the time is in milliseconds.
pub struct ChatMessage {
    pub id: String,
    pub player_name: String,
    pub player_uuid: String,
    pub message: String,
    pub channel: String,
    pub timestamp: u64,
    pub server_id: String,
}

/// The plain content of a ChatMessage record.
pub struct ChatMessageView {
    pub id: Seq<char>,
    pub player_name: Seq<char>,
    pub player_uuid: Seq<char>,
    pub message: Seq<char>,
    pub channel: Seq<char>,
    pub timestamp: u64,
    pub server_id: Seq<char>,
}

impl View for ChatMessage {
    type V = ChatMessageView;

    open spec fn view(&self) -> ChatMessageView {
        ChatMessageView {
            id: self.id@,
            player_name: self.player_name@,
            player_uuid: self.player_uuid@,
            message: self.message@,
            channel: self.channel@,
            timestamp: self.timestamp,
            server_id: self.server_id@,
        }
    }
}

impl Duplicate for ChatMessage {
    fn dup(&self) -> (r: ChatMessage) {
        ChatMessage {
            id: self.id.clone(),
            player_name: self.player_name.clone(),
            player_uuid: self.player_uuid.clone(),
            message: self.message.clone(),
            channel: self.channel.clone(),
            timestamp: self.timestamp,
            server_id: self.server_id.clone(),
        }
    }
}

/// A warning given to a player; times are milliseconds.
pub struct Warning {
    pub id: String,
    pub player_name: String,
    pub player_uuid: String,
    pub reason: String,
    pub issued_by: String,
    pub issued_at: u64,
    pub expires_at: Option<u64>,
    pub active: bool,
    pub server_id: String,
}

/// The plain content of a Warning record.
pub struct WarningView {
    pub id: Seq<char>,
    pub player_name: Seq<char>,
    pub player_uuid: Seq<char>,
    pub reason: Seq<char>,
    pub issued_by: Seq<char>,
    pub issued_at: u64,
    pub expires_at: Option<u64>,
    pub active: bool,
    pub server_id: Seq<char>,
}

impl View for Warning {
    type V = WarningView;

    open spec fn view(&self) -> WarningView {
        WarningView {
            id: self.id@,
            player_name: self.player_name@,
            player_uuid: self.player_uuid@,
            reason: self.reason@,
            issued_by: self.issued_by@,
            issued_at: self.issued_at,
            expires_at: self.expires_at,
            active: self.active,
            server_id: self.server_id@,
        }
    }
}

impl Duplicate for Warning {
    fn dup(&self) -> (r: Warning) {
        Warning {
            id: self.id.clone(),
            player_name: self.player_name.clone(),
            player_uuid: self.player_uuid.clone(),
            reason: self.reason.clone(),
            issued_by: self.issued_by.clone(),
            issued_at: self.issued_at,
            expires_at: self.expires_at,
            active: self.active,
            server_id: self.server_id.clone(),
        }
    }
}

/// One slot of a player's inventory.
pub struct InventorySlot {
    pub slot: i32,
    pub item: String,
    pub count: i32,
    pub metadata: Option<i32>,
    pub nbt: Option<String>,
}

/// The plain content of a InventorySlot record.
pub struct InventorySlotView {
    pub slot: i32,
    pub item: Seq<char>,
    pub count: i32,
    pub metadata: Option<i32>,
    pub nbt: Option<Seq<char>>,
}

impl View for InventorySlot {
    type V = InventorySlotView;

    open spec fn view(&self) -> InventorySlotView {
        InventorySlotView {
            slot: self.slot,
            item: self.item@,
            count: self.count,
            metadata: self.metadata,
            nbt: opt_view(self.nbt),
        }
    }
}

impl Duplicate for InventorySlot {
    fn dup(&self) -> (r: InventorySlot) {
        InventorySlot {
            slot: self.slot,
            item: self.item.clone(),
            count: self.count,
            metadata: self.metadata,
            nbt: copy_opt_string(&self.nbt),
        }
    }
}

} // verus!
