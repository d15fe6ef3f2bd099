use mcpanel::dup::Duplicate;
use mcpanel::players::handlers::{
    ban_command, deop_command, generate_demo_permission_groups, op_command, pardon_command, parse_item_name,
    update_player_inventory, BanRequest, PlayersState, WarningRequest,
};
use mcpanel::players::models::{
    ActionType, BackupType, BanType, ChatMessage, InventorySlot, PermissionGroup, PlayerAction,
};

const NOW: u64 = 1_700_000_000_000;

fn action(name: &str, t: ActionType) -> PlayerAction {
    PlayerAction {
        id: "x".to_string(),
        player_name: name.to_string(),
        action_type: t,
        details: String::new(),
        timestamp: 1,
        server_id: "server-1".to_string(),
    }
}

fn chat(name: &str, msg: &str) -> ChatMessage {
    ChatMessage {
        id: "c".to_string(),
        player_name: name.to_string(),
        player_uuid: String::new(),
        message: msg.to_string(),
        channel: "global".to_string(),
        timestamp: 1,
        server_id: "server-1".to_string(),
    }
}

#[test]
fn commands() {
    assert_eq!(op_command("Steve"), "op Steve");
    assert_eq!(deop_command("Steve"), "deop Steve");
    assert_eq!(ban_command("Steve", "griefing"), "ban Steve griefing");
    assert_eq!(pardon_command("Steve"), "pardon Steve");
}

#[test]
fn item_names() {
    assert_eq!(parse_item_name("minecraft:diamond_sword").as_deref(), Some("minecraft:diamond_sword"));
    assert_eq!(parse_item_name("  red   wool ").as_deref(), Some("minecraft:red_wool"));
    assert_eq!(parse_item_name("minecraft:minecraft:stone").as_deref(), Some("minecraft:stone"));
    assert_eq!(parse_item_name(""), None);
    assert_eq!(parse_item_name("minecraft:__"), None);
}

#[test]
fn inventory_commands() {
    let inv = vec![
        InventorySlot { slot: 0, item: "minecraft:torch".to_string(), count: 64, metadata: None, nbt: None },
        InventorySlot { slot: 1, item: "minecraft:".to_string(), count: 1, metadata: None, nbt: None },
        InventorySlot { slot: -2, item: "stone".to_string(), count: 3, metadata: None, nbt: None },
        InventorySlot { slot: 3, item: "dirt".to_string(), count: 0, metadata: None, nbt: None },
    ];
    let cmds = update_player_inventory("Alex", &inv);
    assert_eq!(cmds, vec!["clear Alex * 0", "give Alex minecraft:torch 64 0", "give Alex minecraft:stone 3 -2"]);
}

#[test]
fn ops_grant_list_and_revoke() {
    let mut s = PlayersState::new();
    let demo = s.get_op_list(NOW);
    assert_eq!(demo.len(), 2);
    assert_eq!(demo[0].player_name, "AdminSteve");
    assert_eq!(demo[0].granted_at, NOW - 30 * 86_400_000);
    let r = s.grant_op("Steve", 3, NOW);
    assert!(r.active);
    assert_eq!(r.granted_by, "admin");
    let list = s.get_op_list(NOW);
    assert_eq!(list.len(), 1);
    assert_eq!(s.revoke_op("Steve", NOW + 5), "OP revoked for Steve");
    assert!(!s.op_records[0].active);
    assert_eq!(s.op_records[0].revoked_at, Some(NOW + 5));
    assert_eq!(s.get_op_list(NOW)[0].player_name, "AdminSteve");
}

#[test]
fn bans_and_sync() {
    let mut s = PlayersState::new();
    let b = s.ban_player(BanRequest { player_name: "Griefer".to_string(), reason: "tnt".to_string(), duration_hours: Some(2) }, NOW);
    assert_eq!(b.ban_type, BanType::TempBan);
    assert_eq!(b.expires_at, Some(NOW + 2 * 3_600_000));
    let p = s.ban_player(BanRequest { player_name: "Spam".to_string(), reason: "ads".to_string(), duration_hours: None }, NOW);
    assert_eq!(p.ban_type, BanType::Ban);
    assert_eq!(p.expires_at, None);
    assert_eq!(s.get_ban_list(None, None, NOW).len(), 2);
    assert_eq!(s.sync_bans_to_server(), vec!["ban Griefer tnt", "ban Spam ads"]);
    assert_eq!(s.unban_player("Spam"), "Player Spam unbanned");
    assert_eq!(s.get_ban_list(None, None, NOW).len(), 1);
    assert_eq!(s.get_ban_list(None, Some(false), NOW).len(), 2);
    assert_eq!(s.get_ban_list(Some("other".to_string()), None, NOW)[0].id, "ban-001");
    assert_eq!(s.sync_bans_to_server().len(), 1);
}

#[test]
fn actions_filters_and_stats() {
    let mut s = PlayersState::new();
    assert_eq!(s.get_player_actions(None, None, None, NOW)[0].id, "action-001");
    s.player_actions.push(action("Steve", ActionType::Join));
    s.player_actions.push(action("Steve", ActionType::Death));
    s.player_actions.push(action("Alex", ActionType::Kill));
    s.player_actions.push(action("Steve", ActionType::Join));
    assert_eq!(s.get_player_actions(Some("Steve".to_string()), None, None, NOW).len(), 3);
    assert_eq!(s.get_player_actions(None, Some("JOIN".to_string()), None, NOW).len(), 2);
    assert_eq!(s.get_player_actions(None, None, Some(1), NOW).len(), 1);
    let st = s.get_player_stats("Steve");
    assert_eq!(st.total_playtime, 7200);
    assert_eq!(st.sessions, 2);
    assert_eq!(st.total_deaths, 1);
    assert_eq!(st.total_kills, 0);
}

#[test]
fn backups() {
    let mut s = PlayersState::new();
    let b = s.create_player_backup("Steve", BackupType::Inventory, 0);
    assert_eq!(b.file_path, "backups/players/server-1/Steve_inventory_19700101_000000.dat");
    assert_eq!(s.get_player_backups("Steve").len(), 1);
    assert_eq!(
        s.restore_player_backup("Steve", &b.id).unwrap(),
        format!("Backup {} restored for Steve", b.file_path)
    );
    assert_eq!(s.restore_player_backup("Alex", &b.id).err().unwrap(), "Backup not found");
}

#[test]
fn permission_groups() {
    let demo = generate_demo_permission_groups();
    assert_eq!(demo.len(), 4);
    assert_eq!(demo[1].parent_id.as_deref(), Some("group-vip"));
    assert_eq!(demo[1].permissions.len(), 3);
    let mut s = PlayersState::new();
    assert_eq!(s.get_permission_groups().len(), 4);
    let mut g: PermissionGroup = demo[3].dup();
    g.id = "ignored".to_string();
    let created = s.create_permission_group(g);
    assert_ne!(created.id, "ignored");
    s.add_permission_to_group(&created.id, "essentials.fly").unwrap();
    s.add_permission_to_group(&created.id, "essentials.fly").unwrap();
    assert_eq!(s.permission_groups[0].permissions.len(), 3);
    assert_eq!(s.remove_permission_from_group(&created.id, "essentials.fly").unwrap(), "Permission essentials.fly removed");
    assert_eq!(s.permission_groups[0].permissions, vec!["essentials.spawn".to_string()]);
    assert_eq!(s.add_permission_to_group("nope", "x").err().unwrap(), "Group not found");
    assert_eq!(s.delete_permission_group(&created.id), "Group deleted");
    assert!(s.permission_groups.is_empty());
}

#[test]
fn chat_history_and_search() {
    let mut s = PlayersState::new();
    assert_eq!(s.get_chat_history(None, None, NOW).len(), 2);
    assert!(s.search_chat(None, None, None).is_empty());
    s.chat_messages.push(chat("Steve", "Hello World"));
    s.chat_messages.push(chat("Alex", "hello there"));
    s.chat_messages.push(chat("Steve", "bye"));
    assert_eq!(s.search_chat(Some("HELLO".to_string()), None, None).len(), 2);
    assert_eq!(s.search_chat(Some("hello".to_string()), Some("Steve".to_string()), None).len(), 1);
    assert_eq!(s.get_chat_history(Some("Steve".to_string()), Some(1), NOW).len(), 1);
}

#[test]
fn warnings() {
    let mut s = PlayersState::new();
    assert_eq!(s.get_warnings(None, None, NOW)[0].id, "warn-001");
    let w = s.issue_warning(WarningRequest { player_name: "Bob".to_string(), reason: "spam".to_string(), duration_hours: Some(-1) }, NOW);
    assert_eq!(w.expires_at, Some(NOW - 3_600_000));
    assert_eq!(s.get_warnings(Some("Bob".to_string()), None, NOW).len(), 1);
    assert_eq!(s.revoke_warning(&w.id).unwrap(), "Warning revoked");
    assert_eq!(s.get_warnings(Some("Bob".to_string()), Some(false), NOW).len(), 1);
    assert_eq!(s.get_warnings(Some("Bob".to_string()), None, NOW)[0].id, "warn-001");
    assert_eq!(s.revoke_warning("nope").err().unwrap(), "Warning not found");
}
