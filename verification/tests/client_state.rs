use filebrowser::client::{AdminData, AppData, BrowseData};
use filebrowser::types::{
    AdminResponse, BrowseResponse, ClientMsg, DirEntry, EntryType, Permission, RoleInfo, ServerMsg,
    TokenInfo, UtcTime, VolumeInfo,
};

fn vol(id: u64, name: &str) -> VolumeInfo {
    VolumeInfo { id, name: name.to_string(), path: format!("/srv/{}", name), role_id: 1, permission: Permission::ReadWrite }
}

#[test]
fn admin_listings_replace_and_clear() {
    let mut a = AdminData::new();
    a.apply(AdminResponse::Error { message: "boom".to_string() });
    a.apply(AdminResponse::Unauthorized);
    assert_eq!(a.error, Some("boom".to_string()));
    assert!(a.unauthorized);
    a.apply(AdminResponse::Roles {
        roles: vec![RoleInfo { id: 7, name: "admins".to_string() }, RoleInfo { id: 8, name: "users".to_string() }],
        admin_role_id: Some(7),
    });
    assert_eq!(a.roles, vec![(7, "admins".to_string()), (8, "users".to_string())]);
    assert_eq!(a.admin_role_id, Some(7));
    assert_eq!(a.error, None);
    assert!(!a.unauthorized);
    assert_eq!(a.seq, 3);
}

#[test]
fn admin_volume_updates() {
    let mut a = AdminData::new();
    a.apply(AdminResponse::Volumes { volumes: vec![vol(1, "a"), vol(2, "b"), vol(1, "c")] });
    a.apply(AdminResponse::VolumeAdded { volume: vol(3, "d") });
    assert_eq!(a.volumes.len(), 4);
    a.apply(AdminResponse::VolumeRemoved { id: 1 });
    assert_eq!(a.volumes, vec![vol(2, "b"), vol(3, "d")]);
    a.apply(AdminResponse::AdminRoleUpdated { role_id: 9 });
    assert_eq!(a.admin_role_id, Some(9));
    a.apply(AdminResponse::Tokens {
        tokens: vec![TokenInfo { user_id: 5, username: "ann".to_string(), expires: UtcTime { secs: 10, nanos: 0 } }],
    });
    assert_eq!(a.tokens.len(), 1);
    assert_eq!(a.seq, 5);
}

#[test]
fn admin_seq_wraps() {
    let mut a = AdminData::new();
    a.seq = u64::MAX;
    a.apply(AdminResponse::Unauthorized);
    assert_eq!(a.seq, 0);
}

#[test]
fn admin_error_keeps_the_rest() {
    let mut a = AdminData::new();
    a.apply(AdminResponse::Volumes { volumes: vec![vol(1, "a")] });
    a.apply(AdminResponse::Error { message: "nope".to_string() });
    assert_eq!(a.volumes, vec![vol(1, "a")]);
    assert_eq!(a.error, Some("nope".to_string()));
}

#[test]
fn browse_responses() {
    let mut b = BrowseData::new();
    let e = DirEntry { name: "x".to_string(), entry_type: EntryType::File, size: 1, created_at: None, updated_at: None };
    b.apply(BrowseResponse::DirectoryListing { entries: vec![e.clone()] });
    assert_eq!(b.entries, vec![e]);
    assert_eq!(b.error, None);
    b.apply(BrowseResponse::Error { message: "Access denied".to_string() });
    assert!(b.entries.is_empty());
    assert_eq!(b.error, Some("Access denied".to_string()));
    assert_eq!(b.seq, 2);
}

#[test]
fn greeting_asks_for_volumes() {
    let mut d = AppData::new();
    assert!(!d.ready);
    let follow = d.handle_server_msg(ServerMsg::Hello { username: "ann".to_string(), avatar_url: None });
    assert_eq!(follow, vec![ClientMsg::GetMyVolumes]);
    assert!(d.ready);
    assert_eq!(d.username, Some("ann".to_string()));
    let follow = d.handle_server_msg(ServerMsg::MyVolumes { volumes: vec![vol(4, "music"), vol(2, "docs")] });
    assert!(follow.is_empty());
    assert_eq!(d.volumes, vec![(4, "music".to_string()), (2, "docs".to_string())]);
}

#[test]
fn unauthenticated_is_ready_without_user() {
    let mut d = AppData::new();
    d.username = Some("old".to_string());
    let follow = d.handle_server_msg(ServerMsg::Unauthenticated);
    assert!(follow.is_empty());
    assert!(d.ready);
    assert_eq!(d.username, None);
}

#[test]
fn server_responses_reach_their_pages() {
    let mut d = AppData::new();
    d.handle_server_msg(ServerMsg::Admin(AdminResponse::Unauthorized));
    assert!(d.admin.unauthorized);
    d.handle_server_msg(ServerMsg::Browse(BrowseResponse::Error { message: "m".to_string() }));
    assert_eq!(d.browse.error, Some("m".to_string()));
    assert_eq!(d.browse.seq, 1);
    assert_eq!(d.admin.seq, 1);
}
