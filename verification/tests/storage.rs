use filebrowser::admin::{remove_volume, set_admin_role, store_new_volume, AdminSettings};
use filebrowser::login::{finish_login, TokenStorage, User, UserStorage};
use filebrowser::types::{AdminResponse, Permission};
use filebrowser::volume::{volume_info, VolumeStorage};

fn fresh_path(name: &str) -> String {
    let nanos = std::time::SystemTime::now()
        .duration_since(std::time::UNIX_EPOCH)
        .unwrap()
        .as_nanos();
    format!("/tmp/filebrowser-test-{}-{}", name, nanos)
}

#[test]
fn admin_role_read_after_write() {
    let mut s = AdminSettings::open(&fresh_path("admin")).unwrap();
    assert_eq!(s.get_admin_role_id(), Ok(None));
    s.set_admin_role_id(1234567890123).unwrap();
    assert_eq!(s.get_admin_role_id(), Ok(Some(1234567890123)));
    assert_eq!(set_admin_role(&mut s, 42), AdminResponse::AdminRoleUpdated { role_id: 42 });
    assert_eq!(s.get_admin_role_id(), Ok(Some(42)));
}

#[test]
fn users_read_after_write() {
    let mut users = UserStorage::open(&fresh_path("users")).unwrap();
    let ann = User { user_id: 77, username: "ann".into() };
    assert_eq!(users.get(77), Ok(None));
    users.insert(&ann, b"{\"user_id\":77}").unwrap();
    assert_eq!(users.get(77), Ok(Some(b"{\"user_id\":77}".to_vec())));
    users.insert(&ann, b"second").unwrap();
    assert_eq!(users.get(77), Ok(Some(b"second".to_vec())));
    assert_eq!(users.get(78), Ok(None));
}

#[test]
fn sessions_read_after_create() {
    let mut tokens = TokenStorage::open(&fresh_path("tokens")).unwrap();
    let t1 = tokens.create(b"one").unwrap();
    let t2 = tokens.create(b"two").unwrap();
    assert_ne!(t1, t2);
    assert_eq!(tokens.get(&t1), Ok(Some(b"one".to_vec())));
    assert_eq!(tokens.get(&t2), Ok(Some(b"two".to_vec())));
    assert_eq!(tokens.get("not-a-token"), Ok(None));
    let (mut all, complete) = tokens.list_all();
    assert!(complete);
    all.sort();
    assert_eq!(all, vec![b"one".to_vec(), b"two".to_vec()]);
}

#[test]
fn finishing_a_login() {
    let mut users = UserStorage::open(&fresh_path("login-users")).unwrap();
    let mut tokens = TokenStorage::open(&fresh_path("login-tokens")).unwrap();
    let ann = User { user_id: 5, username: "ann".into() };
    let s = finish_login(&mut users, &mut tokens, &ann, b"user", b"session", Some("/v/2".into())).unwrap();
    assert_eq!(s.location, "/v/2");
    assert_eq!(tokens.get(&s.session_token), Ok(Some(b"session".to_vec())));
    assert_eq!(users.get(5), Ok(Some(b"user".to_vec())));
    let s2 = finish_login(&mut users, &mut tokens, &ann, b"user", b"session2", None).unwrap();
    assert_eq!(s2.location, "/");
}

#[test]
fn volumes_add_list_remove() {
    let mut vs = VolumeStorage::open(&fresh_path("volumes")).unwrap();
    let v = vs.new_volume("Music".into(), "/srv/music".into(), 9, Permission::ReadWrite).unwrap();
    assert_eq!(v.name, "Music");
    assert_eq!(v.role_id, 9);
    let w = vs.new_volume("Docs".into(), "/srv/docs".into(), 9, Permission::ReadOnly).unwrap();
    assert_ne!(v.id, w.id);
    let (r, broadcast) = store_new_volume(&mut vs, v.clone(), b"music-record");
    assert_eq!(r, AdminResponse::VolumeAdded { volume: volume_info(&v) });
    assert!(broadcast);
    vs.put(w.id, b"docs-record").unwrap();
    let (all, complete) = vs.list_all();
    assert!(complete);
    // records come back in ascending id order; the music volume got the smaller id
    assert!(v.id < w.id);
    assert_eq!(all, vec![b"music-record".to_vec(), b"docs-record".to_vec()]);
    assert_eq!(remove_volume(&mut vs, v.id), (AdminResponse::VolumeRemoved { id: v.id }, true));
    let (r, broadcast) = remove_volume(&mut vs, v.id);
    assert!(matches!(r, AdminResponse::Error { ref message } if message == "Volume not found"));
    assert!(!broadcast);
    assert_eq!(vs.remove(w.id), Ok(true));
    assert_eq!(vs.list_all(), (Vec::<Vec<u8>>::new(), true));
}
