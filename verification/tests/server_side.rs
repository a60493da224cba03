use filebrowser::admin::{
    admin_task, is_authorized, role_to_check, role_to_look_up, roles_response, tokens_response, volume_added_response,
    volume_removed_response, volumes_response, AdminSettingsError, AdminTask,
};
use filebrowser::login::{
    bearer, create_invite_url, create_new_token, get_id_from_token, login_redirect, return_location,
    session_expiry, session_user, state_matches, CallbackParams, LoginParms, User,
};
use filebrowser::store::{from_be_bytes, to_be_bytes, StorageError};
use filebrowser::types::{AdminAction, AdminResponse, Permission, RoleInfo, TokenInfo, UtcTime, VolumeInfo};
use filebrowser::volume::{my_volumes, volume_info, Volume};

fn volume(id: u64, role_id: u64) -> Volume {
    Volume { id, name: format!("v{}", id), path: format!("/srv/v{}", id), role_id, permission: Permission::ReadOnly }
}

fn admin_error(r: &AdminResponse) -> Option<String> {
    match r {
        AdminResponse::Error { message } => Some(message.clone()),
        _ => None,
    }
}

#[test]
fn big_endian_keys() {
    assert_eq!(to_be_bytes(0x0102030405060708), [1, 2, 3, 4, 5, 6, 7, 8]);
    assert_eq!(to_be_bytes(0x0102030405060708), 0x0102030405060708u64.to_be_bytes());
    for n in [0u64, 1, 255, 256, 1 << 40, u64::MAX] {
        assert_eq!(from_be_bytes(&to_be_bytes(n)), n);
    }
}

#[test]
fn admin_check() {
    assert!(is_authorized(&Ok(None), &None));
    assert!(is_authorized(&Ok(Some(7)), &Some(vec![1, 7])));
    assert!(!is_authorized(&Ok(Some(7)), &Some(vec![1])));
    assert!(!is_authorized(&Ok(Some(7)), &None));
    assert!(!is_authorized(&Err(AdminSettingsError::Database), &None));
    assert!(!is_authorized(&Err(AdminSettingsError::Database), &Some(vec![7])));
    assert_eq!(role_to_look_up(&Ok(Some(7))), Some(7));
    assert_eq!(role_to_look_up(&Ok(None)), None);
    assert_eq!(role_to_look_up(&Err(AdminSettingsError::Database)), None);
    assert_eq!(role_to_check(&Ok(Some(3))), Some(3));
    assert_eq!(role_to_check(&Ok(None)), None);
    assert_eq!(role_to_check(&Err(AdminSettingsError::Database)), None);
}

#[test]
fn admin_requests_are_gated() {
    assert_eq!(admin_task(false, AdminAction::GetRoles), AdminTask::Reply(AdminResponse::Unauthorized));
    assert_eq!(admin_task(true, AdminAction::GetRoles), AdminTask::GetRoles);
    assert_eq!(admin_task(true, AdminAction::RemoveVolume { id: 4 }), AdminTask::RemoveVolume { id: 4 });
    assert_eq!(
        admin_task(true, AdminAction::AddVolume { name: "n".into(), path: "/p".into(), role_id: 2, permission: Permission::ReadWrite }),
        AdminTask::AddVolume { name: "n".into(), path: "/p".into(), role_id: 2, permission: Permission::ReadWrite }
    );
}

#[test]
fn admin_answers() {
    let roles = vec![RoleInfo { id: 1, name: "a".into() }];
    assert_eq!(
        roles_response(Some(roles.clone()), Some(1)),
        AdminResponse::Roles { roles, admin_role_id: Some(1) }
    );
    assert_eq!(admin_error(&roles_response(None, None)), Some("Failed to fetch guild roles".into()));
    let t = UtcTime { secs: 99, nanos: 1 };
    assert_eq!(
        tokens_response(vec![(t, User { user_id: 3, username: "bob".into() })]),
        AdminResponse::Tokens { tokens: vec![TokenInfo { user_id: 3, username: "bob".into(), expires: t }] }
    );
    assert_eq!(
        volumes_response(&vec![volume(1, 2)]),
        AdminResponse::Volumes { volumes: vec![volume_info(&volume(1, 2))] }
    );
    assert_eq!(
        volume_added_response(Ok(volume(5, 6))),
        (AdminResponse::VolumeAdded { volume: volume_info(&volume(5, 6)) }, true)
    );
    let (r, b) = volume_added_response(Err(StorageError::Database));
    assert_eq!((admin_error(&r), b), (Some("Failed to add volume".into()), false));
    assert_eq!(volume_removed_response(Ok(true), 3), (AdminResponse::VolumeRemoved { id: 3 }, true));
    let (r, b) = volume_removed_response(Ok(false), 3);
    assert_eq!((admin_error(&r), b), (Some("Volume not found".into()), false));
    let (r, b) = volume_removed_response(Err(StorageError::Database), 3);
    assert_eq!((admin_error(&r), b), (Some("Failed to remove volume".into()), false));
}

#[test]
fn users_see_the_volumes_of_their_roles() {
    let volumes = vec![volume(1, 10), volume(2, 20), volume(3, 10)];
    let shown = my_volumes(&Some(vec![10, 99]), &volumes);
    assert_eq!(shown, vec![volume_info(&volume(1, 10)), volume_info(&volume(3, 10))]);
    assert!(my_volumes(&None, &volumes).is_empty());
    assert!(my_volumes(&Some(vec![]), &volumes).is_empty());
    let info = volume_info(&volume(2, 20));
    assert_eq!(info, VolumeInfo { id: 2, name: "v2".into(), path: "/srv/v2".into(), role_id: 20, permission: Permission::ReadOnly });
}

#[test]
fn invite_url() {
    let url = create_invite_url(123, "http://localhost:3000/login/callback", "ab c");
    assert_eq!(
        url,
        "https://discord.com/oauth2/authorize?response_type=code&client_id=123&redirect_uri=http%3A%2F%2Flocalhost%3A3000%2Flogin%2Fcallback&state=ab+c&scope=identify"
    );
}

#[test]
fn login_plan() {
    let plan = login_redirect(42, "http://h/cb", LoginParms { redirect: Some("/v/1".into()) });
    assert_eq!(plan.auth_state.len(), 32);
    assert!(plan.auth_state.chars().all(|c| c.is_ascii_alphanumeric()));
    assert_eq!(plan.redirect_cookie, Some("/v/1".to_string()));
    assert_eq!(plan.location, create_invite_url(42, "http://h/cb", &plan.auth_state));
    let plain = login_redirect(42, "http://h/cb", LoginParms { redirect: None });
    assert_eq!(plain.redirect_cookie, None);
}

#[test]
fn session_tokens() {
    let id = get_id_from_token("abc");
    assert_eq!(
        id,
        [0xba, 0x78, 0x16, 0xbf, 0x8f, 0x01, 0xcf, 0xea, 0x41, 0x41, 0x40, 0xde, 0x5d, 0xae, 0x22, 0x23, 0xb0, 0x03,
         0x61, 0xa3, 0x96, 0x17, 0x7a, 0x9c, 0xb4, 0x10, 0xff, 0x61, 0xf2, 0x00, 0x15, 0xad]
    );
    let (token, id) = create_new_token();
    assert_eq!(token.len(), 32);
    assert!(token.chars().all(|c| c.is_ascii_alphanumeric()));
    assert_eq!(id, get_id_from_token(&token));
    let (other, _) = create_new_token();
    assert_ne!(token, other);
}

#[test]
fn sessions_expire_after_a_week() {
    let now = UtcTime { secs: 1_700_000_000, nanos: 500 };
    let expires = session_expiry(now);
    assert_eq!(expires, UtcTime { secs: 1_700_604_800, nanos: 500 });
    let user = User { user_id: 1, username: "ann".into() };
    assert_eq!(session_user(Some((expires, user.clone())), now), Some(user.clone()));
    assert_eq!(session_user(Some((expires, user.clone())), expires), Some(user.clone()));
    let later = UtcTime { secs: expires.secs, nanos: 501 };
    assert_eq!(session_user(Some((expires, user.clone())), later), None);
    assert_eq!(session_user(None, now), None);
}

#[test]
fn callback_checks() {
    let params = CallbackParams { code: "c".into(), state: "xyz".into() };
    assert!(state_matches(Some("xyz"), &params));
    assert!(!state_matches(Some("xy"), &params));
    assert!(!state_matches(None, &params));
    assert_eq!(bearer("tok"), "Bearer tok");
    assert_eq!(return_location(Some("/admin".into())), "/admin");
    assert_eq!(return_location(None), "/");
}
