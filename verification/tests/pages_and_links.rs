use filebrowser::links::{
    breadcrumbs, entry_href, entry_type_label, format_datetime, href_with_redirect, login_href_with_redirect,
    logout_href_with_redirect, permission_from_select, permission_label, role_name, selected_value, volume_name,
    ws_url,
};
use filebrowser::pages::admin::{self as admin_page, AdminPage};
use filebrowser::pages::app::{App, AppMsg};
use filebrowser::pages::header::{Header, HeaderMsg, ThemeMsg, ThemeSwitcher, UserMenu, UserMenuMsg};
use filebrowser::pages::role_selector::{RoleSelector, RoleSelectorMsg, RoleSelectorProps};
use filebrowser::pages::tokens::{self as tokens_page, AdminTokensPage};
use filebrowser::pages::volume::{self as volume_page, VolumePage, VolumePageProps};
use filebrowser::pages::volumes::{self as volumes_page, AdminVolumesPage};
use filebrowser::prefs::{Theme, ViewMode};
use filebrowser::types::{AdminAction, BrowseAction, ClientMsg, Permission, ServerMsg, UtcTime};

#[test]
fn entry_links() {
    assert_eq!(entry_href("docs", true, 3, "/"), Some("/v/3?path=/docs".to_string()));
    assert_eq!(entry_href("b", true, 3, "/a"), Some("/v/3?path=/a/b".to_string()));
    assert_eq!(entry_href("b", true, 3, "/a//"), Some("/v/3?path=/a/b".to_string()));
    assert_eq!(entry_href("file.txt", false, 3, "/a"), None);
}

#[test]
fn crumbs() {
    let c = breadcrumbs(7, "/a/b");
    assert_eq!(
        c,
        vec![
            ("/".to_string(), "/v/7".to_string()),
            ("a".to_string(), "/v/7?path=/a".to_string()),
            ("b".to_string(), "/v/7?path=/a/b".to_string()),
        ]
    );
    assert_eq!(breadcrumbs(7, "/"), vec![("/".to_string(), "/v/7".to_string())]);
    assert_eq!(breadcrumbs(7, "x//y/").len(), 3);
    assert_eq!(breadcrumbs(7, "x//y/")[2], ("y".to_string(), "/v/7?path=/x/y".to_string()));
}

#[test]
fn websocket_address() {
    assert_eq!(ws_url("https:", "example.org"), "wss://example.org/ws");
    assert_eq!(ws_url("http:", "127.0.0.1:3000"), "ws://127.0.0.1:3000/ws");
    assert_eq!(ws_url("", "h"), "ws://h/ws");
}

#[test]
fn redirect_links() {
    assert_eq!(href_with_redirect("/login", "%2Fv%2F1"), "/login?redirect=%2Fv%2F1");
    assert_eq!(login_href_with_redirect("%2F"), "/login?redirect=%2F");
    assert_eq!(logout_href_with_redirect("%2Fadmin"), "/logout?redirect=%2Fadmin");
}

#[test]
fn labels() {
    let roles = vec![(1, "admins".to_string()), (2, "users".to_string())];
    assert_eq!(role_name(&roles, 2), "users");
    assert_eq!(role_name(&roles, 30), "30");
    assert_eq!(volume_name(&roles, 1), "admins");
    assert_eq!(volume_name(&roles, 9), "");
    assert_eq!(permission_label(Permission::ReadOnly), "Read Only");
    assert_eq!(permission_label(Permission::ReadWrite), "Read & Write");
    assert_eq!(permission_from_select("rw"), Permission::ReadWrite);
    assert_eq!(permission_from_select("ro"), Permission::ReadOnly);
    assert_eq!(entry_type_label(true), "Directory");
    assert_eq!(entry_type_label(false), "File");
    assert_eq!(selected_value(Some(12)), "12");
    assert_eq!(selected_value(None), "");
}

#[test]
fn times() {
    assert_eq!(format_datetime(&Some(UtcTime { secs: 1431648000, nanos: 0 })), "2015-05-15 00:00:00");
    assert_eq!(format_datetime(&Some(UtcTime { secs: 0, nanos: 999 })), "1970-01-01 00:00:00");
    assert_eq!(format_datetime(&None), "—");
}

fn listing(volume_id: u64, path: &str) -> ClientMsg {
    ClientMsg::Browse(BrowseAction::ListDirectory { volume_id, path: path.to_string() })
}

#[test]
fn volume_page_flow() {
    let props = VolumePageProps { id: 4 };
    let (mut page, req) = VolumePage::create(&props, false, 0, "/".to_string(), None);
    assert_eq!(req, None);
    assert_eq!(page.view_mode, ViewMode::List);
    assert!(!page.loading);
    let u = page.update(&props, volume_page::Msg::ContextChanged { ready: true, browse_seq: 0 });
    assert!(u.render);
    assert_eq!(u.request, Some(listing(4, "/")));
    assert!(page.loading);
    let u = page.update(&props, volume_page::Msg::ContextChanged { ready: true, browse_seq: 1 });
    assert_eq!(u.request, None);
    assert!(!page.loading);
    assert_eq!(page.last_browse_seq, 1);
    let u = page.update(&props, volume_page::Msg::LocationChanged { path: "/docs".to_string() });
    assert!(u.render);
    assert_eq!(u.request, Some(listing(4, "/docs")));
    let u = page.update(&props, volume_page::Msg::LocationChanged { path: "/docs".to_string() });
    assert!(!u.render);
    assert_eq!(u.request, None);
    let u = page.update(&props, volume_page::Msg::SetViewMode(ViewMode::Icons));
    assert_eq!(page.view_mode, ViewMode::Icons);
    assert_eq!(u.cookie, Some("viewmode=icons;path=/;max-age=31536000;SameSite=Lax".to_string()));
    let other = VolumePageProps { id: 5 };
    assert_eq!(page.changed(&other), Some(listing(5, "/docs")));
    assert_eq!(page.request_listing(&other), listing(5, "/docs"));
}

#[test]
fn ready_volume_page_lists_at_once() {
    let (page, req) = VolumePage::create(&VolumePageProps { id: 2 }, true, 9, "/x".to_string(), Some(ViewMode::Table));
    assert_eq!(req, Some(listing(2, "/x")));
    assert!(page.loading);
    assert_eq!(page.view_mode, ViewMode::Table);
    assert_eq!(page.last_browse_seq, 9);
}

#[test]
fn admin_pages_fetch_when_ready() {
    let (mut p, req) = AdminPage::create(false);
    assert_eq!(req, None);
    let u = p.update(admin_page::Msg::ContextChanged { ready: true });
    assert!(u.render);
    assert_eq!(u.send, vec![ClientMsg::Admin(AdminAction::GetRoles)]);
    let u = p.update(admin_page::Msg::ContextChanged { ready: true });
    assert!(u.send.is_empty());
    let u = p.update(admin_page::Msg::SelectRole(3));
    assert!(!u.render);
    assert_eq!(u.send, vec![ClientMsg::Admin(AdminAction::SetAdminRole { role_id: 3 })]);

    let (_, req) = AdminTokensPage::create(true);
    assert_eq!(req, Some(ClientMsg::Admin(AdminAction::GetTokens)));
    let (mut t, req) = AdminTokensPage::create(false);
    assert_eq!(req, None);
    assert_eq!(t.update(tokens_page::Msg::ContextChanged { ready: true }), Some(ClientMsg::Admin(AdminAction::GetTokens)));
    assert_eq!(t.update(tokens_page::Msg::ContextChanged { ready: true }), None);
}

#[test]
fn volume_form() {
    let (mut p, send) = AdminVolumesPage::create(true);
    assert_eq!(send, vec![ClientMsg::Admin(AdminAction::GetVolumes), ClientMsg::Admin(AdminAction::GetRoles)]);
    assert!(p.add_disabled(false));
    let u = p.update(volumes_page::Msg::Add);
    assert!(u.send.is_empty());
    p.update(volumes_page::Msg::NameInput("Music".into()));
    p.update(volumes_page::Msg::PathInput("/srv/music".into()));
    assert!(p.add_disabled(false));
    p.update(volumes_page::Msg::SelectRole(8));
    p.update(volumes_page::Msg::SelectPermission(Permission::ReadWrite));
    assert!(!p.add_disabled(false));
    assert!(p.add_disabled(true));
    let u = p.update(volumes_page::Msg::Add);
    assert!(u.render);
    assert_eq!(
        u.send,
        vec![ClientMsg::Admin(AdminAction::AddVolume {
            name: "Music".into(),
            path: "/srv/music".into(),
            role_id: 8,
            permission: Permission::ReadWrite,
        })]
    );
    assert_eq!(p.name, "");
    assert_eq!(p.path, "");
    assert_eq!(p.selected_role, None);
    assert_eq!(p.selected_permission, Permission::ReadOnly);
    let u = p.update(volumes_page::Msg::Remove(3));
    assert!(!u.render);
    assert_eq!(u.send, vec![ClientMsg::Admin(AdminAction::RemoveVolume { id: 3 })]);
}

#[test]
fn selectors_and_header() {
    let sel = RoleSelector;
    assert_eq!(sel.update(RoleSelectorMsg::Change("123".into())), Some(123));
    assert_eq!(sel.update(RoleSelectorMsg::Change("".into())), None);
    let mut props = RoleSelectorProps { roles: vec![], selected: None, disabled: false };
    assert!(RoleSelector::is_disabled(&props));
    assert_eq!(RoleSelector::value(&props), "");
    props.roles = vec![(1, "a".into()), (2, "b".into())];
    props.selected = Some(2);
    assert!(!RoleSelector::is_disabled(&props));
    assert_eq!(RoleSelector::value(&props), "2");
    props.disabled = true;
    assert!(RoleSelector::is_disabled(&props));

    let mut h = Header::create(false);
    assert_eq!(h.update(HeaderMsg::ToggleSidebar), (false, Some(true)));
    assert_eq!(h.update(HeaderMsg::ContextChanged { sidebar_open: true }), (true, None));
    assert_eq!(h.update(HeaderMsg::ToggleSidebar), (false, Some(false)));

    let mut ts = ThemeSwitcher::create(Theme::Light);
    assert_eq!(ThemeSwitcher::chosen("dracula"), Theme::Dracula);
    assert_eq!(ThemeSwitcher::chosen("???"), Theme::Light);
    assert_eq!(ts.update(ThemeMsg::Change(Theme::Dim)), (false, Some(Theme::Dim)));
    assert_eq!(ts.theme, Theme::Light);
    assert_eq!(ts.update(ThemeMsg::ContextChanged { theme: Theme::Dim }), (true, None));
    assert_eq!(ts.theme, Theme::Dim);

    let mut um = UserMenu::create(None);
    assert!(um.update(UserMenuMsg::ContextChanged { username: Some("ann".into()) }));
    assert_eq!(um.username, Some("ann".to_string()));
}

#[test]
fn application_updates() {
    let mut app = App::create("theme=night; sidebar=true");
    assert_eq!(app.theme, Theme::Night);
    assert!(app.sidebar_open);
    let u = app.update(AppMsg::SetTheme(Theme::Night));
    assert!(!u.render);
    assert!(u.cookies.is_empty());
    let u = app.update(AppMsg::SetTheme(Theme::Coffee));
    assert!(u.render);
    assert_eq!(u.apply_theme, Some(Theme::Coffee));
    assert_eq!(u.cookies, vec!["theme=coffee;path=/;max-age=31536000;SameSite=Lax".to_string()]);
    let u = app.update(AppMsg::SetSidebarOpen(false));
    assert_eq!(u.cookies, vec!["sidebar=false;path=/;max-age=31536000;SameSite=Lax".to_string()]);
    let u = app.update(AppMsg::Send(ClientMsg::GetMyVolumes));
    assert!(!u.render);
    assert_eq!(u.send, vec![ClientMsg::GetMyVolumes]);
    let u = app.update(AppMsg::WsRecv(ServerMsg::Hello { username: "ann".into(), avatar_url: None }));
    assert!(u.render);
    assert_eq!(u.send, vec![ClientMsg::GetMyVolumes]);
    assert!(app.data.ready);
    let fresh = App::create("");
    assert_eq!(fresh.theme, Theme::Light);
    assert!(!fresh.sidebar_open);
}
