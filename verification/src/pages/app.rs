//! The application as a whole: the shared state that the server's messages
//! fill, and the theme and sidebar that the cookies remember.
use vstd::prelude::*;
use crate::client::{server_msg_handled, AppData};
use crate::cookie::cookie_value_of;
use crate::prefs::{
    bool_text, cookie_attributes, parse_bool, parse_theme, read_sidebar_cookie, read_theme_cookie,
    theme_name, write_sidebar_cookie, write_theme_cookie, Theme,
};
use crate::types::{ClientMsg, ServerMsg};

verus! {

/// What the application keeps.
#[derive(Debug, PartialEq, Eq)]
pub struct App {
    pub data: AppData,
    pub theme: Theme,
    pub sidebar_open: bool,
}

/// What happens to the application.
#[derive(Debug, PartialEq, Eq)]
pub enum AppMsg {
    WsRecv(ServerMsg),
    Send(ClientMsg),
    SetTheme(Theme),
    SetSidebarOpen(bool),
}

/// What the application asks for after a message.
#[derive(Debug, PartialEq, Eq)]
pub struct AppUpdate {
    pub render: bool,
    /// Messages to send to the server, in order.
    pub send: Vec<ClientMsg>,
    /// Cookies to write.
    pub cookies: Vec<String>,
    /// A theme to put on the page.
    pub apply_theme: Option<Theme>,
}

impl App {
    /// The application before the server has said anything, with the theme
    /// and the sidebar as the cookies remember them (the first theme and a
    /// closed sidebar by default).
    pub fn create(cookies: &str) -> (r: App)
        ensures
            r.theme == (match cookie_value_of(cookies@, "theme="@) {
                Some(v) => match parse_theme(v) { Some(t) => t, None => Theme::Light },
                None => Theme::Light,
            }),
            r.sidebar_open == (match cookie_value_of(cookies@, "sidebar="@) {
                Some(v) => match parse_bool(v) { Some(b) => b, None => false },
                None => false,
            }),
            r.data.username is None,
            !r.data.ready,
    {
        let theme = match read_theme_cookie(cookies) {
            Some(t) => t,
            None => Theme::Light,
        };
        let sidebar_open = match read_sidebar_cookie(cookies) {
            Some(b) => b,
            None => false,
        };
        App { data: AppData::new(), theme, sidebar_open }
    }

    /// Reacts to a message: server messages update the shared state (and
    /// may ask for more); requests go out; a new theme or sidebar state is
    /// taken, remembered and rendered, an unchanged one is ignored.
    pub fn update(&mut self, msg: AppMsg) -> (r: AppUpdate)
        ensures
            match msg {
                AppMsg::WsRecv(m) => {
                    &&& r.render
                    &&& r.cookies@.len() == 0
                    &&& r.apply_theme is None
                    &&& final(self).theme == old(self).theme
                    &&& final(self).sidebar_open == old(self).sidebar_open
                    &&& server_msg_handled(old(self).data, m, final(self).data, r.send@)
                },
                AppMsg::Send(m) => {
                    &&& !r.render
                    &&& r.send@ == seq![m]
                    &&& r.cookies@.len() == 0
                    &&& r.apply_theme is None
                    &&& *final(self) == *old(self)
                },
                AppMsg::SetTheme(t) => {
                    &&& final(self).theme == t
                    &&& final(self).sidebar_open == old(self).sidebar_open
                    &&& final(self).data == old(self).data
                    &&& r.send@.len() == 0
                    &&& r.render == (t != old(self).theme)
                    &&& (t != old(self).theme ==> r.apply_theme == Some(t) && r.cookies@.len() == 1
                        && r.cookies@[0]@ == "theme="@ + theme_name(t) + cookie_attributes())
                    &&& (t == old(self).theme ==> r.apply_theme is None && r.cookies@.len() == 0)
                },
                AppMsg::SetSidebarOpen(open) => {
                    &&& final(self).sidebar_open == open
                    &&& final(self).theme == old(self).theme
                    &&& final(self).data == old(self).data
                    &&& r.send@.len() == 0
                    &&& r.apply_theme is None
                    &&& r.render == (open != old(self).sidebar_open)
                    &&& (open != old(self).sidebar_open ==> r.cookies@.len() == 1
                        && r.cookies@[0]@ == "sidebar="@ + bool_text(open) + cookie_attributes())
                    &&& (open == old(self).sidebar_open ==> r.cookies@.len() == 0)
                },
            },
    {
        match msg {
            AppMsg::WsRecv(m) => {
                let send = self.data.handle_server_msg(m);
                AppUpdate { render: true, send, cookies: Vec::new(), apply_theme: None }
            },
            AppMsg::Send(m) => {
                let mut send: Vec<ClientMsg> = Vec::new();
                send.push(m);
                AppUpdate { render: false, send, cookies: Vec::new(), apply_theme: None }
            },
            AppMsg::SetTheme(t) => {
                if self.theme != t {
                    self.theme = t;
                    let mut cookies: Vec<String> = Vec::new();
                    cookies.push(write_theme_cookie(t));
                    AppUpdate { render: true, send: Vec::new(), cookies, apply_theme: Some(t) }
                } else {
                    AppUpdate { render: false, send: Vec::new(), cookies: Vec::new(), apply_theme: None }
                }
            },
            AppMsg::SetSidebarOpen(open) => {
                if self.sidebar_open != open {
                    self.sidebar_open = open;
                    let mut cookies: Vec<String> = Vec::new();
                    cookies.push(write_sidebar_cookie(open));
                    AppUpdate { render: true, send: Vec::new(), cookies, apply_theme: None }
                } else {
                    AppUpdate { render: false, send: Vec::new(), cookies: Vec::new(), apply_theme: None }
                }
            },
        }
    }
}

} // verus!
