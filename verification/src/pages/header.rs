//! The page header: the sidebar button, the theme menu and the user menu.
use vstd::prelude::*;
use crate::prefs::{parse_theme, Theme};

verus! {

/// What the header keeps of the shared state: whether the sidebar is open.
#[derive(Clone, Copy, Debug, PartialEq, Eq, Structural)]
pub struct Header {
    pub sidebar_open: bool,
}

/// What happens to the header.
#[derive(Clone, Copy, Debug, PartialEq, Eq, Structural)]
pub enum HeaderMsg {
    ContextChanged { sidebar_open: bool },
    ToggleSidebar,
}

impl Header {
    pub fn create(sidebar_open: bool) -> (r: Header)
        ensures
            r.sidebar_open == sidebar_open,
    {
        Header { sidebar_open }
    }

    /// Reacts to a message; returns whether to render again and the
    /// sidebar state to ask the application for: the opposite of the
    /// current one when the button is pressed.
    pub fn update(&mut self, msg: HeaderMsg) -> (r: (bool, Option<bool>))
        ensures
            match msg {
                HeaderMsg::ContextChanged { sidebar_open } => {
                    &&& final(self).sidebar_open == sidebar_open
                    &&& r == (true, Option::<bool>::None)
                },
                HeaderMsg::ToggleSidebar => {
                    &&& *final(self) == *old(self)
                    &&& r == (false, Some(!old(self).sidebar_open))
                },
            },
    {
        match msg {
            HeaderMsg::ContextChanged { sidebar_open } => {
                self.sidebar_open = sidebar_open;
                (true, None)
            },
            HeaderMsg::ToggleSidebar => (false, Some(!self.sidebar_open)),
        }
    }
}

/// What the theme menu keeps of the shared state: the current theme.
#[derive(Clone, Copy, Debug, PartialEq, Eq, Structural)]
pub struct ThemeSwitcher {
    pub theme: Theme,
}

/// What happens to the theme menu.
#[derive(Clone, Copy, Debug, PartialEq, Eq, Structural)]
pub enum ThemeMsg {
    ContextChanged { theme: Theme },
    Change(Theme),
}

impl ThemeSwitcher {
    pub fn create(theme: Theme) -> (r: ThemeSwitcher)
        ensures
            r.theme == theme,
    {
        ThemeSwitcher { theme }
    }

    /// The theme an option of the menu stands for: the theme of that name,
    /// or the first theme for a value that names none.
    pub fn chosen(value: &str) -> (r: Theme)
        ensures
            r == (match parse_theme(value@) { Some(t) => t, None => Theme::Light }),
    {
        match Theme::from_name(value) {
            Some(t) => t,
            None => Theme::Light,
        }
    }

    /// Reacts to a message; returns whether to render again and the theme
    /// to ask the application for.
    pub fn update(&mut self, msg: ThemeMsg) -> (r: (bool, Option<Theme>))
        ensures
            match msg {
                ThemeMsg::ContextChanged { theme } => {
                    &&& final(self).theme == theme
                    &&& r == (true, Option::<Theme>::None)
                },
                ThemeMsg::Change(t) => {
                    &&& *final(self) == *old(self)
                    &&& r == (false, Some(t))
                },
            },
    {
        match msg {
            ThemeMsg::ContextChanged { theme } => {
                self.theme = theme;
                (true, None)
            },
            ThemeMsg::Change(t) => (false, Some(t)),
        }
    }
}

/// What the user menu keeps of the shared state: the signed-in user's
/// name, if any.
#[derive(Debug, PartialEq, Eq)]
pub struct UserMenu {
    pub username: Option<String>,
}

/// What happens to the user menu.
#[derive(Debug, PartialEq, Eq)]
pub enum UserMenuMsg {
    ContextChanged { username: Option<String> },
}

impl UserMenu {
    pub fn create(username: Option<String>) -> (r: UserMenu)
        ensures
            r.username == username,
    {
        UserMenu { username }
    }

    /// Takes the new shared state; the menu always renders again.
    pub fn update(&mut self, msg: UserMenuMsg) -> (r: bool)
        ensures
            match msg {
                UserMenuMsg::ContextChanged { username } => final(self).username == username && r,
            },
    {
        match msg {
            UserMenuMsg::ContextChanged { username } => {
                self.username = username;
                true
            },
        }
    }
}

} // verus!
