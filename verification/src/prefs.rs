//! The settings that the pages keep in cookies: the colour theme, whether
//! the sidebar is open, and how a volume's entries are shown.
use vstd::prelude::*;
use crate::cookie::{cookie_value, cookie_value_of, is_white_space, lemma_cookie_among_others, lemma_single_cookie};

verus! {

/// The daisyUI colour themes, in the order the theme menu lists them.
#[derive(Clone, Copy, Debug, PartialEq, Eq, Structural)]
pub enum Theme {
    Light,
    Dark,
    Cupcake,
    Emerald,
    Corporate,
    Synthwave,
    Retro,
    Cyberpunk,
    Valentine,
    Halloween,
    Forest,
    Aqua,
    Lofi,
    Pastel,
    Fantasy,
    Dracula,
    Autumn,
    Business,
    Night,
    Coffee,
    Winter,
    Dim,
    Nord,
    Sunset,
}

/// The name of a theme, as the theme attribute and the cookie spell it.
pub open spec fn theme_name(t: Theme) -> Seq<char> {
    match t {
        Theme::Light => "light"@,
        Theme::Dark => "dark"@,
        Theme::Cupcake => "cupcake"@,
        Theme::Emerald => "emerald"@,
        Theme::Corporate => "corporate"@,
        Theme::Synthwave => "synthwave"@,
        Theme::Retro => "retro"@,
        Theme::Cyberpunk => "cyberpunk"@,
        Theme::Valentine => "valentine"@,
        Theme::Halloween => "halloween"@,
        Theme::Forest => "forest"@,
        Theme::Aqua => "aqua"@,
        Theme::Lofi => "lofi"@,
        Theme::Pastel => "pastel"@,
        Theme::Fantasy => "fantasy"@,
        Theme::Dracula => "dracula"@,
        Theme::Autumn => "autumn"@,
        Theme::Business => "business"@,
        Theme::Night => "night"@,
        Theme::Coffee => "coffee"@,
        Theme::Winter => "winter"@,
        Theme::Dim => "dim"@,
        Theme::Nord => "nord"@,
        Theme::Sunset => "sunset"@,
    }
}

/// Different themes have different names.
pub proof fn lemma_theme_names_distinct(a: Theme, b: Theme)
    ensures
        theme_name(a) == theme_name(b) ==> a == b,
{
    reveal_strlit("light");
    reveal_strlit("dark");
    reveal_strlit("cupcake");
    reveal_strlit("emerald");
    reveal_strlit("corporate");
    reveal_strlit("synthwave");
    reveal_strlit("retro");
    reveal_strlit("cyberpunk");
    reveal_strlit("valentine");
    reveal_strlit("halloween");
    reveal_strlit("forest");
    reveal_strlit("aqua");
    reveal_strlit("lofi");
    reveal_strlit("pastel");
    reveal_strlit("fantasy");
    reveal_strlit("dracula");
    reveal_strlit("autumn");
    reveal_strlit("business");
    reveal_strlit("night");
    reveal_strlit("coffee");
    reveal_strlit("winter");
    reveal_strlit("dim");
    reveal_strlit("nord");
    reveal_strlit("sunset");
    if theme_name(a) == theme_name(b) {
        assert(theme_name(a).len() == theme_name(b).len());
        assert(theme_name(a)[0] == theme_name(b)[0]);
        assert(theme_name(a)[1] == theme_name(b)[1]);
        assert(theme_name(a)[2] == theme_name(b)[2]);
    }
}

impl Theme {
    /// The first theme, used when none is remembered.
    pub fn default_theme() -> (r: Theme)
        ensures
            r == Theme::Light,
    {
        Theme::Light
    }

    /// The theme's name.
    pub fn name(&self) -> (r: &'static str)
        ensures
            r@ == theme_name(*self),
    {
        match self {
            Theme::Light => "light",
            Theme::Dark => "dark",
            Theme::Cupcake => "cupcake",
            Theme::Emerald => "emerald",
            Theme::Corporate => "corporate",
            Theme::Synthwave => "synthwave",
            Theme::Retro => "retro",
            Theme::Cyberpunk => "cyberpunk",
            Theme::Valentine => "valentine",
            Theme::Halloween => "halloween",
            Theme::Forest => "forest",
            Theme::Aqua => "aqua",
            Theme::Lofi => "lofi",
            Theme::Pastel => "pastel",
            Theme::Fantasy => "fantasy",
            Theme::Dracula => "dracula",
            Theme::Autumn => "autumn",
            Theme::Business => "business",
            Theme::Night => "night",
            Theme::Coffee => "coffee",
            Theme::Winter => "winter",
            Theme::Dim => "dim",
            Theme::Nord => "nord",
            Theme::Sunset => "sunset",
        }
    }

    /// The theme with the given name, if there is one (names are matched
    /// exactly).
    pub fn from_name(name: &str) -> (r: Option<Theme>)
        ensures
            r == parse_theme(name@),
    {
        let s = String::from_str(name);
        let r = if s == String::from_str("light") {
            Some(Theme::Light)
    } else if s == String::from_str("dark") {
        Some(Theme::Dark)
    } else if s == String::from_str("cupcake") {
        Some(Theme::Cupcake)
    } else if s == String::from_str("emerald") {
        Some(Theme::Emerald)
    } else if s == String::from_str("corporate") {
        Some(Theme::Corporate)
    } else if s == String::from_str("synthwave") {
        Some(Theme::Synthwave)
    } else if s == String::from_str("retro") {
        Some(Theme::Retro)
    } else if s == String::from_str("cyberpunk") {
        Some(Theme::Cyberpunk)
    } else if s == String::from_str("valentine") {
        Some(Theme::Valentine)
    } else if s == String::from_str("halloween") {
        Some(Theme::Halloween)
    } else if s == String::from_str("forest") {
        Some(Theme::Forest)
    } else if s == String::from_str("aqua") {
        Some(Theme::Aqua)
    } else if s == String::from_str("lofi") {
        Some(Theme::Lofi)
    } else if s == String::from_str("pastel") {
        Some(Theme::Pastel)
    } else if s == String::from_str("fantasy") {
        Some(Theme::Fantasy)
    } else if s == String::from_str("dracula") {
        Some(Theme::Dracula)
    } else if s == String::from_str("autumn") {
        Some(Theme::Autumn)
    } else if s == String::from_str("business") {
        Some(Theme::Business)
    } else if s == String::from_str("night") {
        Some(Theme::Night)
    } else if s == String::from_str("coffee") {
        Some(Theme::Coffee)
    } else if s == String::from_str("winter") {
        Some(Theme::Winter)
    } else if s == String::from_str("dim") {
        Some(Theme::Dim)
    } else if s == String::from_str("nord") {
        Some(Theme::Nord)
    } else if s == String::from_str("sunset") {
        Some(Theme::Sunset)
        } else {
            None
        };
        proof {
            if let Some(t) = r {
                lemma_theme_name_round_trip(t);
            } else {
                assert forall|t: Theme| theme_name(t) != name@ by {
                    match t {
                        Theme::Light => {},
                        Theme::Dark => {},
                        Theme::Cupcake => {},
                        Theme::Emerald => {},
                        Theme::Corporate => {},
                        Theme::Synthwave => {},
                        Theme::Retro => {},
                        Theme::Cyberpunk => {},
                        Theme::Valentine => {},
                        Theme::Halloween => {},
                        Theme::Forest => {},
                        Theme::Aqua => {},
                        Theme::Lofi => {},
                        Theme::Pastel => {},
                        Theme::Fantasy => {},
                        Theme::Dracula => {},
                        Theme::Autumn => {},
                        Theme::Business => {},
                        Theme::Night => {},
                        Theme::Coffee => {},
                        Theme::Winter => {},
                        Theme::Dim => {},
                        Theme::Nord => {},
                        Theme::Sunset => {},
                    }
                }
            }
        }
        r
    }

    /// Every theme, in menu order.
    pub fn all() -> (r: Vec<Theme>)
        ensures
            r@ == seq![Theme::Light, Theme::Dark, Theme::Cupcake, Theme::Emerald, Theme::Corporate, Theme::Synthwave, Theme::Retro, Theme::Cyberpunk, Theme::Valentine, Theme::Halloween, Theme::Forest, Theme::Aqua, Theme::Lofi, Theme::Pastel, Theme::Fantasy, Theme::Dracula, Theme::Autumn, Theme::Business, Theme::Night, Theme::Coffee, Theme::Winter, Theme::Dim, Theme::Nord, Theme::Sunset],
    {
        let mut v: Vec<Theme> = Vec::new();
    v.push(Theme::Light);
    v.push(Theme::Dark);
    v.push(Theme::Cupcake);
    v.push(Theme::Emerald);
    v.push(Theme::Corporate);
    v.push(Theme::Synthwave);
    v.push(Theme::Retro);
    v.push(Theme::Cyberpunk);
    v.push(Theme::Valentine);
    v.push(Theme::Halloween);
    v.push(Theme::Forest);
    v.push(Theme::Aqua);
    v.push(Theme::Lofi);
    v.push(Theme::Pastel);
    v.push(Theme::Fantasy);
    v.push(Theme::Dracula);
    v.push(Theme::Autumn);
    v.push(Theme::Business);
    v.push(Theme::Night);
    v.push(Theme::Coffee);
    v.push(Theme::Winter);
    v.push(Theme::Dim);
    v.push(Theme::Nord);
    v.push(Theme::Sunset);
        v
    }
}

/// The theme named `s`, if any.
pub open spec fn parse_theme(s: Seq<char>) -> Option<Theme> {
    if exists|t: Theme| theme_name(t) == s {
        Some(choose|t: Theme| theme_name(t) == s)
    } else {
        None
    }
}

/// Reading a theme's name gives the theme back.
pub proof fn lemma_theme_name_round_trip(t: Theme)
    ensures
        parse_theme(theme_name(t)) == Some(t),
{
    let p = choose|u: Theme| theme_name(u) == theme_name(t);
    lemma_theme_names_distinct(p, t);
}

/// How the entries of a volume are shown.
#[derive(Clone, Copy, Debug, PartialEq, Eq, Structural)]
pub enum ViewMode {
    List,
    Table,
    Icons,
}

/// The name of a view mode, as the cookie spells it.
pub open spec fn view_mode_name(m: ViewMode) -> Seq<char> {
    match m {
        ViewMode::List => "list"@,
        ViewMode::Table => "table"@,
        ViewMode::Icons => "icons"@,
    }
}

/// The view mode named `s`, if any.
pub open spec fn parse_view_mode(s: Seq<char>) -> Option<ViewMode> {
    if s == "list"@ {
        Some(ViewMode::List)
    } else if s == "table"@ {
        Some(ViewMode::Table)
    } else if s == "icons"@ {
        Some(ViewMode::Icons)
    } else {
        None
    }
}

/// Reading a view mode's name gives the mode back.
pub proof fn lemma_view_mode_round_trip(m: ViewMode)
    ensures
        parse_view_mode(view_mode_name(m)) == Some(m),
{
    reveal_strlit("list");
    reveal_strlit("table");
    reveal_strlit("icons");
    assert("table"@[0] != "list"@[0]);
    assert("icons"@[0] != "list"@[0]);
    assert("icons"@[0] != "table"@[0]);
}

impl ViewMode {
    /// The mode used when none is remembered.
    pub fn default_mode() -> (r: ViewMode)
        ensures
            r == ViewMode::List,
    {
        ViewMode::List
    }

    /// The mode's name.
    pub fn as_str(self) -> (r: &'static str)
        ensures
            r@ == view_mode_name(self),
    {
        match self {
            ViewMode::List => "list",
            ViewMode::Table => "table",
            ViewMode::Icons => "icons",
        }
    }

    /// The mode with the given name, if there is one.
    pub fn from_str(s: &str) -> (r: Option<ViewMode>)
        ensures
            r == parse_view_mode(s@),
    {
        let s = String::from_str(s);
        if s == String::from_str("list") {
            Some(ViewMode::List)
        } else if s == String::from_str("table") {
            Some(ViewMode::Table)
        } else if s == String::from_str("icons") {
            Some(ViewMode::Icons)
        } else {
            None
        }
    }
}

/// The value `bool`'s `FromStr` reads from `s`.
pub open spec fn parse_bool(s: Seq<char>) -> Option<bool> {
    if s == "true"@ {
        Some(true)
    } else if s == "false"@ {
        Some(false)
    } else {
        None
    }
}

/// Reads a `bool` as `str::parse` does: exactly "true" or "false".
pub fn bool_from_str(s: &str) -> (r: Option<bool>)
    ensures
        r == parse_bool(s@),
{
    let s = String::from_str(s);
    if s == String::from_str("true") {
        Some(true)
    } else if s == String::from_str("false") {
        Some(false)
    } else {
        None
    }
}

/// The text of a `bool`, as `to_string` writes it.
pub open spec fn bool_text(b: bool) -> Seq<char> {
    if b { "true"@ } else { "false"@ }
}

/// The attributes of every settings cookie: the whole site, one year.
pub open spec fn cookie_attributes() -> Seq<char> {
    ";path=/;max-age=31536000;SameSite=Lax"@
}

fn setting_cookie(prefix: &str, value: &str) -> (r: String)
    ensures
        r@ == prefix@ + value@ + cookie_attributes(),
{
    let mut r = String::from_str(prefix);
    r.append(value);
    r.append(";path=/;max-age=31536000;SameSite=Lax");
    r
}

/// The remembered theme, read from the cookie string.
pub fn read_theme_cookie(cookies: &str) -> (r: Option<Theme>)
    ensures
        r == (match cookie_value_of(cookies@, "theme="@) { Some(v) => parse_theme(v), None => None }),
{
    match cookie_value(cookies, "theme=") {
        Some(v) => Theme::from_name(v.as_str()),
        None => None,
    }
}

/// The cookie that remembers a theme.
pub fn write_theme_cookie(theme: Theme) -> (r: String)
    ensures
        r@ == "theme="@ + theme_name(theme) + cookie_attributes(),
{
    setting_cookie("theme=", theme.name())
}

/// Whether the sidebar was left open, read from the cookie string.
pub fn read_sidebar_cookie(cookies: &str) -> (r: Option<bool>)
    ensures
        r == (match cookie_value_of(cookies@, "sidebar="@) { Some(v) => parse_bool(v), None => None }),
{
    match cookie_value(cookies, "sidebar=") {
        Some(v) => bool_from_str(v.as_str()),
        None => None,
    }
}

/// The cookie that remembers whether the sidebar is open.
pub fn write_sidebar_cookie(open: bool) -> (r: String)
    ensures
        r@ == "sidebar="@ + bool_text(open) + cookie_attributes(),
{
    setting_cookie("sidebar=", if open { "true" } else { "false" })
}

/// The remembered view mode, read from the cookie string.
pub fn read_viewmode_cookie(cookies: &str) -> (r: Option<ViewMode>)
    ensures
        r == (match cookie_value_of(cookies@, "viewmode="@) { Some(v) => parse_view_mode(v), None => None }),
{
    match cookie_value(cookies, "viewmode=") {
        Some(v) => ViewMode::from_str(v.as_str()),
        None => None,
    }
}

/// The cookie that remembers a view mode.
pub fn write_viewmode_cookie(mode: ViewMode) -> (r: String)
    ensures
        r@ == "viewmode="@ + view_mode_name(mode) + cookie_attributes(),
{
    setting_cookie("viewmode=", mode.as_str())
}

/// The cookie string "theme=<name>" that a browser hands back for a
/// remembered theme reads as that theme.
pub proof fn lemma_theme_cookie_round_trip(t: Theme)
    ensures
        (match cookie_value_of("theme="@ + theme_name(t), "theme="@) { Some(v) => parse_theme(v), None => None }) == Some(t),
{
    reveal_strlit("theme=");
    lemma_theme_names_lowercase(t);
    let s = "theme="@ + theme_name(t);
    assert forall|i: int| 0 <= i < s.len() implies s[i] != ';' by {
        if i >= 6 {
            assert(s[i] == theme_name(t)[i - 6]);
        }
    }
    assert(s.last() == theme_name(t).last());
    lemma_single_cookie("theme="@, theme_name(t));
    lemma_theme_name_round_trip(t);
}

/// The theme cookie reads back as its theme wherever it stands in the
/// browser's cookie string: first, or after other cookies none of which is
/// a theme cookie, with white space before it and other cookies after it.
pub proof fn lemma_theme_cookie_among_others(others: Seq<char>, spaces: Seq<char>, tail: Seq<char>, t: Theme)
    requires
        cookie_value_of(others, "theme="@) is None,
        forall|i: int| 0 <= i < spaces.len() ==> is_white_space(#[trigger] spaces[i]),
        tail.len() == 0 || tail[0] == ';',
    ensures
        (match cookie_value_of(spaces + ("theme="@ + theme_name(t)) + tail, "theme="@) {
            Some(v) => parse_theme(v),
            None => None,
        }) == Some(t),
        (match cookie_value_of(others + seq![';'] + spaces + ("theme="@ + theme_name(t)) + tail, "theme="@) {
            Some(v) => parse_theme(v),
            None => None,
        }) == Some(t),
{
    reveal_strlit("theme=");
    lemma_theme_names_lowercase(t);
    let s = "theme="@ + theme_name(t);
    assert forall|i: int| 0 <= i < s.len() implies s[i] != ';' by {
        if i >= 6 {
            assert(s[i] == theme_name(t)[i - 6]);
        }
    }
    assert(s.last() == theme_name(t).last());
    lemma_cookie_among_others(others, spaces, "theme="@, theme_name(t), tail);
    lemma_theme_name_round_trip(t);
}

/// Every theme name is made of lower-case ASCII letters and is not empty.
proof fn lemma_theme_names_lowercase(t: Theme)
    ensures
        theme_name(t).len() > 0,
        forall|i: int| 0 <= i < theme_name(t).len() ==> 'a' <= #[trigger] theme_name(t)[i] <= 'z',
{
    reveal_strlit("light");
    reveal_strlit("dark");
    reveal_strlit("cupcake");
    reveal_strlit("emerald");
    reveal_strlit("corporate");
    reveal_strlit("synthwave");
    reveal_strlit("retro");
    reveal_strlit("cyberpunk");
    reveal_strlit("valentine");
    reveal_strlit("halloween");
    reveal_strlit("forest");
    reveal_strlit("aqua");
    reveal_strlit("lofi");
    reveal_strlit("pastel");
    reveal_strlit("fantasy");
    reveal_strlit("dracula");
    reveal_strlit("autumn");
    reveal_strlit("business");
    reveal_strlit("night");
    reveal_strlit("coffee");
    reveal_strlit("winter");
    reveal_strlit("dim");
    reveal_strlit("nord");
    reveal_strlit("sunset");
}

/// The cookie string "sidebar=<true|false>" that a browser hands back
/// reads as the remembered flag.
pub proof fn lemma_sidebar_cookie_round_trip(open: bool)
    ensures
        (match cookie_value_of("sidebar="@ + bool_text(open), "sidebar="@) { Some(v) => parse_bool(v), None => None }) == Some(open),
{
    reveal_strlit("sidebar=");
    reveal_strlit("true");
    reveal_strlit("false");
    let s = "sidebar="@ + bool_text(open);
    assert forall|i: int| 0 <= i < s.len() implies s[i] != ';' by {
        if i >= 8 {
            assert(s[i] == bool_text(open)[i - 8]);
        }
    }
    assert(s.last() == bool_text(open).last());
    lemma_single_cookie("sidebar="@, bool_text(open));
    assert("true"@ != "false"@) by { assert("true"@.len() != "false"@.len()); }
}

/// The cookie string "viewmode=<name>" that a browser hands back reads as
/// the remembered view mode.
pub proof fn lemma_viewmode_cookie_round_trip(m: ViewMode)
    ensures
        (match cookie_value_of("viewmode="@ + view_mode_name(m), "viewmode="@) { Some(v) => parse_view_mode(v), None => None }) == Some(m),
{
    reveal_strlit("viewmode=");
    reveal_strlit("list");
    reveal_strlit("table");
    reveal_strlit("icons");
    let s = "viewmode="@ + view_mode_name(m);
    assert forall|i: int| 0 <= i < s.len() implies s[i] != ';' by {
        if i >= 9 {
            assert(s[i] == view_mode_name(m)[i - 9]);
        }
    }
    assert(s.last() == view_mode_name(m).last());
    lemma_single_cookie("viewmode="@, view_mode_name(m));
    lemma_view_mode_round_trip(m);
}

} // verus!
