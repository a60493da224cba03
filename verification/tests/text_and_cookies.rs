use filebrowser::cookie::cookie_value;
use filebrowser::prefs::{
    bool_from_str, read_sidebar_cookie, read_theme_cookie, read_viewmode_cookie, write_sidebar_cookie,
    write_theme_cookie, write_viewmode_cookie, Theme, ViewMode,
};
use filebrowser::text::{parse_u64, u64_to_decimal};

#[test]
fn decimal_numbers() {
    assert_eq!(u64_to_decimal(0), "0");
    assert_eq!(u64_to_decimal(7), "7");
    assert_eq!(u64_to_decimal(1234567890), "1234567890");
    assert_eq!(u64_to_decimal(u64::MAX), "18446744073709551615");
}

#[test]
fn parsing_numbers() {
    assert_eq!(parse_u64("42"), Some(42));
    assert_eq!(parse_u64("+7"), Some(7));
    assert_eq!(parse_u64("007"), Some(7));
    assert_eq!(parse_u64(""), None);
    assert_eq!(parse_u64("+"), None);
    assert_eq!(parse_u64("-1"), None);
    assert_eq!(parse_u64("12a"), None);
    assert_eq!(parse_u64(" 1"), None);
    assert_eq!(parse_u64("18446744073709551615"), Some(u64::MAX));
    assert_eq!(parse_u64("18446744073709551616"), None);
    assert_eq!(parse_u64("99999999999999999999x"), None);
}

#[test]
fn decimal_round_trip() {
    for n in [0u64, 1, 9, 10, 99, 100, 123456789, u64::MAX - 1, u64::MAX] {
        assert_eq!(parse_u64(&u64_to_decimal(n)), Some(n));
    }
}

#[test]
fn cookie_lookup() {
    let cookies = "theme=dark; sidebar=true;viewmode=table";
    assert_eq!(cookie_value(cookies, "theme="), Some("dark".to_string()));
    assert_eq!(cookie_value(cookies, "sidebar="), Some("true".to_string()));
    assert_eq!(cookie_value(cookies, "viewmode="), Some("table".to_string()));
    assert_eq!(cookie_value(cookies, "missing="), None);
    assert_eq!(cookie_value("", "theme="), None);
    // the first matching piece wins, pieces are trimmed
    assert_eq!(cookie_value("  theme=retro  ; theme=dim", "theme="), Some("retro".to_string()));
    // a name is matched as a prefix of the trimmed piece only
    assert_eq!(cookie_value("xtheme=retro", "theme="), None);
    assert_eq!(cookie_value("theme=", "theme="), Some(String::new()));
}

#[test]
fn theme_names() {
    assert_eq!(Theme::all().len(), 24);
    assert_eq!(Theme::all()[0], Theme::Light);
    assert_eq!(Theme::all()[23], Theme::Sunset);
    assert_eq!(Theme::Synthwave.name(), "synthwave");
    assert_eq!(Theme::from_name("cyberpunk"), Some(Theme::Cyberpunk));
    assert_eq!(Theme::from_name("Cyberpunk"), None);
    assert_eq!(Theme::from_name(""), None);
    for t in Theme::all() {
        assert_eq!(Theme::from_name(t.name()), Some(t));
    }
    assert_eq!(Theme::default_theme(), Theme::Light);
}

#[test]
fn view_modes() {
    assert_eq!(ViewMode::List.as_str(), "list");
    assert_eq!(ViewMode::Table.as_str(), "table");
    assert_eq!(ViewMode::Icons.as_str(), "icons");
    for m in [ViewMode::List, ViewMode::Table, ViewMode::Icons] {
        assert_eq!(ViewMode::from_str(m.as_str()), Some(m));
    }
    assert_eq!(ViewMode::from_str("grid"), None);
    assert_eq!(ViewMode::default_mode(), ViewMode::List);
}

#[test]
fn bool_values() {
    assert_eq!(bool_from_str("true"), Some(true));
    assert_eq!(bool_from_str("false"), Some(false));
    assert_eq!(bool_from_str("True"), None);
    assert_eq!(bool_from_str(""), None);
}

#[test]
fn settings_cookies() {
    assert_eq!(write_theme_cookie(Theme::Dark), "theme=dark;path=/;max-age=31536000;SameSite=Lax");
    assert_eq!(write_sidebar_cookie(true), "sidebar=true;path=/;max-age=31536000;SameSite=Lax");
    assert_eq!(write_viewmode_cookie(ViewMode::Icons), "viewmode=icons;path=/;max-age=31536000;SameSite=Lax");
    assert_eq!(read_theme_cookie("sidebar=false; theme=nord"), Some(Theme::Nord));
    assert_eq!(read_theme_cookie("theme=unknown"), None);
    assert_eq!(read_sidebar_cookie("sidebar=false; theme=nord"), Some(false));
    assert_eq!(read_sidebar_cookie("sidebar=yes"), None);
    assert_eq!(read_viewmode_cookie("viewmode=table"), Some(ViewMode::Table));
    assert_eq!(read_viewmode_cookie("theme=dark"), None);
}

#[test]
fn settings_cookie_round_trips() {
    for t in Theme::all() {
        let pair = format!("theme={}", t.name());
        assert_eq!(read_theme_cookie(&pair), Some(t));
    }
    for b in [true, false] {
        assert_eq!(read_sidebar_cookie(&format!("sidebar={}", b)), Some(b));
    }
    for m in [ViewMode::List, ViewMode::Table, ViewMode::Icons] {
        assert_eq!(read_viewmode_cookie(&format!("viewmode={}", m.as_str())), Some(m));
    }
}

#[test]
fn theme_cookie_among_other_cookies() {
    for t in Theme::all() {
        let first = format!("theme={}; sidebar=true", t.name());
        assert_eq!(read_theme_cookie(&first), Some(t));
        let later = format!("sidebar=true; viewmode=list;  theme={};x=1", t.name());
        assert_eq!(read_theme_cookie(&later), Some(t));
    }
}
