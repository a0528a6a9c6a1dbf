use wleave::button::{default_circular, default_justify, WButton};
use wleave::cli_opt::{Args, ButtonLayout, Protocol};
use wleave::config::{
    default_delay, default_margin, default_spacing, file_search_given, file_search_path,
    join_path, merge_with_args, search_dirs, select_config, user_config_dir, AppConfig,
    SearchError,
};
use wleave::grid::AspectRatio;
use wleave::menu::{
    buttons_per_row, find_keybind, grid_position, is_svg, justification, keybind_hint,
    label_overlaid, margins, Justification,
};

fn button(label: &str, keybind: &str) -> WButton {
    WButton {
        label: label.to_string(),
        action: format!("run {label}"),
        text: label.to_string(),
        keybind: keybind.to_string(),
        justify: default_justify(),
        width: None,
        height: None,
        circular: default_circular(),
        icon: None,
    }
}

fn no_args() -> Args {
    Args {
        version: None,
        layout: None,
        css: None,
        buttons_per_row: None,
        column_spacing: None,
        row_spacing: None,
        margin: None,
        margin_left: None,
        margin_right: None,
        margin_top: None,
        margin_bottom: None,
        button_aspect_ratio: None,
        delay_command_ms: None,
        close_on_lost_focus: None,
        show_keybinds: None,
        protocol: None,
        no_version_info: None,
    }
}

#[test]
fn defaults() {
    assert_eq!(default_margin(), 200);
    assert_eq!(default_spacing(), 8);
    assert_eq!(default_delay(), 100);
    assert_eq!(default_justify(), "center");
    assert!(!default_circular());
    assert_eq!(Protocol::default(), Protocol::LayerShell);
    assert_eq!(ButtonLayout::default(), ButtonLayout::PerRow(3));
    let c = AppConfig::default();
    assert_eq!(c.margin, 200);
    assert_eq!((c.column_spacing, c.row_spacing), (8, 8));
    assert_eq!(c.delay_command_ms, 100);
    assert_eq!(c.protocol, Protocol::LayerShell);
    assert_eq!(c.buttons_per_row, ButtonLayout::PerRow(3));
    assert!(c.buttons.is_empty());
    assert!(c.margin_top.is_none() && c.css.is_none() && c.button_aspect_ratio.is_none());
    assert!(!c.close_on_lost_focus && !c.show_keybinds && !c.no_version_info);
}

#[test]
fn parse_button_layout() {
    assert_eq!(ButtonLayout::parse("3"), Ok(ButtonLayout::PerRow(3)));
    assert_eq!(ButtonLayout::parse("+4"), Ok(ButtonLayout::PerRow(4)));
    assert_eq!(ButtonLayout::parse("007"), Ok(ButtonLayout::PerRow(7)));
    assert_eq!(ButtonLayout::parse("1/5"), Ok(ButtonLayout::RowRatio(1, 5)));
    assert_eq!(ButtonLayout::parse("2/3"), Ok(ButtonLayout::RowRatio(2, 3)));
    assert_eq!("4294967295".parse::<ButtonLayout>(), Ok(ButtonLayout::PerRow(u32::MAX)));
    for bad in ["", "0", "-1", "4294967296", "1/0", "0/1", "1/", "/2", "1/2/3", "a", "3 ", "+"] {
        assert!(ButtonLayout::parse(bad).is_err(), "{bad:?}");
    }
    let e = ButtonLayout::parse("x").unwrap_err();
    assert_eq!(e.message(), "Value neither a number (1, 2, 3) nor a ratio (1/1, 2/3, ...)");
}

#[test]
fn button_layout_text() {
    assert_eq!(ButtonLayout::PerRow(3).to_string(), "3");
    assert_eq!(ButtonLayout::PerRow(0).to_string(), "0");
    assert_eq!(ButtonLayout::RowRatio(12, 305).to_string(), "12/305");
    assert_eq!(ButtonLayout::PerRow(u32::MAX).to_string(), "4294967295");
    for l in [ButtonLayout::PerRow(9), ButtonLayout::RowRatio(1, 1), ButtonLayout::RowRatio(40, 7)] {
        assert_eq!(ButtonLayout::parse(&l.to_string()), Ok(l));
    }
}

#[test]
fn parse_aspect_ratio() {
    assert_eq!(AspectRatio::parse("16/9"), Ok(AspectRatio { num: 16, den: 9 }));
    assert_eq!(AspectRatio::parse("2"), Ok(AspectRatio { num: 2, den: 1 }));
    assert!(AspectRatio::parse("1.5").is_err());
    assert!(AspectRatio::parse("0/3").is_err());
    assert_eq!(AspectRatio { num: 4, den: 3 }.to_string(), "4/3");
}

#[test]
fn args_override_config() {
    let mut c = AppConfig::default();
    c.buttons.push(button("lock", "l"));
    c.margin_top = Some(5);
    let mut a = no_args();
    a.margin = Some(10);
    a.margin_left = Some(1);
    a.column_spacing = Some(3);
    a.protocol = Some(Protocol::Xdg);
    a.buttons_per_row = Some(ButtonLayout::RowRatio(1, 2));
    a.button_aspect_ratio = Some(AspectRatio { num: 3, den: 2 });
    a.show_keybinds = Some(true);
    a.no_version_info = Some(true);
    a.delay_command_ms = Some(0);
    a.css = Some("/tmp/style.css".to_string());
    merge_with_args(&mut c, &a);
    assert_eq!(c.margin, 10);
    assert_eq!(c.margin_left, Some(1));
    assert_eq!(c.margin_top, Some(5));
    assert_eq!(c.margin_right, None);
    assert_eq!((c.column_spacing, c.row_spacing), (3, 8));
    assert_eq!(c.protocol, Protocol::Xdg);
    assert_eq!(c.buttons_per_row, ButtonLayout::RowRatio(1, 2));
    assert_eq!(c.button_aspect_ratio, Some(AspectRatio { num: 3, den: 2 }));
    assert!(c.show_keybinds && c.no_version_info && !c.close_on_lost_focus);
    assert_eq!(c.delay_command_ms, 0);
    assert_eq!(c.css.as_deref(), Some("/tmp/style.css"));
    assert_eq!(c.buttons.len(), 1);
    assert_eq!(c.buttons[0].keybind, "l");
}

#[test]
fn no_args_change_nothing() {
    let mut c = AppConfig::default();
    c.css = Some("a.css".to_string());
    c.show_keybinds = true;
    merge_with_args(&mut c, &no_args());
    assert_eq!(c.css.as_deref(), Some("a.css"));
    assert!(c.show_keybinds);
    assert_eq!(c.margin, 200);
}

#[test]
fn given_file_must_exist() {
    assert_eq!(file_search_given("/x/layout".to_string(), true), Ok("/x/layout".to_string()));
    assert_eq!(
        file_search_given("/x/layout".to_string(), false),
        Err(SearchError::SpecifiedPathNotAFile("/x/layout".to_string()))
    );
}

#[test]
fn search_path_order() {
    let dirs = search_dirs("/home/u/.config");
    assert_eq!(
        dirs,
        vec![
            "/home/u/.config/wleave",
            "/home/u/.config/wlogout",
            "/etc/wleave",
            "/etc/wlogout",
            "/usr/local/etc/wleave",
            "/usr/local/etc/wlogout",
        ]
    );
    let candidates: Vec<String> = dirs.iter().map(|d| join_path(d, "layout.json")).collect();
    let found = vec![false, false, true, true, false, false];
    assert_eq!(
        file_search_path(&candidates, &found, "layout.json".to_string()),
        Ok("/etc/wleave/layout.json".to_string())
    );
    assert_eq!(
        file_search_path(&candidates, &vec![false; 6], "layout.json".to_string()),
        Err(SearchError::FileNotInSearchPath("layout.json".to_string()))
    );
}

#[test]
fn config_dir_fallbacks() {
    assert_eq!(user_config_dir(Some("/c".to_string()), Some("/h".to_string())), "/c");
    assert_eq!(user_config_dir(None, Some("/home/u".to_string())), "/home/u/.config");
    assert_eq!(user_config_dir(None, Some("/home/u/".to_string())), "/home/u/.config");
    assert_eq!(user_config_dir(None, None), "~/.config");
    assert_eq!(join_path("", "x"), "x");
    assert_eq!(join_path("/", "x"), "/x");
}

#[test]
fn current_format_wins() {
    let mut current = AppConfig::default();
    current.margin = 7;
    let r: Result<AppConfig, String> = select_config(Ok(current), Ok(vec![button("a", "a")]));
    let c = r.unwrap();
    assert_eq!(c.margin, 7);
    assert!(c.buttons.is_empty());
}

#[test]
fn legacy_format_keeps_defaults() {
    let r: Result<AppConfig, String> =
        select_config(Err("bad".to_string()), Ok(vec![button("a", "a"), button("b", "b")]));
    let c = r.unwrap();
    assert_eq!(c.buttons.len(), 2);
    assert_eq!(c.margin, 200);
    assert_eq!(c.buttons_per_row, ButtonLayout::PerRow(3));
}

#[test]
fn both_formats_failing_reports_current_error() {
    let r: Result<AppConfig, String> =
        select_config(Err("current".to_string()), Err("legacy".to_string()));
    assert_eq!(r.unwrap_err(), "current");
}

#[test]
fn row_sizes() {
    assert_eq!(buttons_per_row(ButtonLayout::PerRow(3), 6), 3);
    assert_eq!(buttons_per_row(ButtonLayout::RowRatio(1, 1), 6), 6);
    assert_eq!(buttons_per_row(ButtonLayout::RowRatio(1, 2), 6), 3);
    assert_eq!(buttons_per_row(ButtonLayout::RowRatio(1, 5), 6), 1);
    assert_eq!(buttons_per_row(ButtonLayout::RowRatio(1, 10), 6), 1);
    assert_eq!(buttons_per_row(ButtonLayout::RowRatio(2, 3), 6), 4);
    assert_eq!(grid_position(7, 3), (1, 2));
    assert_eq!(grid_position(0, 3), (0, 0));
}

#[test]
fn justification_names() {
    assert_eq!(justification(&"fill".to_string()), Justification::Fill);
    assert_eq!(justification(&"left".to_string()), Justification::Left);
    assert_eq!(justification(&"right".to_string()), Justification::Right);
    assert_eq!(justification(&"center".to_string()), Justification::Center);
    assert_eq!(justification(&"middle".to_string()), Justification::Center);
}

#[test]
fn side_margins() {
    let mut c = AppConfig::default();
    c.margin = 50;
    c.margin_left = Some(4);
    let m = margins(&c);
    assert_eq!((m.top, m.bottom, m.left, m.right), (50, 50, 4, 50));
}

#[test]
fn button_looks() {
    let mut b = button("x", "x");
    assert!(label_overlaid(&b, false));
    assert!(!label_overlaid(&b, true));
    b.width = Some(0.5f32.to_bits());
    assert!(label_overlaid(&b, true));
    assert!(is_svg("icons/lock.svg"));
    assert!(is_svg(".svg"));
    assert!(!is_svg("lock.png"));
    assert!(!is_svg("svg"));
    assert_eq!(keybind_hint("l"), "[l]");
}

#[test]
fn key_finds_first_button() {
    let buttons = vec![button("lock", "l"), button("logout", "e"), button("other", "l")];
    assert_eq!(find_keybind(&buttons, &"l".to_string()), Some(0));
    assert_eq!(find_keybind(&buttons, &"e".to_string()), Some(1));
    assert_eq!(find_keybind(&buttons, &"q".to_string()), None);
}
