//! The menu's settings: their defaults, where the layout file is looked for,
//! which of its two formats is used, and how command-line options override it.
use crate::button::WButton;
use crate::cli_opt::{Args, ButtonLayout, Protocol};
use crate::grid::AspectRatio;
use vstd::prelude::*;
use vstd::string::{StrSliceExecFns, StringExecFns};

verus! {

/// All settings of the menu.
#[derive(Debug)]
pub struct AppConfig {
    pub margin_left: Option<i32>,
    pub margin_right: Option<i32>,
    pub margin_top: Option<i32>,
    pub margin_bottom: Option<i32>,
    pub margin: i32,
    pub column_spacing: u32,
    pub row_spacing: u32,
    pub button_aspect_ratio: Option<AspectRatio>,
    pub delay_command_ms: u32,
    pub protocol: Protocol,
    pub buttons_per_row: ButtonLayout,
    pub close_on_lost_focus: bool,
    pub buttons: Vec<WButton>,
    pub show_keybinds: bool,
    pub no_version_info: bool,
    pub css: Option<String>,
}

/// The margin around the buttons when none is given: 200 pixels.
pub fn default_margin() -> (r: i32)
    ensures
        r == 200,
{
    200
}

/// The space between rows and between columns when none is given: 8 pixels.
pub fn default_spacing() -> (r: u32)
    ensures
        r == 8,
{
    8
}

/// The delay between closing the menu and running a command when none is
/// given: 100 ms.
pub fn default_delay() -> (r: u32)
    ensures
        r == 100,
{
    100
}

/// The settings with every default and no button.
pub open spec fn is_default_config(c: AppConfig) -> bool {
    &&& c.margin_left is None
    &&& c.margin_right is None
    &&& c.margin_top is None
    &&& c.margin_bottom is None
    &&& c.margin == 200
    &&& c.column_spacing == 8
    &&& c.row_spacing == 8
    &&& c.button_aspect_ratio is None
    &&& c.delay_command_ms == 100
    &&& c.protocol == Protocol::LayerShell
    &&& c.buttons_per_row == ButtonLayout::PerRow(3)
    &&& !c.close_on_lost_focus
    &&& c.buttons@.len() == 0
    &&& !c.show_keybinds
    &&& !c.no_version_info
    &&& c.css is None
}

impl Default for AppConfig {
    fn default() -> (r: AppConfig)
        ensures
            is_default_config(r),
    {
        AppConfig {
            margin_left: None,
            margin_right: None,
            margin_top: None,
            margin_bottom: None,
            margin: default_margin(),
            column_spacing: default_spacing(),
            row_spacing: default_spacing(),
            button_aspect_ratio: None,
            delay_command_ms: default_delay(),
            protocol: Protocol::LayerShell,
            buttons_per_row: ButtonLayout::PerRow(3),
            close_on_lost_focus: false,
            buttons: Vec::new(),
            show_keybinds: false,
            no_version_info: false,
            css: None,
        }
    }
}

/// A layout or style file could not be found.
#[derive(Debug, PartialEq, Eq)]
pub enum SearchError {
    /// The file named on the command line is not a file.
    SpecifiedPathNotAFile(String),
    /// No directory of the search path holds the file.
    FileNotInSearchPath(String),
}

/// Accepts the file named on the command line if it is a file; `is_file`
/// tells whether it is.
pub fn file_search_given(file: String, is_file: bool) -> (r: Result<String, SearchError>)
    ensures
        is_file ==> r == Ok::<String, SearchError>(file),
        !is_file ==> r == Err::<String, SearchError>(SearchError::SpecifiedPathNotAFile(file)),
{
    if !is_file {
        return Err(SearchError::SpecifiedPathNotAFile(file));
    }
    Ok(file)
}

/// The path `name` inside the directory `base`: a `/` is put between them
/// unless `base` is empty or already ends with one.
pub open spec fn joined(base: Seq<char>, name: Seq<char>) -> Seq<char> {
    if base.len() == 0 || base.last() == '/' {
        base + name
    } else {
        base + seq!['/'] + name
    }
}

/// Joins the relative path `name` to the directory `base`.
pub fn join_path(base: &str, name: &str) -> (r: String)
    ensures
        r@ == joined(base@, name@),
{
    let mut out = String::from_str(base);
    let n = base.unicode_len();
    if n > 0 && base.get_char(n - 1) != '/' {
        proof {
            reveal_strlit("/");
        }
        out.append("/");
    }
    out.append(name);
    out
}

/// The user's configuration directory: the platform's one when known, else
/// `.config` in the home directory when that is known, else `~/.config`.
pub open spec fn user_config_dir_of(config_dir: Option<String>, home_dir: Option<String>) -> Seq<
    char,
> {
    match config_dir {
        Some(d) => d@,
        None => match home_dir {
            Some(h) => joined(h@, ".config"@),
            None => "~/.config"@,
        },
    }
}

/// Picks the user's configuration directory from what the platform reports.
pub fn user_config_dir(config_dir: Option<String>, home_dir: Option<String>) -> (r: String)
    ensures
        r@ == user_config_dir_of(config_dir, home_dir),
{
    match config_dir {
        Some(d) => d,
        None => match home_dir {
            Some(h) => join_path(h.as_str(), ".config"),
            None => String::from_str("~/.config"),
        },
    }
}

/// The directories searched for a layout or style file, in order.
pub open spec fn search_dirs_of(user_dir: Seq<char>) -> Seq<Seq<char>> {
    seq![
        joined(user_dir, "wleave"@),
        joined(user_dir, "wlogout"@),
        "/etc/wleave"@,
        "/etc/wlogout"@,
        "/usr/local/etc/wleave"@,
        "/usr/local/etc/wlogout"@,
    ]
}

/// Lists the directories searched for a layout or style file, in order.
pub fn search_dirs(user_dir: &str) -> (r: Vec<String>)
    ensures
        r@.map_values(|s: String| s@) == search_dirs_of(user_dir@),
{
    let mut v: Vec<String> = Vec::new();
    v.push(join_path(user_dir, "wleave"));
    v.push(join_path(user_dir, "wlogout"));
    v.push(String::from_str("/etc/wleave"));
    v.push(String::from_str("/etc/wlogout"));
    v.push(String::from_str("/usr/local/etc/wleave"));
    v.push(String::from_str("/usr/local/etc/wlogout"));
    assert(v@.map_values(|s: String| s@) =~= search_dirs_of(user_dir@));
    v
}

/// The index of the first candidate that exists, if any.
pub open spec fn first_found(found: Seq<bool>) -> Option<int>
    decreases found.len(),
{
    if found.len() == 0 {
        None
    } else {
        match first_found(found.drop_last()) {
            Some(i) => Some(i),
            None => if found.last() {
                Some(found.len() - 1)
            } else {
                None
            },
        }
    }
}

/// Picks the first of the `candidates` paths that is a file (`found` tells
/// which are), or reports that `file_name` is nowhere in the search path.
pub fn file_search_path(candidates: &Vec<String>, found: &Vec<bool>, file_name: String) -> (r:
    Result<String, SearchError>)
    requires
        candidates.len() == found.len(),
    ensures
        match first_found(found@) {
            Some(i) => r == Ok::<String, SearchError>(candidates@[i]),
            None => r == Err::<String, SearchError>(SearchError::FileNotInSearchPath(file_name)),
        },
{
    let mut i: usize = 0;
    while i < found.len()
        invariant
            i <= found.len(),
            candidates.len() == found.len(),
            first_found(found@.take(i as int)) is None,
        decreases found.len() - i,
    {
        assert(found@.take(i + 1).drop_last() =~= found@.take(i as int));
        if found[i] {
            proof {
                lemma_first_found_prefix(found@, i + 1);
            }
            return Ok(candidates[i].clone());
        }
        i = i + 1;
    }
    assert(found@.take(i as int) =~= found@);
    Err(SearchError::FileNotInSearchPath(file_name))
}

proof fn lemma_first_found_prefix(s: Seq<bool>, i: int)
    requires
        0 <= i <= s.len(),
        first_found(s.take(i)) is Some,
    ensures
        first_found(s) == first_found(s.take(i)),
    decreases s.len() - i,
{
    if i < s.len() {
        assert(s.take(i + 1).drop_last() =~= s.take(i));
        lemma_first_found_prefix(s, i + 1);
    } else {
        assert(s.take(i) =~= s);
    }
}

/// Chooses between the two readings of a layout file: the current format
/// when it parses; else the older format, a bare list of buttons, with every
/// other setting at its default; else the current format's error.
pub fn select_config<E>(current: Result<AppConfig, E>, legacy: Result<Vec<WButton>, E>) -> (r:
    Result<AppConfig, E>)
    ensures
        current is Ok ==> r == current,
        current is Err && legacy is Ok ==> (r matches Ok(c) && is_default_config_but_buttons(c)
            && c.buttons == legacy->Ok_0),
        current is Err && legacy is Err ==> r == current,
{
    match current {
        Ok(c) => Ok(c),
        Err(e) => match legacy {
            Ok(buttons) => {
                let mut c = AppConfig::default();
                c.buttons = buttons;
                Ok(c)
            },
            Err(_) => Err(e),
        },
    }
}

/// Every setting but the buttons is at its default.
pub open spec fn is_default_config_but_buttons(c: AppConfig) -> bool {
    &&& c.margin_left is None
    &&& c.margin_right is None
    &&& c.margin_top is None
    &&& c.margin_bottom is None
    &&& c.margin == 200
    &&& c.column_spacing == 8
    &&& c.row_spacing == 8
    &&& c.button_aspect_ratio is None
    &&& c.delay_command_ms == 100
    &&& c.protocol == Protocol::LayerShell
    &&& c.buttons_per_row == ButtonLayout::PerRow(3)
    &&& !c.close_on_lost_focus
    &&& !c.show_keybinds
    &&& !c.no_version_info
    &&& c.css is None
}

/// `o` when it is given, else `v`.
pub open spec fn or_keep<T>(o: Option<T>, v: T) -> T {
    match o {
        Some(x) => x,
        None => v,
    }
}

/// `o` when it is given, else `v`, for a setting that may be absent.
pub open spec fn or_keep_opt<T>(o: Option<T>, v: Option<T>) -> Option<T> {
    match o {
        Some(x) => Some(x),
        None => v,
    }
}

/// Each option given on the command line replaces the setting of the same
/// name; the buttons stay as they are.
pub open spec fn merged(c: AppConfig, a: Args) -> AppConfig {
    AppConfig {
        margin_left: or_keep_opt(a.margin_left, c.margin_left),
        margin_right: or_keep_opt(a.margin_right, c.margin_right),
        margin_top: or_keep_opt(a.margin_top, c.margin_top),
        margin_bottom: or_keep_opt(a.margin_bottom, c.margin_bottom),
        margin: or_keep(a.margin, c.margin),
        column_spacing: or_keep(a.column_spacing, c.column_spacing),
        row_spacing: or_keep(a.row_spacing, c.row_spacing),
        button_aspect_ratio: or_keep_opt(a.button_aspect_ratio, c.button_aspect_ratio),
        delay_command_ms: or_keep(a.delay_command_ms, c.delay_command_ms),
        protocol: or_keep(a.protocol, c.protocol),
        buttons_per_row: or_keep(a.buttons_per_row, c.buttons_per_row),
        close_on_lost_focus: or_keep(a.close_on_lost_focus, c.close_on_lost_focus),
        buttons: c.buttons,
        show_keybinds: or_keep(a.show_keybinds, c.show_keybinds),
        no_version_info: or_keep(a.no_version_info, c.no_version_info),
        css: or_keep_opt(a.css, c.css),
    }
}

/// `o` when it is given, else `v`.
fn pick<T: Copy>(o: Option<T>, v: T) -> (r: T)
    ensures
        r == or_keep(o, v),
{
    match o {
        Some(x) => x,
        None => v,
    }
}

/// `o` when it is given, else `v`.
fn pick_opt<T: Copy>(o: Option<T>, v: Option<T>) -> (r: Option<T>)
    ensures
        r == or_keep_opt(o, v),
{
    match o {
        Some(x) => Some(x),
        None => v,
    }
}

/// Lets the command-line options override the settings read from the file.
pub fn merge_with_args(config: &mut AppConfig, args: &Args)
    ensures
        *final(config) == merged(*old(config), *args),
{
    config.margin_top = pick_opt(args.margin_top, config.margin_top);
    config.margin_bottom = pick_opt(args.margin_bottom, config.margin_bottom);
    config.margin_left = pick_opt(args.margin_left, config.margin_left);
    config.margin_right = pick_opt(args.margin_right, config.margin_right);
    config.margin = pick(args.margin, config.margin);
    config.protocol = pick(args.protocol, config.protocol);
    config.column_spacing = pick(args.column_spacing, config.column_spacing);
    config.row_spacing = pick(args.row_spacing, config.row_spacing);
    config.button_aspect_ratio = pick_opt(args.button_aspect_ratio, config.button_aspect_ratio);
    config.show_keybinds = pick(args.show_keybinds, config.show_keybinds);
    config.close_on_lost_focus = pick(args.close_on_lost_focus, config.close_on_lost_focus);
    config.buttons_per_row = pick(args.buttons_per_row, config.buttons_per_row);
    config.no_version_info = pick(args.no_version_info, config.no_version_info);
    config.delay_command_ms = pick(args.delay_command_ms, config.delay_command_ms);
    if let Some(css) = &args.css {
        config.css = Some(css.clone());
    }
}

} // verus!
