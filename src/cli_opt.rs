//! Command-line options and the values they take.
use crate::grid::AspectRatio;
use crate::text::{
    decimal, find_slash, first_slash, parse_nonzero_u32, parses_u32, push_decimal, u32_value,
};
use vstd::prelude::*;
use vstd::string::{StrSliceExecFns, StringExecFns};

verus! {

/// How the menu window is put on screen.
#[derive(Clone, Copy, Debug, PartialEq, Eq)]
pub enum Protocol {
    /// An overlay surface anchored to every edge of the output.
    LayerShell,
    /// An ordinary fullscreen window.
    Xdg,
}

impl Default for Protocol {
    fn default() -> (r: Protocol)
        ensures
            r == Protocol::LayerShell,
    {
        Protocol::LayerShell
    }
}

/// How many buttons go in a row: a fixed number, or the ratio `n / d` of the
/// button count spread over rows.
#[derive(Clone, Copy, Debug, PartialEq, Eq)]
pub enum ButtonLayout {
    PerRow(u32),
    RowRatio(u32, u32),
}

impl Default for ButtonLayout {
    fn default() -> (r: ButtonLayout)
        ensures
            r == ButtonLayout::PerRow(3),
    {
        ButtonLayout::PerRow(3)
    }
}

/// The text is neither a positive number nor a ratio of two.
#[derive(Clone, Copy, Debug, PartialEq, Eq)]
pub struct ValueParseError;

impl ValueParseError {
    /// What went wrong, for the user.
    pub fn message(&self) -> (r: &'static str)
        ensures
            r@ == "Value neither a number (1, 2, 3) nor a ratio (1/1, 2/3, ...)"@,
    {
        "Value neither a number (1, 2, 3) nor a ratio (1/1, 2/3, ...)"
    }
}

/// `s` is a positive number that fits in `u32`.
pub open spec fn is_positive_u32(s: Seq<char>) -> bool {
    parses_u32(s) && u32_value(s) != 0
}

/// Reads `s` as a positive number `v`, giving `Some((v, None))`, or as a ratio
/// `n/d` of two positive numbers split at the first `/`, giving
/// `Some((n, Some(d)))`; `None` for anything else.
pub open spec fn number_or_ratio(s: Seq<char>) -> Option<(u32, Option<u32>)> {
    if is_positive_u32(s) {
        Some((u32_value(s) as u32, None))
    } else {
        match first_slash(s) {
            Some(k) => {
                let a = s.subrange(0, k);
                let b = s.subrange(k + 1, s.len() as int);
                if is_positive_u32(a) && is_positive_u32(b) {
                    Some((u32_value(a) as u32, Some(u32_value(b) as u32)))
                } else {
                    None
                }
            },
            None => None,
        }
    }
}

/// Reads a positive number or a ratio of two positive numbers.
fn parse_number_or_ratio(s: &str) -> (r: Option<(u32, Option<u32>)>)
    ensures
        r == number_or_ratio(s@),
        r matches Some((n, d)) ==> n > 0 && (d matches Some(x) ==> x > 0),
{
    let len = s.unicode_len();
    if let Some(v) = parse_nonzero_u32(s, 0, len) {
        assert(s@.subrange(0, len as int) =~= s@);
        return Some((v, None));
    }
    assert(s@.subrange(0, len as int) =~= s@);
    match find_slash(s) {
        Some(k) => {
            let n = parse_nonzero_u32(s, 0, k);
            let d = parse_nonzero_u32(s, k + 1, len);
            match (n, d) {
                (Some(n), Some(d)) => Some((n, Some(d))),
                _ => None,
            }
        },
        None => None,
    }
}

/// The layout that `s` names, if any.
pub open spec fn layout_from(s: Seq<char>) -> Option<ButtonLayout> {
    match number_or_ratio(s) {
        Some((n, None)) => Some(ButtonLayout::PerRow(n)),
        Some((n, Some(d))) => Some(ButtonLayout::RowRatio(n, d)),
        None => None,
    }
}

/// The text of a layout: `r`, or `n/d`.
pub open spec fn layout_text(l: ButtonLayout) -> Seq<char> {
    match l {
        ButtonLayout::PerRow(r) => decimal(r as nat),
        ButtonLayout::RowRatio(n, d) => decimal(n as nat) + seq!['/'] + decimal(d as nat),
    }
}

impl ButtonLayout {
    /// Reads a number of buttons per row (`"3"`) or a ratio (`"1/5"`); both
    /// terms must be positive.
    pub fn parse(s: &str) -> (r: Result<ButtonLayout, ValueParseError>)
        ensures
            r is Ok <==> layout_from(s@) is Some,
            r matches Ok(l) ==> layout_from(s@) == Some(l),
    {
        match parse_number_or_ratio(s) {
            Some((n, None)) => Ok(ButtonLayout::PerRow(n)),
            Some((n, Some(d))) => Ok(ButtonLayout::RowRatio(n, d)),
            None => Err(ValueParseError),
        }
    }

    /// The layout as it is written: `r`, or `n/d`.
    pub fn to_string(&self) -> (r: String)
        ensures
            r@ == layout_text(*self),
    {
        let mut out = String::new();
        match *self {
            ButtonLayout::PerRow(r) => push_decimal(&mut out, r),
            ButtonLayout::RowRatio(n, d) => {
                push_decimal(&mut out, n);
                proof {
                    reveal_strlit("/");
                }
                out.append("/");
                push_decimal(&mut out, d);
            },
        }
        out
    }
}

impl std::str::FromStr for ButtonLayout {
    type Err = ValueParseError;

    fn from_str(s: &str) -> Result<ButtonLayout, ValueParseError> {
        ButtonLayout::parse(s)
    }
}

/// The aspect ratio that `s` names: `w` for `w/1`, or `w/h`.
pub open spec fn ratio_from(s: Seq<char>) -> Option<AspectRatio> {
    match number_or_ratio(s) {
        Some((n, None)) => Some(AspectRatio { num: n, den: 1 }),
        Some((n, Some(d))) => Some(AspectRatio { num: n, den: d }),
        None => None,
    }
}

impl AspectRatio {
    /// Reads a tile aspect ratio written as `w/h` (`"16/9"`) or as a whole
    /// number `w` meaning `w/1`; both terms must be positive.
    pub fn parse(s: &str) -> (r: Result<AspectRatio, ValueParseError>)
        ensures
            r is Ok <==> ratio_from(s@) is Some,
            r matches Ok(a) ==> ratio_from(s@) == Some(a) && a.wf(),
    {
        match parse_number_or_ratio(s) {
            Some((n, None)) => Ok(AspectRatio { num: n, den: 1 }),
            Some((n, Some(d))) => Ok(AspectRatio { num: n, den: d }),
            None => Err(ValueParseError),
        }
    }

    /// The ratio as it is written: `w/h`.
    pub fn to_string(&self) -> (r: String)
        ensures
            r@ == decimal(self.num as nat) + seq!['/'] + decimal(self.den as nat),
    {
        let mut out = String::new();
        push_decimal(&mut out, self.num);
        proof {
            reveal_strlit("/");
        }
        out.append("/");
        push_decimal(&mut out, self.den);
        out
    }
}

/// The options given on the command line; each one left out is `None`.
#[derive(Debug)]
pub struct Args {
    pub version: Option<bool>,
    /// A layout file; `-` reads the layout from standard input.
    pub layout: Option<String>,
    pub css: Option<String>,
    pub buttons_per_row: Option<ButtonLayout>,
    pub column_spacing: Option<u32>,
    pub row_spacing: Option<u32>,
    pub margin: Option<i32>,
    pub margin_left: Option<i32>,
    pub margin_right: Option<i32>,
    pub margin_top: Option<i32>,
    pub margin_bottom: Option<i32>,
    pub button_aspect_ratio: Option<AspectRatio>,
    pub delay_command_ms: Option<u32>,
    pub close_on_lost_focus: Option<bool>,
    pub show_keybinds: Option<bool>,
    pub protocol: Option<Protocol>,
    pub no_version_info: Option<bool>,
}

} // verus!
