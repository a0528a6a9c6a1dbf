//! Decisions made while building the menu and while handling keys.
use crate::button::WButton;
use crate::cli_opt::ButtonLayout;
use crate::config::AppConfig;
use vstd::prelude::*;
use vstd::string::{StrSliceExecFns, StringExecFns};

verus! {

/// Buttons in one row for `count` buttons: the fixed number, or for the ratio
/// `n / d` the value `count * n / min(d, count * n)`.
pub open spec fn per_row(layout: ButtonLayout, count: int) -> int {
    match layout {
        ButtonLayout::PerRow(n) => n as int,
        ButtonLayout::RowRatio(n, d) => {
            let total = count * n;
            total / if d < total {
                d as int
            } else {
                total
            }
        },
    }
}

/// How many buttons go in one row of the menu.
pub fn buttons_per_row(layout: ButtonLayout, count: u32) -> (r: u64)
    requires
        layout matches ButtonLayout::RowRatio(n, d) ==> count > 0 && n > 0 && d > 0,
    ensures
        r == per_row(layout, count as int),
{
    match layout {
        ButtonLayout::PerRow(n) => n as u64,
        ButtonLayout::RowRatio(n, d) => {
            proof {
                assert(count as int * n as int > 0) by (nonlinear_arith)
                    requires
                        count > 0,
                        n > 0,
                ;
                assert(count as int * n as int <= 0xFFFF_FFFF * 0xFFFF_FFFF) by (nonlinear_arith)
                    requires
                        count <= 0xFFFF_FFFF,
                        n <= 0xFFFF_FFFF,
                ;
            }
            let total: u64 = count as u64 * n as u64;
            let div: u64 = if (d as u64) < total {
                d as u64
            } else {
                total
            };
            total / div
        },
    }
}

/// The column and row of button `i` when `per_row` buttons fill each row.
pub fn grid_position(i: u64, per_row: u64) -> (r: (u64, u64))
    requires
        per_row > 0,
    ensures
        r == (i % per_row, i / per_row),
{
    (i % per_row, i / per_row)
}

/// How the text of a button is justified.
#[derive(Clone, Copy, Debug, PartialEq, Eq)]
pub enum Justification {
    Center,
    Fill,
    Left,
    Right,
}

/// The justification that `s` names; anything unknown centres.
pub open spec fn justification_of(s: Seq<char>) -> Justification {
    if s == "fill"@ {
        Justification::Fill
    } else if s == "left"@ {
        Justification::Left
    } else if s == "right"@ {
        Justification::Right
    } else {
        Justification::Center
    }
}

/// Reads a button's justification.
pub fn justification(s: &String) -> (r: Justification)
    ensures
        r == justification_of(s@),
{
    if *s == String::from_str("fill") {
        Justification::Fill
    } else if *s == String::from_str("left") {
        Justification::Left
    } else if *s == String::from_str("right") {
        Justification::Right
    } else {
        Justification::Center
    }
}

/// The margins around the buttons, in pixels.
#[derive(Clone, Copy, Debug, PartialEq, Eq)]
pub struct Margins {
    pub top: i32,
    pub bottom: i32,
    pub left: i32,
    pub right: i32,
}

/// Each side's own margin when set, else the common margin.
pub fn margins(config: &AppConfig) -> (r: Margins)
    ensures
        r.top == (match config.margin_top {
            Some(m) => m,
            None => config.margin,
        }),
        r.bottom == (match config.margin_bottom {
            Some(m) => m,
            None => config.margin,
        }),
        r.left == (match config.margin_left {
            Some(m) => m,
            None => config.margin,
        }),
        r.right == (match config.margin_right {
            Some(m) => m,
            None => config.margin,
        }),
{
    Margins {
        top: match config.margin_top {
            Some(m) => m,
            None => config.margin,
        },
        bottom: match config.margin_bottom {
            Some(m) => m,
            None => config.margin,
        },
        left: match config.margin_left {
            Some(m) => m,
            None => config.margin,
        },
        right: match config.margin_right {
            Some(m) => m,
            None => config.margin,
        },
    }
}

/// The label floats over the button, placed by its alignments, when the
/// button gives an alignment or has no picture; else it sits below the
/// picture.
pub fn label_overlaid(button: &WButton, has_picture: bool) -> (r: bool)
    ensures
        r == (button.width is Some || button.height is Some || !has_picture),
{
    button.width.is_some() || button.height.is_some() || !has_picture
}

/// The icon is an SVG file, drawn in the text colour: its name ends in `.svg`.
pub fn is_svg(icon: &str) -> (r: bool)
    ensures
        r == (icon@.len() >= 4 && icon@.subrange(icon@.len() - 4, icon@.len() as int)
            == ".svg"@),
{
    proof {
        reveal_strlit(".svg");
    }
    let n = icon.unicode_len();
    if n < 4 {
        return false;
    }
    let r = icon.get_char(n - 4) == '.' && icon.get_char(n - 3) == 's' && icon.get_char(n - 2)
        == 'v' && icon.get_char(n - 1) == 'g';
    assert(r ==> icon@.subrange(n - 4, n as int) =~= ".svg"@);
    assert(icon@.subrange(n - 4, n as int) == ".svg"@ ==> icon@.subrange(n - 4, n as int)[0]
        == '.' && icon@.subrange(n - 4, n as int)[1] == 's' && icon@.subrange(n - 4, n as int)[2]
        == 'v' && icon@.subrange(n - 4, n as int)[3] == 'g');
    r
}

/// The index of the first button whose key is `key`, if any.
pub open spec fn button_for_key(buttons: Seq<WButton>, key: Seq<char>) -> Option<int>
    decreases buttons.len(),
{
    if buttons.len() == 0 {
        None
    } else {
        match button_for_key(buttons.drop_last(), key) {
            Some(i) => Some(i),
            None => if buttons.last().keybind@ == key {
                Some(buttons.len() - 1)
            } else {
                None
            },
        }
    }
}

proof fn lemma_button_for_key_prefix(s: Seq<WButton>, key: Seq<char>, i: int)
    requires
        0 <= i <= s.len(),
        button_for_key(s.take(i), key) is Some,
    ensures
        button_for_key(s, key) == button_for_key(s.take(i), key),
    decreases s.len() - i,
{
    if i < s.len() {
        assert(s.take(i + 1).drop_last() =~= s.take(i));
        lemma_button_for_key_prefix(s, key, i + 1);
    } else {
        assert(s.take(i) =~= s);
    }
}

/// Finds the button that the key named `key` triggers.
pub fn find_keybind(buttons: &Vec<WButton>, key: &String) -> (r: Option<usize>)
    ensures
        r matches Some(i) ==> button_for_key(buttons@, key@) == Some(i as int),
        r is None ==> button_for_key(buttons@, key@) is None,
{
    let mut i: usize = 0;
    while i < buttons.len()
        invariant
            i <= buttons.len(),
            button_for_key(buttons@.take(i as int), key@) is None,
        decreases buttons.len() - i,
    {
        assert(buttons@.take(i + 1).drop_last() =~= buttons@.take(i as int));
        if buttons[i].keybind == *key {
            proof {
                lemma_button_for_key_prefix(buttons@, key@, i + 1);
            }
            return Some(i);
        }
        i = i + 1;
    }
    assert(buttons@.take(i as int) =~= buttons@);
    None
}

/// The hint shown on a button for its key: the key in brackets.
pub fn keybind_hint(keybind: &str) -> (r: String)
    ensures
        r@ == "["@ + keybind@ + "]"@,
{
    let mut out = String::from_str("[");
    out.append(keybind);
    out.append("]");
    out
}

} // verus!
