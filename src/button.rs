//! One button of the menu, as the layout file describes it.
use vstd::prelude::*;
use vstd::string::StringExecFns;

verus! {

/// A button: its name, the command it runs, its text, its key and looks.
#[derive(Debug)]
pub struct WButton {
    pub label: String,
    pub action: String,
    pub text: String,
    pub keybind: String,
    pub justify: String,
    /// The bits (IEEE 754) of the text's horizontal alignment, when given.
    /// The library only tells whether it is there; the toolkit reads it.
    pub width: Option<u32>,
    /// The bits (IEEE 754) of the text's vertical alignment, when given.
    pub height: Option<u32>,
    pub circular: bool,
    pub icon: Option<String>,
}

/// The text justification of a button that names none: `center`.
pub fn default_justify() -> (r: String)
    ensures
        r@ == "center"@,
{
    String::from_str("center")
}

/// Buttons are not circular unless the layout says so.
pub fn default_circular() -> (r: bool)
    ensures
        r == false,
{
    false
}

} // verus!
