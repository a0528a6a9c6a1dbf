//! The logic of an on-screen action menu.
//!
//! At its core is an adaptive grid layout: given a box and a number of tiles it
//! picks rows, columns and a tile size that make every tile as large as it can
//! be, keeping spacing and an optional tile aspect ratio, and centres the grid
//! in the box (`grid`, `placement`, `measure`). Around it sit the menu's
//! settings: command-line options, the layout file's defaults and the rules
//! that combine them (`cli_opt`, `button`, `config`, `menu`, `text`).
use vstd::prelude::*;

pub mod button;
pub mod cli_opt;
pub mod config;
pub mod grid;
pub mod measure;
pub mod menu;
pub mod placement;
pub mod text;

verus! {

} // verus!
