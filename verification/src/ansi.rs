//! ANSI SGR codes of the styles the tool uses.

use vstd::prelude::*;

verus! {

pub const BOLD: &'static str = "1";
pub const CYAN: &'static str = "36";
pub const BOLD_CYAN: &'static str = "1;36";
pub const BOLD_GREEN: &'static str = "1;32";
pub const BOLD_YELLOW: &'static str = "1;33";
pub const DIM_WHITE: &'static str = "2;37";
pub const RED: &'static str = "31";
pub const GREEN: &'static str = "32";
pub const YELLOW: &'static str = "33";

} // verus!
