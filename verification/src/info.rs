//! The information screen: its layout by terminal height, and its text.

use vstd::prelude::*;
use vstd::string::StringExecFns;

verus! {

/// How much room a terminal of some height gives.
#[derive(Clone, Copy, Debug, PartialEq, Eq, Structural)]
pub enum ScreenSize {
    Small,
    Medium,
    Large,
}

/// Up to 24 rows are small, up to 32 medium, more are large.
pub open spec fn size_of_height(height: u16) -> ScreenSize {
    if height <= 24 {
        ScreenSize::Small
    } else if height <= 32 {
        ScreenSize::Medium
    } else {
        ScreenSize::Large
    }
}

/// The margin round the information screen.
pub open spec fn info_margin(size: ScreenSize) -> u16 {
    match size {
        ScreenSize::Small => 1,
        ScreenSize::Medium => 3,
        ScreenSize::Large => 5,
    }
}

/// The rows of the information screen, in percent of the height.
pub open spec fn info_bounds(size: ScreenSize) -> [u16; 4] {
    match size {
        ScreenSize::Small => [0, 50, 10, 40],
        ScreenSize::Medium => [15, 45, 10, 30],
        ScreenSize::Large => [20, 40, 10, 30],
    }
}

/// The room that a terminal of this height gives.
pub fn screen_size(height: u16) -> (size: ScreenSize)
    ensures
        size == size_of_height(height),
{
    if height <= 24 {
        ScreenSize::Small
    } else if height <= 32 {
        ScreenSize::Medium
    } else {
        ScreenSize::Large
    }
}

/// The rows of the information screen for a terminal of this height.
pub fn get_info_bounds(height: u16) -> (bounds: [u16; 4])
    ensures
        bounds == info_bounds(size_of_height(height)),
{
    match screen_size(height) {
        ScreenSize::Small => [0, 50, 10, 40],
        ScreenSize::Medium => [15, 45, 10, 30],
        ScreenSize::Large => [20, 40, 10, 30],
    }
}

/// The margin of the information screen for a terminal of this height.
pub fn get_info_margin(height: u16) -> (margin: u16)
    ensures
        margin == info_margin(size_of_height(height)),
{
    match screen_size(height) {
        ScreenSize::Small => 1,
        ScreenSize::Medium => 3,
        ScreenSize::Large => 5,
    }
}

/// Whether the version was built from changed sources; released versions
/// never are.
pub fn dirty_commit(_unused: &str) -> (dirty: bool)
    ensures
        !dirty,
{
    false
}

/// The line that names the version.
pub fn get_version_string(raw_version: &str) -> (line: String)
    ensures
        line@ == " - version "@ + raw_version@ + "\n"@,
{
    let mut line = " - version ".to_owned();
    line.append(raw_version);
    line.append("\n");
    line
}

} // verus!
