use vstd::prelude::*;

use crate::model::EpisodeStatus;
use crate::text::{byte_prefix, owned, prefix_of_bytes};

verus! {

// ---------------------------------------------------------------------------
// Moving through lists
// ---------------------------------------------------------------------------

/// The index `delta` steps from `current`, kept within a list of `len` items.
pub open spec fn moved_index(current: int, len: int, delta: int) -> int {
    if len <= 0 {
        0
    } else if current + delta < 0 {
        0
    } else if current + delta > len - 1 {
        len - 1
    } else {
        current + delta
    }
}

pub fn move_index(current: usize, len: usize, delta: isize) -> (r: usize)
    ensures
        r == moved_index(current as int, len as int, delta as int),
        len == 0 ==> r == 0,
        len > 0 ==> r < len,
{
    if len == 0 {
        return 0;
    }
    let last = len - 1;
    if delta < 0 {
        let magnitude: usize = (-(delta + 1)) as usize + 1;
        let moved = current.saturating_sub(magnitude);
        if moved < last {
            moved
        } else {
            last
        }
    } else {
        let moved = current.saturating_add(delta as usize);
        if moved < last {
            moved
        } else {
            last
        }
    }
}

// ---------------------------------------------------------------------------
// Text shown for records
// ---------------------------------------------------------------------------

/// The word the episode list shows for a status.
pub open spec fn status_word(status: EpisodeStatus) -> Seq<char> {
    match status {
        EpisodeStatus::Pending => "pending"@,
        EpisodeStatus::Downloaded => "downloaded"@,
        EpisodeStatus::SkippedInitial => "skipped"@,
        EpisodeStatus::Failed => "failed"@,
        EpisodeStatus::Deleted => "deleted"@,
    }
}

pub fn status_label(status: EpisodeStatus) -> (r: &'static str)
    ensures
        r@ == status_word(status),
{
    match status {
        EpisodeStatus::Pending => "pending",
        EpisodeStatus::Downloaded => "downloaded",
        EpisodeStatus::SkippedInitial => "skipped",
        EpisodeStatus::Failed => "failed",
        EpisodeStatus::Deleted => "deleted",
    }
}

/// The date part of a stored timestamp: its first ten bytes when they end on a character
/// boundary, else the whole text.
pub open spec fn short_date_of(value: Option<Seq<char>>) -> Option<Seq<char>> {
    match value {
        Some(v) => Some(
            match byte_prefix(v, 10) {
                Some(p) => p,
                None => v,
            },
        ),
        None => None,
    }
}

pub fn short_date(value: Option<&str>) -> (r: Option<String>)
    ensures
        r.deep_view() == short_date_of(match value {
            Some(v) => Some(v@),
            None => None,
        }),
{
    match value {
        Some(v) => match prefix_of_bytes(v, 10) {
            Some(p) => Some(p),
            None => Some(owned(v)),
        },
        None => None,
    }
}

// ---------------------------------------------------------------------------
// Screen areas and keys
// ---------------------------------------------------------------------------

/// A rectangle of terminal cells.
#[derive(Debug, Clone, Copy, PartialEq, Eq)]
pub struct Area {
    pub x: u16,
    pub y: u16,
    pub width: u16,
    pub height: u16,
}

/// `area` with `margin` cells taken off the left and right, unless it is too narrow for
/// that, in which case it stays as it is.
pub fn inset_horizontal(area: Area, margin: u16) -> (r: Area)
    requires
        area.x + margin <= u16::MAX,
    ensures
        area.width <= 2 * margin ==> r == area,
        area.width > 2 * margin ==> r.x == area.x + margin && r.width == area.width - 2 * margin
            && r.y == area.y && r.height == area.height,
{
    let doubled: u32 = (margin as u32) * 2;
    if (area.width as u32) <= doubled {
        area
    } else {
        Area { x: area.x + margin, y: area.y, width: area.width - margin * 2, height: area.height }
    }
}

/// The key of a key press, as far as the screens tell keys apart.
#[derive(Debug, Clone, Copy, PartialEq, Eq)]
pub enum KeyCode {
    Char(char),
    Enter,
    Esc,
    Backspace,
    Up,
    Down,
    Tab,
    BackTab,
    Other,
}

/// A key press as the terminal screens read it.
#[derive(Debug, Clone, Copy, PartialEq, Eq)]
pub struct KeyPress {
    pub code: KeyCode,
    pub control: bool,
    pub alt: bool,
    pub super_key: bool,
}

/// Ctrl-C ends the program.
pub fn is_quit_key(key: KeyPress) -> (r: bool)
    ensures
        r == (key.code == KeyCode::Char('c') && key.control),
{
    match key.code {
        KeyCode::Char(c) => c == 'c' && key.control,
        _ => false,
    }
}

/// A key goes into a text field unless Ctrl, Alt or Super is held.
pub fn is_text_input_key(key: KeyPress) -> (r: bool)
    ensures
        r == !(key.control || key.alt || key.super_key),
{
    !(key.control || key.alt || key.super_key)
}

} // verus!
