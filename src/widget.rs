use vstd::prelude::*;
use crate::error::NibbleError;

verus! {

/// A key, as the widgets tell keys apart.
#[derive(Debug, Clone, Copy, PartialEq, Eq, Structural)]
pub enum Key {
    Char(char),
    Enter,
    Esc,
    Tab,
    Left,
    Right,
    Home,
    End,
    Backspace,
    Delete,
    Other,
}

/// A key press, with whether Control was held.
#[derive(Debug, Clone, Copy, PartialEq, Eq, Structural)]
pub struct KeyPress {
    pub key: Key,
    pub ctrl: bool,
}

/// Whether a key closes a widget that only shows something: `q`, Escape or
/// Enter.
pub open spec fn closes(key: Key) -> bool {
    key == Key::Char('q') || key == Key::Esc || key == Key::Enter
}

pub fn closes_view(key: Key) -> (r: bool)
    ensures
        r == closes(key),
{
    match key {
        Key::Char(c) => c == 'q',
        Key::Esc => true,
        Key::Enter => true,
        _ => false,
    }
}

/// Refuses a viewport of no lines.
pub fn check_height(height: u16) -> (r: Result<(), NibbleError>)
    ensures
        height > 0 ==> r is Ok,
        height == 0 ==> (r matches Err(NibbleError::InvalidDimensions(m)) && m@
            == "Height must be greater than 0"@),
{
    if height == 0 {
        Err(NibbleError::InvalidDimensions(String::from_str("Height must be greater than 0")))
    } else {
        Ok(())
    }
}

/// A rectangle of terminal cells.
#[derive(Debug, Clone, Copy, PartialEq, Eq, Structural)]
pub struct Rect {
    pub x: u16,
    pub y: u16,
    pub width: u16,
    pub height: u16,
}

/// A rectangle that lies wholly on the addressable screen.
pub open spec fn on_screen(r: Rect) -> bool {
    r.x + r.width <= u16::MAX && r.y + r.height <= u16::MAX
}

pub open spec fn min_u16(a: u16, b: u16) -> u16 {
    if a < b {
        a
    } else {
        b
    }
}

/// `area` less `size`, or nothing where `size` is larger.
pub open spec fn room(area: u16, size: u16) -> int {
    if area > size {
        area - size
    } else {
        0
    }
}

/// A rectangle of the given size centred in `area`, cut to fit it.
pub fn centered_rect(area: Rect, width: u16, height: u16) -> (r: Rect)
    requires
        on_screen(area),
    ensures
        r.x == area.x + room(area.width, width) / 2,
        r.y == area.y + room(area.height, height) / 2,
        r.width == min_u16(width, area.width),
        r.height == min_u16(height, area.height),
        on_screen(r),
{
    let x = area.x + area.width.saturating_sub(width) / 2;
    let y = area.y + area.height.saturating_sub(height) / 2;
    Rect {
        x,
        y,
        width: if width < area.width {
            width
        } else {
            area.width
        },
        height: if height < area.height {
            height
        } else {
            area.height
        },
    }
}

} // verus!
