use vstd::prelude::*;
use crate::error::NibbleError;
use crate::style::{color_opt_of, color_of, parse_color, unknown_color_msg, Color, StyleConfig};
use crate::text::{decimal, decimal_string};
use crate::widget::{check_height, closes, Key};

verus! {

/// The options of the gauge widget.
#[derive(Debug, Clone)]
pub struct GaugeArgs {
    /// The percentage that the gauge fills up to.
    pub value: u16,
    pub label: String,
    pub title: String,
    pub height: u16,
    /// Milliseconds between two steps of the animation.
    pub time: u64,
    /// Show the value as a percentage rather than out of 100.
    pub percentage: bool,
    pub style: StyleConfig,
}

impl GaugeArgs {
    /// Checks the options: a height of at least one line, a value of at most
    /// 100 and a step time above zero.
    pub fn validate(&self) -> (r: Result<(), NibbleError>)
        ensures
            self.height == 0 ==> (r matches Err(NibbleError::InvalidDimensions(m)) && m@
                == "Height must be greater than 0"@),
            self.height > 0 && self.value > 100 ==> (r matches Err(
                NibbleError::InvalidDimensions(m),
            ) && m@ == "Value must be between 0 and 100"@),
            self.height > 0 && self.value <= 100 && self.time == 0 ==> (r matches Err(
                NibbleError::InvalidDimensions(m),
            ) && m@ == "Time must be greater than 0"@),
            self.height > 0 && self.value <= 100 && self.time > 0 ==> r is Ok,
    {
        if let Err(e) = check_height(self.height) {
            return Err(e);
        }
        if self.value > 100 {
            return Err(
                NibbleError::InvalidDimensions(String::from_str("Value must be between 0 and 100")),
            );
        }
        if self.time == 0 {
            return Err(
                NibbleError::InvalidDimensions(String::from_str("Time must be greater than 0")),
            );
        }
        Ok(())
    }
}

/// The value one step of the animation later: one more, up to the target.
pub fn next_value(current: u16, target: u16) -> (r: u16)
    ensures
        r == if current + 1 < target {
            current + 1
        } else {
            target as int
        },
{
    if current >= target {
        target
    } else {
        current + 1
    }
}

/// Whether a key ends the gauge: while it fills, `q` or Escape; once full,
/// also Enter.
pub fn gauge_quits(current: u16, target: u16, key: Key) -> (r: bool)
    ensures
        current >= target ==> r == closes(key),
        current < target ==> r == (key == Key::Char('q') || key == Key::Esc),
{
    match key {
        Key::Char(c) => c == 'q',
        Key::Esc => true,
        Key::Enter => current >= target,
        _ => false,
    }
}

/// The text on the gauge: the label, if any, then the value as a percentage
/// or out of 100.
pub open spec fn gauge_label_of(label: Seq<char>, percentage: bool, current: nat) -> Seq<char> {
    let v = if percentage {
        decimal(current) + "%"@
    } else {
        decimal(current) + "/100"@
    };
    if label.len() == 0 {
        v
    } else {
        label + " "@ + v
    }
}

pub fn gauge_label(label: &str, percentage: bool, current: u16) -> (r: String)
    ensures
        r@ == gauge_label_of(label@, percentage, current as nat),
{
    let d = decimal_string(current as u128);
    let v = if percentage {
        d.concat("%")
    } else {
        d.concat("/100")
    };
    if label.unicode_len() == 0 {
        v
    } else {
        String::from_str(label).concat(" ").concat(v.as_str())
    }
}

/// The colour that a gauge fills with, by default cyan.
pub open spec fn gauge_color_of(c: StyleConfig) -> Option<Color> {
    if c.fg is Some {
        color_opt_of(c.fg)
    } else if c.border_color is Some {
        color_opt_of(c.border_color)
    } else {
        Some(Color::Cyan)
    }
}

/// The colour of the gauge: the foreground colour, else the border colour,
/// else cyan.
pub fn gauge_color(style: &StyleConfig) -> (r: Result<Color, NibbleError>)
    ensures
        gauge_color_of(*style) matches Some(c) ==> r == Ok::<Color, NibbleError>(c),
        style.fg is Some && color_of(style.fg->Some_0@) is None ==> (r matches Err(
            NibbleError::InvalidColor(m),
        ) && m@ == unknown_color_msg(style.fg->Some_0@)),
        style.fg is None && style.border_color is Some && color_of(style.border_color->Some_0@)
            is None ==> (r matches Err(NibbleError::InvalidColor(m)) && m@ == unknown_color_msg(
            style.border_color->Some_0@,
        )),
{
    if let Some(c) = &style.fg {
        parse_color(c.as_str())
    } else if let Some(c) = &style.border_color {
        parse_color(c.as_str())
    } else {
        Ok(Color::Cyan)
    }
}

/// A text colour that stands out on a fill of colour `c`.
pub open spec fn inverted(c: Color) -> Color {
    match c {
        Color::White | Color::LightRed | Color::LightGreen | Color::LightBlue | Color::LightYellow
        | Color::LightCyan | Color::LightMagenta => Color::Black,
        Color::Black | Color::DarkGray => Color::White,
        Color::Red | Color::Blue | Color::Magenta => Color::White,
        Color::Green | Color::Yellow | Color::Cyan | Color::Gray => Color::Black,
    }
}

/// A text colour that stands out on a fill of colour `color`: black on light
/// colours, white on dark ones.
pub fn invert_color(color: Color) -> (r: Color)
    ensures
        r == inverted(color),
{
    match color {
        Color::White | Color::LightRed | Color::LightGreen | Color::LightBlue | Color::LightYellow
        | Color::LightCyan | Color::LightMagenta => Color::Black,
        Color::Black | Color::DarkGray => Color::White,
        Color::Red => Color::White,
        Color::Green => Color::Black,
        Color::Blue => Color::White,
        Color::Yellow => Color::Black,
        Color::Cyan => Color::Black,
        Color::Magenta => Color::White,
        Color::Gray => Color::Black,
    }
}

} // verus!
