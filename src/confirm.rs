use vstd::prelude::*;
use crate::error::NibbleError;
use crate::style::{Modifier, Style, StyleConfig};
use crate::widget::{check_height, on_screen, room, Key, KeyPress, Rect};

verus! {

/// The options of the confirmation widget.
#[derive(Debug, Clone)]
pub struct ConfirmArgs {
    pub text: String,
    pub affirmative: String,
    pub negative: String,
    pub height: u16,
    /// Select the negative button at first.
    pub default_no: bool,
    pub style: StyleConfig,
}

impl ConfirmArgs {
    /// Checks the options: a height of at least one line.
    pub fn validate(&self) -> (r: Result<(), NibbleError>)
        ensures
            self.height > 0 ==> r is Ok,
            self.height == 0 ==> (r matches Err(NibbleError::InvalidDimensions(m)) && m@
                == "Height must be greater than 0"@),
    {
        check_height(self.height)
    }

    /// Whether the affirmative button is selected at first.
    pub fn initial_selection(&self) -> (r: bool)
        ensures
            r == !self.default_no,
    {
        !self.default_no
    }
}

/// What a key press does to the confirmation.
#[derive(Debug, Clone, Copy, PartialEq, Eq, Structural)]
pub enum ConfirmStep {
    /// Select the affirmative button (`true`) or the negative one.
    Select(bool),
    /// End with this answer.
    Answer(bool),
    Ignore,
}

/// The step that a key press takes while the affirmative button is
/// `selected` or not.
pub open spec fn confirm_step_of(selected: bool, k: KeyPress) -> ConfirmStep {
    match k.key {
        Key::Left | Key::Char('h') => ConfirmStep::Select(true),
        Key::Right | Key::Char('l') => ConfirmStep::Select(false),
        Key::Tab => ConfirmStep::Select(!selected),
        Key::Char('y') | Key::Char('Y') => ConfirmStep::Answer(true),
        Key::Char('n') | Key::Char('N') => ConfirmStep::Answer(false),
        Key::Enter => ConfirmStep::Answer(selected),
        Key::Esc | Key::Char('q') => ConfirmStep::Answer(false),
        Key::Char('c') => if k.ctrl {
            ConfirmStep::Answer(false)
        } else {
            ConfirmStep::Ignore
        },
        _ => ConfirmStep::Ignore,
    }
}

/// Arrows, `h` and `l` select a button, Tab switches; `y` and `n` answer at
/// once, Enter answers with the selection, and Escape, `q` or Control-C
/// answer no.
pub fn confirm_step(selected: bool, k: KeyPress) -> (r: ConfirmStep)
    ensures
        r == confirm_step_of(selected, k),
{
    match k.key {
        Key::Left => ConfirmStep::Select(true),
        Key::Right => ConfirmStep::Select(false),
        Key::Tab => ConfirmStep::Select(!selected),
        Key::Enter => ConfirmStep::Answer(selected),
        Key::Esc => ConfirmStep::Answer(false),
        Key::Char(c) => {
            if c == 'h' {
                ConfirmStep::Select(true)
            } else if c == 'l' {
                ConfirmStep::Select(false)
            } else if c == 'y' || c == 'Y' {
                ConfirmStep::Answer(true)
            } else if c == 'n' || c == 'N' || c == 'q' {
                ConfirmStep::Answer(false)
            } else if c == 'c' && k.ctrl {
                ConfirmStep::Answer(false)
            } else {
                ConfirmStep::Ignore
            }
        },
        _ => ConfirmStep::Ignore,
    }
}

/// The exit status that an answer gives: 0 for yes, 1 for no.
pub fn exit_code(answer: bool) -> (r: i32)
    ensures
        r == if answer {
            0int
        } else {
            1int
        },
{
    if answer {
        0
    } else {
        1
    }
}

/// The width of each button: the longer label's length in bytes, plus
/// borders and padding; at most `u16::MAX`.
pub open spec fn button_width_of(a: nat, b: nat) -> int {
    let m = if a > b {
        a
    } else {
        b
    };
    if m + 4 > u16::MAX {
        u16::MAX as int
    } else {
        m + 4int
    }
}

pub fn button_width(affirmative: &str, negative: &str) -> (r: u16)
    ensures
        r == button_width_of((affirmative.len() as nat), (negative.len() as nat)),
{
    let a = affirmative.len();
    let b = negative.len();
    let m = if a > b {
        a
    } else {
        b
    };
    if m > 65531 {
        65535
    } else {
        (m + 4) as u16
    }
}

/// The width of both buttons and the gap between them, at most `u16::MAX`.
pub fn buttons_width(button: u16) -> (r: u16)
    ensures
        r == if 2 * button + 2 > u16::MAX {
            u16::MAX as int
        } else {
            2 * button + 2int
        },
{
    if button > 32766 {
        65535
    } else {
        button * 2 + 2
    }
}

/// A button of the confirmation: a label, whether it is selected, and the
/// style it is drawn in.
#[derive(Debug, Clone)]
pub struct Button<'a> {
    pub label: &'a str,
    pub selected: bool,
    pub style: Style,
}

impl<'a> Button<'a> {
    /// An unselected button in the plain style.
    pub fn new(label: &'a str) -> (r: Button<'a>)
        ensures
            r.label == label,
            !r.selected,
            r.style.fg is None,
            r.style.bg is None,
            r.style.modifiers@ == Set::<Modifier>::empty(),
    {
        Button { label, selected: false, style: Style::plain() }
    }

    pub fn selected(self, selected: bool) -> (r: Button<'a>)
        ensures
            r.label == self.label,
            r.selected == selected,
            r.style == self.style,
    {
        let mut b = self;
        b.selected = selected;
        b
    }

    pub fn style(self, style: Style) -> (r: Button<'a>)
        ensures
            r.label == self.label,
            r.selected == self.selected,
            r.style == style,
    {
        let mut b = self;
        b.style = style;
        b
    }

    /// Where the label starts inside the button's inner area: centred
    /// across by its length in bytes (taken modulo 2^16), on the middle line.
    pub fn label_origin(&self, inner: Rect) -> (r: (u16, u16))
        requires
            on_screen(inner),
        ensures
            r.0 == inner.x + room(inner.width, (self.label.len() as nat % 65536) as u16) / 2,
            r.1 == inner.y + inner.height / 2,
    {
        let len = (self.label.len() % 65536) as u16;
        (inner.x + inner.width.saturating_sub(len) / 2, inner.y + inner.height / 2)
    }

    /// The style that the button is drawn in: reversed while selected.
    pub fn face_style(&self) -> (r: Style)
        ensures
            r.fg == self.style.fg,
            r.bg == self.style.bg,
            self.selected ==> r.modifiers@ == self.style.modifiers@.insert(Modifier::Reversed),
            !self.selected ==> r.modifiers@ == self.style.modifiers@,
    {
        let s = self.style;
        if self.selected {
            s.add_modifier(Modifier::Reversed)
        } else {
            s
        }
    }
}

} // verus!
