use vstd::prelude::*;
use crate::error::NibbleError;
use crate::style::StyleConfig;
use crate::text::{chars_of, decimal, decimal_string, string_of_range};
use crate::widget::{check_height, Key, KeyPress};

verus! {

/// The options of the text input widget.
#[derive(Debug, Clone)]
pub struct InputArgs {
    pub placeholder: String,
    pub value: String,
    pub prompt: String,
    pub title: String,
    pub height: u16,
    /// Hide what is typed.
    pub password: bool,
    /// The most bytes that typing may reach.
    pub max_length: Option<usize>,
    pub show_count: bool,
    pub style: StyleConfig,
}

impl InputArgs {
    /// Checks the options: a height of at least one line.
    pub fn validate(&self) -> (r: Result<(), NibbleError>)
        ensures
            self.height > 0 ==> r is Ok,
            self.height == 0 ==> (r matches Err(NibbleError::InvalidDimensions(m)) && m@
                == "Height must be greater than 0"@),
    {
        check_height(self.height)
    }
}

/// What a key press does to the input.
#[derive(Debug, Clone, Copy, PartialEq, Eq, Structural)]
pub enum InputAction {
    /// Hand the key to the line editor.
    Edit,
    /// Drop the key: the text is at its limit.
    Ignore,
    Submit,
    Cancel,
}

/// A key that moves the cursor or deletes.
pub open spec fn shrinks_or_moves(key: Key) -> bool {
    key == Key::Backspace || key == Key::Delete || key == Key::Left || key == Key::Right || key
        == Key::Home || key == Key::End
}

pub open spec fn input_action_of(k: KeyPress, len: nat, max_length: Option<usize>) -> InputAction {
    if k.key == Key::Enter {
        InputAction::Submit
    } else if k.key == Key::Esc || (k.key == Key::Char('c') && k.ctrl) {
        InputAction::Cancel
    } else if max_length matches Some(m) && len >= m && !shrinks_or_moves(k.key) {
        InputAction::Ignore
    } else {
        InputAction::Edit
    }
}

/// Enter submits; Escape or Control-C cancel; once the text holds
/// `max_length` bytes, only keys that move or delete reach the editor.
pub fn handle_key_event(k: KeyPress, value_len: usize, max_length: Option<usize>) -> (r:
    InputAction)
    ensures
        r == input_action_of(k, value_len as nat, max_length),
{
    match k.key {
        Key::Enter => InputAction::Submit,
        Key::Esc => InputAction::Cancel,
        _ => {
            if k.key == Key::Char('c') && k.ctrl {
                return InputAction::Cancel;
            }
            if let Some(m) = max_length {
                let passes = match k.key {
                    Key::Backspace | Key::Delete | Key::Left | Key::Right | Key::Home | Key::End => true,
                    _ => false,
                };
                if value_len >= m && !passes {
                    return InputAction::Ignore;
                }
            }
            InputAction::Edit
        },
    }
}

/// What the field shows of the text: one `*` per byte in password mode.
pub open spec fn shown_of(value: &str, password: bool) -> Seq<char> {
    if password {
        Seq::new((value.len() as nat), |i: int| '*')
    } else {
        value@
    }
}

pub fn shown_value(value: &str, password: bool) -> (r: String)
    ensures
        r@ == shown_of(value, password),
{
    if !password {
        return value.to_owned();
    }
    let n = value.len();
    let mut s = String::new();
    let mut i: usize = 0;
    while i < n
        invariant
            i <= n,
            n == (value.len() as nat),
            s@ =~= Seq::new(i as nat, |k: int| '*'),
        decreases n - i,
    {
        s.append("*");
        proof {
            reveal_strlit("*");
        }
        i = i + 1;
    }
    s
}

/// The count shown after the field: the length, and the limit where there
/// is one.
pub open spec fn count_text_of(len: nat, max_length: Option<usize>) -> Seq<char> {
    match max_length {
        Some(m) => " ("@ + decimal(len) + "/"@ + decimal(m as nat) + ")"@,
        None => " ("@ + decimal(len) + ")"@,
    }
}

pub fn count_text(len: usize, max_length: Option<usize>) -> (r: String)
    ensures
        r@ == count_text_of(len as nat, max_length),
{
    let d = decimal_string(len as u128);
    match max_length {
        Some(m) => String::from_str(" (").concat(d.as_str()).concat("/").concat(
            decimal_string(m as u128).as_str(),
        ).concat(")"),
        None => String::from_str(" (").concat(d.as_str()).concat(")"),
    }
}

/// The width of the prompt's column: its length in bytes and two more, at
/// most `u16::MAX`.
pub fn prompt_width(prompt: &str) -> (r: u16)
    ensures
        r == if (prompt.len() as nat) + 2 > u16::MAX {
            u16::MAX as int
        } else {
            (prompt.len() as nat) + 2int
        },
{
    let n = prompt.len();
    if n > 65533 {
        65535
    } else {
        (n + 2) as u16
    }
}

/// How a piece of the input line is drawn.
#[derive(Debug, Clone, Copy, PartialEq, Eq, Structural)]
pub enum SpanKind {
    Text,
    /// Under the cursor: drawn reversed.
    Cursor,
    /// The cursor before a placeholder.
    PlaceholderCursor,
    Placeholder,
}

/// A piece of the input line.
#[derive(Debug, Clone, PartialEq, Eq)]
pub struct Segment {
    pub text: String,
    pub kind: SpanKind,
}

pub open spec fn segments_view(v: Seq<Segment>) -> Seq<(Seq<char>, SpanKind)> {
    v.map_values(|s: Segment| (s.text@, s.kind))
}

/// One piece per shown character, the one under the cursor marked; a blank
/// cursor after the text where the cursor is at its end. An empty text with
/// a placeholder shows a cursor and then the placeholder.
pub open spec fn segments_of(
    shown: Seq<char>,
    cursor: nat,
    value_empty: bool,
    placeholder: Seq<char>,
) -> Seq<(Seq<char>, SpanKind)> {
    if value_empty && placeholder.len() > 0 {
        seq![(" "@, SpanKind::PlaceholderCursor), (placeholder, SpanKind::Placeholder)]
    } else {
        Seq::new(
            shown.len(),
            |i: int|
                (seq![shown[i]], if i == cursor {
                    SpanKind::Cursor
                } else {
                    SpanKind::Text
                }),
        ) + if cursor >= shown.len() {
            seq![(" "@, SpanKind::Cursor)]
        } else {
            Seq::empty()
        }
    }
}

/// The pieces of the input line, for the text as shown, the cursor's
/// character index, and whether the typed text is empty.
pub fn input_segments(shown: &str, cursor: usize, value_empty: bool, placeholder: &str) -> (r: Vec<
    Segment,
>)
    ensures
        segments_view(r@) == segments_of(shown@, cursor as nat, value_empty, placeholder@),
{
    let mut out: Vec<Segment> = Vec::new();
    if value_empty && placeholder.unicode_len() > 0 {
        out.push(Segment { text: String::from_str(" "), kind: SpanKind::PlaceholderCursor });
        out.push(Segment { text: placeholder.to_owned(), kind: SpanKind::Placeholder });
        assert(segments_view(out@) =~= segments_of(
            shown@,
            cursor as nat,
            value_empty,
            placeholder@,
        ));
        return out;
    }
    let v = chars_of(shown);
    let n = v.len();
    let ghost whole = Seq::new(
        n as nat,
        |i: int|
            (seq![v@[i]], if i == cursor {
                SpanKind::Cursor
            } else {
                SpanKind::Text
            }),
    );
    let mut i: usize = 0;
    while i < n
        invariant
            n == v@.len(),
            i <= n,
            whole == Seq::new(
                n as nat,
                |k: int|
                    (seq![v@[k]], if k == cursor {
                        SpanKind::Cursor
                    } else {
                        SpanKind::Text
                    }),
            ),
            segments_view(out@) =~= whole.subrange(0, i as int),
        decreases n - i,
    {
        let text = string_of_range(&v, i, i + 1);
        assert(v@.subrange(i as int, i + 1) =~= seq![v@[i as int]]);
        let kind = if i == cursor {
            SpanKind::Cursor
        } else {
            SpanKind::Text
        };
        out.push(Segment { text, kind });
        assert(whole.subrange(0, i + 1) =~= whole.subrange(0, i as int).push(whole[i as int]));
        i = i + 1;
    }
    assert(whole.subrange(0, n as int) =~= whole);
    if cursor >= n {
        let ghost before = out@;
        out.push(Segment { text: String::from_str(" "), kind: SpanKind::Cursor });
        assert(segments_view(out@) =~= segments_view(before).push((" "@, SpanKind::Cursor)));
    }
    assert(segments_view(out@) =~= segments_of(shown@, cursor as nat, value_empty, placeholder@));
    out
}

} // verus!
