use vstd::prelude::*;
use crate::error::NibbleError;
use crate::text::{lower_of, lowercase, same_text};

verus! {

/// One of the named terminal colours.
#[derive(Debug, Clone, Copy, PartialEq, Eq, Structural)]
pub enum Color {
    Red,
    Green,
    Blue,
    Yellow,
    Cyan,
    Magenta,
    White,
    Black,
    Gray,
    DarkGray,
    LightRed,
    LightGreen,
    LightBlue,
    LightYellow,
    LightCyan,
    LightMagenta,
}

/// How the lines of a border are drawn.
#[derive(Debug, Clone, Copy, PartialEq, Eq, Structural)]
pub enum BorderType {
    Rounded,
    Double,
    Thick,
    Plain,
}

/// A text attribute.
#[derive(Debug, Clone, Copy, PartialEq, Eq, Structural)]
pub enum Modifier {
    Bold,
    Italic,
    Underlined,
    Dim,
    CrossedOut,
    SlowBlink,
    RapidBlink,
    Reversed,
    Hidden,
}

/// The colour that a lowercase name stands for.
pub open spec fn color_named(s: Seq<char>) -> Option<Color> {
    if s == "red"@ {
        Some(Color::Red)
    } else if s == "green"@ {
        Some(Color::Green)
    } else if s == "blue"@ {
        Some(Color::Blue)
    } else if s == "yellow"@ {
        Some(Color::Yellow)
    } else if s == "cyan"@ {
        Some(Color::Cyan)
    } else if s == "magenta"@ {
        Some(Color::Magenta)
    } else if s == "white"@ {
        Some(Color::White)
    } else if s == "black"@ {
        Some(Color::Black)
    } else if s == "gray"@ || s == "grey"@ {
        Some(Color::Gray)
    } else if s == "dark_gray"@ || s == "dark_grey"@ {
        Some(Color::DarkGray)
    } else if s == "light_red"@ {
        Some(Color::LightRed)
    } else if s == "light_green"@ {
        Some(Color::LightGreen)
    } else if s == "light_blue"@ {
        Some(Color::LightBlue)
    } else if s == "light_yellow"@ {
        Some(Color::LightYellow)
    } else if s == "light_cyan"@ {
        Some(Color::LightCyan)
    } else if s == "light_magenta"@ {
        Some(Color::LightMagenta)
    } else {
        None
    }
}

/// The colour that a name stands for, whatever its case.
pub open spec fn color_of(s: Seq<char>) -> Option<Color> {
    color_named(lower_of(s))
}

pub open spec fn unknown_color_msg(s: Seq<char>) -> Seq<char> {
    "Unknown color '"@ + s
        + "'. Valid colors: red, green, blue, yellow, cyan, magenta, white, black, gray, dark_gray, light_*"@
}

/// The colour that a lowercase name stands for.
pub fn named_color(lower: &str) -> (r: Option<Color>)
    ensures
        r == color_named(lower@),
{
    if same_text(lower, "red") {
        Some(Color::Red)
    } else if same_text(lower, "green") {
        Some(Color::Green)
    } else if same_text(lower, "blue") {
        Some(Color::Blue)
    } else if same_text(lower, "yellow") {
        Some(Color::Yellow)
    } else if same_text(lower, "cyan") {
        Some(Color::Cyan)
    } else if same_text(lower, "magenta") {
        Some(Color::Magenta)
    } else if same_text(lower, "white") {
        Some(Color::White)
    } else if same_text(lower, "black") {
        Some(Color::Black)
    } else if same_text(lower, "gray") || same_text(lower, "grey") {
        Some(Color::Gray)
    } else if same_text(lower, "dark_gray") || same_text(lower, "dark_grey") {
        Some(Color::DarkGray)
    } else if same_text(lower, "light_red") {
        Some(Color::LightRed)
    } else if same_text(lower, "light_green") {
        Some(Color::LightGreen)
    } else if same_text(lower, "light_blue") {
        Some(Color::LightBlue)
    } else if same_text(lower, "light_yellow") {
        Some(Color::LightYellow)
    } else if same_text(lower, "light_cyan") {
        Some(Color::LightCyan)
    } else if same_text(lower, "light_magenta") {
        Some(Color::LightMagenta)
    } else {
        None
    }
}

/// Reads a colour name, in any case.
pub fn parse_color(color: &str) -> (r: Result<Color, NibbleError>)
    ensures
        color_of(color@) matches Some(c) ==> r == Ok::<Color, NibbleError>(c),
        color_of(color@) is None ==> (r matches Err(NibbleError::InvalidColor(m)) && m@
            == unknown_color_msg(color@)),
{
    let l = lowercase(color);
    match named_color(l.as_str()) {
        Some(x) => Ok(x),
        None => {
            let m = String::from_str("Unknown color '").concat(color).concat(
                "'. Valid colors: red, green, blue, yellow, cyan, magenta, white, black, gray, dark_gray, light_*",
            );
            Err(NibbleError::InvalidColor(m))
        },
    }
}

/// The border that a lowercase name stands for; `none` draws plain lines
/// where a border is drawn at all.
pub open spec fn border_named(s: Seq<char>) -> Option<BorderType> {
    if s == "rounded"@ {
        Some(BorderType::Rounded)
    } else if s == "double"@ {
        Some(BorderType::Double)
    } else if s == "thick"@ {
        Some(BorderType::Thick)
    } else if s == "plain"@ || s == "none"@ {
        Some(BorderType::Plain)
    } else {
        None
    }
}

pub open spec fn border_of(s: Seq<char>) -> Option<BorderType> {
    border_named(lower_of(s))
}

pub open spec fn unknown_border_msg(s: Seq<char>) -> Seq<char> {
    "Unknown border type '"@ + s + "'. Valid types: rounded, double, thick, plain, none"@
}

/// The border that a lowercase name stands for.
pub fn named_border(lower: &str) -> (r: Option<BorderType>)
    ensures
        r == border_named(lower@),
{
    if same_text(lower, "rounded") {
        Some(BorderType::Rounded)
    } else if same_text(lower, "double") {
        Some(BorderType::Double)
    } else if same_text(lower, "thick") {
        Some(BorderType::Thick)
    } else if same_text(lower, "plain") || same_text(lower, "none") {
        Some(BorderType::Plain)
    } else {
        None
    }
}

/// Reads a border name, in any case.
pub fn parse_border_type(border: &str) -> (r: Result<BorderType, NibbleError>)
    ensures
        border_of(border@) matches Some(b) ==> r == Ok::<BorderType, NibbleError>(b),
        border_of(border@) is None ==> (r matches Err(NibbleError::InvalidBorderType(m)) && m@
            == unknown_border_msg(border@)),
{
    let l = lowercase(border);
    match named_border(l.as_str()) {
        Some(x) => Ok(x),
        None => {
            let m = String::from_str("Unknown border type '").concat(border).concat(
                "'. Valid types: rounded, double, thick, plain, none",
            );
            Err(NibbleError::InvalidBorderType(m))
        },
    }
}

/// The attribute that a lowercase name stands for.
pub open spec fn modifier_named(s: Seq<char>) -> Option<Modifier> {
    if s == "bold"@ {
        Some(Modifier::Bold)
    } else if s == "italic"@ {
        Some(Modifier::Italic)
    } else if s == "underline"@ || s == "underlined"@ {
        Some(Modifier::Underlined)
    } else if s == "dim"@ {
        Some(Modifier::Dim)
    } else if s == "crossed_out"@ || s == "crossed"@ {
        Some(Modifier::CrossedOut)
    } else if s == "slow_blink"@ || s == "blink"@ {
        Some(Modifier::SlowBlink)
    } else if s == "rapid_blink"@ {
        Some(Modifier::RapidBlink)
    } else if s == "reversed"@ || s == "reverse"@ {
        Some(Modifier::Reversed)
    } else if s == "hidden"@ {
        Some(Modifier::Hidden)
    } else {
        None
    }
}

pub open spec fn modifier_of(s: Seq<char>) -> Option<Modifier> {
    modifier_named(lower_of(s))
}

pub open spec fn unknown_modifier_msg(s: Seq<char>) -> Seq<char> {
    "Unknown modifier '"@ + s
        + "'. Valid modifiers: bold, italic, underline, dim, crossed_out, blink, reversed, hidden"@
}

/// The attribute that a lowercase name stands for.
pub fn named_modifier(lower: &str) -> (r: Option<Modifier>)
    ensures
        r == modifier_named(lower@),
{
    if same_text(lower, "bold") {
        Some(Modifier::Bold)
    } else if same_text(lower, "italic") {
        Some(Modifier::Italic)
    } else if same_text(lower, "underline") || same_text(lower, "underlined") {
        Some(Modifier::Underlined)
    } else if same_text(lower, "dim") {
        Some(Modifier::Dim)
    } else if same_text(lower, "crossed_out") || same_text(lower, "crossed") {
        Some(Modifier::CrossedOut)
    } else if same_text(lower, "slow_blink") || same_text(lower, "blink") {
        Some(Modifier::SlowBlink)
    } else if same_text(lower, "rapid_blink") {
        Some(Modifier::RapidBlink)
    } else if same_text(lower, "reversed") || same_text(lower, "reverse") {
        Some(Modifier::Reversed)
    } else if same_text(lower, "hidden") {
        Some(Modifier::Hidden)
    } else {
        None
    }
}

/// Reads an attribute name, in any case.
pub fn parse_modifier(modifier: &str) -> (r: Result<Modifier, NibbleError>)
    ensures
        modifier_of(modifier@) matches Some(x) ==> r == Ok::<Modifier, NibbleError>(x),
        modifier_of(modifier@) is None ==> (r matches Err(NibbleError::ConfigError(m)) && m@
            == unknown_modifier_msg(modifier@)),
{
    let l = lowercase(modifier);
    match named_modifier(l.as_str()) {
        Some(x) => Ok(x),
        None => {
            let m = String::from_str("Unknown modifier '").concat(modifier).concat(
                "'. Valid modifiers: bold, italic, underline, dim, crossed_out, blink, reversed, hidden",
            );
            Err(NibbleError::ConfigError(m))
        },
    }
}

/// A set of text attributes, one flag for each.
#[derive(Debug, Clone, Copy, PartialEq, Eq, Structural)]
pub struct Modifiers {
    pub bold: bool,
    pub italic: bool,
    pub underlined: bool,
    pub dim: bool,
    pub crossed_out: bool,
    pub slow_blink: bool,
    pub rapid_blink: bool,
    pub reversed: bool,
    pub hidden: bool,
}

impl Modifiers {
    /// Whether the flag of `m` is set.
    pub open spec fn has(self, m: Modifier) -> bool {
        match m {
            Modifier::Bold => self.bold,
            Modifier::Italic => self.italic,
            Modifier::Underlined => self.underlined,
            Modifier::Dim => self.dim,
            Modifier::CrossedOut => self.crossed_out,
            Modifier::SlowBlink => self.slow_blink,
            Modifier::RapidBlink => self.rapid_blink,
            Modifier::Reversed => self.reversed,
            Modifier::Hidden => self.hidden,
        }
    }

    /// No attribute.
    pub fn none() -> (r: Modifiers)
        ensures
            r@ == Set::<Modifier>::empty(),
    {
        let r = Modifiers {
            bold: false,
            italic: false,
            underlined: false,
            dim: false,
            crossed_out: false,
            slow_blink: false,
            rapid_blink: false,
            reversed: false,
            hidden: false,
        };
        assert(r@ =~= Set::<Modifier>::empty());
        r
    }

    /// The same attributes and `m`.
    pub fn insert(self, m: Modifier) -> (r: Modifiers)
        ensures
            r@ == self@.insert(m),
    {
        let mut r = self;
        match m {
            Modifier::Bold => r.bold = true,
            Modifier::Italic => r.italic = true,
            Modifier::Underlined => r.underlined = true,
            Modifier::Dim => r.dim = true,
            Modifier::CrossedOut => r.crossed_out = true,
            Modifier::SlowBlink => r.slow_blink = true,
            Modifier::RapidBlink => r.rapid_blink = true,
            Modifier::Reversed => r.reversed = true,
            Modifier::Hidden => r.hidden = true,
        }
        assert(r@ =~= self@.insert(m));
        r
    }

    pub fn contains(&self, m: Modifier) -> (r: bool)
        ensures
            r == self@.contains(m),
    {
        match m {
            Modifier::Bold => self.bold,
            Modifier::Italic => self.italic,
            Modifier::Underlined => self.underlined,
            Modifier::Dim => self.dim,
            Modifier::CrossedOut => self.crossed_out,
            Modifier::SlowBlink => self.slow_blink,
            Modifier::RapidBlink => self.rapid_blink,
            Modifier::Reversed => self.reversed,
            Modifier::Hidden => self.hidden,
        }
    }
}

impl View for Modifiers {
    type V = Set<Modifier>;

    open spec fn view(&self) -> Set<Modifier> {
        Set::new(|m: Modifier| self.has(m))
    }
}

/// The flags of a set of attributes.
pub open spec fn modifiers_from(s: Set<Modifier>) -> Modifiers {
    Modifiers {
        bold: s.contains(Modifier::Bold),
        italic: s.contains(Modifier::Italic),
        underlined: s.contains(Modifier::Underlined),
        dim: s.contains(Modifier::Dim),
        crossed_out: s.contains(Modifier::CrossedOut),
        slow_blink: s.contains(Modifier::SlowBlink),
        rapid_blink: s.contains(Modifier::RapidBlink),
        reversed: s.contains(Modifier::Reversed),
        hidden: s.contains(Modifier::Hidden),
    }
}

/// Flags are fixed by the set they stand for.
pub proof fn lemma_modifiers_from_view(x: Modifiers)
    ensures
        modifiers_from(x@) == x,
{
}

/// How text is drawn: optional colours and a set of attributes.
#[derive(Debug, Clone, Copy, PartialEq, Eq, Structural)]
pub struct Style {
    pub fg: Option<Color>,
    pub bg: Option<Color>,
    pub modifiers: Modifiers,
}

impl Style {
    /// No colour and no attribute.
    pub fn plain() -> (r: Style)
        ensures
            r.fg is None,
            r.bg is None,
            r.modifiers@ == Set::<Modifier>::empty(),
    {
        Style { fg: None, bg: None, modifiers: Modifiers::none() }
    }

    /// The same style with one more attribute.
    pub fn add_modifier(self, m: Modifier) -> (r: Style)
        ensures
            r.fg == self.fg,
            r.bg == self.bg,
            r.modifiers@ == self.modifiers@.insert(m),
    {
        Style { fg: self.fg, bg: self.bg, modifiers: self.modifiers.insert(m) }
    }
}

/// The styling options that every widget takes.
#[derive(Debug, Clone)]
pub struct StyleConfig {
    pub border: String,
    pub border_color: Option<String>,
    pub fg: Option<String>,
    pub bg: Option<String>,
    pub modifier: Vec<String>,
}

/// An absent colour option, or one that names a colour.
pub open spec fn color_opt_ok(o: Option<String>) -> bool {
    match o {
        None => true,
        Some(c) => color_of(c@) is Some,
    }
}

pub open spec fn color_opt_of(o: Option<String>) -> Option<Color> {
    match o {
        None => None,
        Some(c) => color_of(c@),
    }
}

pub open spec fn modifiers_ok(ms: Seq<String>) -> bool {
    forall|i: int| 0 <= i < ms.len() ==> (#[trigger] modifier_of(ms[i]@)) is Some
}

/// The attributes that the names in `ms` stand for.
pub open spec fn modifier_set(ms: Seq<String>) -> Set<Modifier> {
    Set::new(
        |m: Modifier| exists|i: int| 0 <= i < ms.len() && modifier_of(#[trigger] ms[i]@) == Some(m),
    )
}

/// The style of the text that the options ask for.
pub open spec fn text_style_of(c: StyleConfig) -> Style {
    Style {
        fg: color_opt_of(c.fg),
        bg: color_opt_of(c.bg),
        modifiers: modifiers_from(modifier_set(c.modifier@)),
    }
}

proof fn lemma_modifier_set_push(ms: Seq<String>, s: String, m: Modifier)
    requires
        modifier_of(s@) == Some(m),
    ensures
        modifier_set(ms.push(s)) == modifier_set(ms).insert(m),
{
    let p = ms.push(s);
    assert forall|x: Modifier| modifier_set(p).contains(x) implies modifier_set(ms).insert(
        m,
    ).contains(x) by {
        let i = choose|i: int| 0 <= i < p.len() && modifier_of(#[trigger] p[i]@) == Some(x);
        if i < ms.len() {
            assert(ms[i] == p[i]);
        }
    }
    assert forall|x: Modifier| modifier_set(ms).insert(m).contains(x) implies modifier_set(
        p,
    ).contains(x) by {
        if x == m {
            assert(p[ms.len() as int] == s);
        } else {
            let i = choose|i: int| 0 <= i < ms.len() && modifier_of(#[trigger] ms[i]@) == Some(x);
            assert(p[i] == ms[i]);
        }
    }
    assert(modifier_set(p) =~= modifier_set(ms).insert(m));
}

/// Two lists of attribute names that hold the same names, in any order and
/// any number of times each.
pub open spec fn same_names(a: Seq<String>, b: Seq<String>) -> bool {
    &&& forall|i: int| 0 <= i < a.len() ==> exists|j: int| 0 <= j < b.len() && (#[trigger] b[j])@
        == (#[trigger] a[i])@
    &&& forall|j: int| 0 <= j < b.len() ==> exists|i: int| 0 <= i < a.len() && (#[trigger] a[i])@
        == (#[trigger] b[j])@
}

/// The order of the attribute names, and their repeats, change neither
/// whether the text style is valid nor what it is.
pub proof fn text_style_ignores_modifier_order(a: StyleConfig, b: StyleConfig)
    requires
        a.fg == b.fg,
        a.bg == b.bg,
        same_names(a.modifier@, b.modifier@),
    ensures
        modifiers_ok(a.modifier@) <==> modifiers_ok(b.modifier@),
        text_style_of(a) == text_style_of(b),
{
    let x = a.modifier@;
    let y = b.modifier@;
    assert forall|m: Modifier| modifier_set(x).contains(m) implies modifier_set(y).contains(m) by {
        let i = choose|i: int| 0 <= i < x.len() && modifier_of(#[trigger] x[i]@) == Some(m);
        let j = choose|j: int| 0 <= j < y.len() && (#[trigger] y[j])@ == x[i]@;
    }
    assert forall|m: Modifier| modifier_set(y).contains(m) implies modifier_set(x).contains(m) by {
        let j = choose|j: int| 0 <= j < y.len() && modifier_of(#[trigger] y[j]@) == Some(m);
        let i = choose|i: int| 0 <= i < x.len() && (#[trigger] x[i])@ == y[j]@;
    }
    assert(modifier_set(x) =~= modifier_set(y));
    if modifiers_ok(x) {
        assert forall|j: int| 0 <= j < y.len() implies (#[trigger] modifier_of(y[j]@)) is Some by {
            let i = choose|i: int| 0 <= i < x.len() && (#[trigger] x[i])@ == y[j]@;
            assert(modifier_of(x[i]@) is Some);
        }
    }
    if modifiers_ok(y) {
        assert forall|i: int| 0 <= i < x.len() implies (#[trigger] modifier_of(x[i]@)) is Some by {
            let j = choose|j: int| 0 <= j < y.len() && (#[trigger] y[j])@ == x[i]@;
            assert(modifier_of(y[j]@) is Some);
        }
    }
}

/// `i` is the first attribute name in `ms` that names none.
pub open spec fn first_bad_modifier(ms: Seq<String>, i: int) -> bool {
    &&& 0 <= i < ms.len()
    &&& modifier_of(ms[i]@) is None
    &&& forall|j: int| 0 <= j < i ==> (#[trigger] modifier_of(ms[j]@)) is Some
}

/// The colour option that a gauge is filled with: the foreground, else the
/// border colour.
pub open spec fn gauge_color_option(c: StyleConfig) -> Option<String> {
    if c.fg is Some {
        c.fg
    } else {
        c.border_color
    }
}

impl StyleConfig {
    /// Rounded borders, no colour and no attribute.
    pub fn new() -> (r: StyleConfig)
        ensures
            r.border@ == "rounded"@,
            r.border_color is None,
            r.fg is None,
            r.bg is None,
            r.modifier@.len() == 0,
    {
        StyleConfig {
            border: String::from_str("rounded"),
            border_color: None,
            fg: None,
            bg: None,
            modifier: Vec::new(),
        }
    }

    /// Whether the border option asks for no border at all.
    pub fn borderless(&self) -> (r: bool)
        ensures
            r == (self.border@ == "none"@),
    {
        same_text(self.border.as_str(), "none")
    }

    pub fn border_type(&self) -> (r: Result<BorderType, NibbleError>)
        ensures
            border_of(self.border@) matches Some(b) ==> r == Ok::<BorderType, NibbleError>(b),
            border_of(self.border@) is None ==> (r matches Err(NibbleError::InvalidBorderType(m))
                && m@ == unknown_border_msg(self.border@)),
    {
        parse_border_type(self.border.as_str())
    }

    /// The style of the border lines: coloured where a border colour is given.
    pub fn border_style(&self) -> (r: Result<Style, NibbleError>)
        ensures
            r is Ok <==> color_opt_ok(self.border_color),
            r matches Ok(s) ==> (s.fg == color_opt_of(self.border_color) && s.bg is None
                && s.modifiers@ == Set::<Modifier>::empty()),
            !color_opt_ok(self.border_color) ==> (r matches Err(NibbleError::InvalidColor(m))
                && m@ == unknown_color_msg(self.border_color->Some_0@)),
    {
        let mut style = Style::plain();
        if let Some(c) = &self.border_color {
            match parse_color(c.as_str()) {
                Ok(col) => {
                    style.fg = Some(col);
                },
                Err(e) => {
                    return Err(e);
                },
            }
        }
        Ok(style)
    }

    /// The style of the text: foreground, background, then each attribute in
    /// turn; the first option that names nothing is the error.
    pub fn text_style(&self) -> (r: Result<Style, NibbleError>)
        ensures
            r is Ok <==> (color_opt_ok(self.fg) && color_opt_ok(self.bg) && modifiers_ok(
                self.modifier@,
            )),
            r matches Ok(s) ==> s == text_style_of(*self),
            !color_opt_ok(self.fg) ==> (r matches Err(NibbleError::InvalidColor(m)) && m@
                == unknown_color_msg(self.fg->Some_0@)),
            color_opt_ok(self.fg) && !color_opt_ok(self.bg) ==> (r matches Err(
                NibbleError::InvalidColor(m),
            ) && m@ == unknown_color_msg(self.bg->Some_0@)),
            color_opt_ok(self.fg) && color_opt_ok(self.bg) && !modifiers_ok(self.modifier@) ==> (
            r matches Err(NibbleError::ConfigError(m)) && exists|i: int|
                first_bad_modifier(self.modifier@, i) && m@ == unknown_modifier_msg(
                    self.modifier@[i]@,
                )),
    {
        let mut style = Style::plain();
        if let Some(c) = &self.fg {
            match parse_color(c.as_str()) {
                Ok(col) => {
                    style.fg = Some(col);
                },
                Err(e) => {
                    return Err(e);
                },
            }
        }
        if let Some(c) = &self.bg {
            match parse_color(c.as_str()) {
                Ok(col) => {
                    style.bg = Some(col);
                },
                Err(e) => {
                    return Err(e);
                },
            }
        }
        let n = self.modifier.len();
        let mut i: usize = 0;
        assert(modifier_set(self.modifier@.subrange(0, 0)) =~= Set::<Modifier>::empty());
        while i < n
            invariant
                n == self.modifier@.len(),
                0 <= i <= n,
                color_opt_ok(self.fg),
                color_opt_ok(self.bg),
                style.fg == color_opt_of(self.fg),
                style.bg == color_opt_of(self.bg),
                forall|j: int| 0 <= j < i ==> (#[trigger] modifier_of(self.modifier@[j]@)) is Some,
                style.modifiers@ == modifier_set(self.modifier@.subrange(0, i as int)),
            decreases n - i,
        {
            match parse_modifier(self.modifier[i].as_str()) {
                Ok(m) => {
                    proof {
                        assert(self.modifier@.subrange(0, i + 1) =~= self.modifier@.subrange(
                            0,
                            i as int,
                        ).push(self.modifier@[i as int]));
                        lemma_modifier_set_push(
                            self.modifier@.subrange(0, i as int),
                            self.modifier@[i as int],
                            m,
                        );
                    }
                    style = style.add_modifier(m);
                },
                Err(e) => {
                    assert(first_bad_modifier(self.modifier@, i as int));
                    return Err(e);
                },
            }
            i = i + 1;
        }
        assert(self.modifier@.subrange(0, n as int) =~= self.modifier@);
        proof {
            lemma_modifiers_from_view(style.modifiers);
        }
        Ok(style)
    }

    /// The style of a gauge's bar: the foreground colour, else the border
    /// colour, drawn bold.
    pub fn gauge_style(&self) -> (r: Result<Style, NibbleError>)
        ensures
            r is Ok <==> color_opt_ok(gauge_color_option(*self)),
            r matches Ok(s) ==> (s.fg == color_opt_of(gauge_color_option(*self)) && s.bg is None
                && s.modifiers@ == set![Modifier::Bold]),
            !color_opt_ok(gauge_color_option(*self)) ==> (r matches Err(
                NibbleError::InvalidColor(m),
            ) && m@ == unknown_color_msg(gauge_color_option(*self)->Some_0@)),
    {
        let mut style = Style::plain();
        let source = if self.fg.is_some() {
            &self.fg
        } else {
            &self.border_color
        };
        if let Some(c) = source {
            match parse_color(c.as_str()) {
                Ok(col) => {
                    style.fg = Some(col);
                },
                Err(e) => {
                    return Err(e);
                },
            }
        }
        Ok(style.add_modifier(Modifier::Bold))
    }
}

/// The frame drawn around a widget.
#[derive(Debug, Clone)]
pub struct BlockFrame {
    pub title: String,
    /// Whether border lines are drawn at all.
    pub borders: bool,
    pub border_type: BorderType,
    pub border_style: Style,
}

impl StyleConfig {
    /// Whether a widget with this title is framed: it has a title, or its
    /// border is not `none`.
    pub fn draws_block(&self, title: &str) -> (r: bool)
        ensures
            r == (title@.len() > 0 || self.border@ != "none"@),
    {
        title.unicode_len() > 0 || !self.borderless()
    }

    /// The frame of a widget: its border type, then its border style, are
    /// read from the options.
    pub fn block_frame(&self, title: &str) -> (r: Result<BlockFrame, NibbleError>)
        ensures
            r is Ok <==> (border_of(self.border@) is Some && color_opt_ok(self.border_color)),
            r matches Ok(f) ==> (f.title@ == title@ && f.borders == (self.border@ != "none"@)
                && f.border_type == border_of(self.border@)->Some_0 && f.border_style.fg
                == color_opt_of(self.border_color) && f.border_style.bg is None
                && f.border_style.modifiers@ == Set::<Modifier>::empty()),
            border_of(self.border@) is None ==> (r matches Err(NibbleError::InvalidBorderType(m))
                && m@ == unknown_border_msg(self.border@)),
            border_of(self.border@) is Some && !color_opt_ok(self.border_color) ==> (r matches Err(
                NibbleError::InvalidColor(m),
            ) && m@ == unknown_color_msg(self.border_color->Some_0@)),
    {
        let border_type = match self.border_type() {
            Ok(b) => b,
            Err(e) => {
                return Err(e);
            },
        };
        let border_style = match self.border_style() {
            Ok(s) => s,
            Err(e) => {
                return Err(e);
            },
        };
        Ok(
            BlockFrame {
                title: title.to_owned(),
                borders: !self.borderless(),
                border_type,
                border_style,
            },
        )
    }
}

impl Default for StyleConfig {
    fn default() -> (r: StyleConfig)
        ensures
            r.border@ == "rounded"@,
            r.border_color is None,
            r.fg is None,
            r.bg is None,
            r.modifier@.len() == 0,
    {
        StyleConfig::new()
    }
}

} // verus!
