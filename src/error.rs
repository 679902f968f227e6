use vstd::prelude::*;

verus! {

/// What can go wrong while preparing or drawing a widget.
#[derive(Debug, Clone, PartialEq, Eq)]
pub enum NibbleError {
    TerminalInit(String),
    RenderError(String),
    InvalidColor(String),
    InvalidBorderType(String),
    InvalidDimensions(String),
    Io(String),
    ConfigError(String),
}

/// The words that open each kind of error's message.
pub open spec fn message_prefix(e: NibbleError) -> Seq<char> {
    match e {
        NibbleError::TerminalInit(_) => "Terminal initialization failed: "@,
        NibbleError::RenderError(_) => "Rendering failed: "@,
        NibbleError::InvalidColor(_) => "Invalid color: "@,
        NibbleError::InvalidBorderType(_) => "Invalid border type: "@,
        NibbleError::InvalidDimensions(_) => "Invalid dimensions: "@,
        NibbleError::Io(_) => "IO error: "@,
        NibbleError::ConfigError(_) => "Widget configuration error: "@,
    }
}

pub open spec fn detail(e: NibbleError) -> Seq<char> {
    match e {
        NibbleError::TerminalInit(m) => m@,
        NibbleError::RenderError(m) => m@,
        NibbleError::InvalidColor(m) => m@,
        NibbleError::InvalidBorderType(m) => m@,
        NibbleError::InvalidDimensions(m) => m@,
        NibbleError::Io(m) => m@,
        NibbleError::ConfigError(m) => m@,
    }
}

impl NibbleError {
    /// The message shown for the error: its kind, then its detail.
    pub fn message(&self) -> (r: String)
        ensures
            r@ == message_prefix(*self) + detail(*self),
    {
        match self {
            NibbleError::TerminalInit(m) => String::from_str("Terminal initialization failed: ").concat(
                m.as_str(),
            ),
            NibbleError::RenderError(m) => String::from_str("Rendering failed: ").concat(m.as_str()),
            NibbleError::InvalidColor(m) => String::from_str("Invalid color: ").concat(m.as_str()),
            NibbleError::InvalidBorderType(m) => String::from_str("Invalid border type: ").concat(
                m.as_str(),
            ),
            NibbleError::InvalidDimensions(m) => String::from_str("Invalid dimensions: ").concat(
                m.as_str(),
            ),
            NibbleError::Io(m) => String::from_str("IO error: ").concat(m.as_str()),
            NibbleError::ConfigError(m) => String::from_str("Widget configuration error: ").concat(
                m.as_str(),
            ),
        }
    }
}

} // verus!
