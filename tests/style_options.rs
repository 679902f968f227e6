use nibble::error::NibbleError;
use nibble::style::{
    Modifiers, parse_border_type, parse_color, parse_modifier, BorderType, Color, Modifier, StyleConfig,
};

fn config() -> StyleConfig {
    StyleConfig::default()
}

#[test]
fn colors_are_read_in_any_case() {
    assert_eq!(parse_color("red"), Ok(Color::Red));
    assert_eq!(parse_color("GREEN"), Ok(Color::Green));
    assert_eq!(parse_color("Grey"), Ok(Color::Gray));
    assert_eq!(parse_color("dark_grey"), Ok(Color::DarkGray));
    assert_eq!(parse_color("Light_Magenta"), Ok(Color::LightMagenta));
}

#[test]
fn unknown_color_is_refused_with_its_name() {
    assert_eq!(
        parse_color("Purple"),
        Err(NibbleError::InvalidColor(
            "Unknown color 'Purple'. Valid colors: red, green, blue, yellow, cyan, magenta, white, black, gray, dark_gray, light_*".to_string()
        ))
    );
}

#[test]
fn border_names() {
    assert_eq!(parse_border_type("rounded"), Ok(BorderType::Rounded));
    assert_eq!(parse_border_type("DOUBLE"), Ok(BorderType::Double));
    assert_eq!(parse_border_type("thick"), Ok(BorderType::Thick));
    assert_eq!(parse_border_type("none"), Ok(BorderType::Plain));
    assert_eq!(
        parse_border_type("dotted"),
        Err(NibbleError::InvalidBorderType(
            "Unknown border type 'dotted'. Valid types: rounded, double, thick, plain, none"
                .to_string()
        ))
    );
}

#[test]
fn modifier_names_and_aliases() {
    assert_eq!(parse_modifier("Bold"), Ok(Modifier::Bold));
    assert_eq!(parse_modifier("underline"), Ok(Modifier::Underlined));
    assert_eq!(parse_modifier("crossed"), Ok(Modifier::CrossedOut));
    assert_eq!(parse_modifier("blink"), Ok(Modifier::SlowBlink));
    assert_eq!(parse_modifier("reverse"), Ok(Modifier::Reversed));
    assert_eq!(
        parse_modifier("wavy"),
        Err(NibbleError::ConfigError(
            "Unknown modifier 'wavy'. Valid modifiers: bold, italic, underline, dim, crossed_out, blink, reversed, hidden".to_string()
        ))
    );
}

#[test]
fn text_style_reads_colours_then_modifiers() {
    let mut c = config();
    c.fg = Some("red".to_string());
    c.bg = Some("Blue".to_string());
    c.modifier = vec!["bold".to_string(), "italic".to_string()];
    let s = c.text_style().unwrap();
    assert_eq!(s.fg, Some(Color::Red));
    assert_eq!(s.bg, Some(Color::Blue));
    assert_eq!(
        s.modifiers,
        Modifiers::none().insert(Modifier::Bold).insert(Modifier::Italic)
    );
}

#[test]
fn text_style_reports_first_bad_option() {
    let mut c = config();
    c.fg = Some("nope".to_string());
    c.modifier = vec!["wavy".to_string()];
    assert!(matches!(c.text_style(), Err(NibbleError::InvalidColor(_))));
    c.fg = None;
    c.modifier = vec!["dim".to_string(), "wavy".to_string(), "odd".to_string()];
    match c.text_style() {
        Err(NibbleError::ConfigError(m)) => assert!(m.starts_with("Unknown modifier 'wavy'")),
        other => panic!("unexpected {:?}", other),
    }
}

#[test]
fn default_config_has_rounded_border_and_plain_styles() {
    let c = config();
    assert_eq!(c.border, "rounded");
    assert_eq!(c.border_type(), Ok(BorderType::Rounded));
    let b = c.border_style().unwrap();
    assert_eq!(b.fg, None);
    assert_eq!(b.modifiers, Modifiers::none());
    let t = c.text_style().unwrap();
    assert_eq!((t.fg, t.bg, t.modifiers), (None, None, Modifiers::none()));
}

#[test]
fn border_style_uses_border_colour() {
    let mut c = config();
    c.border_color = Some("yellow".to_string());
    assert_eq!(c.border_style().unwrap().fg, Some(Color::Yellow));
    c.border_color = Some("mauve".to_string());
    assert!(matches!(c.border_style(), Err(NibbleError::InvalidColor(_))));
}

#[test]
fn gauge_style_falls_back_to_border_colour_and_is_bold() {
    let mut c = config();
    c.border_color = Some("green".to_string());
    let s = c.gauge_style().unwrap();
    assert_eq!(s.fg, Some(Color::Green));
    assert_eq!(s.modifiers, Modifiers::none().insert(Modifier::Bold));
    c.fg = Some("white".to_string());
    assert_eq!(c.gauge_style().unwrap().fg, Some(Color::White));
    let plain = config().gauge_style().unwrap();
    assert_eq!(plain.fg, None);
    assert_eq!(plain.modifiers, Modifiers::none().insert(Modifier::Bold));
}

#[test]
fn frame_is_drawn_unless_untitled_and_borderless() {
    let mut c = config();
    assert!(c.draws_block(""));
    c.border = "none".to_string();
    assert!(!c.draws_block(""));
    assert!(c.draws_block("Title"));
    let f = c.block_frame("Title").unwrap();
    assert!(!f.borders);
    assert_eq!(f.border_type, BorderType::Plain);
    assert_eq!(f.title, "Title");
    c.border = "wiggly".to_string();
    assert!(matches!(c.block_frame("x"), Err(NibbleError::InvalidBorderType(_))));
}

#[test]
fn error_messages_name_their_kind() {
    assert_eq!(
        NibbleError::InvalidColor("x".to_string()).message(),
        "Invalid color: x"
    );
    assert_eq!(
        NibbleError::ConfigError("Table data is empty".to_string()).message(),
        "Widget configuration error: Table data is empty"
    );
    assert_eq!(
        NibbleError::InvalidDimensions("h".to_string()).message(),
        "Invalid dimensions: h"
    );
}

#[test]
fn modifier_order_and_repeats_do_not_change_the_style() {
    let mut a = config();
    a.modifier = vec!["bold".to_string(), "italic".to_string(), "bold".to_string()];
    let mut b = config();
    b.modifier = vec!["Italic".to_string(), "BOLD".to_string()];
    assert_eq!(a.text_style(), b.text_style());
    let s = a.text_style().unwrap();
    assert!(s.modifiers.contains(Modifier::Bold));
    assert!(s.modifiers.contains(Modifier::Italic));
    assert!(!s.modifiers.contains(Modifier::Dim));
}
