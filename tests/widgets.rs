use nibble::block::BlockArgs;
use nibble::confirm::{button_width, buttons_width, confirm_step, exit_code, ConfirmArgs, ConfirmStep};
use nibble::error::NibbleError;
use nibble::gauge::{gauge_color, gauge_label, gauge_quits, invert_color, next_value, GaugeArgs};
use nibble::input::{
    count_text, handle_key_event, input_segments, prompt_width, shown_value, InputAction, InputArgs,
    Segment, SpanKind,
};
use nibble::confirm::Button;
use nibble::style::{
    named_border, named_color, named_modifier, BorderType, Color, Modifier, Modifiers, Style,
    StyleConfig,
};
use nibble::widget::{centered_rect, check_height, closes_view, Key, KeyPress, Rect};

fn press(key: Key) -> KeyPress {
    KeyPress { key, ctrl: false }
}

fn gauge(value: u16, time: u64) -> GaugeArgs {
    GaugeArgs {
        value,
        label: String::new(),
        title: String::new(),
        height: 3,
        time,
        percentage: false,
        style: StyleConfig::default(),
    }
}

#[test]
fn viewing_widgets_close_on_q_escape_or_enter() {
    assert!(closes_view(Key::Char('q')));
    assert!(closes_view(Key::Esc));
    assert!(closes_view(Key::Enter));
    assert!(!closes_view(Key::Char('x')));
    assert!(!closes_view(Key::Tab));
}

#[test]
fn heights_and_block_options_are_checked() {
    assert_eq!(check_height(1), Ok(()));
    assert_eq!(
        check_height(0),
        Err(NibbleError::InvalidDimensions("Height must be greater than 0".to_string()))
    );
    let mut b = BlockArgs {
        title: String::new(),
        height: 5,
        width: 50,
        padding: 1,
        style: StyleConfig::default(),
    };
    assert_eq!(b.validate(), Ok(()));
    b.width = 101;
    assert_eq!(
        b.validate(),
        Err(NibbleError::InvalidDimensions("Width must be between 0 and 100".to_string()))
    );
}

#[test]
fn gauge_options_are_checked() {
    assert_eq!(gauge(100, 50).validate(), Ok(()));
    assert_eq!(
        gauge(101, 50).validate(),
        Err(NibbleError::InvalidDimensions("Value must be between 0 and 100".to_string()))
    );
    assert_eq!(
        gauge(10, 0).validate(),
        Err(NibbleError::InvalidDimensions("Time must be greater than 0".to_string()))
    );
}

#[test]
fn gauge_steps_up_to_its_target() {
    assert_eq!(next_value(0, 3), 1);
    assert_eq!(next_value(2, 3), 3);
    assert_eq!(next_value(3, 3), 3);
    assert_eq!(next_value(0, 0), 0);
    assert!(gauge_quits(1, 5, Key::Esc));
    assert!(!gauge_quits(1, 5, Key::Enter));
    assert!(gauge_quits(5, 5, Key::Enter));
    assert!(!gauge_quits(5, 5, Key::Char('x')));
}

#[test]
fn gauge_labels() {
    assert_eq!(gauge_label("", true, 42), "42%");
    assert_eq!(gauge_label("", false, 7), "7/100");
    assert_eq!(gauge_label("Loading", true, 100), "Loading 100%");
    assert_eq!(gauge_label("Copy", false, 0), "Copy 0/100");
}

#[test]
fn gauge_colour_and_its_contrast() {
    let mut s = StyleConfig::default();
    assert_eq!(gauge_color(&s), Ok(Color::Cyan));
    s.border_color = Some("magenta".to_string());
    assert_eq!(gauge_color(&s), Ok(Color::Magenta));
    s.fg = Some("light_blue".to_string());
    assert_eq!(gauge_color(&s), Ok(Color::LightBlue));
    s.fg = Some("pink".to_string());
    assert!(matches!(gauge_color(&s), Err(NibbleError::InvalidColor(_))));
    assert_eq!(invert_color(Color::Cyan), Color::Black);
    assert_eq!(invert_color(Color::Red), Color::White);
    assert_eq!(invert_color(Color::DarkGray), Color::White);
    assert_eq!(invert_color(Color::LightYellow), Color::Black);
    assert_eq!(invert_color(Color::Gray), Color::Black);
}

#[test]
fn confirm_keys() {
    assert_eq!(confirm_step(false, press(Key::Left)), ConfirmStep::Select(true));
    assert_eq!(confirm_step(true, press(Key::Char('l'))), ConfirmStep::Select(false));
    assert_eq!(confirm_step(true, press(Key::Tab)), ConfirmStep::Select(false));
    assert_eq!(confirm_step(false, press(Key::Char('Y'))), ConfirmStep::Answer(true));
    assert_eq!(confirm_step(true, press(Key::Char('n'))), ConfirmStep::Answer(false));
    assert_eq!(confirm_step(true, press(Key::Enter)), ConfirmStep::Answer(true));
    assert_eq!(confirm_step(true, press(Key::Char('q'))), ConfirmStep::Answer(false));
    assert_eq!(
        confirm_step(true, KeyPress { key: Key::Char('c'), ctrl: true }),
        ConfirmStep::Answer(false)
    );
    assert_eq!(confirm_step(true, press(Key::Char('c'))), ConfirmStep::Ignore);
    assert_eq!(exit_code(true), 0);
    assert_eq!(exit_code(false), 1);
}

#[test]
fn confirm_layout() {
    let c = ConfirmArgs {
        text: "Sure?".to_string(),
        affirmative: "Yes".to_string(),
        negative: "No".to_string(),
        height: 5,
        default_no: true,
        style: StyleConfig::default(),
    };
    assert!(!c.initial_selection());
    assert_eq!(c.validate(), Ok(()));
    assert_eq!(button_width("Yes", "No"), 7);
    assert_eq!(button_width("é", ""), 6);
    assert_eq!(buttons_width(7), 16);
    let area = Rect { x: 2, y: 1, width: 40, height: 10 };
    assert_eq!(centered_rect(area, 16, 3), Rect { x: 14, y: 4, width: 16, height: 3 });
    let small = Rect { x: 0, y: 0, width: 10, height: 2 };
    assert_eq!(centered_rect(small, 16, 3), Rect { x: 0, y: 0, width: 10, height: 2 });
}

#[test]
fn input_keys_respect_the_limit() {
    assert_eq!(handle_key_event(press(Key::Enter), 0, None), InputAction::Submit);
    assert_eq!(handle_key_event(press(Key::Esc), 0, None), InputAction::Cancel);
    assert_eq!(
        handle_key_event(KeyPress { key: Key::Char('c'), ctrl: true }, 0, None),
        InputAction::Cancel
    );
    assert_eq!(handle_key_event(press(Key::Char('a')), 3, Some(3)), InputAction::Ignore);
    assert_eq!(handle_key_event(press(Key::Backspace), 3, Some(3)), InputAction::Edit);
    assert_eq!(handle_key_event(press(Key::Char('a')), 2, Some(3)), InputAction::Edit);
    assert_eq!(handle_key_event(press(Key::Char('a')), 9, None), InputAction::Edit);
}

#[test]
fn input_display_pieces() {
    assert_eq!(shown_value("abc", false), "abc");
    assert_eq!(shown_value("abc", true), "***");
    assert_eq!(shown_value("é", true), "**");
    assert_eq!(count_text(3, None), " (3)");
    assert_eq!(count_text(12, Some(40)), " (12/40)");
    assert_eq!(prompt_width("Name:"), 7);
    let i = InputArgs {
        placeholder: String::new(),
        value: String::new(),
        prompt: String::new(),
        title: String::new(),
        height: 0,
        password: false,
        max_length: None,
        show_count: false,
        style: StyleConfig::default(),
    };
    assert!(i.validate().is_err());
}

#[test]
fn buttons_reverse_while_selected() {
    let b = Button::new("Yes");
    assert_eq!(b.label, "Yes");
    assert!(!b.selected);
    assert_eq!(b.face_style().modifiers, Modifiers::none());
    let styled = Style { fg: Some(Color::Red), bg: None, modifiers: Modifiers::none().insert(Modifier::Bold) };
    let b = b.style(styled).selected(true);
    let face = b.face_style();
    assert_eq!(face.fg, Some(Color::Red));
    assert_eq!(
        face.modifiers,
        Modifiers::none().insert(Modifier::Bold).insert(Modifier::Reversed)
    );
    assert_eq!(
        b.selected(false).face_style().modifiers,
        Modifiers::none().insert(Modifier::Bold)
    );
}

#[test]
fn lowercase_names_are_matched_exactly() {
    assert_eq!(named_color("light_cyan"), Some(Color::LightCyan));
    assert_eq!(named_color("Red"), None);
    assert_eq!(named_border("none"), Some(BorderType::Plain));
    assert_eq!(named_border("NONE"), None);
    assert_eq!(named_modifier("underlined"), Some(Modifier::Underlined));
    assert_eq!(named_modifier("strike"), None);
}

fn seg(text: &str, kind: SpanKind) -> Segment {
    Segment { text: text.to_string(), kind }
}

#[test]
fn input_line_pieces_mark_the_cursor() {
    assert_eq!(
        input_segments("ab", 1, false, "hint"),
        vec![seg("a", SpanKind::Text), seg("b", SpanKind::Cursor)]
    );
    assert_eq!(
        input_segments("ab", 2, false, ""),
        vec![seg("a", SpanKind::Text), seg("b", SpanKind::Text), seg(" ", SpanKind::Cursor)]
    );
    assert_eq!(
        input_segments("", 0, true, "name"),
        vec![seg(" ", SpanKind::PlaceholderCursor), seg("name", SpanKind::Placeholder)]
    );
    assert_eq!(input_segments("", 0, true, ""), vec![seg(" ", SpanKind::Cursor)]);
}

#[test]
fn button_label_is_centred_in_its_inner_area() {
    let inner = Rect { x: 10, y: 4, width: 9, height: 3 };
    assert_eq!(Button::new("Yes").label_origin(inner), (13, 5));
    assert_eq!(Button::new("A much longer label").label_origin(inner), (10, 5));
}
