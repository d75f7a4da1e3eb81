use klata::text_model::CharacterStatus;
use klata::text_model::TextModel;
use klata::widgets::to_styled_char;
use klata::widgets::Color;
use klata::widgets::StyledChar;
use klata::widgets::Style;
use klata::widgets::TextArea;

#[test]
fn status_picks_the_foreground() {
    assert_eq!(to_styled_char('a', CharacterStatus::Untyped, false).style.fg, Some(Color::DarkGray));
    assert_eq!(to_styled_char('a', CharacterStatus::Correct, false).style.fg, Some(Color::White));
    assert_eq!(to_styled_char('a', CharacterStatus::Corrected, false).style.fg, Some(Color::Green));
    assert_eq!(to_styled_char('a', CharacterStatus::Wrong, false).style.fg, Some(Color::Red));
}

#[test]
fn plain_characters_get_no_background() {
    assert_eq!(to_styled_char('a', CharacterStatus::Wrong, false).style.bg, None);
    assert_eq!(to_styled_char('a', CharacterStatus::Corrected, false).style.bg, None);
}

#[test]
fn styled_spaces_get_a_background_fill() {
    assert_eq!(to_styled_char(' ', CharacterStatus::Corrected, false).style.bg, Some(Color::Green));
    assert_eq!(to_styled_char(' ', CharacterStatus::Wrong, false).style.bg, Some(Color::Red));
    assert_eq!(to_styled_char(' ', CharacterStatus::Untyped, false).style.bg, None);
}

#[test]
fn cursor_background_overrides_the_space_fill() {
    let styled = to_styled_char(' ', CharacterStatus::Wrong, true);
    assert_eq!(styled.style.bg, Some(Color::White));
    assert_eq!(styled.style.fg, Some(Color::Red));
}

#[test]
fn cursor_method_sets_only_the_background() {
    let plain = StyledChar { style: Style { fg: Some(Color::Green), bg: None }, c: 'x' };
    assert_eq!(plain.cursor(false), plain);
    let marked = plain.cursor(true);
    assert_eq!(marked.style.bg, Some(Color::White));
    assert_eq!(marked.style.fg, Some(Color::Green));
    assert_eq!(marked.c, 'x');
}

#[test]
fn text_area_styles_every_cell_and_marks_the_cursor() {
    let mut model = TextModel::from_string("<klata_text><text>I am</text></klata_text>").unwrap();
    model.type_character('I');
    let area = TextArea::new(&model);
    let chars = area.characters();
    assert_eq!(chars.len(), 4);
    assert_eq!(chars[0].c, 'I');
    assert_eq!(chars[0].style.fg, Some(Color::White));
    assert_eq!(chars[0].style.bg, None);
    assert_eq!(chars[1].c, ' ');
    assert_eq!(chars[1].style.fg, Some(Color::DarkGray));
    assert_eq!(chars[1].style.bg, Some(Color::White));
}
