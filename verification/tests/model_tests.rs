use klata::text::CharacterStatus as TextStatus;
use klata::text::Text;
use klata::text_model::CharacterStatus;
use klata::text_model::TextModel;

fn statuses(model: &TextModel) -> Vec<CharacterStatus> {
    model.characters().iter().map(|c| c.status()).collect()
}

#[test]
fn fresh_model_is_all_untyped_with_cursor_at_start() {
    let model = TextModel::from_string("<klata_text><text>abc</text></klata_text>").unwrap();
    assert_eq!(model.cursor(), 0);
    assert_eq!(
        statuses(&model),
        vec![CharacterStatus::Untyped, CharacterStatus::Untyped, CharacterStatus::Untyped]
    );
}

#[test]
fn typing_touches_only_the_cursor_cell() {
    let mut model = TextModel::from_string("<klata_text><text>abc</text></klata_text>").unwrap();
    model.type_character('x');
    assert_eq!(model.cursor(), 1);
    assert_eq!(
        statuses(&model),
        vec![CharacterStatus::Wrong, CharacterStatus::Untyped, CharacterStatus::Untyped]
    );
}

#[test]
fn cursor_is_clamped_at_both_ends() {
    let mut model = TextModel::from_string("<klata_text><text>ab</text></klata_text>").unwrap();
    model.backspace();
    assert_eq!(model.cursor(), 0);
    model.type_character('a');
    model.type_character('b');
    assert_eq!(model.cursor(), 2);
    model.type_character('c');
    assert_eq!(model.cursor(), 2);
    assert_eq!(
        statuses(&model),
        vec![CharacterStatus::Correct, CharacterStatus::Correct]
    );
}

#[test]
fn backspace_keeps_the_scar() {
    let mut model = TextModel::from_string("<klata_text><text>ab</text></klata_text>").unwrap();
    model.type_character('x');
    model.backspace();
    assert_eq!(statuses(&model), vec![CharacterStatus::Untyped, CharacterStatus::Untyped]);
    model.type_character('a');
    assert_eq!(statuses(&model), vec![CharacterStatus::Corrected, CharacterStatus::Untyped]);
}

#[test]
fn model_cell_values_are_the_passage() {
    let model = TextModel::from_string("<klata_text><text>ok!</text></klata_text>").unwrap();
    let values: Vec<char> = model.characters().iter().map(|c| c.value()).collect();
    assert_eq!(values, vec!['o', 'k', '!']);
}

#[test]
fn plain_text_buffer_wraps_the_string() {
    let mut text = Text::from_string("ab".to_string());
    assert_eq!(text.cursor(), 0);
    assert_eq!(text.characters().len(), 2);
    text.type_character('a');
    assert_eq!(text.cursor(), 1);
    assert_eq!(text.characters()[0].status(), TextStatus::Correct);
    text.backspace();
    assert_eq!(text.cursor(), 0);
    assert_eq!(text.characters()[0].status(), TextStatus::Untyped);
}

#[test]
fn empty_passage_accepts_no_typing() {
    let mut model = TextModel::from_string("<klata_text><text></text></klata_text>").unwrap();
    assert_eq!(model.characters().len(), 0);
    model.type_character('a');
    model.backspace();
    assert_eq!(model.cursor(), 0);
}

#[test]
fn plain_text_buffer_keeps_raw_targets() {
    let text = Text::from_string("\u{201c}a".to_string());
    assert_eq!(text.characters()[0].value(), '\u{201c}');
    assert_eq!(text.characters()[1].value(), 'a');
}

#[test]
fn rejected_document_builds_no_model() {
    let err = TextModel::from_string("<klata_text><text>\u{3b1}</text></klata_text>");
    assert!(err.is_err());
}
