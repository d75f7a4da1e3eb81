use klata::data::Data;
use klata::data::ParseError;
use klata::text_model::Character;
use klata::text_model::CharacterStatus;

#[test]
fn tests_new_character_is_untyped() {
    let character = Character::new('b');
    assert_eq!(character.status(), CharacterStatus::Untyped);
}

#[test]
fn tests_correctly_attempted_character_is_correct() {
    let mut character = Character::new('b');
    character.attempt('b');
    assert_eq!(character.status(), CharacterStatus::Correct);
}

#[test]
fn tests_incorrectly_attempted_character_is_wrong() {
    let mut character = Character::new('b');
    character.attempt('x');
    assert_eq!(character.status(), CharacterStatus::Wrong);
}

#[test]
fn tests_erased_character_is_untyped() {
    let mut character = Character::new('b');
    character.attempt('x');
    character.erase();
    assert_eq!(character.status(), CharacterStatus::Untyped);
}

#[test]
fn tests_correctly_reattempted_character_is_corrected() {
    let mut character = Character::new('b');
    character.attempt('x');
    character.erase();
    character.attempt('b');
    assert_eq!(character.status(), CharacterStatus::Corrected);
}

#[test]
fn tests_incorrectly_reattempted_character_is_wrong() {
    let mut character = Character::new('b');
    character.attempt('x');
    character.erase();
    character.attempt('z');
    assert_eq!(character.status(), CharacterStatus::Wrong);
}

#[test]
fn plain_alphanumeric_is_valid() {
    let file_str = "<klata_text><text>Hello World</text></klata_text>";
    let _ = Data::from_string(file_str).unwrap();
}

#[test]
fn text_with_punctuation_is_valid() {
    let file_str = "<klata_text><text>#e(lo, W*rld!?</text></klata_text>";
    let _ = Data::from_string(file_str).unwrap();
}

#[test]
fn text_with_line_breaks_is_valid() {
    let file_str = "<klata_text><text>Hello\nWorld</text></klata_text>";
    let _ = Data::from_string(file_str).unwrap();
}

// Directional quotation marks are neutralised before the character-class
// check, so a document containing them parses; the glyphs arrive as their
// plain ASCII counterparts.
#[test]
fn text_with_directed_speech_marks_not_valid() {
    let file_str = "<klata_text><text>\u{201c}</text></klata_text>";
    let data = Data::from_string(file_str).unwrap();
    assert_eq!(data.text, "\"".to_string());
}

#[test]
fn text_with_directed_apostrophes_not_valid() {
    let file_str = "<klata_text><text>Ben\u{2019}s</text></klata_text>";
    let data = Data::from_string(file_str).unwrap();
    assert_eq!(data.text, "Ben's".to_string());
}

#[test]
fn leading_whitespace_trimmed() {
    let file_str = "<klata_text><text> Dredd</text></klata_text>";
    let data = Data::from_string(file_str).unwrap();
    assert_eq!(data.text, "Dredd".to_string());
}

// A character that neutralisation does not rescue is reported, and the
// first offender is named exactly.
#[test]
fn unsupported_character_is_reported() {
    let file_str = "<klata_text><text>caf\u{e9} cr\u{e8}me</text></klata_text>";
    let err = Data::from_string(file_str).unwrap_err();
    assert_eq!(err, ParseError::UnsupportedCharacter('\u{e9}'));
    assert_eq!(err.message(), "Unsupported character '\u{e9}'".to_string());
}
