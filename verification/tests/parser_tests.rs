use klata::chars::neutralise_quotations;
use klata::data::Data;
use klata::data::ParseError;

#[test]
fn author_and_date_are_carried_through() {
    let file_str = "<klata_text><text>hi</text><author>Judge</author>\
                    <date><d>3</d><m>1</m><y>2023</y></date></klata_text>";
    let data = Data::from_string(file_str).unwrap();
    assert_eq!(data.text, "hi".to_string());
    assert_eq!(data.author, Some("Judge".to_string()));
    assert_eq!(data.date, Some([3u16, 1u16, 2023u16]));
}

#[test]
fn missing_text_element_yields_empty_passage() {
    let file_str = "<klata_text><author>Judge</author></klata_text>";
    let data = Data::from_string(file_str).unwrap();
    assert_eq!(data.text, "".to_string());
}

#[test]
fn document_without_root_yields_empty_passage() {
    let data = Data::from_string("nothing to see here").unwrap();
    assert_eq!(data.text, "".to_string());
    assert_eq!(data.author, None);
    assert_eq!(data.date, None);
}

#[test]
fn unterminated_root_is_a_structure_error() {
    let err = Data::from_string("<klata_text><text>hi</text>").unwrap_err();
    assert_eq!(err, ParseError::Structure);
}

#[test]
fn unterminated_text_element_is_a_structure_error() {
    let err = Data::from_string("<klata_text><text>hi</klata_text>").unwrap_err();
    assert_eq!(err, ParseError::Structure);
}

#[test]
fn unterminated_tag_is_a_structure_error() {
    let err = Data::from_string("<klata_text><text").unwrap_err();
    assert_eq!(err, ParseError::Structure);
}

#[test]
fn empty_tag_name_is_a_structure_error() {
    let err = Data::from_string("<klata_text><></klata_text>").unwrap_err();
    assert_eq!(err, ParseError::Structure);
}

#[test]
fn non_numeric_date_field_is_a_structure_error() {
    let file_str = "<klata_text><date><d>three</d></date></klata_text>";
    let err = Data::from_string(file_str).unwrap_err();
    assert_eq!(err, ParseError::Structure);
}

#[test]
fn date_field_out_of_range_is_a_structure_error() {
    let file_str = "<klata_text><date><y>70000</y></date></klata_text>";
    let err = Data::from_string(file_str).unwrap_err();
    assert_eq!(err, ParseError::Structure);
}

#[test]
fn date_field_with_leading_plus_is_accepted() {
    let file_str = "<klata_text><text>x</text><date><d>+3</d></date></klata_text>";
    let data = Data::from_string(file_str).unwrap();
    assert_eq!(data.date, Some([3u16, 0u16, 0u16]));
}

#[test]
fn lone_plus_date_field_is_a_structure_error() {
    let file_str = "<klata_text><date><d>+</d></date></klata_text>";
    let err = Data::from_string(file_str).unwrap_err();
    assert_eq!(err, ParseError::Structure);
}

#[test]
fn leading_unicode_whitespace_is_trimmed() {
    let file_str = "<klata_text><text>\u{a0}\u{2003} Dredd</text></klata_text>";
    let data = Data::from_string(file_str).unwrap();
    assert_eq!(data.text, "Dredd".to_string());
}

#[test]
fn missing_date_fields_default_to_zero() {
    let file_str = "<klata_text><text>x</text><date><y>2023</y></date></klata_text>";
    let data = Data::from_string(file_str).unwrap();
    assert_eq!(data.date, Some([0u16, 0u16, 2023u16]));
}

#[test]
fn later_root_wins() {
    let file_str = "<klata_text><text>one</text></klata_text>\
                    <klata_text><text>two</text></klata_text>";
    let data = Data::from_string(file_str).unwrap();
    assert_eq!(data.text, "two".to_string());
}

#[test]
fn unknown_elements_are_ignored() {
    let file_str = "<klata_text><junk>skip</junk><text>kept</text></klata_text>";
    let data = Data::from_string(file_str).unwrap();
    assert_eq!(data.text, "kept".to_string());
}

#[test]
fn smart_quotes_are_neutralised_in_the_passage() {
    let file_str = "<klata_text><text>\u{201c}hi\u{2018}there\u{201d}</text></klata_text>";
    let data = Data::from_string(file_str).unwrap();
    assert_eq!(data.text, "\"hi'there\"".to_string());
}

#[test]
fn first_unsupported_character_only_is_reported() {
    let file_str = "<klata_text><text>a\u{3b1}b\u{3b2}</text></klata_text>";
    let err = Data::from_string(file_str).unwrap_err();
    assert_eq!(err, ParseError::UnsupportedCharacter('\u{3b1}'));
}

#[test]
fn neutralise_quotations_rewrites_all_four_marks() {
    let s = "\u{201c}a\u{201d}b\u{2018}c\u{2019}d".to_string();
    assert_eq!(neutralise_quotations(s), "\"a\"b'c'd".to_string());
}

#[test]
fn neutralise_quotations_keeps_plain_text() {
    let s = "plain text!".to_string();
    assert_eq!(neutralise_quotations(s), "plain text!".to_string());
}
