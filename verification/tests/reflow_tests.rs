use klata::reflow::reflow;

fn char_vec(s: &str) -> Vec<char> {
    s.chars().collect()
}

#[test]
fn no_characters_no_lines() {
    assert_eq!(
        reflow(&char_vec(""), 2, |&c| c == ' ', |&c| c == '\n'),
        Vec::<Vec<char>>::new()
    )
}

#[test]
fn zero_width() {
    assert_eq!(
        reflow(&char_vec("reu"), 0, |&c| c == ' ', |&c| c == '\n'),
        Vec::<Vec<char>>::new()
    )
}

#[test]
fn word_within_line() {
    assert_eq!(
        reflow(&char_vec("reu"), 4, |&c| c == ' ', |&c| c == '\n'),
        vec![char_vec("reu")]
    )
}

#[test]
fn two_words_within_line() {
    assert_eq!(
        reflow(&char_vec("reu reu"), 8, |&c| c == ' ', |&c| c == '\n'),
        vec![char_vec("reu reu")]
    )
}

#[test]
fn two_words_over_two_lines() {
    assert_eq!(
        reflow(&char_vec("reu reu"), 4, |&c| c == ' ', |&c| c == '\n'),
        vec![char_vec("reu "), char_vec("reu")]
    )
}

#[test]
fn three_words_over_two_lines() {
    assert_eq!(
        reflow(&char_vec("reu reu reu"), 8, |&c| c == ' ', |&c| c == '\n'),
        vec![char_vec("reu reu "), char_vec("reu")]
    )
}

#[test]
fn three_words_over_three_lines() {
    assert_eq!(
        reflow(&char_vec("reu reu reu"), 5, |&c| c == ' ', |&c| c == '\n'),
        vec![char_vec("reu "), char_vec("reu "), char_vec("reu")]
    )
}

#[test]
fn line_break() {
    assert_eq!(
        reflow(&char_vec("reu\nreu"), 8, |&c| c == ' ', |&c| c == '\n'),
        vec![char_vec("reu\n"), char_vec("reu")]
    )
}

#[test]
fn clipping() {
    assert_eq!(
        reflow(&char_vec("reuben"), 5, |&c| c == ' ', |&c| c == '\n'),
        vec![char_vec("reube"), char_vec("n")]
    )
}

#[test]
fn multiple_clipping() {
    assert_eq!(
        reflow(&char_vec("reu"), 1, |&c| c == ' ', |&c| c == '\n'),
        vec![char_vec("r"), char_vec("e"), char_vec("u")]
    )
}
