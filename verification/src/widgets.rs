//! Styling of the passage for display.
//!
//! A cell's typing status picks the foreground: untyped text is muted,
//! correct text plain, corrected text green, wrong text red.  A space that
//! is corrected or wrong gets the matching background fill, since a styled
//! space has no visible glyph; the cell at the cursor always gets a
//! contrasting background, overriding the status-derived one.  Painting the
//! styled tokens to a screen is the terminal adapter's business, not ours.

use vstd::prelude::*;

use crate::text::Text;
use crate::text_model::CharacterStatus;
use crate::text_model::TextModel;

verus! {

#[derive(Clone, Copy, Debug, PartialEq, Eq, Structural)]
pub enum Color {
    DarkGray,
    White,
    Green,
    Red,
}

#[derive(Clone, Copy, Debug, PartialEq, Eq, Structural)]
pub struct Style {
    pub fg: Option<Color>,
    pub bg: Option<Color>,
}

/// A character together with the style it is painted in; the reflow
/// algorithm treats it as an opaque token.
#[derive(Clone, Copy, Debug, PartialEq, Eq, Structural)]
pub struct StyledChar {
    pub style: Style,
    pub c: char,
}

/// The one style a character gets from its status and cursor position.
pub open spec fn styled_spec(c: char, status: CharacterStatus, is_cursor: bool) -> StyledChar {
    StyledChar {
        style: Style {
            fg: match status {
                CharacterStatus::Untyped => Some(Color::DarkGray),
                CharacterStatus::Correct => Some(Color::White),
                CharacterStatus::Corrected => Some(Color::Green),
                CharacterStatus::Wrong => Some(Color::Red),
            },
            bg: if is_cursor {
                Some(Color::White)
            } else if c == ' ' && status == CharacterStatus::Corrected {
                Some(Color::Green)
            } else if c == ' ' && status == CharacterStatus::Wrong {
                Some(Color::Red)
            } else {
                None
            },
        },
        c,
    }
}

/// Maps one cell to its display style.
pub fn to_styled_char(c: char, status: CharacterStatus, is_cursor: bool) -> (r: StyledChar)
    ensures
        r == styled_spec(c, status, is_cursor),
{
    StyledChar {
        style: Style {
            fg: match status {
                CharacterStatus::Untyped => Some(Color::DarkGray),
                CharacterStatus::Correct => Some(Color::White),
                CharacterStatus::Corrected => Some(Color::Green),
                CharacterStatus::Wrong => Some(Color::Red),
            },
            bg: if is_cursor {
                Some(Color::White)
            } else if c == ' ' && status == CharacterStatus::Corrected {
                Some(Color::Green)
            } else if c == ' ' && status == CharacterStatus::Wrong {
                Some(Color::Red)
            } else {
                None
            },
        },
        c,
    }
}

impl StyledChar {
    /// Overrides the background with the cursor fill when this is the cell
    /// at the cursor; otherwise leaves the token alone.
    pub fn cursor(self, is_cursor: bool) -> (r: StyledChar)
        ensures
            !is_cursor ==> r == self,
            is_cursor ==> r == (StyledChar {
                style: Style { fg: self.style.fg, bg: Some(Color::White) },
                c: self.c,
            }),
    {
        if !is_cursor {
            return self;
        }
        StyledChar { style: Style { fg: self.style.fg, bg: Some(Color::White) }, c: self.c }
    }
}

/// The passage of a model styled token by token, ready for reflow and
/// painting.
pub struct TextArea {
    characters: Vec<StyledChar>,
}

impl TextArea {
    pub closed spec fn chars_view(self) -> Seq<StyledChar> {
        self.characters@
    }

    /// Styles every cell of the model, marking the cell at the cursor.
    pub fn new(text: &TextModel) -> (r: TextArea)
        ensures
            r.chars_view().len() == text.buffer_view().len(),
            forall|i: int|
                0 <= i < text.buffer_view().len() ==> #[trigger] r.chars_view()[i] == styled_spec(
                    text.buffer_view()[i].spec_value(),
                    text.buffer_view()[i].spec_status(),
                    i == text.cursor_view(),
                ),
    {
        let cells = text.characters();
        let cursor = text.cursor();
        let mut characters: Vec<StyledChar> = Vec::new();
        let mut i: usize = 0;
        while i < cells.len()
            invariant
                cells@ == text.buffer_view(),
                cursor as int == text.cursor_view(),
                0 <= i <= cells@.len(),
                characters@.len() == i,
                forall|j: int|
                    0 <= j < i ==> #[trigger] characters@[j] == styled_spec(
                        cells@[j].spec_value(),
                        cells@[j].spec_status(),
                        j == text.cursor_view(),
                    ),
            decreases cells@.len() - i,
        {
            let cell = &cells[i];
            characters.push(to_styled_char(cell.value(), cell.status(), i == cursor));
            i = i + 1;
        }
        TextArea { characters }
    }

    /// The styled tokens, in passage order.
    pub fn characters(&self) -> (r: &Vec<StyledChar>)
        ensures
            r@ == self.chars_view(),
    {
        &self.characters
    }
}

/// A widget over a plain practice buffer; the terminal adapter styles and
/// paints it.
pub struct ParagraphWidget<'a> {
    text: &'a Text,
}

impl<'a> ParagraphWidget<'a> {
    pub closed spec fn text_view(self) -> Text {
        *self.text
    }

    pub fn new(text: &'a Text) -> (r: ParagraphWidget<'a>)
        ensures
            r.text_view() == *text,
    {
        ParagraphWidget { text }
    }

    /// The buffer this widget shows.
    pub fn text(&self) -> (r: &'a Text)
        ensures
            *r == self.text_view(),
    {
        self.text
    }
}

} // verus!
