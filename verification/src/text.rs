//! A standalone practice buffer: one cell per character of the passage, a
//! cursor, and the two mutations a typist can make.
//!
//! A cell's status is never stored; it is always recomputed from the last
//! attempt and the count of wrong attempts, so the two can never diverge.

use vstd::pervasive::VecAdditionalExecFns;
use vstd::prelude::*;
use vstd::string::StrSliceExecFns;

verus! {

#[derive(Clone, Copy, Debug, PartialEq, Eq, Structural)]
pub enum CharacterStatus {
    Untyped,
    Correct,
    Corrected,
    Wrong,
}

/// One target character together with its typing-attempt history.
#[derive(Clone, Copy, Debug)]
pub struct Character {
    value: char,
    typed_value: Option<char>,
    wrong_attempts: u32,
}

/// The wrong-attempt counter after one more wrong attempt; it sticks at the
/// top of its range instead of wrapping.
pub open spec fn bumped(w: u32) -> u32 {
    if w == u32::MAX {
        w
    } else {
        (w + 1) as u32
    }
}

/// A cell as `Character::new` builds it: the target is the given character
/// itself, immutable from then on, and nothing has been attempted.
/// (Quotation neutralisation is the parser's business, before the text ever
/// reaches a cell.)
pub closed spec fn fresh_cell(value: char) -> Character {
    Character { value, typed_value: None, wrong_attempts: 0 }
}

/// The cell after an attempt with `c`.
pub closed spec fn attempted_cell(cell: Character, c: char) -> Character {
    Character {
        value: cell.value,
        typed_value: Some(c),
        wrong_attempts: if c == cell.value {
            cell.wrong_attempts
        } else {
            bumped(cell.wrong_attempts)
        },
    }
}

/// The cell after its attempt is erased; the wrong-attempt count is kept.
pub closed spec fn erased_cell(cell: Character) -> Character {
    Character { value: cell.value, typed_value: None, wrong_attempts: cell.wrong_attempts }
}

impl Character {
    pub closed spec fn spec_value(self) -> char {
        self.value
    }

    pub closed spec fn spec_typed(self) -> Option<char> {
        self.typed_value
    }

    pub closed spec fn spec_wrong(self) -> u32 {
        self.wrong_attempts
    }

    /// The derived status: a pure function of the attempt and the
    /// wrong-attempt count, never stored.
    pub open spec fn spec_status(self) -> CharacterStatus {
        match self.spec_typed() {
            None => CharacterStatus::Untyped,
            Some(typed) => if self.spec_wrong() == 0 {
                CharacterStatus::Correct
            } else if typed == self.spec_value() {
                CharacterStatus::Corrected
            } else {
                CharacterStatus::Wrong
            },
        }
    }

    pub fn new(value: char) -> (r: Character)
        ensures
            r == fresh_cell(value),
            r.spec_value() == value,
            r.spec_typed() is None,
            r.spec_wrong() == 0,
    {
        Character { value, typed_value: None, wrong_attempts: 0 }
    }

    pub fn value(&self) -> (c: char)
        ensures
            c == self.spec_value(),
    {
        self.value
    }

    pub fn status(&self) -> (s: CharacterStatus)
        ensures
            s == self.spec_status(),
    {
        if let Some(typed) = self.typed_value {
            match self.wrong_attempts {
                0u32 => CharacterStatus::Correct,
                _ => {
                    if typed == self.value {
                        CharacterStatus::Corrected
                    } else {
                        CharacterStatus::Wrong
                    }
                },
            }
        } else {
            CharacterStatus::Untyped
        }
    }

    pub fn attempt(&mut self, c: char)
        ensures
            *final(self) == attempted_cell(*old(self), c),
            final(self).spec_value() == old(self).spec_value(),
            final(self).spec_typed() == Some(c),
            final(self).spec_wrong() == (if c == old(self).spec_value() {
                old(self).spec_wrong()
            } else {
                bumped(old(self).spec_wrong())
            }),
    {
        self.typed_value = Some(c);
        if c != self.value {
            if self.wrong_attempts < u32::MAX {
                self.wrong_attempts = self.wrong_attempts + 1;
            }
        }
    }

    pub fn erase(&mut self)
        ensures
            *final(self) == erased_cell(*old(self)),
            final(self).spec_value() == old(self).spec_value(),
            final(self).spec_typed() is None,
            final(self).spec_wrong() == old(self).spec_wrong(),
    {
        self.typed_value = None;
    }
}

/// What a fresh cell holds, field by field.
pub proof fn lemma_fresh_cell_fields(value: char)
    ensures
        fresh_cell(value).spec_value() == value,
        fresh_cell(value).spec_typed() is None,
        fresh_cell(value).spec_wrong() == 0,
{
}

/// What an attempt does to a cell, field by field: it records the
/// keystroke and counts it when it misses the target.
pub proof fn lemma_attempted_cell_fields(cell: Character, c: char)
    ensures
        attempted_cell(cell, c).spec_value() == cell.spec_value(),
        attempted_cell(cell, c).spec_typed() == Some(c),
        attempted_cell(cell, c).spec_wrong() == (if c == cell.spec_value() {
            cell.spec_wrong()
        } else {
            bumped(cell.spec_wrong())
        }),
{
}

/// What erasing does to a cell, field by field: the attempt goes, the
/// wrong-attempt count stays.
pub proof fn lemma_erased_cell_fields(cell: Character)
    ensures
        erased_cell(cell).spec_value() == cell.spec_value(),
        erased_cell(cell).spec_typed() is None,
        erased_cell(cell).spec_wrong() == cell.spec_wrong(),
{
}

/// A freshly constructed cell is untyped, whatever its target character is.
pub proof fn lemma_fresh_cell_untyped(value: char)
    ensures
        fresh_cell(value).spec_status() == CharacterStatus::Untyped,
{
}

/// A single attempt on a fresh cell is correct exactly when it matches the
/// cell's target.
pub proof fn lemma_first_attempt_correct_iff(value: char, c: char)
    ensures
        attempted_cell(fresh_cell(value), c).spec_status() == CharacterStatus::Correct <==> c
            == value,
{
}

/// A wrong attempt scars the cell permanently: after erasing, a matching
/// attempt yields `Corrected`, never `Correct`, and a second wrong attempt
/// yields `Wrong`.
pub proof fn lemma_erase_keeps_scar(value: char, c1: char, c2: char)
    requires
        c1 != value,
    ensures
        attempted_cell(erased_cell(attempted_cell(fresh_cell(value), c1)), value).spec_status()
            == CharacterStatus::Corrected,
        c2 != value ==> attempted_cell(
            erased_cell(attempted_cell(fresh_cell(value), c1)),
            c2,
        ).spec_status() == CharacterStatus::Wrong,
{
}

/// An ordered buffer of cells and the insertion cursor.
pub struct Text {
    buffer: Vec<Character>,
    cursor: usize,
}

impl Text {
    pub closed spec fn buffer_view(self) -> Seq<Character> {
        self.buffer@
    }

    pub closed spec fn cursor_view(self) -> int {
        self.cursor as int
    }

    /// The cursor never leaves `[0, length]`.
    pub open spec fn wf(self) -> bool {
        0 <= self.cursor_view() <= self.buffer_view().len()
    }

    /// One fresh cell per character of `s`, cursor at the start.
    pub fn from_string(s: String) -> (t: Text)
        ensures
            t.wf(),
            t.cursor_view() == 0,
            t.buffer_view().len() == s@.len(),
            forall|i: int|
                0 <= i < s@.len() ==> t.buffer_view()[i] == fresh_cell(s@[i]),
    {
        let n = s.as_str().unicode_len();
        let mut buffer: Vec<Character> = Vec::new();
        let mut i: usize = 0;
        while i < n
            invariant
                n == s@.len(),
                0 <= i <= n,
                buffer@.len() == i,
                forall|j: int| 0 <= j < i ==> buffer@[j] == fresh_cell(s@[j]),
            decreases n - i,
        {
            let c = s.as_str().get_char(i);
            buffer.push(Character::new(c));
            i = i + 1;
        }
        Text { buffer, cursor: 0 }
    }

    pub fn characters(&self) -> (r: &Vec<Character>)
        ensures
            r@ == self.buffer_view(),
    {
        &self.buffer
    }

    pub fn cursor(&self) -> (c: usize)
        ensures
            c as int == self.cursor_view(),
    {
        self.cursor
    }

    /// Records `c` as the attempt at the cursor cell and advances the
    /// cursor; past the end of the buffer it does nothing.
    pub fn type_character(&mut self, c: char)
        requires
            old(self).wf(),
        ensures
            final(self).wf(),
            old(self).cursor_view() >= old(self).buffer_view().len() ==> *final(self) == *old(
                self,
            ),
            old(self).cursor_view() < old(self).buffer_view().len() ==> {
                &&& final(self).buffer_view() == old(self).buffer_view().update(
                    old(self).cursor_view(),
                    attempted_cell(old(self).buffer_view()[old(self).cursor_view()], c),
                )
                &&& final(self).cursor_view() == old(self).cursor_view() + 1
            },
    {
        if self.buffer.len() <= self.cursor {
            return ;
        }
        let mut cell = self.buffer[self.cursor];
        cell.attempt(c);
        self.buffer.set(self.cursor, cell);
        self.cursor = self.cursor + 1;
    }

    /// Steps the cursor back and erases the attempt there; at the start of
    /// the buffer it does nothing.
    pub fn backspace(&mut self)
        requires
            old(self).wf(),
        ensures
            final(self).wf(),
            old(self).cursor_view() == 0 ==> *final(self) == *old(self),
            old(self).cursor_view() > 0 ==> {
                &&& final(self).cursor_view() == old(self).cursor_view() - 1
                &&& final(self).buffer_view() == old(self).buffer_view().update(
                    old(self).cursor_view() - 1,
                    erased_cell(old(self).buffer_view()[old(self).cursor_view() - 1]),
                )
            },
    {
        if self.cursor == 0 {
            return ;
        }
        self.cursor = self.cursor - 1;
        let mut cell = self.buffer[self.cursor];
        cell.erase();
        self.buffer.set(self.cursor, cell);
    }
}

} // verus!
