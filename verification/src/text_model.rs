//! The typing model of a practice session: the validated passage as a
//! buffer of cells, the cursor, and the observers that are told about every
//! accepted mutation.
//!
//! Every accepted `type_character` or `backspace` emits exactly one event,
//! synchronously and in order; the ghost event log records that sequence so
//! it can be spoken about in contracts.  A mutation past either end of the
//! buffer is a complete no-op and emits nothing.

use vstd::prelude::*;

pub use crate::text::attempted_cell;
pub use crate::text::bumped;
pub use crate::text::erased_cell;
pub use crate::text::fresh_cell;
pub use crate::text::lemma_erase_keeps_scar;
pub use crate::text::lemma_first_attempt_correct_iff;
pub use crate::text::lemma_fresh_cell_untyped;
pub use crate::text::Character;
pub use crate::text::CharacterStatus;

use crate::chars::chars_of;
use crate::data::parse_spec;
use crate::data::Data;
use crate::data::DataView;
use crate::data::ParseError;
use crate::observer::handle_is_live;
use crate::observer::handle_notify;
use crate::observer::ObserverHandle;

verus! {

/// One typing event, emitted once per accepted mutation.
#[derive(Clone, Copy, Debug, PartialEq)]
pub enum Event {
    Backspace,
    Type(char, CharacterStatus),
}

/// A subscriber capable of receiving typing events.
pub trait Observer {
    fn notify(&mut self, event: &Event);
}

/// How a keystroke `c` relates the model after `type_character` to the
/// model before it.  Past the end of the buffer nothing changes and nothing
/// is emitted; otherwise only the cell at the pre-mutation cursor changes,
/// the cursor advances by exactly one, and exactly one `Type` event is
/// emitted, carrying the keystroke and the new status of that cell.
pub open spec fn type_character_rel(pre: TextModel, post: TextModel, c: char) -> bool {
    &&& post.wf()
    &&& pre.cursor_view() >= pre.buffer_view().len() ==> {
        &&& post.buffer_view() == pre.buffer_view()
        &&& post.cursor_view() == pre.cursor_view()
        &&& post.events_view() == pre.events_view()
    }
    &&& pre.cursor_view() < pre.buffer_view().len() ==> {
        &&& post.buffer_view() == pre.buffer_view().update(
            pre.cursor_view(),
            attempted_cell(pre.buffer_view()[pre.cursor_view()], c),
        )
        &&& forall|i: int|
            0 <= i < pre.buffer_view().len() && i != pre.cursor_view()
                ==> post.buffer_view()[i] == pre.buffer_view()[i]
        &&& post.cursor_view() == pre.cursor_view() + 1
        &&& post.events_view() == pre.events_view().push(
            Event::Type(c, attempted_cell(pre.buffer_view()[pre.cursor_view()], c).spec_status()),
        )
    }
    &&& post.author_view() == pre.author_view()
    &&& post.date_view() == pre.date_view()
}

/// How the model after `backspace` relates to the model before it.  At the
/// start of the buffer nothing changes and nothing is emitted; otherwise
/// the cursor steps back by exactly one, only the cell there is erased, and
/// exactly one `Backspace` event is emitted.
pub open spec fn backspace_rel(pre: TextModel, post: TextModel) -> bool {
    &&& post.wf()
    &&& pre.cursor_view() == 0 ==> {
        &&& post.buffer_view() == pre.buffer_view()
        &&& post.cursor_view() == pre.cursor_view()
        &&& post.events_view() == pre.events_view()
    }
    &&& pre.cursor_view() > 0 ==> {
        &&& post.cursor_view() == pre.cursor_view() - 1
        &&& post.buffer_view() == pre.buffer_view().update(
            pre.cursor_view() - 1,
            erased_cell(pre.buffer_view()[pre.cursor_view() - 1]),
        )
        &&& post.events_view() == pre.events_view().push(Event::Backspace)
    }
    &&& post.author_view() == pre.author_view()
    &&& post.date_view() == pre.date_view()
}

/// A model as `from_string` builds it from the parsed document `d`: one
/// fresh cell per character of the validated passage, cursor at the start,
/// no events and no observers yet, the metadata carried through.
pub open spec fn fresh_model(m: TextModel, d: DataView) -> bool {
    &&& m.wf()
    &&& m.cursor_view() == 0
    &&& m.events_view() == Seq::<Event>::empty()
    &&& m.observers_view() == Seq::<ObserverHandle>::empty()
    &&& m.buffer_view().len() == d.text.len()
    &&& forall|i: int|
        0 <= i < m.buffer_view().len() ==> #[trigger] m.buffer_view()[i] == fresh_cell(d.text[i])
    &&& forall|i: int|
        0 <= i < m.buffer_view().len() ==> #[trigger] m.buffer_view()[i].spec_value() == d.text[i]
    &&& m.author_view() == d.author
    &&& m.date_view() == d.date
}

/// The passage being practised, the cursor, the metadata of the source
/// document, and the registered observers.
pub struct TextModel {
    buffer: Vec<Character>,
    cursor: usize,
    author: Option<String>,
    date: Option<[u16; 3]>,
    observers: Vec<ObserverHandle>,
    events: Ghost<Seq<Event>>,
}

impl TextModel {
    pub closed spec fn buffer_view(self) -> Seq<Character> {
        self.buffer@
    }

    pub closed spec fn cursor_view(self) -> int {
        self.cursor as int
    }

    pub closed spec fn author_view(self) -> Option<Seq<char>> {
        match self.author {
            None => None,
            Some(a) => Some(a@),
        }
    }

    pub closed spec fn date_view(self) -> Option<Seq<u16>> {
        match self.date {
            None => None,
            Some(d) => Some(d@),
        }
    }

    /// Every event emitted so far, oldest first.
    pub closed spec fn events_view(self) -> Seq<Event> {
        self.events@
    }

    /// The registered subscriber handles, in registration order.  (The
    /// handles themselves are opaque; pruning during notification may drop
    /// some of them.)
    pub closed spec fn observers_view(self) -> Seq<ObserverHandle> {
        self.observers@
    }

    /// The cursor never leaves `[0, length]`.
    pub open spec fn wf(self) -> bool {
        0 <= self.cursor_view() <= self.buffer_view().len()
    }

    /// Parses the raw document and builds one fresh cell per character of
    /// the validated passage, cursor at the start, no events yet and no
    /// observers yet; a document the parser rejects is rejected unchanged.
    pub fn from_string(s: &str) -> (r: Result<TextModel, ParseError>)
        ensures
            (match r {
                Ok(m) => parse_spec(s@) is Ok && fresh_model(m, parse_spec(s@)->Ok_0),
                Err(e) => parse_spec(s@) == Err::<DataView, ParseError>(e),
            }),
    {
        let data = match Data::from_string(s) {
            Ok(d) => d,
            Err(e) => {
                return Err(e);
            },
        };
        let text_chars = chars_of(data.text.as_str());
        let mut buffer: Vec<Character> = Vec::new();
        let n = text_chars.len();
        let mut i: usize = 0;
        while i < n
            invariant
                n == text_chars@.len(),
                text_chars@ == parse_spec(s@)->Ok_0.text,
                parse_spec(s@) is Ok,
                0 <= i <= n,
                buffer@.len() == i,
                forall|j: int| 0 <= j < i ==> #[trigger] buffer@[j] == fresh_cell(text_chars@[j]),
                forall|j: int|
                    0 <= j < i ==> #[trigger] buffer@[j].spec_value() == text_chars@[j],
            decreases n - i,
        {
            let c = text_chars[i];
            buffer.push(Character::new(c));
            i = i + 1;
        }
        Ok(
            TextModel {
                buffer,
                cursor: 0,
                author: data.author,
                date: data.date,
                observers: Vec::new(),
                events: Ghost(Seq::empty()),
            },
        )
    }

    /// The ordered cells, for rendering.
    pub fn characters(&self) -> (r: &Vec<Character>)
        ensures
            r@ == self.buffer_view(),
    {
        &self.buffer
    }

    pub fn cursor(&self) -> (c: usize)
        ensures
            c as int == self.cursor_view(),
    {
        self.cursor
    }

    /// Records `c` as the attempt at the cursor cell, tells every live
    /// observer, then advances the cursor.  Past the end of the buffer
    /// nothing changes and nothing is emitted.  No cell other than the one
    /// at the pre-mutation cursor is ever touched.
    pub fn type_character(&mut self, c: char)
        requires
            old(self).wf(),
        ensures
            type_character_rel(*old(self), *final(self), c),
    {
        if self.buffer.len() <= self.cursor {
            return ;
        }
        let mut cell = self.buffer[self.cursor];
        cell.attempt(c);
        self.buffer.set(self.cursor, cell);
        let status = cell.status();
        self.notify_observers(&Event::Type(c, status));
        self.cursor = self.cursor + 1;
    }

    /// Steps the cursor back, erases the attempt there (the wrong-attempt
    /// count is kept) and tells every live observer.  At the start of the
    /// buffer nothing changes and nothing is emitted.
    pub fn backspace(&mut self)
        requires
            old(self).wf(),
        ensures
            backspace_rel(*old(self), *final(self)),
    {
        if self.cursor == 0 {
            return ;
        }
        self.cursor = self.cursor - 1;
        let mut cell = self.buffer[self.cursor];
        cell.erase();
        self.buffer.set(self.cursor, cell);
        self.notify_observers(&Event::Backspace);
    }

    /// Appends a non-owning subscriber; observers are notified in
    /// registration order.  Registration itself prunes nothing and
    /// notifies nobody.
    pub fn register_observer(&mut self, observer: ObserverHandle)
        ensures
            final(self).observers_view() == old(self).observers_view().push(observer),
            final(self).buffer_view() == old(self).buffer_view(),
            final(self).cursor_view() == old(self).cursor_view(),
            final(self).events_view() == old(self).events_view(),
            final(self).author_view() == old(self).author_view(),
            final(self).date_view() == old(self).date_view(),
    {
        self.observers.push(observer);
    }

    /// One notification pass: stale handles are pruned first, then every
    /// remaining observer is told, in registration order; the event is
    /// appended to the event log.
    fn notify_observers(&mut self, event: &Event)
        ensures
            final(self).buffer_view() == old(self).buffer_view(),
            final(self).cursor_view() == old(self).cursor_view(),
            final(self).author_view() == old(self).author_view(),
            final(self).date_view() == old(self).date_view(),
            final(self).events_view() == old(self).events_view().push(*event),
    {
        let mut pending: Vec<ObserverHandle> = Vec::new();
        core::mem::swap(&mut self.observers, &mut pending);
        let mut live: Vec<ObserverHandle> = Vec::new();
        while pending.len() > 0
            decreases pending@.len(),
        {
            let handle = pending.remove(0);
            if handle_is_live(&handle) {
                live.push(handle);
            }
        }
        self.observers = live;
        let mut i: usize = 0;
        while i < self.observers.len()
            invariant
                0 <= i <= self.observers@.len(),
            decreases self.observers@.len() - i,
        {
            handle_notify(&self.observers[i], event);
            i = i + 1;
        }
        self.events = Ghost(self.events@.push(*event));
    }
}

} // verus!
