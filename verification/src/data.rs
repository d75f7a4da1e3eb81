//! The source-document parser.
//!
//! A practice document is a small textual markup: a root `klata_text`
//! element wrapping a `text` element (the passage), an optional `author`
//! element, and an optional `date` element that in turn wraps `d`, `m` and
//! `y` elements holding decimal integers.  A tag is `<name>` or `</name>`;
//! element content may not itself contain `<`.  Anything outside the root
//! element, and any unrecognised element, is ignored; when several root
//! elements occur the last one wins; a root, `text`, `author`, `date` or
//! date-field element left unterminated is a structural error.
//!
//! After extraction the passage is neutralised (see [`crate::chars`]),
//! stripped of leading whitespace, and checked to contain only the allowed
//! character class; the first offending character is reported.
//!
//! A missing `text` element yields an empty passage rather than an error;
//! this mirrors the permissive behaviour the format has always had.

use vstd::prelude::*;
use vstd::string::StrSliceExecFns;

use crate::chars::allowed_char;
use crate::chars::copy_range;
use crate::chars::chars_of;
use crate::chars::first_unsupported;
use crate::chars::is_allowed_char;
use crate::chars::lemma_first_unsupported_at;
use crate::chars::lemma_first_unsupported_none;
use crate::chars::lemma_first_unsupported_some;
use crate::chars::lemma_trim_leading_at;
use crate::chars::lemma_trim_no_leading_ws;
use crate::chars::string_of;
use crate::chars::is_unicode_whitespace_char;
use crate::chars::neutral_char;
use crate::chars::neutralise_char;
use crate::chars::push_char;
use crate::chars::neutralised;
use crate::chars::spec_is_unicode_whitespace;
use crate::chars::trim_leading;

verus! {

/// Why a document was rejected.
#[derive(Clone, Copy, Debug, PartialEq, Eq, Structural)]
pub enum ParseError {
    /// Malformed markup: an unterminated element, a tag without a name, or
    /// a date field that is not a decimal integer in range.
    Structure,
    /// The passage contains a character outside the allowed class; the
    /// first such character is carried.
    UnsupportedCharacter(char),
}

impl ParseError {
    /// The human-readable description of the error, character for
    /// character.
    pub fn message(&self) -> (r: String)
        ensures
            (match self {
                ParseError::Structure => r@ == "malformed document markup"@,
                ParseError::UnsupportedCharacter(c) => r@ == "Unsupported character '"@ + seq![*c]
                    + "'"@,
            }),
    {
        match self {
            ParseError::Structure => "malformed document markup".to_owned(),
            ParseError::UnsupportedCharacter(c) => {
                let mut m = "Unsupported character '".to_owned();
                push_char(&mut m, *c);
                m.append("'");
                proof {
                    assert(m@ =~= "Unsupported character '"@ + seq![*c] + "'"@);
                }
                m
            },
        }
    }
}

/// A parsed document: the validated passage and the metadata carried along
/// with it.
#[derive(Debug)]
pub struct Data {
    pub text: String,
    pub author: Option<String>,
    pub date: Option<[u16; 3]>,
}

/// The mathematical shape of a parsed document.
pub ghost struct DataView {
    pub text: Seq<char>,
    pub author: Option<Seq<char>>,
    pub date: Option<Seq<u16>>,
}

impl View for Data {
    type V = DataView;

    open spec fn view(&self) -> DataView {
        DataView {
            text: self.text@,
            author: match self.author {
                None => None,
                Some(a) => Some(a@),
            },
            date: match self.date {
                None => None,
                Some(d) => Some(d@),
            },
        }
    }
}

/// A document with no elements at all: empty passage, no metadata.
pub open spec fn empty_fields() -> DataView {
    DataView { text: Seq::empty(), author: None, date: None }
}

/// One markup token: the raw content since the previous tag, then the tag
/// itself.
pub ghost struct TagTok {
    pub gap: Seq<char>,
    pub closing: bool,
    pub name: Seq<char>,
}

/// The first position at or after `from` holding `target`.
pub open spec fn find_from_spec(s: Seq<char>, from: int, target: char) -> Option<int>
    decreases s.len() - from,
{
    if from < 0 || from >= s.len() {
        None
    } else if s[from] == target {
        Some(from)
    } else {
        find_from_spec(s, from + 1, target)
    }
}

/// Reads the tag starting at the `<` at position `i`: whether it is a
/// closing tag, its name, and the position just past the `>`.  A tag whose
/// name is empty or contains `<` is malformed.
pub open spec fn scan_tag_spec(s: Seq<char>, i: int) -> Option<(bool, Seq<char>, int)> {
    let nstart = if i + 1 < s.len() && s[i + 1] == '/' {
        i + 2
    } else {
        i + 1
    };
    let closing = nstart == i + 2;
    match find_from_spec(s, nstart, '>') {
        None => None,
        Some(j) => {
            let name = s.subrange(nstart, j);
            if name.len() == 0 || name.contains('<') {
                None
            } else {
                Some((closing, name, j + 1))
            }
        },
    }
}

/// Splits the document into its sequence of tags, each carrying the raw
/// content in front of it; content after the last tag is ignored.  `None`
/// is a tag left unterminated.  (A scanned tag always ends past where it
/// began and inside the document; the guard on `after` only makes the
/// recursion visibly well-founded.)
pub open spec fn tokenize_spec(s: Seq<char>, pos: int) -> Option<Seq<TagTok>>
    decreases s.len() - pos,
{
    match find_from_spec(s, pos, '<') {
        None => Some(Seq::empty()),
        Some(j) => match scan_tag_spec(s, j) {
            None => None,
            Some((closing, name, after)) => if after <= pos || after > s.len() {
                None
            } else {
                match tokenize_spec(s, after) {
                    None => None,
                    Some(rest) => Some(
                        Seq::empty().push(TagTok { gap: s.subrange(pos, j), closing, name }) + rest,
                    ),
                }
            },
        },
    }
}

/// The value of a sequence of decimal digits.
pub open spec fn digits_value(s: Seq<char>) -> int
    decreases s.len(),
{
    if s.len() == 0 {
        0
    } else {
        digits_value(s.drop_last()) * 10 + (s.last() as u32 - '0' as u32)
    }
}

pub open spec fn all_digits(s: Seq<char>) -> bool {
    forall|i: int| 0 <= i < s.len() ==> '0' <= s[i] && s[i] <= '9'
}

/// A date field with an optional leading plus sign stripped.
pub open spec fn digits_part(s: Seq<char>) -> Seq<char> {
    if s.len() > 0 && s[0] == '+' {
        s.drop_first()
    } else {
        s
    }
}

/// A date field: one or more decimal digits, optionally preceded by a
/// single plus sign, whose value fits in sixteen bits.
pub open spec fn parse_u16_spec(s: Seq<char>) -> Option<u16> {
    let d = digits_part(s);
    if d.len() > 0 && all_digits(d) && digits_value(d) <= u16::MAX {
        Some(digits_value(d) as u16)
    } else {
        None
    }
}

/// A date before any of its fields was seen: day, month and year all zero.
pub open spec fn zero_date() -> Seq<u16> {
    seq![0u16, 0u16, 0u16]
}

/// Consumes tokens inside a `date` element until its closing tag, filling
/// the day, month and year slots from `d`, `m` and `y` elements; yields the
/// date and the tokens that follow the element.
pub open spec fn run_date_spec(toks: Seq<TagTok>, acc: Seq<u16>) -> Option<(Seq<u16>, Seq<TagTok>)>
    decreases toks.len(),
{
    if toks.len() == 0 {
        None
    } else {
        let t = toks[0];
        if t.closing && t.name == "date"@ {
            Some((acc, toks.drop_first()))
        } else if !t.closing && (t.name == "d"@ || t.name == "m"@ || t.name == "y"@) {
            if toks.len() >= 2 && toks[1].closing && toks[1].name == t.name {
                match parse_u16_spec(toks[1].gap) {
                    None => None,
                    Some(v) => {
                        let idx: int = if t.name == "d"@ {
                            0
                        } else if t.name == "m"@ {
                            1
                        } else {
                            2
                        };
                        run_date_spec(toks.skip(2), acc.update(idx, v))
                    },
                }
            } else {
                None
            }
        } else {
            run_date_spec(toks.drop_first(), acc)
        }
    }
}

pub proof fn lemma_run_date_consumes(toks: Seq<TagTok>, acc: Seq<u16>)
    ensures
        run_date_spec(toks, acc) matches Some(r) ==> r.1.len() < toks.len(),
    decreases toks.len(),
{
    if toks.len() == 0 {
    } else {
        let t = toks[0];
        if t.closing && t.name == "date"@ {
        } else if !t.closing && (t.name == "d"@ || t.name == "m"@ || t.name == "y"@) {
            if toks.len() >= 2 && toks[1].closing && toks[1].name == t.name {
                match parse_u16_spec(toks[1].gap) {
                    None => {},
                    Some(v) => {
                        let idx: int = if t.name == "d"@ {
                            0
                        } else if t.name == "m"@ {
                            1
                        } else {
                            2
                        };
                        lemma_run_date_consumes(toks.skip(2), acc.update(idx, v));
                    },
                }
            }
        } else {
            lemma_run_date_consumes(toks.drop_first(), acc);
        }
    }
}

/// Consumes tokens inside the root element until its closing tag, reading
/// `text`, `author` and `date` elements and ignoring anything else; yields
/// the fields and the tokens that follow the root.
pub open spec fn run_root_spec(toks: Seq<TagTok>, f: DataView) -> Option<(DataView, Seq<TagTok>)>
    decreases toks.len(),
    via run_root_spec_dec
{
    if toks.len() == 0 {
        None
    } else {
        let t = toks[0];
        if t.closing && t.name == "klata_text"@ {
            Some((f, toks.drop_first()))
        } else if !t.closing && (t.name == "text"@ || t.name == "author"@) {
            if toks.len() >= 2 && toks[1].closing && toks[1].name == t.name {
                let f2 = if t.name == "text"@ {
                    DataView { text: toks[1].gap, ..f }
                } else {
                    DataView { author: Some(toks[1].gap), ..f }
                };
                run_root_spec(toks.skip(2), f2)
            } else {
                None
            }
        } else if !t.closing && t.name == "date"@ {
            match run_date_spec(toks.drop_first(), zero_date()) {
                None => None,
                Some((d, rest)) => run_root_spec(rest, DataView { date: Some(d), ..f }),
            }
        } else {
            run_root_spec(toks.drop_first(), f)
        }
    }
}

#[via_fn]
proof fn run_root_spec_dec(toks: Seq<TagTok>, f: DataView) {
    if toks.len() > 0 {
        lemma_run_date_consumes(toks.drop_first(), zero_date());
    }
}

pub proof fn lemma_run_root_consumes(toks: Seq<TagTok>, f: DataView)
    ensures
        run_root_spec(toks, f) matches Some(r) ==> r.1.len() < toks.len(),
    decreases toks.len(),
{
    if toks.len() == 0 {
    } else {
        let t = toks[0];
        if t.closing && t.name == "klata_text"@ {
        } else if !t.closing && (t.name == "text"@ || t.name == "author"@) {
            if toks.len() >= 2 && toks[1].closing && toks[1].name == t.name {
                let f2 = if t.name == "text"@ {
                    DataView { text: toks[1].gap, ..f }
                } else {
                    DataView { author: Some(toks[1].gap), ..f }
                };
                lemma_run_root_consumes(toks.skip(2), f2);
            }
        } else if !t.closing && t.name == "date"@ {
            lemma_run_date_consumes(toks.drop_first(), zero_date());
            match run_date_spec(toks.drop_first(), zero_date()) {
                None => {},
                Some((d, rest)) => {
                    lemma_run_root_consumes(rest, DataView { date: Some(d), ..f });
                },
            }
        } else {
            lemma_run_root_consumes(toks.drop_first(), f);
        }
    }
}

/// Walks the whole token stream; every open `klata_text` root is read, and
/// the last one wins.
pub open spec fn run_top_spec(toks: Seq<TagTok>, f: DataView) -> Option<DataView>
    decreases toks.len(),
    via run_top_spec_dec
{
    if toks.len() == 0 {
        Some(f)
    } else {
        let t = toks[0];
        if !t.closing && t.name == "klata_text"@ {
            match run_root_spec(toks.drop_first(), empty_fields()) {
                None => None,
                Some((f2, rest)) => run_top_spec(rest, f2),
            }
        } else {
            run_top_spec(toks.drop_first(), f)
        }
    }
}

#[via_fn]
proof fn run_top_spec_dec(toks: Seq<TagTok>, f: DataView) {
    if toks.len() > 0 {
        lemma_run_root_consumes(toks.drop_first(), empty_fields());
    }
}

/// One markup token as scanned: the raw content since the previous tag and
/// the tag itself.
pub struct Tag {
    pub gap: Vec<char>,
    pub closing: bool,
    pub name: Vec<char>,
}

impl View for Tag {
    type V = TagTok;

    open spec fn view(&self) -> TagTok {
        TagTok { gap: self.gap@, closing: self.closing, name: self.name@ }
    }
}

pub open spec fn tags_view(ts: Seq<Tag>) -> Seq<TagTok> {
    ts.map_values(|t: Tag| t@)
}

fn find_char(v: &Vec<char>, from: usize, target: char) -> (r: Option<usize>)
    ensures
        match r {
            Some(j) => find_from_spec(v@, from as int, target) == Some(j as int) && from <= j
                < v@.len() && v@[j as int] == target,
            None => find_from_spec(v@, from as int, target) is None,
        },
{
    let mut i: usize = from;
    while i < v.len()
        invariant
            from <= i,
            find_from_spec(v@, from as int, target) == find_from_spec(v@, i as int, target),
        decreases v@.len() - i,
    {
        if v[i] == target {
            return Some(i);
        }
        i = i + 1;
    }
    None
}

fn vec_contains(v: &Vec<char>, target: char) -> (r: bool)
    ensures
        r == v@.contains(target),
{
    let mut i: usize = 0;
    while i < v.len()
        invariant
            0 <= i <= v@.len(),
            forall|j: int| 0 <= j < i ==> v@[j] != target,
        decreases v@.len() - i,
    {
        if v[i] == target {
            return true;
        }
        i = i + 1;
    }
    false
}

fn chars_eq(a: &Vec<char>, b: &Vec<char>) -> (r: bool)
    ensures
        r == (a@ == b@),
{
    if a.len() != b.len() {
        return false;
    }
    let mut i: usize = 0;
    while i < a.len()
        invariant
            a@.len() == b@.len(),
            0 <= i <= a@.len(),
            forall|j: int| 0 <= j < i ==> a@[j] == b@[j],
        decreases a@.len() - i,
    {
        if a[i] != b[i] {
            return false;
        }
        i = i + 1;
    }
    proof {
        assert(a@ =~= b@);
    }
    true
}

fn name_is(name: &Vec<char>, lit: &str) -> (r: bool)
    ensures
        r == (name@ == lit@),
{
    let n = lit.unicode_len();
    if name.len() != n {
        return false;
    }
    let mut i: usize = 0;
    while i < n
        invariant
            n == lit@.len() == name@.len(),
            0 <= i <= n,
            forall|j: int| 0 <= j < i ==> name@[j] == lit@[j],
        decreases n - i,
    {
        if name[i] != lit.get_char(i) {
            return false;
        }
        i = i + 1;
    }
    proof {
        assert(name@ =~= lit@);
    }
    true
}

fn scan_tag(v: &Vec<char>, i: usize) -> (r: Option<(bool, Vec<char>, usize)>)
    requires
        i < v@.len(),
    ensures
        match r {
            Some(t) => scan_tag_spec(v@, i as int) == Some((t.0, t.1@, t.2 as int)) && i < t.2
                <= v@.len(),
            None => scan_tag_spec(v@, i as int) is None,
        },
{
    let n = v.len();
    let (closing, nstart): (bool, usize) = if i < n - 1 && v[i + 1] == '/' {
        (true, i + 2)
    } else {
        (false, i + 1)
    };
    match find_char(v, nstart, '>') {
        None => None,
        Some(j) => {
            let name = copy_range(v, nstart, j);
            if name.len() == 0 || vec_contains(&name, '<') {
                None
            } else {
                Some((closing, name, j + 1))
            }
        },
    }
}

fn tokenize(v: &Vec<char>) -> (r: Option<Vec<Tag>>)
    ensures
        match r {
            Some(tags) => tokenize_spec(v@, 0) == Some(tags_view(tags@)),
            None => tokenize_spec(v@, 0) is None,
        },
{
    let mut tags: Vec<Tag> = Vec::new();
    let mut pos: usize = 0;
    loop
        invariant
            pos <= v@.len(),
            (match tokenize_spec(v@, pos as int) {
                None => tokenize_spec(v@, 0) is None,
                Some(rest) => tokenize_spec(v@, 0) == Some(tags_view(tags@) + rest),
            }),
        decreases v@.len() - pos,
    {
        match find_char(v, pos, '<') {
            None => {
                proof {
                    assert(tokenize_spec(v@, pos as int) == Some(Seq::<TagTok>::empty()));
                    assert(tags_view(tags@) + Seq::<TagTok>::empty() =~= tags_view(tags@));
                }
                return Some(tags);
            },
            Some(j) => {
                match scan_tag(v, j) {
                    None => {
                        return None;
                    },
                    Some((closing, name, after)) => {
                        let gap = copy_range(v, pos, j);
                        let ghost tok = TagTok { gap: v@.subrange(pos as int, j as int), closing, name: name@ };
                        proof {
                            assert(tokenize_spec(v@, pos as int) == (match tokenize_spec(
                                v@,
                                after as int,
                            ) {
                                None => None::<Seq<TagTok>>,
                                Some(rest) => Some(Seq::<TagTok>::empty().push(tok) + rest),
                            }));
                        }
                        let new_tag = Tag { gap, closing, name };
                        proof {
                            assert(new_tag@ == tok);
                            assert(tags_view(tags@.push(new_tag)) =~= tags_view(tags@).push(tok));
                            if tokenize_spec(v@, after as int) is Some {
                                let rest = tokenize_spec(v@, after as int)->Some_0;
                                assert(tags_view(tags@) + (Seq::<TagTok>::empty().push(tok) + rest)
                                    =~= tags_view(tags@).push(tok) + rest);
                            }
                        }
                        tags.push(new_tag);
                        pos = after;
                    },
                }
            },
        }
    }
}

fn parse_u16(s: &Vec<char>) -> (r: Option<u16>)
    ensures
        r == parse_u16_spec(s@),
{
    let start: usize = if s.len() > 0 && s[0] == '+' {
        1
    } else {
        0
    };
    let ghost d = digits_part(s@);
    proof {
        assert(d =~= s@.subrange(start as int, s@.len() as int));
    }
    if s.len() == start {
        return None;
    }
    let mut val: u32 = 0;
    let mut i: usize = start;
    while i < s.len()
        invariant
            start <= 1,
            start < s@.len(),
            start <= i <= s@.len(),
            d == digits_part(s@),
            d == s@.subrange(start as int, s@.len() as int),
            forall|j: int| 0 <= j < i - start ==> '0' <= d[j] && d[j] <= '9',
            val == digits_value(d.take(i - start)),
            val <= 65535,
        decreases s@.len() - i,
    {
        let c = s[i];
        proof {
            assert(d[i - start] == s@[i as int]);
        }
        if c < '0' || c > '9' {
            proof {
                assert(!('0' <= d[i - start] && d[i - start] <= '9'));
                assert(!all_digits(d));
            }
            return None;
        }
        let dv: u32 = (c as u32) - ('0' as u32);
        let nv: u32 = val * 10 + dv;
        proof {
            assert(d.take(i - start + 1).drop_last() =~= d.take(i - start));
            assert(d.take(i - start + 1).last() == d[i - start]);
            assert(digits_value(d.take(i - start + 1)) == nv);
        }
        if nv > 65535 {
            proof {
                if all_digits(d) {
                    lemma_digits_value_mono(d, i - start + 1);
                    assert(digits_value(d) > u16::MAX);
                }
            }
            return None;
        }
        val = nv;
        i = i + 1;
    }
    proof {
        assert(d.take(d.len() as int) =~= d);
    }
    Some(val as u16)
}

/// The value of a digit string only grows as more digits are read.
proof fn lemma_digits_value_mono(s: Seq<char>, k: int)
    requires
        all_digits(s),
        0 <= k <= s.len(),
    ensures
        digits_value(s.take(k)) >= 0,
        digits_value(s) >= digits_value(s.take(k)),
    decreases s.len() - k,
{
    lemma_digits_value_nonneg(s, k);
    if k < s.len() {
        lemma_digits_value_mono(s, k + 1);
        assert(s.take(k + 1).drop_last() =~= s.take(k));
    } else {
        assert(s.take(k) =~= s);
    }
}

proof fn lemma_digits_value_nonneg(s: Seq<char>, k: int)
    requires
        all_digits(s),
        0 <= k <= s.len(),
    ensures
        digits_value(s.take(k)) >= 0,
    decreases k,
{
    if k > 0 {
        lemma_digits_value_nonneg(s, k - 1);
        assert(s.take(k).drop_last() =~= s.take(k - 1));
    }
}

/// The fields as they accumulate while the token stream is walked.
struct FieldsAcc {
    text: Vec<char>,
    author: Option<Vec<char>>,
    date: Option<[u16; 3]>,
}

impl View for FieldsAcc {
    type V = DataView;

    closed spec fn view(&self) -> DataView {
        DataView {
            text: self.text@,
            author: match self.author {
                None => None,
                Some(a) => Some(a@),
            },
            date: match self.date {
                None => None,
                Some(d) => Some(d@),
            },
        }
    }
}

fn clone_chars(v: &Vec<char>) -> (r: Vec<char>)
    ensures
        r@ == v@,
{
    let r = copy_range(v, 0, v.len());
    proof {
        assert(v@.subrange(0, v@.len() as int) =~= v@);
    }
    r
}

fn run_date(tags: &Vec<Tag>, start: usize) -> (r: Option<([u16; 3], usize)>)
    requires
        start <= tags@.len(),
    ensures
        match r {
            Some(t) => run_date_spec(tags_view(tags@).skip(start as int), zero_date()) == Some(
                (t.0@, tags_view(tags@).skip(t.1 as int)),
            ) && start < t.1 <= tags@.len(),
            None => run_date_spec(tags_view(tags@).skip(start as int), zero_date()) is None,
        },
{
    let ghost full = tags_view(tags@);
    let mut d: u16 = 0;
    let mut m: u16 = 0;
    let mut y: u16 = 0;
    let mut i: usize = start;
    proof {
        assert(seq![0u16, 0u16, 0u16] =~= zero_date());
    }
    loop
        invariant
            start <= i <= tags@.len(),
            full == tags_view(tags@),
            run_date_spec(full.skip(start as int), zero_date()) == run_date_spec(
                full.skip(i as int),
                seq![d, m, y],
            ),
        decreases tags@.len() - i,
    {
        if i == tags.len() {
            proof {
                assert(full.skip(i as int) =~= Seq::<TagTok>::empty());
            }
            return None;
        }
        proof {
            assert(full.skip(i as int)[0] == full[i as int]);
            assert(full.skip(i as int).drop_first() =~= full.skip(i + 1));
        }
        let closing = tags[i].closing;
        if closing && name_is(&tags[i].name, "date") {
            return Some(([d, m, y], i + 1));
        }
        let is_d = name_is(&tags[i].name, "d");
        let is_m = name_is(&tags[i].name, "m");
        let is_y = name_is(&tags[i].name, "y");
        if !closing && (is_d || is_m || is_y) {
            if i + 1 < tags.len() && tags[i + 1].closing && chars_eq(&tags[i + 1].name, &tags[i].name) {
                proof {
                    assert(full.skip(i as int)[1] == full[i + 1]);
                    assert(full.skip(i as int).skip(2) =~= full.skip(i + 2));
                }
                match parse_u16(&tags[i + 1].gap) {
                    None => {
                        return None;
                    },
                    Some(v) => {
                        proof {
                            if is_d {
                                assert(seq![d, m, y].update(0, v) =~= seq![v, m, y]);
                            } else if is_m {
                                assert(seq![d, m, y].update(1, v) =~= seq![d, v, y]);
                            } else {
                                assert(seq![d, m, y].update(2, v) =~= seq![d, m, v]);
                            }
                        }
                        if is_d {
                            d = v;
                        } else if is_m {
                            m = v;
                        } else {
                            y = v;
                        }
                        i = i + 2;
                    },
                }
            } else {
                return None;
            }
        } else {
            i = i + 1;
        }
    }
}

fn run_root(tags: &Vec<Tag>, start: usize) -> (r: Option<(FieldsAcc, usize)>)
    requires
        start <= tags@.len(),
    ensures
        match r {
            Some(t) => run_root_spec(tags_view(tags@).skip(start as int), empty_fields()) == Some(
                (t.0@, tags_view(tags@).skip(t.1 as int)),
            ) && start < t.1 <= tags@.len(),
            None => run_root_spec(tags_view(tags@).skip(start as int), empty_fields()) is None,
        },
{
    let ghost full = tags_view(tags@);
    let mut acc = FieldsAcc { text: Vec::new(), author: None, date: None };
    let mut i: usize = start;
    proof {
        assert(acc@ =~= empty_fields());
    }
    loop
        invariant
            start <= i <= tags@.len(),
            full == tags_view(tags@),
            run_root_spec(full.skip(start as int), empty_fields()) == run_root_spec(
                full.skip(i as int),
                acc@,
            ),
        decreases tags@.len() - i,
    {
        if i == tags.len() {
            proof {
                assert(full.skip(i as int) =~= Seq::<TagTok>::empty());
            }
            return None;
        }
        proof {
            assert(full.skip(i as int)[0] == full[i as int]);
            assert(full.skip(i as int).drop_first() =~= full.skip(i + 1));
        }
        let closing = tags[i].closing;
        if closing && name_is(&tags[i].name, "klata_text") {
            return Some((acc, i + 1));
        }
        let is_text = name_is(&tags[i].name, "text");
        let is_author = name_is(&tags[i].name, "author");
        if !closing && (is_text || is_author) {
            if i + 1 < tags.len() && tags[i + 1].closing && chars_eq(&tags[i + 1].name, &tags[i].name) {
                proof {
                    assert(full.skip(i as int)[1] == full[i + 1]);
                    assert(full.skip(i as int).skip(2) =~= full.skip(i + 2));
                }
                let content = clone_chars(&tags[i + 1].gap);
                if is_text {
                    acc.text = content;
                } else {
                    acc.author = Some(content);
                }
                i = i + 2;
            } else {
                return None;
            }
        } else if !closing && name_is(&tags[i].name, "date") {
            match run_date(tags, i + 1) {
                None => {
                    return None;
                },
                Some((dmy, ni)) => {
                    acc.date = Some(dmy);
                    i = ni;
                },
            }
        } else {
            i = i + 1;
        }
    }
}

fn run_top(tags: &Vec<Tag>) -> (r: Option<FieldsAcc>)
    ensures
        match r {
            Some(f) => run_top_spec(tags_view(tags@), empty_fields()) == Some(f@),
            None => run_top_spec(tags_view(tags@), empty_fields()) is None,
        },
{
    let ghost full = tags_view(tags@);
    let mut acc = FieldsAcc { text: Vec::new(), author: None, date: None };
    let mut i: usize = 0;
    proof {
        assert(acc@ =~= empty_fields());
        assert(full.skip(0) =~= full);
    }
    loop
        invariant
            0 <= i <= tags@.len(),
            full == tags_view(tags@),
            run_top_spec(full, empty_fields()) == run_top_spec(full.skip(i as int), acc@),
        decreases tags@.len() - i,
    {
        if i == tags.len() {
            proof {
                assert(full.skip(i as int) =~= Seq::<TagTok>::empty());
            }
            return Some(acc);
        }
        proof {
            assert(full.skip(i as int)[0] == full[i as int]);
            assert(full.skip(i as int).drop_first() =~= full.skip(i + 1));
        }
        let closing = tags[i].closing;
        if !closing && name_is(&tags[i].name, "klata_text") {
            match run_root(tags, i + 1) {
                None => {
                    return None;
                },
                Some((f2, ni)) => {
                    acc = f2;
                    i = ni;
                },
            }
        } else {
            i = i + 1;
        }
    }
}

fn neutralise_vec(v: &Vec<char>) -> (r: Vec<char>)
    ensures
        r@ == neutralised(v@),
{
    let mut r: Vec<char> = Vec::new();
    let mut i: usize = 0;
    while i < v.len()
        invariant
            0 <= i <= v@.len(),
            r@ == neutralised(v@.take(i as int)),
        decreases v@.len() - i,
    {
        r.push(neutralise_char(v[i]));
        proof {
            assert(neutralised(v@.take(i + 1)) =~= neutralised(v@.take(i as int)).push(
                neutral_char(v@[i as int]),
            ));
        }
        i = i + 1;
    }
    proof {
        assert(v@.take(v@.len() as int) =~= v@);
    }
    r
}

fn first_non_ws(v: &Vec<char>) -> (k: usize)
    ensures
        0 <= k <= v@.len(),
        forall|j: int| 0 <= j < k ==> spec_is_unicode_whitespace(v@[j]),
        k < v@.len() ==> !spec_is_unicode_whitespace(v@[k as int]),
{
    let mut k: usize = 0;
    while k < v.len()
        invariant
            0 <= k <= v@.len(),
            forall|j: int| 0 <= j < k ==> spec_is_unicode_whitespace(v@[j]),
        decreases v@.len() - k,
    {
        if !is_unicode_whitespace_char(v[k]) {
            return k;
        }
        k = k + 1;
    }
    k
}

fn first_bad(v: &Vec<char>) -> (r: Option<char>)
    ensures
        r == first_unsupported(v@),
{
    let mut i: usize = 0;
    while i < v.len()
        invariant
            0 <= i <= v@.len(),
            forall|j: int| 0 <= j < i ==> allowed_char(v@[j]),
        decreases v@.len() - i,
    {
        if !is_allowed_char(v[i]) {
            proof {
                lemma_first_unsupported_at(v@, i as int);
            }
            return Some(v[i]);
        }
        i = i + 1;
    }
    proof {
        lemma_first_unsupported_at(v@, v@.len() as int);
    }
    None
}

impl Data {
    /// Parses a raw document.  The result is exactly what [`parse_spec`]
    /// says: the extracted passage neutralised, trimmed and validated, the
    /// author and date carried through, or the precise error.
    pub fn from_string(s: &str) -> (r: Result<Data, ParseError>)
        ensures
            (match r {
                Ok(d) => parse_spec(s@) == Ok::<DataView, ParseError>(d@),
                Err(e) => parse_spec(s@) == Err::<DataView, ParseError>(e),
            }),
    {
        let v = chars_of(s);
        let tags = match tokenize(&v) {
            Some(t) => t,
            None => {
                return Err(ParseError::Structure);
            },
        };
        let fields = match run_top(&tags) {
            Some(f) => f,
            None => {
                return Err(ParseError::Structure);
            },
        };
        let neut = neutralise_vec(&fields.text);
        let k = first_non_ws(&neut);
        proof {
            lemma_trim_leading_at(neut@, k as int);
        }
        let trimmed = copy_range(&neut, k, neut.len());
        match first_bad(&trimmed) {
            Some(c) => Err(ParseError::UnsupportedCharacter(c)),
            None => {
                let text = string_of(&trimmed);
                let author = match fields.author {
                    None => None,
                    Some(a) => Some(string_of(&a)),
                };
                let d = Data { text, author, date: fields.date };
                proof {
                    assert(d@ =~= parse_spec(s@)->Ok_0);
                }
                Ok(d)
            },
        }
    }
}

/// A successfully parsed passage contains only allowed characters and does
/// not start with whitespace.
pub proof fn lemma_parsed_text_validated(s: Seq<char>)
    ensures
        parse_spec(s) matches Ok(d) ==> {
            &&& forall|i: int| 0 <= i < d.text.len() ==> allowed_char(d.text[i])
            &&& (d.text.len() > 0 ==> !spec_is_unicode_whitespace(d.text[0]))
        },
{
    if parse_spec(s) is Ok {
        let toks = tokenize_spec(s, 0)->Some_0;
        let f = run_top_spec(toks, empty_fields())->Some_0;
        let t = trim_leading(neutralised(f.text));
        lemma_first_unsupported_none(t);
        lemma_trim_no_leading_ws(neutralised(f.text));
    }
}

/// The character a parse failure names really is outside the allowed
/// class, and it stood in the passage.
pub proof fn lemma_reported_character_is_unsupported(s: Seq<char>, c: char)
    ensures
        parse_spec(s) == Err::<DataView, ParseError>(ParseError::UnsupportedCharacter(c))
            ==> !allowed_char(c),
{
    if parse_spec(s) == Err::<DataView, ParseError>(ParseError::UnsupportedCharacter(c)) {
        let toks = tokenize_spec(s, 0)->Some_0;
        let f = run_top_spec(toks, empty_fields())->Some_0;
        lemma_first_unsupported_some(trim_leading(neutralised(f.text)), c);
    }
}

/// Neutralisation happens before validation, so a directional quotation
/// mark is never the character a parse failure reports.
pub proof fn lemma_no_smart_quote_reported(s: Seq<char>, c: char)
    ensures
        parse_spec(s) == Err::<DataView, ParseError>(ParseError::UnsupportedCharacter(c))
            ==> !crate::chars::is_smart_quote(c),
{
    if parse_spec(s) == Err::<DataView, ParseError>(ParseError::UnsupportedCharacter(c)) {
        let toks = tokenize_spec(s, 0)->Some_0;
        let f = run_top_spec(toks, empty_fields())->Some_0;
        let t = trim_leading(neutralised(f.text));
        lemma_first_unsupported_some(t, c);
        crate::chars::lemma_trim_contains(neutralised(f.text), c);
        crate::chars::lemma_neutralised_no_smart(f.text, c);
    }
}

/// What parsing a raw document yields: the extracted fields with the
/// passage neutralised, trimmed of leading whitespace, and checked to lie
/// in the allowed character class.
pub open spec fn parse_spec(s: Seq<char>) -> Result<DataView, ParseError> {
    match tokenize_spec(s, 0) {
        None => Err(ParseError::Structure),
        Some(toks) => match run_top_spec(toks, empty_fields()) {
            None => Err(ParseError::Structure),
            Some(f) => {
                let t = trim_leading(neutralised(f.text));
                match first_unsupported(t) {
                    Some(c) => Err(ParseError::UnsupportedCharacter(c)),
                    None => Ok(DataView { text: t, author: f.author, date: f.date }),
                }
            },
        },
    }
}

} // verus!
