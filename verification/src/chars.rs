//! Character classes and quotation neutralisation.
//!
//! A practice text may only contain ASCII alphanumerics, ASCII whitespace,
//! ASCII punctuation and newlines.  Directional ("smart") quotation marks are
//! rewritten to their plain ASCII counterparts before that rule is checked,
//! so documents that contain them remain usable.

use vstd::prelude::*;
use vstd::string::StrSliceExecFns;

verus! {

/// The directional quotation marks that are neutralised.
pub open spec fn is_smart_quote(c: char) -> bool {
    c == '\u{201c}' || c == '\u{201d}' || c == '\u{2018}' || c == '\u{2019}'
}

/// A directional double quote becomes `"`, a directional single quote
/// becomes `'`; every other character is kept as it is.
pub open spec fn neutral_char(c: char) -> char {
    if c == '\u{201c}' || c == '\u{201d}' {
        '\u{0022}'
    } else if c == '\u{2018}' || c == '\u{2019}' {
        '\u{0027}'
    } else {
        c
    }
}

/// Neutralisation applied to a whole text.
pub open spec fn neutralised(s: Seq<char>) -> Seq<char> {
    s.map_values(|c: char| neutral_char(c))
}

pub open spec fn spec_is_ascii_alphanumeric(c: char) -> bool {
    ('0' <= c && c <= '9') || ('A' <= c && c <= 'Z') || ('a' <= c && c <= 'z')
}

pub open spec fn spec_is_ascii_whitespace(c: char) -> bool {
    c == ' ' || c == '\t' || c == '\n' || c == '\u{c}' || c == '\r'
}

/// The Unicode `White_Space` characters: U+0009..U+000D, the space, the
/// next line, the no-break spaces and figure spaces, the en/em quad family
/// U+2000..U+200A, the line and paragraph separators, and the ideographic
/// space.  This is the class leading whitespace is trimmed by.
pub open spec fn spec_is_unicode_whitespace(c: char) -> bool {
    ('\u{9}' <= c && c <= '\u{d}') || c == ' ' || c == '\u{85}' || c == '\u{a0}' || c == '\u{1680}'
        || ('\u{2000}' <= c && c <= '\u{200a}') || c == '\u{2028}' || c == '\u{2029}'
        || c == '\u{202f}' || c == '\u{205f}' || c == '\u{3000}'
}

pub open spec fn spec_is_ascii_punctuation(c: char) -> bool {
    ('!' <= c && c <= '/') || (':' <= c && c <= '@') || ('[' <= c && c <= '`')
        || ('{' <= c && c <= '~')
}

/// The character class a practice text may consist of.
pub open spec fn allowed_char(c: char) -> bool {
    spec_is_ascii_alphanumeric(c) || spec_is_ascii_whitespace(c) || spec_is_ascii_punctuation(c)
        || c == '\n'
}

/// The first character of `s` that falls outside the allowed class, if any.
pub open spec fn first_unsupported(s: Seq<char>) -> Option<char>
    decreases s.len(),
{
    if s.len() == 0 {
        None
    } else if !allowed_char(s[0]) {
        Some(s[0])
    } else {
        first_unsupported(s.drop_first())
    }
}

/// `s` with its leading Unicode whitespace removed.
pub open spec fn trim_leading(s: Seq<char>) -> Seq<char>
    decreases s.len(),
{
    if s.len() > 0 && spec_is_unicode_whitespace(s[0]) {
        trim_leading(s.drop_first())
    } else {
        s
    }
}

/// Neutralisation never produces a directional quotation mark.
pub proof fn lemma_neutralised_no_smart(s: Seq<char>, c: char)
    requires
        neutralised(s).contains(c),
    ensures
        !is_smart_quote(c),
{
    let i = choose|i: int| 0 <= i < neutralised(s).len() && neutralised(s)[i] == c;
    assert(c == neutral_char(s[i]));
}

/// `first_unsupported` is the scan it claims to be: if everything before
/// `i` is allowed and `i` is the first offender (or the end), that is what
/// it reports.
pub proof fn lemma_first_unsupported_at(s: Seq<char>, i: int)
    requires
        0 <= i <= s.len(),
        forall|j: int| 0 <= j < i ==> allowed_char(s[j]),
        i < s.len() ==> !allowed_char(s[i]),
    ensures
        first_unsupported(s) == (if i < s.len() {
            Some(s[i])
        } else {
            None::<char>
        }),
    decreases i,
{
    if i > 0 {
        lemma_first_unsupported_at(s.drop_first(), i - 1);
    }
}

pub proof fn lemma_first_unsupported_none(s: Seq<char>)
    requires
        first_unsupported(s) is None,
    ensures
        forall|i: int| 0 <= i < s.len() ==> allowed_char(s[i]),
    decreases s.len(),
{
    if s.len() > 0 {
        lemma_first_unsupported_none(s.drop_first());
        assert(forall|i: int|
            1 <= i < s.len() ==> allowed_char(#[trigger] s[i]) == allowed_char(s.drop_first()[i
                - 1]));
    }
}

pub proof fn lemma_first_unsupported_some(s: Seq<char>, c: char)
    requires
        first_unsupported(s) == Some(c),
    ensures
        s.contains(c),
        !allowed_char(c),
    decreases s.len(),
{
    if s.len() > 0 {
        if !allowed_char(s[0]) {
            assert(s[0] == c);
        } else {
            lemma_first_unsupported_some(s.drop_first(), c);
            let i = choose|i: int|
                0 <= i < s.drop_first().len() && s.drop_first()[i] == c;
            assert(s[i + 1] == c);
        }
    }
}

/// Trimming removes exactly the leading run of whitespace.
pub proof fn lemma_trim_leading_at(s: Seq<char>, k: int)
    requires
        0 <= k <= s.len(),
        forall|j: int| 0 <= j < k ==> spec_is_unicode_whitespace(s[j]),
        k < s.len() ==> !spec_is_unicode_whitespace(s[k]),
    ensures
        trim_leading(s) == s.subrange(k, s.len() as int),
    decreases k,
{
    if k == 0 {
        assert(s.subrange(0, s.len() as int) =~= s);
    } else {
        lemma_trim_leading_at(s.drop_first(), k - 1);
        assert(s.drop_first().subrange(k - 1, s.drop_first().len() as int) =~= s.subrange(
            k,
            s.len() as int,
        ));
    }
}

/// What trimming keeps was already there.
pub proof fn lemma_trim_contains(s: Seq<char>, c: char)
    requires
        trim_leading(s).contains(c),
    ensures
        s.contains(c),
    decreases s.len(),
{
    if s.len() > 0 && spec_is_unicode_whitespace(s[0]) {
        lemma_trim_contains(s.drop_first(), c);
        let i = choose|i: int| 0 <= i < s.drop_first().len() && s.drop_first()[i] == c;
        assert(s[i + 1] == c);
    }
}

/// A trimmed text never starts with whitespace.
pub proof fn lemma_trim_no_leading_ws(s: Seq<char>)
    ensures
        trim_leading(s).len() > 0 ==> !spec_is_unicode_whitespace(trim_leading(s)[0]),
    decreases s.len(),
{
    if s.len() > 0 && spec_is_unicode_whitespace(s[0]) {
        lemma_trim_no_leading_ws(s.drop_first());
    }
}

pub fn neutralise_char(c: char) -> (r: char)
    ensures
        r == neutral_char(c),
{
    if c == '\u{201c}' || c == '\u{201d}' {
        '\u{0022}'
    } else if c == '\u{2018}' || c == '\u{2019}' {
        '\u{0027}'
    } else {
        c
    }
}

pub fn is_allowed_char(c: char) -> (r: bool)
    ensures
        r == allowed_char(c),
{
    ('0' <= c && c <= '9') || ('A' <= c && c <= 'Z') || ('a' <= c && c <= 'z') || c == ' '
        || c == '\t' || c == '\n' || c == '\u{c}' || c == '\r'
        || ('!' <= c && c <= '/') || (':' <= c && c <= '@') || ('[' <= c && c <= '`')
        || ('{' <= c && c <= '~')
}

pub fn is_unicode_whitespace_char(c: char) -> (r: bool)
    ensures
        r == spec_is_unicode_whitespace(c),
{
    ('\u{9}' <= c && c <= '\u{d}') || c == ' ' || c == '\u{85}' || c == '\u{a0}'
        || c == '\u{1680}' || ('\u{2000}' <= c && c <= '\u{200a}') || c == '\u{2028}'
        || c == '\u{2029}' || c == '\u{202f}' || c == '\u{205f}' || c == '\u{3000}'
}

/// Relies on `String::push`: appends exactly one character at the end.
#[verifier::external_body]
pub(crate) fn push_char(s: &mut String, c: char)
    ensures
        final(s)@ == old(s)@.push(c),
{
    s.push(c);
}

/// The characters of `s`, one cell per scalar value.
pub fn chars_of(s: &str) -> (v: Vec<char>)
    ensures
        v@ == s@,
{
    let n = s.unicode_len();
    let mut v: Vec<char> = Vec::new();
    let mut i: usize = 0;
    while i < n
        invariant
            n == s@.len(),
            0 <= i <= n,
            v@ == s@.take(i as int),
        decreases n - i,
    {
        v.push(s.get_char(i));
        proof {
            assert(s@.take(i + 1) =~= s@.take(i as int).push(s@[i as int]));
        }
        i = i + 1;
    }
    proof {
        assert(s@.take(n as int) =~= s@);
    }
    v
}

/// The characters of `v` joined back into a string.
pub fn string_of(v: &Vec<char>) -> (s: String)
    ensures
        s@ == v@,
{
    let mut s = String::new();
    let mut i: usize = 0;
    while i < v.len()
        invariant
            0 <= i <= v@.len(),
            s@ == v@.take(i as int),
        decreases v@.len() - i,
    {
        push_char(&mut s, v[i]);
        proof {
            assert(v@.take(i + 1) =~= v@.take(i as int).push(v@[i as int]));
        }
        i = i + 1;
    }
    proof {
        assert(v@.take(v@.len() as int) =~= v@);
    }
    s
}

/// A copy of `v[a..b]`.
pub fn copy_range(v: &Vec<char>, a: usize, b: usize) -> (r: Vec<char>)
    requires
        a <= b <= v@.len(),
    ensures
        r@ == v@.subrange(a as int, b as int),
{
    let mut r: Vec<char> = Vec::new();
    let mut i: usize = a;
    while i < b
        invariant
            a <= i <= b <= v@.len(),
            r@ == v@.subrange(a as int, i as int),
        decreases b - i,
    {
        r.push(v[i]);
        proof {
            assert(v@.subrange(a as int, i + 1) =~= v@.subrange(a as int, i as int).push(
                v@[i as int],
            ));
        }
        i = i + 1;
    }
    r
}

/// Rewrites every directional quotation mark in `s` to its ASCII
/// counterpart and keeps everything else.
pub fn neutralise_quotations(s: String) -> (r: String)
    ensures
        r@ == neutralised(s@),
{
    let n = s.as_str().unicode_len();
    let mut r = String::new();
    let mut i: usize = 0;
    while i < n
        invariant
            n == s@.len(),
            0 <= i <= n,
            r@ == neutralised(s@.take(i as int)),
        decreases n - i,
    {
        let c = s.as_str().get_char(i);
        push_char(&mut r, neutralise_char(c));
        proof {
            assert(neutralised(s@.take(i + 1)) =~= neutralised(s@.take(i as int)).push(
                neutral_char(s@[i as int]),
            ));
        }
        i = i + 1;
    }
    proof {
        assert(s@.take(n as int) =~= s@);
    }
    r
}

} // verus!
