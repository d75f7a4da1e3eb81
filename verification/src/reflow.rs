//! Greedy word-wrap with hard clipping.
//!
//! Tokens accumulate into a word until a separator, a newline, or the word
//! alone reaching the line width closes it; the word (with the token that
//! closed it) is then appended to the current line, closing the line first
//! as often as needed for the word to fit.  A newline token closes the
//! current line immediately, as its last member, and so does a line that
//! reaches exactly the width.  The end of the input flushes whatever has
//! accumulated; a zero width yields nothing at all.
//!
//! The algorithm only copies tokens and asks the two predicates about them;
//! it never inspects them itself.

use vstd::prelude::*;

verus! {

/// The wrap machine mid-run: the closed lines, the open line, the open
/// word.
#[verifier::ext_equal]
pub ghost struct Wrap<C> {
    pub lines: Seq<Seq<C>>,
    pub line: Seq<C>,
    pub word: Seq<C>,
}

/// `p` is the predicate that `f` computes: whenever `f` returns `b` on a
/// token, `b` agrees with `p`.
pub open spec fn decides<C, F: Fn(&C) -> bool>(f: F, p: spec_fn(C) -> bool) -> bool {
    forall|c: C, b: bool| #[trigger] f.ensures((&c,), b) ==> b == p(c)
}

pub open spec fn lines_view<C>(ls: Seq<Vec<C>>) -> Seq<Seq<C>> {
    ls.map_values(|l: Vec<C>| l@)
}

/// Appends `word` to `line`, first closing `line` onto `lines` as long as
/// the word does not fit.  (With an empty line the word always fits, since
/// a word is never longer than the width; the middle branch only makes the
/// definition total.)
pub open spec fn append_word_spec<C>(
    lines: Seq<Seq<C>>,
    line: Seq<C>,
    word: Seq<C>,
    width: int,
) -> (Seq<Seq<C>>, Seq<C>)
    decreases line.len(),
{
    if line.len() + word.len() <= width {
        (lines, line + word)
    } else if line.len() == 0 {
        (lines.push(word), Seq::empty())
    } else {
        append_word_spec(lines.push(line), Seq::empty(), word, width)
    }
}

/// One token through the wrap machine.
pub open spec fn wrap_step<C>(
    st: Wrap<C>,
    c: C,
    width: int,
    sep: spec_fn(C) -> bool,
    nl: spec_fn(C) -> bool,
) -> Wrap<C> {
    let word1 = st.word.push(c);
    let mid = if sep(c) || nl(c) || word1.len() == width {
        let r = append_word_spec(st.lines, st.line, word1, width);
        Wrap { lines: r.0, line: r.1, word: Seq::empty() }
    } else {
        Wrap { lines: st.lines, line: st.line, word: word1 }
    };
    if nl(c) || mid.line.len() == width {
        Wrap { lines: mid.lines.push(mid.line), line: Seq::empty(), word: mid.word }
    } else {
        mid
    }
}

pub open spec fn wrap_init<C>() -> Wrap<C> {
    Wrap { lines: Seq::empty(), line: Seq::empty(), word: Seq::empty() }
}

/// The machine run over a whole token sequence.
pub open spec fn wrap_fold<C>(
    chars: Seq<C>,
    width: int,
    sep: spec_fn(C) -> bool,
    nl: spec_fn(C) -> bool,
) -> Wrap<C>
    decreases chars.len(),
{
    if chars.len() == 0 {
        wrap_init()
    } else {
        wrap_step(wrap_fold(chars.drop_last(), width, sep, nl), chars.last(), width, sep, nl)
    }
}

/// The lines the wrap yields: the machine run over the input, the pending
/// word flushed, and a non-empty pending line closed.  A zero width yields
/// nothing.
pub open spec fn reflow_spec<C>(
    chars: Seq<C>,
    width: int,
    sep: spec_fn(C) -> bool,
    nl: spec_fn(C) -> bool,
) -> Seq<Seq<C>> {
    if width == 0 {
        Seq::empty()
    } else {
        let st = wrap_fold(chars, width, sep, nl);
        let fin = append_word_spec(st.lines, st.line, st.word, width);
        if fin.1.len() != 0 {
            fin.0.push(fin.1)
        } else {
            fin.0
        }
    }
}

/// No tokens reflow to no lines, whatever the width.
pub proof fn lemma_reflow_empty<C>(width: int, sep: spec_fn(C) -> bool, nl: spec_fn(C) -> bool)
    requires
        width >= 0,
    ensures
        reflow_spec(Seq::<C>::empty(), width, sep, nl) == Seq::<Seq<C>>::empty(),
{
}

/// A zero line width reflows to no lines, whatever the tokens.
pub proof fn lemma_reflow_zero_width<C>(
    chars: Seq<C>,
    sep: spec_fn(C) -> bool,
    nl: spec_fn(C) -> bool,
)
    ensures
        reflow_spec(chars, 0, sep, nl) == Seq::<Seq<C>>::empty(),
{
}

/// The invariant the wrap machine keeps: open line and open word stay
/// short of the width, and every closed line is non-empty and fits.
pub open spec fn wrap_inv<C>(st: Wrap<C>, width: int) -> bool {
    &&& st.word.len() < width
    &&& st.line.len() < width
    &&& forall|k: int| 0 <= k < st.lines.len() ==> 1 <= #[trigger] st.lines[k].len() <= width
}

proof fn lemma_append_word_bounded<C>(lines: Seq<Seq<C>>, line: Seq<C>, word: Seq<C>, width: int)
    requires
        width >= 1,
        word.len() <= width,
        line.len() <= width,
        forall|k: int| 0 <= k < lines.len() ==> 1 <= #[trigger] lines[k].len() <= width,
    ensures
        ({
            let r = append_word_spec(lines, line, word, width);
            &&& forall|k: int| 0 <= k < r.0.len() ==> 1 <= #[trigger] r.0[k].len() <= width
            &&& word.len() <= r.1.len() <= width
        }),
    decreases line.len(),
{
    if line.len() + word.len() <= width {
    } else if line.len() == 0 {
    } else {
        lemma_append_word_bounded(lines.push(line), Seq::empty(), word, width);
    }
}

proof fn lemma_wrap_fold_bounded<C>(
    chars: Seq<C>,
    width: int,
    sep: spec_fn(C) -> bool,
    nl: spec_fn(C) -> bool,
)
    requires
        width >= 1,
    ensures
        wrap_inv(wrap_fold(chars, width, sep, nl), width),
    decreases chars.len(),
{
    if chars.len() > 0 {
        lemma_wrap_fold_bounded(chars.drop_last(), width, sep, nl);
        let st = wrap_fold(chars.drop_last(), width, sep, nl);
        let c = chars.last();
        let word1 = st.word.push(c);
        let mid = if sep(c) || nl(c) || word1.len() == width {
            lemma_append_word_bounded(st.lines, st.line, word1, width);
            let r = append_word_spec(st.lines, st.line, word1, width);
            Wrap { lines: r.0, line: r.1, word: Seq::empty() }
        } else {
            Wrap { lines: st.lines, line: st.line, word: word1 }
        };
        assert(wrap_fold(chars, width, sep, nl) == (if nl(c) || mid.line.len() == width {
            Wrap { lines: mid.lines.push(mid.line), line: Seq::<C>::empty(), word: mid.word }
        } else {
            mid
        }));
        if nl(c) || mid.line.len() == width {
            assert(mid.line.len() >= 1);
        }
    }
}

/// Every line the wrap yields is non-empty and never wider than the
/// viewport.
pub proof fn lemma_reflow_lines_fit<C>(
    chars: Seq<C>,
    width: int,
    sep: spec_fn(C) -> bool,
    nl: spec_fn(C) -> bool,
)
    requires
        width >= 1,
    ensures
        forall|k: int|
            0 <= k < reflow_spec(chars, width, sep, nl).len() ==> 1 <= #[trigger] reflow_spec(
                chars,
                width,
                sep,
                nl,
            )[k].len() <= width,
{
    lemma_wrap_fold_bounded(chars, width, sep, nl);
    let st = wrap_fold(chars, width, sep, nl);
    lemma_append_word_bounded(st.lines, st.line, st.word, width);
}

fn append_word<C: Copy>(
    lines: &mut Vec<Vec<C>>,
    line: &mut Vec<C>,
    word: &mut Vec<C>,
    line_width: usize,
)
    requires
        line_width >= 1,
        old(word)@.len() <= line_width,
        old(line)@.len() <= line_width,
    ensures
        (lines_view(final(lines)@), final(line)@) == append_word_spec(
            lines_view(old(lines)@),
            old(line)@,
            old(word)@,
            line_width as int,
        ),
        final(word)@ == Seq::<C>::empty(),
        final(line)@.len() <= line_width,
{
    let ghost target = append_word_spec(
        lines_view(old(lines)@),
        old(line)@,
        old(word)@,
        line_width as int,
    );
    while line.len() > line_width - word.len()
        invariant
            line_width >= 1,
            word@.len() <= line_width,
            line@.len() <= line_width,
            word@ == old(word)@,
            target == append_word_spec(
                lines_view(lines@),
                line@,
                word@,
                line_width as int,
            ),
        decreases line@.len(),
    {
        let mut closed: Vec<C> = Vec::new();
        core::mem::swap(line, &mut closed);
        proof {
            assert(lines_view(lines@.push(closed)) =~= lines_view(lines@).push(closed@));
        }
        lines.push(closed);
    }
    line.append(word);
}

/// Lays `chars` out into lines of at most `line_width` tokens under greedy
/// word-wrap with hard clipping; `is_separator` and `is_newline` classify
/// the tokens.  The result is exactly [`reflow_spec`] for whatever
/// predicates the two closures compute; no tokens, or a zero width, yield
/// no lines.
pub fn reflow<C: Copy, P: Fn(&C) -> bool, F: Fn(&C) -> bool>(
    chars: &Vec<C>,
    line_width: usize,
    is_separator: P,
    is_newline: F,
) -> (r: Vec<Vec<C>>)
    requires
        forall|c: C| #[trigger] is_separator.requires((&c,)),
        forall|c: C| #[trigger] is_newline.requires((&c,)),
    ensures
        chars@.len() == 0 ==> r@ == Seq::<Vec<C>>::empty(),
        line_width == 0 ==> r@ == Seq::<Vec<C>>::empty(),
        forall|sep: spec_fn(C) -> bool, nl: spec_fn(C) -> bool|
            #![trigger decides(is_separator, sep), decides(is_newline, nl)]
            decides(is_separator, sep) && decides(is_newline, nl) ==> lines_view(r@)
                == reflow_spec(chars@, line_width as int, sep, nl),
{
    if line_width == 0 {
        return Vec::new();
    }
    let mut ret: Vec<Vec<C>> = Vec::new();
    let mut line: Vec<C> = Vec::new();
    let mut word: Vec<C> = Vec::new();
    let mut i: usize = 0;
    while i < chars.len()
        invariant
            line_width >= 1,
            0 <= i <= chars@.len(),
            word@.len() < line_width,
            line@.len() < line_width,
            chars@.len() == 0 ==> ret@ == Seq::<Vec<C>>::empty() && line@.len() == 0
                && word@.len() == 0,
            forall|c: C| #[trigger] is_separator.requires((&c,)),
            forall|c: C| #[trigger] is_newline.requires((&c,)),
            forall|sep: spec_fn(C) -> bool, nl: spec_fn(C) -> bool|
                #![trigger decides(is_separator, sep), decides(is_newline, nl)]
                decides(is_separator, sep) && decides(is_newline, nl) ==> wrap_fold(
                    chars@.take(i as int),
                    line_width as int,
                    sep,
                    nl,
                ) == (Wrap { lines: lines_view(ret@), line: line@, word: word@ }),
        decreases chars@.len() - i,
    {
        let ghost lines0 = lines_view(ret@);
        let ghost line0 = line@;
        let ghost word0 = word@;
        let c = chars[i];
        word.push(c);
        let c_sep = is_separator(&c);
        let c_nl = is_newline(&c);
        let closed_word = c_sep || c_nl || word.len() == line_width;
        if closed_word {
            append_word(&mut ret, &mut line, &mut word, line_width);
        }
        let ghost lines_mid = lines_view(ret@);
        let ghost line_mid = line@;
        let ghost word_mid = word@;
        let closed_line = c_nl || line.len() == line_width;
        if closed_line {
            let mut closed: Vec<C> = Vec::new();
            core::mem::swap(&mut line, &mut closed);
            proof {
                assert(lines_view(ret@.push(closed)) =~= lines_view(ret@).push(closed@));
            }
            ret.push(closed);
        }
        proof {
            assert(chars@.take(i + 1).drop_last() =~= chars@.take(i as int));
            assert(chars@.take(i + 1).last() == chars@[i as int]);
            assert forall|sep: spec_fn(C) -> bool, nl: spec_fn(C) -> bool|
                #![trigger decides(is_separator, sep), decides(is_newline, nl)]
                decides(is_separator, sep) && decides(is_newline, nl) implies wrap_fold(
                chars@.take(i + 1),
                line_width as int,
                sep,
                nl,
            ) == (Wrap { lines: lines_view(ret@), line: line@, word: word@ }) by {
                assert(sep(c) == c_sep);
                assert(nl(c) == c_nl);
                let st0 = Wrap { lines: lines0, line: line0, word: word0 };
                assert(wrap_fold(chars@.take(i as int), line_width as int, sep, nl) == st0);
                let st1 = wrap_step(st0, c, line_width as int, sep, nl);
                let mid = Wrap { lines: lines_mid, line: line_mid, word: word_mid };
                assert(word0.push(c) == word_mid || closed_word);
                assert(wrap_fold(chars@.take(i + 1), line_width as int, sep, nl) == st1);
                assert(st1 =~~= (Wrap { lines: lines_view(ret@), line: line@, word: word@ }));
            };
        }
        i = i + 1;
    }
    proof {
        assert(chars@.take(chars@.len() as int) =~= chars@);
    }
    let ghost lines_pre = lines_view(ret@);
    let ghost line_pre = line@;
    let ghost word_pre = word@;
    append_word(&mut ret, &mut line, &mut word, line_width);
    let flush = line.len() != 0;
    if flush {
        proof {
            assert(lines_view(ret@.push(line)) =~= lines_view(ret@).push(line@));
        }
        ret.push(line);
    }
    proof {
        if chars@.len() == 0 {
            assert(lines_view(ret@) =~= Seq::<Seq<C>>::empty());
            assert(ret@ =~= Seq::<Vec<C>>::empty());
        }
        assert forall|sep: spec_fn(C) -> bool, nl: spec_fn(C) -> bool|
            #![trigger decides(is_separator, sep), decides(is_newline, nl)]
            decides(is_separator, sep) && decides(is_newline, nl) implies lines_view(ret@)
            == reflow_spec(chars@, line_width as int, sep, nl) by {
            let st = wrap_fold(chars@, line_width as int, sep, nl);
            assert(st == (Wrap { lines: lines_pre, line: line_pre, word: word_pre }));
            assert(lines_view(ret@) =~~= reflow_spec(chars@, line_width as int, sep, nl));
        };
    }
    ret
}

} // verus!
