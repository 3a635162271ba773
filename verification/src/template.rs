//! Text templates: the mnemonic line of an instruction, cut into literal text
//! and references to fields.
use vstd::prelude::*;

verus! {

/// One part of a template: text alone, or text followed by the name of a
/// field whose value is shown after it.
#[derive(PartialEq, Eq, Debug)]
pub enum TextInstructionPart {
    Text(String),
    TextIdent(String, String),
}

/// A template: its parts in the order in which they are shown.
#[derive(PartialEq, Eq, Debug)]
pub struct TextInstruction {
    pub list: Vec<TextInstructionPart>,
}

/// A part as a mathematical value.
pub enum PartView {
    Text(Seq<char>),
    TextIdent(Seq<char>, Seq<char>),
}

impl View for TextInstructionPart {
    type V = PartView;

    open spec fn view(&self) -> PartView {
        match self {
            TextInstructionPart::Text(s) => PartView::Text(s@),
            TextInstructionPart::TextIdent(s, ident) => PartView::TextIdent(s@, ident@),
        }
    }
}

/// The parts of a list as mathematical values.
pub open spec fn parts_view(list: Seq<TextInstructionPart>) -> Seq<PartView> {
    Seq::new(list.len(), |i: int| list[i]@)
}

impl View for TextInstruction {
    type V = Seq<PartView>;

    open spec fn view(&self) -> Seq<PartView> {
        parts_view(self.list@)
    }
}

impl TextInstructionPart {
    /// A part of text alone.
    pub fn text(s: &str) -> (r: TextInstructionPart)
        ensures
            r@ == PartView::Text(s@),
    {
        TextInstructionPart::Text(s.to_owned())
    }

    /// A part of text followed by a field.
    pub fn text_ident(s1: &str, s2: &str) -> (r: TextInstructionPart)
        ensures
            r@ == PartView::TextIdent(s1@, s2@),
    {
        TextInstructionPart::TextIdent(s1.to_owned(), s2.to_owned())
    }
}

/// An ASCII letter.
pub open spec fn is_alpha(c: char) -> bool {
    ('a' <= c && c <= 'z') || ('A' <= c && c <= 'Z')
}

/// A character that may follow the first letter of a name: an ASCII letter or
/// digit, or a dot.
pub open spec fn is_word(c: char) -> bool {
    is_alpha(c) || ('0' <= c && c <= '9') || c == '.'
}

/// The first position from `pos` on that holds no name character.
pub open spec fn word_end(t: Seq<char>, pos: int) -> int
    decreases t.len() - pos,
{
    if 0 <= pos < t.len() && is_word(t[pos]) {
        word_end(t, pos + 1)
    } else {
        pos
    }
}

/// The run of name characters from `pos` ends within the text.
pub proof fn lemma_word_end(t: Seq<char>, pos: int)
    requires
        0 <= pos <= t.len(),
    ensures
        pos <= word_end(t, pos) <= t.len(),
        forall|i: int| pos <= i < word_end(t, pos) ==> is_word(#[trigger] t[i]),
        word_end(t, pos) < t.len() ==> !is_word(t[word_end(t, pos)]),
    decreases t.len() - pos,
{
    if pos < t.len() && is_word(t[pos]) {
        lemma_word_end(t, pos + 1);
    }
}

/// The names in the text from `pos` on, as pairs of start and end: a name
/// starts at the first letter met and runs over the name characters that
/// follow; the search goes on behind it.
pub open spec fn token_spans(t: Seq<char>, pos: int) -> Seq<(int, int)>
    decreases t.len() - pos,
    via token_spans_decreases
{
    if 0 <= pos < t.len() {
        if is_alpha(t[pos]) {
            seq![(pos, word_end(t, pos + 1))] + token_spans(t, word_end(t, pos + 1))
        } else {
            token_spans(t, pos + 1)
        }
    } else {
        Seq::empty()
    }
}

#[via_fn]
proof fn token_spans_decreases(t: Seq<char>, pos: int) {
    if 0 <= pos < t.len() {
        lemma_word_end(t, pos + 1);
    }
}

/// The template that the names found in a text give. The first name is the
/// mnemonic and stays text. Each later name is a field, shown after the text
/// that lies between it and the field before (for the first field: all the
/// text before it). What follows the last field is text of its own.
pub open spec fn template_parts(t: Seq<char>, spans: Seq<(int, int)>) -> Seq<PartView> {
    let fields = Seq::new(
        if spans.len() >= 1 {
            (spans.len() - 1) as nat
        } else {
            0
        },
        |i: int|
            PartView::TextIdent(
                t.subrange(
                    if i == 0 {
                        0
                    } else {
                        spans[i].1
                    },
                    spans[i + 1].0,
                ),
                t.subrange(spans[i + 1].0, spans[i + 1].1),
            ),
    );
    let rest = if spans.len() <= 1 {
        0
    } else {
        spans[spans.len() - 1].1
    };
    if rest < t.len() {
        fields.push(PartView::Text(t.subrange(rest, t.len() as int)))
    } else {
        fields
    }
}

/// The template of a text.
pub open spec fn template_of(t: Seq<char>) -> Seq<PartView> {
    template_parts(t, token_spans(t, 0))
}

/// The spans as mathematical values.
pub open spec fn spans_view(spans: Seq<(usize, usize)>) -> Seq<(int, int)> {
    Seq::new(spans.len(), |i: int| (spans[i].0 as int, spans[i].1 as int))
}

/// Tells whether `c` is an ASCII letter.
pub fn is_alpha_char(c: char) -> (r: bool)
    ensures
        r == is_alpha(c),
{
    (c >= 'a' && c <= 'z') || (c >= 'A' && c <= 'Z')
}

/// Tells whether `c` may follow the first letter of a name.
pub fn is_word_char(c: char) -> (r: bool)
    ensures
        r == is_word(c),
{
    is_alpha_char(c) || (c >= '0' && c <= '9') || c == '.'
}

/// True when the spans lie in order within a text of `n` characters, none
/// empty and none touching the next one's inside.
pub open spec fn spans_ordered(spans: Seq<(int, int)>, n: int) -> bool {
    &&& forall|i: int| 0 <= i < spans.len() ==> 0 <= (#[trigger] spans[i]).0 < spans[i].1 <= n
    &&& forall|i: int, j: int|
        0 <= i < j < spans.len() ==> (#[trigger] spans[i]).1 <= (#[trigger] spans[j]).0
}

/// Finds the names in a text: the start and end of each, in characters.
pub fn find_tokens(text: &str) -> (r: Vec<(usize, usize)>)
    ensures
        spans_view(r@) == token_spans(text@, 0),
        spans_ordered(spans_view(r@), text@.len() as int),
{
    let ghost t = text@;
    let n = text.unicode_len();
    let mut spans: Vec<(usize, usize)> = Vec::new();
    let mut pos: usize = 0;
    proof {
        assert(spans_view(spans@) + token_spans(t, 0) =~= token_spans(t, 0));
    }
    while pos < n
        invariant
            pos <= n,
            n == t.len(),
            t == text@,
            token_spans(t, 0) == spans_view(spans@) + token_spans(t, pos as int),
            spans_ordered(spans_view(spans@), pos as int),
        decreases n - pos,
    {
        let c = text.get_char(pos);
        if is_alpha_char(c) {
            let mut e: usize = pos + 1;
            while e < n && is_word_char(text.get_char(e))
                invariant
                    pos + 1 <= e <= n,
                    n == t.len(),
                    t == text@,
                    word_end(t, pos + 1) == word_end(t, e as int),
                decreases n - e,
            {
                e = e + 1;
            }
            let ghost before = spans_view(spans@);
            spans.push((pos, e));
            proof {
                assert(spans_view(spans@) =~= before.push((pos as int, e as int)));
                assert(spans_view(spans@) + token_spans(t, e as int) =~= before + (seq![
                    (pos as int, e as int),
                ] + token_spans(t, e as int)));
            }
            pos = e;
        } else {
            pos = pos + 1;
        }
    }
    proof {
        assert(spans_view(spans@) + token_spans(t, n as int) =~= spans_view(spans@));
    }
    spans
}

impl TextInstruction {
    /// Cuts a mnemonic line into its template.
    pub fn from(text: &str) -> (r: TextInstruction)
        ensures
            r@ == template_of(text@),
    {
        let ghost t = text@;
        let n = text.unicode_len();
        let spans = find_tokens(text);
        let ghost sv = spans_view(spans@);
        let mut list: Vec<TextInstructionPart> = Vec::new();
        let mut prev: usize = 0;
        let mut i: usize = 1;
        while i < spans.len()
            invariant
                1 <= i,
                i <= spans.len() || i == 1,
                n == t.len(),
                t == text@,
                sv == spans_view(spans@),
                spans_ordered(sv, n as int),
                prev == (if i == 1 {
                    0
                } else {
                    sv[i - 1].1
                }),
                list@.len() == i - 1,
                forall|k: int|
                    0 <= k < i - 1 ==> (#[trigger] list@[k])@ == template_parts(t, sv)[k],
            decreases spans.len() - i,
        {
            let (a, b) = spans[i];
            proof {
                assert(sv[i as int] == (a as int, b as int));
                if i > 1 {
                    assert(sv[i - 1].1 <= sv[i as int].0);
                }
            }
            let part = TextInstructionPart::text_ident(
                text.substring_char(prev, a),
                text.substring_char(a, b),
            );
            list.push(part);
            prev = b;
            i = i + 1;
        }
        let rest: usize = if spans.len() <= 1 {
            0
        } else {
            spans[spans.len() - 1].1
        };
        proof {
            if spans.len() > 1 {
                assert(sv[spans.len() - 1] == (spans@[spans.len() - 1].0 as int, rest as int));
            }
        }
        let ghost fields = list@;
        if rest < n {
            list.push(TextInstructionPart::text(text.substring_char(rest, n)));
        }
        let r = TextInstruction { list };
        proof {
            let expected = template_parts(t, sv);
            assert(sv.len() == spans@.len());
            assert(r@.len() == expected.len());
            assert forall|k: int| 0 <= k < r@.len() implies r@[k] == expected[k] by {
                if k < fields.len() {
                    assert(r.list@[k] == fields[k]);
                }
            }
            assert(r@ =~= template_of(t));
        }
        r
    }
}

} // verus!
