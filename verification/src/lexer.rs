//! Cutting the text of a table entry into tokens.
use vstd::prelude::*;
use crate::dsl::DslError;
use crate::template::{is_alpha, is_alpha_char};
use crate::token::{tokens_view, Delimiter, Token, TokenView};

verus! {

/// A blank between tokens.
pub open spec fn is_space(c: char) -> bool {
    c == ' ' || c == '\t' || c == '\n' || c == '\r'
}

/// A decimal digit.
pub open spec fn is_digit(c: char) -> bool {
    '0' <= c && c <= '9'
}

/// A character that a name may start with.
pub open spec fn is_name_start(c: char) -> bool {
    is_alpha(c) || c == '_'
}

/// A character that a name may go on with.
pub open spec fn is_name_char(c: char) -> bool {
    is_alpha(c) || is_digit(c) || c == '_'
}

/// The first position from `pos` on that holds no digit.
pub open spec fn digits_end(t: Seq<char>, pos: int) -> int
    decreases t.len() - pos,
{
    if 0 <= pos < t.len() && is_digit(t[pos]) {
        digits_end(t, pos + 1)
    } else {
        pos
    }
}

/// The first position from `pos` on that holds no name character.
pub open spec fn name_end(t: Seq<char>, pos: int) -> int
    decreases t.len() - pos,
{
    if 0 <= pos < t.len() && is_name_char(t[pos]) {
        name_end(t, pos + 1)
    } else {
        pos
    }
}

/// The first position from `pos` on that holds a quote; the length where
/// none follows.
pub open spec fn quote_end(t: Seq<char>, pos: int) -> int
    decreases t.len() - pos,
{
    if 0 <= pos < t.len() && t[pos] != '"' {
        quote_end(t, pos + 1)
    } else {
        pos
    }
}

/// A run that starts within the text ends within it, at or after its start.
pub proof fn lemma_run_ends(t: Seq<char>, pos: int)
    requires
        0 <= pos <= t.len(),
    ensures
        pos <= digits_end(t, pos) <= t.len(),
        pos <= name_end(t, pos) <= t.len(),
        pos <= quote_end(t, pos) <= t.len(),
    decreases t.len() - pos,
{
    if pos < t.len() {
        lemma_run_ends(t, pos + 1);
    }
}

/// The token that starts at `pos`, where no blank and no bracket stands, and
/// the position behind it: a text in quotes, a run of digits, a name, or a
/// single punctuation character.
pub open spec fn plain_token(t: Seq<char>, pos: int) -> Result<(TokenView, int), DslError> {
    if t[pos] == '"' {
        if quote_end(t, pos + 1) >= t.len() {
            Err(DslError::UnclosedQuote)
        } else {
            Ok(
                (
                    TokenView::Literal(t.subrange(pos, quote_end(t, pos + 1) + 1)),
                    quote_end(t, pos + 1) + 1,
                ),
            )
        }
    } else if is_digit(t[pos]) {
        Ok((TokenView::Literal(t.subrange(pos, digits_end(t, pos + 1))), digits_end(t, pos + 1)))
    } else if is_name_start(t[pos]) {
        Ok((TokenView::Ident(t.subrange(pos, name_end(t, pos + 1))), name_end(t, pos + 1)))
    } else {
        Ok((TokenView::Punct(t[pos]), pos + 1))
    }
}

/// A token ends within the text, behind its start.
pub proof fn lemma_plain_token(t: Seq<char>, pos: int)
    requires
        0 <= pos < t.len(),
    ensures
        plain_token(t, pos) matches Ok((_, next)) ==> pos < next <= t.len(),
{
    lemma_run_ends(t, pos + 1);
}

/// The tokens between brackets, from `pos` up to the closing `]`, and the
/// position behind it.
pub open spec fn lex_group(t: Seq<char>, pos: int) -> Result<(Seq<TokenView>, int), DslError>
    decreases t.len() - pos,
    via lex_group_decreases
{
    if pos < 0 || pos >= t.len() {
        Err(DslError::UnclosedBracket)
    } else if is_space(t[pos]) {
        lex_group(t, pos + 1)
    } else if t[pos] == ']' {
        Ok((Seq::empty(), pos + 1))
    } else if t[pos] == '[' {
        Err(DslError::GroupInGroup)
    } else {
        match plain_token(t, pos) {
            Err(e) => Err(e),
            Ok((token, next)) => match lex_group(t, next) {
                Err(e) => Err(e),
                Ok((rest, end)) => Ok((seq![token] + rest, end)),
            },
        }
    }
}

#[via_fn]
proof fn lex_group_decreases(t: Seq<char>, pos: int) {
    if 0 <= pos < t.len() {
        lemma_plain_token(t, pos);
    }
}

/// A group ends within the text, behind its start.
pub proof fn lemma_lex_group(t: Seq<char>, pos: int)
    requires
        0 <= pos <= t.len(),
    ensures
        lex_group(t, pos) matches Ok((_, end)) ==> pos < end <= t.len(),
    decreases t.len() - pos,
{
    if pos < t.len() {
        if is_space(t[pos]) {
            lemma_lex_group(t, pos + 1);
        } else if t[pos] == ']' || t[pos] == '[' {
        } else {
            lemma_plain_token(t, pos);
            if let Ok((_, next)) = plain_token(t, pos) {
                lemma_lex_group(t, next);
            }
        }
    }
}

/// The tokens of a text from `pos` on. Blanks separate tokens; what stands
/// between `[` and `]` is one group.
pub open spec fn lex(t: Seq<char>, pos: int) -> Result<Seq<TokenView>, DslError>
    decreases t.len() - pos,
    via lex_decreases
{
    if pos < 0 || pos >= t.len() {
        Ok(Seq::empty())
    } else if is_space(t[pos]) {
        lex(t, pos + 1)
    } else if t[pos] == ']' {
        Err(DslError::UnopenedBracket)
    } else if t[pos] == '[' {
        match lex_group(t, pos + 1) {
            Err(e) => Err(e),
            Ok((inner, end)) => match lex(t, end) {
                Err(e) => Err(e),
                Ok(rest) => Ok(seq![TokenView::Group(Delimiter::Bracket, inner)] + rest),
            },
        }
    } else {
        match plain_token(t, pos) {
            Err(e) => Err(e),
            Ok((token, next)) => match lex(t, next) {
                Err(e) => Err(e),
                Ok(rest) => Ok(seq![token] + rest),
            },
        }
    }
}

#[via_fn]
proof fn lex_decreases(t: Seq<char>, pos: int) {
    if 0 <= pos < t.len() {
        lemma_plain_token(t, pos);
        lemma_lex_group(t, pos + 1);
    }
}

/// The tokens of a text.
pub open spec fn tokens_of(t: Seq<char>) -> Result<Seq<TokenView>, DslError> {
    lex(t, 0)
}

/// Tells whether `c` is a blank.
fn is_space_char(c: char) -> (r: bool)
    ensures
        r == is_space(c),
{
    c == ' ' || c == '\t' || c == '\n' || c == '\r'
}

/// Tells whether `c` is a decimal digit.
fn is_digit_char(c: char) -> (r: bool)
    ensures
        r == is_digit(c),
{
    c >= '0' && c <= '9'
}

/// Tells whether `c` may go on a name.
fn is_name_char_exec(c: char) -> (r: bool)
    ensures
        r == is_name_char(c),
{
    is_alpha_char(c) || is_digit_char(c) || c == '_'
}

/// Reads the token that starts at `pos`.
fn read_plain(text: &str, n: usize, pos: usize) -> (r: Result<(Token, usize), DslError>)
    requires
        n == text@.len(),
        pos < n,
    ensures
        match r {
            Ok((token, next)) => plain_token(text@, pos as int) == Ok::<
                (TokenView, int),
                DslError,
            >((token@, next as int)) && pos < next <= n,
            Err(e) => plain_token(text@, pos as int) == Err::<(TokenView, int), DslError>(e),
        },
{
    let ghost t = text@;
    let c = text.get_char(pos);
    let mut e: usize = pos + 1;
    if c == '"' {
        while e < n && text.get_char(e) != '"'
            invariant
                pos + 1 <= e <= n,
                n == t.len(),
                t == text@,
                quote_end(t, pos + 1) == quote_end(t, e as int),
            decreases n - e,
        {
            e = e + 1;
        }
        if e >= n {
            return Err(DslError::UnclosedQuote);
        }
        Ok((Token::Literal(text.substring_char(pos, e + 1).to_owned()), e + 1))
    } else if is_digit_char(c) {
        while e < n && is_digit_char(text.get_char(e))
            invariant
                pos + 1 <= e <= n,
                n == t.len(),
                t == text@,
                digits_end(t, pos + 1) == digits_end(t, e as int),
            decreases n - e,
        {
            e = e + 1;
        }
        Ok((Token::Literal(text.substring_char(pos, e).to_owned()), e))
    } else if is_alpha_char(c) || c == '_' {
        while e < n && is_name_char_exec(text.get_char(e))
            invariant
                pos + 1 <= e <= n,
                n == t.len(),
                t == text@,
                name_end(t, pos + 1) == name_end(t, e as int),
            decreases n - e,
        {
            e = e + 1;
        }
        Ok((Token::Ident(text.substring_char(pos, e).to_owned()), e))
    } else {
        Ok((Token::Punct(c), pos + 1))
    }
}

/// What is read when `rest` follows the tokens `done`.
pub open spec fn after_group(
    done: Seq<TokenView>,
    rest: Result<(Seq<TokenView>, int), DslError>,
) -> Result<(Seq<TokenView>, int), DslError> {
    match rest {
        Ok((more, end)) => Ok((done + more, end)),
        Err(e) => Err(e),
    }
}

/// What is read when `rest` follows the tokens `done`.
pub open spec fn after(done: Seq<TokenView>, rest: Result<Seq<TokenView>, DslError>) -> Result<
    Seq<TokenView>,
    DslError,
> {
    match rest {
        Ok(more) => Ok(done + more),
        Err(e) => Err(e),
    }
}

/// Reads the tokens between brackets, from behind the `[` at `start`.
fn read_group(text: &str, n: usize, start: usize) -> (r: Result<(Vec<Token>, usize), DslError>)
    requires
        n == text@.len(),
        start <= n,
    ensures
        match r {
            Ok((tokens, end)) => lex_group(text@, start as int) == Ok::<
                (Seq<TokenView>, int),
                DslError,
            >((tokens_view(tokens@), end as int)) && start < end <= n,
            Err(e) => lex_group(text@, start as int) == Err::<(Seq<TokenView>, int), DslError>(
                e,
            ),
        },
{
    let ghost t = text@;
    let mut tokens: Vec<Token> = Vec::new();
    let mut pos: usize = start;
    proof {
        assert(Seq::<TokenView>::empty() + Seq::<TokenView>::empty() =~= Seq::<
            TokenView,
        >::empty());
        match lex_group(t, start as int) {
            Ok((more, end)) => {
                assert(Seq::<TokenView>::empty() + more =~= more);
            },
            Err(e) => {},
        }
    }
    while pos < n
        invariant
            start <= pos <= n,
            n == t.len(),
            t == text@,
            lex_group(t, start as int) == after_group(
                tokens_view(tokens@),
                lex_group(t, pos as int),
            ),
        decreases n - pos,
    {
        let c = text.get_char(pos);
        if is_space_char(c) {
            pos = pos + 1;
        } else if c == ']' {
            proof {
                assert(tokens_view(tokens@) + Seq::<TokenView>::empty() =~= tokens_view(
                    tokens@,
                ));
            }
            return Ok((tokens, pos + 1));
        } else if c == '[' {
            return Err(DslError::GroupInGroup);
        } else {
            match read_plain(text, n, pos) {
                Err(e) => {
                    return Err(e);
                },
                Ok((token, next)) => {
                    let ghost done = tokens_view(tokens@);
                    let ghost before = tokens@;
                    let ghost tv = token@;
                    tokens.push(token);
                    proof {
                        assert(tokens@.drop_last() =~= before);
                        match lex_group(t, next as int) {
                            Ok((more, end)) => {
                                assert(done.push(tv) + more =~= done + (seq![tv] + more));
                            },
                            Err(e) => {},
                        }
                    }
                    pos = next;
                },
            }
        }
    }
    Err(DslError::UnclosedBracket)
}

/// Cuts the text of a table entry into tokens.
pub fn tokenize(text: &str) -> (r: Result<Vec<Token>, DslError>)
    ensures
        match r {
            Ok(tokens) => tokens_of(text@) == Ok::<Seq<TokenView>, DslError>(
                tokens_view(tokens@),
            ),
            Err(e) => tokens_of(text@) == Err::<Seq<TokenView>, DslError>(e),
        },
{
    let ghost t = text@;
    let n = text.unicode_len();
    let mut tokens: Vec<Token> = Vec::new();
    let mut pos: usize = 0;
    proof {
        match lex(t, 0) {
            Ok(more) => {
                assert(Seq::<TokenView>::empty() + more =~= more);
            },
            Err(e) => {},
        }
    }
    while pos < n
        invariant
            pos <= n,
            n == t.len(),
            t == text@,
            lex(t, 0) == after(tokens_view(tokens@), lex(t, pos as int)),
        decreases n - pos,
    {
        let c = text.get_char(pos);
        if is_space_char(c) {
            pos = pos + 1;
        } else if c == ']' {
            return Err(DslError::UnopenedBracket);
        } else if c == '[' {
            match read_group(text, n, pos + 1) {
                Err(e) => {
                    return Err(e);
                },
                Ok((inner, end)) => {
                    let ghost done = tokens_view(tokens@);
                    let ghost before = tokens@;
                    let ghost tv = TokenView::Group(Delimiter::Bracket, tokens_view(inner@));
                    tokens.push(Token::Group(Delimiter::Bracket, inner));
                    proof {
                        assert(tokens@.drop_last() =~= before);
                        assert(tokens@.last()@ == tv);
                        assert(tokens_view(tokens@) == done.push(tv));
                        assert(lex(t, pos as int) == after(seq![tv], lex(t, end as int)));
                        match lex(t, end as int) {
                            Ok(more) => {
                                assert(done.push(tv) + more =~= done + (seq![tv] + more));
                            },
                            Err(e) => {},
                        }
                    }
                    pos = end;
                },
            }
        } else {
            match read_plain(text, n, pos) {
                Err(e) => {
                    return Err(e);
                },
                Ok((token, next)) => {
                    let ghost done = tokens_view(tokens@);
                    let ghost before = tokens@;
                    let ghost tv = token@;
                    tokens.push(token);
                    proof {
                        assert(tokens@.drop_last() =~= before);
                        match lex(t, next as int) {
                            Ok(more) => {
                                assert(done.push(tv) + more =~= done + (seq![tv] + more));
                            },
                            Err(e) => {},
                        }
                    }
                    pos = next;
                },
            }
        }
    }
    proof {
        assert(tokens_view(tokens@) + Seq::<TokenView>::empty() =~= tokens_view(tokens@));
    }
    Ok(tokens)
}

} // verus!
