//! The tokens of the notation in which instruction tables are written.
use vstd::prelude::*;

verus! {

/// The brackets around a group of tokens.
#[derive(PartialEq, Eq, Structural, Debug, Clone, Copy)]
pub enum Delimiter {
    Parenthesis,
    Brace,
    Bracket,
    Implicit,
}

/// One token of the notation: a literal as it is written, a name, a single
/// punctuation character, or a group of tokens in brackets.
#[derive(PartialEq, Eq, Debug)]
pub enum Token {
    Literal(String),
    Ident(String),
    Punct(char),
    Group(Delimiter, Vec<Token>),
}

/// A token as a mathematical value.
pub enum TokenView {
    Literal(Seq<char>),
    Ident(Seq<char>),
    Punct(char),
    Group(Delimiter, Seq<TokenView>),
}

/// The value of a token.
pub open spec fn token_view(t: Token) -> TokenView
    decreases t,
{
    match t {
        Token::Literal(s) => TokenView::Literal(s@),
        Token::Ident(s) => TokenView::Ident(s@),
        Token::Punct(c) => TokenView::Punct(c),
        Token::Group(d, inner) => TokenView::Group(d, tokens_view(inner@)),
    }
}

/// The values of the tokens of a list.
pub open spec fn tokens_view(ts: Seq<Token>) -> Seq<TokenView>
    decreases ts,
{
    if ts.len() == 0 {
        Seq::empty()
    } else {
        tokens_view(ts.drop_last()).push(token_view(ts.last()))
    }
}

impl View for Token {
    type V = TokenView;

    open spec fn view(&self) -> TokenView {
        token_view(*self)
    }
}

/// The values of a list are the values of its tokens, place by place.
pub proof fn lemma_tokens_view(ts: Seq<Token>)
    ensures
        tokens_view(ts).len() == ts.len(),
        forall|i: int| 0 <= i < ts.len() ==> #[trigger] tokens_view(ts)[i] == ts[i]@,
    decreases ts.len(),
{
    if ts.len() > 0 {
        lemma_tokens_view(ts.drop_last());
    }
}

} // verus!
