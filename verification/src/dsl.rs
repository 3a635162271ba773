//! The notation in which instruction tables are written: a mnemonic line in
//! quotes, then the layout as groups separated by commas, each a run of
//! binary digits or a field name with its destination bits in brackets, as in
//! `"c.addi rd, imm", 000, imm[5], rd[4:0], imm[4:0], 01`.
use vstd::prelude::*;
use crate::entry::Instruction;
use crate::layout::{
    layout_defect, layout_view, lemma_valid_iff_no_defect, word_bits, BinaryInstruction, Item,
    ItemView, LayoutError,
};
use crate::lexer::{tokenize, tokens_of};
use crate::radix::{parse_radix, u32_from_str_radix};
use crate::template::{template_of, PartView, TextInstruction};
use crate::token::{lemma_tokens_view, tokens_view, Delimiter, Token, TokenView};
use crate::width::{in_width, CompactType, Num, RV32Type};

verus! {

/// Why a table entry cannot be read.
#[derive(PartialEq, Eq, Structural, Debug, Clone, Copy)]
pub enum DslError {
    /// There is no token at all.
    Empty,
    /// The first token is not the mnemonic line.
    NoDescription,
    /// The mnemonic line has no room for its quotes.
    NoQuotes,
    /// A group stands inside the brackets of a field.
    GroupInGroup,
    /// A name stands inside the brackets of a field.
    IdentInGroup,
    /// A `|` follows neither a bit nor a range.
    MisplacedPipe,
    /// A `:` does not follow a single bit.
    MisplacedColon,
    /// Inside the brackets stands a punctuation other than `|` and `:`.
    BadBitSeparator,
    /// A bit index is not an unsigned number of 32 bits.
    BadBitIndex,
    /// A range does not run from a higher bit down to a lower one.
    AscendingRange,
    /// A group is not in square brackets.
    BadDelimiter,
    /// Brackets do not follow a field's name.
    MisplacedBitspec,
    /// A name follows a name.
    MisplacedIdent,
    /// Between the groups stands a punctuation other than `,`.
    BadSeparator,
    /// A literal is not a binary number of the word's width.
    BadLiteral,
    /// The layout read is not valid for the word.
    Layout(LayoutError),
    /// A quote is not closed.
    UnclosedQuote,
    /// A `[` is not closed.
    UnclosedBracket,
    /// A `]` closes nothing.
    UnopenedBracket,
}

/// Where the reading of a field's bits stands: nothing pending, one bit, one
/// bit and a colon, or the two ends of a range.
#[derive(PartialEq, Eq, Structural, Debug, Clone, Copy)]
pub enum BitState {
    Nothing,
    Val(u32),
    First(u32),
    Pair(u32, u32),
}

/// The number that a decimal literal denotes, where it has 32 bits at most.
pub open spec fn bit_index(s: Seq<char>) -> Option<u32> {
    match parse_radix(s, 10) {
        Some(n) => if n <= u32::MAX {
            Some(n as u32)
        } else {
            None
        },
        None => None,
    }
}

/// The bits from `a` down to `b`.
pub open spec fn descending(a: u32, b: u32) -> Seq<u32> {
    Seq::new((a - b + 1) as nat, |i: int| (a - i) as u32)
}

/// What one token does to the reading of a field's bits.
pub open spec fn bitspec_step(state: BitState, out: Seq<u32>, t: TokenView) -> Result<
    (BitState, Seq<u32>),
    DslError,
> {
    match t {
        TokenView::Group(_, _) => Err(DslError::GroupInGroup),
        TokenView::Ident(_) => Err(DslError::IdentInGroup),
        TokenView::Punct(c) => if c == '|' {
            match state {
                BitState::Val(n) => Ok((BitState::Nothing, out.push(n))),
                BitState::Pair(a, b) => if a >= b {
                    Ok((BitState::Nothing, out + descending(a, b)))
                } else {
                    Err(DslError::AscendingRange)
                },
                _ => Err(DslError::MisplacedPipe),
            }
        } else if c == ':' {
            match state {
                BitState::Val(a) => Ok((BitState::First(a), out)),
                _ => Err(DslError::MisplacedColon),
            }
        } else {
            Err(DslError::BadBitSeparator)
        },
        TokenView::Literal(s) => match bit_index(s) {
            Some(n) => match state {
                BitState::Nothing => Ok((BitState::Val(n), out)),
                BitState::First(a) => Ok((BitState::Pair(a, n), out)),
                _ => Ok((state, out)),
            },
            None => Err(DslError::BadBitIndex),
        },
    }
}

/// The reading of a field's bits after the first `n` tokens.
pub open spec fn bitspec_scan(ts: Seq<TokenView>, n: int) -> Result<(BitState, Seq<u32>), DslError>
    decreases n,
{
    if n <= 0 {
        Ok((BitState::Nothing, Seq::empty()))
    } else {
        match bitspec_scan(ts, n - 1) {
            Err(e) => Err(e),
            Ok((state, out)) => bitspec_step(state, out, ts[n - 1]),
        }
    }
}

/// The destination bits that the tokens between a field's brackets list: bits
/// and ranges `hi:lo`, separated by `|`. A range stands for its bits from
/// `hi` down to `lo`.
pub open spec fn bitspec_of(ts: Seq<TokenView>) -> Result<Seq<u32>, DslError> {
    match bitspec_scan(ts, ts.len() as int) {
        Err(e) => Err(e),
        Ok((state, out)) => match state {
            BitState::Val(n) => Ok(out.push(n)),
            BitState::Pair(a, b) => if a >= b {
                Ok(out + descending(a, b))
            } else {
                Err(DslError::AscendingRange)
            },
            _ => Ok(out),
        },
    }
}

/// Appends the bits from `a` down to `b`.
fn push_descending(out: &mut Vec<u32>, a: u32, b: u32)
    requires
        a >= b,
    ensures
        final(out)@ == old(out)@ + descending(a, b),
{
    let ghost start = out@;
    let mut i: u32 = a;
    proof {
        assert(start + descending(a, b).take(0) =~= start);
    }
    while i > b
        invariant
            b <= i <= a,
            out@ == start + descending(a, b).take(a - i),
        decreases i,
    {
        out.push(i);
        proof {
            assert(descending(a, b).take(a - i + 1) =~= descending(a, b).take(a - i).push(i));
            assert(out@ =~= start + descending(a, b).take(a - i + 1));
        }
        i = i - 1;
    }
    out.push(b);
    proof {
        assert(descending(a, b).take(a - b).push(b) =~= descending(a, b));
        assert(out@ =~= start + descending(a, b));
    }
}

/// Reads the destination bits listed between a field's brackets.
pub fn parse_bitspec(ts: &Vec<Token>) -> (r: Result<Vec<u32>, DslError>)
    ensures
        match r {
            Ok(v) => bitspec_of(tokens_view(ts@)) == Ok::<Seq<u32>, DslError>(v@),
            Err(e) => bitspec_of(tokens_view(ts@)) == Err::<Seq<u32>, DslError>(e),
        },
{
    let ghost tv = tokens_view(ts@);
    proof {
        lemma_tokens_view(ts@);
    }
    let mut bitspec: Vec<u32> = Vec::new();
    let mut current = BitState::Nothing;
    let mut i: usize = 0;
    while i < ts.len()
        invariant
            i <= ts.len(),
            tv == tokens_view(ts@),
            bitspec_scan(tv, i as int) == Ok::<(BitState, Seq<u32>), DslError>(
                (current, bitspec@),
            ),
        decreases ts.len() - i,
    {
        proof {
            lemma_tokens_view(ts@);
            assert(tv[i as int] == ts@[i as int]@);
            assert(bitspec_scan(tv, i + 1) == bitspec_step(current, bitspec@, tv[i as int]));
            if bitspec_scan(tv, i + 1) is Err {
                lemma_bitspec_error(tv, i + 1, tv.len() as int);
            }
        }
        match &ts[i] {
            Token::Group(_, _) => {
                return Err(DslError::GroupInGroup);
            },
            Token::Ident(_) => {
                return Err(DslError::IdentInGroup);
            },
            Token::Punct(c) => {
                if *c == '|' {
                    match current {
                        BitState::Val(n) => {
                            bitspec.push(n);
                            current = BitState::Nothing;
                        },
                        BitState::Pair(a, b) => {
                            if a < b {
                                return Err(DslError::AscendingRange);
                            }
                            push_descending(&mut bitspec, a, b);
                            current = BitState::Nothing;
                        },
                        _ => {
                            return Err(DslError::MisplacedPipe);
                        },
                    }
                } else if *c == ':' {
                    match current {
                        BitState::Val(a) => {
                            current = BitState::First(a);
                        },
                        _ => {
                            return Err(DslError::MisplacedColon);
                        },
                    }
                } else {
                    return Err(DslError::BadBitSeparator);
                }
            },
            Token::Literal(s) => {
                match u32_from_str_radix(s.as_str(), 10) {
                    Ok(n) => {
                        match current {
                            BitState::Nothing => {
                                current = BitState::Val(n);
                            },
                            BitState::First(a) => {
                                current = BitState::Pair(a, n);
                            },
                            _ => {},
                        }
                    },
                    Err(_) => {
                        return Err(DslError::BadBitIndex);
                    },
                }
            },
        }
        i = i + 1;
    }
    match current {
        BitState::Val(n) => {
            bitspec.push(n);
        },
        BitState::Pair(a, b) => {
            if a < b {
                return Err(DslError::AscendingRange);
            }
            push_descending(&mut bitspec, a, b);
        },
        _ => {},
    }
    Ok(bitspec)
}

/// An error met while reading a field's bits stays the result of the reading.
proof fn lemma_bitspec_error(ts: Seq<TokenView>, k: int, n: int)
    requires
        0 <= k <= n,
        bitspec_scan(ts, k) is Err,
    ensures
        bitspec_scan(ts, n) == bitspec_scan(ts, k),
    decreases n - k,
{
    if k < n {
        lemma_bitspec_error(ts, k, n - 1);
    }
}

/// The word that a binary literal denotes, where it fits the word of policy `T`.
pub open spec fn literal_word<T: Num>(s: Seq<char>) -> Option<u32> {
    match parse_radix(s, 2) {
        Some(n) => if n <= u32::MAX && in_width(n as u32, T::top_bit()) {
            Some(n as u32)
        } else {
            None
        },
        None => None,
    }
}

/// What one token does to the reading of a layout: `pending` is the field
/// name that waits for its brackets.
pub open spec fn items_step<T: Num>(
    pending: Option<Seq<char>>,
    out: Seq<ItemView>,
    t: TokenView,
) -> Result<(Option<Seq<char>>, Seq<ItemView>), DslError> {
    match t {
        TokenView::Group(d, inner) => if d != Delimiter::Bracket {
            Err(DslError::BadDelimiter)
        } else {
            match pending {
                Some(name) => match bitspec_of(inner) {
                    Ok(bitspec) => Ok((None, out.push(ItemView::Ident { name, bitspec }))),
                    Err(e) => Err(e),
                },
                None => Err(DslError::MisplacedBitspec),
            }
        },
        TokenView::Ident(name) => match pending {
            None => Ok((Some(name), out)),
            Some(_) => Err(DslError::MisplacedIdent),
        },
        TokenView::Punct(c) => if c == ',' {
            Ok((pending, out))
        } else {
            Err(DslError::BadSeparator)
        },
        TokenView::Literal(s) => match literal_word::<T>(s) {
            Some(val) => Ok((pending, out.push(ItemView::Bits { len: s.len(), val }))),
            None => Err(DslError::BadLiteral),
        },
    }
}

/// The reading of a layout after the first `n` tokens, of which the first is
/// the mnemonic line.
pub open spec fn items_scan<T: Num>(ts: Seq<TokenView>, n: int) -> Result<
    (Option<Seq<char>>, Seq<ItemView>),
    DslError,
>
    decreases n,
{
    if n <= 1 {
        Ok((None, Seq::empty()))
    } else {
        match items_scan::<T>(ts, n - 1) {
            Err(e) => Err(e),
            Ok((pending, out)) => items_step::<T>(pending, out, ts[n - 1]),
        }
    }
}

/// The template and the layout that the tokens of a table entry describe:
/// the mnemonic line without its quotes gives the template, the tokens after
/// it the layout, which has to be valid for the word of policy `T`.
pub open spec fn entry_of<T: Num>(ts: Seq<TokenView>) -> Result<
    (Seq<PartView>, Seq<ItemView>),
    DslError,
> {
    if ts.len() == 0 {
        Err(DslError::Empty)
    } else {
        match ts[0] {
            TokenView::Literal(text) => if text.len() <= 2 {
                Err(DslError::NoQuotes)
            } else {
                match items_scan::<T>(ts, ts.len() as int) {
                    Err(e) => Err(e),
                    Ok((_, items)) => match layout_defect(items, word_bits::<T>()) {
                        Some(e) => Err(DslError::Layout(e)),
                        None => Ok((template_of(text.subrange(1, text.len() - 1)), items)),
                    },
                }
            },
            _ => Err(DslError::NoDescription),
        }
    }
}

/// An error met while reading a layout stays the result of the reading.
proof fn lemma_items_error<T: Num>(ts: Seq<TokenView>, k: int, n: int)
    requires
        1 <= k <= n,
        items_scan::<T>(ts, k) is Err,
    ensures
        items_scan::<T>(ts, n) == items_scan::<T>(ts, k),
    decreases n - k,
{
    if k < n {
        lemma_items_error::<T>(ts, k, n - 1);
    }
}

/// The name that waits for its brackets, as a mathematical value.
pub open spec fn pending_view(pending: Option<String>) -> Option<Seq<char>> {
    match pending {
        Some(name) => Some(name@),
        None => None,
    }
}

/// Reads a table entry from its tokens: the mnemonic line, then the layout.
pub fn parse_token_string<T: Num>(ts: &Vec<Token>) -> (r: Result<Instruction<T>, DslError>)
    ensures
        match r {
            Ok(i) => entry_of::<T>(tokens_view(ts@)) == Ok::<
                (Seq<PartView>, Seq<ItemView>),
                DslError,
            >((i.template(), i.layout())),
            Err(e) => entry_of::<T>(tokens_view(ts@)) == Err::<
                (Seq<PartView>, Seq<ItemView>),
                DslError,
            >(e),
        },
{
    let ghost tv = tokens_view(ts@);
    proof {
        lemma_tokens_view(ts@);
    }
    if ts.len() == 0 {
        return Err(DslError::Empty);
    }
    let text = match &ts[0] {
        Token::Literal(g) => g,
        _ => {
            return Err(DslError::NoDescription);
        },
    };
    let n = text.as_str().unicode_len();
    if n <= 2 {
        return Err(DslError::NoQuotes);
    }
    let template = TextInstruction::from(text.as_str().substring_char(1, n - 1));
    let mut current: Option<String> = None;
    let mut items: Vec<Item<T>> = Vec::new();
    let mut i: usize = 1;
    proof {
        assert(layout_view(items@) =~= Seq::<ItemView>::empty());
    }
    while i < ts.len()
        invariant
            1 <= i <= ts.len(),
            tv == tokens_view(ts@),
            tv.len() == ts@.len(),
            tv[0] == TokenView::Literal(text@),
            text@.len() > 2,
            items_scan::<T>(tv, i as int) == Ok::<(Option<Seq<char>>, Seq<ItemView>), DslError>(
                (pending_view(current), layout_view(items@)),
            ),
        decreases ts.len() - i,
    {
        let ghost before = layout_view(items@);
        proof {
            lemma_tokens_view(ts@);
            assert(tv[i as int] == ts@[i as int]@);
            assert(items_scan::<T>(tv, i + 1) == items_step::<T>(
                pending_view(current),
                before,
                tv[i as int],
            ));
            if items_scan::<T>(tv, i + 1) is Err {
                lemma_items_error::<T>(tv, i + 1, tv.len() as int);
            }
        }
        match &ts[i] {
            Token::Group(d, inner) => {
                if *d != Delimiter::Bracket {
                    return Err(DslError::BadDelimiter);
                }
                match current {
                    Some(name) => {
                        match parse_bitspec(inner) {
                            Ok(bitspec) => {
                                let ghost item = ItemView::Ident { name: name@, bitspec: bitspec@ };
                                items.push(Item::Ident { name, bitspec });
                                proof {
                                    assert(layout_view(items@) =~= before.push(item));
                                }
                                current = None;
                            },
                            Err(e) => {
                                return Err(e);
                            },
                        }
                    },
                    None => {
                        return Err(DslError::MisplacedBitspec);
                    },
                }
            },
            Token::Ident(g) => {
                if current.is_some() {
                    return Err(DslError::MisplacedIdent);
                }
                current = Some(g.clone());
            },
            Token::Punct(c) => {
                if *c != ',' {
                    return Err(DslError::BadSeparator);
                }
            },
            Token::Literal(s) => {
                match T::from_str_radix(s.as_str(), 2) {
                    Err(_) => {
                        return Err(DslError::BadLiteral);
                    },
                    Ok(val) => {
                        proof {
                            T::lemma_word_in_width(val);
                        }
                        let len = s.as_str().unicode_len();
                        let ghost item = ItemView::Bits { len: len as nat, val: T::word(val) };
                        items.push(Item::Bits { len, val });
                        proof {
                            assert(layout_view(items@) =~= before.push(item));
                        }
                    },
                }
            },
        }
        i = i + 1;
    }
    let bin = BinaryInstruction { list: items };
    match Instruction::new(bin, template) {
        Ok(entry) => {
            proof {
                lemma_valid_iff_no_defect(entry.layout(), word_bits::<T>());
            }
            Ok(entry)
        },
        Err(e) => Err(DslError::Layout(e)),
    }
}

/// Reads an entry of a table of 16-bit compact instructions.
pub fn instruction16(ts: &Vec<Token>) -> (r: Result<Instruction<CompactType>, DslError>)
    ensures
        match r {
            Ok(i) => entry_of::<CompactType>(tokens_view(ts@)) == Ok::<
                (Seq<PartView>, Seq<ItemView>),
                DslError,
            >((i.template(), i.layout())),
            Err(e) => entry_of::<CompactType>(tokens_view(ts@)) == Err::<
                (Seq<PartView>, Seq<ItemView>),
                DslError,
            >(e),
        },
{
    parse_token_string::<CompactType>(ts)
}

/// Reads an entry of a table of 32-bit instructions.
pub fn instruction32(ts: &Vec<Token>) -> (r: Result<Instruction<RV32Type>, DslError>)
    ensures
        match r {
            Ok(i) => entry_of::<RV32Type>(tokens_view(ts@)) == Ok::<
                (Seq<PartView>, Seq<ItemView>),
                DslError,
            >((i.template(), i.layout())),
            Err(e) => entry_of::<RV32Type>(tokens_view(ts@)) == Err::<
                (Seq<PartView>, Seq<ItemView>),
                DslError,
            >(e),
        },
{
    parse_token_string::<RV32Type>(ts)
}

/// Reads a table entry from its text.
pub fn entry_from_text<T: Num>(text: &str) -> (r: Result<Instruction<T>, DslError>)
    ensures
        match tokens_of(text@) {
            Err(e) => r matches Err(f) && f == e,
            Ok(tokens) => match r {
                Ok(i) => entry_of::<T>(tokens) == Ok::<(Seq<PartView>, Seq<ItemView>), DslError>(
                    (i.template(), i.layout()),
                ),
                Err(e) => entry_of::<T>(tokens) == Err::<(Seq<PartView>, Seq<ItemView>), DslError>(
                    e,
                ),
            },
        },
{
    match tokenize(text) {
        Err(e) => Err(e),
        Ok(tokens) => parse_token_string::<T>(&tokens),
    }
}

} // verus!
