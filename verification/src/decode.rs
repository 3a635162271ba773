//! Decoding a word against a table: the first entry that matches is rendered.
use vstd::prelude::*;
use vstd::string::StringExecFns;
use crate::entry::Instruction;
use crate::extract::{
    extract_idents, extracted, fields_view, find_field, lookup_field,
};
use crate::isa::{ISA, ISARV32C};
use crate::layout::word_bits;
use crate::show::{hex_text, show_hex, ShowDict, ShowFun};
use crate::template::{PartView, TextInstruction, TextInstructionPart};
use crate::width::{CompactType, Num};

verus! {

/// What is shown for a field that the layout does not have.
pub open spec fn unresolved_text() -> Seq<char> {
    seq!['*', '*', '*', '*']
}

/// What is shown for the field `ident`: the marker where no field has that
/// name, the formatter's text where one is registered for the name, the value
/// in hexadecimal otherwise.
pub open spec fn shown_field<F: ShowFun>(
    fields: Seq<(Seq<char>, u32, u32)>,
    dict: Map<Seq<char>, F>,
    ident: Seq<char>,
) -> Seq<char> {
    match lookup_field(fields, ident) {
        None => unresolved_text(),
        Some(v) => if dict.dom().contains(ident) {
            dict[ident].shown(v)
        } else {
            hex_text(v)
        },
    }
}

/// What one part of a template shows.
pub open spec fn shown_part<F: ShowFun>(
    part: PartView,
    fields: Seq<(Seq<char>, u32, u32)>,
    dict: Map<Seq<char>, F>,
) -> Seq<char> {
    match part {
        PartView::Text(s) => s,
        PartView::TextIdent(s, ident) => s + shown_field(fields, dict, ident),
    }
}

/// What a template shows: its parts one after the other.
pub open spec fn rendered<F: ShowFun>(
    parts: Seq<PartView>,
    fields: Seq<(Seq<char>, u32, u32)>,
    dict: Map<Seq<char>, F>,
) -> Seq<char>
    decreases parts.len(),
{
    if parts.len() == 0 {
        Seq::empty()
    } else {
        rendered(parts.drop_last(), fields, dict) + shown_part(parts.last(), fields, dict)
    }
}

/// The marker shown for a field that the layout does not have.
fn unresolved() -> (r: String)
    ensures
        r@ == unresolved_text(),
{
    let mut r = String::new();
    r.push('*');
    r.push('*');
    r.push('*');
    r.push('*');
    r
}

/// Renders a template with the fields extracted from a word.
pub fn render<F: ShowFun>(
    text: &TextInstruction,
    vars: &Vec<(String, u32, u32)>,
    show_dict: &ShowDict<F>,
) -> (r: String)
    ensures
        r@ == rendered(text@, fields_view(vars@), show_dict@),
{
    let ghost parts = text@;
    let ghost fields = fields_view(vars@);
    let mut out = String::new();
    let mut i: usize = 0;
    proof {
        assert(parts.take(0) =~= Seq::<PartView>::empty());
    }
    while i < text.list.len()
        invariant
            i <= text.list.len(),
            parts == text@,
            fields == fields_view(vars@),
            out@ == rendered(parts.take(i as int), fields, show_dict@),
        decreases text.list.len() - i,
    {
        proof {
            assert(parts.take(i + 1).drop_last() =~= parts.take(i as int));
            assert(parts[i as int] == text.list@[i as int]@);
        }
        match &text.list[i] {
            TextInstructionPart::Text(s) => {
                out.append(s.as_str());
            },
            TextInstructionPart::TextIdent(s, ident) => {
                let attr = match find_field(vars, ident) {
                    None => unresolved(),
                    Some(j) => match show_dict.get(ident) {
                        None => show_hex(vars[j].1),
                        Some(f) => f.show(vars[j].1),
                    },
                };
                out.append(s.as_str());
                out.append(attr.as_str());
                proof {
                    assert(out@ =~= rendered(parts.take(i as int), fields, show_dict@) + (s@
                        + attr@));
                }
            },
        }
        i = i + 1;
    }
    proof {
        assert(parts.take(parts.len() as int) =~= parts);
    }
    out
}

/// What an entry shows for a word that matches it.
pub open spec fn entry_text<T: Num, F: ShowFun>(
    i: Instruction<T>,
    w: u32,
    dict: Map<Seq<char>, F>,
) -> Seq<char> {
    rendered(i.template(), extracted(i.layout(), word_bits::<T>(), w), dict)
}

/// Tries one entry on a word: nothing where the word does not pass the
/// entry's test, otherwise the entry's template rendered with the word's
/// fields.
pub fn try_instruction<T: Num, F: ShowFun>(
    v: T::IType,
    i: &Instruction<T>,
    show_dict: &ShowDict<F>,
) -> (r: Option<String>)
    ensures
        match r {
            None => !i.matches(T::word(v)),
            Some(s) => i.matches(T::word(v)) && s@ == entry_text(*i, T::word(v), show_dict@),
        },
{
    if !(T::to_word(v) & T::to_word(i.mask()) == T::to_word(i.pattern())) {
        return None;
    }
    let vars = extract_idents(v, i.bin());
    Some(render(i.text(), &vars, show_dict))
}

/// What the entries from index `k` on show for a word: the text of the first
/// that matches, or `otherwise` where none does.
pub open spec fn decoded_from<T: Num, F: ShowFun>(
    list: Seq<Instruction<T>>,
    dict: Map<Seq<char>, F>,
    w: u32,
    otherwise: Seq<char>,
    k: int,
) -> Seq<char>
    decreases list.len() - k,
{
    if k < 0 || k >= list.len() {
        otherwise
    } else if list[k].matches(w) {
        entry_text(list[k], w, dict)
    } else {
        decoded_from(list, dict, w, otherwise, k + 1)
    }
}

/// What is shown for a word that no entry matches.
pub open spec fn not_found_text<T: Num>() -> Seq<char> {
    T::name() + ". Not found!"@
}

/// What a table shows for a word.
pub open spec fn decoded<T: Num, F: ShowFun>(isa: ISA<T, F>, w: u32) -> Seq<char> {
    decoded_from(isa.list@, isa.show_dict@, w, not_found_text::<T>(), 0)
}

/// Tries the entries in order and gives the text of the first that matches.
fn first_match<T: Num, F: ShowFun>(v: T::IType, isa: &ISA<T, F>) -> (r: Option<String>)
    ensures
        match r {
            Some(s) => forall|o: Seq<char>|
                s@ == #[trigger] decoded_from(isa.list@, isa.show_dict@, T::word(v), o, 0),
            None => forall|o: Seq<char>|
                o == #[trigger] decoded_from(isa.list@, isa.show_dict@, T::word(v), o, 0),
        },
{
    let ghost w = T::word(v);
    let mut k: usize = 0;
    while k < isa.list.len()
        invariant
            k <= isa.list.len(),
            w == T::word(v),
            forall|o: Seq<char>|
                #[trigger] decoded_from(isa.list@, isa.show_dict@, w, o, 0) == decoded_from(
                    isa.list@,
                    isa.show_dict@,
                    w,
                    o,
                    k as int,
                ),
        decreases isa.list.len() - k,
    {
        if let Some(s) = try_instruction(v, &isa.list[k], &isa.show_dict) {
            return Some(s);
        }
        k = k + 1;
    }
    None
}

/// Decodes a word: the text of the first entry of the table that the word
/// matches, or a line that names the word's kind where none does.
pub fn decode<T: Num, F: ShowFun>(v: T::IType, isa: &ISA<T, F>) -> (r: String)
    ensures
        r@ == decoded(*isa, T::word(v)),
{
    match first_match(v, isa) {
        Some(s) => s,
        None => {
            let mut r = T::kind_name().to_owned();
            r.append(". Not found!");
            r
        },
    }
}

/// What a compact table shows for a word that no entry matches.
pub open spec fn compact_not_found_text() -> Seq<char> {
    "c. Not Found!"@
}

/// Decodes a 16-bit word against a compact table.
pub fn decode16(v: u16, isa: &ISARV32C) -> (r: String)
    ensures
        r@ == decoded_from(isa.list@, isa.show_dict@, v as u32, compact_not_found_text(), 0),
{
    let found = first_match::<CompactType, _>(v, isa);
    let ghost shown = decoded_from(
        isa.list@,
        isa.show_dict@,
        CompactType::word(v),
        compact_not_found_text(),
        0,
    );
    match found {
        Some(s) => {
            assert(s@ == shown);
            s
        },
        None => {
            assert(shown == compact_not_found_text());
            "c. Not Found!".to_owned()
        },
    }
}

/// Decoding keeps no state: what a table shows for a word depends on the
/// table and the word alone, so two decodings of one word against one table
/// give the same text.
pub proof fn lemma_decode_repeats<T: Num, F: ShowFun>(
    isa: ISA<T, F>,
    w: u32,
    first: Seq<char>,
    second: Seq<char>,
)
    requires
        first == decoded(isa, w),
        second == decoded(isa, w),
    ensures
        first == second,
{
}

} // verus!
