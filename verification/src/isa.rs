//! Instruction tables: entries in order of priority, and the formatters of
//! their fields.
use vstd::prelude::*;
use crate::dsl::{entry_from_text, entry_of, DslError};
use crate::entry::Instruction;
use crate::layout::ItemView;
use crate::lexer::tokens_of;
use crate::show::{Show, ShowDict};
use crate::template::PartView;
use crate::width::{CompactType, Num, RV32Type};

verus! {

/// An instruction table. The first entry that a word matches decides how the
/// word is shown, so the more specific entries stand first.
#[derive(Debug)]
pub struct ISA<T: Num, F> {
    pub list: Vec<Instruction<T>>,
    pub show_dict: ShowDict<F>,
}

/// A table of 16-bit compact instructions.
pub type ISARV32C = ISA<CompactType, Show>;

/// A table of 32-bit base instructions.
pub type ISARV32IMA = ISA<RV32Type, Show>;

/// Why the text of an entry cannot be read for words of policy `T`, if it cannot.
pub open spec fn line_error<T: Num>(line: Seq<char>) -> Option<DslError> {
    match tokens_of(line) {
        Err(e) => Some(e),
        Ok(tokens) => match entry_of::<T>(tokens) {
            Err(e) => Some(e),
            Ok(_) => None,
        },
    }
}

/// True when the entry is what its text describes.
pub open spec fn line_reads<T: Num>(entry: Instruction<T>, line: Seq<char>) -> bool {
    match tokens_of(line) {
        Err(_) => false,
        Ok(tokens) => entry_of::<T>(tokens) == Ok::<
            (Seq<PartView>, Seq<ItemView>),
            DslError,
        >((entry.template(), entry.layout())),
    }
}

/// The texts of a list as mathematical values.
pub open spec fn lines_view(lines: Seq<&'static str>) -> Seq<Seq<char>> {
    Seq::new(lines.len(), |i: int| lines[i]@)
}

/// What building a table from the texts of its entries gives: the table
/// whose entries are what the texts describe, in their order, or the index
/// of the first text that cannot be read, with the reason.
pub open spec fn table_of<T: Num, F>(
    r: Result<ISA<T, F>, (usize, DslError)>,
    lines: Seq<Seq<char>>,
    dict: Map<Seq<char>, F>,
) -> bool {
    match r {
        Ok(isa) => {
            &&& isa.show_dict@ == dict
            &&& isa.list@.len() == lines.len()
            &&& forall|i: int| 0 <= i < lines.len() ==> line_reads(#[trigger] isa.list@[i], lines[i])
        },
        Err((k, e)) => {
            &&& k < lines.len()
            &&& line_error::<T>(lines[k as int]) == Some(e)
            &&& forall|i: int| 0 <= i < k ==> (#[trigger] line_error::<T>(lines[i])) is None
        },
    }
}

impl<T: Num, F> ISA<T, F> {
    /// Builds a table from the texts of its entries, in order of priority.
    pub fn from_lines(lines: &Vec<&'static str>, show_dict: ShowDict<F>) -> (r: Result<
        Self,
        (usize, DslError),
    >)
        ensures
            table_of(r, lines_view(lines@), show_dict@),
    {
        let ghost texts = lines_view(lines@);
        let mut list: Vec<Instruction<T>> = Vec::new();
        let mut i: usize = 0;
        while i < lines.len()
            invariant
                i <= lines.len(),
                texts == lines_view(lines@),
                list@.len() == i,
                forall|k: int| 0 <= k < i ==> line_reads(#[trigger] list@[k], texts[k]),
                forall|k: int| 0 <= k < i ==> (#[trigger] line_error::<T>(texts[k])) is None,
            decreases lines.len() - i,
        {
            assert(texts[i as int] == lines@[i as int]@);
            match entry_from_text::<T>(lines[i]) {
                Err(e) => {
                    return Err((i, e));
                },
                Ok(entry) => {
                    list.push(entry);
                },
            }
            i = i + 1;
        }
        Ok(ISA { list, show_dict })
    }
}

/// The formatters of the tables: the registers `rd`, `rs1` and `rs2` are
/// shown by index.
pub open spec fn register_dict() -> Map<Seq<char>, Show> {
    Map::<Seq<char>, Show>::empty().insert("rd"@, Show::Register).insert(
        "rs1"@,
        Show::Register,
    ).insert("rs2"@, Show::Register)
}

/// Registers the formatter of registers under `rd`, `rs1` and `rs2`.
pub fn register_show_dict() -> (r: ShowDict<Show>)
    ensures
        r@ == register_dict(),
{
    let mut show_dict = ShowDict::new();
    show_dict.insert("rd".to_owned(), Show::Register);
    show_dict.insert("rs1".to_owned(), Show::Register);
    show_dict.insert("rs2".to_owned(), Show::Register);
    show_dict
}

} // verus!
