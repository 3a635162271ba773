//! Naming decoded 32-bit instructions: the mnemonic is looked up by opcode,
//! `funct3` and, where the format has one, `funct7` or constant.
use vstd::prelude::*;
use vstd::string::StringExecFns;
use crate::fixed::{
    bit_range, decode, decoded_fixed, ImmFunc, Instruction, InstructionFmt, Opcode,
};

verus! {

/// What tells one instruction from another within a format: the opcode, the
/// `funct3` where the format has one, and the `funct7` or the constant where
/// the instruction has one.
#[derive(PartialEq, Eq, Structural, Debug, Clone, Copy)]
pub struct MnemonicKey {
    pub opcode: u8,
    pub func3: Option<u8>,
    pub selector: Option<u16>,
}

/// One line of a mnemonic table.
#[derive(Debug)]
pub struct Mnemonic {
    pub key: MnemonicKey,
    pub name: String,
}

/// The key under which the mnemonic of a record is looked up.
pub open spec fn key_of(i: Instruction) -> MnemonicKey {
    match i {
        Instruction::R { func7, func3, opcode, .. } => MnemonicKey {
            opcode: opcode.v,
            func3: Some(func3.v),
            selector: Some(func7.v as u16),
        },
        Instruction::I { immfunc, func3, opcode, .. } => MnemonicKey {
            opcode: opcode.v,
            func3: Some(func3.v),
            selector: match immfunc {
                ImmFunc::Imm(_) => None,
                ImmFunc::FuncImm { func7, .. } => Some(func7.v as u16),
                ImmFunc::Const(c) => Some(c),
            },
        },
        Instruction::S { func3, opcode, .. } => MnemonicKey {
            opcode: opcode.v,
            func3: Some(func3.v),
            selector: None,
        },
        Instruction::SB { func3, opcode, .. } => MnemonicKey {
            opcode: opcode.v,
            func3: Some(func3.v),
            selector: None,
        },
        Instruction::U { opcode, .. } => MnemonicKey {
            opcode: opcode.v,
            func3: None,
            selector: None,
        },
        Instruction::UJ { opcode, .. } => MnemonicKey {
            opcode: opcode.v,
            func3: None,
            selector: None,
        },
    }
}

/// True when line `j` is the first one under `key`.
pub open spec fn first_named(names: Seq<Mnemonic>, key: MnemonicKey, j: int) -> bool {
    &&& 0 <= j < names.len()
    &&& names[j].key == key
    &&& forall|k: int| 0 <= k < j ==> names[k].key != key
}

/// True when some line stands under `key`.
pub open spec fn is_named(names: Seq<Mnemonic>, key: MnemonicKey) -> bool {
    exists|j: int| first_named(names, key, j)
}

/// The mnemonic of the first line under `key`.
pub open spec fn name_of(names: Seq<Mnemonic>, key: MnemonicKey) -> Seq<char> {
    names[choose|j: int| first_named(names, key, j)].name@
}

/// The first line under a key is the one that gives the name.
proof fn lemma_first_named(names: Seq<Mnemonic>, key: MnemonicKey, j: int)
    requires
        first_named(names, key, j),
    ensures
        is_named(names, key),
        name_of(names, key) == names[j].name@,
{
    let c = choose|j: int| first_named(names, key, j);
    assert(first_named(names, key, c));
    if c < j {
        assert(names[c].key != key);
    } else if j < c {
        assert(names[j].key != key);
    }
}

/// The line that an instruction shows: its mnemonic before the format and
/// the fields, or, where the table has no line for it, the opcode in their
/// place.
pub open spec fn named_text(i: Instruction, names: Seq<Mnemonic>) -> Seq<char> {
    if is_named(names, key_of(i)) {
        name_of(names, key_of(i)) + ", "@ + i.text()
    } else {
        i.debug_text()
    }
}

/// The opcode of a 32-bit word: its bits 6 to 0.
pub fn opcode_of(v: u32) -> (r: Opcode)
    ensures
        r.v == bit_range(v, 6, 0),
        r.wf(),
        bit_range(v, 6, 0) < 128,
{
    assert((v & 0x7f) == ((v >> 0u32) & (0xffff_ffffu32 >> 25u32)) && (v & 0x7f) < 128)
        by (bit_vector);
    Opcode::new((v & 0x7f) as u8)
}

/// The key under which the mnemonic of a record is looked up.
pub fn mnemonic_key(i: &Instruction) -> (r: MnemonicKey)
    ensures
        r == key_of(*i),
{
    match i {
        Instruction::R { func7, func3, opcode, .. } => MnemonicKey {
            opcode: opcode.v,
            func3: Some(func3.v),
            selector: Some(func7.v as u16),
        },
        Instruction::I { immfunc, func3, opcode, .. } => MnemonicKey {
            opcode: opcode.v,
            func3: Some(func3.v),
            selector: match immfunc {
                ImmFunc::Imm(_) => None,
                ImmFunc::FuncImm { func7, .. } => Some(func7.v as u16),
                ImmFunc::Const(c) => Some(*c),
            },
        },
        Instruction::S { func3, opcode, .. } => MnemonicKey {
            opcode: opcode.v,
            func3: Some(func3.v),
            selector: None,
        },
        Instruction::SB { func3, opcode, .. } => MnemonicKey {
            opcode: opcode.v,
            func3: Some(func3.v),
            selector: None,
        },
        Instruction::U { opcode, .. } => MnemonicKey {
            opcode: opcode.v,
            func3: None,
            selector: None,
        },
        Instruction::UJ { opcode, .. } => MnemonicKey {
            opcode: opcode.v,
            func3: None,
            selector: None,
        },
    }
}

/// Renders a decoded instruction with its mnemonic; an instruction that the
/// table does not name is rendered with its opcode instead.
pub fn render(i: &Instruction, names: &Vec<Mnemonic>) -> (r: String)
    ensures
        r@ == named_text(*i, names@),
{
    let key = mnemonic_key(i);
    let mut j: usize = 0;
    while j < names.len()
        invariant
            j <= names.len(),
            key == key_of(*i),
            forall|k: int| 0 <= k < j ==> names@[k].key != key,
        decreases names.len() - j,
    {
        if names[j].key == key {
            proof {
                lemma_first_named(names@, key, j as int);
            }
            let mut out = names[j].name.clone();
            out.append(", ");
            out.append(i.to_string().as_str());
            return out;
        }
        j = j + 1;
    }
    proof {
        if is_named(names@, key) {
            let c = choose|c: int| first_named(names@, key, c);
            assert(names@[c].key != key);
        }
    }
    i.to_debug_string()
}

/// True when line `j` is the first one that gives `opcode` a format.
pub open spec fn first_format(formats: Seq<(Opcode, InstructionFmt)>, opcode: Opcode, j: int) -> bool {
    &&& 0 <= j < formats.len()
    &&& formats[j].0 == opcode
    &&& forall|k: int| 0 <= k < j ==> formats[k].0 != opcode
}

/// The format that the first line for `opcode` gives, if there is one.
pub open spec fn format_of(formats: Seq<(Opcode, InstructionFmt)>, opcode: Opcode) -> Option<
    InstructionFmt,
> {
    if exists|j: int| first_format(formats, opcode, j) {
        Some(formats[choose|j: int| first_format(formats, opcode, j)].1)
    } else {
        None
    }
}

/// The first line for an opcode is the one that gives its format.
proof fn lemma_first_format(formats: Seq<(Opcode, InstructionFmt)>, opcode: Opcode, j: int)
    requires
        first_format(formats, opcode, j),
    ensures
        format_of(formats, opcode) == Some(formats[j].1),
{
    let c = choose|j: int| first_format(formats, opcode, j);
    assert(first_format(formats, opcode, c));
    if c < j {
        assert(formats[c].0 != opcode);
    } else if j < c {
        assert(formats[j].0 != opcode);
    }
}

/// Looks up the format of an opcode.
pub fn find_format(formats: &Vec<(Opcode, InstructionFmt)>, opcode: Opcode) -> (r: Option<
    InstructionFmt,
>)
    ensures
        r == format_of(formats@, opcode),
{
    let mut j: usize = 0;
    while j < formats.len()
        invariant
            j <= formats.len(),
            forall|k: int| 0 <= k < j ==> formats@[k].0 != opcode,
        decreases formats.len() - j,
    {
        if formats[j].0 == opcode {
            proof {
                lemma_first_format(formats@, opcode, j as int);
            }
            return Some(formats[j].1);
        }
        j = j + 1;
    }
    proof {
        if exists|c: int| first_format(formats@, opcode, c) {
            let c = choose|c: int| first_format(formats@, opcode, c);
            assert(formats@[c].0 != opcode);
        }
    }
    None
}

/// The opcode that bits 6 to 0 of a word hold.
pub open spec fn opcode_at(v: u32) -> Opcode {
    Opcode { v: bit_range(v, 6, 0) as u8 }
}

/// What is shown for a word whose opcode has no format: the opcode alone.
pub open spec fn unknown_text(v: u32) -> Seq<char> {
    "op: "@ + opcode_at(v).text()
}

/// The line that a word shows: decoded in the format of its opcode and
/// rendered with its mnemonic, or, where the opcode has no format, the
/// opcode alone.
pub open spec fn word_text(
    v: u32,
    formats: Seq<(Opcode, InstructionFmt)>,
    names: Seq<Mnemonic>,
) -> Seq<char> {
    match format_of(formats, opcode_at(v)) {
        Some(fmt) => named_text(decoded_fixed(fmt, v, opcode_at(v)), names),
        None => unknown_text(v),
    }
}

/// Decodes and renders a 32-bit word; a word whose opcode has no format is
/// shown by the value of the opcode.
pub fn render_word(v: u32, formats: &Vec<(Opcode, InstructionFmt)>, names: &Vec<Mnemonic>) -> (r:
    String)
    ensures
        r@ == word_text(v, formats@, names@),
{
    let op = opcode_of(v);
    match find_format(formats, op) {
        Some(fmt) => {
            let i = decode(&fmt, v, &op);
            render(&i, names)
        },
        None => {
            let mut out = "op: ".to_owned();
            out.append(op.to_string().as_str());
            out
        },
    }
}

} // verus!
