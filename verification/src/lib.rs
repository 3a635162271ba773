//! A table-driven disassembler core for 16-bit compact and 32-bit RISC-V
//! instruction words.
//!
//! An instruction is described by a layout, which cuts the word into literal
//! bits and named fields, and by a template, which says how the fields are
//! shown. From the layout come a mask and a pattern, so that a word belongs
//! to the instruction when `word & mask == pattern`. Decoding a word tries
//! the entries of a table in order, gathers the fields of the first entry
//! that matches, and renders its template.
//!
//! - `width`: the word policies; `layout`, `pattern`, `extract`: layouts,
//!   their masks, and the gathering of fields; `template`, `show`: templates
//!   and formatters; `entry`, `isa`, `decode`: table entries, tables and
//!   decoding.
//! - `token`, `lexer`, `dsl`: the notation in which tables are written;
//!   `rv32c`, `rv32ima`: the tables.
//! - `fixed`, `fixed_text`, `fixed32`, `mnemonic`: the six base formats read
//!   from their fixed bit positions; `compact`, `compact_ops`: the records
//!   of compact instructions.
//! - `stream`: cutting bytes into instruction words; `radix`: reading numbers.
use vstd::prelude::*;

pub mod compact;
pub mod compact_ops;
pub mod decode;
pub mod dsl;
pub mod entry;
pub mod extract;
pub mod fixed;
pub mod fixed32;
pub mod fixed_text;
pub mod isa;
pub mod layout;
pub mod lexer;
pub mod mnemonic;
pub mod pattern;
pub mod radix;
pub mod rv32c;
pub mod rv32ima;
pub mod show;
pub mod stream;
pub mod template;
pub mod token;
pub mod width;
