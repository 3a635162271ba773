//! Width policies: how wide a raw instruction word is and how its bits are read.
use vstd::prelude::*;
use crate::radix::{parse_radix, u16_from_str_radix, u32_from_str_radix};

verus! {

/// True when `w` has no bit set above bit `max_bit`.
pub open spec fn in_width(w: u32, max_bit: u32) -> bool {
    (w as u64) >> ((max_bit + 1) as u64) == 0
}

/// The interface of a raw word type: constants, the index of the top bit,
/// reading one bit, and reading a word from text.
pub trait Num: Sized {
    /// The raw word as it is stored.
    type IType: Copy + PartialEq + Eq + std::fmt::Debug;

    /// The raw word as a number.
    spec fn word(v: Self::IType) -> u32;

    /// Index of the most significant bit of a raw word.
    spec fn top_bit() -> u32;

    /// The name shown for words of this width.
    spec fn name() -> Seq<char>;

    /// A raw word never has more than 32 bits.
    proof fn lemma_top_bit()
        ensures
            Self::top_bit() < 32,
    ;

    /// A raw word has no bit set above its top bit.
    proof fn lemma_word_in_width(v: Self::IType)
        ensures
            in_width(Self::word(v), Self::top_bit()),
    ;

    fn from_str_radix(src: &str, radix: u32) -> (r: Result<Self::IType, std::num::ParseIntError>)
        requires
            2 <= radix <= 36,
        ensures
            match r {
                Ok(v) => parse_radix(src@, radix as nat) == Some(Self::word(v) as nat),
                Err(_) => match parse_radix(src@, radix as nat) {
                    Some(n) => n > u32::MAX || !in_width(n as u32, Self::top_bit()),
                    None => true,
                },
            },
    ;

    fn i_one() -> (r: Self::IType)
        ensures
            Self::word(r) == 1,
    ;

    fn i_zero() -> (r: Self::IType)
        ensures
            Self::word(r) == 0,
    ;

    fn i_max_bit() -> (r: u32)
        ensures
            r == Self::top_bit(),
    ;

    fn d_zero() -> (r: u32)
        ensures
            r == 0,
    ;

    /// Bit `bit` of `v`, as 0 or 1.
    fn get_bit(v: Self::IType, bit: u32) -> (r: u32)
        requires
            bit <= Self::top_bit(),
        ensures
            r == (Self::word(v) >> bit) & 1,
    ;

    fn kind_name() -> (r: &'static str)
        ensures
            r@ == Self::name(),
    ;

    /// The raw word widened to 32 bits.
    fn to_word(v: Self::IType) -> (w: u32)
        ensures
            w == Self::word(v),
    ;

    /// The raw word that holds the number `w`.
    fn from_word(w: u32) -> (v: Self::IType)
        requires
            in_width(w, Self::top_bit()),
        ensures
            Self::word(v) == w,
    ;
}

/// The 16-bit compact instruction word.
#[derive(Debug, PartialEq, Eq)]
pub struct CompactType {}

/// The 32-bit base instruction word.
#[derive(Debug, PartialEq, Eq)]
pub struct RV32Type {}

impl Num for CompactType {
    type IType = u16;

    open spec fn word(v: u16) -> u32 {
        v as u32
    }

    open spec fn top_bit() -> u32 {
        15
    }

    open spec fn name() -> Seq<char> {
        "CompactType"@
    }

    proof fn lemma_top_bit() {
    }

    proof fn lemma_word_in_width(v: u16) {
        assert((v as u32 as u64) >> 16 == 0) by (bit_vector);
    }

    fn from_str_radix(src: &str, radix: u32) -> (r: Result<u16, std::num::ParseIntError>) {
        let r = u16_from_str_radix(src, radix);
        proof {
            if let Some(n) = parse_radix(src@, radix as nat) {
                if n <= u32::MAX {
                    let w = n as u32;
                    assert((w as u64) >> 16 == 0 <==> w <= 0xffff) by (bit_vector);
                }
            }
        }
        r
    }

    fn i_one() -> (r: u16) {
        1
    }

    fn i_zero() -> (r: u16) {
        0
    }

    fn i_max_bit() -> (r: u32) {
        15
    }

    fn d_zero() -> (r: u32) {
        0
    }

    fn get_bit(v: u16, bit: u32) -> (r: u32) {
        ((v as u32) >> bit) & 1
    }

    fn kind_name() -> (r: &'static str) {
        "CompactType"
    }

    fn to_word(v: u16) -> (w: u32) {
        v as u32
    }

    fn from_word(w: u32) -> (v: u16) {
        assert((w as u64) >> 16 == 0 ==> w <= 0xffff) by (bit_vector);
        w as u16
    }
}

impl Num for RV32Type {
    type IType = u32;

    open spec fn word(v: u32) -> u32 {
        v
    }

    open spec fn top_bit() -> u32 {
        31
    }

    open spec fn name() -> Seq<char> {
        "RV32Type"@
    }

    proof fn lemma_top_bit() {
    }

    proof fn lemma_word_in_width(v: u32) {
        assert((v as u64) >> 32 == 0) by (bit_vector);
    }

    fn from_str_radix(src: &str, radix: u32) -> (r: Result<u32, std::num::ParseIntError>) {
        let r = u32_from_str_radix(src, radix);
        proof {
            if let Some(n) = parse_radix(src@, radix as nat) {
                if n <= u32::MAX {
                    let w = n as u32;
                    assert((w as u64) >> 32 == 0) by (bit_vector);
                }
            }
        }
        r
    }

    fn i_one() -> (r: u32) {
        1
    }

    fn i_zero() -> (r: u32) {
        0
    }

    fn i_max_bit() -> (r: u32) {
        31
    }

    fn d_zero() -> (r: u32) {
        0
    }

    fn get_bit(v: u32, bit: u32) -> (r: u32) {
        (v >> bit) & 1
    }

    fn kind_name() -> (r: &'static str) {
        "RV32Type"
    }

    fn to_word(v: u32) -> (w: u32) {
        v
    }

    fn from_word(w: u32) -> (v: u32) {
        w
    }
}

} // verus!
