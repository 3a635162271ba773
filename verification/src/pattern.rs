//! The mask and pattern of a layout: the test `word & mask == pattern`.
use vstd::prelude::*;
use crate::layout::{
    bits_len_spec, fits, item_defect, item_width, lemma_bits_len_prefix, lemma_bits_len_step,
    valid_layout, word_bits, BinaryInstruction, Item, ItemView,
};
use crate::width::Num;

verus! {

/// The number whose `len` lowest bits are set, for `len` up to 32.
pub open spec fn low_ones(len: nat) -> u64 {
    ((1u64 << (len as u64)) - 1) as u64
}

/// The mask accumulated over the segments: each segment shifts what came
/// before to the left by its width; a literal fills the room with ones.
pub open spec fn acc_mask(s: Seq<ItemView>) -> u64
    decreases s.len(),
{
    if s.len() == 0 {
        0
    } else {
        let before = acc_mask(s.drop_last());
        match s.last() {
            ItemView::Bits { len, .. } => (before << (len as u64)) | low_ones(len),
            ItemView::Ident { bitspec, .. } => before << (bitspec.len() as u64),
        }
    }
}

/// The pattern accumulated over the segments: each segment shifts what came
/// before to the left by its width; a literal fills the room with its value.
pub open spec fn acc_pattern(s: Seq<ItemView>) -> u64
    decreases s.len(),
{
    if s.len() == 0 {
        0
    } else {
        let before = acc_pattern(s.drop_last());
        match s.last() {
            ItemView::Bits { len, val } => (before << (len as u64)) | (val as u64),
            ItemView::Ident { bitspec, .. } => before << (bitspec.len() as u64),
        }
    }
}

/// The mask of a layout: ones where a literal stands, zeros under the fields.
pub open spec fn layout_mask(s: Seq<ItemView>) -> u32 {
    acc_mask(s) as u32
}

/// The pattern of a layout: the literals' values in place, zeros under the fields.
pub open spec fn layout_pattern(s: Seq<ItemView>) -> u32 {
    acc_pattern(s) as u32
}

/// The `len` bits of `w` of which the lowest is bit `low`.
pub open spec fn word_field(w: u32, low: nat, len: nat) -> u64 {
    ((w as u64) >> (low as u64)) & low_ones(len)
}

/// Index of the lowest word bit that segment `k` covers.
pub open spec fn segment_low(s: Seq<ItemView>, width: nat, k: int) -> int {
    width - bits_len_spec(s.take(k + 1))
}

/// True when segment `k` is a field, or a literal whose bits in `w` are its value.
pub open spec fn literal_matches(s: Seq<ItemView>, width: nat, w: u32, k: int) -> bool {
    match s[k] {
        ItemView::Bits { len, val } => word_field(w, segment_low(s, width, k) as nat, len) == val,
        ItemView::Ident { .. } => true,
    }
}

/// True when every literal among the first `n` segments has its value in `w`.
pub open spec fn literals_match_upto(s: Seq<ItemView>, width: nat, w: u32, n: int) -> bool {
    forall|k: int| 0 <= k < n ==> #[trigger] literal_matches(s, width, w, k)
}

/// True when every literal of the layout has its value in `w`.
pub open spec fn literals_match(s: Seq<ItemView>, width: nat, w: u32) -> bool {
    literals_match_upto(s, width, w, s.len() as int)
}

/// One literal more, on bit vectors: the accumulated mask still fits in the
/// bits consumed. `mask` stands for the `c` bits consumed before the literal,
/// which has `len` bits.
#[verifier::rlimit(100)]
proof fn lemma_literal_fits(len: u64, c: u64, mask: u64)
    by (bit_vector)
    requires
        len <= 32,
        c <= 32,
        len + c <= 32,
        mask >> c == 0,
    ensures
        ((mask << len) | (((1u64 << len) - 1) as u64)) >> ((c + len) as u64) == 0,
{
}

/// One literal more, on bit vectors: the pattern still sets no bit outside
/// the mask.
#[verifier::rlimit(100)]
proof fn lemma_literal_inside(len: u64, c: u64, mask: u64, pattern: u64, val: u32)
    by (bit_vector)
    requires
        len <= 32,
        c <= 32,
        len + c <= 32,
        mask >> c == 0,
        pattern & !mask == 0,
        len >= 32 || (val >> (len as u32)) == 0,
    ensures
        ((pattern << len) | (val as u64)) & !((mask << len) | (((1u64 << len) - 1) as u64)) == 0,
{
}

/// One literal more, on bit vectors: the test on the bits from `low` up
/// succeeds exactly when the test on the bits above the literal does and the
/// literal's bits are `val`.
#[verifier::rlimit(100)]
proof fn lemma_literal_test(w: u64, low: u64, len: u64, c: u64, mask: u64, pattern: u64, val: u32)
    by (bit_vector)
    requires
        w <= 0xffff_ffff,
        len <= 32,
        low <= 32,
        c <= 32,
        low + len + c <= 32,
        mask >> c == 0,
        pattern & !mask == 0,
        len >= 32 || (val >> (len as u32)) == 0,
    ensures
        ((w >> low) & ((mask << len) | (((1u64 << len) - 1) as u64)) == ((pattern << len) | (
        val as u64))) <==> ((w >> ((low + len) as u64)) & mask == pattern && ((w >> low) & (((1u64
            << len) - 1) as u64)) == val),
{
}

/// One field more, on bit vectors: the field's `len` bits are not tested.
#[verifier::rlimit(100)]
proof fn lemma_step_field(w: u64, low: u64, len: u64, c: u64, mask: u64, pattern: u64)
    by (bit_vector)
    requires
        w <= 0xffff_ffff,
        len <= 32,
        low <= 32,
        c <= 32,
        low + len + c <= 32,
        mask >> c == 0,
        pattern & !mask == 0,
    ensures
        (mask << len) >> ((c + len) as u64) == 0,
        (pattern << len) & !(mask << len) == 0,
        ((w >> low) & (mask << len) == (pattern << len)) <==> ((w >> ((low + len) as u64)) & mask
            == pattern),
{
}

/// Before any segment nothing is tested.
proof fn lemma_step_none(w: u64, width: u64)
    by (bit_vector)
    requires
        width <= 32,
    ensures
        0u64 >> 0u64 == 0,
        0u64 & !0u64 == 0,
        (w >> width) & 0u64 == 0u64,
{
}

/// When mask and pattern stand for the whole word, the test on 64 bits is the
/// test on the word itself.
proof fn lemma_whole_word(w: u32, width: u64, mask: u64, pattern: u64)
    by (bit_vector)
    requires
        width <= 32,
        mask >> width == 0,
        pattern & !mask == 0,
    ensures
        mask <= 0xffff_ffff,
        pattern <= 0xffff_ffff,
        ((mask as u32) as u64) >> width == 0,
        ((pattern as u32) as u64) >> width == 0,
        (pattern as u32) & !(mask as u32) == 0,
        (((w as u64) >> 0u64) & mask == pattern) <==> (w & (mask as u32) == (pattern as u32)),
{
}

/// What the accumulated mask and pattern of the first `n` segments say of a
/// word: they fit in the bits consumed so far, the pattern stays inside the
/// mask, and the test on the word's top bits succeeds exactly when each
/// literal among those segments has its value in the word.
pub proof fn lemma_mask_pattern_prefix(s: Seq<ItemView>, width: nat, w: u32, n: int)
    requires
        valid_layout(s, width),
        width <= 32,
        0 <= n <= s.len(),
    ensures
        bits_len_spec(s.take(n)) <= width,
        acc_mask(s.take(n)) >> (bits_len_spec(s.take(n)) as u64) == 0,
        acc_pattern(s.take(n)) & !acc_mask(s.take(n)) == 0,
        (((w as u64) >> ((width - bits_len_spec(s.take(n))) as u64)) & acc_mask(s.take(n))
            == acc_pattern(s.take(n))) <==> literals_match_upto(s, width, w, n),
    decreases n,
{
    lemma_bits_len_prefix(s, n);
    if n == 0 {
        assert(s.take(0) =~= Seq::<ItemView>::empty());
        lemma_step_none(w as u64, width as u64);
    } else {
        lemma_mask_pattern_prefix(s, width, w, n - 1);
        lemma_bits_len_step(s, n - 1);
        let p = s.take(n);
        let q = s.take(n - 1);
        assert(p.drop_last() =~= q);
        assert(p.last() == s[n - 1]);
        let c = bits_len_spec(q) as u64;
        let len = item_width(s[n - 1]) as u64;
        let low = (width - bits_len_spec(p)) as u64;
        assert(item_defect(s[n - 1]) is None);
        assert(segment_low(s, width, n - 1) == low);
        match s[n - 1] {
            ItemView::Bits { len: l, val } => {
                lemma_literal_fits(len, c, acc_mask(q));
                lemma_literal_inside(len, c, acc_mask(q), acc_pattern(q), val);
                lemma_literal_test(w as u64, low, len, c, acc_mask(q), acc_pattern(q), val);
                assert(literal_matches(s, width, w, n - 1) <==> ((w as u64) >> low) & low_ones(l)
                    == val);
            },
            ItemView::Ident { bitspec, .. } => {
                lemma_step_field(w as u64, low, len, c, acc_mask(q), acc_pattern(q));
                assert(literal_matches(s, width, w, n - 1));
            },
        }
        assert(literals_match_upto(s, width, w, n) <==> (literals_match_upto(s, width, w, n - 1)
            && literal_matches(s, width, w, n - 1)));
    }
}

/// The mask and pattern of a valid layout fit in the word, the pattern sets no
/// bit outside the mask, and a word passes the test `w & mask == pattern`
/// exactly when every literal of the layout has its value in the word.
pub proof fn lemma_mask_pattern(s: Seq<ItemView>, width: nat, w: u32)
    requires
        valid_layout(s, width),
        width <= 32,
    ensures
        acc_mask(s) <= u32::MAX,
        acc_pattern(s) <= u32::MAX,
        (layout_mask(s) as u64) >> (width as u64) == 0,
        (layout_pattern(s) as u64) >> (width as u64) == 0,
        layout_pattern(s) & !layout_mask(s) == 0,
        (w & layout_mask(s) == layout_pattern(s)) <==> literals_match(s, width, w),
{
    lemma_mask_pattern_prefix(s, width, w, s.len() as int);
    assert(s.take(s.len() as int) =~= s);
    lemma_whole_word(w, width as u64, acc_mask(s), acc_pattern(s));
}

/// A mask and its complement cover the word.
proof fn lemma_mask_or_complement(mask: u32)
    by (bit_vector)
    ensures
        mask | !mask == 0xffff_ffffu32,
{
}

/// For a valid layout, every bit of the word is either tested or not, and
/// the pattern sets no bit that the test does not look at.
pub proof fn lemma_pattern_within_mask(s: Seq<ItemView>, width: nat)
    requires
        valid_layout(s, width),
        width <= 32,
    ensures
        layout_mask(s) | !layout_mask(s) == 0xffff_ffffu32,
        layout_pattern(s) & !layout_mask(s) == 0,
{
    lemma_mask_pattern(s, width, 0);
    lemma_mask_or_complement(layout_mask(s));
}

/// For a valid layout, a word passes the test `w & mask == pattern` exactly
/// when each literal segment finds its value at its place in the word. The
/// test looks at the word and the entry alone.
pub proof fn lemma_test_is_literal_match(s: Seq<ItemView>, width: nat, w: u32)
    requires
        valid_layout(s, width),
        width <= 32,
    ensures
        (w & layout_mask(s) == layout_pattern(s)) <==> literals_match(s, width, w),
{
    lemma_mask_pattern(s, width, w);
}

/// Segments that follow shift the accumulated mask up without changing what
/// it holds: on bit vectors, with `x` the bits that the next segment brings.
#[verifier::rlimit(100)]
proof fn lemma_shift_back(acc: u64, x: u64, len: u64, c: u64, d: u64, before: u64)
    by (bit_vector)
    requires
        len <= 32,
        c <= 32,
        d <= 32,
        c + len <= 32,
        d <= c,
        acc >> c == 0,
        x >> len == 0,
        acc >> d == before,
    ensures
        ((acc << len) | x) >> ((len + d) as u64) == before,
{
}

/// A pattern inside a mask of `c` bits has `c` bits at most.
proof fn lemma_inside_fits(mask: u64, pattern: u64, c: u64)
    by (bit_vector)
    requires
        c <= 32,
        mask >> c == 0,
        pattern & !mask == 0,
    ensures
        pattern >> c == 0,
{
}

/// A literal's value that fits its length has no bit at or above that place.
proof fn lemma_value_fits(val: u32, len: u64)
    by (bit_vector)
    requires
        len <= 32,
        len >= 32 || (val >> (len as u32)) == 0,
    ensures
        (val as u64) >> len == 0,
{
}

/// The `len` low ones have no bit at or above place `len`.
proof fn lemma_low_ones_fit(len: u64)
    by (bit_vector)
    requires
        len <= 32,
    ensures
        (((1u64 << len) - 1) as u64) >> len == 0,
{
}

/// The mask and the pattern accumulated over the first `n` segments are the
/// top of those accumulated over the first `m`, for `n <= m`.
proof fn lemma_prefix_on_top(s: Seq<ItemView>, width: nat, n: int, m: int)
    requires
        valid_layout(s, width),
        width <= 32,
        0 <= n <= m <= s.len(),
    ensures
        bits_len_spec(s.take(n)) <= bits_len_spec(s.take(m)) <= width,
        acc_mask(s.take(m)) >> ((bits_len_spec(s.take(m)) - bits_len_spec(s.take(n))) as u64)
            == acc_mask(s.take(n)),
        acc_pattern(s.take(m)) >> ((bits_len_spec(s.take(m)) - bits_len_spec(s.take(n))) as u64)
            == acc_pattern(s.take(n)),
    decreases m - n,
{
    lemma_mask_pattern_prefix(s, width, 0, m);
    lemma_mask_pattern_prefix(s, width, 0, n);
    if n == m {
        let mask = acc_mask(s.take(n));
        let pattern = acc_pattern(s.take(n));
        assert(mask >> 0u64 == mask) by (bit_vector);
        assert(pattern >> 0u64 == pattern) by (bit_vector);
    } else {
        lemma_prefix_on_top(s, width, n, m - 1);
        lemma_mask_pattern_prefix(s, width, 0, m - 1);
        lemma_bits_len_step(s, m - 1);
        let q = s.take(m - 1);
        assert(s.take(m).drop_last() =~= q);
        assert(s.take(m).last() == s[m - 1]);
        assert(item_defect(s[m - 1]) is None);
        let c = bits_len_spec(q) as u64;
        let d = (bits_len_spec(q) - bits_len_spec(s.take(n))) as u64;
        let len = item_width(s[m - 1]) as u64;
        let mask = acc_mask(q);
        let pattern = acc_pattern(q);
        lemma_inside_fits(mask, pattern, c);
        match s[m - 1] {
            ItemView::Bits { len: l, val } => {
                lemma_low_ones_fit(len);
                lemma_value_fits(val, len);
                lemma_shift_back(mask, low_ones(l), len, c, d, acc_mask(s.take(n)));
                lemma_shift_back(pattern, val as u64, len, c, d, acc_pattern(s.take(n)));
            },
            ItemView::Ident { bitspec, .. } => {
                assert(0u64 >> len == 0) by (bit_vector);
                assert(mask << len == (mask << len) | 0u64) by (bit_vector);
                assert(pattern << len == (pattern << len) | 0u64) by (bit_vector);
                lemma_shift_back(mask, 0, len, c, d, acc_mask(s.take(n)));
                lemma_shift_back(pattern, 0, len, c, d, acc_pattern(s.take(n)));
            },
        }
    }
}

/// What a segment just accumulated leaves in the `len` low bits: the bits it
/// brought, where they fit.
proof fn lemma_low_bits(acc: u64, x: u64, len: u64)
    by (bit_vector)
    requires
        len <= 32,
        x >> len == 0,
    ensures
        ((acc << len) | x) & (((1u64 << len) - 1) as u64) == x,
        (acc << len) & (((1u64 << len) - 1) as u64) == 0,
{
}

/// Shifting a word of 32 bits right as 64 bits gives what shifting it as 32 does.
proof fn lemma_word_shift(acc: u64, low: u64)
    by (bit_vector)
    requires
        acc <= 0xffff_ffff,
        low <= 32,
    ensures
        ((acc as u32) as u64) >> low == acc >> low,
{
}

/// For a valid layout, each segment stands at its place in the mask and the
/// pattern: where a literal stands, the mask is all ones and the pattern is
/// the literal's value; where a field stands, both are zero, so that a
/// field's bits are never tested.
pub proof fn lemma_segments_in_place(s: Seq<ItemView>, width: nat, k: int)
    requires
        valid_layout(s, width),
        width <= 32,
        0 <= k < s.len(),
    ensures
        0 <= segment_low(s, width, k),
        segment_low(s, width, k) + item_width(s[k]) <= width,
        match s[k] {
            ItemView::Bits { len, val } => {
                &&& word_field(layout_mask(s), segment_low(s, width, k) as nat, len) == low_ones(
                    len,
                )
                &&& word_field(layout_pattern(s), segment_low(s, width, k) as nat, len) == val
            },
            ItemView::Ident { bitspec, .. } => {
                &&& word_field(layout_mask(s), segment_low(s, width, k) as nat, bitspec.len()) == 0
                &&& word_field(layout_pattern(s), segment_low(s, width, k) as nat, bitspec.len())
                    == 0
            },
        },
{
    lemma_prefix_on_top(s, width, k + 1, s.len() as int);
    lemma_mask_pattern(s, width, 0);
    assert(s.take(s.len() as int) =~= s);
    lemma_bits_len_step(s, k);
    lemma_bits_len_prefix(s, k);
    lemma_bits_len_prefix(s, k + 1);
    assert(s.take(k + 1).drop_last() =~= s.take(k));
    assert(s.take(k + 1).last() == s[k]);
    assert(item_defect(s[k]) is None);
    let len = item_width(s[k]) as u64;
    let low = segment_low(s, width, k) as u64;
    let mask = acc_mask(s.take(k));
    let pattern = acc_pattern(s.take(k));
    lemma_word_shift(acc_mask(s), low);
    lemma_word_shift(acc_pattern(s), low);
    match s[k] {
        ItemView::Bits { len: l, val } => {
            lemma_low_ones_fit(len);
            lemma_value_fits(val, len);
            lemma_low_bits(mask, low_ones(l), len);
            lemma_low_bits(pattern, val as u64, len);
        },
        ItemView::Ident { bitspec, .. } => {
            assert(0u64 >> len == 0) by (bit_vector);
            lemma_low_bits(mask, 0, len);
            lemma_low_bits(pattern, 0, len);
        },
    }
}

/// Shifting one left by at most 32 places leaves room to subtract one.
proof fn lemma_low_ones_defined(len: u64)
    by (bit_vector)
    requires
        len <= 32,
    ensures
        (1u64 << len) >= 1,
{
}

/// Builds the mask and the pattern of a layout: a word passes the test
/// `w & mask == pattern` exactly when each literal of the layout finds its
/// value at its place in the word, and the pattern sets no bit outside the mask.
pub fn mask_pattern<T: Num>(instr: &BinaryInstruction<T>) -> (r: (T::IType, T::IType))
    requires
        valid_layout(instr@, word_bits::<T>()),
    ensures
        T::word(r.0) == layout_mask(instr@),
        T::word(r.1) == layout_pattern(instr@),
        T::word(r.1) & !T::word(r.0) == 0,
        forall|w: u32|
            (w & T::word(r.0) == T::word(r.1)) <==> #[trigger] literals_match(
                instr@,
                word_bits::<T>(),
                w,
            ),
{
    let ghost s = instr@;
    let ghost width = word_bits::<T>();
    proof {
        T::lemma_top_bit();
        assert(s.take(0) =~= Seq::<ItemView>::empty());
    }
    let mut mask: u64 = 0;
    let mut pattern: u64 = 0;
    let mut i: usize = 0;
    while i < instr.list.len()
        invariant
            i <= instr.list.len(),
            s == instr@,
            width == word_bits::<T>(),
            width <= 32,
            valid_layout(s, width),
            mask == acc_mask(s.take(i as int)),
            pattern == acc_pattern(s.take(i as int)),
        decreases instr.list.len() - i,
    {
        proof {
            lemma_bits_len_prefix(s, i + 1);
            lemma_bits_len_step(s, i as int);
            assert(s.take(i + 1).drop_last() =~= s.take(i as int));
            assert(s[i as int] == instr.list@[i as int]@);
        }
        match &instr.list[i] {
            Item::Bits { len, val } => {
                let l = *len as u64;
                proof {
                    lemma_low_ones_defined(l);
                }
                mask = (mask << l) | ((1u64 << l) - 1);
                pattern = (pattern << l) | (T::to_word(*val) as u64);
            },
            Item::Ident { bitspec, .. } => {
                let l = bitspec.len() as u64;
                mask = mask << l;
                pattern = pattern << l;
            },
        }
        i = i + 1;
    }
    proof {
        assert(s.take(s.len() as int) =~= s);
        lemma_mask_pattern(s, width, 0);
        assert forall|w: u32|
            (w & layout_mask(s) == layout_pattern(s)) <==> #[trigger] literals_match(
                s,
                width,
                w,
            ) by {
            lemma_mask_pattern(s, width, w);
        }
    }
    (T::from_word(mask as u32), T::from_word(pattern as u32))
}

/// Tells whether a word has the layout's literals in place, from the layout alone.
pub fn check<T: Num>(v: T::IType, instr: &BinaryInstruction<T>) -> (r: bool)
    requires
        valid_layout(instr@, word_bits::<T>()),
    ensures
        r == (T::word(v) & layout_mask(instr@) == layout_pattern(instr@)),
        r == literals_match(instr@, word_bits::<T>(), T::word(v)),
{
    let (mask, pattern) = mask_pattern(instr);
    proof {
        T::lemma_top_bit();
        lemma_mask_pattern(instr@, word_bits::<T>(), T::word(v));
    }
    T::to_word(v) & T::to_word(mask) == T::to_word(pattern)
}

} // verus!
