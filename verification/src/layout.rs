//! Bit layouts: how an instruction word is cut into literal bits and named fields.
use vstd::prelude::*;
use crate::show::{
    binary_digits, count_binary_digits, decimal_digits, push_binary_digits,
    push_decimal_digits, zeros,
};
use crate::width::Num;

verus! {

/// One segment of a layout, read from the most significant bit down: fixed
/// bits, or a named field with the destination bit of each bit it consumes.
#[derive(PartialEq, Eq, Debug)]
pub enum Item<T: Num> {
    Bits { len: usize, val: T::IType },
    Ident { name: String, bitspec: Vec<u32> },
}

/// The layout of one instruction: its segments, most significant first.
#[derive(PartialEq, Eq, Debug)]
pub struct BinaryInstruction<T: Num> {
    pub list: Vec<Item<T>>,
}

/// A segment as a mathematical value.
pub enum ItemView {
    Bits { len: nat, val: u32 },
    Ident { name: Seq<char>, bitspec: Seq<u32> },
}

impl<T: Num> View for Item<T> {
    type V = ItemView;

    open spec fn view(&self) -> ItemView {
        match self {
            Item::Bits { len, val } => ItemView::Bits { len: *len as nat, val: T::word(*val) },
            Item::Ident { name, bitspec } => ItemView::Ident { name: name@, bitspec: bitspec@ },
        }
    }
}

/// The segments of a list as mathematical values.
pub open spec fn layout_view<T: Num>(list: Seq<Item<T>>) -> Seq<ItemView> {
    Seq::new(list.len(), |i: int| list[i]@)
}

impl<T: Num> View for BinaryInstruction<T> {
    type V = Seq<ItemView>;

    open spec fn view(&self) -> Seq<ItemView> {
        layout_view(self.list@)
    }
}

/// Why a layout cannot describe an instruction word.
#[derive(PartialEq, Eq, Structural, Debug, Clone, Copy)]
pub enum LayoutError {
    /// A field consumes no bit.
    EmptyBitspec,
    /// A field sends a bit to a position that the decoded value does not have.
    BitOutOfRange,
    /// A literal's value has more bits than its length.
    LiteralOverflow,
    /// The segments do not cover the word exactly.
    WidthMismatch,
}

/// Number of word bits that a segment consumes.
pub open spec fn item_width(it: ItemView) -> nat {
    match it {
        ItemView::Bits { len, .. } => len,
        ItemView::Ident { bitspec, .. } => bitspec.len(),
    }
}

/// Number of word bits that the segments consume together.
pub open spec fn bits_len_spec(s: Seq<ItemView>) -> nat
    decreases s.len(),
{
    if s.len() == 0 {
        0
    } else {
        bits_len_spec(s.drop_last()) + item_width(s.last())
    }
}

/// True when `val` has no bit set at or above position `len`.
pub open spec fn fits(val: u32, len: nat) -> bool {
    len >= 32 || (val >> (len as u32)) == 0
}

/// What is wrong with a segment taken alone, if anything.
pub open spec fn item_defect(it: ItemView) -> Option<LayoutError> {
    match it {
        ItemView::Bits { len, val } => if fits(val, len) {
            None
        } else {
            Some(LayoutError::LiteralOverflow)
        },
        ItemView::Ident { bitspec, .. } => if bitspec.len() == 0 {
            Some(LayoutError::EmptyBitspec)
        } else if exists|j: int| 0 <= j < bitspec.len() && bitspec[j] >= 32 {
            Some(LayoutError::BitOutOfRange)
        } else {
            None
        },
    }
}

/// A layout is valid for a word of `width` bits when no segment has a defect
/// and the segments consume exactly `width` bits.
pub open spec fn valid_layout(s: Seq<ItemView>, width: nat) -> bool {
    &&& forall|i: int| 0 <= i < s.len() ==> (#[trigger] item_defect(s[i])) is None
    &&& bits_len_spec(s) == width
}

/// The first thing wrong among the first `k` segments, scanning in order: a
/// segment's own defect, or the segments so far consuming more than `width`.
pub open spec fn defect_upto(s: Seq<ItemView>, width: nat, k: nat) -> Option<LayoutError>
    decreases k,
{
    if k == 0 {
        None
    } else {
        match defect_upto(s, width, (k - 1) as nat) {
            Some(e) => Some(e),
            None => match item_defect(s[k - 1]) {
                Some(e) => Some(e),
                None => if bits_len_spec(s.take(k as int)) > width {
                    Some(LayoutError::WidthMismatch)
                } else {
                    None
                },
            },
        }
    }
}

/// The first thing wrong with a layout for a word of `width` bits, if anything.
pub open spec fn layout_defect(s: Seq<ItemView>, width: nat) -> Option<LayoutError> {
    match defect_upto(s, width, s.len()) {
        Some(e) => Some(e),
        None => if bits_len_spec(s) != width {
            Some(LayoutError::WidthMismatch)
        } else {
            None
        },
    }
}

/// Width, in bits, of the words of policy `T`.
pub open spec fn word_bits<T: Num>() -> nat {
    (T::top_bit() + 1) as nat
}

/// The bits consumed by a prefix never exceed those consumed by the whole.
pub proof fn lemma_bits_len_prefix(s: Seq<ItemView>, k: int)
    requires
        0 <= k <= s.len(),
    ensures
        bits_len_spec(s.take(k)) <= bits_len_spec(s),
    decreases s.len() - k,
{
    if k == s.len() {
        assert(s.take(k) =~= s);
    } else {
        lemma_bits_len_prefix(s, k + 1);
        assert(s.take(k + 1).drop_last() =~= s.take(k));
    }
}

/// One more segment adds its width to the bits consumed.
pub proof fn lemma_bits_len_step(s: Seq<ItemView>, k: int)
    requires
        0 <= k < s.len(),
    ensures
        bits_len_spec(s.take(k + 1)) == bits_len_spec(s.take(k)) + item_width(s[k]),
{
    assert(s.take(k + 1).drop_last() =~= s.take(k));
}

/// A layout is valid exactly when the scan finds no defect.
pub proof fn lemma_valid_iff_no_defect(s: Seq<ItemView>, width: nat)
    ensures
        valid_layout(s, width) <==> layout_defect(s, width) is None,
{
    lemma_defect_upto(s, width, s.len());
    assert(s.take(s.len() as int) =~= s);
    if valid_layout(s, width) {
        assert forall|i: int| 0 <= i <= s.len() implies bits_len_spec(s.take(i)) <= width by {
            lemma_bits_len_prefix(s, i);
        }
    }
}

/// The scan of the first `k` segments finds nothing exactly when none of them
/// has a defect and no prefix of them consumes more than `width` bits.
proof fn lemma_defect_upto(s: Seq<ItemView>, width: nat, k: nat)
    requires
        k <= s.len(),
    ensures
        defect_upto(s, width, k) is None <==> {
            &&& forall|i: int| 0 <= i < k ==> (#[trigger] item_defect(s[i])) is None
            &&& forall|i: int| 0 <= i <= k ==> #[trigger] bits_len_spec(s.take(i)) <= width
        },
    decreases k,
{
    if k == 0 {
        assert(s.take(0) =~= Seq::<ItemView>::empty());
    } else {
        lemma_defect_upto(s, width, (k - 1) as nat);
    }
}

/// Once the scan has met a defect, scanning further reports the same one.
proof fn lemma_defect_stays(s: Seq<ItemView>, width: nat, k: nat, n: nat)
    requires
        k <= n,
        defect_upto(s, width, k) is Some,
    ensures
        defect_upto(s, width, n) == defect_upto(s, width, k),
    decreases n - k,
{
    if k < n {
        lemma_defect_stays(s, width, k, (n - 1) as nat);
    }
}

/// A defect met at segment `k`, after a clean scan of those before it, is the
/// layout's defect.
proof fn lemma_defect_found(s: Seq<ItemView>, width: nat, k: nat)
    requires
        k < s.len(),
        defect_upto(s, width, k) is None,
        defect_upto(s, width, k + 1) is Some,
    ensures
        layout_defect(s, width) == defect_upto(s, width, k + 1),
        !valid_layout(s, width),
{
    lemma_defect_stays(s, width, k + 1, s.len());
    lemma_valid_iff_no_defect(s, width);
}

/// A layout with a field that consumes no bit is not valid: building a table
/// entry from it fails.
pub proof fn lemma_empty_field_rejected(s: Seq<ItemView>, width: nat, k: int)
    requires
        0 <= k < s.len(),
        s[k] matches ItemView::Ident { bitspec, .. } && bitspec.len() == 0,
    ensures
        !valid_layout(s, width),
        layout_defect(s, width) is Some,
{
    assert(item_defect(s[k]) == Some(LayoutError::EmptyBitspec));
    lemma_valid_iff_no_defect(s, width);
}

/// Total number of bits that the segments consume.
pub fn bits_len<T: Num>(v: &Vec<Item<T>>) -> (r: usize)
    requires
        bits_len_spec(layout_view(v@)) <= usize::MAX,
    ensures
        r == bits_len_spec(layout_view(v@)),
{
    let ghost s = layout_view(v@);
    let mut r: usize = 0;
    let mut i: usize = 0;
    while i < v.len()
        invariant
            i <= v.len(),
            s == layout_view(v@),
            r == bits_len_spec(s.take(i as int)),
            bits_len_spec(s) <= usize::MAX,
        decreases v.len() - i,
    {
        proof {
            lemma_bits_len_step(s, i as int);
            lemma_bits_len_prefix(s, i + 1);
        }
        match &v[i] {
            Item::Bits { len, .. } => {
                r = r + *len;
            },
            Item::Ident { bitspec, .. } => {
                r = r + bitspec.len();
            },
        }
        i = i + 1;
    }
    proof {
        assert(s.take(v.len() as int) =~= s);
    }
    r
}

/// Finds the first destination bit of a field that the decoded value cannot hold.
fn has_bit_out_of_range(bitspec: &Vec<u32>) -> (r: bool)
    ensures
        r == exists|j: int| 0 <= j < bitspec@.len() && bitspec@[j] >= 32,
{
    let mut j: usize = 0;
    while j < bitspec.len()
        invariant
            j <= bitspec.len(),
            forall|k: int| 0 <= k < j ==> bitspec@[k] < 32,
        decreases bitspec.len() - j,
    {
        if bitspec[j] >= 32 {
            return true;
        }
        j = j + 1;
    }
    false
}

/// Checks that a layout describes a word of policy `T`: `Ok` exactly when it
/// is valid, otherwise the first defect that a scan in order meets.
pub fn check_layout<T: Num>(instr: &BinaryInstruction<T>) -> (r: Result<(), LayoutError>)
    ensures
        r is Ok <==> valid_layout(instr@, word_bits::<T>()),
        r matches Err(e) ==> layout_defect(instr@, word_bits::<T>()) == Some(e),
{
    let ghost s = instr@;
    let ghost width = word_bits::<T>();
    let max_bit = T::i_max_bit();
    proof {
        lemma_valid_iff_no_defect(s, width);
        assert(s.take(0) =~= Seq::<ItemView>::empty());
        T::lemma_top_bit();
    }
    if max_bit >= 32 {
        proof {
            T::lemma_top_bit();
        }
        return Err(LayoutError::WidthMismatch);
    }
    let width_x: usize = (max_bit + 1) as usize;
    let mut total: usize = 0;
    let mut i: usize = 0;
    while i < instr.list.len()
        invariant
            i <= instr.list.len(),
            s == instr@,
            width == word_bits::<T>(),
            width_x == width,
            width <= 32,
            total == bits_len_spec(s.take(i as int)),
            total <= width,
            defect_upto(s, width, i as nat) is None,
        decreases instr.list.len() - i,
    {
        proof {
            lemma_bits_len_step(s, i as int);
            assert(s[i as int] == instr.list@[i as int]@);
            if defect_upto(s, width, (i + 1) as nat) is Some {
                lemma_defect_found(s, width, i as nat);
            }
        }
        match &instr.list[i] {
            Item::Bits { len, val } => {
                let w = T::to_word(*val);
                if *len < 32 && (w >> (*len as u32)) != 0 {
                    return Err(LayoutError::LiteralOverflow);
                }
                if *len > width_x - total {
                    return Err(LayoutError::WidthMismatch);
                }
                total = total + *len;
            },
            Item::Ident { bitspec, .. } => {
                if bitspec.len() == 0 {
                    return Err(LayoutError::EmptyBitspec);
                }
                if has_bit_out_of_range(bitspec) {
                    return Err(LayoutError::BitOutOfRange);
                }
                if bitspec.len() > width_x - total {
                    return Err(LayoutError::WidthMismatch);
                }
                total = total + bitspec.len();
            },
        }
        i = i + 1;
    }
    proof {
        assert(s.take(s.len() as int) =~= s);
        lemma_valid_iff_no_defect(s, width);
    }
    if total != width_x {
        return Err(LayoutError::WidthMismatch);
    }
    Ok(())
}

/// The numbers of a list in decimal, separated by a comma and a blank.
pub open spec fn list_text(list: Seq<u32>) -> Seq<char>
    decreases list.len(),
{
    if list.len() == 0 {
        Seq::empty()
    } else if list.len() == 1 {
        decimal_digits(list[0] as nat)
    } else {
        list_text(list.drop_last()) + seq![',', ' '] + decimal_digits(list.last() as nat)
    }
}

/// A segment as it is written: a literal as its value in binary, with zeros
/// in front up to its length; a field as its name and the list of its
/// destination bits in square brackets.
pub open spec fn item_text(it: ItemView) -> Seq<char> {
    match it {
        ItemView::Bits { len, val } => {
            let digits = binary_digits(val as nat);
            if digits.len() < len {
                zeros((len - digits.len()) as nat) + digits
            } else {
                digits
            }
        },
        ItemView::Ident { name, bitspec } => name + seq!['['] + list_text(bitspec) + seq![']'],
    }
}

impl<T: Num> Item<T> {
    /// The segment as it is written.
    pub fn to_string(&self) -> (r: String)
        ensures
            r@ == item_text(self@),
    {
        match self {
            Item::Bits { len, val } => {
                let w = T::to_word(*val);
                let n = count_binary_digits(w);
                let mut out = String::new();
                let mut k: usize = n;
                proof {
                    assert(out@ =~= zeros(0));
                }
                while k < *len
                    invariant
                        n <= k,
                        k <= *len || k == n,
                        out@ == zeros((k - n) as nat),
                    decreases *len - k,
                {
                    out.push('0');
                    k = k + 1;
                    proof {
                        assert(zeros((k - n - 1) as nat).push('0') =~= zeros((k - n) as nat));
                    }
                }
                push_binary_digits(&mut out, w);
                proof {
                    if n >= *len {
                        assert(zeros(0) + binary_digits(w as nat) =~= binary_digits(w as nat));
                    }
                }
                out
            },
            Item::Ident { name, bitspec } => {
                let mut out = name.clone();
                out.push('[');
                let ghost start = out@;
                let mut k: usize = 0;
                proof {
                    assert(bitspec@.take(0) =~= Seq::<u32>::empty());
                    assert(out@ =~= start + list_text(bitspec@.take(0)));
                }
                while k < bitspec.len()
                    invariant
                        k <= bitspec.len(),
                        out@ == start + list_text(bitspec@.take(k as int)),
                    decreases bitspec.len() - k,
                {
                    let ghost before = out@;
                    if k > 0 {
                        out.push(',');
                        out.push(' ');
                    }
                    push_decimal_digits(&mut out, bitspec[k]);
                    proof {
                        let now = bitspec@.take(k + 1);
                        assert(now.drop_last() =~= bitspec@.take(k as int));
                        assert(now.last() == bitspec@[k as int]);
                        if k == 0 {
                            assert(now[0] == bitspec@[0]);
                            assert(out@ =~= start + list_text(now));
                        } else {
                            assert(out@ =~= start + (list_text(bitspec@.take(k as int)) + seq![
                                ',',
                                ' ',
                            ] + decimal_digits(bitspec@[k as int] as nat)));
                        }
                    }
                    k = k + 1;
                }
                out.push(']');
                proof {
                    assert(bitspec@.take(bitspec@.len() as int) =~= bitspec@);
                    assert(out@ =~= item_text(self@));
                }
                out
            },
        }
    }
}

} // verus!
