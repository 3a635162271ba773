//! Gathering the named fields of a word: each field's bits are read at the
//! places the layout gives and put at their destinations, and the segments
//! that share a name are merged into one value.
use vstd::prelude::*;
use crate::layout::{
    bits_len_spec, item_defect, item_width, lemma_bits_len_prefix, lemma_bits_len_step,
    valid_layout, word_bits, BinaryInstruction, Item, ItemView,
};
use crate::width::Num;

verus! {

/// Bit `p` of `w`, as 0 or 1.
pub open spec fn word_bit(w: u32, p: int) -> u32 {
    (w >> (p as u32)) & 1
}

/// The value that one field segment gathers from `w`: the segment's first bit
/// is word bit `top`, the next one `top - 1` and so on, and each lands on the
/// destination listed at its place.
pub open spec fn segment_value(w: u32, bitspec: Seq<u32>, top: int) -> u32
    decreases bitspec.len(),
{
    if bitspec.len() == 0 {
        0
    } else {
        segment_value(w, bitspec.drop_last(), top) | (word_bit(w, top - (bitspec.len() - 1))
            << bitspec.last())
    }
}

/// Index of the highest word bit that segment `k` covers.
pub open spec fn segment_top(s: Seq<ItemView>, width: nat, k: int) -> int {
    width - 1 - bits_len_spec(s.take(k))
}

/// True when segment `k` is a field called `name`.
pub open spec fn is_field(s: Seq<ItemView>, k: int, name: Seq<char>) -> bool {
    s[k] matches ItemView::Ident { name: n, .. } && n == name
}

/// The value of field `name` merged over the first `n` segments: the bitwise
/// OR of what each segment of that name gathers.
pub open spec fn field_value_upto(s: Seq<ItemView>, width: nat, w: u32, name: Seq<char>, n: int) -> u32
    decreases n,
{
    if n <= 0 {
        0
    } else {
        let before = field_value_upto(s, width, w, name, n - 1);
        match s[n - 1] {
            ItemView::Ident { name: m, bitspec } => if m == name {
                before | segment_value(w, bitspec, segment_top(s, width, n - 1))
            } else {
                before
            },
            ItemView::Bits { .. } => before,
        }
    }
}

/// The merged value of field `name` in word `w`.
pub open spec fn field_value(s: Seq<ItemView>, width: nat, w: u32, name: Seq<char>) -> u32 {
    field_value_upto(s, width, w, name, s.len() as int)
}

/// The smaller of two numbers.
pub open spec fn min_u32(a: u32, b: u32) -> u32 {
    if a <= b {
        a
    } else {
        b
    }
}

/// The lowest destination bit of a field segment; `u32::MAX` for none.
pub open spec fn lowest_bit(bitspec: Seq<u32>) -> u32
    decreases bitspec.len(),
{
    if bitspec.len() == 0 {
        u32::MAX
    } else {
        min_u32(lowest_bit(bitspec.drop_last()), bitspec.last())
    }
}

/// The lowest destination bit of field `name` over the first `n` segments.
pub open spec fn field_start_upto(s: Seq<ItemView>, name: Seq<char>, n: int) -> u32
    decreases n,
{
    if n <= 0 {
        u32::MAX
    } else {
        let before = field_start_upto(s, name, n - 1);
        match s[n - 1] {
            ItemView::Ident { name: m, bitspec } => if m == name {
                min_u32(before, lowest_bit(bitspec))
            } else {
                before
            },
            ItemView::Bits { .. } => before,
        }
    }
}

/// The lowest destination bit of field `name`.
pub open spec fn field_start(s: Seq<ItemView>, name: Seq<char>) -> u32 {
    field_start_upto(s, name, s.len() as int)
}

/// The names of the fields among the first `n` segments, each once, in the
/// order in which they first occur.
pub open spec fn field_names_upto(s: Seq<ItemView>, n: int) -> Seq<Seq<char>>
    decreases n,
{
    if n <= 0 {
        Seq::empty()
    } else {
        let before = field_names_upto(s, n - 1);
        match s[n - 1] {
            ItemView::Ident { name, .. } => if before.contains(name) {
                before
            } else {
                before.push(name)
            },
            ItemView::Bits { .. } => before,
        }
    }
}

/// The names of the layout's fields, each once, in order of first occurrence.
pub open spec fn field_names(s: Seq<ItemView>) -> Seq<Seq<char>> {
    field_names_upto(s, s.len() as int)
}

/// The names listed for the first `n` segments are those of the fields among
/// them, and none is listed twice.
pub proof fn lemma_field_names(s: Seq<ItemView>, n: int)
    requires
        0 <= n <= s.len(),
    ensures
        forall|name: Seq<char>|
            field_names_upto(s, n).contains(name) <==> exists|k: int|
                0 <= k < n && #[trigger] is_field(s, k, name),
        forall|a: int, b: int|
            0 <= a < b < field_names_upto(s, n).len() ==> field_names_upto(s, n)[a]
                != field_names_upto(s, n)[b],
    decreases n,
{
    if n > 0 {
        lemma_field_names(s, n - 1);
        let before = field_names_upto(s, n - 1);
        let now = field_names_upto(s, n);
        assert forall|name: Seq<char>| now.contains(name) <==> exists|k: int|
            0 <= k < n && #[trigger] is_field(s, k, name) by {
            if now.contains(name) {
                let j = choose|j: int| 0 <= j < now.len() && now[j] == name;
                if j < before.len() {
                    assert(before[j] == name);
                    assert(before.contains(name));
                    let k = choose|k: int| 0 <= k < n - 1 && is_field(s, k, name);
                    assert(is_field(s, k, name));
                } else {
                    assert(is_field(s, n - 1, name));
                }
            }
            if exists|k: int| 0 <= k < n && is_field(s, k, name) {
                let k = choose|k: int| 0 <= k < n && is_field(s, k, name);
                if k < n - 1 {
                    assert(before.contains(name));
                    let j = choose|j: int| 0 <= j < before.len() && before[j] == name;
                    assert(now[j] == name);
                } else {
                    if before.contains(name) {
                    } else {
                        assert(now[before.len() as int] == name);
                    }
                }
            }
        }
    }
}

/// A field that no segment among the first `n` carries has gathered nothing.
pub proof fn lemma_absent_field(s: Seq<ItemView>, width: nat, w: u32, name: Seq<char>, n: int)
    requires
        0 <= n <= s.len(),
        !field_names_upto(s, n).contains(name),
    ensures
        field_value_upto(s, width, w, name, n) == 0,
        field_start_upto(s, name, n) == u32::MAX,
    decreases n,
{
    if n > 0 {
        lemma_field_names(s, n);
        lemma_field_names(s, n - 1);
        assert(!is_field(s, n - 1, name));
        assert forall|k: int| 0 <= k < n - 1 implies !#[trigger] is_field(s, k, name) by {}
        lemma_absent_field(s, width, w, name, n - 1);
    }
}

/// The extracted fields as mathematical values: name, merged value, lowest
/// destination bit.
pub open spec fn fields_view(fields: Seq<(String, u32, u32)>) -> Seq<(Seq<char>, u32, u32)> {
    Seq::new(fields.len(), |j: int| (fields[j].0@, fields[j].1, fields[j].2))
}

/// The fields that the first `n` segments give for word `w`: one entry for
/// each name, in order of first occurrence.
pub open spec fn extracted_upto(s: Seq<ItemView>, width: nat, w: u32, n: int) -> Seq<
    (Seq<char>, u32, u32),
> {
    let names = field_names_upto(s, n);
    Seq::new(
        names.len(),
        |j: int|
            (names[j], field_value_upto(s, width, w, names[j], n), field_start_upto(s, names[j], n)),
    )
}

/// The fields of word `w` under a layout: one entry for each field name, in
/// order of first occurrence, with the merged value and the lowest
/// destination bit of that name.
pub open spec fn extracted(s: Seq<ItemView>, width: nat, w: u32) -> Seq<(Seq<char>, u32, u32)> {
    extracted_upto(s, width, w, s.len() as int)
}

/// OR with zero changes nothing.
proof fn lemma_or_zero(v: u32)
    by (bit_vector)
    ensures
        0u32 | v == v,
{
}

/// True when entry `j` is the first one under `name`.
pub open spec fn first_field(fields: Seq<(Seq<char>, u32, u32)>, name: Seq<char>, j: int) -> bool {
    &&& 0 <= j < fields.len()
    &&& fields[j].0 == name
    &&& forall|k: int| 0 <= k < j ==> fields[k].0 != name
}

/// The value found under `name` among extracted fields, if any.
pub open spec fn lookup_field(fields: Seq<(Seq<char>, u32, u32)>, name: Seq<char>) -> Option<u32> {
    if exists|j: int| first_field(fields, name, j) {
        Some(fields[choose|j: int| first_field(fields, name, j)].1)
    } else {
        None
    }
}

/// The first entry under a name is the one that a lookup finds.
pub proof fn lemma_first_field(fields: Seq<(Seq<char>, u32, u32)>, name: Seq<char>, j: int)
    requires
        first_field(fields, name, j),
    ensures
        lookup_field(fields, name) == Some(fields[j].1),
{
    let c = choose|j: int| first_field(fields, name, j);
    assert(first_field(fields, name, c));
    if c < j {
        assert(fields[c].0 != name);
    } else if j < c {
        assert(fields[j].0 != name);
    }
}

/// True when some segment of the layout is a field called `name`.
pub open spec fn has_field(s: Seq<ItemView>, name: Seq<char>) -> bool {
    exists|k: int| 0 <= k < s.len() && #[trigger] is_field(s, k, name)
}

/// Looking a name up among the extracted fields gives the merged value of the
/// field of that name, and nothing where the layout has no such field.
pub proof fn lemma_lookup_extracted(s: Seq<ItemView>, width: nat, w: u32, name: Seq<char>)
    ensures
        lookup_field(extracted(s, width, w), name) == (if has_field(s, name) {
            Some(field_value(s, width, w, name))
        } else {
            None
        }),
{
    let fields = extracted(s, width, w);
    let names = field_names(s);
    lemma_field_names(s, s.len() as int);
    if has_field(s, name) {
        assert(names.contains(name));
        let j = choose|j: int| 0 <= j < names.len() && names[j] == name;
        assert(fields[j].0 == name);
        assert forall|k: int| 0 <= k < j implies fields[k].0 != name by {
            assert(names[k] != names[j]);
        }
        lemma_first_field(fields, name, j);
    } else {
        if exists|j: int| first_field(fields, name, j) {
            let j = choose|j: int| first_field(fields, name, j);
            assert(names[j] == name);
            assert(names.contains(name));
        }
    }
}

/// Looks a field up by name: the index of the first entry with that name.
pub fn find_field(fields: &Vec<(String, u32, u32)>, name: &String) -> (r: Option<usize>)
    ensures
        match r {
            Some(j) => first_field(fields_view(fields@), name@, j as int),
            None => forall|k: int| 0 <= k < fields.len() ==> fields[k].0@ != name@,
        },
        r matches Some(j) ==> lookup_field(fields_view(fields@), name@) == Some(fields[j as int].1),
        r is None ==> lookup_field(fields_view(fields@), name@) is None,
{
    let mut j: usize = 0;
    while j < fields.len()
        invariant
            j <= fields.len(),
            forall|k: int| 0 <= k < j ==> fields[k].0@ != name@,
        decreases fields.len() - j,
    {
        if fields[j].0 == *name {
            proof {
                assert forall|k: int| 0 <= k < j implies fields_view(fields@)[k].0 != name@ by {
                    assert(fields[k].0@ != name@);
                }
                lemma_first_field(fields_view(fields@), name@, j as int);
            }
            return Some(j);
        }
        j = j + 1;
    }
    proof {
        if exists|j: int| first_field(fields_view(fields@), name@, j) {
            let j = choose|j: int| first_field(fields_view(fields@), name@, j);
            assert(fields[j].0@ != name@);
        }
    }
    None
}

/// Gathers one field segment from a word: the segment's value and its lowest
/// destination bit.
fn gather<T: Num>(val: T::IType, bitspec: &Vec<u32>, top: u32) -> (r: (u32, u32))
    requires
        top <= T::top_bit(),
        bitspec@.len() <= top + 1,
        forall|j: int| 0 <= j < bitspec@.len() ==> bitspec@[j] < 32,
    ensures
        r.0 == segment_value(T::word(val), bitspec@, top as int),
        r.1 == lowest_bit(bitspec@),
{
    let mut v: u32 = T::d_zero();
    let mut low: u32 = u32::MAX;
    let mut k: usize = 0;
    proof {
        assert(bitspec@.take(0) =~= Seq::<u32>::empty());
    }
    while k < bitspec.len()
        invariant
            k <= bitspec.len(),
            top <= T::top_bit(),
            bitspec@.len() <= top + 1,
            forall|j: int| 0 <= j < bitspec@.len() ==> bitspec@[j] < 32,
            v == segment_value(T::word(val), bitspec@.take(k as int), top as int),
            low == lowest_bit(bitspec@.take(k as int)),
        decreases bitspec.len() - k,
    {
        proof {
            assert(bitspec@.take(k + 1).drop_last() =~= bitspec@.take(k as int));
        }
        let dest = bitspec[k];
        let bit = T::get_bit(val, top - k as u32);
        v = v | (bit << dest);
        if dest < low {
            low = dest;
        }
        k = k + 1;
    }
    proof {
        assert(bitspec@.take(bitspec@.len() as int) =~= bitspec@);
    }
    (v, low)
}

/// Extracts the fields of a word: one entry for each field name of the layout,
/// in order of first occurrence, holding the name, the value merged over every
/// segment of that name, and the lowest destination bit of the name.
pub fn extract_idents<T: Num>(val: T::IType, instr: &BinaryInstruction<T>) -> (r: Vec<
    (String, u32, u32),
>)
    requires
        valid_layout(instr@, word_bits::<T>()),
    ensures
        fields_view(r@) == extracted(instr@, word_bits::<T>(), T::word(val)),
{
    let ghost s = instr@;
    let ghost width = word_bits::<T>();
    let ghost w = T::word(val);
    let max_bit = T::i_max_bit();
    proof {
        T::lemma_top_bit();
        assert(s.take(0) =~= Seq::<ItemView>::empty());
    }
    let mut result: Vec<(String, u32, u32)> = Vec::new();
    let mut consumed: u32 = 0;
    let mut i: usize = 0;
    proof {
        assert(fields_view(result@) =~= extracted_upto(s, width, w, 0));
    }
    while i < instr.list.len()
        invariant
            i <= instr.list.len(),
            s == instr@,
            width == word_bits::<T>(),
            w == T::word(val),
            max_bit == T::top_bit(),
            width <= 32,
            valid_layout(s, width),
            consumed == bits_len_spec(s.take(i as int)),
            fields_view(result@) == extracted_upto(s, width, w, i as int),
        decreases instr.list.len() - i,
    {
        proof {
            lemma_bits_len_prefix(s, i + 1);
            lemma_bits_len_step(s, i as int);
            assert(s[i as int] == instr.list@[i as int]@);
            assert(item_defect(s[i as int]) is None);
            lemma_field_names(s, i as int);
        }
        let ghost before = extracted_upto(s, width, w, i as int);
        let ghost names = field_names_upto(s, i as int);
        match &instr.list[i] {
            Item::Bits { len, .. } => {
                proof {
                    assert(extracted_upto(s, width, w, i + 1) =~= before);
                }
                consumed = consumed + *len as u32;
            },
            Item::Ident { name, bitspec } => {
                let (v, low) = gather::<T>(val, bitspec, max_bit - consumed);
                match find_field(&result, name) {
                    Some(j) => {
                        let merged = result[j].1 | v;
                        let start = if low < result[j].2 {
                            low
                        } else {
                            result[j].2
                        };
                        proof {
                            assert(before.len() == result@.len());
                            assert(before.len() == names.len());
                            assert(before[j as int] == fields_view(result@)[j as int]);
                            assert(before[j as int].0 == name@);
                            assert(names[j as int] == name@);
                            assert(names.contains(name@));
                            assert(extracted_upto(s, width, w, i + 1) =~= before.update(
                                j as int,
                                (name@, merged, start),
                            ));
                        }
                        result.set(j, (name.clone(), merged, start));
                    },
                    None => {
                        proof {
                            assert(before.len() == result@.len());
                            assert(before.len() == names.len());
                            assert forall|k: int| 0 <= k < names.len() implies names[k]
                                != name@ by {
                                assert(before[k] == fields_view(result@)[k]);
                                assert(result@[k].0@ != name@);
                                assert(before[k].0 == names[k]);
                            }
                            lemma_absent_field(s, width, w, name@, i as int);
                            lemma_or_zero(v);
                            assert(extracted_upto(s, width, w, i + 1) =~= before.push(
                                (name@, v, low),
                            ));
                        }
                        result.push((name.clone(), v, low));
                    },
                }
                consumed = consumed + bitspec.len() as u32;
            },
        }
        i = i + 1;
    }
    proof {
        assert(s.take(s.len() as int) =~= s);
    }
    result
}

/// Two words with the same bits are the same word.
proof fn lemma_same_bits(a: u32, b: u32)
    by (bit_vector)
    requires
        (a >> 0u32) & 1 == (b >> 0u32) & 1,
        (a >> 1u32) & 1 == (b >> 1u32) & 1,
        (a >> 2u32) & 1 == (b >> 2u32) & 1,
        (a >> 3u32) & 1 == (b >> 3u32) & 1,
        (a >> 4u32) & 1 == (b >> 4u32) & 1,
        (a >> 5u32) & 1 == (b >> 5u32) & 1,
        (a >> 6u32) & 1 == (b >> 6u32) & 1,
        (a >> 7u32) & 1 == (b >> 7u32) & 1,
        (a >> 8u32) & 1 == (b >> 8u32) & 1,
        (a >> 9u32) & 1 == (b >> 9u32) & 1,
        (a >> 10u32) & 1 == (b >> 10u32) & 1,
        (a >> 11u32) & 1 == (b >> 11u32) & 1,
        (a >> 12u32) & 1 == (b >> 12u32) & 1,
        (a >> 13u32) & 1 == (b >> 13u32) & 1,
        (a >> 14u32) & 1 == (b >> 14u32) & 1,
        (a >> 15u32) & 1 == (b >> 15u32) & 1,
        (a >> 16u32) & 1 == (b >> 16u32) & 1,
        (a >> 17u32) & 1 == (b >> 17u32) & 1,
        (a >> 18u32) & 1 == (b >> 18u32) & 1,
        (a >> 19u32) & 1 == (b >> 19u32) & 1,
        (a >> 20u32) & 1 == (b >> 20u32) & 1,
        (a >> 21u32) & 1 == (b >> 21u32) & 1,
        (a >> 22u32) & 1 == (b >> 22u32) & 1,
        (a >> 23u32) & 1 == (b >> 23u32) & 1,
        (a >> 24u32) & 1 == (b >> 24u32) & 1,
        (a >> 25u32) & 1 == (b >> 25u32) & 1,
        (a >> 26u32) & 1 == (b >> 26u32) & 1,
        (a >> 27u32) & 1 == (b >> 27u32) & 1,
        (a >> 28u32) & 1 == (b >> 28u32) & 1,
        (a >> 29u32) & 1 == (b >> 29u32) & 1,
        (a >> 30u32) & 1 == (b >> 30u32) & 1,
        (a >> 31u32) & 1 == (b >> 31u32) & 1,
    ensures
        a == b,
{
}

/// Bit `i` of an OR is set where it is set in either side.
proof fn lemma_bit_of_or(x: u32, y: u32, i: u32)
    by (bit_vector)
    requires
        i < 32,
    ensures
        (((x | y) >> i) & 1) == (((x >> i) & 1) | ((y >> i) & 1)),
        ((x >> i) & 1) == 0 || ((x >> i) & 1) == 1,
        (0u32 | 0u32) == 0,
        (0u32 | 1u32) == 1,
        (1u32 | 0u32) == 1,
        (1u32 | 1u32) == 1,
        ((0u32 >> i) & 1) == 0,
{
}

/// A single bit put at place `d` is bit `d` of the result, and the only one.
proof fn lemma_bit_of_shifted(bit: u32, d: u32, i: u32)
    by (bit_vector)
    requires
        i < 32,
        d < 32,
        bit == 0 || bit == 1,
    ensures
        (((bit << d) >> i) & 1) == (if i == d {
            bit
        } else {
            0
        }),
{
}

/// True when the field segment `k` sends its bit number `j` to destination `i`.
pub open spec fn sends(s: Seq<ItemView>, name: Seq<char>, k: int, j: int, i: int) -> bool {
    &&& 0 <= k < s.len()
    &&& is_field(s, k, name)
    &&& 0 <= j < s[k]->bitspec.len()
    &&& s[k]->bitspec[j] == i
}

/// True when some segment of the field sends a bit to destination `i`.
pub open spec fn is_destination(s: Seq<ItemView>, name: Seq<char>, i: int) -> bool {
    exists|k: int, j: int| #[trigger] sends(s, name, k, j, i)
}

/// Bit `i` of what a field segment gathers is set exactly when some bit of
/// the segment that is destined for `i` is set in the word.
proof fn lemma_segment_bit(w: u32, bitspec: Seq<u32>, top: int, i: int)
    requires
        0 <= i < 32,
        0 <= top < 32,
        bitspec.len() <= top + 1,
        forall|j: int| 0 <= j < bitspec.len() ==> bitspec[j] < 32,
    ensures
        word_bit(segment_value(w, bitspec, top), i) == 0 || word_bit(
            segment_value(w, bitspec, top),
            i,
        ) == 1,
        word_bit(segment_value(w, bitspec, top), i) == 1 <==> exists|j: int|
            0 <= j < bitspec.len() && #[trigger] bitspec[j] == i && word_bit(w, top - j) == 1,
    decreases bitspec.len(),
{
    if bitspec.len() == 0 {
        lemma_bit_of_or(0, 0, i as u32);
    } else {
        let rest = bitspec.drop_last();
        let last = bitspec.len() - 1;
        let bit = word_bit(w, top - last);
        let d = bitspec.last();
        lemma_segment_bit(w, rest, top, i);
        lemma_bit_of_or(w, w, (top - last) as u32);
        lemma_bit_of_or(segment_value(w, rest, top), bit << d, i as u32);
        lemma_bit_of_shifted(bit, d, i as u32);
        if word_bit(segment_value(w, bitspec, top), i) == 1 {
            if word_bit(segment_value(w, rest, top), i) == 1 {
                let j = choose|j: int|
                    0 <= j < rest.len() && #[trigger] rest[j] == i && word_bit(w, top - j) == 1;
                assert(bitspec[j] == i);
            } else {
                assert(bitspec[last] == i && word_bit(w, top - last) == 1);
            }
        }
        if exists|j: int|
            0 <= j < bitspec.len() && #[trigger] bitspec[j] == i && word_bit(w, top - j) == 1 {
            let j = choose|j: int|
                0 <= j < bitspec.len() && #[trigger] bitspec[j] == i && word_bit(w, top - j) == 1;
            if j < last {
                assert(rest[j] == i);
            }
        }
    }
}

/// Bit `i` of a merged field is set exactly when some bit that the field
/// sends to `i`, in any of its segments among the first `n`, is set in the word.
proof fn lemma_field_bit(s: Seq<ItemView>, width: nat, w: u32, name: Seq<char>, n: int, i: int)
    requires
        valid_layout(s, width),
        width <= 32,
        0 <= n <= s.len(),
        0 <= i < 32,
    ensures
        word_bit(field_value_upto(s, width, w, name, n), i) == 0 || word_bit(
            field_value_upto(s, width, w, name, n),
            i,
        ) == 1,
        word_bit(field_value_upto(s, width, w, name, n), i) == 1 <==> exists|k: int, j: int|
            k < n && #[trigger] sends(s, name, k, j, i) && word_bit(
                w,
                segment_top(s, width, k) - j,
            ) == 1,
    decreases n,
{
    if n == 0 {
        lemma_bit_of_or(0, 0, i as u32);
    } else {
        lemma_field_bit(s, width, w, name, n - 1, i);
        let before = field_value_upto(s, width, w, name, n - 1);
        let now = field_value_upto(s, width, w, name, n);
        if is_field(s, n - 1, name) {
            let bitspec = s[n - 1]->bitspec;
            let top = segment_top(s, width, n - 1);
            lemma_bits_len_prefix(s, n);
            lemma_bits_len_step(s, n - 1);
            assert(item_defect(s[n - 1]) is None);
            lemma_segment_bit(w, bitspec, top, i);
            lemma_bit_of_or(before, segment_value(w, bitspec, top), i as u32);
            if word_bit(now, i) == 1 {
                if word_bit(before, i) == 1 {
                    let (k, j) = choose|k: int, j: int|
                        k < n - 1 && #[trigger] sends(s, name, k, j, i) && word_bit(
                            w,
                            segment_top(s, width, k) - j,
                        ) == 1;
                    assert(k < n && sends(s, name, k, j, i));
                } else {
                    let j = choose|j: int|
                        0 <= j < bitspec.len() && #[trigger] bitspec[j] == i && word_bit(
                            w,
                            top - j,
                        ) == 1;
                    assert(sends(s, name, n - 1, j, i));
                }
            }
            if exists|k: int, j: int|
                k < n && #[trigger] sends(s, name, k, j, i) && word_bit(
                    w,
                    segment_top(s, width, k) - j,
                ) == 1 {
                let (k, j) = choose|k: int, j: int|
                    k < n && #[trigger] sends(s, name, k, j, i) && word_bit(
                        w,
                        segment_top(s, width, k) - j,
                    ) == 1;
                if k < n - 1 {
                    assert(sends(s, name, k, j, i));
                } else {
                    assert(bitspec[j] == i);
                }
            }
        } else {
            assert(now == before);
            if exists|k: int, j: int|
                k < n && #[trigger] sends(s, name, k, j, i) && word_bit(
                    w,
                    segment_top(s, width, k) - j,
                ) == 1 {
                let (k, j) = choose|k: int, j: int|
                    k < n && #[trigger] sends(s, name, k, j, i) && word_bit(
                        w,
                        segment_top(s, width, k) - j,
                    ) == 1;
                assert(k < n - 1 && sends(s, name, k, j, i));
            }
        }
    }
}

/// Round trip. Take a word that carries an immediate scattered as the layout
/// says: at each place that a segment of the field consumes stands the bit
/// of the immediate that the place is destined for. If every set bit of the
/// immediate is the destination of some place, extracting the field gives
/// the immediate back.
pub proof fn lemma_round_trip(s: Seq<ItemView>, width: nat, w: u32, name: Seq<char>, imm: u32)
    requires
        valid_layout(s, width),
        width <= 32,
        forall|k: int, j: int, i: int| #[trigger]
            sends(s, name, k, j, i) ==> word_bit(w, segment_top(s, width, k) - j) == word_bit(
                imm,
                i,
            ),
        forall|i: int|
            0 <= i < 32 && #[trigger] word_bit(imm, i) == 1 ==> is_destination(s, name, i),
    ensures
        field_value(s, width, w, name) == imm,
{
    let v = field_value(s, width, w, name);
    assert forall|i: int| 0 <= i < 32 implies word_bit(v, i) == word_bit(imm, i) by {
        lemma_field_bit(s, width, w, name, s.len() as int, i);
        lemma_bit_of_or(imm, imm, i as u32);
        if word_bit(v, i) == 1 {
            let (k, j) = choose|k: int, j: int|
                k < s.len() && #[trigger] sends(s, name, k, j, i) && word_bit(
                    w,
                    segment_top(s, width, k) - j,
                ) == 1;
            assert(sends(s, name, k, j, i));
        }
        if word_bit(imm, i) == 1 {
            assert(is_destination(s, name, i));
            let (k, j) = choose|k: int, j: int| #[trigger] sends(s, name, k, j, i);
            assert(sends(s, name, k, j, i) && k < s.len());
        }
    }
    assert(word_bit(v, 0) == word_bit(imm, 0));
    assert(word_bit(v, 1) == word_bit(imm, 1));
    assert(word_bit(v, 2) == word_bit(imm, 2));
    assert(word_bit(v, 3) == word_bit(imm, 3));
    assert(word_bit(v, 4) == word_bit(imm, 4));
    assert(word_bit(v, 5) == word_bit(imm, 5));
    assert(word_bit(v, 6) == word_bit(imm, 6));
    assert(word_bit(v, 7) == word_bit(imm, 7));
    assert(word_bit(v, 8) == word_bit(imm, 8));
    assert(word_bit(v, 9) == word_bit(imm, 9));
    assert(word_bit(v, 10) == word_bit(imm, 10));
    assert(word_bit(v, 11) == word_bit(imm, 11));
    assert(word_bit(v, 12) == word_bit(imm, 12));
    assert(word_bit(v, 13) == word_bit(imm, 13));
    assert(word_bit(v, 14) == word_bit(imm, 14));
    assert(word_bit(v, 15) == word_bit(imm, 15));
    assert(word_bit(v, 16) == word_bit(imm, 16));
    assert(word_bit(v, 17) == word_bit(imm, 17));
    assert(word_bit(v, 18) == word_bit(imm, 18));
    assert(word_bit(v, 19) == word_bit(imm, 19));
    assert(word_bit(v, 20) == word_bit(imm, 20));
    assert(word_bit(v, 21) == word_bit(imm, 21));
    assert(word_bit(v, 22) == word_bit(imm, 22));
    assert(word_bit(v, 23) == word_bit(imm, 23));
    assert(word_bit(v, 24) == word_bit(imm, 24));
    assert(word_bit(v, 25) == word_bit(imm, 25));
    assert(word_bit(v, 26) == word_bit(imm, 26));
    assert(word_bit(v, 27) == word_bit(imm, 27));
    assert(word_bit(v, 28) == word_bit(imm, 28));
    assert(word_bit(v, 29) == word_bit(imm, 29));
    assert(word_bit(v, 30) == word_bit(imm, 30));
    assert(word_bit(v, 31) == word_bit(imm, 31));
    lemma_same_bits(v, imm);
}

/// A set bit of a number below `2^n` lies below place `n`.
proof fn lemma_set_bit_below(imm: u32, n: u32, i: u32)
    by (bit_vector)
    requires
        n <= 32,
        i < 32,
        (imm as u64) >> (n as u64) == 0,
        (imm >> i) & 1 == 1,
    ensures
        i < n,
{
}

/// Round trip of an immediate of `n` bits. Where the destinations of a field
/// cover the bits 0 to `n - 1`, and a word carries an immediate below `2^n`
/// scattered as the layout says, extracting the field gives the immediate
/// back, whatever the order and the number of the field's segments.
pub proof fn lemma_round_trip_covering(
    s: Seq<ItemView>,
    width: nat,
    w: u32,
    name: Seq<char>,
    imm: u32,
    n: nat,
)
    requires
        valid_layout(s, width),
        width <= 32,
        n <= 32,
        (imm as u64) >> (n as u64) == 0,
        forall|i: int| 0 <= i < n ==> #[trigger] is_destination(s, name, i),
        forall|k: int, j: int, i: int| #[trigger]
            sends(s, name, k, j, i) ==> word_bit(w, segment_top(s, width, k) - j) == word_bit(
                imm,
                i,
            ),
    ensures
        field_value(s, width, w, name) == imm,
{
    assert forall|i: int| 0 <= i < 32 && #[trigger] word_bit(imm, i) == 1 implies is_destination(
        s,
        name,
        i,
    ) by {
        lemma_set_bit_below(imm, n as u32, i as u32);
    }
    lemma_round_trip(s, width, w, name, imm);
}

/// The word bits that one field segment carries for an immediate: the bit
/// of the immediate that each place is destined for, put at that place.
pub open spec fn segment_scatter(imm: u32, bitspec: Seq<u32>, top: int) -> u32
    decreases bitspec.len(),
{
    if bitspec.len() == 0 {
        0
    } else {
        segment_scatter(imm, bitspec.drop_last(), top) | (word_bit(imm, bitspec.last() as int) << (
        (top - (bitspec.len() - 1)) as u32))
    }
}

/// The word bits that the segments of a field among the first `n` carry for
/// an immediate.
pub open spec fn scatter_upto(s: Seq<ItemView>, width: nat, name: Seq<char>, imm: u32, n: int) -> u32
    decreases n,
{
    if n <= 0 {
        0
    } else {
        let before = scatter_upto(s, width, name, imm, n - 1);
        if is_field(s, n - 1, name) {
            before | segment_scatter(imm, s[n - 1]->bitspec, segment_top(s, width, n - 1))
        } else {
            before
        }
    }
}

/// The word that carries an immediate scattered as the layout says for a
/// field, with zeros everywhere else.
pub open spec fn scatter(s: Seq<ItemView>, width: nat, name: Seq<char>, imm: u32) -> u32 {
    scatter_upto(s, width, name, imm, s.len() as int)
}

/// True when bit `j` of field segment `k` is read at word bit `p`.
pub open spec fn reads(s: Seq<ItemView>, width: nat, name: Seq<char>, k: int, j: int, p: int) -> bool {
    &&& 0 <= k < s.len()
    &&& is_field(s, k, name)
    &&& 0 <= j < s[k]->bitspec.len()
    &&& segment_top(s, width, k) - j == p
}

/// Word bit `p` of what a segment carries is set exactly when the segment
/// reads there a bit whose destination is set in the immediate.
proof fn lemma_segment_scatter_bit(imm: u32, bitspec: Seq<u32>, top: int, p: int)
    requires
        0 <= p < 32,
        0 <= top < 32,
        bitspec.len() <= top + 1,
        forall|j: int| 0 <= j < bitspec.len() ==> bitspec[j] < 32,
    ensures
        word_bit(segment_scatter(imm, bitspec, top), p) == 0 || word_bit(
            segment_scatter(imm, bitspec, top),
            p,
        ) == 1,
        word_bit(segment_scatter(imm, bitspec, top), p) == 1 <==> (0 <= top - p < bitspec.len()
            && word_bit(imm, bitspec[top - p] as int) == 1),
    decreases bitspec.len(),
{
    if bitspec.len() == 0 {
        lemma_bit_of_or(0, 0, p as u32);
    } else {
        let rest = bitspec.drop_last();
        let last = bitspec.len() - 1;
        let bit = word_bit(imm, bitspec.last() as int);
        lemma_segment_scatter_bit(imm, rest, top, p);
        lemma_bit_of_or(imm, imm, bitspec.last());
        lemma_bit_of_or(segment_scatter(imm, rest, top), bit << ((top - last) as u32), p as u32);
        lemma_bit_of_shifted(bit, (top - last) as u32, p as u32);
        if 0 <= top - p < last {
            assert(rest[top - p] == bitspec[top - p]);
        }
    }
}

/// The segments before segment `k` consume no more than those up to it.
proof fn lemma_segments_in_order(s: Seq<ItemView>, width: nat, a: int, b: int)
    requires
        0 <= a < b < s.len(),
    ensures
        segment_top(s, width, b) <= segment_top(s, width, a) - item_width(s[a]),
{
    lemma_bits_len_prefix(s.take(b), a + 1);
    assert(s.take(b).take(a + 1) =~= s.take(a + 1));
    lemma_bits_len_step(s, a);
}

/// Word bit `p` of what the first `n` segments carry is set exactly when a
/// segment of the field reads there a bit whose destination is set in the
/// immediate.
proof fn lemma_scatter_bit(
    s: Seq<ItemView>,
    width: nat,
    name: Seq<char>,
    imm: u32,
    n: int,
    p: int,
)
    requires
        valid_layout(s, width),
        width <= 32,
        0 <= n <= s.len(),
        0 <= p < 32,
    ensures
        word_bit(scatter_upto(s, width, name, imm, n), p) == 0 || word_bit(
            scatter_upto(s, width, name, imm, n),
            p,
        ) == 1,
        word_bit(scatter_upto(s, width, name, imm, n), p) == 1 <==> exists|k: int, j: int|
            k < n && #[trigger] reads(s, width, name, k, j, p) && word_bit(
                imm,
                s[k]->bitspec[j] as int,
            ) == 1,
    decreases n,
{
    if n == 0 {
        lemma_bit_of_or(0, 0, p as u32);
    } else {
        lemma_scatter_bit(s, width, name, imm, n - 1, p);
        let before = scatter_upto(s, width, name, imm, n - 1);
        let now = scatter_upto(s, width, name, imm, n);
        if is_field(s, n - 1, name) {
            let bitspec = s[n - 1]->bitspec;
            let top = segment_top(s, width, n - 1);
            lemma_bits_len_prefix(s, n);
            lemma_bits_len_step(s, n - 1);
            assert(item_defect(s[n - 1]) is None);
            lemma_segment_scatter_bit(imm, bitspec, top, p);
            lemma_bit_of_or(before, segment_scatter(imm, bitspec, top), p as u32);
            if word_bit(now, p) == 1 {
                if word_bit(before, p) == 1 {
                    let (k, j) = choose|k: int, j: int|
                        k < n - 1 && #[trigger] reads(s, width, name, k, j, p) && word_bit(
                            imm,
                            s[k]->bitspec[j] as int,
                        ) == 1;
                    assert(k < n && reads(s, width, name, k, j, p));
                } else {
                    assert(reads(s, width, name, n - 1, top - p, p));
                }
            }
            if exists|k: int, j: int|
                k < n && #[trigger] reads(s, width, name, k, j, p) && word_bit(
                    imm,
                    s[k]->bitspec[j] as int,
                ) == 1 {
                let (k, j) = choose|k: int, j: int|
                    k < n && #[trigger] reads(s, width, name, k, j, p) && word_bit(
                        imm,
                        s[k]->bitspec[j] as int,
                    ) == 1;
                if k < n - 1 {
                    assert(reads(s, width, name, k, j, p));
                }
            }
        } else {
            assert(now == before);
            if exists|k: int, j: int|
                k < n && #[trigger] reads(s, width, name, k, j, p) && word_bit(
                    imm,
                    s[k]->bitspec[j] as int,
                ) == 1 {
                let (k, j) = choose|k: int, j: int|
                    k < n && #[trigger] reads(s, width, name, k, j, p) && word_bit(
                        imm,
                        s[k]->bitspec[j] as int,
                    ) == 1;
                assert(k < n - 1 && reads(s, width, name, k, j, p));
            }
        }
    }
}

/// The word that carries an immediate holds, at each place that the field
/// reads, the bit of the immediate that the place is destined for.
pub proof fn lemma_scatter_places(
    s: Seq<ItemView>,
    width: nat,
    name: Seq<char>,
    imm: u32,
    k: int,
    j: int,
    i: int,
)
    requires
        valid_layout(s, width),
        width <= 32,
        sends(s, name, k, j, i),
    ensures
        word_bit(scatter(s, width, name, imm), segment_top(s, width, k) - j) == word_bit(imm, i),
{
    let p = segment_top(s, width, k) - j;
    lemma_bits_len_prefix(s, k + 1);
    lemma_bits_len_step(s, k);
    assert(item_defect(s[k]) is None);
    lemma_scatter_bit(s, width, name, imm, s.len() as int, p);
    lemma_bit_of_or(imm, imm, i as u32);
    assert(reads(s, width, name, k, j, p));
    if word_bit(scatter(s, width, name, imm), p) == 1 {
        let (k2, j2) = choose|k2: int, j2: int|
            k2 < s.len() && #[trigger] reads(s, width, name, k2, j2, p) && word_bit(
                imm,
                s[k2]->bitspec[j2] as int,
            ) == 1;
        if k2 < k {
            lemma_segments_in_order(s, width, k2, k);
        } else if k < k2 {
            lemma_segments_in_order(s, width, k, k2);
        }
        assert(k2 == k && j2 == j);
    }
}

/// Scatter and gather. Where the destinations of a field cover the bits 0 to
/// `n - 1`, scattering an immediate below `2^n` over a word as the layout
/// says and extracting the field from that word gives the immediate back,
/// whatever the order and the number of the field's segments.
pub proof fn lemma_scatter_gather(s: Seq<ItemView>, width: nat, name: Seq<char>, imm: u32, n: nat)
    requires
        valid_layout(s, width),
        width <= 32,
        n <= 32,
        (imm as u64) >> (n as u64) == 0,
        forall|i: int| 0 <= i < n ==> #[trigger] is_destination(s, name, i),
    ensures
        field_value(s, width, scatter(s, width, name, imm), name) == imm,
{
    let w = scatter(s, width, name, imm);
    assert forall|k: int, j: int, i: int| #[trigger] sends(s, name, k, j, i) implies word_bit(
        w,
        segment_top(s, width, k) - j,
    ) == word_bit(imm, i) by {
        lemma_scatter_places(s, width, name, imm, k, j, i);
    }
    lemma_round_trip_covering(s, width, w, name, imm, n);
}

/// A stretch of segments that holds no segment of a field leaves the field's
/// merged value as it was.
proof fn lemma_field_value_skip(s: Seq<ItemView>, width: nat, w: u32, name: Seq<char>, m: int, n: int)
    requires
        0 <= m <= n <= s.len(),
        forall|k: int| m <= k < n ==> !#[trigger] is_field(s, k, name),
    ensures
        field_value_upto(s, width, w, name, n) == field_value_upto(s, width, w, name, m),
    decreases n - m,
{
    if m < n {
        assert(!is_field(s, n - 1, name));
        lemma_field_value_skip(s, width, w, name, m, n - 1);
    }
}

/// Merge. Where exactly two segments of a layout carry a field, the field's
/// value is the bitwise OR of what each of the two gathers on its own.
pub proof fn lemma_merge_two(s: Seq<ItemView>, width: nat, w: u32, name: Seq<char>, a: int, b: int)
    requires
        0 <= a < b < s.len(),
        is_field(s, a, name),
        is_field(s, b, name),
        forall|k: int| 0 <= k < s.len() && k != a && k != b ==> !#[trigger] is_field(s, k, name),
    ensures
        field_value(s, width, w, name) == segment_value(
            w,
            s[a]->bitspec,
            segment_top(s, width, a),
        ) | segment_value(w, s[b]->bitspec, segment_top(s, width, b)),
{
    lemma_field_value_skip(s, width, w, name, 0, a);
    lemma_or_zero(segment_value(w, s[a]->bitspec, segment_top(s, width, a)));
    lemma_field_value_skip(s, width, w, name, a + 1, b);
    lemma_field_value_skip(s, width, w, name, b + 1, s.len() as int);
}

} // verus!
