//! How field values are shown: hexadecimal by default, or by a formatter
//! registered under the field's name.
use vstd::prelude::*;

verus! {

/// `String::push` appends the character to the end of the string.
pub assume_specification[ String::push ](s: &mut String, c: char)
    ensures
        final(s)@ == old(s)@.push(c),
;

/// The character for a digit below 16: `0-9`, then `A-F`.
pub open spec fn digit_char(d: nat) -> char {
    if d < 10 {
        ((48 + d) as u8) as char
    } else {
        ((55 + d) as u8) as char
    }
}

/// The hexadecimal digits of `n`, most significant first, without leading
/// zeros; one `0` for zero.
pub open spec fn hex_digits(n: nat) -> Seq<char>
    decreases n,
{
    if n < 16 {
        seq![digit_char(n)]
    } else {
        hex_digits(n / 16).push(digit_char(n % 16))
    }
}

/// The decimal digits of `n`, most significant first, without leading zeros;
/// one `0` for zero.
pub open spec fn decimal_digits(n: nat) -> Seq<char>
    decreases n,
{
    if n < 10 {
        seq![digit_char(n)]
    } else {
        decimal_digits(n / 10).push(digit_char(n % 10))
    }
}

/// The binary digits of `n`, most significant first, without leading zeros;
/// one `0` for zero.
pub open spec fn binary_digits(n: nat) -> Seq<char>
    decreases n,
{
    if n < 2 {
        seq![digit_char(n)]
    } else {
        binary_digits(n / 2).push(digit_char(n % 2))
    }
}

/// `n` zeros.
pub open spec fn zeros(n: nat) -> Seq<char> {
    Seq::new(n, |i: int| '0')
}

/// A value in upper-case hexadecimal after `0x`.
pub open spec fn hex_text(v: u32) -> Seq<char> {
    seq!['0', 'x'] + hex_digits(v as nat)
}

/// A value in upper-case hexadecimal after `0x`, with zeros between the two
/// so that the whole has at least `width` characters.
pub open spec fn hex_text_padded(v: u32, width: nat) -> Seq<char> {
    let d = hex_digits(v as nat);
    let pad = if d.len() + 2 < width {
        (width - d.len() - 2) as nat
    } else {
        0
    };
    seq!['0', 'x'] + zeros(pad) + d
}

/// A value in decimal.
pub open spec fn decimal_text(v: u32) -> Seq<char> {
    decimal_digits(v as nat)
}

/// A register as it is shown in a decoded line: `r` and the number.
pub open spec fn register_text(v: u32) -> Seq<char> {
    seq!['r'] + decimal_text(v)
}

/// The character for one digit.
fn digit_to_char(d: u32) -> (c: char)
    requires
        d < 16,
    ensures
        c == digit_char(d as nat),
{
    if d < 10 {
        (48u8 + d as u8) as char
    } else {
        (55u8 + d as u8) as char
    }
}

/// Appends the hexadecimal digits of `n` to `out`.
pub fn push_hex_digits(out: &mut String, n: u32)
    ensures
        final(out)@ == old(out)@ + hex_digits(n as nat),
    decreases n,
{
    if n >= 16 {
        push_hex_digits(out, n / 16);
    }
    out.push(digit_to_char(n % 16));
    proof {
        assert(final(out)@ =~= old(out)@ + hex_digits(n as nat));
    }
}

/// Appends the decimal digits of `n` to `out`.
pub fn push_decimal_digits(out: &mut String, n: u32)
    ensures
        final(out)@ == old(out)@ + decimal_digits(n as nat),
    decreases n,
{
    if n >= 10 {
        push_decimal_digits(out, n / 10);
    }
    out.push(digit_to_char(n % 10));
    proof {
        assert(final(out)@ =~= old(out)@ + decimal_digits(n as nat));
    }
}

/// Appends the binary digits of `n` to `out`.
pub fn push_binary_digits(out: &mut String, n: u32)
    ensures
        final(out)@ == old(out)@ + binary_digits(n as nat),
    decreases n,
{
    if n >= 2 {
        push_binary_digits(out, n / 2);
    }
    out.push(digit_to_char(n % 2));
    proof {
        assert(final(out)@ =~= old(out)@ + binary_digits(n as nat));
    }
}

/// Two to the power `k`.
pub open spec fn two_pow(k: nat) -> nat
    decreases k,
{
    if k == 0 {
        1
    } else {
        2 * two_pow((k - 1) as nat)
    }
}

/// A number below `2^k` has at most `k` binary digits, and at least one.
proof fn lemma_binary_digits_len(n: nat, k: nat)
    requires
        1 <= k,
    ensures
        binary_digits(n).len() >= 1,
        n < two_pow(k) ==> binary_digits(n).len() <= k,
    decreases n,
{
    if n >= 2 {
        if k >= 2 {
            lemma_binary_digits_len(n / 2, (k - 1) as nat);
        } else {
            lemma_binary_digits_len(n / 2, 1);
            assert(two_pow(1) == 2) by {
                reveal_with_fuel(two_pow, 2);
            }
        }
    }
}

/// Number of binary digits of `n`.
pub fn count_binary_digits(n: u32) -> (r: usize)
    ensures
        r == binary_digits(n as nat).len(),
        1 <= r <= 32,
{
    proof {
        assert(two_pow(32) == 0x1_0000_0000) by {
            reveal_with_fuel(two_pow, 33);
        }
        lemma_binary_digits_len(n as nat, 32);
    }
    let mut r: usize = 1;
    let mut m: u32 = n;
    while m >= 2
        invariant
            1 <= r,
            binary_digits(n as nat).len() <= 32,
            r + binary_digits(m as nat).len() == binary_digits(n as nat).len() + 1,
        decreases m,
    {
        proof {
            lemma_binary_digits_len((m / 2) as nat, 1);
        }
        m = m / 2;
        r = r + 1;
    }
    r
}

/// Sixteen to the power `k`.
pub open spec fn sixteen_pow(k: nat) -> nat
    decreases k,
{
    if k == 0 {
        1
    } else {
        16 * sixteen_pow((k - 1) as nat)
    }
}

/// A number below `16^k` has at most `k` hexadecimal digits, and at least one.
proof fn lemma_hex_digits_len(n: nat, k: nat)
    requires
        1 <= k,
    ensures
        hex_digits(n).len() >= 1,
        n < sixteen_pow(k) ==> hex_digits(n).len() <= k,
    decreases n,
{
    if n >= 16 {
        if k >= 2 {
            lemma_hex_digits_len(n / 16, (k - 1) as nat);
        } else {
            lemma_hex_digits_len(n / 16, 1);
            assert(sixteen_pow(1) == 16) by {
                reveal_with_fuel(sixteen_pow, 2);
            }
        }
    }
}

/// Number of hexadecimal digits of `n`.
fn count_hex_digits(n: u32) -> (r: usize)
    ensures
        r == hex_digits(n as nat).len(),
        1 <= r <= 8,
{
    proof {
        assert(sixteen_pow(8) == 0x1_0000_0000) by {
            reveal_with_fuel(sixteen_pow, 9);
        }
        lemma_hex_digits_len(n as nat, 8);
    }
    let mut r: usize = 1;
    let mut m: u32 = n;
    while m >= 16
        invariant
            1 <= r,
            hex_digits(n as nat).len() <= 8,
            r + hex_digits(m as nat).len() == hex_digits(n as nat).len() + 1,
        decreases m,
    {
        proof {
            lemma_hex_digits_len((m / 16) as nat, 1);
        }
        m = m / 16;
        r = r + 1;
    }
    r
}

/// Shows a value in upper-case hexadecimal after `0x`.
pub fn show_hex(v: u32) -> (r: String)
    ensures
        r@ == hex_text(v),
{
    let mut out = String::new();
    out.push('0');
    out.push('x');
    push_hex_digits(&mut out, v);
    out
}

/// Shows a value in upper-case hexadecimal after `0x`, padded with zeros to
/// at least `width` characters.
pub fn show_hex_padded(v: u32, width: usize) -> (r: String)
    ensures
        r@ == hex_text_padded(v, width as nat),
{
    let mut out = String::new();
    out.push('0');
    out.push('x');
    let n = count_hex_digits(v);
    let mut k: usize = n + 2;
    proof {
        assert(out@ =~= seq!['0', 'x'] + zeros(0));
    }
    while k < width
        invariant
            n + 2 <= k,
            n <= 8,
            k <= width || k == n + 2,
            out@ == seq!['0', 'x'] + zeros((k - n - 2) as nat),
        decreases width - k,
    {
        out.push('0');
        k = k + 1;
        proof {
            assert(zeros((k - n - 3) as nat).push('0') =~= zeros((k - n - 2) as nat));
            assert(out@ =~= seq!['0', 'x'] + zeros((k - n - 2) as nat));
        }
    }
    push_hex_digits(&mut out, v);
    out
}

/// Shows a value in decimal.
pub fn show_decimal(v: u32) -> (r: String)
    ensures
        r@ == decimal_text(v),
{
    let mut out = String::new();
    push_decimal_digits(&mut out, v);
    proof {
        assert(out@ =~= decimal_text(v));
    }
    out
}

/// Shows a register: `r` and the number in decimal.
pub fn show_register(v: u32) -> (r: String)
    ensures
        r@ == register_text(v),
{
    let mut out = String::new();
    out.push('r');
    push_decimal_digits(&mut out, v);
    proof {
        assert(out@ =~= register_text(v));
    }
    out
}

/// A formatter of field values: the text it gives depends on the value alone.
pub trait ShowFun {
    /// The text shown for `v`.
    spec fn shown(&self, v: u32) -> Seq<char>;

    fn show(&self, v: u32) -> (r: String)
        ensures
            r@ == self.shown(v),
    ;
}

/// The formatters that the library brings: a register index as `r` and the
/// number, a number in decimal, a number in hexadecimal.
#[derive(Debug, Clone, Copy, PartialEq, Eq, Structural)]
pub enum Show {
    Register,
    Decimal,
    Hex,
}

impl ShowFun for Show {
    open spec fn shown(&self, v: u32) -> Seq<char> {
        match self {
            Show::Register => register_text(v),
            Show::Decimal => decimal_text(v),
            Show::Hex => hex_text(v),
        }
    }

    fn show(&self, v: u32) -> (r: String) {
        match self {
            Show::Register => show_register(v),
            Show::Decimal => show_decimal(v),
            Show::Hex => show_hex(v),
        }
    }
}

/// The formatters registered by field name. A name has at most one
/// formatter: registering it again replaces the earlier one.
#[derive(Debug)]
pub struct ShowDict<F> {
    entries: Vec<(String, F)>,
}

/// True when entry `j` is the first one registered under `name`.
pub open spec fn first_entry<F>(entries: Seq<(String, F)>, name: Seq<char>, j: int) -> bool {
    &&& 0 <= j < entries.len()
    &&& entries[j].0@ == name
    &&& forall|k: int| 0 <= k < j ==> entries[k].0@ != name
}

/// The formatter found under `name`, if any.
pub open spec fn lookup<F>(entries: Seq<(String, F)>, name: Seq<char>) -> Option<F> {
    if exists|j: int| first_entry(entries, name, j) {
        Some(entries[choose|j: int| first_entry(entries, name, j)].1)
    } else {
        None
    }
}

/// The first entry under a name is the one that a lookup finds.
proof fn lemma_first_entry<F>(entries: Seq<(String, F)>, name: Seq<char>, j: int)
    requires
        first_entry(entries, name, j),
    ensures
        lookup(entries, name) == Some(entries[j].1),
{
    let c = choose|j: int| first_entry(entries, name, j);
    assert(first_entry(entries, name, c));
    if c < j {
        assert(entries[c].0@ != name);
    } else if j < c {
        assert(entries[j].0@ != name);
    }
}

/// Where no entry has the name, a lookup finds nothing.
proof fn lemma_no_entry<F>(entries: Seq<(String, F)>, name: Seq<char>)
    requires
        forall|k: int| 0 <= k < entries.len() ==> entries[k].0@ != name,
    ensures
        lookup(entries, name) is None,
{
}

impl<F> View for ShowDict<F> {
    type V = Map<Seq<char>, F>;

    closed spec fn view(&self) -> Map<Seq<char>, F> {
        Map::new(
            |name: Seq<char>| lookup(self.entries@, name) is Some,
            |name: Seq<char>| lookup(self.entries@, name)->0,
        )
    }
}

impl<F> ShowDict<F> {
    /// A registry without formatters.
    pub fn new() -> (r: Self)
        ensures
            r@ == Map::<Seq<char>, F>::empty(),
    {
        let r = ShowDict { entries: Vec::new() };
        proof {
            assert(r@ =~= Map::<Seq<char>, F>::empty());
        }
        r
    }

    /// Index of the first entry under `name`.
    fn position(&self, name: &String) -> (r: Option<usize>)
        ensures
            match r {
                Some(j) => first_entry(self.entries@, name@, j as int),
                None => forall|k: int| 0 <= k < self.entries@.len() ==> self.entries@[k].0@ != name@,
            },
    {
        let mut j: usize = 0;
        while j < self.entries.len()
            invariant
                j <= self.entries.len(),
                forall|k: int| 0 <= k < j ==> self.entries@[k].0@ != name@,
            decreases self.entries.len() - j,
        {
            if self.entries[j].0 == *name {
                return Some(j);
            }
            j = j + 1;
        }
        None
    }

    /// Registers `f` under `name`, in place of what was registered there.
    pub fn insert(&mut self, name: String, f: F)
        ensures
            final(self)@ == old(self)@.insert(name@, f),
    {
        let ghost before = self.entries@;
        let ghost key = name@;
        match self.position(&name) {
            Some(j) => {
                self.entries.set(j, (name, f));
                proof {
                    let after = self.entries@;
                    assert forall|n: Seq<char>| lookup(after, n) == (if n == key {
                        Some(f)
                    } else {
                        lookup(before, n)
                    }) by {
                        if n == key {
                            assert(first_entry(after, n, j as int));
                            lemma_first_entry(after, n, j as int);
                        } else if exists|i: int| first_entry(before, n, i) {
                            let i = choose|i: int| first_entry(before, n, i);
                            lemma_first_entry(before, n, i);
                            assert(first_entry(after, n, i));
                            lemma_first_entry(after, n, i);
                        } else {
                            if exists|i: int| first_entry(after, n, i) {
                                let i = choose|i: int| first_entry(after, n, i);
                                assert(after[i].0@ == n);
                                assert forall|k: int| 0 <= k < i implies before[k].0@ != n by {
                                    assert(after[k].0@ != n);
                                }
                                assert(first_entry(before, n, i));
                            }
                        }
                    }
                    assert(final(self)@ =~= old(self)@.insert(key, f));
                }
            },
            None => {
                self.entries.push((name, f));
                proof {
                    let after = self.entries@;
                    assert forall|n: Seq<char>| lookup(after, n) == (if n == key {
                        Some(f)
                    } else {
                        lookup(before, n)
                    }) by {
                        if n == key {
                            assert(first_entry(after, n, before.len() as int));
                            lemma_first_entry(after, n, before.len() as int);
                        } else if exists|i: int| first_entry(before, n, i) {
                            let i = choose|i: int| first_entry(before, n, i);
                            lemma_first_entry(before, n, i);
                            assert(first_entry(after, n, i));
                            lemma_first_entry(after, n, i);
                        } else {
                            if exists|i: int| first_entry(after, n, i) {
                                let i = choose|i: int| first_entry(after, n, i);
                                assert(after[i].0@ == n);
                                assert forall|k: int| 0 <= k < i implies before[k].0@ != n by {
                                    assert(after[k].0@ != n);
                                }
                                assert(first_entry(before, n, i));
                            }
                        }
                    }
                    assert(final(self)@ =~= old(self)@.insert(key, f));
                }
            },
        }
    }

    /// The formatter registered under `name`, if any.
    pub fn get(&self, name: &String) -> (r: Option<&F>)
        ensures
            match r {
                Some(f) => self@.dom().contains(name@) && *f == self@[name@],
                None => !self@.dom().contains(name@),
            },
    {
        match self.position(name) {
            Some(j) => {
                proof {
                    lemma_first_entry(self.entries@, name@, j as int);
                }
                Some(&self.entries[j].1)
            },
            None => {
                proof {
                    lemma_no_entry(self.entries@, name@);
                }
                None
            },
        }
    }
}

} // verus!
