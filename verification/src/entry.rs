//! Table entries: a layout and its template, with the mask and the pattern
//! that were derived from the layout when the entry was built.
use vstd::prelude::*;
use crate::layout::{
    check_layout, layout_defect, valid_layout, word_bits, BinaryInstruction, ItemView, LayoutError,
};
use crate::pattern::{layout_mask, layout_pattern, literals_match, mask_pattern};
use crate::template::{PartView, TextInstruction};
use crate::width::Num;

verus! {

/// The full description of an instruction: the layout for the machine, the
/// template for the reader. An entry holds a valid layout and never changes.
#[derive(Debug)]
pub struct Instruction<T: Num> {
    bin: BinaryInstruction<T>,
    text: TextInstruction,
    mask: T::IType,
    pattern: T::IType,
}

impl<T: Num> Instruction<T> {
    #[verifier::type_invariant]
    spec fn well_formed(&self) -> bool {
        &&& valid_layout(self.bin@, word_bits::<T>())
        &&& T::word(self.mask) == layout_mask(self.bin@)
        &&& T::word(self.pattern) == layout_pattern(self.bin@)
    }

    /// The entry's layout.
    pub closed spec fn layout(&self) -> Seq<ItemView> {
        self.bin@
    }

    /// The entry's template.
    pub closed spec fn template(&self) -> Seq<PartView> {
        self.text@
    }

    /// True when `w` passes the entry's test.
    pub open spec fn matches(&self, w: u32) -> bool {
        w & layout_mask(self.layout()) == layout_pattern(self.layout())
    }

    /// Builds an entry, with its mask and pattern. Fails on a layout that is
    /// not valid for the word width, with the layout's first defect. The
    /// entry built matches the words that hold each literal of the layout at
    /// its place.
    pub fn new(bin: BinaryInstruction<T>, text: TextInstruction) -> (r: Result<Self, LayoutError>)
        ensures
            match r {
                Ok(i) => {
                    &&& valid_layout(bin@, word_bits::<T>())
                    &&& i.layout() == bin@
                    &&& i.template() == text@
                    &&& forall|w: u32|
                        i.matches(w) <==> #[trigger] literals_match(bin@, word_bits::<T>(), w)
                },
                Err(e) => layout_defect(bin@, word_bits::<T>()) == Some(e),
            },
    {
        match check_layout(&bin) {
            Err(e) => Err(e),
            Ok(()) => {
                let (mask, pattern) = mask_pattern(&bin);
                Ok(Instruction { bin, text, mask, pattern })
            },
        }
    }

    /// The mask that was derived from the layout.
    pub fn mask(&self) -> (r: T::IType)
        ensures
            T::word(r) == layout_mask(self.layout()),
    {
        proof {
            use_type_invariant(self);
        }
        self.mask
    }

    /// The pattern that was derived from the layout.
    pub fn pattern(&self) -> (r: T::IType)
        ensures
            T::word(r) == layout_pattern(self.layout()),
    {
        proof {
            use_type_invariant(self);
        }
        self.pattern
    }

    /// The layout, which is valid for the word width.
    pub fn bin(&self) -> (r: &BinaryInstruction<T>)
        ensures
            r@ == self.layout(),
            valid_layout(r@, word_bits::<T>()),
    {
        proof {
            use_type_invariant(self);
        }
        &self.bin
    }

    /// The template.
    pub fn text(&self) -> (r: &TextInstruction)
        ensures
            r@ == self.template(),
    {
        &self.text
    }
}

} // verus!
