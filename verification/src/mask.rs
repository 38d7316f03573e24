//! The mask predicates that were XOR-ed into the data modules.

use vstd::prelude::*;

verus! {

/// A supported mask predicate over module indices.
#[derive(Debug, Clone, Copy, PartialEq, Eq, Structural)]
pub enum MaskFn {
    /// Mask 0b000: every third column, beginning with column 0.
    EveryThirdColumn,
    /// Mask 0b010: the modules whose indices have an even sum.
    Checkerboard,
}

impl MaskFn {
    /// Whether the mask inverted the module at column `x` of row `y`.
    pub open spec fn covers(self, x: int, y: int) -> bool {
        match self {
            MaskFn::EveryThirdColumn => x % 3 == 0,
            MaskFn::Checkerboard => (x + y) % 2 == 0,
        }
    }

    /// The bit that a module stood for before masking: the module's value,
    /// inverted where the mask covers it.
    pub open spec fn unmasked(self, bit: bool, x: int, y: int) -> bool {
        bit != self.covers(x, y)
    }

    /// Evaluates the mask predicate at column `x` of row `y`.
    pub fn call(&self, x: u32, y: u32) -> (covered: bool)
        ensures
            covered == self.covers(x as int, y as int),
    {
        match self {
            MaskFn::EveryThirdColumn => x % 3 == 0,
            MaskFn::Checkerboard => (x % 2 == 0) == (y % 2 == 0),
        }
    }

    /// Removes the mask from the value of the module at column `x` of row `y`.
    pub fn demask(&self, bit: bool, x: u32, y: u32) -> (data: bool)
        ensures
            data == self.unmasked(bit, x as int, y as int),
    {
        bit != self.call(x, y)
    }
}

/// The mask that a 3-bit mask identifier selects, if it is supported.
pub open spec fn mask_for(mask: u8) -> Option<MaskFn> {
    if mask == 0b000 {
        Some(MaskFn::EveryThirdColumn)
    } else if mask == 0b010 {
        Some(MaskFn::Checkerboard)
    } else {
        None
    }
}

/// Selects the mask predicate for a mask identifier; `None` for every
/// identifier but 0b000 and 0b010.
pub fn get_mask_fn(mask: u8) -> (selected: Option<MaskFn>)
    ensures
        selected == mask_for(mask),
{
    if mask == 0b000 {
        Some(MaskFn::EveryThirdColumn)
    } else if mask == 0b010 {
        Some(MaskFn::Checkerboard)
    } else {
        None
    }
}

/// Mask involution: removing the mask of one identifier twice from a bit
/// gives the bit back.
pub proof fn lemma_demask_involution(mask: u8, bit: bool, x: int, y: int)
    requires
        mask_for(mask) is Some,
    ensures
        mask_for(mask)->0.unmasked(mask_for(mask)->0.unmasked(bit, x, y), x, y) == bit,
{
}

} // verus!
