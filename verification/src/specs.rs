use vstd::prelude::*;

use crate::data_type::DataType;
use crate::error::Error;
use crate::error::invalid_quality_msg;
use crate::error::unsupported_data_type_msg;

verus! {

/// An immutable pair of concrete input and output sample formats.
/// Construction rejects the `Dynamic` sentinel on either side.
#[derive(Clone, Copy, Debug)]
pub struct IOSpec {
    input: DataType,
    output: DataType,
}

impl IOSpec {
    pub closed spec fn spec_input_type(self) -> DataType {
        self.input
    }

    pub closed spec fn spec_output_type(self) -> DataType {
        self.output
    }

    /// Pairs an input and an output format.  Fails exactly when either
    /// format is the `Dynamic` sentinel, which is a placeholder for
    /// "decide later" and never a concrete wire format.
    pub fn new(input_type: DataType, output_type: DataType) -> (r: Result<IOSpec, Error>)
        ensures
            r.is_ok() <==> input_type.is_concrete() && output_type.is_concrete(),
            r matches Ok(s) ==> s.spec_input_type() == input_type && s.spec_output_type()
                == output_type,
            r matches Err(e) ==> !e.origin_is_engine() && e.msg_view()
                == unsupported_data_type_msg(),
    {
        if !(input_type.is_packed() || input_type.is_planar()) {
            return Err(Error::with_str("unsupported data type"));
        }
        if !(output_type.is_packed() || output_type.is_planar()) {
            return Err(Error::with_str("unsupported data type"));
        }
        Ok(IOSpec { input: input_type, output: output_type })
    }

    pub fn input_type(&self) -> (r: DataType)
        ensures
            r == self.spec_input_type(),
    {
        self.input
    }

    pub fn output_type(&self) -> (r: DataType)
        ensures
            r == self.spec_output_type(),
    {
        self.output
    }
}

/// A named fidelity/performance preset for the resampling filter, ordered
/// from fastest and lowest fidelity to slowest and highest.
#[derive(Clone, Copy, Debug, PartialEq, Eq, Structural)]
pub enum QualityRecipe {
    Quick,
    Low,
    Medium,
    High,
    VeryHigh,
}

/// A bitset of independently combinable quality flags.
///
/// Bits 0 and 1 form the passband rolloff field: `rolloff_small` (the
/// default, value 0), `rolloff_medium` and `rolloff_none`.  Bit 3 favours
/// timing precision, bit 4 selects double-precision internal computation,
/// and bit 5 enables run-time rate changes without pre-known bounds.
#[derive(Clone, Copy, Debug, PartialEq, Eq, Structural)]
pub struct QualityFlags {
    bits: u32,
}

impl QualityFlags {
    pub closed spec fn spec_bits(self) -> u32 {
        self.bits
    }

    /// A flag combination the engine accepts: no unknown bit is set
    /// (the known flags occupy bits 0, 1, 3, 4 and 5), and the rolloff
    /// field does not combine `rolloff_medium` with `rolloff_none`
    /// (their bits together form no rolloff setting).
    pub open spec fn spec_valid(self) -> bool {
        &&& self.spec_bits() % 4 != 3
        &&& (self.spec_bits() / 4) % 2 == 0
        &&& self.spec_bits() < 64
    }

    /// No flag set; rolloff takes its default, smallest setting.
    pub fn empty() -> (r: QualityFlags)
        ensures
            r.spec_bits() == 0u32,
    {
        QualityFlags { bits: 0 }
    }

    /// The default, smallest passband rolloff (this is the all-clear
    /// rolloff field, so the returned value equals `empty`).
    pub fn rolloff_small() -> (r: QualityFlags)
        ensures
            r.spec_bits() == 0u32,
    {
        QualityFlags { bits: 0 }
    }

    /// Medium passband rolloff.
    pub fn rolloff_medium() -> (r: QualityFlags)
        ensures
            r.spec_bits() == 1u32,
    {
        QualityFlags { bits: 1 }
    }

    /// No passband rolloff.
    pub fn rolloff_none() -> (r: QualityFlags)
        ensures
            r.spec_bits() == 2u32,
    {
        QualityFlags { bits: 2 }
    }

    /// Favour timing precision over other trade-offs.
    pub fn hi_prec_clock() -> (r: QualityFlags)
        ensures
            r.spec_bits() == 8u32,
    {
        QualityFlags { bits: 8 }
    }

    /// Compute internally in double precision.
    pub fn double_precision() -> (r: QualityFlags)
        ensures
            r.spec_bits() == 16u32,
    {
        QualityFlags { bits: 16 }
    }

    /// Enable run-time rate changes without pre-known ratio bounds.
    pub fn variable_rate() -> (r: QualityFlags)
        ensures
            r.spec_bits() == 32u32,
    {
        QualityFlags { bits: 32 }
    }

    /// A flag set from raw bits, validated only when a `QualitySpec` is
    /// built from it.
    pub fn from_bits(bits: u32) -> (r: QualityFlags)
        ensures
            r.spec_bits() == bits,
    {
        QualityFlags { bits }
    }

    /// The raw bits of the set.
    pub fn bits(&self) -> (r: u32)
        ensures
            r == self.spec_bits(),
    {
        self.bits
    }

    /// Both sets combined.
    pub fn union(self, other: QualityFlags) -> (r: QualityFlags)
        ensures
            r.spec_bits() == self.spec_bits() | other.spec_bits(),
    {
        QualityFlags { bits: self.bits | other.bits }
    }

    /// Whether every flag of `other` is also set in `self`.
    pub fn contains(self, other: QualityFlags) -> (r: bool)
        ensures
            r == (self.spec_bits() & other.spec_bits() == other.spec_bits()),
    {
        self.bits & other.bits == other.bits
    }
}

/// An immutable quality selection: one recipe plus a set of flags,
/// validated as a combination at construction.
#[derive(Clone, Copy, Debug)]
pub struct QualitySpec {
    recipe: QualityRecipe,
    flags: QualityFlags,
}

impl QualitySpec {
    pub closed spec fn spec_recipe(self) -> QualityRecipe {
        self.recipe
    }

    pub closed spec fn spec_flags(self) -> QualityFlags {
        self.flags
    }

    /// Builds a quality selection.  Every recipe is valid; the flag set is
    /// rejected exactly when `flags.spec_valid()` does not hold (an
    /// unknown bit, or a contradictory rolloff field).
    pub fn new(recipe: QualityRecipe, flags: QualityFlags) -> (r: Result<QualitySpec, Error>)
        ensures
            r.is_ok() <==> flags.spec_valid(),
            r matches Ok(s) ==> s.spec_recipe() == recipe && s.spec_flags() == flags,
            r matches Err(e) ==> e.origin_is_engine() && e.msg_view() == invalid_quality_msg(),
    {
        let bits = flags.bits();
        if bits % 4 == 3 || (bits / 4) % 2 != 0 || bits >= 64 {
            return Err(Error::new("invalid quality flag combination".to_owned()));
        }
        Ok(QualitySpec { recipe, flags })
    }
}

/// An immutable run-time selection: the desired worker-thread count.
/// `0` means the implementation default.  Any count is a legal hint.
#[derive(Clone, Copy, Debug)]
pub struct RuntimeSpec {
    num_threads: u32,
}

impl RuntimeSpec {
    pub closed spec fn spec_num_threads(self) -> u32 {
        self.num_threads
    }

    /// Builds a run-time selection; infallible, any count is a legal hint.
    pub fn new(num_threads: u32) -> (r: RuntimeSpec)
        ensures
            r.spec_num_threads() == num_threads,
    {
        RuntimeSpec { num_threads }
    }
}

} // verus!
