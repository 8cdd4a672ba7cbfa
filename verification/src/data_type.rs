use vstd::prelude::*;

verus! {

/// A sample encoding: four numeric precisions, each stored either packed
/// (`I`, all channels interleaved in one flat sequence) or planar (`S`,
/// one sequence per channel), plus the `Dynamic` sentinel that stands for
/// "decided at run time" and is never a concrete wire format.
#[derive(Clone, Copy, Debug, PartialEq, Eq, Structural)]
pub enum DataType {
    Float32I,
    Float64I,
    Int32I,
    Int16I,
    Float32S,
    Float64S,
    Int32S,
    Int16S,
    Dynamic,
}

impl DataType {
    /// Whether the format interleaves all channels into one flat sequence.
    pub open spec fn spec_is_packed(&self) -> bool {
        self == DataType::Float32I || self == DataType::Float64I || self == DataType::Int32I
            || self == DataType::Int16I
    }

    /// Whether the format stores one independent sequence per channel.
    pub open spec fn spec_is_planar(&self) -> bool {
        self == DataType::Float32S || self == DataType::Float64S || self == DataType::Int32S
            || self == DataType::Int16S
    }

    /// A format usable on the wire: anything but the `Dynamic` sentinel.
    pub open spec fn is_concrete(&self) -> bool {
        self.spec_is_packed() || self.spec_is_planar()
    }

    #[verifier::when_used_as_spec(spec_is_packed)]
    pub fn is_packed(&self) -> (r: bool)
        ensures
            r == self.spec_is_packed(),
    {
        matches!(
            self,
            DataType::Float32I | DataType::Float64I | DataType::Int32I | DataType::Int16I
        )
    }

    #[verifier::when_used_as_spec(spec_is_planar)]
    pub fn is_planar(&self) -> (r: bool)
        ensures
            r == self.spec_is_planar(),
    {
        matches!(
            self,
            DataType::Float32S | DataType::Float64S | DataType::Int32S | DataType::Int16S
        )
    }
}

} // verus!
