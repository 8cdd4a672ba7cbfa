use vstd::prelude::*;

verus! {

/// The error value used throughout the library.
///
/// An error has one of two origins: reported by the resampling engine
/// itself (`Error::new`), or raised by validation in front of the engine
/// (`Error::with_str`).  Either way it carries a human-readable message,
/// reachable through `as_str`.
#[derive(Debug)]
pub struct Error {
    from_engine: bool,
    msg: String,
}

impl Error {
    /// Whether the engine itself reported this error (as opposed to a
    /// validation check in front of it).
    pub closed spec fn origin_is_engine(self) -> bool {
        self.from_engine
    }

    /// The message carried by this error.
    pub closed spec fn msg_view(self) -> Seq<char> {
        self.msg@
    }

    /// An error reported by the resampling engine, with its message.
    pub fn new(msg: String) -> (e: Error)
        ensures
            e.origin_is_engine(),
            e.msg_view() == msg@,
    {
        Error { from_engine: true, msg }
    }

    /// An error raised by validation in front of the engine.
    pub fn with_str(msg: &str) -> (e: Error)
        ensures
            !e.origin_is_engine(),
            e.msg_view() == msg@,
    {
        Error { from_engine: false, msg: msg.to_owned() }
    }

    /// The uniform describe accessor: the message, whatever the origin.
    pub fn as_str(&self) -> (r: &str)
        ensures
            r@ == self.msg_view(),
    {
        self.msg.as_str()
    }
}

/// Message of the error raised when a buffer's channel count does not
/// match the engine's.
pub open spec fn invalid_channels_msg() -> Seq<char> {
    "invalid number of channels"@
}

/// Message of the error raised when a format is not a concrete wire format.
pub open spec fn unsupported_data_type_msg() -> Seq<char> {
    "unsupported data type"@
}

/// Message of the error raised when a quality flag combination is rejected.
pub open spec fn invalid_quality_msg() -> Seq<char> {
    "invalid quality flag combination"@
}

/// Message of the error raised when a rate is zero.
pub open spec fn invalid_rate_msg() -> Seq<char> {
    "invalid sample rate"@
}

/// Message of the error raised when a conversion ratio is zero.
pub open spec fn invalid_ratio_msg() -> Seq<char> {
    "invalid resampling ratio"@
}

/// Message of the error raised when a packed buffer's flat length is not a
/// multiple of the channel count.
pub open spec fn packed_misaligned_msg() -> Seq<char> {
    "packed buffer length not a multiple of channel count"@
}

/// Message of the error raised when the channel sequences of a planar
/// buffer differ in length.
pub open spec fn planar_unequal_msg() -> Seq<char> {
    "planar channel buffers differ in length"@
}

/// Message of the error raised by a dynamic-mode engine when the input
/// buffer's declared format differs from the committed one.
pub open spec fn input_mismatch_msg() -> Seq<char> {
    "input data type mismatch"@
}

/// Message of the error raised by a dynamic-mode engine when the output
/// buffer's declared format differs from the committed one.
pub open spec fn output_mismatch_msg() -> Seq<char> {
    "output data type mismatch"@
}

} // verus!
