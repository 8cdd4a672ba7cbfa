use core::marker::PhantomData;

use vstd::prelude::*;

use crate::data_type::DataType;
use crate::error::Error;
use crate::error::input_mismatch_msg;
use crate::error::invalid_channels_msg;
use crate::error::invalid_rate_msg;
use crate::error::invalid_ratio_msg;
use crate::error::output_mismatch_msg;
use crate::error::packed_misaligned_msg;
use crate::error::planar_unequal_msg;
use crate::error::unsupported_data_type_msg;
use crate::specs::IOSpec;
use crate::specs::QualitySpec;
use crate::specs::RuntimeSpec;

verus! {

/// One whole input frame in fixed-point phase units: the engine's
/// fractional position between two adjacent input frames is a value in
/// `[0, FRAC_ONE)`.
pub const FRAC_ONE: u64 = 0x1_0000_0000;

/// The largest conversion step the engine can hold: one step is
/// `input_rate * FRAC_ONE / output_rate`, at most
/// `(2^32 - 1) * FRAC_ONE` for 32-bit rates.
pub const STEP_MAX: u64 = 0xffff_ffff_0000_0000;

/// A marker type whose `Sample` impl names a sample format at the type
/// level.  `Packed<i16>` stands for interleaved 16-bit samples.
pub struct Packed<T> {
    marker: PhantomData<T>,
}

/// A marker type for per-channel (planar) layouts, as `Packed` is for
/// interleaved ones.
pub struct Planar<T> {
    marker: PhantomData<T>,
}

/// The marker type of the `Dynamic` sentinel: the format is decided at
/// run time, not by the engine's type parameters.
pub struct DynamicSample {}

/// Maps a marker type onto the sample format it stands for.
pub trait Sample {
    /// The format this marker type stands for.
    spec fn spec_data_type() -> DataType;

    /// Returns the format tag of this marker type.
    fn data_type() -> (d: DataType)
        ensures
            d == Self::spec_data_type();
}

impl Sample for Packed<i16> {
    open spec fn spec_data_type() -> DataType {
        DataType::Int16I
    }

    fn data_type() -> DataType {
        DataType::Int16I
    }
}

impl Sample for Packed<i32> {
    open spec fn spec_data_type() -> DataType {
        DataType::Int32I
    }

    fn data_type() -> DataType {
        DataType::Int32I
    }
}

impl Sample for Planar<i16> {
    open spec fn spec_data_type() -> DataType {
        DataType::Int16S
    }

    fn data_type() -> DataType {
        DataType::Int16S
    }
}

impl Sample for Planar<i32> {
    open spec fn spec_data_type() -> DataType {
        DataType::Int32S
    }

    fn data_type() -> DataType {
        DataType::Int32S
    }
}

impl Sample for DynamicSample {
    open spec fn spec_data_type() -> DataType {
        DataType::Dynamic
    }

    fn data_type() -> DataType {
        DataType::Dynamic
    }
}

/// A caller-supplied input buffer: either one flat interleaved sequence,
/// or one sequence per channel.  Samples are the engine's internal
/// 32-bit representation.
pub enum SampleBuffer {
    Packed(Vec<i32>),
    Planar(Vec<Vec<i32>>),
}

/// A caller-supplied output buffer; the engine writes resampled frames
/// into its leading frames and leaves the rest as they were.
pub enum SampleBufferMut {
    Packed(Vec<i32>),
    Planar(Vec<Vec<i32>>),
}

impl SampleBuffer {
    /// Whether a planar buffer has exactly the engine's channel count
    /// (packed buffers carry no channel count of their own).
    pub open spec fn channels_ok(self, channels: nat) -> bool {
        match self {
            SampleBuffer::Packed(_) => true,
            SampleBuffer::Planar(v) => v@.len() == channels,
        }
    }

    /// Whether the buffer's lengths are coherent: a packed buffer holds a
    /// whole number of frames, a planar buffer's channel sequences are all
    /// of equal length.
    pub open spec fn lengths_ok(self, channels: nat) -> bool {
        match self {
            SampleBuffer::Packed(v) => v@.len() as int % (channels as int) == 0,
            SampleBuffer::Planar(v) => forall|c: int|
                #![trigger v@[c]]
                0 <= c < v@.len() ==> v@[c]@.len() == v@[0]@.len(),
        }
    }

    /// The number of whole frames the buffer holds.
    pub open spec fn spec_frames(self, channels: nat) -> nat {
        match self {
            SampleBuffer::Packed(v) => (v@.len() as int / (channels as int)) as nat,
            SampleBuffer::Planar(v) => if v@.len() > 0 {
                v@[0]@.len()
            } else {
                0
            },
        }
    }

    /// The sample of channel `c` in frame `t`.
    pub open spec fn spec_sample(self, channels: nat, t: int, c: int) -> i32 {
        match self {
            SampleBuffer::Packed(v) => v@[t * (channels as int) + c],
            SampleBuffer::Planar(v) => v@[c]@[t],
        }
    }

    /// Whether every sample of every whole frame is zero.
    pub open spec fn all_zero(self, channels: nat) -> bool {
        forall|t: int, c: int|
            0 <= t < self.spec_frames(channels) && 0 <= c < channels
                ==> #[trigger] self.spec_sample(channels, t, c) == 0
    }

    /// The buffer's whole frames as a sequence of frames, each a sequence
    /// of one sample per channel.
    pub open spec fn frames_seq(self, channels: nat) -> Seq<Seq<i32>> {
        Seq::new(
            self.spec_frames(channels),
            |t: int| Seq::new(channels, |c: int| self.spec_sample(channels, t, c)),
        )
    }
}

impl SampleBufferMut {
    /// See `SampleBuffer::channels_ok`.
    pub open spec fn channels_ok(self, channels: nat) -> bool {
        match self {
            SampleBufferMut::Packed(_) => true,
            SampleBufferMut::Planar(v) => v@.len() == channels,
        }
    }

    /// See `SampleBuffer::lengths_ok`.
    pub open spec fn lengths_ok(self, channels: nat) -> bool {
        match self {
            SampleBufferMut::Packed(v) => v@.len() as int % (channels as int) == 0,
            SampleBufferMut::Planar(v) => forall|c: int|
                #![trigger v@[c]]
                0 <= c < v@.len() ==> v@[c]@.len() == v@[0]@.len(),
        }
    }

    /// The number of whole frames the buffer can hold.
    pub open spec fn spec_frames(self, channels: nat) -> nat {
        match self {
            SampleBufferMut::Packed(v) => (v@.len() as int / (channels as int)) as nat,
            SampleBufferMut::Planar(v) => if v@.len() > 0 {
                v@[0]@.len()
            } else {
                0
            },
        }
    }

    /// The sample of channel `c` in frame `t`.
    pub open spec fn spec_sample(self, channels: nat, t: int, c: int) -> i32 {
        match self {
            SampleBufferMut::Packed(v) => v@[t * (channels as int) + c],
            SampleBufferMut::Planar(v) => v@[c]@[t],
        }
    }

    /// Whether `self` and `other` have the same layout and lengths.
    pub open spec fn same_shape(self, other: SampleBufferMut) -> bool {
        match (self, other) {
            (SampleBufferMut::Packed(x), SampleBufferMut::Packed(y)) => x@.len() == y@.len(),
            (SampleBufferMut::Planar(x), SampleBufferMut::Planar(y)) => x@.len() == y@.len()
                && forall|c: int|
                #![trigger x@[c]]
                0 <= c < x@.len() ==> x@[c]@.len() == y@[c]@.len(),
            _ => false,
        }
    }
}

/// The mathematical state of a resampling engine: its channel count, the
/// formats committed in dynamic mode, the fixed-point conversion step with
/// its slew target, the fractional phase between the last consumed input
/// frame (`hist`, meaningful once `primed`) and the next pending one, the
/// queue of input frames consumed from the caller but not yet resolved
/// into output, and the clip counter.
pub struct EngineState {
    pub channels: u8,
    pub input_format: Option<DataType>,
    pub output_format: Option<DataType>,
    pub step: u64,
    pub target_step: u64,
    pub slew_left: u64,
    pub frac: u64,
    pub primed: bool,
    pub hist: Seq<i32>,
    pub pending: Seq<Seq<i32>>,
    pub clips: usize,
}

impl EngineState {
    /// The engine's internal invariant: a positive channel count within
    /// the supported range, coherent buffer lengths, a step within bounds,
    /// a zero phase before priming, and a normalized phase whenever input
    /// is still pending.
    pub open spec fn wf(self) -> bool {
        &&& 0 < self.channels
        &&& self.hist.len() == self.channels as nat
        &&& forall|i: int|
            #![trigger self.pending[i]]
            0 <= i < self.pending.len() ==> self.pending[i].len() == self.channels as nat
        &&& 1 <= self.step <= STEP_MAX
        &&& 1 <= self.target_step <= STEP_MAX
        &&& (!self.primed ==> self.frac == 0)
        &&& (self.frac as int) < FRAC_ONE as int + STEP_MAX as int
        &&& (self.slew_left == 0 ==> self.step == self.target_step)
    }

    /// Whether everything the engine still remembers of the signal is
    /// silence.
    pub open spec fn all_zero(self) -> bool {
        &&& (self.primed ==> forall|c: int| 0 <= c < self.hist.len() ==> self.hist[c] == 0)
        &&& forall|i: int, c: int|
            #![trigger self.pending[i][c]]
            0 <= i < self.pending.len() && 0 <= c < self.pending[i].len()
                ==> self.pending[i][c] == 0
    }

    /// Whether the engine can emit at least one more output frame without
    /// further input: either it is not yet primed and a pending frame can
    /// prime it, or the phase lands on or between frames it already holds.
    pub open spec fn can_emit(self) -> bool {
        if !self.primed {
            self.pending.len() >= 1
        } else {
            let k = self.frac as int / FRAC_ONE as int;
            self.pending.len() > k || (self.pending.len() == k && self.frac as int % (
            FRAC_ONE as int) == 0)
        }
    }

    /// This state with further input frames queued behind the pending ones.
    pub open spec fn with_pending_appended(self, extra: Seq<Seq<i32>>) -> EngineState {
        EngineState { pending: self.pending + extra, ..self }
    }

    /// Whether the phase is in canonical form: below one whole frame, or
    /// waiting on an empty queue.  Every state a caller can observe is
    /// normalized.
    pub open spec fn normalized(self) -> bool {
        self.frac < FRAC_ONE || self.pending.len() == 0
    }
}

/// Whether `post`'s step lies on the slew path of `pre`: between `pre`'s
/// step and its target, target unchanged.
pub open spec fn step_between(pre: EngineState, post: EngineState) -> bool {
    &&& post.target_step == pre.target_step
    &&& (pre.step <= pre.target_step ==> pre.step <= post.step <= pre.target_step)
    &&& (pre.step >= pre.target_step ==> pre.target_step <= post.step <= pre.step)
}

/// The frames of an optional input buffer, `0` for a flush call.
pub open spec fn opt_in_frames(input: Option<&SampleBuffer>, channels: nat) -> nat {
    match input {
        Some(b) => b.spec_frames(channels),
        None => 0,
    }
}

/// Channel validity of an optional input buffer; a flush call is valid.
pub open spec fn opt_channels_ok(input: Option<&SampleBuffer>, channels: nat) -> bool {
    match input {
        Some(b) => b.channels_ok(channels),
        None => true,
    }
}

/// Length coherence of an optional input buffer; a flush call is valid.
pub open spec fn opt_lengths_ok(input: Option<&SampleBuffer>, channels: nat) -> bool {
    match input {
        Some(b) => b.lengths_ok(channels),
        None => true,
    }
}

/// Whether the input is present and planar.
pub open spec fn opt_is_planar(input: Option<&SampleBuffer>) -> bool {
    match input {
        Some(b) => b is Planar,
        None => false,
    }
}

/// Whether everything in an optional input buffer is silence.
pub open spec fn opt_all_zero(input: Option<&SampleBuffer>, channels: nat) -> bool {
    match input {
        Some(b) => b.all_zero(channels),
        None => true,
    }
}

/// The engine state after the input buffer's frames are queued, before
/// any output is produced.
/// Whether a dynamic-mode engine must reject the input buffer: a format
/// was committed at construction, input is present, and the caller's
/// declared format differs.
pub open spec fn dyn_input_mismatch(
    pre: EngineState,
    input: Option<&SampleBuffer>,
    declared: DataType,
) -> bool {
    pre.input_format matches Some(f) && input is Some && f != declared
}

/// Whether a dynamic-mode engine must reject the output buffer: a format
/// was committed at construction and the caller's declared format
/// differs.
pub open spec fn dyn_output_mismatch(pre: EngineState, declared: DataType) -> bool {
    pre.output_format matches Some(f) && f != declared
}

pub open spec fn merged_state(pre: EngineState, input: Option<&SampleBuffer>) -> EngineState {
    match input {
        Some(b) => pre.with_pending_appended(b.frames_seq(pre.channels as nat)),
        None => pre,
    }
}

/// Whether both buffers of a `process` call fit the engine's channel
/// count and have coherent lengths.
pub open spec fn process_args_ok(
    channels: nat,
    input: Option<&SampleBuffer>,
    out: SampleBufferMut,
) -> bool {
    &&& opt_channels_ok(input, channels)
    &&& opt_lengths_ok(input, channels)
    &&& out.channels_ok(channels)
    &&& out.lengths_ok(channels)
}

/// What a successful `process` call guarantees: the consumed count is the
/// whole input, the produced count fills the output unless the engine ran
/// out of resolvable frames, the conversion state advances by at least
/// one step unit per produced frame, a flush of a drained engine is a
/// no-op, silence in yields silence out, and the output buffer keeps its
/// shape with its unwritten tail untouched.
pub open spec fn process_ok_post(
    pre: EngineState,
    post: EngineState,
    input: Option<&SampleBuffer>,
    out_pre: SampleBufferMut,
    out_post: SampleBufferMut,
    consumed: int,
    produced: int,
) -> bool {
    let ch = pre.channels as nat;
    let m = merged_state(pre, input);
    let cap = out_pre.spec_frames(ch);
    &&& post.wf() && post.normalized()
    &&& post.channels == pre.channels
    &&& post.input_format == pre.input_format
    &&& post.output_format == pre.output_format
    &&& post.clips == pre.clips
    &&& post.slew_left <= pre.slew_left
    &&& step_between(pre, post)
    &&& consumed == opt_in_frames(input, ch)
    &&& 0 <= produced <= cap
    &&& (produced == 0 <==> (cap == 0 || !m.can_emit()))
    &&& (produced < cap ==> !post.can_emit())
    &&& post.pending.len() <= m.pending.len()
    &&& FRAC_ONE as int * post.pending.len() - post.frac as int <= FRAC_ONE as int
        * m.pending.len() - m.frac as int - produced
    &&& (input is None && pre.normalized() && !pre.can_emit() ==> post == pre && produced == 0)
    &&& out_post.same_shape(out_pre)
    &&& (forall|t: int, c: int|
        produced <= t < cap && 0 <= c < ch ==> #[trigger] out_post.spec_sample(ch, t, c)
            == out_pre.spec_sample(ch, t, c))
    &&& (m.all_zero() ==> post.all_zero() && (forall|t: int, c: int|
        0 <= t < produced && 0 <= c < ch ==> #[trigger] out_post.spec_sample(ch, t, c) == 0))
}

/// Silence in, silence out: when everything the engine remembers and
/// everything the caller feeds is zero, a successful `process` call
/// writes only zero samples and leaves the engine remembering only
/// silence — so a resampled stream of zeros, through any chain of
/// engines at any rates, stays zero.
pub proof fn lemma_silence_preserved(
    pre: EngineState,
    post: EngineState,
    input: Option<&SampleBuffer>,
    out_pre: SampleBufferMut,
    out_post: SampleBufferMut,
    consumed: int,
    produced: int,
)
    requires
        process_ok_post(pre, post, input, out_pre, out_post, consumed, produced),
        pre.all_zero(),
        opt_all_zero(input, pre.channels as nat),
    ensures
        post.all_zero(),
        forall|t: int, c: int|
            0 <= t < produced && 0 <= c < pre.channels as nat ==> #[trigger] out_post.spec_sample(
                pre.channels as nat,
                t,
                c,
            ) == 0,
{
    let ch = pre.channels as nat;
    let m = merged_state(pre, input);
    assert forall|t: int, c: int|
        0 <= t < m.pending.len() && 0 <= c < m.pending[t].len() implies #[trigger] m.pending[t][c]
        == 0 by {
        if t < pre.pending.len() {
            assert(m.pending[t] == pre.pending[t]);
        } else {
            match input {
                Some(b) => {
                    assert(m.pending[t] == b.frames_seq(ch)[t - pre.pending.len()]);
                    assert(b.spec_sample(ch, t - pre.pending.len(), c) == 0);
                },
                None => {},
            }
        }
    }
    assert(m.all_zero());
}

/// A flush of a drained engine is a no-op: when the engine holds
/// nothing it could still resolve into output, a `process(None, _)` call returns `(0, 0)` and
/// leaves the engine exactly as it was.
pub proof fn lemma_flush_stuck_noop(
    pre: EngineState,
    post: EngineState,
    out_pre: SampleBufferMut,
    out_post: SampleBufferMut,
    consumed: int,
    produced: int,
)
    requires
        process_ok_post(pre, post, None, out_pre, out_post, consumed, produced),
        pre.normalized(),
        !pre.can_emit(),
    ensures
        post == pre,
        consumed == 0,
        produced == 0,
{
}

/// Flushing eventually yields nothing and then stays at nothing: any
/// flush that does not fill the output leaves the engine unable to emit,
/// so by `lemma_flush_stuck_noop` every later flush returns `(0, 0)` and
/// changes nothing.
pub proof fn lemma_flush_drains(
    pre: EngineState,
    post: EngineState,
    out_pre: SampleBufferMut,
    out_post: SampleBufferMut,
    consumed: int,
    produced: int,
)
    requires
        process_ok_post(pre, post, None, out_pre, out_post, consumed, produced),
        produced < out_pre.spec_frames(pre.channels as nat),
    ensures
        post.normalized(),
        !post.can_emit(),
{
}

/// The linear interpolation between samples `h` and `n` at the Q16
/// fraction `frac16`, computed exactly as the engine computes it: on values
/// offset into the unsigned range, with truncating division.
pub open spec fn spec_interp(h: i32, n: i32, frac16: int) -> int {
    ((h as int + 0x8000_0000) * (0x1_0000 - frac16) + (n as int + 0x8000_0000) * frac16) / 0x1_0000
        - 0x8000_0000
}

/// Interpolating between two zero samples yields zero, whatever the
/// fraction: silence stays silence.
pub proof fn lemma_interp_zero(frac16: int)
    requires
        0 <= frac16 <= 0x1_0000,
    ensures
        spec_interp(0i32, 0i32, frac16) == 0,
{
    let a = 0x8000_0000int;
    let k = 0x1_0000int;
    assert(a * (k - frac16) + a * frac16 == a * k) by (nonlinear_arith);
    vstd::arithmetic::div_mod::lemma_div_multiples_vanish(a, k);
}

/// The conversion step, in fixed-point input frames per output frame, for
/// a given input/output rate pair.
pub open spec fn spec_step(input_rate: int, output_rate: int) -> int {
    input_rate * (FRAC_ONE as int) / output_rate
}

/// The identifying name of the engine's conversion algorithm.
pub open spec fn engine_name() -> Seq<char> {
    "fixed-point linear interpolator"@
}

/// The identifying version string of the engine.
pub open spec fn version_name() -> Seq<char> {
    "media-soxr native engine 0.1.0"@
}

/// A streaming sample-rate conversion engine.
///
/// The engine owns a per-channel history frame, a queue of input frames
/// consumed from the caller but not yet resolved into output, and the
/// fixed-point phase and step that drive a linear-interpolation
/// variable-rate resampler.  `I` and `O` name the sample formats fixed at
/// compile time; an engine built over `DynamicSample` commits to concrete
/// formats at construction instead and checks them on every
/// `process_dynamic` call.
pub struct Soxr<I: Sample, O: Sample> {
    channels: u8,
    input_data_type: Option<DataType>,
    output_data_type: Option<DataType>,
    step: u64,
    target_step: u64,
    slew_left: u64,
    frac: u64,
    primed: bool,
    hist: Vec<i32>,
    pending: Vec<Vec<i32>>,
    clips: usize,
    in_marker: PhantomData<I>,
    out_marker: PhantomData<O>,
}

impl<I: Sample, O: Sample> View for Soxr<I, O> {
    type V = EngineState;

    closed spec fn view(&self) -> EngineState {
        EngineState {
            channels: self.channels,
            input_format: self.input_data_type,
            output_format: self.output_data_type,
            step: self.step,
            target_step: self.target_step,
            slew_left: self.slew_left,
            frac: self.frac,
            primed: self.primed,
            hist: self.hist@,
            pending: self.pending@.map_values(|v: Vec<i32>| v@),
            clips: self.clips,
        }
    }
}

impl<I: Sample, O: Sample> Soxr<I, O> {
    /// The identifying version string of the engine implementation.
    pub fn version() -> (v: String)
        ensures
            v@ == version_name(),
    {
        "media-soxr native engine 0.1.0".to_owned()
    }

    /// Builds the zeroed per-channel history of a fresh engine.
    fn zero_frame(channels: u8) -> (v: Vec<i32>)
        ensures
            v@.len() == channels as nat,
            forall|c: int| 0 <= c < v@.len() ==> v@[c] == 0,
    {
        let mut v: Vec<i32> = Vec::new();
        let mut c: usize = 0;
        while c < channels as usize
            invariant
                c <= channels as usize,
                v@.len() == c,
                forall|i: int| 0 <= i < v@.len() ==> v@[i] == 0,
            decreases channels as usize - c,
        {
            v.push(0);
            c += 1;
        }
        v
    }

    /// The common construction path: validates the rates and the channel
    /// count, and builds the engine's initial state.
    fn construct(
        input_format: Option<DataType>,
        output_format: Option<DataType>,
        input_rate: u32,
        output_rate: u32,
        num_channels: u8,
    ) -> (r: Result<Soxr<I, O>, Error>)
        ensures
            r.is_ok() <==> num_channels != 0 && input_rate != 0 && output_rate != 0,
            r matches Ok(s) ==> s@ == (EngineState {
                channels: num_channels,
                input_format: input_format,
                output_format: output_format,
                step: spec_step(input_rate as int, output_rate as int) as u64,
                target_step: spec_step(input_rate as int, output_rate as int) as u64,
                slew_left: 0u64,
                frac: 0u64,
                primed: false,
                hist: Seq::new(num_channels as nat, |c: int| 0i32),
                pending: Seq::<Seq<i32>>::empty(),
                clips: 0usize,
            }) && s@.wf(),
            r matches Err(e) ==> e.origin_is_engine() && (if num_channels == 0 {
                e.msg_view() == invalid_channels_msg()
            } else {
                e.msg_view() == invalid_rate_msg()
            }),
    {
        if num_channels == 0 {
            return Err(Error::new("invalid number of channels".to_owned()));
        }
        if input_rate == 0 || output_rate == 0 {
            return Err(Error::new("invalid sample rate".to_owned()));
        }
        let step: u64 = ((input_rate as u64) * FRAC_ONE) / (output_rate as u64);
        proof {
            let ir = input_rate as int;
            let or = output_rate as int;
            let f = FRAC_ONE as int;
            assert(ir * f >= or) by (nonlinear_arith)
                requires
                    ir >= 1,
                    1 <= or < f;
            assert(ir * f / or >= 1) by (nonlinear_arith)
                requires
                    ir * f >= or,
                    or >= 1;
            assert(ir * f <= STEP_MAX as int) by (nonlinear_arith)
                requires
                    ir <= 0xffff_ffff,
                    f == FRAC_ONE as int;
            assert(ir * f / or <= ir * f) by (nonlinear_arith)
                requires
                    ir * f >= 0,
                    or >= 1;
        }
        let s = Soxr {
            channels: num_channels,
            input_data_type: input_format,
            output_data_type: output_format,
            step,
            target_step: step,
            slew_left: 0,
            frac: 0,
            primed: false,
            hist: Self::zero_frame(num_channels),
            pending: Vec::new(),
            clips: 0,
            in_marker: PhantomData,
            out_marker: PhantomData,
        };
        proof {
            assert(s@.hist =~= Seq::new(num_channels as nat, |c: int| 0i32));
            assert(s@.pending =~= Seq::<Seq<i32>>::empty());
        }
        Ok(s)
    }

    /// Static construction: the input and output formats are fixed by the
    /// `I` and `O` marker types.  Fails when either marker stands for the
    /// `Dynamic` sentinel, when the channel count is zero, or when either
    /// rate is zero.
    pub fn new(
        input_rate: u32,
        output_rate: u32,
        num_channels: u8,
        quality_spec: Option<&QualitySpec>,
        runtime_spec: Option<&RuntimeSpec>,
    ) -> (r: Result<Soxr<I, O>, Error>)
        ensures
            r.is_ok() <==> I::spec_data_type().is_concrete() && O::spec_data_type().is_concrete()
                && num_channels != 0 && input_rate != 0 && output_rate != 0,
            !(I::spec_data_type().is_concrete() && O::spec_data_type().is_concrete()) ==> (
            r matches Err(e) && !e.origin_is_engine() && e.msg_view()
                == unsupported_data_type_msg()),
            I::spec_data_type().is_concrete() && O::spec_data_type().is_concrete()
                && num_channels == 0 ==> (r matches Err(e) && e.origin_is_engine()
                && e.msg_view() == invalid_channels_msg()),
            I::spec_data_type().is_concrete() && O::spec_data_type().is_concrete()
                && num_channels != 0 && (input_rate == 0 || output_rate == 0) ==> (
            r matches Err(e) && e.origin_is_engine() && e.msg_view() == invalid_rate_msg()),
            r matches Ok(s) ==> s@ == (EngineState {
                channels: num_channels,
                input_format: None::<DataType>,
                output_format: None::<DataType>,
                step: spec_step(input_rate as int, output_rate as int) as u64,
                target_step: spec_step(input_rate as int, output_rate as int) as u64,
                slew_left: 0u64,
                frac: 0u64,
                primed: false,
                hist: Seq::new(num_channels as nat, |c: int| 0i32),
                pending: Seq::<Seq<i32>>::empty(),
                clips: 0usize,
            }) && s@.wf(),
    {
        // A quality or runtime selection is validated when it is built;
        // the interpolation engine has a single filter, so the hints
        // select nothing further here.
        let _ = quality_spec;
        let _ = runtime_spec;
        if let Err(e) = IOSpec::new(I::data_type(), O::data_type()) {
            return Err(e);
        }
        Self::construct(None, None, input_rate, output_rate, num_channels)
    }

    /// Dynamic construction: the concrete formats are supplied as values
    /// and recorded on the engine; every later `process_dynamic` call is
    /// checked against them.  Fails as `new` does, and when either given
    /// format is the `Dynamic` sentinel.
    pub fn new_with_data_type(
        input_data_type: DataType,
        output_data_type: DataType,
        input_rate: u32,
        output_rate: u32,
        num_channels: u8,
        quality_spec: Option<&QualitySpec>,
        runtime_spec: Option<&RuntimeSpec>,
    ) -> (r: Result<Soxr<I, O>, Error>)
        ensures
            r.is_ok() <==> input_data_type.is_concrete() && output_data_type.is_concrete()
                && num_channels != 0 && input_rate != 0 && output_rate != 0,
            !(input_data_type.is_concrete() && output_data_type.is_concrete()) ==> (
            r matches Err(e) && !e.origin_is_engine() && e.msg_view()
                == unsupported_data_type_msg()),
            input_data_type.is_concrete() && output_data_type.is_concrete() && num_channels == 0
                ==> (r matches Err(e) && e.origin_is_engine() && e.msg_view()
                == invalid_channels_msg()),
            input_data_type.is_concrete() && output_data_type.is_concrete() && num_channels != 0
                && (input_rate == 0 || output_rate == 0) ==> (r matches Err(e)
                && e.origin_is_engine() && e.msg_view() == invalid_rate_msg()),
            r matches Ok(s) ==> s@ == (EngineState {
                channels: num_channels,
                input_format: Some(input_data_type),
                output_format: Some(output_data_type),
                step: spec_step(input_rate as int, output_rate as int) as u64,
                target_step: spec_step(input_rate as int, output_rate as int) as u64,
                slew_left: 0u64,
                frac: 0u64,
                primed: false,
                hist: Seq::new(num_channels as nat, |c: int| 0i32),
                pending: Seq::<Seq<i32>>::empty(),
                clips: 0usize,
            }) && s@.wf(),
    {
        // A quality or runtime selection is validated when it is built;
        // the interpolation engine has a single filter, so the hints
        // select nothing further here.
        let _ = quality_spec;
        let _ = runtime_spec;
        if let Err(e) = IOSpec::new(input_data_type, output_data_type) {
            return Err(e);
        }
        Self::construct(
            Some(input_data_type),
            Some(output_data_type),
            input_rate,
            output_rate,
            num_channels,
        )
    }

    /// Checks a buffer's channel count against the engine's.
    pub fn validate_channels(&self, channels: usize) -> (r: Result<(), Error>)
        ensures
            r.is_ok() <==> channels == self@.channels as usize && channels != 0,
            r matches Err(e) ==> !e.origin_is_engine() && e.msg_view() == invalid_channels_msg(),
    {
        if self.channels as usize != channels || channels == 0 {
            Err(Error::with_str("invalid number of channels"))
        } else {
            Ok(())
        }
    }

    /// The most recent internal error state.  The native engine never
    /// enters an internal error state, so this is always `None`.
    pub fn error(&self) -> (r: Option<String>)
        ensures
            r.is_none(),
    {
        None
    }

    /// The saturating counter of output samples clamped during conversion
    /// to a narrower representation.  Informational only.
    pub fn num_clips(&self) -> (r: usize)
        ensures
            r == self@.clips,
    {
        self.clips
    }

    /// Resets the clip counter, typically to zero.
    pub fn set_num_clips(&mut self, num_clips: usize)
        ensures
            final(self)@ == (EngineState { clips: num_clips, ..old(self)@ }),
    {
        self.clips = num_clips;
    }

    /// The engine's current latency, as the number of whole input frames
    /// buffered but not yet resolved into output.
    pub fn delay(&self) -> (r: u64)
        requires
            self@.wf(),
        ensures
            r as nat == self@.pending.len(),
    {
        self.pending.len() as u64
    }

    /// The identifying name of the active conversion algorithm.
    pub fn engine(&self) -> (r: String)
        ensures
            r@ == engine_name(),
    {
        "fixed-point linear interpolator".to_owned()
    }

    /// Clears the buffered history and phase, so that a new stream can be
    /// started without reallocating; the rate configuration, the committed
    /// formats and the clip counter are preserved.
    pub fn clear(&mut self) -> (r: Result<(), Error>)
        ensures
            r.is_ok(),
            final(self)@ == (EngineState {
                frac: 0u64,
                primed: false,
                pending: Seq::<Seq<i32>>::empty(),
                ..old(self)@
            }),
    {
        self.frac = 0;
        self.primed = false;
        self.pending = Vec::new();
        proof {
            assert(self@.pending =~= Seq::<Seq<i32>>::empty());
        }
        Ok(())
    }

    /// Changes the conversion ratio (`io_ratio_num / io_ratio_den` input
    /// frames per output frame).  With `slew_len == 0` the new ratio takes
    /// effect at once; with `slew_len > 0` the step slides toward the new
    /// ratio over that many output frames, avoiding a discontinuity.
    /// Fails exactly when either part of the ratio is zero; on failure the
    /// engine keeps its prior configuration.
    pub fn set_io_ratio(&mut self, io_ratio_num: u32, io_ratio_den: u32, slew_len: usize) -> (r:
        Result<(), Error>)
        requires
            old(self)@.wf(),
        ensures
            final(self)@.wf(),
            r.is_ok() <==> io_ratio_num != 0 && io_ratio_den != 0,
            r matches Err(e) ==> final(self)@ == old(self)@ && e.origin_is_engine()
                && e.msg_view() == invalid_ratio_msg(),
            r.is_ok() && slew_len == 0 ==> final(self)@ == (EngineState {
                step: spec_step(io_ratio_num as int, io_ratio_den as int) as u64,
                target_step: spec_step(io_ratio_num as int, io_ratio_den as int) as u64,
                slew_left: 0u64,
                ..old(self)@
            }),
            r.is_ok() && slew_len != 0 ==> final(self)@ == (EngineState {
                target_step: spec_step(io_ratio_num as int, io_ratio_den as int) as u64,
                slew_left: slew_len as u64,
                ..old(self)@
            }),
    {
        if io_ratio_num == 0 || io_ratio_den == 0 {
            return Err(Error::new("invalid resampling ratio".to_owned()));
        }
        let step: u64 = ((io_ratio_num as u64) * FRAC_ONE) / (io_ratio_den as u64);
        proof {
            let ir = io_ratio_num as int;
            let or = io_ratio_den as int;
            let f = FRAC_ONE as int;
            assert(ir * f >= or) by (nonlinear_arith)
                requires
                    ir >= 1,
                    1 <= or < f;
            assert(ir * f / or >= 1) by (nonlinear_arith)
                requires
                    ir * f >= or,
                    or >= 1;
            assert(ir * f <= STEP_MAX as int) by (nonlinear_arith)
                requires
                    ir <= 0xffff_ffff,
                    f == FRAC_ONE as int;
            assert(ir * f / or <= ir * f) by (nonlinear_arith)
                requires
                    ir * f >= 0,
                    or >= 1;
        }
        if slew_len == 0 {
            self.step = step;
            self.target_step = step;
            self.slew_left = 0;
        } else {
            self.target_step = step;
            self.slew_left = slew_len as u64;
        }
        Ok(())
    }

    /// Reconfigures the engine for a new channel count, clearing the
    /// channel-dependent history and pending input; the rate configuration
    /// and the clip counter are preserved.  Fails exactly when the count
    /// is zero or above the supported range of 255; on failure the engine
    /// keeps its prior configuration.
    pub fn set_num_channels(&mut self, num_channels: u32) -> (r: Result<(), Error>)
        requires
            old(self)@.wf(),
        ensures
            final(self)@.wf(),
            r.is_ok() <==> 1 <= num_channels <= 255,
            r matches Err(e) ==> final(self)@ == old(self)@ && e.origin_is_engine()
                && e.msg_view() == invalid_channels_msg(),
            r.is_ok() ==> final(self)@ == (EngineState {
                channels: num_channels as u8,
                frac: 0u64,
                primed: false,
                hist: Seq::new(num_channels as nat, |c: int| 0i32),
                pending: Seq::<Seq<i32>>::empty(),
                ..old(self)@
            }),
    {
        if num_channels == 0 || num_channels > 255 {
            return Err(Error::new("invalid number of channels".to_owned()));
        }
        self.channels = num_channels as u8;
        self.frac = 0;
        self.primed = false;
        self.hist = Self::zero_frame(num_channels as u8);
        self.pending = Vec::new();
        proof {
            assert(self@.pending =~= Seq::<Seq<i32>>::empty());
            assert(self@.hist =~= Seq::new(num_channels as nat, |c: int| 0i32));
        }
        Ok(())
    }

    /// Removes and returns the oldest pending frame.
    fn pop_pending(&mut self) -> (fr: Vec<i32>)
        requires
            old(self)@.pending.len() > 0,
        ensures
            fr@ == old(self)@.pending[0],
            final(self)@ == (EngineState {
                pending: old(self)@.pending.drop_first(),
                ..old(self)@
            }),
    {
        let fr = self.pending.remove(0);
        proof {
            assert(self@.pending =~~= old(self)@.pending.drop_first());
        }
        fr
    }

    /// Queues one frame behind the pending input.
    fn push_pending(&mut self, fr: Vec<i32>)
        ensures
            final(self)@ == (EngineState { pending: old(self)@.pending.push(fr@), ..old(self)@ }),
    {
        self.pending.push(fr);
        proof {
            assert(self@.pending =~~= old(self)@.pending.push(fr@));
        }
    }

    /// Folds whole frames of accumulated phase into the history frame,
    /// consuming pending input; afterwards the phase is below one frame
    /// or the queue is empty.  A normalized engine is left untouched.
    fn normalize(&mut self)
        requires
            old(self)@.wf(),
        ensures
            final(self)@.wf(),
            final(self)@.normalized(),
            final(self)@.channels == old(self)@.channels,
            final(self)@.input_format == old(self)@.input_format,
            final(self)@.output_format == old(self)@.output_format,
            final(self)@.clips == old(self)@.clips,
            final(self)@.step == old(self)@.step,
            final(self)@.target_step == old(self)@.target_step,
            final(self)@.slew_left == old(self)@.slew_left,
            final(self)@.primed == old(self)@.primed,
            final(self)@.pending.len() <= old(self)@.pending.len(),
            FRAC_ONE as int * final(self)@.pending.len() - final(self)@.frac as int == FRAC_ONE
                as int * old(self)@.pending.len() - old(self)@.frac as int,
            final(self)@.can_emit() == old(self)@.can_emit(),
            old(self)@.normalized() ==> final(self)@ == old(self)@,
            old(self)@.all_zero() ==> final(self)@.all_zero(),
    {
        while self.frac >= FRAC_ONE && self.pending.len() > 0
            invariant
                self@.wf(),
                self@.channels == old(self)@.channels,
                self@.input_format == old(self)@.input_format,
                self@.output_format == old(self)@.output_format,
                self@.clips == old(self)@.clips,
                self@.step == old(self)@.step,
                self@.target_step == old(self)@.target_step,
                self@.slew_left == old(self)@.slew_left,
                self@.primed == old(self)@.primed,
                self@.pending.len() <= old(self)@.pending.len(),
                FRAC_ONE as int * self@.pending.len() - self@.frac as int == FRAC_ONE as int
                    * old(self)@.pending.len() - old(self)@.frac as int,
                self@.can_emit() == old(self)@.can_emit(),
                old(self)@.normalized() ==> self@ == old(self)@,
                old(self)@.all_zero() ==> self@.all_zero(),
            decreases self@.pending.len(),
        {
            proof {
                let f = self@.frac as int;
                let q = FRAC_ONE as int;
                vstd::arithmetic::div_mod::lemma_fundamental_div_mod(f, q);
                assert((f - q) == (f / q - 1) * q + f % q) by (nonlinear_arith)
                    requires
                        f == q * (f / q) + f % q,
                ;
                vstd::arithmetic::div_mod::lemma_fundamental_div_mod_converse(
                    f - q,
                    q,
                    f / q - 1,
                    f % q,
                );
            }
            let fr = self.pop_pending();
            self.hist = fr;
            self.frac = self.frac - FRAC_ONE;
        }
    }

    /// Applies one output frame's phase advance: slides the step one
    /// increment along its slew path, adds it to the phase, and
    /// renormalizes.
    fn advance(&mut self)
        requires
            old(self)@.wf(),
            old(self)@.primed,
            old(self)@.frac < FRAC_ONE,
        ensures
            final(self)@.wf(),
            final(self)@.normalized(),
            final(self)@.primed,
            final(self)@.channels == old(self)@.channels,
            final(self)@.input_format == old(self)@.input_format,
            final(self)@.output_format == old(self)@.output_format,
            final(self)@.clips == old(self)@.clips,
            step_between(old(self)@, final(self)@),
            final(self)@.slew_left <= old(self)@.slew_left,
            final(self)@.pending.len() <= old(self)@.pending.len(),
            FRAC_ONE as int * final(self)@.pending.len() - final(self)@.frac as int <= FRAC_ONE
                as int * old(self)@.pending.len() - old(self)@.frac as int - 1,
            old(self)@.all_zero() ==> final(self)@.all_zero(),
    {
        if self.slew_left > 0 {
            if self.target_step >= self.step {
                let d: u64 = self.target_step - self.step;
                let inc: u64 = d / self.slew_left;
                proof {
                    assert(d as int / self.slew_left as int <= d as int) by (nonlinear_arith)
                        requires
                            0 <= d as int,
                            self.slew_left as int >= 1,
                    ;
                    assert(self.slew_left == 1 ==> d as int / self.slew_left as int == d as int)
                        by (nonlinear_arith);
                }
                self.step = self.step + inc;
            } else {
                let d: u64 = self.step - self.target_step;
                let dec: u64 = d / self.slew_left;
                proof {
                    assert(d as int / self.slew_left as int <= d as int) by (nonlinear_arith)
                        requires
                            0 <= d as int,
                            self.slew_left as int >= 1,
                    ;
                    assert(self.slew_left == 1 ==> d as int / self.slew_left as int == d as int)
                        by (nonlinear_arith);
                }
                self.step = self.step - dec;
            }
            self.slew_left = self.slew_left - 1;
        }
        self.frac = self.frac + self.step;
        self.normalize();
    }

    /// Consumes the caller's whole input buffer into the pending queue,
    /// frame by frame.
    fn append_input(&mut self, input: &SampleBuffer)
        requires
            old(self)@.wf(),
            input.channels_ok(old(self)@.channels as nat),
            input.lengths_ok(old(self)@.channels as nat),
        ensures
            final(self)@ == old(self)@.with_pending_appended(
                input.frames_seq(old(self)@.channels as nat),
            ),
            final(self)@.wf(),
    {
        let ghost ch = old(self)@.channels as nat;
        let ghost fs = input.frames_seq(ch);
        let chn = self.channels as usize;
        proof {
            assert(old(self)@.pending + fs.take(0) =~~= old(self)@.pending);
        }
        match input {
            SampleBuffer::Packed(buf) => {
                let frames = buf.len() / chn;
                proof {
                    vstd::arithmetic::div_mod::lemma_fundamental_div_mod(
                        buf@.len() as int,
                        chn as int,
                    );
                    assert(fs.len() == frames);
                }
                let mut t: usize = 0;
                while t < frames
                    invariant
                        t <= frames,
                        chn == old(self)@.channels as usize,
                        chn > 0,
                        ch == old(self)@.channels as nat,
                        fs == input.frames_seq(ch),
                        input matches SampleBuffer::Packed(b) && b@ == buf@,
                        frames == buf@.len() as int / chn as int,
                        buf@.len() as int == chn as int * frames as int,
                        buf@.len() <= usize::MAX as nat,
                        fs.len() == frames,
                        old(self)@.wf(),
                        self@ == old(self)@.with_pending_appended(fs.take(t as int)),
                    decreases frames - t,
                {
                    let mut fr: Vec<i32> = Vec::new();
                    let mut c: usize = 0;
                    while c < chn
                        invariant
                            c <= chn,
                            t < frames,
                            chn > 0,
                            input matches SampleBuffer::Packed(b) && b@ == buf@,
                            buf@.len() as int == chn as int * frames as int,
                            buf@.len() <= usize::MAX as nat,
                            fr@.len() == c,
                            forall|k: int|
                                0 <= k < c ==> fr@[k] == buf@[t * (chn as int) + k],
                        decreases chn - c,
                    {
                        proof {
                            assert(0 <= t * (chn as int) + c < buf@.len()) by (nonlinear_arith)
                                requires
                                    0 <= (t as int) < frames as int,
                                    0 <= (c as int) < chn as int,
                                    buf@.len() as int == chn as int * frames as int,
                            ;
                        }
                        fr.push(buf[t * chn + c]);
                        c += 1;
                    }
                    proof {
                        assert(fr@ =~= fs[t as int]);
                        assert(fs.take(t as int).push(fs[t as int]) =~~= fs.take(t as int + 1));
                        assert((old(self)@.pending + fs.take(t as int)).push(fr@) =~~= old(
                            self,
                        )@.pending + fs.take(t as int + 1));
                    }
                    self.push_pending(fr);
                    t += 1;
                }
                proof {
                    assert(fs.take(frames as int) =~~= fs);
                }
            },
            SampleBuffer::Planar(bufs) => {
                let frames = bufs[0].len();
                proof {
                    assert(fs.len() == frames);
                }
                let mut t: usize = 0;
                while t < frames
                    invariant
                        t <= frames,
                        chn == old(self)@.channels as usize,
                        chn > 0,
                        ch == old(self)@.channels as nat,
                        fs == input.frames_seq(ch),
                        input matches SampleBuffer::Planar(b) && b@ == bufs@,
                        bufs@.len() == chn,
                        forall|i: int|
                            #![trigger bufs@[i]]
                            0 <= i < bufs@.len() ==> bufs@[i]@.len() == bufs@[0]@.len(),
                        frames == bufs@[0]@.len(),
                        fs.len() == frames,
                        old(self)@.wf(),
                        self@ == old(self)@.with_pending_appended(fs.take(t as int)),
                    decreases frames - t,
                {
                    let mut fr: Vec<i32> = Vec::new();
                    let mut c: usize = 0;
                    while c < chn
                        invariant
                            c <= chn,
                            t < frames,
                            chn > 0,
                            input matches SampleBuffer::Planar(b) && b@ == bufs@,
                            bufs@.len() == chn,
                            forall|i: int|
                                #![trigger bufs@[i]]
                                0 <= i < bufs@.len() ==> bufs@[i]@.len() == bufs@[0]@.len(),
                            frames == bufs@[0]@.len(),
                            fr@.len() == c,
                            forall|k: int| 0 <= k < c ==> fr@[k] == bufs@[k]@[t as int],
                        decreases chn - c,
                    {
                        fr.push(bufs[c][t]);
                        c += 1;
                    }
                    proof {
                        assert(fr@ =~= fs[t as int]);
                        assert(fs.take(t as int).push(fs[t as int]) =~~= fs.take(t as int + 1));
                        assert((old(self)@.pending + fs.take(t as int)).push(fr@) =~~= old(
                            self,
                        )@.pending + fs.take(t as int + 1));
                    }
                    self.push_pending(fr);
                    t += 1;
                }
                proof {
                    assert(fs.take(frames as int) =~~= fs);
                }
            },
        }
        proof {
            let m = old(self)@.with_pending_appended(fs);
            assert forall|i: int| 0 <= i < m.pending.len() implies (#[trigger] m.pending[i]).len()
                == m.channels as nat by {
                if i >= old(self)@.pending.len() {
                    assert(m.pending[i] == fs[i - old(self)@.pending.len()]);
                }
            }
        }
    }

    /// Emits as many output frames as the queued input and the output
    /// capacity allow, advancing the conversion state.
    fn produce(&mut self, out_cap: usize) -> (outs: Vec<Vec<i32>>)
        requires
            old(self)@.wf(),
        ensures
            final(self)@.wf(),
            final(self)@.normalized(),
            final(self)@.channels == old(self)@.channels,
            final(self)@.input_format == old(self)@.input_format,
            final(self)@.output_format == old(self)@.output_format,
            final(self)@.clips == old(self)@.clips,
            step_between(old(self)@, final(self)@),
            final(self)@.slew_left <= old(self)@.slew_left,
            outs@.len() <= out_cap,
            forall|i: int|
                0 <= i < outs@.len() ==> (#[trigger] outs@[i])@.len() == old(
                    self,
                )@.channels as nat,
            (outs@.len() == 0 <==> (out_cap == 0 || !old(self)@.can_emit())),
            (outs@.len() < out_cap ==> !final(self)@.can_emit()),
            final(self)@.pending.len() <= old(self)@.pending.len(),
            FRAC_ONE as int * final(self)@.pending.len() - final(self)@.frac as int <= FRAC_ONE
                as int * old(self)@.pending.len() - old(self)@.frac as int - outs@.len(),
            old(self)@.normalized() && !old(self)@.can_emit() ==> final(self)@ == old(self)@,
            old(self)@.all_zero() ==> final(self)@.all_zero() && (forall|i: int, c: int|
                #![trigger outs@[i]@[c]]
                0 <= i < outs@.len() && 0 <= c < outs@[i]@.len() ==> outs@[i]@[c] == 0),
    {
        self.normalize();
        let mut outs: Vec<Vec<i32>> = Vec::new();
        let mut stop: bool = false;
        while !stop && outs.len() < out_cap
            invariant
                self@.wf(),
                self@.normalized(),
                self@.channels == old(self)@.channels,
                self@.input_format == old(self)@.input_format,
                self@.output_format == old(self)@.output_format,
                self@.clips == old(self)@.clips,
                step_between(old(self)@, self@),
                self@.slew_left <= old(self)@.slew_left,
                outs@.len() <= out_cap,
                forall|i: int|
                    0 <= i < outs@.len() ==> (#[trigger] outs@[i])@.len() == old(
                        self,
                    )@.channels as nat,
                self@.pending.len() <= old(self)@.pending.len(),
                FRAC_ONE as int * self@.pending.len() - self@.frac as int <= FRAC_ONE as int
                    * old(self)@.pending.len() - old(self)@.frac as int - outs@.len(),
                outs@.len() == 0 ==> self@.can_emit() == old(self)@.can_emit(),
                outs@.len() > 0 ==> out_cap > 0 && old(self)@.can_emit(),
                stop ==> !self@.can_emit(),
                old(self)@.normalized() && !old(self)@.can_emit() ==> self@ == old(self)@
                    && outs@.len() == 0,
                old(self)@.all_zero() ==> self@.all_zero() && (forall|i: int, c: int|
                    #![trigger outs@[i]@[c]]
                    0 <= i < outs@.len() && 0 <= c < outs@[i]@.len() ==> outs@[i]@[c] == 0),
            decreases out_cap - outs@.len(), (if stop { 0int } else { 1int }),
        {
            let ghost pre = self@;
            if !self.primed {
                if self.pending.len() == 0 {
                    stop = true;
                } else {
                    let fr = self.pop_pending();
                    self.hist = fr;
                    self.primed = true;
                    proof {
                        if old(self)@.all_zero() {
                            assert forall|i: int, c: int|
                                #![trigger self@.pending[i][c]]
                                0 <= i < self@.pending.len() && 0 <= c
                                    < self@.pending[i].len() implies self@.pending[i][c]
                                == 0 by {
                                assert(self@.pending[i] == pre.pending[i + 1]);
                                assert(pre.pending[i + 1][c] == 0);
                            }
                            assert(forall|c: int|
                                0 <= c < self@.hist.len() ==> self@.hist[c] == pre.pending[0][c]);
                        }
                    }
                }
            }
            let ghost mid = self@;
            if !stop {
                if self.frac >= FRAC_ONE {
                    stop = true;
                } else if self.frac == 0 {
                    let fr = clone_frame(&self.hist);
                    let ghost outs0 = outs@;
                    outs.push(fr);
                    proof {
                        if old(self)@.all_zero() {
                            assert forall|i: int, c: int|
                                #![trigger outs@[i]@[c]]
                                0 <= i < outs@.len() && 0 <= c < outs@[i]@.len() implies outs@[i]@[c]
                                == 0 by {
                                if i == outs@.len() - 1 {
                                    assert(outs@[i]@ == mid.hist);
                                } else {
                                    assert(outs@[i] == outs0[i]);
                                    assert(outs0[i]@[c] == 0);
                                }
                            }
                        }
                    }
                    self.advance();
                } else if self.pending.len() == 0 {
                    stop = true;
                } else {
                    proof {
                        assert(self@.pending[0].len() == self@.channels as nat);
                        lemma_interp_zero((self@.frac as int) / 0x1_0000);
                        assert(0 <= (self@.frac as int) / 0x1_0000 < 0x1_0000) by (
                        nonlinear_arith)
                            requires
                                0 <= (self@.frac as int) < 0x1_0000_0000,
                        ;
                    }
                    let fr = interp_frame(&self.hist, &self.pending[0], self.frac);
                    let ghost outs0 = outs@;
                    outs.push(fr);
                    proof {
                        if old(self)@.all_zero() {
                            assert forall|i: int, c: int|
                                #![trigger outs@[i]@[c]]
                                0 <= i < outs@.len() && 0 <= c < outs@[i]@.len() implies outs@[i]@[c]
                                == 0 by {
                                if i == outs@.len() - 1 {
                                    assert(outs@[i]@[c] as int == spec_interp(
                                        mid.hist[c],
                                        mid.pending[0][c],
                                        (mid.frac as int) / 0x1_0000,
                                    ));
                                    assert(mid.hist[c] == 0 && mid.pending[0][c] == 0);
                                } else {
                                    assert(outs@[i] == outs0[i]);
                                    assert(outs0[i]@[c] == 0);
                                }
                            }
                        }
                    }
                    self.advance();
                }
            }
        }
        outs
    }

    /// The shared data path of `process` and `process_dynamic`:
    /// validates the buffers, queues the input, produces output frames,
    /// and writes them over the output buffer's head.
    fn process_core(&mut self, input: Option<&SampleBuffer>, output: &mut SampleBufferMut) -> (r:
        Result<(usize, usize), Error>)
        requires
            old(self)@.wf(),
        ensures
            final(self)@.wf(),
            r.is_ok() <==> process_args_ok(old(self)@.channels as nat, input, *old(output)),
            r is Err ==> final(self)@ == old(self)@ && *final(output) == *old(output),
            r matches Err(e) ==> !e.origin_is_engine(),
            !opt_channels_ok(input, old(self)@.channels as nat) ==> (r matches Err(e)
                && e.msg_view() == invalid_channels_msg()),
            opt_channels_ok(input, old(self)@.channels as nat) && !opt_lengths_ok(
                input,
                old(self)@.channels as nat,
            ) && opt_is_planar(input) ==> (r matches Err(e) && e.msg_view()
                == planar_unequal_msg()),
            opt_channels_ok(input, old(self)@.channels as nat) && !opt_lengths_ok(
                input,
                old(self)@.channels as nat,
            ) && !opt_is_planar(input) ==> (r matches Err(e) && e.msg_view()
                == packed_misaligned_msg()),
            opt_channels_ok(input, old(self)@.channels as nat) && opt_lengths_ok(
                input,
                old(self)@.channels as nat,
            ) && !old(output).channels_ok(old(self)@.channels as nat) ==> (r matches Err(e)
                && e.msg_view() == invalid_channels_msg()),
            opt_channels_ok(input, old(self)@.channels as nat) && opt_lengths_ok(
                input,
                old(self)@.channels as nat,
            ) && old(output).channels_ok(old(self)@.channels as nat) && !old(output).lengths_ok(
                old(self)@.channels as nat,
            ) && (*old(output)) is Planar ==> (r matches Err(e) && e.msg_view()
                == planar_unequal_msg()),
            opt_channels_ok(input, old(self)@.channels as nat) && opt_lengths_ok(
                input,
                old(self)@.channels as nat,
            ) && old(output).channels_ok(old(self)@.channels as nat) && !old(output).lengths_ok(
                old(self)@.channels as nat,
            ) && (*old(output)) is Packed ==> (r matches Err(e) && e.msg_view()
                == packed_misaligned_msg()),
            r matches Ok(done) ==> process_ok_post(
                old(self)@,
                final(self)@,
                input,
                *old(output),
                *final(output),
                done.0 as int,
                done.1 as int,
            ),
    {
        let chn = self.channels as usize;
        match input {
            Some(b) => match b {
                SampleBuffer::Planar(bufs) => {
                    if bufs.len() != chn {
                        return Err(Error::with_str("invalid number of channels"));
                    }
                    if !planar_equal_lengths(bufs) {
                        return Err(Error::with_str("planar channel buffers differ in length"));
                    }
                },
                SampleBuffer::Packed(v) => {
                    if v.len() % chn != 0 {
                        return Err(
                            Error::with_str("packed buffer length not a multiple of channel count"),
                        );
                    }
                },
            },
            None => {},
        }
        let out_ref: &SampleBufferMut = output;
        match out_ref {
            SampleBufferMut::Planar(bufs) => {
                if bufs.len() != chn {
                    return Err(Error::with_str("invalid number of channels"));
                }
                if !planar_equal_lengths(bufs) {
                    return Err(Error::with_str("planar channel buffers differ in length"));
                }
            },
            SampleBufferMut::Packed(v) => {
                if v.len() % chn != 0 {
                    return Err(
                        Error::with_str("packed buffer length not a multiple of channel count"),
                    );
                }
            },
        }
        let in_frames: usize;
        match input {
            Some(b) => {
                in_frames = match b {
                    SampleBuffer::Packed(v) => v.len() / chn,
                    SampleBuffer::Planar(bufs) => bufs[0].len(),
                };
                self.append_input(b);
            },
            None => {
                in_frames = 0;
            },
        }
        proof {
            assert(self@ == merged_state(old(self)@, input));
        }
        let out_cap: usize = match &*output {
            SampleBufferMut::Packed(v) => v.len() / chn,
            SampleBufferMut::Planar(bufs) => bufs[0].len(),
        };
        let outs = self.produce(out_cap);
        let produced = outs.len();
        scatter(output, &outs, chn);
        Ok((in_frames, produced))
    }

    /// Feeds an optional input buffer into the engine and drains
    /// resampled frames into `output`.  `None` input flushes buffered
    /// history at end of stream.  Returns the `(consumed, produced)`
    /// frame counts; the whole input is consumed, and the output is
    /// filled unless the engine ran out of resolvable frames.  A planar
    /// buffer whose channel count differs from the engine's, unequal
    /// planar channel lengths, and a packed buffer whose flat length is
    /// not a multiple of the channel count are each rejected before any
    /// data moves.
    pub fn process(&mut self, input: Option<&SampleBuffer>, output: &mut SampleBufferMut) -> (r:
        Result<(usize, usize), Error>)
        requires
            old(self)@.wf(),
        ensures
            final(self)@.wf(),
            r.is_ok() <==> process_args_ok(old(self)@.channels as nat, input, *old(output)),
            r is Err ==> final(self)@ == old(self)@ && *final(output) == *old(output),
            r matches Err(e) ==> !e.origin_is_engine(),
            !opt_channels_ok(input, old(self)@.channels as nat) ==> (r matches Err(e)
                && e.msg_view() == invalid_channels_msg()),
            opt_channels_ok(input, old(self)@.channels as nat) && !opt_lengths_ok(
                input,
                old(self)@.channels as nat,
            ) && opt_is_planar(input) ==> (r matches Err(e) && e.msg_view()
                == planar_unequal_msg()),
            opt_channels_ok(input, old(self)@.channels as nat) && !opt_lengths_ok(
                input,
                old(self)@.channels as nat,
            ) && !opt_is_planar(input) ==> (r matches Err(e) && e.msg_view()
                == packed_misaligned_msg()),
            opt_channels_ok(input, old(self)@.channels as nat) && opt_lengths_ok(
                input,
                old(self)@.channels as nat,
            ) && !old(output).channels_ok(old(self)@.channels as nat) ==> (r matches Err(e)
                && e.msg_view() == invalid_channels_msg()),
            opt_channels_ok(input, old(self)@.channels as nat) && opt_lengths_ok(
                input,
                old(self)@.channels as nat,
            ) && old(output).channels_ok(old(self)@.channels as nat) && !old(output).lengths_ok(
                old(self)@.channels as nat,
            ) && (*old(output)) is Planar ==> (r matches Err(e) && e.msg_view()
                == planar_unequal_msg()),
            opt_channels_ok(input, old(self)@.channels as nat) && opt_lengths_ok(
                input,
                old(self)@.channels as nat,
            ) && old(output).channels_ok(old(self)@.channels as nat) && !old(output).lengths_ok(
                old(self)@.channels as nat,
            ) && (*old(output)) is Packed ==> (r matches Err(e) && e.msg_view()
                == packed_misaligned_msg()),
            r matches Ok(done) ==> process_ok_post(
                old(self)@,
                final(self)@,
                input,
                *old(output),
                *final(output),
                done.0 as int,
                done.1 as int,
            ),
    {
        self.process_core(input, output)
    }

    /// The dynamic-format data path: as `process`, but first checks the
    /// caller's declared sample formats against the formats committed at
    /// construction, rejecting a mismatch before any data is touched.
    /// An engine built by `new` committed no formats, so nothing is
    /// checked for the side built that way.
    pub fn process_dynamic<In: Sample, Out: Sample>(
        &mut self,
        input: Option<&SampleBuffer>,
        output: &mut SampleBufferMut,
    ) -> (r: Result<(usize, usize), Error>)
        requires
            old(self)@.wf(),
        ensures
            final(self)@.wf(),
            r.is_ok() <==> !dyn_input_mismatch(old(self)@, input, In::spec_data_type())
                && !dyn_output_mismatch(old(self)@, Out::spec_data_type()) && process_args_ok(
                old(self)@.channels as nat,
                input,
                *old(output),
            ),
            r is Err ==> final(self)@ == old(self)@ && *final(output) == *old(output),
            r matches Err(e) ==> !e.origin_is_engine(),
            dyn_input_mismatch(old(self)@, input, In::spec_data_type()) ==> (r matches Err(e)
                && e.msg_view() == input_mismatch_msg()),
            !dyn_input_mismatch(old(self)@, input, In::spec_data_type()) && dyn_output_mismatch(
                old(self)@,
                Out::spec_data_type(),
            ) ==> (r matches Err(e) && e.msg_view() == output_mismatch_msg()),
            !dyn_input_mismatch(old(self)@, input, In::spec_data_type())
                && !dyn_output_mismatch(old(self)@, Out::spec_data_type())
                && !opt_channels_ok(input, old(self)@.channels as nat) ==> (r matches Err(e)
                && e.msg_view() == invalid_channels_msg()),
            !dyn_input_mismatch(old(self)@, input, In::spec_data_type())
                && !dyn_output_mismatch(old(self)@, Out::spec_data_type()) && opt_channels_ok(
                input,
                old(self)@.channels as nat,
            ) && !opt_lengths_ok(input, old(self)@.channels as nat) && opt_is_planar(input) ==> (
            r matches Err(e) && e.msg_view() == planar_unequal_msg()),
            !dyn_input_mismatch(old(self)@, input, In::spec_data_type())
                && !dyn_output_mismatch(old(self)@, Out::spec_data_type()) && opt_channels_ok(
                input,
                old(self)@.channels as nat,
            ) && !opt_lengths_ok(input, old(self)@.channels as nat) && !opt_is_planar(input) ==> (
            r matches Err(e) && e.msg_view() == packed_misaligned_msg()),
            !dyn_input_mismatch(old(self)@, input, In::spec_data_type())
                && !dyn_output_mismatch(old(self)@, Out::spec_data_type()) && opt_channels_ok(
                input,
                old(self)@.channels as nat,
            ) && opt_lengths_ok(input, old(self)@.channels as nat) && !old(output).channels_ok(
                old(self)@.channels as nat,
            ) ==> (r matches Err(e) && e.msg_view() == invalid_channels_msg()),
            !dyn_input_mismatch(old(self)@, input, In::spec_data_type())
                && !dyn_output_mismatch(old(self)@, Out::spec_data_type()) && opt_channels_ok(
                input,
                old(self)@.channels as nat,
            ) && opt_lengths_ok(input, old(self)@.channels as nat) && old(output).channels_ok(
                old(self)@.channels as nat,
            ) && !old(output).lengths_ok(old(self)@.channels as nat) && (*old(output)) is Planar
                ==> (r matches Err(e) && e.msg_view() == planar_unequal_msg()),
            !dyn_input_mismatch(old(self)@, input, In::spec_data_type())
                && !dyn_output_mismatch(old(self)@, Out::spec_data_type()) && opt_channels_ok(
                input,
                old(self)@.channels as nat,
            ) && opt_lengths_ok(input, old(self)@.channels as nat) && old(output).channels_ok(
                old(self)@.channels as nat,
            ) && !old(output).lengths_ok(old(self)@.channels as nat) && (*old(output)) is Packed
                ==> (r matches Err(e) && e.msg_view() == packed_misaligned_msg()),
            r matches Ok(done) ==> process_ok_post(
                old(self)@,
                final(self)@,
                input,
                *old(output),
                *final(output),
                done.0 as int,
                done.1 as int,
            ),
    {
        if let Some(dt) = self.input_data_type {
            if input.is_some() && dt != In::data_type() {
                return Err(Error::with_str("input data type mismatch"));
            }
        }
        if let Some(dt) = self.output_data_type {
            if dt != Out::data_type() {
                return Err(Error::with_str("output data type mismatch"));
            }
        }
        self.process_core(input, output)
    }
}

/// Copies one frame of samples.
fn clone_frame(v: &Vec<i32>) -> (r: Vec<i32>)
    ensures
        r@ == v@,
{
    let mut r: Vec<i32> = Vec::new();
    let mut c: usize = 0;
    while c < v.len()
        invariant
            c <= v@.len(),
            r@.len() == c,
            forall|i: int| 0 <= i < c ==> r@[i] == v@[i],
        decreases v@.len() - c,
    {
        r.push(v[c]);
        c += 1;
    }
    proof {
        assert(r@ =~= v@);
    }
    r
}

/// One linearly interpolated sample between `h` and `n` at phase `frac`.
fn interp(h: i32, n: i32, frac: u64) -> (r: i32)
    requires
        frac < FRAC_ONE,
    ensures
        r as int == spec_interp(h, n, (frac / 0x1_0000) as int),
{
    let f: u64 = frac / 0x1_0000;
    proof {
        assert(frac as int / 0x1_0000 < 0x1_0000) by (nonlinear_arith)
            requires
                0 <= (frac as int) < 0x1_0000_0000,
        ;
    }
    let hu: u64 = ((h as i64) + 0x8000_0000) as u64;
    let nu: u64 = ((n as i64) + 0x8000_0000) as u64;
    proof {
        let hi = hu as int;
        let ni = nu as int;
        let fi = f as int;
        assert(hi * (0x1_0000 - fi) + ni * fi <= 0xffff_ffff * 0x1_0000) by (nonlinear_arith)
            requires
                0 <= hi <= 0xffff_ffff,
                0 <= ni <= 0xffff_ffff,
                0 <= fi <= 0x1_0000;
        assert(hi * (0x1_0000 - fi) >= 0 && ni * fi >= 0) by (nonlinear_arith)
            requires
                0 <= hi && 0 <= ni && 0 <= fi <= 0x1_0000;
    }
    let sum: u64 = hu * (0x1_0000 - f) + nu * f;
    let yu: u64 = sum / 0x1_0000;
    proof {
        assert(sum as int / 0x1_0000 <= 0xffff_ffff) by (nonlinear_arith)
            requires
                0 <= (sum as int) <= 0xffff_ffff * 0x1_0000,
        ;
    }
    let y: i64 = (yu as i64) - 0x8000_0000;
    y as i32
}

/// One interpolated frame between `hist` and `nxt` at phase `frac`.
fn interp_frame(hist: &Vec<i32>, nxt: &Vec<i32>, frac: u64) -> (fr: Vec<i32>)
    requires
        hist@.len() == nxt@.len(),
        frac < FRAC_ONE,
    ensures
        fr@.len() == hist@.len(),
        forall|c: int|
            0 <= c < fr@.len() ==> (#[trigger] fr@[c]) as int == spec_interp(
                hist@[c],
                nxt@[c],
                (frac / 0x1_0000) as int,
            ),
{
    let mut fr: Vec<i32> = Vec::new();
    let mut c: usize = 0;
    while c < hist.len()
        invariant
            c <= hist@.len(),
            hist@.len() == nxt@.len(),
            frac < FRAC_ONE,
            fr@.len() == c,
            forall|i: int|
                0 <= i < c ==> (#[trigger] fr@[i]) as int == spec_interp(
                    hist@[i],
                    nxt@[i],
                    (frac / 0x1_0000) as int,
                ),
        decreases hist@.len() - c,
    {
        fr.push(interp(hist[c], nxt[c], frac));
        c += 1;
    }
    fr
}

/// Whether every channel sequence of a planar buffer has the length of
/// the first.
fn planar_equal_lengths(bufs: &Vec<Vec<i32>>) -> (r: bool)
    requires
        bufs@.len() > 0,
    ensures
        r == (forall|c: int|
            #![trigger bufs@[c]]
            0 <= c < bufs@.len() ==> bufs@[c]@.len() == bufs@[0]@.len()),
{
    let l0 = bufs[0].len();
    let mut c: usize = 1;
    while c < bufs.len()
        invariant
            1 <= c <= bufs@.len(),
            bufs@.len() > 0,
            l0 == bufs@[0]@.len(),
            forall|i: int| #![trigger bufs@[i]] 0 <= i < c ==> bufs@[i]@.len() == l0,
        decreases bufs@.len() - c,
    {
        if bufs[c].len() != l0 {
            proof {
                assert(bufs@[c as int]@.len() != bufs@[0]@.len());
            }
            return false;
        }
        c += 1;
    }
    true
}

/// The flat contents of a packed output buffer after the frames of
/// `outs` are written over its head.
fn build_flat(v: &Vec<i32>, outs: &Vec<Vec<i32>>, ch: usize) -> (nv: Vec<i32>)
    requires
        ch > 0,
        v@.len() as int % (ch as int) == 0,
        outs@.len() <= v@.len() as int / (ch as int),
        forall|i: int| 0 <= i < outs@.len() ==> (#[trigger] outs@[i])@.len() == ch as nat,
    ensures
        nv@.len() == v@.len(),
        forall|t: int, c: int|
            #![trigger nv@[t * (ch as int) + c]]
            0 <= t < v@.len() as int / (ch as int) && 0 <= c < ch ==> nv@[t * (ch as int) + c]
                == (if t < outs@.len() {
                    outs@[t]@[c]
                } else {
                    v@[t * (ch as int) + c]
                }),
{
    let n = v.len();
    let cap = n / ch;
    proof {
        vstd::arithmetic::div_mod::lemma_fundamental_div_mod(n as int, ch as int);
    }
    let mut nv: Vec<i32> = Vec::new();
    let mut t: usize = 0;
    while t < cap
        invariant
            t <= cap,
            ch > 0,
            n == v@.len(),
            cap == n as int / ch as int,
            n as int == (ch as int) * (cap as int),
            outs@.len() <= cap,
            forall|i: int| 0 <= i < outs@.len() ==> (#[trigger] outs@[i])@.len() == ch as nat,
            nv@.len() == t * ch,
            forall|t2: int, c2: int|
                #![trigger nv@[t2 * (ch as int) + c2]]
                0 <= t2 < t && 0 <= c2 < ch ==> nv@[t2 * (ch as int) + c2] == (if t2
                    < outs@.len() {
                    outs@[t2]@[c2]
                } else {
                    v@[t2 * (ch as int) + c2]
                }),
        decreases cap - t,
    {
        let mut c: usize = 0;
        while c < ch
            invariant
                c <= ch,
                t < cap,
                ch > 0,
                n == v@.len(),
                cap == n as int / ch as int,
                n as int == (ch as int) * (cap as int),
                outs@.len() <= cap,
                forall|i: int| 0 <= i < outs@.len() ==> (#[trigger] outs@[i])@.len() == ch as nat,
                nv@.len() == t * ch + c,
                forall|t2: int, c2: int|
                    #![trigger nv@[t2 * (ch as int) + c2]]
                    0 <= t2 < t && 0 <= c2 < ch ==> nv@[t2 * (ch as int) + c2] == (if t2
                        < outs@.len() {
                        outs@[t2]@[c2]
                    } else {
                        v@[t2 * (ch as int) + c2]
                    }),
                forall|c2: int|
                    #![trigger nv@[t * (ch as int) + c2]]
                    0 <= c2 < c ==> nv@[t * (ch as int) + c2] == (if (t as int) < outs@.len() {
                        outs@[t as int]@[c2]
                    } else {
                        v@[t * (ch as int) + c2]
                    }),
            decreases ch - c,
        {
            proof {
                assert(t * ch + c < n && t * ch + c >= 0) by (nonlinear_arith)
                    requires
                        0 <= t < cap,
                        0 <= c < ch,
                        n as int == (ch as int) * (cap as int),
                ;
            }
            let x: i32 = if t < outs.len() {
                outs[t][c]
            } else {
                v[t * ch + c]
            };
            nv.push(x);
            proof {
                assert forall|t2: int, c2: int|
                    #![trigger nv@[t2 * (ch as int) + c2]]
                    0 <= t2 < t && 0 <= c2 < ch implies t2 * (ch as int) + c2 < t * ch
                    + c by {
                    assert(t2 * (ch as int) + c2 < t * (ch as int) + c) by (nonlinear_arith)
                        requires
                            0 <= t2 < t,
                            0 <= c2 < ch,
                            0 <= c,
                    ;
                }
            }
            c += 1;
        }
        t += 1;
        proof {
            assert((t - 1) * ch + ch == t * ch) by (nonlinear_arith);
        }
    }
    proof {
        assert(cap * ch == n as int) by (nonlinear_arith)
            requires
                n as int == (ch as int) * (cap as int),
                ;
    }
    nv
}

/// The per-channel contents of a planar output buffer after the frames
/// of `outs` are written over its head.
fn build_rows(vs: &Vec<Vec<i32>>, outs: &Vec<Vec<i32>>, ch: usize) -> (nvs: Vec<Vec<i32>>)
    requires
        ch > 0,
        vs@.len() == ch as nat,
        forall|c: int| #![trigger vs@[c]] 0 <= c < vs@.len() ==> vs@[c]@.len() == vs@[0]@.len(),
        outs@.len() <= vs@[0]@.len(),
        forall|i: int| 0 <= i < outs@.len() ==> (#[trigger] outs@[i])@.len() == ch as nat,
    ensures
        nvs@.len() == vs@.len(),
        forall|c: int| #![trigger nvs@[c]] 0 <= c < nvs@.len() ==> nvs@[c]@.len() == vs@[c]@.len(),
        forall|t: int, c: int|
            #![trigger nvs@[c]@[t]]
            0 <= c < ch && 0 <= t < vs@[0]@.len() ==> nvs@[c]@[t] == (if t < outs@.len() {
                outs@[t]@[c]
            } else {
                vs@[c]@[t]
            }),
{
    let rows = vs[0].len();
    let mut nvs: Vec<Vec<i32>> = Vec::new();
    let mut c: usize = 0;
    while c < ch
        invariant
            c <= ch,
            ch > 0,
            vs@.len() == ch as nat,
            forall|i: int| #![trigger vs@[i]] 0 <= i < vs@.len() ==> vs@[i]@.len() == vs@[0]@.len(),
            rows == vs@[0]@.len(),
            outs@.len() <= rows,
            forall|i: int| 0 <= i < outs@.len() ==> (#[trigger] outs@[i])@.len() == ch as nat,
            nvs@.len() == c,
            forall|i: int| #![trigger nvs@[i]] 0 <= i < c ==> nvs@[i]@.len() == rows,
            forall|t2: int, c2: int|
                #![trigger nvs@[c2]@[t2]]
                0 <= c2 < c && 0 <= t2 < rows ==> nvs@[c2]@[t2] == (if t2 < outs@.len() {
                    outs@[t2]@[c2]
                } else {
                    vs@[c2]@[t2]
                }),
        decreases ch - c,
    {
        let mut row: Vec<i32> = Vec::new();
        let mut t: usize = 0;
        while t < rows
            invariant
                t <= rows,
                c < ch,
                vs@.len() == ch as nat,
                forall|i: int|
                    #![trigger vs@[i]]
                    0 <= i < vs@.len() ==> vs@[i]@.len() == vs@[0]@.len(),
                rows == vs@[0]@.len(),
                outs@.len() <= rows,
                forall|i: int| 0 <= i < outs@.len() ==> (#[trigger] outs@[i])@.len() == ch as nat,
                row@.len() == t,
                forall|t2: int|
                    0 <= t2 < t ==> #[trigger] row@[t2] == (if t2 < outs@.len() {
                        outs@[t2]@[c as int]
                    } else {
                        vs@[c as int]@[t2]
                    }),
            decreases rows - t,
        {
            let x: i32 = if t < outs.len() {
                outs[t][c]
            } else {
                vs[c][t]
            };
            row.push(x);
            t += 1;
        }
        nvs.push(row);
        c += 1;
    }
    nvs
}

/// Writes the frames of `outs` over the head of the output buffer,
/// leaving its shape and its unwritten tail as they were.
fn scatter(output: &mut SampleBufferMut, outs: &Vec<Vec<i32>>, ch: usize)
    requires
        ch > 0,
        old(output).channels_ok(ch as nat),
        old(output).lengths_ok(ch as nat),
        outs@.len() <= old(output).spec_frames(ch as nat),
        forall|i: int| 0 <= i < outs@.len() ==> (#[trigger] outs@[i])@.len() == ch as nat,
    ensures
        final(output).same_shape(*old(output)),
        forall|t: int, c: int|
            0 <= t < outs@.len() && 0 <= c < ch ==> #[trigger] final(output).spec_sample(
                ch as nat,
                t,
                c,
            ) == outs@[t]@[c],
        forall|t: int, c: int|
            outs@.len() <= t < old(output).spec_frames(ch as nat) && 0 <= c < ch
                ==> #[trigger] final(output).spec_sample(ch as nat, t, c) == old(
                output,
            ).spec_sample(ch as nat, t, c),
{
    let nv: SampleBufferMut = match &*output {
        SampleBufferMut::Packed(v) => SampleBufferMut::Packed(build_flat(v, outs, ch)),
        SampleBufferMut::Planar(vs) => SampleBufferMut::Planar(build_rows(vs, outs, ch)),
    };
    *output = nv;
}

} // verus!
