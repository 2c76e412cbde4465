//! The second-order section that every filter of this crate is built from.

use vstd::prelude::*;
use crate::base::lemma_mod_distinct;
use crate::base::lemma_mod_round;
use crate::base::lemma_mod_successor;
use crate::base::lemma_product_range;
use crate::base::valid_channels;
use crate::base::Error;
use crate::base::Format;
use crate::base::MAX_CHANNELS;
use crate::filters::Filter;
use crate::frames::ensure_frames_compat;
use crate::frames::samples_s16;
use crate::frames::Frames;
use crate::frames::FramesMut;

verus! {

/// Number of fraction bits of a fixed-point coefficient.
pub const FIXED_POINT_SHIFT: u32 = 14;

/// The fixed-point coefficient that stands for the number one.
pub const FIXED_POINT_ONE: i32 = 16384;

/// Frames by which a second-order section delays its input.
pub const BIQUAD_LATENCY: u32 = 2;

/// The five coefficients of a second-order section, in 2.14 fixed point and
/// already divided by the leading denominator coefficient.
#[derive(Clone, Copy, Debug, PartialEq, Eq, Structural)]
pub struct BiquadCoefficients {
    /// Weight of the current input sample.
    pub b0: i32,
    /// Weight of the input one frame back.
    pub b1: i32,
    /// Weight of the input two frames back.
    pub b2: i32,
    /// Weight of the output one frame back.
    pub a1: i32,
    /// Weight of the output two frames back.
    pub a2: i32,
}

impl BiquadCoefficients {
    /// The coefficients under which a section hands its input on unchanged:
    /// `b0` is one and the others are zero.
    pub open spec fn is_passthrough(self) -> bool {
        self.b0 == FIXED_POINT_ONE && self.b1 == 0 && self.b2 == 0 && self.a1 == 0 && self.a2 == 0
    }

    /// Bundles five fixed-point coefficients.
    pub fn new(b0: i32, b1: i32, b2: i32, a1: i32, a2: i32) -> (r: Self)
        ensures
            r == (BiquadCoefficients { b0, b1, b2, a1, a2 }),
    {
        BiquadCoefficients { b0, b1, b2, a1, a2 }
    }

    /// The coefficients under which a section hands its input on unchanged.
    pub fn passthrough() -> (r: Self)
        ensures
            r.is_passthrough(),
    {
        BiquadCoefficients { b0: FIXED_POINT_ONE, b1: 0, b2: 0, a1: 0, a2: 0 }
    }
}

/// `v` brought into the range of a 16-bit sample.
pub open spec fn clamp_s16(v: int) -> i16 {
    if v < -32768 {
        -32768i16
    } else if v > 32767 {
        32767i16
    } else {
        v as i16
    }
}

/// The two delay registers of one channel. Both are zero in a fresh section.
pub type Registers = (int, int);

/// Whether a pair of delay registers is within the magnitudes that any
/// coefficients and any 16-bit samples can drive it to.
pub open spec fn registers_in_range(r: Registers) -> bool {
    &&& -0x1_0000_0000_0000 <= r.0 <= 0x1_0000_0000_0000
    &&& -0x8000_0000_0000 <= r.1 <= 0x8000_0000_0000
}

/// One sample through a section, in transposed direct form II.
///
/// The output is `b0 * x` plus the first register, scaled back from fixed
/// point (rounding down) and saturated to 16 bits. The registers then take
/// up what the next two outputs owe to this input and this output, so that
/// over a run of samples
/// `y[n] = b0*x[n] + b1*x[n-1] + b2*x[n-2] - a1*y[n-1] - a2*y[n-2]`.
pub open spec fn biquad_step(c: BiquadCoefficients, r: Registers, x: i16) -> (i16, Registers) {
    let y = clamp_s16((c.b0 * x + r.0) / 16384);
    (y, (c.b1 * x - c.a1 * y + r.1, c.b2 * x - c.a2 * y))
}

/// The first `count` interleaved samples of `input` through a section with
/// one pair of registers per channel: the samples that come out, and the
/// registers afterwards.
pub open spec fn biquad_run(
    c: BiquadCoefficients,
    registers: Seq<Registers>,
    input: Seq<i16>,
    count: nat,
) -> (Seq<i16>, Seq<Registers>)
    decreases count,
{
    if count == 0 {
        (Seq::empty(), registers)
    } else {
        let (out, regs) = biquad_run(c, registers, input, (count - 1) as nat);
        let channel = (count - 1) % (registers.len() as int);
        let (y, r) = biquad_step(c, regs[channel], input[count - 1]);
        (out.push(y), regs.update(channel, r))
    }
}

/// What a section is, apart from how it is stored.
pub struct BiquadView {
    /// The format the section was set up for.
    pub format: Format,
    /// The channel count the section was set up for.
    pub channels: u32,
    /// The coefficients in effect.
    pub coefficients: BiquadCoefficients,
    /// The delay registers, one pair per channel.
    pub registers: Seq<Registers>,
}

impl BiquadView {
    /// A section for 16-bit samples with one pair of registers, within
    /// range, for each of its channels.
    pub open spec fn wf(self) -> bool {
        &&& self.format == Format::S16
        &&& valid_channels(self.channels)
        &&& self.registers.len() == self.channels
        &&& forall|i: int| 0 <= i < self.registers.len() ==> registers_in_range(#[trigger] self.registers[i])
    }

    /// The samples that the section makes of `input`.
    pub open spec fn output(self, input: Seq<i16>) -> Seq<i16> {
        biquad_run(self.coefficients, self.registers, input, input.len()).0
    }

    /// The section after it has filtered `input`.
    pub open spec fn after(self, input: Seq<i16>) -> BiquadView {
        BiquadView {
            registers: biquad_run(self.coefficients, self.registers, input, input.len()).1,
            ..self
        }
    }
}

/// Whether every delay register is zero, as in a section that has filtered
/// nothing yet.
pub open spec fn at_rest(registers: Seq<Registers>) -> bool {
    forall|i: int| 0 <= i < registers.len() ==> #[trigger] registers[i] == (0int, 0int)
}

/// A section at rest whose `b0` is one and whose other coefficients are
/// zero hands every sample on exactly as it came, and stays at rest.
pub proof fn lemma_passthrough_is_identity(section: BiquadView, input: Seq<i16>)
    requires
        section.wf(),
        section.coefficients.is_passthrough(),
        at_rest(section.registers),
    ensures
        section.output(input) == input,
        section.after(input) == section,
{
    lemma_passthrough_run(section, input, input.len());
}

proof fn lemma_passthrough_run(section: BiquadView, input: Seq<i16>, count: nat)
    requires
        section.wf(),
        section.coefficients.is_passthrough(),
        at_rest(section.registers),
        count <= input.len(),
    ensures
        biquad_run(section.coefficients, section.registers, input, count) == (
            input.take(count as int),
            section.registers,
        ),
    decreases count,
{
    if count > 0 {
        lemma_passthrough_run(section, input, (count - 1) as nat);
    }
}

/// Over a run of samples a section computes the difference equation
/// `y[n] = b0*x[n] + b1*x[n-1] + b2*x[n-2] - a1*y[n-1] - a2*y[n-2]`
/// in fixed point: from the third sample on, what comes out of two steps'
/// worth of registers is that sum, scaled back and saturated. Here `x2, x1,
/// x0` are three successive inputs of one channel and `y2, y1` the outputs
/// for the first two.
pub proof fn lemma_difference_equation(
    c: BiquadCoefficients,
    r: Registers,
    x2: i16,
    x1: i16,
    x0: i16,
)
    ensures
        ({
            let (y2, r2) = biquad_step(c, r, x2);
            let (y1, r1) = biquad_step(c, r2, x1);
            let (y0, r0) = biquad_step(c, r1, x0);
            y0 == clamp_s16(
                (c.b0 * x0 + c.b1 * x1 + c.b2 * x2 - c.a1 * y1 - c.a2 * y2) / 16384,
            )
        }),
{
}

/// Every channel of a run obeys the difference equation
/// `y[n] = b0*x[n] + b1*x[n-1] + b2*x[n-2] - a1*y[n-1] - a2*y[n-2]`
/// in fixed point: from the third frame on, the sample at position `k` of
/// the output is that sum over the inputs and outputs of the same channel
/// one and two frames back, scaled back and saturated.
pub proof fn lemma_run_difference_equation(section: BiquadView, input: Seq<i16>, k: int)
    requires
        section.wf(),
        2 * section.channels <= k < input.len(),
    ensures
        ({
            let y = section.output(input);
            let c = section.coefficients;
            let frame = section.channels as int;
            y[k] == clamp_s16(
                (c.b0 * input[k] + c.b1 * input[k - frame] + c.b2 * input[k - 2 * frame] - c.a1
                    * y[k - frame] - c.a2 * y[k - 2 * frame]) / 16384,
            )
        }),
{
    let c = section.coefficients;
    let regs = section.registers;
    let frame = section.channels as int;
    let n = input.len();
    let k1 = k - frame;
    let k2 = k - 2 * frame;
    let channel = k % frame;
    lemma_mod_round(k1, frame);
    lemma_mod_round(k2, frame);
    lemma_run_sample(c, regs, input, n, k);
    lemma_run_sample(c, regs, input, n, k1);
    lemma_run_sample(c, regs, input, n, k2);
    lemma_run_register_rests(c, regs, input, k1, k as nat);
    lemma_run_register_rests(c, regs, input, k2, k1 as nat);
    let r = biquad_run(c, regs, input, k2 as nat).1[channel];
    lemma_difference_equation(c, r, input[k2], input[k1], input[k]);
}

/// The sample at position `j` of a run is what one step makes of the input
/// at `j` and the registers its channel has by then, however far the run
/// goes on.
proof fn lemma_run_sample(
    c: BiquadCoefficients,
    registers: Seq<Registers>,
    input: Seq<i16>,
    count: nat,
    j: int,
)
    requires
        registers.len() > 0,
        0 <= j < count,
    ensures
        biquad_run(c, registers, input, count).0.len() == count,
        biquad_run(c, registers, input, count).1.len() == registers.len(),
        biquad_run(c, registers, input, count).0[j] == biquad_step(
            c,
            biquad_run(c, registers, input, j as nat).1[j % (registers.len() as int)],
            input[j],
        ).0,
    decreases count,
{
    lemma_run_lengths(c, registers, input, (count - 1) as nat);
    if j < count - 1 {
        lemma_run_sample(c, registers, input, (count - 1) as nat, j);
    }
}

proof fn lemma_run_lengths(
    c: BiquadCoefficients,
    registers: Seq<Registers>,
    input: Seq<i16>,
    count: nat,
)
    requires
        registers.len() > 0,
    ensures
        biquad_run(c, registers, input, count).0.len() == count,
        biquad_run(c, registers, input, count).1.len() == registers.len(),
    decreases count,
{
    if count > 0 {
        lemma_run_lengths(c, registers, input, (count - 1) as nat);
    }
}

/// The registers that the step at position `j` leaves to its channel rest
/// until that channel's turn comes again, one frame later.
proof fn lemma_run_register_rests(
    c: BiquadCoefficients,
    registers: Seq<Registers>,
    input: Seq<i16>,
    j: int,
    m: nat,
)
    requires
        registers.len() > 0,
        0 <= j < m <= j + registers.len(),
    ensures
        biquad_run(c, registers, input, m).1[j % (registers.len() as int)] == biquad_step(
            c,
            biquad_run(c, registers, input, j as nat).1[j % (registers.len() as int)],
            input[j],
        ).1,
    decreases m,
{
    let frame = registers.len() as int;
    lemma_run_lengths(c, registers, input, (m - 1) as nat);
    if m - 1 > j {
        lemma_run_register_rests(c, registers, input, j, (m - 1) as nat);
        lemma_mod_distinct(j, m - 1, frame);
    }
}

/// What a second-order section is built from.
#[derive(Clone, Copy, Debug)]
pub struct BiquadConfig {
    /// The sample format asked for.
    pub format: Format,
    /// The channel count asked for.
    pub channels: u32,
    /// The coefficients asked for.
    pub coefficients: BiquadCoefficients,
}

impl BiquadConfig {
    /// Whether a section can be built from this configuration: the format is
    /// 16-bit and the channel count is in range.
    pub open spec fn valid(&self) -> bool {
        self.format == Format::S16 && valid_channels(self.channels)
    }

    /// A configuration with the given format, channel count and coefficients.
    pub fn new(format: Format, channels: u32, coefficients: BiquadCoefficients) -> (r: Self)
        ensures
            r == (BiquadConfig { format, channels, coefficients }),
    {
        BiquadConfig { format, channels, coefficients }
    }

    /// The sample format asked for.
    pub fn format(&self) -> (r: Format)
        ensures
            r == self.format,
    {
        self.format
    }

    /// Asks for another sample format.
    pub fn set_format(&mut self, format: Format)
        ensures
            *final(self) == (BiquadConfig { format, ..*old(self) }),
    {
        self.format = format;
    }

    /// The channel count asked for.
    pub fn channels(&self) -> (r: u32)
        ensures
            r == self.channels,
    {
        self.channels
    }

    /// Asks for another channel count.
    pub fn set_channels(&mut self, channels: u32)
        ensures
            *final(self) == (BiquadConfig { channels, ..*old(self) }),
    {
        self.channels = channels;
    }

    /// The coefficients asked for.
    pub fn coefficients(&self) -> (r: BiquadCoefficients)
        ensures
            r == self.coefficients,
    {
        self.coefficients
    }

    /// Asks for other coefficients.
    pub fn set_coefficients(&mut self, coefficients: BiquadCoefficients)
        ensures
            *final(self) == (BiquadConfig { coefficients, ..*old(self) }),
    {
        self.coefficients = coefficients;
    }
}

/// A second-order recursive filter section with its per-channel state.
#[derive(Clone)]
pub struct Biquad {
    format: Format,
    channels: u32,
    coefficients: BiquadCoefficients,
    r1: Vec<i64>,
    r2: Vec<i64>,
}

pub(crate) fn scale_down(t: i64) -> (y: i64)
    requires
        -0x4_0000_0000_0000 <= t <= 0x4_0000_0000_0000,
    ensures
        y == t / 16384,
{
    let shifted: u64 = (t + 0x4_0000_0000_0000) as u64;
    let quotient: u64 = shifted / 16384;
    (quotient as i64) - 0x10_0000_0000
}

pub(crate) fn saturate_s16(v: i64) -> (y: i16)
    ensures
        y == clamp_s16(v as int),
{
    if v < -32768 {
        -32768
    } else if v > 32767 {
        32767
    } else {
        v as i16
    }
}

fn step(c: &BiquadCoefficients, r1: i64, r2: i64, x: i16) -> (out: (i16, i64, i64))
    requires
        registers_in_range((r1 as int, r2 as int)),
    ensures
        (out.0, (out.1 as int, out.2 as int)) == biquad_step(*c, (r1 as int, r2 as int), x),
        registers_in_range((out.1 as int, out.2 as int)),
{
    let xi: i64 = x as i64;
    proof {
        lemma_product_range(c.b0 as int, x as int, 0x8000_0000, 0x8000);
        lemma_product_range(c.b1 as int, x as int, 0x8000_0000, 0x8000);
        lemma_product_range(c.b2 as int, x as int, 0x8000_0000, 0x8000);
    }
    let y: i16 = saturate_s16(scale_down((c.b0 as i64) * xi + r1));
    let yi: i64 = y as i64;
    proof {
        lemma_product_range(c.a1 as int, y as int, 0x8000_0000, 0x8000);
        lemma_product_range(c.a2 as int, y as int, 0x8000_0000, 0x8000);
    }
    let n1: i64 = (c.b1 as i64) * xi - (c.a1 as i64) * yi + r2;
    let n2: i64 = (c.b2 as i64) * xi - (c.a2 as i64) * yi;
    (y, n1, n2)
}

impl View for Biquad {
    type V = BiquadView;

    closed spec fn view(&self) -> BiquadView {
        BiquadView {
            format: self.format,
            channels: self.channels,
            coefficients: self.coefficients,
            registers: Seq::new(self.r1@.len(), |i: int| (self.r1@[i] as int, self.r2@[i] as int)),
        }
    }
}

impl Biquad {
    /// The section is stored consistently with what it stands for.
    pub closed spec fn wf(&self) -> bool {
        &&& self.r1@.len() == self.r2@.len()
        &&& self@.wf()
    }

    /// A section that is stored consistently stands for a consistent one.
    pub proof fn lemma_wf_view(&self)
        requires
            self.wf(),
        ensures
            self@.wf(),
    {
    }

    /// Builds a section with all delay registers at zero.
    ///
    /// Refused with `InvalidArgs` when the format is not 16-bit or the
    /// channel count is out of range.
    pub fn new(config: &BiquadConfig) -> (r: Result<Biquad, Error>)
        ensures
            config.valid() ==> r is Ok,
            !config.valid() ==> r is Err && r->Err_0 == Error::InvalidArgs,
            r matches Ok(bq) ==> {
                &&& bq.wf()
                &&& bq@.format == config.format
                &&& bq@.channels == config.channels
                &&& bq@.coefficients == config.coefficients
                &&& bq@.registers == Seq::new(config.channels as nat, |i: int| (0int, 0int))
            },
    {
        if config.format != Format::S16 || config.channels < 1 || config.channels > MAX_CHANNELS {
            return Err(Error::InvalidArgs);
        }
        let mut r1: Vec<i64> = Vec::new();
        let mut r2: Vec<i64> = Vec::new();
        let mut i: u32 = 0;
        while i < config.channels
            invariant
                i <= config.channels,
                r1@.len() == i,
                r2@.len() == i,
                forall|j: int| 0 <= j < i ==> r1@[j] == 0 && r2@[j] == 0,
            decreases config.channels - i,
        {
            r1.push(0);
            r2.push(0);
            i += 1;
        }
        let bq = Biquad {
            format: config.format,
            channels: config.channels,
            coefficients: config.coefficients,
            r1,
            r2,
        };
        Ok(bq)
    }

    /// Puts the coefficients of `config` in effect; the delay registers keep
    /// their values.
    ///
    /// Refused with `InvalidArgs` when `config` could not build a section,
    /// and with `InvalidOperation` when it asks for another format or
    /// channel count than the section has. The section is then unchanged.
    pub fn reinit(&mut self, config: &BiquadConfig) -> (r: Result<(), Error>)
        requires
            old(self).wf(),
        ensures
            final(self).wf(),
            r == Self::reinit_outcome(old(self)@, config),
            r is Ok ==> final(self)@ == (BiquadView {
                coefficients: config.coefficients,
                ..old(self)@
            }),
            r is Err ==> final(self)@ == old(self)@,
    {
        if config.format != Format::S16 || config.channels < 1 || config.channels > MAX_CHANNELS {
            return Err(Error::InvalidArgs);
        }
        if config.format != self.format || config.channels != self.channels {
            return Err(Error::InvalidOperation);
        }
        self.coefficients = config.coefficients;
        Ok(())
    }

    /// What `reinit` answers: see there.
    pub open spec fn reinit_outcome(section: BiquadView, config: &BiquadConfig) -> Result<(), Error> {
        if !config.valid() {
            Err(Error::InvalidArgs)
        } else if config.format != section.format || config.channels
            != section.channels {
            Err(Error::InvalidOperation)
        } else {
            Ok(())
        }
    }

    /// Puts `coefficients` in effect; the delay registers keep their values.
    pub fn set_coefficients(&mut self, coefficients: BiquadCoefficients)
        requires
            old(self).wf(),
        ensures
            final(self).wf(),
            final(self)@ == (BiquadView { coefficients, ..old(self)@ }),
    {
        self.coefficients = coefficients;
    }

    /// Frames by which the section delays its input: always two.
    pub fn latency(&self) -> (r: u32)
        ensures
            r == BIQUAD_LATENCY,
    {
        BIQUAD_LATENCY
    }

    /// The format the section was set up for.
    pub fn format(&self) -> (r: Format)
        ensures
            r == self@.format,
    {
        self.format
    }

    /// The channel count the section was set up for.
    pub fn channels(&self) -> (r: u32)
        ensures
            r == self@.channels,
    {
        self.channels
    }

    /// The coefficients in effect.
    pub fn coefficients(&self) -> (r: BiquadCoefficients)
        ensures
            r == self@.coefficients,
    {
        self.coefficients
    }

    /// Filters the frames of `frames` where they stand.
    ///
    /// Refused with `FormatMismatch`, nothing written, when `frames` has
    /// another format or channel count than the section.
    pub fn process_pcm_frames_in_place(&mut self, frames: &mut FramesMut<'_>) -> (r: Result<
        (),
        Error,
    >)
        requires
            old(self).wf(),
            old(frames).wf(),
        ensures
            final(self).wf(),
            r is Ok <==> old(self)@.format == old(frames).format && old(self)@.channels == old(
                frames,
            ).channels,
            r is Ok ==> {
                &&& samples_s16(final(frames)@) == old(self)@.output(samples_s16(old(frames)@))
                &&& final(self)@ == old(self)@.after(samples_s16(old(frames)@))
            },
            r is Err ==> {
                &&& r->Err_0 == Error::FormatMismatch
                &&& final(frames)@ == old(frames)@
                &&& final(self)@ == old(self)@
            },
            final(frames)@.len() == old(frames)@.len(),
            final(frames).format == old(frames).format,
            final(frames).channels == old(frames).channels,
            final(final(frames).data)@ == final(old(frames).data)@,
    {
        if frames.format() != self.format || frames.channels() != self.channels {
            return Err(Error::FormatMismatch);
        }
        self.run_in_place(frames);
        Ok(())
    }

    pub(crate) fn run_in_place(&mut self, frames: &mut FramesMut<'_>)
        requires
            old(self).wf(),
            old(frames).wf(),
            old(frames).format == old(self)@.format,
            old(frames).channels == old(self)@.channels,
        ensures
            final(self).wf(),
            samples_s16(final(frames)@) == old(self)@.output(samples_s16(old(frames)@)),
            final(self)@ == old(self)@.after(samples_s16(old(frames)@)),
            final(frames)@.len() == old(frames)@.len(),
            final(frames).format == old(frames).format,
            final(frames).channels == old(frames).channels,
            final(final(frames).data)@ == final(old(frames).data)@,
    {
        let count: usize = frames.sample_count();
        let channels: usize = self.channels as usize;
        let ghost input = samples_s16(frames@);
        let ghost before = self@;
        let mut k: usize = 0;
        let mut channel: usize = 0;
        while k < count
            invariant
                k <= count,
                count == input.len(),
                channels == before.channels,
                channel == k % channels,
                self.wf(),
                self@.format == before.format,
                self@.channels == before.channels,
                self@.coefficients == before.coefficients,
                before.wf(),
                frames.format == Format::S16,
                frames.format == old(frames).format,
                frames.channels == old(frames).channels,
                frames@.len() == old(frames)@.len(),
                final(frames.data)@ == final(old(frames).data)@,
                samples_s16(frames@).len() == count,
                samples_s16(frames@).take(k as int) == biquad_run(
                    before.coefficients,
                    before.registers,
                    input,
                    k as nat,
                ).0,
                self@.registers == biquad_run(
                    before.coefficients,
                    before.registers,
                    input,
                    k as nat,
                ).1,
                forall|j: int| k <= j < count ==> samples_s16(frames@)[j] == input[j],
            decreases count - k,
        {
            let x: i16 = frames.sample_s16(k);
            assert(registers_in_range(self@.registers[channel as int]));
            let (y, n1, n2) = step(&self.coefficients, self.r1[channel], self.r2[channel], x);
            self.r1[channel] = n1;
            self.r2[channel] = n2;
            frames.set_sample_s16(k, y);
            proof {
                let prev = biquad_run(before.coefficients, before.registers, input, k as nat);
                assert(self@.registers =~= prev.1.update(channel as int, (n1 as int, n2 as int)));
            }
            proof {
                lemma_mod_successor(k as int, channels as int);
            }
            k += 1;
            channel += 1;
            if channel == channels {
                channel = 0;
            }
        }
    }
}

impl Filter for Biquad {
    open spec fn wf(&self) -> bool {
        Biquad::wf(self)
    }

    open spec fn accepts(&self, format: Format, channels: u32) -> bool {
        self@.format == format && self@.channels == channels
    }

    /// Filters `input` into `output`; see [`Filter::process_pcm_frames`] for
    /// when the call is refused.
    fn process_pcm_frames(&mut self, output: &mut FramesMut<'_>, input: &Frames<'_>) -> (r: Result<
        (),
        Error,
    >)
        ensures
            r is Ok ==> {
                &&& samples_s16(final(output)@) == old(self)@.output(samples_s16(input@))
                &&& final(self)@ == old(self)@.after(samples_s16(input@))
            },
            r is Err ==> final(self)@ == old(self)@,
    {
        match ensure_frames_compat(output, input) {
            Err(e) => {
                return Err(e);
            },
            Ok(_) => {},
        }
        if input.format() != self.format || input.channels() != self.channels {
            return Err(Error::FormatMismatch);
        }
        output.copy_from(input);
        self.run_in_place(output);
        Ok(())
    }
}

} // verus!
