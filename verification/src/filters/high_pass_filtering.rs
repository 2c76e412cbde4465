//! High-pass filters of order one, two, and any order up to eight.

use vstd::prelude::*;
use crate::base::lemma_mod_distinct;
use crate::base::lemma_mod_round;
use crate::base::lemma_mod_successor;
use crate::base::lemma_product_range;
use crate::base::valid_channels;
use crate::base::Error;
use crate::base::Format;
use crate::base::MAX_CHANNELS;
use crate::base::MAX_FILTER_ORDER;
use crate::filters::biquad_filtering::clamp_s16;
use crate::filters::biquad_filtering::saturate_s16;
use crate::filters::biquad_filtering::scale_down;
use crate::filters::biquad_filtering::Biquad;
use crate::filters::biquad_filtering::BiquadCoefficients;
use crate::filters::biquad_filtering::BiquadConfig;
use crate::filters::biquad_filtering::BiquadView;
use crate::filters::biquad_filtering::BIQUAD_LATENCY;
use crate::filters::Filter;
use crate::frames::ensure_frames_compat;
use crate::frames::samples_s16;
use crate::frames::Frames;
use crate::frames::FramesMut;

verus! {

/// Frames by which a first-order section delays its input.
pub const HPF1_LATENCY: u32 = 1;

/// Configuration for a first order high-pass filter.
///
/// Frequencies and quality factors are kept as the bit patterns of
/// double-precision numbers, exactly as the caller gave them.
#[derive(Clone, Copy, Debug)]
pub struct HPF1Config {
    /// The sample format asked for.
    pub format: Format,
    /// The channel count asked for.
    pub channels: u32,
    /// Frames per second of the stream to be filtered.
    pub sample_rate: u32,
    /// Cutoff frequency in hertz.
    pub cutoff_frequency: u64,
    /// Quality factor; a first-order section has no use for it.
    pub q: u64,
}

impl HPF1Config {
    /// Whether a filter can be built from this configuration: the format is
    /// 16-bit and the channel count is in range.
    pub open spec fn valid(&self) -> bool {
        self.format == Format::S16 && valid_channels(self.channels)
    }

    /// A configuration with the given values and a quality factor of zero.
    pub fn new(format: Format, channels: u32, sample_rate: u32, cutoff_frequency: u64) -> (r:
        HPF1Config)
        ensures
            r == (HPF1Config { format, channels, sample_rate, cutoff_frequency, q: 0 }),
    {
        HPF1Config { format, channels, sample_rate, cutoff_frequency, q: 0 }
    }

    /// The sample format asked for.
    #[inline]
    pub fn format(&self) -> (r: Format)
        ensures
            r == self.format,
    {
        self.format
    }

    /// Asks for another sample format.
    #[inline]
    pub fn set_format(&mut self, format: Format)
        ensures
            *final(self) == (HPF1Config { format, ..*old(self) }),
    {
        self.format = format;
    }

    /// The channel count asked for.
    #[inline]
    pub fn channels(&self) -> (r: u32)
        ensures
            r == self.channels,
    {
        self.channels
    }

    /// Asks for another channel count.
    #[inline]
    pub fn set_channels(&mut self, channels: u32)
        ensures
            *final(self) == (HPF1Config { channels, ..*old(self) }),
    {
        self.channels = channels;
    }

    /// Frames per second of the stream to be filtered.
    #[inline]
    pub fn sample_rate(&self) -> (r: u32)
        ensures
            r == self.sample_rate,
    {
        self.sample_rate
    }

    /// Sets the frames per second of the stream to be filtered.
    #[inline]
    pub fn set_sample_rate(&mut self, sample_rate: u32)
        ensures
            *final(self) == (HPF1Config { sample_rate, ..*old(self) }),
    {
        self.sample_rate = sample_rate;
    }

    /// Cutoff frequency in hertz.
    #[inline]
    pub fn cutoff_frequency(&self) -> (r: u64)
        ensures
            r == self.cutoff_frequency,
    {
        self.cutoff_frequency
    }

    /// Sets the cutoff frequency in hertz.
    #[inline]
    pub fn set_cutoff_frequency(&mut self, cutoff_frequency: u64)
        ensures
            *final(self) == (HPF1Config { cutoff_frequency, ..*old(self) }),
    {
        self.cutoff_frequency = cutoff_frequency;
    }

    /// Quality factor.
    #[inline]
    pub fn q(&self) -> (r: u64)
        ensures
            r == self.q,
    {
        self.q
    }

    /// Sets the quality factor.
    #[inline]
    pub fn set_q(&mut self, q: u64)
        ensures
            *final(self) == (HPF1Config { q, ..*old(self) }),
    {
        self.q = q;
    }
}

/// Configuration for a second order high-pass filter.
///
/// Frequencies and quality factors are kept as the bit patterns of
/// double-precision numbers, exactly as the caller gave them.
#[derive(Clone, Copy, Debug)]
pub struct HPF2Config {
    /// The sample format asked for.
    pub format: Format,
    /// The channel count asked for.
    pub channels: u32,
    /// Frames per second of the stream to be filtered.
    pub sample_rate: u32,
    /// Cutoff frequency in hertz.
    pub cutoff_frequency: u64,
    /// Quality factor.
    pub q: u64,
}

impl HPF2Config {
    /// Whether a filter can be built from this configuration: the format is
    /// 16-bit and the channel count is in range.
    pub open spec fn valid(&self) -> bool {
        self.format == Format::S16 && valid_channels(self.channels)
    }

    /// A configuration with the given values.
    pub fn new(format: Format, channels: u32, sample_rate: u32, cutoff_frequency: u64, q: u64) -> (r:
        HPF2Config)
        ensures
            r == (HPF2Config { format, channels, sample_rate, cutoff_frequency, q }),
    {
        HPF2Config { format, channels, sample_rate, cutoff_frequency, q }
    }

    /// The sample format asked for.
    #[inline]
    pub fn format(&self) -> (r: Format)
        ensures
            r == self.format,
    {
        self.format
    }

    /// Asks for another sample format.
    #[inline]
    pub fn set_format(&mut self, format: Format)
        ensures
            *final(self) == (HPF2Config { format, ..*old(self) }),
    {
        self.format = format;
    }

    /// The channel count asked for.
    #[inline]
    pub fn channels(&self) -> (r: u32)
        ensures
            r == self.channels,
    {
        self.channels
    }

    /// Asks for another channel count.
    #[inline]
    pub fn set_channels(&mut self, channels: u32)
        ensures
            *final(self) == (HPF2Config { channels, ..*old(self) }),
    {
        self.channels = channels;
    }

    /// Frames per second of the stream to be filtered.
    #[inline]
    pub fn sample_rate(&self) -> (r: u32)
        ensures
            r == self.sample_rate,
    {
        self.sample_rate
    }

    /// Sets the frames per second of the stream to be filtered.
    #[inline]
    pub fn set_sample_rate(&mut self, sample_rate: u32)
        ensures
            *final(self) == (HPF2Config { sample_rate, ..*old(self) }),
    {
        self.sample_rate = sample_rate;
    }

    /// Cutoff frequency in hertz.
    #[inline]
    pub fn cutoff_frequency(&self) -> (r: u64)
        ensures
            r == self.cutoff_frequency,
    {
        self.cutoff_frequency
    }

    /// Sets the cutoff frequency in hertz.
    #[inline]
    pub fn set_cutoff_frequency(&mut self, cutoff_frequency: u64)
        ensures
            *final(self) == (HPF2Config { cutoff_frequency, ..*old(self) }),
    {
        self.cutoff_frequency = cutoff_frequency;
    }

    /// Quality factor.
    #[inline]
    pub fn q(&self) -> (r: u64)
        ensures
            r == self.q,
    {
        self.q
    }

    /// Sets the quality factor.
    #[inline]
    pub fn set_q(&mut self, q: u64)
        ensures
            *final(self) == (HPF2Config { q, ..*old(self) }),
    {
        self.q = q;
    }
}

/// One sample through a first-order section with coefficient `a` in 2.14
/// fixed point and the previous output `r`:
/// `y[n] = a*x[n] - (1 - a)*y[n-1]`, rounded down and saturated to 16 bits.
pub open spec fn hpf1_step(a: i32, r: i16, x: i16) -> i16 {
    clamp_s16((a * x - (16384 - a) * r) / 16384)
}

/// The first `count` interleaved samples of `input` through a first-order
/// section with one register per channel: the samples that come out, and
/// the registers afterwards.
pub open spec fn hpf1_run(a: i32, registers: Seq<i16>, input: Seq<i16>, count: nat) -> (
    Seq<i16>,
    Seq<i16>,
)
    decreases count,
{
    if count == 0 {
        (Seq::empty(), registers)
    } else {
        let (out, regs) = hpf1_run(a, registers, input, (count - 1) as nat);
        let channel = (count - 1) % (registers.len() as int);
        let y = hpf1_step(a, regs[channel], input[count - 1]);
        (out.push(y), regs.update(channel, y))
    }
}

/// Every channel of a run obeys the recurrence
/// `y[n] = a*x[n] - (1 - a)*y[n-1]` in fixed point: from the second frame
/// on, the sample at position `k` of the output is one step from the input
/// at `k` and the output of the same channel one frame back.
pub proof fn lemma_hpf1_run_recurrence(section: HPF1View, input: Seq<i16>, k: int)
    requires
        section.wf(),
        section.channels <= k < input.len(),
    ensures
        ({
            let y = section.output(input);
            y[k] == hpf1_step(section.coefficient, y[k - section.channels], input[k])
        }),
{
    let a = section.coefficient;
    let regs = section.registers;
    let frame = section.channels as int;
    let k1 = k - frame;
    lemma_mod_round(k1, frame);
    lemma_hpf1_run_sample(a, regs, input, input.len(), k);
    lemma_hpf1_run_sample(a, regs, input, input.len(), k1);
    lemma_hpf1_run_register_rests(a, regs, input, k1, k as nat);
}

proof fn lemma_hpf1_run_sample(a: i32, registers: Seq<i16>, input: Seq<i16>, count: nat, j: int)
    requires
        registers.len() > 0,
        0 <= j < count,
    ensures
        hpf1_run(a, registers, input, count).0.len() == count,
        hpf1_run(a, registers, input, count).1.len() == registers.len(),
        hpf1_run(a, registers, input, count).0[j] == hpf1_step(
            a,
            hpf1_run(a, registers, input, j as nat).1[j % (registers.len() as int)],
            input[j],
        ),
    decreases count,
{
    lemma_hpf1_run_lengths(a, registers, input, (count - 1) as nat);
    if j < count - 1 {
        lemma_hpf1_run_sample(a, registers, input, (count - 1) as nat, j);
    }
}

proof fn lemma_hpf1_run_lengths(a: i32, registers: Seq<i16>, input: Seq<i16>, count: nat)
    requires
        registers.len() > 0,
    ensures
        hpf1_run(a, registers, input, count).0.len() == count,
        hpf1_run(a, registers, input, count).1.len() == registers.len(),
    decreases count,
{
    if count > 0 {
        lemma_hpf1_run_lengths(a, registers, input, (count - 1) as nat);
    }
}

proof fn lemma_hpf1_run_register_rests(
    a: i32,
    registers: Seq<i16>,
    input: Seq<i16>,
    j: int,
    m: nat,
)
    requires
        registers.len() > 0,
        0 <= j < m <= j + registers.len(),
    ensures
        hpf1_run(a, registers, input, m).1[j % (registers.len() as int)] == hpf1_step(
            a,
            hpf1_run(a, registers, input, j as nat).1[j % (registers.len() as int)],
            input[j],
        ),
    decreases m,
{
    let frame = registers.len() as int;
    lemma_hpf1_run_lengths(a, registers, input, (m - 1) as nat);
    if m - 1 > j {
        lemma_hpf1_run_register_rests(a, registers, input, j, (m - 1) as nat);
        lemma_mod_distinct(j, m - 1, frame);
    }
}

/// What a first-order section is, apart from how it is stored.
pub struct HPF1View {
    /// The format the section was set up for.
    pub format: Format,
    /// The channel count the section was set up for.
    pub channels: u32,
    /// The coefficient in effect, in 2.14 fixed point.
    pub coefficient: i32,
    /// The previous output of each channel.
    pub registers: Seq<i16>,
}

impl HPF1View {
    /// A section for 16-bit samples with one register for each of its
    /// channels.
    pub open spec fn wf(self) -> bool {
        &&& self.format == Format::S16
        &&& valid_channels(self.channels)
        &&& self.registers.len() == self.channels
    }

    /// The samples that the section makes of `input`.
    pub open spec fn output(self, input: Seq<i16>) -> Seq<i16> {
        hpf1_run(self.coefficient, self.registers, input, input.len()).0
    }

    /// The section after it has filtered `input`.
    pub open spec fn after(self, input: Seq<i16>) -> HPF1View {
        HPF1View {
            registers: hpf1_run(self.coefficient, self.registers, input, input.len()).1,
            ..self
        }
    }

    /// Frames by which the section delays its input.
    pub open spec fn latency(self) -> nat {
        HPF1_LATENCY as nat
    }
}

/// First order high-pass filter.
#[derive(Clone)]
pub struct HPF1 {
    format: Format,
    channels: u32,
    coefficient: i32,
    r1: Vec<i16>,
}

fn first_order_step(a: i32, r: i16, x: i16) -> (y: i16)
    ensures
        y == hpf1_step(a, r, x),
{
    proof {
        lemma_product_range(a as int, x as int, 0x8000_0000, 0x8000);
        lemma_product_range(16384 - a, r as int, 0x1_0000_0000, 0x8000);
    }
    let forward: i64 = (a as i64) * (x as i64);
    let back: i64 = (16384 - (a as i64)) * (r as i64);
    saturate_s16(scale_down(forward - back))
}

impl View for HPF1 {
    type V = HPF1View;

    closed spec fn view(&self) -> HPF1View {
        HPF1View {
            format: self.format,
            channels: self.channels,
            coefficient: self.coefficient,
            registers: self.r1@,
        }
    }
}

impl HPF1 {
    /// The filter is stored consistently with what it stands for.
    pub closed spec fn wf(&self) -> bool {
        self@.wf()
    }

    /// A filter that is stored consistently stands for a consistent one.
    pub proof fn lemma_wf_view(&self)
        requires
            self.wf(),
        ensures
            self@.wf(),
    {
    }

    pub(crate) fn build(format: Format, channels: u32, coefficient: i32) -> (r: HPF1)
        requires
            format == Format::S16,
            valid_channels(channels),
        ensures
            r.wf(),
            r@ == (HPF1View {
                format,
                channels,
                coefficient,
                registers: Seq::new(channels as nat, |i: int| 0i16),
            }),
    {
        let mut r1: Vec<i16> = Vec::new();
        let mut i: u32 = 0;
        while i < channels
            invariant
                i <= channels,
                r1@.len() == i,
                forall|j: int| 0 <= j < i ==> r1@[j] == 0,
            decreases channels - i,
        {
            r1.push(0);
            i += 1;
        }
        assert(r1@ =~= Seq::new(channels as nat, |i: int| 0i16));
        HPF1 { format, channels, coefficient, r1 }
    }

    /// Builds a filter that runs `coefficient`, the fixed-point solution of
    /// `config`, with all registers at zero.
    ///
    /// Refused with `InvalidArgs` when the format is not 16-bit or the
    /// channel count is out of range.
    pub fn new(config: &HPF1Config, coefficient: i32) -> (r: Result<HPF1, Error>)
        ensures
            config.valid() ==> r is Ok,
            !config.valid() ==> r is Err && r->Err_0 == Error::InvalidArgs,
            r matches Ok(f) ==> f.wf() && f@ == (HPF1View {
                format: config.format,
                channels: config.channels,
                coefficient,
                registers: Seq::new(config.channels as nat, |i: int| 0i16),
            }),
    {
        if config.format != Format::S16 || config.channels < 1 || config.channels > MAX_CHANNELS {
            return Err(Error::InvalidArgs);
        }
        Ok(HPF1::build(config.format, config.channels, coefficient))
    }

    /// What `reinit` answers: see there.
    pub open spec fn reinit_outcome(filter: HPF1View, config: &HPF1Config) -> Result<(), Error> {
        if !config.valid() {
            Err(Error::InvalidArgs)
        } else if config.format != filter.format || config.channels != filter.channels {
            Err(Error::InvalidOperation)
        } else {
            Ok(())
        }
    }

    /// Puts `coefficient`, the fixed-point solution of `config`, in effect;
    /// the registers keep their values.
    ///
    /// Refused with `InvalidArgs` when `config` could not build a filter,
    /// and with `InvalidOperation` when it asks for another format or
    /// channel count than the filter has. The filter is then unchanged.
    pub fn reinit(&mut self, config: &HPF1Config, coefficient: i32) -> (r: Result<(), Error>)
        requires
            old(self).wf(),
        ensures
            final(self).wf(),
            r == Self::reinit_outcome(old(self)@, config),
            r is Ok ==> final(self)@ == (HPF1View { coefficient, ..old(self)@ }),
            r is Err ==> final(self)@ == old(self)@,
    {
        if config.format != Format::S16 || config.channels < 1 || config.channels > MAX_CHANNELS {
            return Err(Error::InvalidArgs);
        }
        if config.format != self.format || config.channels != self.channels {
            return Err(Error::InvalidOperation);
        }
        self.coefficient = coefficient;
        Ok(())
    }

    pub(crate) fn set_coefficient(&mut self, coefficient: i32)
        requires
            old(self).wf(),
        ensures
            final(self).wf(),
            final(self)@ == (HPF1View { coefficient, ..old(self)@ }),
    {
        self.coefficient = coefficient;
    }

    /// Frames by which the filter delays its input: always one.
    pub fn latency(&self) -> (r: u32)
        ensures
            r == self@.latency(),
    {
        HPF1_LATENCY
    }

    /// The coefficient in effect, in 2.14 fixed point.
    pub fn coefficient(&self) -> (r: i32)
        ensures
            r == self@.coefficient,
    {
        self.coefficient
    }

    /// Filters the frames of `frames` where they stand.
    ///
    /// Refused with `FormatMismatch`, nothing written, when `frames` has
    /// another format or channel count than the filter.
    pub fn process_pcm_frames_in_place(&mut self, frames: &mut FramesMut<'_>) -> (r: Result<
        (),
        Error,
    >)
        requires
            old(self).wf(),
            old(frames).wf(),
        ensures
            final(self).wf(),
            r is Ok <==> old(self)@.format == old(frames).format && old(self)@.channels == old(
                frames,
            ).channels,
            r is Ok ==> {
                &&& samples_s16(final(frames)@) == old(self)@.output(samples_s16(old(frames)@))
                &&& final(self)@ == old(self)@.after(samples_s16(old(frames)@))
            },
            r is Err ==> {
                &&& r->Err_0 == Error::FormatMismatch
                &&& final(frames)@ == old(frames)@
                &&& final(self)@ == old(self)@
            },
            final(frames)@.len() == old(frames)@.len(),
            final(frames).format == old(frames).format,
            final(frames).channels == old(frames).channels,
            final(final(frames).data)@ == final(old(frames).data)@,
    {
        if frames.format() != self.format || frames.channels() != self.channels {
            return Err(Error::FormatMismatch);
        }
        self.run_in_place(frames);
        Ok(())
    }

    pub(crate) fn run_in_place(&mut self, frames: &mut FramesMut<'_>)
        requires
            old(self).wf(),
            old(frames).wf(),
            old(frames).format == old(self)@.format,
            old(frames).channels == old(self)@.channels,
        ensures
            final(self).wf(),
            samples_s16(final(frames)@) == old(self)@.output(samples_s16(old(frames)@)),
            final(self)@ == old(self)@.after(samples_s16(old(frames)@)),
            final(frames)@.len() == old(frames)@.len(),
            final(frames).format == old(frames).format,
            final(frames).channels == old(frames).channels,
            final(final(frames).data)@ == final(old(frames).data)@,
    {
        let count: usize = frames.sample_count();
        let channels: usize = self.channels as usize;
        let ghost input = samples_s16(frames@);
        let ghost before = self@;
        let mut k: usize = 0;
        let mut channel: usize = 0;
        while k < count
            invariant
                k <= count,
                count == input.len(),
                channels == before.channels,
                channel == k % channels,
                self.wf(),
                self@.format == before.format,
                self@.channels == before.channels,
                self@.coefficient == before.coefficient,
                before.wf(),
                frames.format == Format::S16,
                frames.format == old(frames).format,
                frames.channels == old(frames).channels,
                frames@.len() == old(frames)@.len(),
                final(frames.data)@ == final(old(frames).data)@,
                samples_s16(frames@).len() == count,
                samples_s16(frames@).take(k as int) == hpf1_run(
                    before.coefficient,
                    before.registers,
                    input,
                    k as nat,
                ).0,
                self@.registers == hpf1_run(
                    before.coefficient,
                    before.registers,
                    input,
                    k as nat,
                ).1,
                forall|j: int| k <= j < count ==> samples_s16(frames@)[j] == input[j],
            decreases count - k,
        {
            let x: i16 = frames.sample_s16(k);
            let y: i16 = first_order_step(self.coefficient, self.r1[channel], x);
            self.r1[channel] = y;
            frames.set_sample_s16(k, y);
            proof {
                lemma_mod_successor(k as int, channels as int);
            }
            k += 1;
            channel += 1;
            if channel == channels {
                channel = 0;
            }
        }
    }
}

impl Filter for HPF1 {
    open spec fn wf(&self) -> bool {
        HPF1::wf(self)
    }

    open spec fn accepts(&self, format: Format, channels: u32) -> bool {
        self@.format == format && self@.channels == channels
    }

    /// Filters `input` into `output`; see [`Filter::process_pcm_frames`] for
    /// when the call is refused.
    #[inline]
    fn process_pcm_frames(&mut self, output: &mut FramesMut<'_>, input: &Frames<'_>) -> (r: Result<
        (),
        Error,
    >)
        ensures
            r is Ok ==> {
                &&& samples_s16(final(output)@) == old(self)@.output(samples_s16(input@))
                &&& final(self)@ == old(self)@.after(samples_s16(input@))
            },
            r is Err ==> final(self)@ == old(self)@,
    {
        match ensure_frames_compat(output, input) {
            Err(e) => {
                return Err(e);
            },
            Ok(_) => {},
        }
        if input.format() != self.format || input.channels() != self.channels {
            return Err(Error::FormatMismatch);
        }
        output.copy_from(input);
        self.run_in_place(output);
        Ok(())
    }
}

/// Second order high-pass filter.
#[derive(Clone)]
pub struct HPF2 {
    bq: Biquad,
}

impl View for HPF2 {
    type V = BiquadView;

    closed spec fn view(&self) -> BiquadView {
        self.bq@
    }
}

impl HPF2 {
    /// The filter is stored consistently with what it stands for.
    pub closed spec fn wf(&self) -> bool {
        self.bq.wf()
    }

    /// A filter that is stored consistently stands for a consistent section.
    pub proof fn lemma_wf_view(&self)
        requires
            self.wf(),
        ensures
            self@.wf(),
    {
        self.bq.lemma_wf_view();
    }

    /// Builds a filter that runs `coefficients`, the fixed-point solution of
    /// `config`, with all delay registers at zero.
    ///
    /// Refused with `InvalidArgs` when the format is not 16-bit or the
    /// channel count is out of range.
    pub fn new(config: &HPF2Config, coefficients: &BiquadCoefficients) -> (r: Result<HPF2, Error>)
        ensures
            config.valid() ==> r is Ok,
            !config.valid() ==> r is Err && r->Err_0 == Error::InvalidArgs,
            r matches Ok(f) ==> f.wf() && f@ == (BiquadView {
                format: config.format,
                channels: config.channels,
                coefficients: *coefficients,
                registers: Seq::new(config.channels as nat, |i: int| (0int, 0int)),
            }),
    {
        let section = BiquadConfig::new(config.format, config.channels, *coefficients);
        match Biquad::new(&section) {
            Ok(bq) => Ok(HPF2 { bq }),
            Err(e) => Err(e),
        }
    }

    /// What `reinit` answers: see there.
    pub open spec fn reinit_outcome(filter: BiquadView, config: &HPF2Config) -> Result<(), Error> {
        if !config.valid() {
            Err(Error::InvalidArgs)
        } else if config.format != filter.format || config.channels != filter.channels {
            Err(Error::InvalidOperation)
        } else {
            Ok(())
        }
    }

    /// Puts `coefficients`, the fixed-point solution of `config`, in effect;
    /// the delay registers keep their values.
    ///
    /// Refused with `InvalidArgs` when `config` could not build a filter,
    /// and with `InvalidOperation` when it asks for another format or
    /// channel count than the filter has. The filter is then unchanged.
    pub fn reinit(&mut self, config: &HPF2Config, coefficients: &BiquadCoefficients) -> (r: Result<
        (),
        Error,
    >)
        requires
            old(self).wf(),
        ensures
            final(self).wf(),
            r == Self::reinit_outcome(old(self)@, config),
            r is Ok ==> final(self)@ == (BiquadView { coefficients: *coefficients, ..old(self)@ }),
            r is Err ==> final(self)@ == old(self)@,
    {
        let section = BiquadConfig::new(config.format, config.channels, *coefficients);
        self.bq.reinit(&section)
    }

    /// The section that does the filtering.
    pub fn biquad(&self) -> (r: &Biquad)
        ensures
            r@ == self@,
            self.wf() ==> r.wf(),
    {
        &self.bq
    }

    /// Frames by which the filter delays its input: always two.
    pub fn latency(&self) -> (r: u32)
        ensures
            r == BIQUAD_LATENCY,
    {
        self.bq.latency()
    }

    pub(crate) fn set_coefficients(&mut self, coefficients: BiquadCoefficients)
        requires
            old(self).wf(),
        ensures
            final(self).wf(),
            final(self)@ == (BiquadView { coefficients, ..old(self)@ }),
    {
        self.bq.set_coefficients(coefficients);
    }

    pub(crate) fn run_in_place(&mut self, frames: &mut FramesMut<'_>)
        requires
            old(self).wf(),
            old(frames).wf(),
            old(frames).format == old(self)@.format,
            old(frames).channels == old(self)@.channels,
        ensures
            final(self).wf(),
            samples_s16(final(frames)@) == old(self)@.output(samples_s16(old(frames)@)),
            final(self)@ == old(self)@.after(samples_s16(old(frames)@)),
            final(frames)@.len() == old(frames)@.len(),
            final(frames).format == old(frames).format,
            final(frames).channels == old(frames).channels,
            final(final(frames).data)@ == final(old(frames).data)@,
    {
        self.bq.run_in_place(frames);
    }

    /// Filters the frames of `frames` where they stand.
    ///
    /// Refused with `FormatMismatch`, nothing written, when `frames` has
    /// another format or channel count than the filter.
    pub fn process_pcm_frames_in_place(&mut self, frames: &mut FramesMut<'_>) -> (r: Result<
        (),
        Error,
    >)
        requires
            old(self).wf(),
            old(frames).wf(),
        ensures
            final(self).wf(),
            r is Ok <==> old(self)@.format == old(frames).format && old(self)@.channels == old(
                frames,
            ).channels,
            r is Ok ==> {
                &&& samples_s16(final(frames)@) == old(self)@.output(samples_s16(old(frames)@))
                &&& final(self)@ == old(self)@.after(samples_s16(old(frames)@))
            },
            r is Err ==> {
                &&& r->Err_0 == Error::FormatMismatch
                &&& final(frames)@ == old(frames)@
                &&& final(self)@ == old(self)@
            },
            final(frames)@.len() == old(frames)@.len(),
            final(frames).format == old(frames).format,
            final(frames).channels == old(frames).channels,
            final(final(frames).data)@ == final(old(frames).data)@,
    {
        self.bq.process_pcm_frames_in_place(frames)
    }
}

impl Filter for HPF2 {
    open spec fn wf(&self) -> bool {
        HPF2::wf(self)
    }

    open spec fn accepts(&self, format: Format, channels: u32) -> bool {
        self@.format == format && self@.channels == channels
    }

    /// Filters `input` into `output`; see [`Filter::process_pcm_frames`] for
    /// when the call is refused.
    #[inline]
    fn process_pcm_frames(&mut self, output: &mut FramesMut<'_>, input: &Frames<'_>) -> (r: Result<
        (),
        Error,
    >)
        ensures
            r is Ok ==> {
                &&& samples_s16(final(output)@) == old(self)@.output(samples_s16(input@))
                &&& final(self)@ == old(self)@.after(samples_s16(input@))
            },
            r is Err ==> final(self)@ == old(self)@,
    {
        self.bq.process_pcm_frames(output, input)
    }
}

/// Configuration for a high-pass filter with configurable order (up to 8)
///
/// The cutoff frequency is kept as the bit pattern of a double-precision
/// number, exactly as the caller gave it.
#[derive(Clone, Copy, Debug)]
pub struct HPFConfig {
    /// The sample format asked for.
    pub format: Format,
    /// The channel count asked for.
    pub channels: u32,
    /// Frames per second of the stream to be filtered.
    pub sample_rate: u32,
    /// Cutoff frequency in hertz.
    pub cutoff_frequency: u64,
    /// Order of the filter; zero asks for a filter that changes nothing.
    pub order: u32,
}

impl HPFConfig {
    /// Whether a filter can be built from this configuration: the format is
    /// 16-bit, or 32-bit floating point with an order of zero, the channel
    /// count is in range and the order is at most `MAX_FILTER_ORDER`.
    ///
    /// A filter of order zero has no section and only copies, so it takes
    /// floating-point frames as well; sections run on 16-bit samples alone.
    pub open spec fn valid(&self) -> bool {
        &&& self.format == Format::S16 || (self.format == Format::F32 && self.order == 0)
        &&& valid_channels(self.channels)
        &&& self.order <= MAX_FILTER_ORDER
    }

    /// Whether a filter can be built from this configuration.
    pub fn is_valid(&self) -> (b: bool)
        ensures
            b == self.valid(),
    {
        (self.format == Format::S16 || (self.format == Format::F32 && self.order == 0))
            && self.channels >= 1 && self.channels <= MAX_CHANNELS && self.order
            <= MAX_FILTER_ORDER
    }

    /// If order is set to 0, this will be treated as a passthrough (no filtering will be applied).
    pub fn new(
        format: Format,
        channels: u32,
        sample_rate: u32,
        cutoff_frequency: u64,
        order: u32,
    ) -> (r: HPFConfig)
        ensures
            r == (HPFConfig { format, channels, sample_rate, cutoff_frequency, order }),
    {
        HPFConfig { format, channels, sample_rate, cutoff_frequency, order }
    }

    /// The sample format asked for.
    #[inline]
    pub fn format(&self) -> (r: Format)
        ensures
            r == self.format,
    {
        self.format
    }

    /// Asks for another sample format.
    #[inline]
    pub fn set_format(&mut self, format: Format)
        ensures
            *final(self) == (HPFConfig { format, ..*old(self) }),
    {
        self.format = format;
    }

    /// The channel count asked for.
    #[inline]
    pub fn channels(&self) -> (r: u32)
        ensures
            r == self.channels,
    {
        self.channels
    }

    /// Asks for another channel count.
    #[inline]
    pub fn set_channels(&mut self, channels: u32)
        ensures
            *final(self) == (HPFConfig { channels, ..*old(self) }),
    {
        self.channels = channels;
    }

    /// Frames per second of the stream to be filtered.
    #[inline]
    pub fn sample_rate(&self) -> (r: u32)
        ensures
            r == self.sample_rate,
    {
        self.sample_rate
    }

    /// Sets the frames per second of the stream to be filtered.
    #[inline]
    pub fn set_sample_rate(&mut self, sample_rate: u32)
        ensures
            *final(self) == (HPFConfig { sample_rate, ..*old(self) }),
    {
        self.sample_rate = sample_rate;
    }

    /// Cutoff frequency in hertz.
    #[inline]
    pub fn cutoff_frequency(&self) -> (r: u64)
        ensures
            r == self.cutoff_frequency,
    {
        self.cutoff_frequency
    }

    /// Sets the cutoff frequency in hertz.
    #[inline]
    pub fn set_cutoff_frequency(&mut self, cutoff_frequency: u64)
        ensures
            *final(self) == (HPFConfig { cutoff_frequency, ..*old(self) }),
    {
        self.cutoff_frequency = cutoff_frequency;
    }

    /// Order of the filter.
    #[inline]
    pub fn order(&self) -> (r: u32)
        ensures
            r == self.order,
    {
        self.order
    }

    /// Asks for another order.
    #[inline]
    pub fn set_order(&mut self, order: u32)
        ensures
            *final(self) == (HPFConfig { order, ..*old(self) }),
    {
        self.order = order;
    }
}

/// The fixed-point solution of an `HPFConfig`: one coefficient for the
/// first-order section that an odd order calls for, and one set of
/// coefficients for each second-order section, in the order in which the
/// signal runs through them.
#[derive(Clone)]
pub struct HPFCoefficients {
    /// Coefficient of the first-order section, if the order is odd.
    pub first_order: Option<i32>,
    /// Coefficients of the second-order sections.
    pub second_order: Vec<BiquadCoefficients>,
}

impl HPFCoefficients {
    /// Whether these are the sections of a filter of the given order: a
    /// first-order section exactly if the order is odd, and half the order,
    /// rounded down, second-order sections.
    pub open spec fn fits(&self, order: u32) -> bool {
        &&& self.first_order is Some <==> order % 2 == 1
        &&& self.second_order@.len() == order / 2
    }
}

/// The samples that come out of the first `count` of `sections`, each fed
/// with what the one before it made of `input`.
pub open spec fn cascade_output(sections: Seq<BiquadView>, input: Seq<i16>, count: nat) -> Seq<i16>
    decreases count,
{
    if count == 0 {
        input
    } else {
        sections[count - 1].output(cascade_output(sections, input, (count - 1) as nat))
    }
}

/// The sections after `input` has run through all of them in turn.
pub open spec fn cascade_after(sections: Seq<BiquadView>, input: Seq<i16>) -> Seq<BiquadView> {
    Seq::new(
        sections.len(),
        |i: int| sections[i].after(cascade_output(sections, input, i as nat)),
    )
}

/// The latencies of the first `count` of `sections`, added up.
pub open spec fn cascade_latency(sections: Seq<BiquadView>, count: nat) -> nat
    decreases count,
{
    if count == 0 {
        0
    } else {
        cascade_latency(sections, (count - 1) as nat) + BIQUAD_LATENCY as nat
    }
}

/// What a cascaded high-pass filter is, apart from how it is stored.
pub struct HPFView {
    /// The format the filter was set up for.
    pub format: Format,
    /// The channel count the filter was set up for.
    pub channels: u32,
    /// The first-order section of a filter of odd order.
    pub first_order: Option<HPF1View>,
    /// The second-order sections, in the order in which the signal runs
    /// through them.
    pub second_order: Seq<BiquadView>,
}

impl HPFView {
    /// Every section is consistent and was set up for the format and the
    /// channel count of the filter, and the order is at most
    /// `MAX_FILTER_ORDER`. The format is 16-bit, or 32-bit floating point in
    /// a filter of order zero.
    pub open spec fn wf(self) -> bool {
        &&& self.format == Format::S16 || (self.format == Format::F32 && self.order() == 0)
        &&& valid_channels(self.channels)
        &&& self.order() <= MAX_FILTER_ORDER
        &&& self.first_order matches Some(f) ==> f.wf() && f.format == self.format && f.channels
            == self.channels
        &&& forall|i: int|
            0 <= i < self.second_order.len() ==> {
                &&& (#[trigger] self.second_order[i]).wf()
                &&& self.second_order[i].format == self.format
                &&& self.second_order[i].channels == self.channels
            }
    }

    /// The order of the filter: one for a first-order section and two for
    /// each second-order section.
    pub open spec fn order(self) -> nat {
        (if self.first_order is Some {
            1nat
        } else {
            0nat
        }) + 2 * self.second_order.len()
    }

    /// The number of sections the signal runs through.
    pub open spec fn section_count(self) -> nat {
        (if self.first_order is Some {
            1nat
        } else {
            0nat
        }) + self.second_order.len()
    }

    /// Frames by which the filter delays its input: the latencies of its
    /// sections, added up.
    pub open spec fn latency(self) -> nat {
        (match self.first_order {
            Some(f) => f.latency(),
            None => 0nat,
        }) + cascade_latency(self.second_order, self.second_order.len())
    }

    /// What the first-order section, if there is one, makes of `input`.
    pub open spec fn first_stage(self, input: Seq<i16>) -> Seq<i16> {
        match self.first_order {
            Some(f) => f.output(input),
            None => input,
        }
    }

    /// The samples that the filter makes of `input`.
    pub open spec fn output(self, input: Seq<i16>) -> Seq<i16> {
        cascade_output(self.second_order, self.first_stage(input), self.second_order.len())
    }

    /// The filter after it has filtered `input`.
    pub open spec fn after(self, input: Seq<i16>) -> HPFView {
        HPFView {
            first_order: match self.first_order {
                Some(f) => Some(f.after(input)),
                None => None,
            },
            second_order: cascade_after(self.second_order, self.first_stage(input)),
            ..self
        }
    }

    /// The sections of a fresh filter that runs `coefficients`: all
    /// registers are zero.
    pub open spec fn fresh(format: Format, channels: u32, coefficients: &HPFCoefficients) -> HPFView {
        HPFView {
            format,
            channels,
            first_order: match coefficients.first_order {
                Some(a) => Some(
                    HPF1View {
                        format,
                        channels,
                        coefficient: a,
                        registers: Seq::new(channels as nat, |i: int| 0i16),
                    },
                ),
                None => None,
            },
            second_order: Seq::new(
                coefficients.second_order@.len(),
                |i: int|
                    BiquadView {
                        format,
                        channels,
                        coefficients: coefficients.second_order@[i],
                        registers: Seq::new(channels as nat, |j: int| (0int, 0int)),
                    },
            ),
        }
    }

    /// This filter with `coefficients` in effect and its registers as they
    /// are.
    pub open spec fn with_coefficients(self, coefficients: &HPFCoefficients) -> HPFView {
        HPFView {
            first_order: match self.first_order {
                Some(f) => Some(HPF1View { coefficient: coefficients.first_order->0, ..f }),
                None => None,
            },
            second_order: Seq::new(
                self.second_order.len(),
                |i: int|
                    BiquadView {
                        coefficients: coefficients.second_order@[i],
                        ..self.second_order[i]
                    },
            ),
            ..self
        }
    }
}

/// A filter of order zero is the identity: it hands every input on as it
/// is, keeps no state, and delays nothing.
pub proof fn lemma_order_zero_is_identity(filter: HPFView, input: Seq<i16>)
    requires
        filter.order() == 0,
    ensures
        filter.output(input) == input,
        filter.after(input) == filter,
        filter.latency() == 0,
{
    assert(filter.after(input).second_order =~= filter.second_order);
}

/// The latency of a cascade is the sum of the latencies of its sections,
/// which comes to the order of the filter.
pub proof fn lemma_latency_is_order(filter: HPFView)
    ensures
        filter.latency() == filter.order(),
{
    lemma_cascade_latency(filter.second_order, filter.second_order.len());
}

/// A filter is a cascade of half its order, rounded up, sections: half the
/// order, rounded down, of second order, and one more of first order when
/// the order is odd.
pub proof fn lemma_section_count(filter: HPFView)
    ensures
        filter.section_count() == (filter.order() + 1) / 2,
        filter.second_order.len() == filter.order() / 2,
        filter.first_order is Some <==> filter.order() % 2 == 1,
{
}

proof fn lemma_cascade_latency(sections: Seq<BiquadView>, count: nat)
    ensures
        cascade_latency(sections, count) == 2 * count,
    decreases count,
{
    if count > 0 {
        lemma_cascade_latency(sections, (count - 1) as nat);
    }
}

/// High-pass filter with configurable order (up to 8)
#[derive(Clone)]
pub struct HPF {
    format: Format,
    channels: u32,
    hpf1: Option<HPF1>,
    hpf2: Vec<HPF2>,
}

impl View for HPF {
    type V = HPFView;

    closed spec fn view(&self) -> HPFView {
        HPFView {
            format: self.format,
            channels: self.channels,
            first_order: match self.hpf1 {
                Some(f) => Some(f@),
                None => None,
            },
            second_order: Seq::new(self.hpf2@.len(), |i: int| self.hpf2@[i]@),
        }
    }
}

impl HPF {
    /// The filter is stored consistently with what it stands for.
    pub closed spec fn wf(&self) -> bool {
        &&& self@.wf()
        &&& self.hpf1 matches Some(f) ==> f.wf()
        &&& forall|i: int| 0 <= i < self.hpf2@.len() ==> (#[trigger] self.hpf2@[i]).wf()
    }

    /// A filter that is stored consistently stands for a consistent one.
    pub proof fn lemma_wf_view(&self)
        requires
            self.wf(),
        ensures
            self@.wf(),
    {
    }

    /// Whether `new` can build a filter from these arguments.
    pub open spec fn buildable(config: &HPFConfig, coefficients: &HPFCoefficients) -> bool {
        config.valid() && coefficients.fits(config.order)
    }

    /// Builds a filter of the order that `config` asks for, which runs
    /// `coefficients`, the fixed-point solution of `config`, with all
    /// registers at zero. An order of zero gives a filter that hands its
    /// input on unchanged.
    ///
    /// Refused with `InvalidArgs` when the format is neither 16-bit nor, for
    /// an order of zero, 32-bit floating point, when the channel count is
    /// out of range, when the order is above `MAX_FILTER_ORDER`, or when
    /// `coefficients` are not the sections of a filter of that order.
    pub fn new(config: &HPFConfig, coefficients: &HPFCoefficients) -> (r: Result<HPF, Error>)
        ensures
            Self::buildable(config, coefficients) ==> r is Ok,
            !Self::buildable(config, coefficients) ==> r is Err && r->Err_0 == Error::InvalidArgs,
            r matches Ok(f) ==> {
                &&& f.wf()
                &&& f@ == HPFView::fresh(config.format, config.channels, coefficients)
                &&& f@.order() == config.order
            },
    {
        if !config.is_valid() {
            return Err(Error::InvalidArgs);
        }
        let odd: bool = config.order % 2 == 1;
        let pairs: usize = (config.order / 2) as usize;
        if coefficients.first_order.is_some() != odd || coefficients.second_order.len() != pairs {
            return Err(Error::InvalidArgs);
        }
        let hpf1: Option<HPF1> = match coefficients.first_order {
            Some(a) => Some(HPF1::build(config.format, config.channels, a)),
            None => None,
        };
        let mut hpf2: Vec<HPF2> = Vec::new();
        let mut i: usize = 0;
        while i < pairs
            invariant
                i <= pairs,
                pairs == coefficients.second_order@.len(),
                pairs > 0 ==> config.format == Format::S16,
                valid_channels(config.channels),
                hpf2@.len() == i,
                forall|j: int|
                    0 <= j < i ==> (#[trigger] hpf2@[j]).wf() && hpf2@[j]@ == (BiquadView {
                        format: config.format,
                        channels: config.channels,
                        coefficients: coefficients.second_order@[j],
                        registers: Seq::new(config.channels as nat, |k: int| (0int, 0int)),
                    }),
            decreases pairs - i,
        {
            let section = BiquadConfig::new(config.format, config.channels, coefficients.second_order[i]);
            match Biquad::new(&section) {
                Ok(bq) => {
                    hpf2.push(HPF2 { bq });
                },
                Err(_) => {
                    return Err(Error::InvalidArgs);
                },
            }
            i += 1;
        }
        let filter = HPF { format: config.format, channels: config.channels, hpf1, hpf2 };
        proof {
            assert(filter@.second_order =~= HPFView::fresh(
                config.format,
                config.channels,
                coefficients,
            ).second_order);
        }
        Ok(filter)
    }

    /// What `reinit` answers: see there.
    pub open spec fn reinit_outcome(
        filter: HPFView,
        config: &HPFConfig,
        coefficients: &HPFCoefficients,
    ) -> Result<(), Error> {
        if !Self::buildable(config, coefficients) {
            Err(Error::InvalidArgs)
        } else if config.format != filter.format || config.channels != filter.channels
            || config.order != filter.order() {
            Err(Error::InvalidOperation)
        } else {
            Ok(())
        }
    }

    /// Puts `coefficients`, the fixed-point solution of `config`, in effect
    /// in every section; all registers keep their values.
    ///
    /// Refused with `InvalidArgs` when `new` would refuse the arguments, and
    /// with `InvalidOperation` when `config` asks for another format,
    /// channel count or order than the filter has. The filter is then
    /// unchanged.
    pub fn reinit(&mut self, config: &HPFConfig, coefficients: &HPFCoefficients) -> (r: Result<
        (),
        Error,
    >)
        requires
            old(self).wf(),
        ensures
            final(self).wf(),
            r == Self::reinit_outcome(old(self)@, config, coefficients),
            r is Ok ==> final(self)@ == old(self)@.with_coefficients(coefficients),
            r is Err ==> final(self)@ == old(self)@,
    {
        if !config.is_valid() {
            return Err(Error::InvalidArgs);
        }
        let odd: bool = config.order % 2 == 1;
        let pairs: usize = (config.order / 2) as usize;
        if coefficients.first_order.is_some() != odd || coefficients.second_order.len() != pairs {
            return Err(Error::InvalidArgs);
        }
        if config.format != self.format || config.channels != self.channels
            || self.hpf1.is_some() != odd || self.hpf2.len() != pairs {
            return Err(Error::InvalidOperation);
        }
        let ghost before = self@;
        match &mut self.hpf1 {
            Some(f) => {
                match coefficients.first_order {
                    Some(a) => {
                        f.set_coefficient(a);
                    },
                    None => {},
                }
            },
            None => {},
        }
        let mut i: usize = 0;
        while i < pairs
            invariant
                i <= pairs,
                pairs == coefficients.second_order@.len(),
                pairs == self.hpf2@.len(),
                pairs == before.second_order.len(),
                before.wf(),
                self@.format == before.format,
                self@.channels == before.channels,
                self@.first_order == before.with_coefficients(coefficients).first_order,
                self.hpf1 matches Some(f) ==> f.wf(),
                forall|j: int| 0 <= j < pairs ==> (#[trigger] self.hpf2@[j]).wf(),
                forall|j: int|
                    0 <= j < i ==> (#[trigger] self.hpf2@[j])@ == (BiquadView {
                        coefficients: coefficients.second_order@[j],
                        ..before.second_order[j]
                    }),
                forall|j: int| i <= j < pairs ==> (#[trigger] self.hpf2@[j])@ == before.second_order[j],
            decreases pairs - i,
        {
            self.hpf2[i].set_coefficients(coefficients.second_order[i]);
            i += 1;
        }
        proof {
            assert(self@.second_order =~= before.with_coefficients(coefficients).second_order);
        }
        Ok(())
    }

    /// Frames by which the filter delays its input: the latencies of its
    /// sections, added up.
    pub fn latency(&self) -> (r: u32)
        requires
            self.wf(),
        ensures
            r == self@.latency(),
            r == self@.order(),
    {
        let mut total: u32 = match &self.hpf1 {
            Some(f) => f.latency(),
            None => 0,
        };
        let count: usize = self.hpf2.len();
        let mut i: usize = 0;
        proof {
            lemma_latency_is_order(self@);
        }
        while i < count
            invariant
                i <= count,
                count == self.hpf2@.len(),
                count == self@.second_order.len(),
                count <= 4,
                total == (match self@.first_order {
                    Some(f) => f.latency(),
                    None => 0nat,
                }) + cascade_latency(self@.second_order, i as nat),
                total <= 1 + 2 * i,
            decreases count - i,
        {
            total = total + self.hpf2[i].latency();
            i += 1;
        }
        total
    }

    /// The order of the filter.
    pub fn order(&self) -> (r: u32)
        requires
            self.wf(),
        ensures
            r == self@.order(),
    {
        let first: u32 = if self.hpf1.is_some() { 1 } else { 0 };
        first + 2 * (self.hpf2.len() as u32)
    }

    /// Filters the frames of `frames` where they stand.
    ///
    /// Refused with `FormatMismatch`, nothing written, when `frames` has
    /// another format or channel count than the filter.
    pub fn process_pcm_frames_in_place(&mut self, frames: &mut FramesMut<'_>) -> (r: Result<
        (),
        Error,
    >)
        requires
            old(self).wf(),
            old(frames).wf(),
        ensures
            final(self).wf(),
            r is Ok <==> old(self)@.format == old(frames).format && old(self)@.channels == old(
                frames,
            ).channels,
            r is Ok ==> {
                &&& samples_s16(final(frames)@) == old(self)@.output(samples_s16(old(frames)@))
                &&& final(self)@ == old(self)@.after(samples_s16(old(frames)@))
            },
            r is Ok && old(self)@.order() == 0 ==> final(frames)@ == old(frames)@,
            r is Err ==> {
                &&& r->Err_0 == Error::FormatMismatch
                &&& final(frames)@ == old(frames)@
                &&& final(self)@ == old(self)@
            },
            final(frames)@.len() == old(frames)@.len(),
            final(frames).format == old(frames).format,
            final(frames).channels == old(frames).channels,
            final(final(frames).data)@ == final(old(frames).data)@,
    {
        if frames.format() != self.format || frames.channels() != self.channels {
            return Err(Error::FormatMismatch);
        }
        self.run_in_place(frames);
        Ok(())
    }

    fn run_in_place(&mut self, frames: &mut FramesMut<'_>)
        requires
            old(self).wf(),
            old(frames).wf(),
            old(frames).format == old(self)@.format,
            old(frames).channels == old(self)@.channels,
        ensures
            final(self).wf(),
            samples_s16(final(frames)@) == old(self)@.output(samples_s16(old(frames)@)),
            final(self)@ == old(self)@.after(samples_s16(old(frames)@)),
            old(self)@.order() == 0 ==> final(frames)@ == old(frames)@,
            final(frames)@.len() == old(frames)@.len(),
            final(frames).format == old(frames).format,
            final(frames).channels == old(frames).channels,
            final(final(frames).data)@ == final(old(frames).data)@,
    {
        let ghost before = self@;
        let ghost input = samples_s16(frames@);
        let ghost staged = before.first_stage(input);
        match &mut self.hpf1 {
            Some(f) => {
                proof {
                    f.lemma_wf_view();
                }
                f.run_in_place(frames);
                proof {
                    f.lemma_wf_view();
                }
            },
            None => {},
        }
        let count: usize = self.hpf2.len();
        let mut i: usize = 0;
        while i < count
            invariant
                i <= count,
                count == self.hpf2@.len(),
                count == before.second_order.len(),
                before.wf(),
                self@.format == before.format,
                self@.channels == before.channels,
                self@.first_order == before.after(input).first_order,
                self.hpf1 matches Some(f) ==> f.wf() && f@.wf(),
                forall|j: int| 0 <= j < count ==> (#[trigger] self.hpf2@[j]).wf(),
                forall|j: int|
                    0 <= j < i ==> (#[trigger] self.hpf2@[j])@ == before.second_order[j].after(
                        cascade_output(before.second_order, staged, j as nat),
                    ),
                forall|j: int| i <= j < count ==> (#[trigger] self.hpf2@[j])@ == before.second_order[j],
                samples_s16(frames@) == cascade_output(before.second_order, staged, i as nat),
                before.order() == 0 ==> frames@ == old(frames)@,
                frames.wf(),
                frames.format == before.format,
                frames.channels == before.channels,
                frames.format == old(frames).format,
                frames.channels == old(frames).channels,
                frames@.len() == old(frames)@.len(),
                final(frames.data)@ == final(old(frames).data)@,
            decreases count - i,
        {
            self.hpf2[i].run_in_place(frames);
            i += 1;
        }
        proof {
            assert(self@.second_order =~= before.after(input).second_order);
            assert forall|j: int| 0 <= j < self@.second_order.len() implies {
                &&& (#[trigger] self@.second_order[j]).wf()
                &&& self@.second_order[j].format == self@.format
                &&& self@.second_order[j].channels == self@.channels
            } by {
                self.hpf2@[j].lemma_wf_view();
            }
        }
    }
}

impl Filter for HPF {
    open spec fn wf(&self) -> bool {
        HPF::wf(self)
    }

    open spec fn accepts(&self, format: Format, channels: u32) -> bool {
        self@.format == format && self@.channels == channels
    }

    /// Filters `input` into `output`; see [`Filter::process_pcm_frames`] for
    /// when the call is refused. A filter of order zero copies the input.
    #[inline]
    fn process_pcm_frames(&mut self, output: &mut FramesMut<'_>, input: &Frames<'_>) -> (r: Result<
        (),
        Error,
    >)
        ensures
            r is Ok ==> {
                &&& samples_s16(final(output)@) == old(self)@.output(samples_s16(input@))
                &&& final(self)@ == old(self)@.after(samples_s16(input@))
            },
            r is Ok && old(self)@.order() == 0 ==> final(output)@ == input@,
            r is Err ==> final(self)@ == old(self)@,
    {
        match ensure_frames_compat(output, input) {
            Err(e) => {
                return Err(e);
            },
            Ok(_) => {},
        }
        if input.format() != self.format || input.channels() != self.channels {
            return Err(Error::FormatMismatch);
        }
        output.copy_from(input);
        self.run_in_place(output);
        Ok(())
    }
}

} // verus!
