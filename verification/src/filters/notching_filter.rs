//! A second-order filter that rejects a narrow band around one frequency.

use vstd::prelude::*;
use crate::base::valid_channels;
use crate::base::Error;
use crate::base::Format;
use crate::filters::biquad_filtering::Biquad;
use crate::filters::biquad_filtering::BiquadCoefficients;
use crate::filters::biquad_filtering::BiquadConfig;
use crate::filters::biquad_filtering::BiquadView;
use crate::filters::biquad_filtering::BIQUAD_LATENCY;
use crate::filters::Filter;
use crate::frames::samples_s16;
use crate::frames::Frames;
use crate::frames::FramesMut;

verus! {

/// Configuration for a second order notching filter.
///
/// Frequencies, quality factors and gains are kept as the bit patterns of
/// double-precision numbers, exactly as the caller gave them.
#[derive(Clone, Copy, Debug)]
pub struct Notch2Config {
    /// The sample format asked for.
    pub format: Format,
    /// The channel count asked for.
    pub channels: u32,
    /// Frames per second of the stream to be filtered.
    pub sample_rate: u32,
    /// Quality factor.
    pub q: u64,
    /// Centre frequency in hertz.
    pub frequency: u64,
}

impl Notch2Config {
    /// Whether a filter can be built from this configuration: the format is
    /// 16-bit and the channel count is in range.
    pub open spec fn valid(&self) -> bool {
        self.format == Format::S16 && valid_channels(self.channels)
    }

    /// A configuration with the given values.
    #[inline]
    pub fn new(format: Format, channels: u32, sample_rate: u32, q: u64, frequency: u64) -> (r: Notch2Config)
        ensures
            r == (Notch2Config { format, channels, sample_rate, q, frequency }),
    {
        Notch2Config { format, channels, sample_rate, q, frequency }
    }

    /// The sample format asked for.
    #[inline]
    pub fn format(&self) -> (r: Format)
        ensures
            r == self.format,
    {
        self.format
    }

    /// Asks for another sample format.
    #[inline]
    pub fn set_format(&mut self, format: Format)
        ensures
            *final(self) == (Notch2Config { format, ..*old(self) }),
    {
        self.format = format;
    }

    /// The channel count asked for.
    #[inline]
    pub fn channels(&self) -> (r: u32)
        ensures
            r == self.channels,
    {
        self.channels
    }

    /// Asks for another channel count.
    #[inline]
    pub fn set_channels(&mut self, channels: u32)
        ensures
            *final(self) == (Notch2Config { channels, ..*old(self) }),
    {
        self.channels = channels;
    }

    /// Frames per second of the stream to be filtered.
    #[inline]
    pub fn sample_rate(&self) -> (r: u32)
        ensures
            r == self.sample_rate,
    {
        self.sample_rate
    }

    /// Sets the frames per second of the stream to be filtered.
    #[inline]
    pub fn set_sample_rate(&mut self, sample_rate: u32)
        ensures
            *final(self) == (Notch2Config { sample_rate, ..*old(self) }),
    {
        self.sample_rate = sample_rate;
    }

    /// Centre frequency in hertz.
    #[inline]
    pub fn frequency(&self) -> (r: u64)
        ensures
            r == self.frequency,
    {
        self.frequency
    }

    /// Sets the centre frequency in hertz.
    #[inline]
    pub fn set_frequency(&mut self, frequency: u64)
        ensures
            *final(self) == (Notch2Config { frequency, ..*old(self) }),
    {
        self.frequency = frequency;
    }

    /// Quality factor.
    #[inline]
    pub fn q(&self) -> (r: u64)
        ensures
            r == self.q,
    {
        self.q
    }

    /// Sets the quality factor.
    #[inline]
    pub fn set_q(&mut self, q: u64)
        ensures
            *final(self) == (Notch2Config { q, ..*old(self) }),
    {
        self.q = q;
    }
}

/// Second order notching filter.
#[derive(Clone)]
pub struct Notch2 {
    bq: Biquad,
}

impl View for Notch2 {
    type V = BiquadView;

    closed spec fn view(&self) -> BiquadView {
        self.bq@
    }
}

impl Notch2 {
    /// The filter is stored consistently with what it stands for.
    pub closed spec fn wf(&self) -> bool {
        self.bq.wf()
    }

    /// A filter that is stored consistently stands for a consistent section.
    pub proof fn lemma_wf_view(&self)
        requires
            self.wf(),
        ensures
            self@.wf(),
    {
        self.bq.lemma_wf_view();
    }

    /// Builds a filter that runs `coefficients`, the fixed-point solution of
    /// `config`, with all delay registers at zero.
    ///
    /// Refused with `InvalidArgs` when the format is not 16-bit or the
    /// channel count is out of range.
    #[inline]
    pub fn new(config: &Notch2Config, coefficients: &BiquadCoefficients) -> (r: Result<Notch2, Error>)
        ensures
            config.valid() ==> r is Ok,
            !config.valid() ==> r is Err && r->Err_0 == Error::InvalidArgs,
            r matches Ok(f) ==> f.wf() && f@ == (BiquadView {
                format: config.format,
                channels: config.channels,
                coefficients: *coefficients,
                registers: Seq::new(config.channels as nat, |i: int| (0int, 0int)),
            }),
    {
        let section = BiquadConfig::new(config.format, config.channels, *coefficients);
        match Biquad::new(&section) {
            Ok(bq) => Ok(Notch2 { bq }),
            Err(e) => Err(e),
        }
    }

    /// What `reinit` answers: see there.
    pub open spec fn reinit_outcome(filter: BiquadView, config: &Notch2Config) -> Result<(), Error> {
        if !config.valid() {
            Err(Error::InvalidArgs)
        } else if config.format != filter.format || config.channels != filter.channels {
            Err(Error::InvalidOperation)
        } else {
            Ok(())
        }
    }

    /// Puts `coefficients`, the fixed-point solution of `config`, in effect;
    /// the delay registers keep their values.
    ///
    /// Refused with `InvalidArgs` when `config` could not build a filter,
    /// and with `InvalidOperation` when it asks for another format or
    /// channel count than the filter has. The filter is then unchanged.
    pub fn reinit(&mut self, config: &Notch2Config, coefficients: &BiquadCoefficients) -> (r: Result<
        (),
        Error,
    >)
        requires
            old(self).wf(),
        ensures
            final(self).wf(),
            r == Self::reinit_outcome(old(self)@, config),
            r is Ok ==> final(self)@ == (BiquadView { coefficients: *coefficients, ..old(self)@ }),
            r is Err ==> final(self)@ == old(self)@,
    {
        let section = BiquadConfig::new(config.format, config.channels, *coefficients);
        self.bq.reinit(&section)
    }

    /// The section that does the filtering.
    #[inline]
    pub fn bq(&self) -> (r: &Biquad)
        ensures
            r@ == self@,
            self.wf() ==> r.wf(),
    {
        &self.bq
    }

    /// Frames by which the filter delays its input: always two.
    #[inline]
    pub fn latency(&self) -> (r: u32)
        ensures
            r == BIQUAD_LATENCY,
    {
        self.bq.latency()
    }

    /// Filters the frames of `frames` where they stand.
    ///
    /// Refused with `FormatMismatch`, nothing written, when `frames` has
    /// another format or channel count than the filter.
    pub fn process_pcm_frames_in_place(&mut self, frames: &mut FramesMut<'_>) -> (r: Result<
        (),
        Error,
    >)
        requires
            old(self).wf(),
            old(frames).wf(),
        ensures
            final(self).wf(),
            r is Ok <==> old(self)@.format == old(frames).format && old(self)@.channels == old(
                frames,
            ).channels,
            r is Ok ==> {
                &&& samples_s16(final(frames)@) == old(self)@.output(samples_s16(old(frames)@))
                &&& final(self)@ == old(self)@.after(samples_s16(old(frames)@))
            },
            r is Err ==> {
                &&& r->Err_0 == Error::FormatMismatch
                &&& final(frames)@ == old(frames)@
                &&& final(self)@ == old(self)@
            },
            final(frames)@.len() == old(frames)@.len(),
            final(frames).format == old(frames).format,
            final(frames).channels == old(frames).channels,
            final(final(frames).data)@ == final(old(frames).data)@,
    {
        self.bq.process_pcm_frames_in_place(frames)
    }
}

impl Filter for Notch2 {
    open spec fn wf(&self) -> bool {
        Notch2::wf(self)
    }

    open spec fn accepts(&self, format: Format, channels: u32) -> bool {
        self@.format == format && self@.channels == channels
    }

    /// Filters `input` into `output`; see [`Filter::process_pcm_frames`] for
    /// when the call is refused.
    #[inline]
    fn process_pcm_frames(&mut self, output: &mut FramesMut<'_>, input: &Frames<'_>) -> (r: Result<
        (),
        Error,
    >)
        ensures
            r is Ok ==> {
                &&& samples_s16(final(output)@) == old(self)@.output(samples_s16(input@))
                &&& final(self)@ == old(self)@.after(samples_s16(input@))
            },
            r is Err ==> final(self)@ == old(self)@,
    {
        self.bq.process_pcm_frames(output, input)
    }
}

} // verus!
