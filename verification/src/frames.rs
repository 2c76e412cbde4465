//! Non-owning views over interleaved PCM sample memory.
//!
//! A view pairs a byte buffer with the sample format and the channel count
//! that give the bytes their meaning. One frame holds one sample per
//! channel, so a buffer of `n` frames is `n * channels * sample width`
//! bytes long.

use vstd::prelude::*;
use crate::base::Error;
use crate::base::Format;
use crate::base::MAX_CHANNELS;
use crate::base::valid_channels;

verus! {

/// Bytes taken by one frame: the width of a sample times the number of
/// channels.
pub open spec fn bytes_per_frame(format: Format, channels: u32) -> nat {
    match format {
        Format::S8 => channels as nat,
        Format::S16 => 2 * channels as nat,
        Format::S24 => 3 * channels as nat,
        Format::S32 => 4 * channels as nat,
        Format::F32 => 4 * channels as nat,
    }
}

/// Whether a buffer of `len` bytes holds whole frames of the given shape.
pub open spec fn valid_layout(len: nat, format: Format, channels: u32) -> bool {
    &&& valid_channels(channels)
    &&& len % bytes_per_frame(format, channels) == 0
}

/// The 16-bit sample whose low byte is `lo` and whose high byte is `hi`.
pub open spec fn s16_from_bytes(lo: u8, hi: u8) -> i16 {
    let u: int = lo as int + 256 * (hi as int);
    if u < 32768 {
        u as i16
    } else {
        (u - 65536) as i16
    }
}

/// Low byte of a 16-bit sample.
pub open spec fn s16_low_byte(v: i16) -> u8 {
    let u: int = if v < 0 { v as int + 65536 } else { v as int };
    (u % 256) as u8
}

/// High byte of a 16-bit sample.
pub open spec fn s16_high_byte(v: i16) -> u8 {
    let u: int = if v < 0 { v as int + 65536 } else { v as int };
    (u / 256) as u8
}

/// The 16-bit samples that `bytes` holds, two bytes each, low byte first.
/// A trailing odd byte belongs to no sample.
pub open spec fn samples_s16(bytes: Seq<u8>) -> Seq<i16> {
    Seq::new(bytes.len() / 2, |i: int| s16_from_bytes(bytes[2 * i], bytes[2 * i + 1]))
}

/// Splitting a sample into bytes and joining them again gives the sample
/// back, and the other way round.
pub proof fn lemma_s16_bytes_round_trip(v: i16, lo: u8, hi: u8)
    ensures
        s16_from_bytes(s16_low_byte(v), s16_high_byte(v)) == v,
        s16_low_byte(s16_from_bytes(lo, hi)) == lo,
        s16_high_byte(s16_from_bytes(lo, hi)) == hi,
{
}

/// Two buffers of one even length that hold the same 16-bit samples hold
/// the same bytes.
pub proof fn lemma_samples_determine_bytes(a: Seq<u8>, b: Seq<u8>)
    requires
        a.len() == b.len(),
        a.len() % 2 == 0,
        samples_s16(a) == samples_s16(b),
    ensures
        a == b,
{
    assert forall|i: int| 0 <= i < a.len() implies a[i] == b[i] by {
        let k = i / 2;
        assert(samples_s16(b)[k] == s16_from_bytes(b[2 * k], b[2 * k + 1]));
        lemma_s16_bytes_round_trip(0, a[2 * k], a[2 * k + 1]);
        lemma_s16_bytes_round_trip(0, b[2 * k], b[2 * k + 1]);
    }
}

fn frame_width(format: Format, channels: u32) -> (n: usize)
    requires
        valid_channels(channels),
    ensures
        n == bytes_per_frame(format, channels),
        1 <= n <= 128,
{
    let size: usize = format.size_in_bytes();
    size * (channels as usize)
}

fn decode_s16(lo: u8, hi: u8) -> (v: i16)
    ensures
        v == s16_from_bytes(lo, hi),
{
    let u: i32 = lo as i32 + 256 * (hi as i32);
    if u < 32768 {
        u as i16
    } else {
        (u - 65536) as i16
    }
}

fn encode_s16(v: i16) -> (r: (u8, u8))
    ensures
        r.0 == s16_low_byte(v),
        r.1 == s16_high_byte(v),
{
    let u: u32 = if v < 0 { (v as i32 + 65536) as u32 } else { v as u32 };
    ((u % 256) as u8, (u / 256) as u8)
}

/// A read-only view over interleaved samples.
pub struct Frames<'a> {
    /// The sample memory.
    pub data: &'a [u8],
    /// How each sample is stored.
    pub format: Format,
    /// Samples per frame.
    pub channels: u32,
}

impl<'a> Frames<'a> {
    /// The bytes under the view.
    pub open spec fn view(&self) -> Seq<u8> {
        self.data@
    }

    /// The view holds whole frames of one to `MAX_CHANNELS` channels.
    pub open spec fn wf(&self) -> bool {
        valid_layout(self.data@.len(), self.format, self.channels)
    }

    /// Number of frames under the view.
    pub open spec fn spec_frame_count(&self) -> nat {
        self.data@.len() / bytes_per_frame(self.format, self.channels)
    }

    /// Number of samples under the view, all channels together.
    pub open spec fn spec_sample_count(&self) -> nat {
        self.data@.len() / self.format.spec_size_in_bytes()
    }

    /// Looks at `data` as frames of `channels` samples in `format`.
    ///
    /// Refused with `InvalidArgs` when the channel count is out of range or
    /// the buffer ends inside a frame.
    pub fn wrap(data: &'a [u8], format: Format, channels: u32) -> (r: Result<Frames<'a>, Error>)
        ensures
            valid_layout(data@.len(), format, channels) ==> r is Ok,
            !valid_layout(data@.len(), format, channels) ==> r == Err::<Frames<'a>, Error>(
                Error::InvalidArgs,
            ),
            r matches Ok(f) ==> f.data@ == data@ && f.format == format && f.channels == channels
                && f.wf(),
    {
        if channels < 1 || channels > MAX_CHANNELS {
            return Err(Error::InvalidArgs);
        }
        let width: usize = frame_width(format, channels);
        if data.len() % width != 0 {
            return Err(Error::InvalidArgs);
        }
        Ok(Frames { data, format, channels })
    }

    /// The sample format.
    pub fn format(&self) -> (r: Format)
        ensures
            r == self.format,
    {
        self.format
    }

    /// Samples per frame.
    pub fn channels(&self) -> (r: u32)
        ensures
            r == self.channels,
    {
        self.channels
    }

    /// Number of bytes under the view.
    pub fn byte_count(&self) -> (n: usize)
        ensures
            n == self@.len(),
    {
        self.data.len()
    }

    /// Number of frames under the view.
    pub fn frame_count(&self) -> (n: usize)
        requires
            self.wf(),
        ensures
            n == self.spec_frame_count(),
            n * bytes_per_frame(self.format, self.channels) == self@.len(),
    {
        let width: usize = frame_width(self.format, self.channels);
        let n: usize = self.data.len() / width;
        proof {
            lemma_exact_division(self.data@.len(), width as nat);
        }
        n
    }

    /// Number of samples under the view, all channels together.
    pub fn sample_count(&self) -> (n: usize)
        requires
            self.wf(),
        ensures
            n == self.spec_sample_count(),
            n == self.spec_frame_count() * self.channels,
            n * self.format.spec_size_in_bytes() == self@.len(),
    {
        let size: usize = self.format.size_in_bytes();
        let n: usize = self.data.len() / size;
        proof {
            lemma_layout_counts(self.data@.len(), self.format, self.channels);
        }
        n
    }

    /// The bytes under the view.
    pub fn as_bytes(&self) -> (r: &'a [u8])
        ensures
            r@ == self@,
    {
        self.data
    }

    /// The sample at `index`, counted over all channels, of a 16-bit view.
    pub fn sample_s16(&self, index: usize) -> (v: i16)
        requires
            self.format == Format::S16,
            index < samples_s16(self@).len(),
        ensures
            v == samples_s16(self@)[index as int],
    {
        let len: usize = self.data.len();
        decode_s16(self.data[2 * index], self.data[2 * index + 1])
    }
}

/// A writable view over interleaved samples.
///
/// The view borrows its buffer for as long as it lives; what the buffer
/// holds afterwards is what the view held last.
pub struct FramesMut<'a> {
    /// The sample memory.
    pub data: &'a mut [u8],
    /// How each sample is stored.
    pub format: Format,
    /// Samples per frame.
    pub channels: u32,
}

impl<'a> FramesMut<'a> {
    /// The bytes under the view.
    pub open spec fn view(&self) -> Seq<u8> {
        self.data@
    }

    /// The view holds whole frames of one to `MAX_CHANNELS` channels.
    pub open spec fn wf(&self) -> bool {
        valid_layout(self.data@.len(), self.format, self.channels)
    }

    /// Number of frames under the view.
    pub open spec fn spec_frame_count(&self) -> nat {
        self.data@.len() / bytes_per_frame(self.format, self.channels)
    }

    /// Number of samples under the view, all channels together.
    pub open spec fn spec_sample_count(&self) -> nat {
        self.data@.len() / self.format.spec_size_in_bytes()
    }

    /// Looks at `data` as writable frames of `channels` samples in `format`.
    ///
    /// Refused with `InvalidArgs` when the channel count is out of range or
    /// the buffer ends inside a frame; the buffer is then left as it was.
    pub fn wrap(data: &'a mut [u8], format: Format, channels: u32) -> (r: Result<
        FramesMut<'a>,
        Error,
    >)
        ensures
            valid_layout(old(data)@.len(), format, channels) ==> r is Ok,
            r matches Ok(f) ==> {
                &&& f.data@ == old(data)@
                &&& final(f.data)@ == final(data)@
                &&& f.format == format
                &&& f.channels == channels
                &&& f.wf()
            },
            r matches Err(e) ==> {
                &&& e == Error::InvalidArgs
                &&& !valid_layout(old(data)@.len(), format, channels)
                &&& final(data)@ == old(data)@
            },
    {
        if channels < 1 || channels > MAX_CHANNELS {
            return Err(Error::InvalidArgs);
        }
        let width: usize = frame_width(format, channels);
        if data.len() % width != 0 {
            return Err(Error::InvalidArgs);
        }
        Ok(FramesMut { data, format, channels })
    }

    /// The sample format.
    pub fn format(&self) -> (r: Format)
        ensures
            r == self.format,
    {
        self.format
    }

    /// Samples per frame.
    pub fn channels(&self) -> (r: u32)
        ensures
            r == self.channels,
    {
        self.channels
    }

    /// Number of bytes under the view.
    pub fn byte_count(&self) -> (n: usize)
        ensures
            n == self@.len(),
    {
        self.data.len()
    }

    /// Number of frames under the view.
    pub fn frame_count(&self) -> (n: usize)
        requires
            self.wf(),
        ensures
            n == self.spec_frame_count(),
            n * bytes_per_frame(self.format, self.channels) == self@.len(),
    {
        let width: usize = frame_width(self.format, self.channels);
        let n: usize = self.data.len() / width;
        proof {
            lemma_exact_division(self.data@.len(), width as nat);
        }
        n
    }

    /// Number of samples under the view, all channels together.
    pub fn sample_count(&self) -> (n: usize)
        requires
            self.wf(),
        ensures
            n == self.spec_sample_count(),
            n == self.spec_frame_count() * self.channels,
            n * self.format.spec_size_in_bytes() == self@.len(),
    {
        let size: usize = self.format.size_in_bytes();
        let n: usize = self.data.len() / size;
        proof {
            lemma_layout_counts(self.data@.len(), self.format, self.channels);
        }
        n
    }

    /// The bytes under the view.
    pub fn as_bytes(&self) -> (r: &[u8])
        ensures
            r@ == self@,
    {
        &*self.data
    }

    /// The byte at `index`.
    pub fn byte(&self, index: usize) -> (b: u8)
        requires
            index < self@.len(),
        ensures
            b == self@[index as int],
    {
        self.data[index]
    }

    /// The sample at `index`, counted over all channels, of a 16-bit view.
    pub fn sample_s16(&self, index: usize) -> (v: i16)
        requires
            self.format == Format::S16,
            index < samples_s16(self@).len(),
        ensures
            v == samples_s16(self@)[index as int],
    {
        let len: usize = self.data.len();
        decode_s16(self.data[2 * index], self.data[2 * index + 1])
    }

    /// Stores `value` as the sample at `index` of a 16-bit view; every other
    /// sample, and a trailing odd byte, stay as they were.
    pub fn set_sample_s16(&mut self, index: usize, value: i16)
        requires
            old(self).format == Format::S16,
            index < samples_s16(old(self)@).len(),
        ensures
            samples_s16(final(self)@) == samples_s16(old(self)@).update(index as int, value),
            final(self)@.len() == old(self)@.len(),
            forall|i: int|
                0 <= i < old(self)@.len() && i != 2 * index && i != 2 * index + 1
                    ==> final(self)@[i] == old(self)@[i],
            final(self).format == old(self).format,
            final(self).channels == old(self).channels,
            final(final(self).data)@ == final(old(self).data)@,
    {
        let (lo, hi) = encode_s16(value);
        let len: usize = self.data.len();
        self.data[2 * index] = lo;
        self.data[2 * index + 1] = hi;
        proof {
            lemma_s16_bytes_round_trip(value, lo, hi);
        }
    }

    /// Copies every byte of `input` into the view.
    pub fn copy_from(&mut self, input: &Frames<'_>)
        requires
            old(self)@.len() == input@.len(),
        ensures
            final(self)@ == input@,
            final(self).format == old(self).format,
            final(self).channels == old(self).channels,
            final(final(self).data)@ == final(old(self).data)@,
    {
        let n: usize = input.data.len();
        let mut i: usize = 0;
        while i < n
            invariant
                i <= n,
                n == input@.len(),
                self@.len() == n,
                self.format == old(self).format,
                self.channels == old(self).channels,
                final(self.data)@ == final(old(self).data)@,
                forall|j: int| 0 <= j < i ==> self@[j] == input@[j],
            decreases n - i,
        {
            self.data[i] = input.data[i];
            i += 1;
        }
    }
}

/// Whether a filter may read `input` and write `output`: both hold the same
/// format and channel count (else `FormatMismatch`) and the same number of
/// frames (else `FrameCountMismatch`).
pub open spec fn frames_compat(output: &FramesMut<'_>, input: &Frames<'_>) -> Result<(), Error> {
    if output.format != input.format || output.channels != input.channels {
        Err(Error::FormatMismatch)
    } else if output.spec_frame_count() != input.spec_frame_count() {
        Err(Error::FrameCountMismatch)
    } else {
        Ok(())
    }
}

/// Tells whether `output` can take what a filter makes of `input`.
pub fn ensure_frames_compat(output: &FramesMut<'_>, input: &Frames<'_>) -> (r: Result<(), Error>)
    requires
        output.wf(),
        input.wf(),
    ensures
        r == frames_compat(output, input),
        r is Ok ==> output@.len() == input@.len(),
{
    if output.format() != input.format() || output.channels() != input.channels() {
        return Err(Error::FormatMismatch);
    }
    if output.frame_count() != input.frame_count() {
        return Err(Error::FrameCountMismatch);
    }
    Ok(())
}

/// A buffer that splits into whole frames splits into whole samples too, and
/// holds `channels` samples for each frame.
pub proof fn lemma_layout_counts(len: nat, format: Format, channels: u32)
    requires
        valid_layout(len, format, channels),
    ensures
        len % format.spec_size_in_bytes() == 0,
        (len / format.spec_size_in_bytes()) * format.spec_size_in_bytes() == len,
        len / format.spec_size_in_bytes() == (len / bytes_per_frame(format, channels)) * channels,
        (len / bytes_per_frame(format, channels)) * bytes_per_frame(format, channels) == len,
{
    let size: nat = format.spec_size_in_bytes();
    let width: nat = bytes_per_frame(format, channels);
    let frames: nat = len / width;
    lemma_exact_division(len, width);
    assert(len == (frames * channels) * size) by (nonlinear_arith)
        requires
            len == frames * width,
            width == size * channels as nat,
    ;
    lemma_division_of_multiple((frames * channels) as nat, size);
}

proof fn lemma_exact_division(len: nat, width: nat)
    requires
        width > 0,
        len % width == 0,
    ensures
        (len / width) * width == len,
{
    vstd::arithmetic::div_mod::lemma_fundamental_div_mod(len as int, width as int);
    assert((len / width) * width == width * (len / width)) by (nonlinear_arith);
}

proof fn lemma_division_of_multiple(count: nat, size: nat)
    requires
        size > 0,
    ensures
        (count * size) % size == 0,
        (count * size) / size == count,
{
    vstd::arithmetic::div_mod::lemma_mod_multiples_basic(count as int, size as int);
    vstd::arithmetic::div_mod::lemma_div_multiples_vanish(count as int, size as int);
    assert(count * size == size * count) by (nonlinear_arith);
}

} // verus!
