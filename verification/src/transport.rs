//! The bodies of the two callbacks that carry audio across a ring buffer.
//!
//! A capture callback is handed a buffer of fresh samples and queues them;
//! a playback callback is handed a buffer to fill and takes samples off the
//! queue. Neither may wait: each makes a bounded number of attempts, and a
//! playback buffer that could not be filled is completed with silence.

use vstd::prelude::*;
use vstd::slice::slice_subrange;
use crate::ring_buffers::read_count;
use crate::ring_buffers::read_data;
use crate::ring_buffers::after_read;
use crate::ring_buffers::assured;
use crate::ring_buffers::RingBuffer;
use crate::ring_buffers::RingBufferRecv;
use crate::ring_buffers::RingBufferSend;

verus! {

/// The number of attempts a callback makes when its caller has no better
/// number.
pub const DEFAULT_ATTEMPTS: u32 = 10;

/// `count` samples of silence.
pub open spec fn silence_of<T>(count: nat, silence: T) -> Seq<T> {
    Seq::new(count, |i: int| silence)
}

/// Overwrites `output` from position `start` to its end with `silence` and
/// leaves what stands before `start`.
pub fn fill_silence<T: Copy>(output: &mut [T], start: usize, silence: T)
    requires
        start <= old(output)@.len(),
    ensures
        final(output)@ == old(output)@.take(start as int) + silence_of(
            (old(output)@.len() - start) as nat,
            silence,
        ),
{
    let len: usize = output.len();
    let mut i: usize = start;
    while i < len
        invariant
            start <= i <= len,
            output@.len() == len,
            len == old(output)@.len(),
            output@.take(start as int) == old(output)@.take(start as int),
            forall|j: int| start <= j < i ==> output@[j] == silence,
        decreases len - i,
    {
        output[i] = silence;
        i += 1;
    }
}

/// Fills `output` from a buffer that the caller holds alone: the oldest
/// samples of `ring` come first, and where they run out the rest is
/// `silence`. Returns the number of samples that came from `ring`.
pub fn playback_from<T: Copy>(ring: &mut RingBuffer<T>, output: &mut [T], silence: T) -> (read:
    usize)
    requires
        old(ring).wf(),
    ensures
        final(ring).wf(),
        final(ring).spec_capacity() == old(ring).spec_capacity(),
        read == read_count(old(ring)@.len(), old(output)@.len()),
        final(output)@ == read_data(old(ring)@, old(output)@.len()) + silence_of(
            (old(output)@.len() - read) as nat,
            silence,
        ),
        final(ring)@ == after_read(old(ring)@, old(output)@.len()),
{
    let read: usize = ring.read(output);
    fill_silence(output, read, silence);
    read
}

/// An empty buffer gives a playback buffer of nothing but silence, whatever
/// its size.
pub proof fn lemma_underrun_is_silence<T>(requested: nat, silence: T)
    ensures
        read_count(0, requested) == 0,
        read_data(Seq::<T>::empty(), requested) + silence_of(requested, silence) == silence_of(
            requested,
            silence,
        ),
{
}

/// What a callback did: how many samples it moved, and how many times it
/// went to the buffer for them.
#[derive(Clone, Copy, Debug, PartialEq, Eq, Structural)]
pub struct Transfer {
    /// Samples queued or read.
    pub samples: usize,
    /// Writes or reads made.
    pub attempts: u32,
}

/// The body of a capture callback: queues `input` through `sender`, trying
/// again with what is left while the buffer takes less than all of it, for
/// at most `attempts` writes. The samples queued are the first ones of
/// `input`.
///
/// The callback goes on until all of `input` is queued or the attempts are
/// used up. When an attempt was made, either all of `input` is queued or the
/// last attempt left the buffer full; and while `sender` is intact, at least
/// what was known to fit is queued.
pub fn capture_callback<T: Copy>(sender: &mut RingBufferSend<T>, input: &[T], attempts: u32) -> (done:
    Transfer)
    ensures
        done.samples <= input@.len(),
        done.attempts <= attempts,
        done.samples == input@.len() || done.attempts == attempts,
        done.attempts == 0 <==> input@.len() == 0 || attempts == 0,
        done.attempts == 0 ==> {
            &&& done.samples == 0
            &&& final(sender).spec_known_room() == old(sender).spec_known_room()
            &&& final(sender).spec_intact() == old(sender).spec_intact()
        },
        done.attempts > 0 ==> done.samples == input@.len() || final(sender).spec_known_room() == 0,
        final(sender).spec_intact() ==> {
            &&& old(sender).spec_intact()
            &&& done.attempts > 0 ==> done.samples >= assured(
                old(sender).spec_known_room() as nat,
                input@.len(),
            )
            &&& final(sender).spec_known_room() + done.samples >= old(sender).spec_known_room()
        },
        final(sender).spec_capacity() == old(sender).spec_capacity(),
{
    let len: usize = input.len();
    let mut written: usize = 0;
    let mut tries: u32 = 0;
    while written < len && tries < attempts
        invariant
            written <= len,
            len == input@.len(),
            tries <= attempts,
            tries == 0 ==> {
                &&& written == 0
                &&& sender.spec_known_room() == old(sender).spec_known_room()
                &&& sender.spec_intact() == old(sender).spec_intact()
            },
            tries > 0 ==> len > 0 && (written == len || sender.spec_known_room() == 0),
            sender.spec_intact() ==> {
                &&& old(sender).spec_intact()
                &&& tries > 0 ==> written >= assured(old(sender).spec_known_room() as nat, len as nat)
                &&& sender.spec_known_room() + written >= old(sender).spec_known_room()
            },
            sender.spec_capacity() == old(sender).spec_capacity(),
        decreases attempts - tries,
    {
        let rest = slice_subrange(input, written, len);
        let n: usize = sender.write(rest);
        written = written + n;
        tries = tries + 1;
    }
    Transfer { samples: written, attempts: tries }
}

/// The body of a playback callback: fills `output` through `receiver`,
/// trying again for what is missing while the buffer gives less than asked,
/// for at most `attempts` reads. What is still missing then is filled with
/// `silence`. The samples read stand at the front of `output`.
///
/// The callback goes on until all of `output` is read or the attempts are
/// used up. When an attempt was made, either all of `output` came from the
/// buffer or the last attempt left the buffer empty; and while `receiver`
/// is intact, at least what was known to wait is read.
pub fn playback_callback<T: Copy>(
    receiver: &mut RingBufferRecv<T>,
    output: &mut [T],
    attempts: u32,
    silence: T,
) -> (done: Transfer)
    ensures
        done.samples <= old(output)@.len(),
        done.attempts <= attempts,
        done.samples == old(output)@.len() || done.attempts == attempts,
        done.attempts == 0 <==> old(output)@.len() == 0 || attempts == 0,
        final(output)@.len() == old(output)@.len(),
        final(output)@.skip(done.samples as int) == silence_of(
            (old(output)@.len() - done.samples) as nat,
            silence,
        ),
        done.attempts == 0 ==> {
            &&& done.samples == 0
            &&& final(receiver).spec_known_data() == old(receiver).spec_known_data()
            &&& final(receiver).spec_intact() == old(receiver).spec_intact()
        },
        done.attempts > 0 ==> done.samples == old(output)@.len()
            || final(receiver).spec_known_data() == 0,
        final(receiver).spec_intact() ==> {
            &&& old(receiver).spec_intact()
            &&& done.attempts > 0 ==> done.samples >= assured(
                old(receiver).spec_known_data() as nat,
                old(output)@.len(),
            )
            &&& final(receiver).spec_known_data() + done.samples
                >= old(receiver).spec_known_data()
        },
        final(receiver).spec_capacity() == old(receiver).spec_capacity(),
{
    let len: usize = output.len();
    let mut read: usize = 0;
    let mut tries: u32 = 0;
    while read < len && tries < attempts
        invariant
            read <= len,
            len == output@.len(),
            len == old(output)@.len(),
            tries <= attempts,
            tries == 0 ==> {
                &&& read == 0
                &&& receiver.spec_known_data() == old(receiver).spec_known_data()
                &&& receiver.spec_intact() == old(receiver).spec_intact()
            },
            tries > 0 ==> len > 0 && (read == len || receiver.spec_known_data() == 0),
            receiver.spec_intact() ==> {
                &&& old(receiver).spec_intact()
                &&& tries > 0 ==> read >= assured(old(receiver).spec_known_data() as nat, len as nat)
                &&& receiver.spec_known_data() + read >= old(receiver).spec_known_data()
            },
            receiver.spec_capacity() == old(receiver).spec_capacity(),
        decreases attempts - tries,
    {
        let n: usize = receiver.read_at(output, read);
        read = read + n;
        tries = tries + 1;
    }
    fill_silence(output, read, silence);
    Transfer { samples: read, attempts: tries }
}

} // verus!
