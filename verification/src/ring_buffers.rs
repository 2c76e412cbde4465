//! A bounded first-in first-out buffer for samples, and the pair of handles
//! that lets one side write while another side reads.
//!
//! [`RingBuffer`] is the buffer itself, owned by one caller at a time; what
//! each operation does to its contents is stated exactly. [`ring_buffer`]
//! puts one behind a lock and hands out the only two handles there will
//! ever be: [`RingBufferSend`] can only write, [`RingBufferRecv`] can only
//! read. An operation on a handle may run between any two operations of the
//! other handle, so a handle cannot say what the buffer holds. It can say
//! what the other side cannot take away: room, once seen by the writing end,
//! stays until that end uses it, and so do waiting samples for the reading
//! end.

use vstd::prelude::*;
use vstd::rwlock::RwLock;
use vstd::rwlock::RwLockPredicate;
use std::sync::Arc;
use crate::base::Error;

verus! {

/// How many of `requested` samples a buffer of `capacity` that holds `held`
/// accepts: all of them, or as many as there is room for.
pub open spec fn write_count(held: nat, capacity: nat, requested: nat) -> nat {
    if requested <= capacity - held {
        requested
    } else {
        (capacity - held) as nat
    }
}

/// The contents of a buffer of `capacity` after `samples` were offered to
/// it: what it can take of them is appended, in order.
pub open spec fn after_write<T>(contents: Seq<T>, capacity: nat, samples: Seq<T>) -> Seq<T> {
    contents + samples.take(write_count(contents.len(), capacity, samples.len()) as int)
}

/// How many samples a buffer that holds `held` hands out when `requested`
/// are asked for: all of them, or as many as it holds.
pub open spec fn read_count(held: nat, requested: nat) -> nat {
    if requested <= held {
        requested
    } else {
        held
    }
}

/// The samples that a buffer hands out when `requested` are asked for: its
/// oldest ones, oldest first.
pub open spec fn read_data<T>(contents: Seq<T>, requested: nat) -> Seq<T> {
    contents.take(read_count(contents.len(), requested) as int)
}

/// The contents of a buffer after `requested` samples were asked of it.
pub open spec fn after_read<T>(contents: Seq<T>, requested: nat) -> Seq<T> {
    contents.skip(read_count(contents.len(), requested) as int)
}

/// The position `p`, which may have run past the end by less than one
/// round, brought back into a store of `capacity` slots.
pub open spec fn wrap(p: int, capacity: int) -> int {
    if p < capacity {
        p
    } else {
        p - capacity
    }
}

/// A fixed-capacity circular store of samples with a read cursor, a write
/// cursor and a count of the samples waiting to be read.
pub struct RingBuffer<T> {
    storage: Vec<T>,
    subbuffer_len: usize,
    subbuffer_count: usize,
    capacity: usize,
    read_cursor: usize,
    write_cursor: usize,
    available: usize,
}

impl<T: Copy> View for RingBuffer<T> {
    type V = Seq<T>;

    /// The samples waiting to be read, oldest first.
    closed spec fn view(&self) -> Seq<T> {
        Seq::new(
            self.available as nat,
            |i: int| self.storage@[wrap(self.read_cursor + i, self.capacity as int)],
        )
    }
}

impl<T: Copy> RingBuffer<T> {
    /// The cursors stay inside the store, the write cursor is as far ahead
    /// of the read cursor as there are samples waiting, and every waiting
    /// sample has been written.
    pub closed spec fn wf(&self) -> bool {
        &&& self.capacity > 0
        &&& self.capacity == self.subbuffer_len * self.subbuffer_count
        &&& self.read_cursor < self.capacity
        &&& self.available <= self.capacity
        &&& self.write_cursor == wrap(self.read_cursor + self.available, self.capacity as int)
        &&& self.storage@.len() <= self.capacity
        &&& self.storage@.len() < self.capacity ==> self.read_cursor + self.available
            == self.storage@.len()
    }

    /// Number of samples the buffer can hold.
    pub closed spec fn spec_capacity(&self) -> usize {
        self.capacity
    }

    /// Length of one subbuffer, in samples.
    pub closed spec fn spec_subbuffer_len(&self) -> usize {
        self.subbuffer_len
    }

    /// Number of subbuffers.
    pub closed spec fn spec_subbuffer_count(&self) -> usize {
        self.subbuffer_count
    }

    /// Where the next sample will be read from.
    pub closed spec fn spec_read_cursor(&self) -> usize {
        self.read_cursor
    }

    /// Where the next sample will be written to.
    pub closed spec fn spec_write_cursor(&self) -> usize {
        self.write_cursor
    }

    /// In a consistent buffer the samples waiting and the room left add up
    /// to the capacity, which is the subbuffer length times the subbuffer
    /// count, and the write cursor is the read cursor moved on by the number
    /// of samples waiting.
    pub proof fn lemma_wf(&self)
        requires
            self.wf(),
        ensures
            self@.len() <= self.spec_capacity(),
            self.spec_capacity() > 0,
            self.spec_capacity() == self.spec_subbuffer_len() * self.spec_subbuffer_count(),
            self.spec_read_cursor() < self.spec_capacity(),
            self.spec_write_cursor() == wrap(
                self.spec_read_cursor() + self@.len(),
                self.spec_capacity() as int,
            ),
    {
    }

    /// What `with_storage` and `new` answer to a subbuffer length and count
    /// before any memory is asked for.
    pub open spec fn size_outcome(subbuffer_len: usize, subbuffer_count: usize) -> Result<(), Error> {
        if subbuffer_len == 0 || subbuffer_count == 0 {
            Err(Error::InvalidArgs)
        } else if subbuffer_len * subbuffer_count > usize::MAX {
            Err(Error::OutOfMemory)
        } else {
            Ok(())
        }
    }

    /// Builds an empty buffer of `subbuffer_count` subbuffers of
    /// `subbuffer_len` samples each on memory that the caller brings. What
    /// `storage` held is dropped.
    ///
    /// Refused with `InvalidArgs` when the length or the count is zero, and
    /// with `OutOfMemory` when their product cannot be addressed.
    pub fn with_storage(storage: Vec<T>, subbuffer_len: usize, subbuffer_count: usize) -> (r:
        Result<RingBuffer<T>, Error>)
        ensures
            Self::size_outcome(subbuffer_len, subbuffer_count) is Ok ==> r is Ok,
            Self::size_outcome(subbuffer_len, subbuffer_count) matches Err(e) ==> r is Err
                && r->Err_0 == e,
            r matches Ok(rb) ==> {
                &&& rb.wf()
                &&& rb@ == Seq::<T>::empty()
                &&& rb.spec_capacity() == subbuffer_len * subbuffer_count
                &&& rb.spec_subbuffer_len() == subbuffer_len
                &&& rb.spec_subbuffer_count() == subbuffer_count
            },
    {
        if subbuffer_len == 0 || subbuffer_count == 0 {
            return Err(Error::InvalidArgs);
        }
        let capacity: usize = match subbuffer_len.checked_mul(subbuffer_count) {
            Some(c) => c,
            None => {
                return Err(Error::OutOfMemory);
            },
        };
        assert(capacity > 0) by (nonlinear_arith)
            requires
                capacity == subbuffer_len * subbuffer_count,
                subbuffer_len > 0,
                subbuffer_count > 0,
        ;
        let mut storage = storage;
        storage.clear();
        let rb = RingBuffer {
            storage,
            subbuffer_len,
            subbuffer_count,
            capacity,
            read_cursor: 0,
            write_cursor: 0,
            available: 0,
        };
        Ok(rb)
    }

    /// Builds an empty buffer of `subbuffer_count` subbuffers of
    /// `subbuffer_len` samples each, and asks for all its memory at once.
    ///
    /// Refused with `InvalidArgs` when the length or the count is zero, and
    /// with `OutOfMemory` when their product cannot be addressed or the
    /// memory cannot be had.
    pub fn new(subbuffer_len: usize, subbuffer_count: usize) -> (r: Result<RingBuffer<T>, Error>)
        ensures
            Self::size_outcome(subbuffer_len, subbuffer_count) matches Err(e) ==> r is Err
                && r->Err_0 == e,
            r matches Err(e) ==> e == Error::OutOfMemory || Self::size_outcome(
                subbuffer_len,
                subbuffer_count,
            ) == Err::<(), Error>(e),
            r matches Ok(rb) ==> {
                &&& rb.wf()
                &&& rb@ == Seq::<T>::empty()
                &&& rb.spec_capacity() == subbuffer_len * subbuffer_count
                &&& rb.spec_subbuffer_len() == subbuffer_len
                &&& rb.spec_subbuffer_count() == subbuffer_count
            },
    {
        if subbuffer_len == 0 || subbuffer_count == 0 {
            return Err(Error::InvalidArgs);
        }
        let mut storage: Vec<T> = Vec::new();
        match subbuffer_len.checked_mul(subbuffer_count) {
            Some(capacity) => {
                if storage.try_reserve(capacity).is_err() {
                    return Err(Error::OutOfMemory);
                }
            },
            None => {
                return Err(Error::OutOfMemory);
            },
        }
        Self::with_storage(storage, subbuffer_len, subbuffer_count)
    }

    /// Number of samples the buffer can hold.
    pub fn capacity(&self) -> (n: usize)
        ensures
            n == self.spec_capacity(),
    {
        self.capacity
    }

    /// Length of one subbuffer, in samples.
    pub fn subbuffer_len(&self) -> (n: usize)
        ensures
            n == self.spec_subbuffer_len(),
    {
        self.subbuffer_len
    }

    /// Number of subbuffers.
    pub fn subbuffer_count(&self) -> (n: usize)
        ensures
            n == self.spec_subbuffer_count(),
    {
        self.subbuffer_count
    }

    /// Number of samples waiting to be read.
    pub fn available_read(&self) -> (n: usize)
        requires
            self.wf(),
        ensures
            n == self@.len(),
    {
        self.available
    }

    /// Number of samples that can be written before the buffer is full.
    pub fn available_write(&self) -> (n: usize)
        requires
            self.wf(),
        ensures
            n == self.spec_capacity() - self@.len(),
            n + self@.len() == self.spec_capacity(),
    {
        self.capacity - self.available
    }

    /// Where the next sample will be read from.
    pub fn read_cursor(&self) -> (n: usize)
        ensures
            n == self.spec_read_cursor(),
    {
        self.read_cursor
    }

    /// Where the next sample will be written to.
    pub fn write_cursor(&self) -> (n: usize)
        ensures
            n == self.spec_write_cursor(),
    {
        self.write_cursor
    }

    /// Appends as many of `samples` as there is room for, in order, and
    /// returns how many that was. A full buffer takes none.
    pub fn write(&mut self, samples: &[T]) -> (n: usize)
        requires
            old(self).wf(),
        ensures
            final(self).wf(),
            final(self).spec_capacity() == old(self).spec_capacity(),
            final(self).spec_subbuffer_len() == old(self).spec_subbuffer_len(),
            final(self).spec_subbuffer_count() == old(self).spec_subbuffer_count(),
            final(self).spec_read_cursor() == old(self).spec_read_cursor(),
            n == write_count(old(self)@.len(), old(self).spec_capacity() as nat, samples@.len()),
            final(self)@ == after_write(old(self)@, old(self).spec_capacity() as nat, samples@),
    {
        let free: usize = self.capacity - self.available;
        let n: usize = if samples.len() <= free { samples.len() } else { free };
        let mut i: usize = 0;
        while i < n
            invariant
                i <= n,
                n <= samples@.len(),
                self.wf(),
                self.capacity == old(self).capacity,
                self.subbuffer_len == old(self).subbuffer_len,
                self.subbuffer_count == old(self).subbuffer_count,
                self.read_cursor == old(self).read_cursor,
                self.available == old(self).available + i,
                old(self).available + n <= self.capacity,
                self@ == old(self)@ + samples@.take(i as int),
            decreases n - i,
        {
            let ghost held = self@;
            let v: T = samples[i];
            let pos: usize = self.write_cursor;
            if pos == self.storage.len() {
                self.storage.push(v);
            } else {
                self.storage[pos] = v;
            }
            self.write_cursor = if pos + 1 == self.capacity { 0 } else { pos + 1 };
            self.available = self.available + 1;
            proof {
                assert(held.push(v) =~= old(self)@ + samples@.take(i + 1));
            }
            i += 1;
        }
        n
    }

    /// Moves as many of the oldest samples as `out` has room for from the
    /// buffer into the front of `out`, oldest first, and returns how many
    /// that was. The rest of `out` keeps what it held. An empty buffer gives
    /// none.
    pub fn read(&mut self, out: &mut [T]) -> (n: usize)
        requires
            old(self).wf(),
        ensures
            final(self).wf(),
            final(self).spec_capacity() == old(self).spec_capacity(),
            final(self).spec_subbuffer_len() == old(self).spec_subbuffer_len(),
            final(self).spec_subbuffer_count() == old(self).spec_subbuffer_count(),
            final(self).spec_write_cursor() == old(self).spec_write_cursor(),
            n == read_count(old(self)@.len(), old(out)@.len()),
            final(out)@ == read_data(old(self)@, old(out)@.len()) + old(out)@.skip(n as int),
            final(self)@ == after_read(old(self)@, old(out)@.len()),
    {
        let n: usize = self.read_at(out, 0);
        n
    }

    /// As `read`, but fills `out` from position `start` on and leaves what
    /// stands before it.
    pub fn read_at(&mut self, out: &mut [T], start: usize) -> (n: usize)
        requires
            old(self).wf(),
            start <= old(out)@.len(),
        ensures
            final(self).wf(),
            final(self).spec_capacity() == old(self).spec_capacity(),
            final(self).spec_subbuffer_len() == old(self).spec_subbuffer_len(),
            final(self).spec_subbuffer_count() == old(self).spec_subbuffer_count(),
            final(self).spec_write_cursor() == old(self).spec_write_cursor(),
            n == read_count(old(self)@.len(), (old(out)@.len() - start) as nat),
            final(out)@ == old(out)@.take(start as int) + read_data(
                old(self)@,
                (old(out)@.len() - start) as nat,
            ) + old(out)@.skip(start + n),
            final(self)@ == after_read(old(self)@, (old(out)@.len() - start) as nat),
    {
        let len: usize = out.len();
        let room: usize = len - start;
        let n: usize = if room <= self.available { room } else { self.available };
        let mut i: usize = 0;
        while i < n
            invariant
                i <= n,
                n <= old(self).available,
                start + n <= len,
                out@.len() == len,
                out@.len() == old(out)@.len(),
                self.wf(),
                self.capacity == old(self).capacity,
                self.subbuffer_len == old(self).subbuffer_len,
                self.subbuffer_count == old(self).subbuffer_count,
                self.write_cursor == old(self).write_cursor,
                self.available == old(self).available - i,
                self@ == old(self)@.skip(i as int),
                out@ == old(out)@.take(start as int) + old(self)@.take(i as int) + old(out)@.skip(
                    start + i,
                ),
            decreases n - i,
        {
            let ghost held = self@;
            let pos: usize = self.read_cursor;
            assert(held[0] == self.storage@[pos as int]);
            let v: T = self.storage[pos];
            out[start + i] = v;
            self.read_cursor = if pos + 1 == self.capacity { 0 } else { pos + 1 };
            self.available = self.available - 1;
            proof {
                assert(held.skip(1) =~= old(self)@.skip(i + 1));
            }
            i += 1;
        }
        n
    }
}

/// What the lock between the two handles guards: a consistent buffer of
/// one fixed capacity.
pub struct SharedRing {
    /// Number of samples the shared buffer can hold.
    pub capacity: usize,
}

impl<T: Copy> RwLockPredicate<RingBuffer<T>> for SharedRing {
    open spec fn inv(self, v: RingBuffer<T>) -> bool {
        v.wf() && v.spec_capacity() == self.capacity
    }
}

/// The smaller of what is asked for and what is known to be there: the
/// least that an end can count on.
pub open spec fn assured(known: nat, requested: nat) -> nat {
    if requested <= known {
        requested
    } else {
        known
    }
}

/// The writing end of a shared ring buffer. There is one per buffer.
///
/// Only this end fills the buffer, so the room it has seen can shrink by
/// nothing but its own writes. The end remembers the room it saw last and
/// holds every later look at the buffer against it. Should the room ever be
/// found smaller than it was left, the end stops being
/// [intact](Self::is_intact) and promises nothing it cannot see for itself.
pub struct RingBufferSend<T: Copy> {
    shared: Arc<RwLock<RingBuffer<T>, SharedRing>>,
    room: usize,
    intact: bool,
}

/// The reading end of a shared ring buffer. There is one per buffer.
///
/// Only this end empties the buffer, so the samples it has seen waiting can
/// become fewer by nothing but its own reads. The end remembers the number
/// it saw last and holds every later look at the buffer against it. Should
/// fewer ever be found than were left, the end stops being
/// [intact](Self::is_intact) and promises nothing it cannot see for itself.
pub struct RingBufferRecv<T: Copy> {
    shared: Arc<RwLock<RingBuffer<T>, SharedRing>>,
    data: usize,
    intact: bool,
}

impl<T: Copy> RingBuffer<T> {
    /// Gives the buffer up for its two ends: the only handle that can write
    /// to it and the only handle that can read from it. Each end starts out
    /// knowing what the buffer holds.
    pub fn split(self) -> (r: (RingBufferSend<T>, RingBufferRecv<T>))
        requires
            self.wf(),
        ensures
            r.0.spec_capacity() == self.spec_capacity(),
            r.1.spec_capacity() == self.spec_capacity(),
            r.0.spec_known_room() == self.spec_capacity() - self@.len(),
            r.1.spec_known_data() == self@.len(),
            r.0.spec_intact(),
            r.1.spec_intact(),
    {
        let room: usize = self.available_write();
        let data: usize = self.available_read();
        let ghost guard = SharedRing { capacity: self.capacity };
        let lock = RwLock::<RingBuffer<T>, SharedRing>::new(self, Ghost(guard));
        let sending = Arc::new(lock);
        let receiving = Arc::clone(&sending);
        (
            RingBufferSend { shared: sending, room, intact: true },
            RingBufferRecv { shared: receiving, data, intact: true },
        )
    }
}

/// Creates a ring buffer of `subbuffer_count` subbuffers of `subbuffer_len`
/// samples each and returns its two ends. The buffer is empty, and both ends
/// know it.
///
/// Refused with `InvalidArgs` when the length or the count is zero, and with
/// `OutOfMemory` when their product cannot be addressed or the memory cannot
/// be had.
pub fn ring_buffer<T: Copy>(subbuffer_len: usize, subbuffer_count: usize) -> (r: Result<
    (RingBufferSend<T>, RingBufferRecv<T>),
    Error,
>)
    ensures
        RingBuffer::<T>::size_outcome(subbuffer_len, subbuffer_count) matches Err(e) ==> r is Err
            && r->Err_0 == e,
        r matches Err(e) ==> e == Error::OutOfMemory || RingBuffer::<T>::size_outcome(
            subbuffer_len,
            subbuffer_count,
        ) == Err::<(), Error>(e),
        r matches Ok(ends) ==> {
            &&& ends.0.spec_capacity() == subbuffer_len * subbuffer_count
            &&& ends.1.spec_capacity() == subbuffer_len * subbuffer_count
            &&& ends.0.spec_known_room() == subbuffer_len * subbuffer_count
            &&& ends.1.spec_known_data() == 0
            &&& ends.0.spec_intact()
            &&& ends.1.spec_intact()
        },
{
    match RingBuffer::<T>::new(subbuffer_len, subbuffer_count) {
        Ok(rb) => Ok(rb.split()),
        Err(e) => Err(e),
    }
}

impl<T: Copy> RingBufferSend<T> {
    /// Number of samples the shared buffer can hold.
    pub closed spec fn spec_capacity(&self) -> usize {
        self.shared.pred().capacity
    }

    /// The room this end saw when it last looked at the buffer, less what
    /// it has written since.
    pub closed spec fn spec_known_room(&self) -> usize {
        self.room
    }

    /// Whether the room was never found smaller than this end had left it.
    pub closed spec fn spec_intact(&self) -> bool {
        self.intact
    }

    /// Number of samples the shared buffer can hold.
    pub fn capacity(&self) -> (n: usize)
        ensures
            n == self.spec_capacity(),
    {
        let guard = self.shared.acquire_read();
        let n: usize = guard.borrow().capacity();
        guard.release_read();
        n
    }

    /// The room this end saw when it last looked at the buffer, less what
    /// it has written since. While the end is intact, at least this many
    /// samples can be written.
    pub fn known_room(&self) -> (n: usize)
        ensures
            n == self.spec_known_room(),
    {
        self.room
    }

    /// Whether the room was never found smaller than this end had left it.
    pub fn is_intact(&self) -> (b: bool)
        ensures
            b == self.spec_intact(),
    {
        self.intact
    }

    /// Looks at the buffer and returns the number of samples that can be
    /// written now. The end remembers the number; while it is intact, the
    /// number is no smaller than what it knew before.
    pub fn available(&mut self) -> (n: usize)
        ensures
            n <= old(self).spec_capacity(),
            n == final(self).spec_known_room(),
            final(self).spec_intact() ==> old(self).spec_intact() && n >= old(
                self,
            ).spec_known_room(),
            final(self).spec_capacity() == old(self).spec_capacity(),
    {
        let guard = self.shared.acquire_read();
        let n: usize = guard.borrow().available_write();
        guard.release_read();
        if n < self.room {
            self.intact = false;
        }
        self.room = n;
        n
    }

    /// Appends as many of `src` as there is room for, in order, and returns
    /// how many that was; see [`RingBuffer::write`]. The call does not wait
    /// for room: a full buffer takes none. It waits only while the reading
    /// end is in the middle of an operation.
    ///
    /// Either all of `src` is taken, or the buffer is left full. While the
    /// end is intact, at least what is known to fit is taken.
    pub fn write(&mut self, src: &[T]) -> (n: usize)
        ensures
            n <= src@.len(),
            n <= old(self).spec_capacity(),
            n == src@.len() || final(self).spec_known_room() == 0,
            final(self).spec_known_room() + n <= old(self).spec_capacity(),
            final(self).spec_intact() ==> {
                &&& old(self).spec_intact()
                &&& n >= assured(old(self).spec_known_room() as nat, src@.len())
                &&& final(self).spec_known_room() + n >= old(self).spec_known_room()
            },
            final(self).spec_capacity() == old(self).spec_capacity(),
    {
        let (mut ring, handle) = self.shared.acquire_write();
        let room: usize = ring.available_write();
        let n: usize = ring.write(src);
        handle.release_write(ring);
        if room < self.room {
            self.intact = false;
        }
        self.room = room - n;
        n
    }
}

impl<T: Copy> RingBufferRecv<T> {
    /// Number of samples the shared buffer can hold.
    pub closed spec fn spec_capacity(&self) -> usize {
        self.shared.pred().capacity
    }

    /// The number of samples this end saw waiting when it last looked at
    /// the buffer, less what it has read since.
    pub closed spec fn spec_known_data(&self) -> usize {
        self.data
    }

    /// Whether fewer samples were never found than this end had left.
    pub closed spec fn spec_intact(&self) -> bool {
        self.intact
    }

    /// Number of samples the shared buffer can hold.
    pub fn capacity(&self) -> (n: usize)
        ensures
            n == self.spec_capacity(),
    {
        let guard = self.shared.acquire_read();
        let n: usize = guard.borrow().capacity();
        guard.release_read();
        n
    }

    /// The number of samples this end saw waiting when it last looked at
    /// the buffer, less what it has read since. While the end is intact, at
    /// least this many samples can be read.
    pub fn known_data(&self) -> (n: usize)
        ensures
            n == self.spec_known_data(),
    {
        self.data
    }

    /// Whether fewer samples were never found than this end had left.
    pub fn is_intact(&self) -> (b: bool)
        ensures
            b == self.spec_intact(),
    {
        self.intact
    }

    /// Looks at the buffer and returns the number of samples that can be
    /// read now. The end remembers the number; while it is intact, the
    /// number is no smaller than what it knew before.
    pub fn available(&mut self) -> (n: usize)
        ensures
            n <= old(self).spec_capacity(),
            n == final(self).spec_known_data(),
            final(self).spec_intact() ==> old(self).spec_intact() && n >= old(
                self,
            ).spec_known_data(),
            final(self).spec_capacity() == old(self).spec_capacity(),
    {
        let guard = self.shared.acquire_read();
        let n: usize = guard.borrow().available_read();
        guard.release_read();
        if n < self.data {
            self.intact = false;
        }
        self.data = n;
        n
    }

    /// Moves as many of the oldest samples as `dest` has room for into the
    /// front of `dest` and returns how many that was; see
    /// [`RingBuffer::read`]. The rest of `dest` keeps what it held. The call
    /// does not wait for samples: an empty buffer gives none. It waits only
    /// while the writing end is in the middle of an operation.
    ///
    /// Either `dest` is filled, or the buffer is left empty. While the end
    /// is intact, at least what is known to wait is read.
    pub fn read(&mut self, dest: &mut [T]) -> (n: usize)
        ensures
            n <= old(dest)@.len(),
            n <= old(self).spec_capacity(),
            final(dest)@.len() == old(dest)@.len(),
            final(dest)@.skip(n as int) == old(dest)@.skip(n as int),
            n == old(dest)@.len() || final(self).spec_known_data() == 0,
            final(self).spec_known_data() + n <= old(self).spec_capacity(),
            final(self).spec_intact() ==> {
                &&& old(self).spec_intact()
                &&& n >= assured(old(self).spec_known_data() as nat, old(dest)@.len())
                &&& final(self).spec_known_data() + n >= old(self).spec_known_data()
            },
            final(self).spec_capacity() == old(self).spec_capacity(),
    {
        self.read_at(dest, 0)
    }

    /// As `read`, but fills `dest` from position `start` on and leaves what
    /// stands before it. With `start` past the end nothing is read and the
    /// buffer is not looked at.
    pub fn read_at(&mut self, dest: &mut [T], start: usize) -> (n: usize)
        ensures
            start + n <= old(dest)@.len() || n == 0,
            n <= old(self).spec_capacity(),
            final(dest)@.len() == old(dest)@.len(),
            final(dest)@.take(start as int) == old(dest)@.take(start as int),
            final(dest)@.skip(start + n) == old(dest)@.skip(start + n),
            start + n >= old(dest)@.len() || final(self).spec_known_data() == 0,
            start <= old(dest)@.len() ==> final(self).spec_known_data() + n <= old(
                self,
            ).spec_capacity(),
            start > old(dest)@.len() ==> final(self).spec_known_data() == old(
                self,
            ).spec_known_data() && final(self).spec_intact() == old(self).spec_intact(),
            final(self).spec_intact() ==> {
                &&& old(self).spec_intact()
                &&& start <= old(dest)@.len() ==> n >= assured(
                    old(self).spec_known_data() as nat,
                    (old(dest)@.len() - start) as nat,
                )
                &&& final(self).spec_known_data() + n >= old(self).spec_known_data()
            },
            final(self).spec_capacity() == old(self).spec_capacity(),
    {
        if start > dest.len() {
            return 0;
        }
        let (mut ring, handle) = self.shared.acquire_write();
        let data: usize = ring.available_read();
        let n: usize = ring.read_at(dest, start);
        handle.release_write(ring);
        if data < self.data {
            self.intact = false;
        }
        self.data = data - n;
        n
    }
}

/// One request to a ring buffer: to take up samples, or to hand out up to a
/// number of samples.
pub enum RingOp<T> {
    /// Offer these samples to the buffer.
    Write(Seq<T>),
    /// Ask the buffer for up to this many samples.
    Read(nat),
}

/// A ring buffer together with everything that went in and came out of it.
pub struct RingTrace<T> {
    /// The samples waiting to be read.
    pub contents: Seq<T>,
    /// Every sample the buffer accepted, in order.
    pub written: Seq<T>,
    /// Every sample the buffer handed out, in order.
    pub read: Seq<T>,
    /// Every sample that was offered, accepted or not.
    pub offered: Seq<T>,
    /// The number of samples asked for, handed out or not.
    pub requested: nat,
}

/// The trace after one more request to a buffer of `capacity`.
pub open spec fn ring_step<T>(t: RingTrace<T>, capacity: nat, op: RingOp<T>) -> RingTrace<T> {
    match op {
        RingOp::Write(samples) => RingTrace {
            contents: after_write(t.contents, capacity, samples),
            written: t.written + samples.take(
                write_count(t.contents.len(), capacity, samples.len()) as int,
            ),
            offered: t.offered + samples,
            ..t
        },
        RingOp::Read(requested) => RingTrace {
            contents: after_read(t.contents, requested),
            read: t.read + read_data(t.contents, requested),
            requested: t.requested + requested,
            ..t
        },
    }
}

/// The trace of an empty buffer of `capacity` after the first `count` of
/// `ops`.
pub open spec fn ring_run<T>(capacity: nat, ops: Seq<RingOp<T>>, count: nat) -> RingTrace<T>
    decreases count,
{
    if count == 0 {
        RingTrace {
            contents: Seq::empty(),
            written: Seq::empty(),
            read: Seq::empty(),
            offered: Seq::empty(),
            requested: 0,
        }
    } else {
        ring_step(ring_run(capacity, ops, (count - 1) as nat), capacity, ops[count - 1])
    }
}

/// Whether none of the first `count` of `ops` asks for more samples than the
/// buffer holds when its turn comes.
pub open spec fn never_reads_ahead<T>(capacity: nat, ops: Seq<RingOp<T>>, count: nat) -> bool {
    forall|i: int|
        0 <= i < count ==> (#[trigger] ops[i] matches RingOp::Read(k) ==> k <= ring_run(
            capacity,
            ops,
            i as nat,
        ).contents.len())
}

/// Nothing is lost, made up or reordered: after any requests whatever, what
/// the buffer accepted is what it has handed out followed by what it still
/// holds, and it never holds more than its capacity. So once it is drained,
/// all that was written has been read, sample for sample.
pub proof fn lemma_ring_conservation<T>(capacity: nat, ops: Seq<RingOp<T>>, count: nat)
    requires
        count <= ops.len(),
    ensures
        ({
            let t = ring_run(capacity, ops, count);
            &&& t.written == t.read + t.contents
            &&& t.contents.len() <= capacity
            &&& t.contents.len() == 0 ==> t.written == t.read
        }),
    decreases count,
{
    if count > 0 {
        lemma_ring_conservation(capacity, ops, (count - 1) as nat);
    }
}

/// When all that is ever offered fits the capacity and no request reads
/// ahead of what was written, every write is taken whole and every read is
/// served whole. Once the buffer is drained, the samples read are the
/// samples offered, and as many were read as were written.
pub proof fn lemma_ring_drained<T>(capacity: nat, ops: Seq<RingOp<T>>, count: nat)
    requires
        count <= ops.len(),
        ring_run(capacity, ops, count).offered.len() <= capacity,
        never_reads_ahead(capacity, ops, count),
    ensures
        ({
            let t = ring_run(capacity, ops, count);
            &&& t.written == t.offered
            &&& t.read.len() == t.requested
            &&& t.contents.len() == 0 ==> t.read == t.offered && t.requested == t.offered.len()
        }),
    decreases count,
{
    lemma_ring_conservation(capacity, ops, count);
    if count > 0 {
        lemma_ring_drained(capacity, ops, (count - 1) as nat);
        lemma_ring_conservation(capacity, ops, (count - 1) as nat);
    }
}

/// Round trip: samples written to an empty buffer that has room for them
/// come back from a read of the same length exactly as they were written,
/// and the buffer is empty again.
pub proof fn lemma_write_read_round_trip<T>(capacity: nat, samples: Seq<T>)
    requires
        samples.len() <= capacity,
    ensures
        read_data(after_write(Seq::<T>::empty(), capacity, samples), samples.len()) == samples,
        after_read(after_write(Seq::<T>::empty(), capacity, samples), samples.len()) == Seq::<
            T,
        >::empty(),
{
}

} // verus!
