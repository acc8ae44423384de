//! A fixed-capacity circular byte buffer.
//!
//! The buffer hands the reader a byte-at-a-time cursor over everything that
//! has been written and not yet consumed, without copying, and regardless of
//! how often the window has wrapped around the end of the storage.

use vstd::prelude::*;

verus! {

/// A fixed-capacity circular byte buffer.
///
/// Its view is the sequence of readable bytes: everything written and not
/// yet consumed, oldest first.
pub struct CycleBuffer<const CAPACITY: usize> {
    buffer: Vec<u8>,
    len: usize,
    start: usize,
}

impl<const CAPACITY: usize> CycleBuffer<CAPACITY> {
    /// The storage holds exactly `CAPACITY` bytes and the readable window
    /// lies within it.
    pub closed spec fn wf(&self) -> bool {
        &&& self.buffer.len() == CAPACITY
        &&& self.len <= CAPACITY
        &&& self.start < CAPACITY
    }

    /// The storage slot of the `i`-th readable byte.
    closed spec fn slot(&self, i: int) -> int {
        if self.start + i < CAPACITY {
            self.start + i
        } else {
            self.start + i - CAPACITY
        }
    }
}

impl<const CAPACITY: usize> View for CycleBuffer<CAPACITY> {
    type V = Seq<u8>;

    closed spec fn view(&self) -> Seq<u8> {
        Seq::new(self.len as nat, |i: int| self.buffer[self.slot(i)])
    }
}

impl<const CAPACITY: usize> CycleBuffer<CAPACITY> {
    /// Create an empty buffer.
    pub fn new() -> (b: CycleBuffer<CAPACITY>)
        requires
            CAPACITY >= 1,
        ensures
            b.wf(),
            b@ == Seq::<u8>::empty(),
    {
        let mut buffer: Vec<u8> = Vec::with_capacity(CAPACITY);
        for i in 0..CAPACITY
            invariant
                buffer.len() == i,
        {
            buffer.push(0);
        }
        let b = CycleBuffer { buffer, len: 0, start: 0 };
        proof {
            assert(b@ =~= Seq::<u8>::empty());
        }
        b
    }

    /// The number of readable bytes.
    pub fn len(&self) -> (n: usize)
        ensures
            n == self@.len(),
    {
        self.len
    }

    /// The number of bytes that can still be written before the buffer is
    /// full.
    pub fn free_space(&self) -> (n: usize)
        requires
            self.wf(),
        ensures
            n == CAPACITY - self@.len(),
    {
        CAPACITY - self.len
    }

    /// The `i`-th readable byte, counted from the oldest.
    pub fn byte_at(&self, i: usize) -> (b: u8)
        requires
            self.wf(),
            i < self@.len(),
        ensures
            b == self@[i as int],
    {
        let gap = CAPACITY - self.start;
        let pos = if i < gap {
            self.start + i
        } else {
            i - gap
        };
        self.buffer[pos]
    }

    /// Append as much of `data` as fits; the buffer then holds the old
    /// contents followed by that prefix of `data`. Returns how many bytes
    /// were written.
    pub fn fill_from(&mut self, data: &[u8]) -> (n: usize)
        requires
            old(self).wf(),
        ensures
            final(self).wf(),
            n == if data@.len() <= CAPACITY - old(self)@.len() {
                data@.len() as int
            } else {
                CAPACITY - old(self)@.len()
            },
            final(self)@ == old(self)@ + data@.take(n as int),
    {
        let space = CAPACITY - self.len;
        let n = if data.len() <= space {
            data.len()
        } else {
            space
        };
        let mut k: usize = 0;
        while k < n
            invariant
                self.wf(),
                old(self).wf(),
                n <= data@.len(),
                self@.len() == old(self)@.len() + k,
                n <= CAPACITY - old(self)@.len(),
                k <= n,
                self.start == old(self).start,
                self@ =~= old(self)@ + data@.take(k as int),
            decreases n - k,
        {
            let gap = CAPACITY - self.start;
            let pos = if self.len < gap {
                self.start + self.len
            } else {
                self.len - gap
            };
            let ghost before: Seq<u8> = self@;
            self.buffer[pos] = data[k];
            self.len = self.len + 1;
            proof {
                assert forall|i: int| 0 <= i < before.len() implies self@[i] == before[i] by {
                    assert(self.slot(i) != pos);
                }
                assert(self@[before.len() as int] == data@[k as int]);
                assert(self@ =~= before + seq![data@[k as int]]);
                assert(before + seq![data@[k as int]] =~= old(self)@ + data@.take(k + 1));
            }
            k = k + 1;
        }
        n
    }

    /// Drop the oldest `amount` readable bytes.
    pub fn consume_initialized(&mut self, amount: usize)
        requires
            old(self).wf(),
            amount <= old(self)@.len(),
        ensures
            final(self).wf(),
            final(self)@ == old(self)@.skip(amount as int),
    {
        let gap = CAPACITY - self.start;
        if amount < gap {
            self.start = self.start + amount;
        } else {
            self.start = amount - gap;
        }
        self.len = self.len - amount;
        proof {
            assert(self@ =~= old(self)@.skip(amount as int));
        }
    }

    /// A restartable forward cursor over the readable bytes, starting at the
    /// oldest.
    pub fn iter_initialized(&self) -> (it: IterInitialized)
        ensures
            it.amount_read() == 0,
    {
        IterInitialized { amount_read: 0 }
    }
}

/// A forward cursor over the readable bytes of a [`CycleBuffer`].
///
/// The cursor does not touch the buffer until it is told to commit what it
/// has read (`consume_read`) or to take those bytes out (`take_read`),
/// enabling "peek, then decide" parsing.
pub struct IterInitialized {
    amount_read: usize,
}

impl IterInitialized {
    /// How many bytes the cursor has stepped over.
    pub closed spec fn amount_read(&self) -> usize {
        self.amount_read
    }

    /// Read the next byte, if the cursor has not reached the end of the
    /// readable bytes.
    pub fn next<const CAPACITY: usize>(&mut self, buf: &CycleBuffer<CAPACITY>) -> (b: Option<u8>)
        requires
            buf.wf(),
        ensures
            b == (if old(self).amount_read() < buf@.len() {
                Some(buf@[old(self).amount_read() as int])
            } else {
                Option::<u8>::None
            }),
            final(self).amount_read() == if old(self).amount_read() < buf@.len() {
                old(self).amount_read() + 1
            } else {
                old(self).amount_read() as int
            },
    {
        if self.amount_read < buf.len() {
            let b = buf.byte_at(self.amount_read);
            self.amount_read = self.amount_read + 1;
            Some(b)
        } else {
            None
        }
    }

    /// Commit the read: drop every byte the cursor stepped over from the
    /// buffer.
    pub fn consume_read<const CAPACITY: usize>(self, buf: &mut CycleBuffer<CAPACITY>)
        requires
            old(buf).wf(),
            self.amount_read() <= old(buf)@.len(),
        ensures
            final(buf).wf(),
            final(buf)@ == old(buf)@.skip(self.amount_read() as int),
    {
        buf.consume_initialized(self.amount_read);
    }

    /// Take the bytes the cursor stepped over out of the buffer, dropping
    /// them from it.
    pub fn take_read<const CAPACITY: usize>(self, buf: &mut CycleBuffer<CAPACITY>) -> (bytes: Vec<
        u8,
    >)
        requires
            old(buf).wf(),
            self.amount_read() <= old(buf)@.len(),
        ensures
            final(buf).wf(),
            bytes@ == old(buf)@.take(self.amount_read() as int),
            final(buf)@ == old(buf)@.skip(self.amount_read() as int),
    {
        let mut bytes: Vec<u8> = Vec::with_capacity(self.amount_read);
        let mut k: usize = 0;
        while k < self.amount_read
            invariant
                buf.wf(),
                buf@ == old(buf)@,
                self.amount_read() <= buf@.len(),
                k <= self.amount_read(),
                bytes@ =~= old(buf)@.take(k as int),
            decreases self.amount_read() - k,
        {
            let b = buf.byte_at(k);
            bytes.push(b);
            proof {
                assert(bytes@ =~= old(buf)@.take(k + 1));
            }
            k = k + 1;
        }
        buf.consume_initialized(self.amount_read);
        bytes
    }

    /// Whether the cursor has stepped over every readable byte.
    pub fn read_to_completion<const CAPACITY: usize>(
        &self,
        buf: &CycleBuffer<CAPACITY>,
    ) -> (done: bool)
        ensures
            done == (self.amount_read() == buf@.len()),
    {
        self.amount_read == buf.len()
    }
}

/// The circular buffer is first-in first-out: after any contents, writing
/// `data` and then consuming everything that came before hands back exactly
/// `data`, in order, no matter where the window sits in the storage.
pub proof fn lemma_ring_round_trip(contents: Seq<u8>, data: Seq<u8>)
    ensures
        (contents + data).skip(contents.len() as int) == data,
        (contents + data).take(contents.len() as int) == contents,
{
    assert((contents + data).skip(contents.len() as int) =~= data);
    assert((contents + data).take(contents.len() as int) =~= contents);
}

} // verus!
