use vstd::prelude::*;

use crate::opus_mixer::FRAME_SIZE;

verus! {

/// Number of sample slots in the ring (eight stereo frames).
pub const BUFFER_SIZE: usize = FRAME_SIZE * 8;

/// Number of metadata slots in front of the samples: the read and the write index.
pub const METADATA_SIZE: usize = 2;

/// The slot `i` steps after `base`, for `base < BUFFER_SIZE` and `i < BUFFER_SIZE`.
pub open spec fn ring_add(base: int, i: int) -> int {
    if base + i < BUFFER_SIZE {
        base + i
    } else {
        base + i - BUFFER_SIZE
    }
}

/// Number of steps forward from slot `from` to slot `to`.
pub open spec fn ring_distance(from: int, to: int) -> int {
    if to >= from {
        to - from
    } else {
        BUFFER_SIZE - from + to
    }
}

/// A lock-free single-producer / single-consumer queue of samples.
///
/// The shared region holds the consumer's read index, the producer's write
/// index and `BUFFER_SIZE` sample slots. The producer keeps its own copy of the
/// read index, refreshed by `update_read_ptr`; it never overwrites a slot the
/// consumer has not read, because it computes free space from that copy, which
/// can only lag behind the consumer. One slot always stays empty so that a full
/// ring is told apart from an empty one.
pub struct RingBuffer<T> {
    slots: Vec<T>,
    read_ptr: usize,
    write_ptr: usize,
    shared_read: usize,
    shared_write: usize,
    high_water_mark_read: usize,
    high_water_mark_write: usize,
    total_writes: usize,
    total_reads: usize,
    total_underruns: usize,
    total_samples_written: usize,
    total_samples_read: usize,
    written: Ghost<Seq<T>>,
    delivered: Ghost<Seq<T>>,
}

impl<T: Copy> RingBuffer<T> {
    /// The sample slots, in slot order.
    pub closed spec fn slots(&self) -> Seq<T> {
        self.slots@
    }

    /// The producer's copy of the consumer's read index.
    pub closed spec fn read_index(&self) -> nat {
        self.read_ptr as nat
    }

    /// The producer's write index, also published in the shared region.
    pub closed spec fn write_index(&self) -> nat {
        self.write_ptr as nat
    }

    /// The read index the consumer last published in the shared region.
    pub closed spec fn consumer_index(&self) -> nat {
        self.shared_read as nat
    }

    /// The write index as published in the shared region.
    pub closed spec fn published_write_index(&self) -> nat {
        self.shared_write as nat
    }

    /// The samples the consumer can still read, oldest first.
    pub closed spec fn pending(&self) -> Seq<T> {
        Seq::new(
            ring_distance(self.shared_read as int, self.write_ptr as int) as nat,
            |i: int| self.slots@[ring_add(self.shared_read as int, i)],
        )
    }

    /// The queue as the producer sees it: from its copy of the read index to
    /// the write index, oldest first. Its head holds the `lag` samples the
    /// consumer has already read; the rest is `pending`.
    pub closed spec fn unacknowledged(&self) -> Seq<T> {
        Seq::new(
            ring_distance(self.read_ptr as int, self.write_ptr as int) as nat,
            |i: int| self.slots@[ring_add(self.read_ptr as int, i)],
        )
    }

    /// Samples the consumer has read that the producer has not yet observed.
    pub closed spec fn lag(&self) -> nat {
        ring_distance(self.read_ptr as int, self.shared_read as int) as nat
    }

    /// Every sample stored since creation or the last `clear`, in order.
    pub closed spec fn written(&self) -> Seq<T> {
        self.written@
    }

    /// Every sample handed to the consumer since creation or the last `clear`, in order.
    pub closed spec fn delivered(&self) -> Seq<T> {
        self.delivered@
    }

    /// Samples readable as seen from the producer: `(write - read) mod N`.
    pub closed spec fn available_read_spec(&self) -> nat {
        ring_distance(self.read_ptr as int, self.write_ptr as int) as nat
    }

    /// Free slots as seen from the producer: `N - 1 - available_read`.
    pub open spec fn available_write_spec(&self) -> nat {
        (BUFFER_SIZE - 1 - self.available_read_spec()) as nat
    }

    pub closed spec fn high_water_mark_read_spec(&self) -> nat {
        self.high_water_mark_read as nat
    }

    pub closed spec fn high_water_mark_write_spec(&self) -> nat {
        self.high_water_mark_write as nat
    }

    pub closed spec fn total_writes_spec(&self) -> nat {
        self.total_writes as nat
    }

    pub closed spec fn total_reads_spec(&self) -> nat {
        self.total_reads as nat
    }

    pub closed spec fn total_underruns_spec(&self) -> nat {
        self.total_underruns as nat
    }

    pub closed spec fn total_samples_written_spec(&self) -> nat {
        self.total_samples_written as nat
    }

    pub closed spec fn total_samples_read_spec(&self) -> nat {
        self.total_samples_read as nat
    }

    /// Well-formedness: indices in range, the published write index mirrors the
    /// producer's, the consumer lies between the producer's read copy and the
    /// write index, and what was delivered followed by what is pending is
    /// exactly what was written.
    pub closed spec fn wf(&self) -> bool {
        &&& self.slots@.len() == BUFFER_SIZE
        &&& self.read_ptr < BUFFER_SIZE
        &&& self.write_ptr < BUFFER_SIZE
        &&& self.shared_read < BUFFER_SIZE
        &&& self.shared_write == self.write_ptr
        &&& ring_distance(self.read_ptr as int, self.shared_read as int) <= ring_distance(
            self.read_ptr as int,
            self.write_ptr as int,
        )
        &&& self.delivered@ + self.pending() == self.written@
    }

    proof fn lemma_split(&self)
        requires
            self.wf(),
        ensures
            self.available_read_spec() == self.lag() + self.pending().len(),
            self.available_read_spec() <= BUFFER_SIZE - 1,
            self.available_read_spec() == (self.write_index() + BUFFER_SIZE - self.read_index()) % (
            BUFFER_SIZE as int),
    {
        let x = self.write_ptr + BUFFER_SIZE - self.read_ptr;
        if self.write_ptr >= self.read_ptr {
            assert(x % (BUFFER_SIZE as int) == x - BUFFER_SIZE) by (nonlinear_arith)
                requires
                    BUFFER_SIZE <= x < 2 * BUFFER_SIZE,
            ;
        } else {
            assert(x % (BUFFER_SIZE as int) == x) by (nonlinear_arith)
                requires
                    0 <= x < BUFFER_SIZE,
            ;
        }
    }

    /// Creates an empty ring whose slots all hold `silence`.
    pub fn new(silence: T) -> (r: Self)
        ensures
            r.wf(),
            r.pending().len() == 0,
            r.lag() == 0,
            r.available_read_spec() == 0,
            r.read_index() == 0,
            r.write_index() == 0,
            r.consumer_index() == 0,
            r.written().len() == 0,
            r.delivered().len() == 0,
            r.high_water_mark_read_spec() == 0,
            r.high_water_mark_write_spec() == BUFFER_SIZE - 1,
            r.total_writes_spec() == 0,
            r.total_reads_spec() == 0,
            r.total_underruns_spec() == 0,
            r.total_samples_written_spec() == 0,
            r.total_samples_read_spec() == 0,
    {
        let mut slots: Vec<T> = Vec::new();
        let mut i: usize = 0;
        while i < BUFFER_SIZE
            invariant
                i <= BUFFER_SIZE,
                slots@.len() == i,
            decreases BUFFER_SIZE - i,
        {
            slots.push(silence);
            i += 1;
        }
        let r = RingBuffer {
            slots,
            read_ptr: 0,
            write_ptr: 0,
            shared_read: 0,
            shared_write: 0,
            high_water_mark_read: 0,
            high_water_mark_write: BUFFER_SIZE - 1,
            total_writes: 0,
            total_reads: 0,
            total_underruns: 0,
            total_samples_written: 0,
            total_samples_read: 0,
            written: Ghost(Seq::empty()),
            delivered: Ghost(Seq::empty()),
        };
        assert(r.delivered@ + r.pending() =~= r.written@);
        r
    }

    /// Stores up to `available_write` of `samples` after the write index and
    /// publishes the new write index. Returns how many were stored.
    pub fn write(&mut self, samples: &[T]) -> (r: usize)
        requires
            old(self).wf(),
        ensures
            final(self).wf(),
            r == if samples@.len() < old(self).available_write_spec() {
                samples@.len()
            } else {
                old(self).available_write_spec()
            },
            final(self).pending() == old(self).pending() + samples@.take(r as int),
            final(self).written() == old(self).written() + samples@.take(r as int),
            final(self).delivered() == old(self).delivered(),
            final(self).lag() == old(self).lag(),
            final(self).read_index() == old(self).read_index(),
            final(self).consumer_index() == old(self).consumer_index(),
            final(self).write_index() == ring_add(old(self).write_index() as int, r as int),
            final(self).published_write_index() == final(self).write_index(),
            final(self).available_read_spec() == old(self).available_read_spec() + r,
            final(self).total_writes_spec() == crate::sat_add(old(self).total_writes_spec(), 1),
            final(self).total_samples_written_spec() == crate::sat_add(
                old(self).total_samples_written_spec(),
                r as nat,
            ),
            final(self).total_reads_spec() == old(self).total_reads_spec(),
            final(self).total_samples_read_spec() == old(self).total_samples_read_spec(),
            final(self).total_underruns_spec() == old(self).total_underruns_spec(),
            final(self).high_water_mark_read_spec() == crate::max_nat(
                old(self).high_water_mark_read_spec(),
                final(self).available_read_spec(),
            ),
            final(self).high_water_mark_write_spec() == crate::max_nat(
                old(self).high_water_mark_write_spec(),
                final(self).available_write_spec(),
            ),
    {
        proof {
            self.lemma_split();
        }
        let write_ptr = self.write_ptr;
        let read_ptr = self.read_ptr;
        let available = if write_ptr >= read_ptr {
            BUFFER_SIZE - (write_ptr - read_ptr) - 1
        } else {
            read_ptr - write_ptr - 1
        };
        let to_write = if samples.len() < available {
            samples.len()
        } else {
            available
        };
        let ghost sr = self.shared_read as int;
        let ghost d = ring_distance(sr, write_ptr as int);
        let ghost old_slots = self.slots@;
        let mut i: usize = 0;
        while i < to_write
            invariant
                self.slots@.len() == BUFFER_SIZE,
                self.read_ptr == old(self).read_ptr,
                self.write_ptr == old(self).write_ptr,
                self.shared_read == old(self).shared_read,
                self.shared_write == old(self).shared_write,
                self.written == old(self).written,
                self.delivered == old(self).delivered,
                self.high_water_mark_read == old(self).high_water_mark_read,
                self.high_water_mark_write == old(self).high_water_mark_write,
                self.total_writes == old(self).total_writes,
                self.total_reads == old(self).total_reads,
                self.total_underruns == old(self).total_underruns,
                self.total_samples_written == old(self).total_samples_written,
                self.total_samples_read == old(self).total_samples_read,
                write_ptr == old(self).write_ptr,
                sr == old(self).shared_read,
                write_ptr < BUFFER_SIZE,
                0 <= sr < BUFFER_SIZE,
                0 <= d,
                d + to_write <= BUFFER_SIZE - 1,
                write_ptr == ring_add(sr, d),
                to_write <= samples@.len(),
                i <= to_write,
                forall|k: int|
                    0 <= k < d ==> self.slots@[ring_add(sr, k)] == old_slots[ring_add(sr, k)],
                forall|j: int|
                    0 <= j < i ==> self.slots@[ring_add(write_ptr as int, j)] == samples@[j],
            decreases to_write - i,
        {
            let idx = if write_ptr + i < BUFFER_SIZE {
                write_ptr + i
            } else {
                write_ptr + i - BUFFER_SIZE
            };
            self.slots.set(idx, samples[i]);
            i += 1;
        }
        let new_write_ptr = if write_ptr + to_write < BUFFER_SIZE {
            write_ptr + to_write
        } else {
            write_ptr + to_write - BUFFER_SIZE
        };
        self.write_ptr = new_write_ptr;
        self.shared_write = new_write_ptr;
        self.total_writes = self.total_writes.saturating_add(1);
        self.total_samples_written = self.total_samples_written.saturating_add(to_write);
        proof {
            self.written@ = self.written@ + samples@.take(to_write as int);
            let p = self.pending();
            let q = old(self).pending() + samples@.take(to_write as int);
            assert(d == old(self).pending().len());
            assert(ring_distance(sr, new_write_ptr as int) == d + to_write);
            assert(p.len() == q.len());
            assert forall|k: int| 0 <= k < q.len() implies p[k] == q[k] by {
                if k < d {
                    assert(q[k] == old(self).pending()[k]);
                    assert(p[k] == self.slots@[ring_add(sr, k)]);
                } else {
                    assert(ring_add(sr, k) == ring_add(write_ptr as int, k - d));
                    assert(q[k] == samples@[k - d]);
                    assert(p[k] == self.slots@[ring_add(write_ptr as int, k - d)]);
                }
            }
            assert(p =~= q);
            assert(self.delivered@ + p =~= self.written@);
        }
        self.record_high_water_marks();
        to_write
    }

    /// Raises each high-water mark to the current availability if it is larger.
    fn record_high_water_marks(&mut self)
        requires
            old(self).wf(),
        ensures
            final(self).wf(),
            final(self).slots == old(self).slots,
            final(self).read_ptr == old(self).read_ptr,
            final(self).write_ptr == old(self).write_ptr,
            final(self).shared_read == old(self).shared_read,
            final(self).shared_write == old(self).shared_write,
            final(self).written == old(self).written,
            final(self).delivered == old(self).delivered,
            final(self).total_writes == old(self).total_writes,
            final(self).total_reads == old(self).total_reads,
            final(self).total_underruns == old(self).total_underruns,
            final(self).total_samples_written == old(self).total_samples_written,
            final(self).total_samples_read == old(self).total_samples_read,
            final(self).high_water_mark_read_spec() == crate::max_nat(
                old(self).high_water_mark_read_spec(),
                old(self).available_read_spec(),
            ),
            final(self).high_water_mark_write_spec() == crate::max_nat(
                old(self).high_water_mark_write_spec(),
                old(self).available_write_spec(),
            ),
    {
        let current_read = self.available_read();
        if current_read > self.high_water_mark_read {
            self.high_water_mark_read = current_read;
        }
        let current_write = self.available_write();
        if current_write > self.high_water_mark_write {
            self.high_water_mark_write = current_write;
        }
    }

    /// Takes in the read index the consumer published, counting the samples it
    /// read since the last refresh and whether it read past the written data.
    pub fn update_read_ptr(&mut self)
        requires
            old(self).wf(),
        ensures
            final(self).wf(),
            final(self).read_index() == old(self).consumer_index(),
            final(self).lag() == 0,
            final(self).unacknowledged() == old(self).unacknowledged().subrange(
                old(self).lag() as int,
                old(self).unacknowledged().len() as int,
            ),
            final(self).unacknowledged() == old(self).pending(),
            final(self).pending() == old(self).pending(),
            final(self).slots() == old(self).slots(),
            final(self).written() == old(self).written(),
            final(self).delivered() == old(self).delivered(),
            final(self).write_index() == old(self).write_index(),
            final(self).published_write_index() == old(self).published_write_index(),
            final(self).consumer_index() == old(self).consumer_index(),
            final(self).available_read_spec() == old(self).pending().len(),
            old(self).lag() > 0 ==> final(self).total_reads_spec() == crate::sat_add(
                old(self).total_reads_spec(),
                1,
            ),
            old(self).lag() == 0 ==> final(self).total_reads_spec() == old(self).total_reads_spec(),
            final(self).total_samples_read_spec() == crate::sat_add(
                old(self).total_samples_read_spec(),
                old(self).lag(),
            ),
            final(self).total_underruns_spec() == old(self).total_underruns_spec(),
            final(self).total_writes_spec() == old(self).total_writes_spec(),
            final(self).total_samples_written_spec() == old(self).total_samples_written_spec(),
            final(self).high_water_mark_read_spec() == crate::max_nat(
                old(self).high_water_mark_read_spec(),
                final(self).available_read_spec(),
            ),
            final(self).high_water_mark_write_spec() == crate::max_nat(
                old(self).high_water_mark_write_spec(),
                final(self).available_write_spec(),
            ),
    {
        proof {
            self.lemma_split();
        }
        let consumer_read = self.shared_read;
        let old_read = self.read_ptr;
        let samples_read = if consumer_read >= old_read {
            consumer_read - old_read
        } else {
            BUFFER_SIZE - old_read + consumer_read
        };
        if samples_read > 0 {
            self.total_reads = self.total_reads.saturating_add(1);
            self.total_samples_read = self.total_samples_read.saturating_add(samples_read);
            let write_ptr = self.write_ptr;
            let available_before_read = if write_ptr >= old_read {
                write_ptr - old_read
            } else {
                BUFFER_SIZE - old_read + write_ptr
            };
            if samples_read > available_before_read {
                self.total_underruns = self.total_underruns.saturating_add(1);
            }
        }
        self.read_ptr = consumer_read;
        proof {
            let o = old(self).unacknowledged();
            let lag = old(self).lag() as int;
            let rp = old(self).read_ptr as int;
            let n = self.unacknowledged();
            assert(n.len() == o.len() - lag);
            assert forall|i: int| 0 <= i < n.len() implies n[i] == o.subrange(lag, o.len() as int)[i]
                by {
                assert(ring_add(consumer_read as int, i) == ring_add(rp, i + lag));
            }
            assert(n =~= o.subrange(lag, o.len() as int));
            assert(n =~= old(self).pending());
        }
        self.record_high_water_marks();
    }

    /// Consumer side: reads up to `max` pending samples, oldest first, and
    /// publishes the advanced read index.
    pub fn consume(&mut self, max: usize) -> (r: Vec<T>)
        requires
            old(self).wf(),
        ensures
            final(self).wf(),
            r@.len() == if max < old(self).pending().len() {
                max as nat
            } else {
                old(self).pending().len()
            },
            r@ == old(self).pending().take(r@.len() as int),
            final(self).pending() == old(self).pending().skip(r@.len() as int),
            final(self).delivered() == old(self).delivered() + r@,
            final(self).written() == old(self).written(),
            final(self).lag() == old(self).lag() + r@.len(),
            final(self).consumer_index() == ring_add(
                old(self).consumer_index() as int,
                r@.len() as int,
            ),
            final(self).read_index() == old(self).read_index(),
            final(self).write_index() == old(self).write_index(),
            final(self).available_read_spec() == old(self).available_read_spec(),
            final(self).total_writes_spec() == old(self).total_writes_spec(),
            final(self).total_reads_spec() == old(self).total_reads_spec(),
            final(self).total_underruns_spec() == old(self).total_underruns_spec(),
            final(self).total_samples_written_spec() == old(self).total_samples_written_spec(),
            final(self).total_samples_read_spec() == old(self).total_samples_read_spec(),
            final(self).high_water_mark_read_spec() == old(self).high_water_mark_read_spec(),
            final(self).high_water_mark_write_spec() == old(self).high_water_mark_write_spec(),
    {
        let start = self.shared_read;
        let write_ptr = self.write_ptr;
        let pending = if write_ptr >= start {
            write_ptr - start
        } else {
            BUFFER_SIZE - start + write_ptr
        };
        let n = if max < pending {
            max
        } else {
            pending
        };
        let mut out: Vec<T> = Vec::new();
        let mut i: usize = 0;
        while i < n
            invariant
                self.wf(),
                self.shared_read == start,
                self.write_ptr == write_ptr,
                n <= pending,
                pending == self.pending().len(),
                i <= n,
                out@ == self.pending().take(i as int),
            decreases n - i,
        {
            let idx = if start + i < BUFFER_SIZE {
                start + i
            } else {
                start + i - BUFFER_SIZE
            };
            out.push(self.slots[idx]);
            assert(out@ =~= self.pending().take(i + 1));
            i += 1;
        }
        let new_read = if start + n < BUFFER_SIZE {
            start + n
        } else {
            start + n - BUFFER_SIZE
        };
        self.shared_read = new_read;
        proof {
            self.delivered@ = self.delivered@ + out@;
            let p = self.pending();
            let q = old(self).pending().skip(n as int);
            assert forall|k: int| 0 <= k < q.len() implies p[k] == q[k] by {
                assert(ring_add(new_read as int, k) == ring_add(start as int, k + n));
            }
            assert(p =~= q);
            assert(old(self).pending() =~= out@ + q);
            assert(self.delivered@ + p =~= self.written@);
        }
        out
    }

    /// Samples readable as seen from the producer.
    pub fn available_read(&self) -> (r: usize)
        requires
            self.wf(),
        ensures
            r == self.available_read_spec(),
            r == self.lag() + self.pending().len(),
            r == (self.write_index() + BUFFER_SIZE - self.read_index()) % (BUFFER_SIZE as int),
            r <= BUFFER_SIZE - 1,
    {
        proof {
            self.lemma_split();
        }
        let write_ptr = self.write_ptr;
        let read_ptr = self.read_ptr;
        if write_ptr >= read_ptr {
            write_ptr - read_ptr
        } else {
            BUFFER_SIZE - read_ptr + write_ptr
        }
    }

    /// Free slots as seen from the producer; one slot is always kept empty.
    pub fn available_write(&self) -> (r: usize)
        requires
            self.wf(),
        ensures
            r == self.available_write_spec(),
            r == BUFFER_SIZE - 1 - self.lag() - self.pending().len(),
            r == BUFFER_SIZE - 1 - (self.write_index() + BUFFER_SIZE - self.read_index()) % (
            BUFFER_SIZE as int),
    {
        proof {
            self.lemma_split();
        }
        let write_ptr = self.write_ptr;
        let read_ptr = self.read_ptr;
        if write_ptr >= read_ptr {
            BUFFER_SIZE - (write_ptr - read_ptr) - 1
        } else {
            read_ptr - write_ptr - 1
        }
    }

    /// The number of sample slots.
    pub fn get_buffer_size(&self) -> (r: usize)
        ensures
            r == BUFFER_SIZE,
    {
        BUFFER_SIZE
    }

    /// The sample slots, in slot order.
    pub fn get_buffer(&self) -> (r: &Vec<T>)
        ensures
            r@ == self.slots(),
    {
        &self.slots
    }

    /// Resets both indices to zero, on both sides. Only sound while the
    /// consumer is paused. Lifetime metrics are kept.
    pub fn clear(&mut self)
        requires
            old(self).wf(),
        ensures
            final(self).wf(),
            final(self).read_index() == 0,
            final(self).write_index() == 0,
            final(self).consumer_index() == 0,
            final(self).published_write_index() == 0,
            final(self).pending().len() == 0,
            final(self).lag() == 0,
            final(self).written().len() == 0,
            final(self).delivered().len() == 0,
            final(self).total_writes_spec() == old(self).total_writes_spec(),
            final(self).total_reads_spec() == old(self).total_reads_spec(),
            final(self).total_underruns_spec() == old(self).total_underruns_spec(),
            final(self).total_samples_written_spec() == old(self).total_samples_written_spec(),
            final(self).total_samples_read_spec() == old(self).total_samples_read_spec(),
            final(self).high_water_mark_read_spec() == old(self).high_water_mark_read_spec(),
            final(self).high_water_mark_write_spec() == old(self).high_water_mark_write_spec(),
    {
        self.read_ptr = 0;
        self.write_ptr = 0;
        self.shared_read = 0;
        self.shared_write = 0;
        proof {
            self.written@ = Seq::empty();
            self.delivered@ = Seq::empty();
            assert(self.delivered@ + self.pending() =~= self.written@);
        }
    }

    pub fn get_high_water_mark_read(&self) -> (r: usize)
        ensures
            r == self.high_water_mark_read_spec(),
    {
        self.high_water_mark_read
    }

    pub fn get_high_water_mark_write(&self) -> (r: usize)
        ensures
            r == self.high_water_mark_write_spec(),
    {
        self.high_water_mark_write
    }

    pub fn get_total_writes(&self) -> (r: usize)
        ensures
            r == self.total_writes_spec(),
    {
        self.total_writes
    }

    pub fn get_total_reads(&self) -> (r: usize)
        ensures
            r == self.total_reads_spec(),
    {
        self.total_reads
    }

    pub fn get_total_underruns(&self) -> (r: usize)
        ensures
            r == self.total_underruns_spec(),
    {
        self.total_underruns
    }

    pub fn get_total_samples_written(&self) -> (r: usize)
        ensures
            r == self.total_samples_written_spec(),
    {
        self.total_samples_written
    }

    pub fn get_total_samples_read(&self) -> (r: usize)
        ensures
            r == self.total_samples_read_spec(),
    {
        self.total_samples_read
    }

    /// Puts every metric back to its initial value.
    pub fn reset_metrics(&mut self)
        requires
            old(self).wf(),
        ensures
            final(self).wf(),
            final(self).pending() == old(self).pending(),
            final(self).lag() == old(self).lag(),
            final(self).read_index() == old(self).read_index(),
            final(self).write_index() == old(self).write_index(),
            final(self).consumer_index() == old(self).consumer_index(),
            final(self).written() == old(self).written(),
            final(self).delivered() == old(self).delivered(),
            final(self).high_water_mark_read_spec() == 0,
            final(self).high_water_mark_write_spec() == BUFFER_SIZE - 1,
            final(self).total_writes_spec() == 0,
            final(self).total_reads_spec() == 0,
            final(self).total_underruns_spec() == 0,
            final(self).total_samples_written_spec() == 0,
            final(self).total_samples_read_spec() == 0,
    {
        self.high_water_mark_read = 0;
        self.high_water_mark_write = BUFFER_SIZE - 1;
        self.total_writes = 0;
        self.total_reads = 0;
        self.total_underruns = 0;
        self.total_samples_written = 0;
        self.total_samples_read = 0;
    }
}

/// Whatever the order in which producer and consumer operations interleave,
/// the producer sees between zero and `N - 1` readable samples, and readable
/// plus writable samples always make `N - 1`.
pub proof fn lemma_availability_bounds<T: Copy>(rb: RingBuffer<T>)
    requires
        rb.wf(),
    ensures
        rb.available_read_spec() <= BUFFER_SIZE - 1,
        rb.available_read_spec() + rb.available_write_spec() == BUFFER_SIZE - 1,
        rb.available_read_spec() == (rb.write_index() + BUFFER_SIZE - rb.read_index()) % (
        BUFFER_SIZE as int),
        rb.read_index() < BUFFER_SIZE && rb.write_index() < BUFFER_SIZE,
        rb.pending().len() <= rb.available_read_spec(),
{
    rb.lemma_split();
}

/// The consumer receives the written samples in order, each exactly once:
/// what it has been handed, followed by what is still pending, is exactly the
/// sequence of samples the producer stored.
pub proof fn lemma_fifo_delivery<T: Copy>(rb: RingBuffer<T>)
    requires
        rb.wf(),
    ensures
        rb.delivered() + rb.pending() == rb.written(),
        rb.delivered().len() <= rb.written().len(),
        rb.delivered() == rb.written().take(rb.delivered().len() as int),
{
    assert(rb.written().take(rb.delivered().len() as int) =~= rb.delivered());
}

/// A write of `k` samples into an empty ring with room for them, followed by
/// a consumer read of `k` samples, hands back exactly those samples: `after`
/// is any state `write` can leave behind, and what the consumer can read
/// from it, first to last, is `samples`.
pub proof fn lemma_write_read_round_trip<T: Copy>(
    before: RingBuffer<T>,
    after: RingBuffer<T>,
    samples: Seq<T>,
)
    requires
        before.wf(),
        before.pending().len() == 0,
        samples.len() <= before.available_write_spec(),
        after.pending() == before.pending() + samples.take(
            if samples.len() < before.available_write_spec() {
                samples.len() as int
            } else {
                before.available_write_spec() as int
            },
        ),
    ensures
        after.pending().len() == samples.len(),
        after.pending().take(samples.len() as int) == samples,
{
    assert(after.pending() =~= samples);
    assert(after.pending().take(samples.len() as int) =~= samples);
}

/// The number of sample slots in a ring.
pub fn get_buffer_size() -> (r: usize)
    ensures
        r == BUFFER_SIZE,
{
    BUFFER_SIZE
}

/// The number of metadata slots in front of the samples.
pub fn get_metadata_size() -> (r: usize)
    ensures
        r == METADATA_SIZE,
{
    METADATA_SIZE
}

} // verus!
