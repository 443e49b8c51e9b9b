//! The lock-free sample ring between the emulation thread (writer) and the audio
//! callback (reader), an `rtrb` ring of interleaved `i16` samples. When the ring is too
//! full for a whole batch, the newest samples that fit are kept and the oldest part of
//! the batch is dropped; each such overrun is counted.

use vstd::prelude::*;
use rtrb::chunks::ChunkError;

verus! {

#[verifier::external_type_specification]
#[verifier::external_body]
#[verifier::reject_recursive_types(T)]
pub struct ExRtrbProducer<T>(rtrb::Producer<T>);

#[verifier::external_type_specification]
#[verifier::external_body]
#[verifier::reject_recursive_types(T)]
pub struct ExRtrbConsumer<T>(rtrb::Consumer<T>);

/// The capacity a ring was made with, seen from its writing end.
pub uninterp spec fn ring_capacity(p: rtrb::Producer<i16>) -> nat;

/// Every sample written through this writing end since the ring was made, oldest first.
/// The samples not read yet are a suffix of it: the reader takes from the front, on its
/// own thread, without touching the writing end.
pub uninterp spec fn ring_pushed(p: rtrb::Producer<i16>) -> Seq<i16>;

/// The slots the writing end knows to be free from its own history: the count a refused
/// write last reported (the capacity, for a new ring), less what was written since, and 0
/// once a write went past it. rtrb's writer keeps a cached copy of the reader's position
/// (`cached_head`) that only moves forward, so the slots it sees free are never fewer
/// than this; a request for at most this many slots passes its cached check.
pub uninterp spec fn ring_known_free(p: rtrb::Producer<i16>) -> nat;

/// `rtrb::RingBuffer::new`: a ring of `capacity` samples, as its two ends.
#[verifier::external_body]
fn ring_new(capacity: usize) -> (r: (rtrb::Producer<i16>, rtrb::Consumer<i16>))
    ensures
        ring_capacity(r.0) == capacity,
        ring_pushed(r.0) == Seq::<i16>::empty(),
        ring_known_free(r.0) == capacity,
{
    rtrb::RingBuffer::<i16>::new(capacity)
}

/// `rtrb::Producer::slots`: the free slots now, the capacity less the distance from the
/// reader's position to the writer's. The reader frees slots concurrently, so the number
/// is only bounded: by the capacity from above, and from below by the capacity less what
/// was ever written (the reader can only take what was written) and by the slots the
/// writer already knew to be free.
#[verifier::external_body]
fn ring_slots(p: &rtrb::Producer<i16>) -> (n: usize)
    ensures
        n <= ring_capacity(*p),
        ring_capacity(*p) - n <= ring_pushed(*p).len(),
        n >= ring_known_free(*p),
{
    p.slots()
}

/// `rtrb::RingBuffer::capacity` of the writing end's ring.
#[verifier::external_body]
fn ring_capacity_of(p: &rtrb::Producer<i16>) -> (n: usize)
    ensures
        n == ring_capacity(*p),
{
    p.buffer().capacity()
}

/// `rtrb::Producer::write_chunk_uninit` for all of `samples`, then
/// `WriteChunkUninit::fill_from_iter` with them: `Ok` with the number written, all of
/// them appended in order, when that many slots were free; otherwise `Err` with the free
/// slots, fewer than asked (and no fewer than the capacity less what was ever written,
/// since the reader only takes what was written), and nothing written. A request for no
/// more than the slots known free never fails; a refused one makes its reported count the
/// slots known free (rtrb refreshes its cached reader position before refusing).
#[verifier::external_body]
fn ring_write(p: &mut rtrb::Producer<i16>, samples: &[i16]) -> (r: Result<usize, usize>)
    ensures
        ring_capacity(*final(p)) == ring_capacity(*old(p)),
        samples.len() <= ring_known_free(*old(p)) ==> r is Ok,
        r is Ok ==> ring_known_free(*final(p)) == if samples.len() <= ring_known_free(*old(p)) {
            (ring_known_free(*old(p)) - samples.len()) as nat
        } else {
            0
        },
        r matches Err(free) ==> ring_known_free(*final(p)) == free && free >= ring_known_free(*old(p)),
        r matches Ok(n) ==> n == samples.len() && ring_pushed(*final(p)) == ring_pushed(*old(p)) + samples@,
        r matches Err(free) ==> free < samples.len() && free <= ring_capacity(*old(p)) && ring_capacity(*old(p))
            - free <= ring_pushed(*old(p)).len() && ring_pushed(*final(p)) == ring_pushed(*old(p)),
{
    match p.write_chunk_uninit(samples.len()) {
        Ok(chunk) => Ok(chunk.fill_from_iter(samples.iter().copied())),
        Err(ChunkError::TooFewSlots(free)) => Err(free),
    }
}

/// The frames of a buffer of `target_latency_ms` at `sample_rate`, at least one.
pub open spec fn buffer_frames(sample_rate: u32, target_latency_ms: u32) -> nat {
    let f = (sample_rate as nat * target_latency_ms as nat) / 1000;
    if f < 1 { 1 } else { f }
}

/// The ring size in samples for an output device: four buffers of the target latency,
/// in all channels, and never less than four samples per channel.
pub open spec fn recommended_capacity_spec(sample_rate: u32, channels: u16, target_latency_ms: u32) -> nat {
    let c = buffer_frames(sample_rate, target_latency_ms) * channels as nat * 4;
    if c < channels as nat * 4 { channels as nat * 4 } else { c }
}

/// The ring size in samples for an output device (see [`recommended_capacity_spec`]).
pub fn recommended_capacity(sample_rate: u32, channels: u16, target_latency_ms: u32) -> (n: usize)
    requires
        buffer_frames(sample_rate, target_latency_ms) * channels as nat * 4 <= usize::MAX,
    ensures
        n == recommended_capacity_spec(sample_rate, channels, target_latency_ms),
{
    if channels == 0 {
        return 0;
    }
    assert(sample_rate as nat * target_latency_ms as nat <= u64::MAX) by (nonlinear_arith)
        requires
            sample_rate <= u32::MAX,
            target_latency_ms <= u32::MAX,
    ;
    let product = sample_rate as u64 * target_latency_ms as u64;
    let frames: u64 = if product / 1000 < 1 { 1 } else { product / 1000 };
    assert(frames == buffer_frames(sample_rate, target_latency_ms));
    assert(frames <= frames * channels as nat * 4) by (nonlinear_arith)
        requires
            channels >= 1,
    ;
    let f = frames as usize;
    assert(f * channels as nat <= f * channels as nat * 4) by (nonlinear_arith);
    let c = f * channels as usize * 4;
    let floor = channels as usize * 4;
    if c < floor { floor } else { c }
}

/// The part of an overlong batch that goes into `free` slots: its newest `free` samples.
pub fn newest_that_fit(samples: &[i16], free: usize) -> (r: &[i16])
    requires
        free <= samples.len(),
    ensures
        r@ == samples@.subrange(samples.len() - free, samples.len() as int),
{
    let n = samples.len();
    &samples[n - free..n]
}

/// How a read of `wanted` samples for the audio device ends. `short` is what the ring
/// offered when it could not give them all (`None` when it could): then the samples it
/// had are taken, the rest of the device buffer is silence, and an underrun is counted.
/// Returns the samples taken, the silent slots and whether it was an underrun.
pub fn fill_split(wanted: usize, short: Option<usize>) -> (r: (usize, usize, bool))
    requires
        short matches Some(a) ==> a < wanted,
    ensures
        match short {
            None => r == (wanted, 0usize, false),
            Some(a) => r == (a, (wanted - a) as usize, true),
        },
{
    match short {
        None => (wanted, 0, false),
        Some(a) => (a, wanted - a, true),
    }
}

/// The fill level of a ring of `capacity` slots of which `free` are free.
pub fn fill_level(capacity: usize, free: usize) -> (n: usize)
    requires
        free <= capacity,
    ensures
        n == capacity - free,
{
    capacity - free
}

/// The writing end of the ring, with its overrun count.
pub struct AudioProducer {
    producer: rtrb::Producer<i16>,
    overrun_count: u64,
}

impl AudioProducer {
    /// A ring of `capacity` samples: its writing end, and its reading end for the audio
    /// callback.
    pub fn new(capacity: usize) -> (r: (AudioProducer, rtrb::Consumer<i16>))
        ensures
            r.0.overruns() == 0,
            r.0.capacity_spec() == capacity,
            r.0.pushed_spec() == Seq::<i16>::empty(),
            r.0.known_free_spec() == capacity,
    {
        let (producer, consumer) = ring_new(capacity);
        (AudioProducer { producer, overrun_count: 0 }, consumer)
    }

    pub closed spec fn overruns(&self) -> u64 {
        self.overrun_count
    }

    pub closed spec fn capacity_spec(&self) -> nat {
        ring_capacity(self.producer)
    }

    /// The samples that entered the ring through this end since it was made, oldest
    /// first; those not read yet are a suffix of it.
    pub closed spec fn pushed_spec(&self) -> Seq<i16> {
        ring_pushed(self.producer)
    }

    /// How many samples entered the ring through this end since it was made.
    pub open spec fn written_spec(&self) -> nat {
        self.pushed_spec().len()
    }

    /// The slots this end knows to be free from its own writes and refusals (see
    /// [`ring_known_free`]); the reader may have freed more.
    pub closed spec fn known_free_spec(&self) -> nat {
        ring_known_free(self.producer)
    }

    /// Writes `samples`. When they do not all fit, the ring reports its free slots and
    /// exactly that many of the newest samples are written, filling it as the writer sees
    /// it; the oldest are dropped and an overrun counted. Returns how many were written:
    /// all of them without an overrun, the reported free slots with one. A batch no longer
    /// than the slots known free, or fitting in the capacity together with everything
    /// written before, always goes in whole, whatever the reader has or has not read.
    pub fn push_samples(&mut self, samples: &[i16]) -> (written: usize)
        ensures
            final(self).capacity_spec() == old(self).capacity_spec(),
            samples.len() <= old(self).known_free_spec() ==> written == samples.len(),
            written < samples.len() ==> written >= old(self).known_free_spec() && old(self).written_spec() + written
                >= old(self).capacity_spec(),
            final(self).known_free_spec() == if samples.len() <= old(self).known_free_spec() {
                (old(self).known_free_spec() - samples.len()) as nat
            } else {
                0
            },
            final(self).pushed_spec() == old(self).pushed_spec() + samples@.subrange(
                samples.len() - written,
                samples.len() as int,
            ),
            old(self).written_spec() + samples.len() <= old(self).capacity_spec() ==> written == samples.len()
                && final(self).overruns() == old(self).overruns(),
            (written == samples.len() && final(self).overruns() == old(self).overruns()) || (written < samples.len()
                && written <= old(self).capacity_spec() && final(self).overruns() == (if old(self).overruns()
                == u64::MAX {
                0
            } else {
                (old(self).overruns() + 1) as u64
            })),
    {
        if samples.len() == 0 {
            return 0;
        }
        match ring_write(&mut self.producer, samples) {
            Ok(n) => n,
            Err(available) => {
                self.overrun_count = self.overrun_count.wrapping_add(1);
                if available == 0 {
                    return 0;
                }
                let newest = newest_that_fit(samples, available);
                match ring_write(&mut self.producer, newest) {
                    Ok(n) => n,
                    Err(_) => 0,
                }
            },
        }
    }

    /// The number of overruns so far (wrapping).
    pub fn overrun_count(&self) -> (n: u64)
        ensures
            n == self.overruns(),
    {
        self.overrun_count
    }

    /// The ring's capacity in samples.
    pub fn capacity(&self) -> (n: usize)
        ensures
            n == self.capacity_spec(),
    {
        ring_capacity_of(&self.producer)
    }

    /// Samples waiting to be read now: the capacity less the free slots the ring reports
    /// (see [`fill_level`]). The reader takes samples concurrently, so the level is
    /// bounded, not fixed: never above the capacity less the slots known free, and never
    /// above what was ever written (a ring nothing was pushed to reads 0).
    pub fn filled(&self) -> (n: usize)
        ensures
            n <= self.capacity_spec() - self.known_free_spec(),
            n <= self.written_spec(),
    {
        let capacity = ring_capacity_of(&self.producer);
        let free = ring_slots(&self.producer);
        fill_level(capacity, free)
    }
}

} // verus!
