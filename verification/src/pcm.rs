use vstd::prelude::*;

verus! {

/// One interleaved integer PCM sample.
pub type PcmSample = i32;

#[verifier::external_type_specification]
#[verifier::external_body]
#[verifier::reject_recursive_types(T)]
pub struct ExRtrbProducer<T>(rtrb::Producer<T>);

#[verifier::external_type_specification]
#[verifier::external_body]
#[verifier::reject_recursive_types(T)]
pub struct ExRtrbConsumer<T>(rtrb::Consumer<T>);

/// The number of slots of the ring a producer writes into.
pub uninterp spec fn producer_capacity(producer: rtrb::Producer<i32>) -> usize;

/// The number of slots of the ring a consumer reads from.
pub uninterp spec fn consumer_capacity(consumer: rtrb::Consumer<i32>) -> usize;

/// The samples pushed into the ring through a producer, oldest first.
pub uninterp spec fn producer_sent(producer: rtrb::Producer<i32>) -> Seq<i32>;

/// The samples popped from the ring through a consumer, oldest first.
pub uninterp spec fn consumer_received(consumer: rtrb::Consumer<i32>) -> Seq<i32>;

/// The samples a consumer has seen readable and not popped since: the count
/// that `slots` last reported through a mutable borrow, less one for each
/// sample popped after it, and none once a pop found the ring empty. The ring
/// holds at least these, since only the consumer takes samples out.
pub uninterp spec fn consumer_known(consumer: rtrb::Consumer<i32>) -> nat;

/// `rtrb::RingBuffer::new`: a single-producer, single-consumer ring with
/// `capacity` slots, split into its two ends. Trusted: both ends report that
/// capacity, and nothing has gone through either end yet. The source panics
/// unless `2 * capacity` fits in `usize`, and its buffer allocation panics
/// unless `capacity` samples of 4 bytes fit in `isize`.
#[verifier::external_body]
fn rtrb_ring_new(capacity: usize) -> (r: (rtrb::Producer<i32>, rtrb::Consumer<i32>))
    requires
        capacity <= usize::MAX / 2,
        capacity * 4 <= isize::MAX,
    ensures
        producer_capacity(r.0) == capacity,
        consumer_capacity(r.1) == capacity,
        producer_sent(r.0) == Seq::<i32>::empty(),
        consumer_received(r.1) == Seq::<i32>::empty(),
        consumer_known(r.1) == 0,
{
    rtrb::RingBuffer::<i32>::new(capacity)
}

/// `rtrb::Producer::slots`: the free slots at this moment. Trusted: never more
/// than the capacity, and never fewer than the capacity less all samples ever
/// pushed (the ring holds at most those). The consumer runs concurrently, so
/// nothing more is fixed.
#[verifier::external_body]
fn rtrb_producer_slots(producer: &rtrb::Producer<i32>) -> (r: usize)
    ensures
        r <= producer_capacity(*producer),
        r >= producer_capacity(*producer) - producer_sent(*producer).len(),
{
    producer.slots()
}

/// `rtrb::Producer::push`: whether the sample went in (`false` when the ring
/// was full). Trusted: the capacity does not change; a sample that went in
/// follows those pushed before it, a refused one leaves the producer as it
/// was; a ring of no slots is always full, and one that has taken fewer
/// samples in all than it has slots always has room. Whether there was room otherwise
/// depends on the concurrent consumer and is left open.
#[verifier::external_body]
fn rtrb_producer_push(producer: &mut rtrb::Producer<i32>, sample: i32) -> (r: bool)
    ensures
        producer_capacity(*final(producer)) == producer_capacity(*old(producer)),
        r ==> producer_sent(*final(producer)) == producer_sent(*old(producer)).push(sample),
        !r ==> producer_sent(*final(producer)) == producer_sent(*old(producer)),
        producer_capacity(*old(producer)) == 0 ==> !r,
        producer_sent(*old(producer)).len() < producer_capacity(*old(producer)) ==> r,
{
    producer.push(sample).is_ok()
}

/// `rtrb::Consumer::slots` through a shared borrow: the readable slots at
/// this moment. Trusted: never more than the capacity, and never fewer than
/// the samples the consumer already knows to be there.
#[verifier::external_body]
fn rtrb_consumer_slots(consumer: &rtrb::Consumer<i32>) -> (r: usize)
    ensures
        consumer_known(*consumer) <= r <= consumer_capacity(*consumer),
{
    consumer.slots()
}

/// `rtrb::Consumer::slots` through a mutable borrow, so that what it reports
/// is recorded: the readable slots at this moment. Trusted: as through a
/// shared borrow, and the consumer now knows of exactly that many samples
/// (the call moves its cached tail up to the ring's tail, and only the
/// consumer takes samples out); nothing is popped.
#[verifier::external_body]
fn rtrb_consumer_observe(consumer: &mut rtrb::Consumer<i32>) -> (r: usize)
    ensures
        consumer_known(*old(consumer)) <= r <= consumer_capacity(*old(consumer)),
        consumer_known(*final(consumer)) == r,
        consumer_capacity(*final(consumer)) == consumer_capacity(*old(consumer)),
        consumer_received(*final(consumer)) == consumer_received(*old(consumer)),
{
    consumer.slots()
}

/// `rtrb::Consumer::pop`: the oldest sample, or `None` when the ring was
/// empty. Trusted: the capacity does not change; a sample that came out
/// follows those popped before it, `None` leaves the consumer as it was; a
/// ring of no slots is always empty; a pop while the consumer knows of a
/// sample always gets one (`pop` re-reads the ring's tail before it reports
/// empty). Which sample comes out, and whether any does otherwise, depends on
/// the concurrent producer and is left open.
#[verifier::external_body]
fn rtrb_consumer_pop(consumer: &mut rtrb::Consumer<i32>) -> (r: Option<i32>)
    ensures
        consumer_capacity(*final(consumer)) == consumer_capacity(*old(consumer)),
        match r {
            Some(x) => {
                &&& consumer_received(*final(consumer)) == consumer_received(*old(consumer)).push(x)
                &&& consumer_known(*final(consumer)) == if consumer_known(*old(consumer)) > 0 {
                    (consumer_known(*old(consumer)) - 1) as nat
                } else {
                    0
                }
            },
            None => {
                &&& consumer_received(*final(consumer)) == consumer_received(*old(consumer))
                &&& consumer_known(*final(consumer)) == 0
            },
        },
        consumer_capacity(*old(consumer)) == 0 ==> r is None,
        consumer_known(*old(consumer)) > 0 ==> r is Some,
{
    consumer.pop().ok()
}

/// The size of a PCM ring, in samples.
#[derive(Debug, Clone, Copy, PartialEq, Eq, Structural)]
pub struct PcmRingConfig {
    pub capacity_samples: usize,
}

impl PcmRingConfig {
    pub fn new(capacity_samples: usize) -> (r: Self)
        requires
            capacity_samples > 0,
        ensures
            r.capacity_samples == capacity_samples,
    {
        PcmRingConfig { capacity_samples }
    }
}

#[derive(Debug, Clone, Copy, PartialEq, Eq, Structural)]
pub enum PcmRingError {
    Full,
    Empty,
    InvalidLength,
}

/// The writing end of a PCM ring (the decoder side).
pub struct PcmProducer {
    producer: rtrb::Producer<i32>,
}

/// The reading end of a PCM ring (the realtime output side).
pub struct PcmConsumer {
    consumer: rtrb::Consumer<i32>,
}

/// Creates a ring of the configured size and returns its two ends.
pub fn pcm_ring_buffer(config: PcmRingConfig) -> (r: (PcmProducer, PcmConsumer))
    requires
        config.capacity_samples <= usize::MAX / 2,
        config.capacity_samples * 4 <= isize::MAX,
    ensures
        r.0.capacity() == config.capacity_samples,
        r.1.capacity() == config.capacity_samples,
        r.0.sent() == Seq::<PcmSample>::empty(),
        r.1.received() == Seq::<PcmSample>::empty(),
{
    let (producer, consumer) = rtrb_ring_new(config.capacity_samples);
    (PcmProducer { producer }, PcmConsumer { consumer })
}

impl PcmProducer {
    pub closed spec fn capacity(&self) -> usize {
        producer_capacity(self.producer)
    }

    /// The samples pushed through this end so far, oldest first.
    pub closed spec fn sent(&self) -> Seq<PcmSample> {
        producer_sent(self.producer)
    }

    /// The free slots at this moment.
    pub fn slots(&self) -> (r: usize)
        ensures
            r <= self.capacity(),
            r >= self.capacity() - self.sent().len(),
    {
        rtrb_producer_slots(&self.producer)
    }

    pub fn capacity_remaining(&self) -> (r: usize)
        ensures
            r <= self.capacity(),
            r >= self.capacity() - self.sent().len(),
    {
        rtrb_producer_slots(&self.producer)
    }

    /// Pushes one sample, or reports `Full`.
    pub fn try_push(&mut self, sample: PcmSample) -> (r: Result<(), PcmRingError>)
        ensures
            r is Ok || r == Err::<(), PcmRingError>(PcmRingError::Full),
            final(self).capacity() == old(self).capacity(),
            r is Ok ==> final(self).sent() == old(self).sent().push(sample),
            r is Err ==> final(self).sent() == old(self).sent(),
            old(self).capacity() == 0 ==> r is Err,
            old(self).sent().len() < old(self).capacity() ==> r is Ok,
    {
        if rtrb_producer_push(&mut self.producer, sample) {
            Ok(())
        } else {
            Err(PcmRingError::Full)
        }
    }

    /// Pushes a prefix of `src` that fits in the free slots seen at the start,
    /// in order, and returns its length; never blocks.
    pub fn push_slice(&mut self, src: &[PcmSample]) -> (r: usize)
        ensures
            r <= src@.len(),
            r <= old(self).capacity(),
            src@.len() == 0 ==> r == 0,
            final(self).capacity() == old(self).capacity(),
            final(self).sent() == old(self).sent() + src@.take(r as int),
            old(self).sent().len() + src@.len() <= old(self).capacity() ==> r == src@.len(),
    {
        if src.len() == 0 {
            assert(src@.take(0) =~= Seq::<PcmSample>::empty());
            return 0;
        }
        assert(old(self).sent() + src@.take(0) =~= old(self).sent());
        let available = rtrb_producer_slots(&self.producer);
        let count = if src.len() <= available {
            src.len()
        } else {
            available
        };
        let mut pushed: usize = 0;
        let mut open = true;
        while pushed < count && open
            invariant
                pushed <= count,
                count <= src@.len(),
                count <= old(self).capacity(),
                self.capacity() == old(self).capacity(),
                self.sent() == old(self).sent() + src@.take(pushed as int),
                old(self).sent().len() + src@.len() <= old(self).capacity() ==> count == src@.len()
                    && open,
            decreases (count - pushed) * 2 + if open { 1int } else { 0int },
        {
            if rtrb_producer_push(&mut self.producer, src[pushed]) {
                assert(src@.take(pushed + 1) =~= src@.take(pushed as int).push(src@[pushed as int]));
                pushed = pushed + 1;
            } else {
                open = false;
            }
        }
        pushed
    }
}

impl PcmConsumer {
    pub closed spec fn capacity(&self) -> usize {
        consumer_capacity(self.consumer)
    }

    /// The samples popped through this end so far, oldest first.
    pub closed spec fn received(&self) -> Seq<PcmSample> {
        consumer_received(self.consumer)
    }

    /// The samples this end has seen readable and not taken since; the ring
    /// holds at least these.
    pub closed spec fn known_readable(&self) -> nat {
        consumer_known(self.consumer)
    }

    /// The readable samples at this moment.
    pub fn len(&self) -> (r: usize)
        ensures
            self.known_readable() <= r <= self.capacity(),
    {
        rtrb_consumer_slots(&self.consumer)
    }

    pub fn is_empty(&self) -> (r: bool)
        ensures
            self.capacity() == 0 ==> r,
            r ==> self.known_readable() == 0,
    {
        rtrb_consumer_slots(&self.consumer) == 0
    }

    /// Pops one sample, or reports `Empty`.
    pub fn try_pop(&mut self) -> (r: Result<PcmSample, PcmRingError>)
        ensures
            r is Ok || r == Err::<PcmSample, PcmRingError>(PcmRingError::Empty),
            final(self).capacity() == old(self).capacity(),
            match r {
                Ok(x) => final(self).received() == old(self).received().push(x),
                Err(_) => final(self).received() == old(self).received(),
            },
            old(self).capacity() == 0 ==> r is Err,
            old(self).known_readable() > 0 ==> r is Ok,
            r is Err ==> final(self).known_readable() == 0,
            r is Ok ==> final(self).known_readable() == if old(self).known_readable() > 0 {
                (old(self).known_readable() - 1) as nat
            } else {
                0
            },
    {
        match rtrb_consumer_pop(&mut self.consumer) {
            Some(sample) => Ok(sample),
            None => Err(PcmRingError::Empty),
        }
    }

    /// Fills a prefix of `dst` with samples available at the start, in order,
    /// and returns its length; the rest of `dst` is untouched.
    pub fn pop_slice(&mut self, dst: &mut [PcmSample]) -> (r: usize)
        ensures
            r <= old(dst)@.len(),
            r <= old(self).capacity(),
            final(dst)@.len() == old(dst)@.len(),
            forall|i: int| r <= i < old(dst)@.len() ==> final(dst)@[i] == old(dst)@[i],
            final(self).capacity() == old(self).capacity(),
            final(self).received() == old(self).received() + final(dst)@.take(r as int),
            r >= old(dst)@.len() || r >= old(self).known_readable(),
            r < old(dst)@.len() ==> final(self).known_readable() == 0,
    {
        if dst.len() == 0 {
            assert(dst@.take(0) =~= Seq::<PcmSample>::empty());
            return 0;
        }
        assert(old(self).received() + dst@.take(0) =~= old(self).received());
        let available = rtrb_consumer_observe(&mut self.consumer);
        let count = if dst.len() <= available {
            dst.len()
        } else {
            available
        };
        let mut popped: usize = 0;
        let mut open = true;
        while popped < count && open
            invariant
                popped <= count,
                count <= old(dst)@.len(),
                count <= old(self).capacity(),
                dst@.len() == old(dst)@.len(),
                forall|i: int| popped <= i < old(dst)@.len() ==> dst@[i] == old(dst)@[i],
                self.capacity() == old(self).capacity(),
                self.received() == old(self).received() + dst@.take(popped as int),
                count == dst@.len() || count == available,
                count <= available,
                available >= old(self).known_readable(),
                open,
                self.known_readable() == available - popped,
            decreases (count - popped) * 2 + if open { 1int } else { 0int },
        {
            match rtrb_consumer_pop(&mut self.consumer) {
                Some(sample) => {
                    let ghost before = dst@;
                    dst[popped] = sample;
                    assert(dst@.take(popped + 1) =~= before.take(popped as int).push(sample));
                    popped = popped + 1;
                },
                None => {
                    open = false;
                },
            }
        }
        popped
    }

    pub fn fill_available(&mut self, dst: &mut [PcmSample]) -> (r: usize)
        ensures
            r <= old(dst)@.len(),
            r <= old(self).capacity(),
            final(dst)@.len() == old(dst)@.len(),
            forall|i: int| r <= i < old(dst)@.len() ==> final(dst)@[i] == old(dst)@[i],
            final(self).capacity() == old(self).capacity(),
            final(self).received() == old(self).received() + final(dst)@.take(r as int),
            r >= old(dst)@.len() || r >= old(self).known_readable(),
            r < old(dst)@.len() ==> final(self).known_readable() == 0,
    {
        self.pop_slice(dst)
    }
}

#[derive(Debug, Clone, Copy, PartialEq, Eq, Structural)]
pub enum PcmFormatError {
    InvalidBitDepth,
    SourceWiderThanOutput { source_bits: u32, output_bits: u32 },
}

/// Whether a sample is a value of a signed integer of `bits` bits.
pub open spec fn fits_signed(sample: i32, bits: u32) -> bool {
    -vstd::arithmetic::power2::pow2((bits - 1) as nat) <= sample < vstd::arithmetic::power2::pow2(
        (bits - 1) as nat,
    )
}

pub open spec fn expand_signed_integer_of(sample: i32, source_bits: u32, output_bits: u32) -> Result<
    i32,
    PcmFormatError,
> {
    if source_bits == 0 || output_bits == 0 || source_bits > 32 || output_bits > 32 {
        Err(PcmFormatError::InvalidBitDepth)
    } else if source_bits > output_bits {
        Err(PcmFormatError::SourceWiderThanOutput { source_bits, output_bits })
    } else if output_bits == source_bits {
        Ok(sample)
    } else if output_bits - source_bits >= 31 {
        Err(PcmFormatError::InvalidBitDepth)
    } else {
        Ok(sample << ((output_bits - source_bits) as u32))
    }
}

proof fn lemma_shift_left_is_scaling(x: i32, k: u32)
    requires
        k <= 30,
        -0x8000_0000 <= x * vstd::arithmetic::power2::pow2(k as nat) < 0x8000_0000,
    ensures
        (x << k) as int == x * vstd::arithmetic::power2::pow2(k as nat),
    decreases k,
{
    vstd::arithmetic::power2::lemma_pow2_pos(k as nat);
    if k == 0 {
        vstd::arithmetic::power2::lemma2_to64();
        assert(x << k == x) by (bit_vector)
            requires
                k == 0,
        ;
        assert(vstd::arithmetic::power2::pow2(0) == 1);
        assert(vstd::arithmetic::power2::pow2(k as nat) == 1);
        let one = vstd::arithmetic::power2::pow2(k as nat);
        assert(x * one == x) by (nonlinear_arith)
            requires
                one == 1,
        ;
    } else {
        let p = vstd::arithmetic::power2::pow2((k - 1) as nat);
        vstd::arithmetic::power2::lemma_pow2_pos((k - 1) as nat);
        vstd::arithmetic::power2::lemma_pow2_adds((k - 1) as nat, 1);
        vstd::arithmetic::power2::lemma2_to64();
        assert(vstd::arithmetic::power2::pow2(k as nat) == p * 2);
        assert(-0x4000_0000 <= x * p < 0x4000_0000) by (nonlinear_arith)
            requires
                -0x8000_0000 <= x * (p * 2) < 0x8000_0000,
                p > 0,
        ;
        lemma_shift_left_is_scaling(x, (k - 1) as u32);
        let y: i32 = x << ((k - 1) as u32);
        assert(x << k == y << 1u32) by (bit_vector)
            requires
                y == x << ((k - 1) as u32),
                1 <= k <= 30,
        ;
        assert(-0x4000_0000 <= y < 0x4000_0000);
        assert((y << 1u32) as int == y * 2) by (bit_vector)
            requires
                -0x4000_0000 <= y < 0x4000_0000,
        ;
        assert(x * (p * 2) == (x * p) * 2) by (nonlinear_arith);
        assert((x << k) as int == (y << 1u32) as int);
        assert((x << k) as int == x * vstd::arithmetic::power2::pow2(k as nat));
    }
}

/// Expands a signed sample of `source_bits` bits into the `output_bits`
/// domain by a left shift (bit-domain expansion, not gain): a sample that
/// fits its source depth comes out multiplied by `2^(output_bits - source_bits)`.
pub fn expand_signed_integer(sample: i32, source_bits: u32, output_bits: u32) -> (r: Result<
    i32,
    PcmFormatError,
>)
    ensures
        r == expand_signed_integer_of(sample, source_bits, output_bits),
        r matches Ok(v) ==> (fits_signed(sample, source_bits) ==> v == sample
            * vstd::arithmetic::power2::pow2((output_bits - source_bits) as nat)),
{
    if source_bits == 0 || output_bits == 0 || source_bits > 32 || output_bits > 32 {
        return Err(PcmFormatError::InvalidBitDepth);
    }
    if source_bits > output_bits {
        return Err(PcmFormatError::SourceWiderThanOutput { source_bits, output_bits });
    }
    let shift = output_bits - source_bits;
    if shift == 0 {
        proof {
            vstd::arithmetic::power2::lemma2_to64();
            let one = vstd::arithmetic::power2::pow2((output_bits - source_bits) as nat);
            assert(one == 1);
            assert(sample * one == sample) by (nonlinear_arith)
                requires
                    one == 1,
            ;
        }
        return Ok(sample);
    }
    if shift >= 31 {
        return Err(PcmFormatError::InvalidBitDepth);
    }
    proof {
        if fits_signed(sample, source_bits) {
            let a = vstd::arithmetic::power2::pow2((source_bits - 1) as nat);
            let b = vstd::arithmetic::power2::pow2(shift as nat);
            vstd::arithmetic::power2::lemma_pow2_adds((source_bits - 1) as nat, shift as nat);
            vstd::arithmetic::power2::lemma_pow2_pos(shift as nat);
            if source_bits - 1 + shift < 31 {
                vstd::arithmetic::power2::lemma_pow2_strictly_increases(
                    (source_bits - 1 + shift) as nat,
                    31,
                );
            }
            vstd::arithmetic::power2::lemma2_to64();
            assert(a * b <= 0x8000_0000);
            assert(-0x8000_0000 <= sample * b < 0x8000_0000) by (nonlinear_arith)
                requires
                    -a <= sample < a,
                    b > 0,
                    a * b <= 0x8000_0000,
            ;
            lemma_shift_left_is_scaling(sample, shift);
        }
    }
    Ok(sample << shift)
}

/// The audio engine handle kept for API compatibility; it holds no state.
#[derive(Debug, Clone, Copy, PartialEq, Eq, Structural)]
pub struct AudioEngine;

impl AudioEngine {
    pub fn new() -> (r: Self)
        ensures
            r == AudioEngine,
    {
        AudioEngine
    }
}

impl Default for AudioEngine {
    fn default() -> (r: Self)
        ensures
            r == AudioEngine,
    {
        AudioEngine
    }
}

} // verus!
