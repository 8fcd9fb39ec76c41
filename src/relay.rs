use vstd::prelude::*;
use ringbuf::{HeapConsumer, HeapProducer, HeapRb, Rb};

verus! {

/// One sample: the bit pattern of a 32-bit float.
pub type Sample = u32;

/// The bit pattern of `0.0`, written where no captured sample is available.
pub const SILENCE: Sample = 0;

// ---------------------------------------------------------------------------
// The model: a relay is the sequence of samples it holds, oldest first, and a
// fixed capacity.
/// The contents after offering `s` to a relay holding `q`: appended unless full.
pub open spec fn pushed(q: Seq<Sample>, cap: nat, s: Sample) -> Seq<Sample> {
    if q.len() < cap {
        q.push(s)
    } else {
        q
    }
}

/// What a pop from a relay holding `q` hands out.
pub open spec fn pop_result(q: Seq<Sample>) -> Option<Sample> {
    if q.len() > 0 {
        Some(q[0])
    } else {
        None
    }
}

/// The contents after a pop from a relay holding `q`.
pub open spec fn popped(q: Seq<Sample>) -> Seq<Sample> {
    if q.len() > 0 {
        q.drop_first()
    } else {
        q
    }
}

/// The contents after offering each of `vals` in turn.
pub open spec fn push_all(q: Seq<Sample>, cap: nat, vals: Seq<Sample>) -> Seq<Sample>
    decreases vals.len(),
{
    if vals.len() == 0 {
        q
    } else {
        pushed(push_all(q, cap, vals.drop_last()), cap, vals.last())
    }
}

/// What `n` pops in a row from a relay holding `q` hand out.
pub open spec fn pop_outputs(q: Seq<Sample>, n: nat) -> Seq<Option<Sample>>
    decreases n,
{
    if n == 0 {
        Seq::empty()
    } else {
        seq![pop_result(q)] + pop_outputs(popped(q), (n - 1) as nat)
    }
}

/// What a playback batch of `n` slots receives from a relay holding `q`:
/// the oldest samples, then silence once the relay runs dry.
pub open spec fn played(q: Seq<Sample>, n: nat) -> Seq<Sample> {
    Seq::new(n, |i: int| if i < q.len() { q[i] } else { SILENCE })
}

/// The contents left after a playback batch of `n` slots.
pub open spec fn drained(q: Seq<Sample>, n: nat) -> Seq<Sample> {
    if n < q.len() {
        q.skip(n as int)
    } else {
        Seq::empty()
    }
}

/// `s` with the entries whose flag in `mask` is false left out.
pub open spec fn kept(s: Seq<Sample>, mask: Seq<bool>) -> Seq<Sample>
    decreases s.len(),
{
    if s.len() == 0 || mask.len() == 0 {
        Seq::empty()
    } else if mask.last() {
        kept(s.drop_last(), mask.drop_last()).push(s.last())
    } else {
        kept(s.drop_last(), mask.drop_last())
    }
}

// ---------------------------------------------------------------------------
// The lock-free ring underneath.
/// A ring of samples with a fixed number of slots, shared lock-free between one
/// writer and one reader.
#[verifier::external_body]
pub struct SampleRing {
    rb: HeapRb<Sample>,
}

/// The write end of a split ring, for the capture side.
#[verifier::external_body]
pub struct SampleProducer {
    prod: HeapProducer<Sample>,
}

/// The read end of a split ring, for the playback side.
#[verifier::external_body]
pub struct SampleConsumer {
    cons: HeapConsumer<Sample>,
}

/// The samples a ring holds, oldest first.
pub uninterp spec fn ring_contents(ring: SampleRing) -> Seq<Sample>;

/// The number of slots a ring was made with.
pub uninterp spec fn ring_capacity(ring: SampleRing) -> nat;

/// The samples the ring held when it was split, followed by every sample this
/// write end has added since.
pub uninterp spec fn produced(p: SampleProducer) -> Seq<Sample>;

/// Every sample this read end has taken out since the ring was split.
pub uninterp spec fn consumed(c: SampleConsumer) -> Seq<Sample>;

/// Relies on `SharedRb::new` for a `Vec` container: an empty ring of
/// `capacity` slots. It panics on zero, which `requires` rules out.
#[verifier::external_body]
fn ring_new(capacity: usize) -> (r: SampleRing)
    requires
        capacity > 0,
    ensures
        ring_contents(r) == Seq::<Sample>::empty(),
        ring_capacity(r) == capacity,
{
    SampleRing { rb: HeapRb::<Sample>::new(capacity) }
}

/// Relies on `Rb::push`: appends unless the ring is full, and hands the
/// sample back when it is.
#[verifier::external_body]
fn ring_push(ring: &mut SampleRing, s: Sample) -> (r: Result<(), Sample>)
    ensures
        ring_capacity(*final(ring)) == ring_capacity(*old(ring)),
        ring_contents(*final(ring)) == pushed(ring_contents(*old(ring)), ring_capacity(*old(ring)), s),
        r is Ok <==> ring_contents(*old(ring)).len() < ring_capacity(*old(ring)),
        r is Err ==> r->Err_0 == s,
{
    ring.rb.push(s)
}

/// Relies on `Rb::pop`: removes and returns the oldest sample, or `None`
/// when the ring is empty.
#[verifier::external_body]
fn ring_pop(ring: &mut SampleRing) -> (r: Option<Sample>)
    ensures
        ring_capacity(*final(ring)) == ring_capacity(*old(ring)),
        ring_contents(*final(ring)) == popped(ring_contents(*old(ring))),
        r == pop_result(ring_contents(*old(ring))),
{
    ring.rb.pop()
}

/// Relies on `Rb::len`: the number of samples held.
#[verifier::external_body]
fn ring_len(ring: &SampleRing) -> (r: usize)
    ensures
        r == ring_contents(*ring).len(),
{
    ring.rb.len()
}

/// Relies on `Rb::capacity`: the number of slots.
#[verifier::external_body]
fn ring_slots(ring: &SampleRing) -> (r: usize)
    ensures
        r == ring_capacity(*ring),
{
    ring.rb.capacity()
}

/// Relies on `SharedRb::split`: moves the ring behind a shared pointer and
/// hands out its only write end and its only read end; nothing is taken out.
#[verifier::external_body]
fn ring_split(ring: SampleRing) -> (r: (SampleProducer, SampleConsumer))
    ensures
        produced(r.0) == ring_contents(ring),
        consumed(r.1) == Seq::<Sample>::empty(),
{
    let (prod, cons) = ring.rb.split();
    (SampleProducer { prod }, SampleConsumer { cons })
}

/// Relies on `Producer::push`: the sample is added unless the ring is full at
/// that moment, in which case it is handed back.
#[verifier::external_body]
fn producer_push(p: &mut SampleProducer, s: Sample) -> (r: Result<(), Sample>)
    ensures
        r is Ok ==> produced(*final(p)) == produced(*old(p)).push(s),
        r is Err ==> produced(*final(p)) == produced(*old(p)),
        r is Err ==> r->Err_0 == s,
{
    p.prod.push(s)
}

/// Relies on `Consumer::pop`: the oldest sample, or `None` when the ring is
/// empty at that moment.
#[verifier::external_body]
fn consumer_pop(c: &mut SampleConsumer) -> (r: Option<Sample>)
    ensures
        r matches Some(s) ==> consumed(*final(c)) == consumed(*old(c)).push(s),
        r is None ==> consumed(*final(c)) == consumed(*old(c)),
{
    c.cons.pop()
}

// ---------------------------------------------------------------------------
/// A bounded first-in first-out relay of samples: pushes are refused when it
/// is full, pops come back empty when it is empty, and nothing is overwritten.
pub struct Relay {
    ring: SampleRing,
}

impl View for Relay {
    type V = Seq<Sample>;

    /// The samples held, oldest first.
    closed spec fn view(&self) -> Seq<Sample> {
        ring_contents(self.ring)
    }
}

impl Relay {
    /// The number of samples the relay can hold.
    pub closed spec fn cap(&self) -> nat {
        ring_capacity(self.ring)
    }

    /// The relay holds at most its capacity, and the capacity is positive.
    pub open spec fn wf(&self) -> bool {
        0 < self.cap() && self@.len() <= self.cap()
    }

    /// An empty relay of `capacity` samples.
    pub fn new(capacity: usize) -> (r: Relay)
        requires
            capacity > 0,
        ensures
            r.wf(),
            r.cap() == capacity,
            r@ == Seq::<Sample>::empty(),
    {
        Relay { ring: ring_new(capacity) }
    }

    /// A relay of twice `latency_samples` capacity, holding `latency_samples`
    /// samples of silence, so that playback starts that far behind capture.
    pub fn preloaded(latency_samples: usize) -> (r: Relay)
        requires
            latency_samples > 0,
            2 * latency_samples <= usize::MAX,
        ensures
            r.wf(),
            r.cap() == 2 * latency_samples,
            r@ == Seq::new(latency_samples as nat, |i: int| SILENCE),
    {
        let mut relay = Relay::new(latency_samples * 2);
        let mut i: usize = 0;
        while i < latency_samples
            invariant
                i <= latency_samples,
                relay.wf(),
                relay.cap() == 2 * latency_samples,
                relay@ == Seq::new(i as nat, |j: int| SILENCE),
            decreases latency_samples - i,
        {
            let pushed_ok = relay.try_push(SILENCE);
            proof {
                assert(pushed_ok is Ok);
            }
            i = i + 1;
            assert(relay@ =~= Seq::new(i as nat, |j: int| SILENCE));
        }
        relay
    }

    /// The number of samples held.
    pub fn len(&self) -> (r: usize)
        ensures
            r == self@.len(),
    {
        ring_len(&self.ring)
    }

    /// The number of samples the relay can hold.
    pub fn capacity(&self) -> (r: usize)
        ensures
            r == self.cap(),
    {
        ring_slots(&self.ring)
    }

    /// Whether no sample is held.
    pub fn is_empty(&self) -> (r: bool)
        ensures
            r == (self@.len() == 0),
    {
        ring_len(&self.ring) == 0
    }

    /// Whether the relay holds as many samples as it can.
    pub fn is_full(&self) -> (r: bool)
        ensures
            r == (self@.len() == self.cap()),
    {
        ring_len(&self.ring) == ring_slots(&self.ring)
    }

    /// Appends `s` when there is room; when the relay is full it is left as it
    /// was and `s` comes back in the error.
    pub fn try_push(&mut self, s: Sample) -> (r: Result<(), Sample>)
        requires
            old(self).wf(),
        ensures
            final(self).wf(),
            final(self).cap() == old(self).cap(),
            final(self)@ == pushed(old(self)@, old(self).cap(), s),
            r is Ok <==> old(self)@.len() < old(self).cap(),
            r is Err ==> r->Err_0 == s,
    {
        ring_push(&mut self.ring, s)
    }

    /// Removes and returns the oldest sample; `None` when the relay is empty.
    pub fn try_pop(&mut self) -> (r: Option<Sample>)
        requires
            old(self).wf(),
        ensures
            final(self).wf(),
            final(self).cap() == old(self).cap(),
            final(self)@ == popped(old(self)@),
            r == pop_result(old(self)@),
    {
        ring_pop(&mut self.ring)
    }

    /// Offers each sample of a captured batch in order. Samples that find the
    /// relay full are dropped, and the rest of the batch is still offered.
    /// Returns whether any sample was dropped.
    pub fn push_batch(&mut self, data: &[Sample]) -> (fell_behind: bool)
        requires
            old(self).wf(),
        ensures
            final(self).wf(),
            final(self).cap() == old(self).cap(),
            final(self)@ == push_all(old(self)@, old(self).cap(), data@),
            fell_behind == (old(self)@.len() + data@.len() > old(self).cap()),
    {
        let mut fell_behind = false;
        let mut i: usize = 0;
        while i < data.len()
            invariant
                i <= data@.len(),
                self.wf(),
                self.cap() == old(self).cap(),
                self@ == push_all(old(self)@, old(self).cap(), data@.take(i as int)),
                fell_behind == (old(self)@.len() + i > old(self).cap()),
                !fell_behind ==> self@.len() == old(self)@.len() + i,
                fell_behind ==> self@.len() == self.cap(),
            decreases data@.len() - i,
        {
            if self.try_push(data[i]).is_err() {
                fell_behind = true;
            }
            assert(data@.take(i + 1).drop_last() =~= data@.take(i as int));
            i = i + 1;
        }
        assert(data@.take(i as int) =~= data@);
        fell_behind
    }

    /// Fills every slot of a playback batch in order with the oldest sample
    /// held, and with silence once the relay runs dry. Returns whether any slot
    /// got silence for want of a sample.
    pub fn fill_batch(&mut self, out: &mut [Sample]) -> (starved: bool)
        requires
            old(self).wf(),
        ensures
            final(self).wf(),
            final(self).cap() == old(self).cap(),
            final(out)@ == played(old(self)@, old(out)@.len()),
            final(self)@ == drained(old(self)@, old(out)@.len()),
            starved == (old(out)@.len() > old(self)@.len()),
    {
        let ghost q = self@;
        let mut starved = false;
        let mut i: usize = 0;
        while i < out.len()
            invariant
                i <= out@.len(),
                out@.len() == old(out)@.len(),
                self.wf(),
                self.cap() == old(self).cap(),
                q == old(self)@,
                self@ == drained(q, i as nat),
                forall|j: int| 0 <= j < i ==> out@[j] == played(q, out@.len())[j],
                starved == (i > q.len()),
            decreases out@.len() - i,
        {
            let v = match self.try_pop() {
                Some(s) => s,
                None => {
                    starved = true;
                    SILENCE
                },
            };
            out[i] = v;
            proof {
                if i < q.len() {
                    assert(drained(q, (i + 1) as nat) =~= drained(q, i as nat).drop_first());
                }
            }
            i = i + 1;
        }
        assert(out@ =~= played(q, out@.len()));
        starved
    }

    /// Splits the relay into its write end and its read end, for a capture
    /// side and a playback side that run on their own threads.
    pub fn split(self) -> (r: (SampleProducer, SampleConsumer))
        ensures
            produced(r.0) == self@,
            consumed(r.1) == Seq::<Sample>::empty(),
    {
        ring_split(self.ring)
    }
}

impl SampleProducer {
    /// Offers each sample of a captured batch in order through the write end.
    /// A sample that finds the ring full at that moment is dropped, and the
    /// rest of the batch is still offered. Returns whether any was dropped.
    pub fn push_batch(&mut self, data: &[Sample]) -> (fell_behind: bool)
        ensures
            exists|mask: Seq<bool>|
                {
                    &&& mask.len() == data@.len()
                    &&& produced(*final(self)) == produced(*old(self)) + kept(data@, mask)
                    &&& fell_behind == mask.contains(false)
                },
    {
        let ghost mut mask: Seq<bool> = Seq::empty();
        let mut fell_behind = false;
        let mut i: usize = 0;
        while i < data.len()
            invariant
                i <= data@.len(),
                mask.len() == i,
                produced(*self) == produced(*old(self)) + kept(data@.take(i as int), mask),
                fell_behind == mask.contains(false),
            decreases data@.len() - i,
        {
            let ok = producer_push(self, data[i]).is_ok();
            if !ok {
                fell_behind = true;
            }
            proof {
                let t = data@.take(i + 1);
                let m = mask.push(ok);
                assert(t.drop_last() =~= data@.take(i as int));
                assert(m.drop_last() =~= mask);
                assert(t.last() == data@[i as int]);
                if !ok {
                    assert(m[i as int] == false);
                }
                if fell_behind && ok {
                    let k = choose|k: int| 0 <= k < mask.len() && mask[k] == false;
                    assert(m[k] == false);
                }
                if !fell_behind {
                    assert forall|k: int| 0 <= k < m.len() implies m[k] != false by {
                        if k < i {
                            assert(m[k] == mask[k]);
                        }
                    }
                }
                mask = m;
            }
            i = i + 1;
        }
        assert(data@.take(i as int) =~= data@);
        fell_behind
    }
}

impl SampleConsumer {
    /// Fills every slot of a playback batch in order through the read end: with
    /// the oldest sample, or with silence where the ring is empty at that
    /// moment. Returns whether any slot got silence for want of a sample.
    pub fn fill_batch(&mut self, out: &mut [Sample]) -> (starved: bool)
        ensures
            final(out)@.len() == old(out)@.len(),
            exists|mask: Seq<bool>|
                {
                    &&& mask.len() == old(out)@.len()
                    &&& consumed(*final(self)) == consumed(*old(self)) + kept(final(out)@, mask)
                    &&& forall|k: int| 0 <= k < mask.len() && !mask[k] ==> final(out)@[k] == SILENCE
                    &&& starved == mask.contains(false)
                },
    {
        let ghost mut mask: Seq<bool> = Seq::empty();
        let mut starved = false;
        let mut i: usize = 0;
        while i < out.len()
            invariant
                i <= out@.len(),
                out@.len() == old(out)@.len(),
                mask.len() == i,
                consumed(*self) == consumed(*old(self)) + kept(out@.take(i as int), mask),
                forall|k: int| 0 <= k < i && !mask[k] ==> out@[k] == SILENCE,
                starved == mask.contains(false),
            decreases out@.len() - i,
        {
            let popped_sample = consumer_pop(self);
            let ok = popped_sample.is_some();
            let v = match popped_sample {
                Some(s) => s,
                None => {
                    starved = true;
                    SILENCE
                },
            };
            let ghost before = out@;
            out[i] = v;
            proof {
                let t = out@.take(i + 1);
                let m = mask.push(ok);
                assert(t.drop_last() =~= before.take(i as int));
                assert(m.drop_last() =~= mask);
                assert(t.last() == v);
                if !ok {
                    assert(m[i as int] == false);
                }
                if starved && ok {
                    let k = choose|k: int| 0 <= k < mask.len() && mask[k] == false;
                    assert(m[k] == false);
                }
                if !starved {
                    assert forall|k: int| 0 <= k < m.len() implies m[k] != false by {
                        if k < i {
                            assert(m[k] == mask[k]);
                        }
                    }
                }
                mask = m;
            }
            i = i + 1;
        }
        assert(out@.take(i as int) =~= out@);
        starved
    }
}

} // verus!
