//! The queue between the emulation thread and the sound device.
//!
//! Cores emit audio at rates of their own choosing and the device runs at
//! 48 kHz, so every sample is resampled before it lands here; the resampler
//! and the device are the application's. What is here is the queue itself:
//! bounded, first in first out, dropping the oldest audio when the core
//! outruns the device and padding with silence when the device outruns the
//! core, and counting both — the count is what makes a crackle report
//! actionable.

use std::collections::VecDeque;
use vstd::prelude::*;

verus! {

/// Device rate. Every desktop audio stack resamples to its own clock anyway,
/// and 48 kHz is what they all use natively.
pub const OUTPUT_RATE: u32 = 48_000;

/// Target occupancy, in milliseconds of audio: enough to ride out a
/// scheduler hiccup on a loaded laptop, below the ~100 ms where audio lag is
/// noticeable against the picture.
pub const TARGET_LATENCY_MS: u32 = 80;

/// Interleaved stereo samples at the target occupancy (48000 × 0.080 × 2).
pub const TARGET_SAMPLES: usize = 7680;

/// Four times the target, so a burst has somewhere to go without the latency
/// controller having to react instantly.
pub const CAPACITY: usize = 30720;

/// Samples waiting for the sound card, and the numbers needed to explain a
/// crackle after the fact.
pub struct AudioBuffer<S> {
    pub samples: VecDeque<S>,
    pub capacity: usize,
    /// Times the device asked for audio and there was not enough: each one is
    /// an audible click.
    pub underruns: u64,
    /// Samples thrown away because the queue was full: the core is outrunning
    /// the device.
    pub overruns: u64,
}

/// The last `cap` elements of `s`, or all of it when it is shorter.
pub open spec fn newest<S>(s: Seq<S>, cap: nat) -> Seq<S> {
    if s.len() > cap {
        s.subrange(s.len() - cap, s.len() as int)
    } else {
        s
    }
}

/// How many samples pushing `extra` onto `held` throws away.
pub open spec fn dropped(held: nat, extra: nat, cap: nat) -> nat {
    if held + extra > cap {
        (held + extra - cap) as nat
    } else {
        0
    }
}

/// What the device gets when it asks for `n` samples: what is queued, oldest
/// first, then silence.
pub open spec fn served<S>(held: Seq<S>, n: nat, silence: S) -> Seq<S> {
    if n <= held.len() {
        held.take(n as int)
    } else {
        held + Seq::new((n - held.len()) as nat, |_i: int| silence)
    }
}

impl<S: Copy> AudioBuffer<S> {
    pub fn new() -> (b: Self)
        ensures
            b.samples@.len() == 0,
            b.capacity == CAPACITY,
            b.underruns == 0,
            b.overruns == 0,
            b.wf(),
    {
        AudioBuffer { samples: VecDeque::new(), capacity: CAPACITY, underruns: 0, overruns: 0 }
    }

    /// Never more queued than fits.
    pub open spec fn wf(&self) -> bool {
        &&& self.capacity > 0
        &&& self.samples@.len() <= self.capacity
    }

    /// Queue samples. When full, the oldest go: falling behind should cost
    /// latency, not continuity.
    pub fn push(&mut self, samples: &[S])
        requires
            old(self).wf(),
            old(self).overruns + samples@.len() <= u64::MAX,
        ensures
            final(self).wf(),
            final(self).capacity == old(self).capacity,
            final(self).samples@ == newest(old(self).samples@ + samples@, old(self).capacity as nat),
            final(self).overruns == old(self).overruns + dropped(
                old(self).samples@.len(),
                samples@.len(),
                old(self).capacity as nat,
            ),
            final(self).underruns == old(self).underruns,
    {
        let ghost start = self.samples@;
        let ghost over0 = self.overruns;
        let cap = self.capacity;
        let mut i: usize = 0;
        while i < samples.len()
            invariant
                i <= samples@.len(),
                self.capacity == cap,
                self.underruns == old(self).underruns,
                cap > 0,
                self.samples@.len() <= cap,
                self.samples@ == newest(start + samples@.take(i as int), cap as nat),
                self.overruns == over0 + dropped(start.len(), i as nat, cap as nat),
                over0 + samples@.len() <= u64::MAX,
                start.len() <= cap,
            decreases samples@.len() - i,
        {
            let ghost before = self.samples@;
            let ghost all = start + samples@.take(i as int);
            let ghost all2 = start + samples@.take(i + 1);
            assert(all2 =~= all.push(samples@[i as int]));
            if self.samples.len() >= cap {
                let _ = self.samples.pop_front();
                self.overruns = self.overruns + 1;
            }
            self.samples.push_back(samples[i]);
            proof {
                if before.len() >= cap {
                    assert(all.len() >= cap);
                    assert(self.samples@ =~= newest(all2, cap as nat));
                } else {
                    assert(all.len() < cap);
                    assert(self.samples@ =~= newest(all2, cap as nat));
                }
            }
            i += 1;
        }
        assert(samples@.take(i as int) =~= samples@);
    }

    /// Hand the device `n` samples: the oldest queued, then silence if the
    /// queue runs dry, each missing sample counted as an underrun. Silence is
    /// the right failure: repeating stale samples would buzz.
    pub fn fill(&mut self, n: usize, silence: S) -> (out: Vec<S>)
        requires
            old(self).wf(),
            old(self).underruns + n <= u64::MAX,
        ensures
            final(self).wf(),
            final(self).capacity == old(self).capacity,
            out@ == served(old(self).samples@, n as nat, silence),
            final(self).samples@ == (if n <= old(self).samples@.len() {
                old(self).samples@.skip(n as int)
            } else {
                Seq::empty()
            }),
            final(self).underruns == old(self).underruns + (if n <= old(self).samples@.len() {
                0
            } else {
                n - old(self).samples@.len()
            }),
            final(self).overruns == old(self).overruns,
    {
        let ghost start = self.samples@;
        let ghost under0 = self.underruns;
        let mut out: Vec<S> = Vec::new();
        let mut i: usize = 0;
        while i < n
            invariant
                i <= n,
                self.capacity == old(self).capacity,
                self.capacity > 0,
                self.overruns == old(self).overruns,
                under0 + n <= u64::MAX,
                start.len() <= self.capacity,
                out@ == served(start, i as nat, silence),
                self.samples@ == (if i <= start.len() {
                    start.skip(i as int)
                } else {
                    Seq::empty()
                }),
                self.underruns == under0 + (if i <= start.len() {
                    0
                } else {
                    i - start.len()
                }),
            decreases n - i,
        {
            let ghost before = self.samples@;
            match self.samples.pop_front() {
                Some(s) => {
                    out.push(s);
                    proof {
                        assert(i < start.len());
                        assert(start.skip(i as int)[0] == start[i as int]);
                        assert(start.take(i + 1) =~= start.take(i as int).push(start[i as int]));
                        assert(start.skip(i + 1) =~= start.skip(i as int).drop_first());
                    }
                },
                None => {
                    out.push(silence);
                    self.underruns = self.underruns + 1;
                    proof {
                        assert(i >= start.len());
                        if i == start.len() {
                            assert(start.take(i as int) =~= start);
                        }
                        assert(out@ =~= served(start, (i + 1) as nat, silence));
                    }
                },
            }
            i += 1;
        }
        out
    }

    pub fn len(&self) -> (n: usize)
        ensures
            n == self.samples@.len(),
    {
        self.samples.len()
    }

    pub fn is_empty(&self) -> (e: bool)
        ensures
            e == (self.samples@.len() == 0),
    {
        self.samples.len() == 0
    }
}

/// The queue keeps the newest audio: after a push it ends with what was
/// pushed (as much of it as fits), and it never holds more than fits.
pub proof fn lemma_the_queue_keeps_the_newest<S>(held: Seq<S>, extra: Seq<S>, cap: nat)
    requires
        held.len() <= cap,
        cap > 0,
    ensures
        newest(held + extra, cap).len() <= cap,
        extra.len() <= cap ==> newest(held + extra, cap).skip(
            newest(held + extra, cap).len() - extra.len(),
        ) =~= extra,
        newest(held + extra, cap).len() + dropped(held.len(), extra.len(), cap) == held.len()
            + extra.len(),
{
    let all = held + extra;
    if extra.len() <= cap {
        let kept = newest(all, cap);
        assert forall|i: int| 0 <= i < extra.len() implies kept.skip(kept.len() - extra.len())[i]
            == extra[i] by {
            if all.len() > cap {
                assert(kept[kept.len() - extra.len() + i] == all[all.len() - extra.len() + i]);
            }
        }
    }
}

/// What goes in comes out in the same order: a push followed by a fill of the
/// same size, on an empty queue with room, hands back exactly what was pushed.
pub proof fn lemma_samples_come_out_in_order<S>(extra: Seq<S>, cap: nat, silence: S)
    requires
        extra.len() <= cap,
    ensures
        served(newest(Seq::<S>::empty() + extra, cap), extra.len(), silence) =~= extra,
{
    assert(Seq::<S>::empty() + extra =~= extra);
}

} // verus!
