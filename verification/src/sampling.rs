//! Double-buffered sampling pipeline.
//!
//! The pipeline owns a pair of fixed-size sample buffers.  At any
//! instant exactly one of them is active — reserved for the streaming
//! engine that copies readings out of the sampling peripheral — and the
//! other is spare, free for software to read.  Starting a cycle and the
//! transfer-complete event are the two operations; the hardware side
//! (the peripheral itself, the interrupt dispatch and its locking)
//! stays outside and drives them, handing in the samples the engine
//! streamed.

use vstd::prelude::*;

verus! {

/// Number of samples one transfer fills.
pub const SAMPLE_COUNT: usize = 16;

/// Which buffer of the pair is meant.
#[derive(Clone, Copy, PartialEq, Eq, Structural, Debug)]
pub enum BufferId {
    First,
    Second,
}

impl BufferId {
    /// The other buffer of the pair.
    pub open spec fn spec_other(self) -> BufferId {
        match self {
            BufferId::First => BufferId::Second,
            BufferId::Second => BufferId::First,
        }
    }

    /// The other buffer of the pair.
    pub fn other(self) -> (r: BufferId)
        ensures
            r == self.spec_other(),
    {
        match self {
            BufferId::First => BufferId::Second,
            BufferId::Second => BufferId::First,
        }
    }
}

/// The pipeline: the buffer pair, which buffer the engine owns, and
/// whether a cycle is in flight.
pub struct SamplePipeline {
    buf_first: [u16; 16],
    buf_second: [u16; 16],
    active: BufferId,
    in_flight: bool,
}

impl SamplePipeline {
    /// The buffer the streaming engine owns.
    pub closed spec fn spec_active(self) -> BufferId {
        self.active
    }

    /// Whether a sampling cycle is in flight.
    pub closed spec fn spec_in_flight(self) -> bool {
        self.in_flight
    }

    /// The contents of buffer `id`.
    pub closed spec fn buf(self, id: BufferId) -> Seq<u16> {
        match id {
            BufferId::First => self.buf_first@,
            BufferId::Second => self.buf_second@,
        }
    }

    /// Which buffer the engine owns.
    pub fn active_buffer(&self) -> (id: BufferId)
        ensures
            id == self.spec_active(),
    {
        self.active
    }

    /// Whether a sampling cycle is in flight.
    pub fn is_in_flight(&self) -> (b: bool)
        ensures
            b == self.spec_in_flight(),
    {
        self.in_flight
    }

    /// The contents of the spare buffer — the one software may read.
    pub fn spare_samples(&self) -> (v: Vec<u16>)
        ensures
            v@ == self.buf(self.spec_active().spec_other()),
    {
        let mut v: Vec<u16> = Vec::new();
        let mut i: usize = 0;
        while i < 16
            invariant
                i <= 16,
                v@ == self.buf(self.spec_active().spec_other()).take(i as int),
                self.buf(self.spec_active().spec_other()).len() == 16,
            decreases 16 - i,
        {
            match self.active {
                BufferId::First => {
                    v.push(self.buf_second[i]);
                },
                BufferId::Second => {
                    v.push(self.buf_first[i]);
                },
            }
            proof {
                assert(v@ =~= self.buf(self.spec_active().spec_other()).take(i + 1));
            }
            i = i + 1;
        }
        proof {
            assert(self.buf(self.spec_active().spec_other()).take(16) =~= self.buf(
                self.spec_active().spec_other(),
            ));
        }
        v
    }

    /// A fresh pipeline: no cycle in flight, the first buffer active,
    /// both buffers blank.
    pub fn new() -> (s: Self)
        ensures
            !s.spec_in_flight(),
            s.spec_active() == BufferId::First,
            s.buf(BufferId::First) == Seq::new(16, |i: int| 0u16),
            s.buf(BufferId::Second) == Seq::new(16, |i: int| 0u16),
    {
        let s = SamplePipeline {
            buf_first: [0u16; 16],
            buf_second: [0u16; 16],
            active: BufferId::First,
            in_flight: false,
        };
        proof {
            assert(s.buf(BufferId::First) =~= Seq::new(16, |i: int| 0u16));
            assert(s.buf(BufferId::Second) =~= Seq::new(16, |i: int| 0u16));
        }
        s
    }

    /// Starts a sampling cycle: the engine begins streaming conversions
    /// into the active buffer, which the caller must hand to the
    /// peripheral.  Starting while a cycle is already in flight is a
    /// caller contract violation, kept out by the precondition; the
    /// caller serializes access (under its lock) to uphold it.
    pub fn start_cycle(&mut self) -> (target: BufferId)
        requires
            !old(self).spec_in_flight(),
        ensures
            final(self).spec_in_flight(),
            final(self).spec_active() == old(self).spec_active(),
            target == old(self).spec_active(),
            forall|id: BufferId| final(self).buf(id) == old(self).buf(id),
    {
        self.in_flight = true;
        self.active
    }

    /// The transfer-complete event: `samples` is what the engine
    /// streamed into the active buffer, in full — the event fires only
    /// on completion.  Stores them, hands the filled readings off to
    /// the consumer, designates the spare buffer as the engine's next
    /// target and re-arms, so the consumer's buffer and the engine's
    /// buffer are never the same.
    pub fn on_transfer_complete(&mut self, samples: &[u16]) -> (filled: Vec<u16>)
        requires
            old(self).spec_in_flight(),
            samples@.len() == 16,
        ensures
            final(self).spec_in_flight(),
            final(self).spec_active() == old(self).spec_active().spec_other(),
            final(self).spec_active() != old(self).spec_active(),
            filled@ == samples@,
            final(self).buf(old(self).spec_active()) == samples@,
            final(self).buf(old(self).spec_active().spec_other()) == old(self).buf(
                old(self).spec_active().spec_other(),
            ),
    {
        let mut i: usize = 0;
        while i < 16
            invariant
                i <= 16,
                samples@.len() == 16,
                *self == (SamplePipeline {
                    buf_first: self.buf_first,
                    buf_second: self.buf_second,
                    ..*old(self)
                }),
                forall|k: int| 0 <= k < i ==> self.buf(old(self).spec_active())[k] == samples@[k],
                forall|k: int|
                    i <= k < 16 ==> self.buf(old(self).spec_active())[k] == old(self).buf(
                        old(self).spec_active(),
                    )[k],
                self.buf(old(self).spec_active().spec_other()) == old(self).buf(
                    old(self).spec_active().spec_other(),
                ),
            decreases 16 - i,
        {
            match self.active {
                BufferId::First => {
                    self.buf_first[i] = samples[i];
                },
                BufferId::Second => {
                    self.buf_second[i] = samples[i];
                },
            }
            i = i + 1;
        }
        proof {
            assert(self.buf(old(self).spec_active()) =~= samples@);
        }
        let mut filled: Vec<u16> = Vec::new();
        let mut j: usize = 0;
        while j < 16
            invariant
                j <= 16,
                samples@.len() == 16,
                filled@ == samples@.take(j as int),
            decreases 16 - j,
        {
            filled.push(samples[j]);
            proof {
                assert(filled@ =~= samples@.take(j + 1));
            }
            j = j + 1;
        }
        proof {
            assert(samples@.take(16) =~= samples@);
        }
        self.active = self.active.other();
        self.in_flight = true;
        filled
    }
}

/// Law: a completed transfer alternates the pair.  The buffer the
/// engine refills next is never the one just handed off, and after two
/// consecutive completions the engine is back on the original buffer —
/// so a buffer being read is refilled no earlier than the cycle after
/// its consumer received it.
pub proof fn lemma_buffer_pair_alternates(
    s0: SamplePipeline,
    s1: SamplePipeline,
    s2: SamplePipeline,
)
    requires
        s1.spec_active() == s0.spec_active().spec_other(),
        s2.spec_active() == s1.spec_active().spec_other(),
    ensures
        s1.spec_active() != s0.spec_active(),
        s2.spec_active() == s0.spec_active(),
{
}

} // verus!
