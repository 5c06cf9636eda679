//! Bounded per-channel sample store.
//!
//! A `SampleBuffer` keeps two parallel sequences of equal length: timestamps
//! in milliseconds, relative to the buffer's first-ever sample, and sample
//! values carried as their unparsed numeric tokens.  The buffer is bounded:
//! when a push would exceed the configured capacity, the oldest entry is
//! evicted first.  Clearing the buffer also resets the time origin, so the
//! next push restarts the clock at zero.

use vstd::prelude::*;

verus! {

/// One FIFO step: append the new entry, then evict the oldest entry if the
/// result would exceed the capacity.
pub open spec fn fifo_step<T>(s: Seq<T>, x: T, max: int) -> Seq<T> {
    let grown = s.push(x);
    if grown.len() > max {
        grown.drop_first()
    } else {
        grown
    }
}

/// The entries a bounded buffer retains out of everything ever pushed: the
/// most recent `max` entries, in push order.
pub open spec fn retained<T>(pushed: Seq<T>, max: int) -> Seq<T> {
    if pushed.len() <= max {
        pushed
    } else {
        pushed.skip(pushed.len() - max)
    }
}

/// The buffer contents after pushing a whole sequence of entries, one FIFO
/// step at a time, starting from an empty buffer.
pub open spec fn evolve<T>(pushed: Seq<T>, max: int) -> Seq<T>
    decreases pushed.len(),
{
    if pushed.len() == 0 {
        Seq::empty()
    } else {
        fifo_step(evolve(pushed.drop_last(), max), pushed.last(), max)
    }
}

/// For every sequence of pushes, the buffer holds exactly the most recent
/// `max` entries in push order, and its length is the number of pushes capped
/// at `max`.  Together with the postcondition of [`SampleBuffer::push`], which
/// says that one push performs one [`fifo_step`], this pins down the contents
/// of a buffer after any number of pushes.
pub proof fn lemma_fifo_retention<T>(pushed: Seq<T>, max: int)
    requires
        max >= 1,
    ensures
        evolve(pushed, max) == retained(pushed, max),
        evolve(pushed, max).len() == if pushed.len() <= max {
            pushed.len() as int
        } else {
            max
        },
    decreases pushed.len(),
{
    if pushed.len() == 0 {
    } else {
        let p = pushed.drop_last();
        let x = pushed.last();
        lemma_fifo_retention(p, max);
        let grown = retained(p, max).push(x);
        if pushed.len() <= max {
            assert(grown =~= pushed);
        } else {
            let k = pushed.len() - max;
            assert(grown.drop_first() =~= pushed.skip(k)) by {
                assert forall|i: int| 0 <= i < grown.len() - 1 implies grown.drop_first()[i]
                    == pushed.skip(k)[i] by {
                    if i < max - 1 {
                        assert(grown.drop_first()[i] == retained(p, max)[i + 1]);
                        assert(retained(p, max)[i + 1] == p[p.len() - max + i + 1]);
                        assert(pushed.skip(k)[i] == pushed[k + i]);
                    } else {
                        assert(grown.drop_first()[i] == x);
                    }
                }
            }
        }
    }
}

/// The timestamp the next push will record: zero for the first-ever push,
/// otherwise the time elapsed since the origin, never running backwards past
/// the newest entry already stored.
pub open spec fn next_ts(origin: Option<u64>, times: Seq<u64>, now_ms: u64) -> u64 {
    match origin {
        Option::None => 0u64,
        Option::Some(o) => {
            let raw: u64 = if now_ms >= o {
                (now_ms - o) as u64
            } else {
                0u64
            };
            let newest: u64 = if times.len() > 0 {
                times.last()
            } else {
                0u64
            };
            if raw >= newest {
                raw
            } else {
                newest
            }
        },
    }
}

/// Clearing a buffer and then pushing once yields a single entry whose
/// timestamp is zero: the cleared buffer has no origin, so the push restarts
/// the clock.
pub proof fn lemma_clear_then_push(now_ms: u64, max_points: int)
    requires
        max_points >= 1,
    ensures
        next_ts(Option::None, Seq::<u64>::empty(), now_ms) == 0u64,
        fifo_step(Seq::<u64>::empty(), next_ts(Option::None, Seq::<u64>::empty(), now_ms), max_points)
            == seq![0u64],
{
    assert(fifo_step(
        Seq::<u64>::empty(),
        next_ts(Option::None, Seq::<u64>::empty(), now_ms),
        max_points,
    ) =~= seq![0u64]);
}

/// How one push relates a buffer before and after: the origin is set on the
/// first-ever push, and both sequences advance by one FIFO step.
pub open spec fn pushed(
    pre: SampleBuffer,
    v: Seq<u8>,
    now_ms: u64,
    max: int,
    post: SampleBuffer,
) -> bool {
    &&& post.origin_ms() == (match pre.origin_ms() {
        Option::None => Some(now_ms),
        Option::Some(o) => Some(o),
    })
    &&& post.timestamps() == fifo_step(
        pre.timestamps(),
        next_ts(pre.origin_ms(), pre.timestamps(), now_ms),
        max,
    )
    &&& post.samples() == fifo_step(pre.samples(), v, max)
}

/// Fixed-capacity time-ordered store of (timestamp, value) pairs with FIFO
/// eviction.
pub struct SampleBuffer {
    times: Vec<u64>,
    values: Vec<Vec<u8>>,
    origin: Option<u64>,
}

impl SampleBuffer {
    /// The stored timestamps, oldest first, in milliseconds since the origin.
    pub closed spec fn timestamps(&self) -> Seq<u64> {
        self.times@
    }

    /// The stored sample tokens, oldest first.
    pub closed spec fn samples(&self) -> Seq<Seq<u8>> {
        self.values.deep_view()
    }

    /// The absolute time of the first-ever push, unset until then and after a
    /// clear.
    pub closed spec fn origin_ms(&self) -> Option<u64> {
        self.origin
    }

    /// Well-formedness: the two sequences run in parallel, the origin is set
    /// as soon as anything is stored, and timestamps never decrease.
    pub open spec fn wf(&self) -> bool {
        &&& self.timestamps().len() == self.samples().len()
        &&& (self.origin_ms() is None ==> self.timestamps().len() == 0)
        &&& (forall|i: int, j: int|
            0 <= i <= j < self.timestamps().len() ==> self.timestamps()[i]
                <= self.timestamps()[j])
    }

    /// An empty buffer with no time origin.
    pub fn new() -> (b: Self)
        ensures
            b.wf(),
            b.timestamps() == Seq::<u64>::empty(),
            b.samples() == Seq::<Seq<u8>>::empty(),
            b.origin_ms() is None,
    {
        let b = SampleBuffer { times: Vec::new(), values: Vec::new(), origin: Option::None };
        proof {
            assert(b.samples() =~= Seq::<Seq<u8>>::empty());
        }
        b
    }

    /// Empties both sequences and resets the time origin, so the next push
    /// restarts the clock at zero.
    pub fn clear(&mut self)
        ensures
            final (self).wf(),
            final (self).timestamps() == Seq::<u64>::empty(),
            final (self).samples() == Seq::<Seq<u8>>::empty(),
            final (self).origin_ms() is None,
    {
        self.times.clear();
        self.values.clear();
        self.origin = Option::None;
        proof {
            assert(self.samples() =~= Seq::<Seq<u8>>::empty());
        }
    }

    /// Appends one sample: on the first-ever push the origin is set to `now_ms`
    /// and the timestamp is zero, otherwise the timestamp is the time elapsed
    /// since the origin (never running backwards past the newest entry); then
    /// the oldest entry is evicted if the buffer would exceed `max_points`.
    pub fn push(&mut self, value: Vec<u8>, now_ms: u64, max_points: usize)
        requires
            old(self).wf(),
            max_points >= 1,
        ensures
            final (self).wf(),
            pushed(*old(self), value@, now_ms, max_points as int, *final (self)),
    {
        let ghost pre = *self;
        let ts: u64;
        match self.origin {
            Option::None => {
                self.origin = Some(now_ms);
                ts = 0;
            },
            Option::Some(o) => {
                let raw: u64 = if now_ms >= o {
                    now_ms - o
                } else {
                    0
                };
                let newest: u64 = if self.times.len() > 0 {
                    self.times[self.times.len() - 1]
                } else {
                    0
                };
                ts = if raw >= newest {
                    raw
                } else {
                    newest
                };
            },
        }
        assert(ts == next_ts(pre.origin_ms(), pre.timestamps(), now_ms));
        self.times.push(ts);
        self.values.push(value);
        proof {
            assert(self.values.deep_view() =~~= pre.samples().push(value@));
        }
        if self.times.len() > max_points {
            let ghost grown_t = self.times@;
            let ghost grown_v = self.values.deep_view();
            self.times.remove(0);
            self.values.remove(0);
            proof {
                assert(self.times@ =~= grown_t.drop_first());
                assert(self.values.deep_view() =~~= grown_v.drop_first());
            }
        }
        proof {
            let ts_after = final (self).timestamps();
            assert(final (self).wf()) by {
                assert forall|i: int, j: int| 0 <= i <= j < ts_after.len() implies ts_after[i]
                    <= ts_after[j] by {
                    let shift: int = if pre.timestamps().len() + 1 > max_points {
                        1int
                    } else {
                        0int
                    };
                    assert(ts_after[i] == pre.timestamps().push(ts)[i + shift]);
                    assert(ts_after[j] == pre.timestamps().push(ts)[j + shift]);
                    if pre.timestamps().len() > 0 {
                        assert(pre.timestamps().last() <= ts);
                    }
                }
            }
        }
    }

    /// Number of stored samples.
    pub fn len(&self) -> (n: usize)
        ensures
            n == self.timestamps().len(),
    {
        self.times.len()
    }

    /// Read-only copy of the stored (timestamp, value) pairs, oldest first.
    pub fn snapshot(&self) -> (r: Vec<(u64, Vec<u8>)>)
        requires
            self.wf(),
        ensures
            r@.len() == self.timestamps().len(),
            forall|i: int|
                0 <= i < r@.len() ==> r@[i].0 == self.timestamps()[i] && r@[i].1@
                    == self.samples()[i],
    {
        let mut r: Vec<(u64, Vec<u8>)> = Vec::new();
        let mut i: usize = 0;
        while i < self.times.len()
            invariant
                self.wf(),
                i <= self.timestamps().len(),
                r@.len() == i,
                forall|k: int|
                    0 <= k < i ==> r@[k].0 == self.timestamps()[k] && r@[k].1@
                        == self.samples()[k],
            decreases self.timestamps().len() - i,
        {
            let v = vstd::slice::slice_to_vec(self.values[i].as_slice());
            r.push((self.times[i], v));
            i = i + 1;
        }
        r
    }
}

} // verus!
