//! The time-windowed buffer of samples behind the chart.
//!
//! Samples are kept in the order in which they arrived. A push drops every
//! sample that lies a whole window or more before the one pushed; nothing
//! else bounds the buffer.

use vstd::prelude::*;
use crate::binary32::Binary32;

verus! {

/// The length of the window in milliseconds: sixty seconds.
pub const WINDOW_MILLIS: i64 = 60_000;

/// A value and the time at which it was read, in milliseconds since the
/// epoch.
#[derive(Clone, Copy, Debug, PartialEq, Eq, Structural)]
pub struct Sample {
    pub timestamp: i64,
    pub value: Binary32,
}

/// `sample` lies less than a window before `newest`.
pub open spec fn in_window(sample: Sample, newest: int) -> bool {
    sample.timestamp > newest - WINDOW_MILLIS
}

/// [`in_window`] as a predicate on samples.
pub open spec fn window_of(newest: int) -> spec_fn(Sample) -> bool {
    |sample: Sample| in_window(sample, newest)
}

/// The samples that stay when the window ends at `newest`, in their order.
pub open spec fn retained(samples: Seq<Sample>, newest: int) -> Seq<Sample> {
    samples.filter(window_of(newest))
}

/// The buffer after `sample` is pushed: what stays of the earlier samples
/// in the window that ends at `sample`, then `sample`.
pub open spec fn pushed(samples: Seq<Sample>, sample: Sample) -> Seq<Sample> {
    retained(samples, sample.timestamp as int).push(sample)
}

/// The buffer after each of `arrivals` is pushed in turn.
pub open spec fn pushed_all(samples: Seq<Sample>, arrivals: Seq<Sample>) -> Seq<Sample>
    decreases arrivals.len(),
{
    if arrivals.len() == 0 {
        samples
    } else {
        pushed(pushed_all(samples, arrivals.drop_last()), arrivals.last())
    }
}

/// Every sample lies less than a window before the latest one, which is the
/// last.
pub open spec fn windowed(samples: Seq<Sample>) -> bool {
    forall|i: int|
        0 <= i < samples.len() ==> in_window(#[trigger] samples[i], samples.last().timestamp as int)
}

/// The time at which the window of a buffer ends: that of the latest
/// sample, or zero while there is none.
pub open spec fn window_end(samples: Seq<Sample>) -> int {
    if samples.len() == 0 {
        0
    } else {
        samples.last().timestamp as int
    }
}

/// The samples of the last sixty seconds, oldest arrival first.
pub struct SampleBuffer {
    samples: Vec<Sample>,
}

impl View for SampleBuffer {
    type V = Seq<Sample>;

    closed spec fn view(&self) -> Seq<Sample> {
        self.samples@
    }
}

impl SampleBuffer {
    #[verifier::type_invariant]
    spec fn well_formed(self) -> bool {
        windowed(self.samples@)
    }

    /// An empty buffer.
    pub fn new() -> (buffer: Self)
        ensures
            buffer@ == Seq::<Sample>::empty(),
    {
        SampleBuffer { samples: Vec::new() }
    }

    /// The number of samples held.
    pub fn len(&self) -> (len: usize)
        ensures
            len == self@.len(),
    {
        self.samples.len()
    }

    /// Whether no sample is held.
    pub fn is_empty(&self) -> (empty: bool)
        ensures
            empty == (self@.len() == 0),
    {
        self.samples.len() == 0
    }

    /// The sample pushed last, if any.
    pub fn latest(&self) -> (sample: Option<Sample>)
        ensures
            self@.len() == 0 ==> sample.is_none(),
            self@.len() > 0 ==> sample == Some(self@.last()),
    {
        if self.samples.len() == 0 {
            None
        } else {
            Some(self.samples[self.samples.len() - 1])
        }
    }

    /// The span of time that a chart of the buffer shows: the window that
    /// ends at the latest sample, or at time zero while there is none. The
    /// older end stops at the least time that there is.
    pub fn window(&self) -> (span: (i64, i64))
        ensures
            span.1 == window_end(self@),
            span.0 == if span.1 - WINDOW_MILLIS < i64::MIN {
                i64::MIN as int
            } else {
                span.1 - WINDOW_MILLIS
            },
    {
        let newest: i64 = if self.samples.len() == 0 {
            0
        } else {
            self.samples[self.samples.len() - 1].timestamp
        };
        let oldest: i64 = if newest < i64::MIN + WINDOW_MILLIS {
            i64::MIN
        } else {
            newest - WINDOW_MILLIS
        };
        (oldest, newest)
    }

    /// Inserts a sample, then drops every sample that lies a window or more
    /// before it.
    pub fn push(&mut self, timestamp: i64, value: Binary32)
        ensures
            final(self)@ == pushed(old(self)@, Sample { timestamp, value }),
            windowed(final(self)@),
    {
        let sample = Sample { timestamp, value };
        let mut kept: Vec<Sample> = Vec::new();
        let mut index: usize = 0;
        while index < self.samples.len()
            invariant
                index <= self.samples.len(),
                self.samples@ == old(self).samples@,
                kept@ == retained(self.samples@.take(index as int), timestamp as int),
            decreases self.samples.len() - index,
        {
            let earlier = self.samples[index];
            proof {
                let longer = self.samples@.take(index + 1);
                assert(longer.drop_last() == self.samples@.take(index as int));
                assert(longer.last() == earlier);
                reveal(Seq::filter);
            }
            if earlier.timestamp as i128 > timestamp as i128 - WINDOW_MILLIS as i128 {
                kept.push(earlier);
            }
            index = index + 1;
        }
        proof {
            assert(self.samples@.take(index as int) == self.samples@);
            lemma_pushed_windowed(self.samples@, sample);
        }
        kept.push(sample);
        self.samples = kept;
    }

    /// The samples held, oldest arrival first.
    pub fn snapshot(&self) -> (samples: Vec<Sample>)
        ensures
            samples@ == self@,
            windowed(samples@),
    {
        proof {
            use_type_invariant(self);
        }
        let mut samples: Vec<Sample> = Vec::new();
        let mut index: usize = 0;
        while index < self.samples.len()
            invariant
                index <= self.samples.len(),
                samples@ == self.samples@.take(index as int),
            decreases self.samples.len() - index,
        {
            samples.push(self.samples[index]);
            proof {
                assert(samples@ == self.samples@.take(index + 1));
            }
            index = index + 1;
        }
        proof {
            assert(self.samples@.take(index as int) == self.samples@);
        }
        samples
    }
}

/// After a push every sample lies less than a window before the one pushed.
pub proof fn lemma_pushed_windowed(samples: Seq<Sample>, sample: Sample)
    ensures
        windowed(pushed(samples, sample)),
{
    let kept = retained(samples, sample.timestamp as int);
    let after = pushed(samples, sample);
    assert forall|i: int| 0 <= i < after.len() implies in_window(
        #[trigger] after[i],
        after.last().timestamp as int,
    ) by {
        if i < kept.len() {
            samples.lemma_filter_pred(window_of(sample.timestamp as int), i);
        }
    }
}

/// After any sequence of pushes onto an empty buffer, every sample held lies
/// less than a window before the latest.
pub proof fn lemma_pushes_windowed(arrivals: Seq<Sample>)
    ensures
        windowed(pushed_all(Seq::<Sample>::empty(), arrivals)),
{
    if arrivals.len() > 0 {
        lemma_pushed_windowed(
            pushed_all(Seq::<Sample>::empty(), arrivals.drop_last()),
            arrivals.last(),
        );
    }
}

/// A push drops nothing but what lies a window or more before the sample
/// pushed: an earlier sample stays if and only if it lies in the window that
/// ends at the new one, and those that stay keep their order.
pub proof fn lemma_push_keeps_window(samples: Seq<Sample>, sample: Sample, i: int)
    requires
        0 <= i < samples.len(),
    ensures
        in_window(samples[i], sample.timestamp as int) <==> retained(
            samples,
            sample.timestamp as int,
        ).contains(samples[i]),
{
    let newest = sample.timestamp as int;
    if retained(samples, newest).contains(samples[i]) {
        let j = choose|j: int|
            0 <= j < retained(samples, newest).len() && retained(samples, newest)[j] == samples[i];
        samples.lemma_filter_pred(window_of(newest), j);
    } else if in_window(samples[i], newest) {
        samples.lemma_filter_contains(window_of(newest), i);
    }
}

/// Pushing a sample that is not newer than the latest one drops nothing: the
/// buffer is as before, with the sample at its end.
pub proof fn lemma_stale_push_keeps_all(samples: Seq<Sample>, sample: Sample)
    requires
        windowed(samples),
        samples.len() > 0,
        sample.timestamp <= samples.last().timestamp,
    ensures
        pushed(samples, sample) == samples.push(sample),
{
    lemma_filter_all(samples, window_of(sample.timestamp as int));
}

/// Filtering by a predicate that holds of every element changes nothing.
proof fn lemma_filter_all(samples: Seq<Sample>, keep: spec_fn(Sample) -> bool)
    requires
        forall|i: int| 0 <= i < samples.len() ==> keep(#[trigger] samples[i]),
    ensures
        samples.filter(keep) == samples,
    decreases samples.len(),
{
    reveal(Seq::filter);
    if samples.len() > 0 {
        lemma_filter_all(samples.drop_last(), keep);
        assert(samples.drop_last().push(samples.last()) == samples);
    }
}

} // verus!
