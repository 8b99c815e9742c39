//! Per-call measurements kept with the bounded action log.
//!
//! No command text, paths, credentials or subprocess arguments are collected here. Points in
//! time are nanoseconds of a monotonic clock that the caller reads.

use vstd::prelude::*;

verus! {

/// Most transport samples kept for one call.
pub const MAX_TRANSPORTS: usize = 128;

/// What one tool call cost.
#[derive(Debug, Clone, PartialEq, Eq)]
pub struct CallTiming {
    pub duration_ms: u64,
    pub before_dispatch_ms: u64,
    pub outcome: String,
    pub requested_wait_ms: Option<u64>,
    pub wait_timed_out: bool,
    pub target: Option<String>,
    pub transports: Vec<TransportTiming>,
    pub omitted_transports: usize,
}

/// What one transport operation cost.
#[derive(Debug, Clone, PartialEq, Eq)]
pub struct TransportTiming {
    pub operation: String,
    pub transport: String,
    pub queue_ms: u64,
    pub duration_ms: u64,
    pub outcome: String,
    pub stdout_bytes: usize,
}

/// Whole milliseconds from `start` to `now`; none when the clock reads earlier.
pub open spec fn elapsed_ms(start: u64, now: u64) -> int {
    if now <= start {
        0
    } else {
        (now - start) as int / 1_000_000
    }
}

/// Whole milliseconds from `start` to `now`.
pub fn millis(start: u64, now: u64) -> (r: u64)
    ensures
        r == elapsed_ms(start, now),
{
    if now <= start {
        0
    } else {
        (now - start) / 1_000_000
    }
}

/// The samples that are kept, and how many are not, after one more: the first
/// [`MAX_TRANSPORTS`] are kept.
pub open spec fn with_sample(
    kept: Seq<TransportTiming>,
    omitted: int,
    sample: TransportTiming,
) -> (Seq<TransportTiming>, int) {
    if kept.len() < MAX_TRANSPORTS {
        (kept.push(sample), omitted)
    } else {
        (kept, omitted + 1)
    }
}

/// The samples that are kept, and how many are not, after all of these.
pub open spec fn with_samples(samples: Seq<TransportTiming>) -> (Seq<TransportTiming>, int)
    decreases samples.len(),
{
    if samples.len() == 0 {
        (Seq::empty(), 0)
    } else {
        let (kept, omitted) = with_samples(samples.drop_last());
        with_sample(kept, omitted, samples.last())
    }
}

/// However many operations a call makes, the first [`MAX_TRANSPORTS`] of them are kept in order
/// and the others are counted.
pub proof fn samples_are_bounded(samples: Seq<TransportTiming>)
    ensures
        samples.len() <= MAX_TRANSPORTS ==> with_samples(samples) == (samples, 0int),
        samples.len() > MAX_TRANSPORTS ==> with_samples(samples) == (
            samples.take(MAX_TRANSPORTS as int),
            samples.len() - MAX_TRANSPORTS,
        ),
        with_samples(samples).0.len() == vstd::math::min(
            samples.len() as int,
            MAX_TRANSPORTS as int,
        ),
    decreases samples.len(),
{
    if samples.len() == 0 {
        assert(samples =~= Seq::empty());
    } else {
        let before = samples.drop_last();
        samples_are_bounded(before);
        if samples.len() <= MAX_TRANSPORTS {
            assert(before.push(samples.last()) =~= samples);
        } else if before.len() == MAX_TRANSPORTS {
            assert(before =~= samples.take(MAX_TRANSPORTS as int));
        } else {
            assert(before.take(MAX_TRANSPORTS as int) =~= samples.take(MAX_TRANSPORTS as int));
        }
    }
}

/// A running measurement of one transport operation.
///
/// An operation that is dropped before [`TransportTimer::finish`] is recorded as interrupted.
#[derive(Debug, Clone, PartialEq, Eq)]
pub struct TransportTimer {
    start: u64,
    dispatched: bool,
    sample: TransportTiming,
}

impl TransportTimer {
    /// When the measurement started.
    pub closed spec fn started(&self) -> u64 {
        self.start
    }

    /// Whether the operation has left the queue.
    pub closed spec fn is_dispatched(&self) -> bool {
        self.dispatched
    }

    /// The sample as far as it is known.
    pub closed spec fn sample(&self) -> TransportTiming {
        self.sample
    }

    /// Start measuring `operation`.
    pub fn new(operation: &str, ssh: bool, now: u64) -> (r: Self)
        ensures
            r.started() == now,
            !r.is_dispatched(),
            r.sample().operation@ == operation@,
            r.sample().transport@ == (if ssh {
                "ssh"@
            } else {
                "local"@
            }),
            r.sample().queue_ms == 0,
            r.sample().duration_ms == 0,
            r.sample().outcome@ == "interrupted"@,
            r.sample().stdout_bytes == 0,
    {
        let transport = if ssh {
            "ssh".to_owned()
        } else {
            "local".to_owned()
        };
        TransportTimer {
            start: now,
            dispatched: false,
            sample: TransportTiming {
                operation: operation.to_owned(),
                transport,
                queue_ms: 0,
                duration_ms: 0,
                outcome: "interrupted".to_owned(),
                stdout_bytes: 0,
            },
        }
    }

    /// The operation has left the queue.
    pub fn dispatched(&mut self, now: u64)
        ensures
            final(self).is_dispatched(),
            final(self).started() == old(self).started(),
            final(self).sample() == (TransportTiming {
                queue_ms: elapsed_ms(old(self).started(), now) as u64,
                ..old(self).sample()
            }),
    {
        self.dispatched = true;
        self.sample.queue_ms = millis(self.start, now);
    }

    /// The operation has ended with `outcome`.
    pub fn finish(&mut self, outcome: &str, stdout_bytes: usize)
        ensures
            final(self).is_dispatched() == old(self).is_dispatched(),
            final(self).started() == old(self).started(),
            final(self).sample().outcome@ == outcome@,
            final(self).sample().stdout_bytes == stdout_bytes,
            final(self).sample().operation == old(self).sample().operation,
            final(self).sample().transport == old(self).sample().transport,
            final(self).sample().queue_ms == old(self).sample().queue_ms,
            final(self).sample().duration_ms == old(self).sample().duration_ms,
    {
        self.sample.outcome = outcome.to_owned();
        self.sample.stdout_bytes = stdout_bytes;
    }

    /// The sample that is recorded when the measurement ends at `now`.
    pub open spec fn recorded(&self, now: u64) -> TransportTiming {
        let duration = elapsed_ms(self.started(), now) as u64;
        TransportTiming {
            duration_ms: duration,
            queue_ms: if self.is_dispatched() {
                self.sample().queue_ms
            } else {
                duration
            },
            ..self.sample()
        }
    }

    /// End the measurement and add its sample to `timing`, which keeps the first
    /// [`MAX_TRANSPORTS`] samples and counts the others.
    pub fn record(self, now: u64, timing: &mut CallTiming)
        requires
            old(timing).omitted_transports < usize::MAX,
        ensures
            (final(timing).transports@, final(timing).omitted_transports as int) == with_sample(
                old(timing).transports@,
                old(timing).omitted_transports as int,
                self.recorded(now),
            ),
            final(timing).duration_ms == old(timing).duration_ms,
            final(timing).before_dispatch_ms == old(timing).before_dispatch_ms,
            final(timing).outcome == old(timing).outcome,
            final(timing).requested_wait_ms == old(timing).requested_wait_ms,
            final(timing).wait_timed_out == old(timing).wait_timed_out,
            final(timing).target == old(timing).target,
    {
        let mut sample = self.sample;
        sample.duration_ms = millis(self.start, now);
        if !self.dispatched {
            sample.queue_ms = sample.duration_ms;
        }
        if timing.transports.len() < MAX_TRANSPORTS {
            timing.transports.push(sample);
        } else {
            timing.omitted_transports += 1;
        }
    }
}

impl CallTiming {
    /// A measurement of work bound to `target`, with nothing recorded yet.
    pub fn start(target: Option<String>) -> (r: Self)
        ensures
            r.duration_ms == 0,
            r.before_dispatch_ms == 0,
            r.outcome@.len() == 0,
            r.requested_wait_ms is None,
            !r.wait_timed_out,
            r.target == target,
            r.transports@.len() == 0,
            r.omitted_transports == 0,
    {
        CallTiming {
            duration_ms: 0,
            before_dispatch_ms: 0,
            outcome: String::new(),
            requested_wait_ms: None,
            wait_timed_out: false,
            target,
            transports: Vec::new(),
            omitted_transports: 0,
        }
    }
}

} // verus!
