//! The queue between received voice audio and the output device.
//!
//! Samples are IEEE 754 bit patterns of single precision: the queue carries
//! them and never computes with them. Where playback stands between two
//! samples is an exact fraction; interpolation is up to the caller.

use std::collections::VecDeque;

use vstd::prelude::*;

verus! {

/// Samples the queue holds at most: half a second at the source rate.
pub const MAX_BUFFER_SAMPLES: usize = 24_000;

/// Samples that have to be there before playback starts.
pub const START_BUFFER_SAMPLES: usize = 960;

/// Samples per second that arrive.
pub const SOURCE_RATE: u32 = 48_000;

/// Received samples, and the two that playback is between.
pub struct PlaybackBuffer {
    queue: VecDeque<u32>,
    current: u32,
    following: u32,
    /// How far playback is between the two, in parts of a sample: the output
    /// rate makes one.
    phase: u64,
    primed: bool,
}

/// What a `PlaybackBuffer` holds.
pub struct PlaybackView {
    pub queue: Seq<u32>,
    pub current: u32,
    pub following: u32,
    pub phase: nat,
    pub primed: bool,
}

/// Where an output sample lies: `phase` parts of the output rate on from
/// `current` towards `following`.
#[derive(Clone, Copy, Debug, PartialEq, Eq, Structural)]
pub struct PlaybackPoint {
    pub current: u32,
    pub following: u32,
    pub phase: u64,
}

impl View for PlaybackBuffer {
    type V = PlaybackView;

    closed spec fn view(&self) -> PlaybackView {
        PlaybackView {
            queue: self.queue@,
            current: self.current,
            following: self.following,
            phase: self.phase as nat,
            primed: self.primed,
        }
    }
}

/// The newest `max` elements.
pub open spec fn newest(queue: Seq<u32>, max: int) -> Seq<u32> {
    if queue.len() <= max {
        queue
    } else {
        queue.skip(queue.len() - max)
    }
}

impl PlaybackView {
    /// The first element, or silence.
    pub open spec fn front(queue: Seq<u32>) -> u32 {
        if queue.len() > 0 {
            queue[0]
        } else {
            0
        }
    }

    /// The queue without its first element.
    pub open spec fn rest(queue: Seq<u32>) -> Seq<u32> {
        if queue.len() > 0 {
            queue.drop_first()
        } else {
            queue
        }
    }

    /// After the attempt to start: two samples are taken once enough wait.
    pub open spec fn started(self) -> PlaybackView {
        if self.primed || self.queue.len() < START_BUFFER_SAMPLES {
            self
        } else {
            PlaybackView {
                current: PlaybackView::front(self.queue),
                following: PlaybackView::front(PlaybackView::rest(self.queue)),
                queue: PlaybackView::rest(PlaybackView::rest(self.queue)),
                phase: 0,
                primed: true,
            }
        }
    }

    /// After one sample on: the next follows, or playback runs dry and has to
    /// start again.
    pub open spec fn advanced(self, rate: nat) -> PlaybackView {
        PlaybackView {
            current: self.following,
            following: PlaybackView::front(self.queue),
            queue: PlaybackView::rest(self.queue),
            phase: if self.queue.len() > 0 {
                (self.phase - rate) as nat
            } else {
                self.phase
            },
            primed: self.primed && self.queue.len() > 0,
        }
    }

    /// After as many samples on as the phase has passed.
    pub open spec fn settled(self, rate: nat) -> PlaybackView
        decreases self.queue.len(),
    {
        if self.phase < rate {
            self
        } else if self.queue.len() == 0 {
            self.advanced(rate)
        } else {
            self.advanced(rate).settled(rate)
        }
    }

    /// After one output sample.
    pub open spec fn stepped(self, rate: nat) -> PlaybackView {
        PlaybackView { phase: self.phase + SOURCE_RATE as nat, ..self }.settled(rate)
    }

    /// Playback has not passed the sample that follows.
    pub open spec fn within(self, rate: nat) -> bool {
        self.primed ==> self.phase < rate
    }
}

impl PlaybackBuffer {
    pub fn new() -> (r: Self)
        ensures
            r@ == (PlaybackView {
                queue: Seq::empty(),
                current: 0,
                following: 0,
                phase: 0,
                primed: false,
            }),
    {
        PlaybackBuffer { queue: VecDeque::new(), current: 0, following: 0, phase: 0, primed: false }
    }

    /// Queue samples; the oldest leave once the queue is full.
    pub fn push(&mut self, samples: &[u32])
        ensures
            final(self)@ == (PlaybackView {
                queue: newest(old(self)@.queue + samples@, MAX_BUFFER_SAMPLES as int),
                ..old(self)@
            }),
    {
        let ghost start = self.queue@;
        let mut i: usize = 0;
        assert(self.queue@ =~= start + samples@.take(0));
        while i < samples.len()
            invariant
                i <= samples@.len(),
                self.queue@ == start + samples@.take(i as int),
                self.current == old(self).current,
                self.following == old(self).following,
                self.phase == old(self).phase,
                self.primed == old(self).primed,
            decreases samples@.len() - i,
        {
            self.queue.push_back(samples[i]);
            i += 1;
            assert(self.queue@ =~= start + samples@.take(i as int));
        }
        assert(samples@.take(i as int) =~= samples@);
        let ghost full = start + samples@;
        assert(self.queue@ =~= full.skip(0));
        while self.queue.len() > MAX_BUFFER_SAMPLES
            invariant
                self.queue@.len() <= full.len(),
                self.queue@ == full.skip(full.len() - self.queue@.len()),
                full.len() > MAX_BUFFER_SAMPLES ==> self.queue@.len() >= MAX_BUFFER_SAMPLES,
                full.len() <= MAX_BUFFER_SAMPLES ==> self.queue@ == full,
                self.current == old(self).current,
                self.following == old(self).following,
                self.phase == old(self).phase,
                self.primed == old(self).primed,
            decreases self.queue@.len(),
        {
            let _oldest: Option<u32> = self.queue.pop_front();
            assert(self.queue@ =~= full.skip(full.len() - self.queue@.len()));
        }
        assert(self.queue@ =~= newest(full, MAX_BUFFER_SAMPLES as int));
    }

    /// The next output sample for a device of the given rate; `None` means
    /// silence, until enough samples wait.
    pub fn next(&mut self, output_rate: u32) -> (r: Option<PlaybackPoint>)
        requires
            output_rate > 0,
            old(self)@.within(output_rate as nat),
        ensures
            final(self)@.within(output_rate as nat),
            match r {
                Some(point) => {
                    let v = old(self)@.started();
                    &&& v.primed
                    &&& point.current == v.current
                    &&& point.following == v.following
                    &&& point.phase == v.phase
                    &&& point.phase < output_rate
                    &&& final(self)@ == v.stepped(output_rate as nat)
                },
                None => !old(self)@.started().primed && final(self)@ == old(self)@,
            },
    {
        if !self.primed {
            if self.queue.len() < START_BUFFER_SAMPLES {
                return None;
            }
            let ghost start = self.queue@;
            self.current = match self.queue.pop_front() {
                Some(sample) => sample,
                None => 0,
            };
            assert(self.queue@ =~= PlaybackView::rest(start));
            self.following = match self.queue.pop_front() {
                Some(sample) => sample,
                None => 0,
            };
            assert(self.queue@ =~= PlaybackView::rest(PlaybackView::rest(start)));
            self.phase = 0;
            self.primed = true;
        }
        let point = PlaybackPoint {
            current: self.current,
            following: self.following,
            phase: self.phase,
        };
        let ghost rate = output_rate as nat;
        let ghost goal = self@.stepped(rate);
        self.phase = self.phase + SOURCE_RATE as u64;
        while self.primed && self.phase >= output_rate as u64
            invariant
                rate == output_rate,
                self.primed ==> self@.settled(rate) == goal,
                !self.primed ==> self@ == goal,
            decreases self.queue@.len(), if self.primed {
                1int
            } else {
                0int
            },
        {
            self.advance(output_rate);
        }
        Some(point)
    }

    /// Go one sample on, or run dry.
    fn advance(&mut self, output_rate: u32)
        requires
            old(self)@.phase >= output_rate,
        ensures
            final(self)@ == old(self)@.advanced(output_rate as nat),
    {
        let ghost start = self.queue@;
        self.current = self.following;
        match self.queue.pop_front() {
            Some(next) => {
                self.following = next;
                self.phase = self.phase - output_rate as u64;
            },
            None => {
                self.following = 0;
                self.primed = false;
            },
        }
        assert(self.queue@ =~= PlaybackView::rest(start));
    }
}

/// Playback hands samples out in the order they came: from the start on, the
/// samples it is between and the queue are a window onto what was received.
pub proof fn playback_keeps_order(v: PlaybackView, rate: nat)
    requires
        v.primed,
        rate > 0,
        v.stepped(rate).primed,
    ensures
        v.stepped(rate).window().is_suffix_of(v.window()),
{
    let w = PlaybackView { phase: v.phase + SOURCE_RATE as nat, ..v };
    assert(w.window() =~= v.window());
    settling_keeps_order(w, rate);
}

proof fn settling_keeps_order(v: PlaybackView, rate: nat)
    requires
        v.primed,
        v.settled(rate).primed,
    ensures
        v.settled(rate).window().is_suffix_of(v.window()),
    decreases v.queue.len(),
{
    let after = v.settled(rate).window();
    let all = v.window();
    if v.phase >= rate && v.queue.len() > 0 {
        let next = v.advanced(rate);
        settling_keeps_order(next, rate);
        assert(next.window() =~= all.drop_first());
        assert(after =~= all.subrange(all.len() - after.len(), all.len() as int));
    } else {
        assert(after =~= all.subrange(0, all.len() as int));
    }
}

impl PlaybackView {
    /// The samples that playback is between, and those behind them.
    pub open spec fn window(self) -> Seq<u32> {
        seq![self.current, self.following] + self.queue
    }
}

/// However much arrives, the queue stays bounded and keeps the newest.
pub proof fn queue_stays_bounded(queue: Seq<u32>, samples: Seq<u32>)
    ensures
        newest(queue + samples, MAX_BUFFER_SAMPLES as int).len() <= MAX_BUFFER_SAMPLES,
        newest(queue + samples, MAX_BUFFER_SAMPLES as int).is_suffix_of(queue + samples),
{
    let all = queue + samples;
    let kept = newest(all, MAX_BUFFER_SAMPLES as int);
    assert(kept =~= all.subrange(all.len() - kept.len(), all.len() as int));
}

/// Playback starts once 960 samples wait, twenty milliseconds, between the
/// first two of them, and takes just those; until then nothing is taken.
pub proof fn playback_starts_with_the_first_samples(v: PlaybackView)
    requires
        !v.primed,
    ensures
        v.queue.len() < 960 ==> v.started() == v,
        v.queue.len() >= 960 ==> {
            let w = v.started();
            &&& w.primed
            &&& w.current == v.queue[0]
            &&& w.following == v.queue[1]
            &&& w.queue == v.queue.skip(2)
            &&& w.phase == 0
        },
{
    if v.queue.len() >= 960 {
        assert(v.queue.drop_first().drop_first() =~= v.queue.skip(2));
    }
}

/// Playback that runs is not started again.
pub proof fn running_playback_goes_on(v: PlaybackView)
    requires
        v.primed,
    ensures
        v.started() == v,
{
}

/// Playback keeps to the source's pace: each output sample moves it on by
/// 48000 parts, of which the output rate makes one sample, and it takes as
/// many samples off the queue as it passes.
pub proof fn playback_keeps_pace(v: PlaybackView, rate: nat)
    requires
        v.primed,
        rate > 0,
        v.stepped(rate).primed,
    ensures
        ({
            let w = v.stepped(rate);
            let passed = v.queue.len() - w.queue.len();
            &&& 0 <= passed
            &&& w.phase < rate
            &&& w.phase + passed * rate == v.phase + 48_000
            &&& w.window() == v.window().skip(passed)
        }),
{
    let w = PlaybackView { phase: v.phase + SOURCE_RATE as nat, ..v };
    assert(w.window() =~= v.window());
    settling_counts_samples(w, rate);
}

proof fn settling_counts_samples(v: PlaybackView, rate: nat)
    requires
        v.primed,
        rate > 0,
        v.settled(rate).primed,
    ensures
        ({
            let w = v.settled(rate);
            let passed = v.queue.len() - w.queue.len();
            &&& 0 <= passed
            &&& w.phase < rate
            &&& w.phase + passed * rate == v.phase
            &&& w.window() == v.window().skip(passed)
        }),
    decreases v.queue.len(),
{
    let w = v.settled(rate);
    if v.phase >= rate {
        if v.queue.len() > 0 {
            let next = v.advanced(rate);
            settling_counts_samples(next, rate);
            let passed = next.queue.len() - w.queue.len();
            assert((passed + 1) * rate == passed * rate + rate) by (nonlinear_arith);
            assert(next.window() =~= v.window().skip(1));
            assert(v.window().skip(1).skip(passed) =~= v.window().skip(passed + 1));
        }
    } else {
        assert(w.window() =~= v.window().skip(0));
        assert(0 * rate == 0) by (nonlinear_arith);
    }
}

/// At the source's own rate each output sample is the next one received.
pub proof fn equal_rates_pass_samples_on(v: PlaybackView)
    requires
        v.primed,
        v.phase < 48_000,
        v.queue.len() > 0,
    ensures
        ({
            let w = v.stepped(48_000);
            &&& w.primed
            &&& w.current == v.following
            &&& w.following == v.queue[0]
            &&& w.queue == v.queue.drop_first()
            &&& w.phase == v.phase
        }),
{
    reveal_with_fuel(PlaybackView::settled, 2);
}

/// Playback that runs out of samples falls silent and waits for as many as it
/// takes to start, and what arrives meanwhile is kept.
pub proof fn dry_playback_waits_again(v: PlaybackView, rate: nat)
    requires
        v.primed,
        v.queue.len() == 0,
        rate <= v.phase + 48_000,
    ensures
        !v.stepped(rate).primed,
        v.stepped(rate).queue.len() == 0,
        v.stepped(rate).started() == v.stepped(rate),
{
}

/// Nothing leaves a queue that has room, and from a full one exactly the
/// oldest samples do.
pub proof fn only_the_oldest_samples_leave(queue: Seq<u32>, max: int)
    requires
        max >= 0,
    ensures
        queue.len() <= max ==> newest(queue, max) == queue,
        queue.len() > max ==> newest(queue, max) == queue.subrange(
            queue.len() - max,
            queue.len() as int,
        ),
        MAX_BUFFER_SAMPLES * 2 == SOURCE_RATE,
{
    if queue.len() > max {
        assert(newest(queue, max) =~= queue.subrange(queue.len() - max, queue.len() as int));
    }
}

} // verus!
