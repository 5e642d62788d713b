//! Synthetic test-tone source for sync measurements.
//!
//! A short 1 kHz burst once per second in the canonical stream. Recording the
//! outputs of two devices and comparing the burst positions over time reveals
//! the residual drift between them.
use crate::ring::CHANNELS;
use vstd::prelude::*;

verus! {

/// Canonical rate of the generated stream.
pub const TONE_RATE: u32 = 48000;

/// Frames per generated chunk (10 ms at 48 kHz).
pub const CHUNK_FRAMES: usize = 480;

/// Playing time of a chunk in nanoseconds.
pub const CHUNK_NANOS: u64 = 10_000_000;

/// Burst length in frames (10 ms).
pub const BURST_FRAMES: u64 = 480;

/// Burst repetition period in frames (1 s).
pub const PERIOD_FRAMES: u64 = 48000;

/// Linear fade-in/out length inside the burst (1 ms), avoids hard clicks
/// that could stress tweeters while staying sharply localizable in time.
pub const FADE_FRAMES: u64 = 48;

/// What the generator plays at a frame.
#[derive(Debug, Clone, Copy, PartialEq, Eq, Structural)]
pub enum TonePoint {
    /// Between two bursts.
    Silence,
    /// Frame `position` of a burst, whose envelope there is
    /// `envelope / FADE_FRAMES`.
    Burst { position: u64, envelope: u64 },
}

/// Envelope of a burst in `FADE_FRAMES`-ths: up to the nearer end of the
/// burst, full in between.
pub open spec fn envelope_at(position: int) -> int {
    if position < FADE_FRAMES {
        position
    } else if BURST_FRAMES - position < FADE_FRAMES {
        BURST_FRAMES - position
    } else {
        FADE_FRAMES as int
    }
}

pub open spec fn tone_point_at(frame: int) -> TonePoint {
    let position = frame % (PERIOD_FRAMES as int);
    if position >= BURST_FRAMES {
        TonePoint::Silence
    } else {
        TonePoint::Burst { position: position as u64, envelope: envelope_at(position) as u64 }
    }
}

/// The point of the click pattern at `frame`.
pub fn tone_point(frame: u64) -> (point: TonePoint)
    ensures
        point == tone_point_at(frame as int),
{
    let position: u64 = frame % PERIOD_FRAMES;
    if position >= BURST_FRAMES {
        return TonePoint::Silence;
    }
    let envelope: u64 = if position < FADE_FRAMES {
        position
    } else if position >= BURST_FRAMES - FADE_FRAMES {
        BURST_FRAMES - position
    } else {
        FADE_FRAMES
    };
    TonePoint::Burst { position, envelope }
}

/// The click pattern repeats every period: a frame plays what its position in
/// the period plays.
pub proof fn law_tone_is_periodic(frame: nat)
    ensures
        tone_point_at(frame + PERIOD_FRAMES) == tone_point_at(frame as int),
        tone_point_at(frame as int) == tone_point_at((frame % (PERIOD_FRAMES as nat)) as int),
{
}

/// It is silent outside the bursts, and inside a burst the envelope never
/// exceeds full scale and starts and ends next to zero.
pub proof fn law_burst_is_bounded(frame: nat)
    ensures
        tone_point_at(frame as int) is Silence <==> frame % (PERIOD_FRAMES as nat) >= BURST_FRAMES,
        tone_point_at(frame as int) matches TonePoint::Burst { position, envelope } ==> {
            &&& position == frame % (PERIOD_FRAMES as nat)
            &&& envelope <= FADE_FRAMES
            &&& envelope == 0 <==> position == 0
            &&& position == BURST_FRAMES - 1 ==> envelope == 1
        },
{
}

/// Between neighbouring frames of a burst the envelope moves by one step at
/// most.
pub proof fn law_envelope_is_smooth(position: int)
    requires
        0 <= position < BURST_FRAMES - 1,
    ensures
        -1 <= envelope_at(position + 1) - envelope_at(position) <= 1,
{
}

/// The click pattern of `count` frames from `frame` on.
pub open spec fn tone_points(frame: int, count: nat) -> Seq<TonePoint> {
    Seq::new(count, |i: int| tone_point_at(frame + i))
}

/// Chunks that follow each other play the pattern without a gap.
pub proof fn law_chunks_are_gapless(frame: int, first: nat, second: nat)
    ensures
        tone_points(frame, first) + tone_points(frame + first, second) == tone_points(
            frame,
            first + second,
        ),
{
    assert(tone_points(frame, first) + tone_points(frame + first, second) =~= tone_points(
        frame,
        first + second,
    ));
}

/// A mono sequence as stereo frames: every sample on both sides.
pub open spec fn both_sides(mono: Seq<u32>) -> Seq<u32> {
    Seq::new(CHANNELS as nat * mono.len(), |i: int| mono[i / (CHANNELS as int)])
}

/// Duplicates each sample into a stereo frame.
pub fn to_stereo(mono: &[u32]) -> (out: Vec<u32>)
    ensures
        out@ == both_sides(mono@),
{
    let mut out: Vec<u32> = Vec::new();
    let mut i: usize = 0;
    while i < mono.len()
        invariant
            i <= mono@.len(),
            out@ == both_sides(mono@.take(i as int)),
        decreases mono@.len() - i,
    {
        out.push(mono[i]);
        out.push(mono[i]);
        i += 1;
        assert(out@ =~= both_sides(mono@.take(i as int)));
    }
    assert(mono@.take(i as int) =~= mono@);
    out
}

/// Paces the generator by the wall clock (in nanoseconds).
#[derive(Debug, Clone, Copy, PartialEq, Eq, Structural)]
pub struct TonePacer {
    pub next_deadline: u64,
    pub total_frames: u64,
}

impl TonePacer {
    /// The pacer after a chunk that was written at `now`.
    pub open spec fn after_chunk(self, now: u64) -> Self {
        TonePacer {
            next_deadline: if self.next_deadline + CHUNK_NANOS > now {
                (self.next_deadline + CHUNK_NANOS) as u64
            } else {
                now
            },
            total_frames: (self.total_frames + CHUNK_FRAMES) as u64,
        }
    }

    /// How long to sleep then.
    pub open spec fn sleep_after_chunk(self, now: u64) -> int {
        self.after_chunk(now).next_deadline - now
    }

    /// A generator that starts now, at frame 0.
    pub fn new(now: u64) -> (pacer: Self)
        ensures
            pacer == (TonePacer { next_deadline: now, total_frames: 0 }),
    {
        Self { next_deadline: now, total_frames: 0 }
    }

    /// The click pattern of the next chunk.
    pub fn chunk_points(&self) -> (points: Vec<TonePoint>)
        requires
            self.total_frames + CHUNK_FRAMES <= u64::MAX,
        ensures
            points@ == tone_points(self.total_frames as int, CHUNK_FRAMES as nat),
            points@.len() == CHUNK_FRAMES,
            forall|i: int|
                0 <= i < CHUNK_FRAMES ==> #[trigger] points@[i] == tone_point_at(
                    self.total_frames + i,
                ),
    {
        let mut points: Vec<TonePoint> = Vec::new();
        let mut i: usize = 0;
        while i < CHUNK_FRAMES
            invariant
                i <= CHUNK_FRAMES,
                self.total_frames + CHUNK_FRAMES <= u64::MAX,
                points@ == tone_points(self.total_frames as int, i as nat),
            decreases CHUNK_FRAMES - i,
        {
            points.push(tone_point(self.total_frames + i as u64));
            i += 1;
            assert(points@ =~= tone_points(self.total_frames as int, i as nat));
        }
        points
    }

    /// Called after a chunk was written: advances by one chunk and returns how
    /// long to sleep. A generator that fell behind (e.g. after a scheduler
    /// stall) does not sleep and resynchronizes.
    pub fn chunk_done(&mut self, now: u64) -> (sleep: u64)
        requires
            old(self).next_deadline + CHUNK_NANOS <= u64::MAX,
            old(self).total_frames + CHUNK_FRAMES <= u64::MAX,
        ensures
            *final(self) == old(self).after_chunk(now),
            sleep == old(self).sleep_after_chunk(now),
            final(self).total_frames == old(self).total_frames + CHUNK_FRAMES,
            old(self).next_deadline + CHUNK_NANOS > now ==> {
                &&& final(self).next_deadline == old(self).next_deadline + CHUNK_NANOS
                &&& sleep == final(self).next_deadline - now
            },
            old(self).next_deadline + CHUNK_NANOS <= now ==> {
                &&& final(self).next_deadline == now
                &&& sleep == 0
            },
    {
        self.total_frames = self.total_frames + CHUNK_FRAMES as u64;
        let deadline: u64 = self.next_deadline + CHUNK_NANOS;
        if deadline > now {
            self.next_deadline = deadline;
            deadline - now
        } else {
            self.next_deadline = now;
            0
        }
    }
}

/// A frame is silent exactly if it is 10 ms or more into its second, wherever
/// in the stream that second is; else it plays the frame of the burst that it
/// is into its second.
pub proof fn law_burst_opens_every_second(second: nat, position: nat)
    requires
        position < TONE_RATE,
    ensures
        100 * position >= TONE_RATE ==> tone_point_at((second * TONE_RATE + position) as int)
            == TonePoint::Silence,
        100 * position < TONE_RATE ==> (tone_point_at(
            (second * TONE_RATE + position) as int,
        ) matches TonePoint::Burst { position: p, envelope } && p == position),
{
    assert((second * TONE_RATE + position) % (PERIOD_FRAMES as int) == position) by {
        vstd::arithmetic::div_mod::lemma_fundamental_div_mod_converse(
            (second * TONE_RATE + position) as int,
            PERIOD_FRAMES as int,
            second as int,
            position as int,
        );
    }
}

/// The envelope of a burst is symmetric, grows by one step per frame while it
/// fades in, and is full between the fades.
pub proof fn law_envelope_fades_in_and_out(position: int)
    requires
        0 <= position < BURST_FRAMES,
    ensures
        envelope_at(0) == 0,
        position > 0 ==> envelope_at(position) == envelope_at(BURST_FRAMES - position),
        position < FADE_FRAMES ==> envelope_at(position + 1) == envelope_at(position) + 1,
        FADE_FRAMES <= position <= BURST_FRAMES - FADE_FRAMES ==> envelope_at(position)
            == FADE_FRAMES,
{
}

/// A burst plays its envelope.
pub proof fn law_burst_plays_its_envelope(frame: nat)
    ensures
        tone_point_at(frame as int) matches TonePoint::Burst { position, envelope } ==> position
            < BURST_FRAMES && envelope == envelope_at(position as int),
{
}

/// Every entry of a chunk is the point of its own frame of the stream.
pub proof fn law_chunk_plays_its_frames(frame: int, count: nat, i: int)
    requires
        0 <= i < count,
    ensures
        tone_points(frame, count).len() == count,
        tone_points(frame, count)[i] == tone_point_at(frame + i),
{
}

/// A chunk plays the same as the chunk one period later, and wherever a period
/// starts, the chunk is the whole burst.
pub proof fn law_every_period_plays_the_burst(frame: nat, period: nat, count: nat, i: int)
    requires
        0 <= i < BURST_FRAMES,
    ensures
        tone_points((frame + PERIOD_FRAMES) as int, count) == tone_points(frame as int, count),
        tone_points((period * PERIOD_FRAMES) as int, BURST_FRAMES as nat).len() == BURST_FRAMES,
        tone_points((period * PERIOD_FRAMES) as int, BURST_FRAMES as nat)[i] == (TonePoint::Burst {
            position: i as u64,
            envelope: envelope_at(i) as u64,
        }),
{
    assert forall|k: int| 0 <= k < count implies tone_points(
        (frame + PERIOD_FRAMES) as int,
        count,
    )[k] == tone_points(frame as int, count)[k] by {
        law_tone_is_periodic((frame + k) as nat);
    }
    assert(tone_points((frame + PERIOD_FRAMES) as int, count) =~= tone_points(frame as int, count));
    law_burst_opens_every_second(period, i as nat);
    law_burst_plays_its_envelope((period * PERIOD_FRAMES + i) as nat);
}

/// The period is a second, a burst and a chunk are 10 ms of it, a fade is 1 ms,
/// and a chunk is paced by as many nanoseconds as it plays.
pub proof fn law_tone_dimensions()
    ensures
        PERIOD_FRAMES == TONE_RATE == 48000,
        100 * BURST_FRAMES == TONE_RATE,
        1000 * FADE_FRAMES == TONE_RATE,
        100 * CHUNK_FRAMES == TONE_RATE,
        CHUNK_NANOS * TONE_RATE == CHUNK_FRAMES * 1_000_000_000,
{
}

/// Each sample is heard on both sides, in order, and nothing else is.
pub proof fn law_samples_go_to_both_sides(mono: Seq<u32>, i: int)
    requires
        0 <= i < mono.len(),
    ensures
        both_sides(mono).len() == 2 * mono.len(),
        both_sides(mono)[2 * i] == mono[i],
        both_sides(mono)[2 * i + 1] == mono[i],
{
}

/// The generator keeps the wall clock: it wakes up at the next deadline, which
/// is a chunk's playing time after the last one, so a generator that is never
/// late plays a second of frames per second. One that is late does not sleep
/// and goes on from now; it never sleeps into the past or past the deadline.
pub proof fn law_pacing_keeps_the_wall_clock(pacer: TonePacer, now: u64)
    requires
        pacer.next_deadline + CHUNK_NANOS <= u64::MAX,
        pacer.total_frames + CHUNK_FRAMES <= u64::MAX,
    ensures
        ({
            let after = pacer.after_chunk(now);
            let sleep = pacer.sleep_after_chunk(now);
            let late = now >= pacer.next_deadline + 10_000_000;
            &&& after.total_frames - pacer.total_frames == 480
            &&& sleep >= 0
            &&& now + sleep == after.next_deadline
            &&& late ==> sleep == 0
            &&& !late ==> (after.next_deadline - pacer.next_deadline) * TONE_RATE == (
            after.total_frames - pacer.total_frames) * 1_000_000_000
        }),
{
}

} // verus!
