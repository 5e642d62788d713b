//! Render side of a device: when a pass over the device buffer plays, waits or
//! stays silent, and how canonical stereo frames are laid out for the device.
//!
//! Each render thread pulls the canonical stream from its ring buffer reader,
//! resamples it to the device mix rate, converts sample type and channel
//! count, and writes into the device's shared-mode buffer. After the start and
//! after an underrun it plays silence until the source has produced a full
//! target fill, and then latches onto the stream exactly that far behind the
//! writer.
use crate::engine::{DeviceStats, EngineState};
use crate::ring::{ReadError, Reader, MAX_WRITE_FRAMES};
use vstd::prelude::*;

verus! {

/// How often the drift controller updates the resampling ratio (100 ms).
pub const CONTROL_INTERVAL_NANOS: u64 = 100_000_000;

/// Longest wait for a render event in milliseconds.
pub const WAIT_TIMEOUT_MS: u32 = 2000;

/// Result of a wait: the event was signaled.
pub const WAIT_OBJECT_0: u32 = 0;

/// Result of a wait: the wait itself failed.
pub const WAIT_FAILED: u32 = 0xFFFF_FFFF;

/// What a render thread runs with.
#[derive(Debug)]
pub struct RenderParams {
    pub device_id: String,
    pub source_rate: u32,
    pub target_fill_frames: u64,
}

/// What follows a wait for the render event.
#[derive(Debug, Clone, Copy, PartialEq, Eq, Structural)]
pub enum Wake {
    /// The engine stops; leave the loop.
    Stop,
    /// Waiting failed; the device fails.
    Fail,
    /// Nothing to render yet; wait again.
    Wait,
    /// The device asks for frames.
    Render,
}

/// Decides what follows a wait; a stop request comes first.
pub fn on_wake(stop: bool, wait: u32) -> (wake: Wake)
    ensures
        wake == if stop {
            Wake::Stop
        } else if wait == WAIT_FAILED {
            Wake::Fail
        } else if wait == WAIT_OBJECT_0 {
            Wake::Render
        } else {
            Wake::Wait
        },
        wake == wake_for(stop, wait),
{
    if stop {
        return Wake::Stop;
    }
    if wait == WAIT_FAILED {
        return Wake::Fail;
    }
    if wait != WAIT_OBJECT_0 {
        return Wake::Wait;
    }
    Wake::Render
}

/// What a pass over the device buffer does.
#[derive(Debug, Clone, Copy, PartialEq, Eq, Structural)]
pub enum Pass {
    /// The device buffer is full.
    Idle,
    /// Still rebuffering: play this much silence.
    Silence { frames: u32 },
    /// Produce this many frames from the stream. `latched` says that the
    /// reader was just positioned, so the drift controller starts over.
    Read { frames: u32, latched: bool },
}

/// What follows an attempt to read the stream.
#[derive(Debug, Clone, Copy, PartialEq, Eq, Structural)]
pub enum Playback {
    /// Resample and play what was read.
    Play,
    /// Play this much silence; `reset` says that the reader was just
    /// positioned, so the drift controller starts over.
    Silence { frames: u32, reset: bool },
}

/// State of a render thread between two passes.
#[derive(Debug, Clone, Copy, PartialEq, Eq, Structural)]
pub struct RenderSession {
    pub buffer_frames: u32,
    pub source_rate: u32,
    pub target_fill_frames: u64,
    pub rebuffering: bool,
}

impl RenderSession {
    /// The pass with `padding` frames still queued in the device buffer and
    /// `available` frames buffered in the ring.
    pub open spec fn pass(self, padding: u32, available: int) -> Pass {
        let frames = (self.buffer_frames - padding) as u32;
        if frames == 0 {
            Pass::Idle
        } else if self.rebuffering && available < self.target_fill_frames {
            Pass::Silence { frames }
        } else {
            Pass::Read { frames, latched: self.rebuffering }
        }
    }

    /// The state once a pass was decided: reading ends a rebuffering.
    pub open spec fn after_pass(self, pass: Pass) -> Self {
        RenderSession { rebuffering: self.rebuffering && !(pass is Read), ..self }
    }

    /// The state after an attempt to read: an underrun starts a rebuffering.
    pub open spec fn after_read(self, result: Result<(), ReadError>) -> Self {
        RenderSession {
            rebuffering: self.rebuffering || result == Err::<(), ReadError>(ReadError::NotEnough),
            ..self
        }
    }

    /// A render thread that has filled its device buffer with silence.
    pub fn start(params: &RenderParams, buffer_frames: u32, stats: &mut DeviceStats) -> (session:
        Self)
        ensures
            session == (RenderSession {
                buffer_frames,
                source_rate: params.source_rate,
                target_fill_frames: params.target_fill_frames,
                rebuffering: true,
            }),
            final(stats)@ == (crate::engine::StatsView {
                state: EngineState::Rebuffering,
                ..old(stats)@
            }),
    {
        stats.set_state(EngineState::Rebuffering);
        RenderSession {
            buffer_frames,
            source_rate: params.source_rate,
            target_fill_frames: params.target_fill_frames,
            rebuffering: true,
        }
    }

    /// Decides a pass. After the start or an underrun it waits until the
    /// source has produced a full target fill, then latches onto the stream
    /// exactly target frames behind the writer.
    pub fn begin_pass(
        &mut self,
        padding: u32,
        reader: &mut Reader,
        write: u64,
        stats: &mut DeviceStats,
    ) -> (pass: Pass)
        requires
            padding <= old(self).buffer_frames,
        ensures
            pass == old(self).pass(
                padding,
                crate::ring::lag(write as int, old(reader).position() as int),
            ),
            *final(self) == old(self).after_pass(pass),
            match pass {
                Pass::Idle => padding == old(self).buffer_frames,
                Pass::Silence { frames } => frames + padding == old(self).buffer_frames,
                Pass::Read { frames, latched } => frames + padding == old(self).buffer_frames,
            },
            pass matches Pass::Read { frames, latched } && latched ==> {
                &&& final(reader).position() == crate::ring::lag(
                    write as int,
                    old(self).target_fill_frames as int,
                )
                &&& final(stats)@ == (crate::engine::StatsView {
                    state: EngineState::Running,
                    ..old(stats)@
                })
            },
            !(pass matches Pass::Read { frames, latched } && latched) ==> {
                &&& final(reader).position() == old(reader).position()
                &&& final(stats)@ == old(stats)@
            },
    {
        let frames: u32 = self.buffer_frames - padding;
        if frames == 0 {
            return Pass::Idle;
        }
        let latched = self.rebuffering;
        if latched {
            if reader.available_at(write) >= self.target_fill_frames {
                reader.seek_behind(write, self.target_fill_frames);
                self.rebuffering = false;
                stats.set_state(EngineState::Running);
            } else {
                return Pass::Silence { frames };
            }
        }
        Pass::Read { frames, latched }
    }

    /// Decides what follows the read of a pass over `frames` device frames.
    /// An underrun is counted and starts a rebuffering; an overrun is counted
    /// and repositions the reader.
    pub fn finish_read(
        &mut self,
        result: Result<(), ReadError>,
        frames: u32,
        reader: &mut Reader,
        write: u64,
        stats: &mut DeviceStats,
    ) -> (playback: Playback)
        ensures
            *final(self) == old(self).after_read(result),
            playback == playback_after(result, frames),
            final(reader).position() == position_after(
                result,
                old(reader).position(),
                write as nat,
                old(self).target_fill_frames as nat,
            ),
            final(stats)@ == stats_after(result, old(stats)@),
            match result {
                Ok(_) => {
                    &&& playback == Playback::Play
                    &&& final(reader).position() == old(reader).position()
                    &&& final(stats)@ == old(stats)@
                },
                Err(ReadError::NotEnough) => {
                    &&& playback == (Playback::Silence { frames, reset: false })
                    &&& final(reader).position() == old(reader).position()
                    &&& final(stats)@ == (crate::engine::StatsView {
                        state: EngineState::Rebuffering,
                        underruns: crate::engine::counted(old(stats)@.underruns),
                        ..old(stats)@
                    })
                },
                Err(ReadError::Overwritten) => {
                    &&& playback == (Playback::Silence { frames, reset: true })
                    &&& final(reader).position() == crate::ring::lag(
                        write as int,
                        old(self).target_fill_frames as int,
                    )
                    &&& final(stats)@ == (crate::engine::StatsView {
                        overruns: crate::engine::counted(old(stats)@.overruns),
                        ..old(stats)@
                    })
                },
            },
    {
        match result {
            Ok(_) => Playback::Play,
            Err(ReadError::NotEnough) => {
                stats.add_underrun();
                stats.set_state(EngineState::Rebuffering);
                self.rebuffering = true;
                Playback::Silence { frames, reset: false }
            },
            Err(ReadError::Overwritten) => {
                stats.add_overrun();
                reader.seek_behind(write, self.target_fill_frames);
                Playback::Silence { frames, reset: true }
            },
        }
    }

    /// Ends a pass that played: notes the fill level in milliseconds and
    /// returns it in frames for the drift controller.
    pub fn end_pass(&self, reader: &Reader, write: u64, stats: &mut DeviceStats) -> (fill: u64)
        requires
            self.source_rate > 0,
            1000 * crate::ring::lag(write as int, reader.position() as int) <= u64::MAX,
        ensures
            fill == crate::ring::lag(write as int, reader.position() as int),
            final(stats)@.fill_ms == fill_in_ms(fill as nat, self.source_rate as nat),
            final(stats)@ == (crate::engine::StatsView {
                fill_ms: (1000 * fill / self.source_rate as int) as u64,
                ..old(stats)@
            }),
    {
        let fill: u64 = reader.available_at(write);
        stats.set_fill_ms(fill * 1000 / self.source_rate as u64);
        fill
    }
}

/// While it rebuffers, a render thread plays nothing but silence until a full
/// target fill is buffered.
pub proof fn law_rebuffering_waits_for_fill(session: RenderSession, padding: u32, available: int)
    requires
        padding <= session.buffer_frames,
        session.rebuffering,
        available < session.target_fill_frames,
    ensures
        !(session.pass(padding, available) is Read),
        session.after_pass(session.pass(padding, available)) == session,
{
}

/// Once the fill is there, the next pass with room in the device buffer
/// latches, and exactly the target fill is buffered then.
pub proof fn law_rebuffering_latches_at_target(
    session: RenderSession,
    padding: u32,
    write: nat,
    pos: nat,
)
    requires
        padding < session.buffer_frames,
        session.rebuffering,
        crate::ring::lag(write as int, pos as int) >= session.target_fill_frames,
    ensures
        ({
            let available = crate::ring::lag(write as int, pos as int);
            let target = session.target_fill_frames as int;
            &&& session.pass(padding, available) == (Pass::Read {
                frames: (session.buffer_frames - padding) as u32,
                latched: true,
            })
            &&& !session.after_pass(session.pass(padding, available)).rebuffering
            &&& crate::ring::lag(write as int, crate::ring::lag(write as int, target)) == target
        }),
{
}

/// A session starts in rebuffering and gets back there by an underrun and by
/// nothing else; an overrun does not stop the stream.
pub proof fn law_only_underruns_rebuffer(session: RenderSession, result: Result<(), ReadError>)
    requires
        !session.rebuffering,
    ensures
        session.after_read(result).rebuffering <==> result == Err::<(), ReadError>(
            ReadError::NotEnough,
        ),
        forall|padding: u32, available: int|
            padding < session.buffer_frames ==> (#[trigger] session.pass(padding, available)) is Read,
{
}

/// One step of a gain ramp: the gain stays where it is once it is `same` as the
/// target, else it takes a step towards it (`approach`).
pub open spec fn is_gain_step<S, E: Fn(S, S) -> bool, R: Fn(S, S) -> S>(
    same: E,
    approach: R,
    target: S,
    before: S,
    after: S,
) -> bool {
    ||| call_ensures(same, (before, target), true) && after == before
    ||| call_ensures(same, (before, target), false) && call_ensures(
        approach,
        (before, target),
        after,
    )
}

/// The gain before frame `k` of a ramp that starts at `start`.
pub open spec fn gain_before<S>(start: S, gains: Seq<S>, k: int) -> S {
    if k == 0 {
        start
    } else {
        gains[k - 1]
    }
}

/// `gains` are the gains of successive frames of a ramp that starts at
/// `start`.
pub open spec fn is_gain_ramp<S, E: Fn(S, S) -> bool, R: Fn(S, S) -> S>(
    same: E,
    approach: R,
    target: S,
    start: S,
    gains: Seq<S>,
) -> bool {
    forall|k: int|
        0 <= k < gains.len() ==> #[trigger] is_gain_step(
            same,
            approach,
            target,
            gain_before(start, gains, k),
            gains[k],
        )
}

/// A ramp neither turns back nor overshoots, provided that its single steps do
/// not: in an order `le` in which every step from a gain up to the target stays
/// between the two, the gains of a ramp that starts up to the target go from
/// frame to frame towards it and never past it.
pub proof fn law_ramp_does_not_overshoot<S, E: Fn(S, S) -> bool, R: Fn(S, S) -> S>(
    same: E,
    approach: R,
    le: spec_fn(S, S) -> bool,
    target: S,
    start: S,
    gains: Seq<S>,
    k: int,
)
    requires
        forall|a: S| #[trigger] le(a, a),
        forall|a: S, b: S|
            le(a, target) && #[trigger] call_ensures(approach, (a, target), b) ==> le(a, b) && le(
                b,
                target,
            ),
        le(start, target),
        is_gain_ramp(same, approach, target, start, gains),
        0 <= k < gains.len(),
    ensures
        le(gain_before(start, gains, k), gains[k]),
        le(gains[k], target),
    decreases k,
{
    if k > 0 {
        law_ramp_does_not_overshoot(same, approach, le, target, start, gains, k - 1);
    }
    let before = gain_before(start, gains, k);
    assert(is_gain_step(same, approach, target, before, gains[k]));
    assert(le(before, before));
}

/// Every sample of `after` is the sample of `before` scaled by the gain of its
/// frame; samples that do not make up a frame are left alone.
pub open spec fn is_scaled<S, M: Fn(S, S) -> S>(
    scale: M,
    gains: Seq<S>,
    before: Seq<S>,
    after: Seq<S>,
) -> bool {
    &&& after.len() == before.len()
    &&& gains.len() == before.len() / 2
    &&& forall|i: int|
        0 <= i < 2 * gains.len() ==> call_ensures(
            scale,
            (before[i], gains[i / 2]),
            #[trigger] after[i],
        )
    &&& forall|i: int| 2 * gains.len() <= i < after.len() ==> #[trigger] after[i] == before[i]
}

/// The volume gain was applied to `before`: a gain `start` that stands at the
/// target and at `unity` leaves the samples untouched; else the samples are
/// scaled by a ramp, and `end` is the gain that it ends with.
pub open spec fn is_gain_applied<
    S,
    E: Fn(S, S) -> bool,
    R: Fn(S, S) -> S,
    M: Fn(S, S) -> S,
>(
    same: E,
    approach: R,
    scale: M,
    target: S,
    unity: S,
    start: S,
    before: Seq<S>,
    after: Seq<S>,
    end: S,
) -> bool {
    ||| {
        &&& call_ensures(same, (start, target), true)
        &&& call_ensures(same, (target, unity), true)
        &&& after == before
        &&& end == start
    }
    ||| {
        &&& call_ensures(same, (start, target), false) || call_ensures(
            same,
            (target, unity),
            false,
        )
        &&& exists|gains: Seq<S>|
            {
                &&& is_gain_ramp(same, approach, target, start, gains)
                &&& #[trigger] is_scaled(scale, gains, before, after)
                &&& end == last_gain(start, gains)
            }
    }
}

/// The gain that a ramp which starts at `start` ends with.
pub open spec fn last_gain<S>(start: S, gains: Seq<S>) -> S {
    if gains.len() == 0 {
        start
    } else {
        gains.last()
    }
}

/// Two ramps in a row, the second from where the first one ended, are one ramp
/// over the joined samples.
pub proof fn law_ramps_join<S, E: Fn(S, S) -> bool, R: Fn(S, S) -> S, M: Fn(S, S) -> S>(
    same: E,
    approach: R,
    scale: M,
    target: S,
    start: S,
    a: Seq<S>,
    b: Seq<S>,
    scaled_a: Seq<S>,
    scaled_b: Seq<S>,
    first: Seq<S>,
    second: Seq<S>,
)
    requires
        a.len() % 2 == 0,
        b.len() % 2 == 0,
        is_gain_ramp(same, approach, target, start, first),
        is_scaled(scale, first, a, scaled_a),
        is_gain_ramp(same, approach, target, last_gain(start, first), second),
        is_scaled(scale, second, b, scaled_b),
    ensures
        is_gain_ramp(same, approach, target, start, first + second),
        is_scaled(scale, first + second, a + b, scaled_a + scaled_b),
        last_gain(last_gain(start, first), second) == last_gain(start, first + second),
{
    let gains = first + second;
    assert forall|k: int| 0 <= k < gains.len() implies #[trigger] is_gain_step(
        same,
        approach,
        target,
        gain_before(start, gains, k),
        gains[k],
    ) by {
        if k < first.len() {
            assert(is_gain_step(
                same,
                approach,
                target,
                gain_before(start, first, k),
                first[k],
            ));
        } else {
            let j = k - first.len();
            assert(is_gain_step(
                same,
                approach,
                target,
                gain_before(last_gain(start, first), second, j),
                second[j],
            ));
        }
    }
    let before = a + b;
    let after = scaled_a + scaled_b;
    assert forall|i: int| 0 <= i < 2 * gains.len() implies call_ensures(
        scale,
        (before[i], gains[i / 2]),
        #[trigger] after[i],
    ) by {
        if i < a.len() {
            assert(after[i] == scaled_a[i]);
            assert(gains[i / 2] == first[i / 2]);
        } else {
            let j = i - a.len();
            assert(after[i] == scaled_b[j]);
            assert(gains[i / 2] == second[j / 2]);
        }
    }
}

/// The gain after `frames` frames of a ramp whose arithmetic is given by
/// functions: `eq` compares, `step` moves a gain towards the target.
pub open spec fn gain_after<S>(
    eq: spec_fn(S, S) -> bool,
    step: spec_fn(S, S) -> S,
    target: S,
    start: S,
    frames: nat,
) -> S
    decreases frames,
{
    if frames == 0 {
        start
    } else {
        let gain = gain_after(eq, step, target, start, (frames - 1) as nat);
        if eq(gain, target) {
            gain
        } else {
            step(gain, target)
        }
    }
}

/// The samples that such a ramp makes of `samples`; `product` applies a gain to a
/// sample.
pub open spec fn gained<S>(
    eq: spec_fn(S, S) -> bool,
    step: spec_fn(S, S) -> S,
    product: spec_fn(S, S) -> S,
    target: S,
    unity: S,
    start: S,
    samples: Seq<S>,
) -> Seq<S> {
    if eq(start, target) && eq(target, unity) {
        samples
    } else {
        Seq::new(
            samples.len(),
            |i: int|
                if i < 2 * (samples.len() / 2) {
                    product(samples[i], gain_after(eq, step, target, start, (i / 2 + 1) as nat))
                } else {
                    samples[i]
                },
        )
    }
}

/// Where comparing, stepping and scaling are functions of their arguments,
/// applying the gain is one too: [`gained`] and [`gain_after`] say what comes
/// out.
pub proof fn law_gain_is_determined<
    S,
    E: Fn(S, S) -> bool,
    R: Fn(S, S) -> S,
    M: Fn(S, S) -> S,
>(
    same: E,
    approach: R,
    scale: M,
    eq: spec_fn(S, S) -> bool,
    step: spec_fn(S, S) -> S,
    product: spec_fn(S, S) -> S,
    target: S,
    unity: S,
    start: S,
    before: Seq<S>,
    after: Seq<S>,
    end: S,
)
    requires
        forall|a: S, b: S, r: bool| #[trigger] call_ensures(same, (a, b), r) ==> r == eq(a, b),
        forall|a: S, b: S, r: S| #[trigger] call_ensures(approach, (a, b), r) ==> r == step(a, b),
        forall|a: S, b: S, r: S| #[trigger] call_ensures(scale, (a, b), r) ==> r == product(a, b),
        is_gain_applied(same, approach, scale, target, unity, start, before, after, end),
    ensures
        after == gained(eq, step, product, target, unity, start, before),
        end == gain_after(eq, step, target, start, before.len() / 2),
{
    if eq(start, target) && eq(target, unity) {
        lemma_gain_stays(eq, step, target, start, before.len() / 2);
    } else {
        let gains = choose|gains: Seq<S>|
            {
                &&& is_gain_ramp(same, approach, target, start, gains)
                &&& #[trigger] is_scaled(scale, gains, before, after)
                &&& end == last_gain(start, gains)
            };
        assert forall|k: int| 0 <= k < gains.len() implies #[trigger] gains[k] == gain_after(
            eq,
            step,
            target,
            start,
            (k + 1) as nat,
        ) by {
            lemma_ramp_is_determined(same, approach, eq, step, target, start, gains, k);
        }
        assert(after =~= gained(eq, step, product, target, unity, start, before));
    }
}

proof fn lemma_ramp_is_determined<S, E: Fn(S, S) -> bool, R: Fn(S, S) -> S>(
    same: E,
    approach: R,
    eq: spec_fn(S, S) -> bool,
    step: spec_fn(S, S) -> S,
    target: S,
    start: S,
    gains: Seq<S>,
    k: int,
)
    requires
        forall|a: S, b: S, r: bool| #[trigger] call_ensures(same, (a, b), r) ==> r == eq(a, b),
        forall|a: S, b: S, r: S| #[trigger] call_ensures(approach, (a, b), r) ==> r == step(a, b),
        is_gain_ramp(same, approach, target, start, gains),
        0 <= k < gains.len(),
    ensures
        gains[k] == gain_after(eq, step, target, start, (k + 1) as nat),
    decreases k,
{
    if k > 0 {
        lemma_ramp_is_determined(same, approach, eq, step, target, start, gains, k - 1);
    } else {
        assert(gain_after(eq, step, target, start, 0) == start);
    }
    assert(is_gain_step(
        same,
        approach,
        target,
        gain_before(start, gains, k),
        gains[k],
    ));
}

/// A gain that has reached the target stays.
proof fn lemma_gain_stays<S>(
    eq: spec_fn(S, S) -> bool,
    step: spec_fn(S, S) -> S,
    target: S,
    start: S,
    frames: nat,
)
    requires
        eq(start, target),
    ensures
        gain_after(eq, step, target, start, frames) == start,
    decreases frames,
{
    if frames > 0 {
        lemma_gain_stays(eq, step, target, start, (frames - 1) as nat);
    }
}

/// A ramp goes on where it was left.
proof fn lemma_gain_goes_on<S>(
    eq: spec_fn(S, S) -> bool,
    step: spec_fn(S, S) -> S,
    target: S,
    start: S,
    first: nat,
    second: nat,
)
    ensures
        gain_after(eq, step, target, gain_after(eq, step, target, start, first), second)
            == gain_after(eq, step, target, start, first + second),
    decreases second,
{
    if second > 0 {
        lemma_gain_goes_on(eq, step, target, start, first, (second - 1) as nat);
    }
}

/// The ramp does not depend on how the stream is cut into blocks: applying the
/// gain to `a`, and then to `b` with the gain that this left, gives the samples
/// and the final gain of applying it to both at once. Comparing, stepping and
/// scaling are functions of their arguments, and scaling by a gain that stands
/// at unity changes nothing.
pub proof fn law_gain_ignores_block_bounds<
    S,
    E: Fn(S, S) -> bool,
    R: Fn(S, S) -> S,
    M: Fn(S, S) -> S,
>(
    same: E,
    approach: R,
    scale: M,
    eq: spec_fn(S, S) -> bool,
    step: spec_fn(S, S) -> S,
    product: spec_fn(S, S) -> S,
    target: S,
    unity: S,
    start: S,
    a: Seq<S>,
    b: Seq<S>,
    after_a: Seq<S>,
    middle: S,
    after_b: Seq<S>,
    end: S,
    after_both: Seq<S>,
    end_both: S,
)
    requires
        forall|x: S, y: S, r: bool| #[trigger] call_ensures(same, (x, y), r) ==> r == eq(x, y),
        forall|x: S, y: S, r: S| #[trigger] call_ensures(approach, (x, y), r) ==> r == step(x, y),
        forall|x: S, y: S, r: S| #[trigger] call_ensures(scale, (x, y), r) ==> r == product(x, y),
        forall|x: S, gain: S|
            eq(gain, target) && eq(target, unity) ==> #[trigger] product(x, gain) == x,
        a.len() % 2 == 0,
        b.len() % 2 == 0,
        is_gain_applied(same, approach, scale, target, unity, start, a, after_a, middle),
        is_gain_applied(same, approach, scale, target, unity, middle, b, after_b, end),
        is_gain_applied(
            same,
            approach,
            scale,
            target,
            unity,
            start,
            a + b,
            after_both,
            end_both,
        ),
    ensures
        after_both == after_a + after_b,
        end_both == end,
{
    law_gain_is_determined(
        same,
        approach,
        scale,
        eq,
        step,
        product,
        target,
        unity,
        start,
        a,
        after_a,
        middle,
    );
    law_gain_is_determined(
        same,
        approach,
        scale,
        eq,
        step,
        product,
        target,
        unity,
        middle,
        b,
        after_b,
        end,
    );
    law_gain_is_determined(
        same,
        approach,
        scale,
        eq,
        step,
        product,
        target,
        unity,
        start,
        a + b,
        after_both,
        end_both,
    );
    let half = a.len() / 2;
    lemma_gain_goes_on(eq, step, target, start, half, b.len() / 2);
    assert((a + b).len() / 2 == half + b.len() / 2);
    if eq(start, target) && eq(target, unity) {
        lemma_gain_stays(eq, step, target, start, half);
    } else {
        assert forall|i: int| 0 <= i < (a + b).len() implies after_both[i] == (after_a
            + after_b)[i] by {
            if i >= a.len() {
                let j = i - a.len();
                let frames = (j / 2 + 1) as nat;
                assert(i / 2 + 1 == half + frames);
                lemma_gain_goes_on(eq, step, target, start, half, frames);
                if eq(middle, target) && eq(target, unity) {
                    lemma_gain_stays(eq, step, target, middle, frames);
                    assert(product(b[j], middle) == b[j]);
                }
            }
        }
    }
    assert(after_both =~= after_a + after_b);
}

/// Applies the volume gain to interleaved canonical frames, ramping the
/// applied gain toward `target` frame by frame to avoid zipper noise on volume
/// changes. Both channels of a frame get the same gain. A gain that stands at
/// `unity` leaves the samples untouched.
///
/// The arithmetic of the sample type is the caller's: `same` compares two
/// gains, `approach` moves a gain towards the target, `scale` applies a gain
/// to a sample.
pub fn apply_gain<S: Copy, E: Fn(S, S) -> bool, R: Fn(S, S) -> S, M: Fn(S, S) -> S>(
    samples: &mut [S],
    current: &mut S,
    target: S,
    unity: S,
    same: E,
    approach: R,
    scale: M,
)
    requires
        forall|a: S, b: S| call_requires(same, (a, b)),
        forall|a: S, b: S| call_requires(approach, (a, b)),
        forall|a: S, b: S| call_requires(scale, (a, b)),
    ensures
        is_gain_applied(
            same,
            approach,
            scale,
            target,
            unity,
            *old(current),
            old(samples)@,
            final(samples)@,
            *final(current),
        ),
{
    if same(*current, target) && same(target, unity) {
        return;
    }
    let len: usize = samples.len();
    let frames: usize = len / 2;
    let ghost before = samples@;
    let ghost mut gains: Seq<S> = Seq::empty();
    let mut frame: usize = 0;
    while frame < frames
        invariant
            frame <= frames,
            frames == len / 2,
            before.len() == len,
            samples@.len() == len,
            before == old(samples)@,
            forall|a: S, b: S| call_requires(same, (a, b)),
            forall|a: S, b: S| call_requires(approach, (a, b)),
            forall|a: S, b: S| call_requires(scale, (a, b)),
            gains.len() == frame,
            is_gain_ramp(same, approach, target, *old(current), gains),
            *current == last_gain(*old(current), gains),
            forall|i: int|
                0 <= i < 2 * frame ==> call_ensures(
                    scale,
                    (before[i], gains[i / 2]),
                    #[trigger] samples@[i],
                ),
            forall|i: int| 2 * frame <= i < len ==> #[trigger] samples@[i] == before[i],
        decreases frames - frame,
    {
        let ghost start = *current;
        if !same(*current, target) {
            *current = approach(*current, target);
        }
        let gain: S = *current;
        let ghost ramp = gains.push(gain);
        proof {
            assert(is_gain_step(same, approach, target, start, gain));
            assert forall|k: int| 0 <= k < ramp.len() implies #[trigger] is_gain_step(
                same,
                approach,
                target,
                gain_before(*old(current), ramp, k),
                ramp[k],
            ) by {
                if k < gains.len() {
                    assert(is_gain_step(
                        same,
                        approach,
                        target,
                        gain_before(*old(current), gains, k),
                        gains[k],
                    ));
                }
            }
            gains = ramp;
        }
        let left: usize = 2 * frame;
        let right: usize = 2 * frame + 1;
        samples[left] = scale(samples[left], gain);
        samples[right] = scale(samples[right], gain);
        frame += 1;
    }
    assert(is_scaled(scale, gains, before, samples@));
}

/// A device frame of `channels` channels for one stereo frame: mono gets the
/// mix of both sides, extra channels get silence.
pub open spec fn device_frame<T>(channels: nat, left: T, right: T, mixed: T, silence: T) -> Seq<T> {
    Seq::new(
        channels,
        |i: int|
            if channels == 1 {
                mixed
            } else if i == 0 {
                left
            } else if i == 1 {
                right
            } else {
                silence
            },
    )
}

/// Lays out one stereo frame for the device. The samples are already in the
/// device's sample type; `mixed` is the average of left and right.
pub fn fill_frame<T: Copy>(frame: &mut [T], left: T, right: T, mixed: T, silence: T)
    requires
        old(frame)@.len() >= 1,
    ensures
        final(frame)@ == device_frame(old(frame)@.len(), left, right, mixed, silence),
{
    let len: usize = frame.len();
    if len == 1 {
        frame[0] = mixed;
        assert(frame@ =~= device_frame(len as nat, left, right, mixed, silence));
        return;
    }
    frame[0] = left;
    frame[1] = right;
    let mut i: usize = 2;
    while i < len
        invariant
            2 <= i <= len,
            frame@.len() == len,
            frame@[0] == left,
            frame@[1] == right,
            forall|k: int| 2 <= k < i ==> frame@[k] == silence,
        decreases len - i,
    {
        frame[i] = silence;
        i += 1;
    }
    assert(frame@ =~= device_frame(len as nat, left, right, mixed, silence));
}

/// The device frames of the first `frames` stereo frames of `stereo`.
pub open spec fn device_frames<T>(
    frames: nat,
    channels: nat,
    stereo: Seq<T>,
    mixed: Seq<T>,
    silence: T,
) -> Seq<T>
    decreases frames,
{
    if frames == 0 {
        Seq::empty()
    } else {
        device_frames((frames - 1) as nat, channels, stereo, mixed, silence) + device_frame(
            channels,
            stereo[2 * frames - 2],
            stereo[2 * frames - 1],
            mixed[frames - 1],
            silence,
        )
    }
}

/// Writes `frames` canonical stereo frames for the device, expanded to its
/// channel count. `stereo` holds the samples in the device's sample type and
/// `mixed` the average of each frame; the averages are only read for a mono
/// device.
pub fn write_device_frames<T: Copy>(
    dst: &mut Vec<T>,
    frames: usize,
    device_channels: usize,
    stereo: &[T],
    mixed: &[T],
    silence: T,
)
    requires
        device_channels >= 1,
        stereo@.len() >= 2 * frames,
        device_channels == 1 ==> mixed@.len() >= frames,
    ensures
        final(dst)@ == old(dst)@ + device_frames(
            frames as nat,
            device_channels as nat,
            stereo@,
            mixed@,
            silence,
        ),
        final(dst)@.len() == old(dst)@.len() + frames * device_channels,
        device_channels == 2 ==> final(dst)@ == old(dst)@ + stereo@.take(2 * frames),
        device_channels == 1 ==> final(dst)@ == old(dst)@ + mixed@.take(frames as int),
{
    proof {
        lemma_device_frames_len(frames as nat, device_channels as nat, stereo@, mixed@, silence);
        if device_channels <= 2 {
            law_stereo_and_mono_devices(frames as nat, stereo@, mixed@, silence);
        }
    }
    let ghost before = dst@;
    let mut i: usize = 0;
    assert(dst@ =~= before + device_frames(0, device_channels as nat, stereo@, mixed@, silence));
    while i < frames
        invariant
            i <= frames,
            device_channels >= 1,
            stereo@.len() >= 2 * frames,
            device_channels == 1 ==> mixed@.len() >= frames,
            dst@ == before + device_frames(
                i as nat,
                device_channels as nat,
                stereo@,
                mixed@,
                silence,
            ),
        decreases frames - i,
    {
        assert(stereo@.len() == stereo.len());
        let left: T = stereo[2 * i];
        let right: T = stereo[2 * i + 1];
        let mut frame: Vec<T> = vec![silence; device_channels];
        let mix: T = if device_channels == 1 {
            mixed[i]
        } else {
            silence
        };
        fill_frame(frame.as_mut_slice(), left, right, mix, silence);
        dst.append(&mut frame);
        i += 1;
        assert(device_frame(device_channels as nat, left, right, mix, silence) =~= device_frame(
            device_channels as nat,
            left,
            right,
            mixed@[i - 1],
            silence,
        ));
    }
}

/// Paces the drift controller: one update per control interval.
#[derive(Debug, Clone, Copy, PartialEq, Eq, Structural)]
pub struct ControlTimer {
    pub last_update: u64,
}

impl ControlTimer {
    pub fn new(now: u64) -> (timer: Self)
        ensures
            timer.last_update == now,
    {
        Self { last_update: now }
    }

    pub fn reset(&mut self, now: u64)
        ensures
            final(self).last_update == now,
    {
        self.last_update = now;
    }

    /// Whether an update is due now (in nanoseconds); if so, the next interval
    /// starts.
    pub fn due(&mut self, now: u64) -> (due: bool)
        ensures
            due == (now - old(self).last_update >= CONTROL_INTERVAL_NANOS),
            due == is_update_due(old(self).last_update, now),
            final(self).last_update == if due {
                now
            } else {
                old(self).last_update
            },
    {
        if now.saturating_sub(self.last_update) < CONTROL_INTERVAL_NANOS {
            return false;
        }
        self.last_update = now;
        true
    }
}

/// A pass fills exactly the free part of the device buffer, whether it plays or
/// stays silent; only a full buffer is left alone.
pub proof fn law_pass_fills_the_free_part(session: RenderSession, padding: u32, available: int)
    requires
        padding <= session.buffer_frames,
    ensures
        session.pass(padding, available) is Idle <==> padding == session.buffer_frames,
        session.pass(padding, available) matches Pass::Silence { frames } ==> frames + padding
            == session.buffer_frames,
        session.pass(padding, available) matches Pass::Read { frames, latched } ==> frames + padding
            == session.buffer_frames,
{
}

/// A pass is silent exactly if the session rebuffers and the fill is not there
/// yet, and the reader is positioned anew exactly at the end of a rebuffering.
pub proof fn law_pass_latches_after_rebuffering(
    session: RenderSession,
    padding: u32,
    available: int,
)
    requires
        padding < session.buffer_frames,
    ensures
        session.pass(padding, available) is Silence <==> session.rebuffering && available
            < session.target_fill_frames,
        session.pass(padding, available) is Read <==> !session.rebuffering || available
            >= session.target_fill_frames,
        session.pass(padding, available) matches Pass::Read { frames, latched } ==> latched
            == session.rebuffering,
{
}

/// Passes and reads change nothing of a session but whether it rebuffers: a
/// pass that reads ends that, an underrun starts it.
pub proof fn law_session_keeps_its_dimensions(
    session: RenderSession,
    pass: Pass,
    result: Result<(), ReadError>,
)
    ensures
        session.after_pass(pass).buffer_frames == session.buffer_frames,
        session.after_pass(pass).source_rate == session.source_rate,
        session.after_pass(pass).target_fill_frames == session.target_fill_frames,
        session.after_pass(pass).rebuffering <==> session.rebuffering && !(pass is Read),
        session.after_read(result).buffer_frames == session.buffer_frames,
        session.after_read(result).source_rate == session.source_rate,
        session.after_read(result).target_fill_frames == session.target_fill_frames,
        session.after_read(result).rebuffering <==> session.rebuffering || result == Err::<
            (),
            ReadError,
        >(ReadError::NotEnough),
{
}

proof fn lemma_device_frames_len<T>(
    frames: nat,
    channels: nat,
    stereo: Seq<T>,
    mixed: Seq<T>,
    silence: T,
)
    ensures
        device_frames(frames, channels, stereo, mixed, silence).len() == frames * channels,
    decreases frames,
{
    if frames > 0 {
        lemma_device_frames_len((frames - 1) as nat, channels, stereo, mixed, silence);
        assert(frames * channels == (frames - 1) * channels + channels) by (nonlinear_arith)
            requires
                frames > 0,
        ;
    } else {
        assert(frames * channels == 0) by (nonlinear_arith)
            requires
                frames == 0,
        ;
    }
}

/// Channel `channel` of device frame `i` plays: on a mono device the mix of
/// stereo frame `i`, else its left sample on channel 0, its right sample on
/// channel 1 and silence on all others.
pub proof fn law_device_channels<T>(
    frames: nat,
    channels: nat,
    stereo: Seq<T>,
    mixed: Seq<T>,
    silence: T,
    i: int,
    channel: int,
)
    requires
        0 <= i < frames,
        0 <= channel < channels,
    ensures
        ({
            let out = device_frames(frames, channels, stereo, mixed, silence);
            let played = out[i * channels + channel];
            &&& out.len() == frames * channels
            &&& 0 <= i * channels + channel < out.len()
            &&& channels == 1 ==> played == mixed[i]
            &&& channels >= 2 && channel == 0 ==> played == stereo[2 * i]
            &&& channels >= 2 && channel == 1 ==> played == stereo[2 * i + 1]
            &&& channels >= 2 && channel >= 2 ==> played == silence
        }),
    decreases frames,
{
    lemma_device_frames_len(frames, channels, stereo, mixed, silence);
    lemma_device_frames_len((frames - 1) as nat, channels, stereo, mixed, silence);
    assert(0 <= i * channels + channel < frames * channels) by (nonlinear_arith)
        requires
            0 <= i < frames,
            0 <= channel < channels,
    ;
    assert(i < frames - 1 ==> i * channels + channel < (frames - 1) * channels)
        by (nonlinear_arith)
        requires
            0 <= i < frames,
            0 <= channel < channels,
    ;
    if i < frames - 1 {
        law_device_channels((frames - 1) as nat, channels, stereo, mixed, silence, i, channel);
    }
}

/// A stereo device plays the stream as it is, and a mono device plays the
/// mixes.
pub proof fn law_stereo_and_mono_devices<T>(
    frames: nat,
    stereo: Seq<T>,
    mixed: Seq<T>,
    silence: T,
)
    requires
        stereo.len() >= 2 * frames,
    ensures
        device_frames(frames, 2, stereo, mixed, silence) == stereo.take((2 * frames) as int),
        mixed.len() >= frames ==> device_frames(frames, 1, stereo, mixed, silence) == mixed.take(
            frames as int,
        ),
{
    lemma_device_frames_len(frames, 2, stereo, mixed, silence);
    lemma_device_frames_len(frames, 1, stereo, mixed, silence);
    let out = device_frames(frames, 2, stereo, mixed, silence);
    assert forall|k: int| 0 <= k < out.len() implies out[k] == stereo[k] by {
        law_device_channels(frames, 2, stereo, mixed, silence, k / 2, k % 2);
    }
    assert(out =~= stereo.take((2 * frames) as int));
    if mixed.len() >= frames {
        let out = device_frames(frames, 1, stereo, mixed, silence);
        assert forall|k: int| 0 <= k < out.len() implies out[k] == mixed[k] by {
            law_device_channels(frames, 1, stereo, mixed, silence, k, 0);
        }
        assert(out =~= mixed.take(frames as int));
    }
}

/// Applying the gain to one frame takes one step towards the target, unless it
/// is reached, and applies the same gain to both sides; to no frame, it takes
/// no step. With [`law_gain_ignores_block_bounds`] this says what becomes of a
/// stream of any length.
pub proof fn law_gain_of_one_frame<S, E: Fn(S, S) -> bool, R: Fn(S, S) -> S, M: Fn(S, S) -> S>(
    same: E,
    approach: R,
    scale: M,
    eq: spec_fn(S, S) -> bool,
    step: spec_fn(S, S) -> S,
    product: spec_fn(S, S) -> S,
    target: S,
    unity: S,
    start: S,
    before: Seq<S>,
    after: Seq<S>,
    end: S,
)
    requires
        forall|x: S, y: S, r: bool| #[trigger] call_ensures(same, (x, y), r) ==> r == eq(x, y),
        forall|x: S, y: S, r: S| #[trigger] call_ensures(approach, (x, y), r) ==> r == step(x, y),
        forall|x: S, y: S, r: S| #[trigger] call_ensures(scale, (x, y), r) ==> r == product(x, y),
        forall|x: S, gain: S|
            eq(gain, target) && eq(target, unity) ==> #[trigger] product(x, gain) == x,
        is_gain_applied(same, approach, scale, target, unity, start, before, after, end),
    ensures
        before.len() == 0 ==> after.len() == 0 && end == start,
        before.len() == 2 ==> {
            &&& eq(start, target) ==> end == start
            &&& !eq(start, target) ==> end == step(start, target)
            &&& after.len() == 2
            &&& after[0] == product(before[0], end)
            &&& after[1] == product(before[1], end)
        },
{
    law_gain_is_determined(
        same,
        approach,
        scale,
        eq,
        step,
        product,
        target,
        unity,
        start,
        before,
        after,
        end,
    );
    reveal_with_fuel(gain_after, 2);
    if before.len() == 2 && eq(start, target) && eq(target, unity) {
        assert(product(before[0], start) == before[0]);
        assert(product(before[1], start) == before[1]);
    }
}

/// The number of samples stays; at full volume the samples stay too, and so
/// does the last sample of a block that ends with half a frame.
pub proof fn law_gain_leaves_samples_alone<
    S,
    E: Fn(S, S) -> bool,
    R: Fn(S, S) -> S,
    M: Fn(S, S) -> S,
>(
    same: E,
    approach: R,
    scale: M,
    eq: spec_fn(S, S) -> bool,
    target: S,
    unity: S,
    start: S,
    before: Seq<S>,
    after: Seq<S>,
    end: S,
)
    requires
        forall|x: S, y: S, r: bool| #[trigger] call_ensures(same, (x, y), r) ==> r == eq(x, y),
        is_gain_applied(same, approach, scale, target, unity, start, before, after, end),
    ensures
        after.len() == before.len(),
        eq(start, target) && eq(target, unity) ==> after == before && end == start,
        before.len() % 2 == 1 ==> after.last() == before.last(),
{
}

/// What follows a wait for the render event.
pub open spec fn wake_for(stop: bool, wait: u32) -> Wake {
    if stop {
        Wake::Stop
    } else if wait == WAIT_OBJECT_0 {
        Wake::Render
    } else if wait == WAIT_FAILED {
        Wake::Fail
    } else {
        Wake::Wait
    }
}

/// A stop request is obeyed whatever the wait gave; otherwise the device is
/// served exactly if it signaled, fails exactly if the wait failed, and any
/// other result, such as a timeout, means waiting again.
pub proof fn law_wakes_render_only_when_signaled(stop: bool, wait: u32)
    ensures
        wake_for(stop, wait) == Wake::Stop <==> stop,
        wake_for(stop, wait) == Wake::Render <==> !stop && wait == 0,
        wake_for(stop, wait) == Wake::Fail <==> !stop && wait == u32::MAX,
        wake_for(stop, wait) == Wake::Wait <==> !stop && 0 < wait < u32::MAX,
{
}

/// What follows an attempt to read for a pass over `frames` device frames.
pub open spec fn playback_after(result: Result<(), ReadError>, frames: u32) -> Playback {
    if result is Ok {
        Playback::Play
    } else {
        Playback::Silence { frames, reset: result == Err::<(), ReadError>(ReadError::Overwritten) }
    }
}

/// The read position after that.
pub open spec fn position_after(
    result: Result<(), ReadError>,
    pos: nat,
    write: nat,
    target_fill: nat,
) -> nat {
    if result == Err::<(), ReadError>(ReadError::Overwritten) {
        crate::ring::lag(write as int, target_fill as int) as nat
    } else {
        pos
    }
}

/// The counters after that.
pub open spec fn stats_after(
    result: Result<(), ReadError>,
    stats: crate::engine::StatsView,
) -> crate::engine::StatsView {
    match result {
        Ok(_) => stats,
        Err(ReadError::NotEnough) => crate::engine::StatsView {
            state: EngineState::Rebuffering,
            underruns: crate::engine::counted(stats.underruns),
            ..stats
        },
        Err(ReadError::Overwritten) => crate::engine::StatsView {
            overruns: crate::engine::counted(stats.overruns),
            ..stats
        },
    }
}

/// What was read is played; a failed read makes all the frames of the pass
/// silent, and the drift controller starts over exactly if the reader was
/// repositioned.
pub proof fn law_failed_reads_are_silent(result: Result<(), ReadError>, frames: u32)
    ensures
        playback_after(result, frames) == Playback::Play <==> result is Ok,
        playback_after(result, frames) matches Playback::Silence { frames: silent, reset } ==> silent
            == frames && (reset <==> result == Err::<(), ReadError>(ReadError::Overwritten)),
{
}

/// A lapped reader recovers: it is as far behind the writer as the target fill
/// says, so the next read of that much succeeds. Otherwise a read that failed
/// moves nothing.
pub proof fn law_overruns_recover(pos: nat, write: nat, target_fill: nat, capacity: nat)
    requires
        target_fill <= write,
        target_fill + MAX_WRITE_FRAMES <= capacity,
    ensures
        ({
            let overwritten = Err::<(), ReadError>(ReadError::Overwritten);
            let after = position_after(overwritten, pos, write, target_fill);
            &&& after + target_fill == write
            &&& crate::ring::read_error(
                write as int,
                after as int,
                target_fill as int,
                capacity as int,
            ) is None
        }),
        position_after(Err(ReadError::NotEnough), pos, write, target_fill) == pos,
        position_after(Ok(()), pos, write, target_fill) == pos,
{
}

/// Each failed read is counted once, under its own counter and no other; only
/// an underrun changes the state, and the name, the fill level and the drift
/// stay.
pub proof fn law_failed_reads_are_counted(
    result: Result<(), ReadError>,
    stats: crate::engine::StatsView,
)
    requires
        stats.underruns < u64::MAX,
        stats.overruns < u64::MAX,
    ensures
        ({
            let after = stats_after(result, stats);
            let underrun = result == Err::<(), ReadError>(ReadError::NotEnough);
            let overrun = result == Err::<(), ReadError>(ReadError::Overwritten);
            &&& after.underruns - stats.underruns == if underrun {
                1int
            } else {
                0
            }
            &&& after.overruns - stats.overruns == if overrun {
                1int
            } else {
                0
            }
            &&& underrun ==> after.state == EngineState::Rebuffering
            &&& !underrun ==> after.state == stats.state
            &&& after.name == stats.name
            &&& after.fill_ms == stats.fill_ms
            &&& after.drift_ppm == stats.drift_ppm
        }),
{
}

/// The whole milliseconds that `fill` frames play at `rate` frames per second.
pub open spec fn fill_in_ms(fill: nat, rate: nat) -> nat {
    1000 * fill / rate
}

/// The fill level in milliseconds is the playing time, rounded down.
pub proof fn law_fill_in_ms_is_playing_time(fill: nat, rate: nat)
    requires
        rate > 0,
    ensures
        fill_in_ms(fill, rate) * rate <= 1000 * fill < (fill_in_ms(fill, rate) + 1) * rate,
{
    vstd::arithmetic::div_mod::lemma_fundamental_div_mod((1000 * fill) as int, rate as int);
    vstd::arithmetic::div_mod::lemma_mod_bound((1000 * fill) as int, rate as int);
    let quotient = fill_in_ms(fill, rate);
    assert(quotient * rate == rate * quotient && (quotient + 1) * rate == quotient * rate + rate)
        by (nonlinear_arith);
}

/// A control interval is over.
pub open spec fn is_update_due(last_update: u64, now: u64) -> bool {
    now - last_update >= CONTROL_INTERVAL_NANOS
}

/// Two updates of the drift controller are at least 100 ms apart, and one that
/// is due stays due until it is made.
pub proof fn law_updates_are_an_interval_apart(last_update: u64, now: u64, later: u64)
    ensures
        is_update_due(last_update, now) <==> now >= last_update + 100_000_000,
        is_update_due(last_update, now) && now <= later ==> is_update_due(last_update, later),
        !is_update_due(now, now),
{
}

} // verus!
