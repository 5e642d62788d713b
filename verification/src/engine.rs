//! Fan-out engine: one source feeding N per-device render threads through the
//! broadcast ring buffer.
//!
//! Failure isolation: a failing render device only takes down its own thread
//! (marked as failed in the status output); the source and the remaining
//! devices keep running. A failing source stops the whole engine.
use crate::render::RenderParams;
use crate::ring::{CHANNELS, MAX_WRITE_FRAMES};
use crate::text::{push_decimal, push_signed};
use crate::tone::TONE_RATE;
use vstd::prelude::*;

verus! {

/// Ring capacity in seconds of canonical audio.
pub const RING_SECONDS: usize = 4;

/// Per-device buffering target as a fraction of the source rate (100 ms).
/// All devices aim for the same fill level, which keeps them mutually in
/// sync and leaves headroom for a per-device delay.
pub const TARGET_FILL_DIVISOR: u64 = 10;

/// Time between two status reports.
pub const STATUS_INTERVAL_MS: u64 = 5000;

/// Where the canonical stream comes from.
pub enum Source {
    Loopback { device_id: String, sample_rate: u32 },
    Tone,
}

/// A device to render to, with its volume in percent.
pub struct Target {
    pub id: String,
    pub name: String,
    pub volume: u8,
}

#[derive(Debug, Clone, Copy, PartialEq, Eq, Structural)]
pub enum EngineState {
    Starting,
    Rebuffering,
    Running,
    Failed,
}

impl EngineState {
    pub open spec fn decode(value: u8) -> Self {
        if value == 1 {
            EngineState::Rebuffering
        } else if value == 2 {
            EngineState::Running
        } else if value == 3 {
            EngineState::Failed
        } else {
            EngineState::Starting
        }
    }

    pub open spec fn encode(self) -> u8 {
        match self {
            EngineState::Starting => 0,
            EngineState::Rebuffering => 1,
            EngineState::Running => 2,
            EngineState::Failed => 3,
        }
    }

    pub open spec fn text(self) -> Seq<char> {
        match self {
            EngineState::Starting => "starting"@,
            EngineState::Rebuffering => "rebuffering"@,
            EngineState::Running => "running"@,
            EngineState::Failed => "failed"@,
        }
    }

    pub fn from_u8(value: u8) -> (state: Self)
        ensures
            state == Self::decode(value),
    {
        match value {
            1 => EngineState::Rebuffering,
            2 => EngineState::Running,
            3 => EngineState::Failed,
            _ => EngineState::Starting,
        }
    }

    pub fn to_u8(self) -> (value: u8)
        ensures
            value == self.encode(),
    {
        match self {
            EngineState::Starting => 0,
            EngineState::Rebuffering => 1,
            EngineState::Running => 2,
            EngineState::Failed => 3,
        }
    }

    pub fn as_str(self) -> (text: &'static str)
        ensures
            text@ == self.text(),
    {
        match self {
            EngineState::Starting => "starting",
            EngineState::Rebuffering => "rebuffering",
            EngineState::Running => "running",
            EngineState::Failed => "failed",
        }
    }
}

/// A state survives being stored as a byte.
pub proof fn law_state_survives_encoding(state: EngineState)
    ensures
        EngineState::decode(state.encode()) == state,
{
}

/// What the counters of a device say.
#[verifier::ext_equal]
pub struct StatsView {
    pub name: Seq<char>,
    pub state: EngineState,
    pub underruns: u64,
    pub overruns: u64,
    pub fill_ms: u64,
    pub drift_ppm: i64,
}

/// Counter arithmetic: counters wrap around.
pub open spec fn counted(count: u64) -> u64 {
    if count == u64::MAX {
        0
    } else {
        (count + 1) as u64
    }
}

/// Per-device counters, written by the render side and read by the status
/// loop.
#[derive(Debug)]
pub struct DeviceStats {
    name: String,
    state: u8,
    underruns: u64,
    overruns: u64,
    fill_ms: u64,
    drift_ppm: i64,
}

impl View for DeviceStats {
    type V = StatsView;

    closed spec fn view(&self) -> StatsView {
        StatsView {
            name: self.name@,
            state: EngineState::decode(self.state),
            underruns: self.underruns,
            overruns: self.overruns,
            fill_ms: self.fill_ms,
            drift_ppm: self.drift_ppm,
        }
    }
}

impl DeviceStats {
    pub fn new(name: String) -> (stats: Self)
        ensures
            stats@ == (StatsView {
                name: name@,
                state: EngineState::Starting,
                underruns: 0,
                overruns: 0,
                fill_ms: 0,
                drift_ppm: 0,
            }),
    {
        Self {
            name,
            state: EngineState::Starting.to_u8(),
            underruns: 0,
            overruns: 0,
            fill_ms: 0,
            drift_ppm: 0,
        }
    }

    pub fn set_state(&mut self, state: EngineState)
        ensures
            final(self)@ == (StatsView { state, ..old(self)@ }),
    {
        self.state = state.to_u8();
    }

    pub fn add_underrun(&mut self)
        ensures
            final(self)@ == (StatsView { underruns: counted(old(self)@.underruns), ..old(self)@ }),
    {
        self.underruns = self.underruns.wrapping_add(1);
    }

    pub fn add_overrun(&mut self)
        ensures
            final(self)@ == (StatsView { overruns: counted(old(self)@.overruns), ..old(self)@ }),
    {
        self.overruns = self.overruns.wrapping_add(1);
    }

    pub fn set_fill_ms(&mut self, fill_ms: u64)
        ensures
            final(self)@ == (StatsView { fill_ms, ..old(self)@ }),
    {
        self.fill_ms = fill_ms;
    }

    pub fn set_drift_ppm(&mut self, ppm: i64)
        ensures
            final(self)@ == (StatsView { drift_ppm: ppm, ..old(self)@ }),
    {
        self.drift_ppm = ppm;
    }

    pub fn name(&self) -> (name: &str)
        ensures
            name@ == self@.name,
    {
        self.name.as_str()
    }

    pub fn state(&self) -> (state: EngineState)
        ensures
            state == self@.state,
    {
        EngineState::from_u8(self.state)
    }

    pub fn underruns(&self) -> (count: u64)
        ensures
            count == self@.underruns,
    {
        self.underruns
    }

    pub fn overruns(&self) -> (count: u64)
        ensures
            count == self@.overruns,
    {
        self.overruns
    }

    pub fn fill_ms(&self) -> (fill_ms: u64)
        ensures
            fill_ms == self@.fill_ms,
    {
        self.fill_ms
    }

    pub fn drift_ppm(&self) -> (ppm: i64)
        ensures
            ppm == self@.drift_ppm,
    {
        self.drift_ppm
    }

    /// The device's line in a status report.
    pub fn status_line(&self) -> (line: String)
        ensures
            line@ == self@.status_text(),
            line@ == "  ["@ + self@.name + "] state="@ + self@.state.text() + " fill="@
                + crate::text::decimal(self@.fill_ms as nat) + "ms drift="@
                + crate::text::signed_decimal(self@.drift_ppm as int) + "ppm underruns="@
                + crate::text::decimal(self@.underruns as nat) + " overruns="@
                + crate::text::decimal(self@.overruns as nat),
    {
        let mut line = "  [".to_owned();
        line.append(self.name.as_str());
        line.append("] state=");
        line.append(self.state().as_str());
        line.append(" fill=");
        push_decimal(&mut line, self.fill_ms);
        line.append("ms drift=");
        push_signed(&mut line, self.drift_ppm);
        line.append("ppm underruns=");
        push_decimal(&mut line, self.underruns);
        line.append(" overruns=");
        push_decimal(&mut line, self.overruns);
        line
    }

    /// The status line below the device's row in a device list.
    pub fn row_line(&self) -> (line: String)
        ensures
            line@ == self@.row_text(),
            line@ == "        "@ + self@.state.text() + " | fill "@ + crate::text::decimal(
                self@.fill_ms as nat,
            ) + " ms | drift "@ + crate::text::signed_decimal(self@.drift_ppm as int)
                + " ppm | underruns "@ + crate::text::decimal(self@.underruns as nat)
                + " | overruns "@ + crate::text::decimal(self@.overruns as nat),
    {
        let mut line = "        ".to_owned();
        line.append(self.state().as_str());
        line.append(" | fill ");
        push_decimal(&mut line, self.fill_ms);
        line.append(" ms | drift ");
        push_signed(&mut line, self.drift_ppm);
        line.append(" ppm | underruns ");
        push_decimal(&mut line, self.underruns);
        line.append(" | overruns ");
        push_decimal(&mut line, self.overruns);
        line
    }
}

impl StatsView {
    pub open spec fn status_text(self) -> Seq<char> {
        "  ["@ + self.name + "] state="@ + self.state.text() + " fill="@ + crate::text::decimal(
            self.fill_ms as nat,
        ) + "ms drift="@ + crate::text::signed_decimal(self.drift_ppm as int) + "ppm underruns="@
            + crate::text::decimal(self.underruns as nat) + " overruns="@ + crate::text::decimal(
            self.overruns as nat,
        )
    }

    pub open spec fn row_text(self) -> Seq<char> {
        "        "@ + self.state.text() + " | fill "@ + crate::text::decimal(self.fill_ms as nat)
            + " ms | drift "@ + crate::text::signed_decimal(self.drift_ppm as int)
            + " ppm | underruns "@ + crate::text::decimal(self.underruns as nat) + " | overruns "@
            + crate::text::decimal(self.overruns as nat)
    }
}

pub open spec fn rate_of(source: Source) -> u32 {
    match source {
        Source::Loopback { device_id, sample_rate } => sample_rate,
        Source::Tone => TONE_RATE,
    }
}

/// A ring for this rate leaves the write chunk safety margin and fits into
/// memory.
pub open spec fn ring_fits(rate: u32) -> bool {
    4 * MAX_WRITE_FRAMES <= rate * RING_SECONDS && rate * RING_SECONDS * CHANNELS <= usize::MAX
}

/// Whether the engine can run at this source rate.
pub fn supports_rate(rate: u32) -> (supported: bool)
    ensures
        supported == ring_fits(rate),
{
    let seconds: u64 = RING_SECONDS as u64;
    let channels: u64 = CHANNELS as u64;
    assert(rate * seconds <= 4 * u32::MAX && rate * seconds * channels <= 8 * u32::MAX)
        by (nonlinear_arith)
        requires
            seconds == 4,
            channels == 2,
    ;
    let frames: u64 = rate as u64 * seconds;
    let samples: u64 = frames * channels;
    4 * MAX_WRITE_FRAMES as u64 <= frames && samples <= usize::MAX as u64
}

/// The common dimensions of an engine run.
#[derive(Debug, Clone, Copy, PartialEq, Eq, Structural)]
pub struct EnginePlan {
    pub source_rate: u32,
    pub ring_frames: usize,
    pub target_fill_frames: u64,
}

impl EnginePlan {
    pub open spec fn of(source: Source) -> Self {
        EnginePlan {
            source_rate: rate_of(source),
            ring_frames: (rate_of(source) * RING_SECONDS) as usize,
            target_fill_frames: rate_of(source) as u64 / TARGET_FILL_DIVISOR,
        }
    }

    pub fn new(source: &Source) -> (plan: Self)
        requires
            ring_fits(rate_of(*source)),
        ensures
            plan == Self::of(*source),
            plan.ring_frames == plan.source_rate * RING_SECONDS,
    {
        let source_rate: u32 = match source {
            Source::Loopback { sample_rate, .. } => *sample_rate,
            Source::Tone => TONE_RATE,
        };
        EnginePlan {
            source_rate,
            ring_frames: source_rate as usize * RING_SECONDS,
            target_fill_frames: source_rate as u64 / TARGET_FILL_DIVISOR,
        }
    }

    /// One render job per target, all with the same source rate and the same
    /// buffering target.
    pub fn fan_out(&self, targets: &Vec<Target>) -> (jobs: Vec<RenderJob>)
        ensures
            jobs@.len() == targets@.len(),
            forall|i: int|
                0 <= i < jobs@.len() ==> is_job_for(#[trigger] jobs@[i], *self, targets@[i]),
    {
        let mut jobs: Vec<RenderJob> = Vec::new();
        let mut i: usize = 0;
        while i < targets.len()
            invariant
                i <= targets@.len(),
                jobs@.len() == i,
                forall|k: int|
                    0 <= k < i ==> is_job_for(#[trigger] jobs@[k], *self, targets@[k]),
            decreases targets@.len() - i,
        {
            let target = &targets[i];
            let mut thread_name = "render ".to_owned();
            thread_name.append(target.name.as_str());
            jobs.push(
                RenderJob {
                    params: RenderParams {
                        device_id: target.id.clone(),
                        source_rate: self.source_rate,
                        target_fill_frames: self.target_fill_frames,
                    },
                    stats: DeviceStats::new(target.name.clone()),
                    thread_name,
                },
            );
            i += 1;
        }
        jobs
    }
}

/// What one render thread runs with.
pub struct RenderJob {
    pub params: RenderParams,
    pub stats: DeviceStats,
    pub thread_name: String,
}

pub open spec fn is_job_for(job: RenderJob, plan: EnginePlan, target: Target) -> bool {
    &&& job.params.device_id@ == target.id@
    &&& job.params.source_rate == plan.source_rate
    &&& job.params.target_fill_frames == plan.target_fill_frames
    &&& job.stats@ == (StatsView {
        name: target.name@,
        state: EngineState::Starting,
        underruns: 0,
        overruns: 0,
        fill_ms: 0,
        drift_ppm: 0,
    })
    &&& job.thread_name@ == "render "@ + target.name@
}

/// All devices of a run aim for the same fill level, which is the basis of
/// their mutual sync.
pub proof fn law_common_fill_target(
    jobs: Seq<RenderJob>,
    plan: EnginePlan,
    targets: Seq<Target>,
    i: int,
    j: int,
)
    requires
        jobs.len() == targets.len(),
        forall|k: int| 0 <= k < jobs.len() ==> is_job_for(#[trigger] jobs[k], plan, targets[k]),
        0 <= i < jobs.len(),
        0 <= j < jobs.len(),
    ensures
        jobs[i].params.target_fill_frames == jobs[j].params.target_fill_frames,
        jobs[i].params.source_rate == jobs[j].params.source_rate,
{
    assert(is_job_for(jobs[i], plan, targets[i]));
    assert(is_job_for(jobs[j], plan, targets[j]));
}

/// The buffering target is 100 ms of the stream, and a reader that was seeked
/// there is inside the safe region of the ring.
pub proof fn law_fill_target_is_readable(source: Source, write: nat)
    requires
        ring_fits(rate_of(source)),
        write >= EnginePlan::of(source).target_fill_frames,
    ensures
        ({
            let plan = EnginePlan::of(source);
            let fill = plan.target_fill_frames as int;
            &&& 10 * fill <= plan.source_rate < 10 * fill + 10
            &&& crate::ring::read_error(
                write as int,
                crate::ring::lag(write as int, fill),
                fill,
                plan.ring_frames as int,
            ) is None
        }),
{
}

/// What can happen to a running engine.
#[derive(Debug, Clone, Copy, PartialEq, Eq, Structural)]
pub enum RunEvent {
    /// A render thread ended, with or without an error.
    RenderEnded,
    /// The source thread ended, with or without an error.
    SourceEnded,
    /// The user asked to stop.
    StopRequested,
    /// Time passed: milliseconds since the start and since the last report.
    Tick { elapsed_ms: u64, since_report_ms: u64 },
}

/// Whether an event stops a run with the given time limit in seconds.
pub open spec fn stops(limit: Option<u64>, event: RunEvent) -> bool {
    match event {
        RunEvent::RenderEnded => false,
        RunEvent::SourceEnded => true,
        RunEvent::StopRequested => true,
        RunEvent::Tick { elapsed_ms, since_report_ms } => limit is Some && elapsed_ms >= 1000
            * limit->Some_0,
    }
}

/// Whether an event is the time for a status report.
pub open spec fn reports(event: RunEvent) -> bool {
    event matches RunEvent::Tick { elapsed_ms, since_report_ms } && since_report_ms
        >= STATUS_INTERVAL_MS
}

/// Control state of a run: it goes on until the user stops it, the time limit
/// (if there is one) is over, or the source ends.
#[derive(Debug, Clone, Copy, PartialEq, Eq, Structural)]
pub struct RunState {
    pub limit: Option<u64>,
    pub stopped: bool,
}

impl RunState {
    pub fn new(seconds: Option<u64>) -> (run: Self)
        ensures
            run.limit == seconds,
            !run.stopped,
    {
        Self { limit: seconds, stopped: false }
    }

    /// Takes one event; the result says whether a status report is due.
    pub fn on_event(&mut self, event: RunEvent) -> (report: bool)
        ensures
            final(self).limit == old(self).limit,
            final(self).stopped == (old(self).stopped || stops(old(self).limit, event)),
            report == reports(event),
    {
        match event {
            RunEvent::RenderEnded => false,
            RunEvent::SourceEnded => {
                // Without a source the engine cannot continue.
                self.stopped = true;
                false
            },
            RunEvent::StopRequested => {
                self.stopped = true;
                false
            },
            RunEvent::Tick { elapsed_ms, since_report_ms } => {
                if let Some(seconds) = self.limit {
                    if elapsed_ms as u128 >= 1000 * seconds as u128 {
                        self.stopped = true;
                    }
                }
                since_report_ms >= STATUS_INTERVAL_MS
            },
        }
    }
}

/// Whether a run that starts fresh is stopped after `events`.
pub open spec fn stopped_after(limit: Option<u64>, events: Seq<RunEvent>) -> bool
    decreases events.len(),
{
    events.len() > 0 && (stopped_after(limit, events.drop_last()) || stops(limit, events.last()))
}

/// A run is stopped exactly if some event stopped it; it never resumes.
pub proof fn law_run_stops_for_a_reason(limit: Option<u64>, events: Seq<RunEvent>)
    ensures
        stopped_after(limit, events) <==> exists|i: int|
            0 <= i < events.len() && stops(limit, #[trigger] events[i]),
    decreases events.len(),
{
    if events.len() > 0 {
        let before = events.drop_last();
        law_run_stops_for_a_reason(limit, before);
        if stopped_after(limit, before) {
            let i = choose|i: int| 0 <= i < before.len() && stops(limit, #[trigger] before[i]);
            assert(events[i] == before[i]);
        }
        if stops(limit, events.last()) {
            assert(stops(limit, events[events.len() - 1]));
        }
        if exists|i: int| 0 <= i < events.len() && stops(limit, #[trigger] events[i]) {
            let i = choose|i: int| 0 <= i < events.len() && stops(limit, #[trigger] events[i]);
            if i < events.len() - 1 {
                assert(before[i] == events[i]);
            }
        }
    }
}

/// Failing render devices never stop the engine, however many there are.
pub proof fn law_render_failures_do_not_stop(limit: Option<u64>, events: Seq<RunEvent>)
    requires
        forall|i: int| 0 <= i < events.len() ==> #[trigger] events[i] == RunEvent::RenderEnded,
    ensures
        !stopped_after(limit, events),
{
    law_run_stops_for_a_reason(limit, events);
}

/// Without a source the engine stops.
pub proof fn law_source_end_stops(limit: Option<u64>, events: Seq<RunEvent>, i: int)
    requires
        0 <= i < events.len(),
        events[i] == RunEvent::SourceEnded,
    ensures
        stopped_after(limit, events),
{
    law_run_stops_for_a_reason(limit, events);
    assert(stops(limit, events[i]));
}

/// A render thread ended: with an error its device, and no other, is marked as
/// failed, and the message for the user is returned.
pub fn render_ended(stats: &mut DeviceStats, error: Option<String>) -> (message: Option<String>)
    ensures
        match error {
            None => message is None && final(stats)@ == old(stats)@,
            Some(error) => {
                &&& final(stats)@ == (StatsView { state: EngineState::Failed, ..old(stats)@ })
                &&& message is Some
                &&& message->Some_0@ == "render device '"@ + old(stats)@.name + "' failed: "@
                    + error@
            },
        },
{
    match error {
        None => None,
        Some(error) => {
            stats.set_state(EngineState::Failed);
            let mut message = "render device '".to_owned();
            message.append(stats.name());
            message.append("' failed: ");
            message.append(error.as_str());
            Some(message)
        },
    }
}

/// The source has to run at the rate that the engine was set up for.
pub fn check_source_rate(actual: u32, expected: u32) -> (result: Result<(), String>)
    ensures
        if actual == expected {
            result is Ok
        } else {
            result is Err && result->Err_0@
                == "source sample rate changed between setup and start ("@ + crate::text::decimal(
                actual as nat,
            ) + " vs "@ + crate::text::decimal(expected as nat) + ")"@
        },
{
    if actual == expected {
        return Ok(());
    }
    let mut message = "source sample rate changed between setup and start (".to_owned();
    push_decimal(&mut message, actual as u64);
    message.append(" vs ");
    push_decimal(&mut message, expected as u64);
    message.append(")");
    Err(message)
}

/// A counter goes up by one; after the largest value it starts over.
pub proof fn law_counter_counts(count: u64)
    ensures
        count < u64::MAX ==> counted(count) == count + 1,
        counted(u64::MAX) == 0,
{
}

/// The stored byte of a state is its place in the life of a device; a byte that
/// stands for no state reads as the first one.
pub proof fn law_state_codes(value: u8)
    ensures
        EngineState::Starting.encode() == 0,
        EngineState::Rebuffering.encode() == 1,
        EngineState::Running.encode() == 2,
        EngineState::Failed.encode() == 3,
        value <= 3 ==> EngineState::decode(value).encode() == value,
        value > 3 ==> EngineState::decode(value) == EngineState::Starting,
{
}

/// The names of the states in status lines.
pub proof fn law_state_names(state: EngineState)
    ensures
        state == EngineState::Starting ==> state.text() == "starting"@,
        state == EngineState::Rebuffering ==> state.text() == "rebuffering"@,
        state == EngineState::Running ==> state.text() == "running"@,
        state == EngineState::Failed ==> state.text() == "failed"@,
{
}

/// A run goes at the rate of its source and buffers four seconds of it.
pub proof fn law_plan_follows_the_source(source: Source)
    requires
        ring_fits(rate_of(source)),
    ensures
        EnginePlan::of(source).source_rate == rate_of(source),
        EnginePlan::of(source).ring_frames == 4 * rate_of(source),
        source matches Source::Loopback { device_id, sample_rate } ==> rate_of(source)
            == sample_rate,
        source is Tone ==> rate_of(source) == 48000,
{
}

/// A rate is supported exactly if four seconds of it hold four write chunks and
/// their samples can be addressed.
pub proof fn law_supported_rates(rate: u32)
    ensures
        ring_fits(rate) <==> 4800 <= rate && 8 * rate <= usize::MAX,
        ring_fits(44100),
        ring_fits(48000),
        ring_fits(192000),
{
}

/// A job renders on its own target, under the target's name, with fresh
/// counters and the dimensions of the run.
pub proof fn law_job_serves_its_target(job: RenderJob, plan: EnginePlan, target: Target)
    requires
        is_job_for(job, plan, target),
    ensures
        job.params.device_id@ == target.id@,
        job.params.source_rate == plan.source_rate,
        job.params.target_fill_frames == plan.target_fill_frames,
        job.thread_name@ == "render "@ + target.name@,
        job.stats@.name == target.name@,
        job.stats@.state == EngineState::Starting,
        job.stats@.underruns == 0,
        job.stats@.overruns == 0,
        job.stats@.fill_ms == 0,
        job.stats@.drift_ppm == 0,
{
}

/// The end of the source and a request of the user stop a run, the end of a
/// render thread does not, and time stops it exactly from its limit on, if it
/// has one. A report is due every five seconds and at no other event.
pub proof fn law_what_stops_a_run(limit: Option<u64>, elapsed_ms: u64, since_report_ms: u64)
    ensures
        stops(limit, RunEvent::SourceEnded),
        stops(limit, RunEvent::StopRequested),
        !stops(limit, RunEvent::RenderEnded),
        ({
            let tick = RunEvent::Tick { elapsed_ms, since_report_ms };
            &&& limit matches Some(seconds) ==> (stops(limit, tick) <==> elapsed_ms >= 1000
                * seconds)
            &&& limit is None ==> !stops(limit, tick)
            &&& reports(tick) <==> since_report_ms >= 5000
        }),
        !reports(RunEvent::SourceEnded),
        !reports(RunEvent::StopRequested),
        !reports(RunEvent::RenderEnded),
{
}

} // verus!
