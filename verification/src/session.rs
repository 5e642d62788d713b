//! State of a desktop session: the known devices, the config, the running
//! engine and the messages for the user.
//!
//! The user interface owns a [`Session`], shows what it says and performs the
//! actions that it returns (start or stop the engine, save the config). Times
//! are nanoseconds of a monotonic clock.
use crate::config::{Config, TargetConfig};
use crate::devices::DeviceInfo;
use crate::engine::Target;
use vstd::prelude::*;

verus! {

/// A changed config is saved once it has not changed for this long (1 s).
pub const SAVE_DEBOUNCE_NANOS: u64 = 1_000_000_000;

/// Volume in percent of a newly selected target.
pub const FULL_VOLUME: u8 = 100;

/// The engine that is running: its source and its targets.
#[derive(Debug)]
pub struct ActiveEngine {
    pub source_id: String,
    pub target_ids: Vec<String>,
}

/// What to start an engine with.
pub struct StartRequest {
    pub source_id: String,
    pub sample_rate: u32,
    pub targets: Vec<Target>,
}

/// What to do with the engine.
pub enum EngineAction {
    /// Leave it as it is.
    Keep,
    /// Stop the running engine, then start the requested one, if any.
    Restart(Option<StartRequest>),
}

#[derive(Debug)]
pub struct Session {
    pub devices: Vec<DeviceInfo>,
    pub config: Config,
    /// Time of the last config change that is not saved yet.
    pub dirty_since: Option<u64>,
    pub engine: Option<ActiveEngine>,
    pub last_error: Option<String>,
    /// Set when the engine stopped on its own (source failed/removed).
    pub engine_notice: Option<String>,
}

/// The contents of strings.
pub open spec fn texts(strings: Seq<String>) -> Seq<Seq<char>> {
    strings.map_values(|s: String| s@)
}

/// The device is the one to capture: the configured source, or the default
/// render device.
pub open spec fn is_source(device: DeviceInfo, source: Option<String>) -> bool {
    match source {
        Some(id) => device.id@ == id@,
        None => device.is_default,
    }
}

/// Index of the first device from `from` on that is the source.
pub open spec fn first_source(
    devices: Seq<DeviceInfo>,
    source: Option<String>,
    from: int,
) -> Option<int>
    decreases devices.len() - from,
{
    if from < 0 || from >= devices.len() {
        None
    } else if is_source(devices[from], source) {
        Some(from)
    } else {
        first_source(devices, source, from + 1)
    }
}

/// ID of the device that the engine would capture.
pub open spec fn source_id_of(devices: Seq<DeviceInfo>, source: Option<String>) -> Option<
    Seq<char>,
> {
    match first_source(devices, source, 0) {
        Some(i) => Some(devices[i].id@),
        None => None,
    }
}

/// A config that changed last at `dirty_since` is to be saved: the change is
/// old enough or saving is forced.
pub open spec fn is_save_due(dirty_since: Option<u64>, now: u64, force: bool) -> bool {
    match dirty_since {
        Some(since) => force || now - since >= SAVE_DEBOUNCE_NANOS,
        None => false,
    }
}

/// What is saved once is not saved again, and a change is due exactly from the
/// end of its debounce time on; a forced save, as at the end of the program,
/// loses no change.
pub proof fn law_save_follows_change(since: u64, now: u64)
    ensures
        !is_save_due(None, now, false),
        !is_save_due(None, now, true),
        is_save_due(Some(since), now, false) <==> now >= since + SAVE_DEBOUNCE_NANOS,
        is_save_due(Some(since), now, true),
{
}

proof fn lemma_first_source(devices: Seq<DeviceInfo>, source: Option<String>, from: int)
    requires
        0 <= from,
    ensures
        match first_source(devices, source, from) {
            Some(i) => {
                &&& from <= i < devices.len()
                &&& is_source(devices[i], source)
                &&& forall|j: int| from <= j < i ==> !is_source(#[trigger] devices[j], source)
            },
            None => forall|j: int|
                from <= j < devices.len() ==> !is_source(#[trigger] devices[j], source),
        },
    decreases devices.len() - from,
{
    if from < devices.len() && !is_source(devices[from], source) {
        lemma_first_source(devices, source, from + 1);
    }
}

/// A device with this ID is present.
pub open spec fn is_connected(devices: Seq<DeviceInfo>, id: Seq<char>) -> bool {
    exists|i: int| 0 <= i < devices.len() && (#[trigger] devices[i]).id@ == id
}

/// The target is present and not the source.
pub open spec fn is_desired(
    devices: Seq<DeviceInfo>,
    source_id: Option<Seq<char>>,
) -> spec_fn(TargetConfig) -> bool {
    |t: TargetConfig| is_connected(devices, t.id@) && source_id != Some(t.id@)
}

/// The target is of another device.
pub open spec fn is_of_other(id: Seq<char>) -> spec_fn(TargetConfig) -> bool {
    |t: TargetConfig| t.id@ != id
}

/// The target is not present.
pub open spec fn is_missing(devices: Seq<DeviceInfo>) -> spec_fn(TargetConfig) -> bool {
    |t: TargetConfig| !is_connected(devices, t.id@)
}

/// IDs of those targets that are present and not the source, in config order.
pub open spec fn desired_of(
    devices: Seq<DeviceInfo>,
    targets: Seq<TargetConfig>,
    source_id: Option<Seq<char>>,
) -> Seq<Seq<char>> {
    targets.filter(is_desired(devices, source_id)).map_values(|t: TargetConfig| t.id@)
}

/// The targets without those of a device.
pub open spec fn without(targets: Seq<TargetConfig>, id: Seq<char>) -> Seq<TargetConfig> {
    targets.filter(is_of_other(id))
}

/// The configured targets that are not present.
pub open spec fn missing_of(
    devices: Seq<DeviceInfo>,
    targets: Seq<TargetConfig>,
) -> Seq<TargetConfig> {
    targets.filter(is_missing(devices))
}

/// `i` is the first device with this ID.
pub open spec fn is_first_device(devices: Seq<DeviceInfo>, id: Seq<char>, i: int) -> bool {
    &&& 0 <= i < devices.len()
    &&& devices[i].id@ == id
    &&& forall|j: int| 0 <= j < i ==> (#[trigger] devices[j]).id@ != id
}

proof fn lemma_filter_step(
    targets: Seq<TargetConfig>,
    i: int,
    wanted: spec_fn(TargetConfig) -> bool,
)
    requires
        0 <= i < targets.len(),
    ensures
        targets.take(i + 1).filter(wanted) == if wanted(targets[i]) {
            targets.take(i).filter(wanted).push(targets[i])
        } else {
            targets.take(i).filter(wanted)
        },
{
    reveal(Seq::filter);
    assert(targets.take(i + 1).drop_last() =~= targets.take(i));
}

fn device_index(devices: &Vec<DeviceInfo>, id: &String) -> (index: Option<usize>)
    ensures
        match index {
            Some(i) => is_first_device(devices@, id@, i as int),
            None => !is_connected(devices@, id@),
        },
{
    let mut i: usize = 0;
    while i < devices.len()
        invariant
            i <= devices@.len(),
            forall|j: int| 0 <= j < i ==> (#[trigger] devices@[j]).id@ != id@,
        decreases devices@.len() - i,
    {
        if devices[i].id == *id {
            return Some(i);
        }
        i += 1;
    }
    None
}

/// Whether two lists hold the same IDs, each as often, in any order.
fn same_ids(a: &Vec<String>, b: Vec<String>) -> (same: bool)
    ensures
        same == (texts(a@).to_multiset() == texts(b@).to_multiset()),
{
    let mut rest = b;
    let mut i: usize = 0;
    let ghost all = texts(a@);
    let ghost equal = all.to_multiset() == texts(b@).to_multiset();
    assert(all.skip(0) =~= all);
    while i < a.len()
        invariant
            i <= a@.len(),
            all == texts(a@),
            equal == (all.skip(i as int).to_multiset() == texts(rest@).to_multiset()),
            equal == (texts(a@).to_multiset() == texts(b@).to_multiset()),
        decreases a@.len() - i,
    {
        broadcast use vstd::seq_lib::group_to_multiset_ensures;

        let ghost id = a@[i as int]@;
        let ghost left = all.skip(i as int);
        assert(left[0] == id);
        assert(left.contains(id));
        let mut j: usize = 0;
        while j < rest.len() && rest[j] != a[i]
            invariant
                i < a@.len(),
                j <= rest@.len(),
                forall|k: int| 0 <= k < j ==> (#[trigger] rest@[k])@ != a@[i as int]@,
            decreases rest@.len() - j,
        {
            j += 1;
        }
        let ghost right = texts(rest@);
        if j == rest.len() {
            assert(!right.contains(id));
            assert(left.to_multiset().count(id) > 0);
            assert(right.to_multiset().count(id) == 0);
            return false;
        }
        assert(right[j as int] == id);
        assert(right.contains(id));
        rest.remove(j);
        proof {
            assert(texts(rest@) =~= right.remove(j as int));
            assert(left.remove(0) =~= all.skip(i + 1));
            let m = left.to_multiset();
            let n = right.to_multiset();
            assert(m.count(id) > 0 && n.count(id) > 0);
            if m.remove(id) == n.remove(id) {
                assert(m.remove(id).insert(id) =~= m);
                assert(n.remove(id).insert(id) =~= n);
            }
        }
        i += 1;
    }
    proof {
        broadcast use vstd::seq_lib::group_to_multiset_ensures;

        assert(all.skip(i as int) =~= Seq::empty());
        if rest@.len() == 0 {
            assert(texts(rest@) =~= Seq::empty());
        } else {
            assert(texts(rest@).to_multiset().len() > 0);
        }
    }
    rest.len() == 0
}

impl Session {
    /// ID of the device that the engine would capture.
    pub open spec fn source_id(&self) -> Option<Seq<char>> {
        source_id_of(self.devices@, self.config.source)
    }

    /// IDs of the devices that the engine would play on.
    pub open spec fn desired_ids(&self) -> Seq<Seq<char>> {
        desired_of(self.devices@, self.config.targets@, self.source_id())
    }

    fn source_index(&self) -> (index: Option<usize>)
        ensures
            match index {
                Some(i) => first_source(self.devices@, self.config.source, 0) == Some(i as int) && i
                    < self.devices@.len(),
                None => first_source(self.devices@, self.config.source, 0) is None,
            },
    {
        let mut i: usize = 0;
        while i < self.devices.len()
            invariant
                i <= self.devices@.len(),
                first_source(self.devices@, self.config.source, 0) == first_source(
                    self.devices@,
                    self.config.source,
                    i as int,
                ),
            decreases self.devices@.len() - i,
        {
            let found = match &self.config.source {
                Some(id) => self.devices[i].id == *id,
                None => self.devices[i].is_default,
            };
            if found {
                return Some(i);
            }
            i += 1;
        }
        None
    }

    /// The endpoint the engine would capture: the configured source, or the
    /// current default render device.
    pub fn effective_source(&self) -> (device: Option<&DeviceInfo>)
        ensures
            match first_source(self.devices@, self.config.source, 0) {
                Some(i) => device is Some && *device->Some_0 == self.devices@[i],
                None => device is None,
            },
    {
        match self.source_index() {
            Some(i) => Some(&self.devices[i]),
            None => None,
        }
    }

    /// Target IDs the engine should run with right now: configured targets
    /// that are currently present and not the loopback source.
    pub fn desired_target_ids(&self) -> (ids: Vec<String>)
        ensures
            texts(ids@) == self.desired_ids(),
    {
        let source = self.source_index();
        let mut ids: Vec<String> = Vec::new();
        let mut i: usize = 0;
        proof {
            reveal(Seq::filter);
        }
        assert(texts(ids@) =~= desired_of(
            self.devices@,
            self.config.targets@.take(0),
            self.source_id(),
        ));
        while i < self.config.targets.len()
            invariant
                i <= self.config.targets@.len(),
                match source {
                    Some(s) => s < self.devices@.len() && self.source_id() == Some(
                        self.devices@[s as int].id@,
                    ),
                    None => self.source_id() is None,
                },
                texts(ids@) == desired_of(
                    self.devices@,
                    self.config.targets@.take(i as int),
                    self.source_id(),
                ),
            decreases self.config.targets@.len() - i,
        {
            let id = &self.config.targets[i].id;
            let connected = device_index(&self.devices, id).is_some();
            let is_source = match source {
                Some(s) => self.devices[s].id == *id,
                None => false,
            };
            assert(connected == is_connected(self.devices@, id@));
            let ghost before = ids@;
            if connected && !is_source {
                ids.push(id.clone());
            }
            proof {
                let wanted = is_desired(self.devices@, self.source_id());
                lemma_filter_step(self.config.targets@, i as int, wanted);
                if connected && !is_source {
                    assert(texts(ids@) =~= texts(before).push(id@));
                }
                assert(texts(ids@) =~= desired_of(
                    self.devices@,
                    self.config.targets@.take(i + 1),
                    self.source_id(),
                ));
            }
            i += 1;
        }
        assert(self.config.targets@.take(i as int) =~= self.config.targets@);
        ids
    }

    /// Decides how to start the engine: what to start it with, or the message
    /// why it cannot be started.
    pub fn start_engine(&mut self) -> (request: Option<StartRequest>)
        ensures
            final(self).devices == old(self).devices,
            final(self).config == old(self).config,
            final(self).dirty_since == old(self).dirty_since,
            final(self).engine == old(self).engine,
            final(self).engine_notice is None,
            start_outcome(*final(self), old(self).last_error, request),
    {
        self.engine_notice = None;
        let source: usize = match self.source_index() {
            Some(i) => i,
            None => {
                self.last_error = Some(
                    "source device is not connected (or no default device)".to_owned(),
                );
                return None;
            },
        };
        let desired = self.desired_target_ids();
        if desired.len() == 0 {
            self.last_error = Some("no connected target devices selected".to_owned());
            return None;
        }
        let mut targets: Vec<Target> = Vec::new();
        let mut i: usize = 0;
        while i < desired.len()
            invariant
                i <= desired@.len(),
                texts(desired@) == self.desired_ids(),
                targets@.len() == i,
                forall|k: int|
                    0 <= k < i ==> is_target_for(
                        #[trigger] targets@[k],
                        self.devices@,
                        self.config.targets@,
                        self.desired_ids()[k],
                    ),
            decreases desired@.len() - i,
        {
            let id = &desired[i];
            proof {
                assert(self.desired_ids()[i as int] == id@);
                law_desired_targets(*self, id@);
            }
            let name = match device_index(&self.devices, id) {
                Some(d) => self.devices[d].name.clone(),
                None => String::new(),
            };
            let volume: u8 = match self.config.target(id.as_str()) {
                Some(target) => target.volume,
                None => FULL_VOLUME,
            };
            targets.push(Target { id: id.clone(), name, volume });
            i += 1;
        }
        Some(
            StartRequest {
                source_id: self.devices[source].id.clone(),
                sample_rate: self.devices[source].mix_format.sample_rate,
                targets,
            },
        )
    }

    /// Takes the result of starting the requested engine.
    pub fn engine_started(&mut self, request: StartRequest, result: Result<(), String>)
        ensures
            final(self).devices == old(self).devices,
            final(self).config == old(self).config,
            final(self).dirty_since == old(self).dirty_since,
            final(self).engine_notice == old(self).engine_notice,
            match result {
                Ok(_) => {
                    &&& final(self).last_error is None
                    &&& final(self).engine is Some
                    &&& final(self).engine->Some_0.source_id == request.source_id
                    &&& texts(final(self).engine->Some_0.target_ids@) == request.targets@.map_values(
                        |t: Target| t.id@,
                    )
                },
                Err(error) => {
                    &&& final(self).engine == old(self).engine
                    &&& final(self).last_error is Some
                    &&& final(self).last_error->Some_0@ == "engine start failed: "@ + error@
                },
            },
    {
        match result {
            Ok(_) => {
                let mut target_ids: Vec<String> = Vec::new();
                let mut i: usize = 0;
                while i < request.targets.len()
                    invariant
                        i <= request.targets@.len(),
                        target_ids@.len() == i,
                        forall|k: int|
                            0 <= k < i ==> (#[trigger] target_ids@[k])@
                                == request.targets@[k].id@,
                    decreases request.targets@.len() - i,
                {
                    target_ids.push(request.targets[i].id.clone());
                    i += 1;
                }
                assert(texts(target_ids@) =~= request.targets@.map_values(|t: Target| t.id@));
                self.last_error = None;
                self.engine = Some(ActiveEngine { source_id: request.source_id, target_ids });
            },
            Err(error) => {
                self.last_error = Some(prefixed("engine start failed: ", error.as_str()));
            },
        }
    }

    /// Forgets the running engine; the result says whether there was one to
    /// stop.
    pub fn stop_engine(&mut self) -> (was_running: bool)
        ensures
            was_running == (old(self).engine is Some),
            *final(self) == (Session { engine: None, ..*old(self) }),
    {
        let was_running = self.engine.is_some();
        self.engine = None;
        was_running
    }

    /// Applies a change to a running engine: stops it and starts it anew.
    pub fn restart_engine_if_running(&mut self) -> (action: EngineAction)
        ensures
            final(self).devices == old(self).devices,
            final(self).config == old(self).config,
            final(self).dirty_since == old(self).dirty_since,
            restart_outcome(*old(self), *final(self), action),
    {
        if self.stop_engine() {
            EngineAction::Restart(self.start_engine())
        } else {
            EngineAction::Keep
        }
    }

    /// A session at program start, from the results of the set-up steps. The
    /// latest problem is the one that is shown; without a readable config it
    /// starts with the default one.
    pub fn new(
        com: Result<(), String>,
        config: Result<Config, String>,
        watcher: Result<(), String>,
        devices: Result<Vec<DeviceInfo>, String>,
    ) -> (session: Self)
        ensures
            match config {
                Ok(config) => session.config == config,
                Err(_) => session.config.source is None && session.config.targets@ == Seq::<
                    TargetConfig,
                >::empty(),
            },
            match devices {
                Ok(devices) => session.devices == devices,
                Err(_) => session.devices@ == Seq::<DeviceInfo>::empty(),
            },
            session.dirty_since is None,
            session.engine is None,
            session.engine_notice is None,
            match (com, config, watcher, devices) {
                (_, _, _, Err(error)) => {
                    &&& session.last_error is Some
                    &&& session.last_error->Some_0@ == "device enumeration failed: "@ + error@
                },
                (_, _, Err(error), Ok(_)) => {
                    &&& session.last_error is Some
                    &&& session.last_error->Some_0@ == "device notifications unavailable: "@ + error@
                },
                (_, Err(error), Ok(_), Ok(_)) => {
                    &&& session.last_error is Some
                    &&& session.last_error->Some_0@ == "config not loaded: "@ + error@
                },
                (Err(error), Ok(_), Ok(_), Ok(_)) => {
                    &&& session.last_error is Some
                    &&& session.last_error->Some_0@ == "COM initialization failed: "@ + error@
                },
                (Ok(_), Ok(_), Ok(_), Ok(_)) => session.last_error is None,
            },
    {
        let mut last_error: Option<String> = None;
        match com {
            Ok(_) => {},
            Err(error) => {
                last_error = Some(prefixed("COM initialization failed: ", error.as_str()));
            },
        }
        let config = match config {
            Ok(config) => config,
            Err(error) => {
                last_error = Some(prefixed("config not loaded: ", error.as_str()));
                Config::default()
            },
        };
        match watcher {
            Ok(_) => {},
            Err(error) => {
                last_error = Some(prefixed("device notifications unavailable: ", error.as_str()));
            },
        }
        let mut session = Session {
            devices: Vec::new(),
            config,
            dirty_since: None,
            engine: None,
            last_error,
            engine_notice: None,
        };
        session.refresh_devices(devices);
        session
    }

    /// Takes the result of an enumeration; if it failed, the devices known
    /// before stay.
    pub fn refresh_devices(&mut self, devices: Result<Vec<DeviceInfo>, String>)
        ensures
            match devices {
                Ok(devices) => *final(self) == (Session { devices, ..*old(self) }),
                Err(error) => {
                    &&& final(self).devices == old(self).devices
                    &&& final(self).config == old(self).config
                    &&& final(self).dirty_since == old(self).dirty_since
                    &&& final(self).engine == old(self).engine
                    &&& final(self).engine_notice == old(self).engine_notice
                    &&& final(self).last_error is Some
                    &&& final(self).last_error->Some_0@ == "device enumeration failed: "@ + error@
                },
            },
    {
        match devices {
            Ok(devices) => {
                self.devices = devices;
            },
            Err(error) => {
                self.last_error = Some(prefixed("device enumeration failed: ", error.as_str()));
            },
        }
    }

    /// The config changed now.
    pub fn mark_dirty(&mut self, now: u64)
        ensures
            *final(self) == (Session { dirty_since: Some(now), ..*old(self) }),
    {
        self.dirty_since = Some(now);
    }

    /// Whether the config is to be saved now: it changed, and the change is
    /// old enough or saving is forced.
    pub fn save_due(&self, now: u64, force: bool) -> (due: bool)
        ensures
            due == is_save_due(self.dirty_since, now, force),
    {
        match self.dirty_since {
            Some(since) => force || now.saturating_sub(since) >= SAVE_DEBOUNCE_NANOS,
            None => false,
        }
    }

    /// Takes the result of saving the config. A failed save is reported and
    /// not repeated until the next change.
    pub fn save_done(&mut self, result: Result<(), String>)
        ensures
            match result {
                Ok(_) => *final(self) == (Session { dirty_since: None, ..*old(self) }),
                Err(error) => {
                    &&& final(self).devices == old(self).devices
                    &&& final(self).config == old(self).config
                    &&& final(self).dirty_since is None
                    &&& final(self).engine == old(self).engine
                    &&& final(self).engine_notice == old(self).engine_notice
                    &&& final(self).last_error is Some
                    &&& final(self).last_error->Some_0@ == "saving config failed: "@ + error@
                },
            },
    {
        match result {
            Ok(_) => {},
            Err(error) => {
                self.last_error = Some(prefixed("saving config failed: ", error.as_str()));
            },
        }
        self.dirty_since = None;
    }

    /// The running engine no longer captures the session's source or no longer
    /// plays on exactly its desired targets.
    pub open spec fn is_outdated(&self) -> bool {
        &&& self.engine is Some
        &&& {
            ||| self.source_id() != Some(self.engine->Some_0.source_id@)
            ||| self.desired_ids().to_multiset() != texts(
                self.engine->Some_0.target_ids@,
            ).to_multiset()
        }
    }

    /// Called after device arrivals/removals and a refresh: adapts a running
    /// engine (rejoin replugged targets, drop removed ones, follow a changed
    /// default device when it is the implicit source).
    pub fn reconcile_after_device_change(&mut self) -> (action: EngineAction)
        ensures
            final(self).devices == old(self).devices,
            final(self).config == old(self).config,
            final(self).dirty_since == old(self).dirty_since,
            if old(self).is_outdated() {
                restart_outcome(*old(self), *final(self), action)
            } else {
                action is Keep && *final(self) == *old(self)
            },
            old(self).engine matches Some(engine) ==> {
                let same_source = old(self).source_id() == Some(engine.source_id@);
                let same_targets = old(self).desired_ids().to_multiset() == texts(
                    engine.target_ids@,
                ).to_multiset();
                &&& action is Restart <==> !same_source || !same_targets
                &&& action is Restart ==> final(self).engine is None
            },
    {
        let outdated = match &self.engine {
            None => false,
            Some(running) => {
                let source_changed = match self.source_index() {
                    Some(i) => self.devices[i].id != running.source_id,
                    None => true,
                };
                let desired = self.desired_target_ids();
                source_changed || !same_ids(&running.target_ids, desired)
            },
        };
        if outdated {
            self.restart_engine_if_running()
        } else {
            EngineAction::Keep
        }
    }

    /// Detects an engine that stopped on its own (source failure/removal):
    /// `alive` says whether the running engine still runs. The result says
    /// whether it is to be cleaned up.
    pub fn poll_engine_health(&mut self, alive: bool) -> (died: bool)
        ensures
            died == (old(self).engine is Some && !alive),
            !died ==> *final(self) == *old(self),
            died ==> {
                &&& final(self).devices == old(self).devices
                &&& final(self).config == old(self).config
                &&& final(self).dirty_since == old(self).dirty_since
                &&& final(self).last_error == old(self).last_error
                &&& final(self).engine is None
                &&& final(self).engine_notice is Some
                &&& final(self).engine_notice->Some_0@
                    == "engine stopped: the source failed or was removed"@
            },
    {
        let died = self.engine.is_some() && !alive;
        if died {
            self.engine = None;
            self.engine_notice = Some(
                "engine stopped: the source failed or was removed".to_owned(),
            );
        }
        died
    }

    fn drop_targets(&mut self, id: &String)
        ensures
            final(self).config.targets@ == without(old(self).config.targets@, id@),
            final(self).config.source == old(self).config.source,
            final(self).devices == old(self).devices,
            final(self).dirty_since == old(self).dirty_since,
            final(self).engine == old(self).engine,
            final(self).last_error == old(self).last_error,
            final(self).engine_notice == old(self).engine_notice,
    {
        let mut kept: Vec<TargetConfig> = Vec::new();
        let mut i: usize = 0;
        proof {
            reveal(Seq::filter);
        }
        assert(kept@ =~= without(self.config.targets@.take(0), id@));
        while i < self.config.targets.len()
            invariant
                *self == *old(self),
                i <= self.config.targets@.len(),
                kept@ == without(self.config.targets@.take(i as int), id@),
            decreases self.config.targets@.len() - i,
        {
            proof {
                lemma_filter_step(self.config.targets@, i as int, is_of_other(id@));
            }
            if self.config.targets[i].id != *id {
                kept.push(self.config.targets[i].clone());
            }
            i += 1;
        }
        assert(self.config.targets@.take(i as int) =~= self.config.targets@);
        self.config.targets = kept;
    }

    /// Selects or deselects a device as a target. A newly selected target
    /// plays at full volume; a running engine is restarted.
    pub fn set_target_enabled(&mut self, device: &DeviceInfo, enabled: bool, now: u64) -> (action:
        EngineAction)
        ensures
            final(self).devices == old(self).devices,
            final(self).config.source == old(self).config.source,
            is_toggled(
                old(self).config.targets@,
                final(self).config.targets@,
                device.id@,
                device.name@,
                enabled,
            ),
            final(self).dirty_since == Some(now),
            restart_outcome(*old(self), *final(self), action),
    {
        if enabled {
            let known = self.config.target(device.id.as_str()).is_some();
            assert(known == crate::config::has_target(self.config.targets@, device.id@));
            if !known {
                self.config.targets.push(
                    TargetConfig {
                        id: device.id.clone(),
                        name: device.name.clone(),
                        volume: FULL_VOLUME,
                        delay_ms: 0,
                    },
                );
                assert(self.config.targets@.drop_last() =~= old(self).config.targets@);
            }
        } else {
            self.drop_targets(&device.id);
        }
        self.mark_dirty(now);
        self.restart_engine_if_running()
    }

    /// Removes a target that is not connected from the config.
    pub fn remove_target(&mut self, id: &String, now: u64)
        ensures
            final(self).config.targets@ == without(old(self).config.targets@, id@),
            final(self).config.source == old(self).config.source,
            final(self).dirty_since == Some(now),
            final(self).devices == old(self).devices,
            final(self).engine == old(self).engine,
            final(self).last_error == old(self).last_error,
            final(self).engine_notice == old(self).engine_notice,
    {
        self.drop_targets(id);
        self.mark_dirty(now);
    }

    /// Sets the volume of a target in the config; the result is the target's
    /// index in the running engine, whose volume is to be set as well.
    pub fn set_target_volume(&mut self, device_id: &str, percent: u8, now: u64) -> (running: Option<
        usize,
    >)
        ensures
            final(self).devices == old(self).devices,
            final(self).config.source == old(self).config.source,
            final(self).engine == old(self).engine,
            final(self).last_error == old(self).last_error,
            final(self).engine_notice == old(self).engine_notice,
            is_volume_set(
                old(self).config.targets@,
                final(self).config.targets@,
                device_id@,
                percent,
            ),
            if crate::config::has_target(old(self).config.targets@, device_id@) {
                &&& final(self).dirty_since == Some(now)
                &&& exists|i: int| #[trigger]
                    crate::config::is_first(old(self).config.targets@, device_id@, i)
                        && final(self).config.targets@ == old(self).config.targets@.update(
                        i,
                        TargetConfig { volume: percent, ..old(self).config.targets@[i] },
                    )
            } else {
                &&& final(self).dirty_since == old(self).dirty_since
                &&& final(self).config == old(self).config
            },
            match old(self).engine {
                Some(engine) => running == engine.position(device_id@),
                None => running is None,
            },
    {
        let known = match self.config.target_mut(device_id) {
            Some(target) => {
                target.volume = percent;
                true
            },
            None => false,
        };
        if known {
            self.mark_dirty(now);
        }
        match &self.engine {
            Some(engine) => engine.index_of(device_id),
            None => None,
        }
    }

    /// Chooses the source; `None` is the default render device. A changed
    /// source restarts a running engine.
    pub fn select_source(&mut self, source: Option<String>, now: u64) -> (action: EngineAction)
        ensures
            final(self).devices == old(self).devices,
            if same_source(source, old(self).config.source) {
                action is Keep && *final(self) == *old(self)
            } else {
                &&& final(self).config.source == source
                &&& final(self).config.targets == old(self).config.targets
                &&& final(self).dirty_since == Some(now)
                &&& restart_outcome(*old(self), *final(self), action)
            },
    {
        let same = match (&source, &self.config.source) {
            (Some(a), Some(b)) => *a == *b,
            (None, None) => true,
            _ => false,
        };
        if same {
            return EngineAction::Keep;
        }
        self.config.source = source;
        self.mark_dirty(now);
        self.restart_engine_if_running()
    }

    /// What the source selection shows.
    pub open spec fn selection_text(&self) -> Seq<char> {
        match self.config.source {
            None => "Default render device"@,
            Some(id) => match first_source(self.devices@, self.config.source, 0) {
                Some(i) => self.devices@[i].name@,
                None => id@ + " (not connected)"@,
            },
        }
    }

    /// The label of the selected source; a source that is not connected is
    /// shown by its ID.
    pub fn selected_source_label(&self) -> (label: String)
        ensures
            label@ == self.selection_text(),
    {
        match &self.config.source {
            None => "Default render device".to_owned(),
            Some(id) => match self.source_index() {
                Some(i) => self.devices[i].name.clone(),
                None => {
                    let mut label = id.clone();
                    label.append(" (not connected)");
                    label
                },
            },
        }
    }

    /// The line that says what is captured, if there is a source.
    pub fn capture_label(&self) -> (label: Option<String>)
        ensures
            match first_source(self.devices@, self.config.source, 0) {
                Some(i) => {
                    let device = self.devices@[i];
                    &&& label is Some
                    &&& label->Some_0@ == "capturing: "@ + device.name@ + " ("@
                        + device.mix_format.text() + ")"@
                },
                None => label is None,
            },
    {
        match self.source_index() {
            Some(i) => {
                let device = &self.devices[i];
                let mut label = prefixed("capturing: ", device.name.as_str());
                label.append(" (");
                let format = device.mix_format.to_text();
                label.append(format.as_str());
                label.append(")");
                Some(label)
            },
            None => None,
        }
    }

    /// Indices of the devices that are offered as targets: all but the source.
    pub fn target_rows(&self) -> (rows: Vec<usize>)
        ensures
            rows@ == rows_of(self.devices@, self.source_id(), self.devices@.len()),
    {
        let source = self.source_index();
        let mut rows: Vec<usize> = Vec::new();
        let mut i: usize = 0;
        while i < self.devices.len()
            invariant
                i <= self.devices@.len(),
                match source {
                    Some(s) => s < self.devices@.len() && self.source_id() == Some(
                        self.devices@[s as int].id@,
                    ),
                    None => self.source_id() is None,
                },
                rows@ == rows_of(self.devices@, self.source_id(), i as nat),
            decreases self.devices@.len() - i,
        {
            let is_source = match source {
                Some(s) => self.devices[s].id == self.devices[i].id,
                None => false,
            };
            if !is_source {
                rows.push(i);
            }
            i += 1;
        }
        rows
    }

    /// Volume of a device that is selected as a target.
    pub fn selected_volume(&self, device_id: &str) -> (volume: Option<u8>)
        ensures
            match volume {
                Some(volume) => exists|i: int| #[trigger]
                    crate::config::is_first(self.config.targets@, device_id@, i) && volume
                        == self.config.targets@[i].volume,
                None => !crate::config::has_target(self.config.targets@, device_id@),
            },
    {
        match self.config.target(device_id) {
            Some(target) => Some(target.volume),
            None => None,
        }
    }

    /// Configured but currently unplugged targets; they stay listed so that
    /// the user can still remove them.
    pub fn missing_targets(&self) -> (missing: Vec<TargetConfig>)
        ensures
            missing@ == missing_of(self.devices@, self.config.targets@),
    {
        let mut missing: Vec<TargetConfig> = Vec::new();
        let mut i: usize = 0;
        proof {
            reveal(Seq::filter);
        }
        assert(missing@ =~= missing_of(self.devices@, self.config.targets@.take(0)));
        while i < self.config.targets.len()
            invariant
                i <= self.config.targets@.len(),
                missing@ == missing_of(self.devices@, self.config.targets@.take(i as int)),
            decreases self.config.targets@.len() - i,
        {
            let target = &self.config.targets[i];
            let connected = device_index(&self.devices, &target.id).is_some();
            assert(connected == is_connected(self.devices@, target.id@));
            proof {
                lemma_filter_step(self.config.targets@, i as int, is_missing(self.devices@));
            }
            if !connected {
                missing.push(target.clone());
            }
            i += 1;
        }
        assert(self.config.targets@.take(i as int) =~= self.config.targets@);
        missing
    }
}

/// The label of a device in the source selection.
pub fn device_label(device: &DeviceInfo) -> (label: String)
    ensures
        label@ == device.name@ + (if device.is_default {
            " (default)"@
        } else {
            Seq::<char>::empty()
        }),
{
    let mut label = device.name.clone();
    if device.is_default {
        label.append(" (default)");
    }
    label
}

/// The label of a target that is not connected: its name, or its ID if no name
/// is known.
pub fn missing_label(target: &TargetConfig) -> (label: String)
    ensures
        label@ == (if target.name@.len() == 0 {
            target.id@
        } else {
            target.name@
        }) + " (not connected)"@,
{
    let mut label = if target.name.as_str().is_empty() {
        target.id.clone()
    } else {
        target.name.clone()
    };
    label.append(" (not connected)");
    label
}

/// Indices of those of the first `count` devices that are not the source.
pub open spec fn rows_of(
    devices: Seq<DeviceInfo>,
    source_id: Option<Seq<char>>,
    count: nat,
) -> Seq<usize>
    decreases count,
{
    if count == 0 {
        Seq::empty()
    } else {
        let before = rows_of(devices, source_id, (count - 1) as nat);
        if source_id == Some(devices[count - 1].id@) {
            before
        } else {
            before.push((count - 1) as usize)
        }
    }
}

impl ActiveEngine {
    /// Index of the first target with this ID.
    pub open spec fn position(self, id: Seq<char>) -> Option<usize> {
        match first_text(texts(self.target_ids@), id, 0) {
            Some(i) => Some(i as usize),
            None => None,
        }
    }

    /// Index of a device among the engine's targets; volumes and counters of
    /// the running engine are kept in this order.
    pub fn index_of(&self, device_id: &str) -> (index: Option<usize>)
        ensures
            index == self.position(device_id@),
            index is Some ==> index->Some_0 < self.target_ids@.len()
                && self.target_ids@[index->Some_0 as int]@ == device_id@,
            forall|k: int|
                0 <= k < self.target_ids@.len() && (index is None || k < index->Some_0) ==> (
                #[trigger] self.target_ids@[k])@ != device_id@,
    {
        let key = device_id.to_owned();
        let mut i: usize = 0;
        while i < self.target_ids.len()
            invariant
                i <= self.target_ids@.len(),
                key@ == device_id@,
                forall|k: int| 0 <= k < i ==> (#[trigger] self.target_ids@[k])@ != device_id@,
                first_text(texts(self.target_ids@), device_id@, 0) == first_text(
                    texts(self.target_ids@),
                    device_id@,
                    i as int,
                ),
            decreases self.target_ids@.len() - i,
        {
            if self.target_ids[i] == key {
                return Some(i);
            }
            i += 1;
        }
        None
    }
}

/// Index of the first of `ids` from `from` on that is `id`.
pub open spec fn first_text(ids: Seq<Seq<char>>, id: Seq<char>, from: int) -> Option<int>
    decreases ids.len() - from,
{
    if from < 0 || from >= ids.len() {
        None
    } else if ids[from] == id {
        Some(from)
    } else {
        first_text(ids, id, from + 1)
    }
}

pub open spec fn same_source(a: Option<String>, b: Option<String>) -> bool {
    match (a, b) {
        (Some(a), Some(b)) => a@ == b@,
        (None, None) => true,
        _ => false,
    }
}

/// The targets after a device was selected (appended with full volume, unless
/// it is there already) or deselected.
pub open spec fn is_toggled(
    before: Seq<TargetConfig>,
    after: Seq<TargetConfig>,
    id: Seq<char>,
    name: Seq<char>,
    enabled: bool,
) -> bool {
    if !enabled {
        after == without(before, id)
    } else if crate::config::has_target(before, id) {
        after == before
    } else {
        &&& after.len() == before.len() + 1
        &&& after.drop_last() == before
        &&& after.last().id@ == id
        &&& after.last().name@ == name
        &&& after.last().volume == FULL_VOLUME
        &&& after.last().delay_ms == 0
    }
}

fn prefixed(prefix: &str, text: &str) -> (out: String)
    ensures
        out@ == prefix@ + text@,
{
    let mut out = prefix.to_owned();
    out.append(text);
    out
}

/// A target for the device `id`: with the device's name and the volume that
/// the config has for it.
pub open spec fn is_target_for(
    target: Target,
    devices: Seq<DeviceInfo>,
    targets: Seq<TargetConfig>,
    id: Seq<char>,
) -> bool {
    &&& target.id@ == id
    &&& exists|i: int| #[trigger]
        is_first_device(devices, id, i) && target.name@ == devices[i].name@
    &&& exists|i: int| #[trigger]
        crate::config::is_first(targets, id, i) && target.volume == targets[i].volume
}

/// A request to capture the session's source and to play on its desired
/// targets.
pub open spec fn is_start_request(session: Session, request: StartRequest) -> bool {
    &&& first_source(session.devices@, session.config.source, 0) matches Some(i)
    &&& request.source_id@ == session.devices@[i].id@
    &&& request.sample_rate == session.devices@[i].mix_format.sample_rate
    &&& request.targets@.len() == session.desired_ids().len()
    &&& forall|k: int|
        0 <= k < request.targets@.len() ==> is_target_for(
            #[trigger] request.targets@[k],
            session.devices@,
            session.config.targets@,
            session.desired_ids()[k],
        )
}

/// What a decision to start the engine leaves behind: a request, or none and
/// the reason. `error` is the message from before.
pub open spec fn start_outcome(
    session: Session,
    error: Option<String>,
    request: Option<StartRequest>,
) -> bool {
    if session.source_id() is None {
        &&& request is None
        &&& session.last_error is Some
        &&& session.last_error->Some_0@ == "source device is not connected (or no default device)"@
    } else if session.desired_ids().len() == 0 {
        &&& request is None
        &&& session.last_error is Some
        &&& session.last_error->Some_0@ == "no connected target devices selected"@
    } else {
        &&& request is Some
        &&& is_start_request(session, request->Some_0)
        &&& session.last_error == error
    }
}

/// What a restart leaves behind: nothing happens to an engine that is not
/// running; a running one is stopped and started anew with what the session
/// says now.
pub open spec fn restart_outcome(before: Session, after: Session, action: EngineAction) -> bool {
    &&& after.engine is None
    &&& match before.engine {
        None => {
            &&& action is Keep
            &&& after.last_error == before.last_error
            &&& after.engine_notice == before.engine_notice
        },
        Some(_) => {
            &&& after.engine_notice is None
            &&& action matches EngineAction::Restart(request)
            &&& start_outcome(after, before.last_error, request)
        },
    }
}

/// The engine captures the configured source, which has to be present, or else
/// the default device; it has nothing to capture only if there is no such
/// device.
pub proof fn law_effective_source(session: Session)
    ensures
        match (session.source_id(), session.config.source) {
            (Some(id), Some(source)) => id == source@ && is_connected(session.devices@, id),
            (Some(id), None) => exists|i: int|
                {
                    &&& 0 <= i < session.devices@.len()
                    &&& (#[trigger] session.devices@[i]).id@ == id
                    &&& session.devices@[i].is_default
                },
            (None, Some(source)) => !is_connected(session.devices@, source@),
            (None, None) => forall|i: int|
                0 <= i < session.devices@.len() ==> !(#[trigger] session.devices@[i]).is_default,
        },
{
    lemma_first_source(session.devices@, session.config.source, 0);
}

/// A volume that was set is read back, and the entries of other devices stay as
/// they are.
pub proof fn law_volume_is_read_back(
    before: Seq<TargetConfig>,
    id: Seq<char>,
    i: int,
    percent: u8,
)
    requires
        crate::config::is_first(before, id, i),
    ensures
        ({
            let after = before.update(i, TargetConfig { volume: percent, ..before[i] });
            &&& crate::config::is_first(after, id, i)
            &&& after[i].volume == percent
            &&& after.len() == before.len()
            &&& forall|k: int|
                0 <= k < before.len() && before[k].id@ != id ==> #[trigger] after[k] == before[k]
        }),
{
    let after = before.update(i, TargetConfig { volume: percent, ..before[i] });
    assert forall|j: int| 0 <= j < i implies (#[trigger] after[j]).id@ != id by {
        assert(after[j] == before[j]);
    }
}

/// The engine plays on a device exactly if it is configured as a target,
/// currently present, and not the loopback source.
pub proof fn law_desired_targets(session: Session, id: Seq<char>)
    ensures
        session.desired_ids().contains(id) <==> {
            &&& crate::config::has_target(session.config.targets@, id)
            &&& is_connected(session.devices@, id)
            &&& session.source_id() != Some(id)
        },
{
    broadcast use vstd::seq_lib::group_filter_ensures;

    let targets = session.config.targets@;
    let wanted = is_desired(session.devices@, session.source_id());
    let kept = targets.filter(wanted);
    lemma_filter_from(targets, wanted);
    if session.desired_ids().contains(id) {
        let k = choose|k: int|
            0 <= k < session.desired_ids().len() && session.desired_ids()[k] == id;
        assert(kept[k].id@ == id);
        assert(wanted(kept[k]));
        assert(targets.contains(kept[k]));
    }
    if crate::config::has_target(targets, id) && is_connected(session.devices@, id)
        && session.source_id() != Some(id) {
        let i = choose|i: int| 0 <= i < targets.len() && (#[trigger] targets[i]).id@ == id;
        assert(kept.contains(targets[i]));
        let k = choose|k: int| 0 <= k < kept.len() && kept[k] == targets[i];
        assert(session.desired_ids()[k] == id);
    }
}

/// What a filter keeps comes from the sequence.
proof fn lemma_filter_from(targets: Seq<TargetConfig>, wanted: spec_fn(TargetConfig) -> bool)
    ensures
        forall|k: int|
            0 <= k < targets.filter(wanted).len() ==> targets.contains(
                #[trigger] targets.filter(wanted)[k],
            ),
    decreases targets.len(),
{
    reveal(Seq::filter);
    if targets.len() > 0 {
        let before = targets.drop_last();
        lemma_filter_from(before, wanted);
        assert forall|k: int| 0 <= k < targets.filter(wanted).len() implies targets.contains(
            #[trigger] targets.filter(wanted)[k],
        ) by {
            if k < before.filter(wanted).len() {
                let t = before.filter(wanted)[k];
                assert(before.contains(t));
                let i = choose|i: int| 0 <= i < before.len() && before[i] == t;
                assert(targets[i] == t);
            } else {
                assert(targets[targets.len() - 1] == targets.filter(wanted)[k]);
            }
        }
    }
}

proof fn lemma_without_absent(targets: Seq<TargetConfig>, id: Seq<char>)
    requires
        !crate::config::has_target(targets, id),
    ensures
        without(targets, id) == targets,
    decreases targets.len(),
{
    reveal(Seq::filter);
    if targets.len() > 0 {
        let before = targets.drop_last();
        assert forall|i: int| 0 <= i < before.len() implies (#[trigger] before[i]).id@ != id by {
            assert(before[i] == targets[i]);
        }
        lemma_without_absent(before, id);
        assert(targets[targets.len() - 1].id@ != id);
        assert(before.push(targets.last()) =~= targets);
    }
}

/// Deselecting a device takes every entry of it out of the config and leaves
/// every other device in.
pub proof fn law_deselected_is_gone(targets: Seq<TargetConfig>, id: Seq<char>, other: Seq<char>)
    requires
        other != id,
    ensures
        !crate::config::has_target(without(targets, id), id),
        crate::config::has_target(without(targets, id), other) <==> crate::config::has_target(
            targets,
            other,
        ),
{
    broadcast use vstd::seq_lib::group_filter_ensures;

    let wanted = is_of_other(id);
    let kept = without(targets, id);
    lemma_filter_from(targets, wanted);
    assert forall|k: int| 0 <= k < kept.len() implies (#[trigger] kept[k]).id@ != id by {
        assert(wanted(kept[k]));
    }
    if crate::config::has_target(kept, other) {
        let k = choose|k: int| 0 <= k < kept.len() && (#[trigger] kept[k]).id@ == other;
        assert(targets.contains(kept[k]));
        let i = choose|i: int| 0 <= i < targets.len() && targets[i] == kept[k];
        assert(targets[i].id@ == other);
    }
    if crate::config::has_target(targets, other) {
        let i = choose|i: int| 0 <= i < targets.len() && (#[trigger] targets[i]).id@ == other;
        assert(wanted(targets[i]));
        assert(kept.contains(targets[i]));
        let k = choose|k: int| 0 <= k < kept.len() && kept[k] == targets[i];
        assert(kept[k].id@ == other);
    }
}

/// Selecting a device that was not selected and deselecting it again leaves
/// the targets as they were; selecting it twice is selecting it once.
pub proof fn law_select_deselect(
    before: Seq<TargetConfig>,
    selected: Seq<TargetConfig>,
    after: Seq<TargetConfig>,
    id: Seq<char>,
    name: Seq<char>,
)
    requires
        !crate::config::has_target(before, id),
        is_toggled(before, selected, id, name, true),
    ensures
        is_toggled(selected, after, id, name, false) ==> after == before,
        is_toggled(selected, after, id, name, true) ==> after == selected,
{
    reveal(Seq::filter);
    lemma_without_absent(before, id);
    assert(selected[selected.len() - 1].id@ == id);
    assert(without(selected, id) == without(before, id));
}

/// An engine that was just started with what the session asked for is up to
/// date: another look at unchanged devices and config does not restart it.
pub proof fn law_fresh_engine_is_current(
    session: Session,
    request: StartRequest,
    engine: ActiveEngine,
)
    requires
        is_start_request(session, request),
        engine.source_id@ == request.source_id@,
        texts(engine.target_ids@) == request.targets@.map_values(|t: Target| t.id@),
    ensures
        !(Session { engine: Some(engine), ..session }).is_outdated(),
{
    assert(texts(engine.target_ids@) =~= session.desired_ids()) by {
        assert forall|k: int| 0 <= k < request.targets@.len() implies #[trigger] texts(
            engine.target_ids@,
        )[k] == session.desired_ids()[k] by {
            assert(is_target_for(
                request.targets@[k],
                session.devices@,
                session.config.targets@,
                session.desired_ids()[k],
            ));
        }
    }
    assert((Session { engine: Some(engine), ..session }).desired_ids() == session.desired_ids());
}

/// A running engine is restarted when a configured target that it does not
/// play on is present, and when one that it plays on is gone.
pub proof fn law_replug_and_unplug_restart(session: Session, id: Seq<char>)
    requires
        session.engine is Some,
    ensures
        ({
            let playing = texts(session.engine->Some_0.target_ids@).contains(id);
            let wanted = {
                &&& crate::config::has_target(session.config.targets@, id)
                &&& is_connected(session.devices@, id)
                &&& session.source_id() != Some(id)
            };
            wanted != playing ==> session.is_outdated()
        }),
{
    broadcast use vstd::seq_lib::group_to_multiset_ensures;

    law_desired_targets(session, id);
    let playing = texts(session.engine->Some_0.target_ids@);
    if session.desired_ids().contains(id) != playing.contains(id) {
        assert((session.desired_ids().to_multiset().count(id) > 0) != (playing.to_multiset().count(
            id,
        ) > 0));
    }
}

/// A start request never plays on its own source.
pub proof fn law_source_is_not_a_target(session: Session, request: StartRequest, k: int)
    requires
        is_start_request(session, request),
        0 <= k < request.targets@.len(),
    ensures
        request.targets@[k].id@ != request.source_id@,
{
    assert(is_target_for(
        request.targets@[k],
        session.devices@,
        session.config.targets@,
        session.desired_ids()[k],
    ));
    assert(session.desired_ids().contains(session.desired_ids()[k]));
    law_desired_targets(session, session.desired_ids()[k]);
}

/// Every configured target is shown: with a row if it is present (unless it is
/// the source), else in the list of missing targets.
pub proof fn law_every_target_is_shown(session: Session, i: int)
    requires
        0 <= i < session.config.targets@.len(),
    ensures
        ({
            let target = session.config.targets@[i];
            &&& !is_connected(session.devices@, target.id@) <==> missing_of(
                session.devices@,
                session.config.targets@,
            ).contains(target)
            &&& is_connected(session.devices@, target.id@) && session.source_id() != Some(
                target.id@,
            ) ==> exists|d: int|
                {
                    &&& 0 <= d < session.devices@.len()
                    &&& (#[trigger] session.devices@[d]).id@ == target.id@
                    &&& rows_of(
                        session.devices@,
                        session.source_id(),
                        session.devices@.len(),
                    ).contains(d as usize)
                }
        }),
{
    broadcast use vstd::seq_lib::group_filter_ensures;

    let target = session.config.targets@[i];
    let unplugged = is_missing(session.devices@);
    let missing = session.config.targets@.filter(unplugged);
    if missing.contains(target) {
        let k = choose|k: int| 0 <= k < missing.len() && missing[k] == target;
        assert(unplugged(missing[k]));
    }
    if unplugged(target) {
        assert(missing.contains(session.config.targets@[i]));
    }
    if is_connected(session.devices@, target.id@) && session.source_id() != Some(target.id@) {
        let d = choose|d: int|
            0 <= d < session.devices@.len() && (#[trigger] session.devices@[d]).id@ == target.id@;
        lemma_rows(session.devices@, session.source_id(), session.devices@.len(), d);
    }
}

proof fn lemma_rows(
    devices: Seq<DeviceInfo>,
    source_id: Option<Seq<char>>,
    count: nat,
    d: int,
)
    requires
        0 <= d < count <= devices.len(),
        source_id != Some(devices[d].id@),
    ensures
        rows_of(devices, source_id, count).contains(d as usize),
    decreases count,
{
    let rows = rows_of(devices, source_id, count);
    if d == count - 1 {
        assert(rows[rows.len() - 1] == d as usize);
    } else {
        let before = rows_of(devices, source_id, (count - 1) as nat);
        lemma_rows(devices, source_id, (count - 1) as nat, d);
        let k = choose|k: int| 0 <= k < before.len() && before[k] == d as usize;
        assert(rows[k] == d as usize);
    }
}

/// The device to capture is the first one that has the configured ID or, if no
/// source is configured, the first one that is marked as the default. There is
/// none exactly if no device is like that.
pub proof fn law_source_is_the_first_match(session: Session, i: int)
    requires
        0 <= i < session.devices@.len(),
        session.config.source matches Some(id) ==> session.devices@[i].id@ == id@,
        session.config.source is None ==> session.devices@[i].is_default,
        forall|j: int|
            0 <= j < i ==> match session.config.source {
                Some(id) => (#[trigger] session.devices@[j]).id@ != id@,
                None => !session.devices@[j].is_default,
            },
    ensures
        first_source(session.devices@, session.config.source, 0) == Some(i),
        session.source_id() == Some(session.devices@[i].id@),
{
    lemma_first_source(session.devices@, session.config.source, 0);
    assert(is_source(session.devices@[i], session.config.source));
    if let Some(found) = first_source(session.devices@, session.config.source, 0) {
        if found < i {
            assert(!is_source(session.devices@[found], session.config.source));
        }
    }
}

/// Without a matching device there is nothing to capture.
pub proof fn law_no_match_no_source(session: Session)
    requires
        forall|j: int|
            0 <= j < session.devices@.len() ==> match session.config.source {
                Some(id) => (#[trigger] session.devices@[j]).id@ != id@,
                None => !session.devices@[j].is_default,
            },
    ensures
        first_source(session.devices@, session.config.source, 0) is None,
        session.source_id() is None,
{
    lemma_first_source(session.devices@, session.config.source, 0);
}

/// A running engine that captures something else than the device that is to be
/// captured now is stopped and started anew, whatever its targets are: it
/// follows a changed source and a changed default device.
pub proof fn law_source_change_restarts(
    session: Session,
    i: int,
    after: Session,
    action: EngineAction,
)
    requires
        session.engine is Some,
        0 <= i < session.devices@.len(),
        session.config.source matches Some(id) ==> session.devices@[i].id@ == id@,
        session.config.source is None ==> session.devices@[i].is_default,
        forall|j: int|
            0 <= j < i ==> match session.config.source {
                Some(id) => (#[trigger] session.devices@[j]).id@ != id@,
                None => !session.devices@[j].is_default,
            },
        session.devices@[i].id@ != session.engine->Some_0.source_id@,
    ensures
        session.is_outdated(),
        restart_outcome(session, after, action) ==> action is Restart && after.engine is None,
{
    law_source_is_the_first_match(session, i);
}

/// A running engine whose source is gone is stopped, and none is started.
pub proof fn law_lost_source_stops(session: Session, after: Session, action: EngineAction)
    requires
        session.engine is Some,
        forall|j: int|
            0 <= j < session.devices@.len() ==> match session.config.source {
                Some(id) => (#[trigger] session.devices@[j]).id@ != id@,
                None => !session.devices@[j].is_default,
            },
    ensures
        session.is_outdated(),
        after.devices == session.devices && after.config == session.config && restart_outcome(
            session,
            after,
            action,
        ) ==> {
            &&& action == EngineAction::Restart(None)
            &&& after.engine is None
            &&& after.last_error is Some
            &&& after.last_error->Some_0@ == "source device is not connected (or no default device)"@
        },
{
    law_no_match_no_source(session);
}

/// An engine that captures the right source and plays on the right targets, in
/// any order, is left alone; one that plays on a device more or less often than
/// is wanted is not.
pub proof fn law_only_differences_restart(session: Session, id: Seq<char>)
    requires
        session.engine is Some,
    ensures
        ({
            let playing = texts(session.engine->Some_0.target_ids@);
            &&& session.source_id() == Some(session.engine->Some_0.source_id@)
                && session.desired_ids().to_multiset() == playing.to_multiset()
                ==> !session.is_outdated()
            &&& session.desired_ids().to_multiset().count(id) != playing.to_multiset().count(id)
                ==> session.is_outdated()
        }),
{
}

/// Nothing is outdated while no engine runs.
pub proof fn law_no_engine_no_restart(session: Session, after: Session, action: EngineAction)
    requires
        session.engine is None,
    ensures
        !session.is_outdated(),
        restart_outcome(session, after, action) ==> {
            &&& action is Keep
            &&& after.engine is None
            &&& after.last_error == session.last_error
            &&& after.engine_notice == session.engine_notice
        },
{
}

/// A restart stops the running engine and leaves no notice; what it asks for
/// next is what a start of the session would ask for.
pub proof fn law_restart_starts_anew(session: Session, after: Session, action: EngineAction)
    requires
        session.engine is Some,
        restart_outcome(session, after, action),
    ensures
        after.engine is None,
        after.engine_notice is None,
        action matches EngineAction::Restart(request) && start_outcome(
            after,
            session.last_error,
            request,
        ),
{
}

/// An engine is asked for exactly if there is a source and a target to play on;
/// else the message says which of them is missing, the source first.
pub proof fn law_start_needs_source_and_target(
    session: Session,
    error: Option<String>,
    request: Option<StartRequest>,
)
    requires
        start_outcome(session, error, request),
    ensures
        request is Some <==> session.source_id() is Some && session.desired_ids().len() > 0,
        request is Some ==> session.last_error == error,
        request is None ==> session.last_error is Some && session.last_error->Some_0@ == (
        if session.source_id() is None {
            "source device is not connected (or no default device)"@
        } else {
            "no connected target devices selected"@
        }),
{
    if session.source_id() is Some && session.desired_ids().len() > 0 {
        assert(request is Some);
    }
}

/// A request captures the source at its own rate and plays on exactly the
/// desired targets, in their order, each under the name of a device with its ID
/// and at the volume of its first config entry.
pub proof fn law_request_serves_the_session(
    session: Session,
    error: Option<String>,
    request: StartRequest,
    i: int,
    k: int,
)
    requires
        start_outcome(session, error, Some(request)),
        first_source(session.devices@, session.config.source, 0) == Some(i),
        0 <= k < session.desired_ids().len(),
    ensures
        request.source_id@ == session.devices@[i].id@,
        request.sample_rate == session.devices@[i].mix_format.sample_rate,
        request.targets@.len() == session.desired_ids().len(),
        request.targets@[k].id@ == session.desired_ids()[k],
        exists|d: int|
            {
                &&& 0 <= d < session.devices@.len()
                &&& (#[trigger] session.devices@[d]).id@ == request.targets@[k].id@
                &&& session.devices@[d].name@ == request.targets@[k].name@
                &&& forall|e: int|
                    0 <= e < d ==> (#[trigger] session.devices@[e]).id@ != request.targets@[k].id@
            },
        exists|t: int|
            {
                &&& 0 <= t < session.config.targets@.len()
                &&& (#[trigger] session.config.targets@[t]).id@ == request.targets@[k].id@
                &&& session.config.targets@[t].volume == request.targets@[k].volume
                &&& forall|e: int|
                    0 <= e < t ==> (#[trigger] session.config.targets@[e]).id@
                        != request.targets@[k].id@
            },
{
    let id = session.desired_ids()[k];
    let target = request.targets@[k];
    assert(is_target_for(target, session.devices@, session.config.targets@, id));
    let d = choose|d: int| #[trigger]
        is_first_device(session.devices@, id, d) && target.name@ == session.devices@[d].name@;
    assert(session.devices@[d].id@ == target.id@);
    let t = choose|t: int| #[trigger]
        crate::config::is_first(session.config.targets@, id, t) && target.volume
            == session.config.targets@[t].volume;
    assert(session.config.targets@[t].id@ == target.id@);
}

/// The desired targets of a longer config are those of its parts, one after the
/// other; an entry counts exactly if some device has its ID and the source has
/// not.
pub proof fn law_desired_targets_in_order(
    devices: Seq<DeviceInfo>,
    first: Seq<TargetConfig>,
    second: Seq<TargetConfig>,
    entry: TargetConfig,
    source_id: Option<Seq<char>>,
)
    ensures
        desired_of(devices, first + second, source_id) == desired_of(devices, first, source_id)
            + desired_of(devices, second, source_id),
        desired_of(devices, Seq::empty(), source_id).len() == 0,
        ({
            let connected = exists|d: int|
                0 <= d < devices.len() && (#[trigger] devices[d]).id@ == entry.id@;
            let is_source = source_id is Some && source_id->Some_0 == entry.id@;
            desired_of(devices, seq![entry], source_id) == if connected && !is_source {
                seq![entry.id@]
            } else {
                Seq::<Seq<char>>::empty()
            }
        }),
{
    let wanted = is_desired(devices, source_id);
    Seq::filter_distributes_over_add(first, second, wanted);
    assert(desired_of(devices, first + second, source_id) =~= desired_of(devices, first, source_id)
        + desired_of(devices, second, source_id));
    lemma_filter_one(entry, wanted);
    assert(desired_of(devices, seq![entry], source_id) =~= if wanted(entry) {
        seq![entry.id@]
    } else {
        Seq::<Seq<char>>::empty()
    });
}

/// What is deselected or missing is decided entry by entry as well: taking a
/// device out drops exactly the entries with its ID, and an entry is missing
/// exactly if no device has its ID. All other entries stay as they are and in
/// their order.
pub proof fn law_entries_stay_in_order(
    devices: Seq<DeviceInfo>,
    first: Seq<TargetConfig>,
    second: Seq<TargetConfig>,
    entry: TargetConfig,
    id: Seq<char>,
)
    ensures
        without(first + second, id) == without(first, id) + without(second, id),
        without(seq![entry], id) == if entry.id@ == id {
            Seq::<TargetConfig>::empty()
        } else {
            seq![entry]
        },
        missing_of(devices, first + second) == missing_of(devices, first) + missing_of(
            devices,
            second,
        ),
        missing_of(devices, seq![entry]) == if exists|d: int|
            0 <= d < devices.len() && (#[trigger] devices[d]).id@ == entry.id@ {
            Seq::<TargetConfig>::empty()
        } else {
            seq![entry]
        },
        without(Seq::empty(), id).len() == 0,
        missing_of(devices, Seq::empty()).len() == 0,
{
    Seq::filter_distributes_over_add(first, second, is_of_other(id));
    Seq::filter_distributes_over_add(first, second, is_missing(devices));
    lemma_filter_one(entry, is_of_other(id));
    lemma_filter_one(entry, is_missing(devices));
}

proof fn lemma_filter_one(entry: TargetConfig, wanted: spec_fn(TargetConfig) -> bool)
    ensures
        seq![entry].filter(wanted) == if wanted(entry) {
            seq![entry]
        } else {
            Seq::<TargetConfig>::empty()
        },
        Seq::<TargetConfig>::empty().filter(wanted) == Seq::<TargetConfig>::empty(),
{
    reveal_with_fuel(Seq::filter, 2);
    assert(seq![entry].drop_last() =~= Seq::empty());
    assert(Seq::<TargetConfig>::empty().push(entry) =~= seq![entry]);
}

/// Selecting a device adds one entry at the end, at full volume and without a
/// delay, unless there is one already; deselecting it takes its entries out.
pub proof fn law_toggling_a_device(
    before: Seq<TargetConfig>,
    after: Seq<TargetConfig>,
    id: Seq<char>,
    name: Seq<char>,
    enabled: bool,
)
    requires
        is_toggled(before, after, id, name, enabled),
    ensures
        ({
            let known = exists|i: int| 0 <= i < before.len() && (#[trigger] before[i]).id@ == id;
            &&& enabled && known ==> after == before
            &&& enabled && !known ==> {
                &&& after == before.push(after.last())
                &&& after.last().id@ == id
                &&& after.last().name@ == name
                &&& after.last().volume == 100
                &&& after.last().delay_ms == 0
            }
            &&& !enabled ==> after == without(before, id)
        }),
{
    if enabled && !crate::config::has_target(before, id) {
        assert(after.drop_last().push(after.last()) =~= after);
    }
}

/// Two source choices are the same if both are the default device or both are
/// the same ID.
pub proof fn law_same_source(a: Option<String>, b: Option<String>)
    ensures
        same_source(a, b) <==> (a is None && b is None) || (a is Some && b is Some
            && a->Some_0@ == b->Some_0@),
{
}

/// A changed config is saved after one second.
pub proof fn law_save_debounce(since: u64, now: u64)
    ensures
        is_save_due(Some(since), now, false) <==> now >= since + 1_000_000_000,
{
}

/// The source selection shows the default choice as such, a connected source by
/// the name of the first device with its ID, and any other one by its ID.
pub proof fn law_selection_shows_the_source(session: Session, i: int)
    ensures
        session.config.source is None ==> session.selection_text() == "Default render device"@,
        session.config.source matches Some(id) ==> {
            &&& is_first_device(session.devices@, id@, i) ==> session.selection_text()
                == session.devices@[i].name@
            &&& (forall|d: int|
                0 <= d < session.devices@.len() ==> (#[trigger] session.devices@[d]).id@ != id@)
                ==> session.selection_text() == id@ + " (not connected)"@
        },
{
    if let Some(id) = session.config.source {
        lemma_first_source(session.devices@, session.config.source, 0);
        if is_first_device(session.devices@, id@, i) {
            law_source_is_the_first_match(session, i);
        }
    }
}

/// The rows of the target list are the devices other than the source, each
/// once and in their order.
pub proof fn law_rows_are_all_but_the_source(
    devices: Seq<DeviceInfo>,
    source_id: Option<Seq<char>>,
    count: nat,
)
    requires
        count <= devices.len() <= usize::MAX,
    ensures
        forall|k: int, l: int|
            0 <= k < l < rows_of(devices, source_id, count).len() ==> rows_of(
                devices,
                source_id,
                count,
            )[k] < rows_of(devices, source_id, count)[l],
        forall|k: int|
            0 <= k < rows_of(devices, source_id, count).len() ==> {
                let row = #[trigger] rows_of(devices, source_id, count)[k];
                row < count && source_id != Some(devices[row as int].id@)
            },
        forall|d: int|
            0 <= d < count && source_id != Some((#[trigger] devices[d]).id@) ==> rows_of(
                devices,
                source_id,
                count,
            ).contains(d as usize),
    decreases count,
{
    if count > 0 {
        law_rows_are_all_but_the_source(devices, source_id, (count - 1) as nat);
    }
    assert forall|d: int|
        0 <= d < count && source_id != Some((#[trigger] devices[d]).id@) implies rows_of(
        devices,
        source_id,
        count,
    ).contains(d as usize) by {
        lemma_rows(devices, source_id, count, d);
    }
}

/// A device's place in the running engine is the first target with its ID, and
/// it has none exactly if no target has its ID.
pub proof fn law_place_is_the_first_target(engine: ActiveEngine, id: Seq<char>, i: usize)
    requires
        engine.target_ids@.len() <= usize::MAX,
    ensures
        engine.position(id) == Some(i) <==> {
            &&& i < engine.target_ids@.len()
            &&& engine.target_ids@[i as int]@ == id
            &&& forall|k: int| 0 <= k < i ==> (#[trigger] engine.target_ids@[k])@ != id
        },
        engine.position(id) is None <==> forall|k: int|
            0 <= k < engine.target_ids@.len() ==> (#[trigger] engine.target_ids@[k])@ != id,
{
    let ids = texts(engine.target_ids@);
    lemma_first_text(ids, id, 0);
    assert forall|k: int| 0 <= k < ids.len() implies #[trigger] ids[k]
        == engine.target_ids@[k]@ by {}
    if let Some(f) = first_text(ids, id, 0) {
        assert(engine.target_ids@[f]@ == id);
        assert forall|k: int| 0 <= k < f implies (#[trigger] engine.target_ids@[k])@ != id by {
            assert(ids[k] != id);
        }
    } else {
        assert forall|k: int| 0 <= k < ids.len() implies (#[trigger] engine.target_ids@[k])@
            != id by {
            assert(ids[k] != id);
        }
    }
}

proof fn lemma_first_text(ids: Seq<Seq<char>>, id: Seq<char>, from: int)
    requires
        0 <= from,
    ensures
        match first_text(ids, id, from) {
            Some(i) => {
                &&& from <= i < ids.len()
                &&& ids[i] == id
                &&& forall|j: int| from <= j < i ==> #[trigger] ids[j] != id
            },
            None => forall|j: int| from <= j < ids.len() ==> #[trigger] ids[j] != id,
        },
    decreases ids.len() - from,
{
    if from < ids.len() && ids[from] != id {
        lemma_first_text(ids, id, from + 1);
    }
}

/// The targets after the volume of a device was set: the volume of its first
/// entry, if it has one.
pub open spec fn is_volume_set(
    before: Seq<TargetConfig>,
    after: Seq<TargetConfig>,
    id: Seq<char>,
    percent: u8,
) -> bool {
    if crate::config::has_target(before, id) {
        exists|i: int| #[trigger]
            crate::config::is_first(before, id, i) && after == before.update(
                i,
                TargetConfig { volume: percent, ..before[i] },
            )
    } else {
        after == before
    }
}

/// Setting a volume changes the volume of the first entry of the device and
/// nothing else: no other entry, no ID, name or delay, and not the order.
pub proof fn law_volume_changes_nothing_else(
    before: Seq<TargetConfig>,
    after: Seq<TargetConfig>,
    id: Seq<char>,
    percent: u8,
    k: int,
)
    requires
        is_volume_set(before, after, id, percent),
        0 <= k < before.len(),
    ensures
        after.len() == before.len(),
        after[k].id == before[k].id,
        after[k].name == before[k].name,
        after[k].delay_ms == before[k].delay_ms,
        ({
            let is_entry = before[k].id@ == id && forall|j: int|
                0 <= j < k ==> (#[trigger] before[j]).id@ != id;
            after[k].volume == if is_entry {
                percent
            } else {
                before[k].volume
            }
        }),
{
    if crate::config::has_target(before, id) {
        let i = choose|i: int| #[trigger]
            crate::config::is_first(before, id, i) && after == before.update(
                i,
                TargetConfig { volume: percent, ..before[i] },
            );
        if i < k {
            assert(before[i].id@ == id);
        }
    }
}

} // verus!
