//! The persistent configuration: source, targets and their volumes.
//!
//! Stale device IDs are kept in the config (the device may be temporarily
//! unplugged); consumers mark them unavailable instead of dropping them.
use std::path::PathBuf;
use vstd::prelude::*;

verus! {

/// Folder of the config file below the user's config directory.
pub const CONFIG_FOLDER: &'static str = "audio-multiplexer";

/// Name of the config file.
pub const CONFIG_FILE: &'static str = "config.toml";

#[derive(Debug, PartialEq)]
pub struct TargetConfig {
    pub id: String,
    /// Friendly name at save time; display fallback while unplugged.
    pub name: String,
    pub volume: u8,
    /// Reserved for a per-device delay; not applied yet.
    pub delay_ms: u32,
}

impl Clone for TargetConfig {
    fn clone(&self) -> (copy: Self)
        ensures
            copy == *self,
    {
        TargetConfig {
            id: self.id.clone(),
            name: self.name.clone(),
            volume: self.volume,
            delay_ms: self.delay_ms,
        }
    }
}

#[derive(Debug, PartialEq)]
pub struct Config {
    /// Endpoint ID of the loopback source; None means the default render
    /// device at engine start.
    pub source: Option<String>,
    pub targets: Vec<TargetConfig>,
}

impl Clone for Config {
    fn clone(&self) -> (copy: Self)
        ensures
            copy.source == self.source,
            copy.targets@ == self.targets@,
    {
        let mut targets: Vec<TargetConfig> = Vec::new();
        let mut i: usize = 0;
        while i < self.targets.len()
            invariant
                i <= self.targets@.len(),
                targets@ == self.targets@.take(i as int),
            decreases self.targets@.len() - i,
        {
            targets.push(self.targets[i].clone());
            i += 1;
            assert(targets@ =~= self.targets@.take(i as int));
        }
        assert(targets@ =~= self.targets@);
        Config {
            source: match &self.source {
                Some(id) => Some(id.clone()),
                None => None,
            },
            targets,
        }
    }
}

/// Volume of a target that does not say otherwise.
pub fn default_volume() -> (volume: u8)
    ensures
        volume == 100,
{
    100
}

impl Default for Config {
    fn default() -> (config: Self)
        ensures
            config.source is None,
            config.targets@ == Seq::<TargetConfig>::empty(),
    {
        Config { source: None, targets: Vec::new() }
    }
}

/// `i` is the first entry of `targets` with this device ID.
pub open spec fn is_first(targets: Seq<TargetConfig>, id: Seq<char>, i: int) -> bool {
    &&& 0 <= i < targets.len()
    &&& targets[i].id@ == id
    &&& forall|j: int| 0 <= j < i ==> (#[trigger] targets[j]).id@ != id
}

/// Some entry of `targets` has this device ID.
pub open spec fn has_target(targets: Seq<TargetConfig>, id: Seq<char>) -> bool {
    exists|i: int| 0 <= i < targets.len() && (#[trigger] targets[i]).id@ == id
}

/// A target as a config file describes it; only the ID has to be there.
#[derive(Debug)]
pub struct TargetFields {
    pub id: String,
    pub name: Option<String>,
    pub volume: Option<u8>,
    pub delay_ms: Option<u32>,
}

/// A config as a config file describes it.
#[derive(Debug)]
pub struct ConfigFields {
    pub source: Option<String>,
    pub targets: Option<Vec<TargetFields>>,
}

/// The target says what the fields say; fields that are missing stand for their
/// defaults.
pub open spec fn is_target_of(target: TargetConfig, fields: TargetFields) -> bool {
    &&& target.id@ == fields.id@
    &&& target.name@ == match fields.name {
        Some(name) => name@,
        None => Seq::<char>::empty(),
    }
    &&& target.volume == match fields.volume {
        Some(volume) => volume,
        None => 100,
    }
    &&& target.delay_ms == match fields.delay_ms {
        Some(delay_ms) => delay_ms,
        None => 0,
    }
}

/// The config says what the fields say; without a target list it has no
/// targets.
pub open spec fn is_config_of(config: Config, fields: ConfigFields) -> bool {
    &&& match (config.source, fields.source) {
        (Some(source), Some(id)) => source@ == id@,
        (None, None) => true,
        _ => false,
    }
    &&& match fields.targets {
        Some(targets) => {
            &&& config.targets@.len() == targets@.len()
            &&& forall|i: int|
                0 <= i < targets@.len() ==> is_target_of(#[trigger] config.targets@[i], targets@[i])
        },
        None => config.targets@.len() == 0,
    }
}

/// Reading back what a config was saved as gives the same config: source,
/// targets and their order, names, volumes and delays.
pub proof fn law_saved_config_is_read_back(saved: Config, fields: ConfigFields, read: Config)
    requires
        is_config_of(saved, fields),
        is_config_of(read, fields),
    ensures
        match (saved.source, read.source) {
            (Some(a), Some(b)) => a@ == b@,
            (None, None) => true,
            _ => false,
        },
        saved.targets@.len() == read.targets@.len(),
        forall|i: int|
            0 <= i < saved.targets@.len() ==> {
                let (a, b) = (#[trigger] saved.targets@[i], read.targets@[i]);
                &&& a.id@ == b.id@
                &&& a.name@ == b.name@
                &&& a.volume == b.volume
                &&& a.delay_ms == b.delay_ms
            },
{
    if let Some(targets) = fields.targets {
        assert forall|i: int| 0 <= i < saved.targets@.len() implies {
            let (a, b) = (#[trigger] saved.targets@[i], read.targets@[i]);
            &&& a.id@ == b.id@
            &&& a.name@ == b.name@
            &&& a.volume == b.volume
            &&& a.delay_ms == b.delay_ms
        } by {
            assert(is_target_of(saved.targets@[i], targets@[i]));
            assert(is_target_of(read.targets@[i], targets@[i]));
        }
    }
}

impl TargetConfig {
    /// The target that a config file describes.
    pub fn from_fields(fields: TargetFields) -> (target: Self)
        ensures
            is_target_of(target, fields),
    {
        TargetConfig {
            id: fields.id,
            name: match fields.name {
                Some(name) => name,
                None => String::new(),
            },
            volume: match fields.volume {
                Some(volume) => volume,
                None => default_volume(),
            },
            delay_ms: match fields.delay_ms {
                Some(delay_ms) => delay_ms,
                None => 0,
            },
        }
    }

    /// What a config file says of the target: every field.
    pub fn to_fields(&self) -> (fields: TargetFields)
        ensures
            is_target_of(*self, fields),
            fields.name is Some,
            fields.volume is Some,
            fields.delay_ms is Some,
    {
        TargetFields {
            id: self.id.clone(),
            name: Some(self.name.clone()),
            volume: Some(self.volume),
            delay_ms: Some(self.delay_ms),
        }
    }
}

impl Config {
    /// The config that a config file describes.
    pub fn from_fields(fields: ConfigFields) -> (config: Self)
        ensures
            is_config_of(config, fields),
    {
        let mut targets: Vec<TargetConfig> = Vec::new();
        if let Some(entries) = fields.targets {
            let ghost all = entries@;
            let mut entries = entries;
            while entries.len() > 0
                invariant
                    targets@.len() + entries@.len() == all.len(),
                    entries@ == all.skip(targets@.len() as int),
                    forall|i: int|
                        0 <= i < targets@.len() ==> is_target_of(#[trigger] targets@[i], all[i]),
                decreases entries@.len(),
            {
                let entry = entries.remove(0);
                targets.push(TargetConfig::from_fields(entry));
                assert(entries@ =~= all.skip(targets@.len() as int));
            }
        }
        Config { source: fields.source, targets }
    }

    /// What a config file says of the config: every field of every target.
    pub fn to_fields(&self) -> (fields: ConfigFields)
        ensures
            is_config_of(*self, fields),
            fields.targets is Some,
            forall|i: int|
                0 <= i < self.targets@.len() ==> {
                    let entry = #[trigger] fields.targets->Some_0@[i];
                    entry.name is Some && entry.volume is Some && entry.delay_ms is Some
                },
    {
        let mut entries: Vec<TargetFields> = Vec::new();
        let mut i: usize = 0;
        while i < self.targets.len()
            invariant
                i <= self.targets@.len(),
                entries@.len() == i,
                forall|k: int|
                    0 <= k < i ==> {
                        let entry = #[trigger] entries@[k];
                        &&& is_target_of(self.targets@[k], entry)
                        &&& entry.name is Some && entry.volume is Some && entry.delay_ms is Some
                    },
            decreases self.targets@.len() - i,
        {
            entries.push(self.targets[i].to_fields());
            i += 1;
        }
        ConfigFields {
            source: match &self.source {
                Some(id) => Some(id.clone()),
                None => None,
            },
            targets: Some(entries),
        }
    }

    fn target_index(&self, id: &str) -> (index: Option<usize>)
        ensures
            match index {
                Some(i) => is_first(self.targets@, id@, i as int),
                None => !has_target(self.targets@, id@),
            },
    {
        let key = id.to_owned();
        let mut i: usize = 0;
        while i < self.targets.len()
            invariant
                i <= self.targets@.len(),
                key@ == id@,
                forall|j: int| 0 <= j < i ==> (#[trigger] self.targets@[j]).id@ != id@,
            decreases self.targets@.len() - i,
        {
            if self.targets[i].id == key {
                return Some(i);
            }
            i += 1;
        }
        None
    }

    /// The (first) entry of a device.
    pub fn target(&self, id: &str) -> (target: Option<&TargetConfig>)
        ensures
            match target {
                Some(target) => exists|i: int|
                    is_first(self.targets@, id@, i) && *target == self.targets@[i],
                None => !has_target(self.targets@, id@),
            },
    {
        match self.target_index(id) {
            Some(i) => {
                assert(is_first(self.targets@, id@, i as int));
                Some(&self.targets[i])
            },
            None => None,
        }
    }

    /// The (first) entry of a device, to change it.
    pub fn target_mut(&mut self, id: &str) -> (target: Option<&mut TargetConfig>)
        ensures
            match target {
                Some(target) => exists|i: int|
                    {
                        &&& is_first(old(self).targets@, id@, i)
                        &&& *target == old(self).targets@[i]
                        &&& final(self).source == old(self).source
                        &&& final(self).targets@ == old(self).targets@.update(i, *final(target))
                    },
                None => !has_target(old(self).targets@, id@) && *final(self) == *old(self),
            },
    {
        match self.target_index(id) {
            Some(i) => {
                assert(is_first(self.targets@, id@, i as int));
                Some(&mut self.targets[i])
            },
            None => None,
        }
    }
}

/// The operating system's path type.
#[verifier::external_type_specification]
#[verifier::external_body]
pub struct ExPathBuf(std::path::PathBuf);

/// Calls `dirs::config_dir`: the user's config directory (the roaming profile
/// on Windows), or `None` if it cannot be determined. The answer depends on
/// the user's environment, so nothing is claimed of it.
#[verifier::external_body]
fn user_config_dir() -> (dir: Option<PathBuf>) {
    dirs::config_dir()
}

/// Where the config file is: the file `file` in the folder `folder` of `dir`.
#[derive(Debug)]
pub struct ConfigLocation {
    pub dir: PathBuf,
    pub folder: &'static str,
    pub file: &'static str,
}

/// The location below a config directory, or the message if there is none.
pub fn locate_config(dir: Option<PathBuf>) -> (result: Result<ConfigLocation, &'static str>)
    ensures
        match dir {
            Some(dir) => result == Ok::<ConfigLocation, &'static str>(
                ConfigLocation { dir, folder: CONFIG_FOLDER, file: CONFIG_FILE },
            ),
            None => result is Err && result->Err_0@
                == "could not determine the user config directory"@,
        },
{
    match dir {
        Some(dir) => Ok(ConfigLocation { dir, folder: CONFIG_FOLDER, file: CONFIG_FILE }),
        None => Err("could not determine the user config directory"),
    }
}

/// The location of the user's config file; on Windows it is below %APPDATA%
/// (roaming profile). Which directory that is, and whether there is one,
/// depends on the user's environment; see [`locate_config`] for the rest.
pub fn config_path() -> (result: Result<ConfigLocation, &'static str>)
    ensures
        match result {
            Ok(location) => location.folder == CONFIG_FOLDER && location.file == CONFIG_FILE,
            Err(message) => message@ == "could not determine the user config directory"@,
        },
{
    locate_config(user_config_dir())
}

/// What reading the config file gave.
#[derive(Debug)]
pub enum FileRead {
    Text(String),
    Missing,
    Failed(String),
}

/// How loading the config goes on.
#[derive(Debug)]
pub enum LoadStep {
    /// Parse this text.
    Parse(String),
    /// Use this config.
    Done(Config),
    /// Report this message.
    Fail(String),
}

pub open spec fn context_text(action: Seq<char>, path: Seq<char>, error: Seq<char>) -> Seq<char> {
    action + " "@ + path + ": "@ + error
}

/// The message for an action on a file that failed.
pub fn in_context(action: &str, path: &str, error: &str) -> (message: String)
    ensures
        message@ == context_text(action@, path@, error@),
{
    let mut message = action.to_owned();
    message.append(" ");
    message.append(path);
    message.append(": ");
    message.append(error);
    message
}

/// Loads the config; a missing file yields the default (empty) config.
pub fn load(read: FileRead, path: &str) -> (step: LoadStep)
    ensures
        match read {
            FileRead::Text(text) => step == LoadStep::Parse(text),
            FileRead::Missing => {
                &&& step is Done
                &&& step->Done_0.source is None
                &&& step->Done_0.targets@ == Seq::<TargetConfig>::empty()
            },
            FileRead::Failed(error) => {
                &&& step is Fail
                &&& step->Fail_0@ == context_text("reading"@, path@, error@)
            },
        },
{
    match read {
        FileRead::Text(text) => LoadStep::Parse(text),
        FileRead::Missing => LoadStep::Done(Config::default()),
        FileRead::Failed(error) => LoadStep::Fail(in_context("reading", path, error.as_str())),
    }
}

/// The entry of a device is the earliest one with its ID; there is one exactly
/// if some entry has the ID, and no other index is it.
pub proof fn law_first_entry_counts(targets: Seq<TargetConfig>, id: Seq<char>, i: int, j: int)
    ensures
        is_first(targets, id, i) ==> 0 <= i < targets.len() && targets[i].id@ == id,
        is_first(targets, id, i) && 0 <= j < targets.len() && targets[j].id@ == id ==> i <= j,
        is_first(targets, id, i) && is_first(targets, id, j) ==> i == j,
        0 <= j < targets.len() && targets[j].id@ == id ==> has_target(targets, id) && exists|k: int|
            is_first(targets, id, k),
        has_target(targets, id) ==> exists|k: int|
            0 <= k < targets.len() && (#[trigger] targets[k]).id@ == id,
{
    if 0 <= j < targets.len() && targets[j].id@ == id {
        lemma_first_exists(targets, id, j);
    }
}

proof fn lemma_first_exists(targets: Seq<TargetConfig>, id: Seq<char>, j: int)
    requires
        0 <= j < targets.len(),
        targets[j].id@ == id,
    ensures
        exists|k: int| is_first(targets, id, k),
    decreases j,
{
    if exists|i: int| 0 <= i < j && (#[trigger] targets[i]).id@ == id {
        let i = choose|i: int| 0 <= i < j && (#[trigger] targets[i]).id@ == id;
        lemma_first_exists(targets, id, i);
    } else {
        assert(is_first(targets, id, j));
    }
}

/// What a file says of a target is kept; what it leaves out is an empty name,
/// full volume and no delay.
pub proof fn law_missing_fields_get_defaults(target: TargetConfig, fields: TargetFields)
    requires
        is_target_of(target, fields),
    ensures
        target.id@ == fields.id@,
        fields.name matches Some(name) ==> target.name@ == name@,
        fields.name is None ==> target.name@.len() == 0,
        fields.volume matches Some(volume) ==> target.volume == volume,
        fields.volume is None ==> target.volume == 100,
        fields.delay_ms matches Some(delay_ms) ==> target.delay_ms == delay_ms,
        fields.delay_ms is None ==> target.delay_ms == 0,
{
}

/// A config has the source and, in their order, the targets that the file has.
pub proof fn law_config_follows_the_file(config: Config, fields: ConfigFields, i: int)
    requires
        is_config_of(config, fields),
    ensures
        config.source is Some <==> fields.source is Some,
        config.source is Some ==> config.source->Some_0@ == fields.source->Some_0@,
        fields.targets is None ==> config.targets@.len() == 0,
        fields.targets matches Some(targets) ==> {
            &&& config.targets@.len() == targets@.len()
            &&& 0 <= i < targets@.len() ==> is_target_of(config.targets@[i], targets@[i])
        },
{
}

/// A message names the action, the file and the error, in this order.
pub proof fn law_context_names_everything(action: Seq<char>, path: Seq<char>, error: Seq<char>)
    ensures
        context_text(action, path, error) == action + " "@ + path + ": "@ + error,
{
}

} // verus!
