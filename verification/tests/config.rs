use audio_multiplexer::config::{
    config_path, default_volume, in_context, load, locate_config, Config, ConfigFields, FileRead,
    LoadStep, TargetConfig, TargetFields,
};

fn parse(text: &str) -> Config {
    let table: toml::Table = toml::from_str(text).unwrap();
    let string = |value: &toml::Value| value.as_str().unwrap().to_string();
    let targets = table.get("targets").map(|targets| {
        targets
            .as_array()
            .unwrap()
            .iter()
            .map(|target| TargetFields {
                id: string(&target["id"]),
                name: target.get("name").map(string),
                volume: target.get("volume").map(|v| v.as_integer().unwrap() as u8),
                delay_ms: target.get("delay_ms").map(|v| v.as_integer().unwrap() as u32),
            })
            .collect()
    });
    Config::from_fields(ConfigFields { source: table.get("source").map(string), targets })
}

fn to_text(config: &Config) -> String {
    let fields = config.to_fields();
    let mut table = toml::Table::new();
    if let Some(source) = fields.source {
        table.insert("source".to_string(), toml::Value::String(source));
    }
    let targets = fields
        .targets
        .unwrap()
        .into_iter()
        .map(|target| {
            let mut entry = toml::Table::new();
            entry.insert("id".to_string(), toml::Value::String(target.id));
            entry.insert("name".to_string(), toml::Value::String(target.name.unwrap()));
            let volume = target.volume.unwrap();
            entry.insert("volume".to_string(), toml::Value::Integer(volume.into()));
            let delay_ms = target.delay_ms.unwrap();
            entry.insert("delay_ms".to_string(), toml::Value::Integer(delay_ms.into()));
            toml::Value::Table(entry)
        })
        .collect();
    table.insert("targets".to_string(), toml::Value::Array(targets));
    toml::to_string_pretty(&table).unwrap()
}

#[test]
fn roundtrip_preserves_all_fields() {
    let config = Config {
        source: Some("{id-source}".to_string()),
        targets: vec![TargetConfig {
            id: "{id-a}".to_string(),
            name: "Speakers".to_string(),
            volume: 80,
            delay_ms: 0,
        }],
    };
    let text = to_text(&config);
    let parsed: Config = parse(&text);
    assert_eq!(parsed, config);
}

#[test]
fn missing_optional_fields_get_defaults() {
    let parsed: Config = parse(
        "[[targets]]\n\
         id = \"{id-a}\"\n",
    );
    assert_eq!(parsed.source, None);
    assert_eq!(parsed.targets[0].volume, 100);
    assert_eq!(parsed.targets[0].delay_ms, 0);
    assert_eq!(parsed.targets[0].name, "");
}

#[test]
fn empty_text_is_the_default_config() {
    assert_eq!(parse(""), Config::default());
    assert_eq!(default_volume(), 100);
}

fn target(id: &str, volume: u8) -> TargetConfig {
    TargetConfig { id: id.to_string(), name: String::new(), volume, delay_ms: 0 }
}

#[test]
fn lookup_finds_the_first_entry() {
    let mut config =
        Config { source: None, targets: vec![target("a", 1), target("b", 2), target("b", 3)] };
    assert_eq!(config.target("b").unwrap().volume, 2);
    assert!(config.target("c").is_none());
    config.target_mut("b").unwrap().volume = 9;
    assert!(config.target_mut("c").is_none());
    let volumes: Vec<u8> = config.targets.iter().map(|t| t.volume).collect();
    assert_eq!(volumes, vec![1, 9, 3]);
    assert_eq!(config.clone(), config);
}

#[test]
fn a_missing_file_is_the_default_config() {
    match load(FileRead::Missing, "c.toml") {
        LoadStep::Done(config) => assert_eq!(config, Config::default()),
        _ => panic!("expected the default config"),
    }
    match load(FileRead::Text("x".to_string()), "c.toml") {
        LoadStep::Parse(text) => assert_eq!(text, "x"),
        _ => panic!("expected text to parse"),
    }
    match load(FileRead::Failed("denied".to_string()), "c.toml") {
        LoadStep::Fail(message) => assert_eq!(message, "reading c.toml: denied"),
        _ => panic!("expected a failure"),
    }
    assert_eq!(in_context("writing", "c.toml", "disk full"), "writing c.toml: disk full");
}

#[test]
fn config_is_below_the_user_directory() {
    let location = locate_config(Some(std::path::PathBuf::from("base"))).unwrap();
    assert_eq!(
        location.dir.join(location.folder).join(location.file),
        std::path::Path::new("base").join("audio-multiplexer").join("config.toml")
    );
    assert_eq!(
        locate_config(None).unwrap_err(),
        "could not determine the user config directory"
    );
    match (config_path(), dirs::config_dir()) {
        (Ok(location), Some(dir)) => assert_eq!(location.dir, dir),
        (Err(message), None) => {
            assert_eq!(message, "could not determine the user config directory")
        }
        _ => panic!("config_path and config_dir disagree"),
    }
}

#[test]
fn fields_of_a_config_give_it_back() {
    let mut second = target("b", 0);
    second.name = "Headphones".to_string();
    second.delay_ms = 25;
    let config = Config { source: None, targets: vec![target("a", 7), second] };
    assert_eq!(Config::from_fields(config.to_fields()), config);
    assert_eq!(
        Config::from_fields(ConfigFields { source: Some("s".to_string()), targets: None }),
        Config { source: Some("s".to_string()), targets: Vec::new() }
    );
}
