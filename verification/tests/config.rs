use std::path::PathBuf;

use zotero_mcp::config::{config_path, storage_root, user_storage_root, Config, ConfigFile};

fn string_of(table: &toml::Table, key: &str) -> Option<String> {
    table.get(key).and_then(|v| v.as_str()).map(|s| s.to_string())
}

fn from_toml(text: &str) -> Result<Config, toml::de::Error> {
    let table: toml::Table = toml::from_str(text)?;
    Ok(Config::from_file(ConfigFile {
        api_base: string_of(&table, "api_base"),
        api_key: string_of(&table, "api_key"),
        user_id: table.get("user_id").and_then(|v| v.as_integer()).map(|n| n as u64),
        library_type: string_of(&table, "library_type"),
    }))
}

fn to_toml(cfg: Config) -> String {
    let file = cfg.to_file();
    let mut table = toml::Table::new();
    for (key, value) in [
        ("api_base", file.api_base.map(toml::Value::String)),
        ("api_key", file.api_key.map(toml::Value::String)),
        ("user_id", file.user_id.map(|n| toml::Value::Integer(n as i64))),
        ("library_type", file.library_type.map(toml::Value::String)),
    ] {
        if let Some(value) = value {
            table.insert(key.to_string(), value);
        }
    }
    toml::to_string_pretty(&table).unwrap()
}

#[test]
fn default_config_values() {
    let cfg = Config::default();
    assert_eq!(cfg.api_base, "http://localhost:23119/api");
    assert_eq!(cfg.library_type, "user");
    assert!(cfg.api_key.is_none());
    assert!(cfg.user_id.is_none());
}

#[test]
fn load_missing_file_returns_defaults() {
    let cfg = Config::default();
    assert_eq!(cfg.api_base, "http://localhost:23119/api");
    let cfg = Config::load(None, None, None);
    assert_eq!(cfg.api_base, "http://localhost:23119/api");
    assert_eq!(cfg.library_type, "user");
    assert!(cfg.api_key.is_none());
    assert!(cfg.user_id.is_none());
}

#[test]
fn deserialize_partial_config() {
    let toml = r#"api_base = "http://remote:8080/api""#;
    let cfg = from_toml(toml).unwrap();
    assert_eq!(cfg.api_base, "http://remote:8080/api");
    assert_eq!(cfg.library_type, "user"); // default
    assert!(cfg.api_key.is_none());
}

#[test]
fn deserialize_full_config() {
    let toml = r#"
        api_base = "http://remote:8080/api"
        api_key = "secret123"
        user_id = 42
        library_type = "group"
    "#;
    let cfg = from_toml(toml).unwrap();
    assert_eq!(cfg.api_base, "http://remote:8080/api");
    assert_eq!(cfg.api_key.as_deref(), Some("secret123"));
    assert_eq!(cfg.user_id, Some(42));
    assert_eq!(cfg.library_type, "group");
}

#[test]
fn deserialize_invalid_toml_errors() {
    let toml = "not valid [[[ toml";
    let result = from_toml(toml);
    assert!(result.is_err());
}

#[test]
fn config_serializes_roundtrip() {
    let cfg = || Config {
        api_base: "http://test:1234/api".into(),
        api_key: Some("key".into()),
        user_id: Some(99),
        library_type: "group".into(),
    };
    let toml_str = to_toml(cfg());
    let cfg2 = from_toml(&toml_str).unwrap();
    assert_eq!(cfg2.api_base, cfg().api_base);
    assert_eq!(cfg2.api_key, cfg().api_key);
    assert_eq!(cfg2.user_id, cfg().user_id);
    assert_eq!(cfg2.library_type, cfg().library_type);
}

#[test]
fn missing_values_stay_missing_in_the_file() {
    let toml_str = to_toml(Config::default());
    assert!(!toml_str.contains("api_key"));
    assert!(!toml_str.contains("user_id"));
    let cfg = Config::load(Some(from_toml(&toml_str).unwrap()), None, None);
    assert_eq!(cfg.api_base, "http://localhost:23119/api");
    assert!(cfg.api_key.is_none());
    assert!(cfg.user_id.is_none());
    assert_eq!(cfg.library_type, "user");
}

#[test]
fn environment_overrides_file() {
    let file = Config::from_file(ConfigFile {
        api_base: Some("http://file/api".to_string()),
        api_key: Some("file-key".to_string()),
        user_id: Some(7),
        library_type: Some("group".to_string()),
    });
    let cfg = Config::load(
        Some(file),
        Some("http://env/api".to_string()),
        Some("env-key".to_string()),
    );
    assert_eq!(cfg.api_base, "http://env/api");
    assert_eq!(cfg.api_key.as_deref(), Some("env-key"));
    assert_eq!(cfg.user_id, Some(7));
    assert_eq!(cfg.library_type, "group");

    let file = Config::from_file(ConfigFile {
        api_base: None,
        api_key: Some("file-key".to_string()),
        user_id: None,
        library_type: None,
    });
    let cfg = Config::load(Some(file), None, None);
    assert_eq!(cfg.api_base, "http://localhost:23119/api");
    assert_eq!(cfg.api_key.as_deref(), Some("file-key"));
    assert_eq!(cfg.library_type, "user");
}

#[test]
fn config_path_ends_with_config_toml() {
    let path = Config::path().to_path();
    assert!(path.ends_with("zotero-mcp/config.toml"));
}

#[test]
fn config_path_is_below_the_configuration_directory() {
    assert_eq!(Config::path().to_path(), config_path(dirs::config_dir()).to_path());
    let dir = PathBuf::from("/home/me/.config");
    let path = config_path(Some(dir.clone()));
    assert_eq!(path.base, Some(dir.clone()));
    assert_eq!(path.parts, vec!["zotero-mcp", "config.toml"]);
    assert_eq!(path.to_path(), dir.join("zotero-mcp").join("config.toml"));
    assert_eq!(
        config_path(None).to_path(),
        PathBuf::from("~/.config").join("zotero-mcp").join("config.toml")
    );
}

#[test]
fn storage_is_set_or_below_home_or_fixed() {
    let home = PathBuf::from("/home/me");
    let set = PathBuf::from("/data");
    assert_eq!(storage_root(Some(set.clone()), Some(home.clone())).to_path(), set);
    assert_eq!(
        storage_root(None, Some(home.clone())).to_path(),
        home.join("Zotero").join("storage")
    );
    assert_eq!(storage_root(None, None).to_path(), PathBuf::from("/Zotero/storage"));
}

#[test]
fn storage_of_this_machine_uses_its_home() {
    assert_eq!(
        user_storage_root(None).to_path(),
        storage_root(None, dirs::home_dir()).to_path()
    );
    let set = PathBuf::from("/data");
    assert_eq!(user_storage_root(Some(set.clone())).to_path(), set);
}
