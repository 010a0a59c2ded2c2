use pieeg_local_bridge::config::{Config, ConfigError, ConfigFile, OscConfig, Platform};
use std::path::PathBuf;

fn is_default(c: &Config) -> bool {
    c.signaling_url == "https://pieeg-cloud.fly.dev"
        && c.session_id.is_none()
        && c.control_port == 47800
        && c.auto_reconnect
        && c.allowed_origins.is_empty()
        && c.osc.enabled
        && c.osc.host == "127.0.0.1"
        && c.osc.port == 9000
        && c.osc.prefix == "/pieeg"
        && c.osc.flatten
}

#[test]
fn defaults_are_the_documented_ones() {
    assert!(is_default(&Config::with_defaults()));
    assert_eq!(OscConfig::default_host(), "127.0.0.1");
    assert_eq!(OscConfig::default_port(), 9000);
    assert_eq!(OscConfig::default_prefix(), "/pieeg");
}

#[test]
fn blank_configuration_has_bare_fields() {
    let c = Config::default();
    assert_eq!(c.signaling_url, "");
    assert_eq!(c.session_id, None);
    assert_eq!(c.control_port, 0);
    assert!(!c.auto_reconnect);
    assert!(c.allowed_origins.is_empty());
    assert_eq!(c.osc.port, 9000);
}

#[test]
fn loading_never_fails() {
    let mut c = Config::with_defaults();
    c.control_port = 1;
    assert_eq!(Config::load(ConfigFile::Parsed(c)).control_port, 1);
    assert!(is_default(&Config::load(ConfigFile::Missing)));
    assert!(is_default(&Config::load(ConfigFile::NoDirectory)));
    assert!(is_default(&Config::load(ConfigFile::Unreadable("denied".to_string()))));
    assert!(is_default(&Config::load(ConfigFile::Malformed("eof".to_string()))));
}

#[test]
fn reasons_for_not_loading_are_kept() {
    assert!(is_default(&Config::try_load(ConfigFile::Missing).unwrap()));
    assert!(matches!(
        Config::try_load(ConfigFile::NoDirectory),
        Err(ConfigError::NoDirectory)
    ));
    assert!(matches!(
        Config::try_load(ConfigFile::Unreadable("denied".to_string())),
        Err(ConfigError::Unreadable(e)) if e == "denied"
    ));
    assert!(matches!(
        Config::try_load(ConfigFile::Malformed("eof".to_string())),
        Err(ConfigError::Malformed(e)) if e == "eof"
    ));
}

#[test]
fn file_stands_in_the_directory_of_the_platform() {
    let base = PathBuf::from("base");
    for (platform, parts) in [
        (Platform::Windows, vec!["base", "pieeg", "LocalBridge", "config.json"]),
        (Platform::MacOs, vec!["base", "com.pieeg.LocalBridge", "config.json"]),
        (Platform::Linux, vec!["base", "pieeg-local-bridge", "config.json"]),
    ] {
        let path = Config::path_in(Config::dir_in(Some(base.clone()), platform)).unwrap();
        assert_eq!(path, parts.iter().collect::<PathBuf>());
    }
}

#[test]
fn without_a_directory_there_is_no_file() {
    assert!(matches!(
        Config::path_in(Config::dir_in(None, Platform::Linux)),
        Err(ConfigError::NoDirectory)
    ));
}

#[test]
fn file_stands_below_the_directory_of_the_user() {
    let user = directories::BaseDirs::new().map(|d| d.config_dir().to_path_buf());
    match (Config::config_path(Platform::Linux), user) {
        (Ok(path), Some(user)) => {
            assert_eq!(path, user.join("pieeg-local-bridge").join("config.json"));
            assert_eq!(
                Config::config_dir(Platform::Linux).unwrap(),
                user.join("pieeg-local-bridge")
            );
        }
        (Err(ConfigError::NoDirectory), None) => {}
        _ => panic!("the lookups differ"),
    }
}
