use stitch_sync::catalog::{get_machine_info, MachineInfo};
use stitch_sync::config::{Config, ConfigCommand, ConfigKey, ConfigManager};

fn manager() -> ConfigManager {
    ConfigManager::new("/tmp/stitch-sync/config.toml".to_string(), Config::default())
}

#[test]
fn config_set_show_clear() {
    let mut m = manager();
    let (ok, lines) = ConfigCommand::SetValue {
        key: ConfigKey::WatchDir,
        value: Some("/new/watch/dir".to_string()),
    }
    .execute(&mut m);
    assert!(ok);
    assert_eq!(lines, vec!["Watch directory set".to_string()]);
    let (_, lines) = ConfigCommand::Show.execute(&mut m);
    assert_eq!(lines, vec!["Watch directory: /new/watch/dir".to_string()]);
    let (ok, _) = ConfigCommand::Clear { key: ConfigKey::WatchDir }.execute(&mut m);
    assert!(ok);
    assert_eq!(m.config.watch_dir, None);
}

#[test]
fn config_set_without_value_changes_nothing() {
    let mut m = manager();
    m.set_machine("Brother PE800".to_string());
    let (ok, lines) = ConfigCommand::SetValue { key: ConfigKey::Machine, value: None }.execute(&mut m);
    assert!(!ok);
    assert_eq!(lines, vec!["No machine selected".to_string()]);
    assert_eq!(m.config.machine.as_deref(), Some("Brother PE800"));
    m.clear_machine();
    assert_eq!(m.config.machine, None);
    m.set_watch_dir("/w".to_string());
    m.clear_watch_dir();
    assert_eq!(m.config.watch_dir, None);
}

#[test]
fn machine_info_resolves_formats() {
    let info = get_machine_info("Brother PE800").unwrap();
    assert_eq!(info.name, "Brother PE800");
    let exts: Vec<&str> = info.formats.iter().map(|f| f.extension.as_str()).collect();
    assert_eq!(exts, vec!["pes", "dst"]);
    assert!(get_machine_info("brother pe800").is_none());
    let info = MachineInfo::new("X".to_string(), vec!["dst", "nope", "jef"], None, None, None);
    let exts: Vec<&str> = info.formats.iter().map(|f| f.extension.as_str()).collect();
    assert_eq!(exts, vec!["dst", "jef"]);
}
