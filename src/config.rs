//! The persisted settings and the edits the `config` command makes to
//! them. Reading and writing the settings file is left to the caller.
use vstd::prelude::*;

verus! {

/// The settings kept between runs.
#[derive(Clone, Debug, Default)]
pub struct Config {
    pub watch_dir: Option<String>,
    pub machine: Option<String>,
}

/// The settings a user can set or clear.
#[derive(Clone, Copy, Debug, PartialEq, Eq, Structural)]
pub enum ConfigKey {
    WatchDir,
    Machine,
}

/// The settings of one run, with the path of the file they live in.
#[derive(Clone, Debug)]
pub struct ConfigManager {
    pub config_path: String,
    pub config: Config,
}

impl ConfigManager {
    /// Settings as read from `config_path`.
    pub fn new(config_path: String, config: Config) -> (r: ConfigManager)
        ensures
            r.config_path == config_path,
            r.config == config,
    {
        ConfigManager { config_path, config }
    }

    pub fn set_watch_dir(&mut self, path: String)
        ensures
            final(self).config.watch_dir == Some(path),
            final(self).config.machine == old(self).config.machine,
            final(self).config_path == old(self).config_path,
    {
        self.config.watch_dir = Some(path);
    }

    pub fn set_machine(&mut self, machine: String)
        ensures
            final(self).config.machine == Some(machine),
            final(self).config.watch_dir == old(self).config.watch_dir,
            final(self).config_path == old(self).config_path,
    {
        self.config.machine = Some(machine);
    }

    pub fn clear_watch_dir(&mut self)
        ensures
            final(self).config.watch_dir is None,
            final(self).config.machine == old(self).config.machine,
            final(self).config_path == old(self).config_path,
    {
        self.config.watch_dir = None;
    }

    pub fn clear_machine(&mut self)
        ensures
            final(self).config.machine is None,
            final(self).config.watch_dir == old(self).config.watch_dir,
            final(self).config_path == old(self).config_path,
    {
        self.config.machine = None;
    }
}

/// A `config` sub-command.
#[derive(Clone, Debug)]
pub enum ConfigCommand {
    Show,
    /// Set `key` to `value`; for the machine, `value` is the name the user
    /// settled on, if any.
    SetValue { key: ConfigKey, value: Option<String> },
    Clear { key: ConfigKey },
}

/// `prefix` followed by `value`.
fn labelled(prefix: &str, value: &str) -> (r: String)
    ensures
        r@ == prefix@ + value@,
{
    let mut s = String::from_str(prefix);
    s.append(value);
    s
}

/// What a `config` command does to the settings (`ok` is false when a
/// value was missing and nothing changed).
pub open spec fn config_effect(c: ConfigCommand, before: Config, after: Config, ok: bool) -> bool {
    match c {
        ConfigCommand::Show => after == before && ok,
        ConfigCommand::SetValue { key, value } => match value {
            None => after == before && !ok,
            Some(v) => ok && match key {
                ConfigKey::WatchDir => after == Config { watch_dir: Some(v), ..before },
                ConfigKey::Machine => after == Config { machine: Some(v), ..before },
            },
        },
        ConfigCommand::Clear { key } => ok && match key {
            ConfigKey::WatchDir => after == Config { watch_dir: None, ..before },
            ConfigKey::Machine => after == Config { machine: None, ..before },
        },
    }
}

impl ConfigCommand {
    /// Applies the command to the settings and returns whether it took
    /// effect and the lines to show the user.
    pub fn execute(self, manager: &mut ConfigManager) -> (r: (bool, Vec<String>))
        ensures
            config_effect(self, old(manager).config, final(manager).config, r.0),
            final(manager).config_path == old(manager).config_path,
    {
        let mut lines: Vec<String> = Vec::new();
        match self {
            ConfigCommand::Show => {
                match &manager.config.watch_dir {
                    Some(d) => lines.push(labelled("Watch directory: ", d.as_str())),
                    None => {},
                }
                match &manager.config.machine {
                    Some(m) => lines.push(labelled("Default machine: ", m.as_str())),
                    None => {},
                }
                (true, lines)
            },
            ConfigCommand::SetValue { key, value } => match value {
                None => {
                    match key {
                        ConfigKey::WatchDir => lines.push(String::from_str("Watch directory path is required")),
                        ConfigKey::Machine => lines.push(String::from_str("No machine selected")),
                    }
                    (false, lines)
                },
                Some(v) => {
                    match key {
                        ConfigKey::WatchDir => {
                            manager.set_watch_dir(v);
                            lines.push(String::from_str("Watch directory set"));
                        },
                        ConfigKey::Machine => {
                            manager.set_machine(v);
                            lines.push(String::from_str("Default machine set"));
                        },
                    }
                    (true, lines)
                },
            },
            ConfigCommand::Clear { key } => {
                match key {
                    ConfigKey::WatchDir => {
                        manager.clear_watch_dir();
                        lines.push(String::from_str("Watch directory cleared"));
                    },
                    ConfigKey::Machine => {
                        manager.clear_machine();
                        lines.push(String::from_str("Default machine cleared"));
                    },
                }
                (true, lines)
            },
        }
    }
}

} // verus!
