//! Cross-platform configuration directory discovery, over an explicit
//! operating system and environment.
use vstd::prelude::*;

use crate::text::{chars_of, push_str, str_eq};

verus! {

/// Environment variable that overrides the configuration directory.
pub const CONFIG_DIR_ENV: &'static str = "YSHELL_CONFIG_DIR";

/// Directory name used under XDG-style bases.
pub const APP_DIR_NAME: &'static str = "yshell";

/// Operating-system families that place configuration differently.
#[derive(Debug, Clone, Copy, PartialEq, Eq, Structural)]
pub enum OperatingSystem {
    /// Linux and other Unix-like systems (XDG conventions).
    Unix,
    /// Apple systems (`~/Library/Application Support`).
    MacOs,
    /// Windows (`%APPDATA%`).
    Windows,
}

pub open spec fn os_name(os: OperatingSystem) -> Seq<char> {
    match os {
        OperatingSystem::Unix => "Unix"@,
        OperatingSystem::MacOs => "MacOs"@,
        OperatingSystem::Windows => "Windows"@,
    }
}

impl OperatingSystem {
    /// The variant's name.
    pub fn name(&self) -> (s: &'static str)
        ensures
            s@ == os_name(*self),
    {
        match self {
            OperatingSystem::Unix => "Unix",
            OperatingSystem::MacOs => "MacOs",
            OperatingSystem::Windows => "Windows",
        }
    }
}

/// No configuration directory could be found.
#[derive(Debug, Clone, Copy, PartialEq, Eq, Structural)]
pub enum ConfigPathError {
    /// The environment holds no usable base directory for this system.
    MissingBaseDirectory { os: OperatingSystem },
}

impl ConfigPathError {
    /// The error's display text.
    pub fn describe(&self) -> (s: String)
        ensures
            s@ == "could not discover a YShell config directory for "@ + os_name(self->os),
    {
        let ConfigPathError::MissingBaseDirectory { os } = self;
        let mut s = String::new();
        push_str(&mut s, "could not discover a YShell config directory for ");
        push_str(&mut s, os.name());
        s
    }
}

/// `base` extended by the component `name`, as `Path::join` does it: `name`
/// alone when it is absolute (starts with `/`) or when `base` is empty, else
/// one `/` between them (none added when `base` already ends with one).
pub open spec fn joined(base: Seq<char>, name: Seq<char>) -> Seq<char> {
    if (name.len() > 0 && name[0] == '/') || base.len() == 0 {
        name
    } else if base.last() == '/' {
        base + name
    } else {
        base + "/"@ + name
    }
}

/// `base` joined with `name` (see `joined`).
pub fn join_path(base: &str, name: &str) -> (p: String)
    ensures
        p@ == joined(base@, name@),
{
    let chars = chars_of(base);
    let name_chars = chars_of(name);
    if (name_chars.len() > 0 && name_chars[0] == '/') || chars.len() == 0 {
        return name.to_owned();
    }
    let mut p = String::new();
    push_str(&mut p, base);
    if chars[chars.len() - 1] != '/' {
        push_str(&mut p, "/");
    }
    push_str(&mut p, name);
    p
}

/// The value an environment holds for `key`: the last entry with that key
/// (later entries override earlier ones, as when collected into a map).
pub open spec fn env_value(env: Seq<(Seq<char>, Seq<char>)>, key: Seq<char>) -> Option<Seq<char>>
    decreases env.len(),
{
    if env.len() == 0 {
        None
    } else if env.last().0 == key {
        Some(env.last().1)
    } else {
        env_value(env.drop_last(), key)
    }
}

/// The value for `key` if it is set and not empty.
pub open spec fn non_empty_value(env: Seq<(Seq<char>, Seq<char>)>, key: Seq<char>) -> Option<Seq<char>> {
    match env_value(env, key) {
        Some(v) => if v.len() > 0 {
            Some(v)
        } else {
            None
        },
        None => None,
    }
}

/// The configuration directory: the override if set, else the platform's
/// base (`XDG_CONFIG_HOME/yshell`, `%APPDATA%/YShell` or
/// `~/Library/Application Support/YShell`), else on Unix `~/.config/yshell`.
/// Empty values count as unset.
pub open spec fn config_dir_for(
    os: OperatingSystem,
    env: Seq<(Seq<char>, Seq<char>)>,
) -> Result<Seq<char>, ConfigPathError> {
    match non_empty_value(env, CONFIG_DIR_ENV@) {
        Some(dir) => Ok(dir),
        None => match os {
            OperatingSystem::Windows => match non_empty_value(env, "APPDATA"@) {
                Some(base) => Ok(joined(base, "YShell"@)),
                None => Err(ConfigPathError::MissingBaseDirectory { os }),
            },
            OperatingSystem::MacOs => match non_empty_value(env, "HOME"@) {
                Some(home) => Ok(
                    joined(joined(joined(home, "Library"@), "Application Support"@), "YShell"@),
                ),
                None => Err(ConfigPathError::MissingBaseDirectory { os }),
            },
            OperatingSystem::Unix => match non_empty_value(env, "XDG_CONFIG_HOME"@) {
                Some(base) => Ok(joined(base, APP_DIR_NAME@)),
                None => match non_empty_value(env, "HOME"@) {
                    Some(home) => Ok(joined(joined(home, ".config"@), APP_DIR_NAME@)),
                    None => Err(ConfigPathError::MissingBaseDirectory { os }),
                },
            },
        },
    }
}

/// Discovers the configuration directory for a given system and environment.
#[derive(Debug)]
pub struct ConfigPathResolver {
    os: OperatingSystem,
    env: Vec<(String, String)>,
}

pub open spec fn env_views(env: Seq<(String, String)>) -> Seq<(Seq<char>, Seq<char>)> {
    env.map_values(|p: (String, String)| (p.0@, p.1@))
}

impl ConfigPathResolver {
    pub closed spec fn spec_os(&self) -> OperatingSystem {
        self.os
    }

    pub closed spec fn spec_env(&self) -> Seq<(Seq<char>, Seq<char>)> {
        env_views(self.env@)
    }

    /// A resolver over an explicit system and environment.
    pub fn new(os: OperatingSystem, env: Vec<(String, String)>) -> (r: ConfigPathResolver)
        ensures
            r.spec_os() == os,
            r.spec_env() == env_views(env@),
    {
        ConfigPathResolver { os, env }
    }

    /// The value for `key`, if set and not empty.
    fn non_empty_env(&self, key: &str) -> (v: Option<&str>)
        ensures
            match v {
                Some(s) => non_empty_value(self.spec_env(), key@) == Some(s@),
                None => non_empty_value(self.spec_env(), key@) is None,
            },
    {
        let ghost e = self.spec_env();
        let mut i = self.env.len();
        assert(e.take(i as int) =~= e);
        while i > 0
            invariant
                i <= self.env@.len(),
                e == env_views(self.env@),
                env_value(e, key@) == env_value(e.take(i as int), key@),
            decreases i,
        {
            assert(e.take(i as int).last() == e[i - 1]);
            assert(e.take(i as int).drop_last() =~= e.take(i - 1));
            if str_eq(self.env[i - 1].0.as_str(), key) {
                let value = self.env[i - 1].1.as_str();
                let chars = chars_of(value);
                if chars.len() == 0 {
                    return None;
                }
                return Some(value);
            }
            i = i - 1;
        }
        None
    }

    /// The configuration directory (see `config_dir_for`).
    pub fn discover_config_dir(&self) -> (r: Result<String, ConfigPathError>)
        ensures
            match config_dir_for(self.spec_os(), self.spec_env()) {
                Ok(dir) => r matches Ok(p) && p@ == dir,
                Err(e) => r == Err::<String, ConfigPathError>(e),
            },
    {
        match self.non_empty_env(CONFIG_DIR_ENV) {
            Some(dir) => {
                return Ok(dir.to_owned());
            },
            None => {},
        }
        match self.os {
            OperatingSystem::Windows => match self.non_empty_env("APPDATA") {
                Some(base) => Ok(join_path(base, "YShell")),
                None => Err(ConfigPathError::MissingBaseDirectory { os: self.os }),
            },
            OperatingSystem::MacOs => match self.non_empty_env("HOME") {
                Some(home) => {
                    let a = join_path(home, "Library");
                    let b = join_path(a.as_str(), "Application Support");
                    Ok(join_path(b.as_str(), "YShell"))
                },
                None => Err(ConfigPathError::MissingBaseDirectory { os: self.os }),
            },
            OperatingSystem::Unix => match self.non_empty_env("XDG_CONFIG_HOME") {
                Some(base) => Ok(join_path(base, APP_DIR_NAME)),
                None => match self.non_empty_env("HOME") {
                    Some(home) => {
                        let a = join_path(home, ".config");
                        Ok(join_path(a.as_str(), APP_DIR_NAME))
                    },
                    None => Err(ConfigPathError::MissingBaseDirectory { os: self.os }),
                },
            },
        }
    }
}

/// The override always wins when it is set and not empty, whatever the system.
pub proof fn law_override_wins(
    os: OperatingSystem,
    env: Seq<(Seq<char>, Seq<char>)>,
    dir: Seq<char>,
)
    requires
        dir.len() > 0,
    ensures
        config_dir_for(os, env.push((CONFIG_DIR_ENV@, dir))) == Ok::<Seq<char>, ConfigPathError>(dir),
{
    let e = env.push((CONFIG_DIR_ENV@, dir));
    assert(e.last() == (CONFIG_DIR_ENV@, dir));
}

} // verus!
