//! The bridge's configuration: its defaults, where it is kept, and what is used when
//! it cannot be read.

use std::path::PathBuf;
use vstd::prelude::*;

verus! {

/// Base URL of the signaling endpoint that carries the one-time handshake.
pub const DEFAULT_SIGNALING_URL: &'static str = "https://pieeg-cloud.fly.dev";

/// Port of the local control API.
pub const DEFAULT_CONTROL_PORT: u16 = 47800;

/// The signaling endpoint used where none is configured.
pub fn default_signaling_url() -> (r: String)
    ensures
        r@ == "https://pieeg-cloud.fly.dev"@,
{
    DEFAULT_SIGNALING_URL.to_owned()
}

/// The control port used where none is configured.
pub fn default_control_port() -> (r: u16)
    ensures
        r == 47800,
{
    DEFAULT_CONTROL_PORT
}

/// The value of a switch that is on where it is not configured.
pub fn default_true() -> (r: bool)
    ensures
        r,
{
    true
}

/// Configuration of the OSC adapter.
#[derive(Clone, Debug)]
pub struct OscConfig {
    /// Whether the frames of a session are forwarded; those of a peer on this machine
    /// always are.
    pub enabled: bool,
    /// The host that receives the packets.
    pub host: String,
    /// The port that receives the packets.
    pub port: u16,
    /// The address under which flattened frames stand.
    pub prefix: String,
    /// Whether frames without an envelope are flattened into addresses.
    pub flatten: bool,
}

impl OscConfig {
    /// The host used where none is configured.
    pub fn default_host() -> (r: String)
        ensures
            r@ == "127.0.0.1"@,
    {
        "127.0.0.1".to_owned()
    }

    /// The port used where none is configured.
    pub fn default_port() -> (r: u16)
        ensures
            r == 9000,
    {
        9000
    }

    /// The address prefix used where none is configured.
    pub fn default_prefix() -> (r: String)
        ensures
            r@ == "/pieeg"@,
    {
        "/pieeg".to_owned()
    }

    /// Whether this is the configuration that is used where none is given.
    pub open spec fn is_default(self) -> bool {
        &&& self.enabled
        &&& self.host@ == "127.0.0.1"@
        &&& self.port == 9000
        &&& self.prefix@ == "/pieeg"@
        &&& self.flatten
    }
}

impl Default for OscConfig {
    fn default() -> (r: Self)
        ensures
            r.is_default(),
    {
        OscConfig {
            enabled: true,
            host: Self::default_host(),
            port: Self::default_port(),
            prefix: Self::default_prefix(),
            flatten: true,
        }
    }
}

/// The whole configuration of the bridge.
#[derive(Clone, Debug)]
pub struct Config {
    /// The signaling endpoint for the one-time handshake.
    pub signaling_url: String,
    /// The current session code.
    pub session_id: Option<String>,
    /// The port of the local control API.
    pub control_port: u16,
    /// Whether a dropped session is taken up again.
    pub auto_reconnect: bool,
    /// The sites that may call the control API from another origin.
    pub allowed_origins: Vec<String>,
    /// The OSC adapter.
    pub osc: OscConfig,
}

/// The bare values of each field; the OSC adapter keeps its own defaults.
impl Default for Config {
    fn default() -> (r: Self)
        ensures
            r.signaling_url@ == Seq::<char>::empty(),
            r.session_id is None,
            r.control_port == 0,
            !r.auto_reconnect,
            r.allowed_origins@ == Seq::<String>::empty(),
            r.osc.is_default(),
    {
        Config {
            signaling_url: String::new(),
            session_id: None,
            control_port: 0,
            auto_reconnect: false,
            allowed_origins: Vec::new(),
            osc: OscConfig::default(),
        }
    }
}

/// What became of the configuration file.
pub enum ConfigFile {
    /// There is no place for it.
    NoDirectory,
    /// It does not exist.
    Missing,
    /// It could not be read; why.
    Unreadable(String),
    /// It does not hold a configuration; why.
    Malformed(String),
    /// It holds this configuration.
    Parsed(Config),
}

/// Why no configuration could be had.
#[derive(Debug)]
pub enum ConfigError {
    /// The system names no configuration directory.
    NoDirectory,
    /// The file could not be read; why.
    Unreadable(String),
    /// The file does not hold a configuration; why.
    Malformed(String),
}

/// An owned path of the file system.
#[verifier::external_type_specification]
#[verifier::external_body]
pub struct ExPathBuf(PathBuf);

/// The components of a path, from the root down.
pub uninterp spec fn path_parts(p: PathBuf) -> Seq<Seq<char>>;

/// Whether `name` can be a single component of a path on every platform.
pub open spec fn plain_name(name: Seq<char>) -> bool {
    &&& name.len() > 0
    &&& !name.contains('/')
    &&& !name.contains('\\')
    &&& !name.contains(':')
    &&& name != "."@
    &&& name != ".."@
}

/// `Path::join` with a plain file name: the name becomes the last component.
#[verifier::external_body]
fn path_join(dir: &PathBuf, name: &str) -> (r: PathBuf)
    requires
        plain_name(name@),
    ensures
        path_parts(r) == path_parts(*dir).push(name@),
{
    dir.join(name)
}

/// `directories::BaseDirs::new` looks up the user's directories, of which `config_dir`
/// is taken. What comes back depends on the system and on the environment; nothing is
/// claimed of it.
#[verifier::external_body]
fn base_config_dir() -> Option<PathBuf> {
    directories::BaseDirs::new().map(|dirs| dirs.config_dir().to_path_buf())
}

/// The systems that name the bridge's directory each in their own way.
#[derive(Clone, Copy, Debug, PartialEq, Eq, Structural)]
pub enum Platform {
    /// Windows.
    Windows,
    /// macOS.
    MacOs,
    /// Linux, and any other system.
    Linux,
}

/// The bridge's directory below the user's configuration directory.
pub open spec fn project_parts(platform: Platform) -> Seq<Seq<char>> {
    match platform {
        Platform::Windows => seq!["pieeg"@, "LocalBridge"@],
        Platform::MacOs => seq!["com.pieeg.LocalBridge"@],
        Platform::Linux => seq!["pieeg-local-bridge"@],
    }
}

impl Config {
    /// Whether this is the configuration that is used where none is given.
    pub open spec fn is_default(self) -> bool {
        &&& self.signaling_url@ == "https://pieeg-cloud.fly.dev"@
        &&& self.session_id is None
        &&& self.control_port == 47800
        &&& self.auto_reconnect
        &&& self.allowed_origins@ == Seq::<String>::empty()
        &&& self.osc.is_default()
    }

    /// The configuration that is used where none is given.
    pub fn with_defaults() -> (r: Self)
        ensures
            r.is_default(),
    {
        Config {
            signaling_url: default_signaling_url(),
            session_id: None,
            control_port: default_control_port(),
            auto_reconnect: true,
            allowed_origins: Vec::new(),
            osc: OscConfig::default(),
        }
    }

    /// The directory of the configuration file, by what the lookup of the user's
    /// configuration directory found.
    pub fn dir_in(found: Option<PathBuf>, platform: Platform) -> (r: Result<PathBuf, ConfigError>)
        ensures
            match found {
                Some(base) => r matches Ok(dir) && path_parts(dir) == path_parts(base)
                    + project_parts(platform),
                None => r == Err::<PathBuf, ConfigError>(ConfigError::NoDirectory),
            },
    {
        proof {
            reveal_strlit("pieeg");
            reveal_strlit("LocalBridge");
            reveal_strlit("com.pieeg.LocalBridge");
            reveal_strlit("pieeg-local-bridge");
            reveal_strlit(".");
            reveal_strlit("..");
        }
        match found {
            Some(base) => {
                let dir = match platform {
                    Platform::Windows => {
                        let organization = path_join(&base, "pieeg");
                        path_join(&organization, "LocalBridge")
                    },
                    Platform::MacOs => path_join(&base, "com.pieeg.LocalBridge"),
                    Platform::Linux => path_join(&base, "pieeg-local-bridge"),
                };
                assert(path_parts(dir) == path_parts(base) + project_parts(platform));
                Ok(dir)
            },
            None => Err(ConfigError::NoDirectory),
        }
    }

    /// The directory of the configuration file: the bridge's own below the user's
    /// configuration directory.
    pub fn config_dir(platform: Platform) -> (r: Result<PathBuf, ConfigError>)
        ensures
            match r {
                Ok(dir) => exists|base: PathBuf|
                    path_parts(dir) == #[trigger] path_parts(base) + project_parts(platform),
                Err(e) => e == ConfigError::NoDirectory,
            },
    {
        let found = base_config_dir();
        Self::dir_in(found, platform)
    }

    /// The configuration file in the directory `dir`.
    pub fn path_in(dir: Result<PathBuf, ConfigError>) -> (r: Result<PathBuf, ConfigError>)
        ensures
            match dir {
                Ok(d) => r matches Ok(p) && path_parts(p) == path_parts(d).push("config.json"@),
                Err(e) => r == Err::<PathBuf, ConfigError>(e),
            },
    {
        match dir {
            Ok(d) => {
                proof {
                    reveal_strlit("config.json");
                    reveal_strlit(".");
                    reveal_strlit("..");
                }
                Ok(path_join(&d, "config.json"))
            },
            Err(e) => Err(e),
        }
    }

    /// The configuration file: `config.json` in the bridge's directory.
    pub fn config_path(platform: Platform) -> (r: Result<PathBuf, ConfigError>)
        ensures
            match r {
                Ok(p) => exists|base: PathBuf|
                    path_parts(p) == (#[trigger] path_parts(base) + project_parts(platform)).push(
                        "config.json"@,
                    ),
                Err(e) => e == ConfigError::NoDirectory,
            },
    {
        Self::path_in(Self::config_dir(platform))
    }

    /// The configuration that the file gives: the defaults where it does not exist.
    pub fn try_load(file: ConfigFile) -> (r: Result<Self, ConfigError>)
        ensures
            match file {
                ConfigFile::NoDirectory => r == Err::<Config, ConfigError>(
                    ConfigError::NoDirectory,
                ),
                ConfigFile::Missing => r matches Ok(c) && c.is_default(),
                ConfigFile::Unreadable(e) => r == Err::<Config, ConfigError>(
                    ConfigError::Unreadable(e),
                ),
                ConfigFile::Malformed(e) => r == Err::<Config, ConfigError>(
                    ConfigError::Malformed(e),
                ),
                ConfigFile::Parsed(c) => r == Ok::<Config, ConfigError>(c),
            },
    {
        match file {
            ConfigFile::NoDirectory => Err(ConfigError::NoDirectory),
            ConfigFile::Missing => Ok(Self::with_defaults()),
            ConfigFile::Unreadable(e) => Err(ConfigError::Unreadable(e)),
            ConfigFile::Malformed(e) => Err(ConfigError::Malformed(e)),
            ConfigFile::Parsed(c) => Ok(c),
        }
    }

    /// The configuration to start with. It never fails: where the file gives none, the
    /// defaults are used.
    pub fn load(file: ConfigFile) -> (r: Self)
        ensures
            match file {
                ConfigFile::Parsed(c) => r == c,
                _ => r.is_default(),
            },
    {
        match Self::try_load(file) {
            Ok(c) => c,
            Err(_) => Self::with_defaults(),
        }
    }
}

} // verus!
