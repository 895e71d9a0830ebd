//! User configuration plus resolved application paths. Defaults are sensible so
//! the app runs with no config file present.

use crate::errors::{Error, Fault, Result};
use crate::text;
use vstd::prelude::*;

verus! {

#[derive(Debug)]
pub struct Config {
    /// Provider host, injected into the provider layer (never hard-coded there).
    pub base_url: String,
    /// mpv binary name/path. Spawned with an argument array, never via a shell.
    pub mpv_path: String,
    /// Opt in to embedded in-terminal (Kitty) playback. Default is the standalone
    /// mpv window, which is higher quality and has no terminal image-cache RAM.
    /// Embedded is only used when this is true AND the terminal supports Kitty
    /// graphics; otherwise the window backend is used.
    pub embedded_player: bool,
    /// Where posters/metadata/HLS segments are cached.
    pub cache_dir: Option<String>,
    /// Seconds between periodic playback-progress saves.
    pub progress_save_interval_secs: u64,
    pub network: Network,
    pub playback: Playback,
}

#[derive(Debug)]
pub struct Network {
    pub timeout_secs: u64,
    pub max_retries: u8,
    pub user_agent: String,
}

/// Embedded-playback tuning. The buffer caps bound mpv's own read-ahead so it
/// doesn't hold large amounts of the stream in RAM.
#[derive(Debug)]
pub struct Playback {
    /// Max forward demuxer cache in MiB (mpv `--demuxer-max-bytes`).
    pub max_buffer_mib: u64,
    /// Seconds of stream to read ahead (mpv `--demuxer-readahead-secs`/`--cache-secs`).
    pub readahead_secs: u64,
    /// How many seconds the `i` key jumps to skip an opening. Typical anime OP ≈ 90 s.
    pub skip_intro_secs: u64,
    /// Preferred source when playing directly (Enter) without the picker. Matched
    /// against source labels like "vidmoly (VF)" by tokens (host + language), case-
    /// insensitively; if none matches, the most reliable available source is used.
    pub default_source: String,
}

/// What a configuration holds.
pub ghost struct ConfigModel {
    pub base_url: Seq<char>,
    pub mpv_path: Seq<char>,
    pub embedded_player: bool,
    pub cache_dir: Option<Seq<char>>,
    pub progress_save_interval_secs: u64,
    pub timeout_secs: u64,
    pub max_retries: u8,
    pub user_agent: Seq<char>,
    pub max_buffer_mib: u64,
    pub readahead_secs: u64,
    pub skip_intro_secs: u64,
    pub default_source: Seq<char>,
}

impl View for Config {
    type V = ConfigModel;

    open spec fn view(&self) -> ConfigModel {
        ConfigModel {
            base_url: self.base_url@,
            mpv_path: self.mpv_path@,
            embedded_player: self.embedded_player,
            cache_dir: text::opt_text(self.cache_dir),
            progress_save_interval_secs: self.progress_save_interval_secs,
            timeout_secs: self.network.timeout_secs,
            max_retries: self.network.max_retries,
            user_agent: self.network.user_agent@,
            max_buffer_mib: self.playback.max_buffer_mib,
            readahead_secs: self.playback.readahead_secs,
            skip_intro_secs: self.playback.skip_intro_secs,
            default_source: self.playback.default_source@,
        }
    }
}

/// The configuration without a config file.
pub open spec fn default_config() -> ConfigModel {
    ConfigModel {
        base_url: Seq::empty(),
        mpv_path: "mpv"@,
        embedded_player: false,
        cache_dir: None,
        progress_save_interval_secs: 10,
        timeout_secs: 20,
        max_retries: 2,
        user_agent: "anime-tui/0.1.0"@,
        max_buffer_mib: 64,
        readahead_secs: 10,
        skip_intro_secs: 85,
        default_source: "vidmoly (VF)"@,
    }
}

impl Default for Config {
    fn default() -> (r: Self)
        ensures
            r@ == default_config(),
    {
        Config {
            base_url: String::new(),
            mpv_path: "mpv".to_string(),
            embedded_player: false,
            cache_dir: None,
            progress_save_interval_secs: 10,
            network: Network::default(),
            playback: Playback::default(),
        }
    }
}

impl Default for Network {
    fn default() -> (r: Self)
        ensures
            r.timeout_secs == 20,
            r.max_retries == 2,
            r.user_agent@ == "anime-tui/0.1.0"@,
    {
        Network { timeout_secs: 20, max_retries: 2, user_agent: "anime-tui/0.1.0".to_string() }
    }
}

impl Default for Playback {
    fn default() -> (r: Self)
        ensures
            r.max_buffer_mib == 64,
            r.readahead_secs == 10,
            r.skip_intro_secs == 85,
            r.default_source@ == "vidmoly (VF)"@,
    {
        Playback {
            max_buffer_mib: 64,
            readahead_secs: 10,
            skip_intro_secs: 85,
            default_source: "vidmoly (VF)".to_string(),
        }
    }
}

/// What a config file says. Whatever it leaves out keeps its default.
#[derive(Debug)]
pub struct PartialConfig {
    pub base_url: Option<String>,
    pub mpv_path: Option<String>,
    pub embedded_player: Option<bool>,
    pub cache_dir: Option<String>,
    pub progress_save_interval_secs: Option<u64>,
    pub timeout_secs: Option<u64>,
    pub max_retries: Option<u8>,
    pub user_agent: Option<String>,
    pub max_buffer_mib: Option<u64>,
    pub readahead_secs: Option<u64>,
    pub skip_intro_secs: Option<u64>,
    pub default_source: Option<String>,
}

/// A value, or its default.
pub open spec fn or_default<T>(given: Option<T>, default: T) -> T {
    match given {
        Some(t) => t,
        None => default,
    }
}

/// The configuration that a config file gives.
pub open spec fn completed(p: PartialConfig) -> ConfigModel {
    let d = default_config();
    ConfigModel {
        base_url: or_default(text::opt_text(p.base_url), d.base_url),
        mpv_path: or_default(text::opt_text(p.mpv_path), d.mpv_path),
        embedded_player: or_default(p.embedded_player, d.embedded_player),
        cache_dir: text::opt_text(p.cache_dir),
        progress_save_interval_secs: or_default(
            p.progress_save_interval_secs,
            d.progress_save_interval_secs,
        ),
        timeout_secs: or_default(p.timeout_secs, d.timeout_secs),
        max_retries: or_default(p.max_retries, d.max_retries),
        user_agent: or_default(text::opt_text(p.user_agent), d.user_agent),
        max_buffer_mib: or_default(p.max_buffer_mib, d.max_buffer_mib),
        readahead_secs: or_default(p.readahead_secs, d.readahead_secs),
        skip_intro_secs: or_default(p.skip_intro_secs, d.skip_intro_secs),
        default_source: or_default(text::opt_text(p.default_source), d.default_source),
    }
}

/// What a config file gives is taken as it is, each value for itself, and what it leaves
/// out is as without a file.
pub proof fn law_completed(p: PartialConfig)
    ensures
        ({
            let c = completed(p);
            let d = default_config();
            &&& c.base_url == text::opt_text(p.base_url).unwrap_or(d.base_url)
            &&& c.mpv_path == text::opt_text(p.mpv_path).unwrap_or(d.mpv_path)
            &&& c.embedded_player == p.embedded_player.unwrap_or(d.embedded_player)
            &&& c.cache_dir == text::opt_text(p.cache_dir)
            &&& c.progress_save_interval_secs == p.progress_save_interval_secs.unwrap_or(
                d.progress_save_interval_secs,
            )
            &&& c.timeout_secs == p.timeout_secs.unwrap_or(d.timeout_secs)
            &&& c.max_retries == p.max_retries.unwrap_or(d.max_retries)
            &&& c.user_agent == text::opt_text(p.user_agent).unwrap_or(d.user_agent)
            &&& c.max_buffer_mib == p.max_buffer_mib.unwrap_or(d.max_buffer_mib)
            &&& c.readahead_secs == p.readahead_secs.unwrap_or(d.readahead_secs)
            &&& c.skip_intro_secs == p.skip_intro_secs.unwrap_or(d.skip_intro_secs)
            &&& c.default_source == text::opt_text(p.default_source).unwrap_or(d.default_source)
        }),
        p.base_url is None && p.mpv_path is None && p.embedded_player is None && p.cache_dir is None
            && p.progress_save_interval_secs is None && p.timeout_secs is None && p.max_retries is None
            && p.user_agent is None && p.max_buffer_mib is None && p.readahead_secs is None
            && p.skip_intro_secs is None && p.default_source is None ==> completed(p)
            == default_config(),
{
}

fn given_or<T>(given: Option<T>, default: T) -> (r: T)
    ensures
        r == or_default(given, default),
{
    match given {
        Some(t) => t,
        None => default,
    }
}

impl PartialConfig {
    /// The configuration with what the file leaves out filled in.
    pub fn complete(self) -> (r: Config)
        ensures
            r@ == completed(self),
    {
        let d = Config::default();
        Config {
            base_url: given_or(self.base_url, d.base_url),
            mpv_path: given_or(self.mpv_path, d.mpv_path),
            embedded_player: given_or(self.embedded_player, d.embedded_player),
            cache_dir: self.cache_dir,
            progress_save_interval_secs: given_or(
                self.progress_save_interval_secs,
                d.progress_save_interval_secs,
            ),
            network: Network {
                timeout_secs: given_or(self.timeout_secs, d.network.timeout_secs),
                max_retries: given_or(self.max_retries, d.network.max_retries),
                user_agent: given_or(self.user_agent, d.network.user_agent),
            },
            playback: Playback {
                max_buffer_mib: given_or(self.max_buffer_mib, d.playback.max_buffer_mib),
                readahead_secs: given_or(self.readahead_secs, d.playback.readahead_secs),
                skip_intro_secs: given_or(self.skip_intro_secs, d.playback.skip_intro_secs),
                default_source: given_or(self.default_source, d.playback.default_source),
            },
        }
    }
}

/// What came of reading the config file.
#[derive(Debug)]
pub enum ConfigFile {
    /// The file was read: what it says, or why it says nothing.
    Read(std::result::Result<PartialConfig, String>),
    /// There is no such file.
    Missing,
    /// The file is there and could not be read.
    Unreadable(String),
}

/// The configuration that the outcome of reading a file leads to. A missing file
/// yields defaults; a present-but-invalid file is an error.
pub open spec fn loaded(file: ConfigFile, r: Result<Config>) -> bool {
    match (file, r) {
        (ConfigFile::Read(Ok(p)), Ok(c)) => c@ == completed(p),
        (ConfigFile::Read(Err(m)), Err(e)) => e@ == Fault::Config(m@),
        (ConfigFile::Missing, Ok(c)) => c@ == default_config(),
        (ConfigFile::Unreadable(m), Err(e)) => e@ == Fault::Io(m@),
        _ => false,
    }
}

/// Without a config file the app runs offline, in a window of its own, with mpv from the
/// path, saves every ten seconds, and prefers vidmoly in French.
pub proof fn law_defaults()
    ensures
        default_config().base_url.len() == 0,
        default_config().mpv_path == "mpv"@,
        !default_config().embedded_player,
        default_config().cache_dir is None,
        default_config().progress_save_interval_secs == 10,
        default_config().timeout_secs == 20,
        default_config().max_retries == 2,
        default_config().max_buffer_mib == 64,
        default_config().readahead_secs == 10,
        default_config().skip_intro_secs == 85,
        default_config().default_source == "vidmoly (VF)"@,
{
}

/// A missing file gives the defaults, a file that can be read what it says, and any other
/// an error that says why.
pub proof fn law_loaded(p: PartialConfig, m: String, r: Result<Config>)
    ensures
        loaded(ConfigFile::Missing, r) ==> (r matches Ok(c) && c@ == default_config()),
        loaded(ConfigFile::Read(Ok(p)), r) ==> (r matches Ok(c) && c@ == completed(p)),
        loaded(ConfigFile::Read(Err(m)), r) ==> (r matches Err(e) && e@ == Fault::Config(m@)),
        loaded(ConfigFile::Unreadable(m), r) ==> (r matches Err(e) && e@ == Fault::Io(m@)),
{
}

/// The error that says that the platform has no directory for the app.
pub open spec fn no_dirs() -> Fault {
    Fault::Config("cannot determine platform directories"@)
}

/// `dir`, or the error that there is none.
fn platform(dir: Option<&str>) -> (r: Result<&str>)
    ensures
        match (r, dir) {
            (Ok(d), Some(p)) => d@ == p@,
            (Err(e), None) => e@ == no_dirs(),
            _ => false,
        },
{
    match dir {
        Some(d) => Ok(d),
        None => Err(Error::Config("cannot determine platform directories".to_string())),
    }
}

impl Config {
    /// The configuration of the file in the platform's config directory.
    pub fn load(config_dir: Option<&str>, file: ConfigFile) -> (r: Result<Self>)
        ensures
            config_dir is Some ==> loaded(file, r),
            config_dir is None ==> (r matches Err(e) && e@ == no_dirs()),
    {
        match platform(config_dir) {
            Ok(_) => Self::load_from(file),
            Err(e) => Err(e),
        }
    }

    /// The configuration of a specific file. A missing file yields defaults (so the app
    /// runs out of the box); a present-but-invalid file is an error.
    pub fn load_from(file: ConfigFile) -> (r: Result<Self>)
        ensures
            loaded(file, r),
    {
        match file {
            ConfigFile::Read(Ok(p)) => Ok(p.complete()),
            ConfigFile::Read(Err(m)) => Err(Error::Config(m)),
            ConfigFile::Missing => Ok(Self::default()),
            ConfigFile::Unreadable(m) => Err(Error::Io(m)),
        }
    }

    /// Where the config file is.
    pub fn config_path(config_dir: Option<&str>) -> (r: Result<String>)
        ensures
            match (r, config_dir) {
                (Ok(p), Some(d)) => p@ == text::path_join(d@, "config.toml"@),
                (Err(e), None) => e@ == no_dirs(),
                _ => false,
            },
    {
        match platform(config_dir) {
            Ok(dir) => Ok(text::joined_path(dir, "config.toml")),
            Err(e) => Err(e),
        }
    }

    /// The cache directory: the configured one, else the platform's.
    pub fn cache_dir(&self, platform_dir: Option<&str>) -> (r: Result<String>)
        ensures
            match (r, self.cache_dir, platform_dir) {
                (Ok(p), Some(d), _) => p@ == d@,
                (Ok(p), None, Some(d)) => p@ == d@,
                (Err(e), None, None) => e@ == no_dirs(),
                _ => false,
            },
    {
        if let Some(dir) = &self.cache_dir {
            return Ok(dir.clone());
        }
        match platform(platform_dir) {
            Ok(dir) => Ok(dir.to_string()),
            Err(e) => Err(e),
        }
    }

    /// The platform's data directory.
    pub fn data_dir(platform_dir: Option<&str>) -> (r: Result<String>)
        ensures
            match (r, platform_dir) {
                (Ok(p), Some(d)) => p@ == d@,
                (Err(e), None) => e@ == no_dirs(),
                _ => false,
            },
    {
        match platform(platform_dir) {
            Ok(dir) => Ok(dir.to_string()),
            Err(e) => Err(e),
        }
    }
}

/// Data is kept where the platform says, and nowhere without such a place.
pub proof fn law_data_dir(platform: Option<&str>, r: Result<String>)
    requires
        call_ensures(Config::data_dir, (platform,), r),
    ensures
        r is Ok <==> platform is Some,
        r matches Ok(p) ==> p@ == platform->0@,
        r matches Err(e) ==> e@ == Fault::Config("cannot determine platform directories"@),
{
}

} // verus!
