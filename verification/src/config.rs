//! Application settings, their defaults, how a freshly read settings file is
//! settled, and the text rules that the settings feed (presence title, refresh
//! interval entered by the user).
use vstd::prelude::*;
use crate::text::{
    chars_of, lemma_utf8_len_bound, parse_u64, parse_u64_spec, same_text, trim_chars, trim_spec,
    truncate_chars_utf8, truncate_spec, utf8_len,
};

verus! {

/// Discord application client ID used for Apple Music presence.
pub const DEFAULT_CLIENT_ID: &'static str = "1046420605907501056";

/// Client ID of a retired Discord application; a settings file that still names
/// it is moved to [`DEFAULT_CLIENT_ID`].
pub const LEGACY_CLIENT_ID: &'static str = "1134547942733979679";

/// Default polling interval, in milliseconds.
pub const DEFAULT_POLL_INTERVAL_MS: u64 = 1500;

/// Smallest refresh interval the settings window accepts, in milliseconds.
pub const MIN_POLL_INTERVAL_MS: u64 = 200;

/// Discord's limit on the activity name, in UTF-8 bytes.
pub const LISTENING_TITLE_MAX_BYTES: usize = 128;

/// Activity name used when the track title is blank.
pub const FALLBACK_TITLE: &'static str = "Music";

/// File name of the settings file, next to the executable.
pub const CONFIG_FILE_NAME: &'static str = "config.toml";

/// The settings file written when none can be read.
pub const DEFAULT_CONFIG_TOML: &'static str = "# Apple Music Discord Presence Configuration (amprust)\n\n# Official Discord Application Client ID for Apple Music Rich Presence\nclient_id = \"1046420605907501056\"\n\n# Verification interval in milliseconds (1500 = 1.5 seconds)\npoll_interval_ms = 1500\n\n# Show Discord presence when music is paused (true = shows \"Paused\", false = hides presence)\nshow_paused = true\n\n# Fetch high-resolution album artwork via Apple iTunes API\nfetch_itunes_art = true\n\n# Display clickable \"Listen on Apple Music\" button in Discord\nenable_listen_button = true\n\n# Detect Apple Music only (set to false to support any Windows media player)\nfilter_apple_music_only = true\n";

/// Application settings.
#[derive(Debug, Clone)]
pub struct Config {
    /// Discord Application Client ID
    pub client_id: String,
    /// Polling interval in milliseconds (e.g., 1500ms)
    pub poll_interval_ms: u64,
    /// Display presence when music is paused
    pub show_paused: bool,
    /// Automatically fetch HD album art from Apple iTunes Search API
    pub fetch_itunes_art: bool,
    /// Display clickable "Listen on Apple Music" button in Discord
    pub enable_listen_button: bool,
    /// Filter exclusively for Apple Music (or any Windows media player)
    pub filter_apple_music_only: bool,
    /// Start the application when Windows starts
    pub auto_start: bool,
    /// Check GitHub for a newer release at start-up
    pub auto_update: bool,
}

impl Config {
    /// The settings hold the default values.
    pub open spec fn is_default(&self) -> bool {
        &&& self.client_id@ == DEFAULT_CLIENT_ID@
        &&& self.poll_interval_ms == DEFAULT_POLL_INTERVAL_MS
        &&& self.show_paused
        &&& self.fetch_itunes_art
        &&& self.enable_listen_button
        &&& self.filter_apple_music_only
        &&& !self.auto_start
        &&& self.auto_update
    }

    /// The two settings agree on everything but the client ID.
    pub open spec fn same_but_client_id(&self, other: &Config) -> bool {
        &&& self.poll_interval_ms == other.poll_interval_ms
        &&& self.show_paused == other.show_paused
        &&& self.fetch_itunes_art == other.fetch_itunes_art
        &&& self.enable_listen_button == other.enable_listen_button
        &&& self.filter_apple_music_only == other.filter_apple_music_only
        &&& self.auto_start == other.auto_start
        &&& self.auto_update == other.auto_update
    }

    /// Moves a settings value that names the retired client ID to the current
    /// one, and reports whether it did.
    pub fn migrate_legacy_client_id(&mut self) -> (modified: bool)
        ensures
            modified == (old(self).client_id@ == LEGACY_CLIENT_ID@),
            modified ==> final(self).client_id@ == DEFAULT_CLIENT_ID@,
            !modified ==> final(self).client_id@ == old(self).client_id@,
            final(self).same_but_client_id(old(self)),
    {
        broadcast use vstd::string::group_string_axioms;

        if same_text(self.client_id.as_str(), LEGACY_CLIENT_ID) {
            self.client_id = DEFAULT_CLIENT_ID.to_string();
            true
        } else {
            false
        }
    }
}

impl Config {
    /// The settings after the settings window is saved: the refresh interval
    /// and the two start-up options come from the form, everything else stays.
    pub fn with_settings(&self, poll_interval_ms: u64, auto_start: bool, auto_update: bool) -> (r:
        Config)
        ensures
            r.client_id@ == self.client_id@,
            r.poll_interval_ms == poll_interval_ms,
            r.show_paused == self.show_paused,
            r.fetch_itunes_art == self.fetch_itunes_art,
            r.enable_listen_button == self.enable_listen_button,
            r.filter_apple_music_only == self.filter_apple_music_only,
            r.auto_start == auto_start,
            r.auto_update == auto_update,
    {
        Config {
            client_id: self.client_id.clone(),
            poll_interval_ms,
            show_paused: self.show_paused,
            fetch_itunes_art: self.fetch_itunes_art,
            enable_listen_button: self.enable_listen_button,
            filter_apple_music_only: self.filter_apple_music_only,
            auto_start,
            auto_update,
        }
    }
}

impl Default for Config {
    fn default() -> (r: Self)
        ensures
            r.is_default(),
    {
        broadcast use vstd::string::group_string_axioms;

        Config {
            client_id: DEFAULT_CLIENT_ID.to_string(),
            poll_interval_ms: DEFAULT_POLL_INTERVAL_MS,
            show_paused: true,
            fetch_itunes_art: true,
            enable_listen_button: true,
            filter_apple_music_only: true,
            auto_start: false,
            auto_update: true,
        }
    }
}

/// What has to be written back to the settings file after loading it.
#[derive(Debug, Clone, Copy, PartialEq, Eq)]
pub enum ConfigWrite {
    /// The file is fine as it is.
    Keep,
    /// The loaded settings changed; write them back.
    Save,
    /// No usable file: write [`DEFAULT_CONFIG_TOML`].
    WriteTemplate,
}

/// Settings obtained at start-up, with what to write back.
#[derive(Debug, Clone)]
pub struct LoadedConfig {
    pub config: Config,
    pub write: ConfigWrite,
}

/// Settles the settings read at start-up: `parsed` is `None` when the file is
/// missing, unreadable or malformed. A missing or broken file gives the
/// defaults and is replaced by the template; a file naming the retired client
/// ID is migrated and saved; any other file is used as it is.
pub fn settle_loaded_config(parsed: Option<Config>) -> (r: LoadedConfig)
    ensures
        parsed is None ==> r.config.is_default() && r.write == ConfigWrite::WriteTemplate,
        parsed matches Some(c) ==> {
            &&& r.config.same_but_client_id(&c)
            &&& (c.client_id@ == LEGACY_CLIENT_ID@ ==> r.config.client_id@ == DEFAULT_CLIENT_ID@
                && r.write == ConfigWrite::Save)
            &&& (c.client_id@ != LEGACY_CLIENT_ID@ ==> r.config.client_id@ == c.client_id@
                && r.write == ConfigWrite::Keep)
        },
{
    match parsed {
        Some(c) => {
            let mut config = c;
            let modified = config.migrate_legacy_client_id();
            LoadedConfig {
                config,
                write: if modified {
                    ConfigWrite::Save
                } else {
                    ConfigWrite::Keep
                },
            }
        },
        None => LoadedConfig { config: Config::default(), write: ConfigWrite::WriteTemplate },
    }
}

/// Settling is stable: whatever [`settle_loaded_config`] makes of a loaded
/// file no longer names the retired client ID, so loading the result again
/// keeps it as it is ([`ConfigWrite::Keep`]).
pub proof fn lemma_settled_config_is_stable(loaded: Config, settled: Config)
    requires
        loaded.client_id@ == LEGACY_CLIENT_ID@ ==> settled.client_id@ == DEFAULT_CLIENT_ID@,
        loaded.client_id@ != LEGACY_CLIENT_ID@ ==> settled.client_id@ == loaded.client_id@,
    ensures
        settled.client_id@ != LEGACY_CLIENT_ID@,
{
    reveal_strlit("1046420605907501056");
    reveal_strlit("1134547942733979679");
    assert(DEFAULT_CLIENT_ID@[1] != LEGACY_CLIENT_ID@[1]);
}

/// The activity name for a track title: the title trimmed of whitespace (or
/// [`FALLBACK_TITLE`] when nothing is left), cut to Discord's byte limit at a
/// character boundary.
pub open spec fn listening_title_spec(title: Seq<char>) -> Seq<char> {
    let t = trim_spec(title);
    truncate_spec(
        if t.len() == 0 {
            FALLBACK_TITLE@
        } else {
            t
        },
        LISTENING_TITLE_MAX_BYTES as int,
    )
}

/// Formats the song title respecting Discord size limits (max 128 UTF-8 bytes)
pub fn format_listening_title(title: &str) -> (r: String)
    ensures
        r@ == listening_title_spec(title@),
        utf8_len(r@) <= LISTENING_TITLE_MAX_BYTES,
        trim_spec(title@).len() > 0 && utf8_len(trim_spec(title@)) <= LISTENING_TITLE_MAX_BYTES
            ==> r@ == trim_spec(title@),
        trim_spec(title@).len() == 0 ==> r@ == FALLBACK_TITLE@,
{
    let trimmed = trim_chars(title);
    let fallback = chars_of(FALLBACK_TITLE);
    proof {
        reveal_strlit("Music");
        lemma_utf8_len_bound(FALLBACK_TITLE@);
    }
    let text = if trimmed.len() == 0 {
        &fallback
    } else {
        &trimmed
    };
    truncate_chars_utf8(text, LISTENING_TITLE_MAX_BYTES)
}

/// Safely truncates a string respecting UTF-8 character boundaries
pub fn truncate_utf8(s: &str, max_bytes: usize) -> (r: String)
    ensures
        r@ == truncate_spec(s@, max_bytes as int),
        utf8_len(r@) <= max_bytes,
        utf8_len(s@) <= max_bytes ==> r@ == s@,
{
    let v = chars_of(s);
    truncate_chars_utf8(&v, max_bytes)
}

/// The refresh interval typed into the settings window: the trimmed text read
/// as a `u64`, accepted from [`MIN_POLL_INTERVAL_MS`] up.
pub open spec fn poll_interval_spec(text: Seq<char>) -> Option<u64> {
    match parse_u64_spec(trim_spec(text)) {
        Some(v) => if v >= MIN_POLL_INTERVAL_MS {
            Some(v)
        } else {
            None
        },
        None => None,
    }
}

/// Reads a refresh interval typed by the user; `None` when it is not a whole
/// number of at least [`MIN_POLL_INTERVAL_MS`] milliseconds.
pub fn parse_poll_interval(text: &str) -> (r: Option<u64>)
    ensures
        r == poll_interval_spec(text@),
        r matches Some(v) ==> v >= MIN_POLL_INTERVAL_MS,
{
    let trimmed = trim_chars(text);
    match parse_u64(&trimmed) {
        Some(v) => if v >= MIN_POLL_INTERVAL_MS {
            Some(v)
        } else {
            None
        },
        None => None,
    }
}

} // verus!
