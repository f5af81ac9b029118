use vstd::prelude::*;

verus! {

/// Integer type the target uses to hold the reward amount.
pub type BearReward = u32;

/// Settings for one run.
#[derive(Clone, Debug)]
pub struct Config {
    /// Full name of the target process.
    pub process_name: String,
    /// Offsets of the pointer chain that leads to the reward value, in order.
    pub offsets: Vec<u32>,
    /// Value written at the resolved address.
    pub replace_value: BearReward,
    /// Seconds to wait before exit.
    pub timeout_s: u64,
    /// Milliseconds to wait between two looks at the process list.
    pub refresh_rate_ms: u64,
    /// Whether to report what was found about the target process.
    pub show_app_info: bool,
}

/// Why the settings file could not be used.
#[derive(Debug)]
pub enum ConfigError {
    /// The file is missing or unreadable.
    LoadFailed { reason: String },
    /// The file's content is not a valid settings record.
    ParseFailed { reason: String },
}

/// Offsets of the pointer chain in the default settings.
pub open spec fn default_offsets() -> Seq<u32> {
    seq![0x5035070u32, 0x8u32, 0x3C0u32, 0x20u32, 0x74u32]
}

impl Config {
    /// The hardcoded default settings, field by field.
    pub open spec fn is_default(&self) -> bool {
        &&& self.process_name@ == "NeedForSpeedUnbound.exe"@
        &&& self.offsets@ == default_offsets()
        &&& self.replace_value == 150_000
        &&& self.timeout_s == 4
        &&& self.refresh_rate_ms == 700
        &&& !self.show_app_info
    }

    /// A pointer chain needs at least one offset to name an address.
    pub open spec fn has_chain(&self) -> bool {
        self.offsets@.len() > 0
    }

    /// Settings for the run from the outcome of loading the settings file:
    /// the loaded record, or the default when loading failed.
    pub fn new(loaded: Result<Config, ConfigError>) -> (r: Config)
        ensures
            loaded is Ok ==> r == loaded->Ok_0,
            loaded is Err ==> r.is_default(),
    {
        match loaded {
            Ok(config) => config,
            Err(_) => Config::default(),
        }
    }

    /// The error for a settings file that could not be read.
    pub fn e_io_map(reason: String) -> (r: ConfigError)
        ensures
            r == (ConfigError::LoadFailed { reason }),
    {
        ConfigError::LoadFailed { reason }
    }

    /// The error for a settings file whose content is malformed.
    pub fn e_json_map(reason: String) -> (r: ConfigError)
        ensures
            r == (ConfigError::ParseFailed { reason }),
    {
        ConfigError::ParseFailed { reason }
    }
}

impl ConfigError {
    /// The text shown to the user for this error.
    pub open spec fn message_spec(&self) -> Seq<char> {
        match self {
            ConfigError::LoadFailed { reason } => "unable to read config file ("@ + reason@ + ")"@,
            ConfigError::ParseFailed { reason } => "config file has invalid syntax ("@ + reason@
                + ")"@,
        }
    }

    /// The text shown to the user: what went wrong, then the reason in parentheses.
    pub fn message(&self) -> (r: String)
        ensures
            r@ == self.message_spec(),
    {
        match self {
            ConfigError::LoadFailed { reason } => "unable to read config file (".to_string().concat(
                reason.as_str(),
            ).concat(")"),
            ConfigError::ParseFailed { reason } => "config file has invalid syntax (".to_string().concat(
                reason.as_str(),
            ).concat(")"),
        }
    }

    /// True for a file that could not be read, false for a malformed one.
    pub fn is_load_failure(&self) -> (r: bool)
        ensures
            r == (self is LoadFailed),
    {
        match self {
            ConfigError::LoadFailed { .. } => true,
            ConfigError::ParseFailed { .. } => false,
        }
    }
}

impl Default for Config {
    /// The default settings for the supported game version.
    fn default() -> (r: Config)
        ensures
            r.is_default(),
    {
        let r = Config {
            process_name: "NeedForSpeedUnbound.exe".to_string(),
            offsets: vec![0x5035070u32, 0x8u32, 0x3C0u32, 0x20u32, 0x74u32],
            replace_value: 150_000,
            timeout_s: 4,
            refresh_rate_ms: 700,
            show_app_info: false,
        };
        assert(r.offsets@ =~= default_offsets());
        r
    }
}

} // verus!
