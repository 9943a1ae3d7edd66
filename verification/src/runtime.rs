//! Configuration, the paths of the daemon's files, its heartbeat state, and the
//! rules by which its logs are rotated, kept and found again.
use vstd::prelude::*;

use crate::text::{
    append_chars, ascii_lower_text, chars_of, chars_start_with_ascii_lower, decimal, parse_unsigned,
    parse_unsigned_chars, push_decimal, str_eq, string_from_chars,
};

verus! {

/// Where on the screen the notification stack stands.
#[derive(Clone, Copy, Debug, PartialEq, Eq, Structural)]
pub enum NotificationPosition {
    TopLeft,
    TopRight,
    BottomLeft,
    BottomRight,
}

impl Default for NotificationPosition {
    fn default() -> (p: Self)
        ensures
            p == NotificationPosition::BottomLeft,
    {
        NotificationPosition::BottomLeft
    }
}

/// The user's settings for the notification window, its sound and its logs.
/// `sound_path` holds the path of a custom sound file as text.
#[derive(Clone, Debug, PartialEq, Eq)]
pub struct NotifyConfig {
    pub position: NotificationPosition,
    pub offset_left: u16,
    pub offset_right: u16,
    pub border_width: u16,
    pub sound_path: Option<String>,
    pub log_rotation_hours: u64,
    pub log_retention_days: u64,
}

/// The mathematical value of a [`NotifyConfig`].
pub struct ConfigModel {
    pub position: NotificationPosition,
    pub offset_left: u16,
    pub offset_right: u16,
    pub border_width: u16,
    pub sound_path: Option<Seq<char>>,
    pub log_rotation_hours: u64,
    pub log_retention_days: u64,
}

impl View for NotifyConfig {
    type V = ConfigModel;

    open spec fn view(&self) -> ConfigModel {
        ConfigModel {
            position: self.position,
            offset_left: self.offset_left,
            offset_right: self.offset_right,
            border_width: self.border_width,
            sound_path: match self.sound_path {
                Some(p) => Some(p@),
                None => None,
            },
            log_rotation_hours: self.log_rotation_hours,
            log_retention_days: self.log_retention_days,
        }
    }
}

/// The settings used where the user has not chosen any.
pub open spec fn default_config_model() -> ConfigModel {
    ConfigModel {
        position: NotificationPosition::BottomLeft,
        offset_left: 30,
        offset_right: 30,
        border_width: 1,
        sound_path: None,
        log_rotation_hours: 24,
        log_retention_days: 7,
    }
}

impl Default for NotifyConfig {
    fn default() -> (c: Self)
        ensures
            c@ == default_config_model(),
    {
        NotifyConfig {
            position: NotificationPosition::BottomLeft,
            offset_left: 30,
            offset_right: 30,
            border_width: 1,
            sound_path: None,
            log_rotation_hours: 24,
            log_retention_days: 7,
        }
    }
}

/// The keys that `set_config_value` accepts.
#[derive(Clone, Copy, Debug, PartialEq, Eq, Structural)]
pub enum ConfigKey {
    Position,
    OffsetLeft,
    OffsetRight,
    BorderWidth,
    SoundPath,
    LogRotationHours,
    LogRetentionDays,
}

/// Why a configuration was refused.
#[derive(Clone, Debug, PartialEq, Eq)]
pub enum ConfigError {
    /// `logRotationHours` is zero.
    LogRotationHoursNotPositive,
    /// `logRetentionDays` is zero.
    LogRetentionDaysNotPositive,
    /// The value for `position` names none of the four corners.
    InvalidPosition,
    /// The value for this key is not an unsigned 16-bit integer.
    NotUnsigned16(ConfigKey),
    /// The value for this key is not a positive integer that fits in 64 bits.
    NotPositiveInteger(ConfigKey),
    /// No setting has this name.
    UnsupportedKey(String),
}

/// The key that a name stands for.
pub open spec fn spec_config_key(name: Seq<char>) -> Option<ConfigKey> {
    if name == "position"@ {
        Some(ConfigKey::Position)
    } else if name == "offsetLeft"@ {
        Some(ConfigKey::OffsetLeft)
    } else if name == "offsetRight"@ {
        Some(ConfigKey::OffsetRight)
    } else if name == "borderWidth"@ {
        Some(ConfigKey::BorderWidth)
    } else if name == "soundPath"@ {
        Some(ConfigKey::SoundPath)
    } else if name == "logRotationHours"@ {
        Some(ConfigKey::LogRotationHours)
    } else if name == "logRetentionDays"@ {
        Some(ConfigKey::LogRetentionDays)
    } else {
        None
    }
}

/// The corner that a value of the `position` setting names.
pub open spec fn spec_position_named(value: Seq<char>) -> Option<NotificationPosition> {
    if value == "top-left"@ {
        Some(NotificationPosition::TopLeft)
    } else if value == "top-right"@ {
        Some(NotificationPosition::TopRight)
    } else if value == "bottom-left"@ {
        Some(NotificationPosition::BottomLeft)
    } else if value == "bottom-right"@ {
        Some(NotificationPosition::BottomRight)
    } else {
        None
    }
}

/// A configuration is accepted when both log periods are positive; the rotation
/// period is checked first.
pub open spec fn spec_validate(c: ConfigModel) -> Result<(), ConfigError> {
    if c.log_rotation_hours == 0 {
        Err(ConfigError::LogRotationHoursNotPositive)
    } else if c.log_retention_days == 0 {
        Err(ConfigError::LogRetentionDaysNotPositive)
    } else {
        Ok(())
    }
}

/// The configuration after `key` is set from the text `value`, or the reason the
/// value is refused. This is the step before the whole configuration is validated.
pub open spec fn spec_assign(c: ConfigModel, key: ConfigKey, value: Seq<char>) -> Result<
    ConfigModel,
    ConfigError,
> {
    match key {
        ConfigKey::Position => match spec_position_named(value) {
            Some(p) => Ok(ConfigModel { position: p, ..c }),
            None => Err(ConfigError::InvalidPosition),
        },
        ConfigKey::OffsetLeft => match parse_unsigned(value, 0xffff) {
            Some(n) => Ok(ConfigModel { offset_left: n as u16, ..c }),
            None => Err(ConfigError::NotUnsigned16(key)),
        },
        ConfigKey::OffsetRight => match parse_unsigned(value, 0xffff) {
            Some(n) => Ok(ConfigModel { offset_right: n as u16, ..c }),
            None => Err(ConfigError::NotUnsigned16(key)),
        },
        ConfigKey::BorderWidth => match parse_unsigned(value, 0xffff) {
            Some(n) => Ok(ConfigModel { border_width: n as u16, ..c }),
            None => Err(ConfigError::NotUnsigned16(key)),
        },
        ConfigKey::SoundPath => Ok(
            ConfigModel {
                sound_path: if ascii_lower_text(value) == "none"@ {
                    None
                } else {
                    Some(value)
                },
                ..c
            },
        ),
        ConfigKey::LogRotationHours => match parse_unsigned(value, u64::MAX as nat) {
            Some(n) if n > 0 => Ok(ConfigModel { log_rotation_hours: n as u64, ..c }),
            _ => Err(ConfigError::NotPositiveInteger(key)),
        },
        ConfigKey::LogRetentionDays => match parse_unsigned(value, u64::MAX as nat) {
            Some(n) if n > 0 => Ok(ConfigModel { log_retention_days: n as u64, ..c }),
            _ => Err(ConfigError::NotPositiveInteger(key)),
        },
    }
}

/// The default settings are valid.
pub proof fn lemma_default_config_valid()
    ensures
        spec_validate(default_config_model()) is Ok,
{
}

/// Setting a value on a valid configuration either is refused, leaving the
/// configuration as it was, or gives a configuration that is again valid: a valid
/// configuration never becomes invalid through `set_config_value`.
pub proof fn lemma_set_keeps_valid_config(c: ConfigModel, key: ConfigKey, value: Seq<char>)
    requires
        spec_validate(c) is Ok,
    ensures
        spec_assign(c, key, value) matches Ok(next) ==> spec_validate(next) is Ok,
{
}

/// Checks that the log periods of a configuration are positive.
pub fn validate_config(config: &NotifyConfig) -> (r: Result<(), ConfigError>)
    ensures
        r == spec_validate(config@),
{
    if config.log_rotation_hours == 0 {
        return Err(ConfigError::LogRotationHoursNotPositive);
    }
    if config.log_retention_days == 0 {
        return Err(ConfigError::LogRetentionDaysNotPositive);
    }
    Ok(())
}

/// The key that `name` stands for, if any.
pub fn config_key(name: &str) -> (k: Option<ConfigKey>)
    ensures
        k == spec_config_key(name@),
{
    if str_eq(name, "position") {
        Some(ConfigKey::Position)
    } else if str_eq(name, "offsetLeft") {
        Some(ConfigKey::OffsetLeft)
    } else if str_eq(name, "offsetRight") {
        Some(ConfigKey::OffsetRight)
    } else if str_eq(name, "borderWidth") {
        Some(ConfigKey::BorderWidth)
    } else if str_eq(name, "soundPath") {
        Some(ConfigKey::SoundPath)
    } else if str_eq(name, "logRotationHours") {
        Some(ConfigKey::LogRotationHours)
    } else if str_eq(name, "logRetentionDays") {
        Some(ConfigKey::LogRetentionDays)
    } else {
        None
    }
}

fn position_named(value: &str) -> (p: Option<NotificationPosition>)
    ensures
        p == spec_position_named(value@),
{
    if str_eq(value, "top-left") {
        Some(NotificationPosition::TopLeft)
    } else if str_eq(value, "top-right") {
        Some(NotificationPosition::TopRight)
    } else if str_eq(value, "bottom-left") {
        Some(NotificationPosition::BottomLeft)
    } else if str_eq(value, "bottom-right") {
        Some(NotificationPosition::BottomRight)
    } else {
        None
    }
}

fn parse_u16(key: ConfigKey, value: &str) -> (r: Result<u16, ConfigError>)
    ensures
        match parse_unsigned(value@, 0xffff) {
            Some(n) => r == Ok::<u16, ConfigError>(n as u16),
            None => r == Err::<u16, ConfigError>(ConfigError::NotUnsigned16(key)),
        },
{
    let v = chars_of(value);
    match parse_unsigned_chars(&v, 0xffff) {
        Some(n) => Ok(n as u16),
        None => Err(ConfigError::NotUnsigned16(key)),
    }
}

fn parse_positive_u64(key: ConfigKey, value: &str) -> (r: Result<u64, ConfigError>)
    ensures
        match parse_unsigned(value@, u64::MAX as nat) {
            Some(n) if n > 0 => r == Ok::<u64, ConfigError>(n as u64),
            _ => r == Err::<u64, ConfigError>(ConfigError::NotPositiveInteger(key)),
        },
{
    let v = chars_of(value);
    match parse_unsigned_chars(&v, u64::MAX) {
        Some(n) => {
            if n == 0 {
                Err(ConfigError::NotPositiveInteger(key))
            } else {
                Ok(n)
            }
        },
        None => Err(ConfigError::NotPositiveInteger(key)),
    }
}

fn is_none_word(value: &str) -> (r: bool)
    ensures
        r == (ascii_lower_text(value@) == "none"@),
{
    let v = chars_of(value);
    let none = chars_of("none");
    let r = v.len() == none.len() && chars_start_with_ascii_lower(&v, &none);
    proof {
        if r {
            assert(ascii_lower_text(v@).take(none@.len() as int) =~= ascii_lower_text(v@));
        } else if v@.len() == none@.len() {
            assert(ascii_lower_text(v@).take(none@.len() as int) =~= ascii_lower_text(v@));
        } else {
            assert(ascii_lower_text(v@).len() != none@.len());
        }
    }
    r
}

/// Sets one configuration value from its text, then validates the whole
/// configuration. A value that cannot be read, or an unknown key, leaves the
/// configuration as it was; a value that was read is kept even when the
/// configuration then fails validation.
pub fn set_config_value(config: &mut NotifyConfig, key: &str, value: &str) -> (r: Result<
    (),
    ConfigError,
>)
    ensures
        spec_config_key(key@) is None ==> {
            &&& r matches Err(ConfigError::UnsupportedKey(k)) && k@ == key@
            &&& final(config)@ == old(config)@
        },
        spec_config_key(key@) matches Some(k) ==> match spec_assign(old(config)@, k, value@) {
            Err(e) => r == Err::<(), ConfigError>(e) && final(config)@ == old(config)@,
            Ok(c) => final(config)@ == c && r == spec_validate(c),
        },
{
    let k = match config_key(key) {
        Some(k) => k,
        None => {
            let name = key.to_owned();
            return Err(ConfigError::UnsupportedKey(name));
        },
    };
    match k {
        ConfigKey::Position => {
            match position_named(value) {
                Some(p) => config.position = p,
                None => return Err(ConfigError::InvalidPosition),
            }
        },
        ConfigKey::OffsetLeft => {
            let n = parse_u16(k, value)?;
            config.offset_left = n;
        },
        ConfigKey::OffsetRight => {
            let n = parse_u16(k, value)?;
            config.offset_right = n;
        },
        ConfigKey::BorderWidth => {
            let n = parse_u16(k, value)?;
            config.border_width = n;
        },
        ConfigKey::SoundPath => {
            config.sound_path = if is_none_word(value) {
                None
            } else {
                Some(value.to_owned())
            };
        },
        ConfigKey::LogRotationHours => {
            let n = parse_positive_u64(k, value)?;
            config.log_rotation_hours = n;
        },
        ConfigKey::LogRetentionDays => {
            let n = parse_positive_u64(k, value)?;
            config.log_retention_days = n;
        },
    }
    validate_config(config)
}

/// A path separator on some platform.
pub open spec fn is_separator(c: char) -> bool {
    c == '/' || c == '\\'
}

/// A base that may be a bare drive such as `C:`: two characters, the second a
/// colon.
pub open spec fn is_bare_drive(base: Seq<char>) -> bool {
    base.len() == 2 && base[1] == ':'
}

/// A path that may carry a Windows verbatim prefix (`\\?\`): two separators and a
/// question mark.
pub open spec fn is_verbatim_like(path: Seq<char>) -> bool {
    path.len() >= 3 && is_separator(path[0]) && is_separator(path[1]) && path[2] == '?'
}

/// `joined` is `base` joined with the one-component `child` as `Path::join` does it
/// on every platform: `child` alone after an empty base; `child` directly after a
/// base that ends in `/`; after a base that ends in `\`, `child` directly (Windows)
/// or after a `/` (elsewhere); after a two-character base ending in `:`, `child`
/// directly or after one separator (Windows reads only a letter there as a drive);
/// after any other base, `child` after one separator, `/` or `\` as the platform
/// has it.
pub open spec fn is_join_of(joined: Seq<char>, base: Seq<char>, child: Seq<char>) -> bool {
    if base.len() == 0 {
        joined == child
    } else if base.last() == '/' {
        joined == base + child
    } else if base.last() == '\\' {
        joined == base + child || joined == base + seq!['/'] + child
    } else if is_bare_drive(base) {
        ||| joined == base + child
        ||| joined == base + seq!['/'] + child
        ||| joined == base + seq!['\\'] + child
    } else {
        joined == base + seq!['/'] + child || joined == base + seq!['\\'] + child
    }
}

/// A single path component that holds no separator, no drive marker and no
/// question mark.
pub open spec fn is_plain_component(child: Seq<char>) -> bool {
    &&& child.len() > 0
    &&& forall|i: int|
        0 <= i < child.len() ==> #[trigger] child[i] != '/' && child[i] != '\\' && child[i]
            != ':' && child[i] != '?'
}

/// `Path::join` of a path and one plain component, as text. The separator that it
/// inserts depends on the platform, so the contract leaves open whether it is `/`
/// or `\`, and, after a base that ends in `\` or is two characters ending in `:`,
/// whether one is inserted. A base with a Windows verbatim prefix is normalized on
/// Windows; the contract leaves the result for such a base unsaid.
#[verifier::external_body]
fn path_join(base: &str, child: &str) -> (joined: String)
    requires
        is_plain_component(child@),
    ensures
        !is_verbatim_like(base@) ==> is_join_of(joined@, base@, child@),
{
    std::path::Path::new(base).join(child).to_string_lossy().into_owned()
}

/// Joining a plain component onto a path without a verbatim prefix gives a path
/// without one.
proof fn lemma_join_keeps_plain_prefix(joined: Seq<char>, base: Seq<char>, child: Seq<char>)
    requires
        is_plain_component(child),
        !is_verbatim_like(base),
        is_join_of(joined, base, child),
    ensures
        !is_verbatim_like(joined),
{
    assert(child[0] != '?');
    if joined.len() >= 3 {
        if base.len() >= 3 {
            assert(joined[0] == base[0] && joined[1] == base[1] && joined[2] == base[2]);
        } else if joined == base + child {
            if base.len() == 0 {
                assert(joined[2] == child[2]);
            } else if base.len() == 1 {
                assert(joined[2] == child[1]);
            } else {
                assert(joined[2] == child[0]);
            }
        } else {
            let sep = joined[base.len() as int];
            assert(sep == '/' || sep == '\\');
            if base.len() == 0 {
                assert(joined[0] == sep);
                assert(joined[1] == child[0]);
            } else if base.len() == 1 {
                assert(joined[1] == sep);
                assert(joined[2] == child[0]);
            } else {
                assert(joined[2] == sep);
            }
        }
    }
}

/// The environment variables from which the data directory is found.
#[derive(Clone, Debug)]
pub struct DataDirEnv {
    /// Whether the program runs on Windows.
    pub windows: bool,
    /// `LOCALAPPDATA`.
    pub local_app_data: Option<String>,
    /// `USERPROFILE`.
    pub user_profile: Option<String>,
    /// `XDG_CONFIG_HOME`.
    pub xdg_config_home: Option<String>,
    /// `HOME`.
    pub home: Option<String>,
}

/// Why no data directory could be found.
#[derive(Clone, Copy, Debug, PartialEq, Eq, Structural)]
pub enum DataDirError {
    /// On Windows, neither `LOCALAPPDATA` nor `USERPROFILE` is set.
    LocalAppDataNotSet,
    /// Elsewhere, neither `XDG_CONFIG_HOME` nor `HOME` is set.
    HomeNotSet,
}

/// The environment variable that the data directory is built on, if one is set:
/// on Windows `LOCALAPPDATA`, else `USERPROFILE`; elsewhere `XDG_CONFIG_HOME`, else
/// `HOME`.
pub open spec fn data_dir_base(env: DataDirEnv) -> Option<Seq<char>> {
    if env.windows {
        match env.local_app_data {
            Some(base) => Some(base@),
            None => match env.user_profile {
                Some(profile) => Some(profile@),
                None => None,
            },
        }
    } else {
        match env.xdg_config_home {
            Some(base) => Some(base@),
            None => match env.home {
                Some(home) => Some(home@),
                None => None,
            },
        }
    }
}

/// The data directory is built on a path without a Windows verbatim prefix.
pub open spec fn has_plain_base(env: DataDirEnv) -> bool {
    match data_dir_base(env) {
        Some(base) => !is_verbatim_like(base),
        None => true,
    }
}

/// `dir` is the data directory for the environment `env`: on Windows
/// `LOCALAPPDATA\Nonstop Notify`, else `USERPROFILE\AppData\Local\Nonstop Notify`;
/// elsewhere `XDG_CONFIG_HOME/nonstop-notify`, else `HOME/.config/nonstop-notify`;
/// in each case without a verbatim prefix.
pub open spec fn is_data_dir(env: DataDirEnv, dir: Seq<char>) -> bool {
    !is_verbatim_like(dir) && if env.windows {
        match env.local_app_data {
            Some(base) => is_join_of(dir, base@, "Nonstop Notify"@),
            None => match env.user_profile {
                Some(profile) => exists|app_data: Seq<char>, local: Seq<char>|
                    #![trigger is_join_of(app_data, profile@, "AppData"@), is_join_of(local, app_data, "Local"@)]
                    is_join_of(app_data, profile@, "AppData"@) && is_join_of(local, app_data, "Local"@)
                        && is_join_of(dir, local, "Nonstop Notify"@),
                None => false,
            },
        }
    } else {
        match env.xdg_config_home {
            Some(base) => is_join_of(dir, base@, "nonstop-notify"@),
            None => match env.home {
                Some(home) => exists|config: Seq<char>|
                    #![trigger is_join_of(config, home@, ".config"@)]
                    is_join_of(config, home@, ".config"@) && is_join_of(dir, config, "nonstop-notify"@),
                None => false,
            },
        }
    }
}

/// The error for an environment in which no data directory can be found.
pub open spec fn data_dir_missing(env: DataDirEnv) -> Option<DataDirError> {
    if env.windows {
        if env.local_app_data is None && env.user_profile is None {
            Some(DataDirError::LocalAppDataNotSet)
        } else {
            None
        }
    } else {
        if env.xdg_config_home is None && env.home is None {
            Some(DataDirError::HomeNotSet)
        } else {
            None
        }
    }
}

/// Joins one of the library's own file or directory names onto `base`.
fn join_name(base: &str, child: &str) -> (joined: String)
    requires
        child@ == "Nonstop Notify"@ || child@ == "nonstop-notify"@ || child@ == "AppData"@
            || child@ == "Local"@ || child@ == ".config"@ || child@ == "config.json"@
            || child@ == "runtime.json"@ || child@ == "logs"@ || child@ == "current.log"@
            || child@ == ".lock"@,
    ensures
        !is_verbatim_like(base@) ==> is_join_of(joined@, base@, child@) && !is_verbatim_like(
            joined@,
        ),
{
    proof {
        reveal_strlit("Nonstop Notify");
        reveal_strlit("nonstop-notify");
        reveal_strlit("AppData");
        reveal_strlit("Local");
        reveal_strlit(".config");
        reveal_strlit("config.json");
        reveal_strlit("runtime.json");
        reveal_strlit("logs");
        reveal_strlit("current.log");
        reveal_strlit(".lock");
    }
    let joined = path_join(base, child);
    proof {
        if !is_verbatim_like(base@) {
            lemma_join_keeps_plain_prefix(joined@, base@, child@);
        }
    }
    joined
}

/// The directory in which the daemon keeps its configuration, state and logs.
pub fn default_data_dir(env: &DataDirEnv) -> (r: Result<String, DataDirError>)
    ensures
        match data_dir_missing(*env) {
            Some(e) => r == Err::<String, DataDirError>(e),
            None => r is Ok && (has_plain_base(*env) ==> is_data_dir(*env, r->Ok_0@)),
        },
{
    if env.windows {
        match &env.local_app_data {
            Some(base) => Ok(join_name(base.as_str(), "Nonstop Notify")),
            None => match &env.user_profile {
                Some(profile) => {
                    let app_data = join_name(profile.as_str(), "AppData");
                    let local = join_name(app_data.as_str(), "Local");
                    let dir = join_name(local.as_str(), "Nonstop Notify");
                    proof {
                        if has_plain_base(*env) {
                            assert(is_join_of(app_data@, profile@, "AppData"@) && is_join_of(
                                local@,
                                app_data@,
                                "Local"@,
                            ));
                        }
                    }
                    Ok(dir)
                },
                None => Err(DataDirError::LocalAppDataNotSet),
            },
        }
    } else {
        match &env.xdg_config_home {
            Some(base) => Ok(join_name(base.as_str(), "nonstop-notify")),
            None => match &env.home {
                Some(home) => {
                    let config = join_name(home.as_str(), ".config");
                    let dir = join_name(config.as_str(), "nonstop-notify");
                    proof {
                        if has_plain_base(*env) {
                            assert(is_join_of(config@, home@, ".config"@));
                        }
                    }
                    Ok(dir)
                },
                None => Err(DataDirError::HomeNotSet),
            },
        }
    }
}

/// The path of the configuration file in the data directory.
pub fn default_config_path(env: &DataDirEnv) -> (r: Result<String, DataDirError>)
    ensures
        match data_dir_missing(*env) {
            Some(e) => r == Err::<String, DataDirError>(e),
            None => r is Ok && (has_plain_base(*env) ==> exists|dir: Seq<char>|
                #![trigger is_data_dir(*env, dir)]
                is_data_dir(*env, dir) && is_join_of(r->Ok_0@, dir, "config.json"@)),
        },
{
    let dir = default_data_dir(env)?;
    let path = join_name(dir.as_str(), "config.json");
    proof {
        if has_plain_base(*env) {
            assert(is_data_dir(*env, dir@));
        }
    }
    Ok(path)
}

/// The configuration file to use: the one given explicitly, else the default one.
pub fn selected_config_path(explicit: Option<&str>, env: &DataDirEnv) -> (r: Result<
    String,
    DataDirError,
>)
    ensures
        match explicit {
            Some(path) => r matches Ok(p) && p@ == path@,
            None => match data_dir_missing(*env) {
                Some(e) => r == Err::<String, DataDirError>(e),
                None => r is Ok && (has_plain_base(*env) ==> exists|dir: Seq<char>|
                    #![trigger is_data_dir(*env, dir)]
                    is_data_dir(*env, dir) && is_join_of(r->Ok_0@, dir, "config.json"@)),
            },
        },
{
    match explicit {
        Some(path) => Ok(path.to_owned()),
        None => default_config_path(env),
    }
}

/// What reading the configuration file gave.
#[derive(Clone, Debug, PartialEq, Eq)]
pub enum ConfigFileRead {
    /// The file's text.
    Contents(String),
    /// The file does not exist.
    NotFound,
    /// The file exists but could not be read.
    Unreadable,
}

/// What loading the configuration does after the file was read.
#[derive(Clone, Debug, PartialEq, Eq)]
pub enum ConfigLoadStep {
    /// Use the default settings.
    UseDefaults,
    /// Parse this text, then validate it.
    Parse(String),
    /// Report the read error.
    Fail,
}

/// After the configuration file was read: a missing default file means the default
/// settings (an explicitly named file must exist); a file that could not be read is
/// an error; otherwise its text is parsed.
pub fn config_load_step(read: ConfigFileRead, explicit: bool) -> (step: ConfigLoadStep)
    ensures
        match read {
            ConfigFileRead::Contents(text) => step matches ConfigLoadStep::Parse(t) && t@ == text@,
            ConfigFileRead::NotFound => step == if explicit {
                ConfigLoadStep::Fail
            } else {
                ConfigLoadStep::UseDefaults
            },
            ConfigFileRead::Unreadable => step == ConfigLoadStep::Fail,
        },
{
    match read {
        ConfigFileRead::Contents(text) => ConfigLoadStep::Parse(text),
        ConfigFileRead::NotFound => if explicit {
            ConfigLoadStep::Fail
        } else {
            ConfigLoadStep::UseDefaults
        },
        ConfigFileRead::Unreadable => ConfigLoadStep::Fail,
    }
}

/// The files of a running daemon inside its data directory.
#[derive(Clone, Debug)]
pub struct RuntimePaths {
    pub state_path: String,
    pub log_dir: String,
    pub current_log_path: String,
    pub log_lock_path: String,
}

/// `paths` are the daemon's files inside `data_dir`: `runtime.json`, the `logs`
/// directory, and `current.log` and `.lock` inside it.
pub open spec fn is_runtime_paths_of(paths: RuntimePaths, data_dir: Seq<char>) -> bool {
    &&& is_join_of(paths.state_path@, data_dir, "runtime.json"@)
    &&& is_join_of(paths.log_dir@, data_dir, "logs"@)
    &&& is_join_of(paths.current_log_path@, paths.log_dir@, "current.log"@)
    &&& is_join_of(paths.log_lock_path@, paths.log_dir@, ".lock"@)
}

impl RuntimePaths {
    /// The daemon's files inside `data_dir`.
    pub fn new(data_dir: String) -> (paths: Self)
        ensures
            !is_verbatim_like(data_dir@) ==> is_runtime_paths_of(paths, data_dir@),
    {
        let state_path = join_name(data_dir.as_str(), "runtime.json");
        let log_dir = join_name(data_dir.as_str(), "logs");
        let current_log_path = join_name(log_dir.as_str(), "current.log");
        let log_lock_path = join_name(log_dir.as_str(), ".lock");
        RuntimePaths { state_path, log_dir, current_log_path, log_lock_path }
    }
}

/// The daemon's files inside the default data directory.
pub fn runtime_paths(env: &DataDirEnv) -> (r: Result<RuntimePaths, DataDirError>)
    ensures
        match data_dir_missing(*env) {
            Some(e) => r is Err && r->Err_0 == e,
            None => r is Ok && (has_plain_base(*env) ==> exists|dir: Seq<char>|
                #![trigger is_data_dir(*env, dir)]
                is_data_dir(*env, dir) && is_runtime_paths_of(r->Ok_0, dir)),
        },
{
    let dir = default_data_dir(env)?;
    let ghost d = dir@;
    let paths = RuntimePaths::new(dir);
    proof {
        if has_plain_base(*env) {
            assert(is_data_dir(*env, d));
        }
    }
    Ok(paths)
}

/// How long after its last heartbeat a daemon counts as gone, in seconds.
pub const HEARTBEAT_STALE_AFTER_SECS: u64 = 3;

/// What a running daemon records about itself.
#[derive(Clone, Copy, Debug, PartialEq, Eq, Structural)]
pub struct RuntimeState {
    pub pid: u32,
    pub heartbeat_at_ms: u64,
}

/// `a - b`, or zero when `b` is larger.
pub open spec fn saturating_diff(a: u64, b: u64) -> u64 {
    if a >= b {
        (a - b) as u64
    } else {
        0
    }
}

/// `a * b`, or `u64::MAX` when the product does not fit.
pub open spec fn saturating_product(a: u64, b: u64) -> u64 {
    if a * b <= u64::MAX {
        (a * b) as u64
    } else {
        u64::MAX
    }
}

fn saturating_mul(a: u64, b: u64) -> (r: u64)
    ensures
        r == saturating_product(a, b),
{
    match a.checked_mul(b) {
        Some(p) => p,
        None => u64::MAX,
    }
}

/// The time since the Unix epoch on the system clock, as whole seconds and the
/// nanoseconds beyond them (`SystemTime::now` and `SystemTime::duration_since`);
/// `None` when the clock stands before the epoch. The value depends on the clock:
/// the contract states only that the nanoseconds are below one second.
#[verifier::external_body]
fn time_since_unix_epoch() -> (t: Option<(u64, u32)>)
    ensures
        t matches Some(d) ==> d.1 < 1_000_000_000,
{
    std::time::SystemTime::now().duration_since(std::time::UNIX_EPOCH).ok().map(
        |d| (d.as_secs(), d.subsec_nanos()),
    )
}

/// Whole milliseconds in a duration, saturated at `u64::MAX`.
pub open spec fn millis_of(secs: u64, nanos: u32) -> u64 {
    let ms = secs * 1000 + nanos / 1_000_000;
    if ms <= u64::MAX {
        ms as u64
    } else {
        u64::MAX
    }
}

/// Milliseconds since the Unix epoch on the system clock (zero before the epoch).
pub fn now_ms() -> u64 {
    match time_since_unix_epoch() {
        Some((secs, nanos)) => duration_millis(secs, nanos),
        None => 0,
    }
}

/// Whole milliseconds in a duration, saturated at `u64::MAX` (`Duration::as_millis`
/// and a saturating conversion to `u64`).
pub fn duration_millis(secs: u64, nanos: u32) -> (ms: u64)
    ensures
        ms == millis_of(secs, nanos),
{
    let total: u128 = (secs as u128) * 1000 + (nanos / 1_000_000) as u128;
    if total > u64::MAX as u128 {
        u64::MAX
    } else {
        total as u64
    }
}

/// Whole seconds since the Unix epoch on the system clock (zero before the epoch).
pub fn unix_seconds() -> u64 {
    match time_since_unix_epoch() {
        Some((secs, _)) => secs,
        None => 0,
    }
}

/// How many milliseconds before `now_ms` the heartbeat in `state` was written
/// (zero for a heartbeat in the future).
pub fn heartbeat_age_at(state: &RuntimeState, now_ms: u64) -> (age: u64)
    ensures
        age == saturating_diff(now_ms, state.heartbeat_at_ms),
{
    now_ms.saturating_sub(state.heartbeat_at_ms)
}

/// How many milliseconds ago, on the system clock, the heartbeat in `state` was
/// written: its age at the clock reading taken now, which the contract cannot name.
pub fn heartbeat_age_ms(state: &RuntimeState) -> (age: u64)
    ensures
        exists|now: u64| age == #[trigger] saturating_diff(now, state.heartbeat_at_ms),
{
    let now = now_ms();
    let age = heartbeat_age_at(state, now);
    assert(age == saturating_diff(now, state.heartbeat_at_ms));
    age
}

/// A heartbeat whose age is known counts as fresh while it is younger than
/// [`HEARTBEAT_STALE_AFTER_SECS`]; one whose age is unknown does not.
pub fn heartbeat_is_fresh(age: Option<(u64, u32)>) -> (fresh: bool)
    ensures
        fresh == (age matches Some(d) && d.0 < HEARTBEAT_STALE_AFTER_SECS),
{
    match age {
        Some((secs, _)) => secs < HEARTBEAT_STALE_AFTER_SECS,
        None => false,
    }
}

/// Whether the current log, `age_secs` old, has reached the rotation period.
pub fn rotation_due(age_secs: u64, rotation_hours: u64) -> (due: bool)
    ensures
        due == (age_secs >= saturating_product(rotation_hours, 3600)),
{
    age_secs >= saturating_mul(rotation_hours, 3600)
}

/// Whether a log file, `age_secs` old when that age is known, has outlived the
/// retention period. A file whose age is unknown is kept.
pub fn log_expired(age_secs: Option<u64>, retention_days: u64) -> (expired: bool)
    ensures
        expired == (age_secs matches Some(a) && a >= saturating_product(retention_days, 86400)),
{
    match age_secs {
        Some(a) => a >= saturating_mul(retention_days, 86400),
        None => false,
    }
}

/// The name of a file whose extension, in the sense of `Path::extension`, is `log`.
pub open spec fn is_log_file_name(name: Seq<char>) -> bool {
    name.len() >= 5 && name.skip(name.len() - 4) == ".log"@
}

/// Whether a file is one of the daemon's logs, by its name.
pub fn has_log_extension(file_name: &str) -> (r: bool)
    ensures
        r == is_log_file_name(file_name@),
{
    let v = chars_of(file_name);
    let ext = chars_of(".log");
    proof {
        reveal_strlit(".log");
    }
    if v.len() < 5 {
        return false;
    }
    let n = v.len();
    let r = v[n - 4] == '.' && v[n - 3] == 'l' && v[n - 2] == 'o' && v[n - 1] == 'g';
    proof {
        let tail = v@.skip(n - 4);
        if r {
            assert(tail =~= ext@);
        } else {
            assert(tail[0] != ext@[0] || tail[1] != ext@[1] || tail[2] != ext@[2] || tail[3]
                != ext@[3]);
        }
    }
    r
}

/// The name under which a rotated log is archived: `{timestamp}.log`, or
/// `{timestamp}-{pid}.log` when the first name is taken.
pub open spec fn archive_name(timestamp: u64, pid: Option<u32>) -> Seq<char> {
    match pid {
        None => decimal(timestamp as nat) + ".log"@,
        Some(p) => decimal(timestamp as nat) + "-"@ + decimal(p as nat) + ".log"@,
    }
}

fn push_str(out: &mut Vec<char>, s: &str)
    ensures
        final(out)@ == old(out)@ + s@,
{
    let v = chars_of(s);
    append_chars(out, &v);
}

/// The archive name of a rotated log.
pub fn archive_log_name(timestamp: u64, pid: Option<u32>) -> (name: String)
    ensures
        name@ == archive_name(timestamp, pid),
{
    let mut out: Vec<char> = Vec::new();
    push_decimal(&mut out, timestamp);
    if let Some(p) = pid {
        push_str(&mut out, "-");
        push_decimal(&mut out, p as u64);
    }
    push_str(&mut out, ".log");
    proof {
        match pid {
            None => assert(out@ =~= archive_name(timestamp, pid)),
            Some(p) => assert(out@ =~= archive_name(timestamp, pid)),
        }
    }
    string_from_chars(&out)
}

/// The name of the temporary file that a file named `file_name` is first written
/// to: `.{file_name}.tmp-{pid}`, with `file` for a path without a name.
pub open spec fn temporary_name(file_name: Option<Seq<char>>, pid: u32) -> Seq<char> {
    let name = match file_name {
        Some(n) => n,
        None => "file"@,
    };
    "."@ + name + ".tmp-"@ + decimal(pid as nat)
}

/// The temporary file name for an atomic write.
pub fn temporary_file_name(file_name: Option<&str>, pid: u32) -> (name: String)
    ensures
        name@ == temporary_name(
            match file_name {
                Some(n) => Some(n@),
                None => None,
            },
            pid,
        ),
{
    let mut out: Vec<char> = Vec::new();
    push_str(&mut out, ".");
    match file_name {
        Some(n) => push_str(&mut out, n),
        None => push_str(&mut out, "file"),
    }
    push_str(&mut out, ".tmp-");
    push_decimal(&mut out, pid as u64);
    proof {
        match file_name {
            Some(n) => assert(out@ =~= temporary_name(Some(n@), pid)),
            None => assert(out@ =~= temporary_name(None, pid)),
        }
    }
    string_from_chars(&out)
}

/// The position of the most recently modified log among files with the given
/// modification times: the last of those with the greatest time, which is the one
/// that a stable sort by time puts at the end.
pub fn latest_modified_index(modified: &Vec<i128>) -> (r: Option<usize>)
    ensures
        modified.len() == 0 <==> r is None,
        r matches Some(i) ==> {
            &&& i < modified.len()
            &&& forall|j: int| 0 <= j < modified.len() ==> modified@[j] <= modified@[i as int]
            &&& forall|j: int| i < j < modified.len() ==> modified@[j] < modified@[i as int]
        },
{
    if modified.len() == 0 {
        return None;
    }
    let mut best: usize = 0;
    let mut i: usize = 1;
    while i < modified.len()
        invariant
            0 < i <= modified.len(),
            best < i,
            forall|j: int| 0 <= j < i ==> modified@[j] <= modified@[best as int],
            forall|j: int| best < j < i ==> modified@[j] < modified@[best as int],
        decreases modified.len() - i,
    {
        if modified[i] >= modified[best] {
            best = i;
        }
        i += 1;
    }
    Some(best)
}

/// Combines the result of an operation done under a file lock with the result of
/// releasing the lock: the operation's error comes first, then the unlock's.
pub fn finish_locked_operation<T, E>(result: Result<T, E>, unlock_result: Result<(), E>) -> (r:
    Result<T, E>)
    ensures
        match result {
            Ok(v) => match unlock_result {
                Ok(_) => r == Ok::<T, E>(v),
                Err(e) => r == Err::<T, E>(e),
            },
            Err(e) => r == Err::<T, E>(e),
        },
{
    match result {
        Ok(value) => match unlock_result {
            Ok(_) => Ok(value),
            Err(e) => Err(e),
        },
        Err(error) => Err(error),
    }
}

} // verus!
