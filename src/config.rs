//! Transfer profiles, their activation windows, and the choice of the active one.
use crate::text::{chars_of, joined, same_text};
use crate::utils::{join_path, path_join};
use vstd::prelude::*;

verus! {

/// A day of the week.
#[derive(Clone, Copy, Debug, PartialEq, Eq, Structural)]
pub enum Weekday {
    Mon,
    Tue,
    Wed,
    Thu,
    Fri,
    Sat,
    Sun,
}

/// The weekday numbered from Monday as 0.
pub open spec fn weekday_of_index(n: u32) -> Weekday {
    if n == 0 {
        Weekday::Mon
    } else if n == 1 {
        Weekday::Tue
    } else if n == 2 {
        Weekday::Wed
    } else if n == 3 {
        Weekday::Thu
    } else if n == 4 {
        Weekday::Fri
    } else if n == 5 {
        Weekday::Sat
    } else {
        Weekday::Sun
    }
}

impl Weekday {
    /// The weekday numbered `n` from Monday as 0 (6 and above give Sunday).
    pub fn from_index(n: u32) -> (r: Weekday)
        ensures
            r == weekday_of_index(n),
    {
        if n == 0 {
            Weekday::Mon
        } else if n == 1 {
            Weekday::Tue
        } else if n == 2 {
            Weekday::Wed
        } else if n == 3 {
            Weekday::Thu
        } else if n == 4 {
            Weekday::Fri
        } else if n == 5 {
            Weekday::Sat
        } else {
            Weekday::Sun
        }
    }
}

/// A time of day: whole seconds since midnight and the nanoseconds past them
/// (a leap second shows as `nanos` of a billion or more).
#[derive(Clone, Copy, Debug, PartialEq, Eq, Structural)]
pub struct TimeOfDay {
    pub seconds: u32,
    pub nanos: u32,
}

impl TimeOfDay {
    /// `self` is not later than `other`.
    pub open spec fn le(self, other: TimeOfDay) -> bool {
        self.seconds < other.seconds || (self.seconds == other.seconds && self.nanos
            <= other.nanos)
    }

    /// Whether `self` is not later than `other`.
    pub fn not_after(&self, other: &TimeOfDay) -> (r: bool)
        ensures
            r == self.le(*other),
    {
        self.seconds < other.seconds || (self.seconds == other.seconds && self.nanos
            <= other.nanos)
    }
}

/// What a profile's activation window reads as.
#[derive(Clone, Copy, Debug, PartialEq, Eq, Structural)]
pub enum WindowBounds {
    /// The text does not hold exactly one `-`: the profile never matches.
    Malformed,
    /// One side of the `-` is not a valid time: a configuration error.
    Invalid,
    /// From `start` to `end`, both included.
    Range { start: TimeOfDay, end: TimeOfDay },
}

pub open spec fn in_window(w: WindowBounds, t: TimeOfDay) -> bool {
    match w {
        WindowBounds::Range { start, end } => start.le(t) && t.le(end),
        _ => false,
    }
}

/// What chrono reads from `text` under the format `fmt`, as a time of day.
pub uninterp spec fn parsed_clock_time(text: Seq<char>, fmt: Seq<char>) -> Option<TimeOfDay>;

/// Relies on chrono::NaiveTime::parse_from_str, and on Timelike's
/// num_seconds_from_midnight and nanosecond to read the parsed time.
#[verifier::external_body]
fn parse_clock_time(text: &str, fmt: &str) -> (r: Option<TimeOfDay>)
    ensures
        r == parsed_clock_time(text@, fmt@),
{
    match chrono::NaiveTime::parse_from_str(text, fmt) {
        Ok(t) => Some(
            TimeOfDay {
                seconds: chrono::Timelike::num_seconds_from_midnight(&t),
                nanos: chrono::Timelike::nanosecond(&t),
            },
        ),
        Err(_) => None,
    }
}

/// The local wall clock as plain values: the time of day, the weekday
/// numbered from Monday as 0, and the seconds since the epoch.
pub struct LocalClock {
    pub time: TimeOfDay,
    pub weekday_index: u32,
    pub timestamp: i64,
}

/// Relies on chrono::Local::now, read through DateTime::time, Timelike,
/// Datelike::weekday and DateTime::timestamp; any time may come back, and
/// num_days_from_monday is below 7.
#[verifier::external_body]
pub(crate) fn local_clock() -> (r: LocalClock)
    ensures
        r.weekday_index < 7,
{
    let now = chrono::Local::now();
    let time = now.time();
    LocalClock {
        time: TimeOfDay {
            seconds: chrono::Timelike::num_seconds_from_midnight(&time),
            nanos: chrono::Timelike::nanosecond(&time),
        },
        weekday_index: chrono::Datelike::weekday(&now).num_days_from_monday(),
        timestamp: now.timestamp(),
    }
}

/// The only position of a `-` in `s` is `k`.
pub open spec fn single_dash_at(s: Seq<char>, k: int) -> bool {
    0 <= k < s.len() && s[k] == '-' && forall|j: int| 0 <= j < s.len() && j != k ==> s[j] != '-'
}

/// How the window text `s` (`HH:MM:SS-HH:MM:SS`) reads.
pub open spec fn window_of(s: Seq<char>) -> WindowBounds {
    if exists|k: int| single_dash_at(s, k) {
        let k = choose|k: int| single_dash_at(s, k);
        match (
            parsed_clock_time(s.subrange(0, k), "%H:%M:%S"@),
            parsed_clock_time(s.subrange(k + 1, s.len() as int), "%H:%M:%S"@),
        ) {
            (Some(start), Some(end)) => WindowBounds::Range { start, end },
            _ => WindowBounds::Invalid,
        }
    } else {
        WindowBounds::Malformed
    }
}

/// Reads a window text such as `12:01:00-15:15:00`.
pub fn parse_window(active_at: &str) -> (r: WindowBounds)
    ensures
        r == window_of(active_at@),
{
    let cs = chars_of(active_at);
    let mut dashes: usize = 0;
    let mut pos: usize = 0;
    let mut i: usize = 0;
    while i < cs.len()
        invariant
            cs@ == active_at@,
            i <= cs.len(),
            dashes <= 2,
            dashes == 0 ==> forall|j: int| 0 <= j < i ==> cs@[j] != '-',
            dashes >= 1 ==> pos < i && cs@[pos as int] == '-',
            dashes == 1 ==> forall|j: int| 0 <= j < i && j != pos ==> cs@[j] != '-',
            dashes == 2 ==> exists|a: int, b: int|
                0 <= a < b < i && cs@[a] == '-' && cs@[b] == '-',
        decreases cs.len() - i,
    {
        if cs[i] == '-' {
            if dashes == 0 {
                pos = i;
                dashes = 1;
            } else if dashes == 1 {
                assert(cs@[pos as int] == '-' && cs@[i as int] == '-');
                dashes = 2;
            }
        }
        i = i + 1;
    }
    if dashes != 1 {
        assert(!exists|k: int| single_dash_at(active_at@, k)) by {
            if dashes == 2 {
                let (a, b) = choose|a: int, b: int|
                    0 <= a < b < cs.len() && cs@[a] == '-' && cs@[b] == '-';
                assert forall|k: int| !single_dash_at(active_at@, k) by {
                    if single_dash_at(active_at@, k) {
                        assert(a == k && b == k);
                    }
                }
            }
        }
        return WindowBounds::Malformed;
    }
    assert(single_dash_at(active_at@, pos as int));
    let ghost k = choose|k: int| single_dash_at(active_at@, k);
    assert(k == pos);
    let len = active_at.unicode_len();
    let start_text = active_at.substring_char(0, pos);
    let end_text = active_at.substring_char(pos + 1, len);
    let start = parse_clock_time(start_text, "%H:%M:%S");
    let end = parse_clock_time(end_text, "%H:%M:%S");
    match (start, end) {
        (Some(s), Some(e)) => WindowBounds::Range { start: s, end: e },
        _ => WindowBounds::Invalid,
    }
}

/// Notification toggles, one per kind of event.
#[derive(Clone, Copy, Debug, Default, PartialEq, Eq, Structural)]
pub struct NotificationSettings {
    pub start: bool,
    pub clipboard: bool,
    pub upload: bool,
    pub error: bool,
}

/// Sound toggles and sound names, one pair per kind of event.
#[derive(Clone, Debug, Default)]
pub struct SoundSettings {
    pub start: bool,
    pub start_sound: String,
    pub clipboard: bool,
    pub clipboard_sound: String,
    pub upload: bool,
    pub upload_sound: String,
    pub error: bool,
    pub error_sound: String,
}

/// One transfer destination with its activation window.
#[derive(Debug, Default, PartialEq)]
pub struct Config {
    pub username: String,
    pub hostname: String,
    pub ssh_key: String,
    pub ssh_port: u16,
    pub address: String,
    pub remote_path: String,
    pub ssh_key_pass: String,
    pub watch_path: String,
    /// Time range in which the profile is active, e.g. `09:01:00-15:55:00`.
    pub active_at: String,
    /// Weekdays on which the profile is active; empty means every day.
    pub active_on: Vec<Weekday>,
    pub default: bool,
}

impl Config {
    /// `self` and `other` hold the same values.
    pub open spec fn same_as(self, other: Config) -> bool {
        &&& self.username@ == other.username@
        &&& self.hostname@ == other.hostname@
        &&& self.ssh_key@ == other.ssh_key@
        &&& self.ssh_port == other.ssh_port
        &&& self.address@ == other.address@
        &&& self.remote_path@ == other.remote_path@
        &&& self.ssh_key_pass@ == other.ssh_key_pass@
        &&& self.watch_path@ == other.watch_path@
        &&& self.active_at@ == other.active_at@
        &&& self.active_on@ == other.active_on@
        &&& self.default == other.default
    }

    /// A copy of the profile.
    pub fn duplicate(&self) -> (r: Config)
        ensures
            r.same_as(*self),
    {
        let mut days: Vec<Weekday> = Vec::new();
        let mut i: usize = 0;
        while i < self.active_on.len()
            invariant
                i <= self.active_on.len(),
                days@ == self.active_on@.take(i as int),
            decreases self.active_on.len() - i,
        {
            days.push(self.active_on[i]);
            assert(days@ =~= self.active_on@.take(i + 1));
            i = i + 1;
        }
        assert(days@ =~= self.active_on@);
        Config {
            username: self.username.clone(),
            hostname: self.hostname.clone(),
            ssh_key: self.ssh_key.clone(),
            ssh_port: self.ssh_port,
            address: self.address.clone(),
            remote_path: self.remote_path.clone(),
            ssh_key_pass: self.ssh_key_pass.clone(),
            watch_path: self.watch_path.clone(),
            active_at: self.active_at.clone(),
            active_on: days,
            default: self.default,
        }
    }
}

impl Clone for Config {
    fn clone(&self) -> (r: Config)
        ensures
            r.same_as(*self),
    {
        self.duplicate()
    }
}

/// The profile may be used on weekday `wd`.
pub open spec fn day_allowed(c: Config, wd: Weekday) -> bool {
    c.active_on@.len() == 0 || c.active_on@.contains(wd)
}

/// Profile `c`, whose window reads as `w`, is active at `t` on weekday `wd`.
pub open spec fn profile_matches(c: Config, w: WindowBounds, t: TimeOfDay, wd: Weekday) -> bool {
    in_window(w, t) && day_allowed(c, wd)
}

/// Why no profile could be chosen.
#[derive(Clone, Copy, Debug, PartialEq, Eq, Structural)]
pub enum SelectError {
    /// A window holds one `-` but a side of it is not a valid time.
    InvalidTime,
    /// No window matches and no profile is flagged as the default.
    NoDefault,
}

/// Profile `j` ends the search: its window is invalid, or it matches.
pub open spec fn decisive(
    cs: Seq<Config>,
    ws: Seq<WindowBounds>,
    t: TimeOfDay,
    wd: Weekday,
    j: int,
) -> bool {
    ws[j] is Invalid || profile_matches(cs[j], ws[j], t, wd)
}

/// From index `i` on, the first profile whose window is invalid or matches.
pub open spec fn first_decisive(
    cs: Seq<Config>,
    ws: Seq<WindowBounds>,
    t: TimeOfDay,
    wd: Weekday,
    i: nat,
) -> Option<nat>
    decreases cs.len() - i,
{
    if i >= cs.len() {
        None
    } else if decisive(cs, ws, t, wd, i as int) {
        Some(i)
    } else {
        first_decisive(cs, ws, t, wd, i + 1)
    }
}

/// From index `i` on, the first profile flagged as the default.
pub open spec fn first_default(cs: Seq<Config>, i: nat) -> Option<nat>
    decreases cs.len() - i,
{
    if i >= cs.len() {
        None
    } else if cs[i as int].default {
        Some(i)
    } else {
        first_default(cs, i + 1)
    }
}

/// The index of the active profile among `cs`, whose windows read as `ws`, at
/// time `t` on weekday `wd`: the first that matches in configured order, else
/// the default; a window with an invalid time met before is an error.
pub open spec fn profile_choice(
    cs: Seq<Config>,
    ws: Seq<WindowBounds>,
    t: TimeOfDay,
    wd: Weekday,
) -> Result<nat, SelectError> {
    match first_decisive(cs, ws, t, wd, 0) {
        Some(i) => if ws[i as int] is Invalid {
            Err(SelectError::InvalidTime)
        } else {
            Ok(i)
        },
        None => match first_default(cs, 0) {
            Some(d) => Ok(d),
            None => Err(SelectError::NoDefault),
        },
    }
}

/// How the windows of `cs` read.
pub open spec fn windows_of(cs: Seq<Config>) -> Seq<WindowBounds> {
    Seq::new(cs.len(), |i: int| window_of(cs[i].active_at@))
}

fn day_allows(c: &Config, wd: Weekday) -> (r: bool)
    ensures
        r == day_allowed(*c, wd),
{
    if c.active_on.len() == 0 {
        return true;
    }
    let mut i: usize = 0;
    while i < c.active_on.len()
        invariant
            i <= c.active_on.len(),
            forall|j: int| 0 <= j < i ==> c.active_on@[j] != wd,
        decreases c.active_on.len() - i,
    {
        if c.active_on[i] == wd {
            assert(c.active_on@.contains(wd));
            return true;
        }
        i = i + 1;
    }
    false
}

/// Index of the first profile flagged as the default.
fn find_default(cs: &Vec<Config>) -> (r: Option<usize>)
    ensures
        match r {
            Some(d) => d < cs.len() && first_default(cs@, 0) == Some(d as nat),
            None => first_default(cs@, 0) is None,
        },
{
    let mut i: usize = 0;
    while i < cs.len()
        invariant
            i <= cs.len(),
            first_default(cs@, 0) == first_default(cs@, i as nat),
        decreases cs.len() - i,
    {
        if cs[i].default {
            return Some(i);
        }
        i = i + 1;
    }
    None
}

/// Chooses among `configs`, whose windows read as `windows`, the profile active
/// at `now` on `weekday`, and gives its index.
pub fn choose_profile(
    configs: &Vec<Config>,
    windows: &Vec<WindowBounds>,
    now: TimeOfDay,
    weekday: Weekday,
) -> (r: Result<usize, SelectError>)
    requires
        windows.len() == configs.len(),
    ensures
        match r {
            Ok(i) => i < configs.len() && profile_choice(configs@, windows@, now, weekday) == Ok::<
                nat,
                SelectError,
            >(i as nat),
            Err(e) => profile_choice(configs@, windows@, now, weekday) == Err::<nat, SelectError>(
                e,
            ),
        },
{
    let mut i: usize = 0;
    while i < configs.len()
        invariant
            windows.len() == configs.len(),
            i <= configs.len(),
            first_decisive(configs@, windows@, now, weekday, 0) == first_decisive(
                configs@,
                windows@,
                now,
                weekday,
                i as nat,
            ),
        decreases configs.len() - i,
    {
        let w = windows[i];
        match w {
            WindowBounds::Invalid => {
                return Err(SelectError::InvalidTime);
            },
            WindowBounds::Range { start, end } => {
                if start.not_after(&now) && now.not_after(&end) && day_allows(&configs[i], weekday) {
                    return Ok(i);
                }
            },
            WindowBounds::Malformed => {},
        }
        i = i + 1;
    }
    match find_default(configs) {
        Some(d) => Ok(d),
        None => Err(SelectError::NoDefault),
    }
}

/// What the configuration file holds.
#[derive(Debug, Default)]
pub struct Configs {
    pub configs: Vec<Config>,
    pub notifications: NotificationSettings,
    pub sounds: SoundSettings,
    pub open_history_on_start: bool,
}

/// Why a configuration is refused at startup.
#[derive(Clone, Copy, Debug, PartialEq, Eq, Structural)]
pub enum ConfigError {
    EmptyUsername,
    EmptyHostname,
    ZeroPort,
    EmptyAddress,
    EmptyRemotePath,
    /// No profile is flagged as the default.
    NoDefaultProfile,
    /// More than one profile is flagged as the default.
    SeveralDefaultProfiles,
    /// A window holds one `-` but a side of it is not a valid time.
    InvalidWindowTime,
}

/// The first required value that profile `c` lacks, in the order checked.
pub open spec fn profile_problem(c: Config) -> Option<ConfigError> {
    if c.username@.len() == 0 {
        Some(ConfigError::EmptyUsername)
    } else if c.hostname@.len() == 0 {
        Some(ConfigError::EmptyHostname)
    } else if c.ssh_port == 0 {
        Some(ConfigError::ZeroPort)
    } else if c.address@.len() == 0 {
        Some(ConfigError::EmptyAddress)
    } else if c.remote_path@.len() == 0 {
        Some(ConfigError::EmptyRemotePath)
    } else {
        None
    }
}

/// From index `i` on, the problem of the first profile that has one.
pub open spec fn first_problem(cs: Seq<Config>, i: nat) -> Option<ConfigError>
    decreases cs.len() - i,
{
    if i >= cs.len() {
        None
    } else if profile_problem(cs[i as int]) is Some {
        profile_problem(cs[i as int])
    } else {
        first_problem(cs, i + 1)
    }
}

/// How many of `cs` are flagged as the default.
pub open spec fn default_count(cs: Seq<Config>) -> nat
    decreases cs.len(),
{
    if cs.len() == 0 {
        0
    } else {
        default_count(cs.drop_last()) + if cs.last().default {
            1nat
        } else {
            0nat
        }
    }
}

/// Why the set of profiles `cs` is refused, if it is.
pub open spec fn configs_problem(cs: Seq<Config>) -> Option<ConfigError> {
    if first_problem(cs, 0) is Some {
        first_problem(cs, 0)
    } else if exists|i: int| 0 <= i < cs.len() && window_of(cs[i].active_at@) is Invalid {
        Some(ConfigError::InvalidWindowTime)
    } else if default_count(cs) == 0 {
        Some(ConfigError::NoDefaultProfile)
    } else if default_count(cs) > 1 {
        Some(ConfigError::SeveralDefaultProfiles)
    } else {
        None
    }
}

/// The dashboard port for the environment name `env`.
pub open spec fn port_for_env(env: Seq<char>) -> u16 {
    if env == "dev"@ {
        8001
    } else if env == "test"@ {
        8002
    } else {
        8000
    }
}

/// The application's settings: the profiles and the fixed intervals and sizes.
#[derive(Debug, Default)]
pub struct AppConfig {
    pub configs: Vec<Config>,
    pub notifications: NotificationSettings,
    pub sounds: SoundSettings,
    pub open_history_on_start: bool,
    pub env: String,
    /// Queue polling period, in milliseconds.
    pub fs_check_interval: u64,
    /// Entries the dashboard shows by default.
    pub amount_history_load: usize,
    /// Snapshot period, in milliseconds.
    pub db_autodump_interval: u64,
    /// Network timeout, in milliseconds.
    pub ssh_connection_timeout: u64,
    /// Transfer buffer, in bytes.
    pub sftp_buffer_size: usize,
    pub webapi_port: u16,
}

impl AppConfig {
    /// Checks that profile `config` has every required value.
    pub fn validate_config(config: &Config) -> (r: Result<(), ConfigError>)
        ensures
            match profile_problem(*config) {
                Some(e) => r == Err::<(), ConfigError>(e),
                None => r is Ok,
            },
    {
        if config.username.as_str().is_empty() {
            return Err(ConfigError::EmptyUsername);
        }
        if config.hostname.as_str().is_empty() {
            return Err(ConfigError::EmptyHostname);
        }
        if config.ssh_port == 0 {
            return Err(ConfigError::ZeroPort);
        }
        if config.address.as_str().is_empty() {
            return Err(ConfigError::EmptyAddress);
        }
        if config.remote_path.as_str().is_empty() {
            return Err(ConfigError::EmptyRemotePath);
        }
        Ok(())
    }

    /// Builds the settings from what the configuration file holds and the
    /// environment name; refuses a profile without a required value, a window
    /// with one `-` whose sides are not both valid times, and a set of
    /// profiles without exactly one default.
    pub fn new(file: Configs, env: String) -> (r: Result<AppConfig, ConfigError>)
        ensures
            match configs_problem(file.configs@) {
                Some(e) => r == Err::<AppConfig, ConfigError>(e),
                None => r matches Ok(c) && {
                    &&& c.configs@ == file.configs@
                    &&& c.notifications == file.notifications
                    &&& c.sounds == file.sounds
                    &&& c.open_history_on_start == file.open_history_on_start
                    &&& c.env@ == env@
                    &&& c.fs_check_interval == 1000
                    &&& c.amount_history_load == 50
                    &&& c.db_autodump_interval == 21_600_000
                    &&& c.ssh_connection_timeout == 30000
                    &&& c.sftp_buffer_size == 262_144
                    &&& c.webapi_port == port_for_env(env@)
                },
            },
    {
        let mut i: usize = 0;
        while i < file.configs.len()
            invariant
                i <= file.configs.len(),
                first_problem(file.configs@, 0) == first_problem(file.configs@, i as nat),
            decreases file.configs.len() - i,
        {
            match Self::validate_config(&file.configs[i]) {
                Err(e) => {
                    return Err(e);
                },
                Ok(()) => {},
            }
            i = i + 1;
        }
        assert(first_problem(file.configs@, file.configs.len() as nat) is None);
        let mut k: usize = 0;
        while k < file.configs.len()
            invariant
                k <= file.configs.len(),
                first_problem(file.configs@, 0) is None,
                forall|m: int| 0 <= m < k ==> !(window_of(file.configs@[m].active_at@) is Invalid),
            decreases file.configs.len() - k,
        {
            let w = parse_window(file.configs[k].active_at.as_str());
            if w == WindowBounds::Invalid {
                assert(window_of(file.configs@[k as int].active_at@) is Invalid);
                return Err(ConfigError::InvalidWindowTime);
            }
            k = k + 1;
        }
        let mut defaults: usize = 0;
        let mut j: usize = 0;
        while j < file.configs.len()
            invariant
                j <= file.configs.len(),
                defaults == default_count(file.configs@.take(j as int)),
                defaults <= j,
            decreases file.configs.len() - j,
        {
            assert(file.configs@.take(j + 1).drop_last() =~= file.configs@.take(j as int));
            if file.configs[j].default {
                defaults = defaults + 1;
            }
            j = j + 1;
        }
        assert(file.configs@.take(file.configs.len() as int) =~= file.configs@);
        if defaults == 0 {
            return Err(ConfigError::NoDefaultProfile);
        }
        if defaults > 1 {
            return Err(ConfigError::SeveralDefaultProfiles);
        }
        let webapi_port = if same_text(env.as_str(), "dev") {
            8001
        } else if same_text(env.as_str(), "test") {
            8002
        } else {
            8000
        };
        Ok(
            AppConfig {
                configs: file.configs,
                notifications: file.notifications,
                sounds: file.sounds,
                open_history_on_start: file.open_history_on_start,
                env,
                fs_check_interval: 1000,
                amount_history_load: 50,
                db_autodump_interval: 21_600_000,
                ssh_connection_timeout: 30000,
                sftp_buffer_size: 262_144,
                webapi_port,
            },
        )
    }

    /// The profile active at `now` on `weekday`: the first in configured
    /// order whose window holds `now` and whose weekdays allow `weekday`, else
    /// the default one.
    pub fn select_config_at(&self, now: TimeOfDay, weekday: Weekday) -> (r: Result<
        Config,
        SelectError,
    >)
        ensures
            selected(self.configs@, now, weekday, r),
    {
        let mut windows: Vec<WindowBounds> = Vec::new();
        let mut i: usize = 0;
        while i < self.configs.len()
            invariant
                i <= self.configs.len(),
                windows@ == windows_of(self.configs@).take(i as int),
            decreases self.configs.len() - i,
        {
            let w = parse_window(self.configs[i].active_at.as_str());
            windows.push(w);
            assert(windows@ =~= windows_of(self.configs@).take(i + 1));
            i = i + 1;
        }
        assert(windows@ =~= windows_of(self.configs@));
        match choose_profile(&self.configs, &windows, now, weekday) {
            Ok(k) => Ok(self.configs[k].duplicate()),
            Err(e) => Err(e),
        }
    }

    /// The profile active now, by the local wall clock.
    pub fn select_config(&self) -> (r: Result<Config, SelectError>)
        ensures
            chosen_at_some_time(self.configs@, r),
    {
        let clock = local_clock();
        let weekday = Weekday::from_index(clock.weekday_index);
        self.select_config_at(clock.time, weekday)
    }
}

/// Relies on home::home_dir: the current user's home directory, read back
/// as text; it depends on the environment, so any value may come back.
#[verifier::external_body]
fn home_directory() -> (r: Option<String>) {
    match home::home_dir() {
        Some(p) => Some(p.to_string_lossy().into_owned()),
        None => None,
    }
}

/// The data directory under the home directory, for the operating system
/// named `target_os`.
pub open spec fn data_dir_name(target_os: Seq<char>) -> Seq<char> {
    if target_os == "macos"@ {
        "/Library/Small/"@
    } else {
        "/.small/"@
    }
}

/// The data directory under the home directory `home`.
pub open spec fn root_dir(home: Seq<char>, target_os: Seq<char>) -> Seq<char> {
    path_join(home, data_dir_name(target_os).drop_first())
}

impl AppConfig {
    /// The data directory under the home directory, for the operating system
    /// named `target_os`.
    pub fn data_dir_base(target_os: &str) -> (r: &'static str)
        ensures
            r@ == data_dir_name(target_os@),
    {
        if same_text(target_os, "macos") {
            "/Library/Small/"
        } else {
            "/.small/"
        }
    }

    /// The data directory under the home directory `home`.
    pub fn root_dir_in(home: &str, target_os: &str) -> (r: String)
        ensures
            r@ == root_dir(home@, target_os@),
    {
        let base = Self::data_dir_base(target_os);
        proof {
            reveal_strlit("/Library/Small/");
            reveal_strlit("/.small/");
        }
        let n = base.unicode_len();
        let relative = base.substring_char(1, n);
        assert(relative@ =~= data_dir_name(target_os@).drop_first());
        join_path(home, relative)
    }

    /// The data directory under the current user's home directory; none when
    /// that cannot be found.
    pub fn project_root_dir(target_os: &str) -> (r: Option<String>)
        ensures
            r matches Some(p) ==> exists|h: Seq<char>| p@ == root_dir(h, target_os@),
    {
        match home_directory() {
            Some(h) => Some(Self::root_dir_in(h.as_str(), target_os)),
            None => None,
        }
    }

    /// The directory of this environment's data.
    pub fn project_dir(&self, target_os: &str) -> (r: Option<String>)
        ensures
            r matches Some(p) ==> exists|h: Seq<char>|
                p@ == path_join(root_dir(h, target_os@), self.env@),
    {
        match Self::project_root_dir(target_os) {
            Some(root) => Some(join_path(root.as_str(), self.env.as_str())),
            None => None,
        }
    }

    /// The directory that snapshots of the store go to.
    pub fn db_dumps_dir(&self, target_os: &str) -> (r: Option<String>)
        ensures
            r matches Some(p) ==> exists|h: Seq<char>|
                p@ == path_join(root_dir(h, target_os@), ".sqlite-dumps-"@ + self.env@),
    {
        match Self::project_root_dir(target_os) {
            Some(root) => {
                let name = joined(".sqlite-dumps-", self.env.as_str());
                Some(join_path(root.as_str(), name.as_str()))
            },
            None => None,
        }
    }

    /// The configuration file.
    pub fn default_config_file(target_os: &str) -> (r: Option<String>)
        ensures
            r matches Some(p) ==> exists|h: Seq<char>|
                p@ == path_join(root_dir(h, target_os@), "config.toml"@),
    {
        match Self::project_root_dir(target_os) {
            Some(root) => Some(join_path(root.as_str(), "config.toml")),
            None => None,
        }
    }

    /// The store's file.
    pub fn database_path(&self, target_os: &str) -> (r: Option<String>)
        ensures
            r matches Some(p) ==> exists|h: Seq<char>|
                p@ == path_join(path_join(root_dir(h, target_os@), self.env@), "small.db"@),
    {
        match self.project_dir(target_os) {
            Some(dir) => Some(join_path(dir.as_str(), "small.db")),
            None => None,
        }
    }
}

/// `r` is what choosing among `cs` gives at some time on some weekday.
pub open spec fn chosen_at_some_time(cs: Seq<Config>, r: Result<Config, SelectError>) -> bool {
    exists|t: TimeOfDay, wd: Weekday| selected(cs, t, wd, r)
}

/// `r` is what choosing among `cs` at `t` on `wd` gives: a copy of the chosen
/// profile, or the reason none could be chosen.
pub open spec fn selected(cs: Seq<Config>, t: TimeOfDay, wd: Weekday, r: Result<Config, SelectError>) -> bool {
    match profile_choice(cs, windows_of(cs), t, wd) {
        Ok(i) => r matches Ok(c) && c.same_as(cs[i as int]),
        Err(e) => r == Err::<Config, SelectError>(e),
    }
}

proof fn lemma_first_decisive_at(
    cs: Seq<Config>,
    ws: Seq<WindowBounds>,
    t: TimeOfDay,
    wd: Weekday,
    i: nat,
    k: nat,
)
    requires
        i <= k < cs.len(),
        decisive(cs, ws, t, wd, k as int),
        forall|j: int| i <= j < k ==> !decisive(cs, ws, t, wd, j),
    ensures
        first_decisive(cs, ws, t, wd, i) == Some(k),
    decreases k - i,
{
    if i < k {
        lemma_first_decisive_at(cs, ws, t, wd, i + 1, k);
    }
}

proof fn lemma_first_decisive_none(
    cs: Seq<Config>,
    ws: Seq<WindowBounds>,
    t: TimeOfDay,
    wd: Weekday,
    i: nat,
)
    requires
        forall|j: int| i <= j < cs.len() ==> !decisive(cs, ws, t, wd, j),
    ensures
        first_decisive(cs, ws, t, wd, i) is None,
    decreases cs.len() - i,
{
    if i < cs.len() {
        lemma_first_decisive_none(cs, ws, t, wd, i + 1);
    }
}

proof fn lemma_first_default_at(cs: Seq<Config>, i: nat, d: nat)
    requires
        i <= d < cs.len(),
        cs[d as int].default,
        forall|j: int| i <= j < d ==> !cs[j].default,
    ensures
        first_default(cs, i) == Some(d),
    decreases d - i,
{
    if i < d {
        lemma_first_default_at(cs, i + 1, d);
    }
}

/// With well-formed windows, no two of which share a moment, no weekday
/// restrictions and the single default profile `d`: at a time inside the
/// window of profile `k`, profile `k` is chosen; at a time in no window, the
/// default is.
pub proof fn lemma_disjoint_windows_choice(
    cs: Seq<Config>,
    ws: Seq<WindowBounds>,
    t: TimeOfDay,
    wd: Weekday,
    d: nat,
)
    requires
        ws.len() == cs.len(),
        forall|i: int| 0 <= i < ws.len() ==> ws[i] is Range,
        forall|i: int| 0 <= i < cs.len() ==> cs[i].active_on@.len() == 0,
        forall|i: int, j: int, u: TimeOfDay|
            0 <= i < ws.len() && 0 <= j < ws.len() && i != j && in_window(ws[i], u) ==> !in_window(
                ws[j],
                u,
            ),
        d < cs.len(),
        forall|i: int| 0 <= i < cs.len() ==> (cs[i].default <==> i == d),
    ensures
        forall|k: int|
            0 <= k < cs.len() && in_window(ws[k], t) ==> profile_choice(cs, ws, t, wd) == Ok::<
                nat,
                SelectError,
            >(k as nat),
        (forall|k: int| 0 <= k < cs.len() ==> !in_window(ws[k], t)) ==> profile_choice(
            cs,
            ws,
            t,
            wd,
        ) == Ok::<nat, SelectError>(d),
{
    assert forall|k: int| 0 <= k < cs.len() && in_window(ws[k], t) implies profile_choice(
        cs,
        ws,
        t,
        wd,
    ) == Ok::<nat, SelectError>(k as nat) by {
        assert(decisive(cs, ws, t, wd, k));
        assert forall|j: int| 0 <= j < k implies !decisive(cs, ws, t, wd, j) by {
            assert(!in_window(ws[j], t));
        }
        lemma_first_decisive_at(cs, ws, t, wd, 0, k as nat);
    }
    if forall|k: int| 0 <= k < cs.len() ==> !in_window(ws[k], t) {
        lemma_first_decisive_none(cs, ws, t, wd, 0);
        lemma_first_default_at(cs, 0, d);
    }
}

/// With well-formed windows, overlapping or not, the first profile in
/// configured order that matches is chosen.
pub proof fn lemma_first_match_wins(
    cs: Seq<Config>,
    ws: Seq<WindowBounds>,
    t: TimeOfDay,
    wd: Weekday,
    k: nat,
)
    requires
        ws.len() == cs.len(),
        forall|i: int| 0 <= i < ws.len() ==> !(ws[i] is Invalid),
        k < cs.len(),
        profile_matches(cs[k as int], ws[k as int], t, wd),
        forall|j: int| 0 <= j < k ==> !profile_matches(cs[j], ws[j], t, wd),
    ensures
        profile_choice(cs, ws, t, wd) == Ok::<nat, SelectError>(k),
{
    lemma_first_decisive_at(cs, ws, t, wd, 0, k);
}

} // verus!
