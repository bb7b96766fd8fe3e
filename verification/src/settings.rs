//! The settings app's logic: the settings it edits and the file it writes,
//! the start-up task it registers, and the small conversions around them.
use vstd::prelude::*;
use crate::text::{all_digits, contains, digit_value, digits_value, lemma_decimal_digits, occurs_at, 
    append_chars, append_str, chars_of, decimal, decimal_chars, starts_with, starts_with_chars, string_from_chars,
    trim, trim_chars, split, split_chars, char_views,
};
use crate::yaml::{untag, YamlNumber, YamlValue, as_bool_spec, as_str_spec, as_u64_spec, node_at_spec, str_views};

verus! {

/// The settings the settings app edits, but for the weather location, which
/// is a pair of floats kept by the caller.
pub struct ConfigSettings {
    pub com_port: String,
    pub theme: String,
    pub eth: String,
    pub wlo: String,
    pub ping: String,
    pub weather_units: String,
    pub brightness: u8,
    pub display_reverse: bool,
    pub reset_on_startup: bool,
    pub show_console: bool,
    pub run_on_startup: bool,
    pub startup_delay: u32,
    pub lhm_path: String,
}

impl ConfigSettings {
    /// The settings used where the file says nothing.
    pub fn defaults() -> (s: ConfigSettings)
        ensures
            s.com_port@ == "AUTO"@,
            s.theme@ == "NexusMeter"@,
            s.eth@ == Seq::<char>::empty(),
            s.wlo@ == Seq::<char>::empty(),
            s.ping@ == "8.8.8.8"@,
            s.weather_units@ == "metric"@,
            s.brightness == 20,
            !s.display_reverse,
            !s.reset_on_startup,
            !s.show_console,
            !s.run_on_startup,
            s.startup_delay == 30,
            s.lhm_path@ == Seq::<char>::empty(),
    {
        ConfigSettings {
            com_port: String::from_str("AUTO"),
            theme: String::from_str("NexusMeter"),
            eth: String::new(),
            wlo: String::new(),
            ping: String::from_str("8.8.8.8"),
            weather_units: String::from_str("metric"),
            brightness: 20,
            display_reverse: false,
            reset_on_startup: false,
            show_console: false,
            run_on_startup: false,
            startup_delay: 30,
            lhm_path: String::new(),
        }
    }
}

/// The node reached from `v` by `keys`, looking through tags.
pub fn yaml_at<'a>(v: &'a YamlValue, keys: &[&str]) -> (r: Option<&'a YamlValue>)
    ensures
        r matches Some(c) ==> node_at_spec(*v, str_views(keys@)) == Some(*c),
        r is None ==> node_at_spec(*v, str_views(keys@)) is None,
{
    let ghost kv = str_views(keys@);
    let mut cur = v;
    let mut i: usize = 0;
    assert(kv.skip(0) =~= kv);
    while i < keys.len()
        invariant
            i <= keys@.len(),
            kv == str_views(keys@),
            kv.len() == keys@.len(),
            node_at_spec(*v, kv) == node_at_spec(*cur, kv.skip(i as int)),
        decreases keys@.len() - i,
    {
        assert(kv.skip(i as int)[0] == keys@[i as int]@);
        assert(kv.skip(i as int).drop_first() =~= kv.skip(i + 1));
        match cur.get(keys[i]) {
            Some(c) => {
                cur = c;
            },
            None => {
                return None;
            },
        }
        i += 1;
    }
    assert(kv.skip(i as int) =~= Seq::<Seq<char>>::empty());
    Some(cur)
}

pub open spec fn str_setting(v: YamlValue, keys: Seq<Seq<char>>) -> Option<Seq<char>> {
    match node_at_spec(v, keys) {
        Some(n) => as_str_spec(n),
        None => None,
    }
}

pub open spec fn u64_setting(v: YamlValue, keys: Seq<Seq<char>>) -> Option<u64> {
    match node_at_spec(v, keys) {
        Some(n) => as_u64_spec(n),
        None => None,
    }
}

pub open spec fn bool_setting(v: YamlValue, keys: Seq<Seq<char>>) -> Option<bool> {
    match node_at_spec(v, keys) {
        Some(n) => as_bool_spec(n),
        None => None,
    }
}

/// The string at `keys`, if there is one.
pub fn yaml_str(v: &YamlValue, keys: &[&str]) -> (r: Option<String>)
    ensures
        r matches Some(s) ==> str_setting(*v, str_views(keys@)) == Some(s@),
        r is None ==> str_setting(*v, str_views(keys@)) is None,
{
    match yaml_at(v, keys) {
        Some(n) => match n.as_str() {
            Some(s) => Some(s.clone()),
            None => None,
        },
        None => None,
    }
}

/// The unsigned integer at `keys`, if there is one.
pub fn yaml_u64(v: &YamlValue, keys: &[&str]) -> (r: Option<u64>)
    ensures
        r == u64_setting(*v, str_views(keys@)),
{
    match yaml_at(v, keys) {
        Some(n) => n.as_u64(),
        None => None,
    }
}

/// The boolean at `keys`, if there is one.
pub fn yaml_bool(v: &YamlValue, keys: &[&str]) -> (r: Option<bool>)
    ensures
        r == bool_setting(*v, str_views(keys@)),
{
    match yaml_at(v, keys) {
        Some(n) => n.as_bool(),
        None => None,
    }
}

pub open spec fn or_text(v: Option<Seq<char>>, d: Seq<char>) -> Seq<char> {
    match v {
        Some(s) => s,
        None => d,
    }
}

pub open spec fn or_flag(v: Option<bool>, d: bool) -> bool {
    match v {
        Some(b) => b,
        None => d,
    }
}

/// Brightness as the settings app reads it: capped at 100.
pub open spec fn brightness_of(v: Option<u64>) -> u8 {
    match v {
        Some(n) => if n > 100 {
            100u8
        } else {
            n as u8
        },
        None => 20u8,
    }
}

/// The start-up delay as the settings app reads it: the low 32 bits.
pub open spec fn delay_of(v: Option<u64>) -> u32 {
    match v {
        Some(n) => n as u32,
        None => 30u32,
    }
}

/// The settings read from a parsed settings file: every key that is present
/// with the right type overrides the default, every other one keeps it.
pub open spec fn settings_match(y: YamlValue, s: ConfigSettings) -> bool {
    &&& s.com_port@ == or_text(str_setting(y, seq!["config"@, "COM_PORT"@]), "AUTO"@)
    &&& s.theme@ == or_text(str_setting(y, seq!["config"@, "THEME"@]), "NexusMeter"@)
    &&& s.eth@ == or_text(str_setting(y, seq!["config"@, "ETH"@]), seq![])
    &&& s.wlo@ == or_text(str_setting(y, seq!["config"@, "WLO"@]), seq![])
    &&& s.ping@ == or_text(str_setting(y, seq!["config"@, "PING"@]), "8.8.8.8"@)
    &&& s.weather_units@ == or_text(str_setting(y, seq!["config"@, "WEATHER_UNITS"@]), "metric"@)
    &&& s.brightness == brightness_of(u64_setting(y, seq!["display"@, "BRIGHTNESS"@]))
    &&& s.display_reverse == or_flag(bool_setting(y, seq!["display"@, "DISPLAY_REVERSE"@]), false)
    &&& s.reset_on_startup == or_flag(bool_setting(y, seq!["display"@, "RESET_ON_STARTUP"@]), false)
    &&& s.show_console == or_flag(bool_setting(y, seq!["display"@, "SHOW_CONSOLE"@]), false)
    &&& s.run_on_startup == or_flag(bool_setting(y, seq!["startup"@, "RUN_ON_STARTUP"@]), false)
    &&& s.startup_delay == delay_of(u64_setting(y, seq!["startup"@, "DELAY"@]))
    &&& s.lhm_path@ == or_text(str_setting(y, seq!["lhm"@, "LHM_PATH"@]), seq![])
}

fn text_or(v: Option<String>, d: String) -> (r: String)
    ensures
        r@ == match v {
            Some(s) => s@,
            None => d@,
        },
{
    match v {
        Some(s) => s,
        None => d,
    }
}

/// Reads the settings from a parsed settings file, tolerantly.
pub fn settings_from_yaml(y: &YamlValue) -> (s: ConfigSettings)
    ensures
        settings_match(*y, s),
{
    let d = ConfigSettings::defaults();
    let keys: &[&str] = &["config", "COM_PORT"];
    assert(str_views(keys@) == seq!["config"@, "COM_PORT"@]);
    let com_port = text_or(yaml_str(y, keys), d.com_port);
    let keys: &[&str] = &["config", "THEME"];
    assert(str_views(keys@) == seq!["config"@, "THEME"@]);
    let theme = text_or(yaml_str(y, keys), d.theme);
    let keys: &[&str] = &["config", "ETH"];
    assert(str_views(keys@) == seq!["config"@, "ETH"@]);
    let eth = text_or(yaml_str(y, keys), d.eth);
    let keys: &[&str] = &["config", "WLO"];
    assert(str_views(keys@) == seq!["config"@, "WLO"@]);
    let wlo = text_or(yaml_str(y, keys), d.wlo);
    let keys: &[&str] = &["config", "PING"];
    assert(str_views(keys@) == seq!["config"@, "PING"@]);
    let ping = text_or(yaml_str(y, keys), d.ping);
    let keys: &[&str] = &["config", "WEATHER_UNITS"];
    assert(str_views(keys@) == seq!["config"@, "WEATHER_UNITS"@]);
    let weather_units = text_or(yaml_str(y, keys), d.weather_units);
    let keys: &[&str] = &["display", "BRIGHTNESS"];
    assert(str_views(keys@) == seq!["display"@, "BRIGHTNESS"@]);
    let brightness = match yaml_u64(y, keys) {
        Some(n) => if n > 100 {
            100u8
        } else {
            n as u8
        },
        None => d.brightness,
    };
    let keys: &[&str] = &["display", "DISPLAY_REVERSE"];
    assert(str_views(keys@) == seq!["display"@, "DISPLAY_REVERSE"@]);
    let display_reverse = match yaml_bool(y, keys) {
        Some(b) => b,
        None => d.display_reverse,
    };
    let keys: &[&str] = &["display", "RESET_ON_STARTUP"];
    assert(str_views(keys@) == seq!["display"@, "RESET_ON_STARTUP"@]);
    let reset_on_startup = match yaml_bool(y, keys) {
        Some(b) => b,
        None => d.reset_on_startup,
    };
    let keys: &[&str] = &["display", "SHOW_CONSOLE"];
    assert(str_views(keys@) == seq!["display"@, "SHOW_CONSOLE"@]);
    let show_console = match yaml_bool(y, keys) {
        Some(b) => b,
        None => d.show_console,
    };
    let keys: &[&str] = &["startup", "RUN_ON_STARTUP"];
    assert(str_views(keys@) == seq!["startup"@, "RUN_ON_STARTUP"@]);
    let run_on_startup = match yaml_bool(y, keys) {
        Some(b) => b,
        None => d.run_on_startup,
    };
    let keys: &[&str] = &["startup", "DELAY"];
    assert(str_views(keys@) == seq!["startup"@, "DELAY"@]);
    let startup_delay = match yaml_u64(y, keys) {
        Some(n) => n as u32,
        None => d.startup_delay,
    };
    let keys: &[&str] = &["lhm", "LHM_PATH"];
    assert(str_views(keys@) == seq!["lhm"@, "LHM_PATH"@]);
    let lhm_path = text_or(yaml_str(y, keys), d.lhm_path);
    ConfigSettings {
        com_port,
        theme,
        eth,
        wlo,
        ping,
        weather_units,
        brightness,
        display_reverse,
        reset_on_startup,
        show_console,
        run_on_startup,
        startup_delay,
        lhm_path,
    }
}

pub open spec fn bool_text(b: bool) -> Seq<char> {
    if b {
        "true"@
    } else {
        "false"@
    }
}

fn bool_str(b: bool) -> (s: &'static str)
    ensures
        s@ == bool_text(b),
{
    if b {
        "true"
    } else {
        "false"
    }
}

/// The settings file the settings app writes, with its comments; the weather
/// location is given as the caller formatted it.
pub open spec fn config_text_spec(s: ConfigSettings, latitude: Seq<char>, longitude: Seq<char>) -> Seq<char> {
    "---\nconfig:\n  # Set your COM port e.g. COM3 for Windows, /dev/ttyACM0 for Linux...\n  # Use AUTO for COM port auto-discovery\n  COM_PORT: '"@
        + s.com_port@
        + "'\n\n  # Theme to use (folder name under res/themes)\n  THEME: '"@
        + s.theme@
        + "'\n\n  # Network interfaces for NET stats. Leave empty '' to sum ALL interfaces.\n  ETH: '"@
        + s.eth@
        + "'\n  WLO: '"@
        + s.wlo@
        + "'\n\n  # Address used for ping/latency checks\n  PING: '"@
        + s.ping@
        + "'\n\n  # Weather location and units (metric/imperial)\n  WEATHER_LATITUDE: "@
        + latitude
        + "\n  WEATHER_LONGITUDE: "@
        + longitude
        + "\n  WEATHER_UNITS: '"@
        + s.weather_units@
        + "'\n\ndisplay:\n  # Display brightness percentage (0-100)\n  BRIGHTNESS: "@
        + decimal(s.brightness as nat)
        + "\n\n  # Reverse display orientation: true/false\n  DISPLAY_REVERSE: "@
        + bool_text(s.display_reverse)
        + "\n\n  # Reset display on startup: true/false (can change the COM port on some displays)\n  RESET_ON_STARTUP: "@
        + bool_text(s.reset_on_startup)
        + "\n\n  # Shows the debug console window (hidden by default). Errors are\n  # always shown regardless of this setting.\n  SHOW_CONSOLE: "@
        + bool_text(s.show_console)
        + "\n\nstartup:\n  # Run the monitor as admin on Windows startup via Task Scheduler\n  RUN_ON_STARTUP: "@
        + bool_text(s.run_on_startup)
        + "\n  DELAY: "@
        + decimal(s.startup_delay as nat)
        + "\n\nlhm:\n  # Path to LibreHardwareMonitor folder (leave empty for default)\n  LHM_PATH: '"@
        + s.lhm_path@
        + "'\n"@
}

/// The text a flag is written as in the settings file.
pub open spec fn flag(b: bool) -> Seq<char> {
    if b {
        "true"@
    } else {
        "false"@
    }
}

proof fn lemma_line_in(
    t: Seq<char>,
    m: Seq<char>,
    pre: Seq<char>,
    lit: Seq<char>,
    key: Seq<char>,
    v: Seq<char>,
    next: Seq<char>,
    end: Seq<char>,
)
    requires
        m == pre + lit + v + next,
        m.len() <= t.len(),
        t.subrange(0, m.len() as int) == m,
        key.len() <= lit.len(),
        lit.subrange(lit.len() - key.len(), lit.len() as int) == key,
        end.len() <= next.len(),
        next.subrange(0, end.len() as int) == end,
    ensures
        contains(t, key + v + end),
{
    let i = pre.len() + lit.len() - key.len();
    let n = key.len() + v.len() + end.len();
    assert(m.subrange(i, i + n) =~= key + v + end);
    assert(t.subrange(i, i + n) =~= m.subrange(i, i + n));
    assert(occurs_at(t, key + v + end, i));
}

/// Every setting is written on a line of its own under its key, carrying the
/// value it has: the strings quoted, the flags as `true`/`false` and the
/// numbers in decimal. In particular the start-up flag is the value of the
/// `RUN_ON_STARTUP` line and the console flag that of the `SHOW_CONSOLE` line.
pub proof fn settings_file_carries_every_setting(s: ConfigSettings, latitude: Seq<char>, longitude: Seq<char>)
    ensures
        contains(config_text_spec(s, latitude, longitude), "  COM_PORT: '"@ + s.com_port@ + "'\n"@),
        contains(config_text_spec(s, latitude, longitude), "  THEME: '"@ + s.theme@ + "'\n"@),
        contains(config_text_spec(s, latitude, longitude), "  ETH: '"@ + s.eth@ + "'\n"@),
        contains(config_text_spec(s, latitude, longitude), "  WLO: '"@ + s.wlo@ + "'\n"@),
        contains(config_text_spec(s, latitude, longitude), "  PING: '"@ + s.ping@ + "'\n"@),
        contains(config_text_spec(s, latitude, longitude), "  WEATHER_LATITUDE: "@ + latitude + "\n"@),
        contains(config_text_spec(s, latitude, longitude), "  WEATHER_LONGITUDE: "@ + longitude + "\n"@),
        contains(config_text_spec(s, latitude, longitude), "  WEATHER_UNITS: '"@ + s.weather_units@ + "'\n"@),
        contains(config_text_spec(s, latitude, longitude), "  BRIGHTNESS: "@ + decimal(s.brightness as nat) + "\n"@),
        contains(config_text_spec(s, latitude, longitude), "  DISPLAY_REVERSE: "@ + flag(s.display_reverse) + "\n"@),
        contains(config_text_spec(s, latitude, longitude), "  RESET_ON_STARTUP: "@ + flag(s.reset_on_startup) + "\n"@),
        contains(config_text_spec(s, latitude, longitude), "  SHOW_CONSOLE: "@ + flag(s.show_console) + "\n"@),
        contains(config_text_spec(s, latitude, longitude), "  RUN_ON_STARTUP: "@ + flag(s.run_on_startup) + "\n"@),
        contains(config_text_spec(s, latitude, longitude), "  DELAY: "@ + decimal(s.startup_delay as nat) + "\n"@),
        contains(config_text_spec(s, latitude, longitude), "  LHM_PATH: '"@ + s.lhm_path@ + "'\n"@),
{
    lemma_line_com_port(s, latitude, longitude);
    lemma_line_theme(s, latitude, longitude);
    lemma_line_eth(s, latitude, longitude);
    lemma_line_wlo(s, latitude, longitude);
    lemma_line_ping(s, latitude, longitude);
    lemma_line_latitude(s, latitude, longitude);
    lemma_line_longitude(s, latitude, longitude);
    lemma_line_weather_units(s, latitude, longitude);
    lemma_line_brightness(s, latitude, longitude);
    lemma_line_display_reverse(s, latitude, longitude);
    lemma_line_reset_on_startup(s, latitude, longitude);
    lemma_line_show_console(s, latitude, longitude);
    lemma_line_run_on_startup(s, latitude, longitude);
    lemma_line_startup_delay(s, latitude, longitude);
    lemma_line_lhm_path(s, latitude, longitude);
}

proof fn lemma_line_com_port(s: ConfigSettings, latitude: Seq<char>, longitude: Seq<char>)
    ensures
        contains(config_text_spec(s, latitude, longitude), "  COM_PORT: '"@ + s.com_port@ + "'\n"@),
{
    let t = config_text_spec(s, latitude, longitude);
    reveal_strlit("---\nconfig:\n  # Set your COM port e.g. COM3 for Windows, /dev/ttyACM0 for Linux...\n  # Use AUTO for COM port auto-discovery\n  COM_PORT: '");
    reveal_strlit("'\n\n  # Theme to use (folder name under res/themes)\n  THEME: '");
    reveal_strlit("  COM_PORT: '");
    reveal_strlit("'\n");
    let m = "---\nconfig:\n  # Set your COM port e.g. COM3 for Windows, /dev/ttyACM0 for Linux...\n  # Use AUTO for COM port auto-discovery\n  COM_PORT: '"@ + s.com_port@ + "'\n\n  # Theme to use (folder name under res/themes)\n  THEME: '"@;
    assert(t.subrange(0, m.len() as int) =~= m);
    assert("---\nconfig:\n  # Set your COM port e.g. COM3 for Windows, /dev/ttyACM0 for Linux...\n  # Use AUTO for COM port auto-discovery\n  COM_PORT: '"@.subrange("---\nconfig:\n  # Set your COM port e.g. COM3 for Windows, /dev/ttyACM0 for Linux...\n  # Use AUTO for COM port auto-discovery\n  COM_PORT: '"@.len() - "  COM_PORT: '"@.len(), "---\nconfig:\n  # Set your COM port e.g. COM3 for Windows, /dev/ttyACM0 for Linux...\n  # Use AUTO for COM port auto-discovery\n  COM_PORT: '"@.len() as int) =~= "  COM_PORT: '"@);
    assert("'\n\n  # Theme to use (folder name under res/themes)\n  THEME: '"@.subrange(0, "'\n"@.len() as int) =~= "'\n"@);
    lemma_line_in(t, m, Seq::<char>::empty(), "---\nconfig:\n  # Set your COM port e.g. COM3 for Windows, /dev/ttyACM0 for Linux...\n  # Use AUTO for COM port auto-discovery\n  COM_PORT: '"@, "  COM_PORT: '"@, s.com_port@, "'\n\n  # Theme to use (folder name under res/themes)\n  THEME: '"@, "'\n"@);
}

proof fn lemma_line_theme(s: ConfigSettings, latitude: Seq<char>, longitude: Seq<char>)
    ensures
        contains(config_text_spec(s, latitude, longitude), "  THEME: '"@ + s.theme@ + "'\n"@),
{
    let t = config_text_spec(s, latitude, longitude);
    reveal_strlit("'\n\n  # Theme to use (folder name under res/themes)\n  THEME: '");
    reveal_strlit("'\n\n  # Network interfaces for NET stats. Leave empty '' to sum ALL interfaces.\n  ETH: '");
    reveal_strlit("  THEME: '");
    reveal_strlit("'\n");
    let m = "---\nconfig:\n  # Set your COM port e.g. COM3 for Windows, /dev/ttyACM0 for Linux...\n  # Use AUTO for COM port auto-discovery\n  COM_PORT: '"@ + s.com_port@ + "'\n\n  # Theme to use (folder name under res/themes)\n  THEME: '"@ + s.theme@ + "'\n\n  # Network interfaces for NET stats. Leave empty '' to sum ALL interfaces.\n  ETH: '"@;
    assert(t.subrange(0, m.len() as int) =~= m);
    assert("'\n\n  # Theme to use (folder name under res/themes)\n  THEME: '"@.subrange("'\n\n  # Theme to use (folder name under res/themes)\n  THEME: '"@.len() - "  THEME: '"@.len(), "'\n\n  # Theme to use (folder name under res/themes)\n  THEME: '"@.len() as int) =~= "  THEME: '"@);
    assert("'\n\n  # Network interfaces for NET stats. Leave empty '' to sum ALL interfaces.\n  ETH: '"@.subrange(0, "'\n"@.len() as int) =~= "'\n"@);
    lemma_line_in(t, m, "---\nconfig:\n  # Set your COM port e.g. COM3 for Windows, /dev/ttyACM0 for Linux...\n  # Use AUTO for COM port auto-discovery\n  COM_PORT: '"@ + s.com_port@, "'\n\n  # Theme to use (folder name under res/themes)\n  THEME: '"@, "  THEME: '"@, s.theme@, "'\n\n  # Network interfaces for NET stats. Leave empty '' to sum ALL interfaces.\n  ETH: '"@, "'\n"@);
}

proof fn lemma_line_eth(s: ConfigSettings, latitude: Seq<char>, longitude: Seq<char>)
    ensures
        contains(config_text_spec(s, latitude, longitude), "  ETH: '"@ + s.eth@ + "'\n"@),
{
    let t = config_text_spec(s, latitude, longitude);
    reveal_strlit("'\n\n  # Network interfaces for NET stats. Leave empty '' to sum ALL interfaces.\n  ETH: '");
    reveal_strlit("'\n  WLO: '");
    reveal_strlit("  ETH: '");
    reveal_strlit("'\n");
    let m = "---\nconfig:\n  # Set your COM port e.g. COM3 for Windows, /dev/ttyACM0 for Linux...\n  # Use AUTO for COM port auto-discovery\n  COM_PORT: '"@ + s.com_port@ + "'\n\n  # Theme to use (folder name under res/themes)\n  THEME: '"@ + s.theme@ + "'\n\n  # Network interfaces for NET stats. Leave empty '' to sum ALL interfaces.\n  ETH: '"@ + s.eth@ + "'\n  WLO: '"@;
    assert(t.subrange(0, m.len() as int) =~= m);
    assert("'\n\n  # Network interfaces for NET stats. Leave empty '' to sum ALL interfaces.\n  ETH: '"@.subrange("'\n\n  # Network interfaces for NET stats. Leave empty '' to sum ALL interfaces.\n  ETH: '"@.len() - "  ETH: '"@.len(), "'\n\n  # Network interfaces for NET stats. Leave empty '' to sum ALL interfaces.\n  ETH: '"@.len() as int) =~= "  ETH: '"@);
    assert("'\n  WLO: '"@.subrange(0, "'\n"@.len() as int) =~= "'\n"@);
    lemma_line_in(t, m, "---\nconfig:\n  # Set your COM port e.g. COM3 for Windows, /dev/ttyACM0 for Linux...\n  # Use AUTO for COM port auto-discovery\n  COM_PORT: '"@ + s.com_port@ + "'\n\n  # Theme to use (folder name under res/themes)\n  THEME: '"@ + s.theme@, "'\n\n  # Network interfaces for NET stats. Leave empty '' to sum ALL interfaces.\n  ETH: '"@, "  ETH: '"@, s.eth@, "'\n  WLO: '"@, "'\n"@);
}

proof fn lemma_line_wlo(s: ConfigSettings, latitude: Seq<char>, longitude: Seq<char>)
    ensures
        contains(config_text_spec(s, latitude, longitude), "  WLO: '"@ + s.wlo@ + "'\n"@),
{
    let t = config_text_spec(s, latitude, longitude);
    reveal_strlit("'\n  WLO: '");
    reveal_strlit("'\n\n  # Address used for ping/latency checks\n  PING: '");
    reveal_strlit("  WLO: '");
    reveal_strlit("'\n");
    let m = "---\nconfig:\n  # Set your COM port e.g. COM3 for Windows, /dev/ttyACM0 for Linux...\n  # Use AUTO for COM port auto-discovery\n  COM_PORT: '"@ + s.com_port@ + "'\n\n  # Theme to use (folder name under res/themes)\n  THEME: '"@ + s.theme@ + "'\n\n  # Network interfaces for NET stats. Leave empty '' to sum ALL interfaces.\n  ETH: '"@ + s.eth@ + "'\n  WLO: '"@ + s.wlo@ + "'\n\n  # Address used for ping/latency checks\n  PING: '"@;
    assert(t.subrange(0, m.len() as int) =~= m);
    assert("'\n  WLO: '"@.subrange("'\n  WLO: '"@.len() - "  WLO: '"@.len(), "'\n  WLO: '"@.len() as int) =~= "  WLO: '"@);
    assert("'\n\n  # Address used for ping/latency checks\n  PING: '"@.subrange(0, "'\n"@.len() as int) =~= "'\n"@);
    lemma_line_in(t, m, "---\nconfig:\n  # Set your COM port e.g. COM3 for Windows, /dev/ttyACM0 for Linux...\n  # Use AUTO for COM port auto-discovery\n  COM_PORT: '"@ + s.com_port@ + "'\n\n  # Theme to use (folder name under res/themes)\n  THEME: '"@ + s.theme@ + "'\n\n  # Network interfaces for NET stats. Leave empty '' to sum ALL interfaces.\n  ETH: '"@ + s.eth@, "'\n  WLO: '"@, "  WLO: '"@, s.wlo@, "'\n\n  # Address used for ping/latency checks\n  PING: '"@, "'\n"@);
}

proof fn lemma_line_ping(s: ConfigSettings, latitude: Seq<char>, longitude: Seq<char>)
    ensures
        contains(config_text_spec(s, latitude, longitude), "  PING: '"@ + s.ping@ + "'\n"@),
{
    let t = config_text_spec(s, latitude, longitude);
    reveal_strlit("'\n\n  # Address used for ping/latency checks\n  PING: '");
    reveal_strlit("'\n\n  # Weather location and units (metric/imperial)\n  WEATHER_LATITUDE: ");
    reveal_strlit("  PING: '");
    reveal_strlit("'\n");
    let m = "---\nconfig:\n  # Set your COM port e.g. COM3 for Windows, /dev/ttyACM0 for Linux...\n  # Use AUTO for COM port auto-discovery\n  COM_PORT: '"@ + s.com_port@ + "'\n\n  # Theme to use (folder name under res/themes)\n  THEME: '"@ + s.theme@ + "'\n\n  # Network interfaces for NET stats. Leave empty '' to sum ALL interfaces.\n  ETH: '"@ + s.eth@ + "'\n  WLO: '"@ + s.wlo@ + "'\n\n  # Address used for ping/latency checks\n  PING: '"@ + s.ping@ + "'\n\n  # Weather location and units (metric/imperial)\n  WEATHER_LATITUDE: "@;
    assert(t.subrange(0, m.len() as int) =~= m);
    assert("'\n\n  # Address used for ping/latency checks\n  PING: '"@.subrange("'\n\n  # Address used for ping/latency checks\n  PING: '"@.len() - "  PING: '"@.len(), "'\n\n  # Address used for ping/latency checks\n  PING: '"@.len() as int) =~= "  PING: '"@);
    assert("'\n\n  # Weather location and units (metric/imperial)\n  WEATHER_LATITUDE: "@.subrange(0, "'\n"@.len() as int) =~= "'\n"@);
    lemma_line_in(t, m, "---\nconfig:\n  # Set your COM port e.g. COM3 for Windows, /dev/ttyACM0 for Linux...\n  # Use AUTO for COM port auto-discovery\n  COM_PORT: '"@ + s.com_port@ + "'\n\n  # Theme to use (folder name under res/themes)\n  THEME: '"@ + s.theme@ + "'\n\n  # Network interfaces for NET stats. Leave empty '' to sum ALL interfaces.\n  ETH: '"@ + s.eth@ + "'\n  WLO: '"@ + s.wlo@, "'\n\n  # Address used for ping/latency checks\n  PING: '"@, "  PING: '"@, s.ping@, "'\n\n  # Weather location and units (metric/imperial)\n  WEATHER_LATITUDE: "@, "'\n"@);
}

proof fn lemma_line_latitude(s: ConfigSettings, latitude: Seq<char>, longitude: Seq<char>)
    ensures
        contains(config_text_spec(s, latitude, longitude), "  WEATHER_LATITUDE: "@ + latitude + "\n"@),
{
    let t = config_text_spec(s, latitude, longitude);
    reveal_strlit("'\n\n  # Weather location and units (metric/imperial)\n  WEATHER_LATITUDE: ");
    reveal_strlit("\n  WEATHER_LONGITUDE: ");
    reveal_strlit("  WEATHER_LATITUDE: ");
    reveal_strlit("\n");
    let m = "---\nconfig:\n  # Set your COM port e.g. COM3 for Windows, /dev/ttyACM0 for Linux...\n  # Use AUTO for COM port auto-discovery\n  COM_PORT: '"@ + s.com_port@ + "'\n\n  # Theme to use (folder name under res/themes)\n  THEME: '"@ + s.theme@ + "'\n\n  # Network interfaces for NET stats. Leave empty '' to sum ALL interfaces.\n  ETH: '"@ + s.eth@ + "'\n  WLO: '"@ + s.wlo@ + "'\n\n  # Address used for ping/latency checks\n  PING: '"@ + s.ping@ + "'\n\n  # Weather location and units (metric/imperial)\n  WEATHER_LATITUDE: "@ + latitude + "\n  WEATHER_LONGITUDE: "@;
    assert(t.subrange(0, m.len() as int) =~= m);
    assert("'\n\n  # Weather location and units (metric/imperial)\n  WEATHER_LATITUDE: "@.subrange("'\n\n  # Weather location and units (metric/imperial)\n  WEATHER_LATITUDE: "@.len() - "  WEATHER_LATITUDE: "@.len(), "'\n\n  # Weather location and units (metric/imperial)\n  WEATHER_LATITUDE: "@.len() as int) =~= "  WEATHER_LATITUDE: "@);
    assert("\n  WEATHER_LONGITUDE: "@.subrange(0, "\n"@.len() as int) =~= "\n"@);
    lemma_line_in(t, m, "---\nconfig:\n  # Set your COM port e.g. COM3 for Windows, /dev/ttyACM0 for Linux...\n  # Use AUTO for COM port auto-discovery\n  COM_PORT: '"@ + s.com_port@ + "'\n\n  # Theme to use (folder name under res/themes)\n  THEME: '"@ + s.theme@ + "'\n\n  # Network interfaces for NET stats. Leave empty '' to sum ALL interfaces.\n  ETH: '"@ + s.eth@ + "'\n  WLO: '"@ + s.wlo@ + "'\n\n  # Address used for ping/latency checks\n  PING: '"@ + s.ping@, "'\n\n  # Weather location and units (metric/imperial)\n  WEATHER_LATITUDE: "@, "  WEATHER_LATITUDE: "@, latitude, "\n  WEATHER_LONGITUDE: "@, "\n"@);
}

proof fn lemma_line_longitude(s: ConfigSettings, latitude: Seq<char>, longitude: Seq<char>)
    ensures
        contains(config_text_spec(s, latitude, longitude), "  WEATHER_LONGITUDE: "@ + longitude + "\n"@),
{
    let t = config_text_spec(s, latitude, longitude);
    reveal_strlit("\n  WEATHER_LONGITUDE: ");
    reveal_strlit("\n  WEATHER_UNITS: '");
    reveal_strlit("  WEATHER_LONGITUDE: ");
    reveal_strlit("\n");
    let m = "---\nconfig:\n  # Set your COM port e.g. COM3 for Windows, /dev/ttyACM0 for Linux...\n  # Use AUTO for COM port auto-discovery\n  COM_PORT: '"@ + s.com_port@ + "'\n\n  # Theme to use (folder name under res/themes)\n  THEME: '"@ + s.theme@ + "'\n\n  # Network interfaces for NET stats. Leave empty '' to sum ALL interfaces.\n  ETH: '"@ + s.eth@ + "'\n  WLO: '"@ + s.wlo@ + "'\n\n  # Address used for ping/latency checks\n  PING: '"@ + s.ping@ + "'\n\n  # Weather location and units (metric/imperial)\n  WEATHER_LATITUDE: "@ + latitude + "\n  WEATHER_LONGITUDE: "@ + longitude + "\n  WEATHER_UNITS: '"@;
    assert(t.subrange(0, m.len() as int) =~= m);
    assert("\n  WEATHER_LONGITUDE: "@.subrange("\n  WEATHER_LONGITUDE: "@.len() - "  WEATHER_LONGITUDE: "@.len(), "\n  WEATHER_LONGITUDE: "@.len() as int) =~= "  WEATHER_LONGITUDE: "@);
    assert("\n  WEATHER_UNITS: '"@.subrange(0, "\n"@.len() as int) =~= "\n"@);
    lemma_line_in(t, m, "---\nconfig:\n  # Set your COM port e.g. COM3 for Windows, /dev/ttyACM0 for Linux...\n  # Use AUTO for COM port auto-discovery\n  COM_PORT: '"@ + s.com_port@ + "'\n\n  # Theme to use (folder name under res/themes)\n  THEME: '"@ + s.theme@ + "'\n\n  # Network interfaces for NET stats. Leave empty '' to sum ALL interfaces.\n  ETH: '"@ + s.eth@ + "'\n  WLO: '"@ + s.wlo@ + "'\n\n  # Address used for ping/latency checks\n  PING: '"@ + s.ping@ + "'\n\n  # Weather location and units (metric/imperial)\n  WEATHER_LATITUDE: "@ + latitude, "\n  WEATHER_LONGITUDE: "@, "  WEATHER_LONGITUDE: "@, longitude, "\n  WEATHER_UNITS: '"@, "\n"@);
}

proof fn lemma_line_weather_units(s: ConfigSettings, latitude: Seq<char>, longitude: Seq<char>)
    ensures
        contains(config_text_spec(s, latitude, longitude), "  WEATHER_UNITS: '"@ + s.weather_units@ + "'\n"@),
{
    let t = config_text_spec(s, latitude, longitude);
    reveal_strlit("\n  WEATHER_UNITS: '");
    reveal_strlit("'\n\ndisplay:\n  # Display brightness percentage (0-100)\n  BRIGHTNESS: ");
    reveal_strlit("  WEATHER_UNITS: '");
    reveal_strlit("'\n");
    let m = "---\nconfig:\n  # Set your COM port e.g. COM3 for Windows, /dev/ttyACM0 for Linux...\n  # Use AUTO for COM port auto-discovery\n  COM_PORT: '"@ + s.com_port@ + "'\n\n  # Theme to use (folder name under res/themes)\n  THEME: '"@ + s.theme@ + "'\n\n  # Network interfaces for NET stats. Leave empty '' to sum ALL interfaces.\n  ETH: '"@ + s.eth@ + "'\n  WLO: '"@ + s.wlo@ + "'\n\n  # Address used for ping/latency checks\n  PING: '"@ + s.ping@ + "'\n\n  # Weather location and units (metric/imperial)\n  WEATHER_LATITUDE: "@ + latitude + "\n  WEATHER_LONGITUDE: "@ + longitude + "\n  WEATHER_UNITS: '"@ + s.weather_units@ + "'\n\ndisplay:\n  # Display brightness percentage (0-100)\n  BRIGHTNESS: "@;
    assert(t.subrange(0, m.len() as int) =~= m);
    assert("\n  WEATHER_UNITS: '"@.subrange("\n  WEATHER_UNITS: '"@.len() - "  WEATHER_UNITS: '"@.len(), "\n  WEATHER_UNITS: '"@.len() as int) =~= "  WEATHER_UNITS: '"@);
    assert("'\n\ndisplay:\n  # Display brightness percentage (0-100)\n  BRIGHTNESS: "@.subrange(0, "'\n"@.len() as int) =~= "'\n"@);
    lemma_line_in(t, m, "---\nconfig:\n  # Set your COM port e.g. COM3 for Windows, /dev/ttyACM0 for Linux...\n  # Use AUTO for COM port auto-discovery\n  COM_PORT: '"@ + s.com_port@ + "'\n\n  # Theme to use (folder name under res/themes)\n  THEME: '"@ + s.theme@ + "'\n\n  # Network interfaces for NET stats. Leave empty '' to sum ALL interfaces.\n  ETH: '"@ + s.eth@ + "'\n  WLO: '"@ + s.wlo@ + "'\n\n  # Address used for ping/latency checks\n  PING: '"@ + s.ping@ + "'\n\n  # Weather location and units (metric/imperial)\n  WEATHER_LATITUDE: "@ + latitude + "\n  WEATHER_LONGITUDE: "@ + longitude, "\n  WEATHER_UNITS: '"@, "  WEATHER_UNITS: '"@, s.weather_units@, "'\n\ndisplay:\n  # Display brightness percentage (0-100)\n  BRIGHTNESS: "@, "'\n"@);
}

proof fn lemma_line_brightness(s: ConfigSettings, latitude: Seq<char>, longitude: Seq<char>)
    ensures
        contains(config_text_spec(s, latitude, longitude), "  BRIGHTNESS: "@ + decimal(s.brightness as nat) + "\n"@),
{
    let t = config_text_spec(s, latitude, longitude);
    reveal_strlit("'\n\ndisplay:\n  # Display brightness percentage (0-100)\n  BRIGHTNESS: ");
    reveal_strlit("\n\n  # Reverse display orientation: true/false\n  DISPLAY_REVERSE: ");
    reveal_strlit("  BRIGHTNESS: ");
    reveal_strlit("\n");
    let m = "---\nconfig:\n  # Set your COM port e.g. COM3 for Windows, /dev/ttyACM0 for Linux...\n  # Use AUTO for COM port auto-discovery\n  COM_PORT: '"@ + s.com_port@ + "'\n\n  # Theme to use (folder name under res/themes)\n  THEME: '"@ + s.theme@ + "'\n\n  # Network interfaces for NET stats. Leave empty '' to sum ALL interfaces.\n  ETH: '"@ + s.eth@ + "'\n  WLO: '"@ + s.wlo@ + "'\n\n  # Address used for ping/latency checks\n  PING: '"@ + s.ping@ + "'\n\n  # Weather location and units (metric/imperial)\n  WEATHER_LATITUDE: "@ + latitude + "\n  WEATHER_LONGITUDE: "@ + longitude + "\n  WEATHER_UNITS: '"@ + s.weather_units@ + "'\n\ndisplay:\n  # Display brightness percentage (0-100)\n  BRIGHTNESS: "@ + decimal(s.brightness as nat) + "\n\n  # Reverse display orientation: true/false\n  DISPLAY_REVERSE: "@;
    assert(t.subrange(0, m.len() as int) =~= m);
    assert("'\n\ndisplay:\n  # Display brightness percentage (0-100)\n  BRIGHTNESS: "@.subrange("'\n\ndisplay:\n  # Display brightness percentage (0-100)\n  BRIGHTNESS: "@.len() - "  BRIGHTNESS: "@.len(), "'\n\ndisplay:\n  # Display brightness percentage (0-100)\n  BRIGHTNESS: "@.len() as int) =~= "  BRIGHTNESS: "@);
    assert("\n\n  # Reverse display orientation: true/false\n  DISPLAY_REVERSE: "@.subrange(0, "\n"@.len() as int) =~= "\n"@);
    lemma_line_in(t, m, "---\nconfig:\n  # Set your COM port e.g. COM3 for Windows, /dev/ttyACM0 for Linux...\n  # Use AUTO for COM port auto-discovery\n  COM_PORT: '"@ + s.com_port@ + "'\n\n  # Theme to use (folder name under res/themes)\n  THEME: '"@ + s.theme@ + "'\n\n  # Network interfaces for NET stats. Leave empty '' to sum ALL interfaces.\n  ETH: '"@ + s.eth@ + "'\n  WLO: '"@ + s.wlo@ + "'\n\n  # Address used for ping/latency checks\n  PING: '"@ + s.ping@ + "'\n\n  # Weather location and units (metric/imperial)\n  WEATHER_LATITUDE: "@ + latitude + "\n  WEATHER_LONGITUDE: "@ + longitude + "\n  WEATHER_UNITS: '"@ + s.weather_units@, "'\n\ndisplay:\n  # Display brightness percentage (0-100)\n  BRIGHTNESS: "@, "  BRIGHTNESS: "@, decimal(s.brightness as nat), "\n\n  # Reverse display orientation: true/false\n  DISPLAY_REVERSE: "@, "\n"@);
}

proof fn lemma_line_display_reverse(s: ConfigSettings, latitude: Seq<char>, longitude: Seq<char>)
    ensures
        contains(config_text_spec(s, latitude, longitude), "  DISPLAY_REVERSE: "@ + flag(s.display_reverse) + "\n"@),
{
    let t = config_text_spec(s, latitude, longitude);
    reveal_strlit("\n\n  # Reverse display orientation: true/false\n  DISPLAY_REVERSE: ");
    reveal_strlit("\n\n  # Reset display on startup: true/false (can change the COM port on some displays)\n  RESET_ON_STARTUP: ");
    reveal_strlit("  DISPLAY_REVERSE: ");
    reveal_strlit("\n");
    let m = "---\nconfig:\n  # Set your COM port e.g. COM3 for Windows, /dev/ttyACM0 for Linux...\n  # Use AUTO for COM port auto-discovery\n  COM_PORT: '"@ + s.com_port@ + "'\n\n  # Theme to use (folder name under res/themes)\n  THEME: '"@ + s.theme@ + "'\n\n  # Network interfaces for NET stats. Leave empty '' to sum ALL interfaces.\n  ETH: '"@ + s.eth@ + "'\n  WLO: '"@ + s.wlo@ + "'\n\n  # Address used for ping/latency checks\n  PING: '"@ + s.ping@ + "'\n\n  # Weather location and units (metric/imperial)\n  WEATHER_LATITUDE: "@ + latitude + "\n  WEATHER_LONGITUDE: "@ + longitude + "\n  WEATHER_UNITS: '"@ + s.weather_units@ + "'\n\ndisplay:\n  # Display brightness percentage (0-100)\n  BRIGHTNESS: "@ + decimal(s.brightness as nat) + "\n\n  # Reverse display orientation: true/false\n  DISPLAY_REVERSE: "@ + bool_text(s.display_reverse) + "\n\n  # Reset display on startup: true/false (can change the COM port on some displays)\n  RESET_ON_STARTUP: "@;
    assert(t.subrange(0, m.len() as int) =~= m);
    assert("\n\n  # Reverse display orientation: true/false\n  DISPLAY_REVERSE: "@.subrange("\n\n  # Reverse display orientation: true/false\n  DISPLAY_REVERSE: "@.len() - "  DISPLAY_REVERSE: "@.len(), "\n\n  # Reverse display orientation: true/false\n  DISPLAY_REVERSE: "@.len() as int) =~= "  DISPLAY_REVERSE: "@);
    assert("\n\n  # Reset display on startup: true/false (can change the COM port on some displays)\n  RESET_ON_STARTUP: "@.subrange(0, "\n"@.len() as int) =~= "\n"@);
    lemma_line_in(t, m, "---\nconfig:\n  # Set your COM port e.g. COM3 for Windows, /dev/ttyACM0 for Linux...\n  # Use AUTO for COM port auto-discovery\n  COM_PORT: '"@ + s.com_port@ + "'\n\n  # Theme to use (folder name under res/themes)\n  THEME: '"@ + s.theme@ + "'\n\n  # Network interfaces for NET stats. Leave empty '' to sum ALL interfaces.\n  ETH: '"@ + s.eth@ + "'\n  WLO: '"@ + s.wlo@ + "'\n\n  # Address used for ping/latency checks\n  PING: '"@ + s.ping@ + "'\n\n  # Weather location and units (metric/imperial)\n  WEATHER_LATITUDE: "@ + latitude + "\n  WEATHER_LONGITUDE: "@ + longitude + "\n  WEATHER_UNITS: '"@ + s.weather_units@ + "'\n\ndisplay:\n  # Display brightness percentage (0-100)\n  BRIGHTNESS: "@ + decimal(s.brightness as nat), "\n\n  # Reverse display orientation: true/false\n  DISPLAY_REVERSE: "@, "  DISPLAY_REVERSE: "@, bool_text(s.display_reverse), "\n\n  # Reset display on startup: true/false (can change the COM port on some displays)\n  RESET_ON_STARTUP: "@, "\n"@);
}

proof fn lemma_line_reset_on_startup(s: ConfigSettings, latitude: Seq<char>, longitude: Seq<char>)
    ensures
        contains(config_text_spec(s, latitude, longitude), "  RESET_ON_STARTUP: "@ + flag(s.reset_on_startup) + "\n"@),
{
    let t = config_text_spec(s, latitude, longitude);
    reveal_strlit("\n\n  # Reset display on startup: true/false (can change the COM port on some displays)\n  RESET_ON_STARTUP: ");
    reveal_strlit("\n\n  # Shows the debug console window (hidden by default). Errors are\n  # always shown regardless of this setting.\n  SHOW_CONSOLE: ");
    reveal_strlit("  RESET_ON_STARTUP: ");
    reveal_strlit("\n");
    let m = "---\nconfig:\n  # Set your COM port e.g. COM3 for Windows, /dev/ttyACM0 for Linux...\n  # Use AUTO for COM port auto-discovery\n  COM_PORT: '"@ + s.com_port@ + "'\n\n  # Theme to use (folder name under res/themes)\n  THEME: '"@ + s.theme@ + "'\n\n  # Network interfaces for NET stats. Leave empty '' to sum ALL interfaces.\n  ETH: '"@ + s.eth@ + "'\n  WLO: '"@ + s.wlo@ + "'\n\n  # Address used for ping/latency checks\n  PING: '"@ + s.ping@ + "'\n\n  # Weather location and units (metric/imperial)\n  WEATHER_LATITUDE: "@ + latitude + "\n  WEATHER_LONGITUDE: "@ + longitude + "\n  WEATHER_UNITS: '"@ + s.weather_units@ + "'\n\ndisplay:\n  # Display brightness percentage (0-100)\n  BRIGHTNESS: "@ + decimal(s.brightness as nat) + "\n\n  # Reverse display orientation: true/false\n  DISPLAY_REVERSE: "@ + bool_text(s.display_reverse) + "\n\n  # Reset display on startup: true/false (can change the COM port on some displays)\n  RESET_ON_STARTUP: "@ + bool_text(s.reset_on_startup) + "\n\n  # Shows the debug console window (hidden by default). Errors are\n  # always shown regardless of this setting.\n  SHOW_CONSOLE: "@;
    assert(t.subrange(0, m.len() as int) =~= m);
    assert("\n\n  # Reset display on startup: true/false (can change the COM port on some displays)\n  RESET_ON_STARTUP: "@.subrange("\n\n  # Reset display on startup: true/false (can change the COM port on some displays)\n  RESET_ON_STARTUP: "@.len() - "  RESET_ON_STARTUP: "@.len(), "\n\n  # Reset display on startup: true/false (can change the COM port on some displays)\n  RESET_ON_STARTUP: "@.len() as int) =~= "  RESET_ON_STARTUP: "@);
    assert("\n\n  # Shows the debug console window (hidden by default). Errors are\n  # always shown regardless of this setting.\n  SHOW_CONSOLE: "@.subrange(0, "\n"@.len() as int) =~= "\n"@);
    lemma_line_in(t, m, "---\nconfig:\n  # Set your COM port e.g. COM3 for Windows, /dev/ttyACM0 for Linux...\n  # Use AUTO for COM port auto-discovery\n  COM_PORT: '"@ + s.com_port@ + "'\n\n  # Theme to use (folder name under res/themes)\n  THEME: '"@ + s.theme@ + "'\n\n  # Network interfaces for NET stats. Leave empty '' to sum ALL interfaces.\n  ETH: '"@ + s.eth@ + "'\n  WLO: '"@ + s.wlo@ + "'\n\n  # Address used for ping/latency checks\n  PING: '"@ + s.ping@ + "'\n\n  # Weather location and units (metric/imperial)\n  WEATHER_LATITUDE: "@ + latitude + "\n  WEATHER_LONGITUDE: "@ + longitude + "\n  WEATHER_UNITS: '"@ + s.weather_units@ + "'\n\ndisplay:\n  # Display brightness percentage (0-100)\n  BRIGHTNESS: "@ + decimal(s.brightness as nat) + "\n\n  # Reverse display orientation: true/false\n  DISPLAY_REVERSE: "@ + bool_text(s.display_reverse), "\n\n  # Reset display on startup: true/false (can change the COM port on some displays)\n  RESET_ON_STARTUP: "@, "  RESET_ON_STARTUP: "@, bool_text(s.reset_on_startup), "\n\n  # Shows the debug console window (hidden by default). Errors are\n  # always shown regardless of this setting.\n  SHOW_CONSOLE: "@, "\n"@);
}

proof fn lemma_line_show_console(s: ConfigSettings, latitude: Seq<char>, longitude: Seq<char>)
    ensures
        contains(config_text_spec(s, latitude, longitude), "  SHOW_CONSOLE: "@ + flag(s.show_console) + "\n"@),
{
    let t = config_text_spec(s, latitude, longitude);
    reveal_strlit("\n\n  # Shows the debug console window (hidden by default). Errors are\n  # always shown regardless of this setting.\n  SHOW_CONSOLE: ");
    reveal_strlit("\n\nstartup:\n  # Run the monitor as admin on Windows startup via Task Scheduler\n  RUN_ON_STARTUP: ");
    reveal_strlit("  SHOW_CONSOLE: ");
    reveal_strlit("\n");
    let m = "---\nconfig:\n  # Set your COM port e.g. COM3 for Windows, /dev/ttyACM0 for Linux...\n  # Use AUTO for COM port auto-discovery\n  COM_PORT: '"@ + s.com_port@ + "'\n\n  # Theme to use (folder name under res/themes)\n  THEME: '"@ + s.theme@ + "'\n\n  # Network interfaces for NET stats. Leave empty '' to sum ALL interfaces.\n  ETH: '"@ + s.eth@ + "'\n  WLO: '"@ + s.wlo@ + "'\n\n  # Address used for ping/latency checks\n  PING: '"@ + s.ping@ + "'\n\n  # Weather location and units (metric/imperial)\n  WEATHER_LATITUDE: "@ + latitude + "\n  WEATHER_LONGITUDE: "@ + longitude + "\n  WEATHER_UNITS: '"@ + s.weather_units@ + "'\n\ndisplay:\n  # Display brightness percentage (0-100)\n  BRIGHTNESS: "@ + decimal(s.brightness as nat) + "\n\n  # Reverse display orientation: true/false\n  DISPLAY_REVERSE: "@ + bool_text(s.display_reverse) + "\n\n  # Reset display on startup: true/false (can change the COM port on some displays)\n  RESET_ON_STARTUP: "@ + bool_text(s.reset_on_startup) + "\n\n  # Shows the debug console window (hidden by default). Errors are\n  # always shown regardless of this setting.\n  SHOW_CONSOLE: "@ + bool_text(s.show_console) + "\n\nstartup:\n  # Run the monitor as admin on Windows startup via Task Scheduler\n  RUN_ON_STARTUP: "@;
    assert(t.subrange(0, m.len() as int) =~= m);
    assert("\n\n  # Shows the debug console window (hidden by default). Errors are\n  # always shown regardless of this setting.\n  SHOW_CONSOLE: "@.subrange("\n\n  # Shows the debug console window (hidden by default). Errors are\n  # always shown regardless of this setting.\n  SHOW_CONSOLE: "@.len() - "  SHOW_CONSOLE: "@.len(), "\n\n  # Shows the debug console window (hidden by default). Errors are\n  # always shown regardless of this setting.\n  SHOW_CONSOLE: "@.len() as int) =~= "  SHOW_CONSOLE: "@);
    assert("\n\nstartup:\n  # Run the monitor as admin on Windows startup via Task Scheduler\n  RUN_ON_STARTUP: "@.subrange(0, "\n"@.len() as int) =~= "\n"@);
    lemma_line_in(t, m, "---\nconfig:\n  # Set your COM port e.g. COM3 for Windows, /dev/ttyACM0 for Linux...\n  # Use AUTO for COM port auto-discovery\n  COM_PORT: '"@ + s.com_port@ + "'\n\n  # Theme to use (folder name under res/themes)\n  THEME: '"@ + s.theme@ + "'\n\n  # Network interfaces for NET stats. Leave empty '' to sum ALL interfaces.\n  ETH: '"@ + s.eth@ + "'\n  WLO: '"@ + s.wlo@ + "'\n\n  # Address used for ping/latency checks\n  PING: '"@ + s.ping@ + "'\n\n  # Weather location and units (metric/imperial)\n  WEATHER_LATITUDE: "@ + latitude + "\n  WEATHER_LONGITUDE: "@ + longitude + "\n  WEATHER_UNITS: '"@ + s.weather_units@ + "'\n\ndisplay:\n  # Display brightness percentage (0-100)\n  BRIGHTNESS: "@ + decimal(s.brightness as nat) + "\n\n  # Reverse display orientation: true/false\n  DISPLAY_REVERSE: "@ + bool_text(s.display_reverse) + "\n\n  # Reset display on startup: true/false (can change the COM port on some displays)\n  RESET_ON_STARTUP: "@ + bool_text(s.reset_on_startup), "\n\n  # Shows the debug console window (hidden by default). Errors are\n  # always shown regardless of this setting.\n  SHOW_CONSOLE: "@, "  SHOW_CONSOLE: "@, bool_text(s.show_console), "\n\nstartup:\n  # Run the monitor as admin on Windows startup via Task Scheduler\n  RUN_ON_STARTUP: "@, "\n"@);
}

proof fn lemma_line_run_on_startup(s: ConfigSettings, latitude: Seq<char>, longitude: Seq<char>)
    ensures
        contains(config_text_spec(s, latitude, longitude), "  RUN_ON_STARTUP: "@ + flag(s.run_on_startup) + "\n"@),
{
    let t = config_text_spec(s, latitude, longitude);
    reveal_strlit("\n\nstartup:\n  # Run the monitor as admin on Windows startup via Task Scheduler\n  RUN_ON_STARTUP: ");
    reveal_strlit("\n  DELAY: ");
    reveal_strlit("  RUN_ON_STARTUP: ");
    reveal_strlit("\n");
    let m = "---\nconfig:\n  # Set your COM port e.g. COM3 for Windows, /dev/ttyACM0 for Linux...\n  # Use AUTO for COM port auto-discovery\n  COM_PORT: '"@ + s.com_port@ + "'\n\n  # Theme to use (folder name under res/themes)\n  THEME: '"@ + s.theme@ + "'\n\n  # Network interfaces for NET stats. Leave empty '' to sum ALL interfaces.\n  ETH: '"@ + s.eth@ + "'\n  WLO: '"@ + s.wlo@ + "'\n\n  # Address used for ping/latency checks\n  PING: '"@ + s.ping@ + "'\n\n  # Weather location and units (metric/imperial)\n  WEATHER_LATITUDE: "@ + latitude + "\n  WEATHER_LONGITUDE: "@ + longitude + "\n  WEATHER_UNITS: '"@ + s.weather_units@ + "'\n\ndisplay:\n  # Display brightness percentage (0-100)\n  BRIGHTNESS: "@ + decimal(s.brightness as nat) + "\n\n  # Reverse display orientation: true/false\n  DISPLAY_REVERSE: "@ + bool_text(s.display_reverse) + "\n\n  # Reset display on startup: true/false (can change the COM port on some displays)\n  RESET_ON_STARTUP: "@ + bool_text(s.reset_on_startup) + "\n\n  # Shows the debug console window (hidden by default). Errors are\n  # always shown regardless of this setting.\n  SHOW_CONSOLE: "@ + bool_text(s.show_console) + "\n\nstartup:\n  # Run the monitor as admin on Windows startup via Task Scheduler\n  RUN_ON_STARTUP: "@ + bool_text(s.run_on_startup) + "\n  DELAY: "@;
    assert(t.subrange(0, m.len() as int) =~= m);
    assert("\n\nstartup:\n  # Run the monitor as admin on Windows startup via Task Scheduler\n  RUN_ON_STARTUP: "@.subrange("\n\nstartup:\n  # Run the monitor as admin on Windows startup via Task Scheduler\n  RUN_ON_STARTUP: "@.len() - "  RUN_ON_STARTUP: "@.len(), "\n\nstartup:\n  # Run the monitor as admin on Windows startup via Task Scheduler\n  RUN_ON_STARTUP: "@.len() as int) =~= "  RUN_ON_STARTUP: "@);
    assert("\n  DELAY: "@.subrange(0, "\n"@.len() as int) =~= "\n"@);
    lemma_line_in(t, m, "---\nconfig:\n  # Set your COM port e.g. COM3 for Windows, /dev/ttyACM0 for Linux...\n  # Use AUTO for COM port auto-discovery\n  COM_PORT: '"@ + s.com_port@ + "'\n\n  # Theme to use (folder name under res/themes)\n  THEME: '"@ + s.theme@ + "'\n\n  # Network interfaces for NET stats. Leave empty '' to sum ALL interfaces.\n  ETH: '"@ + s.eth@ + "'\n  WLO: '"@ + s.wlo@ + "'\n\n  # Address used for ping/latency checks\n  PING: '"@ + s.ping@ + "'\n\n  # Weather location and units (metric/imperial)\n  WEATHER_LATITUDE: "@ + latitude + "\n  WEATHER_LONGITUDE: "@ + longitude + "\n  WEATHER_UNITS: '"@ + s.weather_units@ + "'\n\ndisplay:\n  # Display brightness percentage (0-100)\n  BRIGHTNESS: "@ + decimal(s.brightness as nat) + "\n\n  # Reverse display orientation: true/false\n  DISPLAY_REVERSE: "@ + bool_text(s.display_reverse) + "\n\n  # Reset display on startup: true/false (can change the COM port on some displays)\n  RESET_ON_STARTUP: "@ + bool_text(s.reset_on_startup) + "\n\n  # Shows the debug console window (hidden by default). Errors are\n  # always shown regardless of this setting.\n  SHOW_CONSOLE: "@ + bool_text(s.show_console), "\n\nstartup:\n  # Run the monitor as admin on Windows startup via Task Scheduler\n  RUN_ON_STARTUP: "@, "  RUN_ON_STARTUP: "@, bool_text(s.run_on_startup), "\n  DELAY: "@, "\n"@);
}

proof fn lemma_line_startup_delay(s: ConfigSettings, latitude: Seq<char>, longitude: Seq<char>)
    ensures
        contains(config_text_spec(s, latitude, longitude), "  DELAY: "@ + decimal(s.startup_delay as nat) + "\n"@),
{
    let t = config_text_spec(s, latitude, longitude);
    reveal_strlit("\n  DELAY: ");
    reveal_strlit("\n\nlhm:\n  # Path to LibreHardwareMonitor folder (leave empty for default)\n  LHM_PATH: '");
    reveal_strlit("  DELAY: ");
    reveal_strlit("\n");
    let m = "---\nconfig:\n  # Set your COM port e.g. COM3 for Windows, /dev/ttyACM0 for Linux...\n  # Use AUTO for COM port auto-discovery\n  COM_PORT: '"@ + s.com_port@ + "'\n\n  # Theme to use (folder name under res/themes)\n  THEME: '"@ + s.theme@ + "'\n\n  # Network interfaces for NET stats. Leave empty '' to sum ALL interfaces.\n  ETH: '"@ + s.eth@ + "'\n  WLO: '"@ + s.wlo@ + "'\n\n  # Address used for ping/latency checks\n  PING: '"@ + s.ping@ + "'\n\n  # Weather location and units (metric/imperial)\n  WEATHER_LATITUDE: "@ + latitude + "\n  WEATHER_LONGITUDE: "@ + longitude + "\n  WEATHER_UNITS: '"@ + s.weather_units@ + "'\n\ndisplay:\n  # Display brightness percentage (0-100)\n  BRIGHTNESS: "@ + decimal(s.brightness as nat) + "\n\n  # Reverse display orientation: true/false\n  DISPLAY_REVERSE: "@ + bool_text(s.display_reverse) + "\n\n  # Reset display on startup: true/false (can change the COM port on some displays)\n  RESET_ON_STARTUP: "@ + bool_text(s.reset_on_startup) + "\n\n  # Shows the debug console window (hidden by default). Errors are\n  # always shown regardless of this setting.\n  SHOW_CONSOLE: "@ + bool_text(s.show_console) + "\n\nstartup:\n  # Run the monitor as admin on Windows startup via Task Scheduler\n  RUN_ON_STARTUP: "@ + bool_text(s.run_on_startup) + "\n  DELAY: "@ + decimal(s.startup_delay as nat) + "\n\nlhm:\n  # Path to LibreHardwareMonitor folder (leave empty for default)\n  LHM_PATH: '"@;
    assert(t.subrange(0, m.len() as int) =~= m);
    assert("\n  DELAY: "@.subrange("\n  DELAY: "@.len() - "  DELAY: "@.len(), "\n  DELAY: "@.len() as int) =~= "  DELAY: "@);
    assert("\n\nlhm:\n  # Path to LibreHardwareMonitor folder (leave empty for default)\n  LHM_PATH: '"@.subrange(0, "\n"@.len() as int) =~= "\n"@);
    lemma_line_in(t, m, "---\nconfig:\n  # Set your COM port e.g. COM3 for Windows, /dev/ttyACM0 for Linux...\n  # Use AUTO for COM port auto-discovery\n  COM_PORT: '"@ + s.com_port@ + "'\n\n  # Theme to use (folder name under res/themes)\n  THEME: '"@ + s.theme@ + "'\n\n  # Network interfaces for NET stats. Leave empty '' to sum ALL interfaces.\n  ETH: '"@ + s.eth@ + "'\n  WLO: '"@ + s.wlo@ + "'\n\n  # Address used for ping/latency checks\n  PING: '"@ + s.ping@ + "'\n\n  # Weather location and units (metric/imperial)\n  WEATHER_LATITUDE: "@ + latitude + "\n  WEATHER_LONGITUDE: "@ + longitude + "\n  WEATHER_UNITS: '"@ + s.weather_units@ + "'\n\ndisplay:\n  # Display brightness percentage (0-100)\n  BRIGHTNESS: "@ + decimal(s.brightness as nat) + "\n\n  # Reverse display orientation: true/false\n  DISPLAY_REVERSE: "@ + bool_text(s.display_reverse) + "\n\n  # Reset display on startup: true/false (can change the COM port on some displays)\n  RESET_ON_STARTUP: "@ + bool_text(s.reset_on_startup) + "\n\n  # Shows the debug console window (hidden by default). Errors are\n  # always shown regardless of this setting.\n  SHOW_CONSOLE: "@ + bool_text(s.show_console) + "\n\nstartup:\n  # Run the monitor as admin on Windows startup via Task Scheduler\n  RUN_ON_STARTUP: "@ + bool_text(s.run_on_startup), "\n  DELAY: "@, "  DELAY: "@, decimal(s.startup_delay as nat), "\n\nlhm:\n  # Path to LibreHardwareMonitor folder (leave empty for default)\n  LHM_PATH: '"@, "\n"@);
}

proof fn lemma_line_lhm_path(s: ConfigSettings, latitude: Seq<char>, longitude: Seq<char>)
    ensures
        contains(config_text_spec(s, latitude, longitude), "  LHM_PATH: '"@ + s.lhm_path@ + "'\n"@),
{
    let t = config_text_spec(s, latitude, longitude);
    reveal_strlit("\n\nlhm:\n  # Path to LibreHardwareMonitor folder (leave empty for default)\n  LHM_PATH: '");
    reveal_strlit("'\n");
    reveal_strlit("  LHM_PATH: '");
    reveal_strlit("'\n");
    let m = "---\nconfig:\n  # Set your COM port e.g. COM3 for Windows, /dev/ttyACM0 for Linux...\n  # Use AUTO for COM port auto-discovery\n  COM_PORT: '"@ + s.com_port@ + "'\n\n  # Theme to use (folder name under res/themes)\n  THEME: '"@ + s.theme@ + "'\n\n  # Network interfaces for NET stats. Leave empty '' to sum ALL interfaces.\n  ETH: '"@ + s.eth@ + "'\n  WLO: '"@ + s.wlo@ + "'\n\n  # Address used for ping/latency checks\n  PING: '"@ + s.ping@ + "'\n\n  # Weather location and units (metric/imperial)\n  WEATHER_LATITUDE: "@ + latitude + "\n  WEATHER_LONGITUDE: "@ + longitude + "\n  WEATHER_UNITS: '"@ + s.weather_units@ + "'\n\ndisplay:\n  # Display brightness percentage (0-100)\n  BRIGHTNESS: "@ + decimal(s.brightness as nat) + "\n\n  # Reverse display orientation: true/false\n  DISPLAY_REVERSE: "@ + bool_text(s.display_reverse) + "\n\n  # Reset display on startup: true/false (can change the COM port on some displays)\n  RESET_ON_STARTUP: "@ + bool_text(s.reset_on_startup) + "\n\n  # Shows the debug console window (hidden by default). Errors are\n  # always shown regardless of this setting.\n  SHOW_CONSOLE: "@ + bool_text(s.show_console) + "\n\nstartup:\n  # Run the monitor as admin on Windows startup via Task Scheduler\n  RUN_ON_STARTUP: "@ + bool_text(s.run_on_startup) + "\n  DELAY: "@ + decimal(s.startup_delay as nat) + "\n\nlhm:\n  # Path to LibreHardwareMonitor folder (leave empty for default)\n  LHM_PATH: '"@ + s.lhm_path@ + "'\n"@;
    assert(t.subrange(0, m.len() as int) =~= m);
    assert("\n\nlhm:\n  # Path to LibreHardwareMonitor folder (leave empty for default)\n  LHM_PATH: '"@.subrange("\n\nlhm:\n  # Path to LibreHardwareMonitor folder (leave empty for default)\n  LHM_PATH: '"@.len() - "  LHM_PATH: '"@.len(), "\n\nlhm:\n  # Path to LibreHardwareMonitor folder (leave empty for default)\n  LHM_PATH: '"@.len() as int) =~= "  LHM_PATH: '"@);
    assert("'\n"@.subrange(0, "'\n"@.len() as int) =~= "'\n"@);
    lemma_line_in(t, m, "---\nconfig:\n  # Set your COM port e.g. COM3 for Windows, /dev/ttyACM0 for Linux...\n  # Use AUTO for COM port auto-discovery\n  COM_PORT: '"@ + s.com_port@ + "'\n\n  # Theme to use (folder name under res/themes)\n  THEME: '"@ + s.theme@ + "'\n\n  # Network interfaces for NET stats. Leave empty '' to sum ALL interfaces.\n  ETH: '"@ + s.eth@ + "'\n  WLO: '"@ + s.wlo@ + "'\n\n  # Address used for ping/latency checks\n  PING: '"@ + s.ping@ + "'\n\n  # Weather location and units (metric/imperial)\n  WEATHER_LATITUDE: "@ + latitude + "\n  WEATHER_LONGITUDE: "@ + longitude + "\n  WEATHER_UNITS: '"@ + s.weather_units@ + "'\n\ndisplay:\n  # Display brightness percentage (0-100)\n  BRIGHTNESS: "@ + decimal(s.brightness as nat) + "\n\n  # Reverse display orientation: true/false\n  DISPLAY_REVERSE: "@ + bool_text(s.display_reverse) + "\n\n  # Reset display on startup: true/false (can change the COM port on some displays)\n  RESET_ON_STARTUP: "@ + bool_text(s.reset_on_startup) + "\n\n  # Shows the debug console window (hidden by default). Errors are\n  # always shown regardless of this setting.\n  SHOW_CONSOLE: "@ + bool_text(s.show_console) + "\n\nstartup:\n  # Run the monitor as admin on Windows startup via Task Scheduler\n  RUN_ON_STARTUP: "@ + bool_text(s.run_on_startup) + "\n  DELAY: "@ + decimal(s.startup_delay as nat), "\n\nlhm:\n  # Path to LibreHardwareMonitor folder (leave empty for default)\n  LHM_PATH: '"@, "  LHM_PATH: '"@, s.lhm_path@, "'\n"@, "'\n"@);
}

/// Reading the settings file: each setting is taken from its own key of its
/// own section (`config`, `display`, `startup` or `lhm`) when that key holds
/// a value of the right kind (text, flag or whole number), and is the default
/// otherwise: `AUTO`, `NexusMeter`, empty interfaces, `8.8.8.8`, `metric`,
/// brightness 20 (a larger number counting as 100), flags off, a 30-second
/// start-up delay (its low 32 bits kept) and no LibreHardwareMonitor folder.
pub proof fn settings_read_from_their_keys(y: YamlValue, s: ConfigSettings)
    requires
        settings_match(y, s),
    ensures
        s.com_port@ == match node_at_spec(y, seq!["config"@, "COM_PORT"@]) {
            Some(n) => match untag(n) {
                YamlValue::String(v) => v@,
                _ => "AUTO"@,
            },
            None => "AUTO"@,
        },
        s.theme@ == match node_at_spec(y, seq!["config"@, "THEME"@]) {
            Some(n) => match untag(n) {
                YamlValue::String(v) => v@,
                _ => "NexusMeter"@,
            },
            None => "NexusMeter"@,
        },
        s.eth@ == match node_at_spec(y, seq!["config"@, "ETH"@]) {
            Some(n) => match untag(n) {
                YamlValue::String(v) => v@,
                _ => Seq::<char>::empty(),
            },
            None => Seq::<char>::empty(),
        },
        s.wlo@ == match node_at_spec(y, seq!["config"@, "WLO"@]) {
            Some(n) => match untag(n) {
                YamlValue::String(v) => v@,
                _ => Seq::<char>::empty(),
            },
            None => Seq::<char>::empty(),
        },
        s.ping@ == match node_at_spec(y, seq!["config"@, "PING"@]) {
            Some(n) => match untag(n) {
                YamlValue::String(v) => v@,
                _ => "8.8.8.8"@,
            },
            None => "8.8.8.8"@,
        },
        s.weather_units@ == match node_at_spec(y, seq!["config"@, "WEATHER_UNITS"@]) {
            Some(n) => match untag(n) {
                YamlValue::String(v) => v@,
                _ => "metric"@,
            },
            None => "metric"@,
        },
        s.lhm_path@ == match node_at_spec(y, seq!["lhm"@, "LHM_PATH"@]) {
            Some(n) => match untag(n) {
                YamlValue::String(v) => v@,
                _ => Seq::<char>::empty(),
            },
            None => Seq::<char>::empty(),
        },
        s.display_reverse == match node_at_spec(y, seq!["display"@, "DISPLAY_REVERSE"@]) {
            Some(n) => match untag(n) {
                YamlValue::Bool(b) => b,
                _ => false,
            },
            None => false,
        },
        s.reset_on_startup == match node_at_spec(y, seq!["display"@, "RESET_ON_STARTUP"@]) {
            Some(n) => match untag(n) {
                YamlValue::Bool(b) => b,
                _ => false,
            },
            None => false,
        },
        s.show_console == match node_at_spec(y, seq!["display"@, "SHOW_CONSOLE"@]) {
            Some(n) => match untag(n) {
                YamlValue::Bool(b) => b,
                _ => false,
            },
            None => false,
        },
        s.run_on_startup == match node_at_spec(y, seq!["startup"@, "RUN_ON_STARTUP"@]) {
            Some(n) => match untag(n) {
                YamlValue::Bool(b) => b,
                _ => false,
            },
            None => false,
        },
        s.brightness as int == match node_at_spec(y, seq!["display"@, "BRIGHTNESS"@]) {
            Some(n) => match untag(n) {
                YamlValue::Number(YamlNumber::PosInt(v)) => if v <= 100 { v as int } else { 100 },
                _ => 20,
            },
            None => 20,
        },
        s.startup_delay as int == match node_at_spec(y, seq!["startup"@, "DELAY"@]) {
            Some(n) => match untag(n) {
                YamlValue::Number(YamlNumber::PosInt(v)) => v as int % 0x1_0000_0000,
                _ => 30,
            },
            None => 30,
        },
{
    let v = u64_setting(y, seq!["startup"@, "DELAY"@]);
    if let Some(n) = v {
        assert(n as u32 == n % 0x1_0000_0000) by (bit_vector);
    }
}

/// Writes the settings file's text.
#[verifier::rlimit(40)]
pub fn config_text(s: &ConfigSettings, latitude: &str, longitude: &str) -> (t: String)
    ensures
        t@ == config_text_spec(*s, latitude@, longitude@),
{
    let mut out = chars_of("---\nconfig:\n  # Set your COM port e.g. COM3 for Windows, /dev/ttyACM0 for Linux...\n  # Use AUTO for COM port auto-discovery\n  COM_PORT: '");
    append_str(&mut out, s.com_port.as_str());
    append_str(&mut out, "'\n\n  # Theme to use (folder name under res/themes)\n  THEME: '");
    append_str(&mut out, s.theme.as_str());
    append_str(&mut out, "'\n\n  # Network interfaces for NET stats. Leave empty '' to sum ALL interfaces.\n  ETH: '");
    append_str(&mut out, s.eth.as_str());
    append_str(&mut out, "'\n  WLO: '");
    append_str(&mut out, s.wlo.as_str());
    append_str(&mut out, "'\n\n  # Address used for ping/latency checks\n  PING: '");
    append_str(&mut out, s.ping.as_str());
    append_str(&mut out, "'\n\n  # Weather location and units (metric/imperial)\n  WEATHER_LATITUDE: ");
    append_str(&mut out, latitude);
    append_str(&mut out, "\n  WEATHER_LONGITUDE: ");
    append_str(&mut out, longitude);
    append_str(&mut out, "\n  WEATHER_UNITS: '");
    append_str(&mut out, s.weather_units.as_str());
    append_str(&mut out, "'\n\ndisplay:\n  # Display brightness percentage (0-100)\n  BRIGHTNESS: ");
    append_chars(&mut out, &decimal_chars(s.brightness as u64));
    append_str(&mut out, "\n\n  # Reverse display orientation: true/false\n  DISPLAY_REVERSE: ");
    append_str(&mut out, bool_str(s.display_reverse));
    append_str(&mut out, "\n\n  # Reset display on startup: true/false (can change the COM port on some displays)\n  RESET_ON_STARTUP: ");
    append_str(&mut out, bool_str(s.reset_on_startup));
    append_str(&mut out, "\n\n  # Shows the debug console window (hidden by default). Errors are\n  # always shown regardless of this setting.\n  SHOW_CONSOLE: ");
    append_str(&mut out, bool_str(s.show_console));
    append_str(&mut out, "\n\nstartup:\n  # Run the monitor as admin on Windows startup via Task Scheduler\n  RUN_ON_STARTUP: ");
    append_str(&mut out, bool_str(s.run_on_startup));
    append_str(&mut out, "\n  DELAY: ");
    append_chars(&mut out, &decimal_chars(s.startup_delay as u64));
    append_str(&mut out, "\n\nlhm:\n  # Path to LibreHardwareMonitor folder (leave empty for default)\n  LHM_PATH: '");
    append_str(&mut out, s.lhm_path.as_str());
    append_str(&mut out, "'\n");
    string_from_chars(&out)
}

/// The name of the start-up task.
pub fn task_name() -> (s: &'static str)
    ensures
        s@ == "MiniSystemMonitor"@,
{
    "MiniSystemMonitor"
}

/// The task definition that runs the monitor at log-on, after `delay`, as user
/// `sid`, from folder `wd`.
pub open spec fn task_xml_spec(delay: Seq<char>, sid: Seq<char>, cmd: Seq<char>, wd: Seq<char>) -> Seq<char> {
    "<?xml version=\"1.0\" encoding=\"UTF-16\"?>\n<Task version=\"1.2\" xmlns=\"http://schemas.microsoft.com/windows/2004/02/mit/task\">\n  <RegistrationInfo>\n    <URI>\\MiniSystemMonitor</URI>\n  </RegistrationInfo>\n  <Triggers>\n    <LogonTrigger>\n      <Enabled>true</Enabled>\n      <Delay>"@
    + delay
    + "</Delay>\n    </LogonTrigger>\n  </Triggers>\n  <Principals>\n    <Principal id=\"Author\">\n      <UserId>"@
    + sid
    + "</UserId>\n      <LogonType>InteractiveToken</LogonType>\n      <RunLevel>HighestAvailable</RunLevel>\n    </Principal>\n  </Principals>\n  <Settings>\n    <MultipleInstancesPolicy>IgnoreNew</MultipleInstancesPolicy>\n    <DisallowStartIfOnBatteries>false</DisallowStartIfOnBatteries>\n    <StopIfGoingOnBatteries>false</StopIfGoingOnBatteries>\n    <AllowHardTerminate>false</AllowHardTerminate>\n    <StartWhenAvailable>true</StartWhenAvailable>\n    <RunOnlyIfNetworkAvailable>false</RunOnlyIfNetworkAvailable>\n    <IdleSettings>\n      <StopOnIdleEnd>false</StopOnIdleEnd>\n      <RestartOnIdle>false</RestartOnIdle>\n    </IdleSettings>\n    <AllowStartOnDemand>true</AllowStartOnDemand>\n    <Enabled>true</Enabled>\n    <Hidden>false</Hidden>\n    <RunOnlyIfIdle>false</RunOnlyIfIdle>\n    <WakeToRun>false</WakeToRun>\n    <ExecutionTimeLimit>PT0S</ExecutionTimeLimit>\n    <Priority>7</Priority>\n  </Settings>\n  <Actions Context=\"Author\">\n    <Exec>\n      <Command>"@
    + cmd
    + "</Command>\n      <WorkingDirectory>"@
    + wd
    + "</WorkingDirectory>\n    </Exec>\n  </Actions>\n</Task>"@
}

/// The start-up task carries its four values each inside its own element:
/// the delay in `<Delay>`, the user in `<UserId>`, the program in `<Command>`
/// and its folder in `<WorkingDirectory>`.
pub proof fn task_carries_its_values(delay: Seq<char>, sid: Seq<char>, cmd: Seq<char>, wd: Seq<char>)
    ensures
        contains(task_xml_spec(delay, sid, cmd, wd), "<Delay>"@ + delay + "</Delay>"@),
        contains(task_xml_spec(delay, sid, cmd, wd), "<UserId>"@ + sid + "</UserId>"@),
        contains(task_xml_spec(delay, sid, cmd, wd), "<Command>"@ + cmd + "</Command>"@),
        contains(task_xml_spec(delay, sid, cmd, wd), "<WorkingDirectory>"@ + wd + "</WorkingDirectory>"@),
{
    lemma_task_element_delay(delay, sid, cmd, wd);
    lemma_task_element_sid(delay, sid, cmd, wd);
    lemma_task_element_cmd(delay, sid, cmd, wd);
    lemma_task_element_wd(delay, sid, cmd, wd);
}

proof fn lemma_task_element_delay(delay: Seq<char>, sid: Seq<char>, cmd: Seq<char>, wd: Seq<char>)
    ensures
        contains(task_xml_spec(delay, sid, cmd, wd), "<Delay>"@ + delay + "</Delay>"@),
{
    let t = task_xml_spec(delay, sid, cmd, wd);
    reveal_strlit("<?xml version=\"1.0\" encoding=\"UTF-16\"?>\n<Task version=\"1.2\" xmlns=\"http://schemas.microsoft.com/windows/2004/02/mit/task\">\n  <RegistrationInfo>\n    <URI>\\MiniSystemMonitor</URI>\n  </RegistrationInfo>\n  <Triggers>\n    <LogonTrigger>\n      <Enabled>true</Enabled>\n      <Delay>");
    reveal_strlit("</Delay>\n    </LogonTrigger>\n  </Triggers>\n  <Principals>\n    <Principal id=\"Author\">\n      <UserId>");
    reveal_strlit("<Delay>");
    reveal_strlit("</Delay>");
    let m = "<?xml version=\"1.0\" encoding=\"UTF-16\"?>\n<Task version=\"1.2\" xmlns=\"http://schemas.microsoft.com/windows/2004/02/mit/task\">\n  <RegistrationInfo>\n    <URI>\\MiniSystemMonitor</URI>\n  </RegistrationInfo>\n  <Triggers>\n    <LogonTrigger>\n      <Enabled>true</Enabled>\n      <Delay>"@ + delay + "</Delay>\n    </LogonTrigger>\n  </Triggers>\n  <Principals>\n    <Principal id=\"Author\">\n      <UserId>"@;
    assert(t.subrange(0, m.len() as int) =~= m);
    assert("<?xml version=\"1.0\" encoding=\"UTF-16\"?>\n<Task version=\"1.2\" xmlns=\"http://schemas.microsoft.com/windows/2004/02/mit/task\">\n  <RegistrationInfo>\n    <URI>\\MiniSystemMonitor</URI>\n  </RegistrationInfo>\n  <Triggers>\n    <LogonTrigger>\n      <Enabled>true</Enabled>\n      <Delay>"@.subrange("<?xml version=\"1.0\" encoding=\"UTF-16\"?>\n<Task version=\"1.2\" xmlns=\"http://schemas.microsoft.com/windows/2004/02/mit/task\">\n  <RegistrationInfo>\n    <URI>\\MiniSystemMonitor</URI>\n  </RegistrationInfo>\n  <Triggers>\n    <LogonTrigger>\n      <Enabled>true</Enabled>\n      <Delay>"@.len() - "<Delay>"@.len(), "<?xml version=\"1.0\" encoding=\"UTF-16\"?>\n<Task version=\"1.2\" xmlns=\"http://schemas.microsoft.com/windows/2004/02/mit/task\">\n  <RegistrationInfo>\n    <URI>\\MiniSystemMonitor</URI>\n  </RegistrationInfo>\n  <Triggers>\n    <LogonTrigger>\n      <Enabled>true</Enabled>\n      <Delay>"@.len() as int) =~= "<Delay>"@);
    assert("</Delay>\n    </LogonTrigger>\n  </Triggers>\n  <Principals>\n    <Principal id=\"Author\">\n      <UserId>"@.subrange(0, "</Delay>"@.len() as int) =~= "</Delay>"@);
    lemma_line_in(t, m, Seq::<char>::empty(), "<?xml version=\"1.0\" encoding=\"UTF-16\"?>\n<Task version=\"1.2\" xmlns=\"http://schemas.microsoft.com/windows/2004/02/mit/task\">\n  <RegistrationInfo>\n    <URI>\\MiniSystemMonitor</URI>\n  </RegistrationInfo>\n  <Triggers>\n    <LogonTrigger>\n      <Enabled>true</Enabled>\n      <Delay>"@, "<Delay>"@, delay, "</Delay>\n    </LogonTrigger>\n  </Triggers>\n  <Principals>\n    <Principal id=\"Author\">\n      <UserId>"@, "</Delay>"@);
}

proof fn lemma_task_element_sid(delay: Seq<char>, sid: Seq<char>, cmd: Seq<char>, wd: Seq<char>)
    ensures
        contains(task_xml_spec(delay, sid, cmd, wd), "<UserId>"@ + sid + "</UserId>"@),
{
    let t = task_xml_spec(delay, sid, cmd, wd);
    reveal_strlit("</Delay>\n    </LogonTrigger>\n  </Triggers>\n  <Principals>\n    <Principal id=\"Author\">\n      <UserId>");
    reveal_strlit("</UserId>\n      <LogonType>InteractiveToken</LogonType>\n      <RunLevel>HighestAvailable</RunLevel>\n    </Principal>\n  </Principals>\n  <Settings>\n    <MultipleInstancesPolicy>IgnoreNew</MultipleInstancesPolicy>\n    <DisallowStartIfOnBatteries>false</DisallowStartIfOnBatteries>\n    <StopIfGoingOnBatteries>false</StopIfGoingOnBatteries>\n    <AllowHardTerminate>false</AllowHardTerminate>\n    <StartWhenAvailable>true</StartWhenAvailable>\n    <RunOnlyIfNetworkAvailable>false</RunOnlyIfNetworkAvailable>\n    <IdleSettings>\n      <StopOnIdleEnd>false</StopOnIdleEnd>\n      <RestartOnIdle>false</RestartOnIdle>\n    </IdleSettings>\n    <AllowStartOnDemand>true</AllowStartOnDemand>\n    <Enabled>true</Enabled>\n    <Hidden>false</Hidden>\n    <RunOnlyIfIdle>false</RunOnlyIfIdle>\n    <WakeToRun>false</WakeToRun>\n    <ExecutionTimeLimit>PT0S</ExecutionTimeLimit>\n    <Priority>7</Priority>\n  </Settings>\n  <Actions Context=\"Author\">\n    <Exec>\n      <Command>");
    reveal_strlit("<UserId>");
    reveal_strlit("</UserId>");
    let m = "<?xml version=\"1.0\" encoding=\"UTF-16\"?>\n<Task version=\"1.2\" xmlns=\"http://schemas.microsoft.com/windows/2004/02/mit/task\">\n  <RegistrationInfo>\n    <URI>\\MiniSystemMonitor</URI>\n  </RegistrationInfo>\n  <Triggers>\n    <LogonTrigger>\n      <Enabled>true</Enabled>\n      <Delay>"@ + delay + "</Delay>\n    </LogonTrigger>\n  </Triggers>\n  <Principals>\n    <Principal id=\"Author\">\n      <UserId>"@ + sid + "</UserId>\n      <LogonType>InteractiveToken</LogonType>\n      <RunLevel>HighestAvailable</RunLevel>\n    </Principal>\n  </Principals>\n  <Settings>\n    <MultipleInstancesPolicy>IgnoreNew</MultipleInstancesPolicy>\n    <DisallowStartIfOnBatteries>false</DisallowStartIfOnBatteries>\n    <StopIfGoingOnBatteries>false</StopIfGoingOnBatteries>\n    <AllowHardTerminate>false</AllowHardTerminate>\n    <StartWhenAvailable>true</StartWhenAvailable>\n    <RunOnlyIfNetworkAvailable>false</RunOnlyIfNetworkAvailable>\n    <IdleSettings>\n      <StopOnIdleEnd>false</StopOnIdleEnd>\n      <RestartOnIdle>false</RestartOnIdle>\n    </IdleSettings>\n    <AllowStartOnDemand>true</AllowStartOnDemand>\n    <Enabled>true</Enabled>\n    <Hidden>false</Hidden>\n    <RunOnlyIfIdle>false</RunOnlyIfIdle>\n    <WakeToRun>false</WakeToRun>\n    <ExecutionTimeLimit>PT0S</ExecutionTimeLimit>\n    <Priority>7</Priority>\n  </Settings>\n  <Actions Context=\"Author\">\n    <Exec>\n      <Command>"@;
    assert(t.subrange(0, m.len() as int) =~= m);
    assert("</Delay>\n    </LogonTrigger>\n  </Triggers>\n  <Principals>\n    <Principal id=\"Author\">\n      <UserId>"@.subrange("</Delay>\n    </LogonTrigger>\n  </Triggers>\n  <Principals>\n    <Principal id=\"Author\">\n      <UserId>"@.len() - "<UserId>"@.len(), "</Delay>\n    </LogonTrigger>\n  </Triggers>\n  <Principals>\n    <Principal id=\"Author\">\n      <UserId>"@.len() as int) =~= "<UserId>"@);
    assert("</UserId>\n      <LogonType>InteractiveToken</LogonType>\n      <RunLevel>HighestAvailable</RunLevel>\n    </Principal>\n  </Principals>\n  <Settings>\n    <MultipleInstancesPolicy>IgnoreNew</MultipleInstancesPolicy>\n    <DisallowStartIfOnBatteries>false</DisallowStartIfOnBatteries>\n    <StopIfGoingOnBatteries>false</StopIfGoingOnBatteries>\n    <AllowHardTerminate>false</AllowHardTerminate>\n    <StartWhenAvailable>true</StartWhenAvailable>\n    <RunOnlyIfNetworkAvailable>false</RunOnlyIfNetworkAvailable>\n    <IdleSettings>\n      <StopOnIdleEnd>false</StopOnIdleEnd>\n      <RestartOnIdle>false</RestartOnIdle>\n    </IdleSettings>\n    <AllowStartOnDemand>true</AllowStartOnDemand>\n    <Enabled>true</Enabled>\n    <Hidden>false</Hidden>\n    <RunOnlyIfIdle>false</RunOnlyIfIdle>\n    <WakeToRun>false</WakeToRun>\n    <ExecutionTimeLimit>PT0S</ExecutionTimeLimit>\n    <Priority>7</Priority>\n  </Settings>\n  <Actions Context=\"Author\">\n    <Exec>\n      <Command>"@.subrange(0, "</UserId>"@.len() as int) =~= "</UserId>"@);
    lemma_line_in(t, m, "<?xml version=\"1.0\" encoding=\"UTF-16\"?>\n<Task version=\"1.2\" xmlns=\"http://schemas.microsoft.com/windows/2004/02/mit/task\">\n  <RegistrationInfo>\n    <URI>\\MiniSystemMonitor</URI>\n  </RegistrationInfo>\n  <Triggers>\n    <LogonTrigger>\n      <Enabled>true</Enabled>\n      <Delay>"@ + delay, "</Delay>\n    </LogonTrigger>\n  </Triggers>\n  <Principals>\n    <Principal id=\"Author\">\n      <UserId>"@, "<UserId>"@, sid, "</UserId>\n      <LogonType>InteractiveToken</LogonType>\n      <RunLevel>HighestAvailable</RunLevel>\n    </Principal>\n  </Principals>\n  <Settings>\n    <MultipleInstancesPolicy>IgnoreNew</MultipleInstancesPolicy>\n    <DisallowStartIfOnBatteries>false</DisallowStartIfOnBatteries>\n    <StopIfGoingOnBatteries>false</StopIfGoingOnBatteries>\n    <AllowHardTerminate>false</AllowHardTerminate>\n    <StartWhenAvailable>true</StartWhenAvailable>\n    <RunOnlyIfNetworkAvailable>false</RunOnlyIfNetworkAvailable>\n    <IdleSettings>\n      <StopOnIdleEnd>false</StopOnIdleEnd>\n      <RestartOnIdle>false</RestartOnIdle>\n    </IdleSettings>\n    <AllowStartOnDemand>true</AllowStartOnDemand>\n    <Enabled>true</Enabled>\n    <Hidden>false</Hidden>\n    <RunOnlyIfIdle>false</RunOnlyIfIdle>\n    <WakeToRun>false</WakeToRun>\n    <ExecutionTimeLimit>PT0S</ExecutionTimeLimit>\n    <Priority>7</Priority>\n  </Settings>\n  <Actions Context=\"Author\">\n    <Exec>\n      <Command>"@, "</UserId>"@);
}

proof fn lemma_task_element_cmd(delay: Seq<char>, sid: Seq<char>, cmd: Seq<char>, wd: Seq<char>)
    ensures
        contains(task_xml_spec(delay, sid, cmd, wd), "<Command>"@ + cmd + "</Command>"@),
{
    let t = task_xml_spec(delay, sid, cmd, wd);
    reveal_strlit("</UserId>\n      <LogonType>InteractiveToken</LogonType>\n      <RunLevel>HighestAvailable</RunLevel>\n    </Principal>\n  </Principals>\n  <Settings>\n    <MultipleInstancesPolicy>IgnoreNew</MultipleInstancesPolicy>\n    <DisallowStartIfOnBatteries>false</DisallowStartIfOnBatteries>\n    <StopIfGoingOnBatteries>false</StopIfGoingOnBatteries>\n    <AllowHardTerminate>false</AllowHardTerminate>\n    <StartWhenAvailable>true</StartWhenAvailable>\n    <RunOnlyIfNetworkAvailable>false</RunOnlyIfNetworkAvailable>\n    <IdleSettings>\n      <StopOnIdleEnd>false</StopOnIdleEnd>\n      <RestartOnIdle>false</RestartOnIdle>\n    </IdleSettings>\n    <AllowStartOnDemand>true</AllowStartOnDemand>\n    <Enabled>true</Enabled>\n    <Hidden>false</Hidden>\n    <RunOnlyIfIdle>false</RunOnlyIfIdle>\n    <WakeToRun>false</WakeToRun>\n    <ExecutionTimeLimit>PT0S</ExecutionTimeLimit>\n    <Priority>7</Priority>\n  </Settings>\n  <Actions Context=\"Author\">\n    <Exec>\n      <Command>");
    reveal_strlit("</Command>\n      <WorkingDirectory>");
    reveal_strlit("<Command>");
    reveal_strlit("</Command>");
    let m = "<?xml version=\"1.0\" encoding=\"UTF-16\"?>\n<Task version=\"1.2\" xmlns=\"http://schemas.microsoft.com/windows/2004/02/mit/task\">\n  <RegistrationInfo>\n    <URI>\\MiniSystemMonitor</URI>\n  </RegistrationInfo>\n  <Triggers>\n    <LogonTrigger>\n      <Enabled>true</Enabled>\n      <Delay>"@ + delay + "</Delay>\n    </LogonTrigger>\n  </Triggers>\n  <Principals>\n    <Principal id=\"Author\">\n      <UserId>"@ + sid + "</UserId>\n      <LogonType>InteractiveToken</LogonType>\n      <RunLevel>HighestAvailable</RunLevel>\n    </Principal>\n  </Principals>\n  <Settings>\n    <MultipleInstancesPolicy>IgnoreNew</MultipleInstancesPolicy>\n    <DisallowStartIfOnBatteries>false</DisallowStartIfOnBatteries>\n    <StopIfGoingOnBatteries>false</StopIfGoingOnBatteries>\n    <AllowHardTerminate>false</AllowHardTerminate>\n    <StartWhenAvailable>true</StartWhenAvailable>\n    <RunOnlyIfNetworkAvailable>false</RunOnlyIfNetworkAvailable>\n    <IdleSettings>\n      <StopOnIdleEnd>false</StopOnIdleEnd>\n      <RestartOnIdle>false</RestartOnIdle>\n    </IdleSettings>\n    <AllowStartOnDemand>true</AllowStartOnDemand>\n    <Enabled>true</Enabled>\n    <Hidden>false</Hidden>\n    <RunOnlyIfIdle>false</RunOnlyIfIdle>\n    <WakeToRun>false</WakeToRun>\n    <ExecutionTimeLimit>PT0S</ExecutionTimeLimit>\n    <Priority>7</Priority>\n  </Settings>\n  <Actions Context=\"Author\">\n    <Exec>\n      <Command>"@ + cmd + "</Command>\n      <WorkingDirectory>"@;
    assert(t.subrange(0, m.len() as int) =~= m);
    assert("</UserId>\n      <LogonType>InteractiveToken</LogonType>\n      <RunLevel>HighestAvailable</RunLevel>\n    </Principal>\n  </Principals>\n  <Settings>\n    <MultipleInstancesPolicy>IgnoreNew</MultipleInstancesPolicy>\n    <DisallowStartIfOnBatteries>false</DisallowStartIfOnBatteries>\n    <StopIfGoingOnBatteries>false</StopIfGoingOnBatteries>\n    <AllowHardTerminate>false</AllowHardTerminate>\n    <StartWhenAvailable>true</StartWhenAvailable>\n    <RunOnlyIfNetworkAvailable>false</RunOnlyIfNetworkAvailable>\n    <IdleSettings>\n      <StopOnIdleEnd>false</StopOnIdleEnd>\n      <RestartOnIdle>false</RestartOnIdle>\n    </IdleSettings>\n    <AllowStartOnDemand>true</AllowStartOnDemand>\n    <Enabled>true</Enabled>\n    <Hidden>false</Hidden>\n    <RunOnlyIfIdle>false</RunOnlyIfIdle>\n    <WakeToRun>false</WakeToRun>\n    <ExecutionTimeLimit>PT0S</ExecutionTimeLimit>\n    <Priority>7</Priority>\n  </Settings>\n  <Actions Context=\"Author\">\n    <Exec>\n      <Command>"@.subrange("</UserId>\n      <LogonType>InteractiveToken</LogonType>\n      <RunLevel>HighestAvailable</RunLevel>\n    </Principal>\n  </Principals>\n  <Settings>\n    <MultipleInstancesPolicy>IgnoreNew</MultipleInstancesPolicy>\n    <DisallowStartIfOnBatteries>false</DisallowStartIfOnBatteries>\n    <StopIfGoingOnBatteries>false</StopIfGoingOnBatteries>\n    <AllowHardTerminate>false</AllowHardTerminate>\n    <StartWhenAvailable>true</StartWhenAvailable>\n    <RunOnlyIfNetworkAvailable>false</RunOnlyIfNetworkAvailable>\n    <IdleSettings>\n      <StopOnIdleEnd>false</StopOnIdleEnd>\n      <RestartOnIdle>false</RestartOnIdle>\n    </IdleSettings>\n    <AllowStartOnDemand>true</AllowStartOnDemand>\n    <Enabled>true</Enabled>\n    <Hidden>false</Hidden>\n    <RunOnlyIfIdle>false</RunOnlyIfIdle>\n    <WakeToRun>false</WakeToRun>\n    <ExecutionTimeLimit>PT0S</ExecutionTimeLimit>\n    <Priority>7</Priority>\n  </Settings>\n  <Actions Context=\"Author\">\n    <Exec>\n      <Command>"@.len() - "<Command>"@.len(), "</UserId>\n      <LogonType>InteractiveToken</LogonType>\n      <RunLevel>HighestAvailable</RunLevel>\n    </Principal>\n  </Principals>\n  <Settings>\n    <MultipleInstancesPolicy>IgnoreNew</MultipleInstancesPolicy>\n    <DisallowStartIfOnBatteries>false</DisallowStartIfOnBatteries>\n    <StopIfGoingOnBatteries>false</StopIfGoingOnBatteries>\n    <AllowHardTerminate>false</AllowHardTerminate>\n    <StartWhenAvailable>true</StartWhenAvailable>\n    <RunOnlyIfNetworkAvailable>false</RunOnlyIfNetworkAvailable>\n    <IdleSettings>\n      <StopOnIdleEnd>false</StopOnIdleEnd>\n      <RestartOnIdle>false</RestartOnIdle>\n    </IdleSettings>\n    <AllowStartOnDemand>true</AllowStartOnDemand>\n    <Enabled>true</Enabled>\n    <Hidden>false</Hidden>\n    <RunOnlyIfIdle>false</RunOnlyIfIdle>\n    <WakeToRun>false</WakeToRun>\n    <ExecutionTimeLimit>PT0S</ExecutionTimeLimit>\n    <Priority>7</Priority>\n  </Settings>\n  <Actions Context=\"Author\">\n    <Exec>\n      <Command>"@.len() as int) =~= "<Command>"@);
    assert("</Command>\n      <WorkingDirectory>"@.subrange(0, "</Command>"@.len() as int) =~= "</Command>"@);
    lemma_line_in(t, m, "<?xml version=\"1.0\" encoding=\"UTF-16\"?>\n<Task version=\"1.2\" xmlns=\"http://schemas.microsoft.com/windows/2004/02/mit/task\">\n  <RegistrationInfo>\n    <URI>\\MiniSystemMonitor</URI>\n  </RegistrationInfo>\n  <Triggers>\n    <LogonTrigger>\n      <Enabled>true</Enabled>\n      <Delay>"@ + delay + "</Delay>\n    </LogonTrigger>\n  </Triggers>\n  <Principals>\n    <Principal id=\"Author\">\n      <UserId>"@ + sid, "</UserId>\n      <LogonType>InteractiveToken</LogonType>\n      <RunLevel>HighestAvailable</RunLevel>\n    </Principal>\n  </Principals>\n  <Settings>\n    <MultipleInstancesPolicy>IgnoreNew</MultipleInstancesPolicy>\n    <DisallowStartIfOnBatteries>false</DisallowStartIfOnBatteries>\n    <StopIfGoingOnBatteries>false</StopIfGoingOnBatteries>\n    <AllowHardTerminate>false</AllowHardTerminate>\n    <StartWhenAvailable>true</StartWhenAvailable>\n    <RunOnlyIfNetworkAvailable>false</RunOnlyIfNetworkAvailable>\n    <IdleSettings>\n      <StopOnIdleEnd>false</StopOnIdleEnd>\n      <RestartOnIdle>false</RestartOnIdle>\n    </IdleSettings>\n    <AllowStartOnDemand>true</AllowStartOnDemand>\n    <Enabled>true</Enabled>\n    <Hidden>false</Hidden>\n    <RunOnlyIfIdle>false</RunOnlyIfIdle>\n    <WakeToRun>false</WakeToRun>\n    <ExecutionTimeLimit>PT0S</ExecutionTimeLimit>\n    <Priority>7</Priority>\n  </Settings>\n  <Actions Context=\"Author\">\n    <Exec>\n      <Command>"@, "<Command>"@, cmd, "</Command>\n      <WorkingDirectory>"@, "</Command>"@);
}

proof fn lemma_task_element_wd(delay: Seq<char>, sid: Seq<char>, cmd: Seq<char>, wd: Seq<char>)
    ensures
        contains(task_xml_spec(delay, sid, cmd, wd), "<WorkingDirectory>"@ + wd + "</WorkingDirectory>"@),
{
    let t = task_xml_spec(delay, sid, cmd, wd);
    reveal_strlit("</Command>\n      <WorkingDirectory>");
    reveal_strlit("</WorkingDirectory>\n    </Exec>\n  </Actions>\n</Task>");
    reveal_strlit("<WorkingDirectory>");
    reveal_strlit("</WorkingDirectory>");
    let m = "<?xml version=\"1.0\" encoding=\"UTF-16\"?>\n<Task version=\"1.2\" xmlns=\"http://schemas.microsoft.com/windows/2004/02/mit/task\">\n  <RegistrationInfo>\n    <URI>\\MiniSystemMonitor</URI>\n  </RegistrationInfo>\n  <Triggers>\n    <LogonTrigger>\n      <Enabled>true</Enabled>\n      <Delay>"@ + delay + "</Delay>\n    </LogonTrigger>\n  </Triggers>\n  <Principals>\n    <Principal id=\"Author\">\n      <UserId>"@ + sid + "</UserId>\n      <LogonType>InteractiveToken</LogonType>\n      <RunLevel>HighestAvailable</RunLevel>\n    </Principal>\n  </Principals>\n  <Settings>\n    <MultipleInstancesPolicy>IgnoreNew</MultipleInstancesPolicy>\n    <DisallowStartIfOnBatteries>false</DisallowStartIfOnBatteries>\n    <StopIfGoingOnBatteries>false</StopIfGoingOnBatteries>\n    <AllowHardTerminate>false</AllowHardTerminate>\n    <StartWhenAvailable>true</StartWhenAvailable>\n    <RunOnlyIfNetworkAvailable>false</RunOnlyIfNetworkAvailable>\n    <IdleSettings>\n      <StopOnIdleEnd>false</StopOnIdleEnd>\n      <RestartOnIdle>false</RestartOnIdle>\n    </IdleSettings>\n    <AllowStartOnDemand>true</AllowStartOnDemand>\n    <Enabled>true</Enabled>\n    <Hidden>false</Hidden>\n    <RunOnlyIfIdle>false</RunOnlyIfIdle>\n    <WakeToRun>false</WakeToRun>\n    <ExecutionTimeLimit>PT0S</ExecutionTimeLimit>\n    <Priority>7</Priority>\n  </Settings>\n  <Actions Context=\"Author\">\n    <Exec>\n      <Command>"@ + cmd + "</Command>\n      <WorkingDirectory>"@ + wd + "</WorkingDirectory>\n    </Exec>\n  </Actions>\n</Task>"@;
    assert(t.subrange(0, m.len() as int) =~= m);
    assert("</Command>\n      <WorkingDirectory>"@.subrange("</Command>\n      <WorkingDirectory>"@.len() - "<WorkingDirectory>"@.len(), "</Command>\n      <WorkingDirectory>"@.len() as int) =~= "<WorkingDirectory>"@);
    assert("</WorkingDirectory>\n    </Exec>\n  </Actions>\n</Task>"@.subrange(0, "</WorkingDirectory>"@.len() as int) =~= "</WorkingDirectory>"@);
    lemma_line_in(t, m, "<?xml version=\"1.0\" encoding=\"UTF-16\"?>\n<Task version=\"1.2\" xmlns=\"http://schemas.microsoft.com/windows/2004/02/mit/task\">\n  <RegistrationInfo>\n    <URI>\\MiniSystemMonitor</URI>\n  </RegistrationInfo>\n  <Triggers>\n    <LogonTrigger>\n      <Enabled>true</Enabled>\n      <Delay>"@ + delay + "</Delay>\n    </LogonTrigger>\n  </Triggers>\n  <Principals>\n    <Principal id=\"Author\">\n      <UserId>"@ + sid + "</UserId>\n      <LogonType>InteractiveToken</LogonType>\n      <RunLevel>HighestAvailable</RunLevel>\n    </Principal>\n  </Principals>\n  <Settings>\n    <MultipleInstancesPolicy>IgnoreNew</MultipleInstancesPolicy>\n    <DisallowStartIfOnBatteries>false</DisallowStartIfOnBatteries>\n    <StopIfGoingOnBatteries>false</StopIfGoingOnBatteries>\n    <AllowHardTerminate>false</AllowHardTerminate>\n    <StartWhenAvailable>true</StartWhenAvailable>\n    <RunOnlyIfNetworkAvailable>false</RunOnlyIfNetworkAvailable>\n    <IdleSettings>\n      <StopOnIdleEnd>false</StopOnIdleEnd>\n      <RestartOnIdle>false</RestartOnIdle>\n    </IdleSettings>\n    <AllowStartOnDemand>true</AllowStartOnDemand>\n    <Enabled>true</Enabled>\n    <Hidden>false</Hidden>\n    <RunOnlyIfIdle>false</RunOnlyIfIdle>\n    <WakeToRun>false</WakeToRun>\n    <ExecutionTimeLimit>PT0S</ExecutionTimeLimit>\n    <Priority>7</Priority>\n  </Settings>\n  <Actions Context=\"Author\">\n    <Exec>\n      <Command>"@ + cmd, "</Command>\n      <WorkingDirectory>"@, "<WorkingDirectory>"@, wd, "</WorkingDirectory>\n    </Exec>\n  </Actions>\n</Task>"@, "</WorkingDirectory>"@);
}

/// Writes the start-up task's definition.
#[verifier::rlimit(40)]
pub fn task_xml(delay: &str, sid: &str, cmd: &str, wd: &str) -> (t: String)
    ensures
        t@ == task_xml_spec(delay@, sid@, cmd@, wd@),
{
    let mut out = chars_of("<?xml version=\"1.0\" encoding=\"UTF-16\"?>\n<Task version=\"1.2\" xmlns=\"http://schemas.microsoft.com/windows/2004/02/mit/task\">\n  <RegistrationInfo>\n    <URI>\\MiniSystemMonitor</URI>\n  </RegistrationInfo>\n  <Triggers>\n    <LogonTrigger>\n      <Enabled>true</Enabled>\n      <Delay>");
    append_str(&mut out, delay);
    append_str(&mut out, "</Delay>\n    </LogonTrigger>\n  </Triggers>\n  <Principals>\n    <Principal id=\"Author\">\n      <UserId>");
    append_str(&mut out, sid);
    append_str(&mut out, "</UserId>\n      <LogonType>InteractiveToken</LogonType>\n      <RunLevel>HighestAvailable</RunLevel>\n    </Principal>\n  </Principals>\n  <Settings>\n    <MultipleInstancesPolicy>IgnoreNew</MultipleInstancesPolicy>\n    <DisallowStartIfOnBatteries>false</DisallowStartIfOnBatteries>\n    <StopIfGoingOnBatteries>false</StopIfGoingOnBatteries>\n    <AllowHardTerminate>false</AllowHardTerminate>\n    <StartWhenAvailable>true</StartWhenAvailable>\n    <RunOnlyIfNetworkAvailable>false</RunOnlyIfNetworkAvailable>\n    <IdleSettings>\n      <StopOnIdleEnd>false</StopOnIdleEnd>\n      <RestartOnIdle>false</RestartOnIdle>\n    </IdleSettings>\n    <AllowStartOnDemand>true</AllowStartOnDemand>\n    <Enabled>true</Enabled>\n    <Hidden>false</Hidden>\n    <RunOnlyIfIdle>false</RunOnlyIfIdle>\n    <WakeToRun>false</WakeToRun>\n    <ExecutionTimeLimit>PT0S</ExecutionTimeLimit>\n    <Priority>7</Priority>\n  </Settings>\n  <Actions Context=\"Author\">\n    <Exec>\n      <Command>");
    append_str(&mut out, cmd);
    append_str(&mut out, "</Command>\n      <WorkingDirectory>");
    append_str(&mut out, wd);
    append_str(&mut out, "</WorkingDirectory>\n    </Exec>\n  </Actions>\n</Task>");
    string_from_chars(&out)
}

/// Bytes a query string carries as they are: ASCII letters, digits and `-_.~`.
pub open spec fn unreserved(b: u8) -> bool {
    ||| 65 <= b <= 90
    ||| 97 <= b <= 122
    ||| 48 <= b <= 57
    ||| b == 45
    ||| b == 95
    ||| b == 46
    ||| b == 126
}

/// The upper-case hexadecimal digit for `n < 16`.
pub open spec fn hex_upper(n: int) -> char {
    if n < 10 {
        (n + 48) as char
    } else {
        (n + 55) as char
    }
}

/// One byte in a query string: itself if unreserved, else `%` and two
/// upper-case hex digits.
pub open spec fn escaped_byte(b: u8) -> Seq<char> {
    if unreserved(b) {
        seq![b as char]
    } else {
        seq!['%', hex_upper(b as int / 16), hex_upper(b as int % 16)]
    }
}

/// Bytes escaped for a query string, one after the other.
pub open spec fn url_escaped(bytes: Seq<u8>) -> Seq<char>
    decreases bytes.len(),
{
    if bytes.len() == 0 {
        seq![]
    } else {
        escaped_byte(bytes[0]) + url_escaped(bytes.drop_first())
    }
}

/// The value of an upper-case hex digit, or -1.
pub open spec fn hex_value(c: char) -> int {
    if '0' <= c <= '9' {
        c as int - 48
    } else if 'A' <= c <= 'F' {
        c as int - 55
    } else {
        -1
    }
}

/// Reads an escaped query string back into bytes: `%` and two hex digits
/// give one byte, any other character its own code.
pub open spec fn url_unescaped(s: Seq<char>) -> Seq<u8>
    decreases s.len(),
{
    if s.len() == 0 {
        seq![]
    } else if s.len() >= 3 && s[0] == '%' && hex_value(s[1]) >= 0 && hex_value(s[2]) >= 0 {
        seq![(hex_value(s[1]) * 16 + hex_value(s[2])) as u8] + url_unescaped(s.skip(3))
    } else {
        seq![s[0] as u8] + url_unescaped(s.drop_first())
    }
}

proof fn lemma_unescape_byte(b: u8, rest: Seq<char>)
    ensures
        url_unescaped(escaped_byte(b) + rest) == seq![b] + url_unescaped(rest),
{
    let s = escaped_byte(b) + rest;
    if unreserved(b) {
        assert(s[0] == b as char);
        assert((b as char) as int == b as int);
        assert(s.drop_first() =~= rest);
    } else {
        let hi = b as int / 16;
        let lo = b as int % 16;
        assert(hex_value(hex_upper(hi)) == hi);
        assert(hex_value(hex_upper(lo)) == lo);
        assert(s[1] == hex_upper(hi) && s[2] == hex_upper(lo));
        assert(s.skip(3) =~= rest);
        assert(hi * 16 + lo == b as int);
    }
}

/// Escaping loses nothing: reading an escaped query string back gives back the
/// very bytes that were escaped.
pub proof fn url_escape_round_trip(bytes: Seq<u8>)
    ensures
        url_unescaped(url_escaped(bytes)) == bytes,
    decreases bytes.len(),
{
    if bytes.len() > 0 {
        url_escape_round_trip(bytes.drop_first());
        lemma_unescape_byte(bytes[0], url_escaped(bytes.drop_first()));
        assert(bytes =~= seq![bytes[0]] + bytes.drop_first());
    }
}

/// Every character of an escaped query string is unreserved, `%` or an
/// upper-case hex digit.
pub proof fn url_escape_is_query_safe(bytes: Seq<u8>)
    ensures
        forall|i: int|
            0 <= i < url_escaped(bytes).len() ==> {
                let c = #[trigger] url_escaped(bytes)[i];
                (c as int) < 128 && unreserved(c as u8) || c == '%' || hex_value(c) >= 0
            },
    decreases bytes.len(),
{
    if bytes.len() > 0 {
        url_escape_is_query_safe(bytes.drop_first());
        let head = escaped_byte(bytes[0]);
        let rest = url_escaped(bytes.drop_first());
        assert forall|i: int| 0 <= i < (head + rest).len() implies {
            let c = #[trigger] (head + rest)[i];
            (c as int) < 128 && unreserved(c as u8) || c == '%' || hex_value(c) >= 0
        } by {
            if i < head.len() {
                if unreserved(bytes[0]) {
                    assert(((bytes[0] as char) as int) == bytes[0] as int);
                } else {
                    assert(hex_value(hex_upper(bytes[0] as int / 16)) >= 0);
                    assert(hex_value(hex_upper(bytes[0] as int % 16)) >= 0);
                }
            } else {
                assert((head + rest)[i] == rest[i - head.len()]);
            }
        }
    }
}

fn hex_digit(n: u8) -> (c: char)
    requires
        n < 16,
    ensures
        c == hex_upper(n as int),
{
    if n < 10 {
        (n + 48) as char
    } else {
        (n + 55) as char
    }
}

/// Escapes a query-string parameter: every byte of its UTF-8 form that is not
/// an ASCII letter, digit or one of `-_.~` becomes `%XX`.
pub fn urlencoding_simple(s: &str) -> (r: String)
    ensures
        r@ == url_escaped(vstd::utf8::encode_utf8(s@)),
{
    let bytes = s.as_bytes();
    let ghost bv = bytes@;
    let mut out: Vec<char> = Vec::new();
    let mut i: usize = 0;
    assert(bv.skip(0) =~= bv);
    while i < bytes.len()
        invariant
            i <= bv.len(),
            bv == bytes@,
            out@ + url_escaped(bv.skip(i as int)) == url_escaped(bv),
        decreases bv.len() - i,
    {
        let b = bytes[i];
        let ghost before = out@;
        assert(bv.skip(i as int)[0] == b);
        assert(bv.skip(i as int).drop_first() =~= bv.skip(i + 1));
        if (65 <= b && b <= 90) || (97 <= b && b <= 122) || (48 <= b && b <= 57) || b == 45 || b == 95 || b
            == 46 || b == 126 {
            out.push(b as char);
        } else {
            out.push('%');
            out.push(hex_digit(b / 16));
            out.push(hex_digit(b % 16));
        }
        assert(out@ =~= before + escaped_byte(b));
        assert(out@ + url_escaped(bv.skip(i + 1)) =~= before + url_escaped(bv.skip(i as int)));
        i += 1;
    }
    assert(bv.skip(i as int) =~= Seq::<u8>::empty());
    assert(out@ =~= url_escaped(bv));
    string_from_chars(&out)
}

/// The task's delay reads back as the delay: `PT`, then decimal digits
/// giving the seconds, capped at one hour, then `S`.
pub proof fn delay_text_reads_back(seconds: u32)
    ensures
        ({
            let t = delay_text(seconds);
            let n = t.len() as int;
            &&& n >= 4
            &&& t.take(2) == "PT"@
            &&& t[n - 1] == 'S'
            &&& all_digits(t.subrange(2, n - 1))
            &&& digits_value(t.subrange(2, n - 1)) == if seconds > 3600 { 3600 } else { seconds as int }
        }),
{
    reveal_strlit("PT");
    reveal_strlit("S");
    reveal_strlit("PT0S");
    let t = delay_text(seconds);
    if seconds > 0 {
        let c: nat = if seconds > 3600 { 3600nat } else { seconds as nat };
        lemma_decimal_digits(c);
        let n = t.len() as int;
        assert(t.take(2) =~= "PT"@);
        assert(t.subrange(2, n - 1) =~= decimal(c));
    } else {
        let n = t.len() as int;
        assert(t.take(2) =~= "PT"@);
        let d = t.subrange(2, n - 1);
        assert(d =~= seq!['0']);
        assert(d.drop_last() =~= Seq::<char>::empty());
        assert(digits_value(d) == digits_value(d.drop_last()) * 10 + digit_value(d.last()));
    }
}

/// The log-on delay of the start-up task: `PT<seconds>S`, at most an hour,
/// and `PT0S` for none.
pub open spec fn delay_text(seconds: u32) -> Seq<char> {
    if seconds > 0 {
        "PT"@ + decimal(if seconds > 3600 { 3600nat } else { seconds as nat }) + "S"@
    } else {
        "PT0S"@
    }
}

pub fn startup_delay_text(seconds: u32) -> (t: String)
    ensures
        t@ == delay_text(seconds),
{
    if seconds > 0 {
        let capped: u32 = if seconds > 3600 {
            3600
        } else {
            seconds
        };
        let mut out = chars_of("PT");
        append_chars(&mut out, &decimal_chars(capped as u64));
        append_str(&mut out, "S");
        string_from_chars(&out)
    } else {
        String::from_str("PT0S")
    }
}

/// `s` without the quote characters at either end.
pub open spec fn strip_quotes(s: Seq<char>) -> Seq<char>
    decreases s.len(),
{
    if s.len() > 0 && s[0] == '"' {
        strip_quotes(s.drop_first())
    } else if s.len() > 0 && s.last() == '"' {
        strip_quotes(s.drop_last())
    } else {
        s
    }
}

/// The first comma-separated field that, trimmed and unquoted, is a user SID.
pub open spec fn first_sid(fields: Seq<Seq<char>>) -> Option<Seq<char>>
    decreases fields.len(),
{
    if fields.len() == 0 {
        None
    } else if starts_with(strip_quotes(trim(fields[0])), "S-1-5-"@) {
        Some(strip_quotes(trim(fields[0])))
    } else {
        first_sid(fields.drop_first())
    }
}

/// The SID used when none can be read: the built-in Users group.
pub open spec fn fallback_sid() -> Seq<char> {
    "S-1-5-32-545"@
}

fn strip_quote_chars(s: &Vec<char>) -> (r: Vec<char>)
    ensures
        r@ == strip_quotes(s@),
{
    let mut a: usize = 0;
    let mut b: usize = s.len();
    assert(s@.subrange(0, b as int) =~= s@);
    while a < b && s[a] == '"'
        invariant
            a <= b <= s@.len(),
            b == s@.len(),
            strip_quotes(s@) == strip_quotes(s@.subrange(a as int, b as int)),
        decreases b - a,
    {
        assert(s@.subrange(a as int, b as int).drop_first() =~= s@.subrange(a + 1, b as int));
        a += 1;
    }
    while a < b && s[b - 1] == '"'
        invariant
            a <= b <= s@.len(),
            a == b || s@[a as int] != '"',
            strip_quotes(s@) == strip_quotes(s@.subrange(a as int, b as int)),
        decreases b - a,
    {
        let ghost t = s@.subrange(a as int, b as int);
        assert(t.drop_last() =~= s@.subrange(a as int, b - 1));
        assert(t.len() > 0 && t[0] != '"' ==> strip_quotes(t) == strip_quotes(t.drop_last()));
        b -= 1;
    }
    let r = crate::text::sub_chars(s, a, b);
    proof {
        let t = s@.subrange(a as int, b as int);
        if t.len() > 0 {
            assert(t[0] != '"');
            assert(t.last() != '"');
        }
    }
    r
}

/// The current user's SID, read from `whoami /user /fo csv /nh` output
/// (`"DOMAIN\user","S-1-5-..."`); the Users group when none is found.
pub fn sid_from_whoami(output: &str) -> (sid: String)
    ensures
        sid@ == match first_sid(split(output@, ',')) {
            Some(s) => s,
            None => fallback_sid(),
        },
{
    let parts = split_chars(&chars_of(output), ',');
    let ghost pv = char_views(parts@);
    let mut i: usize = 0;
    assert(pv.skip(0) =~= pv);
    while i < parts.len()
        invariant
            i <= parts@.len(),
            pv == char_views(parts@),
            pv == split(output@, ','),
            pv.len() == parts@.len(),
            first_sid(pv) == first_sid(pv.skip(i as int)),
        decreases parts@.len() - i,
    {
        assert(pv.skip(i as int)[0] == parts@[i as int]@);
        assert(pv.skip(i as int).drop_first() =~= pv.skip(i + 1));
        let cand = strip_quote_chars(&trim_chars(&parts[i]));
        let prefix = chars_of("S-1-5-");
        if starts_with_chars(&cand, &prefix) {
            return string_from_chars(&cand);
        }
        i += 1;
    }
    assert(pv.skip(i as int) =~= Seq::<Seq<char>>::empty());
    String::from_str("S-1-5-32-545")
}

/// The folder picked in the folder dialog: its trimmed output when the dialog
/// succeeded and printed something, else none.
pub fn folder_choice(success: bool, output: &str) -> (r: Option<String>)
    ensures
        r matches Some(p) ==> success && p@ == trim(output@) && p@.len() > 0,
        r is None ==> !success || trim(output@).len() == 0,
{
    if success {
        let t = trim_chars(&chars_of(output));
        if t.len() == 0 {
            None
        } else {
            Some(string_from_chars(&t))
        }
    } else {
        None
    }
}

/// What stopping the monitor reports, from whether the kill command succeeded.
pub fn stop_outcome(success: bool) -> (r: Result<(), String>)
    ensures
        success ==> r is Ok,
        !success ==> (r matches Err(e) && e@ == "Monitor not running or already stopped"@),
{
    if success {
        Ok(())
    } else {
        Err(String::from_str("Monitor not running or already stopped"))
    }
}

/// What changing the start-up task reports once the elevated retry has run.
pub fn elevated_outcome(creating: bool, success: bool) -> (r: Result<(), String>)
    ensures
        success ==> r is Ok,
        !success && creating ==> (r matches Err(e) && e@
            == "Failed to create scheduled task (UAC elevation was denied or failed)"@),
        !success && !creating ==> (r matches Err(e) && e@ == "Failed to remove scheduled task"@),
{
    if success {
        Ok(())
    } else if creating {
        Err(String::from_str("Failed to create scheduled task (UAC elevation was denied or failed)"))
    } else {
        Err(String::from_str("Failed to remove scheduled task"))
    }
}

/// `s` with every single quote doubled, for a single-quoted PowerShell string.
pub open spec fn ps_quoted(s: Seq<char>) -> Seq<char>
    decreases s.len(),
{
    if s.len() == 0 {
        seq![]
    } else {
        ps_quoted(s.drop_last()) + if s.last() == '\'' {
            seq!['\'', '\'']
        } else {
            seq![s.last()]
        }
    }
}

fn ps_quote_chars(s: &str) -> (r: Vec<char>)
    ensures
        r@ == ps_quoted(s@),
{
    let c = chars_of(s);
    let mut out: Vec<char> = Vec::new();
    let mut i: usize = 0;
    while i < c.len()
        invariant
            i <= c@.len(),
            c@ == s@,
            out@ == ps_quoted(c@.take(i as int)),
        decreases c@.len() - i,
    {
        assert(c@.take(i + 1).drop_last() =~= c@.take(i as int));
        if c[i] == '\'' {
            out.push('\'');
            out.push('\'');
        } else {
            out.push(c[i]);
        }
        i += 1;
        assert(out@ =~= ps_quoted(c@.take(i as int)));
    }
    assert(c@.take(i as int) =~= c@);
    out
}

/// The PowerShell command that registers the start-up task from `xml_path`
/// with elevation.
pub open spec fn elevated_create_spec(xml_path: Seq<char>) -> Seq<char> {
    "Start-Process schtasks -ArgumentList '/create','/xml','\""@ + ps_quoted(xml_path)
        + "\"','/tn','\"MiniSystemMonitor\"','/f' -Verb RunAs -Wait -WindowStyle Hidden"@
}

pub fn elevated_create_command(xml_path: &str) -> (c: String)
    ensures
        c@ == elevated_create_spec(xml_path@),
{
    let mut out = chars_of("Start-Process schtasks -ArgumentList '/create','/xml','\"");
    append_chars(&mut out, &ps_quote_chars(xml_path));
    append_str(&mut out, "\"','/tn','\"MiniSystemMonitor\"','/f' -Verb RunAs -Wait -WindowStyle Hidden");
    string_from_chars(&out)
}

/// The PowerShell command that removes the start-up task with elevation.
pub fn elevated_delete_command() -> (c: String)
    ensures
        c@ == "Start-Process schtasks -ArgumentList '/delete','/tn','\"MiniSystemMonitor\"','/f' -Verb RunAs -Wait -WindowStyle Hidden"@,
{
    String::from_str(
        "Start-Process schtasks -ArgumentList '/delete','/tn','\"MiniSystemMonitor\"','/f' -Verb RunAs -Wait -WindowStyle Hidden",
    )
}

/// The theme a request is about: the named one, or the default when the name is empty.
pub fn theme_name(theme: &str) -> (name: &str)
    ensures
        theme@.len() == 0 ==> name@ == "NexusMeter"@,
        theme@.len() > 0 ==> name@ == theme@,
{
    if theme.is_empty() {
        "NexusMeter"
    } else {
        theme
    }
}

/// The geocoding search for `query`, trimmed and escaped; none for a blank query.
pub open spec fn city_url_spec(query: Seq<char>) -> Option<Seq<char>> {
    if trim(query).len() == 0 {
        None
    } else {
        Some(
            "https://geocoding-api.open-meteo.com/v1/search?name="@ + url_escaped(
                vstd::utf8::encode_utf8(trim(query)),
            ) + "&count=8&language=en&format=json"@,
        )
    }
}

pub fn city_search_url(query: &str) -> (url: Option<String>)
    ensures
        match url {
            Some(u) => city_url_spec(query@) == Some(u@),
            None => city_url_spec(query@) is None,
        },
{
    let t = trim_chars(&chars_of(query));
    if t.len() == 0 {
        None
    } else {
        let ts = string_from_chars(&t);
        let mut out = chars_of("https://geocoding-api.open-meteo.com/v1/search?name=");
        append_str(&mut out, urlencoding_simple(ts.as_str()).as_str());
        append_str(&mut out, "&count=8&language=en&format=json");
        Some(string_from_chars(&out))
    }
}

/// A city found by the geocoding search, but for its coordinates.
pub struct CityLabel {
    pub name: String,
    pub admin1: String,
    pub country: String,
}

pub open spec fn text_or_empty(v: Option<String>) -> Seq<char> {
    match v {
        Some(s) => s@,
        None => seq![],
    }
}

/// A search result's names; none when it has no name, such results are skipped.
pub fn city_label(name: Option<String>, admin1: Option<String>, country: Option<String>) -> (c: Option<CityLabel>)
    ensures
        c is None <==> text_or_empty(name).len() == 0,
        c matches Some(l) ==> l.name@ == text_or_empty(name) && l.admin1@ == text_or_empty(admin1)
            && l.country@ == text_or_empty(country),
{
    let n = match name {
        Some(s) => s,
        None => String::new(),
    };
    if n.as_str().is_empty() {
        None
    } else {
        Some(
            CityLabel {
                name: n,
                admin1: match admin1 {
                    Some(s) => s,
                    None => String::new(),
                },
                country: match country {
                    Some(s) => s,
                    None => String::new(),
                },
            },
        )
    }
}

} // verus!
