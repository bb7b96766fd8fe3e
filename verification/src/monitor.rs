//! The monitor's start-up choices and the timetable of its main loop: which
//! groups of readings are redrawn on each pass. The loop itself (reading the
//! clock, drawing, sending to the panel) is the caller's; it hands the clock
//! reading in and gets back the groups to redraw.
use vstd::prelude::*;
use crate::cache::elapsed;
use crate::config::LhmConfig;
use crate::yaml::{as_u64_spec, get_yaml_value, path_value, str_views, YamlValue};

verus! {

/// A group of readings that is redrawn together.
#[derive(Clone, Copy, PartialEq, Eq, Structural, Debug)]
pub enum Refresh {
    CpuPercent,
    CpuFrequency,
    CpuTemperature,
    Gpu,
    GpuTemperature,
    Memory,
    Disk,
    Date,
    Uptime,
    Network,
    Weather,
}

/// Number of groups in the timetable.
pub const GROUPS: usize = 11;

/// The group at position `i` of the timetable, in the order they are drawn.
pub open spec fn group_at(i: int) -> Refresh {
    if i == 0 {
        Refresh::CpuPercent
    } else if i == 1 {
        Refresh::CpuFrequency
    } else if i == 2 {
        Refresh::CpuTemperature
    } else if i == 3 {
        Refresh::Gpu
    } else if i == 4 {
        Refresh::GpuTemperature
    } else if i == 5 {
        Refresh::Memory
    } else if i == 6 {
        Refresh::Disk
    } else if i == 7 {
        Refresh::Date
    } else if i == 8 {
        Refresh::Uptime
    } else if i == 9 {
        Refresh::Network
    } else {
        Refresh::Weather
    }
}

/// Milliseconds between two redraws of the group at position `i` when the
/// theme sets no interval for it.
pub open spec fn interval_at(i: int) -> u64 {
    if i == 0 || i == 3 || i == 7 || i == 8 || i == 9 {
        1000
    } else if i == 6 {
        10000
    } else if i == 10 {
        60000
    } else {
        5000
    }
}

/// How far after the start each group's clock is set, so that the groups do not
/// all fall due on the same pass (the weather group is handled apart).
pub open spec fn stagger_at(i: int) -> u64 {
    if i == 1 {
        1000
    } else if i == 2 {
        2000
    } else if i == 3 {
        300
    } else if i == 4 {
        3000
    } else if i == 5 {
        1500
    } else if i == 6 {
        2500
    } else if i == 7 {
        600
    } else if i == 8 {
        900
    } else if i == 9 {
        1800
    } else {
        0
    }
}

/// How long before the start the weather group counts as last drawn, so that
/// it is first drawn five seconds in.
pub const WEATHER_HEAD_START: u64 = 55000;

/// The clock marks at start time `t0`: staggered after `t0`, and the weather
/// mark set back by its head start where the clock reaches that far back.
pub open spec fn start_marks(t0: u64) -> Seq<u64> {
    Seq::new(
        GROUPS as nat,
        |i: int|
            if i == 10 {
                if t0 >= WEATHER_HEAD_START {
                    (t0 - WEATHER_HEAD_START) as u64
                } else {
                    t0
                }
            } else {
                (t0 + stagger_at(i)) as u64
            },
    )
}

/// The built-in intervals, one per timetable position.
pub open spec fn default_intervals() -> Seq<u64> {
    Seq::new(GROUPS as nat, |i: int| interval_at(i))
}

/// The theme keys whose `INTERVAL` (whole seconds) sets how often the group
/// at position `i` is redrawn: the processor's three readings each have their
/// own, the GPU's two groups share the GPU's, and every other stat has one.
/// The weather group is redrawn from the fetched forecast once a minute; the
/// weather's `INTERVAL` sets how often the forecast is fetched instead.
pub open spec fn interval_path(i: int) -> Seq<Seq<char>> {
    if i == 0 {
        seq!["STATS"@, "CPU"@, "PERCENTAGE"@, "INTERVAL"@]
    } else if i == 1 {
        seq!["STATS"@, "CPU"@, "FREQUENCY"@, "INTERVAL"@]
    } else if i == 2 {
        seq!["STATS"@, "CPU"@, "TEMPERATURE"@, "INTERVAL"@]
    } else if i == 3 || i == 4 {
        seq!["STATS"@, "GPU"@, "INTERVAL"@]
    } else if i == 5 {
        seq!["STATS"@, "MEMORY"@, "INTERVAL"@]
    } else if i == 6 {
        seq!["STATS"@, "DISK"@, "INTERVAL"@]
    } else if i == 7 {
        seq!["STATS"@, "DATE"@, "INTERVAL"@]
    } else if i == 8 {
        seq!["STATS"@, "UPTIME"@, "INTERVAL"@]
    } else {
        seq!["STATS"@, "NET"@, "INTERVAL"@]
    }
}

/// Whole seconds at `path` as milliseconds, else `default`.
pub open spec fn seconds_setting(theme: YamlValue, path: Seq<Seq<char>>, default: u64) -> u64 {
    match path_value(theme, path) {
        Some(v) => match as_u64_spec(v) {
            Some(s) => if s <= u64::MAX / 1000 {
                (s * 1000) as u64
            } else {
                default
            },
            None => default,
        },
        None => default,
    }
}

/// The redraw interval of the group at position `i` under `theme`.
pub open spec fn theme_interval_at(theme: YamlValue, i: int) -> u64 {
    if i == 10 {
        interval_at(i)
    } else {
        seconds_setting(theme, interval_path(i), interval_at(i))
    }
}

/// Whether the group at position `i` is due at `now`, given the clock marks
/// and the groups' intervals.
pub open spec fn due_at(marks: Seq<u64>, intervals: Seq<u64>, now: u64, i: int) -> bool {
    elapsed(marks[i], now) >= intervals[i]
}

/// The groups due at `now` among positions `i` and after, in timetable order.
pub open spec fn due_from(marks: Seq<u64>, intervals: Seq<u64>, now: u64, i: int) -> Seq<Refresh>
    decreases GROUPS - i,
{
    if i < 0 || i >= GROUPS {
        seq![]
    } else {
        (if due_at(marks, intervals, now, i) {
            seq![group_at(i)]
        } else {
            seq![]
        }) + due_from(marks, intervals, now, i + 1)
    }
}

/// The clock marks after a pass at `now`: each group drawn now is stamped `now`.
pub open spec fn marks_after(marks: Seq<u64>, intervals: Seq<u64>, now: u64) -> Seq<u64> {
    Seq::new(marks.len(), |i: int| if due_at(marks, intervals, now, i) { now } else { marks[i] })
}

fn interval_of(i: usize) -> (r: u64)
    requires
        i < GROUPS,
    ensures
        r == interval_at(i as int),
{
    if i == 0 || i == 3 || i == 7 || i == 8 || i == 9 {
        1000
    } else if i == 6 {
        10000
    } else if i == 10 {
        60000
    } else {
        5000
    }
}

/// Whole seconds at `keys` in `theme`, as milliseconds; `default` when the
/// key is missing, is not a whole non-negative number, or overflows.
fn seconds_at(theme: &YamlValue, keys: &[&str], default: u64) -> (r: u64)
    ensures
        r == seconds_setting(*theme, str_views(keys@), default),
{
    match get_yaml_value(theme, keys) {
        Some(v) => match v.as_u64() {
            Some(s) => if s <= u64::MAX / 1000 {
                s * 1000
            } else {
                default
            },
            None => default,
        },
        None => default,
    }
}

fn theme_interval(theme: &YamlValue, i: usize) -> (r: u64)
    requires
        i < GROUPS,
    ensures
        r == theme_interval_at(*theme, i as int),
{
    let d = interval_of(i);
    if i == 0 {
        let k = ["STATS", "CPU", "PERCENTAGE", "INTERVAL"];
        assert(str_views(k@) =~= interval_path(0));
        seconds_at(theme, &k, d)
    } else if i == 1 {
        let k = ["STATS", "CPU", "FREQUENCY", "INTERVAL"];
        assert(str_views(k@) =~= interval_path(1));
        seconds_at(theme, &k, d)
    } else if i == 2 {
        let k = ["STATS", "CPU", "TEMPERATURE", "INTERVAL"];
        assert(str_views(k@) =~= interval_path(2));
        seconds_at(theme, &k, d)
    } else if i == 3 || i == 4 {
        let k = ["STATS", "GPU", "INTERVAL"];
        assert(str_views(k@) =~= interval_path(i as int));
        seconds_at(theme, &k, d)
    } else if i == 5 {
        let k = ["STATS", "MEMORY", "INTERVAL"];
        assert(str_views(k@) =~= interval_path(5));
        seconds_at(theme, &k, d)
    } else if i == 6 {
        let k = ["STATS", "DISK", "INTERVAL"];
        assert(str_views(k@) =~= interval_path(6));
        seconds_at(theme, &k, d)
    } else if i == 7 {
        let k = ["STATS", "DATE", "INTERVAL"];
        assert(str_views(k@) =~= interval_path(7));
        seconds_at(theme, &k, d)
    } else if i == 8 {
        let k = ["STATS", "UPTIME", "INTERVAL"];
        assert(str_views(k@) =~= interval_path(8));
        seconds_at(theme, &k, d)
    } else if i == 9 {
        let k = ["STATS", "NET", "INTERVAL"];
        assert(str_views(k@) =~= interval_path(9));
        seconds_at(theme, &k, d)
    } else {
        d
    }
}

/// The redraw interval of every group under `theme`, in timetable order: the
/// theme's `INTERVAL` where it sets one in whole seconds, else the built-in one.
pub fn theme_intervals(theme: &YamlValue) -> (v: Vec<u64>)
    ensures
        v@.len() == GROUPS,
        forall|i: int| 0 <= i < GROUPS ==> v@[i] == theme_interval_at(*theme, i),
{
    let mut v: Vec<u64> = Vec::new();
    let mut i: usize = 0;
    while i < GROUPS
        invariant
            i <= GROUPS,
            v@.len() == i,
            forall|j: int| 0 <= j < i ==> v@[j] == theme_interval_at(*theme, j),
        decreases GROUPS - i,
    {
        v.push(theme_interval(theme, i));
        i += 1;
    }
    v
}

/// The built-in redraw intervals, in timetable order.
pub fn default_interval_list() -> (v: Vec<u64>)
    ensures
        v@ == default_intervals(),
{
    let mut v: Vec<u64> = Vec::new();
    let mut i: usize = 0;
    while i < GROUPS
        invariant
            i <= GROUPS,
            v@ == default_intervals().take(i as int),
        decreases GROUPS - i,
    {
        v.push(interval_of(i));
        i += 1;
        assert(v@ =~= default_intervals().take(i as int));
    }
    assert(default_intervals().take(GROUPS as int) =~= default_intervals());
    v
}

/// How often the forecast is fetched, in milliseconds: the theme's weather
/// `INTERVAL` in whole seconds, else every five minutes.
pub fn weather_fetch_interval_ms(theme: &YamlValue) -> (ms: u64)
    ensures
        ms == seconds_setting(*theme, seq!["STATS"@, "WEATHER"@, "INTERVAL"@], 300000),
{
    let k = ["STATS", "WEATHER", "INTERVAL"];
    assert(str_views(k@) =~= seq!["STATS"@, "WEATHER"@, "INTERVAL"@]);
    seconds_at(theme, &k, 300000)
}

fn group_of(i: usize) -> (r: Refresh)
    requires
        i < GROUPS,
    ensures
        r == group_at(i as int),
{
    if i == 0 {
        Refresh::CpuPercent
    } else if i == 1 {
        Refresh::CpuFrequency
    } else if i == 2 {
        Refresh::CpuTemperature
    } else if i == 3 {
        Refresh::Gpu
    } else if i == 4 {
        Refresh::GpuTemperature
    } else if i == 5 {
        Refresh::Memory
    } else if i == 6 {
        Refresh::Disk
    } else if i == 7 {
        Refresh::Date
    } else if i == 8 {
        Refresh::Uptime
    } else if i == 9 {
        Refresh::Network
    } else {
        Refresh::Weather
    }
}

fn stagger_of(i: usize) -> (r: u64)
    requires
        i < GROUPS,
    ensures
        r == stagger_at(i as int),
{
    if i == 1 {
        1000
    } else if i == 2 {
        2000
    } else if i == 3 {
        300
    } else if i == 4 {
        3000
    } else if i == 5 {
        1500
    } else if i == 6 {
        2500
    } else if i == 7 {
        600
    } else if i == 8 {
        900
    } else if i == 9 {
        1800
    } else {
        0
    }
}

/// When each group of readings was last drawn, and how often each is redrawn.
pub struct RefreshSchedule {
    last: Vec<u64>,
    intervals: Vec<u64>,
}

impl RefreshSchedule {
    /// The clock marks, one per timetable position.
    pub closed spec fn marks(&self) -> Seq<u64> {
        self.last@
    }

    /// The redraw intervals in milliseconds, one per timetable position.
    pub closed spec fn intervals(&self) -> Seq<u64> {
        self.intervals@
    }

    pub closed spec fn wf(&self) -> bool {
        self.last@.len() == GROUPS && self.intervals@.len() == GROUPS
    }

    /// The timetable of a loop started at `t0` (milliseconds on a monotonic
    /// clock) with the built-in intervals.
    pub fn start(t0: u64) -> (s: RefreshSchedule)
        requires
            t0 + 3000 <= u64::MAX,
        ensures
            s.wf(),
            s.marks() == start_marks(t0),
            s.intervals() == default_intervals(),
    {
        RefreshSchedule::start_with_intervals(t0, default_interval_list())
    }

    /// The timetable of a loop started at `t0` that redraws the group at
    /// position `i` every `intervals[i]` milliseconds (see `theme_intervals`).
    pub fn start_with_intervals(t0: u64, intervals: Vec<u64>) -> (s: RefreshSchedule)
        requires
            t0 + 3000 <= u64::MAX,
            intervals@.len() == GROUPS,
        ensures
            s.wf(),
            s.marks() == start_marks(t0),
            s.intervals() == intervals@,
    {
        let mut last: Vec<u64> = Vec::new();
        let mut i: usize = 0;
        while i < GROUPS
            invariant
                i <= GROUPS,
                t0 + 3000 <= u64::MAX,
                last@ == start_marks(t0).take(i as int),
            decreases GROUPS - i,
        {
            let m = if i == 10 {
                if t0 >= WEATHER_HEAD_START {
                    t0 - WEATHER_HEAD_START
                } else {
                    t0
                }
            } else {
                t0 + stagger_of(i)
            };
            last.push(m);
            i += 1;
            assert(last@ =~= start_marks(t0).take(i as int));
        }
        assert(start_marks(t0).take(GROUPS as int) =~= start_marks(t0));
        RefreshSchedule { last, intervals }
    }

    /// One pass of the loop at `now`: the groups to redraw, in timetable
    /// order, each stamped as drawn now.
    pub fn tick(&mut self, now: u64) -> (due: Vec<Refresh>)
        requires
            old(self).wf(),
        ensures
            final(self).wf(),
            final(self).intervals() == old(self).intervals(),
            due@ == due_from(old(self).marks(), old(self).intervals(), now, 0),
            final(self).marks() == marks_after(old(self).marks(), old(self).intervals(), now),
    {
        let ghost m0 = self.last@;
        let ghost iv = self.intervals@;
        let mut due: Vec<Refresh> = Vec::new();
        let mut i: usize = 0;
        while i < GROUPS
            invariant
                i <= GROUPS,
                m0.len() == GROUPS,
                iv.len() == GROUPS,
                self.intervals@ == iv,
                self.last@.len() == GROUPS,
                due@ + due_from(m0, iv, now, i as int) == due_from(m0, iv, now, 0),
                forall|k: int| 0 <= k < i ==> self.last@[k] == marks_after(m0, iv, now)[k],
                forall|k: int| i <= k < GROUPS ==> self.last@[k] == m0[k],
            decreases GROUPS - i,
        {
            let mark = self.last[i];
            let age = if now >= mark {
                now - mark
            } else {
                0
            };
            let ghost before = due@;
            if age >= self.intervals[i] {
                due.push(group_of(i));
                self.last.set(i, now);
                assert(due@ + due_from(m0, iv, now, i + 1) =~= before + due_from(m0, iv, now, i as int));
            } else {
                assert(due@ + due_from(m0, iv, now, i + 1) =~= before + due_from(m0, iv, now, i as int));
            }
            i += 1;
        }
        assert(self.last@ =~= marks_after(m0, iv, now));
        due
    }
}

/// A group drawn on a pass at `now` is not drawn again on a pass less than its
/// interval later, and is drawn on the first pass at least its interval later.
pub proof fn refresh_spacing(marks: Seq<u64>, intervals: Seq<u64>, now: u64, later: u64, i: int)
    requires
        marks.len() == GROUPS,
        intervals.len() == GROUPS,
        0 <= i < GROUPS,
        due_at(marks, intervals, now, i),
        now <= later,
    ensures
        due_at(marks_after(marks, intervals, now), intervals, later, i) <==> later - now >= intervals[i],
{
}

/// Every group whose interval has passed is drawn on the pass, and no other.
pub proof fn refresh_due_exactly(marks: Seq<u64>, intervals: Seq<u64>, now: u64, i: int)
    requires
        marks.len() == GROUPS,
        intervals.len() == GROUPS,
        0 <= i < GROUPS,
    ensures
        due_from(marks, intervals, now, 0).contains(group_at(i)) <==> due_at(marks, intervals, now, i),
{
    lemma_due_from(marks, intervals, now, 0, i);
}

proof fn lemma_group_at_distinct(i: int, j: int)
    requires
        0 <= i < GROUPS,
        0 <= j < GROUPS,
        i != j,
    ensures
        group_at(i) != group_at(j),
{
}

proof fn lemma_due_from(marks: Seq<u64>, intervals: Seq<u64>, now: u64, from: int, i: int)
    requires
        0 <= from <= GROUPS,
        0 <= i < GROUPS,
    ensures
        due_from(marks, intervals, now, from).contains(group_at(i)) <==> (from <= i && due_at(marks, intervals, now, i)),
    decreases GROUPS - from,
{
    if from < GROUPS {
        lemma_due_from(marks, intervals, now, from + 1, i);
        let head: Seq<Refresh> = if due_at(marks, intervals, now, from) {
            seq![group_at(from)]
        } else {
            seq![]
        };
        let rest = due_from(marks, intervals, now, from + 1);
        assert(due_from(marks, intervals, now, from) == head + rest);
        if from <= i && due_at(marks, intervals, now, i) {
            if from == i {
                assert((head + rest)[0] == group_at(i));
            } else {
                let w = choose|w: int| 0 <= w < rest.len() && rest[w] == group_at(i);
                assert((head + rest)[head.len() + w] == group_at(i));
            }
        }
        if due_from(marks, intervals, now, from).contains(group_at(i)) {
            let w = choose|w: int| 0 <= w < (head + rest).len() && (head + rest)[w] == group_at(i);
            if w < head.len() {
                if from != i {
                    lemma_group_at_distinct(from, i);
                }
            } else {
                assert(rest[w - head.len()] == group_at(i));
            }
        }
    }
}

/// At start-up with the built-in intervals only the processor load is stamped
/// at the start itself; every other group's first redraw comes later, and the
/// weather's five seconds in (where the clock reaches back far enough).
pub proof fn refresh_first_passes(t0: u64, now: u64)
    requires
        t0 + 3000 <= u64::MAX,
        t0 >= WEATHER_HEAD_START,
        t0 <= now,
    ensures
        due_at(start_marks(t0), default_intervals(), now, 0) <==> now - t0 >= 1000,
        due_at(start_marks(t0), default_intervals(), now, 1) <==> now - t0 >= 6000,
        due_at(start_marks(t0), default_intervals(), now, 10) <==> now - t0 >= 5000,
{
}

/// The theme the monitor shows: the configured one, or the bundled default.
pub fn monitor_theme_name(theme: &Option<String>) -> (name: String)
    ensures
        theme matches Some(t) ==> name@ == t@,
        theme is None ==> name@ == "NexusMeter"@,
{
    match theme {
        Some(t) => t.clone(),
        None => String::from_str("NexusMeter"),
    }
}

/// Whether the serial port is to be found by scanning: when none is configured
/// or the setting is `AUTO`.
pub fn wants_port_scan(com_port: &Option<String>) -> (scan: bool)
    ensures
        scan <==> (com_port is None || com_port.unwrap()@ == "AUTO"@),
{
    match com_port {
        Some(p) => crate::text::eq_str(&crate::text::chars_of(p.as_str()), "AUTO"),
        None => true,
    }
}

/// The port to open: the configured one, or when scanning, the port found, or
/// `COM3` when the scan found none.
pub fn com_port_choice(com_port: &Option<String>, detected: Option<String>) -> (port: String)
    ensures
        !(com_port is None || com_port.unwrap()@ == "AUTO"@) ==> port@ == com_port.unwrap()@,
        (com_port is None || com_port.unwrap()@ == "AUTO"@) ==> port@ == match detected {
            Some(d) => d@,
            None => "COM3"@,
        },
{
    if wants_port_scan(com_port) {
        match detected {
            Some(d) => d,
            None => String::from_str("COM3"),
        }
    } else {
        match com_port {
            Some(p) => p.clone(),
            None => String::from_str("COM3"),
        }
    }
}

/// How often the hardware sensors are read, in milliseconds: the configured
/// `SENSOR_INTERVAL_MS`, else every two seconds.
pub fn sensor_interval_ms(configured: Option<u64>) -> (ms: u64)
    ensures
        ms == match configured {
            Some(v) => v,
            None => 2000,
        },
{
    match configured {
        Some(v) => v,
        None => 2000,
    }
}

/// The brightness the panel is set to at start-up: the configured one, else 20.
pub fn startup_brightness(brightness: Option<u8>) -> (b: u8)
    ensures
        b == match brightness {
            Some(v) => v,
            None => 20,
        },
{
    match brightness {
        Some(v) => v,
        None => 20,
    }
}

/// The sensor-reader folder to use: the configured one unless it is empty.
pub fn configured_lhm_path(lhm: &Option<LhmConfig>) -> (p: Option<String>)
    ensures
        p matches Some(s) ==> lhm matches Some(c) && c.lhm_path matches Some(q) && q@ == s@ && s@.len()
            > 0,
        p is None ==> !(lhm matches Some(c) && c.lhm_path matches Some(q) && q@.len() > 0),
{
    match lhm {
        Some(c) => match &c.lhm_path {
            Some(q) => {
                if q.as_str().is_empty() {
                    None
                } else {
                    Some(q.clone())
                }
            },
            None => None,
        },
        None => None,
    }
}

} // verus!
