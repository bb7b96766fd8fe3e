//! How the theme editor lays out and previews a theme's elements: the sample
//! text shown for live values, what each element is and where it goes, and the
//! boxes the editor lets the user drag.
use vstd::prelude::*;
use crate::color::{parse_rgb_csv, parse_rgb_csv_spec};
use crate::preview::copy_path;
use crate::render::{anchor_offset, anchored};
use crate::text::{
    append_chars, append_str, chars_of, contains, contains_str, digit_value, is_digit, string_from_chars, uppercase,
    uppercase_chars,
};
use crate::yaml::{YamlValue, as_bool_spec, as_i64_spec, as_str_spec, get_spec, node_at, node_at_spec, string_views};

verus! {

/// The path's keys joined with dots, e.g. `STATS.CPU.PERCENTAGE.TEXT`.
pub open spec fn dotted(path: Seq<Seq<char>>) -> Seq<char>
    decreases path.len(),
{
    if path.len() == 0 {
        seq![]
    } else if path.len() == 1 {
        path[0]
    } else {
        dotted(path.drop_last()) + seq!['.'] + path.last()
    }
}

/// The upper-cased dotted path by which a live value's sample is chosen.
pub open spec fn sample_key(path: Seq<Seq<char>>) -> Seq<char> {
    uppercase(dotted(path))
}

/// Whether the sample is the current time of day (`HH:MM`).
pub open spec fn wants_clock(key: Seq<char>) -> bool {
    contains(key, "HOUR"@)
}

/// Whether the sample is today's date (`Mon 01 Jan`).
pub open spec fn wants_calendar(key: Seq<char>) -> bool {
    !contains(key, "HOUR"@) && contains(key, "DAY"@)
}

/// The sample text for a live value, given the time of day and the date as
/// they would be shown: chosen by the first matching word of its key.
pub open spec fn sample_text(key: Seq<char>, clock: Seq<char>, calendar: Seq<char>) -> Seq<char> {
    if contains(key, "HOUR"@) {
        clock
    } else if contains(key, "DAY"@) {
        calendar
    } else if contains(key, "UPTIME"@) || contains(key, "FORMATTED"@) {
        "02:14:33"@
    } else if contains(key, "TEMPERATURE_FELT"@) {
        "54°C"@
    } else if contains(key, "TEMPERATURE"@) {
        "56°C"@
    } else if contains(key, "FREQUENCY"@) || contains(key, "CLOCK"@) {
        "3200 MHz"@
    } else if contains(key, "UPLOAD"@) {
        "UP 512 KB/s"@
    } else if contains(key, "DOWNLOAD"@) {
        "DN 2.1 MB/s"@
    } else if contains(key, "HUMIDITY"@) {
        "48%"@
    } else if contains(key, "USED"@) {
        "8.2 GB"@
    } else if contains(key, "PERCENT"@) || contains(key, "LOAD"@) || contains(key, "VIRTUAL"@) {
        "42%"@
    } else if contains(key, "WEATHER"@) {
        "21°"@
    } else {
        seq![]
    }
}

fn dotted_chars(path: &Vec<String>) -> (r: Vec<char>)
    ensures
        r@ == dotted(string_views(path@)),
{
    let ghost pv = string_views(path@);
    let mut out: Vec<char> = Vec::new();
    let mut i: usize = 0;
    while i < path.len()
        invariant
            i <= path@.len(),
            pv == string_views(path@),
            pv.len() == path@.len(),
            out@ == dotted(pv.take(i as int)),
        decreases path@.len() - i,
    {
        assert(pv.take(i + 1).drop_last() =~= pv.take(i as int));
        assert(pv[i as int] == path@[i as int]@);
        if i > 0 {
            append_str(&mut out, ".");
            proof {
                reveal_strlit(".");
            }
        }
        let part = chars_of(path[i].as_str());
        append_chars(&mut out, &part);
        assert(out@ =~= dotted(pv.take(i + 1)));
        i += 1;
    }
    assert(pv.take(i as int) =~= pv);
    out
}

/// The key by which a path's sample is chosen.
pub fn sample_key_of(path: &Vec<String>) -> (key: Vec<char>)
    ensures
        key@ == sample_key(string_views(path@)),
{
    uppercase_chars(&dotted_chars(path))
}

/// The sample for `key`, given the time of day and the date as shown.
pub fn sample_for(key: &Vec<char>, clock: &str, calendar: &str) -> (s: String)
    ensures
        s@ == sample_text(key@, clock@, calendar@),
{
    if contains_str(key, "HOUR") {
        String::from_str(clock)
    } else if contains_str(key, "DAY") {
        String::from_str(calendar)
    } else if contains_str(key, "UPTIME") || contains_str(key, "FORMATTED") {
        String::from_str("02:14:33")
    } else if contains_str(key, "TEMPERATURE_FELT") {
        String::from_str("54°C")
    } else if contains_str(key, "TEMPERATURE") {
        String::from_str("56°C")
    } else if contains_str(key, "FREQUENCY") || contains_str(key, "CLOCK") {
        String::from_str("3200 MHz")
    } else if contains_str(key, "UPLOAD") {
        String::from_str("UP 512 KB/s")
    } else if contains_str(key, "DOWNLOAD") {
        String::from_str("DN 2.1 MB/s")
    } else if contains_str(key, "HUMIDITY") {
        String::from_str("48%")
    } else if contains_str(key, "USED") {
        String::from_str("8.2 GB")
    } else if contains_str(key, "PERCENT") || contains_str(key, "LOAD") || contains_str(key, "VIRTUAL") {
        String::from_str("42%")
    } else if contains_str(key, "WEATHER") {
        String::from_str("21°")
    } else {
        String::new()
    }
}

/// Two decimal digits whose value is in `lo..hi`.
pub open spec fn two_digits_in(s: Seq<char>, lo: int, hi: int) -> bool {
    s.len() == 2 && is_digit(s[0]) && is_digit(s[1]) && lo <= digit_value(s[0]) * 10 + digit_value(s[1]) < hi
}

/// A time of day as `HH:MM` (00-23, 00-59).
pub open spec fn clock_shape(s: Seq<char>) -> bool {
    s.len() == 5 && two_digits_in(s.take(2), 0, 24) && s[2] == ':' && two_digits_in(s.skip(3), 0, 60)
}

pub open spec fn weekday_names() -> Seq<Seq<char>> {
    seq!["Sun"@, "Mon"@, "Tue"@, "Wed"@, "Thu"@, "Fri"@, "Sat"@]
}

pub open spec fn month_names() -> Seq<Seq<char>> {
    seq!["Jan"@, "Feb"@, "Mar"@, "Apr"@, "May"@, "Jun"@, "Jul"@, "Aug"@, "Sep"@, "Oct"@, "Nov"@, "Dec"@]
}

/// A date as `Www DD Mmm`: an English weekday abbreviation, the day of the
/// month (01-31) and an English month abbreviation.
pub open spec fn calendar_shape(s: Seq<char>) -> bool {
    &&& s.len() == 10
    &&& weekday_names().contains(s.take(3))
    &&& s[3] == ' '
    &&& two_digits_in(s.subrange(4, 6), 1, 32)
    &&& s[6] == ' '
    &&& month_names().contains(s.skip(7))
}

/// The local time formatted by `chrono`'s `Local::now().format(fmt)`. Which
/// time it is depends on the clock and the time zone and is not stated; what
/// the format gives is, as chrono documents its specifiers (without its
/// optional locales): `%H` and `%M` are the hour (00-23) and minute (00-59),
/// two digits each; `%a` and `%b` are the English three-letter weekday and
/// month abbreviations and `%d` the day of the month (01-31), two digits. Both
/// formats are valid. chrono does panic when the machine's time-zone data
/// cannot be read or selected; that depends on the machine, not on the
/// arguments, and no `requires` can rule it out.
#[verifier::external_body]
fn local_time_text(fmt: &str) -> (s: String)
    requires
        fmt@ == "%H:%M"@ || fmt@ == "%a %d %b"@,
    ensures
        fmt@ == "%H:%M"@ ==> clock_shape(s@),
        fmt@ == "%a %d %b"@ ==> calendar_shape(s@),
{
    chrono::Local::now().format(fmt).to_string()
}

/// The current time of day as the panel shows it (`HH:MM`, local time).
pub fn clock_text() -> (s: String)
    ensures
        clock_shape(s@),
{
    proof {
        reveal_strlit("%H:%M");
        reveal_strlit("%a %d %b");
    }
    local_time_text("%H:%M")
}

/// Today's date as the panel shows it (`Mon 01 Jan`, local time).
pub fn calendar_text() -> (s: String)
    ensures
        calendar_shape(s@),
{
    proof {
        reveal_strlit("%H:%M");
        reveal_strlit("%a %d %b");
    }
    local_time_text("%a %d %b")
}

/// Representative sample text for a live value at `path`, so that a preview
/// looks like the panel without reading any sensor. Time and date samples
/// are read from the local clock.
pub fn placeholder_text(path: &Vec<String>) -> (s: String)
    ensures
        !wants_clock(sample_key(string_views(path@))) && !wants_calendar(sample_key(string_views(path@))) ==> s@
            == sample_text(sample_key(string_views(path@)), seq![], seq![]),
        wants_clock(sample_key(string_views(path@))) ==> clock_shape(s@),
        wants_calendar(sample_key(string_views(path@))) ==> calendar_shape(s@),
{
    let key = sample_key_of(path);
    if contains_str(&key, "HOUR") {
        clock_text()
    } else if contains_str(&key, "DAY") {
        calendar_text()
    } else {
        sample_for(&key, "", "")
    }
}

pub open spec fn field_str(n: YamlValue, key: Seq<char>) -> Option<Seq<char>> {
    match get_spec(n, key) {
        Some(v) => as_str_spec(v),
        None => None,
    }
}

pub open spec fn field_i64(n: YamlValue, key: Seq<char>) -> Option<i64> {
    match get_spec(n, key) {
        Some(v) => as_i64_spec(v),
        None => None,
    }
}

pub open spec fn field_bool(n: YamlValue, key: Seq<char>) -> Option<bool> {
    match get_spec(n, key) {
        Some(v) => as_bool_spec(v),
        None => None,
    }
}

pub open spec fn or_i64(v: Option<i64>, d: i64) -> i64 {
    match v {
        Some(x) => x,
        None => d,
    }
}

fn str_field<'a>(n: &'a YamlValue, key: &str) -> (r: Option<&'a String>)
    ensures
        r matches Some(s) ==> field_str(*n, key@) == Some(s@),
        r is None ==> field_str(*n, key@) is None,
{
    match n.get(key) {
        Some(v) => v.as_str(),
        None => None,
    }
}

fn i64_field(n: &YamlValue, key: &str) -> (r: Option<i64>)
    ensures
        r == field_i64(*n, key@),
{
    match n.get(key) {
        Some(v) => v.as_i64(),
        None => None,
    }
}

fn bool_field(n: &YamlValue, key: &str) -> (r: Option<bool>)
    ensures
        r == field_bool(*n, key@),
{
    match n.get(key) {
        Some(v) => v.as_bool(),
        None => None,
    }
}

/// What an element of a theme is.
pub enum ElementKind {
    /// A progress bar (`WIDTH`, `HEIGHT` and `BAR_COLOR`, no `PATH`).
    Bar { w: u32, h: u32, color: [u8; 3] },
    /// An icon slot (`WIDTH` and `HEIGHT`, no `BAR_COLOR` nor `PATH`).
    Icon { w: u32, h: u32 },
    /// A text, fixed (`TEXT`) or a live value's sample.
    Text { font: Option<String>, anchor: String, color: [u8; 3], text: String },
}

/// One element as the preview draws it: shown or not, its anchor point and
/// what it is. The font size is read by the caller, as a float.
pub struct ElementPlan {
    pub hidden: bool,
    pub x: i32,
    pub y: i32,
    pub kind: ElementKind,
}

/// Whether the element has a fixed size of its own: `WIDTH` and `HEIGHT` but no `PATH`.
pub open spec fn is_sized(n: YamlValue) -> bool {
    get_spec(n, "WIDTH"@) is Some && get_spec(n, "HEIGHT"@) is Some && get_spec(n, "PATH"@) is None
}

/// The colour of a bar: `BAR_COLOR` read as `r, g, b`, else purple.
pub open spec fn bar_color_of(n: YamlValue) -> [u8; 3] {
    match field_str(n, "BAR_COLOR"@) {
        Some(s) => parse_rgb_csv_spec(s),
        None => [180u8, 80u8, 255u8],
    }
}

/// The colour of a text: `FONT_COLOR` read as `r, g, b`, else white.
pub open spec fn font_color_of(n: YamlValue) -> [u8; 3] {
    match field_str(n, "FONT_COLOR"@) {
        Some(s) => parse_rgb_csv_spec(s),
        None => [255u8, 255u8, 255u8],
    }
}

/// The plan's text is the element's `TEXT`, or failing that its sample.
pub open spec fn text_matches(n: YamlValue, path: Seq<Seq<char>>, text: Seq<char>) -> bool {
    match field_str(n, "TEXT"@) {
        Some(t) => text == t,
        None => {
            &&& !wants_clock(sample_key(path)) && !wants_calendar(sample_key(path)) ==> text == sample_text(
                sample_key(path),
                seq![],
                seq![],
            )
            &&& wants_clock(sample_key(path)) ==> clock_shape(text)
            &&& wants_calendar(sample_key(path)) ==> calendar_shape(text)
        },
    }
}

/// The plan of element `n` found at `path`.
pub open spec fn plan_matches(n: YamlValue, path: Seq<Seq<char>>, p: ElementPlan) -> bool {
    &&& p.hidden == !match field_bool(n, "SHOW"@) {
        Some(b) => b,
        None => true,
    }
    &&& p.x == or_i64(field_i64(n, "X"@), 0) as i32
    &&& p.y == or_i64(field_i64(n, "Y"@), 0) as i32
    &&& if is_sized(n) {
        let w = or_i64(field_i64(n, "WIDTH"@), 80) as u32;
        let h = or_i64(field_i64(n, "HEIGHT"@), 10) as u32;
        if get_spec(n, "BAR_COLOR"@) is Some {
            p.kind == ElementKind::Bar { w, h, color: bar_color_of(n) }
        } else {
            p.kind == ElementKind::Icon { w, h }
        }
    } else {
        p.kind matches ElementKind::Text { font, anchor, color, text } && (match field_str(n, "FONT"@) {
            Some(f) => font matches Some(g) && g@ == f,
            None => font is None,
        }) && anchor@ == (match field_str(n, "ANCHOR"@) {
            Some(a) => a,
            None => "lt"@,
        }) && color == font_color_of(n) && text_matches(n, path, text@)
    }
}

/// Reads element `n`, found at `path`, the way the preview and the layout do.
pub fn plan_element(n: &YamlValue, path: &Vec<String>) -> (p: ElementPlan)
    ensures
        plan_matches(*n, string_views(path@), p),
{
    let hidden = !match bool_field(n, "SHOW") {
        Some(b) => b,
        None => true,
    };
    let x = match i64_field(n, "X") {
        Some(v) => v,
        None => 0,
    } as i32;
    let y = match i64_field(n, "Y") {
        Some(v) => v,
        None => 0,
    } as i32;
    let sized = n.get("WIDTH").is_some() && n.get("HEIGHT").is_some() && n.get("PATH").is_none();
    let kind = if sized {
        let w = match i64_field(n, "WIDTH") {
            Some(v) => v,
            None => 80,
        } as u32;
        let h = match i64_field(n, "HEIGHT") {
            Some(v) => v,
            None => 10,
        } as u32;
        if n.get("BAR_COLOR").is_some() {
            let color = match str_field(n, "BAR_COLOR") {
                Some(s) => parse_rgb_csv(s.as_str()),
                None => [180u8, 80u8, 255u8],
            };
            ElementKind::Bar { w, h, color }
        } else {
            ElementKind::Icon { w, h }
        }
    } else {
        let font = match str_field(n, "FONT") {
            Some(f) => Some(f.clone()),
            None => None,
        };
        let anchor = match str_field(n, "ANCHOR") {
            Some(a) => a.clone(),
            None => String::from_str("lt"),
        };
        let color = match str_field(n, "FONT_COLOR") {
            Some(s) => parse_rgb_csv(s.as_str()),
            None => [255u8, 255u8, 255u8],
        };
        let text = match str_field(n, "TEXT") {
            Some(t) => t.clone(),
            None => placeholder_text(path),
        };
        ElementKind::Text { font, anchor, color, text }
    };
    ElementPlan { hidden, x, y, kind }
}

/// One element's box in the theme's own pixel space, which the editor lets the
/// user select and drag.
pub struct ElementBox {
    pub path: Vec<String>,
    pub x: i32,
    pub y: i32,
    pub w: u32,
    pub h: u32,
    pub hidden: bool,
}

/// The background's size and every element's box.
pub struct LayoutInfo {
    pub width: u32,
    pub height: u32,
    pub boxes: Vec<ElementBox>,
}

/// The text measured for an element's box: its text, or `123` when that is
/// empty, so that an empty element can still be grabbed.
pub open spec fn measured_text(text: Seq<char>) -> Seq<char> {
    if text.len() == 0 {
        "123"@
    } else {
        text
    }
}

pub fn layout_text(text: &String) -> (s: String)
    ensures
        s@ == measured_text(text@),
{
    if text.as_str().is_empty() {
        String::from_str("123")
    } else {
        text.clone()
    }
}

pub open spec fn max_u(a: u32, b: u32) -> u32 {
    if a >= b {
        a
    } else {
        b
    }
}

/// The box of a planned element. A bar or an icon keeps its own size; a text's
/// box is its measured size `(tw, th)` placed by its anchor, at least 4 x 4.
pub open spec fn box_matches(path: Seq<String>, p: ElementPlan, tw: u32, th: u32, b: ElementBox) -> bool {
    &&& b.path@ == path
    &&& b.hidden == p.hidden
    &&& match p.kind {
        ElementKind::Bar { w, h, .. } => b.x == p.x && b.y == p.y && b.w == w && b.h == h,
        ElementKind::Icon { w, h } => b.x == p.x && b.y == p.y && b.w == w && b.h == h,
        ElementKind::Text { anchor, .. } => (b.x as int, b.y as int) == anchored(
            p.x as int,
            p.y as int,
            tw as int,
            th as int,
            anchor@,
        ) && b.w == max_u(tw, 4) && b.h == max_u(th, 4),
    }
}

/// The box of a planned element found at `path`; `(tw, th)` is the measured
/// size of its layout text (unused for bars and icons).
pub fn element_box(path: &Vec<String>, p: &ElementPlan, tw: u32, th: u32) -> (b: ElementBox)
    requires
        tw <= i32::MAX,
        th <= i32::MAX,
        i32::MIN <= p.x - tw,
        i32::MIN <= p.y - th,
    ensures
        box_matches(path@, *p, tw, th, b),
{
    let path_copy = copy_path(path);
    match &p.kind {
        ElementKind::Bar { w, h, .. } => ElementBox { path: path_copy, x: p.x, y: p.y, w: *w, h: *h, hidden: p.hidden },
        ElementKind::Icon { w, h } => ElementBox { path: path_copy, x: p.x, y: p.y, w: *w, h: *h, hidden: p.hidden },
        ElementKind::Text { anchor, .. } => {
            let (dx, dy) = anchor_offset(p.x, p.y, tw, th, anchor.as_str());
            ElementBox {
                path: path_copy,
                x: dx,
                y: dy,
                w: if tw >= 4 { tw } else { 4 },
                h: if th >= 4 { th } else { 4 },
                hidden: p.hidden,
            }
        },
    }
}

/// The theme's background image, relative to its folder:
/// `static_images.BACKGROUND.PATH`.
pub open spec fn background_spec(yaml: YamlValue) -> Option<Seq<char>> {
    match node_at_spec(yaml, seq!["static_images"@, "BACKGROUND"@]) {
        Some(n) => field_str(n, "PATH"@),
        None => None,
    }
}

/// Finds the background image a preview is drawn on; a theme without one
/// cannot be previewed.
pub fn background_path(yaml: &YamlValue) -> (r: Result<String, String>)
    ensures
        r matches Ok(p) ==> background_spec(*yaml) == Some(p@),
        r matches Err(e) ==> background_spec(*yaml) is None && e@
            == "theme has no static_images.BACKGROUND.PATH"@,
{
    let keys = vec![String::from_str("static_images"), String::from_str("BACKGROUND")];
    proof {
        reveal_strlit("static_images");
        reveal_strlit("BACKGROUND");
        assert(string_views(keys@) =~= seq!["static_images"@, "BACKGROUND"@]);
    }
    match node_at(yaml, &keys) {
        Some(n) => match str_field(n, "PATH") {
            Some(p) => Ok(p.clone()),
            None => Err(String::from_str("theme has no static_images.BACKGROUND.PATH")),
        },
        None => Err(String::from_str("theme has no static_images.BACKGROUND.PATH")),
    }
}

/// The message for a background image that could not be loaded.
pub fn background_error(rel: &str) -> (e: String)
    ensures
        e@ == "could not load background image: "@ + rel@,
{
    let mut out = chars_of("could not load background image: ");
    append_str(&mut out, rel);
    string_from_chars(&out)
}

/// A fixed label of `static_text`, drawn once onto the background (its font
/// size, a float, is read apart).
pub struct LabelPlan {
    pub text: String,
    pub x: i32,
    pub y: i32,
    pub color: [u8; 3],
    pub font: Option<String>,
    pub anchor: String,
}

/// The label of entry `n`: present only with a non-empty `TEXT`; `X` and `Y`
/// default to 0, the colour (read as `r, g, b` bytes) to white, the anchor to `lt`.
pub open spec fn label_matches(n: YamlValue, l: LabelPlan) -> bool {
    &&& field_str(n, "TEXT"@) == Some(l.text@)
    &&& l.x == or_i64(field_i64(n, "X"@), 0) as i32
    &&& l.y == or_i64(field_i64(n, "Y"@), 0) as i32
    &&& l.color == match field_str(n, "FONT_COLOR"@) {
        Some(c) => crate::color::parse_color_spec(c),
        None => [255u8, 255u8, 255u8],
    }
    &&& match field_str(n, "FONT"@) {
        Some(f) => l.font matches Some(g) && g@ == f,
        None => l.font is None,
    }
    &&& l.anchor@ == match field_str(n, "ANCHOR"@) {
        Some(a) => a,
        None => "lt"@,
    }
}

pub fn static_label(n: &YamlValue) -> (r: Option<LabelPlan>)
    ensures
        r is None <==> !(field_str(*n, "TEXT"@) matches Some(t) && t.len() > 0),
        r matches Some(l) ==> label_matches(*n, l),
{
    let text = match str_field(n, "TEXT") {
        Some(t) => {
            if t.as_str().is_empty() {
                return None;
            }
            t.clone()
        },
        None => {
            return None;
        },
    };
    let x = match i64_field(n, "X") {
        Some(v) => v,
        None => 0,
    } as i32;
    let y = match i64_field(n, "Y") {
        Some(v) => v,
        None => 0,
    } as i32;
    let color = match str_field(n, "FONT_COLOR") {
        Some(c) => crate::color::parse_color(c.as_str()),
        None => [255u8, 255u8, 255u8],
    };
    let font = match str_field(n, "FONT") {
        Some(f) => Some(f.clone()),
        None => None,
    };
    let anchor = match str_field(n, "ANCHOR") {
        Some(a) => a.clone(),
        None => String::from_str("lt"),
    };
    Some(LabelPlan { text, x, y, color, font, anchor })
}

/// Where a label measuring `tw` x `th` is drawn: placed by its anchor and kept
/// on the background (corner at least 0).
pub fn label_origin(x: i32, y: i32, tw: u32, th: u32, anchor: &str) -> (r: (i32, i32))
    requires
        tw <= i32::MAX,
        th <= i32::MAX,
        i32::MIN <= x - tw,
        i32::MIN <= y - th,
    ensures
        r.0 as int == crate::frame::max_i(anchored(x as int, y as int, tw as int, th as int, anchor@).0, 0),
        r.1 as int == crate::frame::max_i(anchored(x as int, y as int, tw as int, th as int, anchor@).1, 0),
{
    let (dx, dy) = anchor_offset(x, y, tw, th, anchor);
    (if dx > 0 { dx } else { 0 }, if dy > 0 { dy } else { 0 })
}

} // verus!
