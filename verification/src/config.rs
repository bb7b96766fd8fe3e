//! The settings file and the theme files, as the monitor reads them.
use vstd::prelude::*;
use crate::color::{parse_color, parse_color_spec};
use crate::paths::{join_path, joined};
use crate::text::{append_str, chars_of, string_from_chars};
use crate::yaml::{
    untag, YamlNumber, YamlValue, as_bool_spec, as_i64_spec, as_str_spec, get_spec, get_yaml_value, path_value,
    str_views,
};

verus! {

/// The `display:` section of the settings file.
pub struct DisplayConfig {
    pub brightness: Option<u8>,
    pub display_reverse: Option<bool>,
    pub reset_on_startup: Option<bool>,
    pub show_console: Option<bool>,
}

/// The `startup:` section of the settings file.
pub struct StartupConfig {
    pub run_on_startup: Option<bool>,
}

/// The `lhm:` section of the settings file.
pub struct LhmConfig {
    pub lhm_path: Option<String>,
}

/// A loaded theme: its parsed `theme.yaml` and the folder it came from.
pub struct Theme {
    pub raw: YamlValue,
    pub path: String,
}

pub open spec fn opt_str(v: Option<YamlValue>) -> Option<Seq<char>> {
    match v {
        Some(n) => as_str_spec(n),
        None => None,
    }
}

pub open spec fn opt_i64(v: Option<YamlValue>) -> Option<i64> {
    match v {
        Some(n) => as_i64_spec(n),
        None => None,
    }
}

pub open spec fn opt_bool(v: Option<YamlValue>) -> Option<bool> {
    match v {
        Some(n) => as_bool_spec(n),
        None => None,
    }
}

impl Theme {
    /// An empty theme rooted at `path`.
    pub fn empty(path: String) -> (t: Theme)
        ensures
            t.raw matches YamlValue::Mapping(es) && es@.len() == 0,
            t.path == path,
    {
        Theme { raw: YamlValue::Mapping(Vec::new()), path }
    }

    pub fn get_str(&self, keys: &[&str]) -> (r: Option<String>)
        ensures
            r matches Some(s) ==> opt_str(path_value(self.raw, str_views(keys@))) == Some(s@),
            r is None ==> opt_str(path_value(self.raw, str_views(keys@))) is None,
    {
        match get_yaml_value(&self.raw, keys) {
            Some(v) => match v.as_str() {
                Some(s) => Some(s.clone()),
                None => None,
            },
            None => None,
        }
    }

    /// An integer setting, cut to 32 bits the way `as i32` does.
    pub fn get_i32(&self, keys: &[&str]) -> (r: Option<i32>)
        ensures
            r == match opt_i64(path_value(self.raw, str_views(keys@))) {
                Some(n) => Some(n as i32),
                None => None,
            },
    {
        match get_yaml_value(&self.raw, keys) {
            Some(v) => match v.as_i64() {
                Some(n) => Some(#[verifier::truncate] (n as i32)),
                None => None,
            },
            None => None,
        }
    }

    /// An integer setting, cut to 32 unsigned bits the way `as u32` does.
    pub fn get_u32(&self, keys: &[&str]) -> (r: Option<u32>)
        ensures
            r == match opt_i64(path_value(self.raw, str_views(keys@))) {
                Some(n) => Some(n as u32),
                None => None,
            },
    {
        match get_yaml_value(&self.raw, keys) {
            Some(v) => match v.as_i64() {
                Some(n) => Some(#[verifier::truncate] (n as u32)),
                None => None,
            },
            None => None,
        }
    }

    pub fn get_bool(&self, keys: &[&str]) -> (r: Option<bool>)
        ensures
            r == opt_bool(path_value(self.raw, str_views(keys@))),
    {
        match get_yaml_value(&self.raw, keys) {
            Some(v) => v.as_bool(),
            None => None,
        }
    }

    /// A colour setting written as `"r, g, b"`.
    pub fn get_color(&self, keys: &[&str]) -> (r: Option<[u8; 3]>)
        ensures
            r == match opt_str(path_value(self.raw, str_views(keys@))) {
                Some(s) => Some(parse_color_spec(s)),
                None => None,
            },
    {
        match self.get_str(keys) {
            Some(s) => Some(parse_color(s.as_str())),
            None => None,
        }
    }

    /// A file of the theme: `name` under the theme's folder, or the folder
    /// itself for an empty name; `sep` is the platform's main path separator.
    pub fn file_path(&self, name: &str, sep: char) -> (p: String)
        requires
            sep == '/' || sep == '\\',
        ensures
            name@.len() == 0 ==> p@ == self.path@,
            name@.len() > 0 ==> p@ == joined(self.path@, name@, sep),
    {
        if name.is_empty() {
            self.path.clone()
        } else {
            join_path(self.path.as_str(), name, sep)
        }
    }

    pub fn section_exists(&self, keys: &[&str]) -> (r: bool)
        ensures
            r == path_value(self.raw, str_views(keys@)) is Some,
    {
        get_yaml_value(&self.raw, keys).is_some()
    }
}

/// Where theme `name`'s `theme.yaml` is looked for, relative to the places searched.
pub fn theme_file_relative(name: &str) -> (p: String)
    ensures
        p@ == "res/themes/"@ + name@ + "/theme.yaml"@,
{
    let mut out = chars_of("res/themes/");
    append_str(&mut out, name);
    append_str(&mut out, "/theme.yaml");
    string_from_chars(&out)
}

/// `display.SHOW_CONSOLE` of a settings document, off unless set.
pub fn show_console_setting(yaml: &YamlValue) -> (r: bool)
    ensures
        r == match get_spec(*yaml, "display"@) {
            Some(d) => match get_spec(d, "SHOW_CONSOLE"@) {
                Some(v) => match as_bool_spec(v) {
                    Some(b) => b,
                    None => false,
                },
                None => false,
            },
            None => false,
        },
{
    match yaml.get("display") {
        Some(d) => match d.get("SHOW_CONSOLE") {
            Some(v) => match v.as_bool() {
                Some(b) => b,
                None => false,
            },
            None => false,
        },
        None => false,
    }
}

/// `keys` followed by `last`.
fn with_key<'a>(keys: &[&'a str], last: &'a str) -> (r: Vec<&'a str>)
    ensures
        str_views(r@) == str_views(keys@).push(last@),
{
    let mut r: Vec<&'a str> = Vec::new();
    let mut i: usize = 0;
    while i < keys.len()
        invariant
            i <= keys@.len(),
            r@ == keys@.take(i as int),
        decreases keys@.len() - i,
    {
        r.push(keys[i]);
        i += 1;
        assert(r@ =~= keys@.take(i as int));
    }
    assert(keys@.take(i as int) =~= keys@);
    r.push(last);
    assert(str_views(r@) =~= str_views(keys@).push(last@));
    r
}

/// Where and how a live text is drawn (its font size, a float, is read apart).
pub struct TextConfig {
    pub x: i32,
    pub y: i32,
    pub color: [u8; 3],
    pub font: Option<String>,
    pub anchor: String,
}

/// Where a bar or a line graph is drawn and in which colour (its value range,
/// floats, is read apart).
pub struct GraphConfig {
    pub x: i32,
    pub y: i32,
    pub w: u32,
    pub h: u32,
    pub color: [u8; 3],
}

/// The setting at `keys` + `[last]`.
pub open spec fn at_key(raw: YamlValue, keys: Seq<Seq<char>>, last: Seq<char>) -> Option<YamlValue> {
    path_value(raw, keys.push(last))
}

/// Whether the element at `keys` is switched on (`SHOW: true`).
pub open spec fn shown(raw: YamlValue, keys: Seq<Seq<char>>) -> bool {
    opt_bool(at_key(raw, keys, "SHOW"@)) == Some(true)
}

pub open spec fn i32_at(raw: YamlValue, keys: Seq<Seq<char>>, last: Seq<char>) -> Option<i32> {
    match opt_i64(at_key(raw, keys, last)) {
        Some(n) => Some(n as i32),
        None => None,
    }
}

pub open spec fn u32_at(raw: YamlValue, keys: Seq<Seq<char>>, last: Seq<char>, d: u32) -> u32 {
    match opt_i64(at_key(raw, keys, last)) {
        Some(n) => n as u32,
        None => d,
    }
}

pub open spec fn color_at(raw: YamlValue, keys: Seq<Seq<char>>, last: Seq<char>, d: [u8; 3]) -> [u8; 3] {
    match opt_str(at_key(raw, keys, last)) {
        Some(s) => parse_color_spec(s),
        None => d,
    }
}

/// The placement of a shown element: present only when it is switched on and
/// has both an `X` and a `Y`.
pub open spec fn placed(raw: YamlValue, keys: Seq<Seq<char>>) -> bool {
    shown(raw, keys) && i32_at(raw, keys, "X"@) is Some && i32_at(raw, keys, "Y"@) is Some
}

/// The value at the end of `path`, if it is a whole number that fits `i64`.
pub open spec fn whole_at(raw: YamlValue, path: Seq<Seq<char>>) -> Option<int> {
    match path_value(raw, path) {
        Some(v) => match untag(v) {
            YamlValue::Number(YamlNumber::PosInt(n)) => if n <= i64::MAX {
                Some(n as int)
            } else {
                None
            },
            YamlValue::Number(YamlNumber::NegInt(n)) => Some(n as int),
            _ => None,
        },
        None => None,
    }
}

/// An element's settings are read under the element's own keys: setting
/// `last` of the element at `keys` is the value at `keys` followed by `last`;
/// a position is that whole number (when it fits 32 bits); and the element
/// is placed exactly when its `SHOW` is the flag `true` and both its `X` and
/// its `Y` are whole numbers.
pub proof fn element_settings_come_from_its_keys(raw: YamlValue, keys: Seq<Seq<char>>, last: Seq<char>)
    ensures
        at_key(raw, keys, last) == path_value(raw, keys + seq![last]),
        match whole_at(raw, keys + seq![last]) {
            Some(n) => i32::MIN <= n <= i32::MAX ==> i32_at(raw, keys, last) == Some(n as i32),
            None => i32_at(raw, keys, last) is None,
        },
        placed(raw, keys) <==> (path_value(raw, keys + seq!["SHOW"@]) matches Some(v) && untag(v)
            == YamlValue::Bool(true)) && whole_at(raw, keys + seq!["X"@]) is Some && whole_at(
            raw,
            keys + seq!["Y"@],
        ) is Some,
{
    assert(keys.push(last) =~= keys + seq![last]);
    assert(keys.push("SHOW"@) =~= keys + seq!["SHOW"@]);
    assert(keys.push("X"@) =~= keys + seq!["X"@]);
    assert(keys.push("Y"@) =~= keys + seq!["Y"@]);
}

impl Theme {
    /// The drawing settings of the live text at `keys`; none unless it is
    /// shown and placed. White and the `lt` anchor by default.
    pub fn text_cfg(&self, keys: &[&str]) -> (r: Option<TextConfig>)
        ensures
            r is Some <==> placed(self.raw, str_views(keys@)),
            r matches Some(c) ==> {
                let k = str_views(keys@);
                &&& Some(c.x) == i32_at(self.raw, k, "X"@)
                &&& Some(c.y) == i32_at(self.raw, k, "Y"@)
                &&& c.color == color_at(self.raw, k, "FONT_COLOR"@, [255u8, 255u8, 255u8])
                &&& match opt_str(at_key(self.raw, k, "FONT"@)) {
                    Some(f) => c.font matches Some(g) && g@ == f,
                    None => c.font is None,
                }
                &&& c.anchor@ == match opt_str(at_key(self.raw, k, "ANCHOR"@)) {
                    Some(a) => a,
                    None => "lt"@,
                }
            },
    {
        let show = self.get_bool(with_key(keys, "SHOW").as_slice());
        if show != Some(true) {
            return None;
        }
        let x = match self.get_i32(with_key(keys, "X").as_slice()) {
            Some(v) => v,
            None => {
                return None;
            },
        };
        let y = match self.get_i32(with_key(keys, "Y").as_slice()) {
            Some(v) => v,
            None => {
                return None;
            },
        };
        let color = match self.get_color(with_key(keys, "FONT_COLOR").as_slice()) {
            Some(c) => c,
            None => [255u8, 255u8, 255u8],
        };
        let font = self.get_str(with_key(keys, "FONT").as_slice());
        let anchor = match self.get_str(with_key(keys, "ANCHOR").as_slice()) {
            Some(a) => a,
            None => String::from_str("lt"),
        };
        Some(TextConfig { x, y, color, font, anchor })
    }

    fn graph_like(&self, keys: &[&str], default_h: u32, color_key: &str, default_color: [u8; 3]) -> (r: Option<
        GraphConfig,
    >)
        ensures
            r is Some <==> placed(self.raw, str_views(keys@)),
            r matches Some(c) ==> {
                let k = str_views(keys@);
                &&& Some(c.x) == i32_at(self.raw, k, "X"@)
                &&& Some(c.y) == i32_at(self.raw, k, "Y"@)
                &&& c.w == u32_at(self.raw, k, "WIDTH"@, 100)
                &&& c.h == u32_at(self.raw, k, "HEIGHT"@, default_h)
                &&& c.color == color_at(self.raw, k, color_key@, default_color)
            },
    {
        let show = self.get_bool(with_key(keys, "SHOW").as_slice());
        if show != Some(true) {
            return None;
        }
        let x = match self.get_i32(with_key(keys, "X").as_slice()) {
            Some(v) => v,
            None => {
                return None;
            },
        };
        let y = match self.get_i32(with_key(keys, "Y").as_slice()) {
            Some(v) => v,
            None => {
                return None;
            },
        };
        let w = match self.get_u32(with_key(keys, "WIDTH").as_slice()) {
            Some(v) => v,
            None => 100,
        };
        let h = match self.get_u32(with_key(keys, "HEIGHT").as_slice()) {
            Some(v) => v,
            None => default_h,
        };
        let color = match self.get_color(with_key(keys, color_key).as_slice()) {
            Some(c) => c,
            None => default_color,
        };
        Some(GraphConfig { x, y, w, h, color })
    }

    /// The drawing settings of the bar at `keys`: 100 x 10 and white by default.
    pub fn graph_cfg(&self, keys: &[&str]) -> (r: Option<GraphConfig>)
        ensures
            r is Some <==> placed(self.raw, str_views(keys@)),
            r matches Some(c) ==> {
                let k = str_views(keys@);
                &&& Some(c.x) == i32_at(self.raw, k, "X"@)
                &&& Some(c.y) == i32_at(self.raw, k, "Y"@)
                &&& c.w == u32_at(self.raw, k, "WIDTH"@, 100)
                &&& c.h == u32_at(self.raw, k, "HEIGHT"@, 10)
                &&& c.color == color_at(self.raw, k, "BAR_COLOR"@, [255u8, 255u8, 255u8])
            },
    {
        self.graph_like(keys, 10, "BAR_COLOR", [255u8, 255u8, 255u8])
    }

    /// The drawing settings of the line graph at `keys`: 100 x 30 and light
    /// blue by default.
    pub fn line_cfg(&self, keys: &[&str]) -> (r: Option<GraphConfig>)
        ensures
            r is Some <==> placed(self.raw, str_views(keys@)),
            r matches Some(c) ==> {
                let k = str_views(keys@);
                &&& Some(c.x) == i32_at(self.raw, k, "X"@)
                &&& Some(c.y) == i32_at(self.raw, k, "Y"@)
                &&& c.w == u32_at(self.raw, k, "WIDTH"@, 100)
                &&& c.h == u32_at(self.raw, k, "HEIGHT"@, 30)
                &&& c.color == color_at(self.raw, k, "LINE_COLOR"@, [0u8, 200u8, 255u8])
            },
    {
        self.graph_like(keys, 30, "LINE_COLOR", [0u8, 200u8, 255u8])
    }

    /// Where the icon at `keys` goes and its size, by default the icon's own.
    pub fn icon_cfg(&self, keys: &[&str], icon_w: u32, icon_h: u32) -> (r: Option<(i32, i32, u32, u32)>)
        ensures
            r is Some <==> placed(self.raw, str_views(keys@)),
            r matches Some((x, y, w, h)) ==> {
                let k = str_views(keys@);
                &&& Some(x) == i32_at(self.raw, k, "X"@)
                &&& Some(y) == i32_at(self.raw, k, "Y"@)
                &&& w == u32_at(self.raw, k, "WIDTH"@, icon_w)
                &&& h == u32_at(self.raw, k, "HEIGHT"@, icon_h)
            },
    {
        let show = self.get_bool(with_key(keys, "SHOW").as_slice());
        if show != Some(true) {
            return None;
        }
        let x = match self.get_i32(with_key(keys, "X").as_slice()) {
            Some(v) => v,
            None => {
                return None;
            },
        };
        let y = match self.get_i32(with_key(keys, "Y").as_slice()) {
            Some(v) => v,
            None => {
                return None;
            },
        };
        let w = match self.get_u32(with_key(keys, "WIDTH").as_slice()) {
            Some(v) => v,
            None => icon_w,
        };
        let h = match self.get_u32(with_key(keys, "HEIGHT").as_slice()) {
            Some(v) => v,
            None => icon_h,
        };
        Some((x, y, w, h))
    }
}

} // verus!
