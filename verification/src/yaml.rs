//! A parsed YAML document as plain data, and the ways the theme code reads it.
use vstd::prelude::*;
use crate::text::{chars_of, eq_str};

verus! {

/// A YAML number as the parser classifies it. A float is carried as its IEEE
/// bit pattern; only the caller interprets it.
#[derive(Debug)]
pub enum YamlNumber {
    PosInt(u64),
    NegInt(i64),
    Float(u64),
}

/// A YAML node. Mappings keep their entries in document order.
#[derive(Debug)]
pub enum YamlValue {
    Null,
    Bool(bool),
    Number(YamlNumber),
    String(String),
    Sequence(Vec<YamlValue>),
    Mapping(Vec<(YamlValue, YamlValue)>),
    Tagged(Box<YamlValue>),
}

/// The node under any number of tags.
pub open spec fn untag(v: YamlValue) -> YamlValue
    decreases v,
{
    match v {
        YamlValue::Tagged(b) => untag(*b),
        _ => v,
    }
}

pub open spec fn is_key(k: YamlValue, key: Seq<char>) -> bool {
    k matches YamlValue::String(s) && s@ == key
}

/// The value of the first entry whose key is the string `key`.
pub open spec fn find_key(es: Seq<(YamlValue, YamlValue)>, key: Seq<char>) -> Option<YamlValue>
    decreases es.len(),
{
    if es.len() == 0 {
        None
    } else if is_key(es[0].0, key) {
        Some(es[0].1)
    } else {
        find_key(es.drop_first(), key)
    }
}

/// A mapping's value for `key`, looking through tags (`Value::get` with a string).
pub open spec fn get_spec(v: YamlValue, key: Seq<char>) -> Option<YamlValue> {
    match untag(v) {
        YamlValue::Mapping(es) => find_key(es@, key),
        _ => None,
    }
}

/// A mapping's value for `key`, without looking through tags.
pub open spec fn child_spec(v: YamlValue, key: Seq<char>) -> Option<YamlValue> {
    match v {
        YamlValue::Mapping(es) => find_key(es@, key),
        _ => None,
    }
}

/// The node reached by following `keys` from `v` through plain mappings.
pub open spec fn path_value(v: YamlValue, keys: Seq<Seq<char>>) -> Option<YamlValue>
    decreases keys.len(),
{
    if keys.len() == 0 {
        Some(v)
    } else {
        match child_spec(v, keys[0]) {
            Some(c) => path_value(c, keys.drop_first()),
            None => None,
        }
    }
}

/// The node reached by following `keys` from `v`, looking through tags.
pub open spec fn node_at_spec(v: YamlValue, keys: Seq<Seq<char>>) -> Option<YamlValue>
    decreases keys.len(),
{
    if keys.len() == 0 {
        Some(v)
    } else {
        match get_spec(v, keys[0]) {
            Some(c) => node_at_spec(c, keys.drop_first()),
            None => None,
        }
    }
}

pub open spec fn as_str_spec(v: YamlValue) -> Option<Seq<char>> {
    match untag(v) {
        YamlValue::String(s) => Some(s@),
        _ => None,
    }
}

pub open spec fn as_i64_spec(v: YamlValue) -> Option<i64> {
    match untag(v) {
        YamlValue::Number(YamlNumber::PosInt(n)) => if n <= i64::MAX {
            Some(n as i64)
        } else {
            None
        },
        YamlValue::Number(YamlNumber::NegInt(n)) => Some(n),
        _ => None,
    }
}

pub open spec fn as_u64_spec(v: YamlValue) -> Option<u64> {
    match untag(v) {
        YamlValue::Number(YamlNumber::PosInt(n)) => Some(n),
        _ => None,
    }
}

pub open spec fn as_bool_spec(v: YamlValue) -> Option<bool> {
    match untag(v) {
        YamlValue::Bool(b) => Some(b),
        _ => None,
    }
}

pub open spec fn str_views(v: Seq<&str>) -> Seq<Seq<char>> {
    v.map_values(|s: &str| s@)
}

pub open spec fn string_views(v: Seq<String>) -> Seq<Seq<char>> {
    v.map_values(|s: String| s@)
}

impl YamlValue {
    /// The node under any number of tags.
    pub fn untagged(&self) -> (r: &YamlValue)
        ensures
            *r == untag(*self),
        decreases self,
    {
        match self {
            YamlValue::Tagged(b) => b.untagged(),
            _ => self,
        }
    }

    /// Whether this is a string node equal to `key` (tags are not looked through).
    pub fn is_string_key(&self, key: &str) -> (r: bool)
        ensures
            r == is_key(*self, key@),
    {
        match self {
            YamlValue::String(s) => {
                let c = chars_of(s.as_str());
                eq_str(&c, key)
            },
            _ => false,
        }
    }

    /// The value of the first entry whose key is `key`, if this is a mapping
    /// (tags are not looked through).
    pub fn child(&self, key: &str) -> (r: Option<&YamlValue>)
        ensures
            r matches Some(c) ==> child_spec(*self, key@) == Some(*c),
            r is None ==> child_spec(*self, key@) is None,
    {
        match self {
            YamlValue::Mapping(es) => {
                let mut i: usize = 0;
                assert(es@.skip(0) =~= es@);
                while i < es.len()
                    invariant
                        i <= es@.len(),
                        child_spec(*self, key@) == find_key(es@, key@),
                        find_key(es@, key@) == find_key(es@.skip(i as int), key@),
                    decreases es@.len() - i,
                {
                    assert(es@.skip(i as int)[0] == es@[i as int]);
                    assert(es@.skip(i as int).drop_first() =~= es@.skip(i + 1));
                    if es[i].0.is_string_key(key) {
                        return Some(&es[i].1);
                    }
                    i += 1;
                }
                assert(es@.skip(i as int) =~= Seq::<(YamlValue, YamlValue)>::empty());
                None
            },
            _ => None,
        }
    }

    /// `Value::get` with a string key: looks through tags first.
    pub fn get(&self, key: &str) -> (r: Option<&YamlValue>)
        ensures
            r matches Some(c) ==> get_spec(*self, key@) == Some(*c),
            r is None ==> get_spec(*self, key@) is None,
    {
        self.untagged().child(key)
    }

    pub fn as_str(&self) -> (r: Option<&String>)
        ensures
            r matches Some(s) ==> as_str_spec(*self) == Some(s@),
            r is None ==> as_str_spec(*self) is None,
    {
        match self.untagged() {
            YamlValue::String(s) => Some(s),
            _ => None,
        }
    }

    pub fn as_i64(&self) -> (r: Option<i64>)
        ensures
            r == as_i64_spec(*self),
    {
        match self.untagged() {
            YamlValue::Number(YamlNumber::PosInt(n)) => if *n <= i64::MAX as u64 {
                Some(*n as i64)
            } else {
                None
            },
            YamlValue::Number(YamlNumber::NegInt(n)) => Some(*n),
            _ => None,
        }
    }

    pub fn as_u64(&self) -> (r: Option<u64>)
        ensures
            r == as_u64_spec(*self),
    {
        match self.untagged() {
            YamlValue::Number(YamlNumber::PosInt(n)) => Some(*n),
            _ => None,
        }
    }

    pub fn as_bool(&self) -> (r: Option<bool>)
        ensures
            r == as_bool_spec(*self),
    {
        match self.untagged() {
            YamlValue::Bool(b) => Some(*b),
            _ => None,
        }
    }
}

/// Follows `keys` from `value` through plain mappings (the theme loader's lookup).
pub fn get_yaml_value<'a>(value: &'a YamlValue, keys: &[&str]) -> (r: Option<&'a YamlValue>)
    ensures
        r matches Some(c) ==> path_value(*value, str_views(keys@)) == Some(*c),
        r is None ==> path_value(*value, str_views(keys@)) is None,
{
    let ghost kv = str_views(keys@);
    let mut current = value;
    let mut i: usize = 0;
    assert(kv.skip(0) =~= kv);
    while i < keys.len()
        invariant
            i <= keys@.len(),
            kv == str_views(keys@),
            kv.len() == keys@.len(),
            path_value(*value, kv) == path_value(*current, kv.skip(i as int)),
        decreases keys@.len() - i,
    {
        assert(kv.skip(i as int)[0] == keys@[i as int]@);
        assert(kv.skip(i as int).drop_first() =~= kv.skip(i + 1));
        match current.child(keys[i]) {
            Some(c) => {
                current = c;
            },
            None => {
                return None;
            },
        }
        i += 1;
    }
    assert(kv.skip(i as int) =~= Seq::<Seq<char>>::empty());
    Some(current)
}

/// Follows `path` from `yaml`, looking through tags at every step.
pub fn node_at<'a>(yaml: &'a YamlValue, path: &Vec<String>) -> (r: Option<&'a YamlValue>)
    ensures
        r matches Some(c) ==> node_at_spec(*yaml, string_views(path@)) == Some(*c),
        r is None ==> node_at_spec(*yaml, string_views(path@)) is None,
{
    let ghost kv = string_views(path@);
    let mut cur = yaml;
    let mut i: usize = 0;
    assert(kv.skip(0) =~= kv);
    while i < path.len()
        invariant
            i <= path@.len(),
            kv == string_views(path@),
            kv.len() == path@.len(),
            node_at_spec(*yaml, kv) == node_at_spec(*cur, kv.skip(i as int)),
        decreases path@.len() - i,
    {
        assert(kv.skip(i as int)[0] == path@[i as int]@);
        assert(kv.skip(i as int).drop_first() =~= kv.skip(i + 1));
        match cur.get(path[i].as_str()) {
            Some(c) => {
                cur = c;
            },
            None => {
                return None;
            },
        }
        i += 1;
    }
    assert(kv.skip(i as int) =~= Seq::<Seq<char>>::empty());
    Some(cur)
}

/// Following `a` and then `b` reaches the same node as following `a + b`.
pub proof fn path_value_append(v: YamlValue, a: Seq<Seq<char>>, b: Seq<Seq<char>>)
    ensures
        path_value(v, a + b) == match path_value(v, a) {
            Some(n) => path_value(n, b),
            None => None,
        },
    decreases a.len(),
{
    if a.len() > 0 {
        assert((a + b)[0] == a[0]);
        assert((a + b).drop_first() =~= a.drop_first() + b);
        match child_spec(v, a[0]) {
            Some(c) => path_value_append(c, a.drop_first(), b),
            None => {},
        }
    } else {
        assert(a + b =~= b);
    }
}

} // verus!
