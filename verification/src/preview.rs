//! What the theme editor finds in a theme: its elements, the fonts it names,
//! the fonts it may choose from, and names in sorted order.
use vstd::prelude::*;
use crate::text::{chars_of, string_from_chars};
use crate::yaml::{YamlValue, as_str_spec, find_key, get_spec, is_key, node_at_spec, string_views};

verus! {

pub open spec fn map_len(v: YamlValue) -> nat {
    match v {
        YamlValue::Mapping(es) => es@.len(),
        _ => 0,
    }
}

/// The paths (from `prefix`) of every mapping under `v` that has both an `X`
/// and a `Y` key, in document order, a mapping before the ones nested in it.
/// Only entries with string keys are descended into.
pub open spec fn elements_in(v: YamlValue, prefix: Seq<Seq<char>>) -> Seq<Seq<Seq<char>>>
    decreases v, map_len(v) + 1,
{
    match v {
        YamlValue::Mapping(es) => (if find_key(es@, "X"@) is Some && find_key(es@, "Y"@) is Some {
            seq![prefix]
        } else {
            seq![]
        }) + entries_elements(v, 0, prefix),
        _ => seq![],
    }
}

/// `elements_in` over the entries of mapping `v` from the `i`-th on.
pub open spec fn entries_elements(v: YamlValue, i: int, prefix: Seq<Seq<char>>) -> Seq<Seq<Seq<char>>>
    decreases v, map_len(v) - i,
{
    match v {
        YamlValue::Mapping(es) => if 0 <= i < es@.len() {
            (match es@[i].0 {
                YamlValue::String(k) => elements_in(es@[i].1, prefix.push(k@)),
                _ => seq![],
            }) + entries_elements(v, i + 1, prefix)
        } else {
            seq![]
        },
        _ => seq![],
    }
}

/// Whether two entries' keys are the same string.
pub open spec fn same_key(a: YamlValue, b: YamlValue) -> bool {
    a matches YamlValue::String(x) && b matches YamlValue::String(y) && x@ == y@
}

/// A tree as a YAML parser gives it: no mapping repeats a string key, and no
/// tag stands in the way (neither at the top nor as a mapping's value).
pub open spec fn well_keyed(v: YamlValue) -> bool
    decreases v, map_len(v) + 1,
{
    match v {
        YamlValue::Mapping(es) => (forall|i: int, j: int|
            0 <= i < j < es@.len() ==> !same_key(#[trigger] es@[i].0, #[trigger] es@[j].0))
            && entries_well_keyed(v, 0),
        YamlValue::Tagged(_) => false,
        _ => true,
    }
}

pub open spec fn entries_well_keyed(v: YamlValue, i: int) -> bool
    decreases v, map_len(v) - i,
{
    match v {
        YamlValue::Mapping(es) => if 0 <= i < es@.len() {
            well_keyed(es@[i].1) && entries_well_keyed(v, i + 1)
        } else {
            true
        },
        _ => true,
    }
}

/// A mapping with both an `X` and a `Y` key: an element of the theme.
pub open spec fn is_element(n: YamlValue) -> bool {
    n matches YamlValue::Mapping(es) && find_key(es@, "X"@) is Some && find_key(es@, "Y"@) is Some
}

/// `p` extends `prefix`, and the rest of it leads from `v` to an element.
pub open spec fn leads_to_element(v: YamlValue, prefix: Seq<Seq<char>>, p: Seq<Seq<char>>) -> bool {
    &&& prefix.len() <= p.len()
    &&& p.take(prefix.len() as int) == prefix
    &&& node_at_spec(v, p.skip(prefix.len() as int)) matches Some(n) && is_element(n)
}

proof fn lemma_find_key_at(es: Seq<(YamlValue, YamlValue)>, i: int, k: Seq<char>)
    requires
        0 <= i < es.len(),
        es[i].0 matches YamlValue::String(s) && s@ == k,
        forall|a: int, b: int| 0 <= a < b < es.len() ==> !same_key(#[trigger] es[a].0, #[trigger] es[b].0),
    ensures
        find_key(es, k) == Some(es[i].1),
    decreases i,
{
    if i > 0 {
        assert(!same_key(es[0].0, es[i].0));
        assert(!is_key(es[0].0, k));
        let t = es.drop_first();
        assert forall|a: int, b: int| 0 <= a < b < t.len() implies !same_key(#[trigger] t[a].0, #[trigger] t[b].0) by {
            assert(t[a] == es[a + 1] && t[b] == es[b + 1]);
        }
        lemma_find_key_at(t, i - 1, k);
    }
}

proof fn lemma_leads_shift(c: YamlValue, v: YamlValue, prefix: Seq<Seq<char>>, k: Seq<char>, p: Seq<Seq<char>>)
    requires
        get_spec(v, k) == Some(c),
        leads_to_element(c, prefix.push(k), p),
    ensures
        leads_to_element(v, prefix, p),
{
    let n = prefix.len() as int;
    let q = p.skip(n);
    assert(p.take(n) =~= p.take(n + 1).take(n));
    assert(prefix.push(k).take(n) =~= prefix);
    assert(q[0] == p[n]);
    assert(p.take(n + 1)[n] == k);
    assert(q.drop_first() =~= p.skip(n + 1));
}

proof fn lemma_elements_sound(v: YamlValue, prefix: Seq<Seq<char>>)
    requires
        well_keyed(v),
    ensures
        forall|k: int| 0 <= k < elements_in(v, prefix).len() ==> leads_to_element(v, prefix, #[trigger] elements_in(v, prefix)[k]),
    decreases v, map_len(v) + 1,
{
    match v {
        YamlValue::Mapping(es) => {
            let head: Seq<Seq<Seq<char>>> = if find_key(es@, "X"@) is Some && find_key(es@, "Y"@) is Some {
                seq![prefix]
            } else {
                seq![]
            };
            let rest = entries_elements(v, 0, prefix);
            lemma_entries_sound(v, 0, prefix);
            assert forall|k: int| 0 <= k < (head + rest).len() implies leads_to_element(v, prefix, #[trigger] (head + rest)[k]) by {
                if k < head.len() {
                    assert(prefix.take(prefix.len() as int) =~= prefix);
                    assert(prefix.skip(prefix.len() as int) =~= Seq::<Seq<char>>::empty());
                } else {
                    assert((head + rest)[k] == rest[k - head.len()]);
                }
            }
        },
        _ => {},
    }
}

proof fn lemma_entries_sound(v: YamlValue, i: int, prefix: Seq<Seq<char>>)
    requires
        well_keyed(v),
        entries_well_keyed(v, i),
        0 <= i,
    ensures
        forall|k: int|
            0 <= k < entries_elements(v, i, prefix).len() ==> leads_to_element(v, prefix, #[trigger] entries_elements(v, i, prefix)[k]),
    decreases v, map_len(v) - i,
{
    match v {
        YamlValue::Mapping(es) => {
            if i < es@.len() {
                lemma_entries_sound(v, i + 1, prefix);
                let rest = entries_elements(v, i + 1, prefix);
                match es@[i].0 {
                    YamlValue::String(key) => {
                        let c = es@[i].1;
                        let here = elements_in(c, prefix.push(key@));
                        lemma_elements_sound(c, prefix.push(key@));
                        lemma_find_key_at(es@, i, key@);
                        assert(get_spec(v, key@) == Some(c));
                        assert forall|k: int| 0 <= k < (here + rest).len() implies leads_to_element(v, prefix, #[trigger] (here + rest)[k]) by {
                            if k < here.len() {
                                assert((here + rest)[k] == here[k]);
                                lemma_leads_shift(c, v, prefix, key@, here[k]);
                            } else {
                                assert((here + rest)[k] == rest[k - here.len()]);
                            }
                        }
                    },
                    _ => {
                        assert(entries_elements(v, i, prefix) =~= rest);
                    },
                }
            }
        },
        _ => {},
    }
}

/// Every path the element scan finds (from the top of a parsed tree) leads to
/// a mapping that has both an `X` and a `Y`: each box of the editor is an element.
pub proof fn found_paths_are_elements(v: YamlValue)
    requires
        well_keyed(v),
    ensures
        forall|k: int|
            0 <= k < elements_in(v, seq![]).len() ==> (node_at_spec(v, #[trigger] elements_in(v, seq![])[k]) matches Some(
                n,
            ) && is_element(n)),
{
    lemma_elements_sound(v, seq![]);
    assert forall|k: int| 0 <= k < elements_in(v, seq![]).len() implies (node_at_spec(v, #[trigger] elements_in(v, seq![])[k]) matches Some(
        n,
    ) && is_element(n)) by {
        let p = elements_in(v, seq![])[k];
        assert(p.skip(0) =~= p);
    }
}

proof fn lemma_find_key_index(es: Seq<(YamlValue, YamlValue)>, k: Seq<char>) -> (i: int)
    requires
        find_key(es, k) is Some,
    ensures
        0 <= i < es.len(),
        is_key(es[i].0, k),
        Some(es[i].1) == find_key(es, k),
    decreases es.len(),
{
    if is_key(es[0].0, k) {
        0
    } else {
        let j = lemma_find_key_index(es.drop_first(), k);
        j + 1
    }
}

proof fn lemma_entries_keyed(v: YamlValue, j: int, i: int)
    requires
        v is Mapping,
        entries_well_keyed(v, j),
        0 <= j <= i < map_len(v),
    ensures
        v matches YamlValue::Mapping(es) && well_keyed(es@[i].1),
    decreases i - j,
{
    if j < i {
        lemma_entries_keyed(v, j + 1, i);
    }
}

proof fn lemma_entries_contain(v: YamlValue, j: int, i: int, prefix: Seq<Seq<char>>, p: Seq<Seq<char>>)
    requires
        0 <= j <= i < map_len(v),
        v matches YamlValue::Mapping(es) && es@[i].0 matches YamlValue::String(key) && elements_in(
            es@[i].1,
            prefix.push(key@),
        ).contains(p),
    ensures
        entries_elements(v, j, prefix).contains(p),
    decreases i - j,
{
    if let YamlValue::Mapping(es) = v {
        let here: Seq<Seq<Seq<char>>> = match es@[j].0 {
            YamlValue::String(key) => elements_in(es@[j].1, prefix.push(key@)),
            _ => seq![],
        };
        let rest = entries_elements(v, j + 1, prefix);
        assert(entries_elements(v, j, prefix) == here + rest);
        if j < i {
            lemma_entries_contain(v, j + 1, i, prefix, p);
            let w = choose|w: int| 0 <= w < rest.len() && rest[w] == p;
            assert((here + rest)[here.len() + w] == p);
        } else {
            let w = choose|w: int| 0 <= w < here.len() && here[w] == p;
            assert((here + rest)[w] == p);
        }
    }
}

proof fn lemma_elements_complete(v: YamlValue, prefix: Seq<Seq<char>>, q: Seq<Seq<char>>)
    requires
        well_keyed(v),
        node_at_spec(v, q) matches Some(n) && is_element(n),
    ensures
        elements_in(v, prefix).contains(prefix + q),
    decreases q.len(),
{
    if q.len() == 0 {
        assert(prefix + q =~= prefix);
        if let YamlValue::Mapping(es) = v {
            assert(elements_in(v, prefix)[0] == prefix);
        }
    } else {
        let key = q[0];
        let c = get_spec(v, key).unwrap();
        if let YamlValue::Mapping(es) = v {
            let i = lemma_find_key_index(es@, key);
            assert(es@[i].1 == c);
            lemma_entries_keyed(v, 0, i);
            lemma_elements_complete(c, prefix.push(key), q.drop_first());
            assert(prefix.push(key) + q.drop_first() =~= prefix + q);
            lemma_entries_contain(v, 0, i, prefix, prefix + q);
            let head: Seq<Seq<Seq<char>>> = if find_key(es@, "X"@) is Some && find_key(es@, "Y"@) is Some {
                seq![prefix]
            } else {
                seq![]
            };
            let rest = entries_elements(v, 0, prefix);
            let w = choose|w: int| 0 <= w < rest.len() && rest[w] == prefix + q;
            assert((head + rest)[head.len() + w] == prefix + q);
        }
    }
}

/// Every element of a parsed tree (a mapping with both an `X` and a `Y`,
/// reached from the top through string keys) is found by the element scan:
/// every element of a theme becomes a box in the editor.
pub proof fn elements_are_found(v: YamlValue, q: Seq<Seq<char>>)
    requires
        well_keyed(v),
        node_at_spec(v, q) matches Some(n) && is_element(n),
    ensures
        elements_in(v, seq![]).contains(q),
{
    lemma_elements_complete(v, seq![], q);
    assert(seq![] + q =~= q);
}

pub open spec fn path_views(v: Seq<Vec<String>>) -> Seq<Seq<Seq<char>>> {
    v.map_values(|p: Vec<String>| string_views(p@))
}

pub(crate) fn copy_path(path: &Vec<String>) -> (r: Vec<String>)
    ensures
        r@ == path@,
{
    let mut r: Vec<String> = Vec::new();
    let mut i: usize = 0;
    while i < path.len()
        invariant
            i <= path@.len(),
            r@ == path@.take(i as int),
        decreases path@.len() - i,
    {
        r.push(path[i].clone());
        i += 1;
        assert(r@ =~= path@.take(i as int));
    }
    assert(path@.take(i as int) =~= path@);
    r
}

fn has_key(es: &Vec<(YamlValue, YamlValue)>, key: &str) -> (r: bool)
    ensures
        r == find_key(es@, key@) is Some,
{
    let mut i: usize = 0;
    assert(es@.skip(0) =~= es@);
    while i < es.len()
        invariant
            i <= es@.len(),
            find_key(es@, key@) == find_key(es@.skip(i as int), key@),
        decreases es@.len() - i,
    {
        assert(es@.skip(i as int)[0] == es@[i as int]);
        assert(es@.skip(i as int).drop_first() =~= es@.skip(i + 1));
        if es[i].0.is_string_key(key) {
            return true;
        }
        i += 1;
    }
    assert(es@.skip(i as int) =~= Seq::<(YamlValue, YamlValue)>::empty());
    false
}

/// Collects the path of every element: every mapping, at any depth, that has
/// both `X` and `Y` keys.
pub fn scan_elements(value: &YamlValue, path: &mut Vec<String>, out: &mut Vec<Vec<String>>)
    ensures
        final(path)@ == old(path)@,
        path_views(final(out)@) == path_views(old(out)@) + elements_in(*value, string_views(old(path)@)),
    decreases value, map_len(*value) + 1,
{
    match value {
        YamlValue::Mapping(es) => {
            let ghost prefix = string_views(path@);
            let ghost out0 = path_views(out@);
            if has_key(es, "X") && has_key(es, "Y") {
                let p = copy_path(path);
                out.push(p);
                assert(path_views(out@) =~= out0 + seq![prefix]);
            } else {
                assert(path_views(out@) =~= out0 + seq![]);
            }
            let ghost out1 = path_views(out@);
            let mut i: usize = 0;
            assert(entries_elements(*value, 0, prefix) =~= entries_elements(*value, 0, prefix));
            while i < es.len()
                invariant
                    i <= es@.len(),
                    *value == YamlValue::Mapping(*es),
                    path@ == old(path)@,
                    prefix == string_views(path@),
                    path_views(out@) + entries_elements(*value, i as int, prefix) == out1 + entries_elements(
                        *value,
                        0,
                        prefix,
                    ),
                decreases es@.len() - i,
            {
                let ghost before = path_views(out@);
                match &es[i].0 {
                    YamlValue::String(k) => {
                        path.push(k.clone());
                        assert(string_views(path@) =~= prefix.push(k@));
                        scan_elements(&es[i].1, path, out);
                        let _ = path.pop();
                        assert(path@ =~= old(path)@);
                    },
                    _ => {},
                }
                assert(path_views(out@) + entries_elements(*value, i + 1, prefix) =~= before
                    + entries_elements(*value, i as int, prefix));
                i += 1;
            }
            assert(entries_elements(*value, i as int, prefix) =~= Seq::<Seq<Seq<char>>>::empty());
            assert(path_views(out@) =~= out1 + entries_elements(*value, 0, prefix));
            assert(elements_in(*value, prefix) == (if find_key(es@, "X"@) is Some && find_key(es@, "Y"@) is Some {
                seq![prefix]
            } else {
                seq![]
            }) + entries_elements(*value, 0, prefix));
            assert(path_views(out@) =~= out0 + elements_in(*value, prefix));
        },
        _ => {
            assert(path_views(out@) =~= path_views(out@) + Seq::<Seq<Seq<char>>>::empty());
        },
    }
}

/// Every `FONT:` string value under `v`, in document order. A `FONT` entry is
/// not descended into; every other entry is.
pub open spec fn fonts_in(v: YamlValue) -> Seq<Seq<char>>
    decreases v, map_len(v) + 1,
{
    match v {
        YamlValue::Mapping(es) => entries_fonts(v, 0),
        _ => seq![],
    }
}

pub open spec fn entries_fonts(v: YamlValue, i: int) -> Seq<Seq<char>>
    decreases v, map_len(v) - i,
{
    match v {
        YamlValue::Mapping(es) => if 0 <= i < es@.len() {
            (if is_key(es@[i].0, "FONT"@) {
                match as_str_spec(es@[i].1) {
                    Some(s) => seq![s],
                    None => seq![],
                }
            } else {
                fonts_in(es@[i].1)
            }) + entries_fonts(v, i + 1)
        } else {
            seq![]
        },
        _ => seq![],
    }
}

/// Collects every font a theme names.
pub fn collect_font_names(value: &YamlValue, out: &mut Vec<String>)
    ensures
        string_views(final(out)@) == string_views(old(out)@) + fonts_in(*value),
    decreases value, map_len(*value) + 1,
{
    match value {
        YamlValue::Mapping(es) => {
            let ghost out0 = string_views(out@);
            let mut i: usize = 0;
            assert(string_views(out@) + entries_fonts(*value, 0) =~= out0 + entries_fonts(*value, 0));
            while i < es.len()
                invariant
                    i <= es@.len(),
                    *value == YamlValue::Mapping(*es),
                    string_views(out@) + entries_fonts(*value, i as int) == out0 + entries_fonts(*value, 0),
                decreases es@.len() - i,
            {
                let ghost before = string_views(out@);
                if es[i].0.is_string_key("FONT") {
                    match es[i].1.as_str() {
                        Some(s) => {
                            out.push(s.clone());
                            assert(string_views(out@) =~= before.push(s@));
                        },
                        None => {},
                    }
                } else {
                    collect_font_names(&es[i].1, out);
                }
                assert(string_views(out@) + entries_fonts(*value, i + 1) =~= before + entries_fonts(
                    *value,
                    i as int,
                ));
                i += 1;
            }
            assert(entries_fonts(*value, i as int) =~= Seq::<Seq<char>>::empty());
            assert(string_views(out@) =~= out0 + fonts_in(*value));
        },
        _ => {
            assert(string_views(out@) =~= string_views(out@) + Seq::<Seq<char>>::empty());
        },
    }
}

} // verus!

verus! {

/// Strict lexicographic order on character sequences, as `str`'s `Ord` compares them.
pub open spec fn lex_lt(a: Seq<char>, b: Seq<char>) -> bool
    decreases a.len(),
{
    if a.len() == 0 {
        b.len() > 0
    } else if b.len() == 0 {
        false
    } else if a[0] == b[0] {
        lex_lt(a.drop_first(), b.drop_first())
    } else {
        (a[0] as u32) < (b[0] as u32)
    }
}

proof fn lemma_lex_irreflexive(a: Seq<char>)
    ensures
        !lex_lt(a, a),
    decreases a.len(),
{
    if a.len() > 0 {
        lemma_lex_irreflexive(a.drop_first());
    }
}

proof fn lemma_lex_trichotomy(a: Seq<char>, b: Seq<char>)
    ensures
        a == b || lex_lt(a, b) || lex_lt(b, a),
        !(lex_lt(a, b) && lex_lt(b, a)),
    decreases a.len(),
{
    if a.len() > 0 && b.len() > 0 {
        lemma_lex_trichotomy(a.drop_first(), b.drop_first());
        vstd::utf8::char_u32_cast(a[0], a[0] as u32);
        vstd::utf8::char_u32_cast(b[0], b[0] as u32);
        if a[0] == b[0] && a.drop_first() == b.drop_first() {
            assert(a =~= seq![a[0]] + a.drop_first());
            assert(b =~= seq![b[0]] + b.drop_first());
        }
    } else if a.len() == 0 && b.len() == 0 {
        assert(a =~= b);
    }
}

proof fn lemma_lex_transitive(a: Seq<char>, b: Seq<char>, c: Seq<char>)
    requires
        lex_lt(a, b),
        lex_lt(b, c),
    ensures
        lex_lt(a, c),
    decreases a.len(),
{
    if a.len() > 0 && b.len() > 0 && c.len() > 0 {
        if a[0] == b[0] && b[0] == c[0] {
            lemma_lex_transitive(a.drop_first(), b.drop_first(), c.drop_first());
        }
    }
}

/// Strictly increasing: sorted with no repeats.
pub open spec fn strictly_sorted(s: Seq<Seq<char>>) -> bool {
    forall|i: int, j: int| 0 <= i < j < s.len() ==> lex_lt(s[i], s[j])
}

fn lex_lt_exec(a: &Vec<char>, b: &Vec<char>) -> (r: bool)
    ensures
        r == lex_lt(a@, b@),
{
    let mut i: usize = 0;
    assert(a@.skip(0) =~= a@ && b@.skip(0) =~= b@);
    while i < a.len() && i < b.len() && a[i] == b[i]
        invariant
            i <= a@.len(),
            i <= b@.len(),
            lex_lt(a@, b@) == lex_lt(a@.skip(i as int), b@.skip(i as int)),
        decreases a@.len() - i,
    {
        assert(a@.skip(i as int).drop_first() =~= a@.skip(i + 1));
        assert(b@.skip(i as int).drop_first() =~= b@.skip(i + 1));
        i += 1;
    }
    if i == a.len() {
        assert(a@.skip(i as int).len() == 0);
        i < b.len()
    } else if i == b.len() {
        false
    } else {
        assert(a@.skip(i as int)[0] == a@[i as int]);
        assert(b@.skip(i as int)[0] == b@[i as int]);
        let ca = a[i];
        let cb = b[i];
        assert(ca != cb);
        (ca as u32) < (cb as u32)
    }
}

/// The font names available to a theme: those in its own folder and those in
/// the shared folder, sorted and without repeats.
pub fn scan_available_fonts(theme_fonts: Vec<String>, shared_fonts: Vec<String>) -> (r: Vec<String>)
    ensures
        strictly_sorted(string_views(r@)),
        forall|s: Seq<char>|
            string_views(r@).contains(s) <==> string_views(theme_fonts@).contains(s) || string_views(
                shared_fonts@,
            ).contains(s),
{
    let mut all = theme_fonts;
    let ghost tv = string_views(all@);
    let ghost sv = string_views(shared_fonts@);
    let mut k: usize = 0;
    while k < shared_fonts.len()
        invariant
            k <= shared_fonts@.len(),
            sv == string_views(shared_fonts@),
            string_views(all@) == tv + sv.take(k as int),
        decreases shared_fonts@.len() - k,
    {
        let ghost before = string_views(all@);
        all.push(shared_fonts[k].clone());
        assert(string_views(all@) =~= before.push(sv[k as int]));
        assert(sv.take(k + 1) =~= sv.take(k as int).push(sv[k as int]));
        k += 1;
    }
    assert(sv.take(k as int) =~= sv);
    let ghost av = string_views(all@);
    let mut out: Vec<String> = Vec::new();
    let mut cv: Vec<Vec<char>> = Vec::new();
    let mut i: usize = 0;
    while i < all.len()
        invariant
            i <= all@.len(),
            av == string_views(all@),
            av.len() == all@.len(),
            string_views(out@) == cv@.map_values(|c: Vec<char>| c@),
            strictly_sorted(string_views(out@)),
            forall|s: Seq<char>| string_views(out@).contains(s) <==> av.take(i as int).contains(s),
        decreases all@.len() - i,
    {
        let s = chars_of(all[i].as_str());
        assert(av[i as int] == s@);
        let ghost ov = string_views(out@);
        let mut j: usize = 0;
        while j < out.len() && lex_lt_exec(&cv[j], &s)
            invariant
                j <= out@.len(),
                ov == string_views(out@),
                ov == cv@.map_values(|c: Vec<char>| c@),
                ov.len() == out@.len(),
                forall|q: int| 0 <= q < j ==> lex_lt(ov[q], s@),
            decreases out@.len() - j,
        {
            assert(ov[j as int] == cv@[j as int]@);
            j += 1;
        }
        let dup = j < out.len() && !lex_lt_exec(&s, &cv[j]);
        let ghost cur = av.take(i as int);
        let ghost nxt = av.take(i + 1);
        proof {
            assert(nxt =~= cur.push(s@));
            if j < out@.len() {
                assert(ov[j as int] == cv@[j as int]@);
                lemma_lex_trichotomy(ov[j as int], s@);
            }
        }
        if dup {
            assert(ov[j as int] == s@);
            assert(ov.contains(s@));
            assert forall|t: Seq<char>| ov.contains(t) <==> nxt.contains(t) by {
                if t == s@ {
                    assert(nxt[i as int] == s@);
                } else if nxt.contains(t) {
                    let w = choose|w: int| 0 <= w < nxt.len() && nxt[w] == t;
                    assert(cur[w] == t);
                } else if ov.contains(t) {
                    let w = choose|w: int| 0 <= w < cur.len() && cur[w] == t;
                    assert(nxt[w] == t);
                }
            }
        } else {
            let ghost c_before = cv@.map_values(|c: Vec<char>| c@);
            out.insert(j, string_from_chars(&s));
            cv.insert(j, s);
            let ghost nv = string_views(out@);
            assert(nv =~= ov.insert(j as int, s@));
            assert(cv@.map_values(|c: Vec<char>| c@) =~= c_before.insert(j as int, s@));
            assert forall|p: int, q: int| 0 <= p < q < nv.len() implies lex_lt(nv[p], nv[q]) by {
                if q < j {
                } else if q == j {
                    assert(nv[p] == ov[p]);
                } else if p == j {
                    assert(nv[q] == ov[q - 1]);
                    if j < q - 1 {
                        assert(lex_lt(ov[j as int], ov[q - 1]));
                        lemma_lex_transitive(s@, ov[j as int], ov[q - 1]);
                    }
                } else if p < j {
                    assert(nv[p] == ov[p]);
                    assert(nv[q] == ov[q - 1]);
                } else {
                    assert(nv[p] == ov[p - 1]);
                    assert(nv[q] == ov[q - 1]);
                }
            }
            assert forall|t: Seq<char>| nv.contains(t) <==> nxt.contains(t) by {
                if t == s@ {
                    assert(nv[j as int] == s@);
                    assert(nxt[i as int] == s@);
                } else {
                    if nv.contains(t) {
                        let w = choose|w: int| 0 <= w < nv.len() && nv[w] == t;
                        if w < j {
                            assert(ov[w] == t);
                        } else {
                            assert(ov[w - 1] == t);
                        }
                        assert(ov.contains(t));
                        let z = choose|z: int| 0 <= z < cur.len() && cur[z] == t;
                        assert(nxt[z] == t);
                    }
                    if nxt.contains(t) {
                        let z = choose|z: int| 0 <= z < nxt.len() && nxt[z] == t;
                        assert(cur[z] == t);
                        assert(ov.contains(t));
                        let w = choose|w: int| 0 <= w < ov.len() && ov[w] == t;
                        if w < j {
                            assert(nv[w] == t);
                        } else {
                            assert(nv[w + 1] == t);
                        }
                    }
                }
            }
        }
        i += 1;
    }
    assert(av.take(i as int) =~= av);
    assert forall|s: Seq<char>| av.contains(s) <==> tv.contains(s) || sv.contains(s) by {
        if av.contains(s) {
            let w = choose|w: int| 0 <= w < av.len() && av[w] == s;
            if w < tv.len() {
                assert(tv[w] == s);
            } else {
                assert(sv[w - tv.len()] == s);
            }
        }
        if tv.contains(s) {
            let w = choose|w: int| 0 <= w < tv.len() && tv[w] == s;
            assert(av[w] == s);
        }
        if sv.contains(s) {
            let w = choose|w: int| 0 <= w < sv.len() && sv[w] == s;
            assert(av[w + tv.len()] == s);
        }
    }
    out
}

/// A strictly sorted list of names is fixed by which names it holds: the font
/// list does not depend on the order in which the folders were listed.
pub proof fn sorted_fonts_determined(a: Seq<Seq<char>>, b: Seq<Seq<char>>)
    requires
        strictly_sorted(a),
        strictly_sorted(b),
        forall|s: Seq<char>| a.contains(s) <==> b.contains(s),
    ensures
        a == b,
    decreases a.len(),
{
    if a.len() == 0 {
        if b.len() > 0 {
            assert(b.contains(b[0]));
        }
        assert(a =~= b);
    } else {
        assert(a.contains(a[0]));
        assert(b.len() > 0);
        assert(b.contains(b[0]));
        let ja = choose|j: int| 0 <= j < a.len() && a[j] == b[0];
        let jb = choose|j: int| 0 <= j < b.len() && b[j] == a[0];
        if a[0] != b[0] {
            assert(ja > 0 && jb > 0);
            assert(lex_lt(a[0], a[ja]));
            assert(lex_lt(b[0], b[jb]));
            lemma_lex_trichotomy(a[0], b[0]);
        }
        let ra = a.drop_first();
        let rb = b.drop_first();
        assert forall|j: int| 0 <= j < ra.len() implies ra[j] != a[0] by {
            assert(lex_lt(a[0], a[j + 1]));
            lemma_lex_irreflexive(a[0]);
        }
        assert forall|j: int| 0 <= j < rb.len() implies rb[j] != b[0] by {
            assert(lex_lt(b[0], b[j + 1]));
            lemma_lex_irreflexive(b[0]);
        }
        assert forall|s: Seq<char>| ra.contains(s) <==> rb.contains(s) by {
            if ra.contains(s) {
                let j = choose|j: int| 0 <= j < ra.len() && ra[j] == s;
                assert(a[j + 1] == s);
                assert(a.contains(s));
                let k = choose|k: int| 0 <= k < b.len() && b[k] == s;
                assert(k != 0);
                assert(rb[k - 1] == s);
            }
            if rb.contains(s) {
                let j = choose|j: int| 0 <= j < rb.len() && rb[j] == s;
                assert(b[j + 1] == s);
                assert(b.contains(s));
                let k = choose|k: int| 0 <= k < a.len() && a[k] == s;
                assert(k != 0);
                assert(ra[k - 1] == s);
            }
        }
        assert forall|i: int, j: int| 0 <= i < j < ra.len() implies lex_lt(ra[i], ra[j]) by {
            assert(ra[i] == a[i + 1] && ra[j] == a[j + 1]);
        }
        assert forall|i: int, j: int| 0 <= i < j < rb.len() implies lex_lt(rb[i], rb[j]) by {
            assert(rb[i] == b[i + 1] && rb[j] == b[j + 1]);
        }
        sorted_fonts_determined(ra, rb);
        assert(a =~= seq![a[0]] + ra);
        assert(b =~= seq![b[0]] + rb);
    }
}

/// In `str` order, equal names side by side.
pub open spec fn sorted_names(s: Seq<Seq<char>>) -> bool {
    forall|i: int, j: int| 0 <= i < j < s.len() ==> !lex_lt(s[j], s[i])
}

/// Sorts names in `str` order, keeping repeats (a stable insertion sort).
pub fn sort_names(names: Vec<String>) -> (r: Vec<String>)
    ensures
        sorted_names(string_views(r@)),
        string_views(r@).to_multiset() == string_views(names@).to_multiset(),
{
    broadcast use vstd::seq_lib::group_to_multiset_ensures;
    let ghost av = string_views(names@);
    let mut out: Vec<String> = Vec::new();
    let mut cv: Vec<Vec<char>> = Vec::new();
    let mut i: usize = 0;
    assert(av.take(0) =~= Seq::<Seq<char>>::empty());
    assert(string_views(out@) =~= Seq::<Seq<char>>::empty());
    while i < names.len()
        invariant
            i <= names@.len(),
            av == string_views(names@),
            av.len() == names@.len(),
            string_views(out@) == cv@.map_values(|c: Vec<char>| c@),
            sorted_names(string_views(out@)),
            string_views(out@).to_multiset() == av.take(i as int).to_multiset(),
        decreases names@.len() - i,
    {
        let s = chars_of(names[i].as_str());
        assert(av[i as int] == s@);
        let ghost ov = string_views(out@);
        let mut j: usize = 0;
        while j < out.len() && !lex_lt_exec(&s, &cv[j])
            invariant
                j <= out@.len(),
                ov == string_views(out@),
                ov == cv@.map_values(|c: Vec<char>| c@),
                ov.len() == out@.len(),
                forall|q: int| 0 <= q < j ==> !lex_lt(s@, ov[q]),
            decreases out@.len() - j,
        {
            assert(ov[j as int] == cv@[j as int]@);
            j += 1;
        }
        proof {
            if j < out@.len() {
                assert(ov[j as int] == cv@[j as int]@);
            }
        }
        let ghost c_before = cv@.map_values(|c: Vec<char>| c@);
        out.insert(j, string_from_chars(&s));
        cv.insert(j, s);
        let ghost nv = string_views(out@);
        assert(nv =~= ov.insert(j as int, s@));
        assert(cv@.map_values(|c: Vec<char>| c@) =~= c_before.insert(j as int, s@));
        assert forall|p: int, q: int| 0 <= p < q < nv.len() implies !lex_lt(nv[q], nv[p]) by {
            if q < j {
            } else if q == j {
                assert(nv[p] == ov[p]);
            } else if p == j {
                assert(nv[q] == ov[q - 1]);
                assert(lex_lt(s@, ov[j as int]));
                if j < q - 1 {
                    lemma_lex_trichotomy(ov[j as int], ov[q - 1]);
                    if ov[j as int] != ov[q - 1] {
                        lemma_lex_transitive(s@, ov[j as int], ov[q - 1]);
                    }
                }
                lemma_lex_trichotomy(s@, ov[q - 1]);
            } else if p < j {
                assert(nv[p] == ov[p]);
                assert(nv[q] == ov[q - 1]);
            } else {
                assert(nv[p] == ov[p - 1]);
                assert(nv[q] == ov[q - 1]);
            }
        }
        proof {
            vstd::seq_lib::to_multiset_insert(ov, j as int, s@);
            assert(av.take(i + 1) =~= av.take(i as int).push(s@));
            vstd::seq_lib::to_multiset_build(av.take(i as int), s@);
            assert(nv.to_multiset() == ov.to_multiset().insert(s@));
            assert(av.take(i + 1).to_multiset() == av.take(i as int).to_multiset().insert(s@));
        }
        i += 1;
    }
    assert(av.take(i as int) =~= av);
    out
}

} // verus!
