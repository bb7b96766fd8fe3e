//! Colours written as `"r, g, b"` text in config and theme files.
use vstd::prelude::*;
use crate::text::{
    all_digits, char_views, chars_of, decimal, decimal_chars, is_digit, is_space, lemma_decimal_digits,
    parse_i64, parse_i64_spec, parse_u8, parse_u8_spec, split, split_chars, string_from_chars, trim,
    trim_chars, trim_end,
};

verus! {

pub open spec fn or_zero(v: Option<u8>) -> u8 {
    match v {
        Some(x) => x,
        None => 0,
    }
}

pub open spec fn white() -> [u8; 3] {
    [255u8, 255u8, 255u8]
}

/// The colour `parse_color` reads: exactly three comma-separated fields, each
/// trimmed and read as a `u8` (0 where it is not one); white for any other
/// number of fields.
pub open spec fn parse_color_spec(s: Seq<char>) -> [u8; 3] {
    let parts = split(s, ',');
    if parts.len() == 3 {
        [
            or_zero(parse_u8_spec(trim(parts[0]))),
            or_zero(parse_u8_spec(trim(parts[1]))),
            or_zero(parse_u8_spec(trim(parts[2]))),
        ]
    } else {
        white()
    }
}

/// Reads a theme colour such as `"180, 80, 255"`.
pub fn parse_color(s: &str) -> (c: [u8; 3])
    ensures
        c == parse_color_spec(s@),
{
    let chars = chars_of(s);
    let parts = split_chars(&chars, ',');
    proof {
        assert(char_views(parts@).len() == parts@.len());
    }
    if parts.len() == 3 {
        assert(parts@[0]@ == split(s@, ',')[0]);
        assert(parts@[1]@ == split(s@, ',')[1]);
        assert(parts@[2]@ == split(s@, ',')[2]);
        let r = parse_u8(&trim_chars(&parts[0]));
        let g = parse_u8(&trim_chars(&parts[1]));
        let b = parse_u8(&trim_chars(&parts[2]));
        [unwrap_or_zero(r), unwrap_or_zero(g), unwrap_or_zero(b)]
    } else {
        [255, 255, 255]
    }
}

fn unwrap_or_zero(v: Option<u8>) -> (r: u8)
    ensures
        r == or_zero(v),
{
    match v {
        Some(x) => x,
        None => 0,
    }
}

/// The integers among `parts` (each trimmed), in order, skipping those that do not read as `i64`.
pub open spec fn parsed_ints(parts: Seq<Seq<char>>) -> Seq<i64>
    decreases parts.len(),
{
    if parts.len() == 0 {
        seq![]
    } else {
        let rest = parsed_ints(parts.drop_first());
        match parse_i64_spec(trim(parts[0])) {
            Some(v) => seq![v] + rest,
            None => rest,
        }
    }
}

pub open spec fn clamp_byte(v: i64) -> u8 {
    if v < 0 {
        0
    } else if v > 255 {
        255
    } else {
        v as u8
    }
}

/// The colour `parse_rgb_csv` reads: the fields that are integers, when there
/// are exactly three of them, each clamped to `0..=255`; white otherwise.
pub open spec fn parse_rgb_csv_spec(s: Seq<char>) -> [u8; 3] {
    let ints = parsed_ints(split(s, ','));
    if ints.len() == 3 {
        [clamp_byte(ints[0]), clamp_byte(ints[1]), clamp_byte(ints[2])]
    } else {
        white()
    }
}

fn clamp_byte_exec(v: i64) -> (r: u8)
    ensures
        r == clamp_byte(v),
{
    if v < 0 {
        0
    } else if v > 255 {
        255
    } else {
        v as u8
    }
}

/// Reads a colour the tolerant way the theme editor does: fields that are not
/// integers are skipped, out-of-range values are clamped.
pub fn parse_rgb_csv(s: &str) -> (c: [u8; 3])
    ensures
        c == parse_rgb_csv_spec(s@),
{
    let chars = chars_of(s);
    let parts = split_chars(&chars, ',');
    let ghost pv = char_views(parts@);
    let mut ints: Vec<i64> = Vec::new();
    let mut i = parts.len();
    // Walk backwards so that the list is built the way the specification recurses.
    proof {
        assert(pv.skip(pv.len() as int) =~= Seq::<Seq<char>>::empty());
    }
    let mut rev: Vec<i64> = Vec::new();
    while i > 0
        invariant
            i <= parts@.len(),
            pv == char_views(parts@),
            pv.len() == parts@.len(),
            rev@.reverse() == parsed_ints(pv.skip(i as int)),
        decreases i,
    {
        i -= 1;
        let t = trim_chars(&parts[i]);
        assert(pv[i as int] == parts@[i as int]@);
        assert(pv.skip(i as int).drop_first() =~= pv.skip(i + 1));
        let ghost before = rev@;
        match parse_i64(&t) {
            Some(v) => {
                rev.push(v);
                assert(rev@.reverse() =~= seq![v] + before.reverse());
            },
            None => {},
        }
    }
    let mut k = rev.len();
    while k > 0
        invariant
            k <= rev@.len(),
            ints@ == rev@.reverse().take(rev@.len() - k),
        decreases k,
    {
        k -= 1;
        ints.push(rev[k]);
        assert(ints@ =~= rev@.reverse().take(rev@.len() - k));
    }
    assert(pv.skip(0) =~= pv);
    assert(rev@.reverse().take(rev@.len() as int) =~= rev@.reverse());
    if ints.len() == 3 {
        [clamp_byte_exec(ints[0]), clamp_byte_exec(ints[1]), clamp_byte_exec(ints[2])]
    } else {
        [255, 255, 255]
    }
}

/// The colour written back as `"r, g, b"`.
pub open spec fn rgb_csv(c: [u8; 3]) -> Seq<char> {
    decimal(c[0] as nat) + seq![',', ' '] + decimal(c[1] as nat) + seq![',', ' '] + decimal(
        c[2] as nat,
    )
}

/// Writes a colour as `"r, g, b"`, the form the theme files use.
pub fn rgb_to_csv(rgb: [u8; 3]) -> (s: String)
    ensures
        s@ == rgb_csv(rgb),
{
    let mut v = decimal_chars(rgb[0] as u64);
    v.push(',');
    v.push(' ');
    let g = decimal_chars(rgb[1] as u64);
    let mut i: usize = 0;
    let ghost v0 = v@;
    while i < g.len()
        invariant
            i <= g@.len(),
            v@ == v0 + g@.take(i as int),
        decreases g@.len() - i,
    {
        v.push(g[i]);
        i += 1;
        assert(v@ =~= v0 + g@.take(i as int));
    }
    v.push(',');
    v.push(' ');
    let b = decimal_chars(rgb[2] as u64);
    let ghost v1 = v@;
    let mut j: usize = 0;
    while j < b.len()
        invariant
            j <= b@.len(),
            v@ == v1 + b@.take(j as int),
        decreases b@.len() - j,
    {
        v.push(b[j]);
        j += 1;
        assert(v@ =~= v1 + b@.take(j as int));
    }
    assert(g@.take(g@.len() as int) =~= g@);
    assert(b@.take(b@.len() as int) =~= b@);
    assert(v@ =~= rgb_csv(rgb));
    string_from_chars(&v)
}

pub open spec fn no_sep(s: Seq<char>, sep: char) -> bool {
    forall|i: int| 0 <= i < s.len() ==> s[i] != sep
}

proof fn lemma_split_no_sep(a: Seq<char>, sep: char)
    requires
        no_sep(a, sep),
    ensures
        split(a, sep) == seq![a],
    decreases a.len(),
{
    if a.len() > 0 {
        assert(no_sep(a.drop_first(), sep));
        lemma_split_no_sep(a.drop_first(), sep);
        assert(seq![a[0]] + a.drop_first() =~= a);
        assert(seq![a.drop_first()].update(0, seq![a[0]] + a.drop_first()) =~= seq![a]);
    } else {
        assert(a =~= Seq::<char>::empty());
    }
}

proof fn lemma_split_concat(a: Seq<char>, sep: char, rest: Seq<char>)
    requires
        no_sep(a, sep),
    ensures
        split(a + seq![sep] + rest, sep) == seq![a] + split(rest, sep),
    decreases a.len(),
{
    let s = a + seq![sep] + rest;
    if a.len() == 0 {
        assert(s.drop_first() =~= rest);
        assert(a =~= Seq::<char>::empty());
    } else {
        let a1 = a.drop_first();
        assert(no_sep(a1, sep));
        lemma_split_concat(a1, sep, rest);
        assert(s.drop_first() =~= a1 + seq![sep] + rest);
        let r = split(s.drop_first(), sep);
        assert(seq![a[0]] + a1 =~= a);
        assert(r.update(0, seq![s[0]] + r[0]) =~= seq![a] + split(rest, sep));
    }
}

proof fn lemma_digits_no_sep(d: Seq<char>)
    requires
        all_digits(d),
    ensures
        no_sep(d, ','),
        forall|i: int| 0 <= i < d.len() ==> !is_space(#[trigger] d[i]),
{
    assert forall|i: int| 0 <= i < d.len() implies d[i] != ',' && !is_space(#[trigger] d[i]) by {
        assert(is_digit(d[i]));
    }
}

proof fn lemma_trim_digits(d: Seq<char>, lead: Seq<char>)
    requires
        all_digits(d),
        d.len() > 0,
        forall|i: int| 0 <= i < lead.len() ==> is_space(#[trigger] lead[i]),
    ensures
        trim(lead + d) == d,
    decreases lead.len(),
{
    lemma_digits_no_sep(d);
    if lead.len() > 0 {
        assert((lead + d).drop_first() =~= lead.drop_first() + d);
        lemma_trim_digits(d, lead.drop_first());
    } else {
        assert(lead + d =~= d);
        assert(trim_end(d) == d);
    }
}

proof fn lemma_decimal_facts(n: u8)
    ensures
        all_digits(decimal(n as nat)),
        decimal(n as nat).len() > 0,
        no_sep(decimal(n as nat), ','),
        trim(decimal(n as nat)) == decimal(n as nat),
        trim(seq![' '] + decimal(n as nat)) == decimal(n as nat),
        parse_u8_spec(decimal(n as nat)) == Some(n),
        parse_i64_spec(decimal(n as nat)) == Some(n as i64),
{
    let d = decimal(n as nat);
    lemma_decimal_digits(n as nat);
    lemma_digits_no_sep(d);
    lemma_trim_digits(d, Seq::<char>::empty());
    assert(Seq::<char>::empty() + d =~= d);
    lemma_trim_digits(d, seq![' ']);
    assert(d[0] != '+' && d[0] != '-') by {
        assert(is_digit(d[0]));
    }
}

/// Writing a colour and reading it back with `parse_rgb_csv` gives the same colour.
pub proof fn rgb_csv_round_trip(c: [u8; 3])
    ensures
        parse_rgb_csv_spec(rgb_csv(c)) == c,
        parse_color_spec(rgb_csv(c)) == c,
{
    let d0 = decimal(c[0] as nat);
    let d1 = decimal(c[1] as nat);
    let d2 = decimal(c[2] as nat);
    lemma_decimal_facts(c[0]);
    lemma_decimal_facts(c[1]);
    lemma_decimal_facts(c[2]);
    let t1 = seq![' '] + d1;
    let t2 = seq![' '] + d2;
    assert(no_sep(t1, ',')) by {
        assert forall|i: int| 0 <= i < t1.len() implies t1[i] != ',' by {
            if i > 0 {
                assert(t1[i] == d1[i - 1]);
            }
        }
    }
    assert(no_sep(t2, ',')) by {
        assert forall|i: int| 0 <= i < t2.len() implies t2[i] != ',' by {
            if i > 0 {
                assert(t2[i] == d2[i - 1]);
            }
        }
    }
    let s = rgb_csv(c);
    assert(s =~= d0 + seq![','] + (t1 + seq![','] + t2));
    lemma_split_concat(d0, ',', t1 + seq![','] + t2);
    lemma_split_concat(t1, ',', t2);
    lemma_split_no_sep(t2, ',');
    let parts = split(s, ',');
    assert(parts =~= seq![d0, t1, t2]);
    let p2 = parts.drop_first().drop_first();
    assert(p2 =~= seq![t2]);
    assert(p2.drop_first() =~= Seq::<Seq<char>>::empty());
    assert(parsed_ints(p2.drop_first()) =~= Seq::<i64>::empty());
    assert(trim(p2[0]) == d2);
    assert(parsed_ints(p2) =~= seq![c[2] as i64]);
    assert(parsed_ints(parts.drop_first()) =~= seq![c[1] as i64, c[2] as i64]);
    assert(parsed_ints(parts) =~= seq![c[0] as i64, c[1] as i64, c[2] as i64]);
    assert(parse_rgb_csv_spec(s) =~= c);
    assert(parse_color_spec(s) =~= c);
}

} // verus!
