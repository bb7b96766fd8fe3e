//! Reading the output of the LibreHardwareMonitor helper.
//!
//! The helper prints one sensor per line as `Hardware:Type:Name|value`; the
//! full program prints a JSON report. Both are reduced here to the choice of
//! which sensor supplies each reading. Whether a value is usable (it reads as
//! a number in the accepted range) is decided by the caller, which owns the
//! floating-point parsing, and handed in as a flag per entry.
use vstd::prelude::*;
use crate::text::{
    char_views, chars_of, concat_chars, contains, contains_str, eq_chars, eq_str, find_char,
    first_index, lemma_first_index, lowercase, lowercase_chars, split, split_chars,
    starts_with, starts_with_chars, string_from_chars, sub_chars, trim, trim_chars,
    eq_ignore_ascii_case, eq_ignore_ascii_case_str,
};
use crate::paths::{join_path, joined};
use crate::yaml::string_views;
use crate::cache::{elapsed, fresh_value, TimedCache};

verus! {

/// Where the helper lives and how often it is polled.
pub struct LhmSettings {
    pub path: Option<String>,
    pub refresh_interval_ms: u64,
}

impl LhmSettings {
    /// No configured folder; polled every three seconds.
    pub fn new() -> (s: LhmSettings)
        ensures
            s.path is None,
            s.refresh_interval_ms == 3000,
    {
        LhmSettings { path: None, refresh_interval_ms: 3000 }
    }
}

/// Records the configured LibreHardwareMonitor folder.
pub fn set_path(settings: &mut LhmSettings, path: String)
    ensures
        final(settings).path == Some(path),
        final(settings).refresh_interval_ms == old(settings).refresh_interval_ms,
{
    settings.path = Some(path);
}

/// Changes how often the helper is polled.
pub fn set_refresh_interval_ms(settings: &mut LhmSettings, ms: u64)
    ensures
        final(settings).refresh_interval_ms == ms,
        final(settings).path == old(settings).path,
{
    settings.refresh_interval_ms = ms;
}

/// The last helper reading if it is younger than the polling interval at
/// `now`; `None` means the helper is due to run again.
pub fn cached_reading<'a, T>(settings: &LhmSettings, cache: &'a TimedCache<T>, now: u64) -> (r: Option<&'a T>)
    ensures
        r matches Some(v) ==> fresh_value(cache.entry(), now, settings.refresh_interval_ms) == Some(*v),
        r is None ==> fresh_value(cache.entry(), now, settings.refresh_interval_ms) is None,
{
    cache.fresh(now, settings.refresh_interval_ms)
}

/// A reading stored at `t` is handed out again, without running the helper,
/// while it is younger than the interval last set by `set_refresh_interval_ms`
/// (three seconds by default), and the helper runs again from then on.
pub proof fn polling_interval_governs_reads<T>(settings: LhmSettings, t: u64, v: T, now: u64)
    ensures
        elapsed(t, now) < settings.refresh_interval_ms ==> fresh_value(
            Some((t, v)),
            now,
            settings.refresh_interval_ms,
        ) == Some(v),
        elapsed(t, now) >= settings.refresh_interval_ms ==> fresh_value(
            Some((t, v)),
            now,
            settings.refresh_interval_ms,
        ) is None,
{
}

/// One `key|value` line: the key before the first `|`, the value after it, trimmed.
pub open spec fn line_entry(line: Seq<char>) -> Option<(Seq<char>, Seq<char>)> {
    let i = first_index(line, '|');
    if i >= 0 {
        Some((line.take(i), trim(line.skip(i + 1))))
    } else {
        None
    }
}

/// Position of key `k` among the entries, or -1.
pub open spec fn key_pos(es: Seq<(Seq<char>, Seq<char>)>, k: Seq<char>) -> int
    decreases es.len(),
{
    if es.len() == 0 {
        -1
    } else if key_pos(es.drop_last(), k) >= 0 {
        key_pos(es.drop_last(), k)
    } else if es.last().0 == k {
        es.len() - 1
    } else {
        -1
    }
}

/// Inserting into a map: an existing key takes the new value in place, a new key goes last.
pub open spec fn upsert(es: Seq<(Seq<char>, Seq<char>)>, k: Seq<char>, v: Seq<char>) -> Seq<
    (Seq<char>, Seq<char>),
> {
    let p = key_pos(es, k);
    if p >= 0 {
        es.update(p, (k, v))
    } else {
        es.push((k, v))
    }
}

/// The helper's output as a map from key to value: every line that holds a
/// `|` contributes one entry, a later line overriding an earlier one with the
/// same key; keys keep the position of their first appearance.
///
/// Lines are taken as the pieces between `\n`s. This gives the same entries
/// as `str::lines`: the pieces that differ (a final empty piece, a trailing
/// `\r`) either hold no `|` or end in white space that trimming removes.
pub open spec fn pipe_map(lines: Seq<Seq<char>>) -> Seq<(Seq<char>, Seq<char>)>
    decreases lines.len(),
{
    if lines.len() == 0 {
        seq![]
    } else {
        let prev = pipe_map(lines.drop_last());
        match line_entry(lines.last()) {
            Some((k, v)) => upsert(prev, k, v),
            None => prev,
        }
    }
}

proof fn lemma_key_pos(es: Seq<(Seq<char>, Seq<char>)>, k: Seq<char>)
    ensures
        -1 <= key_pos(es, k) < es.len(),
        key_pos(es, k) >= 0 ==> es[key_pos(es, k)].0 == k,
        forall|j: int| 0 <= j < es.len() && (key_pos(es, k) < 0 || j < key_pos(es, k)) ==> es[j].0 != k,
    decreases es.len(),
{
    if es.len() > 0 {
        lemma_key_pos(es.drop_last(), k);
        assert forall|j: int| 0 <= j < es.len() - 1 implies es[j] == es.drop_last()[j] by {}
    }
}

/// The keys of a map built this way are pairwise distinct.
pub open spec fn distinct_keys(es: Seq<(Seq<char>, Seq<char>)>) -> bool {
    forall|i: int, j: int| 0 <= i < j < es.len() ==> es[i].0 != es[j].0
}

proof fn lemma_upsert_distinct(es: Seq<(Seq<char>, Seq<char>)>, k: Seq<char>, v: Seq<char>)
    requires
        distinct_keys(es),
    ensures
        distinct_keys(upsert(es, k, v)),
{
    lemma_key_pos(es, k);
}

/// Every key of the helper's output appears once in the map.
pub proof fn pipe_map_keys_distinct(lines: Seq<Seq<char>>)
    ensures
        distinct_keys(pipe_map(lines)),
    decreases lines.len(),
{
    if lines.len() > 0 {
        pipe_map_keys_distinct(lines.drop_last());
        match line_entry(lines.last()) {
            Some((k, v)) => lemma_upsert_distinct(pipe_map(lines.drop_last()), k, v),
            None => {},
        }
    }
}

/// A key/value pair of the helper's output.
pub struct PipeEntry {
    pub key: String,
    pub value: String,
}

pub open spec fn entry_views(es: Seq<PipeEntry>) -> Seq<(Seq<char>, Seq<char>)> {
    es.map_values(|e: PipeEntry| (e.key@, e.value@))
}

spec fn pair_views(es: Seq<(Vec<char>, Vec<char>)>) -> Seq<(Seq<char>, Seq<char>)> {
    es.map_values(|e: (Vec<char>, Vec<char>)| (e.0@, e.1@))
}

fn upsert_exec(es: &mut Vec<(Vec<char>, Vec<char>)>, k: Vec<char>, v: Vec<char>)
    ensures
        pair_views(final(es)@) == upsert(pair_views(old(es)@), k@, v@),
{
    let ghost pv = pair_views(es@);
    let ghost kv = k@;
    let ghost vv = v@;
    proof {
        lemma_key_pos(pv, k@);
    }
    let mut i: usize = 0;
    while i < es.len()
        invariant
            i <= es@.len(),
            pv == pair_views(es@),
            pv == pair_views(old(es)@),
            pv.len() == es@.len(),
            kv == k@,
            vv == v@,
            forall|j: int| 0 <= j < i ==> pv[j].0 != k@,
            -1 <= key_pos(pv, k@) < pv.len(),
            key_pos(pv, k@) >= 0 ==> pv[key_pos(pv, k@)].0 == k@,
            forall|j: int| 0 <= j < pv.len() && (key_pos(pv, k@) < 0 || j < key_pos(pv, k@)) ==> pv[j].0 != k@,
        decreases es@.len() - i,
    {
        assert(pv[i as int] == (es@[i as int].0@, es@[i as int].1@));
        if eq_chars(&es[i].0, &k) {
            assert(pv[i as int].0 == kv);
            assert(key_pos(pv, kv) == i);
            es.set(i, (k, v));
            assert(pair_views(es@) =~= pv.update(i as int, (kv, vv)));
            assert(upsert(pv, kv, vv) == pv.update(i as int, (kv, vv)));
            return ;
        }
        i += 1;
    }
    es.push((k, v));
    assert(key_pos(pv, kv) < 0);
    assert(pair_views(es@) =~= pv.push((kv, vv)));
}

/// Reads the helper's `key|value` output into a map (see `pipe_map`).
pub fn pipe_entries(raw: &str) -> (out: Vec<PipeEntry>)
    ensures
        entry_views(out@) == pipe_map(split(raw@, '\n')),
{
    let chars = chars_of(raw);
    let lines = split_chars(&chars, '\n');
    let ghost lv = char_views(lines@);
    let mut es: Vec<(Vec<char>, Vec<char>)> = Vec::new();
    let mut i: usize = 0;
    assert(pair_views(es@) =~= pipe_map(lv.take(0)));
    while i < lines.len()
        invariant
            i <= lines@.len(),
            lv == char_views(lines@),
            lv.len() == lines@.len(),
            pair_views(es@) == pipe_map(lv.take(i as int)),
        decreases lines@.len() - i,
    {
        let line = &lines[i];
        assert(lv.take(i + 1).drop_last() =~= lv.take(i as int));
        assert(lv.take(i + 1).last() == line@);
        proof {
            lemma_first_index(line@, '|');
        }
        match find_char(line, '|') {
            Some(idx) => {
                let key = sub_chars(line, 0, idx);
                let rest = sub_chars(line, idx + 1, line.len());
                let val = trim_chars(&rest);
                assert(key@ =~= line@.take(idx as int));
                assert(rest@ =~= line@.skip(idx + 1));
                upsert_exec(&mut es, key, val);
            },
            None => {},
        }
        i += 1;
    }
    assert(lv.take(lines@.len() as int) =~= lv);
    let mut out: Vec<PipeEntry> = Vec::new();
    let mut j: usize = 0;
    while j < es.len()
        invariant
            j <= es@.len(),
            pair_views(es@) == pipe_map(split(raw@, '\n')),
            entry_views(out@) == pair_views(es@).take(j as int),
        decreases es@.len() - j,
    {
        let e = PipeEntry { key: string_from_chars(&es[j].0), value: string_from_chars(&es[j].1) };
        let ghost prev = entry_views(out@);
        assert(pair_views(es@)[j as int] == (es@[j as int].0@, es@[j as int].1@));
        out.push(e);
        assert(entry_views(out@) =~= prev.push(pair_views(es@)[j as int]));
        j += 1;
        assert(entry_views(out@) =~= pair_views(es@).take(j as int));
    }
    assert(pair_views(es@).take(es@.len() as int) =~= pair_views(es@));
    out
}

/// A sensor that `find_sensor` may pick: the entry it came from and its name, lower-cased.
pub type Candidate = (int, Seq<char>);

/// The candidates contributed by entry `i` for hardware prefixes `hws[j..]`:
/// each prefix `hw:type:` that starts the key yields the rest of the key, if
/// the entry's value is usable.
pub open spec fn entry_candidates(
    key: Seq<char>,
    usable: bool,
    i: int,
    hws: Seq<Seq<char>>,
    sensor_type: Seq<char>,
) -> Seq<Candidate>
    decreases hws.len(),
{
    if hws.len() == 0 {
        seq![]
    } else {
        let prefix = hws[0] + seq![':'] + sensor_type + seq![':'];
        let rest = entry_candidates(key, usable, i, hws.drop_first(), sensor_type);
        if usable && starts_with(key, prefix) {
            seq![(i, lowercase(key.skip(prefix.len() as int)))] + rest
        } else {
            rest
        }
    }
}

/// All candidates, entry by entry, in map order.
pub open spec fn candidates(
    es: Seq<(Seq<char>, Seq<char>)>,
    usable: Seq<bool>,
    hws: Seq<Seq<char>>,
    sensor_type: Seq<char>,
) -> Seq<Candidate>
    decreases es.len(),
{
    if es.len() == 0 {
        seq![]
    } else {
        let n = es.len() - 1;
        candidates(es.drop_last(), usable, hws, sensor_type) + entry_candidates(
            es.last().0,
            usable[n],
            n,
            hws,
            sensor_type,
        )
    }
}

/// Index of the first candidate whose name contains `wanted`, or -1.
pub open spec fn first_named(cs: Seq<Candidate>, wanted: Seq<char>) -> int
    decreases cs.len(),
{
    if cs.len() == 0 {
        -1
    } else if contains(cs[0].1, wanted) {
        0
    } else {
        let r = first_named(cs.drop_first(), wanted);
        if r < 0 {
            -1
        } else {
            r + 1
        }
    }
}

/// The entry chosen: the first candidate matching the earliest name in the
/// priority list; failing that, the first candidate; `None` without candidates.
pub open spec fn pick(cs: Seq<Candidate>, priority: Seq<Seq<char>>) -> Option<int>
    decreases priority.len(),
{
    if cs.len() == 0 {
        None
    } else if priority.len() == 0 {
        Some(cs[0].0)
    } else {
        let f = first_named(cs, priority[0]);
        if f >= 0 {
            Some(cs[f].0)
        } else {
            pick(cs, priority.drop_first())
        }
    }
}

/// Entry `i` of the map is usable and its key starts with hardware `hws[k]`,
/// `:`, the sensor type and `:`; `name` is the rest of its key, lower-cased.
pub open spec fn matching_entry(
    es: Seq<(Seq<char>, Seq<char>)>,
    usable: Seq<bool>,
    hws: Seq<Seq<char>>,
    sensor_type: Seq<char>,
    i: int,
    name: Seq<char>,
) -> bool {
    &&& 0 <= i < es.len()
    &&& usable[i]
    &&& exists|k: int|
        0 <= k < hws.len() && starts_with(es[i].0, #[trigger] hws[k] + seq![':'] + sensor_type + seq![':'])
            && name == lowercase(es[i].0.skip((hws[k].len() + sensor_type.len() + 2) as int))
}

proof fn lemma_entry_candidates(key: Seq<char>, u: bool, i: int, hws: Seq<Seq<char>>, t: Seq<char>)
    ensures
        forall|c: Candidate| #[trigger] entry_candidates(key, u, i, hws, t).contains(c) <==> (c.0 == i && u && exists|k: int|
            0 <= k < hws.len() && starts_with(key, #[trigger] hws[k] + seq![':'] + t + seq![':']) && c.1
                == lowercase(key.skip((hws[k].len() + t.len() + 2) as int))),
    decreases hws.len(),
{
    if hws.len() > 0 {
        let d = hws.drop_first();
        lemma_entry_candidates(key, u, i, d, t);
        let prefix = hws[0] + seq![':'] + t + seq![':'];
        assert(prefix.len() == hws[0].len() + t.len() + 2);
        let rest = entry_candidates(key, u, i, d, t);
        assert forall|c: Candidate| #[trigger] entry_candidates(key, u, i, hws, t).contains(c) <==> (c.0 == i && u && exists|k: int|
            0 <= k < hws.len() && starts_with(key, #[trigger] hws[k] + seq![':'] + t + seq![':']) && c.1
                == lowercase(key.skip((hws[k].len() + t.len() + 2) as int))) by {
            let e = entry_candidates(key, u, i, hws, t);
            if u && starts_with(key, prefix) {
                assert(e == seq![(i, lowercase(key.skip(prefix.len() as int)))] + rest);
                if e.contains(c) {
                    let w = choose|w: int| 0 <= w < e.len() && e[w] == c;
                    if w == 0 {
                        assert(hws[0] + seq![':'] + t + seq![':'] == prefix);
                    } else {
                        assert(rest.contains(c)) by { assert(rest[w - 1] == c); }
                        let k = choose|k: int| 0 <= k < d.len() && starts_with(key, #[trigger] d[k] + seq![':'] + t + seq![':']) && c.1 == lowercase(key.skip((d[k].len() + t.len() + 2) as int));
                        assert(d[k] == hws[k + 1]);
                    }
                }
                if c.0 == i && u && exists|k: int| 0 <= k < hws.len() && starts_with(key, #[trigger] hws[k] + seq![':'] + t + seq![':']) && c.1 == lowercase(key.skip((hws[k].len() + t.len() + 2) as int)) {
                    let k = choose|k: int| 0 <= k < hws.len() && starts_with(key, #[trigger] hws[k] + seq![':'] + t + seq![':']) && c.1 == lowercase(key.skip((hws[k].len() + t.len() + 2) as int));
                    if k == 0 {
                        assert(e[0] == c);
                    } else {
                        assert(d[k - 1] == hws[k]);
                        assert(rest.contains(c));
                        let w = choose|w: int| 0 <= w < rest.len() && rest[w] == c;
                        assert(e[w + 1] == c);
                    }
                }
            } else {
                assert(e == rest);
                if e.contains(c) {
                    let k = choose|k: int| 0 <= k < d.len() && starts_with(key, #[trigger] d[k] + seq![':'] + t + seq![':']) && c.1 == lowercase(key.skip((d[k].len() + t.len() + 2) as int));
                    assert(d[k] == hws[k + 1]);
                }
                if c.0 == i && u && exists|k: int| 0 <= k < hws.len() && starts_with(key, #[trigger] hws[k] + seq![':'] + t + seq![':']) && c.1 == lowercase(key.skip((hws[k].len() + t.len() + 2) as int)) {
                    let k = choose|k: int| 0 <= k < hws.len() && starts_with(key, #[trigger] hws[k] + seq![':'] + t + seq![':']) && c.1 == lowercase(key.skip((hws[k].len() + t.len() + 2) as int));
                    assert(k != 0);
                    assert(d[k - 1] == hws[k]);
                }
            }
        }
    }
}

/// The candidates for a reading are exactly the usable map entries whose key
/// starts with one of the listed hardware names, `:`, the sensor type and
/// `:`, each with the rest of its key lower-cased as its name, and they come
/// in map order.
#[verifier::spinoff_prover]
pub proof fn candidates_are_the_matching_entries(
    es: Seq<(Seq<char>, Seq<char>)>,
    usable: Seq<bool>,
    hws: Seq<Seq<char>>,
    sensor_type: Seq<char>,
)
    requires
        usable.len() == es.len(),
    ensures
        forall|c: Candidate| #[trigger] candidates(es, usable, hws, sensor_type).contains(c) <==> matching_entry(
            es,
            usable,
            hws,
            sensor_type,
            c.0,
            c.1,
        ),
        forall|a: int, b: int|
            0 <= a < b < candidates(es, usable, hws, sensor_type).len() ==> #[trigger] candidates(es, usable, hws, sensor_type)[a].0
                <= #[trigger] candidates(es, usable, hws, sensor_type)[b].0,
    decreases es.len(),
{
    if es.len() > 0 {
        let n = es.len() - 1;
        let de = es.drop_last();
        let du = usable.drop_last();
        candidates_are_the_matching_entries(de, du, hws, sensor_type);
        lemma_entry_candidates(es.last().0, usable[n], n, hws, sensor_type);
        let front = candidates(de, du, hws, sensor_type);
        let back = entry_candidates(es.last().0, usable[n], n, hws, sensor_type);
        let all = candidates(es, usable, hws, sensor_type);
        assert(forall|j: int| 0 <= j < de.len() ==> de[j] == es[j] && du[j] == usable[j]);
        lemma_candidates_last_usable(es, usable, hws, sensor_type);
        assert(all == front + back);
        assert forall|c: Candidate| #[trigger] all.contains(c) <==> matching_entry(es, usable, hws, sensor_type, c.0, c.1) by {
            if 0 <= c.0 < n {
                lemma_matching_entry_prefix(es, usable, hws, sensor_type, c.0, c.1);
            }
            if all.contains(c) {
                let w = choose|w: int| 0 <= w < all.len() && all[w] == c;
                if w < front.len() {
                    assert(front.contains(c)) by { assert(front[w] == c); }
                    assert(matching_entry(de, du, hws, sensor_type, c.0, c.1));
                    lemma_matching_entry_prefix(es, usable, hws, sensor_type, c.0, c.1);
                } else {
                    assert(back.contains(c)) by { assert(back[w - front.len()] == c); }
                }
            }
            if matching_entry(es, usable, hws, sensor_type, c.0, c.1) {
                if c.0 < n {
                    assert(matching_entry(de, du, hws, sensor_type, c.0, c.1));
                    assert(front.contains(c));
                    let w = choose|w: int| 0 <= w < front.len() && front[w] == c;
                    assert(all[w] == c);
                } else {
                    assert(back.contains(c));
                    let w = choose|w: int| 0 <= w < back.len() && back[w] == c;
                    assert(all[front.len() + w] == c);
                }
            }
        }
        assert forall|a: int, b: int| 0 <= a < b < all.len() implies #[trigger] all[a].0 <= #[trigger] all[b].0 by {
            if b < front.len() {
                assert(all[a] == front[a] && all[b] == front[b]);
            } else {
                assert(all[b] == back[b - front.len()]);
                assert(back.contains(all[b]));
                if a < front.len() {
                    assert(all[a] == front[a]);
                    assert(front.contains(front[a]));
                } else {
                    assert(all[a] == back[a - front.len()]);
                    assert(back.contains(all[a]));
                }
            }
        }
    }
}

proof fn lemma_matching_entry_prefix(
    es: Seq<(Seq<char>, Seq<char>)>,
    usable: Seq<bool>,
    hws: Seq<Seq<char>>,
    sensor_type: Seq<char>,
    i: int,
    name: Seq<char>,
)
    requires
        es.len() > 0,
        usable.len() == es.len(),
        0 <= i < es.len() - 1,
    ensures
        matching_entry(es.drop_last(), usable.drop_last(), hws, sensor_type, i, name) == matching_entry(
            es,
            usable,
            hws,
            sensor_type,
            i,
            name,
        ),
{
    assert(es.drop_last()[i] == es[i]);
    assert(usable.drop_last()[i] == usable[i]);
}

proof fn lemma_candidates_last_usable(
    es: Seq<(Seq<char>, Seq<char>)>,
    usable: Seq<bool>,
    hws: Seq<Seq<char>>,
    sensor_type: Seq<char>,
)
    requires
        es.len() > 0,
        usable.len() == es.len(),
    ensures
        candidates(es, usable, hws, sensor_type) == candidates(es.drop_last(), usable, hws, sensor_type)
            + entry_candidates(es.last().0, usable[es.len() - 1], es.len() - 1, hws, sensor_type),
        candidates(es.drop_last(), usable, hws, sensor_type) == candidates(es.drop_last(), usable.drop_last(), hws, sensor_type),
{
    lemma_candidates_usable_prefix(es.drop_last(), usable, usable.drop_last(), hws, sensor_type);
}

proof fn lemma_candidates_usable_prefix(
    es: Seq<(Seq<char>, Seq<char>)>,
    u1: Seq<bool>,
    u2: Seq<bool>,
    hws: Seq<Seq<char>>,
    sensor_type: Seq<char>,
)
    requires
        forall|j: int| 0 <= j < es.len() ==> u1[j] == u2[j],
    ensures
        candidates(es, u1, hws, sensor_type) == candidates(es, u2, hws, sensor_type),
    decreases es.len(),
{
    if es.len() > 0 {
        lemma_candidates_usable_prefix(es.drop_last(), u1, u2, hws, sensor_type);
    }
}

/// Some candidate's name contains `wanted`.
pub open spec fn some_named(cs: Seq<Candidate>, wanted: Seq<char>) -> bool {
    exists|j: int| 0 <= j < cs.len() && contains(#[trigger] cs[j].1, wanted)
}

proof fn lemma_first_named(cs: Seq<Candidate>, wanted: Seq<char>)
    ensures
        first_named(cs, wanted) >= 0 ==> first_named(cs, wanted) < cs.len() && contains(
            cs[first_named(cs, wanted)].1,
            wanted,
        ) && forall|j: int| 0 <= j < first_named(cs, wanted) ==> !contains(#[trigger] cs[j].1, wanted),
        first_named(cs, wanted) < 0 <==> !some_named(cs, wanted),
    decreases cs.len(),
{
    if cs.len() > 0 {
        let d = cs.drop_first();
        lemma_first_named(d, wanted);
        assert forall|j: int| 0 <= j < d.len() implies d[j] == cs[j + 1] by {}
        if !contains(cs[0].1, wanted) && some_named(cs, wanted) {
            let j = choose|j: int| 0 <= j < cs.len() && contains(#[trigger] cs[j].1, wanted);
            assert(j > 0);
            assert(contains(d[j - 1].1, wanted));
        }
        if some_named(d, wanted) {
            let j = choose|j: int| 0 <= j < d.len() && contains(#[trigger] d[j].1, wanted);
            assert(contains(cs[j + 1].1, wanted));
        }
        if first_named(cs, wanted) > 0 {
            assert forall|j: int| 0 <= j < first_named(cs, wanted) implies !contains(#[trigger] cs[j].1, wanted) by {
                if j > 0 {
                    assert(cs[j] == d[j - 1]);
                }
            }
        }
    } else {
        assert(!some_named(cs, wanted));
    }
}

/// What the pick among the candidates means: no candidates, nothing picked;
/// otherwise, if some candidate's name contains a name of the priority list,
/// the pick is the first candidate (in order) containing the earliest such
/// name of the list, and no candidate contains any earlier name; if none
/// does, the pick is the first candidate.
#[verifier::spinoff_prover]
#[verifier::rlimit(40)]
pub proof fn pick_prefers_earliest_listed_name(cs: Seq<Candidate>, priority: Seq<Seq<char>>)
    ensures
        cs.len() == 0 ==> pick(cs, priority) is None,
        cs.len() > 0 ==> pick(cs, priority) is Some,
        cs.len() > 0 && (forall|p: int| 0 <= p < priority.len() ==> !some_named(cs, #[trigger] priority[p]))
            ==> pick(cs, priority) == Some(cs[0].0),
        forall|p: int|
            0 <= p < priority.len() && some_named(cs, #[trigger] priority[p]) && (forall|q: int|
                0 <= q < p ==> !some_named(cs, #[trigger] priority[q])) ==> exists|j: int|
                0 <= j < cs.len() && pick(cs, priority) == Some(#[trigger] cs[j].0) && contains(cs[j].1, priority[p])
                    && forall|k: int| 0 <= k < j ==> !contains(#[trigger] cs[k].1, priority[p]),
    decreases priority.len(),
{
    if cs.len() > 0 && priority.len() > 0 {
        let d = priority.drop_first();
        pick_prefers_earliest_listed_name(cs, d);
        lemma_first_named(cs, priority[0]);
        assert forall|p: int|
            0 <= p < priority.len() && some_named(cs, #[trigger] priority[p]) && (forall|q: int|
                0 <= q < p ==> !some_named(cs, #[trigger] priority[q])) implies exists|j: int|
                0 <= j < cs.len() && pick(cs, priority) == Some(#[trigger] cs[j].0) && contains(cs[j].1, priority[p])
                    && forall|k: int| 0 <= k < j ==> !contains(#[trigger] cs[k].1, priority[p]) by {
            if p == 0 {
                let f = first_named(cs, priority[0]);
                assert(pick(cs, priority) == Some(cs[f].0));
            } else {
                assert(!some_named(cs, priority[0]));
                assert(d[p - 1] == priority[p]);
                assert forall|q: int| 0 <= q < p - 1 implies !some_named(cs, #[trigger] d[q]) by {
                    assert(d[q] == priority[q + 1]);
                }
            }
        }
        if forall|p: int| 0 <= p < priority.len() ==> !some_named(cs, #[trigger] priority[p]) {
            assert(!some_named(cs, priority[0]));
            assert forall|p: int| 0 <= p < d.len() implies !some_named(cs, #[trigger] d[p]) by {
                assert(d[p] == priority[p + 1]);
            }
        }
    }
}

pub open spec fn str_views(v: Seq<&str>) -> Seq<Seq<char>> {
    v.map_values(|s: &str| s@)
}

/// The sensor that supplies a reading, as `find_sensor` chooses it.
pub open spec fn find_sensor_spec(
    es: Seq<(Seq<char>, Seq<char>)>,
    usable: Seq<bool>,
    hws: Seq<Seq<char>>,
    sensor_type: Seq<char>,
    priority: Seq<Seq<char>>,
) -> Option<int> {
    pick(candidates(es, usable, hws, sensor_type), priority)
}

spec fn cand_view(cs: Seq<(usize, Vec<char>)>) -> Seq<Candidate> {
    cs.map_values(|c: (usize, Vec<char>)| (c.0 as int, c.1@))
}

fn first_named_exec(cs: &Vec<(usize, Vec<char>)>, wanted: &str) -> (r: Option<usize>)
    ensures
        r matches Some(f) ==> f == first_named(cand_view(cs@), wanted@) && f < cs@.len(),
        r is None ==> first_named(cand_view(cs@), wanted@) < 0,
{
    let ghost cv = cand_view(cs@);
    let mut i = cs.len();
    let mut found: Option<usize> = None;
    while i > 0
        invariant
            i <= cs@.len(),
            cv == cand_view(cs@),
            cv.len() == cs@.len(),
            found matches Some(f) ==> f < cs@.len() && i <= f && f == first_named(cv.skip(i as int), wanted@) + i,
            found is None ==> first_named(cv.skip(i as int), wanted@) < 0,
        decreases i,
    {
        i -= 1;
        assert(cv.skip(i as int).drop_first() =~= cv.skip(i + 1));
        assert(cv.skip(i as int)[0] == (cs@[i as int].0 as int, cs@[i as int].1@));
        if contains_str(&cs[i].1, wanted) {
            found = Some(i);
        } else {
            match found {
                Some(f) => {},
                None => {},
            }
        }
    }
    assert(cv.skip(0) =~= cv);
    found
}

/// Chooses the sensor for one reading from the helper's `key|value` map.
/// `usable[i]` says whether the value of entry `i` reads as a number strictly
/// between 0 and 10000. Returns the index of the chosen entry.
pub fn find_sensor(
    map: &Vec<PipeEntry>,
    usable: &Vec<bool>,
    hw_prefixes: &[&str],
    sensor_type: &str,
    name_priority: &[&str],
) -> (r: Option<usize>)
    requires
        usable@.len() == map@.len(),
    ensures
        r matches Some(i) ==> find_sensor_spec(
            entry_views(map@),
            usable@,
            str_views(hw_prefixes@),
            sensor_type@,
            str_views(name_priority@),
        ) == Some(i as int),
        r is None ==> find_sensor_spec(
            entry_views(map@),
            usable@,
            str_views(hw_prefixes@),
            sensor_type@,
            str_views(name_priority@),
        ) is None,
{
    let ghost ev = entry_views(map@);
    let ghost hv = str_views(hw_prefixes@);
    let st = chars_of(sensor_type);
    let mut cs: Vec<(usize, Vec<char>)> = Vec::new();
    let mut i: usize = 0;
    assert(ev.take(0) =~= Seq::<(Seq<char>, Seq<char>)>::empty());
    while i < map.len()
        invariant
            i <= map@.len(),
            usable@.len() == map@.len(),
            ev == entry_views(map@),
            ev.len() == map@.len(),
            hv == str_views(hw_prefixes@),
            st@ == sensor_type@,
            cand_view(cs@) == candidates(ev.take(i as int), usable@, hv, sensor_type@),
            forall|q: int| 0 <= q < cs@.len() ==> #[trigger] cs@[q].0 < map@.len(),
        decreases map@.len() - i,
    {
        let key = chars_of(map[i].key.as_str());
        assert(ev[i as int].0 == key@);
        let ghost before = cand_view(cs@);
        // the candidates of entry i, prefix by prefix
        let mut extra: Vec<(usize, Vec<char>)> = Vec::new();
        let mut j = hw_prefixes.len();
        assert(hv.skip(hv.len() as int) =~= Seq::<Seq<char>>::empty());
        while j > 0
            invariant
                j <= hw_prefixes@.len(),
                i < map@.len(),
                usable@.len() == map@.len(),
                hv == str_views(hw_prefixes@),
                hv.len() == hw_prefixes@.len(),
                st@ == sensor_type@,
                cand_view(extra@) == entry_candidates(key@, usable@[i as int], i as int, hv.skip(j as int), sensor_type@),
                forall|q: int| 0 <= q < extra@.len() ==> #[trigger] extra@[q].0 == i,
            decreases j,
        {
            j -= 1;
            assert(hv.skip(j as int).drop_first() =~= hv.skip(j + 1));
            assert(hv.skip(j as int)[0] == hw_prefixes@[j as int]@);
            let hw = chars_of(hw_prefixes[j]);
            let colon = vec![':'];
            let p1 = concat_chars(&hw, &colon);
            let p2 = concat_chars(&p1, &st);
            let prefix = concat_chars(&p2, &colon);
            assert(prefix@ =~= hv.skip(j as int)[0] + seq![':'] + sensor_type@ + seq![':']);
            if usable[i] && starts_with_chars(&key, &prefix) {
                let name = sub_chars(&key, prefix.len(), key.len());
                assert(name@ =~= key@.skip(prefix@.len() as int));
                let lname = lowercase_chars(&name);
                let ghost tail = cand_view(extra@);
                let mut next: Vec<(usize, Vec<char>)> = Vec::new();
                next.push((i, lname));
                let mut q: usize = 0;
                assert(cand_view(next@) =~= seq![(i as int, lowercase(key@.skip(prefix@.len() as int)))]);
                while q < extra.len()
                    invariant
                        q <= extra@.len(),
                        tail == cand_view(extra@),
                        forall|z: int| 0 <= z < extra@.len() ==> #[trigger] extra@[z].0 == i,
                        forall|z: int| 0 <= z < next@.len() ==> #[trigger] next@[z].0 == i,
                        cand_view(next@) == seq![(i as int, lowercase(key@.skip(prefix@.len() as int)))] + tail.take(q as int),
                    decreases extra@.len() - q,
                {
                    let item = (extra[q].0, sub_chars(&extra[q].1, 0, extra[q].1.len()));
                    assert(extra@[q as int].1@.subrange(0, extra@[q as int].1@.len() as int) =~= extra@[q as int].1@);
                    assert(tail[q as int] == (item.0 as int, item.1@));
                    let ghost pn = cand_view(next@);
                    next.push(item);
                    assert(cand_view(next@) =~= pn.push(tail[q as int]));
                    q += 1;
                    assert(cand_view(next@) =~= seq![(i as int, lowercase(key@.skip(prefix@.len() as int)))] + tail.take(q as int));
                }
                assert(tail.take(extra@.len() as int) =~= tail);
                extra = next;
            }
        }
        assert(hv.skip(0) =~= hv);
        let mut q: usize = 0;
        let ghost ex = cand_view(extra@);
        while q < extra.len()
            invariant
                q <= extra@.len(),
                i < map@.len(),
                ex == cand_view(extra@),
                forall|z: int| 0 <= z < extra@.len() ==> #[trigger] extra@[z].0 == i,
                forall|z: int| 0 <= z < cs@.len() ==> #[trigger] cs@[z].0 < map@.len(),
                cand_view(cs@) == before + ex.take(q as int),
            decreases extra@.len() - q,
        {
            let item = (extra[q].0, sub_chars(&extra[q].1, 0, extra[q].1.len()));
            assert(extra@[q as int].1@.subrange(0, extra@[q as int].1@.len() as int) =~= extra@[q as int].1@);
            assert(ex[q as int] == (item.0 as int, item.1@));
            let ghost pc = cand_view(cs@);
            cs.push(item);
            assert(cand_view(cs@) =~= pc.push(ex[q as int]));
            q += 1;
            assert(cand_view(cs@) =~= before + ex.take(q as int));
        }
        assert(ex.take(extra@.len() as int) =~= ex);
        assert(ev.take(i + 1).drop_last() =~= ev.take(i as int));
        i += 1;
    }
    assert(ev.take(map@.len() as int) =~= ev);
    let ghost cv = cand_view(cs@);
    if cs.len() == 0 {
        return None;
    }
    let ghost pv = str_views(name_priority@);
    assert(pv.skip(0) =~= pv);
    let mut k: usize = 0;
    while k < name_priority.len()
        invariant
            k <= name_priority@.len(),
            cs@.len() > 0,
            cv == cand_view(cs@),
            cv == candidates(ev, usable@, hv, sensor_type@),
            ev == entry_views(map@),
            hv == str_views(hw_prefixes@),
            pv == str_views(name_priority@),
            pv.len() == name_priority@.len(),
            pick(cv, pv) == pick(cv, pv.skip(k as int)),
        decreases name_priority@.len() - k,
    {
        assert(pv.skip(k as int)[0] == name_priority@[k as int]@);
        assert(pv.skip(k as int).drop_first() =~= pv.skip(k + 1));
        match first_named_exec(&cs, name_priority[k]) {
            Some(f) => {
                assert(cv[f as int].0 == cs@[f as int].0 as int);
                assert(pick(cv, pv.skip(k as int)) == Some(cv[f as int].0));
                return Some(cs[f].0);
            },
            None => {},
        }
        k += 1;
    }
    assert(pv.skip(name_priority@.len() as int) =~= Seq::<Seq<char>>::empty());
    assert(cv[0].0 == cs@[0].0 as int);
    Some(cs[0].0)
}

} // verus!

verus! {

/// For each reading, the index of the entry (or sensor) that supplies it.
pub struct SensorChoice {
    pub cpu_temp: Option<usize>,
    pub gpu_temp: Option<usize>,
    pub gpu_mem_junction_temp: Option<usize>,
    pub gpu_load: Option<usize>,
    pub gpu_mem_used: Option<usize>,
    pub gpu_mem_total: Option<usize>,
    pub gpu_freq: Option<usize>,
}

pub open spec fn as_int(o: Option<usize>) -> Option<int> {
    match o {
        Some(i) => Some(i as int),
        None => None,
    }
}

pub open spec fn gpu_hardware() -> Seq<Seq<char>> {
    seq!["GpuNvidia"@, "GpuAmd"@, "GpuIntel"@]
}

/// The choice `parse_lhm_pipe` makes for the helper's `key|value` map.
pub open spec fn pipe_choice(es: Seq<(Seq<char>, Seq<char>)>, usable: Seq<bool>, c: SensorChoice) -> bool {
    &&& as_int(c.cpu_temp) == find_sensor_spec(es, usable, seq!["Cpu"@], "Temperature"@,
        seq!["package"@, "tctl"@, "tdie"@, "core max"@, "core average"@, "core"@])
    &&& as_int(c.gpu_temp) == find_sensor_spec(es, usable, gpu_hardware(), "Temperature"@,
        seq!["gpu core"@, "core"@, "hot spot"@])
    &&& as_int(c.gpu_mem_junction_temp) == find_sensor_spec(es, usable, gpu_hardware(),
        "Temperature"@, seq!["memory junction"@, "junction"@])
    &&& as_int(c.gpu_load) == find_sensor_spec(es, usable, gpu_hardware(), "Load"@,
        seq!["gpu core"@, "core"@])
    &&& as_int(c.gpu_mem_used) == find_sensor_spec(es, usable, gpu_hardware(), "SmallData"@,
        seq!["gpu memory used"@, "memory used"@])
    &&& as_int(c.gpu_mem_total) == find_sensor_spec(es, usable, gpu_hardware(), "SmallData"@,
        seq!["gpu memory total"@, "memory total"@])
    &&& as_int(c.gpu_freq) == find_sensor_spec(es, usable, gpu_hardware(), "Clock"@,
        seq!["gpu core"@, "core"@])
}

/// Each reading of the helper's report is picked among the usable entries of
/// its hardware and sensor type, by its own name list: the CPU temperature
/// among `Cpu:Temperature:` entries preferring `package`, `tctl`, `tdie`,
/// `core max`, `core average`, then `core`; the GPU readings among the
/// `GpuNvidia`, `GpuAmd` and `GpuIntel` entries: temperature (`Temperature`)
/// preferring `gpu core`, `core`, then `hot spot`; memory junction
/// (`Temperature`) preferring `memory junction`, then `junction`; load
/// (`Load`) and clock (`Clock`) preferring `gpu core`, then `core`; memory in
/// use and total (`SmallData`) preferring `gpu memory used` / `gpu memory
/// total`, then `memory used` / `memory total`.
pub proof fn pipe_readings_use_their_lists(es: Seq<(Seq<char>, Seq<char>)>, usable: Seq<bool>, c: SensorChoice)
    requires
        pipe_choice(es, usable, c),
    ensures
        as_int(c.cpu_temp) == pick(candidates(es, usable, seq!["Cpu"@], "Temperature"@),
            seq!["package"@, "tctl"@, "tdie"@, "core max"@, "core average"@, "core"@]),
        as_int(c.gpu_temp) == pick(candidates(es, usable, seq!["GpuNvidia"@, "GpuAmd"@, "GpuIntel"@], "Temperature"@),
            seq!["gpu core"@, "core"@, "hot spot"@]),
        as_int(c.gpu_mem_junction_temp) == pick(candidates(es, usable, seq!["GpuNvidia"@, "GpuAmd"@, "GpuIntel"@], "Temperature"@),
            seq!["memory junction"@, "junction"@]),
        as_int(c.gpu_load) == pick(candidates(es, usable, seq!["GpuNvidia"@, "GpuAmd"@, "GpuIntel"@], "Load"@),
            seq!["gpu core"@, "core"@]),
        as_int(c.gpu_mem_used) == pick(candidates(es, usable, seq!["GpuNvidia"@, "GpuAmd"@, "GpuIntel"@], "SmallData"@),
            seq!["gpu memory used"@, "memory used"@]),
        as_int(c.gpu_mem_total) == pick(candidates(es, usable, seq!["GpuNvidia"@, "GpuAmd"@, "GpuIntel"@], "SmallData"@),
            seq!["gpu memory total"@, "memory total"@]),
        as_int(c.gpu_freq) == pick(candidates(es, usable, seq!["GpuNvidia"@, "GpuAmd"@, "GpuIntel"@], "Clock"@),
            seq!["gpu core"@, "core"@]),
{
}

fn find_in(
    map: &Vec<PipeEntry>,
    usable: &Vec<bool>,
    hws: &[&str],
    sensor_type: &str,
    priority: &[&str],
) -> (r: Option<usize>)
    requires
        usable@.len() == map@.len(),
    ensures
        as_int(r) == find_sensor_spec(
            entry_views(map@),
            usable@,
            str_views(hws@),
            sensor_type@,
            str_views(priority@),
        ),
{
    find_sensor(map, usable, hws, sensor_type, priority)
}

/// Chooses the sensor for every reading from the helper's `key|value` map, as
/// `parse_lhm_pipe` does; `usable[i]` says whether entry `i`'s value reads as
/// a number strictly between 0 and 10000.
pub fn choose_pipe_sensors(map: &Vec<PipeEntry>, usable: &Vec<bool>) -> (c: SensorChoice)
    requires
        usable@.len() == map@.len(),
    ensures
        pipe_choice(entry_views(map@), usable@, c),
{
    let cpu: [&str; 1] = ["Cpu"];
    let gpu: [&str; 3] = ["GpuNvidia", "GpuAmd", "GpuIntel"];
    let p_cpu: [&str; 6] = ["package", "tctl", "tdie", "core max", "core average", "core"];
    let p_gpu_temp: [&str; 3] = ["gpu core", "core", "hot spot"];
    let p_junction: [&str; 2] = ["memory junction", "junction"];
    let p_core: [&str; 2] = ["gpu core", "core"];
    let p_used: [&str; 2] = ["gpu memory used", "memory used"];
    let p_total: [&str; 2] = ["gpu memory total", "memory total"];
    assert(str_views(cpu@) =~= seq!["Cpu"@]);
    assert(str_views(gpu@) =~= gpu_hardware());
    assert(str_views(p_cpu@) =~= seq!["package"@, "tctl"@, "tdie"@, "core max"@, "core average"@, "core"@]);
    assert(str_views(p_gpu_temp@) =~= seq!["gpu core"@, "core"@, "hot spot"@]);
    assert(str_views(p_junction@) =~= seq!["memory junction"@, "junction"@]);
    assert(str_views(p_core@) =~= seq!["gpu core"@, "core"@]);
    assert(str_views(p_used@) =~= seq!["gpu memory used"@, "memory used"@]);
    assert(str_views(p_total@) =~= seq!["gpu memory total"@, "memory total"@]);
    SensorChoice {
        cpu_temp: find_in(map, usable, &cpu, "Temperature", &p_cpu),
        gpu_temp: find_in(map, usable, &gpu, "Temperature", &p_gpu_temp),
        gpu_mem_junction_temp: find_in(map, usable, &gpu, "Temperature", &p_junction),
        gpu_load: find_in(map, usable, &gpu, "Load", &p_core),
        gpu_mem_used: find_in(map, usable, &gpu, "SmallData", &p_used),
        gpu_mem_total: find_in(map, usable, &gpu, "SmallData", &p_total),
        gpu_freq: find_in(map, usable, &gpu, "Clock", &p_core),
    }
}

/// One sensor of the full program's JSON report. `usable` says whether its
/// value is present and strictly between 0 and 10000.
pub struct JsonSensor {
    pub hardware_type: String,
    pub name: String,
    pub sensor_type: String,
    pub usable: bool,
}

pub open spec fn gpu_kind(h: Seq<char>) -> bool {
    contains(h, "gpu"@) || contains(h, "nvidia"@) || contains(h, "amd"@)
}

pub open spec fn core_or_gpu(n: Seq<char>) -> bool {
    contains(n, "core"@) || contains(n, "gpu"@)
}

pub open spec fn junction_name(n: Seq<char>) -> bool {
    contains(n, "memory junction"@) || contains(n, "junction"@)
}

/// What a sensor can supply, judged on the lower-cased hardware type `h`,
/// sensor name `n` and sensor type `t`.
pub open spec fn gives_cpu_temp(h: Seq<char>, n: Seq<char>, t: Seq<char>) -> bool {
    t == "temperature"@ && contains(h, "cpu"@)
}

pub open spec fn gives_junction_temp(h: Seq<char>, n: Seq<char>, t: Seq<char>) -> bool {
    t == "temperature"@ && !contains(h, "cpu"@) && gpu_kind(h) && junction_name(n)
}

pub open spec fn gives_gpu_temp(h: Seq<char>, n: Seq<char>, t: Seq<char>) -> bool {
    t == "temperature"@ && !contains(h, "cpu"@) && gpu_kind(h) && !junction_name(n) && (contains(
        n,
        "hot spot"@,
    ) || contains(n, "hotspot"@) || core_or_gpu(n))
}

pub open spec fn gives_gpu_load(h: Seq<char>, n: Seq<char>, t: Seq<char>) -> bool {
    t == "load"@ && gpu_kind(h) && core_or_gpu(n)
}

pub open spec fn gives_gpu_freq(h: Seq<char>, n: Seq<char>, t: Seq<char>) -> bool {
    t == "clock"@ && gpu_kind(h) && core_or_gpu(n)
}

pub open spec fn gives_mem_used(h: Seq<char>, n: Seq<char>, t: Seq<char>) -> bool {
    (t == "smalldata"@ || t == "data"@) && gpu_kind(h) && contains(n, "memory used"@)
}

pub open spec fn gives_mem_total(h: Seq<char>, n: Seq<char>, t: Seq<char>) -> bool {
    (t == "smalldata"@ || t == "data"@) && gpu_kind(h) && contains(n, "memory total"@)
}

/// Index of the first usable sensor for which `role` holds on its lower-cased texts.
pub open spec fn first_json(
    ss: Seq<JsonSensor>,
    role: spec_fn(Seq<char>, Seq<char>, Seq<char>) -> bool,
) -> Option<int>
    decreases ss.len(),
{
    if ss.len() == 0 {
        None
    } else {
        let prev = first_json(ss.drop_last(), role);
        let s = ss.last();
        if prev is Some {
            prev
        } else if s.usable && role(
            lowercase(s.hardware_type@),
            lowercase(s.name@),
            lowercase(s.sensor_type@),
        ) {
            Some(ss.len() - 1)
        } else {
            None
        }
    }
}

/// The choice `parse_lhm_json` makes: for each reading, the first usable
/// sensor that can supply it.
pub open spec fn json_choice(ss: Seq<JsonSensor>, c: SensorChoice) -> bool {
    &&& as_int(c.cpu_temp) == first_json(ss, |h, n, t| gives_cpu_temp(h, n, t))
    &&& as_int(c.gpu_temp) == first_json(ss, |h, n, t| gives_gpu_temp(h, n, t))
    &&& as_int(c.gpu_mem_junction_temp) == first_json(ss, |h, n, t| gives_junction_temp(h, n, t))
    &&& as_int(c.gpu_load) == first_json(ss, |h, n, t| gives_gpu_load(h, n, t))
    &&& as_int(c.gpu_mem_used) == first_json(ss, |h, n, t| gives_mem_used(h, n, t))
    &&& as_int(c.gpu_mem_total) == first_json(ss, |h, n, t| gives_mem_total(h, n, t))
    &&& as_int(c.gpu_freq) == first_json(ss, |h, n, t| gives_gpu_freq(h, n, t))
}

fn take_first(slot: &mut Option<usize>, i: usize, hit: bool)
    ensures
        (*old(slot)) is Some ==> *final(slot) == *old(slot),
        (*old(slot)) is None && hit ==> *final(slot) == Some(i),
        (*old(slot)) is None && !hit ==> (*final(slot)) is None,
{
    if slot.is_none() && hit {
        *slot = Some(i);
    }
}

proof fn lemma_first_json_step(
    ss: Seq<JsonSensor>,
    i: int,
    role: spec_fn(Seq<char>, Seq<char>, Seq<char>) -> bool,
)
    requires
        0 <= i < ss.len(),
    ensures
        first_json(ss.take(i + 1), role) == if first_json(ss.take(i), role) is Some {
            first_json(ss.take(i), role)
        } else if ss[i].usable && role(
            lowercase(ss[i].hardware_type@),
            lowercase(ss[i].name@),
            lowercase(ss[i].sensor_type@),
        ) {
            Some(i)
        } else {
            None
        },
{
    assert(ss.take(i + 1).drop_last() =~= ss.take(i));
}

/// Sensor `s` is usable and `wanted` accepts its lower-cased hardware type,
/// name and sensor type.
pub open spec fn accepted(s: JsonSensor, wanted: spec_fn(Seq<char>, Seq<char>, Seq<char>) -> bool) -> bool {
    s.usable && wanted(lowercase(s.hardware_type@), lowercase(s.name@), lowercase(s.sensor_type@))
}

/// `pick` is the first accepted sensor of `ss`, or nothing when none is.
pub open spec fn first_accepted(
    ss: Seq<JsonSensor>,
    pick: Option<usize>,
    wanted: spec_fn(Seq<char>, Seq<char>, Seq<char>) -> bool,
) -> bool {
    match pick {
        Some(i) => i < ss.len() && accepted(ss[i as int], wanted) && forall|j: int|
            0 <= j < i ==> !accepted(#[trigger] ss[j], wanted),
        None => forall|j: int| 0 <= j < ss.len() ==> !accepted(#[trigger] ss[j], wanted),
    }
}

proof fn lemma_first_json_is_first(ss: Seq<JsonSensor>, role: spec_fn(Seq<char>, Seq<char>, Seq<char>) -> bool)
    ensures
        first_json(ss, role) matches Some(i) ==> 0 <= i < ss.len() && accepted(ss[i], role) && forall|j: int|
            0 <= j < i ==> !accepted(#[trigger] ss[j], role),
        first_json(ss, role) is None ==> forall|j: int| 0 <= j < ss.len() ==> !accepted(#[trigger] ss[j], role),
    decreases ss.len(),
{
    if ss.len() > 0 {
        let d = ss.drop_last();
        lemma_first_json_is_first(d, role);
        assert forall|j: int| 0 <= j < d.len() implies d[j] == ss[j] by {}
    }
}

proof fn lemma_pick_first(
    ss: Seq<JsonSensor>,
    pick: Option<usize>,
    role: spec_fn(Seq<char>, Seq<char>, Seq<char>) -> bool,
    wanted: spec_fn(Seq<char>, Seq<char>, Seq<char>) -> bool,
)
    requires
        as_int(pick) == first_json(ss, role),
        forall|h: Seq<char>, n: Seq<char>, t: Seq<char>| #[trigger] role(h, n, t) == wanted(h, n, t),
    ensures
        first_accepted(ss, pick, wanted),
{
    lemma_first_json_is_first(ss, role);
    assert forall|j: int| 0 <= j < ss.len() implies accepted(ss[j], role) == accepted(#[trigger] ss[j], wanted) by {
        let s = ss[j];
        assert(role(lowercase(s.hardware_type@), lowercase(s.name@), lowercase(s.sensor_type@)) == wanted(
            lowercase(s.hardware_type@),
            lowercase(s.name@),
            lowercase(s.sensor_type@),
        ));
    }
}

/// Each reading comes from the first usable sensor, in report order, of the
/// right kind, judged on the lower-cased texts: the CPU temperature from a
/// `temperature` sensor of CPU hardware; on GPU hardware (type containing
/// `gpu`, `nvidia` or `amd`, and for temperatures not `cpu`), the memory
/// junction temperature from a `temperature` sensor named `junction`, the GPU
/// temperature from any other `temperature` sensor named `hot spot`,
/// `hotspot`, `core` or `gpu`, the load and the clock from `load` and `clock`
/// sensors named `core` or `gpu`, and the memory in use and the total memory
/// from `smalldata` or `data` sensors named `memory used` and `memory total`.
/// A reading no sensor supplies is not chosen at all.
pub proof fn json_readings_come_from_first_matching_sensor(ss: Seq<JsonSensor>, c: SensorChoice)
    requires
        json_choice(ss, c),
    ensures
        first_accepted(ss, c.cpu_temp, |h: Seq<char>, n: Seq<char>, t: Seq<char>| t == "temperature"@ && contains(h, "cpu"@)),
        first_accepted(
            ss,
            c.gpu_mem_junction_temp,
            |h: Seq<char>, n: Seq<char>, t: Seq<char>|
                t == "temperature"@ && !contains(h, "cpu"@) && (contains(h, "gpu"@) || contains(h, "nvidia"@)
                    || contains(h, "amd"@)) && (contains(n, "memory junction"@) || contains(n, "junction"@)),
        ),
        first_accepted(
            ss,
            c.gpu_temp,
            |h: Seq<char>, n: Seq<char>, t: Seq<char>|
                t == "temperature"@ && !contains(h, "cpu"@) && (contains(h, "gpu"@) || contains(h, "nvidia"@)
                    || contains(h, "amd"@)) && !(contains(n, "memory junction"@) || contains(n, "junction"@)) && (
                contains(n, "hot spot"@) || contains(n, "hotspot"@) || contains(n, "core"@) || contains(n, "gpu"@)),
        ),
        first_accepted(
            ss,
            c.gpu_load,
            |h: Seq<char>, n: Seq<char>, t: Seq<char>|
                t == "load"@ && (contains(h, "gpu"@) || contains(h, "nvidia"@) || contains(h, "amd"@)) && (contains(
                    n,
                    "core"@,
                ) || contains(n, "gpu"@)),
        ),
        first_accepted(
            ss,
            c.gpu_freq,
            |h: Seq<char>, n: Seq<char>, t: Seq<char>|
                t == "clock"@ && (contains(h, "gpu"@) || contains(h, "nvidia"@) || contains(h, "amd"@)) && (contains(
                    n,
                    "core"@,
                ) || contains(n, "gpu"@)),
        ),
        first_accepted(
            ss,
            c.gpu_mem_used,
            |h: Seq<char>, n: Seq<char>, t: Seq<char>|
                (t == "smalldata"@ || t == "data"@) && (contains(h, "gpu"@) || contains(h, "nvidia"@) || contains(
                    h,
                    "amd"@,
                )) && contains(n, "memory used"@),
        ),
        first_accepted(
            ss,
            c.gpu_mem_total,
            |h: Seq<char>, n: Seq<char>, t: Seq<char>|
                (t == "smalldata"@ || t == "data"@) && (contains(h, "gpu"@) || contains(h, "nvidia"@) || contains(
                    h,
                    "amd"@,
                )) && contains(n, "memory total"@),
        ),
{
    lemma_pick_first(ss, c.cpu_temp, |h, n, t| gives_cpu_temp(h, n, t), |h: Seq<char>, n: Seq<char>, t: Seq<char>| t == "temperature"@ && contains(h, "cpu"@));
    lemma_pick_first(
        ss,
        c.gpu_mem_junction_temp,
        |h, n, t| gives_junction_temp(h, n, t),
        |h: Seq<char>, n: Seq<char>, t: Seq<char>|
            t == "temperature"@ && !contains(h, "cpu"@) && (contains(h, "gpu"@) || contains(h, "nvidia"@)
                || contains(h, "amd"@)) && (contains(n, "memory junction"@) || contains(n, "junction"@)),
    );
    lemma_pick_first(
        ss,
        c.gpu_temp,
        |h, n, t| gives_gpu_temp(h, n, t),
        |h: Seq<char>, n: Seq<char>, t: Seq<char>|
            t == "temperature"@ && !contains(h, "cpu"@) && (contains(h, "gpu"@) || contains(h, "nvidia"@)
                || contains(h, "amd"@)) && !(contains(n, "memory junction"@) || contains(n, "junction"@)) && (
            contains(n, "hot spot"@) || contains(n, "hotspot"@) || contains(n, "core"@) || contains(n, "gpu"@)),
    );
    lemma_pick_first(
        ss,
        c.gpu_load,
        |h, n, t| gives_gpu_load(h, n, t),
        |h: Seq<char>, n: Seq<char>, t: Seq<char>|
            t == "load"@ && (contains(h, "gpu"@) || contains(h, "nvidia"@) || contains(h, "amd"@)) && (contains(
                n,
                "core"@,
            ) || contains(n, "gpu"@)),
    );
    lemma_pick_first(
        ss,
        c.gpu_freq,
        |h, n, t| gives_gpu_freq(h, n, t),
        |h: Seq<char>, n: Seq<char>, t: Seq<char>|
            t == "clock"@ && (contains(h, "gpu"@) || contains(h, "nvidia"@) || contains(h, "amd"@)) && (contains(
                n,
                "core"@,
            ) || contains(n, "gpu"@)),
    );
    lemma_pick_first(
        ss,
        c.gpu_mem_used,
        |h, n, t| gives_mem_used(h, n, t),
        |h: Seq<char>, n: Seq<char>, t: Seq<char>|
            (t == "smalldata"@ || t == "data"@) && (contains(h, "gpu"@) || contains(h, "nvidia"@) || contains(
                h,
                "amd"@,
            )) && contains(n, "memory used"@),
    );
    lemma_pick_first(
        ss,
        c.gpu_mem_total,
        |h, n, t| gives_mem_total(h, n, t),
        |h: Seq<char>, n: Seq<char>, t: Seq<char>|
            (t == "smalldata"@ || t == "data"@) && (contains(h, "gpu"@) || contains(h, "nvidia"@) || contains(
                h,
                "amd"@,
            )) && contains(n, "memory total"@),
    );
}

/// Chooses the sensor for every reading from the full program's JSON report,
/// sensors listed hardware by hardware, as `parse_lhm_json` does.
pub fn choose_json_sensors(sensors: &Vec<JsonSensor>) -> (c: SensorChoice)
    ensures
        json_choice(sensors@, c),
{
    let mut c = SensorChoice {
        cpu_temp: None,
        gpu_temp: None,
        gpu_mem_junction_temp: None,
        gpu_load: None,
        gpu_mem_used: None,
        gpu_mem_total: None,
        gpu_freq: None,
    };
    let ghost ss = sensors@;
    let mut i: usize = 0;
    assert(ss.take(0) =~= Seq::<JsonSensor>::empty());
    while i < sensors.len()
        invariant
            i <= ss.len(),
            ss == sensors@,
            json_choice(ss.take(i as int), c),
        decreases ss.len() - i,
    {
        let s = &sensors[i];
        let h = lowercase_chars(&chars_of(s.hardware_type.as_str()));
        let n = lowercase_chars(&chars_of(s.name.as_str()));
        let t = lowercase_chars(&chars_of(s.sensor_type.as_str()));
        let cpu_hw = contains_str(&h, "cpu");
        let gpu_hw = contains_str(&h, "gpu") || contains_str(&h, "nvidia") || contains_str(&h, "amd");
        let core_gpu = contains_str(&n, "core") || contains_str(&n, "gpu");
        let junction = contains_str(&n, "memory junction") || contains_str(&n, "junction");
        let hot = contains_str(&n, "hot spot") || contains_str(&n, "hotspot");
        let is_temp = eq_str(&t, "temperature");
        let is_load = eq_str(&t, "load");
        let is_clock = eq_str(&t, "clock");
        let is_data = eq_str(&t, "smalldata") || eq_str(&t, "data");
        let used = contains_str(&n, "memory used");
        let total = contains_str(&n, "memory total");
        let u = s.usable;
        proof {
            lemma_first_json_step(ss, i as int, |h, n, t| gives_cpu_temp(h, n, t));
            lemma_first_json_step(ss, i as int, |h, n, t| gives_gpu_temp(h, n, t));
            lemma_first_json_step(ss, i as int, |h, n, t| gives_junction_temp(h, n, t));
            lemma_first_json_step(ss, i as int, |h, n, t| gives_gpu_load(h, n, t));
            lemma_first_json_step(ss, i as int, |h, n, t| gives_mem_used(h, n, t));
            lemma_first_json_step(ss, i as int, |h, n, t| gives_mem_total(h, n, t));
            lemma_first_json_step(ss, i as int, |h, n, t| gives_gpu_freq(h, n, t));
        }
        take_first(&mut c.cpu_temp, i, u && is_temp && cpu_hw);
        take_first(&mut c.gpu_mem_junction_temp, i, u && is_temp && !cpu_hw && gpu_hw && junction);
        take_first(&mut c.gpu_temp, i, u && is_temp && !cpu_hw && gpu_hw && !junction && (hot || core_gpu));
        take_first(&mut c.gpu_load, i, u && is_load && gpu_hw && core_gpu);
        take_first(&mut c.gpu_freq, i, u && is_clock && gpu_hw && core_gpu);
        take_first(&mut c.gpu_mem_used, i, u && is_data && gpu_hw && used);
        take_first(&mut c.gpu_mem_total, i, u && is_data && gpu_hw && total);
        i += 1;
    }
    assert(ss.take(ss.len() as int) =~= ss);
    c
}

/// Where the helper is looked for, in order: the configured folder's
/// `lhm_reader.exe` and `LibreHardwareMonitor.exe`, then `lhm_reader.exe` in
/// the `LibreHardwareMonitor` folder of the project and of the program's folder.
pub open spec fn lhm_candidates(configured: Option<Seq<char>>, project_dir: Seq<char>, exe_dir: Seq<char>, sep: char) -> Seq<
    Seq<char>,
> {
    (match configured {
        Some(p) => seq![joined(p, "lhm_reader.exe"@, sep), joined(p, "LibreHardwareMonitor.exe"@, sep)],
        None => seq![],
    }) + seq![
        joined(joined(project_dir, "LibreHardwareMonitor"@, sep), "lhm_reader.exe"@, sep),
        joined(joined(exe_dir, "LibreHardwareMonitor"@, sep), "lhm_reader.exe"@, sep),
    ]
}

/// The path used when no candidate exists: the configured folder's full
/// program, else the helper next to the program.
pub open spec fn lhm_fallback(configured: Option<Seq<char>>, exe_dir: Seq<char>, sep: char) -> Seq<char> {
    match configured {
        Some(p) => joined(p, "LibreHardwareMonitor.exe"@, sep),
        None => joined(joined(exe_dir, "LibreHardwareMonitor"@, sep), "lhm_reader.exe"@, sep),
    }
}

pub open spec fn opt_view(o: Option<String>) -> Option<Seq<char>> {
    match o {
        Some(s) => Some(s@),
        None => None,
    }
}

/// The places the helper is looked for.
pub fn lhm_exe_candidates(configured: &Option<String>, project_dir: &str, exe_dir: &str, sep: char) -> (c: Vec<String>)
    requires
        sep == '/' || sep == '\\',
    ensures
        string_views(c@) == lhm_candidates(opt_view(*configured), project_dir@, exe_dir@, sep),
{
    let mut c: Vec<String> = Vec::new();
    match configured {
        Some(p) => {
            c.push(join_path(p.as_str(), "lhm_reader.exe", sep));
            c.push(join_path(p.as_str(), "LibreHardwareMonitor.exe", sep));
        },
        None => {},
    }
    let pd = join_path(project_dir, "LibreHardwareMonitor", sep);
    c.push(join_path(pd.as_str(), "lhm_reader.exe", sep));
    let ed = join_path(exe_dir, "LibreHardwareMonitor", sep);
    c.push(join_path(ed.as_str(), "lhm_reader.exe", sep));
    assert(string_views(c@) =~= lhm_candidates(opt_view(*configured), project_dir@, exe_dir@, sep));
    c
}

/// The first of `cands` that exists (`found[k]` says whether `cands[k]` does), else `fallback`.
pub open spec fn first_found(cands: Seq<Seq<char>>, found: Seq<bool>, fallback: Seq<char>) -> Seq<char>
    decreases cands.len(),
{
    if cands.len() == 0 || found.len() == 0 {
        fallback
    } else if found[0] {
        cands[0]
    } else {
        first_found(cands.drop_first(), found.drop_first(), fallback)
    }
}

/// The helper to run, given which candidates exist.
pub fn lhm_exe_path(configured: &Option<String>, exe_dir: &str, cands: &Vec<String>, found: &Vec<bool>, sep: char) -> (p: String)
    requires
        found@.len() == cands@.len(),
        sep == '/' || sep == '\\',
    ensures
        p@ == first_found(string_views(cands@), found@, lhm_fallback(opt_view(*configured), exe_dir@, sep)),
{
    let ghost cv = string_views(cands@);
    let ghost fb = lhm_fallback(opt_view(*configured), exe_dir@, sep);
    let mut i: usize = 0;
    assert(cv.skip(0) =~= cv && found@.skip(0) =~= found@);
    while i < cands.len()
        invariant
            i <= cands@.len(),
            found@.len() == cands@.len(),
            cv == string_views(cands@),
            cv.len() == cands@.len(),
            fb == lhm_fallback(opt_view(*configured), exe_dir@, sep),
            sep == '/' || sep == '\\',
            first_found(cv, found@, fb) == first_found(cv.skip(i as int), found@.skip(i as int), fb),
        decreases cands@.len() - i,
    {
        assert(cv.skip(i as int)[0] == cands@[i as int]@);
        assert(found@.skip(i as int)[0] == found@[i as int]);
        assert(cv.skip(i as int).drop_first() =~= cv.skip(i + 1));
        assert(found@.skip(i as int).drop_first() =~= found@.skip(i + 1));
        if found[i] {
            let r = cands[i].clone();
            assert(r@ == cv[i as int]);
            assert(cv.skip(i as int).len() > 0 && found@.skip(i as int).len() > 0);
            return r;
        }
        i += 1;
    }
    assert(cv.skip(i as int).len() == 0);
    match configured {
        Some(p) => join_path(p.as_str(), "LibreHardwareMonitor.exe", sep),
        None => {
            let ed = join_path(exe_dir, "LibreHardwareMonitor", sep);
            join_path(ed.as_str(), "lhm_reader.exe", sep)
        },
    }
}

/// The helper search, spelled out: with a configured folder `p`, its
/// `lhm_reader.exe` if that exists, else its `LibreHardwareMonitor.exe` if
/// that exists, else the first existing `lhm_reader.exe` of the project's and
/// the program's `LibreHardwareMonitor` folders, else `p`'s
/// `LibreHardwareMonitor.exe`.
pub proof fn helper_search_order(p: Seq<char>, project_dir: Seq<char>, exe_dir: Seq<char>, found: Seq<bool>, sep: char)
    requires
        found.len() == 4,
    ensures
        first_found(lhm_candidates(Some(p), project_dir, exe_dir, sep), found, lhm_fallback(Some(p), exe_dir, sep))
            == if found[0] {
            joined(p, "lhm_reader.exe"@, sep)
        } else if found[1] {
            joined(p, "LibreHardwareMonitor.exe"@, sep)
        } else if found[2] {
            joined(joined(project_dir, "LibreHardwareMonitor"@, sep), "lhm_reader.exe"@, sep)
        } else if found[3] {
            joined(joined(exe_dir, "LibreHardwareMonitor"@, sep), "lhm_reader.exe"@, sep)
        } else {
            joined(p, "LibreHardwareMonitor.exe"@, sep)
        },
{
    let c = lhm_candidates(Some(p), project_dir, exe_dir, sep);
    assert(c.len() == 4);
    assert(c.drop_first().drop_first().drop_first().drop_first().len() == 0);
    reveal_with_fuel(first_found, 5);
}

/// Whether the program to run is the full LibreHardwareMonitor (which prints a
/// JSON report when asked with `/sensors`) rather than the helper, judged by
/// its file name in any letter case.
pub fn is_full_program(file_name: &str) -> (r: bool)
    ensures
        r == eq_ignore_ascii_case(file_name@, "LibreHardwareMonitor.exe"@),
{
    eq_ignore_ascii_case_str(file_name, "LibreHardwareMonitor.exe")
}

} // verus!
