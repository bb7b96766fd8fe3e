//! Time-based caching and throttling, and the bounded sample history. Times are
//! milliseconds on a monotonic clock supplied by the caller.
use vstd::prelude::*;

verus! {

/// Milliseconds from `since` to `now`; zero if the clock reads earlier.
pub open spec fn elapsed(since: u64, now: u64) -> int {
    if now >= since {
        now - since
    } else {
        0
    }
}

/// The cached value as seen at `now`: present only while it is younger than `max_age`.
pub open spec fn fresh_value<T>(entry: Option<(u64, T)>, now: u64, max_age: u64) -> Option<T> {
    match entry {
        Some((t, v)) => if elapsed(t, now) < max_age {
            Some(v)
        } else {
            None
        },
        None => None,
    }
}

/// The last value stored, with the time it was stored.
pub struct TimedCache<T> {
    entry: Option<(u64, T)>,
}

impl<T> TimedCache<T> {
    pub closed spec fn entry(&self) -> Option<(u64, T)> {
        self.entry
    }

    pub fn new() -> (c: TimedCache<T>)
        ensures
            c.entry() is None,
    {
        TimedCache { entry: None }
    }

    /// The stored value if it is younger than `max_age` at `now`.
    pub fn fresh(&self, now: u64, max_age: u64) -> (r: Option<&T>)
        ensures
            r matches Some(v) ==> fresh_value(self.entry(), now, max_age) == Some(*v),
            r is None ==> fresh_value(self.entry(), now, max_age) is None,
    {
        match &self.entry {
            Some((t, v)) => {
                let age = if now >= *t { now - *t } else { 0 };
                if age < max_age {
                    Some(v)
                } else {
                    None
                }
            },
            None => None,
        }
    }

    /// Replaces the stored value, stamping it with `now`.
    pub fn store(&mut self, now: u64, value: T)
        ensures
            final(self).entry() == Some((now, value)),
    {
        self.entry = Some((now, value));
    }
}

/// A value stored at `t` is read back unchanged until `max_age` milliseconds
/// have passed, and is gone from then on.
pub proof fn cache_read_after_store<T>(t: u64, v: T, now: u64, max_age: u64)
    ensures
        elapsed(t, now) < max_age ==> fresh_value(Some((t, v)), now, max_age) == Some(v),
        elapsed(t, now) >= max_age ==> fresh_value(Some((t, v)), now, max_age) is None,
{
}

/// Whether a periodic job is due at `now`: never run, or last run at least `interval` ago.
pub open spec fn is_due(last: Option<u64>, now: u64, interval: u64) -> bool {
    match last {
        Some(t) => elapsed(t, now) >= interval,
        None => true,
    }
}

/// Lets a periodic job run at most once per interval.
pub struct Throttle {
    last: Option<u64>,
}

impl Throttle {
    pub closed spec fn last_run(&self) -> Option<u64> {
        self.last
    }

    /// A throttle whose job has never run.
    pub fn new() -> (t: Throttle)
        ensures
            t.last_run() is None,
    {
        Throttle { last: None }
    }

    /// A throttle whose job counts as last run at `at`.
    pub fn ran_at(at: u64) -> (t: Throttle)
        ensures
            t.last_run() == Some(at),
    {
        Throttle { last: Some(at) }
    }

    /// Reports whether the job is due at `now` and, if so, records that it runs now.
    pub fn check(&mut self, now: u64, interval: u64) -> (due: bool)
        ensures
            due == is_due(old(self).last_run(), now, interval),
            due ==> final(self).last_run() == Some(now),
            !due ==> final(self).last_run() == old(self).last_run(),
    {
        let due = match self.last {
            Some(t) => {
                let age = if now >= t { now - t } else { 0 };
                age >= interval
            },
            None => true,
        };
        if due {
            self.last = Some(now);
        }
        due
    }
}

/// Once the job has run at `now`, it is not due again before `interval` has passed.
pub proof fn throttle_spacing(now: u64, later: u64, interval: u64)
    requires
        now <= later,
        later - now < interval,
    ensures
        !is_due(Some(now), later, interval),
{
}

/// The newest samples, at most `max` of them, oldest first.
pub struct History<T> {
    items: Vec<T>,
    max: usize,
}

/// The samples after pushing `v`: appended, and the oldest dropped when over capacity.
pub open spec fn pushed<T>(items: Seq<T>, v: T, max: nat) -> Seq<T> {
    if items.len() + 1 > max {
        items.push(v).drop_first()
    } else {
        items.push(v)
    }
}

impl<T> History<T> {
    pub closed spec fn items(&self) -> Seq<T> {
        self.items@
    }

    pub closed spec fn capacity(&self) -> nat {
        self.max as nat
    }

    pub fn new(max: usize) -> (h: History<T>)
        ensures
            h.items() == Seq::<T>::empty(),
            h.capacity() == max,
    {
        History { items: Vec::new(), max }
    }

    /// Appends a sample, dropping the oldest one if there are now more than the capacity.
    pub fn push(&mut self, v: T)
        ensures
            final(self).capacity() == old(self).capacity(),
            final(self).items() == pushed(old(self).items(), v, old(self).capacity()),
    {
        self.items.push(v);
        if self.items.len() > self.max {
            self.items.remove(0);
            assert(self.items@ =~= old(self).items@.push(v).drop_first());
        }
    }

    pub fn as_slice(&self) -> (s: &[T])
        ensures
            s@ == self.items(),
    {
        self.items.as_slice()
    }

    pub fn len(&self) -> (n: usize)
        ensures
            n == self.items().len(),
    {
        self.items.len()
    }
}

/// The history never holds more than its capacity (once it holds at most that
/// many), and the newest sample is always the last one.
pub proof fn history_bounded<T>(items: Seq<T>, v: T, max: nat)
    requires
        items.len() <= max,
        max >= 1,
    ensures
        pushed(items, v, max).len() <= max,
        pushed(items, v, max).last() == v,
        pushed(items, v, max).len() == if items.len() == max { max } else { items.len() + 1 },
{
}

} // verus!
