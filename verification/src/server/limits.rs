//! How much each source may do.
use std::collections::HashMap;
use std::hash::Hash;
use vstd::prelude::*;

verus! {

broadcast use vstd::std_specs::hash::group_hash_axioms;

/// Where a client comes from.
#[derive(Clone, Copy, Debug, PartialEq, Eq, Structural)]
pub enum Source {
    V4(u32),
    V6(u128),
}

/// The requests of a source within a minute. Times are in milliseconds.
#[derive(Clone, Copy, Debug, PartialEq, Eq, Structural)]
pub struct RateWindow {
    pub since: u64,
    pub count: u64,
}

/// A value for each source that has one, found by its address.
pub struct SourceTable<T> {
    v4: HashMap<u32, T>,
    v6: HashMap<u128, T>,
}

// ---------------------------------------------------------------------------
// Tables

/// The value of a key, if it has one.
pub open spec fn entry_of<K, T>(entries: Map<K, T>, key: K) -> Option<T> {
    if entries.contains_key(key) {
        Some(entries[key])
    } else {
        None
    }
}

impl<T: Copy> SourceTable<T> {
    /// The value of a source.
    pub closed spec fn value_of(self, source: Source) -> Option<T> {
        match source {
            Source::V4(address) => entry_of(self.v4@, address),
            Source::V6(address) => entry_of(self.v6@, address),
        }
    }

    /// A table without values.
    pub fn new() -> (table: SourceTable<T>)
        ensures
            forall|source: Source| #[trigger] table.value_of(source) is None,
    {
        SourceTable { v4: HashMap::new(), v6: HashMap::new() }
    }

    /// The value of a source.
    pub fn get(&self, source: Source) -> (value: Option<T>)
        ensures
            value == self.value_of(source),
    {
        let found = match source {
            Source::V4(address) => self.v4.get(&address),
            Source::V6(address) => self.v6.get(&address),
        };
        match found {
            Some(value) => Some(*value),
            None => None,
        }
    }

    /// Gives a source a value.
    pub fn set(&mut self, source: Source, value: T)
        ensures
            final(self).value_of(source) == Some(value),
            forall|other: Source|
                other != source ==> #[trigger] final(self).value_of(other) == old(self).value_of(
                    other,
                ),
    {
        match source {
            Source::V4(address) => {
                self.v4.insert(address, value);
            },
            Source::V6(address) => {
                self.v6.insert(address, value);
            },
        }
    }

    /// Takes the value of a source away.
    pub fn remove(&mut self, source: Source)
        ensures
            final(self).value_of(source) is None,
            forall|other: Source|
                other != source ==> #[trigger] final(self).value_of(other) == old(self).value_of(
                    other,
                ),
    {
        match source {
            Source::V4(address) => {
                self.v4.remove(&address);
            },
            Source::V6(address) => {
                self.v6.remove(&address);
            },
        }
    }
}

// ---------------------------------------------------------------------------
// Counting

/// The number of connections after one more was asked for.
pub open spec fn opened(count: u64, maximum: u64) -> u64 {
    if count < maximum {
        (count + 1) as u64
    } else {
        count
    }
}

/// The number of connections after one was closed.
pub open spec fn closed(count: u64) -> u64 {
    if count == 0 {
        0
    } else {
        (count - 1) as u64
    }
}

impl SourceTable<u64> {
    /// How often something was counted for a source.
    pub open spec fn count(self, source: Source) -> u64 {
        match self.value_of(source) {
            Some(count) => count,
            None => 0,
        }
    }

    /// Counts a login attempt of a source, and says the how-manieth it is.
    pub fn record_login_attempt(&mut self, source: Source) -> (number: u64)
        ensures
            number == (if old(self).count(source) == u64::MAX {
                u64::MAX as int
            } else {
                old(self).count(source) + 1
            }),
            final(self).count(source) == number,
            forall|other: Source|
                other != source ==> #[trigger] final(self).count(other) == old(self).count(other),
    {
        let count: u64 = match self.get(source) {
            Some(count) => count,
            None => 0,
        };
        let number: u64 = count.saturating_add(1);
        self.set(source, number);
        number
    }

    /// Opens a connection of a source, unless it has as many as it may.
    pub fn acquire(&mut self, source: Source, maximum: u64) -> (admitted: bool)
        ensures
            admitted == (old(self).count(source) < maximum),
            final(self).count(source) == opened(old(self).count(source), maximum),
            forall|other: Source|
                other != source ==> #[trigger] final(self).count(other) == old(self).count(other),
    {
        let count: u64 = match self.get(source) {
            Some(count) => count,
            None => 0,
        };
        if count >= maximum {
            return false;
        }
        self.set(source, count + 1);
        true
    }

    /// Closes a connection of a source. A source without connections is forgotten.
    pub fn release(&mut self, source: Source)
        ensures
            final(self).count(source) == closed(old(self).count(source)),
            final(self).count(source) == 0 ==> final(self).value_of(source) is None,
            forall|other: Source|
                other != source ==> #[trigger] final(self).count(other) == old(self).count(other),
    {
        let count: u64 = match self.get(source) {
            Some(count) => count,
            None => 0,
        };
        if count <= 1 {
            self.remove(source);
        } else {
            self.set(source, count - 1);
        }
    }
}

/// Whether a source that makes its `attempt`-th login attempt is let in for its persistence:
/// the first `threshold` attempts are decided as any other, all later ones succeed.
pub open spec fn bypasses(threshold: Option<u64>, attempt: Option<u64>) -> bool {
    match (threshold, attempt) {
        (Some(threshold), Some(attempt)) => attempt > threshold,
        _ => false,
    }
}

/// Whether a source that makes its `attempt`-th login attempt is let in for its persistence.
pub fn source_bypass(threshold: Option<u64>, attempt: Option<u64>) -> (yes: bool)
    ensures
        yes == bypasses(threshold, attempt),
{
    match (threshold, attempt) {
        (Some(threshold), Some(attempt)) => attempt > threshold,
        _ => false,
    }
}

// ---------------------------------------------------------------------------
// Rates

/// How long a request counts, in milliseconds.
pub const WINDOW_MS: u64 = 60_000;

/// How long a source is remembered that makes no requests, in milliseconds.
pub const MEMORY_MS: u64 = 120_000;

/// How long ago a window began.
pub open spec fn age(window: RateWindow, now: u64) -> int {
    if now < window.since {
        0
    } else {
        now - window.since
    }
}

/// The window that a request falls into: the one that is there, unless it is a minute old.
pub open spec fn current_window(window: Option<RateWindow>, now: u64) -> RateWindow {
    match window {
        Some(window) if age(window, now) < WINDOW_MS => window,
        _ => RateWindow { since: now, count: 0 },
    }
}

/// The window of a source after a request, and whether the request is allowed.
pub open spec fn after_request(window: Option<RateWindow>, now: u64, maximum: u64) -> (
    RateWindow,
    bool,
) {
    let current = current_window(window, now);
    if current.count >= maximum {
        (current, false)
    } else {
        (RateWindow { since: current.since, count: (current.count + 1) as u64 }, true)
    }
}

/// What is remembered of a source that makes no request now.
pub open spec fn remembered(window: Option<RateWindow>, now: u64) -> Option<RateWindow> {
    match window {
        Some(window) if age(window, now) < MEMORY_MS => Some(window),
        _ => None,
    }
}

fn age_of(window: RateWindow, now: u64) -> (ms: u64)
    ensures
        ms == age(window, now),
{
    if now < window.since {
        0
    } else {
        now - window.since
    }
}

/// Takes the windows away that began too long ago to be remembered.
fn forget_old<K: Copy + Eq + Hash>(windows: &mut HashMap<K, RateWindow>, now: u64)
    requires
        vstd::std_specs::hash::obeys_key_model::<K>(),
    ensures
        forall|key: K| #[trigger]
            entry_of(final(windows)@, key) == remembered(entry_of(old(windows)@, key), now),
{
    let ghost before = windows@;
    let mut stale: Vec<K> = Vec::new();
    for (key, window) in it: windows.iter()
        invariant
            windows@ == before,
            forall|i: int|
                0 <= i < it.index() && age(*(#[trigger] it.seq()[i]).1, now) >= MEMORY_MS
                    ==> stale@.contains(*it.seq()[i].0),
            forall|j: int|
                0 <= j < stale@.len() ==> before.contains_key(#[trigger] stale@[j]) && age(
                    before[stale@[j]],
                    now,
                ) >= MEMORY_MS,
    {
        let ghost listed = stale@;
        if age_of(*window, now) >= MEMORY_MS {
            stale.push(*key);
            assert(stale@[listed.len() as int] == *key);
        }
        assert forall|i: int|
            0 <= i < it.index() + 1 && age(*(#[trigger] it.seq()[i]).1, now)
                >= MEMORY_MS implies stale@.contains(*it.seq()[i].0) by {
            if i < it.index() {
                let j = choose|j: int| 0 <= j < listed.len() && listed[j] == *it.seq()[i].0;
                assert(stale@[j] == listed[j]);
            }
        }
    }
    assert(forall|key: K|
        before.contains_key(key) && age(before[key], now) >= MEMORY_MS
            ==> #[trigger] stale@.contains(key));
    let mut i: usize = 0;
    while i < stale.len()
        invariant
            i <= stale@.len(),
            vstd::std_specs::hash::obeys_key_model::<K>(),
            windows@ == before.remove_keys(stale@.take(i as int).to_set()),
        decreases stale.len() - i,
    {
        windows.remove(&stale[i]);
        assert(stale@.take(i + 1) =~= stale@.take(i as int).push(stale@[i as int]));
        assert(stale@.take(i + 1).to_set() =~= stale@.take(i as int).to_set().insert(
            stale@[i as int],
        )) by {
            broadcast use vstd::seq_lib::group_seq_properties;
        }
        i += 1;
    }
    assert(stale@.take(i as int) =~= stale@);
    assert forall|key: K| #[trigger] entry_of(windows@, key) == remembered(
        entry_of(before, key),
        now,
    ) by {
        assert(stale@.to_set().contains(key) == stale@.contains(key));
    }
}

impl SourceTable<RateWindow> {
    fn forget_stale(&mut self, now: u64)
        ensures
            forall|source: Source| #[trigger]
                final(self).value_of(source) == remembered(old(self).value_of(source), now),
    {
        forget_old(&mut self.v4, now);
        forget_old(&mut self.v6, now);
    }

    /// Whether a source may make a request now. One that may not is not counted. Sources that
    /// were silent for long are forgotten.
    pub fn allow_request(&mut self, source: Source, now: u64, maximum: u64) -> (allowed: bool)
        ensures
            (final(self).value_of(source), allowed) == ({
                let (window, yes) = after_request(old(self).value_of(source), now, maximum);
                (Some(window), yes)
            }),
            forall|other: Source|
                other != source ==> #[trigger] final(self).value_of(other) == remembered(
                    old(self).value_of(other),
                    now,
                ),
    {
        self.forget_stale(now);
        let ghost middle = *self;
        let current = match self.get(source) {
            Some(window) => if age_of(window, now) < WINDOW_MS {
                window
            } else {
                RateWindow { since: now, count: 0 }
            },
            None => RateWindow { since: now, count: 0 },
        };
        assert(current == current_window(old(self).value_of(source), now));
        if current.count >= maximum {
            self.set(source, current);
            return false;
        }
        self.set(source, RateWindow { since: current.since, count: current.count + 1 });
        true
    }
}

// ---------------------------------------------------------------------------
// Laws

/// A connection that was opened and closed leaves the number of connections as it was.
pub proof fn lemma_closing_undoes_opening(count: u64, maximum: u64)
    requires
        count < maximum,
    ensures
        closed(opened(count, maximum)) == count,
{
}

/// The windows of a source after `n` requests at the same time.
pub open spec fn after_requests(window: Option<RateWindow>, now: u64, maximum: u64, n: nat) -> Option<
    RateWindow,
>
    decreases n,
{
    if n == 0 {
        window
    } else {
        Some(after_request(after_requests(window, now, maximum, (n - 1) as nat), now, maximum).0)
    }
}

/// A source that has made no request within the minute may make as many as the maximum says,
/// and not one more.
pub proof fn lemma_maximum_is_exact(now: u64, maximum: u64, n: nat)
    ensures
        after_request(after_requests(None, now, maximum, n), now, maximum).1 == (n < maximum),
{
    lemma_windows_count(now, maximum, n);
}

proof fn lemma_windows_count(now: u64, maximum: u64, n: nat)
    ensures
        current_window(after_requests(None, now, maximum, n), now) == (RateWindow {
            since: now,
            count: if n < maximum {
                n as u64
            } else {
                maximum
            },
        }),
    decreases n,
{
    if n > 0 {
        lemma_windows_count(now, maximum, (n - 1) as nat);
    }
}

/// A request that is refused does not count: the next one within the minute is refused too,
/// and the first one a minute after the window began is allowed again.
pub proof fn lemma_refusal_lasts_a_minute(window: RateWindow, now: u64, later: u64, maximum: u64)
    requires
        maximum > 0,
        window.since <= now <= later,
        !after_request(Some(window), now, maximum).1,
    ensures
        ({
            let next = after_request(Some(window), now, maximum).0;
            &&& age(next, later) < WINDOW_MS ==> !after_request(Some(next), later, maximum).1
            &&& age(next, later) >= WINDOW_MS ==> after_request(Some(next), later, maximum).1
        }),
{
}

/// With a threshold, the attempts up to it are decided as any other and every later one is let
/// in; without one, none is. Attempts that are not counted are never let in.
pub proof fn lemma_threshold(threshold: u64, attempt: u64)
    ensures
        bypasses(Some(threshold), Some(attempt)) <==> attempt >= threshold + 1,
        !bypasses(None, Some(attempt)),
        !bypasses(Some(threshold), None),
{
}

} // verus!
