//! A fixed-window rate limiter, keyed by client.

use vstd::prelude::*;
use crate::clock::Clock;
use crate::dispatch::entries::elapsed;
use crate::dispatch::responses::NANOS_PER_SECOND;
use crate::text::text_eq;

verus! {

/// What the limiter keeps for a client: the requests counted in the
/// current window, and when that window began, in nanoseconds on the
/// limiter's clock.
#[derive(Debug, Clone, Copy, PartialEq, Eq, Structural)]
pub struct RateLimitEntry {
    pub count: u32,
    pub window_start: u128,
}

/// The model of a limiter's entries: in order of insertion, each client
/// with its entry.
pub type Entries = Seq<(Seq<char>, RateLimitEntry)>;

/// Whether the window of an entry is still open at `now`.
pub open spec fn is_open(entry: RateLimitEntry, window: u128, now: u128) -> bool {
    elapsed(entry.window_start, now) < window
}

/// The entries whose windows are still open at `now`, in order.
pub open spec fn open_entries(entries: Entries, window: u128, now: u128) -> Entries
    decreases entries.len(),
{
    if entries.len() == 0 {
        Seq::empty()
    } else {
        let before = open_entries(entries.drop_last(), window, now);
        if is_open(entries.last().1, window, now) {
            before.push(entries.last())
        } else {
            before
        }
    }
}

/// The position of the first entry of `client`, or the number of entries
/// where it has none.
pub open spec fn client_position(entries: Entries, client: Seq<char>) -> nat
    decreases entries.len(),
{
    if entries.len() == 0 || entries[0].0 == client {
        0
    } else {
        1 + client_position(entries.skip(1), client)
    }
}

/// What a limiter is made with.
pub struct Limits {
    pub max_requests: u32,
    pub window: u128,
}

/// Whether a request of `client` at `now` is allowed: it is where the
/// client has no open window, or has counted fewer than the maximum in it.
pub open spec fn allowed(entries: Entries, limits: Limits, client: Seq<char>, now: u128) -> bool {
    let open = open_entries(entries, limits.window, now);
    let at = client_position(open, client);
    at == open.len() || open[at as int].1.count < limits.max_requests
}

/// The entries after a request of `client` at `now`: closed windows are
/// dropped; then an allowed request is counted in the client's window,
/// which opens at `now` where the client had none.
pub open spec fn after_request(
    entries: Entries,
    limits: Limits,
    client: Seq<char>,
    now: u128,
) -> Entries {
    let open = open_entries(entries, limits.window, now);
    let at = client_position(open, client);
    if at == open.len() {
        open.push((client, RateLimitEntry { count: 1, window_start: now }))
    } else if open[at as int].1.count < limits.max_requests {
        open.update(
            at as int,
            (
                client,
                RateLimitEntry {
                    count: (open[at as int].1.count + 1) as u32,
                    window_start: open[at as int].1.window_start,
                },
            ),
        )
    } else {
        open
    }
}

/// The requests that `client` may still make at `now`.
pub open spec fn remaining(entries: Entries, limits: Limits, client: Seq<char>, now: u128) -> u32 {
    let at = client_position(entries, client);
    if at == entries.len() || !is_open(entries[at as int].1, limits.window, now) {
        limits.max_requests
    } else if entries[at as int].1.count >= limits.max_requests {
        0
    } else {
        (limits.max_requests - entries[at as int].1.count) as u32
    }
}

/// When the window of `client` closes, if it has one: the window's start
/// plus its length, or the largest instant where that cannot be held.
pub open spec fn reset_time(entries: Entries, limits: Limits, client: Seq<char>) -> Option<u128> {
    let at = client_position(entries, client);
    if at == entries.len() {
        None
    } else if entries[at as int].1.window_start + limits.window > u128::MAX {
        Some(u128::MAX)
    } else {
        Some((entries[at as int].1.window_start + limits.window) as u128)
    }
}

/// The model of a vector of entries.
pub open spec fn entry_views(entries: Seq<(String, RateLimitEntry)>) -> Entries {
    Seq::new(entries.len(), |i: int| (entries[i].0@, entries[i].1))
}

/// A rate limiter: each client may make `max_requests` requests in a
/// window of `window_seconds`, which opens with its first request.
pub struct RateLimiter {
    entries: Vec<(String, RateLimitEntry)>,
    max_requests: u32,
    window: u128,
    clock: Clock,
}

impl RateLimiter {
    /// The entries that the limiter holds.
    pub closed spec fn entries(&self) -> Entries {
        entry_views(self.entries@)
    }

    /// What the limiter was made with.
    pub closed spec fn limits(&self) -> Limits {
        Limits { max_requests: self.max_requests, window: self.window }
    }

    /// A limiter without entries.
    pub fn new(max_requests: u32, window_seconds: u64) -> (limiter: RateLimiter)
        ensures
            limiter.entries() == Entries::empty(),
            limiter.limits() == (Limits {
                max_requests,
                window: (window_seconds * NANOS_PER_SECOND) as u128,
            }),
    {
        RateLimiter {
            entries: Vec::new(),
            max_requests,
            window: window_seconds as u128 * NANOS_PER_SECOND,
            clock: Clock::start(),
        }
    }

    /// The position of the first entry of `client`, or the number of entries.
    fn find(&self, client: &str) -> (at: usize)
        ensures
            at == client_position(self.entries(), client@),
            at <= self.entries().len(),
    {
        let ghost entries = self.entries();
        let mut i: usize = 0;
        assert(entries.skip(0) =~= entries);
        while i < self.entries.len() && !text_eq(self.entries[i].0.as_str(), client)
            invariant
                i <= self.entries.len(),
                entries == self.entries(),
                client_position(entries, client@) == i + client_position(
                    entries.skip(i as int),
                    client@,
                ),
            decreases self.entries.len() - i,
        {
            assert(entries.skip(i as int).skip(1) =~= entries.skip(i + 1));
            i += 1;
        }
        i
    }

    /// Drops the entries whose windows have closed at `now`.
    fn sweep(&mut self, now: u128)
        ensures
            final(self).entries() == open_entries(old(self).entries(), old(self).limits().window, now),
            final(self).limits() == old(self).limits(),
    {
        let ghost before = self.entries();
        let mut kept: Vec<(String, RateLimitEntry)> = Vec::new();
        let mut i: usize = 0;
        while i < self.entries.len()
            invariant
                i <= self.entries.len(),
                before == self.entries(),
                entry_views(kept@) == open_entries(before.take(i as int), self.window, now),
            decreases self.entries.len() - i,
        {
            let entry = self.entries[i].1;
            let age = if now >= entry.window_start {
                now - entry.window_start
            } else {
                0
            };
            assert(before.take(i + 1).drop_last() =~= before.take(i as int));
            if age < self.window {
                kept.push((self.entries[i].0.clone(), entry));
            }
            i += 1;
        }
        assert(before.take(self.entries.len() as int) =~= before);
        self.entries = kept;
    }

    /// Decides a request of `client_id` at `now`, a reading of the
    /// limiter's clock, and counts it where it is allowed.
    pub fn check_rate_limit_at(&mut self, client_id: &str, now: u128) -> (ok: bool)
        ensures
            ok == allowed(old(self).entries(), old(self).limits(), client_id@, now),
            final(self).entries() == after_request(
                old(self).entries(),
                old(self).limits(),
                client_id@,
                now,
            ),
            final(self).limits() == old(self).limits(),
    {
        self.sweep(now);
        let at = self.find(client_id);
        if at == self.entries.len() {
            self.entries.push(
                (String::from_str(client_id), RateLimitEntry { count: 1, window_start: now }),
            );
            true
        } else {
            let entry = self.entries[at].1;
            if entry.count < self.max_requests {
                let next = RateLimitEntry {
                    count: entry.count + 1,
                    window_start: entry.window_start,
                };
                self.entries.set(at, (String::from_str(client_id), next));
                true
            } else {
                false
            }
        }
    }

    /// Decides a request of `client_id` now. The instant is read from the
    /// limiter's clock, so the result is that of `check_rate_limit_at` for
    /// some instant.
    pub fn check_rate_limit(&mut self, client_id: &str) -> (ok: bool)
        ensures
            exists|now: u128|
                ok == allowed(old(self).entries(), old(self).limits(), client_id@, now)
                    && final(self).entries() == #[trigger] after_request(
                    old(self).entries(),
                    old(self).limits(),
                    client_id@,
                    now,
                ),
            final(self).limits() == old(self).limits(),
    {
        let now = self.clock.elapsed_nanos();
        self.check_rate_limit_at(client_id, now)
    }

    /// The requests that `client_id` may still make at `now`.
    pub fn get_remaining_requests_at(&self, client_id: &str, now: u128) -> (left: u32)
        ensures
            left == remaining(self.entries(), self.limits(), client_id@, now),
    {
        let at = self.find(client_id);
        if at == self.entries.len() {
            return self.max_requests;
        }
        let entry = self.entries[at].1;
        let age = if now >= entry.window_start {
            now - entry.window_start
        } else {
            0
        };
        if age >= self.window {
            self.max_requests
        } else if entry.count >= self.max_requests {
            0
        } else {
            self.max_requests - entry.count
        }
    }

    /// The requests that `client_id` may still make now. The instant is
    /// read from the limiter's clock.
    pub fn get_remaining_requests(&self, client_id: &str) -> (left: u32)
        ensures
            exists|now: u128|
                left == #[trigger] remaining(self.entries(), self.limits(), client_id@, now),
    {
        let now = self.clock.elapsed_nanos();
        self.get_remaining_requests_at(client_id, now)
    }

    /// When the window of `client_id` closes, in nanoseconds on the
    /// limiter's clock.
    pub fn get_reset_time(&self, client_id: &str) -> (at: Option<u128>)
        ensures
            at == reset_time(self.entries(), self.limits(), client_id@),
    {
        let position = self.find(client_id);
        if position == self.entries.len() {
            return None;
        }
        let start = self.entries[position].1.window_start;
        if start > u128::MAX - self.window {
            Some(u128::MAX)
        } else {
            Some(start + self.window)
        }
    }
}

} // verus!
