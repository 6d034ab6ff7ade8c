//! The decisions of the rate-limited client: the rate-limit record and how
//! response headers update it, the ETag cache, the wait before a request,
//! how many permits the concurrency semaphore should hold, and when a request is
//! tried again.
//!
//! Time is passed in as Unix seconds: the caller reads the clock.

use vstd::prelude::*;
use crate::text::{chars_of, parse_unsigned, parse_unsigned_at};

verus! {

/// Requests per hour of an authenticated client, before the server says.
pub const DEFAULT_RATE_LIMIT: u32 = 5000;

/// Seconds until the assumed reset, before the server says.
pub const DEFAULT_RESET_SECS: u64 = 3600;

/// At or below this many remaining requests the client waits for the reset.
pub const LOW_REMAINING: u32 = 10;

/// The rate limit that the server last published.
#[derive(Clone, Debug)]
pub struct RateLimitInfo {
    /// Requests allowed per window.
    pub limit: u32,
    /// Requests left in the current window.
    pub remaining: u32,
    /// When the window resets, in Unix seconds.
    pub reset_time: u64,
    /// When this record was last updated, in Unix seconds.
    pub last_updated: u64,
    /// The resource the limit is for (`core`, `search`, ...).
    pub resource: String,
}

pub open spec fn sat_add(a: u64, b: u64) -> u64 {
    if a + b <= u64::MAX {
        (a + b) as u64
    } else {
        u64::MAX
    }
}

impl RateLimitInfo {
    /// The record assumed before the server has said anything: the full
    /// default allowance, resetting in an hour.
    pub fn default_at(now: u64) -> (r: Self)
        ensures
            r.limit == DEFAULT_RATE_LIMIT,
            r.remaining == DEFAULT_RATE_LIMIT,
            r.reset_time == sat_add(now, DEFAULT_RESET_SECS),
            r.last_updated == now,
            r.resource@ == "core"@,
    {
        RateLimitInfo {
            limit: DEFAULT_RATE_LIMIT,
            remaining: DEFAULT_RATE_LIMIT,
            reset_time: now.saturating_add(DEFAULT_RESET_SECS),
            last_updated: now,
            resource: String::from_str("core"),
        }
    }
}

/// The ETag last seen for each request URL.
pub struct ETagCache {
    etags: Vec<(String, String)>,
}

impl View for ETagCache {
    type V = Map<Seq<char>, Seq<char>>;

    closed spec fn view(&self) -> Map<Seq<char>, Seq<char>> {
        Map::new(
            |u: Seq<char>| exists|i: int| 0 <= i < self.etags.len() && self.etags@[i].0@ == u,
            |u: Seq<char>|
                self.etags@[choose|i: int| 0 <= i < self.etags.len() && self.etags@[i].0@ == u].1@,
        )
    }
}

impl ETagCache {
    /// Each URL appears once.
    pub closed spec fn wf(&self) -> bool {
        forall|i: int, j: int|
            0 <= i < j < self.etags.len() ==> self.etags@[i].0@ != self.etags@[j].0@
    }

    proof fn lemma_entry(&self, i: int)
        requires
            self.wf(),
            0 <= i < self.etags.len(),
        ensures
            self@.contains_key(self.etags@[i].0@),
            self@[self.etags@[i].0@] == self.etags@[i].1@,
    {
        let u = self.etags@[i].0@;
        assert(self@.dom().contains(u));
        let j = choose|j: int| 0 <= j < self.etags.len() && self.etags@[j].0@ == u;
        assert(j == i);
    }

    fn find(&self, url: &str) -> (r: Option<usize>)
        requires
            self.wf(),
        ensures
            match r {
                Some(i) => i < self.etags.len() && self.etags@[i as int].0@ == url@
                    && self@.contains_key(url@) && self@[url@] == self.etags@[i as int].1@,
                None => !self@.contains_key(url@),
            },
    {
        let key = String::from_str(url);
        let mut i: usize = 0;
        while i < self.etags.len()
            invariant
                i <= self.etags.len(),
                self.wf(),
                key@ == url@,
                forall|k: int| 0 <= k < i ==> self.etags@[k].0@ != url@,
            decreases self.etags.len() - i,
        {
            if self.etags[i].0 == key {
                proof {
                    self.lemma_entry(i as int);
                }
                return Some(i);
            }
            i = i + 1;
        }
        None
    }

    pub fn new() -> (r: Self)
        ensures
            r.wf(),
            r@ == Map::<Seq<char>, Seq<char>>::empty(),
    {
        let r = ETagCache { etags: Vec::new() };
        assert(r@ =~= Map::<Seq<char>, Seq<char>>::empty());
        r
    }

    /// The ETag recorded for `url`.
    pub fn get_etag(&self, url: &str) -> (r: Option<&str>)
        requires
            self.wf(),
        ensures
            match r {
                Some(e) => self@.contains_key(url@) && e@ == self@[url@],
                None => !self@.contains_key(url@),
            },
    {
        match self.find(url) {
            Some(i) => Some(self.etags[i].1.as_str()),
            None => None,
        }
    }

    /// Records `etag` as the ETag of `url`, replacing any earlier one.
    pub fn update_etag(&mut self, url: &str, etag: &str)
        requires
            old(self).wf(),
        ensures
            final(self).wf(),
            final(self)@ == old(self)@.insert(url@, etag@),
    {
        let ghost old_c = *self;
        let entry = (String::from_str(url), String::from_str(etag));
        match self.find(url) {
            Some(i) => {
                self.etags.set(i, entry);
            },
            None => {
                self.etags.push(entry);
            },
        }
        proof {
            assert forall|u: Seq<char>| #[trigger] self@.contains_key(u) == old_c@.insert(url@, etag@).contains_key(u) by {
                if old_c@.contains_key(u) {
                    let j = choose|j: int| 0 <= j < old_c.etags.len() && old_c.etags@[j].0@ == u;
                    assert(self.etags@[j].0@ == u);
                }
                if u == url@ {
                    let k = if old_c@.contains_key(url@) {
                        choose|j: int| 0 <= j < old_c.etags.len() && old_c.etags@[j].0@ == u
                    } else {
                        old_c.etags.len() as int
                    };
                    if !old_c@.contains_key(url@) {
                        assert(self.etags@[k].0@ == u);
                    }
                }
                if self@.contains_key(u) {
                    let j = choose|j: int| 0 <= j < self.etags.len() && self.etags@[j].0@ == u;
                    if j < old_c.etags.len() && self.etags@[j] == old_c.etags@[j] {
                        assert(old_c.etags@[j].0@ == u);
                    }
                }
            }
            assert forall|u: Seq<char>| #[trigger] self@.contains_key(u) implies self@[u] == old_c@.insert(url@, etag@)[u] by {
                let j = choose|j: int| 0 <= j < self.etags.len() && self.etags@[j].0@ == u;
                self.lemma_entry(j);
                if u != url@ {
                    old_c.lemma_entry(j);
                }
            }
            assert(self@ =~= old_c@.insert(url@, etag@));
        }
    }
}

/// A header's text read as an unsigned number of at most `max`.
pub open spec fn header_number(h: Option<Seq<char>>, max: nat) -> Option<nat> {
    match h {
        Some(t) => parse_unsigned(t, max),
        None => None,
    }
}

pub open spec fn opt_str_view(h: Option<&str>) -> Option<Seq<char>> {
    match h {
        Some(t) => Some(t@),
        None => None,
    }
}

fn header_value(h: Option<&str>, max: u64) -> (r: Option<u64>)
    ensures
        match header_number(opt_str_view(h), max as nat) {
            Some(n) => r == Some(n as u64),
            None => r is None,
        },
{
    match h {
        Some(t) => {
            let v = chars_of(t);
            assert(v@.subrange(0, v.len() as int) == v@);
            parse_unsigned_at(&v, 0, v.len(), max)
        },
        None => None,
    }
}

/// Updates `info` from the `x-ratelimit-*` headers of a response, given as
/// their text where present. Nothing changes unless the limit, the
/// remaining count and the reset time are all present and numbers; the
/// resource is `core` where its header is missing. Returns whether it
/// changed.
pub fn update_rate_info_from_headers(
    info: &mut RateLimitInfo,
    limit: Option<&str>,
    remaining: Option<&str>,
    reset: Option<&str>,
    resource: Option<&str>,
    now: u64,
) -> (changed: bool)
    ensures
        changed == (header_number(opt_str_view(limit), u32::MAX as nat) is Some && header_number(
            opt_str_view(remaining),
            u32::MAX as nat,
        ) is Some && header_number(opt_str_view(reset), u64::MAX as nat) is Some),
        !changed ==> *final(info) == *old(info),
        changed ==> {
            &&& final(info).limit as nat == header_number(opt_str_view(limit), u32::MAX as nat)->0
            &&& final(info).remaining as nat == header_number(opt_str_view(remaining), u32::MAX as nat)->0
            &&& final(info).reset_time as nat == header_number(opt_str_view(reset), u64::MAX as nat)->0
            &&& final(info).last_updated == now
            &&& final(info).resource@ == match resource {
                Some(t) => t@,
                None => "core"@,
            }
        },
{
    let l = header_value(limit, u32::MAX as u64);
    let r = header_value(remaining, u32::MAX as u64);
    let t = header_value(reset, u64::MAX);
    match (l, r, t) {
        (Some(l), Some(r), Some(t)) => {
            info.limit = l as u32;
            info.remaining = r as u32;
            info.reset_time = t;
            info.last_updated = now;
            info.resource = match resource {
                Some(s) => String::from_str(s),
                None => String::from_str("core"),
            };
            true
        },
        _ => false,
    }
}

/// How long the client waits before a request: where few requests remain and
/// the reset lies ahead, until one second past the reset.
pub fn rate_limit_wait(info: &RateLimitInfo, now: u64) -> (r: Option<u64>)
    ensures
        r is Some <==> (info.remaining <= LOW_REMAINING && info.reset_time > now),
        r matches Some(w) ==> w == sat_add((info.reset_time - now) as u64, 1),
        r matches Some(w) ==> w >= info.reset_time - now,
{
    if info.remaining <= LOW_REMAINING && info.reset_time > now {
        Some((info.reset_time - now).saturating_add(1))
    } else {
        None
    }
}

/// The number of requests that should be in flight at once, given how many
/// remain: one when very few do, then a quarter, a half, or all of
/// `max_concurrent`.
pub open spec fn ideal_for(remaining: u32, max_concurrent: usize) -> usize {
    if remaining <= 10 {
        1
    } else if remaining <= 100 {
        (max_concurrent / 4) as usize
    } else if remaining <= 1000 {
        (max_concurrent / 2) as usize
    } else {
        max_concurrent
    }
}

pub fn ideal_concurrency(remaining: u32, max_concurrent: usize) -> (r: usize)
    ensures
        r == ideal_for(remaining, max_concurrent),
{
    if remaining <= 10 {
        1
    } else if remaining <= 100 {
        max_concurrent / 4
    } else if remaining <= 1000 {
        max_concurrent / 2
    } else {
        max_concurrent
    }
}

/// The permits to release into the semaphore that holds `available` free ones:
/// enough to reach the ideal number, never a negative number (permits are
/// not taken back; surplus ones are used up by the requests themselves).
pub fn permits_to_add(remaining: u32, max_concurrent: usize, available: usize) -> (r: usize)
    ensures
        r == if ideal_for(remaining, max_concurrent) > available {
            (ideal_for(remaining, max_concurrent) - available) as usize
        } else {
            0
        },
{
    let ideal = ideal_concurrency(remaining, max_concurrent);
    if ideal > available {
        ideal - available
    } else {
        0
    }
}

/// With ten or fewer requests remaining, adapting the semaphore leaves at most
/// one free permit beyond those already free: it adds one where none is
/// free, and nothing otherwise.
pub proof fn lemma_low_remaining_single_permit(remaining: u32, max_concurrent: usize, available: usize)
    requires
        remaining <= 10,
    ensures
        available + (if ideal_for(remaining, max_concurrent) > available {
            ideal_for(remaining, max_concurrent) - available
        } else {
            0
        }) == if available == 0 {
            1
        } else {
            available as int
        },
{
}

/// Seconds to back off after attempt `n`: `2^n`, or `u64::MAX` from `n = 64`.
pub fn backoff_secs(n: u32) -> (r: u64)
    ensures
        n < 64 ==> r == (1u64 << n),
        n >= 64 ==> r == u64::MAX,
{
    if n < 64 {
        1u64 << n
    } else {
        u64::MAX
    }
}

/// What to do with a response.
#[derive(Clone, Copy, Debug, PartialEq, Eq)]
pub enum RetryStep {
    /// Hand the response to the caller.
    Deliver,
    /// Wait this many seconds, then try again.
    Wait(u64),
}

/// Why a request with retries gave up.
#[derive(Clone, Copy, Debug, PartialEq, Eq)]
pub enum RetryFailure {
    /// The last attempt failed in transport.
    Transport,
    /// Every attempt was answered with a rate-limit status.
    RateLimited,
}

/// The state of a request tried up to `max_retries` times.
#[derive(Clone, Copy, Debug)]
pub struct RetryLoop {
    pub attempts: u32,
    pub max_retries: u32,
    pub transport_failed: bool,
}

/// The step after a response with `status` on attempt `attempts`:
/// `Retry-After` seconds where a 403 or 429 gives a readable number there;
/// else `2^attempts` for a 403 that says no requests remain; else deliver.
pub open spec fn response_step(
    status: u16,
    retry_after: Option<Option<Seq<char>>>,
    remaining: Option<Seq<char>>,
    attempts: u32,
) -> RetryStep {
    if status == 403 || status == 429 {
        let ra: Option<Seq<char>> = match retry_after {
            Some(Some(t)) => Some(t),
            Some(None) => Some("60"@),
            None => None,
        };
        match header_number(ra, u64::MAX as nat) {
            Some(s) => RetryStep::Wait(s as u64),
            None => if status == 403 && header_number(remaining, u32::MAX as nat) == Some(0nat) {
                RetryStep::Wait(if attempts < 64 {
                    1u64 << attempts
                } else {
                    u64::MAX
                })
            } else {
                RetryStep::Deliver
            },
        }
    } else {
        RetryStep::Deliver
    }
}

impl RetryLoop {
    pub fn new(max_retries: u32) -> (r: Self)
        ensures
            r.attempts == 0,
            r.max_retries == max_retries,
            !r.transport_failed,
    {
        RetryLoop { attempts: 0, max_retries, transport_failed: false }
    }

    /// Whether another attempt may be made.
    pub fn can_attempt(&self) -> (r: bool)
        ensures
            r == (self.attempts < self.max_retries),
    {
        self.attempts < self.max_retries
    }

    /// Decides on a response: `retry_after` is the `Retry-After` header
    /// where present (`None` inside where its text is unreadable), and
    /// `remaining` the readable text of `x-ratelimit-remaining`. A 304 is
    /// delivered like any status that is not a rate limit.
    pub fn after_response(
        &mut self,
        status: u16,
        retry_after: Option<Option<&str>>,
        remaining: Option<&str>,
    ) -> (step: RetryStep)
        requires
            old(self).attempts < old(self).max_retries,
        ensures
            step == response_step(
                status,
                match retry_after {
                    Some(Some(t)) => Some(Some(t@)),
                    Some(None) => Some(None),
                    None => None,
                },
                opt_str_view(remaining),
                old(self).attempts,
            ),
            step is Wait ==> final(self).attempts == old(self).attempts + 1,
            step is Deliver ==> final(self).attempts == old(self).attempts,
            final(self).max_retries == old(self).max_retries,
            final(self).transport_failed == old(self).transport_failed,
    {
        if status == 403 || status == 429 {
            let ra: Option<&str> = match retry_after {
                Some(Some(t)) => Some(t),
                Some(None) => Some("60"),
                None => None,
            };
            match header_value(ra, u64::MAX) {
                Some(s) => {
                    self.attempts = self.attempts + 1;
                    return RetryStep::Wait(s);
                },
                None => {},
            }
            if status == 403 {
                match header_value(remaining, u32::MAX as u64) {
                    Some(0) => {
                        let w = backoff_secs(self.attempts);
                        self.attempts = self.attempts + 1;
                        return RetryStep::Wait(w);
                    },
                    _ => {},
                }
            }
        }
        RetryStep::Deliver
    }

    /// Records a transport failure; returns the seconds to back off,
    /// `2^n` for the attempts `n` made so far.
    pub fn after_transport_error(&mut self) -> (wait: u64)
        requires
            old(self).attempts < old(self).max_retries,
        ensures
            final(self).attempts == old(self).attempts + 1,
            final(self).max_retries == old(self).max_retries,
            final(self).transport_failed,
            final(self).attempts < 64 ==> wait == (1u64 << final(self).attempts),
            final(self).attempts >= 64 ==> wait == u64::MAX,
    {
        self.attempts = self.attempts + 1;
        self.transport_failed = true;
        backoff_secs(self.attempts)
    }

    /// Why the attempts ran out: the last transport failure where there was
    /// one, else rate limiting.
    pub fn failure(&self) -> (r: RetryFailure)
        ensures
            r == (if self.transport_failed {
                RetryFailure::Transport
            } else {
                RetryFailure::RateLimited
            }),
    {
        if self.transport_failed {
            RetryFailure::Transport
        } else {
            RetryFailure::RateLimited
        }
    }
}

} // verus!
