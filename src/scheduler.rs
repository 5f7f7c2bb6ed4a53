//! The daily earnings poster: at most one post per calendar day, inside the
//! posting hour, retried on a later tick when the fetch fails.
use vstd::prelude::*;
use crate::calendar::Date;
use crate::digest::{EarningsEvent, format_output, digest_text};
use crate::respond::FetchOutcome;

verus! {

/// Classifies a fetch run under a deadline: `None` when the deadline passed.
pub fn classify_fetch<T>(result: Option<Result<T, String>>) -> (r: FetchOutcome<T>)
    ensures
        match result {
            None => r is TimedOut,
            Some(Err(e)) => r matches FetchOutcome::UpstreamError(m) && m == e,
            Some(Ok(v)) => r matches FetchOutcome::Success(x) && x == v,
        },
{
    match result {
        None => FetchOutcome::TimedOut,
        Some(Err(e)) => FetchOutcome::UpstreamError(e),
        Some(Ok(v)) => FetchOutcome::Success(v),
    }
}

/// The poster's state: its posting hour (UTC) and the last day it posted.
#[derive(PartialEq, Eq, Structural, Clone, Copy, Debug)]
pub struct PosterState {
    pub post_hour: u32,
    pub last_post: Option<Date>,
}

impl PosterState {
    pub fn new(post_hour: u32) -> (r: PosterState)
        ensures
            r.post_hour == post_hour,
            r.last_post.is_none(),
    {
        PosterState { post_hour, last_post: None }
    }

    /// A tick at `hour` on `today` should fetch and post.
    pub open spec fn due(self, hour: u32, today: Date) -> bool {
        hour == self.post_hour && self.last_post != Some(today)
    }

    /// The state after a due tick whose pipeline succeeded or not.
    pub open spec fn after(self, today: Date, done: bool) -> PosterState {
        if done {
            PosterState { post_hour: self.post_hour, last_post: Some(today) }
        } else {
            self
        }
    }

    pub fn is_due(&self, hour: u32, today: Date) -> (r: bool)
        ensures
            r == self.due(hour, today),
    {
        if hour != self.post_hour {
            return false;
        }
        match self.last_post {
            Some(prev) => !(prev.year == today.year && prev.month == today.month && prev.day == today.day),
            None => true,
        }
    }

    /// Ends the fetch of a due tick. With events, returns the digest to
    /// publish and leaves the day open until `record_post`; with none, the
    /// day is done. A failed or late fetch changes nothing, so a later tick
    /// that day tries again.
    pub fn finish(&mut self, today: Date, outcome: FetchOutcome<Vec<EarningsEvent>>, fetched_at: &str) -> (r: Option<String>)
        ensures
            match outcome {
                FetchOutcome::Success(events) => if events@.len() == 0 {
                    r.is_none() && *final(self) == old(self).after(today, true)
                } else {
                    &&& r.is_some()
                    &&& r.unwrap()@ == digest_text(events@, fetched_at@, 50)
                    &&& *final(self) == *old(self)
                },
                _ => r.is_none() && *final(self) == *old(self),
            },
    {
        match outcome {
            FetchOutcome::Success(events) => {
                if events.len() == 0 {
                    self.last_post = Some(today);
                    None
                } else {
                    Some(format_output(&events, fetched_at))
                }
            },
            _ => None,
        }
    }

    /// Marks `today` as posted, once the digest has been published.
    pub fn record_post(&mut self, today: Date)
        ensures
            *final(self) == old(self).after(today, true),
    {
        self.last_post = Some(today);
    }
}

/// Idempotency: once a due tick has posted, no other tick that day is due,
/// whatever its hour, and the last posted day is that day.
pub proof fn lemma_one_post_per_day(s: PosterState, today: Date, hour: u32)
    ensures
        s.after(today, true).last_post == Some(today),
        !s.after(today, true).due(hour, today),
        s.after(today, true).post_hour == s.post_hour,
{
}

/// A tick that did not post (its fetch timed out or failed, or the publish
/// failed) leaves the state as it was: the last posted day is unchanged and a
/// tick in the window later that day is still due.
pub proof fn lemma_failed_fetch_retries(s: PosterState, today: Date, hour: u32)
    ensures
        s.after(today, false) == s,
        s.due(hour, today) ==> s.after(today, false).due(hour, today),
{
}

pub open spec fn digits_value(s: Seq<char>) -> int
    decreases s.len(),
{
    if s.len() == 0 {
        0
    } else {
        digits_value(s.drop_last()) * 10 + (s.last() as int - '0' as int)
    }
}

pub open spec fn u64_text_value(s: Seq<char>) -> Option<u64> {
    let body = if s.len() > 0 && s[0] == '+' {
        s.drop_first()
    } else {
        s
    };
    if body.len() > 0 && all_digits(body) && digits_value(body) <= u64::MAX {
        Some(digits_value(body) as u64)
    } else {
        None
    }
}

pub open spec fn all_digits(s: Seq<char>) -> bool {
    forall|i: int| 0 <= i < s.len() ==> '0' <= #[trigger] s[i] <= '9'
}

proof fn lemma_digits_grow(s: Seq<char>, k: int)
    requires
        all_digits(s),
        0 <= k <= s.len(),
    ensures
        0 <= digits_value(s.take(k)) <= digits_value(s),
    decreases s.len(),
{
    if k == s.len() {
        assert(s.take(k) =~= s);
        if s.len() > 0 {
            lemma_digits_grow(s.drop_last(), k - 1);
            assert(s.drop_last().take(k - 1) =~= s.drop_last());
        }
    } else {
        let t = s.drop_last();
        lemma_digits_grow(t, k);
        assert(t.take(k) =~= s.take(k));
        lemma_digits_grow(t, t.len() as int);
        assert(t.take(t.len() as int) =~= t);
    }
}

/// Reads a `u64` as its `FromStr` does: an optional `+`, then one or more
/// decimal digits whose value fits.
pub fn parse_u64(s: &str) -> (r: Option<u64>)
    ensures
        r == u64_text_value(s@),
{
    let n = s.unicode_len();
    let start: usize = if n > 0 && s.get_char(0) == '+' {
        1
    } else {
        0
    };
    let ghost body = s@.skip(start as int);
    assert(body =~= (if s@.len() > 0 && s@[0] == '+' {
        s@.drop_first()
    } else {
        s@
    }));
    if start == n {
        return None;
    }
    let mut acc: u64 = 0;
    let mut i: usize = start;
    assert(body.take(0) =~= Seq::<char>::empty());
    while i < n
        invariant
            n == s@.len(),
            start < n,
            start <= i <= n,
            body == s@.skip(start as int),
            body == (if s@.len() > 0 && s@[0] == '+' {
                s@.drop_first()
            } else {
                s@
            }),
            all_digits(body.take(i - start)),
            acc as int == digits_value(body.take(i - start)),
        decreases n - i,
    {
        let c = s.get_char(i);
        assert(body[i - start] == c);
        if c < '0' || c > '9' {
            assert(!('0' <= body[i - start] <= '9'));
            assert(!all_digits(body));
            return None;
        }
        let d: u64 = (c as u32 - '0' as u32) as u64;
        let ghost next = body.take(i - start + 1);
        assert(next.drop_last() =~= body.take(i - start));
        assert(all_digits(next));
        assert(digits_value(next) == acc * 10 + d);
        if acc > (u64::MAX - d) / 10 {
            assert(acc * 10 + d > u64::MAX) by (nonlinear_arith)
                requires
                    acc > (u64::MAX - d) / 10,
                    d <= 9,
            ;
            proof {
                if all_digits(body) {
                    lemma_digits_grow(body, i - start + 1);
                }
            }
            return None;
        }
        assert(acc * 10 + d <= u64::MAX) by (nonlinear_arith)
            requires
                acc <= (u64::MAX - d) / 10,
                d <= 9,
        ;
        acc = acc * 10 + d;
        i += 1;
    }
    assert(body.take(n - start) =~= body);
    Some(acc)
}

/// The channel to post to, or `None` when the poster must not start: it is
/// switched off with the flag `0`, or no valid nonzero channel id is
/// configured.
pub fn poster_channel(enable_flag: Option<&str>, channel_id: Option<&str>) -> (r: Option<u64>)
    ensures
        r == (if enable_flag.is_some() && enable_flag.unwrap()@ == "0"@ {
            None
        } else {
            match channel_id {
                Some(c) => match u64_text_value(c@) {
                    Some(id) => if id == 0 {
                        None
                    } else {
                        Some(id)
                    },
                    None => None,
                },
                None => None,
            }
        }),
{
    match enable_flag {
        Some(f) => if crate::text::same_text(f, "0") {
            return None;
        },
        None => {},
    }
    match channel_id {
        Some(c) => match parse_u64(c) {
            Some(id) => if id == 0 {
                None
            } else {
                Some(id)
            },
            None => None,
        },
        None => None,
    }
}

} // verus!
