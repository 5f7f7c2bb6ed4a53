//! Replies to an earnings request: the outcome of the fetch, then of the
//! rich rendering, decide what is sent.
use vstd::prelude::*;
use crate::digest::{EarningsEvent, decimal, push_decimal, format_output, digest_text};
use crate::text::count_char;

verus! {

/// How a fetch under a deadline ended.
#[derive(Debug)]
pub enum FetchOutcome<T> {
    Success(T),
    /// The provider failed; its message.
    UpstreamError(String),
    /// The deadline passed first.
    TimedOut,
}

/// The reply to an earnings request.
#[derive(Debug)]
pub struct EarningsResponse {
    pub content: String,
    pub image: Option<Vec<u8>>,
}

/// What to do once the fetch has ended.
#[derive(Debug)]
pub enum CommandStep {
    /// Send this reply (or this error) now.
    Reply(Result<EarningsResponse, String>),
    /// Try the rich rendering of these events, then call `after_render`.
    Render(Vec<EarningsEvent>),
}

pub open spec fn render_note(reason: Seq<char>) -> Seq<char> {
    "⚠️ Image render unavailable: "@ + reason
}

pub open spec fn truncation_notice(shown: nat, total: nat) -> Seq<char> {
    "\n\n⚠️ *Message truncated - showing first "@ + decimal(shown) + " of "@ + decimal(total)
        + " events. Use filters to see more.*\n"@
}

/// Events estimated visible: the event markers in the text, at most thirty.
pub open spec fn shown_estimate(output: Seq<char>) -> nat {
    let n = count_char(output, '📈');
    if n < 30 {
        n
    } else {
        30
    }
}

/// The text fallback: the digest, cut to its first `keep` characters with a
/// notice when it is longer than `max_chars`, then the rendering failure.
pub open spec fn fallback_spec(output: Seq<char>, total: nat, reason: Seq<char>, max_chars: nat, keep: nat) -> Seq<char> {
    if output.len() > max_chars {
        output.take(keep as int) + truncation_notice(shown_estimate(output), total) + render_note(reason)
    } else {
        output + "\n\n"@ + render_note(reason)
    }
}

fn count_markers(s: &str) -> (r: u64)
    ensures
        r == count_char(s@, '📈'),
{
    let n = s.unicode_len();
    let mut i: usize = 0;
    let mut c: u64 = 0;
    while i < n
        invariant
            n == s@.len(),
            i <= n,
            c == count_char(s@.take(i as int), '📈'),
            c <= i,
        decreases n - i,
    {
        assert(s@.take(i + 1).drop_last() =~= s@.take(i as int));
        if s.get_char(i) == '📈' {
            c = c + 1;
        }
        i += 1;
    }
    assert(s@.take(n as int) =~= s@);
    c
}

/// The text fallback for a failed rich rendering.
pub fn fallback_text_capped(output: &str, total: usize, reason: &str, max_chars: usize, keep: usize) -> (r: String)
    requires
        keep <= max_chars,
    ensures
        r@ == fallback_spec(output@, total as nat, reason@, max_chars as nat, keep as nat),
{
    let n = output.unicode_len();
    if n > max_chars {
        let markers = count_markers(output);
        let shown = if markers < 30 {
            markers
        } else {
            30
        };
        let mut out = String::from_str(output.substring_char(0, keep));
        out.append("\n\n⚠️ *Message truncated - showing first ");
        push_decimal(&mut out, shown);
        out.append(" of ");
        push_decimal(&mut out, total as u64);
        out.append(" events. Use filters to see more.*\n");
        out.append("⚠️ Image render unavailable: ");
        out.append(reason);
        assert(out@ =~= fallback_spec(output@, total as nat, reason@, max_chars as nat, keep as nat));
        out
    } else {
        let mut out = String::from_str(output);
        out.append("\n\n");
        out.append("⚠️ Image render unavailable: ");
        out.append(reason);
        assert(out@ =~= fallback_spec(output@, total as nat, reason@, max_chars as nat, keep as nat));
        out
    }
}

/// The text fallback with the chat limit of 1900 characters, cut to 1800.
pub fn fallback_text(output: &str, total: usize, reason: &str) -> (r: String)
    ensures
        r@ == fallback_spec(output@, total as nat, reason@, 1900, 1800),
{
    fallback_text_capped(output, total, reason, 1900, 1800)
}

/// Truncation: text longer than `max_chars` comes out as at most `max_chars`
/// of its characters followed by the truncation notice; the failure reason is
/// kept in every case.
pub proof fn lemma_fallback_bounded(output: Seq<char>, total: nat, reason: Seq<char>, max_chars: nat, keep: nat)
    requires
        keep <= max_chars,
        output.len() > max_chars,
    ensures
        ({
            let r = fallback_spec(output, total, reason, max_chars, keep);
            let suffix = truncation_notice(shown_estimate(output), total) + render_note(reason);
            &&& r == output.take(keep as int) + suffix
            &&& r.len() <= max_chars + suffix.len()
            &&& r.subrange(keep as int, r.len() as int) == suffix
        }),
{
    let r = fallback_spec(output, total, reason, max_chars, keep);
    let suffix = truncation_notice(shown_estimate(output), total) + render_note(reason);
    assert(r =~= output.take(keep as int) + suffix);
    assert(r.subrange(keep as int, r.len() as int) =~= suffix);
}

pub open spec fn no_earnings_text() -> Seq<char> {
    "No earnings within the next 7 days."@
}

pub open spec fn fetch_failed_text(e: Seq<char>) -> Seq<char> {
    "Failed to fetch earnings: "@ + e
}

pub open spec fn timed_out_text() -> Seq<char> {
    "Request timed out. The earnings API is taking too long to respond. Please try again later."@
}

/// The reply once the fetch has ended: an error for a failed or late fetch,
/// a plain reply when there is nothing to show, else a rendering step.
pub fn after_fetch(outcome: FetchOutcome<Vec<EarningsEvent>>) -> (r: CommandStep)
    ensures
        match outcome {
            FetchOutcome::Success(events) => if events@.len() == 0 {
                r matches CommandStep::Reply(Ok(resp)) && resp.content@ == no_earnings_text() && resp.image.is_none()
            } else {
                r == CommandStep::Render(events)
            },
            FetchOutcome::UpstreamError(e) => r matches CommandStep::Reply(Err(m)) && m@ == fetch_failed_text(e@),
            FetchOutcome::TimedOut => r matches CommandStep::Reply(Err(m)) && m@ == timed_out_text(),
        },
{
    match outcome {
        FetchOutcome::Success(events) => if events.len() == 0 {
            CommandStep::Reply(
                Ok(
                    EarningsResponse {
                        content: String::from_str("No earnings within the next 7 days."),
                        image: None,
                    },
                ),
            )
        } else {
            CommandStep::Render(events)
        },
        FetchOutcome::UpstreamError(e) => {
            let mut m = String::from_str("Failed to fetch earnings: ");
            m.append(e.as_str());
            CommandStep::Reply(Err(m))
        },
        FetchOutcome::TimedOut => CommandStep::Reply(
            Err(
                String::from_str(
                    "Request timed out. The earnings API is taking too long to respond. Please try again later.",
                ),
            ),
        ),
    }
}

pub open spec fn summary_text(total: nat) -> Seq<char> {
    "📊 Earnings Calendar (next 7 days) — "@ + decimal(total) + " events"@
}

/// The reply once the rich rendering has ended: the image with a one-line
/// summary, or the text digest annotated with the failure reason.
pub fn after_render(events: &Vec<EarningsEvent>, fetched_at: &str, rendered: Result<Vec<u8>, String>) -> (r: EarningsResponse)
    ensures
        match rendered {
            Ok(bytes) => r.content@ == summary_text(events@.len()) && r.image == Some(bytes),
            Err(reason) => r.image.is_none() && r.content@ == fallback_spec(
                digest_text(events@, fetched_at@, 50),
                events@.len(),
                reason@,
                1900,
                1800,
            ),
        },
{
    match rendered {
        Ok(bytes) => {
            let mut content = String::from_str("📊 Earnings Calendar (next 7 days) — ");
            push_decimal(&mut content, events.len() as u64);
            content.append(" events");
            EarningsResponse { content, image: Some(bytes) }
        },
        Err(reason) => {
            let output = format_output(events, fetched_at);
            let content = fallback_text(output.as_str(), events.len(), reason.as_str());
            EarningsResponse { content, image: None }
        },
    }
}

} // verus!
