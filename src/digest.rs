//! The earnings digest: a bounded text summary of upcoming earnings events.
use vstd::prelude::*;
use crate::calendar::Date;
use crate::text::{count_char, lemma_count_concat, lemma_count_absent};

verus! {

/// An upcoming earnings announcement.
#[derive(Debug)]
pub struct EarningsEvent {
    pub symbol: String,
    pub date: Date,
    /// The provider's timing tag: `amc`, `bmo`, a clock time, or other text.
    pub time_of_day: Option<String>,
    /// A rank from 1 to 5.
    pub importance: Option<u8>,
    pub emoji: Option<String>,
}

pub open spec fn digit_text(d: nat) -> Seq<char> {
    if d == 0 { "0"@ } else if d == 1 { "1"@ } else if d == 2 { "2"@ } else if d == 3 { "3"@ }
    else if d == 4 { "4"@ } else if d == 5 { "5"@ } else if d == 6 { "6"@ } else if d == 7 { "7"@ }
    else if d == 8 { "8"@ } else { "9"@ }
}

/// Decimal digits of `n`.
pub open spec fn decimal(n: nat) -> Seq<char>
    decreases n,
{
    if n < 10 {
        digit_text(n)
    } else {
        decimal(n / 10) + digit_text(n % 10)
    }
}

/// At least two decimal digits, zero-padded.
pub open spec fn pad2(n: nat) -> Seq<char> {
    if n < 10 {
        "0"@ + decimal(n)
    } else {
        decimal(n)
    }
}

fn digit_str(d: u64) -> (r: &'static str)
    requires
        d < 10,
    ensures
        r@ == digit_text(d as nat),
{
    if d == 0 { "0" } else if d == 1 { "1" } else if d == 2 { "2" } else if d == 3 { "3" }
    else if d == 4 { "4" } else if d == 5 { "5" } else if d == 6 { "6" } else if d == 7 { "7" }
    else if d == 8 { "8" } else { "9" }
}

/// Appends the decimal digits of `n`.
pub fn push_decimal(out: &mut String, n: u64)
    ensures
        final(out)@ == old(out)@ + decimal(n as nat),
    decreases n,
{
    if n < 10 {
        out.append(digit_str(n));
    } else {
        push_decimal(out, n / 10);
        out.append(digit_str(n % 10));
        assert(out@ =~= old(out)@ + decimal(n as nat));
    }
}

pub fn push_pad2(out: &mut String, n: u32)
    ensures
        final(out)@ == old(out)@ + pad2(n as nat),
{
    if n < 10 {
        out.append("0");
    }
    push_decimal(out, n as u64);
    assert(out@ =~= old(out)@ + pad2(n as nat));
}

pub open spec fn opt_view(s: Option<String>) -> Option<Seq<char>> {
    match s {
        Some(t) => Some(t@),
        None => None,
    }
}

/// The announcement timing as shown: AMC, BMO, the provider's own text, or TBA.
pub open spec fn timing_label(t: Option<Seq<char>>) -> Seq<char> {
    match t {
        Some(s) => if s == "16:00"@ || s == "amc"@ {
            "AMC"@
        } else if s == "09:00"@ || s == "bmo"@ {
            "BMO"@
        } else {
            s
        },
        None => "TBA"@,
    }
}

pub open spec fn importance_mark(i: Option<u8>) -> Seq<char> {
    match i {
        Some(5) => " 🔥"@,
        Some(4) => " ⭐"@,
        _ => Seq::empty(),
    }
}

pub open spec fn emoji_text(e: Option<Seq<char>>) -> Seq<char> {
    match e {
        Some(s) => s,
        None => "📈"@,
    }
}

/// One digest line: `emoji **SYMBOL** MM/DD (timing)` and a mark for the
/// most important events.
pub open spec fn event_line(e: EarningsEvent) -> Seq<char> {
    emoji_text(opt_view(e.emoji)) + " **"@ + e.symbol@ + "** "@ + pad2(e.date.month as nat) + "/"@
        + pad2(e.date.day as nat) + " ("@ + timing_label(opt_view(e.time_of_day)) + ")"@
        + importance_mark(e.importance)
}

/// Each event on a line of its own, every line introduced by a newline.
pub open spec fn event_lines(events: Seq<EarningsEvent>) -> Seq<char>
    decreases events.len(),
{
    if events.len() == 0 {
        Seq::empty()
    } else {
        event_lines(events.drop_last()) + "\n"@ + event_line(events.last())
    }
}

pub open spec fn digest_header(fetched_at: Seq<char>, total: nat) -> Seq<char> {
    "📊 **Earnings Calendar (Next 7 Days)**\nFetched: "@ + fetched_at + " | Total: "@ + decimal(total)
        + "\n"@
}

/// The trailer after a capped list: a blank line and the count left out.
pub open spec fn more_trailer(rest: nat) -> Seq<char> {
    "\n\n*...and "@ + decimal(rest) + " more*"@
}

/// The digest of `events`, listing at most `max_items` of them.
pub open spec fn digest_text(events: Seq<EarningsEvent>, fetched_at: Seq<char>, max_items: nat) -> Seq<char> {
    if events.len() > max_items {
        digest_header(fetched_at, events.len()) + event_lines(events.take(max_items as int))
            + more_trailer((events.len() - max_items) as nat)
    } else {
        digest_header(fetched_at, events.len()) + event_lines(events)
    }
}

fn timing_str(t: &Option<String>) -> (r: &str)
    ensures
        r@ == timing_label(opt_view(*t)),
{
    match t {
        Some(s) => {
            let v = s.as_str();
            if crate::text::same_text(v, "16:00") || crate::text::same_text(v, "amc") {
                "AMC"
            } else if crate::text::same_text(v, "09:00") || crate::text::same_text(v, "bmo") {
                "BMO"
            } else {
                v
            }
        },
        None => "TBA",
    }
}

fn push_event_line(out: &mut String, e: &EarningsEvent)
    ensures
        final(out)@ == old(out)@ + "\n"@ + event_line(*e),
{
    out.append("\n");
    let ghost s0 = out@;
    match &e.emoji {
        Some(s) => out.append(s.as_str()),
        None => out.append("📈"),
    }
    assert(out@ == s0 + emoji_text(opt_view(e.emoji)));
    let ghost s1 = out@;
    out.append(" **");
    out.append(e.symbol.as_str());
    out.append("** ");
    push_pad2(out, e.date.month);
    out.append("/");
    push_pad2(out, e.date.day);
    out.append(" (");
    out.append(timing_str(&e.time_of_day));
    out.append(")");
    let ghost s2 = out@;
    match e.importance {
        Some(5) => out.append(" 🔥"),
        Some(4) => out.append(" ⭐"),
        _ => {},
    }
    assert(out@ =~= s2 + importance_mark(e.importance));
    assert(out@ =~= old(out)@ + "\n"@ + event_line(*e));
}

/// Renders the digest, listing at most `max_items` events and, past that, a
/// trailer with the number left out.
pub fn format_digest(events: &Vec<EarningsEvent>, fetched_at: &str, max_items: usize) -> (r: String)
    ensures
        r@ == digest_text(events@, fetched_at@, max_items as nat),
{
    let mut out = String::from_str("📊 **Earnings Calendar (Next 7 Days)**\nFetched: ");
    out.append(fetched_at);
    out.append(" | Total: ");
    push_decimal(&mut out, events.len() as u64);
    out.append("\n");
    assert(out@ =~= digest_header(fetched_at@, events@.len()));
    let shown = if events.len() > max_items {
        max_items
    } else {
        events.len()
    };
    let mut i: usize = 0;
    while i < shown
        invariant
            shown <= events@.len(),
            i <= shown,
            out@ == digest_header(fetched_at@, events@.len()) + event_lines(events@.take(i as int)),
        decreases shown - i,
    {
        assert(events@.take(i + 1).drop_last() =~= events@.take(i as int));
        push_event_line(&mut out, &events[i]);
        i += 1;
        assert(out@ =~= digest_header(fetched_at@, events@.len()) + event_lines(events@.take(i as int)));
    }
    if events.len() > max_items {
        out.append("\n\n*...and ");
        push_decimal(&mut out, (events.len() - max_items) as u64);
        out.append(" more*");
        assert(out@ =~= digest_text(events@, fetched_at@, max_items as nat));
    } else {
        assert(events@.take(i as int) =~= events@);
    }
    out
}

/// The digest with the fixed cap of fifty listed events.
pub fn format_output(events: &Vec<EarningsEvent>, fetched_at: &str) -> (r: String)
    ensures
        r@ == digest_text(events@, fetched_at@, 50),
{
    format_digest(events, fetched_at, 50)
}

/// Item cap: a list longer than `max_items` renders its first `max_items`
/// events, one line each, and then one trailer line with the number of events
/// left out.
pub proof fn lemma_digest_caps_items(events: Seq<EarningsEvent>, fetched_at: Seq<char>, max_items: nat)
    requires
        events.len() > max_items,
    ensures
        digest_text(events, fetched_at, max_items) == digest_header(fetched_at, events.len())
            + event_lines(events.take(max_items as int)) + more_trailer((events.len() - max_items) as nat),
        events.take(max_items as int).len() == max_items,
        more_trailer((events.len() - max_items) as nat) == "\n\n*...and "@ + decimal(
            (events.len() - max_items) as nat,
        ) + " more*"@,
{
}

proof fn lemma_decimal_one_line(n: nat)
    ensures
        count_char(decimal(n), '\n') == 0,
    decreases n,
{
    reveal_strlit("0");
    reveal_strlit("1");
    reveal_strlit("2");
    reveal_strlit("3");
    reveal_strlit("4");
    reveal_strlit("5");
    reveal_strlit("6");
    reveal_strlit("7");
    reveal_strlit("8");
    reveal_strlit("9");
    let d = digit_text(n % 10);
    assert(d.len() == 1 && d[0] != '\n');
    lemma_count_absent(d, '\n');
    if n >= 10 {
        lemma_decimal_one_line(n / 10);
        lemma_count_concat(decimal(n / 10), d, '\n');
    } else {
        assert(digit_text(n) == d);
    }
}

proof fn lemma_newline_count()
    ensures
        count_char("\n"@, '\n') == 1,
{
    reveal_strlit("\n");
    let nl = "\n"@;
    assert(nl.len() == 1 && nl[0] == '\n');
    assert(nl.drop_last() =~= Seq::<char>::empty());
    assert(count_char(Seq::<char>::empty(), '\n') == 0);
}

proof fn lemma_event_lines_count(events: Seq<EarningsEvent>)
    requires
        forall|i: int| 0 <= i < events.len() ==> count_char(#[trigger] event_line(events[i]), '\n') == 0,
    ensures
        count_char(event_lines(events), '\n') == events.len(),
    decreases events.len(),
{
    if events.len() > 0 {
        let rest = events.drop_last();
        assert forall|i: int| 0 <= i < rest.len() implies count_char(#[trigger] event_line(rest[i]), '\n') == 0 by {
            assert(rest[i] == events[i]);
        }
        lemma_event_lines_count(rest);
        lemma_newline_count();
        assert(count_char(event_line(events[events.len() - 1]), '\n') == 0);
        lemma_count_concat(event_lines(rest), "\n"@, '\n');
        lemma_count_concat(event_lines(rest) + "\n"@, event_line(events.last()), '\n');
    }
}

/// Item cap, as lines: when the stamp and each listed event line hold no line
/// break, the digest of more than `max_items` events has `max_items + 4` line
/// breaks, so it reads as two header lines, a blank line, `max_items` event
/// lines, a blank line and the trailer line.
pub proof fn lemma_digest_line_count(events: Seq<EarningsEvent>, fetched_at: Seq<char>, max_items: nat)
    requires
        events.len() > max_items,
        count_char(fetched_at, '\n') == 0,
        forall|i: int| 0 <= i < max_items ==> count_char(#[trigger] event_line(events[i]), '\n') == 0,
    ensures
        count_char(digest_text(events, fetched_at, max_items), '\n') == max_items + 4,
{
    let shown = events.take(max_items as int);
    assert forall|i: int| 0 <= i < shown.len() implies count_char(#[trigger] event_line(shown[i]), '\n') == 0 by {
        assert(shown[i] == events[i]);
    }
    lemma_event_lines_count(shown);
    let rest = (events.len() - max_items) as nat;
    lemma_decimal_one_line(events.len());
    lemma_decimal_one_line(rest);
    let h1 = "📊 **Earnings Calendar (Next 7 Days)**\nFetched: "@;
    let h2 = " | Total: "@;
    let nl = "\n"@;
    let t1 = "\n\n*...and "@;
    let t2 = " more*"@;
    reveal_strlit("📊 **Earnings Calendar (Next 7 Days)**\nFetched: ");
    reveal_strlit(" | Total: ");
    reveal_strlit("\n");
    reveal_strlit("\n\n*...and ");
    reveal_strlit(" more*");
    let k = 37int;
    assert(h1[k] == '\n');
    let ha = h1.take(k);
    let hb = h1.skip(k + 1);
    assert(forall|i: int| 0 <= i < ha.len() ==> #[trigger] ha[i] != '\n');
    assert(forall|i: int| 0 <= i < hb.len() ==> #[trigger] hb[i] != '\n');
    lemma_count_absent(h1.take(k), '\n');
    lemma_count_absent(h1.skip(k + 1), '\n');
    lemma_newline_count();
    assert(h1 =~= h1.take(k) + nl + h1.skip(k + 1));
    lemma_count_concat(h1.take(k), nl, '\n');
    lemma_count_concat(h1.take(k) + nl, h1.skip(k + 1), '\n');
    lemma_count_absent(h2, '\n');
    lemma_count_absent(t2, '\n');
    assert(t1 =~= nl + nl + t1.skip(2));
    lemma_count_absent(t1.skip(2), '\n');
    lemma_count_concat(nl, nl, '\n');
    lemma_count_concat(nl + nl, t1.skip(2), '\n');
    let header = digest_header(fetched_at, events.len());
    lemma_count_concat(h1, fetched_at, '\n');
    lemma_count_concat(h1 + fetched_at, h2, '\n');
    lemma_count_concat(h1 + fetched_at + h2, decimal(events.len()), '\n');
    lemma_count_concat(h1 + fetched_at + h2 + decimal(events.len()), nl, '\n');
    let trailer = more_trailer(rest);
    lemma_count_concat(t1, decimal(rest), '\n');
    lemma_count_concat(t1 + decimal(rest), t2, '\n');
    lemma_count_concat(header, event_lines(shown), '\n');
    lemma_count_concat(header + event_lines(shown), trailer, '\n');
}

} // verus!
