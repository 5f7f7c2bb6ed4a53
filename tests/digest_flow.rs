use stacks_bot::calendar::Date;
use stacks_bot::digest::{format_digest, format_output, EarningsEvent};
use stacks_bot::fundamentals::{lookback_start, Frequency, StatementType};
use stacks_bot::options::{find_expiration, parse_expirations, slice_chain, OptionsError, StrikeEntry};
use stacks_bot::respond::{after_fetch, after_render, fallback_text, CommandStep, FetchOutcome};
use stacks_bot::scheduler::{classify_fetch, parse_u64, poster_channel, PosterState};

fn event(symbol: &str, month: u32, day: u32, tod: Option<&str>, importance: Option<u8>) -> EarningsEvent {
    EarningsEvent {
        symbol: symbol.to_string(),
        date: Date { year: 2025, month, day },
        time_of_day: tod.map(|t| t.to_string()),
        importance,
        emoji: None,
    }
}

fn many(n: usize) -> Vec<EarningsEvent> {
    (0..n).map(|i| event(&format!("S{}", i), 1, 2, None, None)).collect()
}

fn entries(strikes: &[i64]) -> Vec<StrikeEntry> {
    strikes.iter().enumerate().map(|(index, &strike)| StrikeEntry { strike, index }).collect()
}

#[test]
fn digest_lines_are_exact() {
    let events = vec![
        event("AAPL", 1, 5, Some("amc"), Some(5)),
        event("MSFT", 11, 20, Some("09:00"), Some(4)),
        event("TSLA", 3, 9, Some("during"), None),
        EarningsEvent { emoji: Some("🚀".to_string()), ..event("NVDA", 12, 1, None, Some(3)) },
    ];
    let text = format_output(&events, "2025-01-01 13:00 UTC");
    let expected = "📊 **Earnings Calendar (Next 7 Days)**\nFetched: 2025-01-01 13:00 UTC | Total: 4\n\n📈 **AAPL** 01/05 (AMC) 🔥\n📈 **MSFT** 11/20 (BMO) ⭐\n📈 **TSLA** 03/09 (during)\n🚀 **NVDA** 12/01 (TBA)";
    assert_eq!(text, expected);
}

#[test]
fn digest_caps_items_with_trailer() {
    let events = many(55);
    let text = format_output(&events, "t");
    assert_eq!(text.matches("📈").count(), 50);
    assert!(text.ends_with("\n\n*...and 5 more*"));
    assert!(text.contains("Total: 55"));
    let small = format_digest(&many(3), "t", 2);
    assert_eq!(small.lines().filter(|l| l.starts_with("📈")).count(), 2);
    assert!(small.ends_with("*...and 1 more*"));
    let exact = format_digest(&many(2), "t", 2);
    assert!(!exact.contains("more*"));
}

#[test]
fn empty_earnings_reply_without_render() {
    match after_fetch(FetchOutcome::Success(vec![])) {
        CommandStep::Reply(Ok(resp)) => {
            assert_eq!(resp.content, "No earnings within the next 7 days.");
            assert!(resp.image.is_none());
        }
        other => panic!("unexpected {:?}", other),
    }
}

#[test]
fn fetch_failures_are_told_apart() {
    match after_fetch(FetchOutcome::TimedOut) {
        CommandStep::Reply(Err(m)) => assert!(m.starts_with("Request timed out.") && m.ends_with("try again later.")),
        other => panic!("unexpected {:?}", other),
    }
    match after_fetch(FetchOutcome::UpstreamError("boom".to_string())) {
        CommandStep::Reply(Err(m)) => assert_eq!(m, "Failed to fetch earnings: boom"),
        other => panic!("unexpected {:?}", other),
    }
    assert!(matches!(after_fetch(FetchOutcome::Success(many(1))), CommandStep::Render(v) if v.len() == 1));
}

#[test]
fn timeout_is_classified_as_timeout() {
    assert!(matches!(classify_fetch::<u8>(None), FetchOutcome::TimedOut));
    assert!(matches!(classify_fetch::<u8>(Some(Err("e".to_string()))), FetchOutcome::UpstreamError(m) if m == "e"));
    assert!(matches!(classify_fetch(Some(Ok(3u8))), FetchOutcome::Success(3)));
}

#[test]
fn render_success_sends_image_and_summary() {
    let r = after_render(&many(2), "t", Ok(vec![1, 2, 3]));
    assert_eq!(r.content, "📊 Earnings Calendar (next 7 days) — 2 events");
    assert_eq!(r.image, Some(vec![1, 2, 3]));
}

#[test]
fn render_failure_keeps_reason() {
    let events = many(1);
    let r = after_render(&events, "t", Err("no font".to_string()));
    assert!(r.image.is_none());
    assert_eq!(r.content, format!("{}\n\n⚠️ Image render unavailable: no font", format_output(&events, "t")));
}

#[test]
fn long_fallback_is_truncated_with_notice() {
    let output: String = "📈".repeat(40) + &"x".repeat(2000);
    let r = fallback_text(&output, 45, "down");
    let notice = "\n\n⚠️ *Message truncated - showing first 30 of 45 events. Use filters to see more.*\n⚠️ Image render unavailable: down";
    assert!(r.ends_with(notice));
    assert_eq!(r.chars().count(), 1800 + notice.chars().count());
    let short = fallback_text("abc", 1, "down");
    assert_eq!(short, "abc\n\n⚠️ Image render unavailable: down");
}

#[test]
fn option_slice_orders_and_caps() {
    let calls = entries(&[120, 95, 100, 110, 105, 100]);
    let puts = entries(&[80, 101, 90, 100, 95, 70]);
    let slice = slice_chain("aapl", "2025-01-17", Some(100), &calls, &puts, 3).ok().unwrap();
    assert_eq!(slice.symbol, "AAPL");
    assert_eq!(slice.expiration, "2025-01-17");
    let c: Vec<(i64, usize)> = slice.calls.iter().map(|e| (e.strike, e.index)).collect();
    assert_eq!(c, vec![(100, 2), (100, 5), (105, 4)]);
    let p: Vec<i64> = slice.puts.iter().map(|e| e.strike).collect();
    assert_eq!(p, vec![100, 95, 90]);
    assert_eq!(
        slice_chain("x", "d", None, &calls, &puts, 3).err(),
        Some(OptionsError::NoUnderlyingPrice)
    );
    let wide = slice_chain("x", "d", Some(100), &calls, &puts, 10).ok().unwrap();
    assert_eq!(wide.calls.len(), 5);
    assert_eq!(wide.puts.len(), 5);
}

#[test]
fn expirations_are_found_and_parsed() {
    let raw = vec!["2025-01-17".to_string(), "junk".to_string(), "2025-02-21".to_string()];
    assert_eq!(find_expiration(&raw, "2025-02-21").as_deref(), Some("2025-02-21"));
    assert!(find_expiration(&raw, "2025-03-21").is_none());
    let dates = parse_expirations(&raw).ok().unwrap();
    assert_eq!(dates, vec![Date { year: 2025, month: 1, day: 17 }, Date { year: 2025, month: 2, day: 21 }]);
    assert_eq!(parse_expirations(&vec!["junk".to_string()]).err(), Some(OptionsError::NoExpiration));
}

#[test]
fn poster_posts_once_per_day() {
    let today = Date { year: 2025, month: 6, day: 2 };
    let mut state = PosterState::new(13);
    assert!(!state.is_due(12, today));
    let mut publishes = 0;
    for _ in 0..2 {
        if state.is_due(13, today) {
            if state.finish(today, FetchOutcome::Success(many(2)), "t").is_some() {
                publishes += 1;
                state.record_post(today);
            }
        }
    }
    assert_eq!(publishes, 1);
    assert_eq!(state.last_post, Some(today));
    let tomorrow = Date { year: 2025, month: 6, day: 3 };
    assert!(state.is_due(13, tomorrow));
}

#[test]
fn failed_publish_leaves_day_open() {
    let today = Date { year: 2025, month: 6, day: 2 };
    let mut state = PosterState::new(13);
    assert!(state.finish(today, FetchOutcome::Success(many(1)), "t").is_some());
    assert_eq!(state.last_post, None);
    assert!(state.is_due(13, today));
}

#[test]
fn failed_fetch_leaves_day_open() {
    let today = Date { year: 2025, month: 6, day: 2 };
    let mut state = PosterState::new(13);
    assert!(state.finish(today, FetchOutcome::TimedOut, "t").is_none());
    assert_eq!(state.last_post, None);
    assert!(state.finish(today, FetchOutcome::UpstreamError("e".to_string()), "t").is_none());
    assert!(state.is_due(13, today));
    assert!(state.finish(today, FetchOutcome::Success(vec![]), "t").is_none());
    assert_eq!(state.last_post, Some(today));
}

#[test]
fn poster_configuration() {
    assert_eq!(poster_channel(Some("0"), Some("123")), None);
    assert_eq!(poster_channel(None, Some("0")), None);
    assert_eq!(poster_channel(Some("1"), Some("123")), Some(123));
    assert_eq!(poster_channel(None, Some("+77")), Some(77));
    assert_eq!(poster_channel(None, Some("12a")), None);
    assert_eq!(poster_channel(None, Some("18446744073709551616")), None);
    assert_eq!(poster_channel(None, None), None);
}

#[test]
fn statement_names_and_lookback() {
    assert_eq!(StatementType::IncomeStatement.as_str(), "income");
    assert_eq!(StatementType::BalanceSheet.as_str(), "balance");
    assert_eq!(StatementType::CashFlow.as_str(), "cashflow");
    assert_eq!(Frequency::Annual.as_str(), "annual");
    assert_eq!(Frequency::Quarterly.as_str(), "quarterly");
    assert_eq!(lookback_start(1_000_000_000, 2), Some(1_000_000_000 - 2 * 365 * 86400));
    assert_eq!(lookback_start(i64::MIN + 5, 1), None);
}

#[test]
fn channel_ids_parse_like_from_str() {
    for text in ["0", "+5", "18446744073709551615", "18446744073709551616", "", "+", "-1", " 1", "12x", "007"] {
        assert_eq!(parse_u64(text), text.parse::<u64>().ok(), "for {:?}", text);
    }
}

#[test]
fn dates_are_checked() {
    assert_eq!(Date::new(2024, 2, 29), Some(Date { year: 2024, month: 2, day: 29 }));
    assert_eq!(Date::new(2023, 2, 29), None);
    assert_eq!(Date::new(1900, 2, 29), None);
    assert_eq!(Date::new(2000, 2, 29), Some(Date { year: 2000, month: 2, day: 29 }));
    assert_eq!(Date::new(2025, 4, 31), None);
    assert_eq!(Date::new(2025, 13, 1), None);
    assert_eq!(Date::new(2025, 1, 0), None);
}
