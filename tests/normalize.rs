use stacks_bot::holders::{
    classify_lowered, parse_timestamp, MAX_TIMESTAMP, MIN_TIMESTAMP,
    build_overview, parse_insider_purchases, parse_insider_roster, parse_insider_transactions,
    parse_institutional_holders, parse_major_breakdown, parse_mutualfund_holders, HolderType,
    HoldersData, HoldersError, InsiderTransaction,
};
use stacks_bot::json::{Json, Number};
use stacks_bot::quotes::extract_simple_quote;

fn s(t: &str) -> Json {
    Json::Str(t.to_string())
}

fn whole(n: i64) -> Json {
    Json::Num(Number::Int(n))
}

fn obj(entries: Vec<(&str, Json)>) -> Json {
    Json::Object(entries.into_iter().map(|(k, v)| (k.to_string(), v)).collect())
}

fn raw(n: i64) -> Json {
    obj(vec![("raw", whole(n)), ("fmt", s("x"))])
}

fn summary(module: &str, list_key: &str, items: Vec<Json>) -> Json {
    obj(vec![(module, obj(vec![(list_key, Json::Array(items))]))])
}

fn tx(text: &str, shares: i64) -> InsiderTransaction {
    InsiderTransaction {
        start_date: 0,
        insider: "A".to_string(),
        position: String::new(),
        transaction: text.to_string(),
        shares: Some(shares),
        value: None,
        ownership: None,
    }
}

#[test]
fn lookup_takes_raw_or_direct_value() {
    let v = raw(42);
    assert_eq!(v.whole_value(), Some(42));
    assert_eq!(whole(7).whole_value(), Some(7));
    assert_eq!(s("7").whole_value(), None);
    let o = obj(vec![("a", whole(1)), ("b", whole(2))]);
    assert!(matches!(o.get_either("z", "b"), Some(Json::Num(Number::Int(2)))));
    assert!(matches!(o.get_either("a", "b"), Some(Json::Num(Number::Int(1)))));
    assert!(o.get("c").is_none());
}

#[test]
fn institutional_holders_are_normalised() {
    let items = vec![
        obj(vec![
            ("organization", s("Vanguard")),
            ("position", raw(1000)),
            ("reportDate", raw(1700000000)),
            ("pctHeld", obj(vec![("raw", Json::Num(Number::Other("0.08".to_string())))])),
            ("value", raw(5000)),
        ]),
        obj(vec![("organization", s("")), ("position", raw(1))]),
        obj(vec![("organization", s("  \u{3000}")), ("position", raw(1))]),
        obj(vec![("position", raw(1))]),
        obj(vec![
            ("organization", s("BlackRock")),
            ("position", s("not a number")),
            ("reportDate", raw(i64::MAX)),
            ("percentOut", whole(3)),
        ]),
    ];
    let doc = summary("institutionOwnership", "ownershipList", items);
    let holders = parse_institutional_holders(&doc).unwrap();
    assert_eq!(holders.len(), 2);
    assert_eq!(holders[0].holder, "Vanguard");
    assert_eq!(holders[0].shares, 1000);
    assert_eq!(holders[0].date_reported, 1700000000);
    assert!(matches!(&holders[0].percent_out, Some(Number::Other(t)) if t == "0.08"));
    assert_eq!(holders[0].value, Some(5000));
    assert_eq!(holders[1].holder, "BlackRock");
    assert_eq!(holders[1].shares, 0);
    assert_eq!(holders[1].date_reported, 0);
    assert!(matches!(holders[1].percent_out, Some(Number::Int(3))));
    assert_eq!(holders[1].value, None);
}

#[test]
fn absent_and_empty_lists_differ() {
    let doc = obj(vec![("fundOwnership", obj(vec![]))]);
    assert!(parse_mutualfund_holders(&doc).is_none());
    let doc = summary("fundOwnership", "ownershipList", vec![obj(vec![("organization", s(""))])]);
    assert!(parse_mutualfund_holders(&doc).is_none());
    let doc = summary("fundOwnership", "ownershipList", vec![]);
    assert!(parse_mutualfund_holders(&doc).is_none());
    let doc = summary("insiderTransactions", "transactions", vec![obj(vec![("filerName", s(" \t "))])]);
    assert!(parse_insider_transactions(&doc).is_none());
    let doc = summary("insiderHolders", "holders", vec![]);
    assert!(parse_insider_roster(&doc).is_none());
}

#[test]
fn insider_transactions_use_fallback_keys() {
    let items = vec![
        obj(vec![
            ("insider", s("Jane Roe")),
            ("filerRelation", s("CEO")),
            ("transaction", s("Sale at price 10")),
            ("startDate", raw(86400)),
            ("shares", raw(40)),
        ]),
        obj(vec![("filerName", s("")), ("insider", s("ignored"))]),
    ];
    let doc = summary("insiderTransactions", "transactions", items);
    let txs = parse_insider_transactions(&doc).unwrap();
    assert_eq!(txs.len(), 1);
    assert_eq!(txs[0].insider, "Jane Roe");
    assert_eq!(txs[0].position, "CEO");
    assert_eq!(txs[0].transaction, "Sale at price 10");
    assert_eq!(txs[0].start_date, 86400);
    assert_eq!(txs[0].shares, Some(40));
    assert_eq!(txs[0].ownership.as_deref(), Some("CEO"));
}

#[test]
fn insider_roster_is_normalised() {
    let items = vec![obj(vec![
        ("name", s("John Doe")),
        ("relation", s("Director")),
        ("transactionDescription", s("Stock Gift")),
        ("latestTransDate", raw(100)),
        ("positionDirect", raw(500)),
        ("sharesOwnedIndirectly", whole(20)),
    ])];
    let doc = summary("insiderHolders", "holders", items);
    let roster = parse_insider_roster(&doc).unwrap();
    assert_eq!(roster.len(), 1);
    assert_eq!(roster[0].name, "John Doe");
    assert_eq!(roster[0].position, "Director");
    assert_eq!(roster[0].most_recent_transaction.as_deref(), Some("Stock Gift"));
    assert_eq!(roster[0].latest_transaction_date, Some(100));
    assert_eq!(roster[0].shares_owned_directly, Some(500));
    assert_eq!(roster[0].shares_owned_indirectly, Some(20));
    assert_eq!(roster[0].position_direct_date, None);
}

#[test]
fn insider_purchases_aggregate() {
    let p = parse_insider_purchases(Some(vec![tx("buy", 100), tx("sale", 40), tx("hold", 10)])).unwrap();
    assert_eq!(p.period, "recent");
    assert_eq!(p.purchases_shares, Some(100));
    assert_eq!(p.purchases_transactions, Some(1));
    assert_eq!(p.sales_shares, Some(40));
    assert_eq!(p.sales_transactions, Some(1));
    assert_eq!(p.net_shares, Some(60));
    assert_eq!(p.net_transactions, Some(0));
}

#[test]
fn insider_purchases_ignore_case_and_prefer_purchase() {
    let p = parse_insider_purchases(Some(vec![
        tx("Purchase at price 5", 10),
        tx("SELL and BUY", 3),
        tx("Sold", 7),
    ]))
    .unwrap();
    assert_eq!(p.purchases_shares, Some(13));
    assert_eq!(p.purchases_transactions, Some(2));
    assert_eq!(p.sales_shares, Some(0));
    assert_eq!(p.sales_transactions, Some(0));
}

#[test]
fn insider_purchases_none_without_transactions() {
    assert!(parse_insider_purchases(None).is_none());
    assert!(parse_insider_purchases(Some(vec![])).is_none());
}

#[test]
fn insider_purchases_drop_totals_that_overflow() {
    let p = parse_insider_purchases(Some(vec![tx("buy", i64::MAX), tx("buy", 1), tx("sale", i64::MAX)])).unwrap();
    assert_eq!(p.purchases_shares, None);
    assert_eq!(p.sales_shares, Some(i64::MAX));
    assert_eq!(p.net_shares, Some(1));
}

#[test]
fn overview_needs_a_result_entry() {
    let doc = obj(vec![("quoteSummary", obj(vec![("result", Json::Array(vec![]))]))]);
    assert_eq!(build_overview("aapl", HolderType::Major, doc).err(), Some(HoldersError::MissingResult));
}

#[test]
fn overview_selects_one_module() {
    let result = obj(vec![(
        "insiderTransactions",
        obj(vec![(
            "transactions",
            Json::Array(vec![
                obj(vec![("filerName", s("A")), ("transactionText", s("Buy")), ("shares", raw(5))]),
                obj(vec![("filerName", s("B")), ("transactionText", s("Sale")), ("shares", raw(2))]),
            ]),
        )]),
    )]);
    let doc = obj(vec![("quoteSummary", obj(vec![("result", Json::Array(vec![result]))]))]);
    let o = build_overview("aapl", HolderType::InsiderPurchases, doc).ok().unwrap();
    assert_eq!(o.symbol, "AAPL");
    match o.data {
        HoldersData::InsiderPurchases(Some(p)) => assert_eq!(p.net_shares, Some(3)),
        other => panic!("unexpected {:?}", other),
    }
}

#[test]
fn major_breakdown_keeps_entries() {
    let result = obj(vec![("majorHoldersBreakdown", obj(vec![("insidersPercentHeld", raw(1))]))]);
    let b = parse_major_breakdown(result).unwrap();
    assert_eq!(b.breakdown_data.len(), 1);
    assert_eq!(b.breakdown_data[0].0, "insidersPercentHeld");
    assert!(parse_major_breakdown(obj(vec![("majorHoldersBreakdown", s("x"))])).is_none());
}

#[test]
fn simple_quote_is_read() {
    let item = obj(vec![
        ("symbol", s("AAPL")),
        ("shortName", s("Apple")),
        ("regularMarketPrice", Json::Num(Number::Other("189.5".to_string()))),
        ("financialCurrency", s("USD")),
        ("regularMarketChange", whole(2)),
    ]);
    let data = obj(vec![("quoteResponse", obj(vec![("result", Json::Array(vec![item]))]))]);
    let q = extract_simple_quote(&data).unwrap();
    assert_eq!(q.symbol, "AAPL");
    assert_eq!(q.name, "Apple");
    assert!(matches!(&q.price, Some(Number::Other(t)) if t == "189.5"));
    assert_eq!(q.currency.as_deref(), Some("USD"));
    assert!(matches!(q.change, Some(Number::Int(2))));
    assert!(q.pre_market_price.is_none());
    let no_symbol = obj(vec![("quoteResponse", obj(vec![("result", Json::Array(vec![obj(vec![])]))]))]);
    assert!(extract_simple_quote(&no_symbol).is_none());
}

#[test]
fn timestamp_bounds_match_chrono() {
    for t in [MIN_TIMESTAMP - 1, MIN_TIMESTAMP, 0, MAX_TIMESTAMP, MAX_TIMESTAMP + 1, i64::MIN, i64::MAX] {
        let expected = chrono::DateTime::from_timestamp(t, 0).map(|_| t);
        assert_eq!(parse_timestamp(Some(&raw(t))), expected, "at {}", t);
    }
}

#[test]
fn lowered_descriptions_are_classified() {
    assert_eq!(classify_lowered("purchase at price 5"), 1);
    assert_eq!(classify_lowered("sale and buy"), 1);
    assert_eq!(classify_lowered("sold by sell order"), 2);
    assert_eq!(classify_lowered("stock gift"), 0);
    assert_eq!(classify_lowered("BUY"), 0);
}
