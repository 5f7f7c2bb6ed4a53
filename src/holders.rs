//! Ownership and insider-activity records built from quote-summary documents.
use vstd::prelude::*;
use crate::json::{Json, Number, deref_opt, str_of, int_of};
use crate::text::{has_infix, contains_text, upper_of, uppercase, blank, is_blank};

verus! {

/// The first second that chrono represents: -262143-01-01 00:00:00 UTC, in
/// seconds since the Unix epoch.
pub const MIN_TIMESTAMP: i64 = -8334601228800;

/// The last second that chrono represents: 262142-12-31 23:59:59 UTC, in
/// seconds since the Unix epoch.
pub const MAX_TIMESTAMP: i64 = 8210266876799;

/// Relies on chrono::DateTime::from_timestamp with no nanoseconds: `Some`
/// exactly for the seconds from `MIN_TIMESTAMP` to `MAX_TIMESTAMP`.
#[verifier::external_body]
fn timestamp_representable(secs: i64) -> (r: bool)
    ensures
        r == (MIN_TIMESTAMP <= secs <= MAX_TIMESTAMP),
{
    chrono::DateTime::from_timestamp(secs, 0).is_some()
}

/// The name of what str::to_lowercase returns.
pub uninterp spec fn lower_of(s: Seq<char>) -> Seq<char>;

/// Relies on str::to_lowercase: the result depends on the characters alone.
#[verifier::external_body]
fn lowercase(s: &str) -> (r: String)
    ensures
        r@ == lower_of(s@),
{
    s.to_lowercase()
}

/// Which ownership or insider module a caller asks for.
#[derive(PartialEq, Eq, Structural, Clone, Copy, Debug)]
pub enum HolderType {
    Major,
    Institutional,
    MutualFund,
    InsiderTransactions,
    InsiderPurchases,
    InsiderRoster,
}

/// An institution or fund that holds the stock.
#[derive(Debug)]
pub struct OwnershipHolder {
    pub holder: String,
    pub shares: i64,
    /// Seconds since the Unix epoch.
    pub date_reported: i64,
    pub percent_out: Option<Number>,
    pub value: Option<i64>,
}

#[derive(Debug)]
pub struct InsiderTransaction {
    /// Seconds since the Unix epoch.
    pub start_date: i64,
    pub insider: String,
    pub position: String,
    pub transaction: String,
    pub shares: Option<i64>,
    pub value: Option<i64>,
    pub ownership: Option<String>,
}

/// Totals of insider purchases and sales; a total that does not fit in `i64`
/// is left out.
#[derive(Debug)]
pub struct InsiderPurchase {
    pub period: String,
    pub purchases_shares: Option<i64>,
    pub purchases_transactions: Option<i64>,
    pub sales_shares: Option<i64>,
    pub sales_transactions: Option<i64>,
    pub net_shares: Option<i64>,
    pub net_transactions: Option<i64>,
}

#[derive(Debug)]
pub struct InsiderRosterMember {
    pub name: String,
    pub position: String,
    pub most_recent_transaction: Option<String>,
    pub latest_transaction_date: Option<i64>,
    pub shares_owned_directly: Option<i64>,
    pub shares_owned_indirectly: Option<i64>,
    pub position_direct_date: Option<i64>,
}

#[derive(Debug)]
pub struct MajorHoldersBreakdown {
    pub breakdown_data: Vec<(String, Json)>,
}

/// Exactly one module's records, selected by the requested holder type.
/// `None` inside a variant means no data: the provider sent nothing for it,
/// or nothing that names its holder.
#[derive(Debug)]
pub enum HoldersData {
    Major(Option<MajorHoldersBreakdown>),
    Institutional(Option<Vec<OwnershipHolder>>),
    MutualFund(Option<Vec<OwnershipHolder>>),
    InsiderTransactions(Option<Vec<InsiderTransaction>>),
    InsiderPurchases(Option<InsiderPurchase>),
    InsiderRoster(Option<Vec<InsiderRosterMember>>),
}

#[derive(Debug)]
pub struct HoldersOverview {
    pub symbol: String,
    pub data: HoldersData,
}

// ---- field resolution -------------------------------------------------------

/// Text of a string field, or the empty text.
pub open spec fn text_or_empty(v: Option<Json>) -> Seq<char> {
    match str_of(v) {
        Some(s) => s,
        None => Seq::empty(),
    }
}

pub open spec fn opt_whole(v: Option<Json>) -> Option<i64> {
    match v {
        Some(j) => j.whole(),
        None => None,
    }
}

pub open spec fn opt_numeric(v: Option<Json>) -> Option<Number> {
    match v {
        Some(j) => j.numeric(),
        None => None,
    }
}

/// A `{"raw": seconds}` field within the range that chrono represents.
pub open spec fn opt_stamp(v: Option<Json>) -> Option<i64> {
    match v {
        Some(j) => match int_of(j.member(seq!['r', 'a', 'w'])) {
            Some(t) => if MIN_TIMESTAMP <= t <= MAX_TIMESTAMP {
                Some(t)
            } else {
                None
            },
            None => None,
        },
        None => None,
    }
}

pub open spec fn opt_text_view(v: Option<String>) -> Option<Seq<char>> {
    match v {
        Some(s) => Some(s@),
        None => None,
    }
}

/// A string field, or the empty string when it is absent or not a string.
pub fn text_field(v: Option<&Json>) -> (r: String)
    ensures
        r@ == text_or_empty(deref_opt(v)),
{
    match v {
        Some(j) => match j.as_text() {
            Some(s) => s.to_string(),
            None => String::new(),
        },
        None => String::new(),
    }
}

/// A string field, when it is present and a string.
pub fn opt_text_field(v: Option<&Json>) -> (r: Option<String>)
    ensures
        opt_text_view(r) == str_of(deref_opt(v)),
{
    match v {
        Some(j) => match j.as_text() {
            Some(s) => Some(s.to_string()),
            None => None,
        },
        None => None,
    }
}

/// An integer field, given directly or as `{"raw": n}`.
pub fn value_to_i64(v: Option<&Json>) -> (r: Option<i64>)
    ensures
        r == opt_whole(deref_opt(v)),
{
    match v {
        Some(j) => j.whole_value(),
        None => None,
    }
}

/// A numeric field, given directly or as `{"raw": n}`.
pub fn value_to_number(v: Option<&Json>) -> (r: Option<Number>)
    ensures
        r == opt_numeric(deref_opt(v)),
{
    match v {
        Some(j) => match j.numeric_value() {
            Some(n) => Some(n.duplicate()),
            None => None,
        },
        None => None,
    }
}

/// A `{"raw": seconds}` field that is a representable UTC instant.
pub fn parse_timestamp(v: Option<&Json>) -> (r: Option<i64>)
    ensures
        r == opt_stamp(deref_opt(v)),
{
    proof {
        reveal_strlit("raw");
        assert("raw"@ =~= seq!['r', 'a', 'w']);
    }
    match v {
        Some(j) => match j.get("raw") {
            Some(raw) => match raw.as_int() {
                Some(t) => if timestamp_representable(t) {
                    Some(t)
                } else {
                    None
                },
                None => None,
            },
            None => None,
        },
        None => None,
    }
}

// ---- list builders ----------------------------------------------------------

pub open spec fn stamp_or_zero(v: Option<Json>) -> i64 {
    match opt_stamp(v) {
        Some(t) => t,
        None => 0,
    }
}

/// The list stored under `result[module][key]`, if that is an array.
pub open spec fn list_at(result: Json, module: Seq<char>, key: Seq<char>) -> Option<Seq<Json>> {
    match result.member(module) {
        Some(m) => match m.member(key) {
            Some(Json::Array(items)) => Some(items@),
            _ => None,
        },
        None => None,
    }
}

/// The items that `keep` accepts, in their order.
pub open spec fn kept(items: Seq<Json>, keep: spec_fn(Json) -> bool) -> Seq<Json>
    decreases items.len(),
{
    if items.len() == 0 {
        Seq::empty()
    } else {
        let rest = kept(items.drop_last(), keep);
        if keep(items.last()) {
            rest.push(items.last())
        } else {
            rest
        }
    }
}

pub open spec fn ownership_named(item: Json) -> bool {
    !blank(text_or_empty(item.member("organization"@)))
}

pub open spec fn ownership_kept(items: Seq<Json>) -> Seq<Json> {
    kept(items, |it: Json| ownership_named(it))
}

/// `h` is the holder record that `item` describes.
pub open spec fn ownership_of(h: OwnershipHolder, item: Json) -> bool {
    &&& h.holder@ == text_or_empty(item.member("organization"@))
    &&& h.shares == (match opt_whole(item.member("position"@)) {
        Some(n) => n,
        None => 0,
    })
    &&& h.date_reported == stamp_or_zero(item.member("reportDate"@))
    &&& h.percent_out == (if opt_numeric(item.member("pctHeld"@)).is_some() {
        opt_numeric(item.member("pctHeld"@))
    } else {
        opt_numeric(item.member("percentOut"@))
    })
    &&& h.value == opt_whole(item.member("value"@))
}

fn ownership_entry(item: &Json) -> (r: Option<OwnershipHolder>)
    ensures
        r.is_some() == ownership_named(*item),
        r.is_some() ==> ownership_of(r.unwrap(), *item),
{
    let holder = text_field(item.get("organization"));
    if is_blank(holder.as_str()) {
        return None;
    }
    let shares = match value_to_i64(item.get("position")) {
        Some(n) => n,
        None => 0,
    };
    let date_reported = match parse_timestamp(item.get("reportDate")) {
        Some(t) => t,
        None => 0,
    };
    let percent_out = match value_to_number(item.get("pctHeld")) {
        Some(n) => Some(n),
        None => value_to_number(item.get("percentOut")),
    };
    let value = value_to_i64(item.get("value"));
    Some(OwnershipHolder { holder, shares, date_reported, percent_out, value })
}

/// Holders under `result[module]["ownershipList"]`; `None` when that list is
/// absent or no entry names its holder.
fn parse_ownership(result: &Json, module: &str) -> (r: Option<Vec<OwnershipHolder>>)
    ensures
        ownership_listing(r, *result, module@),
{
    let list = match result.get(module) {
        Some(m) => match m.get("ownershipList") {
            Some(Json::Array(items)) => items,
            _ => return None,
        },
        None => return None,
    };
    let mut out: Vec<OwnershipHolder> = Vec::new();
    let mut i: usize = 0;
    while i < list.len()
        invariant
            i <= list.len(),
            out@.len() == ownership_kept(list@.take(i as int)).len(),
            forall|j: int| 0 <= j < out@.len() ==> ownership_of(#[trigger] out@[j], ownership_kept(list@.take(i as int))[j]),
        decreases list.len() - i,
    {
        assert(list@.take(i + 1).drop_last() =~= list@.take(i as int));
        match ownership_entry(&list[i]) {
            Some(h) => out.push(h),
            None => {},
        }
        i += 1;
    }
    assert(list@.take(list.len() as int) =~= list@);
    if out.len() == 0 {
        None
    } else {
        Some(out)
    }
}

/// Institutional holders; `None` when the module's list is absent or names
/// no holder.
pub fn parse_institutional_holders(result: &Json) -> (r: Option<Vec<OwnershipHolder>>)
    ensures
        ownership_listing(r, *result, "institutionOwnership"@),
{
    parse_ownership(result, "institutionOwnership")
}

/// Mutual-fund holders; `None` when the module's list is absent or names
/// no holder.
pub fn parse_mutualfund_holders(result: &Json) -> (r: Option<Vec<OwnershipHolder>>)
    ensures
        ownership_listing(r, *result, "fundOwnership"@),
{
    parse_ownership(result, "fundOwnership")
}

pub open spec fn insider_named(item: Json) -> bool {
    !blank(text_or_empty(item.member_either("filerName"@, "insider"@)))
}

pub open spec fn insider_kept(items: Seq<Json>) -> Seq<Json> {
    kept(items, |it: Json| insider_named(it))
}

/// `t` is the transaction record that `item` describes.
pub open spec fn transaction_of(t: InsiderTransaction, item: Json) -> bool {
    &&& t.insider@ == text_or_empty(item.member_either("filerName"@, "insider"@))
    &&& t.position@ == text_or_empty(item.member_either("filerRelation"@, "position"@))
    &&& t.transaction@ == text_or_empty(item.member_either("transactionText"@, "transaction"@))
    &&& t.start_date == stamp_or_zero(item.member("startDate"@))
    &&& t.shares == opt_whole(item.member("shares"@))
    &&& t.value == opt_whole(item.member("value"@))
    &&& opt_text_view(t.ownership) == str_of(item.member_either("ownership"@, "filerRelation"@))
}

fn transaction_entry(item: &Json) -> (r: Option<InsiderTransaction>)
    ensures
        r.is_some() == insider_named(*item),
        r.is_some() ==> transaction_of(r.unwrap(), *item),
{
    let insider = text_field(item.get_either("filerName", "insider"));
    if is_blank(insider.as_str()) {
        return None;
    }
    let position = text_field(item.get_either("filerRelation", "position"));
    let transaction = text_field(item.get_either("transactionText", "transaction"));
    let start_date = match parse_timestamp(item.get("startDate")) {
        Some(t) => t,
        None => 0,
    };
    let shares = value_to_i64(item.get("shares"));
    let value = value_to_i64(item.get("value"));
    let ownership = opt_text_field(item.get_either("ownership", "filerRelation"));
    Some(InsiderTransaction { start_date, insider, position, transaction, shares, value, ownership })
}

/// Insider transactions; `None` when the module's list is absent or names
/// no insider.
pub fn parse_insider_transactions(result: &Json) -> (r: Option<Vec<InsiderTransaction>>)
    ensures
        transactions_listing(r, *result),
{
    let list = match result.get("insiderTransactions") {
        Some(m) => match m.get("transactions") {
            Some(Json::Array(items)) => items,
            _ => return None,
        },
        None => return None,
    };
    let mut out: Vec<InsiderTransaction> = Vec::new();
    let mut i: usize = 0;
    while i < list.len()
        invariant
            i <= list.len(),
            out@.len() == insider_kept(list@.take(i as int)).len(),
            forall|j: int| 0 <= j < out@.len() ==> transaction_of(#[trigger] out@[j], insider_kept(list@.take(i as int))[j]),
        decreases list.len() - i,
    {
        assert(list@.take(i + 1).drop_last() =~= list@.take(i as int));
        match transaction_entry(&list[i]) {
            Some(t) => out.push(t),
            None => {},
        }
        i += 1;
    }
    assert(list@.take(list.len() as int) =~= list@);
    if out.len() == 0 {
        None
    } else {
        Some(out)
    }
}

pub open spec fn roster_named(item: Json) -> bool {
    !blank(text_or_empty(item.member("name"@)))
}

pub open spec fn roster_kept(items: Seq<Json>) -> Seq<Json> {
    kept(items, |it: Json| roster_named(it))
}

/// `m` is the roster entry that `item` describes.
pub open spec fn member_of(m: InsiderRosterMember, item: Json) -> bool {
    &&& m.name@ == text_or_empty(item.member("name"@))
    &&& m.position@ == text_or_empty(item.member_either("relation"@, "position"@))
    &&& opt_text_view(m.most_recent_transaction) == str_of(
        item.member_either("transactionDescription"@, "mostRecentTransaction"@),
    )
    &&& m.latest_transaction_date == opt_stamp(
        item.member_either("latestTransDate"@, "latestTransactionDate"@),
    )
    &&& m.shares_owned_directly == opt_whole(item.member_either("positionDirect"@, "sharesOwnedDirectly"@))
    &&& m.shares_owned_indirectly == opt_whole(
        item.member_either("positionIndirect"@, "sharesOwnedIndirectly"@),
    )
    &&& m.position_direct_date == opt_stamp(item.member("positionDirectDate"@))
}

fn roster_entry(item: &Json) -> (r: Option<InsiderRosterMember>)
    ensures
        r.is_some() == roster_named(*item),
        r.is_some() ==> member_of(r.unwrap(), *item),
{
    let name = text_field(item.get("name"));
    if is_blank(name.as_str()) {
        return None;
    }
    let position = text_field(item.get_either("relation", "position"));
    let most_recent_transaction = opt_text_field(
        item.get_either("transactionDescription", "mostRecentTransaction"),
    );
    let latest_transaction_date = parse_timestamp(item.get_either("latestTransDate", "latestTransactionDate"));
    let shares_owned_directly = value_to_i64(item.get_either("positionDirect", "sharesOwnedDirectly"));
    let shares_owned_indirectly = value_to_i64(item.get_either("positionIndirect", "sharesOwnedIndirectly"));
    let position_direct_date = parse_timestamp(item.get("positionDirectDate"));
    Some(
        InsiderRosterMember {
            name,
            position,
            most_recent_transaction,
            latest_transaction_date,
            shares_owned_directly,
            shares_owned_indirectly,
            position_direct_date,
        },
    )
}

/// The insider roster; `None` when the module's list is absent or names
/// no one.
pub fn parse_insider_roster(result: &Json) -> (r: Option<Vec<InsiderRosterMember>>)
    ensures
        roster_listing(r, *result),
{
    let list = match result.get("insiderHolders") {
        Some(m) => match m.get("holders") {
            Some(Json::Array(items)) => items,
            _ => return None,
        },
        None => return None,
    };
    let mut out: Vec<InsiderRosterMember> = Vec::new();
    let mut i: usize = 0;
    while i < list.len()
        invariant
            i <= list.len(),
            out@.len() == roster_kept(list@.take(i as int)).len(),
            forall|j: int| 0 <= j < out@.len() ==> member_of(#[trigger] out@[j], roster_kept(list@.take(i as int))[j]),
        decreases list.len() - i,
    {
        assert(list@.take(i + 1).drop_last() =~= list@.take(i as int));
        match roster_entry(&list[i]) {
            Some(m) => out.push(m),
            None => {},
        }
        i += 1;
    }
    assert(list@.take(list.len() as int) =~= list@);
    if out.len() == 0 {
        None
    } else {
        Some(out)
    }
}


/// `r` holds the records of the holders listed under `result[module]`;
/// `None` when that list is absent or keeps no entry.
pub open spec fn ownership_listing(r: Option<Vec<OwnershipHolder>>, result: Json, module: Seq<char>) -> bool {
    &&& r.is_some() == (list_at(result, module, "ownershipList"@).is_some()
        && ownership_kept(list_at(result, module, "ownershipList"@).unwrap()).len() > 0)
    &&& r.is_some() ==> {
        let src = ownership_kept(list_at(result, module, "ownershipList"@).unwrap());
        &&& r.unwrap()@.len() == src.len()
        &&& forall|j: int| 0 <= j < src.len() ==> ownership_of(#[trigger] r.unwrap()@[j], src[j])
    }
}

/// `r` holds the records of the insider transactions in `result`; `None`
/// when that list is absent or keeps no entry.
pub open spec fn transactions_listing(r: Option<Vec<InsiderTransaction>>, result: Json) -> bool {
    &&& r.is_some() == (list_at(result, "insiderTransactions"@, "transactions"@).is_some()
        && insider_kept(list_at(result, "insiderTransactions"@, "transactions"@).unwrap()).len() > 0)
    &&& r.is_some() ==> {
        let src = insider_kept(list_at(result, "insiderTransactions"@, "transactions"@).unwrap());
        &&& r.unwrap()@.len() == src.len()
        &&& forall|j: int| 0 <= j < src.len() ==> transaction_of(#[trigger] r.unwrap()@[j], src[j])
    }
}

/// `r` holds the records of the insider roster in `result`; `None` when
/// that list is absent or keeps no entry.
pub open spec fn roster_listing(r: Option<Vec<InsiderRosterMember>>, result: Json) -> bool {
    &&& r.is_some() == (list_at(result, "insiderHolders"@, "holders"@).is_some()
        && roster_kept(list_at(result, "insiderHolders"@, "holders"@).unwrap()).len() > 0)
    &&& r.is_some() ==> {
        let src = roster_kept(list_at(result, "insiderHolders"@, "holders"@).unwrap());
        &&& r.unwrap()@.len() == src.len()
        &&& forall|j: int| 0 <= j < src.len() ==> member_of(#[trigger] r.unwrap()@[j], src[j])
    }
}

// ---- insider purchase summary ----------------------------------------------

/// Lower-cased text that mentions buying.
pub open spec fn purchase_words(lower: Seq<char>) -> bool {
    has_infix(lower, "buy"@) || has_infix(lower, "purchase"@)
}

/// Lower-cased text that mentions selling.
pub open spec fn sale_words(lower: Seq<char>) -> bool {
    has_infix(lower, "sell"@) || has_infix(lower, "sale"@)
}

/// A description counts as a purchase when, lower-cased, it mentions buying.
pub open spec fn is_purchase(text: Seq<char>) -> bool {
    purchase_words(lower_of(text))
}

/// A description counts as a sale when it is no purchase and, lower-cased,
/// mentions selling.
pub open spec fn is_sale(text: Seq<char>) -> bool {
    !is_purchase(text) && sale_words(lower_of(text))
}

pub open spec fn shares_or_zero(t: InsiderTransaction) -> int {
    match t.shares {
        Some(n) => n as int,
        None => 0,
    }
}

pub open spec fn purchased_shares(txs: Seq<InsiderTransaction>) -> int
    decreases txs.len(),
{
    if txs.len() == 0 {
        0
    } else {
        purchased_shares(txs.drop_last()) + if is_purchase(txs.last().transaction@) {
            shares_or_zero(txs.last())
        } else {
            0
        }
    }
}

pub open spec fn purchase_count(txs: Seq<InsiderTransaction>) -> int
    decreases txs.len(),
{
    if txs.len() == 0 {
        0
    } else {
        purchase_count(txs.drop_last()) + if is_purchase(txs.last().transaction@) {
            1int
        } else {
            0
        }
    }
}

pub open spec fn sold_shares(txs: Seq<InsiderTransaction>) -> int
    decreases txs.len(),
{
    if txs.len() == 0 {
        0
    } else {
        sold_shares(txs.drop_last()) + if is_sale(txs.last().transaction@) {
            shares_or_zero(txs.last())
        } else {
            0
        }
    }
}

pub open spec fn sale_count(txs: Seq<InsiderTransaction>) -> int
    decreases txs.len(),
{
    if txs.len() == 0 {
        0
    } else {
        sale_count(txs.drop_last()) + if is_sale(txs.last().transaction@) {
            1int
        } else {
            0
        }
    }
}

/// `v` as an `i64`, when it fits.
pub open spec fn fit(v: int) -> Option<i64> {
    if i64::MIN <= v <= i64::MAX {
        Some(v as i64)
    } else {
        None
    }
}

/// The summary that `txs` aggregates to.
pub open spec fn summarises(p: InsiderPurchase, txs: Seq<InsiderTransaction>) -> bool {
    &&& p.period@ == "recent"@
    &&& p.purchases_shares == fit(purchased_shares(txs))
    &&& p.purchases_transactions == fit(purchase_count(txs))
    &&& p.sales_shares == fit(sold_shares(txs))
    &&& p.sales_transactions == fit(sale_count(txs))
    &&& p.net_shares == fit(purchased_shares(txs) - sold_shares(txs))
    &&& p.net_transactions == fit(purchase_count(txs) - sale_count(txs))
}

fn fit_value(v: i128) -> (r: Option<i64>)
    ensures
        r == fit(v as int),
{
    if i64::MIN as i128 <= v && v <= i64::MAX as i128 {
        Some(v as i64)
    } else {
        None
    }
}

fn fit_difference(a: i128, b: i128) -> (r: Option<i64>)
    ensures
        r == fit(a - b),
{
    if (a >= 0) == (b >= 0) {
        fit_value(a - b)
    } else if a >= 0 {
        if a <= i64::MAX as i128 && b >= -(i64::MAX as i128) {
            fit_value(a - b)
        } else {
            None
        }
    } else {
        if a >= i64::MIN as i128 && b <= i64::MAX as i128 {
            fit_value(a - b)
        } else {
            None
        }
    }
}

/// Classifies lower-cased text: 1 for a purchase, 2 for a sale, 0 for
/// neither; a text that mentions both counts as a purchase.
pub fn classify_lowered(lower: &str) -> (r: u8)
    ensures
        r == 1 <==> purchase_words(lower@),
        r == 2 <==> !purchase_words(lower@) && sale_words(lower@),
        r <= 2,
{
    if contains_text(lower, "buy") || contains_text(lower, "purchase") {
        1
    } else if contains_text(lower, "sell") || contains_text(lower, "sale") {
        2
    } else {
        0
    }
}

/// Classifies a description: 1 for a purchase, 2 for a sale, 0 for neither.
fn classify(text: &str) -> (r: u8)
    ensures
        r == 1 <==> is_purchase(text@),
        r == 2 <==> is_sale(text@),
        r <= 2,
{
    let lower = lowercase(text);
    classify_lowered(lower.as_str())
}

/// Sums purchases and sales over the transactions; `None` when there are
/// none. Descriptions that mention neither are left out of both totals.
pub fn parse_insider_purchases(txs: Option<Vec<InsiderTransaction>>) -> (r: Option<InsiderPurchase>)
    ensures
        r.is_some() == (txs.is_some() && txs.unwrap()@.len() > 0),
        r.is_some() ==> summarises(r.unwrap(), txs.unwrap()@),
{
    let txs = match txs {
        Some(t) => t,
        None => return None,
    };
    if txs.len() == 0 {
        return None;
    }
    let mut ps: i128 = 0;
    let mut pc: i128 = 0;
    let mut ss: i128 = 0;
    let mut sc: i128 = 0;
    let mut i: usize = 0;
    while i < txs.len()
        invariant
            i <= txs.len(),
            ps == purchased_shares(txs@.take(i as int)),
            pc == purchase_count(txs@.take(i as int)),
            ss == sold_shares(txs@.take(i as int)),
            sc == sale_count(txs@.take(i as int)),
            -(i as int) * 9223372036854775808 <= ps <= (i as int) * 9223372036854775807,
            -(i as int) * 9223372036854775808 <= ss <= (i as int) * 9223372036854775807,
            0 <= pc <= i,
            0 <= sc <= i,
        decreases txs.len() - i,
    {
        assert(txs@.take(i + 1).drop_last() =~= txs@.take(i as int));
        let tx = &txs[i];
        let shares: i64 = match tx.shares {
            Some(n) => n,
            None => 0,
        };
        let kind = classify(tx.transaction.as_str());
        if kind == 1 {
            ps = ps + shares as i128;
            pc = pc + 1;
        } else if kind == 2 {
            ss = ss + shares as i128;
            sc = sc + 1;
        }
        i += 1;
    }
    assert(txs@.take(txs.len() as int) =~= txs@);
    Some(
        InsiderPurchase {
            period: "recent".to_string(),
            purchases_shares: fit_value(ps),
            purchases_transactions: fit_value(pc),
            sales_shares: fit_value(ss),
            sales_transactions: fit_value(sc),
            net_shares: fit_difference(ps, ss),
            net_transactions: fit_difference(pc, sc),
        },
    )
}

// ---- overview -------------------------------------------------------------

/// The quote-summary module that holds each kind of holder data.
pub open spec fn module_of(t: HolderType) -> Seq<char> {
    match t {
        HolderType::Major => "majorHoldersBreakdown"@,
        HolderType::Institutional => "institutionOwnership"@,
        HolderType::MutualFund => "fundOwnership"@,
        HolderType::InsiderTransactions => "insiderTransactions"@,
        HolderType::InsiderPurchases => "insiderTransactions"@,
        HolderType::InsiderRoster => "insiderHolders"@,
    }
}

/// The module to request from the provider for a holder type.
pub fn module_for(holder_type: HolderType) -> (r: &'static str)
    ensures
        r@ == module_of(holder_type),
{
    match holder_type {
        HolderType::Major => "majorHoldersBreakdown",
        HolderType::Institutional => "institutionOwnership",
        HolderType::MutualFund => "fundOwnership",
        HolderType::InsiderTransactions => "insiderTransactions",
        HolderType::InsiderPurchases => "insiderTransactions",
        HolderType::InsiderRoster => "insiderHolders",
    }
}

/// The breakdown under `result["majorHoldersBreakdown"]`, when it is an object.
pub fn parse_major_breakdown(result: Json) -> (r: Option<MajorHoldersBreakdown>)
    ensures
        r.is_some() == (result.member("majorHoldersBreakdown"@) matches Some(Json::Object(_))),
        r.is_some() ==> result.member("majorHoldersBreakdown"@) == Some(
            Json::Object(r.unwrap().breakdown_data),
        ),
{
    match result.into_member("majorHoldersBreakdown") {
        Some(Json::Object(entries)) => Some(MajorHoldersBreakdown { breakdown_data: entries }),
        _ => None,
    }
}

/// `p` is the purchase summary of the insider transactions in `result`.
pub open spec fn summary_listing(p: Option<InsiderPurchase>, result: Json) -> bool {
    match list_at(result, "insiderTransactions"@, "transactions"@) {
        None => p.is_none(),
        Some(items) => {
            let src = insider_kept(items);
            if src.len() == 0 {
                p.is_none()
            } else {
                &&& p.is_some()
                &&& exists|txs: Seq<InsiderTransaction>|
                    #![trigger summarises(p.unwrap(), txs)]
                    txs.len() == src.len() && (forall|j: int|
                        0 <= j < src.len() ==> transaction_of(#[trigger] txs[j], src[j]))
                        && summarises(p.unwrap(), txs)
            }
        },
    }
}

/// `d` is what a request for `t` yields from `result`.
pub open spec fn data_of(d: HoldersData, t: HolderType, result: Json) -> bool {
    match t {
        HolderType::Major => match d {
            HoldersData::Major(m) => match result.member("majorHoldersBreakdown"@) {
                Some(Json::Object(e)) => m == Some(MajorHoldersBreakdown { breakdown_data: e }),
                _ => m.is_none(),
            },
            _ => false,
        },
        HolderType::Institutional => match d {
            HoldersData::Institutional(v) => ownership_listing(v, result, "institutionOwnership"@),
            _ => false,
        },
        HolderType::MutualFund => match d {
            HoldersData::MutualFund(v) => ownership_listing(v, result, "fundOwnership"@),
            _ => false,
        },
        HolderType::InsiderTransactions => match d {
            HoldersData::InsiderTransactions(v) => transactions_listing(v, result),
            _ => false,
        },
        HolderType::InsiderPurchases => match d {
            HoldersData::InsiderPurchases(p) => summary_listing(p, result),
            _ => false,
        },
        HolderType::InsiderRoster => match d {
            HoldersData::InsiderRoster(v) => roster_listing(v, result),
            _ => false,
        },
    }
}

/// The first entry of `doc["quoteSummary"]["result"]`.
pub open spec fn quote_result(doc: Json) -> Option<Json> {
    match doc.member("quoteSummary"@) {
        Some(q) => match q.member("result"@) {
            Some(r) => r.element(0),
            None => None,
        },
        None => None,
    }
}

#[derive(PartialEq, Eq, Structural, Clone, Copy, Debug)]
pub enum HoldersError {
    /// The document has no `quoteSummary.result` entry.
    MissingResult,
}

/// Builds the holders overview for `symbol` from a quote-summary document.
pub fn build_overview(symbol: &str, holder_type: HolderType, doc: Json) -> (r: Result<HoldersOverview, HoldersError>)
    ensures
        r.is_err() == quote_result(doc).is_none(),
        r.is_ok() ==> r.unwrap().symbol@ == upper_of(symbol@),
        r.is_ok() ==> data_of(r.unwrap().data, holder_type, quote_result(doc).unwrap()),
{
    let result = match doc.into_member("quoteSummary") {
        Some(q) => match q.into_member("result") {
            Some(list) => match list.into_element(0) {
                Some(first) => first,
                None => return Err(HoldersError::MissingResult),
            },
            None => return Err(HoldersError::MissingResult),
        },
        None => return Err(HoldersError::MissingResult),
    };
    let data = match holder_type {
        HolderType::Major => HoldersData::Major(parse_major_breakdown(result)),
        HolderType::Institutional => HoldersData::Institutional(parse_institutional_holders(&result)),
        HolderType::MutualFund => HoldersData::MutualFund(parse_mutualfund_holders(&result)),
        HolderType::InsiderTransactions => HoldersData::InsiderTransactions(
            parse_insider_transactions(&result),
        ),
        HolderType::InsiderPurchases => {
            let txs = parse_insider_transactions(&result);
            let ghost parsed = txs;
            let summary = parse_insider_purchases(txs);
            proof {
                if summary.is_some() {
                    assert(summarises(summary.unwrap(), parsed.unwrap()@));
                }
            }
            HoldersData::InsiderPurchases(summary)
        },
        HolderType::InsiderRoster => HoldersData::InsiderRoster(parse_insider_roster(&result)),
    };
    Ok(HoldersOverview { symbol: uppercase(symbol), data })
}

/// A malformed numeric field never drops a record: a holder entry whose
/// holder name is not blank is kept, and a position that is not an integer reads as zero
/// shares and a report date that is not a representable timestamp as the
/// epoch.
pub proof fn lemma_bad_number_defaults(h: OwnershipHolder, item: Json)
    requires
        ownership_named(item),
        ownership_of(h, item),
    ensures
        opt_whole(item.member("position"@)).is_none() ==> h.shares == 0,
        opt_stamp(item.member("reportDate"@)).is_none() ==> h.date_reported == 0,
        ownership_kept(seq![item]) == seq![item],
{
    let s = seq![item];
    assert(s.drop_last() =~= Seq::<Json>::empty());
    assert(ownership_kept(Seq::<Json>::empty()) == Seq::<Json>::empty());
    assert(Seq::<Json>::empty().push(item) =~= s);
}

} // verus!
