//! The quote fields that the bot shows, read from a quote response.
use vstd::prelude::*;
use crate::json::{Json, Number, str_of};
use crate::holders::{text_or_empty, opt_text_view, text_field, opt_text_field};

verus! {

#[derive(Debug)]
pub struct PriceQuote {
    pub symbol: String,
    pub name: String,
    pub price: Option<Number>,
    pub currency: Option<String>,
    pub change: Option<Number>,
    pub percent_change: Option<Number>,
    pub pre_market_price: Option<Number>,
    pub after_hours_price: Option<Number>,
}

/// The number that a field holds directly.
pub open spec fn number_at(v: Option<Json>) -> Option<Number> {
    match v {
        Some(Json::Num(n)) => Some(n),
        _ => None,
    }
}

fn number_field(v: Option<&Json>) -> (r: Option<Number>)
    ensures
        r == number_at(crate::json::deref_opt(v)),
{
    match v {
        Some(Json::Num(n)) => Some(n.duplicate()),
        _ => None,
    }
}

/// The first entry of `data["quoteResponse"]["result"]`.
pub open spec fn first_quote(data: Json) -> Option<Json> {
    match data.member("quoteResponse"@) {
        Some(q) => match q.member("result"@) {
            Some(Json::Array(items)) => if items@.len() > 0 {
                Some(items@[0])
            } else {
                None
            },
            _ => None,
        },
        None => None,
    }
}

/// `q` is the quote that `item` describes.
pub open spec fn quote_of(q: PriceQuote, item: Json) -> bool {
    &&& Some(q.symbol@) == str_of(item.member("symbol"@))
    &&& q.name@ == text_or_empty(item.member_either("longName"@, "shortName"@))
    &&& q.price == number_at(item.member("regularMarketPrice"@))
    &&& opt_text_view(q.currency) == str_of(item.member_either("currency"@, "financialCurrency"@))
    &&& q.change == number_at(item.member("regularMarketChange"@))
    &&& q.percent_change == number_at(item.member("regularMarketChangePercent"@))
    &&& q.pre_market_price == number_at(item.member("preMarketPrice"@))
    &&& q.after_hours_price == number_at(item.member("postMarketPrice"@))
}

/// The first quote of a response; `None` when there is none or it has no
/// string symbol.
pub fn extract_simple_quote(data: &Json) -> (r: Option<PriceQuote>)
    ensures
        r.is_some() == (first_quote(*data).is_some() && str_of(first_quote(*data).unwrap().member("symbol"@)).is_some()),
        r.is_some() ==> quote_of(r.unwrap(), first_quote(*data).unwrap()),
{
    let result = match data.get("quoteResponse") {
        Some(q) => match q.get("result") {
            Some(Json::Array(items)) => if items.len() > 0 {
                &items[0]
            } else {
                return None;
            },
            _ => return None,
        },
        None => return None,
    };
    let symbol = match opt_text_field(result.get("symbol")) {
        Some(s) => s,
        None => return None,
    };
    Some(
        PriceQuote {
            symbol,
            name: text_field(result.get_either("longName", "shortName")),
            price: number_field(result.get("regularMarketPrice")),
            currency: opt_text_field(result.get_either("currency", "financialCurrency")),
            change: number_field(result.get("regularMarketChange")),
            percent_change: number_field(result.get("regularMarketChangePercent")),
            pre_market_price: number_field(result.get("preMarketPrice")),
            after_hours_price: number_field(result.get("postMarketPrice")),
        },
    )
}

} // verus!
