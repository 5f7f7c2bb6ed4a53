//! Option-chain slicing around the spot price.
use vstd::prelude::*;
use crate::text::{upper_of, uppercase};
use crate::calendar::{Date, parsed_ymd, parse_ymd, date_of};

verus! {

/// One contract of a chain: its strike as an order key (a larger key is a
/// higher strike) and its position in the provider's list.
#[derive(PartialEq, Eq, Structural, Clone, Copy, Debug)]
pub struct StrikeEntry {
    pub strike: i64,
    pub index: usize,
}

/// `a` goes before `b`: a lower strike for calls, a higher one for puts.
pub open spec fn before(a: StrikeEntry, b: StrikeEntry, descending: bool) -> bool {
    if descending {
        a.strike > b.strike
    } else {
        a.strike < b.strike
    }
}

/// Inserts `x` after every entry that it does not go before.
pub open spec fn insert_stable(s: Seq<StrikeEntry>, x: StrikeEntry, descending: bool) -> Seq<StrikeEntry>
    decreases s.len(),
{
    if s.len() == 0 {
        seq![x]
    } else if before(x, s[0], descending) {
        seq![x] + s
    } else {
        seq![s[0]] + insert_stable(s.drop_first(), x, descending)
    }
}

/// Stable sort by strike: entries with equal strikes keep their order.
pub open spec fn stable_sort(s: Seq<StrikeEntry>, descending: bool) -> Seq<StrikeEntry>
    decreases s.len(),
{
    if s.len() == 0 {
        s
    } else {
        insert_stable(stable_sort(s.drop_last(), descending), s.last(), descending)
    }
}

/// At or above spot for calls; at or below it for puts.
pub open spec fn on_side(e: StrikeEntry, spot: i64, descending: bool) -> bool {
    if descending {
        e.strike <= spot
    } else {
        e.strike >= spot
    }
}

pub open spec fn side_filter(s: Seq<StrikeEntry>, spot: i64, descending: bool) -> Seq<StrikeEntry>
    decreases s.len(),
{
    if s.len() == 0 {
        s
    } else if on_side(s.last(), spot, descending) {
        side_filter(s.drop_last(), spot, descending).push(s.last())
    } else {
        side_filter(s.drop_last(), spot, descending)
    }
}

/// The first `n` entries on the spot's side, in strike order.
pub open spec fn side_slice(s: Seq<StrikeEntry>, spot: i64, descending: bool, n: nat) -> Seq<StrikeEntry> {
    let sorted = stable_sort(side_filter(s, spot, descending), descending);
    if n < sorted.len() {
        sorted.take(n as int)
    } else {
        sorted
    }
}

pub open spec fn ordered(s: Seq<StrikeEntry>, descending: bool) -> bool {
    forall|i: int, j: int| 0 <= i < j < s.len() ==> !before(#[trigger] s[j], #[trigger] s[i], descending)
}

proof fn lemma_insert_at(s: Seq<StrikeEntry>, x: StrikeEntry, descending: bool, p: int)
    requires
        0 <= p <= s.len(),
        forall|j: int| 0 <= j < p ==> !before(x, #[trigger] s[j], descending),
        p == s.len() || before(x, s[p], descending),
    ensures
        insert_stable(s, x, descending) == s.take(p) + seq![x] + s.skip(p),
    decreases p,
{
    if s.len() == 0 {
        assert(s.take(p) + seq![x] + s.skip(p) =~= seq![x]);
    } else if p == 0 {
        assert(s.take(0) + seq![x] + s.skip(0) =~= seq![x] + s);
    } else {
        let t = s.drop_first();
        assert forall|j: int| 0 <= j < p - 1 implies !before(x, #[trigger] t[j], descending) by {
            assert(t[j] == s[j + 1]);
        }
        if p < s.len() {
            assert(t[p - 1] == s[p]);
        }
        lemma_insert_at(t, x, descending, p - 1);
        assert(seq![s[0]] + (t.take(p - 1) + seq![x] + t.skip(p - 1)) =~= s.take(p) + seq![x] + s.skip(p));
    }
}

proof fn lemma_insert_keeps(s: Seq<StrikeEntry>, x: StrikeEntry, descending: bool, spot: i64)
    requires
        ordered(s, descending),
        forall|k: int| 0 <= k < s.len() ==> on_side(#[trigger] s[k], spot, descending),
        on_side(x, spot, descending),
    ensures
        ordered(insert_stable(s, x, descending), descending),
        forall|k: int| 0 <= k < insert_stable(s, x, descending).len() ==> on_side(
            #[trigger] insert_stable(s, x, descending)[k],
            spot,
            descending,
        ),
        insert_stable(s, x, descending).len() == s.len() + 1,
        s.len() > 0 ==> (insert_stable(s, x, descending)[0] == x || insert_stable(s, x, descending)[0] == s[0]),
    decreases s.len(),
{
    if s.len() > 0 && !before(x, s[0], descending) {
        let t = s.drop_first();
        lemma_insert_keeps(t, x, descending, spot);
        let r = insert_stable(s, x, descending);
        let rt = insert_stable(t, x, descending);
        assert(r == seq![s[0]] + rt);
        assert forall|i: int, j: int| 0 <= i < j < r.len() implies !before(#[trigger] r[j], #[trigger] r[i], descending) by {
            if i == 0 {
                if t.len() > 0 && rt[0] == t[0] {
                    assert(r[1] == s[1]);
                }
                assert(r[j] == rt[j - 1]);
            } else {
                assert(r[i] == rt[i - 1] && r[j] == rt[j - 1]);
            }
        }
        assert forall|k: int| 0 <= k < r.len() implies on_side(#[trigger] r[k], spot, descending) by {
            if k > 0 {
                assert(r[k] == rt[k - 1]);
            }
        }
    }
}

proof fn lemma_sorted_side(s: Seq<StrikeEntry>, spot: i64, descending: bool)
    ensures
        ordered(stable_sort(side_filter(s, spot, descending), descending), descending),
        forall|k: int| 0 <= k < stable_sort(side_filter(s, spot, descending), descending).len() ==> on_side(
            #[trigger] stable_sort(side_filter(s, spot, descending), descending)[k],
            spot,
            descending,
        ),
    decreases s.len(),
{
    lemma_filter_side(s, spot, descending);
    lemma_sort_keeps(side_filter(s, spot, descending), spot, descending);
}

proof fn lemma_filter_side(s: Seq<StrikeEntry>, spot: i64, descending: bool)
    ensures
        forall|k: int| 0 <= k < side_filter(s, spot, descending).len() ==> on_side(
            #[trigger] side_filter(s, spot, descending)[k],
            spot,
            descending,
        ),
    decreases s.len(),
{
    if s.len() > 0 {
        let t = s.drop_last();
        lemma_filter_side(t, spot, descending);
        let f = side_filter(s, spot, descending);
        if on_side(s.last(), spot, descending) {
            assert forall|k: int| 0 <= k < f.len() implies on_side(#[trigger] f[k], spot, descending) by {
                if k < f.len() - 1 {
                    assert(f[k] == side_filter(t, spot, descending)[k]);
                }
            }
        }
    }
}

proof fn lemma_sort_keeps(s: Seq<StrikeEntry>, spot: i64, descending: bool)
    requires
        forall|k: int| 0 <= k < s.len() ==> on_side(#[trigger] s[k], spot, descending),
    ensures
        ordered(stable_sort(s, descending), descending),
        stable_sort(s, descending).len() == s.len(),
        forall|k: int| 0 <= k < stable_sort(s, descending).len() ==> on_side(
            #[trigger] stable_sort(s, descending)[k],
            spot,
            descending,
        ),
    decreases s.len(),
{
    if s.len() > 0 {
        let t = s.drop_last();
        assert forall|k: int| 0 <= k < t.len() implies on_side(#[trigger] t[k], spot, descending) by {
            assert(t[k] == s[k]);
        }
        lemma_sort_keeps(t, spot, descending);
        lemma_insert_keeps(stable_sort(t, descending), s.last(), descending, spot);
    }
}

/// Option slicing: the calls of a slice are in ascending strike order, all at
/// or above spot, and no more than asked for; the puts are in descending
/// strike order, all at or below spot, and no more than asked for.
pub proof fn lemma_slice_sides(s: Seq<StrikeEntry>, spot: i64, descending: bool, n: nat)
    ensures
        ordered(side_slice(s, spot, descending, n), descending),
        side_slice(s, spot, descending, n).len() <= n,
        forall|k: int| 0 <= k < side_slice(s, spot, descending, n).len() ==> on_side(
            #[trigger] side_slice(s, spot, descending, n)[k],
            spot,
            descending,
        ),
        forall|i: int, j: int| 0 <= i < j < side_slice(s, spot, descending, n).len() ==> if descending {
            side_slice(s, spot, descending, n)[i].strike >= side_slice(s, spot, descending, n)[j].strike
        } else {
            side_slice(s, spot, descending, n)[i].strike <= side_slice(s, spot, descending, n)[j].strike
        },
{
    lemma_sorted_side(s, spot, descending);
    let sorted = stable_sort(side_filter(s, spot, descending), descending);
    let r = side_slice(s, spot, descending, n);
    assert forall|k: int| 0 <= k < r.len() implies r[k] == sorted[k] by {}
    assert forall|i: int, j: int| 0 <= i < j < r.len() implies if descending {
        r[i].strike >= r[j].strike
    } else {
        r[i].strike <= r[j].strike
    } by {
        assert(r[i] == sorted[i] && r[j] == sorted[j]);
        assert(!before(sorted[j], sorted[i], descending));
    }
}

proof fn lemma_insert_multiset(s: Seq<StrikeEntry>, x: StrikeEntry, descending: bool)
    ensures
        insert_stable(s, x, descending).to_multiset() == s.to_multiset().insert(x),
    decreases s.len(),
{
    broadcast use vstd::seq_lib::group_to_multiset_ensures, vstd::multiset::group_multiset_axioms;

    if s.len() == 0 || before(x, s[0], descending) {
        vstd::seq_lib::lemma_multiset_commutative(seq![x], s);
        assert(seq![x] =~= Seq::<StrikeEntry>::empty().push(x));
        assert(seq![x].to_multiset() =~= vstd::multiset::Multiset::<StrikeEntry>::empty().insert(x));
        assert(insert_stable(s, x, descending).to_multiset() =~= s.to_multiset().insert(x));
    } else {
        let t = s.drop_first();
        lemma_insert_multiset(t, x, descending);
        vstd::seq_lib::lemma_multiset_commutative(seq![s[0]], insert_stable(t, x, descending));
        vstd::seq_lib::lemma_multiset_commutative(seq![s[0]], t);
        assert(seq![s[0]] + t =~= s);
        assert(insert_stable(s, x, descending).to_multiset() =~= s.to_multiset().insert(x));
    }
}

proof fn lemma_sort_multiset(s: Seq<StrikeEntry>, descending: bool)
    ensures
        stable_sort(s, descending).to_multiset() == s.to_multiset(),
    decreases s.len(),
{
    broadcast use vstd::seq_lib::group_to_multiset_ensures;

    if s.len() > 0 {
        let t = s.drop_last();
        lemma_sort_multiset(t, descending);
        lemma_insert_multiset(stable_sort(t, descending), s.last(), descending);
        assert(t.push(s.last()) =~= s);
    }
}

/// Option slicing keeps the nearest strikes: the slice is the first entries of
/// a strike-ordered arrangement of every entry on the spot's side, as many as
/// asked for or all of them, so each entry on that side that is left out is no
/// nearer to spot than the last one kept.
pub proof fn lemma_slice_nearest(s: Seq<StrikeEntry>, spot: i64, descending: bool, n: nat)
    ensures
        ({
            let side = side_filter(s, spot, descending);
            let sorted = stable_sort(side, descending);
            let r = side_slice(s, spot, descending, n);
            &&& sorted.to_multiset() == side.to_multiset()
            &&& ordered(sorted, descending)
            &&& r.len() == if n < side.len() { n as int } else { side.len() as int }
            &&& r == sorted.take(r.len() as int)
            &&& forall|k: int| 0 < r.len() <= k < sorted.len() ==> !before(
                #[trigger] sorted[k],
                r[r.len() - 1],
                descending,
            )
        }),
{
    broadcast use vstd::seq_lib::group_to_multiset_ensures;

    let side = side_filter(s, spot, descending);
    let sorted = stable_sort(side, descending);
    lemma_sort_multiset(side, descending);
    lemma_sorted_side(s, spot, descending);
    assert(sorted.len() == side.len()) by {
        assert(sorted.to_multiset().len() == side.to_multiset().len());
    }
    let r = side_slice(s, spot, descending, n);
    if n >= side.len() {
        assert(r == sorted.take(r.len() as int)) by {
            assert(sorted.take(sorted.len() as int) =~= sorted);
        }
    }
    assert forall|k: int| 0 < r.len() <= k < sorted.len() implies !before(#[trigger] sorted[k], r[r.len() - 1], descending) by {
        assert(r[r.len() - 1] == sorted[r.len() - 1]);
    }
}

/// The first `n` entries on the spot's side of `spot`, stably sorted by strike:
/// ascending for calls, descending for puts.
pub fn slice_side(entries: &Vec<StrikeEntry>, spot: i64, descending: bool, n: usize) -> (r: Vec<StrikeEntry>)
    ensures
        r@ == side_slice(entries@, spot, descending, n as nat),
{
    let mut out: Vec<StrikeEntry> = Vec::new();
    let mut i: usize = 0;
    while i < entries.len()
        invariant
            i <= entries.len(),
            out@ == stable_sort(side_filter(entries@.take(i as int), spot, descending), descending),
        decreases entries.len() - i,
    {
        let ghost prefix = entries@.take(i + 1);
        assert(prefix.drop_last() =~= entries@.take(i as int));
        let x = entries[i];
        assert(prefix.last() == x);
        let ghost f = side_filter(entries@.take(i as int), spot, descending);
        let keep = if descending {
            x.strike <= spot
        } else {
            x.strike >= spot
        };
        if keep {
            let mut p: usize = 0;
            while p < out.len()
                invariant
                    p <= out@.len(),
                    forall|j: int| 0 <= j < p ==> !before(x, #[trigger] out@[j], descending),
                ensures
                    p <= out@.len(),
                    forall|j: int| 0 <= j < p ==> !before(x, #[trigger] out@[j], descending),
                    p == out@.len() || before(x, out@[p as int], descending),
                decreases out.len() - p,
            {
                let goes_before = if descending {
                    x.strike > out[p].strike
                } else {
                    x.strike < out[p].strike
                };
                if goes_before {
                    break;
                }
                p += 1;
            }
            proof {
                lemma_insert_at(out@, x, descending, p as int);
            }
            let ghost before_insert = out@;
            out.insert(p, x);
            assert(out@ =~= before_insert.take(p as int) + seq![x] + before_insert.skip(p as int));
            assert(f.push(x).drop_last() =~= f);
        }
        i += 1;
    }
    assert(entries@.take(entries.len() as int) =~= entries@);
    out.truncate(n);
    proof {
        let sorted = stable_sort(side_filter(entries@, spot, descending), descending);
        if (n as nat) < sorted.len() {
            assert(out@ =~= sorted.take(n as int));
        }
    }
    out
}

/// A chain cut down to the strikes nearest the spot price.
#[derive(Debug)]
pub struct OptionSlice {
    pub symbol: String,
    pub expiration: String,
    pub spot: i64,
    pub calls: Vec<StrikeEntry>,
    pub puts: Vec<StrikeEntry>,
}

#[derive(PartialEq, Eq, Structural, Clone, Copy, Debug)]
pub enum OptionsError {
    /// The chain carries no underlying price.
    NoUnderlyingPrice,
    /// No expiration matched the request.
    NoExpiration,
}

/// Slices a fetched chain: calls at or above spot in ascending strike order,
/// puts at or below spot in descending strike order, at most
/// `strikes_each_side` of each.
pub fn slice_chain(
    symbol: &str,
    expiration: &str,
    spot: Option<i64>,
    calls: &Vec<StrikeEntry>,
    puts: &Vec<StrikeEntry>,
    strikes_each_side: usize,
) -> (r: Result<OptionSlice, OptionsError>)
    ensures
        r.is_ok() == spot.is_some(),
        spot.is_none() ==> r == Err::<OptionSlice, OptionsError>(OptionsError::NoUnderlyingPrice),
        r.is_ok() ==> {
            let o = r.unwrap();
            &&& o.symbol@ == upper_of(symbol@)
            &&& o.expiration@ == expiration@
            &&& o.spot == spot.unwrap()
            &&& o.calls@ == side_slice(calls@, o.spot, false, strikes_each_side as nat)
            &&& o.puts@ == side_slice(puts@, o.spot, true, strikes_each_side as nat)
        },
{
    let spot = match spot {
        Some(p) => p,
        None => return Err(OptionsError::NoUnderlyingPrice),
    };
    let calls = slice_side(calls, spot, false, strikes_each_side);
    let puts = slice_side(puts, spot, true, strikes_each_side);
    Ok(
        OptionSlice {
            symbol: uppercase(symbol),
            expiration: expiration.to_string(),
            spot,
            calls,
            puts,
        },
    )
}

/// The expiration listed for `today`, if the provider lists it.
pub fn find_expiration(expirations: &Vec<String>, today: &str) -> (r: Option<String>)
    ensures
        r.is_some() == (exists|j: int| 0 <= j < expirations@.len() && #[trigger] expirations@[j]@ == today@),
        r.is_some() ==> r.unwrap()@ == today@,
{
    let mut i: usize = 0;
    while i < expirations.len()
        invariant
            i <= expirations.len(),
            forall|j: int| 0 <= j < i ==> #[trigger] expirations@[j]@ != today@,
        decreases expirations.len() - i,
    {
        if crate::text::same_text(expirations[i].as_str(), today) {
            return Some(expirations[i].clone());
        }
        i += 1;
    }
    None
}

/// The dates that read as `%Y-%m-%d`, in order.
pub open spec fn parsed_dates(raw: Seq<String>) -> Seq<Date>
    decreases raw.len(),
{
    if raw.len() == 0 {
        Seq::empty()
    } else {
        match parsed_ymd(raw.last()@) {
            Some(t) => parsed_dates(raw.drop_last()).push(date_of(t)),
            None => parsed_dates(raw.drop_last()),
        }
    }
}

/// The expirations that read as dates; an error when none does.
pub fn parse_expirations(raw: &Vec<String>) -> (r: Result<Vec<Date>, OptionsError>)
    ensures
        r.is_err() <==> parsed_dates(raw@).len() == 0,
        r.is_err() ==> r == Err::<Vec<Date>, OptionsError>(OptionsError::NoExpiration),
        r.is_ok() ==> r.unwrap()@ == parsed_dates(raw@),
        r.is_ok() ==> forall|k: int| 0 <= k < r.unwrap()@.len() ==> (#[trigger] r.unwrap()@[k]).wf(),
{
    let mut out: Vec<Date> = Vec::new();
    let mut i: usize = 0;
    while i < raw.len()
        invariant
            i <= raw.len(),
            out@ == parsed_dates(raw@.take(i as int)),
            forall|k: int| 0 <= k < out@.len() ==> (#[trigger] out@[k]).wf(),
        decreases raw.len() - i,
    {
        assert(raw@.take(i + 1).drop_last() =~= raw@.take(i as int));
        match parse_ymd(raw[i].as_str()) {
            Some(t) => out.push(Date { year: t.0, month: t.1, day: t.2 }),
            None => {},
        }
        i += 1;
    }
    assert(raw@.take(raw.len() as int) =~= raw@);
    if out.len() == 0 {
        Err(OptionsError::NoExpiration)
    } else {
        Ok(out)
    }
}

} // verus!
