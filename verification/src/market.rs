//! Market discovery logic: order sides, market classification by asset,
//! selection of the markets to track, and resolution of the Yes/No token ids.
use vstd::prelude::*;
use crate::state::Asset;
use crate::text::{
    ascii_lowercase, chars_of, has_substr, is_ascii_text, lowercase, opt_view, str_contains,
    str_equals, text_or_empty, to_lowercase,
};

verus! {

broadcast use vstd::string::group_string_axioms;

// ───────────────────────────── order side ─────────────────────────────

/// Side of an order on the order book.
#[derive(Debug, Clone, Copy, PartialEq, Eq, Structural)]
pub enum Side {
    Buy,
    Sell,
}

/// The wire label of a side.
pub open spec fn side_label(side: Side) -> Seq<char> {
    match side {
        Side::Buy => "BUY"@,
        Side::Sell => "SELL"@,
    }
}

/// The side a wire label names, if any.
pub open spec fn side_of_label(label: Seq<char>) -> Option<Side> {
    if label == "BUY"@ {
        Some(Side::Buy)
    } else if label == "SELL"@ {
        Some(Side::Sell)
    } else {
        None
    }
}

impl Side {
    /// The wire label: "BUY" or "SELL".
    pub fn as_str(&self) -> (r: &'static str)
        ensures
            r@ == side_label(*self),
    {
        match self {
            Side::Buy => "BUY",
            Side::Sell => "SELL",
        }
    }

    /// The side that a recorded label names ("BUY" or "SELL"); `None` for any
    /// other label, on which position PnL counts as zero.
    pub fn parse_label(label: &str) -> (r: Option<Side>)
        ensures
            r == side_of_label(label@),
    {
        if str_equals(label, "BUY") {
            Some(Side::Buy)
        } else if str_equals(label, "SELL") {
            Some(Side::Sell)
        } else {
            None
        }
    }
}

/// Reading back the label of a side gives that side.
pub proof fn lemma_side_label_round_trip(side: Side)
    ensures
        side_of_label(side_label(side)) == Some(side),
{
    reveal_strlit("BUY");
    reveal_strlit("SELL");
    assert("BUY"@.len() != "SELL"@.len());
}

// ───────────────────────────── API records ─────────────────────────────

/// A token of a market as the market list reports it.
#[derive(Debug, Clone)]
pub struct GammaToken {
    pub token_id: Option<String>,
    pub outcome: Option<String>,
}

/// The answer of the order endpoint.
#[derive(Debug, Clone)]
pub struct OrderResponse {
    pub order_id: Option<String>,
    pub status: Option<String>,
}

/// What the discovery logic reads of one market of an event listing.
#[derive(Debug, Clone)]
pub struct MarketListing {
    pub event_title: Option<String>,
    pub condition_id: Option<String>,
    pub question: Option<String>,
}

// ───────────────────────────── classification ─────────────────────────────

/// Asset of a market from its lowercased event title `t` and question `q`.
pub open spec fn asset_of(t: Seq<char>, q: Seq<char>) -> Option<Asset> {
    if has_substr(t, "bitcoin"@) || has_substr(t, "btc"@) || has_substr(q, "bitcoin"@)
        || has_substr(q, "btc"@) {
        if (has_substr(q, "microstrategy"@) || has_substr(q, "micro strategy"@)) && !has_substr(
            q,
            "$"@,
        ) {
            None
        } else {
            Some(Asset::Btc)
        }
    } else if has_substr(t, "ethereum"@) || has_substr(t, " eth "@) || has_substr(q, "ethereum"@)
        || has_substr(q, " eth "@) {
        Some(Asset::Eth)
    } else if has_substr(t, "crude oil"@) || has_substr(t, "(cl)"@) || has_substr(q, "crude oil"@)
        || has_substr(q, "(cl)"@) {
        Some(Asset::CrudeOil)
    } else if has_substr(t, "gold"@) || has_substr(t, "(gc)"@) || has_substr(q, "gold"@)
        || has_substr(q, "(gc)"@) {
        Some(Asset::Gold)
    } else if has_substr(t, "fed "@) || has_substr(t, "interest rate"@) || has_substr(
        t,
        "federal fund"@,
    ) || has_substr(q, "fed "@) || has_substr(q, "interest rate"@) || has_substr(
        q,
        "federal fund"@,
    ) {
        Some(Asset::FedRate)
    } else {
        None
    }
}

fn either_contains(t: &[char], q: &[char], p: &str) -> (r: bool)
    ensures
        r == (has_substr(t@, p@) || has_substr(q@, p@)),
{
    str_contains(t, p) || str_contains(q, p)
}

/// Either of two texts contains `p`.
pub open spec fn either_has(t: Seq<char>, q: Seq<char>, p: Seq<char>) -> bool {
    has_substr(t, p) || has_substr(q, p)
}

/// A market is classified by the first asset, in the order Bitcoin,
/// Ether, crude oil, gold, Fed rate, whose marker its lowercased title or
/// question shows; a Bitcoin market about MicroStrategy with no dollar
/// figure, and a market with no marker, are left out.
pub proof fn lemma_classify_markers(t: Seq<char>, q: Seq<char>)
    ensures
        ({
            let btc = either_has(t, q, "bitcoin"@) || either_has(t, q, "btc"@);
            let eth = either_has(t, q, "ethereum"@) || either_has(t, q, " eth "@);
            let oil = either_has(t, q, "crude oil"@) || either_has(t, q, "(cl)"@);
            let gold = either_has(t, q, "gold"@) || either_has(t, q, "(gc)"@);
            let fed = either_has(t, q, "fed "@) || either_has(t, q, "interest rate"@)
                || either_has(t, q, "federal fund"@);
            let strategy_only = (has_substr(q, "microstrategy"@) || has_substr(
                q,
                "micro strategy"@,
            )) && !has_substr(q, "$"@);
            &&& btc && !strategy_only ==> asset_of(t, q) == Some(Asset::Btc)
            &&& btc && strategy_only ==> asset_of(t, q) is None
            &&& !btc && eth ==> asset_of(t, q) == Some(Asset::Eth)
            &&& !btc && !eth && oil ==> asset_of(t, q) == Some(Asset::CrudeOil)
            &&& !btc && !eth && !oil && gold ==> asset_of(t, q) == Some(Asset::Gold)
            &&& !btc && !eth && !oil && !gold && fed ==> asset_of(t, q) == Some(Asset::FedRate)
            &&& !btc && !eth && !oil && !gold && !fed ==> asset_of(t, q) is None
        }),
{
}

/// Asset of a market whose title and question are already lowercased.
pub fn classify_lowercase(title: &str, question: &str) -> (r: Option<Asset>)
    ensures
        r == asset_of(title@, question@),
{
    let tv = chars_of(title);
    let qv = chars_of(question);
    let t = tv.as_slice();
    let q = qv.as_slice();
    if either_contains(t, q, "bitcoin") || either_contains(t, q, "btc") {
        if (str_contains(q, "microstrategy") || str_contains(q, "micro strategy")) && !str_contains(
            q,
            "$",
        ) {
            return None;
        }
        return Some(Asset::Btc);
    }
    if either_contains(t, q, "ethereum") || either_contains(t, q, " eth ") {
        return Some(Asset::Eth);
    }
    if either_contains(t, q, "crude oil") || either_contains(t, q, "(cl)") {
        return Some(Asset::CrudeOil);
    }
    if either_contains(t, q, "gold") || either_contains(t, q, "(gc)") {
        return Some(Asset::Gold);
    }
    if either_contains(t, q, "fed ") || either_contains(t, q, "interest rate") || either_contains(
        t,
        q,
        "federal fund",
    ) {
        return Some(Asset::FedRate);
    }
    None
}

/// Classifies an event title and market question into an asset, if any,
/// case-insensitively.
pub fn classify_market(title: &str, question: &str) -> (r: Option<Asset>)
    ensures
        r == asset_of(lowercase(title@), lowercase(question@)),
        is_ascii_text(title@) && is_ascii_text(question@) ==> r == asset_of(
            ascii_lowercase(title@),
            ascii_lowercase(question@),
        ),
{
    let t = to_lowercase(title);
    let q = to_lowercase(question);
    classify_lowercase(t.as_str(), q.as_str())
}

// ───────────────────────────── market selection ─────────────────────────────

/// Asset of a listed market (a missing title or question reads as empty).
pub open spec fn listing_asset(l: MarketListing) -> Option<Asset> {
    asset_of(lowercase(text_or_empty(l.event_title)), lowercase(text_or_empty(l.question)))
}

/// Condition id of a listed market (a missing one reads as empty).
pub open spec fn listing_condition(l: MarketListing) -> Seq<char> {
    text_or_empty(l.condition_id)
}

/// Positions, among the first `n` listings, of the markets classified as `asset`, in order.
pub open spec fn markets_for_asset(ls: Seq<MarketListing>, asset: Asset, n: int) -> Seq<usize>
    decreases n,
{
    if n <= 0 {
        Seq::empty()
    } else {
        let prev = markets_for_asset(ls, asset, n - 1);
        if listing_asset(ls[n - 1]) == Some(asset) {
            prev.push((n - 1) as usize)
        } else {
            prev
        }
    }
}

fn listing_asset_of(l: &MarketListing) -> (r: Option<Asset>)
    ensures
        r == listing_asset(*l),
{
    let title: &str = match &l.event_title {
        Some(t) => t.as_str(),
        None => "",
    };
    let question: &str = match &l.question {
        Some(q) => q.as_str(),
        None => "",
    };
    proof {
        reveal_strlit("");
        assert(""@ =~= Seq::<char>::empty());
    }
    classify_market(title, question)
}

/// Positions of the listed markets that belong to `asset`, in listing order.
pub fn select_markets_for_asset(listings: &Vec<MarketListing>, asset: Asset) -> (r: Vec<usize>)
    ensures
        r@ == markets_for_asset(listings@, asset, listings@.len() as int),
{
    let mut out: Vec<usize> = Vec::new();
    let mut i: usize = 0;
    while i < listings.len()
        invariant
            i <= listings@.len(),
            out@ == markets_for_asset(listings@, asset, i as int),
        decreases listings@.len() - i,
    {
        if listing_asset_of(&listings[i]) == Some(asset) {
            out.push(i);
        }
        i = i + 1;
    }
    out
}

/// Listing `i` is the first classified market with its (non-empty) condition id.
pub open spec fn first_of_condition(ls: Seq<MarketListing>, i: int) -> bool {
    &&& listing_asset(ls[i]) is Some
    &&& listing_condition(ls[i]).len() > 0
    &&& forall|j: int|
        0 <= j < i ==> !(listing_asset(ls[j]) is Some && listing_condition(ls[j])
            == listing_condition(ls[i]))
}

/// The classified markets among the first `n` listings, each condition id
/// once (its first listing), with their asset and position, in order.
pub open spec fn all_asset_markets(ls: Seq<MarketListing>, n: int) -> Seq<(Asset, usize)>
    decreases n,
{
    if n <= 0 {
        Seq::empty()
    } else {
        let prev = all_asset_markets(ls, n - 1);
        if first_of_condition(ls, n - 1) {
            prev.push((listing_asset(ls[n - 1])->0, (n - 1) as usize))
        } else {
            prev
        }
    }
}

/// Some string of `v` has the text `x`.
pub open spec fn holds_text(v: Seq<String>, x: Seq<char>) -> bool {
    exists|k: int| 0 <= k < v.len() && v[k]@ == x
}

/// Some classified market among the first `n` listings has condition id `x`.
pub open spec fn condition_seen(ls: Seq<MarketListing>, n: int, x: Seq<char>) -> bool {
    exists|j: int| 0 <= j < n && listing_asset(ls[j]) is Some && listing_condition(ls[j]) == x
}

fn seen_contains(seen: &Vec<String>, id: &String) -> (r: bool)
    ensures
        r == holds_text(seen@, id@),
{
    let mut k: usize = 0;
    while k < seen.len()
        invariant
            k <= seen@.len(),
            forall|m: int| 0 <= m < k ==> seen@[m]@ != id@,
        decreases seen@.len() - k,
    {
        if seen[k] == *id {
            return true;
        }
        k = k + 1;
    }
    false
}

/// Every listed market classified into some asset, with a non-empty
/// condition id, each condition id taken once (at its first listing).
pub fn select_all_asset_markets(listings: &Vec<MarketListing>) -> (r: Vec<(Asset, usize)>)
    ensures
        r@ == all_asset_markets(listings@, listings@.len() as int),
{
    let mut out: Vec<(Asset, usize)> = Vec::new();
    let mut seen: Vec<String> = Vec::new();
    let mut i: usize = 0;
    while i < listings.len()
        invariant
            i <= listings@.len(),
            out@ == all_asset_markets(listings@, i as int),
            forall|x: Seq<char>|
                #[trigger] holds_text(seen@, x) <==> condition_seen(listings@, i as int, x),
        decreases listings@.len() - i,
    {
        let l = &listings[i];
        let asset = listing_asset_of(l);
        let ghost old_seen = seen@;
        proof {
            assert forall|x: Seq<char>| #[trigger] condition_seen(listings@, i + 1, x) <==> (
            condition_seen(listings@, i as int, x) || (asset is Some && listing_condition(
                listings@[i as int],
            ) == x)) by {
                if condition_seen(listings@, i + 1, x) {
                    let j = choose|j: int|
                        0 <= j < i + 1 && listing_asset(listings@[j]) is Some && listing_condition(
                            listings@[j],
                        ) == x;
                    if j < i {
                        assert(condition_seen(listings@, i as int, x));
                    }
                }
                if condition_seen(listings@, i as int, x) {
                    let j = choose|j: int|
                        0 <= j < i && listing_asset(listings@[j]) is Some && listing_condition(
                            listings@[j],
                        ) == x;
                    assert(0 <= j < i + 1);
                }
                if asset is Some && listing_condition(listings@[i as int]) == x {
                    assert(0 <= i < i + 1 && listing_asset(listings@[i as int]) is Some);
                }
            }
        }
        if let Some(a) = asset {
            let cid: String = match &l.condition_id {
                Some(c) => c.clone(),
                None => String::new(),
            };
            assert(cid@ == listing_condition(listings@[i as int]));
            let fresh = !seen_contains(&seen, &cid);
            if !cid.as_str().is_empty() && fresh {
                out.push((a, i));
            }
            seen.push(cid);
            proof {
                assert forall|x: Seq<char>| #[trigger] holds_text(seen@, x) <==> (holds_text(
                    old_seen,
                    x,
                ) || cid@ == x) by {
                    if holds_text(seen@, x) {
                        let k = choose|k: int| 0 <= k < seen@.len() && seen@[k]@ == x;
                        if k < old_seen.len() {
                            assert(old_seen[k] == seen@[k]);
                        }
                    }
                    if holds_text(old_seen, x) {
                        let k = choose|k: int| 0 <= k < old_seen.len() && old_seen[k]@ == x;
                        assert(seen@[k] == old_seen[k]);
                    }
                    if cid@ == x {
                        assert(seen@[old_seen.len() as int] == cid);
                    }
                }
            }
        }
        i = i + 1;
    }
    out
}

proof fn lemma_all_asset_markets_entries(ls: Seq<MarketListing>, n: int)
    requires
        0 <= n <= ls.len() <= usize::MAX,
    ensures
        forall|p: int|
            0 <= p < all_asset_markets(ls, n).len() ==> {
                let e = #[trigger] all_asset_markets(ls, n)[p];
                &&& 0 <= e.1 < n
                &&& first_of_condition(ls, e.1 as int)
                &&& listing_asset(ls[e.1 as int]) == Some(e.0)
            },
        forall|p: int, q: int|
            0 <= p < q < all_asset_markets(ls, n).len() ==> (#[trigger] all_asset_markets(
                ls,
                n,
            )[p]).1 < (#[trigger] all_asset_markets(ls, n)[q]).1,
        forall|i: int|
            0 <= i < n && listing_asset(ls[i]) is Some && listing_condition(ls[i]).len() > 0
                ==> exists|p: int|
                0 <= p < all_asset_markets(ls, n).len() && listing_condition(
                    ls[(#[trigger] all_asset_markets(ls, n)[p]).1 as int],
                ) == listing_condition(ls[i]),
    decreases n,
{
    if n > 0 {
        lemma_all_asset_markets_entries(ls, n - 1);
        let prev = all_asset_markets(ls, n - 1);
        let cur = all_asset_markets(ls, n);
        assert forall|p: int| 0 <= p < prev.len() implies cur[p] == prev[p] by {}
        assert forall|i: int|
            0 <= i < n && listing_asset(ls[i]) is Some && listing_condition(ls[i]).len()
                > 0 implies exists|p: int|
            0 <= p < cur.len() && listing_condition(ls[(#[trigger] cur[p]).1 as int])
                == listing_condition(ls[i]) by {
            if i < n - 1 {
                let p = choose|p: int|
                    0 <= p < prev.len() && listing_condition(ls[(#[trigger] prev[p]).1 as int])
                        == listing_condition(ls[i]);
                assert(cur[p] == prev[p]);
            } else if first_of_condition(ls, i) {
                assert(cur[prev.len() as int].1 == i);
            } else {
                let j = choose|j: int|
                    0 <= j < i && listing_asset(ls[j]) is Some && listing_condition(ls[j])
                        == listing_condition(ls[i]);
                let p = choose|p: int|
                    0 <= p < prev.len() && listing_condition(ls[(#[trigger] prev[p]).1 as int])
                        == listing_condition(ls[j]);
                assert(cur[p] == prev[p]);
            }
        }
    }
}

/// The markets selected across all assets carry distinct condition ids,
/// and every classified market with a condition id is represented.
pub proof fn lemma_all_asset_markets_unique_and_complete(ls: Seq<MarketListing>)
    requires
        ls.len() <= usize::MAX,
    ensures
        forall|p: int, q: int|
            0 <= p < q < all_asset_markets(ls, ls.len() as int).len() ==> listing_condition(
                ls[(#[trigger] all_asset_markets(ls, ls.len() as int)[p]).1 as int],
            ) != listing_condition(
                ls[(#[trigger] all_asset_markets(ls, ls.len() as int)[q]).1 as int],
            ),
        forall|i: int|
            0 <= i < ls.len() && listing_asset(ls[i]) is Some && listing_condition(ls[i]).len()
                > 0 ==> exists|p: int|
                0 <= p < all_asset_markets(ls, ls.len() as int).len() && listing_condition(
                    ls[(#[trigger] all_asset_markets(ls, ls.len() as int)[p]).1 as int],
                ) == listing_condition(ls[i]),
{
    let n = ls.len() as int;
    lemma_all_asset_markets_entries(ls, n);
    let r = all_asset_markets(ls, n);
    assert forall|p: int, q: int| 0 <= p < q < r.len() implies listing_condition(
        ls[(#[trigger] r[p]).1 as int],
    ) != listing_condition(ls[(#[trigger] r[q]).1 as int]) by {
        let i = r[p].1 as int;
        let j = r[q].1 as int;
        assert(i < j);
        assert(first_of_condition(ls, j));
        assert(first_of_condition(ls, i));
    }
}

// ───────────────────────────── token ids ─────────────────────────────

/// Text of the JSON array of strings `text`, as serde_json reads it into a
/// `Vec<String>`; `None` when `text` is not such an array.
pub uninterp spec fn json_string_array(text: Seq<char>) -> Option<Seq<Seq<char>>>;

/// Calls `serde_json::from_str::<Vec<String>>`. Trusted: the result is
/// `json_string_array` of the text.
#[verifier::external_body]
fn parse_string_array(text: &str) -> (r: Option<Vec<String>>)
    ensures
        r matches Some(v) ==> json_string_array(text@) == Some(v@.map_values(|x: String| x@)),
        r is None ==> json_string_array(text@) is None,
{
    serde_json::from_str::<Vec<String>>(text).ok()
}

/// Token id of the last token with the given outcome label, or empty.
pub open spec fn last_token_for(toks: Seq<GammaToken>, outcome: Seq<char>) -> Seq<char>
    decreases toks.len(),
{
    if toks.len() == 0 {
        Seq::empty()
    } else if opt_view(toks.last().outcome) == Some(outcome) {
        text_or_empty(toks.last().token_id)
    } else {
        last_token_for(toks.drop_last(), outcome)
    }
}

/// Yes/No token ids from an explicit token list: at least two tokens, and
/// a non-empty id for both "Yes" and "No" (the last token of each wins).
pub open spec fn token_pair_of_tokens(toks: Seq<GammaToken>) -> Option<(Seq<char>, Seq<char>)> {
    if toks.len() >= 2 {
        let yes = last_token_for(toks, "Yes"@);
        let no = last_token_for(toks, "No"@);
        if yes.len() == 0 || no.len() == 0 {
            None
        } else {
            Some((yes, no))
        }
    } else {
        None
    }
}

/// Yes/No token ids from a list of ids: the first two.
pub open spec fn token_pair_of_list(ids: Seq<Seq<char>>) -> Option<(Seq<char>, Seq<char>)> {
    if ids.len() >= 2 {
        Some((ids[0], ids[1]))
    } else {
        None
    }
}

/// Yes/No token ids of a market: from its token list when it has one,
/// otherwise from its JSON array of token ids.
pub open spec fn token_pair_of(tokens: Option<Seq<GammaToken>>, clob_token_ids: Option<Seq<char>>) -> Option<
    (Seq<char>, Seq<char>),
> {
    match tokens {
        Some(toks) => token_pair_of_tokens(toks),
        None => match clob_token_ids {
            Some(text) => match json_string_array(text) {
                Some(ids) => token_pair_of_list(ids),
                None => None,
            },
            None => None,
        },
    }
}

/// The view of an optional pair of strings.
pub open spec fn pair_view(p: Option<(String, String)>) -> Option<(Seq<char>, Seq<char>)> {
    match p {
        Some((a, b)) => Some((a@, b@)),
        None => None,
    }
}

/// The view of an optional token list.
pub open spec fn tokens_view(t: Option<Vec<GammaToken>>) -> Option<Seq<GammaToken>> {
    match t {
        Some(v) => Some(v@),
        None => None,
    }
}

/// Yes/No token ids from an explicit token list.
pub fn token_pair_from_tokens(tokens: &Vec<GammaToken>) -> (r: Option<(String, String)>)
    ensures
        pair_view(r) == token_pair_of_tokens(tokens@),
{
    if tokens.len() < 2 {
        return None;
    }
    let mut yes = String::new();
    let mut no = String::new();
    proof {
        reveal_strlit("Yes");
        reveal_strlit("No");
        assert("Yes"@ != "No"@) by {
            assert("Yes"@.len() != "No"@.len());
        }
    }
    let mut i: usize = 0;
    while i < tokens.len()
        invariant
            i <= tokens@.len(),
            yes@ == last_token_for(tokens@.take(i as int), "Yes"@),
            no@ == last_token_for(tokens@.take(i as int), "No"@),
            "Yes"@ != "No"@,
        decreases tokens@.len() - i,
    {
        let tok = &tokens[i];
        assert(tokens@.take(i + 1).drop_last() =~= tokens@.take(i as int));
        assert(tokens@.take(i + 1).last() == tokens@[i as int]);
        let id: String = match &tok.token_id {
            Some(t) => t.clone(),
            None => String::new(),
        };
        match &tok.outcome {
            Some(o) => {
                if str_equals(o.as_str(), "Yes") {
                    yes = id;
                } else if str_equals(o.as_str(), "No") {
                    no = id;
                }
            },
            None => {},
        }
        i = i + 1;
    }
    assert(tokens@.take(tokens@.len() as int) =~= tokens@);
    if yes.as_str().is_empty() || no.as_str().is_empty() {
        return None;
    }
    Some((yes, no))
}

/// Yes/No token ids from a list of ids: the first two, if there are two.
pub fn token_pair_from_list(ids: &Vec<String>) -> (r: Option<(String, String)>)
    ensures
        pair_view(r) == token_pair_of_list(ids@.map_values(|x: String| x@)),
{
    if ids.len() >= 2 {
        Some((ids[0].clone(), ids[1].clone()))
    } else {
        None
    }
}

/// Resolves the Yes/No token ids of a market from its token list or, when
/// it has none, from its JSON array of token ids.
pub fn resolve_token_ids(tokens: &Option<Vec<GammaToken>>, clob_token_ids: &Option<String>) -> (r:
    Option<(String, String)>)
    ensures
        pair_view(r) == token_pair_of(tokens_view(*tokens), opt_view(*clob_token_ids)),
{
    match tokens {
        Some(toks) => token_pair_from_tokens(toks),
        None => match clob_token_ids {
            Some(text) => match parse_string_array(text.as_str()) {
                Some(ids) => token_pair_from_list(&ids),
                None => None,
            },
            None => None,
        },
    }
}

// ───────────────────────────── outcome prices ─────────────────────────────

/// The first entry of a list of texts, if it has one.
pub open spec fn first_text(list: Seq<Seq<char>>) -> Option<Seq<char>> {
    if list.len() > 0 {
        Some(list[0])
    } else {
        None
    }
}

/// Price text of the first outcome (YES) in a market's `outcomePrices`
/// JSON array; `None` when the text is no array of strings or the array
/// is empty.
pub open spec fn first_outcome_price_of(text: Seq<char>) -> Option<Seq<char>> {
    match json_string_array(text) {
        Some(prices) => first_text(prices),
        None => None,
    }
}

/// The first string of a list, if it has one.
pub fn first_of_list(list: &Vec<String>) -> (r: Option<String>)
    ensures
        opt_view(r) == first_text(list@.map_values(|x: String| x@)),
{
    if list.len() > 0 {
        Some(list[0].clone())
    } else {
        None
    }
}

/// Reads the price text of the first outcome from a market's
/// `outcomePrices` JSON array, the fallback when the market quotes no
/// best bid and ask.
pub fn first_outcome_price_text(outcome_prices: &str) -> (r: Option<String>)
    ensures
        opt_view(r) == first_outcome_price_of(outcome_prices@),
{
    match parse_string_array(outcome_prices) {
        Some(prices) => first_of_list(&prices),
        None => None,
    }
}

} // verus!
