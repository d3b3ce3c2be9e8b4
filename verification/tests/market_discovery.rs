use polymarket_btc_arb::market::{
    classify_lowercase, classify_market, first_of_list, first_outcome_price_text, resolve_token_ids, select_all_asset_markets,
    select_markets_for_asset, token_pair_from_list, token_pair_from_tokens, GammaToken,
    MarketListing, Side,
};
use polymarket_btc_arb::state::Asset;

fn tok(id: Option<&str>, outcome: Option<&str>) -> GammaToken {
    GammaToken { token_id: id.map(String::from), outcome: outcome.map(String::from) }
}

fn listing(title: &str, cid: Option<&str>, question: &str) -> MarketListing {
    MarketListing {
        event_title: Some(title.to_string()),
        condition_id: cid.map(String::from),
        question: Some(question.to_string()),
    }
}

fn pair(a: &str, b: &str) -> Option<(String, String)> {
    Some((a.to_string(), b.to_string()))
}

#[test]
fn side_labels() {
    assert_eq!(Side::Buy.as_str(), "BUY");
    assert_eq!(Side::Sell.as_str(), "SELL");
    assert_eq!(Side::parse_label("BUY"), Some(Side::Buy));
    assert_eq!(Side::parse_label("SELL"), Some(Side::Sell));
    assert_eq!(Side::parse_label("buy"), None);
    assert_eq!(Side::parse_label(Side::Sell.as_str()), Some(Side::Sell));
}

#[test]
fn classify_by_title_or_question() {
    assert_eq!(classify_market("Bitcoin price on March 31?", "Will BTC hit $150k?"), Some(Asset::Btc));
    assert_eq!(classify_market("What price will ETHEREUM hit?", "x"), Some(Asset::Eth));
    assert_eq!(classify_market("", "Will Crude Oil (CL) hit (HIGH) $120?"), Some(Asset::CrudeOil));
    assert_eq!(classify_market("Gold (GC) above ___", ""), Some(Asset::Gold));
    assert_eq!(classify_market("Fed decision in June?", "Fed rate cut?"), Some(Asset::FedRate));
    assert_eq!(classify_market("Who wins the election?", "Will X win?"), None);
}

#[test]
fn classify_microstrategy_needs_a_dollar_figure() {
    assert_eq!(classify_market("MicroStrategy sells Bitcoin?", "Will MicroStrategy sell BTC?"), None);
    assert_eq!(
        classify_market("MicroStrategy", "Will MicroStrategy buy BTC above $100k?"),
        Some(Asset::Btc)
    );
}

#[test]
fn classify_bitcoin_before_others() {
    assert_eq!(classify_market("Gold vs Bitcoin", "gold or btc?"), Some(Asset::Btc));
}

#[test]
fn classify_needs_lowercase_input() {
    assert_eq!(classify_lowercase("BITCOIN", ""), None);
    assert_eq!(classify_market("BITCOIN", ""), Some(Asset::Btc));
}

#[test]
fn token_ids_from_token_list() {
    let toks = vec![tok(Some("111"), Some("Yes")), tok(Some("222"), Some("No"))];
    assert_eq!(token_pair_from_tokens(&toks), pair("111", "222"));
}

#[test]
fn token_ids_last_token_of_an_outcome_wins() {
    let toks = vec![
        tok(Some("1"), Some("Yes")),
        tok(Some("2"), Some("No")),
        tok(Some("3"), Some("Yes")),
    ];
    assert_eq!(token_pair_from_tokens(&toks), pair("3", "2"));
}

#[test]
fn token_ids_need_both_outcomes() {
    let toks = vec![tok(Some("1"), Some("Yes")), tok(Some("2"), Some("Maybe"))];
    assert_eq!(token_pair_from_tokens(&toks), None);
    let toks = vec![tok(Some("1"), Some("Yes")), tok(None, Some("No"))];
    assert_eq!(token_pair_from_tokens(&toks), None);
    let toks = vec![tok(Some("1"), Some("Yes"))];
    assert_eq!(token_pair_from_tokens(&toks), None);
}

#[test]
fn token_ids_from_id_list() {
    let ids = vec!["a".to_string(), "b".to_string(), "c".to_string()];
    assert_eq!(token_pair_from_list(&ids), pair("a", "b"));
    assert_eq!(token_pair_from_list(&vec!["a".to_string()]), None);
}

#[test]
fn token_ids_from_json_array() {
    let json = Some("[\"7001\", \"7002\"]".to_string());
    assert_eq!(resolve_token_ids(&None, &json), pair("7001", "7002"));
    assert_eq!(resolve_token_ids(&None, &Some("[\"only\"]".to_string())), None);
    assert_eq!(resolve_token_ids(&None, &Some("not json".to_string())), None);
    assert_eq!(resolve_token_ids(&None, &None), None);
}

#[test]
fn token_list_takes_precedence_over_json() {
    let toks = Some(vec![tok(Some("1"), Some("Yes"))]);
    let json = Some("[\"7001\", \"7002\"]".to_string());
    assert_eq!(resolve_token_ids(&toks, &json), None);
}

#[test]
fn markets_for_one_asset() {
    let ls = vec![
        listing("Bitcoin", Some("c1"), "hit $100k?"),
        listing("Gold", Some("c2"), "hit $3000?"),
        listing("Election", Some("c3"), "who wins?"),
        listing("Bitcoin", Some("c1"), "hit $100k?"),
    ];
    assert_eq!(select_markets_for_asset(&ls, Asset::Btc), vec![0, 3]);
    assert_eq!(select_markets_for_asset(&ls, Asset::Gold), vec![1]);
    assert_eq!(select_markets_for_asset(&ls, Asset::Eth), Vec::<usize>::new());
}

#[test]
fn all_markets_deduplicated_by_condition() {
    let ls = vec![
        listing("Bitcoin", Some("c1"), "hit $100k?"),
        listing("Gold", Some("c2"), "hit $3000?"),
        listing("Election", Some("c3"), "who wins?"),
        listing("Crude Oil", Some("c1"), "hit $100?"),
        listing("Ethereum", None, "hit $5k?"),
        listing("Ethereum", Some(""), "hit $5k?"),
        listing("Ethereum", Some("c4"), "hit $5k?"),
    ];
    assert_eq!(
        select_all_asset_markets(&ls),
        vec![(Asset::Btc, 0), (Asset::Gold, 1), (Asset::Eth, 6)]
    );
}

#[test]
fn outcome_price_fallback_reads_first_price() {
    assert_eq!(first_outcome_price_text("[\"0.42\", \"0.58\"]"), Some("0.42".to_string()));
    assert_eq!(first_outcome_price_text("[\"0.9\"]"), Some("0.9".to_string()));
}

#[test]
fn outcome_price_fallback_rejects_bad_text() {
    assert_eq!(first_outcome_price_text("[]"), None);
    assert_eq!(first_outcome_price_text("not json"), None);
    assert_eq!(first_outcome_price_text("[0.42, 0.58]"), None);
}

#[test]
fn first_of_list_picks_head() {
    assert_eq!(first_of_list(&vec!["a".to_string(), "b".to_string()]), Some("a".to_string()));
    assert_eq!(first_of_list(&vec![]), None);
}
