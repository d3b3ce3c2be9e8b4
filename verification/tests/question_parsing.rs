use polymarket_btc_arb::question::{
    dollar_figure, direction_of_lowercase, fair_value_model, fed_rate_figures,
    fed_rate_figures_of_lowercase, market_style_of_lowercase, parse_direction, parse_market_style,
    scan_eligible, skip_reason, threshold_bounds, Direction, DollarFigure, FairValueModel,
    MarketStyle, SkipReason, ThresholdSide,
};
use polymarket_btc_arb::state::Asset;
use polymarket_btc_arb::text::truncate_str;

fn figure(digits: &str, multiplier: u64) -> Option<DollarFigure> {
    Some(DollarFigure { digits: digits.to_string(), multiplier })
}

#[test]
fn dollar_figure_with_k_suffix() {
    assert_eq!(dollar_figure("Will Bitcoin hit $150k by March 31, 2026?"), figure("150", 1_000));
}

#[test]
fn dollar_figure_with_capital_k_suffix() {
    assert_eq!(dollar_figure("Will BTC be above $200K on April 2?"), figure("200", 1_000));
}

#[test]
fn dollar_figure_with_m_suffix() {
    assert_eq!(dollar_figure("Will bitcoin hit $1m before GTA VI?"), figure("1", 1_000_000));
}

#[test]
fn dollar_figure_with_b_suffix() {
    assert_eq!(dollar_figure("Market cap above $2.5B?"), figure("2.5", 1_000_000_000));
}

#[test]
fn dollar_figure_commas_removed() {
    assert_eq!(dollar_figure("Bitcoin above $150,000 by end of year?"), figure("150000", 1));
    assert_eq!(dollar_figure("Will the price of Bitcoin be above $66,000?"), figure("66000", 1));
    assert_eq!(dollar_figure("Will Gold (GC) hit (HIGH) $3,400 by June?"), figure("3400", 1));
}

#[test]
fn dollar_figure_plain_number() {
    assert_eq!(dollar_figure("Will Crude Oil (CL) hit (HIGH) $120 by end of June?"), figure("120", 1));
}

#[test]
fn dollar_figure_first_dollar_sign_wins() {
    assert_eq!(dollar_figure("Between $90k and $100k?"), figure("90", 1_000));
}

#[test]
fn dollar_figure_absent() {
    assert_eq!(dollar_figure("Will Bitcoin reach a new high?"), None);
    assert_eq!(dollar_figure("Price in $ terms?"), None);
    assert_eq!(dollar_figure("ends with $"), None);
}

#[test]
fn dollar_figure_keeps_every_point() {
    assert_eq!(dollar_figure("odd $1.2.3x"), figure("1.2.3", 1));
}

#[test]
fn fed_rate_percent_figure() {
    let f = fed_rate_figures("Will the upper bound of the target rate be 3.75% after June?");
    assert_eq!(f.percent_digits.as_deref(), Some("3.75"));
    assert_eq!(f.bps_digits, None);
}

#[test]
fn fed_rate_bps_figure() {
    let f = fed_rate_figures("Fed decrease rates by 25 bps after March meeting?");
    assert_eq!(f.percent_digits, None);
    assert_eq!(f.bps_digits.as_deref(), Some("25"));
}

#[test]
fn fed_rate_bps_with_plus() {
    let f = fed_rate_figures("Fed increase by 50+ BPS?");
    assert_eq!(f.bps_digits.as_deref(), Some("50"));
}

#[test]
fn fed_rate_percent_without_digits() {
    let f = fed_rate_figures_of_lowercase("no change (0%)?");
    assert_eq!(f.percent_digits.as_deref(), Some("0"));
    let g = fed_rate_figures_of_lowercase("a % sign");
    assert_eq!(g.percent_digits.as_deref(), Some(""));
}

#[test]
fn fed_rate_commas_removed_before_reading() {
    let f = fed_rate_figures("rate 1,5% ?");
    assert_eq!(f.percent_digits.as_deref(), Some("15"));
}

#[test]
fn style_european_above_on() {
    assert_eq!(parse_market_style("Will BTC be above $200K on April 2?"), MarketStyle::European);
    assert_eq!(parse_market_style("BITCOIN BELOW $80K ON FRIDAY?"), MarketStyle::European);
}

#[test]
fn style_european_end_of_period() {
    assert_eq!(
        parse_market_style("Will the Fed rate be 4% at the end of 2026?"),
        MarketStyle::European
    );
    assert_eq!(market_style_of_lowercase("will it be 5% at end of may"), MarketStyle::European);
}

#[test]
fn style_touch_default() {
    assert_eq!(parse_market_style("Will Bitcoin hit $150k by March 31, 2026?"), MarketStyle::Touch);
    assert_eq!(parse_market_style("Bitcoin above $150,000 by end of year?"), MarketStyle::Touch);
}

#[test]
fn direction_below_patterns() {
    assert_eq!(parse_direction("Will Bitcoin dip to $50k?"), Direction::Below);
    assert_eq!(parse_direction("Will Gold (GC) hit (LOW) $2,000?"), Direction::Below);
    assert_eq!(parse_direction("Fed decrease by 25 bps?"), Direction::Below);
    assert_eq!(parse_direction("Will the Fed cut rates?"), Direction::Below);
    assert_eq!(parse_direction("Lower bound reach 3% or lower?"), Direction::Below);
    assert_eq!(parse_direction("Rate \u{2264} 3.5%?"), Direction::Below);
    assert_eq!(parse_direction("Rate 3% or lower?"), Direction::Below);
}

#[test]
fn direction_above_patterns() {
    assert_eq!(parse_direction("Will Bitcoin reach $200k?"), Direction::Above);
    assert_eq!(parse_direction("Will Crude Oil (CL) hit (HIGH) $120?"), Direction::Above);
    assert_eq!(direction_of_lowercase("rate 5% or higher?"), Direction::Above);
}

#[test]
fn direction_lower_word() {
    assert_eq!(parse_direction("Will oil close lower than $60 on Friday?"), Direction::Below);
    assert_eq!(
        parse_direction("Will the Fed's lower bound reach 3% or higher?"),
        Direction::Above
    );
    assert_eq!(
        parse_direction("Will the Fed's lower bound reach 3% or below?"),
        Direction::Below
    );
}

#[test]
fn direction_needs_lowercasing() {
    assert_eq!(parse_direction("WILL BTC DIP TO $60K?"), Direction::Below);
    assert_eq!(direction_of_lowercase("WILL BTC DIP TO $60K?"), Direction::Above);
}

#[test]
fn threshold_ranges() {
    assert_eq!(threshold_bounds(Asset::Btc), Some((1_000, 10_000_000)));
    assert_eq!(threshold_bounds(Asset::Eth), Some((10, 1_000_000)));
    assert_eq!(threshold_bounds(Asset::CrudeOil), Some((10, 500)));
    assert_eq!(threshold_bounds(Asset::Gold), Some((500, 100_000)));
    assert_eq!(threshold_bounds(Asset::FedRate), None);
}

#[test]
fn model_choice() {
    assert_eq!(fair_value_model(Direction::Above, MarketStyle::European, ThresholdSide::BelowSpot), FairValueModel::EndsAbove);
    assert_eq!(fair_value_model(Direction::Below, MarketStyle::European, ThresholdSide::AboveSpot), FairValueModel::EndsBelow);
    assert_eq!(fair_value_model(Direction::Above, MarketStyle::Touch, ThresholdSide::AboveSpot), FairValueModel::Touches);
    assert_eq!(fair_value_model(Direction::Above, MarketStyle::Touch, ThresholdSide::BelowSpot), FairValueModel::AlreadyReached);
    assert_eq!(fair_value_model(Direction::Below, MarketStyle::Touch, ThresholdSide::BelowSpot), FairValueModel::Touches);
    assert_eq!(fair_value_model(Direction::Below, MarketStyle::Touch, ThresholdSide::AtSpot), FairValueModel::AlreadyReached);
}

#[test]
fn scan_eligibility_rules() {
    assert!(scan_eligible(Asset::Btc, true, true, Some(3600)));
    assert!(!scan_eligible(Asset::Btc, true, true, Some(3599)));
    assert!(!scan_eligible(Asset::Btc, true, true, None));
    assert!(!scan_eligible(Asset::Btc, false, true, Some(100_000)));
    assert!(!scan_eligible(Asset::Eth, true, false, Some(100_000)));
    assert!(!scan_eligible(Asset::FedRate, true, true, Some(100_000)));
}

#[test]
fn skip_reasons_in_order() {
    assert_eq!(skip_reason(Asset::Btc, false, false, None, true, true), Some(SkipReason::NoThreshold));
    assert_eq!(skip_reason(Asset::Btc, true, false, None, true, true), Some(SkipReason::NoSpotPrice));
    assert_eq!(skip_reason(Asset::FedRate, true, false, None, true, true), Some(SkipReason::ExpiredOrNoDate));
    assert_eq!(skip_reason(Asset::Gold, true, true, Some(10), true, true), Some(SkipReason::ExpiryTooClose));
    assert_eq!(skip_reason(Asset::Gold, true, true, Some(7200), true, true), Some(SkipReason::IlliquidSpread));
    assert_eq!(skip_reason(Asset::Gold, true, true, Some(7200), false, true), Some(SkipReason::ExtremePrice));
    assert_eq!(skip_reason(Asset::Gold, true, true, Some(7200), false, false), None);
}

#[test]
fn truncate_short_text_unchanged() {
    assert_eq!(truncate_str("Will BTC hit $100k?", 50), "Will BTC hit $100k?");
    assert_eq!(truncate_str("abcde", 5), "abcde");
}

#[test]
fn truncate_long_text_with_ellipsis() {
    assert_eq!(truncate_str("abcdefgh", 5), "abcde…");
    assert_eq!(truncate_str("héllo wörld", 3), "hé…");
    assert_eq!(truncate_str("abc", 0), "…");
}

#[test]
fn unskipped_market_is_scanned() {
    let ttx = Some(86_400);
    assert_eq!(skip_reason(Asset::Eth, true, true, ttx, false, false), None);
    assert!(scan_eligible(Asset::Eth, true, true, ttx));
}

#[test]
fn commas_do_not_change_the_figure() {
    assert_eq!(dollar_figure("above $1,234,567?"), dollar_figure("above $1234567?"));
}
