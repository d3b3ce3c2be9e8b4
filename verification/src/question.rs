//! Reading a market question: its settlement style, its direction, the
//! dollar or rate figure it names, and the rules that pick the fair-value
//! model and decide whether a market is worth scanning.
use vstd::prelude::*;
use crate::state::Asset;
use crate::text::{
    ascii_lower_char, ascii_lowercase, is_ascii_text,
    CharClass, chars_of, find_seq, first_occurrence, has_substr, keep_class, lowercase, opt_view,
    prefix_in_class, remove_char, scan_run_end, scan_run_start, slice_chars, str_contains,
    string_of, filter_class, suffix_in_class, to_lowercase, trim, trim_chars, without_char,
};

verus! {

broadcast use vstd::string::group_string_axioms;

// ───────────────────────────── market style ─────────────────────────────

/// Whether a market settles as a barrier (touched at any point) or as a
/// level at a given date.
#[derive(Debug, Clone, Copy, PartialEq, Eq, Structural)]
pub enum MarketStyle {
    /// "hit", "reach", "dip to": the barrier touched at any point.
    Touch,
    /// "above X on <date>", "be X at the end of": the level at one date.
    European,
}

/// Style of a lowercased question.
pub open spec fn style_of(q: Seq<char>) -> MarketStyle {
    if (has_substr(q, "above"@) || has_substr(q, "below"@)) && has_substr(q, " on "@) {
        MarketStyle::European
    } else if has_substr(q, " be "@) && (has_substr(q, "at the end"@) || has_substr(q, "at end"@)) {
        MarketStyle::European
    } else {
        MarketStyle::Touch
    }
}

/// Style of a question that is already lowercased.
pub fn market_style_of_lowercase(q: &str) -> (r: MarketStyle)
    ensures
        r == style_of(q@),
{
    let v = chars_of(q);
    let s = v.as_slice();
    if (str_contains(s, "above") || str_contains(s, "below")) && str_contains(s, " on ") {
        return MarketStyle::European;
    }
    if str_contains(s, " be ") && (str_contains(s, "at the end") || str_contains(s, "at end")) {
        return MarketStyle::European;
    }
    MarketStyle::Touch
}

/// Determines whether a market is touch/barrier or European-style from its
/// question text, case-insensitively.
pub fn parse_market_style(question: &str) -> (r: MarketStyle)
    ensures
        r == style_of(lowercase(question@)),
        is_ascii_text(question@) ==> r == style_of(ascii_lowercase(question@)),
{
    let q = to_lowercase(question);
    market_style_of_lowercase(q.as_str())
}

// ───────────────────────────── direction ─────────────────────────────

/// Whether a market pays out when the asset ends above or below the threshold.
#[derive(Debug, Clone, Copy, PartialEq, Eq, Structural)]
pub enum Direction {
    /// "above", "reach", "hit (HIGH)", "increase"
    Above,
    /// "dip to", "hit (LOW)", "decrease", "lower", "cut"
    Below,
}

/// Direction of a lowercased question; the downward patterns are tested first.
/// The word "lower" reads as downward, except in a Fed question about the
/// lower bound of the rate range, which is downward only with "or lower" or
/// "or below".
pub open spec fn direction_of(q: Seq<char>) -> Direction {
    if has_substr(q, "dip to"@) || has_substr(q, "dip below"@) {
        Direction::Below
    } else if has_substr(q, "hit (low)"@) || has_substr(q, "hit(low)"@) {
        Direction::Below
    } else if has_substr(q, "decrease"@) || has_substr(q, "cut"@) {
        Direction::Below
    } else if has_substr(q, "lower bound reach"@) && (has_substr(q, "or lower"@) || has_substr(
        q,
        "or below"@,
    )) {
        Direction::Below
    } else if has_substr(q, "\u{2264}"@) || (has_substr(q, "lower"@) && !has_substr(
        q,
        "lower bound reach"@,
    )) {
        Direction::Below
    } else {
        Direction::Above
    }
}

/// Direction of a question that is already lowercased.
pub fn direction_of_lowercase(q: &str) -> (r: Direction)
    ensures
        r == direction_of(q@),
{
    let v = chars_of(q);
    let s = v.as_slice();
    if str_contains(s, "dip to") || str_contains(s, "dip below") {
        return Direction::Below;
    }
    if str_contains(s, "hit (low)") || str_contains(s, "hit(low)") {
        return Direction::Below;
    }
    if str_contains(s, "decrease") || str_contains(s, "cut") {
        return Direction::Below;
    }
    if str_contains(s, "lower bound reach") && (str_contains(s, "or lower") || str_contains(
        s,
        "or below",
    )) {
        return Direction::Below;
    }
    if str_contains(s, "\u{2264}") || (str_contains(s, "lower") && !str_contains(
        s,
        "lower bound reach",
    )) {
        return Direction::Below;
    }
    Direction::Above
}

/// Detects whether a market question asks about going above or below a
/// threshold, case-insensitively.
pub fn parse_direction(question: &str) -> (r: Direction)
    ensures
        r == direction_of(lowercase(question@)),
        is_ascii_text(question@) ==> r == direction_of(ascii_lowercase(question@)),
{
    let q = to_lowercase(question);
    direction_of_lowercase(q.as_str())
}

// ───────────────────────────── dollar figures ─────────────────────────────

/// The figure that follows the first `$` of a question: the digits and
/// decimal points as written, and the factor of a `k`/`m`/`b` suffix.
#[derive(Debug, Clone, PartialEq, Eq)]
pub struct DollarFigure {
    pub digits: String,
    pub multiplier: u64,
}

/// Factor that a magnitude suffix stands for.
pub open spec fn suffix_multiplier(c: Option<char>) -> u64 {
    match c {
        Some(ch) => if ch == 'k' || ch == 'K' {
            1_000
        } else if ch == 'm' || ch == 'M' {
            1_000_000
        } else if ch == 'b' || ch == 'B' {
            1_000_000_000
        } else {
            1
        },
        None => 1,
    }
}

/// The figure after the first `$` of the question with its commas removed:
/// the longest run of digits and points right after the `$` (none if that
/// run is empty), and the factor of the character that follows the run.
pub open spec fn dollar_figure_of(question: Seq<char>) -> Option<(Seq<char>, u64)> {
    let t = without_char(question, ',');
    match first_occurrence(t, seq!['$']) {
        None => None,
        Some(i) => {
            let after = t.skip(i + 1);
            let num = prefix_in_class(after, CharClass::Decimal);
            if num.len() == 0 {
                None
            } else {
                let next = if num.len() < after.len() {
                    Some(after[num.len() as int])
                } else {
                    None
                };
                Some((num, suffix_multiplier(next)))
            }
        },
    }
}

fn multiplier_for(c: Option<char>) -> (r: u64)
    ensures
        r == suffix_multiplier(c),
{
    match c {
        Some(ch) => if ch == 'k' || ch == 'K' {
            1_000
        } else if ch == 'm' || ch == 'M' {
            1_000_000
        } else if ch == 'b' || ch == 'B' {
            1_000_000_000
        } else {
            1
        },
        None => 1,
    }
}

/// Extracts the dollar figure of a question ("$150k" gives digits "150" and
/// factor 1000; "$150,000" gives digits "150000" and factor 1).
pub fn dollar_figure(question: &str) -> (r: Option<DollarFigure>)
    ensures
        r matches Some(f) ==> dollar_figure_of(question@) == Some((f.digits@, f.multiplier)),
        r is None <==> dollar_figure_of(question@) is None,
{
    let qv = chars_of(question);
    let t = remove_char(qv.as_slice(), ',');
    let dollar: Vec<char> = vec!['$'];
    assert(dollar@ =~= seq!['$']);
    match find_seq(t.as_slice(), dollar.as_slice()) {
        None => None,
        Some(i) => {
            let after = slice_chars(t.as_slice(), i + 1, t.len());
            assert(after@ =~= t@.skip(i + 1));
            let end = scan_run_end(after.as_slice(), CharClass::Decimal, 0);
            if end == 0 {
                return None;
            }
            let num = slice_chars(after.as_slice(), 0, end);
            assert(num@ =~= after@.take(end as int));
            let next = if end < after.len() {
                Some(after[end])
            } else {
                None
            };
            Some(DollarFigure { digits: string_of(num.as_slice()), multiplier: multiplier_for(next) })
        },
    }
}

/// Thousands separators make no difference to the figure a question names,
/// nor to its Fed-rate figures.
pub proof fn lemma_commas_ignored(question: Seq<char>)
    ensures
        dollar_figure_of(without_char(question, ',')) == dollar_figure_of(question),
        fed_rate_figures_of(lowercase(without_char(without_char(question, ','), ',')))
            == fed_rate_figures_of(lowercase(without_char(question, ','))),
{
    crate::text::lemma_without_char_idempotent(question, ',');
}

/// Plausible range of a dollar threshold for each asset, inclusive; the Fed
/// rate is read as a percentage, never as a dollar figure.
pub open spec fn threshold_range(asset: Asset) -> Option<(u64, u64)> {
    match asset {
        Asset::Btc => Some((1_000, 10_000_000)),
        Asset::Eth => Some((10, 1_000_000)),
        Asset::CrudeOil => Some((10, 500)),
        Asset::Gold => Some((500, 100_000)),
        Asset::FedRate => None,
    }
}

/// Inclusive bounds within which a dollar threshold is accepted for `asset`.
pub fn threshold_bounds(asset: Asset) -> (r: Option<(u64, u64)>)
    ensures
        r == threshold_range(asset),
{
    match asset {
        Asset::Btc => Some((1_000, 10_000_000)),
        Asset::Eth => Some((10, 1_000_000)),
        Asset::CrudeOil => Some((10, 500)),
        Asset::Gold => Some((500, 100_000)),
        Asset::FedRate => None,
    }
}

// ───────────────────────────── Fed rate figures ─────────────────────────────

/// The two figures a Fed-rate question may carry: the digits and points just
/// before its first `%`, and the digits of the run of digits and `+` just
/// before its first "bps" (whitespace trimmed first).
#[derive(Debug, Clone, PartialEq, Eq)]
pub struct FedRateFigures {
    pub percent_digits: Option<String>,
    pub bps_digits: Option<String>,
}

/// Fed-rate figures of a lowercased question.
pub open spec fn fed_rate_figures_of(q: Seq<char>) -> (Option<Seq<char>>, Option<Seq<char>>) {
    let pct = match first_occurrence(q, seq!['%']) {
        Some(i) => Some(suffix_in_class(q.take(i), CharClass::Decimal)),
        None => None,
    };
    let bps = match first_occurrence(q, "bps"@) {
        Some(j) => Some(
            keep_class(suffix_in_class(trim(q.take(j)), CharClass::DigitOrPlus), CharClass::Digit),
        ),
        None => None,
    };
    (pct, bps)
}

fn suffix_chars(s: &[char], k: CharClass) -> (r: Vec<char>)
    ensures
        r@ == suffix_in_class(s@, k),
{
    let b = scan_run_start(s, k, s.len());
    let r = slice_chars(s, b, s.len());
    assert(r@ =~= s@.skip(b as int));
    r
}

/// Fed-rate figures of a question that is already lowercased.
pub fn fed_rate_figures_of_lowercase(q: &str) -> (r: FedRateFigures)
    ensures
        (opt_view(r.percent_digits), opt_view(r.bps_digits))
            == fed_rate_figures_of(q@),
{
    let qv = chars_of(q);
    let s = qv.as_slice();
    let pct_pat: Vec<char> = vec!['%'];
    assert(pct_pat@ =~= seq!['%']);
    let percent_digits = match find_seq(s, pct_pat.as_slice()) {
        Some(i) => {
            let before = slice_chars(s, 0, i);
            assert(before@ =~= s@.take(i as int));
            let num = suffix_chars(before.as_slice(), CharClass::Decimal);
            Some(string_of(num.as_slice()))
        },
        None => None,
    };
    let bps_pat = chars_of("bps");
    let bps_digits = match find_seq(s, bps_pat.as_slice()) {
        Some(j) => {
            let before = slice_chars(s, 0, j);
            assert(before@ =~= s@.take(j as int));
            let trimmed = trim_chars(before.as_slice());
            let run = suffix_chars(trimmed.as_slice(), CharClass::DigitOrPlus);
            let digits = filter_class(run.as_slice(), CharClass::Digit);
            Some(string_of(digits.as_slice()))
        },
        None => None,
    };
    let r = FedRateFigures { percent_digits, bps_digits };
    assert(opt_view(r.percent_digits) == fed_rate_figures_of(q@).0);
    assert(opt_view(r.bps_digits) == fed_rate_figures_of(q@).1);
    r
}

/// Fed-rate figures of a question: commas removed, then lowercased.
pub fn fed_rate_figures(question: &str) -> (r: FedRateFigures)
    ensures
        (opt_view(r.percent_digits), opt_view(r.bps_digits))
            == fed_rate_figures_of(lowercase(without_char(question@, ','))),
        is_ascii_text(without_char(question@, ',')) ==> (opt_view(r.percent_digits), opt_view(
            r.bps_digits,
        )) == fed_rate_figures_of(ascii_lowercase(without_char(question@, ','))),
{
    let qv = chars_of(question);
    let t = remove_char(qv.as_slice(), ',');
    let ts = string_of(t.as_slice());
    let q = to_lowercase(ts.as_str());
    fed_rate_figures_of_lowercase(q.as_str())
}

// ───────────────────────────── model choice ─────────────────────────────

/// Where the question's threshold lies relative to the spot price.
#[derive(Debug, Clone, Copy, PartialEq, Eq, Structural)]
pub enum ThresholdSide {
    /// The threshold is above the spot price.
    AboveSpot,
    /// The threshold is below the spot price.
    BelowSpot,
    /// Neither (equal, or not comparable).
    AtSpot,
}

/// How the fair probability of the "Yes" outcome is obtained.
#[derive(Debug, Clone, Copy, PartialEq, Eq, Structural)]
pub enum FairValueModel {
    /// Probability that the price ends above the threshold at expiry.
    EndsAbove,
    /// One minus the probability that the price ends above the threshold.
    EndsBelow,
    /// Probability that the price touches the threshold before expiry.
    Touches,
    /// The barrier has already been reached: probability one.
    AlreadyReached,
}

/// Model for the "Yes" outcome: a level market compares the price at expiry
/// (in the question's direction); a barrier market is certain once the spot
/// is at or past the barrier, and a touch probability otherwise.
pub open spec fn fair_value_model_of(
    direction: Direction,
    style: MarketStyle,
    side: ThresholdSide,
) -> FairValueModel {
    match style {
        MarketStyle::European => match direction {
            Direction::Above => FairValueModel::EndsAbove,
            Direction::Below => FairValueModel::EndsBelow,
        },
        MarketStyle::Touch => {
            let ahead = match direction {
                Direction::Above => side == ThresholdSide::AboveSpot,
                Direction::Below => side == ThresholdSide::BelowSpot,
            };
            if ahead {
                FairValueModel::Touches
            } else {
                FairValueModel::AlreadyReached
            }
        },
    }
}

/// Chooses the fair-value model for a market from its direction, its style
/// and where its threshold lies relative to the spot price.
pub fn fair_value_model(direction: Direction, style: MarketStyle, side: ThresholdSide) -> (r:
    FairValueModel)
    ensures
        r == fair_value_model_of(direction, style, side),
{
    match style {
        MarketStyle::European => match direction {
            Direction::Above => FairValueModel::EndsAbove,
            Direction::Below => FairValueModel::EndsBelow,
        },
        MarketStyle::Touch => {
            let ahead = match direction {
                Direction::Above => match side {
                    ThresholdSide::AboveSpot => true,
                    _ => false,
                },
                Direction::Below => match side {
                    ThresholdSide::BelowSpot => true,
                    _ => false,
                },
            };
            if ahead {
                FairValueModel::Touches
            } else {
                FairValueModel::AlreadyReached
            }
        },
    }
}

// ───────────────────────────── scan eligibility ─────────────────────────────

/// Markets that expire within this many seconds are not traded.
pub const MIN_SECONDS_TO_EXPIRY: i64 = 3600;

/// A market is scanned when it is not a Fed-rate market, its asset has a
/// positive spot price, its threshold could be read, and it expires at
/// least `MIN_SECONDS_TO_EXPIRY` seconds from now.
pub open spec fn scan_eligible_spec(
    asset: Asset,
    spot_positive: bool,
    has_threshold: bool,
    seconds_to_expiry: Option<i64>,
) -> bool {
    &&& asset != Asset::FedRate
    &&& spot_positive
    &&& has_threshold
    &&& seconds_to_expiry matches Some(t) && t >= MIN_SECONDS_TO_EXPIRY
}

/// Whether the divergence scan looks at a market at all.
pub fn scan_eligible(
    asset: Asset,
    spot_positive: bool,
    has_threshold: bool,
    seconds_to_expiry: Option<i64>,
) -> (r: bool)
    ensures
        r == scan_eligible_spec(asset, spot_positive, has_threshold, seconds_to_expiry),
{
    if asset == Asset::FedRate || !spot_positive || !has_threshold {
        return false;
    }
    match seconds_to_expiry {
        Some(t) => t >= MIN_SECONDS_TO_EXPIRY,
        None => false,
    }
}

/// Why the diagnostics report a market as skipped.
#[derive(Debug, Clone, Copy, PartialEq, Eq, Structural)]
pub enum SkipReason {
    NoThreshold,
    NoSpotPrice,
    ExpiredOrNoDate,
    ExpiryTooClose,
    IlliquidSpread,
    ExtremePrice,
}

/// The first failed check, in the order the diagnostics test them.
pub open spec fn skip_reason_of(
    asset: Asset,
    has_threshold: bool,
    spot_positive: bool,
    seconds_to_expiry: Option<i64>,
    spread_too_wide: bool,
    price_extreme: bool,
) -> Option<SkipReason> {
    if !has_threshold {
        Some(SkipReason::NoThreshold)
    } else if !spot_positive && asset != Asset::FedRate {
        Some(SkipReason::NoSpotPrice)
    } else if seconds_to_expiry is None {
        Some(SkipReason::ExpiredOrNoDate)
    } else if seconds_to_expiry->0 < MIN_SECONDS_TO_EXPIRY {
        Some(SkipReason::ExpiryTooClose)
    } else if spread_too_wide {
        Some(SkipReason::IlliquidSpread)
    } else if price_extreme {
        Some(SkipReason::ExtremePrice)
    } else {
        None
    }
}

/// Reason the diagnostics give for skipping a market, if any.
pub fn skip_reason(
    asset: Asset,
    has_threshold: bool,
    spot_positive: bool,
    seconds_to_expiry: Option<i64>,
    spread_too_wide: bool,
    price_extreme: bool,
) -> (r: Option<SkipReason>)
    ensures
        r == skip_reason_of(
            asset,
            has_threshold,
            spot_positive,
            seconds_to_expiry,
            spread_too_wide,
            price_extreme,
        ),
{
    if !has_threshold {
        return Some(SkipReason::NoThreshold);
    }
    if !spot_positive && asset != Asset::FedRate {
        return Some(SkipReason::NoSpotPrice);
    }
    match seconds_to_expiry {
        None => Some(SkipReason::ExpiredOrNoDate),
        Some(t) => if t < MIN_SECONDS_TO_EXPIRY {
            Some(SkipReason::ExpiryTooClose)
        } else if spread_too_wide {
            Some(SkipReason::IlliquidSpread)
        } else if price_extreme {
            Some(SkipReason::ExtremePrice)
        } else {
            None
        },
    }
}

/// A market that the diagnostics report as not skipped, other than a
/// Fed-rate market, is one the divergence scan looks at.
pub proof fn lemma_unskipped_markets_are_scanned(
    asset: Asset,
    has_threshold: bool,
    spot_positive: bool,
    seconds_to_expiry: Option<i64>,
    spread_too_wide: bool,
    price_extreme: bool,
)
    requires
        asset != Asset::FedRate,
        skip_reason_of(
            asset,
            has_threshold,
            spot_positive,
            seconds_to_expiry,
            spread_too_wide,
            price_extreme,
        ) is None,
    ensures
        scan_eligible_spec(asset, spot_positive, has_threshold, seconds_to_expiry),
{
}

/// The diagnostics skip a market exactly when one of their checks fails,
/// and name the first failed check: a missing threshold before a missing
/// spot price (never reported for the Fed rate), before a missing or past
/// end date, before an end date too close, before a wide spread, before
/// an extreme price.
pub proof fn lemma_skip_reasons(
    asset: Asset,
    has_threshold: bool,
    spot_positive: bool,
    seconds_to_expiry: Option<i64>,
    spread_too_wide: bool,
    price_extreme: bool,
)
    ensures
        ({
            let r = skip_reason_of(
                asset,
                has_threshold,
                spot_positive,
                seconds_to_expiry,
                spread_too_wide,
                price_extreme,
            );
            let spot_ok = spot_positive || asset == Asset::FedRate;
            let expiry_ok = seconds_to_expiry matches Some(t) && t >= MIN_SECONDS_TO_EXPIRY;
            let too_close = seconds_to_expiry matches Some(t) && t < MIN_SECONDS_TO_EXPIRY;
            &&& r is None <==> has_threshold && spot_ok && expiry_ok && !spread_too_wide
                && !price_extreme
            &&& r == Some(SkipReason::NoThreshold) <==> !has_threshold
            &&& r == Some(SkipReason::NoSpotPrice) <==> has_threshold && !spot_ok
            &&& r == Some(SkipReason::ExpiredOrNoDate) <==> has_threshold && spot_ok
                && seconds_to_expiry is None
            &&& r == Some(SkipReason::ExpiryTooClose) <==> has_threshold && spot_ok && too_close
            &&& r == Some(SkipReason::IlliquidSpread) <==> has_threshold && spot_ok && expiry_ok
                && spread_too_wide
            &&& r == Some(SkipReason::ExtremePrice) <==> has_threshold && spot_ok && expiry_ok
                && !spread_too_wide && price_extreme
        }),
{
}

/// A touch market whose barrier the spot has already reached is priced as
/// certain, whichever way the question points.
pub proof fn lemma_reached_barrier_is_certain(direction: Direction)
    ensures
        fair_value_model_of(direction, MarketStyle::Touch, ThresholdSide::AtSpot)
            == FairValueModel::AlreadyReached,
        fair_value_model_of(direction, MarketStyle::Touch, match direction {
            Direction::Above => ThresholdSide::BelowSpot,
            Direction::Below => ThresholdSide::AboveSpot,
        }) == FairValueModel::AlreadyReached,
{
}

// ───────────────────────────── laws ─────────────────────────────

/// A magnitude suffix is read without regard to case: 'k' or 'K' stands
/// for a thousand, 'm' or 'M' for a million, 'b' or 'B' for a billion, and
/// any other character, or none, for one.
pub proof fn lemma_suffix_case_insensitive(c: char)
    ensures
        suffix_multiplier(Some(c)) == suffix_multiplier(Some(ascii_lower_char(c))),
        ascii_lower_char(c) == 'k' ==> suffix_multiplier(Some(c)) == 1_000,
        ascii_lower_char(c) == 'm' ==> suffix_multiplier(Some(c)) == 1_000_000,
        ascii_lower_char(c) == 'b' ==> suffix_multiplier(Some(c)) == 1_000_000_000,
        ascii_lower_char(c) != 'k' && ascii_lower_char(c) != 'm' && ascii_lower_char(c) != 'b'
            ==> suffix_multiplier(Some(c)) == 1,
        suffix_multiplier(None) == 1,
{
}

/// Each downward pattern of a lowercased question makes it a Below
/// question, and a Below question shows one of them.
pub proof fn lemma_direction_markers(q: Seq<char>)
    ensures
        has_substr(q, "dip to"@) ==> direction_of(q) == Direction::Below,
        has_substr(q, "dip below"@) ==> direction_of(q) == Direction::Below,
        has_substr(q, "hit (low)"@) || has_substr(q, "hit(low)"@) ==> direction_of(q)
            == Direction::Below,
        has_substr(q, "decrease"@) || has_substr(q, "cut"@) ==> direction_of(q)
            == Direction::Below,
        has_substr(q, "\u{2264}"@) ==> direction_of(q) == Direction::Below,
        has_substr(q, "lower"@) && !has_substr(q, "lower bound reach"@) ==> direction_of(q)
            == Direction::Below,
        has_substr(q, "lower bound reach"@) && (has_substr(q, "or lower"@) || has_substr(
            q,
            "or below"@,
        )) ==> direction_of(q) == Direction::Below,
        direction_of(q) == Direction::Below ==> has_substr(q, "dip to"@) || has_substr(
            q,
            "dip below"@,
        ) || has_substr(q, "hit (low)"@) || has_substr(q, "hit(low)"@) || has_substr(
            q,
            "decrease"@,
        ) || has_substr(q, "cut"@) || has_substr(q, "\u{2264}"@) || has_substr(q, "lower"@),
{
    reveal_strlit("or lower");
    reveal_strlit("lower bound reach");
    reveal_strlit("lower");
    if has_substr(q, "or lower"@) {
        let i = choose|i: int| crate::text::occurs_at(q, "or lower"@, i);
        assert("or lower"@.subrange(3, 8) =~= "lower"@);
        lemma_contains_part(q, "or lower"@, "lower"@, i, 3);
    }
    if has_substr(q, "lower bound reach"@) {
        let i = choose|i: int| crate::text::occurs_at(q, "lower bound reach"@, i);
        assert("lower bound reach"@.subrange(0, 5) =~= "lower"@);
        lemma_contains_part(q, "lower bound reach"@, "lower"@, i, 0);
    }
}

/// If `p` occurs in `s` at `i` and `w` is the part of `p` that starts at
/// position `d`, then `w` occurs in `s`.
proof fn lemma_contains_part(s: Seq<char>, p: Seq<char>, w: Seq<char>, i: int, d: int)
    requires
        crate::text::occurs_at(s, p, i),
        0 <= d,
        d + w.len() <= p.len(),
        w == p.subrange(d, d + w.len()),
    ensures
        has_substr(s, w),
{
    assert(s.subrange(i + d, i + d + w.len()) =~= w) by {
        assert forall|j: int| 0 <= j < w.len() implies s.subrange(i + d, i + d + w.len())[j]
            == w[j] by {
            assert(s.subrange(i, i + p.len())[d + j] == p[d + j]);
        }
    }
    assert(crate::text::occurs_at(s, w, i + d));
}

/// A lowercased question that names a date with "above"/"below" and " on ",
/// or says the asset will " be " somewhere "at the end", settles at a level;
/// every other question settles as a barrier.
pub proof fn lemma_style_markers(q: Seq<char>)
    ensures
        (has_substr(q, "above"@) || has_substr(q, "below"@)) && has_substr(q, " on "@)
            ==> style_of(q) == MarketStyle::European,
        has_substr(q, " be "@) && (has_substr(q, "at the end"@) || has_substr(q, "at end"@))
            ==> style_of(q) == MarketStyle::European,
        style_of(q) == MarketStyle::European ==> ((has_substr(q, "above"@) || has_substr(
            q,
            "below"@,
        )) && has_substr(q, " on "@)) || (has_substr(q, " be "@) && (has_substr(
            q,
            "at the end"@,
        ) || has_substr(q, "at end"@))),
{
}

/// A level market is priced by its direction alone, wherever its threshold
/// lies: Above by the chance of ending above, Below by its complement. A
/// barrier market is priced by the touch probability exactly when the
/// barrier still lies ahead in the question's direction, and as certain
/// otherwise.
pub proof fn lemma_model_by_style(direction: Direction, side: ThresholdSide)
    ensures
        fair_value_model_of(Direction::Above, MarketStyle::European, side)
            == FairValueModel::EndsAbove,
        fair_value_model_of(Direction::Below, MarketStyle::European, side)
            == FairValueModel::EndsBelow,
        fair_value_model_of(Direction::Above, MarketStyle::Touch, side) == FairValueModel::Touches
            <==> side == ThresholdSide::AboveSpot,
        fair_value_model_of(Direction::Below, MarketStyle::Touch, side) == FairValueModel::Touches
            <==> side == ThresholdSide::BelowSpot,
        fair_value_model_of(direction, MarketStyle::Touch, side) == FairValueModel::Touches
            || fair_value_model_of(direction, MarketStyle::Touch, side)
            == FairValueModel::AlreadyReached,
{
}

} // verus!
