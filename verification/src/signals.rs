//! Which trade signals a scan emits: for each market, a signal on its YES
//! prices, a signal on its NO prices, or neither, with at most one signal
//! per market. The price comparisons themselves are made by the caller and
//! arrive here as booleans.
use vstd::prelude::*;
use crate::text::str_equals;

verus! {

/// What a scan found for one market, reduced to the decisions it needs.
#[derive(Debug, Clone)]
pub struct SignalCandidate {
    /// The market's condition id.
    pub condition_id: String,
    /// The YES prices are liquid and the fair YES value diverges from
    /// them by more than the threshold.
    pub yes_triggers: bool,
    /// The fair YES value is above the YES mid price.
    pub yes_underpriced: bool,
    /// The NO prices are liquid and the fair NO value diverges from them by
    /// more than the threshold.
    pub no_triggers: bool,
    /// The fair NO value is above the NO mid price.
    pub no_underpriced: bool,
}

/// The outcome token a signal buys.
#[derive(Debug, Clone, Copy, PartialEq, Eq, Structural)]
pub enum Leg {
    Yes,
    No,
}

/// Whose prices a signal was read from.
#[derive(Debug, Clone, Copy, PartialEq, Eq, Structural)]
pub enum Basis {
    YesPrices,
    NoPrices,
}

/// One emitted signal: the candidate it belongs to, the prices it was read
/// from and the token it buys.
#[derive(Debug, Clone, Copy, PartialEq, Eq, Structural)]
pub struct SignalPick {
    pub index: usize,
    pub basis: Basis,
    pub leg: Leg,
}

/// Condition id of the market that pick `p` belongs to.
pub open spec fn pick_market(cands: Seq<SignalCandidate>, p: SignalPick) -> Seq<char> {
    cands[p.index as int].condition_id@
}

/// Some pick of `picks` belongs to a market with condition id `id`.
pub open spec fn names_market(
    cands: Seq<SignalCandidate>,
    picks: Seq<SignalPick>,
    id: Seq<char>,
) -> bool {
    exists|k: int| 0 <= k < picks.len() && #[trigger] pick_market(cands, picks[k]) == id
}

/// The signal read from a market's YES prices: buy YES when it is
/// underpriced, else buy NO.
pub open spec fn yes_pick(i: int, c: SignalCandidate) -> SignalPick {
    SignalPick {
        index: i as usize,
        basis: Basis::YesPrices,
        leg: if c.yes_underpriced {
            Leg::Yes
        } else {
            Leg::No
        },
    }
}

/// The signal read from a market's NO prices: buy NO when it is
/// underpriced, else buy YES.
pub open spec fn no_pick(i: int, c: SignalCandidate) -> SignalPick {
    SignalPick {
        index: i as usize,
        basis: Basis::NoPrices,
        leg: if c.no_underpriced {
            Leg::No
        } else {
            Leg::Yes
        },
    }
}

/// Signals of the candidates in order. A market gives its YES-price signal
/// when that side triggers; it gives its NO-price signal when that side
/// triggers and no signal so far (its own YES-price signal included)
/// belongs to a market with the same condition id.
pub open spec fn signal_picks(cands: Seq<SignalCandidate>) -> Seq<SignalPick>
    decreases cands.len(),
{
    if cands.len() == 0 {
        Seq::empty()
    } else {
        let i = cands.len() - 1;
        let c = cands[i];
        let prev = signal_picks(cands.drop_last());
        let with_yes = if c.yes_triggers {
            prev.push(yes_pick(i, c))
        } else {
            prev
        };
        if c.no_triggers && !names_market(cands, with_yes, c.condition_id@) {
            with_yes.push(no_pick(i, c))
        } else {
            with_yes
        }
    }
}

/// The condition ids of `cands` are pairwise distinct.
pub open spec fn markets_distinct(cands: Seq<SignalCandidate>) -> bool {
    forall|a: int, b: int|
        0 <= a < b < cands.len() ==> #[trigger] cands[a].condition_id@
            != #[trigger] cands[b].condition_id@
}

/// The picks of `picks` belong to pairwise different markets.
pub open spec fn picks_distinct(cands: Seq<SignalCandidate>, picks: Seq<SignalPick>) -> bool {
    forall|a: int, b: int|
        0 <= a < b < picks.len() ==> pick_market(cands, #[trigger] picks[a]) != pick_market(
            cands,
            #[trigger] picks[b],
        )
}

/// Every pick refers to one of the candidates.
proof fn lemma_picks_in_range(cands: Seq<SignalCandidate>)
    ensures
        forall|k: int|
            0 <= k < signal_picks(cands).len() ==> (#[trigger] signal_picks(cands)[k]).index
                < cands.len(),
    decreases cands.len(),
{
    if cands.len() > 0 {
        lemma_picks_in_range(cands.drop_last());
    }
}

/// Extending the candidates does not change what the picks of a prefix
/// refer to.
proof fn lemma_pick_market_prefix(cands: Seq<SignalCandidate>, n: int, p: SignalPick)
    requires
        0 <= n <= cands.len(),
        p.index < n,
    ensures
        pick_market(cands.take(n), p) == pick_market(cands, p),
{
}

/// With one market per candidate, a scan emits at most one signal per
/// market: the picks belong to pairwise different markets.
pub proof fn lemma_one_signal_per_market(cands: Seq<SignalCandidate>)
    requires
        cands.len() <= usize::MAX,
        markets_distinct(cands),
    ensures
        picks_distinct(cands, signal_picks(cands)),
    decreases cands.len(),
{
    if cands.len() > 0 {
        let i = cands.len() - 1;
        let c = cands[i];
        let front = cands.drop_last();
        lemma_one_signal_per_market(front);
        lemma_picks_in_range(front);
        let prev = signal_picks(front);
        assert forall|k: int| 0 <= k < prev.len() implies pick_market(cands, #[trigger] prev[k])
            == pick_market(front, prev[k]) && prev[k].index < i by {}
        let with_yes = if c.yes_triggers {
            prev.push(yes_pick(i, c))
        } else {
            prev
        };
        assert(picks_distinct(cands, with_yes)) by {
            assert forall|a: int, b: int| 0 <= a < b < with_yes.len() implies pick_market(
                cands,
                #[trigger] with_yes[a],
            ) != pick_market(cands, #[trigger] with_yes[b]) by {
                if b < prev.len() {
                    assert(with_yes[a] == prev[a] && with_yes[b] == prev[b]);
                } else {
                    assert(with_yes[a] == prev[a]);
                    assert(prev[a].index < i);
                    assert(cands[prev[a].index as int].condition_id@ != cands[i].condition_id@);
                }
            }
        }
        if c.no_triggers && !names_market(cands, with_yes, c.condition_id@) {
            let all = with_yes.push(no_pick(i, c));
            assert forall|a: int, b: int| 0 <= a < b < all.len() implies pick_market(
                cands,
                #[trigger] all[a],
            ) != pick_market(cands, #[trigger] all[b]) by {
                assert(all[a] == with_yes[a]);
                if b < with_yes.len() {
                    assert(all[b] == with_yes[b]);
                } else {
                    assert(all[b] == no_pick(i, c));
                    assert(pick_market(cands, all[b]) == c.condition_id@);
                    assert(!(pick_market(cands, with_yes[a]) == c.condition_id@));
                }
            }
        }
    }
}

/// Every signal is read from a side that triggered, and buys the token that
/// side's own divergence calls for: a YES-price signal buys YES exactly
/// when YES is underpriced, a NO-price signal buys NO exactly when NO is
/// underpriced, whatever the other side's flags say.
pub proof fn lemma_signal_legs(cands: Seq<SignalCandidate>)
    requires
        cands.len() <= usize::MAX,
    ensures
        forall|k: int|
            0 <= k < signal_picks(cands).len() ==> {
                let p = #[trigger] signal_picks(cands)[k];
                let c = cands[p.index as int];
                &&& p.index < cands.len()
                &&& p.basis == Basis::YesPrices ==> c.yes_triggers && (p.leg == Leg::Yes
                    <==> c.yes_underpriced)
                &&& p.basis == Basis::NoPrices ==> c.no_triggers && (p.leg == Leg::No
                    <==> c.no_underpriced)
            },
    decreases cands.len(),
{
    if cands.len() > 0 {
        let front = cands.drop_last();
        lemma_signal_legs(front);
        let prev = signal_picks(front);
        assert forall|k: int| 0 <= k < prev.len() implies cands[(#[trigger] prev[k]).index as int]
            == front[prev[k].index as int] by {}
    }
}

/// Every market whose YES side triggers gets a YES-price signal, and every
/// market whose NO side triggers gets a signal of some kind: its own
/// NO-price signal, or an earlier one for the same condition id.
pub proof fn lemma_triggered_markets_signalled(cands: Seq<SignalCandidate>)
    requires
        cands.len() <= usize::MAX,
    ensures
        forall|i: int|
            0 <= i < cands.len() && (#[trigger] cands[i]).yes_triggers ==> exists|k: int|
                0 <= k < signal_picks(cands).len() && signal_picks(cands)[k].index == i
                    && signal_picks(cands)[k].basis == Basis::YesPrices,
        forall|i: int|
            0 <= i < cands.len() && (#[trigger] cands[i]).no_triggers ==> exists|k: int|
                0 <= k < signal_picks(cands).len() && cands[signal_picks(
                    cands,
                )[k].index as int].condition_id@ == cands[i].condition_id@,
    decreases cands.len(),
{
    if cands.len() > 0 {
        let n = cands.len() - 1;
        let c = cands[n];
        let front = cands.drop_last();
        lemma_triggered_markets_signalled(front);
        lemma_picks_in_range(front);
        let prev = signal_picks(front);
        let with_yes = if c.yes_triggers {
            prev.push(yes_pick(n, c))
        } else {
            prev
        };
        let all = signal_picks(cands);
        assert(all.len() >= with_yes.len());
        assert forall|k: int| 0 <= k < with_yes.len() implies all[k] == with_yes[k] by {}
        assert forall|k: int| 0 <= k < prev.len() implies all[k] == prev[k] && cands[(
        #[trigger] prev[k]).index as int] == front[prev[k].index as int] by {}
        assert forall|i: int| 0 <= i < cands.len() && (#[trigger] cands[i]).yes_triggers implies exists|
            k: int,
        | 0 <= k < all.len() && all[k].index == i && all[k].basis == Basis::YesPrices by {
            if i < n {
                assert(front[i] == cands[i]);
                let k = choose|k: int|
                    0 <= k < prev.len() && prev[k].index == i && prev[k].basis == Basis::YesPrices;
                assert(all[k] == prev[k]);
            } else {
                assert(all[prev.len() as int] == yes_pick(n, c));
            }
        }
        assert forall|i: int| 0 <= i < cands.len() && (#[trigger] cands[i]).no_triggers implies exists|
            k: int,
        | 0 <= k < all.len() && cands[all[k].index as int].condition_id@
            == cands[i].condition_id@ by {
            if i < n {
                assert(front[i] == cands[i]);
                let k = choose|k: int|
                    0 <= k < prev.len() && front[prev[k].index as int].condition_id@
                        == front[i].condition_id@;
                assert(all[k] == prev[k]);
            } else if names_market(cands, with_yes, c.condition_id@) {
                let k = choose|k: int|
                    0 <= k < with_yes.len() && #[trigger] pick_market(cands, with_yes[k])
                        == c.condition_id@;
                assert(all[k] == with_yes[k]);
            } else {
                assert(all[with_yes.len() as int] == no_pick(n, c));
            }
        }
    }
}

/// Whether some pick of `picks` belongs to a market with the condition id
/// of `id`.
fn picks_name_market(cands: &Vec<SignalCandidate>, picks: &Vec<SignalPick>, id: &str) -> (r:
    bool)
    requires
        forall|k: int| 0 <= k < picks@.len() ==> (#[trigger] picks@[k]).index < cands@.len(),
    ensures
        r == names_market(cands@, picks@, id@),
{
    let mut j: usize = 0;
    while j < picks.len()
        invariant
            j <= picks@.len(),
            forall|k: int| 0 <= k < picks@.len() ==> (#[trigger] picks@[k]).index < cands@.len(),
            forall|k: int| 0 <= k < j ==> pick_market(cands@, #[trigger] picks@[k]) != id@,
        decreases picks@.len() - j,
    {
        let p = picks[j];
        if str_equals(cands[p.index].condition_id.as_str(), id) {
            assert(pick_market(cands@, picks@[j as int]) == id@);
            return true;
        }
        j = j + 1;
    }
    false
}

/// Chooses the signals of a scan: for each candidate in order, its
/// YES-price signal when that side triggers, then its NO-price signal when
/// that side triggers and no signal chosen so far belongs to a market with
/// the same condition id.
pub fn select_signals(cands: &Vec<SignalCandidate>) -> (r: Vec<SignalPick>)
    ensures
        r@ == signal_picks(cands@),
{
    let mut out: Vec<SignalPick> = Vec::new();
    let mut i: usize = 0;
    while i < cands.len()
        invariant
            i <= cands@.len(),
            out@ == signal_picks(cands@.take(i as int)),
            forall|k: int| 0 <= k < out@.len() ==> (#[trigger] out@[k]).index < i,
        decreases cands@.len() - i,
    {
        let ghost front = cands@.take(i as int);
        let ghost next = cands@.take(i + 1);
        assert(next.drop_last() =~= front);
        assert(next[i as int] == cands@[i as int]);
        let c = &cands[i];
        if c.yes_triggers {
            let leg = if c.yes_underpriced {
                Leg::Yes
            } else {
                Leg::No
            };
            out.push(SignalPick { index: i, basis: Basis::YesPrices, leg });
        }
        if c.no_triggers {
            let named = picks_name_market(cands, &out, c.condition_id.as_str());
            proof {
                assert forall|k: int| 0 <= k < out@.len() implies pick_market(
                    next,
                    #[trigger] out@[k],
                ) == pick_market(cands@, out@[k]) by {
                    lemma_pick_market_prefix(cands@, i + 1, out@[k]);
                }
                assert(named == names_market(next, out@, c.condition_id@));
            }
            if !named {
                let leg = if c.no_underpriced {
                    Leg::No
                } else {
                    Leg::Yes
                };
                out.push(SignalPick { index: i, basis: Basis::NoPrices, leg });
            }
        }
        i = i + 1;
    }
    assert(cands@.take(cands@.len() as int) =~= cands@);
    out
}

} // verus!
