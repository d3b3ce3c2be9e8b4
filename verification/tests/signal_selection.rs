use polymarket_btc_arb::signals::{select_signals, Basis, Leg, SignalCandidate, SignalPick};

fn cand(id: &str, yes: (bool, bool), no: (bool, bool)) -> SignalCandidate {
    SignalCandidate {
        condition_id: id.to_string(),
        yes_triggers: yes.0,
        yes_underpriced: yes.1,
        no_triggers: no.0,
        no_underpriced: no.1,
    }
}

#[test]
fn yes_side_wins_when_both_trigger() {
    let picks = select_signals(&vec![cand("0xa", (true, true), (true, false))]);
    assert_eq!(picks, vec![SignalPick { index: 0, basis: Basis::YesPrices, leg: Leg::Yes }]);
}

#[test]
fn yes_side_overpriced_buys_no() {
    let picks = select_signals(&vec![cand("0xa", (true, false), (false, false))]);
    assert_eq!(picks, vec![SignalPick { index: 0, basis: Basis::YesPrices, leg: Leg::No }]);
}

#[test]
fn no_side_alone_gives_a_signal() {
    let picks = select_signals(&vec![
        cand("0xa", (false, false), (true, true)),
        cand("0xb", (false, false), (true, false)),
    ]);
    assert_eq!(
        picks,
        vec![
            SignalPick { index: 0, basis: Basis::NoPrices, leg: Leg::No },
            SignalPick { index: 1, basis: Basis::NoPrices, leg: Leg::Yes },
        ]
    );
}

#[test]
fn nothing_triggers_nothing_emitted() {
    let picks = select_signals(&vec![cand("0xa", (false, true), (false, true))]);
    assert!(picks.is_empty());
    assert!(select_signals(&vec![]).is_empty());
}

#[test]
fn one_signal_per_market() {
    let cands = vec![
        cand("0xa", (true, true), (true, true)),
        cand("0xb", (true, false), (true, true)),
        cand("0xc", (false, false), (true, true)),
    ];
    let picks = select_signals(&cands);
    assert_eq!(picks.len(), 3);
    let ids: Vec<&str> = picks.iter().map(|p| cands[p.index].condition_id.as_str()).collect();
    assert_eq!(ids, vec!["0xa", "0xb", "0xc"]);
}

#[test]
fn no_side_skipped_when_market_already_signalled() {
    // The same condition id seen twice: the second market's NO-price signal
    // is dropped, its YES-price signal is not.
    let picks = select_signals(&vec![
        cand("0xa", (true, true), (false, false)),
        cand("0xa", (true, false), (true, true)),
    ]);
    assert_eq!(
        picks,
        vec![
            SignalPick { index: 0, basis: Basis::YesPrices, leg: Leg::Yes },
            SignalPick { index: 1, basis: Basis::YesPrices, leg: Leg::No },
        ]
    );
}
