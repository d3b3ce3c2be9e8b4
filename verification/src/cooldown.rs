//! Per-market trading cooldowns of the scan loop: a market traded recently
//! is skipped until its cooldown window has passed.
use vstd::prelude::*;

verus! {

/// Seconds a market stays on cooldown after a trade (the scan loop turns
/// this into its clock's unit).
pub const COOLDOWN_SECS: u64 = 300;

/// Time passed from `start` to `now`, zero when `now` is earlier.
pub open spec fn elapsed(now: u64, start: u64) -> u64 {
    if now >= start {
        (now - start) as u64
    } else {
        0
    }
}

/// Entries `s` name each market at most once.
pub open spec fn keys_distinct(s: Seq<(String, u64)>) -> bool {
    forall|i: int, j: int| 0 <= i < j < s.len() ==> s[i].0@ != s[j].0@
}

/// Some entry of `s` names the market `k`.
pub open spec fn has_key(s: Seq<(String, u64)>, k: Seq<char>) -> bool {
    exists|i: int| 0 <= i < s.len() && s[i].0@ == k
}

/// Start time recorded for market `k`.
pub open spec fn stamp_of(s: Seq<(String, u64)>, k: Seq<char>) -> u64 {
    s[choose|i: int| 0 <= i < s.len() && s[i].0@ == k].1
}

/// Map from market to the time its cooldown started.
pub open spec fn cooldown_map(s: Seq<(String, u64)>) -> Map<Seq<char>, u64> {
    Map::new(|k: Seq<char>| has_key(s, k), |k: Seq<char>| stamp_of(s, k))
}

proof fn lemma_stamp_at(s: Seq<(String, u64)>, i: int)
    requires
        keys_distinct(s),
        0 <= i < s.len(),
    ensures
        has_key(s, s[i].0@),
        stamp_of(s, s[i].0@) == s[i].1,
{
    let k = s[i].0@;
    assert(has_key(s, k));
    let c = choose|c: int| 0 <= c < s.len() && s[c].0@ == k;
    if c < i {
        assert(s[c].0@ != s[i].0@);
    } else if i < c {
        assert(s[i].0@ != s[c].0@);
    }
}

/// The entries of `s` whose cooldown has lasted less than `window` at `now`, in order.
pub open spec fn young_entries(s: Seq<(String, u64)>, now: u64, window: u64) -> Seq<(String, u64)>
    decreases s.len(),
{
    if s.len() == 0 {
        s
    } else {
        let rest = young_entries(s.drop_last(), now, window);
        if elapsed(now, s.last().1) < window {
            rest.push(s.last())
        } else {
            rest
        }
    }
}

proof fn lemma_young_entries(s: Seq<(String, u64)>, now: u64, window: u64)
    ensures
        forall|x: (String, u64)| #[trigger]
            young_entries(s, now, window).contains(x) <==> (s.contains(x) && elapsed(now, x.1)
                < window),
        keys_distinct(s) ==> keys_distinct(young_entries(s, now, window)),
    decreases s.len(),
{
    if s.len() > 0 {
        let p = s.drop_last();
        lemma_young_entries(p, now, window);
        let r = young_entries(p, now, window);
        assert forall|x: (String, u64)| #[trigger] s.contains(x) <==> (p.contains(x) || x
            == s.last()) by {
            if s.contains(x) {
                let i = choose|i: int| 0 <= i < s.len() && s[i] == x;
                if i < p.len() {
                    assert(p[i] == x);
                }
            }
            if p.contains(x) {
                let i = choose|i: int| 0 <= i < p.len() && p[i] == x;
                assert(s[i] == x);
            }
            if x == s.last() {
                assert(s[s.len() - 1] == x);
            }
        }
        if elapsed(now, s.last().1) < window {
            let q = r.push(s.last());
            assert forall|x: (String, u64)| #[trigger] q.contains(x) <==> (r.contains(x) || x
                == s.last()) by {
                if q.contains(x) {
                    let i = choose|i: int| 0 <= i < q.len() && q[i] == x;
                    if i < r.len() {
                        assert(r[i] == x);
                    }
                }
                if r.contains(x) {
                    let i = choose|i: int| 0 <= i < r.len() && r[i] == x;
                    assert(q[i] == x);
                }
                if x == s.last() {
                    assert(q[r.len() as int] == x);
                }
            }
            if keys_distinct(s) {
                assert(keys_distinct(p));
                assert forall|a: int, b: int| 0 <= a < b < q.len() implies q[a].0@ != q[b].0@ by {
                    if b == r.len() {
                        assert(r.contains(q[a]));
                        let i = choose|i: int| 0 <= i < p.len() && p[i] == q[a];
                        assert(s[i] == p[i]);
                        assert(s[s.len() - 1] == s.last());
                    } else {
                        assert(r[a] == q[a] && r[b] == q[b]);
                    }
                }
            }
        } else {
            if keys_distinct(s) {
                assert(keys_distinct(p));
            }
        }
    }
}

/// The entries of `entries` whose cooldown has lasted less than `window` at `now`.
fn still_cooling(entries: &Vec<(String, u64)>, now: u64, window: u64) -> (kept: Vec<(String, u64)>)
    ensures
        kept@ == young_entries(entries@, now, window),
{
    let mut kept: Vec<(String, u64)> = Vec::new();
    let mut i: usize = 0;
    while i < entries.len()
        invariant
            i <= entries@.len(),
            kept@ == young_entries(entries@.take(i as int), now, window),
        decreases entries@.len() - i,
    {
        assert(entries@.take(i + 1).drop_last() =~= entries@.take(i as int));
        let stamp = entries[i].1;
        let age = if now >= stamp {
            now - stamp
        } else {
            0
        };
        if age < window {
            let key = entries[i].0.clone();
            assert(key == entries@[i as int].0);
            kept.push((key, stamp));
        }
        i = i + 1;
    }
    assert(entries@.take(entries@.len() as int) =~= entries@);
    kept
}

/// Markets on cooldown, with the time at which each cooldown started, in
/// whatever unit of a monotonic clock the caller measures with.
pub struct Cooldowns {
    entries: Vec<(String, u64)>,
}

impl View for Cooldowns {
    type V = Map<Seq<char>, u64>;

    closed spec fn view(&self) -> Map<Seq<char>, u64> {
        cooldown_map(self.entries@)
    }
}

impl Cooldowns {
    /// Each market is recorded once.
    #[verifier::type_invariant]
    closed spec fn well_formed(&self) -> bool {
        keys_distinct(self.entries@)
    }

    /// No market on cooldown.
    pub fn new() -> (r: Self)
        ensures
            r@ == Map::<Seq<char>, u64>::empty(),
    {
        let r = Cooldowns { entries: Vec::new() };
        assert(r@ =~= Map::<Seq<char>, u64>::empty());
        r
    }

    fn position(&self, condition_id: &str) -> (r: Option<usize>)
        ensures
            r matches Some(i) ==> i < self.entries@.len() && self.entries@[i as int].0@
                == condition_id@,
            r is None ==> !has_key(self.entries@, condition_id@),
    {
        proof {
            use_type_invariant(self);
        }
        let mut i: usize = 0;
        while i < self.entries.len()
            invariant
                i <= self.entries@.len(),
                forall|j: int| 0 <= j < i ==> self.entries@[j].0@ != condition_id@,
            decreases self.entries@.len() - i,
        {
            if crate::text::str_equals(self.entries[i].0.as_str(), condition_id) {
                return Some(i);
            }
            i = i + 1;
        }
        None
    }

    /// Whether the market is on cooldown.
    pub fn is_cooling(&self, condition_id: &str) -> (r: bool)
        ensures
            r == self@.contains_key(condition_id@),
    {
        self.position(condition_id).is_some()
    }

    /// Starts (or restarts) the cooldown of a market at time `now`.
    pub fn start(&mut self, condition_id: &str, now: u64)
        ensures
            final(self)@ == old(self)@.insert(condition_id@, now),
    {
        proof {
            use_type_invariant(&*self);
        }
        let ghost old_entries = self.entries@;
        let key = crate::text::string_of(crate::text::chars_of(condition_id).as_slice());
        let found = self.position(condition_id);
        let mut entries: Vec<(String, u64)> = Vec::new();
        std::mem::swap(&mut entries, &mut self.entries);
        match found {
            Some(i) => {
                entries.set(i, (key, now));
                proof {
                    let s = entries@;
                    assert(keys_distinct(s)) by {
                        assert forall|a: int, b: int| 0 <= a < b < s.len() implies s[a].0@
                            != s[b].0@ by {
                            assert(old_entries[a].0@ != old_entries[b].0@);
                        }
                    }
                    assert forall|k: Seq<char>| #[trigger] has_key(s, k) == has_key(
                        old_entries,
                        k,
                    ) by {
                        if has_key(s, k) {
                            let j = choose|j: int| 0 <= j < s.len() && s[j].0@ == k;
                            assert(old_entries[j].0@ == k);
                        }
                        if has_key(old_entries, k) {
                            let j = choose|j: int|
                                0 <= j < old_entries.len() && old_entries[j].0@ == k;
                            assert(s[j].0@ == k);
                        }
                    }
                    assert forall|k: Seq<char>| has_key(s, k) implies #[trigger] stamp_of(s, k)
                        == (if k == condition_id@ {
                        now
                    } else {
                        stamp_of(old_entries, k)
                    }) by {
                        let j = choose|j: int| 0 <= j < s.len() && s[j].0@ == k;
                        lemma_stamp_at(s, j);
                        lemma_stamp_at(old_entries, j);
                    }
                    assert(cooldown_map(s) =~= cooldown_map(old_entries).insert(condition_id@, now));
                }
            },
            None => {
                entries.push((key, now));
                proof {
                    let s = entries@;
                    let n = old_entries.len() as int;
                    assert(keys_distinct(s)) by {
                        assert forall|a: int, b: int| 0 <= a < b < s.len() implies s[a].0@
                            != s[b].0@ by {
                            if b < n {
                                assert(old_entries[a].0@ != old_entries[b].0@);
                            } else {
                                assert(old_entries[a].0@ != condition_id@);
                            }
                        }
                    }
                    assert forall|k: Seq<char>| #[trigger] has_key(s, k) == (has_key(
                        old_entries,
                        k,
                    ) || k == condition_id@) by {
                        if has_key(s, k) {
                            let j = choose|j: int| 0 <= j < s.len() && s[j].0@ == k;
                            if j < n {
                                assert(old_entries[j].0@ == k);
                            }
                        }
                        if has_key(old_entries, k) {
                            let j = choose|j: int|
                                0 <= j < old_entries.len() && old_entries[j].0@ == k;
                            assert(s[j].0@ == k);
                        }
                        if k == condition_id@ {
                            assert(s[n].0@ == k);
                        }
                    }
                    assert forall|k: Seq<char>| has_key(s, k) implies #[trigger] stamp_of(s, k)
                        == (if k == condition_id@ {
                        now
                    } else {
                        stamp_of(old_entries, k)
                    }) by {
                        let j = choose|j: int| 0 <= j < s.len() && s[j].0@ == k;
                        lemma_stamp_at(s, j);
                        if j < n {
                            lemma_stamp_at(old_entries, j);
                        }
                    }
                    assert(cooldown_map(s) =~= cooldown_map(old_entries).insert(condition_id@, now));
                }
            },
        }
        self.entries = entries;
    }

    /// Ends every cooldown that has lasted `window` or longer at time `now`.
    pub fn expire(&mut self, now: u64, window: u64)
        ensures
            final(self)@ == old(self)@.restrict(
                Set::new(|k: Seq<char>| elapsed(now, old(self)@[k]) < window),
            ),
    {
        proof {
            use_type_invariant(&*self);
        }
        let ghost old_entries = self.entries@;
        let kept = still_cooling(&self.entries, now, window);
        proof {
            lemma_young_entries(old_entries, now, window);
        }
        self.entries = kept;
        proof {
            let s = self.entries@;
            let old_map = cooldown_map(old_entries);
            let dom = Set::new(|k: Seq<char>| elapsed(now, old_map[k]) < window);
            assert forall|k: Seq<char>| #[trigger] has_key(s, k) == (has_key(old_entries, k)
                && dom.contains(k)) by {
                if has_key(s, k) {
                    let a = choose|a: int| 0 <= a < s.len() && s[a].0@ == k;
                    assert(s.contains(s[a]));
                    let b = choose|b: int| 0 <= b < old_entries.len() && old_entries[b] == s[a];
                    lemma_stamp_at(old_entries, b);
                    assert(elapsed(now, s[a].1) < window);
                    assert(has_key(old_entries, k));
                    assert(old_map[k] == s[a].1);
                }
                if has_key(old_entries, k) && dom.contains(k) {
                    let b = choose|b: int| 0 <= b < old_entries.len() && old_entries[b].0@ == k;
                    lemma_stamp_at(old_entries, b);
                    assert(old_entries.contains(old_entries[b]));
                    assert(s.contains(old_entries[b]));
                    let a = choose|a: int| 0 <= a < s.len() && s[a] == old_entries[b];
                    assert(s[a].0@ == k);
                }
            }
            assert forall|k: Seq<char>| has_key(s, k) implies #[trigger] stamp_of(s, k)
                == stamp_of(old_entries, k) by {
                let a = choose|a: int| 0 <= a < s.len() && s[a].0@ == k;
                assert(s.contains(s[a]));
                let b = choose|b: int| 0 <= b < old_entries.len() && old_entries[b] == s[a];
                lemma_stamp_at(s, a);
                lemma_stamp_at(old_entries, b);
            }
            assert(self@ =~= old_map.restrict(dom));
        }
    }

    /// The scan loop's step after an order on a market: a fill starts (or
    /// restarts) the market's cooldown at `now`; a rejected or failed order
    /// leaves the cooldowns as they were, so the market may be tried again.
    pub fn record_order_outcome(&mut self, condition_id: &str, outcome: OrderOutcome, now: u64)
        ensures
            final(self)@ == (match outcome {
                OrderOutcome::Filled => old(self)@.insert(condition_id@, now),
                _ => old(self)@,
            }),
    {
        match outcome {
            OrderOutcome::Filled => self.start(condition_id, now),
            OrderOutcome::Rejected => {},
            OrderOutcome::Failed => {},
        }
    }

    /// Position of the first market of `condition_ids` that is not on cooldown.
    pub fn first_available(&self, condition_ids: &Vec<String>) -> (r: Option<usize>)
        ensures
            r matches Some(i) ==> i < condition_ids@.len() && !self@.contains_key(
                condition_ids@[i as int]@,
            ) && forall|j: int|
                0 <= j < i ==> self@.contains_key(#[trigger] condition_ids@[j]@),
            r is None ==> forall|j: int|
                0 <= j < condition_ids@.len() ==> self@.contains_key(#[trigger] condition_ids@[j]@),
    {
        let mut i: usize = 0;
        while i < condition_ids.len()
            invariant
                i <= condition_ids@.len(),
                forall|j: int| 0 <= j < i ==> self@.contains_key(#[trigger] condition_ids@[j]@),
            decreases condition_ids@.len() - i,
        {
            if !self.is_cooling(condition_ids[i].as_str()) {
                return Some(i);
            }
            i = i + 1;
        }
        None
    }
}

/// How an order placed by the scan loop ended.
#[derive(Debug, Clone, Copy, PartialEq, Eq, Structural)]
pub enum OrderOutcome {
    /// The order was filled.
    Filled,
    /// The venue answered with no fill.
    Rejected,
    /// Placing the order failed.
    Failed,
}

/// A market whose cooldown (re)started at `t` stays on cooldown through an
/// expiry at `now` exactly when less than `window` has passed since `t`;
/// other markets are unaffected by the restart.
pub proof fn lemma_cooldown_window(
    m: Map<Seq<char>, u64>,
    condition_id: Seq<char>,
    t: u64,
    now: u64,
    window: u64,
)
    ensures
        ({
            let started = m.insert(condition_id, t);
            let kept = started.restrict(
                Set::new(|k: Seq<char>| elapsed(now, started[k]) < window),
            );
            &&& kept.contains_key(condition_id) <==> elapsed(now, t) < window
            &&& forall|k: Seq<char>|
                k != condition_id ==> (#[trigger] kept.contains_key(k) <==> m.contains_key(k)
                    && elapsed(now, m[k]) < window)
        }),
{
}

} // verus!
