//! Shared-state building blocks: asset and log-level labels, the bounded
//! journals that keep the most recent entries, and the trade counters.
use vstd::prelude::*;
use std::collections::VecDeque;

verus! {

/// Asset classes that the trader follows.
#[derive(Debug, Clone, Copy, PartialEq, Eq, Structural, Hash)]
pub enum Asset {
    Btc,
    Eth,
    CrudeOil,
    Gold,
    FedRate,
}

/// Ticker-style label of an asset.
pub open spec fn asset_label(a: Asset) -> Seq<char> {
    match a {
        Asset::Btc => "BTC"@,
        Asset::Eth => "ETH"@,
        Asset::CrudeOil => "CL"@,
        Asset::Gold => "GC"@,
        Asset::FedRate => "FED"@,
    }
}

impl Asset {
    /// Short ticker label used in logs and payloads.
    pub fn label(self) -> (r: &'static str)
        ensures
            r@ == asset_label(self),
    {
        match self {
            Asset::Btc => "BTC",
            Asset::Eth => "ETH",
            Asset::CrudeOil => "CL",
            Asset::Gold => "GC",
            Asset::FedRate => "FED",
        }
    }
}

// ───────────────────────────── log levels ─────────────────────────────

/// Severity and kind of an execution-log line.
#[derive(Debug, Clone, Copy, PartialEq, Eq, Structural)]
pub enum LogLevel {
    Info,
    Exec,
    Fill,
    Warn,
    Error,
    Slip,
}

/// Four-character tag of a level.
pub open spec fn level_label(l: LogLevel) -> Seq<char> {
    match l {
        LogLevel::Info => "INFO"@,
        LogLevel::Exec => "EXEC"@,
        LogLevel::Fill => "FILL"@,
        LogLevel::Warn => "WARN"@,
        LogLevel::Error => "ERR "@,
        LogLevel::Slip => "SLIP"@,
    }
}

/// Display colour of a level, as red, green and blue.
pub open spec fn level_rgb(l: LogLevel) -> (u8, u8, u8) {
    match l {
        LogLevel::Info => (0, 217, 255),
        LogLevel::Exec => (255, 184, 0),
        LogLevel::Fill => (0, 255, 136),
        LogLevel::Warn => (255, 184, 0),
        LogLevel::Error => (255, 51, 102),
        LogLevel::Slip => (255, 51, 102),
    }
}

impl LogLevel {
    /// Tag shown in front of a log line.
    pub fn label(self) -> (r: &'static str)
        ensures
            r@ == level_label(self),
    {
        match self {
            LogLevel::Info => "INFO",
            LogLevel::Exec => "EXEC",
            LogLevel::Fill => "FILL",
            LogLevel::Warn => "WARN",
            LogLevel::Error => "ERR ",
            LogLevel::Slip => "SLIP",
        }
    }

    /// Colour of the tag: cyan for information, amber for executions and
    /// warnings, green for fills, red for errors and slippage.
    pub fn rgb(self) -> (r: (u8, u8, u8))
        ensures
            r == level_rgb(self),
    {
        match self {
            LogLevel::Info => (0, 217, 255),
            LogLevel::Exec => (255, 184, 0),
            LogLevel::Fill => (0, 255, 136),
            LogLevel::Warn => (255, 184, 0),
            LogLevel::Error => (255, 51, 102),
            LogLevel::Slip => (255, 51, 102),
        }
    }
}

/// One line of the execution log, stamped with Unix seconds and nanoseconds.
#[derive(Debug, Clone)]
pub struct LogEntry {
    pub ts_secs: i64,
    pub ts_nanos: u32,
    pub level: LogLevel,
    pub message: String,
}

// ───────────────────────────── bounded journal ─────────────────────────────

/// Appending `x` to a journal of capacity `cap` that holds `s`: the oldest
/// entry leaves first once the journal holds `cap` entries (a journal of
/// capacity zero still keeps the newest entry).
pub open spec fn bounded_push<T>(s: Seq<T>, cap: nat, x: T) -> Seq<T> {
    if s.len() >= cap && s.len() > 0 {
        s.drop_first().push(x)
    } else {
        s.push(x)
    }
}

/// Appending every entry of `xs`, in order.
pub open spec fn bounded_push_all<T>(s: Seq<T>, cap: nat, xs: Seq<T>) -> Seq<T>
    decreases xs.len(),
{
    if xs.len() == 0 {
        s
    } else {
        bounded_push(bounded_push_all(s, cap, xs.drop_last()), cap, xs.last())
    }
}

/// Most entries a journal of capacity `cap` holds.
pub open spec fn retained(cap: nat) -> nat {
    if cap == 0 {
        1
    } else {
        cap
    }
}

/// A journal that keeps the most recent entries, up to its capacity, oldest first.
pub struct BoundedLog<T> {
    items: VecDeque<T>,
    capacity: usize,
}

impl<T> View for BoundedLog<T> {
    type V = Seq<T>;

    closed spec fn view(&self) -> Seq<T> {
        self.items@
    }
}

impl<T> BoundedLog<T> {
    #[verifier::type_invariant]
    closed spec fn within_capacity(self) -> bool {
        self.items@.len() <= retained(self.capacity as nat)
    }

    pub closed spec fn spec_capacity(&self) -> usize {
        self.capacity
    }

    /// An empty journal of the given capacity.
    pub fn new(capacity: usize) -> (r: Self)
        ensures
            r@ == Seq::<T>::empty(),
            r.spec_capacity() == capacity,
    {
        BoundedLog { items: VecDeque::new(), capacity }
    }

    /// Appends an entry, dropping the oldest one when the journal is full.
    pub fn push(&mut self, x: T)
        ensures
            final(self)@ == bounded_push(old(self)@, old(self).spec_capacity() as nat, x),
            final(self).spec_capacity() == old(self).spec_capacity(),
    {
        proof {
            use_type_invariant(&*self);
        }
        let mut items: VecDeque<T> = VecDeque::new();
        std::mem::swap(&mut items, &mut self.items);
        if items.len() >= self.capacity && items.len() > 0 {
            items.pop_front();
        }
        items.push_back(x);
        assert(items@ =~= bounded_push(old(self)@, old(self).spec_capacity() as nat, x));
        self.items = items;
    }

    /// Number of entries held: never more than the capacity (or one, at
    /// capacity zero).
    pub fn len(&self) -> (r: usize)
        ensures
            r == self@.len(),
            r <= retained(self.spec_capacity() as nat),
    {
        proof {
            use_type_invariant(self);
        }
        self.items.len()
    }

    /// Capacity the journal was made with.
    pub fn capacity(&self) -> (r: usize)
        ensures
            r == self.spec_capacity(),
    {
        self.capacity
    }

    /// The entries, oldest first.
    pub fn entries(&self) -> (r: &VecDeque<T>)
        ensures
            r@ == self@,
    {
        &self.items
    }
}

/// Starting empty, a journal of capacity `cap` holds exactly the last
/// `min(n, retained(cap))` of the `n` entries appended to it, in order.
pub proof fn lemma_bounded_push_keeps_latest<T>(cap: nat, xs: Seq<T>)
    ensures
        bounded_push_all(Seq::<T>::empty(), cap, xs) == xs.skip(
            xs.len() - (if xs.len() <= retained(cap) {
                xs.len()
            } else {
                retained(cap)
            }),
        ),
    decreases xs.len(),
{
    if xs.len() > 0 {
        let prev = xs.drop_last();
        lemma_bounded_push_keeps_latest(cap, prev);
        let keep_prev: int = if prev.len() <= retained(cap) {
            prev.len() as int
        } else {
            retained(cap) as int
        };
        let s = prev.skip(prev.len() - keep_prev);
        assert(bounded_push_all(Seq::<T>::empty(), cap, prev) == s);
        let keep: int = if xs.len() <= retained(cap) {
            xs.len() as int
        } else {
            retained(cap) as int
        };
        if s.len() >= cap && s.len() > 0 {
            assert(s.drop_first().push(xs.last()) =~= xs.skip(xs.len() - keep));
        } else {
            assert(s.push(xs.last()) =~= xs.skip(xs.len() - keep));
        }
    }
}

// ───────────────────────────── trade counters ─────────────────────────────

/// Counts of winning and losing fills, of orders sent, and the latency of
/// the last order. Counts wrap around at `u64::MAX`, as atomic adds do.
pub struct TradeCounters {
    pub wins: u64,
    pub losses: u64,
    pub orders: u64,
    pub last_latency_us: u64,
}

/// `x + 1`, wrapping at `u64::MAX`.
pub open spec fn wrap_inc(x: u64) -> u64 {
    if x == u64::MAX {
        0
    } else {
        (x + 1) as u64
    }
}

/// `x + y`, wrapping at `u64::MAX`.
pub open spec fn wrap_add(x: u64, y: u64) -> u64 {
    if x + y > u64::MAX {
        (x + y - u64::MAX - 1) as u64
    } else {
        (x + y) as u64
    }
}

impl TradeCounters {
    /// All counts at zero.
    pub fn new() -> (r: Self)
        ensures
            r.wins == 0 && r.losses == 0 && r.orders == 0 && r.last_latency_us == 0,
    {
        TradeCounters { wins: 0, losses: 0, orders: 0, last_latency_us: 0 }
    }

    /// Counts a fill: a win when its PnL was not negative, a loss otherwise.
    pub fn record_result(&mut self, won: bool)
        ensures
            won ==> final(self).wins == wrap_inc(old(self).wins) && final(self).losses == old(
                self,
            ).losses,
            !won ==> final(self).losses == wrap_inc(old(self).losses) && final(self).wins == old(
                self,
            ).wins,
            final(self).orders == old(self).orders,
            final(self).last_latency_us == old(self).last_latency_us,
    {
        if won {
            self.wins = self.wins.wrapping_add(1);
        } else {
            self.losses = self.losses.wrapping_add(1);
        }
    }

    /// Counts an order sent.
    pub fn record_order(&mut self)
        ensures
            final(self).orders == wrap_inc(old(self).orders),
            final(self).wins == old(self).wins,
            final(self).losses == old(self).losses,
            final(self).last_latency_us == old(self).last_latency_us,
    {
        self.orders = self.orders.wrapping_add(1);
    }

    /// Fills counted so far, wins and losses together.
    pub fn total_trades(&self) -> (r: u64)
        ensures
            r == wrap_add(self.wins, self.losses),
    {
        self.wins.wrapping_add(self.losses)
    }
}

/// Every fill counted adds one to the total number of trades.
pub proof fn lemma_fill_adds_one_trade(wins: u64, losses: u64, won: bool)
    ensures
        ({
            let (w, l) = if won {
                (wrap_inc(wins), losses)
            } else {
                (wins, wrap_inc(losses))
            };
            wrap_add(w, l) == wrap_inc(wrap_add(wins, losses))
        }),
{
}

} // verus!
