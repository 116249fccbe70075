//! The per-symbol order-book state machine: a book is rebuilt from a
//! snapshot and then advanced by deltas whose update ids must increase
//! by exactly one; any gap leaves the state untouched and requests a
//! reconnect. After every accepted message the whole book is re-emitted
//! as rows for the sink.

use crate::assoc::{
    assoc_distinct, assoc_view, lemma_assoc_at, lemma_assoc_contains, lemma_assoc_len,
    lemma_assoc_push, lemma_assoc_remove, lemma_assoc_update,
};
use vstd::string::*;
use crate::decimal::{spec_parse_decimal, Decimal128, DecimalParseError};
use crate::errors::FeedError;
use vstd::prelude::*;
use vstd::slice::SliceAdditionalExecFns;

verus! {

/// An order-book message as it comes off the wire: price and volume
/// levels still in string form.
pub struct BybitOrderbookData {
    pub symbol: String,
    pub bid: Vec<(String, String)>,
    pub ask: Vec<(String, String)>,
    pub update: u64,
}

/// One side of a book: a price-to-volume map stored as distinct
/// key/value pairs. A volume of zero is never stored.
pub struct BookSide {
    pub levels: Vec<(Decimal128, Decimal128)>,
}

impl View for BookSide {
    type V = Map<int, int>;

    open spec fn view(&self) -> Map<int, int> {
        assoc_view(self.levels@)
    }
}

impl BookSide {
    pub open spec fn wf(&self) -> bool {
        &&& assoc_distinct(self.levels@)
        &&& forall|i: int| 0 <= i < self.levels@.len() ==> (#[trigger] self.levels@[i]).1@ != 0
    }

    pub fn new() -> (r: BookSide)
        ensures
            r@ == Map::<int, int>::empty(),
            r.wf(),
            r.levels@.len() == 0,
    {
        BookSide { levels: Vec::new() }
    }

    fn find(&self, price: &Decimal128) -> (r: Option<usize>)
        ensures
            match r {
                Some(i) => i < self.levels@.len() && self.levels@[i as int].0@ == price@,
                None => forall|i: int|
                    0 <= i < self.levels@.len() ==> (#[trigger] self.levels@[i]).0@ != price@,
            },
    {
        let mut i: usize = 0;
        let n = self.levels.len();
        while i < n
            invariant
                i <= n,
                n == self.levels@.len(),
                forall|j: int| 0 <= j < i ==> (#[trigger] self.levels@[j]).0@ != price@,
            decreases n - i,
        {
            if self.levels[i].0 == *price {
                return Some(i);
            }
            i = i + 1;
        }
        None
    }

    /// Inserts or overwrites one price level; the volume must not be
    /// the deletion marker.
    pub fn set_level(&mut self, price: Decimal128, volume: Decimal128)
        requires
            old(self).wf(),
            volume@ != 0,
        ensures
            final(self).wf(),
            final(self)@ == old(self)@.insert(price@, volume@),
    {
        match self.find(&price) {
            Some(i) => {
                proof {
                    lemma_assoc_update(self.levels@, i as int, (price, volume));
                }
                self.levels.set(i, (price, volume));
            },
            None => {
                proof {
                    lemma_assoc_push(self.levels@, (price, volume));
                }
                self.levels.push((price, volume));
            },
        }
    }

    /// Applies parsed delta levels in arrival order.
    pub fn apply_delta_levels(&mut self, levels: &Vec<(Decimal128, Decimal128)>)
        requires
            old(self).wf(),
        ensures
            final(self).wf(),
            final(self)@ == apply_levels(old(self)@, units_view(levels@)),
    {
        let ghost uv = units_view(levels@);
        let n = levels.len();
        let mut i: usize = 0;
        proof {
            assert(uv.subrange(0, 0) =~= Seq::<(int, int)>::empty());
        }
        while i < n
            invariant
                i <= n,
                n == levels@.len(),
                uv == units_view(levels@),
                self.wf(),
                self@ == apply_levels(old(self)@, uv.subrange(0, i as int)),
            decreases n - i,
        {
            proof {
                assert(uv.subrange(0, i + 1).drop_last() =~= uv.subrange(0, i as int));
                assert(uv.subrange(0, i + 1).last() == uv[i as int]);
                assert(uv[i as int] == (levels@[i as int].0@, levels@[i as int].1@));
            }
            let p = levels[i].0;
            let v = levels[i].1;
            if v.is_zero() {
                self.remove_level(&p);
            } else {
                self.set_level(p, v);
            }
            i = i + 1;
        }
        proof {
            assert(uv.subrange(0, n as int) =~= uv);
        }
    }

    /// Builds a side from snapshot levels; zero-volume entries are
    /// dropped.
    pub fn from_levels(levels: &Vec<(Decimal128, Decimal128)>) -> (r: BookSide)
        ensures
            r.wf(),
            r@ == apply_levels(Map::empty(), units_view(levels@)),
    {
        let mut side = BookSide::new();
        side.apply_delta_levels(levels);
        side
    }

    /// Removes one price level; a missing price is tolerated.
    pub fn remove_level(&mut self, price: &Decimal128)
        requires
            old(self).wf(),
        ensures
            final(self).wf(),
            final(self)@ == old(self)@.remove(price@),
    {
        match self.find(price) {
            Some(i) => {
                proof {
                    lemma_assoc_remove(self.levels@, i as int);
                }
                self.levels.remove(i);
            },
            None => {
                proof {
                    lemma_assoc_contains::<Decimal128, Decimal128>(self.levels@, price@);
                    assert(self@ =~= self@.remove(price@));
                }
            },
        }
    }
}

/// The abstract state of one symbol's book.
pub struct BookV {
    pub bid: Map<int, int>,
    pub ask: Map<int, int>,
    pub update: int,
}

/// The cached book proper: the two sides and the last update id.
pub struct BybitOrderbookCachedData {
    pub symbol: String,
    pub bid: BookSide,
    pub ask: BookSide,
    pub update: u64,
}

impl BybitOrderbookCachedData {
    pub open spec fn wf(&self) -> bool {
        self.bid.wf() && self.ask.wf()
    }

    pub open spec fn book_view(&self) -> BookV {
        BookV { bid: self.bid@, ask: self.ask@, update: self.update as int }
    }
}

/// A cached book stamped with the metadata of the message that last
/// touched it. Timestamps are nanoseconds since the Unix epoch.
pub struct BybitCachedOrderbook {
    pub server_timestamp: i128,
    pub ttype: String,
    pub data: BybitOrderbookCachedData,
    pub client_timestamp: i128,
    pub received_timestamp: i128,
}

impl View for BybitCachedOrderbook {
    type V = BookV;

    open spec fn view(&self) -> BookV {
        self.data.book_view()
    }
}

/// All cached books, one per symbol.
pub struct OrderbookCache {
    pub orderbook: Vec<(String, BybitCachedOrderbook)>,
}

impl View for OrderbookCache {
    type V = Map<Seq<char>, BookV>;

    open spec fn view(&self) -> Map<Seq<char>, BookV> {
        assoc_view(self.orderbook@)
    }
}

impl OrderbookCache {
    pub open spec fn wf(&self) -> bool {
        &&& assoc_distinct(self.orderbook@)
        &&& forall|i: int|
            0 <= i < self.orderbook@.len() ==> (#[trigger] self.orderbook@[i]).1.data.wf()
        &&& forall|i: int|
            0 <= i < self.orderbook@.len() ==> (#[trigger] self.orderbook@[i]).1.data.symbol@
                == self.orderbook@[i].0@
    }

    pub fn new() -> (r: OrderbookCache)
        ensures
            r.wf(),
            r@ == Map::<Seq<char>, BookV>::empty(),
    {
        OrderbookCache { orderbook: Vec::new() }
    }

    fn index_of(&self, symbol: &String) -> (r: Option<usize>)
        ensures
            match r {
                Some(i) => i < self.orderbook@.len() && self.orderbook@[i as int].0@ == symbol@,
                None => forall|i: int|
                    0 <= i < self.orderbook@.len() ==> (#[trigger] self.orderbook@[i]).0@
                        != symbol@,
            },
    {
        let mut i: usize = 0;
        let n = self.orderbook.len();
        while i < n
            invariant
                i <= n,
                n == self.orderbook@.len(),
                forall|j: int| 0 <= j < i ==> (#[trigger] self.orderbook@[j]).0@ != symbol@,
            decreases n - i,
        {
            if self.orderbook[i].0 == *symbol {
                return Some(i);
            }
            i = i + 1;
        }
        None
    }
}

/// A persisted order-book row: one price level of one side, stamped
/// with the update id and the message timestamps.
#[derive(Debug)]
pub struct BybitOrderbook {
    pub server_timestamp: i128,
    pub received_timestamp: i128,
    pub client_timestamp: i128,
    pub symbol: String,
    pub side: String,
    pub price: Decimal128,
    pub volume: Decimal128,
    pub update: u64,
    pub exchange: String,
}

/// What an accepted order-book message produces: the re-emitted book,
/// or a request to resynchronize after a gap.
#[derive(Debug)]
pub enum OrderbookOutcome {
    Rows(Vec<BybitOrderbook>),
    Reconnect,
}

/// The rows that re-emit a book state `b`: one row per level of each
/// side, all stamped alike, no zero volumes.
pub open spec fn rows_state(
    rows: Seq<BybitOrderbook>,
    sts: int,
    rts: int,
    cts: int,
    sym: Seq<char>,
    b: BookV,
    u: u64,
) -> bool {
    &&& rows.len() == b.bid.dom().len() + b.ask.dom().len()
    &&& forall|i: int|
        0 <= i < rows.len() ==> {
            let r = #[trigger] rows[i];
            &&& r.server_timestamp == sts
            &&& r.received_timestamp == rts
            &&& r.client_timestamp == cts
            &&& r.symbol@ == sym
            &&& r.update == u
            &&& r.exchange@ == "Bybit"@
            &&& r.volume@ != 0
            &&& (r.side@ == "Bid"@ || r.side@ == "Ask"@)
            &&& (r.side@ == "Bid"@ ==> b.bid.contains_key(r.price@) && b.bid[r.price@]
                == r.volume@)
            &&& (r.side@ == "Ask"@ ==> b.ask.contains_key(r.price@) && b.ask[r.price@]
                == r.volume@)
        }
    &&& forall|p: int|
        b.bid.contains_key(p) ==> exists|i: int|
            0 <= i < rows.len() && (#[trigger] rows[i]).side@ == "Bid"@ && rows[i].price@ == p
    &&& forall|p: int|
        b.ask.contains_key(p) ==> exists|i: int|
            0 <= i < rows.len() && (#[trigger] rows[i]).side@ == "Ask"@ && rows[i].price@ == p
}

/// Re-emits the whole cached book as rows.
fn emit_rows(
    sts: i128,
    rts: i128,
    cts: i128,
    symbol: &String,
    data: &BybitOrderbookCachedData,
) -> (rows: Vec<BybitOrderbook>)
    requires
        data.wf(),
    ensures
        rows_state(rows@, sts as int, rts as int, cts as int, symbol@, data.book_view(), data.update),
{
    proof {
        reveal_strlit("Bid");
        reveal_strlit("Ask");
        assert("Bid"@ != "Ask"@) by {
            assert("Bid"@[0] == 'B' && "Ask"@[0] == 'A');
        }
    }
    let mut rows: Vec<BybitOrderbook> = Vec::new();
    let nb = data.bid.levels.len();
    let na = data.ask.levels.len();
    let mut i: usize = 0;
    while i < nb
        invariant
            i <= nb,
            nb == data.bid.levels@.len(),
            data.wf(),
            rows@.len() == i,
            "Bid"@ != "Ask"@,
            forall|j: int|
                0 <= j < i ==> {
                    let r = #[trigger] rows@[j];
                    &&& r.server_timestamp == sts
                    &&& r.received_timestamp == rts
                    &&& r.client_timestamp == cts
                    &&& r.symbol@ == symbol@
                    &&& r.update == data.update
                    &&& r.exchange@ == "Bybit"@
                    &&& r.side@ == "Bid"@
                    &&& r.price == data.bid.levels@[j].0
                    &&& r.volume == data.bid.levels@[j].1
                },
        decreases nb - i,
    {
        let level = (data.bid.levels[i].0, data.bid.levels[i].1);
        rows.push(
            BybitOrderbook {
                server_timestamp: sts,
                received_timestamp: rts,
                client_timestamp: cts,
                symbol: symbol.clone(),
                side: String::from_str("Bid"),
                price: level.0,
                volume: level.1,
                update: data.update,
                exchange: String::from_str("Bybit"),
            },
        );
        i = i + 1;
    }
    let mut k: usize = 0;
    while k < na
        invariant
            k <= na,
            na == data.ask.levels@.len(),
            nb == data.bid.levels@.len(),
            data.wf(),
            rows@.len() == nb + k,
            "Bid"@ != "Ask"@,
            forall|j: int|
                0 <= j < nb ==> {
                    let r = #[trigger] rows@[j];
                    &&& r.server_timestamp == sts
                    &&& r.received_timestamp == rts
                    &&& r.client_timestamp == cts
                    &&& r.symbol@ == symbol@
                    &&& r.update == data.update
                    &&& r.exchange@ == "Bybit"@
                    &&& r.side@ == "Bid"@
                    &&& r.price == data.bid.levels@[j].0
                    &&& r.volume == data.bid.levels@[j].1
                },
            forall|j: int|
                nb <= j < nb + k ==> {
                    let r = #[trigger] rows@[j];
                    &&& r.server_timestamp == sts
                    &&& r.received_timestamp == rts
                    &&& r.client_timestamp == cts
                    &&& r.symbol@ == symbol@
                    &&& r.update == data.update
                    &&& r.exchange@ == "Bybit"@
                    &&& r.side@ == "Ask"@
                    &&& r.price == data.ask.levels@[j - nb].0
                    &&& r.volume == data.ask.levels@[j - nb].1
                },
        decreases na - k,
    {
        let level = (data.ask.levels[k].0, data.ask.levels[k].1);
        rows.push(
            BybitOrderbook {
                server_timestamp: sts,
                received_timestamp: rts,
                client_timestamp: cts,
                symbol: symbol.clone(),
                side: String::from_str("Ask"),
                price: level.0,
                volume: level.1,
                update: data.update,
                exchange: String::from_str("Bybit"),
            },
        );
        k = k + 1;
    }
    proof {
        lemma_assoc_len::<Decimal128, Decimal128>(data.bid.levels@);
        lemma_assoc_len::<Decimal128, Decimal128>(data.ask.levels@);
        let b = data.book_view();
        assert forall|j: int| 0 <= j < rows@.len() implies {
            let r = #[trigger] rows@[j];
            &&& r.volume@ != 0
            &&& (r.side@ == "Bid"@ ==> b.bid.contains_key(r.price@) && b.bid[r.price@]
                == r.volume@)
            &&& (r.side@ == "Ask"@ ==> b.ask.contains_key(r.price@) && b.ask[r.price@]
                == r.volume@)
        } by {
            if j < nb {
                lemma_assoc_at::<Decimal128, Decimal128>(data.bid.levels@, j);
            } else {
                lemma_assoc_at::<Decimal128, Decimal128>(data.ask.levels@, j - nb);
            }
        }
        assert forall|p: int| b.bid.contains_key(p) implies exists|i2: int|
            0 <= i2 < rows@.len() && (#[trigger] rows@[i2]).side@ == "Bid"@ && rows@[i2].price@
                == p by {
            lemma_assoc_contains::<Decimal128, Decimal128>(data.bid.levels@, p);
            let j = choose|j: int|
                0 <= j < data.bid.levels@.len() && (#[trigger] data.bid.levels@[j]).0@ == p;
            assert(rows@[j].side@ == "Bid"@ && rows@[j].price@ == p);
        }
        assert forall|p: int| b.ask.contains_key(p) implies exists|i2: int|
            0 <= i2 < rows@.len() && (#[trigger] rows@[i2]).side@ == "Ask"@ && rows@[i2].price@
                == p by {
            lemma_assoc_contains::<Decimal128, Decimal128>(data.ask.levels@, p);
            let j = choose|j: int|
                0 <= j < data.ask.levels@.len() && (#[trigger] data.ask.levels@[j]).0@ == p;
            assert(rows@[nb + j].side@ == "Ask"@ && rows@[nb + j].price@ == p);
        }
    }
    rows
}

/// The view of parsed levels as pairs of unit counts.
pub open spec fn units_view(levels: Seq<(Decimal128, Decimal128)>) -> Seq<(int, int)> {
    Seq::new(levels.len(), |i: int| (levels[i].0@, levels[i].1@))
}

/// The view of raw levels as pairs of character strings.
pub open spec fn levels_view(raw: Seq<(String, String)>) -> Seq<(Seq<char>, Seq<char>)> {
    Seq::new(raw.len(), |i: int| (raw[i].0@, raw[i].1@))
}

/// Folds delta levels over a side map, in arrival order: volume zero
/// deletes the price, any other volume overwrites it.
pub open spec fn apply_levels(m: Map<int, int>, levels: Seq<(int, int)>) -> Map<int, int>
    decreases levels.len(),
{
    if levels.len() == 0 {
        m
    } else {
        let prev = apply_levels(m, levels.drop_last());
        if levels.last().1 == 0 {
            prev.remove(levels.last().0)
        } else {
            prev.insert(levels.last().0, levels.last().1)
        }
    }
}

/// Parses every level of a message side, first failure wins.
pub open spec fn spec_parse_levels(raw: Seq<(Seq<char>, Seq<char>)>) -> Result<
    Seq<(int, int)>,
    DecimalParseError,
>
    decreases raw.len(),
{
    if raw.len() == 0 {
        Ok(Seq::empty())
    } else {
        match spec_parse_levels(raw.drop_last()) {
            Err(e) => Err(e),
            Ok(s) => match spec_parse_decimal(raw.last().0) {
                Err(e) => Err(e),
                Ok(p) => match spec_parse_decimal(raw.last().1) {
                    Err(e) => Err(e),
                    Ok(v) => Ok(s.push((p, v))),
                },
            },
        }
    }
}

/// Client timestamps arrive as milliseconds and are stored as
/// nanoseconds.
pub open spec fn millis_to_nanos(ms: u64) -> int {
    ms * 1_000_000
}

/// The book a snapshot installs.
pub open spec fn book_after_snapshot(bids: Seq<(int, int)>, asks: Seq<(int, int)>, u: u64) -> BookV {
    BookV {
        bid: apply_levels(Map::empty(), bids),
        ask: apply_levels(Map::empty(), asks),
        update: u as int,
    }
}

/// The book an accepted delta leaves behind.
pub open spec fn book_after_delta(b: BookV, bids: Seq<(int, int)>, asks: Seq<(int, int)>, u: u64) -> BookV {
    BookV { bid: apply_levels(b.bid, bids), ask: apply_levels(b.ask, asks), update: u as int }
}

/// Once a prefix fails to parse, the whole side fails the same way.
proof fn lemma_parse_levels_err_extends(raw: Seq<(Seq<char>, Seq<char>)>, i: int)
    requires
        0 <= i <= raw.len(),
        spec_parse_levels(raw.subrange(0, i)) is Err,
    ensures
        spec_parse_levels(raw) == spec_parse_levels(raw.subrange(0, i)),
    decreases raw.len() - i,
{
    if i < raw.len() {
        assert(raw.subrange(0, i + 1).drop_last() =~= raw.subrange(0, i));
        lemma_parse_levels_err_extends(raw, i + 1);
    } else {
        assert(raw.subrange(0, i) =~= raw);
    }
}

/// Parses one side of an order-book message into decimal levels.
fn parse_levels(raw: &Vec<(String, String)>) -> (r: Result<
    Vec<(Decimal128, Decimal128)>,
    DecimalParseError,
>)
    ensures
        spec_parse_levels(levels_view(raw@)) matches Ok(s) ==> (r matches Ok(v) && units_view(v@)
            == s),
        spec_parse_levels(levels_view(raw@)) matches Err(e) ==> r == Err::<
            Vec<(Decimal128, Decimal128)>,
            DecimalParseError,
        >(e),
{
    let ghost rv = levels_view(raw@);
    let mut out: Vec<(Decimal128, Decimal128)> = Vec::new();
    let n = raw.len();
    let mut i: usize = 0;
    proof {
        assert(rv.subrange(0, 0) =~= Seq::<(Seq<char>, Seq<char>)>::empty());
        assert(units_view(out@) =~= Seq::<(int, int)>::empty());
    }
    while i < n
        invariant
            i <= n,
            n == raw@.len(),
            rv == levels_view(raw@),
            spec_parse_levels(rv.subrange(0, i as int)) == Ok::<Seq<(int, int)>, DecimalParseError>(
                units_view(out@),
            ),
            out@.len() == i,
        decreases n - i,
    {
        let ghost units0 = units_view(out@);
        proof {
            assert(rv.subrange(0, i + 1).drop_last() =~= rv.subrange(0, i as int));
            assert(rv.subrange(0, i + 1).last() == rv[i as int]);
            assert(rv[i as int] == (raw@[i as int].0@, raw@[i as int].1@));
        }
        let p = match Decimal128::from_str(raw[i].0.as_str()) {
            Ok(p) => p,
            Err(e) => {
                proof {
                    lemma_parse_levels_err_extends(rv, i + 1);
                }
                return Err(e);
            },
        };
        let v = match Decimal128::from_str(raw[i].1.as_str()) {
            Ok(v) => v,
            Err(e) => {
                proof {
                    lemma_parse_levels_err_extends(rv, i + 1);
                }
                return Err(e);
            },
        };
        proof {
            assert(spec_parse_decimal(rv[i as int].0) == Ok::<int, DecimalParseError>(p@));
            assert(spec_parse_decimal(rv[i as int].1) == Ok::<int, DecimalParseError>(v@));
        }
        out.push((p, v));
        proof {
            assert(units_view(out@) =~= units0.push((p@, v@)));
            assert(spec_parse_levels(rv.subrange(0, i + 1)) == Ok::<
                Seq<(int, int)>,
                DecimalParseError,
            >(units0.push((p@, v@))));
        }
        i = i + 1;
    }
    proof {
        assert(rv.subrange(0, n as int) =~= rv);
    }
    Ok(out)
}

} // verus!

verus! {

/// Everything one order-book message does: the error cases, the
/// reconnect cases, the new cache contents and the emitted rows.
pub open spec fn orderbook_post(
    pre: OrderbookCache,
    post: OrderbookCache,
    r: Result<OrderbookOutcome, FeedError>,
    sts: int,
    rts: int,
    cts_ms: Option<u64>,
    orderbook: BybitOrderbookData,
    ttype: Seq<char>,
) -> bool {
    let sym = orderbook.symbol@;
    let known = ttype == "snapshot"@ || ttype == "delta"@;
    let bids = spec_parse_levels(levels_view(orderbook.bid@));
    let asks = spec_parse_levels(levels_view(orderbook.ask@));
    let cts = millis_to_nanos(cts_ms->0);
    &&& !known ==> r == Err::<OrderbookOutcome, FeedError>(FeedError::UnknownType)
        && post == pre
    &&& known && cts_ms is None ==> r == Err::<
        OrderbookOutcome,
        FeedError,
    >(FeedError::MalformedMessage) && post == pre
    &&& known && cts_ms is Some && bids is Err ==> r == Err::<
        OrderbookOutcome,
        FeedError,
    >(FeedError::DecimalParse(bids->Err_0)) && post == pre
    &&& known && cts_ms is Some && bids is Ok && asks is Err ==> r == Err::<
        OrderbookOutcome,
        FeedError,
    >(FeedError::DecimalParse(asks->Err_0)) && post == pre
    &&& ttype == "snapshot"@ && cts_ms is Some && bids is Ok && asks is Ok
        ==> ({
        let b = book_after_snapshot(bids->Ok_0, asks->Ok_0, orderbook.update);
        &&& assoc_view(post.orderbook@) == assoc_view(pre.orderbook@).insert(sym, b)
        &&& r is Ok
        &&& r->Ok_0 is Rows
        &&& rows_state(
            r->Ok_0->Rows_0@,
            sts,
            rts,
            cts,
            sym,
            b,
            orderbook.update,
        )
    })
    &&& ttype == "delta"@ && cts_ms is Some && bids is Ok && asks is Ok
        && !assoc_view(pre.orderbook@).contains_key(sym) ==> r == Ok::<
        OrderbookOutcome,
        FeedError,
    >(OrderbookOutcome::Reconnect) && post == pre
    &&& ttype == "delta"@ && cts_ms is Some && bids is Ok && asks is Ok
        && assoc_view(pre.orderbook@).contains_key(sym) && orderbook.update != assoc_view(pre.orderbook@)[sym].update
        + 1 ==> r == Ok::<OrderbookOutcome, FeedError>(OrderbookOutcome::Reconnect)
        && post == pre
    &&& ttype == "delta"@ && cts_ms is Some && bids is Ok && asks is Ok
        && assoc_view(pre.orderbook@).contains_key(sym) && orderbook.update == assoc_view(pre.orderbook@)[sym].update
        + 1 ==> ({
        let b = book_after_delta(
            assoc_view(pre.orderbook@)[sym],
            bids->Ok_0,
            asks->Ok_0,
            orderbook.update,
        );
        &&& assoc_view(post.orderbook@) == assoc_view(pre.orderbook@).insert(sym, b)
        &&& r is Ok
        &&& r->Ok_0 is Rows
        &&& rows_state(
            r->Ok_0->Rows_0@,
            sts,
            rts,
            cts,
            sym,
            b,
            orderbook.update,
        )
    })
}

impl BybitOrderbook {
    /// Runs one order-book message through the state machine.
    ///
    /// A snapshot replaces the symbol's book; a delta must carry the
    /// cached update id plus one, else nothing changes and a reconnect
    /// is requested. After an accepted message the whole book is
    /// re-emitted as rows.
    pub fn parse_bybit_orderbook(
        server_timestamp: i128,
        received_timestamp: i128,
        client_timestamp: Option<u64>,
        orderbook: BybitOrderbookData,
        ttype: &String,
        cache: &mut OrderbookCache,
    ) -> (r: Result<OrderbookOutcome, FeedError>)
        requires
            old(cache).wf(),
        ensures
            final(cache).wf(),
            orderbook_post(
                *old(cache),
                *final(cache),
                r,
                server_timestamp as int,
                received_timestamp as int,
                client_timestamp,
                orderbook,
                ttype@,
            ),
    {
        proof {
            reveal_strlit("snapshot");
            reveal_strlit("delta");
            assert("snapshot"@.len() == 8 && "delta"@.len() == 5);
        }
        let is_snapshot = *ttype == String::from_str("snapshot");
        let is_delta = *ttype == String::from_str("delta");
        if !is_snapshot && !is_delta {
            return Err(FeedError::UnknownType);
        }
        let cts_ms = match client_timestamp {
            Some(c) => c,
            None => {
                return Err(FeedError::MalformedMessage);
            },
        };
        let client_ts: i128 = (cts_ms as i128) * 1_000_000;
        let bids = match parse_levels(&orderbook.bid) {
            Ok(v) => v,
            Err(e) => {
                return Err(FeedError::DecimalParse(e));
            },
        };
        let asks = match parse_levels(&orderbook.ask) {
            Ok(v) => v,
            Err(e) => {
                return Err(FeedError::DecimalParse(e));
            },
        };
        let symbol = orderbook.symbol;
        if is_snapshot {
            let data = BybitOrderbookCachedData {
                symbol: symbol.clone(),
                bid: BookSide::from_levels(&bids),
                ask: BookSide::from_levels(&asks),
                update: orderbook.update,
            };
            let rows = emit_rows(server_timestamp, received_timestamp, client_ts, &symbol, &data);
            let entry = BybitCachedOrderbook {
                server_timestamp,
                ttype: ttype.clone(),
                data,
                client_timestamp: client_ts,
                received_timestamp,
            };
            match cache.index_of(&symbol) {
                Some(i) => {
                    proof {
                        lemma_assoc_update(cache.orderbook@, i as int, (symbol, entry));
                    }
                    cache.orderbook.set(i, (symbol.clone(), entry));
                },
                None => {
                    proof {
                        lemma_assoc_push(cache.orderbook@, (symbol, entry));
                    }
                    cache.orderbook.push((symbol.clone(), entry));
                },
            }
            Ok(OrderbookOutcome::Rows(rows))
        } else {
            match cache.index_of(&symbol) {
                None => {
                    proof {
                        lemma_assoc_contains::<String, BybitCachedOrderbook>(
                            cache.orderbook@,
                            symbol@,
                        );
                    }
                    Ok(OrderbookOutcome::Reconnect)
                },
                Some(i) => {
                    proof {
                        lemma_assoc_at::<String, BybitCachedOrderbook>(cache.orderbook@, i as int);
                    }
                    let cur = cache.orderbook[i].1.data.update;
                    if cur == u64::MAX || orderbook.update != cur + 1 {
                        return Ok(OrderbookOutcome::Reconnect);
                    }
                    proof {
                        lemma_assoc_remove(cache.orderbook@, i as int);
                    }
                    let (key, mut entry) = cache.orderbook.remove(i);
                    entry.data.bid.apply_delta_levels(&bids);
                    entry.data.ask.apply_delta_levels(&asks);
                    entry.data.update = orderbook.update;
                    entry.server_timestamp = server_timestamp;
                    entry.received_timestamp = received_timestamp;
                    entry.client_timestamp = client_ts;
                    entry.ttype = ttype.clone();
                    let rows = emit_rows(
                        server_timestamp,
                        received_timestamp,
                        client_ts,
                        &symbol,
                        &entry.data,
                    );
                    proof {
                        lemma_assoc_contains::<String, BybitCachedOrderbook>(
                            cache.orderbook@,
                            key@,
                        );
                        lemma_assoc_push(cache.orderbook@, (key, entry));
                    }
                    cache.orderbook.push((key, entry));
                    proof {
                        assert(final(cache)@ =~= old(cache)@.insert(
                            symbol@,
                            book_after_delta(
                                old(cache)@[symbol@],
                                spec_parse_levels(levels_view(orderbook.bid@))->Ok_0,
                                spec_parse_levels(levels_view(orderbook.ask@))->Ok_0,
                                orderbook.update,
                            ),
                        ));
                    }
                    Ok(OrderbookOutcome::Rows(rows))
                },
            }
        }
    }
}

} // verus!

verus! {

/// A parsed order-book message, abstracted for replay reasoning.
pub struct BookMsg {
    pub is_snapshot: bool,
    pub update: u64,
    pub bid: Seq<(int, int)>,
    pub ask: Seq<(int, int)>,
}

/// One transition of the book state machine: the next state, and
/// whether rows were emitted (false means a reconnect was requested
/// or nothing was tracked).
pub open spec fn book_step(st: Option<BookV>, m: BookMsg) -> (Option<BookV>, bool) {
    if m.is_snapshot {
        (Some(book_after_snapshot(m.bid, m.ask, m.update)), true)
    } else {
        match st {
            Option::None => (Option::None, false),
            Option::Some(b) => if m.update != b.update + 1 {
                (Some(b), false)
            } else {
                (Some(book_after_delta(b, m.bid, m.ask, m.update)), true)
            },
        }
    }
}

/// Replays a message sequence in arrival order.
pub open spec fn book_replay(st: Option<BookV>, ms: Seq<BookMsg>) -> Option<BookV>
    decreases ms.len(),
{
    if ms.len() == 0 {
        st
    } else {
        book_replay(book_step(st, ms[0]).0, ms.subrange(1, ms.len() as int))
    }
}

/// The update ids of the row batches a replay emits, in order.
pub open spec fn book_emitted(st: Option<BookV>, ms: Seq<BookMsg>) -> Seq<int>
    decreases ms.len(),
{
    if ms.len() == 0 {
        Seq::empty()
    } else {
        let next = book_step(st, ms[0]).0;
        let rest = ms.subrange(1, ms.len() as int);
        if book_step(st, ms[0]).1 {
            seq![ms[0].update as int] + book_emitted(next, rest)
        } else {
            book_emitted(next, rest)
        }
    }
}

pub open spec fn strictly_increasing(s: Seq<int>) -> bool {
    forall|i: int, j: int| 0 <= i < j < s.len() ==> s[i] < s[j]
}

/// The same transition without the gap check: every delta is merged.
pub open spec fn book_merge_step(st: Option<BookV>, m: BookMsg) -> Option<BookV> {
    if m.is_snapshot {
        Some(book_after_snapshot(m.bid, m.ask, m.update))
    } else {
        match st {
            Option::None => Option::None,
            Option::Some(b) => Some(book_after_delta(b, m.bid, m.ask, m.update)),
        }
    }
}

pub open spec fn book_merge_replay(st: Option<BookV>, ms: Seq<BookMsg>) -> Option<BookV>
    decreases ms.len(),
{
    if ms.len() == 0 {
        st
    } else {
        book_merge_replay(book_merge_step(st, ms[0]), ms.subrange(1, ms.len() as int))
    }
}

/// Each delta carries the update id of the state it meets, plus one.
pub open spec fn gap_free(st: Option<BookV>, ms: Seq<BookMsg>) -> bool
    decreases ms.len(),
{
    if ms.len() == 0 {
        true
    } else {
        &&& (ms[0].is_snapshot || (st is Some && ms[0].update == st->0.update + 1))
        &&& gap_free(book_step(st, ms[0]).0, ms.subrange(1, ms.len() as int))
    }
}

/// A delta whose update id is not the cached one plus one changes
/// nothing and emits nothing: only the reconnect request leaves the
/// parser.
pub proof fn lemma_gap_leaves_book_unchanged(b: BookV, m: BookMsg)
    requires
        !m.is_snapshot,
        m.update != b.update + 1,
    ensures
        book_step(Some(b), m) == (Some(b), false),
{
}

/// Over a delta-only stream, every emitted update id exceeds the
/// starting one and the emitted ids strictly increase.
pub proof fn lemma_deltas_monotonic(b: BookV, ms: Seq<BookMsg>)
    requires
        forall|i: int| 0 <= i < ms.len() ==> !(#[trigger] ms[i]).is_snapshot,
    ensures
        strictly_increasing(book_emitted(Some(b), ms)),
        forall|i: int|
            0 <= i < book_emitted(Some(b), ms).len() ==> #[trigger] book_emitted(Some(b), ms)[i]
                > b.update,
    decreases ms.len(),
{
    if ms.len() > 0 {
        let m = ms[0];
        let rest = ms.subrange(1, ms.len() as int);
        assert(forall|i: int| 0 <= i < rest.len() ==> !(#[trigger] rest[i]).is_snapshot) by {
            assert(forall|i: int| 0 <= i < rest.len() ==> rest[i] == ms[i + 1]);
        }
        if m.update == b.update + 1 {
            let b2 = book_after_delta(b, m.bid, m.ask, m.update);
            lemma_deltas_monotonic(b2, rest);
            let e = book_emitted(Some(b), ms);
            let tail = book_emitted(Some(b2), rest);
            assert(e == seq![m.update as int] + tail);
            assert(e[0] == m.update as int);
            assert(forall|i: int| 1 <= i < e.len() ==> e[i] == tail[i - 1]);
            assert(forall|i: int| 0 <= i < e.len() ==> #[trigger] e[i] > b.update);
            assert forall|i: int, j: int| 0 <= i < j < e.len() implies e[i] < e[j] by {
                if i == 0 {
                    assert(e[j] == tail[j - 1]);
                    assert(tail[j - 1] > b2.update);
                } else {
                    assert(tail[i - 1] < tail[j - 1]);
                }
            }
        } else {
            lemma_deltas_monotonic(b, rest);
        }
    }
}

/// Within one session (a snapshot followed by deltas) the update ids
/// written to the sink strictly increase.
pub proof fn lemma_session_monotonic(st: Option<BookV>, ms: Seq<BookMsg>)
    requires
        ms.len() >= 1,
        ms[0].is_snapshot,
        forall|i: int| 1 <= i < ms.len() ==> !(#[trigger] ms[i]).is_snapshot,
    ensures
        strictly_increasing(book_emitted(st, ms)),
{
    let m = ms[0];
    let rest = ms.subrange(1, ms.len() as int);
    let b0 = book_after_snapshot(m.bid, m.ask, m.update);
    assert(forall|i: int| 0 <= i < rest.len() ==> !(#[trigger] rest[i]).is_snapshot) by {
        assert(forall|i: int| 0 <= i < rest.len() ==> rest[i] == ms[i + 1]);
    }
    lemma_deltas_monotonic(b0, rest);
    let e = book_emitted(st, ms);
    let tail = book_emitted(Some(b0), rest);
    assert(e == seq![m.update as int] + tail);
    assert forall|i: int, j: int| 0 <= i < j < e.len() implies e[i] < e[j] by {
        if i == 0 {
            assert(e[j] == tail[j - 1]);
            assert(tail[j - 1] > b0.update);
        } else {
            assert(e[i] == tail[i - 1] && e[j] == tail[j - 1]);
            assert(tail[i - 1] < tail[j - 1]);
        }
    }
}

/// On a gap-free stream the gap-checking machine and plain merging
/// agree: incremental application equals direct replacement.
pub proof fn lemma_delta_closed(st: Option<BookV>, ms: Seq<BookMsg>)
    requires
        gap_free(st, ms),
    ensures
        book_replay(st, ms) == book_merge_replay(st, ms),
    decreases ms.len(),
{
    if ms.len() > 0 {
        assert(book_step(st, ms[0]).0 == book_merge_step(st, ms[0]));
        lemma_delta_closed(book_step(st, ms[0]).0, ms.subrange(1, ms.len() as int));
    }
}

} // verus!

verus! {

/// The executable transition agrees with the abstract step machine:
/// for a known message type whose levels parse, what
/// parse_bybit_orderbook did to the cache and whether it emitted rows
/// are exactly one book_step on the message's abstraction.
pub proof fn lemma_orderbook_post_is_step(
    pre: OrderbookCache,
    post: OrderbookCache,
    r: Result<OrderbookOutcome, FeedError>,
    sts: int,
    rts: int,
    cts_ms: Option<u64>,
    ob: BybitOrderbookData,
    ttype: Seq<char>,
)
    requires
        orderbook_post(pre, post, r, sts, rts, cts_ms, ob, ttype),
        ttype == "snapshot"@ || ttype == "delta"@,
        "snapshot"@ != "delta"@,
        cts_ms is Some,
        spec_parse_levels(levels_view(ob.bid@)) is Ok,
        spec_parse_levels(levels_view(ob.ask@)) is Ok,
    ensures
        ({
            let m = BookMsg {
                is_snapshot: ttype == "snapshot"@,
                update: ob.update,
                bid: spec_parse_levels(levels_view(ob.bid@))->Ok_0,
                ask: spec_parse_levels(levels_view(ob.ask@))->Ok_0,
            };
            let st0 = if assoc_view(pre.orderbook@).contains_key(ob.symbol@) {
                Some(assoc_view(pre.orderbook@)[ob.symbol@])
            } else {
                None
            };
            &&& (book_step(st0, m).0 matches Some(b) ==> assoc_view(post.orderbook@)
                == assoc_view(pre.orderbook@).insert(ob.symbol@, b))
            &&& (book_step(st0, m).0 is None ==> post == pre)
            &&& book_step(st0, m).1 <==> (r matches Ok(o) && o is Rows)
        }),
{
    let m = BookMsg {
        is_snapshot: ttype == "snapshot"@,
        update: ob.update,
        bid: spec_parse_levels(levels_view(ob.bid@))->Ok_0,
        ask: spec_parse_levels(levels_view(ob.ask@))->Ok_0,
    };
    let pv = assoc_view(pre.orderbook@);
    let st0 = if pv.contains_key(ob.symbol@) {
        Some(pv[ob.symbol@])
    } else {
        None
    };
    if !m.is_snapshot && st0 is Some && m.update != st0->0.update + 1 {
        assert(book_step(st0, m).0 == Some(pv[ob.symbol@]));
        assert(post == pre);
        assert(assoc_view(post.orderbook@) =~= pv.insert(ob.symbol@, pv[ob.symbol@]));
    }
}

} // verus!
