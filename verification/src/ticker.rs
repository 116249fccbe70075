//! The per-symbol ticker state machine: a snapshot populates every
//! field of a cached ticker; later deltas carry only changed fields and
//! are folded over the cache, leaving absent or unparseable fields
//! untouched.

use crate::assoc::{assoc_distinct, assoc_view, lemma_assoc_at, lemma_assoc_contains, lemma_assoc_push, lemma_assoc_remove};
use crate::decimal::{parse_i128, parse_i64, spec_parse_decimal, spec_parse_int, Decimal128};
use crate::errors::FeedError;
use vstd::prelude::*;
use vstd::string::*;

verus! {

/// What lowercasing a string returns; the result depends on the
/// characters alone.
pub uninterp spec fn lower_of(s: Seq<char>) -> Seq<char>;

/// Relies on str::to_lowercase: the Unicode lowercase mapping of the
/// characters, independent of any locale or environment.
#[verifier::external_body]
fn to_lowercase(s: &str) -> (r: String)
    ensures
        r@ == lower_of(s@),
{
    s.to_lowercase()
}

/// The nanosecond timestamp an RFC 3339 string denotes, or nothing
/// when it does not parse; a function of the characters alone.
pub uninterp spec fn rfc3339_nanos_of(s: Seq<char>) -> Option<int>;

/// Relies on time::OffsetDateTime::parse with the well-known RFC 3339
/// format, and on OffsetDateTime::unix_timestamp_nanos to read the
/// result out as plain nanoseconds.
#[verifier::external_body]
fn parse_rfc3339_nanos(s: &str) -> (r: Option<i128>)
    ensures
        r is Some <==> rfc3339_nanos_of(s@) is Some,
        r matches Some(n) ==> rfc3339_nanos_of(s@) == Some(n as int),
{
    match time::OffsetDateTime::parse(s, &time::format_description::well_known::Rfc3339) {
        Ok(t) => Some(t.unix_timestamp_nanos()),
        Err(_) => None,
    }
}

/// A ticker message as it comes off the wire: every field optional,
/// still in string form.
pub struct BybitTickerData {
    pub symbol: String,
    pub tick_direction: Option<String>,
    pub price24h_pcnt: Option<String>,
    pub last_price: Option<String>,
    pub prev_price24h: Option<String>,
    pub high_price24h: Option<String>,
    pub low_price24h: Option<String>,
    pub prev_price1h: Option<String>,
    pub mark_price: Option<String>,
    pub index_price: Option<String>,
    pub open_interest: Option<String>,
    pub open_interest_value: Option<String>,
    pub turnover24h: Option<String>,
    pub volume24h: Option<String>,
    pub next_funding_time: Option<String>,
    pub funding_rate: Option<String>,
    pub bid1_price: Option<String>,
    pub bid1_size: Option<String>,
    pub ask1_price: Option<String>,
    pub ask1_size: Option<String>,
    pub delivery_time: Option<String>,
    pub basis_rate: Option<String>,
    pub delivery_fee_rate: Option<String>,
    pub predicted_delivery_price: Option<String>,
    pub pre_open_price: Option<String>,
    pub pre_qty: Option<String>,
    pub cur_pre_listing_phase: Option<String>,
    pub funding_interval_hour: Option<String>,
    pub funding_cap: Option<String>,
    pub basis_rate_year: Option<String>,
}

/// A cached ticker row: required decimals default to zero, optional
/// fields to absent, until a snapshot or delta populates them.
/// Timestamps are nanoseconds since the Unix epoch.
#[derive(Debug)]
pub struct BybitTicker {
    pub server_timestamp: i128,
    pub received_timestamp: i128,
    pub cross_sequence: u64,
    pub symbol: String,
    pub tick_direction: String,
    pub price_24h_pcnt: Decimal128,
    pub last_price: Decimal128,
    pub prev_price_24h: Decimal128,
    pub high_price_24h: Decimal128,
    pub low_price_24h: Decimal128,
    pub prev_price_1h: Decimal128,
    pub mark_price: Decimal128,
    pub index_price: Decimal128,
    pub open_interest: Decimal128,
    pub open_interest_value: Decimal128,
    pub turnover_24h: Decimal128,
    pub volume_24h: Decimal128,
    pub next_funding_time: i128,
    pub funding_rate: Decimal128,
    pub bid1_price: Decimal128,
    pub bid1_size: Decimal128,
    pub ask1_price: Decimal128,
    pub ask1_size: Decimal128,
    pub delivery_time: Option<i128>,
    pub basis_rate: Option<Decimal128>,
    pub delivery_fee_rate: Option<i64>,
    pub predicted_delivery_price: Option<Decimal128>,
    pub pre_open_price: Option<Decimal128>,
    pub pre_qty: Option<Decimal128>,
    pub cur_pre_listing_phase: Option<String>,
    pub funding_interval_hour: Option<String>,
    pub funding_cap: Option<Decimal128>,
    pub basis_rate_year: Option<Decimal128>,
}

pub open spec fn ostr_view(o: Option<String>) -> Option<Seq<char>> {
    match o {
        Option::Some(s) => Some(s@),
        Option::None => None,
    }
}

pub open spec fn odec_view(o: Option<Decimal128>) -> Option<int> {
    match o {
        Option::Some(d) => Some(d@),
        Option::None => None,
    }
}

pub open spec fn oi64_view(o: Option<i64>) -> Option<int> {
    match o {
        Option::Some(v) => Some(v as int),
        Option::None => None,
    }
}

pub open spec fn oi128_view(o: Option<i128>) -> Option<int> {
    match o {
        Option::Some(v) => Some(v as int),
        Option::None => None,
    }
}

/// The abstract value of a cached ticker.
pub struct TickerV {
    pub server_timestamp: int,
    pub received_timestamp: int,
    pub cross_sequence: int,
    pub symbol: Seq<char>,
    pub tick_direction: Seq<char>,
    pub price_24h_pcnt: int,
    pub last_price: int,
    pub prev_price_24h: int,
    pub high_price_24h: int,
    pub low_price_24h: int,
    pub prev_price_1h: int,
    pub mark_price: int,
    pub index_price: int,
    pub open_interest: int,
    pub open_interest_value: int,
    pub turnover_24h: int,
    pub volume_24h: int,
    pub funding_rate: int,
    pub bid1_price: int,
    pub bid1_size: int,
    pub ask1_price: int,
    pub ask1_size: int,
    pub next_funding_time: int,
    pub delivery_time: Option<int>,
    pub delivery_fee_rate: Option<int>,
    pub basis_rate: Option<int>,
    pub predicted_delivery_price: Option<int>,
    pub pre_open_price: Option<int>,
    pub pre_qty: Option<int>,
    pub funding_cap: Option<int>,
    pub basis_rate_year: Option<int>,
    pub cur_pre_listing_phase: Option<Seq<char>>,
    pub funding_interval_hour: Option<Seq<char>>,
}

/// The abstract value of a wire ticker message.
pub struct TickerDeltaV {
    pub symbol: Seq<char>,
    pub tick_direction: Option<Seq<char>>,
    pub price24h_pcnt: Option<Seq<char>>,
    pub last_price: Option<Seq<char>>,
    pub prev_price24h: Option<Seq<char>>,
    pub high_price24h: Option<Seq<char>>,
    pub low_price24h: Option<Seq<char>>,
    pub prev_price1h: Option<Seq<char>>,
    pub mark_price: Option<Seq<char>>,
    pub index_price: Option<Seq<char>>,
    pub open_interest: Option<Seq<char>>,
    pub open_interest_value: Option<Seq<char>>,
    pub turnover24h: Option<Seq<char>>,
    pub volume24h: Option<Seq<char>>,
    pub next_funding_time: Option<Seq<char>>,
    pub funding_rate: Option<Seq<char>>,
    pub bid1_price: Option<Seq<char>>,
    pub bid1_size: Option<Seq<char>>,
    pub ask1_price: Option<Seq<char>>,
    pub ask1_size: Option<Seq<char>>,
    pub delivery_time: Option<Seq<char>>,
    pub basis_rate: Option<Seq<char>>,
    pub delivery_fee_rate: Option<Seq<char>>,
    pub predicted_delivery_price: Option<Seq<char>>,
    pub pre_open_price: Option<Seq<char>>,
    pub pre_qty: Option<Seq<char>>,
    pub cur_pre_listing_phase: Option<Seq<char>>,
    pub funding_interval_hour: Option<Seq<char>>,
    pub funding_cap: Option<Seq<char>>,
    pub basis_rate_year: Option<Seq<char>>,
}

pub open spec fn delta_view(d: BybitTickerData) -> TickerDeltaV {
    TickerDeltaV {
        symbol: d.symbol@,
        tick_direction: ostr_view(d.tick_direction),
        price24h_pcnt: ostr_view(d.price24h_pcnt),
        last_price: ostr_view(d.last_price),
        prev_price24h: ostr_view(d.prev_price24h),
        high_price24h: ostr_view(d.high_price24h),
        low_price24h: ostr_view(d.low_price24h),
        prev_price1h: ostr_view(d.prev_price1h),
        mark_price: ostr_view(d.mark_price),
        index_price: ostr_view(d.index_price),
        open_interest: ostr_view(d.open_interest),
        open_interest_value: ostr_view(d.open_interest_value),
        turnover24h: ostr_view(d.turnover24h),
        volume24h: ostr_view(d.volume24h),
        next_funding_time: ostr_view(d.next_funding_time),
        funding_rate: ostr_view(d.funding_rate),
        bid1_price: ostr_view(d.bid1_price),
        bid1_size: ostr_view(d.bid1_size),
        ask1_price: ostr_view(d.ask1_price),
        ask1_size: ostr_view(d.ask1_size),
        delivery_time: ostr_view(d.delivery_time),
        basis_rate: ostr_view(d.basis_rate),
        delivery_fee_rate: ostr_view(d.delivery_fee_rate),
        predicted_delivery_price: ostr_view(d.predicted_delivery_price),
        pre_open_price: ostr_view(d.pre_open_price),
        pre_qty: ostr_view(d.pre_qty),
        cur_pre_listing_phase: ostr_view(d.cur_pre_listing_phase),
        funding_interval_hour: ostr_view(d.funding_interval_hour),
        funding_cap: ostr_view(d.funding_cap),
        basis_rate_year: ostr_view(d.basis_rate_year),
    }
}

impl View for BybitTicker {
    type V = TickerV;

    open spec fn view(&self) -> TickerV {
        TickerV {
            server_timestamp: self.server_timestamp as int,
            received_timestamp: self.received_timestamp as int,
            cross_sequence: self.cross_sequence as int,
            symbol: self.symbol@,
            tick_direction: self.tick_direction@,
            price_24h_pcnt: self.price_24h_pcnt@,
            last_price: self.last_price@,
            prev_price_24h: self.prev_price_24h@,
            high_price_24h: self.high_price_24h@,
            low_price_24h: self.low_price_24h@,
            prev_price_1h: self.prev_price_1h@,
            mark_price: self.mark_price@,
            index_price: self.index_price@,
            open_interest: self.open_interest@,
            open_interest_value: self.open_interest_value@,
            turnover_24h: self.turnover_24h@,
            volume_24h: self.volume_24h@,
            funding_rate: self.funding_rate@,
            bid1_price: self.bid1_price@,
            bid1_size: self.bid1_size@,
            ask1_price: self.ask1_price@,
            ask1_size: self.ask1_size@,
            next_funding_time: self.next_funding_time as int,
            delivery_time: oi128_view(self.delivery_time),
            delivery_fee_rate: oi64_view(self.delivery_fee_rate),
            basis_rate: odec_view(self.basis_rate),
            predicted_delivery_price: odec_view(self.predicted_delivery_price),
            pre_open_price: odec_view(self.pre_open_price),
            pre_qty: odec_view(self.pre_qty),
            funding_cap: odec_view(self.funding_cap),
            basis_rate_year: odec_view(self.basis_rate_year),
            cur_pre_listing_phase: ostr_view(self.cur_pre_listing_phase),
            funding_interval_hour: ostr_view(self.funding_interval_hour),
        }
    }
}

/// A required decimal: a present, non-empty, parseable value
/// overwrites; anything else leaves the field unchanged.
pub open spec fn merge_dec(cur: int, d: Option<Seq<char>>) -> int {
    match d {
        Option::None => cur,
        Option::Some(s) => if s.len() > 0 && spec_parse_decimal(s) is Ok {
            spec_parse_decimal(s)->Ok_0
        } else {
            cur
        },
    }
}

/// An optional decimal: an overwrite installs the value; absence or an
/// empty or bad string never clears.
pub open spec fn merge_opt_dec(cur: Option<int>, d: Option<Seq<char>>) -> Option<int> {
    match d {
        Option::None => cur,
        Option::Some(s) => if s.len() > 0 && spec_parse_decimal(s) is Ok {
            Some(spec_parse_decimal(s)->Ok_0)
        } else {
            cur
        },
    }
}

/// A required string: a present value overwrites, absence keeps.
pub open spec fn merge_string(cur: Seq<char>, d: Option<Seq<char>>) -> Seq<char> {
    match d {
        Option::None => cur,
        Option::Some(s) => s,
    }
}

/// An optional string: a present value wraps to Some, absence keeps.
pub open spec fn merge_opt_string(cur: Option<Seq<char>>, d: Option<Seq<char>>) -> Option<
    Seq<char>,
> {
    match d {
        Option::None => cur,
        Option::Some(s) => Some(s),
    }
}

/// A millisecond timestamp: a parseable value within the signed
/// 128-bit range, whose nanosecond form also fits, overwrites.
pub open spec fn merge_millis(cur: int, d: Option<Seq<char>>) -> int {
    match d {
        Option::None => cur,
        Option::Some(s) => match spec_parse_int(s) {
            Option::None => cur,
            Option::Some(ms) => if i128::MIN <= ms <= i128::MAX && i128::MIN <= ms * 1_000_000
                <= i128::MAX {
                ms * 1_000_000
            } else {
                cur
            },
        },
    }
}

/// The delivery fee rate: a parseable signed 64-bit value installs.
pub open spec fn merge_fee(cur: Option<int>, d: Option<Seq<char>>) -> Option<int> {
    match d {
        Option::None => cur,
        Option::Some(s) => match spec_parse_int(s) {
            Option::None => cur,
            Option::Some(v) => if i64::MIN <= v <= i64::MAX {
                Some(v)
            } else {
                cur
            },
        },
    }
}

/// The delivery time: a string the RFC 3339 parser accepts installs.
pub open spec fn merge_delivery(cur: Option<int>, d: Option<Seq<char>>) -> Option<int> {
    match d {
        Option::None => cur,
        Option::Some(s) => match rfc3339_nanos_of(s) {
            Option::None => cur,
            Option::Some(n) => Some(n),
        },
    }
}

/// The whole delta-merge over a cached ticker: metadata is kept, every
/// data field follows its merge rule.
pub open spec fn merge_ticker(t: TickerV, d: TickerDeltaV) -> TickerV {
    TickerV {
        server_timestamp: t.server_timestamp,
        received_timestamp: t.received_timestamp,
        cross_sequence: t.cross_sequence,
        symbol: t.symbol,
        tick_direction: merge_string(t.tick_direction, d.tick_direction),
        price_24h_pcnt: merge_dec(t.price_24h_pcnt, d.price24h_pcnt),
        last_price: merge_dec(t.last_price, d.last_price),
        prev_price_24h: merge_dec(t.prev_price_24h, d.prev_price24h),
        high_price_24h: merge_dec(t.high_price_24h, d.high_price24h),
        low_price_24h: merge_dec(t.low_price_24h, d.low_price24h),
        prev_price_1h: merge_dec(t.prev_price_1h, d.prev_price1h),
        mark_price: merge_dec(t.mark_price, d.mark_price),
        index_price: merge_dec(t.index_price, d.index_price),
        open_interest: merge_dec(t.open_interest, d.open_interest),
        open_interest_value: merge_dec(t.open_interest_value, d.open_interest_value),
        turnover_24h: merge_dec(t.turnover_24h, d.turnover24h),
        volume_24h: merge_dec(t.volume_24h, d.volume24h),
        funding_rate: merge_dec(t.funding_rate, d.funding_rate),
        bid1_price: merge_dec(t.bid1_price, d.bid1_price),
        bid1_size: merge_dec(t.bid1_size, d.bid1_size),
        ask1_price: merge_dec(t.ask1_price, d.ask1_price),
        ask1_size: merge_dec(t.ask1_size, d.ask1_size),
        next_funding_time: merge_millis(t.next_funding_time, d.next_funding_time),
        delivery_time: merge_delivery(t.delivery_time, d.delivery_time),
        delivery_fee_rate: merge_fee(t.delivery_fee_rate, d.delivery_fee_rate),
        basis_rate: merge_opt_dec(t.basis_rate, d.basis_rate),
        predicted_delivery_price: merge_opt_dec(t.predicted_delivery_price, d.predicted_delivery_price),
        pre_open_price: merge_opt_dec(t.pre_open_price, d.pre_open_price),
        pre_qty: merge_opt_dec(t.pre_qty, d.pre_qty),
        funding_cap: merge_opt_dec(t.funding_cap, d.funding_cap),
        basis_rate_year: merge_opt_dec(t.basis_rate_year, d.basis_rate_year),
        cur_pre_listing_phase: merge_opt_string(t.cur_pre_listing_phase, d.cur_pre_listing_phase),
        funding_interval_hour: merge_opt_string(t.funding_interval_hour, d.funding_interval_hour),
    }
}

/// A zero-initialized ticker stamped with envelope metadata.
pub open spec fn empty_ticker_v(st: int, rt: int, cs: int, sym: Seq<char>) -> TickerV {
    TickerV {
        server_timestamp: st,
        received_timestamp: rt,
        cross_sequence: cs,
        symbol: sym,
        tick_direction: Seq::empty(),
        price_24h_pcnt: 0,
        last_price: 0,
        prev_price_24h: 0,
        high_price_24h: 0,
        low_price_24h: 0,
        prev_price_1h: 0,
        mark_price: 0,
        index_price: 0,
        open_interest: 0,
        open_interest_value: 0,
        turnover_24h: 0,
        volume_24h: 0,
        funding_rate: 0,
        bid1_price: 0,
        bid1_size: 0,
        ask1_price: 0,
        ask1_size: 0,
        next_funding_time: st,
        delivery_time: None,
        delivery_fee_rate: None,
        basis_rate: None,
        predicted_delivery_price: None,
        pre_open_price: None,
        pre_qty: None,
        funding_cap: None,
        basis_rate_year: None,
        cur_pre_listing_phase: None,
        funding_interval_hour: None,
    }
}

/// A cached ticker restamped with the metadata of a fresh delta.
pub open spec fn stamp_ticker(t: TickerV, st: int, rt: int, cs: int) -> TickerV {
    TickerV { server_timestamp: st, received_timestamp: rt, cross_sequence: cs, ..t }
}

} // verus!

verus! {

/// The merged value of one required-decimal field.
fn merged_dec(cur: Decimal128, d: Option<String>) -> (r: Decimal128)
    ensures
        r@ == merge_dec(cur@, ostr_view(d)),
{
    match d {
        None => cur,
        Some(s) => {
            if s.as_str().unicode_len() == 0 {
                cur
            } else {
                match Decimal128::from_str(s.as_str()) {
                    Ok(v) => v,
                    Err(_) => cur,
                }
            }
        },
    }
}

/// The merged value of one optional-decimal field.
fn merged_opt_dec(cur: Option<Decimal128>, d: Option<String>) -> (r: Option<Decimal128>)
    ensures
        odec_view(r) == merge_opt_dec(odec_view(cur), ostr_view(d)),
{
    match d {
        None => cur,
        Some(s) => {
            if s.as_str().unicode_len() == 0 {
                cur
            } else {
                match Decimal128::from_str(s.as_str()) {
                    Ok(v) => Some(v),
                    Err(_) => cur,
                }
            }
        },
    }
}

impl BybitTicker {
    /// A zero-initialized ticker carrying the envelope metadata.
    fn empty_with_meta(st: i128, rt: i128, cs: u64, sym: String) -> (r: BybitTicker)
        ensures
            r@ == empty_ticker_v(st as int, rt as int, cs as int, sym@),
    {
        BybitTicker {
            server_timestamp: st,
            received_timestamp: rt,
            cross_sequence: cs,
            symbol: sym,
            tick_direction: String::new(),
            price_24h_pcnt: Decimal128::zero(),
            last_price: Decimal128::zero(),
            prev_price_24h: Decimal128::zero(),
            high_price_24h: Decimal128::zero(),
            low_price_24h: Decimal128::zero(),
            prev_price_1h: Decimal128::zero(),
            mark_price: Decimal128::zero(),
            index_price: Decimal128::zero(),
            open_interest: Decimal128::zero(),
            open_interest_value: Decimal128::zero(),
            turnover_24h: Decimal128::zero(),
            volume_24h: Decimal128::zero(),
            next_funding_time: st,
            funding_rate: Decimal128::zero(),
            bid1_price: Decimal128::zero(),
            bid1_size: Decimal128::zero(),
            ask1_price: Decimal128::zero(),
            ask1_size: Decimal128::zero(),
            delivery_time: None,
            basis_rate: None,
            delivery_fee_rate: None,
            predicted_delivery_price: None,
            pre_open_price: None,
            pre_qty: None,
            cur_pre_listing_phase: None,
            funding_interval_hour: None,
            funding_cap: None,
            basis_rate_year: None,
        }
    }

    /// A field-for-field copy with the same abstract value.
    fn duplicate(&self) -> (r: BybitTicker)
        ensures
            r@ == self@,
    {
        BybitTicker {
            server_timestamp: self.server_timestamp,
            received_timestamp: self.received_timestamp,
            cross_sequence: self.cross_sequence,
            symbol: self.symbol.clone(),
            tick_direction: self.tick_direction.clone(),
            price_24h_pcnt: self.price_24h_pcnt,
            last_price: self.last_price,
            prev_price_24h: self.prev_price_24h,
            high_price_24h: self.high_price_24h,
            low_price_24h: self.low_price_24h,
            prev_price_1h: self.prev_price_1h,
            mark_price: self.mark_price,
            index_price: self.index_price,
            open_interest: self.open_interest,
            open_interest_value: self.open_interest_value,
            turnover_24h: self.turnover_24h,
            volume_24h: self.volume_24h,
            next_funding_time: self.next_funding_time,
            funding_rate: self.funding_rate,
            bid1_price: self.bid1_price,
            bid1_size: self.bid1_size,
            ask1_price: self.ask1_price,
            ask1_size: self.ask1_size,
            delivery_time: self.delivery_time,
            basis_rate: self.basis_rate,
            delivery_fee_rate: self.delivery_fee_rate,
            predicted_delivery_price: self.predicted_delivery_price,
            pre_open_price: self.pre_open_price,
            pre_qty: self.pre_qty,
            cur_pre_listing_phase: clone_opt_string(&self.cur_pre_listing_phase),
            funding_interval_hour: clone_opt_string(&self.funding_interval_hour),
            funding_cap: self.funding_cap,
            basis_rate_year: self.basis_rate_year,
        }
    }

    /// Folds one sparse delta over this cached ticker: present fields
    /// overwrite by their merge rule, absent fields keep their values.
    pub fn apply_delta(&mut self, delta: BybitTickerData)
        ensures
            final(self)@ == merge_ticker(old(self)@, delta_view(delta)),
    {
        if let Some(v) = delta.tick_direction {
            self.tick_direction = v;
        }
        self.price_24h_pcnt = merged_dec(self.price_24h_pcnt, delta.price24h_pcnt);
        self.last_price = merged_dec(self.last_price, delta.last_price);
        self.prev_price_24h = merged_dec(self.prev_price_24h, delta.prev_price24h);
        self.high_price_24h = merged_dec(self.high_price_24h, delta.high_price24h);
        self.low_price_24h = merged_dec(self.low_price_24h, delta.low_price24h);
        self.prev_price_1h = merged_dec(self.prev_price_1h, delta.prev_price1h);
        self.mark_price = merged_dec(self.mark_price, delta.mark_price);
        self.index_price = merged_dec(self.index_price, delta.index_price);
        self.open_interest = merged_dec(self.open_interest, delta.open_interest);
        self.open_interest_value = merged_dec(self.open_interest_value, delta.open_interest_value);
        self.turnover_24h = merged_dec(self.turnover_24h, delta.turnover24h);
        self.volume_24h = merged_dec(self.volume_24h, delta.volume24h);
        self.funding_rate = merged_dec(self.funding_rate, delta.funding_rate);
        self.bid1_price = merged_dec(self.bid1_price, delta.bid1_price);
        self.bid1_size = merged_dec(self.bid1_size, delta.bid1_size);
        self.ask1_price = merged_dec(self.ask1_price, delta.ask1_price);
        self.ask1_size = merged_dec(self.ask1_size, delta.ask1_size);
        self.basis_rate = merged_opt_dec(self.basis_rate, delta.basis_rate);
        self.predicted_delivery_price = merged_opt_dec(self.predicted_delivery_price, delta.predicted_delivery_price);
        self.pre_open_price = merged_opt_dec(self.pre_open_price, delta.pre_open_price);
        self.pre_qty = merged_opt_dec(self.pre_qty, delta.pre_qty);
        self.funding_cap = merged_opt_dec(self.funding_cap, delta.funding_cap);
        self.basis_rate_year = merged_opt_dec(self.basis_rate_year, delta.basis_rate_year);
        if let Some(v) = delta.cur_pre_listing_phase {
            self.cur_pre_listing_phase = Some(v);
        }
        if let Some(v) = delta.funding_interval_hour {
            self.funding_interval_hour = Some(v);
        }
        if let Some(s) = delta.next_funding_time {
            if let Some(ms) = parse_i128(s.as_str()) {
                if let Some(ns) = ms.checked_mul(1_000_000) {
                    self.next_funding_time = ns;
                }
            }
        }
        if let Some(s) = delta.delivery_fee_rate {
            if let Some(v) = parse_i64(s.as_str()) {
                self.delivery_fee_rate = Some(v);
            }
        }
        if let Some(s) = delta.delivery_time {
            if let Some(ns) = parse_rfc3339_nanos(s.as_str()) {
                self.delivery_time = Some(ns);
            }
        }
    }
}

/// A view-preserving copy of an optional string.
fn clone_opt_string(o: &Option<String>) -> (r: Option<String>)
    ensures
        ostr_view(r) == ostr_view(*o),
{
    match o {
        Some(s) => Some(s.clone()),
        None => None,
    }
}

} // verus!

verus! {

/// All cached tickers, one per symbol.
pub struct TickerCache {
    pub ticker: Vec<(String, BybitTicker)>,
}

impl View for TickerCache {
    type V = Map<Seq<char>, TickerV>;

    open spec fn view(&self) -> Map<Seq<char>, TickerV> {
        assoc_view(self.ticker@)
    }
}

impl TickerCache {
    pub open spec fn wf(&self) -> bool {
        assoc_distinct(self.ticker@)
    }

    pub fn new() -> (r: TickerCache)
        ensures
            r.wf(),
            r@ == Map::<Seq<char>, TickerV>::empty(),
    {
        TickerCache { ticker: Vec::new() }
    }

    fn index_of(&self, symbol: &String) -> (r: Option<usize>)
        ensures
            match r {
                Some(i) => i < self.ticker@.len() && self.ticker@[i as int].0@ == symbol@,
                None => forall|i: int|
                    0 <= i < self.ticker@.len() ==> (#[trigger] self.ticker@[i]).0@ != symbol@,
            },
    {
        let mut i: usize = 0;
        let n = self.ticker.len();
        while i < n
            invariant
                i <= n,
                n == self.ticker@.len(),
                forall|j: int| 0 <= j < i ==> (#[trigger] self.ticker@[j]).0@ != symbol@,
            decreases n - i,
        {
            if self.ticker[i].0 == *symbol {
                return Some(i);
            }
            i = i + 1;
        }
        None
    }
}

/// Everything one ticker message does: the unknown-type and missing-
/// snapshot failures, the new cache contents and the returned row.
pub open spec fn ticker_post(
    pre: TickerCache,
    post: TickerCache,
    r: Result<BybitTicker, FeedError>,
    sts: int,
    rts: int,
    cs: int,
    ticker_data: BybitTickerData,
    ttype: Seq<char>,
) -> bool {
    let sym = ticker_data.symbol@;
    let low = lower_of(ttype);
    &&& low != "snapshot"@ && low != "delta"@ ==> r == Err::<BybitTicker, FeedError>(
        FeedError::UnknownType,
    ) && post == pre
    &&& low == "snapshot"@ ==> ({
        let t = merge_ticker(
            empty_ticker_v(
                sts,
                rts,
                cs,
                sym,
            ),
            delta_view(ticker_data),
        );
        &&& assoc_view(post.ticker@) == assoc_view(pre.ticker@).insert(sym, t)
        &&& r is Ok
        &&& r->Ok_0@ == t
    })
    &&& low == "delta"@ && !assoc_view(pre.ticker@).contains_key(sym) ==> r == Err::<
        BybitTicker,
        FeedError,
    >(FeedError::MissingSnapshot) && post == pre
    &&& low == "delta"@ && assoc_view(pre.ticker@).contains_key(sym) ==> ({
        let t = merge_ticker(
            stamp_ticker(
                assoc_view(pre.ticker@)[sym],
                sts,
                rts,
                cs,
            ),
            delta_view(ticker_data),
        );
        &&& assoc_view(post.ticker@) == assoc_view(pre.ticker@).insert(sym, t)
        &&& r is Ok
        &&& r->Ok_0@ == t
    })
}

impl BybitTicker {
    /// Runs one ticker message through the state machine.
    ///
    /// A snapshot builds a zero-initialized ticker, merges the message
    /// over it and replaces the cache entry; a delta restamps the
    /// cached entry's metadata and merges over it, and fails when no
    /// snapshot came first. Either way the new cached value is
    /// returned as the row to persist.
    pub fn parse_bybit_ticker(
        server_timestamp: i128,
        received_timestamp: i128,
        ticker_data: BybitTickerData,
        cross_sequence: u64,
        ttype: &String,
        ticker_cache: &mut TickerCache,
    ) -> (r: Result<BybitTicker, FeedError>)
        requires
            old(ticker_cache).wf(),
        ensures
            final(ticker_cache).wf(),
            ticker_post(
                *old(ticker_cache),
                *final(ticker_cache),
                r,
                server_timestamp as int,
                received_timestamp as int,
                cross_sequence as int,
                ticker_data,
                ttype@,
            ),
    {
        proof {
            reveal_strlit("snapshot");
            reveal_strlit("delta");
            assert("snapshot"@.len() == 8 && "delta"@.len() == 5);
        }
        let low = to_lowercase(ttype.as_str());
        let is_snapshot = low == String::from_str("snapshot");
        let is_delta = low == String::from_str("delta");
        let symbol = ticker_data.symbol.clone();
        if is_snapshot {
            let mut tick = BybitTicker::empty_with_meta(
                server_timestamp,
                received_timestamp,
                cross_sequence,
                symbol.clone(),
            );
            tick.apply_delta(ticker_data);
            let row = tick.duplicate();
            match ticker_cache.index_of(&symbol) {
                Some(i) => {
                    proof {
                        crate::assoc::lemma_assoc_update(
                            ticker_cache.ticker@,
                            i as int,
                            (symbol, tick),
                        );
                    }
                    ticker_cache.ticker.set(i, (symbol.clone(), tick));
                },
                None => {
                    proof {
                        lemma_assoc_push(ticker_cache.ticker@, (symbol, tick));
                    }
                    ticker_cache.ticker.push((symbol.clone(), tick));
                },
            }
            Ok(row)
        } else if is_delta {
            match ticker_cache.index_of(&symbol) {
                None => {
                    proof {
                        lemma_assoc_contains::<String, BybitTicker>(ticker_cache.ticker@, symbol@);
                    }
                    Err(FeedError::MissingSnapshot)
                },
                Some(i) => {
                    proof {
                        lemma_assoc_at::<String, BybitTicker>(ticker_cache.ticker@, i as int);
                        lemma_assoc_remove(ticker_cache.ticker@, i as int);
                    }
                    let (key, mut tick) = ticker_cache.ticker.remove(i);
                    tick.server_timestamp = server_timestamp;
                    tick.received_timestamp = received_timestamp;
                    tick.cross_sequence = cross_sequence;
                    tick.apply_delta(ticker_data);
                    let row = tick.duplicate();
                    proof {
                        lemma_assoc_contains::<String, BybitTicker>(ticker_cache.ticker@, key@);
                        lemma_assoc_push(ticker_cache.ticker@, (key, tick));
                    }
                    ticker_cache.ticker.push((key, tick));
                    proof {
                        assert(final(ticker_cache)@ =~= old(ticker_cache)@.insert(
                            symbol@,
                            merge_ticker(
                                stamp_ticker(
                                    old(ticker_cache)@[symbol@],
                                    server_timestamp as int,
                                    received_timestamp as int,
                                    cross_sequence as int,
                                ),
                                delta_view(ticker_data),
                            ),
                        ));
                    }
                    Ok(row)
                },
            }
        } else {
            Err(FeedError::UnknownType)
        }
    }
}

/// Field retention: a field absent from a delta keeps exactly its
/// cached value through the merge.
pub proof fn lemma_ticker_field_retention(t: TickerV, d: TickerDeltaV)
    ensures
        d.tick_direction is None ==> merge_ticker(t, d).tick_direction == t.tick_direction,
        d.price24h_pcnt is None ==> merge_ticker(t, d).price_24h_pcnt == t.price_24h_pcnt,
        d.last_price is None ==> merge_ticker(t, d).last_price == t.last_price,
        d.prev_price24h is None ==> merge_ticker(t, d).prev_price_24h == t.prev_price_24h,
        d.high_price24h is None ==> merge_ticker(t, d).high_price_24h == t.high_price_24h,
        d.low_price24h is None ==> merge_ticker(t, d).low_price_24h == t.low_price_24h,
        d.prev_price1h is None ==> merge_ticker(t, d).prev_price_1h == t.prev_price_1h,
        d.mark_price is None ==> merge_ticker(t, d).mark_price == t.mark_price,
        d.index_price is None ==> merge_ticker(t, d).index_price == t.index_price,
        d.open_interest is None ==> merge_ticker(t, d).open_interest == t.open_interest,
        d.open_interest_value is None ==> merge_ticker(t, d).open_interest_value == t.open_interest_value,
        d.turnover24h is None ==> merge_ticker(t, d).turnover_24h == t.turnover_24h,
        d.volume24h is None ==> merge_ticker(t, d).volume_24h == t.volume_24h,
        d.funding_rate is None ==> merge_ticker(t, d).funding_rate == t.funding_rate,
        d.bid1_price is None ==> merge_ticker(t, d).bid1_price == t.bid1_price,
        d.bid1_size is None ==> merge_ticker(t, d).bid1_size == t.bid1_size,
        d.ask1_price is None ==> merge_ticker(t, d).ask1_price == t.ask1_price,
        d.ask1_size is None ==> merge_ticker(t, d).ask1_size == t.ask1_size,
        d.next_funding_time is None ==> merge_ticker(t, d).next_funding_time == t.next_funding_time,
        d.delivery_time is None ==> merge_ticker(t, d).delivery_time == t.delivery_time,
        d.delivery_fee_rate is None ==> merge_ticker(t, d).delivery_fee_rate == t.delivery_fee_rate,
        d.basis_rate is None ==> merge_ticker(t, d).basis_rate == t.basis_rate,
        d.predicted_delivery_price is None ==> merge_ticker(t, d).predicted_delivery_price == t.predicted_delivery_price,
        d.pre_open_price is None ==> merge_ticker(t, d).pre_open_price == t.pre_open_price,
        d.pre_qty is None ==> merge_ticker(t, d).pre_qty == t.pre_qty,
        d.funding_cap is None ==> merge_ticker(t, d).funding_cap == t.funding_cap,
        d.basis_rate_year is None ==> merge_ticker(t, d).basis_rate_year == t.basis_rate_year,
        d.cur_pre_listing_phase is None ==> merge_ticker(t, d).cur_pre_listing_phase == t.cur_pre_listing_phase,
        d.funding_interval_hour is None ==> merge_ticker(t, d).funding_interval_hour == t.funding_interval_hour,
{
}

} // verus!
