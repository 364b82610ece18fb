//! The wire record: an ordered list of named scalar values.
//!
//! Both wire formats encode the same record; an event maps to its record and
//! back losslessly.  A record entry's value is a text, an unsigned integer,
//! a boolean, or null (an absent optional field).

use vstd::prelude::*;
use vstd::string::StrSliceExecFns;
use vstd::string::StringSliceAdditionalSpecFns;
use crate::types::{
    wf_text, is_wf_text, copy_bytes, bytes_eq, Quantity, Price, TriggerType, ContingencyType,
    OrderSide, OrderType, TimeInForce, LiquiditySide, side_code, side_from_code, side_to_u64,
    side_of_u64, order_type_code, order_type_from_code, order_type_to_u64, order_type_of_u64,
    tif_code, tif_from_code, tif_to_u64, tif_of_u64, trigger_code, trigger_from_code,
    trigger_to_u64, trigger_of_u64, contingency_code, contingency_from_code, contingency_to_u64,
    contingency_of_u64, liquidity_code, liquidity_from_code, liquidity_to_u64, liquidity_of_u64,
};

verus! {

/// A scalar value on the wire.
pub enum WireValue {
    Str(Vec<u8>),
    UInt(u64),
    Bool(bool),
    Null,
}

/// Mathematical model of a [`WireValue`].
pub enum WireV {
    Str(Seq<u8>),
    UInt(u64),
    Bool(bool),
    Null,
}

pub open spec fn wv(v: WireValue) -> WireV {
    match v {
        WireValue::Str(s) => WireV::Str(s@),
        WireValue::UInt(n) => WireV::UInt(n),
        WireValue::Bool(b) => WireV::Bool(b),
        WireValue::Null => WireV::Null,
    }
}

/// Model of a whole record.
pub type RecordV = Seq<(Seq<u8>, WireV)>;

/// View of an executable record.
pub open spec fn rv(r: Seq<(Vec<u8>, WireValue)>) -> RecordV {
    Seq::new(r.len(), |i: int| (r[i].0@, wv(r[i].1)))
}

/// A value whose texts can travel on the wire verbatim.
pub open spec fn wv_wf(v: WireV) -> bool {
    match v {
        WireV::Str(s) => wf_text(s),
        _ => true,
    }
}

/// Every key and every text value in the record is wire-safe.
pub open spec fn record_wf(r: RecordV) -> bool {
    forall|i: int| 0 <= i < r.len() ==> wf_text(#[trigger] r[i].0) && wv_wf(r[i].1)
}

/// Byte form of a key or tag literal.
pub open spec fn sbytes(s: &str) -> Seq<u8> {
    s.spec_bytes()
}

pub fn clone_wv(v: &WireValue) -> (r: WireValue)
    ensures
        wv(r) == wv(*v),
{
    match v {
        WireValue::Str(s) => WireValue::Str(copy_bytes(s)),
        WireValue::UInt(n) => WireValue::UInt(*n),
        WireValue::Bool(b) => WireValue::Bool(*b),
        WireValue::Null => WireValue::Null,
    }
}

/// Field-level failures when a record is turned back into a typed payload.
pub enum FieldError {
    /// A required field is absent (from the decode cursor on).
    Missing(Vec<u8>),
    /// The named field holds a value of the wrong kind.
    Mismatch(Vec<u8>),
    /// The named field holds a value outside the payload's invariant.
    Invalid(Vec<u8>),
    /// The type tag names no known event variant.
    UnknownVariant,
}

/// Takes the next field named `key`, skipping unrecognized fields before it.
///
/// On a record in canonical order the expected field stands at the cursor
/// and is consumed directly.
pub fn take_field(rec: &Vec<(Vec<u8>, WireValue)>, i: &mut usize, key: &str) -> (r: Option<
    WireValue>)
    requires
        *old(i) <= rec@.len(),
    ensures
        *old(i) < rec@.len() && rv(rec@)[*old(i) as int].0 == sbytes(key) ==> (r matches Some(v)
            && wv(v) == rv(rec@)[*old(i) as int].1 && *final(i) == *old(i) + 1),
        r is None ==> (forall|j: int|
            *old(i) <= j < rec@.len() ==> rv(rec@)[j].0 != sbytes(key)) && *final(i) == rec@.len(),
        *final(i) <= rec@.len(),
{
    let kb = key.as_bytes_vec();
    while *i < rec.len()
        invariant
            *old(i) <= *i <= rec@.len(),
            kb@ == sbytes(key),
            forall|j: int| *old(i) <= j < *i ==> rv(rec@)[j].0 != sbytes(key),
        decreases rec@.len() - *i,
    {
        if bytes_eq(&rec[*i].0, &kb) {
            let v = clone_wv(&rec[*i].1);
            *i += 1;
            return Some(v);
        }
        *i += 1;
    }
    None
}

/// Takes a required text field.
pub fn take_str(rec: &Vec<(Vec<u8>, WireValue)>, i: &mut usize, key: &str) -> (r: Result<
    Vec<u8>, FieldError>)
    requires
        *old(i) <= rec@.len(),
    ensures
        *old(i) < rec@.len() && rv(rec@)[*old(i) as int].0 == sbytes(key) && (rv(
            rec@)[*old(i) as int].1 matches WireV::Str(s) && wf_text(s)) ==> (r matches Ok(v)
            && v@ == rv(rec@)[*old(i) as int].1->Str_0 && *final(i) == *old(i) + 1),
        r matches Ok(v) ==> wf_text(v@),
        *final(i) <= rec@.len(),
{
    match take_field(rec, i, key) {
        None => Err(FieldError::Missing(key.as_bytes_vec())),
        Some(WireValue::Str(s)) => {
            if is_wf_text(&s) {
                Ok(s)
            } else {
                Err(FieldError::Invalid(key.as_bytes_vec()))
            }
        },
        Some(_) => Err(FieldError::Mismatch(key.as_bytes_vec())),
    }
}

/// Takes an optional text field (null when absent).
pub fn take_opt_str(rec: &Vec<(Vec<u8>, WireValue)>, i: &mut usize, key: &str) -> (r: Result<
    Option<Vec<u8>>, FieldError>)
    requires
        *old(i) <= rec@.len(),
    ensures
        *old(i) < rec@.len() && rv(rec@)[*old(i) as int].0 == sbytes(key) && (rv(
            rec@)[*old(i) as int].1 matches WireV::Str(s) && wf_text(s)) ==> (r matches Ok(v)
            && v matches Some(b) && b@ == rv(rec@)[*old(i) as int].1->Str_0 && *final(i) == *old(
            i) + 1),
        *old(i) < rec@.len() && rv(rec@)[*old(i) as int].0 == sbytes(key) && rv(
            rec@)[*old(i) as int].1 == WireV::Null ==> (r matches Ok(v) && v is None && *final(i)
            == *old(i) + 1),
        r matches Ok(Some(b)) ==> wf_text(b@),
        *final(i) <= rec@.len(),
{
    match take_field(rec, i, key) {
        None => Err(FieldError::Missing(key.as_bytes_vec())),
        Some(WireValue::Str(s)) => {
            if is_wf_text(&s) {
                Ok(Some(s))
            } else {
                Err(FieldError::Invalid(key.as_bytes_vec()))
            }
        },
        Some(WireValue::Null) => Ok(None),
        Some(_) => Err(FieldError::Mismatch(key.as_bytes_vec())),
    }
}

/// Takes a required unsigned-integer field.
pub fn take_u64(rec: &Vec<(Vec<u8>, WireValue)>, i: &mut usize, key: &str) -> (r: Result<
    u64, FieldError>)
    requires
        *old(i) <= rec@.len(),
    ensures
        *old(i) < rec@.len() && rv(rec@)[*old(i) as int].0 == sbytes(key) && rv(
            rec@)[*old(i) as int].1 is UInt ==> (r == Ok::<u64, FieldError>(rv(
            rec@)[*old(i) as int].1->UInt_0) && *final(i) == *old(i) + 1),
        *final(i) <= rec@.len(),
{
    match take_field(rec, i, key) {
        None => Err(FieldError::Missing(key.as_bytes_vec())),
        Some(WireValue::UInt(n)) => Ok(n),
        Some(_) => Err(FieldError::Mismatch(key.as_bytes_vec())),
    }
}

/// Takes an optional unsigned-integer field (null when absent).
pub fn take_opt_u64(rec: &Vec<(Vec<u8>, WireValue)>, i: &mut usize, key: &str) -> (r: Result<
    Option<u64>, FieldError>)
    requires
        *old(i) <= rec@.len(),
    ensures
        *old(i) < rec@.len() && rv(rec@)[*old(i) as int].0 == sbytes(key) && rv(
            rec@)[*old(i) as int].1 is UInt ==> (r == Ok::<Option<u64>, FieldError>(Some(rv(
            rec@)[*old(i) as int].1->UInt_0)) && *final(i) == *old(i) + 1),
        *old(i) < rec@.len() && rv(rec@)[*old(i) as int].0 == sbytes(key) && rv(
            rec@)[*old(i) as int].1 == WireV::Null ==> (r == Ok::<Option<u64>, FieldError>(None)
            && *final(i) == *old(i) + 1),
        *final(i) <= rec@.len(),
{
    match take_field(rec, i, key) {
        None => Err(FieldError::Missing(key.as_bytes_vec())),
        Some(WireValue::UInt(n)) => Ok(Some(n)),
        Some(WireValue::Null) => Ok(None),
        Some(_) => Err(FieldError::Mismatch(key.as_bytes_vec())),
    }
}

/// Takes a required boolean field.
pub fn take_bool(rec: &Vec<(Vec<u8>, WireValue)>, i: &mut usize, key: &str) -> (r: Result<
    bool, FieldError>)
    requires
        *old(i) <= rec@.len(),
    ensures
        *old(i) < rec@.len() && rv(rec@)[*old(i) as int].0 == sbytes(key) && rv(
            rec@)[*old(i) as int].1 is Bool ==> (r == Ok::<bool, FieldError>(rv(
            rec@)[*old(i) as int].1->Bool_0) && *final(i) == *old(i) + 1),
        *final(i) <= rec@.len(),
{
    match take_field(rec, i, key) {
        None => Err(FieldError::Missing(key.as_bytes_vec())),
        Some(WireValue::Bool(b)) => Ok(b),
        Some(_) => Err(FieldError::Mismatch(key.as_bytes_vec())),
    }
}


/// Consumes the leading type-tag entry; the dispatcher has already read it.
pub fn take_tag(rec: &Vec<(Vec<u8>, WireValue)>, i: &mut usize) -> (r: Result<(), FieldError>)
    requires
        *old(i) <= rec@.len(),
    ensures
        *old(i) < rec@.len() && rv(rec@)[*old(i) as int].0 == sbytes("type") ==> (r is Ok
            && *final(i) == *old(i) + 1),
        *final(i) <= rec@.len(),
{
    match take_field(rec, i, "type") {
        Some(_) => Ok(()),
        None => Err(FieldError::Missing(("type").as_bytes_vec())),
    }
}

/// Record form of an `OrderDenied` event.
pub open spec fn rec_of_denied(p: crate::events::OrderDenied) -> RecordV {
    seq![
        (sbytes("type"), WireV::Str(sbytes("OrderDenied"))),
        (sbytes("trader_id"), WireV::Str(p.trader_id@)),
        (sbytes("strategy_id"), WireV::Str(p.strategy_id@)),
        (sbytes("instrument_id"), WireV::Str(p.instrument_id@)),
        (sbytes("client_order_id"), WireV::Str(p.client_order_id@)),
        (sbytes("reason"), WireV::Str(p.reason@)),
        (sbytes("event_id"), WireV::Str(p.event_id@)),
        (sbytes("ts_event"), WireV::UInt(p.ts_event)),
        (sbytes("ts_init"), WireV::UInt(p.ts_init)),
    ]
}

pub broadcast proof fn lemma_rec_of_denied_index(p: crate::events::OrderDenied)
    ensures
        #![trigger rec_of_denied(p)]
        rec_of_denied(p).len() == 9,
        rec_of_denied(p)[0] == (sbytes("type"), WireV::Str(sbytes("OrderDenied"))),
        rec_of_denied(p)[1] == (sbytes("trader_id"), WireV::Str(p.trader_id@)),
        rec_of_denied(p)[2] == (sbytes("strategy_id"), WireV::Str(p.strategy_id@)),
        rec_of_denied(p)[3] == (sbytes("instrument_id"), WireV::Str(p.instrument_id@)),
        rec_of_denied(p)[4] == (sbytes("client_order_id"), WireV::Str(p.client_order_id@)),
        rec_of_denied(p)[5] == (sbytes("reason"), WireV::Str(p.reason@)),
        rec_of_denied(p)[6] == (sbytes("event_id"), WireV::Str(p.event_id@)),
        rec_of_denied(p)[7] == (sbytes("ts_event"), WireV::UInt(p.ts_event)),
        rec_of_denied(p)[8] == (sbytes("ts_init"), WireV::UInt(p.ts_init)),
{
}

pub fn to_record_denied(p: &crate::events::OrderDenied) -> (r: Vec<(Vec<u8>, WireValue)>)
    ensures
        rv(r@) == rec_of_denied(*p),
{
    let mut out: Vec<(Vec<u8>, WireValue)> = Vec::new();
    out.push((("type").as_bytes_vec(), WireValue::Str(("OrderDenied").as_bytes_vec())));
    out.push((("trader_id").as_bytes_vec(), WireValue::Str(copy_bytes(&p.trader_id.value))));
    out.push((("strategy_id").as_bytes_vec(), WireValue::Str(copy_bytes(&p.strategy_id.value))));
    out.push((("instrument_id").as_bytes_vec(), WireValue::Str(copy_bytes(&p.instrument_id.value))));
    out.push((("client_order_id").as_bytes_vec(), WireValue::Str(copy_bytes(&p.client_order_id.value))));
    out.push((("reason").as_bytes_vec(), WireValue::Str(copy_bytes(&p.reason))));
    out.push((("event_id").as_bytes_vec(), WireValue::Str(copy_bytes(&p.event_id.value))));
    out.push((("ts_event").as_bytes_vec(), WireValue::UInt(p.ts_event)));
    out.push((("ts_init").as_bytes_vec(), WireValue::UInt(p.ts_init)));
    proof {
        assert(rv(out@) =~= rec_of_denied(*p));
    }
    out
}

pub fn from_record_denied(rec: &Vec<(Vec<u8>, WireValue)>) -> (r: Result<
    crate::events::OrderDenied, FieldError>)
    ensures
        r matches Ok(d) ==> d.wf(),
        forall|p: crate::events::OrderDenied|
            p.wf() && rv(rec@) == rec_of_denied(p) ==> (r matches Ok(d) && rec_of_denied(d)
                == rec_of_denied(p)),
{
    broadcast use lemma_rec_of_denied_index;

    let mut i: usize = 0;
    take_tag(rec, &mut i)?;
    let trader_id = take_str(rec, &mut i, "trader_id")?;
    let strategy_id = take_str(rec, &mut i, "strategy_id")?;
    let instrument_id = take_str(rec, &mut i, "instrument_id")?;
    let client_order_id = take_str(rec, &mut i, "client_order_id")?;
    let reason = take_str(rec, &mut i, "reason")?;
    let event_id = take_str(rec, &mut i, "event_id")?;
    let ts_event = take_u64(rec, &mut i, "ts_event")?;
    let ts_init = take_u64(rec, &mut i, "ts_init")?;
    if ts_init < ts_event {
        return Err(FieldError::Invalid(("ts_init").as_bytes_vec()));
    }
    let d = crate::events::OrderDenied {
        trader_id: crate::types::TraderId { value: trader_id },
        strategy_id: crate::types::StrategyId { value: strategy_id },
        instrument_id: crate::types::InstrumentId { value: instrument_id },
        client_order_id: crate::types::ClientOrderId { value: client_order_id },
        reason,
        event_id: crate::types::UUID4 { value: event_id },
        ts_event,
        ts_init,
    };
    proof {
        assert forall|p: crate::events::OrderDenied|
            p.wf() && rv(rec@) == rec_of_denied(p) implies rec_of_denied(d) == rec_of_denied(
            p) by {
            assert(rec_of_denied(d) =~= rec_of_denied(p));
        }
    }
    Ok(d)
}


pub open spec fn opt_bytes_wv<T: View<V = Seq<u8>>>(o: Option<T>) -> WireV {
    match o {
        Some(v) => WireV::Str(v.view()),
        None => WireV::Null,
    }
}

pub open spec fn opt_raw_wv(o: Option<Vec<u8>>) -> WireV {
    match o {
        Some(v) => WireV::Str(v@),
        None => WireV::Null,
    }
}

pub open spec fn opt_u64_wv(o: Option<u64>) -> WireV {
    match o {
        Some(n) => WireV::UInt(n),
        None => WireV::Null,
    }
}

pub open spec fn opt_qty_raw(o: Option<Quantity>) -> WireV {
    match o {
        Some(q) => WireV::UInt(q.raw),
        None => WireV::Null,
    }
}

pub open spec fn opt_qty_prec(o: Option<Quantity>) -> WireV {
    match o {
        Some(q) => WireV::UInt(q.precision as u64),
        None => WireV::Null,
    }
}

pub open spec fn opt_px_raw(o: Option<Price>) -> WireV {
    match o {
        Some(q) => WireV::UInt(q.raw),
        None => WireV::Null,
    }
}

pub open spec fn opt_px_prec(o: Option<Price>) -> WireV {
    match o {
        Some(q) => WireV::UInt(q.precision as u64),
        None => WireV::Null,
    }
}

pub open spec fn opt_trigger_wv(o: Option<TriggerType>) -> WireV {
    match o {
        Some(t) => WireV::UInt(trigger_code(t)),
        None => WireV::Null,
    }
}

pub open spec fn opt_contingency_wv(o: Option<ContingencyType>) -> WireV {
    match o {
        Some(t) => WireV::UInt(contingency_code(t)),
        None => WireV::Null,
    }
}

pub broadcast proof fn lemma_side_code_roundtrip(v: OrderSide)
    ensures
        #![trigger side_code(v)]
        side_from_code(side_code(v)) == Some(v),
{
}

pub broadcast proof fn lemma_order_type_code_roundtrip(v: OrderType)
    ensures
        #![trigger order_type_code(v)]
        order_type_from_code(order_type_code(v)) == Some(v),
{
}

pub broadcast proof fn lemma_tif_code_roundtrip(v: TimeInForce)
    ensures
        #![trigger tif_code(v)]
        tif_from_code(tif_code(v)) == Some(v),
{
}

pub broadcast proof fn lemma_trigger_code_roundtrip(v: TriggerType)
    ensures
        #![trigger trigger_code(v)]
        trigger_from_code(trigger_code(v)) == Some(v),
{
}

pub broadcast proof fn lemma_contingency_code_roundtrip(v: ContingencyType)
    ensures
        #![trigger contingency_code(v)]
        contingency_from_code(contingency_code(v)) == Some(v),
{
}

pub broadcast proof fn lemma_liquidity_code_roundtrip(v: LiquiditySide)
    ensures
        #![trigger liquidity_code(v)]
        liquidity_from_code(liquidity_code(v)) == Some(v),
{
}

pub broadcast group group_enum_code_roundtrips {
    lemma_side_code_roundtrip,
    lemma_order_type_code_roundtrip,
    lemma_tif_code_roundtrip,
    lemma_trigger_code_roundtrip,
    lemma_contingency_code_roundtrip,
    lemma_liquidity_code_roundtrip,
}

/// Record form of an `OrderInitialized` event.
pub open spec fn rec_of_initialized(p: crate::events::OrderInitialized) -> RecordV {
    rec_of_initialized_a(p) + rec_of_initialized_b(p) + rec_of_initialized_c(p)
        + rec_of_initialized_d(p)
}

pub open spec fn rec_of_initialized_a(p: crate::events::OrderInitialized) -> RecordV {
    seq![
        (sbytes("type"), WireV::Str(sbytes("OrderInitialized"))),
        (sbytes("trader_id"), WireV::Str(p.trader_id@)),
        (sbytes("strategy_id"), WireV::Str(p.strategy_id@)),
        (sbytes("instrument_id"), WireV::Str(p.instrument_id@)),
        (sbytes("client_order_id"), WireV::Str(p.client_order_id@)),
        (sbytes("order_side"), WireV::UInt(side_code(p.order_side))),
        (sbytes("order_type"), WireV::UInt(order_type_code(p.order_type))),
        (sbytes("quantity"), WireV::UInt(p.quantity.raw)),
        (sbytes("quantity_prec"), WireV::UInt(p.quantity.precision as u64)),
    ]
}

pub open spec fn rec_of_initialized_b(p: crate::events::OrderInitialized) -> RecordV {
    seq![
        (sbytes("price"), opt_px_raw(p.price)),
        (sbytes("price_prec"), opt_px_prec(p.price)),
        (sbytes("trigger_price"), opt_px_raw(p.trigger_price)),
        (sbytes("trigger_price_prec"), opt_px_prec(p.trigger_price)),
        (sbytes("trigger_type"), opt_trigger_wv(p.trigger_type)),
        (sbytes("time_in_force"), WireV::UInt(tif_code(p.time_in_force))),
        (sbytes("expire_time"), opt_u64_wv(p.expire_time)),
        (sbytes("post_only"), WireV::Bool(p.post_only)),
        (sbytes("reduce_only"), WireV::Bool(p.reduce_only)),
    ]
}

pub open spec fn rec_of_initialized_c(p: crate::events::OrderInitialized) -> RecordV {
    seq![
        (sbytes("display_qty"), opt_qty_raw(p.display_qty)),
        (sbytes("display_qty_prec"), opt_qty_prec(p.display_qty)),
        (sbytes("limit_offset"), opt_px_raw(p.limit_offset)),
        (sbytes("limit_offset_prec"), opt_px_prec(p.limit_offset)),
        (sbytes("trailing_offset"), opt_px_raw(p.trailing_offset)),
        (sbytes("trailing_offset_prec"), opt_px_prec(p.trailing_offset)),
        (sbytes("trailing_offset_type"), opt_trigger_wv(p.trailing_offset_type)),
        (sbytes("emulation_trigger"), opt_trigger_wv(p.emulation_trigger)),
    ]
}

pub open spec fn rec_of_initialized_d(p: crate::events::OrderInitialized) -> RecordV {
    seq![
        (sbytes("contingency_type"), opt_contingency_wv(p.contingency_type)),
        (sbytes("order_list_id"), opt_bytes_wv(p.order_list_id)),
        (sbytes("parent_order_id"), opt_bytes_wv(p.parent_order_id)),
        (sbytes("tags"), opt_raw_wv(p.tags)),
        (sbytes("event_id"), WireV::Str(p.event_id@)),
        (sbytes("ts_event"), WireV::UInt(p.ts_event)),
        (sbytes("ts_init"), WireV::UInt(p.ts_init)),
        (sbytes("reconciliation"), WireV::Bool(p.reconciliation)),
    ]
}

#[verifier::rlimit(100)]
pub broadcast proof fn lemma_rec_of_initialized_index(p: crate::events::OrderInitialized)
    ensures
        #![trigger rec_of_initialized(p)]
        rec_of_initialized(p).len() == 34,
        rec_of_initialized(p)[0] == (sbytes("type"), WireV::Str(sbytes("OrderInitialized"))),
        rec_of_initialized(p)[1] == (sbytes("trader_id"), WireV::Str(p.trader_id@)),
        rec_of_initialized(p)[2] == (sbytes("strategy_id"), WireV::Str(p.strategy_id@)),
        rec_of_initialized(p)[3] == (sbytes("instrument_id"), WireV::Str(p.instrument_id@)),
        rec_of_initialized(p)[4] == (sbytes("client_order_id"), WireV::Str(p.client_order_id@)),
        rec_of_initialized(p)[5] == (sbytes("order_side"), WireV::UInt(side_code(p.order_side))),
        rec_of_initialized(p)[6] == (sbytes("order_type"), WireV::UInt(order_type_code(p.order_type))),
        rec_of_initialized(p)[7] == (sbytes("quantity"), WireV::UInt(p.quantity.raw)),
        rec_of_initialized(p)[8] == (sbytes("quantity_prec"), WireV::UInt(p.quantity.precision as u64)),
        rec_of_initialized(p)[9] == (sbytes("price"), opt_px_raw(p.price)),
        rec_of_initialized(p)[10] == (sbytes("price_prec"), opt_px_prec(p.price)),
        rec_of_initialized(p)[11] == (sbytes("trigger_price"), opt_px_raw(p.trigger_price)),
        rec_of_initialized(p)[12] == (sbytes("trigger_price_prec"), opt_px_prec(p.trigger_price)),
        rec_of_initialized(p)[13] == (sbytes("trigger_type"), opt_trigger_wv(p.trigger_type)),
        rec_of_initialized(p)[14] == (sbytes("time_in_force"), WireV::UInt(tif_code(p.time_in_force))),
        rec_of_initialized(p)[15] == (sbytes("expire_time"), opt_u64_wv(p.expire_time)),
        rec_of_initialized(p)[16] == (sbytes("post_only"), WireV::Bool(p.post_only)),
        rec_of_initialized(p)[17] == (sbytes("reduce_only"), WireV::Bool(p.reduce_only)),
        rec_of_initialized(p)[18] == (sbytes("display_qty"), opt_qty_raw(p.display_qty)),
        rec_of_initialized(p)[19] == (sbytes("display_qty_prec"), opt_qty_prec(p.display_qty)),
        rec_of_initialized(p)[20] == (sbytes("limit_offset"), opt_px_raw(p.limit_offset)),
        rec_of_initialized(p)[21] == (sbytes("limit_offset_prec"), opt_px_prec(p.limit_offset)),
        rec_of_initialized(p)[22] == (sbytes("trailing_offset"), opt_px_raw(p.trailing_offset)),
        rec_of_initialized(p)[23] == (sbytes("trailing_offset_prec"), opt_px_prec(p.trailing_offset)),
        rec_of_initialized(p)[24] == (sbytes("trailing_offset_type"), opt_trigger_wv(p.trailing_offset_type)),
        rec_of_initialized(p)[25] == (sbytes("emulation_trigger"), opt_trigger_wv(p.emulation_trigger)),
        rec_of_initialized(p)[26] == (sbytes("contingency_type"), opt_contingency_wv(p.contingency_type)),
        rec_of_initialized(p)[27] == (sbytes("order_list_id"), opt_bytes_wv(p.order_list_id)),
        rec_of_initialized(p)[28] == (sbytes("parent_order_id"), opt_bytes_wv(p.parent_order_id)),
        rec_of_initialized(p)[29] == (sbytes("tags"), opt_raw_wv(p.tags)),
        rec_of_initialized(p)[30] == (sbytes("event_id"), WireV::Str(p.event_id@)),
        rec_of_initialized(p)[31] == (sbytes("ts_event"), WireV::UInt(p.ts_event)),
        rec_of_initialized(p)[32] == (sbytes("ts_init"), WireV::UInt(p.ts_init)),
        rec_of_initialized(p)[33] == (sbytes("reconciliation"), WireV::Bool(p.reconciliation)),
{
    assert(rec_of_initialized_a(p).len() == 9);
    assert(rec_of_initialized_b(p).len() == 9);
    assert(rec_of_initialized_c(p).len() == 8);
    assert(rec_of_initialized_d(p).len() == 8);
}

fn to_record_initialized_a(p: &crate::events::OrderInitialized) -> (r: Vec<(Vec<u8>, WireValue)>)
    ensures
        rv(r@) == rec_of_initialized_a(*p),
{
    let mut out: Vec<(Vec<u8>, WireValue)> = Vec::new();
    out.push((("type").as_bytes_vec(), WireValue::Str(("OrderInitialized").as_bytes_vec())));
    out.push((("trader_id").as_bytes_vec(), WireValue::Str(copy_bytes(&p.trader_id.value))));
    out.push((("strategy_id").as_bytes_vec(), WireValue::Str(copy_bytes(&p.strategy_id.value))));
    out.push((("instrument_id").as_bytes_vec(), WireValue::Str(copy_bytes(&p.instrument_id.value))));
    out.push((("client_order_id").as_bytes_vec(), WireValue::Str(copy_bytes(&p.client_order_id.value))));
    out.push((("order_side").as_bytes_vec(), WireValue::UInt(side_to_u64(p.order_side))));
    out.push((("order_type").as_bytes_vec(), WireValue::UInt(order_type_to_u64(p.order_type))));
    out.push((("quantity").as_bytes_vec(), WireValue::UInt(p.quantity.raw)));
    out.push((("quantity_prec").as_bytes_vec(), WireValue::UInt(p.quantity.precision as u64)));
    proof {
        assert(rv(out@) =~= rec_of_initialized_a(*p));
    }
    out
}

fn to_record_initialized_b(p: &crate::events::OrderInitialized) -> (r: Vec<(Vec<u8>, WireValue)>)
    ensures
        rv(r@) == rec_of_initialized_b(*p),
{
    let mut out: Vec<(Vec<u8>, WireValue)> = Vec::new();
    out.push((("price").as_bytes_vec(), (match &p.price { Some(q) => WireValue::UInt(q.raw), None => WireValue::Null })));
    out.push((("price_prec").as_bytes_vec(), (match &p.price { Some(q) => WireValue::UInt(q.precision as u64), None => WireValue::Null })));
    out.push((("trigger_price").as_bytes_vec(), (match &p.trigger_price { Some(q) => WireValue::UInt(q.raw), None => WireValue::Null })));
    out.push((("trigger_price_prec").as_bytes_vec(), (match &p.trigger_price { Some(q) => WireValue::UInt(q.precision as u64), None => WireValue::Null })));
    out.push((("trigger_type").as_bytes_vec(), (match p.trigger_type { Some(v) => WireValue::UInt(trigger_to_u64(v)), None => WireValue::Null })));
    out.push((("time_in_force").as_bytes_vec(), WireValue::UInt(tif_to_u64(p.time_in_force))));
    out.push((("expire_time").as_bytes_vec(), (match p.expire_time { Some(n) => WireValue::UInt(n), None => WireValue::Null })));
    out.push((("post_only").as_bytes_vec(), WireValue::Bool(p.post_only)));
    out.push((("reduce_only").as_bytes_vec(), WireValue::Bool(p.reduce_only)));
    proof {
        assert(rv(out@) =~= rec_of_initialized_b(*p));
    }
    out
}

fn to_record_initialized_c(p: &crate::events::OrderInitialized) -> (r: Vec<(Vec<u8>, WireValue)>)
    ensures
        rv(r@) == rec_of_initialized_c(*p),
{
    let mut out: Vec<(Vec<u8>, WireValue)> = Vec::new();
    out.push((("display_qty").as_bytes_vec(), (match &p.display_qty { Some(q) => WireValue::UInt(q.raw), None => WireValue::Null })));
    out.push((("display_qty_prec").as_bytes_vec(), (match &p.display_qty { Some(q) => WireValue::UInt(q.precision as u64), None => WireValue::Null })));
    out.push((("limit_offset").as_bytes_vec(), (match &p.limit_offset { Some(q) => WireValue::UInt(q.raw), None => WireValue::Null })));
    out.push((("limit_offset_prec").as_bytes_vec(), (match &p.limit_offset { Some(q) => WireValue::UInt(q.precision as u64), None => WireValue::Null })));
    out.push((("trailing_offset").as_bytes_vec(), (match &p.trailing_offset { Some(q) => WireValue::UInt(q.raw), None => WireValue::Null })));
    out.push((("trailing_offset_prec").as_bytes_vec(), (match &p.trailing_offset { Some(q) => WireValue::UInt(q.precision as u64), None => WireValue::Null })));
    out.push((("trailing_offset_type").as_bytes_vec(), (match p.trailing_offset_type { Some(v) => WireValue::UInt(trigger_to_u64(v)), None => WireValue::Null })));
    out.push((("emulation_trigger").as_bytes_vec(), (match p.emulation_trigger { Some(v) => WireValue::UInt(trigger_to_u64(v)), None => WireValue::Null })));
    proof {
        assert(rv(out@) =~= rec_of_initialized_c(*p));
    }
    out
}

fn to_record_initialized_d(p: &crate::events::OrderInitialized) -> (r: Vec<(Vec<u8>, WireValue)>)
    ensures
        rv(r@) == rec_of_initialized_d(*p),
{
    let mut out: Vec<(Vec<u8>, WireValue)> = Vec::new();
    out.push((("contingency_type").as_bytes_vec(), (match p.contingency_type { Some(v) => WireValue::UInt(contingency_to_u64(v)), None => WireValue::Null })));
    out.push((("order_list_id").as_bytes_vec(), (match &p.order_list_id { Some(v) => WireValue::Str(copy_bytes(&v.value)), None => WireValue::Null })));
    out.push((("parent_order_id").as_bytes_vec(), (match &p.parent_order_id { Some(v) => WireValue::Str(copy_bytes(&v.value)), None => WireValue::Null })));
    out.push((("tags").as_bytes_vec(), (match &p.tags { Some(v) => WireValue::Str(copy_bytes(v)), None => WireValue::Null })));
    out.push((("event_id").as_bytes_vec(), WireValue::Str(copy_bytes(&p.event_id.value))));
    out.push((("ts_event").as_bytes_vec(), WireValue::UInt(p.ts_event)));
    out.push((("ts_init").as_bytes_vec(), WireValue::UInt(p.ts_init)));
    out.push((("reconciliation").as_bytes_vec(), WireValue::Bool(p.reconciliation)));
    proof {
        assert(rv(out@) =~= rec_of_initialized_d(*p));
    }
    out
}

pub fn to_record_initialized(p: &crate::events::OrderInitialized) -> (r: Vec<(Vec<u8>, WireValue)>)
    ensures
        rv(r@) == rec_of_initialized(*p),
{
    let mut out = to_record_initialized_a(p);
    let mut out_b = to_record_initialized_b(p);
    let mut out_c = to_record_initialized_c(p);
    let mut out_d = to_record_initialized_d(p);
    let ghost ga = out@;
    let ghost gb = out_b@;
    let ghost gc = out_c@;
    let ghost gd = out_d@;
    out.append(&mut out_b);
    out.append(&mut out_c);
    out.append(&mut out_d);
    proof {
        assert(rv(out@) =~= rv(ga) + rv(gb) + rv(gc) + rv(gd));
        assert(rv(ga) + rv(gb) + rv(gc) + rv(gd) =~= rec_of_initialized(*p));
    }
    out
}

#[verifier::rlimit(100)]
#[verifier::spinoff_prover]
/// Takes an optional fixed-point value carried as a raw/precision entry
/// pair (both null when absent).
fn take_opt_px(rec: &Vec<(Vec<u8>, WireValue)>, i: &mut usize, key: &str, key_prec: &str) -> (r:
    Result<Option<Price>, FieldError>)
    requires
        *old(i) <= rec@.len(),
    ensures
        forall|o: Option<Price>|
            #![all_triggers]
            *old(i) + 1 < rec@.len() && rv(rec@)[*old(i) as int].0 == sbytes(key) && rv(
                rec@)[*old(i) as int].1 == opt_px_raw(o) && rv(rec@)[*old(i) as int + 1].0
                == sbytes(key_prec) && rv(rec@)[*old(i) as int + 1].1 == opt_px_prec(o) ==> (r
                == Ok::<Option<Price>, FieldError>(o) && *final(i) == *old(i) + 2),
        *final(i) <= rec@.len(),
{
    let raw = take_opt_u64(rec, i, key)?;
    let prec = take_opt_u64(rec, i, key_prec)?;
    match (raw, prec) {
        (None, None) => Ok(None),
        (Some(r0), Some(p0)) => {
            if p0 > 255 {
                return Err(FieldError::Invalid(key_prec.as_bytes_vec()));
            }
            Ok(Some(Price { raw: r0, precision: p0 as u8 }))
        },
        _ => Err(FieldError::Invalid(key.as_bytes_vec())),
    }
}

/// Takes an optional quantity carried as a raw/precision entry pair.
fn take_opt_qty(rec: &Vec<(Vec<u8>, WireValue)>, i: &mut usize, key: &str, key_prec: &str) -> (r:
    Result<Option<Quantity>, FieldError>)
    requires
        *old(i) <= rec@.len(),
    ensures
        forall|o: Option<Quantity>|
            #![all_triggers]
            *old(i) + 1 < rec@.len() && rv(rec@)[*old(i) as int].0 == sbytes(key) && rv(
                rec@)[*old(i) as int].1 == opt_qty_raw(o) && rv(rec@)[*old(i) as int + 1].0
                == sbytes(key_prec) && rv(rec@)[*old(i) as int + 1].1 == opt_qty_prec(o) ==> (r
                == Ok::<Option<Quantity>, FieldError>(o) && *final(i) == *old(i) + 2),
        *final(i) <= rec@.len(),
{
    let raw = take_opt_u64(rec, i, key)?;
    let prec = take_opt_u64(rec, i, key_prec)?;
    match (raw, prec) {
        (None, None) => Ok(None),
        (Some(r0), Some(p0)) => {
            if p0 > 255 {
                return Err(FieldError::Invalid(key_prec.as_bytes_vec()));
            }
            Ok(Some(Quantity { raw: r0, precision: p0 as u8 }))
        },
        _ => Err(FieldError::Invalid(key.as_bytes_vec())),
    }
}

/// Takes an optional trigger type carried as a numeric code (null when
/// absent).
fn take_opt_trigger(rec: &Vec<(Vec<u8>, WireValue)>, i: &mut usize, key: &str) -> (r: Result<
    Option<TriggerType>, FieldError>)
    requires
        *old(i) <= rec@.len(),
    ensures
        forall|o: Option<TriggerType>|
            #![all_triggers]
            *old(i) < rec@.len() && rv(rec@)[*old(i) as int].0 == sbytes(key) && rv(
                rec@)[*old(i) as int].1 == opt_trigger_wv(o) ==> (r == Ok::<Option<TriggerType>,
                FieldError>(o) && *final(i) == *old(i) + 1),
        *final(i) <= rec@.len(),
{
    broadcast use lemma_trigger_code_roundtrip;

    let c = take_opt_u64(rec, i, key)?;
    match c {
        None => Ok(None),
        Some(cc) => match trigger_of_u64(cc) {
            Some(v) => Ok(Some(v)),
            None => Err(FieldError::Invalid(key.as_bytes_vec())),
        },
    }
}

/// Takes an optional contingency type carried as a numeric code (null when
/// absent).
fn take_opt_contingency(rec: &Vec<(Vec<u8>, WireValue)>, i: &mut usize, key: &str) -> (r: Result<
    Option<ContingencyType>, FieldError>)
    requires
        *old(i) <= rec@.len(),
    ensures
        forall|o: Option<ContingencyType>|
            #![all_triggers]
            *old(i) < rec@.len() && rv(rec@)[*old(i) as int].0 == sbytes(key) && rv(
                rec@)[*old(i) as int].1 == opt_contingency_wv(o) ==> (r == Ok::<Option<
                ContingencyType>, FieldError>(o) && *final(i) == *old(i) + 1),
        *final(i) <= rec@.len(),
{
    broadcast use lemma_contingency_code_roundtrip;

    let c = take_opt_u64(rec, i, key)?;
    match c {
        None => Ok(None),
        Some(cc) => match contingency_of_u64(cc) {
            Some(v) => Ok(Some(v)),
            None => Err(FieldError::Invalid(key.as_bytes_vec())),
        },
    }
}

struct InitA {
    trader_id: Vec<u8>,
    strategy_id: Vec<u8>,
    instrument_id: Vec<u8>,
    client_order_id: Vec<u8>,
    order_side: crate::types::OrderSide,
    order_type: crate::types::OrderType,
    quantity: crate::types::Quantity,
}

spec fn init_a_matches(h: InitA, p: crate::events::OrderInitialized) -> bool {
    &&& h.trader_id@ == p.trader_id@
    &&& h.strategy_id@ == p.strategy_id@
    &&& h.instrument_id@ == p.instrument_id@
    &&& h.client_order_id@ == p.client_order_id@
    &&& h.order_side == p.order_side
    &&& h.order_type == p.order_type
    &&& h.quantity == p.quantity
}

struct InitB {
    price: Option<crate::types::Price>,
    trigger_price: Option<crate::types::Price>,
    trigger_type: Option<crate::types::TriggerType>,
    time_in_force: crate::types::TimeInForce,
    expire_time: Option<u64>,
    post_only: bool,
    reduce_only: bool,
}

spec fn init_b_matches(h: InitB, p: crate::events::OrderInitialized) -> bool {
    &&& h.price == p.price
    &&& h.trigger_price == p.trigger_price
    &&& h.trigger_type == p.trigger_type
    &&& h.time_in_force == p.time_in_force
    &&& h.expire_time == p.expire_time
    &&& h.post_only == p.post_only
    &&& h.reduce_only == p.reduce_only
}

#[verifier::rlimit(100)]
#[verifier::spinoff_prover]
fn from_record_initialized_a(rec: &Vec<(Vec<u8>, WireValue)>, i: &mut usize) -> (r: Result<
    InitA, FieldError>)
    requires
        *old(i) == 0,
    ensures
        r matches Ok(h) ==> crate::types::wf_text(h.trader_id@) && crate::types::wf_text(
            h.strategy_id@) && crate::types::wf_text(h.instrument_id@) && crate::types::wf_text(
            h.client_order_id@) && h.quantity.raw > 0,
        forall|p: crate::events::OrderInitialized|
            p.wf() && rv(rec@) == rec_of_initialized(p) ==> (r matches Ok(h) && init_a_matches(
                h, p) && *final(i) == 9),
        *final(i) <= rec@.len(),
{
    broadcast use lemma_rec_of_initialized_index;
    broadcast use group_enum_code_roundtrips;

    take_tag(rec, i)?;
    let trader_id = take_str(rec, i, "trader_id")?;
    let strategy_id = take_str(rec, i, "strategy_id")?;
    let instrument_id = take_str(rec, i, "instrument_id")?;
    let client_order_id = take_str(rec, i, "client_order_id")?;
    let order_side_c = take_u64(rec, i, "order_side")?;
    let order_side = match side_of_u64(order_side_c) {
        Some(v) => v,
        None => { return Err(FieldError::Invalid(("order_side").as_bytes_vec())); },
    };
    let order_type_c = take_u64(rec, i, "order_type")?;
    let order_type = match order_type_of_u64(order_type_c) {
        Some(v) => v,
        None => { return Err(FieldError::Invalid(("order_type").as_bytes_vec())); },
    };
    let quantity_raw = take_u64(rec, i, "quantity")?;
    let quantity_p = take_u64(rec, i, "quantity_prec")?;
    if quantity_p > 255 {
        return Err(FieldError::Invalid(("quantity_prec").as_bytes_vec()));
    }
    if quantity_raw == 0 {
        return Err(FieldError::Invalid(("quantity").as_bytes_vec()));
    }
    Ok(InitA {
        trader_id,
        strategy_id,
        instrument_id,
        client_order_id,
        order_side,
        order_type,
        quantity: crate::types::Quantity { raw: quantity_raw, precision: quantity_p as u8 },
    })
}

#[verifier::rlimit(100)]
#[verifier::spinoff_prover]
fn from_record_initialized_b(rec: &Vec<(Vec<u8>, WireValue)>, i: &mut usize) -> (r: Result<
    InitB, FieldError>)
    requires
        *old(i) <= rec@.len(),
    ensures
        forall|p: crate::events::OrderInitialized|
            p.wf() && rv(rec@) == rec_of_initialized(p) && *old(i) == 9 ==> (r matches Ok(h)
                && init_b_matches(h, p) && *final(i) == 18),
        *final(i) <= rec@.len(),
{
    broadcast use lemma_rec_of_initialized_index;
    broadcast use group_enum_code_roundtrips;

    let price = take_opt_px(rec, i, "price", "price_prec")?;
    let trigger_price = take_opt_px(rec, i, "trigger_price", "trigger_price_prec")?;
    let trigger_type = take_opt_trigger(rec, i, "trigger_type")?;
    let time_in_force_c = take_u64(rec, i, "time_in_force")?;
    let time_in_force = match tif_of_u64(time_in_force_c) {
        Some(v) => v,
        None => { return Err(FieldError::Invalid(("time_in_force").as_bytes_vec())); },
    };
    let expire_time = take_opt_u64(rec, i, "expire_time")?;
    let post_only = take_bool(rec, i, "post_only")?;
    let reduce_only = take_bool(rec, i, "reduce_only")?;
    Ok(InitB {
        price,
        trigger_price,
        trigger_type,
        time_in_force,
        expire_time,
        post_only,
        reduce_only,
    })
}

#[verifier::rlimit(100)]
#[verifier::spinoff_prover]
pub fn from_record_initialized(rec: &Vec<(Vec<u8>, WireValue)>) -> (r: Result<
    crate::events::OrderInitialized, FieldError>)
    ensures
        r matches Ok(d) ==> d.wf(),
        forall|p: crate::events::OrderInitialized|
            p.wf() && rv(rec@) == rec_of_initialized(p) ==> (r matches Ok(d)
                && rec_of_initialized(d) == rec_of_initialized(p)),
{
    broadcast use lemma_rec_of_initialized_index;

    let mut i: usize = 0;
    let ha = from_record_initialized_a(rec, &mut i)?;
    let hb = from_record_initialized_b(rec, &mut i)?;
    let display_qty = take_opt_qty(rec, &mut i, "display_qty", "display_qty_prec")?;
    let limit_offset = take_opt_px(rec, &mut i, "limit_offset", "limit_offset_prec")?;
    let trailing_offset = take_opt_px(rec, &mut i, "trailing_offset", "trailing_offset_prec")?;
    let trailing_offset_type = take_opt_trigger(rec, &mut i, "trailing_offset_type")?;
    let emulation_trigger = take_opt_trigger(rec, &mut i, "emulation_trigger")?;
    let contingency_type = take_opt_contingency(rec, &mut i, "contingency_type")?;
    let order_list_id = take_opt_str(rec, &mut i, "order_list_id")?;
    let parent_order_id = take_opt_str(rec, &mut i, "parent_order_id")?;
    let tags = take_opt_str(rec, &mut i, "tags")?;
    let event_id = take_str(rec, &mut i, "event_id")?;
    let ts_event = take_u64(rec, &mut i, "ts_event")?;
    let ts_init = take_u64(rec, &mut i, "ts_init")?;
    if ts_init < ts_event {
        return Err(FieldError::Invalid(("ts_init").as_bytes_vec()));
    }
    let reconciliation = take_bool(rec, &mut i, "reconciliation")?;
    let d = crate::events::OrderInitialized {
        trader_id: crate::types::TraderId { value: ha.trader_id },
        strategy_id: crate::types::StrategyId { value: ha.strategy_id },
        instrument_id: crate::types::InstrumentId { value: ha.instrument_id },
        client_order_id: crate::types::ClientOrderId { value: ha.client_order_id },
        order_side: ha.order_side,
        order_type: ha.order_type,
        quantity: ha.quantity,
        price: hb.price,
        trigger_price: hb.trigger_price,
        trigger_type: hb.trigger_type,
        time_in_force: hb.time_in_force,
        expire_time: hb.expire_time,
        post_only: hb.post_only,
        reduce_only: hb.reduce_only,
        display_qty,
        limit_offset,
        trailing_offset,
        trailing_offset_type,
        emulation_trigger,
        contingency_type,
        order_list_id: (match order_list_id { Some(v) => Some(crate::types::OrderListId { value: v }), None => None }),
        parent_order_id: (match parent_order_id { Some(v) => Some(crate::types::ClientOrderId { value: v }), None => None }),
        tags,
        event_id: crate::types::UUID4 { value: event_id },
        ts_event,
        ts_init,
        reconciliation,
    };
    proof {
        assert forall|p: crate::events::OrderInitialized|
            p.wf() && rv(rec@) == rec_of_initialized(p) implies rec_of_initialized(d)
            == rec_of_initialized(p) by {
            assert(rec_of_initialized_a(d) =~= rec_of_initialized_a(p));
            assert(rec_of_initialized_b(d) =~= rec_of_initialized_b(p));
            assert(rec_of_initialized_c(d) =~= rec_of_initialized_c(p));
            assert(rec_of_initialized_d(d) =~= rec_of_initialized_d(p));
        }
    }
    Ok(d)
}

/// Record form of an `OrderSubmitted` event.
pub open spec fn rec_of_submitted(p: crate::events::OrderSubmitted) -> RecordV {
    seq![
        (sbytes("type"), WireV::Str(sbytes("OrderSubmitted"))),
        (sbytes("trader_id"), WireV::Str(p.trader_id@)),
        (sbytes("strategy_id"), WireV::Str(p.strategy_id@)),
        (sbytes("instrument_id"), WireV::Str(p.instrument_id@)),
        (sbytes("client_order_id"), WireV::Str(p.client_order_id@)),
        (sbytes("account_id"), WireV::Str(p.account_id@)),
        (sbytes("event_id"), WireV::Str(p.event_id@)),
        (sbytes("ts_event"), WireV::UInt(p.ts_event)),
        (sbytes("ts_init"), WireV::UInt(p.ts_init)),
    ]
}

pub broadcast proof fn lemma_rec_of_submitted_index(p: crate::events::OrderSubmitted)
    ensures
        #![trigger rec_of_submitted(p)]
        rec_of_submitted(p).len() == 9,
        rec_of_submitted(p)[0] == (sbytes("type"), WireV::Str(sbytes("OrderSubmitted"))),
        rec_of_submitted(p)[1] == (sbytes("trader_id"), WireV::Str(p.trader_id@)),
        rec_of_submitted(p)[2] == (sbytes("strategy_id"), WireV::Str(p.strategy_id@)),
        rec_of_submitted(p)[3] == (sbytes("instrument_id"), WireV::Str(p.instrument_id@)),
        rec_of_submitted(p)[4] == (sbytes("client_order_id"), WireV::Str(p.client_order_id@)),
        rec_of_submitted(p)[5] == (sbytes("account_id"), WireV::Str(p.account_id@)),
        rec_of_submitted(p)[6] == (sbytes("event_id"), WireV::Str(p.event_id@)),
        rec_of_submitted(p)[7] == (sbytes("ts_event"), WireV::UInt(p.ts_event)),
        rec_of_submitted(p)[8] == (sbytes("ts_init"), WireV::UInt(p.ts_init)),
{
}

pub fn to_record_submitted(p: &crate::events::OrderSubmitted) -> (r: Vec<(Vec<u8>, WireValue)>)
    ensures
        rv(r@) == rec_of_submitted(*p),
{
    let mut out: Vec<(Vec<u8>, WireValue)> = Vec::new();
    out.push((("type").as_bytes_vec(), WireValue::Str(("OrderSubmitted").as_bytes_vec())));
    out.push((("trader_id").as_bytes_vec(), WireValue::Str(copy_bytes(&p.trader_id.value))));
    out.push((("strategy_id").as_bytes_vec(), WireValue::Str(copy_bytes(&p.strategy_id.value))));
    out.push((("instrument_id").as_bytes_vec(), WireValue::Str(copy_bytes(&p.instrument_id.value))));
    out.push((("client_order_id").as_bytes_vec(), WireValue::Str(copy_bytes(&p.client_order_id.value))));
    out.push((("account_id").as_bytes_vec(), WireValue::Str(copy_bytes(&p.account_id.value))));
    out.push((("event_id").as_bytes_vec(), WireValue::Str(copy_bytes(&p.event_id.value))));
    out.push((("ts_event").as_bytes_vec(), WireValue::UInt(p.ts_event)));
    out.push((("ts_init").as_bytes_vec(), WireValue::UInt(p.ts_init)));
    proof {
        assert(rv(out@) =~= rec_of_submitted(*p));
    }
    out
}

pub fn from_record_submitted(rec: &Vec<(Vec<u8>, WireValue)>) -> (r: Result<
    crate::events::OrderSubmitted, FieldError>)
    ensures
        r matches Ok(d) ==> d.wf(),
        forall|p: crate::events::OrderSubmitted|
            p.wf() && rv(rec@) == rec_of_submitted(p) ==> (r matches Ok(d) && rec_of_submitted(d)
                == rec_of_submitted(p)),
{
    broadcast use lemma_rec_of_submitted_index;
    broadcast use group_enum_code_roundtrips;

    let mut i: usize = 0;
    take_tag(rec, &mut i)?;
    let trader_id = take_str(rec, &mut i, "trader_id")?;
    let strategy_id = take_str(rec, &mut i, "strategy_id")?;
    let instrument_id = take_str(rec, &mut i, "instrument_id")?;
    let client_order_id = take_str(rec, &mut i, "client_order_id")?;
    let account_id = take_str(rec, &mut i, "account_id")?;
    let event_id = take_str(rec, &mut i, "event_id")?;
    let ts_event = take_u64(rec, &mut i, "ts_event")?;
    let ts_init = take_u64(rec, &mut i, "ts_init")?;
    if ts_init < ts_event {
        return Err(FieldError::Invalid(("ts_init").as_bytes_vec()));
    }
    let d = crate::events::OrderSubmitted {
        trader_id: crate::types::TraderId { value: trader_id },
        strategy_id: crate::types::StrategyId { value: strategy_id },
        instrument_id: crate::types::InstrumentId { value: instrument_id },
        client_order_id: crate::types::ClientOrderId { value: client_order_id },
        account_id: crate::types::AccountId { value: account_id },
        event_id: crate::types::UUID4 { value: event_id },
        ts_event,
        ts_init,
    };
    proof {
        assert forall|p: crate::events::OrderSubmitted|
            p.wf() && rv(rec@) == rec_of_submitted(p) implies rec_of_submitted(d) == rec_of_submitted(
            p) by {
            assert(rec_of_submitted(d) =~= rec_of_submitted(p));
        }
    }
    Ok(d)
}

/// Record form of an `OrderAccepted` event.
pub open spec fn rec_of_accepted(p: crate::events::OrderAccepted) -> RecordV {
    seq![
        (sbytes("type"), WireV::Str(sbytes("OrderAccepted"))),
        (sbytes("trader_id"), WireV::Str(p.trader_id@)),
        (sbytes("strategy_id"), WireV::Str(p.strategy_id@)),
        (sbytes("instrument_id"), WireV::Str(p.instrument_id@)),
        (sbytes("client_order_id"), WireV::Str(p.client_order_id@)),
        (sbytes("venue_order_id"), WireV::Str(p.venue_order_id@)),
        (sbytes("account_id"), WireV::Str(p.account_id@)),
        (sbytes("event_id"), WireV::Str(p.event_id@)),
        (sbytes("ts_event"), WireV::UInt(p.ts_event)),
        (sbytes("ts_init"), WireV::UInt(p.ts_init)),
        (sbytes("reconciliation"), WireV::Bool(p.reconciliation)),
    ]
}

pub broadcast proof fn lemma_rec_of_accepted_index(p: crate::events::OrderAccepted)
    ensures
        #![trigger rec_of_accepted(p)]
        rec_of_accepted(p).len() == 11,
        rec_of_accepted(p)[0] == (sbytes("type"), WireV::Str(sbytes("OrderAccepted"))),
        rec_of_accepted(p)[1] == (sbytes("trader_id"), WireV::Str(p.trader_id@)),
        rec_of_accepted(p)[2] == (sbytes("strategy_id"), WireV::Str(p.strategy_id@)),
        rec_of_accepted(p)[3] == (sbytes("instrument_id"), WireV::Str(p.instrument_id@)),
        rec_of_accepted(p)[4] == (sbytes("client_order_id"), WireV::Str(p.client_order_id@)),
        rec_of_accepted(p)[5] == (sbytes("venue_order_id"), WireV::Str(p.venue_order_id@)),
        rec_of_accepted(p)[6] == (sbytes("account_id"), WireV::Str(p.account_id@)),
        rec_of_accepted(p)[7] == (sbytes("event_id"), WireV::Str(p.event_id@)),
        rec_of_accepted(p)[8] == (sbytes("ts_event"), WireV::UInt(p.ts_event)),
        rec_of_accepted(p)[9] == (sbytes("ts_init"), WireV::UInt(p.ts_init)),
        rec_of_accepted(p)[10] == (sbytes("reconciliation"), WireV::Bool(p.reconciliation)),
{
}

pub fn to_record_accepted(p: &crate::events::OrderAccepted) -> (r: Vec<(Vec<u8>, WireValue)>)
    ensures
        rv(r@) == rec_of_accepted(*p),
{
    let mut out: Vec<(Vec<u8>, WireValue)> = Vec::new();
    out.push((("type").as_bytes_vec(), WireValue::Str(("OrderAccepted").as_bytes_vec())));
    out.push((("trader_id").as_bytes_vec(), WireValue::Str(copy_bytes(&p.trader_id.value))));
    out.push((("strategy_id").as_bytes_vec(), WireValue::Str(copy_bytes(&p.strategy_id.value))));
    out.push((("instrument_id").as_bytes_vec(), WireValue::Str(copy_bytes(&p.instrument_id.value))));
    out.push((("client_order_id").as_bytes_vec(), WireValue::Str(copy_bytes(&p.client_order_id.value))));
    out.push((("venue_order_id").as_bytes_vec(), WireValue::Str(copy_bytes(&p.venue_order_id.value))));
    out.push((("account_id").as_bytes_vec(), WireValue::Str(copy_bytes(&p.account_id.value))));
    out.push((("event_id").as_bytes_vec(), WireValue::Str(copy_bytes(&p.event_id.value))));
    out.push((("ts_event").as_bytes_vec(), WireValue::UInt(p.ts_event)));
    out.push((("ts_init").as_bytes_vec(), WireValue::UInt(p.ts_init)));
    out.push((("reconciliation").as_bytes_vec(), WireValue::Bool(p.reconciliation)));
    proof {
        assert(rv(out@) =~= rec_of_accepted(*p));
    }
    out
}

pub fn from_record_accepted(rec: &Vec<(Vec<u8>, WireValue)>) -> (r: Result<
    crate::events::OrderAccepted, FieldError>)
    ensures
        r matches Ok(d) ==> d.wf(),
        forall|p: crate::events::OrderAccepted|
            p.wf() && rv(rec@) == rec_of_accepted(p) ==> (r matches Ok(d) && rec_of_accepted(d)
                == rec_of_accepted(p)),
{
    broadcast use lemma_rec_of_accepted_index;
    broadcast use group_enum_code_roundtrips;

    let mut i: usize = 0;
    take_tag(rec, &mut i)?;
    let trader_id = take_str(rec, &mut i, "trader_id")?;
    let strategy_id = take_str(rec, &mut i, "strategy_id")?;
    let instrument_id = take_str(rec, &mut i, "instrument_id")?;
    let client_order_id = take_str(rec, &mut i, "client_order_id")?;
    let venue_order_id = take_str(rec, &mut i, "venue_order_id")?;
    let account_id = take_str(rec, &mut i, "account_id")?;
    let event_id = take_str(rec, &mut i, "event_id")?;
    let ts_event = take_u64(rec, &mut i, "ts_event")?;
    let ts_init = take_u64(rec, &mut i, "ts_init")?;
    if ts_init < ts_event {
        return Err(FieldError::Invalid(("ts_init").as_bytes_vec()));
    }
    let reconciliation = take_bool(rec, &mut i, "reconciliation")?;
    let d = crate::events::OrderAccepted {
        trader_id: crate::types::TraderId { value: trader_id },
        strategy_id: crate::types::StrategyId { value: strategy_id },
        instrument_id: crate::types::InstrumentId { value: instrument_id },
        client_order_id: crate::types::ClientOrderId { value: client_order_id },
        venue_order_id: crate::types::VenueOrderId { value: venue_order_id },
        account_id: crate::types::AccountId { value: account_id },
        event_id: crate::types::UUID4 { value: event_id },
        ts_event,
        ts_init,
        reconciliation,
    };
    proof {
        assert forall|p: crate::events::OrderAccepted|
            p.wf() && rv(rec@) == rec_of_accepted(p) implies rec_of_accepted(d) == rec_of_accepted(
            p) by {
            assert(rec_of_accepted(d) =~= rec_of_accepted(p));
        }
    }
    Ok(d)
}

/// Record form of an `OrderRejected` event.
pub open spec fn rec_of_rejected(p: crate::events::OrderRejected) -> RecordV {
    seq![
        (sbytes("type"), WireV::Str(sbytes("OrderRejected"))),
        (sbytes("trader_id"), WireV::Str(p.trader_id@)),
        (sbytes("strategy_id"), WireV::Str(p.strategy_id@)),
        (sbytes("instrument_id"), WireV::Str(p.instrument_id@)),
        (sbytes("client_order_id"), WireV::Str(p.client_order_id@)),
        (sbytes("venue_order_id"), WireV::Str(p.venue_order_id@)),
        (sbytes("account_id"), WireV::Str(p.account_id@)),
        (sbytes("reason"), WireV::Str(p.reason@)),
        (sbytes("event_id"), WireV::Str(p.event_id@)),
        (sbytes("ts_event"), WireV::UInt(p.ts_event)),
        (sbytes("ts_init"), WireV::UInt(p.ts_init)),
        (sbytes("reconciliation"), WireV::Bool(p.reconciliation)),
    ]
}

pub broadcast proof fn lemma_rec_of_rejected_index(p: crate::events::OrderRejected)
    ensures
        #![trigger rec_of_rejected(p)]
        rec_of_rejected(p).len() == 12,
        rec_of_rejected(p)[0] == (sbytes("type"), WireV::Str(sbytes("OrderRejected"))),
        rec_of_rejected(p)[1] == (sbytes("trader_id"), WireV::Str(p.trader_id@)),
        rec_of_rejected(p)[2] == (sbytes("strategy_id"), WireV::Str(p.strategy_id@)),
        rec_of_rejected(p)[3] == (sbytes("instrument_id"), WireV::Str(p.instrument_id@)),
        rec_of_rejected(p)[4] == (sbytes("client_order_id"), WireV::Str(p.client_order_id@)),
        rec_of_rejected(p)[5] == (sbytes("venue_order_id"), WireV::Str(p.venue_order_id@)),
        rec_of_rejected(p)[6] == (sbytes("account_id"), WireV::Str(p.account_id@)),
        rec_of_rejected(p)[7] == (sbytes("reason"), WireV::Str(p.reason@)),
        rec_of_rejected(p)[8] == (sbytes("event_id"), WireV::Str(p.event_id@)),
        rec_of_rejected(p)[9] == (sbytes("ts_event"), WireV::UInt(p.ts_event)),
        rec_of_rejected(p)[10] == (sbytes("ts_init"), WireV::UInt(p.ts_init)),
        rec_of_rejected(p)[11] == (sbytes("reconciliation"), WireV::Bool(p.reconciliation)),
{
}

pub fn to_record_rejected(p: &crate::events::OrderRejected) -> (r: Vec<(Vec<u8>, WireValue)>)
    ensures
        rv(r@) == rec_of_rejected(*p),
{
    let mut out: Vec<(Vec<u8>, WireValue)> = Vec::new();
    out.push((("type").as_bytes_vec(), WireValue::Str(("OrderRejected").as_bytes_vec())));
    out.push((("trader_id").as_bytes_vec(), WireValue::Str(copy_bytes(&p.trader_id.value))));
    out.push((("strategy_id").as_bytes_vec(), WireValue::Str(copy_bytes(&p.strategy_id.value))));
    out.push((("instrument_id").as_bytes_vec(), WireValue::Str(copy_bytes(&p.instrument_id.value))));
    out.push((("client_order_id").as_bytes_vec(), WireValue::Str(copy_bytes(&p.client_order_id.value))));
    out.push((("venue_order_id").as_bytes_vec(), WireValue::Str(copy_bytes(&p.venue_order_id.value))));
    out.push((("account_id").as_bytes_vec(), WireValue::Str(copy_bytes(&p.account_id.value))));
    out.push((("reason").as_bytes_vec(), WireValue::Str(copy_bytes(&p.reason))));
    out.push((("event_id").as_bytes_vec(), WireValue::Str(copy_bytes(&p.event_id.value))));
    out.push((("ts_event").as_bytes_vec(), WireValue::UInt(p.ts_event)));
    out.push((("ts_init").as_bytes_vec(), WireValue::UInt(p.ts_init)));
    out.push((("reconciliation").as_bytes_vec(), WireValue::Bool(p.reconciliation)));
    proof {
        assert(rv(out@) =~= rec_of_rejected(*p));
    }
    out
}

pub fn from_record_rejected(rec: &Vec<(Vec<u8>, WireValue)>) -> (r: Result<
    crate::events::OrderRejected, FieldError>)
    ensures
        r matches Ok(d) ==> d.wf(),
        forall|p: crate::events::OrderRejected|
            p.wf() && rv(rec@) == rec_of_rejected(p) ==> (r matches Ok(d) && rec_of_rejected(d)
                == rec_of_rejected(p)),
{
    broadcast use lemma_rec_of_rejected_index;
    broadcast use group_enum_code_roundtrips;

    let mut i: usize = 0;
    take_tag(rec, &mut i)?;
    let trader_id = take_str(rec, &mut i, "trader_id")?;
    let strategy_id = take_str(rec, &mut i, "strategy_id")?;
    let instrument_id = take_str(rec, &mut i, "instrument_id")?;
    let client_order_id = take_str(rec, &mut i, "client_order_id")?;
    let venue_order_id = take_str(rec, &mut i, "venue_order_id")?;
    let account_id = take_str(rec, &mut i, "account_id")?;
    let reason = take_str(rec, &mut i, "reason")?;
    let event_id = take_str(rec, &mut i, "event_id")?;
    let ts_event = take_u64(rec, &mut i, "ts_event")?;
    let ts_init = take_u64(rec, &mut i, "ts_init")?;
    if ts_init < ts_event {
        return Err(FieldError::Invalid(("ts_init").as_bytes_vec()));
    }
    let reconciliation = take_bool(rec, &mut i, "reconciliation")?;
    let d = crate::events::OrderRejected {
        trader_id: crate::types::TraderId { value: trader_id },
        strategy_id: crate::types::StrategyId { value: strategy_id },
        instrument_id: crate::types::InstrumentId { value: instrument_id },
        client_order_id: crate::types::ClientOrderId { value: client_order_id },
        venue_order_id: crate::types::VenueOrderId { value: venue_order_id },
        account_id: crate::types::AccountId { value: account_id },
        reason,
        event_id: crate::types::UUID4 { value: event_id },
        ts_event,
        ts_init,
        reconciliation,
    };
    proof {
        assert forall|p: crate::events::OrderRejected|
            p.wf() && rv(rec@) == rec_of_rejected(p) implies rec_of_rejected(d) == rec_of_rejected(
            p) by {
            assert(rec_of_rejected(d) =~= rec_of_rejected(p));
        }
    }
    Ok(d)
}

/// Record form of an `OrderCanceled` event.
pub open spec fn rec_of_canceled(p: crate::events::OrderCanceled) -> RecordV {
    seq![
        (sbytes("type"), WireV::Str(sbytes("OrderCanceled"))),
        (sbytes("trader_id"), WireV::Str(p.trader_id@)),
        (sbytes("strategy_id"), WireV::Str(p.strategy_id@)),
        (sbytes("instrument_id"), WireV::Str(p.instrument_id@)),
        (sbytes("client_order_id"), WireV::Str(p.client_order_id@)),
        (sbytes("venue_order_id"), opt_bytes_wv(p.venue_order_id)),
        (sbytes("account_id"), opt_bytes_wv(p.account_id)),
        (sbytes("event_id"), WireV::Str(p.event_id@)),
        (sbytes("ts_event"), WireV::UInt(p.ts_event)),
        (sbytes("ts_init"), WireV::UInt(p.ts_init)),
        (sbytes("reconciliation"), WireV::Bool(p.reconciliation)),
    ]
}

pub broadcast proof fn lemma_rec_of_canceled_index(p: crate::events::OrderCanceled)
    ensures
        #![trigger rec_of_canceled(p)]
        rec_of_canceled(p).len() == 11,
        rec_of_canceled(p)[0] == (sbytes("type"), WireV::Str(sbytes("OrderCanceled"))),
        rec_of_canceled(p)[1] == (sbytes("trader_id"), WireV::Str(p.trader_id@)),
        rec_of_canceled(p)[2] == (sbytes("strategy_id"), WireV::Str(p.strategy_id@)),
        rec_of_canceled(p)[3] == (sbytes("instrument_id"), WireV::Str(p.instrument_id@)),
        rec_of_canceled(p)[4] == (sbytes("client_order_id"), WireV::Str(p.client_order_id@)),
        rec_of_canceled(p)[5] == (sbytes("venue_order_id"), opt_bytes_wv(p.venue_order_id)),
        rec_of_canceled(p)[6] == (sbytes("account_id"), opt_bytes_wv(p.account_id)),
        rec_of_canceled(p)[7] == (sbytes("event_id"), WireV::Str(p.event_id@)),
        rec_of_canceled(p)[8] == (sbytes("ts_event"), WireV::UInt(p.ts_event)),
        rec_of_canceled(p)[9] == (sbytes("ts_init"), WireV::UInt(p.ts_init)),
        rec_of_canceled(p)[10] == (sbytes("reconciliation"), WireV::Bool(p.reconciliation)),
{
}

pub fn to_record_canceled(p: &crate::events::OrderCanceled) -> (r: Vec<(Vec<u8>, WireValue)>)
    ensures
        rv(r@) == rec_of_canceled(*p),
{
    let mut out: Vec<(Vec<u8>, WireValue)> = Vec::new();
    out.push((("type").as_bytes_vec(), WireValue::Str(("OrderCanceled").as_bytes_vec())));
    out.push((("trader_id").as_bytes_vec(), WireValue::Str(copy_bytes(&p.trader_id.value))));
    out.push((("strategy_id").as_bytes_vec(), WireValue::Str(copy_bytes(&p.strategy_id.value))));
    out.push((("instrument_id").as_bytes_vec(), WireValue::Str(copy_bytes(&p.instrument_id.value))));
    out.push((("client_order_id").as_bytes_vec(), WireValue::Str(copy_bytes(&p.client_order_id.value))));
    out.push((("venue_order_id").as_bytes_vec(), (match &p.venue_order_id { Some(v) => WireValue::Str(copy_bytes(&v.value)), None => WireValue::Null })));
    out.push((("account_id").as_bytes_vec(), (match &p.account_id { Some(v) => WireValue::Str(copy_bytes(&v.value)), None => WireValue::Null })));
    out.push((("event_id").as_bytes_vec(), WireValue::Str(copy_bytes(&p.event_id.value))));
    out.push((("ts_event").as_bytes_vec(), WireValue::UInt(p.ts_event)));
    out.push((("ts_init").as_bytes_vec(), WireValue::UInt(p.ts_init)));
    out.push((("reconciliation").as_bytes_vec(), WireValue::Bool(p.reconciliation)));
    proof {
        assert(rv(out@) =~= rec_of_canceled(*p));
    }
    out
}

pub fn from_record_canceled(rec: &Vec<(Vec<u8>, WireValue)>) -> (r: Result<
    crate::events::OrderCanceled, FieldError>)
    ensures
        r matches Ok(d) ==> d.wf(),
        forall|p: crate::events::OrderCanceled|
            p.wf() && rv(rec@) == rec_of_canceled(p) ==> (r matches Ok(d) && rec_of_canceled(d)
                == rec_of_canceled(p)),
{
    broadcast use lemma_rec_of_canceled_index;
    broadcast use group_enum_code_roundtrips;

    let mut i: usize = 0;
    take_tag(rec, &mut i)?;
    let trader_id = take_str(rec, &mut i, "trader_id")?;
    let strategy_id = take_str(rec, &mut i, "strategy_id")?;
    let instrument_id = take_str(rec, &mut i, "instrument_id")?;
    let client_order_id = take_str(rec, &mut i, "client_order_id")?;
    let venue_order_id = take_opt_str(rec, &mut i, "venue_order_id")?;
    let account_id = take_opt_str(rec, &mut i, "account_id")?;
    let event_id = take_str(rec, &mut i, "event_id")?;
    let ts_event = take_u64(rec, &mut i, "ts_event")?;
    let ts_init = take_u64(rec, &mut i, "ts_init")?;
    if ts_init < ts_event {
        return Err(FieldError::Invalid(("ts_init").as_bytes_vec()));
    }
    let reconciliation = take_bool(rec, &mut i, "reconciliation")?;
    let d = crate::events::OrderCanceled {
        trader_id: crate::types::TraderId { value: trader_id },
        strategy_id: crate::types::StrategyId { value: strategy_id },
        instrument_id: crate::types::InstrumentId { value: instrument_id },
        client_order_id: crate::types::ClientOrderId { value: client_order_id },
        venue_order_id: (match venue_order_id { Some(v) => Some(crate::types::VenueOrderId { value: v }), None => None }),
        account_id: (match account_id { Some(v) => Some(crate::types::AccountId { value: v }), None => None }),
        event_id: crate::types::UUID4 { value: event_id },
        ts_event,
        ts_init,
        reconciliation,
    };
    proof {
        assert forall|p: crate::events::OrderCanceled|
            p.wf() && rv(rec@) == rec_of_canceled(p) implies rec_of_canceled(d) == rec_of_canceled(
            p) by {
            assert(rec_of_canceled(d) =~= rec_of_canceled(p));
        }
    }
    Ok(d)
}

/// Record form of an `OrderExpired` event.
pub open spec fn rec_of_expired(p: crate::events::OrderExpired) -> RecordV {
    seq![
        (sbytes("type"), WireV::Str(sbytes("OrderExpired"))),
        (sbytes("trader_id"), WireV::Str(p.trader_id@)),
        (sbytes("strategy_id"), WireV::Str(p.strategy_id@)),
        (sbytes("instrument_id"), WireV::Str(p.instrument_id@)),
        (sbytes("client_order_id"), WireV::Str(p.client_order_id@)),
        (sbytes("venue_order_id"), opt_bytes_wv(p.venue_order_id)),
        (sbytes("account_id"), opt_bytes_wv(p.account_id)),
        (sbytes("event_id"), WireV::Str(p.event_id@)),
        (sbytes("ts_event"), WireV::UInt(p.ts_event)),
        (sbytes("ts_init"), WireV::UInt(p.ts_init)),
        (sbytes("reconciliation"), WireV::Bool(p.reconciliation)),
    ]
}

pub broadcast proof fn lemma_rec_of_expired_index(p: crate::events::OrderExpired)
    ensures
        #![trigger rec_of_expired(p)]
        rec_of_expired(p).len() == 11,
        rec_of_expired(p)[0] == (sbytes("type"), WireV::Str(sbytes("OrderExpired"))),
        rec_of_expired(p)[1] == (sbytes("trader_id"), WireV::Str(p.trader_id@)),
        rec_of_expired(p)[2] == (sbytes("strategy_id"), WireV::Str(p.strategy_id@)),
        rec_of_expired(p)[3] == (sbytes("instrument_id"), WireV::Str(p.instrument_id@)),
        rec_of_expired(p)[4] == (sbytes("client_order_id"), WireV::Str(p.client_order_id@)),
        rec_of_expired(p)[5] == (sbytes("venue_order_id"), opt_bytes_wv(p.venue_order_id)),
        rec_of_expired(p)[6] == (sbytes("account_id"), opt_bytes_wv(p.account_id)),
        rec_of_expired(p)[7] == (sbytes("event_id"), WireV::Str(p.event_id@)),
        rec_of_expired(p)[8] == (sbytes("ts_event"), WireV::UInt(p.ts_event)),
        rec_of_expired(p)[9] == (sbytes("ts_init"), WireV::UInt(p.ts_init)),
        rec_of_expired(p)[10] == (sbytes("reconciliation"), WireV::Bool(p.reconciliation)),
{
}

pub fn to_record_expired(p: &crate::events::OrderExpired) -> (r: Vec<(Vec<u8>, WireValue)>)
    ensures
        rv(r@) == rec_of_expired(*p),
{
    let mut out: Vec<(Vec<u8>, WireValue)> = Vec::new();
    out.push((("type").as_bytes_vec(), WireValue::Str(("OrderExpired").as_bytes_vec())));
    out.push((("trader_id").as_bytes_vec(), WireValue::Str(copy_bytes(&p.trader_id.value))));
    out.push((("strategy_id").as_bytes_vec(), WireValue::Str(copy_bytes(&p.strategy_id.value))));
    out.push((("instrument_id").as_bytes_vec(), WireValue::Str(copy_bytes(&p.instrument_id.value))));
    out.push((("client_order_id").as_bytes_vec(), WireValue::Str(copy_bytes(&p.client_order_id.value))));
    out.push((("venue_order_id").as_bytes_vec(), (match &p.venue_order_id { Some(v) => WireValue::Str(copy_bytes(&v.value)), None => WireValue::Null })));
    out.push((("account_id").as_bytes_vec(), (match &p.account_id { Some(v) => WireValue::Str(copy_bytes(&v.value)), None => WireValue::Null })));
    out.push((("event_id").as_bytes_vec(), WireValue::Str(copy_bytes(&p.event_id.value))));
    out.push((("ts_event").as_bytes_vec(), WireValue::UInt(p.ts_event)));
    out.push((("ts_init").as_bytes_vec(), WireValue::UInt(p.ts_init)));
    out.push((("reconciliation").as_bytes_vec(), WireValue::Bool(p.reconciliation)));
    proof {
        assert(rv(out@) =~= rec_of_expired(*p));
    }
    out
}

pub fn from_record_expired(rec: &Vec<(Vec<u8>, WireValue)>) -> (r: Result<
    crate::events::OrderExpired, FieldError>)
    ensures
        r matches Ok(d) ==> d.wf(),
        forall|p: crate::events::OrderExpired|
            p.wf() && rv(rec@) == rec_of_expired(p) ==> (r matches Ok(d) && rec_of_expired(d)
                == rec_of_expired(p)),
{
    broadcast use lemma_rec_of_expired_index;
    broadcast use group_enum_code_roundtrips;

    let mut i: usize = 0;
    take_tag(rec, &mut i)?;
    let trader_id = take_str(rec, &mut i, "trader_id")?;
    let strategy_id = take_str(rec, &mut i, "strategy_id")?;
    let instrument_id = take_str(rec, &mut i, "instrument_id")?;
    let client_order_id = take_str(rec, &mut i, "client_order_id")?;
    let venue_order_id = take_opt_str(rec, &mut i, "venue_order_id")?;
    let account_id = take_opt_str(rec, &mut i, "account_id")?;
    let event_id = take_str(rec, &mut i, "event_id")?;
    let ts_event = take_u64(rec, &mut i, "ts_event")?;
    let ts_init = take_u64(rec, &mut i, "ts_init")?;
    if ts_init < ts_event {
        return Err(FieldError::Invalid(("ts_init").as_bytes_vec()));
    }
    let reconciliation = take_bool(rec, &mut i, "reconciliation")?;
    let d = crate::events::OrderExpired {
        trader_id: crate::types::TraderId { value: trader_id },
        strategy_id: crate::types::StrategyId { value: strategy_id },
        instrument_id: crate::types::InstrumentId { value: instrument_id },
        client_order_id: crate::types::ClientOrderId { value: client_order_id },
        venue_order_id: (match venue_order_id { Some(v) => Some(crate::types::VenueOrderId { value: v }), None => None }),
        account_id: (match account_id { Some(v) => Some(crate::types::AccountId { value: v }), None => None }),
        event_id: crate::types::UUID4 { value: event_id },
        ts_event,
        ts_init,
        reconciliation,
    };
    proof {
        assert forall|p: crate::events::OrderExpired|
            p.wf() && rv(rec@) == rec_of_expired(p) implies rec_of_expired(d) == rec_of_expired(
            p) by {
            assert(rec_of_expired(d) =~= rec_of_expired(p));
        }
    }
    Ok(d)
}

/// Record form of an `OrderTriggered` event.
pub open spec fn rec_of_triggered(p: crate::events::OrderTriggered) -> RecordV {
    seq![
        (sbytes("type"), WireV::Str(sbytes("OrderTriggered"))),
        (sbytes("trader_id"), WireV::Str(p.trader_id@)),
        (sbytes("strategy_id"), WireV::Str(p.strategy_id@)),
        (sbytes("instrument_id"), WireV::Str(p.instrument_id@)),
        (sbytes("client_order_id"), WireV::Str(p.client_order_id@)),
        (sbytes("venue_order_id"), opt_bytes_wv(p.venue_order_id)),
        (sbytes("account_id"), opt_bytes_wv(p.account_id)),
        (sbytes("event_id"), WireV::Str(p.event_id@)),
        (sbytes("ts_event"), WireV::UInt(p.ts_event)),
        (sbytes("ts_init"), WireV::UInt(p.ts_init)),
        (sbytes("reconciliation"), WireV::Bool(p.reconciliation)),
    ]
}

pub broadcast proof fn lemma_rec_of_triggered_index(p: crate::events::OrderTriggered)
    ensures
        #![trigger rec_of_triggered(p)]
        rec_of_triggered(p).len() == 11,
        rec_of_triggered(p)[0] == (sbytes("type"), WireV::Str(sbytes("OrderTriggered"))),
        rec_of_triggered(p)[1] == (sbytes("trader_id"), WireV::Str(p.trader_id@)),
        rec_of_triggered(p)[2] == (sbytes("strategy_id"), WireV::Str(p.strategy_id@)),
        rec_of_triggered(p)[3] == (sbytes("instrument_id"), WireV::Str(p.instrument_id@)),
        rec_of_triggered(p)[4] == (sbytes("client_order_id"), WireV::Str(p.client_order_id@)),
        rec_of_triggered(p)[5] == (sbytes("venue_order_id"), opt_bytes_wv(p.venue_order_id)),
        rec_of_triggered(p)[6] == (sbytes("account_id"), opt_bytes_wv(p.account_id)),
        rec_of_triggered(p)[7] == (sbytes("event_id"), WireV::Str(p.event_id@)),
        rec_of_triggered(p)[8] == (sbytes("ts_event"), WireV::UInt(p.ts_event)),
        rec_of_triggered(p)[9] == (sbytes("ts_init"), WireV::UInt(p.ts_init)),
        rec_of_triggered(p)[10] == (sbytes("reconciliation"), WireV::Bool(p.reconciliation)),
{
}

pub fn to_record_triggered(p: &crate::events::OrderTriggered) -> (r: Vec<(Vec<u8>, WireValue)>)
    ensures
        rv(r@) == rec_of_triggered(*p),
{
    let mut out: Vec<(Vec<u8>, WireValue)> = Vec::new();
    out.push((("type").as_bytes_vec(), WireValue::Str(("OrderTriggered").as_bytes_vec())));
    out.push((("trader_id").as_bytes_vec(), WireValue::Str(copy_bytes(&p.trader_id.value))));
    out.push((("strategy_id").as_bytes_vec(), WireValue::Str(copy_bytes(&p.strategy_id.value))));
    out.push((("instrument_id").as_bytes_vec(), WireValue::Str(copy_bytes(&p.instrument_id.value))));
    out.push((("client_order_id").as_bytes_vec(), WireValue::Str(copy_bytes(&p.client_order_id.value))));
    out.push((("venue_order_id").as_bytes_vec(), (match &p.venue_order_id { Some(v) => WireValue::Str(copy_bytes(&v.value)), None => WireValue::Null })));
    out.push((("account_id").as_bytes_vec(), (match &p.account_id { Some(v) => WireValue::Str(copy_bytes(&v.value)), None => WireValue::Null })));
    out.push((("event_id").as_bytes_vec(), WireValue::Str(copy_bytes(&p.event_id.value))));
    out.push((("ts_event").as_bytes_vec(), WireValue::UInt(p.ts_event)));
    out.push((("ts_init").as_bytes_vec(), WireValue::UInt(p.ts_init)));
    out.push((("reconciliation").as_bytes_vec(), WireValue::Bool(p.reconciliation)));
    proof {
        assert(rv(out@) =~= rec_of_triggered(*p));
    }
    out
}

pub fn from_record_triggered(rec: &Vec<(Vec<u8>, WireValue)>) -> (r: Result<
    crate::events::OrderTriggered, FieldError>)
    ensures
        r matches Ok(d) ==> d.wf(),
        forall|p: crate::events::OrderTriggered|
            p.wf() && rv(rec@) == rec_of_triggered(p) ==> (r matches Ok(d) && rec_of_triggered(d)
                == rec_of_triggered(p)),
{
    broadcast use lemma_rec_of_triggered_index;
    broadcast use group_enum_code_roundtrips;

    let mut i: usize = 0;
    take_tag(rec, &mut i)?;
    let trader_id = take_str(rec, &mut i, "trader_id")?;
    let strategy_id = take_str(rec, &mut i, "strategy_id")?;
    let instrument_id = take_str(rec, &mut i, "instrument_id")?;
    let client_order_id = take_str(rec, &mut i, "client_order_id")?;
    let venue_order_id = take_opt_str(rec, &mut i, "venue_order_id")?;
    let account_id = take_opt_str(rec, &mut i, "account_id")?;
    let event_id = take_str(rec, &mut i, "event_id")?;
    let ts_event = take_u64(rec, &mut i, "ts_event")?;
    let ts_init = take_u64(rec, &mut i, "ts_init")?;
    if ts_init < ts_event {
        return Err(FieldError::Invalid(("ts_init").as_bytes_vec()));
    }
    let reconciliation = take_bool(rec, &mut i, "reconciliation")?;
    let d = crate::events::OrderTriggered {
        trader_id: crate::types::TraderId { value: trader_id },
        strategy_id: crate::types::StrategyId { value: strategy_id },
        instrument_id: crate::types::InstrumentId { value: instrument_id },
        client_order_id: crate::types::ClientOrderId { value: client_order_id },
        venue_order_id: (match venue_order_id { Some(v) => Some(crate::types::VenueOrderId { value: v }), None => None }),
        account_id: (match account_id { Some(v) => Some(crate::types::AccountId { value: v }), None => None }),
        event_id: crate::types::UUID4 { value: event_id },
        ts_event,
        ts_init,
        reconciliation,
    };
    proof {
        assert forall|p: crate::events::OrderTriggered|
            p.wf() && rv(rec@) == rec_of_triggered(p) implies rec_of_triggered(d) == rec_of_triggered(
            p) by {
            assert(rec_of_triggered(d) =~= rec_of_triggered(p));
        }
    }
    Ok(d)
}

/// Record form of an `OrderPendingUpdate` event.
pub open spec fn rec_of_pending_update(p: crate::events::OrderPendingUpdate) -> RecordV {
    seq![
        (sbytes("type"), WireV::Str(sbytes("OrderPendingUpdate"))),
        (sbytes("trader_id"), WireV::Str(p.trader_id@)),
        (sbytes("strategy_id"), WireV::Str(p.strategy_id@)),
        (sbytes("instrument_id"), WireV::Str(p.instrument_id@)),
        (sbytes("client_order_id"), WireV::Str(p.client_order_id@)),
        (sbytes("venue_order_id"), opt_bytes_wv(p.venue_order_id)),
        (sbytes("account_id"), WireV::Str(p.account_id@)),
        (sbytes("event_id"), WireV::Str(p.event_id@)),
        (sbytes("ts_event"), WireV::UInt(p.ts_event)),
        (sbytes("ts_init"), WireV::UInt(p.ts_init)),
        (sbytes("reconciliation"), WireV::Bool(p.reconciliation)),
    ]
}

pub broadcast proof fn lemma_rec_of_pending_update_index(p: crate::events::OrderPendingUpdate)
    ensures
        #![trigger rec_of_pending_update(p)]
        rec_of_pending_update(p).len() == 11,
        rec_of_pending_update(p)[0] == (sbytes("type"), WireV::Str(sbytes("OrderPendingUpdate"))),
        rec_of_pending_update(p)[1] == (sbytes("trader_id"), WireV::Str(p.trader_id@)),
        rec_of_pending_update(p)[2] == (sbytes("strategy_id"), WireV::Str(p.strategy_id@)),
        rec_of_pending_update(p)[3] == (sbytes("instrument_id"), WireV::Str(p.instrument_id@)),
        rec_of_pending_update(p)[4] == (sbytes("client_order_id"), WireV::Str(p.client_order_id@)),
        rec_of_pending_update(p)[5] == (sbytes("venue_order_id"), opt_bytes_wv(p.venue_order_id)),
        rec_of_pending_update(p)[6] == (sbytes("account_id"), WireV::Str(p.account_id@)),
        rec_of_pending_update(p)[7] == (sbytes("event_id"), WireV::Str(p.event_id@)),
        rec_of_pending_update(p)[8] == (sbytes("ts_event"), WireV::UInt(p.ts_event)),
        rec_of_pending_update(p)[9] == (sbytes("ts_init"), WireV::UInt(p.ts_init)),
        rec_of_pending_update(p)[10] == (sbytes("reconciliation"), WireV::Bool(p.reconciliation)),
{
}

pub fn to_record_pending_update(p: &crate::events::OrderPendingUpdate) -> (r: Vec<(Vec<u8>, WireValue)>)
    ensures
        rv(r@) == rec_of_pending_update(*p),
{
    let mut out: Vec<(Vec<u8>, WireValue)> = Vec::new();
    out.push((("type").as_bytes_vec(), WireValue::Str(("OrderPendingUpdate").as_bytes_vec())));
    out.push((("trader_id").as_bytes_vec(), WireValue::Str(copy_bytes(&p.trader_id.value))));
    out.push((("strategy_id").as_bytes_vec(), WireValue::Str(copy_bytes(&p.strategy_id.value))));
    out.push((("instrument_id").as_bytes_vec(), WireValue::Str(copy_bytes(&p.instrument_id.value))));
    out.push((("client_order_id").as_bytes_vec(), WireValue::Str(copy_bytes(&p.client_order_id.value))));
    out.push((("venue_order_id").as_bytes_vec(), (match &p.venue_order_id { Some(v) => WireValue::Str(copy_bytes(&v.value)), None => WireValue::Null })));
    out.push((("account_id").as_bytes_vec(), WireValue::Str(copy_bytes(&p.account_id.value))));
    out.push((("event_id").as_bytes_vec(), WireValue::Str(copy_bytes(&p.event_id.value))));
    out.push((("ts_event").as_bytes_vec(), WireValue::UInt(p.ts_event)));
    out.push((("ts_init").as_bytes_vec(), WireValue::UInt(p.ts_init)));
    out.push((("reconciliation").as_bytes_vec(), WireValue::Bool(p.reconciliation)));
    proof {
        assert(rv(out@) =~= rec_of_pending_update(*p));
    }
    out
}

pub fn from_record_pending_update(rec: &Vec<(Vec<u8>, WireValue)>) -> (r: Result<
    crate::events::OrderPendingUpdate, FieldError>)
    ensures
        r matches Ok(d) ==> d.wf(),
        forall|p: crate::events::OrderPendingUpdate|
            p.wf() && rv(rec@) == rec_of_pending_update(p) ==> (r matches Ok(d) && rec_of_pending_update(d)
                == rec_of_pending_update(p)),
{
    broadcast use lemma_rec_of_pending_update_index;
    broadcast use group_enum_code_roundtrips;

    let mut i: usize = 0;
    take_tag(rec, &mut i)?;
    let trader_id = take_str(rec, &mut i, "trader_id")?;
    let strategy_id = take_str(rec, &mut i, "strategy_id")?;
    let instrument_id = take_str(rec, &mut i, "instrument_id")?;
    let client_order_id = take_str(rec, &mut i, "client_order_id")?;
    let venue_order_id = take_opt_str(rec, &mut i, "venue_order_id")?;
    let account_id = take_str(rec, &mut i, "account_id")?;
    let event_id = take_str(rec, &mut i, "event_id")?;
    let ts_event = take_u64(rec, &mut i, "ts_event")?;
    let ts_init = take_u64(rec, &mut i, "ts_init")?;
    if ts_init < ts_event {
        return Err(FieldError::Invalid(("ts_init").as_bytes_vec()));
    }
    let reconciliation = take_bool(rec, &mut i, "reconciliation")?;
    let d = crate::events::OrderPendingUpdate {
        trader_id: crate::types::TraderId { value: trader_id },
        strategy_id: crate::types::StrategyId { value: strategy_id },
        instrument_id: crate::types::InstrumentId { value: instrument_id },
        client_order_id: crate::types::ClientOrderId { value: client_order_id },
        venue_order_id: (match venue_order_id { Some(v) => Some(crate::types::VenueOrderId { value: v }), None => None }),
        account_id: crate::types::AccountId { value: account_id },
        event_id: crate::types::UUID4 { value: event_id },
        ts_event,
        ts_init,
        reconciliation,
    };
    proof {
        assert forall|p: crate::events::OrderPendingUpdate|
            p.wf() && rv(rec@) == rec_of_pending_update(p) implies rec_of_pending_update(d) == rec_of_pending_update(
            p) by {
            assert(rec_of_pending_update(d) =~= rec_of_pending_update(p));
        }
    }
    Ok(d)
}

/// Record form of an `OrderPendingCancel` event.
pub open spec fn rec_of_pending_cancel(p: crate::events::OrderPendingCancel) -> RecordV {
    seq![
        (sbytes("type"), WireV::Str(sbytes("OrderPendingCancel"))),
        (sbytes("trader_id"), WireV::Str(p.trader_id@)),
        (sbytes("strategy_id"), WireV::Str(p.strategy_id@)),
        (sbytes("instrument_id"), WireV::Str(p.instrument_id@)),
        (sbytes("client_order_id"), WireV::Str(p.client_order_id@)),
        (sbytes("venue_order_id"), opt_bytes_wv(p.venue_order_id)),
        (sbytes("account_id"), WireV::Str(p.account_id@)),
        (sbytes("event_id"), WireV::Str(p.event_id@)),
        (sbytes("ts_event"), WireV::UInt(p.ts_event)),
        (sbytes("ts_init"), WireV::UInt(p.ts_init)),
        (sbytes("reconciliation"), WireV::Bool(p.reconciliation)),
    ]
}

pub broadcast proof fn lemma_rec_of_pending_cancel_index(p: crate::events::OrderPendingCancel)
    ensures
        #![trigger rec_of_pending_cancel(p)]
        rec_of_pending_cancel(p).len() == 11,
        rec_of_pending_cancel(p)[0] == (sbytes("type"), WireV::Str(sbytes("OrderPendingCancel"))),
        rec_of_pending_cancel(p)[1] == (sbytes("trader_id"), WireV::Str(p.trader_id@)),
        rec_of_pending_cancel(p)[2] == (sbytes("strategy_id"), WireV::Str(p.strategy_id@)),
        rec_of_pending_cancel(p)[3] == (sbytes("instrument_id"), WireV::Str(p.instrument_id@)),
        rec_of_pending_cancel(p)[4] == (sbytes("client_order_id"), WireV::Str(p.client_order_id@)),
        rec_of_pending_cancel(p)[5] == (sbytes("venue_order_id"), opt_bytes_wv(p.venue_order_id)),
        rec_of_pending_cancel(p)[6] == (sbytes("account_id"), WireV::Str(p.account_id@)),
        rec_of_pending_cancel(p)[7] == (sbytes("event_id"), WireV::Str(p.event_id@)),
        rec_of_pending_cancel(p)[8] == (sbytes("ts_event"), WireV::UInt(p.ts_event)),
        rec_of_pending_cancel(p)[9] == (sbytes("ts_init"), WireV::UInt(p.ts_init)),
        rec_of_pending_cancel(p)[10] == (sbytes("reconciliation"), WireV::Bool(p.reconciliation)),
{
}

pub fn to_record_pending_cancel(p: &crate::events::OrderPendingCancel) -> (r: Vec<(Vec<u8>, WireValue)>)
    ensures
        rv(r@) == rec_of_pending_cancel(*p),
{
    let mut out: Vec<(Vec<u8>, WireValue)> = Vec::new();
    out.push((("type").as_bytes_vec(), WireValue::Str(("OrderPendingCancel").as_bytes_vec())));
    out.push((("trader_id").as_bytes_vec(), WireValue::Str(copy_bytes(&p.trader_id.value))));
    out.push((("strategy_id").as_bytes_vec(), WireValue::Str(copy_bytes(&p.strategy_id.value))));
    out.push((("instrument_id").as_bytes_vec(), WireValue::Str(copy_bytes(&p.instrument_id.value))));
    out.push((("client_order_id").as_bytes_vec(), WireValue::Str(copy_bytes(&p.client_order_id.value))));
    out.push((("venue_order_id").as_bytes_vec(), (match &p.venue_order_id { Some(v) => WireValue::Str(copy_bytes(&v.value)), None => WireValue::Null })));
    out.push((("account_id").as_bytes_vec(), WireValue::Str(copy_bytes(&p.account_id.value))));
    out.push((("event_id").as_bytes_vec(), WireValue::Str(copy_bytes(&p.event_id.value))));
    out.push((("ts_event").as_bytes_vec(), WireValue::UInt(p.ts_event)));
    out.push((("ts_init").as_bytes_vec(), WireValue::UInt(p.ts_init)));
    out.push((("reconciliation").as_bytes_vec(), WireValue::Bool(p.reconciliation)));
    proof {
        assert(rv(out@) =~= rec_of_pending_cancel(*p));
    }
    out
}

pub fn from_record_pending_cancel(rec: &Vec<(Vec<u8>, WireValue)>) -> (r: Result<
    crate::events::OrderPendingCancel, FieldError>)
    ensures
        r matches Ok(d) ==> d.wf(),
        forall|p: crate::events::OrderPendingCancel|
            p.wf() && rv(rec@) == rec_of_pending_cancel(p) ==> (r matches Ok(d) && rec_of_pending_cancel(d)
                == rec_of_pending_cancel(p)),
{
    broadcast use lemma_rec_of_pending_cancel_index;
    broadcast use group_enum_code_roundtrips;

    let mut i: usize = 0;
    take_tag(rec, &mut i)?;
    let trader_id = take_str(rec, &mut i, "trader_id")?;
    let strategy_id = take_str(rec, &mut i, "strategy_id")?;
    let instrument_id = take_str(rec, &mut i, "instrument_id")?;
    let client_order_id = take_str(rec, &mut i, "client_order_id")?;
    let venue_order_id = take_opt_str(rec, &mut i, "venue_order_id")?;
    let account_id = take_str(rec, &mut i, "account_id")?;
    let event_id = take_str(rec, &mut i, "event_id")?;
    let ts_event = take_u64(rec, &mut i, "ts_event")?;
    let ts_init = take_u64(rec, &mut i, "ts_init")?;
    if ts_init < ts_event {
        return Err(FieldError::Invalid(("ts_init").as_bytes_vec()));
    }
    let reconciliation = take_bool(rec, &mut i, "reconciliation")?;
    let d = crate::events::OrderPendingCancel {
        trader_id: crate::types::TraderId { value: trader_id },
        strategy_id: crate::types::StrategyId { value: strategy_id },
        instrument_id: crate::types::InstrumentId { value: instrument_id },
        client_order_id: crate::types::ClientOrderId { value: client_order_id },
        venue_order_id: (match venue_order_id { Some(v) => Some(crate::types::VenueOrderId { value: v }), None => None }),
        account_id: crate::types::AccountId { value: account_id },
        event_id: crate::types::UUID4 { value: event_id },
        ts_event,
        ts_init,
        reconciliation,
    };
    proof {
        assert forall|p: crate::events::OrderPendingCancel|
            p.wf() && rv(rec@) == rec_of_pending_cancel(p) implies rec_of_pending_cancel(d) == rec_of_pending_cancel(
            p) by {
            assert(rec_of_pending_cancel(d) =~= rec_of_pending_cancel(p));
        }
    }
    Ok(d)
}

/// Record form of an `OrderModifyRejected` event.
pub open spec fn rec_of_modify_rejected(p: crate::events::OrderModifyRejected) -> RecordV {
    seq![
        (sbytes("type"), WireV::Str(sbytes("OrderModifyRejected"))),
        (sbytes("trader_id"), WireV::Str(p.trader_id@)),
        (sbytes("strategy_id"), WireV::Str(p.strategy_id@)),
        (sbytes("instrument_id"), WireV::Str(p.instrument_id@)),
        (sbytes("client_order_id"), WireV::Str(p.client_order_id@)),
        (sbytes("venue_order_id"), opt_bytes_wv(p.venue_order_id)),
        (sbytes("account_id"), opt_bytes_wv(p.account_id)),
        (sbytes("reason"), WireV::Str(p.reason@)),
        (sbytes("event_id"), WireV::Str(p.event_id@)),
        (sbytes("ts_event"), WireV::UInt(p.ts_event)),
        (sbytes("ts_init"), WireV::UInt(p.ts_init)),
        (sbytes("reconciliation"), WireV::Bool(p.reconciliation)),
    ]
}

pub broadcast proof fn lemma_rec_of_modify_rejected_index(p: crate::events::OrderModifyRejected)
    ensures
        #![trigger rec_of_modify_rejected(p)]
        rec_of_modify_rejected(p).len() == 12,
        rec_of_modify_rejected(p)[0] == (sbytes("type"), WireV::Str(sbytes("OrderModifyRejected"))),
        rec_of_modify_rejected(p)[1] == (sbytes("trader_id"), WireV::Str(p.trader_id@)),
        rec_of_modify_rejected(p)[2] == (sbytes("strategy_id"), WireV::Str(p.strategy_id@)),
        rec_of_modify_rejected(p)[3] == (sbytes("instrument_id"), WireV::Str(p.instrument_id@)),
        rec_of_modify_rejected(p)[4] == (sbytes("client_order_id"), WireV::Str(p.client_order_id@)),
        rec_of_modify_rejected(p)[5] == (sbytes("venue_order_id"), opt_bytes_wv(p.venue_order_id)),
        rec_of_modify_rejected(p)[6] == (sbytes("account_id"), opt_bytes_wv(p.account_id)),
        rec_of_modify_rejected(p)[7] == (sbytes("reason"), WireV::Str(p.reason@)),
        rec_of_modify_rejected(p)[8] == (sbytes("event_id"), WireV::Str(p.event_id@)),
        rec_of_modify_rejected(p)[9] == (sbytes("ts_event"), WireV::UInt(p.ts_event)),
        rec_of_modify_rejected(p)[10] == (sbytes("ts_init"), WireV::UInt(p.ts_init)),
        rec_of_modify_rejected(p)[11] == (sbytes("reconciliation"), WireV::Bool(p.reconciliation)),
{
}

pub fn to_record_modify_rejected(p: &crate::events::OrderModifyRejected) -> (r: Vec<(Vec<u8>, WireValue)>)
    ensures
        rv(r@) == rec_of_modify_rejected(*p),
{
    let mut out: Vec<(Vec<u8>, WireValue)> = Vec::new();
    out.push((("type").as_bytes_vec(), WireValue::Str(("OrderModifyRejected").as_bytes_vec())));
    out.push((("trader_id").as_bytes_vec(), WireValue::Str(copy_bytes(&p.trader_id.value))));
    out.push((("strategy_id").as_bytes_vec(), WireValue::Str(copy_bytes(&p.strategy_id.value))));
    out.push((("instrument_id").as_bytes_vec(), WireValue::Str(copy_bytes(&p.instrument_id.value))));
    out.push((("client_order_id").as_bytes_vec(), WireValue::Str(copy_bytes(&p.client_order_id.value))));
    out.push((("venue_order_id").as_bytes_vec(), (match &p.venue_order_id { Some(v) => WireValue::Str(copy_bytes(&v.value)), None => WireValue::Null })));
    out.push((("account_id").as_bytes_vec(), (match &p.account_id { Some(v) => WireValue::Str(copy_bytes(&v.value)), None => WireValue::Null })));
    out.push((("reason").as_bytes_vec(), WireValue::Str(copy_bytes(&p.reason))));
    out.push((("event_id").as_bytes_vec(), WireValue::Str(copy_bytes(&p.event_id.value))));
    out.push((("ts_event").as_bytes_vec(), WireValue::UInt(p.ts_event)));
    out.push((("ts_init").as_bytes_vec(), WireValue::UInt(p.ts_init)));
    out.push((("reconciliation").as_bytes_vec(), WireValue::Bool(p.reconciliation)));
    proof {
        assert(rv(out@) =~= rec_of_modify_rejected(*p));
    }
    out
}

pub fn from_record_modify_rejected(rec: &Vec<(Vec<u8>, WireValue)>) -> (r: Result<
    crate::events::OrderModifyRejected, FieldError>)
    ensures
        r matches Ok(d) ==> d.wf(),
        forall|p: crate::events::OrderModifyRejected|
            p.wf() && rv(rec@) == rec_of_modify_rejected(p) ==> (r matches Ok(d) && rec_of_modify_rejected(d)
                == rec_of_modify_rejected(p)),
{
    broadcast use lemma_rec_of_modify_rejected_index;
    broadcast use group_enum_code_roundtrips;

    let mut i: usize = 0;
    take_tag(rec, &mut i)?;
    let trader_id = take_str(rec, &mut i, "trader_id")?;
    let strategy_id = take_str(rec, &mut i, "strategy_id")?;
    let instrument_id = take_str(rec, &mut i, "instrument_id")?;
    let client_order_id = take_str(rec, &mut i, "client_order_id")?;
    let venue_order_id = take_opt_str(rec, &mut i, "venue_order_id")?;
    let account_id = take_opt_str(rec, &mut i, "account_id")?;
    let reason = take_str(rec, &mut i, "reason")?;
    let event_id = take_str(rec, &mut i, "event_id")?;
    let ts_event = take_u64(rec, &mut i, "ts_event")?;
    let ts_init = take_u64(rec, &mut i, "ts_init")?;
    if ts_init < ts_event {
        return Err(FieldError::Invalid(("ts_init").as_bytes_vec()));
    }
    let reconciliation = take_bool(rec, &mut i, "reconciliation")?;
    let d = crate::events::OrderModifyRejected {
        trader_id: crate::types::TraderId { value: trader_id },
        strategy_id: crate::types::StrategyId { value: strategy_id },
        instrument_id: crate::types::InstrumentId { value: instrument_id },
        client_order_id: crate::types::ClientOrderId { value: client_order_id },
        venue_order_id: (match venue_order_id { Some(v) => Some(crate::types::VenueOrderId { value: v }), None => None }),
        account_id: (match account_id { Some(v) => Some(crate::types::AccountId { value: v }), None => None }),
        reason,
        event_id: crate::types::UUID4 { value: event_id },
        ts_event,
        ts_init,
        reconciliation,
    };
    proof {
        assert forall|p: crate::events::OrderModifyRejected|
            p.wf() && rv(rec@) == rec_of_modify_rejected(p) implies rec_of_modify_rejected(d) == rec_of_modify_rejected(
            p) by {
            assert(rec_of_modify_rejected(d) =~= rec_of_modify_rejected(p));
        }
    }
    Ok(d)
}

/// Record form of an `OrderCancelRejected` event.
pub open spec fn rec_of_cancel_rejected(p: crate::events::OrderCancelRejected) -> RecordV {
    seq![
        (sbytes("type"), WireV::Str(sbytes("OrderCancelRejected"))),
        (sbytes("trader_id"), WireV::Str(p.trader_id@)),
        (sbytes("strategy_id"), WireV::Str(p.strategy_id@)),
        (sbytes("instrument_id"), WireV::Str(p.instrument_id@)),
        (sbytes("client_order_id"), WireV::Str(p.client_order_id@)),
        (sbytes("venue_order_id"), opt_bytes_wv(p.venue_order_id)),
        (sbytes("account_id"), opt_bytes_wv(p.account_id)),
        (sbytes("reason"), WireV::Str(p.reason@)),
        (sbytes("event_id"), WireV::Str(p.event_id@)),
        (sbytes("ts_event"), WireV::UInt(p.ts_event)),
        (sbytes("ts_init"), WireV::UInt(p.ts_init)),
        (sbytes("reconciliation"), WireV::Bool(p.reconciliation)),
    ]
}

pub broadcast proof fn lemma_rec_of_cancel_rejected_index(p: crate::events::OrderCancelRejected)
    ensures
        #![trigger rec_of_cancel_rejected(p)]
        rec_of_cancel_rejected(p).len() == 12,
        rec_of_cancel_rejected(p)[0] == (sbytes("type"), WireV::Str(sbytes("OrderCancelRejected"))),
        rec_of_cancel_rejected(p)[1] == (sbytes("trader_id"), WireV::Str(p.trader_id@)),
        rec_of_cancel_rejected(p)[2] == (sbytes("strategy_id"), WireV::Str(p.strategy_id@)),
        rec_of_cancel_rejected(p)[3] == (sbytes("instrument_id"), WireV::Str(p.instrument_id@)),
        rec_of_cancel_rejected(p)[4] == (sbytes("client_order_id"), WireV::Str(p.client_order_id@)),
        rec_of_cancel_rejected(p)[5] == (sbytes("venue_order_id"), opt_bytes_wv(p.venue_order_id)),
        rec_of_cancel_rejected(p)[6] == (sbytes("account_id"), opt_bytes_wv(p.account_id)),
        rec_of_cancel_rejected(p)[7] == (sbytes("reason"), WireV::Str(p.reason@)),
        rec_of_cancel_rejected(p)[8] == (sbytes("event_id"), WireV::Str(p.event_id@)),
        rec_of_cancel_rejected(p)[9] == (sbytes("ts_event"), WireV::UInt(p.ts_event)),
        rec_of_cancel_rejected(p)[10] == (sbytes("ts_init"), WireV::UInt(p.ts_init)),
        rec_of_cancel_rejected(p)[11] == (sbytes("reconciliation"), WireV::Bool(p.reconciliation)),
{
}

pub fn to_record_cancel_rejected(p: &crate::events::OrderCancelRejected) -> (r: Vec<(Vec<u8>, WireValue)>)
    ensures
        rv(r@) == rec_of_cancel_rejected(*p),
{
    let mut out: Vec<(Vec<u8>, WireValue)> = Vec::new();
    out.push((("type").as_bytes_vec(), WireValue::Str(("OrderCancelRejected").as_bytes_vec())));
    out.push((("trader_id").as_bytes_vec(), WireValue::Str(copy_bytes(&p.trader_id.value))));
    out.push((("strategy_id").as_bytes_vec(), WireValue::Str(copy_bytes(&p.strategy_id.value))));
    out.push((("instrument_id").as_bytes_vec(), WireValue::Str(copy_bytes(&p.instrument_id.value))));
    out.push((("client_order_id").as_bytes_vec(), WireValue::Str(copy_bytes(&p.client_order_id.value))));
    out.push((("venue_order_id").as_bytes_vec(), (match &p.venue_order_id { Some(v) => WireValue::Str(copy_bytes(&v.value)), None => WireValue::Null })));
    out.push((("account_id").as_bytes_vec(), (match &p.account_id { Some(v) => WireValue::Str(copy_bytes(&v.value)), None => WireValue::Null })));
    out.push((("reason").as_bytes_vec(), WireValue::Str(copy_bytes(&p.reason))));
    out.push((("event_id").as_bytes_vec(), WireValue::Str(copy_bytes(&p.event_id.value))));
    out.push((("ts_event").as_bytes_vec(), WireValue::UInt(p.ts_event)));
    out.push((("ts_init").as_bytes_vec(), WireValue::UInt(p.ts_init)));
    out.push((("reconciliation").as_bytes_vec(), WireValue::Bool(p.reconciliation)));
    proof {
        assert(rv(out@) =~= rec_of_cancel_rejected(*p));
    }
    out
}

pub fn from_record_cancel_rejected(rec: &Vec<(Vec<u8>, WireValue)>) -> (r: Result<
    crate::events::OrderCancelRejected, FieldError>)
    ensures
        r matches Ok(d) ==> d.wf(),
        forall|p: crate::events::OrderCancelRejected|
            p.wf() && rv(rec@) == rec_of_cancel_rejected(p) ==> (r matches Ok(d) && rec_of_cancel_rejected(d)
                == rec_of_cancel_rejected(p)),
{
    broadcast use lemma_rec_of_cancel_rejected_index;
    broadcast use group_enum_code_roundtrips;

    let mut i: usize = 0;
    take_tag(rec, &mut i)?;
    let trader_id = take_str(rec, &mut i, "trader_id")?;
    let strategy_id = take_str(rec, &mut i, "strategy_id")?;
    let instrument_id = take_str(rec, &mut i, "instrument_id")?;
    let client_order_id = take_str(rec, &mut i, "client_order_id")?;
    let venue_order_id = take_opt_str(rec, &mut i, "venue_order_id")?;
    let account_id = take_opt_str(rec, &mut i, "account_id")?;
    let reason = take_str(rec, &mut i, "reason")?;
    let event_id = take_str(rec, &mut i, "event_id")?;
    let ts_event = take_u64(rec, &mut i, "ts_event")?;
    let ts_init = take_u64(rec, &mut i, "ts_init")?;
    if ts_init < ts_event {
        return Err(FieldError::Invalid(("ts_init").as_bytes_vec()));
    }
    let reconciliation = take_bool(rec, &mut i, "reconciliation")?;
    let d = crate::events::OrderCancelRejected {
        trader_id: crate::types::TraderId { value: trader_id },
        strategy_id: crate::types::StrategyId { value: strategy_id },
        instrument_id: crate::types::InstrumentId { value: instrument_id },
        client_order_id: crate::types::ClientOrderId { value: client_order_id },
        venue_order_id: (match venue_order_id { Some(v) => Some(crate::types::VenueOrderId { value: v }), None => None }),
        account_id: (match account_id { Some(v) => Some(crate::types::AccountId { value: v }), None => None }),
        reason,
        event_id: crate::types::UUID4 { value: event_id },
        ts_event,
        ts_init,
        reconciliation,
    };
    proof {
        assert forall|p: crate::events::OrderCancelRejected|
            p.wf() && rv(rec@) == rec_of_cancel_rejected(p) implies rec_of_cancel_rejected(d) == rec_of_cancel_rejected(
            p) by {
            assert(rec_of_cancel_rejected(d) =~= rec_of_cancel_rejected(p));
        }
    }
    Ok(d)
}

/// Record form of an `OrderUpdated` event.
pub open spec fn rec_of_updated(p: crate::events::OrderUpdated) -> RecordV {
    seq![
        (sbytes("type"), WireV::Str(sbytes("OrderUpdated"))),
        (sbytes("trader_id"), WireV::Str(p.trader_id@)),
        (sbytes("strategy_id"), WireV::Str(p.strategy_id@)),
        (sbytes("instrument_id"), WireV::Str(p.instrument_id@)),
        (sbytes("client_order_id"), WireV::Str(p.client_order_id@)),
        (sbytes("venue_order_id"), opt_bytes_wv(p.venue_order_id)),
        (sbytes("account_id"), opt_bytes_wv(p.account_id)),
        (sbytes("quantity"), WireV::UInt(p.quantity.raw)),
        (sbytes("quantity_prec"), WireV::UInt(p.quantity.precision as u64)),
        (sbytes("price"), opt_px_raw(p.price)),
        (sbytes("price_prec"), opt_px_prec(p.price)),
        (sbytes("trigger_price"), opt_px_raw(p.trigger_price)),
        (sbytes("trigger_price_prec"), opt_px_prec(p.trigger_price)),
        (sbytes("event_id"), WireV::Str(p.event_id@)),
        (sbytes("ts_event"), WireV::UInt(p.ts_event)),
        (sbytes("ts_init"), WireV::UInt(p.ts_init)),
        (sbytes("reconciliation"), WireV::Bool(p.reconciliation)),
    ]
}

pub broadcast proof fn lemma_rec_of_updated_index(p: crate::events::OrderUpdated)
    ensures
        #![trigger rec_of_updated(p)]
        rec_of_updated(p).len() == 17,
        rec_of_updated(p)[0] == (sbytes("type"), WireV::Str(sbytes("OrderUpdated"))),
        rec_of_updated(p)[1] == (sbytes("trader_id"), WireV::Str(p.trader_id@)),
        rec_of_updated(p)[2] == (sbytes("strategy_id"), WireV::Str(p.strategy_id@)),
        rec_of_updated(p)[3] == (sbytes("instrument_id"), WireV::Str(p.instrument_id@)),
        rec_of_updated(p)[4] == (sbytes("client_order_id"), WireV::Str(p.client_order_id@)),
        rec_of_updated(p)[5] == (sbytes("venue_order_id"), opt_bytes_wv(p.venue_order_id)),
        rec_of_updated(p)[6] == (sbytes("account_id"), opt_bytes_wv(p.account_id)),
        rec_of_updated(p)[7] == (sbytes("quantity"), WireV::UInt(p.quantity.raw)),
        rec_of_updated(p)[8] == (sbytes("quantity_prec"), WireV::UInt(p.quantity.precision as u64)),
        rec_of_updated(p)[9] == (sbytes("price"), opt_px_raw(p.price)),
        rec_of_updated(p)[10] == (sbytes("price_prec"), opt_px_prec(p.price)),
        rec_of_updated(p)[11] == (sbytes("trigger_price"), opt_px_raw(p.trigger_price)),
        rec_of_updated(p)[12] == (sbytes("trigger_price_prec"), opt_px_prec(p.trigger_price)),
        rec_of_updated(p)[13] == (sbytes("event_id"), WireV::Str(p.event_id@)),
        rec_of_updated(p)[14] == (sbytes("ts_event"), WireV::UInt(p.ts_event)),
        rec_of_updated(p)[15] == (sbytes("ts_init"), WireV::UInt(p.ts_init)),
        rec_of_updated(p)[16] == (sbytes("reconciliation"), WireV::Bool(p.reconciliation)),
{
}

#[verifier::rlimit(100)]
pub fn to_record_updated(p: &crate::events::OrderUpdated) -> (r: Vec<(Vec<u8>, WireValue)>)
    ensures
        rv(r@) == rec_of_updated(*p),
{
    let mut out: Vec<(Vec<u8>, WireValue)> = Vec::new();
    out.push((("type").as_bytes_vec(), WireValue::Str(("OrderUpdated").as_bytes_vec())));
    out.push((("trader_id").as_bytes_vec(), WireValue::Str(copy_bytes(&p.trader_id.value))));
    out.push((("strategy_id").as_bytes_vec(), WireValue::Str(copy_bytes(&p.strategy_id.value))));
    out.push((("instrument_id").as_bytes_vec(), WireValue::Str(copy_bytes(&p.instrument_id.value))));
    out.push((("client_order_id").as_bytes_vec(), WireValue::Str(copy_bytes(&p.client_order_id.value))));
    out.push((("venue_order_id").as_bytes_vec(), (match &p.venue_order_id { Some(v) => WireValue::Str(copy_bytes(&v.value)), None => WireValue::Null })));
    out.push((("account_id").as_bytes_vec(), (match &p.account_id { Some(v) => WireValue::Str(copy_bytes(&v.value)), None => WireValue::Null })));
    out.push((("quantity").as_bytes_vec(), WireValue::UInt(p.quantity.raw)));
    out.push((("quantity_prec").as_bytes_vec(), WireValue::UInt(p.quantity.precision as u64)));
    out.push((("price").as_bytes_vec(), (match &p.price { Some(q) => WireValue::UInt(q.raw), None => WireValue::Null })));
    out.push((("price_prec").as_bytes_vec(), (match &p.price { Some(q) => WireValue::UInt(q.precision as u64), None => WireValue::Null })));
    out.push((("trigger_price").as_bytes_vec(), (match &p.trigger_price { Some(q) => WireValue::UInt(q.raw), None => WireValue::Null })));
    out.push((("trigger_price_prec").as_bytes_vec(), (match &p.trigger_price { Some(q) => WireValue::UInt(q.precision as u64), None => WireValue::Null })));
    out.push((("event_id").as_bytes_vec(), WireValue::Str(copy_bytes(&p.event_id.value))));
    out.push((("ts_event").as_bytes_vec(), WireValue::UInt(p.ts_event)));
    out.push((("ts_init").as_bytes_vec(), WireValue::UInt(p.ts_init)));
    out.push((("reconciliation").as_bytes_vec(), WireValue::Bool(p.reconciliation)));
    proof {
        assert(rv(out@) =~= rec_of_updated(*p));
    }
    out
}

#[verifier::rlimit(100)]
pub fn from_record_updated(rec: &Vec<(Vec<u8>, WireValue)>) -> (r: Result<
    crate::events::OrderUpdated, FieldError>)
    ensures
        r matches Ok(d) ==> d.wf(),
        forall|p: crate::events::OrderUpdated|
            p.wf() && rv(rec@) == rec_of_updated(p) ==> (r matches Ok(d) && rec_of_updated(d)
                == rec_of_updated(p)),
{
    broadcast use lemma_rec_of_updated_index;
    broadcast use group_enum_code_roundtrips;

    let mut i: usize = 0;
    take_tag(rec, &mut i)?;
    let trader_id = take_str(rec, &mut i, "trader_id")?;
    let strategy_id = take_str(rec, &mut i, "strategy_id")?;
    let instrument_id = take_str(rec, &mut i, "instrument_id")?;
    let client_order_id = take_str(rec, &mut i, "client_order_id")?;
    let venue_order_id = take_opt_str(rec, &mut i, "venue_order_id")?;
    let account_id = take_opt_str(rec, &mut i, "account_id")?;
    let quantity_raw = take_u64(rec, &mut i, "quantity")?;
    let quantity_p = take_u64(rec, &mut i, "quantity_prec")?;
    if quantity_p > 255 {
        return Err(FieldError::Invalid(("quantity_prec").as_bytes_vec()));
    }
    let price_raw = take_opt_u64(rec, &mut i, "price")?;
    let price_p = take_opt_u64(rec, &mut i, "price_prec")?;
    let price = match (price_raw, price_p) {
        (None, None) => None,
        (Some(r0), Some(p0)) => {
            if p0 > 255 {
                return Err(FieldError::Invalid(("price_prec").as_bytes_vec()));
            }
            Some(crate::types::Price { raw: r0, precision: p0 as u8 })
        },
        _ => { return Err(FieldError::Invalid(("price").as_bytes_vec())); },
    };
    let trigger_price_raw = take_opt_u64(rec, &mut i, "trigger_price")?;
    let trigger_price_p = take_opt_u64(rec, &mut i, "trigger_price_prec")?;
    let trigger_price = match (trigger_price_raw, trigger_price_p) {
        (None, None) => None,
        (Some(r0), Some(p0)) => {
            if p0 > 255 {
                return Err(FieldError::Invalid(("trigger_price_prec").as_bytes_vec()));
            }
            Some(crate::types::Price { raw: r0, precision: p0 as u8 })
        },
        _ => { return Err(FieldError::Invalid(("trigger_price").as_bytes_vec())); },
    };
    let event_id = take_str(rec, &mut i, "event_id")?;
    let ts_event = take_u64(rec, &mut i, "ts_event")?;
    let ts_init = take_u64(rec, &mut i, "ts_init")?;
    if ts_init < ts_event {
        return Err(FieldError::Invalid(("ts_init").as_bytes_vec()));
    }
    let reconciliation = take_bool(rec, &mut i, "reconciliation")?;
    if quantity_raw == 0 {
        return Err(FieldError::Invalid(("quantity").as_bytes_vec()));
    }
    let d = crate::events::OrderUpdated {
        trader_id: crate::types::TraderId { value: trader_id },
        strategy_id: crate::types::StrategyId { value: strategy_id },
        instrument_id: crate::types::InstrumentId { value: instrument_id },
        client_order_id: crate::types::ClientOrderId { value: client_order_id },
        venue_order_id: (match venue_order_id { Some(v) => Some(crate::types::VenueOrderId { value: v }), None => None }),
        account_id: (match account_id { Some(v) => Some(crate::types::AccountId { value: v }), None => None }),
        quantity: crate::types::Quantity { raw: quantity_raw, precision: quantity_p as u8 },
        price,
        trigger_price,
        event_id: crate::types::UUID4 { value: event_id },
        ts_event,
        ts_init,
        reconciliation,
    };
    proof {
        assert forall|p: crate::events::OrderUpdated|
            p.wf() && rv(rec@) == rec_of_updated(p) implies rec_of_updated(d) == rec_of_updated(
            p) by {
            assert(rec_of_updated(d) =~= rec_of_updated(p));
        }
    }
    Ok(d)
}

/// Record form of an `OrderPartiallyFilled` event.
pub open spec fn rec_of_part_filled(p: crate::events::OrderFilled) -> RecordV {
    rec_of_part_filled_h(p) + rec_of_part_filled_t(p)
}

pub open spec fn rec_of_part_filled_h(p: crate::events::OrderFilled) -> RecordV {
    seq![
        (sbytes("type"), WireV::Str(sbytes("OrderPartiallyFilled"))),
        (sbytes("trader_id"), WireV::Str(p.trader_id@)),
        (sbytes("strategy_id"), WireV::Str(p.strategy_id@)),
        (sbytes("instrument_id"), WireV::Str(p.instrument_id@)),
        (sbytes("client_order_id"), WireV::Str(p.client_order_id@)),
        (sbytes("venue_order_id"), WireV::Str(p.venue_order_id@)),
        (sbytes("account_id"), WireV::Str(p.account_id@)),
        (sbytes("trade_id"), WireV::Str(p.trade_id@)),
        (sbytes("position_id"), opt_bytes_wv(p.position_id)),
        (sbytes("order_side"), WireV::UInt(side_code(p.order_side))),
        (sbytes("order_type"), WireV::UInt(order_type_code(p.order_type))),
        (sbytes("last_qty"), WireV::UInt(p.last_qty.raw)),
    ]
}

pub open spec fn rec_of_part_filled_t(p: crate::events::OrderFilled) -> RecordV {
    seq![
        (sbytes("last_qty_prec"), WireV::UInt(p.last_qty.precision as u64)),
        (sbytes("last_px"), WireV::UInt(p.last_px.raw)),
        (sbytes("last_px_prec"), WireV::UInt(p.last_px.precision as u64)),
        (sbytes("currency"), WireV::Str(p.currency@)),
        (sbytes("commission"), WireV::UInt(p.commission.raw)),
        (sbytes("commission_currency"), WireV::Str(p.commission.currency@)),
        (sbytes("liquidity_side"), WireV::UInt(liquidity_code(p.liquidity_side))),
        (sbytes("event_id"), WireV::Str(p.event_id@)),
        (sbytes("ts_event"), WireV::UInt(p.ts_event)),
        (sbytes("ts_init"), WireV::UInt(p.ts_init)),
        (sbytes("reconciliation"), WireV::Bool(p.reconciliation)),
    ]
}

#[verifier::rlimit(100)]
pub broadcast proof fn lemma_rec_of_part_filled_index(p: crate::events::OrderFilled)
    ensures
        #![trigger rec_of_part_filled(p)]
        rec_of_part_filled(p).len() == 23,
        rec_of_part_filled(p)[0] == (sbytes("type"), WireV::Str(sbytes("OrderPartiallyFilled"))),
        rec_of_part_filled(p)[1] == (sbytes("trader_id"), WireV::Str(p.trader_id@)),
        rec_of_part_filled(p)[2] == (sbytes("strategy_id"), WireV::Str(p.strategy_id@)),
        rec_of_part_filled(p)[3] == (sbytes("instrument_id"), WireV::Str(p.instrument_id@)),
        rec_of_part_filled(p)[4] == (sbytes("client_order_id"), WireV::Str(p.client_order_id@)),
        rec_of_part_filled(p)[5] == (sbytes("venue_order_id"), WireV::Str(p.venue_order_id@)),
        rec_of_part_filled(p)[6] == (sbytes("account_id"), WireV::Str(p.account_id@)),
        rec_of_part_filled(p)[7] == (sbytes("trade_id"), WireV::Str(p.trade_id@)),
        rec_of_part_filled(p)[8] == (sbytes("position_id"), opt_bytes_wv(p.position_id)),
        rec_of_part_filled(p)[9] == (sbytes("order_side"), WireV::UInt(side_code(p.order_side))),
        rec_of_part_filled(p)[10] == (sbytes("order_type"), WireV::UInt(order_type_code(p.order_type))),
        rec_of_part_filled(p)[11] == (sbytes("last_qty"), WireV::UInt(p.last_qty.raw)),
        rec_of_part_filled(p)[12] == (sbytes("last_qty_prec"), WireV::UInt(p.last_qty.precision as u64)),
        rec_of_part_filled(p)[13] == (sbytes("last_px"), WireV::UInt(p.last_px.raw)),
        rec_of_part_filled(p)[14] == (sbytes("last_px_prec"), WireV::UInt(p.last_px.precision as u64)),
        rec_of_part_filled(p)[15] == (sbytes("currency"), WireV::Str(p.currency@)),
        rec_of_part_filled(p)[16] == (sbytes("commission"), WireV::UInt(p.commission.raw)),
        rec_of_part_filled(p)[17] == (sbytes("commission_currency"), WireV::Str(p.commission.currency@)),
        rec_of_part_filled(p)[18] == (sbytes("liquidity_side"), WireV::UInt(liquidity_code(p.liquidity_side))),
        rec_of_part_filled(p)[19] == (sbytes("event_id"), WireV::Str(p.event_id@)),
        rec_of_part_filled(p)[20] == (sbytes("ts_event"), WireV::UInt(p.ts_event)),
        rec_of_part_filled(p)[21] == (sbytes("ts_init"), WireV::UInt(p.ts_init)),
        rec_of_part_filled(p)[22] == (sbytes("reconciliation"), WireV::Bool(p.reconciliation)),
{
    assert(rec_of_part_filled_h(p).len() == 12);
    assert(rec_of_part_filled_t(p).len() == 11);
}

#[verifier::rlimit(100)]
pub fn to_record_part_filled(p: &crate::events::OrderFilled) -> (r: Vec<(Vec<u8>, WireValue)>)
    ensures
        rv(r@) == rec_of_part_filled(*p),
{
    let mut out: Vec<(Vec<u8>, WireValue)> = Vec::new();
    out.push((("type").as_bytes_vec(), WireValue::Str(("OrderPartiallyFilled").as_bytes_vec())));
    out.push((("trader_id").as_bytes_vec(), WireValue::Str(copy_bytes(&p.trader_id.value))));
    out.push((("strategy_id").as_bytes_vec(), WireValue::Str(copy_bytes(&p.strategy_id.value))));
    out.push((("instrument_id").as_bytes_vec(), WireValue::Str(copy_bytes(&p.instrument_id.value))));
    out.push((("client_order_id").as_bytes_vec(), WireValue::Str(copy_bytes(&p.client_order_id.value))));
    out.push((("venue_order_id").as_bytes_vec(), WireValue::Str(copy_bytes(&p.venue_order_id.value))));
    out.push((("account_id").as_bytes_vec(), WireValue::Str(copy_bytes(&p.account_id.value))));
    out.push((("trade_id").as_bytes_vec(), WireValue::Str(copy_bytes(&p.trade_id.value))));
    out.push((("position_id").as_bytes_vec(), (match &p.position_id { Some(v) => WireValue::Str(copy_bytes(&v.value)), None => WireValue::Null })));
    out.push((("order_side").as_bytes_vec(), WireValue::UInt(side_to_u64(p.order_side))));
    out.push((("order_type").as_bytes_vec(), WireValue::UInt(order_type_to_u64(p.order_type))));
    out.push((("last_qty").as_bytes_vec(), WireValue::UInt(p.last_qty.raw)));
    proof {
        assert(rv(out@) =~= rec_of_part_filled_h(*p));
    }
    let mut out_t: Vec<(Vec<u8>, WireValue)> = Vec::new();
    out_t.push((("last_qty_prec").as_bytes_vec(), WireValue::UInt(p.last_qty.precision as u64)));
    out_t.push((("last_px").as_bytes_vec(), WireValue::UInt(p.last_px.raw)));
    out_t.push((("last_px_prec").as_bytes_vec(), WireValue::UInt(p.last_px.precision as u64)));
    out_t.push((("currency").as_bytes_vec(), WireValue::Str(copy_bytes(&p.currency.code))));
    out_t.push((("commission").as_bytes_vec(), WireValue::UInt(p.commission.raw)));
    out_t.push((("commission_currency").as_bytes_vec(), WireValue::Str(copy_bytes(&p.commission.currency.code))));
    out_t.push((("liquidity_side").as_bytes_vec(), WireValue::UInt(liquidity_to_u64(p.liquidity_side))));
    out_t.push((("event_id").as_bytes_vec(), WireValue::Str(copy_bytes(&p.event_id.value))));
    out_t.push((("ts_event").as_bytes_vec(), WireValue::UInt(p.ts_event)));
    out_t.push((("ts_init").as_bytes_vec(), WireValue::UInt(p.ts_init)));
    out_t.push((("reconciliation").as_bytes_vec(), WireValue::Bool(p.reconciliation)));
    proof {
        assert(rv(out_t@) =~= rec_of_part_filled_t(*p));
    }
    let ghost gh = out@;
    let ghost gt = out_t@;
    out.append(&mut out_t);
    proof {
        assert(rv(out@) =~= rv(gh) + rv(gt));
    }
    out
}

#[verifier::rlimit(100)]
pub fn from_record_part_filled(rec: &Vec<(Vec<u8>, WireValue)>) -> (r: Result<
    crate::events::OrderFilled, FieldError>)
    ensures
        r matches Ok(d) ==> d.wf(),
        forall|p: crate::events::OrderFilled|
            p.wf() && rv(rec@) == rec_of_part_filled(p) ==> (r matches Ok(d) && rec_of_part_filled(d)
                == rec_of_part_filled(p)),
{
    broadcast use lemma_rec_of_part_filled_index;
    broadcast use group_enum_code_roundtrips;

    let mut i: usize = 0;
    take_tag(rec, &mut i)?;
    let trader_id = take_str(rec, &mut i, "trader_id")?;
    let strategy_id = take_str(rec, &mut i, "strategy_id")?;
    let instrument_id = take_str(rec, &mut i, "instrument_id")?;
    let client_order_id = take_str(rec, &mut i, "client_order_id")?;
    let venue_order_id = take_str(rec, &mut i, "venue_order_id")?;
    let account_id = take_str(rec, &mut i, "account_id")?;
    let trade_id = take_str(rec, &mut i, "trade_id")?;
    let position_id = take_opt_str(rec, &mut i, "position_id")?;
    let order_side_c = take_u64(rec, &mut i, "order_side")?;
    let order_side = match side_of_u64(order_side_c) {
        Some(v) => v,
        None => { return Err(FieldError::Invalid(("order_side").as_bytes_vec())); },
    };
    let order_type_c = take_u64(rec, &mut i, "order_type")?;
    let order_type = match order_type_of_u64(order_type_c) {
        Some(v) => v,
        None => { return Err(FieldError::Invalid(("order_type").as_bytes_vec())); },
    };
    let last_qty_raw = take_u64(rec, &mut i, "last_qty")?;
    let last_qty_p = take_u64(rec, &mut i, "last_qty_prec")?;
    if last_qty_p > 255 {
        return Err(FieldError::Invalid(("last_qty_prec").as_bytes_vec()));
    }
    let last_px_raw = take_u64(rec, &mut i, "last_px")?;
    let last_px_p = take_u64(rec, &mut i, "last_px_prec")?;
    if last_px_p > 255 {
        return Err(FieldError::Invalid(("last_px_prec").as_bytes_vec()));
    }
    let currency = take_str(rec, &mut i, "currency")?;
    let commission_raw = take_u64(rec, &mut i, "commission")?;
    let commission_cur = take_str(rec, &mut i, "commission_currency")?;
    let liquidity_side_c = take_u64(rec, &mut i, "liquidity_side")?;
    let liquidity_side = match liquidity_of_u64(liquidity_side_c) {
        Some(v) => v,
        None => { return Err(FieldError::Invalid(("liquidity_side").as_bytes_vec())); },
    };
    let event_id = take_str(rec, &mut i, "event_id")?;
    let ts_event = take_u64(rec, &mut i, "ts_event")?;
    let ts_init = take_u64(rec, &mut i, "ts_init")?;
    if ts_init < ts_event {
        return Err(FieldError::Invalid(("ts_init").as_bytes_vec()));
    }
    let reconciliation = take_bool(rec, &mut i, "reconciliation")?;
    if last_qty_raw == 0 {
        return Err(FieldError::Invalid(("last_qty").as_bytes_vec()));
    }
    let d = crate::events::OrderFilled {
        trader_id: crate::types::TraderId { value: trader_id },
        strategy_id: crate::types::StrategyId { value: strategy_id },
        instrument_id: crate::types::InstrumentId { value: instrument_id },
        client_order_id: crate::types::ClientOrderId { value: client_order_id },
        venue_order_id: crate::types::VenueOrderId { value: venue_order_id },
        account_id: crate::types::AccountId { value: account_id },
        trade_id: crate::types::TradeId { value: trade_id },
        position_id: (match position_id { Some(v) => Some(crate::types::PositionId { value: v }), None => None }),
        order_side,
        order_type,
        last_qty: crate::types::Quantity { raw: last_qty_raw, precision: last_qty_p as u8 },
        last_px: crate::types::Price { raw: last_px_raw, precision: last_px_p as u8 },
        currency: crate::types::Currency { code: currency },
        commission: crate::types::Money { raw: commission_raw, currency: crate::types::Currency { code: commission_cur } },
        liquidity_side,
        event_id: crate::types::UUID4 { value: event_id },
        ts_event,
        ts_init,
        reconciliation,
    };
    proof {
        assert forall|p: crate::events::OrderFilled|
            p.wf() && rv(rec@) == rec_of_part_filled(p) implies rec_of_part_filled(d) == rec_of_part_filled(
            p) by {
            assert(rec_of_part_filled_h(d) =~= rec_of_part_filled_h(p));
            assert(rec_of_part_filled_t(d) =~= rec_of_part_filled_t(p));
        }
    }
    Ok(d)
}

/// Record form of an `OrderFilled` event.
pub open spec fn rec_of_filled(p: crate::events::OrderFilled) -> RecordV {
    rec_of_filled_h(p) + rec_of_filled_t(p)
}

pub open spec fn rec_of_filled_h(p: crate::events::OrderFilled) -> RecordV {
    seq![
        (sbytes("type"), WireV::Str(sbytes("OrderFilled"))),
        (sbytes("trader_id"), WireV::Str(p.trader_id@)),
        (sbytes("strategy_id"), WireV::Str(p.strategy_id@)),
        (sbytes("instrument_id"), WireV::Str(p.instrument_id@)),
        (sbytes("client_order_id"), WireV::Str(p.client_order_id@)),
        (sbytes("venue_order_id"), WireV::Str(p.venue_order_id@)),
        (sbytes("account_id"), WireV::Str(p.account_id@)),
        (sbytes("trade_id"), WireV::Str(p.trade_id@)),
        (sbytes("position_id"), opt_bytes_wv(p.position_id)),
        (sbytes("order_side"), WireV::UInt(side_code(p.order_side))),
        (sbytes("order_type"), WireV::UInt(order_type_code(p.order_type))),
        (sbytes("last_qty"), WireV::UInt(p.last_qty.raw)),
    ]
}

pub open spec fn rec_of_filled_t(p: crate::events::OrderFilled) -> RecordV {
    seq![
        (sbytes("last_qty_prec"), WireV::UInt(p.last_qty.precision as u64)),
        (sbytes("last_px"), WireV::UInt(p.last_px.raw)),
        (sbytes("last_px_prec"), WireV::UInt(p.last_px.precision as u64)),
        (sbytes("currency"), WireV::Str(p.currency@)),
        (sbytes("commission"), WireV::UInt(p.commission.raw)),
        (sbytes("commission_currency"), WireV::Str(p.commission.currency@)),
        (sbytes("liquidity_side"), WireV::UInt(liquidity_code(p.liquidity_side))),
        (sbytes("event_id"), WireV::Str(p.event_id@)),
        (sbytes("ts_event"), WireV::UInt(p.ts_event)),
        (sbytes("ts_init"), WireV::UInt(p.ts_init)),
        (sbytes("reconciliation"), WireV::Bool(p.reconciliation)),
    ]
}

#[verifier::rlimit(100)]
pub broadcast proof fn lemma_rec_of_filled_index(p: crate::events::OrderFilled)
    ensures
        #![trigger rec_of_filled(p)]
        rec_of_filled(p).len() == 23,
        rec_of_filled(p)[0] == (sbytes("type"), WireV::Str(sbytes("OrderFilled"))),
        rec_of_filled(p)[1] == (sbytes("trader_id"), WireV::Str(p.trader_id@)),
        rec_of_filled(p)[2] == (sbytes("strategy_id"), WireV::Str(p.strategy_id@)),
        rec_of_filled(p)[3] == (sbytes("instrument_id"), WireV::Str(p.instrument_id@)),
        rec_of_filled(p)[4] == (sbytes("client_order_id"), WireV::Str(p.client_order_id@)),
        rec_of_filled(p)[5] == (sbytes("venue_order_id"), WireV::Str(p.venue_order_id@)),
        rec_of_filled(p)[6] == (sbytes("account_id"), WireV::Str(p.account_id@)),
        rec_of_filled(p)[7] == (sbytes("trade_id"), WireV::Str(p.trade_id@)),
        rec_of_filled(p)[8] == (sbytes("position_id"), opt_bytes_wv(p.position_id)),
        rec_of_filled(p)[9] == (sbytes("order_side"), WireV::UInt(side_code(p.order_side))),
        rec_of_filled(p)[10] == (sbytes("order_type"), WireV::UInt(order_type_code(p.order_type))),
        rec_of_filled(p)[11] == (sbytes("last_qty"), WireV::UInt(p.last_qty.raw)),
        rec_of_filled(p)[12] == (sbytes("last_qty_prec"), WireV::UInt(p.last_qty.precision as u64)),
        rec_of_filled(p)[13] == (sbytes("last_px"), WireV::UInt(p.last_px.raw)),
        rec_of_filled(p)[14] == (sbytes("last_px_prec"), WireV::UInt(p.last_px.precision as u64)),
        rec_of_filled(p)[15] == (sbytes("currency"), WireV::Str(p.currency@)),
        rec_of_filled(p)[16] == (sbytes("commission"), WireV::UInt(p.commission.raw)),
        rec_of_filled(p)[17] == (sbytes("commission_currency"), WireV::Str(p.commission.currency@)),
        rec_of_filled(p)[18] == (sbytes("liquidity_side"), WireV::UInt(liquidity_code(p.liquidity_side))),
        rec_of_filled(p)[19] == (sbytes("event_id"), WireV::Str(p.event_id@)),
        rec_of_filled(p)[20] == (sbytes("ts_event"), WireV::UInt(p.ts_event)),
        rec_of_filled(p)[21] == (sbytes("ts_init"), WireV::UInt(p.ts_init)),
        rec_of_filled(p)[22] == (sbytes("reconciliation"), WireV::Bool(p.reconciliation)),
{
    assert(rec_of_filled_h(p).len() == 12);
    assert(rec_of_filled_t(p).len() == 11);
}

#[verifier::rlimit(100)]
pub fn to_record_filled(p: &crate::events::OrderFilled) -> (r: Vec<(Vec<u8>, WireValue)>)
    ensures
        rv(r@) == rec_of_filled(*p),
{
    let mut out: Vec<(Vec<u8>, WireValue)> = Vec::new();
    out.push((("type").as_bytes_vec(), WireValue::Str(("OrderFilled").as_bytes_vec())));
    out.push((("trader_id").as_bytes_vec(), WireValue::Str(copy_bytes(&p.trader_id.value))));
    out.push((("strategy_id").as_bytes_vec(), WireValue::Str(copy_bytes(&p.strategy_id.value))));
    out.push((("instrument_id").as_bytes_vec(), WireValue::Str(copy_bytes(&p.instrument_id.value))));
    out.push((("client_order_id").as_bytes_vec(), WireValue::Str(copy_bytes(&p.client_order_id.value))));
    out.push((("venue_order_id").as_bytes_vec(), WireValue::Str(copy_bytes(&p.venue_order_id.value))));
    out.push((("account_id").as_bytes_vec(), WireValue::Str(copy_bytes(&p.account_id.value))));
    out.push((("trade_id").as_bytes_vec(), WireValue::Str(copy_bytes(&p.trade_id.value))));
    out.push((("position_id").as_bytes_vec(), (match &p.position_id { Some(v) => WireValue::Str(copy_bytes(&v.value)), None => WireValue::Null })));
    out.push((("order_side").as_bytes_vec(), WireValue::UInt(side_to_u64(p.order_side))));
    out.push((("order_type").as_bytes_vec(), WireValue::UInt(order_type_to_u64(p.order_type))));
    out.push((("last_qty").as_bytes_vec(), WireValue::UInt(p.last_qty.raw)));
    proof {
        assert(rv(out@) =~= rec_of_filled_h(*p));
    }
    let mut out_t: Vec<(Vec<u8>, WireValue)> = Vec::new();
    out_t.push((("last_qty_prec").as_bytes_vec(), WireValue::UInt(p.last_qty.precision as u64)));
    out_t.push((("last_px").as_bytes_vec(), WireValue::UInt(p.last_px.raw)));
    out_t.push((("last_px_prec").as_bytes_vec(), WireValue::UInt(p.last_px.precision as u64)));
    out_t.push((("currency").as_bytes_vec(), WireValue::Str(copy_bytes(&p.currency.code))));
    out_t.push((("commission").as_bytes_vec(), WireValue::UInt(p.commission.raw)));
    out_t.push((("commission_currency").as_bytes_vec(), WireValue::Str(copy_bytes(&p.commission.currency.code))));
    out_t.push((("liquidity_side").as_bytes_vec(), WireValue::UInt(liquidity_to_u64(p.liquidity_side))));
    out_t.push((("event_id").as_bytes_vec(), WireValue::Str(copy_bytes(&p.event_id.value))));
    out_t.push((("ts_event").as_bytes_vec(), WireValue::UInt(p.ts_event)));
    out_t.push((("ts_init").as_bytes_vec(), WireValue::UInt(p.ts_init)));
    out_t.push((("reconciliation").as_bytes_vec(), WireValue::Bool(p.reconciliation)));
    proof {
        assert(rv(out_t@) =~= rec_of_filled_t(*p));
    }
    let ghost gh = out@;
    let ghost gt = out_t@;
    out.append(&mut out_t);
    proof {
        assert(rv(out@) =~= rv(gh) + rv(gt));
    }
    out
}

#[verifier::rlimit(100)]
pub fn from_record_filled(rec: &Vec<(Vec<u8>, WireValue)>) -> (r: Result<
    crate::events::OrderFilled, FieldError>)
    ensures
        r matches Ok(d) ==> d.wf(),
        forall|p: crate::events::OrderFilled|
            p.wf() && rv(rec@) == rec_of_filled(p) ==> (r matches Ok(d) && rec_of_filled(d)
                == rec_of_filled(p)),
{
    broadcast use lemma_rec_of_filled_index;
    broadcast use group_enum_code_roundtrips;

    let mut i: usize = 0;
    take_tag(rec, &mut i)?;
    let trader_id = take_str(rec, &mut i, "trader_id")?;
    let strategy_id = take_str(rec, &mut i, "strategy_id")?;
    let instrument_id = take_str(rec, &mut i, "instrument_id")?;
    let client_order_id = take_str(rec, &mut i, "client_order_id")?;
    let venue_order_id = take_str(rec, &mut i, "venue_order_id")?;
    let account_id = take_str(rec, &mut i, "account_id")?;
    let trade_id = take_str(rec, &mut i, "trade_id")?;
    let position_id = take_opt_str(rec, &mut i, "position_id")?;
    let order_side_c = take_u64(rec, &mut i, "order_side")?;
    let order_side = match side_of_u64(order_side_c) {
        Some(v) => v,
        None => { return Err(FieldError::Invalid(("order_side").as_bytes_vec())); },
    };
    let order_type_c = take_u64(rec, &mut i, "order_type")?;
    let order_type = match order_type_of_u64(order_type_c) {
        Some(v) => v,
        None => { return Err(FieldError::Invalid(("order_type").as_bytes_vec())); },
    };
    let last_qty_raw = take_u64(rec, &mut i, "last_qty")?;
    let last_qty_p = take_u64(rec, &mut i, "last_qty_prec")?;
    if last_qty_p > 255 {
        return Err(FieldError::Invalid(("last_qty_prec").as_bytes_vec()));
    }
    let last_px_raw = take_u64(rec, &mut i, "last_px")?;
    let last_px_p = take_u64(rec, &mut i, "last_px_prec")?;
    if last_px_p > 255 {
        return Err(FieldError::Invalid(("last_px_prec").as_bytes_vec()));
    }
    let currency = take_str(rec, &mut i, "currency")?;
    let commission_raw = take_u64(rec, &mut i, "commission")?;
    let commission_cur = take_str(rec, &mut i, "commission_currency")?;
    let liquidity_side_c = take_u64(rec, &mut i, "liquidity_side")?;
    let liquidity_side = match liquidity_of_u64(liquidity_side_c) {
        Some(v) => v,
        None => { return Err(FieldError::Invalid(("liquidity_side").as_bytes_vec())); },
    };
    let event_id = take_str(rec, &mut i, "event_id")?;
    let ts_event = take_u64(rec, &mut i, "ts_event")?;
    let ts_init = take_u64(rec, &mut i, "ts_init")?;
    if ts_init < ts_event {
        return Err(FieldError::Invalid(("ts_init").as_bytes_vec()));
    }
    let reconciliation = take_bool(rec, &mut i, "reconciliation")?;
    if last_qty_raw == 0 {
        return Err(FieldError::Invalid(("last_qty").as_bytes_vec()));
    }
    let d = crate::events::OrderFilled {
        trader_id: crate::types::TraderId { value: trader_id },
        strategy_id: crate::types::StrategyId { value: strategy_id },
        instrument_id: crate::types::InstrumentId { value: instrument_id },
        client_order_id: crate::types::ClientOrderId { value: client_order_id },
        venue_order_id: crate::types::VenueOrderId { value: venue_order_id },
        account_id: crate::types::AccountId { value: account_id },
        trade_id: crate::types::TradeId { value: trade_id },
        position_id: (match position_id { Some(v) => Some(crate::types::PositionId { value: v }), None => None }),
        order_side,
        order_type,
        last_qty: crate::types::Quantity { raw: last_qty_raw, precision: last_qty_p as u8 },
        last_px: crate::types::Price { raw: last_px_raw, precision: last_px_p as u8 },
        currency: crate::types::Currency { code: currency },
        commission: crate::types::Money { raw: commission_raw, currency: crate::types::Currency { code: commission_cur } },
        liquidity_side,
        event_id: crate::types::UUID4 { value: event_id },
        ts_event,
        ts_init,
        reconciliation,
    };
    proof {
        assert forall|p: crate::events::OrderFilled|
            p.wf() && rv(rec@) == rec_of_filled(p) implies rec_of_filled(d) == rec_of_filled(
            p) by {
            assert(rec_of_filled_h(d) =~= rec_of_filled_h(p));
            assert(rec_of_filled_t(d) =~= rec_of_filled_t(p));
        }
    }
    Ok(d)
}

/// Record form of any event: the type tag first, then one entry per field.
pub open spec fn record_of(e: crate::events::OrderEvent) -> RecordV {
    match e {
        crate::events::OrderEvent::OrderInitialized(p) => rec_of_initialized(p),
        crate::events::OrderEvent::OrderDenied(p) => rec_of_denied(p),
        crate::events::OrderEvent::OrderSubmitted(p) => rec_of_submitted(p),
        crate::events::OrderEvent::OrderAccepted(p) => rec_of_accepted(p),
        crate::events::OrderEvent::OrderRejected(p) => rec_of_rejected(p),
        crate::events::OrderEvent::OrderCanceled(p) => rec_of_canceled(p),
        crate::events::OrderEvent::OrderExpired(p) => rec_of_expired(p),
        crate::events::OrderEvent::OrderTriggered(p) => rec_of_triggered(p),
        crate::events::OrderEvent::OrderPendingUpdate(p) => rec_of_pending_update(p),
        crate::events::OrderEvent::OrderPendingCancel(p) => rec_of_pending_cancel(p),
        crate::events::OrderEvent::OrderModifyRejected(p) => rec_of_modify_rejected(p),
        crate::events::OrderEvent::OrderCancelRejected(p) => rec_of_cancel_rejected(p),
        crate::events::OrderEvent::OrderUpdated(p) => rec_of_updated(p),
        crate::events::OrderEvent::OrderPartiallyFilled(p) => rec_of_part_filled(p),
        crate::events::OrderEvent::OrderFilled(p) => rec_of_filled(p),
    }
}

pub fn to_record(e: &crate::events::OrderEvent) -> (r: Vec<(Vec<u8>, WireValue)>)
    ensures
        rv(r@) == record_of(*e),
{
    match e {
        crate::events::OrderEvent::OrderInitialized(p) => to_record_initialized(p),
        crate::events::OrderEvent::OrderDenied(p) => to_record_denied(p),
        crate::events::OrderEvent::OrderSubmitted(p) => to_record_submitted(p),
        crate::events::OrderEvent::OrderAccepted(p) => to_record_accepted(p),
        crate::events::OrderEvent::OrderRejected(p) => to_record_rejected(p),
        crate::events::OrderEvent::OrderCanceled(p) => to_record_canceled(p),
        crate::events::OrderEvent::OrderExpired(p) => to_record_expired(p),
        crate::events::OrderEvent::OrderTriggered(p) => to_record_triggered(p),
        crate::events::OrderEvent::OrderPendingUpdate(p) => to_record_pending_update(p),
        crate::events::OrderEvent::OrderPendingCancel(p) => to_record_pending_cancel(p),
        crate::events::OrderEvent::OrderModifyRejected(p) => to_record_modify_rejected(p),
        crate::events::OrderEvent::OrderCancelRejected(p) => to_record_cancel_rejected(p),
        crate::events::OrderEvent::OrderUpdated(p) => to_record_updated(p),
        crate::events::OrderEvent::OrderPartiallyFilled(p) => to_record_part_filled(p),
        crate::events::OrderEvent::OrderFilled(p) => to_record_filled(p),
    }
}

/// Lengths of the type tags, and the inequalities between equal-length
/// tags; together they make all fifteen tags pairwise distinct.
pub proof fn lemma_tag_facts()
    ensures
        sbytes("OrderInitialized").len() == 16,
        sbytes("OrderDenied").len() == 11,
        sbytes("OrderSubmitted").len() == 14,
        sbytes("OrderAccepted").len() == 13,
        sbytes("OrderRejected").len() == 13,
        sbytes("OrderCanceled").len() == 13,
        sbytes("OrderExpired").len() == 12,
        sbytes("OrderTriggered").len() == 14,
        sbytes("OrderPendingUpdate").len() == 18,
        sbytes("OrderPendingCancel").len() == 18,
        sbytes("OrderModifyRejected").len() == 19,
        sbytes("OrderCancelRejected").len() == 19,
        sbytes("OrderUpdated").len() == 12,
        sbytes("OrderPartiallyFilled").len() == 20,
        sbytes("OrderFilled").len() == 11,
        sbytes("OrderDenied") != sbytes("OrderFilled"),
        sbytes("OrderExpired") != sbytes("OrderUpdated"),
        sbytes("OrderAccepted") != sbytes("OrderRejected"),
        sbytes("OrderAccepted") != sbytes("OrderCanceled"),
        sbytes("OrderRejected") != sbytes("OrderCanceled"),
        sbytes("OrderSubmitted") != sbytes("OrderTriggered"),
        sbytes("OrderPendingUpdate") != sbytes("OrderPendingCancel"),
        sbytes("OrderModifyRejected") != sbytes("OrderCancelRejected"),
{
    reveal_strlit("OrderInitialized");
    reveal_strlit("OrderDenied");
    reveal_strlit("OrderSubmitted");
    reveal_strlit("OrderAccepted");
    reveal_strlit("OrderRejected");
    reveal_strlit("OrderCanceled");
    reveal_strlit("OrderExpired");
    reveal_strlit("OrderTriggered");
    reveal_strlit("OrderPendingUpdate");
    reveal_strlit("OrderPendingCancel");
    reveal_strlit("OrderModifyRejected");
    reveal_strlit("OrderCancelRejected");
    reveal_strlit("OrderUpdated");
    reveal_strlit("OrderPartiallyFilled");
    reveal_strlit("OrderFilled");
    vstd::utf8::is_ascii_chars_encode_utf8(("OrderInitialized")@);
    vstd::utf8::is_ascii_chars_encode_utf8(("OrderDenied")@);
    vstd::utf8::is_ascii_chars_encode_utf8(("OrderSubmitted")@);
    vstd::utf8::is_ascii_chars_encode_utf8(("OrderAccepted")@);
    vstd::utf8::is_ascii_chars_encode_utf8(("OrderRejected")@);
    vstd::utf8::is_ascii_chars_encode_utf8(("OrderCanceled")@);
    vstd::utf8::is_ascii_chars_encode_utf8(("OrderExpired")@);
    vstd::utf8::is_ascii_chars_encode_utf8(("OrderTriggered")@);
    vstd::utf8::is_ascii_chars_encode_utf8(("OrderPendingUpdate")@);
    vstd::utf8::is_ascii_chars_encode_utf8(("OrderPendingCancel")@);
    vstd::utf8::is_ascii_chars_encode_utf8(("OrderModifyRejected")@);
    vstd::utf8::is_ascii_chars_encode_utf8(("OrderCancelRejected")@);
    vstd::utf8::is_ascii_chars_encode_utf8(("OrderUpdated")@);
    vstd::utf8::is_ascii_chars_encode_utf8(("OrderPartiallyFilled")@);
    vstd::utf8::is_ascii_chars_encode_utf8(("OrderFilled")@);
    assert(sbytes("OrderDenied")[5] != sbytes("OrderFilled")[5]);
    assert(sbytes("OrderExpired")[5] != sbytes("OrderUpdated")[5]);
    assert(sbytes("OrderAccepted")[5] != sbytes("OrderRejected")[5]);
    assert(sbytes("OrderAccepted")[5] != sbytes("OrderCanceled")[5]);
    assert(sbytes("OrderRejected")[5] != sbytes("OrderCanceled")[5]);
    assert(sbytes("OrderSubmitted")[5] != sbytes("OrderTriggered")[5]);
    assert(sbytes("OrderPendingUpdate")[12] != sbytes("OrderPendingCancel")[12]);
    assert(sbytes("OrderModifyRejected")[5] != sbytes("OrderCancelRejected")[5]);
}

/// Turns a record back into a typed event.
///
/// The type tag picks the payload shape; unrecognized tags are rejected,
/// unrecognized fields are skipped.  On the record form of any well-formed
/// event the reconstruction is proved exact: the record of the decoded
/// event equals the record given.
#[verifier::rlimit(100)]
#[verifier::spinoff_prover]
pub fn from_record(rec: &Vec<(Vec<u8>, WireValue)>) -> (r: Result<
    crate::events::OrderEvent, FieldError>)
    ensures
        r matches Ok(d) ==> d.wf(),
        forall|p: crate::events::OrderInitialized|
            p.wf() && rv(rec@) == rec_of_initialized(p) ==> (r matches Ok(d) && record_of(d)
                == rec_of_initialized(p)),
        forall|p: crate::events::OrderDenied|
            p.wf() && rv(rec@) == rec_of_denied(p) ==> (r matches Ok(d) && record_of(d)
                == rec_of_denied(p)),
        forall|p: crate::events::OrderSubmitted|
            p.wf() && rv(rec@) == rec_of_submitted(p) ==> (r matches Ok(d) && record_of(d)
                == rec_of_submitted(p)),
        forall|p: crate::events::OrderAccepted|
            p.wf() && rv(rec@) == rec_of_accepted(p) ==> (r matches Ok(d) && record_of(d)
                == rec_of_accepted(p)),
        forall|p: crate::events::OrderRejected|
            p.wf() && rv(rec@) == rec_of_rejected(p) ==> (r matches Ok(d) && record_of(d)
                == rec_of_rejected(p)),
        forall|p: crate::events::OrderCanceled|
            p.wf() && rv(rec@) == rec_of_canceled(p) ==> (r matches Ok(d) && record_of(d)
                == rec_of_canceled(p)),
        forall|p: crate::events::OrderExpired|
            p.wf() && rv(rec@) == rec_of_expired(p) ==> (r matches Ok(d) && record_of(d)
                == rec_of_expired(p)),
        forall|p: crate::events::OrderTriggered|
            p.wf() && rv(rec@) == rec_of_triggered(p) ==> (r matches Ok(d) && record_of(d)
                == rec_of_triggered(p)),
        forall|p: crate::events::OrderPendingUpdate|
            p.wf() && rv(rec@) == rec_of_pending_update(p) ==> (r matches Ok(d) && record_of(d)
                == rec_of_pending_update(p)),
        forall|p: crate::events::OrderPendingCancel|
            p.wf() && rv(rec@) == rec_of_pending_cancel(p) ==> (r matches Ok(d) && record_of(d)
                == rec_of_pending_cancel(p)),
        forall|p: crate::events::OrderModifyRejected|
            p.wf() && rv(rec@) == rec_of_modify_rejected(p) ==> (r matches Ok(d) && record_of(d)
                == rec_of_modify_rejected(p)),
        forall|p: crate::events::OrderCancelRejected|
            p.wf() && rv(rec@) == rec_of_cancel_rejected(p) ==> (r matches Ok(d) && record_of(d)
                == rec_of_cancel_rejected(p)),
        forall|p: crate::events::OrderUpdated|
            p.wf() && rv(rec@) == rec_of_updated(p) ==> (r matches Ok(d) && record_of(d)
                == rec_of_updated(p)),
        forall|p: crate::events::OrderFilled|
            p.wf() && rv(rec@) == rec_of_part_filled(p) ==> (r matches Ok(d) && record_of(d)
                == rec_of_part_filled(p)),
        forall|p: crate::events::OrderFilled|
            p.wf() && rv(rec@) == rec_of_filled(p) ==> (r matches Ok(d) && record_of(d)
                == rec_of_filled(p)),
{
    broadcast use lemma_rec_of_initialized_index;
    broadcast use lemma_rec_of_denied_index;
    broadcast use lemma_rec_of_submitted_index;
    broadcast use lemma_rec_of_accepted_index;
    broadcast use lemma_rec_of_rejected_index;
    broadcast use lemma_rec_of_canceled_index;
    broadcast use lemma_rec_of_expired_index;
    broadcast use lemma_rec_of_triggered_index;
    broadcast use lemma_rec_of_pending_update_index;
    broadcast use lemma_rec_of_pending_cancel_index;
    broadcast use lemma_rec_of_modify_rejected_index;
    broadcast use lemma_rec_of_cancel_rejected_index;
    broadcast use lemma_rec_of_updated_index;
    broadcast use lemma_rec_of_part_filled_index;
    broadcast use lemma_rec_of_filled_index;

    proof {
        lemma_tag_facts();
    }
    let mut j: usize = 0;
    let tag = match take_field(rec, &mut j, "type") {
        Some(WireValue::Str(s)) => s,
        Some(_) => {
            return Err(FieldError::Mismatch(("type").as_bytes_vec()));
        },
        None => {
            return Err(FieldError::Missing(("type").as_bytes_vec()));
        },
    };
    if bytes_eq(&tag, &("OrderInitialized").as_bytes_vec()) {
        match from_record_initialized(rec) {
            Ok(p) => Ok(crate::events::OrderEvent::OrderInitialized(p)),
            Err(er) => Err(er),
        }
    } else if bytes_eq(&tag, &("OrderDenied").as_bytes_vec()) {
        match from_record_denied(rec) {
            Ok(p) => Ok(crate::events::OrderEvent::OrderDenied(p)),
            Err(er) => Err(er),
        }
    } else if bytes_eq(&tag, &("OrderSubmitted").as_bytes_vec()) {
        match from_record_submitted(rec) {
            Ok(p) => Ok(crate::events::OrderEvent::OrderSubmitted(p)),
            Err(er) => Err(er),
        }
    } else if bytes_eq(&tag, &("OrderAccepted").as_bytes_vec()) {
        match from_record_accepted(rec) {
            Ok(p) => Ok(crate::events::OrderEvent::OrderAccepted(p)),
            Err(er) => Err(er),
        }
    } else if bytes_eq(&tag, &("OrderRejected").as_bytes_vec()) {
        match from_record_rejected(rec) {
            Ok(p) => Ok(crate::events::OrderEvent::OrderRejected(p)),
            Err(er) => Err(er),
        }
    } else if bytes_eq(&tag, &("OrderCanceled").as_bytes_vec()) {
        match from_record_canceled(rec) {
            Ok(p) => Ok(crate::events::OrderEvent::OrderCanceled(p)),
            Err(er) => Err(er),
        }
    } else if bytes_eq(&tag, &("OrderExpired").as_bytes_vec()) {
        match from_record_expired(rec) {
            Ok(p) => Ok(crate::events::OrderEvent::OrderExpired(p)),
            Err(er) => Err(er),
        }
    } else if bytes_eq(&tag, &("OrderTriggered").as_bytes_vec()) {
        match from_record_triggered(rec) {
            Ok(p) => Ok(crate::events::OrderEvent::OrderTriggered(p)),
            Err(er) => Err(er),
        }
    } else if bytes_eq(&tag, &("OrderPendingUpdate").as_bytes_vec()) {
        match from_record_pending_update(rec) {
            Ok(p) => Ok(crate::events::OrderEvent::OrderPendingUpdate(p)),
            Err(er) => Err(er),
        }
    } else if bytes_eq(&tag, &("OrderPendingCancel").as_bytes_vec()) {
        match from_record_pending_cancel(rec) {
            Ok(p) => Ok(crate::events::OrderEvent::OrderPendingCancel(p)),
            Err(er) => Err(er),
        }
    } else if bytes_eq(&tag, &("OrderModifyRejected").as_bytes_vec()) {
        match from_record_modify_rejected(rec) {
            Ok(p) => Ok(crate::events::OrderEvent::OrderModifyRejected(p)),
            Err(er) => Err(er),
        }
    } else if bytes_eq(&tag, &("OrderCancelRejected").as_bytes_vec()) {
        match from_record_cancel_rejected(rec) {
            Ok(p) => Ok(crate::events::OrderEvent::OrderCancelRejected(p)),
            Err(er) => Err(er),
        }
    } else if bytes_eq(&tag, &("OrderUpdated").as_bytes_vec()) {
        match from_record_updated(rec) {
            Ok(p) => Ok(crate::events::OrderEvent::OrderUpdated(p)),
            Err(er) => Err(er),
        }
    } else if bytes_eq(&tag, &("OrderPartiallyFilled").as_bytes_vec()) {
        match from_record_part_filled(rec) {
            Ok(p) => Ok(crate::events::OrderEvent::OrderPartiallyFilled(p)),
            Err(er) => Err(er),
        }
    } else if bytes_eq(&tag, &("OrderFilled").as_bytes_vec()) {
        match from_record_filled(rec) {
            Ok(p) => Ok(crate::events::OrderEvent::OrderFilled(p)),
            Err(er) => Err(er),
        }
    } else {
        Err(FieldError::UnknownVariant)
    }
}


/// Every field name and type tag of the wire records is wire-safe text.
#[verifier::rlimit(100)]
#[verifier::spinoff_prover]
pub proof fn lemma_wire_literals()
    ensures
        wf_text(sbytes("OrderAccepted")),
        wf_text(sbytes("OrderCancelRejected")),
        wf_text(sbytes("OrderCanceled")),
        wf_text(sbytes("OrderDenied")),
        wf_text(sbytes("OrderExpired")),
        wf_text(sbytes("OrderFilled")),
        wf_text(sbytes("OrderInitialized")),
        wf_text(sbytes("OrderModifyRejected")),
        wf_text(sbytes("OrderPartiallyFilled")),
        wf_text(sbytes("OrderPendingCancel")),
        wf_text(sbytes("OrderPendingUpdate")),
        wf_text(sbytes("OrderRejected")),
        wf_text(sbytes("OrderSubmitted")),
        wf_text(sbytes("OrderTriggered")),
        wf_text(sbytes("OrderUpdated")),
        wf_text(sbytes("account_id")),
        wf_text(sbytes("client_order_id")),
        wf_text(sbytes("commission")),
        wf_text(sbytes("commission_currency")),
        wf_text(sbytes("contingency_type")),
        wf_text(sbytes("currency")),
        wf_text(sbytes("display_qty")),
        wf_text(sbytes("display_qty_prec")),
        wf_text(sbytes("emulation_trigger")),
        wf_text(sbytes("event_id")),
        wf_text(sbytes("expire_time")),
        wf_text(sbytes("instrument_id")),
        wf_text(sbytes("last_px")),
        wf_text(sbytes("last_px_prec")),
        wf_text(sbytes("last_qty")),
        wf_text(sbytes("last_qty_prec")),
        wf_text(sbytes("limit_offset")),
        wf_text(sbytes("limit_offset_prec")),
        wf_text(sbytes("liquidity_side")),
        wf_text(sbytes("order_list_id")),
        wf_text(sbytes("order_side")),
        wf_text(sbytes("order_type")),
        wf_text(sbytes("parent_order_id")),
        wf_text(sbytes("position_id")),
        wf_text(sbytes("post_only")),
        wf_text(sbytes("price")),
        wf_text(sbytes("price_prec")),
        wf_text(sbytes("quantity")),
        wf_text(sbytes("quantity_prec")),
        wf_text(sbytes("reason")),
        wf_text(sbytes("reconciliation")),
        wf_text(sbytes("reduce_only")),
        wf_text(sbytes("strategy_id")),
        wf_text(sbytes("tags")),
        wf_text(sbytes("time_in_force")),
        wf_text(sbytes("trade_id")),
        wf_text(sbytes("trader_id")),
        wf_text(sbytes("trailing_offset")),
        wf_text(sbytes("trailing_offset_prec")),
        wf_text(sbytes("trailing_offset_type")),
        wf_text(sbytes("trigger_price")),
        wf_text(sbytes("trigger_price_prec")),
        wf_text(sbytes("trigger_type")),
        wf_text(sbytes("ts_event")),
        wf_text(sbytes("ts_init")),
        wf_text(sbytes("type")),
        wf_text(sbytes("venue_order_id")),
{
    reveal_strlit("OrderAccepted");
    reveal_strlit("OrderCancelRejected");
    reveal_strlit("OrderCanceled");
    reveal_strlit("OrderDenied");
    reveal_strlit("OrderExpired");
    reveal_strlit("OrderFilled");
    reveal_strlit("OrderInitialized");
    reveal_strlit("OrderModifyRejected");
    reveal_strlit("OrderPartiallyFilled");
    reveal_strlit("OrderPendingCancel");
    reveal_strlit("OrderPendingUpdate");
    reveal_strlit("OrderRejected");
    reveal_strlit("OrderSubmitted");
    reveal_strlit("OrderTriggered");
    reveal_strlit("OrderUpdated");
    reveal_strlit("account_id");
    reveal_strlit("client_order_id");
    reveal_strlit("commission");
    reveal_strlit("commission_currency");
    reveal_strlit("contingency_type");
    reveal_strlit("currency");
    reveal_strlit("display_qty");
    reveal_strlit("display_qty_prec");
    reveal_strlit("emulation_trigger");
    reveal_strlit("event_id");
    reveal_strlit("expire_time");
    reveal_strlit("instrument_id");
    reveal_strlit("last_px");
    reveal_strlit("last_px_prec");
    reveal_strlit("last_qty");
    reveal_strlit("last_qty_prec");
    reveal_strlit("limit_offset");
    reveal_strlit("limit_offset_prec");
    reveal_strlit("liquidity_side");
    reveal_strlit("order_list_id");
    reveal_strlit("order_side");
    reveal_strlit("order_type");
    reveal_strlit("parent_order_id");
    reveal_strlit("position_id");
    reveal_strlit("post_only");
    reveal_strlit("price");
    reveal_strlit("price_prec");
    reveal_strlit("quantity");
    reveal_strlit("quantity_prec");
    reveal_strlit("reason");
    reveal_strlit("reconciliation");
    reveal_strlit("reduce_only");
    reveal_strlit("strategy_id");
    reveal_strlit("tags");
    reveal_strlit("time_in_force");
    reveal_strlit("trade_id");
    reveal_strlit("trader_id");
    reveal_strlit("trailing_offset");
    reveal_strlit("trailing_offset_prec");
    reveal_strlit("trailing_offset_type");
    reveal_strlit("trigger_price");
    reveal_strlit("trigger_price_prec");
    reveal_strlit("trigger_type");
    reveal_strlit("ts_event");
    reveal_strlit("ts_init");
    reveal_strlit("type");
    reveal_strlit("venue_order_id");
    vstd::utf8::is_ascii_chars_encode_utf8(("OrderAccepted")@);
    vstd::utf8::is_ascii_chars_encode_utf8(("OrderCancelRejected")@);
    vstd::utf8::is_ascii_chars_encode_utf8(("OrderCanceled")@);
    vstd::utf8::is_ascii_chars_encode_utf8(("OrderDenied")@);
    vstd::utf8::is_ascii_chars_encode_utf8(("OrderExpired")@);
    vstd::utf8::is_ascii_chars_encode_utf8(("OrderFilled")@);
    vstd::utf8::is_ascii_chars_encode_utf8(("OrderInitialized")@);
    vstd::utf8::is_ascii_chars_encode_utf8(("OrderModifyRejected")@);
    vstd::utf8::is_ascii_chars_encode_utf8(("OrderPartiallyFilled")@);
    vstd::utf8::is_ascii_chars_encode_utf8(("OrderPendingCancel")@);
    vstd::utf8::is_ascii_chars_encode_utf8(("OrderPendingUpdate")@);
    vstd::utf8::is_ascii_chars_encode_utf8(("OrderRejected")@);
    vstd::utf8::is_ascii_chars_encode_utf8(("OrderSubmitted")@);
    vstd::utf8::is_ascii_chars_encode_utf8(("OrderTriggered")@);
    vstd::utf8::is_ascii_chars_encode_utf8(("OrderUpdated")@);
    vstd::utf8::is_ascii_chars_encode_utf8(("account_id")@);
    vstd::utf8::is_ascii_chars_encode_utf8(("client_order_id")@);
    vstd::utf8::is_ascii_chars_encode_utf8(("commission")@);
    vstd::utf8::is_ascii_chars_encode_utf8(("commission_currency")@);
    vstd::utf8::is_ascii_chars_encode_utf8(("contingency_type")@);
    vstd::utf8::is_ascii_chars_encode_utf8(("currency")@);
    vstd::utf8::is_ascii_chars_encode_utf8(("display_qty")@);
    vstd::utf8::is_ascii_chars_encode_utf8(("display_qty_prec")@);
    vstd::utf8::is_ascii_chars_encode_utf8(("emulation_trigger")@);
    vstd::utf8::is_ascii_chars_encode_utf8(("event_id")@);
    vstd::utf8::is_ascii_chars_encode_utf8(("expire_time")@);
    vstd::utf8::is_ascii_chars_encode_utf8(("instrument_id")@);
    vstd::utf8::is_ascii_chars_encode_utf8(("last_px")@);
    vstd::utf8::is_ascii_chars_encode_utf8(("last_px_prec")@);
    vstd::utf8::is_ascii_chars_encode_utf8(("last_qty")@);
    vstd::utf8::is_ascii_chars_encode_utf8(("last_qty_prec")@);
    vstd::utf8::is_ascii_chars_encode_utf8(("limit_offset")@);
    vstd::utf8::is_ascii_chars_encode_utf8(("limit_offset_prec")@);
    vstd::utf8::is_ascii_chars_encode_utf8(("liquidity_side")@);
    vstd::utf8::is_ascii_chars_encode_utf8(("order_list_id")@);
    vstd::utf8::is_ascii_chars_encode_utf8(("order_side")@);
    vstd::utf8::is_ascii_chars_encode_utf8(("order_type")@);
    vstd::utf8::is_ascii_chars_encode_utf8(("parent_order_id")@);
    vstd::utf8::is_ascii_chars_encode_utf8(("position_id")@);
    vstd::utf8::is_ascii_chars_encode_utf8(("post_only")@);
    vstd::utf8::is_ascii_chars_encode_utf8(("price")@);
    vstd::utf8::is_ascii_chars_encode_utf8(("price_prec")@);
    vstd::utf8::is_ascii_chars_encode_utf8(("quantity")@);
    vstd::utf8::is_ascii_chars_encode_utf8(("quantity_prec")@);
    vstd::utf8::is_ascii_chars_encode_utf8(("reason")@);
    vstd::utf8::is_ascii_chars_encode_utf8(("reconciliation")@);
    vstd::utf8::is_ascii_chars_encode_utf8(("reduce_only")@);
    vstd::utf8::is_ascii_chars_encode_utf8(("strategy_id")@);
    vstd::utf8::is_ascii_chars_encode_utf8(("tags")@);
    vstd::utf8::is_ascii_chars_encode_utf8(("time_in_force")@);
    vstd::utf8::is_ascii_chars_encode_utf8(("trade_id")@);
    vstd::utf8::is_ascii_chars_encode_utf8(("trader_id")@);
    vstd::utf8::is_ascii_chars_encode_utf8(("trailing_offset")@);
    vstd::utf8::is_ascii_chars_encode_utf8(("trailing_offset_prec")@);
    vstd::utf8::is_ascii_chars_encode_utf8(("trailing_offset_type")@);
    vstd::utf8::is_ascii_chars_encode_utf8(("trigger_price")@);
    vstd::utf8::is_ascii_chars_encode_utf8(("trigger_price_prec")@);
    vstd::utf8::is_ascii_chars_encode_utf8(("trigger_type")@);
    vstd::utf8::is_ascii_chars_encode_utf8(("ts_event")@);
    vstd::utf8::is_ascii_chars_encode_utf8(("ts_init")@);
    vstd::utf8::is_ascii_chars_encode_utf8(("type")@);
    vstd::utf8::is_ascii_chars_encode_utf8(("venue_order_id")@);
}

#[verifier::rlimit(100)]
#[verifier::spinoff_prover]
proof fn lemma_rec_of_initialized_wf(p: crate::events::OrderInitialized)
    requires
        p.wf(),
    ensures
        record_wf(rec_of_initialized(p)),
{
    broadcast use lemma_rec_of_initialized_index;

    lemma_wire_literals();
    assert forall|i: int| 0 <= i < rec_of_initialized(p).len() implies wf_text(
        #[trigger] rec_of_initialized(p)[i].0) && wv_wf(rec_of_initialized(p)[i].1) by {
    }
}

#[verifier::rlimit(100)]
#[verifier::spinoff_prover]
proof fn lemma_rec_of_denied_wf(p: crate::events::OrderDenied)
    requires
        p.wf(),
    ensures
        record_wf(rec_of_denied(p)),
{
    broadcast use lemma_rec_of_denied_index;

    lemma_wire_literals();
    assert forall|i: int| 0 <= i < rec_of_denied(p).len() implies wf_text(
        #[trigger] rec_of_denied(p)[i].0) && wv_wf(rec_of_denied(p)[i].1) by {
    }
}

#[verifier::rlimit(100)]
#[verifier::spinoff_prover]
proof fn lemma_rec_of_submitted_wf(p: crate::events::OrderSubmitted)
    requires
        p.wf(),
    ensures
        record_wf(rec_of_submitted(p)),
{
    broadcast use lemma_rec_of_submitted_index;

    lemma_wire_literals();
    assert forall|i: int| 0 <= i < rec_of_submitted(p).len() implies wf_text(
        #[trigger] rec_of_submitted(p)[i].0) && wv_wf(rec_of_submitted(p)[i].1) by {
    }
}

#[verifier::rlimit(100)]
#[verifier::spinoff_prover]
proof fn lemma_rec_of_accepted_wf(p: crate::events::OrderAccepted)
    requires
        p.wf(),
    ensures
        record_wf(rec_of_accepted(p)),
{
    broadcast use lemma_rec_of_accepted_index;

    lemma_wire_literals();
    assert forall|i: int| 0 <= i < rec_of_accepted(p).len() implies wf_text(
        #[trigger] rec_of_accepted(p)[i].0) && wv_wf(rec_of_accepted(p)[i].1) by {
    }
}

#[verifier::rlimit(100)]
#[verifier::spinoff_prover]
proof fn lemma_rec_of_rejected_wf(p: crate::events::OrderRejected)
    requires
        p.wf(),
    ensures
        record_wf(rec_of_rejected(p)),
{
    broadcast use lemma_rec_of_rejected_index;

    lemma_wire_literals();
    assert forall|i: int| 0 <= i < rec_of_rejected(p).len() implies wf_text(
        #[trigger] rec_of_rejected(p)[i].0) && wv_wf(rec_of_rejected(p)[i].1) by {
    }
}

#[verifier::rlimit(100)]
#[verifier::spinoff_prover]
proof fn lemma_rec_of_canceled_wf(p: crate::events::OrderCanceled)
    requires
        p.wf(),
    ensures
        record_wf(rec_of_canceled(p)),
{
    broadcast use lemma_rec_of_canceled_index;

    lemma_wire_literals();
    assert forall|i: int| 0 <= i < rec_of_canceled(p).len() implies wf_text(
        #[trigger] rec_of_canceled(p)[i].0) && wv_wf(rec_of_canceled(p)[i].1) by {
    }
}

#[verifier::rlimit(100)]
#[verifier::spinoff_prover]
proof fn lemma_rec_of_expired_wf(p: crate::events::OrderExpired)
    requires
        p.wf(),
    ensures
        record_wf(rec_of_expired(p)),
{
    broadcast use lemma_rec_of_expired_index;

    lemma_wire_literals();
    assert forall|i: int| 0 <= i < rec_of_expired(p).len() implies wf_text(
        #[trigger] rec_of_expired(p)[i].0) && wv_wf(rec_of_expired(p)[i].1) by {
    }
}

#[verifier::rlimit(100)]
#[verifier::spinoff_prover]
proof fn lemma_rec_of_triggered_wf(p: crate::events::OrderTriggered)
    requires
        p.wf(),
    ensures
        record_wf(rec_of_triggered(p)),
{
    broadcast use lemma_rec_of_triggered_index;

    lemma_wire_literals();
    assert forall|i: int| 0 <= i < rec_of_triggered(p).len() implies wf_text(
        #[trigger] rec_of_triggered(p)[i].0) && wv_wf(rec_of_triggered(p)[i].1) by {
    }
}

#[verifier::rlimit(100)]
#[verifier::spinoff_prover]
proof fn lemma_rec_of_pending_update_wf(p: crate::events::OrderPendingUpdate)
    requires
        p.wf(),
    ensures
        record_wf(rec_of_pending_update(p)),
{
    broadcast use lemma_rec_of_pending_update_index;

    lemma_wire_literals();
    assert forall|i: int| 0 <= i < rec_of_pending_update(p).len() implies wf_text(
        #[trigger] rec_of_pending_update(p)[i].0) && wv_wf(rec_of_pending_update(p)[i].1) by {
    }
}

#[verifier::rlimit(100)]
#[verifier::spinoff_prover]
proof fn lemma_rec_of_pending_cancel_wf(p: crate::events::OrderPendingCancel)
    requires
        p.wf(),
    ensures
        record_wf(rec_of_pending_cancel(p)),
{
    broadcast use lemma_rec_of_pending_cancel_index;

    lemma_wire_literals();
    assert forall|i: int| 0 <= i < rec_of_pending_cancel(p).len() implies wf_text(
        #[trigger] rec_of_pending_cancel(p)[i].0) && wv_wf(rec_of_pending_cancel(p)[i].1) by {
    }
}

#[verifier::rlimit(100)]
#[verifier::spinoff_prover]
proof fn lemma_rec_of_modify_rejected_wf(p: crate::events::OrderModifyRejected)
    requires
        p.wf(),
    ensures
        record_wf(rec_of_modify_rejected(p)),
{
    broadcast use lemma_rec_of_modify_rejected_index;

    lemma_wire_literals();
    assert forall|i: int| 0 <= i < rec_of_modify_rejected(p).len() implies wf_text(
        #[trigger] rec_of_modify_rejected(p)[i].0) && wv_wf(rec_of_modify_rejected(p)[i].1) by {
    }
}

#[verifier::rlimit(100)]
#[verifier::spinoff_prover]
proof fn lemma_rec_of_cancel_rejected_wf(p: crate::events::OrderCancelRejected)
    requires
        p.wf(),
    ensures
        record_wf(rec_of_cancel_rejected(p)),
{
    broadcast use lemma_rec_of_cancel_rejected_index;

    lemma_wire_literals();
    assert forall|i: int| 0 <= i < rec_of_cancel_rejected(p).len() implies wf_text(
        #[trigger] rec_of_cancel_rejected(p)[i].0) && wv_wf(rec_of_cancel_rejected(p)[i].1) by {
    }
}

#[verifier::rlimit(100)]
#[verifier::spinoff_prover]
proof fn lemma_rec_of_updated_wf(p: crate::events::OrderUpdated)
    requires
        p.wf(),
    ensures
        record_wf(rec_of_updated(p)),
{
    broadcast use lemma_rec_of_updated_index;

    lemma_wire_literals();
    assert forall|i: int| 0 <= i < rec_of_updated(p).len() implies wf_text(
        #[trigger] rec_of_updated(p)[i].0) && wv_wf(rec_of_updated(p)[i].1) by {
    }
}

#[verifier::rlimit(100)]
#[verifier::spinoff_prover]
proof fn lemma_rec_of_part_filled_wf(p: crate::events::OrderFilled)
    requires
        p.wf(),
    ensures
        record_wf(rec_of_part_filled(p)),
{
    broadcast use lemma_rec_of_part_filled_index;

    lemma_wire_literals();
    assert forall|i: int| 0 <= i < rec_of_part_filled(p).len() implies wf_text(
        #[trigger] rec_of_part_filled(p)[i].0) && wv_wf(rec_of_part_filled(p)[i].1) by {
    }
}

#[verifier::rlimit(100)]
#[verifier::spinoff_prover]
proof fn lemma_rec_of_filled_wf(p: crate::events::OrderFilled)
    requires
        p.wf(),
    ensures
        record_wf(rec_of_filled(p)),
{
    broadcast use lemma_rec_of_filled_index;

    lemma_wire_literals();
    assert forall|i: int| 0 <= i < rec_of_filled(p).len() implies wf_text(
        #[trigger] rec_of_filled(p)[i].0) && wv_wf(rec_of_filled(p)[i].1) by {
    }
}

/// The record of any well-formed event is wire-safe: keys and tags are
/// fixed wire-safe literals, and its text values are wire-safe by the
/// event's own well-formedness.
pub proof fn lemma_record_of_wf(e: crate::events::OrderEvent)
    requires
        e.wf(),
    ensures
        record_wf(record_of(e)),
{
    match e {
        crate::events::OrderEvent::OrderInitialized(p) => {
            lemma_rec_of_initialized_wf(p);
        },
        crate::events::OrderEvent::OrderDenied(p) => {
            lemma_rec_of_denied_wf(p);
        },
        crate::events::OrderEvent::OrderSubmitted(p) => {
            lemma_rec_of_submitted_wf(p);
        },
        crate::events::OrderEvent::OrderAccepted(p) => {
            lemma_rec_of_accepted_wf(p);
        },
        crate::events::OrderEvent::OrderRejected(p) => {
            lemma_rec_of_rejected_wf(p);
        },
        crate::events::OrderEvent::OrderCanceled(p) => {
            lemma_rec_of_canceled_wf(p);
        },
        crate::events::OrderEvent::OrderExpired(p) => {
            lemma_rec_of_expired_wf(p);
        },
        crate::events::OrderEvent::OrderTriggered(p) => {
            lemma_rec_of_triggered_wf(p);
        },
        crate::events::OrderEvent::OrderPendingUpdate(p) => {
            lemma_rec_of_pending_update_wf(p);
        },
        crate::events::OrderEvent::OrderPendingCancel(p) => {
            lemma_rec_of_pending_cancel_wf(p);
        },
        crate::events::OrderEvent::OrderModifyRejected(p) => {
            lemma_rec_of_modify_rejected_wf(p);
        },
        crate::events::OrderEvent::OrderCancelRejected(p) => {
            lemma_rec_of_cancel_rejected_wf(p);
        },
        crate::events::OrderEvent::OrderUpdated(p) => {
            lemma_rec_of_updated_wf(p);
        },
        crate::events::OrderEvent::OrderPartiallyFilled(p) => {
            lemma_rec_of_part_filled_wf(p);
        },
        crate::events::OrderEvent::OrderFilled(p) => {
            lemma_rec_of_filled_wf(p);
        },
    }
}

} // verus!
