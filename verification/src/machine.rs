//! The order state machine: a pure fold of order-lifecycle events into the
//! order's current state.
//!
//! `apply` never mutates: it returns the next state or a `TransitionError`,
//! and the caller decides what to do with a rejected event.  The whole
//! transition relation is the spec function [`spec_apply`], which `apply` is
//! proved to implement exactly.

use vstd::prelude::*;
use crate::types::{ClientOrderId, UUID4, Quantity, Price, copy_bytes, bytes_eq};
use crate::events::{OrderEvent, OrderInitialized, OrderFilled};

verus! {

#[derive(Clone, Copy, PartialEq, Eq, Structural, Debug)]
pub enum OrderStatus {
    Initialized,
    Denied,
    Submitted,
    Accepted,
    Rejected,
    Canceled,
    Expired,
    Triggered,
    PendingUpdate,
    PendingCancel,
    PartiallyFilled,
    Filled,
}

#[derive(Clone, Copy, PartialEq, Eq, Structural, Debug)]
pub enum TransitionError {
    IllegalTransition,
    Overfill,
    OutOfOrder,
    TerminalStateViolation,
}

/// No further transitions are accepted from a terminal status (absent
/// reconciliation).
pub open spec fn is_terminal(st: OrderStatus) -> bool {
    ||| st == OrderStatus::Denied
    ||| st == OrderStatus::Rejected
    ||| st == OrderStatus::Canceled
    ||| st == OrderStatus::Expired
    ||| st == OrderStatus::Filled
}

pub open spec fn is_pending(st: OrderStatus) -> bool {
    st == OrderStatus::PendingUpdate || st == OrderStatus::PendingCancel
}

/// The statuses from which venue notifications (trigger, update, pending,
/// cancel, expire, fill) are legal.
pub open spec fn is_active(st: OrderStatus) -> bool {
    ||| st == OrderStatus::Accepted
    ||| st == OrderStatus::Triggered
    ||| st == OrderStatus::PendingUpdate
    ||| st == OrderStatus::PendingCancel
    ||| st == OrderStatus::PartiallyFilled
}

/// Mathematical model of an order's folded state.
pub struct StateV {
    pub client_order_id: Seq<u8>,
    pub status: OrderStatus,
    /// Last non-pending status, restored when a modify or cancel request is
    /// rejected.
    pub prior_status: OrderStatus,
    pub total_qty_raw: u64,
    pub qty_precision: u8,
    pub filled_qty_raw: u64,
    /// Sum over fills of `last_qty.raw * last_px.raw`: the numerator of the
    /// volume-weighted average fill price.
    pub px_qty_sum: u128,
    pub px_precision: u8,
    pub last_event_id: Seq<u8>,
    pub last_ts_event: u64,
    pub reason: Option<Seq<u8>>,
}

impl StateV {
    pub open spec fn wf(self) -> bool {
        &&& self.filled_qty_raw <= self.total_qty_raw
        &&& self.px_qty_sum <= (self.filled_qty_raw as u128) * 0xffff_ffff_ffff_ffffu128
        &&& !is_pending(self.prior_status)
    }
}

pub open spec fn max_u64(a: u64, b: u64) -> u64 {
    if a >= b { a } else { b }
}

/// One fill folded into the state: quantities accumulate, the average-price
/// numerator grows, and the status becomes `PartiallyFilled` or, exactly at
/// the initialized total, `Filled`.
pub open spec fn spec_apply_fill(s: StateV, last_qty: Quantity, last_px: Price,
    event_id: Seq<u8>, ts_event: u64) -> Result<StateV, TransitionError> {
    if last_qty.raw > s.total_qty_raw - s.filled_qty_raw {
        Err(TransitionError::Overfill)
    } else {
        let new_filled = (s.filled_qty_raw + last_qty.raw) as u64;
        let new_status = if new_filled == s.total_qty_raw {
            OrderStatus::Filled
        } else {
            OrderStatus::PartiallyFilled
        };
        Ok(StateV {
            status: new_status,
            prior_status: new_status,
            filled_qty_raw: new_filled,
            px_qty_sum: (s.px_qty_sum + (last_qty.raw as u128) * (last_px.raw as u128)) as u128,
            px_precision: last_px.precision,
            last_event_id: event_id,
            last_ts_event: max_u64(s.last_ts_event, ts_event),
            ..s
        })
    }
}

/// The transition step proper, after deduplication, key, terminal and
/// ordering checks have passed.
pub open spec fn spec_step(s: StateV, e: OrderEvent) -> Result<StateV, TransitionError> {
    match e {
        OrderEvent::OrderInitialized(_) => Err(TransitionError::IllegalTransition),
        OrderEvent::OrderDenied(p) => {
            if s.status == OrderStatus::Initialized {
                Ok(StateV {
                    status: OrderStatus::Denied,
                    reason: Some(p.reason@),
                    last_event_id: p.event_id@,
                    last_ts_event: max_u64(s.last_ts_event, p.ts_event),
                    ..s
                })
            } else {
                Err(TransitionError::IllegalTransition)
            }
        },
        OrderEvent::OrderSubmitted(p) => {
            if s.status == OrderStatus::Initialized {
                Ok(StateV {
                    status: OrderStatus::Submitted,
                    prior_status: OrderStatus::Submitted,
                    last_event_id: p.event_id@,
                    last_ts_event: max_u64(s.last_ts_event, p.ts_event),
                    ..s
                })
            } else {
                Err(TransitionError::IllegalTransition)
            }
        },
        OrderEvent::OrderAccepted(p) => {
            if s.status == OrderStatus::Submitted {
                Ok(StateV {
                    status: OrderStatus::Accepted,
                    prior_status: OrderStatus::Accepted,
                    last_event_id: p.event_id@,
                    last_ts_event: max_u64(s.last_ts_event, p.ts_event),
                    ..s
                })
            } else {
                Err(TransitionError::IllegalTransition)
            }
        },
        OrderEvent::OrderRejected(p) => {
            if s.status == OrderStatus::Submitted {
                Ok(StateV {
                    status: OrderStatus::Rejected,
                    reason: Some(p.reason@),
                    last_event_id: p.event_id@,
                    last_ts_event: max_u64(s.last_ts_event, p.ts_event),
                    ..s
                })
            } else {
                Err(TransitionError::IllegalTransition)
            }
        },
        OrderEvent::OrderCanceled(p) => {
            if is_active(s.status) && p.venue_order_id is Some && p.account_id is Some {
                Ok(StateV {
                    status: OrderStatus::Canceled,
                    last_event_id: p.event_id@,
                    last_ts_event: max_u64(s.last_ts_event, p.ts_event),
                    ..s
                })
            } else {
                Err(TransitionError::IllegalTransition)
            }
        },
        OrderEvent::OrderExpired(p) => {
            if is_active(s.status) && p.venue_order_id is Some && p.account_id is Some {
                Ok(StateV {
                    status: OrderStatus::Expired,
                    last_event_id: p.event_id@,
                    last_ts_event: max_u64(s.last_ts_event, p.ts_event),
                    ..s
                })
            } else {
                Err(TransitionError::IllegalTransition)
            }
        },
        OrderEvent::OrderTriggered(p) => {
            if is_active(s.status) && p.venue_order_id is Some && p.account_id is Some {
                Ok(StateV {
                    status: OrderStatus::Triggered,
                    prior_status: OrderStatus::Triggered,
                    last_event_id: p.event_id@,
                    last_ts_event: max_u64(s.last_ts_event, p.ts_event),
                    ..s
                })
            } else {
                Err(TransitionError::IllegalTransition)
            }
        },
        OrderEvent::OrderPendingUpdate(p) => {
            if is_active(s.status) && p.venue_order_id is Some {
                Ok(StateV {
                    status: OrderStatus::PendingUpdate,
                    prior_status: if is_pending(s.status) { s.prior_status } else { s.status },
                    last_event_id: p.event_id@,
                    last_ts_event: max_u64(s.last_ts_event, p.ts_event),
                    ..s
                })
            } else {
                Err(TransitionError::IllegalTransition)
            }
        },
        OrderEvent::OrderPendingCancel(p) => {
            if is_active(s.status) && p.venue_order_id is Some {
                Ok(StateV {
                    status: OrderStatus::PendingCancel,
                    prior_status: if is_pending(s.status) { s.prior_status } else { s.status },
                    last_event_id: p.event_id@,
                    last_ts_event: max_u64(s.last_ts_event, p.ts_event),
                    ..s
                })
            } else {
                Err(TransitionError::IllegalTransition)
            }
        },
        OrderEvent::OrderModifyRejected(p) => {
            if is_active(s.status) && p.venue_order_id is Some && p.account_id is Some {
                Ok(StateV {
                    status: if is_pending(s.status) { s.prior_status } else { s.status },
                    last_event_id: p.event_id@,
                    last_ts_event: max_u64(s.last_ts_event, p.ts_event),
                    ..s
                })
            } else {
                Err(TransitionError::IllegalTransition)
            }
        },
        OrderEvent::OrderCancelRejected(p) => {
            if is_active(s.status) && p.venue_order_id is Some && p.account_id is Some {
                Ok(StateV {
                    status: if is_pending(s.status) { s.prior_status } else { s.status },
                    last_event_id: p.event_id@,
                    last_ts_event: max_u64(s.last_ts_event, p.ts_event),
                    ..s
                })
            } else {
                Err(TransitionError::IllegalTransition)
            }
        },
        OrderEvent::OrderUpdated(p) => {
            if !(is_active(s.status) && p.venue_order_id is Some && p.account_id is Some) {
                Err(TransitionError::IllegalTransition)
            } else if p.quantity.raw < s.filled_qty_raw {
                Err(TransitionError::Overfill)
            } else {
                Ok(StateV {
                    total_qty_raw: p.quantity.raw,
                    qty_precision: p.quantity.precision,
                    last_event_id: p.event_id@,
                    last_ts_event: max_u64(s.last_ts_event, p.ts_event),
                    ..s
                })
            }
        },
        OrderEvent::OrderPartiallyFilled(p) => {
            if is_active(s.status) {
                spec_apply_fill(s, p.last_qty, p.last_px, p.event_id@, p.ts_event)
            } else {
                Err(TransitionError::IllegalTransition)
            }
        },
        OrderEvent::OrderFilled(p) => {
            if is_active(s.status) {
                spec_apply_fill(s, p.last_qty, p.last_px, p.event_id@, p.ts_event)
            } else {
                Err(TransitionError::IllegalTransition)
            }
        },
    }
}

/// The complete transition relation.
///
/// In order: idempotent replay (an event whose identifier matches the last
/// applied one is a no-op success), the fold key check, the terminal check
/// (a terminal order absorbs reconciliation events unchanged and rejects
/// everything else), the ordering check (an event older than the last
/// applied one is rejected unless it is a reconciliation event), then the
/// transition table of [`spec_step`].
pub open spec fn spec_apply(s: StateV, e: OrderEvent) -> Result<StateV, TransitionError> {
    if e.spec_event_id() == s.last_event_id {
        Ok(s)
    } else if e.spec_client_order_id() != s.client_order_id {
        Err(TransitionError::IllegalTransition)
    } else if is_terminal(s.status) {
        if e.spec_reconciliation() {
            Ok(s)
        } else {
            Err(TransitionError::TerminalStateViolation)
        }
    } else if e.spec_ts_event() < s.last_ts_event && !e.spec_reconciliation() {
        Err(TransitionError::OutOfOrder)
    } else {
        spec_step(s, e)
    }
}

/// An order's folded state: derived from events, never mutated in place.
pub struct OrderState {
    pub client_order_id: ClientOrderId,
    pub status: OrderStatus,
    pub prior_status: OrderStatus,
    pub total_qty_raw: u64,
    pub qty_precision: u8,
    pub filled_qty_raw: u64,
    pub px_qty_sum: u128,
    pub px_precision: u8,
    pub last_event_id: UUID4,
    pub last_ts_event: u64,
    pub reason: Option<Vec<u8>>,
}

impl View for OrderState {
    type V = StateV;

    open spec fn view(&self) -> StateV {
        StateV {
            client_order_id: self.client_order_id@,
            status: self.status,
            prior_status: self.prior_status,
            total_qty_raw: self.total_qty_raw,
            qty_precision: self.qty_precision,
            filled_qty_raw: self.filled_qty_raw,
            px_qty_sum: self.px_qty_sum,
            px_precision: self.px_precision,
            last_event_id: self.last_event_id@,
            last_ts_event: self.last_ts_event,
            reason: match self.reason {
                Some(r) => Some(r@),
                None => None,
            },
        }
    }
}

impl OrderState {
    /// The state an order is created in by its first `OrderInitialized`
    /// event.
    pub fn initial(e: &OrderInitialized) -> (r: Self)
        ensures
            r@ == (StateV {
                client_order_id: e.client_order_id@,
                status: OrderStatus::Initialized,
                prior_status: OrderStatus::Initialized,
                total_qty_raw: e.quantity.raw,
                qty_precision: e.quantity.precision,
                filled_qty_raw: 0,
                px_qty_sum: 0,
                px_precision: 0,
                last_event_id: e.event_id@,
                last_ts_event: e.ts_event,
                reason: None,
            }),
            r@.wf(),
    {
        OrderState {
            client_order_id: e.client_order_id.clone(),
            status: OrderStatus::Initialized,
            prior_status: OrderStatus::Initialized,
            total_qty_raw: e.quantity.raw,
            qty_precision: e.quantity.precision,
            filled_qty_raw: 0,
            px_qty_sum: 0,
            px_precision: 0,
            last_event_id: e.event_id.clone(),
            last_ts_event: e.ts_event,
            reason: None,
        }
    }

    /// Raw volume-weighted average fill price (scaled by `10^px_precision`),
    /// rounded toward zero; `None` before the first fill.
    pub fn avg_px_raw(&self) -> (r: Option<u128>)
        ensures
            self.filled_qty_raw == 0 ==> r is None,
            self.filled_qty_raw > 0 ==> r == Some(
                (self.px_qty_sum / (self.filled_qty_raw as u128)) as u128,
            ),
    {
        if self.filled_qty_raw == 0 {
            None
        } else {
            Some(self.px_qty_sum / (self.filled_qty_raw as u128))
        }
    }
}

pub fn is_terminal_status(st: OrderStatus) -> (r: bool)
    ensures
        r == is_terminal(st),
{
    match st {
        OrderStatus::Denied => true,
        OrderStatus::Rejected => true,
        OrderStatus::Canceled => true,
        OrderStatus::Expired => true,
        OrderStatus::Filled => true,
        _ => false,
    }
}

pub fn is_pending_status(st: OrderStatus) -> (r: bool)
    ensures
        r == is_pending(st),
{
    match st {
        OrderStatus::PendingUpdate => true,
        OrderStatus::PendingCancel => true,
        _ => false,
    }
}

pub fn is_active_status(st: OrderStatus) -> (r: bool)
    ensures
        r == is_active(st),
{
    match st {
        OrderStatus::Accepted => true,
        OrderStatus::Triggered => true,
        OrderStatus::PendingUpdate => true,
        OrderStatus::PendingCancel => true,
        OrderStatus::PartiallyFilled => true,
        _ => false,
    }
}

fn event_id_of(e: &OrderEvent) -> (r: &UUID4)
    ensures
        r@ == e.spec_event_id(),
{
    match e {
        OrderEvent::OrderInitialized(p) => &p.event_id,
        OrderEvent::OrderDenied(p) => &p.event_id,
        OrderEvent::OrderSubmitted(p) => &p.event_id,
        OrderEvent::OrderAccepted(p) => &p.event_id,
        OrderEvent::OrderRejected(p) => &p.event_id,
        OrderEvent::OrderCanceled(p) => &p.event_id,
        OrderEvent::OrderExpired(p) => &p.event_id,
        OrderEvent::OrderTriggered(p) => &p.event_id,
        OrderEvent::OrderPendingUpdate(p) => &p.event_id,
        OrderEvent::OrderPendingCancel(p) => &p.event_id,
        OrderEvent::OrderModifyRejected(p) => &p.event_id,
        OrderEvent::OrderCancelRejected(p) => &p.event_id,
        OrderEvent::OrderUpdated(p) => &p.event_id,
        OrderEvent::OrderPartiallyFilled(p) => &p.event_id,
        OrderEvent::OrderFilled(p) => &p.event_id,
    }
}

fn client_order_id_of(e: &OrderEvent) -> (r: &ClientOrderId)
    ensures
        r@ == e.spec_client_order_id(),
{
    match e {
        OrderEvent::OrderInitialized(p) => &p.client_order_id,
        OrderEvent::OrderDenied(p) => &p.client_order_id,
        OrderEvent::OrderSubmitted(p) => &p.client_order_id,
        OrderEvent::OrderAccepted(p) => &p.client_order_id,
        OrderEvent::OrderRejected(p) => &p.client_order_id,
        OrderEvent::OrderCanceled(p) => &p.client_order_id,
        OrderEvent::OrderExpired(p) => &p.client_order_id,
        OrderEvent::OrderTriggered(p) => &p.client_order_id,
        OrderEvent::OrderPendingUpdate(p) => &p.client_order_id,
        OrderEvent::OrderPendingCancel(p) => &p.client_order_id,
        OrderEvent::OrderModifyRejected(p) => &p.client_order_id,
        OrderEvent::OrderCancelRejected(p) => &p.client_order_id,
        OrderEvent::OrderUpdated(p) => &p.client_order_id,
        OrderEvent::OrderPartiallyFilled(p) => &p.client_order_id,
        OrderEvent::OrderFilled(p) => &p.client_order_id,
    }
}

fn ts_event_of(e: &OrderEvent) -> (r: u64)
    ensures
        r == e.spec_ts_event(),
{
    match e {
        OrderEvent::OrderInitialized(p) => p.ts_event,
        OrderEvent::OrderDenied(p) => p.ts_event,
        OrderEvent::OrderSubmitted(p) => p.ts_event,
        OrderEvent::OrderAccepted(p) => p.ts_event,
        OrderEvent::OrderRejected(p) => p.ts_event,
        OrderEvent::OrderCanceled(p) => p.ts_event,
        OrderEvent::OrderExpired(p) => p.ts_event,
        OrderEvent::OrderTriggered(p) => p.ts_event,
        OrderEvent::OrderPendingUpdate(p) => p.ts_event,
        OrderEvent::OrderPendingCancel(p) => p.ts_event,
        OrderEvent::OrderModifyRejected(p) => p.ts_event,
        OrderEvent::OrderCancelRejected(p) => p.ts_event,
        OrderEvent::OrderUpdated(p) => p.ts_event,
        OrderEvent::OrderPartiallyFilled(p) => p.ts_event,
        OrderEvent::OrderFilled(p) => p.ts_event,
    }
}

fn reconciliation_of(e: &OrderEvent) -> (r: bool)
    ensures
        r == e.spec_reconciliation(),
{
    match e {
        OrderEvent::OrderInitialized(p) => p.reconciliation,
        OrderEvent::OrderDenied(_) => false,
        OrderEvent::OrderSubmitted(_) => false,
        OrderEvent::OrderAccepted(p) => p.reconciliation,
        OrderEvent::OrderRejected(p) => p.reconciliation,
        OrderEvent::OrderCanceled(p) => p.reconciliation,
        OrderEvent::OrderExpired(p) => p.reconciliation,
        OrderEvent::OrderTriggered(p) => p.reconciliation,
        OrderEvent::OrderPendingUpdate(p) => p.reconciliation,
        OrderEvent::OrderPendingCancel(p) => p.reconciliation,
        OrderEvent::OrderModifyRejected(p) => p.reconciliation,
        OrderEvent::OrderCancelRejected(p) => p.reconciliation,
        OrderEvent::OrderUpdated(p) => p.reconciliation,
        OrderEvent::OrderPartiallyFilled(p) => p.reconciliation,
        OrderEvent::OrderFilled(p) => p.reconciliation,
    }
}

fn clone_opt_bytes(o: &Option<Vec<u8>>) -> (r: Option<Vec<u8>>)
    ensures
        (match o {
            Some(v) => r matches Some(w) && w@ == v@,
            None => r is None,
        }),
{
    match o {
        Some(v) => Some(copy_bytes(v)),
        None => None,
    }
}

fn max64(a: u64, b: u64) -> (r: u64)
    ensures
        r == max_u64(a, b),
{
    if a >= b {
        a
    } else {
        b
    }
}

/// Bounds for folding one fill: the product and the grown numerator both fit,
/// and the grown state keeps the average-price numerator invariant.
proof fn lemma_fill_bound(s: StateV, lq: u64, lpx: u64)
    requires
        s.wf(),
        lq <= s.total_qty_raw - s.filled_qty_raw,
    ensures
        (lq as u128) * (lpx as u128) <= 0xffff_ffff_ffff_ffffu128 * 0xffff_ffff_ffff_ffffu128,
        s.px_qty_sum + (lq as u128) * (lpx as u128) <= ((s.filled_qty_raw + lq) as u128)
            * 0xffff_ffff_ffff_ffffu128,
        ((s.filled_qty_raw + lq) as u128) * 0xffff_ffff_ffff_ffffu128 <= 0xffff_ffff_ffff_ffffu128
            * 0xffff_ffff_ffff_ffffu128,
{
    let m: u128 = 0xffff_ffff_ffff_ffffu128;
    let lq1 = lq as u128;
    let lpx1 = lpx as u128;
    let f = s.filled_qty_raw as u128;
    assert(lq1 * lpx1 <= lq1 * m) by (nonlinear_arith)
        requires lpx1 <= m,
    ;
    assert(s.px_qty_sum + lq1 * lpx1 <= f * m + lq1 * m) by {
        assert(s.px_qty_sum <= f * m);
    }
    assert(f * m + lq1 * m == (f + lq1) * m) by (nonlinear_arith);
    assert((f + lq1) * m <= m * m) by (nonlinear_arith)
        requires f + lq1 <= m,
    ;
    assert(lq1 * m <= m * m) by (nonlinear_arith)
        requires lq1 <= m,
    ;
}

impl OrderState {
    /// Deep, independent copy.
    pub fn clone_state(&self) -> (r: Self)
        ensures
            r@ == self@,
    {
        OrderState {
            client_order_id: self.client_order_id.clone(),
            status: self.status,
            prior_status: self.prior_status,
            total_qty_raw: self.total_qty_raw,
            qty_precision: self.qty_precision,
            filled_qty_raw: self.filled_qty_raw,
            px_qty_sum: self.px_qty_sum,
            px_precision: self.px_precision,
            last_event_id: self.last_event_id.clone(),
            last_ts_event: self.last_ts_event,
            reason: clone_opt_bytes(&self.reason),
        }
    }

    /// The common shape of a non-fill transition: new status and prior
    /// status, the event recorded as last applied, and optionally a denial
    /// or rejection reason.
    fn next_base(&self, status: OrderStatus, prior_status: OrderStatus, event_id: &UUID4,
        ts_event: u64, reason: Option<&Vec<u8>>) -> (r: Self)
        ensures
            r@ == (StateV {
                status,
                prior_status,
                last_event_id: event_id@,
                last_ts_event: max_u64(self@.last_ts_event, ts_event),
                reason: match reason {
                    Some(v) => Some(v@),
                    None => self@.reason,
                },
                ..self@
            }),
    {
        OrderState {
            client_order_id: self.client_order_id.clone(),
            status,
            prior_status,
            total_qty_raw: self.total_qty_raw,
            qty_precision: self.qty_precision,
            filled_qty_raw: self.filled_qty_raw,
            px_qty_sum: self.px_qty_sum,
            px_precision: self.px_precision,
            last_event_id: event_id.clone(),
            last_ts_event: max64(self.last_ts_event, ts_event),
            reason: match reason {
                Some(v) => Some(copy_bytes(v)),
                None => clone_opt_bytes(&self.reason),
            },
        }
    }

    /// One fill folded in, after the overfill check has passed.
    fn next_fill(&self, p: &OrderFilled) -> (r: Self)
        requires
            self@.wf(),
            p.last_qty.raw <= self@.total_qty_raw - self@.filled_qty_raw,
        ensures
            Ok::<StateV, TransitionError>(r@) == spec_apply_fill(self@, p.last_qty, p.last_px,
                p.event_id@, p.ts_event),
            r@.wf(),
    {
        proof {
            lemma_fill_bound(self@, p.last_qty.raw, p.last_px.raw);
        }
        let new_filled = self.filled_qty_raw + p.last_qty.raw;
        let new_status = if new_filled == self.total_qty_raw {
            OrderStatus::Filled
        } else {
            OrderStatus::PartiallyFilled
        };
        OrderState {
            client_order_id: self.client_order_id.clone(),
            status: new_status,
            prior_status: new_status,
            total_qty_raw: self.total_qty_raw,
            qty_precision: self.qty_precision,
            filled_qty_raw: new_filled,
            px_qty_sum: self.px_qty_sum + (p.last_qty.raw as u128) * (p.last_px.raw as u128),
            px_precision: p.last_px.precision,
            last_event_id: p.event_id.clone(),
            last_ts_event: max64(self.last_ts_event, p.ts_event),
            reason: clone_opt_bytes(&self.reason),
        }
    }

    /// Fold one event into the state.
    ///
    /// Exactly implements [`spec_apply`]: idempotent replay of the last
    /// applied event is a no-op success; an event for another order is
    /// illegal; a terminal state absorbs reconciliation events and rejects
    /// all others; an event older than the last applied one is rejected
    /// unless it is a reconciliation event; then the transition table
    /// decides.  Venue order and account identifiers that the payload type
    /// leaves optional are mandatory here, because every state these events
    /// are legal in is at or past venue acknowledgement.
    pub fn apply(&self, e: &OrderEvent) -> (r: Result<Self, TransitionError>)
        requires
            self@.wf(),
            e.wf(),
        ensures
            (match r {
                Ok(s2) => spec_apply(self@, *e) == Ok::<StateV, TransitionError>(s2@) && s2@.wf(),
                Err(err) => spec_apply(self@, *e) == Err::<StateV, TransitionError>(err),
            }),
    {
        let eid = event_id_of(e);
        if bytes_eq(&self.last_event_id.value, &eid.value) {
            return Ok(self.clone_state());
        }
        let coid = client_order_id_of(e);
        if !bytes_eq(&self.client_order_id.value, &coid.value) {
            return Err(TransitionError::IllegalTransition);
        }
        if is_terminal_status(self.status) {
            if reconciliation_of(e) {
                return Ok(self.clone_state());
            } else {
                return Err(TransitionError::TerminalStateViolation);
            }
        }
        if ts_event_of(e) < self.last_ts_event && !reconciliation_of(e) {
            return Err(TransitionError::OutOfOrder);
        }
        match e {
            OrderEvent::OrderInitialized(_) => Err(TransitionError::IllegalTransition),
            OrderEvent::OrderDenied(p) => {
                if self.status == OrderStatus::Initialized {
                    Ok(self.next_base(OrderStatus::Denied, self.prior_status, &p.event_id,
                        p.ts_event, Some(&p.reason)))
                } else {
                    Err(TransitionError::IllegalTransition)
                }
            },
            OrderEvent::OrderSubmitted(p) => {
                if self.status == OrderStatus::Initialized {
                    Ok(self.next_base(OrderStatus::Submitted, OrderStatus::Submitted,
                        &p.event_id, p.ts_event, None))
                } else {
                    Err(TransitionError::IllegalTransition)
                }
            },
            OrderEvent::OrderAccepted(p) => {
                if self.status == OrderStatus::Submitted {
                    Ok(self.next_base(OrderStatus::Accepted, OrderStatus::Accepted, &p.event_id,
                        p.ts_event, None))
                } else {
                    Err(TransitionError::IllegalTransition)
                }
            },
            OrderEvent::OrderRejected(p) => {
                if self.status == OrderStatus::Submitted {
                    Ok(self.next_base(OrderStatus::Rejected, self.prior_status, &p.event_id,
                        p.ts_event, Some(&p.reason)))
                } else {
                    Err(TransitionError::IllegalTransition)
                }
            },
            OrderEvent::OrderCanceled(p) => {
                if is_active_status(self.status) && p.venue_order_id.is_some()
                    && p.account_id.is_some() {
                    Ok(self.next_base(OrderStatus::Canceled, self.prior_status, &p.event_id,
                        p.ts_event, None))
                } else {
                    Err(TransitionError::IllegalTransition)
                }
            },
            OrderEvent::OrderExpired(p) => {
                if is_active_status(self.status) && p.venue_order_id.is_some()
                    && p.account_id.is_some() {
                    Ok(self.next_base(OrderStatus::Expired, self.prior_status, &p.event_id,
                        p.ts_event, None))
                } else {
                    Err(TransitionError::IllegalTransition)
                }
            },
            OrderEvent::OrderTriggered(p) => {
                if is_active_status(self.status) && p.venue_order_id.is_some()
                    && p.account_id.is_some() {
                    Ok(self.next_base(OrderStatus::Triggered, OrderStatus::Triggered,
                        &p.event_id, p.ts_event, None))
                } else {
                    Err(TransitionError::IllegalTransition)
                }
            },
            OrderEvent::OrderPendingUpdate(p) => {
                if is_active_status(self.status) && p.venue_order_id.is_some() {
                    let prior = if is_pending_status(self.status) {
                        self.prior_status
                    } else {
                        self.status
                    };
                    Ok(self.next_base(OrderStatus::PendingUpdate, prior, &p.event_id, p.ts_event,
                        None))
                } else {
                    Err(TransitionError::IllegalTransition)
                }
            },
            OrderEvent::OrderPendingCancel(p) => {
                if is_active_status(self.status) && p.venue_order_id.is_some() {
                    let prior = if is_pending_status(self.status) {
                        self.prior_status
                    } else {
                        self.status
                    };
                    Ok(self.next_base(OrderStatus::PendingCancel, prior, &p.event_id, p.ts_event,
                        None))
                } else {
                    Err(TransitionError::IllegalTransition)
                }
            },
            OrderEvent::OrderModifyRejected(p) => {
                if is_active_status(self.status) && p.venue_order_id.is_some()
                    && p.account_id.is_some() {
                    let back = if is_pending_status(self.status) {
                        self.prior_status
                    } else {
                        self.status
                    };
                    Ok(self.next_base(back, self.prior_status, &p.event_id, p.ts_event, None))
                } else {
                    Err(TransitionError::IllegalTransition)
                }
            },
            OrderEvent::OrderCancelRejected(p) => {
                if is_active_status(self.status) && p.venue_order_id.is_some()
                    && p.account_id.is_some() {
                    let back = if is_pending_status(self.status) {
                        self.prior_status
                    } else {
                        self.status
                    };
                    Ok(self.next_base(back, self.prior_status, &p.event_id, p.ts_event, None))
                } else {
                    Err(TransitionError::IllegalTransition)
                }
            },
            OrderEvent::OrderUpdated(p) => {
                if !(is_active_status(self.status) && p.venue_order_id.is_some()
                    && p.account_id.is_some()) {
                    Err(TransitionError::IllegalTransition)
                } else if p.quantity.raw < self.filled_qty_raw {
                    Err(TransitionError::Overfill)
                } else {
                    let mut next = self.next_base(self.status, self.prior_status, &p.event_id,
                        p.ts_event, None);
                    next.total_qty_raw = p.quantity.raw;
                    next.qty_precision = p.quantity.precision;
                    Ok(next)
                }
            },
            OrderEvent::OrderPartiallyFilled(p) => {
                if is_active_status(self.status) {
                    if p.last_qty.raw > self.total_qty_raw - self.filled_qty_raw {
                        Err(TransitionError::Overfill)
                    } else {
                        Ok(self.next_fill(p))
                    }
                } else {
                    Err(TransitionError::IllegalTransition)
                }
            },
            OrderEvent::OrderFilled(p) => {
                if is_active_status(self.status) {
                    if p.last_qty.raw > self.total_qty_raw - self.filled_qty_raw {
                        Err(TransitionError::Overfill)
                    } else {
                        Ok(self.next_fill(p))
                    }
                } else {
                    Err(TransitionError::IllegalTransition)
                }
            },
        }
    }
}

/// Idempotent fold: replaying the event whose identifier the successful
/// `apply` recorded as last applied returns the same state, a no-op success.
pub proof fn lemma_idempotent_replay(s: StateV, e: OrderEvent)
    requires
        spec_apply(s, e) is Ok,
        (spec_apply(s, e)->Ok_0).last_event_id == e.spec_event_id(),
    ensures
        spec_apply(spec_apply(s, e)->Ok_0, e) == spec_apply(s, e),
{
}

/// Terminal immutability: a terminal state rejects every fresh
/// non-reconciliation event for the same order with
/// `TerminalStateViolation`.
pub proof fn lemma_terminal_immutability(s: StateV, e: OrderEvent)
    requires
        is_terminal(s.status),
        !e.spec_reconciliation(),
        e.spec_event_id() != s.last_event_id,
        e.spec_client_order_id() == s.client_order_id,
    ensures
        spec_apply(s, e) == Err::<StateV, TransitionError>(TransitionError::TerminalStateViolation),
{
}

/// A terminal state absorbs fresh reconciliation events unchanged.
pub proof fn lemma_terminal_reconciliation_noise(s: StateV, e: OrderEvent)
    requires
        is_terminal(s.status),
        e.spec_reconciliation(),
        e.spec_event_id() != s.last_event_id,
        e.spec_client_order_id() == s.client_order_id,
    ensures
        spec_apply(s, e) == Ok::<StateV, TransitionError>(s),
{
}

/// Monotonic fold ordering: a fresh live event older than the last applied
/// one is rejected with `OutOfOrder`.
pub proof fn lemma_out_of_order_rejected(s: StateV, e: OrderEvent)
    requires
        !e.spec_reconciliation(),
        e.spec_ts_event() < s.last_ts_event,
        e.spec_event_id() != s.last_event_id,
        e.spec_client_order_id() == s.client_order_id,
        !is_terminal(s.status),
    ensures
        spec_apply(s, e) == Err::<StateV, TransitionError>(TransitionError::OutOfOrder),
{
}

/// A reconciliation event is never rejected for arriving out of `ts_event`
/// order.
pub proof fn lemma_reconciliation_bypasses_ordering(s: StateV, e: OrderEvent)
    requires
        e.spec_reconciliation(),
    ensures
        spec_apply(s, e) != Err::<StateV, TransitionError>(TransitionError::OutOfOrder),
{
}

/// A fresh reconciliation event on a live order bypasses the ordering
/// check entirely: the transition table alone decides.
pub proof fn lemma_reconciliation_applies(s: StateV, e: OrderEvent)
    requires
        e.spec_reconciliation(),
        e.spec_event_id() != s.last_event_id,
        e.spec_client_order_id() == s.client_order_id,
        !is_terminal(s.status),
    ensures
        spec_apply(s, e) == spec_step(s, e),
{
}

/// Overfill rejection: a fill beyond the remaining quantity is rejected
/// with `Overfill` (and, `apply` being pure, the caller's state is
/// untouched).
pub proof fn lemma_overfill_rejected(s: StateV, p: OrderFilled, e: OrderEvent)
    requires
        e == OrderEvent::OrderFilled(p) || e == OrderEvent::OrderPartiallyFilled(p),
        is_active(s.status),
        p.last_qty.raw > s.total_qty_raw - s.filled_qty_raw,
        e.spec_event_id() != s.last_event_id,
        e.spec_client_order_id() == s.client_order_id,
        e.spec_reconciliation() || e.spec_ts_event() >= s.last_ts_event,
    ensures
        spec_apply(s, e) == Err::<StateV, TransitionError>(TransitionError::Overfill),
{
}

} // verus!
