//! The closed catalog of order-lifecycle event payloads and the tagged union
//! over them.
//!
//! Each payload is a plain immutable record; equality is structural.  The
//! union is the unit the state machine folds over and the unit of transport
//! for the wire codec.  `ts_event` is when the fact occurred upstream,
//! `ts_init` when this core observed it; `reconciliation` marks an event
//! synthesized during state reconciliation and is preserved for audit.

use vstd::prelude::*;
use crate::types::{
    wf_text, TraderId, StrategyId, InstrumentId, ClientOrderId, VenueOrderId, AccountId,
    TradeId, PositionId, OrderListId, UUID4, Quantity, Price, Currency, Money, OrderSide,
    OrderType, TimeInForce, TriggerType, ContingencyType, LiquiditySide,
};

verus! {

pub struct OrderInitialized {
    pub trader_id: TraderId,
    pub strategy_id: StrategyId,
    pub instrument_id: InstrumentId,
    pub client_order_id: ClientOrderId,
    pub order_side: OrderSide,
    pub order_type: OrderType,
    pub quantity: Quantity,
    pub price: Option<Price>,
    pub trigger_price: Option<Price>,
    pub trigger_type: Option<TriggerType>,
    pub time_in_force: TimeInForce,
    pub expire_time: Option<u64>,
    pub post_only: bool,
    pub reduce_only: bool,
    pub display_qty: Option<Quantity>,
    pub limit_offset: Option<Price>,
    pub trailing_offset: Option<Price>,
    pub trailing_offset_type: Option<TriggerType>,
    pub emulation_trigger: Option<TriggerType>,
    pub contingency_type: Option<ContingencyType>,
    pub order_list_id: Option<OrderListId>,
    pub parent_order_id: Option<ClientOrderId>,
    pub tags: Option<Vec<u8>>,
    pub event_id: UUID4,
    pub ts_event: u64,
    pub ts_init: u64,
    pub reconciliation: bool,
}

impl OrderInitialized {
    pub open spec fn wf(&self) -> bool {
        &&& self.trader_id.wf()
        &&& self.strategy_id.wf()
        &&& self.instrument_id.wf()
        &&& self.client_order_id.wf()
        &&& (self.order_list_id matches Some(v) ==> v.wf())
        &&& (self.parent_order_id matches Some(v) ==> v.wf())
        &&& (self.tags matches Some(v) ==> wf_text(v@))
        &&& self.event_id.wf()
        &&& self.ts_init >= self.ts_event
        &&& self.quantity.raw > 0
    }
}

impl Default for OrderInitialized {
    /// A buy-side market order for quantity 100_000, day time-in-force,
    /// with every optional parameter absent and empty identifiers.
    fn default() -> (r: Self)
        ensures
            r.order_side == OrderSide::Buy,
            r.order_type == OrderType::Market,
            r.quantity == (Quantity { raw: 100_000, precision: 0 }),
            r.time_in_force == TimeInForce::Day,
            r.price is None,
            r.trigger_price is None,
            r.trigger_type is None,
            r.expire_time is None,
            !r.post_only,
            !r.reduce_only,
            r.display_qty is None,
            r.limit_offset is None,
            r.trailing_offset is None,
            r.trailing_offset_type is None,
            r.emulation_trigger is None,
            r.contingency_type is None,
            r.order_list_id is None,
            r.parent_order_id is None,
            r.tags is None,
            r.trader_id@ == Seq::<u8>::empty(),
            r.strategy_id@ == Seq::<u8>::empty(),
            r.instrument_id@ == Seq::<u8>::empty(),
            r.client_order_id@ == Seq::<u8>::empty(),
            r.event_id@ == Seq::<u8>::empty(),
            r.ts_event == 0,
            r.ts_init == 0,
            !r.reconciliation,
    {
        OrderInitialized {
            trader_id: TraderId { value: Vec::new() },
            strategy_id: StrategyId { value: Vec::new() },
            instrument_id: InstrumentId { value: Vec::new() },
            client_order_id: ClientOrderId { value: Vec::new() },
            order_side: OrderSide::Buy,
            order_type: OrderType::Market,
            quantity: Quantity { raw: 100_000, precision: 0 },
            price: None,
            trigger_price: None,
            trigger_type: None,
            time_in_force: TimeInForce::Day,
            expire_time: None,
            post_only: false,
            reduce_only: false,
            display_qty: None,
            limit_offset: None,
            trailing_offset: None,
            trailing_offset_type: None,
            emulation_trigger: None,
            contingency_type: None,
            order_list_id: None,
            parent_order_id: None,
            tags: None,
            event_id: UUID4 { value: Vec::new() },
            ts_event: 0,
            ts_init: 0,
            reconciliation: false,
        }
    }
}

pub struct OrderDenied {
    pub trader_id: TraderId,
    pub strategy_id: StrategyId,
    pub instrument_id: InstrumentId,
    pub client_order_id: ClientOrderId,
    pub reason: Vec<u8>,
    pub event_id: UUID4,
    pub ts_event: u64,
    pub ts_init: u64,
}

impl OrderDenied {
    pub open spec fn wf(&self) -> bool {
        &&& self.trader_id.wf()
        &&& self.strategy_id.wf()
        &&& self.instrument_id.wf()
        &&& self.client_order_id.wf()
        &&& wf_text(self.reason@)
        &&& self.event_id.wf()
        &&& self.ts_init >= self.ts_event
    }
}

impl OrderDenied {
    /// Deep, independent copy.
    pub fn deep_clone(&self) -> (r: Self)
        ensures
            r.trader_id@ == self.trader_id@,
            r.strategy_id@ == self.strategy_id@,
            r.instrument_id@ == self.instrument_id@,
            r.client_order_id@ == self.client_order_id@,
            r.reason@ == self.reason@,
            r.event_id@ == self.event_id@,
            r.ts_event == self.ts_event,
            r.ts_init == self.ts_init,
    {
        OrderDenied {
            trader_id: self.trader_id.clone(),
            strategy_id: self.strategy_id.clone(),
            instrument_id: self.instrument_id.clone(),
            client_order_id: self.client_order_id.clone(),
            reason: crate::types::copy_bytes(&self.reason),
            event_id: self.event_id.clone(),
            ts_event: self.ts_event,
            ts_init: self.ts_init,
        }
    }
}

pub struct OrderSubmitted {
    pub trader_id: TraderId,
    pub strategy_id: StrategyId,
    pub instrument_id: InstrumentId,
    pub client_order_id: ClientOrderId,
    pub account_id: AccountId,
    pub event_id: UUID4,
    pub ts_event: u64,
    pub ts_init: u64,
}

impl OrderSubmitted {
    pub open spec fn wf(&self) -> bool {
        &&& self.trader_id.wf()
        &&& self.strategy_id.wf()
        &&& self.instrument_id.wf()
        &&& self.client_order_id.wf()
        &&& self.account_id.wf()
        &&& self.event_id.wf()
        &&& self.ts_init >= self.ts_event
    }
}

pub struct OrderAccepted {
    pub trader_id: TraderId,
    pub strategy_id: StrategyId,
    pub instrument_id: InstrumentId,
    pub client_order_id: ClientOrderId,
    pub venue_order_id: VenueOrderId,
    pub account_id: AccountId,
    pub event_id: UUID4,
    pub ts_event: u64,
    pub ts_init: u64,
    pub reconciliation: bool,
}

impl OrderAccepted {
    pub open spec fn wf(&self) -> bool {
        &&& self.trader_id.wf()
        &&& self.strategy_id.wf()
        &&& self.instrument_id.wf()
        &&& self.client_order_id.wf()
        &&& self.venue_order_id.wf()
        &&& self.account_id.wf()
        &&& self.event_id.wf()
        &&& self.ts_init >= self.ts_event
    }
}

pub struct OrderRejected {
    pub trader_id: TraderId,
    pub strategy_id: StrategyId,
    pub instrument_id: InstrumentId,
    pub client_order_id: ClientOrderId,
    pub venue_order_id: VenueOrderId,
    pub account_id: AccountId,
    pub reason: Vec<u8>,
    pub event_id: UUID4,
    pub ts_event: u64,
    pub ts_init: u64,
    pub reconciliation: bool,
}

impl OrderRejected {
    pub open spec fn wf(&self) -> bool {
        &&& self.trader_id.wf()
        &&& self.strategy_id.wf()
        &&& self.instrument_id.wf()
        &&& self.client_order_id.wf()
        &&& self.venue_order_id.wf()
        &&& self.account_id.wf()
        &&& wf_text(self.reason@)
        &&& self.event_id.wf()
        &&& self.ts_init >= self.ts_event
    }
}

pub struct OrderCanceled {
    pub trader_id: TraderId,
    pub strategy_id: StrategyId,
    pub instrument_id: InstrumentId,
    pub client_order_id: ClientOrderId,
    pub venue_order_id: Option<VenueOrderId>,
    pub account_id: Option<AccountId>,
    pub event_id: UUID4,
    pub ts_event: u64,
    pub ts_init: u64,
    pub reconciliation: bool,
}

impl OrderCanceled {
    pub open spec fn wf(&self) -> bool {
        &&& self.trader_id.wf()
        &&& self.strategy_id.wf()
        &&& self.instrument_id.wf()
        &&& self.client_order_id.wf()
        &&& (self.venue_order_id matches Some(v) ==> v.wf())
        &&& (self.account_id matches Some(v) ==> v.wf())
        &&& self.event_id.wf()
        &&& self.ts_init >= self.ts_event
    }
}

pub struct OrderExpired {
    pub trader_id: TraderId,
    pub strategy_id: StrategyId,
    pub instrument_id: InstrumentId,
    pub client_order_id: ClientOrderId,
    pub venue_order_id: Option<VenueOrderId>,
    pub account_id: Option<AccountId>,
    pub event_id: UUID4,
    pub ts_event: u64,
    pub ts_init: u64,
    pub reconciliation: bool,
}

impl OrderExpired {
    pub open spec fn wf(&self) -> bool {
        &&& self.trader_id.wf()
        &&& self.strategy_id.wf()
        &&& self.instrument_id.wf()
        &&& self.client_order_id.wf()
        &&& (self.venue_order_id matches Some(v) ==> v.wf())
        &&& (self.account_id matches Some(v) ==> v.wf())
        &&& self.event_id.wf()
        &&& self.ts_init >= self.ts_event
    }
}

pub struct OrderTriggered {
    pub trader_id: TraderId,
    pub strategy_id: StrategyId,
    pub instrument_id: InstrumentId,
    pub client_order_id: ClientOrderId,
    pub venue_order_id: Option<VenueOrderId>,
    pub account_id: Option<AccountId>,
    pub event_id: UUID4,
    pub ts_event: u64,
    pub ts_init: u64,
    pub reconciliation: bool,
}

impl OrderTriggered {
    pub open spec fn wf(&self) -> bool {
        &&& self.trader_id.wf()
        &&& self.strategy_id.wf()
        &&& self.instrument_id.wf()
        &&& self.client_order_id.wf()
        &&& (self.venue_order_id matches Some(v) ==> v.wf())
        &&& (self.account_id matches Some(v) ==> v.wf())
        &&& self.event_id.wf()
        &&& self.ts_init >= self.ts_event
    }
}

pub struct OrderPendingUpdate {
    pub trader_id: TraderId,
    pub strategy_id: StrategyId,
    pub instrument_id: InstrumentId,
    pub client_order_id: ClientOrderId,
    pub venue_order_id: Option<VenueOrderId>,
    pub account_id: AccountId,
    pub event_id: UUID4,
    pub ts_event: u64,
    pub ts_init: u64,
    pub reconciliation: bool,
}

impl OrderPendingUpdate {
    pub open spec fn wf(&self) -> bool {
        &&& self.trader_id.wf()
        &&& self.strategy_id.wf()
        &&& self.instrument_id.wf()
        &&& self.client_order_id.wf()
        &&& (self.venue_order_id matches Some(v) ==> v.wf())
        &&& self.account_id.wf()
        &&& self.event_id.wf()
        &&& self.ts_init >= self.ts_event
    }
}

pub struct OrderPendingCancel {
    pub trader_id: TraderId,
    pub strategy_id: StrategyId,
    pub instrument_id: InstrumentId,
    pub client_order_id: ClientOrderId,
    pub venue_order_id: Option<VenueOrderId>,
    pub account_id: AccountId,
    pub event_id: UUID4,
    pub ts_event: u64,
    pub ts_init: u64,
    pub reconciliation: bool,
}

impl OrderPendingCancel {
    pub open spec fn wf(&self) -> bool {
        &&& self.trader_id.wf()
        &&& self.strategy_id.wf()
        &&& self.instrument_id.wf()
        &&& self.client_order_id.wf()
        &&& (self.venue_order_id matches Some(v) ==> v.wf())
        &&& self.account_id.wf()
        &&& self.event_id.wf()
        &&& self.ts_init >= self.ts_event
    }
}

pub struct OrderModifyRejected {
    pub trader_id: TraderId,
    pub strategy_id: StrategyId,
    pub instrument_id: InstrumentId,
    pub client_order_id: ClientOrderId,
    pub venue_order_id: Option<VenueOrderId>,
    pub account_id: Option<AccountId>,
    pub reason: Vec<u8>,
    pub event_id: UUID4,
    pub ts_event: u64,
    pub ts_init: u64,
    pub reconciliation: bool,
}

impl OrderModifyRejected {
    pub open spec fn wf(&self) -> bool {
        &&& self.trader_id.wf()
        &&& self.strategy_id.wf()
        &&& self.instrument_id.wf()
        &&& self.client_order_id.wf()
        &&& (self.venue_order_id matches Some(v) ==> v.wf())
        &&& (self.account_id matches Some(v) ==> v.wf())
        &&& wf_text(self.reason@)
        &&& self.event_id.wf()
        &&& self.ts_init >= self.ts_event
    }
}

pub struct OrderCancelRejected {
    pub trader_id: TraderId,
    pub strategy_id: StrategyId,
    pub instrument_id: InstrumentId,
    pub client_order_id: ClientOrderId,
    pub venue_order_id: Option<VenueOrderId>,
    pub account_id: Option<AccountId>,
    pub reason: Vec<u8>,
    pub event_id: UUID4,
    pub ts_event: u64,
    pub ts_init: u64,
    pub reconciliation: bool,
}

impl OrderCancelRejected {
    pub open spec fn wf(&self) -> bool {
        &&& self.trader_id.wf()
        &&& self.strategy_id.wf()
        &&& self.instrument_id.wf()
        &&& self.client_order_id.wf()
        &&& (self.venue_order_id matches Some(v) ==> v.wf())
        &&& (self.account_id matches Some(v) ==> v.wf())
        &&& wf_text(self.reason@)
        &&& self.event_id.wf()
        &&& self.ts_init >= self.ts_event
    }
}

pub struct OrderUpdated {
    pub trader_id: TraderId,
    pub strategy_id: StrategyId,
    pub instrument_id: InstrumentId,
    pub client_order_id: ClientOrderId,
    pub venue_order_id: Option<VenueOrderId>,
    pub account_id: Option<AccountId>,
    pub quantity: Quantity,
    pub price: Option<Price>,
    pub trigger_price: Option<Price>,
    pub event_id: UUID4,
    pub ts_event: u64,
    pub ts_init: u64,
    pub reconciliation: bool,
}

impl OrderUpdated {
    pub open spec fn wf(&self) -> bool {
        &&& self.trader_id.wf()
        &&& self.strategy_id.wf()
        &&& self.instrument_id.wf()
        &&& self.client_order_id.wf()
        &&& (self.venue_order_id matches Some(v) ==> v.wf())
        &&& (self.account_id matches Some(v) ==> v.wf())
        &&& self.event_id.wf()
        &&& self.ts_init >= self.ts_event
        &&& self.quantity.raw > 0
    }
}

pub struct OrderFilled {
    pub trader_id: TraderId,
    pub strategy_id: StrategyId,
    pub instrument_id: InstrumentId,
    pub client_order_id: ClientOrderId,
    pub venue_order_id: VenueOrderId,
    pub account_id: AccountId,
    pub trade_id: TradeId,
    pub position_id: Option<PositionId>,
    pub order_side: OrderSide,
    pub order_type: OrderType,
    pub last_qty: Quantity,
    pub last_px: Price,
    pub currency: Currency,
    pub commission: Money,
    pub liquidity_side: LiquiditySide,
    pub event_id: UUID4,
    pub ts_event: u64,
    pub ts_init: u64,
    pub reconciliation: bool,
}

impl OrderFilled {
    /// A fill's quantity is always strictly positive.
    pub open spec fn wf(&self) -> bool {
        &&& self.trader_id.wf()
        &&& self.strategy_id.wf()
        &&& self.instrument_id.wf()
        &&& self.client_order_id.wf()
        &&& self.venue_order_id.wf()
        &&& self.account_id.wf()
        &&& self.trade_id.wf()
        &&& (self.position_id matches Some(v) ==> v.wf())
        &&& self.currency.wf()
        &&& self.commission.wf()
        &&& self.event_id.wf()
        &&& self.ts_init >= self.ts_event
        &&& self.last_qty.raw > 0
    }
}

/// The closed, tagged union of order-lifecycle events.  Partial and full
/// fills share the `OrderFilled` payload and are distinguished here.
pub enum OrderEvent {
    OrderInitialized(OrderInitialized),
    OrderDenied(OrderDenied),
    OrderSubmitted(OrderSubmitted),
    OrderAccepted(OrderAccepted),
    OrderRejected(OrderRejected),
    OrderCanceled(OrderCanceled),
    OrderExpired(OrderExpired),
    OrderTriggered(OrderTriggered),
    OrderPendingUpdate(OrderPendingUpdate),
    OrderPendingCancel(OrderPendingCancel),
    OrderModifyRejected(OrderModifyRejected),
    OrderCancelRejected(OrderCancelRejected),
    OrderUpdated(OrderUpdated),
    OrderPartiallyFilled(OrderFilled),
    OrderFilled(OrderFilled),
}

impl OrderEvent {
    pub open spec fn wf(&self) -> bool {
        match self {
            OrderEvent::OrderInitialized(p) => p.wf(),
            OrderEvent::OrderDenied(p) => p.wf(),
            OrderEvent::OrderSubmitted(p) => p.wf(),
            OrderEvent::OrderAccepted(p) => p.wf(),
            OrderEvent::OrderRejected(p) => p.wf(),
            OrderEvent::OrderCanceled(p) => p.wf(),
            OrderEvent::OrderExpired(p) => p.wf(),
            OrderEvent::OrderTriggered(p) => p.wf(),
            OrderEvent::OrderPendingUpdate(p) => p.wf(),
            OrderEvent::OrderPendingCancel(p) => p.wf(),
            OrderEvent::OrderModifyRejected(p) => p.wf(),
            OrderEvent::OrderCancelRejected(p) => p.wf(),
            OrderEvent::OrderUpdated(p) => p.wf(),
            OrderEvent::OrderPartiallyFilled(p) => p.wf(),
            OrderEvent::OrderFilled(p) => p.wf(),
        }
    }

    /// The process-unique identifier of the event (idempotency key).
    pub open spec fn spec_event_id(&self) -> Seq<u8> {
        match self {
            OrderEvent::OrderInitialized(p) => p.event_id@,
            OrderEvent::OrderDenied(p) => p.event_id@,
            OrderEvent::OrderSubmitted(p) => p.event_id@,
            OrderEvent::OrderAccepted(p) => p.event_id@,
            OrderEvent::OrderRejected(p) => p.event_id@,
            OrderEvent::OrderCanceled(p) => p.event_id@,
            OrderEvent::OrderExpired(p) => p.event_id@,
            OrderEvent::OrderTriggered(p) => p.event_id@,
            OrderEvent::OrderPendingUpdate(p) => p.event_id@,
            OrderEvent::OrderPendingCancel(p) => p.event_id@,
            OrderEvent::OrderModifyRejected(p) => p.event_id@,
            OrderEvent::OrderCancelRejected(p) => p.event_id@,
            OrderEvent::OrderUpdated(p) => p.event_id@,
            OrderEvent::OrderPartiallyFilled(p) => p.event_id@,
            OrderEvent::OrderFilled(p) => p.event_id@,
        }
    }

    /// When the fact occurred upstream.
    pub open spec fn spec_ts_event(&self) -> u64 {
        match self {
            OrderEvent::OrderInitialized(p) => p.ts_event,
            OrderEvent::OrderDenied(p) => p.ts_event,
            OrderEvent::OrderSubmitted(p) => p.ts_event,
            OrderEvent::OrderAccepted(p) => p.ts_event,
            OrderEvent::OrderRejected(p) => p.ts_event,
            OrderEvent::OrderCanceled(p) => p.ts_event,
            OrderEvent::OrderExpired(p) => p.ts_event,
            OrderEvent::OrderTriggered(p) => p.ts_event,
            OrderEvent::OrderPendingUpdate(p) => p.ts_event,
            OrderEvent::OrderPendingCancel(p) => p.ts_event,
            OrderEvent::OrderModifyRejected(p) => p.ts_event,
            OrderEvent::OrderCancelRejected(p) => p.ts_event,
            OrderEvent::OrderUpdated(p) => p.ts_event,
            OrderEvent::OrderPartiallyFilled(p) => p.ts_event,
            OrderEvent::OrderFilled(p) => p.ts_event,
        }
    }

    /// Whether the event was synthesized during reconciliation.  Events
    /// without the flag on the wire are live events.
    pub open spec fn spec_reconciliation(&self) -> bool {
        match self {
            OrderEvent::OrderInitialized(p) => p.reconciliation,
            OrderEvent::OrderDenied(_) => false,
            OrderEvent::OrderSubmitted(_) => false,
            OrderEvent::OrderAccepted(p) => p.reconciliation,
            OrderEvent::OrderRejected(p) => p.reconciliation,
            OrderEvent::OrderCanceled(p) => p.reconciliation,
            OrderEvent::OrderExpired(p) => p.reconciliation,
            OrderEvent::OrderTriggered(p) => p.reconciliation,
            OrderEvent::OrderPendingUpdate(p) => p.reconciliation,
            OrderEvent::OrderPendingCancel(p) => p.reconciliation,
            OrderEvent::OrderModifyRejected(p) => p.reconciliation,
            OrderEvent::OrderCancelRejected(p) => p.reconciliation,
            OrderEvent::OrderUpdated(p) => p.reconciliation,
            OrderEvent::OrderPartiallyFilled(p) => p.reconciliation,
            OrderEvent::OrderFilled(p) => p.reconciliation,
        }
    }

    /// The order the event belongs to: the fold's primary key.
    pub open spec fn spec_client_order_id(&self) -> Seq<u8> {
        match self {
            OrderEvent::OrderInitialized(p) => p.client_order_id@,
            OrderEvent::OrderDenied(p) => p.client_order_id@,
            OrderEvent::OrderSubmitted(p) => p.client_order_id@,
            OrderEvent::OrderAccepted(p) => p.client_order_id@,
            OrderEvent::OrderRejected(p) => p.client_order_id@,
            OrderEvent::OrderCanceled(p) => p.client_order_id@,
            OrderEvent::OrderExpired(p) => p.client_order_id@,
            OrderEvent::OrderTriggered(p) => p.client_order_id@,
            OrderEvent::OrderPendingUpdate(p) => p.client_order_id@,
            OrderEvent::OrderPendingCancel(p) => p.client_order_id@,
            OrderEvent::OrderModifyRejected(p) => p.client_order_id@,
            OrderEvent::OrderCancelRejected(p) => p.client_order_id@,
            OrderEvent::OrderUpdated(p) => p.client_order_id@,
            OrderEvent::OrderPartiallyFilled(p) => p.client_order_id@,
            OrderEvent::OrderFilled(p) => p.client_order_id@,
        }
    }
}

} // verus!
