use order_events::types::{
    TraderId, StrategyId, InstrumentId, ClientOrderId, VenueOrderId, AccountId, TradeId, UUID4,
    Quantity, Price, Currency, Money, OrderSide, OrderType, TimeInForce, LiquiditySide,
};
use order_events::events::{
    OrderEvent, OrderInitialized, OrderDenied, OrderSubmitted, OrderAccepted, OrderCanceled,
    OrderFilled,
};
use order_events::machine::{OrderState, OrderStatus, TransitionError};
use order_events::codec::{encode_text, decode_text, encode_binary, decode_binary, CodecError};
use order_events::record::WireValue;
use order_events::bridge::{from_mapping, BridgeError};

fn mk_initialized(qty_raw: u64) -> OrderInitialized {
    OrderInitialized {
        trader_id: TraderId::new("TRADER-001"),
        strategy_id: StrategyId::new("S-001"),
        instrument_id: InstrumentId::new("AUD/USD.SIM"),
        client_order_id: ClientOrderId::new("O-123456789"),
        order_side: OrderSide::Buy,
        order_type: OrderType::Market,
        quantity: Quantity::new(qty_raw, 0),
        price: None,
        trigger_price: None,
        trigger_type: None,
        time_in_force: TimeInForce::Day,
        expire_time: None,
        post_only: false,
        reduce_only: false,
        display_qty: None,
        limit_offset: None,
        trailing_offset: None,
        trailing_offset_type: None,
        emulation_trigger: None,
        contingency_type: None,
        order_list_id: None,
        parent_order_id: None,
        tags: None,
        event_id: UUID4::new("2d89666b-1a1e-4a75-b193-4eb3b454c757"),
        ts_event: 1,
        ts_init: 1,
        reconciliation: false,
    }
}

fn mk_denied() -> OrderDenied {
    OrderDenied {
        trader_id: TraderId::new("TRADER-001"),
        strategy_id: StrategyId::new("S-001"),
        instrument_id: InstrumentId::new("AUD/USD.SIM"),
        client_order_id: ClientOrderId::new("O-123456789"),
        reason: b"Some reason".to_vec(),
        event_id: UUID4::new("91762096-b188-49ea-8562-8d8a4cc22ff2"),
        ts_event: 0,
        ts_init: 0,
    }
}

fn mk_submitted(eid: &str, ts: u64) -> OrderSubmitted {
    OrderSubmitted {
        trader_id: TraderId::new("TRADER-001"),
        strategy_id: StrategyId::new("S-001"),
        instrument_id: InstrumentId::new("AUD/USD.SIM"),
        client_order_id: ClientOrderId::new("O-123456789"),
        account_id: AccountId::new("SIM-001"),
        event_id: UUID4::new(eid),
        ts_event: ts,
        ts_init: ts,
    }
}

fn mk_accepted(eid: &str, ts: u64) -> OrderAccepted {
    OrderAccepted {
        trader_id: TraderId::new("TRADER-001"),
        strategy_id: StrategyId::new("S-001"),
        instrument_id: InstrumentId::new("AUD/USD.SIM"),
        client_order_id: ClientOrderId::new("O-123456789"),
        venue_order_id: VenueOrderId::new("V-1"),
        account_id: AccountId::new("SIM-001"),
        event_id: UUID4::new(eid),
        ts_event: ts,
        ts_init: ts,
        reconciliation: false,
    }
}

fn mk_filled(eid: &str, ts: u64, qty_raw: u64, px_raw: u64, px_prec: u8, recon: bool) -> OrderFilled {
    OrderFilled {
        trader_id: TraderId::new("TRADER-001"),
        strategy_id: StrategyId::new("S-001"),
        instrument_id: InstrumentId::new("AUD/USD.SIM"),
        client_order_id: ClientOrderId::new("O-123456789"),
        venue_order_id: VenueOrderId::new("V-1"),
        account_id: AccountId::new("SIM-001"),
        trade_id: TradeId::new("T-1"),
        position_id: None,
        order_side: OrderSide::Buy,
        order_type: OrderType::Market,
        last_qty: Quantity::new(qty_raw, 0),
        last_px: Price::new(px_raw, px_prec),
        currency: Currency::new("USD"),
        commission: Money::new(0, Currency::new("USD")),
        liquidity_side: LiquiditySide::Taker,
        event_id: UUID4::new(eid),
        ts_event: ts,
        ts_init: ts,
        reconciliation: recon,
    }
}

fn mk_canceled(eid: &str, ts: u64) -> OrderCanceled {
    OrderCanceled {
        trader_id: TraderId::new("TRADER-001"),
        strategy_id: StrategyId::new("S-001"),
        instrument_id: InstrumentId::new("AUD/USD.SIM"),
        client_order_id: ClientOrderId::new("O-123456789"),
        venue_order_id: Some(VenueOrderId::new("V-1")),
        account_id: Some(AccountId::new("SIM-001")),
        event_id: UUID4::new(eid),
        ts_event: ts,
        ts_init: ts,
        reconciliation: false,
    }
}

#[test]
fn test_order_denied_to_json() {
    let order_denied = mk_denied();
    let json = encode_text(&OrderEvent::OrderDenied(order_denied));
    let json_str = String::from_utf8(json).unwrap();
    assert_eq!(
        json_str,
        r#"{"type":"OrderDenied","trader_id":"TRADER-001","strategy_id":"S-001","instrument_id":"AUD/USD.SIM","client_order_id":"O-123456789","reason":"Some reason","event_id":"91762096-b188-49ea-8562-8d8a4cc22ff2","ts_event":0,"ts_init":0}"#
    );
}

#[test]
fn test_order_denied_to_msgpack() {
    let order_denied = mk_denied();
    let bytes = encode_binary(&OrderEvent::OrderDenied(order_denied));
    assert!(!bytes.is_empty());
    let back = decode_binary(&bytes).unwrap();
    let again = encode_binary(&back);
    assert_eq!(bytes, again);
}

#[test]
fn denied_text_round_trip() {
    let e = OrderEvent::OrderDenied(mk_denied());
    let bytes = encode_text(&e);
    let d = decode_text(&bytes).unwrap();
    assert_eq!(encode_text(&d), bytes);
}

#[test]
fn accepted_both_round_trips() {
    let e = OrderEvent::OrderAccepted(mk_accepted("e-acc", 5));
    let t = encode_text(&e);
    let d = decode_text(&t).unwrap();
    assert_eq!(encode_text(&d), t);
    let b = encode_binary(&e);
    let d2 = decode_binary(&b).unwrap();
    assert_eq!(encode_binary(&d2), b);
}

#[test]
fn initialized_round_trips_with_options() {
    let mut p = mk_initialized(250);
    p.price = Some(Price::new(12345, 2));
    p.trigger_price = None;
    p.tags = Some(b"tag-a,tag-b".to_vec());
    let e = OrderEvent::OrderInitialized(p);
    let t = encode_text(&e);
    let d = decode_text(&t).unwrap();
    assert_eq!(encode_text(&d), t);
    let b = encode_binary(&e);
    let d2 = decode_binary(&b).unwrap();
    assert_eq!(encode_binary(&d2), b);
}

#[test]
fn filled_binary_round_trip() {
    let e = OrderEvent::OrderFilled(mk_filled("e-fill", 9, 10, 11000, 4, false));
    let b = encode_binary(&e);
    let d = decode_binary(&b).unwrap();
    assert_eq!(encode_binary(&d), b);
    let t = encode_text(&e);
    let d2 = decode_text(&t).unwrap();
    assert_eq!(encode_text(&d2), t);
}

#[test]
fn full_lifecycle_scenario() {
    let init = mk_initialized(100_000);
    let s0 = OrderState::initial(&init);
    assert!(matches!(s0.status, OrderStatus::Initialized));
    let s1 = s0.apply(&OrderEvent::OrderSubmitted(mk_submitted("e-sub", 2))).unwrap();
    assert!(matches!(s1.status, OrderStatus::Submitted));
    let s2 = s1.apply(&OrderEvent::OrderAccepted(mk_accepted("e-acc", 3))).unwrap();
    assert!(matches!(s2.status, OrderStatus::Accepted));
    let s3 = s2
        .apply(&OrderEvent::OrderFilled(mk_filled("e-fill", 4, 100_000, 11000, 4, false)))
        .unwrap();
    assert!(matches!(s3.status, OrderStatus::Filled));
    assert_eq!(s3.filled_qty_raw, 100_000);
    // Average price 1.1000: raw 11000 at four decimal places.
    assert_eq!(s3.avg_px_raw(), Some(11000));
    assert_eq!(s3.px_precision, 4);
}

#[test]
fn overfill_is_rejected_and_state_unchanged() {
    let init = mk_initialized(100);
    let s0 = OrderState::initial(&init);
    let s1 = s0.apply(&OrderEvent::OrderSubmitted(mk_submitted("e-sub", 2))).unwrap();
    let s2 = s1.apply(&OrderEvent::OrderAccepted(mk_accepted("e-acc", 3))).unwrap();
    let s3 = s2
        .apply(&OrderEvent::OrderFilled(mk_filled("e-f1", 4, 60, 11000, 4, false)))
        .unwrap();
    assert!(matches!(s3.status, OrderStatus::PartiallyFilled));
    assert_eq!(s3.filled_qty_raw, 60);
    let r = s3.apply(&OrderEvent::OrderFilled(mk_filled("e-f2", 5, 50, 11000, 4, false)));
    assert!(matches!(r, Err(TransitionError::Overfill)));
    assert_eq!(s3.filled_qty_raw, 60);
}

#[test]
fn terminal_state_rejects_live_events() {
    let init = mk_initialized(100);
    let s0 = OrderState::initial(&init);
    let s1 = s0.apply(&OrderEvent::OrderSubmitted(mk_submitted("e-sub", 2))).unwrap();
    let s2 = s1.apply(&OrderEvent::OrderAccepted(mk_acc_helper())).unwrap();
    let s3 = s2.apply(&OrderEvent::OrderCanceled(mk_canceled("e-can", 4))).unwrap();
    assert!(matches!(s3.status, OrderStatus::Canceled));
    let live = OrderEvent::OrderFilled(mk_filled("e-f1", 5, 10, 11000, 4, false));
    assert!(matches!(s3.apply(&live), Err(TransitionError::TerminalStateViolation)));
    let recon = OrderEvent::OrderFilled(mk_filled("e-f2", 6, 10, 11000, 4, true));
    let s4 = s3.apply(&recon).unwrap();
    assert!(matches!(s4.status, OrderStatus::Canceled));
    assert_eq!(s4.filled_qty_raw, s3.filled_qty_raw);
}

fn mk_acc_helper() -> OrderAccepted {
    mk_accepted("e-acc", 3)
}

#[test]
fn out_of_order_needs_reconciliation() {
    let init = mk_initialized(100);
    let s0 = OrderState::initial(&init);
    let s1 = s0.apply(&OrderEvent::OrderSubmitted(mk_submitted("e-sub", 10))).unwrap();
    // A live event older than the last applied one is rejected.
    let old_acc = OrderEvent::OrderAccepted(mk_accepted("e-acc", 4));
    assert!(matches!(s1.apply(&old_acc), Err(TransitionError::OutOfOrder)));
    // The same event marked as reconciliation is folded.
    let mut acc = mk_accepted("e-acc2", 4);
    acc.reconciliation = true;
    let s2 = s1.apply(&OrderEvent::OrderAccepted(acc)).unwrap();
    assert!(matches!(s2.status, OrderStatus::Accepted));
    assert_eq!(s2.last_ts_event, 10);
}

#[test]
fn idempotent_replay_is_a_noop() {
    let init = mk_initialized(100);
    let s0 = OrderState::initial(&init);
    let sub = OrderEvent::OrderSubmitted(mk_submitted("e-sub", 2));
    let s1 = s0.apply(&sub).unwrap();
    let s2 = s1.apply(&sub).unwrap();
    assert!(matches!(s2.status, OrderStatus::Submitted));
    assert_eq!(s2.last_ts_event, s1.last_ts_event);
    assert_eq!(s2.last_event_id.value, s1.last_event_id.value);
}

#[test]
fn bridge_missing_field_is_named() {
    // A host mapping for a denied event without its reason.
    let mapping: Vec<(Vec<u8>, WireValue)> = vec![
        (b"type".to_vec(), WireValue::Str(b"OrderDenied".to_vec())),
        (b"trader_id".to_vec(), WireValue::Str(b"TRADER-001".to_vec())),
        (b"strategy_id".to_vec(), WireValue::Str(b"S-001".to_vec())),
        (b"instrument_id".to_vec(), WireValue::Str(b"AUD/USD.SIM".to_vec())),
        (b"client_order_id".to_vec(), WireValue::Str(b"O-123456789".to_vec())),
        (b"event_id".to_vec(), WireValue::Str(b"91762096".to_vec())),
        (b"ts_event".to_vec(), WireValue::UInt(0)),
        (b"ts_init".to_vec(), WireValue::UInt(0)),
    ];
    match from_mapping(&mapping) {
        Err(BridgeError::MissingField(f)) => assert_eq!(f, b"reason".to_vec()),
        other => panic!("expected a missing reason, got {:?}", other.is_ok()),
    }
}

#[test]
fn bridge_complete_mapping_builds_event() {
    let mapping: Vec<(Vec<u8>, WireValue)> = vec![
        (b"type".to_vec(), WireValue::Str(b"OrderDenied".to_vec())),
        (b"trader_id".to_vec(), WireValue::Str(b"TRADER-001".to_vec())),
        (b"strategy_id".to_vec(), WireValue::Str(b"S-001".to_vec())),
        (b"instrument_id".to_vec(), WireValue::Str(b"AUD/USD.SIM".to_vec())),
        (b"client_order_id".to_vec(), WireValue::Str(b"O-123456789".to_vec())),
        (b"reason".to_vec(), WireValue::Str(b"Some reason".to_vec())),
        (b"event_id".to_vec(), WireValue::Str(b"91762096-b188-49ea-8562-8d8a4cc22ff2".to_vec())),
        (b"ts_event".to_vec(), WireValue::UInt(0)),
        (b"ts_init".to_vec(), WireValue::UInt(0)),
    ];
    let e = match from_mapping(&mapping) {
        Ok(ev) => ev,
        Err(_) => panic!("expected the mapping to build an event"),
    };
    let expected = encode_text(&OrderEvent::OrderDenied(mk_denied()));
    assert_eq!(encode_text(&e), expected);
}

#[test]
fn bridge_type_mismatch_is_named() {
    let mapping: Vec<(Vec<u8>, WireValue)> = vec![
        (b"type".to_vec(), WireValue::Str(b"OrderDenied".to_vec())),
        (b"trader_id".to_vec(), WireValue::UInt(7)),
    ];
    match from_mapping(&mapping) {
        Err(BridgeError::TypeMismatch(f)) => assert_eq!(f, b"trader_id".to_vec()),
        other => panic!("expected a mismatch, got {:?}", other.is_ok()),
    }
}

#[test]
fn decode_unknown_variant_tag() {
    let json = br#"{"type":"OrderTeleported","ts_event":0}"#.to_vec();
    assert!(matches!(decode_text(&json), Err(CodecError::UnknownVariant)));
}

#[test]
fn decode_field_type_mismatch() {
    let json = br#"{"type":"OrderDenied","trader_id":7}"#.to_vec();
    assert!(matches!(decode_text(&json), Err(CodecError::FieldTypeMismatch)));
}

#[test]
fn decode_truncated_input_is_malformed() {
    let e = OrderEvent::OrderDenied(mk_denied());
    let mut t = encode_text(&e);
    t.truncate(t.len() - 1);
    assert!(matches!(decode_text(&t), Err(CodecError::Malformed)));
    let mut b = encode_binary(&e);
    b.truncate(b.len() - 1);
    assert!(matches!(decode_binary(&b), Err(CodecError::Malformed)));
}

#[test]
fn decode_rejects_zero_fill_quantity() {
    let mut p = mk_filled("e-f", 1, 10, 11000, 4, false);
    p.last_qty = Quantity::new(0, 0);
    let bytes = encode_binary(&OrderEvent::OrderFilled(p));
    assert!(matches!(decode_binary(&bytes), Err(CodecError::Malformed)));
}

#[test]
fn decode_rejects_ts_init_before_ts_event() {
    let mut p = mk_denied();
    p.ts_event = 5;
    p.ts_init = 4;
    let bytes = encode_text(&OrderEvent::OrderDenied(p));
    assert!(matches!(decode_text(&bytes), Err(CodecError::Malformed)));
}

#[test]
fn default_initialized_shape() {
    let d = OrderInitialized::default();
    assert!(matches!(d.order_side, OrderSide::Buy));
    assert!(matches!(d.order_type, OrderType::Market));
    assert_eq!(d.quantity.raw, 100_000);
    assert_eq!(d.quantity.precision, 0);
    assert!(matches!(d.time_in_force, TimeInForce::Day));
    assert!(d.price.is_none());
    assert!(!d.reconciliation);
}
