//! The wire codec: both encodings of an order event, and decoding back.
//!
//! Encoding never fails; the encoders are proved to produce exactly the
//! specified rendering of the event's record.  Decoding is total and
//! returns a typed error on malformed input; a decoded event is always
//! well-formed.

use vstd::prelude::*;
use crate::events::OrderEvent;
use crate::record::{
    record_of, to_record, from_record, FieldError, rv, lemma_record_of_wf, rec_of_initialized,
    rec_of_denied,
    rec_of_submitted, rec_of_accepted, rec_of_rejected, rec_of_canceled, rec_of_expired,
    rec_of_triggered, rec_of_pending_update, rec_of_pending_cancel, rec_of_modify_rejected,
    rec_of_cancel_rejected, rec_of_updated, rec_of_part_filled, rec_of_filled,
};
use crate::text::{text_of_record, record_to_text, text_to_record};
use crate::binary::{bin_of_record, record_to_bin, bin_to_record};

verus! {

#[derive(Clone, Copy, PartialEq, Eq, Structural, Debug)]
pub enum CodecError {
    /// Truncated or corrupt input, or a field outside its invariant.
    Malformed,
    /// An unrecognized type tag.
    UnknownVariant,
    /// A field holds a value of the wrong kind.
    FieldTypeMismatch,
}

/// The exact structured-text bytes of an event.
pub open spec fn text_enc(e: OrderEvent) -> Seq<u8> {
    text_of_record(record_of(e))
}

/// The exact compact binary bytes of an event.
pub open spec fn bin_enc(e: OrderEvent) -> Seq<u8> {
    bin_of_record(record_of(e))
}

/// Encodes an event in the structured-text form; never fails.
pub fn encode_text(e: &OrderEvent) -> (r: Vec<u8>)
    ensures
        r@ == text_enc(*e),
{
    let rec = to_record(e);
    record_to_text(&rec)
}

/// Encodes an event in the compact binary form; never fails.
pub fn encode_binary(e: &OrderEvent) -> (r: Vec<u8>)
    ensures
        r@ == bin_enc(*e),
{
    let rec = to_record(e);
    record_to_bin(&rec)
}

fn field_error_to_codec(er: FieldError) -> (r: CodecError)
    ensures
        er is UnknownVariant ==> r == CodecError::UnknownVariant,
        er is Mismatch ==> r == CodecError::FieldTypeMismatch,
        er is Missing || er is Invalid ==> r == CodecError::Malformed,
{
    match er {
        FieldError::UnknownVariant => CodecError::UnknownVariant,
        FieldError::Mismatch(_) => CodecError::FieldTypeMismatch,
        FieldError::Missing(_) => CodecError::Malformed,
        FieldError::Invalid(_) => CodecError::Malformed,
    }
}

/// Decodes a structured-text rendering.
///
/// A decoded event is well-formed, and decoding is proved to invert
/// encoding: on the structured-text bytes of any well-formed event the
/// result is an event with exactly the same wire record.
#[verifier::rlimit(100)]
#[verifier::spinoff_prover]
pub fn decode_text(bytes: &Vec<u8>) -> (r: Result<OrderEvent, CodecError>)
    ensures
        r matches Ok(d) ==> d.wf(),
        forall|e: OrderEvent|
            #![all_triggers]
            e.wf() && bytes@ == text_enc(e) ==> (r matches Ok(d) && record_of(d) == record_of(
                e)),
{
    match text_to_record(bytes) {
        None => {
            proof {
                assert forall|e: OrderEvent|
                    e.wf() && bytes@ == text_enc(e) implies false by {
                    lemma_record_of_wf(e);
                }
            }
            Err(CodecError::Malformed)
        },
        Some(rec) => {
            let r0 = from_record(&rec);
            proof {
                assert forall|e: OrderEvent|
                    e.wf() && bytes@ == text_enc(e) implies (r0 matches Ok(d) && record_of(d)
                    == record_of(e)) by {
                    lemma_record_of_wf(e);
                    match e {
                        OrderEvent::OrderInitialized(p) => {
                            assert(rv(rec@) == rec_of_initialized(p));
                        },
                        OrderEvent::OrderDenied(p) => {
                            assert(rv(rec@) == rec_of_denied(p));
                        },
                        OrderEvent::OrderSubmitted(p) => {
                            assert(rv(rec@) == rec_of_submitted(p));
                        },
                        OrderEvent::OrderAccepted(p) => {
                            assert(rv(rec@) == rec_of_accepted(p));
                        },
                        OrderEvent::OrderRejected(p) => {
                            assert(rv(rec@) == rec_of_rejected(p));
                        },
                        OrderEvent::OrderCanceled(p) => {
                            assert(rv(rec@) == rec_of_canceled(p));
                        },
                        OrderEvent::OrderExpired(p) => {
                            assert(rv(rec@) == rec_of_expired(p));
                        },
                        OrderEvent::OrderTriggered(p) => {
                            assert(rv(rec@) == rec_of_triggered(p));
                        },
                        OrderEvent::OrderPendingUpdate(p) => {
                            assert(rv(rec@) == rec_of_pending_update(p));
                        },
                        OrderEvent::OrderPendingCancel(p) => {
                            assert(rv(rec@) == rec_of_pending_cancel(p));
                        },
                        OrderEvent::OrderModifyRejected(p) => {
                            assert(rv(rec@) == rec_of_modify_rejected(p));
                        },
                        OrderEvent::OrderCancelRejected(p) => {
                            assert(rv(rec@) == rec_of_cancel_rejected(p));
                        },
                        OrderEvent::OrderUpdated(p) => {
                            assert(rv(rec@) == rec_of_updated(p));
                        },
                        OrderEvent::OrderPartiallyFilled(p) => {
                            assert(rv(rec@) == rec_of_part_filled(p));
                        },
                        OrderEvent::OrderFilled(p) => {
                            assert(rv(rec@) == rec_of_filled(p));
                        },
                    }
                }
            }
            match r0 {
                Ok(d) => Ok(d),
                Err(er) => Err(field_error_to_codec(er)),
            }
        },
    }
}

/// Decodes a compact binary rendering.
///
/// A decoded event is well-formed, and decoding is proved to invert
/// encoding: on the compact binary bytes of any well-formed event the
/// result is an event with exactly the same wire record.
#[verifier::rlimit(100)]
#[verifier::spinoff_prover]
pub fn decode_binary(bytes: &Vec<u8>) -> (r: Result<OrderEvent, CodecError>)
    ensures
        r matches Ok(d) ==> d.wf(),
        forall|e: OrderEvent|
            #![all_triggers]
            e.wf() && bytes@ == bin_enc(e) ==> (r matches Ok(d) && record_of(d) == record_of(e)),
{
    match bin_to_record(bytes) {
        None => Err(CodecError::Malformed),
        Some(rec) => {
            let r0 = from_record(&rec);
            proof {
                assert forall|e: OrderEvent|
                    e.wf() && bytes@ == bin_enc(e) implies (r0 matches Ok(d) && record_of(d)
                    == record_of(e)) by {
                    match e {
                        OrderEvent::OrderInitialized(p) => {
                            assert(rv(rec@) == rec_of_initialized(p));
                        },
                        OrderEvent::OrderDenied(p) => {
                            assert(rv(rec@) == rec_of_denied(p));
                        },
                        OrderEvent::OrderSubmitted(p) => {
                            assert(rv(rec@) == rec_of_submitted(p));
                        },
                        OrderEvent::OrderAccepted(p) => {
                            assert(rv(rec@) == rec_of_accepted(p));
                        },
                        OrderEvent::OrderRejected(p) => {
                            assert(rv(rec@) == rec_of_rejected(p));
                        },
                        OrderEvent::OrderCanceled(p) => {
                            assert(rv(rec@) == rec_of_canceled(p));
                        },
                        OrderEvent::OrderExpired(p) => {
                            assert(rv(rec@) == rec_of_expired(p));
                        },
                        OrderEvent::OrderTriggered(p) => {
                            assert(rv(rec@) == rec_of_triggered(p));
                        },
                        OrderEvent::OrderPendingUpdate(p) => {
                            assert(rv(rec@) == rec_of_pending_update(p));
                        },
                        OrderEvent::OrderPendingCancel(p) => {
                            assert(rv(rec@) == rec_of_pending_cancel(p));
                        },
                        OrderEvent::OrderModifyRejected(p) => {
                            assert(rv(rec@) == rec_of_modify_rejected(p));
                        },
                        OrderEvent::OrderCancelRejected(p) => {
                            assert(rv(rec@) == rec_of_cancel_rejected(p));
                        },
                        OrderEvent::OrderUpdated(p) => {
                            assert(rv(rec@) == rec_of_updated(p));
                        },
                        OrderEvent::OrderPartiallyFilled(p) => {
                            assert(rv(rec@) == rec_of_part_filled(p));
                        },
                        OrderEvent::OrderFilled(p) => {
                            assert(rv(rec@) == rec_of_filled(p));
                        },
                    }
                }
            }
            match r0 {
                Ok(d) => Ok(d),
                Err(er) => Err(field_error_to_codec(er)),
            }
        },
    }
}

} // verus!
