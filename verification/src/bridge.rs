//! The boundary bridge: turning a host runtime's string-keyed mapping of
//! scalar values into a typed order event.
//!
//! The mapping is first rendered in the structured-text form, then decoded
//! by the codec into the typed payload: the accepted two-hop path, so no
//! per-field extractor is written twice.  Any failure surfaces as one
//! typed error naming the offending field where one is known.

use vstd::prelude::*;
use crate::events::OrderEvent;
use crate::record::{
    WireValue, from_record, FieldError, rv, record_of, lemma_record_of_wf, rec_of_initialized,
    rec_of_denied, rec_of_submitted, rec_of_accepted, rec_of_rejected, rec_of_canceled,
    rec_of_expired, rec_of_triggered, rec_of_pending_update, rec_of_pending_cancel,
    rec_of_modify_rejected, rec_of_cancel_rejected, rec_of_updated, rec_of_part_filled,
    rec_of_filled,
};
use crate::text::{record_to_text, text_to_record};

verus! {

pub enum BridgeError {
    /// A required field of the target payload is absent; carries the
    /// field's name.
    MissingField(Vec<u8>),
    /// The named field holds a value of the wrong kind or outside the
    /// payload's invariant.
    TypeMismatch(Vec<u8>),
    /// The rendering produced by the host mapping could not be decoded at
    /// all (unparseable text or an unknown type tag).
    UnderlyingCodecFailure,
}

/// Builds a typed event from a host mapping; never panics, and a returned
/// event is always well-formed.
///
/// The bridge is proved to decode canonical mappings: a mapping equal to
/// the wire record of any well-formed event yields an event with exactly
/// that record, through both hops.
#[verifier::rlimit(100)]
#[verifier::spinoff_prover]
pub fn from_mapping(mapping: &Vec<(Vec<u8>, WireValue)>) -> (r: Result<OrderEvent, BridgeError>)
    ensures
        r matches Ok(d) ==> d.wf(),
        forall|e: OrderEvent|
            #![all_triggers]
            e.wf() && rv(mapping@) == record_of(e) ==> (r matches Ok(d) && record_of(d)
                == record_of(e)),
{
    let bytes = record_to_text(mapping);
    let rec = match text_to_record(&bytes) {
        Some(rc) => rc,
        None => {
            proof {
                assert forall|e: OrderEvent|
                    e.wf() && rv(mapping@) == record_of(e) implies false by {
                    lemma_record_of_wf(e);
                }
            }
            return Err(BridgeError::UnderlyingCodecFailure);
        },
    };
    let r0 = from_record(&rec);
    proof {
        assert forall|e: OrderEvent|
            e.wf() && rv(mapping@) == record_of(e) implies (r0 matches Ok(d) && record_of(d)
            == record_of(e)) by {
            lemma_record_of_wf(e);
            match e {
                OrderEvent::OrderInitialized(p) => {
                    assert(rv(rec@) == rec_of_initialized(p));
                },
                OrderEvent::OrderDenied(p) => {
                    assert(rv(rec@) == rec_of_denied(p));
                },
                OrderEvent::OrderSubmitted(p) => {
                    assert(rv(rec@) == rec_of_submitted(p));
                },
                OrderEvent::OrderAccepted(p) => {
                    assert(rv(rec@) == rec_of_accepted(p));
                },
                OrderEvent::OrderRejected(p) => {
                    assert(rv(rec@) == rec_of_rejected(p));
                },
                OrderEvent::OrderCanceled(p) => {
                    assert(rv(rec@) == rec_of_canceled(p));
                },
                OrderEvent::OrderExpired(p) => {
                    assert(rv(rec@) == rec_of_expired(p));
                },
                OrderEvent::OrderTriggered(p) => {
                    assert(rv(rec@) == rec_of_triggered(p));
                },
                OrderEvent::OrderPendingUpdate(p) => {
                    assert(rv(rec@) == rec_of_pending_update(p));
                },
                OrderEvent::OrderPendingCancel(p) => {
                    assert(rv(rec@) == rec_of_pending_cancel(p));
                },
                OrderEvent::OrderModifyRejected(p) => {
                    assert(rv(rec@) == rec_of_modify_rejected(p));
                },
                OrderEvent::OrderCancelRejected(p) => {
                    assert(rv(rec@) == rec_of_cancel_rejected(p));
                },
                OrderEvent::OrderUpdated(p) => {
                    assert(rv(rec@) == rec_of_updated(p));
                },
                OrderEvent::OrderPartiallyFilled(p) => {
                    assert(rv(rec@) == rec_of_part_filled(p));
                },
                OrderEvent::OrderFilled(p) => {
                    assert(rv(rec@) == rec_of_filled(p));
                },
            }
        }
    }
    match r0 {
        Ok(d) => Ok(d),
        Err(FieldError::Missing(k)) => Err(BridgeError::MissingField(k)),
        Err(FieldError::Mismatch(k)) => Err(BridgeError::TypeMismatch(k)),
        Err(FieldError::Invalid(k)) => Err(BridgeError::TypeMismatch(k)),
        Err(FieldError::UnknownVariant) => Err(BridgeError::UnderlyingCodecFailure),
    }
}

} // verus!
