//! Negative-response-code (NRC) classification. A UDS negative response is
//! `[0x7F, echoed SID, NRC]`; the NRC byte is decoded against the table of
//! ISO 14229, which this crate takes from the `automotive_diag` /
//! `ecu_diagnostics` crates. Callers retry or abort differently on the
//! `busy`, `repeat request` and `conditions not correct` codes, so those
//! are surfaced distinctly; every other byte propagates as an opaque code.

use ecu_diagnostics::dynamic_diag::EcuNRC;
use vstd::prelude::*;

verus! {

/// ISO 14229 `requestCorrectlyReceivedResponsePending`: the ECU is busy
/// processing the request.
pub const NRC_RESPONSE_PENDING: u8 = 0x78;

/// ISO 14229 `busyRepeatRequest`: the ECU asks for a retransmission.
pub const NRC_BUSY_REPEAT_REQUEST: u8 = 0x21;

/// ISO 14229 `conditionsNotCorrect`.
pub const NRC_CONDITIONS_NOT_CORRECT: u8 = 0x22;

/// How a negative-response code is acted upon by the callers.
#[derive(Debug, Clone, Copy, PartialEq, Eq, Structural)]
pub enum NrcClass {
    /// The ECU is still processing; the caller may retry the whole step.
    Busy,
    /// The ECU requests retransmission; the caller may retry likewise.
    RepeatRequest,
    /// Prerequisite conditions were not met; non-fatal after a reset.
    ConditionsNotCorrect,
    /// Any other code, kept as the raw byte.
    Other(u8),
}

/// The classification of one NRC byte.
pub open spec fn spec_classify_nrc(nrc: u8) -> NrcClass {
    if nrc == NRC_RESPONSE_PENDING {
        NrcClass::Busy
    } else if nrc == NRC_BUSY_REPEAT_REQUEST {
        NrcClass::RepeatRequest
    } else if nrc == NRC_CONDITIONS_NOT_CORRECT {
        NrcClass::ConditionsNotCorrect
    } else {
        NrcClass::Other(nrc)
    }
}

/// Relies on `ecu_diagnostics`' `EcuNRC::is_ecu_busy` for
/// `UdsErrorByte`: true exactly for
/// `Standard(RequestCorrectlyReceivedResponsePending)`, the wrapping
/// `automotive_diag` gives the byte 0x78.
#[verifier::external_body]
fn nrc_is_ecu_busy(nrc: u8) -> (r: bool)
    ensures
        r == (nrc == NRC_RESPONSE_PENDING),
{
    automotive_diag::uds::UdsErrorByte::from(nrc).is_ecu_busy()
}

/// Relies on `ecu_diagnostics`' `EcuNRC::is_repeat_request` for
/// `UdsErrorByte`: true exactly for `Standard(BusyRepeatRequest)`, the
/// wrapping `automotive_diag` gives the byte 0x21.
#[verifier::external_body]
fn nrc_is_repeat_request(nrc: u8) -> (r: bool)
    ensures
        r == (nrc == NRC_BUSY_REPEAT_REQUEST),
{
    automotive_diag::uds::UdsErrorByte::from(nrc).is_repeat_request()
}

/// Relies on `automotive_diag`'s `UdsErrorByte::from` and the derived
/// equality on `ByteWrapper`: the byte wraps to
/// `Standard(ConditionsNotCorrect)` exactly when it is 0x22.
#[verifier::external_body]
fn nrc_is_conditions_not_correct(nrc: u8) -> (r: bool)
    ensures
        r == (nrc == NRC_CONDITIONS_NOT_CORRECT),
{
    automotive_diag::uds::UdsErrorByte::from(nrc)
        == ecu_diagnostics::Standard(automotive_diag::uds::UdsError::ConditionsNotCorrect)
}

/// Classify one NRC byte as the callers act on it.
pub fn classify_nrc(nrc: u8) -> (r: NrcClass)
    ensures
        r == spec_classify_nrc(nrc),
{
    if nrc_is_ecu_busy(nrc) {
        NrcClass::Busy
    } else if nrc_is_repeat_request(nrc) {
        NrcClass::RepeatRequest
    } else if nrc_is_conditions_not_correct(nrc) {
        NrcClass::ConditionsNotCorrect
    } else {
        NrcClass::Other(nrc)
    }
}

/// A negative reply whose NRC byte is the `busy` code is classified as
/// `Busy`, never as an opaque failure.
pub proof fn lemma_busy_is_classified_distinctly()
    ensures
        spec_classify_nrc(NRC_RESPONSE_PENDING) == NrcClass::Busy,
        forall|b: u8|
            spec_classify_nrc(b) == NrcClass::Busy <==> b == NRC_RESPONSE_PENDING,
{
}

} // verus!
