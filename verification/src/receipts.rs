//! Receipts: an agent says that a message reached it.

use vstd::prelude::*;
use vstd::string::*;
use crate::info::{is_receiver, receiver_of, AuthoritativeReceiver};
use crate::requests::ZynkMessageReceivedParams;
use crate::response::{error, refusal, ApiError, Refusal, Response};
use crate::session::Session;

verus! {

/// What is asked of whoever records receipts.
#[derive(Debug)]
pub struct ReceiptRequest {
    pub message_id: String,
    pub conversation_id: String,
    pub conversation_seq: i64,
    pub runtime_session_id: String,
    pub socket_namespace: String,
    pub receiver_seq: Option<i64>,
    pub timestamp: Option<String>,
    pub status: Option<String>,
    pub receiver_agent_session_hint: Option<String>,
}

/// A receipt that was recorded.
#[derive(Debug)]
pub struct AcceptedReceipt {
    pub message_id: String,
    pub conversation_id: String,
    pub conversation_seq: i64,
    pub status: String,
    pub receiver_pane_id: String,
    pub receiver_agent_label: String,
}

#[derive(Debug)]
pub struct ReceiptReply {
    pub message_id: String,
    pub conversation_id: String,
    pub conversation_seq: i64,
    pub receipt_status: String,
    pub delivery_status: String,
    pub receiver_pane_id: String,
    pub receiver_agent_label: String,
    pub next: String,
}

/// Why a receipt is not passed on to be recorded.
pub open spec fn receipt_refusal(
    session: Session,
    params: ZynkMessageReceivedParams,
    recorder: bool,
) -> Option<Refusal> {
    if params.receiver_seq matches Some(n) && n <= 0 {
        Some(refusal("invalid_params"@, "receiver_seq must be positive when present"@))
    } else if receiver_of(session, params.pane_id@) is None {
        Some(
            refusal(
                "receiver_identity_unverified"@,
                "pane has no hook-authoritative agent identity; not receipt-capable"@,
            ),
        )
    } else if !recorder {
        Some(
            refusal(
                "receipt_worker_unavailable"@,
                "receipt worker is not available in this runtime"@,
            ),
        )
    } else {
        None
    }
}

/// What is asked for a message.
pub open spec fn is_request_for(request: ReceiptRequest, params: ZynkMessageReceivedParams) -> bool {
    &&& request.message_id == params.message_id
    &&& request.conversation_id == params.conversation_id
    &&& request.conversation_seq == params.conversation_seq
    &&& request.runtime_session_id == params.runtime_session_id
    &&& request.socket_namespace == params.socket_namespace
    &&& request.receiver_seq == params.receiver_seq
    &&& request.timestamp == params.timestamp
    &&& request.status == params.status
    &&& request.receiver_agent_session_hint == params.receiver_agent_session
}

/// What is said of a receipt that was recorded.
pub open spec fn is_reply_to(reply: ReceiptReply, accepted: AcceptedReceipt) -> bool {
    &&& reply.message_id == accepted.message_id
    &&& reply.conversation_id == accepted.conversation_id
    &&& reply.conversation_seq == accepted.conversation_seq
    &&& reply.receipt_status == accepted.status
    &&& reply.delivery_status@ == "received"@
    &&& reply.receiver_pane_id == accepted.receiver_pane_id
    &&& reply.receiver_agent_label == accepted.receiver_agent_label
    &&& reply.next@ == "receipt recorded; processed is deferred"@
}

/// What to record, and for whom; or why nothing is. `recorder` says whether there is anybody to
/// record it.
pub fn plan_zynk_message_received(
    session: &Session,
    params: ZynkMessageReceivedParams,
    recorder: bool,
) -> (r: Result<(ReceiptRequest, AuthoritativeReceiver), ApiError>)
    ensures
        match r {
            Ok((request, receiver)) => {
                &&& receipt_refusal(*session, params, recorder) is None
                &&& is_request_for(request, params)
                &&& is_receiver(receiver, *session, params.pane_id@)
            },
            Err(e) => receipt_refusal(*session, params, recorder) == Some(e@),
        },
{
    match params.receiver_seq {
        Some(n) => {
            if n <= 0 {
                return Err(error("invalid_params", "receiver_seq must be positive when present"));
            }
        },
        None => {},
    }
    let receiver = match session.authoritative_receiver_identity(params.pane_id.as_str()) {
        Some(receiver) => receiver,
        None => {
            return Err(
                error(
                    "receiver_identity_unverified",
                    "pane has no hook-authoritative agent identity; not receipt-capable",
                ),
            );
        },
    };
    if !recorder {
        return Err(
            error(
                "receipt_worker_unavailable",
                "receipt worker is not available in this runtime",
            ),
        );
    }
    let request = ReceiptRequest {
        message_id: params.message_id,
        conversation_id: params.conversation_id,
        conversation_seq: params.conversation_seq,
        runtime_session_id: params.runtime_session_id,
        socket_namespace: params.socket_namespace,
        receiver_seq: params.receiver_seq,
        timestamp: params.timestamp,
        status: params.status,
        receiver_agent_session_hint: params.receiver_agent_session,
    };
    Ok((request, receiver))
}

/// The reply once the receipt was recorded, or refused by whoever records.
pub fn finish_zynk_message_received(id: String, outcome: Result<AcceptedReceipt, ApiError>) -> (r:
    Response<ReceiptReply>)
    ensures
        r.id == id,
        match (outcome, r.body) {
            (Err(refused), Err(e)) => e == refused,
            (Ok(accepted), Ok(reply)) => is_reply_to(reply, accepted),
            _ => false,
        },
{
    match outcome {
        Ok(accepted) => Response {
            id,
            body: Ok(
                ReceiptReply {
                    message_id: accepted.message_id,
                    conversation_id: accepted.conversation_id,
                    conversation_seq: accepted.conversation_seq,
                    receipt_status: accepted.status,
                    delivery_status: "received".to_owned(),
                    receiver_pane_id: accepted.receiver_pane_id,
                    receiver_agent_label: accepted.receiver_agent_label,
                    next: "receipt recorded; processed is deferred".to_owned(),
                },
            ),
        },
        Err(e) => Response { id, body: Err(e) },
    }
}

/// Nothing is recorded for a pane whose agent no hook vouches for, whatever its screen looks like.
pub proof fn law_no_receipt_is_recorded_for_a_detected_agent(
    session: Session,
    params: ZynkMessageReceivedParams,
    recorder: bool,
)
    requires
        receiver_of(session, params.pane_id@) is None,
    ensures
        receipt_refusal(session, params, recorder) is Some,
{
}

} // verus!
