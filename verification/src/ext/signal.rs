//! Signals between tasks: the one-shot channel of `tokio`, and the cancellation token of
//! `tokio_util`.

use vstd::prelude::*;

use tokio::sync::oneshot;
use tokio_util::sync::CancellationToken;

use crate::connected_client::ShutdownReason;

verus! {

/// The sending end of a channel for one value.
#[verifier::external_type_specification]
#[verifier::external_body]
#[verifier::reject_recursive_types(T)]
pub struct ExOneshotSender<T>(oneshot::Sender<T>);

/// A flag that can be raised once, and that tasks can wait for.
#[verifier::external_type_specification]
#[verifier::external_body]
pub struct ExCancellationToken(CancellationToken);

/// The reason that goes through a one-shot channel: what its sending end is told to send, unless
/// the receiving end is gone by then. A sending end is used up when it sends, so there is one at
/// most.
pub uninterp spec fn reason_sent(tx: oneshot::Sender<ShutdownReason>) -> Option<ShutdownReason>;

/// Whether what goes through the channel, if anything does, is that reason.
pub open spec fn sent_if_any(
    tx: oneshot::Sender<ShutdownReason>,
    reason: ShutdownReason,
) -> bool {
    reason_sent(tx) matches Some(r) ==> r == reason
}

/// Whether the token has been cancelled through this handle. A token that is cancelled stays so.
pub uninterp spec fn cancelled(token: CancellationToken) -> bool;

/// Which token this is a handle of.
pub uninterp spec fn token_of(token: CancellationToken) -> int;

/// `oneshot::Sender::send`: hands the reason to the receiving end; where that is gone, the reason
/// comes back. Whether it is gone depends on the other tasks, so nothing is said of it.
#[verifier::external_body]
pub(crate) fn send_reason(tx: oneshot::Sender<ShutdownReason>, reason: ShutdownReason) -> (sent:
    Result<(), ShutdownReason>)
    ensures
        reason_sent(tx) == (match sent {
            Ok(_) => Some(reason),
            Err(_) => None,
        }),
        sent matches Err(back) ==> back == reason,
{
    tx.send(reason)
}

/// `CancellationToken::cancel`: the token is cancelled, and the handle stays one of the same token.
#[verifier::external_body]
pub(crate) fn cancel(token: &mut CancellationToken)
    ensures
        cancelled(*final(token)),
        token_of(*final(token)) == token_of(*old(token)),
{
    token.cancel()
}

} // verus!
