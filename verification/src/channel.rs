use vstd::prelude::*;

verus! {

/// `oneshot::Sender`: the sending end of a channel for one value. Opaque.
#[verifier::external_type_specification]
#[verifier::external_body]
#[verifier::reject_recursive_types(T)]
pub struct ExReplySender<T>(oneshot::Sender<T>);

/// `oneshot::Receiver`: the receiving end of a channel for one value.
/// Opaque.
#[verifier::external_type_specification]
#[verifier::external_body]
#[verifier::reject_recursive_types(T)]
pub struct ExReplyReceiver<T>(oneshot::Receiver<T>);

/// `oneshot::RecvError`: the error of a wait on a channel whose sending end
/// went away without sending. Opaque.
#[verifier::external_type_specification]
#[verifier::external_body]
pub struct ExReplyRecvError(oneshot::RecvError);

/// `std::sync::mpsc::Sender`: the sending end of an unbounded queue.
/// Opaque.
#[verifier::external_type_specification]
#[verifier::external_body]
#[verifier::reject_recursive_types(T)]
pub struct ExTaskSender<T>(std::sync::mpsc::Sender<T>);

/// `oneshot::channel`: a fresh channel that carries at most one value, as
/// its sending and its receiving end. Nothing is claimed of the two ends.
#[verifier::external_body]
pub(crate) fn reply_channel<T>() -> (ends: (oneshot::Sender<T>, oneshot::Receiver<T>)) {
    oneshot::channel()
}

/// `oneshot::Sender::send`: hands `message` to the receiving end and uses
/// the sender up. The result tells whether the receiving end was still
/// there to take it; which of the two happens is not claimed.
#[verifier::external_body]
pub(crate) fn send_reply<T>(sender: oneshot::Sender<T>, message: T) -> (delivered: bool) {
    sender.send(message).is_ok()
}

/// `oneshot::Receiver::recv`: blocks until the sending end has sent its
/// value or has gone away without sending one, and gives the value or the
/// error. Nothing is claimed of which it is, nor of the value. The call
/// does not return while the sending end is kept alive and silent. The
/// crate is built without its support for futures, so no receiver can have
/// been polled before, which is the one use that this call answers with a
/// panic.
#[verifier::external_body]
pub(crate) fn wait_reply<T>(receiver: oneshot::Receiver<T>) -> (r: Result<T, oneshot::RecvError>) {
    receiver.recv()
}

/// `std::sync::mpsc::Sender::send`: puts `message` into the queue of the
/// channel, without blocking. The result tells whether the receiving end was
/// still there; which of the two happens is not claimed.
#[verifier::external_body]
pub(crate) fn send_task<T>(sender: &std::sync::mpsc::Sender<T>, message: T) -> (queued: bool) {
    sender.send(message).is_ok()
}

} // verus!
