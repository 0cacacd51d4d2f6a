use vstd::prelude::*;
use crate::channel::{send_reply, send_task};
use crate::error::MatrixError;
use crate::scalar::Scalar;
use crate::vector::{dot, dot_fits, dot_product, dot_product_fits, Vector};

verus! {

/// The work for one cell of a product: the cell's position in the result
/// and the row and the column whose dot product belongs there.
pub struct MsgInput<T> {
    pub idx: usize,
    pub row: Vector<T>,
    pub col: Vector<T>,
}

/// The answer to one task: the cell's position and its value.
pub struct MsgOutput<T> {
    pub idx: usize,
    pub value: T,
}

/// A task together with the sending end of the channel on which its answer
/// is expected.
#[verifier::reject_recursive_types(T)]
pub struct Msg<T> {
    input: MsgInput<T>,
    sender: oneshot::Sender<MsgOutput<T>>,
}

impl<T> MsgInput<T> {
    /// The task for cell `idx` with the given row and column.
    pub fn new(idx: usize, row: Vector<T>, col: Vector<T>) -> (m: Self)
        ensures
            m.idx == idx,
            m.row == row,
            m.col == col,
    {
        MsgInput { idx, row, col }
    }
}

impl<T: Scalar> MsgInput<T> {
    /// Whether the task's answer is `reply`: the same position, and a value
    /// that stands for the dot product of the task's row and column.
    pub open spec fn answered_by(self, reply: MsgOutput<T>) -> bool {
        reply.idx == self.idx && reply.value.value() == dot(self.row@, self.col@)
    }

    /// Whether `evaluate` can be asked of the task: the element type can
    /// hold what arises on the way to the dot product of its row and column.
    pub open spec fn computable(self) -> bool {
        self.row@.len() == self.col@.len() ==> dot_fits(self.row@, self.col@)
    }

    /// Tests whether the task is computable.
    pub fn fits(&self) -> (ok: bool)
        ensures
            ok == self.computable(),
    {
        dot_product_fits(&self.row, &self.col)
    }

    /// Computes the task's answer. A task whose row and column differ in
    /// length has none.
    pub fn evaluate(self) -> (r: Result<MsgOutput<T>, MatrixError>)
        requires
            self.computable(),
        ensures
            self.row@.len() != self.col@.len() ==> r == Err::<MsgOutput<T>, MatrixError>(
                MatrixError::DimensionMismatch,
            ),
            self.row@.len() == self.col@.len() ==> r is Ok && self.answered_by(r->Ok_0),
    {
        let idx = self.idx;
        match dot_product(self.row, self.col) {
            Ok(value) => Ok(MsgOutput { idx, value }),
            Err(e) => Err(e),
        }
    }
}

impl<T> Msg<T> {
    /// Pairs a task with the channel for its answer.
    pub fn new(input: MsgInput<T>, sender: oneshot::Sender<MsgOutput<T>>) -> (m: Self)
        ensures
            m.input() == input,
    {
        Msg { input, sender }
    }

    /// The task that the message carries.
    pub closed spec fn input(self) -> MsgInput<T> {
        self.input
    }

    /// The task that the message carries.
    pub fn task(&self) -> (t: &MsgInput<T>)
        ensures
            *t == self.input(),
    {
        &self.input
    }
}

/// What a worker does with one message: it computes the task's answer and
/// sends it on the message's own channel. The result tells whether the
/// answer was taken; that it was not is no failure of the worker. A task
/// that has no answer is reported as the error, and nothing is sent.
pub fn serve<T: Scalar>(msg: Msg<T>) -> (r: Result<bool, MatrixError>)
    requires
        msg.input().computable(),
    ensures
        msg.input().row@.len() != msg.input().col@.len() ==> r == Err::<bool, MatrixError>(
            MatrixError::DimensionMismatch,
        ),
        msg.input().row@.len() == msg.input().col@.len() ==> r is Ok,
{
    match msg.input.evaluate() {
        Ok(reply) => Ok(send_reply(msg.sender, reply)),
        Err(e) => Err(e),
    }
}

/// The sending ends of the workers' task queues, one for each worker,
/// with a record of the tasks that were handed to them.
#[verifier::reject_recursive_types(T)]
pub struct WorkerPool<T> {
    senders: Vec<std::sync::mpsc::Sender<Msg<T>>>,
    routed: Ghost<Seq<(int, MsgInput<T>)>>,
}

/// The worker that the task for cell `idx` goes to in a pool of `workers`.
pub open spec fn worker_for(idx: int, workers: int) -> int {
    idx % workers
}

impl<T> WorkerPool<T> {
    /// A pool over the given queues, to which nothing has been handed yet.
    pub fn new(senders: Vec<std::sync::mpsc::Sender<Msg<T>>>) -> (p: Self)
        ensures
            p.size() == senders@.len(),
            p.routed() == Seq::<(int, MsgInput<T>)>::empty(),
    {
        WorkerPool { senders, routed: Ghost(Seq::empty()) }
    }

    /// The tasks that were handed to the workers so far, each with the
    /// number of its worker, in the order in which they were handed over.
    pub closed spec fn routed(self) -> Seq<(int, MsgInput<T>)> {
        self.routed@
    }

    /// The number of workers.
    pub closed spec fn size(self) -> nat {
        self.senders@.len()
    }

    /// The number of workers.
    pub fn len(&self) -> (n: usize)
        ensures
            n == self.size(),
    {
        self.senders.len()
    }

    /// The worker that a task for cell `idx` is routed to: tasks go round
    /// the workers by the index of their cell. An empty pool has no worker.
    pub fn route(&self, idx: usize) -> (w: Option<usize>)
        ensures
            self.size() == 0 ==> w is None,
            self.size() > 0 ==> w is Some && w->Some_0 < self.size() && w->Some_0 == worker_for(
                idx as int,
                self.size() as int,
            ),
    {
        let n = self.senders.len();
        if n == 0 {
            None
        } else {
            Some(idx % n)
        }
    }

    /// Hands `msg` to the worker that `route` gives for its cell. The
    /// result tells whether the message was queued; where it was not, the
    /// message is dropped, and with it the sending end of its reply channel.
    /// An empty pool is handed nothing.
    pub fn submit(&mut self, msg: Msg<T>) -> (queued: bool)
        ensures
            final(self).size() == old(self).size(),
            old(self).size() == 0 ==> !queued && final(self).routed() == old(self).routed(),
            old(self).size() > 0 ==> final(self).routed() == old(self).routed().push(
                (worker_for(msg.input().idx as int, old(self).size() as int), msg.input()),
            ),
    {
        match self.route(msg.input.idx) {
            Some(w) => {
                self.routed = Ghost(self.routed@.push((w as int, msg.input())));
                send_task(&self.senders[w], msg)
            },
            None => false,
        }
    }
}

} // verus!
