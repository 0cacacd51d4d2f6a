use vstd::arithmetic::div_mod::lemma_fundamental_div_mod_converse;
use vstd::prelude::*;
use crate::channel::{reply_channel, wait_reply};
use crate::error::MatrixError;
use crate::matrix::{lemma_cell_in_bounds, Grid, Matrix};
use crate::pool::{worker_for, Msg, MsgInput, MsgOutput, WorkerPool};
use crate::scalar::{lemma_zero_is_unique, zero_of, Scalar};

verus! {

/// `n` cells that all hold the additive identity.
pub open spec fn blank<T: Scalar>(n: nat) -> Seq<T> {
    Seq::new(n, |k: int| zero_of::<T>())
}

/// The cells after each reply, from the first to the last, has been written
/// to the position that it names. A reply that names a position outside the
/// cells changes nothing.
pub open spec fn placed<T>(cells: Seq<T>, replies: Seq<MsgOutput<T>>) -> Seq<T>
    decreases replies.len(),
{
    if replies.len() == 0 {
        cells
    } else {
        let before = placed(cells, replies.drop_last());
        let last = replies.last();
        if last.idx < cells.len() {
            before.update(last.idx as int, last.value)
        } else {
            before
        }
    }
}

/// Whether every reply names one of `n` cells.
pub open spec fn all_in_range<T>(replies: Seq<MsgOutput<T>>, n: nat) -> bool {
    forall|k: int| 0 <= k < replies.len() ==> (#[trigger] replies[k]).idx < n
}

/// Writing replies to cells leaves the number of cells as it was.
pub proof fn lemma_placed_len<T>(cells: Seq<T>, replies: Seq<MsgOutput<T>>)
    ensures
        placed(cells, replies).len() == cells.len(),
    decreases replies.len(),
{
    if replies.len() > 0 {
        lemma_placed_len(cells, replies.drop_last());
    }
}

/// The task for cell `(i, j)` of the product of `a` and `b`: the cell's
/// position in the row-major result, row `i` of `a` and column `j` of `b`.
pub fn cell_task<T: Copy>(a: &Matrix<T>, b: &Matrix<T>, i: usize, j: usize) -> (t: MsgInput<T>)
    requires
        i < a@.rows,
        j < b@.cols,
        a@.rows * b@.cols <= usize::MAX,
    ensures
        t.idx == i * b@.cols + j,
        t.row@ == a@.row(i as int),
        t.col@ == b@.col(j as int),
{
    let row = a.row(i);
    let col = b.col(j);
    let width = b.cols();
    proof {
        lemma_cell_in_bounds(a@.rows, b@.cols, i as int, j as int);
    }
    MsgInput::new(i * width + j, row, col)
}

/// The receiving ends of the reply channels of a product whose tasks have
/// been handed out, in the row-major order of the cells.
#[verifier::reject_recursive_types(T)]
pub struct Pending<T> {
    rows: usize,
    cols: usize,
    receivers: Vec<oneshot::Receiver<MsgOutput<T>>>,
}

impl<T> Pending<T> {
    #[verifier::type_invariant]
    spec fn inv(self) -> bool {
        self.receivers@.len() == self.rows * self.cols
    }

    /// The number of rows of the result.
    pub closed spec fn rows(self) -> nat {
        self.rows as nat
    }

    /// The number of columns of the result.
    pub closed spec fn cols(self) -> nat {
        self.cols as nat
    }

    /// The number of replies that are waited for.
    pub closed spec fn waiting(self) -> nat {
        self.receivers@.len()
    }
}

/// Whether `entry` is the task of cell `k` of the product of `a` and `b`,
/// together with the worker that cell `k` goes to in a pool of `workers`:
/// the task holds `k`, the cell's row of `a` and the cell's column of `b`.
pub open spec fn routed_cell<T>(
    a: Grid<T>,
    b: Grid<T>,
    workers: nat,
    k: int,
    entry: (int, MsgInput<T>),
) -> bool {
    &&& entry.0 == worker_for(k, workers as int)
    &&& entry.1.idx == k
    &&& entry.1.row@ == a.row(k / b.cols as int)
    &&& entry.1.col@ == b.col(k % b.cols as int)
}

/// Whether the record `after` is the record `before` followed by the tasks
/// of the first `n` cells of the product of `a` and `b`, cell by cell in
/// row-major order, each with its worker.
pub open spec fn handed_out<T>(
    a: Grid<T>,
    b: Grid<T>,
    workers: nat,
    before: Seq<(int, MsgInput<T>)>,
    after: Seq<(int, MsgInput<T>)>,
    n: nat,
) -> bool {
    &&& after.len() == before.len() + n
    &&& forall|k: int| 0 <= k < before.len() ==> after[k] == before[k]
    &&& forall|k: int|
        0 <= k < n ==> routed_cell(a, b, workers, k, #[trigger] after[before.len() + k])
}

/// The map phase: for each cell of the product of `a` and `b`, row by row,
/// the cell's task is built, a reply channel is made for it, and the task
/// goes with the channel's sending end to the worker that the pool routes
/// the cell to. A task that cannot be queued is dropped. What is returned
/// holds the receiving ends.
pub fn map_phase<T: Scalar>(a: &Matrix<T>, b: &Matrix<T>, pool: &mut WorkerPool<T>) -> (p: Pending<
    T,
>)
    requires
        a@.cols == b@.rows,
        a@.rows * b@.cols <= usize::MAX,
    ensures
        p.rows() == a@.rows,
        p.cols() == b@.cols,
        p.waiting() == a@.rows * b@.cols,
        final(pool).size() == old(pool).size(),
        old(pool).size() == 0 ==> final(pool).routed() == old(pool).routed(),
        old(pool).size() > 0 ==> handed_out(
            a@,
            b@,
            old(pool).size(),
            old(pool).routed(),
            final(pool).routed(),
            a@.rows * b@.cols,
        ),
{
    let rows = a.rows();
    let cols = b.cols();
    let ghost workers = pool.size();
    let ghost before = pool.routed();
    let mut receivers: Vec<oneshot::Receiver<MsgOutput<T>>> = Vec::new();
    let mut i: usize = 0;
    while i < rows
        invariant
            i <= rows,
            rows == a@.rows,
            cols == b@.cols,
            rows * cols <= usize::MAX,
            receivers@.len() == i * cols,
            pool.size() == workers,
            workers == 0 ==> pool.routed() == before,
            workers > 0 ==> handed_out(a@, b@, workers, before, pool.routed(), (i * cols) as nat),
        decreases rows - i,
    {
        let mut j: usize = 0;
        while j < cols
            invariant
                j <= cols,
                i < rows,
                rows == a@.rows,
                cols == b@.cols,
                rows * cols <= usize::MAX,
                receivers@.len() == i * cols + j,
                pool.size() == workers,
                workers == 0 ==> pool.routed() == before,
                workers > 0 ==> handed_out(
                    a@,
                    b@,
                    workers,
                    before,
                    pool.routed(),
                    (i * cols + j) as nat,
                ),
            decreases cols - j,
        {
            let input = cell_task(a, b, i, j);
            let (tx, rx) = reply_channel::<MsgOutput<T>>();
            let ghost earlier = pool.routed();
            let _queued = pool.submit(Msg::new(input, tx));
            receivers.push(rx);
            proof {
                let k = i * cols + j;
                lemma_cell_in_bounds(rows as nat, cols as nat, i as int, j as int);
                lemma_fundamental_div_mod_converse(k, cols as int, i as int, j as int);
                if workers > 0 {
                    let after = pool.routed();
                    assert(after == earlier.push((worker_for(k, workers as int), input)));
                    assert(routed_cell(a@, b@, workers, k, after[before.len() + k]));
                    assert forall|m: int| 0 <= m < k + 1 implies routed_cell(
                        a@,
                        b@,
                        workers,
                        m,
                        #[trigger] after[before.len() + m],
                    ) by {
                        if m < k {
                            assert(after[before.len() + m] == earlier[before.len() + m]);
                        }
                    }
                }
            }
            j = j + 1;
        }
        assert((i + 1) * cols == i * cols + cols) by (nonlinear_arith);
        i = i + 1;
    }
    Pending { rows, cols, receivers }
}

/// What the dispatcher makes of the outcome of one wait for a reply: the
/// reply itself, or the error for a channel that was closed without one.
pub fn received<T>(outcome: Result<MsgOutput<T>, oneshot::RecvError>) -> (r: Result<
    MsgOutput<T>,
    MatrixError,
>)
    ensures
        outcome is Ok ==> r == Ok::<MsgOutput<T>, MatrixError>(outcome->Ok_0),
        outcome is Err ==> r == Err::<MsgOutput<T>, MatrixError>(MatrixError::ChannelDisconnected),
{
    match outcome {
        Ok(reply) => Ok(reply),
        Err(_) => Err(MatrixError::ChannelDisconnected),
    }
}

/// Builds the matrix of `rows` rows and `cols` columns from the replies:
/// every cell starts as the additive identity, and each reply's value is
/// then written to the cell that the reply names, in the order of the
/// replies. No matrix is built where a reply names a cell that the matrix
/// does not have.
pub fn assemble<T: Scalar>(rows: usize, cols: usize, replies: Vec<MsgOutput<T>>) -> (r: Result<
    Matrix<T>,
    MatrixError,
>)
    requires
        rows * cols <= usize::MAX,
    ensures
        all_in_range(replies@, (rows * cols) as nat) ==> r is Ok && r->Ok_0@ == (Grid {
            rows: rows as nat,
            cols: cols as nat,
            cells: placed(blank::<T>((rows * cols) as nat), replies@),
        }),
        !all_in_range(replies@, (rows * cols) as nat) ==> r is Err && r->Err_0
            == MatrixError::ReplyOutOfRange,
{
    let len = rows * cols;
    let mut data: Vec<T> = Vec::new();
    let mut p: usize = 0;
    while p < len
        invariant
            p <= len,
            data@ == blank::<T>(p as nat),
        decreases len - p,
    {
        let z = T::zero();
        proof {
            lemma_zero_is_unique(z);
        }
        data.push(z);
        p = p + 1;
        assert(data@ == blank::<T>(p as nat));
    }
    let n = replies.len();
    let mut k: usize = 0;
    while k < n
        invariant
            k <= n,
            n == replies@.len(),
            len == rows * cols,
            data@.len() == len,
            all_in_range(replies@.take(k as int), len as nat),
            data@ == placed(blank::<T>(len as nat), replies@.take(k as int)),
        decreases n - k,
    {
        let idx = replies[k].idx;
        let value = replies[k].value;
        if idx >= len {
            return Err(MatrixError::ReplyOutOfRange);
        }
        data.set(idx, value);
        proof {
            let next = replies@.take(k + 1);
            assert(next.drop_last() == replies@.take(k as int));
            assert(next.last() == replies@[k as int]);
        }
        k = k + 1;
    }
    assert(replies@.take(n as int) == replies@);
    Ok(Matrix::new(rows, cols, data))
}

/// Whether `r` is what the reduce phase can end in for a result of `rows`
/// rows and `cols` columns: a matrix assembled from one reply for each
/// task, or the error for a closed channel or for a reply that names no
/// cell of the result.
pub open spec fn reduced<T: Scalar>(rows: nat, cols: nat, r: Result<Matrix<T>, MatrixError>) -> bool {
    match r {
        Ok(m) => exists|replies: Seq<MsgOutput<T>>|
            #![trigger placed(blank::<T>(rows * cols), replies)]
            {
                &&& replies.len() == rows * cols
                &&& all_in_range(replies, rows * cols)
                &&& m@ == (Grid {
                    rows,
                    cols,
                    cells: placed(blank::<T>(rows * cols), replies),
                })
            },
        Err(e) => e == MatrixError::ChannelDisconnected || e == MatrixError::ReplyOutOfRange,
    }
}

/// The reduce phase: waits for the reply to each task, in the order in
/// which the tasks were made, and assembles the result from the replies.
/// The first channel that is found closed ends the call with the error.
/// There is no timeout: the call waits for as long as the sending end of a
/// task's reply channel is kept alive without a reply.
pub fn reduce_phase<T: Scalar>(pending: Pending<T>) -> (r: Result<Matrix<T>, MatrixError>)
    ensures
        reduced(pending.rows(), pending.cols(), r),
        pending.rows() * pending.cols() == 0 ==> r is Ok,
{
    proof {
        use_type_invariant(&pending);
    }
    let rows = pending.rows;
    let cols = pending.cols;
    let receivers = pending.receivers;
    let total = receivers.len();
    let mut replies: Vec<MsgOutput<T>> = Vec::new();
    if total == 0 {
        return assemble(rows, cols, replies);
    }
    for rx in it: receivers
        invariant
            replies@.len() == it.index(),
            it.seq().len() == total,
            total == rows * cols,
            total > 0,
            rows == pending.rows(),
            cols == pending.cols(),
    {
        match received(wait_reply(rx)) {
            Ok(reply) => {
                replies.push(reply);
            },
            Err(e) => {
                return Err(e);
            },
        }
    }
    assemble(rows, cols, replies)
}

/// The product of `a` and `b`, each cell computed by a worker of `pool`.
/// Matrices whose dimensions do not go together are refused before any
/// task is made. Otherwise the call is the map phase followed by the reduce
/// phase: it returns once every task has been answered, or once the reply
/// channel of a task is found closed.
pub fn multiply<T: Scalar>(a: &Matrix<T>, b: &Matrix<T>, pool: &mut WorkerPool<T>) -> (r: Result<
    Matrix<T>,
    MatrixError,
>)
    requires
        a@.cols == b@.rows ==> a@.rows * b@.cols <= usize::MAX,
    ensures
        final(pool).size() == old(pool).size(),
        a@.cols != b@.rows ==> r is Err && r->Err_0 == MatrixError::IncompatibleDimensions
            && final(pool).routed() == old(pool).routed(),
        a@.cols == b@.rows ==> reduced(a@.rows, b@.cols, r),
        a@.cols == b@.rows && a@.rows * b@.cols == 0 ==> r is Ok,
        a@.cols == b@.rows && old(pool).size() == 0 ==> final(pool).routed() == old(pool).routed(),
        a@.cols == b@.rows && old(pool).size() > 0 ==> handed_out(
            a@,
            b@,
            old(pool).size(),
            old(pool).routed(),
            final(pool).routed(),
            a@.rows * b@.cols,
        ),
{
    if a.cols() != b.rows() {
        return Err(MatrixError::IncompatibleDimensions);
    }
    let pending = map_phase(a, b, pool);
    reduce_phase(pending)
}

} // verus!
