use vstd::prelude::*;
use vstd::arithmetic::div_mod::lemma_fundamental_div_mod_converse;
use crate::dispatch::{handed_out, lemma_placed_len, placed, routed_cell};
use crate::matrix::{lemma_cell_in_bounds, Grid};
use crate::pool::{MsgInput, MsgOutput};
use crate::scalar::Scalar;
use crate::vector::{dot, dot_fits, dot_prefix, step_fits, term};

verus! {

/// The sum of the first `n` products does not depend on which of the two
/// sequences is taken first.
pub proof fn lemma_dot_prefix_commutes<T: Scalar>(a: Seq<T>, b: Seq<T>, n: nat)
    ensures
        dot_prefix(a, b, n) == dot_prefix(b, a, n),
    decreases n,
{
    if n > 0 {
        lemma_dot_prefix_commutes(a, b, (n - 1) as nat);
        assert(term(a, b, n - 1) == term(b, a, n - 1)) by (nonlinear_arith)
            requires
                term(a, b, n - 1) == a[n - 1].value() * b[n - 1].value(),
                term(b, a, n - 1) == b[n - 1].value() * a[n - 1].value(),
        ;
    }
}

/// The dot product is commutative: for two sequences of equal length,
/// exchanging them changes neither the dot product nor whether the element
/// type can hold what arises on the way to it.
pub proof fn lemma_dot_commutes<T: Scalar>(a: Seq<T>, b: Seq<T>)
    requires
        a.len() == b.len(),
    ensures
        dot(a, b) == dot(b, a),
        dot_fits(a, b) == dot_fits(b, a),
{
    lemma_dot_prefix_commutes(a, b, a.len());
    assert forall|k: int| 0 <= k < a.len() implies step_fits(a, b, k) == step_fits(b, a, k) by {
        lemma_dot_prefix_commutes(a, b, (k + 1) as nat);
        lemma_dot_prefix_commutes(a, b, k as nat);
    }
    if dot_fits(a, b) {
        assert forall|k: int| 0 <= k < b.len() implies #[trigger] step_fits(b, a, k) by {
            assert(step_fits(a, b, k));
        }
    }
    if dot_fits(b, a) {
        assert forall|k: int| 0 <= k < a.len() implies #[trigger] step_fits(a, b, k) by {
            assert(step_fits(b, a, k));
        }
    }
}

/// Whether some reply names cell `p`.
pub open spec fn names<T>(replies: Seq<MsgOutput<T>>, p: int) -> bool {
    exists|m: int| 0 <= m < replies.len() && (#[trigger] replies[m]).idx == p
}

/// Whether reply `m` names cell `p` and its value is what cell `p` holds
/// once the replies have been written to `cells`.
pub open spec fn written<T>(cells: Seq<T>, replies: Seq<MsgOutput<T>>, p: int, m: int) -> bool {
    &&& 0 <= m < replies.len()
    &&& replies[m].idx == p
    &&& placed(cells, replies)[p] == replies[m].value
}

/// Whether no two replies name the same cell.
pub open spec fn distinct_targets<T>(replies: Seq<MsgOutput<T>>) -> bool {
    forall|m: int, n: int|
        0 <= m < replies.len() && 0 <= n < replies.len() && m != n ==> (#[trigger] replies[m]).idx
            != (#[trigger] replies[n]).idx
}

/// Once replies have been written to cells, a cell that no reply names
/// holds what it held before, and any other cell holds the value of a
/// reply that names it.
pub proof fn lemma_placed_cell<T>(cells: Seq<T>, replies: Seq<MsgOutput<T>>, p: int)
    requires
        0 <= p < cells.len(),
    ensures
        !names(replies, p) ==> placed(cells, replies)[p] == cells[p],
        names(replies, p) ==> exists|m: int| #[trigger] written(cells, replies, p, m),
    decreases replies.len(),
{
    if replies.len() > 0 {
        let front = replies.drop_last();
        let last = replies.last();
        lemma_placed_cell(cells, front, p);
        lemma_placed_len(cells, front);
        if last.idx == p {
            assert(written(cells, replies, p, replies.len() - 1));
        } else {
            assert(placed(cells, replies)[p] == placed(cells, front)[p]);
            if names(front, p) {
                let m = choose|m: int| #[trigger] written(cells, front, p, m);
                assert(front[m] == replies[m]);
                assert(written(cells, replies, p, m));
            } else {
                assert forall|m: int| 0 <= m < replies.len() implies (#[trigger] replies[m]).idx
                    != p by {
                    if m < front.len() {
                        assert(front[m] == replies[m]);
                    }
                }
            }
        }
        if names(replies, p) && last.idx != p && !names(front, p) {
            let m = choose|m: int| 0 <= m < replies.len() && (#[trigger] replies[m]).idx == p;
            assert(front[m] == replies[m]);
        }
    }
}

/// Where no two replies name the same cell, the order in which they are
/// written does not matter: any rearrangement of the replies fills the
/// cells in the same way.
pub proof fn lemma_placement_ignores_order<T>(
    cells: Seq<T>,
    first: Seq<MsgOutput<T>>,
    second: Seq<MsgOutput<T>>,
)
    requires
        distinct_targets(first),
        first.to_multiset() == second.to_multiset(),
    ensures
        placed(cells, first) == placed(cells, second),
{
    lemma_placed_len(cells, first);
    lemma_placed_len(cells, second);
    first.to_multiset_ensures();
    second.to_multiset_ensures();
    assert forall|p: int| 0 <= p < cells.len() implies placed(cells, first)[p] == placed(
        cells,
        second,
    )[p] by {
        lemma_placed_cell(cells, first, p);
        lemma_placed_cell(cells, second, p);
        if names(second, p) {
            let m2 = choose|m: int| #[trigger] written(cells, second, p, m);
            assert(second.contains(second[m2]));
            assert(first.to_multiset().count(second[m2]) > 0);
            assert(first.contains(second[m2]));
            let k = choose|k: int| 0 <= k < first.len() && first[k] == second[m2];
            assert(first[k].idx == p);
            assert(names(first, p));
            let m1 = choose|m: int| #[trigger] written(cells, first, p, m);
            assert(m1 == k);
        } else if names(first, p) {
            let m1 = choose|m: int| #[trigger] written(cells, first, p, m);
            assert(first.contains(first[m1]));
            assert(second.to_multiset().count(first[m1]) > 0);
            assert(second.contains(first[m1]));
            let k = choose|k: int| 0 <= k < second.len() && second[k] == first[m1];
            assert(second[k].idx == p);
            assert(false);
        }
    }
    assert(placed(cells, first) =~= placed(cells, second));
}

/// Whether `reply` is right for the product of `a` and `b`: it names a
/// cell of the product, and its value stands for the dot product of that
/// cell's row of `a` and column of `b`.
pub open spec fn correct_reply<T: Scalar>(a: Grid<T>, b: Grid<T>, reply: MsgOutput<T>) -> bool {
    &&& reply.idx < a.rows * b.cols
    &&& reply.value.value() == dot(
        a.row(reply.idx as int / b.cols as int),
        b.col(reply.idx as int % b.cols as int),
    )
}

/// Whether the replies answer the product of `a` and `b`: each of them is
/// right, and each cell of the product is named by one of them.
pub open spec fn answers_every_cell<T: Scalar>(
    a: Grid<T>,
    b: Grid<T>,
    replies: Seq<MsgOutput<T>>,
) -> bool {
    &&& forall|m: int| 0 <= m < replies.len() ==> correct_reply(a, b, #[trigger] replies[m])
    &&& forall|p: int| 0 <= p < a.rows * b.cols ==> #[trigger] names(replies, p)
}

/// Whether `c` is the matrix product of `a` and `b`: cell `(i, j)` stands
/// for the sum over `k` of `a(i, k) * b(k, j)`.
pub open spec fn is_product<T: Scalar>(a: Grid<T>, b: Grid<T>, c: Grid<T>) -> bool {
    &&& c.rows == a.rows
    &&& c.cols == b.cols
    &&& c.wf()
    &&& forall|i: int, j: int|
        0 <= i < a.rows && 0 <= j < b.cols ==> (#[trigger] c.at(i, j)).value() == dot(
            a.row(i),
            b.col(j),
        )
}

/// The answer to the task that was handed out for cell `k` is a right
/// reply for the product.
pub proof fn lemma_routed_answer_is_correct<T: Scalar>(
    a: Grid<T>,
    b: Grid<T>,
    workers: nat,
    k: int,
    entry: (int, MsgInput<T>),
    reply: MsgOutput<T>,
)
    requires
        0 <= k < a.rows * b.cols,
        routed_cell(a, b, workers, k, entry),
        entry.1.answered_by(reply),
    ensures
        correct_reply(a, b, reply),
{
}

/// Whether one of the replies answers `task`.
pub open spec fn answered<T: Scalar>(task: MsgInput<T>, replies: Seq<MsgOutput<T>>) -> bool {
    exists|m: int| 0 <= m < replies.len() && task.answered_by(#[trigger] replies[m])
}

/// Whether `reply` answers one of the tasks.
pub open spec fn answers_one<T: Scalar>(tasks: Seq<(int, MsgInput<T>)>, reply: MsgOutput<T>) -> bool {
    exists|k: int| 0 <= k < tasks.len() && (#[trigger] tasks[k]).1.answered_by(reply)
}

/// Whether the replies are the workers' answers to the tasks: each task is
/// answered by a reply, and each reply answers a task.
pub open spec fn answers_to<T: Scalar>(
    tasks: Seq<(int, MsgInput<T>)>,
    replies: Seq<MsgOutput<T>>,
) -> bool {
    &&& forall|k: int| 0 <= k < tasks.len() ==> answered((#[trigger] tasks[k]).1, replies)
    &&& forall|m: int| 0 <= m < replies.len() ==> answers_one(tasks, #[trigger] replies[m])
}

/// The pool computes the matrix product: where the replies are the answers
/// to the tasks of all cells, in whatever order they come and whichever
/// worker gave them, the cells assembled from them are the product of `a`
/// and `b`.
pub proof fn lemma_answers_assemble_to_product<T: Scalar>(
    a: Grid<T>,
    b: Grid<T>,
    cells: Seq<T>,
    replies: Seq<MsgOutput<T>>,
)
    requires
        a.wf(),
        b.wf(),
        a.cols == b.rows,
        cells.len() == a.rows * b.cols,
        answers_every_cell(a, b, replies),
    ensures
        is_product(a, b, Grid { rows: a.rows, cols: b.cols, cells: placed(cells, replies) }),
{
    let c = Grid { rows: a.rows, cols: b.cols, cells: placed(cells, replies) };
    lemma_placed_len(cells, replies);
    assert forall|i: int, j: int| 0 <= i < a.rows && 0 <= j < b.cols implies (#[trigger] c.at(
        i,
        j,
    )).value() == dot(a.row(i), b.col(j)) by {
        let p = i * b.cols + j;
        lemma_cell_in_bounds(a.rows, b.cols, i, j);
        assert(names(replies, p));
        lemma_placed_cell(cells, replies, p);
        let m = choose|m: int| #[trigger] written(cells, replies, p, m);
        assert(correct_reply(a, b, replies[m]));
        lemma_fundamental_div_mod_converse(p, b.cols as int, i, j);
    }
}

/// Multiplying through a pool gives the matrix product, whatever the
/// number of workers and whatever the order of their replies: where the
/// replies are the answers to the tasks that `multiply` handed out for `a`
/// and `b`, the cells assembled from them are the product of `a` and `b`.
pub proof fn lemma_pool_computes_product<T: Scalar>(
    a: Grid<T>,
    b: Grid<T>,
    workers: nat,
    before: Seq<(int, MsgInput<T>)>,
    after: Seq<(int, MsgInput<T>)>,
    cells: Seq<T>,
    replies: Seq<MsgOutput<T>>,
)
    requires
        a.wf(),
        b.wf(),
        a.cols == b.rows,
        workers > 0,
        handed_out(a, b, workers, before, after, a.rows * b.cols),
        cells.len() == a.rows * b.cols,
        answers_to(after.skip(before.len() as int), replies),
    ensures
        is_product(a, b, Grid { rows: a.rows, cols: b.cols, cells: placed(cells, replies) }),
{
    let tasks = after.skip(before.len() as int);
    assert forall|m: int| 0 <= m < replies.len() implies correct_reply(
        a,
        b,
        #[trigger] replies[m],
    ) by {
        assert(answers_one(tasks, replies[m]));
        let k = choose|k: int| 0 <= k < tasks.len() && (#[trigger] tasks[k]).1.answered_by(replies[m]);
        assert(tasks[k] == after[before.len() + k]);
        lemma_routed_answer_is_correct(a, b, workers, k, tasks[k], replies[m]);
    }
    assert forall|p: int| 0 <= p < a.rows * b.cols implies #[trigger] names(replies, p) by {
        assert(tasks[p] == after[before.len() + p]);
        assert(answered(tasks[p].1, replies));
        let m = choose|m: int| 0 <= m < replies.len() && tasks[p].1.answered_by(#[trigger] replies[m]);
        assert(replies[m].idx == p);
    }
    lemma_answers_assemble_to_product(a, b, cells, replies);
}

} // verus!
