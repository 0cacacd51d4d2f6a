use concurrency::{
    assemble, cell_task, map_phase, multiply, received, reduce_phase, serve, Matrix, MatrixError,
    Msg, MsgOutput, WorkerPool,
};
use std::sync::mpsc::{channel, Receiver};

fn pool_of(workers: usize) -> (WorkerPool<i32>, Vec<Receiver<Msg<i32>>>) {
    let mut senders = Vec::new();
    let mut queues = Vec::new();
    for _ in 0..workers {
        let (tx, rx) = channel();
        senders.push(tx);
        queues.push(rx);
    }
    (WorkerPool::new(senders), queues)
}

fn product_with(a: &Matrix<i32>, b: &Matrix<i32>, workers: usize) -> Result<Matrix<i32>, MatrixError> {
    let (mut pool, queues) = pool_of(workers);
    let pending = map_phase(a, b, &mut pool);
    drop(pool);
    for queue in queues {
        for msg in queue {
            assert_eq!(serve(msg), Ok(true));
        }
    }
    reduce_phase(pending)
}

#[test]
fn test_matrix_multiply() {
    let a = Matrix::new(2, 3, vec![1, 2, 3, 4, 5, 6]);
    let b = Matrix::new(3, 2, vec![1, 2, 3, 4, 5, 6]);
    let result = product_with(&a, &b, 4).unwrap();
    assert_eq!(result.rows(), 2);
    assert_eq!(result.cols(), 2);
    assert_eq!(result.data(), vec![22, 28, 49, 64]);
}

#[test]
fn test_matrix_display() {
    let a = Matrix::new(2, 2, vec![1, 2, 3, 4]);
    let b = Matrix::new(2, 2, vec![1, 2, 3, 4]);
    let result = product_with(&a, &b, 4).unwrap();
    assert_eq!(result.rows(), 2);
    assert_eq!(result.cols(), 2);
    assert_eq!(result.data(), vec![7, 10, 15, 22]);
    assert_eq!(result.to_string(), "{{7 10}, {15 22}}");
}

#[test]
fn test_a_can_not_multiply_b() {
    let a = Matrix::new(2, 3, vec![1, 2, 3, 4, 5, 6]);
    let b = Matrix::new(2, 2, vec![1, 2, 3, 4]);
    let (mut pool, queues) = pool_of(4);
    let c = multiply(&a, &b, &mut pool);
    assert!(c.is_err());
    assert_eq!(c.err(), Some(MatrixError::IncompatibleDimensions));
    drop(pool);
    for queue in queues {
        assert!(queue.try_recv().is_err());
    }
}

#[test]
fn product_is_the_same_for_every_pool_size() {
    let a = Matrix::new(2, 3, vec![1, -2, 3, 4, 5, -6]);
    let b = Matrix::new(3, 4, vec![1, 2, 3, 4, 5, 6, 7, 8, 9, 10, 11, 12]);
    for workers in 1..8 {
        let c = product_with(&a, &b, workers).unwrap();
        assert_eq!(c.rows(), 2);
        assert_eq!(c.cols(), 4);
        assert_eq!(c.data(), vec![18, 20, 22, 24, -25, -22, -19, -16]);
    }
}

#[test]
fn tasks_go_round_the_workers_by_cell_index() {
    let a = Matrix::new(2, 3, vec![1, 2, 3, 4, 5, 6]);
    let b = Matrix::new(3, 3, vec![1, 0, 0, 0, 1, 0, 0, 0, 1]);
    let (mut pool, queues) = pool_of(4);
    assert_eq!(pool.len(), 4);
    assert_eq!(pool.route(5), Some(1));
    assert_eq!(pool.route(8), Some(0));
    let pending = map_phase(&a, &b, &mut pool);
    drop(pool);
    let mut seen = Vec::new();
    for (worker, queue) in queues.into_iter().enumerate() {
        for msg in queue {
            assert_eq!(msg.task().idx % 4, worker);
            seen.push(msg.task().idx);
            assert_eq!(serve(msg), Ok(true));
        }
    }
    assert_eq!(seen, vec![0, 4, 1, 5, 2, 3]);
    let c = reduce_phase(pending).unwrap();
    assert_eq!(c.data(), vec![1, 2, 3, 4, 5, 6]);
}

#[test]
fn cell_task_holds_row_and_column() {
    let a = Matrix::new(2, 3, vec![1, 2, 3, 4, 5, 6]);
    let b = Matrix::new(3, 2, vec![7, 8, 9, 10, 11, 12]);
    let task = cell_task(&a, &b, 1, 0);
    assert_eq!(task.idx, 2);
    assert_eq!(task.row.as_slice(), vec![4, 5, 6]);
    assert_eq!(task.col.as_slice(), vec![7, 9, 11]);
    let reply = task.evaluate().ok().unwrap();
    assert_eq!(reply.idx, 2);
    assert_eq!(reply.value, 4 * 7 + 5 * 9 + 6 * 11);
}

#[test]
fn rows_and_columns_are_extracted() {
    let m = Matrix::new(2, 3, vec![1, 2, 3, 4, 5, 6]);
    assert_eq!(m.row(0).as_slice(), vec![1, 2, 3]);
    assert_eq!(m.row(1).as_slice(), vec![4, 5, 6]);
    assert_eq!(m.col(0).as_slice(), vec![1, 4]);
    assert_eq!(m.col(1).as_slice(), vec![2, 5]);
    assert_eq!(m.col(2).as_slice(), vec![3, 6]);
    assert_eq!(m.col(2).len(), 2);
}

#[test]
fn empty_pool_leaves_every_reply_channel_closed() {
    let a = Matrix::new(1, 1, vec![3]);
    let b = Matrix::new(1, 1, vec![4]);
    let mut pool = WorkerPool::new(Vec::new());
    assert_eq!(pool.route(0), None);
    let c = multiply(&a, &b, &mut pool);
    assert_eq!(c.err(), Some(MatrixError::ChannelDisconnected));
}

#[test]
fn closed_task_queues_end_in_channel_disconnected() {
    let a = Matrix::new(2, 2, vec![1, 2, 3, 4]);
    let b = Matrix::new(2, 2, vec![1, 2, 3, 4]);
    let (mut pool, queues) = pool_of(4);
    drop(queues);
    let c = multiply(&a, &b, &mut pool);
    assert_eq!(c.err(), Some(MatrixError::ChannelDisconnected));
}

#[test]
fn unanswered_task_ends_in_channel_disconnected() {
    let a = Matrix::new(1, 2, vec![1, 2]);
    let b = Matrix::new(2, 2, vec![1, 2, 3, 4]);
    let (mut pool, queues) = pool_of(2);
    let pending = map_phase(&a, &b, &mut pool);
    drop(pool);
    let mut first = true;
    for queue in queues {
        for msg in queue {
            if first {
                assert_eq!(serve(msg), Ok(true));
                first = false;
            } else {
                drop(msg);
            }
        }
    }
    assert_eq!(reduce_phase(pending).err(), Some(MatrixError::ChannelDisconnected));
}

#[test]
fn product_without_cells_needs_no_worker() {
    let a: Matrix<i32> = Matrix::new(0, 3, Vec::new());
    let b = Matrix::new(3, 2, vec![1, 2, 3, 4, 5, 6]);
    let mut pool = WorkerPool::new(Vec::new());
    let c = multiply(&a, &b, &mut pool).unwrap();
    assert_eq!(c.rows(), 0);
    assert_eq!(c.cols(), 2);
    assert!(c.data().is_empty());
    assert_eq!(c.to_string(), "{}");
}

#[test]
fn product_over_an_empty_inner_dimension_is_zero() {
    let a: Matrix<i32> = Matrix::new(2, 0, Vec::new());
    let b: Matrix<i32> = Matrix::new(0, 2, Vec::new());
    let c = product_with(&a, &b, 3).unwrap();
    assert_eq!(c.data(), vec![0, 0, 0, 0]);
}

#[test]
fn assemble_places_each_value_at_its_index() {
    let replies = vec![
        MsgOutput { idx: 3, value: 64 },
        MsgOutput { idx: 0, value: 22 },
        MsgOutput { idx: 2, value: 49 },
        MsgOutput { idx: 1, value: 28 },
    ];
    let m = assemble(2, 2, replies).unwrap();
    assert_eq!(m.rows(), 2);
    assert_eq!(m.cols(), 2);
    assert_eq!(m.data(), vec![22, 28, 49, 64]);
}

#[test]
fn assemble_does_not_depend_on_the_order_of_replies() {
    let orders: Vec<Vec<usize>> = vec![
        vec![0, 1, 2, 3],
        vec![3, 2, 1, 0],
        vec![1, 3, 0, 2],
        vec![2, 0, 3, 1],
    ];
    let values = vec![22, 28, 49, 64];
    for order in orders {
        let replies: Vec<MsgOutput<i32>> =
            order.iter().map(|&idx| MsgOutput { idx, value: values[idx] }).collect();
        let m = assemble(2, 2, replies).unwrap();
        assert_eq!(m.data(), vec![22, 28, 49, 64]);
    }
}

#[test]
fn assemble_leaves_unanswered_cells_at_zero_and_keeps_the_last_value() {
    let replies = vec![
        MsgOutput { idx: 1, value: 5 },
        MsgOutput { idx: 1, value: 9 },
    ];
    let m = assemble(1, 3, replies).unwrap();
    assert_eq!(m.data(), vec![0, 9, 0]);
}

#[test]
fn assemble_refuses_a_reply_outside_the_matrix() {
    let replies = vec![MsgOutput { idx: 0, value: 1 }, MsgOutput { idx: 4, value: 2 }];
    let r = assemble(2, 2, replies);
    assert_eq!(r.err(), Some(MatrixError::ReplyOutOfRange));
}

#[test]
fn received_maps_a_closed_channel_to_channel_disconnected() {
    let lost: Result<MsgOutput<i32>, oneshot::RecvError> = Err(oneshot::RecvError);
    assert_eq!(received(lost).err(), Some(MatrixError::ChannelDisconnected));
    let (tx, rx) = oneshot::channel::<MsgOutput<i32>>();
    drop(tx);
    assert_eq!(received(rx.recv()).err(), Some(MatrixError::ChannelDisconnected));
    let got = received(Ok(MsgOutput { idx: 7, value: 11 })).ok().unwrap();
    assert_eq!(got.idx, 7);
    assert_eq!(got.value, 11);
}

#[test]
fn matrix_renders_in_nested_braces() {
    let wide = Matrix::new(2, 3, vec![1, 2, 3, 4, 5, 6]);
    assert_eq!(wide.to_string(), "{{1 2 3}, {4 5 6}}");
    let tall = Matrix::new(3, 2, vec![1, 2, 3, 4, 5, 6]);
    assert_eq!(tall.to_string(), "{{1 2}, {3 4}, {5 6}}");
}

#[test]
fn matrix_renders_edge_shapes_and_signs() {
    let single = Matrix::new(1, 1, vec![-7i64]);
    assert_eq!(single.to_string(), "{{-7}}");
    let no_columns: Matrix<u8> = Matrix::new(2, 0, Vec::new());
    assert_eq!(no_columns.to_string(), "{{}, {}}");
    let mixed = Matrix::new(2, 2, vec![0, -10, 205, i32::MIN]);
    assert_eq!(mixed.to_string(), "{{0 -10}, {205 -2147483648}}");
}

#[test]
fn matrix_debug_text_names_the_dimensions() {
    let m = Matrix::new(2, 3, vec![1, 2, 3, 4, 5, 6]);
    assert_eq!(m.to_debug_string(), "Matrix { rows: 2, cols: 3, data: {{1 2 3}, {4 5 6}} }");
}
