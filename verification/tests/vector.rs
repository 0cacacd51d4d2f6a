use concurrency::text::decimal_string;
use concurrency::{dot_product, serve, MatrixError, Msg, MsgInput, Scalar, Vector};

#[test]
fn dot_product_sums_the_products() {
    let a = Vector::new(vec![1, 2, 3]);
    let b = Vector::new(vec![4, 5, 6]);
    assert_eq!(dot_product(a, b), Ok(32));
}

#[test]
fn dot_product_of_unequal_lengths_is_a_dimension_mismatch() {
    let a = Vector::new(vec![1, 2, 3]);
    let b = Vector::new(vec![1, 2]);
    assert_eq!(dot_product(a, b), Err(MatrixError::DimensionMismatch));
    let a = Vector::new(vec![1u8]);
    let b: Vector<u8> = Vector::new(Vec::new());
    assert_eq!(dot_product(a, b), Err(MatrixError::DimensionMismatch));
}

#[test]
fn dot_product_of_empty_vectors_is_zero() {
    let a: Vector<i64> = Vector::new(Vec::new());
    let b: Vector<i64> = Vector::new(Vec::new());
    assert_eq!(dot_product(a, b), Ok(0));
}

#[test]
fn dot_product_is_commutative() {
    let x = vec![3i64, -1, 4, 1, -5, 9];
    let y = vec![2i64, 7, -1, 8, 2, -8];
    let one = dot_product(Vector::new(x.clone()), Vector::new(y.clone()));
    let other = dot_product(Vector::new(y), Vector::new(x));
    assert_eq!(one, Ok(6 - 7 - 4 + 8 - 10 - 72));
    assert_eq!(one, other);
}

#[test]
fn dot_product_works_at_the_edge_of_the_element_type() {
    let a = Vector::new(vec![15u8, 1]);
    let b = Vector::new(vec![16u8, 15]);
    assert_eq!(dot_product(a, b), Ok(255));
    let a = Vector::new(vec![i32::MIN, 1]);
    let b = Vector::new(vec![1, i32::MAX]);
    assert_eq!(dot_product(a, b), Ok(-1));
}

#[test]
fn vector_keeps_its_elements() {
    let v = Vector::new(vec![5u16, 6, 7]);
    assert_eq!(v.len(), 3);
    assert_eq!(v.as_slice(), vec![5u16, 6, 7]);
}

#[test]
fn scalar_operations_follow_the_integers() {
    assert_eq!(<i32 as Scalar>::zero(), 0);
    assert_eq!(7i32.plus(-9), -2);
    assert_eq!(7i32.times(-9), -63);
    assert_eq!((-9i32).widen(), -9i128);
    assert_eq!(<u64 as Scalar>::zero(), 0);
    assert_eq!(u64::MAX.widen(), 18446744073709551615i128);
    assert_eq!(200u8.plus(55), 255);
    assert_eq!((-128i8).times(1), -128);
    assert_eq!(i64::MIN.widen(), -9223372036854775808i128);
    assert_eq!(3usize.times(4).plus(5), 17);
    assert_eq!((-3isize).times(4).plus(5), -7);
    assert_eq!(300i16.times(100).plus(-1), 29999);
    assert_eq!(65535u16.plus(0).widen(), 65535);
    assert_eq!(4000000000u32.plus(294967295), u32::MAX);
}

#[test]
fn worker_answers_on_the_reply_channel() {
    let (tx, rx) = oneshot::channel();
    let task = MsgInput::new(3, Vector::new(vec![1, 2, 3]), Vector::new(vec![4, 5, 6]));
    assert_eq!(serve(Msg::new(task, tx)), Ok(true));
    let reply = rx.recv().unwrap();
    assert_eq!(reply.idx, 3);
    assert_eq!(reply.value, 32);
}

#[test]
fn worker_goes_on_when_nobody_waits_for_the_reply() {
    let (tx, rx) = oneshot::channel();
    drop(rx);
    let task = MsgInput::new(0, Vector::new(vec![1i64]), Vector::new(vec![1i64]));
    assert_eq!(serve(Msg::new(task, tx)), Ok(false));
}

#[test]
fn worker_reports_a_task_without_answer_and_sends_nothing() {
    let (tx, rx) = oneshot::channel();
    let task = MsgInput::new(0, Vector::new(vec![1, 2, 3]), Vector::new(vec![1, 2]));
    assert_eq!(serve(Msg::new(task, tx)), Err(MatrixError::DimensionMismatch));
    assert!(rx.recv().is_err());
}

#[test]
fn evaluate_keeps_the_index() {
    let task = MsgInput::new(41, Vector::new(vec![2u32, 3]), Vector::new(vec![5u32, 7]));
    let reply = task.evaluate().ok().unwrap();
    assert_eq!(reply.idx, 41);
    assert_eq!(reply.value, 31);
    let odd = MsgInput::new(1, Vector::new(vec![2u32]), Vector::new(Vec::new()));
    assert_eq!(odd.evaluate().err(), Some(MatrixError::DimensionMismatch));
}

#[test]
fn decimal_text_of_integers() {
    assert_eq!(decimal_string(0), "0");
    assert_eq!(decimal_string(7), "7");
    assert_eq!(decimal_string(10), "10");
    assert_eq!(decimal_string(-1), "-1");
    assert_eq!(decimal_string(1234567890), "1234567890");
    assert_eq!(decimal_string(i128::MAX), "170141183460469231731687303715884105727");
    assert_eq!(decimal_string(i128::MIN), "-170141183460469231731687303715884105728");
}

#[test]
fn dot_product_fits_tells_when_the_element_type_is_too_small() {
    let a = Vector::new(vec![16u8, 1]);
    let b = Vector::new(vec![16u8, 1]);
    assert!(!concurrency::dot_product_fits(&a, &b));
    let a = Vector::new(vec![15u8, 15]);
    let b = Vector::new(vec![16u8, 1]);
    assert!(concurrency::dot_product_fits(&a, &b));
    let a = Vector::new(vec![15u8, 15]);
    let b = Vector::new(vec![16u8, 2]);
    assert!(!concurrency::dot_product_fits(&a, &b));
    let a = Vector::new(vec![100i8, -100]);
    let b = Vector::new(vec![1i8, 1]);
    assert!(concurrency::dot_product_fits(&a, &b));
    let a = Vector::new(vec![100i8, 100]);
    let b = Vector::new(vec![1i8, 1]);
    assert!(!concurrency::dot_product_fits(&a, &b));
    let a = Vector::new(vec![1, 2, 3]);
    let b = Vector::new(vec![1, 2]);
    assert!(concurrency::dot_product_fits(&a, &b));
    let task = MsgInput::new(0, Vector::new(vec![i64::MAX]), Vector::new(vec![2i64]));
    assert!(!task.fits());
    let task = MsgInput::new(0, Vector::new(vec![i64::MAX]), Vector::new(vec![1i64]));
    assert!(task.fits());
}

#[test]
fn checked_scalar_operations_refuse_what_does_not_fit() {
    assert_eq!(200u8.checked_plus(55), Some(255));
    assert_eq!(200u8.checked_plus(56), None);
    assert_eq!(16u8.checked_times(16), None);
    assert_eq!(i32::MIN.checked_times(-1), None);
    assert_eq!(i32::MIN.checked_plus(-1), None);
    assert_eq!((-4i32).checked_times(5), Some(-20));
    assert_eq!(i64::MAX.checked_plus(0), Some(i64::MAX));
}
