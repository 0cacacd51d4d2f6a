use vstd::prelude::*;
use crate::error::MatrixError;
use crate::scalar::Scalar;

verus! {

/// An owned sequence of elements.
pub struct Vector<T> {
    data: Vec<T>,
}

impl<T> View for Vector<T> {
    type V = Seq<T>;

    closed spec fn view(&self) -> Seq<T> {
        self.data@
    }
}

impl<T> Vector<T> {
    /// Wraps `data`, keeping its elements and their order.
    pub fn new(data: Vec<T>) -> (r: Self)
        ensures
            r@ == data@,
    {
        Vector { data }
    }

    /// The number of elements.
    pub fn len(&self) -> (n: usize)
        ensures
            n == self@.len(),
    {
        self.data.len()
    }

    /// The elements, in order.
    pub fn as_slice(&self) -> (s: &[T])
        ensures
            s@ == self@,
    {
        self.data.as_slice()
    }
}

/// The product `a[k] * b[k]`, taken in the integers.
pub open spec fn term<T: Scalar>(a: Seq<T>, b: Seq<T>, k: int) -> int {
    a[k].value() * b[k].value()
}

/// The sum of the products `a[k] * b[k]` over the first `n` positions, taken
/// in the integers.
pub open spec fn dot_prefix<T: Scalar>(a: Seq<T>, b: Seq<T>, n: nat) -> int
    decreases n,
{
    if n == 0 {
        0
    } else {
        dot_prefix(a, b, (n - 1) as nat) + term(a, b, n - 1)
    }
}

/// The dot product of two sequences of equal length, taken in the integers.
pub open spec fn dot<T: Scalar>(a: Seq<T>, b: Seq<T>) -> int {
    dot_prefix(a, b, a.len())
}

/// Whether the element type can hold the product at position `k` and the
/// sum of the products up to and including it.
pub open spec fn step_fits<T: Scalar>(a: Seq<T>, b: Seq<T>, k: int) -> bool {
    T::fits(term(a, b, k)) && T::fits(dot_prefix(a, b, (k + 1) as nat))
}

/// Whether the element type can hold every product and every partial sum
/// that arises when the dot product of `a` and `b` is accumulated from the
/// first position to the last.
pub open spec fn dot_fits<T: Scalar>(a: Seq<T>, b: Seq<T>) -> bool {
    forall|k: int| 0 <= k < a.len() ==> #[trigger] step_fits(a, b, k)
}

/// Whether `dot_product` can be asked of `a` and `b`: their lengths differ,
/// or the element type can hold every product and every partial sum on the
/// way to their dot product.
pub fn dot_product_fits<T: Scalar>(a: &Vector<T>, b: &Vector<T>) -> (ok: bool)
    ensures
        ok == (a@.len() == b@.len() ==> dot_fits(a@, b@)),
{
    if a.len() != b.len() {
        return true;
    }
    let n = a.len();
    let mut sum = T::zero();
    let mut k: usize = 0;
    while k < n
        invariant
            k <= n,
            n == a@.len(),
            n == b@.len(),
            sum.value() == dot_prefix(a@, b@, k as nat),
            forall|m: int| 0 <= m < k ==> #[trigger] step_fits(a@, b@, m),
        decreases n - k,
    {
        let next = match a.data[k].checked_times(b.data[k]) {
            Some(product) => sum.checked_plus(product),
            None => None,
        };
        match next {
            Some(s) => {
                sum = s;
            },
            None => {
                assert(!step_fits(a@, b@, k as int));
                return false;
            },
        }
        assert(step_fits(a@, b@, k as int));
        k = k + 1;
    }
    true
}

/// The dot product of `a` and `b`: the sum over all positions of
/// `a[k] * b[k]`, accumulated from the additive identity. Vectors of
/// different lengths have none.
pub fn dot_product<T: Scalar>(a: Vector<T>, b: Vector<T>) -> (r: Result<T, MatrixError>)
    requires
        a@.len() == b@.len() ==> dot_fits(a@, b@),
    ensures
        a@.len() != b@.len() ==> r == Err::<T, MatrixError>(MatrixError::DimensionMismatch),
        a@.len() == b@.len() ==> r is Ok && r->Ok_0.value() == dot(a@, b@),
{
    if a.len() != b.len() {
        return Err(MatrixError::DimensionMismatch);
    }
    let n = a.len();
    let mut result = T::zero();
    let mut k: usize = 0;
    while k < n
        invariant
            k <= n,
            n == a@.len(),
            n == b@.len(),
            dot_fits(a@, b@),
            result.value() == dot_prefix(a@, b@, k as nat),
        decreases n - k,
    {
        let x = a.data[k];
        let y = b.data[k];
        assert(step_fits(a@, b@, k as int));
        result = result.plus(x.times(y));
        k = k + 1;
    }
    Ok(result)
}

} // verus!
