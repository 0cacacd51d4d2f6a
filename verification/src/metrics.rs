use std::sync::atomic::{AtomicI64, Ordering};
use std::sync::Arc;
use vstd::prelude::*;
use vstd::string::*;
use vstd::utf8::encode_utf8_decode_utf8;
use crate::text::{append_decimal, decimal};

verus! {

/// Why a counter could not be changed.
#[derive(Debug, Clone, Copy, PartialEq, Eq, Structural)]
pub enum MetricsError {
    /// The key is none of the names that the counters were made for.
    UnknownKey,
}

/// The names in the order in which each occurs first.
pub open spec fn first_occurrences(names: Seq<Seq<char>>) -> Seq<Seq<char>>
    decreases names.len(),
{
    if names.len() == 0 {
        Seq::empty()
    } else {
        let front = first_occurrences(names.drop_last());
        if front.contains(names.last()) {
            front
        } else {
            front.push(names.last())
        }
    }
}

/// Each name is among its first occurrences exactly once.
pub proof fn lemma_first_occurrences(names: Seq<Seq<char>>)
    ensures
        first_occurrences(names).no_duplicates(),
        forall|x: Seq<char>| first_occurrences(names).contains(x) <==> names.contains(x),
    decreases names.len(),
{
    if names.len() > 0 {
        let rest = names.drop_last();
        let last = names.last();
        let front = first_occurrences(rest);
        let all = first_occurrences(names);
        lemma_first_occurrences(rest);
        assert forall|x: Seq<char>| names.contains(x) <==> (rest.contains(x) || x == last) by {
            if names.contains(x) {
                let i = choose|i: int| 0 <= i < names.len() && names[i] == x;
                if i < rest.len() {
                    assert(rest[i] == x);
                }
            }
            if rest.contains(x) {
                let i = choose|i: int| 0 <= i < rest.len() && rest[i] == x;
                assert(names[i] == x);
            }
            if x == last {
                assert(names[names.len() - 1] == x);
            }
        }
        if !front.contains(last) {
            assert forall|x: Seq<char>| all.contains(x) <==> (front.contains(x) || x == last) by {
                if all.contains(x) {
                    let i = choose|i: int| 0 <= i < all.len() && all[i] == x;
                    if i < front.len() {
                        assert(front[i] == x);
                    }
                }
                if front.contains(x) {
                    let i = choose|i: int| 0 <= i < front.len() && front[i] == x;
                    assert(all[i] == x);
                }
                if x == last {
                    assert(all[all.len() - 1] == x);
                }
            }
            assert forall|i: int, j: int| 0 <= i < all.len() && 0 <= j < all.len() && i != j implies all[i]
                != all[j] by {
                if i < front.len() && j < front.len() {
                    assert(front[i] != front[j]);
                } else if i < front.len() {
                    assert(front.contains(front[i]));
                } else {
                    assert(front.contains(front[j]));
                }
            }
        }
    }
}

/// The views of the given names.
pub open spec fn texts(names: Seq<&'static str>) -> Seq<Seq<char>> {
    Seq::new(names.len(), |i: int| names[i]@)
}

/// One line for each of the first `n` names: the name, a colon, a space,
/// the value in decimal and a line feed.
pub open spec fn lines(names: Seq<Seq<char>>, values: Seq<i64>, n: nat) -> Seq<char>
    decreases n,
{
    if n == 0 {
        Seq::empty()
    } else {
        lines(names, values, (n - 1) as nat) + names[n - 1] + seq![':', ' '] + decimal(
            values[n - 1] as int,
        ) + seq!['\n']
    }
}

/// Whether two strings hold the same text.
pub fn same_text(a: &str, b: &str) -> (same: bool)
    ensures
        same == (a@ == b@),
{
    let x = a.as_bytes();
    let y = b.as_bytes();
    proof {
        encode_utf8_decode_utf8(a@);
        encode_utf8_decode_utf8(b@);
    }
    assert(a@ == b@ ==> x@ == y@);
    if x.len() != y.len() {
        return false;
    }
    let n = x.len();
    let mut i: usize = 0;
    while i < n
        invariant
            i <= n,
            n == x@.len(),
            n == y@.len(),
            a@ == b@ ==> x@ == y@,
            x@.take(i as int) == y@.take(i as int),
        decreases n - i,
    {
        if x[i] != y[i] {
            assert(x@[i as int] != y@[i as int]);
            return false;
        }
        i = i + 1;
        assert(x@.take(i as int) =~= x@.take(i - 1).push(x@[i - 1]));
        assert(y@.take(i as int) =~= y@.take(i - 1).push(y@[i - 1]));
    }
    assert(x@ =~= x@.take(n as int));
    assert(y@ =~= y@.take(n as int));
    true
}

fn bump(counter: &AtomicI64) {
    let _before = counter.fetch_add(1, Ordering::Relaxed);
}

fn current(counter: &AtomicI64) -> i64 {
    counter.load(Ordering::Relaxed)
}

/// A fixed set of named counters that many threads can share: a clone
/// counts on the same counters.
#[derive(Debug, Clone)]
pub struct AmapMetrics {
    data: Arc<Vec<(&'static str, AtomicI64)>>,
}

/// The names of the given counters.
pub open spec fn names_of(data: Seq<(&'static str, AtomicI64)>) -> Seq<Seq<char>> {
    Seq::new(data.len(), |i: int| data[i].0@)
}

impl AmapMetrics {
    /// The names of the counters, in the order in which they are shown.
    pub closed spec fn names(self) -> Seq<Seq<char>> {
        names_of(self.data@)
    }

    /// Counters for the given names, each at zero. A name that is given
    /// more than once has one counter.
    pub fn new(metrics_names: &[&'static str]) -> (m: Self)
        ensures
            m.names() == first_occurrences(texts(metrics_names@)),
            m.names().no_duplicates(),
            forall|key: Seq<char>|
                m.names().contains(key) <==> texts(metrics_names@).contains(key),
    {
        proof {
            lemma_first_occurrences(texts(metrics_names@));
        }
        let mut data: Vec<(&'static str, AtomicI64)> = Vec::new();
        let n = metrics_names.len();
        let mut i: usize = 0;
        while i < n
            invariant
                i <= n,
                n == metrics_names@.len(),
                names_of(data@) == first_occurrences(texts(metrics_names@).take(i as int)),
            decreases n - i,
        {
            let name = metrics_names[i];
            let ghost before = names_of(data@);
            let known = Self::position(&data, name).is_some();
            if !known {
                data.push((name, AtomicI64::new(0)));
                assert(names_of(data@) =~= before.push(name@));
            }
            proof {
                let given = texts(metrics_names@);
                assert(given.take(i + 1).drop_last() =~= given.take(i as int));
                assert(given.take(i + 1).last() == name@);
            }
            i = i + 1;
        }
        assert(texts(metrics_names@).take(n as int) =~= texts(metrics_names@));
        AmapMetrics { data: Arc::new(data) }
    }

    fn position(data: &Vec<(&'static str, AtomicI64)>, key: &str) -> (at: Option<usize>)
        ensures
            at is Some ==> at->Some_0 < data@.len() && names_of(data@)[at->Some_0 as int] == key@,
            at is Some ==> names_of(data@).contains(key@),
            at is None ==> !names_of(data@).contains(key@),
    {
        let n = data.len();
        let mut i: usize = 0;
        while i < n
            invariant
                i <= n,
                n == data@.len(),
                forall|k: int| 0 <= k < i ==> #[trigger] names_of(data@)[k] != key@,
            decreases n - i,
        {
            if same_text(data[i].0, key) {
                assert(names_of(data@)[i as int] == key@);
                return Some(i);
            }
            i = i + 1;
        }
        None
    }

    /// Adds one to the counter of the name `key`. A key that is none of the
    /// names is refused.
    pub fn inc(&self, key: &str) -> (r: Result<(), MetricsError>)
        ensures
            self.names().contains(key@) ==> r is Ok,
            !self.names().contains(key@) ==> r == Err::<(), MetricsError>(MetricsError::UnknownKey),
    {
        match Self::position(&self.data, key) {
            Some(at) => {
                bump(&self.data[at].1);
                Ok(())
            },
            None => Err(MetricsError::UnknownKey),
        }
    }

    /// The counters as text, one line for each name.
    pub fn to_string(&self) -> (s: String)
        ensures
            exists|values: Seq<i64>|
                values.len() == self.names().len() && s@ == #[trigger] lines(
                    self.names(),
                    values,
                    self.names().len(),
                ),
    {
        proof {
            reveal_strlit(": ");
            reveal_strlit("\n");
        }
        let n = self.data.len();
        let mut out = String::new();
        let ghost mut values: Seq<i64> = Seq::empty();
        let mut i: usize = 0;
        while i < n
            invariant
                i <= n,
                n == self.data@.len(),
                ": "@ == seq![':', ' '],
                "\n"@ == seq!['\n'],
                values.len() == i,
                out@ == lines(names_of(self.data@), values, i as nat),
            decreases n - i,
        {
            let value = current(&self.data[i].1);
            let ghost earlier = values;
            proof {
                values = values.push(value);
                lemma_lines_ignore_later(names_of(self.data@), earlier, values, i as nat);
            }
            out.append(self.data[i].0);
            out.append(": ");
            append_decimal(&mut out, value as i128);
            out.append("\n");
            i = i + 1;
            assert(out@ =~= lines(names_of(self.data@), values, i as nat));
        }
        assert(values.len() == self.names().len());
        assert(out@ == lines(self.names(), values, self.names().len()));
        out
    }
}

/// The first `n` lines depend on the first `n` values only.
pub proof fn lemma_lines_ignore_later(
    names: Seq<Seq<char>>,
    one: Seq<i64>,
    other: Seq<i64>,
    n: nat,
)
    requires
        n <= one.len(),
        n <= other.len(),
        forall|k: int| 0 <= k < n ==> one[k] == other[k],
    ensures
        lines(names, one, n) == lines(names, other, n),
    decreases n,
{
    if n > 0 {
        lemma_lines_ignore_later(names, one, other, (n - 1) as nat);
    }
}

} // verus!
