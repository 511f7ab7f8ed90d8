//! Turning the parse results of a chunk's rows into the chunk's records: a
//! chunk is kept only when every row parses, and the first row that does not
//! parse gives the chunk's error.
use vstd::prelude::*;

verus! {

/// Whether every result is a success.
pub open spec fn all_ok<T, E>(results: Seq<Result<T, E>>) -> bool {
    forall|i: int| 0 <= i < results.len() ==> #[trigger] results[i] is Ok
}

/// The values of all results when they all succeed, in order; otherwise the
/// error of the first result that fails.
pub fn all_or_first_error<T, E>(results: Vec<Result<T, E>>) -> (r: Result<Vec<T>, E>)
    ensures
        r is Ok <==> all_ok(results@),
        r matches Ok(values) ==> values@.len() == results@.len() && forall|i: int|
            0 <= i < values@.len() ==> #[trigger] results@[i] == Ok::<T, E>(values@[i]),
        r matches Err(e) ==> exists|i: int|
            0 <= i < results@.len() && #[trigger] results@[i] == Err::<T, E>(e) && forall|j: int|
                0 <= j < i ==> #[trigger] results@[j] is Ok,
{
    let ghost all = results@;
    let n: usize = results.len();
    let mut rest = results;
    let mut stack: Vec<Result<T, E>> = Vec::new();
    while rest.len() > 0
        invariant
            rest@ == all.subrange(0, rest@.len() as int),
            stack@.len() + rest@.len() == n,
            n == all.len(),
            all == results@,
            forall|k: int| 0 <= k < stack@.len() ==> #[trigger] stack@[k] == all[n - 1 - k],
        decreases rest@.len(),
    {
        let item = rest.pop().unwrap();
        stack.push(item);
    }
    let mut values: Vec<T> = Vec::new();
    while stack.len() > 0
        invariant
            n == all.len(),
            all == results@,
            stack@.len() + values@.len() == n,
            forall|k: int| 0 <= k < stack@.len() ==> #[trigger] stack@[k] == all[n - 1 - k],
            forall|j: int| 0 <= j < values@.len() ==> #[trigger] all[j] == Ok::<T, E>(values@[j]),
        decreases stack@.len(),
    {
        let ghost i: int = values@.len() as int;
        let item = stack.pop().unwrap();
        assert(item == all[i]);
        match item {
            Ok(v) => {
                values.push(v);
            },
            Err(e) => {
                assert(forall|j: int| 0 <= j < i ==> #[trigger] all[j] is Ok) by {
                    assert forall|j: int| 0 <= j < i implies #[trigger] all[j] is Ok by {
                        assert(all[j] == Ok::<T, E>(values@[j]));
                    }
                }
                assert(all[i] == Err::<T, E>(e));
                assert(0 <= i < all.len());
                assert(!all_ok(all));
                return Err(e);
            },
        }
    }
    assert forall|i: int| 0 <= i < all.len() implies #[trigger] all[i] is Ok by {
        assert(all[i] == Ok::<T, E>(values@[i]));
    }
    Ok(values)
}

} // verus!
