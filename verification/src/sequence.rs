//! Vectors in the opposite order.

use vstd::prelude::*;

verus! {

/// The items in the opposite order.
pub(crate) fn reversed<I>(items: Vec<I>) -> (result: Vec<I>)
    ensures
        result@ == items@.reverse(),
{
    let ghost all = items@;
    let mut items = items;
    let mut result: Vec<I> = Vec::new();
    while items.len() > 0
        invariant
            items@.len() + result@.len() == all.len(),
            items@ == all.take(items@.len() as int),
            forall|i: int| 0 <= i < result@.len() ==> #[trigger] result@[i] == all[all.len() - 1 - i],
        decreases items@.len(),
    {
        if let Some(item) = items.pop() {
            result.push(item);
        }
    }
    assert(result@ =~= all.reverse());
    result
}

} // verus!
