//! Lists of things to do, in order.

use vstd::prelude::*;

verus! {

/// The contents of the items of a list.
pub open spec fn contents<A: View>(list: Seq<A>) -> Seq<A::V> {
    Seq::new(list.len(), |i: int| list[i]@)
}

/// An item added to a list is added to its contents.
pub broadcast proof fn lemma_contents_push<A: View>(list: Seq<A>, item: A)
    ensures
        #[trigger] contents(list.push(item)) == contents(list).push(item@),
{
    assert(contents(list.push(item)) =~= contents(list).push(item@));
}

/// Lists that are put together have their contents put together.
pub broadcast proof fn lemma_contents_add<A: View>(a: Seq<A>, b: Seq<A>)
    ensures
        #[trigger] contents(a + b) == contents(a) + contents(b),
{
    assert(contents(a + b) =~= contents(a) + contents(b));
}

}
