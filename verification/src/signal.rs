//! The signals an observer can receive: zero or more `Next` items followed by
//! at most one terminal (`Error` or `Complete`).

use vstd::prelude::*;

verus! {

/// One notification travelling from a producer to an observer.
#[derive(Clone, Copy, Debug, PartialEq, Eq)]
pub enum Signal<Item, E> {
    /// One item of the sequence.
    Next(Item),
    /// Terminal failure; nothing may follow it.
    Error(E),
    /// Terminal success; nothing may follow it.
    Complete,
}

/// The value sequence `vals`, each wrapped as a `Next` signal.
pub open spec fn as_next<Item, E>(vals: Seq<Item>) -> Seq<Signal<Item, E>> {
    vals.map_values(|v: Item| Signal::<Item, E>::Next(v))
}

/// Wrapping commutes with appending one value.
pub proof fn lemma_as_next_push<Item, E>(vals: Seq<Item>, v: Item)
    ensures
        as_next::<Item, E>(vals.push(v)) == as_next::<Item, E>(vals).push(
            Signal::<Item, E>::Next(v),
        ),
{
    assert(as_next::<Item, E>(vals.push(v)) =~= as_next::<Item, E>(vals).push(
        Signal::<Item, E>::Next(v),
    ));
}

/// Wrapping distributes over concatenation.
pub proof fn lemma_as_next_concat<Item, E>(a: Seq<Item>, b: Seq<Item>)
    ensures
        as_next::<Item, E>(a + b) == as_next::<Item, E>(a) + as_next::<Item, E>(b),
{
    assert(as_next::<Item, E>(a + b) =~= as_next::<Item, E>(a) + as_next::<Item, E>(b));
}

/// Wrapping values as `Next` signals is injective.
pub proof fn lemma_as_next_injective<Item, E>(a: Seq<Item>, b: Seq<Item>)
    requires
        as_next::<Item, E>(a) == as_next::<Item, E>(b),
    ensures
        a == b,
{
    assert(as_next::<Item, E>(a).len() == a.len());
    assert(as_next::<Item, E>(b).len() == b.len());
    assert(a.len() == b.len());
    assert forall|i: int| 0 <= i < a.len() implies a[i] == b[i] by {
        assert(as_next::<Item, E>(a)[i] == Signal::<Item, E>::Next(a[i]));
        assert(as_next::<Item, E>(b)[i] == Signal::<Item, E>::Next(b[i]));
    }
    assert(a =~= b);
}

} // verus!
