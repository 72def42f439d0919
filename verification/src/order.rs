//! The order of byte strings and of what is built from them.

use core::cmp::Ordering;
use vstd::prelude::*;

verus! {

/// How one value stands to another in an order.
#[derive(Clone, Copy, Debug, PartialEq, Eq, Structural)]
pub enum Order {
    /// The value comes first.
    Less,
    /// The two are the same.
    Equal,
    /// The other comes first.
    Greater,
}

/// How `a` stands to `b`, byte by byte: the first byte that differs
/// decides, and a string comes before those that go on from it.
pub open spec fn order_of(a: Seq<u8>, b: Seq<u8>) -> Order
    decreases a.len(),
{
    if a.len() == 0 {
        if b.len() == 0 {
            Order::Equal
        } else {
            Order::Less
        }
    } else if b.len() == 0 {
        Order::Greater
    } else if a[0] < b[0] {
        Order::Less
    } else if a[0] > b[0] {
        Order::Greater
    } else {
        order_of(a.drop_first(), b.drop_first())
    }
}

/// How the number `a` stands to the number `b`.
pub open spec fn number_order(a: int, b: int) -> Order {
    if a < b {
        Order::Less
    } else if a == b {
        Order::Equal
    } else {
        Order::Greater
    }
}

/// The order by a first part and then, where the first parts are the same,
/// by a second.
pub open spec fn and_then(first: Order, second: Order) -> Order {
    match first {
        Order::Equal => second,
        _ => first,
    }
}

/// The order seen from the other side.
pub open spec fn converse(order: Order) -> Order {
    match order {
        Order::Less => Order::Greater,
        Order::Equal => Order::Equal,
        Order::Greater => Order::Less,
    }
}

/// The order as the standard library names it.
pub open spec fn ordering_of(order: Order) -> Ordering {
    match order {
        Order::Less => Ordering::Less,
        Order::Equal => Ordering::Equal,
        Order::Greater => Ordering::Greater,
    }
}

/// The order as the standard library names it.
pub fn ordering(order: Order) -> (r: Ordering)
    ensures
        r == ordering_of(order),
{
    match order {
        Order::Less => Ordering::Less,
        Order::Equal => Ordering::Equal,
        Order::Greater => Ordering::Greater,
    }
}

/// Two byte strings stand equal exactly if they are the same.
pub proof fn lemma_order_equal(a: Seq<u8>, b: Seq<u8>)
    ensures
        order_of(a, b) == Order::Equal <==> a == b,
    decreases a.len(),
{
    if a.len() > 0 && b.len() > 0 {
        lemma_order_equal(a.drop_first(), b.drop_first());
        if a[0] == b[0] && a.drop_first() == b.drop_first() {
            assert(a =~= seq![a[0]] + a.drop_first());
            assert(b =~= seq![b[0]] + b.drop_first());
        }
    } else if a.len() == 0 && b.len() == 0 {
        assert(a =~= b);
    }
}

/// How `b` stands to `a` is the converse of how `a` stands to `b`, so of
/// two different byte strings one comes before the other.
pub proof fn lemma_order_converse(a: Seq<u8>, b: Seq<u8>)
    ensures
        order_of(b, a) == converse(order_of(a, b)),
    decreases a.len(),
{
    if a.len() > 0 && b.len() > 0 {
        lemma_order_converse(a.drop_first(), b.drop_first());
    }
}

/// What comes before a byte string comes before all that it comes before.
pub proof fn lemma_order_transitive(a: Seq<u8>, b: Seq<u8>, c: Seq<u8>)
    requires
        order_of(a, b) == Order::Less,
        order_of(b, c) == Order::Less,
    ensures
        order_of(a, c) == Order::Less,
    decreases a.len(),
{
    if a.len() > 0 && b.len() > 0 && c.len() > 0 {
        if a[0] == b[0] && b[0] == c[0] {
            lemma_order_transitive(a.drop_first(), b.drop_first(), c.drop_first());
        }
    }
}

/// How `a` stands to `b`, byte by byte.
pub fn compare(a: &[u8], b: &[u8]) -> (r: Order)
    ensures
        r == order_of(a@, b@),
{
    let mut i: usize = 0;
    assert(a@.skip(0) =~= a@);
    assert(b@.skip(0) =~= b@);
    while i < a.len() && i < b.len()
        invariant
            i <= a.len(),
            i <= b.len(),
            order_of(a@, b@) == order_of(a@.skip(i as int), b@.skip(i as int)),
        decreases a.len() - i,
    {
        proof {
            assert(a@.skip(i as int)[0] == a@[i as int]);
            assert(b@.skip(i as int)[0] == b@[i as int]);
            assert(a@.skip(i as int).drop_first() =~= a@.skip(i + 1));
            assert(b@.skip(i as int).drop_first() =~= b@.skip(i + 1));
        }
        if a[i] < b[i] {
            return Order::Less;
        }
        if a[i] > b[i] {
            return Order::Greater;
        }
        i += 1;
    }
    if i < b.len() {
        Order::Less
    } else if i < a.len() {
        Order::Greater
    } else {
        Order::Equal
    }
}

} // verus!
