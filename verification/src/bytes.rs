//! Small operations on byte strings.

use vstd::prelude::*;

verus! {

/// Whether two byte strings are the same.
pub fn same_bytes(a: &[u8], b: &[u8]) -> (r: bool)
    ensures
        r == (a@ == b@),
{
    if a.len() != b.len() {
        return false;
    }
    let mut i: usize = 0;
    while i < a.len()
        invariant
            a.len() == b.len(),
            i <= a.len(),
            a@.take(i as int) == b@.take(i as int),
        decreases a.len() - i,
    {
        if a[i] != b[i] {
            return false;
        }
        assert(a@.take(i + 1) =~= a@.take(i as int).push(a@[i as int]));
        assert(b@.take(i + 1) =~= b@.take(i as int).push(b@[i as int]));
        i += 1;
    }
    assert(a@.take(a.len() as int) =~= a@);
    assert(b@.take(b.len() as int) =~= b@);
    true
}

/// The array that holds the 32 bytes of `bytes`.
pub(crate) fn array32(bytes: &[u8]) -> (a: [u8; 32])
    requires
        bytes@.len() == 32,
    ensures
        a@ == bytes@,
{
    let mut a = [0u8;32];
    let mut i: usize = 0;
    while i < 32
        invariant
            bytes@.len() == 32,
            i <= 32,
            forall|j: int| 0 <= j < i ==> a@[j] == bytes@[j],
        decreases 32 - i,
    {
        a[i] = bytes[i];
        i += 1;
    }
    assert(a@ =~= bytes@);
    a
}

/// The bytes of `bytes`, last first.
pub fn reversed(bytes: &[u8]) -> (r: Vec<u8>)
    ensures
        r@ == bytes@.reverse(),
{
    let n = bytes.len();
    let mut r: Vec<u8> = Vec::new();
    let mut i: usize = 0;
    while i < n
        invariant
            n == bytes.len(),
            i <= n,
            r.len() == i,
            forall|j: int| 0 <= j < i ==> r@[j] == bytes@[n - 1 - j],
        decreases n - i,
    {
        r.push(bytes[n - 1 - i]);
        i += 1;
    }
    assert(r@ =~= bytes@.reverse());
    r
}

/// Reversing is undone by reversing, so it loses nothing.
pub proof fn lemma_reverse_injective(a: Seq<u8>, b: Seq<u8>)
    requires
        a.reverse() == b.reverse(),
    ensures
        a == b,
{
    assert(a.reverse().len() == a.len());
    assert(b.reverse().len() == b.len());
    assert forall|i: int| 0 <= i < a.len() implies a[i] == b[i] by {
        assert(a.reverse()[a.len() - 1 - i] == a[i]);
        assert(b.reverse()[b.len() - 1 - i] == b[i]);
    }
    assert(a =~= b);
}

} // verus!
