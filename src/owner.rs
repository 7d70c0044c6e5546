use crate::amount::record_views;
use vstd::prelude::*;

verus! {

/// Some lock hash of the transaction's inputs equals the configured argument.
pub open spec fn is_owner(args: Seq<u8>, hashes: Seq<Seq<u8>>) -> bool {
    exists|i: int| 0 <= i < hashes.len() && #[trigger] hashes[i] == args
}

/// Byte-for-byte equality of two byte strings.
pub fn bytes_equal(a: &[u8], b: &[u8]) -> (r: bool)
    ensures
        r == (a@ == b@),
{
    if a.len() != b.len() {
        return false;
    }
    let mut i: usize = 0;
    while i < a.len()
        invariant
            i <= a@.len(),
            a@.len() == b@.len(),
            a@.take(i as int) == b@.take(i as int),
        decreases a@.len() - i,
    {
        if a[i] != b[i] {
            return false;
        }
        assert(a@.take(i as int + 1) =~= a@.take(i as int).push(a[i as int]));
        assert(b@.take(i as int + 1) =~= b@.take(i as int).push(b[i as int]));
        i = i + 1;
    }
    assert(a@.take(a@.len() as int) =~= a@);
    assert(b@.take(b@.len() as int) =~= b@);
    true
}

/// Scans the inputs' lock hashes in order and reports whether one of them
/// equals the configured argument.
pub fn check_owner_mode(args: &[u8], lock_hashes: &Vec<Vec<u8>>) -> (r: bool)
    ensures
        r == is_owner(args@, record_views(lock_hashes@)),
{
    let ghost hs = record_views(lock_hashes@);
    let mut i: usize = 0;
    while i < lock_hashes.len()
        invariant
            i <= lock_hashes@.len(),
            hs == record_views(lock_hashes@),
            !is_owner(args@, hs.take(i as int)),
        decreases lock_hashes@.len() - i,
    {
        assert(lock_hashes[i as int]@ == hs[i as int]);
        if bytes_equal(args, lock_hashes[i].as_slice()) {
            assert(hs[i as int] == args@);
            return true;
        }
        assert forall|j: int| 0 <= j < i + 1 implies #[trigger] hs.take(i as int + 1)[j] != args@ by {
            if j < i {
                assert(hs.take(i as int)[j] == hs[j]);
            }
        }
        i = i + 1;
    }
    assert(hs.take(lock_hashes@.len() as int) =~= hs);
    false
}

} // verus!
