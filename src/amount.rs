use crate::error::Error;
use vstd::prelude::*;

verus! {

/// Width in bytes of an amount record.
pub const UDT_LEN: usize = 16;

/// The number that a byte string denotes in little-endian order.
pub open spec fn le_value(b: Seq<u8>) -> nat
    decreases b.len(),
{
    if b.len() == 0 {
        0
    } else {
        b[0] as nat + 256 * le_value(b.drop_first())
    }
}

pub open spec fn pow256(k: nat) -> nat
    decreases k,
{
    if k == 0 {
        1
    } else {
        256 * pow256((k - 1) as nat)
    }
}

proof fn lemma_le_value_bound(b: Seq<u8>)
    ensures
        le_value(b) < pow256(b.len()),
    decreases b.len(),
{
    if b.len() > 0 {
        lemma_le_value_bound(b.drop_first());
        let r = le_value(b.drop_first());
        let p = pow256(b.drop_first().len());
        let x = b[0] as nat;
        assert(x + 256 * r < 256 * p) by (nonlinear_arith)
            requires
                x < 256,
                r < p,
        ;
    }
}

proof fn lemma_pow256_monotonic(a: nat, b: nat)
    requires
        a <= b,
    ensures
        pow256(a) <= pow256(b),
    decreases b,
{
    if a < b {
        lemma_pow256_monotonic(a, (b - 1) as nat);
    }
}

/// Decodes an amount record: exactly `UDT_LEN` bytes, little-endian.
pub fn decode_amount(data: &[u8]) -> (r: Result<u128, Error>)
    ensures
        data@.len() == UDT_LEN ==> r == Ok::<u128, Error>(le_value(data@) as u128),
        data@.len() != UDT_LEN ==> r == Err::<u128, Error>(Error::Encoding),
        data@.len() == UDT_LEN ==> le_value(data@) <= u128::MAX,
{
    if data.len() != UDT_LEN {
        return Err(Error::Encoding);
    }
    proof {
        reveal_with_fuel(pow256, 17);
        assert(pow256(16) == 0x1_0000_0000_0000_0000_0000_0000_0000_0000nat);
    }
    let mut v: u128 = 0;
    let mut i: usize = UDT_LEN;
    while i > 0
        invariant
            i <= UDT_LEN,
            data@.len() == UDT_LEN,
            v as nat == le_value(data@.subrange(i as int, UDT_LEN as int)),
            pow256(UDT_LEN as nat) == 0x1_0000_0000_0000_0000_0000_0000_0000_0000nat,
        decreases i,
    {
        let ghost rest = data@.subrange(i as int, UDT_LEN as int);
        i = i - 1;
        let ghost cur = data@.subrange(i as int, UDT_LEN as int);
        assert(cur.drop_first() =~= rest);
        proof {
            lemma_le_value_bound(cur);
            lemma_pow256_monotonic(cur.len(), UDT_LEN as nat);
        }
        v = v * 256 + data[i] as u128;
    }
    assert(data@.subrange(0, UDT_LEN as int) =~= data@);
    Ok(v)
}

/// The byte contents of a list of records.
pub open spec fn record_views(rs: Seq<Vec<u8>>) -> Seq<Seq<u8>> {
    rs.map_values(|r: Vec<u8>| r@)
}

/// Every record has the width of an amount.
pub open spec fn all_well_formed(rs: Seq<Seq<u8>>) -> bool {
    forall|i: int| 0 <= i < rs.len() ==> (#[trigger] rs[i]).len() == UDT_LEN
}

/// The mathematical sum of the amounts that the records denote.
pub open spec fn total(rs: Seq<Seq<u8>>) -> nat
    decreases rs.len(),
{
    if rs.len() == 0 {
        0
    } else {
        total(rs.drop_last()) + le_value(rs.last())
    }
}

/// The outcome of summing a channel: a malformed record anywhere rejects it
/// with `Encoding`; otherwise a sum beyond `u128::MAX` rejects it with
/// `Overflow`; otherwise the sum.
pub open spec fn aggregate(rs: Seq<Seq<u8>>) -> Result<u128, Error> {
    if !all_well_formed(rs) {
        Err(Error::Encoding)
    } else if total(rs) > u128::MAX {
        Err(Error::Overflow)
    } else {
        Ok(total(rs) as u128)
    }
}

/// Sums the amounts of a channel's records with checked arithmetic.
pub fn gather_amount(records: &Vec<Vec<u8>>) -> (r: Result<u128, Error>)
    ensures
        r == aggregate(record_views(records@)),
{
    let ghost rs = record_views(records@);
    let mut sum: u128 = 0;
    let mut overflowed = false;
    let mut i: usize = 0;
    while i < records.len()
        invariant
            i <= records@.len(),
            rs == record_views(records@),
            all_well_formed(rs.take(i as int)),
            overflowed == (total(rs.take(i as int)) > u128::MAX),
            !overflowed ==> sum == total(rs.take(i as int)),
        decreases records@.len() - i,
    {
        let amount = decode_amount(records[i].as_slice());
        assert(records[i as int]@ == rs[i as int]);
        assert(rs.take(i as int + 1).drop_last() =~= rs.take(i as int));
        assert(rs.take(i as int + 1).last() == rs[i as int]);
        match amount {
            Err(e) => {
                assert(!all_well_formed(rs)) by {
                    assert(rs[i as int].len() != UDT_LEN);
                }
                return Err(e);
            },
            Ok(a) => {
                if !overflowed {
                    match sum.checked_add(a) {
                        Some(s) => {
                            sum = s;
                        },
                        None => {
                            overflowed = true;
                        },
                    }
                }
            },
        }
        i = i + 1;
    }
    assert(rs.take(records@.len() as int) =~= rs);
    if overflowed {
        Err(Error::Overflow)
    } else {
        Ok(sum)
    }
}

/// A channel holding a record of the wrong width is rejected with
/// `Encoding`, whatever its other records hold.
pub proof fn lemma_malformed_record(rs: Seq<Seq<u8>>, i: int)
    requires
        0 <= i < rs.len(),
        rs[i].len() != UDT_LEN,
    ensures
        aggregate(rs) == Err::<u128, Error>(Error::Encoding),
{
}

/// Well-formed amounts whose sum exceeds `u128::MAX` are rejected with
/// `Overflow`; no truncated sum comes out.
pub proof fn lemma_overflow(rs: Seq<Seq<u8>>)
    requires
        all_well_formed(rs),
        total(rs) > u128::MAX,
    ensures
        aggregate(rs) == Err::<u128, Error>(Error::Overflow),
{
}

/// An empty channel sums to zero.
pub proof fn lemma_empty_channel()
    ensures
        aggregate(Seq::<Seq<u8>>::empty()) == Ok::<u128, Error>(0),
{
}

} // verus!
