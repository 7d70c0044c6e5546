use crate::amount::{aggregate, all_well_formed, gather_amount, record_views, total};
use crate::error::Error;
use crate::owner::{check_owner_mode, is_owner};
use vstd::prelude::*;

verus! {

/// Width in bytes of a lock hash, and so of the configured argument.
pub const ARGS_LEN: usize = 32;

/// Compares the two sides' sums once both are known.
pub open spec fn compare(inputs: Result<u128, Error>, outputs: Result<u128, Error>) -> Result<(), Error> {
    match inputs {
        Err(e) => Err(e),
        Ok(i) => match outputs {
            Err(e) => Err(e),
            Ok(o) => if i >= o {
                Ok(())
            } else {
                Err(Error::Amount)
            },
        },
    }
}

/// The verdict on a transaction whose configured argument, input lock
/// hashes, and group input and output records are given.
pub open spec fn verdict(
    args: Seq<u8>,
    hashes: Seq<Seq<u8>>,
    inputs: Seq<Seq<u8>>,
    outputs: Seq<Seq<u8>>,
) -> Result<(), Error> {
    if args.len() != ARGS_LEN {
        Err(Error::ArgumentsLen)
    } else if is_owner(args, hashes) {
        Ok(())
    } else {
        compare(aggregate(inputs), aggregate(outputs))
    }
}

/// Decides a transaction from the data that the host exposes for it.
pub fn validate(
    args: &Vec<u8>,
    lock_hashes: &Vec<Vec<u8>>,
    inputs: &Vec<Vec<u8>>,
    outputs: &Vec<Vec<u8>>,
) -> (r: Result<(), Error>)
    ensures
        r == verdict(
            args@,
            record_views(lock_hashes@),
            record_views(inputs@),
            record_views(outputs@),
        ),
{
    if args.len() != ARGS_LEN {
        return Err(Error::ArgumentsLen);
    }
    if check_owner_mode(args.as_slice(), lock_hashes) {
        return Ok(());
    }
    let inputs_amount = match gather_amount(inputs) {
        Ok(a) => a,
        Err(e) => return Err(e),
    };
    let outputs_amount = match gather_amount(outputs) {
        Ok(a) => a,
        Err(e) => return Err(e),
    };
    if inputs_amount < outputs_amount {
        return Err(Error::Amount);
    }
    Ok(())
}

/// Without the owner's lock, a transaction whose records are all well formed
/// and whose sums fit in 128 bits is accepted exactly when its inputs hold at
/// least what its outputs hold.
pub proof fn lemma_conservation(
    args: Seq<u8>,
    hashes: Seq<Seq<u8>>,
    inputs: Seq<Seq<u8>>,
    outputs: Seq<Seq<u8>>,
)
    requires
        args.len() == ARGS_LEN,
        !is_owner(args, hashes),
        all_well_formed(inputs),
        all_well_formed(outputs),
        total(inputs) <= u128::MAX,
        total(outputs) <= u128::MAX,
    ensures
        verdict(args, hashes, inputs, outputs) is Ok <==> total(inputs) >= total(outputs),
        verdict(args, hashes, inputs, outputs) is Err ==> verdict(args, hashes, inputs, outputs)
            == Err::<(), Error>(Error::Amount),
{
}

/// A transaction with an input under the owner's lock is accepted whatever
/// its records hold.
pub proof fn lemma_owner_override(
    args: Seq<u8>,
    hashes: Seq<Seq<u8>>,
    inputs: Seq<Seq<u8>>,
    outputs: Seq<Seq<u8>>,
    i: int,
)
    requires
        args.len() == ARGS_LEN,
        0 <= i < hashes.len(),
        hashes[i] == args,
    ensures
        verdict(args, hashes, inputs, outputs) == Ok::<(), Error>(()),
{
}

/// A configured argument of the wrong width is rejected whatever the
/// transaction holds.
pub proof fn lemma_argument_length(
    args: Seq<u8>,
    hashes: Seq<Seq<u8>>,
    inputs: Seq<Seq<u8>>,
    outputs: Seq<Seq<u8>>,
)
    requires
        args.len() != ARGS_LEN,
    ensures
        verdict(args, hashes, inputs, outputs) == Err::<(), Error>(Error::ArgumentsLen),
{
}

} // verus!
