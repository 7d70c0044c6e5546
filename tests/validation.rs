use sudt::amount::{decode_amount, gather_amount};
use sudt::error::{status_of, Error, SysFault};
use sudt::owner::{bytes_equal, check_owner_mode};
use sudt::validator::{Action, Channel, Event, Validator};
use sudt::verdict::validate;

fn amount(x: u128) -> Vec<u8> {
    x.to_le_bytes().to_vec()
}

fn owner_args() -> Vec<u8> {
    vec![7u8; 32]
}

fn other_hash() -> Vec<u8> {
    vec![9u8; 32]
}

/// Drives a validator against a host that serves the given data.
fn run(args: &[u8], hashes: &[Vec<u8>], inputs: &[Vec<u8>], outputs: &[Vec<u8>]) -> (Result<(), Error>, Vec<Action>) {
    let mut v = Validator::new();
    let mut action = Action::LoadArgs;
    let mut seen = vec![action];
    loop {
        let event = match action {
            Action::Done(r) => return (r, seen),
            Action::LoadArgs => Event::Loaded(args.to_vec()),
            Action::Fetch(ch, i) => {
                let list = match ch {
                    Channel::Input => hashes,
                    Channel::GroupInput => inputs,
                    Channel::GroupOutput => outputs,
                };
                match list.get(i) {
                    Some(r) => Event::Loaded(r.clone()),
                    None => Event::Failed(SysFault::IndexOutOfBound),
                }
            }
        };
        action = v.step(event);
        seen.push(action);
    }
}

#[test]
fn decode_reads_little_endian() {
    let mut b = vec![0u8; 16];
    b[0] = 0x01;
    b[1] = 0x02;
    b[15] = 0x80;
    let expected: u128 = 0x0201 + (0x80u128 << 120);
    assert_eq!(decode_amount(&b), Ok(expected));
    assert_eq!(decode_amount(&amount(100)), Ok(100));
    assert_eq!(decode_amount(&amount(u128::MAX)), Ok(u128::MAX));
}

#[test]
fn decode_rejects_wrong_width() {
    assert_eq!(decode_amount(&[0u8; 15]), Err(Error::Encoding));
    assert_eq!(decode_amount(&[0u8; 17]), Err(Error::Encoding));
    assert_eq!(decode_amount(&[]), Err(Error::Encoding));
}

#[test]
fn gather_sums_amounts() {
    let rs = vec![amount(100), amount(250), amount(1)];
    assert_eq!(gather_amount(&rs), Ok(351));
}

#[test]
fn gather_empty_channel_is_zero() {
    assert_eq!(gather_amount(&vec![]), Ok(0));
}

#[test]
fn gather_malformed_record_is_encoding_error() {
    let rs = vec![amount(1), vec![0u8; 15], amount(2)];
    assert_eq!(gather_amount(&rs), Err(Error::Encoding));
}

#[test]
fn gather_malformed_record_wins_over_overflow() {
    let rs = vec![amount(u128::MAX), amount(u128::MAX), vec![1u8; 3]];
    assert_eq!(gather_amount(&rs), Err(Error::Encoding));
}

#[test]
fn gather_overflow_is_reported() {
    let half = 1u128 << 127;
    assert_eq!(gather_amount(&vec![amount(half), amount(half)]), Err(Error::Overflow));
    assert_eq!(gather_amount(&vec![amount(u128::MAX), amount(1)]), Err(Error::Overflow));
    assert_eq!(gather_amount(&vec![amount(u128::MAX - 1), amount(1)]), Ok(u128::MAX));
}

#[test]
fn owner_mode_needs_exact_match() {
    let args = owner_args();
    assert!(check_owner_mode(&args, &vec![other_hash(), owner_args()]));
    assert!(!check_owner_mode(&args, &vec![other_hash()]));
    assert!(!check_owner_mode(&args, &vec![]));
    assert!(!check_owner_mode(&args, &vec![vec![7u8; 31]]));
    assert!(bytes_equal(&[1, 2, 3], &[1, 2, 3]));
    assert!(!bytes_equal(&[1, 2, 3], &[1, 2, 4]));
    assert!(!bytes_equal(&[1, 2], &[1, 2, 3]));
}

#[test]
fn equal_amounts_are_accepted() {
    let r = validate(&owner_args(), &vec![other_hash()], &vec![amount(100)], &vec![amount(100)]);
    assert_eq!(r, Ok(()));
    let (r, _) = run(&owner_args(), &[other_hash()], &[amount(100)], &[amount(100)]);
    assert_eq!(r, Ok(()));
}

#[test]
fn larger_output_is_rejected() {
    let r = validate(&owner_args(), &vec![other_hash()], &vec![amount(100)], &vec![amount(101)]);
    assert_eq!(r, Err(Error::Amount));
    let (r, _) = run(&owner_args(), &[other_hash()], &[amount(100)], &[amount(101)]);
    assert_eq!(r, Err(Error::Amount));
}

#[test]
fn conservation_over_several_records() {
    let ins = vec![amount(60), amount(40)];
    let outs = vec![amount(30), amount(30), amount(30)];
    assert_eq!(validate(&owner_args(), &vec![], &ins, &outs), Ok(()));
    let outs = vec![amount(50), amount(51)];
    assert_eq!(validate(&owner_args(), &vec![], &ins, &outs), Err(Error::Amount));
}

#[test]
fn owner_mints_freely() {
    let hashes = vec![other_hash(), owner_args()];
    let r = validate(&owner_args(), &hashes, &vec![], &vec![amount(1_000_000)]);
    assert_eq!(r, Ok(()));
    let (r, seen) = run(&owner_args(), &hashes, &[], &[amount(1_000_000)]);
    assert_eq!(r, Ok(()));
    assert!(seen.iter().all(|a| !matches!(a, Action::Fetch(Channel::GroupInput, _) | Action::Fetch(Channel::GroupOutput, _))));
}

#[test]
fn owner_override_ignores_bad_records() {
    let hashes = vec![owner_args()];
    let r = validate(&owner_args(), &hashes, &vec![vec![0u8; 3]], &vec![amount(5)]);
    assert_eq!(r, Ok(()));
}

#[test]
fn short_output_record_is_rejected() {
    let r = validate(&owner_args(), &vec![], &vec![amount(100)], &vec![vec![0u8; 15]]);
    assert_eq!(r, Err(Error::Encoding));
    let (r, _) = run(&owner_args(), &[], &[amount(100)], &[vec![0u8; 15]]);
    assert_eq!(r, Err(Error::Encoding));
}

#[test]
fn input_sum_overflow_is_rejected() {
    let half = 1u128 << 127;
    let r = validate(&owner_args(), &vec![], &vec![amount(half), amount(half)], &vec![]);
    assert_eq!(r, Err(Error::Overflow));
    let (r, seen) = run(&owner_args(), &[], &[amount(half), amount(half)], &[]);
    assert_eq!(r, Err(Error::Overflow));
    assert!(!seen.iter().any(|a| matches!(a, Action::Fetch(Channel::GroupOutput, _))));
}

#[test]
fn output_sum_overflow_is_rejected() {
    let r = validate(&owner_args(), &vec![], &vec![amount(1)], &vec![amount(u128::MAX), amount(1)]);
    assert_eq!(r, Err(Error::Overflow));
}

#[test]
fn wrong_argument_length_reads_no_channel() {
    let args = vec![7u8; 20];
    let r = validate(&args, &vec![args.clone()], &vec![amount(1)], &vec![amount(1)]);
    assert_eq!(r, Err(Error::ArgumentsLen));
    let (r, seen) = run(&args, &[args.clone()], &[amount(1)], &[amount(1)]);
    assert_eq!(r, Err(Error::ArgumentsLen));
    assert_eq!(seen, vec![Action::LoadArgs, Action::Done(Err(Error::ArgumentsLen))]);
}

#[test]
fn empty_transaction_is_accepted() {
    assert_eq!(validate(&owner_args(), &vec![], &vec![], &vec![]), Ok(()));
    let (r, _) = run(&owner_args(), &[], &[], &[]);
    assert_eq!(r, Ok(()));
}

#[test]
fn machine_asks_in_order() {
    let (_, seen) = run(&owner_args(), &[other_hash()], &[amount(3)], &[amount(2)]);
    assert_eq!(
        seen,
        vec![
            Action::LoadArgs,
            Action::Fetch(Channel::Input, 0),
            Action::Fetch(Channel::Input, 1),
            Action::Fetch(Channel::GroupInput, 0),
            Action::Fetch(Channel::GroupInput, 1),
            Action::Fetch(Channel::GroupOutput, 0),
            Action::Fetch(Channel::GroupOutput, 1),
            Action::Done(Ok(())),
        ]
    );
}

#[test]
fn host_failures_are_propagated() {
    let mut v = Validator::new();
    assert_eq!(v.step(Event::Loaded(owner_args())), Action::Fetch(Channel::Input, 0));
    assert_eq!(v.step(Event::Failed(SysFault::IndexOutOfBound)), Action::Fetch(Channel::GroupInput, 0));
    assert_eq!(v.step(Event::Failed(SysFault::LengthNotEnough(40))), Action::Done(Err(Error::LengthNotEnough)));
    assert!(v.is_finished());

    let mut v = Validator::new();
    assert_eq!(v.step(Event::Failed(SysFault::ItemMissing)), Action::Done(Err(Error::ItemMissing)));

    let mut v = Validator::new();
    v.step(Event::Loaded(owner_args()));
    assert_eq!(v.step(Event::Failed(SysFault::Encoding)), Action::Done(Err(Error::Encoding)));
}

#[test]
fn fault_mapping_and_codes() {
    assert_eq!(Error::from_fault(SysFault::IndexOutOfBound), Error::IndexOutOfBound);
    assert_eq!(Error::from_fault(SysFault::ItemMissing), Error::ItemMissing);
    assert_eq!(Error::from_fault(SysFault::LengthNotEnough(3)), Error::LengthNotEnough);
    assert_eq!(Error::from_fault(SysFault::Encoding), Error::Encoding);
    let codes: Vec<i8> = [
        Error::IndexOutOfBound,
        Error::ItemMissing,
        Error::LengthNotEnough,
        Error::Encoding,
        Error::Amount,
        Error::ArgumentsLen,
        Error::Overflow,
    ]
    .iter()
    .map(|e| e.code())
    .collect();
    assert_eq!(codes, vec![1, 2, 3, 4, 5, 6, 7]);
    assert_eq!(status_of(Ok(())), 0);
    assert_eq!(status_of(Err(Error::Amount)), 5);
}
