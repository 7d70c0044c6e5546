use crate::amount::{aggregate, all_well_formed, decode_amount, total, UDT_LEN};
use crate::error::{fault_error, is_known, Error, SysFault};
use crate::owner::{bytes_equal, is_owner};
use crate::verdict::{compare, verdict, ARGS_LEN};
use vstd::prelude::*;

verus! {

/// A record stream of the transaction.
#[derive(Clone, Copy, Debug, PartialEq, Eq, Structural)]
pub enum Channel {
    /// All inputs of the transaction; only their lock hashes are read.
    Input,
    /// The inputs that carry this token.
    GroupInput,
    /// The outputs that carry this token.
    GroupOutput,
}

/// Where an evaluation stands.
#[derive(Clone, Copy, Debug, PartialEq, Eq, Structural)]
pub enum Phase {
    Start,
    CheckingAuthorization,
    AggregatingInputs,
    AggregatingOutputs,
    Finished,
}

/// What the validator asks of the host next.
#[derive(Clone, Copy, Debug, PartialEq, Eq)]
pub enum Action {
    /// Load the configured argument of the script.
    LoadArgs,
    /// Load the record at this index of the channel: the lock hash on
    /// `Input`, the cell data on the two group channels.
    Fetch(Channel, usize),
    /// The evaluation is over, with this verdict.
    Done(Result<(), Error>),
}

/// What the host answered to the last request.
#[derive(Clone, Debug, PartialEq, Eq)]
pub enum Event {
    Loaded(Vec<u8>),
    Failed(SysFault),
}

/// The abstract state of an evaluation: its phase, the argument, and every
/// record read so far on each channel.
pub struct ValidatorView {
    pub stage: Phase,
    pub args: Seq<u8>,
    pub hashes: Seq<Seq<u8>>,
    pub inputs: Seq<Seq<u8>>,
    pub outputs: Seq<Seq<u8>>,
}

pub open spec fn initial_view() -> ValidatorView {
    ValidatorView {
        stage: Phase::Start,
        args: Seq::empty(),
        hashes: Seq::empty(),
        inputs: Seq::empty(),
        outputs: Seq::empty(),
    }
}

/// Ends the evaluation with `r`.
pub open spec fn finish(v: ValidatorView, r: Result<(), Error>) -> (ValidatorView, Action) {
    (ValidatorView { stage: Phase::Finished, ..v }, Action::Done(r))
}

/// Asks for record `n` of `ch`; an index past `usize::MAX` cannot be
/// addressed and ends the evaluation.
pub open spec fn fetch_next(v: ValidatorView, ch: Channel, n: nat) -> (ValidatorView, Action) {
    if n <= usize::MAX {
        (v, Action::Fetch(ch, n as usize))
    } else {
        finish(v, Err(Error::IndexOutOfBound))
    }
}

/// One step of the evaluation: the next state and request after event `e`.
pub open spec fn transition(v: ValidatorView, e: Event) -> (ValidatorView, Action) {
    match v.stage {
        Phase::Start => match e {
            Event::Loaded(a) => {
                let v2 = ValidatorView { args: a@, ..v };
                if a@.len() != ARGS_LEN {
                    finish(v2, Err(Error::ArgumentsLen))
                } else {
                    (ValidatorView { stage: Phase::CheckingAuthorization, ..v2 }, Action::Fetch(Channel::Input, 0))
                }
            },
            Event::Failed(f) => finish(v, Err(fault_error(f))),
        },
        Phase::CheckingAuthorization => match e {
            Event::Loaded(h) => {
                let v2 = ValidatorView { hashes: v.hashes.push(h@), ..v };
                if h@ == v.args {
                    finish(v2, Ok(()))
                } else {
                    fetch_next(v2, Channel::Input, v2.hashes.len())
                }
            },
            Event::Failed(SysFault::IndexOutOfBound) => (
                ValidatorView { stage: Phase::AggregatingInputs, ..v },
                Action::Fetch(Channel::GroupInput, 0),
            ),
            Event::Failed(f) => finish(v, Err(fault_error(f))),
        },
        Phase::AggregatingInputs => match e {
            Event::Loaded(d) => {
                let v2 = ValidatorView { inputs: v.inputs.push(d@), ..v };
                if d@.len() != UDT_LEN {
                    finish(v2, Err(Error::Encoding))
                } else {
                    fetch_next(v2, Channel::GroupInput, v2.inputs.len())
                }
            },
            Event::Failed(SysFault::IndexOutOfBound) => match aggregate(v.inputs) {
                Err(err) => finish(v, Err(err)),
                Ok(_) => (
                    ValidatorView { stage: Phase::AggregatingOutputs, ..v },
                    Action::Fetch(Channel::GroupOutput, 0),
                ),
            },
            Event::Failed(f) => finish(v, Err(fault_error(f))),
        },
        Phase::AggregatingOutputs => match e {
            Event::Loaded(d) => {
                let v2 = ValidatorView { outputs: v.outputs.push(d@), ..v };
                if d@.len() != UDT_LEN {
                    finish(v2, Err(Error::Encoding))
                } else {
                    fetch_next(v2, Channel::GroupOutput, v2.outputs.len())
                }
            },
            Event::Failed(SysFault::IndexOutOfBound) => finish(
                v,
                compare(aggregate(v.inputs), aggregate(v.outputs)),
            ),
            Event::Failed(f) => finish(v, Err(fault_error(f))),
        },
        // Never taken: a finished evaluation receives no more events.
        Phase::Finished => (v, Action::Done(Err(Error::IndexOutOfBound))),
    }
}

/// What holds of every state that an evaluation can be in before it ends.
pub open spec fn reachable(v: ValidatorView) -> bool {
    match v.stage {
        Phase::Start => v.hashes.len() == 0 && v.inputs.len() == 0 && v.outputs.len() == 0,
        Phase::CheckingAuthorization => {
            &&& v.args.len() == ARGS_LEN
            &&& !is_owner(v.args, v.hashes)
            &&& v.inputs.len() == 0
            &&& v.outputs.len() == 0
        },
        Phase::AggregatingInputs => {
            &&& v.args.len() == ARGS_LEN
            &&& !is_owner(v.args, v.hashes)
            &&& all_well_formed(v.inputs)
            &&& v.outputs.len() == 0
        },
        Phase::AggregatingOutputs => {
            &&& v.args.len() == ARGS_LEN
            &&& !is_owner(v.args, v.hashes)
            &&& aggregate(v.inputs) is Ok
            &&& all_well_formed(v.outputs)
        },
        Phase::Finished => true,
    }
}

/// One evaluation of the rule, driven by the host one request at a time.
pub struct Validator {
    phase: Phase,
    args: Vec<u8>,
    index: usize,
    sum: u128,
    overflowed: bool,
    input_sum: u128,
    hashes: Ghost<Seq<Seq<u8>>>,
    inputs: Ghost<Seq<Seq<u8>>>,
    outputs: Ghost<Seq<Seq<u8>>>,
}

impl View for Validator {
    type V = ValidatorView;

    closed spec fn view(&self) -> ValidatorView {
        ValidatorView {
            stage: self.phase,
            args: self.args@,
            hashes: self.hashes@,
            inputs: self.inputs@,
            outputs: self.outputs@,
        }
    }
}

impl Validator {
    /// The fields agree with the abstract state: the index is the number of
    /// records read on the current channel, and the running sums are those of
    /// the records read.
    pub closed spec fn wf(&self) -> bool {
        &&& reachable(self@)
        &&& match self.phase {
            Phase::CheckingAuthorization => self.index == self.hashes@.len(),
            Phase::AggregatingInputs => {
                &&& self.index == self.inputs@.len()
                &&& self.overflowed == (total(self.inputs@) > u128::MAX)
                &&& !self.overflowed ==> self.sum == total(self.inputs@)
            },
            Phase::AggregatingOutputs => {
                &&& self.index == self.outputs@.len()
                &&& self.input_sum == total(self.inputs@)
                &&& self.overflowed == (total(self.outputs@) > u128::MAX)
                &&& !self.overflowed ==> self.sum == total(self.outputs@)
            },
            _ => true,
        }
    }

    /// A fresh evaluation; its first request is `Action::LoadArgs`.
    pub fn new() -> (r: Validator)
        ensures
            r@ == initial_view(),
            r.wf(),
    {
        Validator {
            phase: Phase::Start,
            args: Vec::new(),
            index: 0,
            sum: 0,
            overflowed: false,
            input_sum: 0,
            hashes: Ghost(Seq::empty()),
            inputs: Ghost(Seq::empty()),
            outputs: Ghost(Seq::empty()),
        }
    }

    pub fn is_finished(&self) -> (r: bool)
        ensures
            r == (self@.stage == Phase::Finished),
    {
        self.phase == Phase::Finished
    }

    /// Ends the evaluation with `r`.
    fn finish_with(&mut self, r: Result<(), Error>) -> (a: Action)
        ensures
            final(self)@ == (ValidatorView { stage: Phase::Finished, ..old(self)@ }),
            final(self).index == old(self).index,
            final(self).sum == old(self).sum,
            final(self).overflowed == old(self).overflowed,
            final(self).input_sum == old(self).input_sum,
            a == Action::Done(r),
    {
        self.phase = Phase::Finished;
        Action::Done(r)
    }

    /// Takes in the configured argument, or the failure to load it.
    fn on_args(&mut self, e: Event) -> (a: Action)
        requires
            old(self)@.stage == Phase::Start,
            reachable(old(self)@),
            e matches Event::Failed(f) ==> is_known(f),
        ensures
            (final(self)@, a) == transition(old(self)@, e),
            final(self).wf(),
    {
        match e {
            Event::Loaded(a) => {
                if a.len() != ARGS_LEN {
                    self.args = a;
                    self.finish_with(Err(Error::ArgumentsLen))
                } else {
                    self.args = a;
                    self.index = 0;
                    self.phase = Phase::CheckingAuthorization;
                    Action::Fetch(Channel::Input, 0)
                }
            },
            Event::Failed(f) => self.finish_with(Err(Error::from_fault(f))),
        }
    }

    /// Moves on to the next index of `ch`, or ends the evaluation where that
    /// index cannot be addressed.
    fn advance(&mut self, ch: Channel) -> (a: Action)
        ensures
            old(self).index < usize::MAX ==> final(self).index == old(self).index + 1,
            (final(self)@, a) == fetch_next(old(self)@, ch, (old(self).index + 1) as nat),
            final(self).sum == old(self).sum,
            final(self).overflowed == old(self).overflowed,
            final(self).input_sum == old(self).input_sum,
    {
        if self.index == usize::MAX {
            self.finish_with(Err(Error::IndexOutOfBound))
        } else {
            self.index = self.index + 1;
            Action::Fetch(ch, self.index)
        }
    }

    /// Adds one amount to the running sum, recording an overflow.
    fn accumulate(&mut self, x: u128)
        ensures
            final(self)@ == old(self)@,
            final(self).index == old(self).index,
            final(self).input_sum == old(self).input_sum,
            final(self).overflowed == (old(self).overflowed || old(self).sum + x > u128::MAX),
            !final(self).overflowed ==> final(self).sum == old(self).sum + x,
    {
        if !self.overflowed {
            match self.sum.checked_add(x) {
                Some(s) => {
                    self.sum = s;
                },
                None => {
                    self.overflowed = true;
                },
            }
        }
    }

    /// Takes in a lock hash of the inputs, or the end of them.
    fn on_lock_hash(&mut self, e: Event) -> (a: Action)
        requires
            old(self)@.stage == Phase::CheckingAuthorization,
            old(self).wf(),
            e matches Event::Failed(f) ==> is_known(f),
        ensures
            (final(self)@, a) == transition(old(self)@, e),
            final(self).wf(),
    {
        match e {
            Event::Loaded(h) => {
                let ghost old_hashes = self.hashes@;
                self.hashes = Ghost(self.hashes@.push(h@));
                if bytes_equal(self.args.as_slice(), h.as_slice()) {
                    self.finish_with(Ok(()))
                } else {
                    assert forall|j: int| 0 <= j < self.hashes@.len() implies
                        #[trigger] self.hashes@[j] != self.args@ by {
                        if j < old_hashes.len() {
                            assert(self.hashes@[j] == old_hashes[j]);
                        }
                    }
                    self.advance(Channel::Input)
                }
            },
            Event::Failed(SysFault::IndexOutOfBound) => {
                self.phase = Phase::AggregatingInputs;
                self.index = 0;
                self.sum = 0;
                self.overflowed = false;
                Action::Fetch(Channel::GroupInput, 0)
            },
            Event::Failed(f) => self.finish_with(Err(Error::from_fault(f))),
        }
    }

    /// Takes in a record of the token's inputs, or the end of them.
    fn on_input_record(&mut self, e: Event) -> (a: Action)
        requires
            old(self)@.stage == Phase::AggregatingInputs,
            old(self).wf(),
            e matches Event::Failed(f) ==> is_known(f),
        ensures
            (final(self)@, a) == transition(old(self)@, e),
            final(self).wf(),
    {
        match e {
            Event::Loaded(d) => {
                let ghost seen = self.inputs@;
                self.inputs = Ghost(self.inputs@.push(d@));
                match decode_amount(d.as_slice()) {
                    Err(err) => self.finish_with(Err(err)),
                    Ok(x) => {
                        assert(self.inputs@.drop_last() =~= seen);
                        assert(all_well_formed(self.inputs@)) by {
                            assert forall|j: int| 0 <= j < self.inputs@.len() implies
                                (#[trigger] self.inputs@[j]).len() == UDT_LEN by {
                                if j < seen.len() {
                                    assert(self.inputs@[j] == seen[j]);
                                }
                            }
                        }
                        self.accumulate(x);
                        self.advance(Channel::GroupInput)
                    },
                }
            },
            Event::Failed(SysFault::IndexOutOfBound) => {
                if self.overflowed {
                    self.finish_with(Err(Error::Overflow))
                } else {
                    self.input_sum = self.sum;
                    self.phase = Phase::AggregatingOutputs;
                    self.index = 0;
                    self.sum = 0;
                    self.overflowed = false;
                    Action::Fetch(Channel::GroupOutput, 0)
                }
            },
            Event::Failed(f) => self.finish_with(Err(Error::from_fault(f))),
        }
    }

    /// Takes in a record of the token's outputs, or the end of them, which
    /// settles the verdict.
    fn on_output_record(&mut self, e: Event) -> (a: Action)
        requires
            old(self)@.stage == Phase::AggregatingOutputs,
            old(self).wf(),
            e matches Event::Failed(f) ==> is_known(f),
        ensures
            (final(self)@, a) == transition(old(self)@, e),
            final(self).wf(),
    {
        match e {
            Event::Loaded(d) => {
                let ghost seen = self.outputs@;
                self.outputs = Ghost(self.outputs@.push(d@));
                match decode_amount(d.as_slice()) {
                    Err(err) => self.finish_with(Err(err)),
                    Ok(x) => {
                        assert(self.outputs@.drop_last() =~= seen);
                        assert(all_well_formed(self.outputs@)) by {
                            assert forall|j: int| 0 <= j < self.outputs@.len() implies
                                (#[trigger] self.outputs@[j]).len() == UDT_LEN by {
                                if j < seen.len() {
                                    assert(self.outputs@[j] == seen[j]);
                                }
                            }
                        }
                        self.accumulate(x);
                        self.advance(Channel::GroupOutput)
                    },
                }
            },
            Event::Failed(SysFault::IndexOutOfBound) => {
                if self.overflowed {
                    self.finish_with(Err(Error::Overflow))
                } else if self.input_sum < self.sum {
                    self.finish_with(Err(Error::Amount))
                } else {
                    self.finish_with(Ok(()))
                }
            },
            Event::Failed(f) => self.finish_with(Err(Error::from_fault(f))),
        }
    }

    /// Takes the host's answer to the last request and returns the next one.
    /// An unknown failure class is fatal: the host aborts instead of
    /// answering with it.
    pub fn step(&mut self, e: Event) -> (a: Action)
        requires
            old(self).wf(),
            old(self)@.stage != Phase::Finished,
            e matches Event::Failed(f) ==> is_known(f),
        ensures
            (final(self)@, a) == transition(old(self)@, e),
            final(self).wf(),
            reachable(final(self)@),
    {
        match self.phase {
            Phase::Start => self.on_args(e),
            Phase::CheckingAuthorization => self.on_lock_hash(e),
            Phase::AggregatingInputs => self.on_input_record(e),
            Phase::AggregatingOutputs => self.on_output_record(e),
            Phase::Finished => Action::Done(Err(Error::IndexOutOfBound)),
        }
    }
}

/// A verdict that the evaluation reaches on what the host served, and not on
/// a host failure, is the verdict of the argument and records read so far.
pub proof fn lemma_step_agrees_with_verdict(v: ValidatorView, e: Event)
    requires
        reachable(v),
        v.stage != Phase::Finished,
        e is Loaded || (v.stage != Phase::Start && e == Event::Failed(SysFault::IndexOutOfBound)),
        v.hashes.len() < usize::MAX,
        v.inputs.len() < usize::MAX,
        v.outputs.len() < usize::MAX,
    ensures
        transition(v, e).1 matches Action::Done(r) ==> r == verdict(
            transition(v, e).0.args,
            transition(v, e).0.hashes,
            transition(v, e).0.inputs,
            transition(v, e).0.outputs,
        ),
{
    let w = transition(v, e).0;
    match e {
        Event::Loaded(d) => {
            if v.stage == Phase::CheckingAuthorization && d@ == v.args {
                assert(w.hashes[w.hashes.len() - 1] == w.args);
            }
            if v.stage == Phase::AggregatingInputs && d@.len() != UDT_LEN {
                assert(w.inputs[w.inputs.len() - 1].len() != UDT_LEN);
            }
            if v.stage == Phase::AggregatingOutputs && d@.len() != UDT_LEN {
                assert(w.outputs[w.outputs.len() - 1].len() != UDT_LEN);
            }
        },
        Event::Failed(_) => {},
    }
}

/// A configured argument of the wrong width ends the evaluation before any
/// channel is read.
pub proof fn lemma_short_args_read_nothing(e: Event)
    requires
        e matches Event::Loaded(a) && a@.len() != ARGS_LEN,
    ensures
        transition(initial_view(), e).1 == Action::Done(Err(Error::ArgumentsLen)),
{
}

} // verus!
