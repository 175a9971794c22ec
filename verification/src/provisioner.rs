//! The provisioner: how an account for the record is obtained from the
//! ledger runtime.
//!
//! The runtime is not called from here. An execution is a state machine that
//! the caller drives: each state names the one request that the runtime has
//! to carry out next, and the runtime's reply leads to the next state. The
//! requests come in a fixed order: the minimum balance of the new account, its
//! creation, its assignment to this program, and the writing of the record. A
//! refusal at any of them ends the execution, and no later request is made.

use vstd::prelude::*;
use crate::account::{FUNDING_ACCOUNT, SYSTEM_ACCOUNT, TARGET_ACCOUNT};
use crate::error::BarcodeError;
use crate::identity::Identity;
use crate::instruction::{
    is_assign, is_create_account, system_assign, system_create_account, InstructionDescriptor,
};
use crate::wire::copy_range;

verus! {

/// The reply that an execution waits for.
#[derive(Debug, Clone, Copy, PartialEq)]
pub enum Step {
    /// The minimum balance of an account that holds the record.
    Funding,
    /// The outcome of the creation of the target account, funded with
    /// `lamports`.
    Creating { lamports: u64 },
    /// The outcome of the assignment of the target account to this program.
    Assigning,
    /// The outcome of the writing of the record.
    Storing,
}

/// An instruction that passed decoding and validation and is being carried
/// out.
#[derive(Debug, PartialEq)]
pub struct Execution {
    /// This program.
    pub program_id: Identity,
    /// The account that pays, and owns the entry.
    pub funding: Identity,
    /// The account that will hold the entry.
    pub target: Identity,
    /// The encoded entry.
    pub record: Vec<u8>,
    pub step: Step,
}

/// An execution as mathematical values.
#[verifier::ext_equal]
pub struct ExecutionView {
    pub program_id: Seq<u8>,
    pub funding: Seq<u8>,
    pub target: Seq<u8>,
    pub record: Seq<u8>,
    pub step: Step,
}

impl View for Execution {
    type V = ExecutionView;

    open spec fn view(&self) -> ExecutionView {
        ExecutionView {
            program_id: self.program_id@,
            funding: self.funding@,
            target: self.target@,
            record: self.record@,
            step: self.step,
        }
    }
}

impl ExecutionView {
    /// The same execution, waiting for another reply.
    pub open spec fn at(self, step: Step) -> ExecutionView {
        ExecutionView { step, ..self }
    }
}

/// The state of the processor once the instruction is decoded: it is being
/// carried out, or it has ended.
#[derive(Debug, PartialEq)]
pub enum State {
    Executing(Execution),
    Success,
    Failed(BarcodeError),
}

/// A state as mathematical values.
#[verifier::ext_equal]
pub enum StateView {
    Executing(ExecutionView),
    Success,
    Failed(BarcodeError),
}

impl View for State {
    type V = StateView;

    open spec fn view(&self) -> StateView {
        match self {
            State::Executing(e) => StateView::Executing(e@),
            State::Success => StateView::Success,
            State::Failed(e) => StateView::Failed(*e),
        }
    }
}

/// What the runtime has to do next.
#[derive(Debug, PartialEq)]
pub enum Request {
    /// Tell the least balance that keeps an account of `space` bytes alive.
    MinimumBalance { space: usize },
    /// Run `instruction`, handing it the accounts of the instruction in
    /// process that stand at the positions `accounts`.
    Invoke { instruction: InstructionDescriptor, accounts: Vec<usize> },
    /// Replace the whole buffer of the account at position `account` by
    /// `bytes`, which have the buffer's length.
    Store { account: usize, bytes: Vec<u8> },
    /// Nothing: the processing has ended.
    Halt,
}

/// What the runtime answers.
#[derive(Debug, PartialEq)]
pub enum Reply {
    /// The minimum balance that was asked for.
    MinimumBalance(u64),
    /// The request was carried out.
    Completed,
    /// The request was refused.
    Rejected(solana_program::program_error::ProgramError),
}

/// The balance that a new account is given: the minimum that the runtime
/// asks for, and never less than one unit.
pub open spec fn funded(minimum: u64) -> u64 {
    if minimum < 1 {
        1
    } else {
        minimum
    }
}

/// The state that follows `s` on `reply`.
///
/// A refusal ends an execution with the runtime's error. A reply that carries
/// the request out leads to the next step, and after the last step to
/// success. A reply that does not answer the request of `s` changes nothing;
/// no reply changes a state in which the processing has ended.
pub open spec fn next(s: StateView, reply: Reply) -> StateView {
    match s {
        StateView::Executing(e) => match reply {
            Reply::Rejected(cause) => StateView::Failed(BarcodeError::ProvisioningFailed(cause)),
            Reply::MinimumBalance(minimum) => match e.step {
                Step::Funding => StateView::Executing(
                    e.at(Step::Creating { lamports: funded(minimum) }),
                ),
                _ => s,
            },
            Reply::Completed => match e.step {
                Step::Funding => s,
                Step::Creating { .. } => StateView::Executing(e.at(Step::Assigning)),
                Step::Assigning => StateView::Executing(e.at(Step::Storing)),
                Step::Storing => StateView::Success,
            },
        },
        _ => s,
    }
}

/// `r` is the request of the state `s`.
///
/// The target account is created with exactly as many bytes as the record
/// has, and with this program in control from the start; it is then assigned
/// to this program once more, in a request of its own; and the record is
/// written last.
pub open spec fn asks(s: StateView, r: Request) -> bool {
    match s {
        StateView::Executing(e) => match e.step {
            Step::Funding => r matches Request::MinimumBalance { space } && space
                == e.record.len(),
            Step::Creating { lamports } => r matches Request::Invoke { instruction, accounts }
                && is_create_account(
                instruction,
                e.funding,
                e.target,
                lamports,
                e.record.len() as u64,
                e.program_id,
            ) && accounts@ == seq![FUNDING_ACCOUNT, TARGET_ACCOUNT, SYSTEM_ACCOUNT],
            Step::Assigning => r matches Request::Invoke { instruction, accounts } && is_assign(
                instruction,
                e.target,
                e.program_id,
            ) && accounts@ == seq![TARGET_ACCOUNT, SYSTEM_ACCOUNT],
            Step::Storing => r matches Request::Store { account, bytes } && account
                == TARGET_ACCOUNT && bytes@ == e.record,
        },
        _ => r is Halt,
    }
}

impl State {
    /// The request that this state makes of the runtime.
    pub fn request(&self) -> (r: Request)
        ensures
            asks(self@, r),
    {
        match self {
            State::Executing(e) => match e.step {
                Step::Funding => Request::MinimumBalance { space: e.record.len() },
                Step::Creating { lamports } => {
                    let instruction = system_create_account(
                        &e.funding,
                        &e.target,
                        lamports,
                        e.record.len() as u64,
                        &e.program_id,
                    );
                    let mut accounts: Vec<usize> = Vec::new();
                    accounts.push(FUNDING_ACCOUNT);
                    accounts.push(TARGET_ACCOUNT);
                    accounts.push(SYSTEM_ACCOUNT);
                    assert(accounts@ =~= seq![FUNDING_ACCOUNT, TARGET_ACCOUNT, SYSTEM_ACCOUNT]);
                    Request::Invoke { instruction, accounts }
                },
                Step::Assigning => {
                    let instruction = system_assign(&e.target, &e.program_id);
                    let mut accounts: Vec<usize> = Vec::new();
                    accounts.push(TARGET_ACCOUNT);
                    accounts.push(SYSTEM_ACCOUNT);
                    assert(accounts@ =~= seq![TARGET_ACCOUNT, SYSTEM_ACCOUNT]);
                    Request::Invoke { instruction, accounts }
                },
                Step::Storing => {
                    let bytes = copy_range(e.record.as_slice(), 0, e.record.len());
                    assert(bytes@ =~= e.record@);
                    Request::Store { account: TARGET_ACCOUNT, bytes }
                },
            },
            _ => Request::Halt,
        }
    }

    /// The state that follows on the runtime's reply.
    pub fn resume(self, reply: Reply) -> (r: State)
        ensures
            r@ == next(self@, reply),
    {
        match self {
            State::Executing(e) => match reply {
                Reply::Rejected(cause) => State::Failed(BarcodeError::ProvisioningFailed(cause)),
                Reply::MinimumBalance(minimum) => match e.step {
                    Step::Funding => {
                        let lamports: u64 = if minimum < 1 {
                            1
                        } else {
                            minimum
                        };
                        State::Executing(
                            Execution {
                                program_id: e.program_id,
                                funding: e.funding,
                                target: e.target,
                                record: e.record,
                                step: Step::Creating { lamports },
                            },
                        )
                    },
                    _ => State::Executing(e),
                },
                Reply::Completed => match e.step {
                    Step::Funding => State::Executing(e),
                    Step::Creating { .. } => State::Executing(
                        Execution {
                            program_id: e.program_id,
                            funding: e.funding,
                            target: e.target,
                            record: e.record,
                            step: Step::Assigning,
                        },
                    ),
                    Step::Assigning => State::Executing(
                        Execution {
                            program_id: e.program_id,
                            funding: e.funding,
                            target: e.target,
                            record: e.record,
                            step: Step::Storing,
                        },
                    ),
                    Step::Storing => State::Success,
                },
            },
            State::Success => State::Success,
            State::Failed(e) => State::Failed(e),
        }
    }

    /// The outcome of the processing, once it has ended.
    pub fn outcome(self) -> (r: Option<Result<(), BarcodeError>>)
        ensures
            r == match self@ {
                StateView::Executing(_) => None::<Result<(), BarcodeError>>,
                StateView::Success => Some(Ok(())),
                StateView::Failed(e) => Some(Err(e)),
            },
    {
        match self {
            State::Executing(_) => None,
            State::Success => Some(Ok(())),
            State::Failed(e) => Some(Err(e)),
        }
    }
}

/// A state in which the processing has ended asks nothing of the runtime and
/// stays as it is, whatever is replied: after a failure no request is made.
pub proof fn ended_state_is_final(s: StateView, r: Request, reply: Reply)
    requires
        !(s is Executing),
    ensures
        asks(s, r) <==> r is Halt,
        next(s, reply) == s,
{
}

/// A refusal ends an execution at any step, with the runtime's error as the
/// cause.
pub proof fn refusal_ends_execution(
    e: ExecutionView,
    cause: solana_program::program_error::ProgramError,
)
    ensures
        next(StateView::Executing(e), Reply::Rejected(cause)) == StateView::Failed(
            BarcodeError::ProvisioningFailed(cause),
        ),
{
}

/// While an instruction is carried out, the program, the two accounts and
/// the record stay what they were.
pub proof fn execution_keeps_its_record(e: ExecutionView, reply: Reply)
    ensures
        next(StateView::Executing(e), reply) matches StateView::Executing(f) ==> f == e.at(f.step),
{
}

/// The writing of the record is asked for only after the creation and the
/// assignment were carried out: the step that writes is entered from the
/// assignment alone, and the assignment from the creation alone, each on a
/// reply that the request was carried out.
pub proof fn record_is_written_last(e: ExecutionView, reply: Reply, r: Request)
    ensures
        asks(StateView::Executing(e), r) && r is Store ==> e.step is Storing,
        next(StateView::Executing(e), reply) == StateView::Executing(e.at(Step::Storing))
            && !(e.step is Storing) ==> e.step is Assigning && reply is Completed,
        next(StateView::Executing(e), reply) == StateView::Executing(e.at(Step::Assigning))
            && !(e.step is Assigning) ==> e.step is Creating && reply is Completed,
        next(StateView::Executing(e), reply) is Success ==> e.step is Storing && reply
            is Completed,
{
}

/// An execution that the runtime carries out step by step ends in success:
/// the account is created with the minimum balance, and with one unit where
/// the minimum is zero.
pub proof fn execution_succeeds(e: ExecutionView, minimum: u64)
    requires
        e.step is Funding,
    ensures
        ({
            let s1 = next(StateView::Executing(e), Reply::MinimumBalance(minimum));
            let s2 = next(s1, Reply::Completed);
            let s3 = next(s2, Reply::Completed);
            let s4 = next(s3, Reply::Completed);
            &&& s1 == StateView::Executing(e.at(Step::Creating { lamports: funded(minimum) }))
            &&& s2 == StateView::Executing(e.at(Step::Assigning))
            &&& s3 == StateView::Executing(e.at(Step::Storing))
            &&& s4 == StateView::Success
        }),
        funded(minimum) >= 1,
        funded(minimum) >= minimum,
{
}

} // verus!
