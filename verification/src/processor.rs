//! The instruction processor.
//!
//! Processing starts by decoding the instruction; what does not decode fails
//! at once. The payload's case selects the handler. The handler checks the
//! accounts, builds the entry that the funding account owns, and encodes it;
//! only then is anything asked of the runtime, by the execution that the
//! handler returns.

use vstd::prelude::*;
use crate::account::{
    validate_accounts, validation, AccountHandle, FUNDING_ACCOUNT, TARGET_ACCOUNT,
};
use crate::error::BarcodeError;
use crate::identity::{system_identity, Identity};
use crate::provisioner::{asks, Execution, ExecutionView, Request, State, StateView, Step};
use crate::record::{
    decode_entry, decode_instruction, entry_round_trip, instruction_decode_is_inverse,
    BarcodeEntry, BarcodeEntryView, BarcodeInstruction, BarcodeInstructionView, ProductDetails,
    ProductDetailsView,
};
use crate::wire::text_fits;

verus! {

/// The entry that an instruction creates: its owner is the funding account.
pub open spec fn entry_for(
    accounts: Seq<AccountHandle>,
    details: ProductDetailsView,
    barcode: Seq<char>,
) -> BarcodeEntryView {
    BarcodeEntryView {
        owner: accounts[FUNDING_ACCOUNT as int].key@,
        product_details: details,
        barcode,
    }
}

/// The state in which the handling of `CreateBarcodeItem` leaves the
/// processor: the failure that the validation of the accounts found, or
/// else the execution that waits for the minimum balance.
pub open spec fn handling(
    program_id: Seq<u8>,
    accounts: Seq<AccountHandle>,
    details: ProductDetailsView,
    barcode: Seq<char>,
) -> StateView {
    match validation(accounts) {
        Err(e) => StateView::Failed(e),
        Ok(_) => StateView::Executing(
            ExecutionView {
                program_id,
                funding: accounts[FUNDING_ACCOUNT as int].key@,
                target: accounts[TARGET_ACCOUNT as int].key@,
                record: entry_for(accounts, details, barcode).encoding(),
                step: Step::Funding,
            },
        ),
    }
}

/// The state in which decoding and dispatch leave the processor: instruction
/// bytes that do not decode fail at once, and a decoded payload is handed to
/// the handler of its case.
pub open spec fn start(
    program_id: Seq<u8>,
    accounts: Seq<AccountHandle>,
    data: Seq<u8>,
) -> StateView {
    match decode_instruction(data) {
        None => StateView::Failed(BarcodeError::MalformedData),
        Some(BarcodeInstructionView::CreateBarcodeItem { details, barcode }) => handling(
            program_id,
            accounts,
            details,
            barcode,
        ),
    }
}

/// The processor of one instruction: the program that runs, the accounts
/// that came with the instruction, and the instruction's bytes.
pub struct Processor<'a> {
    pub program_id: &'a Identity,
    pub accounts: &'a [AccountHandle],
    pub data: &'a [u8],
}

impl<'a> Processor<'a> {
    /// A processor that has yet to decode its instruction.
    pub fn new(program_id: &'a Identity, accounts: &'a [AccountHandle], data: &'a [u8]) -> (r:
        Self)
        ensures
            r.program_id == program_id,
            r.accounts == accounts,
            r.data == data,
    {
        Processor { program_id, accounts, data }
    }

    /// Decodes the instruction and hands it to the handler of its case.
    pub fn process(&self) -> (r: State)
        ensures
            r@ == start(self.program_id@, self.accounts@, self.data@),
    {
        match BarcodeInstruction::decode(self.data) {
            Err(e) => State::Failed(e),
            Ok(BarcodeInstruction::CreateBarcodeItem { details, barcode }) => {
                proof {
                    instruction_decode_is_inverse(
                        self.data@,
                        BarcodeInstructionView::CreateBarcodeItem {
                            details: details@,
                            barcode: barcode@,
                        },
                    );
                }
                self.create_barcode_item(details, barcode)
            },
        }
    }

    /// Handles `CreateBarcodeItem`: checks the accounts, builds the entry that
    /// the funding account owns, and encodes it. Nothing is asked of the
    /// runtime before all of this is done.
    pub fn create_barcode_item(&self, product_details: ProductDetails, barcode: String) -> (r:
        State)
        requires
            product_details@.wf(),
            text_fits(barcode@),
        ensures
            r@ == handling(self.program_id@, self.accounts@, product_details@, barcode@),
    {
        match validate_accounts(self.accounts) {
            Err(e) => State::Failed(e),
            Ok(_) => {
                let funding = self.accounts[FUNDING_ACCOUNT].key;
                let target = self.accounts[TARGET_ACCOUNT].key;
                let entry = BarcodeEntry { owner: funding, product_details, barcode };
                let record = entry.encode();
                State::Executing(
                    Execution {
                        program_id: *self.program_id,
                        funding,
                        target,
                        record,
                        step: Step::Funding,
                    },
                )
            },
        }
    }
}

/// Starts the processing of an instruction: decodes `data`, checks
/// `accounts`, and prepares the record. The state that comes back either has
/// ended or names the first request to the runtime.
pub fn process_instruction(program_id: &Identity, accounts: &[AccountHandle], data: &[u8]) -> (r:
    State)
    ensures
        r@ == start(program_id@, accounts@, data@),
{
    let processor = Processor::new(program_id, accounts, data);
    processor.process()
}

/// Instruction bytes that do not decode fail with `MalformedData`, whatever
/// the accounts are.
pub proof fn malformed_data_fails(program_id: Seq<u8>, accounts: Seq<AccountHandle>, data: Seq<u8>)
    requires
        decode_instruction(data) is None,
    ensures
        start(program_id, accounts, data) == StateView::Failed(BarcodeError::MalformedData),
{
}

/// An instruction that decodes and comes with fewer than three accounts fails
/// with `MissingAccount`, and the state it fails in asks nothing of the
/// runtime.
pub proof fn missing_account_fails(
    program_id: Seq<u8>,
    accounts: Seq<AccountHandle>,
    data: Seq<u8>,
)
    requires
        decode_instruction(data) is Some,
        accounts.len() < 3,
    ensures
        start(program_id, accounts, data) == StateView::Failed(BarcodeError::MissingAccount),
        asks(start(program_id, accounts, data), Request::Halt),
{
}

/// An instruction that decodes and has its accounts fails with
/// `MissingSignature` when the funding account did not sign.
pub proof fn missing_signature_fails(
    program_id: Seq<u8>,
    accounts: Seq<AccountHandle>,
    data: Seq<u8>,
)
    requires
        decode_instruction(data) is Some,
        accounts.len() >= 3,
        !accounts[0].is_signer,
    ensures
        start(program_id, accounts, data) == StateView::Failed(BarcodeError::MissingSignature),
        asks(start(program_id, accounts, data), Request::Halt),
{
}

/// An instruction that decodes, has its accounts and is signed fails with
/// `UnauthorizedOwner` when a program other than the base system program
/// controls the funding account.
pub proof fn unauthorized_owner_fails(
    program_id: Seq<u8>,
    accounts: Seq<AccountHandle>,
    data: Seq<u8>,
)
    requires
        decode_instruction(data) is Some,
        accounts.len() >= 3,
        accounts[0].is_signer,
        accounts[0].owner@ != system_identity(),
    ensures
        start(program_id, accounts, data) == StateView::Failed(BarcodeError::UnauthorizedOwner),
        asks(start(program_id, accounts, data), Request::Halt),
{
}

/// An instruction that decodes and whose accounts pass the validation is
/// carried out: the record is the encoding of the entry that the funding
/// account owns, it decodes to that entry, and the first request is for the
/// minimum balance.
pub proof fn valid_instruction_executes(
    program_id: Seq<u8>,
    accounts: Seq<AccountHandle>,
    data: Seq<u8>,
    details: ProductDetailsView,
    barcode: Seq<char>,
)
    requires
        decode_instruction(data) == Some(
            BarcodeInstructionView::CreateBarcodeItem { details, barcode },
        ),
        validation(accounts) is Ok,
    ensures
        start(program_id, accounts, data) matches StateView::Executing(e) && {
            &&& e.program_id == program_id
            &&& e.funding == accounts[0].key@
            &&& e.target == accounts[1].key@
            &&& e.step == Step::Funding
            &&& e.record == entry_for(accounts, details, barcode).encoding()
            &&& decode_entry(e.record) == Some(entry_for(accounts, details, barcode))
        },
{
    instruction_decode_is_inverse(
        data,
        BarcodeInstructionView::CreateBarcodeItem { details, barcode },
    );
    entry_round_trip(entry_for(accounts, details, barcode));
}

} // verus!
