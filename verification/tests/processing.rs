use std::collections::HashMap;

use barcode_program::account::AccountHandle;
use barcode_program::error::BarcodeError;
use barcode_program::identity::Identity;
use barcode_program::instruction::{create_time_slot, AccountMeta, InstructionDescriptor};
use barcode_program::processor::{process_instruction, Processor};
use barcode_program::provisioner::{Execution, Reply, Request, State, Step};
use barcode_program::record::{BarcodeEntry, BarcodeInstruction, ProductDetails};
use solana_program::program_error::ProgramError;
use solana_program::program_utils::limited_deserialize;
use solana_program::pubkey::Pubkey;
use solana_program::system_instruction::{self, SystemError, SystemInstruction};

const SYSTEM: [u8; 32] = [0; 32];
const PROGRAM: [u8; 32] = [7; 32];
const FUNDER: [u8; 32] = [1; 32];
const TARGET: [u8; 32] = [2; 32];

fn id(bytes: [u8; 32]) -> Identity {
    Identity { bytes }
}

fn widget() -> ProductDetails {
    ProductDetails {
        name: String::from("Widget"),
        icon: String::from("w.png"),
        price: 9.99f64.to_bits(),
    }
}

fn payload() -> Vec<u8> {
    BarcodeInstruction::CreateBarcodeItem { details: widget(), barcode: String::from("ABC123") }
        .encode()
}

fn expected_entry() -> BarcodeEntry {
    BarcodeEntry { owner: id(FUNDER), product_details: widget(), barcode: String::from("ABC123") }
}

fn handle(key: [u8; 32], owner: [u8; 32], is_signer: bool) -> AccountHandle {
    AccountHandle { key: id(key), owner: id(owner), is_signer }
}

fn good_accounts() -> Vec<AccountHandle> {
    vec![
        handle(FUNDER, SYSTEM, true),
        handle(TARGET, SYSTEM, true),
        handle(SYSTEM, [9; 32], false),
    ]
}

#[derive(Clone, Debug, PartialEq)]
struct Account {
    lamports: u64,
    owner: [u8; 32],
    data: Vec<u8>,
}

/// A ledger in memory that behaves as the system program does on the two
/// instructions that the processor sends.
struct Ledger {
    accounts: HashMap<[u8; 32], Account>,
    lamports_per_byte: u64,
    rent_known: bool,
    refuse_assign: bool,
    creations: usize,
    assignments: usize,
    stores: usize,
    rent_queries: usize,
    funded_with: Option<u64>,
}

impl Ledger {
    fn new(funder_balance: u64) -> Ledger {
        let mut accounts = HashMap::new();
        accounts.insert(FUNDER, Account { lamports: funder_balance, owner: SYSTEM, data: vec![] });
        Ledger {
            accounts,
            lamports_per_byte: 10,
            rent_known: true,
            refuse_assign: false,
            creations: 0,
            assignments: 0,
            stores: 0,
            rent_queries: 0,
            funded_with: None,
        }
    }

    fn account(&self, key: [u8; 32]) -> Account {
        self.accounts.get(&key).cloned().unwrap_or(Account {
            lamports: 0,
            owner: SYSTEM,
            data: vec![],
        })
    }

    fn handles(&self, keys: &[([u8; 32], bool)]) -> Vec<AccountHandle> {
        keys.iter().map(|(key, signer)| handle(*key, self.account(*key).owner, *signer)).collect()
    }

    fn invoke(
        &mut self,
        instruction: &InstructionDescriptor,
        passed: &[AccountHandle],
    ) -> Result<(), ProgramError> {
        assert_eq!(instruction.program_id.bytes, SYSTEM);
        for meta in &instruction.accounts {
            let given = passed.iter().find(|h| h.key == meta.pubkey);
            let given = given.ok_or(ProgramError::NotEnoughAccountKeys)?;
            if meta.is_signer && !given.is_signer {
                return Err(ProgramError::MissingRequiredSignature);
            }
        }
        let decoded: SystemInstruction = limited_deserialize(&instruction.data, 1232)
            .map_err(|_| ProgramError::InvalidInstructionData)?;
        match decoded {
            SystemInstruction::CreateAccount { lamports, space, owner } => {
                self.creations += 1;
                let from = instruction.accounts[0].pubkey.bytes;
                let to = instruction.accounts[1].pubkey.bytes;
                let target = self.account(to);
                if target.lamports > 0 || !target.data.is_empty() || target.owner != SYSTEM {
                    return Err(ProgramError::Custom(SystemError::AccountAlreadyInUse as u32));
                }
                let mut payer = self.account(from);
                if payer.lamports < lamports {
                    return Err(ProgramError::Custom(
                        SystemError::ResultWithNegativeLamports as u32,
                    ));
                }
                payer.lamports -= lamports;
                self.accounts.insert(from, payer);
                self.accounts.insert(
                    to,
                    Account { lamports, owner: owner.to_bytes(), data: vec![0; space as usize] },
                );
                self.funded_with = Some(lamports);
                Ok(())
            }
            SystemInstruction::Assign { owner } => {
                self.assignments += 1;
                if self.refuse_assign {
                    return Err(ProgramError::InvalidAccountOwner);
                }
                let key = instruction.accounts[0].pubkey.bytes;
                let mut account = self.account(key);
                account.owner = owner.to_bytes();
                self.accounts.insert(key, account);
                Ok(())
            }
            _ => Err(ProgramError::InvalidInstructionData),
        }
    }

    fn answer(&mut self, request: Request, accounts: &[AccountHandle]) -> Reply {
        let outcome = match request {
            Request::MinimumBalance { space } => {
                self.rent_queries += 1;
                if !self.rent_known {
                    return Reply::Rejected(ProgramError::UnsupportedSysvar);
                }
                return Reply::MinimumBalance(self.lamports_per_byte * space as u64);
            }
            Request::Invoke { instruction, accounts: positions } => {
                let passed: Vec<AccountHandle> = positions.iter().map(|p| accounts[*p]).collect();
                self.invoke(&instruction, &passed)
            }
            Request::Store { account, bytes } => {
                self.stores += 1;
                let key = accounts[account].key.bytes;
                let mut stored = self.account(key);
                assert_eq!(stored.data.len(), bytes.len());
                stored.data = bytes;
                self.accounts.insert(key, stored);
                Ok(())
            }
            Request::Halt => panic!("nothing was asked"),
        };
        match outcome {
            Ok(()) => Reply::Completed,
            Err(cause) => Reply::Rejected(cause),
        }
    }

    /// Runs one instruction as a transaction: what it changed is undone when
    /// it fails.
    fn run(
        &mut self,
        program: [u8; 32],
        keys: &[([u8; 32], bool)],
        data: &[u8],
    ) -> Result<(), BarcodeError> {
        let before = self.accounts.clone();
        let accounts = self.handles(keys);
        let mut state = process_instruction(&id(program), &accounts, data);
        loop {
            let request = state.request();
            if request == Request::Halt {
                break;
            }
            let reply = self.answer(request, &accounts);
            state = state.resume(reply);
        }
        let outcome = state.outcome().unwrap();
        if outcome.is_err() {
            self.accounts = before;
        }
        outcome
    }

    fn runtime_calls(&self) -> usize {
        self.rent_queries + self.creations + self.assignments + self.stores
    }
}

const KEYS: [([u8; 32], bool); 3] = [(FUNDER, true), (TARGET, true), (SYSTEM, false)];

#[test]
fn barcode_item_is_created() {
    let mut ledger = Ledger::new(1_000_000);
    let record_len = expected_entry().encode().len();
    assert_eq!(ledger.run(PROGRAM, &KEYS, &payload()), Ok(()));
    let target = ledger.account(TARGET);
    assert_eq!(target.owner, PROGRAM);
    assert_eq!(target.data.len(), record_len);
    assert_eq!(BarcodeEntry::decode(&target.data), Ok(expected_entry()));
    assert_eq!(target.lamports, 10 * record_len as u64);
    assert_eq!(ledger.account(FUNDER).lamports, 1_000_000 - 10 * record_len as u64);
    assert_eq!(
        (ledger.rent_queries, ledger.creations, ledger.assignments, ledger.stores),
        (1, 1, 1, 1)
    );
}

#[test]
fn second_creation_fails_and_keeps_the_record() {
    let mut ledger = Ledger::new(1_000_000);
    assert_eq!(ledger.run(PROGRAM, &KEYS, &payload()), Ok(()));
    let stored = ledger.account(TARGET);
    let funder = ledger.account(FUNDER);
    let again = ledger.run(PROGRAM, &KEYS, &payload());
    assert_eq!(
        again,
        Err(BarcodeError::ProvisioningFailed(ProgramError::Custom(
            SystemError::AccountAlreadyInUse as u32
        )))
    );
    assert_eq!(ledger.account(TARGET), stored);
    assert_eq!(ledger.account(FUNDER), funder);
    assert_eq!(ledger.stores, 1);
    assert_eq!(ledger.assignments, 1);
    assert_eq!(ledger.creations, 2);
}

#[test]
fn too_few_accounts_fail_before_any_runtime_call() {
    for n in 0..3 {
        let mut ledger = Ledger::new(1_000_000);
        assert_eq!(ledger.run(PROGRAM, &KEYS[..n], &payload()), Err(BarcodeError::MissingAccount));
        assert_eq!(ledger.runtime_calls(), 0);
        assert_eq!(ledger.account(TARGET).data, Vec::<u8>::new());
    }
}

#[test]
fn unsigned_funding_account_fails() {
    let mut ledger = Ledger::new(1_000_000);
    let keys = [(FUNDER, false), (TARGET, true), (SYSTEM, false)];
    assert_eq!(ledger.run(PROGRAM, &keys, &payload()), Err(BarcodeError::MissingSignature));
    assert_eq!(ledger.runtime_calls(), 0);
}

#[test]
fn program_owned_funding_account_fails() {
    let mut ledger = Ledger::new(1_000_000);
    ledger.accounts.insert(FUNDER, Account { lamports: 1_000_000, owner: [5; 32], data: vec![] });
    assert_eq!(ledger.run(PROGRAM, &KEYS, &payload()), Err(BarcodeError::UnauthorizedOwner));
    assert_eq!(ledger.runtime_calls(), 0);
}

#[test]
fn signature_is_checked_before_the_owner() {
    let accounts =
        vec![handle(FUNDER, [5; 32], false), handle(TARGET, SYSTEM, true), handle(SYSTEM, SYSTEM, false)];
    let state = process_instruction(&id(PROGRAM), &accounts, &payload());
    assert_eq!(state, State::Failed(BarcodeError::MissingSignature));
}

#[test]
fn malformed_data_fails_before_the_accounts_are_looked_at() {
    let mut ledger = Ledger::new(1_000_000);
    assert_eq!(ledger.run(PROGRAM, &KEYS[..1], &[1, 2, 3]), Err(BarcodeError::MalformedData));
    assert_eq!(ledger.run(PROGRAM, &KEYS, &[]), Err(BarcodeError::MalformedData));
    let mut unknown_tag = payload();
    unknown_tag[0] = 1;
    assert_eq!(ledger.run(PROGRAM, &KEYS, &unknown_tag), Err(BarcodeError::MalformedData));
    let mut truncated = payload();
    truncated.pop();
    assert_eq!(ledger.run(PROGRAM, &KEYS, &truncated), Err(BarcodeError::MalformedData));
    assert_eq!(ledger.runtime_calls(), 0);
}

#[test]
fn more_than_three_accounts_are_accepted() {
    let mut ledger = Ledger::new(1_000_000);
    let keys = [(FUNDER, true), (TARGET, true), (SYSTEM, false), ([8; 32], false)];
    assert_eq!(ledger.run(PROGRAM, &keys, &payload()), Ok(()));
    assert_eq!(BarcodeEntry::decode(&ledger.account(TARGET).data), Ok(expected_entry()));
}

#[test]
fn insufficient_funds_fail_and_leave_no_record() {
    let mut ledger = Ledger::new(5);
    assert_eq!(
        ledger.run(PROGRAM, &KEYS, &payload()),
        Err(BarcodeError::ProvisioningFailed(ProgramError::Custom(
            SystemError::ResultWithNegativeLamports as u32
        )))
    );
    assert_eq!(ledger.account(TARGET), Account { lamports: 0, owner: SYSTEM, data: vec![] });
    assert_eq!((ledger.creations, ledger.assignments, ledger.stores), (1, 0, 0));
}

#[test]
fn refused_assignment_leaves_no_record() {
    let mut ledger = Ledger::new(1_000_000);
    ledger.refuse_assign = true;
    assert_eq!(
        ledger.run(PROGRAM, &KEYS, &payload()),
        Err(BarcodeError::ProvisioningFailed(ProgramError::InvalidAccountOwner))
    );
    assert_eq!((ledger.creations, ledger.assignments, ledger.stores), (1, 1, 0));
    assert_eq!(ledger.account(TARGET), Account { lamports: 0, owner: SYSTEM, data: vec![] });
    assert_eq!(ledger.account(FUNDER).lamports, 1_000_000);
}

#[test]
fn unknown_rent_fails_before_the_creation() {
    let mut ledger = Ledger::new(1_000_000);
    ledger.rent_known = false;
    assert_eq!(
        ledger.run(PROGRAM, &KEYS, &payload()),
        Err(BarcodeError::ProvisioningFailed(ProgramError::UnsupportedSysvar))
    );
    assert_eq!((ledger.rent_queries, ledger.creations), (1, 0));
}

#[test]
fn free_storage_is_still_funded_with_one_unit() {
    let mut ledger = Ledger::new(1_000_000);
    ledger.lamports_per_byte = 0;
    assert_eq!(ledger.run(PROGRAM, &KEYS, &payload()), Ok(()));
    assert_eq!(ledger.funded_with, Some(1));
    assert_eq!(ledger.account(TARGET).lamports, 1);
}

fn executing(step: Step) -> State {
    State::Executing(Execution {
        program_id: id(PROGRAM),
        funding: id(FUNDER),
        target: id(TARGET),
        record: expected_entry().encode(),
        step,
    })
}

#[test]
fn a_valid_instruction_waits_for_the_minimum_balance() {
    let state = process_instruction(&id(PROGRAM), &good_accounts(), &payload());
    assert_eq!(state, executing(Step::Funding));
    let record_len = expected_entry().encode().len();
    assert_eq!(record_len, 32 + 10 + 9 + 8 + 10);
    assert_eq!(state.request(), Request::MinimumBalance { space: record_len });
    assert_eq!(state.outcome(), None);
}

#[test]
fn the_processor_decodes_and_dispatches() {
    let program = id(PROGRAM);
    let accounts = good_accounts();
    let data = payload();
    let processor = Processor::new(&program, &accounts, &data);
    assert_eq!(processor.process(), executing(Step::Funding));
    assert_eq!(
        processor.create_barcode_item(widget(), String::from("ABC123")),
        executing(Step::Funding)
    );
    let nobody = Processor::new(&program, &accounts[..2], &data);
    assert_eq!(nobody.process(), State::Failed(BarcodeError::MissingAccount));
    assert_eq!(
        nobody.create_barcode_item(widget(), String::from("ABC123")),
        State::Failed(BarcodeError::MissingAccount)
    );
}

#[test]
fn the_steps_follow_in_order() {
    let s1 = executing(Step::Funding).resume(Reply::MinimumBalance(700));
    assert_eq!(s1, executing(Step::Creating { lamports: 700 }));
    let s2 = s1.resume(Reply::Completed);
    assert_eq!(s2, executing(Step::Assigning));
    let s3 = s2.resume(Reply::Completed);
    assert_eq!(s3, executing(Step::Storing));
    assert_eq!(
        s3.request(),
        Request::Store { account: 1, bytes: expected_entry().encode() }
    );
    let s4 = s3.resume(Reply::Completed);
    assert_eq!(s4, State::Success);
    assert_eq!(s4.request(), Request::Halt);
    assert_eq!(s4.outcome(), Some(Ok(())));
}

#[test]
fn minimum_balance_of_zero_becomes_one() {
    assert_eq!(
        executing(Step::Funding).resume(Reply::MinimumBalance(0)),
        executing(Step::Creating { lamports: 1 })
    );
    assert_eq!(
        executing(Step::Funding).resume(Reply::MinimumBalance(1)),
        executing(Step::Creating { lamports: 1 })
    );
    assert_eq!(
        executing(Step::Funding).resume(Reply::MinimumBalance(u64::MAX)),
        executing(Step::Creating { lamports: u64::MAX })
    );
}

#[test]
fn a_refusal_ends_every_step() {
    for step in [Step::Funding, Step::Creating { lamports: 3 }, Step::Assigning, Step::Storing] {
        let failed = executing(step).resume(Reply::Rejected(ProgramError::InsufficientFunds));
        assert_eq!(
            failed,
            State::Failed(BarcodeError::ProvisioningFailed(ProgramError::InsufficientFunds))
        );
        assert_eq!(failed.request(), Request::Halt);
        assert_eq!(
            failed.outcome(),
            Some(Err(BarcodeError::ProvisioningFailed(ProgramError::InsufficientFunds)))
        );
    }
}

#[test]
fn a_reply_that_does_not_answer_changes_nothing() {
    assert_eq!(executing(Step::Funding).resume(Reply::Completed), executing(Step::Funding));
    for step in [Step::Creating { lamports: 3 }, Step::Assigning, Step::Storing] {
        assert_eq!(executing(step).resume(Reply::MinimumBalance(9)), executing(step));
    }
}

#[test]
fn an_ended_state_stays_as_it_is() {
    for reply in [
        Reply::Completed,
        Reply::MinimumBalance(4),
        Reply::Rejected(ProgramError::InvalidArgument),
    ] {
        assert_eq!(State::Success.resume(reply), State::Success);
    }
    for reply in [
        Reply::Completed,
        Reply::MinimumBalance(4),
        Reply::Rejected(ProgramError::InvalidArgument),
    ] {
        assert_eq!(
            State::Failed(BarcodeError::MissingSignature).resume(reply),
            State::Failed(BarcodeError::MissingSignature)
        );
    }
    assert_eq!(State::Failed(BarcodeError::MalformedData).request(), Request::Halt);
}

#[test]
fn creation_is_the_system_programs_instruction() {
    let record_len = expected_entry().encode().len() as u64;
    let request = executing(Step::Creating { lamports: 4242 }).request();
    let mut data = vec![0u8, 0, 0, 0];
    data.extend_from_slice(&4242u64.to_le_bytes());
    data.extend_from_slice(&record_len.to_le_bytes());
    data.extend_from_slice(&PROGRAM);
    assert_eq!(
        request,
        Request::Invoke {
            instruction: InstructionDescriptor {
                program_id: id(SYSTEM),
                accounts: vec![
                    AccountMeta { pubkey: id(FUNDER), is_signer: true, is_writable: true },
                    AccountMeta { pubkey: id(TARGET), is_signer: true, is_writable: true },
                ],
                data,
            },
            accounts: vec![0, 1, 2],
        }
    );
    let theirs = system_instruction::create_account(
        &Pubkey::new_from_array(FUNDER),
        &Pubkey::new_from_array(TARGET),
        4242,
        record_len,
        &Pubkey::new_from_array(PROGRAM),
    );
    match request {
        Request::Invoke { instruction, .. } => assert_eq!(instruction.data, theirs.data),
        _ => panic!("an invocation was expected"),
    }
}

#[test]
fn assignment_is_the_system_programs_instruction() {
    let request = executing(Step::Assigning).request();
    let mut data = vec![1u8, 0, 0, 0];
    data.extend_from_slice(&PROGRAM);
    assert_eq!(
        request,
        Request::Invoke {
            instruction: InstructionDescriptor {
                program_id: id(SYSTEM),
                accounts: vec![AccountMeta {
                    pubkey: id(TARGET),
                    is_signer: true,
                    is_writable: true
                }],
                data,
            },
            accounts: vec![1, 2],
        }
    );
    let theirs = system_instruction::assign(
        &Pubkey::new_from_array(TARGET),
        &Pubkey::new_from_array(PROGRAM),
    );
    match request {
        Request::Invoke { instruction, .. } => assert_eq!(instruction.data, theirs.data),
        _ => panic!("an invocation was expected"),
    }
}

#[test]
fn built_instruction_names_its_accounts() {
    let built =
        create_time_slot(id(PROGRAM), id(FUNDER), id(TARGET), widget(), String::from("ABC123"));
    assert_eq!(built.program_id, id(PROGRAM));
    assert_eq!(
        built.accounts,
        vec![
            AccountMeta { pubkey: id(FUNDER), is_signer: true, is_writable: true },
            AccountMeta { pubkey: id(TARGET), is_signer: true, is_writable: true },
            AccountMeta { pubkey: id(SYSTEM), is_signer: false, is_writable: false },
        ]
    );
    assert_eq!(built.data, payload());
    assert_eq!(
        BarcodeInstruction::decode(&built.data),
        Ok(BarcodeInstruction::CreateBarcodeItem {
            details: widget(),
            barcode: String::from("ABC123")
        })
    );
}

#[test]
fn built_instruction_is_processed() {
    let built =
        create_time_slot(id(PROGRAM), id(FUNDER), id(TARGET), widget(), String::from("ABC123"));
    let keys: Vec<([u8; 32], bool)> =
        built.accounts.iter().map(|m| (m.pubkey.bytes, m.is_signer)).collect();
    let mut ledger = Ledger::new(1_000_000);
    assert_eq!(ledger.run(built.program_id.bytes, &keys, &built.data), Ok(()));
    assert_eq!(BarcodeEntry::decode(&ledger.account(TARGET).data), Ok(expected_entry()));
    assert_eq!(ledger.account(TARGET).owner, PROGRAM);
}
