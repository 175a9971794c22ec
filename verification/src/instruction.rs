//! Instruction descriptors: what is handed to the runtime, or to a client, to
//! have a program run.

use vstd::prelude::*;
use crate::identity::{system_identity, Identity};
use crate::record::{BarcodeInstruction, BarcodeInstructionView, ProductDetails};
use crate::wire::text_fits;

verus! {

/// How an instruction uses one account.
#[derive(Debug, Clone, Copy, PartialEq)]
pub struct AccountMeta {
    pub pubkey: Identity,
    /// Whether the account must sign the transaction.
    pub is_signer: bool,
    /// Whether the instruction may change the account.
    pub is_writable: bool,
}

/// An instruction, ready to be submitted: the program that runs it, the
/// accounts it uses, and its payload.
#[derive(Debug, Clone, PartialEq)]
pub struct InstructionDescriptor {
    pub program_id: Identity,
    pub accounts: Vec<AccountMeta>,
    pub data: Vec<u8>,
}

/// `m` names the account `key` with the given flags.
pub open spec fn meta_is(m: AccountMeta, key: Seq<u8>, is_signer: bool, is_writable: bool) -> bool {
    &&& m.pubkey@ == key
    &&& m.is_signer == is_signer
    &&& m.is_writable == is_writable
}

/// The payload of the system program's instruction that creates an account,
/// as `solana_program::system_instruction::create_account` serialises it.
pub uninterp spec fn create_account_data(
    from: Seq<u8>,
    to: Seq<u8>,
    lamports: u64,
    space: u64,
    owner: Seq<u8>,
) -> Seq<u8>;

/// The payload of the system program's instruction that assigns an account
/// to a program, as `solana_program::system_instruction::assign` serialises
/// it.
pub uninterp spec fn assign_data(account: Seq<u8>, owner: Seq<u8>) -> Seq<u8>;

/// `ix` asks the system program to create the account `to`, funded by `from`
/// with `lamports`, holding `space` bytes and controlled by `owner`. Both
/// accounts are writable and sign.
pub open spec fn is_create_account(
    ix: InstructionDescriptor,
    from: Seq<u8>,
    to: Seq<u8>,
    lamports: u64,
    space: u64,
    owner: Seq<u8>,
) -> bool {
    &&& ix.program_id@ == system_identity()
    &&& ix.accounts@.len() == 2
    &&& meta_is(ix.accounts@[0], from, true, true)
    &&& meta_is(ix.accounts@[1], to, true, true)
    &&& ix.data@ == create_account_data(from, to, lamports, space, owner)
}

/// `ix` asks the system program to hand the account `account`, which is
/// writable and signs, to the program `owner`.
pub open spec fn is_assign(ix: InstructionDescriptor, account: Seq<u8>, owner: Seq<u8>) -> bool {
    &&& ix.program_id@ == system_identity()
    &&& ix.accounts@.len() == 1
    &&& meta_is(ix.accounts@[0], account, true, true)
    &&& ix.data@ == assign_data(account, owner)
}

/// `solana_program::system_instruction::create_account`: the instruction is
/// addressed to the system program, names the funding account and the new
/// account as writable signers, and carries the payload that the function
/// serialises from its arguments.
#[verifier::external_body]
pub(crate) fn system_create_account(
    from: &Identity,
    to: &Identity,
    lamports: u64,
    space: u64,
    owner: &Identity,
) -> (r: InstructionDescriptor)
    ensures
        r.program_id@ == system_identity(),
        r.accounts@.len() == 2,
        meta_is(r.accounts@[0], from@, true, true),
        meta_is(r.accounts@[1], to@, true, true),
        r.data@ == create_account_data(from@, to@, lamports, space, owner@),
{
    let ix = solana_program::system_instruction::create_account(
        &solana_program::pubkey::Pubkey::new_from_array(from.bytes),
        &solana_program::pubkey::Pubkey::new_from_array(to.bytes),
        lamports,
        space,
        &solana_program::pubkey::Pubkey::new_from_array(owner.bytes),
    );
    let accounts = ix.accounts.iter().map(|m| AccountMeta {
        pubkey: Identity { bytes: m.pubkey.to_bytes() },
        is_signer: m.is_signer,
        is_writable: m.is_writable,
    }).collect();
    InstructionDescriptor { program_id: Identity { bytes: ix.program_id.to_bytes() }, accounts, data: ix.data }
}

/// `solana_program::system_instruction::assign`: the instruction is addressed
/// to the system program, names the account as a writable signer, and carries
/// the payload that the function serialises from its arguments.
#[verifier::external_body]
pub(crate) fn system_assign(account: &Identity, owner: &Identity) -> (r: InstructionDescriptor)
    ensures
        r.program_id@ == system_identity(),
        r.accounts@.len() == 1,
        meta_is(r.accounts@[0], account@, true, true),
        r.data@ == assign_data(account@, owner@),
{
    let ix = solana_program::system_instruction::assign(
        &solana_program::pubkey::Pubkey::new_from_array(account.bytes),
        &solana_program::pubkey::Pubkey::new_from_array(owner.bytes),
    );
    let accounts = ix.accounts.iter().map(|m| AccountMeta {
        pubkey: Identity { bytes: m.pubkey.to_bytes() },
        is_signer: m.is_signer,
        is_writable: m.is_writable,
    }).collect();
    InstructionDescriptor { program_id: Identity { bytes: ix.program_id.to_bytes() }, accounts, data: ix.data }
}

/// The instruction that creates a barcode entry.
///
/// `program_id` is the barcode program, `owner_account` funds the entry and
/// becomes its owner, `barcode_account` is the account, not yet allocated, that
/// will hold it. Nothing is checked here but that the payload can be written.
pub fn create_time_slot(
    program_id: Identity,
    owner_account: Identity,
    barcode_account: Identity,
    product_details: ProductDetails,
    meeting_id: String,
) -> (r: InstructionDescriptor)
    requires
        product_details@.wf(),
        text_fits(meeting_id@),
    ensures
        r.program_id == program_id,
        r.accounts@.len() == 3,
        meta_is(r.accounts@[0], owner_account@, true, true),
        meta_is(r.accounts@[1], barcode_account@, true, true),
        meta_is(r.accounts@[2], system_identity(), false, false),
        r.data@ == (BarcodeInstructionView::CreateBarcodeItem {
            details: product_details@,
            barcode: meeting_id@,
        }).encoding(),
{
    let mut accounts: Vec<AccountMeta> = Vec::new();
    accounts.push(AccountMeta { pubkey: owner_account, is_signer: true, is_writable: true });
    accounts.push(AccountMeta { pubkey: barcode_account, is_signer: true, is_writable: true });
    accounts.push(
        AccountMeta { pubkey: Identity::system(), is_signer: false, is_writable: false },
    );
    let payload = BarcodeInstruction::CreateBarcodeItem {
        details: product_details,
        barcode: meeting_id,
    };
    let data = payload.encode();
    InstructionDescriptor { program_id, accounts, data }
}

} // verus!
