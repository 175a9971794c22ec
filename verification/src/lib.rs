//! The instruction processor of a ledger program that stores barcode entries.
//!
//! One instruction is supported: it provisions a fresh account, owned by this
//! program, and writes a single barcode entry into it. The binary layout of
//! instructions and stored entries, the checks on the accounts that come with
//! an instruction, and the order of the requests to the ledger runtime are
//! stated as specifications and proved of the executable code.

pub mod account;
pub mod error;
pub mod identity;
pub mod instruction;
pub mod processor;
pub mod provisioner;
pub mod record;
pub mod wire;

pub use account::{validate_accounts, AccountHandle};
pub use error::BarcodeError;
pub use identity::Identity;
pub use instruction::{create_time_slot, AccountMeta, InstructionDescriptor};
pub use processor::{process_instruction, Processor};
pub use provisioner::{Execution, Reply, Request, State, Step};
pub use record::{BarcodeEntry, BarcodeInstruction, ProductDetails};
