//! A token ledger that lives in caller-supplied storage slots.
//!
//! Every slot is a byte buffer owned by one controlling identity. The ledger
//! keeps one [`TokenInfo`] record in a holder slot and one [`Account`] record
//! per wallet slot, and offers two operations on them: minting new tokens into
//! a wallet and transferring tokens between two wallets. An operation either
//! succeeds and rewrites the records it touched, or fails with a
//! [`LedgerError`] and leaves every slot as it was.
//!
//! [`process_instruction`] is the way in: it decodes an instruction and hands
//! the slots to the operation that the instruction asks for.

pub mod error;
pub mod instruction;
pub mod ledger;
pub mod record;
pub mod slot;
pub mod wire;

pub use error::LedgerError;
pub use instruction::{decode_instruction, process_instruction, Operation};
pub use ledger::{mint_token, transfer_token};
pub use record::{init_account, init_token_info, Account, TokenInfo};
pub use slot::{Identity, Slot};
