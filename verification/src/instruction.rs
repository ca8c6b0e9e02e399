//! The instruction that selects an operation, and its dispatch.
//!
//! An instruction is one opcode byte followed by the amount as eight bytes,
//! least significant first. Bytes behind the amount are ignored.

use crate::error::LedgerError;
use crate::ledger::{mint_outcome, mint_token, transfer_outcome, transfer_token};
use crate::slot::{slot_views, Identity, Slot, SlotView};
use vstd::bytes::{spec_u64_from_le_bytes, u64_from_le_bytes};
use vstd::prelude::*;
use vstd::slice::slice_subrange;

verus! {

/// The opcode of [`Operation::Mint`].
pub const OPCODE_MINT: u8 = 1;

/// The opcode of [`Operation::Transfer`].
pub const OPCODE_TRANSFER: u8 = 2;

/// The length of an opcode and an amount.
pub const INSTRUCTION_LEN: usize = 9;

/// What an instruction asks for.
#[derive(Clone, Copy, Debug, PartialEq, Eq, Structural)]
pub enum Operation {
    /// Create `amount` new tokens in a wallet.
    Mint { amount: u64 },
    /// Move `amount` tokens from one wallet to another.
    Transfer { amount: u64 },
    /// Do nothing. Every opcode but those of the two operations above asks
    /// for this.
    Nothing,
}

/// The operation that an instruction asks for, if the instruction is long
/// enough to hold an opcode and an amount.
pub open spec fn parse_instruction(data: Seq<u8>) -> Result<Operation, LedgerError> {
    if data.len() < INSTRUCTION_LEN {
        Err(LedgerError::MalformedInstruction)
    } else {
        let amount = spec_u64_from_le_bytes(data.subrange(1, INSTRUCTION_LEN as int));
        if data[0] == OPCODE_MINT {
            Ok(Operation::Mint { amount })
        } else if data[0] == OPCODE_TRANSFER {
            Ok(Operation::Transfer { amount })
        } else {
            Ok(Operation::Nothing)
        }
    }
}

/// What [`process_instruction`] makes of a list of slots: the list after the
/// operation that the instruction asks for, or the reason for which the
/// instruction is refused.
pub open spec fn instruction_outcome(program_id: Seq<u8>, slots: Seq<SlotView>, data: Seq<u8>) -> Result<
    Seq<SlotView>,
    LedgerError,
> {
    match parse_instruction(data) {
        Ok(Operation::Mint { amount }) => mint_outcome(program_id, slots, amount),
        Ok(Operation::Transfer { amount }) => transfer_outcome(program_id, slots, amount),
        Ok(Operation::Nothing) => Ok(slots),
        Err(e) => Err(e),
    }
}

/// Decodes an instruction into the operation that it asks for.
pub fn decode_instruction(data: &[u8]) -> (r: Result<Operation, LedgerError>)
    ensures
        r == parse_instruction(data@),
{
    if data.len() < INSTRUCTION_LEN {
        return Err(LedgerError::MalformedInstruction);
    }
    let opcode = data[0];
    let amount = u64_from_le_bytes(slice_subrange(data, 1, INSTRUCTION_LEN));
    if opcode == OPCODE_MINT {
        Ok(Operation::Mint { amount })
    } else if opcode == OPCODE_TRANSFER {
        Ok(Operation::Transfer { amount })
    } else {
        Ok(Operation::Nothing)
    }
}

/// Decodes `instruction_data` and carries out the operation that it asks for
/// on `slots`, on behalf of `program_id`. The slots are handed on as they
/// are; each operation checks them itself.
pub fn process_instruction(
    program_id: &Identity,
    slots: &mut Vec<Slot>,
    instruction_data: &[u8],
) -> (r: Result<(), LedgerError>)
    ensures
        match instruction_outcome(program_id@, slot_views(old(slots)@), instruction_data@) {
            Ok(after) => r is Ok && slot_views(final(slots)@) == after,
            Err(e) => r == Err::<(), LedgerError>(e) && final(slots)@ == old(slots)@,
        },
        parse_instruction(instruction_data@) == Ok::<Operation, LedgerError>(Operation::Nothing)
            ==> final(slots)@ == old(slots)@,
{
    match decode_instruction(instruction_data)? {
        Operation::Mint { amount } => mint_token(program_id, slots, amount),
        Operation::Transfer { amount } => transfer_token(program_id, slots, amount),
        Operation::Nothing => Ok(()),
    }
}

/// An instruction that asks for minting or for a transfer is refused where
/// one of the two slots that the operation works on is controlled by another
/// identity than the one it is carried out for.
pub proof fn lemma_instruction_needs_owner(program_id: Seq<u8>, slots: Seq<SlotView>, data: Seq<u8>)
    requires
        slots.len() >= 2,
        slots[0].owner != program_id || slots[1].owner != program_id,
        data.len() >= INSTRUCTION_LEN,
        data[0] == OPCODE_MINT || data[0] == OPCODE_TRANSFER,
    ensures
        instruction_outcome(program_id, slots, data) == Err::<Seq<SlotView>, LedgerError>(
            LedgerError::WrongOwner,
        ),
{
}

/// An instruction that is carried out leaves every slot where it is, with
/// its owner, its authorization and the length of its buffer, and changes no
/// buffer but those of the first two slots.
pub proof fn lemma_instruction_keeps_slots(program_id: Seq<u8>, slots: Seq<SlotView>, data: Seq<u8>)
    requires
        instruction_outcome(program_id, slots, data) is Ok,
    ensures
        ({
            let after = instruction_outcome(program_id, slots, data)->Ok_0;
            &&& after.len() == slots.len()
            &&& forall|i: int|
                0 <= i < slots.len() ==> {
                    &&& (#[trigger] after[i]).owner == slots[i].owner
                    &&& after[i].is_signer == slots[i].is_signer
                    &&& after[i].data.len() == slots[i].data.len()
                }
            &&& forall|i: int| 2 <= i < slots.len() ==> #[trigger] after[i] == slots[i]
        }),
{
}

} // verus!
