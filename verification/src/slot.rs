//! Storage slots and the checks that guard them.

use crate::error::LedgerError;
use vstd::prelude::*;

verus! {

/// The identity that controls a slot or that an operation is invoked for.
pub type Identity = [u8; 32];

/// A byte buffer of the host, with the identity that controls it and whether
/// that identity has authorized the operation at hand.
#[derive(Clone, Debug, PartialEq, Eq)]
pub struct Slot {
    pub data: Vec<u8>,
    pub owner: Identity,
    pub is_signer: bool,
}

/// A [`Slot`] with its buffer and its owner as sequences of bytes.
pub struct SlotView {
    pub data: Seq<u8>,
    pub owner: Seq<u8>,
    pub is_signer: bool,
}

impl View for Slot {
    type V = SlotView;

    open spec fn view(&self) -> SlotView {
        SlotView { data: self.data@, owner: self.owner@, is_signer: self.is_signer }
    }
}

/// The views of the slots of a list, in their order.
pub open spec fn slot_views(slots: Seq<Slot>) -> Seq<SlotView> {
    slots.map_values(|slot: Slot| slot@)
}

impl SlotView {
    /// Whether the buffer has room for `len` bytes.
    pub open spec fn holds(self, len: nat) -> bool {
        len <= self.data.len()
    }

    /// The slot after `record` was written over the front of its buffer. The
    /// bytes behind the record, the owner and the authorization stay.
    pub open spec fn with_record(self, record: Seq<u8>) -> SlotView {
        SlotView {
            data: record + self.data.subrange(record.len() as int, self.data.len() as int),
            owner: self.owner,
            is_signer: self.is_signer,
        }
    }
}

/// Tells whether two identities are the same.
pub fn same_identity(a: &Identity, b: &Identity) -> (same: bool)
    ensures
        same == (a@ == b@),
{
    let mut i: usize = 0;
    while i < 32
        invariant
            i <= 32,
            forall|k: int| 0 <= k < i ==> a@[k] == b@[k],
        decreases 32 - i,
    {
        if a[i] != b[i] {
            return false;
        }
        i += 1;
    }
    assert(a@ =~= b@);
    true
}

/// Fails with [`LedgerError::WrongOwner`] unless `slot` is controlled by
/// `expected_owner`.
pub fn require_owned(slot: &Slot, expected_owner: &Identity) -> (r: Result<(), LedgerError>)
    ensures
        r == if slot@.owner == expected_owner@ {
            Ok::<(), LedgerError>(())
        } else {
            Err::<(), LedgerError>(LedgerError::WrongOwner)
        },
{
    if same_identity(&slot.owner, expected_owner) {
        Ok(())
    } else {
        Err(LedgerError::WrongOwner)
    }
}

/// Fails with [`LedgerError::MissingAuthorization`] unless the controller of
/// `slot` has authorized the operation.
pub fn require_authorized(slot: &Slot) -> (r: Result<(), LedgerError>)
    ensures
        r == if slot@.is_signer {
            Ok::<(), LedgerError>(())
        } else {
            Err::<(), LedgerError>(LedgerError::MissingAuthorization)
        },
{
    if slot.is_signer {
        Ok(())
    } else {
        Err(LedgerError::MissingAuthorization)
    }
}

/// Copies `record` over the front of `data`.
fn overwrite(data: &mut Vec<u8>, record: &[u8])
    requires
        record@.len() <= old(data)@.len(),
    ensures
        final(data)@ == record@ + old(data)@.subrange(record@.len() as int, old(data)@.len() as int),
{
    let mut i: usize = 0;
    while i < record.len()
        invariant
            i <= record@.len() <= data@.len(),
            data@.len() == old(data)@.len(),
            forall|k: int| 0 <= k < i ==> data@[k] == record@[k],
            forall|k: int| i <= k < data@.len() ==> data@[k] == old(data)@[k],
        decreases record.len() - i,
    {
        data[i] = record[i];
        i += 1;
    }
    assert(data@ =~= record@ + old(data)@.subrange(record@.len() as int, old(data)@.len() as int));
}

impl Slot {
    /// Writes `record` over the front of the buffer and leaves the bytes
    /// behind it as they are. A buffer that is too small for the record is
    /// left alone, and the call fails with [`LedgerError::CorruptRecord`].
    pub fn store(&mut self, record: &[u8]) -> (r: Result<(), LedgerError>)
        ensures
            if old(self)@.holds(record@.len()) {
                r is Ok && final(self)@ == old(self)@.with_record(record@)
            } else {
                r == Err::<(), LedgerError>(LedgerError::CorruptRecord) && *final(self) == *old(
                    self,
                )
            },
    {
        if record.len() <= self.data.len() {
            overwrite(&mut self.data, record);
            Ok(())
        } else {
            Err(LedgerError::CorruptRecord)
        }
    }
}

} // verus!
