//! The two operations of the ledger.
//!
//! Each operation works on the first two slots of the list it is given. It
//! checks who controls them, reads their records, does its arithmetic on the
//! records, and only when all of that has succeeded writes the new records
//! back. Whatever fails, no slot is changed.

use crate::error::LedgerError;
use crate::record::{
    lemma_account_round_trip, lemma_account_written_over, lemma_loaded_token_info_storable,
    lemma_token_info_round_trip, lemma_token_info_written_over, Account, TokenInfo,
    TokenInfoView, ACCOUNT_LEN,
};
use crate::slot::{require_authorized, require_owned, slot_views, Identity, Slot, SlotView};
use vstd::prelude::*;

verus! {

/// What minting `amount` makes of the asset's record and of the wallet that
/// receives the tokens: both grow by `amount`, unless one of them would leave
/// the range of a `u64`.
pub open spec fn minted(info: TokenInfoView, wallet: Account, amount: u64) -> Result<
    (TokenInfoView, Account),
    LedgerError,
> {
    if wallet.balance + amount > u64::MAX || info.total_supply + amount > u64::MAX {
        Err(LedgerError::Overflow)
    } else {
        Ok(
            (
                TokenInfoView {
                    name: info.name,
                    symbol: info.symbol,
                    total_supply: (info.total_supply + amount) as u64,
                },
                Account { balance: (wallet.balance + amount) as u64 },
            ),
        )
    }
}

/// What transferring `amount` makes of the two wallets: the sender loses what
/// the receiver gains, unless the sender holds too little or the receiver
/// would leave the range of a `u64`.
pub open spec fn transferred(from: Account, to: Account, amount: u64) -> Result<
    (Account, Account),
    LedgerError,
> {
    if amount > from.balance {
        Err(LedgerError::InsufficientBalance)
    } else if to.balance + amount > u64::MAX {
        Err(LedgerError::Overflow)
    } else {
        Ok(
            (
                Account { balance: (from.balance - amount) as u64 },
                Account { balance: (to.balance + amount) as u64 },
            ),
        )
    }
}

/// The list after the records `first` and `second` were stored in its first
/// two slots, or the refusal of a slot that is too small for its record.
pub open spec fn stored(slots: Seq<SlotView>, first: Seq<u8>, second: Seq<u8>) -> Result<
    Seq<SlotView>,
    LedgerError,
>
    recommends
        slots.len() >= 2,
{
    if slots[0].holds(first.len()) && slots[1].holds(second.len()) {
        Ok(slots.update(0, slots[0].with_record(first)).update(1, slots[1].with_record(second)))
    } else {
        Err(LedgerError::CorruptRecord)
    }
}

/// What [`mint_token`] makes of a list of slots: the list after the operation,
/// or the reason for which it is refused.
pub open spec fn mint_outcome(program_id: Seq<u8>, slots: Seq<SlotView>, amount: u64) -> Result<
    Seq<SlotView>,
    LedgerError,
> {
    if slots.len() < 2 {
        Err(LedgerError::MalformedInstruction)
    } else if slots[0].owner != program_id || slots[1].owner != program_id {
        Err(LedgerError::WrongOwner)
    } else {
        match (TokenInfoView::load(slots[0].data), Account::load(slots[1].data)) {
            (Ok(info), Ok(wallet)) => match minted(info, wallet, amount) {
                Ok((info, wallet)) => stored(slots, info.wire(), wallet.wire()),
                Err(e) => Err(e),
            },
            _ => Err(LedgerError::CorruptRecord),
        }
    }
}

/// What [`transfer_token`] makes of a list of slots: the list after the
/// operation, or the reason for which it is refused.
pub open spec fn transfer_outcome(program_id: Seq<u8>, slots: Seq<SlotView>, amount: u64) -> Result<
    Seq<SlotView>,
    LedgerError,
> {
    if slots.len() < 2 {
        Err(LedgerError::MalformedInstruction)
    } else if slots[0].owner != program_id || slots[1].owner != program_id {
        Err(LedgerError::WrongOwner)
    } else if !slots[0].is_signer {
        Err(LedgerError::MissingAuthorization)
    } else {
        match (Account::load(slots[0].data), Account::load(slots[1].data)) {
            (Ok(from), Ok(to)) => match transferred(from, to, amount) {
                Ok((from, to)) => stored(slots, from.wire(), to.wire()),
                Err(e) => Err(e),
            },
            _ => Err(LedgerError::CorruptRecord),
        }
    }
}

/// Mints `amount` in memory: adds it to the total supply and to the balance
/// of the receiving wallet.
pub fn mint(info: TokenInfo, wallet: Account, amount: u64) -> (r: Result<
    (TokenInfo, Account),
    LedgerError,
>)
    ensures
        match r {
            Ok((new_info, new_wallet)) => minted(info@, wallet, amount) == Ok::<
                (TokenInfoView, Account),
                LedgerError,
            >((new_info@, new_wallet)),
            Err(e) => minted(info@, wallet, amount) == Err::<(TokenInfoView, Account), LedgerError>(
                e,
            ),
        },
{
    let balance = match wallet.balance.checked_add(amount) {
        Some(sum) => sum,
        None => { return Err(LedgerError::Overflow); },
    };
    let total_supply = match info.total_supply.checked_add(amount) {
        Some(sum) => sum,
        None => { return Err(LedgerError::Overflow); },
    };
    Ok((TokenInfo { name: info.name, symbol: info.symbol, total_supply }, Account { balance }))
}

/// Transfers `amount` in memory: takes it from the balance of `from` and adds
/// it to the balance of `to`.
pub fn transfer(from: Account, to: Account, amount: u64) -> (r: Result<
    (Account, Account),
    LedgerError,
>)
    ensures
        r == transferred(from, to, amount),
{
    let debited = match from.balance.checked_sub(amount) {
        Some(difference) => difference,
        None => { return Err(LedgerError::InsufficientBalance); },
    };
    let credited = match to.balance.checked_add(amount) {
        Some(sum) => sum,
        None => { return Err(LedgerError::Overflow); },
    };
    Ok((Account { balance: debited }, Account { balance: credited }))
}

/// Stores `first` and `second` in the first two slots, or neither of them if
/// one of the slots is too small for its record.
fn store_both(slots: &mut Vec<Slot>, first: &[u8], second: &[u8]) -> (r: Result<(), LedgerError>)
    requires
        old(slots)@.len() >= 2,
    ensures
        match stored(slot_views(old(slots)@), first@, second@) {
            Ok(after) => r is Ok && slot_views(final(slots)@) == after,
            Err(e) => r == Err::<(), LedgerError>(e) && final(slots)@ == old(slots)@,
        },
{
    if second.len() > slots[1].data.len() {
        return Err(LedgerError::CorruptRecord);
    }
    let r = slots[0].store(first);
    if r.is_err() {
        assert(slots@ =~= old(slots)@);
        return r;
    }
    let r = slots[1].store(second);
    assert(slot_views(slots@) =~= stored(slot_views(old(slots)@), first@, second@)->Ok_0);
    r
}

/// Mints `amount` of the asset whose record is in the first slot into the
/// wallet in the second. Both slots must be controlled by `program_id`.
pub fn mint_token(program_id: &Identity, slots: &mut Vec<Slot>, amount: u64) -> (r: Result<
    (),
    LedgerError,
>)
    ensures
        match mint_outcome(program_id@, slot_views(old(slots)@), amount) {
            Ok(after) => r is Ok && slot_views(final(slots)@) == after,
            Err(e) => r == Err::<(), LedgerError>(e) && final(slots)@ == old(slots)@,
        },
{
    if slots.len() < 2 {
        return Err(LedgerError::MalformedInstruction);
    }
    require_owned(&slots[0], program_id)?;
    require_owned(&slots[1], program_id)?;
    let info = TokenInfo::decode_or_init(slots[0].data.as_slice())?;
    let wallet = Account::decode_or_init(slots[1].data.as_slice())?;
    let (info, wallet) = mint(info, wallet, amount)?;
    proof {
        lemma_loaded_token_info_storable(slots@[0]@.data);
    }
    let wallet_bytes = wallet.encode();
    let info_bytes = info.encode().unwrap();
    store_both(slots, info_bytes.as_slice(), wallet_bytes.as_slice())
}

/// Transfers `amount` from the wallet in the first slot to the wallet in the
/// second. Both slots must be controlled by `program_id`, and the controller
/// of the first must have authorized the operation.
pub fn transfer_token(program_id: &Identity, slots: &mut Vec<Slot>, amount: u64) -> (r: Result<
    (),
    LedgerError,
>)
    ensures
        match transfer_outcome(program_id@, slot_views(old(slots)@), amount) {
            Ok(after) => r is Ok && slot_views(final(slots)@) == after,
            Err(e) => r == Err::<(), LedgerError>(e) && final(slots)@ == old(slots)@,
        },
{
    if slots.len() < 2 {
        return Err(LedgerError::MalformedInstruction);
    }
    require_owned(&slots[0], program_id)?;
    require_owned(&slots[1], program_id)?;
    require_authorized(&slots[0])?;
    let from = Account::decode_or_init(slots[0].data.as_slice())?;
    let to = Account::decode_or_init(slots[1].data.as_slice())?;
    let (from, to) = transfer(from, to, amount)?;
    let from_bytes = from.encode();
    let to_bytes = to.encode();
    store_both(slots, from_bytes.as_slice(), to_bytes.as_slice())
}

/// Minting adds the amount to the balance of the wallet and to the total
/// supply. It is refused as an overflow exactly when one of the two sums
/// leaves the range of a `u64`; otherwise it succeeds wherever the two slots
/// have room for their records. The new records are then at the front of
/// their slots. A slot that its record fills is read as that record. A larger
/// slot is not, but for a wallet that is still empty.
pub proof fn lemma_mint_adds_amount(
    program_id: Seq<u8>,
    slots: Seq<SlotView>,
    amount: u64,
    info: TokenInfoView,
    wallet: Account,
)
    requires
        slots.len() >= 2,
        slots[0].owner == program_id,
        slots[1].owner == program_id,
        TokenInfoView::load(slots[0].data) == Ok::<TokenInfoView, LedgerError>(info),
        Account::load(slots[1].data) == Ok::<Account, LedgerError>(wallet),
    ensures
        mint_outcome(program_id, slots, amount) == Err::<Seq<SlotView>, LedgerError>(
            LedgerError::Overflow,
        ) <==> wallet.balance + amount > u64::MAX || info.total_supply + amount > u64::MAX,
        wallet.balance + amount <= u64::MAX && info.total_supply + amount <= u64::MAX ==> ({
            let new_info = TokenInfoView {
                name: info.name,
                symbol: info.symbol,
                total_supply: (info.total_supply + amount) as u64,
            };
            let new_wallet = Account { balance: (wallet.balance + amount) as u64 };
            let room = slots[0].holds(new_info.wire().len()) && slots[1].holds(ACCOUNT_LEN as nat);
            &&& new_info.wire().len() == info.wire().len()
            &&& match mint_outcome(program_id, slots, amount) {
                Ok(after) => {
                    &&& room
                    &&& after.len() == slots.len()
                    &&& after[0] == slots[0].with_record(new_info.wire())
                    &&& after[1] == slots[1].with_record(new_wallet.wire())
                    &&& forall|i: int| 2 <= i < slots.len() ==> after[i] == slots[i]
                    &&& TokenInfoView::load(after[0].data) == Ok::<TokenInfoView, LedgerError>(
                        new_info,
                    ) <==> slots[0].data.len() == new_info.wire().len()
                    &&& Account::load(after[1].data) == Ok::<Account, LedgerError>(new_wallet)
                        <==> slots[1].data.len() == ACCOUNT_LEN || new_wallet.balance == 0
                },
                Err(e) => !room && e == LedgerError::CorruptRecord,
            }
        }),
{
    if wallet.balance + amount <= u64::MAX && info.total_supply + amount <= u64::MAX {
        let new_info = TokenInfoView {
            name: info.name,
            symbol: info.symbol,
            total_supply: (info.total_supply + amount) as u64,
        };
        let new_wallet = Account { balance: (wallet.balance + amount) as u64 };
        lemma_loaded_token_info_storable(slots[0].data);
        lemma_token_info_round_trip(info);
        lemma_token_info_round_trip(new_info);
        lemma_account_round_trip(new_wallet);
        if slots[0].holds(new_info.wire().len()) && slots[1].holds(ACCOUNT_LEN as nat) {
            lemma_token_info_written_over(slots[0].data, new_info);
            lemma_account_written_over(slots[1].data, new_wallet);
        }
    }
}

/// A transfer that succeeds takes the amount from the sender and gives it to
/// the receiver, so that the two balances together are what they were. The
/// new records are at the front of their slots. A slot that its record fills
/// is read as that record. A larger slot is not, but for a wallet that is
/// still empty.
pub proof fn lemma_transfer_conserves(program_id: Seq<u8>, slots: Seq<SlotView>, amount: u64)
    requires
        transfer_outcome(program_id, slots, amount) is Ok,
    ensures
        ({
            let after = transfer_outcome(program_id, slots, amount)->Ok_0;
            &&& Account::load(slots[0].data) matches Ok(from)
            &&& Account::load(slots[1].data) matches Ok(to)
            &&& transferred(from, to, amount) matches Ok((new_from, new_to))
            &&& new_from.balance == from.balance - amount
            &&& new_to.balance == to.balance + amount
            &&& new_from.balance + new_to.balance == from.balance + to.balance
            &&& after.len() == slots.len()
            &&& after[0] == slots[0].with_record(new_from.wire())
            &&& after[1] == slots[1].with_record(new_to.wire())
            &&& forall|i: int| 2 <= i < slots.len() ==> after[i] == slots[i]
            &&& Account::load(after[0].data) == Ok::<Account, LedgerError>(new_from)
                <==> slots[0].data.len() == ACCOUNT_LEN || new_from.balance == 0
            &&& Account::load(after[1].data) == Ok::<Account, LedgerError>(new_to)
                <==> slots[1].data.len() == ACCOUNT_LEN || new_to.balance == 0
        }),
{
    let from = Account::load(slots[0].data)->Ok_0;
    let to = Account::load(slots[1].data)->Ok_0;
    let (new_from, new_to) = transferred(from, to, amount)->Ok_0;
    lemma_account_round_trip(new_from);
    lemma_account_round_trip(new_to);
    lemma_account_written_over(slots[0].data, new_from);
    lemma_account_written_over(slots[1].data, new_to);
}

/// Between two slots of the program whose records can be read, and with the
/// sender's authorization, a transfer is refused for want of balance exactly
/// when the amount is more than the sender holds.
pub proof fn lemma_transfer_needs_balance(
    program_id: Seq<u8>,
    slots: Seq<SlotView>,
    amount: u64,
    from: Account,
)
    requires
        slots.len() >= 2,
        slots[0].owner == program_id,
        slots[1].owner == program_id,
        slots[0].is_signer,
        Account::load(slots[0].data) == Ok::<Account, LedgerError>(from),
        Account::load(slots[1].data) is Ok,
    ensures
        transfer_outcome(program_id, slots, amount) == Err::<Seq<SlotView>, LedgerError>(
            LedgerError::InsufficientBalance,
        ) <==> amount > from.balance,
{
}

/// Where one of the two slots that an operation works on is controlled by
/// another identity, the operation is refused for that reason, whatever else
/// holds of the slots and of the amount.
pub proof fn lemma_wrong_owner_refused(program_id: Seq<u8>, slots: Seq<SlotView>, amount: u64)
    requires
        slots.len() >= 2,
        slots[0].owner != program_id || slots[1].owner != program_id,
    ensures
        mint_outcome(program_id, slots, amount) == Err::<Seq<SlotView>, LedgerError>(
            LedgerError::WrongOwner,
        ),
        transfer_outcome(program_id, slots, amount) == Err::<Seq<SlotView>, LedgerError>(
            LedgerError::WrongOwner,
        ),
{
}

} // verus!
