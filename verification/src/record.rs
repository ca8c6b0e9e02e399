//! The two records of the ledger and their stored form.
//!
//! An [`Account`] is stored as one integer field, a [`TokenInfo`] as two text
//! fields and one integer field, in the order of their declaration. A record
//! is recognised in a buffer only if it fills the buffer to its last byte.
//!
//! A slot has no mark that tells whether a record was ever stored in it. A
//! buffer in which no record is recognised counts as unwritten if it holds
//! nothing but zeros or is shorter than any record of the kind, and stands
//! for the default record then. Every other such buffer is corrupt.

use crate::error::LedgerError;
use crate::wire::{
    integer_field, lemma_take_written_integer, lemma_take_written_text,
    lemma_written_taken_integer, lemma_written_taken_text, lemma_zero_integer_field, read_integer,
    read_text, take_integer, take_text, text_field, text_fits, write_integer, write_text,
};
use vstd::prelude::*;
use vstd::utf8::encode_utf8;

verus! {

/// The balance of one holder.
#[derive(Clone, Copy, Debug, PartialEq, Eq, Structural)]
pub struct Account {
    pub balance: u64,
}

/// The asset as a whole: what it is called and how much of it exists.
#[derive(Clone, Debug, PartialEq, Eq)]
pub struct TokenInfo {
    pub name: String,
    pub symbol: String,
    pub total_supply: u64,
}

/// A [`TokenInfo`] with its texts as sequences of characters.
pub struct TokenInfoView {
    pub name: Seq<char>,
    pub symbol: Seq<char>,
    pub total_supply: u64,
}

impl View for TokenInfo {
    type V = TokenInfoView;

    open spec fn view(&self) -> TokenInfoView {
        TokenInfoView { name: self.name@, symbol: self.symbol@, total_supply: self.total_supply }
    }
}

/// The stored size of an [`Account`].
pub const ACCOUNT_LEN: usize = 8;

/// The stored size of the smallest [`TokenInfo`], one with two empty texts.
pub const TOKEN_INFO_MIN_LEN: usize = 16;

/// Whether every byte is zero, as in a buffer that was handed out and never
/// written.
pub open spec fn all_zero(bytes: Seq<u8>) -> bool {
    forall|i: int| 0 <= i < bytes.len() ==> bytes[i] == 0
}

/// Whether a buffer in which no record was recognised holds none at all: it
/// is too short for any record of the kind, whose smallest takes `least`
/// bytes, or it has never been written.
pub open spec fn unwritten(bytes: Seq<u8>, least: nat) -> bool {
    bytes.len() < least || all_zero(bytes)
}

/// The record of a wallet that has not been written yet.
pub open spec fn default_account() -> Account {
    Account { balance: 0 }
}

/// The record of an asset that has not been written yet.
pub open spec fn default_token_info() -> TokenInfoView {
    TokenInfoView { name: "Tether"@, symbol: "USDT"@, total_supply: 0 }
}

impl Account {
    /// The stored form of the record.
    pub open spec fn wire(self) -> Seq<u8> {
        integer_field(self.balance)
    }

    /// The record that `bytes` is the stored form of, if it is one.
    pub open spec fn parse(bytes: Seq<u8>) -> Option<Account> {
        match take_integer(bytes) {
            Some((balance, rest)) => if rest.len() == 0 {
                Some(Account { balance })
            } else {
                None
            },
            None => None,
        }
    }

    /// The record that a slot with the content `bytes` stands for: the one
    /// stored in it, the default one if nothing was stored yet, and otherwise
    /// none.
    pub open spec fn load(bytes: Seq<u8>) -> Result<Account, LedgerError> {
        match Account::parse(bytes) {
            Some(account) => Ok(account),
            None => if unwritten(bytes, ACCOUNT_LEN as nat) {
                Ok(default_account())
            } else {
                Err(LedgerError::CorruptRecord)
            },
        }
    }
}

impl TokenInfoView {
    /// Whether both texts are short enough to be stored.
    pub open spec fn storable(self) -> bool {
        text_fits(self.name) && text_fits(self.symbol)
    }

    /// The stored form of the record.
    pub open spec fn wire(self) -> Seq<u8> {
        text_field(self.name) + text_field(self.symbol) + integer_field(self.total_supply)
    }

    /// The record that `bytes` is the stored form of, if it is one.
    pub open spec fn parse(bytes: Seq<u8>) -> Option<TokenInfoView> {
        match take_text(bytes) {
            Some((name, behind_name)) => match take_text(behind_name) {
                Some((symbol, behind_symbol)) => match take_integer(behind_symbol) {
                    Some((total_supply, rest)) => if rest.len() == 0 {
                        Some(TokenInfoView { name, symbol, total_supply })
                    } else {
                        None
                    },
                    None => None,
                },
                None => None,
            },
            None => None,
        }
    }

    /// The record that a slot with the content `bytes` stands for: the one
    /// stored in it, the default one if nothing was stored yet, and otherwise
    /// none.
    pub open spec fn load(bytes: Seq<u8>) -> Result<TokenInfoView, LedgerError> {
        match TokenInfoView::parse(bytes) {
            Some(info) => Ok(info),
            None => if unwritten(bytes, TOKEN_INFO_MIN_LEN as nat) {
                Ok(default_token_info())
            } else {
                Err(LedgerError::CorruptRecord)
            },
        }
    }
}

/// The record of a wallet that has not been written yet: an empty balance.
pub fn init_account() -> (account: Account)
    ensures
        account == default_account(),
{
    Account { balance: 0 }
}

/// The record of an asset that has not been written yet: the asset's fixed
/// name and symbol, and nothing in supply.
pub fn init_token_info() -> (info: TokenInfo)
    ensures
        info@ == default_token_info(),
{
    TokenInfo { name: "Tether".to_owned(), symbol: "USDT".to_owned(), total_supply: 0 }
}

/// Tells whether every byte of `bytes` is zero.
pub fn is_all_zero(bytes: &[u8]) -> (zero: bool)
    ensures
        zero == all_zero(bytes@),
{
    let mut i: usize = 0;
    while i < bytes.len()
        invariant
            i <= bytes.len(),
            forall|k: int| 0 <= k < i ==> bytes@[k] == 0,
        decreases bytes.len() - i,
    {
        if bytes[i] != 0 {
            return false;
        }
        i += 1;
    }
    true
}

impl Account {
    /// Encodes the record. The result always has [`ACCOUNT_LEN`] bytes.
    pub fn encode(&self) -> (bytes: Vec<u8>)
        ensures
            bytes@ == self.wire(),
            bytes@.len() == ACCOUNT_LEN,
    {
        proof {
            vstd::bytes::lemma_auto_spec_u64_to_from_le_bytes();
        }
        write_integer(self.balance).unwrap()
    }

    /// Decodes a record that fills `bytes` exactly.
    pub fn decode(bytes: &[u8]) -> (r: Option<Account>)
        ensures
            r == Account::parse(bytes@),
    {
        match read_integer(bytes) {
            Some((balance, rest)) => if rest.len() == 0 {
                Some(Account { balance })
            } else {
                None
            },
            None => None,
        }
    }

    /// Reads the record of a slot. Bytes that are exactly a record give that
    /// record. Of the others, those that are all zero or fewer than
    /// [`ACCOUNT_LEN`] give the default record, since nothing was stored in
    /// them yet, and the rest is refused as [`LedgerError::CorruptRecord`].
    pub fn decode_or_init(bytes: &[u8]) -> (r: Result<Account, LedgerError>)
        ensures
            r == Account::load(bytes@),
    {
        match Account::decode(bytes) {
            Some(account) => Ok(account),
            None => if bytes.len() < ACCOUNT_LEN || is_all_zero(bytes) {
                Ok(init_account())
            } else {
                Err(LedgerError::CorruptRecord)
            },
        }
    }
}

impl TokenInfo {
    /// Encodes the record, unless one of its texts is too long for its length
    /// to be stored in front of it. The result has [`TOKEN_INFO_MIN_LEN`]
    /// bytes and those of the two texts.
    pub fn encode(&self) -> (r: Option<Vec<u8>>)
        ensures
            match r {
                Some(bytes) => {
                    &&& self@.storable()
                    &&& bytes@ == self@.wire()
                    &&& bytes@.len() == TOKEN_INFO_MIN_LEN + encode_utf8(self@.name).len()
                        + encode_utf8(self@.symbol).len()
                },
                None => !self@.storable(),
            },
    {
        proof {
            if self@.storable() {
                lemma_token_info_round_trip(self@);
            }
        }
        let name = write_text(&self.name);
        let symbol = write_text(&self.symbol);
        match (name, symbol) {
            (Some(mut bytes), Some(mut symbol)) => {
                let mut supply = write_integer(self.total_supply).unwrap();
                bytes.append(&mut symbol);
                bytes.append(&mut supply);
                Some(bytes)
            },
            _ => None,
        }
    }

    /// Decodes a record that fills `bytes` exactly.
    pub fn decode(bytes: &[u8]) -> (r: Option<TokenInfo>)
        ensures
            match r {
                Some(info) => TokenInfoView::parse(bytes@) == Some(info@),
                None => TokenInfoView::parse(bytes@) is None,
            },
    {
        let (name, behind_name) = match read_text(bytes) {
            Some(field) => field,
            None => { return None; },
        };
        let (symbol, behind_symbol) = match read_text(behind_name) {
            Some(field) => field,
            None => { return None; },
        };
        let (total_supply, rest) = match read_integer(behind_symbol) {
            Some(field) => field,
            None => { return None; },
        };
        if rest.len() == 0 {
            Some(TokenInfo { name, symbol, total_supply })
        } else {
            None
        }
    }

    /// Reads the record of a slot. Bytes that are exactly a record give that
    /// record. Of the others, those that are all zero or fewer than
    /// [`TOKEN_INFO_MIN_LEN`] give the default record, since nothing was
    /// stored in them yet, and the rest is refused as
    /// [`LedgerError::CorruptRecord`].
    pub fn decode_or_init(bytes: &[u8]) -> (r: Result<TokenInfo, LedgerError>)
        ensures
            match r {
                Ok(info) => TokenInfoView::load(bytes@) == Ok::<TokenInfoView, LedgerError>(info@),
                Err(e) => TokenInfoView::load(bytes@) == Err::<TokenInfoView, LedgerError>(e),
            },
    {
        match TokenInfo::decode(bytes) {
            Some(info) => Ok(info),
            None => if bytes.len() < TOKEN_INFO_MIN_LEN || is_all_zero(bytes) {
                Ok(init_token_info())
            } else {
                Err(LedgerError::CorruptRecord)
            },
        }
    }
}

/// The default token info takes 26 bytes when stored, so its texts are of
/// storable length.
pub proof fn lemma_default_token_info_wire()
    ensures
        default_token_info().storable(),
        default_token_info().wire().len() == 26,
{
    reveal_strlit("Tether");
    reveal_strlit("USDT");
    vstd::utf8::is_ascii_chars_encode_utf8("Tether"@);
    vstd::utf8::is_ascii_chars_encode_utf8("USDT"@);
    lemma_token_info_round_trip(default_token_info());
}

/// Whatever token info a slot stands for, its texts are of storable length.
pub proof fn lemma_loaded_token_info_storable(bytes: Seq<u8>)
    requires
        TokenInfoView::load(bytes) is Ok,
    ensures
        TokenInfoView::load(bytes)->Ok_0.storable(),
{
    if TokenInfoView::parse(bytes) is Some {
        lemma_token_info_decode_encode(bytes);
    } else {
        lemma_default_token_info_wire();
    }
}

/// An account that is encoded and decoded again is the same account.
pub proof fn lemma_account_round_trip(account: Account)
    ensures
        account.wire().len() == ACCOUNT_LEN,
        Account::parse(account.wire()) == Some(account),
        Account::load(account.wire()) == Ok::<Account, LedgerError>(account),
{
    lemma_take_written_integer(account.balance, Seq::empty());
    assert(account.wire() + Seq::<u8>::empty() =~= account.wire());
}

/// Bytes that decode to an account are the encoding of that account, so that
/// decoding, encoding and decoding again ends where it began.
pub proof fn lemma_account_decode_encode(bytes: Seq<u8>)
    requires
        Account::parse(bytes) is Some,
    ensures
        Account::parse(bytes)->0.wire() == bytes,
        Account::parse(Account::parse(bytes)->0.wire()) == Account::parse(bytes),
{
    lemma_written_taken_integer(bytes);
    let (balance, rest) = take_integer(bytes)->0;
    assert(integer_field(balance) + rest =~= integer_field(balance));
}

/// Decoding is the inverse of encoding: bytes decode to an account exactly
/// when they are its encoding.
pub proof fn lemma_account_parse_inverts_wire(bytes: Seq<u8>, account: Account)
    ensures
        Account::parse(bytes) == Some(account) <==> account.wire() == bytes,
{
    if Account::parse(bytes) == Some(account) {
        lemma_account_decode_encode(bytes);
    }
    if account.wire() == bytes {
        lemma_account_round_trip(account);
    }
}

/// A token info with texts of storable length that is encoded and decoded
/// again is the same token info.
pub proof fn lemma_token_info_round_trip(info: TokenInfoView)
    requires
        info.storable(),
    ensures
        info.wire().len() == TOKEN_INFO_MIN_LEN + encode_utf8(info.name).len() + encode_utf8(
            info.symbol,
        ).len(),
        TokenInfoView::parse(info.wire()) == Some(info),
        TokenInfoView::load(info.wire()) == Ok::<TokenInfoView, LedgerError>(info),
{
    let supply = integer_field(info.total_supply);
    let symbol = text_field(info.symbol);
    lemma_take_written_integer(info.total_supply, Seq::empty());
    lemma_take_written_text(info.symbol, supply);
    lemma_take_written_text(info.name, symbol + supply);
    assert(supply + Seq::<u8>::empty() =~= supply);
    assert(info.wire() =~= text_field(info.name) + (symbol + supply));
}

/// Bytes that decode to a token info are the encoding of that token info,
/// whose texts are then of storable length, so that decoding, encoding and
/// decoding again ends where it began.
pub proof fn lemma_token_info_decode_encode(bytes: Seq<u8>)
    requires
        TokenInfoView::parse(bytes) is Some,
    ensures
        TokenInfoView::parse(bytes)->0.storable(),
        TokenInfoView::parse(bytes)->0.wire() == bytes,
        TokenInfoView::parse(TokenInfoView::parse(bytes)->0.wire()) == TokenInfoView::parse(bytes),
{
    lemma_written_taken_text(bytes);
    let (name, behind_name) = take_text(bytes)->0;
    lemma_written_taken_text(behind_name);
    let (symbol, behind_symbol) = take_text(behind_name)->0;
    lemma_written_taken_integer(behind_symbol);
    let (total_supply, rest) = take_integer(behind_symbol)->0;
    assert(integer_field(total_supply) + rest =~= integer_field(total_supply));
    assert(bytes =~= text_field(name) + text_field(symbol) + integer_field(total_supply));
}

/// Whether an account that was written over the front of a buffer is read
/// from the buffer again. It is where it fills the buffer. In a longer
/// buffer, which stood for an account only if it was all zero, it is only
/// where its balance is zero, so that the buffer stays all zero.
pub proof fn lemma_account_written_over(data: Seq<u8>, account: Account)
    requires
        Account::load(data) is Ok,
        data.len() >= ACCOUNT_LEN,
    ensures
        Account::load(account.wire() + data.subrange(ACCOUNT_LEN as int, data.len() as int)) == Ok::<
            Account,
            LedgerError,
        >(account) <==> data.len() == ACCOUNT_LEN || account.balance == 0,
{
    let behind = data.subrange(ACCOUNT_LEN as int, data.len() as int);
    let after = account.wire() + behind;
    lemma_take_written_integer(account.balance, behind);
    lemma_zero_integer_field(account.balance);
    if data.len() == ACCOUNT_LEN {
        assert(after =~= account.wire());
        lemma_account_round_trip(account);
    } else {
        assert(all_zero(data));
        assert(forall|i: int| 0 <= i < behind.len() ==> behind[i] == data[i + ACCOUNT_LEN]);
        if account.balance == 0 {
            assert(all_zero(after));
        } else {
            let i = choose|i: int| 0 <= i < 8 && integer_field(account.balance)[i] != 0;
            assert(after[i] != 0);
        }
    }
}

/// Whether a token info that was written over the front of a buffer is read
/// from the buffer again. It is exactly where it fills the buffer.
pub proof fn lemma_token_info_written_over(data: Seq<u8>, info: TokenInfoView)
    requires
        info.storable(),
        data.len() >= info.wire().len(),
    ensures
        TokenInfoView::load(
            info.wire() + data.subrange(info.wire().len() as int, data.len() as int),
        ) == Ok::<TokenInfoView, LedgerError>(info) <==> data.len() == info.wire().len(),
{
    let behind = data.subrange(info.wire().len() as int, data.len() as int);
    let after = info.wire() + behind;
    lemma_token_info_round_trip(info);
    if data.len() == info.wire().len() {
        assert(after =~= info.wire());
    } else {
        let supply = integer_field(info.total_supply);
        let symbol = text_field(info.symbol);
        lemma_take_written_integer(info.total_supply, behind);
        lemma_take_written_text(info.symbol, supply + behind);
        lemma_take_written_text(info.name, symbol + (supply + behind));
        assert(after =~= text_field(info.name) + (symbol + (supply + behind)));
        assert(TokenInfoView::parse(after) is None);
        if all_zero(after) {
            lemma_default_token_info_first_letter();
            assert(after[4] == 0);
            assert(info.wire()[4] == after[4]);
        }
    }
}

/// The stored form of the default token info has the first letter of its
/// name behind the length of the name.
proof fn lemma_default_token_info_first_letter()
    ensures
        default_token_info().wire().len() == 26,
        default_token_info().wire()[4] == 84,
{
    reveal_strlit("Tether");
    reveal_strlit("USDT");
    vstd::utf8::is_ascii_chars_encode_utf8("Tether"@);
    vstd::utf8::is_ascii_chars_encode_utf8("USDT"@);
    vstd::bytes::lemma_auto_spec_u32_to_from_le_bytes();
    lemma_token_info_round_trip(default_token_info());
    assert("Tether"@[0] == 'T');
}

/// Decoding is the inverse of encoding: bytes decode to a token info exactly
/// when its texts are of storable length and the bytes are its encoding.
pub proof fn lemma_token_info_parse_inverts_wire(bytes: Seq<u8>, info: TokenInfoView)
    ensures
        TokenInfoView::parse(bytes) == Some(info) <==> info.storable() && info.wire() == bytes,
{
    if TokenInfoView::parse(bytes) == Some(info) {
        lemma_token_info_decode_encode(bytes);
    }
    if info.storable() && info.wire() == bytes {
        lemma_token_info_round_trip(info);
    }
}

} // verus!
