use token_ledger::record::{is_all_zero, ACCOUNT_LEN, TOKEN_INFO_MIN_LEN};
use token_ledger::{init_account, init_token_info, Account, LedgerError, TokenInfo};

fn token_info(name: &str, symbol: &str, total_supply: u64) -> TokenInfo {
    TokenInfo { name: name.to_string(), symbol: symbol.to_string(), total_supply }
}

const TETHER: [u8; 26] = [
    6, 0, 0, 0, b'T', b'e', b't', b'h', b'e', b'r', 4, 0, 0, 0, b'U', b'S', b'D', b'T', 0, 0, 0,
    0, 0, 0, 0, 0,
];

#[test]
fn init_account_has_no_balance() {
    assert_eq!(init_account(), Account { balance: 0 });
}

#[test]
fn init_token_info_is_the_fixed_asset() {
    let info = init_token_info();
    assert_eq!(info.name, "Tether");
    assert_eq!(info.symbol, "USDT");
    assert_eq!(info.total_supply, 0);
}

#[test]
fn record_sizes() {
    assert_eq!(ACCOUNT_LEN, 8);
    assert_eq!(TOKEN_INFO_MIN_LEN, 16);
}

#[test]
fn account_is_stored_least_significant_byte_first() {
    assert_eq!(Account { balance: 500 }.encode(), vec![0xF4, 0x01, 0, 0, 0, 0, 0, 0]);
    assert_eq!(Account { balance: 0 }.encode(), vec![0; 8]);
    assert_eq!(Account { balance: u64::MAX }.encode(), vec![0xFF; 8]);
    assert_eq!(
        Account { balance: 0x0102_0304_0506_0708 }.encode(),
        vec![8, 7, 6, 5, 4, 3, 2, 1]
    );
}

#[test]
fn account_decodes_from_exactly_eight_bytes() {
    assert_eq!(Account::decode(&[0xF4, 0x01, 0, 0, 0, 0, 0, 0]), Some(Account { balance: 500 }));
    assert_eq!(
        Account::decode(&[8, 7, 6, 5, 4, 3, 2, 1]),
        Some(Account { balance: 0x0102_0304_0506_0708 })
    );
    assert_eq!(Account::decode(&[]), None);
    assert_eq!(Account::decode(&[1, 2, 3, 4, 5, 6, 7]), None);
    assert_eq!(Account::decode(&[1, 2, 3, 4, 5, 6, 7, 8, 9]), None);
}

#[test]
fn account_round_trip() {
    for balance in [0, 1, 255, 256, 500, 1 << 32, u64::MAX - 1, u64::MAX] {
        let account = Account { balance };
        let bytes = account.encode();
        assert_eq!(bytes.len(), ACCOUNT_LEN);
        let decoded = Account::decode(&bytes).unwrap();
        assert_eq!(decoded, account);
        assert_eq!(decoded.encode(), bytes);
        assert_eq!(Account::decode(&decoded.encode()), Some(account));
        assert_eq!(Account::decode_or_init(&bytes), Ok(account));
    }
}

#[test]
fn account_of_an_unwritten_slot_is_the_default() {
    assert_eq!(Account::decode_or_init(&[0; 8]), Ok(init_account()));
    assert_eq!(Account::decode_or_init(&[]), Ok(init_account()));
    assert_eq!(Account::decode_or_init(&[0; 3]), Ok(init_account()));
    assert_eq!(Account::decode_or_init(&[0; 16]), Ok(init_account()));
}

#[test]
fn account_of_a_slot_too_short_for_any_is_the_default() {
    assert_eq!(Account::decode_or_init(&[1, 2, 3]), Ok(init_account()));
    assert_eq!(Account::decode_or_init(&[9; 7]), Ok(init_account()));
}

#[test]
fn account_with_bytes_behind_it_is_corrupt() {
    assert_eq!(
        Account::decode_or_init(&[0xF4, 0x01, 0, 0, 0, 0, 0, 0, 0]),
        Err(LedgerError::CorruptRecord)
    );
    assert_eq!(Account::decode_or_init(&[0, 0, 0, 0, 0, 0, 0, 0, 1]), Err(LedgerError::CorruptRecord));
    assert_eq!(Account::decode_or_init(&[7; 16]), Err(LedgerError::CorruptRecord));
}

#[test]
fn token_info_is_stored_as_two_texts_and_an_integer() {
    assert_eq!(init_token_info().encode(), Some(TETHER.to_vec()));
    assert_eq!(token_info("", "", 0).encode(), Some(vec![0; 16]));
    assert_eq!(
        token_info("ab", "c", 0x0102).encode(),
        Some(vec![2, 0, 0, 0, b'a', b'b', 1, 0, 0, 0, b'c', 2, 1, 0, 0, 0, 0, 0, 0])
    );
}

#[test]
fn token_info_text_is_stored_as_utf8_with_its_byte_length() {
    let bytes = token_info("é€", "", 1).encode().unwrap();
    assert_eq!(
        bytes,
        vec![5, 0, 0, 0, 0xC3, 0xA9, 0xE2, 0x82, 0xAC, 0, 0, 0, 0, 1, 0, 0, 0, 0, 0, 0, 0]
    );
    assert_eq!(TokenInfo::decode(&bytes), Some(token_info("é€", "", 1)));
}

#[test]
fn token_info_decodes_from_exactly_its_encoding() {
    assert_eq!(TokenInfo::decode(&TETHER), Some(init_token_info()));
    assert_eq!(TokenInfo::decode(&[0; 16]), Some(token_info("", "", 0)));
    let mut supplied = TETHER;
    supplied[18] = 0xE8;
    supplied[19] = 0x03;
    assert_eq!(TokenInfo::decode(&supplied), Some(token_info("Tether", "USDT", 1000)));
}

#[test]
fn token_info_is_not_decoded_from_anything_else() {
    // Cut short inside each of the fields.
    for len in [0, 3, 4, 9, 10, 13, 14, 17, 18, 25] {
        assert_eq!(TokenInfo::decode(&TETHER[..len]), None, "length {}", len);
    }
    // A byte behind the record.
    let mut longer = TETHER.to_vec();
    longer.push(0);
    assert_eq!(TokenInfo::decode(&longer), None);
    // A length that announces more bytes than there are.
    let mut announced = TETHER;
    announced[0] = 200;
    assert_eq!(TokenInfo::decode(&announced), None);
    // A name that is not UTF-8.
    let mut garbled = TETHER;
    garbled[4] = 0xFF;
    assert_eq!(TokenInfo::decode(&garbled), None);
    // A symbol that ends in the middle of a character.
    let mut halved = TETHER;
    halved[17] = 0xC3;
    assert_eq!(TokenInfo::decode(&halved), None);
    assert_eq!(TokenInfo::decode(&[0; 26]), None);
}

#[test]
fn token_info_round_trip() {
    let infos = [
        init_token_info(),
        token_info("", "", 0),
        token_info("Tether", "USDT", u64::MAX),
        token_info("a name with spaces", "S", 1),
        token_info("Ünïcödé ☃ 🦀", "¥€$", 123_456_789),
        token_info(&"x".repeat(300), &"y".repeat(70_000), 42),
    ];
    for info in infos {
        let bytes = info.encode().unwrap();
        assert_eq!(bytes.len(), TOKEN_INFO_MIN_LEN + info.name.len() + info.symbol.len());
        let decoded = TokenInfo::decode(&bytes).unwrap();
        assert_eq!(decoded, info);
        assert_eq!(decoded.encode(), Some(bytes.clone()));
        assert_eq!(TokenInfo::decode(&decoded.encode().unwrap()), Some(info.clone()));
        assert_eq!(TokenInfo::decode_or_init(&bytes), Ok(info));
    }
}

#[test]
fn token_info_of_an_unwritten_slot_is_the_default() {
    assert_eq!(TokenInfo::decode_or_init(&[0; 26]), Ok(init_token_info()));
    assert_eq!(TokenInfo::decode_or_init(&[0; 100]), Ok(init_token_info()));
    assert_eq!(TokenInfo::decode_or_init(&[0; 17]), Ok(init_token_info()));
    assert_eq!(TokenInfo::decode_or_init(&[]), Ok(init_token_info()));
    assert_eq!(TokenInfo::decode_or_init(&[0; 5]), Ok(init_token_info()));
}

#[test]
fn token_info_of_sixteen_zero_bytes_is_the_record_they_encode() {
    assert_eq!(TokenInfo::decode_or_init(&[0; 16]), Ok(token_info("", "", 0)));
}

#[test]
fn token_info_of_a_slot_too_short_for_any_is_the_default() {
    assert_eq!(TokenInfo::decode_or_init(&[1; 15]), Ok(init_token_info()));
    assert_eq!(TokenInfo::decode_or_init(&TETHER[..10]), Ok(init_token_info()));
}

#[test]
fn token_info_that_is_garbled_is_corrupt() {
    let mut longer = TETHER.to_vec();
    longer.push(0);
    assert_eq!(TokenInfo::decode_or_init(&longer), Err(LedgerError::CorruptRecord));
    assert_eq!(TokenInfo::decode_or_init(&TETHER[..25]), Err(LedgerError::CorruptRecord));
    let mut garbled = TETHER;
    garbled[4] = 0xFF;
    assert_eq!(TokenInfo::decode_or_init(&garbled), Err(LedgerError::CorruptRecord));
    let mut announced = TETHER;
    announced[3] = 0x80;
    assert_eq!(TokenInfo::decode_or_init(&announced), Err(LedgerError::CorruptRecord));
    assert_eq!(TokenInfo::decode_or_init(&[0xAB; 40]), Err(LedgerError::CorruptRecord));
}

#[test]
fn all_zero_looks_at_every_byte() {
    assert!(is_all_zero(&[]));
    assert!(is_all_zero(&[0]));
    assert!(is_all_zero(&[0; 64]));
    assert!(!is_all_zero(&[1]));
    assert!(!is_all_zero(&[0, 0, 0, 1]));
    assert!(!is_all_zero(&[1, 0, 0, 0]));
    assert!(!is_all_zero(&[0, 0, 255, 0, 0]));
}
