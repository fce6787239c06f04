use runner_nft::keys::StorageKey;
use runner_nft::metadata::{token_label, token_number};

#[test]
fn plain_keys_are_one_byte() {
    assert_eq!(StorageKey::TokensPerOwner.prefix(), vec![0u8]);
    assert_eq!(StorageKey::TokensById.prefix(), vec![2u8]);
    assert_eq!(StorageKey::TokenMetadataById.prefix(), vec![3u8]);
    assert_eq!(StorageKey::NFTContractMetadata.prefix(), vec![4u8]);
    assert_eq!(StorageKey::TokensPerType.prefix(), vec![5u8]);
    assert_eq!(StorageKey::TokenTypesLocked.prefix(), vec![7u8]);
}

#[test]
fn inner_keys_carry_their_hash() {
    let mut hash = [0u8; 32];
    for (i, b) in hash.iter_mut().enumerate() {
        *b = (i as u8) * 3;
    }
    let mut expected = vec![1u8];
    expected.extend_from_slice(&hash);
    assert_eq!(StorageKey::TokenPerOwnerInner { account_id_hash: hash }.prefix(), expected);
    expected[0] = 6;
    assert_eq!(StorageKey::TokensPerTypeInner { token_type_hash: hash }.prefix(), expected);
    assert_eq!(expected.len(), 33);
}

#[test]
fn labels_are_decimal() {
    assert_eq!(token_label(0), "0");
    assert_eq!(token_label(7), "7");
    assert_eq!(token_label(10), "10");
    assert_eq!(token_label(1_234_567_890), "1234567890");
    assert_eq!(token_label(u64::MAX), "18446744073709551615");
}

#[test]
fn labels_read_back() {
    assert_eq!(token_number("0"), Some(0));
    assert_eq!(token_number("9"), Some(9));
    assert_eq!(token_number("10"), Some(10));
    assert_eq!(token_number("1234567890"), Some(1_234_567_890));
    assert_eq!(token_number("18446744073709551615"), Some(u64::MAX));
    for n in [0u64, 5, 99, 100, 4_294_967_296, u64::MAX - 1] {
        assert_eq!(token_number(&token_label(n)), Some(n));
    }
}

#[test]
fn texts_that_are_no_labels() {
    assert_eq!(token_number(""), None);
    assert_eq!(token_number("00"), None);
    assert_eq!(token_number("007"), None);
    assert_eq!(token_number("+7"), None);
    assert_eq!(token_number("-1"), None);
    assert_eq!(token_number("7 "), None);
    assert_eq!(token_number("1_000"), None);
    assert_eq!(token_number("abc"), None);
    assert_eq!(token_number("٣"), None);
    assert_eq!(token_number("18446744073709551616"), None);
    assert_eq!(token_number("99999999999999999999999"), None);
}
