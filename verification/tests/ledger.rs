use chrono::Utc;
use cleyto_coin::chain::block::Block;
use cleyto_coin::chain::transaction::{
    Transaction, TransactionDeserializeError, TransactionInfo, TransactionValidationError,
};
use cleyto_coin::chain::utils::HashedData;
use cleyto_coin::chain::wallet::Wallet;
use cleyto_coin::chain::Chain;

fn fixed_transaction() -> Transaction {
    Transaction {
        sender: Wallet::from_public_pem(String::from("KEY-ONE\n")),
        receiver: Wallet::from_public_pem(String::from("KEY-TWO\n")),
        signature: vec![1, 2, 3],
        transaction_info: TransactionInfo::new(String::from("1"), String::from("DATE")),
    }
}

#[test]
fn canonical_string_is_stable_and_field_sensitive() {
    let a = TransactionInfo::new(String::from("10.5"), String::from("2009-01-03 18:15:05 UTC"));
    let b = TransactionInfo::new(String::from("10.5"), String::from("2009-01-03 18:15:05 UTC"));
    assert_eq!(a.to_string(), "VALUE::10.5::TIME::2009-01-03 18:15:05 UTC");
    assert_eq!(a.to_string(), b.to_string());

    let other_value =
        TransactionInfo::new(String::from("10.6"), String::from("2009-01-03 18:15:05 UTC"));
    let other_date =
        TransactionInfo::new(String::from("10.5"), String::from("2009-01-03 18:15:06 UTC"));
    assert_ne!(a.to_string(), other_value.to_string());
    assert_ne!(a.to_string(), other_date.to_string());
}

#[test]
fn signature_round_trip_and_tampering() {
    let (wallet, mut wallet_pk) = Wallet::new().unwrap();
    let (receiver, _) = Wallet::new().unwrap();
    let info = TransactionInfo::new(format!("{}", 10.5f32), Utc::now().to_string());
    let signature = wallet_pk.sign_transaction(&info).unwrap();

    assert!(wallet.verify_transaction_info(&info, &signature).unwrap());

    // flipping a byte of the signature must break verification
    let mut flipped = signature.clone();
    flipped[4] ^= 0x01;
    assert!(!wallet.verify_transaction_info(&info, &flipped).unwrap());

    // changing the value or the date must break verification
    let other_value = TransactionInfo::new(format!("{}", 11.5f32), info.date.clone());
    assert!(!wallet.verify_transaction_info(&other_value, &signature).unwrap());
    let other_date = TransactionInfo::new(info.value.clone(), String::from("later"));
    assert!(!wallet.verify_transaction_info(&other_date, &signature).unwrap());

    // and the validating constructor refuses a tampered signature
    match Transaction::new(wallet, receiver, info, flipped) {
        Err(TransactionValidationError::SignatureMismatch) => {}
        Err(TransactionValidationError::CryptoFailure(_)) => {
            panic!("expected a signature mismatch")
        }
        Ok(_) => panic!("a tampered signature must not validate"),
    }
}

#[test]
fn transaction_text_and_wire_forms_are_exact() {
    let t = fixed_transaction();
    assert_eq!(
        t.to_string(),
        "SENDER::KEY-ONE\n::RECEIVER::KEY-TWO\n::VALUE::1::TIME::DATE::SIGNATURE::[1, 2, 3]"
    );
    assert_eq!(
        t.serialize(),
        "{\"sender\":\"KEY-ONE\\n\",\"receiver\":\"KEY-TWO\\n\",\"signature\":\"010203\",\"transaction_info\":{\"value\":1,\"date\":\"DATE\"}}"
    );
}

#[test]
fn deserialize_round_trips_the_wire_form() {
    let t = fixed_transaction();
    let text = t.serialize();
    let back = Transaction::deserialize(text.clone()).unwrap();
    assert_eq!(back.serialize(), text);
    assert_eq!(back.signature, vec![1, 2, 3]);
    assert_eq!(back.transaction_info.value, "1");
    assert_eq!(back.transaction_info.date, "DATE");
    assert_eq!(back.sender.to_string(), "KEY-ONE\n");
}

#[test]
fn deserialize_rejects_non_positive_values() {
    let zero = "{\"sender\":\"K\",\"receiver\":\"K\",\"signature\":\"00\",\"transaction_info\":{\"value\":0,\"date\":\"D\"}}";
    match Transaction::deserialize(String::from(zero)) {
        Err(TransactionDeserializeError::NonPositiveValue) => {}
        _ => panic!("a zero value must be refused with the dedicated error"),
    }
    let negative = "{\"sender\":\"K\",\"receiver\":\"K\",\"signature\":\"00\",\"transaction_info\":{\"value\":-3.5,\"date\":\"D\"}}";
    match Transaction::deserialize(String::from(negative)) {
        Err(TransactionDeserializeError::NonPositiveValue) => {}
        _ => panic!("a negative value must be refused with the dedicated error"),
    }
    let zero_point = "{\"sender\":\"K\",\"receiver\":\"K\",\"signature\":\"00\",\"transaction_info\":{\"value\":0.00,\"date\":\"D\"}}";
    match Transaction::deserialize(String::from(zero_point)) {
        Err(TransactionDeserializeError::NonPositiveValue) => {}
        _ => panic!("an all-zero value must be refused with the dedicated error"),
    }
}

#[test]
fn deserialize_rejects_malformed_text() {
    for bad in [
        "",
        "{",
        "{\"sender\":\"K\"}",
        "{\"sender\":\"K\",\"receiver\":\"K\",\"signature\":\"0\",\"transaction_info\":{\"value\":1,\"date\":\"D\"}}",
        "{\"sender\":\"K\",\"receiver\":\"K\",\"signature\":\"00\",\"transaction_info\":{\"value\":1.,\"date\":\"D\"}}",
    ] {
        match Transaction::deserialize(String::from(bad)) {
            Err(TransactionDeserializeError::MalformedTransaction) => {}
            _ => panic!("malformed text must be refused: {bad}"),
        }
    }
}

#[test]
fn genesis_block_is_fixed() {
    let genesis = Block::genesis_block();
    assert_eq!(genesis.get_index(), 0);
    assert_eq!(
        genesis.get_hash(),
        "The Times 03/Jan/2009 Chancellor on brink of second bailout for banks"
    );
}

#[test]
fn reading_an_empty_chain_creates_the_genesis_block_once() {
    let mut chain = Chain::new();
    let first_hash = chain.get_last_hash();
    let second_hash = chain.get_last_hash();
    assert_eq!(
        first_hash,
        "The Times 03/Jan/2009 Chancellor on brink of second bailout for banks"
    );
    assert_eq!(first_hash, second_hash);
    assert_eq!(chain.get_last_index(), 0);
    assert_eq!(chain.get_last_index(), 0);
}

#[test]
fn block_hash_is_deterministic_and_hex() {
    let mut chain = Chain::new();
    let block = Block::new(&mut chain, vec![]);
    let once = block.calculate_hash();
    let twice = block.calculate_hash();
    assert_eq!(once, twice);
    assert_eq!(once, block.get_hash());
    assert_eq!(once.len(), 64);
    assert!(once.chars().all(|c| c.is_ascii_hexdigit()));
}

#[test]
fn mining_finds_a_proof_of_work() {
    let mut chain = Chain::new();
    let block = Block::new(&mut chain, vec![]);
    let mined = block.mine_block();
    let hash = mined.get_hash();
    assert!(hash.starts_with("0000"), "mined hash was {hash}");
    assert_eq!(mined.calculate_hash(), hash);
    assert_eq!(mined.get_index(), 1);
}

#[test]
fn hashed_data_digests_strings() {
    let digest = HashedData::from_string(&String::from("hello"));
    assert_eq!(digest.get_hash().len(), 32);
    let again = HashedData::from_string(&String::from("hello"));
    assert_eq!(digest.get_hash(), again.get_hash());
    let other = HashedData::from_string(&String::from("world"));
    assert_ne!(digest.get_hash(), other.get_hash());
    let rebuilt = HashedData::new(digest.get_hash().as_slice());
    assert_eq!(rebuilt.get_hash(), digest.get_hash());
}

#[test]
fn add_block_accepts_an_unrelated_block() {
    // a documented gap: append validates neither linkage nor proof of work
    let mut other_chain = Chain::new();
    let foreign_block = Block::new(&mut other_chain, vec![]);

    let mut chain = Chain::new();
    let _ = chain.get_last_hash();
    chain.add_block(foreign_block);
    assert_eq!(chain.get_last_index(), 1);
    assert_ne!(
        chain.get_last_hash(),
        "The Times 03/Jan/2009 Chancellor on brink of second bailout for banks"
    );
}
