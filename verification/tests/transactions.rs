use chrono::Utc;
use cleyto_coin::chain::transaction::{Transaction, TransactionInfo};
use cleyto_coin::chain::wallet::Wallet;

#[test]
fn transactions_create_transaction() {
    let (wallet_sender, mut walletpk_sender) = Wallet::new().unwrap();
    let (wallet_receiver, _) = Wallet::new().unwrap();
    let transactioninfo: TransactionInfo =
        TransactionInfo::new(format!("{}", 12345 as f32), Utc::now().to_string());

    let signature = match walletpk_sender.sign_transaction(&transactioninfo) {
        Ok(signed_hashed_message) => signed_hashed_message,
        _ => panic!("error while signing transaction"),
    };
    println!(
        "Transaction signature (signed using the wallet_pk):\n{:?}",
        signature
    );

    // this will also be verified by the Transaction::new();
    if wallet_sender
        .verify_transaction_info(&transactioninfo, &signature)
        .unwrap()
        == true
    {
        println!("transaction verified (by the wallet)");
    } else {
        println!("transaction not verified");
    }

    let transaction: Transaction =
        Transaction::new(wallet_sender, wallet_receiver, transactioninfo, signature).unwrap();

    println!("transaction.to_string(): {}", transaction.to_string());
}

#[test]
fn test_transaction_info_creation() {
    let transaction: TransactionInfo =
        TransactionInfo::new(format!("{}", 12345f32), Utc::now().to_string());
    println!("transaction info:\n{}", transaction.to_string());
    println!("{:?}", transaction);
}

#[test]
fn sign_and_verify_transaction_info() {
    let (wallet, mut wallet_pk) = Wallet::new().unwrap();
    let transactioninfo: TransactionInfo =
        TransactionInfo::new(format!("{}", 12345f32), Utc::now().to_string());

    let signature = match wallet_pk.sign_transaction(&transactioninfo) {
        Ok(signed_hashed_message) => signed_hashed_message,
        _ => panic!("error while signing transaction"),
    };
    println!(
        "Transaction signature (signed using the wallet_pk):\n{:?}",
        signature
    );

    if wallet
        .verify_transaction_info(&transactioninfo, &signature)
        .unwrap()
        == true
    {
        println!("transaction verified (by the wallet)");
    } else {
        println!("transaction not verified");
    }
}

#[test]
fn transactions_serialize_and_deserialize_transaction() {
    let (wallet, mut wallet_pk) = Wallet::new().unwrap();
    let (mallet, _) = Wallet::new().unwrap();
    let transactioninfo: TransactionInfo =
        TransactionInfo::new(format!("{}", 12345f32), Utc::now().to_string());

    let signature = match wallet_pk.sign_transaction(&transactioninfo) {
        Ok(signed_hashed_message) => signed_hashed_message,
        _ => panic!("error while signing transaction"),
    };

    let transaction = Transaction::new(wallet, mallet, transactioninfo, signature).unwrap();

    let serialized_transaction = transaction.serialize();
    println!("serialized_transaction: \n{serialized_transaction}");

    match Transaction::deserialize(serialized_transaction) {
        Ok(value) => {
            println!("Success deserializing transaction");
            value
        }
        Err(_) => panic!("Error deserializing transaction"),
    };
}
