use cleyto_coin::chain::wallet::Wallet;

#[test]
fn test_wallet_creation() {
    let (wallet, wallet_pk) = Wallet::new().unwrap();
    println!("wallet.to_string: {}", wallet.to_string());
    println!("{:#?}", wallet);
    println!("{:#?}", wallet_pk);
}
