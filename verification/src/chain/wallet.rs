//! Wallets: RSA keypair generation, signing and verification over the
//! canonical transaction encoding. The keys live as PKCS#1 PEM text; the
//! RSA operations themselves are openssl's, behind trusted wrappers.

use vstd::prelude::*;
use crate::chain::transaction::{spec_canonical, TransactionInfo};
use crate::text::json_stringable;

verus! {

/// openssl's error report; opaque to the ledger.
#[verifier::external_type_specification]
#[verifier::external_body]
pub struct ExErrorStack(openssl::error::ErrorStack);

/// Names successful verification of an RSA PKCS#1 v1.5 / SHA-256 signature:
/// for a given public key (PEM text), message and signature bytes, the
/// outcome is a fixed function of the three.
pub uninterp spec fn verify_ok(public_pem: Seq<char>, msg: Seq<char>, signature: Seq<u8>) -> bool;

/// Names the pairing of the two PEM halves of one generated RSA keypair.
pub uninterp spec fn rsa_keypair(public_pem: Seq<char>, private_pem: Seq<char>) -> bool;

/// The secret half of a wallet: the private key, held as PEM text next to
/// the public half it was generated with. Never serialized into the ledger.
#[derive(Debug)]
pub struct WalletPK {
    private_key_pem: String,
    public_key_pem: String,
}

/// The public half of a wallet: an RSA public key as PKCS#1 PEM text,
/// freely copyable and embedded in transactions.
#[derive(Clone, Debug)]
pub struct Wallet {
    public_key_pem: String,
}

/// Relies on `openssl::rsa::Rsa::generate` and the PKCS#1 PEM encoders: on
/// success the two strings are the public and private halves of one fresh
/// RSA keypair, rendered as printable ASCII lines.
#[verifier::external_body]
fn generate_rsa_pems(bits: u32) -> (r: Result<(String, String), openssl::error::ErrorStack>)
    ensures
        r matches Ok(p) ==> rsa_keypair(p.0@, p.1@) && json_stringable(p.0@) && json_stringable(
            p.1@,
        ),
{
    let key = openssl::rsa::Rsa::generate(bits)?;
    let public_pem = String::from_utf8_lossy(&key.public_key_to_pem_pkcs1()?).into_owned();
    let private_pem = String::from_utf8_lossy(&key.private_key_to_pem()?).into_owned();
    Ok((public_pem, private_pem))
}

/// Relies on openssl's PKCS#1 v1.5 / SHA-256 signer: a signature produced
/// with the private half of a keypair verifies under its public half.
#[verifier::external_body]
fn sign_with_key(secret: &WalletPK, msg: &str) -> (r: Result<
    Vec<u8>,
    openssl::error::ErrorStack,
>)
    requires
        rsa_keypair(secret.public_key_pem@, secret.private_key_pem@),
    ensures
        r matches Ok(sig) ==> verify_ok(secret.public_key_pem@, msg@, sig@),
{
    let rsa = openssl::rsa::Rsa::private_key_from_pem(secret.private_key_pem.as_bytes())?;
    let pkey = openssl::pkey::PKey::from_rsa(rsa)?;
    let mut signer = openssl::sign::Signer::new(openssl::hash::MessageDigest::sha256(), &pkey)?;
    signer.sign_oneshot_to_vec(msg.as_bytes())
}

/// Relies on openssl's PKCS#1 v1.5 / SHA-256 verifier: it reports `Ok(true)`
/// exactly when the signature verifies for this key and message, and
/// verification is deterministic in the three inputs.
#[verifier::external_body]
fn verify_with_key(public_pem: &str, msg: &str, signature: &[u8]) -> (r: Result<
    bool,
    openssl::error::ErrorStack,
>)
    ensures
        (r matches Ok(b) && b) <==> verify_ok(public_pem@, msg@, signature@),
{
    let rsa = openssl::rsa::Rsa::public_key_from_pem_pkcs1(public_pem.as_bytes())?;
    let pkey = openssl::pkey::PKey::from_rsa(rsa)?;
    let mut verifier = openssl::sign::Verifier::new(openssl::hash::MessageDigest::sha256(), &pkey)?;
    verifier.verify_oneshot(signature, msg.as_bytes())
}

impl WalletPK {
    /// The PEM text of the paired public key.
    pub closed spec fn spec_public_pem(&self) -> Seq<char> {
        self.public_key_pem@
    }

    /// The two halves were generated together.
    pub closed spec fn wf(&self) -> bool {
        rsa_keypair(self.public_key_pem@, self.private_key_pem@)
    }

    /// Signs the canonical string of `transaction_info` with the private
    /// key: SHA-256 digest, PKCS#1 v1.5 padding. Fails only on a failure
    /// inside the crypto library.
    pub fn sign_transaction(&mut self, transaction_info: &TransactionInfo) -> (r: Result<
        Vec<u8>,
        openssl::error::ErrorStack,
    >)
        requires
            old(self).wf(),
        ensures
            *final(self) == *old(self),
            r matches Ok(sig) ==> verify_ok(
                old(self).spec_public_pem(),
                spec_canonical(transaction_info.value@, transaction_info.date@),
                sig@,
            ),
    {
        let msg = transaction_info.to_string();
        sign_with_key(self, msg.as_str())
    }
}

impl Wallet {
    /// The PEM text of the public key.
    pub closed spec fn view(&self) -> Seq<char> {
        self.public_key_pem@
    }

    /// The key text is printable ASCII lines.
    pub closed spec fn wf(&self) -> bool {
        json_stringable(self.public_key_pem@)
    }

    /// A well-formed wallet's key text is printable.
    pub proof fn lemma_wf_stringable(&self)
        requires
            self.wf(),
        ensures
            json_stringable(self@),
    {
    }

    /// Generates a fresh 2048-bit RSA keypair and splits it into its public
    /// and secret halves. Fails only on a failure inside the crypto library.
    pub fn new() -> (r: Result<(Wallet, WalletPK), openssl::error::ErrorStack>)
        ensures
            r matches Ok(pair) ==> {
                &&& pair.0.wf()
                &&& pair.1.wf()
                &&& pair.1.spec_public_pem() == pair.0@
            },
    {
        let bits: u32 = 2048;
        match generate_rsa_pems(bits) {
            Ok((public_pem, private_pem)) => {
                let secret_pem = public_pem.clone();
                Ok(
                    (
                        Wallet { public_key_pem: public_pem },
                        WalletPK { private_key_pem: private_pem, public_key_pem: secret_pem },
                    ),
                )
            },
            Err(e) => Err(e),
        }
    }

    /// Re-computes the canonical string's digest and checks `signature`
    /// against the embedded public key: `Ok(true)` exactly when the
    /// signature verifies, `Ok(false)` for a mismatch, an error only for
    /// malformed keys or a library failure.
    pub fn verify_transaction_info(&self, data: &TransactionInfo, signature: &Vec<u8>) -> (r:
        Result<bool, openssl::error::ErrorStack>)
        ensures
            (r matches Ok(b) && b) <==> verify_ok(
                self@,
                spec_canonical(data.value@, data.date@),
                signature@,
            ),
    {
        let msg = data.to_string();
        verify_with_key(self.public_key_pem.as_str(), msg.as_str(), signature.as_slice())
    }

    /// The public key's PEM text.
    pub fn to_string(&self) -> (r: String)
        ensures
            r@ == self@,
    {
        self.public_key_pem.clone()
    }

    /// The public key, in the serialized form the wallet holds it in.
    pub fn get_public_key(&self) -> (r: String)
        ensures
            r@ == self@,
    {
        self.public_key_pem.clone()
    }

    /// Rebuilds a wallet from public key PEM text.
    pub fn from_public_pem(public_key_pem: String) -> (r: Wallet)
        requires
            json_stringable(public_key_pem@),
        ensures
            r@ == public_key_pem@,
            r.wf(),
    {
        Wallet { public_key_pem }
    }
}

} // verus!
