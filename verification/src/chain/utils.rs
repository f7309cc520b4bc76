//! Hashing utilities for the ledger: the proof-of-work difficulty, trusted
//! wrappers over the SHA-256 digest and the hex encoder, and a small
//! fixed-size digest container.

use vstd::prelude::*;
use crate::text;
use vstd::string::StringSliceAdditionalSpecFns;
#[allow(unused_imports)]
use vstd::utf8::encode_utf8;

verus! {

/// How many leading `'0'` hex characters a mined block hash must have.
pub const PROOF_OF_WORK_DIFFICULTY: u8 = 4;

/// Names what sha2's SHA-256 digest returns: 32 bytes that depend on the
/// input bytes alone.
pub uninterp spec fn sha256_of(data: Seq<u8>) -> Seq<u8>;

/// Relies on `sha2::Sha256::digest`: a 256-bit (32-byte) digest that is a
/// function of the input bytes alone.
#[verifier::external_body]
pub(crate) fn sha256_digest(data: &[u8]) -> (r: Vec<u8>)
    ensures
        r@ == sha256_of(data@),
        r@.len() == 32,
{
    <sha2::Sha256 as sha2::Digest>::digest(data).to_vec()
}

/// The lowercase hex character for a value below 16.
pub open spec fn hex_digit(d: int) -> char {
    if d == 0 { '0' }
    else if d == 1 { '1' }
    else if d == 2 { '2' }
    else if d == 3 { '3' }
    else if d == 4 { '4' }
    else if d == 5 { '5' }
    else if d == 6 { '6' }
    else if d == 7 { '7' }
    else if d == 8 { '8' }
    else if d == 9 { '9' }
    else if d == 10 { 'a' }
    else if d == 11 { 'b' }
    else if d == 12 { 'c' }
    else if d == 13 { 'd' }
    else if d == 14 { 'e' }
    else { 'f' }
}

/// Lowercase hex encoding: two characters for each byte, high nibble first.
pub open spec fn spec_hex_encode(b: Seq<u8>) -> Seq<char> {
    Seq::new(b.len() * 2, |i: int|
        if i % 2 == 0 { hex_digit(b[i / 2] as int / 16) } else { hex_digit(b[i / 2] as int % 16) })
}

/// Relies on `hex::encode`: two lowercase hex digits for each input byte,
/// high nibble first.
#[verifier::external_body]
pub(crate) fn hex_encode(b: &[u8]) -> (r: String)
    ensures
        r@ == spec_hex_encode(b@),
{
    hex::encode(b)
}

/// A 32-byte digest held as a plain byte vector.
pub struct HashedData {
    hash: Vec<u8>,
}

impl HashedData {
    /// The digest is always exactly 32 bytes long.
    pub closed spec fn wf(&self) -> bool {
        self.hash@.len() == 32
    }

    /// The bytes held by this digest.
    pub closed spec fn view(&self) -> Seq<u8> {
        self.hash@
    }

    /// Wraps 32 bytes of digest material.
    pub fn new(data: &[u8]) -> (r: Self)
        requires
            data@.len() == 32,
        ensures
            r.wf(),
            r@ == data@,
    {
        Self { hash: vstd::slice::slice_to_vec(data) }
    }

    /// Hashes a string's UTF-8 bytes into a digest.
    pub fn from_string(s: &String) -> (r: Self)
        ensures
            r.wf(),
            r@ == sha256_of(vstd::utf8::encode_utf8(s@)),
    {
        Self { hash: sha256_digest(s.as_str().as_bytes()) }
    }

    /// The digest bytes.
    pub fn get_hash(&self) -> (r: Vec<u8>)
        ensures
            r@ == self@,
    {
        self.hash.clone()
    }

    /// A one-character rendering of the digest: the character whose code is
    /// the first digest byte.
    pub fn hash_as_string(&self) -> (r: String)
        requires
            self.wf(),
        ensures
            r@ == seq![self@[0] as char],
    {
        text::char_to_string(self.hash[0] as char)
    }
}

} // verus!
