//! Value-transfer records: the signed transaction data, its canonical
//! string encoding, and the structured serialization used on the wire.

use vstd::prelude::*;
use crate::chain::wallet::{verify_ok, Wallet};
use crate::text;
use crate::text::json_stringable;

verus! {

// ---------------------------------------------------------------------------
// Well-formedness of the textual fields.
// ---------------------------------------------------------------------------

/// The unsigned part of a decimal numeral: digits with at most one point,
/// which stands strictly between digits.
pub open spec fn numeral_body_ok(s: Seq<char>) -> bool {
    &&& s.len() > 0
    &&& forall|i: int| 0 <= i < s.len() ==> (text::is_digit_char(#[trigger] s[i]) || s[i] == '.')
    &&& text::is_digit_char(s[0])
    &&& text::is_digit_char(s[s.len() - 1])
    &&& forall|i: int, j: int| 0 <= i < j < s.len() && #[trigger] s[i] == '.' && #[trigger] s[j] == '.' ==> false
}

/// A well-formed decimal numeral: an optional leading minus sign, then
/// digits with at most one decimal point.
pub open spec fn wf_number(s: Seq<char>) -> bool {
    if s.len() > 0 && s[0] == '-' {
        numeral_body_ok(s.subrange(1, s.len() as int))
    } else {
        numeral_body_ok(s)
    }
}

/// A numeral denotes a strictly positive value when it has no sign and at
/// least one digit other than zero.
pub open spec fn positive_number(s: Seq<char>) -> bool {
    &&& wf_number(s)
    &&& s.len() > 0
    &&& s[0] != '-'
    &&& exists|i: int| 0 <= i < s.len() && text::is_digit_char(#[trigger] s[i]) && s[i] != '0'
}

// ---------------------------------------------------------------------------
// TransactionInfo and its canonical string.
// ---------------------------------------------------------------------------

/// The canonical encoding of a transaction's data: this exact text is what
/// gets signed and verified, so it must be reproduced byte for byte.
pub open spec fn spec_canonical(value: Seq<char>, date: Seq<char>) -> Seq<char> {
    "VALUE::"@ + value + "::TIME::"@ + date
}

/// The value and timestamp of a transfer. The value is a decimal numeral
/// kept in its textual form; the date is a UTC timestamp rendered as text.
#[derive(Clone, Debug)]
pub struct TransactionInfo {
    pub value: String,
    pub date: String,
}

impl TransactionInfo {
    /// A well-formed record: the value is a decimal numeral and the date is
    /// printable text.
    pub open spec fn wf(&self) -> bool {
        wf_number(self.value@) && json_stringable(self.date@)
    }

    /// Wraps a value and a date.
    pub fn new(value: String, date: String) -> (r: TransactionInfo)
        ensures
            r.value@ == value@,
            r.date@ == date@,
    {
        Self { value, date }
    }

    /// The canonical string, `VALUE::<value>::TIME::<date>`.
    pub fn to_string(&self) -> (r: String)
        ensures
            r@ == spec_canonical(self.value@, self.date@),
    {
        let mut out = String::from_str("VALUE::");
        out.append(self.value.as_str());
        out.append("::TIME::");
        out.append(self.date.as_str());
        proof {
            assert(out@ =~= spec_canonical(self.value@, self.date@));
        }
        out
    }
}

/// Two canonical strings of well-formed records agree only when value and
/// date both agree: the value holds no `':'`, so the `::TIME::` marker
/// cannot move.
pub proof fn lemma_canonical_injective(v1: Seq<char>, d1: Seq<char>, v2: Seq<char>, d2: Seq<char>)
    requires
        wf_number(v1),
        wf_number(v2),
        spec_canonical(v1, d1) == spec_canonical(v2, d2),
    ensures
        v1 == v2,
        d1 == d2,
{
    reveal_strlit("VALUE::");
    reveal_strlit("::TIME::");
    let s1 = spec_canonical(v1, d1);
    let s2 = spec_canonical(v2, d2);
    lemma_number_no_colon(v1);
    lemma_number_no_colon(v2);
    if v1.len() < v2.len() {
        // then s1 has a ':' where v2 still has a numeral character
        assert(s1[7 + v1.len() as int] == ':');
        assert(s2[7 + v1.len() as int] == v2[v1.len() as int]);
        assert(false);
    } else if v2.len() < v1.len() {
        assert(s2[7 + v2.len() as int] == ':');
        assert(s1[7 + v2.len() as int] == v1[v2.len() as int]);
        assert(false);
    }
    assert forall|i: int| 0 <= i < v1.len() implies v1[i] == v2[i] by {
        assert(s1[7 + i] == v1[i]);
        assert(s2[7 + i] == v2[i]);
    }
    assert(v1 =~= v2);
    assert(s1.len() == 15 + v1.len() + d1.len());
    assert(s2.len() == 15 + v2.len() + d2.len());
    assert(d1.len() == d2.len());
    assert forall|i: int| 0 <= i < d1.len() implies d1[i] == d2[i] by {
        assert(s1[15 + v1.len() as int + i] == d1[i]);
        assert(s2[15 + v2.len() as int + i] == d2[i]);
    }
    assert(d1 =~= d2);
}

// ---------------------------------------------------------------------------
// Errors.
// ---------------------------------------------------------------------------

/// Why deserialization of a transaction was refused.
#[derive(Debug)]
pub enum TransactionDeserializeError {
    /// The value field is zero or negative.
    NonPositiveValue,
    /// The text does not follow the transaction encoding.
    MalformedTransaction,
}

impl TransactionDeserializeError {
    /// A short report of the error.
    pub fn message(&self) -> (r: String)
        ensures
            self is NonPositiveValue ==> r@ == "Non-positive value"@,
            self is MalformedTransaction ==> r@ == "Malformed transaction"@,
    {
        match self {
            TransactionDeserializeError::NonPositiveValue => String::from_str(
                "Non-positive value",
            ),
            TransactionDeserializeError::MalformedTransaction => String::from_str(
                "Malformed transaction",
            ),
        }
    }
}

/// Why a transaction failed validation.
#[derive(Debug)]
pub enum TransactionValidationError {
    /// The crypto library itself failed.
    CryptoFailure(openssl::error::ErrorStack),
    /// The signature does not match the transaction data under the
    /// sender's public key.
    SignatureMismatch,
}

impl TransactionValidationError {
    /// A short report of the error; for a library failure the crypto
    /// library's own report follows the fixed prefix.
    pub fn message(&self) -> (r: String)
        ensures
            self is SignatureMismatch ==> r@
                == "The validation of the transaction was not successful, as the signature did not match the provided transaction info."@,
            self is CryptoFailure ==> exists|detail: Seq<char>|
                r@
                    == "The validation of the transaction was not successful due to some internal OpenSSL error: "@
                    + detail,
    {
        match self {
            TransactionValidationError::CryptoFailure(stack) => {
                let mut out = String::from_str(
                    "The validation of the transaction was not successful due to some internal OpenSSL error: ",
                );
                let detail = stack.to_string();
                out.append(detail.as_str());
                out
            },
            TransactionValidationError::SignatureMismatch => String::from_str(
                "The validation of the transaction was not successful, as the signature did not match the provided transaction info.",
            ),
        }
    }
}

// ---------------------------------------------------------------------------
// Transaction.
// ---------------------------------------------------------------------------

/// The textual form of a transaction used inside block hashing: the two
/// key texts, the canonical data string, and the signature bytes as a
/// bracketed decimal list.
pub open spec fn spec_transaction_text(
    sender: Seq<char>,
    receiver: Seq<char>,
    value: Seq<char>,
    date: Seq<char>,
    signature: Seq<u8>,
) -> Seq<char> {
    "SENDER::"@ + sender + "::RECEIVER::"@ + receiver + "::"@ + spec_canonical(value, date)
        + "::SIGNATURE::["@ + text::bytes_as_chars(
        text::spec_byte_list_bytes(signature, text::chars_as_bytes(", "@)),
    ) + "]"@
}

/// A signed transfer from `sender` to `receiver`. The invariant that the
/// signature verifies is established by the validating constructor and can
/// be re-checked at any time with `verify`.
#[derive(Clone)]
pub struct Transaction {
    pub sender: Wallet,
    pub receiver: Wallet,
    pub signature: Vec<u8>,
    pub transaction_info: TransactionInfo,
}

impl Transaction {
    /// Well-formed fields: printable key texts, numeral value, printable
    /// date.
    pub open spec fn wf(&self) -> bool {
        self.sender.wf() && self.receiver.wf() && self.transaction_info.wf()
    }

    /// The textual form of this transaction.
    pub open spec fn spec_text(&self) -> Seq<char> {
        spec_transaction_text(
            self.sender@,
            self.receiver@,
            self.transaction_info.value@,
            self.transaction_info.date@,
            self.signature@,
        )
    }

    /// The signature verifies over the canonical string under the sender's
    /// key.
    pub open spec fn spec_signed(&self) -> bool {
        verify_ok(
            self.sender@,
            spec_canonical(self.transaction_info.value@, self.transaction_info.date@),
            self.signature@,
        )
    }

    /// Constructs a transaction and immediately verifies it: succeeds
    /// exactly when the signature verifies the canonical string under the
    /// sender's key.
    pub fn new(
        sender: Wallet,
        receiver: Wallet,
        transaction_info: TransactionInfo,
        signature: Vec<u8>,
    ) -> (r: Result<Self, TransactionValidationError>)
        ensures
            r is Ok <==> verify_ok(
                sender@,
                spec_canonical(transaction_info.value@, transaction_info.date@),
                signature@,
            ),
            r matches Ok(t) ==> {
                &&& t.sender@ == sender@
                &&& t.receiver@ == receiver@
                &&& t.signature@ == signature@
                &&& t.transaction_info.value@ == transaction_info.value@
                &&& t.transaction_info.date@ == transaction_info.date@
                &&& t.spec_signed()
            },
    {
        let transaction = Self { sender, receiver, signature, transaction_info };
        match transaction.verify() {
            Ok(()) => Ok(transaction),
            Err(error) => Err(error),
        }
    }

    /// Re-checks the constructor's invariant: succeeds exactly when the
    /// signature verifies the canonical string under the sender's key. A
    /// mismatch reports `SignatureMismatch`; a failure inside the crypto
    /// library reports `CryptoFailure`.
    pub fn verify(&self) -> (r: Result<(), TransactionValidationError>)
        ensures
            r is Ok <==> self.spec_signed(),
    {
        match self.sender.verify_transaction_info(&self.transaction_info, &self.signature) {
            Ok(value) => match value {
                true => Ok(()),
                false => Err(TransactionValidationError::SignatureMismatch),
            },
            Err(stack) => Err(TransactionValidationError::CryptoFailure(stack)),
        }
    }

    /// The textual form used inside block hashing.
    pub fn to_string(&self) -> (r: String)
        ensures
            r@ == spec_transaction_text(
                self.sender@,
                self.receiver@,
                self.transaction_info.value@,
                self.transaction_info.date@,
                self.signature@,
            ),
    {
        let mut out = String::from_str("SENDER::");
        out.append(self.sender.to_string().as_str());
        out.append("::RECEIVER::");
        out.append(self.receiver.to_string().as_str());
        out.append("::");
        out.append(self.transaction_info.to_string().as_str());
        out.append("::SIGNATURE::[");
        let sep = sep_comma_space();
        let mut list: Vec<u8> = Vec::new();
        text::push_byte_list(&self.signature, &sep, &mut list);
        proof {
            text::lemma_byte_list_ascii(self.signature@, sep@);
        }
        out.append(text::ascii_to_string(&list).as_str());
        out.append("]");
        proof {
            assert(out@ =~= spec_transaction_text(
                self.sender@,
                self.receiver@,
                self.transaction_info.value@,
                self.transaction_info.date@,
                self.signature@,
            ));
        }
        out
    }
}

impl Transaction {
    /// Writes the transaction in its structured, field-tagged form. This
    /// is the wire encoding; it is not the canonical string that gets
    /// signed.
    pub fn serialize(&self) -> (r: String)
        requires
            self.wf(),
        ensures
            r@ == text::bytes_as_chars(spec_serialize_tx(*self)),
            vstd::utf8::encode_utf8(r@) == spec_serialize_tx(*self),
    {
        let mut out: Vec<u8> = Vec::new();
        proof {
            reveal_strlit("{\"sender\":");
            reveal_strlit(",\"receiver\":");
            reveal_strlit(",\"signature\":");
            reveal_strlit(",\"transaction_info\":{\"value\":");
            reveal_strlit(",\"date\":");
            reveal_strlit("}}");
        }
        push_lit(&mut out, "{\"sender\":");
        proof {
            self.sender.lemma_wf_stringable();
            self.receiver.lemma_wf_stringable();
        }
        let sender_pem = self.sender.to_string();
        push_quoted(&mut out, sender_pem.as_str());
        push_lit(&mut out, ",\"receiver\":");
        let receiver_pem = self.receiver.to_string();
        push_quoted(&mut out, receiver_pem.as_str());
        push_lit(&mut out, ",\"signature\":");
        let hex_sig = crate::chain::utils::hex_encode(self.signature.as_slice());
        proof {
            lemma_hex_stringable(self.signature@);
        }
        push_quoted(&mut out, hex_sig.as_str());
        push_lit(&mut out, ",\"transaction_info\":{\"value\":");
        proof {
            lemma_number_stringable(self.transaction_info.value@);
            text::lemma_json_stringable_ascii(self.transaction_info.value@);
        }
        let mut value_bytes = text::ascii_str_bytes(self.transaction_info.value.as_str());
        out.append(&mut value_bytes);
        push_lit(&mut out, ",\"date\":");
        push_quoted(&mut out, self.transaction_info.date.as_str());
        push_lit(&mut out, "}}");
        proof {
            assert(out@ =~= spec_serialize_tx(*self));
            lemma_serialize_ascii(*self);
        }
        let r = text::ascii_to_string(&out);
        proof {
            vstd::utf8::is_ascii_chars_encode_utf8(r@);
            assert(vstd::utf8::encode_utf8(r@) =~= out@);
        }
        r
    }

    /// Reads a transaction back from its structured form. The shape and
    /// every field are checked, and a zero or negative value is refused
    /// with its own error; the signature is NOT re-verified here — callers
    /// that need trust call `verify` themselves.
    #[verifier::rlimit(100)]
    #[verifier::spinoff_prover]
    pub fn deserialize(json: String) -> (r: Result<Transaction, TransactionDeserializeError>)
        ensures
            r matches Ok(t) ==> {
                &&& t.wf()
                &&& positive_number(t.transaction_info.value@)
                &&& vstd::utf8::encode_utf8(json@) == spec_serialize_tx(t)
            },
            r matches Err(e) && e is NonPositiveValue ==> exists|t: Transaction|
                (#[trigger] spec_serialize_tx(t)) == vstd::utf8::encode_utf8(json@) && t.wf()
                    && !positive_number(t.transaction_info.value@),
            forall|t: Transaction|
                t.wf() && vstd::utf8::encode_utf8(json@) == #[trigger] spec_serialize_tx(t)
                    ==> if positive_number(t.transaction_info.value@) {
                    r matches Ok(t2) && t2.sender@ == t.sender@ && t2.receiver@ == t.receiver@
                        && t2.signature@ == t.signature@ && t2.transaction_info.value@
                        == t.transaction_info.value@ && t2.transaction_info.date@
                        == t.transaction_info.date@
                } else {
                    r matches Err(e) && e is NonPositiveValue
                },
    {
        let bytes = json.as_str().as_bytes_vec();
        proof {
            reveal_strlit("{\"sender\":");
            reveal_strlit(",\"receiver\":");
            reveal_strlit(",\"signature\":");
            reveal_strlit(",\"transaction_info\":{\"value\":");
            reveal_strlit(",\"date\":");
            reveal_strlit("}}");
        }
        let p0: usize = match expect_lit(&bytes, 0, "{\"sender\":") {
            Some(p) => p,
            None => {
            proof {
                assert forall|t: Transaction|
                    t.wf() && vstd::utf8::encode_utf8(json@) == #[trigger] spec_serialize_tx(
                        t,
                    ) implies false by {
                    lemma_ser_parts(t, bytes@);
                }
            }
                return Err(TransactionDeserializeError::MalformedTransaction);
            },
        };
        let (sender_bytes, p1) = match parse_quoted(&bytes, p0) {
            Some(sp) => sp,
            None => {
            proof {
                assert forall|t: Transaction|
                    t.wf() && vstd::utf8::encode_utf8(json@) == #[trigger] spec_serialize_tx(
                        t,
                    ) implies false by {
                    lemma_ser_parts(t, bytes@);
                }
            }
                return Err(TransactionDeserializeError::MalformedTransaction);
            },
        };
        let p2: usize = match expect_lit(&bytes, p1, ",\"receiver\":") {
            Some(p) => p,
            None => {
            proof {
                assert forall|t: Transaction|
                    t.wf() && vstd::utf8::encode_utf8(json@) == #[trigger] spec_serialize_tx(
                        t,
                    ) implies false by {
                    lemma_ser_parts(t, bytes@);
                }
            }
                return Err(TransactionDeserializeError::MalformedTransaction);
            },
        };
        let (receiver_bytes, p3) = match parse_quoted(&bytes, p2) {
            Some(sp) => sp,
            None => {
            proof {
                assert forall|t: Transaction|
                    t.wf() && vstd::utf8::encode_utf8(json@) == #[trigger] spec_serialize_tx(
                        t,
                    ) implies false by {
                    lemma_ser_parts(t, bytes@);
                }
            }
                return Err(TransactionDeserializeError::MalformedTransaction);
            },
        };
        let p4: usize = match expect_lit(&bytes, p3, ",\"signature\":") {
            Some(p) => p,
            None => {
            proof {
                assert forall|t: Transaction|
                    t.wf() && vstd::utf8::encode_utf8(json@) == #[trigger] spec_serialize_tx(
                        t,
                    ) implies false by {
                    lemma_ser_parts(t, bytes@);
                }
            }
                return Err(TransactionDeserializeError::MalformedTransaction);
            },
        };
        let (sig_hex, p5) = match parse_quoted(&bytes, p4) {
            Some(sp) => sp,
            None => {
            proof {
                assert forall|t: Transaction|
                    t.wf() && vstd::utf8::encode_utf8(json@) == #[trigger] spec_serialize_tx(
                        t,
                    ) implies false by {
                    lemma_ser_parts(t, bytes@);
                }
            }
                return Err(TransactionDeserializeError::MalformedTransaction);
            },
        };
        let signature = match decode_hex(&sig_hex) {
            Some(sig) => sig,
            None => {
                proof {
                    assert forall|t: Transaction|
                        t.wf() && vstd::utf8::encode_utf8(json@) == #[trigger] spec_serialize_tx(
                            t,
                        ) implies false by {
                        lemma_ser_parts(t, bytes@);
                        assert(sig_hex@ == text::chars_as_bytes(
                            crate::chain::utils::spec_hex_encode(t.signature@),
                        ));
                    }
                }
                return Err(TransactionDeserializeError::MalformedTransaction);
            },
        };
        let p6: usize = match expect_lit(&bytes, p5, ",\"transaction_info\":{\"value\":") {
            Some(p) => p,
            None => {
            proof {
                assert forall|t: Transaction|
                    t.wf() && vstd::utf8::encode_utf8(json@) == #[trigger] spec_serialize_tx(
                        t,
                    ) implies false by {
                    lemma_ser_parts(t, bytes@);
                }
            }
                return Err(TransactionDeserializeError::MalformedTransaction);
            },
        };
        let (value_bytes, p7) = scan_number_token(&bytes, p6);
        proof {
            assert forall|t: Transaction|
                t.wf() && vstd::utf8::encode_utf8(json@) == #[trigger] spec_serialize_tx(
                    t,
                ) implies value_bytes@ == sv(t) && p7 == so8(t) by {
                lemma_ser_parts(t, bytes@);
                assert(p6 as int == so7(t));
                assert(p7 as int == p6 + value_bytes@.len());
                if value_bytes@.len() < sv(t).len() {
                    assert(bytes@[p7 as int] == bytes@.subrange(so7(t), so8(t))[p7 - so7(t)]);
                    assert(bytes@[p7 as int] == sv(t)[p7 - so7(t)]);
                    assert(false);
                }
                if value_bytes@.len() > sv(t).len() {
                    assert(value_bytes@[sv(t).len() as int] == bytes@[so8(t)]);
                    assert(false);
                }
                assert(value_bytes@ =~= bytes@.subrange(so7(t), so8(t)));
            }
        }
        if !check_number(&value_bytes) {
            proof {
                assert forall|t: Transaction|
                    t.wf() && vstd::utf8::encode_utf8(json@) == #[trigger] spec_serialize_tx(
                        t,
                    ) implies false by {
                    lemma_ser_parts(t, bytes@);
                }
            }
            return Err(TransactionDeserializeError::MalformedTransaction);
        }
        let p8: usize = match expect_lit(&bytes, p7, ",\"date\":") {
            Some(p) => p,
            None => {
            proof {
                assert forall|t: Transaction|
                    t.wf() && vstd::utf8::encode_utf8(json@) == #[trigger] spec_serialize_tx(
                        t,
                    ) implies false by {
                    lemma_ser_parts(t, bytes@);
                }
            }
                return Err(TransactionDeserializeError::MalformedTransaction);
            },
        };
        let (date_bytes, p9) = match parse_quoted(&bytes, p8) {
            Some(sp) => sp,
            None => {
            proof {
                assert forall|t: Transaction|
                    t.wf() && vstd::utf8::encode_utf8(json@) == #[trigger] spec_serialize_tx(
                        t,
                    ) implies false by {
                    lemma_ser_parts(t, bytes@);
                }
            }
                return Err(TransactionDeserializeError::MalformedTransaction);
            },
        };
        let p10: usize = match expect_lit(&bytes, p9, "}}") {
            Some(p) => p,
            None => {
            proof {
                assert forall|t: Transaction|
                    t.wf() && vstd::utf8::encode_utf8(json@) == #[trigger] spec_serialize_tx(
                        t,
                    ) implies false by {
                    lemma_ser_parts(t, bytes@);
                }
            }
                return Err(TransactionDeserializeError::MalformedTransaction);
            },
        };
        if p10 != bytes.len() {
            proof {
                assert forall|t: Transaction|
                    t.wf() && vstd::utf8::encode_utf8(json@) == #[trigger] spec_serialize_tx(
                        t,
                    ) implies false by {
                    lemma_ser_parts(t, bytes@);
                }
            }
            return Err(TransactionDeserializeError::MalformedTransaction);
        }
        proof {
            lemma_safe_stringable(sender_bytes@);
            lemma_safe_stringable(receiver_bytes@);
            assert(safe_text_bytes(value_bytes@));
            lemma_safe_stringable(value_bytes@);
            lemma_safe_stringable(date_bytes@);
        }
        let sender = crate::chain::wallet::Wallet::from_public_pem(
            text::ascii_to_string(&sender_bytes),
        );
        let receiver = crate::chain::wallet::Wallet::from_public_pem(
            text::ascii_to_string(&receiver_bytes),
        );
        let transaction_info = TransactionInfo::new(
            text::ascii_to_string(&value_bytes),
            text::ascii_to_string(&date_bytes),
        );
        let tx = Transaction { sender, receiver, signature, transaction_info };
        proof {
            assert(bytes@ =~= bytes@.subrange(0, p0 as int) + bytes@.subrange(p0 as int, p1 as int)
                + bytes@.subrange(p1 as int, p2 as int) + bytes@.subrange(p2 as int, p3 as int)
                + bytes@.subrange(p3 as int, p4 as int) + bytes@.subrange(p4 as int, p5 as int)
                + bytes@.subrange(p5 as int, p6 as int) + bytes@.subrange(p6 as int, p7 as int)
                + bytes@.subrange(p7 as int, p8 as int) + bytes@.subrange(p8 as int, p9 as int)
                + bytes@.subrange(p9 as int, p10 as int));
            assert(text::chars_as_bytes(tx.sender@) =~= sender_bytes@);
            assert(text::chars_as_bytes(tx.receiver@) =~= receiver_bytes@);
            assert(text::chars_as_bytes(tx.transaction_info.value@) =~= value_bytes@);
            assert(text::chars_as_bytes(tx.transaction_info.date@) =~= date_bytes@);
            assert(bytes@ == spec_serialize_tx(tx));
        }
        if !check_positive(&value_bytes) {
            proof {
                assert(tx.transaction_info.value@ == text::bytes_as_chars(value_bytes@));
                assert(spec_serialize_tx(tx) == vstd::utf8::encode_utf8(json@));
                assert forall|t: Transaction|
                    t.wf() && vstd::utf8::encode_utf8(json@) == #[trigger] spec_serialize_tx(
                        t,
                    ) implies !positive_number(t.transaction_info.value@) by {
                    lemma_ser_parts(t, bytes@);
                    assert(text::bytes_as_chars(value_bytes@) == t.transaction_info.value@);
                }
            }
            return Err(TransactionDeserializeError::NonPositiveValue);
        }
        proof {
            assert forall|t: Transaction|
                t.wf() && vstd::utf8::encode_utf8(json@) == #[trigger] spec_serialize_tx(
                    t,
                ) implies positive_number(t.transaction_info.value@) && tx.sender@ == t.sender@
                && tx.receiver@ == t.receiver@ && tx.signature@ == t.signature@
                && tx.transaction_info.value@ == t.transaction_info.value@
                && tx.transaction_info.date@ == t.transaction_info.date@ by {
                lemma_ser_parts(t, bytes@);
                assert(text::bytes_as_chars(value_bytes@) == t.transaction_info.value@);
                t.sender.lemma_wf_stringable();
                t.receiver.lemma_wf_stringable();
                lemma_chars_roundtrip(t.sender@);
                lemma_chars_roundtrip(t.receiver@);
                lemma_chars_roundtrip(t.transaction_info.date@);
                assert(sender_bytes@ == text::chars_as_bytes(t.sender@));
                assert(receiver_bytes@ == text::chars_as_bytes(t.receiver@));
                assert(date_bytes@ == text::chars_as_bytes(t.transaction_info.date@));
                assert(sig_hex@ == text::chars_as_bytes(
                    crate::chain::utils::spec_hex_encode(t.signature@),
                ));
                assert(signature@ == t.signature@);
            }
        }
        Ok(tx)
    }
}

// The parts and offsets of a serialized transaction, used to prove that
// the parser accepts exactly the serialized images.
spec fn sq1(t: Transaction) -> Seq<u8> {
    spec_quoted(text::chars_as_bytes(t.sender@))
}

spec fn sq2(t: Transaction) -> Seq<u8> {
    spec_quoted(text::chars_as_bytes(t.receiver@))
}

spec fn sq3(t: Transaction) -> Seq<u8> {
    spec_quoted(text::chars_as_bytes(crate::chain::utils::spec_hex_encode(t.signature@)))
}

spec fn sv(t: Transaction) -> Seq<u8> {
    text::chars_as_bytes(t.transaction_info.value@)
}

spec fn sq4(t: Transaction) -> Seq<u8> {
    spec_quoted(text::chars_as_bytes(t.transaction_info.date@))
}

spec fn so2(t: Transaction) -> int {
    10 + sq1(t).len() as int
}

spec fn so3(t: Transaction) -> int {
    so2(t) + 12
}

spec fn so4(t: Transaction) -> int {
    so3(t) + sq2(t).len() as int
}

spec fn so5(t: Transaction) -> int {
    so4(t) + 13
}

spec fn so6(t: Transaction) -> int {
    so5(t) + sq3(t).len() as int
}

spec fn so7(t: Transaction) -> int {
    so6(t) + 29
}

spec fn so8(t: Transaction) -> int {
    so7(t) + sv(t).len() as int
}

spec fn so9(t: Transaction) -> int {
    so8(t) + 8
}

spec fn so10(t: Transaction) -> int {
    so9(t) + sq4(t).len() as int
}

/// Where each part of a serialized transaction stands in its bytes.
#[verifier::rlimit(80)]
proof fn lemma_ser_parts(t: Transaction, bytes: Seq<u8>)
    requires
        t.wf(),
        bytes == spec_serialize_tx(t),
    ensures
        bytes.len() == so10(t) + 2,
        bytes.subrange(0, 10) == text::chars_as_bytes("{\"sender\":"@),
        quoted_at(bytes, 10, text::chars_as_bytes(t.sender@)),
        bytes.subrange(so2(t), so3(t)) == text::chars_as_bytes(",\"receiver\":"@),
        quoted_at(bytes, so3(t), text::chars_as_bytes(t.receiver@)),
        bytes.subrange(so4(t), so5(t)) == text::chars_as_bytes(",\"signature\":"@),
        quoted_at(
            bytes,
            so5(t),
            text::chars_as_bytes(crate::chain::utils::spec_hex_encode(t.signature@)),
        ),
        bytes.subrange(so6(t), so7(t)) == text::chars_as_bytes(
            ",\"transaction_info\":{\"value\":"@,
        ),
        bytes.subrange(so7(t), so8(t)) == sv(t),
        bytes[so8(t)] == 44,
        forall|j: int| 0 <= j < sv(t).len() ==> (#[trigger] sv(t)[j] == 45 || sv(t)[j] == 46 || (
        48 <= sv(t)[j] <= 57)),
        bytes.subrange(so8(t), so9(t)) == text::chars_as_bytes(",\"date\":"@),
        quoted_at(bytes, so9(t), text::chars_as_bytes(t.transaction_info.date@)),
        bytes.subrange(so10(t), so10(t) + 2) == text::chars_as_bytes("}}"@),
        text::bytes_as_chars(sv(t)) == t.transaction_info.value@,
{
    reveal_strlit("{\"sender\":");
    reveal_strlit(",\"receiver\":");
    reveal_strlit(",\"signature\":");
    reveal_strlit(",\"transaction_info\":{\"value\":");
    reveal_strlit(",\"date\":");
    reveal_strlit("}}");
    t.sender.lemma_wf_stringable();
    t.receiver.lemma_wf_stringable();
    lemma_stringable_safe(t.sender@);
    lemma_stringable_safe(t.receiver@);
    lemma_hex_stringable(t.signature@);
    lemma_stringable_safe(crate::chain::utils::spec_hex_encode(t.signature@));
    lemma_number_stringable(t.transaction_info.value@);
    lemma_stringable_safe(t.transaction_info.value@);
    lemma_stringable_safe(t.transaction_info.date@);
    assert(text::chars_as_bytes("{\"sender\":"@).len() == 10);
    assert(text::chars_as_bytes(",\"receiver\":"@).len() == 12);
    assert(text::chars_as_bytes(",\"signature\":"@).len() == 13);
    assert(text::chars_as_bytes(",\"transaction_info\":{\"value\":"@).len() == 29);
    assert(text::chars_as_bytes(",\"date\":"@).len() == 8);
    assert(text::chars_as_bytes("}}"@).len() == 2);
    assert(bytes.len() == so10(t) + 2);
    assert(bytes.subrange(0, 10) =~= text::chars_as_bytes("{\"sender\":"@));
    assert(bytes.subrange(10, so2(t)) =~= sq1(t));
    assert(bytes.subrange(so2(t), so3(t)) =~= text::chars_as_bytes(",\"receiver\":"@));
    assert(bytes.subrange(so3(t), so4(t)) =~= sq2(t));
    assert(bytes.subrange(so4(t), so5(t)) =~= text::chars_as_bytes(",\"signature\":"@));
    assert(bytes.subrange(so5(t), so6(t)) =~= sq3(t));
    assert(bytes.subrange(so6(t), so7(t)) =~= text::chars_as_bytes(
        ",\"transaction_info\":{\"value\":"@,
    ));
    assert(bytes.subrange(so7(t), so8(t)) =~= sv(t));
    assert(bytes.subrange(so8(t), so9(t)) =~= text::chars_as_bytes(",\"date\":"@));
    assert(bytes.subrange(so9(t), so10(t)) =~= sq4(t));
    assert(bytes.subrange(so10(t), so10(t) + 2) =~= text::chars_as_bytes("}}"@));
    assert(bytes[so8(t)] == text::chars_as_bytes(",\"date\":"@)[0]);
    assert forall|j: int|
        0 <= j < sv(t).len() implies (#[trigger] sv(t)[j] == 45 || sv(t)[j] == 46 || (48 <= sv(
        t,
    )[j] <= 57)) by {
        let v = t.transaction_info.value@;
        assert(sv(t)[j] == v[j] as u8);
        if v.len() > 0 && v[0] == '-' {
            if j > 0 {
                assert(v.subrange(1, v.len() as int)[j - 1] == v[j]);
            }
        }
    }
    assert forall|j: int| 0 <= j < sv(t).len() implies #[trigger] text::bytes_as_chars(sv(t))[j]
        == t.transaction_info.value@[j] by {
        assert(sv(t)[j] == t.transaction_info.value@[j] as u8);
    }
    assert(text::bytes_as_chars(sv(t)) =~= t.transaction_info.value@);
}

/// The whole serialized form is ASCII.
proof fn lemma_serialize_ascii(t: Transaction)
    requires
        t.wf(),
    ensures
        text::ascii_bytes(spec_serialize_tx(t)),
{
    reveal_strlit("{\"sender\":");
    reveal_strlit(",\"receiver\":");
    reveal_strlit(",\"signature\":");
    reveal_strlit(",\"transaction_info\":{\"value\":");
    reveal_strlit(",\"date\":");
    reveal_strlit("}}");
    t.sender.lemma_wf_stringable();
    t.receiver.lemma_wf_stringable();
    lemma_stringable_safe(t.sender@);
    lemma_stringable_safe(t.receiver@);
    lemma_hex_stringable(t.signature@);
    lemma_stringable_safe(crate::chain::utils::spec_hex_encode(t.signature@));
    lemma_number_stringable(t.transaction_info.value@);
    lemma_stringable_safe(t.transaction_info.value@);
    lemma_stringable_safe(t.transaction_info.date@);
    lemma_escape_ascii(text::chars_as_bytes(t.sender@));
    lemma_escape_ascii(text::chars_as_bytes(t.receiver@));
    lemma_escape_ascii(text::chars_as_bytes(crate::chain::utils::spec_hex_encode(t.signature@)));
    lemma_escape_ascii(text::chars_as_bytes(t.transaction_info.date@));
    lemma_stringable_safe("{\"sender\":"@);
    lemma_stringable_safe(",\"receiver\":"@);
    lemma_stringable_safe(",\"signature\":"@);
    lemma_stringable_safe(",\"transaction_info\":{\"value\":"@);
    lemma_stringable_safe(",\"date\":"@);
    lemma_stringable_safe("}}"@);
}

/// Whether the ASCII literal `lit` stands in `input` at `pos`; on success
/// the position just past it.
fn expect_lit(input: &Vec<u8>, pos: usize, lit: &str) -> (r: Option<usize>)
    requires
        vstd::utf8::is_ascii_chars(lit@),
    ensures
        match r {
            Some(p) => p == pos + lit@.len() && p <= input@.len() && input@.subrange(
                pos as int,
                p as int,
            ) == text::chars_as_bytes(lit@),
            None => !(pos + lit@.len() <= input@.len() && input@.subrange(
                pos as int,
                pos as int + lit@.len() as int,
            ) == text::chars_as_bytes(lit@)),
        },
{
    let lit_bytes = text::ascii_str_bytes(lit);
    let n = lit_bytes.len();
    if pos > input.len() || n > input.len() - pos {
        return None;
    }
    let mut i: usize = 0;
    while i < n
        invariant
            lit_bytes@ == text::chars_as_bytes(lit@),
            n == lit_bytes@.len(),
            pos + n <= input@.len(),
            input@.len() <= usize::MAX,
            0 <= i <= n,
            forall|j: int| 0 <= j < i ==> input@[pos + j] == lit_bytes@[j],
        decreases n - i,
    {
        if input[pos + i] != lit_bytes[i] {
            assert(input@.subrange(pos as int, pos as int + lit@.len() as int)[i as int]
                != text::chars_as_bytes(lit@)[i as int]);
            return None;
        }
        i = i + 1;
    }
    proof {
        assert(input@.subrange(pos as int, pos as int + lit@.len() as int) =~= text::chars_as_bytes(
            lit@,
        ));
    }
    Some(pos + n)
}

/// Escaping distributes over concatenation.
proof fn lemma_escape_concat(x: Seq<u8>, y: Seq<u8>)
    ensures
        spec_escape_bytes(x + y) == spec_escape_bytes(x) + spec_escape_bytes(y),
    decreases x.len(),
{
    if x.len() == 0 {
        assert(x + y =~= y);
        assert(spec_escape_bytes(x) + spec_escape_bytes(y) =~= spec_escape_bytes(y));
    } else {
        lemma_escape_concat(x.drop_first(), y);
        assert((x + y).drop_first() =~= x.drop_first() + y);
        assert((x + y)[0] == x[0]);
        assert(spec_escape_bytes(x + y) =~= spec_escape_bytes(x) + spec_escape_bytes(y));
    }
}

/// A quoted, escaped copy of `q` stands in `input` at `pos`.
pub open spec fn quoted_at(input: Seq<u8>, pos: int, q: Seq<u8>) -> bool {
    &&& safe_text_bytes(q)
    &&& 0 <= pos
    &&& pos + spec_quoted(q).len() <= input.len()
    &&& input.subrange(pos, pos + spec_quoted(q).len() as int) == spec_quoted(q)
}

/// Reads a quoted, escaped string from `input` at `pos`: on success the
/// unescaped content (printable ASCII or newline) and the position just
/// past the closing quote; and whenever some quoted text stands at `pos`,
/// exactly that text is returned.
fn parse_quoted(input: &Vec<u8>, pos: usize) -> (r: Option<(Vec<u8>, usize)>)
    ensures
        r matches Some(sp) ==> {
            &&& pos < sp.1 <= input@.len()
            &&& safe_text_bytes(sp.0@)
            &&& input@.subrange(pos as int, sp.1 as int) == spec_quoted(sp.0@)
        },
        forall|q: Seq<u8>|
            quoted_at(input@, pos as int, q) ==> (r matches Some(sp) && sp.0@ == q && sp.1
                == pos + spec_quoted(q).len()),
{
    if pos >= input.len() || input[pos] != 34 {
        proof {
            assert forall|q: Seq<u8>| quoted_at(input@, pos as int, q) implies false by {
                assert(input@.subrange(pos as int, pos + spec_quoted(q).len() as int)[0] == 34);
            }
        }
        return None;
    }
    let mut content: Vec<u8> = Vec::new();
    let mut cur: usize = pos + 1;
    loop
        invariant
            pos < cur <= input@.len(),
            safe_text_bytes(content@),
            input@.subrange(pos as int, cur as int) == seq![34u8] + spec_escape_bytes(content@),
            forall|q: Seq<u8>|
                quoted_at(input@, pos as int, q) ==> q.len() >= content@.len() && q.subrange(
                    0,
                    content@.len() as int,
                ) == content@,
        decreases input@.len() - cur,
    {
        proof {
            assert(input@.subrange(pos as int, cur as int).len() == 1 + spec_escape_bytes(
                content@,
            ).len());
            assert(cur as int == pos + 1 + spec_escape_bytes(content@).len());
            // where a quoted q stands, the bytes at cur continue its escaped form
            assert forall|q: Seq<u8>|
                quoted_at(input@, pos as int, q) implies spec_escape_bytes(q)
                == spec_escape_bytes(content@) + spec_escape_bytes(
                q.subrange(content@.len() as int, q.len() as int),
            ) by {
                let rest = q.subrange(content@.len() as int, q.len() as int);
                assert(q =~= q.subrange(0, content@.len() as int) + rest);
                lemma_escape_concat(content@, rest);
            }
        }
        if cur >= input.len() {
            proof {
                assert forall|q: Seq<u8>| quoted_at(input@, pos as int, q) implies false by {
                    quoted_tail_byte(input@, pos as int, q, content@);
                }
            }
            return None;
        }
        let b = input[cur];
        proof {
            assert forall|q: Seq<u8>|
                quoted_at(input@, pos as int, q) && q.len() > content@.len() implies {
                let rest = q.subrange(content@.len() as int, q.len() as int);
                spec_escape_byte(rest[0])[0] == input@[cur as int] && (
                spec_escape_byte(rest[0]).len() == 2 && cur + 1 < input@.len()
                    ==> spec_escape_byte(rest[0])[1] == input@[cur as int + 1])
            } by {
                quoted_tail_byte(input@, pos as int, q, content@);
            }
            assert forall|q: Seq<u8>|
                quoted_at(input@, pos as int, q) && q.len() == content@.len() implies input@[cur as int]
                == 34 by {
                quoted_tail_byte(input@, pos as int, q, content@);
            }
        }
        if b == 34 {
            proof {
                assert(input@.subrange(pos as int, cur as int + 1) =~= seq![34u8]
                    + spec_escape_bytes(content@) + seq![34u8]);
                assert forall|q: Seq<u8>|
                    quoted_at(input@, pos as int, q) implies q == content@ && pos + spec_quoted(
                    q,
                ).len() == cur + 1 by {
                    let rest = q.subrange(content@.len() as int, q.len() as int);
                    if q.len() > content@.len() {
                        assert(spec_escape_byte(rest[0])[0] != 34);
                    }
                    assert(q =~= content@);
                    quoted_tail_byte(input@, pos as int, q, content@);
                }
            }
            return Some((content, cur + 1));
        } else if b == 92 {
            if cur + 1 >= input.len() {
                proof {
                    assert forall|q: Seq<u8>| quoted_at(input@, pos as int, q) implies false by {
                        quoted_tail_byte(input@, pos as int, q, content@);
                        let rest = q.subrange(content@.len() as int, q.len() as int);
                        if q.len() > content@.len() {
                            assert(spec_escape_byte(rest[0])[0] == 92);
                            assert(spec_escape_byte(rest[0]).len() == 2);
                        }
                    }
                }
                return None;
            }
            let e = input[cur + 1];
            let decoded: u8 = if e == 34 {
                34
            } else if e == 92 {
                92
            } else if e == 110 {
                10
            } else {
                proof {
                    assert forall|q: Seq<u8>| quoted_at(input@, pos as int, q) implies false by {
                        quoted_tail_byte(input@, pos as int, q, content@);
                        let rest = q.subrange(content@.len() as int, q.len() as int);
                        if q.len() > content@.len() {
                            assert(spec_escape_byte(rest[0])[0] == 92);
                        }
                    }
                }
                return None;
            };
            let ghost prev = content@;
            content.push(decoded);
            proof {
                assert(content@ == prev.push(decoded));
                lemma_escape_snoc(prev, decoded);
                assert(spec_escape_bytes(content@) == spec_escape_bytes(prev) + spec_escape_byte(
                    decoded,
                ));
                assert(spec_escape_byte(decoded) =~= seq![92u8, e]);
                assert(input@.subrange(pos as int, cur as int + 2) =~= input@.subrange(
                    pos as int,
                    cur as int,
                ) + seq![input@[cur as int], input@[cur as int + 1]]);
                assert(input@.subrange(pos as int, cur as int + 2) =~= seq![34u8]
                    + spec_escape_bytes(content@));
                assert forall|q: Seq<u8>|
                    quoted_at(input@, pos as int, q) implies q.len() >= content@.len()
                    && q.subrange(0, content@.len() as int) == content@ by {
                    quoted_tail_byte(input@, pos as int, q, prev);
                    let rest = q.subrange(prev.len() as int, q.len() as int);
                    assert(q.len() > prev.len());
                    assert(spec_escape_byte(rest[0])[0] == 92);
                    assert(spec_escape_byte(rest[0])[1] == e);
                    assert(rest[0] == decoded);
                    assert(q.subrange(0, content@.len() as int) =~= prev.push(decoded));
                }
            }
            cur = cur + 2;
        } else if 32 <= b && b <= 126 {
            let ghost prev = content@;
            content.push(b);
            proof {
                assert(content@ == prev.push(b));
                lemma_escape_snoc(prev, b);
                assert(spec_escape_bytes(content@) == spec_escape_bytes(prev) + spec_escape_byte(
                    b,
                ));
                assert(spec_escape_byte(b) =~= seq![b]);
                assert(input@.subrange(pos as int, cur as int + 1) =~= input@.subrange(
                    pos as int,
                    cur as int,
                ) + seq![input@[cur as int]]);
                assert(input@.subrange(pos as int, cur as int + 1) =~= seq![34u8]
                    + spec_escape_bytes(content@));
                assert forall|q: Seq<u8>|
                    quoted_at(input@, pos as int, q) implies q.len() >= content@.len()
                    && q.subrange(0, content@.len() as int) == content@ by {
                    quoted_tail_byte(input@, pos as int, q, prev);
                    let rest = q.subrange(prev.len() as int, q.len() as int);
                    assert(q.len() > prev.len());
                    assert(rest[0] == b);
                    assert(q.subrange(0, content@.len() as int) =~= prev.push(b));
                }
            }
            cur = cur + 1;
        } else {
            proof {
                assert forall|q: Seq<u8>| quoted_at(input@, pos as int, q) implies false by {
                    quoted_tail_byte(input@, pos as int, q, content@);
                    let rest = q.subrange(content@.len() as int, q.len() as int);
                    if q.len() > content@.len() {
                        assert(32 <= rest[0] <= 126 || rest[0] == 10);
                        assert(spec_escape_byte(rest[0])[0] == input@[cur as int]);
                    }
                }
            }
            return None;
        }
    }
}

/// Where a quoted copy of `q` stands at `pos` and `a` is the part already
/// decoded, the byte after the decoded part continues `q`'s escaped form
/// — or closes the quote when `q` is exhausted.
proof fn quoted_tail_byte(input: Seq<u8>, pos: int, q: Seq<u8>, a: Seq<u8>)
    requires
        quoted_at(input, pos, q),
        q.len() >= a.len(),
        q.subrange(0, a.len() as int) == a,
    ensures
        pos + 1 + spec_escape_bytes(a).len() + 1 <= pos + spec_quoted(q).len(),
        q.len() == a.len() ==> {
            &&& input[pos + 1 + spec_escape_bytes(a).len()] == 34
            &&& pos + spec_quoted(q).len() == pos + 1 + spec_escape_bytes(a).len() + 1
        },
        q.len() > a.len() ==> {
            let rest = q.subrange(a.len() as int, q.len() as int);
            &&& rest.len() > 0
            &&& spec_escape_bytes(q) == spec_escape_bytes(a) + spec_escape_byte(rest[0])
                + spec_escape_bytes(rest.drop_first())
            &&& input[pos + 1 + spec_escape_bytes(a).len()] == spec_escape_byte(rest[0])[0]
            &&& (spec_escape_byte(rest[0]).len() == 2 ==> input[pos + 1 + spec_escape_bytes(
                a,
            ).len() + 1] == spec_escape_byte(rest[0])[1])
        },
{
    let rest = q.subrange(a.len() as int, q.len() as int);
    assert(q =~= a + rest);
    lemma_escape_concat(a, rest);
    let quoted = spec_quoted(q);
    assert(quoted.len() == 2 + spec_escape_bytes(q).len());
    assert(input.subrange(pos, pos + quoted.len() as int) == quoted);
    let ea = spec_escape_bytes(a);
    let off: int = 1 + ea.len() as int;
    if q.len() == a.len() {
        assert(rest =~= Seq::<u8>::empty());
        assert(spec_escape_bytes(rest) =~= Seq::<u8>::empty());
        assert(spec_escape_bytes(q) =~= ea);
        assert(quoted[off] == 34);
        assert(input[pos + off] == input.subrange(pos, pos + quoted.len() as int)[off]);
    } else {
        assert(spec_escape_bytes(rest) == spec_escape_byte(rest[0]) + spec_escape_bytes(
            rest.drop_first(),
        ));
        assert(spec_escape_bytes(q) =~= ea + spec_escape_byte(rest[0]) + spec_escape_bytes(
            rest.drop_first(),
        ));
        assert(spec_escape_byte(rest[0]).len() >= 1);
        assert(spec_escape_bytes(q)[ea.len() as int] == spec_escape_byte(rest[0])[0]);
        assert(quoted[off] == spec_escape_bytes(q)[ea.len() as int]);
        assert(input[pos + off] == input.subrange(pos, pos + quoted.len() as int)[off]);
        if spec_escape_byte(rest[0]).len() == 2 {
            assert(spec_escape_bytes(q)[ea.len() as int + 1] == spec_escape_byte(rest[0])[1]);
            assert(quoted[off + 1] == spec_escape_bytes(q)[ea.len() as int + 1]);
            assert(input[pos + off + 1] == input.subrange(pos, pos + quoted.len() as int)[off
                + 1]);
        }
    }
}

/// Turns lowercase hex text back into bytes: succeeds exactly on even-
/// length lowercase hex, and the result hex-encodes back to the input.
fn decode_hex(content: &Vec<u8>) -> (r: Option<Vec<u8>>)
    ensures
        r matches Some(sig) ==> content@ == text::chars_as_bytes(
            crate::chain::utils::spec_hex_encode(sig@),
        ),
        forall|d: Seq<u8>|
            content@ == text::chars_as_bytes(#[trigger] crate::chain::utils::spec_hex_encode(d))
                ==> (r matches Some(sig) && sig@ == d),
{
    if content.len() % 2 != 0 {
        proof {
            assert forall|d: Seq<u8>|
                content@ == text::chars_as_bytes(
                    #[trigger] crate::chain::utils::spec_hex_encode(d),
                ) implies false by {
                assert(content@.len() == 2 * d.len());
            }
        }
        return None;
    }
    let pairs = content.len() / 2;
    assert(content@.len() == pairs * 2) by (nonlinear_arith)
        requires
            content@.len() % 2 == 0,
            pairs == content@.len() / 2,
    ;
    let mut sig: Vec<u8> = Vec::new();
    let mut i: usize = 0;
    while i < pairs
        invariant
            content@.len() == pairs * 2,
            content@.len() <= usize::MAX,
            0 <= i <= pairs,
            sig@.len() == i,
            forall|k: int| 0 <= k < 2 * i ==> content@[k] == text::chars_as_bytes(
                crate::chain::utils::spec_hex_encode(sig@),
            )[k],
        decreases pairs - i,
    {
        proof {
            assert forall|d: Seq<u8>|
                content@ == text::chars_as_bytes(
                    #[trigger] crate::chain::utils::spec_hex_encode(d),
                ) implies {
                &&& d.len() == pairs
                &&& content@[2 * i as int] == (crate::chain::utils::hex_digit(
                    d[i as int] as int / 16,
                ) as u8)
                &&& content@[2 * i as int + 1] == (crate::chain::utils::hex_digit(
                    d[i as int] as int % 16,
                ) as u8)
            } by {
                let h = crate::chain::utils::spec_hex_encode(d);
                assert(content@.len() == 2 * d.len());
                assert(content@[2 * i as int] == h[2 * i as int] as u8);
                assert(content@[2 * i as int + 1] == h[2 * i as int + 1] as u8);
                assert(h[2 * i as int] == crate::chain::utils::hex_digit(d[i as int] as int / 16));
                assert(h[2 * i as int + 1] == crate::chain::utils::hex_digit(
                    d[i as int] as int % 16,
                ));
            }
        }
        let hi = match hex_nibble(content[2 * i]) {
            Some(v) => v,
            None => {
                proof {
                    assert forall|d: Seq<u8>|
                        content@ == text::chars_as_bytes(
                            #[trigger] crate::chain::utils::spec_hex_encode(d),
                        ) implies false by {
                        assert(0 <= d[i as int] as int / 16 < 16);
                    }
                }
                return None;
            },
        };
        let lo = match hex_nibble(content[2 * i + 1]) {
            Some(v) => v,
            None => {
                proof {
                    assert forall|d: Seq<u8>|
                        content@ == text::chars_as_bytes(
                            #[trigger] crate::chain::utils::spec_hex_encode(d),
                        ) implies false by {
                        assert(0 <= d[i as int] as int % 16 < 16);
                    }
                }
                return None;
            },
        };
        let b: u8 = hi * 16 + lo;
        sig.push(b);
        proof {
            assert(b as int / 16 == hi as int && b as int % 16 == lo as int) by (nonlinear_arith)
                requires
                    hi < 16,
                    lo < 16,
                    b == hi * 16 + lo,
            ;
            let h = crate::chain::utils::spec_hex_encode(sig@);
            assert forall|k: int| 0 <= k < 2 * (i + 1) implies content@[k] == text::chars_as_bytes(
                h,
            )[k] by {
                let hprev = crate::chain::utils::spec_hex_encode(sig@.drop_last());
                assert(sig@.drop_last() =~= sig@.subrange(0, i as int));
                if k < 2 * i {
                    assert(h[k] == hprev[k]);
                } else {
                    assert(h[k] == if k % 2 == 0 {
                        crate::chain::utils::hex_digit(sig@[k / 2] as int / 16)
                    } else {
                        crate::chain::utils::hex_digit(sig@[k / 2] as int % 16)
                    });
                }
            }
        }
        i = i + 1;
    }
    proof {
        assert(content@ =~= text::chars_as_bytes(crate::chain::utils::spec_hex_encode(sig@)));
        assert forall|d: Seq<u8>|
            content@ == text::chars_as_bytes(
                #[trigger] crate::chain::utils::spec_hex_encode(d),
            ) implies sig@ == d by {
            let hs = crate::chain::utils::spec_hex_encode(sig@);
            let hd = crate::chain::utils::spec_hex_encode(d);
            assert(content@.len() == 2 * d.len() && content@.len() == 2 * sig@.len());
            assert forall|k: int| 0 <= k < sig@.len() implies sig@[k] == d[k] by {
                assert(content@[2 * k] == hs[2 * k] as u8 && content@[2 * k] == hd[2 * k] as u8);
                assert(content@[2 * k + 1] == hs[2 * k + 1] as u8 && content@[2 * k + 1] == hd[2
                    * k + 1] as u8);
                assert(hs[2 * k] == crate::chain::utils::hex_digit(sig@[k] as int / 16));
                assert(hd[2 * k] == crate::chain::utils::hex_digit(d[k] as int / 16));
                assert(hs[2 * k + 1] == crate::chain::utils::hex_digit(sig@[k] as int % 16));
                assert(hd[2 * k + 1] == crate::chain::utils::hex_digit(d[k] as int % 16));
                lemma_hex_digit_byte_injective(sig@[k] as int / 16, d[k] as int / 16);
                lemma_hex_digit_byte_injective(sig@[k] as int % 16, d[k] as int % 16);
            }
            assert(sig@ =~= d);
        }
    }
    Some(sig)
}

/// Distinct nibble values render as distinct hex digit bytes.
proof fn lemma_hex_digit_byte_injective(x: int, y: int)
    requires
        0 <= x < 16,
        0 <= y < 16,
        (crate::chain::utils::hex_digit(x) as u8) == (crate::chain::utils::hex_digit(y) as u8),
    ensures
        x == y,
{
}

/// The value of one lowercase hex digit byte.
fn hex_nibble(b: u8) -> (r: Option<u8>)
    ensures
        r matches Some(v) ==> v < 16 && (crate::chain::utils::hex_digit(v as int) as u8) == b,
        r is None ==> forall|v: int|
            0 <= v < 16 ==> (crate::chain::utils::hex_digit(v) as u8) != b,
{
    if 48 <= b && b <= 57 {
        Some(b - 48)
    } else if 97 <= b && b <= 102 {
        Some(b - 97 + 10)
    } else {
        None
    }
}

/// Collects the numeral bytes (digits, point, minus) standing at `pos`.
fn scan_number_token(input: &Vec<u8>, pos: usize) -> (r: (Vec<u8>, usize))
    requires
        pos <= input@.len(),
    ensures
        pos <= r.1 <= input@.len(),
        input@.subrange(pos as int, r.1 as int) == r.0@,
        forall|j: int| 0 <= j < r.0@.len() ==> (#[trigger] r.0@[j] == 45 || r.0@[j] == 46 || (48
            <= r.0@[j] <= 57)),
        r.1 < input@.len() ==> !(input@[r.1 as int] == 45 || input@[r.1 as int] == 46 || (48
            <= input@[r.1 as int] <= 57)),
{
    let mut token: Vec<u8> = Vec::new();
    let mut cur: usize = pos;
    while cur < input.len() && (input[cur] == 45 || input[cur] == 46 || (48 <= input[cur]
        && input[cur] <= 57))
        invariant
            pos <= cur <= input@.len(),
            input@.subrange(pos as int, cur as int) == token@,
            forall|j: int| 0 <= j < token@.len() ==> (#[trigger] token@[j] == 45 || token@[j]
                == 46 || (48 <= token@[j] <= 57)),
        decreases input@.len() - cur,
    {
        token.push(input[cur]);
        proof {
            assert(input@.subrange(pos as int, cur as int + 1) =~= token@);
        }
        cur = cur + 1;
    }
    (token, cur)
}

/// Whether `token` is a well-formed decimal numeral.
fn check_number(token: &Vec<u8>) -> (r: bool)
    ensures
        r == wf_number(text::bytes_as_chars(token@)),
{
    let ghost chars = text::bytes_as_chars(token@);
    let start: usize = if token.len() > 0 && token[0] == 45 {
        1
    } else {
        0
    };
    proof {
        if token@.len() > 0 {
            assert(chars[0] == token@[0] as char);
        }
        if start == 1 {
            assert(chars.subrange(1, chars.len() as int) =~= text::bytes_as_chars(
                token@.subrange(1, token@.len() as int),
            ));
        }
    }
    let ghost body = if start == 1 {
        chars.subrange(1, chars.len() as int)
    } else {
        chars
    };
    if token.len() == start {
        assert(body.len() == 0);
        assert(!numeral_body_ok(body));
        return false;
    }
    proof {
        if start == 1 {
            assert(body[0] == chars[1]);
            assert(body[body.len() - 1] == chars[chars.len() - 1]);
        }
        assert(chars[start as int] as u8 == token@[start as int]);
        assert(chars[chars.len() - 1] as u8 == token@[token@.len() - 1]);
    }
    if !(48 <= token[start] && token[start] <= 57) {
        assert(!text::is_digit_char(body[0]));
        assert(!numeral_body_ok(body));
        return false;
    }
    if !(48 <= token[token.len() - 1] && token[token.len() - 1] <= 57) {
        assert(!text::is_digit_char(body[body.len() - 1]));
        assert(!numeral_body_ok(body));
        return false;
    }
    proof {
        assert(chars[0] as int == token@[0] as int);
        assert('-' as int == 45);
        if start == 1 {
            assert(chars.len() > 0 && chars[0] == '-');
        } else {
            assert(chars[0] != '-');
        }
        assert(wf_number(chars) == numeral_body_ok(body));
    }
    let mut dots: usize = 0;
    let ghost mut first_dot: int = -1;
    let mut i: usize = start;
    while i < token.len()
        invariant
            start <= i <= token@.len(),
            start <= 1,
            start < token@.len(),
            chars == text::bytes_as_chars(token@),
            wf_number(chars) == numeral_body_ok(body),
            body == if start == 1 {
                chars.subrange(1, chars.len() as int)
            } else {
                chars
            },
            forall|j: int| start <= j < i ==> (text::is_digit_char(#[trigger] chars[j]) || chars[j]
                == '.'),
            dots <= 1,
            dots == 0 ==> forall|j: int| start <= j < i ==> #[trigger] chars[j] != '.',
            dots == 1 ==> start <= first_dot < i && chars[first_dot] == '.' && forall|j: int|
                start <= j < i && j != first_dot ==> #[trigger] chars[j] != '.',
        decreases token@.len() - i,
    {
        let b = token[i];
        if b == 46 {
            if dots > 0 {
                proof {
                    assert(chars[first_dot] == '.' && chars[i as int] == '.');
                    if start == 1 {
                        assert(body[first_dot - 1] == '.' && body[i as int - 1] == '.');
                    } else {
                        assert(body[first_dot] == '.' && body[i as int] == '.');
                    }
                    assert(!numeral_body_ok(body));
                }
                return false;
            }
            dots = 1;
            proof {
                first_dot = i as int;
            }
        } else if !(48 <= b && b <= 57) {
            proof {
                assert(chars[i as int] == b as char);
                assert(chars[i as int] as u8 == b);
                assert(!(text::is_digit_char(chars[i as int]) || chars[i as int] == '.'));
                if start == 1 {
                    assert(body[i as int - 1] == chars[i as int]);
                } else {
                    assert(body[i as int] == chars[i as int]);
                }
                assert(!numeral_body_ok(body));
            }
            return false;
        }
        i = i + 1;
    }
    proof {
        assert forall|j: int| 0 <= j < body.len() implies (text::is_digit_char(#[trigger] body[j])
            || body[j] == '.') by {
            if start == 1 {
                assert(body[j] == chars[j + 1]);
            }
        }
        assert(text::is_digit_char(body[0]));
        assert(text::is_digit_char(body[body.len() - 1]));
        assert forall|a: int, b2: int|
            0 <= a < b2 < body.len() && #[trigger] body[a] == '.' && #[trigger] body[b2]
                == '.' implies false by {
            let sa = if start == 1 {
                a + 1
            } else {
                a
            };
            let sb = if start == 1 {
                b2 + 1
            } else {
                b2
            };
            assert(chars[sa] == '.' && chars[sb] == '.');
            if dots == 0 {
                assert(chars[sa] != '.');
            } else {
                assert(sa != first_dot || sb != first_dot);
                if sa != first_dot {
                    assert(chars[sa] != '.');
                } else {
                    assert(chars[sb] != '.');
                }
            }
        }
        assert(numeral_body_ok(body));
        if start == 1 {
            assert(chars.len() > 0 && chars[0] == '-');
        } else {
            if chars.len() > 0 {
                assert(chars[0] == token@[0] as char);
                assert(chars[0] != '-');
            }
        }
    }
    true
}

/// Whether `token` denotes a strictly positive value.
fn check_positive(token: &Vec<u8>) -> (r: bool)
    ensures
        r == positive_number(text::bytes_as_chars(token@)),
{
    let ghost chars = text::bytes_as_chars(token@);
    if !check_number(token) {
        return false;
    }
    if token.len() == 0 {
        return false;
    }
    if token[0] == 45 {
        assert(chars[0] == token@[0] as char);
        return false;
    }
    proof {
        assert(chars[0] as int == token@[0] as int);
        assert('-' as int == 45);
        assert(chars[0] != '-');
    }
    let mut i: usize = 0;
    while i < token.len()
        invariant
            0 <= i <= token@.len(),
            token@.len() > 0,
            chars == text::bytes_as_chars(token@),
            wf_number(chars),
            chars[0] != '-',
            forall|j: int| 0 <= j < i ==> !(text::is_digit_char(#[trigger] chars[j]) && chars[j]
                != '0'),
        decreases token@.len() - i,
    {
        let b = token[i];
        if 49 <= b && b <= 57 {
            proof {
                assert(chars[i as int] as u8 == token@[i as int]);
                assert(text::is_digit_char(chars[i as int]) && chars[i as int] != '0');
                assert(positive_number(chars));
            }
            return true;
        }
        proof {
            assert(chars[i as int] == b as char);
        }
        i = i + 1;
    }
    proof {
        assert forall|j: int| 0 <= j < chars.len() implies !(text::is_digit_char(
            #[trigger] chars[j],
        ) && chars[j] != '0') by {
            assert(chars[j] as u8 == token@[j]);
        }
    }
    false
}

/// The `", "` separator as bytes.
fn sep_comma_space() -> (r: Vec<u8>)
    ensures
        r@ == text::chars_as_bytes(", "@),
        text::ascii_bytes(r@),
{
    let s = String::from_str(", ");
    proof {
        reveal_strlit(", ");
    }
    let r = text::ascii_str_bytes(s.as_str());
    proof {
        assert(text::ascii_bytes(r@));
    }
    r
}

// ---------------------------------------------------------------------------
// The structured wire encoding: a small field-tagged JSON form.
// ---------------------------------------------------------------------------

/// Bytes that may stand, escaped, inside a serialized string: printable
/// ASCII or a newline.
pub open spec fn safe_text_bytes(s: Seq<u8>) -> bool {
    forall|i: int| 0 <= i < s.len() ==> (32 <= #[trigger] s[i] <= 126 || s[i] == 10)
}

/// How one byte is written inside a serialized string: quote, backslash
/// and newline carry a backslash escape, everything else stands as is.
pub open spec fn spec_escape_byte(b: u8) -> Seq<u8> {
    if b == 34 {
        seq![92u8, 34u8]
    } else if b == 92 {
        seq![92u8, 92u8]
    } else if b == 10 {
        seq![92u8, 110u8]
    } else {
        seq![b]
    }
}

/// The escaped form of a byte string.
pub open spec fn spec_escape_bytes(s: Seq<u8>) -> Seq<u8>
    decreases s.len(),
{
    if s.len() == 0 {
        Seq::empty()
    } else {
        spec_escape_byte(s[0]) + spec_escape_bytes(s.drop_first())
    }
}

proof fn lemma_escape_snoc(s: Seq<u8>, c: u8)
    ensures
        spec_escape_bytes(s.push(c)) == spec_escape_bytes(s) + spec_escape_byte(c),
    decreases s.len(),
{
    let p = s.push(c);
    assert(p.len() > 0 && p[0] == if s.len() == 0 { c } else { s[0] });
    if s.len() == 0 {
        assert(p.drop_first() =~= Seq::<u8>::empty());
        assert(spec_escape_bytes(p) == spec_escape_byte(c) + spec_escape_bytes(p.drop_first()));
        assert(spec_escape_bytes(p) =~= spec_escape_bytes(s) + spec_escape_byte(c));
    } else {
        lemma_escape_snoc(s.drop_first(), c);
        assert(p.drop_first() =~= s.drop_first().push(c));
        assert(spec_escape_bytes(p) == spec_escape_byte(s[0]) + spec_escape_bytes(p.drop_first()));
        assert(spec_escape_bytes(s) == spec_escape_byte(s[0]) + spec_escape_bytes(s.drop_first()));
        assert(spec_escape_bytes(p) =~= spec_escape_bytes(s) + spec_escape_byte(c));
    }
}

pub(crate) proof fn lemma_escape_ascii(s: Seq<u8>)
    requires
        safe_text_bytes(s),
    ensures
        text::ascii_bytes(spec_escape_bytes(s)),
    decreases s.len(),
{
    if s.len() > 0 {
        lemma_escape_ascii(s.drop_first());
    }
}

/// A string as serialized: a quote, the escaped content, a quote.
pub open spec fn spec_quoted(s: Seq<u8>) -> Seq<u8> {
    seq![34u8] + spec_escape_bytes(s) + seq![34u8]
}

/// The serialized form of a transaction: field-tagged, with the key texts
/// and date as escaped strings, the signature hex-encoded, and the value
/// numeral written bare.
pub open spec fn spec_serialize_tx(t: Transaction) -> Seq<u8> {
    text::chars_as_bytes("{\"sender\":"@) + spec_quoted(text::chars_as_bytes(t.sender@))
        + text::chars_as_bytes(",\"receiver\":"@) + spec_quoted(
        text::chars_as_bytes(t.receiver@),
    ) + text::chars_as_bytes(",\"signature\":"@) + spec_quoted(
        text::chars_as_bytes(crate::chain::utils::spec_hex_encode(t.signature@)),
    ) + text::chars_as_bytes(",\"transaction_info\":{\"value\":"@) + text::chars_as_bytes(
        t.transaction_info.value@,
    ) + text::chars_as_bytes(",\"date\":"@) + spec_quoted(
        text::chars_as_bytes(t.transaction_info.date@),
    ) + text::chars_as_bytes("}}"@)
}

/// Printable text maps to safe bytes.
pub(crate) proof fn lemma_stringable_safe(s: Seq<char>)
    requires
        json_stringable(s),
    ensures
        safe_text_bytes(text::chars_as_bytes(s)),
        text::ascii_bytes(text::chars_as_bytes(s)),
{
    assert forall|i: int| 0 <= i < s.len() implies (32 <= #[trigger] text::chars_as_bytes(s)[i]
        <= 126 || text::chars_as_bytes(s)[i] == 10) by {
        assert(s[i] as u8 == text::chars_as_bytes(s)[i]);
    }
}

/// Printable text survives the trip through its bytes.
pub(crate) proof fn lemma_chars_roundtrip(s: Seq<char>)
    requires
        json_stringable(s),
    ensures
        text::bytes_as_chars(text::chars_as_bytes(s)) == s,
{
    assert forall|i: int| 0 <= i < s.len() implies #[trigger] text::bytes_as_chars(
        text::chars_as_bytes(s),
    )[i] == s[i] by {
        assert(text::chars_as_bytes(s)[i] == s[i] as u8);
    }
    assert(text::bytes_as_chars(text::chars_as_bytes(s)) =~= s);
}

/// Safe bytes map to printable text.
proof fn lemma_safe_stringable(s: Seq<u8>)
    requires
        safe_text_bytes(s),
    ensures
        json_stringable(text::bytes_as_chars(s)),
        text::ascii_bytes(s),
{
    assert forall|i: int| 0 <= i < s.len() implies (' ' <= #[trigger] text::bytes_as_chars(
        s,
    )[i] <= '~' || text::bytes_as_chars(s)[i] == '\n') by {
        assert(text::bytes_as_chars(s)[i] == s[i] as char);
    }
}

/// Hex text is printable.
proof fn lemma_hex_stringable(b: Seq<u8>)
    ensures
        json_stringable(crate::chain::utils::spec_hex_encode(b)),
{
    let h = crate::chain::utils::spec_hex_encode(b);
    assert forall|i: int| 0 <= i < h.len() implies (' ' <= #[trigger] h[i] <= '~' || h[i]
        == '\n') by {
        assert(h[i] == if i % 2 == 0 {
            crate::chain::utils::hex_digit(b[i / 2] as int / 16)
        } else {
            crate::chain::utils::hex_digit(b[i / 2] as int % 16)
        });
    }
}

/// A well-formed numeral is printable.
proof fn lemma_number_stringable(s: Seq<char>)
    requires
        wf_number(s),
    ensures
        json_stringable(s),
{
    if s.len() > 0 && s[0] == '-' {
        let body = s.subrange(1, s.len() as int);
        assert forall|i: int| 0 <= i < s.len() implies (' ' <= #[trigger] s[i] <= '~' || s[i]
            == '\n') by {
            if i > 0 {
                assert(body[i - 1] == s[i]);
            }
        }
    }
}

/// Appends an ASCII literal to a byte buffer.
pub(crate) fn push_lit(out: &mut Vec<u8>, lit: &str)
    requires
        vstd::utf8::is_ascii_chars(lit@),
    ensures
        final(out)@ == old(out)@ + text::chars_as_bytes(lit@),
{
    let mut bytes = text::ascii_str_bytes(lit);
    out.append(&mut bytes);
}

/// Appends the quoted, escaped form of `s` to a byte buffer.
pub(crate) fn push_quoted(out: &mut Vec<u8>, s: &str)
    requires
        json_stringable(s@),
    ensures
        final(out)@ == old(out)@ + spec_quoted(text::chars_as_bytes(s@)),
{
    proof {
        text::lemma_json_stringable_ascii(s@);
    }
    let content = text::ascii_str_bytes(s);
    let ghost cb = text::chars_as_bytes(s@);
    out.push(34);
    let mut i: usize = 0;
    while i < content.len()
        invariant
            content@ == cb,
            0 <= i <= cb.len(),
            out@ == old(out)@ + seq![34u8] + spec_escape_bytes(cb.subrange(0, i as int)),
        decreases cb.len() - i,
    {
        let b = content[i];
        if b == 34 {
            out.push(92);
            out.push(34);
        } else if b == 92 {
            out.push(92);
            out.push(92);
        } else if b == 10 {
            out.push(92);
            out.push(110);
        } else {
            out.push(b);
        }
        proof {
            let pre = cb.subrange(0, i as int);
            let post = cb.subrange(0, i as int + 1);
            assert(post =~= pre.push(cb[i as int]));
            lemma_escape_snoc(pre, cb[i as int]);
            assert(out@ =~= old(out)@ + seq![34u8] + spec_escape_bytes(post));
        }
        i = i + 1;
    }
    out.push(34);
    proof {
        assert(cb.subrange(0, cb.len() as int) =~= cb);
        assert(out@ =~= old(out)@ + spec_quoted(cb));
    }
}

/// A well-formed numeral holds no colon.
proof fn lemma_number_no_colon(v: Seq<char>)
    requires
        wf_number(v),
    ensures
        forall|i: int| 0 <= i < v.len() ==> #[trigger] v[i] != ':',
{
    if v.len() > 0 && v[0] == '-' {
        let body = v.subrange(1, v.len() as int);
        assert forall|i: int| 0 <= i < v.len() implies #[trigger] v[i] != ':' by {
            if i > 0 {
                assert(body[i - 1] == v[i]);
            }
        }
    }
}

} // verus!
