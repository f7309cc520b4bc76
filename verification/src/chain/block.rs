//! Blocks: hashing over a delimited textual preimage, construction on top
//! of a chain, the hard-coded genesis block, and proof-of-work mining.

use vstd::prelude::*;
use crate::chain::transaction::Transaction;
use crate::chain::utils;
use crate::chain::utils::PROOF_OF_WORK_DIFFICULTY;
use crate::chain::Chain;
use crate::clock;
use crate::text;
use vstd::string::StringSliceAdditionalSpecFns;
#[allow(unused_imports)]
use vstd::utf8::encode_utf8;

verus! {

/// The transaction section of a block's preimage: each transaction's
/// textual form, joined with the transaction delimiter.
pub open spec fn spec_tx_join(txs: Seq<Transaction>) -> Seq<char>
    decreases txs.len(),
{
    if txs.len() == 0 {
        Seq::empty()
    } else if txs.len() == 1 {
        txs[0].spec_text()
    } else {
        spec_tx_join(txs.drop_last()) + "::END_OF_TRANSACTION::BEGIN_OF_TRANSACTION::"@
            + txs.last().spec_text()
    }
}

/// The delimited string a block hash is computed over: every field wrapped
/// in literal section markers.
pub open spec fn spec_block_preimage(
    previous_hash: Seq<char>,
    transactions: Seq<Transaction>,
    index: i64,
    timestamp: Seq<char>,
    nonce: u64,
) -> Seq<char> {
    "BEGIN::BEGIN_PREVIOUS_HASH::"@ + previous_hash
        + "::END_PREVIOUS_HASH::BEGIN_TRANSACTIONS::BEGIN_OF_TRANSACTION::"@ + spec_tx_join(
        transactions,
    ) + "::END_OF_TRANSACTION::END_TRANSACTIONS::BEGIN_INDEX::"@ + text::spec_i64_chars(
        index as int,
    ) + "::END_INDEX::BEGIN_TIMESTAMP::"@ + timestamp + "::END_TIMESTAMP::BEGIN_NONCE::"@
        + text::spec_u64_chars(nonce as nat) + "::END_NONCE::END"@
}

/// A block's hash: the SHA-256 digest of the preimage's UTF-8 bytes, hex
/// encoded. A pure function of the five fields it mentions.
pub open spec fn spec_block_hash(
    previous_hash: Seq<char>,
    transactions: Seq<Transaction>,
    index: i64,
    timestamp: Seq<char>,
    nonce: u64,
) -> Seq<char> {
    utils::spec_hex_encode(
        utils::sha256_of(
            encode_utf8(
                spec_block_preimage(previous_hash, transactions, index, timestamp, nonce),
            ),
        ),
    )
}

/// Whether a hash satisfies the proof of work: at least the required
/// number of leading `'0'` characters.
pub open spec fn spec_pow_ok(hash: Seq<char>) -> bool {
    hash.len() >= PROOF_OF_WORK_DIFFICULTY && forall|i: int|
        0 <= i < PROOF_OF_WORK_DIFFICULTY ==> hash[i] == '0'
}

/// The hard-coded genesis block: fixed previous-hash text, index zero, a
/// fixed hash string, no transactions, nonce zero. Its timestamp is the
/// clock reading at creation, which no contract constrains.
pub open spec fn spec_is_genesis(b: Block) -> bool {
    &&& b.spec_previous_hash() == "Foguete nao da re"@
    &&& b.spec_transactions().len() == 0
    &&& b.spec_index() == 0
    &&& b.spec_hash()
        == "The Times 03/Jan/2009 Chancellor on brink of second bailout for banks"@
    &&& b.spec_nonce() == 0
}

/// One sealed block of the chain.
#[derive(Clone)]
pub struct Block {
    previous_hash: String,
    transactions: Vec<Transaction>,
    index: i64,
    timestamp: String,
    hash: String,
    nonce: u64,
}

/// Builds the preimage and hashes it: the single definition both
/// `calculate_hash` and mining step through.
fn hash_fields(
    previous_hash: &String,
    transactions: &Vec<Transaction>,
    index: i64,
    timestamp: &String,
    nonce: u64,
) -> (r: String)
    ensures
        r@ == spec_block_hash(previous_hash@, transactions@, index, timestamp@, nonce),
{
    let mut joined = String::new();
    let mut i: usize = 0;
    while i < transactions.len()
        invariant
            0 <= i <= transactions@.len(),
            joined@ == spec_tx_join(transactions@.subrange(0, i as int)),
        decreases transactions@.len() - i,
    {
        if i > 0 {
            joined.append("::END_OF_TRANSACTION::BEGIN_OF_TRANSACTION::");
        }
        let tx_text = transactions[i].to_string();
        joined.append(tx_text.as_str());
        proof {
            let pre = transactions@.subrange(0, i as int);
            let post = transactions@.subrange(0, i as int + 1);
            assert(post.drop_last() =~= pre);
            assert(post.last() == transactions@[i as int]);
            assert(joined@ =~= spec_tx_join(post));
        }
        i = i + 1;
    }
    proof {
        assert(transactions@.subrange(0, transactions@.len() as int) =~= transactions@);
    }
    let mut preimage = String::from_str("BEGIN::BEGIN_PREVIOUS_HASH::");
    preimage.append(previous_hash.as_str());
    preimage.append("::END_PREVIOUS_HASH::BEGIN_TRANSACTIONS::BEGIN_OF_TRANSACTION::");
    preimage.append(joined.as_str());
    preimage.append("::END_OF_TRANSACTION::END_TRANSACTIONS::BEGIN_INDEX::");
    let index_text = text::i64_to_string(index);
    preimage.append(index_text.as_str());
    preimage.append("::END_INDEX::BEGIN_TIMESTAMP::");
    preimage.append(timestamp.as_str());
    preimage.append("::END_TIMESTAMP::BEGIN_NONCE::");
    let nonce_text = text::u64_to_string(nonce);
    preimage.append(nonce_text.as_str());
    preimage.append("::END_NONCE::END");
    proof {
        assert(preimage@ =~= spec_block_preimage(
            previous_hash@,
            transactions@,
            index,
            timestamp@,
            nonce,
        ));
    }
    let digest = utils::sha256_digest(preimage.as_str().as_bytes());
    utils::hex_encode(digest.as_slice())
}

/// Whether the hash text has the required leading `'0'` characters.
fn has_pow_prefix(hash: &String) -> (r: bool)
    ensures
        r == spec_pow_ok(hash@),
{
    let difficulty: usize = PROOF_OF_WORK_DIFFICULTY as usize;
    if hash.as_str().unicode_len() < difficulty {
        return false;
    }
    let mut i: usize = 0;
    while i < difficulty
        invariant
            difficulty == PROOF_OF_WORK_DIFFICULTY,
            difficulty <= hash@.len(),
            0 <= i <= difficulty,
            forall|j: int| 0 <= j < i ==> hash@[j] == '0',
        decreases difficulty - i,
    {
        if hash.as_str().get_char(i) != '0' {
            return false;
        }
        i = i + 1;
    }
    true
}

impl Block {
    /// The previous block's hash text.
    pub closed spec fn spec_previous_hash(&self) -> Seq<char> {
        self.previous_hash@
    }

    /// The transactions sealed into this block.
    pub closed spec fn spec_transactions(&self) -> Seq<Transaction> {
        self.transactions@
    }

    /// The block's position in the chain.
    pub closed spec fn spec_index(&self) -> i64 {
        self.index
    }

    /// The creation timestamp text.
    pub closed spec fn spec_timestamp(&self) -> Seq<char> {
        self.timestamp@
    }

    /// The block's hash text.
    pub closed spec fn spec_hash(&self) -> Seq<char> {
        self.hash@
    }

    /// The proof-of-work counter.
    pub closed spec fn spec_nonce(&self) -> u64 {
        self.nonce
    }

    /// The block's hash field equals the hash of its other fields.
    pub open spec fn spec_sealed(&self) -> bool {
        self.spec_hash() == spec_block_hash(
            self.spec_previous_hash(),
            self.spec_transactions(),
            self.spec_index(),
            self.spec_timestamp(),
            self.spec_nonce(),
        )
    }

    /// The block's hash text.
    pub fn get_hash(&self) -> (r: String)
        ensures
            r@ == self.spec_hash(),
    {
        self.hash.clone()
    }

    /// The block's position in the chain.
    pub fn get_index(&self) -> (r: i64)
        ensures
            r == self.spec_index(),
    {
        self.index
    }

    /// Recomputes the block's hash from its fields: a pure function of
    /// `(previous_hash, transactions, index, timestamp, nonce)`, so two
    /// blocks with equal fields always hash alike.
    pub fn calculate_hash(&self) -> (r: String)
        ensures
            r@ == spec_block_hash(
                self.spec_previous_hash(),
                self.spec_transactions(),
                self.spec_index(),
                self.spec_timestamp(),
                self.spec_nonce(),
            ),
    {
        hash_fields(&self.previous_hash, &self.transactions, self.index, &self.timestamp, self.nonce)
    }

    /// Builds the next block on top of `chain`: reads the last hash and
    /// index (creating the genesis block first if the chain is empty),
    /// stamps the current time, starts the nonce at zero and seals the
    /// hash.
    pub fn new(chain: &mut Chain, transactions: Vec<Transaction>) -> (r: Block)
        requires
            old(chain).spec_blocks().len() > 0 ==> old(chain).spec_blocks().last().spec_index()
                < i64::MAX,
        ensures
            old(chain).spec_blocks().len() > 0 ==> *final(chain) == *old(chain),
            old(chain).spec_blocks().len() == 0 ==> final(chain).spec_blocks().len() == 1
                && spec_is_genesis(final(chain).spec_blocks()[0]),
            final(chain).spec_blocks().len() > 0,
            r.spec_previous_hash() == final(chain).spec_blocks().last().spec_hash(),
            r.spec_index() == final(chain).spec_blocks().last().spec_index() + 1,
            r.spec_transactions() == transactions@,
            r.spec_nonce() == 0,
            r.spec_sealed(),
    {
        let previous_hash = chain.get_last_hash();
        let index = chain.get_last_index() + 1;
        let timestamp = clock::now_utc_text();

        let hash = hash_fields(&previous_hash, &transactions, index, &timestamp, 0);
        Block { previous_hash, transactions, index, timestamp, hash, nonce: 0 }
    }

    /// The hard-coded genesis block; only its timestamp comes from the
    /// clock.
    pub fn genesis_block() -> (r: Self)
        ensures
            spec_is_genesis(r),
    {
        Self {
            previous_hash: String::from_str("Foguete nao da re"),
            transactions: Vec::new(),
            index: 0,
            timestamp: clock::now_utc_text(),
            hash: String::from_str(
                "The Times 03/Jan/2009 Chancellor on brink of second bailout for banks",
            ),
            nonce: 0,
        }
    }

    /// Mines the block: increments the nonce and recomputes the hash until
    /// it satisfies the proof of work. The nonce of the result is the
    /// smallest one from the starting nonce up that works; if no nonce in
    /// range works — which a 256-bit hash makes unreachable in practice —
    /// the search stops exhausted at the largest nonce.
    pub fn mine_block(self) -> (r: Self)
        requires
            self.spec_sealed(),
        ensures
            r.spec_previous_hash() == self.spec_previous_hash(),
            r.spec_transactions() == self.spec_transactions(),
            r.spec_index() == self.spec_index(),
            r.spec_timestamp() == self.spec_timestamp(),
            r.spec_nonce() >= self.spec_nonce(),
            r.spec_sealed(),
            forall|n: u64|
                self.spec_nonce() <= n < r.spec_nonce() ==> !spec_pow_ok(
                    #[trigger] spec_block_hash(
                        self.spec_previous_hash(),
                        self.spec_transactions(),
                        self.spec_index(),
                        self.spec_timestamp(),
                        n,
                    ),
                ),
            (exists|n: u64|
                self.spec_nonce() <= n && spec_pow_ok(
                    #[trigger] spec_block_hash(
                        self.spec_previous_hash(),
                        self.spec_transactions(),
                        self.spec_index(),
                        self.spec_timestamp(),
                        n,
                    ),
                )) ==> spec_pow_ok(r.spec_hash()),
    {
        let Block { previous_hash, transactions, index, timestamp, mut hash, mut nonce } = self;
        let mut found = has_pow_prefix(&hash);
        while !found && nonce < u64::MAX
            invariant
                hash@ == spec_block_hash(previous_hash@, transactions@, index, timestamp@, nonce),
                found == spec_pow_ok(hash@),
                self.spec_nonce() <= nonce,
                previous_hash@ == self.spec_previous_hash(),
                transactions@ == self.spec_transactions(),
                index == self.spec_index(),
                timestamp@ == self.spec_timestamp(),
                forall|n: u64|
                    self.spec_nonce() <= n < nonce ==> !spec_pow_ok(
                        #[trigger] spec_block_hash(
                            self.spec_previous_hash(),
                            self.spec_transactions(),
                            self.spec_index(),
                            self.spec_timestamp(),
                            n,
                        ),
                    ),
            decreases u64::MAX - nonce,
        {
            nonce = nonce + 1;
            hash = hash_fields(&previous_hash, &transactions, index, &timestamp, nonce);
            found = has_pow_prefix(&hash);
        }
        Block { previous_hash, transactions, index, timestamp, hash, nonce }
    }
}

/// Two blocks whose five hashed fields agree hash to the same text: the
/// hash is a pure function of those fields.
pub proof fn lemma_block_hash_deterministic(a: Block, b: Block)
    requires
        a.spec_previous_hash() == b.spec_previous_hash(),
        a.spec_transactions() == b.spec_transactions(),
        a.spec_index() == b.spec_index(),
        a.spec_timestamp() == b.spec_timestamp(),
        a.spec_nonce() == b.spec_nonce(),
    ensures
        spec_block_hash(
            a.spec_previous_hash(),
            a.spec_transactions(),
            a.spec_index(),
            a.spec_timestamp(),
            a.spec_nonce(),
        ) == spec_block_hash(
            b.spec_previous_hash(),
            b.spec_transactions(),
            b.spec_index(),
            b.spec_timestamp(),
            b.spec_nonce(),
        ),
{
}

} // verus!
