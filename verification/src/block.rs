//! Transactions and blocks, their canonical text, and the block digest.
use crate::digest::{sha256_hex, sha256_hex_text};
use crate::text::{decimal_text, json_string_text, push_decimal, push_json_string, push_natural};
use vstd::prelude::*;
use vstd::string::*;
use vstd::utf8::encode_utf8;

verus! {

/// Authored content with the time at which a node accepted it.
#[derive(Debug, PartialEq, Eq)]
pub struct Transaction {
    pub author: String,
    pub content: String,
    pub timestamp: i64,
}

/// What a transaction holds, as mathematical values.
pub struct TransactionView {
    pub author: Seq<char>,
    pub content: Seq<char>,
    pub timestamp: int,
}

impl View for Transaction {
    type V = TransactionView;

    open spec fn view(&self) -> TransactionView {
        TransactionView {
            author: self.author@,
            content: self.content@,
            timestamp: self.timestamp as int,
        }
    }
}

impl Clone for Transaction {
    fn clone(&self) -> (copy: Self)
        ensures
            copy@ == self@,
    {
        Transaction {
            author: self.author.clone(),
            content: self.content.clone(),
            timestamp: self.timestamp,
        }
    }
}

/// The views of a sequence of transactions, in order.
pub open spec fn transactions_view(ts: Seq<Transaction>) -> Seq<TransactionView> {
    ts.map_values(|t: Transaction| t@)
}

/// A copy of `ts` with the same view.
pub fn clone_transactions(ts: &Vec<Transaction>) -> (copy: Vec<Transaction>)
    ensures
        transactions_view(copy@) == transactions_view(ts@),
{
    let mut copy: Vec<Transaction> = Vec::new();
    let mut i: usize = 0;
    while i < ts.len()
        invariant
            i <= ts.len(),
            copy@.len() == i,
            forall|j: int| 0 <= j < i ==> copy@[j]@ == ts@[j]@,
        decreases ts.len() - i,
    {
        copy.push(ts[i].clone());
        i += 1;
    }
    assert(transactions_view(copy@) =~= transactions_view(ts@));
    copy
}

/// The canonical text of a transaction: a JSON object with the members
/// `author`, `content` and `timestamp`, in that order, without spaces.
pub open spec fn transaction_json(t: TransactionView) -> Seq<char> {
    "{\"author\":"@ + json_string_text(t.author) + ",\"content\":"@ + json_string_text(t.content)
        + ",\"timestamp\":"@ + decimal_text(t.timestamp) + "}"@
}

/// The canonical texts of the transactions, separated by commas.
pub open spec fn transactions_json(ts: Seq<TransactionView>) -> Seq<char>
    decreases ts.len(),
{
    if ts.len() == 0 {
        Seq::empty()
    } else if ts.len() == 1 {
        transaction_json(ts[0])
    } else {
        transactions_json(ts.drop_last()) + ","@ + transaction_json(ts.last())
    }
}

impl Transaction {
    /// Appends the canonical text of the transaction to `out`.
    pub fn push_json(&self, out: &mut String)
        ensures
            final(out)@ == old(out)@ + transaction_json(self@),
    {
        out.append("{\"author\":");
        push_json_string(out, self.author.as_str());
        out.append(",\"content\":");
        push_json_string(out, self.content.as_str());
        out.append(",\"timestamp\":");
        push_decimal(out, self.timestamp);
        out.append("}");
        assert(out@ =~= old(out)@ + transaction_json(self@));
    }
}

/// Appends the canonical texts of `ts`, separated by commas, to `out`.
pub fn push_transactions_json(out: &mut String, ts: &Vec<Transaction>)
    ensures
        final(out)@ == old(out)@ + transactions_json(transactions_view(ts@)),
{
    let ghost all = transactions_view(ts@);
    let mut i: usize = 0;
    assert(all.take(0) =~= Seq::<TransactionView>::empty());
    assert(out@ =~= old(out)@ + transactions_json(all.take(0)));
    while i < ts.len()
        invariant
            i <= ts.len(),
            all == transactions_view(ts@),
            out@ == old(out)@ + transactions_json(all.take(i as int)),
        decreases ts.len() - i,
    {
        if i > 0 {
            out.append(",");
        }
        ts[i].push_json(out);
        proof {
            let before = all.take(i as int);
            let after = all.take(i as int + 1);
            assert(after.drop_last() =~= before);
            assert(after.last() == ts@[i as int]@);
            assert(out@ =~= old(out)@ + transactions_json(after));
        }
        i += 1;
    }
    assert(all.take(i as int) =~= all);
}

/// An ordered batch of transactions, linked to its predecessor by hash and
/// sealed by a nonce.
#[derive(Debug, PartialEq, Eq)]
pub struct Block {
    pub index: u64,
    pub transactions: Vec<Transaction>,
    pub timestamp: i64,
    pub previous_hash: String,
    pub nonce: u64,
    pub hash: String,
}

/// What a block holds, as mathematical values.
pub struct BlockView {
    pub index: nat,
    pub transactions: Seq<TransactionView>,
    pub timestamp: int,
    pub previous_hash: Seq<char>,
    pub nonce: nat,
    pub hash: Seq<char>,
}

impl View for Block {
    type V = BlockView;

    open spec fn view(&self) -> BlockView {
        BlockView {
            index: self.index as nat,
            transactions: transactions_view(self.transactions@),
            timestamp: self.timestamp as int,
            previous_hash: self.previous_hash@,
            nonce: self.nonce as nat,
            hash: self.hash@,
        }
    }
}

impl Clone for Block {
    fn clone(&self) -> (copy: Self)
        ensures
            copy@ == self@,
    {
        Block {
            index: self.index,
            transactions: clone_transactions(&self.transactions),
            timestamp: self.timestamp,
            previous_hash: self.previous_hash.clone(),
            nonce: self.nonce,
            hash: self.hash.clone(),
        }
    }
}

/// The views of a sequence of blocks, in order.
pub open spec fn blocks_view(blocks: Seq<Block>) -> Seq<BlockView> {
    blocks.map_values(|b: Block| b@)
}

/// A copy of `blocks` with the same view.
pub fn clone_blocks(blocks: &Vec<Block>) -> (copy: Vec<Block>)
    ensures
        blocks_view(copy@) == blocks_view(blocks@),
{
    let mut copy: Vec<Block> = Vec::new();
    let mut i: usize = 0;
    while i < blocks.len()
        invariant
            i <= blocks.len(),
            copy@.len() == i,
            forall|j: int| 0 <= j < i ==> copy@[j]@ == blocks@[j]@,
        decreases blocks.len() - i,
    {
        copy.push(blocks[i].clone());
        i += 1;
    }
    assert(blocks_view(copy@) =~= blocks_view(blocks@));
    copy
}

impl BlockView {
    /// The same block with another stored hash.
    pub open spec fn with_hash(self, hash: Seq<char>) -> BlockView {
        BlockView { hash, ..self }
    }

    /// The same block with another nonce.
    pub open spec fn with_nonce(self, nonce: nat) -> BlockView {
        BlockView { nonce, ..self }
    }
}

/// The canonical text of a block: a JSON object with the members `index`,
/// `transactions`, `timestamp`, `previous_hash`, `nonce` and `hash`, in that
/// order, without spaces.
pub open spec fn block_json(b: BlockView) -> Seq<char> {
    "{\"index\":"@ + decimal_text(b.index as int) + ",\"transactions\":["@ + transactions_json(
        b.transactions,
    ) + "],\"timestamp\":"@ + decimal_text(b.timestamp) + ",\"previous_hash\":"@
        + json_string_text(b.previous_hash) + ",\"nonce\":"@ + decimal_text(b.nonce as int)
        + ",\"hash\":"@ + json_string_text(b.hash) + "}"@
}

/// The text that is hashed: the canonical text of the block with its stored
/// hash held empty.
pub open spec fn block_preimage(b: BlockView) -> Seq<char> {
    block_json(b.with_hash(Seq::empty()))
}

/// The digest of a block: the SHA-256 of the UTF-8 bytes of its preimage, in
/// lower-case hexadecimal. It does not depend on the stored hash.
pub open spec fn block_digest(b: BlockView) -> Seq<char> {
    sha256_hex_text(encode_utf8(block_preimage(b)))
}

/// The digest depends on the index, the transactions, the timestamp, the
/// previous hash and the nonce alone: two blocks that agree on these have the
/// same digest, whatever hash each one stores.
pub proof fn digest_ignores_stored_hash(a: BlockView, b: BlockView)
    requires
        a.index == b.index,
        a.transactions == b.transactions,
        a.timestamp == b.timestamp,
        a.previous_hash == b.previous_hash,
        a.nonce == b.nonce,
    ensures
        block_digest(a) == block_digest(b),
{
    assert(a.with_hash(Seq::empty()) == b.with_hash(Seq::empty()));
}

impl Block {
    /// The canonical text of the block with `hash` in place of the stored
    /// hash.
    fn render(&self, hash: &str) -> (out: String)
        ensures
            out@ == block_json(self@.with_hash(hash@)),
    {
        let mut out = String::new();
        out.append("{\"index\":");
        push_natural(&mut out, self.index);
        out.append(",\"transactions\":[");
        push_transactions_json(&mut out, &self.transactions);
        out.append("],\"timestamp\":");
        push_decimal(&mut out, self.timestamp);
        out.append(",\"previous_hash\":");
        push_json_string(&mut out, self.previous_hash.as_str());
        out.append(",\"nonce\":");
        push_natural(&mut out, self.nonce);
        out.append(",\"hash\":");
        push_json_string(&mut out, hash);
        out.append("}");
        assert(out@ =~= block_json(self@.with_hash(hash@)));
        out
    }

    /// The canonical text of the block, stored hash included.
    pub fn to_json(&self) -> (out: String)
        ensures
            out@ == block_json(self@),
    {
        self.render(self.hash.as_str())
    }

    /// The digest of the block: the hexadecimal SHA-256 of its canonical
    /// text with the stored hash held empty.
    pub fn compute_hash(&self) -> (digest: String)
        ensures
            digest@ == block_digest(self@),
            digest@.len() == 64,
    {
        let preimage = self.render("");
        proof {
            reveal_strlit("");
            assert(""@ =~= Seq::<char>::empty());
        }
        sha256_hex(preimage.as_str().as_bytes())
    }

    /// A copy of the block in which only the stored hash is replaced.
    pub fn with_modified_hash(&self, modified_hash: &str) -> (copy: Block)
        ensures
            copy@ == self@.with_hash(modified_hash@),
    {
        Block {
            index: self.index,
            transactions: clone_transactions(&self.transactions),
            timestamp: self.timestamp,
            previous_hash: self.previous_hash.clone(),
            nonce: self.nonce,
            hash: String::from_str(modified_hash),
        }
    }
}

} // verus!
