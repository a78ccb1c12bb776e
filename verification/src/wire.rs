//! Chain dumps as they arrive from other nodes: records whose members may be
//! missing, their decoding, and the replay that rebuilds a ledger from them.
use crate::block::{transactions_view, Block, BlockView, Transaction, TransactionView};
use crate::chain::{
    admission, genesis_block, peers_view, Blockchain, LedgerView, NodePeer, DIFFICULTY,
};
use crate::error::LedgerError;
use vstd::prelude::*;
use vstd::string::*;

verus! {

/// A transaction as received: each member is absent if the sender left it
/// out or sent a value of another kind.
#[derive(Debug, PartialEq, Eq)]
pub struct TransactionRecord {
    pub author: Option<String>,
    pub content: Option<String>,
    pub timestamp: Option<i64>,
}

/// A block as received: each member is absent if the sender left it out or
/// sent a value of another kind.
#[derive(Debug, PartialEq, Eq)]
pub struct BlockRecord {
    pub index: Option<u64>,
    pub transactions: Option<Vec<TransactionRecord>>,
    pub timestamp: Option<i64>,
    pub previous_hash: Option<String>,
    pub nonce: Option<u64>,
    pub hash: Option<String>,
}

/// The transaction that a record stands for, if it has all its members.
pub open spec fn decoded_transaction(r: TransactionRecord) -> Option<TransactionView> {
    if r.author is Some && r.content is Some && r.timestamp is Some {
        Some(
            TransactionView {
                author: r.author->0@,
                content: r.content->0@,
                timestamp: r.timestamp->0 as int,
            },
        )
    } else {
        None
    }
}

/// The transactions that the records stand for, if every one of them has all
/// its members.
pub open spec fn decoded_transactions(rs: Seq<TransactionRecord>) -> Option<Seq<TransactionView>> {
    if forall|i: int| 0 <= i < rs.len() ==> decoded_transaction(#[trigger] rs[i]) is Some {
        Some(rs.map_values(|r: TransactionRecord| decoded_transaction(r)->0))
    } else {
        None
    }
}

/// The block that a record stands for, if it has all its members and each of
/// its transactions has all of its own.
pub open spec fn decoded_block(r: BlockRecord) -> Option<BlockView> {
    if r.index is Some && r.transactions is Some && decoded_transactions(r.transactions->0@) is Some
        && r.timestamp is Some && r.previous_hash is Some && r.nonce is Some && r.hash is Some {
        Some(
            BlockView {
                index: r.index->0 as nat,
                transactions: decoded_transactions(r.transactions->0@)->0,
                timestamp: r.timestamp->0 as int,
                previous_hash: r.previous_hash->0@,
                nonce: r.nonce->0 as nat,
                hash: r.hash->0@,
            },
        )
    } else {
        None
    }
}

/// The chain that stands after the first `n` records of `dump` have been
/// replayed onto a fresh genesis block, or the reason for which the replay
/// stopped. The first record is skipped; every other record must decode and
/// be admitted in its turn.
pub open spec fn replayed(dump: Seq<BlockRecord>, n: nat, difficulty: nat) -> Result<
    Seq<BlockView>,
    LedgerError,
>
    decreases n,
{
    if n == 0 {
        Ok(seq![genesis_block()])
    } else {
        match replayed(dump, (n - 1) as nat, difficulty) {
            Err(e) => Err(e),
            Ok(chain) => if n == 1 {
                Ok(chain)
            } else {
                match decoded_block(dump[n - 1]) {
                    None => Err(LedgerError::MalformedRemoteData),
                    Some(b) => admission(chain, b, difficulty),
                }
            },
        }
    }
}

/// The chain that a whole dump rebuilds, or the reason for which it does not.
pub open spec fn rebuilt_chain(dump: Seq<BlockRecord>) -> Result<Seq<BlockView>, LedgerError> {
    replayed(dump, dump.len(), DIFFICULTY as nat)
}

/// The texts of a sequence of strings, in order.
pub open spec fn texts_view(texts: Seq<String>) -> Seq<Seq<char>> {
    texts.map_values(|s: String| s@)
}

/// Once a replay has stopped, more records do not revive it.
pub proof fn replay_stays_stopped(dump: Seq<BlockRecord>, k: nat, n: nat, difficulty: nat)
    requires
        k <= n,
        replayed(dump, k, difficulty) is Err,
    ensures
        replayed(dump, n, difficulty) == replayed(dump, k, difficulty),
    decreases n,
{
    if k < n {
        replay_stays_stopped(dump, k, (n - 1) as nat, difficulty);
    }
}

/// A chain that a replay has rebuilt starts with the genesis block, and each
/// later block in it is linked to its predecessor and carries a valid proof
/// of work.
pub proof fn replayed_chain_is_well_formed(dump: Seq<BlockRecord>, n: nat, difficulty: nat)
    requires
        replayed(dump, n, difficulty) is Ok,
    ensures
        (LedgerView {
            difficulty,
            unconfirmed_transactions: Seq::empty(),
            chain: replayed(dump, n, difficulty)->Ok_0,
            peers: Seq::empty(),
        }).well_formed(),
        n >= 1 ==> replayed(dump, n, difficulty)->Ok_0.len() == n,
        n == 0 ==> replayed(dump, n, difficulty)->Ok_0.len() == 1,
    decreases n,
{
    if n > 0 {
        replayed_chain_is_well_formed(dump, (n - 1) as nat, difficulty);
    }
}

/// Decodes a received transaction.
pub fn parse_transaction(record: &TransactionRecord) -> (res: Result<Transaction, LedgerError>)
    ensures
        match decoded_transaction(*record) {
            Some(t) => res is Ok && res->Ok_0@ == t,
            None => res == Err::<Transaction, LedgerError>(LedgerError::MalformedRemoteData),
        },
{
    match (&record.author, &record.content, &record.timestamp) {
        (Some(author), Some(content), Some(timestamp)) => Ok(
            Transaction { author: author.clone(), content: content.clone(), timestamp: *timestamp },
        ),
        _ => Err(LedgerError::MalformedRemoteData),
    }
}

/// Decodes a received block.
pub fn parse_block(record: &BlockRecord) -> (res: Result<Block, LedgerError>)
    ensures
        match decoded_block(*record) {
            Some(b) => res is Ok && res->Ok_0@ == b,
            None => res == Err::<Block, LedgerError>(LedgerError::MalformedRemoteData),
        },
{
    match (
        &record.index,
        &record.transactions,
        &record.timestamp,
        &record.previous_hash,
        &record.nonce,
        &record.hash,
    ) {
        (Some(index), Some(records), Some(timestamp), Some(previous_hash), Some(nonce), Some(hash)) => {
            match Blockchain::parse_transactions(records) {
                Ok(transactions) => Ok(
                    Block {
                        index: *index,
                        transactions,
                        timestamp: *timestamp,
                        previous_hash: previous_hash.clone(),
                        nonce: *nonce,
                        hash: hash.clone(),
                    },
                ),
                Err(e) => Err(e),
            }
        },
        _ => Err(LedgerError::MalformedRemoteData),
    }
}

impl Blockchain {
    /// Decodes received transactions: all of them, in order, or a refusal if
    /// one of them lacks a member.
    pub fn parse_transactions(transactions_data: &Vec<TransactionRecord>) -> (res: Result<
        Vec<Transaction>,
        LedgerError,
    >)
        ensures
            match decoded_transactions(transactions_data@) {
                Some(ts) => res is Ok && transactions_view(res->Ok_0@) == ts,
                None => res == Err::<Vec<Transaction>, LedgerError>(
                    LedgerError::MalformedRemoteData,
                ),
            },
    {
        let mut transactions: Vec<Transaction> = Vec::new();
        let mut i: usize = 0;
        while i < transactions_data.len()
            invariant
                i <= transactions_data.len(),
                transactions@.len() == i,
                forall|j: int|
                    0 <= j < i ==> decoded_transaction(#[trigger] transactions_data@[j]) == Some(
                        transactions@[j]@,
                    ),
            decreases transactions_data.len() - i,
        {
            match parse_transaction(&transactions_data[i]) {
                Ok(transaction) => {
                    transactions.push(transaction);
                },
                Err(e) => {
                    assert(decoded_transaction(transactions_data@[i as int]) is None);
                    return Err(e);
                },
            }
            i += 1;
        }
        assert(transactions_view(transactions@) =~= decoded_transactions(transactions_data@)->0);
        Ok(transactions)
    }

    /// Rebuilds a ledger from a received chain dump: a fresh genesis block,
    /// then every record but the first, decoded and admitted in its turn.
    /// The pool and the list of peers of the new ledger are empty.
    pub fn replay_dump(chain_dump: &Vec<BlockRecord>) -> (res: Result<Blockchain, LedgerError>)
        ensures
            match rebuilt_chain(chain_dump@) {
                Ok(chain) => res is Ok && res->Ok_0@ == (LedgerView {
                    difficulty: DIFFICULTY as nat,
                    unconfirmed_transactions: Seq::empty(),
                    chain,
                    peers: Seq::empty(),
                }) && res->Ok_0@.well_formed(),
                Err(e) => res is Err && res->Err_0 == e,
            },
    {
        let mut ledger = Blockchain::new_blockchain();
        let ghost dump = chain_dump@;
        let ghost difficulty = DIFFICULTY as nat;
        let mut i: usize = 0;
        while i < chain_dump.len()
            invariant
                i <= chain_dump.len(),
                dump == chain_dump@,
                difficulty == DIFFICULTY as nat,
                replayed(dump, i as nat, difficulty) == Ok::<Seq<BlockView>, LedgerError>(
                    ledger@.chain,
                ),
                ledger@ == (LedgerView {
                    difficulty,
                    unconfirmed_transactions: Seq::empty(),
                    chain: ledger@.chain,
                    peers: Seq::empty(),
                }),
                ledger@.well_formed(),
                ledger.chain.len() > 0,
            decreases chain_dump.len() - i,
        {
            if i > 0 {
                let block = match parse_block(&chain_dump[i]) {
                    Ok(block) => block,
                    Err(e) => {
                        proof {
                            assert(replayed(dump, (i + 1) as nat, difficulty) == Err::<
                                Seq<BlockView>,
                                LedgerError,
                            >(e));
                            replay_stays_stopped(dump, (i + 1) as nat, dump.len(), difficulty);
                        }
                        return Err(e);
                    },
                };
                match ledger.add_block(block) {
                    Ok(()) => {},
                    Err(e) => {
                        proof {
                            assert(replayed(dump, (i + 1) as nat, difficulty) == Err::<
                                Seq<BlockView>,
                                LedgerError,
                            >(e));
                            replay_stays_stopped(dump, (i + 1) as nat, dump.len(), difficulty);
                        }
                        return Err(e);
                    },
                }
            }
            i += 1;
        }
        Ok(ledger)
    }

    /// Rebuilds a ledger from a received chain dump and a list of peer
    /// addresses: the chain by replay, as [`Blockchain::replay_dump`] does, and
    /// one peer for each address, in order.
    pub fn create_chain_from_dump(chain_dump: Vec<BlockRecord>, node_addresses: Vec<String>) -> (res:
        Result<Blockchain, LedgerError>)
        ensures
            match rebuilt_chain(chain_dump@) {
                Ok(chain) => res is Ok && res->Ok_0@ == (LedgerView {
                    difficulty: DIFFICULTY as nat,
                    unconfirmed_transactions: Seq::empty(),
                    chain,
                    peers: texts_view(node_addresses@),
                }) && res->Ok_0@.well_formed(),
                Err(e) => res is Err && res->Err_0 == e,
            },
    {
        let mut ledger = match Blockchain::replay_dump(&chain_dump) {
            Ok(ledger) => ledger,
            Err(e) => {
                return Err(e);
            },
        };
        let mut peers: Vec<NodePeer> = Vec::new();
        let mut i: usize = 0;
        while i < node_addresses.len()
            invariant
                i <= node_addresses.len(),
                peers@.len() == i,
                forall|j: int| 0 <= j < i ==> peers@[j]@ == node_addresses@[j]@,
            decreases node_addresses.len() - i,
        {
            peers.push(NodePeer { node_address: node_addresses[i].clone() });
            i += 1;
        }
        ledger.peers = peers;
        assert(peers_view(ledger.peers@) =~= texts_view(node_addresses@));
        Ok(ledger)
    }
}

} // verus!
