//! The ledger: the chain of blocks, the pool of pending transactions and the
//! known peers, with admission, mining and validation.
use crate::block::{
    block_digest, blocks_view, clone_transactions, digest_ignores_stored_hash, transactions_view,
    Block, BlockView, Transaction, TransactionView,
};
use crate::clock::unix_time_now;
use crate::error::LedgerError;
use vstd::prelude::*;
use vstd::string::*;

verus! {

/// The number of leading zeros that a new ledger asks of a block hash.
pub const DIFFICULTY: u32 = 2;

/// The address of another node.
#[derive(Debug, PartialEq, Eq)]
pub struct NodePeer {
    pub node_address: String,
}

impl View for NodePeer {
    type V = Seq<char>;

    open spec fn view(&self) -> Seq<char> {
        self.node_address@
    }
}

impl Clone for NodePeer {
    fn clone(&self) -> (copy: Self)
        ensures
            copy@ == self@,
    {
        NodePeer { node_address: self.node_address.clone() }
    }
}

/// The addresses of a sequence of peers, in order.
pub open spec fn peers_view(peers: Seq<NodePeer>) -> Seq<Seq<char>> {
    peers.map_values(|p: NodePeer| p@)
}

/// A copy of `peers` with the same view.
pub fn clone_peers(peers: &Vec<NodePeer>) -> (copy: Vec<NodePeer>)
    ensures
        peers_view(copy@) == peers_view(peers@),
{
    let mut copy: Vec<NodePeer> = Vec::new();
    let mut i: usize = 0;
    while i < peers.len()
        invariant
            i <= peers.len(),
            copy@.len() == i,
            forall|j: int| 0 <= j < i ==> copy@[j]@ == peers@[j]@,
        decreases peers.len() - i,
    {
        copy.push(peers[i].clone());
        i += 1;
    }
    assert(peers_view(copy@) =~= peers_view(peers@));
    copy
}

/// The chain, the pool and the peers of one node.
#[derive(Debug, PartialEq, Eq)]
pub struct Blockchain {
    pub difficulty: u32,
    pub unconfirmed_transactions: Vec<Transaction>,
    pub chain: Vec<Block>,
    pub peers: Vec<NodePeer>,
}

/// What a ledger holds, as mathematical values.
pub struct LedgerView {
    pub difficulty: nat,
    pub unconfirmed_transactions: Seq<TransactionView>,
    pub chain: Seq<BlockView>,
    pub peers: Seq<Seq<char>>,
}

impl View for Blockchain {
    type V = LedgerView;

    open spec fn view(&self) -> LedgerView {
        LedgerView {
            difficulty: self.difficulty as nat,
            unconfirmed_transactions: transactions_view(self.unconfirmed_transactions@),
            chain: blocks_view(self.chain@),
            peers: peers_view(self.peers@),
        }
    }
}

/// `hash` has at least `difficulty` characters and its first `difficulty`
/// characters are all `0`.
pub open spec fn meets_difficulty(hash: Seq<char>, difficulty: nat) -> bool {
    &&& difficulty <= hash.len()
    &&& forall|i: int| 0 <= i < difficulty ==> hash[i] == '0'
}

/// `hash` is a proof of work for `b`: it has the leading zeros and it is the
/// digest of `b`.
pub open spec fn proof_holds(b: BlockView, hash: Seq<char>, difficulty: nat) -> bool {
    meets_difficulty(hash, difficulty) && hash == block_digest(b)
}

/// The hash that `b` stores is a proof of work for it.
pub open spec fn valid_proof(b: BlockView, difficulty: nat) -> bool {
    proof_holds(b, b.hash, difficulty)
}

/// Every block after the first names the hash of the block before it and
/// stores a valid proof of work. The first block is exempt.
pub open spec fn chain_valid(chain: Seq<BlockView>, difficulty: nat) -> bool {
    forall|i: int|
        1 <= i < chain.len() ==> (#[trigger] chain[i]).previous_hash == chain[i - 1].hash
            && valid_proof(chain[i], difficulty)
}

/// The first block of every chain, before its hash is filled in.
pub open spec fn genesis_seed() -> BlockView {
    BlockView {
        index: 0,
        transactions: Seq::empty(),
        timestamp: 0,
        previous_hash: "0"@,
        nonce: 0,
        hash: Seq::empty(),
    }
}

/// The first block of every chain: index 0, no transactions, timestamp 0,
/// previous hash `0`, nonce 0, and its own digest as hash.
pub open spec fn genesis_block() -> BlockView {
    genesis_seed().with_hash(block_digest(genesis_seed()))
}

/// The ledger of a node that has just started.
pub open spec fn initial_ledger() -> LedgerView {
    LedgerView {
        difficulty: DIFFICULTY as nat,
        unconfirmed_transactions: Seq::empty(),
        chain: seq![genesis_block()],
        peers: Seq::empty(),
    }
}

impl LedgerView {
    /// The chain starts with the genesis block and every later block is
    /// linked to its predecessor and carries a valid proof of work.
    pub open spec fn well_formed(self) -> bool {
        &&& self.chain.len() > 0
        &&& self.chain[0] == genesis_block()
        &&& chain_valid(self.chain, self.difficulty)
    }

    /// Every block has its place in the chain as its index. This holds of a
    /// chain that grew by mining alone; admission does not look at the index
    /// of a block, so a block received from elsewhere may break it.
    pub open spec fn numbered(self) -> bool {
        forall|i: int| 0 <= i < self.chain.len() ==> (#[trigger] self.chain[i]).index == i
    }
}

/// What becomes of `chain` when `b` is offered to it: the chain with `b`
/// appended, or the reason for which `b` is refused.
pub open spec fn admission(chain: Seq<BlockView>, b: BlockView, difficulty: nat) -> Result<
    Seq<BlockView>,
    LedgerError,
> {
    if chain.last().hash != b.previous_hash {
        Err(LedgerError::PreviousHashMismatch)
    } else if !valid_proof(b, difficulty) {
        Err(LedgerError::InvalidProof)
    } else {
        Ok(chain.push(b))
    }
}

/// With nonce `n`, the digest of `b` has the leading zeros.
pub open spec fn pow_hit(b: BlockView, difficulty: nat, n: nat) -> bool {
    meets_difficulty(block_digest(b.with_nonce(n)), difficulty)
}

/// `n` is the first nonce above the nonce of `b` that gives a digest with
/// the leading zeros.
pub open spec fn is_first_hit(b: BlockView, difficulty: nat, n: nat) -> bool {
    &&& b.nonce < n <= u64::MAX
    &&& pow_hit(b, difficulty, n)
    &&& forall|m: nat| b.nonce < m < n ==> !pow_hit(b, difficulty, m)
}

/// No nonce above the nonce of `b` gives a digest with the leading zeros.
pub open spec fn no_hit(b: BlockView, difficulty: nat) -> bool {
    forall|m: nat| b.nonce < m <= u64::MAX ==> !pow_hit(b, difficulty, m)
}

/// `b` with nonce `n` and with the digest that this nonce gives as its hash.
pub open spec fn sealed(b: BlockView, n: nat) -> BlockView {
    b.with_nonce(n).with_hash(block_digest(b.with_nonce(n)))
}

/// How a search for a nonce answers and what it makes of the block: the
/// block sealed with the first nonce that works, or the block unchanged if
/// no nonce works.
pub open spec fn sealing_outcome(
    before: BlockView,
    difficulty: nat,
    res: Result<(), LedgerError>,
    after: BlockView,
) -> bool {
    match res {
        Ok(()) => is_first_hit(before, difficulty, after.nonce) && after == sealed(
            before,
            after.nonce,
        ),
        Err(e) => e == LedgerError::NonceSpaceExhausted && no_hit(before, difficulty) && after
            == before,
    }
}

/// The block that mining proposes: next index, the pool as it stands, the
/// hash of the last block as predecessor, nonce 0 and no hash yet.
pub open spec fn candidate_block(ledger: LedgerView, timestamp: int) -> BlockView {
    BlockView {
        index: ledger.chain.last().index + 1,
        transactions: ledger.unconfirmed_transactions,
        timestamp,
        previous_hash: ledger.chain.last().hash,
        nonce: 0,
        hash: Seq::empty(),
    }
}

/// What a request for a candidate at `timestamp` answers: nothing while the
/// pool is empty, a refusal if no index is left for the block, and the
/// candidate otherwise.
pub open spec fn candidate_outcome(
    ledger: LedgerView,
    timestamp: int,
    res: Result<Option<Block>, LedgerError>,
) -> bool {
    if ledger.unconfirmed_transactions.len() == 0 {
        res is Ok && res->Ok_0 is None
    } else if ledger.chain.last().index >= u64::MAX {
        res is Err && res->Err_0 == LedgerError::IndexSpaceExhausted
    } else {
        res is Ok && res->Ok_0 is Some && res->Ok_0->0@ == candidate_block(ledger, timestamp)
    }
}

/// How mining at `timestamp` answers and what it makes of the ledger.
pub open spec fn mining_outcome(
    before: LedgerView,
    timestamp: int,
    res: Result<bool, LedgerError>,
    after: LedgerView,
) -> bool {
    let candidate = candidate_block(before, timestamp);
    if before.unconfirmed_transactions.len() == 0 {
        res == Ok::<bool, LedgerError>(false) && after == before
    } else if before.chain.last().index >= u64::MAX {
        res == Err::<bool, LedgerError>(LedgerError::IndexSpaceExhausted) && after == before
    } else {
        match res {
            Ok(mined) => {
                &&& mined
                &&& after.chain.len() == before.chain.len() + 1
                &&& is_first_hit(candidate, before.difficulty, after.chain.last().nonce)
                &&& after == (LedgerView {
                    chain: before.chain.push(sealed(candidate, after.chain.last().nonce)),
                    unconfirmed_transactions: Seq::empty(),
                    ..before
                })
            },
            Err(e) => {
                &&& e == LedgerError::NonceSpaceExhausted
                &&& no_hit(candidate, before.difficulty)
                &&& after == before
            },
        }
    }
}

/// What a request for a candidate answers when the clock was read first:
/// nothing while the pool is empty, whatever the clock gave; a refusal if the
/// clock gave no time; and otherwise what the request answers at that time.
pub open spec fn timed_candidate_outcome(
    ledger: LedgerView,
    now: Option<i64>,
    res: Result<Option<Block>, LedgerError>,
) -> bool {
    if ledger.unconfirmed_transactions.len() == 0 {
        res is Ok && res->Ok_0 is None
    } else {
        match now {
            Some(timestamp) => candidate_outcome(ledger, timestamp as int, res),
            None => res is Err && res->Err_0 == LedgerError::ClockUnavailable,
        }
    }
}

/// How mining answers when the clock was read first, and what it makes of
/// the ledger: with an empty pool there is nothing to mine, whatever the
/// clock gave; if the clock gave no time, mining is refused and nothing
/// changes; otherwise mining goes as it does at that time.
pub open spec fn timed_mining_outcome(
    before: LedgerView,
    now: Option<i64>,
    res: Result<bool, LedgerError>,
    after: LedgerView,
) -> bool {
    if before.unconfirmed_transactions.len() == 0 {
        res == Ok::<bool, LedgerError>(false) && after == before
    } else {
        match now {
            Some(timestamp) => mining_outcome(before, timestamp as int, res, after),
            None => res == Err::<bool, LedgerError>(LedgerError::ClockUnavailable) && after
                == before,
        }
    }
}

/// Tells whether `hash` starts with `difficulty` zeros.
pub fn has_leading_zeros(hash: &str, difficulty: u32) -> (ok: bool)
    ensures
        ok == meets_difficulty(hash@, difficulty as nat),
{
    let length: usize = hash.unicode_len();
    if length < difficulty as usize {
        return false;
    }
    let mut i: usize = 0;
    while i < difficulty as usize
        invariant
            i <= difficulty as usize <= length,
            length == hash@.len(),
            forall|j: int| 0 <= j < i ==> hash@[j] == '0',
        decreases difficulty as usize - i,
    {
        if hash.get_char(i) != '0' {
            return false;
        }
        i += 1;
    }
    true
}

/// Searches the nonces above the block's own, in order, for the first whose
/// digest has `difficulty` leading zeros, and stores that nonce and digest in
/// the block. Leaves the block as it was if there is none. The search reads
/// nothing but the block.
pub fn search_nonce(block: &mut Block, difficulty: u32) -> (res: Result<(), LedgerError>)
    ensures
        sealing_outcome(old(block)@, difficulty as nat, res, final(block)@),
{
    let start: u64 = block.nonce;
    let mut nonce: u64 = start;
    while nonce < u64::MAX
        invariant
            start == old(block)@.nonce,
            start <= nonce,
            block@ == old(block)@.with_nonce(nonce as nat),
            forall|m: nat| start < m <= nonce ==> !pow_hit(old(block)@, difficulty as nat, m),
        decreases u64::MAX - nonce,
    {
        nonce += 1;
        block.nonce = nonce;
        let digest = block.compute_hash();
        proof {
            digest_ignores_stored_hash(block@, old(block)@.with_nonce(nonce as nat));
        }
        if has_leading_zeros(digest.as_str(), difficulty) {
            block.hash = digest;
            return Ok(());
        }
    }
    block.nonce = start;
    Err(LedgerError::NonceSpaceExhausted)
}

impl Blockchain {
    /// A ledger with difficulty 2, an empty pool, no peers, and the genesis
    /// block as its whole chain.
    pub fn new_blockchain() -> (ledger: Blockchain)
        ensures
            ledger@ == initial_ledger(),
            ledger@.well_formed(),
            ledger@.numbered(),
            genesis_block().hash.len() == 64,
    {
        let mut ledger = Blockchain {
            difficulty: DIFFICULTY,
            unconfirmed_transactions: Vec::new(),
            chain: Vec::new(),
            peers: Vec::new(),
        };
        ledger.create_genesis_block();
        assert(ledger@.unconfirmed_transactions =~= Seq::empty());
        assert(ledger@.peers =~= Seq::empty());
        assert(ledger@.chain =~= seq![genesis_block()]);
        ledger
    }

    /// Appends the genesis block to the chain.
    pub fn create_genesis_block(&mut self)
        ensures
            final(self)@ == (LedgerView {
                chain: old(self)@.chain.push(genesis_block()),
                ..old(self)@
            }),
            genesis_block().hash.len() == 64,
    {
        let seed = Block {
            index: 0,
            transactions: Vec::new(),
            timestamp: 0,
            previous_hash: String::from_str("0"),
            nonce: 0,
            hash: String::from_str(""),
        };
        proof {
            reveal_strlit("");
            assert(seed@.transactions =~= Seq::empty());
            assert(seed@.hash =~= Seq::empty());
            assert(seed@ == genesis_seed());
        }
        let digest = seed.compute_hash();
        let genesis = Block { hash: digest, ..seed };
        assert(genesis@ == genesis_block());
        self.chain.push(genesis);
        assert(final(self)@.chain =~= old(self)@.chain.push(genesis_block()));
    }

    /// The last block of the chain.
    pub fn get_last_block(&self) -> (last: &Block)
        requires
            self.chain.len() > 0,
        ensures
            last@ == self@.chain.last(),
            *last == self.chain@.last(),
    {
        &self.chain[self.chain.len() - 1]
    }

    /// Tells whether `block_hash` is a proof of work for `block`: whether it
    /// has the leading zeros that the ledger asks for and is the digest of
    /// the block.
    pub fn is_valid_proof(&self, block: &Block, block_hash: &str) -> (ok: bool)
        ensures
            ok == proof_holds(block@, block_hash@, self@.difficulty),
    {
        let computed = block.compute_hash();
        let offered = String::from_str(block_hash);
        has_leading_zeros(block_hash, self.difficulty) && offered == computed
    }

    /// Appends `block` to the chain if it names the hash of the last block as
    /// its predecessor and stores a valid proof of work; refuses it, and
    /// changes nothing, if not.
    pub fn add_block(&mut self, block: Block) -> (res: Result<(), LedgerError>)
        requires
            old(self).chain.len() > 0,
        ensures
            match admission(old(self)@.chain, block@, old(self)@.difficulty) {
                Ok(chain) => res is Ok && final(self)@ == (LedgerView { chain, ..old(self)@ }),
                Err(e) => res == Err::<(), LedgerError>(e) && final(self)@ == old(self)@,
            },
            old(self)@.chain.last().hash != block@.previous_hash ==> res == Err::<(), LedgerError>(
                LedgerError::PreviousHashMismatch,
            ),
            old(self)@.well_formed() ==> final(self)@.well_formed(),
    {
        if self.get_last_block().hash != block.previous_hash {
            return Err(LedgerError::PreviousHashMismatch);
        }
        if !self.is_valid_proof(&block, block.hash.as_str()) {
            return Err(LedgerError::InvalidProof);
        }
        self.chain.push(block);
        assert(final(self)@.chain =~= old(self)@.chain.push(block@));
        Ok(())
    }

    /// Adds a peer to the list of peers. An address may come to stand in the
    /// list more than once.
    pub fn add_node_peer(&mut self, node: NodePeer)
        ensures
            final(self)@ == (LedgerView { peers: old(self)@.peers.push(node@), ..old(self)@ }),
    {
        self.peers.push(node);
        assert(final(self)@.peers =~= old(self)@.peers.push(node@));
    }

    /// Adds a transaction to the end of the pool.
    pub fn add_new_transaction(&mut self, transaction: Transaction)
        ensures
            final(self)@ == (LedgerView {
                unconfirmed_transactions: old(self)@.unconfirmed_transactions.push(transaction@),
                ..old(self)@
            }),
    {
        self.unconfirmed_transactions.push(transaction);
        assert(final(self)@.unconfirmed_transactions =~= old(
            self,
        )@.unconfirmed_transactions.push(transaction@));
    }

    /// Seals `block` at the difficulty of this ledger; see [`search_nonce`].
    /// The ledger is only read.
    pub fn proof_of_work(&self, block: &mut Block) -> (res: Result<(), LedgerError>)
        ensures
            sealing_outcome(old(block)@, self@.difficulty, res, final(block)@),
    {
        search_nonce(block, self.difficulty)
    }

    /// The block that mining would propose at `timestamp`, or nothing while
    /// the pool is empty. It is refused if the last block has the largest
    /// index that can be written. The ledger is only read.
    pub fn next_candidate(&self, timestamp: i64) -> (res: Result<Option<Block>, LedgerError>)
        requires
            self.chain.len() > 0,
        ensures
            candidate_outcome(self@, timestamp as int, res),
    {
        if self.unconfirmed_transactions.len() == 0 {
            return Ok(None);
        }
        let last = self.get_last_block();
        if last.index == u64::MAX {
            return Err(LedgerError::IndexSpaceExhausted);
        }
        let block = Block {
            index: last.index + 1,
            transactions: clone_transactions(&self.unconfirmed_transactions),
            timestamp,
            previous_hash: last.hash.clone(),
            nonce: 0,
            hash: String::from_str(""),
        };
        proof {
            reveal_strlit("");
            assert(block@.hash =~= Seq::empty());
        }
        Ok(Some(block))
    }

    /// The block that mining would propose at the time that the clock gave;
    /// see [`Blockchain::next_candidate`]. With an empty pool there is no
    /// candidate, whatever the clock gave; without a time the request is
    /// refused.
    pub fn next_candidate_timed(&self, now: Option<i64>) -> (res: Result<
        Option<Block>,
        LedgerError,
    >)
        requires
            self.chain.len() > 0,
        ensures
            timed_candidate_outcome(self@, now, res),
    {
        if self.unconfirmed_transactions.len() == 0 {
            return Ok(None);
        }
        match now {
            Some(timestamp) => self.next_candidate(timestamp),
            None => Err(LedgerError::ClockUnavailable),
        }
    }

    /// Admits a block that was mined from the pool and, if it is admitted,
    /// empties the pool. A refusal changes nothing.
    pub fn admit_mined(&mut self, block: Block) -> (res: Result<(), LedgerError>)
        requires
            old(self).chain.len() > 0,
        ensures
            match admission(old(self)@.chain, block@, old(self)@.difficulty) {
                Ok(chain) => res is Ok && final(self)@ == (LedgerView {
                    chain,
                    unconfirmed_transactions: Seq::empty(),
                    ..old(self)@
                }),
                Err(e) => res == Err::<(), LedgerError>(e) && final(self)@ == old(self)@,
            },
            old(self)@.well_formed() ==> final(self)@.well_formed(),
    {
        match self.add_block(block) {
            Ok(()) => {
                self.unconfirmed_transactions.clear();
                assert(final(self)@.unconfirmed_transactions =~= Seq::empty());
                Ok(())
            },
            Err(e) => Err(e),
        }
    }

    /// Mines the pool into a block stamped `timestamp`. With an empty pool
    /// there is nothing to mine: the answer is `false` and nothing changes.
    /// Otherwise the candidate block is sealed with the first nonce that
    /// gives a valid proof, appended to the chain, and the pool is emptied.
    pub fn mine_block_at(&mut self, timestamp: i64) -> (res: Result<bool, LedgerError>)
        requires
            old(self).chain.len() > 0,
        ensures
            mining_outcome(old(self)@, timestamp as int, res, final(self)@),
            old(self)@.unconfirmed_transactions.len() == 0 ==> res == Ok::<bool, LedgerError>(
                false,
            ) && final(self)@ == old(self)@,
            old(self)@.well_formed() ==> final(self)@.well_formed(),
            old(self)@.numbered() ==> final(self)@.numbered(),
    {
        let mut block = match self.next_candidate(timestamp) {
            Ok(Some(block)) => block,
            Ok(None) => {
                return Ok(false);
            },
            Err(e) => {
                return Err(e);
            },
        };
        let ghost candidate = block@;
        match self.proof_of_work(&mut block) {
            Ok(()) => {},
            Err(e) => {
                return Err(e);
            },
        }
        proof {
            digest_ignores_stored_hash(block@, candidate.with_nonce(block@.nonce));
        }
        match self.admit_mined(block) {
            Ok(()) => Ok(true),
            Err(e) => Err(e),
        }
    }

    /// Mines the pool into a block stamped with the time that the clock
    /// gave; see [`Blockchain::mine_block_at`]. With an empty pool there is
    /// nothing to mine, whatever the clock gave. Without a time, mining is
    /// refused and nothing changes.
    pub fn mine_block_timed(&mut self, now: Option<i64>) -> (res: Result<bool, LedgerError>)
        requires
            old(self).chain.len() > 0,
        ensures
            timed_mining_outcome(old(self)@, now, res, final(self)@),
            old(self)@.unconfirmed_transactions.len() == 0 ==> res == Ok::<bool, LedgerError>(
                false,
            ) && final(self)@ == old(self)@,
            old(self)@.well_formed() ==> final(self)@.well_formed(),
            old(self)@.numbered() ==> final(self)@.numbered(),
    {
        if self.unconfirmed_transactions.len() == 0 {
            return Ok(false);
        }
        match now {
            Some(timestamp) => self.mine_block_at(timestamp),
            None => Err(LedgerError::ClockUnavailable),
        }
    }

    /// Reads the clock and mines the pool into a block stamped with the
    /// current time; see [`Blockchain::mine_block_timed`].
    pub fn mine_block(&mut self) -> (res: Result<bool, LedgerError>)
        requires
            old(self).chain.len() > 0,
        ensures
            exists|now: Option<i64>| timed_mining_outcome(old(self)@, now, res, final(self)@),
            old(self)@.unconfirmed_transactions.len() == 0 ==> res == Ok::<bool, LedgerError>(
                false,
            ) && final(self)@ == old(self)@,
            old(self)@.well_formed() ==> final(self)@.well_formed(),
            old(self)@.numbered() ==> final(self)@.numbered(),
    {
        let now = unix_time_now();
        let res = self.mine_block_timed(now);
        assert(timed_mining_outcome(old(self)@, now, res, final(self)@));
        res
    }

    /// Tells whether every block after the first names the hash of the block
    /// before it and stores a valid proof of work.
    pub fn check_chain_validity(&self) -> (valid: bool)
        ensures
            valid == chain_valid(self@.chain, self@.difficulty),
    {
        let mut i: usize = 1;
        while i < self.chain.len()
            invariant
                1 <= i,
                forall|j: int|
                    1 <= j < i && j < self.chain.len() ==> (#[trigger] self@.chain[j]).previous_hash
                        == self@.chain[j - 1].hash && valid_proof(
                        self@.chain[j],
                        self@.difficulty,
                    ),
            decreases self.chain.len() - i,
        {
            let block = &self.chain[i];
            let linked = block.previous_hash == self.chain[i - 1].hash;
            if !linked || !self.is_valid_proof(block, block.hash.as_str()) {
                assert(!(self@.chain[i as int].previous_hash == self@.chain[i as int - 1].hash
                    && valid_proof(self@.chain[i as int], self@.difficulty)));
                return false;
            }
            i += 1;
        }
        true
    }
}

} // verus!
