//! A node: one ledger behind the operations that the outside world may ask
//! of it.
use crate::block::{
    blocks_view, clone_blocks, clone_transactions, transactions_view, Block, Transaction,
    TransactionView,
};
use crate::chain::{
    admission, chain_valid, clone_peers, initial_ledger, mining_outcome, peers_view,
    timed_mining_outcome, Blockchain, LedgerView, NodePeer, DIFFICULTY,
};
use crate::clock::unix_time_now;
use crate::error::LedgerError;
use crate::replication::{registration, scan_winner, Announcement, RegistrationReply};
use crate::wire::BlockRecord;
use vstd::prelude::*;
use vstd::string::*;

verus! {

/// The answer to a mining request.
#[derive(Debug, PartialEq, Eq)]
pub struct MineReport {
    /// Whether a block was mined.
    pub mined: bool,
    /// The length of the chain after the request.
    pub chain_length: usize,
    /// The transactions of the new block, if one was mined.
    pub transactions: Option<Vec<Transaction>>,
}

/// A snapshot of the chain with its length.
#[derive(Debug, PartialEq, Eq)]
pub struct ChainDump {
    pub length: usize,
    pub chain: Vec<Block>,
}

/// What a node hands to a peer that registers with it: its chain and its
/// list of peers.
#[derive(Debug, PartialEq, Eq)]
pub struct NodeDump {
    pub chain: Vec<Block>,
    pub peers: Vec<NodePeer>,
}

/// What becomes of a submitted transaction at time `now`: it is refused if
/// its author or its content is empty, and otherwise accepted with `now` as
/// its timestamp, whatever timestamp the submitter wrote.
pub open spec fn submission(t: TransactionView, now: int) -> Result<TransactionView, LedgerError> {
    if t.author.len() == 0 || t.content.len() == 0 {
        Err(LedgerError::InvalidInput)
    } else {
        Ok(TransactionView { timestamp: now, ..t })
    }
}

/// How a node answers a transaction submitted at time `now` and what the
/// submission makes of the ledger.
pub open spec fn submission_outcome(
    before: LedgerView,
    t: TransactionView,
    now: int,
    res: Result<(), LedgerError>,
    after: LedgerView,
) -> bool {
    match submission(t, now) {
        Ok(stamped) => res is Ok && after == (LedgerView {
            unconfirmed_transactions: before.unconfirmed_transactions.push(stamped),
            ..before
        }),
        Err(e) => res == Err::<(), LedgerError>(e) && after == before,
    }
}

/// How a node answers a transaction when the clock was read first: a
/// transaction with an empty author or content is refused as such, whatever
/// the clock gave; if the clock gave no time, the transaction is refused and
/// nothing changes; otherwise it is taken in at that time.
pub open spec fn timed_submission_outcome(
    before: LedgerView,
    t: TransactionView,
    now: Option<i64>,
    res: Result<(), LedgerError>,
    after: LedgerView,
) -> bool {
    if t.author.len() == 0 || t.content.len() == 0 {
        res == Err::<(), LedgerError>(LedgerError::InvalidInput) && after == before
    } else {
        match now {
            Some(seconds) => submission_outcome(before, t, seconds as int, res, after),
            None => res == Err::<(), LedgerError>(LedgerError::ClockUnavailable) && after
                == before,
        }
    }
}

/// Whether mining took place, as a mining report tells it.
pub open spec fn mined_of(res: Result<MineReport, LedgerError>) -> Result<bool, LedgerError> {
    match res {
        Ok(report) => Ok(report.mined),
        Err(e) => Err(e),
    }
}

/// A mining report describes the ledger: it gives the length of the chain
/// and, if a block was mined, the transactions of the last block.
pub open spec fn report_describes(res: Result<MineReport, LedgerError>, ledger: LedgerView) -> bool {
    match res {
        Ok(report) => {
            &&& report.chain_length == ledger.chain.len()
            &&& match report.transactions {
                Some(transactions) => report.mined && transactions_view(transactions@)
                    == ledger.chain.last().transactions,
                None => !report.mined,
            }
        },
        Err(_) => true,
    }
}

/// How a node answers a mining request at `timestamp` and what the request
/// makes of the ledger.
pub open spec fn mine_request_outcome(
    before: LedgerView,
    timestamp: int,
    res: Result<MineReport, LedgerError>,
    after: LedgerView,
) -> bool {
    mining_outcome(before, timestamp, mined_of(res), after) && report_describes(res, after)
}

/// How a node answers a mining request when the clock was read first, and
/// what the request makes of the ledger.
pub open spec fn timed_mine_request_outcome(
    before: LedgerView,
    now: Option<i64>,
    res: Result<MineReport, LedgerError>,
    after: LedgerView,
) -> bool {
    timed_mining_outcome(before, now, mined_of(res), after) && report_describes(res, after)
}

/// The address to which a node posts its registration with `node`, or the
/// refusal of an empty address.
pub open spec fn registration_target(node: Seq<char>) -> Result<Seq<char>, LedgerError> {
    if node.len() == 0 {
        Err(LedgerError::InvalidInput)
    } else {
        Ok(node + "/register_node"@)
    }
}

/// One node of the network. A caller that shares a node between tasks keeps
/// it behind one lock: every operation that changes it takes the whole node.
#[derive(Debug, PartialEq, Eq)]
pub struct Application {
    pub blockchain: Blockchain,
}

impl View for Application {
    type V = LedgerView;

    open spec fn view(&self) -> LedgerView {
        self.blockchain@
    }
}

impl Application {
    /// The ledger is well formed and has the difficulty of a new ledger.
    /// A new node is sound, and every operation of a node keeps it sound.
    pub open spec fn sound(&self) -> bool {
        self@.well_formed() && self@.difficulty == DIFFICULTY
    }

    /// A node that has just started: its ledger holds the genesis block and
    /// nothing else.
    pub fn new() -> (node: Application)
        ensures
            node@ == initial_ledger(),
            node.sound(),
    {
        Application { blockchain: Blockchain::new_blockchain() }
    }

    /// Takes a submitted transaction into the pool at time `now`. A
    /// transaction with an empty author or an empty content is refused and
    /// the pool stays as it is; otherwise the transaction joins the end of
    /// the pool with `now` as its timestamp.
    pub fn accept_transaction(&mut self, transaction: Transaction, now: i64) -> (res: Result<
        (),
        LedgerError,
    >)
        ensures
            submission_outcome(old(self)@, transaction@, now as int, res, final(self)@),
            old(self).sound() ==> final(self).sound(),
    {
        if transaction.author.as_str().is_empty() || transaction.content.as_str().is_empty() {
            return Err(LedgerError::InvalidInput);
        }
        let stamped = Transaction {
            author: transaction.author,
            content: transaction.content,
            timestamp: now,
        };
        self.blockchain.add_new_transaction(stamped);
        Ok(())
    }

    /// Takes a submitted transaction into the pool at the time that the
    /// clock gave; see [`Application::accept_transaction`]. A transaction with
    /// an empty author or content is refused as such, whatever the clock
    /// gave. Without a time the transaction is refused and nothing changes.
    pub fn accept_transaction_timed(&mut self, transaction: Transaction, now: Option<i64>) -> (res:
        Result<(), LedgerError>)
        ensures
            timed_submission_outcome(old(self)@, transaction@, now, res, final(self)@),
            old(self).sound() ==> final(self).sound(),
    {
        if transaction.author.as_str().is_empty() || transaction.content.as_str().is_empty() {
            return Err(LedgerError::InvalidInput);
        }
        match now {
            Some(seconds) => self.accept_transaction(transaction, seconds),
            None => Err(LedgerError::ClockUnavailable),
        }
    }

    /// Reads the clock and takes a submitted transaction into the pool,
    /// stamped with the current time; see
    /// [`Application::accept_transaction_timed`].
    pub fn handle_new_transaction(&mut self, transaction: Transaction) -> (res: Result<
        (),
        LedgerError,
    >)
        ensures
            exists|now: Option<i64>|
                timed_submission_outcome(old(self)@, transaction@, now, res, final(self)@),
            transaction@.author.len() == 0 || transaction@.content.len() == 0 ==> res == Err::<
                (),
                LedgerError,
            >(LedgerError::InvalidInput) && final(self)@ == old(self)@,
            old(self).sound() ==> final(self).sound(),
    {
        let now = unix_time_now();
        let res = self.accept_transaction_timed(transaction, now);
        assert(timed_submission_outcome(old(self)@, transaction@, now, res, final(self)@));
        res
    }

    /// Mines the pool into a block stamped `timestamp` and reports: whether
    /// a block was mined, the length of the chain, and the transactions of
    /// the new block. A caller that is told of a new block goes on to run a
    /// consensus round and to announce the block.
    pub fn mine_at(&mut self, timestamp: i64) -> (res: Result<MineReport, LedgerError>)
        requires
            old(self)@.chain.len() > 0,
        ensures
            mine_request_outcome(old(self)@, timestamp as int, res, final(self)@),
            old(self).sound() ==> final(self).sound(),
    {
        match self.blockchain.mine_block_at(timestamp) {
            Ok(mined) => Ok(self.mine_report(mined)),
            Err(e) => Err(e),
        }
    }

    /// The report on a mining request that has been carried out: the length
    /// of the chain as it stands and, if a block was mined, the transactions
    /// of the last block.
    pub fn mine_report(&self, mined: bool) -> (report: MineReport)
        requires
            mined ==> self@.chain.len() > 0,
        ensures
            report.mined == mined,
            report.chain_length == self@.chain.len(),
            match report.transactions {
                Some(transactions) => mined && transactions_view(transactions@)
                    == self@.chain.last().transactions,
                None => !mined,
            },
    {
        let transactions = if mined {
            Some(clone_transactions(&self.blockchain.get_last_block().transactions))
        } else {
            None
        };
        MineReport { mined, chain_length: self.blockchain.chain.len(), transactions }
    }

    /// Mines the pool into a block stamped with the time that the clock gave
    /// and reports; see [`Application::mine_at`]. With an empty pool the
    /// report says that nothing was mined, whatever the clock gave. Without a
    /// time the request is refused and nothing changes.
    pub fn mine_timed(&mut self, now: Option<i64>) -> (res: Result<MineReport, LedgerError>)
        requires
            old(self)@.chain.len() > 0,
        ensures
            timed_mine_request_outcome(old(self)@, now, res, final(self)@),
            old(self).sound() ==> final(self).sound(),
    {
        match self.blockchain.mine_block_timed(now) {
            Ok(mined) => Ok(self.mine_report(mined)),
            Err(e) => Err(e),
        }
    }

    /// Reads the clock, mines the pool into a block stamped with the current
    /// time, and reports; see [`Application::mine_timed`].
    pub fn handle_mine(&mut self) -> (res: Result<MineReport, LedgerError>)
        requires
            old(self)@.chain.len() > 0,
        ensures
            exists|now: Option<i64>|
                timed_mine_request_outcome(old(self)@, now, res, final(self)@),
            old(self)@.unconfirmed_transactions.len() == 0 ==> res is Ok && !res->Ok_0.mined
                && final(self)@ == old(self)@,
            old(self).sound() ==> final(self).sound(),
    {
        let now = unix_time_now();
        let res = self.mine_timed(now);
        assert(timed_mine_request_outcome(old(self)@, now, res, final(self)@));
        res
    }

    /// Admits a block that another node submitted, if it names the hash of
    /// the last block as its predecessor and stores a valid proof of work;
    /// refuses it, and changes nothing, if not.
    pub fn handle_verify_and_add_block(&mut self, block: Block) -> (res: Result<(), LedgerError>)
        requires
            old(self)@.chain.len() > 0,
        ensures
            match admission(old(self)@.chain, block@, old(self)@.difficulty) {
                Ok(chain) => res is Ok && final(self)@ == (LedgerView { chain, ..old(self)@ }),
                Err(e) => res == Err::<(), LedgerError>(e) && final(self)@ == old(self)@,
            },
            old(self).sound() ==> final(self).sound(),
    {
        self.blockchain.add_block(block)
    }

    /// A snapshot of the chain and its length.
    pub fn get_chain(&self) -> (dump: ChainDump)
        ensures
            blocks_view(dump.chain@) == self@.chain,
            dump.length == self@.chain.len(),
    {
        ChainDump { length: self.blockchain.chain.len(), chain: clone_blocks(&self.blockchain.chain) }
    }

    /// A snapshot of the pool.
    pub fn handle_get_pending_transactions(&self) -> (pending: Vec<Transaction>)
        ensures
            transactions_view(pending@) == self@.unconfirmed_transactions,
    {
        clone_transactions(&self.blockchain.unconfirmed_transactions)
    }

    /// Registers a peer and hands it the chain and the peers of this node,
    /// the new peer included. A peer with an empty address is refused and
    /// nothing changes. A peer that registers twice stands in the list
    /// twice.
    pub fn handle_register_node(&mut self, node: NodePeer) -> (res: Result<NodeDump, LedgerError>)
        ensures
            match res {
                Ok(dump) => {
                    &&& node@.len() > 0
                    &&& final(self)@ == (LedgerView {
                        peers: old(self)@.peers.push(node@),
                        ..old(self)@
                    })
                    &&& blocks_view(dump.chain@) == final(self)@.chain
                    &&& peers_view(dump.peers@) == final(self)@.peers
                },
                Err(e) => {
                    &&& node@.len() == 0
                    &&& e == LedgerError::InvalidInput
                    &&& final(self)@ == old(self)@
                },
            },
            old(self).sound() ==> final(self).sound(),
    {
        if node.node_address.as_str().is_empty() {
            return Err(LedgerError::InvalidInput);
        }
        self.blockchain.add_node_peer(node);
        Ok(
            NodeDump {
                chain: clone_blocks(&self.blockchain.chain),
                peers: clone_peers(&self.blockchain.peers),
            },
        )
    }

    /// The address to post a registration to: the address of `node` followed
    /// by `/register_node`. An empty address is refused.
    pub fn registration_request(node: &NodePeer) -> (res: Result<String, LedgerError>)
        ensures
            match registration_target(node@) {
                Ok(target) => res is Ok && res->Ok_0@ == target,
                Err(e) => res == Err::<String, LedgerError>(e),
            },
    {
        if node.node_address.as_str().is_empty() {
            return Err(LedgerError::InvalidInput);
        }
        Ok(node.node_address.clone().concat("/register_node"))
    }

    /// Completes a registration with `node` from the answer that it gave,
    /// none if it could not be reached or answered with a failure. With an
    /// empty address nothing is looked at and nothing changes. Otherwise the
    /// chain rebuilt from the answer and the peers named in it replace the
    /// chain and the peers of this node; if the answer is missing or
    /// incomplete, or its dump does not rebuild, nothing changes.
    pub fn handle_register_node_with(
        &mut self,
        node: &NodePeer,
        reply: Option<RegistrationReply>,
    ) -> (res: Result<(), LedgerError>)
        ensures
            node@.len() == 0 ==> res == Err::<(), LedgerError>(LedgerError::InvalidInput)
                && final(self)@ == old(self)@,
            node@.len() > 0 ==> match registration(reply) {
                Ok((chain, peers)) => res is Ok && final(self)@ == (LedgerView {
                    chain,
                    peers,
                    ..old(self)@
                }),
                Err(e) => res == Err::<(), LedgerError>(e) && final(self)@ == old(self)@,
            },
            old(self).sound() ==> final(self).sound(),
    {
        if node.node_address.as_str().is_empty() {
            return Err(LedgerError::InvalidInput);
        }
        self.blockchain.register_with(reply)
    }

    /// The addresses to ask for a chain dump before a consensus round; see
    /// [`Blockchain::consensus_requests`].
    pub fn consensus_requests(&self) -> (targets: Vec<String>)
        ensures
            targets@.len() == self@.peers.len(),
            forall|i: int|
                0 <= i < targets@.len() ==> (#[trigger] targets@[i])@ == self@.peers[i]
                    + "/chain"@,
    {
        self.blockchain.consensus_requests()
    }

    /// Runs a consensus round on the answers of the peers; see
    /// [`Blockchain::consensus`]. The chain is replaced only by a valid chain
    /// that is strictly longer.
    pub fn run_consensus(&mut self, replies: &Vec<Option<Vec<BlockRecord>>>) -> (replaced: bool)
        ensures
            match scan_winner(replies@, replies@.len(), old(self)@.chain.len()) {
                Some(chain) => replaced && final(self)@ == (LedgerView { chain, ..old(self)@ }),
                None => !replaced && final(self)@ == old(self)@,
            },
            replaced ==> final(self)@.chain.len() > old(self)@.chain.len() && chain_valid(
                final(self)@.chain,
                DIFFICULTY as nat,
            ),
            final(self)@.chain.len() >= old(self)@.chain.len(),
            old(self).sound() ==> final(self).sound(),
    {
        self.blockchain.consensus(replies)
    }

    /// What follows a mined block: a consensus round on the answers of the
    /// peers, and then the announcement of the last block of the chain as it
    /// stands after the round.
    pub fn follow_up(&mut self, replies: &Vec<Option<Vec<BlockRecord>>>) -> (announcement:
        Announcement)
        requires
            old(self)@.chain.len() > 0,
        ensures
            match scan_winner(replies@, replies@.len(), old(self)@.chain.len()) {
                Some(chain) => final(self)@ == (LedgerView { chain, ..old(self)@ }),
                None => final(self)@ == old(self)@,
            },
            announcement.block@ == final(self)@.chain.last(),
            announcement.targets@.len() == final(self)@.peers.len(),
            forall|i: int|
                0 <= i < announcement.targets@.len() ==> (#[trigger] announcement.targets@[i])@
                    == final(self)@.peers[i] + "/add_block"@,
            old(self).sound() ==> final(self).sound(),
    {
        self.run_consensus(replies);
        self.announce_new_block()
    }

    /// What to send to announce the newest block; see
    /// [`Blockchain::announce_new_block`].
    pub fn announce_new_block(&self) -> (announcement: Announcement)
        requires
            self@.chain.len() > 0,
        ensures
            announcement.block@ == self@.chain.last(),
            announcement.targets@.len() == self@.peers.len(),
            forall|i: int|
                0 <= i < announcement.targets@.len() ==> (#[trigger] announcement.targets@[i])@
                    == self@.peers[i] + "/add_block"@,
    {
        self.blockchain.announce_new_block()
    }
}

} // verus!
