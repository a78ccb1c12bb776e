//! Keeping nodes in step: the longest-valid-chain rule, the announcement of
//! new blocks, and registration with another node.
use crate::block::{blocks_view, Block, BlockView};
use crate::chain::{chain_valid, genesis_block, Blockchain, LedgerView, DIFFICULTY};
use crate::error::LedgerError;
use crate::wire::{rebuilt_chain, replayed_chain_is_well_formed, texts_view, BlockRecord};
use vstd::prelude::*;
use vstd::string::*;

verus! {

/// The chain that a peer's answer puts forward: none if the peer gave no
/// answer, if its dump does not rebuild, or if the rebuilt chain is not
/// valid.
pub open spec fn candidate_chain(reply: Option<Vec<BlockRecord>>) -> Option<Seq<BlockView>> {
    match reply {
        None => None,
        Some(dump) => match rebuilt_chain(dump@) {
            Ok(chain) => if chain_valid(chain, DIFFICULTY as nat) {
                Some(chain)
            } else {
                None
            },
            Err(_) => None,
        },
    }
}

/// The length that a candidate has to exceed: that of the running winner, or
/// that of the local chain while there is no winner.
pub open spec fn length_to_beat(winner: Option<Seq<BlockView>>, local_length: nat) -> nat {
    match winner {
        Some(chain) => chain.len(),
        None => local_length,
    }
}

/// The winner after the answers of the first `n` peers have been scanned in
/// order: a candidate takes the lead only if it is strictly longer than the
/// running winner, or than the local chain while there is no winner.
pub open spec fn scan_winner(
    replies: Seq<Option<Vec<BlockRecord>>>,
    n: nat,
    local_length: nat,
) -> Option<Seq<BlockView>>
    decreases n,
{
    if n == 0 {
        None
    } else {
        let earlier = scan_winner(replies, (n - 1) as nat, local_length);
        match candidate_chain(replies[n - 1]) {
            Some(chain) => if chain.len() > length_to_beat(earlier, local_length) {
                Some(chain)
            } else {
                earlier
            },
            None => earlier,
        }
    }
}

/// A winner is strictly longer than the local chain, starts with the genesis
/// block, and is valid.
pub proof fn winner_is_longer_and_valid(
    replies: Seq<Option<Vec<BlockRecord>>>,
    n: nat,
    local_length: nat,
)
    ensures
        match scan_winner(replies, n, local_length) {
            Some(chain) => {
                &&& chain.len() > local_length
                &&& chain[0] == genesis_block()
                &&& chain_valid(chain, DIFFICULTY as nat)
            },
            None => true,
        },
    decreases n,
{
    if n > 0 {
        winner_is_longer_and_valid(replies, (n - 1) as nat, local_length);
        match replies[n - 1] {
            Some(dump) => {
                if rebuilt_chain(dump@) is Ok {
                    replayed_chain_is_well_formed(dump@, dump@.len(), DIFFICULTY as nat);
                }
            },
            None => {},
        }
    }
}

/// The length of the chain that the answer at place `j` puts forward, if it
/// puts one forward.
pub open spec fn candidate_length(replies: Seq<Option<Vec<BlockRecord>>>, j: int) -> Option<nat> {
    match candidate_chain(replies[j]) {
        Some(chain) => Some(chain.len()),
        None => None,
    }
}

/// The answer at place `k` holds the first of the longest valid candidates
/// among the first `n` answers.
pub open spec fn is_first_longest(replies: Seq<Option<Vec<BlockRecord>>>, n: nat, k: int) -> bool {
    &&& 0 <= k < n
    &&& candidate_length(replies, k) is Some
    &&& forall|j: int|
        0 <= j < n && (#[trigger] candidate_length(replies, j)) is Some ==> candidate_length(
            replies,
            j,
        )->0 <= candidate_length(replies, k)->0
    &&& forall|j: int|
        0 <= j < k && (#[trigger] candidate_length(replies, j)) is Some ==> candidate_length(
            replies,
            j,
        )->0 < candidate_length(replies, k)->0
}

/// No valid candidate among the first `n` answers is longer than `bound`.
pub open spec fn none_longer(replies: Seq<Option<Vec<BlockRecord>>>, n: nat, bound: nat) -> bool {
    forall|j: int|
        0 <= j < n && (#[trigger] candidate_length(replies, j)) is Some ==> candidate_length(
            replies,
            j,
        )->0 <= bound
}

/// While no valid candidate among the first `n` answers is longer than the
/// local chain, there is no winner. Otherwise the winner is the first of the
/// longest valid candidates: the place of its answer is returned.
pub proof fn winner_is_first_longest(
    replies: Seq<Option<Vec<BlockRecord>>>,
    n: nat,
    local_length: nat,
) -> (k: int)
    ensures
        match scan_winner(replies, n, local_length) {
            Some(chain) => {
                &&& chain.len() > local_length
                &&& is_first_longest(replies, n, k)
                &&& candidate_chain(replies[k]) == Some(chain)
            },
            None => none_longer(replies, n, local_length),
        },
    decreases n,
{
    if n == 0 {
        0
    } else {
        let m = (n - 1) as nat;
        let earlier_k = winner_is_first_longest(replies, m, local_length);
        let earlier = scan_winner(replies, m, local_length);
        let bar = length_to_beat(earlier, local_length);
        let here = candidate_length(replies, n - 1);
        assert(none_longer(replies, m, bar));
        if here is Some && here->0 > bar {
            assert(scan_winner(replies, n, local_length) == candidate_chain(replies[n - 1]));
            assert forall|j: int|
                0 <= j < n && (#[trigger] candidate_length(replies, j)) is Some implies candidate_length(
                replies,
                j,
            )->0 <= here->0 by {
                if j < m {
                    assert(candidate_length(replies, j)->0 <= bar);
                }
            }
            assert forall|j: int|
                0 <= j < n - 1 && (#[trigger] candidate_length(replies, j))
                    is Some implies candidate_length(replies, j)->0 < here->0 by {
                assert(candidate_length(replies, j)->0 <= bar);
            }
            n - 1
        } else {
            assert(scan_winner(replies, n, local_length) == earlier);
            if earlier is Some {
                assert forall|j: int|
                    0 <= j < n && (#[trigger] candidate_length(replies, j))
                        is Some implies candidate_length(replies, j)->0 <= candidate_length(
                    replies,
                    earlier_k,
                )->0 by {
                    if j < m {
                    } else {
                        assert(j == n - 1);
                    }
                }
            } else {
                assert forall|j: int|
                    0 <= j < n && (#[trigger] candidate_length(replies, j))
                        is Some implies candidate_length(replies, j)->0 <= local_length by {
                    if j < m {
                    } else {
                        assert(j == n - 1);
                    }
                }
            }
            earlier_k
        }
    }
}

/// What a node sends when it announces its newest block: the block, and one
/// address to post it to for each peer, in the order of the peer list.
#[derive(Debug, PartialEq, Eq)]
pub struct Announcement {
    pub block: Block,
    pub targets: Vec<String>,
}

/// What another node answers to a registration: its chain dump and its list
/// of peer addresses, each absent if the answer did not hold it.
#[derive(Debug, PartialEq, Eq)]
pub struct RegistrationReply {
    pub chain: Option<Vec<BlockRecord>>,
    pub peers: Option<Vec<String>>,
}

/// What a registration makes of the answer: the chain and the peers to take
/// over, or the reason for which it fails. No answer means that the peer was
/// not reached or answered with a failure.
pub open spec fn registration(reply: Option<RegistrationReply>) -> Result<
    (Seq<BlockView>, Seq<Seq<char>>),
    LedgerError,
> {
    match reply {
        None => Err(LedgerError::PeerUnreachable),
        Some(answer) => if answer.chain is None || answer.peers is None {
            Err(LedgerError::MalformedRemoteData)
        } else {
            match rebuilt_chain(answer.chain->0@) {
                Ok(chain) => Ok((chain, texts_view(answer.peers->0@))),
                Err(e) => Err(e),
            }
        },
    }
}

impl Blockchain {
    /// Applies the longest-valid-chain rule to the answers of the peers, one
    /// answer for each peer in the order of the peer list, none where a peer
    /// could not be reached or its answer could not be read. The chain of the
    /// first answer that rebuilds to a valid chain strictly longer than every
    /// chain before it, the local one included, replaces the local chain.
    /// The pool, the peers and the difficulty stay as they are.
    pub fn consensus(&mut self, replies: &Vec<Option<Vec<BlockRecord>>>) -> (replaced: bool)
        ensures
            match scan_winner(replies@, replies@.len(), old(self)@.chain.len()) {
                Some(chain) => replaced && final(self)@ == (LedgerView { chain, ..old(self)@ }),
                None => !replaced && final(self)@ == old(self)@,
            },
            !replaced ==> final(self)@ == old(self)@,
            replaced ==> final(self)@.chain.len() > old(self)@.chain.len(),
            replaced ==> final(self)@.chain[0] == genesis_block() && chain_valid(
                final(self)@.chain,
                DIFFICULTY as nat,
            ),
            old(self)@.well_formed() && old(self)@.difficulty == DIFFICULTY
                ==> final(self)@.well_formed(),
    {
        let ghost local_length = self@.chain.len();
        let mut winner_length: usize = self.chain.len();
        let mut winner: Option<Vec<Block>> = None;
        let mut i: usize = 0;
        while i < replies.len()
            invariant
                i <= replies.len(),
                match winner {
                    Some(chain) => scan_winner(replies@, i as nat, local_length) == Some(
                        blocks_view(chain@),
                    ),
                    None => scan_winner(replies@, i as nat, local_length) is None,
                },
                winner_length == length_to_beat(
                    scan_winner(replies@, i as nat, local_length),
                    local_length,
                ),
            decreases replies.len() - i,
        {
            match &replies[i] {
                Some(dump) => {
                    match Blockchain::replay_dump(dump) {
                        Ok(candidate) => {
                            if candidate.check_chain_validity() && candidate.chain.len()
                                > winner_length {
                                winner_length = candidate.chain.len();
                                winner = Some(candidate.chain);
                            }
                        },
                        Err(_) => {},
                    }
                },
                None => {},
            }
            i += 1;
        }
        proof {
            winner_is_longer_and_valid(replies@, replies@.len(), local_length);
        }
        match winner {
            Some(chain) => {
                self.chain = chain;
                true
            },
            None => false,
        }
    }

    /// One address for each peer, in the order of the peer list: the peer's
    /// own address followed by `path`.
    pub fn peer_endpoints(&self, path: &str) -> (targets: Vec<String>)
        ensures
            targets@.len() == self@.peers.len(),
            forall|i: int|
                0 <= i < targets@.len() ==> (#[trigger] targets@[i])@ == self@.peers[i] + path@,
    {
        let mut targets: Vec<String> = Vec::new();
        let mut i: usize = 0;
        while i < self.peers.len()
            invariant
                i <= self.peers.len(),
                targets@.len() == i,
                forall|j: int|
                    0 <= j < i ==> (#[trigger] targets@[j])@ == self.peers@[j]@ + path@,
            decreases self.peers.len() - i,
        {
            let target = self.peers[i].node_address.clone().concat(path);
            targets.push(target);
            i += 1;
        }
        targets
    }

    /// The addresses to ask for a chain dump before a consensus round: for
    /// each peer, its address followed by `/chain`.
    pub fn consensus_requests(&self) -> (targets: Vec<String>)
        ensures
            targets@.len() == self@.peers.len(),
            forall|i: int|
                0 <= i < targets@.len() ==> (#[trigger] targets@[i])@ == self@.peers[i]
                    + "/chain"@,
    {
        self.peer_endpoints("/chain")
    }

    /// What to send to announce the newest block: a copy of the last block of
    /// the chain and, for each peer, its address followed by `/add_block`.
    /// Sending is left to the caller, once to each address, whatever becomes
    /// of the others.
    pub fn announce_new_block(&self) -> (announcement: Announcement)
        requires
            self.chain.len() > 0,
        ensures
            announcement.block@ == self@.chain.last(),
            announcement.targets@.len() == self@.peers.len(),
            forall|i: int|
                0 <= i < announcement.targets@.len() ==> (#[trigger] announcement.targets@[i])@
                    == self@.peers[i] + "/add_block"@,
    {
        Announcement {
            block: self.get_last_block().clone(),
            targets: self.peer_endpoints("/add_block"),
        }
    }

    /// Takes over the chain and the peers that another node sent in answer to
    /// a registration: the chain is rebuilt from the dump by replay and
    /// replaces the local chain, and the list of peers is replaced, not
    /// merged. If there was no answer, if the answer lacks the dump or the
    /// peers, or if the dump does not rebuild, nothing changes.
    pub fn register_with(&mut self, reply: Option<RegistrationReply>) -> (res: Result<
        (),
        LedgerError,
    >)
        ensures
            match registration(reply) {
                Ok((chain, peers)) => res is Ok && final(self)@ == (LedgerView {
                    chain,
                    peers,
                    ..old(self)@
                }),
                Err(e) => res == Err::<(), LedgerError>(e) && final(self)@ == old(self)@,
            },
            old(self)@.well_formed() && old(self)@.difficulty == DIFFICULTY
                ==> final(self)@.well_formed(),
    {
        let answer = match reply {
            Some(answer) => answer,
            None => {
                return Err(LedgerError::PeerUnreachable);
            },
        };
        let (chain_dump, node_addresses) = match (answer.chain, answer.peers) {
            (Some(chain_dump), Some(node_addresses)) => (chain_dump, node_addresses),
            _ => {
                return Err(LedgerError::MalformedRemoteData);
            },
        };
        match Blockchain::create_chain_from_dump(chain_dump, node_addresses) {
            Ok(rebuilt) => {
                self.chain = rebuilt.chain;
                self.peers = rebuilt.peers;
                Ok(())
            },
            Err(e) => Err(e),
        }
    }
}

} // verus!
