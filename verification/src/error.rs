//! The ways in which a ledger operation is refused.
use vstd::prelude::*;
use vstd::string::*;

verus! {

/// Why the ledger refused an operation. No refusal changes the ledger.
#[derive(Clone, Copy, Debug, PartialEq, Eq, Structural)]
pub enum LedgerError {
    /// A transaction field or a peer address was empty.
    InvalidInput,
    /// The block does not name the hash of the current last block as its
    /// predecessor.
    PreviousHashMismatch,
    /// The block's stored hash is not its digest, or has too few leading
    /// zeros.
    InvalidProof,
    /// A record received from a peer lacks a field, or holds one of the wrong
    /// kind.
    MalformedRemoteData,
    /// A peer could not be reached, or answered with a failure.
    PeerUnreachable,
    /// Every nonce above the block's own was tried and none gave a digest
    /// with enough leading zeros.
    NonceSpaceExhausted,
    /// The last block has the largest index that can be written, so no block
    /// can follow it.
    IndexSpaceExhausted,
    /// The machine's clock gave no time to stamp with.
    ClockUnavailable,
}

impl LedgerError {
    /// The wording of each refusal.
    pub open spec fn message_text(self) -> Seq<char> {
        match self {
            LedgerError::InvalidInput => "Invalid input"@,
            LedgerError::PreviousHashMismatch => "Previous hash incorrect"@,
            LedgerError::InvalidProof => "Block proof invalid"@,
            LedgerError::MalformedRemoteData => "Malformed remote data"@,
            LedgerError::PeerUnreachable => "Peer unreachable"@,
            LedgerError::NonceSpaceExhausted => "Nonce space exhausted"@,
            LedgerError::IndexSpaceExhausted => "Index space exhausted"@,
            LedgerError::ClockUnavailable => "Clock unavailable"@,
        }
    }

    /// A short sentence for the refusal, for logs and responses.
    pub fn message(&self) -> (text: String)
        ensures
            text@ == self.message_text(),
    {
        match self {
            LedgerError::InvalidInput => String::from_str("Invalid input"),
            LedgerError::PreviousHashMismatch => String::from_str("Previous hash incorrect"),
            LedgerError::InvalidProof => String::from_str("Block proof invalid"),
            LedgerError::MalformedRemoteData => String::from_str("Malformed remote data"),
            LedgerError::PeerUnreachable => String::from_str("Peer unreachable"),
            LedgerError::NonceSpaceExhausted => String::from_str("Nonce space exhausted"),
            LedgerError::IndexSpaceExhausted => String::from_str("Index space exhausted"),
            LedgerError::ClockUnavailable => String::from_str("Clock unavailable"),
        }
    }
}

} // verus!
