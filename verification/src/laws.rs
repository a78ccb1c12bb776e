//! What holds of every ledger, stated over the views and proved.
use crate::block::{block_digest, block_preimage, BlockView, TransactionView};
use crate::canonical::preimage_is_injective;
use crate::digest::{hex_text_is_injective, sha256, sha256_tells_apart};
use crate::chain::{
    admission, chain_valid, genesis_block, genesis_seed, is_first_hit, valid_proof, LedgerView,
    DIFFICULTY,
};
use crate::error::LedgerError;
use crate::wire::{decoded_block, rebuilt_chain, replayed, BlockRecord};
use vstd::prelude::*;
use vstd::utf8::{encode_utf8, encode_utf8_decode_utf8};

verus! {

/// A well-formed ledger has a valid chain: a check of its chain answers
/// `true`.
pub proof fn well_formed_chain_is_valid(ledger: LedgerView)
    requires
        ledger.well_formed(),
    ensures
        chain_valid(ledger.chain, ledger.difficulty),
{
}

/// A block that is admitted to a well-formed ledger leaves it well formed,
/// and so with a valid chain.
pub proof fn admission_keeps_well_formed(ledger: LedgerView, b: BlockView)
    requires
        ledger.well_formed(),
        admission(ledger.chain, b, ledger.difficulty) is Ok,
    ensures
        (LedgerView {
            chain: admission(ledger.chain, b, ledger.difficulty)->Ok_0,
            ..ledger
        }).well_formed(),
{
    let after = ledger.chain.push(b);
    assert forall|i: int| 1 <= i < after.len() implies (#[trigger] after[i]).previous_hash
        == after[i - 1].hash && valid_proof(after[i], ledger.difficulty) by {
        if i < ledger.chain.len() {
            assert(after[i] == ledger.chain[i]);
        }
    }
}

/// Changing a block after the first of a valid chain, without changing the
/// hash that it stores, makes the chain invalid, provided that the change
/// shows in the digest: that the changed block does not hash to the value
/// that the block had before.
pub proof fn tampered_block_breaks_validity(
    chain: Seq<BlockView>,
    difficulty: nat,
    i: int,
    tampered: BlockView,
)
    requires
        chain_valid(chain, difficulty),
        1 <= i < chain.len(),
        tampered.hash == chain[i].hash,
        block_digest(tampered) != block_digest(chain[i]),
    ensures
        !chain_valid(chain.update(i, tampered), difficulty),
{
    let changed = chain.update(i, tampered);
    assert(valid_proof(chain[i], difficulty));
    assert(changed[i] == tampered);
    assert(!valid_proof(changed[i], difficulty));
}

/// A change to the index, the transactions, the timestamp, the previous hash
/// or the nonce of a block changes its digest, provided that SHA-256 tells
/// the two preimages apart.
pub proof fn changed_field_changes_digest(a: BlockView, b: BlockView)
    requires
        a.index != b.index || a.transactions != b.transactions || a.timestamp != b.timestamp
            || a.previous_hash != b.previous_hash || a.nonce != b.nonce,
        sha256_tells_apart(encode_utf8(block_preimage(a)), encode_utf8(block_preimage(b))),
    ensures
        block_digest(a) != block_digest(b),
{
    let text_a = block_preimage(a);
    let text_b = block_preimage(b);
    if text_a == text_b {
        preimage_is_injective(a, b);
    }
    if encode_utf8(text_a) == encode_utf8(text_b) {
        encode_utf8_decode_utf8(text_a);
        encode_utf8_decode_utf8(text_b);
    }
    if block_digest(a) == block_digest(b) {
        hex_text_is_injective(sha256(encode_utf8(text_a)), sha256(encode_utf8(text_b)));
    }
}

/// Changing the index, the transactions, the timestamp, the previous hash or
/// the nonce of a block after the first of a valid chain, without changing
/// the hash that it stores, makes the chain invalid, provided that SHA-256
/// tells the preimage of the block as it was and as it is apart.
pub proof fn tampered_field_breaks_validity(
    chain: Seq<BlockView>,
    difficulty: nat,
    i: int,
    tampered: BlockView,
)
    requires
        chain_valid(chain, difficulty),
        1 <= i < chain.len(),
        tampered.hash == chain[i].hash,
        tampered.index != chain[i].index || tampered.transactions != chain[i].transactions
            || tampered.timestamp != chain[i].timestamp || tampered.previous_hash
            != chain[i].previous_hash || tampered.nonce != chain[i].nonce,
        sha256_tells_apart(
            encode_utf8(block_preimage(tampered)),
            encode_utf8(block_preimage(chain[i])),
        ),
    ensures
        !chain_valid(chain.update(i, tampered), difficulty),
{
    changed_field_changes_digest(tampered, chain[i]);
    tampered_block_breaks_validity(chain, difficulty, i, tampered);
}

/// Changing the hash that a block after the first of a valid chain stores,
/// and nothing else of it, makes the chain invalid.
pub proof fn changed_hash_breaks_validity(
    chain: Seq<BlockView>,
    difficulty: nat,
    i: int,
    hash: Seq<char>,
)
    requires
        chain_valid(chain, difficulty),
        1 <= i < chain.len(),
        hash != chain[i].hash,
    ensures
        !chain_valid(chain.update(i, chain[i].with_hash(hash)), difficulty),
{
    let changed = chain.update(i, chain[i].with_hash(hash));
    assert(valid_proof(chain[i], difficulty));
    assert(changed[i] == chain[i].with_hash(hash));
    assert(chain[i].with_hash(hash).with_hash(Seq::empty()) == chain[i].with_hash(Seq::empty()));
    assert(!valid_proof(changed[i], difficulty));
}

/// A block that does not name the hash of the last block as its predecessor
/// is refused for that reason, whether or not its proof of work is valid.
pub proof fn wrong_predecessor_is_refused(chain: Seq<BlockView>, b: BlockView, difficulty: nat)
    requires
        chain.last().hash != b.previous_hash,
    ensures
        admission(chain, b, difficulty) == Err::<Seq<BlockView>, LedgerError>(
            LedgerError::PreviousHashMismatch,
        ),
{
}

/// Every block with index 0, no transactions, timestamp 0, previous hash `0`
/// and nonce 0 has the digest that the genesis block stores, whatever hash
/// the block itself stores.
pub proof fn genesis_digest_is_fixed(b: BlockView)
    requires
        b.index == 0,
        b.transactions == Seq::<TransactionView>::empty(),
        b.timestamp == 0,
        b.previous_hash == "0"@,
        b.nonce == 0,
    ensures
        block_digest(b) == genesis_block().hash,
{
    assert(b.with_hash(Seq::empty()) == genesis_seed().with_hash(Seq::empty()));
}

/// A block that is admitted with the length of the chain as its index leaves
/// a numbered chain numbered.
pub proof fn admission_keeps_numbering(ledger: LedgerView, b: BlockView)
    requires
        ledger.numbered(),
        b.index == ledger.chain.len(),
        admission(ledger.chain, b, ledger.difficulty) is Ok,
    ensures
        (LedgerView {
            chain: admission(ledger.chain, b, ledger.difficulty)->Ok_0,
            ..ledger
        }).numbered(),
{
    let after = ledger.chain.push(b);
    assert forall|i: int| 0 <= i < after.len() implies (#[trigger] after[i]).index == i by {
        if i < ledger.chain.len() {
            assert(after[i] == ledger.chain[i]);
        }
    }
}

/// The dump of a well-formed chain rebuilds that chain: if every record but
/// the first decodes to the block at its place, the replay gives the chain
/// back, whatever the first record holds.
pub proof fn dump_of_well_formed_chain_rebuilds_it(ledger: LedgerView, dump: Seq<BlockRecord>)
    requires
        ledger.well_formed(),
        ledger.difficulty == DIFFICULTY,
        dump.len() == ledger.chain.len(),
        forall|i: int|
            1 <= i < dump.len() ==> decoded_block(#[trigger] dump[i]) == Some(ledger.chain[i]),
    ensures
        rebuilt_chain(dump) == Ok::<Seq<BlockView>, LedgerError>(ledger.chain),
{
    replay_follows_the_chain(ledger, dump, dump.len());
    assert(ledger.chain.take(dump.len() as int) =~= ledger.chain);
}

/// After `n` records of the dump of a well-formed chain, the replay has
/// rebuilt the first `n` blocks of the chain.
proof fn replay_follows_the_chain(ledger: LedgerView, dump: Seq<BlockRecord>, n: nat)
    requires
        ledger.well_formed(),
        dump.len() == ledger.chain.len(),
        forall|i: int|
            1 <= i < dump.len() ==> decoded_block(#[trigger] dump[i]) == Some(ledger.chain[i]),
        1 <= n <= dump.len(),
    ensures
        replayed(dump, n, ledger.difficulty) == Ok::<Seq<BlockView>, LedgerError>(
            ledger.chain.take(n as int),
        ),
    decreases n,
{
    if n == 1 {
        assert(replayed(dump, 0, ledger.difficulty) == Ok::<Seq<BlockView>, LedgerError>(
            seq![genesis_block()],
        ));
        assert(ledger.chain.take(1) =~= seq![genesis_block()]);
    } else {
        replay_follows_the_chain(ledger, dump, (n - 1) as nat);
        let earlier = ledger.chain.take(n - 1);
        let b = ledger.chain[n - 1];
        assert(earlier.last() == ledger.chain[n - 2]);
        assert(b.previous_hash == ledger.chain[n - 1 - 1].hash && valid_proof(
            b,
            ledger.difficulty,
        ));
        assert(earlier.push(b) =~= ledger.chain.take(n as int));
    }
}

/// Mining is determined: a block has at most one first nonce that gives a
/// digest with the leading zeros.
pub proof fn first_hit_is_unique(b: BlockView, difficulty: nat, n: nat, m: nat)
    requires
        is_first_hit(b, difficulty, n),
        is_first_hit(b, difficulty, m),
    ensures
        n == m,
{
}

} // verus!
