//! The ledger's global guarantees, stated and proved once over the
//! specification functions the operation contracts are written in.

use vstd::prelude::*;

use crate::tokens::MetaV;
use crate::txcache::CacheV;
use crate::txcache::cache_account;
use crate::txcache::cache_add_token;
use crate::txcache::cache_can_sub_token;
use crate::txcache::cache_has_account;
use crate::txcache::cache_moax_balance;
use crate::txcache::cache_sub_token;
use crate::txcache::cache_token_balance;
use crate::txcache::cache_token_meta;
use crate::harness::StateChange;
use crate::harness::world_after_outcome;
use crate::harness::world_commit;
use crate::tx::TxPanicV;
use crate::world::WorldV;
use crate::world::world_token_balance;

verus! {

/// Every balance is non-negative, at all times and for every address: both
/// native and token balances are natural numbers by construction, and a
/// debit that would make one negative is rejected before it is applied (see
/// the contracts of the subtract operations), never clamped.
pub proof fn lemma_token_balance_nonnegative(
    w: WorldV,
    c: CacheV,
    a: Seq<u8>,
    id: Seq<u8>,
    nonce: u64,
)
    ensures
        world_token_balance(w, a, id, nonce) >= 0,
        cache_token_balance(c, a, id, nonce) >= 0,
        cache_moax_balance(c, a) >= 0,
{
}

/// Transfer atomicity: moving `v` of (identifier, nonce) between two
/// distinct accounts changes exactly the two balances involved, by exactly
/// `v`, and touches no other account. The complementary halves — a failing
/// debit leaves both accounts untouched, and a transfer between equal
/// endpoints nets to nothing — are the failure contract of
/// [`crate::txcache::TxCache::transfer_dct_balance`] and
/// [`lemma_self_transfer_is_neutral`].
pub proof fn lemma_transfer_atomic(
    c: CacheV,
    from: Seq<u8>,
    to: Seq<u8>,
    id: Seq<u8>,
    nonce: u64,
    v: nat,
)
    requires
        cache_has_account(c, to),
        cache_can_sub_token(c, from, id, nonce, v),
        from != to,
    ensures
        ({
            let after = cache_add_token(
                cache_sub_token(c, from, id, nonce, v),
                to,
                id,
                nonce,
                v,
                cache_token_meta(c, from, id, nonce),
            );
            &&& cache_token_balance(after, from, id, nonce) == cache_token_balance(
                c,
                from,
                id,
                nonce,
            ) - v
            &&& cache_token_balance(after, to, id, nonce) == cache_token_balance(
                c,
                to,
                id,
                nonce,
            ) + v
            &&& forall|b: Seq<u8>|
                b != from && b != to ==> cache_account(after, b) == cache_account(c, b)
        }),
{
}

/// A transfer whose sender and receiver are the same account leaves that
/// account's balance of the instance exactly where it was, and its recorded
/// metadata untouched.
pub proof fn lemma_self_transfer_is_neutral(c: CacheV, a: Seq<u8>, id: Seq<u8>, nonce: u64, v: nat)
    requires
        cache_can_sub_token(c, a, id, nonce, v),
    ensures
        ({
            let after = cache_add_token(
                cache_sub_token(c, a, id, nonce, v),
                a,
                id,
                nonce,
                v,
                cache_token_meta(c, a, id, nonce),
            );
            &&& cache_token_balance(after, a, id, nonce) == cache_token_balance(c, a, id, nonce)
            &&& (cache_account(after, a)->Some_0).dct[id].instances[nonce].metadata == (
            cache_account(c, a)->Some_0).dct[id].instances[nonce].metadata
        }),
{
}

/// Commit/Revert symmetry: concluding with Revert, or with an intercepted
/// failure, leaves the world exactly as it was before the run; concluding
/// with Commit yields precisely the world obtained by folding the recorded
/// overlay into it.
pub proof fn lemma_commit_revert_symmetry(w: WorldV, c: CacheV, p: TxPanicV)
    ensures
        world_after_outcome(w, c, Ok(StateChange::Revert)) == w,
        world_after_outcome(w, c, Err(p)) == w,
        world_after_outcome(w, c, Ok(StateChange::Commit)) == world_commit(w, c.overlay),
{
}

/// Metadata immutability: crediting more balance onto an existing
/// (identifier, nonce) instance never changes that instance's previously
/// recorded metadata, whatever metadata the later mint supplies; only the
/// balance grows, by exactly the credited amount.
pub proof fn lemma_metadata_immutable(
    c: CacheV,
    a: Seq<u8>,
    id: Seq<u8>,
    nonce: u64,
    amount: nat,
    m: MetaV,
)
    requires
        cache_has_account(c, a),
        (cache_account(c, a)->Some_0).dct.contains_key(id),
        (cache_account(c, a)->Some_0).dct[id].instances.contains_key(nonce),
    ensures
        ({
            let before = cache_account(c, a)->Some_0;
            let after = cache_account(cache_add_token(c, a, id, nonce, amount, m), a)->Some_0;
            &&& after.dct[id].instances[nonce].metadata
                == before.dct[id].instances[nonce].metadata
            &&& after.dct[id].instances[nonce].balance == before.dct[id].instances[nonce].balance
                + amount
        }),
{
}

} // verus!
