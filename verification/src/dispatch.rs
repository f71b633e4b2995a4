//! From a routing key to the index of the worker that serves it.

use std::collections::hash_map::DefaultHasher;
use std::hash::{Hash, Hasher};
use vstd::prelude::*;
use vstd::std_specs::hash::DefaultHasherAdditionalSpecFns;

verus! {

/// The worker that serves a key with hash `hash` in a pool of `workers`
/// workers: the hash reduced modulo the size of the pool.
pub open spec fn route(hash: u64, workers: nat) -> nat
    recommends
        workers > 0,
{
    (hash as nat) % workers
}

/// The hash that a fresh `DefaultHasher` returns after it was fed the pieces
/// of `fed`, one after the other.
pub open spec fn digest(fed: Seq<Seq<u8>>) -> u64 {
    DefaultHasher::spec_finish(fed)
}

/// The hash of a key that is a string of bytes: what a fresh `DefaultHasher`
/// returns after it was fed `bytes` in one piece.
pub open spec fn hash_of(bytes: Seq<u8>) -> u64 {
    digest(seq![bytes])
}

/// Feeds `key` to `hasher` through the key's own `Hash` implementation
/// (`std::hash::Hash::hash`). What the hasher is fed is up to that
/// implementation, so nothing is claimed of the hasher's state afterwards;
/// and if that implementation panics, so does this call.
#[verifier::external_body]
fn feed<K: Hash>(key: &K, hasher: &mut DefaultHasher) {
    key.hash(hasher)
}

/// The hash of a routing key: the digest of a fresh `DefaultHasher` that was
/// fed the key.
///
/// Which pieces the hasher is fed is up to how `K` implements `Hash`, so the
/// pieces are not named here. Routing is stable for a key exactly as far as
/// that implementation feeds the hasher the same pieces for equal keys, as the
/// implementations of the standard library do.
pub fn key_hash<K: Hash>(key: &K) -> (hash: u64)
    ensures
        exists|fed: Seq<Seq<u8>>| hash == #[trigger] digest(fed),
{
    let mut hasher = DefaultHasher::new();
    feed(key, &mut hasher);
    let hash = hasher.finish();
    assert(hash == digest(hasher@));
    hash
}

/// The hash of a routing key that is a string of bytes, fed to the hasher in
/// one piece. Equal strings have equal hashes, so they are routed alike. (This
/// is not the hash that [`key_hash`] gives a slice, whose `Hash`
/// implementation feeds the length as well.)
pub fn hash_bytes(key: &[u8]) -> (hash: u64)
    ensures
        hash == hash_of(key@),
{
    let mut hasher = DefaultHasher::new();
    hasher.write(key);
    assert(hasher@ =~= seq![key@]);
    hasher.finish()
}

/// The index of the worker that serves `hash` among `workers` workers.
pub fn worker_index(hash: u64, workers: usize) -> (index: usize)
    requires
        workers > 0,
    ensures
        index == route(hash, workers as nat),
        index < workers,
{
    let reduced: u64 = hash % (workers as u64);
    reduced as usize
}

} // verus!
