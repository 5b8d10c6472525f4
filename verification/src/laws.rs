//! Laws of the registry.
//!
//! Resolution reads the container only through its two identity maps — that
//! is what `lookup`'s contract states — so facts about how registration and
//! merging shape those maps carry over to everything resolution can
//! observe. The laws here state the container's policies over that model,
//! in the terms used by the contracts of `register_erased`, `extend` and
//! `lookup`.

use crate::erased::ErasedFactory;
use vstd::prelude::*;

verus! {

broadcast use vstd::map::group_map_axioms;

/// Registering an identity twice leaves exactly the second registration:
/// the map after both registrations is the map after the second alone, so
/// no later resolution can observe the first registration's factory.
pub proof fn lemma_second_registration_wins(
    bindings: Map<Seq<char>, ErasedFactory>,
    key: Seq<char>,
    first: ErasedFactory,
    second: ErasedFactory,
)
    ensures
        bindings.insert(key, first).insert(key, second) == bindings.insert(key, second),
{
    assert(bindings.insert(key, first).insert(key, second) =~= bindings.insert(key, second));
}

/// A registration installs the deferred producer alongside the direct
/// binding: after `register_erased` writes its two inserts, the direct
/// identity and the producer identity are both resolvable, so the producer
/// of a type can be requested whenever the type itself was ever registered.
pub proof fn lemma_registration_installs_producer(
    registrations: Map<Seq<char>, ErasedFactory>,
    deferred: Map<Seq<char>, ErasedFactory>,
    key: Seq<char>,
    producer_key: Seq<char>,
    slot: ErasedFactory,
    producer_slot: ErasedFactory,
)
    ensures
        registrations.insert(key, slot).contains_key(key),
        registrations.insert(key, slot)[key] == slot,
        deferred.insert(producer_key, producer_slot).contains_key(producer_key),
        deferred.insert(producer_key, producer_slot)[producer_key] == producer_slot,
{
}

/// A merged container resolves every identity that either container
/// resolved, and on an identity bound in both, the absorbed container's
/// factory — the right-hand side — is the one kept.
pub proof fn lemma_merge_resolution(
    kept: Map<Seq<char>, ErasedFactory>,
    absorbed: Map<Seq<char>, ErasedFactory>,
    key: Seq<char>,
)
    ensures
        kept.union_prefer_right(absorbed).contains_key(key) == (kept.contains_key(key)
            || absorbed.contains_key(key)),
        absorbed.contains_key(key) ==> kept.union_prefer_right(absorbed)[key] == absorbed[key],
        kept.contains_key(key) && !absorbed.contains_key(key) ==> kept.union_prefer_right(
            absorbed,
        )[key] == kept[key],
{
}

/// Registrations of two distinct identities commute: the container holds no
/// trace of which came first. A factory consults the container only when it
/// is invoked, so a registration order that ends in the same maps ends in
/// the same resolutions.
pub proof fn lemma_registration_order_irrelevant(
    bindings: Map<Seq<char>, ErasedFactory>,
    first_key: Seq<char>,
    first: ErasedFactory,
    second_key: Seq<char>,
    second: ErasedFactory,
)
    requires
        first_key != second_key,
    ensures
        bindings.insert(first_key, first).insert(second_key, second) == bindings.insert(
            second_key,
            second,
        ).insert(first_key, first),
{
    assert(bindings.insert(first_key, first).insert(second_key, second) =~= bindings.insert(
        second_key,
        second,
    ).insert(first_key, first));
}

} // verus!
