//! The diagnostic payload of a failed resolution.
//!
//! When a required type was never registered, the failure message names the
//! requested type and, when the container is non-empty, lists every
//! registered identity in sorted order together with a note on the
//! automatically installed producer factories. These spec functions pin the
//! text down; the builders on `Container` are proved against them.

use crate::order::lex_leq;
use vstd::prelude::*;
use vstd::relations::sorted_by;

verus! {

broadcast use vstd::seq::group_seq_axioms, vstd::seq_lib::group_to_multiset_ensures, vstd::multiset::group_multiset_axioms;

/// One line of the listing of registered identities.
pub open spec fn line_for(name: Seq<char>) -> Seq<char> {
    "- "@ + name + "\n"@
}

/// The listing: one line per identity, in the order given.
pub open spec fn rendered(names: Seq<Seq<char>>) -> Seq<char>
    decreases names.len(),
{
    if names.len() == 0 {
        Seq::<char>::empty()
    } else {
        rendered(names.drop_last()) + line_for(names.last())
    }
}

/// The help text of an empty container.
pub open spec fn no_registrations_note() -> Seq<char> {
    "No registered types were found."@
}

/// The help text of a non-empty container, listing the given identities.
pub open spec fn help_with_listing(names: Seq<Seq<char>>) -> Seq<char> {
    "The following registered types were found.\n"@ + rendered(names)
        + "In addition, the following factories were generated for each type `T`.\n- std::boxed::Box<dyn Fn() -> T>"@
}

/// The help text that belongs to a set of registered identities: the plain
/// note when nothing is registered, otherwise the sorted listing of exactly
/// those identities followed by the producer-factory note.
pub open spec fn help_text_matches(registered: Set<Seq<char>>, help: Seq<char>) -> bool {
    if registered.is_empty() {
        help == no_registrations_note()
    } else {
        exists|names: Seq<Seq<char>>|
            {
                &&& names.no_duplicates()
                &&& sorted_by(names, lex_leq())
                &&& names.to_set() == registered
                &&& help == help_with_listing(names)
            }
    }
}

/// The message of a failed `resolve`: it names the requested type and
/// carries the help text.
pub open spec fn miss_message(name: Seq<char>, help: Seq<char>) -> Seq<char> {
    "Wonderbox failed to resolve the type `"@ + name + "`.\nHelp: "@ + help
}

/// The message of an internal-consistency violation: a stored factory did
/// not match the identity it was filed under. Distinct from a missing
/// registration, which is a usage error.
pub open spec fn mismatch_message(name: Seq<char>, help: Seq<char>) -> Seq<char> {
    "Internal error: the factory stored for the type `"@ + name
        + "` does not produce it.\nHelp: "@ + help
}

/// Two sequences with the same multiset reach the same set, and freedom from
/// duplicates carries over.
pub proof fn lemma_same_multiset_same_set(a: Seq<Seq<char>>, b: Seq<Seq<char>>)
    requires
        a.to_multiset() == b.to_multiset(),
    ensures
        a.to_set() == b.to_set(),
        a.no_duplicates() ==> b.no_duplicates(),
{
    assert forall|x: Seq<char>| a.to_set().contains(x) <==> b.to_set().contains(x) by {
        assert(a.contains(x) <==> a.to_multiset().count(x) > 0);
        assert(b.contains(x) <==> b.to_multiset().count(x) > 0);
    }
    assert(a.to_set() =~= b.to_set());
    if a.no_duplicates() {
        a.lemma_multiset_has_no_duplicates();
        assert forall|x: Seq<char>| b.to_multiset().contains(x) implies b.to_multiset().count(x)
            == 1 by {
            assert(a.to_multiset().count(x) == 1);
        }
        b.lemma_multiset_has_no_duplicates_conv();
    }
}

/// The sorted listing is determined by the set of registered identities:
/// one set has exactly one help text.
pub proof fn lemma_help_text_unique(registered: Set<Seq<char>>, first: Seq<char>, second: Seq<char>)
    requires
        help_text_matches(registered, first),
        help_text_matches(registered, second),
    ensures
        first == second,
{
    if !registered.is_empty() {
        let a = choose|names: Seq<Seq<char>>|
            {
                &&& names.no_duplicates()
                &&& sorted_by(names, lex_leq())
                &&& names.to_set() == registered
                &&& first == help_with_listing(names)
            };
        let b = choose|names: Seq<Seq<char>>|
            {
                &&& names.no_duplicates()
                &&& sorted_by(names, lex_leq())
                &&& names.to_set() == registered
                &&& second == help_with_listing(names)
            };
        lemma_no_dup_same_set_same_multiset(a, b);
        crate::order::lemma_lex_le_total_ordering();
        vstd::seq_lib::lemma_sorted_unique(a, b, lex_leq());
    }
}

/// Duplicate-free sequences over the same set hold the same multiset.
proof fn lemma_no_dup_same_set_same_multiset(a: Seq<Seq<char>>, b: Seq<Seq<char>>)
    requires
        a.no_duplicates(),
        b.no_duplicates(),
        a.to_set() == b.to_set(),
    ensures
        a.to_multiset() == b.to_multiset(),
{
    a.lemma_multiset_has_no_duplicates();
    b.lemma_multiset_has_no_duplicates();
    assert forall|x: Seq<char>| a.to_multiset().count(x) == b.to_multiset().count(x) by {
        assert(a.contains(x) <==> a.to_multiset().count(x) > 0);
        assert(b.contains(x) <==> b.to_multiset().count(x) > 0);
        assert(a.contains(x) <==> a.to_set().contains(x));
        assert(b.contains(x) <==> b.to_set().contains(x));
        if a.to_multiset().count(x) > 0 {
            assert(a.to_multiset().contains(x));
            assert(b.to_multiset().contains(x));
        } else if b.to_multiset().count(x) > 0 {
            assert(b.to_multiset().contains(x));
            assert(a.to_multiset().contains(x));
        }
    }
    assert(a.to_multiset() =~= b.to_multiset());
}

} // verus!
