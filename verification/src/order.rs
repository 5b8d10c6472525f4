//! Lexicographic ordering of type identities.
//!
//! The diagnostic listing of registered identities is sorted for determinism;
//! this module defines the order (by character code point, shorter prefixes
//! first), proves it total, and sorts a list of names by it.

use vstd::prelude::*;
use vstd::relations::{sorted_by, total_ordering};
use vstd::multiset::Multiset;
use vstd::seq_lib::lemma_multiset_commutative;
use vstd::std_specs::iter::IteratorSpec;

verus! {

broadcast use vstd::seq::group_seq_axioms, vstd::string::group_string_axioms, vstd::seq_lib::group_to_multiset_ensures;

/// `a` comes no later than `b`: at the first differing position `a` holds the
/// smaller code point, or `a` is a prefix of `b`.
pub open spec fn lex_le(a: Seq<char>, b: Seq<char>) -> bool
    decreases a.len(),
{
    if a.len() == 0 {
        true
    } else if b.len() == 0 {
        false
    } else if (a[0] as u32) < (b[0] as u32) {
        true
    } else if (a[0] as u32) > (b[0] as u32) {
        false
    } else {
        lex_le(a.skip(1), b.skip(1))
    }
}

/// The order as a relation value, for `sorted_by` and the ordering lemmas.
pub open spec fn lex_leq() -> spec_fn(Seq<char>, Seq<char>) -> bool {
    |a: Seq<char>, b: Seq<char>| lex_le(a, b)
}

/// Two characters with the same code point are the same character.
proof fn lemma_char_cast_injective(x: char, y: char)
    requires
        (x as u32) == (y as u32),
    ensures
        x == y,
{
    vstd::utf8::char_u32_cast(x, x as u32);
    vstd::utf8::char_u32_cast(y, y as u32);
}

proof fn lemma_lex_le_refl(a: Seq<char>)
    ensures
        lex_le(a, a),
    decreases a.len(),
{
    if a.len() > 0 {
        lemma_lex_le_refl(a.skip(1));
    }
}

proof fn lemma_lex_le_connected(a: Seq<char>, b: Seq<char>)
    ensures
        lex_le(a, b) || lex_le(b, a),
    decreases a.len(),
{
    if a.len() > 0 && b.len() > 0 && (a[0] as u32) == (b[0] as u32) {
        lemma_lex_le_connected(a.skip(1), b.skip(1));
    }
}

proof fn lemma_lex_le_antisym(a: Seq<char>, b: Seq<char>)
    requires
        lex_le(a, b),
        lex_le(b, a),
    ensures
        a == b,
    decreases a.len(),
{
    if a.len() == 0 {
        assert(a =~= b);
    } else {
        lemma_char_cast_injective(a[0], b[0]);
        lemma_lex_le_antisym(a.skip(1), b.skip(1));
        assert forall|j: int| 0 <= j < a.len() implies a[j] == b[j] by {
            if j > 0 {
                assert(a.skip(1)[j - 1] == b.skip(1)[j - 1]);
            }
        }
        assert(a =~= b);
    }
}

proof fn lemma_lex_le_trans(a: Seq<char>, b: Seq<char>, c: Seq<char>)
    requires
        lex_le(a, b),
        lex_le(b, c),
    ensures
        lex_le(a, c),
    decreases a.len(),
{
    if a.len() > 0 && b.len() > 0 && c.len() > 0 && (a[0] as u32) == (b[0] as u32) && (b[0]
        as u32) == (c[0] as u32) {
        lemma_lex_le_trans(a.skip(1), b.skip(1), c.skip(1));
    }
}

/// The lexicographic order is a total order.
pub proof fn lemma_lex_le_total_ordering()
    ensures
        total_ordering(lex_leq()),
{
    let leq = lex_leq();
    assert forall|a: Seq<char>| #[trigger] leq(a, a) by {
        lemma_lex_le_refl(a);
    }
    assert forall|a: Seq<char>, b: Seq<char>| #[trigger] leq(a, b) && #[trigger] leq(b, a)
        implies a == b by {
        lemma_lex_le_antisym(a, b);
    }
    assert forall|a: Seq<char>, b: Seq<char>, c: Seq<char>|
        #[trigger] leq(a, b) && #[trigger] leq(b, c) implies leq(a, c) by {
        lemma_lex_le_trans(a, b, c);
    }
    assert forall|a: Seq<char>, b: Seq<char>| #[trigger] leq(a, b) || #[trigger] leq(b, a) by {
        lemma_lex_le_connected(a, b);
    }
}

/// When the first `i` characters agree, the order is decided past them.
proof fn lemma_lex_le_skip(a: Seq<char>, b: Seq<char>, i: int)
    requires
        0 <= i <= a.len(),
        i <= b.len(),
        forall|j: int| 0 <= j < i ==> a[j] == b[j],
    ensures
        lex_le(a, b) == lex_le(a.skip(i), b.skip(i)),
    decreases i,
{
    if i == 0 {
        assert(a.skip(0) =~= a);
        assert(b.skip(0) =~= b);
    } else {
        assert(a[0] == b[0]);
        lemma_lex_le_skip(a.skip(1), b.skip(1), i - 1);
        assert(a.skip(1).skip(i - 1) =~= a.skip(i));
        assert(b.skip(1).skip(i - 1) =~= b.skip(i));
    }
}

/// The characters of a string, in order.
pub fn str_chars(s: &str) -> (result: Vec<char>)
    ensures
        result@ == s@,
{
    let mut iter = s.chars();
    let mut result: Vec<char> = Vec::new();
    loop
        invariant
            iter.obeys_prophetic_iter_laws(),
            iter.decrease() is Some,
            result@ + iter.remaining() == s@,
        decreases iter.decrease()->0,
    {
        match iter.next() {
            Some(c) => {
                result.push(c);
                proof {
                    assert(result@ + iter.remaining() =~= s@);
                }
            },
            None => {
                proof {
                    assert(result@ =~= s@);
                }
                return result;
            },
        }
    }
}

/// Compares two character lists in the lexicographic order.
pub fn chars_le(a: &Vec<char>, b: &Vec<char>) -> (result: bool)
    ensures
        result == lex_le(a@, b@),
{
    let a_len = a.len();
    let b_len = b.len();
    let mut i: usize = 0;
    while i < a_len && i < b_len && a[i] == b[i]
        invariant
            a_len == a@.len(),
            b_len == b@.len(),
            i <= a_len,
            i <= b_len,
            forall|j: int| 0 <= j < i ==> a@[j] == b@[j],
        decreases a_len - i,
    {
        i = i + 1;
    }
    proof {
        lemma_lex_le_skip(a@, b@, i as int);
    }
    if i == a_len {
        proof {
            assert(a@.skip(i as int).len() == 0);
        }
        true
    } else if i == b_len {
        proof {
            assert(b@.skip(i as int).len() == 0);
            assert(a@.skip(i as int).len() > 0);
        }
        false
    } else {
        proof {
            assert(a@.skip(i as int)[0] == a@[i as int]);
            assert(b@.skip(i as int)[0] == b@[i as int]);
            if (a@[i as int] as u32) == (b@[i as int] as u32) {
                lemma_char_cast_injective(a@[i as int], b@[i as int]);
            }
        }
        (a[i] as u32) < (b[i] as u32)
    }
}

/// Compares two names in the lexicographic order of their characters.
pub fn string_le(a: &String, b: &String) -> (result: bool)
    ensures
        result == lex_le(a@, b@),
{
    let a_chars = str_chars(a.as_str());
    let b_chars = str_chars(b.as_str());
    chars_le(&a_chars, &b_chars)
}

/// Places a name into a sorted list, keeping it sorted.
fn insert_sorted(sorted: &mut Vec<String>, name: String)
    requires
        sorted_by(crate::store::string_views(old(sorted)@), lex_leq()),
    ensures
        sorted_by(crate::store::string_views(final(sorted)@), lex_leq()),
        crate::store::string_views(final(sorted)@).to_multiset() == crate::store::string_views(
            old(sorted)@,
        ).to_multiset().insert(name@),
{
    let n = sorted.len();
    let mut i: usize = 0;
    while i < n && string_le(&sorted[i], &name)
        invariant
            sorted == old(sorted),
            n == sorted@.len(),
            i <= n,
            forall|j: int| 0 <= j < i ==> lex_le(sorted@[j]@, name@),
        decreases n - i,
    {
        i = i + 1;
    }
    proof {
        lemma_lex_le_total_ordering();
    }
    let ghost prev = sorted@;
    sorted.insert(i, name);
    proof {
        let views = crate::store::string_views(sorted@);
        let prev_views = crate::store::string_views(prev);
        assert forall|k: int, l: int| 0 <= k < l < views.len() implies #[trigger] lex_leq()(
            views[k],
            views[l],
        ) by {
            if k < i && l < i {
                assert(lex_leq()(prev_views[k], prev_views[l]));
            } else if k < i && l == i {
                assert(lex_le(prev[k]@, name@));
            } else if k < i && l > i {
                assert(lex_leq()(prev_views[k], prev_views[l - 1]));
            } else if k == i && l > i {
                // name comes no later than every element at or past the stop
                // position: the scan stopped there.
                if i < n {
                    assert(!lex_le(prev[i as int]@, name@));
                    lemma_lex_le_connected(name@, prev[i as int]@);
                    assert(lex_le(name@, prev[i as int]@));
                    assert(lex_leq()(prev_views[i as int], prev_views[l - 1]));
                    lemma_lex_le_trans(name@, prev[i as int]@, prev[l - 1]@);
                }
            } else if k > i {
                assert(lex_leq()(prev_views[k - 1], prev_views[l - 1]));
            }
        }
        assert(sorted@ =~= prev.take(i as int) + seq![name] + prev.skip(i as int));
        lemma_views_multiset_insert(prev, name, i as int);
    }
}

/// Inserting a string at any position adds exactly its view to the multiset
/// of views.
proof fn lemma_views_multiset_insert(strings: Seq<String>, name: String, i: int)
    requires
        0 <= i <= strings.len(),
    ensures
        crate::store::string_views(strings.take(i) + seq![name] + strings.skip(i)).to_multiset()
            == crate::store::string_views(strings).to_multiset().insert(name@),
{
    let left = crate::store::string_views(strings.take(i));
    let mid = crate::store::string_views(seq![name]);
    let right = crate::store::string_views(strings.skip(i));
    let whole = crate::store::string_views(strings.take(i) + seq![name] + strings.skip(i));
    assert(whole =~= left + mid + right);
    lemma_multiset_commutative(left + mid, right);
    lemma_multiset_commutative(left, mid);
    assert(crate::store::string_views(strings) =~= left + right);
    lemma_multiset_commutative(left, right);
    assert(mid =~= seq![name@]);
    assert(seq![name@].to_multiset() =~= Multiset::empty().insert(name@));
    assert(whole.to_multiset() =~= crate::store::string_views(strings).to_multiset().insert(
        name@,
    ));
}

/// Sorts a list of names in the lexicographic order of their characters.
pub fn sort_names(names: Vec<String>) -> (result: Vec<String>)
    ensures
        sorted_by(crate::store::string_views(result@), lex_leq()),
        crate::store::string_views(result@).to_multiset() == crate::store::string_views(
            names@,
        ).to_multiset(),
{
    let n = names.len();
    let mut result: Vec<String> = Vec::new();
    let mut i: usize = 0;
    proof {
        assert(crate::store::string_views(result@) =~= Seq::<Seq<char>>::empty());
        assert(crate::store::string_views(names@.take(0)) =~= Seq::<Seq<char>>::empty());
    }
    while i < n
        invariant
            n == names@.len(),
            i <= n,
            sorted_by(crate::store::string_views(result@), lex_leq()),
            crate::store::string_views(result@).to_multiset() == crate::store::string_views(
                names@.take(i as int),
            ).to_multiset(),
        decreases n - i,
    {
        insert_sorted(&mut result, names[i].clone());
        proof {
            assert(names@.take(i + 1).drop_last() =~= names@.take(i as int));
            let taken = crate::store::string_views(names@.take(i + 1));
            assert(taken.drop_last() =~= crate::store::string_views(names@.take(i as int)));
            assert(taken =~= taken.drop_last().push(names@[i as int]@));
            assert(taken.to_multiset() =~= taken.drop_last().to_multiset().insert(
                names@[i as int]@,
            ));
        }
        i = i + 1;
    }
    proof {
        assert(names@.take(n as int) =~= names@);
    }
    result
}

} // verus!
