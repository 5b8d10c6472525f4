//! Type identities.
//!
//! A type is registered and looked up under its identity: the nominal name
//! of the type, computed from the type alone. The trusted naming function
//! hands the name back wrapped in the marker type it was read through;
//! the verified `strip_marker` removes that envelope, so that the identity
//! holds exactly the requested type's own name.

use crate::erased::{push_char, raw_producer_marker_of, raw_type_marker_of};
use crate::order::str_chars;
use vstd::prelude::*;

verus! {

broadcast use vstd::seq::group_seq_axioms;

/// The name of the marker envelope around a reported type name.
pub open spec fn marker_prefix() -> Seq<char> {
    "PhantomData<"@
}

/// True when the text is a marker envelope: the marker's own name, the
/// enclosed name, and the closing angle bracket.
pub open spec fn is_marker_wrapped(s: Seq<char>) -> bool {
    &&& s.len() > marker_prefix().len()
    &&& s.subrange(0, marker_prefix().len() as int) == marker_prefix()
    &&& s[s.len() - 1] == '>'
}

/// The enclosed name of a marker envelope; any other text is kept as it is.
pub open spec fn unwrapped(s: Seq<char>) -> Seq<char> {
    if is_marker_wrapped(s) {
        s.subrange(marker_prefix().len() as int, s.len() - 1)
    } else {
        s
    }
}

/// The characters of `chars` from `from` (inclusive) to `until` (exclusive),
/// as a string.
fn chars_to_string(chars: &Vec<char>, from: usize, until: usize) -> (result: String)
    requires
        from <= until <= chars@.len(),
    ensures
        result@ == chars@.subrange(from as int, until as int),
{
    let mut result = String::new();
    let mut i: usize = from;
    proof {
        assert(result@ =~= chars@.subrange(from as int, from as int));
    }
    while i < until
        invariant
            from <= i <= until <= chars@.len(),
            result@ == chars@.subrange(from as int, i as int),
        decreases until - i,
    {
        push_char(&mut result, chars[i]);
        proof {
            assert(result@ =~= chars@.subrange(from as int, i + 1));
        }
        i = i + 1;
    }
    result
}

/// Removes the marker envelope from a reported type name; text that is not
/// an envelope is returned unchanged.
pub fn strip_marker(reported: String) -> (result: String)
    ensures
        result@ == unwrapped(reported@),
{
    let chars = str_chars(reported.as_str());
    let prefix = str_chars("PhantomData<");
    let n = chars.len();
    let p = prefix.len();
    if n <= p {
        return reported;
    }
    if chars[n - 1] != '>' {
        return reported;
    }
    let mut i: usize = 0;
    while i < p
        invariant
            n == chars@.len(),
            p == prefix@.len(),
            n > p,
            i <= p,
            chars@ == reported@,
            prefix@ == marker_prefix(),
            forall|j: int| 0 <= j < i ==> chars@[j] == prefix@[j],
        decreases p - i,
    {
        if chars[i] != prefix[i] {
            proof {
                assert(reported@.subrange(0, marker_prefix().len() as int)[i as int]
                    != marker_prefix()[i as int]);
            }
            return reported;
        }
        i = i + 1;
    }
    proof {
        assert(reported@.subrange(0, marker_prefix().len() as int) =~= marker_prefix());
    }
    chars_to_string(&chars, p, n - 1)
}

/// The identity under which `T` is registered and looked up: its nominal
/// name, as the trusted naming function reports it.
pub fn type_key_of<T: 'static>() -> String {
    strip_marker(raw_type_marker_of::<T>())
}

/// The identity of the zero-argument producer of `T`: the name of the boxed
/// producer type, a nominal shape distinct from `T`'s own identity.
pub fn producer_key_of<T: 'static>() -> String {
    strip_marker(raw_producer_marker_of::<T>())
}

} // verus!
