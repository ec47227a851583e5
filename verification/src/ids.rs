//! Fresh identifiers.

use vstd::prelude::*;
use crate::text::cat;

verus! {

/// A lowercase hexadecimal digit.
pub open spec fn hex(c: char) -> bool {
    ('0' <= c && c <= '9') || ('a' <= c && c <= 'f')
}

/// A random identifier as text: 32 lowercase hexadecimal digits.
pub open spec fn is_simple_id(s: Seq<char>) -> bool {
    s.len() == 32 && forall|i: int| 0 <= i < s.len() ==> hex(#[trigger] s[i])
}

/// `Uuid::new_v4` in the form that `Uuid::simple` displays: the 128 bits as 32
/// lowercase hexadecimal digits without hyphens. The bits are random, so only
/// their form is stated.
#[verifier::external_body]
pub(crate) fn simple_uuid() -> (r: String)
    ensures
        is_simple_id(r@),
{
    uuid::Uuid::new_v4().simple().to_string()
}

/// A prefix followed by a random identifier.
pub open spec fn is_fresh_id(s: Seq<char>, prefix: Seq<char>) -> bool {
    crate::text::begins(s, prefix) && is_simple_id(s.skip(prefix.len() as int))
}

/// A prefix followed by a random identifier.
pub fn fresh_id(prefix: &str) -> (r: String)
    ensures
        is_fresh_id(r@, prefix@),
{
    let id: String = simple_uuid();
    let out: String = cat(prefix, &id);
    assert(out@.take(prefix@.len() as int) =~= prefix@);
    assert(out@.skip(prefix@.len() as int) =~= id@);
    out
}

/// A fresh identifier is its prefix and, behind it, 32 digits of which each is `0` to `9` or `a`
/// to `f`.
pub proof fn fresh_ids_are_a_prefix_and_digits(prefix: &str, r: String)
    requires
        call_ensures(fresh_id, (prefix,), r),
    ensures
        r@.len() == prefix@.len() + 32,
        forall|i: int| 0 <= i < prefix@.len() ==> #[trigger] r@[i] == prefix@[i],
        forall|i: int|
            prefix@.len() <= i < r@.len() ==> ('0' <= #[trigger] r@[i] && r@[i] <= '9') || ('a' <= r@[i]
                && r@[i] <= 'f'),
{
    let n = prefix@.len() as int;
    assert forall|i: int| 0 <= i < n implies #[trigger] r@[i] == prefix@[i] by {
        assert(r@.take(n)[i] == r@[i]);
    }
    assert forall|i: int| n <= i < r@.len() implies ('0' <= #[trigger] r@[i] && r@[i] <= '9') || ('a'
        <= r@[i] && r@[i] <= 'f') by {
        assert(hex(r@.skip(n)[i - n]));
    }
}

} // verus!
