//! The order of domain names.
//!
//! Names are ordered as `str` is: byte by byte in their UTF-8 form.

use vstd::prelude::*;
use vstd::utf8::{encode_utf8, encode_utf8_decode_utf8};

verus! {

/// Whether `a` stands before `b` in dictionary order.
pub open spec fn bytes_before(a: Seq<u8>, b: Seq<u8>) -> bool
    decreases b.len(),
{
    if b.len() == 0 {
        false
    } else if a.len() == 0 {
        true
    } else if a[0] != b[0] {
        a[0] < b[0]
    } else {
        bytes_before(a.drop_first(), b.drop_first())
    }
}

/// Whether the name `a` stands before the name `b`.
pub open spec fn name_before(a: Seq<char>, b: Seq<char>) -> bool {
    bytes_before(encode_utf8(a), encode_utf8(b))
}

/// Where one name stands with respect to another.
#[derive(Debug, Clone, Copy, PartialEq, Eq, Structural)]
pub enum Place {
    Before,
    Same,
    After,
}

proof fn lemma_bytes_before_transitive(a: Seq<u8>, b: Seq<u8>, c: Seq<u8>)
    requires
        bytes_before(a, b),
        bytes_before(b, c),
    ensures
        bytes_before(a, c),
    decreases c.len(),
{
    if a.len() > 0 && a[0] == b[0] && b[0] == c[0] {
        lemma_bytes_before_transitive(a.drop_first(), b.drop_first(), c.drop_first());
    }
}

proof fn lemma_bytes_before_irreflexive(a: Seq<u8>)
    ensures
        !bytes_before(a, a),
    decreases a.len(),
{
    if a.len() > 0 {
        lemma_bytes_before_irreflexive(a.drop_first());
    }
}

/// A name that stands before a second one, which stands before a third one, stands
/// before the third one.
pub proof fn law_name_order_is_transitive(a: Seq<char>, b: Seq<char>, c: Seq<char>)
    requires
        name_before(a, b),
        name_before(b, c),
    ensures
        name_before(a, c),
{
    lemma_bytes_before_transitive(encode_utf8(a), encode_utf8(b), encode_utf8(c));
}

/// No name stands before itself.
pub proof fn law_name_order_is_strict(a: Seq<char>)
    ensures
        !name_before(a, a),
{
    lemma_bytes_before_irreflexive(encode_utf8(a));
}

/// What follows a common beginning decides the order.
proof fn lemma_common_prefix(a: Seq<u8>, b: Seq<u8>, n: int)
    requires
        0 <= n <= a.len(),
        n <= b.len(),
        forall|i: int| 0 <= i < n ==> a[i] == b[i],
    ensures
        bytes_before(a, b) == bytes_before(a.skip(n), b.skip(n)),
    decreases n,
{
    if n == 0 {
        assert(a.skip(0) =~= a);
        assert(b.skip(0) =~= b);
    } else {
        lemma_common_prefix(a.drop_first(), b.drop_first(), n - 1);
        assert(a.drop_first().skip(n - 1) =~= a.skip(n));
        assert(b.drop_first().skip(n - 1) =~= b.skip(n));
    }
}

/// Finds out where the name `a` stands with respect to the name `b`.
pub fn place(a: &str, b: &str) -> (result: Place)
    ensures
        match result {
            Place::Before => name_before(a@, b@),
            Place::Same => a@ == b@,
            Place::After => name_before(b@, a@),
        },
{
    let left = a.as_bytes();
    let right = b.as_bytes();
    let mut i: usize = 0;
    while i < left.len() && i < right.len() && left[i] == right[i]
        invariant
            i <= left.len(),
            i <= right.len(),
            forall|j: int| 0 <= j < i ==> left@[j] == right@[j],
        decreases left.len() - i,
    {
        i += 1;
    }
    proof {
        lemma_common_prefix(left@, right@, i as int);
        lemma_common_prefix(right@, left@, i as int);
        if i == left.len() && i == right.len() {
            assert(left@ =~= right@);
            encode_utf8_decode_utf8(a@);
            encode_utf8_decode_utf8(b@);
        }
    }
    if i == left.len() {
        if i == right.len() {
            Place::Same
        } else {
            Place::Before
        }
    } else if i == right.len() {
        Place::After
    } else if left[i] < right[i] {
        Place::Before
    } else {
        Place::After
    }
}

/// Names are ordered by the first byte of their UTF-8 form in which they differ, and a name
/// that another one begins with stands before it.
pub proof fn law_first_difference_decides(a: Seq<char>, b: Seq<char>, n: int)
    requires
        0 <= n <= encode_utf8(a).len(),
        n < encode_utf8(b).len(),
        forall|i: int| 0 <= i < n ==> encode_utf8(a)[i] == encode_utf8(b)[i],
        n == encode_utf8(a).len() || encode_utf8(a)[n] < encode_utf8(b)[n],
    ensures
        name_before(a, b),
        !name_before(b, a),
{
    lemma_common_prefix(encode_utf8(a), encode_utf8(b), n);
    lemma_common_prefix(encode_utf8(b), encode_utf8(a), n);
}

/// Of two different names one stands before the other.
pub proof fn law_name_order_is_total(a: Seq<char>, b: Seq<char>)
    ensures
        a == b || name_before(a, b) || name_before(b, a),
{
    lemma_bytes_before_total(encode_utf8(a), encode_utf8(b));
    encode_utf8_decode_utf8(a);
    encode_utf8_decode_utf8(b);
}

proof fn lemma_bytes_before_total(a: Seq<u8>, b: Seq<u8>)
    ensures
        a == b || bytes_before(a, b) || bytes_before(b, a),
    decreases a.len(),
{
    if a.len() > 0 && b.len() > 0 && a[0] == b[0] {
        lemma_bytes_before_total(a.drop_first(), b.drop_first());
        if a.drop_first() == b.drop_first() {
            assert forall|i: int| 0 <= i < a.len() implies a[i] == b[i] by {
                if i > 0 {
                    assert(a.drop_first()[i - 1] == b.drop_first()[i - 1]);
                }
            }
            assert(a =~= b);
        }
    } else if a.len() == 0 && b.len() == 0 {
        assert(a =~= b);
    }
}

/// Two names are placed by the first byte of their UTF-8 form in which they differ, and are
/// the same where there is none. Asked the other way round, the answer is the other way round.
pub proof fn law_place(a: &str, b: &str, result: Place, reverse: Place, n: int)
    requires
        call_ensures(place, (a, b), result),
        call_ensures(place, (b, a), reverse),
    ensures
        result is Same <==> a@ == b@,
        result is Before <==> reverse is After,
        result is After <==> reverse is Before,
        ({
            let left = encode_utf8(a@);
            let right = encode_utf8(b@);
            0 <= n <= left.len() && n < right.len() && (forall|i: int|
                0 <= i < n ==> left[i] == right[i]) && (n == left.len() || left[n] < right[n])
                ==> result is Before
        }),
{
    law_name_order_is_strict(a@);
    if name_before(a@, b@) && name_before(b@, a@) {
        law_name_order_is_transitive(a@, b@, a@);
    }
    let left = encode_utf8(a@);
    let right = encode_utf8(b@);
    if 0 <= n <= left.len() && n < right.len() && (forall|i: int|
        0 <= i < n ==> left[i] == right[i]) && (n == left.len() || left[n] < right[n]) {
        law_first_difference_decides(a@, b@, n);
    }
}

} // verus!
