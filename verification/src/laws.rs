use vstd::prelude::*;

use crate::copy::associations_of;
use crate::copy::copies_to;
use crate::copy::copy_allocates;
use crate::copy::is_association;
use crate::value::Kind;
use crate::value::Value;
use crate::value::kind_of;

verus! {

/// The kinds whose values carry their whole payload in one place and
/// reference nothing else.
pub open spec fn scalar_kind(k: Kind) -> bool {
    match k {
        Kind::Unit => true,
        Kind::True => true,
        Kind::False => true,
        Kind::Number => true,
        Kind::Type => true,
        Kind::Char => true,
        Kind::Byte => true,
        Kind::Symbol => true,
        Kind::Expression => true,
        Kind::External => true,
        _ => false,
    }
}

/// The two operand addresses of a two-address composite, if the value is one.
pub open spec fn composite_parts<C>(v: Value<C>) -> Option<(usize, usize)> {
    match v {
        Value::Pair(l, r) => Some((l, r)),
        Value::Range(l, r) => Some((l, r)),
        Value::Concatenation(l, r) => Some((l, r)),
        Value::Slice(l, r) => Some((l, r)),
        _ => None,
    }
}

/// Copying a scalar value preserves it exactly: the destination holds the
/// very same tagged value, payload included.
pub proof fn lemma_leaf_round_trip<C>(src: Seq<Value<C>>, a: usize, dst: Seq<Value<C>>, b: usize)
    requires
        copies_to(src, a, dst, b),
        scalar_kind(kind_of(src[a as int])),
    ensures
        dst[b as int] == src[a as int],
{
}

/// For a composite whose right operand's copy allocates, the copied left
/// operand's address lies below the copied right operand's address, and both
/// lie below the copied composite itself: either the left copy allocated
/// first and sits lower, or it landed on one of the shared constants at the
/// very bottom.
pub proof fn lemma_composite_address_ordering<C>(
    src: Seq<Value<C>>,
    a: usize,
    dst: Seq<Value<C>>,
    b: usize,
)
    requires
        copies_to(src, a, dst, b),
        composite_parts(src[a as int]) is Some,
        copy_allocates(src, composite_parts(src[a as int])->Some_0.1),
    ensures
        composite_parts(dst[b as int]) matches Some(p) && p.0 < p.1 && p.1 < b,
{
    let l = composite_parts(src[a as int])->Some_0.0;
    let l2 = composite_parts(dst[b as int])->Some_0.0;
    assert(copies_to(src, l, dst, l2));
    if !copy_allocates(src, l) {
        assert(l2 <= 2);
    }
}

/// Copying a List of N items yields a List of N items in the same order,
/// each the copy of its source counterpart.
pub proof fn lemma_list_isomorphism<C>(src: Seq<Value<C>>, a: usize, dst: Seq<Value<C>>, b: usize)
    requires
        copies_to(src, a, dst, b),
        src[a as int] is List,
    ensures
        dst[b as int] is List,
        dst[b as int]->List_0@.len() == src[a as int]->List_0@.len(),
        forall|i: int| 0 <= i < src[a as int]->List_0@.len()
            ==> copies_to(src, #[trigger] src[a as int]->List_0@[i], dst, dst[b as int]->List_0@[i]),
{
}

/// An address that is an association belongs to a list's association
/// subsequence.
pub proof fn lemma_associations_complete<C>(h: Seq<Value<C>>, s: Seq<usize>, i: int)
    requires
        0 <= i < s.len(),
        is_association(h, s[i]),
    ensures
        associations_of(h, s).contains(s[i]),
    decreases s.len(),
{
    reveal(Seq::filter);
    if i == s.len() - 1 {
        assert(s.last() == s[i]);
        let out = associations_of(h, s);
        assert(out.last() == s[i]);
    } else {
        assert(s.drop_last()[i] == s[i]);
        lemma_associations_complete(h, s.drop_last(), i);
        let sub = associations_of(h, s.drop_last());
        let j = choose|j: int| 0 <= j < sub.len() && sub[j] == s[i];
        if is_association(h, s.last()) {
            assert(associations_of(h, s)[j] == s[i]);
        } else {
            assert(associations_of(h, s)[j] == s[i]);
        }
    }
}

/// Every address in a list's association subsequence is an association and
/// one of the list's items.
pub proof fn lemma_associations_sound<C>(h: Seq<Value<C>>, s: Seq<usize>, x: usize)
    requires
        associations_of(h, s).contains(x),
    ensures
        is_association(h, x),
        s.contains(x),
    decreases s.len(),
{
    reveal(Seq::filter);
    let out = associations_of(h, s);
    let j = choose|j: int| 0 <= j < out.len() && out[j] == x;
    if is_association(h, s.last()) && j == out.len() - 1 {
        assert(x == s.last());
        assert(s[s.len() - 1] == x);
    } else {
        let sub = associations_of(h, s.drop_last());
        assert(sub[j] == x);
        lemma_associations_sound(h, s.drop_last(), x);
        let k = choose|k: int| 0 <= k < s.drop_last().len() && s.drop_last()[k] == x;
        assert(s[k] == x);
    }
}

/// A copied List marks a copied item as an association exactly when the
/// item's copy is one in the destination: a Pair whose left operand resolves
/// to a Symbol there. No source-side metadata is involved.
pub proof fn lemma_association_rederivation<C>(
    src: Seq<Value<C>>,
    a: usize,
    dst: Seq<Value<C>>,
    b: usize,
    i: int,
)
    requires
        copies_to(src, a, dst, b),
        src[a as int] is List,
        0 <= i < src[a as int]->List_0@.len(),
    ensures
        dst[b as int]->List_1@.contains(dst[b as int]->List_0@[i]) <==> is_association(
            dst,
            dst[b as int]->List_0@[i],
        ),
{
    let ditems = dst[b as int]->List_0@;
    let dassocs = dst[b as int]->List_1@;
    assert(dassocs == associations_of(dst, ditems));
    let di = ditems[i];
    if is_association(dst, di) {
        lemma_associations_complete(dst, ditems, i);
    }
    if dassocs.contains(di) {
        lemma_associations_sound(dst, ditems, di);
    }
}

/// Copying a Custom or Invalid value without a handler degrades it to the
/// shared Unit at the bottom of the destination.
pub proof fn lemma_custom_degradation<C>(src: Seq<Value<C>>, a: usize, dst: Seq<Value<C>>, b: usize)
    requires
        copies_to(src, a, dst, b),
        src[a as int] is Custom || src[a as int] is Invalid,
    ensures
        b == 0,
        dst[0] is Unit,
{
}

/// Copying a List in which two item slots reference the same allocating
/// source address yields two distinct destination addresses, each a copy of
/// that source value.
pub proof fn lemma_no_aliasing<C>(
    src: Seq<Value<C>>,
    a: usize,
    dst: Seq<Value<C>>,
    b: usize,
    i: int,
    j: int,
)
    requires
        copies_to(src, a, dst, b),
        src[a as int] is List,
        0 <= i < j < src[a as int]->List_0@.len(),
        copy_allocates(src, src[a as int]->List_0@[i]),
        copy_allocates(src, src[a as int]->List_0@[j]),
    ensures
        dst[b as int]->List_0@[i] != dst[b as int]->List_0@[j],
        copies_to(src, src[a as int]->List_0@[i], dst, dst[b as int]->List_0@[i]),
        copies_to(src, src[a as int]->List_0@[j], dst, dst[b as int]->List_0@[j]),
{
}

} // verus!
