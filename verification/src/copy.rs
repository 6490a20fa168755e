use vstd::prelude::*;

use crate::store::Data;
use crate::store::StoreView;
use crate::store::heap_wf;
use crate::store::same_builders;
use crate::store::value_wf;
use crate::value::DataError;
use crate::value::Kind;
use crate::value::Value;
use crate::value::kind_of;

verus! {

/// The fixed destination address the copy engine hands back for a kind whose
/// copy allocates nothing: Unit and, for an engine without a handler, Custom
/// and Invalid degrade to the shared Unit, while True and False land on their
/// shared constants. Every other kind allocates a fresh address.
pub open spec fn shared_addr(k: Kind) -> Option<usize> {
    match k {
        Kind::Unit => Some(0usize),
        Kind::Custom => Some(0usize),
        Kind::Invalid => Some(0usize),
        Kind::False => Some(1usize),
        Kind::True => Some(2usize),
        _ => None,
    }
}

/// True when copying the value at `a` appends a fresh value to the
/// destination rather than returning a shared constant address.
pub open spec fn copy_allocates<C>(src: Seq<Value<C>>, a: usize) -> bool {
    a < src.len() && shared_addr(kind_of(src[a as int])) is None
}

/// True when the value at `addr` is an association: a Pair whose left operand
/// resolves to a Symbol in the same heap.
pub open spec fn is_association<C>(h: Seq<Value<C>>, addr: usize) -> bool {
    &&& addr < h.len()
    &&& h[addr as int] matches Value::Pair(l, _r) && l < h.len() && h[l as int] is Symbol
}

/// The association subsequence of a list's items: those item addresses that
/// are associations in the heap, in item order.
pub open spec fn associations_of<C>(h: Seq<Value<C>>, items: Seq<usize>) -> Seq<usize> {
    items.filter(|ad: usize| is_association(h, ad))
}

/// The copy relation: the value at `b` in `dst` is the engine's copy of the
/// value at `a` in `src`. Scalars keep their payload; Unit, True and False
/// land on the shared constants, and Custom and Invalid degrade to the shared
/// Unit; composites hold copies of their operands, placed below the composite
/// itself, in operand order for operands that allocate; a copied List holds
/// as its associations exactly those copied items that are associations in
/// the destination, in item order.
pub open spec fn copies_to<C>(src: Seq<Value<C>>, a: usize, dst: Seq<Value<C>>, b: usize) -> bool
    decreases a, 1int,
{
    a < src.len() && b < dst.len() && match src[a as int] {
        Value::Unit => b == 0 && dst[b as int] is Unit,
        Value::Custom(_) => b == 0 && dst[b as int] is Unit,
        Value::Invalid => b == 0 && dst[b as int] is Unit,
        Value::False => b == 1 && dst[b as int] is False,
        Value::True => b == 2 && dst[b as int] is True,
        Value::Number(n) => dst[b as int] == Value::<C>::Number(n),
        Value::Type(k) => dst[b as int] == Value::<C>::Type(k),
        Value::Char(c) => dst[b as int] == Value::<C>::Char(c),
        Value::Byte(x) => dst[b as int] == Value::<C>::Byte(x),
        Value::Symbol(s) => dst[b as int] == Value::<C>::Symbol(s),
        Value::Expression(x) => dst[b as int] == Value::<C>::Expression(x),
        Value::External(x) => dst[b as int] == Value::<C>::External(x),
        Value::CharList(cs) => dst[b as int] matches Value::CharList(ds) && ds@ == cs@,
        Value::ByteList(bs) => dst[b as int] matches Value::ByteList(ds) && ds@ == bs@,
        Value::Pair(l, r) => dst[b as int] matches Value::Pair(l2, r2)
            && operands_copied(src, a, l, r, dst, l2, r2, b),
        Value::Range(l, r) => dst[b as int] matches Value::Range(l2, r2)
            && operands_copied(src, a, l, r, dst, l2, r2, b),
        Value::Concatenation(l, r) => dst[b as int] matches Value::Concatenation(l2, r2)
            && operands_copied(src, a, l, r, dst, l2, r2, b),
        Value::Slice(l, r) => dst[b as int] matches Value::Slice(l2, r2)
            && operands_copied(src, a, l, r, dst, l2, r2, b),
        Value::List(items, _assocs) => dst[b as int] matches Value::List(ditems, dassocs)
            && list_items_copied(src, a, items@, dst, ditems@, b)
            && dassocs@ == associations_of(dst, ditems@),
    }
}

/// The operand part of the copy relation for the two-address composites:
/// both operands sit below the composite in the source, and their copies sit
/// below the composite's copy. A copy that allocates lies above the shared
/// constants at an exactly determined place: the right copy's block ends
/// just under the composite, and the left copy's block ends just under the
/// right one's, so when both allocate the left copy precedes the right.
pub open spec fn operands_copied<C>(
    src: Seq<Value<C>>,
    a: usize,
    l: usize,
    r: usize,
    dst: Seq<Value<C>>,
    l2: usize,
    r2: usize,
    b: usize,
) -> bool
    decreases a, 0int,
{
    &&& l < a && r < a && a < src.len()
    &&& copies_to(src, l, dst, l2)
    &&& copies_to(src, r, dst, r2)
    &&& l2 < b && r2 < b
    &&& copy_allocates(src, l) ==> l2 >= 3 && l2 + 1 + copy_size(src, r) == b
    &&& copy_allocates(src, r) ==> r2 >= 3 && r2 + 1 == b
    &&& copy_allocates(src, l) && copy_allocates(src, r) ==> l2 < r2
}

/// The item part of the copy relation for a List: one copied item per source
/// item, in order, each below the copied list. A copy that allocates lies
/// above the shared constants at an exactly determined place: item `i`'s
/// block ends where the blocks of the items through `i` end, just as far
/// under the copied list as the remaining items' blocks are long.
pub open spec fn list_items_copied<C>(
    src: Seq<Value<C>>,
    a: usize,
    items: Seq<usize>,
    dst: Seq<Value<C>>,
    ditems: Seq<usize>,
    b: usize,
) -> bool
    decreases a, 0int,
{
    &&& ditems.len() == items.len()
    &&& forall|i: int| 0 <= i < items.len()
        ==> #[trigger] items[i] < a && copies_to(src, items[i], dst, ditems[i])
    &&& forall|i: int| 0 <= i < ditems.len() ==> #[trigger] ditems[i] < b
    &&& forall|i: int| 0 <= i < items.len() && copy_allocates(src, items[i])
        ==> #[trigger] ditems[i] >= 3 && ditems[i] + 1 + copy_size_items(src, a, items)
            == b + copy_size_items(src, a, items.take(i + 1))
    &&& forall|i: int, j: int|
        #![trigger ditems[i], ditems[j]]
        0 <= i < j < items.len() && copy_allocates(src, items[i]) && copy_allocates(src, items[j])
            ==> ditems[i] < ditems[j]
}

/// Appending a value whose references all lie below the end of a well-formed
/// heap keeps the heap well formed.
pub proof fn lemma_heap_wf_push<C>(h: Seq<Value<C>>, v: Value<C>)
    requires
        heap_wf(h),
        value_wf(v, h.len() as int),
    ensures
        heap_wf(h.push(v)),
{
    let h2 = h.push(v);
    assert forall|i: int| 0 <= i < h2.len() implies value_wf(#[trigger] h2[i], i) by {
        if i < h.len() {
            assert(h2[i] == h[i]);
        } else {
            assert(h2[i] == v);
        }
    }
}

/// In a well-formed heap, whether an already-stored value is an association
/// does not change when the heap grows.
pub proof fn lemma_is_association_prefix<C>(d: Seq<Value<C>>, d2: Seq<Value<C>>, ad: usize)
    requires
        heap_wf(d),
        d.is_prefix_of(d2),
        ad < d.len(),
    ensures
        is_association(d, ad) <==> is_association(d2, ad),
{
    assert(d2[ad as int] == d[ad as int]);
    match d[ad as int] {
        Value::Pair(l, _r) => {
            assert(value_wf(d[ad as int], ad as int));
            assert(l < d.len());
            assert(d2[l as int] == d[l as int]);
        },
        _ => {},
    }
}

/// Two heaps that agree on which of a list's items are associations give the
/// list the same association subsequence.
pub proof fn lemma_associations_congruent<C>(h1: Seq<Value<C>>, h2: Seq<Value<C>>, s: Seq<usize>)
    requires
        forall|i: int| 0 <= i < s.len()
            ==> (is_association(h1, #[trigger] s[i]) <==> is_association(h2, s[i])),
    ensures
        associations_of(h1, s) == associations_of(h2, s),
    decreases s.len(),
{
    reveal(Seq::filter);
    if s.len() > 0 {
        assert(forall|i: int| 0 <= i < s.drop_last().len() ==> s.drop_last()[i] == s[i]);
        lemma_associations_congruent(h1, h2, s.drop_last());
    }
}

/// Extending a list's items by one address keeps the old association
/// subsequence and appends the address exactly when it is an association.
pub proof fn lemma_associations_push<C>(h: Seq<Value<C>>, s: Seq<usize>, x: usize)
    ensures
        associations_of(h, s.push(x)) == if is_association(h, x) {
            associations_of(h, s).push(x)
        } else {
            associations_of(h, s)
        },
{
    reveal(Seq::filter);
    assert(s.push(x).drop_last() =~= s);
    assert(s.push(x).last() == x);
}

/// The copy relation only looks at the part of the destination up to the
/// copy itself, so it survives any later appends to a well-formed
/// destination.
pub proof fn lemma_copies_to_prefix<C>(
    src: Seq<Value<C>>,
    a: usize,
    dst: Seq<Value<C>>,
    b: usize,
    dst2: Seq<Value<C>>,
)
    requires
        copies_to(src, a, dst, b),
        heap_wf(dst),
        dst.is_prefix_of(dst2),
    ensures
        copies_to(src, a, dst2, b),
    decreases a,
{
    assert(dst2[b as int] == dst[b as int]);
    match src[a as int] {
        Value::Pair(l, r) => {
            let (l2, r2) = (dst[b as int]->Pair_0, dst[b as int]->Pair_1);
            lemma_copies_to_prefix(src, l, dst, l2, dst2);
            lemma_copies_to_prefix(src, r, dst, r2, dst2);
        },
        Value::Range(l, r) => {
            let (l2, r2) = (dst[b as int]->Range_0, dst[b as int]->Range_1);
            lemma_copies_to_prefix(src, l, dst, l2, dst2);
            lemma_copies_to_prefix(src, r, dst, r2, dst2);
        },
        Value::Concatenation(l, r) => {
            let (l2, r2) = (dst[b as int]->Concatenation_0, dst[b as int]->Concatenation_1);
            lemma_copies_to_prefix(src, l, dst, l2, dst2);
            lemma_copies_to_prefix(src, r, dst, r2, dst2);
        },
        Value::Slice(l, r) => {
            let (l2, r2) = (dst[b as int]->Slice_0, dst[b as int]->Slice_1);
            lemma_copies_to_prefix(src, l, dst, l2, dst2);
            lemma_copies_to_prefix(src, r, dst, r2, dst2);
        },
        Value::List(items, _assocs) => {
            let ditems = dst[b as int]->List_0@;
            let dassocs = dst[b as int]->List_1@;
            assert forall|i: int| 0 <= i < items@.len()
                implies #[trigger] items@[i] < a && copies_to(src, items@[i], dst2, ditems[i]) by {
                assert(copies_to(src, items@[i], dst, ditems[i]));
                lemma_copies_to_prefix(src, items@[i], dst, ditems[i], dst2);
            }
            assert forall|i: int| 0 <= i < ditems.len() implies (is_association(
                dst,
                #[trigger] ditems[i],
            ) <==> is_association(dst2, ditems[i])) by {
                assert(ditems[i] < b);
                lemma_is_association_prefix(dst, dst2, ditems[i]);
            }
            lemma_associations_congruent(dst, dst2, ditems);
            assert(dassocs == associations_of(dst2, ditems));
        },
        _ => {},
    }
}

/// How many values a copy appends to the destination: nothing for a kind
/// that lands on a shared constant, one for a scalar or a materialized list
/// of scalars, and one more than its parts for a composite.
pub open spec fn copy_size<C>(f: Seq<Value<C>>, a: usize) -> nat
    decreases a, 1int, 0int,
{
    if a < f.len() {
        match f[a as int] {
            Value::Unit => 0,
            Value::True => 0,
            Value::False => 0,
            Value::Custom(_) => 0,
            Value::Invalid => 0,
            Value::Pair(l, r) => if l < a && r < a {
                1 + copy_size(f, l) + copy_size(f, r)
            } else {
                1
            },
            Value::Range(l, r) => if l < a && r < a {
                1 + copy_size(f, l) + copy_size(f, r)
            } else {
                1
            },
            Value::Concatenation(l, r) => if l < a && r < a {
                1 + copy_size(f, l) + copy_size(f, r)
            } else {
                1
            },
            Value::Slice(l, r) => if l < a && r < a {
                1 + copy_size(f, l) + copy_size(f, r)
            } else {
                1
            },
            Value::List(items, _assocs) => 1 + copy_size_items(f, a, items@),
            _ => 1,
        }
    } else {
        0
    }
}

/// The values appended by copying each of a list's items in turn.
pub open spec fn copy_size_items<C>(f: Seq<Value<C>>, a: usize, items: Seq<usize>) -> nat
    decreases a, 0int, items.len(),
{
    if items.len() == 0 {
        0
    } else {
        copy_size_items(f, a, items.drop_last()) + (if items.last() < a {
            copy_size(f, items.last())
        } else {
            0
        })
    }
}

/// What a copy call leaves behind: it succeeds exactly on stored addresses;
/// on success the result is a copy of the source value, either one of the
/// shared constant addresses with the destination untouched, or the freshly
/// appended top of the destination; on failure the destination is untouched.
pub open spec fn copy_result_post<C>(
    f: Seq<Value<C>>,
    addr: usize,
    old_d: Seq<Value<C>>,
    d: Seq<Value<C>>,
    r: Result<usize, DataError>,
) -> bool {
    &&& (r is Ok <==> addr < f.len())
    &&& (r matches Ok(x) ==> copies_to(f, addr, d, x) && (match shared_addr(
        kind_of(f[addr as int]),
    ) {
        Some(s) => x == s && d == old_d,
        None => x + 1 == d.len() && d.len() == old_d.len() + copy_size(f, addr),
    }))
    &&& (r is Err ==> d == old_d && r == Err::<usize, DataError>(DataError::AddressOutOfBounds))
}

/// A caller-supplied copy strategy for Custom values, which the engine cannot
/// understand on its own. The engine invokes it only for the address it was
/// given directly, never for values reached by recursion.
pub trait CustomHandler<C> {
    /// What one invocation of this strategy does: it relates the source
    /// address and heap, the destination state before and after the call,
    /// and the returned result. The engine's contract promises this very
    /// relation between its own pre- and post-state when it hands a Custom
    /// value to the strategy, which is how a caller learns that the strategy
    /// ran once, on the given address and stores, and that its result came
    /// back unchanged.
    spec fn handles(
        &self,
        addr: usize,
        from: StoreView<C>,
        pre: StoreView<C>,
        post: StoreView<C>,
        r: Result<usize, DataError>,
    ) -> bool;

    /// Copies the Custom value at `addr` of the source heap into the
    /// destination in its own way, returning the destination address of what
    /// it made. It may only append to the destination and must leave the
    /// builders alone.
    fn handle(&self, addr: usize, from: &Data<C>, to: &mut Data<C>) -> (r: Result<
        usize,
        DataError,
    >)
        ensures
            old(to)@.values.is_prefix_of(final(to)@.values),
            same_builders(old(to)@, final(to)@),
            heap_wf(old(to)@.values) ==> heap_wf(final(to)@.values),
            heap_wf(old(to)@.values) ==> (r matches Ok(x) ==> x < final(to)@.values.len()),
            self.handles(addr, from@, old(to)@, final(to)@, r),
    ;
}

/// The degradation strategy the engine uses on its own: the copy of a Custom
/// value is the shared Unit.
pub struct UnitHandler;

impl<C> CustomHandler<C> for UnitHandler {
    /// The destination is left untouched and the shared Unit address comes
    /// back.
    open spec fn handles(
        &self,
        addr: usize,
        from: StoreView<C>,
        pre: StoreView<C>,
        post: StoreView<C>,
        r: Result<usize, DataError>,
    ) -> bool {
        post == pre && r == Ok::<usize, DataError>(0usize)
    }

    fn handle(&self, _addr: usize, _from: &Data<C>, to: &mut Data<C>) -> (r: Result<
        usize,
        DataError,
    >) {
        to.add_unit()
    }
}

/// A strategy that copies every Custom value as one fixed Number.
pub struct NumberHandler {
    pub value: i64,
}

impl<C> CustomHandler<C> for NumberHandler {
    /// The fixed Number is appended to the destination and its fresh address
    /// comes back.
    open spec fn handles(
        &self,
        addr: usize,
        from: StoreView<C>,
        pre: StoreView<C>,
        post: StoreView<C>,
        r: Result<usize, DataError>,
    ) -> bool {
        &&& post.values == pre.values.push(Value::<C>::Number(self.value))
        &&& same_builders(pre, post)
        &&& r matches Ok(x) && x == pre.values.len()
    }

    fn handle(&self, _addr: usize, _from: &Data<C>, to: &mut Data<C>) -> (r: Result<
        usize,
        DataError,
    >) {
        to.add_number(self.value)
    }
}

/// Copies the value at `data_addr` of `from`, and everything it references,
/// into `to`, returning the destination address of the copy. Custom and
/// Invalid values degrade to the shared Unit. The destination may have list
/// builders open, which are left as found, but no char list or byte list
/// under construction, since copying drives those builder protocols itself.
pub fn clone_data<C>(data_addr: usize, from: &Data<C>, to: &mut Data<C>) -> (r: Result<
    usize,
    DataError,
>)
    requires
        heap_wf(from@.values),
        heap_wf(old(to)@.values),
        old(to)@.char_list is None,
        old(to)@.byte_list is None,
    ensures
        heap_wf(final(to)@.values),
        old(to)@.values.is_prefix_of(final(to)@.values),
        same_builders(old(to)@, final(to)@),
        copy_result_post(from@.values, data_addr, old(to)@.values, final(to)@.values, r),
    decreases data_addr, 2int,
{
    clone_data_with_handlers(data_addr, from, to, None::<&UnitHandler>)
}

/// Copies the value at `data_addr` of `from` into `to` as `clone_data` does,
/// except that a Custom value at `data_addr` itself is handed to the given
/// strategy instead of degrading to Unit.
pub fn clone_data_with_custom_handler<C, H: CustomHandler<C>>(
    data_addr: usize,
    from: &Data<C>,
    to: &mut Data<C>,
    custom_handler: &H,
) -> (r: Result<usize, DataError>)
    requires
        heap_wf(from@.values),
        heap_wf(old(to)@.values),
        old(to)@.char_list is None,
        old(to)@.byte_list is None,
    ensures
        heap_wf(final(to)@.values),
        old(to)@.values.is_prefix_of(final(to)@.values),
        same_builders(old(to)@, final(to)@),
        !(data_addr < from@.values.len() && from@.values[data_addr as int] is Custom)
            ==> copy_result_post(from@.values, data_addr, old(to)@.values, final(to)@.values, r),
        data_addr < from@.values.len() && from@.values[data_addr as int] is Custom
            ==> custom_handler.handles(data_addr, from@, old(to)@, final(to)@, r),
        data_addr < from@.values.len() && from@.values[data_addr as int] is Custom
            ==> (r matches Ok(x) ==> x < final(to)@.values.len()),
{
    clone_data_with_handlers(data_addr, from, to, Some(custom_handler))
}

/// The copy engine proper: one dispatch over the kind at `data_addr`. The
/// optional strategy applies only to a Custom value at `data_addr` itself;
/// recursion always degrades nested Custom values.
#[verifier::rlimit(100)]
pub fn clone_data_with_handlers<C, H: CustomHandler<C>>(
    data_addr: usize,
    from: &Data<C>,
    to: &mut Data<C>,
    custom_handler: Option<&H>,
) -> (r: Result<usize, DataError>)
    requires
        heap_wf(from@.values),
        heap_wf(old(to)@.values),
        old(to)@.char_list is None,
        old(to)@.byte_list is None,
    ensures
        heap_wf(final(to)@.values),
        old(to)@.values.is_prefix_of(final(to)@.values),
        same_builders(old(to)@, final(to)@),
        !(custom_handler is Some && data_addr < from@.values.len()
            && from@.values[data_addr as int] is Custom)
            ==> copy_result_post(from@.values, data_addr, old(to)@.values, final(to)@.values, r),
        custom_handler matches Some(h) ==> (data_addr < from@.values.len()
            && from@.values[data_addr as int] is Custom
            ==> h.handles(data_addr, from@, old(to)@, final(to)@, r)),
        custom_handler is Some && data_addr < from@.values.len()
            && from@.values[data_addr as int] is Custom
            ==> (r matches Ok(x) ==> x < final(to)@.values.len()),
    decreases data_addr, 1int,
{
    let ghost f = from@.values;
    let kind = match from.get_data_type(data_addr) {
        Ok(k) => k,
        Err(e) => {
            return Err(e);
        },
    };
    proof {
        assert(value_wf(f[data_addr as int], data_addr as int));
    }
    match kind {
        Kind::Invalid => to.add_unit(),
        Kind::Custom => match custom_handler {
            None => to.add_unit(),
            Some(handler) => handler.handle(data_addr, from, to),
        },
        Kind::Unit => to.add_unit(),
        Kind::True => to.add_true(),
        Kind::False => to.add_false(),
        Kind::Number => match from.get_number(data_addr) {
            Ok(n) => {
                let r = to.add_number(n);
                proof {
                    lemma_heap_wf_push(old(to)@.values, Value::<C>::Number(n));
                }
                r
            },
            Err(e) => Err(e),
        },
        Kind::Type => match from.get_type(data_addr) {
            Ok(k) => {
                let r = to.add_type(k);
                proof {
                    lemma_heap_wf_push(old(to)@.values, Value::<C>::Type(k));
                }
                r
            },
            Err(e) => Err(e),
        },
        Kind::Char => match from.get_char(data_addr) {
            Ok(c) => {
                let r = to.add_char(c);
                proof {
                    lemma_heap_wf_push(old(to)@.values, Value::<C>::Char(c));
                }
                r
            },
            Err(e) => Err(e),
        },
        Kind::Byte => match from.get_byte(data_addr) {
            Ok(b) => {
                let r = to.add_byte(b);
                proof {
                    lemma_heap_wf_push(old(to)@.values, Value::<C>::Byte(b));
                }
                r
            },
            Err(e) => Err(e),
        },
        Kind::Symbol => match from.get_symbol(data_addr) {
            Ok(s) => {
                let r = to.add_symbol(s);
                proof {
                    lemma_heap_wf_push(old(to)@.values, Value::<C>::Symbol(s));
                }
                r
            },
            Err(e) => Err(e),
        },
        Kind::Expression => match from.get_expression(data_addr) {
            Ok(x) => {
                let r = to.add_expression(x);
                proof {
                    lemma_heap_wf_push(old(to)@.values, Value::<C>::Expression(x));
                }
                r
            },
            Err(e) => Err(e),
        },
        Kind::External => match from.get_external(data_addr) {
            Ok(x) => {
                let r = to.add_external(x);
                proof {
                    lemma_heap_wf_push(old(to)@.values, Value::<C>::External(x));
                }
                r
            },
            Err(e) => Err(e),
        },
        Kind::CharList => copy_char_list(data_addr, from, to),
        Kind::ByteList => copy_byte_list(data_addr, from, to),
        Kind::Pair => {
            let (l, r0) = match from.get_pair(data_addr) {
                Ok(p) => p,
                Err(e) => {
                    return Err(e);
                },
            };
            let (tl, tr) = match copy_operands(data_addr, l, r0, from, to) {
                Ok(p) => p,
                Err(e) => {
                    return Err(e);
                },
            };
            let ghost d2 = to@.values;
            let r = to.add_pair((tl, tr));
            proof {
                lemma_heap_wf_push(d2, Value::<C>::Pair(tl, tr));
                lemma_copies_to_prefix(f, l, d2, tl, to@.values);
                lemma_copies_to_prefix(f, r0, d2, tr, to@.values);
                assert(old(to)@.values.is_prefix_of(to@.values));
            }
            r
        },
        Kind::Range => {
            let (l, r0) = match from.get_range(data_addr) {
                Ok(p) => p,
                Err(e) => {
                    return Err(e);
                },
            };
            let (tl, tr) = match copy_operands(data_addr, l, r0, from, to) {
                Ok(p) => p,
                Err(e) => {
                    return Err(e);
                },
            };
            let ghost d2 = to@.values;
            let r = to.add_range(tl, tr);
            proof {
                lemma_heap_wf_push(d2, Value::<C>::Range(tl, tr));
                lemma_copies_to_prefix(f, l, d2, tl, to@.values);
                lemma_copies_to_prefix(f, r0, d2, tr, to@.values);
                assert(old(to)@.values.is_prefix_of(to@.values));
            }
            r
        },
        Kind::Concatenation => {
            let (l, r0) = match from.get_concatenation(data_addr) {
                Ok(p) => p,
                Err(e) => {
                    return Err(e);
                },
            };
            let (tl, tr) = match copy_operands(data_addr, l, r0, from, to) {
                Ok(p) => p,
                Err(e) => {
                    return Err(e);
                },
            };
            let ghost d2 = to@.values;
            let r = to.add_concatenation(tl, tr);
            proof {
                lemma_heap_wf_push(d2, Value::<C>::Concatenation(tl, tr));
                lemma_copies_to_prefix(f, l, d2, tl, to@.values);
                lemma_copies_to_prefix(f, r0, d2, tr, to@.values);
                assert(old(to)@.values.is_prefix_of(to@.values));
            }
            r
        },
        Kind::Slice => {
            let (l, r0) = match from.get_slice(data_addr) {
                Ok(p) => p,
                Err(e) => {
                    return Err(e);
                },
            };
            let (tl, tr) = match copy_operands(data_addr, l, r0, from, to) {
                Ok(p) => p,
                Err(e) => {
                    return Err(e);
                },
            };
            let ghost d2 = to@.values;
            let r = to.add_slice(tl, tr);
            proof {
                lemma_heap_wf_push(d2, Value::<C>::Slice(tl, tr));
                lemma_copies_to_prefix(f, l, d2, tl, to@.values);
                lemma_copies_to_prefix(f, r0, d2, tr, to@.values);
                assert(old(to)@.values.is_prefix_of(to@.values));
            }
            r
        },
        Kind::List => copy_list(data_addr, from, to),
    }
}

/// Copies the CharList at `data_addr` by driving the destination's
/// start/append/end protocol over its characters.
fn copy_char_list<C>(data_addr: usize, from: &Data<C>, to: &mut Data<C>) -> (r: Result<
    usize,
    DataError,
>)
    requires
        heap_wf(from@.values),
        heap_wf(old(to)@.values),
        old(to)@.char_list is None,
        old(to)@.byte_list is None,
        data_addr < from@.values.len(),
        from@.values[data_addr as int] is CharList,
    ensures
        heap_wf(final(to)@.values),
        old(to)@.values.is_prefix_of(final(to)@.values),
        same_builders(old(to)@, final(to)@),
        copy_result_post(from@.values, data_addr, old(to)@.values, final(to)@.values, r),
{
    let ghost f = from@.values;
    let ghost cs = f[data_addr as int]->CharList_0@;
    let len = match from.get_char_list_len(data_addr) {
        Ok(n) => n,
        Err(e) => {
            return Err(e);
        },
    };
    match to.start_char_list() {
        Ok(_) => {},
        Err(e) => {
            return Err(e);
        },
    }
    let mut i: usize = 0;
    while i < len
        invariant
            heap_wf(f),
            data_addr < f.len(),
            f[data_addr as int] is CharList,
            cs == f[data_addr as int]->CharList_0@,
            f == from@.values,
            len == cs.len(),
            i <= len,
            to@.values == old(to)@.values,
            to@.char_list == Some(cs.take(i as int)),
            to@.byte_list == old(to)@.byte_list,
            to@.list_stack == old(to)@.list_stack,
        decreases len - i,
    {
        let c = match from.get_char_list_item(data_addr, i) {
            Ok(c) => c,
            Err(e) => {
                return Err(e);
            },
        };
        match to.add_to_char_list(c) {
            Ok(_) => {},
            Err(e) => {
                return Err(e);
            },
        }
        proof {
            assert(cs.take(i as int).push(c) =~= cs.take(i + 1));
        }
        i = i + 1;
    }
    proof {
        assert(cs.take(len as int) =~= cs);
    }
    let pre_len = to.get_data_len();
    let r = to.end_char_list();
    proof {
        let d = to@.values;
        assert(old(to)@.values.push(d.last()) =~= d);
        lemma_heap_wf_push(old(to)@.values, d.last());
        assert(pre_len as int == d.len() - 1);
        assert(d[pre_len as int] == d.last());
        assert(d.last() matches Value::CharList(dv) && dv@ == cs);
        assert(copies_to(f, data_addr, d, pre_len));
    }
    r
}

/// Copies the ByteList at `data_addr` by driving the destination's
/// start/append/end protocol over its bytes.
fn copy_byte_list<C>(data_addr: usize, from: &Data<C>, to: &mut Data<C>) -> (r: Result<
    usize,
    DataError,
>)
    requires
        heap_wf(from@.values),
        heap_wf(old(to)@.values),
        old(to)@.char_list is None,
        old(to)@.byte_list is None,
        data_addr < from@.values.len(),
        from@.values[data_addr as int] is ByteList,
    ensures
        heap_wf(final(to)@.values),
        old(to)@.values.is_prefix_of(final(to)@.values),
        same_builders(old(to)@, final(to)@),
        copy_result_post(from@.values, data_addr, old(to)@.values, final(to)@.values, r),
{
    let ghost f = from@.values;
    let ghost bs = f[data_addr as int]->ByteList_0@;
    let len = match from.get_byte_list_len(data_addr) {
        Ok(n) => n,
        Err(e) => {
            return Err(e);
        },
    };
    match to.start_byte_list() {
        Ok(_) => {},
        Err(e) => {
            return Err(e);
        },
    }
    let mut i: usize = 0;
    while i < len
        invariant
            heap_wf(f),
            data_addr < f.len(),
            f[data_addr as int] is ByteList,
            bs == f[data_addr as int]->ByteList_0@,
            f == from@.values,
            len == bs.len(),
            i <= len,
            to@.values == old(to)@.values,
            to@.byte_list == Some(bs.take(i as int)),
            to@.char_list == old(to)@.char_list,
            to@.list_stack == old(to)@.list_stack,
        decreases len - i,
    {
        let b = match from.get_byte_list_item(data_addr, i) {
            Ok(b) => b,
            Err(e) => {
                return Err(e);
            },
        };
        match to.add_to_byte_list(b) {
            Ok(_) => {},
            Err(e) => {
                return Err(e);
            },
        }
        proof {
            assert(bs.take(i as int).push(b) =~= bs.take(i + 1));
        }
        i = i + 1;
    }
    proof {
        assert(bs.take(len as int) =~= bs);
    }
    let pre_len = to.get_data_len();
    let r = to.end_byte_list();
    proof {
        let d = to@.values;
        assert(old(to)@.values.push(d.last()) =~= d);
        lemma_heap_wf_push(old(to)@.values, d.last());
        assert(pre_len as int == d.len() - 1);
        assert(d[pre_len as int] == d.last());
        assert(d.last() matches Value::ByteList(dv) && dv@ == bs);
        assert(copies_to(f, data_addr, d, pre_len));
    }
    r
}

/// Copies the two operands of a composite, left before right, and returns
/// their destination addresses; the caller appends the composite itself.
fn copy_operands<C>(
    data_addr: usize,
    l: usize,
    r0: usize,
    from: &Data<C>,
    to: &mut Data<C>,
) -> (r: Result<(usize, usize), DataError>)
    requires
        heap_wf(from@.values),
        heap_wf(old(to)@.values),
        old(to)@.char_list is None,
        old(to)@.byte_list is None,
        data_addr < from@.values.len(),
        l < data_addr,
        r0 < data_addr,
    ensures
        heap_wf(final(to)@.values),
        old(to)@.values.is_prefix_of(final(to)@.values),
        same_builders(old(to)@, final(to)@),
        r is Ok,
        r matches Ok(p) ==> ({
            let f = from@.values;
            let d = final(to)@.values;
            &&& d.len() == old(to)@.values.len() + copy_size(f, l) + copy_size(f, r0)
            &&& copies_to(f, l, d, p.0)
            &&& copies_to(f, r0, d, p.1)
            &&& p.0 < d.len() && p.1 < d.len()
            &&& copy_allocates(f, l) ==> p.0 >= 3 && p.0 + 1 + copy_size(f, r0) == d.len()
            &&& copy_allocates(f, r0) ==> p.1 >= 3 && p.1 + 1 == d.len()
            &&& copy_allocates(f, l) && copy_allocates(f, r0) ==> p.0 < p.1
        }),
    decreases data_addr, 0int,
{
    let ghost f = from@.values;
    let tl = match clone_data(l, from, to) {
        Ok(x) => x,
        Err(e) => {
            return Err(e);
        },
    };
    let ghost d1 = to@.values;
    let tr = match clone_data(r0, from, to) {
        Ok(x) => x,
        Err(e) => {
            return Err(e);
        },
    };
    proof {
        lemma_copies_to_prefix(f, l, d1, tl, to@.values);
    }
    Ok((tl, tr))
}

/// Copies the List at `data_addr`: every item is copied in order, its
/// association status is derived anew from the destination, and the
/// destination's list builder protocol assembles the copy.
#[verifier::rlimit(50)]
fn copy_list<C>(data_addr: usize, from: &Data<C>, to: &mut Data<C>) -> (r: Result<
    usize,
    DataError,
>)
    requires
        heap_wf(from@.values),
        heap_wf(old(to)@.values),
        old(to)@.char_list is None,
        old(to)@.byte_list is None,
        data_addr < from@.values.len(),
        from@.values[data_addr as int] is List,
    ensures
        heap_wf(final(to)@.values),
        old(to)@.values.is_prefix_of(final(to)@.values),
        same_builders(old(to)@, final(to)@),
        copy_result_post(from@.values, data_addr, old(to)@.values, final(to)@.values, r),
    decreases data_addr, 0int,
{
    let ghost f = from@.values;
    let ghost items = f[data_addr as int]->List_0@;
    let len = match from.get_list_len(data_addr) {
        Ok(n) => n,
        Err(e) => {
            return Err(e);
        },
    };
    match to.start_list(len) {
        Ok(_) => {},
        Err(e) => {
            return Err(e);
        },
    }
    proof {
        assert(items.take(0) =~= Seq::<usize>::empty());
    }
    let mut i: usize = 0;
    while i < len
        invariant
            heap_wf(f),
            data_addr < f.len(),
            f[data_addr as int] is List,
            items == f[data_addr as int]->List_0@,
            value_wf(f[data_addr as int], data_addr as int),
            f == from@.values,
            len == items.len(),
            i <= len,
            heap_wf(to@.values),
            old(to)@.values.is_prefix_of(to@.values),
            to@.values.len() == old(to)@.values.len() + copy_size_items(
                f,
                data_addr,
                items.take(i as int),
            ),
            to@.char_list is None,
            to@.byte_list is None,
            to@.char_list == old(to)@.char_list,
            to@.byte_list == old(to)@.byte_list,
            to@.list_stack.len() == old(to)@.list_stack.len() + 1,
            to@.list_stack.drop_last() == old(to)@.list_stack,
            to@.list_stack.last().0.len() == i,
            forall|j: int| 0 <= j < i as int
                ==> copies_to(f, items[j], to@.values, #[trigger] to@.list_stack.last().0[j]),
            forall|j: int| 0 <= j < i as int
                ==> #[trigger] to@.list_stack.last().0[j] < to@.values.len(),
            forall|j: int| 0 <= j < i as int && copy_allocates(f, items[j])
                ==> #[trigger] to@.list_stack.last().0[j] >= 3,
            forall|j: int| 0 <= j < i as int && copy_allocates(f, items[j])
                ==> #[trigger] to@.list_stack.last().0[j] + 1 == old(to)@.values.len()
                    + copy_size_items(f, data_addr, items.take(j + 1)),
            forall|j: int, k: int|
                #![trigger to@.list_stack.last().0[j], to@.list_stack.last().0[k]]
                0 <= j < k < i as int && copy_allocates(f, items[j])
                    && copy_allocates(f, items[k])
                    ==> to@.list_stack.last().0[j] < to@.list_stack.last().0[k],
            to@.list_stack.last().1 == associations_of(to@.values, to@.list_stack.last().0),
        decreases len - i,
    {
        let item = match from.get_list_item(data_addr, i) {
            Ok(a) => a,
            Err(e) => {
                return Err(e);
            },
        };
        let ghost d0 = to@.values;
        let new_addr = match clone_data(item, from, to) {
            Ok(x) => x,
            Err(e) => {
                return Err(e);
            },
        };
        let ghost d1 = to@.values;
        let is_assoc = match to.get_data_type(new_addr) {
            Ok(Kind::Pair) => match to.get_pair(new_addr) {
                Ok((pl, _pr)) => match to.get_data_type(pl) {
                    Ok(Kind::Symbol) => true,
                    Ok(_) => false,
                    Err(e) => {
                        return Err(e);
                    },
                },
                Err(e) => {
                    return Err(e);
                },
            },
            Ok(_) => false,
            Err(e) => {
                return Err(e);
            },
        };
        proof {
            assert(value_wf(d1[new_addr as int], new_addr as int));
            assert(is_assoc == is_association(d1, new_addr));
            let b = to@.list_stack.last();
            assert forall|j: int| 0 <= j < i as int implies copies_to(
                f,
                items[j],
                d1,
                #[trigger] b.0[j],
            ) by {
                lemma_copies_to_prefix(f, items[j], d0, b.0[j], d1);
            }
            assert forall|j: int| 0 <= j < i as int implies (is_association(
                d0,
                #[trigger] b.0[j],
            ) <==> is_association(d1, b.0[j])) by {
                lemma_is_association_prefix(d0, d1, b.0[j]);
            }
            lemma_associations_congruent(d0, d1, b.0);
            assert(b.1 == associations_of(d1, b.0));
        }
        let ghost bitems = to@.list_stack.last().0;
        let ghost bassocs = to@.list_stack.last().1;
        match to.add_to_list(new_addr, is_assoc) {
            Ok(_) => {},
            Err(e) => {
                return Err(e);
            },
        }
        proof {
            let b = to@.list_stack.last();
            assert(b.0 == bitems.push(new_addr));
            assert(b.1 == if is_assoc {
                bassocs.push(new_addr)
            } else {
                bassocs
            });
            lemma_associations_push(d1, bitems, new_addr);
            assert(to@.values == d1);
            assert(b.1 == associations_of(to@.values, b.0));
            assert(to@.list_stack.drop_last() =~= old(to)@.list_stack);
            assert(items.take(i + 1).drop_last() =~= items.take(i as int));
            assert(items.take(i + 1).last() == items[i as int]);
            assert(copy_size_items(f, data_addr, items.take(i + 1)) == copy_size_items(
                f,
                data_addr,
                items.take(i as int),
            ) + copy_size(f, items[i as int]));
        }
        i = i + 1;
    }
    let ghost pre = to@.values;
    let ghost b = to@.list_stack.last();
    let x = to.get_data_len();
    let r = to.end_list();
    proof {
        let d = to@.values;
        let lv = d.last();
        assert(pre.push(lv) =~= d);
        lemma_heap_wf_push(pre, lv);
        assert(old(to)@.values.is_prefix_of(d));
        assert(x as int == d.len() - 1);
        assert(d[x as int] == d.last());

        assert(lv matches Value::List(di, da) && di@ == b.0 && da@ == b.1);
        assert forall|j: int| 0 <= j < items.len() implies #[trigger] items[j] < data_addr
            && copies_to(f, items[j], d, b.0[j]) by {
            assert(copies_to(f, items[j], pre, b.0[j]));
            lemma_copies_to_prefix(f, items[j], pre, b.0[j], d);
        }
        assert forall|j: int| 0 <= j < b.0.len() implies (is_association(
            pre,
            #[trigger] b.0[j],
        ) <==> is_association(d, b.0[j])) by {
            lemma_is_association_prefix(pre, d, b.0[j]);
        }
        lemma_associations_congruent(pre, d, b.0);
        assert(b.1 == associations_of(d, b.0));
        assert(items.take(len as int) =~= items);
        assert(copy_size(f, data_addr) == 1 + copy_size_items(f, data_addr, items));
        assert forall|j: int| 0 <= j < items.len() && copy_allocates(f, items[j])
            implies #[trigger] b.0[j] + 1 + copy_size_items(f, data_addr, items) == x
                + copy_size_items(f, data_addr, items.take(j + 1)) by {
            assert(b.0[j] + 1 == old(to)@.values.len() + copy_size_items(
                f,
                data_addr,
                items.take(j + 1),
            ));
        }
        assert(list_items_copied(f, data_addr, items, d, b.0, x));
        assert(copies_to(f, data_addr, d, x));
    }
    r
}

} // verus!
