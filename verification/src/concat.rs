use vstd::prelude::*;

use crate::store::Data;
use crate::store::heap_wf;
use crate::store::value_wf;
use crate::value::DataError;
use crate::value::Kind;
use crate::value::Value;

verus! {

/// The logical flat sequence of leaf addresses under a value. A
/// Concatenation contributes the leaves of its current operand followed by
/// the leaves of its next operand; a List contributes its item addresses,
/// one leaf each, without looking inside them; any other value is itself one
/// leaf.
pub open spec fn leaf_seq<C>(h: Seq<Value<C>>, a: usize) -> Seq<usize>
    decreases a,
{
    if a < h.len() {
        match h[a as int] {
            Value::Concatenation(l, r) => if l < a && r < a {
                leaf_seq(h, l) + leaf_seq(h, r)
            } else {
                Seq::empty()
            },
            Value::List(items, _assocs) => items@,
            _ => seq![a],
        }
    } else {
        Seq::empty()
    }
}

/// The leaves still owed by a traversal work list, top of the stack first.
spec fn pending_leaves<C>(h: Seq<Value<C>>, stack: Seq<usize>) -> Seq<usize>
    decreases stack.len(),
{
    if stack.len() == 0 {
        Seq::empty()
    } else {
        leaf_seq(h, stack.last()) + pending_leaves(h, stack.drop_last())
    }
}

/// Three to the given power: the weight of one pending address in the
/// traversal's termination measure.
spec fn pow3(n: nat) -> nat
    decreases n,
{
    if n == 0 {
        1
    } else {
        3 * pow3((n - 1) as nat)
    }
}

/// A positive power stays positive.
proof fn lemma_pow3_pos(n: nat)
    ensures
        pow3(n) >= 1,
    decreases n,
{
    if n > 0 {
        lemma_pow3_pos((n - 1) as nat);
    }
}

/// The weight grows with the exponent.
proof fn lemma_pow3_mono(a: nat, b: nat)
    requires
        a <= b,
    ensures
        pow3(a) <= pow3(b),
    decreases b,
{
    if a < b {
        lemma_pow3_mono(a, (b - 1) as nat);
        lemma_pow3_pos((b - 1) as nat);
    }
}

/// The termination measure of the traversal's work list: replacing a
/// concatenation by its two strictly smaller operands shrinks it.
spec fn stack_weight(stack: Seq<usize>) -> nat
    decreases stack.len(),
{
    if stack.len() == 0 {
        0
    } else {
        pow3(stack.last() as nat) + stack_weight(stack.drop_last())
    }
}

/// A caller-supplied consumer for the flattening traversal: `visit` is
/// invoked once per leaf address, and the visitor's abstract record of the
/// addresses seen so far grows by exactly that address.
pub trait ConcatenationVisitor {
    /// The addresses this visitor has been handed, in visit order.
    spec fn visited(&self) -> Seq<usize>;

    /// Consumes one leaf address.
    fn visit(&mut self, addr: usize)
        ensures
            final(self).visited() == old(self).visited().push(addr),
    ;
}

/// A visitor that simply collects the leaf addresses in order.
pub struct CollectVisitor {
    pub items: Vec<usize>,
}

impl CollectVisitor {
    /// A collector that has seen nothing yet.
    pub fn new() -> (r: CollectVisitor)
        ensures
            r.visited() == Seq::<usize>::empty(),
    {
        CollectVisitor { items: Vec::new() }
    }
}

impl ConcatenationVisitor for CollectVisitor {
    open spec fn visited(&self) -> Seq<usize> {
        self.items@
    }

    fn visit(&mut self, addr: usize) {
        self.items.push(addr);
    }
}

/// Walks the Concatenation at `concat_index` and hands every leaf address
/// under it to `item_fn`, in left-to-right logical order. Nested
/// concatenations are expanded through an explicit work list, never through
/// recursion, so the traversal's native stack depth does not grow with the
/// nesting depth; a List contributes its items as individual leaves without
/// being entered; every other value is one leaf.
pub fn iterate_concatentation<C, V: ConcatenationVisitor>(
    concat_index: usize,
    data: &Data<C>,
    item_fn: &mut V,
) -> (r: Result<(), DataError>)
    requires
        heap_wf(data@.values),
    ensures
        r is Ok <==> (concat_index < data@.values.len()
            && data@.values[concat_index as int] is Concatenation),
        r is Ok ==> final(item_fn).visited() == old(item_fn).visited() + leaf_seq(
            data@.values,
            concat_index,
        ),
        r is Err ==> final(item_fn).visited() == old(item_fn).visited() && r == Err::<
            (),
            DataError,
        >(
            if concat_index < data@.values.len() {
                DataError::WrongKind
            } else {
                DataError::AddressOutOfBounds
            },
        ),
{
    let ghost h = data@.values;
    let (current, next) = match data.get_concatenation(concat_index) {
        Ok(p) => p,
        Err(e) => {
            return Err(e);
        },
    };
    proof {
        assert(value_wf(h[concat_index as int], concat_index as int));
        assert(leaf_seq(h, concat_index) == leaf_seq(h, current) + leaf_seq(h, next));
    }
    let mut stack: Vec<usize> = Vec::new();
    stack.push(next);
    stack.push(current);
    proof {
        let s1 = seq![next];
        assert(stack@.drop_last() =~= s1);
        assert(stack@.last() == current);
        assert(s1.drop_last() =~= Seq::<usize>::empty());
        assert(pending_leaves(h, Seq::<usize>::empty()) == Seq::<usize>::empty());
        assert(pending_leaves(h, s1) == leaf_seq(h, next) + Seq::<usize>::empty());
        assert(leaf_seq(h, next) + Seq::<usize>::empty() =~= leaf_seq(h, next));
        assert(pending_leaves(h, stack@) == leaf_seq(h, current) + leaf_seq(h, next));
    }
    while stack.len() > 0
        invariant
            heap_wf(h),
            h == data@.values,
            forall|i: int| 0 <= i < stack@.len() ==> #[trigger] stack@[i] < h.len(),
            item_fn.visited() + pending_leaves(h, stack@) == old(item_fn).visited() + leaf_seq(
                h,
                concat_index,
            ),
        decreases stack_weight(stack@),
    {
        let addr = match stack.pop() {
            Some(a) => a,
            None => {
                return Err(DataError::AddressOutOfBounds);
            },
        };
        let ghost stack0 = stack@;
        proof {
            assert(stack0.push(addr).drop_last() =~= stack0);
            assert(pending_leaves(h, stack0.push(addr)) == leaf_seq(h, addr) + pending_leaves(
                h,
                stack0,
            ));
            assert(stack_weight(stack0.push(addr)) == pow3(addr as nat) + stack_weight(stack0));
            lemma_pow3_pos(addr as nat);
        }
        let kind = match data.get_data_type(addr) {
            Ok(k) => k,
            Err(e) => {
                return Err(e);
            },
        };
        proof {
            assert(value_wf(h[addr as int], addr as int));
        }
        match kind {
            Kind::Concatenation => {
                let (c, n) = match data.get_concatenation(addr) {
                    Ok(p) => p,
                    Err(e) => {
                        return Err(e);
                    },
                };
                stack.push(n);
                stack.push(c);
                proof {
                    let s1 = stack0.push(n);
                    assert(stack@.drop_last() =~= s1);
                    assert(stack@.last() == c);
                    assert(s1.drop_last() =~= stack0);
                    assert(s1.last() == n);
                    assert(pending_leaves(h, s1) == leaf_seq(h, n) + pending_leaves(h, stack0));
                    assert(pending_leaves(h, stack@) == leaf_seq(h, c) + pending_leaves(h, s1));
                    assert(stack_weight(s1) == pow3(n as nat) + stack_weight(stack0));
                    assert(stack_weight(stack@) == pow3(c as nat) + stack_weight(s1));
                    lemma_pow3_mono(c as nat, (addr - 1) as nat);
                    lemma_pow3_mono(n as nat, (addr - 1) as nat);
                    lemma_pow3_pos((addr - 1) as nat);
                    assert(pow3(addr as nat) == 3 * pow3((addr - 1) as nat));
                    assert(stack_weight(stack@) < pow3(addr as nat) + stack_weight(stack0));
                    assert(leaf_seq(h, addr) == leaf_seq(h, c) + leaf_seq(h, n));
                    assert(leaf_seq(h, c) + (leaf_seq(h, n) + pending_leaves(h, stack0))
                        =~= (leaf_seq(h, c) + leaf_seq(h, n)) + pending_leaves(h, stack0));
                }
            },
            Kind::List => {
                let len = match data.get_list_len(addr) {
                    Ok(n) => n,
                    Err(e) => {
                        return Err(e);
                    },
                };
                let ghost items = h[addr as int]->List_0@;
                let ghost visited0 = item_fn.visited();
                let mut i: usize = 0;
                while i < len
                    invariant
                        heap_wf(h),
                        h == data@.values,
                        addr < h.len(),
                        h[addr as int] is List,
                        items == h[addr as int]->List_0@,
                        len == items.len(),
                        i <= len,
                        item_fn.visited() == visited0 + items.take(i as int),
                    decreases len - i,
                {
                    let item = match data.get_list_item(addr, i) {
                        Ok(a) => a,
                        Err(e) => {
                            return Err(e);
                        },
                    };
                    item_fn.visit(item);
                    proof {
                        assert((visited0 + items.take(i as int)).push(item) =~= visited0
                            + items.take(i + 1));
                    }
                    i = i + 1;
                }
                proof {
                    assert(items.take(len as int) =~= items);
                    assert(leaf_seq(h, addr) == items);
                    assert((visited0 + items) + pending_leaves(h, stack0) =~= visited0 + (items
                        + pending_leaves(h, stack0)));
                    assert(visited0 + (leaf_seq(h, addr) + pending_leaves(h, stack0)) =~= (visited0
                        + leaf_seq(h, addr)) + pending_leaves(h, stack0));
                }
            },
            _ => {
                let ghost v0 = item_fn.visited();
                item_fn.visit(addr);
                proof {
                    assert(leaf_seq(h, addr) =~= seq![addr]);
                    assert(v0.push(addr) =~= v0 + leaf_seq(h, addr));
                    assert((v0 + leaf_seq(h, addr)) + pending_leaves(h, stack0) =~= v0 + (leaf_seq(
                        h,
                        addr,
                    ) + pending_leaves(h, stack0)));
                }
            },
        }
    }
    proof {
        assert(pending_leaves(h, stack@) == Seq::<usize>::empty());
        assert(item_fn.visited() + Seq::<usize>::empty() =~= item_fn.visited());
    }
    Ok(())
}

} // verus!
