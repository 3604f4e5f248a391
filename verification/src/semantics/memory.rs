//! Where the elements of tensors lie.

use crate::dtype::DType;
use crate::tensor::{all_nonzero, shape_product, TensorView};
use vstd::prelude::*;

verus! {

/// A tensor has a shape without a zero, as every allocated one does.
pub open spec fn allocated(tensor: TensorView) -> bool {
    tensor.shape.len() > 0 && all_nonzero(tensor.shape)
}

/// The position of an element in a row-major shape.
pub open spec fn position(shape: Seq<u32>, index: Seq<int>) -> int
    decreases shape.len(),
{
    if shape.len() == 0 {
        0
    } else {
        position(shape.drop_last(), index.drop_last()) * shape.last() + index.last()
    }
}

/// Whether an index names an element of a shape.
pub open spec fn names(shape: Seq<u32>, index: Seq<int>) -> bool {
    &&& index.len() == shape.len()
    &&& forall|i: int| 0 <= i < shape.len() ==> 0 <= #[trigger] index[i] < shape[i]
}

/// The address of the element at a position of a tensor's storage.
pub open spec fn at(tensor: TensorView, position: int) -> int {
    tensor.buffer.address + (match tensor.dtype {
        DType::F32 => 4int,
        DType::F16 => 2,
    }) * position
}

/// The address of an element of a tensor.
pub open spec fn element(tensor: TensorView, index: Seq<int>) -> int {
    at(tensor, position(tensor.shape, index))
}

/// `groups` workgroups of `each` items cover `items`, and no workgroup is
/// idle.
pub open spec fn covers(groups: int, each: int, items: int) -> bool {
    &&& items <= groups * each
    &&& groups > 0 ==> (groups - 1) * each < items
}

pub(crate) proof fn lemma_covers(items: int, each: int)
    requires
        items >= 0,
        each > 0,
    ensures
        covers(crate::arith::ceil_div(items, each), each, items),
        0 <= crate::arith::ceil_div(items, each) <= items,
{
    crate::arith::lemma_ceil_div(items, each);
    let g = crate::arith::ceil_div(items, each);
    assert((g - 1) * each == g * each - each) by (nonlinear_arith);
}

/// A tensor is a stack of rows over its last dimension.
pub(crate) proof fn lemma_rows(tensor: TensorView)
    requires
        allocated(tensor),
    ensures
        tensor.shape.last() > 0,
        tensor.len() as int / tensor.shape.last() as int * tensor.shape.last() == tensor.len(),
        tensor.len() > 0,
{
    let n = tensor.shape.last() as int;
    assert(tensor.shape[tensor.shape.len() - 1] != 0);
    let front = shape_product(tensor.shape.drop_last()) as int;
    assert(tensor.len() == front * n);
    vstd::arithmetic::div_mod::lemma_div_multiples_vanish(front, n);
    assert(front * n == n * front) by (nonlinear_arith);
    crate::tensor::lemma_numel_result(tensor.shape);
}

pub(crate) proof fn lemma_rank1(shape: Seq<u32>, x: int)
    requires
        shape.len() == 1,
    ensures
        position(shape, seq![x]) == x,
        shape_product(shape) == shape[0],
{
    assert(shape.drop_last() =~= Seq::empty());
    reveal_with_fuel(position, 2);
    reveal_with_fuel(shape_product, 2);
    assert(seq![x].drop_last() =~= Seq::empty());
    assert(0 * shape.last() == 0);
    assert(1 * shape.last() == shape[0]) by (nonlinear_arith)
        requires
            shape.last() == shape[0],
    ;
}

pub(crate) proof fn lemma_rank2(shape: Seq<u32>, x: int, y: int)
    requires
        shape.len() == 2,
    ensures
        position(shape, seq![x, y]) == x * shape[1] + y,
        shape_product(shape) == shape[0] * shape[1],
{
    lemma_rank1(shape.drop_last(), x);
    assert(seq![x, y].drop_last() =~= seq![x]);
}

pub(crate) proof fn lemma_rank3(shape: Seq<u32>, x: int, y: int, z: int)
    requires
        shape.len() == 3,
    ensures
        position(shape, seq![x, y, z]) == (x * shape[1] + y) * shape[2] + z,
        shape_product(shape) == shape[0] * shape[1] * shape[2],
{
    lemma_rank2(shape.drop_last(), x, y);
    assert(seq![x, y, z].drop_last() =~= seq![x, y]);
}

/// Groups are enough exactly where they cover the items.
pub(crate) proof fn lemma_groups_enough(items: int, each: int, groups: int)
    requires
        items >= 0,
        each > 0,
        groups >= 0,
    ensures
        crate::arith::ceil_div(items, each) <= groups <==> items <= groups * each,
{
    crate::arith::lemma_ceil_div(items, each);
    let g = crate::arith::ceil_div(items, each);
    if g <= groups {
        assert(g * each <= groups * each) by (nonlinear_arith)
            requires
                g <= groups,
                each > 0,
        ;
    } else {
        assert(groups * each + each <= g * each) by (nonlinear_arith)
            requires
                groups + 1 <= g,
                each > 0,
        ;
    }
}

/// Different elements of a shape have different positions, and every position
/// lies inside the storage.
pub proof fn positions_are_distinct(shape: Seq<u32>, one: Seq<int>, other: Seq<int>)
    requires
        names(shape, one),
        names(shape, other),
    ensures
        0 <= position(shape, one) < shape_product(shape),
        position(shape, one) == position(shape, other) ==> one == other,
    decreases shape.len(),
{
    if shape.len() == 0 {
        assert(one =~= other);
    } else {
        let front = shape.drop_last();
        let (a, b) = (one.drop_last(), other.drop_last());
        assert forall|i: int| 0 <= i < front.len() implies 0 <= #[trigger] a[i] < front[i] by {
            assert(0 <= one[i] < shape[i]);
        }
        assert forall|i: int| 0 <= i < front.len() implies 0 <= #[trigger] b[i] < front[i] by {
            assert(0 <= other[i] < shape[i]);
        }
        positions_are_distinct(front, a, b);
        let n = shape.last() as int;
        let (p, q) = (position(front, a), position(front, b));
        let (x, y) = (one.last(), other.last());
        assert(0 <= one[shape.len() - 1] < shape[shape.len() - 1]);
        assert(0 <= other[shape.len() - 1] < shape[shape.len() - 1]);
        let c = shape_product(front) as int;
        assert(0 <= p * n + x < c * n) by (nonlinear_arith)
            requires
                0 <= p < c,
                0 <= x < n,
        ;
        if p * n + x == q * n + y {
            assert(p == q) by (nonlinear_arith)
                requires
                    p * n + x == q * n + y,
                    0 <= x < n,
                    0 <= y < n,
            ;
            assert(one =~= a.push(x));
            assert(other =~= b.push(y));
        }
    }
}

} // verus!
