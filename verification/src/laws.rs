use vstd::prelude::*;

use crate::linalg::fold_chain;
use crate::network::affine_rel;
use crate::network::affine_step_ok;
use crate::network::pass_rel;

verus! {

/// `m` is the `n` by `n` identity grid over the given `zero` and `one`.
pub open spec fn is_identity_entries<T>(m: Seq<Seq<T>>, n: nat, zero: T, one: T) -> bool {
    &&& m.len() == n
    &&& forall|i: int| 0 <= i < n ==> (#[trigger] m[i]).len() == n
    &&& forall|i: int, j: int|
        0 <= i < n && 0 <= j < n ==> m[i][j] == (if i == j {
            one
        } else {
            zero
        })
}

/// Every entry of `b` is `x`.
pub open spec fn all_equal<T>(b: Seq<T>, x: T) -> bool {
    forall|i: int| 0 <= i < b.len() ==> b[i] == x
}

/// The injected operations treat `zero` and `one` as the scalar zero and
/// one: multiplying by `one` on the left returns the other operand,
/// multiplying by `zero` on the left returns `zero`, and adding `zero` on
/// either side returns the other operand.
pub open spec fn ops_respect_identity<T, FM: Fn(T, T) -> T, FA: Fn(T, T) -> T>(
    mul_op: FM,
    add_op: FA,
    zero: T,
    one: T,
) -> bool {
    &&& forall|x: T, r: T| #[trigger] call_ensures(mul_op, (one, x), r) ==> r == x
    &&& forall|x: T, r: T| #[trigger] call_ensures(mul_op, (zero, x), r) ==> r == zero
    &&& forall|x: T, r: T| #[trigger] call_ensures(add_op, (x, zero), r) ==> r == x
    &&& forall|x: T, r: T| #[trigger] call_ensures(add_op, (zero, x), r) ==> r == x
}

/// A multiply-accumulate fold over an all-`zero` row leaves the
/// accumulator untouched.
proof fn lemma_zero_tail_fold<T, FM: Fn(T, T) -> T, FA: Fn(T, T) -> T>(
    mul_op: FM,
    add_op: FA,
    zero: T,
    one: T,
    row: Seq<T>,
    v: Seq<T>,
    acc: T,
    result: T,
)
    requires
        ops_respect_identity(mul_op, add_op, zero, one),
        row.len() == v.len(),
        all_equal(row, zero),
        fold_chain(mul_op, add_op, row, v, acc, result),
    ensures
        result == acc,
    decreases row.len(),
{
    if row.len() != 0 {
        let (p, a2) = choose|p: T, a2: T|
            call_ensures(mul_op, (row[0], v[0]), p) && #[trigger] call_ensures(add_op, (acc, p), a2)
                && fold_chain(mul_op, add_op, row.skip(1), v.skip(1), a2, result);
        assert(p == zero);
        assert(a2 == acc);
        assert(all_equal(row.skip(1), zero));
        lemma_zero_tail_fold(mul_op, add_op, zero, one, row.skip(1), v.skip(1), acc, result);
    }
}

/// A multiply-accumulate fold from `zero` over a unit row (`one` at
/// position `j`, `zero` elsewhere) picks out `v[j]`.
proof fn lemma_unit_row_fold<T, FM: Fn(T, T) -> T, FA: Fn(T, T) -> T>(
    mul_op: FM,
    add_op: FA,
    zero: T,
    one: T,
    row: Seq<T>,
    v: Seq<T>,
    j: int,
    result: T,
)
    requires
        ops_respect_identity(mul_op, add_op, zero, one),
        row.len() == v.len(),
        0 <= j < row.len(),
        row[j] == one,
        forall|i: int| 0 <= i < row.len() && i != j ==> row[i] == zero,
        fold_chain(mul_op, add_op, row, v, zero, result),
    ensures
        result == v[j],
    decreases j,
{
    let (p, a2) = choose|p: T, a2: T|
        call_ensures(mul_op, (row[0], v[0]), p) && #[trigger] call_ensures(add_op, (zero, p), a2)
            && fold_chain(mul_op, add_op, row.skip(1), v.skip(1), a2, result);
    if j == 0 {
        assert(p == v[0]);
        assert(a2 == v[0]);
        assert(all_equal(row.skip(1), zero));
        lemma_zero_tail_fold(mul_op, add_op, zero, one, row.skip(1), v.skip(1), a2, result);
    } else {
        assert(row[0] == zero);
        assert(p == zero);
        assert(a2 == zero);
        assert(row.skip(1)[j - 1] == row[j]);
        assert(forall|i: int|
            0 <= i < row.skip(1).len() && i != j - 1 ==> #[trigger] row.skip(1)[i] == zero);
        lemma_unit_row_fold(mul_op, add_op, zero, one, row.skip(1), v.skip(1), j - 1, result);
    }
}

/// One identity transition changes nothing: an affine image of `v` under
/// the identity grid and a zero-filled bias is `v` itself, whenever the
/// injected operations respect `zero` and `one`.
pub proof fn lemma_identity_affine<T, FM: Fn(T, T) -> T, FA: Fn(T, T) -> T>(
    mul_op: FM,
    add_op: FA,
    zero: T,
    one: T,
    v: Seq<T>,
    m: Seq<Seq<T>>,
    b: Seq<T>,
    out: Seq<T>,
)
    requires
        ops_respect_identity(mul_op, add_op, zero, one),
        is_identity_entries(m, v.len(), zero, one),
        all_equal(b, zero),
        affine_rel(mul_op, add_op, zero, v, m, b, out),
    ensures
        out == v,
{
    let products = choose|products: Seq<T>|
        #[trigger] affine_step_ok(mul_op, add_op, zero, v, m, b, products, out);
    assert forall|j: int| 0 <= j < v.len() implies out[j] == v[j] by {
        assert(fold_chain(mul_op, add_op, m[j], v, zero, products[j]));
        lemma_unit_row_fold(mul_op, add_op, zero, one, m[j], v, j, products[j]);
        assert(call_ensures(add_op, (products[j], b[j]), out[j]));
        assert(b[j] == zero);
    }
    assert(out =~= v);
}

proof fn lemma_identity_pass_prefix<T, FM: Fn(T, T) -> T, FA: Fn(T, T) -> T>(
    mul_op: FM,
    add_op: FA,
    zero: T,
    one: T,
    ws: Seq<Seq<Seq<T>>>,
    bs: Seq<Seq<T>>,
    layers: Seq<Seq<T>>,
    k: int,
)
    requires
        ops_respect_identity(mul_op, add_op, zero, one),
        forall|i: int| 0 <= i < ws.len() ==> is_identity_entries(#[trigger] ws[i], layers[0].len(), zero, one),
        forall|i: int| 0 <= i < bs.len() ==> all_equal(#[trigger] bs[i], zero),
        pass_rel(mul_op, add_op, zero, ws, bs, layers),
        0 <= k < layers.len(),
    ensures
        layers[k] == layers[0],
    decreases k,
{
    if k > 0 {
        lemma_identity_pass_prefix(mul_op, add_op, zero, one, ws, bs, layers, k - 1);
        let i = k - 1;
        assert(affine_rel(mul_op, add_op, zero, layers[i], ws[i], bs[i], layers[i + 1]));
        assert(layers[i + 1] == layers[k]);
        lemma_identity_affine(
            mul_op,
            add_op,
            zero,
            one,
            layers[k - 1],
            ws[k - 1],
            bs[k - 1],
            layers[k],
        );
    }
}

/// An identity-weight pass preserves its input at every layer: when every
/// weight grid is the identity over `zero`/`one`, every bias is
/// zero-filled, and the injected operations respect `zero` and `one`,
/// every entry of an admissible chain of layer values equals the input
/// that the chain starts from.
pub proof fn lemma_identity_pass_preserves_input<T, FM: Fn(T, T) -> T, FA: Fn(T, T) -> T>(
    mul_op: FM,
    add_op: FA,
    zero: T,
    one: T,
    ws: Seq<Seq<Seq<T>>>,
    bs: Seq<Seq<T>>,
    layers: Seq<Seq<T>>,
)
    requires
        ops_respect_identity(mul_op, add_op, zero, one),
        forall|i: int| 0 <= i < ws.len() ==> is_identity_entries(#[trigger] ws[i], layers[0].len(), zero, one),
        forall|i: int| 0 <= i < bs.len() ==> all_equal(#[trigger] bs[i], zero),
        pass_rel(mul_op, add_op, zero, ws, bs, layers),
    ensures
        forall|k: int| 0 <= k < layers.len() ==> #[trigger] layers[k] == layers[0],
{
    assert forall|k: int| 0 <= k < layers.len() implies #[trigger] layers[k] == layers[0] by {
        lemma_identity_pass_prefix(mul_op, add_op, zero, one, ws, bs, layers, k);
    }
}

} // verus!
