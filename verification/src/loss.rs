use vstd::prelude::*;

use crate::linalg::ColumnVector;
use crate::linalg::fold_chain;

verus! {

/// A batch of buffers, as a sequence of scalar sequences.
pub open spec fn batch_views<T>(v: Seq<ColumnVector<T>>) -> Seq<Seq<T>> {
    Seq::new(v.len(), |k: int| v[k]@)
}

/// Holds when the three witness sequences record one admissible mean
/// squared error accumulation over the paired batches: `diffs[k]` is the
/// element-wise difference of sample `k`'s two buffers, `magsqs[k]` its
/// squared magnitude (the multiply-accumulate fold of the difference
/// against itself, from `zero`), and `accs` the running sums, starting at
/// `zero` and growing by one squared magnitude per sample.
pub open spec fn mse_accumulation_ok<T, FS: Fn(T, T) -> T, FM: Fn(T, T) -> T, FA: Fn(T, T) -> T>(
    sub_op: FS,
    mul_op: FM,
    add_op: FA,
    zero: T,
    outs: Seq<Seq<T>>,
    desireds: Seq<Seq<T>>,
    diffs: Seq<Seq<T>>,
    magsqs: Seq<T>,
    accs: Seq<T>,
) -> bool {
    let count = outs.len();
    &&& desireds.len() == count
    &&& diffs.len() == count
    &&& magsqs.len() == count
    &&& accs.len() == count + 1
    &&& accs[0] == zero
    &&& forall|k: int|
        0 <= k < count ==> {
            &&& (#[trigger] diffs[k]).len() == outs[k].len()
            &&& (forall|i: int|
                0 <= i < outs[k].len() ==> call_ensures(
                    sub_op,
                    (outs[k][i], desireds[k][i]),
                    #[trigger] diffs[k][i],
                ))
            &&& fold_chain(mul_op, add_op, diffs[k], diffs[k], zero, magsqs[k])
            &&& call_ensures(add_op, (accs[k], magsqs[k]), accs[k + 1])
        }
}

/// Holds when `r` is an admissible scaled mean squared error of the two
/// batches: some accumulation as above ends in a final sum to which
/// `scale_op` was applied together with the sample count.
pub open spec fn mse_rel<
    T,
    FS: Fn(T, T) -> T,
    FM: Fn(T, T) -> T,
    FA: Fn(T, T) -> T,
    FD: Fn(T, usize) -> T,
>(
    sub_op: FS,
    mul_op: FM,
    add_op: FA,
    scale_op: FD,
    zero: T,
    outs: Seq<Seq<T>>,
    desireds: Seq<Seq<T>>,
    r: T,
) -> bool {
    exists|diffs: Seq<Seq<T>>, magsqs: Seq<T>, accs: Seq<T>|
        #[trigger] mse_accumulation_ok(sub_op, mul_op, add_op, zero, outs, desireds, diffs, magsqs, accs)
            && call_ensures(scale_op, (accs[outs.len() as int], outs.len() as usize), r)
}

/// Scaled mean squared error of a batch: for each paired sample the
/// element-wise difference is written into one shared scratch buffer, its
/// squared magnitude accumulated, and the final sum handed to `scale_op`
/// with the sample count (conventionally dividing by twice the count). The
/// batches must pair up: equal counts, at least one sample, and every
/// buffer as wide as the first output buffer, which sizes the scratch
/// buffer.
pub fn mean_square_error<
    T: Copy,
    FS: Fn(T, T) -> T,
    FM: Fn(T, T) -> T,
    FA: Fn(T, T) -> T,
    FD: Fn(T, usize) -> T,
>(
    output_vectors: Vec<ColumnVector<T>>,
    desired_output_vectors: Vec<ColumnVector<T>>,
    sub_op: &FS,
    mul_op: &FM,
    add_op: &FA,
    scale_op: &FD,
    zero: T,
) -> (r: T)
    requires
        forall|a: T, b: T| #[trigger] call_requires(*sub_op, (a, b)),
        forall|a: T, b: T| #[trigger] call_requires(*mul_op, (a, b)),
        forall|a: T, b: T| #[trigger] call_requires(*add_op, (a, b)),
        forall|a: T, n: usize| #[trigger] call_requires(*scale_op, (a, n)),
        output_vectors@.len() >= 1,
        desired_output_vectors@.len() == output_vectors@.len(),
        forall|k: int|
            0 <= k < output_vectors@.len() ==> (#[trigger] output_vectors@[k])@.len()
                == output_vectors@[0]@.len(),
        forall|k: int|
            0 <= k < desired_output_vectors@.len() ==> (#[trigger] desired_output_vectors@[k])@.len()
                == output_vectors@[0]@.len(),
    ensures
        mse_rel(
            *sub_op,
            *mul_op,
            *add_op,
            *scale_op,
            zero,
            batch_views(output_vectors@),
            batch_views(desired_output_vectors@),
            r,
        ),
{
    let mut acc: T = zero;
    let width = output_vectors[0].data.len();
    let mut result = ColumnVector::new_with_elements(width, zero);
    let count = output_vectors.len();
    let ghost outs = batch_views(output_vectors@);
    let ghost desireds = batch_views(desired_output_vectors@);
    let ghost mut diffs: Seq<Seq<T>> = Seq::empty();
    let ghost mut magsqs: Seq<T> = Seq::empty();
    let ghost mut accs: Seq<T> = seq![zero];
    let mut k: usize = 0;
    while k < count
        invariant
            k <= count,
            count == output_vectors@.len(),
            count >= 1,
            desired_output_vectors@.len() == count,
            width == output_vectors@[0]@.len(),
            result@.len() == width,
            forall|a: T, b: T| #[trigger] call_requires(*sub_op, (a, b)),
            forall|a: T, b: T| #[trigger] call_requires(*mul_op, (a, b)),
            forall|a: T, b: T| #[trigger] call_requires(*add_op, (a, b)),
            forall|i: int|
                0 <= i < count ==> (#[trigger] output_vectors@[i])@.len() == width,
            forall|i: int|
                0 <= i < count ==> (#[trigger] desired_output_vectors@[i])@.len() == width,
            outs == batch_views(output_vectors@),
            desireds == batch_views(desired_output_vectors@),
            diffs.len() == k,
            magsqs.len() == k,
            accs.len() == k + 1,
            accs[0] == zero,
            accs[k as int] == acc,
            forall|i: int|
                0 <= i < k ==> {
                    &&& (#[trigger] diffs[i]).len() == outs[i].len()
                    &&& (forall|j: int|
                        0 <= j < outs[i].len() ==> call_ensures(
                            *sub_op,
                            (outs[i][j], desireds[i][j]),
                            #[trigger] diffs[i][j],
                        ))
                    &&& fold_chain(*mul_op, *add_op, diffs[i], diffs[i], zero, magsqs[i])
                    &&& call_ensures(*add_op, (accs[i], magsqs[i]), accs[i + 1])
                },
        decreases count - k,
    {
        output_vectors[k]._sub(&desired_output_vectors[k], &mut result, sub_op);
        let m = result.magnitude_squared(mul_op, add_op, zero);
        let acc2 = add_op(acc, m);
        proof {
            diffs = diffs.push(result@);
            magsqs = magsqs.push(m);
            accs = accs.push(acc2);
        }
        acc = acc2;
        k = k + 1;
    }
    let r = scale_op(acc, count);
    proof {
        assert(mse_accumulation_ok(
            *sub_op,
            *mul_op,
            *add_op,
            zero,
            outs,
            desireds,
            diffs,
            magsqs,
            accs,
        ));
    }
    r
}

} // verus!
