use vstd::prelude::*;

use std::collections::VecDeque;

use crate::linalg::ColumnVector;
use crate::linalg::Matrix;
use crate::linalg::fold_chain;

verus! {

/// Why a network could not be built.
#[derive(Debug, PartialEq, Eq, Structural)]
pub enum NetworkError {
    /// The layer-size sequence had fewer than two entries, so there is no
    /// layer transition to parameterize.
    TooFewLayers,
}

/// Holds when `out` is an affine image of `v` witnessed by `products`:
/// entry `j` of `products` is the multiply-accumulate fold of matrix row
/// `m[j]` against `v`, and entry `j` of `out` is an admissible result of
/// adding `b[j]` to it.
pub open spec fn affine_step_ok<T, FM: Fn(T, T) -> T, FA: Fn(T, T) -> T>(
    mul_op: FM,
    add_op: FA,
    zero: T,
    v: Seq<T>,
    m: Seq<Seq<T>>,
    b: Seq<T>,
    products: Seq<T>,
    out: Seq<T>,
) -> bool {
    &&& products.len() == m.len()
    &&& out.len() == m.len()
    &&& b.len() == m.len()
    &&& forall|j: int|
        0 <= j < m.len() ==> fold_chain(mul_op, add_op, #[trigger] m[j], v, zero, products[j])
    &&& forall|j: int|
        0 <= j < m.len() ==> call_ensures(add_op, (products[j], #[trigger] b[j]), out[j])
}

/// Holds when `out` is an affine image of `v`: adding the bias `b` to some
/// admissible multiply-accumulate product of `m` against `v` yields `out`.
pub open spec fn affine_rel<T, FM: Fn(T, T) -> T, FA: Fn(T, T) -> T>(
    mul_op: FM,
    add_op: FA,
    zero: T,
    v: Seq<T>,
    m: Seq<Seq<T>>,
    b: Seq<T>,
    out: Seq<T>,
) -> bool {
    exists|products: Seq<T>| #[trigger] affine_step_ok(mul_op, add_op, zero, v, m, b, products, out)
}

/// Holds when `layers` is a chain of per-layer activation values: it starts
/// from some input, and each next entry is an affine image of the previous
/// one under the corresponding weight matrix and bias vector.
pub open spec fn pass_rel<T, FM: Fn(T, T) -> T, FA: Fn(T, T) -> T>(
    mul_op: FM,
    add_op: FA,
    zero: T,
    ws: Seq<Seq<Seq<T>>>,
    bs: Seq<Seq<T>>,
    layers: Seq<Seq<T>>,
) -> bool {
    &&& layers.len() == ws.len() + 1
    &&& bs.len() == ws.len()
    &&& forall|i: int|
        0 <= i < ws.len() ==> #[trigger] affine_rel(
            mul_op,
            add_op,
            zero,
            layers[i],
            ws[i],
            bs[i],
            layers[i + 1],
        )
}

/// A feedforward network: one weight matrix and one bias vector per layer
/// transition, and a double-ended queue of activation-value buffers. During
/// a forward pass the two front buffers rotate: the front holds the most
/// recently computed layer, the second the layer before it.
pub struct NeuralNetwork<T> {
    pub weights: Vec<Matrix<T>>,
    pub activation_values: VecDeque<ColumnVector<T>>,
    pub biases: Vec<ColumnVector<T>>,
}

impl<T> NeuralNetwork<T> {
    /// The weight grids, as sequences of rows.
    pub open spec fn weight_entries(&self) -> Seq<Seq<Seq<T>>> {
        Seq::new(self.weights@.len(), |i: int| self.weights@[i].entries())
    }

    /// The bias buffers, as sequences of scalars.
    pub open spec fn bias_views(&self) -> Seq<Seq<T>> {
        Seq::new(self.biases@.len(), |i: int| self.biases@[i]@)
    }

    /// The shape discipline a full forward pass needs. The two front
    /// buffers rotate through the pass, so the matrix shapes must
    /// alternate: transitions at even positions map a buffer of the input's
    /// width to one of width `r`, and transitions at odd positions map back.
    /// The second buffer in the queue is overwritten first and must already
    /// have the width `r` of the first transition's output.
    pub open spec fn pass_shapes_ok(&self, input_len: nat) -> bool {
        let n = self.weights@.len();
        let r = if n == 0 {
            0nat
        } else {
            self.weights@[0].rows()
        };
        &&& self.biases@.len() == n
        &&& self.activation_values@.len() >= 1
        &&& (n > 0 ==> {
            &&& self.activation_values@.len() >= 2
            &&& self.activation_values@[1]@.len() == r
            &&& forall|i: int|
                0 <= i < n ==> {
                    &&& (#[trigger] self.weights@[i]).rectangular()
                    &&& self.weights@[i].cols() == (if i % 2 == 0 {
                        input_len
                    } else {
                        r
                    })
                    &&& self.weights@[i].rows() == (if i % 2 == 0 {
                        r
                    } else {
                        input_len
                    })
                    &&& self.biases@[i]@.len() == self.weights@[i].rows()
                }
        })
    }
}

impl<T: Copy> NeuralNetwork<T> {
    /// Assembles a network from explicit parts. Omitted biases are
    /// synthesized as `zero`-filled buffers, one per weight matrix, each as
    /// wide as that matrix's first row; omitted activation buffers likewise,
    /// one per weight matrix (note: that is one fewer than a full pass
    /// keeps, so the input-layer buffer must then be supplied before use).
    /// No shape validation is performed here; mismatched parts surface as
    /// unmet preconditions of the forward-pass operations.
    pub fn new_from_vecs(
        weights: Vec<Matrix<T>>,
        biases: Option<Vec<ColumnVector<T>>>,
        activation_values: Option<Vec<ColumnVector<T>>>,
        zero: T,
    ) -> (r: NeuralNetwork<T>)
        requires
            (biases is None || activation_values is None) ==> forall|i: int|
                0 <= i < weights@.len() ==> (#[trigger] weights@[i]).rows() > 0,
        ensures
            r.weights@ == weights@,
            match biases {
                Some(b) => r.biases@ == b@,
                None => {
                    &&& r.biases@.len() == weights@.len()
                    &&& forall|i: int|
                        0 <= i < weights@.len() ==> (#[trigger] r.biases@[i])@.len()
                            == weights@[i].cols()
                    &&& forall|i: int, j: int|
                        0 <= i < weights@.len() && 0 <= j < r.biases@[i]@.len()
                            ==> r.biases@[i]@[j] == zero
                },
            },
            match activation_values {
                Some(v) => r.activation_values@ == v@,
                None => {
                    &&& r.activation_values@.len() == weights@.len()
                    &&& forall|i: int|
                        0 <= i < weights@.len() ==> (#[trigger] r.activation_values@[i])@.len()
                            == weights@[i].cols()
                    &&& forall|i: int, j: int|
                        0 <= i < weights@.len() && 0 <= j < r.activation_values@[i]@.len()
                            ==> r.activation_values@[i]@[j] == zero
                },
            },
    {
        let amount_of_weight_matrices = weights.len();
        let built_biases: Vec<ColumnVector<T>> = match biases {
            Some(value) => value,
            None => {
                let mut acc: Vec<ColumnVector<T>> = Vec::new();
                let mut k: usize = 0;
                while k < amount_of_weight_matrices
                    invariant
                        k <= amount_of_weight_matrices,
                        amount_of_weight_matrices == weights@.len(),
                        acc@.len() == k,
                        forall|i: int|
                            0 <= i < weights@.len() ==> (#[trigger] weights@[i]).rows() > 0,
                        forall|i: int|
                            0 <= i < k ==> (#[trigger] acc@[i])@.len() == weights@[i].cols(),
                        forall|i: int, j: int|
                            0 <= i < k && 0 <= j < acc@[i]@.len() ==> acc@[i]@[j] == zero,
                    decreases amount_of_weight_matrices - k,
                {
                    let width = weights[k].data[0].len();
                    acc.push(ColumnVector::new_with_elements(width, zero));
                    k = k + 1;
                }
                acc
            },
        };
        let built_activations: VecDeque<ColumnVector<T>> = match activation_values {
            Some(values) => {
                let ghost supplied = values@;
                let mut rest = values;
                let mut acc: VecDeque<ColumnVector<T>> = VecDeque::new();
                while rest.len() > 0
                    invariant
                        acc@ + rest@ == supplied,
                    decreases rest@.len(),
                {
                    // Moving buffers over one by one keeps each buffer's
                    // original allocation.
                    acc.push_back(rest.remove(0));
                }
                proof {
                    assert(acc@ =~= supplied);
                }
                acc
            },
            None => {
                let mut acc: VecDeque<ColumnVector<T>> = VecDeque::new();
                let mut k: usize = 0;
                while k < amount_of_weight_matrices
                    invariant
                        k <= amount_of_weight_matrices,
                        amount_of_weight_matrices == weights@.len(),
                        acc@.len() == k,
                        forall|i: int|
                            0 <= i < weights@.len() ==> (#[trigger] weights@[i]).rows() > 0,
                        forall|i: int|
                            0 <= i < k ==> (#[trigger] acc@[i])@.len() == weights@[i].cols(),
                        forall|i: int, j: int|
                            0 <= i < k && 0 <= j < acc@[i]@.len() ==> acc@[i]@[j] == zero,
                    decreases amount_of_weight_matrices - k,
                {
                    let width = weights[k].data[0].len();
                    acc.push_back(ColumnVector::new_with_elements(width, zero));
                    k = k + 1;
                }
                acc
            },
        };
        NeuralNetwork { biases: built_biases, activation_values: built_activations, weights }
    }

    /// Builds a network from a layer-size sequence: one `sizes[i+1]` by
    /// `sizes[i]` weight matrix and one bias buffer of width `sizes[i+1]`
    /// per adjacent pair of sizes, and one `zero`-filled activation buffer
    /// per layer, the input layer included. With `default_value` supplied,
    /// every weight and bias entry equals it; otherwise every entry is
    /// drawn from `element_generator`, one call per entry. A sequence of
    /// fewer than two sizes describes no layer transition and is rejected.
    pub fn new<F: Fn() -> T>(
        &self,
        layer_sizes: &[usize],
        default_value: Option<T>,
        element_generator: &F,
        zero: T,
    ) -> (r: Result<NeuralNetwork<T>, NetworkError>)
        requires
            call_requires(*element_generator, ()),
        ensures
            r is Err <==> layer_sizes@.len() < 2,
            match r {
                Err(e) => e == NetworkError::TooFewLayers,
                Ok(net) => {
                    let l = layer_sizes@.len();
                    &&& net.weights@.len() == l - 1
                    &&& net.biases@.len() == l - 1
                    &&& net.activation_values@.len() == l
                    &&& forall|i: int|
                        0 <= i < l - 1 ==> {
                            &&& (#[trigger] net.weights@[i]).rows() == layer_sizes@[i + 1]
                            &&& net.weights@[i].rectangular()
                            &&& (layer_sizes@[i + 1] > 0 ==> net.weights@[i].cols()
                                == layer_sizes@[i])
                        }
                    &&& forall|i: int|
                        0 <= i < l - 1 ==> (#[trigger] net.biases@[i])@.len() == layer_sizes@[i
                            + 1]
                    &&& forall|i: int|
                        0 <= i < l ==> (#[trigger] net.activation_values@[i])@.len()
                            == layer_sizes@[i]
                    &&& forall|i: int, j: int|
                        0 <= i < l && 0 <= j < net.activation_values@[i]@.len()
                            ==> net.activation_values@[i]@[j] == zero
                    &&& match default_value {
                        Some(value) => {
                            &&& forall|i: int, j: int, k: int|
                                #![trigger net.weights@[i].entries()[j][k]]
                                0 <= i < l - 1 && 0 <= j < net.weights@[i].entries().len() && 0
                                    <= k < net.weights@[i].entries()[j].len()
                                    ==> net.weights@[i].entries()[j][k] == value
                            &&& forall|i: int, j: int|
                                #![trigger net.biases@[i]@[j]]
                                0 <= i < l - 1 && 0 <= j < net.biases@[i]@.len()
                                    ==> net.biases@[i]@[j] == value
                        },
                        None => {
                            &&& forall|i: int, j: int, k: int|
                                #![trigger net.weights@[i].entries()[j][k]]
                                0 <= i < l - 1 && 0 <= j < net.weights@[i].entries().len() && 0
                                    <= k < net.weights@[i].entries()[j].len() ==> call_ensures(
                                    *element_generator,
                                    (),
                                    net.weights@[i].entries()[j][k],
                                )
                            &&& forall|i: int, j: int|
                                #![trigger net.biases@[i]@[j]]
                                0 <= i < l - 1 && 0 <= j < net.biases@[i]@.len() ==> call_ensures(
                                    *element_generator,
                                    (),
                                    net.biases@[i]@[j],
                                )
                        },
                    }
                },
            },
    {
        if layer_sizes.len() < 2 {
            Err(NetworkError::TooFewLayers)
        } else {
            let count = layer_sizes.len() - 1;
            let mut weights: Vec<Matrix<T>> = Vec::new();
            let mut biases: Vec<ColumnVector<T>> = Vec::new();
            let mut activation_values: Vec<ColumnVector<T>> = Vec::new();
            activation_values.push(ColumnVector::new_with_elements(layer_sizes[0], zero));
            let mut index: usize = 0;
            while index < count
                invariant
                    index <= count,
                    count == layer_sizes@.len() - 1,
                    call_requires(*element_generator, ()),
                    weights@.len() == index,
                    biases@.len() == index,
                    activation_values@.len() == index + 1,
                    forall|i: int|
                        0 <= i < index ==> {
                            &&& (#[trigger] weights@[i]).rows() == layer_sizes@[i + 1]
                            &&& weights@[i].rectangular()
                            &&& (layer_sizes@[i + 1] > 0 ==> weights@[i].cols()
                                == layer_sizes@[i])
                        },
                    forall|i: int|
                        0 <= i < index ==> (#[trigger] biases@[i])@.len() == layer_sizes@[i + 1],
                    forall|i: int|
                        0 <= i <= index ==> (#[trigger] activation_values@[i])@.len()
                            == layer_sizes@[i],
                    forall|i: int, j: int|
                        0 <= i <= index && 0 <= j < activation_values@[i]@.len()
                            ==> activation_values@[i]@[j] == zero,
                    match default_value {
                        Some(value) => {
                            &&& forall|i: int, j: int, k: int|
                                #![trigger weights@[i].entries()[j][k]]
                                0 <= i < index && 0 <= j < weights@[i].entries().len() && 0 <= k
                                    < weights@[i].entries()[j].len()
                                    ==> weights@[i].entries()[j][k] == value
                            &&& forall|i: int, j: int|
                                #![trigger biases@[i]@[j]]
                                0 <= i < index && 0 <= j < biases@[i]@.len() ==> biases@[i]@[j]
                                    == value
                        },
                        None => {
                            &&& forall|i: int, j: int, k: int|
                                #![trigger weights@[i].entries()[j][k]]
                                0 <= i < index && 0 <= j < weights@[i].entries().len() && 0 <= k
                                    < weights@[i].entries()[j].len() ==> call_ensures(
                                    *element_generator,
                                    (),
                                    weights@[i].entries()[j][k],
                                )
                            &&& forall|i: int, j: int|
                                #![trigger biases@[i]@[j]]
                                0 <= i < index && 0 <= j < biases@[i]@.len() ==> call_ensures(
                                    *element_generator,
                                    (),
                                    biases@[i]@[j],
                                )
                        },
                    },
                decreases count - index,
            {
                let size = layer_sizes[index];
                let next = layer_sizes[index + 1];
                match default_value {
                    Some(value) => {
                        weights.push(Matrix::new_with_elements(next, size, value));
                        biases.push(ColumnVector::new_with_elements(next, value));
                    },
                    None => {
                        weights.push(Matrix::new_with_number_generate(next, size, element_generator));
                        biases.push(ColumnVector::new_with_number_generator(next, element_generator));
                    },
                }
                activation_values.push(ColumnVector::new_with_elements(next, zero));
                index = index + 1;
            }
            Ok(
                NeuralNetwork::new_from_vecs(
                    weights,
                    Some(biases),
                    Some(activation_values),
                    zero,
                ),
            )
        }
    }

    /// Advances the activation values across one weight/bias transition,
    /// reusing the pre-allocated buffer at the second queue position as the
    /// output rather than allocating a new one. The front buffer (the
    /// input) and the second buffer (the output target, which must already
    /// have the transition's output width) are removed; the output buffer
    /// is overwritten with the affine image of the input; both return to
    /// the front so that afterwards the front is the just-computed output,
    /// immediately followed by the original input, the output buffer's
    /// prior contents being discarded.
    #[verifier::rlimit(60)]
    pub fn _forward_pass_one_step<FM: Fn(T, T) -> T, FA: Fn(T, T) -> T>(
        &mut self,
        layer_index: usize,
        mul_op: &FM,
        add_op: &FA,
        zero: T,
    )
        requires
            forall|a: T, b: T| #[trigger] call_requires(*mul_op, (a, b)),
            forall|a: T, b: T| #[trigger] call_requires(*add_op, (a, b)),
            layer_index < old(self).weights@.len(),
            layer_index < old(self).biases@.len(),
            old(self).activation_values@.len() >= 2,
            old(self).weights@[layer_index as int].rectangular(),
            old(self).activation_values@[0]@.len() == old(self).weights@[
                layer_index as int
            ].cols(),
            old(self).activation_values@[1]@.len() == old(self).weights@[
                layer_index as int
            ].rows(),
            old(self).biases@[layer_index as int]@.len() == old(self).weights@[
                layer_index as int
            ].rows(),
        ensures
            final(self).weights == old(self).weights,
            final(self).biases == old(self).biases,
            final(self).activation_values@.len() == old(self).activation_values@.len(),
            final(self).activation_values@[1] == old(self).activation_values@[0],
            final(self).activation_values@.skip(2) == old(self).activation_values@.skip(2),
            final(self).activation_values@[0]@.len() == old(self).weights@[
                layer_index as int
            ].rows(),
            affine_rel(
                *mul_op,
                *add_op,
                zero,
                old(self).activation_values@[0]@,
                old(self).weights@[layer_index as int].entries(),
                old(self).biases@[layer_index as int]@,
                final(self).activation_values@[0]@,
            ),
    {
        let input = self.activation_values.pop_front().unwrap();
        let mut result = self.activation_values.pop_front().unwrap();
        let weights = &self.weights[layer_index];
        let bias = &self.biases[layer_index];
        input._mul_matrix(weights, &mut result, mul_op, add_op, zero);
        let ghost products = result@;
        result.add_in_place(bias, add_op);
        let ghost out_view = result@;
        proof {
            let m = old(self).weights@[layer_index as int].entries();
            let v = old(self).activation_values@[0]@;
            let b = old(self).biases@[layer_index as int]@;
            assert(affine_step_ok(*mul_op, *add_op, zero, v, m, b, products, out_view));
            assert(affine_rel(*mul_op, *add_op, zero, v, m, b, out_view));
        }
        self.activation_values.push_front(input);
        self.activation_values.push_front(result);
        proof {
            assert(self.activation_values@[0]@ == out_view);
        }
    }

    /// Runs the full forward pass: overwrites the queue's front buffer with
    /// `input`, then advances one transition per weight matrix, in order
    /// from the first to the last. Afterwards the front buffer holds the
    /// final layer's activations, witnessed by a chain of per-layer values
    /// that starts at the input; with at least one transition the second
    /// buffer holds the layer before the last, and the buffers past the
    /// front two are untouched.
    pub fn calculate_all_activation_values<FM: Fn(T, T) -> T, FA: Fn(T, T) -> T>(
        &mut self,
        input: ColumnVector<T>,
        mul_op: &FM,
        add_op: &FA,
        zero: T,
    )
        requires
            forall|a: T, b: T| #[trigger] call_requires(*mul_op, (a, b)),
            forall|a: T, b: T| #[trigger] call_requires(*add_op, (a, b)),
            old(self).pass_shapes_ok(input@.len()),
        ensures
            final(self).weights == old(self).weights,
            final(self).biases == old(self).biases,
            final(self).activation_values@.len() == old(self).activation_values@.len(),
            old(self).weights@.len() == 0 ==> final(self).activation_values@ == old(
                self,
            ).activation_values@.update(0, input),
            old(self).weights@.len() > 0 ==> final(self).activation_values@.skip(2) == old(
                self,
            ).activation_values@.skip(2),
            exists|layers: Seq<Seq<T>>|
                {
                    &&& #[trigger] pass_rel(
                        *mul_op,
                        *add_op,
                        zero,
                        old(self).weight_entries(),
                        old(self).bias_views(),
                        layers,
                    )
                    &&& layers[0] == input@
                    &&& final(self).activation_values@[0]@ == layers[old(self).weights@.len() as int]
                    &&& (old(self).weights@.len() > 0 ==> final(self).activation_values@[1]@
                        == layers[old(self).weights@.len() - 1])
                },
    {
        let ghost c = input@.len();
        let ghost r = if old(self).weights@.len() == 0 {
            0nat
        } else {
            old(self).weights@[0].rows()
        };
        let _stale = self.activation_values.pop_front();
        self.activation_values.push_front(input);
        let n = self.weights.len();
        let ghost mut layers: Seq<Seq<T>> = seq![self.activation_values@[0]@];
        if n == 0 {
            proof {
                assert(pass_rel(
                    *mul_op,
                    *add_op,
                    zero,
                    old(self).weight_entries(),
                    old(self).bias_views(),
                    layers,
                ));
            }
            return ;
        }
        let mut index: usize = 0;
        while index < n
            invariant
                index <= n,
                n == self.weights@.len(),
                n > 0,
                forall|a: T, b: T| #[trigger] call_requires(*mul_op, (a, b)),
                forall|a: T, b: T| #[trigger] call_requires(*add_op, (a, b)),
                old(self).pass_shapes_ok(c),
                c == input@.len(),
                r == old(self).weights@[0].rows(),
                self.weights == old(self).weights,
                self.biases == old(self).biases,
                self.activation_values@.len() == old(self).activation_values@.len(),
                self.activation_values@.len() >= 2,
                self.activation_values@.skip(2) == old(self).activation_values@.skip(2),
                index == 0 ==> self.activation_values@[1] == old(self).activation_values@[1],
                layers.len() == index + 1,
                layers[0] == input@,
                forall|i: int|
                    0 <= i < index ==> #[trigger] affine_rel(
                        *mul_op,
                        *add_op,
                        zero,
                        layers[i],
                        old(self).weight_entries()[i],
                        old(self).bias_views()[i],
                        layers[i + 1],
                    ),
                self.activation_values@[0]@ == layers[index as int],
                index > 0 ==> self.activation_values@[1]@ == layers[index - 1],
                self.activation_values@[0]@.len() == (if index % 2 == 0 {
                    c
                } else {
                    r
                }),
                self.activation_values@[1]@.len() == (if index % 2 == 0 {
                    r
                } else {
                    c
                }),
            decreases n - index,
        {
            self._forward_pass_one_step(index, mul_op, add_op, zero);
            proof {
                assert(old(self).weight_entries()[index as int] == old(self).weights@[
                    index as int
                ].entries());
                assert(old(self).bias_views()[index as int] == old(self).biases@[index as int]@);
                layers = layers.push(self.activation_values@[0]@);
            }
            index = index + 1;
        }
        proof {
            assert(old(self).bias_views().len() == old(self).biases@.len());
            assert(pass_rel(
                *mul_op,
                *add_op,
                zero,
                old(self).weight_entries(),
                old(self).bias_views(),
                layers,
            ));
        }
    }
}

} // verus!
