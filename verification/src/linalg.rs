use vstd::prelude::*;

verus! {

/// Holds when `result` can be reached from `acc` by folding
/// `acc = add_op(acc, mul_op(xs[i], ys[i]))` over the two sequences from left to
/// right, where each step takes some value the combining functions could
/// have returned. With deterministic combiners this pins the fold result;
/// in general it relates the result to one admissible chain of partial sums.
pub open spec fn fold_chain<T, FM: Fn(T, T) -> T, FA: Fn(T, T) -> T>(
    mul_op: FM,
    add_op: FA,
    xs: Seq<T>,
    ys: Seq<T>,
    acc: T,
    result: T,
) -> bool
    decreases xs.len(),
{
    if xs.len() == 0 {
        result == acc
    } else {
        exists|p: T, a2: T|
            call_ensures(mul_op, (xs[0], ys[0]), p) && #[trigger] call_ensures(add_op, (acc, p), a2)
                && fold_chain(mul_op, add_op, xs.skip(1), ys.skip(1), a2, result)
    }
}

/// Extending a fold chain by one multiply-accumulate step extends the
/// sequences it covers by one element.
pub proof fn lemma_fold_chain_push<T, FM: Fn(T, T) -> T, FA: Fn(T, T) -> T>(
    mul_op: FM,
    add_op: FA,
    xs: Seq<T>,
    ys: Seq<T>,
    acc: T,
    mid: T,
    x: T,
    y: T,
    p: T,
    last: T,
)
    requires
        xs.len() == ys.len(),
        fold_chain(mul_op, add_op, xs, ys, acc, mid),
        call_ensures(mul_op, (x, y), p),
        call_ensures(add_op, (mid, p), last),
    ensures
        fold_chain(mul_op, add_op, xs.push(x), ys.push(y), acc, last),
    decreases xs.len(),
{
    if xs.len() == 0 {
        assert(xs.push(x).skip(1) =~= Seq::<T>::empty());
        assert(ys.push(y).skip(1) =~= Seq::<T>::empty());
        assert(acc == mid);
        assert(xs.push(x)[0] == x);
        assert(ys.push(y)[0] == y);
        assert(fold_chain(mul_op, add_op, xs.push(x).skip(1), ys.push(y).skip(1), last, last));
        assert(call_ensures(mul_op, (xs.push(x)[0], ys.push(y)[0]), p) && call_ensures(
            add_op,
            (acc, p),
            last,
        ));
    } else {
        let (p0, a2) = choose|p0: T, a2: T|
            call_ensures(mul_op, (xs[0], ys[0]), p0) && #[trigger] call_ensures(add_op, (acc, p0), a2)
                && fold_chain(mul_op, add_op, xs.skip(1), ys.skip(1), a2, mid);
        lemma_fold_chain_push(mul_op, add_op, xs.skip(1), ys.skip(1), a2, mid, x, y, p, last);
        assert(xs.push(x).skip(1) =~= xs.skip(1).push(x));
        assert(ys.push(y).skip(1) =~= ys.skip(1).push(y));
        assert(xs.push(x)[0] == xs[0]);
        assert(ys.push(y)[0] == ys[0]);
        assert(call_ensures(mul_op, (xs.push(x)[0], ys.push(y)[0]), p0) && call_ensures(
            add_op,
            (acc, p0),
            a2,
        ) && fold_chain(mul_op, add_op, xs.push(x).skip(1), ys.push(y).skip(1), a2, last));
    }
}

/// Dense one-dimensional buffer of scalar values. The element type is left
/// abstract: the scalar arithmetic of the hosting application is injected
/// into the operations that need it, one combining function per call.
pub struct ColumnVector<T> {
    pub data: Vec<T>,
}

impl<T> View for ColumnVector<T> {
    type V = Seq<T>;

    open spec fn view(&self) -> Seq<T> {
        self.data@
    }
}

/// Dense two-dimensional grid of scalar values, row-major: `data[r][c]` is
/// the entry in row `r`, column `c`.
pub struct Matrix<T> {
    pub data: Vec<Vec<T>>,
}

impl<T> Matrix<T> {
    /// The grid as a sequence of rows.
    pub open spec fn entries(&self) -> Seq<Seq<T>> {
        Seq::new(self.data@.len(), |i: int| self.data@[i]@)
    }

    pub open spec fn rows(&self) -> nat {
        self.data@.len()
    }

    /// The width of the first row; the column count of a well-shaped matrix.
    pub open spec fn cols(&self) -> nat {
        if self.data@.len() == 0 {
            0
        } else {
            self.data@[0]@.len()
        }
    }

    /// Every row has the width of the first: the grid is rectangular.
    pub open spec fn rectangular(&self) -> bool {
        forall|i: int| 0 <= i < self.entries().len() ==> #[trigger] self.entries()[i].len() == self.cols()
    }
}

impl<T: Copy> ColumnVector<T> {
    /// A buffer of `len` copies of `value`.
    pub fn new_with_elements(len: usize, value: T) -> (r: ColumnVector<T>)
        ensures
            r@.len() == len,
            forall|i: int| 0 <= i < len ==> r@[i] == value,
    {
        let mut data: Vec<T> = Vec::new();
        let mut k: usize = 0;
        while k < len
            invariant
                k <= len,
                data@.len() == k,
                forall|i: int| 0 <= i < k ==> data@[i] == value,
            decreases len - k,
        {
            data.push(value);
            k = k + 1;
        }
        ColumnVector { data }
    }

    /// A buffer of `len` values drawn one by one from `generator`. Nothing
    /// more is known of each element than that the generator could have
    /// returned it.
    pub fn new_with_number_generator<F: Fn() -> T>(len: usize, generator: &F) -> (r: ColumnVector<T>)
        requires
            call_requires(*generator, ()),
        ensures
            r@.len() == len,
            forall|i: int| 0 <= i < len ==> call_ensures(*generator, (), #[trigger] r@[i]),
    {
        let mut data: Vec<T> = Vec::new();
        let mut k: usize = 0;
        while k < len
            invariant
                k <= len,
                data@.len() == k,
                call_requires(*generator, ()),
                forall|i: int| 0 <= i < k ==> call_ensures(*generator, (), #[trigger] data@[i]),
            decreases len - k,
        {
            let value = generator();
            data.push(value);
            k = k + 1;
        }
        ColumnVector { data }
    }

    /// Element-wise difference of `self` and `other`, written into the
    /// caller-supplied buffer `result`, which must already have the right
    /// length. The scalar subtraction is supplied by the caller.
    pub fn _sub<FS: Fn(T, T) -> T>(&self, other: &ColumnVector<T>, result: &mut ColumnVector<T>, sub_op: &FS)
        requires
            forall|a: T, b: T| #[trigger] call_requires(*sub_op, (a, b)),
            self@.len() == other@.len(),
            old(result)@.len() == self@.len(),
        ensures
            final(result)@.len() == self@.len(),
            forall|i: int|
                0 <= i < self@.len() ==> call_ensures(*sub_op, (self@[i], other@[i]), #[trigger] final(result)@[i]),
    {
        let n = self.data.len();
        let mut k: usize = 0;
        while k < n
            invariant
                k <= n,
                n == self@.len(),
                other@.len() == n,
                result@.len() == n,
                forall|a: T, b: T| #[trigger] call_requires(*sub_op, (a, b)),
                forall|i: int|
                    0 <= i < k ==> call_ensures(*sub_op, (self@[i], other@[i]), #[trigger] result@[i]),
            decreases n - k,
        {
            let d = sub_op(self.data[k], other.data[k]);
            result.data[k] = d;
            k = k + 1;
        }
    }

    /// Adds `other` into `self`, element by element, with the scalar
    /// addition supplied by the caller.
    pub fn add_in_place<FA: Fn(T, T) -> T>(&mut self, other: &ColumnVector<T>, add_op: &FA)
        requires
            forall|a: T, b: T| #[trigger] call_requires(*add_op, (a, b)),
            old(self)@.len() == other@.len(),
        ensures
            final(self)@.len() == old(self)@.len(),
            forall|i: int|
                0 <= i < old(self)@.len() ==> call_ensures(*add_op, (old(self)@[i], other@[i]), #[trigger] final(self)@[i]),
    {
        let n = self.data.len();
        let ghost orig = self@;
        let mut k: usize = 0;
        while k < n
            invariant
                k <= n,
                n == orig.len(),
                other@.len() == n,
                self@.len() == n,
                forall|a: T, b: T| #[trigger] call_requires(*add_op, (a, b)),
                forall|i: int| k <= i < n ==> self@[i] == orig[i],
                forall|i: int|
                    0 <= i < k ==> call_ensures(*add_op, (orig[i], other@[i]), #[trigger] self@[i]),
            decreases n - k,
        {
            let s = add_op(self.data[k], other.data[k]);
            self.data[k] = s;
            k = k + 1;
        }
    }

    /// Sum of the squares of the entries: the fold of
    /// `acc = add_op(acc, mul_op(v[i], v[i]))` starting from `zero`, with the
    /// scalar operations supplied by the caller.
    pub fn magnitude_squared<FM: Fn(T, T) -> T, FA: Fn(T, T) -> T>(&self, mul_op: &FM, add_op: &FA, zero: T) -> (r: T)
        requires
            forall|a: T, b: T| #[trigger] call_requires(*mul_op, (a, b)),
            forall|a: T, b: T| #[trigger] call_requires(*add_op, (a, b)),
        ensures
            fold_chain(*mul_op, *add_op, self@, self@, zero, r),
    {
        let n = self.data.len();
        let mut acc: T = zero;
        let mut k: usize = 0;
        while k < n
            invariant
                k <= n,
                n == self@.len(),
                forall|a: T, b: T| #[trigger] call_requires(*mul_op, (a, b)),
                forall|a: T, b: T| #[trigger] call_requires(*add_op, (a, b)),
                fold_chain(*mul_op, *add_op, self@.take(k as int), self@.take(k as int), zero, acc),
            decreases n - k,
        {
            let p = mul_op(self.data[k], self.data[k]);
            let acc2 = add_op(acc, p);
            proof {
                lemma_fold_chain_push(*mul_op, *add_op, self@.take(k as int), self@.take(k as int), zero, acc, self@[k as int], self@[k as int], p, acc2);
                assert(self@.take(k as int).push(self@[k as int]) =~= self@.take(k + 1));
            }
            acc = acc2;
            k = k + 1;
        }
        proof {
            assert(self@.take(n as int) =~= self@);
        }
        acc
    }

    /// The product of `self`, read as a row of scalars, with `matrix`:
    /// entry `j` of the result is the multiply-accumulate fold of row `j`
    /// of the matrix against `self`. The result is written into the
    /// caller-supplied buffer `result`, which must already have one slot
    /// per matrix row.
    pub fn _mul_matrix<FM: Fn(T, T) -> T, FA: Fn(T, T) -> T>(
        &self,
        matrix: &Matrix<T>,
        result: &mut ColumnVector<T>,
        mul_op: &FM,
        add_op: &FA,
        zero: T,
    )
        requires
            forall|a: T, b: T| #[trigger] call_requires(*mul_op, (a, b)),
            forall|a: T, b: T| #[trigger] call_requires(*add_op, (a, b)),
            matrix.rectangular(),
            self@.len() == matrix.cols(),
            old(result)@.len() == matrix.rows(),
        ensures
            final(result)@.len() == matrix.rows(),
            forall|j: int|
                0 <= j < matrix.rows() ==> fold_chain(*mul_op, *add_op, matrix.entries()[j], self@, zero, #[trigger] final(result)@[j]),
    {
        let rows = matrix.data.len();
        let mut j: usize = 0;
        while j < rows
            invariant
                j <= rows,
                rows == matrix.rows(),
                matrix.rectangular(),
                self@.len() == matrix.cols(),
                result@.len() == rows,
                forall|a: T, b: T| #[trigger] call_requires(*mul_op, (a, b)),
                forall|a: T, b: T| #[trigger] call_requires(*add_op, (a, b)),
                forall|i: int|
                    0 <= i < j ==> fold_chain(*mul_op, *add_op, matrix.entries()[i], self@, zero, #[trigger] result@[i]),
            decreases rows - j,
        {
            let row = &matrix.data[j];
            let cols = row.len();
            proof {
                assert(matrix.entries()[j as int].len() == matrix.cols());
            }
            let mut acc: T = zero;
            let mut k: usize = 0;
            while k < cols
                invariant
                    k <= cols,
                    j < rows,
                    rows == matrix.rows(),
                    cols == row@.len(),
                    row@ == matrix.entries()[j as int],
                    cols == self@.len(),
                    forall|a: T, b: T| #[trigger] call_requires(*mul_op, (a, b)),
                    forall|a: T, b: T| #[trigger] call_requires(*add_op, (a, b)),
                    fold_chain(*mul_op, *add_op, row@.take(k as int), self@.take(k as int), zero, acc),
                decreases cols - k,
            {
                let p = mul_op(row[k], self.data[k]);
                let acc2 = add_op(acc, p);
                proof {
                    lemma_fold_chain_push(*mul_op, *add_op, row@.take(k as int), self@.take(k as int), zero, acc, row@[k as int], self@[k as int], p, acc2);
                    assert(row@.take(k as int).push(row@[k as int]) =~= row@.take(k + 1));
                    assert(self@.take(k as int).push(self@[k as int]) =~= self@.take(k + 1));
                }
                acc = acc2;
                k = k + 1;
            }
            proof {
                assert(row@.take(cols as int) =~= row@);
                assert(self@.take(cols as int) =~= self@);
            }
            result.data[j] = acc;
            j = j + 1;
        }
    }
}

impl<T: Copy> Matrix<T> {
    /// A `rows` by `cols` grid with every entry equal to `value`.
    pub fn new_with_elements(rows: usize, cols: usize, value: T) -> (r: Matrix<T>)
        ensures
            r.rows() == rows,
            r.cols() == if rows == 0 { 0nat } else { cols as nat },
            r.rectangular(),
            forall|i: int, j: int|
                0 <= i < rows && 0 <= j < cols ==> r.entries()[i][j] == value,
    {
        let mut data: Vec<Vec<T>> = Vec::new();
        let mut k: usize = 0;
        while k < rows
            invariant
                k <= rows,
                data@.len() == k,
                forall|i: int| 0 <= i < k ==> #[trigger] data@[i]@.len() == cols,
                forall|i: int, j: int|
                    0 <= i < k && 0 <= j < cols ==> data@[i]@[j] == value,
            decreases rows - k,
        {
            let row = ColumnVector::new_with_elements(cols, value);
            data.push(row.data);
            k = k + 1;
        }
        Matrix { data }
    }

    /// A `rows` by `cols` grid with every entry drawn one by one from
    /// `generator`.
    pub fn new_with_number_generate<F: Fn() -> T>(rows: usize, cols: usize, generator: &F) -> (r: Matrix<T>)
        requires
            call_requires(*generator, ()),
        ensures
            r.rows() == rows,
            r.cols() == if rows == 0 { 0nat } else { cols as nat },
            r.rectangular(),
            forall|i: int, j: int|
                0 <= i < rows && 0 <= j < cols ==> call_ensures(*generator, (), #[trigger] r.entries()[i][j]),
    {
        let mut data: Vec<Vec<T>> = Vec::new();
        let mut k: usize = 0;
        while k < rows
            invariant
                k <= rows,
                data@.len() == k,
                call_requires(*generator, ()),
                forall|i: int| 0 <= i < k ==> #[trigger] data@[i]@.len() == cols,
                forall|i: int, j: int|
                    0 <= i < k && 0 <= j < cols ==> call_ensures(*generator, (), #[trigger] data@[i]@[j]),
            decreases rows - k,
        {
            let row = ColumnVector::new_with_number_generator(cols, generator);
            data.push(row.data);
            k = k + 1;
        }
        Matrix { data }
    }

    /// The `n` by `n` grid with `one` on the diagonal and `zero` elsewhere.
    /// The two distinguished scalar values are supplied by the caller, since
    /// the element type is abstract here.
    pub fn identity(n: usize, zero: T, one: T) -> (r: Matrix<T>)
        ensures
            r.rows() == n,
            r.cols() == n,
            r.rectangular(),
            forall|i: int, j: int|
                0 <= i < n && 0 <= j < n ==> r.entries()[i][j] == (if i == j { one } else { zero }),
    {
        let mut data: Vec<Vec<T>> = Vec::new();
        let mut k: usize = 0;
        while k < n
            invariant
                k <= n,
                data@.len() == k,
                forall|i: int| 0 <= i < k ==> #[trigger] data@[i]@.len() == n,
                forall|i: int, j: int|
                    0 <= i < k && 0 <= j < n ==> data@[i]@[j] == (if i == j { one } else { zero }),
            decreases n - k,
        {
            let mut row: Vec<T> = Vec::new();
            let mut c: usize = 0;
            while c < n
                invariant
                    c <= n,
                    row@.len() == c,
                    forall|j: int| 0 <= j < c ==> row@[j] == (if j == k { one } else { zero }),
                decreases n - c,
            {
                if c == k {
                    row.push(one);
                } else {
                    row.push(zero);
                }
                c = c + 1;
            }
            data.push(row);
            k = k + 1;
        }
        Matrix { data }
    }
}

} // verus!
