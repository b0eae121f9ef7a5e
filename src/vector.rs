use vstd::prelude::*;

verus! {

/// Largest magnitude of an `i32` feature value.
pub open spec fn feature_bound() -> int {
    0x8000_0000
}

/// Bound on `len * |w[j]|` under which a dot product with `i32` features fits.
pub open spec fn weight_budget() -> int {
    0x8000_0000_0000_0000_0000_0000
}

/// The `i32` features as mathematical integers.
pub open spec fn int_features(x: Seq<i32>) -> Seq<int> {
    x.map_values(|v: i32| v as int)
}

/// The `i128` weights as mathematical integers.
pub open spec fn int_weights(w: Seq<i128>) -> Seq<int> {
    w.map_values(|v: i128| v as int)
}

/// Sum of `x[j] * w[j]` over the first `n` positions.
pub open spec fn dot_prefix(x: Seq<int>, w: Seq<int>, n: nat) -> int
    decreases n,
{
    if n == 0 {
        0
    } else {
        dot_prefix(x, w, (n - 1) as nat) + x[n - 1] * w[n - 1]
    }
}

/// Dot product of two vectors of equal length.
pub open spec fn dot(x: Seq<int>, w: Seq<int>) -> int {
    dot_prefix(x, w, x.len())
}

/// The margin test of the Perceptron: `label * dot(x, w)` is positive.
/// A zero model gives a zero product, so it classifies nothing correctly.
pub open spec fn classifies(x: Seq<int>, label: int, w: Seq<int>) -> bool {
    label * dot(x, w) > 0
}

pub open spec fn abs(v: int) -> int {
    if v < 0 {
        -v
    } else {
        v
    }
}

/// Every weight, times the length, stays within the budget.
pub open spec fn weights_within_budget(len: nat, w: Seq<i128>) -> bool {
    forall|j: int| 0 <= j < w.len() ==> len * abs(w[j] as int) <= weight_budget()
}

proof fn lemma_term_bound(len: int, xj: int, wj: int)
    requires
        len > 0,
        abs(xj) <= feature_bound(),
        len * abs(wj) <= weight_budget(),
    ensures
        len * abs(xj * wj) <= feature_bound() * weight_budget(),
{
    assert(abs(xj * wj) == abs(xj) * abs(wj)) by (nonlinear_arith);
    assert(len * (abs(xj) * abs(wj)) == abs(xj) * (len * abs(wj))) by (nonlinear_arith);
    assert(abs(xj) * (len * abs(wj)) <= feature_bound() * weight_budget()) by (nonlinear_arith)
        requires
            0 <= abs(xj) <= feature_bound(),
            0 <= len * abs(wj) <= weight_budget(),
    ;
}

/// Dot product of a feature vector and a weight vector of the same length.
pub fn dot_product(x: &Vec<i32>, w: &Vec<i128>) -> (r: i128)
    requires
        x@.len() == w@.len(),
        weights_within_budget(x@.len(), w@),
    ensures
        r as int == dot(int_features(x@), int_weights(w@)),
{
    let n = x.len();
    let mut sum: i128 = 0;
    let mut i: usize = 0;
    assert(n * abs(0) == 0) by (nonlinear_arith);
    while i < n
        invariant
            n == x@.len(),
            n == w@.len(),
            weights_within_budget(n as nat, w@),
            0 <= i <= n,
            sum as int == dot_prefix(int_features(x@), int_weights(w@), i as nat),
            n * abs(sum as int) <= i * (feature_bound() * weight_budget()),
        decreases n - i,
    {
        let xi = x[i] as i128;
        let wi = w[i];
        proof {
            lemma_term_bound(n as int, xi as int, wi as int);
            let fw = feature_bound() * weight_budget();
            assert(n * abs(sum as int) <= i * fw);
            assert(n * abs(sum as int + xi * wi) <= n * abs(sum as int) + n * abs(xi * wi))
                by (nonlinear_arith)
                requires n > 0;
            assert(i * fw + fw == (i + 1) * fw) by (nonlinear_arith);
            assert((i + 1) * fw <= n * fw) by (nonlinear_arith)
                requires i + 1 <= n, fw > 0;
            assert(n * abs(sum as int + xi * wi) <= n * fw);
            assert(abs(sum as int + xi * wi) <= fw) by (nonlinear_arith)
                requires n * abs(sum as int + xi * wi) <= n * fw, n > 0;
            assert(abs(xi * wi) <= fw) by (nonlinear_arith)
                requires n * abs(xi * wi) <= fw, n > 0;
        }
        sum = sum + xi * wi;
        i = i + 1;
    }
    sum
}

/// Whether `label * dot(x, w) > 0`, the Perceptron's test of a correct
/// classification; a zero model classifies nothing correctly.
pub fn is_correctly_classified(x: &Vec<i32>, label: i8, w: &Vec<i128>) -> (r: bool)
    requires
        label == 1 || label == -1,
        x@.len() == w@.len(),
        weights_within_budget(x@.len(), w@),
    ensures
        r == classifies(int_features(x@), label as int, int_weights(w@)),
{
    let d = dot_product(x, w);
    assert(label as int * d == if label == 1 { d as int } else { -d }) by (nonlinear_arith)
        requires label == 1 || label == -1;
    if label == 1 {
        d > 0
    } else {
        d < 0
    }
}

/// Bound on the magnitude of a weight that can take another addition.
pub open spec fn accumulator_bound() -> int {
    0x2000_0000_0000_0000_0000_0000_0000_0000
}

/// The zero vector of length `d`.
pub open spec fn zeros(d: nat) -> Seq<int> {
    Seq::new(d, |j: int| 0)
}

/// `a + k * b`, componentwise over the length of `a`.
pub open spec fn add_scaled(a: Seq<int>, k: int, b: Seq<int>) -> Seq<int> {
    Seq::new(a.len(), |j: int| a[j] + k * b[j])
}

/// A vector of `d` zero weights.
pub fn zero_vector(d: usize) -> (r: Vec<i128>)
    ensures
        r@.len() == d,
        forall|j: int| 0 <= j < d ==> r@[j] == 0,
        int_weights(r@) == zeros(d as nat),
{
    let mut r: Vec<i128> = Vec::new();
    let mut i: usize = 0;
    while i < d
        invariant
            0 <= i <= d,
            r@.len() == i,
            forall|j: int| 0 <= j < i ==> r@[j] == 0,
        decreases d - i,
    {
        r.push(0);
        i = i + 1;
    }
    assert(int_weights(r@) =~= zeros(d as nat));
    r
}

/// Adds `label * x` to `w`, componentwise.
pub(crate) fn add_signed(w: &mut Vec<i128>, x: &Vec<i32>, label: i8)
    requires
        old(w)@.len() == x@.len(),
        label == 1 || label == -1,
        forall|j: int| 0 <= j < old(w)@.len() ==> abs(old(w)@[j] as int) <= accumulator_bound(),
    ensures
        final(w)@.len() == old(w)@.len(),
        int_weights(final(w)@) == add_scaled(int_weights(old(w)@), label as int, int_features(x@)),
{
    let n = w.len();
    let mut i: usize = 0;
    while i < n
        invariant
            n == w@.len(),
            n == old(w)@.len(),
            n == x@.len(),
            label == 1 || label == -1,
            0 <= i <= n,
            forall|j: int| i <= j < n ==> w@[j] == old(w)@[j],
            forall|j: int| 0 <= j < i ==> (w@[j] as int) == old(w)@[j] + label * x@[j],
            forall|j: int| 0 <= j < n ==> abs(old(w)@[j] as int) <= accumulator_bound(),
        decreases n - i,
    {
        let xi = x[i] as i128;
        let wi = w[i];
        if label == 1 {
            w.set(i, wi + xi);
        } else {
            w.set(i, wi - xi);
        }
        i = i + 1;
    }
    assert(int_weights(w@) =~= add_scaled(int_weights(old(w)@), label as int, int_features(x@)));
}

/// Adds `v` to `w`, componentwise.
pub(crate) fn add_assign(w: &mut Vec<i128>, v: &Vec<i128>)
    requires
        old(w)@.len() == v@.len(),
        forall|j: int| 0 <= j < old(w)@.len() ==> abs(old(w)@[j] as int) <= accumulator_bound(),
        forall|j: int| 0 <= j < v@.len() ==> abs(v@[j] as int) <= accumulator_bound(),
    ensures
        final(w)@.len() == old(w)@.len(),
        int_weights(final(w)@) == add_scaled(int_weights(old(w)@), 1, int_weights(v@)),
{
    let n = w.len();
    let mut i: usize = 0;
    while i < n
        invariant
            n == w@.len(),
            n == old(w)@.len(),
            n == v@.len(),
            0 <= i <= n,
            forall|j: int| i <= j < n ==> w@[j] == old(w)@[j],
            forall|j: int| 0 <= j < i ==> (w@[j] as int) == old(w)@[j] + v@[j],
            forall|j: int| 0 <= j < n ==> abs(old(w)@[j] as int) <= accumulator_bound(),
            forall|j: int| 0 <= j < n ==> abs(v@[j] as int) <= accumulator_bound(),
        decreases n - i,
    {
        let wi = w[i];
        let vi = v[i];
        w.set(i, wi + vi);
        i = i + 1;
    }
    assert(int_weights(w@) =~= add_scaled(int_weights(old(w)@), 1, int_weights(v@)));
}

} // verus!
