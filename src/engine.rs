use vstd::prelude::*;

use crate::error::PerceptronError;
use crate::sample::{all_of_dimension, Sample, SampleSet};
use crate::vector::{
    abs, accumulator_bound, add_assign, add_scaled, add_signed, classifies, feature_bound,
    int_features, int_weights, is_correctly_classified, weight_budget, weights_within_budget,
    zero_vector, zeros,
};

verus! {

/// The lifecycle of an engine: samples may be added only before training.
#[derive(Debug, Clone, Copy, PartialEq, Eq, Structural)]
pub enum PerceptronState {
    Setup,
    Trained,
}

impl PerceptronState {
    /// The state's name: "Setup" or "Trained".
    pub fn name(&self) -> (r: &'static str)
        ensures
            *self == PerceptronState::Setup ==> r@ == "Setup"@,
            *self == PerceptronState::Trained ==> r@ == "Trained"@,
    {
        match self {
            PerceptronState::Setup => "Setup",
            PerceptronState::Trained => "Trained",
        }
    }
}

/// What an engine holds, as mathematical values.
pub struct PerceptronView {
    pub state: PerceptronState,
    pub dimensions: usize,
    pub samples: Seq<Sample>,
    pub model: Seq<int>,
}

/// One visit of a sample: the averaged model `avg` decides whether the sample
/// is classified correctly; on a mistake the raw weights `theta` move by
/// `label * x`; then the new raw weights are added into `avg`.
/// Returns the new raw weights, the new sum and whether the sample was correct.
pub open spec fn visit(theta: Seq<int>, avg: Seq<int>, s: Sample) -> (Seq<int>, Seq<int>, bool) {
    let x = int_features(s.data@);
    let y = s.label.spec_value();
    let ok = classifies(x, y, avg);
    let t = if ok {
        theta
    } else {
        add_scaled(theta, y, x)
    };
    (t, add_scaled(avg, 1, t), ok)
}

/// The visits of the first `n` samples, in order; the flag says that none
/// of them was a mistake.
pub open spec fn pass_prefix(samples: Seq<Sample>, theta: Seq<int>, avg: Seq<int>, n: nat) -> (
    Seq<int>,
    Seq<int>,
    bool,
)
    decreases n,
{
    if n == 0 {
        (theta, avg, true)
    } else {
        let prev = pass_prefix(samples, theta, avg, (n - 1) as nat);
        let next = visit(prev.0, prev.1, samples[n - 1]);
        (next.0, next.1, prev.2 && next.2)
    }
}

/// Up to `iterations` passes over all samples, stopping after the first pass
/// without a mistake.
pub open spec fn run(samples: Seq<Sample>, theta: Seq<int>, avg: Seq<int>, iterations: nat) -> (
    Seq<int>,
    Seq<int>,
)
    decreases iterations,
{
    if iterations == 0 {
        (theta, avg)
    } else {
        let p = pass_prefix(samples, theta, avg, samples.len());
        if p.2 {
            (p.0, p.1)
        } else {
            run(samples, p.0, p.1, (iterations - 1) as nat)
        }
    }
}

/// The trained model, from zero weights. It is the running average of the raw
/// weights (updated once per sample visited) times one more than the number
/// of visits: the same direction, and so the same classifications.
pub open spec fn trained_model(samples: Seq<Sample>, d: nat, iterations: nat) -> Seq<int> {
    run(samples, zeros(d), zeros(d), iterations).1
}

/// Training of `n` samples of dimension `d` over `iterations` passes stays
/// within the range of the engine's 128-bit accumulators.
pub open spec fn training_fits(d: nat, n: nat, iterations: nat) -> bool {
    d * ((iterations * n) * (iterations * n)) <= 0x1_0000_0000_0000_0000
}

/// After `k` visits every raw weight is at most `k` features in size and
/// every summed weight at most `k * k` features.
pub open spec fn within_steps(theta: Seq<i128>, avg: Seq<i128>, k: int) -> bool {
    &&& theta.len() == avg.len()
    &&& forall|j: int|
        0 <= j < theta.len() ==> abs(#[trigger] theta[j] as int) <= k * feature_bound() && abs(
            avg[j] as int,
        ) <= k * k * feature_bound()
}

proof fn lemma_steps_in_budget(theta: Seq<i128>, avg: Seq<i128>, k: int, t: int)
    requires
        within_steps(theta, avg, k),
        0 <= k <= t,
        theta.len() * (t * t) <= 0x1_0000_0000_0000_0000,
    ensures
        weights_within_budget(avg.len(), avg),
        forall|j: int| 0 <= j < theta.len() ==> abs(#[trigger] theta[j] as int) + feature_bound() <= accumulator_bound(),
        forall|j: int| 0 <= j < avg.len() ==> abs(#[trigger] avg[j] as int) <= accumulator_bound(),
{
    let d = avg.len() as int;
    let b = feature_bound();
    assert forall|j: int| 0 <= j < avg.len() implies d * abs(#[trigger] avg[j] as int)
        <= weight_budget() && abs(avg[j] as int) <= accumulator_bound()
        && abs(theta[j] as int) + b <= accumulator_bound() by {
        let a = abs(avg[j] as int);
        let th = abs(theta[j] as int);
        assert(d >= 1);
        assert(k * k <= t * t) by (nonlinear_arith)
            requires 0 <= k <= t;
        assert(t * t <= 0x1_0000_0000_0000_0000) by (nonlinear_arith)
            requires d * (t * t) <= 0x1_0000_0000_0000_0000, d >= 1, t >= 0;
        assert(t <= 0x1_0000_0000) by (nonlinear_arith)
            requires t * t <= 0x1_0000_0000_0000_0000, t >= 0;
        assert(d * a <= d * (t * t) * b) by (nonlinear_arith)
            requires 0 <= a <= k * k * b, k * k <= t * t, d >= 1, b > 0;
        assert(d * (t * t) * b <= 0x1_0000_0000_0000_0000 * b) by (nonlinear_arith)
            requires d * (t * t) <= 0x1_0000_0000_0000_0000, b > 0;
        assert(a <= d * a) by (nonlinear_arith)
            requires a >= 0, d >= 1;
        assert(th <= t * b) by (nonlinear_arith)
            requires 0 <= th <= k * b, k <= t, b > 0;
        assert(t * b <= 0x1_0000_0000 * b) by (nonlinear_arith)
            requires t <= 0x1_0000_0000, b > 0;
    }
}

proof fn lemma_visit_within_steps(
    theta: Seq<i128>,
    avg: Seq<i128>,
    theta2: Seq<i128>,
    avg2: Seq<i128>,
    k: int,
)
    requires
        within_steps(theta, avg, k),
        k >= 0,
        theta2.len() == theta.len(),
        avg2.len() == avg.len(),
        forall|j: int| 0 <= j < theta.len() ==> abs(theta2[j] - theta[j]) <= feature_bound(),
        forall|j: int| 0 <= j < avg.len() ==> avg2[j] == avg[j] + theta2[j],
    ensures
        within_steps(theta2, avg2, k + 1),
{
    let b = feature_bound();
    assert forall|j: int| 0 <= j < theta2.len() implies abs(#[trigger] theta2[j] as int) <= (k + 1)
        * b && abs(avg2[j] as int) <= (k + 1) * (k + 1) * b by {
        let th = abs(theta[j] as int);
        assert(abs(theta2[j] - theta[j]) <= b);
        assert(abs(theta2[j] as int) <= th + b);
        assert(th + b <= (k + 1) * b) by (nonlinear_arith)
            requires th <= k * b;
        assert(k * k * b + (k + 1) * b <= (k + 1) * (k + 1) * b) by (nonlinear_arith)
            requires k >= 0, b > 0;
    }
}

impl PerceptronView {
    pub open spec fn well_formed(self) -> bool {
        &&& self.model.len() == self.dimensions
        &&& all_of_dimension(self.samples, self.dimensions as nat)
    }

    /// What adding `batch` returns.
    pub open spec fn add_outcome(self, batch: Seq<Sample>) -> Result<(), PerceptronError> {
        if self.state != PerceptronState::Setup {
            Err(PerceptronError::InvalidOperation)
        } else if !all_of_dimension(batch, self.dimensions as nat) {
            Err(PerceptronError::DimensionMismatch(self.dimensions))
        } else {
            Ok(())
        }
    }

    /// The engine after adding `batch`: appended on success, unchanged on error.
    pub open spec fn after_add(self, batch: Seq<Sample>) -> PerceptronView {
        if self.add_outcome(batch) is Ok {
            PerceptronView { samples: self.samples + batch, ..self }
        } else {
            self
        }
    }

    /// The engine with no samples.
    pub open spec fn after_clear(self) -> PerceptronView {
        PerceptronView { samples: Seq::empty(), ..self }
    }

    /// The engine after training for at most `iterations` passes.
    pub open spec fn after_train(self, iterations: nat) -> PerceptronView {
        PerceptronView {
            state: PerceptronState::Trained,
            model: trained_model(self.samples, self.dimensions as nat, iterations),
            ..self
        }
    }
}

/// An averaged Perceptron: owns its samples, its dimension, its model and
/// its lifecycle state.
pub struct Perceptron {
    state: PerceptronState,
    dimensions: usize,
    training_data: SampleSet,
    model: Vec<i128>,
}

impl View for Perceptron {
    type V = PerceptronView;

    closed spec fn view(&self) -> PerceptronView {
        PerceptronView {
            state: self.state,
            dimensions: self.dimensions,
            samples: self.training_data@,
            model: int_weights(self.model@),
        }
    }
}

impl Perceptron {
    pub open spec fn wf(&self) -> bool {
        self@.well_formed()
    }

    /// An engine for `dimensions` features that starts with `training_data`;
    /// fails if a sample has another number of features.
    pub fn new(dimensions: usize, training_data: SampleSet) -> (r: Result<
        Perceptron,
        PerceptronError,
    >)
        ensures
            r is Ok <==> all_of_dimension(training_data@, dimensions as nat),
            r matches Ok(p) ==> p.wf() && p@ == (PerceptronView {
                state: PerceptronState::Setup,
                dimensions,
                samples: training_data@,
                model: zeros(dimensions as nat),
            }),
            r matches Err(e) ==> e == PerceptronError::DimensionMismatch(dimensions),
    {
        if training_data.violates_dimension(dimensions) {
            return Err(PerceptronError::DimensionMismatch(dimensions));
        }
        let model = zero_vector(dimensions);
        Ok(Perceptron { state: PerceptronState::Setup, dimensions, training_data, model })
    }

    /// An engine for `dimensions` features with no samples.
    pub fn with_dimensions(dimensions: usize) -> (r: Perceptron)
        ensures
            r.wf(),
            r@ == (PerceptronView {
                state: PerceptronState::Setup,
                dimensions,
                samples: Seq::empty(),
                model: zeros(dimensions as nat),
            }),
    {
        let model = zero_vector(dimensions);
        Perceptron {
            state: PerceptronState::Setup,
            dimensions,
            training_data: SampleSet::new(),
            model,
        }
    }

    pub fn state(&self) -> (r: PerceptronState)
        ensures
            r == self@.state,
    {
        self.state
    }

    pub fn dimensions(&self) -> (r: usize)
        ensures
            r == self@.dimensions,
    {
        self.dimensions
    }

    pub fn training_data(&self) -> (r: &SampleSet)
        ensures
            r@ == self@.samples,
    {
        &self.training_data
    }

    /// The model: zero before training; after it, the trained direction.
    pub fn model(&self) -> (r: &Vec<i128>)
        ensures
            int_weights(r@) == self@.model,
    {
        &self.model
    }

    /// Appends `samples` to the training set. Fails with `InvalidOperation`
    /// once trained, and with `DimensionMismatch` if any sample has another
    /// number of features; on failure nothing is added.
    pub fn add_training_samples(&mut self, samples: SampleSet) -> (r: Result<(), PerceptronError>)
        requires
            old(self).wf(),
        ensures
            final(self).wf(),
            r == old(self)@.add_outcome(samples@),
            final(self)@ == old(self)@.after_add(samples@),
    {
        if self.state != PerceptronState::Setup {
            return Err(PerceptronError::InvalidOperation);
        }
        if samples.violates_dimension(self.dimensions) {
            return Err(PerceptronError::DimensionMismatch(self.dimensions));
        }
        self.training_data.extend(samples);
        Ok(())
    }

    /// Clears the training set, then adds `samples` as `add_training_samples`
    /// does; the clearing happens whether or not the adding succeeds.
    pub fn replace_training_samples(&mut self, samples: SampleSet) -> (r: Result<
        (),
        PerceptronError,
    >)
        requires
            old(self).wf(),
        ensures
            final(self).wf(),
            r == old(self)@.after_clear().add_outcome(samples@),
            final(self)@ == old(self)@.after_clear().after_add(samples@),
    {
        self.clear_training_samples();
        self.add_training_samples(samples)
    }

    /// Removes every training sample; allowed in any state.
    pub fn clear_training_samples(&mut self)
        requires
            old(self).wf(),
        ensures
            final(self).wf(),
            final(self)@ == old(self)@.after_clear(),
    {
        self.training_data.clear();
        assert(all_of_dimension(self.training_data@, self.dimensions as nat));
    }
    /// Whether `train(iterations)` may be called: the training set is not
    /// empty and the run stays within the accumulators' range.
    pub fn can_train(&self, iterations: u32) -> (r: bool)
        requires
            self.wf(),
        ensures
            r == (self@.samples.len() > 0 && training_fits(
                self@.dimensions as nat,
                self@.samples.len(),
                iterations as nat,
            )),
    {
        let n = self.training_data.len();
        if n == 0 {
            return false;
        }
        let d = self.dimensions as u128;
        if d == 0 {
            assert(0 * ((iterations as int * n) * (iterations as int * n)) == 0) by (nonlinear_arith);
            return true;
        }
        assert(iterations as int * n <= 0xffff_ffff * 0xffff_ffff_ffff_ffff) by (nonlinear_arith)
            requires iterations <= 0xffff_ffff, n <= 0xffff_ffff_ffff_ffff;
        let t = iterations as u128 * n as u128;
        if t > 0x1_0000_0000 {
            assert(d * (t * t) > 0x1_0000_0000_0000_0000) by (nonlinear_arith)
                requires d >= 1, t > 0x1_0000_0000;
            return false;
        }
        assert(t * t <= 0x1_0000_0000_0000_0000) by (nonlinear_arith)
            requires 0 <= t <= 0x1_0000_0000;
        assert(d * (t * t) <= 0xffff_ffff_ffff_ffff * 0x1_0000_0000_0000_0000) by (nonlinear_arith)
            requires d <= 0xffff_ffff_ffff_ffff, 0 <= t * t <= 0x1_0000_0000_0000_0000;
        d * (t * t) <= 0x1_0000_0000_0000_0000
    }

    /// Trains the averaged Perceptron for at most `iterations` passes over the
    /// samples in order, stopping after the first pass without a mistake, and
    /// returns the model. The engine is then trained for good.
    pub fn train(&mut self, iterations: u32) -> (r: Vec<i128>)
        requires
            old(self).wf(),
            old(self)@.samples.len() > 0,
            training_fits(old(self)@.dimensions as nat, old(self)@.samples.len(), iterations as nat),
        ensures
            final(self).wf(),
            final(self)@ == old(self)@.after_train(iterations as nat),
            int_weights(r@) == final(self)@.model,
    {
        let ghost samples = self.training_data@;
        let ghost d = self.dimensions as nat;
        let ghost total: int = iterations as int * samples.len();
        let n = self.training_data.len();
        let mut theta = zero_vector(self.dimensions);
        let mut avg = zero_vector(self.dimensions);
        let mut pass: u32 = 0;
        let mut done = false;
        let ghost mut k: int = 0;
        assert(within_steps(theta@, avg@, 0));
        assert(0 * n == 0) by (nonlinear_arith);
        while pass < iterations && !done
            invariant
                self.wf(),
                self@ == old(self)@,
                samples == self.training_data@,
                d == self.dimensions,
                n == samples.len(),
                total == iterations as int * n,
                training_fits(d, n as nat, iterations as nat),
                theta@.len() == d,
                avg@.len() == d,
                0 <= pass <= iterations,
                k == pass * n,
                within_steps(theta@, avg@, k),
                run(samples, zeros(d), zeros(d), iterations as nat) == if done {
                    (int_weights(theta@), int_weights(avg@))
                } else {
                    run(samples, int_weights(theta@), int_weights(avg@), (iterations - pass) as nat)
                },
            decreases iterations - pass,
        {
            let ghost theta0 = int_weights(theta@);
            let ghost avg0 = int_weights(avg@);
            let mut clean = true;
            let mut i: usize = 0;
            while i < n
                invariant
                    self.wf(),
                    self@ == old(self)@,
                    samples == self.training_data@,
                    d == self.dimensions,
                    n == samples.len(),
                    total == iterations as int * n,
                    training_fits(d, n as nat, iterations as nat),
                    theta@.len() == d,
                    avg@.len() == d,
                    0 <= pass < iterations,
                    0 <= i <= n,
                    k == pass * n + i,
                    within_steps(theta@, avg@, k),
                    (int_weights(theta@), int_weights(avg@), clean) == pass_prefix(
                        samples,
                        theta0,
                        avg0,
                        i as nat,
                    ),
                decreases n - i,
            {
                let sample = &self.training_data.as_vec()[i];
                let label = sample.label.value();
                proof {
                    assert(k < total) by (nonlinear_arith)
                        requires k == pass * n + i, i < n, pass + 1 <= iterations, total
                            == iterations as int * n, n >= 0;
                    lemma_steps_in_budget(theta@, avg@, k, total);
                    assert(sample.data@.len() == d);
                }
                let ghost old_theta = theta@;
                let ghost old_avg = avg@;
                let ok = is_correctly_classified(&sample.data, label, &avg);
                if !ok {
                    clean = false;
                    add_signed(&mut theta, &sample.data, label);
                    assert forall|j: int| 0 <= j < old_theta.len() implies abs(
                        theta@[j] - old_theta[j],
                    ) <= feature_bound() by {
                        assert(int_weights(theta@)[j] == int_weights(old_theta)[j] + label
                            * int_features(sample.data@)[j]);
                    }
                }
                proof {
                    lemma_steps_in_budget(old_theta, old_avg, k, total);
                    assert forall|j: int| 0 <= j < old_theta.len() implies abs(
                        #[trigger] theta@[j] as int,
                    ) <= accumulator_bound() by {
                        assert(abs(theta@[j] - old_theta[j]) <= feature_bound());
                    }
                }
                add_assign(&mut avg, &theta);
                proof {
                    assert forall|j: int| 0 <= j < old_avg.len() implies avg@[j] == old_avg[j]
                        + theta@[j] by {
                        assert(int_weights(avg@)[j] == int_weights(old_avg)[j] + 1 * int_weights(
                            theta@,
                        )[j]);
                    }
                    lemma_visit_within_steps(old_theta, old_avg, theta@, avg@, k);
                    k = k + 1;
                }
                i = i + 1;
            }
            pass = pass + 1;
            done = clean;
            proof {
                assert(k == pass * n) by (nonlinear_arith)
                    requires k == (pass - 1) * n + n;
            }
        }
        let r = avg.clone();
        assert(r@ =~= avg@);
        self.model = avg;
        self.state = PerceptronState::Trained;
        r
    }
}

} // verus!
