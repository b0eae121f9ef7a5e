use vstd::prelude::*;

use crate::engine::{pass_prefix, PerceptronState, PerceptronView};
use crate::error::PerceptronError;
use crate::sample::Sample;
use crate::vector::{add_scaled, classifies, int_features};

verus! {

/// Clearing the samples twice leaves the engine as clearing once does: with
/// an empty training set.
pub proof fn lemma_clear_idempotent(v: PerceptronView)
    ensures
        v.after_clear().after_clear() == v.after_clear(),
        v.after_clear().samples.len() == 0,
{
}

/// A batch holding a sample with the wrong number of features is refused
/// whole: the error is `DimensionMismatch` and no sample of it is added, the
/// valid ones included.
pub proof fn lemma_add_rejects_whole_batch(v: PerceptronView, batch: Seq<Sample>, i: int)
    requires
        v.state == PerceptronState::Setup,
        0 <= i < batch.len(),
        batch[i].data@.len() != v.dimensions,
    ensures
        v.add_outcome(batch) == Err::<(), PerceptronError>(
            PerceptronError::DimensionMismatch(v.dimensions),
        ),
        v.after_add(batch) == v,
{
}

/// Once trained, an engine refuses every batch with `InvalidOperation` and
/// keeps its training set.
pub proof fn lemma_trained_rejects_samples(v: PerceptronView, iterations: nat, batch: Seq<Sample>)
    ensures
        v.after_train(iterations).add_outcome(batch) == Err::<(), PerceptronError>(
            PerceptronError::InvalidOperation,
        ),
        v.after_train(iterations).after_add(batch) == v.after_train(iterations),
        v.after_train(iterations).after_add(batch).samples == v.samples,
{
}

/// A pass without a mistake, the one on which training stops early, leaves
/// the raw weights `theta` as they were, and the sample at position `i` was
/// classified correctly by the summed model at the time of its visit,
/// `avg + i * theta`.
pub proof fn lemma_clean_pass(samples: Seq<Sample>, theta: Seq<int>, avg: Seq<int>, n: nat)
    requires
        n <= samples.len(),
        avg.len() == theta.len(),
        pass_prefix(samples, theta, avg, n).2,
    ensures
        pass_prefix(samples, theta, avg, n).0 == theta,
        pass_prefix(samples, theta, avg, n).1 == add_scaled(avg, n as int, theta),
        forall|i: int|
            0 <= i < n ==> classifies(
                int_features(#[trigger] samples[i].data@),
                samples[i].label.spec_value(),
                add_scaled(avg, i, theta),
            ),
    decreases n,
{
    if n == 0 {
        assert forall|j: int| 0 <= j < avg.len() implies avg[j] == avg[j] + 0 * theta[j] by {
            assert(0 * theta[j] == 0) by (nonlinear_arith);
        }
        assert(add_scaled(avg, 0, theta) =~= avg);
    } else {
        let m = (n - 1) as nat;
        lemma_clean_pass(samples, theta, avg, m);
        let prev = add_scaled(avg, m as int, theta);
        assert forall|j: int| 0 <= j < avg.len() implies prev[j] + 1 * theta[j] == avg[j] + n
            * theta[j] by {
            assert(m * theta[j] + 1 * theta[j] == n * theta[j]) by (nonlinear_arith)
                requires m + 1 == n;
        }
        assert(add_scaled(prev, 1, theta) =~= add_scaled(avg, n as int, theta));
    }
}

} // verus!
