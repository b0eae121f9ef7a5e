use perceptron::{
    dot_product, is_correctly_classified, Label, Perceptron, PerceptronError, PerceptronState,
    Sample, SampleSet,
};

fn sample(data: Vec<i32>, label: i64) -> Sample {
    Sample::new(data, label).unwrap()
}

fn set(samples: Vec<Sample>) -> SampleSet {
    SampleSet::from_vec(samples)
}

fn scenario_samples() -> SampleSet {
    set(vec![
        sample(vec![1, 2], 1),
        sample(vec![3, 5], 1),
        sample(vec![-1, 4], -1),
        sample(vec![-7, 9], -1),
    ])
}

fn features(p: &Perceptron) -> Vec<Vec<i32>> {
    p.training_data().as_vec().iter().map(|s| s.data.clone()).collect()
}

#[test]
fn label_accepts_only_plus_and_minus_one() {
    assert_eq!(Label::from_int(1), Ok(Label::Positive));
    assert_eq!(Label::from_int(-1), Ok(Label::Negative));
    assert_eq!(Label::from_int(0), Err(PerceptronError::InvalidLabel(0)));
    assert_eq!(Label::from_int(2), Err(PerceptronError::InvalidLabel(2)));
    assert_eq!(Label::Positive.value(), 1);
    assert_eq!(Label::Negative.value(), -1);
}

#[test]
fn invalid_label_is_rejected_before_the_training_set() {
    let mut p = Perceptron::with_dimensions(2);
    let r = Sample::new(vec![1, 2], 2);
    assert_eq!(r.unwrap_err(), PerceptronError::InvalidLabel(2));
    assert!(p.training_data().is_empty());
    assert_eq!(p.add_training_samples(set(vec![sample(vec![1, 2], 1)])), Ok(()));
    assert_eq!(p.training_data().len(), 1);
}

#[test]
fn new_engine_starts_in_setup_with_zero_model() {
    let p = Perceptron::with_dimensions(3);
    assert_eq!(p.state(), PerceptronState::Setup);
    assert_eq!(p.state().name(), "Setup");
    assert_eq!(p.dimensions(), 3);
    assert_eq!(p.model(), &vec![0i128, 0, 0]);
    assert!(p.training_data().is_empty());
}

#[test]
fn new_validates_initial_samples() {
    let p = Perceptron::new(2, scenario_samples()).unwrap();
    assert_eq!(p.training_data().len(), 4);
    let bad = set(vec![sample(vec![1, 2], 1), sample(vec![1, 2, 3], -1)]);
    assert_eq!(Perceptron::new(2, bad).err(), Some(PerceptronError::DimensionMismatch(2)));
    assert!(Perceptron::new(5, SampleSet::new()).is_ok());
}

#[test]
fn add_keeps_insertion_order() {
    let mut p = Perceptron::with_dimensions(2);
    p.add_training_samples(set(vec![sample(vec![1, 2], 1)])).unwrap();
    p.add_training_samples(set(vec![sample(vec![3, 4], -1), sample(vec![5, 6], 1)])).unwrap();
    assert_eq!(features(&p), vec![vec![1, 2], vec![3, 4], vec![5, 6]]);
    let labels: Vec<i8> = p.training_data().as_vec().iter().map(|s| s.label.value()).collect();
    assert_eq!(labels, vec![1, -1, 1]);
}

#[test]
fn add_is_atomic_on_dimension_mismatch() {
    let mut p = Perceptron::with_dimensions(2);
    p.add_training_samples(set(vec![sample(vec![9, 9], 1)])).unwrap();
    let batch = set(vec![sample(vec![1, 2], 1), sample(vec![1, 2, 3], -1)]);
    assert_eq!(p.add_training_samples(batch), Err(PerceptronError::DimensionMismatch(2)));
    assert_eq!(features(&p), vec![vec![9, 9]]);
}

#[test]
fn add_of_empty_batch_succeeds() {
    let mut p = Perceptron::with_dimensions(2);
    assert_eq!(p.add_training_samples(SampleSet::new()), Ok(()));
    assert!(p.training_data().is_empty());
}

#[test]
fn clear_twice_is_clear_once() {
    let mut p = Perceptron::new(2, scenario_samples()).unwrap();
    p.clear_training_samples();
    assert!(p.training_data().is_empty());
    p.clear_training_samples();
    assert!(p.training_data().is_empty());
    assert_eq!(p.state(), PerceptronState::Setup);
}

#[test]
fn replace_clears_then_adds() {
    let mut p = Perceptron::new(2, scenario_samples()).unwrap();
    assert_eq!(p.replace_training_samples(set(vec![sample(vec![0, 1], -1)])), Ok(()));
    assert_eq!(features(&p), vec![vec![0, 1]]);
    let bad = set(vec![sample(vec![0], 1)]);
    assert_eq!(p.replace_training_samples(bad), Err(PerceptronError::DimensionMismatch(2)));
    assert!(p.training_data().is_empty());
}

#[test]
fn trained_engine_refuses_samples() {
    let mut p = Perceptron::new(2, scenario_samples()).unwrap();
    assert!(p.can_train(10));
    p.train(10);
    assert_eq!(p.state(), PerceptronState::Trained);
    assert_eq!(p.state().name(), "Trained");
    let valid = set(vec![sample(vec![1, 1], 1)]);
    assert_eq!(p.add_training_samples(valid), Err(PerceptronError::InvalidOperation));
    let invalid = set(vec![sample(vec![1, 1, 1], 1)]);
    assert_eq!(p.add_training_samples(invalid), Err(PerceptronError::InvalidOperation));
    assert_eq!(p.training_data().len(), 4);
}

#[test]
fn replace_after_training_clears_and_fails() {
    let mut p = Perceptron::new(2, scenario_samples()).unwrap();
    p.train(3);
    let r = p.replace_training_samples(set(vec![sample(vec![1, 1], 1)]));
    assert_eq!(r, Err(PerceptronError::InvalidOperation));
    assert!(p.training_data().is_empty());
}

#[test]
fn train_four_point_scenario() {
    let mut p = Perceptron::new(2, scenario_samples()).unwrap();
    let w = p.train(10);
    assert_eq!(w, vec![14i128, -8]);
    assert_eq!(p.model(), &w);
    // under the per-visit running average this direction puts [1, 2] on the
    // negative side, though its last pass made no mistake
    assert_eq!(dot_product(&vec![1, 2], &w), -2);
    assert_eq!(dot_product(&vec![3, 5], &w), 2);
    assert_eq!(dot_product(&vec![-1, 4], &w), -46);
    assert_eq!(dot_product(&vec![-7, 9], &w), -170);
    // more passes change nothing once a pass is clean
    let mut q = Perceptron::new(2, scenario_samples()).unwrap();
    assert_eq!(q.train(1000), vec![14i128, -8]);
}

#[test]
fn train_stops_after_given_passes() {
    let mut p = Perceptron::new(2, scenario_samples()).unwrap();
    assert_eq!(p.train(1), vec![6i128, 0]);
    let mut q = Perceptron::new(2, scenario_samples()).unwrap();
    assert_eq!(q.train(0), vec![0i128, 0]);
    assert_eq!(q.state(), PerceptronState::Trained);
}

#[test]
fn train_exact_small_runs() {
    let mut p = Perceptron::new(1, set(vec![sample(vec![2], 1)])).unwrap();
    assert_eq!(p.train(3), vec![4i128]);
    let mut q =
        Perceptron::new(2, set(vec![sample(vec![1, 0], 1), sample(vec![0, 1], -1)])).unwrap();
    assert_eq!(q.train(5), vec![4i128, -3]);
    let mut r = Perceptron::new(3, set(vec![sample(vec![-5, 3, 1], -1)])).unwrap();
    assert_eq!(r.train(4), vec![10i128, -6, -2]);
}

#[test]
fn train_separable_set_classifies_all() {
    let data = set(vec![
        sample(vec![2, 1], 1),
        sample(vec![-1, -3], -1),
        sample(vec![4, -1], 1),
        sample(vec![-2, -2], -1),
    ]);
    let mut p = Perceptron::new(2, data).unwrap();
    let w = p.train(10);
    assert_eq!(w, vec![16i128, 8]);
    for s in p.training_data().as_vec() {
        assert!(is_correctly_classified(&s.data, s.label.value(), &w));
    }
}

#[test]
fn can_train_needs_samples_and_range() {
    let p = Perceptron::with_dimensions(2);
    assert!(!p.can_train(10));
    let q = Perceptron::new(2, scenario_samples()).unwrap();
    assert!(q.can_train(0));
    assert!(q.can_train(1000));
    assert!(!q.can_train(u32::MAX));
    let z = Perceptron::new(0, set(vec![sample(vec![], 1)])).unwrap();
    assert!(z.can_train(u32::MAX));
}

#[test]
fn dot_product_and_margin_test() {
    assert_eq!(dot_product(&vec![1, -2, 3], &vec![4, 5, -6]), -24);
    assert_eq!(dot_product(&vec![], &vec![]), 0);
    assert_eq!(dot_product(&vec![i32::MIN], &vec![3]), -6442450944);
    assert!(is_correctly_classified(&vec![1, 2], 1, &vec![1, 1]));
    assert!(!is_correctly_classified(&vec![1, 2], -1, &vec![1, 1]));
    assert!(is_correctly_classified(&vec![1, 2], -1, &vec![-1, 0]));
    assert!(!is_correctly_classified(&vec![1, 2], 1, &vec![0, 0]));
    assert!(!is_correctly_classified(&vec![1, 2], -1, &vec![0, 0]));
}

#[test]
fn sample_set_operations() {
    let mut a = set(vec![sample(vec![1], 1)]);
    assert!(!a.is_empty());
    assert!(!a.violates_dimension(1));
    assert!(a.violates_dimension(2));
    a.extend(set(vec![sample(vec![2, 3], -1)]));
    assert_eq!(a.len(), 2);
    assert!(a.violates_dimension(1));
    assert!(a.violates_dimension(2));
    a.clear();
    assert!(a.is_empty());
    assert!(!a.violates_dimension(7));
}
