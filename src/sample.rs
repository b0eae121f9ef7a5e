use vstd::prelude::*;

use crate::error::PerceptronError;

verus! {

/// The class of a sample: +1 or -1.
#[derive(Debug, Clone, Copy, PartialEq, Eq, Structural)]
pub enum Label {
    Positive,
    Negative,
}

impl Label {
    /// The label as the integer +1 or -1.
    pub open spec fn spec_value(self) -> int {
        match self {
            Label::Positive => 1,
            Label::Negative => -1,
        }
    }

    /// Reads a label from an integer; only +1 and -1 are labels.
    pub fn from_int(value: i64) -> (r: Result<Label, PerceptronError>)
        ensures
            value == 1 || value == -1 <==> r is Ok,
            r matches Ok(l) ==> l.spec_value() == value,
            r matches Err(e) ==> e == PerceptronError::InvalidLabel(value),
    {
        if value == 1 {
            Ok(Label::Positive)
        } else if value == -1 {
            Ok(Label::Negative)
        } else {
            Err(PerceptronError::InvalidLabel(value))
        }
    }

    /// The label as the integer +1 or -1.
    pub fn value(&self) -> (r: i8)
        ensures
            r as int == self.spec_value(),
    {
        match self {
            Label::Positive => 1,
            Label::Negative => -1,
        }
    }
}

/// A feature vector with its label.
#[derive(Debug, Clone)]
pub struct Sample {
    pub data: Vec<i32>,
    pub label: Label,
}

impl Sample {
    /// Builds a sample, rejecting any label but +1 and -1.
    pub fn new(data: Vec<i32>, label: i64) -> (r: Result<Sample, PerceptronError>)
        ensures
            label == 1 || label == -1 <==> r is Ok,
            r matches Ok(s) ==> s.data@ == data@ && s.label.spec_value() == label,
            r matches Err(e) ==> e == PerceptronError::InvalidLabel(label),
    {
        match Label::from_int(label) {
            Ok(l) => Ok(Sample { data, label: l }),
            Err(e) => Err(e),
        }
    }
}

/// Every sample has exactly `d` features.
pub open spec fn all_of_dimension(s: Seq<Sample>, d: nat) -> bool {
    forall|i: int| 0 <= i < s.len() ==> (#[trigger] s[i]).data@.len() == d
}

/// An ordered collection of samples.
#[derive(Debug, Clone)]
pub struct SampleSet {
    samples: Vec<Sample>,
}

impl View for SampleSet {
    type V = Seq<Sample>;

    closed spec fn view(&self) -> Seq<Sample> {
        self.samples@
    }
}

impl SampleSet {
    /// An empty set.
    pub fn new() -> (r: SampleSet)
        ensures
            r@ == Seq::<Sample>::empty(),
    {
        SampleSet { samples: Vec::new() }
    }

    /// The samples of `samples`, in their order.
    pub fn from_vec(samples: Vec<Sample>) -> (r: SampleSet)
        ensures
            r@ == samples@,
    {
        SampleSet { samples }
    }

    /// The samples, in their order.
    pub fn as_vec(&self) -> (r: &Vec<Sample>)
        ensures
            r@ == self@,
    {
        &self.samples
    }

    pub fn len(&self) -> (r: usize)
        ensures
            r == self@.len(),
    {
        self.samples.len()
    }

    pub fn is_empty(&self) -> (r: bool)
        ensures
            r == (self@.len() == 0),
    {
        self.samples.len() == 0
    }

    /// Appends every sample of `other`, in order.
    pub fn extend(&mut self, other: SampleSet)
        ensures
            final(self)@ == old(self)@ + other@,
    {
        let mut other = other;
        self.samples.append(&mut other.samples);
    }

    /// Removes every sample.
    pub fn clear(&mut self)
        ensures
            final(self)@ == Seq::<Sample>::empty(),
    {
        self.samples.clear();
    }

    /// Whether some sample's feature count differs from `required`.
    pub fn violates_dimension(&self, required: usize) -> (r: bool)
        ensures
            r == !all_of_dimension(self@, required as nat),
    {
        let mut i: usize = 0;
        while i < self.samples.len()
            invariant
                0 <= i <= self.samples@.len(),
                all_of_dimension(self.samples@.take(i as int), required as nat),
            decreases self.samples@.len() - i,
        {
            if self.samples[i].data.len() != required {
                assert(self.samples@[i as int].data@.len() != required);
                return true;
            }
            assert(self.samples@.take(i + 1) =~= self.samples@.take(i as int).push(
                self.samples@[i as int],
            ));
            i = i + 1;
        }
        assert(self.samples@.take(i as int) =~= self.samples@);
        false
    }
}

} // verus!
