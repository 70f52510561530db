//! Bounding the cardinality of metric labels.
//!
//! A limiter admits at most a fixed number of distinct label values: values
//! already seen stay admitted, and a new value is refused once the limit is
//! reached, until the limiter is reset.

use vstd::prelude::*;

use crate::text::{owned, str_eq};

verus! {

/// Limiter of the number of distinct values a metric label takes.
pub struct CardinalityLimiter {
    max_unique_labels: usize,
    observed_labels: Vec<String>,
}

/// Whether the texts of `labels` are all distinct.
pub open spec fn distinct_texts(labels: Seq<Seq<char>>) -> bool {
    forall|i: int, j: int| 0 <= i < j < labels.len() ==> labels[i] != labels[j]
}

impl View for CardinalityLimiter {
    type V = Set<Seq<char>>;

    /// The label values admitted so far.
    closed spec fn view(&self) -> Set<Seq<char>> {
        self.observed_labels@.map_values(|s: String| s@).to_set()
    }
}

impl CardinalityLimiter {
    /// Most distinct label values admitted.
    pub closed spec fn max_unique_labels(&self) -> usize {
        self.max_unique_labels
    }

    /// The limiter's invariant: the values seen are distinct, and there are
    /// no more of them than the limit.
    pub closed spec fn wf(&self) -> bool {
        &&& distinct_texts(self.observed_labels@.map_values(|s: String| s@))
        &&& self.observed_labels@.len() <= self.max_unique_labels
    }

    /// A limiter that admits at most `max_unique_labels` distinct values.
    pub fn new(max_unique_labels: usize) -> (l: Self)
        ensures
            l.wf(),
            l@ == Set::<Seq<char>>::empty(),
            l.max_unique_labels() == max_unique_labels,
    {
        let l = CardinalityLimiter { max_unique_labels, observed_labels: Vec::new() };
        assert(l.observed_labels@.map_values(|s: String| s@) =~= Seq::<Seq<char>>::empty());
        l
    }

    proof fn lemma_count(&self)
        requires
            self.wf(),
        ensures
            self@.len() == self.observed_labels@.len(),
            self@.finite(),
    {
        let texts = self.observed_labels@.map_values(|s: String| s@);
        texts.unique_seq_to_set();
    }

    /// Whether a value of the label may be recorded: a value already seen
    /// may; a new value may, and is remembered, while fewer than the limit
    /// have been seen; otherwise it is refused.
    pub fn allow_label(&mut self, label_value: &str) -> (r: bool)
        requires
            old(self).wf(),
        ensures
            final(self).wf(),
            final(self).max_unique_labels() == old(self).max_unique_labels(),
            old(self)@.contains(label_value@) ==> r && final(self)@ == old(self)@,
            !old(self)@.contains(label_value@) && old(self)@.len() >= old(self).max_unique_labels() ==> !r
                && final(self)@ == old(self)@,
            !old(self)@.contains(label_value@) && old(self)@.len() < old(self).max_unique_labels() ==> r
                && final(self)@ == old(self)@.insert(label_value@),
    {
        proof {
            self.lemma_count();
        }
        let ghost texts = self.observed_labels@.map_values(|s: String| s@);
        let mut i: usize = 0;
        while i < self.observed_labels.len()
            invariant
                self.wf(),
                self.max_unique_labels == old(self).max_unique_labels(),
                self.observed_labels@ == old(self).observed_labels@,
                texts == self.observed_labels@.map_values(|s: String| s@),
                i <= self.observed_labels@.len(),
                forall|j: int| 0 <= j < i ==> texts[j] != label_value@,
            decreases self.observed_labels@.len() - i,
        {
            if str_eq(self.observed_labels[i].as_str(), label_value) {
                proof {
                    assert(texts[i as int] == label_value@);
                    assert(texts.to_set().contains(label_value@));
                }
                return true;
            }
            i = i + 1;
        }
        proof {
            if texts.to_set().contains(label_value@) {
                let k = texts.index_of(label_value@);
                assert(texts[k] == label_value@);
            }
        }
        if self.observed_labels.len() >= self.max_unique_labels {
            return false;
        }
        self.observed_labels.push(owned(label_value));
        proof {
            let now = self.observed_labels@.map_values(|s: String| s@);
            assert(now =~= texts.push(label_value@));
            texts.lemma_push_to_set_commute(label_value@);
            assert(now.to_set() =~= texts.to_set().insert(label_value@));
        }
        true
    }

    /// A limiter never holds more distinct values than its limit.
    pub proof fn lemma_within_limit(&self)
        requires
            self.wf(),
        ensures
            self@.finite(),
            self@.len() <= self.max_unique_labels(),
    {
        self.lemma_count();
    }

    /// Forgets every value seen.
    pub fn reset(&mut self)
        ensures
            final(self).wf(),
            final(self)@ == Set::<Seq<char>>::empty(),
            final(self).max_unique_labels() == old(self).max_unique_labels(),
    {
        self.observed_labels = Vec::new();
        assert(self.observed_labels@.map_values(|s: String| s@) =~= Seq::<Seq<char>>::empty());
    }
}

} // verus!
