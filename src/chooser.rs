//! Weighted random choice among eligible parts, behind an injectable source.

use vstd::prelude::*;
use crate::catalog::{part, spec_part, PART_COUNT};

verus! {

/// Sum of a sequence of weights.
pub open spec fn weight_sum(w: Seq<usize>) -> int
    decreases w.len(),
{
    if w.len() == 0 {
        0
    } else {
        weight_sum(w.drop_last()) + w.last()
    }
}

/// A non-empty list of positive weights whose total fits in a `usize`.
pub open spec fn weights_ok(w: Seq<usize>) -> bool {
    &&& w.len() > 0
    &&& forall|i: int| 0 <= i < w.len() ==> w[i] > 0
    &&& weight_sum(w) <= usize::MAX
}

/// A source of weighted random choices.
pub trait Chooser {
    /// Whether this source always picks the first candidate.
    spec fn always_first(&self) -> bool;

    /// Picks an index into `weights`, each index with relative likelihood
    /// given by its weight.
    fn pick(&mut self, weights: &Vec<usize>) -> (r: usize)
        requires
            weights_ok(weights@),
        ensures
            r < weights.len(),
            old(self).always_first() ==> r == 0,
            final(self).always_first() == old(self).always_first(),
    ;
}

/// Draws from the thread-local random generator.
pub struct ThreadChooser;

/// A deterministic source that always picks the first candidate.
pub struct FirstChooser;

/// Relies on rand's `WeightedIndex::new` followed by `sample` on `thread_rng`:
/// with positive weights whose total fits, construction succeeds and the
/// sample is an index into the weights.
#[verifier::external_body]
fn sample_weighted_index(weights: &Vec<usize>) -> (r: usize)
    requires
        weights_ok(weights@),
    ensures
        r < weights.len(),
{
    let dist = rand::distributions::WeightedIndex::new(weights.iter()).unwrap();
    rand::distributions::Distribution::sample(&dist, &mut rand::thread_rng())
}

/// Relies on rand's `Rng::gen_range` on `thread_rng`: a value of the
/// non-empty half-open range `lo..hi`.
#[verifier::external_body]
pub(crate) fn random_in_range(lo: u64, hi: u64) -> (r: u64)
    requires
        lo < hi,
    ensures
        lo <= r < hi,
{
    rand::Rng::gen_range(&mut rand::thread_rng(), lo..hi)
}

impl Chooser for ThreadChooser {
    open spec fn always_first(&self) -> bool {
        false
    }

    fn pick(&mut self, weights: &Vec<usize>) -> (r: usize) {
        sample_weighted_index(weights)
    }
}

impl Chooser for FirstChooser {
    open spec fn always_first(&self) -> bool {
        true
    }

    fn pick(&mut self, weights: &Vec<usize>) -> (r: usize) {
        0
    }
}

/// Selection failed because no part satisfies the constraints.
#[derive(PartialEq, Eq, Structural, Debug, Clone, Copy)]
pub struct NoEligiblePart;

/// Chooses one of the candidate parts, weighting each by its selection weight.
pub fn choose_part<C: Chooser>(candidates: &Vec<usize>, chooser: &mut C) -> (r: Result<usize, NoEligiblePart>)
    requires
        forall|i: int| 0 <= i < candidates.len() ==> candidates[i] < PART_COUNT,
        candidates.len() <= PART_COUNT,
    ensures
        candidates.len() == 0 ==> r == Err::<usize, NoEligiblePart>(NoEligiblePart),
        candidates.len() > 0 ==> (r matches Ok(id) && candidates@.contains(id)),
        old(chooser).always_first() && candidates.len() > 0 ==> r == Ok::<usize, NoEligiblePart>(candidates[0]),
        final(chooser).always_first() == old(chooser).always_first(),
{
    if candidates.len() == 0 {
        return Err(NoEligiblePart);
    }
    let mut weights: Vec<usize> = Vec::new();
    let mut i: usize = 0;
    while i < candidates.len()
        invariant
            forall|k: int| 0 <= k < candidates.len() ==> candidates[k] < PART_COUNT,
            candidates.len() <= PART_COUNT,
            i <= candidates.len(),
            weights.len() == i,
            forall|k: int| 0 <= k < i ==> weights[k] == spec_part(candidates[k] as int).selection_weight,
            forall|k: int| 0 <= k < i ==> 1 <= #[trigger] weights[k] && weights[k] <= 10,
            weight_sum(weights@) <= 10 * i,
        decreases candidates.len() - i,
    {
        let p = part(candidates[i]);
        assert(1 <= p.selection_weight <= 10);
        let ghost before = weights@;
        weights.push(p.selection_weight);
        assert(weights@.drop_last() =~= before);
        i += 1;
    }
    let k = chooser.pick(&weights);
    Ok(candidates[k])
}

} // verus!
