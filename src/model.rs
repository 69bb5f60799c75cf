use vstd::prelude::*;
use crate::config::{OptimCrit, PtwError, WarpType};

verus! {

/// The reference paired with sample `i`: the only one when a single reference is
/// given, else the reference at the same position.
pub open spec fn reference_of(n_refs: nat, i: int) -> int {
    if n_refs == 1 { 0 } else { i }
}

/// Every signal in `sigs` has length `n`.
pub open spec fn all_of_length<T>(sigs: Seq<Vec<T>>, n: nat) -> bool {
    forall|i: int| 0 <= i < sigs.len() ==> #[trigger] sigs[i]@.len() == n
}

/// Why a batch of references and samples cannot be fitted, if it cannot.
pub open spec fn batch_error<T>(refs: Seq<Vec<T>>, samps: Seq<Vec<T>>) -> Option<PtwError> {
    if samps.len() == 0 {
        None
    } else if refs.len() != 1 && refs.len() != samps.len() {
        Some(PtwError::ReferenceCountMismatch)
    } else if !all_of_length(refs, samps[0]@.len()) || !all_of_length(samps, samps[0]@.len()) {
        Some(PtwError::LengthMismatch)
    } else {
        None
    }
}

/// The (reference, sample) pairs of sample `i` alone.
pub open spec fn single_pair(n_refs: nat, i: int) -> Seq<(usize, usize)> {
    seq![(reference_of(n_refs, i) as usize, i as usize)]
}

/// The optimization jobs of a batch, each a list of (reference, sample) pairs
/// whose errors are summed: in global mode one job over every sample, in
/// individual mode one job per sample.
pub open spec fn jobs_of(w: WarpType, n_refs: nat, n_samps: nat) -> Seq<Seq<(usize, usize)>> {
    if n_samps == 0 {
        Seq::empty()
    } else {
        match w {
            WarpType::Global => seq![
                Seq::new(n_samps, |i: int| (reference_of(n_refs, i) as usize, i as usize)),
            ],
            WarpType::Individual => Seq::new(n_samps, |i: int| single_pair(n_refs, i)),
        }
    }
}

/// The number of coefficient vectors that a fit over `n_samps` samples yields.
pub open spec fn fitted_count(w: WarpType, n_samps: nat) -> nat {
    if n_samps == 0 {
        0
    } else {
        match w {
            WarpType::Global => 1,
            WarpType::Individual => n_samps,
        }
    }
}

/// The coefficient vector that sample `i` is warped with.
pub open spec fn coeff_index_of(w: WarpType, i: int) -> int {
    match w {
        WarpType::Global => 0,
        WarpType::Individual => i,
    }
}

/// Why `predict` cannot run on `n_samples` samples, if it cannot.
pub open spec fn predict_error(w: WarpType, n_coeffs: nat, n_samples: nat) -> Option<PtwError> {
    if n_coeffs == 0 {
        Some(PtwError::NotFitted)
    } else if n_samples == 0 {
        Some(PtwError::EmptySamples)
    } else if w == WarpType::Individual && n_coeffs != n_samples {
        Some(PtwError::CoefficientCountMismatch)
    } else {
        None
    }
}

/// The state of one fitting engine: its configuration, and the fitted
/// coefficient vectors (in unit-interval form) with their scores.
#[derive(Debug)]
pub struct PtwModel<T> {
    pub coeffs: Vec<Vec<T>>,
    pub crit_values: Vec<T>,
    pub warp_type: WarpType,
    pub optim_crit: OptimCrit,
    pub trwdth: usize,
}

impl<T> PtwModel<T> {
    /// No fit yet, or exactly as many coefficient vectors as the mode allows,
    /// each with its score.
    pub open spec fn wf(&self) -> bool {
        &&& self.crit_values@.len() == self.coeffs@.len()
        &&& self.warp_type == WarpType::Global ==> self.coeffs@.len() <= 1
    }

    /// A fresh, unfitted engine.
    pub fn new(warp_type: WarpType, optim_crit: OptimCrit, trwdth: usize) -> (r: PtwModel<T>)
        ensures
            r.wf(),
            r.coeffs@.len() == 0,
            r.crit_values@.len() == 0,
            r.warp_type == warp_type,
            r.optim_crit == optim_crit,
            r.trwdth == trwdth,
    {
        PtwModel { coeffs: Vec::new(), crit_values: Vec::new(), warp_type, optim_crit, trwdth }
    }

    /// Whether a fit has been stored.
    pub fn is_fitted(&self) -> (r: bool)
        ensures
            r == (self.coeffs@.len() > 0),
    {
        self.coeffs.len() > 0
    }

    /// Validates a batch and lists its optimization jobs; an empty sample set
    /// gives no job.
    pub fn fit_jobs(&self, refs: &Vec<Vec<T>>, samps: &Vec<Vec<T>>) -> (r: Result<Vec<Vec<(usize, usize)>>, PtwError>)
        ensures
            batch_error(refs@, samps@) matches Some(e) ==> r == Err::<Vec<Vec<(usize, usize)>>, PtwError>(e),
            batch_error(refs@, samps@) is None ==> (r matches Ok(jobs) && {
                let want = jobs_of(self.warp_type, refs@.len(), samps@.len());
                &&& jobs@.len() == want.len()
                &&& forall|j: int| 0 <= j < want.len() ==> #[trigger] jobs@[j]@ == want[j]
            }),
    {
        let n_samps = samps.len();
        let n_refs = refs.len();
        if n_samps == 0 {
            return Ok(Vec::new());
        }
        if n_refs != 1 && n_refs != n_samps {
            return Err(PtwError::ReferenceCountMismatch);
        }
        let n = samps[0].len();
        if !uniform_length(refs, n) || !uniform_length(samps, n) {
            return Err(PtwError::LengthMismatch);
        }
        let mut jobs: Vec<Vec<(usize, usize)>> = Vec::new();
        match self.warp_type {
            WarpType::Global => {
                let mut job: Vec<(usize, usize)> = Vec::new();
                let mut i: usize = 0;
                while i < n_samps
                    invariant
                        i <= n_samps,
                        job@ == Seq::new(i as nat, |k: int| (reference_of(n_refs as nat, k) as usize, k as usize)),
                    decreases n_samps - i,
                {
                    let ri = if n_refs == 1 { 0 } else { i };
                    job.push((ri, i));
                    i = i + 1;
                    assert(job@ =~= Seq::new(i as nat, |k: int| (reference_of(n_refs as nat, k) as usize, k as usize)));
                }
                jobs.push(job);
            },
            WarpType::Individual => {
                let mut i: usize = 0;
                while i < n_samps
                    invariant
                        i <= n_samps,
                        jobs@.len() == i,
                        forall|j: int| 0 <= j < i ==> #[trigger] jobs@[j]@ == single_pair(n_refs as nat, j),
                    decreases n_samps - i,
                {
                    let ri = if n_refs == 1 { 0 } else { i };
                    let mut job: Vec<(usize, usize)> = Vec::new();
                    job.push((ri, i));
                    assert(job@ =~= single_pair(n_refs as nat, i as int));
                    jobs.push(job);
                    i = i + 1;
                }
            },
        }
        Ok(jobs)
    }

    /// Stores the outcome of a fit: one coefficient vector and score per job,
    /// exactly one in global mode and at least one in individual mode. Any other
    /// count is refused and nothing changes, so an earlier fit is never wiped.
    pub fn store_fit(&mut self, coeffs: Vec<Vec<T>>, scores: Vec<T>) -> (r: Result<(), PtwError>)
        requires
            old(self).wf(),
        ensures
            final(self).wf(),
            final(self).warp_type == old(self).warp_type,
            final(self).optim_crit == old(self).optim_crit,
            final(self).trwdth == old(self).trwdth,
            ({
                let ok = coeffs@.len() == scores@.len() && coeffs@.len() >= 1
                    && (old(self).warp_type == WarpType::Global ==> coeffs@.len() == 1);
                &&& ok ==> r is Ok && final(self).coeffs@ == coeffs@ && final(self).crit_values@ == scores@
                &&& !ok ==> r == Err::<(), PtwError>(PtwError::CoefficientCountMismatch)
                    && final(self).coeffs@ == old(self).coeffs@
                    && final(self).crit_values@ == old(self).crit_values@
            }),
    {
        if coeffs.len() != scores.len() || coeffs.len() == 0 {
            return Err(PtwError::CoefficientCountMismatch);
        }
        match self.warp_type {
            WarpType::Global => {
                if coeffs.len() > 1 {
                    return Err(PtwError::CoefficientCountMismatch);
                }
            },
            WarpType::Individual => {},
        }
        self.coeffs = coeffs;
        self.crit_values = scores;
        Ok(())
    }

    /// For each of `n_samples` samples, the index of the coefficient vector it is
    /// warped with.
    pub fn predict_plan(&self, n_samples: usize) -> (r: Result<Vec<usize>, PtwError>)
        ensures
            predict_error(self.warp_type, self.coeffs@.len(), n_samples as nat) matches Some(e)
                ==> r == Err::<Vec<usize>, PtwError>(e),
            predict_error(self.warp_type, self.coeffs@.len(), n_samples as nat) is None ==> (r matches Ok(plan) && {
                &&& plan@.len() == n_samples
                &&& forall|i: int| 0 <= i < n_samples ==> #[trigger] plan@[i] == coeff_index_of(self.warp_type, i)
                &&& forall|i: int| 0 <= i < n_samples ==> #[trigger] plan@[i] < self.coeffs@.len()
            }),
    {
        if self.coeffs.len() == 0 {
            return Err(PtwError::NotFitted);
        }
        if n_samples == 0 {
            return Err(PtwError::EmptySamples);
        }
        if self.warp_type == WarpType::Individual && self.coeffs.len() != n_samples {
            return Err(PtwError::CoefficientCountMismatch);
        }
        let mut plan: Vec<usize> = Vec::new();
        let mut i: usize = 0;
        while i < n_samples
            invariant
                i <= n_samples,
                plan@.len() == i,
                self.coeffs@.len() > 0,
                self.warp_type == WarpType::Individual ==> self.coeffs@.len() == n_samples,
                forall|k: int| 0 <= k < i ==> #[trigger] plan@[k] == coeff_index_of(self.warp_type, k),
            decreases n_samples - i,
        {
            let c = match self.warp_type {
                WarpType::Global => 0,
                WarpType::Individual => i,
            };
            plan.push(c);
            i = i + 1;
        }
        Ok(plan)
    }
}

/// Whether a restart from the identity warp is tried for coefficient vectors of
/// length `dim`: only for the quadratic identity `[0, 1, 0]`, whatever the mode.
pub open spec fn has_restart_seed(dim: nat) -> bool {
    dim == 3
}

/// The identity warp `t` over `dim` coefficients: `[0, 1, 0, ...]`.
pub open spec fn identity_coeffs(dim: nat) -> Seq<i64> {
    Seq::new(dim, |k: int| if k == 1 { 1i64 } else { 0i64 })
}

/// The alternate starting point for a restart, if one applies to `dim`
/// coefficients; it depends on the coefficient count alone, not on the mode.
pub fn restart_seed(dim: usize) -> (r: Option<Vec<i64>>)
    ensures
        has_restart_seed(dim as nat) ==> (r matches Some(v) && v@ == identity_coeffs(dim as nat)),
        !has_restart_seed(dim as nat) ==> r is None,
{
    if dim != 3 {
        return None;
    }
    let mut v: Vec<i64> = Vec::new();
    let mut k: usize = 0;
    while k < dim
        invariant
            k <= dim,
            v@ == identity_coeffs(k as nat),
        decreases dim - k,
    {
        v.push(if k == 1 { 1 } else { 0 });
        k = k + 1;
        assert(v@ =~= identity_coeffs(k as nat));
    }
    Some(v)
}

/// The starting point of a fit when none is given: the quadratic identity warp
/// `[0, 1, 0]` in raw form.
pub fn default_init_coeffs() -> (r: Vec<i64>)
    ensures
        r@ == identity_coeffs(3),
{
    let r: Vec<i64> = vec![0, 1, 0];
    assert(r@ =~= identity_coeffs(3));
    r
}

/// Predicting after a fit warps each sample with the coefficient vector that was
/// fitted on it: the job chosen for sample `i` exists, is paired with `i`'s
/// reference, and a fit stores exactly one vector per job.
pub proof fn lemma_predict_uses_fitted_coeffs(w: WarpType, n_refs: nat, n_samps: nat, i: int)
    requires
        0 <= i < n_samps,
    ensures
        jobs_of(w, n_refs, n_samps).len() == fitted_count(w, n_samps),
        predict_error(w, fitted_count(w, n_samps), n_samps) is None,
        0 <= coeff_index_of(w, i) < jobs_of(w, n_refs, n_samps).len(),
        jobs_of(w, n_refs, n_samps)[coeff_index_of(w, i)].contains(
            (reference_of(n_refs, i) as usize, i as usize),
        ),
{
    let job = jobs_of(w, n_refs, n_samps)[coeff_index_of(w, i)];
    match w {
        WarpType::Global => {
            assert(job[i] == (reference_of(n_refs, i) as usize, i as usize));
        },
        WarpType::Individual => {
            assert(job[0] == (reference_of(n_refs, i) as usize, i as usize));
        },
    }
}

/// With one reference and one sample, global and individual mode set up the same
/// single optimization job over the same pair, restart (when they do) from the
/// same seed, the quadratic identity, and warp with the same vector.
pub proof fn lemma_single_pair_modes_agree()
    ensures
        forall|d: nat| #[trigger] has_restart_seed(d) ==> identity_coeffs(d) == seq![0i64, 1i64, 0i64],
        jobs_of(WarpType::Global, 1, 1) == jobs_of(WarpType::Individual, 1, 1),
        fitted_count(WarpType::Global, 1) == fitted_count(WarpType::Individual, 1),
        coeff_index_of(WarpType::Global, 0) == coeff_index_of(WarpType::Individual, 0),
{
    assert forall|d: nat| #[trigger] has_restart_seed(d) implies identity_coeffs(d) == seq![0i64, 1i64, 0i64] by {
        assert(identity_coeffs(d) =~= seq![0i64, 1i64, 0i64]);
    }
    assert(jobs_of(WarpType::Global, 1, 1)[0] =~= jobs_of(WarpType::Individual, 1, 1)[0]);
    assert(jobs_of(WarpType::Global, 1, 1) =~= jobs_of(WarpType::Individual, 1, 1));
}

/// Whether every signal in `sigs` has length `n`.
pub fn uniform_length<T>(sigs: &Vec<Vec<T>>, n: usize) -> (r: bool)
    ensures
        r == all_of_length(sigs@, n as nat),
{
    let mut i: usize = 0;
    while i < sigs.len()
        invariant
            i <= sigs@.len(),
            forall|k: int| 0 <= k < i ==> #[trigger] sigs@[k]@.len() == n,
        decreases sigs@.len() - i,
    {
        if sigs[i].len() != n {
            return false;
        }
        i = i + 1;
    }
    true
}

} // verus!
