use vstd::prelude::*;
use vstd::string::StrSliceExecFns;

verus! {

/// How coefficient vectors are shared across the samples of one batch.
#[derive(Clone, Copy, Debug, PartialEq, Eq, Structural)]
pub enum WarpType {
    /// One coefficient vector for the whole batch.
    Global,
    /// One coefficient vector per sample.
    Individual,
}

/// The criterion that the optimizer minimizes.
#[derive(Clone, Copy, Debug, PartialEq, Eq, Structural)]
pub enum OptimCrit {
    /// Root mean square difference between reference and warped sample.
    Rms,
    /// One minus the weighted cross-correlation.
    Wcc,
}

/// Errors raised by the fitting engine on malformed requests.
#[derive(Clone, Copy, Debug, PartialEq, Eq, Structural)]
pub enum PtwError {
    /// The warp-type selector is neither `global` nor `individual`.
    UnknownWarpType,
    /// The criterion selector is neither `RMS` nor `WCC`.
    UnknownCriterion,
    /// Signals within one batch do not all have the same length.
    LengthMismatch,
    /// The number of references is neither one nor the number of samples.
    ReferenceCountMismatch,
    /// `predict` was called with no samples.
    EmptySamples,
    /// `predict` was called before a successful fit.
    NotFitted,
    /// In individual mode, the number of coefficient vectors differs from the number of samples.
    CoefficientCountMismatch,
}

/// Character-by-character equality of two strings.
pub fn str_equals(s: &str, t: &str) -> (r: bool)
    ensures
        r == (s@ == t@),
{
    let n = s.unicode_len();
    if n != t.unicode_len() {
        return false;
    }
    let mut i: usize = 0;
    while i < n
        invariant
            n == s@.len(),
            n == t@.len(),
            i <= n,
            s@.subrange(0, i as int) == t@.subrange(0, i as int),
        decreases n - i,
    {
        if s.get_char(i) != t.get_char(i) {
            return false;
        }
        assert(s@.subrange(0, i + 1) =~= s@.subrange(0, i as int).push(s@[i as int]));
        assert(t@.subrange(0, i + 1) =~= t@.subrange(0, i as int).push(t@[i as int]));
        i = i + 1;
    }
    assert(s@ =~= s@.subrange(0, n as int));
    assert(t@ =~= t@.subrange(0, n as int));
    true
}

/// The warp type that a selector string names: exactly `global` or `individual`.
pub open spec fn warp_type_of(s: Seq<char>) -> Option<WarpType> {
    if s == "global"@ {
        Some(WarpType::Global)
    } else if s == "individual"@ {
        Some(WarpType::Individual)
    } else {
        None
    }
}

/// The criterion that a selector string names: exactly `RMS` or `WCC`.
pub open spec fn optim_crit_of(s: Seq<char>) -> Option<OptimCrit> {
    if s == "RMS"@ {
        Some(OptimCrit::Rms)
    } else if s == "WCC"@ {
        Some(OptimCrit::Wcc)
    } else {
        None
    }
}

/// Reads a warp-type selector; any other string is rejected.
pub fn parse_warp_type(s: &str) -> (r: Result<WarpType, PtwError>)
    ensures
        warp_type_of(s@) matches Some(w) ==> r == Ok::<WarpType, PtwError>(w),
        warp_type_of(s@) is None ==> r == Err::<WarpType, PtwError>(PtwError::UnknownWarpType),
{
    if str_equals(s, "global") {
        Ok(WarpType::Global)
    } else if str_equals(s, "individual") {
        Ok(WarpType::Individual)
    } else {
        Err(PtwError::UnknownWarpType)
    }
}

/// Reads a criterion selector; any other string is rejected.
pub fn parse_optim_crit(s: &str) -> (r: Result<OptimCrit, PtwError>)
    ensures
        optim_crit_of(s@) matches Some(c) ==> r == Ok::<OptimCrit, PtwError>(c),
        optim_crit_of(s@) is None ==> r == Err::<OptimCrit, PtwError>(PtwError::UnknownCriterion),
{
    if str_equals(s, "RMS") {
        Ok(OptimCrit::Rms)
    } else if str_equals(s, "WCC") {
        Ok(OptimCrit::Wcc)
    } else {
        Err(PtwError::UnknownCriterion)
    }
}

} // verus!
