use ptw::config::{parse_optim_crit, parse_warp_type, str_equals, OptimCrit, PtwError, WarpType};
use ptw::model::{restart_seed, uniform_length, PtwModel};
use ptw::order::{index_of_min, order_key, stable_argsort};
use ptw::simplex::{Action, Event, NelderMead, Phase, Probe, MAX_ITER};
use ptw::smooth::smoothing_terms;

fn key(x: f64) -> u64 {
    order_key(x.to_bits())
}

#[test]
fn selectors_parse_exactly() {
    assert_eq!(parse_warp_type("global"), Ok(WarpType::Global));
    assert_eq!(parse_warp_type("individual"), Ok(WarpType::Individual));
    assert_eq!(parse_warp_type("Global"), Err(PtwError::UnknownWarpType));
    assert_eq!(parse_warp_type(""), Err(PtwError::UnknownWarpType));
    assert_eq!(parse_optim_crit("RMS"), Ok(OptimCrit::Rms));
    assert_eq!(parse_optim_crit("WCC"), Ok(OptimCrit::Wcc));
    assert_eq!(parse_optim_crit("wcc"), Err(PtwError::UnknownCriterion));
    assert!(str_equals("abc", "abc"));
    assert!(!str_equals("abc", "abd"));
    assert!(!str_equals("ab", "abc"));
}

#[test]
fn order_keys_follow_numeric_order() {
    assert_eq!(order_key(0), 1u64 << 63);
    assert_eq!(order_key(u64::MAX), 0);
    let xs = [-1e300, -2.5, -1.0, -0.5, 0.0, 0.25, 1.0, 3.0, 1e300];
    for w in xs.windows(2) {
        assert!(key(w[0]) < key(w[1]), "{} vs {}", w[0], w[1]);
    }
    assert!(key(f64::NEG_INFINITY) < key(-1e300));
    assert!(key(1e300) < key(f64::INFINITY));
}

#[test]
fn argsort_is_stable() {
    assert_eq!(stable_argsort(&vec![2, 1, 2, 1]), vec![1, 3, 0, 2]);
    assert_eq!(stable_argsort(&vec![]), Vec::<usize>::new());
    assert_eq!(stable_argsort(&vec![9, 7, 8]), vec![1, 2, 0]);
    let keys: Vec<u64> = [0.3, -0.1, 0.2].iter().map(|&x| key(x)).collect();
    assert_eq!(stable_argsort(&keys), vec![1, 2, 0]);
}

#[test]
fn first_minimum_wins() {
    assert_eq!(index_of_min(&vec![4, 2, 7, 2]), 1);
    assert_eq!(index_of_min(&vec![5]), 0);
    assert_eq!(index_of_min(&vec![3, 3, 3]), 0);
}

#[test]
fn simplex_reflection_is_accepted_between_best_and_second_worst() {
    let (mut nm, a) = NelderMead::start(vec![5, 3, 9]);
    assert_eq!(a, Action::CheckSpread { best: 1, worst: 2 });
    assert_eq!(nm.order, vec![1, 0, 2]);
    assert_eq!(nm.step(Event::Spread { converged: false }), Action::Evaluate { probe: Probe::Reflection, worst: 2 });
    assert_eq!(nm.step(Event::Scored { key: 4 }), Action::Replace { vertex: 2, probe: Probe::Reflection });
    assert_eq!(nm.keys, vec![5, 3, 4]);
    assert_eq!(nm.step(Event::Applied), Action::CheckSpread { best: 1, worst: 0 });
    assert_eq!(nm.order, vec![1, 2, 0]);
    assert_eq!(nm.iteration, 2);
}

#[test]
fn simplex_expansion_keeps_the_better_trial() {
    let (mut nm, _) = NelderMead::start(vec![5, 3, 9]);
    nm.step(Event::Spread { converged: false });
    assert_eq!(nm.step(Event::Scored { key: 1 }), Action::Evaluate { probe: Probe::Expansion, worst: 2 });
    assert_eq!(nm.step(Event::Scored { key: 0 }), Action::Replace { vertex: 2, probe: Probe::Expansion });
    assert_eq!(nm.keys, vec![5, 3, 0]);

    let (mut nm, _) = NelderMead::start(vec![5, 3, 9]);
    nm.step(Event::Spread { converged: false });
    nm.step(Event::Scored { key: 1 });
    assert_eq!(nm.step(Event::Scored { key: 2 }), Action::Replace { vertex: 2, probe: Probe::Reflection });
    assert_eq!(nm.keys, vec![5, 3, 1]);
}

#[test]
fn simplex_contraction_then_shrink() {
    let (mut nm, _) = NelderMead::start(vec![5, 3, 9]);
    nm.step(Event::Spread { converged: false });
    assert_eq!(nm.step(Event::Scored { key: 6 }), Action::Evaluate { probe: Probe::Contraction, worst: 2 });
    assert_eq!(nm.step(Event::Scored { key: 8 }), Action::Replace { vertex: 2, probe: Probe::Contraction });

    let (mut nm, _) = NelderMead::start(vec![5, 3, 9]);
    nm.step(Event::Spread { converged: false });
    nm.step(Event::Scored { key: 6 });
    assert_eq!(nm.step(Event::Scored { key: 9 }), Action::Shrink { vertex: 0, toward: 1 });
    assert_eq!(nm.step(Event::Scored { key: 4 }), Action::Shrink { vertex: 2, toward: 1 });
    assert_eq!(nm.step(Event::Scored { key: 2 }), Action::CheckSpread { best: 2, worst: 0 });
    assert_eq!(nm.keys, vec![4, 3, 2]);
}

#[test]
fn simplex_finishes_on_convergence_or_cap() {
    let (mut nm, _) = NelderMead::start(vec![5, 3, 3]);
    assert_eq!(nm.step(Event::Spread { converged: true }), Action::Finish { best: 1 });
    assert_eq!(nm.phase, Phase::Finished { best: 1 });
    assert_eq!(nm.step(Event::Applied), Action::Unexpected);

    let (mut nm, mut a) = NelderMead::start(vec![7, 8]);
    let mut iterations: usize = 0;
    loop {
        a = match a {
            Action::CheckSpread { .. } => {
                iterations += 1;
                nm.step(Event::Spread { converged: false })
            }
            Action::Evaluate { .. } => nm.step(Event::Scored { key: 7 }),
            Action::Replace { .. } => nm.step(Event::Applied),
            Action::Shrink { .. } => nm.step(Event::Scored { key: 8 }),
            Action::Finish { .. } => break,
            Action::Unexpected => panic!("unexpected"),
        };
    }
    assert_eq!(iterations, MAX_ITER);
    assert_eq!(a, Action::Finish { best: 0 });
}

#[test]
fn simplex_rejects_out_of_phase_events() {
    let (mut nm, _) = NelderMead::start(vec![1, 2]);
    assert_eq!(nm.step(Event::Scored { key: 0 }), Action::Unexpected);
    assert_eq!(nm.phase, Phase::Spread);
    assert_eq!(nm.keys, vec![1, 2]);
}

fn sig(n: usize) -> Vec<f64> {
    vec![0.0; n]
}

#[test]
fn fit_jobs_per_mode() {
    let g: PtwModel<f64> = PtwModel::new(WarpType::Global, OptimCrit::Rms, 0);
    let ind: PtwModel<f64> = PtwModel::new(WarpType::Individual, OptimCrit::Wcc, 2);
    let one_ref = vec![sig(4)];
    let samps = vec![sig(4), sig(4), sig(4)];
    assert_eq!(g.fit_jobs(&one_ref, &samps), Ok(vec![vec![(0, 0), (0, 1), (0, 2)]]));
    assert_eq!(ind.fit_jobs(&one_ref, &samps), Ok(vec![vec![(0, 0)], vec![(0, 1)], vec![(0, 2)]]));
    let three_refs = vec![sig(4), sig(4), sig(4)];
    assert_eq!(g.fit_jobs(&three_refs, &samps), Ok(vec![vec![(0, 0), (1, 1), (2, 2)]]));
    assert_eq!(ind.fit_jobs(&three_refs, &samps), Ok(vec![vec![(0, 0)], vec![(1, 1)], vec![(2, 2)]]));
    assert_eq!(g.fit_jobs(&one_ref, &vec![]), Ok(vec![]));
}

#[test]
fn fit_jobs_reject_malformed_batches() {
    let g: PtwModel<f64> = PtwModel::new(WarpType::Global, OptimCrit::Rms, 0);
    let samps = vec![sig(4), sig(4), sig(4)];
    assert_eq!(g.fit_jobs(&vec![sig(4), sig(4)], &samps), Err(PtwError::ReferenceCountMismatch));
    assert_eq!(g.fit_jobs(&vec![], &samps), Err(PtwError::ReferenceCountMismatch));
    assert_eq!(g.fit_jobs(&vec![sig(5)], &samps), Err(PtwError::LengthMismatch));
    assert_eq!(g.fit_jobs(&vec![sig(4)], &vec![sig(4), sig(3)]), Err(PtwError::LengthMismatch));
    assert!(uniform_length(&samps, 4));
    assert!(!uniform_length(&samps, 3));
}

#[test]
fn single_pair_jobs_agree_across_modes() {
    let g: PtwModel<f64> = PtwModel::new(WarpType::Global, OptimCrit::Rms, 0);
    let ind: PtwModel<f64> = PtwModel::new(WarpType::Individual, OptimCrit::Rms, 0);
    let refs = vec![sig(6)];
    let samps = vec![sig(6)];
    assert_eq!(g.fit_jobs(&refs, &samps), ind.fit_jobs(&refs, &samps));
}

#[test]
fn store_fit_checks_counts() {
    let mut g: PtwModel<f64> = PtwModel::new(WarpType::Global, OptimCrit::Rms, 0);
    assert!(!g.is_fitted());
    assert_eq!(g.store_fit(vec![vec![0.0, 1.0], vec![0.0, 1.0]], vec![0.1, 0.2]), Err(PtwError::CoefficientCountMismatch));
    assert!(!g.is_fitted());
    assert_eq!(g.store_fit(vec![vec![0.0, 1.0]], vec![]), Err(PtwError::CoefficientCountMismatch));
    assert_eq!(g.store_fit(vec![], vec![]), Err(PtwError::CoefficientCountMismatch));
    assert_eq!(g.store_fit(vec![vec![0.5, 1.0]], vec![0.1]), Ok(()));
    assert!(g.is_fitted());
    assert_eq!(g.coeffs, vec![vec![0.5, 1.0]]);
    assert_eq!(g.crit_values, vec![0.1]);
    assert_eq!(g.store_fit(vec![], vec![]), Err(PtwError::CoefficientCountMismatch));
    assert_eq!(g.coeffs, vec![vec![0.5, 1.0]]);

    let mut ind: PtwModel<f64> = PtwModel::new(WarpType::Individual, OptimCrit::Rms, 0);
    assert_eq!(ind.store_fit(vec![], vec![]), Err(PtwError::CoefficientCountMismatch));
    assert!(!ind.is_fitted());
    assert_eq!(ind.store_fit(vec![vec![1.0], vec![2.0]], vec![0.0, 0.5]), Ok(()));
    assert_eq!(ind.coeffs, vec![vec![1.0], vec![2.0]]);
}

#[test]
fn predict_plan_selects_coefficients() {
    let mut g: PtwModel<f64> = PtwModel::new(WarpType::Global, OptimCrit::Rms, 0);
    assert_eq!(g.predict_plan(2), Err(PtwError::NotFitted));
    g.store_fit(vec![vec![0.0, 1.0]], vec![0.0]).unwrap();
    assert_eq!(g.predict_plan(3), Ok(vec![0, 0, 0]));
    assert_eq!(g.predict_plan(0), Err(PtwError::EmptySamples));

    let mut ind: PtwModel<f64> = PtwModel::new(WarpType::Individual, OptimCrit::Rms, 0);
    ind.store_fit(vec![vec![0.0], vec![1.0], vec![2.0]], vec![0.0, 0.0, 0.0]).unwrap();
    assert_eq!(ind.predict_plan(3), Ok(vec![0, 1, 2]));
    assert_eq!(ind.predict_plan(2), Err(PtwError::CoefficientCountMismatch));
}

#[test]
fn restart_seeds_match_dimension() {
    assert_eq!(restart_seed(3), Some(vec![0, 1, 0]));
    assert_eq!(restart_seed(4), None);
    assert_eq!(restart_seed(2), None);
    assert_eq!(restart_seed(0), None);
}

#[test]
fn smoothing_windows_truncate_at_edges() {
    assert_eq!(smoothing_terms(5, 2, 2), vec![(0, 2), (1, 1), (2, 0), (3, 1), (4, 2)]);
    assert_eq!(smoothing_terms(5, 0, 2), vec![(0, 0), (1, 1), (2, 2)]);
    assert_eq!(smoothing_terms(5, 4, 1), vec![(3, 1), (4, 0)]);
    assert_eq!(smoothing_terms(3, 1, 0), vec![(1, 0)]);
    assert_eq!(smoothing_terms(1, 0, usize::MAX), vec![(0, 0)]);
}

#[test]
fn default_start_is_quadratic_identity() {
    assert_eq!(ptw::model::default_init_coeffs(), vec![0, 1, 0]);
}

#[test]
fn predict_uses_the_job_fitted_on_each_sample() {
    for w in [WarpType::Global, WarpType::Individual] {
        let mut m: PtwModel<f64> = PtwModel::new(w, OptimCrit::Rms, 0);
        let refs = vec![sig(3), sig(3)];
        let samps = vec![sig(3), sig(3)];
        let jobs = m.fit_jobs(&refs, &samps).unwrap();
        let coeffs: Vec<Vec<f64>> = (0..jobs.len()).map(|j| vec![j as f64]).collect();
        let scores = vec![0.0; jobs.len()];
        m.store_fit(coeffs, scores).unwrap();
        let plan = m.predict_plan(samps.len()).unwrap();
        for i in 0..samps.len() {
            assert!(jobs[plan[i]].contains(&(i, i)));
        }
    }
}

#[test]
fn simplex_runs_are_repeatable() {
    let run = || {
        let (mut nm, mut a) = NelderMead::start(vec![4, 4, 1, 9]);
        let mut trace = vec![a];
        let mut k: u64 = 0;
        while !matches!(a, Action::Finish { .. }) && trace.len() < 200 {
            k += 1;
            a = match a {
                Action::CheckSpread { .. } => nm.step(Event::Spread { converged: k > 150 }),
                Action::Replace { .. } => nm.step(Event::Applied),
                _ => nm.step(Event::Scored { key: (k * 7) % 11 }),
            };
            trace.push(a);
        }
        (trace, nm.keys.clone())
    };
    assert_eq!(run(), run());
}

#[test]
fn least_key_never_rises_over_a_run() {
    let (mut nm, mut a) = NelderMead::start(vec![6, 4, 9]);
    let mut least = *nm.keys.iter().min().unwrap();
    let mut k: u64 = 0;
    while !matches!(a, Action::Finish { .. }) {
        k += 1;
        a = match a {
            Action::CheckSpread { .. } => nm.step(Event::Spread { converged: k > 300 }),
            Action::Replace { .. } => nm.step(Event::Applied),
            _ => nm.step(Event::Scored { key: (k * 13) % 17 + 2 }),
        };
        let now = *nm.keys.iter().min().unwrap();
        assert!(now <= least);
        least = now;
    }
    if let Action::Finish { best } = a {
        assert_eq!(nm.keys[best], least);
    }
}
