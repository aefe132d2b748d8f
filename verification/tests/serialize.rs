use cmdstan::arg_paths::{ArgReadablePath, ArgWritablePath};
use cmdstan::data_entries::DataEntry;
use cmdstan::fixed::Fixed;
use cmdstan::stan_command::arg_tree::args_combine;
use cmdstan::stan_command::common_arg::{ArgInit, ArgOutput, WithCommonArgs};
use cmdstan::stan_command::diagnose::ArgDiagnose;
use cmdstan::stan_command::generate_quantities::ArgGenerate;
use cmdstan::stan_command::laplace::ArgLaplace;
use cmdstan::stan_command::log_prob::ArgLogProb;
use cmdstan::stan_command::optimize::{ArgOptimize, ArgOptimizeAlgorithm, ArgOptimizeBfgs};
use cmdstan::stan_command::pathfinder::ArgPathfinder;
use cmdstan::stan_command::sample::{ArgSample, ArgSampleAdapt, ArgSampleAlgorithm, ArgSampleHmc};
use cmdstan::stan_command::variational::ArgVariational;
use cmdstan::stan_command::{arg_vector, ArgError, ArgThrough, ArgType, WithDefaultArg};

fn tokens_of<T: ArgThrough>(t: &T) -> Vec<String> {
    arg_vector(t).unwrap().tokens
}

#[test]
fn defaults_are_default() {
    assert!(ArgSample::new().is_default());
    assert!(ArgSampleAdapt::new().is_default());
    assert!(ArgSampleHmc::new().is_default());
    assert!(ArgOptimize::new().is_default());
    assert!(ArgOptimizeAlgorithm::new().is_default());
    assert!(ArgOptimizeBfgs::new().is_default());
    assert!(ArgVariational::new().is_default());
    assert!(ArgDiagnose::new().is_default());
    assert!(ArgGenerate::new().is_default());
    assert!(ArgPathfinder::new().is_default());
    assert!(ArgLogProb::new().is_default());
    assert!(ArgLaplace::new().is_default());
    assert!(ArgInit::new().is_default());
    assert!(ArgOutput::new().is_default());
}

#[test]
fn fresh_trees_serialize_to_bare_keyword() {
    assert_eq!(tokens_of(&ArgSample::new()), vec!["sample".to_string()]);
    assert_eq!(tokens_of(&ArgOptimize::new()), vec!["optimize".to_string()]);
    assert_eq!(
        tokens_of(&ArgVariational::new()),
        vec!["variational".to_string()]
    );
    assert_eq!(
        tokens_of(&ArgGenerate::new()),
        vec!["generate_quantities".to_string()]
    );
    assert_eq!(
        tokens_of(&ArgPathfinder::new()),
        vec!["pathfinder".to_string()]
    );
    assert_eq!(tokens_of(&ArgLogProb::new()), vec!["log_prob".to_string()]);
    assert_eq!(tokens_of(&ArgLaplace::new()), vec!["laplace".to_string()]);
    assert_eq!(tokens_of(&ArgDiagnose::new()), vec!["diagnose".to_string()]);
    // a freshly wrapped mode adds no common-group tokens
    let common = WithCommonArgs::new(ArgSample::new());
    assert_eq!(tokens_of(&common), vec!["sample".to_string()]);
}

#[test]
fn validated_setters_reject_and_keep_value() {
    let mut s = ArgSample::new();
    assert!(matches!(
        s.set_num_samples(0),
        Err(ArgError::BadArgumentValue(_))
    ));
    assert_eq!(s.num_samples, 1000);
    s.set_num_samples(1500).unwrap();
    assert_eq!(s.num_samples, 1500);

    let mut a = ArgSampleAdapt::new();
    match a.set_delta(Fixed::from_parts(false, 5, 2)) {
        Err(ArgError::BadArgumentValue(m)) => {
            assert_eq!(m, "Sample: set_delta expected delta in [0.1,1.0], found 0.05");
        },
        _ => panic!("expected a rejection"),
    }
    assert_eq!(a.delta, Fixed::from_parts(false, 8, 1));
    a.set_delta(Fixed::from_parts(false, 9, 1)).unwrap();
    assert_eq!(a.delta, Fixed::from_parts(false, 9, 1));

    let mut h = ArgSampleHmc::new();
    assert!(matches!(
        h.set_stepsize_jitter(Fixed::from_parts(false, 15, 1)),
        Err(ArgError::BadArgumentValue(_))
    ));
    assert_eq!(h.stepsize_jitter, Fixed::zero());

    let mut o = ArgOutput::new();
    match o.set_sig_figs(19) {
        Err(ArgError::BadArgumentValue(m)) => {
            assert_eq!(
                m,
                "argument output->sig_figs requires 0 <= integer <= 18 or -1, received 19"
            );
        },
        _ => panic!("expected a rejection"),
    }
    assert_eq!(o.sig_figs, -1);
    o.set_sig_figs(6).unwrap();
    assert_eq!(o.sig_figs, 6);

    let mut b = ArgOptimizeBfgs::new();
    assert!(matches!(
        b.set_tol_obj(Fixed::zero()),
        Err(ArgError::BadArgumentValue(_))
    ));
    assert_eq!(b.tol_obj, Fixed::from_parts(false, 1, 12));
}

#[test]
fn overridden_fields_appear_as_tokens() {
    let mut s = ArgSample::new();
    s.set_num_samples(2000).unwrap();
    s.set_thin(3).unwrap();
    let mut a = ArgSampleAdapt::new();
    a.set_delta(Fixed::from_parts(false, 9, 1)).unwrap();
    s.set_adapt(a);
    assert_eq!(
        tokens_of(&s),
        vec![
            "sample".to_string(),
            "num_samples=2000".to_string(),
            "thin=3".to_string(),
            "adapt".to_string(),
            "delta=0.9".to_string(),
        ]
    );
    // re-deriving the overridden names from the tokens gives back the
    // set that was actually set
    let toks = tokens_of(&s);
    let names: Vec<&str> = toks
        .iter()
        .skip(1)
        .filter_map(|t| t.split_once('=').map(|(n, _)| n))
        .collect();
    assert_eq!(names, vec!["num_samples", "thin", "delta"]);
}

#[test]
fn sample_algorithm_tokens() {
    let mut s = ArgSample::new();
    let mut alg = ArgSampleAlgorithm::new();
    alg.set_to_fixed_param();
    s.set_algorithm(alg);
    assert_eq!(
        tokens_of(&s),
        vec!["sample".to_string(), "algorithm=fixed_param".to_string()]
    );

    let mut h = ArgSampleHmc::new();
    h.set_metric_dense_e();
    h.set_stepsize(Fixed::from_parts(false, 5, 1)).unwrap();
    let mut s2 = ArgSample::new();
    let mut alg2 = ArgSampleAlgorithm::new();
    alg2.set_hmc(h);
    s2.set_algorithm(alg2);
    assert_eq!(
        tokens_of(&s2),
        vec![
            "sample".to_string(),
            "algorithm=hmc".to_string(),
            "metric=dense_e".to_string(),
            "stepsize=0.5".to_string(),
        ]
    );
}

#[test]
fn optimize_algorithm_tokens() {
    let mut o = ArgOptimize::new();
    let mut alg = ArgOptimizeAlgorithm::new();
    alg.set_newton();
    o.set_algorithm(alg);
    o.set_iter(500).unwrap();
    assert_eq!(
        tokens_of(&o),
        vec![
            "optimize".to_string(),
            "algorithm=newton".to_string(),
            "iter=500".to_string(),
        ]
    );

    let mut o2 = ArgOptimize::new();
    let alg2 = ArgOptimizeAlgorithm::new().with_history_size(7).unwrap();
    o2.set_algorithm(alg2);
    assert_eq!(
        tokens_of(&o2),
        vec![
            "optimize".to_string(),
            "algorithm=lbfgs".to_string(),
            "history_size=7".to_string(),
        ]
    );
}

#[test]
fn variant_switch_restores_default_history() {
    // an L-BFGS choice with history 7 and a custom tolerance
    let mut tol = ArgOptimizeBfgs::new();
    tol.set_tol_obj(Fixed::from_parts(false, 1, 6)).unwrap();
    match ArgOptimizeAlgorithm::new().with_history_size(0) {
        Err(ArgError::BadArgumentValue(m)) => {
            assert_eq!(m, "Optimize: history_size cannot be 0");
        },
        _ => panic!("expected a rejection"),
    }
    let lbfgs = ArgOptimizeAlgorithm::new()
        .with_bfgs(tol)
        .with_history_size(7)
        .unwrap();
    assert_eq!(lbfgs.get_history_size(), Some(7));
    // switching to BFGS keeps the shared tolerances, drops the history
    let bfgs = lbfgs.without_history_size();
    assert_eq!(bfgs.get_history_size(), None);
    assert_eq!(bfgs.get_bfgs().unwrap().tol_obj, Fixed::from_parts(false, 1, 6));
    // coming back to L-BFGS through the default arm does not bring the
    // old size back: the default history is 5
    let back = ArgOptimizeAlgorithm::new().with_bfgs(*bfgs.get_bfgs().unwrap());
    assert_eq!(back.get_history_size(), Some(5));
    assert_eq!(back.get_bfgs().unwrap().tol_obj, Fixed::from_parts(false, 1, 6));
}

#[test]
fn init_param_values_make_a_side_file() {
    let mut common = WithCommonArgs::new(ArgSample::new());
    common.init.set_init_by_param("theta", DataEntry::Real(Fixed::from_parts(false, 5, 1)));
    common.init.set_init_by_param("n", DataEntry::Int(4));
    let sink = arg_vector(&common).unwrap();
    assert_eq!(
        sink.tokens,
        vec!["sample".to_string(), "init=init_params_setup.json".to_string()]
    );
    assert_eq!(sink.side_files.len(), 1);
    assert_eq!(sink.side_files[0].path.as_path(), "init_params_setup.json");
    assert_eq!(
        sink.side_files[0].content,
        "{\n    \"theta\": 0.5,\n    \"n\": 4\n}"
    );
    // re-setting a parameter replaces it in place
    common.init.set_init_by_param("theta", DataEntry::Int(1));
    let sink2 = arg_vector(&common).unwrap();
    assert_eq!(sink2.side_files[0].content, "{\n    \"theta\": 1,\n    \"n\": 4\n}");
}

#[test]
fn common_groups_serialize_in_fixed_order() {
    let mut common = WithCommonArgs::new(ArgLogProb::new());
    common.id.set_id(7);
    common.data.set_file(ArgReadablePath::Borrowed("d.json"));
    common.init.set_init_by_range(Fixed::from_int(1));
    common.random.set_seed(Some(42));
    common.output.set_file(ArgWritablePath::Borrowed("out.csv"));
    common.num_threads.set_threads(4);
    assert_eq!(
        tokens_of(&common),
        vec![
            "log_prob".to_string(),
            "id=7".to_string(),
            "data".to_string(),
            "file=d.json".to_string(),
            "init=1".to_string(),
            "random".to_string(),
            "seed=42".to_string(),
            "output".to_string(),
            "file=out.csv".to_string(),
            "num_threads=4".to_string(),
        ]
    );
    assert_eq!(common.arg_type().unwrap(), ArgType::LogProb);
    assert_eq!(common.get_output_path().unwrap().as_path(), "out.csv");
}

#[test]
fn side_groups_are_no_valid_root() {
    let id = cmdstan::stan_command::common_arg::ArgID::new();
    assert!(matches!(
        id.arg_type(),
        Err(ArgError::NotValidArgTreeType(_))
    ));
    assert!(matches!(
        ArgSample::new().get_output_path(),
        Err(ArgError::NotValidArgTreeType(_))
    ));
}

#[test]
fn fixed_decimal_rendering() {
    assert_eq!(Fixed::from_parts(false, 628319, 5).to_text(), "6.28319");
    assert_eq!(Fixed::from_parts(false, 1, 12).to_text(), "0.000000000001");
    assert_eq!(Fixed::from_parts(false, 10000000, 0).to_text(), "10000000");
    assert_eq!(Fixed::from_int(-3).to_text(), "-3");
    assert_eq!(Fixed::zero().to_text(), "0");
    assert_eq!(Fixed::from_parts(true, 25, 3).to_text(), "-0.025");
    assert_eq!(Fixed::from_parts(false, 10000, 3).to_text(), "10");
    assert_eq!(args_combine("gamma", "0.05"), "gamma=0.05");
}

#[test]
fn pathfinder_and_variational_tokens() {
    let mut p = ArgPathfinder::new();
    p.set_history_size(9).unwrap();
    p.set_num_paths(2).unwrap();
    p.set_save_single_paths(true);
    assert_eq!(
        tokens_of(&p),
        vec![
            "pathfinder".to_string(),
            "history_size=9".to_string(),
            "num_paths=2".to_string(),
            "save_single_paths=true".to_string(),
        ]
    );

    let mut v = ArgVariational::new();
    let mut va = cmdstan::stan_command::variational::ArgVariationalAdapt::new();
    va.set_engaged(false);
    v.set_adapt(va);
    v.set_eta(Fixed::from_parts(false, 5, 1)).unwrap();
    v.set_algorithm(cmdstan::stan_command::variational::ArgVariationalAlgorithm::Fullrank);
    assert_eq!(
        tokens_of(&v),
        vec![
            "variational".to_string(),
            "algorithm=fullrank".to_string(),
            "adapt".to_string(),
            "engaged=false".to_string(),
            "eta=0.5".to_string(),
        ]
    );
}

#[test]
fn output_group_tokens() {
    let mut common = WithCommonArgs::new(ArgGenerate::new());
    common
        .root
        .set_fitted_params(ArgReadablePath::Borrowed("fit.csv"));
    common.output.set_sig_figs(0).unwrap();
    common
        .output
        .set_diagnostic_file(ArgWritablePath::Borrowed("diag.csv"));
    assert_eq!(
        tokens_of(&common),
        vec![
            "generate_quantities".to_string(),
            "fitted_params=fit.csv".to_string(),
            "output".to_string(),
            "diagnostic_file=diag.csv".to_string(),
            "sig_figs=0".to_string(),
        ]
    );
}

#[test]
fn engine_tokens_follow_the_special_rules() {
    // a static engine announces itself even at its default time
    let mut h = ArgSampleHmc::new();
    let mut eng = cmdstan::stan_command::sample::ArgSampleEngine::new();
    eng.set_static_engine();
    h.set_engine(eng);
    let mut s = ArgSample::new();
    let mut alg = ArgSampleAlgorithm::new();
    alg.set_hmc(h);
    s.set_algorithm(alg);
    assert_eq!(
        tokens_of(&s),
        vec![
            "sample".to_string(),
            "algorithm=hmc".to_string(),
            "engine=static".to_string(),
        ]
    );
    // the NUTS engine is silent at its default depth and announces
    // itself with the depth otherwise
    let mut eng2 = cmdstan::stan_command::sample::ArgSampleEngine::new();
    eng2.set_nuts_max_depth(12).unwrap();
    assert_eq!(eng2.get_max_depth(), Some(12));
    let mut h2 = ArgSampleHmc::new();
    h2.set_engine(eng2);
    let mut alg2 = ArgSampleAlgorithm::new();
    alg2.set_hmc(h2);
    let mut s2 = ArgSample::new();
    s2.set_algorithm(alg2);
    assert_eq!(
        tokens_of(&s2),
        vec![
            "sample".to_string(),
            "algorithm=hmc".to_string(),
            "engine=nuts".to_string(),
            "max_depth=12".to_string(),
        ]
    );
}

#[test]
fn mut_accessors_modify_in_place() {
    let mut d = ArgDiagnose::new();
    d.get_mut_gradient()
        .set_epsilon(Fixed::from_parts(false, 1, 3))
        .unwrap();
    assert_eq!(d.get_gradient().epsilon, Fixed::from_parts(false, 1, 3));

    let mut alg = ArgOptimizeAlgorithm::new();
    alg.get_bfgs_mut()
        .unwrap()
        .set_tol_grad(Fixed::from_parts(false, 1, 4))
        .unwrap();
    assert_eq!(
        alg.get_bfgs().unwrap().tol_grad,
        Fixed::from_parts(false, 1, 4)
    );

    let mut salg = ArgSampleAlgorithm::new();
    salg.get_mut_hmc().unwrap().set_metric_unit_e();
    assert_eq!(
        salg.get_hmc().unwrap().metric,
        cmdstan::stan_command::sample::ArgSampleMetric::UnitE
    );
    salg.set_to_fixed_param();
    assert!(salg.get_mut_hmc().is_none());
}

#[test]
fn diagnose_tokens_announce_the_arm_when_overridden() {
    let mut g = cmdstan::stan_command::diagnose::ArgDiagnoseGradient::new();
    g.set_epsilon(Fixed::from_parts(false, 1, 3)).unwrap();
    let mut d = ArgDiagnose::new();
    d.set_gradient(g);
    assert_eq!(
        tokens_of(&d),
        vec![
            "diagnose".to_string(),
            "test=gradient".to_string(),
            "epsilon=0.001".to_string(),
        ]
    );
}
