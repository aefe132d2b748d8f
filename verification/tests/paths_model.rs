use cmdstan::arg_paths::ArgPath;
use cmdstan::data_entries::DataEntries;
use cmdstan::stan_model::{CmdStanModel, CmdStanModelBuilder, WithPath};
use cmdstan::StanError;

#[test]
fn extend_default_file_on_directories() {
    let mut p = ArgPath::Borrowed("outdir");
    p.extend_default_file("output.csv");
    assert_eq!(p.as_path(), "outdir/output.csv");

    let mut q = ArgPath::Borrowed("results.csv");
    q.extend_default_file("output.csv");
    assert_eq!(q.as_path(), "results.csv");

    let mut r = ArgPath::Borrowed("");
    r.extend_default_file("output.csv");
    assert_eq!(r.as_path(), "output.csv");

    let mut s = ArgPath::Borrowed("dir/");
    s.extend_default_file("output.csv");
    assert_eq!(s.as_path(), "dir/output.csv");
}

#[test]
fn promotion_hands_the_path_on() {
    let p = ArgPath::Borrowed("a/b.csv");
    let r = p.into_readable(Ok(())).unwrap();
    assert_eq!(r.as_path(), "a/b.csv");

    let p2 = ArgPath::Owned("a/b.csv".to_string());
    let e = p2.into_writeable(Err("no such directory".to_string()));
    assert!(matches!(e, Err(StanError::IoError(_))));
}

#[test]
fn builder_splits_the_model_path() {
    let b: CmdStanModelBuilder<(), DataEntries> = CmdStanModelBuilder::new_with_model(());
    let b = b.with_path("models/bernoulli.stan", false).unwrap();
    assert_eq!(b.model_name, "bernoulli.stan");
    assert_eq!(b.workspace_path.as_path(), "models");
    assert!(!b.compiled);

    let c: CmdStanModelBuilder<(), DataEntries> = CmdStanModelBuilder::new_with_model(());
    let c = c.with_path("models/bernoulli", false).unwrap();
    assert!(c.compiled);

    let w: CmdStanModelBuilder<(), DataEntries> = CmdStanModelBuilder::new_with_model(());
    let w = w.with_path("models/bernoulli", true).unwrap();
    assert_eq!(w.model_name, "bernoulli.exe");
    assert!(w.compiled);

    let bad: CmdStanModelBuilder<(), DataEntries> = CmdStanModelBuilder::new_with_model(());
    assert!(bad.with_path("models/", false).is_err());
}

#[test]
fn builder_collects_compile_args() {
    let b: CmdStanModelBuilder<(), DataEntries> = CmdStanModelBuilder::new_with_model(());
    let b = b
        .with_workspace_path("ws")
        .with_model_name("m")
        .with_complie_arg("STAN_THREADS", "true")
        .with_complie_arg("CXXFLAGS", "-O2")
        .with_complie_arg("STAN_THREADS", "false");
    assert_eq!(
        b.compile_arg_tokens(),
        vec!["STAN_THREADS=false".to_string(), "CXXFLAGS=-O2".to_string()]
    );
    assert_eq!(b.executable_name().as_path(), "ws/m");
    let m = b.build(true);
    assert!(m.compiled);
    assert_eq!(m.model_name, "m");
}

#[test]
fn model_paths_follow_the_conventions() {
    let b: CmdStanModelBuilder<(), DataEntries> = CmdStanModelBuilder::new_with_model(());
    let m = b.with_path("models/bern.stan", false).unwrap().build(false);
    assert_eq!(m.get_model_path().as_path(), "models/bern.stan");
    assert_eq!(m.executable_name().as_path(), "models/bern.stan");
    assert_eq!(m.data_file_name().as_path(), "models/bern.data.json");
    assert_eq!(m.get_model_name(), "bern.stan");
    assert_eq!(m.get_workspace_path().as_path(), "models");

    let mut m2: CmdStanModel<(), DataEntries> = m;
    m2.set_data_path(ArgPath::Borrowed("custom.json"));
    assert_eq!(m2.data_file_name().as_path(), "custom.json");
    m2.set_compiled();
    assert!(m2.compiled);
}
