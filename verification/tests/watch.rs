use compile_typst_site::compile::{plan_single, BuildScope, CompilePlan};
use compile_typst_site::config::Config;
use compile_typst_site::logging::{default_log_level, log_level_filter, LevelFilter};
use compile_typst_site::report::error_report;
use compile_typst_site::watch::{
    is_source_path, on_build_failure, path_affects_site, plan_run, rebuild_decision,
    relevant_paths, reload_after, BuildStage, ChangeKind, FailurePolicy, Rebuild, RunPlan,
};

fn site() -> Config {
    let mut config = Config::new(b"/proj".to_vec());
    config.serve = true;
    config
}

fn paths(list: &[&str]) -> Vec<Vec<u8>> {
    list.iter().map(|a| a.as_bytes().to_vec()).collect()
}

#[test]
fn only_sources_are_relevant() {
    let config = site();
    assert!(is_source_path(b"/proj/src/a.typ", &config));
    assert!(is_source_path(b"/proj/templates/t.typ", &config));
    assert!(!is_source_path(b"/proj/_site/a/index.html", &config));
    assert!(!is_source_path(b"/proj/files.json", &config));
    assert!(!is_source_path(b"/proj/src", &config));
    let changed = paths(&[
        "/proj/_site/a/index.html",
        "/proj/src/b.typ",
        "/proj/.git/index",
        "/proj/templates/t.typ",
        "/proj/src/a.typ",
    ]);
    assert_eq!(
        relevant_paths(&changed, &config),
        paths(&["/proj/src/b.typ", "/proj/templates/t.typ", "/proj/src/a.typ"])
    );
}

#[test]
fn changes_elsewhere_are_skipped() {
    let config = site();
    let r = rebuild_decision(ChangeKind::Modify, &paths(&["/proj/_site/a.html"]), &config);
    assert!(matches!(r, Rebuild::Skip));
    let r = rebuild_decision(ChangeKind::Create, &paths(&["/proj/_site/a.html"]), &config);
    assert!(matches!(r, Rebuild::Skip));
    let r = rebuild_decision(ChangeKind::Modify, &Vec::new(), &config);
    assert!(matches!(r, Rebuild::Skip));
    let r = rebuild_decision(ChangeKind::Other, &paths(&["/proj/src/a.typ"]), &config);
    assert!(matches!(r, Rebuild::Skip));
    assert!(!reload_after(&r, &config));
}

#[test]
fn created_file_rebuilds_everything() {
    let config = site();
    let r = rebuild_decision(ChangeKind::Create, &paths(&["/proj/src/new.txt"]), &config);
    assert!(matches!(r, Rebuild::Full));
    assert!(reload_after(&r, &config));
}

#[test]
fn modified_files_are_built_as_a_batch() {
    let config = site();
    let changed = paths(&["/proj/src/a.typ", "/tmp/x", "/proj/src/b.txt"]);
    match rebuild_decision(ChangeKind::Modify, &changed, &config) {
        Rebuild::Batch(batch) => assert_eq!(batch, paths(&["/proj/src/a.typ", "/proj/src/b.txt"])),
        other => panic!("{:?}", other),
    }
}

#[test]
fn reload_only_if_the_site_changed() {
    let config = site();
    assert!(path_affects_site(b"/proj/src/a.typ", &config));
    assert!(path_affects_site(b"/proj/templates/a.typ", &config));
    assert!(!path_affects_site(b"/proj/src/notes.txt", &config));
    assert!(!reload_after(&Rebuild::Batch(paths(&["/proj/src/notes.txt"])), &config));
    assert!(reload_after(
        &Rebuild::Batch(paths(&["/proj/src/notes.txt", "/proj/src/a.typ"])),
        &config
    ));
    assert!(!reload_after(&Rebuild::Batch(Vec::new()), &config));
    assert!(reload_after(&Rebuild::Full, &config));
    assert!(!reload_after(&Rebuild::Skip, &config));
}

#[test]
fn no_reload_without_server() {
    let mut config = site();
    config.serve = false;
    assert!(!reload_after(&Rebuild::Full, &config));
    assert!(!reload_after(&Rebuild::Batch(paths(&["/proj/src/a.typ"])), &config));
}

#[test]
fn modified_template_rebuilds_the_whole_content_tree() {
    let config = site();
    let changed = paths(&["/proj/templates/base.typ"]);
    let batch = match rebuild_decision(ChangeKind::Modify, &changed, &config) {
        Rebuild::Batch(batch) => batch,
        other => panic!("{:?}", other),
    };
    assert_eq!(batch, changed);
    let plan = plan_single(&batch[0], &config, BuildScope::Single).unwrap();
    assert!(matches!(plan, CompilePlan::RebuildAll));
    assert!(reload_after(&Rebuild::Batch(batch), &config));
}

#[test]
fn only_the_first_build_is_fatal() {
    assert_eq!(on_build_failure(BuildStage::Initial), FailurePolicy::Exit);
    assert_eq!(on_build_failure(BuildStage::Watching), FailurePolicy::Continue);
}

#[test]
fn run_plans() {
    let mut config = Config::new(b"/proj".to_vec());
    assert_eq!(plan_run(&config), RunPlan { build_first: true, serve: false, watch: false });
    config.watch = true;
    assert_eq!(plan_run(&config), RunPlan { build_first: true, serve: false, watch: true });
    config.watch = false;
    config.serve = true;
    config.ignore_initial = true;
    assert_eq!(plan_run(&config), RunPlan { build_first: false, serve: true, watch: true });
}

#[test]
fn log_levels() {
    let mut config = Config::new(b"/proj".to_vec());
    assert_eq!(default_log_level(), LevelFilter::Info);
    assert_eq!(log_level_filter(&config), LevelFilter::Info);
    config.verbose = true;
    assert_eq!(log_level_filter(&config), LevelFilter::Debug);
    config.trace = true;
    assert_eq!(log_level_filter(&config), LevelFilter::Trace);
    config.verbose = false;
    assert_eq!(log_level_filter(&config), LevelFilter::Trace);
}

#[test]
fn error_chain_is_reported_layer_by_layer() {
    assert_eq!(error_report(&Vec::new()), Vec::<Vec<u8>>::new());
    assert_eq!(error_report(&paths(&["build failed"])), paths(&["Error: build failed"]));
    assert_eq!(
        error_report(&paths(&["build failed", "renderer failed", "no such file"])),
        paths(&["Error: build failed", "  Caused by: renderer failed", "  Caused by: no such file"])
    );
}

#[test]
fn default_configuration() {
    let config = Config::new(b"/proj".to_vec());
    assert_eq!(config.content_root(), b"/proj/src".to_vec());
    assert_eq!(config.template_root(), b"/proj/templates".to_vec());
    assert_eq!(config.output_root(), b"/proj/_site".to_vec());
    assert!(config.passthrough_copy_globs.is_empty());
    assert!(config.init.is_empty());
    assert!(!config.literal_paths);
}
