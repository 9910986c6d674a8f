use repo_launch::error::{ErrorClass, ErrorKind};
use repo_launch::runtime::{
    choose_runtime, executable_names, find_executable, find_godot, first_found, resolve_runtime,
    search, RuntimePath,
};
use std::path::PathBuf;

fn text(path: &str) -> RuntimePath {
    RuntimePath::Text(path.to_string())
}

fn raw(path: &str) -> RuntimePath {
    RuntimePath::Raw(PathBuf::from(path))
}
use repo_launch::sequence::{
    advance, clearing_outcome, first_step, has_ended, process_outcome, Outcome, Step,
};

#[test]
fn steps_in_order() {
    assert_eq!(first_step(), Step::ClearStaging);
    assert_eq!(advance(Step::ClearStaging, Outcome::Succeeded), Step::Fetch);
    assert_eq!(advance(Step::Fetch, Outcome::Succeeded), Step::Import);
    assert_eq!(advance(Step::Import, Outcome::Succeeded), Step::Run);
    assert_eq!(advance(Step::Run, Outcome::Succeeded), Step::Finished);
}

#[test]
fn each_failure_aborts_with_its_kind() {
    assert_eq!(
        advance(Step::ClearStaging, Outcome::Failed),
        Step::Aborted(ErrorKind::StaleStagingRemovalFailed)
    );
    assert_eq!(advance(Step::Fetch, Outcome::Failed), Step::Aborted(ErrorKind::FetchFailed));
    assert_eq!(
        advance(Step::Import, Outcome::Failed),
        Step::Aborted(ErrorKind::RuntimeSpawnFailed)
    );
    assert_eq!(advance(Step::Run, Outcome::Failed), Step::Aborted(ErrorKind::RuntimeSpawnFailed));
}

#[test]
fn an_ended_run_stays_ended() {
    for outcome in [Outcome::Succeeded, Outcome::Failed] {
        assert_eq!(advance(Step::Finished, outcome), Step::Finished);
        for kind in [
            ErrorKind::ReferenceUnparseable,
            ErrorKind::RuntimeNotFound,
            ErrorKind::StaleStagingRemovalFailed,
            ErrorKind::FetchFailed,
            ErrorKind::RuntimeSpawnFailed,
        ] {
            assert_eq!(advance(Step::Aborted(kind), outcome), Step::Aborted(kind));
        }
    }
    assert!(has_ended(Step::Finished));
    assert!(has_ended(Step::Aborted(ErrorKind::FetchFailed)));
    assert!(!has_ended(Step::ClearStaging));
    assert!(!has_ended(Step::Fetch));
    assert!(!has_ended(Step::Import));
    assert!(!has_ended(Step::Run));
}

#[test]
fn a_failed_fetch_starts_no_runtime() {
    let mut step = first_step();
    let mut performed = Vec::new();
    while !has_ended(step) {
        performed.push(step);
        let outcome = if step == Step::Fetch { Outcome::Failed } else { Outcome::Succeeded };
        step = advance(step, outcome);
    }
    assert_eq!(performed, vec![Step::ClearStaging, Step::Fetch]);
    assert_eq!(step, Step::Aborted(ErrorKind::FetchFailed));
}

#[test]
fn exit_codes_are_not_looked_at() {
    assert_eq!(process_outcome(true, Some(0)), Outcome::Succeeded);
    assert_eq!(process_outcome(true, Some(1)), Outcome::Succeeded);
    assert_eq!(process_outcome(true, Some(-9)), Outcome::Succeeded);
    assert_eq!(process_outcome(true, None), Outcome::Succeeded);
    assert_eq!(process_outcome(false, None), Outcome::Failed);
    assert_eq!(process_outcome(false, Some(0)), Outcome::Failed);
}

#[test]
fn clearing_fails_only_where_removal_fails() {
    assert_eq!(clearing_outcome(false, false), Outcome::Succeeded);
    assert_eq!(clearing_outcome(false, true), Outcome::Succeeded);
    assert_eq!(clearing_outcome(true, true), Outcome::Succeeded);
    assert_eq!(clearing_outcome(true, false), Outcome::Failed);
}

#[test]
fn classes_of_errors() {
    assert_eq!(ErrorKind::ReferenceUnparseable.class(), ErrorClass::Setup);
    assert_eq!(ErrorKind::RuntimeNotFound.class(), ErrorClass::Setup);
    assert_eq!(ErrorKind::StaleStagingRemovalFailed.class(), ErrorClass::External);
    assert_eq!(ErrorKind::FetchFailed.class(), ErrorClass::External);
    assert_eq!(ErrorKind::RuntimeSpawnFailed.class(), ErrorClass::External);
}

#[test]
fn only_an_unparseable_reference_stops_quietly() {
    assert!(ErrorKind::ReferenceUnparseable.stops_quietly());
    assert!(!ErrorKind::RuntimeNotFound.stops_quietly());
    assert!(!ErrorKind::StaleStagingRemovalFailed.stops_quietly());
    assert!(!ErrorKind::FetchFailed.stops_quietly());
    assert!(!ErrorKind::RuntimeSpawnFailed.stops_quietly());
}

#[test]
fn known_names_of_the_runtime() {
    assert_eq!(executable_names(), vec!["godot", "godot4", "godot3"]);
}

#[test]
fn a_given_runtime_is_taken_as_it_is() {
    assert_eq!(choose_runtime("/opt/godot", None), Ok(text("/opt/godot")));
    assert_eq!(choose_runtime("/opt/godot", Some(text("/usr/bin/godot4"))), Ok(text("/opt/godot")));
    assert_eq!(choose_runtime("/opt/godot", Some(raw("/usr/bin/godot4"))), Ok(text("/opt/godot")));
    assert_eq!(resolve_runtime("/opt/godot"), Ok(text("/opt/godot")));
    assert_eq!(resolve_runtime("godot-beta"), Ok(text("godot-beta")));
}

#[test]
fn without_a_given_runtime_the_found_one_is_taken() {
    assert_eq!(choose_runtime("", Some(text("/usr/bin/godot4"))), Ok(text("/usr/bin/godot4")));
    assert_eq!(choose_runtime("", Some(raw("/usr/bin/godot4"))), Ok(raw("/usr/bin/godot4")));
    assert_eq!(choose_runtime("", None), Err(ErrorKind::RuntimeNotFound));
}

#[test]
fn nothing_is_found_under_no_name_or_an_unknown_one() {
    assert_eq!(find_executable(&Vec::new()), None);
    let unknown = vec!["no-such-executable-f3a9c1d7".to_string()];
    assert_eq!(find_executable(&unknown), None);
    assert_eq!(find_executable(&vec![String::new()]), None);
}

#[test]
fn what_is_found_is_a_path_to_the_name() {
    let names = vec!["no-such-executable-f3a9c1d7".to_string(), "sh".to_string()];
    if let Some(RuntimePath::Text(path)) = find_executable(&names) {
        assert_ne!(path, "sh");
        assert!(!path.is_empty());
        assert!(path.ends_with("sh"), "{path}");
    }
}

#[test]
fn the_search_agrees_with_the_resolver() {
    match find_godot() {
        Some(RuntimePath::Text(path)) => assert!(path.contains("godot"), "{path}"),
        Some(RuntimePath::Raw(path)) => assert!(path.to_str().is_none()),
        None => assert_eq!(resolve_runtime(""), Err(ErrorKind::RuntimeNotFound)),
    }
}

#[test]
fn a_resolved_runtime_is_never_the_empty_path() {
    for given in ["", "godot", "/opt/godot"] {
        if let Ok(RuntimePath::Text(path)) = resolve_runtime(given) {
            assert!(!path.is_empty());
        }
    }
}

#[test]
fn the_first_lookup_that_found_one_wins() {
    assert_eq!(first_found(vec![]), None);
    assert_eq!(first_found(vec![None, None, None]), None);
    assert_eq!(first_found(vec![Some(text("/a/godot"))]), Some(text("/a/godot")));
    assert_eq!(first_found(vec![None, Some(text("/b/godot4"))]), Some(text("/b/godot4")));
    assert_eq!(
        first_found(vec![Some(text("/a/godot")), Some(text("/b/godot4"))]),
        Some(text("/a/godot"))
    );
    assert_eq!(
        first_found(vec![None, Some(text("/b/godot4")), Some(text("/a/godot"))]),
        Some(text("/b/godot4"))
    );
    assert_eq!(first_found(vec![None, None, Some(text("/c/godot3"))]), Some(text("/c/godot3")));
    assert_eq!(
        first_found(vec![None, Some(raw("/b/godot4")), Some(text("/c/godot3"))]),
        Some(raw("/b/godot4"))
    );
}

#[test]
fn a_search_looks_every_name_up_that_is_not_found() {
    assert_eq!(search(&Vec::new()), Vec::<Option<RuntimePath>>::new());
    let unknown = vec![
        "no-such-executable-f3a9c1d7".to_string(),
        "no-such-executable-07be44a2".to_string(),
    ];
    assert_eq!(search(&unknown), vec![None, None]);
}

#[test]
fn a_search_stops_at_the_first_hit() {
    let names = vec![
        "no-such-executable-f3a9c1d7".to_string(),
        "sh".to_string(),
        "no-such-executable-07be44a2".to_string(),
    ];
    let lookups = search(&names);
    assert!(lookups.len() == 2 || lookups.len() == 3);
    assert_eq!(lookups[0], None);
    if lookups.len() == 2 {
        assert!(lookups[1].is_some());
    } else {
        assert_eq!(lookups[1], None);
        assert_eq!(lookups[2], None);
    }
    assert_eq!(first_found(lookups), find_executable(&names));
}
