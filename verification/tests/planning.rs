use repo_launch::error::ErrorKind;
use repo_launch::plan::{
    import_arguments, launch_arguments, project_subpath, remote_url, run_arguments,
    staging_components, Argument,
};
use repo_launch::reference::{parse_repository, RepositoryProps};
use repo_launch::sequence::{advance, first_step, has_ended, process_outcome, Outcome, Step};

fn strings(items: &[&str]) -> Vec<String> {
    items.iter().map(|s| s.to_string()).collect()
}

/// The arguments that stand behind `--path <project>`, each of them text.
fn after_the_project(texts: &[&str]) -> Vec<Argument> {
    let mut arguments = vec![Argument::Text("--path".to_string()), Argument::ProjectPath];
    arguments.extend(texts.iter().map(|text| Argument::Text(text.to_string())));
    arguments
}

/// The arguments as the runtime gets them, with the project's path put in.
fn put_in(arguments: &[Argument], project_path: &str) -> Vec<String> {
    arguments
        .iter()
        .map(|argument| match argument {
            Argument::Text(text) => text.clone(),
            Argument::ProjectPath => project_path.to_string(),
        })
        .collect()
}

#[test]
fn staging_directory_of_a_branch() {
    let props = parse_repository("yunusey/gosu/tree/dev").unwrap();
    assert_eq!(staging_components(&props), strings(&["yunusey", "gosu", "dev"]));
}

#[test]
fn staging_directory_without_branch() {
    let props = parse_repository("https://github.com/yunusey/gosu").unwrap();
    assert_eq!(staging_components(&props), strings(&["yunusey", "gosu", "default"]));
}

#[test]
fn staging_directory_is_the_same_every_time() {
    let first = parse_repository("www.github.com/a/b/tree/c/d").unwrap();
    let second = parse_repository("ftp://a/b/tree/c/d").unwrap();
    assert_eq!(staging_components(&first), staging_components(&second));
    assert_eq!(staging_components(&first), staging_components(&first));
    assert_eq!(project_subpath(&first), project_subpath(&second));
}

#[test]
fn remote_address() {
    let props = parse_repository("yunusey/gosu/tree/dev/sub").unwrap();
    assert_eq!(remote_url(&props), "https://github.com/yunusey/gosu");
    assert_eq!(parse_repository(&remote_url(&props)).unwrap().owner, "yunusey");
}

#[test]
fn project_folder() {
    let props = parse_repository("a/b/tree/c/gui/theming_override").unwrap();
    assert_eq!(project_subpath(&props), "gui/theming_override");
    let props = parse_repository("a/b/tree/c").unwrap();
    assert_eq!(project_subpath(&props), "");
    let props = parse_repository("a/b").unwrap();
    assert_eq!(project_subpath(&props), "");
    let props = parse_repository("a/b/tree/c/d/").unwrap();
    assert_eq!(project_subpath(&props), "d/");
}

#[test]
fn project_folder_of_a_record_written_by_hand() {
    let props = RepositoryProps {
        owner: "o".to_string(),
        repo: "r".to_string(),
        branch: None,
        subpath: Some(strings(&["x", "y"])),
    };
    assert_eq!(project_subpath(&props), "x/y");
    assert_eq!(staging_components(&props), strings(&["o", "r", "default"]));
}

#[test]
fn arguments_of_the_import() {
    assert_eq!(
        import_arguments(),
        vec![
            Argument::Text("--path".to_string()),
            Argument::ProjectPath,
            Argument::Text("--headless".to_string()),
            Argument::Text("--quit".to_string()),
        ]
    );
    assert_eq!(
        put_in(&import_arguments(), "/tmp/a/b/c"),
        strings(&["--path", "/tmp/a/b/c", "--headless", "--quit"])
    );
}

#[test]
fn arguments_of_the_run() {
    assert_eq!(
        run_arguments("--resolution 1920x1080"),
        after_the_project(&["--resolution", "1920x1080"])
    );
    assert_eq!(
        put_in(&run_arguments("--resolution 1920x1080"), "/tmp/a/b/c"),
        strings(&["--path", "/tmp/a/b/c", "--resolution", "1920x1080"])
    );
    assert_eq!(run_arguments(""), after_the_project(&[""]));
    assert_eq!(run_arguments("a  b"), after_the_project(&["a", "", "b"]));
    assert_eq!(run_arguments("'a b'"), after_the_project(&["'a", "b'"]));
}

#[test]
fn stage_and_launch_from_end_to_end() {
    let props = parse_repository(
        "godotengine/godot-demo-projects/tree/master/gui/theming_override",
    )
    .unwrap();
    let staging = staging_components(&props);
    assert_eq!(staging, strings(&["godotengine", "godot-demo-projects", "master"]));
    assert_eq!(remote_url(&props), "https://github.com/godotengine/godot-demo-projects");
    assert_eq!(props.branch.as_deref(), Some("master"));

    let staging_path = format!("/tmp/{}/", staging.join("/"));
    assert!(staging_path.ends_with("/godotengine/godot-demo-projects/master/"));
    let project_path = format!("{}{}", staging_path, project_subpath(&props));
    assert!(project_path.ends_with("/master/gui/theming_override"));

    let mut invocations: Vec<Vec<String>> = Vec::new();
    let mut step = first_step();
    let mut performed = Vec::new();
    while !has_ended(step) {
        performed.push(step);
        let outcome = match step {
            Step::ClearStaging | Step::Fetch => Outcome::Succeeded,
            Step::Import | Step::Run => {
                let arguments = launch_arguments(step, "--verbose --fullscreen").unwrap();
                invocations.push(put_in(&arguments, &project_path));
                process_outcome(true, Some(1))
            }
            Step::Finished | Step::Aborted(_) => unreachable!(),
        };
        step = advance(step, outcome);
    }
    assert_eq!(step, Step::Finished);
    assert_eq!(performed, vec![Step::ClearStaging, Step::Fetch, Step::Import, Step::Run]);
    assert_eq!(
        invocations,
        vec![
            strings(&["--path", &project_path, "--headless", "--quit"]),
            strings(&["--path", &project_path, "--verbose", "--fullscreen"]),
        ]
    );
}

#[test]
fn arguments_by_step() {
    assert_eq!(launch_arguments(Step::Import, "-x -y"), Some(import_arguments()));
    assert_eq!(launch_arguments(Step::Run, "-x -y"), Some(run_arguments("-x -y")));
    assert_eq!(launch_arguments(Step::Run, "-x -y"), Some(after_the_project(&["-x", "-y"])));
    assert_eq!(launch_arguments(Step::ClearStaging, "-x"), None);
    assert_eq!(launch_arguments(Step::Fetch, "-x"), None);
    assert_eq!(launch_arguments(Step::Finished, "-x"), None);
    assert_eq!(launch_arguments(Step::Aborted(ErrorKind::FetchFailed), "-x"), None);
}
