//! What a run works on: where the repository is staged, where it is fetched
//! from, where the project lies in it, and how the runtime is invoked.
//!
//! Paths are given as their components, relative to the directory that the
//! caller stages under; putting them on a file system is the caller's part.
//! So is the project's path among the runtime's arguments: the arguments
//! say where it stands, and the caller puts it there as it is.

use crate::reference::{host_prefix, Reference, RepositoryProps};
use crate::sequence::Step;
use crate::text::{join, join_segments, split, split_on};
use vstd::prelude::*;

verus! {

/// One argument of an invocation of the runtime.
#[derive(Debug, Clone, PartialEq, Eq)]
pub enum Argument {
    /// Text that is handed to the runtime as it is.
    Text(String),
    /// The place of the project's path, which the caller puts in.
    ProjectPath,
}

/// An argument as a mathematical value.
pub enum ArgumentView {
    Text(Seq<char>),
    ProjectPath,
}

impl View for Argument {
    type V = ArgumentView;

    open spec fn view(&self) -> ArgumentView {
        match self {
            Argument::Text(text) => ArgumentView::Text(text@),
            Argument::ProjectPath => ArgumentView::ProjectPath,
        }
    }
}

impl DeepView for Argument {
    type V = ArgumentView;

    open spec fn deep_view(&self) -> ArgumentView {
        self@
    }
}

/// The folder that stands for the branch where a reference names none.
pub open spec fn default_branch_folder() -> Seq<char> {
    "default"@
}

/// The components of the staging directory: owner, repository, and the
/// branch or the default folder.
pub open spec fn staging_segments(r: Reference) -> Seq<Seq<char>> {
    seq![
        r.owner,
        r.repo,
        match r.branch {
            Some(branch) => branch,
            None => default_branch_folder(),
        },
    ]
}

/// The address that a repository is fetched from.
pub open spec fn remote_url_of(r: Reference) -> Seq<char> {
    "https://"@ + host_prefix() + r.owner.push('/') + r.repo
}

/// The project's folder below the staging directory: the subpath's segments
/// joined by slashes, or nothing where the project is the repository's root.
pub open spec fn project_subpath_of(r: Reference) -> Seq<char> {
    match r.subpath {
        Some(segments) => join(segments, '/'),
        None => Seq::empty(),
    }
}

/// The arguments of the first invocation, which imports the project and quits.
pub open spec fn import_arguments_of() -> Seq<ArgumentView> {
    seq![
        ArgumentView::Text("--path"@),
        ArgumentView::ProjectPath,
        ArgumentView::Text("--headless"@),
        ArgumentView::Text("--quit"@),
    ]
}

/// The arguments of the second invocation: the project, then the extra
/// arguments cut at each single space.
pub open spec fn run_arguments_of(extra: Seq<char>) -> Seq<ArgumentView> {
    seq![ArgumentView::Text("--path"@), ArgumentView::ProjectPath] + split(extra, ' ').map_values(
        |piece: Seq<char>| ArgumentView::Text(piece),
    )
}

/// The arguments with which the runtime is invoked at a step: those of the
/// import at the import, those of the run at the run, and none at a step
/// that starts no runtime.
pub open spec fn launch_arguments_of(step: Step, extra: Seq<char>) -> Option<Seq<ArgumentView>> {
    match step {
        Step::Import => Some(import_arguments_of()),
        Step::Run => Some(run_arguments_of(extra)),
        _ => None,
    }
}

/// The components of the staging directory of a reference, below the
/// directory that repositories are staged under.
pub fn staging_components(props: &RepositoryProps) -> (segments: Vec<String>)
    ensures
        segments.deep_view() == staging_segments(props@),
{
    let mut segments: Vec<String> = Vec::new();
    segments.push(props.owner.clone());
    segments.push(props.repo.clone());
    match &props.branch {
        Some(branch) => segments.push(branch.clone()),
        None => segments.push("default".to_owned()),
    }
    proof {
        assert(segments.deep_view() =~= staging_segments(props@));
    }
    segments
}

/// The address that the repository of a reference is fetched from.
pub fn remote_url(props: &RepositoryProps) -> (url: String)
    ensures
        url@ == remote_url_of(props@),
{
    let mut url = String::new();
    url.append("https://");
    url.append("github.com/");
    url.append(props.owner.as_str());
    url.append("/");
    url.append(props.repo.as_str());
    proof {
        reveal_strlit("/");
        assert("/"@ =~= seq!['/']);
        assert(url@ =~= remote_url_of(props@));
    }
    url
}

/// The project's folder below the staging directory.
pub fn project_subpath(props: &RepositoryProps) -> (subpath: String)
    ensures
        subpath@ == project_subpath_of(props@),
{
    match &props.subpath {
        Some(segments) => join_segments(segments),
        None => String::new(),
    }
}

/// The arguments with which the runtime is first invoked on a project.
pub fn import_arguments() -> (arguments: Vec<Argument>)
    ensures
        arguments.deep_view() == import_arguments_of(),
{
    let mut arguments: Vec<Argument> = Vec::new();
    arguments.push(Argument::Text("--path".to_owned()));
    arguments.push(Argument::ProjectPath);
    arguments.push(Argument::Text("--headless".to_owned()));
    arguments.push(Argument::Text("--quit".to_owned()));
    proof {
        assert(arguments.deep_view() =~= import_arguments_of());
    }
    arguments
}

/// The arguments with which the runtime is then run on a project. `extra` is
/// cut at each single space; nothing in it is quoted or escaped.
pub fn run_arguments(extra: &str) -> (arguments: Vec<Argument>)
    ensures
        arguments.deep_view() == run_arguments_of(extra@),
{
    let mut arguments: Vec<Argument> = Vec::new();
    arguments.push(Argument::Text("--path".to_owned()));
    arguments.push(Argument::ProjectPath);
    let pieces = split_on(extra, ' ');
    let ghost head = seq![ArgumentView::Text("--path"@), ArgumentView::ProjectPath];
    let ghost wrap = |piece: Seq<char>| ArgumentView::Text(piece);
    let mut i: usize = 0;
    proof {
        assert(arguments.deep_view() =~= head + pieces.deep_view().take(0).map_values(wrap));
    }
    while i < pieces.len()
        invariant
            i <= pieces.len(),
            head == seq![ArgumentView::Text("--path"@), ArgumentView::ProjectPath],
            wrap == |piece: Seq<char>| ArgumentView::Text(piece),
            arguments.deep_view() == head + pieces.deep_view().take(i as int).map_values(wrap),
        decreases pieces.len() - i,
    {
        let ghost before = arguments.deep_view();
        arguments.push(Argument::Text(pieces[i].clone()));
        proof {
            assert(arguments.deep_view() =~= before.push(ArgumentView::Text(pieces[i as int]@)));
            assert(pieces.deep_view().take(i + 1).map_values(wrap) =~= pieces.deep_view().take(
                i as int,
            ).map_values(wrap).push(ArgumentView::Text(pieces[i as int]@)));
            assert(arguments.deep_view() =~= head + pieces.deep_view().take(i + 1).map_values(
                wrap,
            ));
        }
        i += 1;
    }
    proof {
        assert(pieces.deep_view().take(pieces.len() as int) =~= pieces.deep_view());
    }
    arguments
}

/// The arguments with which the runtime is invoked at `step`, or `None` at a
/// step that starts no runtime. The extra arguments go to the run alone.
pub fn launch_arguments(step: Step, extra: &str) -> (arguments: Option<Vec<Argument>>)
    ensures
        match arguments {
            Some(list) => launch_arguments_of(step, extra@) == Some(list.deep_view()),
            None => launch_arguments_of(step, extra@) is None,
        },
{
    match step {
        Step::Import => Some(import_arguments()),
        Step::Run => Some(run_arguments(extra)),
        _ => None,
    }
}

} // verus!
