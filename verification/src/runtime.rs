//! Finding the runtime executable.
//!
//! A run uses the executable that the user names. Where the user names none,
//! a short list of known names is tried in order on the executable search
//! path, and the first that is found is taken.

use crate::error::ErrorKind;
use std::path::PathBuf;
use vstd::prelude::*;

verus! {

/// A path of the standard library. Nothing inside it is visible here: such a
/// path is carried through as it is.
#[verifier::external_type_specification]
#[verifier::external_body]
pub struct ExPathBuf(PathBuf);

/// Where the runtime executable lies.
#[derive(Debug, PartialEq)]
pub enum RuntimePath {
    /// A path that is text.
    Text(String),
    /// A path that is not valid Unicode, kept as it was found.
    Raw(PathBuf),
}

impl RuntimePath {
    /// The invariant of a path that names a file: where it is text, it is
    /// not empty.
    pub open spec fn wf(self) -> bool {
        self matches RuntimePath::Text(path) ==> path@.len() > 0
    }
}

/// The names under which the runtime is known, in the order they are tried.
pub open spec fn candidate_names() -> Seq<Seq<char>> {
    seq!["godot"@, "godot4"@, "godot3"@]
}

/// Whether `lookups` is what a search over `count` names leaves: one lookup
/// for each name that was tried, in order, with nothing found before the
/// last of them, and with names left untried only behind a lookup that found
/// one.
pub open spec fn stops_at_first_hit(lookups: Seq<Option<RuntimePath>>, count: int) -> bool {
    &&& lookups.len() <= count
    &&& forall|i: int| 0 <= i < lookups.len() - 1 ==> (#[trigger] lookups[i]) is None
    &&& (lookups.len() < count ==> lookups.len() > 0 && lookups.last() is Some)
}

/// Every path among the lookups is well formed.
pub open spec fn all_well_formed(lookups: Seq<Option<RuntimePath>>) -> bool {
    forall|i: int|
        0 <= i < lookups.len() ==> ((#[trigger] lookups[i]) matches Some(path) ==> path.wf())
}

/// The first lookup that found a path, or `None` where none did.
pub open spec fn first_hit(lookups: Seq<Option<RuntimePath>>) -> Option<RuntimePath>
    decreases lookups.len(),
{
    if lookups.len() == 0 {
        None
    } else if lookups[0] is Some {
        lookups[0]
    } else {
        first_hit(lookups.drop_first())
    }
}

/// The runtime to use: the one that is given, where one is given; else the
/// one that was found; else none.
pub open spec fn chosen_runtime(given: Seq<char>, found: Option<RuntimePath>, chosen: Result<
    RuntimePath,
    ErrorKind,
>) -> bool {
    if given.len() > 0 {
        chosen matches Ok(RuntimePath::Text(path)) && path@ == given
    } else {
        match found {
            Some(path) => chosen == Ok::<RuntimePath, ErrorKind>(path),
            None => chosen == Err::<RuntimePath, ErrorKind>(ErrorKind::RuntimeNotFound),
        }
    }
}

/// The names under which the runtime is known, in the order they are tried.
pub fn executable_names() -> (names: Vec<String>)
    ensures
        names.deep_view() == candidate_names(),
{
    let mut names: Vec<String> = Vec::new();
    names.push("godot".to_owned());
    names.push("godot4".to_owned());
    names.push("godot3".to_owned());
    proof {
        assert(names.deep_view() =~= candidate_names());
    }
    names
}

/// Looks an executable up by name with `which::which`, which searches the
/// directories of the executable search path for an executable file of that
/// name and gives its path or an error.
///
/// Whether a path comes back depends on the machine. One that comes back is
/// not empty: `which` gives a path only after it found a file there, and no
/// file lies at the empty path. An error of the lookup gives `None`; a path
/// that is not valid Unicode is handed on as it is.
#[verifier::external_body]
fn locate(name: &str) -> (found: Option<RuntimePath>)
    ensures
        found matches Some(path) ==> path.wf(),
{
    match which::which(name) {
        Ok(path) => match path.into_os_string().into_string() {
            Ok(text) => Some(RuntimePath::Text(text)),
            Err(raw) => Some(RuntimePath::Raw(PathBuf::from(raw))),
        },
        Err(_) => None,
    }
}

/// Tries the names in order on the executable search path and gives the path
/// of the first that is found there. What is found depends on the machine;
/// with no name to try, nothing is found, and a path that is found is well
/// formed.
pub fn find_executable(names: &Vec<String>) -> (found: Option<RuntimePath>)
    ensures
        names.len() == 0 ==> found is None,
        found matches Some(path) ==> path.wf(),
{
    let lookups = search(names);
    proof {
        if names.len() == 0 {
            assert(lookups@ =~= Seq::empty());
        }
        lemma_first_hit_is_among(lookups@);
    }
    first_found(lookups)
}

/// Tries the known names of the runtime in order on the executable search
/// path and gives the path of the first that is found there. Whether one is
/// found, and which, depends on the machine; a path that is found is well
/// formed.
pub fn find_godot() -> (found: Option<RuntimePath>)
    ensures
        found matches Some(path) ==> path.wf(),
{
    let names = executable_names();
    let lookups = search(&names);
    proof {
        lemma_first_hit_is_among(lookups@);
    }
    first_found(lookups)
}

/// The first hit is one of the lookups, and nothing was found before it;
/// there is none only where nothing was found at all.
pub proof fn lemma_first_hit_is_among(lookups: Seq<Option<RuntimePath>>)
    ensures
        match first_hit(lookups) {
            Some(path) => exists|i: int|
                0 <= i < lookups.len() && #[trigger] lookups[i] == Some(path) && forall|j: int|
                    0 <= j < i ==> (#[trigger] lookups[j]) is None,
            None => forall|i: int| 0 <= i < lookups.len() ==> (#[trigger] lookups[i]) is None,
        },
    decreases lookups.len(),
{
    if lookups.len() > 0 && lookups[0] is None {
        let rest = lookups.drop_first();
        lemma_first_hit_is_among(rest);
        assert(forall|i: int| 0 <= i < rest.len() ==> rest[i] == lookups[i + 1]);
        match first_hit(rest) {
            Some(path) => {
                let i = choose|i: int|
                    0 <= i < rest.len() && #[trigger] rest[i] == Some(path) && forall|j: int|
                        0 <= j < i ==> (#[trigger] rest[j]) is None;
                assert(lookups[i + 1] == Some(path));
                assert forall|j: int| 0 <= j < i + 1 implies (#[trigger] lookups[j]) is None by {
                    if j > 0 {
                        assert(rest[j - 1] is None);
                    }
                }
            },
            None => {
                assert forall|i: int| 0 <= i < lookups.len() implies (#[trigger] lookups[i])
                    is None by {
                    if i > 0 {
                        assert(rest[i - 1] is None);
                    }
                }
            },
        }
    } else if lookups.len() > 0 {
        assert(lookups[0] == Some(first_hit(lookups).unwrap()));
    }
}

/// Looks the names up in order on the executable search path, up to the
/// first that is found, and gives what each lookup gave. What the lookups
/// give depends on the machine; that they stop at the first hit, and not
/// before, and that every path found is well formed, does not.
pub fn search(names: &Vec<String>) -> (lookups: Vec<Option<RuntimePath>>)
    ensures
        stops_at_first_hit(lookups@, names.len() as int),
        all_well_formed(lookups@),
{
    let mut lookups: Vec<Option<RuntimePath>> = Vec::new();
    let mut hit = false;
    let mut i: usize = 0;
    while i < names.len() && !hit
        invariant
            i <= names.len(),
            lookups.len() == i,
            forall|j: int| 0 <= j < i - 1 ==> (#[trigger] lookups[j]) is None,
            hit <==> i > 0 && lookups[i - 1] is Some,
            all_well_formed(lookups@),
        decreases names.len() - i,
    {
        let lookup = locate(names[i].as_str());
        hit = lookup.is_some();
        lookups.push(lookup);
        i += 1;
    }
    lookups
}

/// The first of the lookups that found a path.
pub fn first_found(lookups: Vec<Option<RuntimePath>>) -> (found: Option<RuntimePath>)
    ensures
        found == first_hit(lookups@),
{
    let mut left = lookups;
    let mut i: usize = 0;
    proof {
        assert(lookups@.skip(0) =~= lookups@);
    }
    while i < left.len()
        invariant
            i <= left.len(),
            left@ == lookups@,
            first_hit(lookups@) == first_hit(lookups@.skip(i as int)),
        decreases left.len() - i,
    {
        proof {
            assert(lookups@.skip(i as int)[0] == lookups@[i as int]);
            assert(lookups@.skip(i as int).drop_first() =~= lookups@.skip(i + 1));
        }
        if left[i].is_some() {
            return left.swap_remove(i);
        }
        i += 1;
    }
    None
}

/// Decides on the runtime, given what the user named (empty where the user
/// named nothing) and what a search found.
pub fn choose_runtime(given: &str, found: Option<RuntimePath>) -> (chosen: Result<
    RuntimePath,
    ErrorKind,
>)
    ensures
        chosen_runtime(given@, found, chosen),
{
    if !given.is_empty() {
        Ok(RuntimePath::Text(given.to_owned()))
    } else {
        match found {
            Some(path) => Ok(path),
            None => Err(ErrorKind::RuntimeNotFound),
        }
    }
}

/// The runtime to use: the one that the user named, without any search; or,
/// where `given` is empty, the first of the known names that is found on
/// this machine, and `RuntimeNotFound` where none is. The runtime that is
/// handed on is well formed: it is never the empty path.
pub fn resolve_runtime(given: &str) -> (chosen: Result<RuntimePath, ErrorKind>)
    ensures
        given@.len() > 0 ==> (chosen matches Ok(RuntimePath::Text(path)) && path@ == given@),
        given@.len() == 0 ==> (chosen is Ok || chosen == Err::<RuntimePath, ErrorKind>(
            ErrorKind::RuntimeNotFound,
        )),
        chosen matches Ok(path) ==> path.wf(),
{
    if !given.is_empty() {
        choose_runtime(given, None)
    } else {
        let found = find_godot();
        choose_runtime(given, found)
    }
}

} // verus!
