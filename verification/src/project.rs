//! The workspace model: a project descriptor owning named sub-projects,
//! and the selection of the sub-projects an invocation targets.

use vstd::prelude::*;
use vstd::string::StrSliceExecFns;

verus! {

/// A named, path-addressable unit within a workspace. The name is
/// unique within its owning descriptor; the root path lies within the
/// descriptor's root.
#[derive(Debug)]
pub struct SubProject {
    pub name: String,
    pub root_path: String,
}

impl Clone for SubProject {
    fn clone(&self) -> (r: Self)
        ensures
            r == *self,
    {
        SubProject { name: self.name.clone(), root_path: self.root_path.clone() }
    }
}

/// The root manifest of a workspace: its own root path, the addressable
/// projects in declared order (the root project among them where it is
/// itself addressable), and, where one is known, the index of the
/// default project — the one nearest the invocation context.
///
/// Loaded once per invocation and treated as immutable for the run.
#[derive(Debug)]
pub struct ProjectDescriptor {
    pub root_path: String,
    pub projects: Vec<SubProject>,
    pub default_index: Option<usize>,
}

impl ProjectDescriptor {
    /// Well-formedness: project names are unique, every project's root
    /// path lies within the descriptor's root, and the default index,
    /// if any, addresses a registered project.
    pub open spec fn wf(&self) -> bool {
        &&& forall|i: int, j: int|
            0 <= i < j < self.projects@.len() ==> self.projects@[i].name@
                != self.projects@[j].name@
        &&& forall|i: int|
            0 <= i < self.projects@.len() ==> self.root_path@.is_prefix_of(
                #[trigger] self.projects@[i].root_path@,
            )
        &&& match self.default_index {
            Option::Some(k) => k < self.projects@.len(),
            Option::None => true,
        }
    }
}

/// True when `parent` is a character-wise prefix of `child`.
fn is_path_prefix(parent: &String, child: &String) -> (r: bool)
    ensures
        r == parent@.is_prefix_of(child@),
{
    let plen = parent.as_str().unicode_len();
    let clen = child.as_str().unicode_len();
    if plen > clen {
        return false;
    }
    let mut i: usize = 0;
    while i < plen
        invariant
            i <= plen,
            plen == parent@.len(),
            clen == child@.len(),
            plen <= clen,
            forall|j: int| 0 <= j < i ==> parent@[j] == child@[j],
        decreases plen - i,
    {
        if parent.as_str().get_char(i) != child.as_str().get_char(i) {
            proof {
                if parent@.is_prefix_of(child@) {
                    assert(parent@[i as int] == child@.subrange(0, plen as int)[i as int]);
                }
            }
            return false;
        }
        i = i + 1;
    }
    proof {
        assert(parent@ =~= child@.subrange(0, plen as int));
    }
    true
}

/// The index of the first project whose name is `name`, if any.
pub open spec fn find_named(projects: Seq<SubProject>, name: Seq<char>) -> Option<int>
    decreases projects.len(),
{
    if projects.len() == 0 {
        Option::None
    } else if projects[0].name@ == name {
        Option::Some(0)
    } else {
        match find_named(projects.drop_first(), name) {
            Option::Some(i) => Option::Some(i + 1),
            Option::None => Option::None,
        }
    }
}

/// `find_named` returns the first index carrying `name`, or `None` when
/// no project carries it.
pub proof fn lemma_find_named_characterization(projects: Seq<SubProject>, name: Seq<char>)
    ensures
        match find_named(projects, name) {
            Option::Some(i) => 0 <= i < projects.len() && projects[i].name@ == name && forall|
                j: int,
            | 0 <= j < i ==> projects[j].name@ != name,
            Option::None => forall|j: int| 0 <= j < projects.len() ==> projects[j].name@ != name,
        },
    decreases projects.len(),
{
    if projects.len() > 0 && projects[0].name@ != name {
        lemma_find_named_characterization(projects.drop_first(), name);
        assert(forall|j: int|
            1 <= j < projects.len() ==> projects[j] == projects.drop_first()[j - 1]);
    }
}

/// The first index whose project is named `name`, or `None`.
fn find_by_name(projects: &Vec<SubProject>, name: &String) -> (r: Option<usize>)
    ensures
        match r {
            Option::Some(i) => i < projects@.len() && find_named(projects@, name@)
                == Option::Some(i as int),
            Option::None => find_named(projects@, name@) is None,
        },
{
    proof {
        lemma_find_named_characterization(projects@, name@);
    }
    let mut i: usize = 0;
    while i < projects.len()
        invariant
            i <= projects@.len(),
            forall|j: int| 0 <= j < i ==> projects@[j].name@ != name@,
        decreases projects@.len() - i,
    {
        if projects[i].name == *name {
            proof {
                lemma_find_named_characterization(projects@, name@);
            }
            return Option::Some(i);
        }
        i = i + 1;
    }
    Option::None
}

/// Why a descriptor is malformed and cannot be loaded.
#[derive(Debug)]
pub enum DiscoveryError {
    /// Two registered projects carry this name.
    DuplicateName(String),
    /// This project root path does not lie within the descriptor root.
    PathOutsideRoot(String),
    /// The default project index addresses no registered project.
    DefaultOutOfRange,
}

/// Why a selection request cannot be satisfied.
#[derive(Debug)]
pub enum SelectError {
    /// An explicitly requested name matches no registered project.
    UnknownPackage(String),
    /// No filter was given and no single default project can be
    /// determined.
    AmbiguousSelection,
}

/// The views of a sequence of strings.
pub open spec fn string_views(strings: Seq<String>) -> Seq<Seq<char>> {
    strings.map_values(|s: String| s@)
}

/// Appending a string appends its view.
pub proof fn lemma_string_views_push(strings: Seq<String>, s: String)
    ensures
        string_views(strings.push(s)) == string_views(strings).push(s@),
{
    assert forall|i: int| 0 <= i < strings.len() + 1 implies string_views(strings.push(s))[i]
        == string_views(strings).push(s@)[i] by {
        if i < strings.len() {
            assert(strings.push(s)[i] == strings[i]);
        } else {
            assert(strings.push(s)[i] == s);
        }
    }
    assert(string_views(strings.push(s)) =~= string_views(strings).push(s@));
}

/// What a selection request denotes: a chosen sequence of projects, or
/// the first requested name that matches nothing, or the absence of a
/// determinable default.
pub enum SelectionOutcome {
    Chosen(Seq<SubProject>),
    UnknownName(Seq<char>),
    NoDefault,
}

/// Resolves explicitly requested names against the registered projects,
/// in the caller's order; the first name without a match decides the
/// outcome.
pub open spec fn resolve_names(projects: Seq<SubProject>, names: Seq<Seq<char>>) -> SelectionOutcome
    decreases names.len(),
{
    if names.len() == 0 {
        SelectionOutcome::Chosen(Seq::empty())
    } else {
        match resolve_names(projects, names.drop_last()) {
            SelectionOutcome::Chosen(chosen) => match find_named(projects, names.last()) {
                Option::Some(i) => SelectionOutcome::Chosen(chosen.push(projects[i])),
                Option::None => SelectionOutcome::UnknownName(names.last()),
            },
            other => other,
        }
    }
}

/// Selection semantics: explicit names take precedence and are resolved
/// in the caller's order; otherwise `select_all` yields every project
/// in declared order; otherwise the default project — the descriptor's
/// designated one, or the only project where exactly one is registered.
pub open spec fn selection(
    projects: Seq<SubProject>,
    default_index: Option<usize>,
    select_all: bool,
    names: Seq<Seq<char>>,
) -> SelectionOutcome {
    if names.len() > 0 {
        resolve_names(projects, names)
    } else if select_all {
        SelectionOutcome::Chosen(projects)
    } else {
        match default_index {
            Option::Some(k) => SelectionOutcome::Chosen(seq![projects[k as int]]),
            Option::None => if projects.len() == 1 {
                SelectionOutcome::Chosen(seq![projects[0]])
            } else {
                SelectionOutcome::NoDefault
            },
        }
    }
}

/// Once a name has failed to resolve, appending further names leaves
/// the outcome unchanged.
proof fn lemma_resolve_names_error_persists(
    projects: Seq<SubProject>,
    names: Seq<Seq<char>>,
    k: int,
)
    requires
        0 <= k <= names.len(),
        resolve_names(projects, names.take(k)) matches SelectionOutcome::UnknownName(_),
    ensures
        resolve_names(projects, names) == resolve_names(projects, names.take(k)),
    decreases names.len() - k,
{
    if k < names.len() {
        assert(names.take(k + 1).drop_last() =~= names.take(k));
        lemma_resolve_names_error_persists(projects, names, k + 1);
    } else {
        assert(names.take(k) =~= names);
    }
}

/// When every requested name resolves, the outcome is the projects at
/// the found indices, in the caller's requested order.
proof fn lemma_resolve_names_all_found(projects: Seq<SubProject>, names: Seq<Seq<char>>)
    requires
        forall|k: int| 0 <= k < names.len() ==> (#[trigger] find_named(projects, names[k])) is Some,
    ensures
        resolve_names(projects, names) matches SelectionOutcome::Chosen(chosen) && chosen.len()
            == names.len() && forall|k: int|
            0 <= k < names.len() ==> chosen[k] == projects[find_named(
                projects,
                #[trigger] names[k],
            )->Some_0],
    decreases names.len(),
{
    if names.len() > 0 {
        assert(forall|k: int| 0 <= k < names.len() - 1 ==> names.drop_last()[k] == names[k]);
        lemma_resolve_names_all_found(projects, names.drop_last());
        lemma_find_named_characterization(projects, names.last());
    }
}

/// Order-preservation law: when explicit names are given and every one
/// of them exists in the descriptor, selection returns exactly those
/// projects, in the caller's requested order, whatever the other
/// filters say.
pub proof fn lemma_explicit_selection_order(
    projects: Seq<SubProject>,
    default_index: Option<usize>,
    select_all: bool,
    names: Seq<Seq<char>>,
)
    requires
        names.len() > 0,
        forall|k: int|
            0 <= k < names.len() ==> exists|i: int|
                0 <= i < projects.len() && (#[trigger] projects[i].name@) == #[trigger] names[k],
    ensures
        selection(projects, default_index, select_all, names) matches SelectionOutcome::Chosen(
            chosen,
        ) && chosen.len() == names.len() && (forall|k: int|
            0 <= k < names.len() ==> (#[trigger] chosen[k].name@) == names[k]) && (forall|k: int|
            0 <= k < names.len() ==> projects.contains(#[trigger] chosen[k])),
{
    assert forall|k: int| 0 <= k < names.len() implies (#[trigger] find_named(
        projects,
        names[k],
    )) is Some by {
        lemma_find_named_characterization(projects, names[k]);
    }
    lemma_resolve_names_all_found(projects, names);
    let chosen = resolve_names(projects, names)->Chosen_0;
    assert forall|k: int| 0 <= k < names.len() implies (#[trigger] chosen[k].name@)
        == names[k] by {
        lemma_find_named_characterization(projects, names[k]);
        let i = find_named(projects, names[k])->Some_0;
        assert(projects[i] == chosen[k]);
    }
    assert forall|k: int| 0 <= k < names.len() implies projects.contains(#[trigger] chosen[k]) by {
        lemma_find_named_characterization(projects, names[k]);
        let i = find_named(projects, names[k])->Some_0;
        assert(0 <= i < projects.len() && projects[i] == chosen[k]);
    }
}

/// Completeness law: selecting all against any well-formed descriptor
/// returns every registered project, in declared order, without
/// duplicates.
pub proof fn lemma_select_all_complete(d: ProjectDescriptor)
    requires
        d.wf(),
    ensures
        selection(d.projects@, d.default_index, true, Seq::empty()) == SelectionOutcome::Chosen(
            d.projects@,
        ),
        forall|i: int, j: int|
            0 <= i < j < d.projects@.len() ==> #[trigger] d.projects@[i]
                != #[trigger] d.projects@[j],
{
    assert forall|i: int, j: int|
        0 <= i < j < d.projects@.len() implies #[trigger] d.projects@[i]
        != #[trigger] d.projects@[j] by {
        if d.projects@[i] == d.projects@[j] {
            assert(d.projects@[i].name@ == d.projects@[j].name@);
        }
    }
}

impl ProjectDescriptor {
    /// Validates and assembles a descriptor: project names must be
    /// unique, every project root must lie within the descriptor root,
    /// and the default index, if given, must address a registered
    /// project. Returns the descriptor exactly as given when all three
    /// hold, and the reason it is malformed otherwise.
    pub fn new(root_path: String, projects: Vec<SubProject>, default_index: Option<usize>) -> (r:
        Result<ProjectDescriptor, DiscoveryError>)
        ensures
            match r {
                Result::Ok(d) => d.wf() && d.root_path == root_path && d.projects == projects
                    && d.default_index == default_index,
                Result::Err(e) => match e {
                    DiscoveryError::DuplicateName(n) => exists|i: int, j: int|
                        0 <= i < j < projects@.len() && projects@[i].name@ == projects@[j].name@
                            && projects@[j].name@ == n@,
                    DiscoveryError::PathOutsideRoot(p) => exists|i: int|
                        0 <= i < projects@.len() && !root_path@.is_prefix_of(
                            projects@[i].root_path@,
                        ) && projects@[i].root_path@ == p@,
                    DiscoveryError::DefaultOutOfRange => default_index matches Option::Some(k)
                        && k >= projects@.len(),
                },
            },
    {
        let mut i: usize = 0;
        while i < projects.len()
            invariant
                i <= projects@.len(),
                forall|a: int, b: int|
                    0 <= a < b < projects@.len() && a < i ==> projects@[a].name@
                        != projects@[b].name@,
                forall|a: int|
                    0 <= a < i ==> root_path@.is_prefix_of(#[trigger] projects@[a].root_path@),
            decreases projects@.len() - i,
        {
            if !is_path_prefix(&root_path, &projects[i].root_path) {
                proof {
                    assert((i as int) < projects@.len() && !root_path@.is_prefix_of(
                        projects@[i as int].root_path@,
                    ));
                }
                return Result::Err(DiscoveryError::PathOutsideRoot(projects[i].root_path.clone()));
            }
            let mut j: usize = i + 1;
            while j < projects.len()
                invariant
                    i < j <= projects@.len(),
                    forall|b: int| i < b < j ==> projects@[i as int].name@ != projects@[b].name@,
                decreases projects@.len() - j,
            {
                if projects[i].name == projects[j].name {
                    proof {
                        assert((i as int) < (j as int) && (j as int) < projects@.len()
                            && projects@[i as int].name@ == projects@[j as int].name@);
                    }
                    return Result::Err(DiscoveryError::DuplicateName(projects[j].name.clone()));
                }
                j = j + 1;
            }
            i = i + 1;
        }
        match default_index {
            Option::Some(k) => {
                if k >= projects.len() {
                    return Result::Err(DiscoveryError::DefaultOutOfRange);
                }
            },
            Option::None => {},
        }
        Result::Ok(ProjectDescriptor { root_path, projects, default_index })
    }

    /// Selects the target projects for one invocation, per the
    /// selection semantics of `selection`. Explicit names are resolved
    /// in the caller's order; the first unmatched name is reported as
    /// `UnknownPackage`; `AmbiguousSelection` is reported when no
    /// filter is given and no default project can be determined.
    pub fn select(&self, select_all: bool, names: &Vec<String>) -> (r: Result<
        Vec<SubProject>,
        SelectError,
    >)
        requires
            self.wf(),
        ensures
            ({
                let out = selection(
                    self.projects@,
                    self.default_index,
                    select_all,
                    string_views(names@),
                );
                match r {
                    Result::Ok(chosen) => out == SelectionOutcome::Chosen(chosen@),
                    Result::Err(SelectError::UnknownPackage(n)) => out
                        == SelectionOutcome::UnknownName(n@),
                    Result::Err(SelectError::AmbiguousSelection) => out
                        == SelectionOutcome::NoDefault,
                }
            }),
    {
        let ghost name_views = string_views(names@);
        if names.len() > 0 {
            let mut chosen: Vec<SubProject> = Vec::new();
            let mut k: usize = 0;
            while k < names.len()
                invariant
                    k <= names@.len(),
                    name_views == string_views(names@),
                    name_views.len() == names@.len(),
                    resolve_names(self.projects@, name_views.take(k as int))
                        == SelectionOutcome::Chosen(chosen@),
                decreases names@.len() - k,
            {
                proof {
                    assert(name_views.take(k + 1).drop_last() =~= name_views.take(k as int));
                    assert(name_views[k as int] == names@[k as int]@);
                }
                match find_by_name(&self.projects, &names[k]) {
                    Option::Some(i) => {
                        chosen.push(self.projects[i].clone());
                    },
                    Option::None => {
                        proof {
                            lemma_resolve_names_error_persists(
                                self.projects@,
                                name_views,
                                k + 1,
                            );
                        }
                        return Result::Err(SelectError::UnknownPackage(names[k].clone()));
                    },
                }
                k = k + 1;
            }
            proof {
                assert(name_views.take(names@.len() as int) =~= name_views);
            }
            Result::Ok(chosen)
        } else if select_all {
            let mut chosen: Vec<SubProject> = Vec::new();
            let mut k: usize = 0;
            while k < self.projects.len()
                invariant
                    k <= self.projects@.len(),
                    chosen@ =~= self.projects@.take(k as int),
                decreases self.projects@.len() - k,
            {
                chosen.push(self.projects[k].clone());
                k = k + 1;
            }
            proof {
                assert(self.projects@.take(self.projects@.len() as int) =~= self.projects@);
            }
            Result::Ok(chosen)
        } else {
            match self.default_index {
                Option::Some(k) => {
                    let one = vec![self.projects[k].clone()];
                    proof {
                        assert(one@ =~= seq![self.projects@[k as int]]);
                    }
                    Result::Ok(one)
                },
                Option::None => {
                    if self.projects.len() == 1 {
                        let one = vec![self.projects[0].clone()];
                        proof {
                            assert(one@ =~= seq![self.projects@[0]]);
                        }
                        Result::Ok(one)
                    } else {
                        Result::Err(SelectError::AmbiguousSelection)
                    }
                },
            }
        }
    }
}

} // verus!
