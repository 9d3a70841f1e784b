//! The registry of projects: which repositories the user has worked in, and
//! when last.

use crate::paths::{file_name, final_segment};
use crate::ranking::{
    is_ranking, lemma_carried_all, lemma_ranking_unique, precedes, rank, ranks,
};
use crate::text::{is_least, least, lemma_least_absent, lemma_least_exists, lemma_least_found};
use vstd::prelude::*;

verus! {

/// What the registry knows of one project.
#[derive(Debug, PartialEq, Eq)]
pub struct ProjectInfo {
    /// The repository's path; no two projects share one.
    pub path: String,
    /// The name shown for the project: the name that its path ends in.
    pub name: String,
    /// When the project was last worked in, in seconds since the epoch.
    pub last_accessed: u64,
}

/// A `ProjectInfo` with its texts as sequences.
pub struct ProjectView {
    pub path: Seq<char>,
    pub name: Seq<char>,
    pub last_accessed: u64,
}

impl View for ProjectInfo {
    type V = ProjectView;

    open spec fn view(&self) -> ProjectView {
        ProjectView { path: self.path@, name: self.name@, last_accessed: self.last_accessed }
    }
}

/// The views of a list of projects.
pub open spec fn project_views(list: Seq<ProjectInfo>) -> Seq<ProjectView> {
    Seq::new(list.len(), |i: int| list[i]@)
}

/// No two of `records` have the same path.
pub open spec fn distinct_paths(records: Seq<ProjectView>) -> bool {
    forall|i: int, j: int|
        0 <= i < j < records.len() ==> (#[trigger] records[i]).path != (#[trigger] records[j]).path
}

/// The records of `records` that have the path `path`, by their places.
pub open spec fn at_path(records: Seq<ProjectView>, path: Seq<char>) -> spec_fn(int) -> bool {
    |i: int| records[i].path == path
}

/// Where the project with the path `path` stands among `records`.
pub open spec fn position(records: Seq<ProjectView>, path: Seq<char>) -> Option<int> {
    least(at_path(records, path), records.len() as int)
}

/// `records` with `entry` in the place of the project that has its path, or
/// at the end where no project has it.
pub open spec fn upserted(records: Seq<ProjectView>, entry: ProjectView) -> Seq<ProjectView> {
    match position(records, entry.path) {
        Some(i) => records.update(i, entry),
        None => records.push(entry),
    }
}

/// `records` with the time of the project at `path` set to `now`; unchanged
/// where no project has that path.
pub open spec fn touched(records: Seq<ProjectView>, path: Seq<char>, now: u64) -> Seq<ProjectView> {
    match position(records, path) {
        Some(i) => records.update(i, ProjectView { last_accessed: now, ..records[i] }),
        None => records,
    }
}

/// The times of `records`, as keys to rank them by.
pub open spec fn recency(records: Seq<ProjectView>) -> Seq<Option<int>> {
    Seq::new(records.len(), |i: int| Some(records[i].last_accessed as int))
}

/// `listing` holds the projects of `records`, each once, the one worked in
/// latest first, those of equal time in the order of `records`.
pub open spec fn is_recency_listing(records: Seq<ProjectView>, listing: Seq<ProjectView>) -> bool {
    exists|order: Seq<usize>|
        #![trigger is_ranking(recency(records), order)]
        {
            &&& is_ranking(recency(records), order)
            &&& listing.len() == order.len()
            &&& forall|k: int| 0 <= k < order.len() ==> listing[k] == records[order[k] as int]
        }
}

/// A listing by recency begins with the latest time and ends with the
/// earliest.
pub proof fn lemma_recency_listing_descends(records: Seq<ProjectView>, listing: Seq<ProjectView>)
    requires
        is_recency_listing(records, listing),
    ensures
        forall|a: int, b: int|
            0 <= a < b < listing.len() ==> (#[trigger] listing[a]).last_accessed
                >= (#[trigger] listing[b]).last_accessed,
{
    let order = choose|order: Seq<usize>|
        #![trigger is_ranking(recency(records), order)]
        {
            &&& is_ranking(recency(records), order)
            &&& listing.len() == order.len()
            &&& forall|k: int| 0 <= k < order.len() ==> listing[k] == records[order[k] as int]
        };
    assert forall|a: int, b: int| 0 <= a < b < listing.len() implies (#[trigger] listing[a]).last_accessed
        >= (#[trigger] listing[b]).last_accessed by {
        assert(precedes(recency(records), order[a] as int, order[b] as int));
    }
}

/// The records determine their listing by recency.
pub proof fn lemma_recency_listing_unique(
    records: Seq<ProjectView>,
    first: Seq<ProjectView>,
    second: Seq<ProjectView>,
)
    requires
        is_recency_listing(records, first),
        is_recency_listing(records, second),
    ensures
        first == second,
{
    let a = choose|order: Seq<usize>|
        #![trigger is_ranking(recency(records), order)]
        {
            &&& is_ranking(recency(records), order)
            &&& first.len() == order.len()
            &&& forall|k: int| 0 <= k < order.len() ==> first[k] == records[order[k] as int]
        };
    let b = choose|order: Seq<usize>|
        #![trigger is_ranking(recency(records), order)]
        {
            &&& is_ranking(recency(records), order)
            &&& second.len() == order.len()
            &&& forall|k: int| 0 <= k < order.len() ==> second[k] == records[order[k] as int]
        };
    lemma_ranking_unique(recency(records), a, b);
    assert(first =~= second);
}

/// Why the registry refuses a project.
#[derive(Debug, Clone, Copy, PartialEq, Eq, Structural)]
pub enum RegistryError {
    /// The repository's path ends in no name.
    InvalidRepositoryPath,
}

impl RegistryError {
    /// The words that the user is shown.
    pub fn message(&self) -> (text: &'static str)
        ensures
            text@ == "Invalid repository path"@,
    {
        "Invalid repository path"
    }
}

/// The registry: the known projects, no two with the same path.
#[derive(Debug)]
pub struct Database {
    projects: Vec<ProjectInfo>,
}

impl View for Database {
    type V = Seq<ProjectView>;

    closed spec fn view(&self) -> Seq<ProjectView> {
        project_views(self.projects@)
    }
}

/// A copy of `project`.
pub fn copy_project(project: &ProjectInfo) -> (copy: ProjectInfo)
    ensures
        copy@ == project@,
{
    ProjectInfo {
        path: project.path.clone(),
        name: project.name.clone(),
        last_accessed: project.last_accessed,
    }
}

impl Database {
    #[verifier::type_invariant]
    spec fn paths_are_distinct(self) -> bool {
        distinct_paths(project_views(self.projects@))
    }

    /// A registry without projects.
    pub fn new() -> (db: Database)
        ensures
            db@ == Seq::<ProjectView>::empty(),
    {
        let db = Database { projects: Vec::new() };
        assert(db@ =~= Seq::<ProjectView>::empty());
        db
    }

    /// The projects, in the order in which they were first saved; no two of
    /// them have the same path.
    pub fn projects(&self) -> (list: &Vec<ProjectInfo>)
        ensures
            project_views(list@) == self@,
            distinct_paths(self@),
    {
        proof {
            use_type_invariant(self);
        }
        &self.projects
    }

    /// Hands the projects out and leaves the registry empty.
    fn take_projects(&mut self) -> (list: Vec<ProjectInfo>)
        ensures
            project_views(list@) == old(self)@,
            distinct_paths(old(self)@),
            final(self)@ == Seq::<ProjectView>::empty(),
    {
        proof {
            use_type_invariant(&*self);
        }
        let mut taken = Database::new();
        std::mem::swap(self, &mut taken);
        let Database { projects } = taken;
        projects
    }

    /// Where the project with the path `path` stands, if it is known.
    pub fn find(&self, path: &str) -> (found: Option<usize>)
        ensures
            match found {
                Some(i) => position(self@, path@) == Some(i as int) && i < self@.len(),
                None => position(self@, path@) is None,
            },
    {
        let wanted = path.to_owned();
        let ghost records = self@;
        let ghost here = at_path(records, path@);
        let mut i: usize = 0;
        while i < self.projects.len()
            invariant
                i <= self.projects.len(),
                wanted@ == path@,
                records == project_views(self.projects@),
                here == at_path(records, path@),
                forall|j: int| 0 <= j < i ==> !#[trigger] here(j),
            decreases self.projects.len() - i,
        {
            if self.projects[i].path == wanted {
                proof {
                    assert(here(i as int));
                    assert(is_least(here, records.len() as int, i as int));
                    lemma_least_found(here, records.len() as int, i as int);
                }
                return Some(i);
            }
            assert(!here(i as int));
            i += 1;
        }
        proof {
            lemma_least_absent(here, records.len() as int);
        }
        None
    }

    /// Puts `project` in the place of the known project with its path, or
    /// adds it as a new one.
    pub fn insert(&mut self, project: ProjectInfo)
        ensures
            final(self)@ == upserted(old(self)@, project@),
    {
        proof {
            use_type_invariant(&*self);
        }
        let ghost records = self@;
        let ghost entry = project@;
        let found = self.find(project.path.as_str());
        match found {
            Some(i) => {
                proof {
                    let here = at_path(records, entry.path);
                    assert(is_least(here, records.len() as int, i as int));
                    assert(here(i as int));
                    assert forall|a: int, b: int|
                        0 <= a < b < records.len() implies (#[trigger] records.update(
                        i as int,
                        entry,
                    )[a]).path != (#[trigger] records.update(i as int, entry)[b]).path by {
                        assert(records[a].path != records[b].path);
                    }
                }
                let mut projects = self.take_projects();
                projects.set(i, project);
                assert(project_views(projects@) =~= records.update(i as int, entry));
                *self = Database { projects };
            },
            None => {
                proof {
                    let here = at_path(records, entry.path);
                    assert forall|a: int| 0 <= a < records.len() implies (#[trigger] records[a]).path
                        != entry.path by {
                        if records[a].path == entry.path {
                            assert(here(a));
                            lemma_least_exists(here, records.len() as int, a);
                        }
                    }
                }
                let mut projects = self.take_projects();
                projects.push(project);
                assert(project_views(projects@) =~= records.push(entry));
                *self = Database { projects };
            },
        }
    }

    /// Sets the time of the project at `path` to `now`, and says whether
    /// there is such a project.
    pub fn touch(&mut self, path: &str, now: u64) -> (known: bool)
        ensures
            final(self)@ == touched(old(self)@, path@, now),
            known == position(old(self)@, path@).is_some(),
    {
        proof {
            use_type_invariant(&*self);
        }
        let ghost records = self@;
        match self.find(path) {
            Some(i) => {
                let current = &self.projects[i];
                let renewed = ProjectInfo {
                    path: current.path.clone(),
                    name: current.name.clone(),
                    last_accessed: now,
                };
                proof {
                    let entry = ProjectView { last_accessed: now, ..records[i as int] };
                    assert(renewed@ == entry);
                    assert forall|a: int, b: int|
                        0 <= a < b < records.len() implies (#[trigger] records.update(
                        i as int,
                        entry,
                    )[a]).path != (#[trigger] records.update(i as int, entry)[b]).path by {
                        assert(records[a].path != records[b].path);
                    }
                }
                let mut projects = self.take_projects();
                projects.set(i, renewed);
                assert(project_views(projects@) =~= records.update(
                    i as int,
                    ProjectView { last_accessed: now, ..records[i as int] },
                ));
                *self = Database { projects };
                true
            },
            None => false,
        }
    }
}

/// Saves the repository at `repo_path` as worked in at `now`: a project
/// under the name that the path ends in, new or in the place of the one
/// known at that path. Fails, and changes nothing, where the path ends in
/// no name.
pub fn save_project(db: &mut Database, repo_path: &str, now: u64) -> (saved: Result<
    (),
    RegistryError,
>)
    ensures
        match saved {
            Ok(()) => final_segment(repo_path@) matches Some(name) && final(db)@ == upserted(
                old(db)@,
                ProjectView { path: repo_path@, name, last_accessed: now },
            ),
            Err(RegistryError::InvalidRepositoryPath) => final_segment(repo_path@) is None
                && final(db)@ == old(db)@,
        },
{
    match file_name(repo_path) {
        Some(name) => {
            db.insert(ProjectInfo { path: repo_path.to_owned(), name, last_accessed: now });
            Ok(())
        },
        None => Err(RegistryError::InvalidRepositoryPath),
    }
}

/// Marks the project at `repo_path` as worked in at `now`, and says whether
/// the registry changed: it does not where the project is unknown.
pub fn update_last_accessed(db: &mut Database, repo_path: &str, now: u64) -> (changed: bool)
    ensures
        final(db)@ == touched(old(db)@, repo_path@, now),
        changed == position(old(db)@, repo_path@).is_some(),
{
    db.touch(repo_path, now)
}

/// The projects, the one worked in latest first.
pub fn get_projects(db: &Database) -> (listing: Vec<ProjectInfo>)
    ensures
        is_recency_listing(db@, project_views(listing@)),
        listing@.len() == db@.len(),
{
    let projects = db.projects();
    let ghost records = db@;
    let mut stamps: Vec<Option<u64>> = Vec::new();
    let mut i: usize = 0;
    while i < projects.len()
        invariant
            i <= projects.len(),
            records == project_views(projects@),
            stamps@.len() == i,
            forall|j: int| 0 <= j < i ==> #[trigger] stamps@[j] == Some(projects@[j].last_accessed),
        decreases projects.len() - i,
    {
        stamps.push(Some(projects[i].last_accessed));
        i += 1;
    }
    assert(ranks(stamps@) =~= recency(records));
    let order = rank(&stamps);
    proof {
        lemma_carried_all(recency(records));
    }
    let mut listing: Vec<ProjectInfo> = Vec::new();
    let mut k: usize = 0;
    while k < order.len()
        invariant
            k <= order.len(),
            records == project_views(projects@),
            is_ranking(recency(records), order@),
            listing@.len() == k,
            forall|j: int| 0 <= j < k ==> (#[trigger] listing@[j])@ == records[order@[j] as int],
        decreases order.len() - k,
    {
        listing.push(copy_project(&projects[order[k]]));
        k += 1;
    }
    proof {
        let views = project_views(listing@);
        assert(views.len() == order@.len());
        assert forall|j: int| 0 <= j < order@.len() implies views[j] == records[order@[j] as int] by {
            assert(listing@[j]@ == records[order@[j] as int]);
        }
    }
    listing
}

} // verus!
