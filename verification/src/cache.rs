//! The project cache: the ordered list of projects a monitor holds, with
//! its content hash and the volunteer write-path. Callers replace it
//! wholesale on refresh and mutate it in place when a volunteer claims a
//! project.

use vstd::prelude::*;

use crate::digest::{generate_projects_hash, spec_projects_hash};
use crate::project::{Project, ProjectStatus, ProjectV};

verus! {

/// Some project in the cache carries this id.
pub open spec fn has_project(ps: Seq<ProjectV>, id: u64) -> bool {
    exists|i: int| 0 <= i < ps.len() && (#[trigger] ps[i]).id == id
}

/// A volunteer claim on `id` would change the cache: the first project
/// with that id exists and its status is not `Success`.
pub open spec fn spec_volunteer_applies(ps: Seq<ProjectV>, id: u64) -> bool
    decreases ps.len(),
{
    if ps.len() == 0 {
        false
    } else if ps[0].id == id {
        ps[0].status != ProjectStatus::Success
    } else {
        spec_volunteer_applies(ps.drop_first(), id)
    }
}

/// Effect of a volunteer claim: the first project with the given id takes
/// the volunteer's name, unless its status is `Success`, in which case
/// nothing changes — a successful build must not carry a volunteer.
/// Without a match nothing changes either.
pub open spec fn spec_apply_volunteer(ps: Seq<ProjectV>, id: u64, name: Seq<char>) -> Seq<
    ProjectV,
>
    decreases ps.len(),
{
    if ps.len() == 0 {
        ps
    } else if ps[0].id == id {
        if ps[0].status == ProjectStatus::Success {
            ps
        } else {
            seq![ProjectV { volunteer: name, ..ps[0] }] + ps.drop_first()
        }
    } else {
        seq![ps[0]] + spec_apply_volunteer(ps.drop_first(), id, name)
    }
}

/// Law: a volunteer claim acts exactly on the first project carrying the
/// id. With `status != Success` that project's volunteer becomes the given
/// name and every other field and every other project is untouched; with
/// `status == Success` the whole cache is unchanged.
pub proof fn lemma_apply_volunteer_first_match(
    ps: Seq<ProjectV>,
    id: u64,
    name: Seq<char>,
    i: int,
)
    requires
        0 <= i < ps.len(),
        ps[i].id == id,
        forall|k: int| 0 <= k < i ==> (#[trigger] ps[k]).id != id,
    ensures
        ps[i].status != ProjectStatus::Success ==> spec_apply_volunteer(ps, id, name) == ps.update(
            i,
            ProjectV { volunteer: name, ..ps[i] },
        ),
        ps[i].status == ProjectStatus::Success ==> spec_apply_volunteer(ps, id, name) == ps,
    decreases i,
{
    if i == 0 {
        if ps[0].status != ProjectStatus::Success {
            assert(spec_apply_volunteer(ps, id, name) =~= ps.update(
                0,
                ProjectV { volunteer: name, ..ps[0] },
            ));
        }
    } else {
        let df = ps.drop_first();
        assert(forall|k: int| 0 <= k < i - 1 ==> (#[trigger] df[k]).id != id);
        lemma_apply_volunteer_first_match(df, id, name, i - 1);
        if ps[i].status != ProjectStatus::Success {
            assert(spec_apply_volunteer(ps, id, name) =~= ps.update(
                i,
                ProjectV { volunteer: name, ..ps[i] },
            ));
        } else {
            assert(spec_apply_volunteer(ps, id, name) =~= ps);
        }
    }
}

/// Law: a volunteer claim with an id nobody carries changes nothing.
pub proof fn lemma_apply_volunteer_no_match(ps: Seq<ProjectV>, id: u64, name: Seq<char>)
    requires
        forall|k: int| 0 <= k < ps.len() ==> (#[trigger] ps[k]).id != id,
    ensures
        spec_apply_volunteer(ps, id, name) == ps,
    decreases ps.len(),
{
    if ps.len() > 0 {
        lemma_apply_volunteer_no_match(ps.drop_first(), id, name);
        assert(spec_apply_volunteer(ps, id, name) =~= ps);
    }
}

/// The ordered list of projects one monitor knows, shared between its
/// caller and its transport loop.
pub struct ProjectCache {
    projects: Vec<Project>,
}

impl View for ProjectCache {
    type V = Seq<ProjectV>;

    closed spec fn view(&self) -> Seq<ProjectV> {
        self.projects.deep_view()
    }
}

impl ProjectCache {
    /// An empty cache.
    pub fn new() -> (r: ProjectCache)
        ensures
            r@ == Seq::<ProjectV>::empty(),
    {
        let r = ProjectCache { projects: Vec::new() };
        proof {
            assert(r@ =~= Seq::<ProjectV>::empty());
        }
        r
    }

    pub fn len(&self) -> (r: usize)
        ensures
            r == self@.len(),
    {
        self.projects.len()
    }

    /// Borrow the projects in cache order.
    pub fn projects(&self) -> (r: &Vec<Project>)
        ensures
            r.deep_view() == self@,
    {
        &self.projects
    }

    /// An owned copy of the projects, as a reader's snapshot.
    pub fn read_snapshot(&self) -> (r: Vec<Project>)
        ensures
            r.deep_view() == self@,
    {
        let r = self.projects.clone();
        proof {
            assert forall|i: int| 0 <= i < self.projects@.len() implies r.deep_view()[i]
                == self.projects.deep_view()[i] by {
                assert(cloned::<Project>(self.projects[i], r[i]));
            }
            assert(r.deep_view() =~= self.projects.deep_view());
        }
        r
    }

    /// Replace the whole contents.
    pub fn replace(&mut self, projects: Vec<Project>)
        ensures
            final(self)@ == projects.deep_view(),
    {
        self.projects = projects;
    }

    /// Take the whole contents out, leaving the cache empty.
    pub fn take(&mut self) -> (r: Vec<Project>)
        ensures
            r.deep_view() == old(self)@,
            final(self)@ == Seq::<ProjectV>::empty(),
    {
        let mut r: Vec<Project> = Vec::new();
        core::mem::swap(&mut r, &mut self.projects);
        proof {
            assert(final(self)@ =~= Seq::<ProjectV>::empty());
        }
        r
    }

    /// Whether a claim on `id` would change the cache: the first project
    /// with that id exists and is not a success.
    pub fn volunteer_applies(&self, id: u64) -> (r: bool)
        ensures
            r == spec_volunteer_applies(self@, id),
    {
        let mut i: usize = 0;
        proof {
            assert(self@.skip(0) =~= self@);
        }
        loop
            invariant
                i <= self@.len(),
                forall|k: int| 0 <= k < i ==> (#[trigger] self@[k]).id != id,
                spec_volunteer_applies(self@.skip(i as int), id) == spec_volunteer_applies(
                    self@,
                    id,
                ),
            decreases self@.len() - i,
        {
            if i == self.projects.len() {
                return false;
            }
            proof {
                assert(self@.skip(i as int)[0] == self@[i as int]);
                assert(self@.skip(i as int).drop_first() =~= self@.skip(i + 1));
            }
            if self.projects[i].id() == id {
                return match self.projects[i].status() {
                    ProjectStatus::Success => false,
                    _ => true,
                };
            }
            i = i + 1;
        }
    }

    /// Apply a volunteer claim: the first project with the given id takes
    /// the name, unless it is a success, which silently keeps its empty or
    /// previous volunteer. Returns whether any project carries the id.
    pub fn apply_volunteer(&mut self, id: u64, name: &str) -> (found: bool)
        ensures
            found == has_project(old(self)@, id),
            final(self)@ == spec_apply_volunteer(old(self)@, id, name@),
    {
        let ghost ps = self@;
        let mut i: usize = 0;
        loop
            invariant
                i <= self@.len(),
                *self == *old(self),
                ps == self@,
                forall|k: int| 0 <= k < i ==> (#[trigger] ps[k]).id != id,
            decreases self@.len() - i,
        {
            if i == self.projects.len() {
                proof {
                    lemma_apply_volunteer_no_match(ps, id, name@);
                }
                return false;
            }
            if self.projects[i].id() == id {
                proof {
                    lemma_apply_volunteer_first_match(ps, id, name@, i as int);
                }
                match self.projects[i].status() {
                    ProjectStatus::Success => {
                        return true;
                    },
                    _ => {
                        let mut p = self.projects.remove(i);
                        p.set_volunteer(name);
                        self.projects.insert(i, p);
                        proof {
                            assert(final(self)@ =~= ps.update(
                                i as int,
                                ProjectV { volunteer: name@, ..ps[i as int] },
                            ));
                        }
                        return true;
                    },
                }
            }
            i = i + 1;
        }
    }

    /// The content hash of the cache, over each project's hashed fields in
    /// order.
    pub fn content_hash(&self) -> (r: u64)
        ensures
            r == spec_projects_hash(self@),
    {
        generate_projects_hash(&self.projects)
    }
}

} // verus!
