//! The project record: one CI job, with its identity, status metadata and
//! the volunteer claiming it.

use vstd::prelude::*;

verus! {

/// Build status of a CI project, as reported by the CI server.
#[derive(Clone, Copy, PartialEq, Eq, Structural, Debug)]
pub enum ProjectStatus {
    Success,
    Unstable,
    Failed,
    NotBuilt,
    Aborted,
    Disabled,
    Unknown,
}

/// Mathematical model of a [`Project`]: the same fields, with text as
/// character sequences.
#[verifier::ext_equal]
pub struct ProjectV {
    pub id: u64,
    pub name: Seq<char>,
    pub folder: Seq<char>,
    pub url: Seq<char>,
    pub status: ProjectStatus,
    pub is_building: bool,
    pub last_successful_build_time: u64,
    pub duration: u64,
    pub estimated_duration: u64,
    pub timestamp: u64,
    pub culprits: Seq<Seq<char>>,
    pub volunteer: Seq<char>,
}

/// One CI job. `id` is a content hash of the job URL, so it is stable
/// across restarts for the same URL. `volunteer` is empty while nobody
/// has claimed the project.
pub struct Project {
    id: u64,
    name: String,
    folder: String,
    url: String,
    status: ProjectStatus,
    is_building: bool,
    last_successful_build_time: u64,
    duration: u64,
    estimated_duration: u64,
    timestamp: u64,
    culprits: Vec<String>,
    volunteer: String,
}

impl View for Project {
    type V = ProjectV;

    closed spec fn view(&self) -> ProjectV {
        ProjectV {
            id: self.id,
            name: self.name@,
            folder: self.folder@,
            url: self.url@,
            status: self.status,
            is_building: self.is_building,
            last_successful_build_time: self.last_successful_build_time,
            duration: self.duration,
            estimated_duration: self.estimated_duration,
            timestamp: self.timestamp,
            culprits: self.culprits.deep_view(),
            volunteer: self.volunteer@,
        }
    }
}

impl DeepView for Project {
    type V = ProjectV;

    open spec fn deep_view(&self) -> ProjectV {
        self.view()
    }
}

/// A claim on a project: the id of the project and the name of the person
/// volunteering to fix it. This is the write-side message of the protocol.
pub struct Volunteer {
    pub id: u64,
    pub volunteer: String,
}

/// Mathematical model of a [`Volunteer`].
pub struct VolunteerV {
    pub id: u64,
    pub volunteer: Seq<char>,
}

impl View for Volunteer {
    type V = VolunteerV;

    open spec fn view(&self) -> VolunteerV {
        VolunteerV { id: self.id, volunteer: self.volunteer@ }
    }
}

impl DeepView for Volunteer {
    type V = VolunteerV;

    open spec fn deep_view(&self) -> VolunteerV {
        self.view()
    }
}

impl Clone for Project {
    fn clone(&self) -> (r: Self)
        ensures
            r@ == self@,
    {
        let r = Project {
            id: self.id,
            name: self.name.clone(),
            folder: self.folder.clone(),
            url: self.url.clone(),
            status: self.status,
            is_building: self.is_building,
            last_successful_build_time: self.last_successful_build_time,
            duration: self.duration,
            estimated_duration: self.estimated_duration,
            timestamp: self.timestamp,
            culprits: self.culprits.clone(),
            volunteer: self.volunteer.clone(),
        };
        proof {
            assert forall|i: int| 0 <= i < self.culprits@.len() implies r.culprits.deep_view()[i]
                == self.culprits.deep_view()[i] by {
                assert(cloned::<String>(self.culprits[i], r.culprits[i]));
            }
            assert(r.culprits.deep_view() =~= self.culprits.deep_view());
        }
        r
    }
}

impl Project {
    /// A fresh project for a job URL: its id is the content hash of the
    /// URL, its status unknown, everything else empty or zero.
    pub fn new(folder: &str, url: &str) -> (r: Project)
        ensures
            r@ == (ProjectV {
                id: crate::digest::spec_url_id(url@),
                name: Seq::<char>::empty(),
                folder: folder@,
                url: url@,
                status: ProjectStatus::Unknown,
                is_building: false,
                last_successful_build_time: 0,
                duration: 0,
                estimated_duration: 0,
                timestamp: 0,
                culprits: Seq::<Seq<char>>::empty(),
                volunteer: Seq::<char>::empty(),
            }),
    {
        let r = Project {
            id: crate::digest::url_id(url),
            name: String::new(),
            folder: folder.to_owned(),
            url: url.to_owned(),
            status: ProjectStatus::Unknown,
            is_building: false,
            last_successful_build_time: 0,
            duration: 0,
            estimated_duration: 0,
            timestamp: 0,
            culprits: Vec::new(),
            volunteer: String::new(),
        };
        proof {
            assert(r.culprits.deep_view() =~= Seq::<Seq<char>>::empty());
        }
        r
    }

    /// Assemble a project from every field. The codec uses this to rebuild
    /// a received record exactly as it was sent, `id` included.
    pub fn from_fields(
        id: u64,
        name: String,
        folder: String,
        url: String,
        status: ProjectStatus,
        is_building: bool,
        last_successful_build_time: u64,
        duration: u64,
        estimated_duration: u64,
        timestamp: u64,
        culprits: Vec<String>,
        volunteer: String,
    ) -> (r: Project)
        ensures
            r@ == (ProjectV {
                id,
                name: name@,
                folder: folder@,
                url: url@,
                status,
                is_building,
                last_successful_build_time,
                duration,
                estimated_duration,
                timestamp,
                culprits: culprits.deep_view(),
                volunteer: volunteer@,
            }),
    {
        Project {
            id,
            name,
            folder,
            url,
            status,
            is_building,
            last_successful_build_time,
            duration,
            estimated_duration,
            timestamp,
            culprits,
            volunteer,
        }
    }

    pub fn id(&self) -> (r: u64)
        ensures
            r == self@.id,
    {
        self.id
    }

    pub fn name(&self) -> (r: &str)
        ensures
            r@ == self@.name,
    {
        self.name.as_str()
    }

    pub fn folder(&self) -> (r: &str)
        ensures
            r@ == self@.folder,
    {
        self.folder.as_str()
    }

    pub fn url(&self) -> (r: &str)
        ensures
            r@ == self@.url,
    {
        self.url.as_str()
    }

    pub fn status(&self) -> (r: ProjectStatus)
        ensures
            r == self@.status,
    {
        self.status
    }

    pub fn is_building(&self) -> (r: bool)
        ensures
            r == self@.is_building,
    {
        self.is_building
    }

    pub fn last_successful_build_time(&self) -> (r: u64)
        ensures
            r == self@.last_successful_build_time,
    {
        self.last_successful_build_time
    }

    pub fn duration(&self) -> (r: u64)
        ensures
            r == self@.duration,
    {
        self.duration
    }

    pub fn estimated_duration(&self) -> (r: u64)
        ensures
            r == self@.estimated_duration,
    {
        self.estimated_duration
    }

    pub fn timestamp(&self) -> (r: u64)
        ensures
            r == self@.timestamp,
    {
        self.timestamp
    }

    pub fn culprits(&self) -> (r: &Vec<String>)
        ensures
            r.deep_view() == self@.culprits,
    {
        &self.culprits
    }

    pub fn volunteer(&self) -> (r: &str)
        ensures
            r@ == self@.volunteer,
    {
        self.volunteer.as_str()
    }

    /// Overwrite the volunteer field; every other field is kept.
    pub fn set_volunteer(&mut self, volunteer: &str)
        ensures
            final(self)@ == (ProjectV { volunteer: volunteer@, ..old(self)@ }),
    {
        self.volunteer = volunteer.to_owned();
    }

    /// Overwrite the name; every other field is kept.
    pub fn set_name(&mut self, name: &str)
        ensures
            final(self)@ == (ProjectV { name: name@, ..old(self)@ }),
    {
        self.name = name.to_owned();
    }

    /// Overwrite the status; every other field is kept.
    pub fn set_status(&mut self, status: ProjectStatus)
        ensures
            final(self)@ == (ProjectV { status, ..old(self)@ }),
    {
        self.status = status;
    }

    /// Overwrite the building flag; every other field is kept.
    pub fn set_is_building(&mut self, is_building: bool)
        ensures
            final(self)@ == (ProjectV { is_building, ..old(self)@ }),
    {
        self.is_building = is_building;
    }

    /// Overwrite the last successful build time; every other field is kept.
    pub fn set_last_successful_build_time(&mut self, t: u64)
        ensures
            final(self)@ == (ProjectV { last_successful_build_time: t, ..old(self)@ }),
    {
        self.last_successful_build_time = t;
    }

    /// Overwrite the duration; every other field is kept.
    pub fn set_duration(&mut self, duration: u64)
        ensures
            final(self)@ == (ProjectV { duration, ..old(self)@ }),
    {
        self.duration = duration;
    }

    /// Overwrite the estimated duration; every other field is kept.
    pub fn set_estimated_duration(&mut self, estimated_duration: u64)
        ensures
            final(self)@ == (ProjectV { estimated_duration, ..old(self)@ }),
    {
        self.estimated_duration = estimated_duration;
    }

    /// Overwrite the timestamp; every other field is kept.
    pub fn set_timestamp(&mut self, timestamp: u64)
        ensures
            final(self)@ == (ProjectV { timestamp, ..old(self)@ }),
    {
        self.timestamp = timestamp;
    }

    /// Append one culprit name; every other field is kept.
    pub fn add_culprit(&mut self, culprit: &str)
        ensures
            final(self)@ == (ProjectV {
                culprits: old(self)@.culprits.push(culprit@),
                ..old(self)@
            }),
    {
        self.culprits.push(culprit.to_owned());
        proof {
            assert(self.culprits.deep_view() =~= old(self).culprits.deep_view().push(culprit@));
        }
    }
}

impl PartialEq for Project {
    /// Identity equality: id together with status, building flag and
    /// volunteer, so that a field-level change re-hashes the cache.
    fn eq(&self, other: &Project) -> (r: bool) {
        self.id == other.id && self.status == other.status && self.is_building
            == other.is_building && self.volunteer == other.volunteer
    }
}

impl vstd::std_specs::cmp::PartialEqSpecImpl for Project {
    open spec fn obeys_eq_spec() -> bool {
        true
    }

    open spec fn eq_spec(&self, other: &Project) -> bool {
        self@.id == other@.id && self@.status == other@.status && self@.is_building
            == other@.is_building && self@.volunteer == other@.volunteer
    }
}

} // verus!
