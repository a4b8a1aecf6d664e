//! The monitor facade: one instance per process role. Offline it only
//! holds the cache; as a server it crawls and broadcasts; as a client it
//! receives and may volunteer. The crawler and the sockets live outside:
//! a refresh takes the crawl snapshot as an argument, and the transport
//! loop drives the step functions.

use vstd::prelude::*;
use vstd::utf8::*;

use crate::PROTOCOL_VERSION;
use crate::cache::{spec_apply_volunteer, spec_volunteer_applies, ProjectCache};
use crate::digest::spec_projects_hash;
use crate::error::BuildMonitorError;
use crate::order::{project_key_le, projects_sorted, sort_projects, spec_sort};
use crate::project::{Project, ProjectV, Volunteer, VolunteerV};
use crate::transport::{MonitorClient, MonitorServer};

verus! {

/// One build monitor: the cache, its last known content hash, and the
/// attached transport states. The roles are modes of use: offline holds
/// neither state, a server holds `server`, a client holds `client`.
pub struct Monitor {
    pub handle: u8,
    pub jenkins_server: String,
    pub version: u32,
    pub projects: ProjectCache,
    pub projects_hash: u64,
    pub server: Option<MonitorServer>,
    pub client: Option<MonitorClient>,
}

/// The volunteers remembered across a refresh: the (id, name) pair of
/// every project with a nonempty volunteer, in cache order.
pub open spec fn volunteer_pairs(ps: Seq<ProjectV>) -> Seq<VolunteerV>
    decreases ps.len(),
{
    if ps.len() == 0 {
        Seq::empty()
    } else {
        let rest = volunteer_pairs(ps.drop_first());
        if ps[0].volunteer.len() > 0 {
            seq![VolunteerV { id: ps[0].id, volunteer: ps[0].volunteer }] + rest
        } else {
            rest
        }
    }
}

/// Apply remembered volunteers one after the other, in order.
pub open spec fn spec_reapply(ps: Seq<ProjectV>, vs: Seq<VolunteerV>) -> Seq<ProjectV>
    decreases vs.len(),
{
    if vs.len() == 0 {
        ps
    } else {
        spec_reapply(spec_apply_volunteer(ps, vs[0].id, vs[0].volunteer), vs.drop_first())
    }
}

/// What a crawl refresh leaves in the cache: the crawled projects sorted
/// by `(folder, name)`, with each remembered volunteer reapplied — which
/// skips every project whose fresh status is `Success`.
pub open spec fn spec_refresh_result(old_cache: Seq<ProjectV>, crawled: Seq<ProjectV>) -> Seq<
    ProjectV,
> {
    spec_reapply(spec_sort(crawled), volunteer_pairs(old_cache))
}

/// The remembered volunteers of the first `i + 1` projects are those of
/// the first `i`, plus project `i`'s pair when it has one.
proof fn lemma_volunteer_pairs_take_snoc(ps: Seq<ProjectV>, i: int)
    requires
        0 <= i < ps.len(),
    ensures
        volunteer_pairs(ps.take(i + 1)) == volunteer_pairs(ps.take(i)) + (if ps[i].volunteer.len()
            > 0 {
            seq![VolunteerV { id: ps[i].id, volunteer: ps[i].volunteer }]
        } else {
            Seq::<VolunteerV>::empty()
        }),
    decreases i,
{
    if i == 0 {
        assert(ps.take(1) =~= seq![ps[0]]);
        assert(ps.take(1).drop_first() =~= Seq::<ProjectV>::empty());
        assert(ps.take(0) =~= Seq::<ProjectV>::empty());
        if ps[0].volunteer.len() > 0 {
            assert(volunteer_pairs(ps.take(1)) =~= volunteer_pairs(ps.take(0)) + seq![
                VolunteerV { id: ps[0].id, volunteer: ps[0].volunteer },
            ]);
        } else {
            assert(volunteer_pairs(ps.take(1)) =~= volunteer_pairs(ps.take(0))
                + Seq::<VolunteerV>::empty());
        }
    } else {
        lemma_volunteer_pairs_take_snoc(ps.drop_first(), i - 1);
        assert(ps.take(i + 1).drop_first() =~= ps.drop_first().take(i));
        assert(ps.take(i).drop_first() =~= ps.drop_first().take(i - 1));
        if ps[i].volunteer.len() > 0 {
            assert(volunteer_pairs(ps.take(i + 1)) =~= volunteer_pairs(ps.take(i)) + seq![
                VolunteerV { id: ps[i].id, volunteer: ps[i].volunteer },
            ]);
        } else {
            assert(volunteer_pairs(ps.take(i + 1)) =~= volunteer_pairs(ps.take(i))
                + Seq::<VolunteerV>::empty());
        }
    }
}

/// Reapplying the first `i + 1` volunteers is reapplying the first `i`,
/// then applying volunteer `i`.
proof fn lemma_reapply_take_snoc(ps: Seq<ProjectV>, vs: Seq<VolunteerV>, i: int)
    requires
        0 <= i < vs.len(),
    ensures
        spec_reapply(ps, vs.take(i + 1)) == spec_apply_volunteer(
            spec_reapply(ps, vs.take(i)),
            vs[i].id,
            vs[i].volunteer,
        ),
    decreases i,
{
    if i == 0 {
        assert(vs.take(1) =~= seq![vs[0]]);
        assert(vs.take(1).drop_first() =~= Seq::<VolunteerV>::empty());
        assert(vs.take(0) =~= Seq::<VolunteerV>::empty());
        let applied = spec_apply_volunteer(ps, vs[0].id, vs[0].volunteer);
        assert(vs.take(1)[0] == vs[0]);
        assert(spec_reapply(ps, vs.take(1)) == spec_reapply(applied, vs.take(1).drop_first()));
        assert(spec_reapply(applied, Seq::<VolunteerV>::empty()) == applied);
        assert(spec_reapply(ps, vs.take(0)) == ps);
    } else {
        let applied = spec_apply_volunteer(ps, vs[0].id, vs[0].volunteer);
        lemma_reapply_take_snoc(applied, vs.drop_first(), i - 1);
        assert(vs.take(i + 1).drop_first() =~= vs.drop_first().take(i));
        assert(vs.take(i).drop_first() =~= vs.drop_first().take(i - 1));
        assert(vs.take(i + 1)[0] == vs[0]);
        assert(vs.take(i)[0] == vs[0]);
        assert(vs.drop_first()[i - 1] == vs[i]);
        assert(spec_reapply(ps, vs.take(i + 1)) == spec_reapply(
            applied,
            vs.drop_first().take(i),
        ));
        assert(spec_reapply(ps, vs.take(i)) == spec_reapply(
            applied,
            vs.drop_first().take(i - 1),
        ));
        assert(spec_reapply(applied, vs.drop_first().take(i)) == spec_apply_volunteer(
            spec_reapply(applied, vs.drop_first().take(i - 1)),
            vs[i].id,
            vs[i].volunteer,
        ));
    }
}

/// A volunteer claim never moves a project or renames it: lengths, folders
/// and names are untouched.
proof fn lemma_apply_keeps_keys(ps: Seq<ProjectV>, id: u64, name: Seq<char>)
    ensures
        spec_apply_volunteer(ps, id, name).len() == ps.len(),
        forall|i: int|
            0 <= i < ps.len() ==> ((#[trigger] spec_apply_volunteer(ps, id, name)[i]).folder
                == ps[i].folder && spec_apply_volunteer(ps, id, name)[i].name == ps[i].name),
    decreases ps.len(),
{
    if ps.len() > 0 {
        lemma_apply_keeps_keys(ps.drop_first(), id, name);
    }
}

/// Reapplying volunteers keeps the cache sorted: the order reads only
/// folders and names, which a volunteer claim never changes.
proof fn lemma_reapply_keeps_sorted(ps: Seq<ProjectV>, vs: Seq<VolunteerV>)
    requires
        projects_sorted(ps),
    ensures
        projects_sorted(spec_reapply(ps, vs)),
        spec_reapply(ps, vs).len() == ps.len(),
    decreases vs.len(),
{
    if vs.len() > 0 {
        let applied = spec_apply_volunteer(ps, vs[0].id, vs[0].volunteer);
        lemma_apply_keeps_keys(ps, vs[0].id, vs[0].volunteer);
        assert forall|i: int, j: int| 0 <= i < j < applied.len() implies project_key_le(
            #[trigger] applied[i],
            #[trigger] applied[j],
        ) by {
            assert(project_key_le(ps[i], ps[j]));
        }
        lemma_reapply_keeps_sorted(applied, vs.drop_first());
    }
}

/// Law: after a crawl refresh the cache is in ascending `(folder, name)`
/// order.
pub proof fn lemma_refresh_sorted(old_cache: Seq<ProjectV>, crawled: Seq<ProjectV>)
    ensures
        projects_sorted(spec_refresh_result(old_cache, crawled)),
{
    crate::order::lemma_sort_sorted(crawled);
    lemma_reapply_keeps_sorted(spec_sort(crawled), volunteer_pairs(old_cache));
}

impl Monitor {
    /// A monitor for the given CI root URL, offline, with an empty cache.
    /// The initial hash is the all-ones value, which no cache hashes to in
    /// practice, so the first refresh reports a change.
    pub fn new(handle: u8, server: &str) -> (r: Monitor)
        ensures
            r.handle == handle,
            r.jenkins_server@ == server@,
            r.version == PROTOCOL_VERSION,
            r.projects@ == Seq::<ProjectV>::empty(),
            r.projects_hash == u64::MAX,
            r.server is None,
            r.client is None,
    {
        Monitor {
            handle,
            jenkins_server: server.to_owned(),
            version: PROTOCOL_VERSION,
            projects: ProjectCache::new(),
            projects_hash: u64::MAX,
            server: None,
            client: None,
        }
    }

    pub fn get_handle(&self) -> (r: u8)
        ensures
            r == self.handle,
    {
        self.handle
    }

    /// Borrow the cache.
    pub fn get_projects(&self) -> (r: &ProjectCache)
        ensures
            r@ == self.projects@,
    {
        &self.projects
    }

    /// The content hash of a project list, as this monitor computes it.
    pub fn generate_projects_hash(&self, projects: &Vec<Project>) -> (r: u64)
        ensures
            r == spec_projects_hash(projects.deep_view()),
    {
        crate::digest::generate_projects_hash(projects)
    }

    /// Attach a server transport state. A fresh server owes the group an
    /// immediate broadcast.
    pub fn start_server(&mut self, multicast: bool)
        ensures
            *final(self) == (Monitor {
                server: Some(MonitorServer { multicast, needs_refresh: true }),
                ..*old(self)
            }),
    {
        self.server = Some(MonitorServer::new(multicast));
    }

    pub fn stop_server(&mut self)
        ensures
            *final(self) == (Monitor { server: None, ..*old(self) }),
    {
        self.server = None;
    }

    /// Attach a client transport state, knowing nothing yet.
    pub fn start_client(&mut self, multicast: bool)
        ensures
            final(self).client matches Some(c) && c.multicast == multicast
                && !c.has_received_projects && c.server_endpoint is None && c.pending.deep_view()
                == Seq::<ProjectV>::empty() && c.volunteers.deep_view()
                == Seq::<VolunteerV>::empty() && c.last_known_hash == 0,
            final(self).handle == old(self).handle,
            final(self).jenkins_server == old(self).jenkins_server,
            final(self).version == old(self).version,
            final(self).projects == old(self).projects,
            final(self).projects_hash == old(self).projects_hash,
            final(self).server == old(self).server,
    {
        self.client = Some(MonitorClient::new(multicast));
    }

    pub fn stop_client(&mut self)
        ensures
            *final(self) == (Monitor { client: None, ..*old(self) }),
    {
        self.client = None;
    }

    /// Refresh the cache and report whether its content hash changed.
    ///
    /// With a client attached, the transport is the source of truth: its
    /// latest received list replaces the cache, and `crawled` is ignored.
    /// Otherwise the caller crawls and hands the snapshot in; the cache is
    /// rebuilt from it: sorted by `(folder, name)`, with each remembered
    /// volunteer reapplied unless the project's fresh status is `Success`.
    /// Without a client and without a snapshot the refresh fails and the
    /// prior cache stays intact.
    ///
    /// On a change with a server attached, the server is signalled to
    /// re-broadcast.
    pub fn refresh_projects(&mut self, crawled: Option<Vec<Project>>) -> (r: Result<
        bool,
        BuildMonitorError,
    >)
        ensures
            final(self).handle == old(self).handle,
            final(self).jenkins_server == old(self).jenkins_server,
            final(self).version == old(self).version,
            (old(self).client is None && crawled is None) ==> (r == Err::<
                bool,
                BuildMonitorError,
            >(BuildMonitorError::CrawlerUnavailable) && *final(self) == *old(self)),
            crawled matches Some(list) ==> (old(self).client is None ==> final(self).projects@
                == spec_refresh_result(old(self).projects@, list.deep_view())),
            (old(self).client is None && crawled is Some) ==> final(self).client is None,
            old(self).client matches Some(co) ==> (final(self).projects@ == (
            if co.pending.deep_view().len() > 0 {
                co.pending.deep_view()
            } else {
                old(self).projects@
            }) && (final(self).client matches Some(c) && c.multicast == co.multicast
                && c.has_received_projects == co.has_received_projects && c.server_endpoint
                == co.server_endpoint && c.volunteers == co.volunteers && c.last_known_hash
                == co.last_known_hash && c.pending.deep_view() == Seq::<ProjectV>::empty())),
            r is Ok ==> final(self).projects_hash == spec_projects_hash(final(self).projects@),
            r is Ok ==> r == Ok::<bool, BuildMonitorError>(spec_projects_hash(
                final(self).projects@,
            ) != old(self).projects_hash),
            r is Ok ==> (match (old(self).server, final(self).server) {
                (Some(so), Some(sf)) => sf.multicast == so.multicast && sf.needs_refresh == (
                so.needs_refresh || spec_projects_hash(final(self).projects@)
                    != old(self).projects_hash),
                (Option::None, Option::None) => true,
                _ => false,
            }),
    {
        match &mut self.client {
            Some(client) => {
                let (has, list) = client.get_projects();
                if has {
                    self.projects.replace(list);
                }
            },
            None => {
                match crawled {
                    Some(list) => {
                        let mut vols: Vec<Volunteer> = Vec::new();
                        {
                            let cur = self.projects.projects();
                            let ghost cv = cur.deep_view();
                            let mut i: usize = 0;
                            proof {
                                assert(vols.deep_view() =~= volunteer_pairs(cv.take(0)));
                            }
                            while i < cur.len()
                                invariant
                                    i <= cv.len(),
                                    cur.deep_view() == cv,
                                    vols.deep_view() == volunteer_pairs(cv.take(i as int)),
                                decreases cv.len() - i,
                            {
                                proof {
                                    lemma_volunteer_pairs_take_snoc(cv, i as int);
                                }
                                let ghost before = vols.deep_view();
                                if !cur[i].volunteer().is_empty() {
                                    let v = Volunteer {
                                        id: cur[i].id(),
                                        volunteer: cur[i].volunteer().to_owned(),
                                    };
                                    vols.push(v);
                                    proof {
                                        assert(vols.deep_view() =~= before + seq![
                                            VolunteerV {
                                                id: cv[i as int].id,
                                                volunteer: cv[i as int].volunteer,
                                            },
                                        ]);
                                    }
                                } else {
                                    proof {
                                        assert(volunteer_pairs(cv.take(i + 1)) =~= before);
                                    }
                                }
                                i = i + 1;
                            }
                            proof {
                                assert(cv.take(cv.len() as int) =~= cv);
                            }
                        }
                        let ghost pairs = vols.deep_view();
                        let sorted = sort_projects(&list);
                        self.projects.replace(sorted);
                        let ghost base = spec_sort(list.deep_view());
                        let mut i: usize = 0;
                        proof {
                            assert(pairs.take(0) =~= Seq::<VolunteerV>::empty());
                        }
                        while i < vols.len()
                            invariant
                                i <= pairs.len(),
                                vols.deep_view() == pairs,
                                self.projects@ == spec_reapply(base, pairs.take(i as int)),
                                self.handle == old(self).handle,
                                self.jenkins_server == old(self).jenkins_server,
                                self.version == old(self).version,
                                self.projects_hash == old(self).projects_hash,
                                self.server == old(self).server,
                                self.client == old(self).client,
                                self.client is None,
                            decreases pairs.len() - i,
                        {
                            proof {
                                lemma_reapply_take_snoc(base, pairs, i as int);
                                assert(pairs[i as int] == vols[i as int]@);
                            }
                            let _found = self.projects.apply_volunteer(
                                vols[i].id,
                                vols[i].volunteer.as_str(),
                            );
                            i = i + 1;
                        }
                        proof {
                            assert(pairs.take(pairs.len() as int) =~= pairs);
                        }
                    },
                    None => {
                        return Err(BuildMonitorError::CrawlerUnavailable);
                    },
                }
            },
        }
        let h = self.projects.content_hash();
        let changed = h != self.projects_hash;
        if changed {
            self.projects_hash = h;
            match &mut self.server {
                Some(server) => {
                    server.update_clients();
                },
                None => {},
            }
        }
        Ok(changed)
    }

    /// Announce a volunteer for the project with the given id, under the
    /// given user name.
    ///
    /// With a client attached the claim is queued for the server and
    /// applied optimistically to the local cache; with only a server
    /// attached it is applied to the cache directly, and a re-broadcast is
    /// triggered when it changed anything. Offline the call fails. In
    /// every case a project whose status is `Success` keeps its volunteer
    /// field as it is.
    pub fn set_volunteering(&mut self, project_id: u64, username: &str) -> (r: Result<
        (),
        BuildMonitorError,
    >)
        requires
            encode_utf8(username@).len() + 16 <= u32::MAX,
        ensures
            final(self).handle == old(self).handle,
            final(self).jenkins_server == old(self).jenkins_server,
            final(self).version == old(self).version,
            final(self).projects_hash == old(self).projects_hash,
            old(self).client matches Some(co) ==> (r is Ok && final(self).projects@
                == spec_apply_volunteer(old(self).projects@, project_id, username@) && (
            final(self).client matches Some(c) && c.volunteers.deep_view()
                == co.volunteers.deep_view().push(
                VolunteerV { id: project_id, volunteer: username@ },
            ) && c.multicast == co.multicast && c.has_received_projects
                == co.has_received_projects && c.server_endpoint == co.server_endpoint && c.pending
                == co.pending && c.last_known_hash == co.last_known_hash) && final(self).server
                == old(self).server),
            old(self).server matches Some(so) ==> (old(self).client is None ==> r is Ok
                && final(self).projects@ == spec_apply_volunteer(
                old(self).projects@,
                project_id,
                username@,
            ) && (final(self).server matches Some(s) && s.multicast == so.multicast
                && s.needs_refresh == (so.needs_refresh || spec_volunteer_applies(
                old(self).projects@,
                project_id,
            ))) && final(self).client is None),
            (old(self).client is None && old(self).server is None) ==> (r == Err::<
                (),
                BuildMonitorError,
            >(BuildMonitorError::NotConfigured) && *final(self) == *old(self)),
    {
        match &mut self.client {
            Some(client) => {
                let _found = self.projects.apply_volunteer(project_id, username);
                client.set_volunteering(project_id, username);
                Ok(())
            },
            None => {
                match &mut self.server {
                    Some(server) => {
                        let applies = self.projects.volunteer_applies(project_id);
                        let _found = self.projects.apply_volunteer(project_id, username);
                        if applies {
                            server.needs_refresh = true;
                        }
                        Ok(())
                    },
                    None => Err(BuildMonitorError::NotConfigured),
                }
            },
        }
    }
}

} // verus!
