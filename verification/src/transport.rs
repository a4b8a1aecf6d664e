//! Transport state and decision logic. The engine never touches a socket:
//! the surrounding process feeds each received datagram in and carries the
//! returned frames out. Two modes share one message vocabulary: multicast
//! push (the server beacons and broadcasts) and unicast query (the client
//! polls with its hash).

use vstd::bytes::*;
use vstd::prelude::*;
use vstd::utf8::*;

use crate::codec::{
    encode, frame_for, spec_decode, spec_encode_project_list, spec_encode_volunteer, Header,
    MessageType,
};
use crate::cache::{spec_apply_volunteer, spec_volunteer_applies};
use crate::digest::spec_projects_hash;
use crate::monitor::Monitor;
use crate::parse::{spec_parse_project_list, spec_parse_u64, spec_parse_volunteer};
use crate::project::{Project, ProjectV, Volunteer, VolunteerV};

verus! {

/// A socket address as an opaque token: the engine only remembers it and
/// hands it back, so the process around the engine maps real addresses to
/// and from this form.
#[derive(Clone, Copy, PartialEq, Eq, Structural, Debug)]
pub struct Endpoint {
    pub ip_hi: u64,
    pub ip_lo: u64,
    pub port: u16,
    pub is_v6: bool,
}

/// Server-side transport state: whether the transport multicasts, and
/// whether the next loop turn owes the group a broadcast.
#[derive(Clone, Copy, PartialEq, Eq, Structural, Debug)]
pub struct MonitorServer {
    pub multicast: bool,
    pub needs_refresh: bool,
}

impl MonitorServer {
    /// A freshly started server owes the group an immediate broadcast.
    pub fn new(multicast: bool) -> (r: MonitorServer)
        ensures
            r == (MonitorServer { multicast, needs_refresh: true }),
    {
        MonitorServer { multicast, needs_refresh: true }
    }

    /// Mark that clients need a push on the next loop turn.
    pub fn update_clients(&mut self)
        ensures
            *final(self) == (MonitorServer { needs_refresh: true, ..*old(self) }),
    {
        self.needs_refresh = true;
    }
}

/// Client-side transport state: the pending (last received) project list,
/// the queue of volunteers not yet sent, the remembered server address in
/// multicast mode, and the last known content hash in query mode.
pub struct MonitorClient {
    pub multicast: bool,
    pub has_received_projects: bool,
    pub server_endpoint: Option<Endpoint>,
    pub pending: Vec<Project>,
    pub volunteers: Vec<Volunteer>,
    pub last_known_hash: u64,
}

/// Every queued volunteer's name fits a frame: its UTF-8 bytes together
/// with the two length prefixes stay within the `u32` payload size.
pub open spec fn volunteers_fit(vs: Seq<VolunteerV>) -> bool {
    forall|i: int|
        0 <= i < vs.len() ==> encode_utf8((#[trigger] vs[i]).volunteer).len() + 16 <= u32::MAX
}

impl MonitorClient {
    /// A freshly started client knows nothing yet: hash 0, no server seen.
    pub fn new(multicast: bool) -> (r: MonitorClient)
        ensures
            r.multicast == multicast,
            !r.has_received_projects,
            r.server_endpoint is None,
            r.pending.deep_view() == Seq::<ProjectV>::empty(),
            r.volunteers.deep_view() == Seq::<VolunteerV>::empty(),
            r.last_known_hash == 0,
    {
        let r = MonitorClient {
            multicast,
            has_received_projects: false,
            server_endpoint: None,
            pending: Vec::new(),
            volunteers: Vec::new(),
            last_known_hash: 0,
        };
        proof {
            assert(r.pending.deep_view() =~= Seq::<ProjectV>::empty());
            assert(r.volunteers.deep_view() =~= Seq::<VolunteerV>::empty());
        }
        r
    }

    /// Queue a volunteer claim to be sent to the server on the next loop
    /// turn.
    pub fn set_volunteering(&mut self, project_id: u64, username: &str)
        requires
            encode_utf8(username@).len() + 16 <= u32::MAX,
        ensures
            final(self).volunteers.deep_view() == old(self).volunteers.deep_view().push(
                VolunteerV { id: project_id, volunteer: username@ },
            ),
            final(self).multicast == old(self).multicast,
            final(self).has_received_projects == old(self).has_received_projects,
            final(self).server_endpoint == old(self).server_endpoint,
            final(self).pending == old(self).pending,
            final(self).last_known_hash == old(self).last_known_hash,
    {
        self.volunteers.push(Volunteer { id: project_id, volunteer: username.to_owned() });
        proof {
            assert(final(self).volunteers.deep_view() =~= old(self).volunteers.deep_view().push(
                VolunteerV { id: project_id, volunteer: username@ },
            ));
        }
    }

    /// Drain the pending project list: `(true, list)` when one was
    /// received since the last drain, `(false, empty)` otherwise.
    pub fn get_projects(&mut self) -> (r: (bool, Vec<Project>))
        ensures
            r.0 == (old(self).pending.deep_view().len() > 0),
            r.1.deep_view() == old(self).pending.deep_view(),
            final(self).pending.deep_view() == Seq::<ProjectV>::empty(),
            final(self).multicast == old(self).multicast,
            final(self).has_received_projects == old(self).has_received_projects,
            final(self).server_endpoint == old(self).server_endpoint,
            final(self).volunteers == old(self).volunteers,
            final(self).last_known_hash == old(self).last_known_hash,
    {
        if self.pending.is_empty() {
            let empty: Vec<Project> = Vec::new();
            proof {
                assert(empty.deep_view() =~= old(self).pending.deep_view());
                assert(self.pending.deep_view() =~= Seq::<ProjectV>::empty());
            }
            (false, empty)
        } else {
            let mut taken: Vec<Project> = Vec::new();
            core::mem::swap(&mut taken, &mut self.pending);
            proof {
                assert(self.pending.deep_view() =~= Seq::<ProjectV>::empty());
            }
            (true, taken)
        }
    }
}

/// Build the frame for a message with an empty payload: `Beacon` or
/// `NoProjectUpdate`.
pub fn build_empty_frame(version: u32, t: MessageType) -> (r: Vec<u8>)
    ensures
        r@ == frame_for(version, t, Seq::<u8>::empty()),
{
    let payload: Vec<u8> = Vec::new();
    let header = Header { version, msg_size: 0, msg_type: t };
    let r = encode(&header, &payload);
    proof {
        assert(r@ =~= frame_for(version, t, Seq::<u8>::empty()));
    }
    r
}

/// Build a `ProjectUpdateRequest` frame carrying the client's hash.
pub fn build_request_frame(version: u32, hash: u64) -> (r: Vec<u8>)
    ensures
        r@ == frame_for(version, MessageType::ProjectUpdateRequest, spec_u64_to_le_bytes(hash)),
{
    let payload = crate::codec::serialize_hash(hash);
    proof {
        vstd::bytes::lemma_auto_spec_u64_to_from_le_bytes();
    }
    let header = Header {
        version,
        msg_size: payload.len() as u32,
        msg_type: MessageType::ProjectUpdateRequest,
    };
    encode(&header, &payload)
}

/// Build a `ProjectUpdate` frame carrying the full project list, or
/// nothing when the serialized list exceeds the `u32` payload size.
pub fn build_update_frame(version: u32, projects: &Vec<Project>) -> (r: Option<Vec<u8>>)
    ensures
        r is Some <==> spec_encode_project_list(projects.deep_view()).len() <= u32::MAX,
        r matches Some(f) ==> f@ == frame_for(
            version,
            MessageType::ProjectUpdate,
            spec_encode_project_list(projects.deep_view()),
        ),
{
    let payload = crate::codec::serialize_projects(projects);
    if payload.len() <= u32::MAX as usize {
        let header = Header {
            version,
            msg_size: payload.len() as u32,
            msg_type: MessageType::ProjectUpdate,
        };
        Some(encode(&header, &payload))
    } else {
        None
    }
}

/// Build a `VolunteerAdded` frame. The name must fit the payload, as
/// [`volunteers_fit`] guarantees for queued claims.
pub fn build_volunteer_frame(version: u32, id: u64, name: &str) -> (r: Vec<u8>)
    requires
        encode_utf8(name@).len() + 16 <= u32::MAX,
    ensures
        r@ == frame_for(version, MessageType::VolunteerAdded, spec_encode_volunteer(id, name@)),
{
    let payload = crate::codec::serialize_volunteer(id, name);
    proof {
        vstd::bytes::lemma_auto_spec_u64_to_from_le_bytes();
    }
    let header = Header {
        version,
        msg_size: payload.len() as u32,
        msg_type: MessageType::VolunteerAdded,
    };
    encode(&header, &payload)
}

/// What a received datagram means to a receiver speaking `version`: the
/// parsed message, or `Dropped` for frames that are malformed, carry an
/// unknown type, a foreign version, or a payload their type cannot parse.
pub enum WireEvent {
    Dropped,
    BeaconSeen,
    UpdateRequest(u64),
    UpdateReceived(Seq<ProjectV>),
    NoUpdateSeen,
    VolunteerSeen(u64, Seq<char>),
}

/// Classify a datagram for a receiver speaking `version`.
pub open spec fn frame_event(bytes: Seq<u8>, version: u32) -> WireEvent {
    match spec_decode(bytes) {
        Option::None => WireEvent::Dropped,
        Option::Some((h, payload, _rest)) => {
            if h.version != version {
                WireEvent::Dropped
            } else {
                match h.msg_type {
                    MessageType::Invalid => WireEvent::Dropped,
                    MessageType::Beacon => WireEvent::BeaconSeen,
                    MessageType::ProjectUpdate => match spec_parse_project_list(payload) {
                        Option::Some(t) => WireEvent::UpdateReceived(t.0),
                        Option::None => WireEvent::Dropped,
                    },
                    MessageType::NoProjectUpdate => WireEvent::NoUpdateSeen,
                    MessageType::ProjectUpdateRequest => match spec_parse_u64(payload) {
                        Option::Some(t) => WireEvent::UpdateRequest(t.0),
                        Option::None => WireEvent::Dropped,
                    },
                    MessageType::VolunteerAdded => match spec_parse_volunteer(payload) {
                        Option::Some(t) => WireEvent::VolunteerSeen(t.0.0, t.0.1),
                        Option::None => WireEvent::Dropped,
                    },
                }
            }
        },
    }
}

/// Law: the frame a server builds for its cache, decoded and parsed by a
/// receiver speaking the same version, yields exactly that cache.
pub proof fn lemma_update_frame_carries_cache(version: u32, cache: Seq<ProjectV>)
    requires
        crate::codec::projects_encodable(cache),
        spec_encode_project_list(cache).len() <= u32::MAX,
    ensures
        frame_event(
            frame_for(version, MessageType::ProjectUpdate, spec_encode_project_list(cache)),
            version,
        ) matches WireEvent::UpdateReceived(ps) && ps == cache,
{
    let payload = spec_encode_project_list(cache);
    let h = Header {
        version,
        msg_size: payload.len() as u32,
        msg_type: MessageType::ProjectUpdate,
    };
    crate::codec::lemma_frame_round_trip(h, payload);
    assert(payload + Seq::<u8>::empty() =~= payload);
    crate::parse::lemma_parse_project_list_round(cache, Seq::<u8>::empty());
}

/// Law: a volunteer frame, read at the same version, carries exactly the
/// claimed id and name.
pub proof fn lemma_volunteer_frame_carries_claim(version: u32, id: u64, name: Seq<char>)
    requires
        encode_utf8(name).len() + 16 <= u32::MAX,
    ensures
        frame_event(
            frame_for(version, MessageType::VolunteerAdded, spec_encode_volunteer(id, name)),
            version,
        ) matches WireEvent::VolunteerSeen(i, n) && i == id && n == name,
{
    let payload = spec_encode_volunteer(id, name);
    vstd::bytes::lemma_auto_spec_u64_to_from_le_bytes();
    let h = Header {
        version,
        msg_size: payload.len() as u32,
        msg_type: MessageType::VolunteerAdded,
    };
    crate::codec::lemma_frame_round_trip(h, payload);
    assert(payload + Seq::<u8>::empty() =~= payload);
    crate::parse::lemma_parse_volunteer_round(id, name, Seq::<u8>::empty());
}

/// Law: a request frame, read at the same version, carries exactly the
/// client's hash.
pub proof fn lemma_request_frame_carries_hash(version: u32, hash: u64)
    ensures
        frame_event(
            frame_for(version, MessageType::ProjectUpdateRequest, spec_u64_to_le_bytes(hash)),
            version,
        ) matches WireEvent::UpdateRequest(x) && x == hash,
{
    let payload = spec_u64_to_le_bytes(hash);
    vstd::bytes::lemma_auto_spec_u64_to_from_le_bytes();
    let h = Header {
        version,
        msg_size: payload.len() as u32,
        msg_type: MessageType::ProjectUpdateRequest,
    };
    crate::codec::lemma_frame_round_trip(h, payload);
    assert(payload + Seq::<u8>::empty() =~= payload);
    crate::parse::lemma_parse_u64_round(hash, Seq::<u8>::empty());
}

/// Law: beacons and no-update frames, read at the same version, mean what
/// they say.
pub proof fn lemma_empty_frames_classified(version: u32)
    ensures
        frame_event(
            frame_for(version, MessageType::Beacon, Seq::<u8>::empty()),
            version,
        ) is BeaconSeen,
        frame_event(
            frame_for(version, MessageType::NoProjectUpdate, Seq::<u8>::empty()),
            version,
        ) is NoUpdateSeen,
{
    crate::codec::lemma_frame_round_trip(
        Header { version, msg_size: 0, msg_type: MessageType::Beacon },
        Seq::<u8>::empty(),
    );
    crate::codec::lemma_frame_round_trip(
        Header { version, msg_size: 0, msg_type: MessageType::NoProjectUpdate },
        Seq::<u8>::empty(),
    );
}

/// Law: a frame built at one protocol version is dropped, whatever it
/// carries, by every receiver speaking another version.
pub proof fn lemma_foreign_version_dropped(
    sender: u32,
    receiver: u32,
    t: MessageType,
    payload: Seq<u8>,
)
    requires
        sender != receiver,
        payload.len() <= u32::MAX,
    ensures
        frame_event(frame_for(sender, t, payload), receiver) is Dropped,
{
    crate::codec::lemma_frame_round_trip(
        Header { version: sender, msg_size: payload.len() as u32, msg_type: t },
        payload,
    );
}

/// What a server's loop does with one received datagram: nothing, or send
/// the frame back to the datagram's sender.
pub enum ServerAction {
    Ignore,
    Reply(Vec<u8>),
}

/// The action answers an update request with the full list: a
/// `ProjectUpdate` frame carrying the cache, unless the serialized cache
/// exceeds the `u32` payload size, in which case the request is dropped.
pub open spec fn update_reply_ok(act: ServerAction, version: u32, cache: Seq<ProjectV>) -> bool {
    if spec_encode_project_list(cache).len() <= u32::MAX {
        act matches ServerAction::Reply(f) && f@ == frame_for(
            version,
            MessageType::ProjectUpdate,
            spec_encode_project_list(cache),
        )
    } else {
        act is Ignore
    }
}

/// The action answers with an empty `NoProjectUpdate` frame.
pub open spec fn no_update_reply_ok(act: ServerAction, version: u32) -> bool {
    act matches ServerAction::Reply(f) && f@ == frame_for(
        version,
        MessageType::NoProjectUpdate,
        Seq::<u8>::empty(),
    )
}

impl Monitor {
    /// Server loop, one received datagram.
    ///
    /// A valid `ProjectUpdateRequest` is answered towards its sender: in
    /// multicast mode always with the full list; in query mode with
    /// `NoProjectUpdate` when the request carries the cache's current
    /// hash, with the full list otherwise. A valid `VolunteerAdded` is
    /// applied to the cache, and in multicast mode a re-broadcast is
    /// scheduled when it changed anything. Every other frame — malformed,
    /// foreign version, or a type the server does not serve — is dropped
    /// without a reply and without a state change.
    pub fn server_handle_datagram(&mut self, frame: &Vec<u8>) -> (act: ServerAction)
        requires
            old(self).server is Some,
        ensures
            final(self).handle == old(self).handle,
            final(self).jenkins_server == old(self).jenkins_server,
            final(self).version == old(self).version,
            final(self).projects_hash == old(self).projects_hash,
            final(self).client == old(self).client,
            (frame_event(frame@, old(self).version) is Dropped || frame_event(
                frame@,
                old(self).version,
            ) is BeaconSeen || frame_event(frame@, old(self).version) is NoUpdateSeen
                || frame_event(frame@, old(self).version) is UpdateReceived) ==> (*final(self)
                == *old(self) && act is Ignore),
            frame_event(frame@, old(self).version) matches WireEvent::UpdateRequest(h)
                ==> (*final(self) == *old(self) && (old(self).server matches Some(so) && (
            if so.multicast {
                update_reply_ok(act, old(self).version, old(self).projects@)
            } else if h == spec_projects_hash(old(self).projects@) {
                no_update_reply_ok(act, old(self).version)
            } else {
                update_reply_ok(act, old(self).version, old(self).projects@)
            }))),
            frame_event(frame@, old(self).version) matches WireEvent::VolunteerSeen(id, name) ==> (
            act is Ignore && final(self).projects@ == spec_apply_volunteer(
                old(self).projects@,
                id,
                name,
            ) && (old(self).server matches Some(so) && (final(self).server matches Some(sf)
                && sf.multicast == so.multicast && sf.needs_refresh == (so.needs_refresh || (
            so.multicast && spec_volunteer_applies(old(self).projects@, id)))))),
    {
        let decoded = crate::codec::decode(frame.as_slice());
        let (header, payload, _rest) = match decoded {
            Ok(t) => t,
            Err(_) => {
                return ServerAction::Ignore;
            },
        };
        if header.version != self.version {
            return ServerAction::Ignore;
        }
        match header.msg_type {
            MessageType::ProjectUpdateRequest => {
                match crate::parse::deserialize_hash(payload.as_slice()) {
                    Some(h) => {
                        let multicast = match &self.server {
                            Some(s) => s.multicast,
                            None => false,
                        };
                        if multicast {
                            match build_update_frame(self.version, self.projects.projects()) {
                                Some(f) => ServerAction::Reply(f),
                                None => ServerAction::Ignore,
                            }
                        } else {
                            let current = self.projects.content_hash();
                            if h == current {
                                ServerAction::Reply(
                                    build_empty_frame(self.version, MessageType::NoProjectUpdate),
                                )
                            } else {
                                match build_update_frame(self.version, self.projects.projects()) {
                                    Some(f) => ServerAction::Reply(f),
                                    None => ServerAction::Ignore,
                                }
                            }
                        }
                    },
                    None => ServerAction::Ignore,
                }
            },
            MessageType::VolunteerAdded => {
                match crate::parse::deserialize_volunteer(payload.as_slice()) {
                    Some(v) => {
                        let multicast = match &self.server {
                            Some(s) => s.multicast,
                            None => false,
                        };
                        let applies = self.projects.volunteer_applies(v.id);
                        let _found = self.projects.apply_volunteer(v.id, v.volunteer.as_str());
                        if multicast && applies {
                            match &mut self.server {
                                Some(s) => {
                                    s.needs_refresh = true;
                                },
                                None => {},
                            }
                        }
                        ServerAction::Ignore
                    },
                    None => ServerAction::Ignore,
                }
            },
            _ => ServerAction::Ignore,
        }
    }

    /// Server loop, broadcast turn: when a re-broadcast is owed, clear the
    /// flag and hand out the `ProjectUpdate` frame for the group — unless
    /// the serialized cache exceeds the `u32` payload size, in which case
    /// the turn is skipped.
    pub fn server_take_broadcast(&mut self) -> (r: Option<Vec<u8>>)
        requires
            old(self).server is Some,
        ensures
            final(self).handle == old(self).handle,
            final(self).jenkins_server == old(self).jenkins_server,
            final(self).version == old(self).version,
            final(self).projects == old(self).projects,
            final(self).projects_hash == old(self).projects_hash,
            final(self).client == old(self).client,
            old(self).server matches Some(so) ==> (final(self).server matches Some(sf)
                && sf.multicast == so.multicast && !sf.needs_refresh && (!so.needs_refresh ==> (r
                is None && *final(self) == *old(self))) && (so.needs_refresh ==> (
            if spec_encode_project_list(old(self).projects@).len() <= u32::MAX {
                r matches Some(f) && f@ == frame_for(
                    old(self).version,
                    MessageType::ProjectUpdate,
                    spec_encode_project_list(old(self).projects@),
                )
            } else {
                r is None
            }))),
    {
        let needs = match &self.server {
            Some(s) => s.needs_refresh,
            None => false,
        };
        if !needs {
            return None;
        }
        match &mut self.server {
            Some(s) => {
                s.needs_refresh = false;
            },
            None => {},
        }
        build_update_frame(self.version, self.projects.projects())
    }

    /// The beacon a multicast server sends the group about once a second.
    pub fn server_beacon_frame(&self) -> (r: Vec<u8>)
        ensures
            r@ == frame_for(self.version, MessageType::Beacon, Seq::<u8>::empty()),
    {
        build_empty_frame(self.version, MessageType::Beacon)
    }

    /// Client loop, one received datagram; the result, if any, is a frame
    /// to send back to the datagram's sender.
    ///
    /// A valid `ProjectUpdate` overwrites the pending list, whatever came
    /// before; in query mode the last known hash is recomputed from it. A
    /// `Beacon` matters only to a multicast client that has not received
    /// projects yet: it remembers the sender as the server and asks it for
    /// a first sync with a zero hash. Everything else is dropped.
    pub fn client_handle_datagram(&mut self, frame: &Vec<u8>, from: Endpoint) -> (reply: Option<
        Vec<u8>,
    >)
        requires
            old(self).client is Some,
        ensures
            final(self).handle == old(self).handle,
            final(self).jenkins_server == old(self).jenkins_server,
            final(self).version == old(self).version,
            final(self).projects == old(self).projects,
            final(self).projects_hash == old(self).projects_hash,
            final(self).server == old(self).server,
            frame_event(frame@, old(self).version) matches WireEvent::UpdateReceived(ps) ==> (reply
                is None && (old(self).client matches Some(co) && (final(self).client matches Some(
                c,
            ) && c.multicast == co.multicast && c.volunteers == co.volunteers && c.server_endpoint
                == co.server_endpoint && c.pending.deep_view() == ps && c.has_received_projects
                && c.last_known_hash == (if co.multicast {
                co.last_known_hash
            } else {
                spec_projects_hash(ps)
            })))),
            frame_event(frame@, old(self).version) is BeaconSeen ==> (old(self).client
                matches Some(co) && (if co.multicast && !co.has_received_projects {
                (final(self).client matches Some(c) && c.multicast == co.multicast && c.volunteers
                    == co.volunteers && c.pending == co.pending && c.has_received_projects
                    == co.has_received_projects && c.last_known_hash == co.last_known_hash
                    && c.server_endpoint == Some(from)) && (reply matches Some(f) && f@
                    == frame_for(
                    old(self).version,
                    MessageType::ProjectUpdateRequest,
                    spec_u64_to_le_bytes(0),
                ))
            } else {
                *final(self) == *old(self) && reply is None
            })),
            (frame_event(frame@, old(self).version) is Dropped || frame_event(
                frame@,
                old(self).version,
            ) is NoUpdateSeen || frame_event(frame@, old(self).version) is UpdateRequest
                || frame_event(frame@, old(self).version) is VolunteerSeen) ==> (*final(self)
                == *old(self) && reply is None),
    {
        let decoded = crate::codec::decode(frame.as_slice());
        let (header, payload, _rest) = match decoded {
            Ok(t) => t,
            Err(_) => {
                return None;
            },
        };
        if header.version != self.version {
            return None;
        }
        match header.msg_type {
            MessageType::ProjectUpdate => {
                match crate::parse::deserialize_projects(payload.as_slice()) {
                    Some(list) => {
                        let h = crate::digest::generate_projects_hash(&list);
                        match &mut self.client {
                            Some(client) => {
                                client.pending = list;
                                client.has_received_projects = true;
                                if !client.multicast {
                                    client.last_known_hash = h;
                                }
                            },
                            None => {},
                        }
                        None
                    },
                    None => None,
                }
            },
            MessageType::Beacon => {
                match &mut self.client {
                    Some(client) => {
                        if client.multicast && !client.has_received_projects {
                            client.server_endpoint = Some(from);
                            Some(build_request_frame(self.version, 0))
                        } else {
                            None
                        }
                    },
                    None => None,
                }
            },
            _ => None,
        }
    }

    /// The poll a query-mode client sends the server each interval: a
    /// `ProjectUpdateRequest` carrying its last known hash.
    pub fn client_poll_request(&self) -> (r: Vec<u8>)
        requires
            self.client is Some,
        ensures
            self.client matches Some(c) ==> r@ == frame_for(
                self.version,
                MessageType::ProjectUpdateRequest,
                spec_u64_to_le_bytes(c.last_known_hash),
            ),
    {
        let hash = match &self.client {
            Some(c) => c.last_known_hash,
            None => 0,
        };
        build_request_frame(self.version, hash)
    }

    /// Where the client sends its volunteers: the configured server in
    /// query mode is known to the surrounding process; a multicast client
    /// knows only the address remembered from the last beacon, or nothing
    /// yet.
    pub fn client_server_endpoint(&self) -> (r: Option<Endpoint>)
        requires
            self.client is Some,
        ensures
            self.client matches Some(c) ==> r == c.server_endpoint,
    {
        match &self.client {
            Some(c) => c.server_endpoint,
            None => None,
        }
    }

    /// Client loop, volunteer turn: drain the queue and hand out one
    /// `VolunteerAdded` frame per queued claim, in order.
    pub fn client_take_volunteer_frames(&mut self) -> (frames: Vec<Vec<u8>>)
        requires
            old(self).client is Some,
            old(self).client matches Some(co) ==> volunteers_fit(co.volunteers.deep_view()),
        ensures
            final(self).handle == old(self).handle,
            final(self).jenkins_server == old(self).jenkins_server,
            final(self).version == old(self).version,
            final(self).projects == old(self).projects,
            final(self).projects_hash == old(self).projects_hash,
            final(self).server == old(self).server,
            old(self).client matches Some(co) ==> (final(self).client matches Some(c)
                && c.multicast == co.multicast && c.has_received_projects
                == co.has_received_projects && c.server_endpoint == co.server_endpoint && c.pending
                == co.pending && c.last_known_hash == co.last_known_hash
                && c.volunteers.deep_view() == Seq::<VolunteerV>::empty()
                && frames.deep_view().len() == co.volunteers.deep_view().len() && (forall|i: int|
                0 <= i < frames.deep_view().len() ==> frames.deep_view()[i] == frame_for(
                    old(self).version,
                    MessageType::VolunteerAdded,
                    spec_encode_volunteer(
                        co.volunteers.deep_view()[i].id,
                        co.volunteers.deep_view()[i].volunteer,
                    ),
                ))),
    {
        let mut queued: Vec<Volunteer> = Vec::new();
        match &mut self.client {
            Some(client) => {
                core::mem::swap(&mut queued, &mut client.volunteers);
                proof {
                    assert(client.volunteers.deep_view() =~= Seq::<VolunteerV>::empty());
                }
            },
            None => {},
        }
        let ghost vs = queued.deep_view();
        let version = self.version;
        let mut frames: Vec<Vec<u8>> = Vec::new();
        let mut i: usize = 0;
        while i < queued.len()
            invariant
                i <= vs.len(),
                queued.deep_view() == vs,
                volunteers_fit(vs),
                frames.deep_view().len() == i,
                forall|k: int|
                    0 <= k < i ==> frames.deep_view()[k] == frame_for(
                        version,
                        MessageType::VolunteerAdded,
                        spec_encode_volunteer(vs[k].id, vs[k].volunteer),
                    ),
            decreases vs.len() - i,
        {
            proof {
                assert(vs[i as int] == queued[i as int].deep_view());
                assert(encode_utf8(vs[i as int].volunteer).len() + 16 <= u32::MAX);
            }
            let f = build_volunteer_frame(version, queued[i].id, queued[i].volunteer.as_str());
            let ghost prev = frames.deep_view();
            frames.push(f);
            proof {
                assert(f.deep_view() =~= f@);
                assert(frames.deep_view() =~= prev.push(f@));
            }
            i = i + 1;
        }
        frames
    }
}

} // verus!
