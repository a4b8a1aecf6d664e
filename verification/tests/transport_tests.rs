use build_monitor::codec::{decode, MessageType};
use build_monitor::monitor::Monitor;
use build_monitor::project::{Project, ProjectStatus};
use build_monitor::transport::{Endpoint, ServerAction};

fn project_with_status(folder: &str, name: &str, url: &str, status: ProjectStatus) -> Project {
    let mut p = Project::new(folder, url);
    p.set_name(name);
    p.set_status(status);
    p
}

fn two_projects() -> Vec<Project> {
    vec![
        project_with_status("a", "x", "https://ci/job/a/job/x", ProjectStatus::Failed),
        project_with_status("b", "y", "https://ci/job/b/job/y", ProjectStatus::Success),
    ]
}

fn query_server_with_cache() -> Monitor {
    let mut server = Monitor::new(1, "https://ci");
    server.refresh_projects(Some(two_projects())).unwrap();
    server.start_server(false);
    server
}

fn endpoint() -> Endpoint {
    Endpoint { ip_hi: 0, ip_lo: 0x7f000001, port: 8090, is_v6: false }
}

#[test]
fn query_server_answers_matching_hash_with_no_update() {
    let mut server = query_server_with_cache();
    let hash = server.get_projects().content_hash();
    let request = {
        let mut client = Monitor::new(2, "https://ci");
        client.start_client(false);
        match &mut client.client {
            Some(c) => c.last_known_hash = hash,
            None => unreachable!(),
        }
        client.client_poll_request()
    };
    match server.server_handle_datagram(&request) {
        ServerAction::Reply(frame) => {
            assert_eq!(frame.len(), 12);
            let (h, payload, _) = decode(&frame).unwrap();
            assert!(h.msg_type == MessageType::NoProjectUpdate);
            assert!(payload.is_empty());
        },
        ServerAction::Ignore => panic!("expected a reply"),
    }
}

#[test]
fn query_client_converges_to_server_hash() {
    let mut server = query_server_with_cache();
    let server_hash = server.get_projects().content_hash();

    let mut client = Monitor::new(2, "https://ci");
    client.start_client(false);
    let request = client.client_poll_request();

    // hash 0 on the first poll: the server must send the full list
    let reply = match server.server_handle_datagram(&request) {
        ServerAction::Reply(frame) => frame,
        ServerAction::Ignore => panic!("expected a reply"),
    };
    let (h, _, _) = decode(&reply).unwrap();
    assert!(h.msg_type == MessageType::ProjectUpdate);

    assert!(client.client_handle_datagram(&reply, endpoint()).is_none());
    match &client.client {
        Some(c) => {
            assert_eq!(c.pending.len(), 2);
            assert!(c.has_received_projects);
            assert_eq!(c.last_known_hash, server_hash);
        },
        None => unreachable!(),
    }
    assert!(client.refresh_projects(None).unwrap());
    assert_eq!(client.get_projects().len(), 2);
}

#[test]
fn multicast_bring_up_beacon_request_update() {
    let mut server = Monitor::new(1, "https://ci");
    server.refresh_projects(Some(two_projects())).unwrap();
    server.start_server(true);

    let mut client = Monitor::new(2, "https://ci");
    client.start_client(true);

    // the client hears the beacon, remembers the server and asks for a sync
    let beacon = server.server_beacon_frame();
    let request = client
        .client_handle_datagram(&beacon, endpoint())
        .expect("a first beacon must provoke a request");
    assert!(client.client_server_endpoint() == Some(endpoint()));

    // a multicast server answers any valid request with the full list
    let reply = match server.server_handle_datagram(&request) {
        ServerAction::Reply(frame) => frame,
        ServerAction::Ignore => panic!("expected a reply"),
    };
    assert!(client.client_handle_datagram(&reply, endpoint()).is_none());
    match &client.client {
        // a multicast client never tracks the content hash
        Some(c) => assert_eq!(c.last_known_hash, 0),
        None => unreachable!(),
    }
    assert!(client.refresh_projects(None).unwrap());
    assert_eq!(client.get_projects().len(), 2);
    let snapshot = client.get_projects().read_snapshot();
    assert_eq!(snapshot[0].folder(), "a");
    assert_eq!(snapshot[1].folder(), "b");

    // once synced, further beacons are ignored
    assert!(client.client_handle_datagram(&beacon, endpoint()).is_none());
}

#[test]
fn volunteer_travels_from_client_to_all_clients() {
    let mut server = Monitor::new(1, "https://ci");
    server.refresh_projects(Some(two_projects())).unwrap();
    server.start_server(true);
    assert!(server.server_take_broadcast().is_some());

    let broken_id = two_projects()[0].id();
    let mut client = Monitor::new(2, "https://ci");
    client.start_client(true);
    client.set_volunteering(broken_id, "alice").unwrap();
    let frames = client.client_take_volunteer_frames();
    assert_eq!(frames.len(), 1);

    // the server applies the claim and owes the group a broadcast
    assert!(matches!(server.server_handle_datagram(&frames[0]), ServerAction::Ignore));
    let broadcast = server.server_take_broadcast().expect("a volunteer forces a broadcast");
    assert!(server.server_take_broadcast().is_none());

    // another client receives the broadcast and converges
    let mut other = Monitor::new(3, "https://ci");
    other.start_client(true);
    assert!(other.client_handle_datagram(&broadcast, endpoint()).is_none());
    other.refresh_projects(None).unwrap();
    let snapshot = other.get_projects().read_snapshot();
    let p = snapshot.iter().find(|p| p.id() == broken_id).unwrap();
    assert_eq!(p.volunteer(), "alice");
}

#[test]
fn volunteer_for_successful_project_is_suppressed() {
    let mut server = Monitor::new(1, "https://ci");
    server.refresh_projects(Some(two_projects())).unwrap();
    server.start_server(true);
    assert!(server.server_take_broadcast().is_some());

    let ok_id = two_projects()[1].id();
    let mut client = Monitor::new(2, "https://ci");
    client.start_client(true);
    client.set_volunteering(ok_id, "alice").unwrap();
    let frames = client.client_take_volunteer_frames();
    assert_eq!(frames.len(), 1);

    assert!(matches!(server.server_handle_datagram(&frames[0]), ServerAction::Ignore));
    let snapshot = server.get_projects().read_snapshot();
    let p = snapshot.iter().find(|p| p.id() == ok_id).unwrap();
    assert_eq!(p.volunteer(), "");
    // no re-broadcast is triggered by this message alone
    assert!(server.server_take_broadcast().is_none());
}

#[test]
fn foreign_version_is_dropped_silently() {
    let mut server = query_server_with_cache();
    let hash_before = server.get_projects().content_hash();

    let mut request = {
        let mut client = Monitor::new(2, "https://ci");
        client.start_client(false);
        client.client_poll_request()
    };
    // rewrite the version field to 2
    request[0] = 2;
    assert!(matches!(server.server_handle_datagram(&request), ServerAction::Ignore));
    assert_eq!(server.get_projects().content_hash(), hash_before);

    let mut client = Monitor::new(3, "https://ci");
    client.start_client(true);
    let mut beacon = server.server_beacon_frame();
    beacon[0] = 2;
    assert!(client.client_handle_datagram(&beacon, endpoint()).is_none());
    match &client.client {
        Some(c) => {
            assert!(c.server_endpoint.is_none());
            assert!(!c.has_received_projects);
        },
        None => unreachable!(),
    }
}

#[test]
fn truncated_and_oversized_frames_are_dropped() {
    let mut server = query_server_with_cache();
    // a truncated request: header says 8 payload bytes, none follow
    let truncated = vec![1, 0, 0, 0, 8, 0, 0, 0, 4, 0, 0, 0];
    assert!(matches!(server.server_handle_datagram(&truncated), ServerAction::Ignore));
    // a request whose payload is shorter than a hash
    let short = vec![1, 0, 0, 0, 4, 0, 0, 0, 4, 0, 0, 0, 1, 2, 3, 4];
    assert!(matches!(server.server_handle_datagram(&short), ServerAction::Ignore));
}

#[test]
fn server_ignores_messages_it_does_not_serve() {
    let mut server = query_server_with_cache();
    let beacon = server.server_beacon_frame();
    assert!(matches!(server.server_handle_datagram(&beacon), ServerAction::Ignore));
}
