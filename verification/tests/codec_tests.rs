use build_monitor::codec::{decode, encode, serialize_hash, serialize_projects,
    serialize_volunteer, CodecError, Header, MessageType};
use build_monitor::parse::{deserialize_hash, deserialize_projects, deserialize_volunteer};
use build_monitor::project::{Project, ProjectStatus};

fn sample_project(folder: &str, name: &str, url: &str, status: ProjectStatus) -> Project {
    let mut p = Project::new(folder, url);
    p.set_name(name);
    p.set_status(status);
    p
}

#[test]
fn header_new_is_version_one_empty_invalid() {
    let h = Header::new();
    assert_eq!(h.version, 1);
    assert_eq!(h.msg_size, 0);
    assert!(h.msg_type == MessageType::Invalid);
}

#[test]
fn header_bytes_are_little_endian() {
    let h = Header { version: 1, msg_size: 8, msg_type: MessageType::ProjectUpdateRequest };
    let payload = serialize_hash(0x0807060504030201);
    let frame = encode(&h, &payload);
    assert_eq!(
        frame,
        vec![1, 0, 0, 0, 8, 0, 0, 0, 4, 0, 0, 0, 1, 2, 3, 4, 5, 6, 7, 8]
    );
}

#[test]
fn round_trip_every_message_type() {
    let cases: Vec<(MessageType, Vec<u8>)> = vec![
        (MessageType::Invalid, vec![]),
        (MessageType::Beacon, vec![]),
        (MessageType::ProjectUpdate, vec![9, 9, 9]),
        (MessageType::NoProjectUpdate, vec![]),
        (MessageType::ProjectUpdateRequest, serialize_hash(42)),
        (MessageType::VolunteerAdded, serialize_volunteer(7, "alice")),
    ];
    for (t, payload) in cases {
        let h = Header { version: 1, msg_size: payload.len() as u32, msg_type: t };
        let frame = encode(&h, &payload);
        let (h2, payload2, rest) = decode(&frame).unwrap();
        assert!(h2 == h);
        assert_eq!(payload2, payload);
        assert!(rest.is_empty());
    }
}

#[test]
fn decode_keeps_trailing_bytes_as_remainder() {
    let h = Header { version: 1, msg_size: 2, msg_type: MessageType::ProjectUpdate };
    let mut frame = encode(&h, &vec![10, 20]);
    frame.extend_from_slice(&[77, 88, 99]);
    let (h2, payload, rest) = decode(&frame).unwrap();
    assert!(h2 == h);
    assert_eq!(payload, vec![10, 20]);
    assert_eq!(rest, vec![77, 88, 99]);
}

#[test]
fn decode_rejects_short_header() {
    assert!(matches!(decode(&[1, 0, 0]), Err(CodecError::MalformedFrame)));
}

#[test]
fn decode_rejects_unknown_message_type() {
    // type code 6 is past the last variant
    let bytes = vec![1, 0, 0, 0, 0, 0, 0, 0, 6, 0, 0, 0];
    assert!(matches!(decode(&bytes), Err(CodecError::MalformedFrame)));
}

#[test]
fn decode_rejects_declared_size_past_end() {
    // msg_size 4 but only 2 payload bytes follow
    let bytes = vec![1, 0, 0, 0, 4, 0, 0, 0, 1, 0, 0, 0, 10, 20];
    assert!(matches!(decode(&bytes), Err(CodecError::MalformedFrame)));
}

#[test]
fn string_encoding_is_length_prefixed_utf8() {
    let payload = serialize_volunteer(1, "ab");
    assert_eq!(
        payload,
        vec![1, 0, 0, 0, 0, 0, 0, 0, 2, 0, 0, 0, 0, 0, 0, 0, 97, 98]
    );
}

#[test]
fn projects_round_trip_preserves_every_field() {
    let mut a = sample_project("a", "x", "https://ci/job/a/job/x", ProjectStatus::Failed);
    a.set_is_building(true);
    a.set_last_successful_build_time(111);
    a.set_duration(222);
    a.set_estimated_duration(333);
    a.set_timestamp(444);
    a.add_culprit("bob");
    a.add_culprit("Løki");
    a.set_volunteer("alice");
    let b = sample_project("b", "ünïcödé", "https://ci/job/b", ProjectStatus::Success);
    let list = vec![a, b];
    let payload = serialize_projects(&list);
    let parsed = deserialize_projects(&payload).unwrap();
    assert_eq!(parsed.len(), 2);
    assert_eq!(parsed[0].id(), list[0].id());
    assert_eq!(parsed[0].name(), "x");
    assert_eq!(parsed[0].folder(), "a");
    assert_eq!(parsed[0].url(), "https://ci/job/a/job/x");
    assert!(parsed[0].status() == ProjectStatus::Failed);
    assert!(parsed[0].is_building());
    assert_eq!(parsed[0].last_successful_build_time(), 111);
    assert_eq!(parsed[0].duration(), 222);
    assert_eq!(parsed[0].estimated_duration(), 333);
    assert_eq!(parsed[0].timestamp(), 444);
    assert_eq!(parsed[0].culprits(), &vec!["bob".to_string(), "Løki".to_string()]);
    assert_eq!(parsed[0].volunteer(), "alice");
    assert_eq!(parsed[1].name(), "ünïcödé");
    assert!(parsed[1].status() == ProjectStatus::Success);
    assert_eq!(parsed[1].volunteer(), "");
}

#[test]
fn volunteer_round_trip() {
    let payload = serialize_volunteer(99, "carol");
    let v = deserialize_volunteer(&payload).unwrap();
    assert_eq!(v.id, 99);
    assert_eq!(v.volunteer, "carol");
}

#[test]
fn hash_payload_round_trip() {
    let payload = serialize_hash(u64::MAX - 1);
    assert_eq!(deserialize_hash(&payload), Some(u64::MAX - 1));
    assert_eq!(deserialize_hash(&payload[..7]), None);
}

#[test]
fn deserialize_projects_rejects_garbage() {
    // declares one project but provides no record
    let bytes = vec![1, 0, 0, 0, 0, 0, 0, 0, 5, 5];
    assert!(deserialize_projects(&bytes).is_none());
}

#[test]
fn deserialize_projects_rejects_invalid_bool_byte() {
    let list = vec![sample_project("f", "n", "u", ProjectStatus::Unknown)];
    let mut payload = serialize_projects(&list);
    // the single building-flag byte sits right after id and the three
    // length-prefixed text fields and the u32 status of the one record
    let pos = 8 + 8 + (8 + 1) + (8 + 1) + (8 + 1) + 4;
    assert!(payload[pos] == 0);
    payload[pos] = 2;
    assert!(deserialize_projects(&payload).is_none());
}

#[test]
fn deserialize_projects_rejects_invalid_utf8() {
    let list = vec![sample_project("f", "n", "u", ProjectStatus::Unknown)];
    let mut payload = serialize_projects(&list);
    // the name bytes start after the record's id and the name's length
    payload[8 + 8 + 8] = 0xff;
    assert!(deserialize_projects(&payload).is_none());
}
