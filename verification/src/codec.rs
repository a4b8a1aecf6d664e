//! Wire codec: every datagram is a fixed 12-byte header followed by a typed
//! payload, little-endian throughout. Strings carry a `u64` byte-length
//! prefix and then their UTF-8 bytes; sequences carry a `u64` element count
//! and then the elements back-to-back; enums travel as `u32` discriminants
//! in declaration order.

use vstd::bytes::*;
use vstd::prelude::*;
use vstd::string::*;
use vstd::utf8::*;

use crate::PROTOCOL_VERSION;
use crate::project::{Project, ProjectStatus, ProjectV};

verus! {

/// The message vocabulary shared by both transport modes.
#[derive(Clone, Copy, PartialEq, Eq, Structural, Debug)]
pub enum MessageType {
    Invalid,
    Beacon,
    ProjectUpdate,
    NoProjectUpdate,
    ProjectUpdateRequest,
    VolunteerAdded,
}

/// Fixed-width frame header: `version | msg_size | msg_type`, 12 bytes.
/// `msg_size` is the byte count of the payload that follows the header.
#[derive(Clone, Copy, PartialEq, Eq, Structural, Debug)]
pub struct Header {
    pub version: u32,
    pub msg_size: u32,
    pub msg_type: MessageType,
}

impl Header {
    /// A header at the current protocol version with an empty payload and
    /// no meaningful type yet.
    pub fn new() -> (h: Header)
        ensures
            h == (Header {
                version: PROTOCOL_VERSION,
                msg_size: 0,
                msg_type: MessageType::Invalid,
            }),
    {
        Header { version: PROTOCOL_VERSION, msg_size: 0, msg_type: MessageType::Invalid }
    }
}

/// Failure of the codec: fewer bytes than the header declares, or an
/// unrecognized message type.
#[derive(Clone, Copy, PartialEq, Eq, Structural, Debug)]
pub enum CodecError {
    MalformedFrame,
}

/// Wire discriminant of a message type, in declaration order.
pub open spec fn msg_type_code(t: MessageType) -> u32 {
    match t {
        MessageType::Invalid => 0,
        MessageType::Beacon => 1,
        MessageType::ProjectUpdate => 2,
        MessageType::NoProjectUpdate => 3,
        MessageType::ProjectUpdateRequest => 4,
        MessageType::VolunteerAdded => 5,
    }
}

/// Message type for a wire discriminant; `None` for an unrecognized code.
pub open spec fn msg_type_of_code(c: u32) -> Option<MessageType> {
    if c == 0 {
        Some(MessageType::Invalid)
    } else if c == 1 {
        Some(MessageType::Beacon)
    } else if c == 2 {
        Some(MessageType::ProjectUpdate)
    } else if c == 3 {
        Some(MessageType::NoProjectUpdate)
    } else if c == 4 {
        Some(MessageType::ProjectUpdateRequest)
    } else if c == 5 {
        Some(MessageType::VolunteerAdded)
    } else {
        None
    }
}

pub fn msg_type_to_code(t: MessageType) -> (r: u32)
    ensures
        r == msg_type_code(t),
{
    match t {
        MessageType::Invalid => 0,
        MessageType::Beacon => 1,
        MessageType::ProjectUpdate => 2,
        MessageType::NoProjectUpdate => 3,
        MessageType::ProjectUpdateRequest => 4,
        MessageType::VolunteerAdded => 5,
    }
}

pub fn msg_type_from_code(c: u32) -> (r: Option<MessageType>)
    ensures
        r == msg_type_of_code(c),
{
    if c == 0 {
        Some(MessageType::Invalid)
    } else if c == 1 {
        Some(MessageType::Beacon)
    } else if c == 2 {
        Some(MessageType::ProjectUpdate)
    } else if c == 3 {
        Some(MessageType::NoProjectUpdate)
    } else if c == 4 {
        Some(MessageType::ProjectUpdateRequest)
    } else if c == 5 {
        Some(MessageType::VolunteerAdded)
    } else {
        None
    }
}

/// Wire discriminant of a project status, in declaration order.
pub open spec fn status_code(s: ProjectStatus) -> u32 {
    match s {
        ProjectStatus::Success => 0,
        ProjectStatus::Unstable => 1,
        ProjectStatus::Failed => 2,
        ProjectStatus::NotBuilt => 3,
        ProjectStatus::Aborted => 4,
        ProjectStatus::Disabled => 5,
        ProjectStatus::Unknown => 6,
    }
}

/// Project status for a wire discriminant; `None` for an unrecognized code.
pub open spec fn status_of_code(c: u32) -> Option<ProjectStatus> {
    if c == 0 {
        Some(ProjectStatus::Success)
    } else if c == 1 {
        Some(ProjectStatus::Unstable)
    } else if c == 2 {
        Some(ProjectStatus::Failed)
    } else if c == 3 {
        Some(ProjectStatus::NotBuilt)
    } else if c == 4 {
        Some(ProjectStatus::Aborted)
    } else if c == 5 {
        Some(ProjectStatus::Disabled)
    } else if c == 6 {
        Some(ProjectStatus::Unknown)
    } else {
        None
    }
}

pub fn status_to_code(s: ProjectStatus) -> (r: u32)
    ensures
        r == status_code(s),
{
    match s {
        ProjectStatus::Success => 0,
        ProjectStatus::Unstable => 1,
        ProjectStatus::Failed => 2,
        ProjectStatus::NotBuilt => 3,
        ProjectStatus::Aborted => 4,
        ProjectStatus::Disabled => 5,
        ProjectStatus::Unknown => 6,
    }
}

pub fn status_from_code(c: u32) -> (r: Option<ProjectStatus>)
    ensures
        r == status_of_code(c),
{
    if c == 0 {
        Some(ProjectStatus::Success)
    } else if c == 1 {
        Some(ProjectStatus::Unstable)
    } else if c == 2 {
        Some(ProjectStatus::Failed)
    } else if c == 3 {
        Some(ProjectStatus::NotBuilt)
    } else if c == 4 {
        Some(ProjectStatus::Aborted)
    } else if c == 5 {
        Some(ProjectStatus::Disabled)
    } else if c == 6 {
        Some(ProjectStatus::Unknown)
    } else {
        None
    }
}

/// A string whose UTF-8 byte count fits the `u64` length prefix. Every
/// string held in memory satisfies this; the bound matters only to state
/// round trips of the codec for arbitrary sequences.
pub open spec fn string_encodable(s: Seq<char>) -> bool {
    encode_utf8(s).len() <= u64::MAX
}

/// A string sequence whose count and every element fit their prefixes.
pub open spec fn strings_encodable(ss: Seq<Seq<char>>) -> bool {
    ss.len() <= u64::MAX && (forall|i: int| 0 <= i < ss.len() ==> string_encodable(#[trigger] ss[i]))
}

/// A project record whose text fields all fit their length prefixes.
pub open spec fn project_encodable(p: ProjectV) -> bool {
    string_encodable(p.name) && string_encodable(p.folder) && string_encodable(p.url)
        && strings_encodable(p.culprits) && string_encodable(p.volunteer)
}

/// A project list whose count and every record fit their prefixes.
pub open spec fn projects_encodable(ps: Seq<ProjectV>) -> bool {
    ps.len() <= u64::MAX && (forall|i: int|
        0 <= i < ps.len() ==> project_encodable(#[trigger] ps[i]))
}

/// Single byte standing for a bool on the wire.
pub open spec fn bool_byte(b: bool) -> u8 {
    if b {
        1
    } else {
        0
    }
}

/// Bytes of a string on the wire: `u64` byte length, then the UTF-8 bytes.
pub open spec fn spec_encode_string(s: Seq<char>) -> Seq<u8> {
    spec_u64_to_le_bytes(encode_utf8(s).len() as u64) + encode_utf8(s)
}

/// Bytes of a run of strings, back-to-back, without a count prefix.
pub open spec fn spec_encode_strings(ss: Seq<Seq<char>>) -> Seq<u8>
    decreases ss.len(),
{
    if ss.len() == 0 {
        Seq::empty()
    } else {
        spec_encode_string(ss[0]) + spec_encode_strings(ss.drop_first())
    }
}

/// Bytes of a string sequence on the wire: `u64` element count, then the
/// strings back-to-back.
pub open spec fn spec_encode_string_list(ss: Seq<Seq<char>>) -> Seq<u8> {
    spec_u64_to_le_bytes(ss.len() as u64) + spec_encode_strings(ss)
}

/// Bytes of one project record: every field in declaration order.
pub open spec fn spec_encode_project(p: ProjectV) -> Seq<u8> {
    spec_u64_to_le_bytes(p.id) + spec_encode_string(p.name) + spec_encode_string(p.folder)
        + spec_encode_string(p.url) + spec_u32_to_le_bytes(status_code(p.status))
        + seq![bool_byte(p.is_building)] + spec_u64_to_le_bytes(p.last_successful_build_time)
        + spec_u64_to_le_bytes(p.duration) + spec_u64_to_le_bytes(p.estimated_duration)
        + spec_u64_to_le_bytes(p.timestamp) + spec_encode_string_list(p.culprits)
        + spec_encode_string(p.volunteer)
}

/// Bytes of a run of project records, back-to-back, without a count prefix.
pub open spec fn spec_encode_projects(ps: Seq<ProjectV>) -> Seq<u8>
    decreases ps.len(),
{
    if ps.len() == 0 {
        Seq::empty()
    } else {
        spec_encode_project(ps[0]) + spec_encode_projects(ps.drop_first())
    }
}

/// Bytes of a project list on the wire: `u64` element count, then the
/// records back-to-back. This is the `ProjectUpdate` payload.
pub open spec fn spec_encode_project_list(ps: Seq<ProjectV>) -> Seq<u8> {
    spec_u64_to_le_bytes(ps.len() as u64) + spec_encode_projects(ps)
}

/// Bytes of a volunteer claim on the wire: project id, then the name.
/// This is the `VolunteerAdded` payload.
pub open spec fn spec_encode_volunteer(id: u64, volunteer: Seq<char>) -> Seq<u8> {
    spec_u64_to_le_bytes(id) + spec_encode_string(volunteer)
}

/// Bytes of the fixed-width header.
pub open spec fn spec_encode_header(h: Header) -> Seq<u8> {
    spec_u32_to_le_bytes(h.version) + spec_u32_to_le_bytes(h.msg_size) + spec_u32_to_le_bytes(
        msg_type_code(h.msg_type),
    )
}

/// Bytes of a whole frame: header, then payload.
pub open spec fn spec_encode_frame(h: Header, payload: Seq<u8>) -> Seq<u8> {
    spec_encode_header(h) + payload
}

/// Bytes of the frame that carries `payload` as a message of type `t` at
/// protocol version `version`.
pub open spec fn frame_for(version: u32, t: MessageType, payload: Seq<u8>) -> Seq<u8> {
    spec_encode_frame(
        Header { version, msg_size: payload.len() as u32, msg_type: t },
        payload,
    )
}

pub fn encode_u32_into(out: &mut Vec<u8>, x: u32)
    ensures
        final(out)@ == old(out)@ + spec_u32_to_le_bytes(x),
{
    let mut b = u32_to_le_bytes(x);
    out.append(&mut b);
}

pub fn encode_u64_into(out: &mut Vec<u8>, x: u64)
    ensures
        final(out)@ == old(out)@ + spec_u64_to_le_bytes(x),
{
    let mut b = u64_to_le_bytes(x);
    out.append(&mut b);
}

pub fn encode_string_into(out: &mut Vec<u8>, s: &str)
    ensures
        final(out)@ == old(out)@ + spec_encode_string(s@),
        string_encodable(s@),
{
    let mut bytes = s.as_bytes_vec();
    let n = bytes.len() as u64;
    proof {
        assert(encode_utf8(s@).len() as u64 == n);
    }
    encode_u64_into(out, n);
    out.append(&mut bytes);
    proof {
        assert(final(out)@ =~= old(out)@ + spec_encode_string(s@));
    }
}

pub fn encode_string_list_into(out: &mut Vec<u8>, ss: &Vec<String>)
    ensures
        final(out)@ == old(out)@ + spec_encode_string_list(ss.deep_view()),
        strings_encodable(ss.deep_view()),
{
    let ghost base = out@;
    encode_u64_into(out, ss.len() as u64);
    let ghost prefix = out@;
    let mut i: usize = 0;
    while i < ss.len()
        invariant
            i <= ss.len(),
            out@ == prefix + spec_encode_strings(ss.deep_view().take(i as int)),
            forall|k: int| 0 <= k < i ==> string_encodable(#[trigger] ss.deep_view()[k]),
        decreases ss.len() - i,
    {
        proof {
            lemma_encode_strings_take_snoc(ss.deep_view(), i as int);
        }
        encode_string_into(out, ss[i].as_str());
        i = i + 1;
    }
    proof {
        assert(ss.deep_view().take(ss.len() as int) =~= ss.deep_view());
        assert(final(out)@ =~= old(out)@ + spec_encode_string_list(ss.deep_view()));
    }
}

/// The byte run of the first `i + 1` strings is the run of the first `i`
/// followed by the bytes of string `i`.
proof fn lemma_encode_strings_take_snoc(ss: Seq<Seq<char>>, i: int)
    requires
        0 <= i < ss.len(),
    ensures
        spec_encode_strings(ss.take(i + 1)) == spec_encode_strings(ss.take(i))
            + spec_encode_string(ss[i]),
    decreases i,
{
    if i == 0 {
        assert(ss.take(1) =~= seq![ss[0]]);
        assert(ss.take(1).drop_first() =~= Seq::<Seq<char>>::empty());
        assert(ss.take(0) =~= Seq::<Seq<char>>::empty());
        assert(spec_encode_strings(ss.take(1)) =~= spec_encode_strings(ss.take(0))
            + spec_encode_string(ss[0]));
    } else {
        lemma_encode_strings_take_snoc(ss.drop_first(), i - 1);
        assert(ss.take(i + 1).drop_first() =~= ss.drop_first().take(i));
        assert(ss.take(i).drop_first() =~= ss.drop_first().take(i - 1));
        assert(spec_encode_strings(ss.take(i + 1)) =~= spec_encode_strings(ss.take(i))
            + spec_encode_string(ss[i]));
    }
}

pub fn encode_project_into(out: &mut Vec<u8>, p: &Project)
    ensures
        final(out)@ == old(out)@ + spec_encode_project(p@),
        project_encodable(p@),
{
    encode_u64_into(out, p.id());
    encode_string_into(out, p.name());
    encode_string_into(out, p.folder());
    encode_string_into(out, p.url());
    encode_u32_into(out, status_to_code(p.status()));
    out.push(if p.is_building() {
        1
    } else {
        0
    });
    encode_u64_into(out, p.last_successful_build_time());
    encode_u64_into(out, p.duration());
    encode_u64_into(out, p.estimated_duration());
    encode_u64_into(out, p.timestamp());
    encode_string_list_into(out, p.culprits());
    encode_string_into(out, p.volunteer());
    proof {
        assert(final(out)@ =~= old(out)@ + spec_encode_project(p@));
    }
}

/// The byte run of the first `i + 1` projects is the run of the first `i`
/// followed by the bytes of project `i`.
pub proof fn lemma_encode_projects_take_snoc(ps: Seq<ProjectV>, i: int)
    requires
        0 <= i < ps.len(),
    ensures
        spec_encode_projects(ps.take(i + 1)) == spec_encode_projects(ps.take(i))
            + spec_encode_project(ps[i]),
    decreases i,
{
    if i == 0 {
        assert(ps.take(1) =~= seq![ps[0]]);
        assert(ps.take(1).drop_first() =~= Seq::<ProjectV>::empty());
        assert(ps.take(0) =~= Seq::<ProjectV>::empty());
        assert(spec_encode_projects(ps.take(1)) =~= spec_encode_projects(ps.take(0))
            + spec_encode_project(ps[0]));
    } else {
        lemma_encode_projects_take_snoc(ps.drop_first(), i - 1);
        assert(ps.take(i + 1).drop_first() =~= ps.drop_first().take(i));
        assert(ps.take(i).drop_first() =~= ps.drop_first().take(i - 1));
        assert(spec_encode_projects(ps.take(i + 1)) =~= spec_encode_projects(ps.take(i))
            + spec_encode_project(ps[i]));
    }
}

/// Serialize a project list into the `ProjectUpdate` payload bytes.
pub fn serialize_projects(projects: &Vec<Project>) -> (r: Vec<u8>)
    ensures
        r@ == spec_encode_project_list(projects.deep_view()),
        projects_encodable(projects.deep_view()),
{
    let mut out: Vec<u8> = Vec::new();
    encode_u64_into(&mut out, projects.len() as u64);
    let ghost prefix = out@;
    let mut i: usize = 0;
    while i < projects.len()
        invariant
            i <= projects.len(),
            out@ == prefix + spec_encode_projects(projects.deep_view().take(i as int)),
            forall|k: int| 0 <= k < i ==> project_encodable(#[trigger] projects.deep_view()[k]),
        decreases projects.len() - i,
    {
        proof {
            lemma_encode_projects_take_snoc(projects.deep_view(), i as int);
        }
        encode_project_into(&mut out, &projects[i]);
        i = i + 1;
    }
    proof {
        assert(projects.deep_view().take(projects.len() as int) =~= projects.deep_view());
        assert(out@ =~= spec_encode_project_list(projects.deep_view()));
    }
    out
}

/// Serialize a volunteer claim into the `VolunteerAdded` payload bytes.
pub fn serialize_volunteer(id: u64, volunteer: &str) -> (r: Vec<u8>)
    ensures
        r@ == spec_encode_volunteer(id, volunteer@),
        string_encodable(volunteer@),
{
    let mut out: Vec<u8> = Vec::new();
    encode_u64_into(&mut out, id);
    encode_string_into(&mut out, volunteer);
    proof {
        assert(out@ =~= spec_encode_volunteer(id, volunteer@));
    }
    out
}

/// Serialize a `u64` into the `ProjectUpdateRequest` payload bytes.
pub fn serialize_hash(hash: u64) -> (r: Vec<u8>)
    ensures
        r@ == spec_u64_to_le_bytes(hash),
{
    u64_to_le_bytes(hash)
}

/// Assemble a frame from a header and its payload. The header must already
/// declare the exact payload size.
pub fn encode(header: &Header, payload: &Vec<u8>) -> (r: Vec<u8>)
    requires
        header.msg_size == payload@.len(),
    ensures
        r@ == spec_encode_frame(*header, payload@),
        r@ == frame_for(header.version, header.msg_type, payload@),
{
    let mut out: Vec<u8> = Vec::new();
    encode_u32_into(&mut out, header.version);
    encode_u32_into(&mut out, header.msg_size);
    encode_u32_into(&mut out, msg_type_to_code(header.msg_type));
    let mut p = vstd::slice::slice_to_vec(payload.as_slice());
    out.append(&mut p);
    proof {
        assert(out@ =~= spec_encode_frame(*header, payload@));
        assert(spec_encode_frame(*header, payload@) =~= frame_for(
            header.version,
            header.msg_type,
            payload@,
        ));
    }
    out
}

/// Splitting of a byte buffer into header, declared payload and remainder.
/// `None` when fewer than 12 bytes are present, the message type code is
/// unrecognized, or fewer payload bytes follow than the header declares.
/// Trailing bytes after the declared payload are returned, not rejected.
pub open spec fn spec_decode(bytes: Seq<u8>) -> Option<(Header, Seq<u8>, Seq<u8>)> {
    if bytes.len() < 12 {
        None
    } else {
        let version = spec_u32_from_le_bytes(bytes.subrange(0, 4));
        let msg_size = spec_u32_from_le_bytes(bytes.subrange(4, 8));
        let code = spec_u32_from_le_bytes(bytes.subrange(8, 12));
        match msg_type_of_code(code) {
            Option::None => None,
            Option::Some(t) => {
                if msg_size + 12 <= bytes.len() {
                    Some(
                        (
                            Header { version, msg_size, msg_type: t },
                            bytes.subrange(12, 12 + msg_size as int),
                            bytes.subrange(12 + msg_size as int, bytes.len() as int),
                        ),
                    )
                } else {
                    None
                }
            },
        }
    }
}

/// Split a received datagram into its header, the payload the header
/// declares, and whatever trailing bytes follow.
pub fn decode(bytes: &[u8]) -> (r: Result<(Header, Vec<u8>, Vec<u8>), CodecError>)
    ensures
        r is Ok <==> spec_decode(bytes@) is Some,
        r matches Ok(t) ==> spec_decode(bytes@) == Some((t.0, t.1@, t.2@)),
{
    if bytes.len() < 12 {
        return Err(CodecError::MalformedFrame);
    }
    let version = u32_from_le_bytes(vstd::slice::slice_subrange(bytes, 0, 4));
    let msg_size = u32_from_le_bytes(vstd::slice::slice_subrange(bytes, 4, 8));
    let code = u32_from_le_bytes(vstd::slice::slice_subrange(bytes, 8, 12));
    let msg_type = match msg_type_from_code(code) {
        Some(t) => t,
        None => {
            return Err(CodecError::MalformedFrame);
        },
    };
    if (msg_size as usize) > bytes.len() - 12 {
        return Err(CodecError::MalformedFrame);
    }
    let payload = vstd::slice::slice_to_vec(
        vstd::slice::slice_subrange(bytes, 12, 12 + msg_size as usize),
    );
    let remainder = vstd::slice::slice_to_vec(
        vstd::slice::slice_subrange(bytes, 12 + msg_size as usize, bytes.len()),
    );
    Ok((Header { version, msg_size, msg_type }, payload, remainder))
}

/// Law: decoding an encoded frame gives back the header and the payload,
/// with nothing left over, for every message type. The header must declare
/// the exact payload size, as [`encode`] demands.
pub proof fn lemma_frame_round_trip(h: Header, payload: Seq<u8>)
    requires
        h.msg_size == payload.len(),
    ensures
        spec_decode(spec_encode_frame(h, payload)) == Some(
            (h, payload, Seq::<u8>::empty()),
        ),
{
    lemma_auto_spec_u32_to_from_le_bytes();
    let bytes = spec_encode_frame(h, payload);
    assert(bytes.subrange(0, 4) =~= spec_u32_to_le_bytes(h.version));
    assert(bytes.subrange(4, 8) =~= spec_u32_to_le_bytes(h.msg_size));
    assert(bytes.subrange(8, 12) =~= spec_u32_to_le_bytes(msg_type_code(h.msg_type)));
    assert(msg_type_of_code(msg_type_code(h.msg_type)) == Some(h.msg_type));
    assert(bytes.subrange(12, 12 + h.msg_size as int) =~= payload);
    assert(bytes.subrange(12 + h.msg_size as int, bytes.len() as int) =~= Seq::<u8>::empty());
}

} // verus!
