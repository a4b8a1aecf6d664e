//! Payload parsers: the decode side of the wire format. Each parser has a
//! total specification-level twin returning the parsed value and the
//! remaining bytes, and each round trip with the matching encoder is proved.

use vstd::bytes::*;
use vstd::prelude::*;
use vstd::utf8::*;

use crate::codec::{
    bool_byte, project_encodable, projects_encodable, spec_encode_project,
    spec_encode_project_list, spec_encode_projects, spec_encode_string, spec_encode_string_list,
    spec_encode_strings, spec_encode_volunteer, status_code, status_of_code, string_encodable,
    strings_encodable,
};
use crate::project::{Project, ProjectStatus, ProjectV, Volunteer};

verus! {

/// A `u64`, little-endian, from the first 8 bytes.
pub open spec fn spec_parse_u64(b: Seq<u8>) -> Option<(u64, Seq<u8>)> {
    if b.len() >= 8 {
        Some((spec_u64_from_le_bytes(b.subrange(0, 8)), b.skip(8)))
    } else {
        None
    }
}

/// A `u32`, little-endian, from the first 4 bytes.
pub open spec fn spec_parse_u32(b: Seq<u8>) -> Option<(u32, Seq<u8>)> {
    if b.len() >= 4 {
        Some((spec_u32_from_le_bytes(b.subrange(0, 4)), b.skip(4)))
    } else {
        None
    }
}

/// A bool from one byte; only 0 and 1 are accepted.
pub open spec fn spec_parse_bool(b: Seq<u8>) -> Option<(bool, Seq<u8>)> {
    if b.len() >= 1 {
        if b[0] == 0 {
            Some((false, b.skip(1)))
        } else if b[0] == 1 {
            Some((true, b.skip(1)))
        } else {
            None
        }
    } else {
        None
    }
}

/// A project status from its `u32` wire discriminant.
pub open spec fn spec_parse_status(b: Seq<u8>) -> Option<(ProjectStatus, Seq<u8>)> {
    match spec_parse_u32(b) {
        Option::None => None,
        Option::Some((c, rest)) => match status_of_code(c) {
            Option::None => None,
            Option::Some(s) => Some((s, rest)),
        },
    }
}

/// A string: `u64` byte length, then that many bytes of valid UTF-8.
pub open spec fn spec_parse_string(b: Seq<u8>) -> Option<(Seq<char>, Seq<u8>)> {
    match spec_parse_u64(b) {
        Option::None => None,
        Option::Some((n, rest)) => {
            if n <= rest.len() && valid_utf8(rest.take(n as int)) {
                Some((decode_utf8(rest.take(n as int)), rest.skip(n as int)))
            } else {
                None
            }
        },
    }
}

/// Exactly `n` strings, back-to-back.
pub open spec fn spec_parse_strings(b: Seq<u8>, n: nat) -> Option<(Seq<Seq<char>>, Seq<u8>)>
    decreases n,
{
    if n == 0 {
        Some((Seq::empty(), b))
    } else {
        match spec_parse_string(b) {
            Option::None => None,
            Option::Some((s, rest)) => match spec_parse_strings(rest, (n - 1) as nat) {
                Option::None => None,
                Option::Some((ss, rest2)) => Some((seq![s] + ss, rest2)),
            },
        }
    }
}

/// A string sequence: `u64` element count, then the strings.
pub open spec fn spec_parse_string_list(b: Seq<u8>) -> Option<(Seq<Seq<char>>, Seq<u8>)> {
    match spec_parse_u64(b) {
        Option::None => None,
        Option::Some((n, rest)) => spec_parse_strings(rest, n as nat),
    }
}

/// One project record: every field in declaration order.
pub open spec fn spec_parse_project(b: Seq<u8>) -> Option<(ProjectV, Seq<u8>)> {
    match spec_parse_u64(b) {
        Option::None => None,
        Option::Some((id, b)) => match spec_parse_string(b) {
            Option::None => None,
            Option::Some((name, b)) => match spec_parse_string(b) {
                Option::None => None,
                Option::Some((folder, b)) => match spec_parse_string(b) {
                    Option::None => None,
                    Option::Some((url, b)) => match spec_parse_status(b) {
                        Option::None => None,
                        Option::Some((status, b)) => match spec_parse_bool(b) {
                            Option::None => None,
                            Option::Some((is_building, b)) => match spec_parse_u64(b) {
                                Option::None => None,
                                Option::Some((last_successful_build_time, b)) => match
                                    spec_parse_u64(b) {
                                    Option::None => None,
                                    Option::Some((duration, b)) => match spec_parse_u64(b) {
                                        Option::None => None,
                                        Option::Some((estimated_duration, b)) => match
                                            spec_parse_u64(b) {
                                            Option::None => None,
                                            Option::Some((timestamp, b)) => match
                                                spec_parse_string_list(b) {
                                                Option::None => None,
                                                Option::Some((culprits, b)) => match
                                                    spec_parse_string(b) {
                                                    Option::None => None,
                                                    Option::Some((volunteer, b)) => Some(
                                                        (
                                                            ProjectV {
                                                                id,
                                                                name,
                                                                folder,
                                                                url,
                                                                status,
                                                                is_building,
                                                                last_successful_build_time,
                                                                duration,
                                                                estimated_duration,
                                                                timestamp,
                                                                culprits,
                                                                volunteer,
                                                            },
                                                            b,
                                                        ),
                                                    ),
                                                },
                                            },
                                        },
                                    },
                                },
                            },
                        },
                    },
                },
            },
        },
    }
}

/// Exactly `n` project records, back-to-back.
pub open spec fn spec_parse_projects(b: Seq<u8>, n: nat) -> Option<(Seq<ProjectV>, Seq<u8>)>
    decreases n,
{
    if n == 0 {
        Some((Seq::empty(), b))
    } else {
        match spec_parse_project(b) {
            Option::None => None,
            Option::Some((p, rest)) => match spec_parse_projects(rest, (n - 1) as nat) {
                Option::None => None,
                Option::Some((ps, rest2)) => Some((seq![p] + ps, rest2)),
            },
        }
    }
}

/// A project list: `u64` element count, then the records. This is the
/// `ProjectUpdate` payload.
pub open spec fn spec_parse_project_list(b: Seq<u8>) -> Option<(Seq<ProjectV>, Seq<u8>)> {
    match spec_parse_u64(b) {
        Option::None => None,
        Option::Some((n, rest)) => spec_parse_projects(rest, n as nat),
    }
}

/// A volunteer claim: project id, then the name. This is the
/// `VolunteerAdded` payload.
pub open spec fn spec_parse_volunteer(b: Seq<u8>) -> Option<((u64, Seq<char>), Seq<u8>)> {
    match spec_parse_u64(b) {
        Option::None => None,
        Option::Some((id, rest)) => match spec_parse_string(rest) {
            Option::None => None,
            Option::Some((name, rest2)) => Some(((id, name), rest2)),
        },
    }
}

/// Relies on `String::from_utf8`: it succeeds exactly on valid UTF-8 input
/// and returns the string those bytes encode.
#[verifier::external_body]
pub(crate) fn string_from_utf8(bytes: Vec<u8>) -> (r: Option<String>)
    ensures
        r is Some <==> valid_utf8(bytes@),
        r matches Some(s) ==> s@ == decode_utf8(bytes@),
{
    String::from_utf8(bytes).ok()
}

pub fn parse_u64_at(buf: &[u8], pos: usize) -> (r: Option<(u64, usize)>)
    requires
        pos <= buf@.len(),
    ensures
        r is Some <==> spec_parse_u64(buf@.skip(pos as int)) is Some,
        r matches Some((x, p2)) ==> pos <= p2 <= buf@.len() && spec_parse_u64(
            buf@.skip(pos as int),
        ) == Some((x, buf@.skip(p2 as int))),
{
    if buf.len() - pos >= 8 {
        let x = u64_from_le_bytes(vstd::slice::slice_subrange(buf, pos, pos + 8));
        proof {
            assert(buf@.subrange(pos as int, pos + 8) =~= buf@.skip(pos as int).subrange(0, 8));
            assert(buf@.skip(pos + 8) =~= buf@.skip(pos as int).skip(8));
        }
        Some((x, pos + 8))
    } else {
        None
    }
}

pub fn parse_u32_at(buf: &[u8], pos: usize) -> (r: Option<(u32, usize)>)
    requires
        pos <= buf@.len(),
    ensures
        r is Some <==> spec_parse_u32(buf@.skip(pos as int)) is Some,
        r matches Some((x, p2)) ==> pos <= p2 <= buf@.len() && spec_parse_u32(
            buf@.skip(pos as int),
        ) == Some((x, buf@.skip(p2 as int))),
{
    if buf.len() - pos >= 4 {
        let x = u32_from_le_bytes(vstd::slice::slice_subrange(buf, pos, pos + 4));
        proof {
            assert(buf@.subrange(pos as int, pos + 4) =~= buf@.skip(pos as int).subrange(0, 4));
            assert(buf@.skip(pos + 4) =~= buf@.skip(pos as int).skip(4));
        }
        Some((x, pos + 4))
    } else {
        None
    }
}

pub fn parse_bool_at(buf: &[u8], pos: usize) -> (r: Option<(bool, usize)>)
    requires
        pos <= buf@.len(),
    ensures
        r is Some <==> spec_parse_bool(buf@.skip(pos as int)) is Some,
        r matches Some((x, p2)) ==> pos <= p2 <= buf@.len() && spec_parse_bool(
            buf@.skip(pos as int),
        ) == Some((x, buf@.skip(p2 as int))),
{
    if buf.len() - pos >= 1 {
        let byte = *vstd::slice::slice_index_get(buf, pos);
        proof {
            assert(buf@.skip(pos as int)[0] == buf@[pos as int]);
            assert(buf@.skip(pos + 1) =~= buf@.skip(pos as int).skip(1));
        }
        if byte == 0 {
            Some((false, pos + 1))
        } else if byte == 1 {
            Some((true, pos + 1))
        } else {
            None
        }
    } else {
        None
    }
}

pub fn parse_status_at(buf: &[u8], pos: usize) -> (r: Option<(ProjectStatus, usize)>)
    requires
        pos <= buf@.len(),
    ensures
        r is Some <==> spec_parse_status(buf@.skip(pos as int)) is Some,
        r matches Some((x, p2)) ==> pos <= p2 <= buf@.len() && spec_parse_status(
            buf@.skip(pos as int),
        ) == Some((x, buf@.skip(p2 as int))),
{
    match parse_u32_at(buf, pos) {
        Some((c, p2)) => match crate::codec::status_from_code(c) {
            Some(s) => Some((s, p2)),
            None => None,
        },
        None => None,
    }
}

pub fn parse_string_at(buf: &[u8], pos: usize) -> (r: Option<(String, usize)>)
    requires
        pos <= buf@.len(),
    ensures
        r is Some <==> spec_parse_string(buf@.skip(pos as int)) is Some,
        r matches Some((s, p2)) ==> pos <= p2 <= buf@.len() && spec_parse_string(
            buf@.skip(pos as int),
        ) == Some((s@, buf@.skip(p2 as int))),
{
    match parse_u64_at(buf, pos) {
        None => None,
        Some((n, p1)) => {
            if n > (buf.len() - p1) as u64 {
                proof {
                    assert(buf@.skip(p1 as int).len() == buf@.len() - p1);
                }
                None
            } else {
                let end = p1 + (n as usize);
                let sub = vstd::slice::slice_to_vec(vstd::slice::slice_subrange(buf, p1, end));
                proof {
                    assert(buf@.subrange(p1 as int, end as int) =~= buf@.skip(p1 as int).take(
                        n as int,
                    ));
                    assert(buf@.skip(end as int) =~= buf@.skip(p1 as int).skip(n as int));
                }
                match string_from_utf8(sub) {
                    Some(s) => Some((s, end)),
                    None => None,
                }
            }
        },
    }
}

pub fn parse_string_list_at(buf: &[u8], pos: usize) -> (r: Option<(Vec<String>, usize)>)
    requires
        pos <= buf@.len(),
    ensures
        r is Some <==> spec_parse_string_list(buf@.skip(pos as int)) is Some,
        r matches Some((ss, p2)) ==> pos <= p2 <= buf@.len() && spec_parse_string_list(
            buf@.skip(pos as int),
        ) == Some((ss.deep_view(), buf@.skip(p2 as int))),
{
    match parse_u64_at(buf, pos) {
        None => None,
        Some((n, start)) => {
            let mut acc: Vec<String> = Vec::new();
            let mut p: usize = start;
            let mut i: u64 = 0;
            loop
                invariant
                    i <= n,
                    pos <= start <= p <= buf@.len(),
                    acc.deep_view().len() == i,
                    spec_parse_u64(buf@.skip(pos as int)) == Some((n, buf@.skip(start as int))),
                    spec_parse_strings(buf@.skip(start as int), n as nat) is Some
                        <==> spec_parse_strings(buf@.skip(p as int), (n - i) as nat) is Some,
                    spec_parse_strings(buf@.skip(p as int), (n - i) as nat) matches Some(t)
                        ==> spec_parse_strings(buf@.skip(start as int), n as nat) == Some(
                        (acc.deep_view() + t.0, t.1),
                    ),
                decreases n - i,
            {
                if i == n {
                    proof {
                        let t = spec_parse_strings(buf@.skip(p as int), 0).unwrap();
                        assert(acc.deep_view() + t.0 =~= acc.deep_view());
                    }
                    return Some((acc, p));
                }
                match parse_string_at(buf, p) {
                    None => {
                        return None;
                    },
                    Some((s, p2)) => {
                        proof {
                            let b_cur = buf@.skip(p as int);
                            let rest = buf@.skip(p2 as int);
                            if spec_parse_strings(rest, (n - i - 1) as nat) is Some {
                                let t = spec_parse_strings(rest, (n - i - 1) as nat).unwrap();
                                assert(spec_parse_strings(b_cur, (n - i) as nat) == Some(
                                    (seq![s@] + t.0, t.1),
                                ));
                                assert(acc.deep_view() + (seq![s@] + t.0) =~= (acc.deep_view()
                                    + seq![s@]) + t.0);
                                assert(acc.deep_view().push(s@) =~= acc.deep_view() + seq![s@]);
                            }
                        }
                        acc.push(s);
                        p = p2;
                        i = i + 1;
                        proof {
                            assert(acc.deep_view() =~= acc.deep_view());
                        }
                    },
                }
            }
        },
    }
}

pub fn parse_project_at(buf: &[u8], pos: usize) -> (r: Option<(Project, usize)>)
    requires
        pos <= buf@.len(),
    ensures
        r is Some <==> spec_parse_project(buf@.skip(pos as int)) is Some,
        r matches Some((p, p2)) ==> pos <= p2 <= buf@.len() && spec_parse_project(
            buf@.skip(pos as int),
        ) == Some((p@, buf@.skip(p2 as int))),
{
    let (id, pos) = match parse_u64_at(buf, pos) {
        Some(t) => t,
        None => {
            return None;
        },
    };
    let (name, pos) = match parse_string_at(buf, pos) {
        Some(t) => t,
        None => {
            return None;
        },
    };
    let (folder, pos) = match parse_string_at(buf, pos) {
        Some(t) => t,
        None => {
            return None;
        },
    };
    let (url, pos) = match parse_string_at(buf, pos) {
        Some(t) => t,
        None => {
            return None;
        },
    };
    let (status, pos) = match parse_status_at(buf, pos) {
        Some(t) => t,
        None => {
            return None;
        },
    };
    let (is_building, pos) = match parse_bool_at(buf, pos) {
        Some(t) => t,
        None => {
            return None;
        },
    };
    let (last_successful_build_time, pos) = match parse_u64_at(buf, pos) {
        Some(t) => t,
        None => {
            return None;
        },
    };
    let (duration, pos) = match parse_u64_at(buf, pos) {
        Some(t) => t,
        None => {
            return None;
        },
    };
    let (estimated_duration, pos) = match parse_u64_at(buf, pos) {
        Some(t) => t,
        None => {
            return None;
        },
    };
    let (timestamp, pos) = match parse_u64_at(buf, pos) {
        Some(t) => t,
        None => {
            return None;
        },
    };
    let (culprits, pos) = match parse_string_list_at(buf, pos) {
        Some(t) => t,
        None => {
            return None;
        },
    };
    let (volunteer, pos) = match parse_string_at(buf, pos) {
        Some(t) => t,
        None => {
            return None;
        },
    };
    let p = Project::from_fields(
        id,
        name,
        folder,
        url,
        status,
        is_building,
        last_successful_build_time,
        duration,
        estimated_duration,
        timestamp,
        culprits,
        volunteer,
    );
    Some((p, pos))
}

#[verifier::rlimit(60)]
pub fn parse_projects_at(buf: &[u8], pos: usize, n: u64) -> (r: Option<(Vec<Project>, usize)>)
    requires
        pos <= buf@.len(),
    ensures
        r is Some <==> spec_parse_projects(buf@.skip(pos as int), n as nat) is Some,
        r matches Some((ps, p2)) ==> pos <= p2 <= buf@.len() && spec_parse_projects(
            buf@.skip(pos as int),
            n as nat,
        ) == Some((ps.deep_view(), buf@.skip(p2 as int))),
{
    let mut acc: Vec<Project> = Vec::new();
    let mut p: usize = pos;
    let mut i: u64 = 0;
    loop
        invariant
            i <= n,
            pos <= p <= buf@.len(),
            acc.deep_view().len() == i,
            spec_parse_projects(buf@.skip(pos as int), n as nat) is Some <==> spec_parse_projects(
                buf@.skip(p as int),
                (n - i) as nat,
            ) is Some,
            spec_parse_projects(buf@.skip(p as int), (n - i) as nat) matches Some(t)
                ==> spec_parse_projects(buf@.skip(pos as int), n as nat) == Some(
                (acc.deep_view() + t.0, t.1),
            ),
        decreases n - i,
    {
        if i == n {
            proof {
                let t = spec_parse_projects(buf@.skip(p as int), 0).unwrap();
                assert(acc.deep_view() + t.0 =~= acc.deep_view());
            }
            return Some((acc, p));
        }
        match parse_project_at(buf, p) {
            None => {
                return None;
            },
            Some((prj, p2)) => {
                proof {
                    let b_cur = buf@.skip(p as int);
                    let rest = buf@.skip(p2 as int);
                    if spec_parse_projects(rest, (n - i - 1) as nat) is Some {
                        let t = spec_parse_projects(rest, (n - i - 1) as nat).unwrap();
                        assert(spec_parse_projects(b_cur, (n - i) as nat) == Some(
                            (seq![prj@] + t.0, t.1),
                        ));
                        assert(acc.deep_view() + (seq![prj@] + t.0) =~= (acc.deep_view()
                            + seq![prj@]) + t.0);
                        assert(acc.deep_view().push(prj@) =~= acc.deep_view() + seq![prj@]);
                    }
                }
                acc.push(prj);
                p = p2;
                i = i + 1;
            },
        }
    }
}

/// Rebuild a project list from a `ProjectUpdate` payload. Trailing bytes
/// inside the payload after the declared records are ignored.
pub fn deserialize_projects(payload: &[u8]) -> (r: Option<Vec<Project>>)
    ensures
        r is Some <==> spec_parse_project_list(payload@) is Some,
        r matches Some(ps) ==> (spec_parse_project_list(payload@) matches Some(t) && ps.deep_view()
            == t.0),
{
    proof {
        assert(payload@.skip(0) =~= payload@);
    }
    match parse_u64_at(payload, 0) {
        None => None,
        Some((n, p1)) => match parse_projects_at(payload, p1, n) {
            None => None,
            Some((ps, _end)) => Some(ps),
        },
    }
}

/// Rebuild a volunteer claim from a `VolunteerAdded` payload.
pub fn deserialize_volunteer(payload: &[u8]) -> (r: Option<Volunteer>)
    ensures
        r is Some <==> spec_parse_volunteer(payload@) is Some,
        r matches Some(v) ==> (spec_parse_volunteer(payload@) matches Some(t) && (v.id, v.volunteer@)
            == t.0),
{
    proof {
        assert(payload@.skip(0) =~= payload@);
    }
    match parse_u64_at(payload, 0) {
        None => None,
        Some((id, p1)) => match parse_string_at(payload, p1) {
            None => None,
            Some((name, _end)) => Some(Volunteer { id, volunteer: name }),
        },
    }
}

/// Rebuild the hash a `ProjectUpdateRequest` payload carries.
pub fn deserialize_hash(payload: &[u8]) -> (r: Option<u64>)
    ensures
        r is Some <==> spec_parse_u64(payload@) is Some,
        r matches Some(h) ==> (spec_parse_u64(payload@) matches Some(t) && h == t.0),
{
    proof {
        assert(payload@.skip(0) =~= payload@);
    }
    match parse_u64_at(payload, 0) {
        None => None,
        Some((h, _end)) => Some(h),
    }
}

/// Law: parsing an encoded `u64` gives it back and leaves the rest.
pub proof fn lemma_parse_u64_round(x: u64, rest: Seq<u8>)
    ensures
        spec_parse_u64(spec_u64_to_le_bytes(x) + rest) == Some((x, rest)),
{
    lemma_auto_spec_u64_to_from_le_bytes();
    let b = spec_u64_to_le_bytes(x) + rest;
    assert(b.subrange(0, 8) =~= spec_u64_to_le_bytes(x));
    assert(b.skip(8) =~= rest);
}

/// Law: parsing an encoded `u32` gives it back and leaves the rest.
pub proof fn lemma_parse_u32_round(x: u32, rest: Seq<u8>)
    ensures
        spec_parse_u32(spec_u32_to_le_bytes(x) + rest) == Some((x, rest)),
{
    lemma_auto_spec_u32_to_from_le_bytes();
    let b = spec_u32_to_le_bytes(x) + rest;
    assert(b.subrange(0, 4) =~= spec_u32_to_le_bytes(x));
    assert(b.skip(4) =~= rest);
}

/// Law: parsing an encoded bool gives it back and leaves the rest.
pub proof fn lemma_parse_bool_round(x: bool, rest: Seq<u8>)
    ensures
        spec_parse_bool(seq![bool_byte(x)] + rest) == Some((x, rest)),
{
    let b = seq![bool_byte(x)] + rest;
    assert(b[0] == bool_byte(x));
    assert(b.skip(1) =~= rest);
}

/// Law: parsing an encoded status gives it back and leaves the rest.
pub proof fn lemma_parse_status_round(s: ProjectStatus, rest: Seq<u8>)
    ensures
        spec_parse_status(spec_u32_to_le_bytes(status_code(s)) + rest) == Some((s, rest)),
{
    lemma_parse_u32_round(status_code(s), rest);
    assert(status_of_code(status_code(s)) == Some(s));
}

/// Law: parsing an encoded string gives it back and leaves the rest.
pub proof fn lemma_parse_string_round(s: Seq<char>, rest: Seq<u8>)
    requires
        string_encodable(s),
    ensures
        spec_parse_string(spec_encode_string(s) + rest) == Some((s, rest)),
{
    broadcast use encode_utf8_valid_utf8, encode_utf8_decode_utf8;

    let utf8 = encode_utf8(s);
    let n = utf8.len() as u64;
    let b = spec_encode_string(s) + rest;
    assert(b =~= spec_u64_to_le_bytes(n) + (utf8 + rest));
    lemma_parse_u64_round(n, utf8 + rest);
    assert((utf8 + rest).take(n as int) =~= utf8);
    assert((utf8 + rest).skip(n as int) =~= rest);
}

/// Law: parsing a run of encoded strings gives them back and leaves the
/// rest.
pub proof fn lemma_parse_strings_round(ss: Seq<Seq<char>>, rest: Seq<u8>)
    requires
        forall|i: int| 0 <= i < ss.len() ==> string_encodable(#[trigger] ss[i]),
    ensures
        spec_parse_strings(spec_encode_strings(ss) + rest, ss.len()) == Some((ss, rest)),
    decreases ss.len(),
{
    if ss.len() == 0 {
        assert(spec_encode_strings(ss) + rest =~= rest);
        let t = spec_parse_strings(rest, 0).unwrap();
        assert(t.0 =~= ss);
    } else {
        let df = ss.drop_first();
        let b = spec_encode_strings(ss) + rest;
        assert(b =~= spec_encode_string(ss[0]) + (spec_encode_strings(df) + rest));
        lemma_parse_string_round(ss[0], spec_encode_strings(df) + rest);
        lemma_parse_strings_round(df, rest);
        assert(seq![ss[0]] + df =~= ss);
    }
}

/// Law: parsing an encoded string sequence gives it back and leaves the
/// rest.
pub proof fn lemma_parse_string_list_round(ss: Seq<Seq<char>>, rest: Seq<u8>)
    requires
        strings_encodable(ss),
    ensures
        spec_parse_string_list(spec_encode_string_list(ss) + rest) == Some((ss, rest)),
{
    let n = ss.len() as u64;
    let b = spec_encode_string_list(ss) + rest;
    assert(b =~= spec_u64_to_le_bytes(n) + (spec_encode_strings(ss) + rest));
    lemma_parse_u64_round(n, spec_encode_strings(ss) + rest);
    lemma_parse_strings_round(ss, rest);
}

/// Law: parsing an encoded project record gives it back and leaves the
/// rest.
#[verifier::rlimit(100)]
#[verifier::spinoff_prover]
pub proof fn lemma_parse_project_round(p: ProjectV, rest: Seq<u8>)
    requires
        project_encodable(p),
    ensures
        spec_parse_project(spec_encode_project(p) + rest) == Some((p, rest)),
{
    let t11 = spec_encode_string(p.volunteer) + rest;
    let t10 = spec_encode_string_list(p.culprits) + t11;
    let t9 = spec_u64_to_le_bytes(p.timestamp) + t10;
    let t8 = spec_u64_to_le_bytes(p.estimated_duration) + t9;
    let t7 = spec_u64_to_le_bytes(p.duration) + t8;
    let t6 = spec_u64_to_le_bytes(p.last_successful_build_time) + t7;
    let t5 = seq![bool_byte(p.is_building)] + t6;
    let t4 = spec_u32_to_le_bytes(status_code(p.status)) + t5;
    let t3 = spec_encode_string(p.url) + t4;
    let t2 = spec_encode_string(p.folder) + t3;
    let t1 = spec_encode_string(p.name) + t2;
    let t0 = spec_u64_to_le_bytes(p.id) + t1;
    assert(spec_encode_project(p) + rest =~= t0);
    lemma_parse_u64_round(p.id, t1);
    lemma_parse_string_round(p.name, t2);
    lemma_parse_string_round(p.folder, t3);
    lemma_parse_string_round(p.url, t4);
    lemma_parse_status_round(p.status, t5);
    lemma_parse_bool_round(p.is_building, t6);
    lemma_parse_u64_round(p.last_successful_build_time, t7);
    lemma_parse_u64_round(p.duration, t8);
    lemma_parse_u64_round(p.estimated_duration, t9);
    lemma_parse_u64_round(p.timestamp, t10);
    lemma_parse_string_list_round(p.culprits, t11);
    lemma_parse_string_round(p.volunteer, rest);
    let parsed = spec_parse_project(spec_encode_project(p) + rest).unwrap();
    assert(parsed.0 =~= p);
}

/// Law: parsing a run of encoded project records gives them back and
/// leaves the rest.
#[verifier::rlimit(100)]
#[verifier::spinoff_prover]
pub proof fn lemma_parse_projects_round(ps: Seq<ProjectV>, rest: Seq<u8>)
    requires
        forall|i: int| 0 <= i < ps.len() ==> project_encodable(#[trigger] ps[i]),
    ensures
        spec_parse_projects(spec_encode_projects(ps) + rest, ps.len()) == Some((ps, rest)),
    decreases ps.len(),
{
    if ps.len() == 0 {
        assert(spec_encode_projects(ps) + rest =~= rest);
        let t = spec_parse_projects(rest, 0).unwrap();
        assert(t.0 =~= ps);
    } else {
        let df = ps.drop_first();
        let b = spec_encode_projects(ps) + rest;
        assert(b =~= spec_encode_project(ps[0]) + (spec_encode_projects(df) + rest));
        lemma_parse_project_round(ps[0], spec_encode_projects(df) + rest);
        lemma_parse_projects_round(df, rest);
        assert(seq![ps[0]] + df =~= ps);
    }
}

/// Law: parsing an encoded project list gives it back and leaves the rest.
/// With an empty rest this is the round trip of the `ProjectUpdate`
/// payload.
pub proof fn lemma_parse_project_list_round(ps: Seq<ProjectV>, rest: Seq<u8>)
    requires
        projects_encodable(ps),
    ensures
        spec_parse_project_list(spec_encode_project_list(ps) + rest) == Some((ps, rest)),
{
    let n = ps.len() as u64;
    let b = spec_encode_project_list(ps) + rest;
    assert(b =~= spec_u64_to_le_bytes(n) + (spec_encode_projects(ps) + rest));
    lemma_parse_u64_round(n, spec_encode_projects(ps) + rest);
    lemma_parse_projects_round(ps, rest);
}

/// Law: parsing an encoded volunteer claim gives it back and leaves the
/// rest. This is the round trip of the `VolunteerAdded` payload.
pub proof fn lemma_parse_volunteer_round(id: u64, name: Seq<char>, rest: Seq<u8>)
    requires
        string_encodable(name),
    ensures
        spec_parse_volunteer(spec_encode_volunteer(id, name) + rest) == Some(((id, name), rest)),
{
    let b = spec_encode_volunteer(id, name) + rest;
    assert(b =~= spec_u64_to_le_bytes(id) + (spec_encode_string(name) + rest));
    lemma_parse_u64_round(id, spec_encode_string(name) + rest);
    lemma_parse_string_round(name, rest);
}

} // verus!
