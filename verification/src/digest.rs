//! Content hashing: a 64-bit rolling hash (FNV-1a) over the cache contents
//! in order. The server uses it to detect whether clients need a push; a
//! query-mode client sends it so the server can skip redundant transfers.
//! A project's `id` is the same hash taken over its URL alone.

use vstd::bytes::*;
use vstd::prelude::*;
use vstd::utf8::*;

use crate::codec::{bool_byte, spec_encode_string, spec_encode_string_list, status_code};
use crate::project::{Project, ProjectV};

verus! {

pub const FNV_OFFSET_BASIS: u64 = 0xcbf29ce484222325;

pub const FNV_PRIME: u64 = 0x100000001b3;

/// One step of the rolling hash: fold one byte into the state.
pub open spec fn fnv_step(h: u64, b: u8) -> u64 {
    vstd::wrapping::u64_specs::wrapping_mul(h ^ (b as u64), FNV_PRIME)
}

/// The rolling hash of `bytes` started from state `h`.
pub open spec fn spec_fnv64_from(h: u64, bytes: Seq<u8>) -> u64
    decreases bytes.len(),
{
    if bytes.len() == 0 {
        h
    } else {
        spec_fnv64_from(fnv_step(h, bytes[0]), bytes.drop_first())
    }
}

/// The 64-bit FNV-1a hash of a byte sequence.
pub open spec fn spec_fnv64(bytes: Seq<u8>) -> u64 {
    spec_fnv64_from(FNV_OFFSET_BASIS, bytes)
}

/// A project's identity: the content hash of its URL's UTF-8 bytes. A pure
/// function of the URL, so it is stable across restarts.
pub open spec fn spec_url_id(url: Seq<char>) -> u64 {
    spec_fnv64(encode_utf8(url))
}

/// The bytes of one project that enter the cache hash: id, status,
/// is_building, volunteer, last successful build time, duration and
/// culprits, in that order. Name, folder, URL, estimated duration and
/// timestamp stay out on purpose.
pub open spec fn spec_project_hash_input(p: ProjectV) -> Seq<u8> {
    spec_u64_to_le_bytes(p.id) + spec_u32_to_le_bytes(status_code(p.status)) + seq![
        bool_byte(p.is_building),
    ] + spec_encode_string(p.volunteer) + spec_u64_to_le_bytes(p.last_successful_build_time)
        + spec_u64_to_le_bytes(p.duration) + spec_encode_string_list(p.culprits)
}

/// The hash input of a whole cache: each project's input, in cache order.
pub open spec fn spec_projects_hash_input(ps: Seq<ProjectV>) -> Seq<u8>
    decreases ps.len(),
{
    if ps.len() == 0 {
        Seq::empty()
    } else {
        spec_project_hash_input(ps[0]) + spec_projects_hash_input(ps.drop_first())
    }
}

/// The content hash of a project cache.
pub open spec fn spec_projects_hash(ps: Seq<ProjectV>) -> u64 {
    spec_fnv64(spec_projects_hash_input(ps))
}

/// Fold a byte slice into a rolling-hash state.
pub fn fnv64_from(h0: u64, bytes: &[u8]) -> (r: u64)
    ensures
        r == spec_fnv64_from(h0, bytes@),
{
    let mut h = h0;
    let mut i: usize = 0;
    proof {
        assert(bytes@.skip(0) =~= bytes@);
    }
    while i < bytes.len()
        invariant
            i <= bytes@.len(),
            spec_fnv64_from(h, bytes@.skip(i as int)) == spec_fnv64_from(h0, bytes@),
        decreases bytes@.len() - i,
    {
        let b = *vstd::slice::slice_index_get(bytes, i);
        proof {
            assert(bytes@.skip(i as int)[0] == bytes@[i as int]);
            assert(bytes@.skip(i as int).drop_first() =~= bytes@.skip(i + 1));
        }
        h = (h ^ (b as u64)).wrapping_mul(FNV_PRIME);
        i = i + 1;
    }
    proof {
        assert(bytes@.skip(bytes@.len() as int) =~= Seq::<u8>::empty());
    }
    h
}

/// The 64-bit FNV-1a hash of a byte slice.
pub fn fnv64(bytes: &[u8]) -> (r: u64)
    ensures
        r == spec_fnv64(bytes@),
{
    fnv64_from(FNV_OFFSET_BASIS, bytes)
}

/// The identity a URL determines.
pub fn url_id(url: &str) -> (r: u64)
    ensures
        r == spec_url_id(url@),
{
    let bytes = url.as_bytes();
    fnv64(bytes)
}

fn project_hash_input_into(out: &mut Vec<u8>, p: &Project)
    ensures
        final(out)@ == old(out)@ + spec_project_hash_input(p@),
{
    crate::codec::encode_u64_into(out, p.id());
    crate::codec::encode_u32_into(out, crate::codec::status_to_code(p.status()));
    out.push(if p.is_building() {
        1
    } else {
        0
    });
    crate::codec::encode_string_into(out, p.volunteer());
    crate::codec::encode_u64_into(out, p.last_successful_build_time());
    crate::codec::encode_u64_into(out, p.duration());
    crate::codec::encode_string_list_into(out, p.culprits());
    proof {
        assert(final(out)@ =~= old(out)@ + spec_project_hash_input(p@));
    }
}

/// The hash input of the first `i + 1` projects is that of the first `i`
/// followed by the input of project `i`.
proof fn lemma_hash_input_take_snoc(ps: Seq<ProjectV>, i: int)
    requires
        0 <= i < ps.len(),
    ensures
        spec_projects_hash_input(ps.take(i + 1)) == spec_projects_hash_input(ps.take(i))
            + spec_project_hash_input(ps[i]),
    decreases i,
{
    if i == 0 {
        assert(ps.take(1) =~= seq![ps[0]]);
        assert(ps.take(1).drop_first() =~= Seq::<ProjectV>::empty());
        assert(ps.take(0) =~= Seq::<ProjectV>::empty());
        assert(spec_projects_hash_input(ps.take(1)) =~= spec_projects_hash_input(ps.take(0))
            + spec_project_hash_input(ps[0]));
    } else {
        lemma_hash_input_take_snoc(ps.drop_first(), i - 1);
        assert(ps.take(i + 1).drop_first() =~= ps.drop_first().take(i));
        assert(ps.take(i).drop_first() =~= ps.drop_first().take(i - 1));
        assert(spec_projects_hash_input(ps.take(i + 1)) =~= spec_projects_hash_input(ps.take(i))
            + spec_project_hash_input(ps[i]));
    }
}

/// The content hash of a project list: the rolling hash over every
/// project's hash input, in order.
pub fn generate_projects_hash(projects: &Vec<Project>) -> (r: u64)
    ensures
        r == spec_projects_hash(projects.deep_view()),
{
    let mut input: Vec<u8> = Vec::new();
    let mut i: usize = 0;
    while i < projects.len()
        invariant
            i <= projects.len(),
            input@ == spec_projects_hash_input(projects.deep_view().take(i as int)),
        decreases projects.len() - i,
    {
        proof {
            lemma_hash_input_take_snoc(projects.deep_view(), i as int);
        }
        project_hash_input_into(&mut input, &projects[i]);
        i = i + 1;
    }
    proof {
        assert(projects.deep_view().take(projects.len() as int) =~= projects.deep_view());
    }
    fnv64(input.as_slice())
}

/// The fields of a project that enter the content hash are equal. The other
/// fields (name, folder, URL, estimated duration, timestamp) are free.
pub open spec fn hash_fields_eq(a: ProjectV, b: ProjectV) -> bool {
    a.id == b.id && a.status == b.status && a.is_building == b.is_building && a.volunteer
        == b.volunteer && a.last_successful_build_time == b.last_successful_build_time && a.duration
        == b.duration && a.culprits == b.culprits
}

/// Law: the content hash depends only on the hashed fields of each project,
/// in cache order. Two caches that agree position by position on those
/// fields hash alike, whatever their other fields hold.
pub proof fn lemma_hash_depends_only_on_hashed_fields(a: Seq<ProjectV>, b: Seq<ProjectV>)
    requires
        a.len() == b.len(),
        forall|i: int| 0 <= i < a.len() ==> hash_fields_eq(#[trigger] a[i], #[trigger] b[i]),
    ensures
        spec_projects_hash(a) == spec_projects_hash(b),
{
    lemma_hash_input_depends(a, b);
}

proof fn lemma_hash_input_depends(a: Seq<ProjectV>, b: Seq<ProjectV>)
    requires
        a.len() == b.len(),
        forall|i: int| 0 <= i < a.len() ==> hash_fields_eq(#[trigger] a[i], #[trigger] b[i]),
    ensures
        spec_projects_hash_input(a) == spec_projects_hash_input(b),
    decreases a.len(),
{
    if a.len() == 0 {
    } else {
        assert(hash_fields_eq(a[0], b[0]));
        assert(spec_project_hash_input(a[0]) == spec_project_hash_input(b[0]));
        assert(forall|i: int|
            0 <= i < a.drop_first().len() ==> hash_fields_eq(
                #[trigger] a.drop_first()[i],
                #[trigger] b.drop_first()[i],
            ));
        lemma_hash_input_depends(a.drop_first(), b.drop_first());
    }
}

/// Law: two projects whose `id` is the hash of their URL — as
/// `Project::new` guarantees — carry equal ids whenever their URLs are
/// equal.
pub proof fn lemma_same_url_same_id(a: ProjectV, b: ProjectV)
    requires
        a.id == spec_url_id(a.url),
        b.id == spec_url_id(b.url),
        a.url == b.url,
    ensures
        a.id == b.id,
{
}

} // verus!
