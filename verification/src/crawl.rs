//! Decisions of the crawl path that do not touch the network: mapping a
//! CI build result string to a status, and classifying a job entry by its
//! class name. The crawler itself — the HTTP walk over folders — is an
//! external collaborator that returns a flat project snapshot.

use vstd::prelude::*;
use vstd::utf8::*;

use crate::order::bytes_cmp;
use crate::project::ProjectStatus;

verus! {

/// The status a CI build result string stands for. Anything unrecognized
/// is `Unknown`. Strings are compared by their UTF-8 bytes.
pub open spec fn spec_status_from_result(s: Seq<char>) -> ProjectStatus {
    if encode_utf8(s) == encode_utf8("SUCCESS"@) {
        ProjectStatus::Success
    } else if encode_utf8(s) == encode_utf8("UNSTABLE"@) {
        ProjectStatus::Unstable
    } else if encode_utf8(s) == encode_utf8("FAILURE"@) {
        ProjectStatus::Failed
    } else if encode_utf8(s) == encode_utf8("ABORTED"@) {
        ProjectStatus::Aborted
    } else {
        ProjectStatus::Unknown
    }
}

/// Map a CI build result string to a status.
pub fn status_from_result(result: &str) -> (r: ProjectStatus)
    ensures
        r == spec_status_from_result(result@),
{
    let b = result.as_bytes();
    if bytes_cmp(b, "SUCCESS".as_bytes()) == 1 {
        ProjectStatus::Success
    } else if bytes_cmp(b, "UNSTABLE".as_bytes()) == 1 {
        ProjectStatus::Unstable
    } else if bytes_cmp(b, "FAILURE".as_bytes()) == 1 {
        ProjectStatus::Failed
    } else if bytes_cmp(b, "ABORTED".as_bytes()) == 1 {
        ProjectStatus::Aborted
    } else {
        ProjectStatus::Unknown
    }
}

/// The bytes of a job URL's folder part with every `job/` path segment
/// taken out, scanning left to right.
pub open spec fn spec_remove_job_segments(b: Seq<u8>) -> Seq<u8>
    decreases b.len(),
{
    if b.len() >= 4 && b.subrange(0, 4) == encode_utf8("job/"@) {
        spec_remove_job_segments(b.skip(4))
    } else if b.len() == 0 {
        b
    } else {
        seq![b[0]] + spec_remove_job_segments(b.drop_first())
    }
}

/// The bytes of the folder name a job URL determines, relative to the
/// crawl root: what follows the root and its slash, with the CI's `job/`
/// path segments removed. A root without a trailing slash is counted one
/// byte longer, for the slash the URL carries there.
pub open spec fn spec_folder_name(root: Seq<char>, url: Seq<char>) -> Seq<u8> {
    let rb = encode_utf8(root);
    let ub = encode_utf8(url);
    let start = if rb.len() > 0 && rb.last() == 47 {
        rb.len() as int
    } else {
        rb.len() + 1 as int
    };
    if start < ub.len() {
        spec_remove_job_segments(ub.skip(start))
    } else {
        Seq::empty()
    }
}

/// Folder name of a job URL, relative to the crawl root. The empty string
/// is returned for a URL that does not reach past the root — and, though
/// no URL made of text can produce one, for a byte result that is not
/// UTF-8.
pub fn folder_name_of(root: &str, url: &str) -> (r: String)
    ensures
        valid_utf8(spec_folder_name(root@, url@)) ==> r@ == decode_utf8(
            spec_folder_name(root@, url@),
        ),
        !valid_utf8(spec_folder_name(root@, url@)) ==> r@ == Seq::<char>::empty(),
{
    let rb = root.as_bytes();
    let ub = url.as_bytes();
    let rn = rb.len();
    let un = ub.len();
    let trailing_slash = rn > 0 && *vstd::slice::slice_index_get(rb, rn - 1) == 47;
    proof {
        if rb@.len() > 0 {
            assert(rb@.last() == rb@[rb@.len() - 1]);
        }
    }
    if trailing_slash && rn < un {
        remove_job_segments(ub, rn)
    } else if !trailing_slash && rn < usize::MAX && rn + 1 < un {
        remove_job_segments(ub, rn + 1)
    } else {
        let r = String::new();
        proof {
            assert(spec_folder_name(root@, url@) =~= Seq::<u8>::empty());
            assert(decode_utf8(Seq::<u8>::empty()) =~= Seq::<char>::empty());
        }
        r
    }
}

/// Copy `b` from `start` on, dropping every `job/` occurrence, and read
/// the result back as a string.
fn remove_job_segments(b: &[u8], start: usize) -> (r: String)
    requires
        start <= b@.len(),
    ensures
        valid_utf8(spec_remove_job_segments(b@.skip(start as int))) ==> r@ == decode_utf8(
            spec_remove_job_segments(b@.skip(start as int)),
        ),
        !valid_utf8(spec_remove_job_segments(b@.skip(start as int))) ==> r@
            == Seq::<char>::empty(),
{
    let pattern = "job/".as_bytes();
    let mut out: Vec<u8> = Vec::new();
    let mut i: usize = start;
    proof {
        assert(out@ + spec_remove_job_segments(b@.skip(start as int)) =~= spec_remove_job_segments(
            b@.skip(start as int),
        ));
    }
    while i < b.len()
        invariant
            start <= i <= b@.len(),
            pattern@ == encode_utf8("job/"@),
            spec_remove_job_segments(b@.skip(start as int)) == out@ + spec_remove_job_segments(
                b@.skip(i as int),
            ),
        decreases b@.len() - i,
    {
        let ghost rem = b@.skip(i as int);
        if b.len() - i >= 4 && crate::order::bytes_cmp(
            vstd::slice::slice_subrange(b, i, i + 4),
            pattern,
        ) == 1 {
            proof {
                assert(b@.subrange(i as int, i + 4) =~= rem.subrange(0, 4));
                assert(rem.skip(4) =~= b@.skip(i + 4));
                assert(spec_remove_job_segments(rem) == spec_remove_job_segments(b@.skip(i + 4)));
            }
            i = i + 4;
        } else {
            proof {
                assert(rem.len() > 0);
                if rem.len() >= 4 {
                    assert(rem.subrange(0, 4) =~= b@.subrange(i as int, i + 4));
                }
                assert(rem[0] == b@[i as int]);
                assert(rem.drop_first() =~= b@.skip(i + 1));
                assert(spec_remove_job_segments(rem) == seq![b@[i as int]]
                    + spec_remove_job_segments(b@.skip(i + 1)));
            }
            let ghost before = out@;
            out.push(*vstd::slice::slice_index_get(b, i));
            proof {
                assert(before + (seq![b@[i as int]] + spec_remove_job_segments(b@.skip(i + 1)))
                    =~= out@ + spec_remove_job_segments(b@.skip(i + 1)));
            }
            i = i + 1;
        }
    }
    proof {
        assert(b@.skip(b@.len() as int) =~= Seq::<u8>::empty());
        assert(out@ + Seq::<u8>::empty() =~= out@);
    }
    match crate::parse::string_from_utf8(out) {
        Some(s) => s,
        None => {
            let r = String::new();
            r
        },
    }
}

/// What a job entry of a CI folder listing is: a folder to walk into, a
/// buildable project to collect, or something to skip.
#[derive(Clone, Copy, PartialEq, Eq, Structural, Debug)]
pub enum JobKind {
    Folder,
    FreeStyleProject,
    Other,
}

/// The kind a job's class name stands for.
pub open spec fn spec_classify_job(class: Seq<char>) -> JobKind {
    if encode_utf8(class) == encode_utf8("com.cloudbees.hudson.plugins.folder.Folder"@) {
        JobKind::Folder
    } else if encode_utf8(class) == encode_utf8("hudson.model.FreeStyleProject"@) {
        JobKind::FreeStyleProject
    } else {
        JobKind::Other
    }
}

/// Classify a job entry by its class name.
pub fn classify_job(class: &str) -> (r: JobKind)
    ensures
        r == spec_classify_job(class@),
{
    let b = class.as_bytes();
    if bytes_cmp(b, "com.cloudbees.hudson.plugins.folder.Folder".as_bytes()) == 1 {
        JobKind::Folder
    } else if bytes_cmp(b, "hudson.model.FreeStyleProject".as_bytes()) == 1 {
        JobKind::FreeStyleProject
    } else {
        JobKind::Other
    }
}

} // verus!
