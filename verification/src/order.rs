//! Ordering of the project cache: ascending by `(folder, name)`. Text is
//! compared lexicographically over its UTF-8 bytes, which for UTF-8 agrees
//! with code-point order.

use vstd::prelude::*;
use vstd::utf8::*;

use crate::project::{Project, ProjectV};

verus! {

/// Lexicographic "less or equal" on byte sequences; a proper prefix comes
/// first.
pub open spec fn bytes_le(a: Seq<u8>, b: Seq<u8>) -> bool
    decreases a.len(),
{
    if a.len() == 0 {
        true
    } else if b.len() == 0 {
        false
    } else if a[0] < b[0] {
        true
    } else if a[0] > b[0] {
        false
    } else {
        bytes_le(a.drop_first(), b.drop_first())
    }
}

/// Lexicographic "less or equal" on strings, over their UTF-8 bytes.
pub open spec fn str_le(a: Seq<char>, b: Seq<char>) -> bool {
    bytes_le(encode_utf8(a), encode_utf8(b))
}

/// Cache order on projects: by folder first, by name within one folder.
pub open spec fn project_key_le(a: ProjectV, b: ProjectV) -> bool {
    if encode_utf8(a.folder) == encode_utf8(b.folder) {
        str_le(a.name, b.name)
    } else {
        bytes_le(encode_utf8(a.folder), encode_utf8(b.folder))
    }
}

/// A cache in ascending `(folder, name)` order.
pub open spec fn projects_sorted(s: Seq<ProjectV>) -> bool {
    forall|i: int, j: int| 0 <= i < j < s.len() ==> project_key_le(#[trigger] s[i], #[trigger] s[j])
}

pub proof fn lemma_bytes_le_total(a: Seq<u8>, b: Seq<u8>)
    ensures
        bytes_le(a, b) || bytes_le(b, a),
    decreases a.len(),
{
    if a.len() > 0 && b.len() > 0 && a[0] == b[0] {
        lemma_bytes_le_total(a.drop_first(), b.drop_first());
    }
}

pub proof fn lemma_bytes_le_antisym(a: Seq<u8>, b: Seq<u8>)
    requires
        bytes_le(a, b),
        bytes_le(b, a),
    ensures
        a == b,
    decreases a.len(),
{
    if a.len() == 0 {
        assert(b.len() == 0);
        assert(a =~= b);
    } else {
        assert(b.len() > 0);
        assert(a[0] == b[0]);
        lemma_bytes_le_antisym(a.drop_first(), b.drop_first());
        assert forall|i: int| 0 <= i < a.len() implies a[i] == b[i] by {
            if i > 0 {
                assert(a[i] == a.drop_first()[i - 1]);
                assert(b[i] == b.drop_first()[i - 1]);
            }
        }
        assert(a =~= b);
    }
}

pub proof fn lemma_bytes_le_trans(a: Seq<u8>, b: Seq<u8>, c: Seq<u8>)
    requires
        bytes_le(a, b),
        bytes_le(b, c),
    ensures
        bytes_le(a, c),
    decreases a.len(),
{
    if a.len() > 0 {
        assert(b.len() > 0);
        assert(c.len() > 0);
        if a[0] == b[0] && b[0] == c[0] {
            lemma_bytes_le_trans(a.drop_first(), b.drop_first(), c.drop_first());
        }
    }
}

pub proof fn lemma_key_le_total(a: ProjectV, b: ProjectV)
    ensures
        project_key_le(a, b) || project_key_le(b, a),
{
    lemma_bytes_le_total(encode_utf8(a.folder), encode_utf8(b.folder));
    lemma_bytes_le_total(encode_utf8(a.name), encode_utf8(b.name));
}

pub proof fn lemma_key_le_trans(a: ProjectV, b: ProjectV, c: ProjectV)
    requires
        project_key_le(a, b),
        project_key_le(b, c),
    ensures
        project_key_le(a, c),
{
    let fa = encode_utf8(a.folder);
    let fb = encode_utf8(b.folder);
    let fc = encode_utf8(c.folder);
    if fa == fb && fb == fc {
        lemma_bytes_le_trans(encode_utf8(a.name), encode_utf8(b.name), encode_utf8(c.name));
    } else if fa == fb {
        assert(bytes_le(fa, fc) && fa != fc);
    } else if fb == fc {
        assert(bytes_le(fa, fc) && fa != fc);
    } else {
        lemma_bytes_le_trans(fa, fb, fc);
        if fa == fc {
            lemma_bytes_le_antisym(fa, fb);
        }
    }
}

/// Stable insertion of one project into a sorted cache: it lands after
/// every element it does not strictly precede.
pub open spec fn spec_insert(s: Seq<ProjectV>, p: ProjectV) -> Seq<ProjectV>
    decreases s.len(),
{
    if s.len() == 0 {
        seq![p]
    } else if project_key_le(s.last(), p) {
        s.push(p)
    } else {
        spec_insert(s.drop_last(), p).push(s.last())
    }
}

/// Insertion sort of a cache, element by element from the left.
pub open spec fn spec_sort(s: Seq<ProjectV>) -> Seq<ProjectV>
    decreases s.len(),
{
    if s.len() == 0 {
        Seq::empty()
    } else {
        spec_insert(spec_sort(s.drop_last()), s.last())
    }
}

pub proof fn lemma_insert_len(s: Seq<ProjectV>, p: ProjectV)
    ensures
        spec_insert(s, p).len() == s.len() + 1,
    decreases s.len(),
{
    if s.len() > 0 && !project_key_le(s.last(), p) {
        lemma_insert_len(s.drop_last(), p);
    }
}

/// Every element of an insertion's result is the inserted project or an
/// element of the original cache.
proof fn lemma_insert_elems(s: Seq<ProjectV>, p: ProjectV)
    ensures
        forall|i: int|
            0 <= i < spec_insert(s, p).len() ==> (#[trigger] spec_insert(s, p)[i] == p
                || s.contains(spec_insert(s, p)[i])),
    decreases s.len(),
{
    lemma_insert_len(s, p);
    if s.len() == 0 {
    } else if project_key_le(s.last(), p) {
    } else {
        lemma_insert_elems(s.drop_last(), p);
        lemma_insert_len(s.drop_last(), p);
        assert forall|i: int| 0 <= i < spec_insert(s, p).len() implies (#[trigger] spec_insert(
            s,
            p,
        )[i] == p || s.contains(spec_insert(s, p)[i])) by {
            let r = spec_insert(s.drop_last(), p).push(s.last());
            if i == r.len() - 1 {
                assert(s.contains(s.last()));
            } else {
                assert(r[i] == spec_insert(s.drop_last(), p)[i]);
                if r[i] != p {
                    assert(s.drop_last().contains(r[i]));
                    let j = choose|j: int|
                        0 <= j < s.drop_last().len() && s.drop_last()[j] == r[i];
                    assert(s[j] == r[i]);
                }
            }
        }
    }
}

pub proof fn lemma_insert_multiset(s: Seq<ProjectV>, p: ProjectV)
    ensures
        spec_insert(s, p).to_multiset() == s.to_multiset().insert(p),
    decreases s.len(),
{
    broadcast use vstd::seq_lib::group_seq_properties;

    if s.len() == 0 {
        assert(spec_insert(s, p) =~= Seq::<ProjectV>::empty().push(p));
        Seq::<ProjectV>::empty().to_multiset_ensures();
        Seq::<ProjectV>::empty().push(p).to_multiset_ensures();
        assert(spec_insert(s, p).to_multiset() =~= s.to_multiset().insert(p));
    } else if project_key_le(s.last(), p) {
        s.to_multiset_ensures();
        assert(s.push(p).to_multiset() =~= s.to_multiset().insert(p));
    } else {
        let dl = s.drop_last();
        lemma_insert_multiset(dl, p);
        dl.to_multiset_ensures();
        spec_insert(dl, p).to_multiset_ensures();
        assert(dl.push(s.last()) =~= s);
        assert(s.to_multiset() =~= dl.to_multiset().insert(s.last()));
        assert(spec_insert(s, p).to_multiset() =~= spec_insert(dl, p).to_multiset().insert(
            s.last(),
        ));
        assert(dl.to_multiset().insert(p).insert(s.last()) =~= dl.to_multiset().insert(
            s.last(),
        ).insert(p));
        assert(spec_insert(s, p).to_multiset() =~= s.to_multiset().insert(p));
    }
}

pub proof fn lemma_insert_sorted(s: Seq<ProjectV>, p: ProjectV)
    requires
        projects_sorted(s),
    ensures
        projects_sorted(spec_insert(s, p)),
    decreases s.len(),
{
    lemma_insert_len(s, p);
    if s.len() == 0 {
    } else if project_key_le(s.last(), p) {
        let r = s.push(p);
        assert forall|i: int, j: int| 0 <= i < j < r.len() implies project_key_le(
            #[trigger] r[i],
            #[trigger] r[j],
        ) by {
            if j == r.len() - 1 {
                if i < s.len() - 1 {
                    lemma_key_le_trans(s[i], s.last(), p);
                }
            }
        }
    } else {
        lemma_key_le_total(s.last(), p);
        let dl = s.drop_last();
        assert(projects_sorted(dl));
        lemma_insert_sorted(dl, p);
        lemma_insert_elems(dl, p);
        lemma_insert_len(dl, p);
        let r0 = spec_insert(dl, p);
        let r = r0.push(s.last());
        assert forall|i: int, j: int| 0 <= i < j < r.len() implies project_key_le(
            #[trigger] r[i],
            #[trigger] r[j],
        ) by {
            if j == r.len() - 1 {
                if r0[i] == p {
                    assert(project_key_le(p, s.last()));
                } else {
                    assert(dl.contains(r0[i]));
                    let k = choose|k: int| 0 <= k < dl.len() && dl[k] == r0[i];
                    assert(project_key_le(s[k], s.last()));
                }
            }
        }
    }
}

/// Law: an insertion-sorted cache is in ascending `(folder, name)` order.
pub proof fn lemma_sort_sorted(s: Seq<ProjectV>)
    ensures
        projects_sorted(spec_sort(s)),
    decreases s.len(),
{
    if s.len() > 0 {
        lemma_sort_sorted(s.drop_last());
        lemma_insert_sorted(spec_sort(s.drop_last()), s.last());
    }
}

/// Law: sorting keeps exactly the projects that were there, as a multiset.
pub proof fn lemma_sort_multiset(s: Seq<ProjectV>)
    ensures
        spec_sort(s).to_multiset() == s.to_multiset(),
    decreases s.len(),
{
    if s.len() == 0 {
        assert(s =~= Seq::<ProjectV>::empty());
        assert(spec_sort(s) =~= s);
    } else {
        let dl = s.drop_last();
        lemma_sort_multiset(dl);
        lemma_insert_multiset(spec_sort(dl), s.last());
        dl.to_multiset_ensures();
        assert(dl.push(s.last()) =~= s);
        assert(s.to_multiset() =~= dl.to_multiset().insert(s.last()));
        assert(spec_sort(s).to_multiset() == spec_insert(spec_sort(dl), s.last()).to_multiset());
        assert(spec_insert(spec_sort(dl), s.last()).to_multiset() == spec_sort(
            dl,
        ).to_multiset().insert(s.last()));
        assert(spec_sort(dl).to_multiset().insert(s.last()) == dl.to_multiset().insert(s.last()));
    }
}

pub proof fn lemma_sort_len(s: Seq<ProjectV>)
    ensures
        spec_sort(s).len() == s.len(),
    decreases s.len(),
{
    if s.len() > 0 {
        lemma_sort_len(s.drop_last());
        lemma_insert_len(spec_sort(s.drop_last()), s.last());
    }
}

/// Where the scan of the exec insertion stops, the spec insertion splits.
proof fn lemma_insert_at(s: Seq<ProjectV>, p: ProjectV, j: int)
    requires
        0 <= j <= s.len(),
        j > 0 ==> project_key_le(s[j - 1], p),
        forall|k: int| j <= k < s.len() ==> !project_key_le(#[trigger] s[k], p),
    ensures
        spec_insert(s, p) == s.take(j) + seq![p] + s.skip(j),
    decreases s.len(),
{
    if j == s.len() {
        if s.len() == 0 {
            assert(spec_insert(s, p) =~= s.take(j) + seq![p] + s.skip(j));
        } else {
            assert(project_key_le(s.last(), p));
            assert(spec_insert(s, p) =~= s.take(j) + seq![p] + s.skip(j));
        }
    } else {
        assert(!project_key_le(s[s.len() - 1], p));
        let dl = s.drop_last();
        lemma_insert_at(dl, p, j);
        assert(dl.take(j) =~= s.take(j));
        assert((dl.take(j) + seq![p] + dl.skip(j)).push(s.last()) =~= s.take(j) + seq![p] + s.skip(
            j,
        ));
    }
}

/// Three-way comparison of byte slices under [`bytes_le`]: 0 for strictly
/// before, 1 for equal, 2 for strictly after.
pub fn bytes_cmp(a: &[u8], b: &[u8]) -> (r: u8)
    ensures
        r == 1 <==> a@ == b@,
        r == 0 <==> (bytes_le(a@, b@) && a@ != b@),
        r == 2 <==> !bytes_le(a@, b@),
{
    let mut i: usize = 0;
    loop
        invariant
            i <= a@.len(),
            i <= b@.len(),
            forall|k: int| 0 <= k < i ==> a@[k] == b@[k],
        decreases a@.len() - i,
    {
        proof {
            lemma_bytes_le_skip(a@, b@, i as int);
            lemma_bytes_le_skip(b@, a@, i as int);
        }
        if i == a.len() {
            if i == b.len() {
                proof {
                    assert(a@ =~= b@);
                }
                return 1;
            } else {
                proof {
                    assert(a@.len() != b@.len());
                }
                return 0;
            }
        }
        if i == b.len() {
            return 2;
        }
        let x = *vstd::slice::slice_index_get(a, i);
        let y = *vstd::slice::slice_index_get(b, i);
        if x < y {
            proof {
                assert(a@[i as int] != b@[i as int]);
            }
            return 0;
        }
        if x > y {
            return 2;
        }
        i = i + 1;
    }
}

/// With equal prefixes of length `i`, the order is decided by what follows.
proof fn lemma_bytes_le_skip(a: Seq<u8>, b: Seq<u8>, i: int)
    requires
        0 <= i <= a.len(),
        0 <= i <= b.len(),
        forall|k: int| 0 <= k < i ==> a[k] == b[k],
    ensures
        bytes_le(a, b) == bytes_le(a.skip(i), b.skip(i)),
    decreases i,
{
    if i > 0 {
        assert(a.len() > 0 && b.len() > 0 && a[0] == b[0]);
        lemma_bytes_le_skip(a.drop_first(), b.drop_first(), i - 1);
        assert(a.drop_first().skip(i - 1) =~= a.skip(i));
        assert(b.drop_first().skip(i - 1) =~= b.skip(i));
    } else {
        assert(a.skip(0) =~= a);
        assert(b.skip(0) =~= b);
    }
}

/// Cache order, decided on the records themselves.
pub fn project_key_le_exec(a: &Project, b: &Project) -> (r: bool)
    ensures
        r == project_key_le(a@, b@),
{
    let fa = a.folder().as_bytes();
    let fb = b.folder().as_bytes();
    let c = bytes_cmp(fa, fb);
    if c == 1 {
        let na = a.name().as_bytes();
        let nb = b.name().as_bytes();
        let cn = bytes_cmp(na, nb);
        cn != 2
    } else {
        c == 0
    }
}

/// Insert one project into a cache kept in ascending order.
fn insert_sorted(r: &mut Vec<Project>, p: Project)
    ensures
        final(r).deep_view() == spec_insert(old(r).deep_view(), p@),
{
    let mut j: usize = r.len();
    while j > 0 && !project_key_le_exec(&r[j - 1], &p)
        invariant
            j <= r@.len(),
            *r == *old(r),
            forall|k: int|
                j <= k < r.deep_view().len() ==> !project_key_le(#[trigger] r.deep_view()[k], p@),
        decreases j,
    {
        j = j - 1;
    }
    proof {
        lemma_insert_at(r.deep_view(), p@, j as int);
    }
    let ghost before = r.deep_view();
    r.insert(j, p);
    proof {
        assert(final(r).deep_view() =~= before.take(j as int) + seq![p@] + before.skip(j as int));
    }
}

/// Sort a cache into ascending `(folder, name)` order.
pub fn sort_projects(v: &Vec<Project>) -> (r: Vec<Project>)
    ensures
        r.deep_view() == spec_sort(v.deep_view()),
{
    let mut r: Vec<Project> = Vec::new();
    let mut i: usize = 0;
    proof {
        assert(r.deep_view() =~= spec_sort(v.deep_view().take(0)));
    }
    while i < v.len()
        invariant
            i <= v@.len(),
            r.deep_view() == spec_sort(v.deep_view().take(i as int)),
        decreases v@.len() - i,
    {
        let p = v[i].clone();
        insert_sorted(&mut r, p);
        proof {
            let dv = v.deep_view();
            assert(dv.take(i + 1).drop_last() =~= dv.take(i as int));
            assert(dv.take(i + 1).last() == dv[i as int]);
        }
        i = i + 1;
    }
    proof {
        assert(v.deep_view().take(v.deep_view().len() as int) =~= v.deep_view());
    }
    r
}

} // verus!
