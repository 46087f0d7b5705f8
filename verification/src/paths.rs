use vstd::prelude::*;
use crate::text::{
    chars_find, chars_of, chars_replace, chars_starts_with, contains, extend_chars,
    is_first_occurrence, lemma_split_nonempty, occurs_at, own, replace_char, split_char,
    split_chars, starts_with, string_of, string_of_range,
};

verus! {

/// The first position at which `p` occurs in `s` (meaningful when it occurs).
pub open spec fn first_occurrence(s: Seq<char>, p: Seq<char>) -> int {
    choose|i: int| is_first_occurrence(s, p, i)
}

/// Lemma: a first occurrence is unique.
pub proof fn lemma_first_occurrence_unique(s: Seq<char>, p: Seq<char>, i: int)
    requires
        is_first_occurrence(s, p, i),
    ensures
        first_occurrence(s, p) == i,
{
    let j = first_occurrence(s, p);
    assert(is_first_occurrence(s, p, j));
    if j < i {
        assert(!occurs_at(s, p, j));
    }
    if i < j {
        assert(!occurs_at(s, p, i));
    }
}

proof fn lemma_first_from(s: Seq<char>, p: Seq<char>, i: int, k: int)
    requires
        0 <= i <= k,
        occurs_at(s, p, k),
        forall|j: int| 0 <= j < i ==> !occurs_at(s, p, j),
    ensures
        exists|f: int| is_first_occurrence(s, p, f),
    decreases k - i,
{
    if occurs_at(s, p, i) {
        assert(is_first_occurrence(s, p, i));
    } else {
        lemma_first_from(s, p, i + 1, k);
    }
}

/// Lemma: a text that holds `p` has a first occurrence of it.
pub proof fn lemma_contains_has_first(s: Seq<char>, p: Seq<char>)
    requires
        contains(s, p),
    ensures
        is_first_occurrence(s, p, first_occurrence(s, p)),
{
    let k = choose|k: int| occurs_at(s, p, k);
    lemma_first_from(s, p, 0, k);
}

/// The part of a path that identifies a stored image for de-duplication:
/// separators become `/`, and the path is cut to start at the first
/// `clipboard_images/` (else `pin_images/`) directory it holds.
pub open spec fn path_for_hash(path: Seq<char>) -> Seq<char> {
    let n = replace_char(path, '\\', '/');
    if contains(n, "clipboard_images/"@) {
        n.skip(first_occurrence(n, "clipboard_images/"@))
    } else if contains(n, "pin_images/"@) {
        n.skip(first_occurrence(n, "pin_images/"@))
    } else {
        n
    }
}

fn skip_from(v: &Vec<char>, from: usize) -> (r: String)
    requires
        from <= v@.len(),
    ensures
        r@ == v@.skip(from as int),
{
    let s = string_of_range(v.as_slice(), from, v.len());
    assert(v@.subrange(from as int, v@.len() as int) =~= v@.skip(from as int));
    s
}

/// Normalises a stored path for hashing, so that the same image stored under
/// different absolute roots hashes alike.
pub fn normalize_path_for_hash(path: &str) -> (r: String)
    ensures
        r@ == path_for_hash(path@),
{
    let cs = chars_of(path);
    let n = chars_replace(cs.as_slice(), '\\', '/');
    let ci = chars_of("clipboard_images/");
    match chars_find(n.as_slice(), ci.as_slice()) {
        Some(idx) => {
            proof { lemma_first_occurrence_unique(n@, ci@, idx as int); }
            return skip_from(&n, idx);
        }
        None => {}
    }
    let pin = chars_of("pin_images/");
    match chars_find(n.as_slice(), pin.as_slice()) {
        Some(idx) => {
            proof { lemma_first_occurrence_unique(n@, pin@, idx as int); }
            return skip_from(&n, idx);
        }
        None => {}
    }
    string_of(n.as_slice())
}

proof fn lemma_replaced_has_no_backslash(s: Seq<char>)
    ensures
        replace_char(replace_char(s, '\\', '/'), '\\', '/') == replace_char(s, '\\', '/'),
        forall|k: int| 0 <= k <= s.len() ==> replace_char(replace_char(s, '\\', '/').skip(k), '\\', '/')
            == #[trigger] replace_char(s, '\\', '/').skip(k),
{
    let n = replace_char(s, '\\', '/');
    assert(replace_char(n, '\\', '/') =~= n);
    assert forall|k: int| 0 <= k <= s.len() implies replace_char(n.skip(k), '\\', '/') == #[trigger] n.skip(k) by {
        assert(replace_char(n.skip(k), '\\', '/') =~= n.skip(k));
    }
}

proof fn lemma_suffix_keeps_absence(s: Seq<char>, p: Seq<char>, k: int)
    requires
        0 <= k <= s.len(),
        !contains(s, p),
    ensures
        !contains(s.skip(k), p),
{
    if contains(s.skip(k), p) {
        let i = choose|i: int| occurs_at(s.skip(k), p, i);
        assert(s.subrange(i + k, i + k + p.len()) =~= s.skip(k).subrange(i, i + p.len()));
        assert(occurs_at(s, p, i + k));
    }
}

proof fn lemma_starts_at_first(s: Seq<char>, p: Seq<char>, f: int)
    requires
        is_first_occurrence(s, p, f),
    ensures
        occurs_at(s.skip(f), p, 0),
        first_occurrence(s.skip(f), p) == 0,
        s.skip(f).skip(first_occurrence(s.skip(f), p)) == s.skip(f),
{
    let t = s.skip(f);
    assert(t.subrange(0, p.len() as int) =~= s.subrange(f, f + p.len()));
    assert(is_first_occurrence(t, p, 0));
    lemma_first_occurrence_unique(t, p, 0);
    assert(t.skip(0) =~= t);
}

/// Law: normalising a path for hashing twice gives the same as once.
pub proof fn lemma_path_for_hash_idempotent(path: Seq<char>)
    ensures
        path_for_hash(path_for_hash(path)) == path_for_hash(path),
{
    let n = replace_char(path, '\\', '/');
    let ci = "clipboard_images/"@;
    let pin = "pin_images/"@;
    lemma_replaced_has_no_backslash(path);
    let r = path_for_hash(path);
    if contains(n, ci) {
        lemma_contains_has_first(n, ci);
        let f = first_occurrence(n, ci);
        assert(replace_char(r, '\\', '/') == r);
        lemma_starts_at_first(n, ci, f);
        assert(contains(r, ci));
    } else if contains(n, pin) {
        lemma_contains_has_first(n, pin);
        let f = first_occurrence(n, pin);
        assert(replace_char(r, '\\', '/') == r);
        lemma_suffix_keeps_absence(n, ci, f);
        lemma_starts_at_first(n, pin, f);
        assert(contains(r, pin));
    } else {
        assert(replace_char(r, '\\', '/') == r);
    }
}

/// A path separator of the Windows path grammar.
pub open spec fn is_separator(c: char) -> bool {
    c == '\\' || c == '/'
}

/// The path with a leading drive prefix such as `C:` removed.
pub open spec fn strip_drive(p: Seq<char>) -> Seq<char> {
    if p.len() >= 2 && p[1] == ':' && (('a' <= p[0] && p[0] <= 'z') || ('A' <= p[0] && p[0] <= 'Z')) {
        p.skip(2)
    } else {
        p
    }
}

/// The segments between separators.
pub open spec fn segments(p: Seq<char>) -> Seq<Seq<char>> {
    split_char(replace_char(p, '/', '\\'), '\\')
}

/// A path names its parent directory (`..` as a segment) or starts with the
/// current directory (`.` as its first segment). These are the segments that
/// `Path::components` reports as `ParentDir` and `CurDir`: a `.` later in the
/// path is normalised away there.
pub open spec fn has_parent_segments(path: Seq<char>) -> bool {
    let segs = segments(strip_drive(path));
    (exists|i: int| 0 <= i < segs.len() && segs[i] == ".."@) || segs[0] == "."@
}

fn seg_is(seg: &Vec<char>, lit: &str) -> (r: bool)
    ensures
        r == (seg@ == lit@),
{
    let l = chars_of(lit);
    if seg.len() != l.len() {
        return false;
    }
    let sw = chars_starts_with(seg.as_slice(), l.as_slice());
    assert(seg@.subrange(0, l@.len() as int) =~= seg@);
    sw
}

/// Whether a path holds a `..` segment or begins with a `.` segment.
pub fn contains_parent_segments(path: &str) -> (r: bool)
    ensures
        r == has_parent_segments(path@),
{
    let cs = chars_of(path);
    let stripped: Vec<char> = if cs.len() >= 2 && cs[1] == ':'
        && (('a' <= cs[0] && cs[0] <= 'z') || ('A' <= cs[0] && cs[0] <= 'Z')) {
        let mut v: Vec<char> = Vec::new();
        let mut i: usize = 2;
        while i < cs.len()
            invariant
                2 <= i <= cs@.len(),
                v@ == cs@.subrange(2, i as int),
            decreases cs.len() - i,
        {
            v.push(cs[i]);
            i = i + 1;
            assert(v@ =~= cs@.subrange(2, i as int));
        }
        assert(cs@.subrange(2, cs@.len() as int) =~= cs@.skip(2));
        v
    } else {
        cs
    };
    assert(stripped@ == strip_drive(path@));
    let unified = chars_replace(stripped.as_slice(), '/', '\\');
    let segs = split_chars(unified.as_slice(), '\\');
    proof { lemma_split_nonempty(unified@, '\\'); }
    if seg_is(&segs[0], ".") {
        return true;
    }
    let mut i: usize = 0;
    while i < segs.len()
        invariant
            i <= segs@.len(),
            segs@.len() == segments(strip_drive(path@)).len(),
            forall|k: int| 0 <= k < segs@.len() ==> (#[trigger] segs@[k])@ == segments(strip_drive(path@))[k],
            forall|k: int| 0 <= k < i ==> segments(strip_drive(path@))[k] != ".."@,
            segments(strip_drive(path@))[0] != "."@,
        decreases segs.len() - i,
    {
        if seg_is(&segs[i], "..") {
            return true;
        }
        i = i + 1;
    }
    false
}

/// `dir` joined with the relative path `rel` as `Path::join` does on
/// Windows: a `\` goes between them unless `dir` is empty or already ends
/// with a separator.
pub open spec fn join_path(dir: Seq<char>, rel: Seq<char>) -> Seq<char> {
    if dir.len() == 0 || is_separator(dir.last()) {
        dir + rel
    } else {
        dir.push('\\') + rel
    }
}

/// Joins a directory and a relative path.
pub fn join_path_str(dir: &str, rel: &[char]) -> (r: String)
    ensures
        r@ == join_path(dir@, rel@),
{
    let mut v = chars_of(dir);
    let n = v.len();
    if n > 0 && !(v[n - 1] == '\\' || v[n - 1] == '/') {
        v.push('\\');
    }
    extend_chars(&mut v, rel);
    string_of(v.as_slice())
}

/// The three data sub-directories that stored paths may point into.
pub open spec fn managed_prefixes_backslash() -> Seq<Seq<char>> {
    seq!["clipboard_images\\"@, "pin_images\\"@, "image_library\\"@]
}

/// The same prefixes written with forward slashes.
pub open spec fn managed_prefixes_slash() -> Seq<Seq<char>> {
    seq!["clipboard_images/"@, "pin_images/"@, "image_library/"@]
}

/// The path starts with one of the managed data sub-directories.
pub open spec fn starts_with_managed_dir(p: Seq<char>) -> bool {
    exists|k: int| 0 <= k < 3 && starts_with(p, managed_prefixes_backslash()[k])
}

/// The candidate locations a stored path may have moved to inside `dir`:
/// for each managed prefix found in the path, in order, the tail from that
/// prefix re-rooted under `dir`.
pub open spec fn stored_path_probes_spec(stored: Seq<char>, dir: Seq<char>) -> Seq<Seq<char>> {
    probes_upto(replace_char(stored, '\\', '/'), dir, 3)
}

/// The probes produced by the first `k` managed prefixes.
pub open spec fn probes_upto(search: Seq<char>, dir: Seq<char>, k: int) -> Seq<Seq<char>>
    decreases k,
{
    if k <= 0 {
        Seq::empty()
    } else {
        let prev = probes_upto(search, dir, k - 1);
        let prefix = managed_prefixes_slash()[k - 1];
        if contains(search, prefix) {
            prev.push(join_path(dir, replace_char(search.skip(first_occurrence(search, prefix)), '/', '\\')))
        } else {
            prev
        }
    }
}

fn managed_prefix_slash(k: usize) -> (r: Vec<char>)
    requires
        k < 3,
    ensures
        r@ == managed_prefixes_slash()[k as int],
{
    if k == 0 {
        chars_of("clipboard_images/")
    } else if k == 1 {
        chars_of("pin_images/")
    } else {
        chars_of("image_library/")
    }
}

fn managed_prefix_backslash(k: usize) -> (r: Vec<char>)
    requires
        k < 3,
    ensures
        r@ == managed_prefixes_backslash()[k as int],
{
    if k == 0 {
        chars_of("clipboard_images\\")
    } else if k == 1 {
        chars_of("pin_images\\")
    } else {
        chars_of("image_library\\")
    }
}

/// Whether a stored path, with `/` read as a backslash, stays inside one of the
/// managed data sub-directories: no parent or current directory segment,
/// and one of their prefixes.
pub open spec fn is_managed_relative_path(path: Seq<char>) -> bool {
    let normalized = replace_char(path, '/', '\\');
    !has_parent_segments(normalized) && starts_with_managed_dir(normalized)
}

/// Checks that a path received from a peer names a file inside the
/// managed data sub-directories.
pub fn is_managed_relative(path: &str) -> (r: bool)
    ensures
        r == is_managed_relative_path(path@),
{
    let cs = chars_of(path);
    let normalized = chars_replace(cs.as_slice(), '/', '\\');
    let ns = string_of(normalized.as_slice());
    if contains_parent_segments(ns.as_str()) {
        return false;
    }
    let mut k: usize = 0;
    while k < 3
        invariant
            k <= 3,
            normalized@ == replace_char(path@, '/', '\\'),
            !has_parent_segments(normalized@),
            forall|j: int| 0 <= j < k ==> !starts_with(normalized@, managed_prefixes_backslash()[j]),
        decreases 3 - k,
    {
        let prefix = managed_prefix_backslash(k);
        if chars_starts_with(normalized.as_slice(), prefix.as_slice()) {
            assert(starts_with_managed_dir(normalized@));
            return true;
        }
        k = k + 1;
    }
    false
}

/// The candidate locations that `resolve_stored_path` probes for existence.
pub fn stored_path_probes(stored_path: &str, data_dir: &str) -> (r: Vec<String>)
    ensures
        r@.map_values(|s: String| s@) == stored_path_probes_spec(stored_path@, data_dir@),
{
    let cs = chars_of(stored_path);
    let search = chars_replace(cs.as_slice(), '\\', '/');
    let mut r: Vec<String> = Vec::new();
    let mut k: usize = 0;
    while k < 3
        invariant
            k <= 3,
            search@ == replace_char(stored_path@, '\\', '/'),
            r@.map_values(|s: String| s@) == probes_upto(search@, data_dir@, k as int),
        decreases 3 - k,
    {
        let prefix = managed_prefix_slash(k);
        match chars_find(search.as_slice(), prefix.as_slice()) {
            Some(idx) => {
                proof { lemma_first_occurrence_unique(search@, prefix@, idx as int); }
                let mut tail: Vec<char> = Vec::new();
                let mut i = idx;
                while i < search.len()
                    invariant
                        idx <= i <= search@.len(),
                        tail@ == search@.subrange(idx as int, i as int),
                    decreases search.len() - i,
                {
                    tail.push(search[i]);
                    i = i + 1;
                    assert(tail@ =~= search@.subrange(idx as int, i as int));
                }
                assert(tail@ =~= search@.skip(idx as int));
                let rel = chars_replace(tail.as_slice(), '/', '\\');
                let p = join_path_str(data_dir, rel.as_slice());
                let ghost before = r@;
                r.push(p);
                assert(r@.map_values(|s: String| s@) =~= before.map_values(|s: String| s@).push(p@));
            }
            None => {}
        }
        k = k + 1;
    }
    r
}

/// Where a stored path is found: an empty path when it names a parent or
/// current directory segment; under `dir` when it starts with a managed
/// sub-directory; else the first probe that exists; else the path itself.
pub open spec fn resolved_path(
    stored: Seq<char>,
    dir: Option<Seq<char>>,
    exists: Seq<bool>,
) -> Seq<char> {
    let normalized = replace_char(stored, '/', '\\');
    if has_parent_segments(normalized) {
        Seq::empty()
    } else if dir is Some && starts_with_managed_dir(normalized) {
        join_path(dir->0, normalized)
    } else if dir is Some && (exists|i: int| 0 <= i < exists.len() && exists[i]) {
        stored_path_probes_spec(stored, dir->0)[first_true(exists)]
    } else {
        stored
    }
}

/// The first index holding `true`.
pub open spec fn first_true(b: Seq<bool>) -> int {
    choose|i: int| 0 <= i < b.len() && b[i] && forall|j: int| 0 <= j < i ==> !b[j]
}

/// Resolves a stored (possibly relative or moved) path to where the file is.
/// `probe_exists[i]` tells whether the `i`-th of `stored_path_probes` exists.
pub fn resolve_stored_path(stored_path: &str, data_dir: Option<&str>, probe_exists: &Vec<bool>) -> (r: String)
    requires
        data_dir is Some ==> probe_exists@.len() == stored_path_probes_spec(stored_path@, data_dir->0@).len(),
    ensures
        r@ == resolved_path(stored_path@, match data_dir { Some(d) => Some(d@), None => None }, probe_exists@),
{
    let cs = chars_of(stored_path);
    let normalized = chars_replace(cs.as_slice(), '/', '\\');
    let normalized_str = string_of(normalized.as_slice());
    if contains_parent_segments(normalized_str.as_str()) {
        return String::new();
    }
    assert(normalized@ == replace_char(stored_path@, '/', '\\'));
    assert(!has_parent_segments(replace_char(stored_path@, '/', '\\')));
    match data_dir {
        None => { return own(stored_path); }
        Some(dir) => {
            let mut k: usize = 0;
            while k < 3
                invariant
                    k <= 3,
                    normalized@ == replace_char(stored_path@, '/', '\\'),
                    data_dir == Some(dir),
                    !has_parent_segments(normalized@),
                    forall|j: int| 0 <= j < k ==> !starts_with(normalized@, managed_prefixes_backslash()[j]),
                decreases 3 - k,
            {
                let prefix = managed_prefix_backslash(k);
                if chars_starts_with(normalized.as_slice(), prefix.as_slice()) {
                    assert(starts_with_managed_dir(normalized@));
                    let r = join_path_str(dir, normalized.as_slice());
                    assert(r@ == resolved_path(stored_path@, Some(dir@), probe_exists@));
                    return r;
                }
                k = k + 1;
            }
            assert(!starts_with_managed_dir(normalized@));
            let probes = stored_path_probes(stored_path, dir);
            let mut i: usize = 0;
            while i < probe_exists.len()
                invariant
                    i <= probe_exists@.len(),
                    normalized@ == replace_char(stored_path@, '/', '\\'),
                    data_dir == Some(dir),
                    !has_parent_segments(normalized@),
                    !starts_with_managed_dir(normalized@),
                    probes@.len() == probe_exists@.len(),
                    probes@.map_values(|s: String| s@) == stored_path_probes_spec(stored_path@, dir@),
                    forall|j: int| 0 <= j < i ==> !probe_exists@[j],
                decreases probe_exists.len() - i,
            {
                if probe_exists[i] {
                    let ghost b = probe_exists@;
                    assert(0 <= i < b.len() && b[i as int] && forall|j: int| 0 <= j < i ==> !b[j]);
                    let ghost f = first_true(b);
                    assert(f == i) by {
                        if f < i { assert(!b[f]); }
                        if i < f { assert(!b[i as int]); }
                    }
                    assert(probes@.map_values(|s: String| s@)[i as int] == probes@[i as int]@);
                    assert(exists|j: int| 0 <= j < b.len() && b[j]);
                    let r = probes[i].clone();
                    assert(r@ == resolved_path(stored_path@, Some(dir@), probe_exists@));
                    return r;
                }
                i = i + 1;
            }
            own(stored_path)
        }
    }
}

} // verus!
