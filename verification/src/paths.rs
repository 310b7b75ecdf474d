//! Path and file-name reasoning for the transcoding pipeline.
//!
//! Paths are modelled as strings. A file name is the part of a path after
//! its last `/`; the identity key of a file is the part of its name before
//! the first `.`, and it is the stable handle that links a source video to
//! its published output, whatever the source extension or its casing.

use vstd::prelude::*;

verus! {

/// Index of the first `.` in `s`, or `s.len()` if there is none.
pub open spec fn first_dot(s: Seq<char>) -> int
    decreases s.len(),
{
    if s.len() == 0 {
        0
    } else if s[0] == '.' {
        0
    } else {
        1 + first_dot(s.drop_first())
    }
}

/// The identity key of a file name: everything before the first `.`.
pub open spec fn key_of(s: Seq<char>) -> Seq<char> {
    s.take(first_dot(s))
}

/// The file name of a path: everything after the last `/`, or the whole
/// path if it holds no `/`.
pub open spec fn file_name_of(s: Seq<char>) -> Seq<char>
    decreases s.len(),
{
    if s.len() == 0 {
        s
    } else if s[s.len() - 1] == '/' {
        Seq::empty()
    } else {
        file_name_of(s.drop_last()).push(s[s.len() - 1])
    }
}

/// What appending `child` onto a path holding `base` yields: an absolute
/// `child` replaces `base`, otherwise the two are joined with a single `/`.
pub open spec fn path_join(base: Seq<char>, child: Seq<char>) -> Seq<char> {
    if child.len() > 0 && child[0] == '/' {
        child
    } else if base.len() == 0 {
        child
    } else if base[base.len() - 1] == '/' {
        base + child
    } else {
        base + seq!['/'] + child
    }
}

/// A file name is recognized as video work when it ends in `.mp4` or
/// `.mov`, whatever the casing of the extension.
pub open spec fn is_video_name(s: Seq<char>) -> bool {
    &&& s.len() >= 4
    &&& s[s.len() - 4] == '.'
    &&& ({
        let c1 = s[s.len() - 3];
        let c2 = s[s.len() - 2];
        let c3 = s[s.len() - 1];
        ||| ((c1 == 'm' || c1 == 'M') && (c2 == 'p' || c2 == 'P') && c3 == '4')
        ||| ((c1 == 'm' || c1 == 'M') && (c2 == 'o' || c2 == 'O') && (c3 == 'v' || c3 == 'V'))
    })
}

/// The name under which a source file's transcode is published: its
/// identity key with the fixed output extension.
pub open spec fn output_name_of(name: Seq<char>) -> Seq<char> {
    key_of(name) + seq!['.', 'm', 'p', '4']
}

/// `sub` occurs in `s` starting at position `i`.
pub open spec fn is_substring_at(s: Seq<char>, sub: Seq<char>, i: int) -> bool {
    &&& 0 <= i
    &&& i + sub.len() <= s.len()
    &&& s.subrange(i, i + sub.len()) == sub
}

/// `sub` occurs somewhere in `s`.
pub open spec fn contains_seq(s: Seq<char>, sub: Seq<char>) -> bool {
    exists|i: int| is_substring_at(s, sub, i)
}

/// `first_dot` is pinned down by its characterization: no dot before `i`,
/// and a dot at `i` unless `i` is the length.
pub proof fn lemma_first_dot_is(s: Seq<char>, i: int)
    requires
        0 <= i <= s.len(),
        forall|j: int| 0 <= j < i ==> s[j] != '.',
        i < s.len() ==> s[i] == '.',
    ensures
        first_dot(s) == i,
    decreases s.len(),
{
    if s.len() > 0 && s[0] != '.' {
        assert forall|j: int| 0 <= j < i - 1 implies s.drop_first()[j] != '.' by {
            assert(s[j + 1] != '.');
        }
        lemma_first_dot_is(s.drop_first(), i - 1);
    }
}

/// `file_name_of` is pinned down by its characterization: no `/` from `i`
/// on, and a `/` just before `i` unless `i` is zero.
pub proof fn lemma_file_name_is(s: Seq<char>, i: int)
    requires
        0 <= i <= s.len(),
        forall|j: int| i <= j < s.len() ==> s[j] != '/',
        i > 0 ==> s[i - 1] == '/',
    ensures
        file_name_of(s) == s.subrange(i, s.len() as int),
    decreases s.len(),
{
    let n = s.len() as int;
    if s.len() == 0 {
        assert(file_name_of(s) =~= s.subrange(i, n));
    } else if i == n {
        assert(s[n - 1] == '/');
        assert(file_name_of(s) =~= s.subrange(i, n));
    } else {
        assert(s[n - 1] != '/');
        let t = s.drop_last();
        assert forall|j: int| i <= j < t.len() implies t[j] != '/' by {
            assert(s[j] != '/');
        }
        lemma_file_name_is(t, i);
        assert(file_name_of(s) =~= t.subrange(i, n - 1).push(s[n - 1]));
        assert(file_name_of(s) =~= s.subrange(i, n));
    }
}

/// The identity key of a file name: everything before the first `.`, or
/// the whole name if it holds no dot.
pub fn identity_key(name: &str) -> (r: String)
    ensures
        r@ == key_of(name@),
{
    let n = name.unicode_len();
    let mut i: usize = 0;
    while i < n && name.get_char(i) != '.'
        invariant
            0 <= i <= n,
            n == name@.len(),
            forall|j: int| 0 <= j < i ==> name@[j] != '.',
        decreases n - i,
    {
        i = i + 1;
    }
    proof {
        lemma_first_dot_is(name@, i as int);
    }
    let key = name.substring_char(0, i);
    key.to_owned()
}

/// The file name of a path string: everything after its last `/`.
pub fn file_name(path: &str) -> (r: String)
    ensures
        r@ == file_name_of(path@),
{
    let n = path.unicode_len();
    let mut i: usize = n;
    while i > 0 && path.get_char(i - 1) != '/'
        invariant
            0 <= i <= n,
            n == path@.len(),
            forall|j: int| i <= j < n ==> path@[j] != '/',
        decreases i,
    {
        i = i - 1;
    }
    proof {
        lemma_file_name_is(path@, i as int);
    }
    let name = path.substring_char(i, n);
    name.to_owned()
}

/// Appends `child` onto the path `base` the way a path push does: an
/// absolute `child` wins, otherwise one separator joins the two.
pub fn join_path(base: &str, child: &str) -> (r: String)
    ensures
        r@ == path_join(base@, child@),
{
    let child_len = child.unicode_len();
    if child_len > 0 && child.get_char(0) == '/' {
        return child.to_owned();
    }
    let base_len = base.unicode_len();
    if base_len == 0 {
        return child.to_owned();
    }
    if base.get_char(base_len - 1) == '/' {
        let r = base.to_owned().concat(child);
        return r;
    }
    let r = base.to_owned().concat("/").concat(child);
    proof {
        reveal_strlit("/");
        assert(r@ =~= base@ + seq!['/'] + child@);
    }
    r
}

/// Whether a file name is on the recognized-video allow-list: an `.mp4`
/// or `.mov` extension, compared without regard to case.
pub fn is_video(name: &str) -> (r: bool)
    ensures
        r == is_video_name(name@),
{
    let n = name.unicode_len();
    if n < 4 {
        return false;
    }
    if name.get_char(n - 4) != '.' {
        return false;
    }
    let c1 = name.get_char(n - 3);
    let c2 = name.get_char(n - 2);
    let c3 = name.get_char(n - 1);
    ((c1 == 'm' || c1 == 'M') && (c2 == 'p' || c2 == 'P') && c3 == '4') || ((c1 == 'm' || c1
        == 'M') && (c2 == 'o' || c2 == 'O') && (c3 == 'v' || c3 == 'V'))
}

/// The published name a recognized source file maps to: its identity key
/// with the fixed `.mp4` output extension.
pub fn output_name(name: &str) -> (r: String)
    ensures
        r@ == output_name_of(name@),
{
    let key = identity_key(name);
    let r = key.concat(".mp4");
    proof {
        reveal_strlit(".mp4");
        assert(r@ =~= key_of(name@) + seq!['.', 'm', 'p', '4']);
    }
    r
}

/// Whether `sub` occurs in `s` as a contiguous substring.
pub fn contains_substr(s: &str, sub: &str) -> (r: bool)
    ensures
        r == contains_seq(s@, sub@),
{
    let n = s.unicode_len();
    let m = sub.unicode_len();
    if m > n {
        proof {
            assert forall|i: int| !is_substring_at(s@, sub@, i) by {}
        }
        return false;
    }
    let mut i: usize = 0;
    while i <= n - m
        invariant
            0 <= i <= n - m + 1,
            m <= n,
            n == s@.len(),
            m == sub@.len(),
            forall|k: int| 0 <= k < i ==> !is_substring_at(s@, sub@, k),
        decreases n - m + 1 - i,
    {
        let mut j: usize = 0;
        while j < m && s.get_char(i + j) == sub.get_char(j)
            invariant
                0 <= j <= m,
                0 <= i <= n - m,
                n == s@.len(),
                m == sub@.len(),
                forall|k: int| 0 <= k < j ==> s@[i + k] == sub@[k],
            decreases m - j,
        {
            j = j + 1;
        }
        if j == m {
            proof {
                assert(s@.subrange(i as int, i + m) =~= sub@);
                assert(is_substring_at(s@, sub@, i as int));
            }
            return true;
        }
        i = i + 1;
    }
    proof {
        assert forall|k: int| !is_substring_at(s@, sub@, k) by {
            if 0 <= k < i {
                assert(!is_substring_at(s@, sub@, k));
            }
        }
    }
    false
}

} // verus!
