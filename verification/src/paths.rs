//! Paths as text, with `/` between their segments.
//!
//! Only two things are ever asked of a path here: the name of the file it
//! ends in, and the path of a name inside a directory.

use vstd::prelude::*;
use vstd::string::*;

verus! {

/// The path without the separators, and without the `.` segments, that it
/// ends in: they name the same place as the path before them.
pub open spec fn spec_trim_tail(p: Seq<char>) -> Seq<char>
    decreases p.len(),
{
    if p.len() > 0 && p.last() == '/' {
        spec_trim_tail(p.drop_last())
    } else if p.len() >= 2 && p.last() == '.' && p[p.len() - 2] == '/' {
        spec_trim_tail(p.drop_last())
    } else {
        p
    }
}

/// Where the last segment of `p` begins: behind its last separator, or at 0.
pub open spec fn spec_segment_start(p: Seq<char>) -> int
    decreases p.len(),
{
    if p.len() == 0 || p.last() == '/' {
        p.len() as int
    } else {
        spec_segment_start(p.drop_last())
    }
}

/// `.` and `..` stand for a directory, never for a file in it.
pub open spec fn spec_is_dots(name: Seq<char>) -> bool {
    name =~= seq!['.'] || name =~= seq!['.', '.']
}

/// The name of the file that a path ends in, if it ends in one.
///
/// Trailing separators and trailing `.` segments are passed over. What is
/// left has no name if it is empty (the path was empty, or the root alone) or
/// if its last segment is `.` or `..`.
pub open spec fn spec_base_name(p: Seq<char>) -> Option<Seq<char>> {
    let t = spec_trim_tail(p);
    let name = t.subrange(spec_segment_start(t), t.len() as int);
    if t.len() == 0 || spec_is_dots(name) {
        None
    } else {
        Some(name)
    }
}

/// The path of `name` inside `dir`: one separator between the two, unless
/// `dir` is empty or brings its own.
pub open spec fn spec_join(dir: Seq<char>, name: Seq<char>) -> Seq<char> {
    if dir.len() == 0 {
        name
    } else if dir.last() == '/' {
        dir + name
    } else {
        dir + seq!['/'] + name
    }
}

/// A name that `spec_base_name` can give: not empty, free of separators, and
/// neither `.` nor `..`.
pub open spec fn spec_is_file_name(name: Seq<char>) -> bool {
    &&& name.len() > 0
    &&& forall|i: int| 0 <= i < name.len() ==> name[i] != '/'
    &&& !spec_is_dots(name)
}

proof fn lemma_trim_prefix(p: Seq<char>, end: int)
    requires
        0 <= end <= p.len(),
        spec_trim_tail(p) == spec_trim_tail(p.subrange(0, end)),
        end > 0,
        p[end - 1] == '/' || (end >= 2 && p[end - 1] == '.' && p[end - 2] == '/'),
    ensures
        spec_trim_tail(p) == spec_trim_tail(p.subrange(0, end - 1)),
{
    let q = p.subrange(0, end);
    assert(q.drop_last() =~= p.subrange(0, end - 1));
}

proof fn lemma_trim_done(p: Seq<char>, end: int)
    requires
        0 <= end <= p.len(),
        spec_trim_tail(p) == spec_trim_tail(p.subrange(0, end)),
        !(end > 0 && p[end - 1] == '/'),
        !(end >= 2 && p[end - 1] == '.' && p[end - 2] == '/'),
    ensures
        spec_trim_tail(p) == p.subrange(0, end),
{
}

proof fn lemma_segment_prefix(t: Seq<char>, start: int)
    requires
        0 < start <= t.len(),
        t[start - 1] != '/',
    ensures
        spec_segment_start(t.subrange(0, start)) == spec_segment_start(t.subrange(0, start - 1)),
{
    let q = t.subrange(0, start);
    assert(q.drop_last() =~= t.subrange(0, start - 1));
}

/// What `spec_trim_tail` leaves never ends in a separator.
pub proof fn lemma_trimmed_tail(p: Seq<char>)
    ensures
        spec_trim_tail(p).len() <= p.len(),
        spec_trim_tail(p).len() > 0 ==> spec_trim_tail(p).last() != '/',
    decreases p.len(),
{
    if p.len() > 0 && p.last() == '/' {
        lemma_trimmed_tail(p.drop_last());
    } else if p.len() >= 2 && p.last() == '.' && p[p.len() - 2] == '/' {
        lemma_trimmed_tail(p.drop_last());
    }
}

/// The last segment starts inside the path, behind a separator or at 0, and
/// holds no separator.
pub proof fn lemma_segment_start(p: Seq<char>)
    ensures
        0 <= spec_segment_start(p) <= p.len(),
        spec_segment_start(p) > 0 ==> p[spec_segment_start(p) - 1] == '/',
        forall|i: int| spec_segment_start(p) <= i < p.len() ==> p[i] != '/',
    decreases p.len(),
{
    if !(p.len() == 0 || p.last() == '/') {
        let q = p.drop_last();
        lemma_segment_start(q);
        assert forall|i: int| spec_segment_start(p) <= i < p.len() implies p[i] != '/' by {
            if i < q.len() {
                assert(q[i] == p[i]);
            }
        }
    }
}

/// The name of the file that `path` ends in, as `std::path::Path::file_name`
/// reads a path written with `/`.
pub fn base_name(path: &str) -> (name: Option<String>)
    ensures
        name is Some <==> spec_base_name(path@) is Some,
        name matches Some(n) ==> Some(n@) == spec_base_name(path@),
{
    let len = path.unicode_len();
    let mut end: usize = len;
    assert(path@.subrange(0, end as int) =~= path@);
    loop
        invariant
            len == path@.len(),
            end <= len,
            spec_trim_tail(path@) == spec_trim_tail(path@.subrange(0, end as int)),
        ensures
            end <= len,
            spec_trim_tail(path@) == path@.subrange(0, end as int),
        decreases end,
    {
        if end > 0 && path.get_char(end - 1) == '/' {
            proof {
                lemma_trim_prefix(path@, end as int);
            }
            end = end - 1;
        } else if end >= 2 && path.get_char(end - 1) == '.' && path.get_char(end - 2) == '/' {
            proof {
                lemma_trim_prefix(path@, end as int);
            }
            end = end - 1;
        } else {
            proof {
                lemma_trim_done(path@, end as int);
            }
            break ;
        }
    }
    if end == 0 {
        return None;
    }
    let ghost t = path@.subrange(0, end as int);
    let mut start: usize = end;
    assert(t.subrange(0, start as int) =~= t);
    while start > 0 && path.get_char(start - 1) != '/'
        invariant
            len == path@.len(),
            start <= end <= len,
            t == path@.subrange(0, end as int),
            spec_segment_start(t) == spec_segment_start(t.subrange(0, start as int)),
        decreases start,
    {
        proof {
            lemma_segment_prefix(t, start as int);
        }
        start = start - 1;
    }
    assert(spec_segment_start(t) == start) by {
        let q = t.subrange(0, start as int);
        assert(q.len() == 0 || q.last() == '/');
    }
    let ghost name = t.subrange(start as int, end as int);
    assert(name =~= path@.subrange(start as int, end as int));
    let dots = (end - start == 1 && path.get_char(start) == '.') || (end - start == 2
        && path.get_char(start) == '.' && path.get_char(start + 1) == '.');
    assert(dots == spec_is_dots(name)) by {
        if spec_is_dots(name) {
            if name =~= seq!['.'] {
                assert(name.len() == 1 && name[0] == '.');
            } else {
                assert(name.len() == 2 && name[0] == '.' && name[1] == '.');
            }
        }
    }
    if dots {
        None
    } else {
        Some(String::from_str(path.substring_char(start, end)))
    }
}

/// The path of `name` inside the directory `dir`.
pub fn join(dir: &str, name: &str) -> (path: String)
    ensures
        path@ == spec_join(dir@, name@),
{
    let len = dir.unicode_len();
    if len == 0 {
        assert(dir@ + name@ =~= name@);
        String::from_str(name)
    } else if dir.get_char(len - 1) == '/' {
        String::from_str(dir).concat(name)
    } else {
        proof {
            reveal_strlit("/");
        }
        assert("/"@ =~= seq!['/']);
        String::from_str(dir).concat("/").concat(name)
    }
}

/// Behind a directory part that is empty or ends in a separator, a name
/// without separators is the last segment.
proof fn lemma_segment_of_name(prefix: Seq<char>, name: Seq<char>)
    requires
        prefix.len() == 0 || prefix.last() == '/',
        forall|i: int| 0 <= i < name.len() ==> name[i] != '/',
    ensures
        spec_segment_start(prefix + name) == prefix.len(),
    decreases name.len(),
{
    let whole = prefix + name;
    if name.len() == 0 {
        assert(whole =~= prefix);
    } else {
        assert(whole.last() == name.last());
        assert(whole.drop_last() =~= prefix + name.drop_last());
        lemma_segment_of_name(prefix, name.drop_last());
    }
}

/// What `spec_base_name` gives is a file name: not empty, free of
/// separators, and neither `.` nor `..`.
pub proof fn law_base_name_is_a_file_name(path: Seq<char>)
    ensures
        spec_base_name(path) matches Some(name) ==> spec_is_file_name(name),
{
    let t = spec_trim_tail(path);
    lemma_trimmed_tail(path);
    lemma_segment_start(t);
}

/// The path of a file name inside a directory ends in that file name: what is
/// put into a directory under a name is found there under the same name.
pub proof fn law_join_ends_in_the_name(dir: Seq<char>, name: Seq<char>)
    requires
        spec_is_file_name(name),
    ensures
        spec_base_name(spec_join(dir, name)) == Some(name),
{
    let prefix = if dir.len() == 0 || dir.last() == '/' {
        dir
    } else {
        dir + seq!['/']
    };
    let whole = spec_join(dir, name);
    assert(whole =~= prefix + name);
    assert(whole.last() == name.last());
    if whole.len() >= 2 && whole.last() == '.' {
        if name.len() >= 2 {
            assert(whole[whole.len() - 2] == name[name.len() - 2]);
        } else {
            assert(name =~= seq!['.']);
        }
    }
    assert(spec_trim_tail(whole) == whole);
    lemma_segment_of_name(prefix, name);
    assert(whole.subrange(prefix.len() as int, whole.len() as int) =~= name);
}

} // verus!
