//! Paths as texts with `/` between their segments.

use crate::text::{chars_of, string_of};
use vstd::prelude::*;

verus! {

/// The length of `path` once its trailing separators are dropped.
pub open spec fn content_len(path: Seq<char>) -> int
    decreases path.len(),
{
    if path.len() > 0 && path.last() == '/' {
        content_len(path.drop_last())
    } else {
        path.len() as int
    }
}

/// Where the last segment of `path` begins: behind its last separator, or at
/// 0 where it has none.
pub open spec fn segment_start(path: Seq<char>) -> int
    decreases path.len(),
{
    if path.len() > 0 && path.last() != '/' {
        segment_start(path.drop_last())
    } else {
        path.len() as int
    }
}

/// The name that a path ends in: its last segment, trailing separators and
/// trailing `.` segments left aside. A path that is empty, names the root or
/// the current directory alone, or ends in `..` has no such name.
pub open spec fn final_segment(path: Seq<char>) -> Option<Seq<char>>
    decreases path.len(),
{
    let end = content_len(path);
    let start = segment_start(path.take(end));
    let segment = path.subrange(start, end);
    if end == 0 {
        None
    } else if segment == seq!['.'] {
        if 0 < start < path.len() {
            final_segment(path.take(start))
        } else {
            None
        }
    } else if segment == seq!['.', '.'] {
        None
    } else {
        Some(segment)
    }
}

/// The directory that holds what `path` names: the path without its last
/// segment and the separators before it, the root where nothing else is
/// left of an absolute path. A path that is empty or names the root has no
/// parent.
pub open spec fn parent(path: Seq<char>) -> Option<Seq<char>>
    decreases path.len(),
{
    let end = content_len(path);
    let start = segment_start(path.take(end));
    let segment = path.subrange(start, end);
    if end == 0 {
        None
    } else if segment == seq!['.'] && 0 < start < path.len() {
        parent(path.take(start))
    } else {
        let cut = content_len(path.take(start));
        if cut == 0 && start > 0 {
            Some(seq!['/'])
        } else {
            Some(path.take(cut))
        }
    }
}

/// `base` followed by `segment`, with one separator between them unless
/// `base` is empty or already ends in one.
pub open spec fn joined(base: Seq<char>, segment: Seq<char>) -> Seq<char> {
    if base.len() == 0 || base.last() == '/' {
        base + segment
    } else {
        base + seq!['/'] + segment
    }
}

/// What is joined to a base may be joined in two parts.
pub proof fn lemma_joined_in_parts(base: Seq<char>, first: Seq<char>, second: Seq<char>)
    ensures
        joined(base, first + second) == joined(base, first) + second,
{
    if base.len() == 0 || base.last() == '/' {
        assert(base + (first + second) =~= (base + first) + second);
    } else {
        assert(base + seq!['/'] + (first + second) =~= (base + seq!['/'] + first) + second);
    }
}

/// What `content_len` cuts off is separators, and all of them.
proof fn lemma_content_len_bounds(path: Seq<char>)
    ensures
        0 <= content_len(path) <= path.len(),
        content_len(path) > 0 ==> path[content_len(path) - 1] != '/',
        forall|i: int| content_len(path) <= i < path.len() ==> path[i] == '/',
    decreases path.len(),
{
    if path.len() > 0 && path.last() == '/' {
        let rest = path.drop_last();
        lemma_content_len_bounds(rest);
        assert forall|i: int| content_len(path) <= i < path.len() implies path[i] == '/' by {
            if i < rest.len() {
                assert(rest[i] == path[i]);
            }
        }
    }
}

/// The length of `chars[..len]` without its trailing separators.
fn content_end(chars: &Vec<char>, len: usize) -> (end: usize)
    requires
        len <= chars.len(),
    ensures
        end == content_len(chars@.take(len as int)),
        end <= len,
{
    let mut end: usize = len;
    while end > 0 && chars[end - 1] == '/'
        invariant
            end <= len <= chars.len(),
            content_len(chars@.take(end as int)) == content_len(chars@.take(len as int)),
        decreases end,
    {
        assert(chars@.take(end as int).drop_last() == chars@.take(end - 1));
        end -= 1;
    }
    end
}

/// Where the last segment of `chars[..len]` begins.
fn last_segment_start(chars: &Vec<char>, len: usize) -> (start: usize)
    requires
        len <= chars.len(),
    ensures
        start == segment_start(chars@.take(len as int)),
        start <= len,
{
    let mut start: usize = len;
    while start > 0 && chars[start - 1] != '/'
        invariant
            start <= len <= chars.len(),
            segment_start(chars@.take(start as int)) == segment_start(chars@.take(len as int)),
        decreases start,
    {
        assert(chars@.take(start as int).drop_last() == chars@.take(start - 1));
        start -= 1;
    }
    start
}

fn final_segment_of(chars: &Vec<char>, len: usize) -> (name: Option<String>)
    requires
        len <= chars.len(),
    ensures
        name.is_some() == final_segment(chars@.take(len as int)).is_some(),
        name matches Some(n) ==> final_segment(chars@.take(len as int)) == Some(n@),
    decreases len,
{
    let ghost path = chars@.take(len as int);
    let end = content_end(chars, len);
    let start = last_segment_start(chars, end);
    proof {
        assert(path.take(end as int) == chars@.take(end as int));
        assert(path.subrange(start as int, end as int) == chars@.subrange(start as int, end as int));
    }
    let ghost segment = chars@.subrange(start as int, end as int);
    if end == 0 {
        return None;
    }
    if end - start == 1 && chars[start] == '.' {
        assert(segment =~= seq!['.']);
        if start == 0 {
            return None;
        }
        assert(path.take(start as int) == chars@.take(start as int));
        return final_segment_of(chars, start);
    }
    if end - start == 2 && chars[start] == '.' && chars[start + 1] == '.' {
        assert(segment =~= seq!['.', '.']);
        return None;
    }
    proof {
        if segment == seq!['.'] {
            assert(segment.len() == 1 && segment[0] == '.');
        }
        if segment == seq!['.', '.'] {
            assert(segment.len() == 2 && segment[0] == '.' && segment[1] == '.');
        }
    }
    Some(string_of(chars, start, end))
}

/// The name that `path` ends in.
pub fn file_name(path: &str) -> (name: Option<String>)
    ensures
        name.is_some() == final_segment(path@).is_some(),
        name matches Some(n) ==> final_segment(path@) == Some(n@),
{
    let chars = chars_of(path);
    assert(chars@.take(chars.len() as int) == chars@);
    final_segment_of(&chars, chars.len())
}

fn parent_of(chars: &Vec<char>, len: usize) -> (dir: Option<String>)
    requires
        len <= chars.len(),
    ensures
        dir.is_some() == parent(chars@.take(len as int)).is_some(),
        dir matches Some(d) ==> parent(chars@.take(len as int)) == Some(d@),
    decreases len,
{
    let ghost path = chars@.take(len as int);
    let end = content_end(chars, len);
    let start = last_segment_start(chars, end);
    proof {
        assert(path.take(end as int) == chars@.take(end as int));
        assert(path.subrange(start as int, end as int) == chars@.subrange(start as int, end as int));
        assert(path.take(start as int) == chars@.take(start as int));
    }
    let ghost segment = chars@.subrange(start as int, end as int);
    if end == 0 {
        return None;
    }
    if end - start == 1 && chars[start] == '.' && start > 0 {
        assert(segment =~= seq!['.']);
        return parent_of(chars, start);
    }
    proof {
        if segment == seq!['.'] {
            assert(segment.len() == 1 && segment[0] == '.');
        }
    }
    let cut = content_end(chars, start);
    if cut == 0 && start > 0 {
        let root = string_of(chars, 0, 1);
        proof {
            lemma_content_len_bounds(chars@.take(start as int));
            assert(chars@.take(start as int)[0] == '/');
            assert(root@ =~= seq!['/']);
        }
        Some(root)
    } else {
        let dir = string_of(chars, 0, cut);
        assert(path.take(cut as int) == chars@.subrange(0, cut as int));
        Some(dir)
    }
}

/// The directory that holds what `path` names.
pub fn parent_dir(path: &str) -> (dir: Option<String>)
    ensures
        dir.is_some() == parent(path@).is_some(),
        dir matches Some(d) ==> parent(path@) == Some(d@),
{
    let chars = chars_of(path);
    assert(chars@.take(chars.len() as int) == chars@);
    parent_of(&chars, chars.len())
}

/// `base` with `segment` added behind it.
pub fn join(base: &str, segment: &str) -> (path: String)
    ensures
        path@ == joined(base@, segment@),
{
    let chars = chars_of(base);
    let mut path = base.to_owned();
    if chars.len() > 0 && chars[chars.len() - 1] != '/' {
        path.push('/');
    }
    path.append(segment);
    path
}

} // verus!
