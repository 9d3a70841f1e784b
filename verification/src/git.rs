//! What the version-control backend is asked and what its answers mean.

use crate::paths::{parent, parent_dir};
use crate::text::{
    begins_with, chars_of, is_least, least, lemma_least_absent, lemma_least_found,
    lemma_without_leading_is_clean, matches_at, skip_leading, string_of, trim, trimmed,
    without_leading,
};
use vstd::prelude::*;

verus! {

/// One worktree of a repository, as the backend lists it.
#[derive(Debug, PartialEq, Eq)]
pub struct WorktreeInfo {
    /// The worktree's directory.
    pub path: String,
    /// The short name of the branch that is checked out there; empty where
    /// the listing names none.
    pub branch: String,
    /// Whether this is the main worktree.
    pub is_main: bool,
}

/// A `WorktreeInfo` with its texts as sequences.
pub struct WorktreeView {
    pub path: Seq<char>,
    pub branch: Seq<char>,
    pub is_main: bool,
}

impl View for WorktreeInfo {
    type V = WorktreeView;

    open spec fn view(&self) -> WorktreeView {
        WorktreeView { path: self.path@, branch: self.branch@, is_main: self.is_main }
    }
}

/// The views of a list of worktrees.
pub open spec fn worktree_views(list: Seq<WorktreeInfo>) -> Seq<WorktreeView> {
    Seq::new(list.len(), |i: int| list[i]@)
}

/// The places of `text` that hold a line feed.
pub open spec fn line_feeds(text: Seq<char>) -> spec_fn(int) -> bool {
    |i: int| text[i] == '\n'
}

/// `line` without the carriage return that it may end in.
pub open spec fn without_return(line: Seq<char>) -> Seq<char> {
    if line.len() > 0 && line.last() == '\r' {
        line.drop_last()
    } else {
        line
    }
}

/// The lines of `text`. A line ends at a line feed, which is no part of it,
/// nor is a carriage return just before the line feed. What follows the last
/// line feed is a line too, unless it is empty.
pub open spec fn lines_of(text: Seq<char>) -> Seq<Seq<char>>
    decreases text.len(),
{
    if text.len() == 0 {
        Seq::empty()
    } else {
        match least(line_feeds(text), text.len() as int) {
            Some(i) => if 0 <= i < text.len() {
                seq![without_return(text.take(i))] + lines_of(text.skip(i + 1))
            } else {
                Seq::empty()
            },
            None => seq![text],
        }
    }
}

/// The texts of a list of lines.
pub open spec fn line_texts(lines: Seq<Vec<char>>) -> Seq<Seq<char>> {
    Seq::new(lines.len(), |i: int| lines[i]@)
}

/// Cuts `text` into its lines.
pub fn split_lines(text: &Vec<char>) -> (lines: Vec<Vec<char>>)
    ensures
        line_texts(lines@) == lines_of(text@),
{
    let mut lines: Vec<Vec<char>> = Vec::new();
    let mut start: usize = 0;
    assert(text@.skip(0) == text@);
    assert(line_texts(lines@) + lines_of(text@) == lines_of(text@));
    while start < text.len()
        invariant
            start <= text.len(),
            line_texts(lines@) + lines_of(text@.skip(start as int)) == lines_of(text@),
        decreases text.len() - start,
    {
        let ghost rest = text@.skip(start as int);
        let ghost feeds = line_feeds(rest);
        let ghost before = line_texts(lines@);
        let mut end: usize = start;
        while end < text.len() && text[end] != '\n'
            invariant
                start <= end <= text.len(),
                rest == text@.skip(start as int),
                feeds == line_feeds(rest),
                forall|j: int| 0 <= j < end - start ==> !#[trigger] feeds(j),
            decreases text.len() - end,
        {
            end += 1;
        }
        let mut stop: usize = end;
        if end < text.len() && stop > start && text[stop - 1] == '\r' {
            stop -= 1;
        }
        let mut line: Vec<char> = Vec::new();
        let mut i: usize = start;
        while i < stop
            invariant
                start <= i <= stop <= text.len(),
                line@ == text@.subrange(start as int, i as int),
            decreases stop - i,
        {
            line.push(text[i]);
            assert(text@.subrange(start as int, i + 1) == text@.subrange(
                start as int,
                i as int,
            ).push(text@[i as int]));
            i += 1;
        }
        lines.push(line);
        proof {
            let found = line@;
            assert(line_texts(lines@) == before.push(found));
            if end < text.len() {
                assert(feeds(end - start));
                assert(is_least(feeds, rest.len() as int, end - start));
                lemma_least_found(feeds, rest.len() as int, end - start);
                assert(rest.take(end - start) == text@.subrange(start as int, end as int));
                assert(found == without_return(rest.take(end - start)));
                assert(rest.skip(end - start + 1) == text@.skip(end + 1));
                assert(before.push(found) + lines_of(text@.skip(end + 1)) == before + (seq![found]
                    + lines_of(text@.skip(end + 1))));
            } else {
                lemma_least_absent(feeds, rest.len() as int);
                assert(found == rest);
                assert(lines_of(text@.skip(text.len() as int)) == Seq::<Seq<char>>::empty());
                assert(before.push(found) + Seq::<Seq<char>>::empty() == before + seq![found]);
            }
        }
        if end < text.len() {
            start = end + 1;
        } else {
            start = end;
        }
    }
    assert(lines_of(text@.skip(text.len() as int)) == Seq::<Seq<char>>::empty());
    assert(line_texts(lines@) + Seq::<Seq<char>>::empty() == line_texts(lines@));
    lines
}

/// What a line of a worktree listing says.
#[derive(Debug, Clone, Copy, PartialEq, Eq, Structural)]
pub enum LineKind {
    /// `worktree <path>`: a record begins.
    Path,
    /// `branch <ref>`: the branch of the record.
    Branch,
    /// `bare`: the record is the main worktree.
    Bare,
    /// An empty line: the record ends.
    Blank,
    /// Anything else, which is passed over.
    Other,
}

/// The kind of a line, by what it begins with.
pub open spec fn line_kind(line: Seq<char>) -> LineKind {
    if begins_with(line, "worktree "@) {
        LineKind::Path
    } else if begins_with(line, "branch "@) {
        LineKind::Branch
    } else if begins_with(line, "bare"@) {
        LineKind::Bare
    } else if line.len() == 0 {
        LineKind::Blank
    } else {
        LineKind::Other
    }
}

/// The path that a `worktree` line names.
pub open spec fn path_of(line: Seq<char>) -> Seq<char> {
    without_leading(line, "worktree "@)
}

/// The branch that a `branch` line names, without the `refs/heads/` that
/// marks a ref as a branch.
pub open spec fn branch_of(line: Seq<char>) -> Seq<char> {
    without_leading(without_leading(line, "branch "@), "refs/heads/"@)
}

/// How many lines belong to a record whose first line has been taken off:
/// those up to the next empty line or the next `worktree` line.
pub open spec fn body_len(lines: Seq<Seq<char>>) -> int
    decreases lines.len(),
{
    if lines.len() == 0 || line_kind(lines[0]) == LineKind::Path || line_kind(lines[0])
        == LineKind::Blank {
        0
    } else {
        1 + body_len(lines.drop_first())
    }
}

/// The branch named by the last `branch` line among `body`, if there is
/// one.
pub open spec fn last_branch(body: Seq<Seq<char>>) -> Option<Seq<char>>
    decreases body.len(),
{
    if body.len() == 0 {
        None
    } else if line_kind(body.last()) == LineKind::Branch {
        Some(branch_of(body.last()))
    } else {
        last_branch(body.drop_last())
    }
}

/// Whether a `bare` line is among `body`.
pub open spec fn has_bare(body: Seq<Seq<char>>) -> bool {
    exists|i: int| 0 <= i < body.len() && line_kind(#[trigger] body[i]) == LineKind::Bare
}

/// What a record yields: one worktree at the path that its first line
/// names. A record that names a branch is on that branch, and is the main
/// worktree where a `bare` line says so. A record that names no branch, as
/// a bare repository or a detached checkout does, stands for the main
/// worktree; the empty text is its branch, which is no branch's name.
pub open spec fn record(head: Seq<char>, body: Seq<Seq<char>>) -> WorktreeView {
    match last_branch(body) {
        Some(branch) => WorktreeView { path: path_of(head), branch, is_main: has_bare(body) },
        None => WorktreeView { path: path_of(head), branch: Seq::empty(), is_main: true },
    }
}

/// The worktrees that the lines of a listing describe, one for each record
/// and in the records' order. A record begins at a `worktree` line and runs
/// up to the next empty line or the next `worktree` line. Lines outside
/// every record are passed over.
pub open spec fn worktrees_of(lines: Seq<Seq<char>>) -> Seq<WorktreeView>
    decreases lines.len(),
{
    if lines.len() == 0 {
        Seq::empty()
    } else if line_kind(lines[0]) == LineKind::Path {
        let n = body_len(lines.drop_first());
        if 0 <= n < lines.len() {
            seq![record(lines[0], lines.subrange(1, 1 + n))] + worktrees_of(lines.skip(1 + n))
        } else {
            Seq::empty()
        }
    } else {
        worktrees_of(lines.drop_first())
    }
}

/// How many of `lines` begin a record.
pub open spec fn path_lines(lines: Seq<Seq<char>>) -> nat
    decreases lines.len(),
{
    if lines.len() == 0 {
        0
    } else if line_kind(lines[0]) == LineKind::Path {
        path_lines(lines.drop_first()) + 1
    } else {
        path_lines(lines.drop_first())
    }
}

/// A record's body never runs past the lines that are there.
proof fn lemma_body_len_bounds(lines: Seq<Seq<char>>)
    ensures
        0 <= body_len(lines) <= lines.len(),
    decreases lines.len(),
{
    if !(lines.len() == 0 || line_kind(lines[0]) == LineKind::Path || line_kind(lines[0])
        == LineKind::Blank) {
        lemma_body_len_bounds(lines.drop_first());
    }
}

/// No line of a record's body begins a record.
proof fn lemma_body_begins_no_record(lines: Seq<Seq<char>>)
    ensures
        0 <= body_len(lines) <= lines.len(),
        path_lines(lines) == path_lines(lines.skip(body_len(lines))),
    decreases lines.len(),
{
    lemma_body_len_bounds(lines);
    if lines.len() == 0 || line_kind(lines[0]) == LineKind::Path || line_kind(lines[0])
        == LineKind::Blank {
        assert(lines.skip(0) == lines);
    } else {
        let rest = lines.drop_first();
        lemma_body_begins_no_record(rest);
        assert(rest.skip(body_len(rest)) == lines.skip(body_len(lines)));
    }
}

/// A listing describes one worktree for each record: as many as it has
/// `worktree` lines.
pub proof fn lemma_one_worktree_per_record(lines: Seq<Seq<char>>)
    ensures
        worktrees_of(lines).len() == path_lines(lines),
    decreases lines.len(),
{
    if lines.len() > 0 {
        let tail = lines.drop_first();
        if line_kind(lines[0]) == LineKind::Path {
            let n = body_len(tail);
            lemma_body_begins_no_record(tail);
            assert(lines.skip(1 + n) == tail.skip(n));
            lemma_one_worktree_per_record(lines.skip(1 + n));
        } else {
            lemma_one_worktree_per_record(tail);
        }
    }
}

/// The branch that a `branch` line names is a short name: `refs/heads/`
/// does not begin it.
pub proof fn lemma_branch_is_short(line: Seq<char>)
    ensures
        !begins_with(branch_of(line), "refs/heads/"@),
{
    reveal_strlit("refs/heads/");
    lemma_without_leading_is_clean(without_leading(line, "branch "@), "refs/heads/"@);
}

/// The kind of `line`.
fn classify(line: &Vec<char>) -> (kind: LineKind)
    ensures
        kind == line_kind(line@),
{
    if matches_at(line, &chars_of("worktree "), 0) {
        LineKind::Path
    } else if matches_at(line, &chars_of("branch "), 0) {
        LineKind::Branch
    } else if matches_at(line, &chars_of("bare"), 0) {
        LineKind::Bare
    } else if line.len() == 0 {
        LineKind::Blank
    } else {
        LineKind::Other
    }
}

/// The path named by a `worktree` line.
fn read_path(line: &Vec<char>) -> (path: String)
    ensures
        path@ == path_of(line@),
{
    assert(line@.skip(0) == line@);
    let start = skip_leading(line, &chars_of("worktree "), 0);
    assert(line@.skip(start as int) == line@.subrange(start as int, line.len() as int));
    string_of(line, start, line.len())
}

/// The branch named by a `branch` line.
fn read_branch(line: &Vec<char>) -> (branch: String)
    ensures
        branch@ == branch_of(line@),
{
    assert(line@.skip(0) == line@);
    let named = skip_leading(line, &chars_of("branch "), 0);
    let start = skip_leading(line, &chars_of("refs/heads/"), named);
    assert(line@.skip(start as int) == line@.subrange(start as int, line.len() as int));
    string_of(line, start, line.len())
}

/// Reads the worktrees out of the lines of a listing.
fn read_worktrees(lines: &Vec<Vec<char>>) -> (list: Vec<WorktreeInfo>)
    ensures
        worktree_views(list@) == worktrees_of(line_texts(lines@)),
{
    let ghost all = line_texts(lines@);
    let mut list: Vec<WorktreeInfo> = Vec::new();
    let mut i: usize = 0;
    assert(all.skip(0) == all);
    assert(worktree_views(list@) + worktrees_of(all) == worktrees_of(all));
    while i < lines.len()
        invariant
            i <= lines.len(),
            all == line_texts(lines@),
            worktree_views(list@) + worktrees_of(all.skip(i as int)) == worktrees_of(all),
        decreases lines.len() - i,
    {
        let ghost rest = all.skip(i as int);
        let ghost before = worktree_views(list@);
        assert(rest[0] == lines@[i as int]@);
        if classify(&lines[i]) == LineKind::Path {
            let ghost tail = rest.drop_first();
            let mut branch: Option<String> = None;
            let mut bare = false;
            let mut j: usize = i + 1;
            assert(tail == all.skip(i + 1));
            assert(all.subrange(i + 1, j as int) == Seq::<Seq<char>>::empty());
            loop
                invariant
                    i < j <= lines.len(),
                    all == line_texts(lines@),
                    rest == all.skip(i as int),
                    tail == all.skip(i + 1),
                    body_len(tail) == (j - i - 1) + body_len(all.skip(j as int)),
                    match branch {
                        Some(name) => last_branch(all.subrange(i + 1, j as int)) == Some(name@),
                        None => last_branch(all.subrange(i + 1, j as int)) is None,
                    },
                    bare == has_bare(all.subrange(i + 1, j as int)),
                ensures
                    i < j <= lines.len(),
                    body_len(tail) == j - i - 1,
                    match branch {
                        Some(name) => last_branch(all.subrange(i + 1, j as int)) == Some(name@),
                        None => last_branch(all.subrange(i + 1, j as int)) is None,
                    },
                    bare == has_bare(all.subrange(i + 1, j as int)),
                decreases lines.len() - j,
            {
                if j >= lines.len() {
                    assert(all.skip(j as int).len() == 0);
                    break;
                }
                let ghost ahead = all.skip(j as int);
                assert(ahead[0] == lines@[j as int]@);
                let kind = classify(&lines[j]);
                if kind == LineKind::Path || kind == LineKind::Blank {
                    break;
                }
                let ghost body = all.subrange(i + 1, j as int);
                let ghost longer = all.subrange(i + 1, j + 1);
                proof {
                    assert(ahead.drop_first() == all.skip(j + 1));
                    assert(longer.drop_last() == body);
                    assert(longer.last() == lines@[j as int]@);
                    if has_bare(body) {
                        let w = choose|w: int|
                            0 <= w < body.len() && line_kind(#[trigger] body[w]) == LineKind::Bare;
                        assert(longer[w] == body[w]);
                    }
                    if has_bare(longer) && kind != LineKind::Bare {
                        let w = choose|w: int|
                            0 <= w < longer.len() && line_kind(#[trigger] longer[w])
                                == LineKind::Bare;
                        assert(w < body.len());
                        assert(body[w] == longer[w]);
                    }
                }
                if kind == LineKind::Branch {
                    branch = Some(read_branch(&lines[j]));
                } else if kind == LineKind::Bare {
                    bare = true;
                    assert(line_kind(longer[j - i - 1]) == LineKind::Bare);
                }
                j += 1;
            }
            proof {
                lemma_body_len_bounds(tail);
                assert(rest.subrange(1, 1 + (j - i - 1)) == all.subrange(i + 1, j as int));
                assert(rest.skip(1 + (j - i - 1)) == all.skip(j as int));
            }
            let ghost body = all.subrange(i + 1, j as int);
            let path = read_path(&lines[i]);
            let worktree = match branch {
                Some(name) => WorktreeInfo { path, branch: name, is_main: bare },
                None => WorktreeInfo { path, branch: String::new(), is_main: true },
            };
            list.push(worktree);
            proof {
                let entry = record(rest[0], body);
                assert(worktree_views(list@) == before.push(entry));
                assert(before.push(entry) + worktrees_of(all.skip(j as int)) == before + (seq![entry]
                    + worktrees_of(all.skip(j as int))));
            }
            i = j;
        } else {
            assert(rest.drop_first() == all.skip(i + 1));
            i += 1;
        }
    }
    assert(worktrees_of(all.skip(lines.len() as int)) == Seq::<WorktreeView>::empty());
    assert(worktree_views(list@) + Seq::<WorktreeView>::empty() == worktree_views(list@));
    list
}

/// Reads the backend's listing of worktrees, in its line-by-line form.
pub fn parse_worktree_list(output: &str) -> (list: Vec<WorktreeInfo>)
    ensures
        worktree_views(list@) == worktrees_of(lines_of(output@)),
{
    let chars = chars_of(output);
    let lines = split_lines(&chars);
    read_worktrees(&lines)
}

/// The arguments that ask the backend for the directory that a repository
/// and its worktrees share, as an absolute path.
pub open spec fn common_dir_request() -> Seq<Seq<char>> {
    seq!["rev-parse"@, "--path-format=absolute"@, "--git-common-dir"@]
}

/// The arguments that ask the backend for the list of worktrees, in the
/// form that `parse_worktree_list` reads.
pub open spec fn list_request() -> Seq<Seq<char>> {
    seq!["worktree"@, "list"@, "--porcelain"@]
}

/// The arguments that ask the backend for a worktree at `path`: for the
/// branch `branch` as it exists, or together with a new branch of that
/// name.
pub open spec fn add_request(path: Seq<char>, branch: Seq<char>, create_branch: bool) -> Seq<
    Seq<char>,
> {
    if create_branch {
        seq!["worktree"@, "add"@, "-b"@, branch, path]
    } else {
        seq!["worktree"@, "add"@, path, branch]
    }
}

/// The arguments that ask the backend to remove the worktree at `path`.
pub open spec fn remove_request(path: Seq<char>) -> Seq<Seq<char>> {
    seq!["worktree"@, "remove"@, path]
}

/// The texts of a list of arguments.
pub open spec fn argument_texts(arguments: Seq<String>) -> Seq<Seq<char>> {
    Seq::new(arguments.len(), |i: int| arguments[i]@)
}

/// The arguments that ask for the shared directory.
pub fn common_dir_args() -> (arguments: Vec<String>)
    ensures
        argument_texts(arguments@) == common_dir_request(),
{
    let mut arguments: Vec<String> = Vec::new();
    arguments.push("rev-parse".to_owned());
    arguments.push("--path-format=absolute".to_owned());
    arguments.push("--git-common-dir".to_owned());
    assert(argument_texts(arguments@) =~= common_dir_request());
    arguments
}

/// The arguments that ask for the list of worktrees.
pub fn list_worktrees_args() -> (arguments: Vec<String>)
    ensures
        argument_texts(arguments@) == list_request(),
{
    let mut arguments: Vec<String> = Vec::new();
    arguments.push("worktree".to_owned());
    arguments.push("list".to_owned());
    arguments.push("--porcelain".to_owned());
    assert(argument_texts(arguments@) =~= list_request());
    arguments
}

/// The arguments that ask for a worktree.
pub fn add_worktree_args(path: &str, branch: &str, create_branch: bool) -> (arguments: Vec<String>)
    ensures
        argument_texts(arguments@) == add_request(path@, branch@, create_branch),
{
    let mut arguments: Vec<String> = Vec::new();
    arguments.push("worktree".to_owned());
    arguments.push("add".to_owned());
    if create_branch {
        arguments.push("-b".to_owned());
        arguments.push(branch.to_owned());
        arguments.push(path.to_owned());
    } else {
        arguments.push(path.to_owned());
        arguments.push(branch.to_owned());
    }
    assert(argument_texts(arguments@) =~= add_request(path@, branch@, create_branch));
    arguments
}

/// The arguments that ask for a worktree's removal.
pub fn remove_worktree_args(path: &str) -> (arguments: Vec<String>)
    ensures
        argument_texts(arguments@) == remove_request(path@),
{
    let mut arguments: Vec<String> = Vec::new();
    arguments.push("worktree".to_owned());
    arguments.push("remove".to_owned());
    arguments.push(path.to_owned());
    assert(argument_texts(arguments@) =~= remove_request(path@));
    arguments
}

/// What is reported when the backend does not add a worktree: what it wrote
/// to its error output, behind a few words.
pub fn add_failure(stderr: &str) -> (report: String)
    ensures
        report@ == "Failed to add worktree: "@ + stderr@,
{
    let mut report = "Failed to add worktree: ".to_owned();
    report.append(stderr);
    report
}

/// What is reported when the backend does not remove a worktree.
pub fn remove_failure(stderr: &str) -> (report: String)
    ensures
        report@ == "Failed to remove worktree: "@ + stderr@,
{
    let mut report = "Failed to remove worktree: ".to_owned();
    report.append(stderr);
    report
}

/// The root of the main repository, given the directory that the repository
/// and its worktrees share: the directory that holds it. The white space
/// around the backend's answer is no part of the path.
pub open spec fn main_root_of(answer: Seq<char>) -> Option<Seq<char>> {
    parent(trimmed(answer))
}

/// Reads the root of the main repository out of the backend's answer to
/// `common_dir_args`.
pub fn main_repo_root(answer: &str) -> (root: Option<String>)
    ensures
        root.is_some() == main_root_of(answer@).is_some(),
        root matches Some(dir) ==> main_root_of(answer@) == Some(dir@),
{
    let shared = trim(answer);
    parent_dir(shared.as_str())
}

} // verus!
