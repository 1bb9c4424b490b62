//! The system include directories, read off what the C compiler reports
//! when it is asked to show its search list.

use crate::text::{from_chars, lines, split_lines, to_chars, trim, trim_chars, views};
use vstd::prelude::*;

verus! {

/// The line in front of the list of search directories.
pub open spec fn list_start() -> Seq<char> {
    "#include <...> search starts here:"@
}

/// The line behind the list of search directories.
pub open spec fn list_end() -> Seq<char> {
    "End of search list."@
}

/// Number of lines in front of the first line that equals `marker`.
pub open spec fn lines_before(ls: Seq<Seq<char>>, marker: Seq<char>) -> nat
    decreases ls.len(),
{
    if ls.len() > 0 && ls[0] != marker {
        1 + lines_before(ls.skip(1), marker)
    } else {
        0
    }
}

/// The lines behind the first line that equals `marker`, and none where no
/// line does.
pub open spec fn lines_after(ls: Seq<Seq<char>>, marker: Seq<char>) -> Seq<Seq<char>> {
    if lines_before(ls, marker) < ls.len() {
        ls.skip(lines_before(ls, marker) as int + 1)
    } else {
        Seq::empty()
    }
}

/// The search directories that the compiler's report `output` lists: the
/// lines between the start line and the end line, or the end of the report,
/// each without the whitespace around it.
pub open spec fn search_paths(output: Seq<char>) -> Seq<Seq<char>> {
    let listed = lines_after(lines(output), list_start());
    listed.take(lines_before(listed, list_end()) as int).map_values(|line: Seq<char>| trim(line))
}

/// The texts of a list of strings.
pub open spec fn texts(list: Seq<String>) -> Seq<Seq<char>> {
    list.map_values(|s: String| s@)
}

proof fn lemma_lines_before(ls: Seq<Seq<char>>, marker: Seq<char>, n: int)
    requires
        0 <= n <= ls.len(),
        forall|i: int| 0 <= i < n ==> #[trigger] ls[i] != marker,
        n == ls.len() || ls[n] == marker,
    ensures
        lines_before(ls, marker) == n,
    decreases n,
{
    if n > 0 {
        let t = ls.skip(1);
        assert forall|i: int| 0 <= i < n - 1 implies #[trigger] t[i] != marker by {
            assert(t[i] == ls[i + 1]);
        }
        lemma_lines_before(t, marker, n - 1);
    }
}

/// Whether `a` and `b` hold the same characters.
fn same_chars(a: &Vec<char>, b: &Vec<char>) -> (same: bool)
    ensures
        same == (a@ == b@),
{
    if a.len() != b.len() {
        return false;
    }
    let mut i: usize = 0;
    while i < a.len()
        invariant
            i <= a.len(),
            a.len() == b.len(),
            forall|k: int| 0 <= k < i ==> a@[k] == b@[k],
        decreases a.len() - i,
    {
        if a[i] != b[i] {
            return false;
        }
        i += 1;
    }
    assert(a@ =~= b@);
    true
}

/// The system include search directories that the compiler's report
/// `output` lists.
pub fn system_includes_search_paths(output: &str) -> (paths: Vec<String>)
    ensures
        texts(paths@) == search_paths(output@),
{
    let chars = to_chars(output);
    let ls = split_lines(&chars);
    let start = to_chars("#include <...> search starts here:");
    let end = to_chars("End of search list.");
    let ghost all = views(ls@);

    let mut i: usize = 0;
    while i < ls.len() && !same_chars(&ls[i], &start)
        invariant
            i <= ls.len(),
            all == views(ls@),
            forall|k: int| 0 <= k < i ==> #[trigger] all[k] != start@,
        decreases ls.len() - i,
    {
        i += 1;
    }
    proof {
        lemma_lines_before(all, start@, i as int);
    }
    let mut paths: Vec<String> = Vec::new();
    if i == ls.len() {
        assert(texts(paths@) =~= search_paths(output@));
        return paths;
    }
    let first = i + 1;
    let ghost listed = all.skip(first as int);
    let mut j: usize = first;
    while j < ls.len() && !same_chars(&ls[j], &end)
        invariant
            first <= j <= ls.len(),
            all == views(ls@),
            listed == all.skip(first as int),
            forall|k: int| 0 <= k < j - first ==> #[trigger] listed[k] != end@,
            texts(paths@) == listed.take(j - first).map_values(|line: Seq<char>| trim(line)),
        decreases ls.len() - j,
    {
        let trimmed = trim_chars(&ls[j]);
        let path = from_chars(&trimmed);
        let ghost before = paths@;
        paths.push(path);
        assert(texts(paths@) =~= texts(before).push(path@));
        assert(listed[j - first] == ls@[j as int]@);
        assert(listed.take(j + 1 - first).map_values(|line: Seq<char>| trim(line)) =~= listed.take(
            j - first,
        ).map_values(|line: Seq<char>| trim(line)).push(trim(listed[j - first])));
        j += 1;
    }
    proof {
        lemma_lines_before(listed, end@, j - first);
    }
    paths
}

} // verus!
