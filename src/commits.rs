//! The commit-log parser.
//!
//! The log is produced with
//! `log --pretty=format:%H|%an|%ae|%at|%cn|%ce|%ct|%s|%p --numstat`: a record
//! line of nine `|`-separated fields, followed by `numstat` lines
//! (`<added> <deleted> <path>`) that belong to it.

use vstd::prelude::*;
use crate::text::{
    chars_of, line_ranges, lines, parse_i64, parse_i64_at, parse_unsigned, parse_unsigned_at, pieces,
    ranges_within, split, split_ranges, string_of, word_ranges, words,
};
use crate::types::CommitInfo;

verus! {

/// A line that describes a commit: exactly nine `|`-separated fields.
pub open spec fn is_record_line(l: Seq<char>) -> bool {
    split(l, '|').len() == 9
}

/// A line that belongs to the record above it: not empty, and no `|`.
pub open spec fn is_stat_line(l: Seq<char>) -> bool {
    l.len() > 0 && !l.contains('|')
}

/// The indices of the record lines among the first `n` lines, in order.
pub open spec fn record_lines(ls: Seq<Seq<char>>, n: int) -> Seq<int>
    decreases n,
{
    if n <= 0 {
        Seq::empty()
    } else if is_record_line(ls[n - 1]) {
        record_lines(ls, n - 1).push(n - 1)
    } else {
        record_lines(ls, n - 1)
    }
}

/// The end of the run of stat lines that starts at line `j`.
pub open spec fn stats_end(ls: Seq<Seq<char>>, j: int) -> int
    decreases ls.len() - j,
{
    if 0 <= j < ls.len() && is_stat_line(ls[j]) {
        stats_end(ls, j + 1)
    } else {
        j
    }
}

/// A count of a numstat line: the word at `k` read as a `usize`, 0 where the
/// line has fewer than two words or the word is not a number (`-`).
pub open spec fn stat_count(l: Seq<char>, k: int) -> nat {
    let w = words(l);
    if w.len() >= 2 {
        match parse_unsigned(w[k], usize::MAX as nat) {
            Some(n) => n,
            None => 0,
        }
    } else {
        0
    }
}

/// The sum of `stat_count(_, k)` over lines `a..b`.
pub open spec fn stat_sum(ls: Seq<Seq<char>>, a: int, b: int, k: int) -> nat
    decreases b - a,
{
    if b <= a {
        0
    } else {
        stat_sum(ls, a, b - 1, k) + stat_count(ls[b - 1], k)
    }
}

/// A total as a `usize` holds it, staying at `usize::MAX` beyond it.
pub open spec fn saturated(n: nat) -> nat {
    if n <= usize::MAX {
        n
    } else {
        usize::MAX as nat
    }
}

/// A timestamp field: its `i64` value, or 0 where it is not one.
pub open spec fn timestamp_of(f: Seq<char>) -> int {
    match parse_i64(f) {
        Some(n) => n,
        None => 0,
    }
}

/// `c` is the commit that the record line `i` of `ls` describes.
pub open spec fn commit_from(c: CommitInfo, ls: Seq<Seq<char>>, i: int, repo: Seq<char>) -> bool {
    let f = split(ls[i], '|');
    let e = stats_end(ls, i + 1);
    &&& c.sha@ == f[0]
    &&& c.author_name@ == f[1]
    &&& c.author_email@ == f[2]
    &&& c.author_timestamp as int == timestamp_of(f[3])
    &&& c.committer_name@ == f[4]
    &&& c.committer_email@ == f[5]
    &&& c.committer_timestamp as int == timestamp_of(f[6])
    &&& c.message@ == f[7]
    &&& c.is_merge == f[8].contains(' ')
    &&& c.repo_name@ == repo
    &&& c.author_offset == 0
    &&& c.committer_offset == 0
    &&& c.additions as nat == saturated(stat_sum(ls, i + 1, e, 0))
    &&& c.deletions as nat == saturated(stat_sum(ls, i + 1, e, 1))
}

/// `cs` are the commits of the log `ls`: one for each record line, in order.
pub open spec fn commits_of(cs: Seq<CommitInfo>, ls: Seq<Seq<char>>, repo: Seq<char>) -> bool {
    let idx = record_lines(ls, ls.len() as int);
    &&& cs.len() == idx.len()
    &&& forall|k: int| 0 <= k < cs.len() ==> commit_from(#[trigger] cs[k], ls, idx[k], repo)
}

proof fn lemma_split_without_sep(s: Seq<char>, sep: char)
    requires
        !s.contains(sep),
    ensures
        split(s, sep).len() == 1,
    decreases s.len(),
{
    if s.len() > 0 {
        let t = s.drop_last();
        assert(!t.contains(sep)) by {
            if t.contains(sep) {
                let i = choose|i: int| 0 <= i < t.len() && t[i] == sep;
                assert(s[i] == sep);
            }
        }
        assert(s[s.len() - 1] != sep);
        lemma_split_without_sep(t, sep);
    }
}

/// Whether `v[lo..hi]` holds `c`.
pub fn contains_char(v: &Vec<char>, lo: usize, hi: usize, c: char) -> (r: bool)
    requires
        lo <= hi <= v.len(),
    ensures
        r == v@.subrange(lo as int, hi as int).contains(c),
{
    let mut i = lo;
    while i < hi
        invariant
            lo <= i <= hi <= v.len(),
            forall|k: int| lo <= k < i ==> v@[k] != c,
        decreases hi - i,
    {
        if v[i] == c {
            assert(v@.subrange(lo as int, hi as int)[i - lo] == c);
            return true;
        }
        i = i + 1;
    }
    assert forall|k: int| 0 <= k < hi - lo implies v@.subrange(lo as int, hi as int)[k] != c by {
        assert(v@.subrange(lo as int, hi as int)[k] == v@[lo + k]);
    }
    false
}

/// Whether `v[lo..hi]` is a stat line.
fn stat_line_at(v: &Vec<char>, lo: usize, hi: usize) -> (r: bool)
    requires
        lo <= hi <= v.len(),
    ensures
        r == is_stat_line(v@.subrange(lo as int, hi as int)),
{
    hi > lo && !contains_char(v, lo, hi, '|')
}

/// One count of the numstat line `v[lo..hi]`, as `stat_count` gives it.
fn stat_count_at(v: &Vec<char>, lo: usize, hi: usize, k: usize) -> (r: usize)
    requires
        lo <= hi <= v.len(),
        k < 2,
    ensures
        r as nat == stat_count(v@.subrange(lo as int, hi as int), k as int),
{
    let w = word_ranges(v, lo, hi);
    if w.len() >= 2 {
        let (a, b) = w[k];
        assert(pieces(v@, w@)[k as int] == v@.subrange(a as int, b as int));
        match parse_unsigned_at(v, a, b, usize::MAX as u64) {
            Some(n) => n as usize,
            None => 0,
        }
    } else {
        0
    }
}

/// Parses the output of the commit log for the repository `repo_name`.
/// Lines that are neither records nor the numstat lines of one are skipped;
/// additions and deletions are summed over the record's numstat lines, a
/// count that is not a number counting 0.
pub fn parse_git_log_output(output: &str, repo_name: &str) -> (r: Result<Vec<CommitInfo>, String>)
    ensures
        r is Ok,
        r matches Ok(cs) ==> commits_of(cs@, lines(output@), repo_name@),
{
    let v = chars_of(output);
    let lr = line_ranges(&v);
    let ghost ls = lines(v@);
    let n = lr.len();
    let mut commits: Vec<CommitInfo> = Vec::new();
    let mut i: usize = 0;
    while i < n
        invariant
            n == lr.len(),
            ls == lines(v@),
            v@ == output@,
            pieces(v@, lr@) == ls,
            ranges_within(lr@, 0, v.len() as int),
            0 <= i <= n,
            commits.len() == record_lines(ls, i as int).len(),
            forall|k: int|
                0 <= k < commits.len() ==> commit_from(
                    #[trigger] commits@[k],
                    ls,
                    record_lines(ls, i as int)[k],
                    repo_name@,
                ),
        decreases n - i,
    {
        let (a, b) = lr[i];
        assert(ls[i as int] == v@.subrange(a as int, b as int));
        let f = split_ranges(&v, a, b, '|');
        if f.len() != 9 {
            i = i + 1;
        } else {
            let ghost fs = split(ls[i as int], '|');
            assert(pieces(v@, f@) == fs);
            assert(forall|k: int| 0 <= k < 9 ==> fs[k] == v@.subrange(f@[k].0 as int, f@[k].1 as int));
            let sha = string_of(&v, f[0].0, f[0].1);
            let author_name = string_of(&v, f[1].0, f[1].1);
            let author_email = string_of(&v, f[2].0, f[2].1);
            let author_timestamp = match parse_i64_at(&v, f[3].0, f[3].1) {
                Some(t) => t,
                None => 0,
            };
            let committer_name = string_of(&v, f[4].0, f[4].1);
            let committer_email = string_of(&v, f[5].0, f[5].1);
            let committer_timestamp = match parse_i64_at(&v, f[6].0, f[6].1) {
                Some(t) => t,
                None => 0,
            };
            let message = string_of(&v, f[7].0, f[7].1);
            let is_merge = contains_char(&v, f[8].0, f[8].1, ' ');
            let mut additions: usize = 0;
            let mut deletions: usize = 0;
            let mut j = i + 1;
            while j < n && stat_line_at(&v, lr[j].0, lr[j].1)
                invariant
                    n == lr.len(),
                    pieces(v@, lr@) == ls,
                    ranges_within(lr@, 0, v.len() as int),
                    i < j <= n,
                    is_record_line(ls[i as int]),
                    stats_end(ls, i + 1) == stats_end(ls, j as int),
                    record_lines(ls, j as int) == record_lines(ls, i as int).push(i as int),
                    additions as nat == saturated(stat_sum(ls, i + 1, j as int, 0)),
                    deletions as nat == saturated(stat_sum(ls, i + 1, j as int, 1)),
                decreases n - j,
            {
                let (c, d) = lr[j];
                assert(ls[j as int] == v@.subrange(c as int, d as int));
                proof {
                    lemma_split_without_sep(ls[j as int], '|');
                }
                let add = stat_count_at(&v, c, d, 0);
                let del = stat_count_at(&v, c, d, 1);
                additions = additions.saturating_add(add);
                deletions = deletions.saturating_add(del);
                j = j + 1;
            }
            proof {
                if j < n {
                    let (c, d) = lr@[j as int];
                    assert(ls[j as int] == v@.subrange(c as int, d as int));
                }
            }
            assert(stats_end(ls, j as int) == j);
            let commit = CommitInfo {
                sha,
                repo_name: String::from_str(repo_name),
                message,
                author_name,
                author_email,
                author_timestamp,
                author_offset: 0,
                committer_name,
                committer_email,
                committer_timestamp,
                committer_offset: 0,
                additions,
                deletions,
                is_merge,
            };
            commits.push(commit);
            i = j;
        }
    }
    assert(n == ls.len());
    Ok(commits)
}

} // verus!
