//! The parser of the branch list, produced with `branch -a
//! --format=%(refname)|%(objectname)|%(subject)|%(authorname)|%(authoremail)|%(authordate:unix)|%(HEAD)`.

use vstd::prelude::*;
use crate::commits::timestamp_of;
use crate::text::{
    chars_of, has_prefix, lemma_prefix_range, starts_with, line_ranges, lines, parse_i64_at, pieces, ranges_within, split,
    split_ranges, string_of,
};
use crate::types::{opt_view, BranchInfo};

verus! {

/// A line that describes a branch: exactly seven `|`-separated fields.
pub open spec fn is_branch_line(l: Seq<char>) -> bool {
    split(l, '|').len() == 7
}

/// The indices of the branch lines among the first `n` lines, in order.
pub open spec fn branch_lines(ls: Seq<Seq<char>>, n: int) -> Seq<int>
    decreases n,
{
    if n <= 0 {
        Seq::empty()
    } else if is_branch_line(ls[n - 1]) {
        branch_lines(ls, n - 1).push(n - 1)
    } else {
        branch_lines(ls, n - 1)
    }
}

/// The name of the branch that `refname` names.
pub open spec fn branch_name(refname: Seq<char>) -> Seq<char> {
    if starts_with(refname, "refs/remotes/"@) {
        let rest = refname.skip("refs/remotes/"@.len() as int);
        let parts = split(rest, '/');
        if parts.len() >= 2 {
            rest.skip(parts[0].len() as int + 1)
        } else {
            refname
        }
    } else if starts_with(refname, "refs/heads/"@) {
        refname.skip("refs/heads/"@.len() as int)
    } else {
        refname
    }
}

/// The remote of a remote-tracking branch: the first segment after
/// `refs/remotes/`, where a branch name follows it.
pub open spec fn remote_name(refname: Seq<char>) -> Option<Seq<char>> {
    if starts_with(refname, "refs/remotes/"@) {
        let parts = split(refname.skip("refs/remotes/"@.len() as int), '/');
        if parts.len() >= 2 {
            Some(parts[0])
        } else {
            None
        }
    } else {
        None
    }
}

/// `b` is the branch that line `l` describes.
pub open spec fn branch_from(b: BranchInfo, l: Seq<char>) -> bool {
    let f = split(l, '|');
    &&& b.name@ == branch_name(f[0])
    &&& opt_view(b.remote_name) == remote_name(f[0])
    &&& b.is_remote == starts_with(f[0], "refs/remotes/"@)
    &&& b.commit_id@ == f[1]
    &&& b.commit_message@ == f[2]
    &&& b.author_name@ == f[3]
    &&& b.author_email@ == f[4]
    &&& b.author_time as int == timestamp_of(f[5])
    &&& b.is_head == (f[6] == seq!['*'])
}

/// `bs` are the branches of the list `ls`: one per branch line, in order.
pub open spec fn branches_of(bs: Seq<BranchInfo>, ls: Seq<Seq<char>>) -> bool {
    let idx = branch_lines(ls, ls.len() as int);
    &&& bs.len() == idx.len()
    &&& forall|k: int| 0 <= k < bs.len() ==> branch_from(#[trigger] bs[k], ls[idx[k]])
}

/// Parses the branch list. Lines without exactly seven fields are skipped.
pub fn parse_branch_output(output: &str) -> (r: Vec<BranchInfo>)
    ensures
        branches_of(r@, lines(output@)),
{
    let v = chars_of(output);
    let lr = line_ranges(&v);
    let ghost ls = lines(v@);
    let k_remotes = chars_of("refs/remotes/");
    let k_heads = chars_of("refs/heads/");
    let mut out: Vec<BranchInfo> = Vec::new();
    let n = lr.len();
    let mut i: usize = 0;
    while i < n
        invariant
            n == lr.len(),
            ls == lines(v@),
            v@ == output@,
            pieces(v@, lr@) == ls,
            ranges_within(lr@, 0, v.len() as int),
            k_remotes@ == "refs/remotes/"@,
            k_heads@ == "refs/heads/"@,
            0 <= i <= n,
            out.len() == branch_lines(ls, i as int).len(),
            forall|k: int|
                0 <= k < out.len() ==> branch_from(
                    #[trigger] out@[k],
                    ls[branch_lines(ls, i as int)[k]],
                ),
        decreases n - i,
    {
        let (a, b) = lr[i];
        let ghost l = ls[i as int];
        assert(l == v@.subrange(a as int, b as int));
        let f = split_ranges(&v, a, b, '|');
        if f.len() == 7 {
            let ghost fs = split(l, '|');
            assert(pieces(v@, f@) == fs);
            assert(forall|k: int| 0 <= k < 7 ==> fs[k] == v@.subrange(f@[k].0 as int, f@[k].1 as int));
            let (c, d) = f[0];
            let ghost refname = fs[0];
            proof {
                lemma_prefix_range(v@, c as int, d as int, "refs/remotes/"@);
                lemma_prefix_range(v@, c as int, d as int, "refs/heads/"@);
            }
            let is_remote = has_prefix(&v, c, d, &k_remotes);
            let name;
            let remote: Option<String>;
            if is_remote {
                let s = c + k_remotes.len();
                let parts = split_ranges(&v, s, d, '/');
                if parts.len() >= 2 {
                    let (p, q) = parts[0];
                    assert(pieces(v@, parts@)[0] == v@.subrange(p as int, q as int));
                    assert(v@.subrange(s as int, d as int).skip(q - p + 1) == v@.subrange(q + 1, d as int));
                    name = string_of(&v, q + 1, d);
                    remote = Some(string_of(&v, p, q));
                } else {
                    name = string_of(&v, c, d);
                    remote = None;
                }
            } else if has_prefix(&v, c, d, &k_heads) {
                name = string_of(&v, c + k_heads.len(), d);
                remote = None;
            } else {
                name = string_of(&v, c, d);
                remote = None;
            }
            let (h0, h1) = f[6];
            let is_head = h1 - h0 == 1 && v[h0] == '*';
            assert(is_head == (fs[6] == seq!['*'])) by {
                if h1 - h0 == 1 {
                    assert(fs[6].len() == 1 && fs[6][0] == v@[h0 as int]);
                    if fs[6] == seq!['*'] {
                        assert(fs[6][0] == '*');
                    }
                    if v@[h0 as int] == '*' {
                        assert(fs[6] =~= seq!['*']);
                    }
                }
            }
            let record = BranchInfo {
                name,
                remote_name: remote,
                is_remote,
                commit_id: string_of(&v, f[1].0, f[1].1),
                commit_message: string_of(&v, f[2].0, f[2].1),
                author_name: string_of(&v, f[3].0, f[3].1),
                author_email: string_of(&v, f[4].0, f[4].1),
                author_time: match parse_i64_at(&v, f[5].0, f[5].1) {
                    Some(t) => t,
                    None => 0,
                },
                is_head,
            };
            out.push(record);
        }
        i = i + 1;
    }
    out
}

} // verus!
