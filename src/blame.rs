//! The parser of `blame --line-porcelain` output.
//!
//! Keyed lines set the fields of the record in progress; a line that begins
//! with a tab is a line of the file and emits one record carrying the values
//! seen most recently. The commit id is read from a line keyed `Commit `.

use vstd::prelude::*;
use crate::text::{
    chars_of, has_prefix, lemma_prefix_range, starts_with, line_ranges, lines, parse_unsigned, parse_unsigned_at, pieces,
    ranges_within, string_of, trim, trim_range,
};
use crate::types::BlameLineInfo;

verus! {

/// The values in effect at some point of the output.
pub ghost struct BlameState {
    pub commit_id: Seq<char>,
    pub author_name: Seq<char>,
    pub author_email: Seq<char>,
    pub orig_line_no: nat,
    pub final_line_no: nat,
}

/// The text after the key `p`, trimmed.
pub open spec fn value_after(l: Seq<char>, p: Seq<char>) -> Seq<char> {
    trim(l.skip(p.len() as int))
}

/// An address without the angle brackets around it, where it has both.
pub open spec fn unbracket(e: Seq<char>) -> Seq<char> {
    if e.len() >= 2 && e[0] == '<' && e.last() == '>' {
        e.subrange(1, e.len() - 1)
    } else {
        e
    }
}

/// A line number field: its value, or 0 where it is not a `usize`.
pub open spec fn line_no_of(s: Seq<char>) -> nat {
    match parse_unsigned(s, usize::MAX as nat) {
        Some(n) => n,
        None => 0,
    }
}

/// The values in effect after line `l`.
pub open spec fn blame_step(st: BlameState, l: Seq<char>) -> BlameState {
    if starts_with(l, "Commit "@) {
        BlameState { commit_id: value_after(l, "Commit "@), ..st }
    } else if starts_with(l, "author "@) {
        BlameState { author_name: value_after(l, "author "@), ..st }
    } else if starts_with(l, "author-mail "@) {
        BlameState { author_email: unbracket(value_after(l, "author-mail "@)), ..st }
    } else if starts_with(l, "original-line "@) {
        BlameState { orig_line_no: line_no_of(value_after(l, "original-line "@)), ..st }
    } else if starts_with(l, "final-line "@) {
        BlameState { final_line_no: line_no_of(value_after(l, "final-line "@)), ..st }
    } else {
        st
    }
}

/// The values in effect after the first `n` lines.
pub open spec fn blame_state(ls: Seq<Seq<char>>, n: int) -> BlameState
    decreases n,
{
    if n <= 0 {
        BlameState {
            commit_id: Seq::empty(),
            author_name: Seq::empty(),
            author_email: Seq::empty(),
            orig_line_no: 0,
            final_line_no: 0,
        }
    } else {
        blame_step(blame_state(ls, n - 1), ls[n - 1])
    }
}

pub open spec fn is_content_line(l: Seq<char>) -> bool {
    l.len() > 0 && l[0] == '\t'
}

/// The indices of the content lines among the first `n` lines, in order.
pub open spec fn content_lines(ls: Seq<Seq<char>>, n: int) -> Seq<int>
    decreases n,
{
    if n <= 0 {
        Seq::empty()
    } else if is_content_line(ls[n - 1]) {
        content_lines(ls, n - 1).push(n - 1)
    } else {
        content_lines(ls, n - 1)
    }
}

/// `b` is the record of the content line `i` of `ls`.
pub open spec fn blame_line_from(b: BlameLineInfo, ls: Seq<Seq<char>>, i: int) -> bool {
    let st = blame_state(ls, i);
    &&& b.commit_id@ == st.commit_id
    &&& b.author_name@ == st.author_name
    &&& b.author_email@ == st.author_email
    &&& b.orig_line_no as nat == st.orig_line_no
    &&& b.final_line_no as nat == st.final_line_no
    &&& b.line_content@ == ls[i].drop_first()
}

/// `bs` are the records of the output `ls`: one per content line, in order.
pub open spec fn blame_lines_of(bs: Seq<BlameLineInfo>, ls: Seq<Seq<char>>) -> bool {
    let idx = content_lines(ls, ls.len() as int);
    &&& bs.len() == idx.len()
    &&& forall|k: int| 0 <= k < bs.len() ==> blame_line_from(#[trigger] bs[k], ls, idx[k])
}

/// The trimmed value after a key of `klen` characters, on `v[lo..hi]`.
fn value_range(v: &Vec<char>, lo: usize, hi: usize, klen: usize) -> (r: (usize, usize))
    requires
        lo + klen <= hi <= v.len(),
    ensures
        lo <= r.0 <= r.1 <= hi,
        v@.subrange(r.0 as int, r.1 as int) == trim(v@.subrange(lo as int, hi as int).skip(klen as int)),
{
    assert(v@.subrange(lo as int, hi as int).skip(klen as int) == v@.subrange(lo + klen, hi as int));
    trim_range(v, lo + klen, hi)
}

fn line_no_at(v: &Vec<char>, lo: usize, hi: usize) -> (r: usize)
    requires
        lo <= hi <= v.len(),
    ensures
        r as nat == line_no_of(v@.subrange(lo as int, hi as int)),
{
    match parse_unsigned_at(v, lo, hi, usize::MAX as u64) {
        Some(n) => n as usize,
        None => 0,
    }
}

/// Parses `blame --line-porcelain` output into one record per line of the
/// file.
pub fn parse_blame_output(output: &str) -> (r: Result<Vec<BlameLineInfo>, String>)
    ensures
        r is Ok,
        r matches Ok(bs) ==> blame_lines_of(bs@, lines(output@)),
{
    let v = chars_of(output);
    let lr = line_ranges(&v);
    let ghost ls = lines(v@);
    let k_commit = chars_of("Commit ");
    let k_author = chars_of("author ");
    let k_mail = chars_of("author-mail ");
    let k_orig = chars_of("original-line ");
    let k_final = chars_of("final-line ");
    let mut commit_id = String::new();
    let mut author_name = String::new();
    let mut author_email = String::new();
    let mut orig_line_no: usize = 0;
    let mut final_line_no: usize = 0;
    let mut out: Vec<BlameLineInfo> = Vec::new();
    let n = lr.len();
    let mut i: usize = 0;
    while i < n
        invariant
            n == lr.len(),
            ls == lines(v@),
            v@ == output@,
            pieces(v@, lr@) == ls,
            ranges_within(lr@, 0, v.len() as int),
            k_commit@ == "Commit "@,
            k_author@ == "author "@,
            k_mail@ == "author-mail "@,
            k_orig@ == "original-line "@,
            k_final@ == "final-line "@,
            0 <= i <= n,
            commit_id@ == blame_state(ls, i as int).commit_id,
            author_name@ == blame_state(ls, i as int).author_name,
            author_email@ == blame_state(ls, i as int).author_email,
            orig_line_no as nat == blame_state(ls, i as int).orig_line_no,
            final_line_no as nat == blame_state(ls, i as int).final_line_no,
            out.len() == content_lines(ls, i as int).len(),
            forall|k: int|
                0 <= k < out.len() ==> blame_line_from(
                    #[trigger] out@[k],
                    ls,
                    content_lines(ls, i as int)[k],
                ),
        decreases n - i,
    {
        let (a, b) = lr[i];
        let ghost l = ls[i as int];
        assert(l == v@.subrange(a as int, b as int));
        proof {
            lemma_prefix_range(v@, a as int, b as int, "Commit "@);
            lemma_prefix_range(v@, a as int, b as int, "author "@);
            lemma_prefix_range(v@, a as int, b as int, "author-mail "@);
            lemma_prefix_range(v@, a as int, b as int, "original-line "@);
            lemma_prefix_range(v@, a as int, b as int, "final-line "@);
            reveal_strlit("Commit ");
            reveal_strlit("author ");
            reveal_strlit("author-mail ");
            reveal_strlit("original-line ");
            reveal_strlit("final-line ");
            if is_content_line(l) {
                assert(l.subrange(0, 1)[0] == '\t');
            }
        }
        assert(blame_state(ls, i + 1) == blame_step(blame_state(ls, i as int), l));
        if has_prefix(&v, a, b, &k_commit) {
            let (c, d) = value_range(&v, a, b, k_commit.len());
            commit_id = string_of(&v, c, d);
        } else if has_prefix(&v, a, b, &k_author) {
            let (c, d) = value_range(&v, a, b, k_author.len());
            author_name = string_of(&v, c, d);
        } else if has_prefix(&v, a, b, &k_mail) {
            let (c, d) = value_range(&v, a, b, k_mail.len());
            if d - c >= 2 && v[c] == '<' && v[d - 1] == '>' {
                assert(v@.subrange(c + 1, d - 1) == unbracket(v@.subrange(c as int, d as int)));
                author_email = string_of(&v, c + 1, d - 1);
            } else {
                author_email = string_of(&v, c, d);
            }
        } else if has_prefix(&v, a, b, &k_orig) {
            let (c, d) = value_range(&v, a, b, k_orig.len());
            orig_line_no = line_no_at(&v, c, d);
        } else if has_prefix(&v, a, b, &k_final) {
            let (c, d) = value_range(&v, a, b, k_final.len());
            final_line_no = line_no_at(&v, c, d);
        } else if b > a && v[a] == '\t' {
            assert(v@.subrange(a + 1, b as int) == l.drop_first());
            let record = BlameLineInfo {
                commit_id: commit_id.clone(),
                author_name: author_name.clone(),
                author_email: author_email.clone(),
                orig_line_no,
                final_line_no,
                line_content: string_of(&v, a + 1, b),
            };
            out.push(record);
        }
        i = i + 1;
    }
    Ok(out)
}

} // verus!
