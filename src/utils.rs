//! The repository URL parser: `https://github.com/O/R` and
//! `git@github.com:O/R`, each with an optional `.git`, name the repository
//! `R` of the owner `O`.

use vstd::prelude::*;
use crate::text::{
    chars_of, has_prefix, lemma_split_two, pieces, split, split_ranges, starts_with, string_of,
};

verus! {

pub open spec fn ends_with(s: Seq<char>, p: Seq<char>) -> bool {
    p.len() <= s.len() && s.subrange(s.len() - p.len(), s.len() as int) == p
}

/// `s` without every trailing `.git` (`str::trim_end_matches`).
pub open spec fn strip_git(s: Seq<char>) -> Seq<char>
    decreases s.len(),
{
    if s.len() >= 4 && ends_with(s, ".git"@) {
        strip_git(s.subrange(0, s.len() - 4))
    } else {
        s
    }
}

/// What follows the host in a URL of one of the two accepted forms.
pub open spec fn url_rest(url: Seq<char>) -> Option<Seq<char>> {
    if starts_with(url, "https://github.com/"@) {
        Some(url.skip("https://github.com/"@.len() as int))
    } else if starts_with(url, "git@github.com:"@) {
        Some(url.skip("git@github.com:"@.len() as int))
    } else {
        None
    }
}

/// The owner and the repository name that `url` gives: the first two
/// `/`-separated segments after the host, the second without `.git`.
pub open spec fn repo_parts(url: Seq<char>) -> Option<(Seq<char>, Seq<char>)> {
    match url_rest(url) {
        Some(rest) => {
            let p = split(rest, '/');
            if p.len() >= 2 {
                Some((p[0], strip_git(p[1])))
            } else {
                None
            }
        },
        None => None,
    }
}

/// The slug `owner/name` that `url` gives.
pub open spec fn slug_of(url: Seq<char>) -> Option<Seq<char>> {
    match repo_parts(url) {
        Some((o, r)) => Some(o + "/"@ + r),
        None => None,
    }
}

proof fn lemma_prefix_skip(v: Seq<char>, p: Seq<char>)
    ensures
        starts_with(v, p) == (p.len() <= v.len() && v.subrange(0, p.len() as int) == p),
        p.len() <= v.len() ==> v.skip(p.len() as int) == v.subrange(p.len() as int, v.len() as int),
{
}

/// A URL made of the owner `o` and the name `r`, in either form and with or
/// without `.git`, gives back the slug `o/r`: where neither holds a `/` and
/// `r` does not itself end in `.git`.
pub proof fn lemma_slug_round_trip(o: Seq<char>, r: Seq<char>)
    requires
        !o.contains('/'),
        !r.contains('/'),
        !ends_with(r, ".git"@),
    ensures
        slug_of("https://github.com/"@ + o + "/"@ + r) == Some(o + "/"@ + r),
        slug_of("https://github.com/"@ + o + "/"@ + r + ".git"@) == Some(o + "/"@ + r),
        slug_of("git@github.com:"@ + o + "/"@ + r + ".git"@) == Some(o + "/"@ + r),
        slug_of("git@github.com:"@ + o + "/"@ + r) == Some(o + "/"@ + r),
{
    reveal_strlit("https://github.com/");
    reveal_strlit("git@github.com:");
    reveal_strlit("/");
    reveal_strlit(".git");
    let rg = r + ".git"@;
    assert(!rg.contains('/')) by {
        if rg.contains('/') {
            let i = choose|i: int| 0 <= i < rg.len() && rg[i] == '/';
            if i < r.len() {
                assert(r[i] == '/');
            } else {
                assert(".git"@[i - r.len()] == '/');
            }
        }
    }
    assert(strip_git(r) == r);
    assert(rg.subrange(rg.len() - 4, rg.len() as int) == ".git"@);
    assert(rg.subrange(0, rg.len() - 4) == r);
    assert(strip_git(rg) == r);
    lemma_split_two(o, r, '/');
    lemma_split_two(o, rg, '/');
    assert("/"@ == seq!['/']);
    let h = "https://github.com/"@;
    let g = "git@github.com:"@;
    assert((h + o + "/"@ + r).subrange(0, h.len() as int) == h);
    assert((h + o + "/"@ + r).skip(h.len() as int) == o + seq!['/'] + r);
    assert((h + o + "/"@ + r + ".git"@).subrange(0, h.len() as int) == h);
    assert((h + o + "/"@ + r + ".git"@).skip(h.len() as int) == o + seq!['/'] + rg);
    assert(!starts_with((g + o + "/"@ + r + ".git"@), h)) by {
        if h.len() <= (g + o + "/"@ + r + ".git"@).len() {
            assert((g + o + "/"@ + r + ".git"@).subrange(0, h.len() as int)[0] != h[0]);
        }
    }
    assert((g + o + "/"@ + r + ".git"@).subrange(0, g.len() as int) == g);
    assert((g + o + "/"@ + r + ".git"@).skip(g.len() as int) == o + seq!['/'] + rg);
    assert(!starts_with((g + o + "/"@ + r), h)) by {
        if h.len() <= (g + o + "/"@ + r).len() {
            assert((g + o + "/"@ + r).subrange(0, h.len() as int)[0] != h[0]);
        }
    }
    assert((g + o + "/"@ + r).subrange(0, g.len() as int) == g);
    assert((g + o + "/"@ + r).skip(g.len() as int) == o + seq!['/'] + r);
}

/// The end of `v[lo..hi]` once every trailing `.git` is removed.
fn strip_git_end(v: &Vec<char>, lo: usize, hi: usize) -> (r: usize)
    requires
        lo <= hi <= v.len(),
    ensures
        lo <= r <= hi,
        v@.subrange(lo as int, r as int) == strip_git(v@.subrange(lo as int, hi as int)),
{
    let suffix = chars_of(".git");
    proof {
        reveal_strlit(".git");
    }
    let mut e = hi;
    while e - lo >= 4 && has_prefix(v, e - 4, e, &suffix)
        invariant
            lo <= e <= hi <= v.len(),
            suffix@ == ".git"@,
            suffix.len() == 4,
            strip_git(v@.subrange(lo as int, hi as int)) == strip_git(v@.subrange(lo as int, e as int)),
        decreases e,
    {
        let ghost s = v@.subrange(lo as int, e as int);
        assert(s.subrange(s.len() - 4, s.len() as int) == v@.subrange(e - 4, e as int));
        assert(s.subrange(0, s.len() - 4) == v@.subrange(lo as int, e - 4));
        e = e - 4;
    }
    proof {
        let s = v@.subrange(lo as int, e as int);
        if s.len() >= 4 {
            assert(s.subrange(s.len() - 4, s.len() as int) == v@.subrange(e - 4, e as int));
        }
    }
    e
}

/// The owner and repository name of a repository URL, or `None` where the
/// URL has neither accepted form or fewer than two segments.
pub fn parse_repo_url(url: &str) -> (r: Option<(String, String)>)
    ensures
        match repo_parts(url@) {
            Some((o, n)) => r matches Some((ro, rn)) && ro@ == o && rn@ == n,
            None => r is None,
        },
{
    let v = chars_of(url);
    let https = chars_of("https://github.com/");
    let ssh = chars_of("git@github.com:");
    proof {
        lemma_prefix_skip(v@, "https://github.com/"@);
        lemma_prefix_skip(v@, "git@github.com:"@);
        assert(v@.subrange(0, v.len() as int) == v@);
    }
    let start;
    if has_prefix(&v, 0, v.len(), &https) {
        start = https.len();
    } else if has_prefix(&v, 0, v.len(), &ssh) {
        start = ssh.len();
    } else {
        return None;
    }
    let parts = split_ranges(&v, start, v.len(), '/');
    if parts.len() < 2 {
        return None;
    }
    let (a, b) = parts[0];
    let (c, d) = parts[1];
    assert(pieces(v@, parts@)[0] == v@.subrange(a as int, b as int));
    assert(pieces(v@, parts@)[1] == v@.subrange(c as int, d as int));
    let e = strip_git_end(&v, c, d);
    Some((string_of(&v, a, b), string_of(&v, c, e)))
}

/// The slug `owner/name` of a repository URL.
pub fn extract_repo_name(url: &str) -> (r: Result<String, String>)
    ensures
        match slug_of(url@) {
            Some(s) => r matches Ok(rs) && rs@ == s,
            None => r matches Err(e) && (if url_rest(url@) is Some {
                e@ == "Invalid GitHub URL format"@
            } else {
                e@ == "Unsupported URL format: "@ + url@
            }),
        },
{
    match parse_repo_url(url) {
        Some((owner, name)) => {
            let mut slug = owner;
            slug.append("/");
            slug.append(name.as_str());
            Ok(slug)
        },
        None => {
            let v = chars_of(url);
            let https = chars_of("https://github.com/");
            let ssh = chars_of("git@github.com:");
            proof {
                lemma_prefix_skip(v@, "https://github.com/"@);
                lemma_prefix_skip(v@, "git@github.com:"@);
                assert(v@.subrange(0, v.len() as int) == v@);
            }
            if has_prefix(&v, 0, v.len(), &https) || has_prefix(&v, 0, v.len(), &ssh) {
                Err(String::from_str("Invalid GitHub URL format"))
            } else {
                let mut e = String::from_str("Unsupported URL format: ");
                e.append(url);
                Err(e)
            }
        },
    }
}

} // verus!
