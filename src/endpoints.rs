//! The addresses of the forge's REST resources that the analyses read.

use vstd::prelude::*;
use crate::text::push_char;

verus! {

pub open spec fn digit_char(d: nat) -> char {
    seq!['0', '1', '2', '3', '4', '5', '6', '7', '8', '9'][d as int]
}

/// The decimal digits of `n`, without leading zeros.
pub open spec fn decimal(n: nat) -> Seq<char>
    decreases n,
{
    if n < 10 {
        seq![digit_char(n)]
    } else {
        decimal(n / 10).push(digit_char(n % 10))
    }
}

/// `n` in decimal, with a `-` where it is negative.
pub open spec fn signed_decimal(n: int) -> Seq<char> {
    if n < 0 {
        seq!['-'] + decimal((-n) as nat)
    } else {
        decimal(n as nat)
    }
}

/// Appends the decimal digits of `n` to `s`.
pub fn push_decimal(s: &mut String, n: u64)
    ensures
        final(s)@ == old(s)@ + decimal(n as nat),
    decreases n,
{
    if n >= 10 {
        push_decimal(s, n / 10);
    }
    let digits = vec!['0', '1', '2', '3', '4', '5', '6', '7', '8', '9'];
    let d = (n % 10) as usize;
    push_char(s, digits[d]);
    assert(digits@ == seq!['0', '1', '2', '3', '4', '5', '6', '7', '8', '9']);
    if n >= 10 {
        assert(old(s)@ + decimal(n as nat) == old(s)@ + decimal((n / 10) as nat) + seq![digit_char((n % 10) as nat)]);
    } else {
        assert(decimal(n as nat) == seq![digit_char(n as nat)]);
    }
}

fn push_signed(s: &mut String, n: i64)
    ensures
        final(s)@ == old(s)@ + signed_decimal(n as int),
{
    if n < 0 {
        push_char(s, '-');
        let m: u64 = if n == i64::MIN {
            0x8000_0000_0000_0000
        } else {
            (-n) as u64
        };
        push_decimal(s, m);
        assert(old(s)@ + seq!['-'] + decimal(m as nat) == old(s)@ + (seq!['-'] + decimal(m as nat)));
    } else {
        push_decimal(s, n as u64);
    }
}

/// The rate-limit resource.
pub fn rate_limit_url() -> (r: String)
    ensures
        r@ == "https://api.github.com/rate_limit"@,
{
    String::from_str("https://api.github.com/rate_limit")
}

/// `.../repos/{owner}/{repo}/` followed by `tail`.
fn repo_url(owner: &str, repo: &str, tail: &str) -> (r: String)
    ensures
        r@ == "https://api.github.com/repos/"@ + owner@ + "/"@ + repo@ + "/"@ + tail@,
{
    let mut r = String::from_str("https://api.github.com/repos/");
    r.append(owner);
    r.append("/");
    r.append(repo);
    r.append("/");
    r.append(tail);
    r
}

/// The page `page` of the collaborators of `owner/repo`.
pub fn collaborators_url(owner: &str, repo: &str, page: usize) -> (r: String)
    ensures
        r@ == "https://api.github.com/repos/"@ + owner@ + "/"@ + repo@ + "/"@
            + "collaborators?per_page=100&page="@ + decimal(page as nat),
{
    let mut r = repo_url(owner, repo, "collaborators?per_page=100&page=");
    push_decimal(&mut r, page as u64);
    r
}

/// The state filter of a listing: the one given, else `all`.
pub open spec fn state_or_all(state: Option<&str>) -> Seq<char> {
    match state {
        Some(s) => s@,
        None => "all"@,
    }
}

/// `{kind}?state={state}&per_page=100&page={page}` under `owner/repo`.
fn listing_url(owner: &str, repo: &str, kind: &str, state: Option<&str>, page: usize) -> (r: String)
    ensures
        r@ == "https://api.github.com/repos/"@ + owner@ + "/"@ + repo@ + "/"@ + kind@ + "?state="@
            + state_or_all(state) + "&per_page=100&page="@ + decimal(page as nat),
{
    let mut r = repo_url(owner, repo, kind);
    r.append("?state=");
    match state {
        Some(s) => r.append(s),
        None => r.append("all"),
    }
    r.append("&per_page=100&page=");
    push_decimal(&mut r, page as u64);
    r
}

/// The page `page` of the issues of `owner/repo` in `state` (`all` where
/// none is given).
pub fn issues_url(owner: &str, repo: &str, state: Option<&str>, page: usize) -> (r: String)
    ensures
        r@ == "https://api.github.com/repos/"@ + owner@ + "/"@ + repo@ + "/"@ + "issues"@ + "?state="@
            + state_or_all(state) + "&per_page=100&page="@ + decimal(page as nat),
{
    listing_url(owner, repo, "issues", state, page)
}

/// The page `page` of the pull requests of `owner/repo` in `state` (`all`
/// where none is given).
pub fn pulls_url(owner: &str, repo: &str, state: Option<&str>, page: usize) -> (r: String)
    ensures
        r@ == "https://api.github.com/repos/"@ + owner@ + "/"@ + repo@ + "/"@ + "pulls"@ + "?state="@
            + state_or_all(state) + "&per_page=100&page="@ + decimal(page as nat),
{
    listing_url(owner, repo, "pulls", state, page)
}

/// The pull request `number` of `owner/repo`, with its statistics.
pub fn pull_detail_url(owner: &str, repo: &str, number: i32) -> (r: String)
    ensures
        r@ == "https://api.github.com/repos/"@ + owner@ + "/"@ + repo@ + "/"@ + "pulls/"@
            + signed_decimal(number as int),
{
    let mut r = repo_url(owner, repo, "pulls/");
    push_signed(&mut r, number as i64);
    r
}

/// The user `login`.
pub fn user_url(login: &str) -> (r: String)
    ensures
        r@ == "https://api.github.com/users/"@ + login@,
{
    let mut r = String::from_str("https://api.github.com/users/");
    r.append(login);
    r
}

} // verus!
