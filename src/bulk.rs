//! Bulk fan-out over repositories: every URL gets its own result, and a
//! failure to set the client up is reported under every URL.

use vstd::prelude::*;

verus! {

/// The message under which a failure to set the client up is reported.
pub fn client_error_message(cause: &str) -> (r: String)
    ensures
        r@ == "Failed to create GitHub client: "@ + cause@,
{
    let mut r = String::from_str("Failed to create GitHub client: ");
    r.append(cause);
    r
}

/// Every URL of `urls`, in order, with the same error `message`.
pub fn all_failed<T>(urls: &Vec<String>, message: &str) -> (r: Vec<(String, Result<Vec<T>, String>)>)
    ensures
        r.len() == urls.len(),
        forall|i: int| 0 <= i < r.len() ==> (#[trigger] r@[i]).0@ == urls@[i]@ && (r@[i].1 matches Err(e) && e@ == message@),
{
    let mut r: Vec<(String, Result<Vec<T>, String>)> = Vec::new();
    let mut i: usize = 0;
    while i < urls.len()
        invariant
            i <= urls.len(),
            r.len() == i,
            forall|k: int| 0 <= k < i ==> (#[trigger] r@[k]).0@ == urls@[k]@ && (r@[k].1 matches Err(e) && e@ == message@),
        decreases urls.len() - i,
    {
        r.push((urls[i].clone(), Err(String::from_str(message))));
        i = i + 1;
    }
    r
}

} // verus!
