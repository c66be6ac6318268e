//! Request-building half of the remote fetch client: the URL, the header
//! values, and the optional incremental-fetch query parameter. The transport
//! that sends the request and reads the response lives outside the library
//! and hands back a status and body.

use vstd::prelude::*;
use vstd::string::StringExecFns;

verus! {

/// Largest cursor timestamp the engine accepts, in seconds since the Unix
/// epoch: the last second of year 9999, comfortably inside the range the
/// RFC 3339 formatter supports.
pub const MAX_EPOCH_SECONDS: u64 = 253402300799;

/// The RFC 3339 rendering of a timestamp given in seconds since the Unix
/// epoch, at UTC. Named rather than spelled out: the calendar arithmetic
/// behind it belongs to the formatter relied on below.
pub uninterp spec fn rfc3339_of(t: int) -> Seq<char>;

/// Relies on chrono's `DateTime::<Utc>::from_timestamp` and `to_rfc3339`:
/// together they render a timestamp as its RFC 3339 form at UTC, a
/// deterministic function of the timestamp alone. `from_timestamp` is
/// `Some` for every timestamp admitted here.
#[verifier::external_body]
fn format_rfc3339(epoch_s: u64) -> (r: String)
    requires
        epoch_s <= MAX_EPOCH_SECONDS,
    ensures
        r@ == rfc3339_of(epoch_s as int),
{
    chrono::DateTime::<chrono::Utc>::from_timestamp(epoch_s as i64, 0)
        .expect("timestamp is within the supported range")
        .to_rfc3339()
}

/// The root of the remote notifications API.
pub fn default_base_url() -> (r: String)
    ensures
        r@ == "https://api.github.com"@,
{
    "https://api.github.com".to_owned()
}

/// The notifications endpoint under a base URL.
pub fn notifications_url(base_url: &str) -> (r: String)
    ensures
        r@ == base_url@ + "/notifications"@,
{
    base_url.to_owned().concat("/notifications")
}

/// The pull-requests endpoint of one repository under a base URL.
pub fn pull_requests_url(base_url: &str, owner: &str, repo: &str) -> (r: String)
    ensures
        r@ == base_url@ + "/repos/"@ + owner@ + "/"@ + repo@ + "/pulls"@,
{
    base_url.to_owned().concat("/repos/").concat(owner).concat("/").concat(repo).concat("/pulls")
}

/// The value of the authorization header carrying the bearer credential.
/// The token is expected already trimmed, as the token store returns it.
pub fn bearer_header_value(token: &str) -> (r: String)
    ensures
        r@ == "Bearer "@ + token@,
{
    "Bearer ".to_owned().concat(token)
}

/// The header names and values every request to the feed carries: the JSON
/// media types the remote API expects, the bearer credential, and a fixed
/// agent name. The token is expected already trimmed.
pub fn request_headers(token: &str) -> (r: Vec<(String, String)>)
    ensures
        r@.len() == 4,
        r@[0].0@ == "Accept"@ && r@[0].1@ == "application/vnd.github+json"@,
        r@[1].0@ == "Authorization"@ && r@[1].1@ == "Bearer "@ + token@,
        r@[2].0@ == "User-Agent"@ && r@[2].1@ == "reqwest"@,
        r@[3].0@ == "Content-Type"@ && r@[3].1@ == "application/json"@,
{
    let mut r: Vec<(String, String)> = Vec::new();
    r.push(("Accept".to_owned(), "application/vnd.github+json".to_owned()));
    r.push(("Authorization".to_owned(), bearer_header_value(token)));
    r.push(("User-Agent".to_owned(), "reqwest".to_owned()));
    r.push(("Content-Type".to_owned(), "application/json".to_owned()));
    r
}

/// The optional "since" query parameter of an incremental fetch: absent on
/// the first cycle, else the cursor timestamp in RFC 3339 form.
pub fn since_query(cursor: Option<u64>) -> (r: Option<String>)
    requires
        cursor matches Some(t) ==> t <= MAX_EPOCH_SECONDS,
    ensures
        cursor is None ==> r is None,
        cursor matches Some(t) ==> r matches Some(s) && s@ == rfc3339_of(t as int),
{
    match cursor {
        None => None,
        Some(t) => Some(format_rfc3339(t)),
    }
}

} // verus!
