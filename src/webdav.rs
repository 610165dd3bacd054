use vstd::prelude::*;
use vstd::string::StringExecFns;
use crate::paths::{join_url, collection_urls, views, url_for, collection_urls_for};

verus! {

/// Whether an HTTP status is in the success class (2xx).
pub open spec fn is_success(status: u16) -> bool {
    200 <= status <= 299
}

/// Tells whether an HTTP status is in the success class (2xx). A `HEAD`
/// probe reports the remote object present exactly then.
pub fn status_is_success(status: u16) -> (r: bool)
    ensures
        r == is_success(status),
{
    200 <= status && status <= 299
}

/// Status 405 (Method Not Allowed): the collection already exists.
pub const METHOD_NOT_ALLOWED: u16 = 405;

/// Status 409 (Conflict): a parent collection is still being created.
pub const CONFLICT: u16 = 409;

/// Status 404 (Not Found).
pub const NOT_FOUND: u16 = 404;

/// Whether the answer to a collection-creation (`MKCOL`) request lets the
/// walk go on: success, "already exists" (405) or "conflict" (409).
pub open spec fn mkcol_accepted(status: u16) -> bool {
    is_success(status) || status == METHOD_NOT_ALLOWED || status == CONFLICT
}

/// Tells whether a `MKCOL` answer lets the directory walk go on.
pub fn mkcol_status_accepted(status: u16) -> (r: bool)
    ensures
        r == mkcol_accepted(status),
{
    status_is_success(status) || status == METHOD_NOT_ALLOWED || status == CONFLICT
}

/// What to do with the answer to a download (`GET`) request.
#[derive(Debug, Clone, Copy, PartialEq, Eq, Structural)]
pub enum DownloadOutcome {
    /// The body is the object's content: write it to the local file.
    Write,
    /// The object does not exist: write nothing, and this is no error.
    Absent,
    /// Any other status: the download failed.
    Failed,
}

/// The outcome that a download status leads to.
pub open spec fn download_outcome(status: u16) -> DownloadOutcome {
    if is_success(status) {
        DownloadOutcome::Write
    } else if status == NOT_FOUND {
        DownloadOutcome::Absent
    } else {
        DownloadOutcome::Failed
    }
}

/// Decides what a download status means.
pub fn download_outcome_of(status: u16) -> (r: DownloadOutcome)
    ensures
        r == download_outcome(status),
{
    if status_is_success(status) {
        DownloadOutcome::Write
    } else if status == NOT_FOUND {
        DownloadOutcome::Absent
    } else {
        DownloadOutcome::Failed
    }
}

/// Where a WebDAV store is and how to sign in to it.
#[derive(Clone)]
pub struct Endpoint {
    pub base_url: String,
    pub username: Option<String>,
    pub password: Option<String>,
}

/// Copies an optional string slice into an optional `String`.
fn owned_opt(s: Option<&str>) -> (r: Option<String>)
    ensures
        match s {
            Some(x) => r is Some && r->0@ == x@,
            None => r is None,
        },
{
    match s {
        Some(x) => Some(String::from_str(x)),
        None => None,
    }
}

impl Endpoint {
    /// An endpoint at `url`, with the given credentials.
    pub fn new(url: &str, username: Option<&str>, password: Option<&str>) -> (r: Endpoint)
        ensures
            r.base_url@ == url@,
            username is Some <==> r.username is Some,
            username is Some ==> r.username->0@ == username->0@,
            password is Some <==> r.password is Some,
            password is Some ==> r.password->0@ == password->0@,
    {
        Endpoint {
            base_url: String::from_str(url),
            username: owned_opt(username),
            password: owned_opt(password),
        }
    }

    /// The URL of a remote path: the base URL without trailing slashes, `/`,
    /// and the path.
    pub fn url_for(&self, path: &str) -> (r: String)
        ensures
            r@ == join_url(self.base_url@, path@),
    {
        url_for(self.base_url.as_str(), path)
    }

    /// The collections to create, shallowest first, before `remote` is stored.
    pub fn collection_urls(&self, remote: &str) -> (r: Vec<String>)
        ensures
            views(r@) == collection_urls(self.base_url@, remote@),
    {
        collection_urls_for(self.base_url.as_str(), remote)
    }

    /// The user name and password for basic authentication; only when both
    /// are set is a request signed.
    pub fn credentials(&self) -> (r: Option<(&String, &String)>)
        ensures
            match r {
                Some(c) => self.username == Some(*c.0) && self.password == Some(*c.1),
                None => self.username is None || self.password is None,
            },
    {
        match (&self.username, &self.password) {
            (Some(u), Some(p)) => Some((u, p)),
            _ => None,
        }
    }
}

} // verus!
