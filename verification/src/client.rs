//! The command-line client's view of the server: where its API lives, how a
//! request path is formed, and what credential goes with each request.
//!
//! URLs are carried as their serialization, the text that `url::Url` writes
//! for them.

use vstd::prelude::*;
use vstd::string::*;
use crate::ids::{format_uuid, uuid_text};
use crate::store::opt_text;

verus! {

/// What `reqwest::Url::parse` (the `url` crate's `Url::parse`) makes of a
/// text: the serialization of the URL it reads, `None` where it reports an
/// error.
pub uninterp spec fn url_parse(text: Seq<char>) -> Option<Seq<char>>;

/// What `Url::join` makes of `path` on the URL whose serialization is `base`:
/// the serialization of the joined URL, `None` where it reports an error.
pub uninterp spec fn url_join(base: Seq<char>, path: Seq<char>) -> Option<Seq<char>>;

/// Parses a URL with `reqwest::Url::parse` and writes it back with its
/// `Display` (its serialization). Claimed: the result is the one named by
/// `url_parse`, and a serialization parses back to itself (the `url` crate
/// holds every `Url` to this: `Url::check_invariants` re-parses `as_str` and
/// compares the serializations).
#[verifier::external_body]
fn parse_url(text: &str) -> (r: Option<String>)
    ensures
        opt_text(r) == url_parse(text@),
        r matches Some(u) ==> url_parse(u@) == Some(u@),
{
    match reqwest::Url::parse(text) {
        Ok(u) => Some(u.to_string()),
        Err(_) => None,
    }
}

/// Joins `path` onto the URL serialized as `base` with `Url::join`, and writes
/// the result back with its `Display`. `base` is first turned back into its
/// `Url` with `Url::parse`, which, for a serialization, gives that same URL.
/// Claimed: the result is the one named by `url_join`.
#[verifier::external_body]
fn join_url(base: &str, path: &str) -> (r: Option<String>)
    requires
        url_parse(base@) == Some(base@),
    ensures
        opt_text(r) == url_join(base@, path@),
{
    match reqwest::Url::parse(base) {
        Ok(b) => match b.join(path) {
            Ok(u) => Some(u.to_string()),
            Err(_) => None,
        },
        Err(_) => None,
    }
}

/// Why the client could not be set up or could not form a request URL.
#[derive(Debug, Clone, Copy, PartialEq, Eq)]
pub enum ClientError {
    InvalidBaseUrl,
    InvalidUrlPath,
}

impl ClientError {
    /// The message the command line shows.
    pub fn message(&self) -> (r: String)
        ensures
            r@ == client_error_text(*self),
    {
        match self {
            ClientError::InvalidBaseUrl => "Invalid base URL".to_owned(),
            ClientError::InvalidUrlPath => "Invalid URL path".to_owned(),
        }
    }
}

/// The message of each error.
pub open spec fn client_error_text(e: ClientError) -> Seq<char> {
    match e {
        ClientError::InvalidBaseUrl => "Invalid base URL"@,
        ClientError::InvalidUrlPath => "Invalid URL path"@,
    }
}

/// The server's address (a URL serialization) and the bearer token sent with
/// every request.
pub struct ApiClient {
    base_url: String,
    token: String,
}

/// An `ApiClient` as the texts it holds.
pub struct ApiClientView {
    pub base_url: Seq<char>,
    pub token: Seq<char>,
}

impl View for ApiClient {
    type V = ApiClientView;

    closed spec fn view(&self) -> ApiClientView {
        ApiClientView { base_url: self.base_url@, token: self.token@ }
    }
}

impl ApiClient {
    /// The base URL is a serialization, so it reads back to itself.
    #[verifier::type_invariant]
    spec fn base_url_is_serialized(self) -> bool {
        url_parse(self.base_url@) == Some(self.base_url@)
    }

    /// A client for the server at `base_url`, sending `token`: the address is
    /// kept as `Url::parse` serializes it; `InvalidBaseUrl` exactly when it
    /// does not parse.
    pub fn new(base_url: &str, token: &str) -> (r: Result<ApiClient, ClientError>)
        ensures
            match url_parse(base_url@) {
                Some(u) => r matches Ok(c) && c@.base_url == u && c@.token == token@,
                None => r == Err::<ApiClient, ClientError>(ClientError::InvalidBaseUrl),
            },
    {
        match parse_url(base_url) {
            Some(u) => Ok(ApiClient { base_url: u, token: token.to_owned() }),
            None => Err(ClientError::InvalidBaseUrl),
        }
    }

    /// The serialized base URL.
    pub fn base_url(&self) -> (r: &String)
        ensures
            r@ == self@.base_url,
    {
        &self.base_url
    }

    /// The bearer token.
    pub fn token(&self) -> (r: &String)
        ensures
            r@ == self@.token,
    {
        &self.token
    }

    /// The URL of `path` on the server: `path` joined onto the base URL;
    /// `InvalidUrlPath` exactly when the join fails.
    pub fn url(&self, path: &str) -> (r: Result<String, ClientError>)
        ensures
            match url_join(self@.base_url, path@) {
                Some(u) => r matches Ok(s) && s@ == u,
                None => r == Err::<String, ClientError>(ClientError::InvalidUrlPath),
            },
    {
        proof {
            use_type_invariant(self);
        }
        match join_url(self.base_url.as_str(), path) {
            Some(u) => Ok(u),
            None => Err(ClientError::InvalidUrlPath),
        }
    }

    /// The `Authorization` header value sent with every request.
    pub fn authorization(&self) -> (r: String)
        ensures
            r@ == "Bearer "@ + self@.token,
    {
        "Bearer ".to_owned().concat(self.token.as_str())
    }
}

/// The path of the task collection.
pub fn tasks_path() -> (r: String)
    ensures
        r@ == "v1/tasks"@,
{
    "v1/tasks".to_owned()
}

/// The path of task `id`.
pub fn task_path(id: u128) -> (r: String)
    ensures
        r@ == "v1/tasks/"@ + uuid_text(id),
{
    let text = format_uuid(id);
    "v1/tasks/".to_owned().concat(text.as_str())
}

/// The path of the result of task `id`.
pub fn task_result_path(id: u128) -> (r: String)
    ensures
        r@ == "v1/tasks/"@ + uuid_text(id) + "/result"@,
{
    task_path(id).concat("/result")
}

} // verus!
