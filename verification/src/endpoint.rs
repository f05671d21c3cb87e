//! Where a migration goes to, or comes from.

use vstd::prelude::*;
use crate::error::{Cause, Context, MigratableError};

verus! {

/// A socket for a migration.
#[derive(Debug, PartialEq, Eq)]
pub enum Endpoint {
    /// A TCP socket, by its address.
    Tcp(String),
    /// A UNIX socket, by its path.
    Unix(String),
}

/// The model of a socket.
#[verifier::ext_equal]
pub enum EndpointView {
    /// A TCP socket, by its address.
    Tcp(Seq<char>),
    /// A UNIX socket, by its path.
    Unix(Seq<char>),
}

impl View for Endpoint {
    type V = EndpointView;

    open spec fn view(&self) -> EndpointView {
        match self {
            Endpoint::Tcp(address) => EndpointView::Tcp(address@),
            Endpoint::Unix(path) => EndpointView::Unix(path@),
        }
    }
}

impl Clone for Endpoint {
    fn clone(&self) -> (r: Self)
        ensures
            r@ == self@,
    {
        match self {
            Endpoint::Tcp(address) => Endpoint::Tcp(address.clone()),
            Endpoint::Unix(path) => Endpoint::Unix(path.clone()),
        }
    }
}

/// What follows `prefix` in `text`, where `text` begins with it.
pub open spec fn rest_after(text: Seq<char>, prefix: Seq<char>) -> Option<Seq<char>> {
    if prefix.is_prefix_of(text) {
        Some(text.skip(prefix.len() as int))
    } else {
        None
    }
}

/// `str::strip_prefix` of std: what follows `prefix` in `text`, and `None`
/// where `text` does not begin with it.
#[verifier::external_body]
fn strip_prefix<'a>(text: &'a str, prefix: &str) -> (rest: Option<&'a str>)
    ensures
        match rest {
            Some(rest) => rest_after(text@, prefix@) == Some(rest@),
            None => rest_after(text@, prefix@) is None,
        },
{
    text.strip_prefix(prefix)
}

/// The socket that a URL names: a TCP address after `tcp:`, a path after
/// `unix:`, and none otherwise.
pub open spec fn endpoint_of(url: Seq<char>) -> Option<EndpointView> {
    match rest_after(url, "tcp:"@) {
        Some(address) => Some(EndpointView::Tcp(address)),
        None => match rest_after(url, "unix:"@) {
            Some(path) => Some(EndpointView::Unix(path)),
            None => None,
        },
    }
}

/// The error for a URL that names no socket. It counts as one of the sending
/// side on either side.
pub open spec fn no_path_in(url: String) -> MigratableError {
    MigratableError::MigrateSend(Cause { context: Context::ExtractPath, detail: Some(url) })
}

/// The path that a `unix:` URL names.
pub fn socket_url_to_path(url: &String) -> (r: Result<String, MigratableError>)
    ensures
        match r {
            Ok(path) => rest_after(url@, "unix:"@) == Some(path@),
            Err(e) => rest_after(url@, "unix:"@) is None && e == no_path_in(*url),
        },
{
    match strip_prefix(url.as_str(), "unix:") {
        Some(path) => Ok(path.to_owned()),
        None => Err(
            MigratableError::MigrateSend(
                Cause { context: Context::ExtractPath, detail: Some(url.clone()) },
            ),
        ),
    }
}

/// The socket that a URL names.
pub fn endpoint(url: &String) -> (r: Result<Endpoint, MigratableError>)
    ensures
        match r {
            Ok(endpoint) => endpoint_of(url@) == Some(endpoint@),
            Err(e) => endpoint_of(url@) is None && e == no_path_in(*url),
        },
{
    match strip_prefix(url.as_str(), "tcp:") {
        Some(address) => Ok(Endpoint::Tcp(address.to_owned())),
        None => match socket_url_to_path(url) {
            Ok(path) => Ok(Endpoint::Unix(path)),
            Err(e) => Err(e),
        },
    }
}

} // verus!
