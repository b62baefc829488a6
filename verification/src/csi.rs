//! The decisions of the CSI service: where its socket is and which node id
//! it reports.
use vstd::prelude::*;

use crate::ops::command::opt_string_view;
use crate::text::{chars_of, string_from_chars, sub_chars, trim, trim_chars};

verus! {

/// Why a CSI endpoint does not name a usable Unix socket.
#[derive(Debug, Clone, Copy, PartialEq, Eq, Structural)]
pub enum EndpointError {
    /// The endpoint does not start with `unix://`.
    NotUnix,
    /// The socket path after `unix://` is empty.
    EmptyPath,
    /// The socket path is not absolute.
    RelativePath,
}

/// The socket path of a CSI endpoint, or why there is none: it must start
/// with `unix://`, and the rest must be a non-empty absolute path.
pub open spec fn socket_path_of(endpoint: Seq<char>) -> Result<Seq<char>, EndpointError> {
    let scheme = "unix://"@;
    if !(scheme.len() <= endpoint.len() && endpoint.take(scheme.len() as int) == scheme) {
        Err(EndpointError::NotUnix)
    } else {
        let path = endpoint.skip(scheme.len() as int);
        if path.len() == 0 {
            Err(EndpointError::EmptyPath)
        } else if path[0] != '/' {
            Err(EndpointError::RelativePath)
        } else {
            Ok(path)
        }
    }
}

/// The socket path of a `unix://` CSI endpoint.
pub fn unix_socket_path(endpoint: &str) -> (out: Result<String, EndpointError>)
    ensures
        match socket_path_of(endpoint@) {
            Ok(p) => out matches Ok(s) && s@ == p,
            Err(e) => out == Err::<String, EndpointError>(e),
        },
{
    let e = chars_of(endpoint);
    let scheme = chars_of("unix://");
    if scheme.len() > e.len() || !crate::text::occurs_at_exec(&e, &scheme, 0) {
        assert(scheme@.len() <= e@.len() ==> e@.subrange(0, scheme@.len() as int) =~= e@.take(scheme@.len() as int));
        return Err(EndpointError::NotUnix);
    }
    assert(e@.subrange(0, scheme@.len() as int) =~= e@.take(scheme@.len() as int));
    let path = sub_chars(&e, scheme.len(), e.len());
    assert(path@ =~= e@.skip(scheme@.len() as int));
    if path.len() == 0 {
        return Err(EndpointError::EmptyPath);
    }
    if path[0] != '/' {
        return Err(EndpointError::RelativePath);
    }
    Ok(string_from_chars(&path))
}

/// Why no node id could be found.
#[derive(Debug, Clone, Copy, PartialEq, Eq, Structural)]
pub enum NodeIdError {
    /// The hostname file held only white space.
    Empty,
}

/// A text that counts as set: present and not empty.
pub open spec fn set_value(v: Option<Seq<char>>) -> Option<Seq<char>> {
    match v {
        Some(s) => if s.len() > 0 {
            Some(s)
        } else {
            None
        },
        None => None,
    }
}

/// The node id from the configuration, else from `NODE_NAME`, when either
/// is set and not empty; `None` means the hostname file must be read.
pub fn preferred_node_id(configured: &Option<String>, node_name_env: &Option<String>) -> (out: Option<String>)
    ensures
        opt_string_view(out) == (if set_value(opt_string_view(*configured)) is Some {
            set_value(opt_string_view(*configured))
        } else {
            set_value(opt_string_view(*node_name_env))
        }),
{
    if let Some(id) = configured {
        if !id.as_str().is_empty() {
            return Some(id.clone());
        }
    }
    if let Some(name) = node_name_env {
        if !name.as_str().is_empty() {
            return Some(name.clone());
        }
    }
    None
}

/// The node id held by the contents of the hostname file: the contents
/// trimmed of white space, which must not be empty.
pub fn node_id_from_hostname(contents: &str) -> (out: Result<String, NodeIdError>)
    ensures
        trim(contents@).len() == 0 ==> out == Err::<String, NodeIdError>(NodeIdError::Empty),
        trim(contents@).len() > 0 ==> (out matches Ok(id) && id@ == trim(contents@)),
{
    let trimmed = trim_chars(&chars_of(contents));
    if trimmed.len() == 0 {
        return Err(NodeIdError::Empty);
    }
    Ok(string_from_chars(&trimmed))
}

} // verus!
