//! What the service says over HTTP, as far as it does not depend on the
//! framework that serves it: the usage text, and the shape of a reply whose
//! body is JSON.
//!
//! A failure of the pipeline is no failure of the transport. A parse error
//! is a result like any other and is sent with status 200; only a body that
//! could not be serialized gives status 500.

use vstd::prelude::*;

verus! {

/// The status of a reply that carries its body.
pub const STATUS_OK: u16 = 200;

/// The status of a reply whose body could not be serialized.
pub const STATUS_INTERNAL_SERVER_ERROR: u16 = 500;

/// The usage text.
pub open spec fn usage() -> Seq<char> {
    "no GET endpoints available. Use POST to send mediawiki source code. see https://github.com/vroland/mwlint."@
}

/// The name of the header that opens a reply to pages of other origins.
pub open spec fn allow_origin_name() -> Seq<char> {
    "Access-Control-Allow-Origin"@
}

/// The value of that header: every origin.
pub open spec fn allow_origin_value() -> Seq<char> {
    "*"@
}

/// The content type of a JSON body.
pub open spec fn json_content_type() -> Seq<char> {
    "application/json"@
}

/// One header of a reply.
#[derive(Debug)]
pub struct Header {
    pub name: &'static str,
    pub value: &'static str,
}

/// A reply to a request for JSON.
#[derive(Debug)]
pub enum Reply {
    /// The body, serialized.
    Json(String),
    /// The body could not be serialized.
    ServerError,
}

/// The text that answers a `GET` of the root: there is nothing to get, the
/// source is to be posted.
pub fn index() -> (text: &'static str)
    ensures
        text@ == usage(),
{
    "no GET endpoints available. Use POST to send mediawiki source code. see https://github.com/vroland/mwlint."
}

/// The reply for a body that was serialized to `serialized`, or could not
/// be.
pub fn respond(serialized: Option<String>) -> (reply: Reply)
    ensures
        match serialized {
            Some(body) => reply matches Reply::Json(sent) && sent@ == body@,
            None => reply is ServerError,
        },
{
    match serialized {
        Some(body) => Reply::Json(body),
        None => Reply::ServerError,
    }
}

impl Reply {
    /// The status of the reply: 200 with a body, 500 without.
    pub fn status(&self) -> (status: u16)
        ensures
            status == if self is Json {
                STATUS_OK
            } else {
                STATUS_INTERNAL_SERVER_ERROR
            },
    {
        match self {
            Reply::Json(_) => STATUS_OK,
            Reply::ServerError => STATUS_INTERNAL_SERVER_ERROR,
        }
    }

    /// The headers of the reply. A JSON body is sent with its content type
    /// and is open to every origin; a reply without a body has none.
    pub fn headers(&self) -> (headers: Vec<Header>)
        ensures
            self is ServerError ==> headers@.len() == 0,
            self is Json ==> headers@.len() == 2 && headers@[0].name@ == "Content-Type"@
                && headers@[0].value@ == json_content_type() && headers@[1].name@
                == allow_origin_name() && headers@[1].value@ == allow_origin_value(),
    {
        let mut headers = Vec::new();
        match self {
            Reply::Json(_) => {
                headers.push(Header { name: "Content-Type", value: "application/json" });
                headers.push(Header { name: "Access-Control-Allow-Origin", value: "*" });
            },
            Reply::ServerError => {},
        }
        headers
    }
}

} // verus!
