//! The verbs of HTTP.

use vstd::prelude::*;
use crate::text::same_text;

verus! {

/// An HTTP verb.
#[derive(Debug, Clone, Copy, PartialEq, Eq, Structural)]
pub enum RequestMethod {
    Get,
    Head,
    Post,
    Put,
    Delete,
    Connect,
    Options,
    Trace,
    Patch,
}

impl RequestMethod {
    /// The verb as it is written in a request.
    pub open spec fn text(self) -> Seq<char> {
        match self {
            RequestMethod::Get => "GET"@,
            RequestMethod::Head => "HEAD"@,
            RequestMethod::Post => "POST"@,
            RequestMethod::Put => "PUT"@,
            RequestMethod::Delete => "DELETE"@,
            RequestMethod::Connect => "CONNECT"@,
            RequestMethod::Options => "OPTIONS"@,
            RequestMethod::Trace => "TRACE"@,
            RequestMethod::Patch => "PATCH"@,
        }
    }

    /// The verb as it is written in a request.
    pub fn as_str(&self) -> (r: &'static str)
        ensures
            r@ == self.text(),
    {
        match self {
            RequestMethod::Get => "GET",
            RequestMethod::Head => "HEAD",
            RequestMethod::Post => "POST",
            RequestMethod::Put => "PUT",
            RequestMethod::Delete => "DELETE",
            RequestMethod::Connect => "CONNECT",
            RequestMethod::Options => "OPTIONS",
            RequestMethod::Trace => "TRACE",
            RequestMethod::Patch => "PATCH",
        }
    }

    /// The verb as an owned text.
    pub fn to_string(&self) -> (r: String)
        ensures
            r@ == self.text(),
    {
        self.as_str().to_owned()
    }

    /// Reads a verb. Only the exact upper-case spellings are verbs.
    pub fn from_str(input: &str) -> (r: Result<RequestMethod, ()>)
        ensures
            match r {
                Ok(m) => input@ == m.text(),
                Err(_) => forall|m: RequestMethod| input@ != #[trigger] m.text(),
            },
    {
        if same_text(input, "GET") {
            Ok(RequestMethod::Get)
        } else if same_text(input, "HEAD") {
            Ok(RequestMethod::Head)
        } else if same_text(input, "POST") {
            Ok(RequestMethod::Post)
        } else if same_text(input, "PUT") {
            Ok(RequestMethod::Put)
        } else if same_text(input, "DELETE") {
            Ok(RequestMethod::Delete)
        } else if same_text(input, "CONNECT") {
            Ok(RequestMethod::Connect)
        } else if same_text(input, "OPTIONS") {
            Ok(RequestMethod::Options)
        } else if same_text(input, "TRACE") {
            Ok(RequestMethod::Trace)
        } else if same_text(input, "PATCH") {
            Ok(RequestMethod::Patch)
        } else {
            Err(())
        }
    }
}

/// No two verbs are written alike, so reading what a verb is written as
/// gives that verb back.
pub proof fn lemma_request_method_round_trip(a: RequestMethod, b: RequestMethod)
    requires
        a.text() == b.text(),
    ensures
        a == b,
{
    reveal_strlit("GET");
    reveal_strlit("HEAD");
    reveal_strlit("POST");
    reveal_strlit("PUT");
    reveal_strlit("DELETE");
    reveal_strlit("CONNECT");
    reveal_strlit("OPTIONS");
    reveal_strlit("TRACE");
    reveal_strlit("PATCH");
    assert("GET"@[0] == 'G' && "PUT"@[0] == 'P');
    assert("HEAD"@[0] == 'H' && "POST"@[0] == 'P');
    assert("TRACE"@[0] == 'T' && "PATCH"@[1] == 'A' && "PUT"@[1] == 'U' && "POST"@[1] == 'O');
    assert("CONNECT"@[0] == 'C' && "OPTIONS"@[0] == 'O' && "DELETE"@[0] == 'D');
}

} // verus!
