//! How a service authenticates: the last change to a request before it is
//! sent.

use vstd::prelude::*;
use vstd::string::*;
use base64::Engine;
use crate::rockery_error::{ErrorKind, RockeryError};
use crate::rockery_request::{header_pairs, headers_insert, RockeryRequest};
use crate::text::same_text;

verus! {

/// The Base64 text, in the standard alphabet with padding, of the UTF-8 bytes
/// of `input`.
pub uninterp spec fn base64_standard(input: Seq<char>) -> Seq<char>;

/// `base64::Engine::encode` on `base64::engine::general_purpose::STANDARD`: the
/// result is the standard Base64 text of the bytes of `input`, a function of
/// `input` alone. The call fails only where the length of the result does
/// not fit in `usize`, which no text that fits in memory reaches.
#[verifier::external_body]
pub(crate) fn base64_encode(input: &str) -> (r: String)
    ensures
        r@ == base64_standard(input@),
{
    base64::engine::general_purpose::STANDARD.encode(input)
}

/// The credential of a user name and a password: the Base64 text of the two,
/// joined by a colon.
pub open spec fn basic_credential(username: Seq<char>, password: Seq<char>) -> Seq<char> {
    base64_standard(username + seq![':'] + password)
}

/// Sends a request as it is.
#[derive(Debug, Default, Clone)]
pub struct NoAuthenticationAuthentication {}

/// Adds an `Authorization` header made of a user name and a password.
#[derive(Debug, Clone)]
pub struct BasicAuthenticationAuthentication {
    username: String,
    password: String,
}

impl BasicAuthenticationAuthentication {
    /// The user name.
    pub closed spec fn username(&self) -> Seq<char> {
        self.username@
    }

    /// The password.
    pub closed spec fn password(&self) -> Seq<char> {
        self.password@
    }

    /// The scheme for the given user name and password.
    pub fn new(username: &str, password: &str) -> (r: BasicAuthenticationAuthentication)
        ensures
            r.username() == username@,
            r.password() == password@,
    {
        BasicAuthenticationAuthentication {
            username: username.to_owned(),
            password: password.to_owned(),
        }
    }

    /// The user name.
    pub fn get_username(&self) -> (r: &str)
        ensures
            r@ == self.username(),
    {
        self.username.as_str()
    }

    /// The password.
    pub fn get_password(&self) -> (r: &str)
        ensures
            r@ == self.password(),
    {
        self.password.as_str()
    }

    /// The value of the `Authorization` header for this user and password.
    pub fn credential(&self) -> (r: String)
        ensures
            r@ == basic_credential(self.username(), self.password()),
    {
        proof {
            reveal_strlit(":");
        }
        let mut plain = self.username.clone();
        plain.append(":");
        plain.append(self.password.as_str());
        assert(plain@ =~= self.username() + seq![':'] + self.password());
        base64_encode(plain.as_str())
    }
}

impl Default for BasicAuthenticationAuthentication {
    /// The scheme with an empty user name and an empty password.
    fn default() -> (r: BasicAuthenticationAuthentication)
        ensures
            r.username() == Seq::<char>::empty(),
            r.password() == Seq::<char>::empty(),
    {
        BasicAuthenticationAuthentication { username: String::new(), password: String::new() }
    }
}

/// The message for a tag that no authentication scheme has.
pub open spec fn unknown_tag_message(tag: Seq<char>) -> Seq<char> {
    "Unknown authentication scheme: "@ + tag
}

/// The authentication schemes that a service can use.
#[derive(Debug, Clone)]
pub enum AuthenticationType {
    NoAuthentication(NoAuthenticationAuthentication),
    Basic(BasicAuthenticationAuthentication),
}

impl AuthenticationType {
    /// The header pairs of a request after this scheme has had its say.
    pub open spec fn authorized_headers(&self, before: Seq<(Seq<char>, Seq<char>)>) -> Seq<
        (Seq<char>, Seq<char>),
    > {
        match *self {
            AuthenticationType::NoAuthentication(_) => before,
            AuthenticationType::Basic(basic) => before.push(
                ("Authorization"@, basic_credential(basic.username(), basic.password())),
            ),
        }
    }

    /// The stable tag under which this scheme is persisted.
    pub open spec fn tag_text(&self) -> Seq<char> {
        match *self {
            AuthenticationType::NoAuthentication(_) => "NoAuthenticationAuthentication"@,
            AuthenticationType::Basic(_) => "BasicAuthenticationAuthentication"@,
        }
    }

    /// The stable tag under which this scheme is persisted.
    pub fn tag(&self) -> (r: &'static str)
        ensures
            r@ == self.tag_text(),
    {
        match self {
            AuthenticationType::NoAuthentication(_) => "NoAuthenticationAuthentication",
            AuthenticationType::Basic(_) => "BasicAuthenticationAuthentication",
        }
    }

    /// The scheme that was persisted under `tag` with the given user name and
    /// password; a scheme without credentials ignores the two. Fails where no
    /// scheme has this tag.
    pub fn restore(tag: &str, username: &str, password: &str) -> (r: Result<
        AuthenticationType,
        RockeryError,
    >)
        ensures
            match r {
                Ok(scheme) => {
                    &&& scheme.tag_text() == tag@
                    &&& match scheme {
                        AuthenticationType::NoAuthentication(_) => true,
                        AuthenticationType::Basic(basic) => basic.username() == username@
                            && basic.password() == password@,
                    }
                },
                Err(e) => {
                    &&& tag@ != "NoAuthenticationAuthentication"@
                    &&& tag@ != "BasicAuthenticationAuthentication"@
                    &&& e.is(ErrorKind::SerializationFailure, unknown_tag_message(tag@))
                },
            },
    {
        if same_text(tag, "NoAuthenticationAuthentication") {
            Ok(AuthenticationType::NoAuthentication(NoAuthenticationAuthentication {  }))
        } else if same_text(tag, "BasicAuthenticationAuthentication") {
            Ok(AuthenticationType::Basic(BasicAuthenticationAuthentication::new(username, password)))
        } else {
            let mut message = "Unknown authentication scheme: ".to_owned();
            message.append(tag);
            Err(RockeryError::new(ErrorKind::SerializationFailure, message))
        }
    }

    /// Makes the last change to a request before it is sent: none leaves it
    /// as it is, basic appends the `Authorization` header.
    pub fn authorize(&self, request: &mut RockeryRequest)
        ensures
            final(request).method == old(request).method,
            final(request).url == old(request).url,
            final(request).body == old(request).body,
            header_pairs(final(request).headers) == self.authorized_headers(
                header_pairs(old(request).headers),
            ),
    {
        match self {
            AuthenticationType::NoAuthentication(_) => {},
            AuthenticationType::Basic(basic) => {
                let credential = basic.credential();
                headers_insert(&mut request.headers, "Authorization", credential.as_str());
            },
        }
    }
}

} // verus!
