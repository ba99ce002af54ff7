//! A remote API: where it lives, how it authenticates, and its methods. A
//! service builds the concrete request for one of its methods.

use vstd::prelude::*;
use vstd::string::*;
use crate::rockery_error::{ErrorKind, RockeryError};
use crate::rockery_request::{header_pairs, headers_new, insert_headers, RockeryRequest, RockeryResponse};
use crate::rockery_request_parameter::{
    default_pairs, emitted_pairs, lemma_defaults_without_overrides, merge_parameters, pairs_view,
    text_view, ParameterKind, RequestParameter,
};
use crate::rockery_service_authentication::{AuthenticationType, NoAuthenticationAuthentication};
use crate::rockery_service_method::{RockeryServiceMethod, ServiceMethodView};
use crate::rockery_service_type::RockeryServiceType;
use crate::rockery_request_method::RequestMethod;
use crate::text::{append_decimal, decimal};

verus! {

/// What a service is made of.
pub struct ServiceView {
    pub name: Seq<char>,
    pub service_type: RockeryServiceType,
    pub authentication: AuthenticationType,
    pub base_url: Seq<char>,
    pub definition_url: Option<Seq<char>>,
    pub methods: Seq<RockeryServiceMethod>,
}

/// A named remote API. Its methods are addressed by their position; two
/// methods may share a name.
#[derive(Debug, Clone)]
pub struct RockeryService {
    name: String,
    service_type: RockeryServiceType,
    authentication: AuthenticationType,
    base_url: String,
    definition_url: Option<String>,
    methods: Vec<RockeryServiceMethod>,
}

impl View for RockeryService {
    type V = ServiceView;

    closed spec fn view(&self) -> ServiceView {
        ServiceView {
            name: self.name@,
            service_type: self.service_type,
            authentication: self.authentication,
            base_url: self.base_url@,
            definition_url: text_view(self.definition_url),
            methods: self.methods@,
        }
    }
}

/// The query string of a list of pairs: `?` before the first pair, `&` before
/// each later one, `=` between key and value; nothing for no pair.
pub open spec fn query_string(pairs: Seq<(Seq<char>, Seq<char>)>) -> Seq<char>
    decreases pairs.len(),
{
    if pairs.len() == 0 {
        Seq::empty()
    } else {
        let separator = if pairs.len() == 1 {
            '?'
        } else {
            '&'
        };
        query_string(pairs.drop_last()) + seq![separator] + pairs.last().0 + seq!['=']
            + pairs.last().1
    }
}

/// The URL of a request: the base URL, a slash, the method's path, a slash,
/// and the query string of the URL parameters that emit a value.
pub open spec fn request_url(
    base_url: Seq<char>,
    uri: Seq<char>,
    stored: Seq<RequestParameter>,
    overrides: Seq<RequestParameter>,
) -> Seq<char> {
    base_url + seq!['/'] + uri + seq!['/'] + query_string(
        emitted_pairs(stored, overrides, ParameterKind::Url),
    )
}

/// Without values from the caller, the URL and the headers of a call are
/// those that the stored defaults give, in stored order.
pub proof fn lemma_request_from_defaults(service: RockeryService, method: int)
    requires
        0 <= method < service@.methods.len(),
    ensures
        service.url_of(method, Seq::empty()) == service@.base_url + seq!['/']
            + service@.methods[method]@.uri + seq!['/'] + query_string(
            default_pairs(service@.methods[method]@.parameters, ParameterKind::Url),
        ),
        service.headers_of(method, Seq::empty()) == default_pairs(
            service@.methods[method]@.parameters,
            ParameterKind::Header,
        ),
{
    lemma_defaults_without_overrides(service@.methods[method]@.parameters, ParameterKind::Url);
    lemma_defaults_without_overrides(service@.methods[method]@.parameters, ParameterKind::Header);
}

/// The message for a method index that no method has.
pub open spec fn invalid_index_message(count: nat, index: nat) -> Seq<char> {
    "Invalid index. There are only "@ + decimal(count) + " methods but method "@ + decimal(index)
        + " was requested."@
}

/// The message for a request that the transport could not carry out.
pub open spec fn transport_message(cause: Seq<char>) -> Seq<char> {
    "Could not execute request. Error: "@ + cause
}

impl RockeryService {
    /// Every method of the service has a path.
    pub open spec fn well_formed(&self) -> bool {
        forall|i: int|
            0 <= i < self@.methods.len() ==> (#[trigger] self@.methods[i]).well_formed()
    }

    /// The URL that a call of method `method` with the caller's values
    /// `overrides` goes to.
    pub open spec fn url_of(&self, method: int, overrides: Seq<RequestParameter>) -> Seq<char> {
        request_url(
            self@.base_url,
            self@.methods[method]@.uri,
            self@.methods[method]@.parameters,
            overrides,
        )
    }

    /// The header pairs that a call of method `method` with the caller's
    /// values `overrides` carries.
    pub open spec fn headers_of(&self, method: int, overrides: Seq<RequestParameter>) -> Seq<
        (Seq<char>, Seq<char>),
    > {
        emitted_pairs(self@.methods[method]@.parameters, overrides, ParameterKind::Header)
    }

    /// A service without methods, named "Unnamed", that does not authenticate.
    pub fn new(t: RockeryServiceType, base_url: &str) -> (r: RockeryService)
        ensures
            r@.name == "Unnamed"@,
            r@.service_type == t,
            r@.authentication is NoAuthentication,
            r@.base_url == base_url@,
            r@.definition_url.is_none(),
            r@.methods == Seq::<RockeryServiceMethod>::empty(),
            r.well_formed(),
    {
        RockeryService {
            name: "Unnamed".to_owned(),
            service_type: t,
            authentication: AuthenticationType::NoAuthentication(NoAuthenticationAuthentication {  }),
            base_url: base_url.to_owned(),
            definition_url: None,
            methods: Vec::new(),
        }
    }

    /// The name of the service.
    pub fn get_name(&self) -> (r: &String)
        ensures
            r@ == self@.name,
    {
        &self.name
    }

    /// Gives the service another name.
    pub fn set_name(&mut self, t: &str)
        ensures
            final(self)@ == (ServiceView { name: t@, ..old(self)@ }),
    {
        self.name = t.to_owned();
    }

    /// What kind of API the service is.
    pub fn get_service_type(&self) -> (r: &RockeryServiceType)
        ensures
            *r == self@.service_type,
    {
        &self.service_type
    }

    /// Sets what kind of API the service is.
    pub fn set_service_type(&mut self, t: RockeryServiceType)
        ensures
            final(self)@ == (ServiceView { service_type: t, ..old(self)@ }),
    {
        self.service_type = t;
    }

    /// How the service authenticates.
    pub fn get_authentication(&self) -> (r: &AuthenticationType)
        ensures
            *r == self@.authentication,
    {
        &self.authentication
    }

    /// Sets how the service authenticates.
    pub fn set_authentication(&mut self, t: AuthenticationType)
        ensures
            final(self)@ == (ServiceView { authentication: t, ..old(self)@ }),
    {
        self.authentication = t;
    }

    /// The URL that the paths of the methods are relative to.
    pub fn get_base_url(&self) -> (r: &str)
        ensures
            r@ == self@.base_url,
    {
        self.base_url.as_str()
    }

    /// The URL or path of the document that describes the service, if any.
    pub fn get_definition_url(&self) -> (r: &Option<String>)
        ensures
            text_view(*r) == self@.definition_url,
    {
        &self.definition_url
    }

    /// Sets the URL or path of the document that describes the service.
    pub fn set_definition_url(&mut self, url: Option<String>)
        ensures
            final(self)@ == (ServiceView { definition_url: text_view(url), ..old(self)@ }),
    {
        self.definition_url = url;
    }

    /// The methods in the order in which they were added.
    pub fn get_methods(&self) -> (r: &Vec<RockeryServiceMethod>)
        ensures
            r@ == self@.methods,
    {
        &self.methods
    }

    /// Appends a new `GET` method behind the others and hands it out, so
    /// that it can be configured.
    pub fn add_method(&mut self, name: &str, uri: &str) -> (r: &mut RockeryServiceMethod)
        requires
            uri@.len() > 0,
        ensures
            r@ == (ServiceMethodView {
                name: name@,
                uri: uri@,
                request_method: RequestMethod::Get,
                parameters: Seq::empty(),
                body: None,
            }),
            final(self)@ == (ServiceView {
                methods: old(self)@.methods.push(*final(r)),
                ..old(self)@
            }),
            old(self).well_formed() && final(r).well_formed() ==> final(self).well_formed(),
    {
        self.methods.push(RockeryServiceMethod::new(name, uri));
        let index = self.methods.len() - 1;
        let r = &mut self.methods[index];
        proof {
            assert(old(self).methods@.push(*final(r)) =~= old(self).methods@.push(*r).update(
                index as int,
                *final(r),
            ));
        }
        r
    }

    /// Builds the URL for a call of the method at position `method`.
    pub fn get_request_url(&self, method: usize, params: &[RequestParameter]) -> (url: String)
        requires
            method < self@.methods.len(),
        ensures
            url@ == self.url_of(method as int, params@),
    {
        proof {
            reveal_strlit("/");
            assert("/"@ =~= seq!['/']);
        }
        let m = &self.methods[method];
        let mut url = self.base_url.clone();
        url.append("/");
        url.append(m.get_uri());
        url.append("/");
        let pairs = merge_parameters(m.get_parameter(), params, ParameterKind::Url);
        let ghost head = url@;
        let ghost emitted = pairs_view(pairs@);
        let mut i: usize = 0;
        assert(url@ =~= head + query_string(emitted.take(0)));
        while i < pairs.len()
            invariant
                i <= pairs.len(),
                emitted == pairs_view(pairs@),
                url@ == head + query_string(emitted.take(i as int)),
            decreases pairs.len() - i,
        {
            proof {
                assert(emitted.take(i + 1).drop_last() =~= emitted.take(i as int));
                assert(emitted.take(i + 1).last() == emitted[i as int]);
            }
            let ghost before = url@;
            if i == 0 {
                url.append("?");
            } else {
                url.append("&");
            }
            url.append(pairs[i].0.as_str());
            url.append("=");
            url.append(pairs[i].1.as_str());
            proof {
                reveal_strlit("?");
                reveal_strlit("&");
                reveal_strlit("=");
                assert("?"@ =~= seq!['?']);
                assert("&"@ =~= seq!['&']);
                assert("="@ =~= seq!['=']);
                let next = emitted.take(i + 1);
                assert(next.len() == i + 1);
                assert(emitted[i as int] == (pairs@[i as int].0@, pairs@[i as int].1@));
                let separator = if i == 0 {
                    '?'
                } else {
                    '&'
                };
                assert(query_string(next) == query_string(emitted.take(i as int)) + seq![separator]
                    + next.last().0 + seq!['='] + next.last().1);
                assert(url@ =~= before + seq![separator] + pairs@[i as int].0@ + seq!['=']
                    + pairs@[i as int].1@);
                assert(url@ =~= head + query_string(next));
            }
            i += 1;
        }
        proof {
            assert(emitted.take(i as int) =~= emitted);
            assert(head =~= self@.base_url + seq!['/'] + m@.uri + seq!['/']);
        }
        url
    }

    /// Builds the headers for a call of the method at position `method`.
    pub fn get_request_header(&self, method: usize, params: &[RequestParameter]) -> (headers:
        ehttp::Headers)
        requires
            method < self@.methods.len(),
        ensures
            header_pairs(headers) == self.headers_of(method as int, params@),
    {
        let m = &self.methods[method];
        let pairs = merge_parameters(m.get_parameter(), params, ParameterKind::Header);
        let mut headers = headers_new();
        insert_headers(&mut headers, &pairs);
        assert(header_pairs(headers) =~= pairs_view(pairs@));
        headers
    }

    /// Builds the request for a call of the method at position `method`:
    /// its verb, URL and headers, and an empty body. Fails, without building
    /// anything, where no method has this position.
    pub fn build_request(&self, method: usize, params: &[RequestParameter]) -> (r: Result<
        RockeryRequest,
        RockeryError,
    >)
        ensures
            r.is_ok() <==> method < self@.methods.len(),
            match r {
                Ok(request) => {
                    &&& request.method == self@.methods[method as int]@.request_method
                    &&& request.url@ == self.url_of(method as int, params@)
                    &&& header_pairs(request.headers) == self.headers_of(method as int, params@)
                    &&& request.body@ == Seq::<u8>::empty()
                },
                Err(e) => e.is(
                    ErrorKind::NotFound,
                    invalid_index_message(self@.methods.len(), method as nat),
                ),
            },
    {
        if method >= self.methods.len() {
            let mut message = "Invalid index. There are only ".to_owned();
            append_decimal(&mut message, self.methods.len());
            message.append(" methods but method ");
            append_decimal(&mut message, method);
            message.append(" was requested.");
            return Err(RockeryError::new(ErrorKind::NotFound, message));
        }
        let url = self.get_request_url(method, params);
        let headers = self.get_request_header(method, params);
        Ok(
            RockeryRequest {
                method: self.methods[method].get_request_method(),
                url,
                headers,
                body: Vec::new(),
            },
        )
    }

    /// Builds the request for a call of the method at position `method` and
    /// lets the authentication of this service make its change to it.
    pub fn prepare_request(&self, method: usize, params: &[RequestParameter]) -> (r: Result<
        RockeryRequest,
        RockeryError,
    >)
        ensures
            r.is_ok() <==> method < self@.methods.len(),
            match r {
                Ok(request) => {
                    &&& request.method == self@.methods[method as int]@.request_method
                    &&& request.url@ == self.url_of(method as int, params@)
                    &&& header_pairs(request.headers) == self@.authentication.authorized_headers(
                        self.headers_of(method as int, params@),
                    )
                    &&& request.body@ == Seq::<u8>::empty()
                },
                Err(e) => e.is(
                    ErrorKind::NotFound,
                    invalid_index_message(self@.methods.len(), method as nat),
                ),
            },
    {
        match self.build_request(method, params) {
            Ok(request) => {
                let mut request = request;
                self.authentication.authorize(&mut request);
                Ok(request)
            },
            Err(e) => Err(e),
        }
    }

    /// Turns what the transport gave for a request into the result of the
    /// call: the parts of the response, or a transport failure that carries
    /// the transport's message.
    pub fn finish_request(outcome: Result<RockeryResponse, String>) -> (r: Result<
        (u16, String, ehttp::Headers, Vec<u8>),
        RockeryError,
    >)
        ensures
            match (outcome, r) {
                (Ok(response), Ok(parts)) => {
                    &&& parts.0 == response.status
                    &&& parts.1 == response.status_text
                    &&& parts.2 == response.headers
                    &&& parts.3 == response.bytes
                },
                (Err(cause), Err(e)) => e.is(
                    ErrorKind::TransportFailure,
                    transport_message(cause@),
                ),
                _ => false,
            },
    {
        match outcome {
            Ok(response) => Ok(
                (response.status, response.status_text, response.headers, response.bytes),
            ),
            Err(cause) => {
                let mut message = "Could not execute request. Error: ".to_owned();
                message.append(cause.as_str());
                Err(RockeryError::new(ErrorKind::TransportFailure, message))
            },
        }
    }
}

} // verus!
