//! One invokable operation of a service.

use vstd::prelude::*;
use crate::rockery_request_method::RequestMethod;
use crate::rockery_request_parameter::{text_view, RequestParameter};

verus! {

/// What a method is made of.
pub struct ServiceMethodView {
    pub name: Seq<char>,
    pub uri: Seq<char>,
    pub request_method: RequestMethod,
    pub parameters: Seq<RequestParameter>,
    pub body: Option<Seq<char>>,
}

/// A single request against a service that can be parameterized: a name,
/// a path relative to the service, a verb, the parameters in the order in
/// which they were defined, and an optional fixed body.
///
/// A parameter with a default is sent with that default unless the caller
/// supplies a value; one without a default is sent only when the caller
/// supplies a value.
#[derive(Debug, Clone)]
pub struct RockeryServiceMethod {
    name: String,
    method_uri: String,
    request_method: RequestMethod,
    parameter: Vec<RequestParameter>,
    body: Option<String>,
}

impl View for RockeryServiceMethod {
    type V = ServiceMethodView;

    closed spec fn view(&self) -> ServiceMethodView {
        ServiceMethodView {
            name: self.name@,
            uri: self.method_uri@,
            request_method: self.request_method,
            parameters: self.parameter@,
            body: text_view(self.body),
        }
    }
}

impl RockeryServiceMethod {
    /// A method has a path: the relative path is never empty. `new`
    /// establishes this and every operation keeps it.
    pub open spec fn well_formed(&self) -> bool {
        self@.uri.len() > 0
    }

    /// A `GET` method without parameters or body.
    pub fn new(name: &str, uri: &str) -> (r: RockeryServiceMethod)
        requires
            uri@.len() > 0,
        ensures
            r@ == (ServiceMethodView {
                name: name@,
                uri: uri@,
                request_method: RequestMethod::Get,
                parameters: Seq::empty(),
                body: None,
            }),
            r.well_formed(),
    {
        RockeryServiceMethod {
            name: name.to_owned(),
            method_uri: uri.to_owned(),
            request_method: RequestMethod::Get,
            parameter: Vec::new(),
            body: None,
        }
    }

    /// The path of the method, relative to the service.
    pub fn get_uri(&self) -> (r: &str)
        ensures
            r@ == self@.uri,
    {
        self.method_uri.as_str()
    }

    /// Sets the path of the method, which may not be empty.
    pub fn set_uri(&mut self, uri: &str)
        requires
            uri@.len() > 0,
        ensures
            final(self)@ == (ServiceMethodView { uri: uri@, ..old(self)@ }),
    {
        self.method_uri = uri.to_owned();
    }

    /// The name of the method.
    pub fn get_name(&self) -> (r: &str)
        ensures
            r@ == self@.name,
    {
        self.name.as_str()
    }

    /// Gives the method another name.
    pub fn set_name(&mut self, name: &str)
        ensures
            final(self)@ == (ServiceMethodView { name: name@, ..old(self)@ }),
    {
        self.name = name.to_owned();
    }

    /// Appends a parameter behind those already defined.
    pub fn add_parameter(&mut self, param: RequestParameter)
        ensures
            final(self)@ == (ServiceMethodView {
                parameters: old(self)@.parameters.push(param),
                ..old(self)@
            }),
    {
        self.parameter.push(param);
    }

    /// The parameters in the order in which they were defined.
    pub fn get_parameter(&self) -> (r: &Vec<RequestParameter>)
        ensures
            r@ == self@.parameters,
    {
        &self.parameter
    }

    /// The verb of the method.
    pub fn get_request_method(&self) -> (r: RequestMethod)
        ensures
            r == self@.request_method,
    {
        self.request_method
    }

    /// Sets the verb of the method.
    pub fn set_request_method(&mut self, method: RequestMethod)
        ensures
            final(self)@ == (ServiceMethodView { request_method: method, ..old(self)@ }),
    {
        self.request_method = method;
    }

    /// The fixed body of the method, if it has one.
    pub fn get_body(&self) -> (r: &Option<String>)
        ensures
            text_view(*r) == self@.body,
    {
        &self.body
    }

    /// Gives the method a fixed body.
    pub fn set_body(&mut self, body: &str)
        ensures
            final(self)@ == (ServiceMethodView { body: Some(body@), ..old(self)@ }),
    {
        self.body = Some(body.to_owned());
    }
}

} // verus!
