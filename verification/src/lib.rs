//! Definitions of remote API services grouped into projects, the merge of
//! caller-supplied parameter values with stored defaults into a concrete
//! request, and a binder that keeps uniquely named projects together.

pub mod name_index;
pub mod prelude;
pub mod rockery_error;
pub mod rockery_project;
pub mod rockery_project_binder;
pub mod rockery_request;
pub mod rockery_request_method;
pub mod rockery_request_parameter;
pub mod rockery_service;
pub mod rockery_service_authentication;
pub mod rockery_service_method;
pub mod rockery_service_type;
pub mod text;
