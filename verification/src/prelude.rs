//! The names that most callers need.

pub use crate::rockery_error::{ErrorKind, RockeryError};
pub use crate::rockery_project::RockeryProject;
pub use crate::rockery_project_binder::{RockeryProjectBinder, SaveStep};
pub use crate::rockery_request::{RockeryRequest, RockeryResponse};
pub use crate::rockery_request_method::RequestMethod;
pub use crate::rockery_request_parameter::{ParameterKind, RequestParameter};
pub use crate::rockery_service::RockeryService;
pub use crate::rockery_service_authentication::{
    AuthenticationType, BasicAuthenticationAuthentication, NoAuthenticationAuthentication,
};
pub use crate::rockery_service_method::RockeryServiceMethod;
pub use crate::rockery_service_type::RockeryServiceType;
