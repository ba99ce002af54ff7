//! The classification of a service.

use vstd::prelude::*;
use crate::text::starts_with;

verus! {

/// What kind of API a service is.
#[derive(Debug, Clone, Copy, PartialEq, Eq, Structural)]
pub enum RockeryServiceType {
    Generic,
    /// Described by a WSDL document.
    Soap,
    /// Described by a WADL document.
    Rest,
}

impl RockeryServiceType {
    /// The tag that stands for this type.
    pub open spec fn text(self) -> Seq<char> {
        match self {
            RockeryServiceType::Generic => "GENERIC"@,
            RockeryServiceType::Soap => "SOAP"@,
            RockeryServiceType::Rest => "REST"@,
        }
    }

    /// The type that a text names: that of the first tag, in the order
    /// generic, SOAP, REST, with which the text begins.
    pub open spec fn parsed(input: Seq<char>) -> Option<RockeryServiceType> {
        if "GENERIC"@.is_prefix_of(input) {
            Some(RockeryServiceType::Generic)
        } else if "SOAP"@.is_prefix_of(input) {
            Some(RockeryServiceType::Soap)
        } else if "REST"@.is_prefix_of(input) {
            Some(RockeryServiceType::Rest)
        } else {
            None
        }
    }

    /// The tag that stands for this type.
    pub fn to_string(&self) -> (r: String)
        ensures
            r@ == self.text(),
    {
        match self {
            RockeryServiceType::Generic => "GENERIC".to_owned(),
            RockeryServiceType::Soap => "SOAP".to_owned(),
            RockeryServiceType::Rest => "REST".to_owned(),
        }
    }

    /// Reads a type from a text that begins with its tag.
    pub fn from_str(input: &str) -> (r: Result<RockeryServiceType, ()>)
        ensures
            match r {
                Ok(t) => Self::parsed(input@) == Some(t),
                Err(_) => Self::parsed(input@).is_none(),
            },
    {
        if starts_with(input, "GENERIC") {
            Ok(RockeryServiceType::Generic)
        } else if starts_with(input, "SOAP") {
            Ok(RockeryServiceType::Soap)
        } else if starts_with(input, "REST") {
            Ok(RockeryServiceType::Rest)
        } else {
            Err(())
        }
    }
}

impl Default for RockeryServiceType {
    /// The generic type.
    fn default() -> (r: RockeryServiceType)
        ensures
            r == RockeryServiceType::Generic,
    {
        RockeryServiceType::Generic
    }
}

/// Reading the tag of a type gives the type back.
pub proof fn lemma_service_type_round_trip(t: RockeryServiceType)
    ensures
        RockeryServiceType::parsed(t.text()) == Some(t),
{
    reveal_strlit("GENERIC");
    reveal_strlit("SOAP");
    reveal_strlit("REST");
    match t {
        RockeryServiceType::Generic => {
            assert("GENERIC"@.subrange(0, 7) =~= "GENERIC"@);
        },
        RockeryServiceType::Soap => {
            assert("SOAP"@.subrange(0, 4) =~= "SOAP"@);
            assert("SOAP"@[0] != "GENERIC"@[0]);
        },
        RockeryServiceType::Rest => {
            assert("REST"@.subrange(0, 4) =~= "REST"@);
            assert("REST"@[0] != "GENERIC"@[0]);
            assert("REST"@[0] != "SOAP"@[0]);
        },
    }
}

} // verus!
