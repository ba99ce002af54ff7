use rockery_datamodel::prelude::{
    RequestMethod, RequestParameter, RockeryServiceMethod, RockeryServiceType,
};

#[test]
fn it_works() {}

#[test]
fn getters_and_setters() {
    let mut subject = RockeryServiceMethod::new("test", "api");
    assert_eq!(subject.get_uri(), "api");
    assert_eq!(subject.get_request_method(), RequestMethod::Get);
    assert_eq!(subject.get_parameter().len(), 0);

    subject.set_request_method(RequestMethod::Connect);
    assert_eq!(subject.get_request_method(), RequestMethod::Connect);

    subject.set_uri("aci");
    assert_eq!(subject.get_uri(), "aci");

    subject.add_parameter(RequestParameter::Header("API-KEY".to_owned(), Some("Test".to_owned())));
    assert_eq!(subject.get_parameter().len(), 1);

    for p in subject.get_parameter() {
        match p {
            RequestParameter::Header(k, v) => {
                assert_eq!("API-KEY".to_owned(), *k);
                assert_eq!(Some("Test".to_owned()), *v);
            }
            _ => unreachable!(),
        }
    }
}

#[test]
fn method_name_and_body() {
    let mut subject = RockeryServiceMethod::new("test", "api");
    assert_eq!(subject.get_name(), "test");
    assert!(subject.get_body().is_none());
    subject.set_name("other");
    subject.set_body("{}");
    assert_eq!(subject.get_name(), "other");
    assert_eq!(subject.get_body().as_deref(), Some("{}"));
    assert_eq!(subject.get_uri(), "api");
}

#[test]
fn rockery_request_method_serialization_tests() {
    assert_eq!(RequestMethod::Get.to_string(), RequestMethod::from_str("GET").unwrap().to_string());
    assert_eq!(RequestMethod::Head.to_string(), RequestMethod::from_str("HEAD").unwrap().to_string());
    assert_eq!(RequestMethod::Post.to_string(), RequestMethod::from_str("POST").unwrap().to_string());
    assert_eq!(RequestMethod::Put.to_string(), RequestMethod::from_str("PUT").unwrap().to_string());
    assert_eq!(RequestMethod::Delete.to_string(), RequestMethod::from_str("DELETE").unwrap().to_string());
    assert_eq!(RequestMethod::Connect.to_string(), RequestMethod::from_str("CONNECT").unwrap().to_string());
    assert_eq!(RequestMethod::Options.to_string(), RequestMethod::from_str("OPTIONS").unwrap().to_string());
    assert_eq!(RequestMethod::Trace.to_string(), RequestMethod::from_str("TRACE").unwrap().to_string());
    assert_eq!(RequestMethod::Patch.to_string(), RequestMethod::from_str("PATCH").unwrap().to_string());
}

#[test]
fn request_method_texts_are_exact() {
    assert_eq!(RequestMethod::Delete.to_string(), "DELETE");
    assert_eq!(RequestMethod::Patch.as_str(), "PATCH");
    assert_eq!(RequestMethod::from_str("OPTIONS"), Ok(RequestMethod::Options));
    assert_eq!(RequestMethod::from_str("get"), Err(()));
    assert_eq!(RequestMethod::from_str("GETS"), Err(()));
    assert_eq!(RequestMethod::from_str(""), Err(()));
}

#[test]
fn rockery_service_type_serialization_tests() {
    let mut subject = RockeryServiceType::Generic;
    assert_eq!(subject, RockeryServiceType::from_str(&subject.to_string()).unwrap());

    subject = RockeryServiceType::Soap;
    assert_eq!(subject, RockeryServiceType::from_str(&subject.to_string()).unwrap());

    subject = RockeryServiceType::Rest;
    assert_eq!(subject, RockeryServiceType::from_str(&subject.to_string()).unwrap());
}

#[test]
fn service_type_reads_by_prefix() {
    assert_eq!(RockeryServiceType::Rest.to_string(), "REST");
    assert_eq!(RockeryServiceType::from_str("SOAP 1.2"), Ok(RockeryServiceType::Soap));
    assert_eq!(RockeryServiceType::from_str("GENERICS"), Ok(RockeryServiceType::Generic));
    assert_eq!(RockeryServiceType::from_str("RES"), Err(()));
    assert_eq!(RockeryServiceType::from_str("soap"), Err(()));
    assert_eq!(RockeryServiceType::default(), RockeryServiceType::Generic);
}

#[test]
fn test_serialization() {
    let mut subject = RequestParameter::Url("API".to_owned(), None);
    assert_eq!(subject, RequestParameter::from_str(&subject.to_string()).unwrap());

    subject = RequestParameter::Url("API".to_owned(), Some("Something".to_owned()));
    assert_eq!(subject, RequestParameter::from_str(&subject.to_string()).unwrap());

    subject = RequestParameter::Header("API".to_owned(), None);
    assert_eq!(subject, RequestParameter::from_str(&subject.to_string()).unwrap());

    subject = RequestParameter::Header("API".to_owned(), Some("Something".to_owned()));
    assert_eq!(subject, RequestParameter::from_str(&subject.to_string()).unwrap());

    subject = RequestParameter::Body("API".to_owned(), None);
    assert_eq!(subject, RequestParameter::from_str(&subject.to_string()).unwrap());

    subject = RequestParameter::Body("API".to_owned(), Some("Something".to_owned()));
    assert_eq!(subject, RequestParameter::from_str(&subject.to_string()).unwrap());
}

#[test]
fn parameter_texts_are_exact() {
    let p = RequestParameter::Header("API-KEY".to_owned(), Some("Test".to_owned()));
    assert_eq!(p.to_string(), "HEADER(API-KEY : Test)");
    assert_eq!(RequestParameter::Body("b".to_owned(), None).to_string(), "BODY(b : None)");
    assert_eq!(
        RequestParameter::from_str("URL(  jahr :2024 )"),
        Ok(RequestParameter::Url("jahr".to_owned(), Some("2024".to_owned())))
    );
    assert_eq!(RequestParameter::from_str("URL(a : b : c)"), Err(()));
    assert_eq!(RequestParameter::from_str("URL(a)"), Err(()));
    assert_eq!(RequestParameter::from_str("QUERY(a : b)"), Err(()));
    assert_eq!(
        RequestParameter::from_str("BODY(myBODY : (x))"),
        Ok(RequestParameter::Body("my".to_owned(), Some("x".to_owned())))
    );
}
