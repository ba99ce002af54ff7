use rockery_datamodel::prelude::{
    AuthenticationType, BasicAuthenticationAuthentication, ErrorKind, NoAuthenticationAuthentication,
    RequestMethod, RequestParameter, RockeryResponse, RockeryService, RockeryServiceType,
};

fn get_feiertage_service() -> RockeryService {
    let mut service = RockeryService::new(RockeryServiceType::Rest, "https://feiertage-api.de");
    service.set_authentication(AuthenticationType::NoAuthentication(
        NoAuthenticationAuthentication {},
    ));
    service.set_name("Feiertage API");
    service.set_service_type(RockeryServiceType::Rest);

    let m = service.add_method("get feiertage", "api");
    m.add_parameter(RequestParameter::Url("jahr".to_owned(), Some("2024".to_owned())));
    m.add_parameter(RequestParameter::Url("nur_land".to_owned(), None));
    m.add_parameter(RequestParameter::Url("nur_daten".to_owned(), None));
    m.add_parameter(RequestParameter::Url("callback".to_owned(), None));

    service
}

fn header_service() -> RockeryService {
    let mut service = RockeryService::new(RockeryServiceType::Generic, "http://localhost");
    let m = service.add_method("list", "items");
    m.set_request_method(RequestMethod::Post);
    m.add_parameter(RequestParameter::Header("Accept".to_owned(), Some("*/*".to_owned())));
    m.add_parameter(RequestParameter::Url("page".to_owned(), Some("1".to_owned())));
    m.add_parameter(RequestParameter::Header("X-Token".to_owned(), None));
    m.add_parameter(RequestParameter::Body("payload".to_owned(), Some("x".to_owned())));
    m.add_parameter(RequestParameter::Header("accept".to_owned(), Some("text/plain".to_owned())));
    service
}

fn pair(k: &str, v: &str) -> (String, String) {
    (k.to_owned(), v.to_owned())
}

#[test]
fn test_url_logic() {
    let service = get_feiertage_service();

    let mut url = service.get_request_url(0, &Vec::new());
    assert_eq!("https://feiertage-api.de/api/?jahr=2024", url);

    let mut params_override =
        vec![RequestParameter::Url("jahr".to_owned(), Some("2016".to_owned()))];
    url = service.get_request_url(0, &params_override);
    assert_eq!("https://feiertage-api.de/api/?jahr=2016", url);

    params_override.push(RequestParameter::Url("nur_land".to_owned(), Some("NI".to_owned())));
    url = service.get_request_url(0, &params_override);
    assert_eq!("https://feiertage-api.de/api/?jahr=2016&nur_land=NI", url);

    params_override.push(RequestParameter::Url("nur_daten".to_owned(), Some("1".to_owned())));
    url = service.get_request_url(0, &params_override);
    assert_eq!("https://feiertage-api.de/api/?jahr=2016&nur_land=NI&nur_daten=1", url);
}

#[test]
fn test_invalid_index() {
    let service = get_feiertage_service();
    if let Ok(_) = service.prepare_request(1, &Vec::new()) {
        panic!("Calling the subject with method id 1 should result in an error.")
    }
}

#[test]
fn invalid_index_is_not_found_and_names_both_numbers() {
    let service = get_feiertage_service();
    let e = service.build_request(12, &Vec::new()).unwrap_err();
    assert_eq!(e.kind(), ErrorKind::NotFound);
    assert_eq!(
        e.to_string(),
        "Invalid index. There are only 1 methods but method 12 was requested."
    );
    let empty = RockeryService::new(RockeryServiceType::Soap, "http://x");
    let e = empty.build_request(0, &Vec::new()).unwrap_err();
    assert_eq!(e.kind(), ErrorKind::NotFound);
    assert_eq!(
        e.to_string(),
        "Invalid index. There are only 0 methods but method 0 was requested."
    );
}

#[test]
fn url_without_emitted_pairs_has_no_query() {
    let mut service = RockeryService::new(RockeryServiceType::Rest, "http://h");
    let m = service.add_method("m", "p");
    m.add_parameter(RequestParameter::Url("a".to_owned(), None));
    m.add_parameter(RequestParameter::Header("b".to_owned(), Some("c".to_owned())));
    assert_eq!(service.get_request_url(0, &Vec::new()), "http://h/p/");
}

#[test]
fn override_order_does_not_change_output_order() {
    let service = get_feiertage_service();
    let overrides = vec![
        RequestParameter::Url("callback".to_owned(), Some("f".to_owned())),
        RequestParameter::Url("nur_land".to_owned(), Some("NI".to_owned())),
        RequestParameter::Url("jahr".to_owned(), Some("2016".to_owned())),
    ];
    assert_eq!(
        service.get_request_url(0, &overrides),
        "https://feiertage-api.de/api/?jahr=2016&nur_land=NI&callback=f"
    );
}

#[test]
fn override_without_value_or_of_other_kind_is_ignored() {
    let service = get_feiertage_service();
    let overrides = vec![
        RequestParameter::Url("jahr".to_owned(), None),
        RequestParameter::Header("jahr".to_owned(), Some("1999".to_owned())),
        RequestParameter::Body("nur_land".to_owned(), Some("NI".to_owned())),
        RequestParameter::Url("unknown".to_owned(), Some("1".to_owned())),
    ];
    assert_eq!(
        service.get_request_url(0, &overrides),
        "https://feiertage-api.de/api/?jahr=2024"
    );
}

#[test]
fn last_override_with_a_value_wins() {
    let service = get_feiertage_service();
    let overrides = vec![
        RequestParameter::Url("jahr".to_owned(), Some("2001".to_owned())),
        RequestParameter::Url("jahr".to_owned(), Some("2002".to_owned())),
        RequestParameter::Url("jahr".to_owned(), None),
    ];
    assert_eq!(
        service.get_request_url(0, &overrides),
        "https://feiertage-api.de/api/?jahr=2002"
    );
}

#[test]
fn headers_follow_stored_order_and_keep_case() {
    let service = header_service();
    let headers = service.get_request_header(0, &Vec::new());
    assert_eq!(headers.headers, vec![pair("Accept", "*/*"), pair("accept", "text/plain")]);

    let overrides = vec![
        RequestParameter::Header("X-Token".to_owned(), Some("t".to_owned())),
        RequestParameter::Header("Accept".to_owned(), Some("application/json".to_owned())),
        RequestParameter::Url("Accept".to_owned(), Some("no".to_owned())),
    ];
    let headers = service.get_request_header(0, &overrides);
    assert_eq!(
        headers.headers,
        vec![pair("Accept", "application/json"), pair("X-Token", "t"), pair("accept", "text/plain")]
    );
}

#[test]
fn build_request_assembles_verb_url_headers_and_empty_body() {
    let service = header_service();
    let request = service.build_request(0, &Vec::new()).unwrap();
    assert_eq!(request.method, RequestMethod::Post);
    assert_eq!(request.url, "http://localhost/items/?page=1");
    assert_eq!(request.headers.headers, vec![pair("Accept", "*/*"), pair("accept", "text/plain")]);
    assert!(request.body.is_empty());
}

#[test]
fn no_authentication_leaves_the_request_as_it_is() {
    let service = header_service();
    let request = service.prepare_request(0, &Vec::new()).unwrap();
    assert_eq!(request.url, "http://localhost/items/?page=1");
    assert_eq!(request.headers.headers, vec![pair("Accept", "*/*"), pair("accept", "text/plain")]);
}

#[test]
fn basic_authentication_appends_the_credential() {
    let mut service = header_service();
    let basic = BasicAuthenticationAuthentication::new("user", "pass");
    assert_eq!(basic.credential(), "dXNlcjpwYXNz");
    service.set_authentication(AuthenticationType::Basic(basic));
    let request = service.prepare_request(0, &Vec::new()).unwrap();
    assert_eq!(
        request.headers.headers,
        vec![
            pair("Accept", "*/*"),
            pair("accept", "text/plain"),
            pair("Authorization", "dXNlcjpwYXNz")
        ]
    );
    assert_eq!(request.method, RequestMethod::Post);
}

#[test]
fn basic_authentication_default_is_empty() {
    let basic = BasicAuthenticationAuthentication::default();
    assert_eq!(basic.get_username(), "");
    assert_eq!(basic.get_password(), "");
    assert_eq!(basic.credential(), "Og==");
    assert_eq!(AuthenticationType::Basic(basic).tag(), "BasicAuthenticationAuthentication");
}

#[test]
fn finish_request_hands_the_response_out() {
    let mut headers = ehttp::Headers::new(&[]);
    headers.insert("Content-Type", "text/plain");
    let response = RockeryResponse {
        status: 200,
        status_text: "OK".to_owned(),
        headers,
        bytes: vec![1, 2, 3],
    };
    let (status, text, headers, bytes) = RockeryService::finish_request(Ok(response)).unwrap();
    assert_eq!(status, 200);
    assert_eq!(text, "OK");
    assert_eq!(headers.headers, vec![pair("Content-Type", "text/plain")]);
    assert_eq!(bytes, vec![1, 2, 3]);
}

#[test]
fn finish_request_reports_a_transport_failure() {
    let e = RockeryService::finish_request(Err("timed out".to_owned())).unwrap_err();
    assert_eq!(e.kind(), ErrorKind::TransportFailure);
    assert_eq!(e.to_string(), "Could not execute request. Error: timed out");
}

#[test]
fn service_getters_and_setters() {
    let mut service = RockeryService::new(RockeryServiceType::Generic, "http://a");
    assert_eq!(service.get_name(), "Unnamed");
    assert_eq!(*service.get_service_type(), RockeryServiceType::Generic);
    assert_eq!(service.get_base_url(), "http://a");
    assert!(service.get_definition_url().is_none());
    assert!(service.get_methods().is_empty());
    assert_eq!(service.get_authentication().tag(), "NoAuthenticationAuthentication");
    service.set_definition_url(Some("http://a/wsdl".to_owned()));
    assert_eq!(service.get_definition_url().as_deref(), Some("http://a/wsdl"));
    service.add_method("one", "x");
    service.add_method("one", "y");
    assert_eq!(service.get_methods().len(), 2);
    assert_eq!(service.get_methods()[1].get_uri(), "y");
    assert_eq!(service.get_methods()[1].get_name(), "one");
}

#[test]
fn authentication_is_restored_from_its_tag() {
    let none = AuthenticationType::restore("NoAuthenticationAuthentication", "u", "p").unwrap();
    assert_eq!(none.tag(), "NoAuthenticationAuthentication");
    let basic = AuthenticationType::restore("BasicAuthenticationAuthentication", "u", "p").unwrap();
    match &basic {
        AuthenticationType::Basic(b) => {
            assert_eq!(b.get_username(), "u");
            assert_eq!(b.get_password(), "p");
            assert_eq!(b.credential(), "dTpw");
        }
        _ => panic!("a basic scheme was asked for"),
    }
    assert_eq!(basic.tag(), "BasicAuthenticationAuthentication");
    let e = AuthenticationType::restore("Digest", "u", "p").unwrap_err();
    assert_eq!(e.kind(), ErrorKind::SerializationFailure);
    assert_eq!(e.to_string(), "Unknown authentication scheme: Digest");
}

#[test]
fn an_empty_override_value_counts_as_supplied() {
    let service = get_feiertage_service();
    let overrides = vec![RequestParameter::Url("jahr".to_owned(), Some(String::new()))];
    assert_eq!(service.get_request_url(0, &overrides), "https://feiertage-api.de/api/?jahr=");
}
