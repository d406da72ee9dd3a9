//! The method vocabulary and the status registry.
use httpcore::errors::ParseError;
use httpcore::method::Method;
use httpcore::status::HttpStatus;

const METHODS: [Method; 6] = [
    Method::GET,
    Method::POST,
    Method::PUT,
    Method::PATCH,
    Method::DELETE,
    Method::OPTIONS,
];

#[test]
fn token_round_trip_all_six() {
    for m in METHODS {
        let token = m.to_str();
        assert_eq!(Method::from_str(token.as_slice()), Ok(m));
    }
}

#[test]
fn tokens_are_exact() {
    assert_eq!(Method::GET.to_str(), b"GET");
    assert_eq!(Method::POST.to_str(), b"POST");
    assert_eq!(Method::PUT.to_str(), b"PUT");
    assert_eq!(Method::PATCH.to_str(), b"PATCH");
    assert_eq!(Method::DELETE.to_str(), b"DELETE");
    assert_eq!(Method::OPTIONS.to_str(), b"OPTIONS");
}

#[test]
fn unknown_tokens_rejected() {
    for bad in [
        &b"FETCH"[..],
        b"get",
        b"Get",
        b"",
        b"GETT",
        b"POST ",
        b"HEAD",
        b"CONNECT",
        b"TRACE",
    ] {
        assert_eq!(Method::from_str(bad), Err(ParseError::InvalidMethod));
    }
}

#[test]
fn implied_status_table() {
    assert_eq!(Method::GET.to_status().get_code(), 200);
    assert_eq!(Method::POST.to_status().get_code(), 201);
    assert_eq!(Method::PUT.to_status().get_code(), 201);
    assert_eq!(Method::PATCH.to_status().get_code(), 201);
    assert_eq!(Method::DELETE.to_status().get_code(), 204);
    assert_eq!(Method::OPTIONS.to_status().get_code(), 200);
}

#[test]
fn request_body_expectations() {
    assert!(!Method::GET.has_body());
    assert!(Method::POST.has_body());
    assert!(Method::PUT.has_body());
    assert!(Method::PATCH.has_body());
    assert!(!Method::DELETE.has_body());
    assert!(!Method::OPTIONS.has_body());
}

#[test]
fn response_body_expectations() {
    assert!(Method::GET.has_response_body());
    assert!(Method::POST.has_response_body());
    assert!(Method::PUT.has_response_body());
    assert!(Method::PATCH.has_response_body());
    assert!(!Method::DELETE.has_response_body());
    assert!(Method::OPTIONS.has_response_body());
}

#[test]
fn only_options_is_preflight() {
    for m in METHODS {
        assert_eq!(m.is_preflight(), m == Method::OPTIONS);
    }
}

#[test]
fn status_registry() {
    assert_eq!(HttpStatus::ok().get_code(), 200);
    assert_eq!(HttpStatus::created().get_code(), 201);
    assert_eq!(HttpStatus::no_content().get_code(), 204);
    assert_eq!(HttpStatus::ok().get_message(), b"OK");
    assert_eq!(HttpStatus::created().get_message(), b"Created");
    assert_eq!(HttpStatus::no_content().get_message(), b"No Content");
}
