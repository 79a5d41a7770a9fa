use rust_proxy::config::TokenValidationConfig;
use rust_proxy::token_validator::{BearerTokenValidator, RequestAuth, TokenValidator};

#[test]
fn test_bearer_token_validator_success() {
    let config = TokenValidationConfig {
        verified_token: vec!["token01".to_string(), "token02".to_string()],
        qualified_token: vec!["token03".to_string()],
    };

    let mut validator = BearerTokenValidator::new(&config, "/api/test".to_string()).unwrap();

    let mut request = RequestAuth {
        authorization: Some(b"Bearer token01".to_vec()),
        event: None,
    };

    let result = validator.validate(&mut request);
    assert!(result.is_ok());

    let auth_header = String::from_utf8(request.authorization.clone().unwrap()).unwrap();
    assert_eq!(auth_header, "Bearer token03");

    assert_eq!(validator.get_success_count(), 1);
}

#[test]
fn test_bearer_token_validator_invalid_token() {
    let config = TokenValidationConfig {
        verified_token: vec!["token01".to_string()],
        qualified_token: vec!["token03".to_string()],
    };

    let mut validator = BearerTokenValidator::new(&config, "/api/test".to_string()).unwrap();

    let mut request = RequestAuth {
        authorization: Some(b"Bearer invalid_token".to_vec()),
        event: None,
    };

    let result = validator.validate(&mut request);
    assert!(result.is_err());
    assert_eq!(validator.get_success_count(), 0);
}

#[test]
fn test_bearer_token_validator_missing_header() {
    let config = TokenValidationConfig {
        verified_token: vec!["token01".to_string()],
        qualified_token: vec!["token03".to_string()],
    };

    let mut validator = BearerTokenValidator::new(&config, "/api/test".to_string()).unwrap();

    let mut request = RequestAuth { authorization: None, event: None };

    let result = validator.validate(&mut request);
    assert!(result.is_err());
    assert_eq!(validator.get_success_count(), 0);
}

#[test]
fn test_bearer_token_validator_invalid_format() {
    let config = TokenValidationConfig {
        verified_token: vec!["token01".to_string()],
        qualified_token: vec!["token03".to_string()],
    };

    let mut validator = BearerTokenValidator::new(&config, "/api/test".to_string()).unwrap();

    let mut request = RequestAuth {
        authorization: Some(b"Basic dGVzdDp0ZXN0".to_vec()),
        event: None,
    };

    let result = validator.validate(&mut request);
    assert!(result.is_err());
    assert_eq!(validator.get_success_count(), 0);
}
