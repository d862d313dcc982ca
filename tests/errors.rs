use investown_admin::error::{Error, ErrorInfo};
use investown_admin::request::{
    api_url, body_needed, error_for_status, is_success, BodyNeeded, ErrorBody, HttpMethod,
};
use std::collections::HashMap;

#[test]
fn bad_request() {
    let error = Error::BadRequest;
    assert_eq!(error.message(), "Bad Request")
}

#[test]
fn unauthorized() {
    let error = Error::Unauthorized("Test".to_string());
    assert_eq!(error.message(), "Test")
}

#[test]
fn forbidden() {
    let error = Error::Forbidden("Test".to_string());
    assert_eq!(error.message(), "Test")
}

#[test]
fn not_found() {
    let error = Error::NotFound;
    assert_eq!(error.message(), "Not Found")
}

#[test]
fn internal_server_error_message_quotes() {
    let error = Error::InternalServerError("boom".to_string());
    assert_eq!(error.message(), "Internal Server Error: \"boom\"")
}

#[test]
fn unprocessable_message_prefix() {
    let mut errors = HashMap::new();
    errors.insert("name".to_string(), vec!["empty".to_string()]);
    let error = Error::UnprocessableEntity(ErrorInfo { errors });
    let m = error.message();
    assert!(m.starts_with("Unprocessable Entity: "));
    assert!(m.contains("empty"));
}

#[test]
fn other_messages() {
    assert_eq!(Error::DeserializeError.message(), "Deserialize Error");
    assert_eq!(Error::RequestError.message(), "Http Request Error");
    assert_eq!(Error::Conflict("taken".to_string()).message(), "taken");
}

#[test]
fn status_errors() {
    assert_eq!(error_for_status(400, ErrorBody::Absent), Error::BadRequest);
    assert_eq!(
        error_for_status(401, ErrorBody::Message("expired".to_string())),
        Error::Unauthorized("expired".to_string())
    );
    assert_eq!(error_for_status(401, ErrorBody::Unreadable), Error::DeserializeError);
    assert_eq!(error_for_status(403, ErrorBody::Absent), Error::Forbidden(String::new()));
    assert_eq!(error_for_status(404, ErrorBody::Absent), Error::NotFound);
    assert_eq!(
        error_for_status(409, ErrorBody::Message("exists".to_string())),
        Error::Conflict("exists".to_string())
    );
    let info = ErrorInfo { errors: HashMap::new() };
    assert_eq!(
        error_for_status(422, ErrorBody::Details(info.clone())),
        Error::UnprocessableEntity(info)
    );
    assert_eq!(error_for_status(422, ErrorBody::Unreadable), Error::DeserializeError);
    assert_eq!(
        error_for_status(500, ErrorBody::Absent),
        Error::InternalServerError(String::new())
    );
    assert_eq!(error_for_status(418, ErrorBody::Absent), Error::RequestError);
}

#[test]
fn status_bodies_and_success() {
    assert_eq!(body_needed(401), BodyNeeded::Message);
    assert_eq!(body_needed(409), BodyNeeded::Message);
    assert_eq!(body_needed(422), BodyNeeded::Details);
    assert_eq!(body_needed(404), BodyNeeded::Nothing);
    assert!(is_success(200));
    assert!(is_success(299));
    assert!(!is_success(300));
    assert!(!is_success(199));
}

#[test]
fn methods_and_urls() {
    assert!(HttpMethod::Post.allows_body());
    assert!(HttpMethod::Put.allows_body());
    assert!(!HttpMethod::Get.allows_body());
    assert!(!HttpMethod::Patch.allows_body());
    assert!(!HttpMethod::Delete.allows_body());
    assert_eq!(api_url("admin/users"), "http://investown2.test:8081/admin/users");
}
