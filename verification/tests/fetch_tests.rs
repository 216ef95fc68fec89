use vatsim_utils::errors::VatsimUtilError;
use vatsim_utils::fetch::{classify_response, finish_decode, TransportOutcome};
use vatsim_utils::models::{ConnectionEntry, PaginatedResponse};

#[test]
fn status_codes_classify_exactly() {
    let cases: [(u16, bool); 6] = [
        (200, true),
        (201, true),
        (301, false),
        (400, false),
        (404, false),
        (500, false),
    ];
    for (code, success) in cases {
        let outcome = TransportOutcome::Response {
            status: code,
            body: vec![1, 2, 3],
        };
        let result = classify_response(outcome);
        if success {
            assert_eq!(result, Ok(vec![1, 2, 3]));
        } else {
            assert_eq!(result, Err(VatsimUtilError::InvalidStatusCode(code)));
        }
    }
}

#[test]
fn success_range_boundaries() {
    for (code, success) in [(199u16, false), (200, true), (299, true), (300, false)] {
        let outcome = TransportOutcome::Response {
            status: code,
            body: vec![],
        };
        assert_eq!(classify_response(outcome).is_ok(), success);
    }
}

#[test]
fn transport_failure_classifies_as_reqwest_error() {
    let result = classify_response(TransportOutcome::Failure);
    assert_eq!(result, Err(VatsimUtilError::ReqwestError()));
}

#[test]
fn success_body_passes_through_unchanged() {
    let body = b"{\"count\": 1}".to_vec();
    let outcome = TransportOutcome::Response {
        status: 200,
        body: body.clone(),
    };
    assert_eq!(classify_response(outcome), Ok(body));
}

#[test]
fn decoded_page_surfaces_next_link_unchanged() {
    let page: PaginatedResponse<ConnectionEntry> = PaginatedResponse {
        count: 42,
        next: Some(String::from(
            "https://api.vatsim.net/api/ratings/1234567890/connections?page=2",
        )),
        previous: None,
        results: vec![],
    };
    let result = finish_decode(Some(page.clone()));
    assert_eq!(result, Ok(page.clone()));
    assert_eq!(
        result.unwrap().next,
        Some(String::from(
            "https://api.vatsim.net/api/ratings/1234567890/connections?page=2"
        ))
    );
}

#[test]
fn failed_decode_becomes_json_parse_error() {
    let result: Result<PaginatedResponse<ConnectionEntry>, VatsimUtilError> = finish_decode(None);
    assert_eq!(result, Err(VatsimUtilError::FailedJsonParse()));
}

#[test]
fn error_messages_are_exact() {
    assert_eq!(
        VatsimUtilError::InvalidStatusCode(404).message(),
        "Invalid HTTP status code received: 404"
    );
    assert_eq!(VatsimUtilError::ReqwestError().message(), "HTTP transport failure");
    assert_eq!(
        VatsimUtilError::FailedJsonParse().message(),
        "Failed to serialize/deserialize JSON"
    );
    assert_eq!(
        VatsimUtilError::NoV3Url().message(),
        "Could not retrieve a V3 URL from the status page"
    );
    assert_eq!(
        VatsimUtilError::NoTransceiversUrl().message(),
        "Could not retrieve a transceivers URL from the status page"
    );
}
