use seewo::response::check_status;
use seewo::{decode_response, SeewoError};

#[test]
fn failing_status_wins_over_body() {
    let r = decode_response(500, None, None, "not json");
    assert_eq!(r.unwrap_err(), SeewoError::ResponseStatusCodeError { status_code: 500 });
    let r = decode_response(404, None, None, "{}");
    assert_eq!(r.unwrap_err(), SeewoError::ResponseStatusCodeError { status_code: 404 });
}

#[test]
fn body_that_is_not_json_fails() {
    let r = decode_response(200, None, None, "not json");
    assert_eq!(r.unwrap_err(), SeewoError::JsonError);
}

#[test]
fn success_keeps_ids_and_body() {
    let r = decode_response(200, Some("rid".to_string()), Some("ok".to_string()), "{\"code\":0}").unwrap();
    assert_eq!(r.request_id, Some("rid".to_string()));
    assert_eq!(r.message, Some("ok".to_string()));
    assert_eq!(r.body["code"], 0);
}

#[test]
fn success_range_of_statuses() {
    assert!(check_status(200).is_ok());
    assert!(check_status(299).is_ok());
    assert!(check_status(199).is_err());
    assert_eq!(check_status(300), Err(SeewoError::ResponseStatusCodeError { status_code: 300 }));
}
