use njalla_webhook::middleware::{is_unprocessable, logs_body, reports_failure};

#[test]
fn only_posted_batches_have_their_body_logged() {
    assert!(logs_body("POST", "/records"));
    assert!(!logs_body("GET", "/records"));
    assert!(!logs_body("POST", "/adjustendpoints"));
    assert!(!logs_body("post", "/records"));
    assert!(!logs_body("POST", "/records/"));
}

#[test]
fn client_and_server_errors_report_failure() {
    for status in [400u16, 403, 404, 422, 499, 500, 502, 599] {
        assert!(reports_failure(status), "{status}");
    }
    for status in [100u16, 200, 204, 301, 399, 600, 999] {
        assert!(!reports_failure(status), "{status}");
    }
}

#[test]
fn only_422_is_unprocessable() {
    assert!(is_unprocessable(422));
    assert!(!is_unprocessable(400));
    assert!(!is_unprocessable(423));
}
