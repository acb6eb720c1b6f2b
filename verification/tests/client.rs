use njalla_webhook::error::Error;
use njalla_webhook::njalla::client::{authorization_value, http_failure, listed};
use njalla_webhook::njalla::{JsonRpcError, JsonRpcResponse};

fn response(result: Option<u8>, error: Option<JsonRpcError>) -> JsonRpcResponse<u8> {
    JsonRpcResponse { jsonrpc: "2.0".to_string(), result, error, id: 1 }
}

#[test]
fn unsuccessful_status_is_a_provider_failure() {
    assert_eq!(
        http_failure("503 Service Unavailable", "try later"),
        Error::NjallaApi("HTTP 503 Service Unavailable: try later".to_string())
    );
    assert_eq!(http_failure("404 Not Found", ""), Error::NjallaApi("HTTP 404 Not Found: ".to_string()));
}

#[test]
fn answer_with_result_is_the_result() {
    assert_eq!(response(Some(7), None).into_result(), Ok(7));
}

#[test]
fn answer_with_failure_member_is_a_provider_failure() {
    let fault = JsonRpcError { code: -32600, message: "Invalid Request".to_string() };
    assert_eq!(
        response(None, Some(fault.clone())).into_result(),
        Err(Error::NjallaApi("API error -32600: Invalid Request".to_string()))
    );
    assert_eq!(
        response(Some(7), Some(fault)).into_result(),
        Err(Error::NjallaApi("API error -32600: Invalid Request".to_string()))
    );
    let other = JsonRpcError { code: 403, message: "".to_string() };
    assert_eq!(
        response(None, Some(other)).into_result(),
        Err(Error::NjallaApi("API error 403: ".to_string()))
    );
    let least = JsonRpcError { code: i32::MIN, message: "m".to_string() };
    assert_eq!(
        response(None, Some(least)).into_result(),
        Err(Error::NjallaApi("API error -2147483648: m".to_string()))
    );
}

#[test]
fn answer_with_neither_member_is_a_provider_failure() {
    assert_eq!(
        response(None, None).into_result(),
        Err(Error::NjallaApi("Empty response from Njalla API".to_string()))
    );
}

#[test]
fn missing_list_is_a_provider_failure() {
    assert_eq!(listed(Some(vec![1, 2]), "records"), Ok(vec![1, 2]));
    assert_eq!(listed(Some(Vec::<u8>::new()), "records"), Ok(vec![]));
    assert_eq!(
        listed(None::<Vec<u8>>, "records"),
        Err(Error::NjallaApi("Invalid records response".to_string()))
    );
    assert_eq!(
        listed(None::<Vec<u8>>, "domains"),
        Err(Error::NjallaApi("Invalid domains response".to_string()))
    );
}

#[test]
fn token_that_a_header_can_hold_is_accepted() {
    assert_eq!(authorization_value("abc123"), Ok("Njalla abc123".to_string()));
    assert_eq!(authorization_value(""), Ok("Njalla ".to_string()));
    assert_eq!(authorization_value("a\tb"), Ok("Njalla a\tb".to_string()));
    assert_eq!(authorization_value("tökén"), Ok("Njalla tökén".to_string()));
}

#[test]
fn token_with_control_characters_is_refused() {
    let refused = Err(Error::Configuration(
        "Invalid API token: failed to parse header value".to_string(),
    ));
    assert_eq!(authorization_value("abc\n"), refused);
    assert_eq!(authorization_value("a\rb"), refused);
    assert_eq!(authorization_value("\u{7f}"), refused);
    assert_eq!(authorization_value("a\u{0}b"), refused);
}
