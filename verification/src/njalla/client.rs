//! How the provider's answers are read.

use crate::error::{text_result, Error, ErrorView};
use crate::njalla::types::JsonRpcResponse;
use crate::text::{join, format_i64, signed_decimal};
use vstd::prelude::*;
use vstd::utf8::encode_utf8;

verus! {

/// The failure that a response with an unsuccessful HTTP status stands
/// for.  `status` is the status as the response shows it, `body` the text
/// that came with it.
pub fn http_failure(status: &str, body: &str) -> (e: Error)
    ensures
        e@ == ErrorView::NjallaApi("HTTP "@ + status@ + ": "@ + body@),
{
    let head = join("HTTP ", status);
    let head = join(head.as_str(), ": ");
    Error::NjallaApi(join(head.as_str(), body))
}

/// The list that an answer of the provider holds under the member
/// `member`, or the failure that reports the member as missing.
pub fn listed<T>(found: Option<Vec<T>>, member: &str) -> (list: Result<Vec<T>, Error>)
    ensures
        match found {
            Some(items) => list == Ok::<Vec<T>, Error>(items),
            None => list matches Err(e) && e@ == ErrorView::NjallaApi(
                "Invalid "@ + member@ + " response"@,
            ),
        },
{
    match found {
        Some(items) => Ok(items),
        None => {
            let text = join("Invalid ", member);
            Err(Error::NjallaApi(join(text.as_str(), " response")))
        },
    }
}

impl<T> JsonRpcResponse<T> {
    /// What the answer stands for.  A failure member wins over a result;
    /// an answer with neither is a failure too.
    pub fn into_result(self) -> (r: Result<T, Error>)
        ensures
            match self.error {
                Some(fault) => r matches Err(e) && e@ == ErrorView::NjallaApi(
                    "API error "@ + signed_decimal(fault.code as int) + ": "@ + fault.message@,
                ),
                None => match self.result {
                    Some(value) => r == Ok::<T, Error>(value),
                    None => r matches Err(e) && e@ == ErrorView::NjallaApi(
                        "Empty response from Njalla API"@,
                    ),
                },
            },
    {
        match self.error {
            Some(fault) => {
                let code = format_i64(fault.code as i64);
                let head = join("API error ", code.as_str());
                let head = join(head.as_str(), ": ");
                Err(Error::NjallaApi(join(head.as_str(), fault.message.as_str())))
            },
            None => match self.result {
                Some(value) => Ok(value),
                None => Err(Error::NjallaApi("Empty response from Njalla API".to_owned())),
            },
        }
    }
}

/// Whether the value of an HTTP header may hold the byte `b`: any byte
/// but the control characters, and of those the tabulator.
pub open spec fn header_byte(b: u8) -> bool {
    b >= 32 && b != 127 || b == 9
}

/// Whether the value of an HTTP header may hold `bytes`.
pub open spec fn header_bytes(bytes: Seq<u8>) -> bool {
    forall|i: int| 0 <= i < bytes.len() ==> header_byte(#[trigger] bytes[i])
}

/// The value of the header that authorizes a call with the token
/// `api_token`: the scheme's name and the token, or a failure where a
/// header cannot hold them.
pub open spec fn authorization_of(api_token: Seq<char>) -> Result<Seq<char>, ErrorView> {
    let value = "Njalla "@ + api_token;
    if header_bytes(encode_utf8(value)) {
        Ok(value)
    } else {
        Err(ErrorView::Configuration("Invalid API token: "@ + "failed to parse header value"@))
    }
}

/// Asks `HeaderValue::from_str`, which `reqwest` hands on from the HTTP
/// library, whether a header can hold `value`, and gives the failure's own
/// words where it cannot.  Taken on trust: the function refuses a text
/// exactly where one of its bytes is no [`header_byte`], and its failure
/// reads `failed to parse header value`.
#[verifier::external_body]
fn header_value_fault(value: &str) -> (fault: Option<String>)
    ensures
        fault is None <==> header_bytes(encode_utf8(value@)),
        fault matches Some(text) ==> text@ == "failed to parse header value"@,
{
    match reqwest::header::HeaderValue::from_str(value) {
        Ok(_) => None,
        Err(e) => Some(e.to_string()),
    }
}

/// The value of the header that authorizes a call with the token
/// `api_token`.
pub fn authorization_value(api_token: &str) -> (value: Result<String, Error>)
    ensures
        text_result(value) == authorization_of(api_token@),
{
    let value = join("Njalla ", api_token);
    match header_value_fault(value.as_str()) {
        None => Ok(value),
        Some(fault) => Err(Error::Configuration(join("Invalid API token: ", fault.as_str()))),
    }
}

} // verus!
