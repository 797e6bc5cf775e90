//! The rules of the ESP-Miner web API client: where a command is sent, which
//! methods it takes, and what to do after each attempt. The transport itself
//! lives with the caller.
use vstd::prelude::*;
use crate::text::{decimal_chars, decimal_string, str_equals};

verus! {

/// Errors of the ESP-Miner web API.
#[derive(Debug, Clone)]
pub enum ESPMinerError {
    /// Connection problems, name resolution and the like.
    NetworkError(String),
    /// A response with a status other than success.
    HttpError(u16),
    /// A response body that did not decode.
    ParseError(String),
    /// A request that could not be built.
    RequestError(String),
    /// No response in time.
    Timeout,
    /// An HTTP method the API does not take.
    UnsupportedMethod(String),
    /// Every attempt failed and errors were to be ignored.
    MaxRetriesExceeded,
    WebError,
}

/// The human-readable text of an error.
pub open spec fn error_text(e: ESPMinerError) -> Seq<char> {
    match e {
        ESPMinerError::NetworkError(m) => "Network error: "@ + m@,
        ESPMinerError::HttpError(code) => "HTTP error: "@ + decimal_chars(code as nat),
        ESPMinerError::ParseError(m) => "Parse error: "@ + m@,
        ESPMinerError::RequestError(m) => "Request error: "@ + m@,
        ESPMinerError::Timeout => "Request timeout"@,
        ESPMinerError::UnsupportedMethod(m) => "Unsupported method: "@ + m@,
        ESPMinerError::MaxRetriesExceeded => "Maximum retries exceeded"@,
        ESPMinerError::WebError => "Web error"@,
    }
}

impl ESPMinerError {
    /// The human-readable text of this error.
    pub fn message(&self) -> (r: String)
        ensures
            r@ == error_text(*self),
    {
        match self {
            ESPMinerError::NetworkError(m) => String::from_str("Network error: ").concat(m.as_str()),
            ESPMinerError::HttpError(code) => {
                let digits = decimal_string(*code as u64);
                String::from_str("HTTP error: ").concat(digits.as_str())
            },
            ESPMinerError::ParseError(m) => String::from_str("Parse error: ").concat(m.as_str()),
            ESPMinerError::RequestError(m) => String::from_str("Request error: ").concat(m.as_str()),
            ESPMinerError::Timeout => String::from_str("Request timeout"),
            ESPMinerError::UnsupportedMethod(m) => String::from_str("Unsupported method: ").concat(m.as_str()),
            ESPMinerError::MaxRetriesExceeded => String::from_str("Maximum retries exceeded"),
            ESPMinerError::WebError => String::from_str("Web error"),
        }
    }
}

/// How one attempt at a command ended.
#[derive(Debug)]
pub enum AttemptOutcome {
    /// A success status with a body that decoded.
    Decoded,
    /// A success status with a body that did not decode.
    DecodeFailed(String),
    /// A status other than success.
    Status(u16),
    /// No response.
    Failed(ESPMinerError),
}

/// What follows an attempt.
#[derive(Debug)]
pub enum NextStep {
    /// The decoded body is the result.
    Done,
    /// Try the command again.
    Retry,
    /// The command fails with this error.
    Fail(ESPMinerError),
}

/// Settings of the web API client of one ESP-Miner device.
pub struct ESPMinerWebAPI {
    /// The device's network address.
    pub ip: String,
    port: u16,
    timeout_ms: u64,
    retries: u32,
}

impl ESPMinerWebAPI {
    pub closed spec fn spec_ip(&self) -> Seq<char> {
        self.ip@
    }

    pub closed spec fn spec_port(&self) -> u16 {
        self.port
    }

    pub closed spec fn spec_timeout_ms(&self) -> u64 {
        self.timeout_ms
    }

    pub closed spec fn spec_retries(&self) -> u32 {
        self.retries
    }

    /// A client for the device at `ip` and `port`: a timeout of five seconds
    /// and one retry.
    pub fn new(ip: String, port: u16) -> (r: Self)
        ensures
            r.spec_ip() == ip@,
            r.spec_port() == port,
            r.spec_timeout_ms() == 5000,
            r.spec_retries() == 1,
    {
        ESPMinerWebAPI { ip, port, timeout_ms: 5000, retries: 1 }
    }

    /// The same client with another timeout per request, in milliseconds.
    pub fn with_timeout(self, timeout_ms: u64) -> (r: Self)
        ensures
            r.spec_ip() == self.spec_ip(),
            r.spec_port() == self.spec_port(),
            r.spec_timeout_ms() == timeout_ms,
            r.spec_retries() == self.spec_retries(),
    {
        ESPMinerWebAPI { timeout_ms, ..self }
    }

    /// The same client with another number of retries after a failed attempt.
    pub fn with_retries(self, retries: u32) -> (r: Self)
        ensures
            r.spec_ip() == self.spec_ip(),
            r.spec_port() == self.spec_port(),
            r.spec_timeout_ms() == self.spec_timeout_ms(),
            r.spec_retries() == retries,
    {
        ESPMinerWebAPI { retries, ..self }
    }

    /// The port the API listens on.
    pub fn port(&self) -> (r: u16)
        ensures
            r == self.spec_port(),
    {
        self.port
    }

    /// The timeout of each request, in milliseconds.
    pub fn timeout_ms(&self) -> (r: u64)
        ensures
            r == self.spec_timeout_ms(),
    {
        self.timeout_ms
    }

    /// How many times a failed command is tried again.
    pub fn retries(&self) -> (r: u32)
        ensures
            r == self.spec_retries(),
    {
        self.retries
    }

    /// The address of a command: `http://<ip>:<port>/api/<command>`.
    pub fn url(&self, command: &str) -> (r: String)
        ensures
            r@ == "http://"@ + self.spec_ip() + ":"@ + decimal_chars(self.spec_port() as nat) + "/api/"@ + command@,
    {
        let port = decimal_string(self.port as u64);
        String::from_str("http://").concat(self.ip.as_str()).concat(":").concat(port.as_str()).concat("/api/").concat(
            command,
        )
    }

    /// What follows attempt number `attempt` (from 0) of a command. A decoded
    /// body ends the command. A failure before the last attempt is retried;
    /// at the last one, it is the command's error, or
    /// [`ESPMinerError::MaxRetriesExceeded`] when errors are ignored.
    pub fn after_attempt(&self, attempt: u32, ignore_errors: bool, outcome: AttemptOutcome) -> (r: NextStep)
        ensures
            outcome is Decoded ==> r is Done,
            !(outcome is Decoded) && attempt < self.spec_retries() ==> r is Retry,
            !(outcome is Decoded) && attempt >= self.spec_retries() && ignore_errors ==> r == NextStep::Fail(
                ESPMinerError::MaxRetriesExceeded,
            ),
            !(outcome is Decoded) && attempt >= self.spec_retries() && !ignore_errors ==> r == NextStep::Fail(
                match outcome {
                    AttemptOutcome::DecodeFailed(m) => ESPMinerError::ParseError(m),
                    AttemptOutcome::Status(code) => ESPMinerError::HttpError(code),
                    AttemptOutcome::Failed(e) => e,
                    AttemptOutcome::Decoded => ESPMinerError::WebError,
                },
            ),
    {
        match outcome {
            AttemptOutcome::Decoded => NextStep::Done,
            _ => {
                if attempt < self.retries {
                    NextStep::Retry
                } else if ignore_errors {
                    NextStep::Fail(ESPMinerError::MaxRetriesExceeded)
                } else {
                    match outcome {
                        AttemptOutcome::DecodeFailed(m) => NextStep::Fail(ESPMinerError::ParseError(m)),
                        AttemptOutcome::Status(code) => NextStep::Fail(ESPMinerError::HttpError(code)),
                        AttemptOutcome::Failed(e) => NextStep::Fail(e),
                        AttemptOutcome::Decoded => NextStep::Done,
                    }
                }
            },
        }
    }
}

/// Whether a request with this method carries a body: GET does not, POST and
/// PATCH do; the API takes no other method.
pub fn method_sends_body(method: &str) -> (r: Result<bool, ESPMinerError>)
    ensures
        method@ == "GET"@ ==> r == Ok::<bool, ESPMinerError>(false),
        method@ == "POST"@ || method@ == "PATCH"@ ==> r == Ok::<bool, ESPMinerError>(true),
        method@ != "GET"@ && method@ != "POST"@ && method@ != "PATCH"@ ==> match r {
            Err(ESPMinerError::UnsupportedMethod(m)) => m@ == method@,
            _ => false,
        },
{
    proof {
        reveal_strlit("GET");
        reveal_strlit("POST");
        reveal_strlit("PATCH");
        assert("GET"@.len() == 3);
        assert("POST"@.len() == 4);
        assert("PATCH"@.len() == 5);
    }
    if str_equals(method, "GET") {
        Ok(false)
    } else if str_equals(method, "POST") || str_equals(method, "PATCH") {
        Ok(true)
    } else {
        Err(ESPMinerError::UnsupportedMethod(String::from_str(method)))
    }
}

} // verus!
