//! Interpretation of what the transport reports after a publish attempt:
//! status 200 is success, any other status is an API error carrying the
//! response body, and a delivery failure is a transport error.

use vstd::prelude::*;

use crate::json::{dec_digits, push_dec_u32};
use crate::text::{push_str_chars, string_from_chars};

verus! {

/// What the transport reports for one attempted delivery.
pub enum TransportOutcome {
    /// The request could not be sent or no response arrived (connection
    /// failure, TLS failure, timeout); `reason` describes the failure.
    Failed { reason: String },
    /// A response arrived with this status code.  `body` is the response
    /// text if the caller read it successfully, or a description of the
    /// read failure; see `should_read_body` for when it must be read.
    Responded { status: u16, body: Result<String, String> },
}

/// A successful delivery: the service answered with status 200.
#[derive(Clone, Copy, Debug, PartialEq, Eq, Structural)]
pub struct ApiResponse {
    pub status: u16,
}

/// What a publish operation fails with.
#[derive(Clone, Debug)]
pub enum SnagError {
    /// A payload could not be encoded as JSON.  The encoder in this crate
    /// is total and never produces this; the variant is reserved for
    /// defensive handling by callers.
    Serialization { detail: String },
    /// The request could not be sent or the response could not be read.
    Transport { reason: String },
    /// The service answered with a status other than 200; `body` carries
    /// the response text, or a placeholder if the text could not be read.
    Api { status: u16, body: String },
}

/// The body text an API error carries: the response text when it was
/// read, or a placeholder naming the read failure.
pub open spec fn api_error_body(body: Result<String, String>) -> Seq<char> {
    match body {
        Ok(t) => t@,
        Err(e) => "failed to read response body: "@ + e@,
    }
}

/// The description `SnagError::message` produces.
pub open spec fn message_view(e: SnagError) -> Seq<char> {
    match e {
        SnagError::Serialization { detail } => "serialization error: "@ + detail@,
        SnagError::Transport { reason } => "transport error: "@ + reason@,
        SnagError::Api { status, body } => "api error: status "@ + dec_digits(status as nat)
            + ", body: "@ + body@,
    }
}

impl SnagError {
    /// A human-readable description of the error, naming its kind and, for
    /// an API error, the status and the response body.
    pub fn message(&self) -> (r: String)
        ensures
            r@ == message_view(*self),
    {
        let mut out: Vec<char> = Vec::new();
        match self {
            SnagError::Serialization { detail } => {
                push_str_chars(&mut out, "serialization error: ");
                push_str_chars(&mut out, detail.as_str());
            },
            SnagError::Transport { reason } => {
                push_str_chars(&mut out, "transport error: ");
                push_str_chars(&mut out, reason.as_str());
            },
            SnagError::Api { status, body } => {
                push_str_chars(&mut out, "api error: status ");
                push_dec_u32(&mut out, *status as u32);
                push_str_chars(&mut out, ", body: ");
                push_str_chars(&mut out, body.as_str());
            },
        }
        proof {
            assert(out@ =~= message_view(*self));
        }
        string_from_chars(&out)
    }
}

/// Whether the caller must read the response text before handing the
/// outcome to `evaluate_outcome`: only a response with a status other
/// than 200 has its body reported, so only such a body need be read.
pub fn should_read_body(status: u16) -> (r: bool)
    ensures
        r == (status != 200),
{
    status != 200
}

/// Decides what one publish attempt came to.  A delivery failure is a
/// transport error; a response with status 200 is success; a response with
/// any other status is an API error carrying that status and the response
/// body (or a placeholder when the body could not be read).
pub fn evaluate_outcome(outcome: TransportOutcome) -> (r: Result<ApiResponse, SnagError>)
    ensures
        match outcome {
            TransportOutcome::Failed { reason } => r == Err::<ApiResponse, SnagError>(
                SnagError::Transport { reason },
            ),
            TransportOutcome::Responded { status, body } => {
                &&& status == 200 ==> r == Ok::<ApiResponse, SnagError>(
                    ApiResponse { status: 200u16 },
                )
                &&& status != 200 ==> r is Err && (r->Err_0 matches SnagError::Api {
                    status: s,
                    body: b,
                } && s == status && b@ == api_error_body(body))
            },
        },
{
    match outcome {
        TransportOutcome::Failed { reason } => Err(SnagError::Transport { reason }),
        TransportOutcome::Responded { status, body } => {
            if status == 200 {
                Ok(ApiResponse { status })
            } else {
                let text = match body {
                    Ok(t) => t,
                    Err(e) => {
                        let mut out: Vec<char> = Vec::new();
                        push_str_chars(&mut out, "failed to read response body: ");
                        push_str_chars(&mut out, e.as_str());
                        string_from_chars(&out)
                    },
                };
                Err(SnagError::Api { status, body: text })
            }
        },
    }
}

} // verus!
