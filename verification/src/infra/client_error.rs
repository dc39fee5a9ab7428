//! What a client is told when a request fails.

use vstd::prelude::*;

use crate::domain::cart::{CartError, UuidNotCompatible};
use crate::domain::decision::DecisionError;

verus! {

/// The status of a response to a request that the client got wrong.
pub const BAD_REQUEST: u16 = 400;

/// The status of a response to a request that failed inside the service.
pub const INTERNAL_SERVER_ERROR: u16 = 500;

/// A failed request.
#[derive(Debug)]
pub enum ClientError {
    Decision(DecisionError),
    Domain(CartError),
    Payload(String),
    Internal(String),
}

/// The status code and the message of the response to a failed request.
#[derive(Debug, PartialEq, Eq)]
pub struct ErrorResponse {
    pub status: u16,
    pub message: String,
}

impl ClientError {
    /// The status code that answers the failure: 400 for what the client can
    /// mend, 500 for faults of the service.
    pub open spec fn status(self) -> u16 {
        match self {
            ClientError::Decision(DecisionError::Domain(_)) => BAD_REQUEST,
            ClientError::Decision(_) => INTERNAL_SERVER_ERROR,
            ClientError::Domain(_) => BAD_REQUEST,
            ClientError::Payload(_) => BAD_REQUEST,
            ClientError::Internal(_) => INTERNAL_SERVER_ERROR,
        }
    }

    /// The message that answers the failure. Faults of the service are
    /// answered with a fixed text; their detail stays in the logs.
    pub open spec fn message(self) -> Seq<char> {
        match self {
            ClientError::Decision(DecisionError::EventStore(_)) =>
                "EventStore problem. Please ask your system administrator to check the logs."@,
            ClientError::Decision(DecisionError::StateStore(_)) =>
                "StateStore problem. Please ask your system administrator to check the logs."@,
            ClientError::Decision(DecisionError::Domain(cart_error)) => cart_error.message(),
            ClientError::Domain(cart_error) => cart_error.message(),
            ClientError::Payload(message) => message@,
            ClientError::Internal(_) => "Please ask your system administrator to check the logs."@,
        }
    }

    /// The response to the failure.
    pub fn into_response(self) -> (response: ErrorResponse)
        ensures
            response.status == self.status(),
            response.message@ == self.message(),
    {
        match self {
            ClientError::Decision(decision_error) => match decision_error {
                DecisionError::EventStore(_) => ErrorResponse {
                    status: INTERNAL_SERVER_ERROR,
                    message:
                        "EventStore problem. Please ask your system administrator to check the logs.".to_owned(),
                },
                DecisionError::StateStore(_) => ErrorResponse {
                    status: INTERNAL_SERVER_ERROR,
                    message:
                        "StateStore problem. Please ask your system administrator to check the logs.".to_owned(),
                },
                DecisionError::Domain(cart_error) => ErrorResponse {
                    status: BAD_REQUEST,
                    message: cart_error.to_string(),
                },
            },
            ClientError::Domain(cart_error) => ErrorResponse {
                status: BAD_REQUEST,
                message: cart_error.to_string(),
            },
            ClientError::Payload(message) => ErrorResponse { status: BAD_REQUEST, message },
            ClientError::Internal(_) => ErrorResponse {
                status: INTERNAL_SERVER_ERROR,
                message: "Please ask your system administrator to check the logs.".to_owned(),
            },
        }
    }

    /// The failure of a payload whose identifier is not a version 7 UUID.
    pub fn from_uuid_not_compatible(value: UuidNotCompatible) -> (error: ClientError)
        ensures
            error matches ClientError::Payload(message) && message@ == "Uuid "@
                + crate::domain::cart::uuid_text(value.0)
                + " is not compatible. Version 7 Uuid is required."@,
    {
        ClientError::Payload(value.to_string())
    }
}

impl From<DecisionError> for ClientError {
    fn from(decision_error: DecisionError) -> (error: ClientError) {
        ClientError::Decision(decision_error)
    }
}

impl vstd::std_specs::convert::FromSpecImpl<DecisionError> for ClientError {
    open spec fn obeys_from_spec() -> bool {
        true
    }

    open spec fn from_spec(decision_error: DecisionError) -> ClientError {
        ClientError::Decision(decision_error)
    }
}

impl From<CartError> for ClientError {
    fn from(cart_error: CartError) -> (error: ClientError) {
        ClientError::Domain(cart_error)
    }
}

impl vstd::std_specs::convert::FromSpecImpl<CartError> for ClientError {
    open spec fn obeys_from_spec() -> bool {
        true
    }

    open spec fn from_spec(cart_error: CartError) -> ClientError {
        ClientError::Domain(cart_error)
    }
}

} // verus!
