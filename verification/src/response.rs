//! How failures are reported to the caller: a status and a message.

use vstd::prelude::*;
use crate::api::{ErrorView, FieldKind, ValidationError};
use crate::auth::AuthError;

verus! {

/// The store could not be reached, or its answer was not JSON.
#[derive(Debug, PartialEq, Eq)]
pub struct UpstreamError {
    pub message: String,
}

/// A failure as the caller sees it.
#[derive(Debug, PartialEq, Eq)]
pub struct Refusal {
    pub status: u16,
    pub message: String,
}

/// The word that names a kind of field in a message.
pub open spec fn kind_label(kind: FieldKind) -> Seq<char> {
    match kind {
        FieldKind::Dimension => "Dimension"@,
        FieldKind::Measure => "Measure"@,
    }
}

/// The status that reports a validation failure: not found for an unknown
/// block, bad request for an unknown field.
pub open spec fn validation_status(error: ErrorView) -> u16 {
    match error {
        ErrorView::BlockNotFound => 404,
        ErrorView::FieldNotFound { .. } => 400,
    }
}

/// The message that reports a validation failure.
pub open spec fn validation_message(error: ErrorView) -> Seq<char> {
    match error {
        ErrorView::BlockNotFound => "Block not found"@,
        ErrorView::FieldNotFound { kind, field, block } => kind_label(kind) + " '"@ + field
            + "' not found in block '"@ + block + "'"@,
    }
}

/// The message that reports an authentication failure.
pub open spec fn auth_message(error: AuthError) -> Seq<char> {
    match error {
        AuthError::TokenMissing => "Token missing"@,
        AuthError::InvalidToken => "Invalid token"@,
    }
}

impl ValidationError {
    /// The status and message that report this failure: a client error that
    /// names the field and the block.
    pub fn refusal(&self) -> (refusal: Refusal)
        ensures
            refusal.status == validation_status(self@),
            refusal.message@ == validation_message(self@),
    {
        match self {
            ValidationError::BlockNotFound => Refusal {
                status: 404,
                message: String::from_str("Block not found"),
            },
            ValidationError::FieldNotFound { kind, field, block } => {
                let mut message = match kind {
                    FieldKind::Dimension => String::from_str("Dimension"),
                    FieldKind::Measure => String::from_str("Measure"),
                };
                message.append(" '");
                message.append(field.as_str());
                message.append("' not found in block '");
                message.append(block.as_str());
                message.append("'");
                Refusal { status: 400, message }
            },
        }
    }
}

impl AuthError {
    /// The status and message that report this failure: unauthorized, either way.
    pub fn refusal(&self) -> (refusal: Refusal)
        ensures
            refusal.status == 401,
            refusal.message@ == auth_message(*self),
    {
        match self {
            AuthError::TokenMissing => Refusal {
                status: 401,
                message: String::from_str("Token missing"),
            },
            AuthError::InvalidToken => Refusal {
                status: 401,
                message: String::from_str("Invalid token"),
            },
        }
    }
}

impl UpstreamError {
    /// The status and message that report this failure: a server error with
    /// the transport's own words.
    pub fn refusal(&self) -> (refusal: Refusal)
        ensures
            refusal.status == 500,
            refusal.message@ == self.message@,
    {
        Refusal { status: 500, message: self.message.clone() }
    }
}

} // verus!
