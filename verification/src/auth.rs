//! Reading the bearer token of a request.
use vstd::prelude::*;

use crate::error::AppError;
use crate::rate_limit::{header_str, header_text};
use crate::text::{has_prefix, strip_prefix, trim, trim_str};

verus! {

/// The token an `Authorization` header carries: the text after `Bearer `, without surrounding
/// whitespace; `None` when the header is missing, not visible ASCII, not a bearer header, or
/// carries a blank token.
pub open spec fn bearer_of(header: Option<Seq<u8>>) -> Option<Seq<char>> {
    match header {
        Some(bytes) => match header_text(bytes) {
            Some(t) => if has_prefix(t, "Bearer "@) && trim(t.skip(7)).len() > 0 {
                Some(trim(t.skip(7)))
            } else {
                None
            },
            None => None,
        },
        None => None,
    }
}

/// The bearer token of an authenticated request.
pub struct BearerToken(pub String);

impl BearerToken {
    /// The bearer token of a request, given its `Authorization` header; `AppError::Unauthorized`
    /// when there is none.
    pub fn from_authorization(authorization: Option<&Vec<u8>>) -> (r: Result<BearerToken, AppError>)
        ensures
            match r {
                Ok(t) => bearer_of(
                    match authorization {
                        Some(b) => Some(b@),
                        None => None,
                    },
                ) == Some(t.0@),
                Err(e) => e is Unauthorized && bearer_of(
                    match authorization {
                        Some(b) => Some(b@),
                        None => None,
                    },
                ) is None,
            },
    {
        let bytes = match authorization {
            Some(b) => b,
            None => return Err(AppError::Unauthorized),
        };
        let text = match header_str(bytes) {
            Some(t) => t,
            None => return Err(AppError::Unauthorized),
        };
        proof {
            reveal_strlit("Bearer ");
        }
        let rest = match strip_prefix(text.as_str(), "Bearer ") {
            Some(r) => r,
            None => return Err(AppError::Unauthorized),
        };
        let token = trim_str(rest.as_str());
        if token.as_str().unicode_len() == 0 {
            return Err(AppError::Unauthorized);
        }
        Ok(BearerToken(token))
    }
}

} // verus!
