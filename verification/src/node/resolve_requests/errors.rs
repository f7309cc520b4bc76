//! The outcomes a request handler can refuse with, each carrying an
//! optional diagnostic for the log.

use vstd::prelude::*;

verus! {

/// Why a handler refused a request.
pub enum HTTPResponseError {
    InvalidMethod(Option<String>),
    InvalidPath(Option<String>),
    InvalidBody(Option<String>),
    InternalServerError(Option<String>),
    BadRequest(Option<String>),
}

/// The fixed name of each error kind.
pub open spec fn spec_error_name(e: &HTTPResponseError) -> Seq<char> {
    match e {
        HTTPResponseError::InvalidMethod(_) => "Invalid Method"@,
        HTTPResponseError::InvalidPath(_) => "Invalid Path"@,
        HTTPResponseError::InvalidBody(_) => "Invalid Body"@,
        HTTPResponseError::InternalServerError(_) => "Internal Server Error"@,
        HTTPResponseError::BadRequest(_) => "Bad Request"@,
    }
}

/// The diagnostic an error carries, if any.
pub open spec fn spec_error_log(e: &HTTPResponseError) -> Option<String> {
    match e {
        HTTPResponseError::InvalidMethod(log) => *log,
        HTTPResponseError::InvalidPath(log) => *log,
        HTTPResponseError::InvalidBody(log) => *log,
        HTTPResponseError::InternalServerError(log) => *log,
        HTTPResponseError::BadRequest(log) => *log,
    }
}

impl HTTPResponseError {
    /// A short report: the error's name, and its diagnostic when it
    /// carries one.
    pub fn message(&self) -> (r: String)
        ensures
            match spec_error_log(self) {
                Option::None => r@ == spec_error_name(self),
                Option::Some(log) => r@ == spec_error_name(self) + ": "@ + log@,
            },
    {
        let name: &str = match self {
            HTTPResponseError::InvalidMethod(_) => "Invalid Method",
            HTTPResponseError::InvalidPath(_) => "Invalid Path",
            HTTPResponseError::InvalidBody(_) => "Invalid Body",
            HTTPResponseError::InternalServerError(_) => "Internal Server Error",
            HTTPResponseError::BadRequest(_) => "Bad Request",
        };
        let log: &Option<String> = match self {
            HTTPResponseError::InvalidMethod(log) => log,
            HTTPResponseError::InvalidPath(log) => log,
            HTTPResponseError::InvalidBody(log) => log,
            HTTPResponseError::InternalServerError(log) => log,
            HTTPResponseError::BadRequest(log) => log,
        };
        match log {
            Option::None => String::from_str(name),
            Option::Some(text) => {
                let mut out = String::from_str(name);
                out.append(": ");
                out.append(text.as_str());
                proof {
                    assert(out@ =~= spec_error_name(self) + ": "@ + text@);
                }
                out
            },
        }
    }
}

} // verus!
