//! The handler machinery: the outcome type, the tagged handler variants a
//! path can map to, and the dispatchers that pair a handler with a
//! request's method.

use vstd::prelude::*;
use crate::node::resolve_requests::endpoints;
use crate::node::resolve_requests::errors::HTTPResponseError;
use crate::node::resolve_requests::methods::{
    Content,
    HTTPRequest,
    HTTPResponse,
    ImageType,
    Method,
};
use crate::node::NodeState;

verus! {

/// What a handler produces: a response value or a typed refusal.
pub type HTTPResult = Result<HTTPResponse, HTTPResponseError>;

/// The read handlers the node registers.
pub enum GETFunc {
    Index,
    Favicon,
    Status,
}

/// The write handlers the node registers.
pub enum POSTFunc {
    SubmitTransaction,
}

/// A handler with the method it can serve.
pub enum Handler {
    Get(GETFunc),
    Post(POSTFunc),
}

/// The refusal for a path that is not registered.
pub fn path_not_found(s: &str) -> (r: HTTPResult)
    ensures
        r matches Err(e) && e matches HTTPResponseError::InvalidPath(l) && l matches Some(msg)
            && msg@ == "Path "@ + s@ + " was not found"@,
{
    let mut msg = String::from_str("Path ");
    msg.append(s);
    msg.append(" was not found");
    proof {
        assert(msg@ =~= "Path "@ + s@ + " was not found"@);
    }
    Err(HTTPResponseError::InvalidPath(Some(msg)))
}

/// The refusal for a method the path does not support.
pub fn method_not_allowed() -> (r: HTTPResult)
    ensures
        r matches Err(e) && e matches HTTPResponseError::InvalidMethod(l) && l is None,
{
    Err(HTTPResponseError::InvalidMethod(None))
}

/// A successful response serving an image file from the static folder.
pub fn return_image(path: &str, image_type: ImageType) -> (r: HTTPResult)
    ensures
        r matches Ok(resp) && resp matches HTTPResponse::OK(c) && c matches Some(
            Content::Image(p, it),
        ) && p@ == "src/node/static/"@ + path@ && it == image_type,
{
    let mut full = String::from_str("src/node/static/");
    full.append(path);
    Ok(HTTPResponse::OK(Some(Content::Image(full, image_type))))
}

/// A successful response serving an HTML file from the static folder.
pub fn return_html(path: &str) -> (r: HTTPResult)
    ensures
        r matches Ok(resp) && resp matches HTTPResponse::OK(c) && c matches Some(Content::HTML(p))
            && p@ == "src/node/static/"@ + path@,
{
    let mut full = String::from_str("src/node/static/");
    full.append(path);
    Ok(HTTPResponse::OK(Some(Content::HTML(full))))
}

/// A successful response carrying rendered JSON text.
pub fn return_json(json: String) -> (r: HTTPResult)
    ensures
        r matches Ok(resp) && resp matches HTTPResponse::OK(c) && c matches Some(Content::JSON(j))
            && j@ == json@,
{
    Ok(HTTPResponse::OK(Some(Content::JSON(json))))
}

impl Handler {
    /// What this handler demands of the request it is handed.
    pub open spec fn spec_requires(&self, m: Method) -> bool {
        match (self, m) {
            (Handler::Post(POSTFunc::SubmitTransaction), Method::POST(data)) => data.body is Some,
            _ => true,
        }
    }

    /// Runs the handler on the request when the method fits, and refuses
    /// with `InvalidMethod` when it does not.
    pub fn call(&self, request: &HTTPRequest, state: &mut NodeState) -> (r: HTTPResult)
        requires
            old(state).wf(),
            self.spec_requires(request.spec_method()),
        ensures
            match (self, request.spec_method()) {
                (Handler::Get(f), Method::GET(_)) => endpoints::spec_get_result(
                    f,
                    *old(state),
                    *final(state),
                    r,
                ),
                (Handler::Post(f), Method::POST(data)) => endpoints::spec_post_result(
                    f,
                    *old(state),
                    *final(state),
                    data.body,
                    r,
                ),
                _ => *final(state) == *old(state) && (r matches Err(e) && e matches
                    HTTPResponseError::InvalidMethod(l) && l is None),
            },
    {
        match (self, request.get_method()) {
            (Handler::Get(f), Method::GET(data)) => endpoints::dispatch_get(f, data, state),
            (Handler::Post(f), Method::POST(data)) => endpoints::dispatch_post(f, data, state),
            _ => method_not_allowed(),
        }
    }
}

/// Runs a write handler when the request is a write, and refuses
/// otherwise.
pub fn post(request: &HTTPRequest, f: &POSTFunc, state: &mut NodeState) -> (r: HTTPResult)
    requires
        old(state).wf(),
        request.spec_method() matches Method::POST(data) ==> data.body is Some,
    ensures
        match request.spec_method() {
            Method::POST(data) => endpoints::spec_post_result(
                f,
                *old(state),
                *final(state),
                data.body,
                r,
            ),
            _ => *final(state) == *old(state) && (r matches Err(e) && e matches
                HTTPResponseError::InvalidMethod(l) && l is None),
        },
{
    match request.get_method() {
        Method::POST(data) => endpoints::dispatch_post(f, data, state),
        _ => method_not_allowed(),
    }
}

/// Runs a read handler when the request is a read, and refuses otherwise.
pub fn get(request: &HTTPRequest, f: &GETFunc, state: &mut NodeState) -> (r: HTTPResult)
    requires
        old(state).wf(),
    ensures
        match request.spec_method() {
            Method::GET(_) => endpoints::spec_get_result(f, *old(state), *final(state), r),
            _ => *final(state) == *old(state) && (r matches Err(e) && e matches
                HTTPResponseError::InvalidMethod(l) && l is None),
        },
{
    match request.get_method() {
        Method::GET(data) => endpoints::dispatch_get(f, data, state),
        _ => method_not_allowed(),
    }
}

/// Runs whichever of the two handlers matches the request's method.
pub fn get_post(request: &HTTPRequest, get_f: &GETFunc, post_f: &POSTFunc, state: &mut NodeState)
    -> (r: HTTPResult)
    requires
        old(state).wf(),
        request.spec_method() matches Method::POST(data) ==> data.body is Some,
    ensures
        match request.spec_method() {
            Method::GET(_) => endpoints::spec_get_result(get_f, *old(state), *final(state), r),
            Method::POST(data) => endpoints::spec_post_result(
                post_f,
                *old(state),
                *final(state),
                data.body,
                r,
            ),
        },
{
    match request.get_method() {
        Method::GET(data) => endpoints::dispatch_get(get_f, data, state),
        Method::POST(data) => endpoints::dispatch_post(post_f, data, state),
    }
}

} // verus!
