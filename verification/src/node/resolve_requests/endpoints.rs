//! The registered endpoints and the dispatch from a parsed request to a
//! handler outcome, including the mutation of the shared node state.

use vstd::prelude::*;
use crate::chain::block::spec_is_genesis;
use crate::chain::transaction::{
    positive_number,
    push_lit,
    push_quoted,
    spec_quoted,
    spec_serialize_tx,
    Transaction,
    TransactionValidationError,
};
use crate::node::resolve_requests::errors::HTTPResponseError;
use crate::node::resolve_requests::helpers::{
    method_not_allowed,
    path_not_found,
    return_html,
    return_image,
    return_json,
    GETFunc,
    HTTPResult,
    Handler,
    POSTFunc,
};
use crate::node::resolve_requests::methods::{
    spec_method_path,
    Content,
    HTTPRequest,
    HTTPResponse,
    ImageType,
    Method,
};
use crate::node::NodeState;
use crate::clock;
use crate::text;
use crate::text::json_stringable;
#[allow(unused_imports)]
use vstd::utf8::encode_utf8;

verus! {

// ---------------------------------------------------------------------------
// What each endpoint promises.
// ---------------------------------------------------------------------------

/// The root page: the static HTML index.
pub open spec fn index_result(r: HTTPResult) -> bool {
    r matches Ok(resp) && resp matches HTTPResponse::OK(c) && c matches Some(Content::HTML(p))
        && p@ == "src/node/static/index.html"@
}

/// The favicon: the static icon file.
pub open spec fn favicon_result(r: HTTPResult) -> bool {
    r matches Ok(resp) && resp matches HTTPResponse::OK(c) && c matches Some(
        Content::Image(p, it),
    ) && p@ == "src/node/static/fav.ico"@ && it is ICO
}

/// How a read of the chain's tail leaves the chain: untouched when blocks
/// exist, grown to just the genesis block when it was empty.
pub open spec fn chain_read_effect(pre: NodeState, post: NodeState) -> bool {
    &&& post.transactions@ == pre.transactions@
    &&& post.status@ == pre.status@
    &&& (pre.chain.spec_blocks().len() > 0 ==> post.chain == pre.chain)
    &&& (pre.chain.spec_blocks().len() == 0 ==> post.chain.spec_blocks().len() == 1
        && spec_is_genesis(post.chain.spec_blocks()[0]))
    &&& post.chain.spec_blocks().len() > 0
}

/// The bytes of the status snapshot: block height, a placeholder peer
/// count, the status text and a timestamp.
pub open spec fn spec_status_json(height: i64, status: Seq<char>, stamp: Seq<char>) -> Seq<u8> {
    text::chars_as_bytes("{\"blockHeight\":"@) + text::spec_i64_bytes(height as int)
        + text::chars_as_bytes(",\"peers\":8,\"status\":"@) + spec_quoted(
        text::chars_as_bytes(status),
    ) + text::chars_as_bytes(",\"timestamp\":"@) + spec_quoted(text::chars_as_bytes(stamp))
        + text::chars_as_bytes("}"@)
}

/// The status endpoint: reads the chain tail under the lock (creating the
/// genesis block on an empty chain) and reports a JSON snapshot stamped
/// with the clock.
pub open spec fn status_result(pre: NodeState, post: NodeState, r: HTTPResult) -> bool {
    &&& chain_read_effect(pre, post)
    &&& (r matches Ok(resp) && resp matches HTTPResponse::OK(c) && c matches Some(
        Content::JSON(txt),
    ) && exists|stamp: Seq<char>|
        json_stringable(stamp) && txt@ == text::bytes_as_chars(
            #[trigger] spec_status_json(
                post.chain.spec_blocks().last().spec_index(),
                post.status@,
                stamp,
            ),
        ))
}

/// The body of the pool-acceptance reply.
pub open spec fn spec_submit_success_text() -> Seq<char> {
    "{\"msg\":\"The transaction was added to the pool.\",\"status_code\":\"200\"}"@
}

/// A submission was accepted: the pool grew by one well-formed, positive,
/// signature-verified transaction read back from the body, and nothing
/// else moved — in particular no block was mined.
pub open spec fn submit_accept(pre: NodeState, post: NodeState, body: Option<String>) -> bool {
    &&& post.chain == pre.chain
    &&& post.status@ == pre.status@
    &&& post.transactions@.len() == pre.transactions@.len() + 1
    &&& post.transactions@.drop_last() == pre.transactions@
    &&& {
        let t = post.transactions@.last();
        &&& t.wf()
        &&& positive_number(t.transaction_info.value@)
        &&& (body matches Some(b) && encode_utf8(b@) == spec_serialize_tx(t))
        &&& t.spec_signed()
    }
}

/// The body text carries exactly the serialized form of the well-formed,
/// positive-valued transaction `t`.
pub open spec fn submit_image(body: Option<String>, t: Transaction) -> bool {
    &&& t.wf()
    &&& positive_number(t.transaction_info.value@)
    &&& (body matches Some(b) && vstd::utf8::encode_utf8(b@) == spec_serialize_tx(t))
}

/// The submit endpoint: deserializes the body, verifies the signature,
/// and on success appends the transaction to the pending pool. Success is
/// owed: a body carrying a well-formed, positive, signature-verified
/// transaction is never refused.
pub open spec fn submit_result(
    pre: NodeState,
    post: NodeState,
    body: Option<String>,
    r: HTTPResult,
) -> bool {
    ||| (submit_accept(pre, post, body) && (r matches Ok(resp) && resp
        matches HTTPResponse::OK(c) && c matches Some(Content::JSON(txt)) && txt@
        == spec_submit_success_text()))
    ||| (post == pre && (r matches Err(e) && e matches HTTPResponseError::InvalidBody(l) && l
        is None) && !(exists|t: Transaction| #[trigger] submit_image(body, t)))
    ||| (post == pre && (r matches Err(e) && e matches HTTPResponseError::InternalServerError(l)
        && l matches Some(m) && m@
        == "Error in the OpenSSL library when verifying a transaction"@) && !(exists|
        t: Transaction,
    | #[trigger] submit_image(body, t) && t.spec_signed()))
    ||| (post == pre && (r matches Err(e) && e matches HTTPResponseError::BadRequest(l) && l
        matches Some(m) && m@ == "Transaction submitted with invalid signature"@) && !(exists|
        t: Transaction,
    | #[trigger] submit_image(body, t) && t.spec_signed()) && exists|t: Transaction|
        {
            &&& t.wf()
            &&& (body matches Some(b) && encode_utf8(b@) == #[trigger] spec_serialize_tx(t))
            &&& !t.spec_signed()
        })
}

/// What a read handler leaves behind and returns.
pub open spec fn spec_get_result(
    f: &GETFunc,
    pre: NodeState,
    post: NodeState,
    r: HTTPResult,
) -> bool {
    match f {
        GETFunc::Index => post == pre && index_result(r),
        GETFunc::Favicon => post == pre && favicon_result(r),
        GETFunc::Status => status_result(pre, post, r),
    }
}

/// What a write handler leaves behind and returns.
pub open spec fn spec_post_result(
    f: &POSTFunc,
    pre: NodeState,
    post: NodeState,
    body: Option<String>,
    r: HTTPResult,
) -> bool {
    match f {
        POSTFunc::SubmitTransaction => submit_result(pre, post, body, r),
    }
}

// ---------------------------------------------------------------------------
// The endpoints.
// ---------------------------------------------------------------------------

/// `GET /`: the static HTML index page.
pub fn index(_data: &crate::node::resolve_requests::methods::GETData, _state: &mut NodeState)
    -> (r: HTTPResult)
    ensures
        *final(_state) == *old(_state),
        index_result(r),
{
    let r = return_html("index.html");
    proof {
        reveal_strlit("src/node/static/");
        reveal_strlit("index.html");
        reveal_strlit("src/node/static/index.html");
        assert("src/node/static/"@ + "index.html"@ =~= "src/node/static/index.html"@);
    }
    r
}

/// `GET /favicon.ico`: the static icon.
pub fn favicon(_data: &crate::node::resolve_requests::methods::GETData, _state: &mut NodeState)
    -> (r: HTTPResult)
    ensures
        *final(_state) == *old(_state),
        favicon_result(r),
{
    let r = return_image("fav.ico", ImageType::ICO);
    proof {
        reveal_strlit("src/node/static/");
        reveal_strlit("fav.ico");
        reveal_strlit("src/node/static/fav.ico");
        assert("src/node/static/"@ + "fav.ico"@ =~= "src/node/static/fav.ico"@);
    }
    r
}

/// `GET /status`: a JSON snapshot of the node, read under the state lock.
pub fn status(_data: &crate::node::resolve_requests::methods::GETData, state: &mut NodeState)
    -> (r: HTTPResult)
    requires
        old(state).wf(),
    ensures
        status_result(*old(state), *final(state), r),
{
    let height = state.chain.get_last_index();
    let stamp = clock::now_utc_text();
    let mut out: Vec<u8> = Vec::new();
    proof {
        reveal_strlit("{\"blockHeight\":");
        reveal_strlit(",\"peers\":8,\"status\":");
        reveal_strlit(",\"timestamp\":");
        reveal_strlit("}");
    }
    push_lit(&mut out, "{\"blockHeight\":");
    text::push_i64_digits(height, &mut out);
    push_lit(&mut out, ",\"peers\":8,\"status\":");
    push_quoted(&mut out, state.status.as_str());
    push_lit(&mut out, ",\"timestamp\":");
    push_quoted(&mut out, stamp.as_str());
    push_lit(&mut out, "}");
    proof {
        assert(out@ =~= spec_status_json(height, state.status@, stamp@));
        lemma_status_json_ascii(height, state.status@, stamp@);
    }
    return_json(text::ascii_to_string(&out))
}

/// The status snapshot is ASCII text.
proof fn lemma_status_json_ascii(height: i64, status: Seq<char>, stamp: Seq<char>)
    requires
        json_stringable(status),
        json_stringable(stamp),
    ensures
        text::ascii_bytes(spec_status_json(height, status, stamp)),
{
    reveal_strlit("{\"blockHeight\":");
    reveal_strlit(",\"peers\":8,\"status\":");
    reveal_strlit(",\"timestamp\":");
    reveal_strlit("}");
    crate::chain::transaction::lemma_stringable_safe(status);
    crate::chain::transaction::lemma_stringable_safe(stamp);
    crate::chain::transaction::lemma_escape_ascii(text::chars_as_bytes(status));
    crate::chain::transaction::lemma_escape_ascii(text::chars_as_bytes(stamp));
    if height < 0 {
        text::lemma_u64_bytes_are_digits((-(height as int)) as nat);
    } else {
        text::lemma_u64_bytes_are_digits(height as nat);
    }
}

/// `POST /submit-transaction`: deserializes the body as a transaction,
/// verifies its signature, and appends it to the pending pool.
pub fn submit_transaction(
    data: &crate::node::resolve_requests::methods::POSTData,
    state: &mut NodeState,
) -> (r: HTTPResult)
    requires
        old(state).wf(),
        data.body is Some,
    ensures
        submit_result(*old(state), *final(state), data.body, r),
{
    let body: String = match &data.body {
        Some(b) => b.clone(),
        None => {
            proof {
                assert(false);
            }
            String::new()
        },
    };
    let transaction = match Transaction::deserialize(body) {
        Ok(tx) => tx,
        Err(_) => {
            proof {
                assert forall|t: Transaction| #[trigger] submit_image(data.body, t) implies false by {
                    assert(vstd::utf8::encode_utf8(body@) == spec_serialize_tx(t));
                }
            }
            return Err(HTTPResponseError::InvalidBody(None));
        },
    };
    match transaction.verify() {
        Ok(()) => {},
        Err(e) => {
            proof {
                assert forall|t: Transaction|
                    #[trigger] submit_image(data.body, t) && t.spec_signed() implies false by {
                    assert(vstd::utf8::encode_utf8(body@) == spec_serialize_tx(t));
                    assert(transaction.sender@ == t.sender@);
                    assert(transaction.spec_signed());
                }
            }
            return match e {
                TransactionValidationError::CryptoFailure(_) => Err(
                    HTTPResponseError::InternalServerError(
                        Some(
                            String::from_str(
                                "Error in the OpenSSL library when verifying a transaction",
                            ),
                        ),
                    ),
                ),
                TransactionValidationError::SignatureMismatch => Err(
                    HTTPResponseError::BadRequest(
                        Some(String::from_str("Transaction submitted with invalid signature")),
                    ),
                ),
            };
        },
    };
    state.transactions.push(transaction);
    proof {
        assert(state.transactions@.drop_last() =~= old(state).transactions@);
    }
    Ok(
        HTTPResponse::OK(
            Some(
                Content::JSON(
                    String::from_str(
                        "{\"msg\":\"The transaction was added to the pool.\",\"status_code\":\"200\"}",
                    ),
                ),
            ),
        ),
    )
}

/// Runs the read handler `f`.
pub fn dispatch_get(
    f: &GETFunc,
    data: &crate::node::resolve_requests::methods::GETData,
    state: &mut NodeState,
) -> (r: HTTPResult)
    requires
        old(state).wf(),
    ensures
        spec_get_result(f, *old(state), *final(state), r),
{
    match f {
        GETFunc::Index => index(data, state),
        GETFunc::Favicon => favicon(data, state),
        GETFunc::Status => status(data, state),
    }
}

/// Runs the write handler `f`.
pub fn dispatch_post(
    f: &POSTFunc,
    data: &crate::node::resolve_requests::methods::POSTData,
    state: &mut NodeState,
) -> (r: HTTPResult)
    requires
        old(state).wf(),
        data.body is Some,
    ensures
        spec_post_result(f, *old(state), *final(state), data.body, r),
{
    match f {
        POSTFunc::SubmitTransaction => submit_transaction(data, state),
    }
}

// ---------------------------------------------------------------------------
// The registry and the request resolver.
// ---------------------------------------------------------------------------

/// The log entry a successful request leaves.
pub open spec fn spec_success_log(method: Seq<char>, path: Seq<char>) -> Seq<char> {
    "Request "@ + method + " to path "@ + path + " was successful"@
}

/// How `resolve_endpoint` answers: which handler the path and method
/// select, what it does to the state, the wire response variant, and the
/// text handed back for logging.
pub open spec fn spec_resolved(
    pre: NodeState,
    post: NodeState,
    m: Method,
    r: (HTTPResponse, Result<Option<String>, Option<String>>),
) -> bool {
    let path = spec_method_path(&m);
    if path == "/"@ {
        match m {
            Method::GET(_) => post == pre && (r.0 matches HTTPResponse::OK(c) && c matches Some(
                Content::HTML(p),
            ) && p@ == "src/node/static/index.html"@) && (r.1 matches Ok(l) && l matches Some(msg)
                && msg@ == spec_success_log("GET"@, path)),
            Method::POST(_) => post == pre && r.0 is InvalidMethod && (r.1 matches Err(l) && l
                is None),
        }
    } else if path == "/favicon.ico"@ {
        match m {
            Method::GET(_) => post == pre && (r.0 matches HTTPResponse::OK(c) && c matches Some(
                Content::Image(p, it),
            ) && p@ == "src/node/static/fav.ico"@ && it is ICO) && (r.1 matches Ok(l) && l
                is None),
            Method::POST(_) => post == pre && r.0 is InvalidMethod && (r.1 matches Err(l) && l
                is None),
        }
    } else if path == "/status"@ {
        match m {
            Method::GET(_) => chain_read_effect(pre, post) && (r.0 matches HTTPResponse::OK(c)
                && c matches Some(Content::JSON(txt)) && exists|stamp: Seq<char>|
                json_stringable(stamp) && txt@ == text::bytes_as_chars(
                    #[trigger] spec_status_json(
                        post.chain.spec_blocks().last().spec_index(),
                        post.status@,
                        stamp,
                    ),
                )) && (r.1 matches Ok(l) && l matches Some(msg) && msg@ == spec_success_log(
                "GET"@,
                path,
            )),
            Method::POST(_) => post == pre && r.0 is InvalidMethod && (r.1 matches Err(l) && l
                is None),
        }
    } else if path == "/submit-transaction"@ {
        match m {
            Method::GET(_) => post == pre && r.0 is InvalidMethod && (r.1 matches Err(l) && l
                is None),
            Method::POST(data) => {
                ||| (submit_accept(pre, post, data.body) && (r.0 matches HTTPResponse::OK(c)
                    && c matches Some(Content::JSON(txt)) && txt@ == spec_submit_success_text())
                    && (r.1 matches Ok(l) && l matches Some(msg) && msg@ == spec_success_log(
                    "POST"@,
                    path,
                )))
                ||| (post == pre && r.0 is BadRequest && (r.1 matches Err(l) && l is None)
                    && !(exists|t: Transaction| #[trigger] submit_image(data.body, t)))
                ||| (post == pre && r.0 is InternalServerError && (r.1 matches Err(l) && l
                    matches Some(msg) && msg@
                    == "Error in the OpenSSL library when verifying a transaction"@) && !(exists|
                    t: Transaction,
                | #[trigger] submit_image(data.body, t) && t.spec_signed()))
                ||| (post == pre && r.0 is BadRequest && (r.1 matches Err(l) && l matches Some(
                    msg,
                ) && msg@ == "Transaction submitted with invalid signature"@) && !(exists|
                    t: Transaction,
                | #[trigger] submit_image(data.body, t) && t.spec_signed()))
            },
        }
    } else {
        post == pre && r.0 is BadRequest && (r.1 matches Err(l) && l matches Some(msg) && msg@
            == "Path "@ + path + " was not found"@)
    }
}

/// Looks the path up in the endpoint registry, runs the handler that
/// matches the request's method, and translates the outcome into the wire
/// response variant plus a short text for the caller to log — except for
/// the favicon, whose success is deliberately not surfaced.
pub fn resolve_endpoint(state: &mut NodeState, request: &HTTPRequest) -> (r: (
    HTTPResponse,
    Result<Option<String>, Option<String>>,
))
    requires
        old(state).wf(),
        request.spec_method() matches Method::POST(data) ==> data.body is Some,
    ensures
        spec_resolved(*old(state), *final(state), request.spec_method(), r),
{
    proof {
        reveal_strlit("/");
        reveal_strlit("/favicon.ico");
        reveal_strlit("/status");
        reveal_strlit("/submit-transaction");
    }
    let (path, method_name): (String, &'static str) = match request.get_method() {
        Method::GET(data) => (data.path.clone(), "GET"),
        Method::POST(data) => (data.path.clone(), "POST"),
    };

    let entry: Option<(Option<GETFunc>, Option<POSTFunc>)> = if text::str_eq(path.as_str(), "/") {
        Some((Some(GETFunc::Index), None))
    } else if text::str_eq(path.as_str(), "/favicon.ico") {
        Some((Some(GETFunc::Favicon), None))
    } else if text::str_eq(path.as_str(), "/status") {
        Some((Some(GETFunc::Status), None))
    } else if text::str_eq(path.as_str(), "/submit-transaction") {
        Some((None, Some(POSTFunc::SubmitTransaction)))
    } else {
        None
    };

    let result: HTTPResult = match &entry {
        None => path_not_found(path.as_str()),
        Some((get_f, post_f)) => match request.get_method() {
            Method::GET(data) => match get_f {
                Some(f) => dispatch_get(f, data, state),
                None => method_not_allowed(),
            },
            Method::POST(data) => match post_f {
                Some(f) => dispatch_post(f, data, state),
                None => method_not_allowed(),
            },
        },
    };

    match result {
        Ok(value) => {
            if text::str_eq(path.as_str(), "/favicon.ico") {
                proof {
                    // the revealed path literals have different lengths
                    assert("/"@.len() == 1);
                    assert("/favicon.ico"@.len() == 12);
                    assert(path@ != "/"@);
                }
                return (value, Ok(None));
            }
            let mut msg = String::from_str("Request ");
            msg.append(method_name);
            msg.append(" to path ");
            msg.append(path.as_str());
            msg.append(" was successful");
            proof {
                assert(msg@ =~= spec_success_log(method_name@, path@));
            }
            (value, Ok(Some(msg)))
        },
        Err(e) => match e {
            HTTPResponseError::InvalidMethod(log) => (HTTPResponse::InvalidMethod, Err(log)),
            HTTPResponseError::InvalidPath(log) => (HTTPResponse::BadRequest, Err(log)),
            HTTPResponseError::InvalidBody(log) => (HTTPResponse::BadRequest, Err(log)),
            HTTPResponseError::InternalServerError(log) => (
                HTTPResponse::InternalServerError,
                Err(log),
            ),
            HTTPResponseError::BadRequest(log) => (HTTPResponse::BadRequest, Err(log)),
        },
    }
}

} // verus!
