use chrono::Utc;
use cleyto_coin::chain::transaction::{Transaction, TransactionInfo};
use cleyto_coin::chain::wallet::Wallet;
use cleyto_coin::chain::Chain;
use cleyto_coin::node::logger::Logger;
use cleyto_coin::node::resolve_requests::endpoints::resolve_endpoint;
use cleyto_coin::node::resolve_requests::methods::{
    make_response, response_file, Content, HTTPParseError, HTTPRequest, HTTPResponse, Method,
    Response,
};
use cleyto_coin::node::thread_pool::{check_pool_size, PoolCreationError};
use cleyto_coin::node::{bytes_needed, parse_http_request, select_port, NodeState, DEFAULT_PORT};

fn fresh_state() -> NodeState {
    NodeState::new(Chain::new(), String::from("Running"))
}

fn signed_transaction_body(value: f32) -> String {
    let (wallet, mut wallet_pk) = Wallet::new().unwrap();
    let (receiver, _) = Wallet::new().unwrap();
    let info = TransactionInfo::new(format!("{}", value), Utc::now().to_string());
    let signature = wallet_pk.sign_transaction(&info).unwrap();
    Transaction::new(wallet, receiver, info, signature)
        .unwrap()
        .serialize()
}

#[test]
fn parse_minimum_viable_get() {
    let raw = b"GET / HTTP/1.1\r\n\r\n".to_vec();
    let request = parse_http_request(&raw).unwrap();
    match request.get_method() {
        Method::GET(data) => assert_eq!(data.path, "/"),
        Method::POST(_) => panic!("a GET must parse as a read"),
    }
    assert_eq!(request.http_version, "HTTP/1.1");
}

#[test]
fn parse_post_reads_exactly_content_length_bytes() {
    let raw = b"POST /submit-transaction HTTP/1.1\r\ncontent-length: 5\r\n\r\nhelloEXTRA".to_vec();
    let request = parse_http_request(&raw).unwrap();
    match request.get_method() {
        Method::POST(data) => {
            assert_eq!(data.path, "/submit-transaction");
            assert_eq!(data.body.clone().unwrap(), "hello");
        }
        Method::GET(_) => panic!("a POST must parse as a write"),
    }
}

#[test]
fn parse_errors_match_the_grammar() {
    assert!(matches!(
        parse_http_request(&Vec::new()),
        Err(HTTPParseError::InvalidStatusLine)
    ));
    assert!(matches!(
        parse_http_request(&b"GET /\r\n\r\n".to_vec()),
        Err(HTTPParseError::InvalidRequestLine)
    ));
    assert!(matches!(
        parse_http_request(&b"POST / HTTP/1.1\r\n\r\n".to_vec()),
        Err(HTTPParseError::MissingContentLength)
    ));
    assert!(matches!(
        parse_http_request(&b"POST / HTTP/1.1\r\ncontent-length: junk\r\n\r\n".to_vec()),
        Err(HTTPParseError::MissingContentLength)
    ));
    assert!(matches!(
        parse_http_request(&b"GET / HTTP/1.1\r\nno-colon-here\r\n\r\n".to_vec()),
        Err(HTTPParseError::InvalidRequestLine)
    ));
    // a write method other than POST parses its body and is then refused
    assert!(matches!(
        parse_http_request(&b"PUT / HTTP/1.1\r\ncontent-length: 2\r\n\r\nok".to_vec()),
        Err(HTTPParseError::InvalidStatusLine)
    ));
}

#[test]
fn truncated_post_body_is_a_parse_error() {
    let raw = b"POST /submit-transaction HTTP/1.1\r\ncontent-length: 5\r\n\r\nabc".to_vec();
    assert!(matches!(
        parse_http_request(&raw),
        Err(HTTPParseError::InvalidRequestLine)
    ));
}

#[test]
fn framing_says_when_a_request_is_complete() {
    assert_eq!(bytes_needed(&b"GET / HT".to_vec()), None);
    assert_eq!(bytes_needed(&b"GET / HTTP/1.1\r\n".to_vec()), None);
    let get = b"GET / HTTP/1.1\r\n\r\n".to_vec();
    assert_eq!(bytes_needed(&get), Some(get.len()));
    let post = b"POST / HTTP/1.1\r\ncontent-length: 5\r\n\r\n".to_vec();
    assert_eq!(bytes_needed(&post), Some(post.len() + 5));
}

#[test]
fn headers_keep_the_last_value_and_feed_negotiation() {
    let raw = b"GET / HTTP/1.1\r\nAccept: text/plain\r\nAccept: application/json\r\n\r\n".to_vec();
    let request = parse_http_request(&raw).unwrap();
    assert_eq!(request.accept_header().unwrap(), "application/json");
}

#[test]
fn response_encoding_is_exact() {
    let response = Response::new(200, "text/plain", b"hi".to_vec());
    assert_eq!(
        response.to_bytes(),
        b"HTTP/1.1 200 OK\r\nContent-Type: text/plain\r\nContent-Length: 2\r\n\r\nhi".to_vec()
    );
    let refused = Response::new(405, "text/plain", b"405 Invalid Method".to_vec());
    let bytes = refused.to_bytes();
    let text = String::from_utf8(bytes).unwrap();
    assert!(text.starts_with("HTTP/1.1 405 Method Not Allowed\r\n"));
}

#[test]
fn content_negotiation_matches_the_accept_header() {
    // no-content success with a JSON client
    let accept = String::from("application/json");
    let encoded = make_response(&HTTPResponse::OK(None), Some(&accept), None).unwrap();
    assert_eq!(
        encoded.to_bytes(),
        b"HTTP/1.1 200 OK\r\nContent-Type: application/json\r\nContent-Length: 25\r\n\r\n{\"msg\":\"OK\",\"status\":200}".to_vec()
    );

    // a bad request for an HTML client falls back to the fixed page text
    let html = String::from("text/html");
    assert_eq!(
        response_file(&HTTPResponse::BadRequest, Some(&html)).unwrap(),
        "static/400.html"
    );
    let page = make_response(&HTTPResponse::BadRequest, Some(&html), None).unwrap();
    let text = String::from_utf8(page.to_bytes()).unwrap();
    assert!(text.starts_with("HTTP/1.1 400 Bad Request\r\nContent-Type: text/html\r\n"));
    assert!(text.ends_with("400 Bad Request"));

    // and plain text without an Accept header
    let plain = make_response(&HTTPResponse::BadRequest, None, None).unwrap();
    let text = String::from_utf8(plain.to_bytes()).unwrap();
    assert!(text.contains("Content-Type: text/plain"));

    // a file-backed body that could not be read is not encoded
    let missing = make_response(
        &HTTPResponse::OK(Some(Content::HTML(String::from("src/node/static/index.html")))),
        None,
        None,
    );
    assert!(missing.is_none());
}

#[test]
fn submit_transaction_end_to_end() {
    let mut state = fresh_state();
    let body = signed_transaction_body(10.5);

    // the submission itself: parsed from raw bytes, resolved, encoded
    let raw = format!(
        "POST /submit-transaction HTTP/1.1\r\ncontent-length: {}\r\n\r\n{}",
        body.len(),
        body
    )
    .into_bytes();
    let request = parse_http_request(&raw).unwrap();
    let (outcome, log) = resolve_endpoint(&mut state, &request);
    match &outcome {
        HTTPResponse::OK(Some(Content::JSON(text))) => {
            assert_eq!(
                text,
                "{\"msg\":\"The transaction was added to the pool.\",\"status_code\":\"200\"}"
            );
        }
        _ => panic!("a signed submission must be accepted"),
    }
    assert_eq!(
        log.unwrap().unwrap(),
        "Request POST to path /submit-transaction was successful"
    );
    assert_eq!(state.transactions.len(), 1);

    let encoded = make_response(&outcome, None, None).unwrap();
    let text = String::from_utf8(encoded.to_bytes()).unwrap();
    assert!(text.starts_with("HTTP/1.1 200 OK\r\n"));

    // a later status read reflects an unchanged block height
    let status_raw = b"GET /status HTTP/1.1\r\n\r\n".to_vec();
    let status_request = parse_http_request(&status_raw).unwrap();
    let (status_outcome, _) = resolve_endpoint(&mut state, &status_request);
    match status_outcome {
        HTTPResponse::OK(Some(Content::JSON(text))) => {
            assert!(text.starts_with("{\"blockHeight\":0,\"peers\":8,\"status\":\"Running\","));
        }
        _ => panic!("the status endpoint must answer with JSON"),
    }
    assert_eq!(state.transactions.len(), 1);
}

#[test]
fn submit_transaction_refuses_bad_bodies() {
    let mut state = fresh_state();

    // a body that does not parse
    let raw = b"POST /submit-transaction HTTP/1.1\r\ncontent-length: 3\r\n\r\nnot".to_vec();
    let request = parse_http_request(&raw).unwrap();
    let (outcome, log) = resolve_endpoint(&mut state, &request);
    assert!(matches!(outcome, HTTPResponse::BadRequest));
    assert!(matches!(log, Err(None)));
    assert_eq!(state.transactions.len(), 0);

    // a parsed transaction whose signature does not match
    let good = signed_transaction_body(10.5);
    let tampered = good.replace("\"value\":10.5", "\"value\":99.5");
    let raw = format!(
        "POST /submit-transaction HTTP/1.1\r\ncontent-length: {}\r\n\r\n{}",
        tampered.len(),
        tampered
    )
    .into_bytes();
    let request = parse_http_request(&raw).unwrap();
    let (outcome, log) = resolve_endpoint(&mut state, &request);
    assert!(matches!(outcome, HTTPResponse::BadRequest));
    assert_eq!(
        log.unwrap_err().unwrap(),
        "Transaction submitted with invalid signature"
    );
    assert_eq!(state.transactions.len(), 0);
}

#[test]
fn routing_refuses_unknown_paths_and_methods() {
    let mut state = fresh_state();

    let raw = b"GET /nowhere HTTP/1.1\r\n\r\n".to_vec();
    let request = parse_http_request(&raw).unwrap();
    let (outcome, log) = resolve_endpoint(&mut state, &request);
    assert!(matches!(outcome, HTTPResponse::BadRequest));
    assert_eq!(log.unwrap_err().unwrap(), "Path /nowhere was not found");

    let raw = b"POST / HTTP/1.1\r\ncontent-length: 2\r\n\r\nhi".to_vec();
    let request = parse_http_request(&raw).unwrap();
    let (outcome, log) = resolve_endpoint(&mut state, &request);
    assert!(matches!(outcome, HTTPResponse::InvalidMethod));
    assert!(matches!(log, Err(None)));

    let raw = b"GET / HTTP/1.1\r\n\r\n".to_vec();
    let request = parse_http_request(&raw).unwrap();
    let (outcome, log) = resolve_endpoint(&mut state, &request);
    match outcome {
        HTTPResponse::OK(Some(Content::HTML(path))) => {
            assert_eq!(path, "src/node/static/index.html")
        }
        _ => panic!("the root must serve the index page"),
    }
    assert_eq!(log.unwrap().unwrap(), "Request GET to path / was successful");

    // the favicon's success is deliberately not logged
    let raw = b"GET /favicon.ico HTTP/1.1\r\n\r\n".to_vec();
    let request = parse_http_request(&raw).unwrap();
    let (_, log) = resolve_endpoint(&mut state, &request);
    assert!(matches!(log, Ok(None)));
}

#[test]
fn logger_keeps_a_bounded_rolling_view() {
    let mut logger = Logger::new();
    logger.log(String::from("first"));
    logger.log_error(String::from("second"));
    let logs = logger.read_logs();
    assert_eq!(logs.len(), 2);
    assert!(logs[0].starts_with("[LOG] "));
    assert!(logs[0].ends_with(" | first"));
    assert!(logs[1].starts_with("[ERROR] "));

    for i in 0..60 {
        logger.log(format!("entry {i}"));
    }
    assert_eq!(logger.read_logs().len(), 62);
    let rolling = logger.read_temp_logs();
    assert_eq!(rolling.len(), 50);
    assert!(rolling[49].ends_with(" | entry 59"));
}

#[test]
fn pool_sizes_and_ports_follow_the_rules() {
    assert!(matches!(
        check_pool_size(0),
        Err(PoolCreationError::TooFewThreads)
    ));
    assert!(check_pool_size(1).is_ok());
    assert!(check_pool_size(64).is_ok());

    assert_eq!(select_port(true, 8080), DEFAULT_PORT);
    assert_eq!(select_port(false, 8080), 8080);
    assert_eq!(select_port(false, 0), DEFAULT_PORT);
}

#[test]
fn requests_survive_lossy_bodies() {
    // a body that is not valid UTF-8 still parses, with replacement text
    let mut raw = b"POST / HTTP/1.1\r\ncontent-length: 2\r\n\r\n".to_vec();
    raw.push(0xFF);
    raw.push(0xFE);
    let request = parse_http_request(&raw).unwrap();
    match request.get_method() {
        Method::POST(data) => assert_eq!(data.body.clone().unwrap().len(), 6),
        Method::GET(_) => panic!("expected a write"),
    }
    let _ = HTTPRequest::new(
        String::from("GET"),
        String::from("/"),
        String::from("HTTP/1.1"),
        Vec::new(),
        None,
    );
}
