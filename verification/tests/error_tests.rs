use nickel_core::nickel_error::NickelError;
use nickel_core::nickel_error::Response;
use nickel_core::nickel_error::StreamState;
use nickel_core::nickel_error::INTERNAL_SERVER_ERROR;

#[test]
fn construction_from_fresh_starts_the_stream() {
    let resp: Response<u32> = Response::new(42, 200);
    assert_eq!(resp.state, StreamState::Fresh);

    let err = NickelError::new(resp, "boom".to_string(), 404, Ok(()));
    let stream = err.stream.as_ref().unwrap();
    assert_eq!(stream.state, StreamState::Started);
    assert_eq!(stream.status, 404);
    assert_eq!(stream.transport, 42);
    assert_eq!(err.message, "boom");

    // One finalization is required and sufficient; it consumes the binding.
    let outcome = err.end(Ok(()));
    assert_eq!(outcome, Some(Ok(())));
}

#[test]
fn transport_failure_supersedes_the_message() {
    let resp: Response<u32> = Response::new(7, 200);
    let err = NickelError::new(resp, "boom".to_string(), 404, Err("broken pipe".to_string()));
    assert!(err.stream.is_none());
    assert_eq!(err.message, "broken pipe");
}

#[test]
fn finalization_reports_the_close_outcome() {
    let resp: Response<u32> = Response::new(1, 200);
    let err = NickelError::new(resp, "boom".to_string(), 500, Ok(()));
    let outcome = err.end(Err("connection reset".to_string()));
    assert_eq!(outcome, Some(Err("connection reset".to_string())));
}

#[test]
fn without_response_finalizes_nothing() {
    let err: NickelError<u32> = NickelError::without_response("lost".to_string());
    assert!(err.stream.is_none());
    assert_eq!(err.message, "lost");
    let outcome = err.end(Ok(()));
    assert!(outcome.is_none());
}

#[test]
fn conversion_from_status_defaults_to_an_empty_message() {
    let resp: Response<u32> = Response::new(9, 200);
    let err = NickelError::from_status(resp, 404, Ok(()));
    let stream = err.stream.as_ref().unwrap();
    assert_eq!(stream.status, 404);
    assert_eq!(stream.state, StreamState::Started);
    assert_eq!(err.message, "");
}

#[test]
fn conversion_from_message_defaults_to_a_server_fault() {
    let resp: Response<u32> = Response::new(9, 200);
    let err = NickelError::from_message(resp, "oh no".to_string(), Ok(()));
    let stream = err.stream.as_ref().unwrap();
    assert_eq!(stream.status, INTERNAL_SERVER_ERROR);
    assert_eq!(stream.status, 500);
    assert_eq!(err.message, "oh no");
}

#[test]
fn conversion_from_error_takes_the_description() {
    let resp: Response<u32> = Response::new(9, 200);
    let err = NickelError::from_error(resp, 400, "missing field `name`".to_string(), Ok(()));
    let stream = err.stream.as_ref().unwrap();
    assert_eq!(stream.status, 400);
    assert_eq!(err.message, "missing field `name`");
}

#[test]
fn conversions_still_report_transport_failures() {
    let resp: Response<u32> = Response::new(9, 200);
    let err = NickelError::from_status(resp, 404, Err("io".to_string()));
    assert!(err.stream.is_none());
    assert_eq!(err.message, "io");

    let resp: Response<u32> = Response::new(9, 200);
    let err = NickelError::from_message(resp, "oh no".to_string(), Err("io".to_string()));
    assert!(err.stream.is_none());
    assert_eq!(err.message, "io");
}

#[test]
fn set_status_keeps_the_transport() {
    let mut resp: Response<String> = Response::new("conn".to_string(), 200);
    resp.set_status(503);
    assert_eq!(resp.status, 503);
    assert_eq!(resp.state, StreamState::Fresh);
    assert_eq!(resp.transport, "conn");
}

#[test]
fn start_and_end_walk_the_lifecycle() {
    let resp: Response<u32> = Response::new(5, 204);
    let started = match resp.start(Ok(())) {
        Ok(s) => s,
        Err(_) => panic!("start reported a failure for a successful transition"),
    };
    assert_eq!(started.state, StreamState::Started);
    assert_eq!(started.status, 204);
    let outcome = started.end(Ok(()));
    assert_eq!(outcome, Ok(()));
}

#[test]
fn failed_start_yields_a_streamless_binding() {
    let resp: Response<u32> = Response::new(5, 204);
    let err = match resp.start(Err("tls".to_string())) {
        Ok(_) => panic!("start swallowed a transport failure"),
        Err(e) => e,
    };
    assert!(err.stream.is_none());
    assert_eq!(err.message, "tls");
}
