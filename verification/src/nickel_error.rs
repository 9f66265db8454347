//! The error/response binding: a value that couples a diagnostic message to
//! an in-flight response stream (or explicitly to none), so that a failed
//! handler can never leave the underlying transport stream unterminated.
//!
//! The response stream is modelled here by its lifecycle alone: `Fresh`
//! (nothing sent), `Started` (status assigned, headers committed) and `Ended`
//! (terminated).  The transport work behind each transition — flushing
//! headers, closing the connection — is blocking I/O owned by the caller;
//! its outcome is handed in as a plain `Result`, and the contracts state what
//! the binding does with every outcome.

use vstd::prelude::*;

verus! {

/// The conventional status code reported when a failure carries a message
/// but no code of its own.
pub const INTERNAL_SERVER_ERROR: u16 = 500;

/// The lifecycle of a response stream: unsent, headers committed, terminated.
#[derive(Clone, Copy, Debug, PartialEq, Eq, Structural)]
pub enum StreamState {
    Fresh,
    Started,
    Ended,
}

/// A response stream as this component consumes it: an opaque transport
/// handle, the status code to report, and the lifecycle state.  The state
/// only ever advances `Fresh -> Started -> Ended`, and only through the
/// methods below.
pub struct Response<T> {
    pub transport: T,
    pub status: u16,
    pub state: StreamState,
}

/// The value of `r` after its status code is set.
pub open spec fn with_status<T>(r: Response<T>, code: u16) -> Response<T> {
    Response { status: code, ..r }
}

/// The value of `r` after the transition out of `Fresh`: headers committed,
/// everything else unchanged.
pub open spec fn started<T>(r: Response<T>) -> Response<T> {
    Response { state: StreamState::Started, ..r }
}

/// The value of `r` after termination.
pub open spec fn ended<T>(r: Response<T>) -> Response<T> {
    Response { state: StreamState::Ended, ..r }
}

impl<T> Response<T> {
    /// Wraps a transport handle as a fresh stream carrying the given status
    /// code.
    pub fn new(transport: T, status: u16) -> (r: Response<T>)
        ensures
            r.transport == transport,
            r.status == status,
            r.state is Fresh,
    {
        Response { transport, status, state: StreamState::Fresh }
    }

    /// Assigns the status code.  Only a fresh stream accepts one: once the
    /// headers are committed the code is on the wire.
    pub fn set_status(&mut self, code: u16)
        requires
            old(self).state is Fresh,
        ensures
            *final(self) == with_status(*old(self), code),
    {
        self.status = code;
    }

    /// The transition from `Fresh` to `Started`.  The header flush itself is
    /// transport work done by the caller; `io` is its outcome.  On success
    /// the stream comes back started and otherwise unchanged; on a transport
    /// failure the stream is lost with the connection, and what remains is a
    /// binding that carries the transport's own diagnostic and no stream.
    pub fn start(self, io: Result<(), String>) -> (r: Result<Response<T>, NickelError<T>>)
        requires
            self.state is Fresh,
        ensures
            io is Ok ==> (r matches Ok(s) && s == started(self)),
            io matches Err(d) ==> (r matches Err(e) && e.stream is None && e.message == d),
    {
        match io {
            Ok(()) => Ok(Response { state: StreamState::Started, ..self }),
            Err(d) => Err(NickelError { stream: None, message: d }),
        }
    }

    /// The transition from `Started` to `Ended`: terminates the stream and
    /// reports the outcome of the transport-level flush/close, which the
    /// caller performed and hands in as `io`.  Consumes the stream, so no
    /// second termination can be expressed.
    pub fn end(self, io: Result<(), String>) -> (r: Result<(), String>)
        requires
            self.state is Started,
        ensures
            r == io,
            ended(self).state is Ended,
    {
        io
    }
}

/// The binding of a diagnostic message to the response stream whose
/// termination it owes — or to none, when the caller answers for the stream
/// elsewhere.
pub struct NickelError<T> {
    pub stream: Option<Response<T>>,
    pub message: String,
}

impl<T> NickelError<T> {
    /// A binding is well formed when any stream it holds is started: ready
    /// for exactly one finalization, neither unsent nor already terminated.
    pub open spec fn wf(self) -> bool {
        self.stream matches Some(s) ==> s.state is Started
    }

    /// Builds a binding from a fresh stream: assigns the status code and
    /// performs the `Fresh -> Started` transition, whose transport outcome
    /// is `io`.  On success the binding holds the started stream and the
    /// message.  A transport failure supersedes the message: the binding
    /// then reports the transport's own diagnostic and holds no stream,
    /// since the connection is lost with it.
    pub fn new(stream: Response<T>, message: String, status_code: u16, io: Result<(), String>) -> (e:
        NickelError<T>)
        requires
            stream.state is Fresh,
        ensures
            e.wf(),
            io is Ok ==> (e.stream matches Some(s) && s == started(with_status(stream, status_code))
                && e.message == message),
            io matches Err(d) ==> (e.stream is None && e.message == d),
    {
        let mut stream = stream;
        stream.set_status(status_code);
        match stream.start(io) {
            Ok(s) => NickelError { stream: Some(s), message },
            Err(e) => e,
        }
    }

    /// Builds a binding carrying no stream.  Dangerous: this binding will
    /// never finalize anything, so the caller must guarantee by other means
    /// that the stream was already terminated — otherwise the connection
    /// hangs waiting for a response that never completes.  That obligation
    /// is documentation, not machine-checked.
    pub fn without_response(message: String) -> (e: NickelError<T>)
        ensures
            e.wf(),
            e.stream is None,
            e.message == message,
    {
        NickelError { stream: None, message }
    }

    /// Builds a binding from a stream and a status code alone; the message
    /// defaults to the empty string.  Performs the same `Fresh -> Started`
    /// transition as [`NickelError::new`].
    pub fn from_status(stream: Response<T>, status_code: u16, io: Result<(), String>) -> (e:
        NickelError<T>)
        requires
            stream.state is Fresh,
        ensures
            e.wf(),
            io is Ok ==> (e.stream matches Some(s) && s == started(with_status(stream, status_code))
                && e.message@ == Seq::<char>::empty()),
            io matches Err(d) ==> (e.stream is None && e.message == d),
    {
        NickelError::new(stream, String::new(), status_code, io)
    }

    /// Builds a binding from a stream and a message alone; the status code
    /// defaults to [`INTERNAL_SERVER_ERROR`].  Performs the same
    /// `Fresh -> Started` transition as [`NickelError::new`].
    pub fn from_message(stream: Response<T>, message: String, io: Result<(), String>) -> (e:
        NickelError<T>)
        requires
            stream.state is Fresh,
        ensures
            e.wf(),
            io is Ok ==> (e.stream matches Some(s) && s == started(
                with_status(stream, INTERNAL_SERVER_ERROR),
            ) && e.message == message),
            io matches Err(d) ==> (e.stream is None && e.message == d),
    {
        NickelError::new(stream, message, INTERNAL_SERVER_ERROR, io)
    }

    /// Builds a binding from a stream, a status code and a descriptive error
    /// value's textual description, which becomes the message.  Performs the
    /// same `Fresh -> Started` transition as [`NickelError::new`].
    pub fn from_error(
        stream: Response<T>,
        status_code: u16,
        description: String,
        io: Result<(), String>,
    ) -> (e: NickelError<T>)
        requires
            stream.state is Fresh,
        ensures
            e.wf(),
            io is Ok ==> (e.stream matches Some(s) && s == started(with_status(stream, status_code))
                && e.message == description),
            io matches Err(d) ==> (e.stream is None && e.message == d),
    {
        NickelError::new(stream, description, status_code, io)
    }

    /// Finalizes the binding.  If it holds a stream, terminates it — `io` is
    /// the transport outcome of that close — and returns the result of the
    /// termination; if it holds none, returns `None`: finalization was this
    /// binding's to decline, an intentional no-op rather than a success or
    /// failure, and no transport is touched.  Consumes the binding, so it
    /// cannot be finalized twice.
    pub fn end(self, io: Result<(), String>) -> (r: Option<Result<(), String>>)
        requires
            self.wf(),
        ensures
            self.stream is Some ==> r == Some(io),
            self.stream is None ==> r is None,
    {
        match self.stream {
            Some(s) => Some(s.end(io)),
            None => None,
        }
    }
}

/// From a fresh stream, construction (with a successful start) always yields
/// a started stream: the single finalization step is both accepted — its
/// precondition holds — and sufficient, carrying the stream to `Ended`.
/// That the step happens at most once is enforced by ownership: both
/// [`Response::end`] and [`NickelError::end`] consume their value.
pub proof fn lemma_fresh_construction_finalizes_once<T>(stream: Response<T>, status_code: u16)
    requires
        stream.state is Fresh,
    ensures
        started(with_status(stream, status_code)).state is Started,
        ended(started(with_status(stream, status_code))).state is Ended,
{
}

} // verus!
