//! A minimal HTTP/1.1 server's decisions: its settings, and what to do with
//! a connection once its request has been read.
//!
//! Each connection reads one request (see [`crate::reader`]), runs the
//! handler, writes the response, and closes (`Connection: close`, no
//! keep-alive). A malformed request is answered with `400 Bad Request`.
use vstd::prelude::*;
use vstd::utf8::encode_utf8;

use crate::error::Error;
use crate::reader::Limits;
use crate::request::Request;
use crate::response::{Response, ResponseView};

verus! {

/// Default per-connection thread stack (bytes).
pub const DEFAULT_STACK_SIZE: usize = 131072;

/// Default cap on the request head (request line + headers), in bytes.
pub const DEFAULT_MAX_HEADER_BYTES: usize = 65536;

/// Default cap on the request body, in bytes.
pub const DEFAULT_MAX_BODY_BYTES: usize = 8388608;

/// Read granularity when pulling bytes off the socket.
pub const READ_CHUNK: usize = 4096;

/// The settings of a [`Server`].
pub struct ServerView {
    pub stack_size: usize,
    pub max_header_bytes: usize,
    pub max_body_bytes: usize,
}

/// A thread-per-connection HTTP/1.1 server's settings: the stack size of each
/// connection's thread and the request size limits.
#[derive(Clone, Debug)]
pub struct Server {
    stack_size: usize,
    limits: Limits,
}

impl View for Server {
    type V = ServerView;

    closed spec fn view(&self) -> ServerView {
        ServerView {
            stack_size: self.stack_size,
            max_header_bytes: self.limits.max_header_bytes,
            max_body_bytes: self.limits.max_body_bytes,
        }
    }
}

impl Server {
    /// A server with default settings (128 KiB per-connection stack, 64 KiB
    /// header cap, 8 MiB body cap).
    pub fn new() -> (s: Server)
        ensures
            s@ == (ServerView {
                stack_size: DEFAULT_STACK_SIZE,
                max_header_bytes: DEFAULT_MAX_HEADER_BYTES,
                max_body_bytes: DEFAULT_MAX_BODY_BYTES,
            }),
    {
        Server {
            stack_size: DEFAULT_STACK_SIZE,
            limits: Limits {
                max_header_bytes: DEFAULT_MAX_HEADER_BYTES,
                max_body_bytes: DEFAULT_MAX_BODY_BYTES,
            },
        }
    }

    /// Set the stack size (bytes) for each connection's handler thread.
    pub fn stack_size(self, bytes: usize) -> (s: Server)
        ensures
            s@ == (ServerView { stack_size: bytes, ..self@ }),
    {
        let mut s = self;
        s.stack_size = bytes;
        s
    }

    /// Set the maximum accepted request-head size (request line + headers).
    pub fn max_header_bytes(self, bytes: usize) -> (s: Server)
        ensures
            s@ == (ServerView { max_header_bytes: bytes, ..self@ }),
    {
        let mut s = self;
        s.limits.max_header_bytes = bytes;
        s
    }

    /// Set the maximum accepted request-body size.
    pub fn max_body_bytes(self, bytes: usize) -> (s: Server)
        ensures
            s@ == (ServerView { max_body_bytes: bytes, ..self@ }),
    {
        let mut s = self;
        s.limits.max_body_bytes = bytes;
        s
    }

    /// The stack size of each connection's thread.
    pub fn thread_stack_size(&self) -> (n: usize)
        ensures
            n == self@.stack_size,
    {
        self.stack_size
    }

    /// The size limits applied to each request.
    pub fn limits(&self) -> (l: Limits)
        ensures
            l.max_header_bytes == self@.max_header_bytes,
            l.max_body_bytes == self@.max_body_bytes,
    {
        self.limits
    }
}

impl Default for Server {
    fn default() -> (s: Server)
        ensures
            s@ == (ServerView {
                stack_size: DEFAULT_STACK_SIZE,
                max_header_bytes: DEFAULT_MAX_HEADER_BYTES,
                max_body_bytes: DEFAULT_MAX_BODY_BYTES,
            }),
    {
        Server::new()
    }
}

/// What to do with a connection once reading its request has ended.
pub enum ConnectionStep {
    /// Run the handler on the request and send its response.
    Handle(Request),
    /// Send this response (the request was malformed or could not be read).
    Reply(Response),
    /// The client closed before sending anything: just shut down.
    Close,
}

/// The answer to a malformed request: `400` with a plain-text body.
pub open spec fn bad_request() -> ResponseView {
    ResponseView {
        status: 400,
        headers: seq![("Content-Type"@, "text/plain; charset=utf-8"@)],
        body: encode_utf8("Bad Request"@),
    }
}

/// Decide what to do with a connection from the result of reading its
/// request: a request goes to the handler, an early close is just closed, and
/// any error is answered with `400 Bad Request`.
pub fn connection_step(read: Result<Option<Request>, Error>) -> (step: ConnectionStep)
    ensures
        match read {
            Ok(Some(req)) => step == ConnectionStep::Handle(req),
            Ok(None) => step is Close,
            Err(_) => step matches ConnectionStep::Reply(r) && r@ == bad_request(),
        },
{
    match read {
        Ok(Some(req)) => ConnectionStep::Handle(req),
        Ok(None) => ConnectionStep::Close,
        Err(_) => {
            let r = Response::new(400).text("Bad Request");
            assert(r@.headers =~= seq![("Content-Type"@, "text/plain; charset=utf-8"@)]);
            ConnectionStep::Reply(r)
        },
    }
}

/// What the accept loop does after one `accept` call.
pub enum AcceptStep<S> {
    /// Serve the accepted connection on a thread of its own.
    Serve(S),
    /// A signal interrupted `accept`: call it again.
    Retry,
    /// The listening socket itself failed: stop serving with this error.
    Stop(Error),
}

/// Decide the accept loop's next move from the result of one `accept`: an
/// accepted connection is served, an `EINTR` is retried, and any other
/// failure ends the loop with that error.
pub fn accept_step<S>(accepted: Result<S, Error>) -> (step: AcceptStep<S>)
    ensures
        match accepted {
            Ok(conn) => step == AcceptStep::Serve(conn),
            Err(e) => if e.is_interrupted_spec() {
                step is Retry
            } else {
                step == AcceptStep::<S>::Stop(e)
            },
        },
{
    match accepted {
        Ok(conn) => AcceptStep::Serve(conn),
        Err(e) => if e.is_interrupted() {
            AcceptStep::Retry
        } else {
            AcceptStep::Stop(e)
        },
    }
}

} // verus!
