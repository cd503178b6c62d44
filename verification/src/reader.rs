//! Reading one HTTP/1.1 request off a connection, as a state machine.
//!
//! The connection loop (which owns the socket) creates a [`RequestReader`],
//! then repeatedly reads a chunk and hands the result to
//! [`RequestReader::feed`], until the reader answers with a complete request,
//! a clean close, or a rejection. The reader holds every decision: where the
//! head ends, the head size limit, the head parse, the body length and limit,
//! and when the body is complete.
use vstd::prelude::*;
use vstd::slice::{slice_subrange, slice_to_vec};

use crate::error::Error;
use crate::request::{content_length, find_content_length, parse_head, parse_head_bytes, Request, RequestView};
use crate::text::{
    find_first, find_from, lemma_find_first_prefix, lemma_find_from, lemma_matches_at_prefix, matches_at,
};

verus! {

/// Size limits applied while parsing a request.
#[derive(Clone, Copy, Debug)]
pub struct Limits {
    /// Largest accepted request head (request line + headers, up to the
    /// blank line that ends it), in bytes. A longer head is rejected however
    /// its bytes are split into reads; while the blank line has not arrived,
    /// more than this many bytes received is rejected too.
    pub max_header_bytes: usize,
    /// Largest accepted request body, in bytes.
    pub max_body_bytes: usize,
}

/// The blank line that ends a request head.
pub open spec fn crlf_crlf() -> Seq<u8> {
    seq![13u8, 10u8, 13u8, 10u8]
}

/// Where the head ends in `buf`: the offset of the first `\r\n\r\n`.
pub open spec fn head_end(buf: Seq<u8>) -> Option<int> {
    find_first(buf, crlf_crlf())
}

fn bytes_match_crlf_crlf(buf: &[u8], i: usize) -> (b: bool)
    requires
        i <= buf@.len(),
    ensures
        b == matches_at(buf@, crlf_crlf(), i as int),
{
    let n = buf.len();
    if n - i < 4 {
        return false;
    }
    let b = buf[i] == 13 && buf[i + 1] == 10 && buf[i + 2] == 13 && buf[i + 3] == 10;
    proof {
        if b {
            assert(buf@.subrange(i as int, i + 4) =~= crlf_crlf());
        } else {
            if buf@.subrange(i as int, i + 4) == crlf_crlf() {
                assert(buf@.subrange(i as int, i + 4)[0] == buf@[i as int]);
                assert(buf@.subrange(i as int, i + 4)[1] == buf@[i + 1]);
                assert(buf@.subrange(i as int, i + 4)[2] == buf@[i + 2]);
                assert(buf@.subrange(i as int, i + 4)[3] == buf@[i + 3]);
            }
        }
    }
    b
}

/// Find the byte offset of the first `\r\n\r\n` in `buf`, if present.
pub fn find_double_crlf(buf: &[u8]) -> (r: Option<usize>)
    ensures
        r matches Some(i) ==> head_end(buf@) == Some(i as int),
        r is None ==> head_end(buf@) is None,
{
    let mut i: usize = 0;
    while i < buf.len()
        invariant
            i <= buf@.len(),
            head_end(buf@) == find_from(buf@, crlf_crlf(), i as int),
        decreases buf@.len() - i,
    {
        if bytes_match_crlf_crlf(buf, i) {
            return Some(i);
        }
        i = i + 1;
    }
    None
}

/// The state of a [`RequestReader`].
pub enum ReaderView {
    /// Reading the head; `buf` holds every byte received so far.
    Head { buf: Seq<u8> },
    /// The head is parsed; the body is still short of `length` bytes.
    Body { request: RequestView, length: nat },
    /// A result was given; nothing more is read.
    Finished,
}

/// What a [`RequestReader`] asks for after a read.
pub enum OutcomeView {
    NeedMore,
    Complete(Option<RequestView>),
    Rejected(Error),
}

/// What a [`RequestReader`] asks for after a read.
pub enum ReadOutcome {
    /// Read another chunk and feed it.
    NeedMore,
    /// Done: `Some` request, or `None` when the peer closed the connection
    /// before sending any byte.
    Complete(Option<Request>),
    /// The request is malformed or oversized, or the read failed.
    Rejected(Error),
}

impl View for ReadOutcome {
    type V = OutcomeView;

    open spec fn view(&self) -> OutcomeView {
        match self {
            ReadOutcome::NeedMore => OutcomeView::NeedMore,
            ReadOutcome::Complete(None) => OutcomeView::Complete(None),
            ReadOutcome::Complete(Some(r)) => OutcomeView::Complete(Some(r@)),
            ReadOutcome::Rejected(e) => OutcomeView::Rejected(*e),
        }
    }
}

/// The request with its body replaced.
pub open spec fn with_body(r: RequestView, body: Seq<u8>) -> RequestView {
    RequestView { body, ..r }
}

/// The body so far is complete once it reaches the announced length; it is
/// then cut to that length.
pub open spec fn body_progress(r: RequestView, length: nat) -> (ReaderView, OutcomeView) {
    if r.body.len() >= length {
        (
            ReaderView::Finished,
            OutcomeView::Complete(Some(with_body(r, r.body.take(length as int)))),
        )
    } else {
        (ReaderView::Body { request: r, length }, OutcomeView::NeedMore)
    }
}

/// What happens once `buf` is known to hold a whole head ending at `h`: the
/// head is parsed, the body length checked against the limit, and the bytes
/// after the blank line start the body.
pub open spec fn head_complete(limits: Limits, buf: Seq<u8>, h: int) -> (ReaderView, OutcomeView) {
    match parse_head(buf.take(h)) {
        Err(e) => (ReaderView::Finished, OutcomeView::Rejected(e)),
        Ok(head) => {
            let length = content_length(head.headers);
            if length > limits.max_body_bytes {
                (
                    ReaderView::Finished,
                    OutcomeView::Rejected(Error::InvalidInput("request body exceeds limit")),
                )
            } else {
                body_progress(
                    RequestView {
                        method: head.method,
                        target: head.target,
                        version: head.version,
                        headers: head.headers,
                        body: buf.skip(h + 4),
                    },
                    length,
                )
            }
        },
    }
}

/// One step of the reader: its state after `input` (the bytes of one read,
/// empty at end of stream, or the read's error) and what it answers.
pub open spec fn step(limits: Limits, state: ReaderView, input: Result<Seq<u8>, Error>) -> (
    ReaderView,
    OutcomeView,
) {
    match state {
        ReaderView::Finished => (ReaderView::Finished, OutcomeView::NeedMore),
        ReaderView::Head { buf } => match input {
            Err(e) => (ReaderView::Finished, OutcomeView::Rejected(e)),
            Ok(chunk) => {
                if chunk.len() == 0 {
                    if buf.len() == 0 {
                        (ReaderView::Finished, OutcomeView::Complete(None))
                    } else {
                        (
                            ReaderView::Finished,
                            OutcomeView::Rejected(
                                Error::InvalidInput("connection closed mid-request"),
                            ),
                        )
                    }
                } else {
                    let grown = buf + chunk;
                    match head_end(grown) {
                        Some(h) => if h > limits.max_header_bytes {
                            (
                                ReaderView::Finished,
                                OutcomeView::Rejected(
                                    Error::InvalidInput("request head exceeds limit"),
                                ),
                            )
                        } else {
                            head_complete(limits, grown, h)
                        },
                        None => if grown.len() > limits.max_header_bytes {
                            (
                                ReaderView::Finished,
                                OutcomeView::Rejected(
                                    Error::InvalidInput("request head exceeds limit"),
                                ),
                            )
                        } else {
                            (ReaderView::Head { buf: grown }, OutcomeView::NeedMore)
                        },
                    }
                }
            },
        },
        ReaderView::Body { request, length } => match input {
            Err(e) => (ReaderView::Finished, OutcomeView::Rejected(e)),
            Ok(chunk) => {
                if chunk.len() == 0 {
                    (ReaderView::Finished, OutcomeView::Complete(Some(request)))
                } else {
                    body_progress(with_body(request, request.body + chunk), length)
                }
            },
        },
    }
}

/// The input of a step, as a spec value.
pub open spec fn input_view(input: Result<&[u8], Error>) -> Result<Seq<u8>, Error> {
    match input {
        Ok(chunk) => Ok(chunk@),
        Err(e) => Err(e),
    }
}

/// Reads one request: a state machine fed with the results of socket reads.
pub struct RequestReader {
    limits: Limits,
    buf: Vec<u8>,
    request: Option<Request>,
    length: usize,
    finished: bool,
}

impl View for RequestReader {
    type V = ReaderView;

    closed spec fn view(&self) -> ReaderView {
        if self.finished {
            ReaderView::Finished
        } else {
            match self.request {
                None => ReaderView::Head { buf: self.buf@ },
                Some(r) => ReaderView::Body { request: r@, length: self.length as nat },
            }
        }
    }
}

fn append_bytes(v: &mut Vec<u8>, s: &[u8])
    ensures
        final(v)@ == old(v)@ + s@,
{
    let mut i: usize = 0;
    while i < s.len()
        invariant
            i <= s@.len(),
            v@ == old(v)@ + s@.take(i as int),
        decreases s@.len() - i,
    {
        v.push(s[i]);
        assert(s@.take(i + 1) =~= s@.take(i as int).push(s@[i as int]));
        i = i + 1;
    }
    assert(s@.take(s@.len() as int) =~= s@);
}

impl RequestReader {
    /// The limits this reader enforces.
    pub closed spec fn spec_limits(&self) -> Limits {
        self.limits
    }

    /// A reader that has received nothing yet; the first thing to do is read.
    pub fn new(limits: Limits) -> (r: RequestReader)
        ensures
            r@ == (ReaderView::Head { buf: Seq::<u8>::empty() }),
            r.spec_limits() == limits,
    {
        RequestReader { limits, buf: Vec::new(), request: None, length: 0, finished: false }
    }

    /// `true` once the reader has answered with a result.
    pub fn is_finished(&self) -> (b: bool)
        ensures
            b == (self@ is Finished),
    {
        self.finished
    }

    /// The body is complete or still short.
    fn progress(&mut self, mut request: Request, length: usize) -> (out: ReadOutcome)
        requires
            !old(self).finished,
        ensures
            (final(self)@, out@) == body_progress(request@, length as nat),
            final(self).limits == old(self).limits,
    {
        if request.body.len() >= length {
            request.body.truncate(length);
            self.finished = true;
            ReadOutcome::Complete(Some(request))
        } else {
            self.request = Some(request);
            self.length = length;
            ReadOutcome::NeedMore
        }
    }

    /// The head ends at `h` in the buffer.
    fn on_head(&mut self, h: usize) -> (out: ReadOutcome)
        requires
            !old(self).finished,
            old(self).request is None,
            h + 4 <= old(self).buf@.len(),
        ensures
            (final(self)@, out@) == head_complete(old(self).limits, old(self).buf@, h as int),
            final(self).limits == old(self).limits,
    {
        let head = slice_subrange(self.buf.as_slice(), 0, h);
        assert(head@ == self.buf@.take(h as int));
        match parse_head_bytes(head) {
            Err(e) => {
                self.finished = true;
                ReadOutcome::Rejected(e)
            },
            Ok((method, target, version, headers)) => {
                let length = find_content_length(&headers);
                if length > self.limits.max_body_bytes {
                    self.finished = true;
                    ReadOutcome::Rejected(Error::InvalidInput("request body exceeds limit"))
                } else {
                    let n = self.buf.len();
                    assert(h + 4 <= n);
                    let rest = slice_subrange(self.buf.as_slice(), h + 4, n);
                    let body = slice_to_vec(rest);
                    assert(body@ =~= self.buf@.skip(h + 4));
                    let request = Request { method, target, version, headers, body };
                    self.progress(request, length)
                }
            },
        }
    }

    /// Hand the reader the result of one read: the bytes read (an empty slice
    /// at end of stream) or the read's error. The reader answers whether to
    /// read again or what the result is.
    pub fn feed(&mut self, input: Result<&[u8], Error>) -> (out: ReadOutcome)
        requires
            !(old(self)@ is Finished),
        ensures
            (final(self)@, out@) == step(old(self).spec_limits(), old(self)@, input_view(input)),
            final(self).spec_limits() == old(self).spec_limits(),
    {
        match input {
            Err(e) => {
                self.finished = true;
                ReadOutcome::Rejected(e)
            },
            Ok(chunk) => {
                let taken = self.request.take();
                match taken {
                    None => {
                        if chunk.len() == 0 {
                            self.finished = true;
                            if self.buf.len() == 0 {
                                ReadOutcome::Complete(None)
                            } else {
                                ReadOutcome::Rejected(
                                    Error::InvalidInput("connection closed mid-request"),
                                )
                            }
                        } else {
                            append_bytes(&mut self.buf, chunk);
                            match find_double_crlf(self.buf.as_slice()) {
                                Some(h) => {
                                    proof {
                                        lemma_find_from(self.buf@, crlf_crlf(), 0);
                                    }
                                    if h > self.limits.max_header_bytes {
                                        self.finished = true;
                                        ReadOutcome::Rejected(
                                            Error::InvalidInput("request head exceeds limit"),
                                        )
                                    } else {
                                        self.on_head(h)
                                    }
                                },
                                None => {
                                    if self.buf.len() > self.limits.max_header_bytes {
                                        self.finished = true;
                                        ReadOutcome::Rejected(
                                            Error::InvalidInput("request head exceeds limit"),
                                        )
                                    } else {
                                        ReadOutcome::NeedMore
                                    }
                                },
                            }
                        }
                    },
                    Some(mut request) => {
                        if chunk.len() == 0 {
                            self.finished = true;
                            ReadOutcome::Complete(Some(request))
                        } else {
                            append_bytes(&mut request.body, chunk);
                            let length = self.length;
                            self.progress(request, length)
                        }
                    },
                }
            },
        }
    }
}

} // verus!

verus! {

/// A request whose head (within the limit) and whole body arrive in a single
/// read is complete at once: its fields are those of the parsed head, and its body is the
/// announced number of bytes after the blank line (extra bytes are dropped).
pub proof fn law_request_in_one_read(limits: Limits, bytes: Seq<u8>, h: int, head: crate::request::HeadView)
    requires
        bytes.len() > 0,
        head_end(bytes) == Some(h),
        h <= limits.max_header_bytes,
        parse_head(bytes.take(h)) == Ok::<crate::request::HeadView, Error>(head),
        content_length(head.headers) <= limits.max_body_bytes,
        bytes.len() >= h + 4 + content_length(head.headers),
    ensures
        step(limits, ReaderView::Head { buf: Seq::empty() }, Ok(bytes)) == (
            ReaderView::Finished,
            OutcomeView::Complete(
                Some(
                    RequestView {
                        method: head.method,
                        target: head.target,
                        version: head.version,
                        headers: head.headers,
                        body: bytes.skip(h + 4).take(content_length(head.headers) as int),
                    },
                ),
            ),
        ),
{
    assert(Seq::<u8>::empty() + bytes =~= bytes);
    lemma_find_from(bytes, crlf_crlf(), 0);
    assert(bytes.skip(h + 4).len() == bytes.len() - h - 4);
}

/// How the head is split into reads does not matter: two reads that leave
/// the head unfinished and within its limit, then more bytes, end in the same
/// state and answer as the bytes of both reads at once.
pub proof fn law_head_split_across_reads(limits: Limits, buf: Seq<u8>, a: Seq<u8>, b: Seq<u8>)
    requires
        a.len() > 0,
        b.len() > 0,
        head_end(buf + a) is None,
        (buf + a).len() <= limits.max_header_bytes,
    ensures
        step(limits, step(limits, ReaderView::Head { buf }, Ok(a)).0, Ok(b)) == step(
            limits,
            ReaderView::Head { buf },
            Ok(a + b),
        ),
{
    assert(buf + a + b =~= buf + (a + b));
}

/// How the body is split into reads does not matter: a read that leaves the
/// body short, then another, end as one read of both.
pub proof fn law_body_split_across_reads(
    limits: Limits,
    request: RequestView,
    length: nat,
    a: Seq<u8>,
    b: Seq<u8>,
)
    requires
        a.len() > 0,
        b.len() > 0,
        request.body.len() + a.len() < length,
    ensures
        step(limits, step(limits, ReaderView::Body { request, length }, Ok(a)).0, Ok(b)) == step(
            limits,
            ReaderView::Body { request, length },
            Ok(a + b),
        ),
{
    assert(request.body + a + b =~= request.body + (a + b));
}

/// A failed read is passed on: whatever the reader has received so far, head
/// or part of the body, a read error ends it with that very error, so a cut
/// upload is never handed over as a request.
pub proof fn law_read_error_rejected(limits: Limits, state: ReaderView, e: Error)
    requires
        !(state is Finished),
    ensures
        step(limits, state, Err(e)) == (ReaderView::Finished, OutcomeView::Rejected(e)),
{
}

/// A peer that closes before sending anything gets no answer; one that
/// closes mid-head is rejected; a body cut short is handed over as received.
pub proof fn law_early_close(limits: Limits, buf: Seq<u8>, request: RequestView, length: nat)
    ensures
        step(limits, ReaderView::Head { buf: Seq::empty() }, Ok(Seq::empty())) == (
            ReaderView::Finished,
            OutcomeView::Complete(None),
        ),
        buf.len() > 0 ==> step(limits, ReaderView::Head { buf }, Ok(Seq::empty())) == (
            ReaderView::Finished,
            OutcomeView::Rejected(Error::InvalidInput("connection closed mid-request")),
        ),
        step(limits, ReaderView::Body { request, length }, Ok(Seq::empty())) == (
            ReaderView::Finished,
            OutcomeView::Complete(Some(request)),
        ),
{
}

} // verus!

verus! {

/// Feeds the bytes of successive reads (each non-empty) until the reader
/// answers with something other than `NeedMore`.
pub open spec fn run(limits: Limits, state: ReaderView, reads: Seq<Seq<u8>>) -> OutcomeView
    decreases reads.len(),
{
    if reads.len() == 0 {
        OutcomeView::NeedMore
    } else {
        let (next, out) = step(limits, state, Ok(reads[0]));
        if out is NeedMore {
            run(limits, next, reads.drop_first())
        } else {
            out
        }
    }
}

/// The request carried by `message`, whose head (parsed as `head`) ends at
/// `h`: the body is the announced number of bytes after the blank line.
pub open spec fn request_of(head: crate::request::HeadView, message: Seq<u8>, h: int) -> RequestView {
    RequestView {
        method: head.method,
        target: head.target,
        version: head.version,
        headers: head.headers,
        body: message.skip(h + 4).take(content_length(head.headers) as int),
    }
}

proof fn lemma_run_body(
    limits: Limits,
    head: crate::request::HeadView,
    message: Seq<u8>,
    h: int,
    got: Seq<u8>,
    reads: Seq<Seq<u8>>,
)
    requires
        0 <= h,
        h + 4 <= message.len(),
        forall|i: int| 0 <= i < reads.len() ==> #[trigger] reads[i].len() > 0,
        got + reads.flatten() == message.skip(h + 4),
        got.len() < content_length(head.headers),
        message.skip(h + 4).len() >= content_length(head.headers),
    ensures
        run(
            limits,
            ReaderView::Body {
                request: with_body(request_of(head, message, h), got),
                length: content_length(head.headers),
            },
            reads,
        ) == OutcomeView::Complete(Some(request_of(head, message, h))),
    decreases reads.len(),
{
    let length = content_length(head.headers);
    let rest = message.skip(h + 4);
    if reads.len() == 0 {
        assert(got =~= rest);
    } else {
        let c = reads[0];
        let grown = got + c;
        assert(grown + reads.drop_first().flatten() =~= rest);
        assert(rest.take(grown.len() as int) =~= grown);
        if grown.len() >= length {
            assert(grown.take(length as int) =~= rest.take(length as int));
            assert(with_body(with_body(request_of(head, message, h), got), grown.take(length as int))
                == request_of(head, message, h));
        } else {
            assert(with_body(with_body(request_of(head, message, h), got), grown) == with_body(
                request_of(head, message, h),
                grown,
            ));
            assert forall|i: int| 0 <= i < reads.drop_first().len() implies #[trigger] reads.drop_first()[i].len() > 0 by {
                assert(reads.drop_first()[i] == reads[i + 1]);
            }
            lemma_run_body(limits, head, message, h, grown, reads.drop_first());
        }
    }
}

proof fn lemma_run_head(
    limits: Limits,
    head: crate::request::HeadView,
    message: Seq<u8>,
    h: int,
    buf: Seq<u8>,
    reads: Seq<Seq<u8>>,
)
    requires
        forall|i: int| 0 <= i < reads.len() ==> #[trigger] reads[i].len() > 0,
        buf + reads.flatten() == message,
        buf.len() < h + 4,
        head_end(message) == Some(h),
        h + 3 <= limits.max_header_bytes,
        parse_head(message.take(h)) == Ok::<crate::request::HeadView, Error>(head),
        content_length(head.headers) <= limits.max_body_bytes,
        message.len() >= h + 4 + content_length(head.headers),
    ensures
        run(limits, ReaderView::Head { buf }, reads) == OutcomeView::Complete(
            Some(request_of(head, message, h)),
        ),
    decreases reads.len(),
{
    lemma_find_from(message, crlf_crlf(), 0);
    let length = content_length(head.headers);
    if reads.len() == 0 {
        assert(buf =~= message);
    } else {
        let c = reads[0];
        let grown = buf + c;
        assert(grown + reads.drop_first().flatten() =~= message);
        assert(message.take(grown.len() as int) =~= grown);
        lemma_find_first_prefix(message, grown, crlf_crlf(), h);
        assert forall|i: int| 0 <= i < reads.drop_first().len() implies #[trigger] reads.drop_first()[i].len() > 0 by {
            assert(reads.drop_first()[i] == reads[i + 1]);
        }
        if grown.len() >= h + 4 {
            assert(grown.take(h) =~= message.take(h));
            let body = grown.skip(h + 4);
            assert(message.skip(h + 4).take(body.len() as int) =~= body);
            let r = request_of(head, message, h);
            if body.len() >= length {
                assert(body.take(length as int) =~= message.skip(h + 4).take(length as int));
                assert(with_body(with_body(r, body), body.take(length as int)) == r);
            } else {
                assert(body + reads.drop_first().flatten() =~= message.skip(h + 4));
                lemma_run_body(limits, head, message, h, body, reads.drop_first());
            }
        } else {
            lemma_run_head(limits, head, message, h, grown, reads.drop_first());
        }
    }
}

/// However the bytes of a request are split into reads, the reader returns
/// the same request, the request of the concatenated bytes, as long as the
/// head and the first three bytes of its blank line fit within the head
/// limit (so no read can stop with more than the limit received and the
/// blank line still incomplete).
pub proof fn law_request_split_into_reads(
    limits: Limits,
    reads: Seq<Seq<u8>>,
    h: int,
    head: crate::request::HeadView,
)
    requires
        forall|i: int| 0 <= i < reads.len() ==> #[trigger] reads[i].len() > 0,
        head_end(reads.flatten()) == Some(h),
        h + 3 <= limits.max_header_bytes,
        parse_head(reads.flatten().take(h)) == Ok::<crate::request::HeadView, Error>(head),
        content_length(head.headers) <= limits.max_body_bytes,
        reads.flatten().len() >= h + 4 + content_length(head.headers),
    ensures
        run(limits, ReaderView::Head { buf: Seq::empty() }, reads) == OutcomeView::Complete(
            Some(request_of(head, reads.flatten(), h)),
        ),
{
    let message = reads.flatten();
    assert(Seq::<u8>::empty() + message =~= message);
    lemma_find_from(message, crlf_crlf(), 0);
    lemma_run_head(limits, head, message, h, Seq::empty(), reads);
}

/// The head of `message` is over the limit: its blank line starts past the
/// limit, or never comes in more than the limit's bytes.
pub open spec fn head_over_limit(limits: Limits, message: Seq<u8>) -> bool {
    match head_end(message) {
        Some(h) => h > limits.max_header_bytes,
        None => message.len() > limits.max_header_bytes,
    }
}

proof fn lemma_run_head_rejected(limits: Limits, message: Seq<u8>, buf: Seq<u8>, reads: Seq<Seq<u8>>)
    requires
        forall|i: int| 0 <= i < reads.len() ==> #[trigger] reads[i].len() > 0,
        buf + reads.flatten() == message,
        buf.len() <= limits.max_header_bytes,
        head_over_limit(limits, message),
    ensures
        run(limits, ReaderView::Head { buf }, reads) == OutcomeView::Rejected(
            Error::InvalidInput("request head exceeds limit"),
        ),
    decreases reads.len(),
{
    lemma_find_from(message, crlf_crlf(), 0);
    if reads.len() == 0 {
        assert(buf =~= message);
    } else {
        let c = reads[0];
        let grown = buf + c;
        assert(grown + reads.drop_first().flatten() =~= message);
        assert(message.take(grown.len() as int) =~= grown);
        match head_end(message) {
            Some(h) => {
                lemma_find_first_prefix(message, grown, crlf_crlf(), h);
            },
            None => {
                lemma_find_from(grown, crlf_crlf(), 0);
                match head_end(grown) {
                    Some(j) => {
                        lemma_matches_at_prefix(message, grown, crlf_crlf(), j);
                    },
                    None => {},
                }
            },
        }
        if head_end(grown) is None && grown.len() <= limits.max_header_bytes {
            assert forall|i: int| 0 <= i < reads.drop_first().len() implies #[trigger] reads.drop_first()[i].len() > 0 by {
                assert(reads.drop_first()[i] == reads[i + 1]);
            }
            lemma_run_head_rejected(limits, message, grown, reads.drop_first());
        }
    }
}

/// A request whose head is longer than the head limit is rejected, however
/// its bytes are split into reads: whether the blank line comes in the read
/// that crosses the limit, in a later one, or not at all.
pub proof fn law_oversized_head_rejected(limits: Limits, reads: Seq<Seq<u8>>)
    requires
        forall|i: int| 0 <= i < reads.len() ==> #[trigger] reads[i].len() > 0,
        head_over_limit(limits, reads.flatten()),
    ensures
        run(limits, ReaderView::Head { buf: Seq::empty() }, reads) == OutcomeView::Rejected(
            Error::InvalidInput("request head exceeds limit"),
        ),
{
    assert(Seq::<u8>::empty() + reads.flatten() =~= reads.flatten());
    lemma_run_head_rejected(limits, reads.flatten(), Seq::empty(), reads);
}

} // verus!
