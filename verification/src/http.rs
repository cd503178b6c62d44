//! HTTP(S) client over the Sony `SceHttp2` / `SceSsl` / `SceNet` stack: the
//! decisions of the init chain and of one request exchange.
//!
//! A client owns the full SCE init chain (Net pool, SSL context, HTTP/2
//! library context, request template). It is built step by step by
//! [`init_step`]: a user agent holding a NUL byte is refused before any SCE
//! call, and on any failure mid-init, every resource created so far is
//! released in reverse order before the error is returned, so no SCE handle
//! leaks; a built [`Client`] releases its handles in reverse order through
//! [`Client::teardown`]. A request is run by an [`Exchange`], which always
//! ends by deleting the SCE request, even on error.
use vstd::prelude::*;
use vstd::string::StringSliceAdditionalSpecFns;

use crate::error::{Error, SceError};
use crate::util::{c_string, cstr};

verus! {

/// Size of the `SceNet` memory pool.
pub const NET_POOL_SIZE: i32 = 32768;

/// Size of the `SceSsl` memory pool.
pub const SSL_POOL_SIZE: usize = 262144;

/// Size of the `SceHttp2` memory pool.
pub const HTTP2_POOL_SIZE: usize = 262144;

/// Maximum number of concurrent HTTP/2 connections.
pub const HTTP2_MAX_CONNECTIONS: i32 = 1;

/// Follow up to this many redirects automatically.
pub const HTTP2_AUTO_REDIRECT: i32 = 3;

/// Enable HTTP/2 (vs. HTTP/1.1).
pub const HTTP2_ENABLE: i32 = 1;

/// Read-loop chunk size for draining the response body.
pub const READ_CHUNK: usize = 4096;

/// A call into the SCE stack.
#[derive(Clone, Copy, Debug, PartialEq, Eq)]
pub enum SceCall {
    /// `sceNetInit()`.
    NetInit,
    /// `sceNetPoolCreate("ps5_http", NET_POOL_SIZE, 0)`.
    NetPoolCreate,
    /// `sceSslInit(SSL_POOL_SIZE)`.
    SslInit,
    /// `sceHttp2Init(net_mem_id, ssl_ctx_id, HTTP2_POOL_SIZE, HTTP2_MAX_CONNECTIONS)`.
    Http2Init { net_mem_id: i32, ssl_ctx_id: i32 },
    /// `sceHttp2DeleteTemplate(tmpl_id)`.
    DeleteTemplate(i32),
    /// `sceHttp2Term(lib_ctx_id)`.
    Http2Term(i32),
    /// `sceSslTerm(ssl_ctx_id)`.
    SslTerm(i32),
    /// `sceNetPoolDestroy(net_mem_id)`.
    NetPoolDestroy(i32),
}

/// A client: the four live SCE handles of its init chain.
#[derive(Debug, PartialEq, Eq)]
pub struct Client {
    /// `SceNet` memory-pool id from `sceNetPoolCreate`.
    pub net_mem_id: i32,
    /// `SceSsl` context id from `sceSslInit`.
    pub ssl_ctx_id: i32,
    /// `SceHttp2` library-context id from `sceHttp2Init`.
    pub lib_ctx_id: i32,
    /// Request-template id from `sceHttp2CreateTemplate`.
    pub tmpl_id: i32,
}

/// The calls releasing a client's handles: strict reverse order of creation.
pub open spec fn teardown_calls(c: Client) -> Seq<SceCall> {
    seq![
        SceCall::DeleteTemplate(c.tmpl_id),
        SceCall::Http2Term(c.lib_ctx_id),
        SceCall::SslTerm(c.ssl_ctx_id),
        SceCall::NetPoolDestroy(c.net_mem_id),
    ]
}

impl Client {
    /// The calls that release this client's handles, in order (template,
    /// HTTP/2 context, SSL context, Net pool).
    pub fn teardown(&self) -> (calls: Vec<SceCall>)
        ensures
            calls@ == teardown_calls(*self),
    {
        let mut calls = Vec::new();
        calls.push(SceCall::DeleteTemplate(self.tmpl_id));
        calls.push(SceCall::Http2Term(self.lib_ctx_id));
        calls.push(SceCall::SslTerm(self.ssl_ctx_id));
        calls.push(SceCall::NetPoolDestroy(self.net_mem_id));
        calls
    }
}

/// What to do next while building a client.
#[derive(Debug)]
pub enum InitAction {
    /// Make this call and report its return value.
    Call(SceCall),
    /// Call `sceHttp2CreateTemplate(lib_ctx_id, agent, HTTP2_AUTO_REDIRECT,
    /// HTTP2_ENABLE)` with `agent`, the NUL-terminated user agent, and report
    /// its return value.
    CreateTemplate { lib_ctx_id: i32, agent: Vec<u8> },
    /// Init failed: make these release calls, in order, then return the error.
    Fail { release: Vec<SceCall>, error: Error },
    /// Init succeeded.
    Ready(Client),
}

/// [`InitAction`] as a spec value.
pub enum InitActionView {
    Call(SceCall),
    CreateTemplate { lib_ctx_id: i32, agent: Seq<u8> },
    Fail { release: Seq<SceCall>, error: Error },
    Ready(Client),
}

impl View for InitAction {
    type V = InitActionView;

    open spec fn view(&self) -> InitActionView {
        match self {
            InitAction::Call(c) => InitActionView::Call(*c),
            InitAction::CreateTemplate { lib_ctx_id, agent } => InitActionView::CreateTemplate {
                lib_ctx_id: *lib_ctx_id,
                agent: agent@,
            },
            InitAction::Fail { release, error } => InitActionView::Fail {
                release: release@,
                error: *error,
            },
            InitAction::Ready(c) => InitActionView::Ready(
                Client {
                    net_mem_id: c.net_mem_id,
                    ssl_ctx_id: c.ssl_ctx_id,
                    lib_ctx_id: c.lib_ctx_id,
                    tmpl_id: c.tmpl_id,
                },
            ),
        }
    }
}

/// The init chain for the user agent `agent` (its bytes) given the values
/// returned so far (`codes[0]` by `sceNetInit`, then the pool, SSL, HTTP/2
/// and template ids). An agent holding a NUL byte is refused before any SCE
/// call; `sceNetInit` fails on any non-zero code, the others on a negative
/// one.
pub open spec fn init_plan(agent: Seq<u8>, codes: Seq<i32>) -> InitActionView {
    if agent.contains(0u8) {
        InitActionView::Fail {
            release: seq![],
            error: Error::InvalidInput("string contains an interior NUL byte"),
        }
    } else if codes.len() == 0 {
        InitActionView::Call(SceCall::NetInit)
    } else if codes[0] != 0 {
        InitActionView::Fail {
            release: seq![],
            error: Error::Sce(SceError { op: "sceNetInit", code: codes[0] }),
        }
    } else if codes.len() == 1 {
        InitActionView::Call(SceCall::NetPoolCreate)
    } else if codes[1] < 0 {
        InitActionView::Fail {
            release: seq![],
            error: Error::Sce(SceError { op: "sceNetPoolCreate", code: codes[1] }),
        }
    } else if codes.len() == 2 {
        InitActionView::Call(SceCall::SslInit)
    } else if codes[2] < 0 {
        InitActionView::Fail {
            release: seq![SceCall::NetPoolDestroy(codes[1])],
            error: Error::Sce(SceError { op: "sceSslInit", code: codes[2] }),
        }
    } else if codes.len() == 3 {
        InitActionView::Call(SceCall::Http2Init { net_mem_id: codes[1], ssl_ctx_id: codes[2] })
    } else if codes[3] < 0 {
        InitActionView::Fail {
            release: seq![SceCall::SslTerm(codes[2]), SceCall::NetPoolDestroy(codes[1])],
            error: Error::Sce(SceError { op: "sceHttp2Init", code: codes[3] }),
        }
    } else if codes.len() == 4 {
        InitActionView::CreateTemplate { lib_ctx_id: codes[3], agent: c_string(agent) }
    } else if codes[4] < 0 {
        InitActionView::Fail {
            release: seq![
                SceCall::Http2Term(codes[3]),
                SceCall::SslTerm(codes[2]),
                SceCall::NetPoolDestroy(codes[1]),
            ],
            error: Error::Sce(SceError { op: "sceHttp2CreateTemplate", code: codes[4] }),
        }
    } else {
        InitActionView::Ready(
            Client {
                net_mem_id: codes[1],
                ssl_ctx_id: codes[2],
                lib_ctx_id: codes[3],
                tmpl_id: codes[4],
            },
        )
    }
}

/// The next step of building a client with the user agent `user_agent`,
/// from the values returned so far by the init calls (see [`init_plan`]).
pub fn init_step(user_agent: &str, codes: &Vec<i32>) -> (a: InitAction)
    ensures
        a@ == init_plan(user_agent.spec_bytes(), codes@),
{
    let agent = match cstr(user_agent) {
        Err(e) => return InitAction::Fail { release: Vec::new(), error: e },
        Ok(v) => v,
    };
    let n = codes.len();
    if n == 0 {
        return InitAction::Call(SceCall::NetInit);
    }
    if codes[0] != 0 {
        return InitAction::Fail { release: Vec::new(), error: Error::sce("sceNetInit", codes[0]) };
    }
    if n == 1 {
        return InitAction::Call(SceCall::NetPoolCreate);
    }
    let net_mem_id = codes[1];
    if net_mem_id < 0 {
        return InitAction::Fail {
            release: Vec::new(),
            error: Error::sce("sceNetPoolCreate", net_mem_id),
        };
    }
    if n == 2 {
        return InitAction::Call(SceCall::SslInit);
    }
    let ssl_ctx_id = codes[2];
    let mut release: Vec<SceCall> = Vec::new();
    release.push(SceCall::NetPoolDestroy(net_mem_id));
    if ssl_ctx_id < 0 {
        return InitAction::Fail { release, error: Error::sce("sceSslInit", ssl_ctx_id) };
    }
    if n == 3 {
        return InitAction::Call(SceCall::Http2Init { net_mem_id, ssl_ctx_id });
    }
    let lib_ctx_id = codes[3];
    release.insert(0, SceCall::SslTerm(ssl_ctx_id));
    if lib_ctx_id < 0 {
        assert(release@ =~= seq![SceCall::SslTerm(ssl_ctx_id), SceCall::NetPoolDestroy(net_mem_id)]);
        return InitAction::Fail { release, error: Error::sce("sceHttp2Init", lib_ctx_id) };
    }
    if n == 4 {
        return InitAction::CreateTemplate { lib_ctx_id, agent };
    }
    let tmpl_id = codes[4];
    release.insert(0, SceCall::Http2Term(lib_ctx_id));
    if tmpl_id < 0 {
        assert(release@ =~= seq![
            SceCall::Http2Term(lib_ctx_id),
            SceCall::SslTerm(ssl_ctx_id),
            SceCall::NetPoolDestroy(net_mem_id),
        ]);
        return InitAction::Fail {
            release,
            error: Error::sce("sceHttp2CreateTemplate", tmpl_id),
        };
    }
    InitAction::Ready(Client { net_mem_id, ssl_ctx_id, lib_ctx_id, tmpl_id })
}

/// The release calls for the handles a history of init results has
/// acquired, in the order they were acquired.
pub open spec fn acquired(codes: Seq<i32>) -> Seq<SceCall> {
    let pool = if codes.len() > 1 && codes[0] == 0 && codes[1] >= 0 {
        seq![SceCall::NetPoolDestroy(codes[1])]
    } else {
        seq![]
    };
    let ssl = if codes.len() > 2 && codes[0] == 0 && codes[1] >= 0 && codes[2] >= 0 {
        seq![SceCall::SslTerm(codes[2])]
    } else {
        seq![]
    };
    let lib = if codes.len() > 3 && codes[0] == 0 && codes[1] >= 0 && codes[2] >= 0 && codes[3]
        >= 0 {
        seq![SceCall::Http2Term(codes[3])]
    } else {
        seq![]
    };
    let tmpl = if codes.len() > 4 && codes[0] == 0 && codes[1] >= 0 && codes[2] >= 0 && codes[3]
        >= 0 && codes[4] >= 0 {
        seq![SceCall::DeleteTemplate(codes[4])]
    } else {
        seq![]
    };
    pool + ssl + lib + tmpl
}

/// No SCE handle leaks: a user agent holding a NUL byte is refused before
/// anything is created, so nothing is released; otherwise, whenever init
/// stops, on failure or with a built client, the handles it acquired are
/// released (on failure at once, for a client by its teardown) exactly once
/// each, in reverse order of acquisition.
pub proof fn law_init_releases_in_reverse(agent: Seq<u8>, codes: Seq<i32>)
    ensures
        agent.contains(0u8) ==> init_plan(agent, codes) == (InitActionView::Fail {
            release: seq![],
            error: Error::InvalidInput("string contains an interior NUL byte"),
        }),
        !agent.contains(0u8) ==> match init_plan(agent, codes) {
            InitActionView::Fail { release, .. } => release == acquired(codes).reverse(),
            InitActionView::Ready(c) => teardown_calls(c) == acquired(codes).reverse(),
            _ => true,
        },
{
    if !agent.contains(0u8) {
        match init_plan(agent, codes) {
            InitActionView::Fail { release, .. } => {
                assert(release =~= acquired(codes).reverse());
            },
            InitActionView::Ready(c) => {
                assert(teardown_calls(c) =~= acquired(codes).reverse());
            },
            _ => {},
        }
    }
}

/// A completed HTTP response: the status code plus the full body bytes.
#[derive(Debug)]
pub struct Response {
    /// The HTTP status code (e.g. `200`).
    pub status: u16,
    /// The raw response body.
    pub body: Vec<u8>,
}

impl Response {
    /// The HTTP status code.
    pub fn status(&self) -> (s: u16)
        ensures
            s == self.status,
    {
        self.status
    }

    /// Consume the response and return its body bytes.
    pub fn into_body(self) -> (b: Vec<u8>)
        ensures
            b@ == self.body@,
    {
        self.body
    }
}

/// The arguments of `sceHttp2CreateRequestWithURL` for a request: the C
/// method and URL (method checked first) and the body length.
pub fn request_args(method: &str, url: &str, body: &[u8]) -> (r: Result<
    (Vec<u8>, Vec<u8>, u64),
    Error,
>)
    ensures
        method.spec_bytes().contains(0u8) || url.spec_bytes().contains(0u8) ==> r == Err::<
            (Vec<u8>, Vec<u8>, u64),
            Error,
        >(Error::InvalidInput("string contains an interior NUL byte")),
        !method.spec_bytes().contains(0u8) && !url.spec_bytes().contains(0u8) ==> (r matches Ok(
            a,
        ) && a.0@ == c_string(method.spec_bytes()) && a.1@ == c_string(url.spec_bytes()) && a.2
            == body@.len()),
{
    let m = match cstr(method) {
        Ok(m) => m,
        Err(e) => {
            return Err(e);
        },
    };
    let u = match cstr(url) {
        Ok(u) => u,
        Err(e) => {
            return Err(e);
        },
    };
    Ok((m, u, body.len() as u64))
}

/// Where an [`Exchange`] stands.
#[derive(Clone, Copy, Debug, PartialEq, Eq)]
pub enum ExchangePhase {
    /// Next: `sceHttp2SendRequest`.
    Send,
    /// Next: `sceHttp2GetStatusCode`.
    Status,
    /// Next: `sceHttp2ReadData`.
    Read,
    /// Next: `sceHttp2DeleteRequest`, then the result.
    Delete,
}

/// One request/response exchange on a created SCE request: send, read the
/// status, drain the body, then delete the request whatever happened.
#[derive(Debug)]
pub struct Exchange {
    req_id: i32,
    phase: ExchangePhase,
    status: u16,
    body: Vec<u8>,
    failure: Option<Error>,
}

/// [`Exchange`] as a spec value.
pub struct ExchangeView {
    pub req_id: i32,
    pub phase: ExchangePhase,
    pub status: u16,
    pub body: Seq<u8>,
    pub failure: Option<Error>,
}

impl View for Exchange {
    type V = ExchangeView;

    closed spec fn view(&self) -> ExchangeView {
        ExchangeView {
            req_id: self.req_id,
            phase: self.phase,
            status: self.status,
            body: self.body@,
            failure: self.failure,
        }
    }
}

impl Exchange {
    /// The exchange for the request `req_id` returned by
    /// `sceHttp2CreateRequestWithURL`; a negative value is that call's error.
    pub fn start(req_id: i32) -> (r: Result<Exchange, Error>)
        ensures
            req_id < 0 ==> r == Err::<Exchange, Error>(
                Error::Sce(SceError { op: "sceHttp2CreateRequestWithURL", code: req_id }),
            ),
            req_id >= 0 ==> (r matches Ok(x) && x@ == ExchangeView {
                req_id,
                phase: ExchangePhase::Send,
                status: 0,
                body: Seq::empty(),
                failure: None,
            }),
    {
        if req_id < 0 {
            return Err(Error::sce("sceHttp2CreateRequestWithURL", req_id));
        }
        Ok(Exchange { req_id, phase: ExchangePhase::Send, status: 0, body: Vec::new(), failure: None })
    }

    /// The request id.
    pub fn req_id(&self) -> (id: i32)
        ensures
            id == self@.req_id,
    {
        self.req_id
    }

    /// The next call to make.
    pub fn phase(&self) -> (p: ExchangePhase)
        ensures
            p == self@.phase,
    {
        self.phase
    }

    /// The result of `sceHttp2SendRequest` (`0` on success).
    pub fn on_send(&mut self, rc: i32)
        requires
            old(self)@.phase == ExchangePhase::Send,
        ensures
            rc != 0 ==> final(self)@ == (ExchangeView {
                phase: ExchangePhase::Delete,
                failure: Some(Error::Sce(SceError { op: "sceHttp2SendRequest", code: rc })),
                ..old(self)@
            }),
            rc == 0 ==> final(self)@ == (ExchangeView { phase: ExchangePhase::Status, ..old(self)@ }),
    {
        if rc != 0 {
            self.failure = Some(Error::sce("sceHttp2SendRequest", rc));
            self.phase = ExchangePhase::Delete;
        } else {
            self.phase = ExchangePhase::Status;
        }
    }

    /// The result of `sceHttp2GetStatusCode` and the status it wrote; the
    /// status is kept as its low 16 bits.
    pub fn on_status(&mut self, rc: i32, status: i32)
        requires
            old(self)@.phase == ExchangePhase::Status,
        ensures
            rc != 0 ==> final(self)@ == (ExchangeView {
                phase: ExchangePhase::Delete,
                failure: Some(Error::Sce(SceError { op: "sceHttp2GetStatusCode", code: rc })),
                ..old(self)@
            }),
            rc == 0 ==> final(self)@ == (ExchangeView {
                phase: ExchangePhase::Read,
                status: status as u16,
                ..old(self)@
            }),
    {
        if rc != 0 {
            self.failure = Some(Error::sce("sceHttp2GetStatusCode", rc));
            self.phase = ExchangePhase::Delete;
        } else {
            self.status = status as u16;
            self.phase = ExchangePhase::Read;
        }
    }

    /// The result `n` of `sceHttp2ReadData` into `chunk`: bytes read, `0` at
    /// the end of the body, negative on error.
    pub fn on_read(&mut self, n: i32, chunk: &[u8])
        requires
            old(self)@.phase == ExchangePhase::Read,
            n > 0 ==> n <= chunk@.len(),
        ensures
            n < 0 ==> final(self)@ == (ExchangeView {
                phase: ExchangePhase::Delete,
                failure: Some(Error::Sce(SceError { op: "sceHttp2ReadData", code: n })),
                ..old(self)@
            }),
            n == 0 ==> final(self)@ == (ExchangeView { phase: ExchangePhase::Delete, ..old(self)@ }),
            n > 0 ==> final(self)@ == (ExchangeView {
                body: old(self)@.body + chunk@.take(n as int),
                ..old(self)@
            }),
    {
        if n < 0 {
            self.failure = Some(Error::sce("sceHttp2ReadData", n));
            self.phase = ExchangePhase::Delete;
        } else if n == 0 {
            self.phase = ExchangePhase::Delete;
        } else {
            let count = n as usize;
            let mut i: usize = 0;
            let ghost start = self.body@;
            while i < count
                invariant
                    i <= count <= chunk@.len(),
                    self.body@ == start + chunk@.take(i as int),
                    self.phase == old(self).phase,
                    self.req_id == old(self).req_id,
                    self.status == old(self).status,
                    self.failure == old(self).failure,
                    start == old(self).body@,
                decreases count - i,
            {
                self.body.push(chunk[i]);
                assert(chunk@.take(i + 1) =~= chunk@.take(i as int).push(chunk@[i as int]));
                i = i + 1;
            }
        }
    }

    /// The result of `sceHttp2DeleteRequest` ends the exchange. An earlier
    /// error wins over a delete error; a delete error fails an otherwise
    /// successful exchange.
    pub fn finish(self, del: i32) -> (r: Result<Response, Error>)
        requires
            self@.phase == ExchangePhase::Delete,
        ensures
            match self@.failure {
                Some(e) => r == Err::<Response, Error>(e),
                None => if del != 0 {
                    r == Err::<Response, Error>(
                        Error::Sce(SceError { op: "sceHttp2DeleteRequest", code: del }),
                    )
                } else {
                    r matches Ok(resp) && resp.status == self@.status && resp.body@ == self@.body
                },
            },
    {
        match self.failure {
            Some(e) => Err(e),
            None => {
                if del != 0 {
                    Err(Error::sce("sceHttp2DeleteRequest", del))
                } else {
                    Ok(Response { status: self.status, body: self.body })
                }
            },
        }
    }
}

} // verus!
