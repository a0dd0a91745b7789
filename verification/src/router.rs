//! The router and the per-route handlers. A route table is an ordered list of
//! handlers; each handler has a predicate over the request and a behavior, and
//! dispatch returns the behavior of the first handler whose predicate accepts
//! the request, or a payload-less 404 when none does. The file handlers do no
//! I/O themselves: they yield an action (a response, a file to read, or a file
//! to write) and separate functions turn the outcome of the filesystem step
//! into the final response.

use vstd::prelude::*;
use crate::bytes::{
    copy_vec, join1_from, spec_join1, spec_split1, spec_starts_with, split1, starts_with,
};
use crate::request::{spec_lookup_header, HTTPMethod, HTTPRequest, RequestView};
use crate::response::{
    HTTPContentType, HTTPResponse, HTTPResponsePayload, HTTPResponseStatusCode, PayloadView,
    ResponseView,
};

verus! {

/// The server configuration: the optional directory under which the file
/// routes read and write, set once at startup and immutable thereafter.
pub struct ExecutionContext {
    pub directory: Option<Vec<u8>>,
}

/// The mathematical shape of the configuration.
pub ghost struct ContextView {
    pub directory: Option<Seq<u8>>,
}

impl View for ExecutionContext {
    type V = ContextView;

    open spec fn view(&self) -> ContextView {
        ContextView {
            directory: match self.directory {
                Some(ref d) => Some(d@),
                None => None,
            },
        }
    }
}

/// A copy of the current configuration.
pub fn get_context(context: &ExecutionContext) -> (r: ExecutionContext)
    ensures
        r@ == context@,
{
    match &context.directory {
        Some(d) => ExecutionContext { directory: Some(copy_vec(d)) },
        None => ExecutionContext { directory: None },
    }
}

/// Replace the stored configuration with `context`.
pub fn set_context(slot: &mut ExecutionContext, context: ExecutionContext)
    ensures
        final(slot)@ == context@,
{
    *slot = context;
}

/// A registered route: its predicate and behavior are fixed by the variant.
#[derive(Clone, Copy, PartialEq, Eq, Structural, Debug)]
pub enum RequestHandler {
    /// `path` starts with `/echo`: answer 200 text/plain with the path
    /// segments after the third slash-delimited one, re-joined with `/`.
    Echo,
    /// `path` starts with `/user-agent`: answer 200 text/plain with the
    /// `User-Agent` header's value, or 400 when the header is absent.
    UserAgent,
    /// `path` is exactly `/`: answer 200 with no payload.
    Root,
    /// GET under `/files`: read the named file under the configured directory.
    GetFile,
    /// POST under `/files`: write the request body to the named file.
    PostFile,
}

/// What a handler asks the surrounding process to do.
pub enum HandlerAction {
    /// Send this response; no filesystem step is needed.
    Respond(HTTPResponse),
    /// Read the file at `path`; the read's outcome decides the response.
    ReadFile { path: Vec<u8> },
    /// Write `contents` to the file at `path`, creating or overwriting it.
    WriteFile { path: Vec<u8>, contents: Vec<u8> },
}

/// The mathematical shape of a handler action.
pub ghost enum ActionView {
    Respond(ResponseView),
    ReadFile { path: Seq<u8> },
    WriteFile { path: Seq<u8>, contents: Seq<u8> },
}

impl View for HandlerAction {
    type V = ActionView;

    open spec fn view(&self) -> ActionView {
        match self {
            HandlerAction::Respond(resp) => ActionView::Respond(resp@),
            HandlerAction::ReadFile { path } => ActionView::ReadFile { path: path@ },
            HandlerAction::WriteFile { path, contents } => ActionView::WriteFile {
                path: path@,
                contents: contents@,
            },
        }
    }
}

/// Does this handler's predicate accept the request?
pub open spec fn spec_matches(h: RequestHandler, req: RequestView) -> bool {
    match h {
        RequestHandler::Echo => spec_starts_with(req.path, spec_echo_prefix()),
        RequestHandler::UserAgent => spec_starts_with(req.path, spec_user_agent_prefix()),
        RequestHandler::Root => req.path == seq![47u8],
        RequestHandler::GetFile => req.method == HTTPMethod::GET && spec_starts_with(
            req.path,
            spec_files_prefix(),
        ),
        RequestHandler::PostFile => req.method == HTTPMethod::POST && spec_starts_with(
            req.path,
            spec_files_prefix(),
        ),
    }
}

/// The echo payload: the slash-separated path components from the third one
/// on, re-joined with `/`.
pub open spec fn spec_echo_payload(path: Seq<u8>) -> Seq<u8> {
    let comps = spec_split1(path, 47);
    if comps.len() >= 2 {
        spec_join1(comps.subrange(2, comps.len() as int), 47)
    } else {
        Seq::empty()
    }
}

/// The action of a file route on a request: 400 when the path has no third
/// slash-separated component to name a file, 500 when no serving directory is
/// configured, and otherwise the file at `directory + filename`.
pub open spec fn spec_file_action(req: RequestView, ctx: ContextView, write: bool) -> ActionView {
    let comps = spec_split1(req.path, 47);
    if comps.len() < 3 {
        ActionView::Respond(
            ResponseView { status_code: HTTPResponseStatusCode::BadRequest, payload: None },
        )
    } else {
        match ctx.directory {
            None => ActionView::Respond(
                ResponseView {
                    status_code: HTTPResponseStatusCode::InternalServerError,
                    payload: None,
                },
            ),
            Some(dir) => if write {
                ActionView::WriteFile { path: dir + comps[2], contents: req.body }
            } else {
                ActionView::ReadFile { path: dir + comps[2] }
            },
        }
    }
}

/// What a handler does with a request under a configuration.
pub open spec fn spec_handle(h: RequestHandler, req: RequestView, ctx: ContextView) -> ActionView {
    match h {
        RequestHandler::Echo => ActionView::Respond(
            ResponseView {
                status_code: HTTPResponseStatusCode::Okay,
                payload: Some(
                    PayloadView {
                        content_type: HTTPContentType::PlainText,
                        payload: spec_echo_payload(req.path),
                    },
                ),
            },
        ),
        RequestHandler::UserAgent => match spec_lookup_header(
            req.headers,
            spec_user_agent_header(),
        ) {
            Some(v) => ActionView::Respond(
                ResponseView {
                    status_code: HTTPResponseStatusCode::Okay,
                    payload: Some(
                        PayloadView { content_type: HTTPContentType::PlainText, payload: v },
                    ),
                },
            ),
            None => ActionView::Respond(
                ResponseView { status_code: HTTPResponseStatusCode::BadRequest, payload: None },
            ),
        },
        RequestHandler::Root => ActionView::Respond(
            ResponseView { status_code: HTTPResponseStatusCode::Okay, payload: None },
        ),
        RequestHandler::GetFile => spec_file_action(req, ctx, false),
        RequestHandler::PostFile => spec_file_action(req, ctx, true),
    }
}

impl RequestHandler {
    /// Evaluate this handler's predicate on a request.
    pub fn matches(&self, req: &HTTPRequest) -> (r: bool)
        ensures
            r == spec_matches(*self, req@),
    {
        match self {
            RequestHandler::Echo => {
                let p = echo_prefix();
                starts_with(&req.path, &p)
            },
            RequestHandler::UserAgent => {
                let p = user_agent_prefix();
                starts_with(&req.path, &p)
            },
            RequestHandler::Root => {
                if req.path.len() == 1 {
                    let is_slash = req.path[0] == 47;
                    proof {
                        if is_slash {
                            assert(req.path@ =~= seq![47u8]);
                        }
                    }
                    is_slash
                } else {
                    false
                }
            },
            RequestHandler::GetFile => {
                if req.method == HTTPMethod::GET {
                    let p = files_prefix();
                    starts_with(&req.path, &p)
                } else {
                    false
                }
            },
            RequestHandler::PostFile => {
                if req.method == HTTPMethod::POST {
                    let p = files_prefix();
                    starts_with(&req.path, &p)
                } else {
                    false
                }
            },
        }
    }

    /// Apply this handler's behavior to a request.
    pub fn handle(&self, req: &HTTPRequest, context: &ExecutionContext) -> (r: HandlerAction)
        ensures
            r@ == spec_handle(*self, req@, context@),
    {
        match self {
            RequestHandler::Echo => {
                let comps = split1(&req.path, 47);
                let payload = if comps.len() >= 2 {
                    join1_from(&comps, 2, 47)
                } else {
                    Vec::new()
                };
                HandlerAction::Respond(
                    HTTPResponse {
                        status_code: HTTPResponseStatusCode::Okay,
                        payload: Some(
                            HTTPResponsePayload {
                                content_type: HTTPContentType::PlainText,
                                payload,
                            },
                        ),
                    },
                )
            },
            RequestHandler::UserAgent => {
                let name = user_agent_header();
                match req.header(&name) {
                    Some(v) => HandlerAction::Respond(
                        HTTPResponse {
                            status_code: HTTPResponseStatusCode::Okay,
                            payload: Some(
                                HTTPResponsePayload {
                                    content_type: HTTPContentType::PlainText,
                                    payload: v,
                                },
                            ),
                        },
                    ),
                    None => HandlerAction::Respond(
                        HTTPResponse {
                            status_code: HTTPResponseStatusCode::BadRequest,
                            payload: None,
                        },
                    ),
                }
            },
            RequestHandler::Root => HandlerAction::Respond(
                HTTPResponse { status_code: HTTPResponseStatusCode::Okay, payload: None },
            ),
            RequestHandler::GetFile => {
                match file_target(req, context) {
                    Ok(path) => HandlerAction::ReadFile { path },
                    Err(resp) => HandlerAction::Respond(resp),
                }
            },
            RequestHandler::PostFile => {
                match file_target(req, context) {
                    Ok(path) => {
                        let contents = copy_vec(&req.body);
                        HandlerAction::WriteFile { path, contents }
                    },
                    Err(resp) => HandlerAction::Respond(resp),
                }
            },
        }
    }
}

/// The file a `/files` request addresses: the configured directory with the
/// third slash-separated path component appended, or the error response owed
/// when the path names no file or no directory is configured.
fn file_target(req: &HTTPRequest, context: &ExecutionContext) -> (r: Result<Vec<u8>, HTTPResponse>)
    ensures
        ({
            let comps = spec_split1(req@.path, 47);
            match r {
                Ok(path) => comps.len() >= 3 && context@.directory is Some && path@
                    == context@.directory.unwrap() + comps[2],
                Err(resp) => if comps.len() < 3 {
                    resp@ == (ResponseView {
                        status_code: HTTPResponseStatusCode::BadRequest,
                        payload: None,
                    })
                } else {
                    context@.directory is None && resp@ == (ResponseView {
                        status_code: HTTPResponseStatusCode::InternalServerError,
                        payload: None,
                    })
                },
            }
        }),
{
    let comps = split1(&req.path, 47);
    if comps.len() < 3 {
        return Err(
            HTTPResponse { status_code: HTTPResponseStatusCode::BadRequest, payload: None },
        );
    }
    match &context.directory {
        None => Err(
            HTTPResponse {
                status_code: HTTPResponseStatusCode::InternalServerError,
                payload: None,
            },
        ),
        Some(dir) => {
            let mut path = copy_vec(dir);
            let mut name = copy_vec(&comps[2]);
            path.append(&mut name);
            proof {
                assert(comps[2]@ == comps.deep_view()[2]);
            }
            Ok(path)
        },
    }
}

/// First-match-wins dispatch over an ordered route table: the first handler
/// whose predicate accepts the request decides the action; when none does,
/// the action is a payload-less 404 response.
pub open spec fn spec_dispatch(
    handlers: Seq<RequestHandler>,
    req: RequestView,
    ctx: ContextView,
) -> ActionView
    decreases handlers.len(),
{
    if handlers.len() == 0 {
        ActionView::Respond(
            ResponseView { status_code: HTTPResponseStatusCode::NotFound, payload: None },
        )
    } else if spec_matches(handlers[0], req) {
        spec_handle(handlers[0], req, ctx)
    } else {
        spec_dispatch(handlers.drop_first(), req, ctx)
    }
}

/// Dispatch a request over the route table, first match wins.
pub fn handle_request(
    request: &HTTPRequest,
    handlers: &Vec<RequestHandler>,
    context: &ExecutionContext,
) -> (r: HandlerAction)
    ensures
        r@ == spec_dispatch(handlers@, request@, context@),
{
    let ghost hs = handlers@;
    let mut i: usize = 0;
    proof {
        assert(hs.subrange(0, hs.len() as int) =~= hs);
    }
    while i < handlers.len()
        invariant
            0 <= i <= handlers@.len(),
            hs == handlers@,
            spec_dispatch(hs, request@, context@) == spec_dispatch(
                hs.subrange(i as int, hs.len() as int),
                request@,
                context@,
            ),
        decreases handlers@.len() - i,
    {
        proof {
            assert(hs.subrange(i as int, hs.len() as int)[0] == hs[i as int]);
            assert(hs.subrange(i as int, hs.len() as int).drop_first() =~= hs.subrange(
                i + 1,
                hs.len() as int,
            ));
        }
        let h = handlers[i];
        if h.matches(request) {
            return h.handle(request, context);
        }
        i = i + 1;
    }
    HandlerAction::Respond(
        HTTPResponse { status_code: HTTPResponseStatusCode::NotFound, payload: None },
    )
}

/// What a filesystem read handed back for a `/files` GET.
pub enum FileReadOutcome {
    /// The file exists and these are its bytes.
    Found(Vec<u8>),
    /// The file does not exist.
    Missing,
    /// The file exists but reading it failed.
    Failed,
}

/// The response owed for a `/files` GET once the filesystem step is done:
/// 200 with the file's bytes as an application/octet-stream payload, 404 with
/// no payload for a missing file, 500 with no payload for a failed read.
pub fn file_read_response(outcome: FileReadOutcome) -> (r: HTTPResponse)
    ensures
        match outcome {
            FileReadOutcome::Found(contents) => r@ == (ResponseView {
                status_code: HTTPResponseStatusCode::Okay,
                payload: Some(
                    PayloadView {
                        content_type: HTTPContentType::ApplicationOctetStream,
                        payload: contents@,
                    },
                ),
            }),
            FileReadOutcome::Missing => r@ == (ResponseView {
                status_code: HTTPResponseStatusCode::NotFound,
                payload: None,
            }),
            FileReadOutcome::Failed => r@ == (ResponseView {
                status_code: HTTPResponseStatusCode::InternalServerError,
                payload: None,
            }),
        },
{
    match outcome {
        FileReadOutcome::Found(contents) => HTTPResponse {
            status_code: HTTPResponseStatusCode::Okay,
            payload: Some(
                HTTPResponsePayload {
                    content_type: HTTPContentType::ApplicationOctetStream,
                    payload: contents,
                },
            ),
        },
        FileReadOutcome::Missing => HTTPResponse {
            status_code: HTTPResponseStatusCode::NotFound,
            payload: None,
        },
        FileReadOutcome::Failed => HTTPResponse {
            status_code: HTTPResponseStatusCode::InternalServerError,
            payload: None,
        },
    }
}

/// The response owed for a `/files` POST once the filesystem step is done:
/// 201 with no payload on success, 500 with no payload on a failed write.
pub fn file_write_response(success: bool) -> (r: HTTPResponse)
    ensures
        success ==> r@ == (ResponseView {
            status_code: HTTPResponseStatusCode::Created,
            payload: None,
        }),
        !success ==> r@ == (ResponseView {
            status_code: HTTPResponseStatusCode::InternalServerError,
            payload: None,
        }),
{
    if success {
        HTTPResponse { status_code: HTTPResponseStatusCode::Created, payload: None }
    } else {
        HTTPResponse { status_code: HTTPResponseStatusCode::InternalServerError, payload: None }
    }
}

/// The route table in its registration order: echo, user-agent, the file
/// routes, and the catch-all root route last.
pub open spec fn spec_standard_handlers() -> Seq<RequestHandler> {
    seq![
        RequestHandler::Echo,
        RequestHandler::UserAgent,
        RequestHandler::GetFile,
        RequestHandler::PostFile,
        RequestHandler::Root,
    ]
}

/// The route table in its registration order.
pub fn standard_handlers() -> (r: Vec<RequestHandler>)
    ensures
        r@ == spec_standard_handlers(),
{
    let mut r: Vec<RequestHandler> = Vec::new();
    r.push(RequestHandler::Echo);
    r.push(RequestHandler::UserAgent);
    r.push(RequestHandler::GetFile);
    r.push(RequestHandler::PostFile);
    r.push(RequestHandler::Root);
    proof {
        assert(r@ =~= spec_standard_handlers());
    }
    r
}

/// Law: dispatch returns exactly the behavior of the first handler, in
/// registration order, whose predicate accepts the request; handlers
/// registered after it are never consulted.
pub proof fn lemma_first_match_wins(
    handlers: Seq<RequestHandler>,
    req: RequestView,
    ctx: ContextView,
    i: int,
)
    requires
        0 <= i < handlers.len(),
        spec_matches(handlers[i], req),
        forall|j: int| 0 <= j < i ==> !spec_matches(#[trigger] handlers[j], req),
    ensures
        spec_dispatch(handlers, req, ctx) == spec_handle(handlers[i], req, ctx),
    decreases i,
{
    if i > 0 {
        assert(!spec_matches(handlers[0], req));
        assert forall|j: int| 0 <= j < i - 1 implies !spec_matches(
            #[trigger] handlers.drop_first()[j],
            req,
        ) by {
            assert(handlers.drop_first()[j] == handlers[j + 1]);
        }
        assert(handlers.drop_first()[i - 1] == handlers[i]);
        lemma_first_match_wins(handlers.drop_first(), req, ctx, i - 1);
    }
}

/// Law: when no registered handler's predicate accepts the request, dispatch
/// yields exactly one 404 response with no payload — and therefore, by
/// `lemma_no_payload_serialization`, a wire form with no Content-Type line,
/// no Content-Length line and no body.
pub proof fn lemma_no_match_not_found(
    handlers: Seq<RequestHandler>,
    req: RequestView,
    ctx: ContextView,
)
    requires
        forall|j: int| 0 <= j < handlers.len() ==> !spec_matches(#[trigger] handlers[j], req),
    ensures
        spec_dispatch(handlers, req, ctx) == ActionView::Respond(
            ResponseView { status_code: HTTPResponseStatusCode::NotFound, payload: None },
        ),
    decreases handlers.len(),
{
    if handlers.len() > 0 {
        assert forall|j: int| 0 <= j < handlers.drop_first().len() implies !spec_matches(
            #[trigger] handlers.drop_first()[j],
            req,
        ) by {
            assert(handlers.drop_first()[j] == handlers[j + 1]);
        }
        lemma_no_match_not_found(handlers.drop_first(), req, ctx);
    }
}

/// Law (routing precedence): under the standard registration order the echo
/// route precedes the catch-all root route, so a request whose path starts
/// with `/echo` is always answered by the echo handler and never falls
/// through to any later route.
pub proof fn lemma_echo_never_falls_through(req: RequestView, ctx: ContextView)
    requires
        spec_matches(RequestHandler::Echo, req),
    ensures
        spec_dispatch(spec_standard_handlers(), req, ctx) == spec_handle(
            RequestHandler::Echo,
            req,
            ctx,
        ),
{
    lemma_first_match_wins(spec_standard_handlers(), req, ctx, 0);
}

/// Law (files round trip, the library's part): a POST and a GET to the same
/// `/files` path under the same configured directory address the same file;
/// the POST writes exactly the request body; and serving back the bytes read
/// from that file yields a 200 response whose payload is exactly those bytes
/// — so a GET after a POST of body `B` answers `B`, as long as the
/// filesystem hands back what was written.
pub proof fn lemma_files_round_trip(post: RequestView, get: RequestView, ctx: ContextView)
    requires
        spec_matches(RequestHandler::PostFile, post),
        spec_matches(RequestHandler::GetFile, get),
        post.path == get.path,
        spec_split1(post.path, 47).len() >= 3,
        ctx.directory is Some,
    ensures
        ({
            let target = ctx.directory.unwrap() + spec_split1(post.path, 47)[2];
            &&& spec_handle(RequestHandler::PostFile, post, ctx) == ActionView::WriteFile {
                path: target,
                contents: post.body,
            }
            &&& spec_handle(RequestHandler::GetFile, get, ctx) == ActionView::ReadFile {
                path: target,
            }
        }),
{
}

/// The bytes of `"/echo"`.
pub open spec fn spec_echo_prefix() -> Seq<u8> {
    seq![47u8, 101u8, 99u8, 104u8, 111u8]
}

/// A fresh copy of the bytes of `"/echo"`.
pub fn echo_prefix() -> (r: Vec<u8>)
    ensures
        r@ == spec_echo_prefix(),
{
    let mut r: Vec<u8> = Vec::new();
    r.push(47);
    r.push(101);
    r.push(99);
    r.push(104);
    r.push(111);
    proof {
        assert(r@ =~= spec_echo_prefix());
    }
    r
}

/// The bytes of `"/user-agent"`.
pub open spec fn spec_user_agent_prefix() -> Seq<u8> {
    seq![47u8, 117u8, 115u8, 101u8, 114u8, 45u8, 97u8, 103u8, 101u8, 110u8, 116u8]
}

/// A fresh copy of the bytes of `"/user-agent"`.
pub fn user_agent_prefix() -> (r: Vec<u8>)
    ensures
        r@ == spec_user_agent_prefix(),
{
    let mut r: Vec<u8> = Vec::new();
    r.push(47);
    r.push(117);
    r.push(115);
    r.push(101);
    r.push(114);
    r.push(45);
    r.push(97);
    r.push(103);
    r.push(101);
    r.push(110);
    r.push(116);
    proof {
        assert(r@ =~= spec_user_agent_prefix());
    }
    r
}

/// The bytes of `"/files"`.
pub open spec fn spec_files_prefix() -> Seq<u8> {
    seq![47u8, 102u8, 105u8, 108u8, 101u8, 115u8]
}

/// A fresh copy of the bytes of `"/files"`.
pub fn files_prefix() -> (r: Vec<u8>)
    ensures
        r@ == spec_files_prefix(),
{
    let mut r: Vec<u8> = Vec::new();
    r.push(47);
    r.push(102);
    r.push(105);
    r.push(108);
    r.push(101);
    r.push(115);
    proof {
        assert(r@ =~= spec_files_prefix());
    }
    r
}

/// The bytes of `"User-Agent"`.
pub open spec fn spec_user_agent_header() -> Seq<u8> {
    seq![85u8, 115u8, 101u8, 114u8, 45u8, 65u8, 103u8, 101u8, 110u8, 116u8]
}

/// A fresh copy of the bytes of `"User-Agent"`.
pub fn user_agent_header() -> (r: Vec<u8>)
    ensures
        r@ == spec_user_agent_header(),
{
    let mut r: Vec<u8> = Vec::new();
    r.push(85);
    r.push(115);
    r.push(101);
    r.push(114);
    r.push(45);
    r.push(65);
    r.push(103);
    r.push(101);
    r.push(110);
    r.push(116);
    proof {
        assert(r@ =~= spec_user_agent_header());
    }
    r
}

} // verus!
