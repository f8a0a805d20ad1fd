//! Decisions of the HTTP server: who may change things, how long a body may
//! be, what each request is answered, and how an image is uploaded.

use vstd::prelude::*;
use crate::api;
use crate::api::routes;
use crate::api::{ApiError, SwitchCommand};
use crate::app::App;
use crate::config::Config;
use crate::text;
use crate::webapi;
use crate::webapi::TestRequest;
use crate::webhook::WebhookEvent;

verus! {

/// Longest body of a configuration.
pub const MAX_BODY: usize = 32768;

/// How many log records a new follower gets at first.
pub const LOG_BACKLOG: usize = 200;

/// An answer.
#[derive(Debug, PartialEq, Eq)]
pub struct Response {
    pub status: u16,
    /// A JSON text, or nothing.
    pub body: Option<String>,
}

/// An answer by its contents.
pub struct ResponseView {
    pub status: u16,
    pub body: Option<Seq<char>>,
}

impl View for Response {
    type V = ResponseView;

    open spec fn view(&self) -> ResponseView {
        ResponseView {
            status: self.status,
            body: match self.body {
                Some(b) => Some(b@),
                None => None,
            },
        }
    }
}

/// A refusal with its reason.
pub open spec fn refusal(status: u16, message: Seq<char>) -> ResponseView {
    ResponseView { status, body: Some(api::error_json(message)) }
}

pub open spec fn bare(status: u16) -> ResponseView {
    ResponseView { status, body: None }
}

fn refuse(status: u16, message: &str) -> (r: Response)
    ensures
        r@ == refusal(status, message@),
{
    Response { status, body: Some(ApiError::new(message).to_json()) }
}

fn refuse_with(status: u16, what: &str, error: &str) -> (r: Response)
    ensures
        r@ == refusal(status, what@ + error@),
{
    let message = text::join(what, error);
    refuse(status, message.as_str())
}

/// A request may change things. Without a token everyone may.
pub open spec fn may_change(token: Seq<char>, authorization: Option<Seq<char>>) -> bool {
    token.len() == 0 || authorization == Some("Bearer "@ + token)
}

/// Whether a request may change things, by the token of the device and the
/// request's `Authorization` header.
pub fn require_auth(token: &str, authorization: Option<&str>) -> (allowed: bool)
    ensures
        allowed == may_change(
            token@,
            match authorization {
                Some(h) => Some(h@),
                None => None,
            },
        ),
{
    if token.is_empty() {
        return true;
    }
    match authorization {
        Some(header) => {
            let wanted = text::join("Bearer ", token);
            text::same(header, wanted.as_str())
        },
        None => false,
    }
}

/// The answer to a request that may not change things.
pub fn unauthorized() -> (r: Response)
    ensures
        r@ == refusal(401, "missing or invalid Authorization: Bearer <admin_token>"@),
{
    refuse(401, "missing or invalid Authorization: Bearer <admin_token>")
}

#[derive(Debug, Clone, Copy, PartialEq, Eq, Structural)]
pub enum Method {
    Get,
    Put,
    Post,
}

/// What the server offers.
#[derive(Debug, Clone, Copy, PartialEq, Eq, Structural)]
pub enum Endpoint {
    /// The main page.
    Index,
    Status,
    ReadConfig,
    WriteConfig,
    Diagnostics,
    Switch,
    /// The log, live.
    Logs,
    /// Takes a new image.
    Upload,
    /// A path that operating systems probe. Answered with status 302 to `/`.
    Probe,
    FactoryReset,
    /// Looks for networks and lists them.
    ScanWifi,
    ClearAlarm,
    /// Emits an event, to try the webhooks out.
    TestWebhooks,
}

/// The endpoint at a path.
pub open spec fn endpoint_at(method: Method, path: Seq<char>) -> Option<Endpoint> {
    match method {
        Method::Get => if path == "/"@ {
            Some(Endpoint::Index)
        } else if path == routes::STATUS@ {
            Some(Endpoint::Status)
        } else if path == routes::CONFIG@ {
            Some(Endpoint::ReadConfig)
        } else if path == "/api/diag"@ {
            Some(Endpoint::Diagnostics)
        } else if path == routes::LOGS_WS@ {
            Some(Endpoint::Logs)
        } else if path == routes::WIFI_SCAN@ {
            Some(Endpoint::ScanWifi)
        } else if is_probe(path) {
            Some(Endpoint::Probe)
        } else {
            None
        },
        Method::Put => if path == routes::CONFIG@ {
            Some(Endpoint::WriteConfig)
        } else {
            None
        },
        Method::Post => if path == routes::SWITCH@ {
            Some(Endpoint::Switch)
        } else if path == routes::OTA_UPLOAD@ {
            Some(Endpoint::Upload)
        } else if path == routes::FACTORY_RESET@ {
            Some(Endpoint::FactoryReset)
        } else if path == routes::ALARM_CLEAR@ {
            Some(Endpoint::ClearAlarm)
        } else if path == routes::WEBHOOKS_TEST@ {
            Some(Endpoint::TestWebhooks)
        } else {
            None
        },
    }
}

pub fn endpoint(method: Method, path: &str) -> (e: Option<Endpoint>)
    ensures
        e == endpoint_at(method, path@),
{
    match method {
        Method::Get => if text::same(path, "/") {
            Some(Endpoint::Index)
        } else if text::same(path, routes::STATUS) {
            Some(Endpoint::Status)
        } else if text::same(path, routes::CONFIG) {
            Some(Endpoint::ReadConfig)
        } else if text::same(path, "/api/diag") {
            Some(Endpoint::Diagnostics)
        } else if text::same(path, routes::LOGS_WS) {
            Some(Endpoint::Logs)
        } else if text::same(path, routes::WIFI_SCAN) {
            Some(Endpoint::ScanWifi)
        } else if probed(path) {
            Some(Endpoint::Probe)
        } else {
            None
        },
        Method::Put => if text::same(path, routes::CONFIG) {
            Some(Endpoint::WriteConfig)
        } else {
            None
        },
        Method::Post => if text::same(path, routes::SWITCH) {
            Some(Endpoint::Switch)
        } else if text::same(path, routes::OTA_UPLOAD) {
            Some(Endpoint::Upload)
        } else if text::same(path, routes::FACTORY_RESET) {
            Some(Endpoint::FactoryReset)
        } else if text::same(path, routes::ALARM_CLEAR) {
            Some(Endpoint::ClearAlarm)
        } else if text::same(path, routes::WEBHOOKS_TEST) {
            Some(Endpoint::TestWebhooks)
        } else {
            None
        },
    }
}

/// The endpoint changes something.
pub open spec fn changes(e: Endpoint) -> bool {
    match e {
        Endpoint::WriteConfig | Endpoint::Switch | Endpoint::Upload | Endpoint::FactoryReset
        | Endpoint::ClearAlarm | Endpoint::TestWebhooks => true,
        _ => false,
    }
}

/// The refusal of a request that may not use an endpoint. Reading is free to
/// everyone.
pub fn refused_entry(e: Endpoint, token: &str, authorization: Option<&str>) -> (refused: Option<Response>)
    ensures
        refused is Some == (changes(e) && !may_change(
            token@,
            match authorization {
                Some(h) => Some(h@),
                None => None,
            },
        )),
        refused is Some ==> refused->0@ == refusal(
            401,
            "missing or invalid Authorization: Bearer <admin_token>"@,
        ),
{
    match e {
        Endpoint::WriteConfig | Endpoint::Switch | Endpoint::Upload | Endpoint::FactoryReset
        | Endpoint::ClearAlarm | Endpoint::TestWebhooks => {
            if require_auth(token, authorization) {
                None
            } else {
                Some(unauthorized())
            }
        },
        _ => None,
    }
}

/// Everything that can be done other than by reading needs the token.
pub proof fn writes_need_the_token(method: Method, path: Seq<char>)
    ensures
        endpoint_at(method, path) matches Some(e) ==> (changes(e) <==> method != Method::Get),
{
}

/// A body that arrives in pieces.
#[derive(Debug, PartialEq, Eq)]
pub struct Body {
    bytes: Vec<u8>,
}

impl View for Body {
    type V = Seq<u8>;

    closed spec fn view(&self) -> Seq<u8> {
        self.bytes@
    }
}

impl Body {
    pub fn new() -> (b: Self)
        ensures
            b@ == Seq::<u8>::empty(),
    {
        Body { bytes: Vec::new() }
    }

    /// Adds a piece. Past the limit no more is to be read.
    pub fn take(&mut self, piece: &[u8]) -> (within: bool)
        ensures
            final(self)@ == old(self)@ + piece@,
            within == (final(self)@.len() <= MAX_BODY),
            within == (final(self)@.len() <= 32 * 1_024),
    {
        self.bytes.extend_from_slice(piece);
        assert(self.bytes@ =~= old(self)@ + piece@);
        self.bytes.len() <= MAX_BODY
    }

    pub fn bytes(&self) -> (b: &[u8])
        ensures
            b@ == self@,
    {
        self.bytes.as_slice()
    }
}

/// The answer to a body past the limit.
pub fn body_too_large() -> (r: Response)
    ensures
        r@ == refusal(413, "body too large"@),
{
    refuse(413, "body too large")
}

/// What a new configuration leads to.
pub enum ConfigStep {
    /// The answer; nothing else happens.
    Answer(Response),
    /// The configuration to store, and then to hand to [`config_stored`].
    Save(Config),
}

/// Takes a new configuration. Secrets that it leaves blank keep their values,
/// and webhook targets past the most that there may be are left out.
pub fn put_config(parsed: Result<Config, String>, current: &Config) -> (step: ConfigStep)
    ensures
        match parsed {
            Ok(incoming) => step matches ConfigStep::Save(c) && c@ == incoming@.restored(
                current@,
            ).capped(),
            Err(e) => step matches ConfigStep::Answer(r) && r@ == refusal(
                400,
                "invalid json: "@ + e@,
            ),
        },
{
    match parsed {
        Ok(incoming) => {
            let mut cfg = current.clone();
            cfg.merge_preserving_secrets(incoming);
            cfg.cap_webhooks();
            ConfigStep::Save(cfg)
        },
        Err(e) => ConfigStep::Answer(refuse_with(400, "invalid json: ", e.as_str())),
    }
}

/// Puts a configuration to use once it is stored. Where storing failed, with
/// the error given, nothing changes.
pub fn config_stored(app: &mut App, cfg: Config, failed: Option<&str>) -> (r: Response)
    ensures
        failed matches Some(e) ==> r@ == refusal(500, "nvs save failed: "@ + e@) && final(app)@
            == old(app)@,
        failed is None ==> r@ == bare(204) && final(app)@ == old(app)@.configured(cfg@),
{
    match failed {
        Some(e) => refuse_with(500, "nvs save failed: ", e),
        None => {
            app.replace_config(cfg);
            Response { status: 204, body: None }
        },
    }
}

/// Clears the latched alarm.
pub fn clear_alarm(app: &mut App) -> (r: Response)
    ensures
        r@ == bare(204),
        final(app)@ == old(app)@.alarm_cleared(),
{
    app.clear_flow_alarm();
    Response { status: 204, body: None }
}

/// The answer to a request to emit an event, and the event.
pub struct WebhookTest {
    pub response: Response,
    pub event: Option<WebhookEvent>,
}

/// Emits an event for a test of the webhook targets.
pub fn post_webhook_test(parsed: Result<TestRequest, String>) -> (t: WebhookTest)
    ensures
        t.response@ == (match parsed {
            Ok(_) => ResponseView { status: 200, body: Some(webapi::RESULT_OK@) },
            Err(e) => refusal(400, "invalid json: "@ + e@),
        }),
        t.event is Some == parsed is Ok,
        t.event matches Some(event) ==> event.kind == parsed->Ok_0.kind && event.vars
            == parsed->Ok_0.vars,
{
    match parsed {
        Ok(request) => WebhookTest {
            response: Response { status: 200, body: Some(webapi::RESULT_OK.to_owned()) },
            event: Some(WebhookEvent { kind: request.kind, vars: request.vars }),
        },
        Err(e) => WebhookTest {
            response: refuse_with(400, "invalid json: ", e.as_str()),
            event: None,
        },
    }
}

/// Carries out a command to a switch.
pub fn post_switch(app: &mut App, now_ms: u64, parsed: Result<SwitchCommand, String>) -> (r:
    Response)
    ensures
        match parsed {
            Ok(cmd) => {
                &&& final(app)@ == old(app)@.command(now_ms, cmd)
                &&& r@ == (if old(app)@.refuses(cmd) {
                    ResponseView {
                        status: 409,
                        body: Some(api::busy_json("valve sequence in progress"@)),
                    }
                } else {
                    ResponseView { status: 200, body: Some(api::accepted_json()) }
                })
            },
            Err(e) => r@ == refusal(400, "invalid json: "@ + e@) && final(app)@ == old(app)@,
        },
{
    match parsed {
        Ok(cmd) => {
            let outcome = app.switch_command(now_ms, cmd);
            Response { status: outcome.status(), body: Some(outcome.to_json()) }
        },
        Err(e) => refuse_with(400, "invalid json: ", e.as_str()),
    }
}

/// The answer after an attempt to remove the stored configuration. Status 202
/// comes before a restart.
pub fn factory_reset_reply(failed: Option<&str>) -> (r: Response)
    ensures
        r@ == (match failed {
            Some(e) => refusal(500, "erase failed: "@ + e@),
            None => bare(202),
        }),
{
    match failed {
        Some(e) => refuse_with(500, "erase failed: ", e),
        None => Response { status: 202, body: None },
    }
}

/// The answer where there is nothing to remove a configuration from.
pub fn no_factory_reset() -> (r: Response)
    ensures
        r@ == refusal(501, "factory reset is only implemented on real devices"@),
{
    refuse(501, "factory reset is only implemented on real devices")
}

/// The answer to a scan that failed.
pub fn scan_failed(message: &str) -> (r: Response)
    ensures
        r@ == refusal(503, message@),
{
    refuse(503, message)
}

/// Whether to offer TLS: it must be switched on, and both parts of the
/// certificate must be there.
pub fn https_wanted(enabled: bool, cert_pem: &str, key_pem: &str) -> (r: bool)
    ensures
        r == (enabled && cert_pem@.len() > 0 && key_pem@.len() > 0),
{
    enabled && !cert_pem.is_empty() && !key_pem.is_empty()
}

/// Paths that operating systems ask for to find out whether a network has a
/// setup page.
pub open spec fn is_probe(path: Seq<char>) -> bool {
    ||| path == "/generate_204"@
    ||| path == "/gen_204"@
    ||| path == "/hotspot-detect.html"@
    ||| path == "/library/test/success.html"@
    ||| path == "/connecttest.txt"@
    ||| path == "/ncsi.txt"@
    ||| path == "/redirect"@
    ||| path == "/success.txt"@
}

fn probed(path: &str) -> (r: bool)
    ensures
        r == is_probe(path@),
{
    text::same(path, "/generate_204") || text::same(path, "/gen_204") || text::same(
        path,
        "/hotspot-detect.html",
    ) || text::same(path, "/library/test/success.html") || text::same(path, "/connecttest.txt")
        || text::same(path, "/ncsi.txt") || text::same(path, "/redirect") || text::same(
        path,
        "/success.txt",
    )
}

/// Those paths, each of which is answered with status 302 to the main page.
pub fn captive_probe_paths() -> (paths: &'static [&'static str])
    ensures
        forall|p: Seq<char>|
            #[trigger] is_probe(p) <==> exists|i: int|
                0 <= i < paths@.len() && (#[trigger] paths@[i])@ == p,
{
    let paths: &'static [&'static str] = &[
        "/generate_204",
        "/gen_204",
        "/hotspot-detect.html",
        "/library/test/success.html",
        "/connecttest.txt",
        "/ncsi.txt",
        "/redirect",
        "/success.txt",
    ];
    proof {
        assert(paths@[0]@ == "/generate_204"@);
        assert(paths@[1]@ == "/gen_204"@);
        assert(paths@[2]@ == "/hotspot-detect.html"@);
        assert(paths@[3]@ == "/library/test/success.html"@);
        assert(paths@[4]@ == "/connecttest.txt"@);
        assert(paths@[5]@ == "/ncsi.txt"@);
        assert(paths@[6]@ == "/redirect"@);
        assert(paths@[7]@ == "/success.txt"@);
    }
    paths
}

/// What happened to an upload.
#[derive(Debug, PartialEq, Eq)]
pub enum UploadEvent {
    /// The updater could not be opened.
    InitFailed(String),
    /// The updater would not begin.
    BeginFailed(String),
    Begun,
    /// So many bytes arrived; none stand for the end of the body.
    Received(usize),
    ReceiveFailed(String),
    /// The bytes that had arrived were written.
    Written,
    WriteFailed(String),
    Completed,
    CompleteFailed(String),
}

/// What to do next with an upload.
#[derive(Debug, PartialEq, Eq)]
pub enum UploadAction {
    /// Wait for bytes.
    Receive,
    /// Write the bytes that arrived.
    Write,
    /// Close the image and make it the one to start.
    Complete,
    /// The end. The update may have to be given up first; after a success the
    /// device restarts.
    Finish { abort: bool, response: Response, reboot: bool },
}

/// An action by its contents.
pub enum UploadActionView {
    Receive,
    Write,
    Complete,
    Finish { abort: bool, response: ResponseView, reboot: bool },
}

impl View for UploadAction {
    type V = UploadActionView;

    open spec fn view(&self) -> UploadActionView {
        match *self {
            UploadAction::Receive => UploadActionView::Receive,
            UploadAction::Write => UploadActionView::Write,
            UploadAction::Complete => UploadActionView::Complete,
            UploadAction::Finish { abort, response, reboot } => UploadActionView::Finish {
                abort,
                response: response@,
                reboot,
            },
        }
    }
}

/// An upload: how much was written, and how much waits to be written.
#[derive(Debug, Clone, Copy, PartialEq, Eq, Structural)]
pub struct Upload {
    pub total: usize,
    pub pending: usize,
}

pub open spec fn failed_upload(abort: bool, status: u16, message: Seq<char>) -> UploadActionView {
    UploadActionView::Finish { abort, response: refusal(status, message), reboot: false }
}

/// The answer to a whole image.
pub open spec fn upload_done(total: usize) -> ResponseView {
    ResponseView {
        status: 202,
        body: Some("{\"bytes\":"@ + text::decimal(total as nat) + ",\"result\":\"ok\"}"@),
    }
}

impl Upload {
    /// What an event leads to.
    pub open spec fn action(self, event: UploadEvent) -> UploadActionView {
        let place = text::decimal(self.total as nat);
        match event {
            UploadEvent::InitFailed(e) => failed_upload(false, 500, "ota init: "@ + e@),
            UploadEvent::BeginFailed(e) => failed_upload(false, 500, "ota initiate: "@ + e@),
            UploadEvent::Begun => UploadActionView::Receive,
            UploadEvent::Received(n) => if n > 0 {
                UploadActionView::Write
            } else if self.total == 0 {
                failed_upload(true, 400, "empty image"@)
            } else {
                UploadActionView::Complete
            },
            UploadEvent::ReceiveFailed(e) => failed_upload(
                true,
                500,
                "ota recv @ "@ + place + ": "@ + e@,
            ),
            UploadEvent::Written => UploadActionView::Receive,
            UploadEvent::WriteFailed(e) => failed_upload(
                true,
                500,
                "ota write @ "@ + place + ": "@ + e@,
            ),
            UploadEvent::Completed => UploadActionView::Finish {
                abort: false,
                response: upload_done(self.total),
                reboot: true,
            },
            UploadEvent::CompleteFailed(e) => failed_upload(false, 500, "ota complete: "@ + e@),
        }
    }

    /// The upload after an event.
    pub open spec fn after(self, event: UploadEvent) -> Upload {
        match event {
            UploadEvent::Received(n) => Upload { pending: n, ..self },
            UploadEvent::Written => Upload {
                total: (self.total + self.pending) as usize,
                pending: 0,
            },
            _ => self,
        }
    }

    pub fn new() -> (u: Self)
        ensures
            u == (Upload { total: 0, pending: 0 }),
    {
        Upload { total: 0, pending: 0 }
    }

    pub fn step(&mut self, event: UploadEvent) -> (action: UploadAction)
        requires
            old(self).total + old(self).pending <= usize::MAX,
        ensures
            action@ == old(self).action(event),
            *final(self) == old(self).after(event),
    {
        match event {
            UploadEvent::InitFailed(e) => UploadAction::Finish {
                abort: false,
                response: refuse_with(500, "ota init: ", e.as_str()),
                reboot: false,
            },
            UploadEvent::BeginFailed(e) => UploadAction::Finish {
                abort: false,
                response: refuse_with(500, "ota initiate: ", e.as_str()),
                reboot: false,
            },
            UploadEvent::Begun => UploadAction::Receive,
            UploadEvent::Received(n) => {
                self.pending = n;
                if n > 0 {
                    UploadAction::Write
                } else if self.total == 0 {
                    UploadAction::Finish {
                        abort: true,
                        response: refuse(400, "empty image"),
                        reboot: false,
                    }
                } else {
                    UploadAction::Complete
                }
            },
            UploadEvent::ReceiveFailed(e) => UploadAction::Finish {
                abort: true,
                response: refuse_at("ota recv @ ", self.total, e.as_str()),
                reboot: false,
            },
            UploadEvent::Written => {
                self.total = self.total + self.pending;
                self.pending = 0;
                UploadAction::Receive
            },
            UploadEvent::WriteFailed(e) => UploadAction::Finish {
                abort: true,
                response: refuse_at("ota write @ ", self.total, e.as_str()),
                reboot: false,
            },
            UploadEvent::Completed => {
                let mut body = "{\"bytes\":".to_owned();
                body.append(text::decimal_u64(self.total as u64).as_str());
                body.append(",\"result\":\"ok\"}");
                UploadAction::Finish {
                    abort: false,
                    response: Response { status: 202, body: Some(body) },
                    reboot: true,
                }
            },
            UploadEvent::CompleteFailed(e) => UploadAction::Finish {
                abort: false,
                response: refuse_with(500, "ota complete: ", e.as_str()),
                reboot: false,
            },
        }
    }
}

fn refuse_at(what: &str, place: usize, error: &str) -> (r: Response)
    ensures
        r@ == refusal(500, what@ + text::decimal(place as nat) + ": "@ + error@),
{
    let mut message = text::join(what, text::decimal_u64(place as u64).as_str());
    message.append(": ");
    message.append(error);
    refuse(500, message.as_str())
}

/// With a token set, a request without the right header never gets through,
/// and the header is right in one form only.
pub proof fn only_the_token_opens(token: Seq<char>, authorization: Option<Seq<char>>)
    requires
        token.len() > 0,
    ensures
        may_change(token, None) == false,
        may_change(token, authorization) ==> authorization == Some("Bearer "@ + token),
{
}

/// An upload restarts the device only after it was completed, and is completed
/// only when the body has ended and something was written.
pub proof fn only_complete_uploads_restart(u: Upload, event: UploadEvent)
    ensures
        u.action(event) matches UploadActionView::Finish { reboot, abort, .. } ==> (reboot <==> event
            is Completed) && !(reboot && abort),
        u.action(event) is Complete ==> event == UploadEvent::Received(0) && u.total > 0,
{
}

/// Every endpoint stands at one path and takes one method there.
pub proof fn endpoints_stand_at_their_paths(method: Method, path: Seq<char>)
    ensures
        endpoint_at(method, path) == Some(Endpoint::Index) <==> method == Method::Get && path
            == "/"@,
        endpoint_at(method, path) == Some(Endpoint::Status) <==> method == Method::Get && path
            == "/api/status"@,
        endpoint_at(method, path) == Some(Endpoint::ReadConfig) <==> method == Method::Get && path
            == "/api/config"@,
        endpoint_at(method, path) == Some(Endpoint::Diagnostics) <==> method == Method::Get && path
            == "/api/diag"@,
        endpoint_at(method, path) == Some(Endpoint::Logs) <==> method == Method::Get && path
            == "/ws/logs"@,
        endpoint_at(method, path) == Some(Endpoint::ScanWifi) <==> method == Method::Get && path
            == "/api/wifi/scan"@,
        endpoint_at(method, path) == Some(Endpoint::WriteConfig) <==> method == Method::Put && path
            == "/api/config"@,
        endpoint_at(method, path) == Some(Endpoint::Switch) <==> method == Method::Post && path
            == "/api/switch"@,
        endpoint_at(method, path) == Some(Endpoint::Upload) <==> method == Method::Post && path
            == "/api/ota"@,
        endpoint_at(method, path) == Some(Endpoint::FactoryReset) <==> method == Method::Post
            && path
            == "/api/factory_reset"@,
        endpoint_at(method, path) == Some(Endpoint::ClearAlarm) <==> method == Method::Post && path
            == "/api/alarm/clear"@,
        endpoint_at(method, path) == Some(Endpoint::TestWebhooks) <==> method == Method::Post
            && path
            == "/api/webhooks/test"@,
        endpoint_at(method, path) == Some(Endpoint::Probe) <==> method == Method::Get
            && (path == "/generate_204"@ || path == "/gen_204"@ || path == "/hotspot-detect.html"@
            || path == "/library/test/success.html"@ || path == "/connecttest.txt"@
            || path == "/ncsi.txt"@ || path == "/redirect"@ || path == "/success.txt"@),
{
    reveal_strlit("/");
    reveal_strlit("/api/status");
    reveal_strlit("/api/config");
    reveal_strlit("/api/diag");
    reveal_strlit("/ws/logs");
    reveal_strlit("/api/wifi/scan");
    reveal_strlit("/api/switch");
    reveal_strlit("/api/ota");
    reveal_strlit("/api/factory_reset");
    reveal_strlit("/api/alarm/clear");
    reveal_strlit("/api/webhooks/test");
    reveal_strlit("/generate_204");
    reveal_strlit("/gen_204");
    reveal_strlit("/hotspot-detect.html");
    reveal_strlit("/library/test/success.html");
    reveal_strlit("/connecttest.txt");
    reveal_strlit("/ncsi.txt");
    reveal_strlit("/redirect");
    reveal_strlit("/success.txt");
    assert("/"@.len() == 1);
    assert("/api/status"@.len() == 11);
    assert("/api/config"@.len() == 11);
    assert("/api/diag"@.len() == 9);
    assert("/ws/logs"@.len() == 8);
    assert("/api/wifi/scan"@.len() == 14);
    assert("/api/switch"@.len() == 11);
    assert("/api/ota"@.len() == 8);
    assert("/api/factory_reset"@.len() == 18);
    assert("/api/alarm/clear"@.len() == 16);
    assert("/api/webhooks/test"@.len() == 18);
    assert("/generate_204"@.len() == 13);
    assert("/gen_204"@.len() == 8);
    assert("/hotspot-detect.html"@.len() == 20);
    assert("/library/test/success.html"@.len() == 26);
    assert("/connecttest.txt"@.len() == 16);
    assert("/ncsi.txt"@.len() == 9);
    assert("/redirect"@.len() == 9);
    assert("/success.txt"@.len() == 12);
    assert("/api/status"@[5] != "/api/config"@[5]);
    assert("/api/diag"@[1] != "/ncsi.txt"@[1]);
    assert("/api/diag"@[1] != "/redirect"@[1]);
    assert("/ws/logs"@[1] != "/gen_204"@[1]);
    assert("/ncsi.txt"@[1] != "/redirect"@[1]);
    assert("/api/factory_reset"@[5] != "/api/webhooks/test"@[5]);
}

/// The right token opens, any other does not, and without a token set everyone
/// may change things.
pub proof fn right_token_opens(token: Seq<char>, other: Seq<char>, authorization: Option<Seq<char>>)
    ensures
        may_change(Seq::empty(), authorization),
        may_change(token, Some("Bearer "@ + token)),
        token.len() > 0 ==> (may_change(token, Some("Bearer "@ + other)) <==> other == token),
        token.len() > 0 ==> !may_change(token, Some(Seq::empty())),
{
    reveal_strlit("Bearer ");
    assert(("Bearer "@ + token).skip(7) =~= token);
    assert(("Bearer "@ + other).skip(7) =~= other);
    assert(("Bearer "@ + token).len() >= 7);
}

/// A piece that arrives and is written counts with its bytes, and once only.
pub proof fn pieces_are_counted(u: Upload, n: usize)
    requires
        u.pending == 0,
        u.total + n <= usize::MAX,
    ensures
        u.after(UploadEvent::Received(n)).total == u.total,
        u.after(UploadEvent::Received(n)).after(UploadEvent::Written).total == u.total + n,
        u.after(UploadEvent::Received(n)).after(UploadEvent::Written).pending == 0,
        u.after(UploadEvent::Received(n)).after(UploadEvent::Written).after(
            UploadEvent::Written,
        ).total == u.total + n,
        u.after(UploadEvent::Begun) == u,
{
}

/// Bytes that arrive are written, what is written is followed by more, and the
/// end of the body completes an image that is not empty. A success is answered
/// with status 202 and restarts the device; a failure is answered with an error
/// status, restarts nothing, and gives up an update that was under way.
pub proof fn uploads_end_as_they_went(u: Upload, event: UploadEvent)
    ensures
        event is Begun || event is Written ==> u.action(event) is Receive,
        event matches UploadEvent::Received(n) ==> (n > 0 ==> u.action(event) is Write) && (n == 0
            && u.total > 0 ==> u.action(event) is Complete),
        event is Completed ==> u.action(event) == (UploadActionView::Finish {
            abort: false,
            response: ResponseView {
                status: 202,
                body: Some(
                    "{\"bytes\":"@ + text::decimal(u.total as nat) + ",\"result\":\"ok\"}"@,
                ),
            },
            reboot: true,
        }),
        u.action(event) matches UploadActionView::Finish { abort, response, reboot } ==> {
            &&& event is ReceiveFailed || event is WriteFailed || event is Received ==> abort
            &&& event is InitFailed || event is BeginFailed || event is CompleteFailed ==> !abort
            &&& event is Received ==> response.status == 400
            &&& !(event is Received) && !(event is Completed) ==> response.status == 500
            &&& !(event is Completed) ==> !reboot
        },
{
}

/// A refusal has the status that it is given and says why in a JSON object.
pub proof fn refusals_say_why(status: u16, message: Seq<char>)
    ensures
        refusal(status, message).status == status,
        refusal(status, message).body == Some(
            "{\"message\":"@ + crate::json_text::json_quoted(message) + "}"@,
        ),
        bare(status).status == status && bare(status).body is None,
{
}

/// A failed upload says at which step it failed and why, and where in the image
/// a transfer was.
pub proof fn failed_uploads_say_where(u: Upload, e: String)
    ensures
        ({
            let place = text::decimal(u.total as nat);
            let said = |event: UploadEvent| u.action(event)->response.body->0;
            let worded = |words: Seq<char>|
                "{\"message\":"@ + crate::json_text::json_quoted(words) + "}"@;
            &&& said(UploadEvent::InitFailed(e)) == worded("ota init: "@ + e@)
            &&& said(UploadEvent::BeginFailed(e)) == worded("ota initiate: "@ + e@)
            &&& said(UploadEvent::ReceiveFailed(e)) == worded(
                "ota recv @ "@ + place + ": "@ + e@,
            )
            &&& said(UploadEvent::WriteFailed(e)) == worded("ota write @ "@ + place + ": "@ + e@)
            &&& said(UploadEvent::CompleteFailed(e)) == worded("ota complete: "@ + e@)
            &&& u.total == 0 ==> said(UploadEvent::Received(0)) == worded("empty image"@)
        }),
{
}

} // verus!
