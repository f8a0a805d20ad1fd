//! The JSON interface of the device without an operating system. Every answer
//! is a JSON text with status 200, errors too, or nothing with status 204; only
//! a request that lacks the token of the device is refused with status 401.
//!
//! Parsing a body, storing a configuration and restarting are the caller's
//! part: it hands in what the parser made of the body and carries out the step
//! that comes back.

use vstd::prelude::*;
use crate::api;
use crate::api::SwitchCommand;
use crate::app;
use crate::app::App;
use crate::config;
use crate::config::Config;
use crate::http_server;
use crate::http_server::{Method, Response};
use crate::json_tree;
use crate::json_tree::{Json, JsonModel};
use crate::state::DeviceSnapshot;
use crate::string_map::StringMap;
use crate::text;
use crate::webhook::{EventKind, WebhookEvent, WEBHOOKS_MAX};

verus! {

pub const NOT_FOUND: &'static str = "{\"error\":\"unknown endpoint\"}";

pub const UNKNOWN_SECTION: &'static str = "{\"error\":\"unknown config section\"}";

pub const RESULT_OK: &'static str = "{\"result\":\"ok\"}";

/// Longest name in a path, in bytes.
pub const SEGMENT_MAX: usize = 24;

/// Where a request goes. The text is the last part of the path.
#[derive(Debug, PartialEq, Eq)]
pub enum Route {
    /// The main page.
    Index,
    /// The log, live.
    Logs,
    /// Takes a new image.
    Upload,
    /// To [`api_get`].
    Read(String),
    /// To [`api_put`].
    Write(String),
    /// To [`api_post`].
    Act(String),
    /// To [`config_section_get`].
    ReadSection(String),
    /// To [`config_section_put`].
    WriteSection(String),
    /// To [`wifi_get`], or to a scan where that is asked for.
    ReadWifi(String),
    /// To [`wifi_post`].
    ActWifi(String),
    /// To [`alarm_post`].
    ActAlarm(String),
    /// To [`webhooks_post`].
    ActWebhooks(String),
}

/// A route by its contents.
pub enum RouteView {
    Index,
    Logs,
    Upload,
    Read(Seq<char>),
    Write(Seq<char>),
    Act(Seq<char>),
    ReadSection(Seq<char>),
    WriteSection(Seq<char>),
    ReadWifi(Seq<char>),
    ActWifi(Seq<char>),
    ActAlarm(Seq<char>),
    ActWebhooks(Seq<char>),
}

impl View for Route {
    type V = RouteView;

    open spec fn view(&self) -> RouteView {
        match *self {
            Route::Index => RouteView::Index,
            Route::Logs => RouteView::Logs,
            Route::Upload => RouteView::Upload,
            Route::Read(s) => RouteView::Read(s@),
            Route::Write(s) => RouteView::Write(s@),
            Route::Act(s) => RouteView::Act(s@),
            Route::ReadSection(s) => RouteView::ReadSection(s@),
            Route::WriteSection(s) => RouteView::WriteSection(s@),
            Route::ReadWifi(s) => RouteView::ReadWifi(s@),
            Route::ActWifi(s) => RouteView::ActWifi(s@),
            Route::ActAlarm(s) => RouteView::ActAlarm(s@),
            Route::ActWebhooks(s) => RouteView::ActWebhooks(s@),
        }
    }
}

impl RouteView {
    /// The request asks for a change.
    pub open spec fn changes(self) -> bool {
        match self {
            RouteView::Index | RouteView::Logs | RouteView::Read(_) | RouteView::ReadSection(_)
            | RouteView::ReadWifi(_) => false,
            _ => true,
        }
    }
}

/// A name that a path may end in.
pub open spec fn is_segment(name: Seq<char>) -> bool {
    vstd::utf8::encode_utf8(name).len() <= SEGMENT_MAX
}

/// The route below `/api`.
pub open spec fn top_route(method: Method, name: Seq<char>) -> RouteView {
    match method {
        Method::Get => RouteView::Read(name),
        Method::Put => RouteView::Write(name),
        Method::Post => RouteView::Act(name),
    }
}

/// The route below a group under `/api`.
pub open spec fn group_route(method: Method, group: Seq<char>, name: Seq<char>) -> Option<
    RouteView,
> {
    match method {
        Method::Get => if group == "config"@ {
            Some(RouteView::ReadSection(name))
        } else if group == "wifi"@ {
            Some(RouteView::ReadWifi(name))
        } else {
            None
        },
        Method::Put => if group == "config"@ {
            Some(RouteView::WriteSection(name))
        } else {
            None
        },
        Method::Post => if group == "wifi"@ {
            Some(RouteView::ActWifi(name))
        } else if group == "alarm"@ {
            Some(RouteView::ActAlarm(name))
        } else if group == "webhooks"@ {
            Some(RouteView::ActWebhooks(name))
        } else {
            None
        },
    }
}

/// The route of a path, by the parts between its slashes. The three paths that
/// stand for themselves take one method each.
pub open spec fn route_at(method: Method, path: Seq<char>) -> Option<RouteView> {
    let parts = text::split_at_char(path, '/');
    if path == "/"@ {
        if method == Method::Get { Some(RouteView::Index) } else { None }
    } else if path == "/ws/logs"@ {
        if method == Method::Get { Some(RouteView::Logs) } else { None }
    } else if path == "/api/ota"@ {
        if method == Method::Post { Some(RouteView::Upload) } else { None }
    } else if parts.len() < 3 || parts[0].len() > 0 || parts[1] != "api"@ {
        None
    } else if parts.len() == 3 && is_segment(parts[2]) {
        Some(top_route(method, parts[2]))
    } else if parts.len() == 4 && is_segment(parts[3]) {
        group_route(method, parts[2], parts[3])
    } else {
        None
    }
}

fn fits_segment(name: &String) -> (r: bool)
    ensures
        r == is_segment(name@),
{
    name.as_str().as_bytes().len() <= SEGMENT_MAX
}

/// Finds the route of a request.
pub fn route(method: Method, path: &str) -> (r: Option<Route>)
    ensures
        (match r {
            Some(route) => Some(route@),
            None => None,
        }) == route_at(method, path@),
{
    if text::same(path, "/") {
        return match method {
            Method::Get => Some(Route::Index),
            _ => None,
        };
    }
    if text::same(path, "/ws/logs") {
        return match method {
            Method::Get => Some(Route::Logs),
            _ => None,
        };
    }
    if text::same(path, "/api/ota") {
        return match method {
            Method::Post => Some(Route::Upload),
            _ => None,
        };
    }
    let parts: Vec<String> = text::split(path, '/');
    assert(parts@.len() == text::texts(parts@).len());
    assert(forall|i: int|
        0 <= i < parts@.len() ==> (#[trigger] parts@[i])@ == text::texts(parts@)[i]);
    if parts.len() < 3 || !parts[0].as_str().is_empty() || !text::same(parts[1].as_str(), "api") {
        return None;
    }
    if parts.len() == 3 {
        if !fits_segment(&parts[2]) {
            return None;
        }
        let name = parts[2].clone();
        return Some(
            match method {
                Method::Get => Route::Read(name),
                Method::Put => Route::Write(name),
                Method::Post => Route::Act(name),
            },
        );
    }
    if parts.len() != 4 || !fits_segment(&parts[3]) {
        return None;
    }
    let group = parts[2].as_str();
    let name = parts[3].clone();
    match method {
        Method::Get => if text::same(group, "config") {
            Some(Route::ReadSection(name))
        } else if text::same(group, "wifi") {
            Some(Route::ReadWifi(name))
        } else {
            None
        },
        Method::Put => if text::same(group, "config") {
            Some(Route::WriteSection(name))
        } else {
            None
        },
        Method::Post => if text::same(group, "wifi") {
            Some(Route::ActWifi(name))
        } else if text::same(group, "alarm") {
            Some(Route::ActAlarm(name))
        } else if text::same(group, "webhooks") {
            Some(Route::ActWebhooks(name))
        } else {
            None
        },
    }
}

/// The refusal of a request that asks for a change without the token of the
/// device. Reading is free to everyone.
pub fn refused_route(route: &Route, token: &str, authorization: Option<&str>) -> (refused: Option<
    Response,
>)
    ensures
        refused is Some == (route@.changes() && !http_server::may_change(
            token@,
            match authorization {
                Some(h) => Some(h@),
                None => None,
            },
        )),
        refused is Some ==> refused->0@ == http_server::refusal(
            401,
            "missing or invalid Authorization: Bearer <admin_token>"@,
        ),
{
    match route {
        Route::Index | Route::Logs | Route::Read(_) | Route::ReadSection(_) | Route::ReadWifi(_) =>
            None,
        _ => if http_server::require_auth(token, authorization) {
            None
        } else {
            Some(http_server::unauthorized())
        },
    }
}

/// Every request to write or to act asks for a change, and none that reads
/// does: with a token set, the first need it and the second do not.
pub proof fn writes_need_the_token(method: Method, path: Seq<char>)
    ensures
        route_at(method, path) matches Some(r) ==> (r.changes() <==> method != Method::Get),
{
}

/// A part of the configuration with a name of its own.
#[derive(Debug, Clone, Copy, PartialEq, Eq, Structural)]
pub enum Section {
    Wifi,
    Mqtt,
    Https,
    Switches,
    Sensors,
    FlowAlarm,
    Timezone,
    SntpServers,
    Schedule,
    Wireguard,
    AdminToken,
    Webhooks,
}

impl Section {
    pub open spec fn name(self) -> Seq<char> {
        match self {
            Section::Wifi => "wifi"@,
            Section::Mqtt => "mqtt"@,
            Section::Https => "https"@,
            Section::Switches => "switches"@,
            Section::Sensors => "sensors"@,
            Section::FlowAlarm => "flow_alarm"@,
            Section::Timezone => "timezone"@,
            Section::SntpServers => "sntp_servers"@,
            Section::Schedule => "schedule"@,
            Section::Wireguard => "wireguard"@,
            Section::AdminToken => "admin_token"@,
            Section::Webhooks => "webhooks"@,
        }
    }

    /// The section with this name.
    pub fn parse(name: &str) -> (section: Option<Section>)
        ensures
            section matches Some(s) ==> s.name() == name@,
            section is None ==> forall|s: Section| (#[trigger] s.name()) != name@,
    {
        if text::same(name, "wifi") {
            Some(Section::Wifi)
        } else if text::same(name, "mqtt") {
            Some(Section::Mqtt)
        } else if text::same(name, "https") {
            Some(Section::Https)
        } else if text::same(name, "switches") {
            Some(Section::Switches)
        } else if text::same(name, "sensors") {
            Some(Section::Sensors)
        } else if text::same(name, "flow_alarm") {
            Some(Section::FlowAlarm)
        } else if text::same(name, "timezone") {
            Some(Section::Timezone)
        } else if text::same(name, "sntp_servers") {
            Some(Section::SntpServers)
        } else if text::same(name, "schedule") {
            Some(Section::Schedule)
        } else if text::same(name, "wireguard") {
            Some(Section::Wireguard)
        } else if text::same(name, "admin_token") {
            Some(Section::AdminToken)
        } else if text::same(name, "webhooks") {
            Some(Section::Webhooks)
        } else {
            None
        }
    }
}

/// No two sections share a name, so a name stands for one section at most.
pub proof fn names_identify_sections(a: Section, b: Section)
    requires
        a.name() == b.name(),
    ensures
        a == b,
{
    reveal_strlit("wifi");
    reveal_strlit("mqtt");
    reveal_strlit("https");
    reveal_strlit("switches");
    reveal_strlit("sensors");
    reveal_strlit("flow_alarm");
    reveal_strlit("timezone");
    reveal_strlit("sntp_servers");
    reveal_strlit("schedule");
    reveal_strlit("wireguard");
    reveal_strlit("admin_token");
    reveal_strlit("webhooks");
    assert("wifi"@.len() == 4);
    assert("mqtt"@.len() == 4);
    assert("https"@.len() == 5);
    assert("switches"@.len() == 8);
    assert("sensors"@.len() == 7);
    assert("flow_alarm"@.len() == 10);
    assert("timezone"@.len() == 8);
    assert("sntp_servers"@.len() == 12);
    assert("schedule"@.len() == 8);
    assert("wireguard"@.len() == 9);
    assert("admin_token"@.len() == 11);
    assert("webhooks"@.len() == 8);
    assert("wifi"@[0] == 'w');
    assert("wifi"@[1] == 'i');
    assert("mqtt"@[0] == 'm');
    assert("mqtt"@[1] == 'q');
    assert("switches"@[0] == 's');
    assert("switches"@[1] == 'w');
    assert("timezone"@[0] == 't');
    assert("timezone"@[1] == 'i');
    assert("schedule"@[0] == 's');
    assert("schedule"@[1] == 'c');
    assert("webhooks"@[0] == 'w');
    assert("webhooks"@[1] == 'e');
}

/// A configuration to be sent as JSON.
pub enum JsonView {
    /// All of it, secrets too.
    FullConfig(Config),
    /// All of it, secrets left blank.
    RedactedConfig(Config),
    /// One section, secrets left blank.
    Section(Config, Section),
}

/// An answer.
pub enum ApiResp {
    /// A JSON text.
    Json(String),
    /// Status 204 without a body.
    NoContent,
    /// The state of the device as JSON.
    Status(DeviceSnapshot),
    /// A configuration as JSON.
    Stream(JsonView),
}

/// An answer by its contents.
pub enum ApiRespView {
    Json(Seq<char>),
    NoContent,
    Status(DeviceSnapshot),
    FullConfig(config::ConfigView),
    RedactedConfig(config::ConfigView),
    Section(config::ConfigView, Section),
}

impl View for ApiResp {
    type V = ApiRespView;

    open spec fn view(&self) -> ApiRespView {
        match *self {
            ApiResp::Json(s) => ApiRespView::Json(s@),
            ApiResp::NoContent => ApiRespView::NoContent,
            ApiResp::Status(s) => ApiRespView::Status(s),
            ApiResp::Stream(JsonView::FullConfig(c)) => ApiRespView::FullConfig(c@),
            ApiResp::Stream(JsonView::RedactedConfig(c)) => ApiRespView::RedactedConfig(c@),
            ApiResp::Stream(JsonView::Section(c, s)) => ApiRespView::Section(c@, s),
        }
    }
}

/// Name of the firmware.
pub const FIRMWARE_NAME: &'static str = "wc-nostd";

/// The diagnostics of a device that reserves its heap once and for all.
pub open spec fn diag_text(
    snap: DeviceSnapshot,
    uptime_s: u64,
    free: usize,
    used: usize,
) -> Seq<char> {
    "{\"uptime_s\":"@ + text::decimal(uptime_s as nat) + ",\"heap\":{\"total_free_bytes\":"@
        + text::decimal(free as nat) + ",\"total_used_bytes\":"@ + text::decimal(used as nat)
        + ",\"total_allocated_bytes\":"@ + text::decimal(used as nat) + ",\"capacity_bytes\":"@
        + text::decimal((free + used) as nat) + ",\"min_ever_free_bytes\":"@ + text::decimal(
        match snap.diagnostics.min_free_heap_bytes {
            Some(n) => n as nat,
            None => 0,
        },
    ) + "},\"reset_reason\":\""@ + (match snap.diagnostics.reset_reason {
        Some(r) => r@,
        None => "unknown"@,
    }) + "\",\"fw\":\"wc-nostd\"}"@
}

pub fn diag_json(snap: &DeviceSnapshot, uptime_s: u64, free: usize, used: usize) -> (json: String)
    requires
        free + used <= usize::MAX,
    ensures
        json@ == diag_text(*snap, uptime_s, free, used),
{
    let min_free: u32 = match snap.diagnostics.min_free_heap_bytes {
        Some(n) => n,
        None => 0,
    };
    let reset = match &snap.diagnostics.reset_reason {
        Some(r) => r.as_str(),
        None => "unknown",
    };
    let mut json = "{\"uptime_s\":".to_owned();
    json.append(text::decimal_u64(uptime_s).as_str());
    json.append(",\"heap\":{\"total_free_bytes\":");
    json.append(text::decimal_u64(free as u64).as_str());
    json.append(",\"total_used_bytes\":");
    json.append(text::decimal_u64(used as u64).as_str());
    json.append(",\"total_allocated_bytes\":");
    json.append(text::decimal_u64(used as u64).as_str());
    json.append(",\"capacity_bytes\":");
    json.append(text::decimal_u64((free + used) as u64).as_str());
    json.append(",\"min_ever_free_bytes\":");
    json.append(text::decimal_u64(min_free as u64).as_str());
    json.append("},\"reset_reason\":\"");
    json.append(reset);
    json.append("\",\"fw\":\"wc-nostd\"}");
    json
}

/// What a reading request is answered. `all` asks for the secrets too.
pub open spec fn got(
    m: app::AppModel,
    seg: Seq<char>,
    all: bool,
    uptime_s: u64,
    free: usize,
    used: usize,
) -> ApiRespView {
    if seg == "diag"@ {
        ApiRespView::Json(diag_text(m.state, uptime_s, free, used))
    } else if seg == "status"@ {
        ApiRespView::Status(m.state)
    } else if seg == "config"@ {
        if all {
            ApiRespView::FullConfig(m.config)
        } else {
            ApiRespView::RedactedConfig(m.config.redacted())
        }
    } else {
        ApiRespView::Json(NOT_FOUND@)
    }
}

pub fn api_get(
    seg: &str,
    app: &App,
    all: bool,
    uptime_s: u64,
    free: usize,
    used: usize,
) -> (r: ApiResp)
    requires
        free + used <= usize::MAX,
    ensures
        r@ == got(app@, seg@, all, uptime_s, free, used),
{
    if text::same(seg, "diag") {
        ApiResp::Json(diag_json(&app.snapshot(), uptime_s, free, used))
    } else if text::same(seg, "status") {
        ApiResp::Status(app.snapshot())
    } else if text::same(seg, "config") {
        let cfg = app.config();
        if all {
            ApiResp::Stream(JsonView::FullConfig(cfg.clone()))
        } else {
            ApiResp::Stream(JsonView::RedactedConfig(cfg.redact_secrets_for_api()))
        }
    } else {
        ApiResp::Json(NOT_FOUND.to_owned())
    }
}

/// An error in a JSON text.
pub open spec fn error_text(what: Seq<char>, error: Seq<char>) -> Seq<char> {
    "{\"error\":\""@ + what + error + "\"}"@
}

fn error_reply(what: &str, error: &str) -> (json: String)
    ensures
        json@ == error_text(what@, error@),
{
    let mut json = "{\"error\":\"".to_owned();
    json.append(what);
    json.append(error);
    json.append("\"}");
    json
}

/// What a writing request leads to.
pub enum PutStep {
    /// The answer; nothing else happens.
    Answer(String),
    /// The configuration to store, and then to hand to [`finish_put`].
    Save(Config),
}

/// A step by its contents.
pub enum PutStepView {
    Answer(Seq<char>),
    Save(config::ConfigView),
}

impl View for PutStep {
    type V = PutStepView;

    open spec fn view(&self) -> PutStepView {
        match *self {
            PutStep::Answer(s) => PutStepView::Answer(s@),
            PutStep::Save(c) => PutStepView::Save(c@),
        }
    }
}

/// What the parser made of a configuration.
pub open spec fn parsed_view(parsed: Result<Config, String>) -> Result<
    config::ConfigView,
    Seq<char>,
> {
    match parsed {
        Ok(c) => Ok(c@),
        Err(e) => Err(e@),
    }
}

/// A new configuration is stored with the secrets that it left blank filled in,
/// and with no more webhook targets than there may be.
pub open spec fn accepted_or_refused(
    parsed: Result<config::ConfigView, Seq<char>>,
    what: Seq<char>,
    current: config::ConfigView,
) -> PutStepView {
    match parsed {
        Ok(incoming) => PutStepView::Save(incoming.restored(current).capped()),
        Err(e) => PutStepView::Answer(error_text(what, e)),
    }
}

fn accept_or_refuse(parsed: Result<Config, String>, what: &str, current: &Config) -> (step: PutStep)
    ensures
        step@ == accepted_or_refused(parsed_view(parsed), what@, current@),
{
    match parsed {
        Ok(incoming) => {
            let mut cfg = incoming;
            cfg.restore_secrets_from(current);
            cfg.cap_webhooks();
            PutStep::Save(cfg)
        },
        Err(e) => PutStep::Answer(error_reply(what, e.as_str())),
    }
}

pub fn api_put(seg: &str, parsed: Result<Config, String>, current: &Config) -> (step: PutStep)
    ensures
        step@ == (if seg@ == "config"@ {
            accepted_or_refused(parsed_view(parsed), "bad config json: "@, current@)
        } else {
            PutStepView::Answer(NOT_FOUND@)
        }),
{
    if text::same(seg, "config") {
        accept_or_refuse(parsed, "bad config json: ", current)
    } else {
        PutStep::Answer(NOT_FOUND.to_owned())
    }
}

/// Puts a configuration to use once it is stored. Where storing failed, with
/// the error given, nothing changes.
pub fn finish_put(app: &mut App, cfg: Config, failed: Option<&str>) -> (answer: String)
    ensures
        failed matches Some(e) ==> answer@ == error_text("nvs save failed: "@, e@) && final(app)@
            == old(app)@,
        failed is None ==> answer@ == RESULT_OK@ && final(app)@ == old(app)@.configured(cfg@),
{
    match failed {
        Some(e) => error_reply("nvs save failed: ", e),
        None => {
            app.replace_config(cfg);
            RESULT_OK.to_owned()
        },
    }
}

/// What a request to act leads to.
#[derive(Debug, PartialEq, Eq)]
pub enum PostStep {
    /// The answer.
    Answer(String),
    /// Remove the stored configuration, then answer what [`finish_erase`] gives.
    Erase,
}

/// A step by its contents.
pub enum PostStepView {
    Answer(Seq<char>),
    Erase,
}

impl View for PostStep {
    type V = PostStepView;

    open spec fn view(&self) -> PostStepView {
        match *self {
            PostStep::Answer(s) => PostStepView::Answer(s@),
            PostStep::Erase => PostStepView::Erase,
        }
    }
}

/// Carries out a request to act. The body counts only where a switch is asked
/// for.
pub fn api_post(
    seg: &str,
    app: &mut App,
    now_ms: u64,
    parsed: Result<SwitchCommand, String>,
) -> (step: PostStep)
    ensures
        seg@ == "switch"@ ==> (match parsed {
            Ok(cmd) => {
                &&& final(app)@ == old(app)@.command(now_ms, cmd)
                &&& step@ == PostStepView::Answer(
                    if old(app)@.refuses(cmd) {
                        api::busy_json("valve sequence in progress"@)
                    } else {
                        api::accepted_json()
                    },
                )
            },
            Err(e) => final(app)@ == old(app)@ && step@ == PostStepView::Answer(
                error_text("bad switch command: "@, e@),
            ),
        }),
        seg@ != "switch"@ ==> final(app)@ == old(app)@ && step@ == (if seg@ == "factory_reset"@ {
            PostStepView::Erase
        } else {
            PostStepView::Answer(NOT_FOUND@)
        }),
{
    if text::same(seg, "switch") {
        match parsed {
            Ok(cmd) => {
                let outcome = app.switch_command(now_ms, cmd);
                PostStep::Answer(outcome.to_json())
            },
            Err(e) => PostStep::Answer(error_reply("bad switch command: ", e.as_str())),
        }
    } else if text::same(seg, "factory_reset") {
        PostStep::Erase
    } else {
        PostStep::Answer(NOT_FOUND.to_owned())
    }
}

/// The answer after an attempt to remove the configuration, and whether the
/// device restarts.
#[derive(Debug, PartialEq, Eq)]
pub struct EraseReply {
    pub answer: String,
    pub reboot: bool,
}

pub fn finish_erase(failed: Option<&str>) -> (r: EraseReply)
    ensures
        r.reboot == (failed is None),
        r.answer@ == (match failed {
            Some(e) => error_text("erase failed: "@, e@),
            None => "{\"result\":\"ok\",\"detail\":\"rebooting\"}"@,
        }),
{
    match failed {
        Some(e) => EraseReply { answer: error_reply("erase failed: ", e), reboot: false },
        None => EraseReply {
            answer: "{\"result\":\"ok\",\"detail\":\"rebooting\"}".to_owned(),
            reboot: true,
        },
    }
}

/// The answer where no scan is made.
pub fn wifi_get(action: &str) -> (answer: String)
    ensures
        answer@ == (if action@ == "scan"@ {
            "{\"networks\":[]}"@
        } else {
            NOT_FOUND@
        }),
{
    if text::same(action, "scan") {
        "{\"networks\":[]}".to_owned()
    } else {
        NOT_FOUND.to_owned()
    }
}

/// A request to connect again is accepted and does nothing.
pub fn wifi_post(action: &str) -> (r: ApiResp)
    ensures
        r@ == (if action@ == "reconnect"@ {
            ApiRespView::NoContent
        } else {
            ApiRespView::Json(NOT_FOUND@)
        }),
{
    if text::same(action, "reconnect") {
        ApiResp::NoContent
    } else {
        ApiResp::Json(NOT_FOUND.to_owned())
    }
}

/// Clears the alarm where that is asked for.
pub fn alarm_post(action: &str, app: &mut App) -> (r: ApiResp)
    ensures
        action@ == "clear"@ ==> r@ == ApiRespView::NoContent && final(app)@ == old(
            app,
        )@.alarm_cleared(),
        action@ != "clear"@ ==> r@ == ApiRespView::Json(NOT_FOUND@) && final(app)@ == old(app)@,
{
    if text::same(action, "clear") {
        app.clear_flow_alarm();
        ApiResp::NoContent
    } else {
        ApiResp::Json(NOT_FOUND.to_owned())
    }
}

/// A request to emit an event.
pub struct TestRequest {
    pub kind: EventKind,
    pub vars: StringMap<String>,
}

/// The answer to such a request, and the event to emit.
pub struct TestReply {
    pub answer: String,
    pub event: Option<WebhookEvent>,
}

/// Emits an event for a test of the targets.
pub fn webhooks_post(action: &str, parsed: Result<TestRequest, String>) -> (r: TestReply)
    ensures
        r.answer@ == (if action@ != "test"@ {
            NOT_FOUND@
        } else {
            match parsed {
                Ok(_) => RESULT_OK@,
                Err(e) => error_text("bad json: "@, e@),
            }
        }),
        r.event is Some == (action@ == "test"@ && parsed is Ok),
        r.event is Some ==> r.event->0.kind == parsed->Ok_0.kind && r.event->0.vars
            == parsed->Ok_0.vars,
{
    if !text::same(action, "test") {
        return TestReply { answer: NOT_FOUND.to_owned(), event: None };
    }
    match parsed {
        Ok(request) => {
            let event = WebhookEvent { kind: request.kind, vars: request.vars };
            TestReply { answer: RESULT_OK.to_owned(), event: Some(event) }
        },
        Err(e) => TestReply { answer: error_reply("bad json: ", e.as_str()), event: None },
    }
}

/// One section of the configuration, secrets left blank.
pub fn config_section_get(section: &str, app: &App) -> (r: ApiResp)
    ensures
        forall|s: Section| #[trigger] s.name() == section@ ==> r@ == ApiRespView::Section(
            app@.config.redacted(),
            s,
        ),
        (forall|s: Section| (#[trigger] s.name()) != section@) ==> r@ == ApiRespView::Json(
            UNKNOWN_SECTION@,
        ),
{
    match Section::parse(section) {
        Some(s) => {
            proof {
                assert forall|t: Section| #[trigger] t.name() == section@ implies t == s by {
                    names_identify_sections(s, t);
                }
            }
            ApiResp::Stream(JsonView::Section(app.config().redact_secrets_for_api(), s))
        },
        None => ApiResp::Json(UNKNOWN_SECTION.to_owned()),
    }
}

/// What a section body leads to.
pub enum Overlaid {
    /// The answer; nothing else happens.
    Answer(String),
    /// The whole configuration with the body laid over one section. What the
    /// parser makes of it goes to [`config_section_put`].
    Merged(Json),
}

/// A section body by its contents.
pub enum OverlaidView {
    Answer(Seq<char>),
    Merged(JsonModel),
}

impl View for Overlaid {
    type V = OverlaidView;

    open spec fn view(&self) -> OverlaidView {
        match *self {
            Overlaid::Answer(s) => OverlaidView::Answer(s@),
            Overlaid::Merged(j) => OverlaidView::Merged(j@),
        }
    }
}

/// What a parsed section body leads to: it is laid over its section of the
/// current configuration, where that could be written as JSON and has one.
pub open spec fn overlaid(
    full: Option<JsonModel>,
    section: Seq<char>,
    body: Result<JsonModel, Seq<char>>,
) -> OverlaidView {
    match body {
        Err(e) => OverlaidView::Answer(error_text("bad json: "@, e)),
        Ok(m) => match full {
            None => OverlaidView::Answer("{\"error\":\"config serialize failed\"}"@),
            Some(f) => match json_tree::with_section(f, section, m) {
                Some(t) => OverlaidView::Merged(t),
                None => OverlaidView::Answer(UNKNOWN_SECTION@),
            },
        },
    }
}

/// Lays a section body that was parsed over the current configuration.
pub fn overlay_parsed(full: Option<Json>, section: &str, body: Result<Json, String>) -> (r:
    Overlaid)
    ensures
        r@ == overlaid(
            match full {
                Some(f) => Some(f@),
                None => None,
            },
            section@,
            json_tree::parsed_view(body),
        ),
{
    match body {
        Err(e) => Overlaid::Answer(error_reply("bad json: ", e.as_str())),
        Ok(incoming) => match full {
            None => Overlaid::Answer("{\"error\":\"config serialize failed\"}".to_owned()),
            Some(f) => match json_tree::merge_section(f, section, &incoming) {
                Some(merged) => Overlaid::Merged(merged),
                None => Overlaid::Answer(UNKNOWN_SECTION.to_owned()),
            },
        },
    }
}

/// Lays a section body over the current configuration, which is given as JSON
/// where it could be written so.
pub fn overlay_section(full: Option<Json>, section: &str, body: &[u8]) -> (r: Overlaid)
    ensures
        match json_tree::json_parsed(body@) {
            Err(e) => r matches Overlaid::Answer(s) && s@ == error_text("bad json: "@, e),
            Ok(m) => match full {
                None => r matches Overlaid::Answer(s) && s@
                    == "{\"error\":\"config serialize failed\"}"@,
                Some(f) => match json_tree::with_section(f@, section@, m) {
                    Some(t) => r matches Overlaid::Merged(j) && j@ == t,
                    None => r matches Overlaid::Answer(s) && s@ == UNKNOWN_SECTION@,
                },
            },
        },
{
    overlay_parsed(full, section, json_tree::parse_json(body))
}

/// What the parser made of a configuration with a body laid over a section is
/// stored, or answered with an error.
pub fn config_section_put(parsed: Result<Config, String>, current: &Config) -> (step: PutStep)
    ensures
        step@ == accepted_or_refused(parsed_view(parsed), "invalid config: "@, current@),
{
    accept_or_refuse(parsed, "invalid config: ", current)
}

/// Whatever is sent, no more than the most webhook targets are stored.
pub proof fn stored_targets_are_few(
    parsed: Result<config::ConfigView, Seq<char>>,
    what: Seq<char>,
    current: config::ConfigView,
)
    ensures
        accepted_or_refused(parsed, what, current) matches PutStepView::Save(c) ==> c.webhooks.len()
            <= WEBHOOKS_MAX,
{
}

/// What follows the first question mark of an address.
pub open spec fn query_of(uri: Seq<char>) -> Seq<char> {
    let i = text::first_index(uri, '?');
    if 0 <= i < uri.len() {
        uri.skip(i + 1)
    } else {
        Seq::empty()
    }
}

/// The flag `all` stands among the parts of the query, with or without a value.
pub open spec fn asks_for_all(uri: Seq<char>) -> bool {
    exists|k: int|
        0 <= k < text::split_at_char(query_of(uri), '&').len() && text::split_at_char(
            #[trigger] text::split_at_char(query_of(uri), '&')[k],
            '=',
        )[0] == "all"@
}

/// Whether a request for the configuration asks for the secrets too, by its
/// address.
pub fn wants_all(uri: &str) -> (r: bool)
    ensures
        r == asks_for_all(uri@),
{
    let chars: Vec<char> = text::chars_of(uri);
    let i: usize = text::find_first(chars.as_slice(), '?');
    proof {
        text::first_index_is_first(uri@, '?');
    }
    let query = if i < chars.len() {
        text::substring(chars.as_slice(), i + 1, chars.len())
    } else {
        String::new()
    };
    assert(query@ =~= query_of(uri@));
    let parts: Vec<String> = text::split(query.as_str(), '&');
    let ghost want = text::split_at_char(query_of(uri@), '&');
    let mut k: usize = 0;
    while k < parts.len()
        invariant
            k <= parts@.len(),
            text::texts(parts@) == want,
            want == text::split_at_char(query_of(uri@), '&'),
            forall|j: int| 0 <= j < k ==> text::split_at_char(#[trigger] want[j], '=')[0] != "all"@,
        decreases parts@.len() - k,
    {
        assert(want[k as int] == parts@[k as int]@);
        let sides: Vec<String> = text::split(parts[k].as_str(), '=');
        proof {
            split_is_never_empty(want[k as int], '=');
            assert(text::texts(sides@)[0] == sides@[0]@);
        }
        if text::same(sides[0].as_str(), "all") {
            return true;
        }
        k += 1;
    }
    assert(want.len() == parts@.len());
    false
}

proof fn split_is_never_empty(s: Seq<char>, c: char)
    ensures
        text::split_at_char(s, c).len() > 0,
{
}

/// Unless everything is asked for, no secret leaves the device.
pub proof fn reading_hides_secrets(
    m: app::AppModel,
    seg: Seq<char>,
    uptime_s: u64,
    free: usize,
    used: usize,
)
    ensures
        got(m, seg, false, uptime_s, free, used) matches ApiRespView::RedactedConfig(c) ==> c
            == m.config.redacted(),
        !(got(m, seg, false, uptime_s, free, used) is FullConfig),
{
}

/// A client that reads the configuration and writes back what it read changes
/// nothing, provided that networks of one name have one password.
pub proof fn reading_and_writing_back_changes_nothing(current: config::ConfigView)
    requires
        config::same_name_same_password(current.wifi.networks),
        current.webhooks.len() <= WEBHOOKS_MAX,
    ensures
        accepted_or_refused(Ok(current.redacted()), "bad config json: "@, current)
            == PutStepView::Save(current),
{
    config::redacted_round_trip(current);
}

/// A whole configuration that was read with its secrets and is written back
/// comes back as it was: on a device that has no secrets of its own, and on the
/// device it was read from, provided that networks of one name have one
/// password there.
pub proof fn backup_restores(dump: config::ConfigView, current: config::ConfigView)
    requires
        dump.webhooks.len() <= WEBHOOKS_MAX,
    ensures
        current == current.redacted() ==> accepted_or_refused(
            Ok(dump),
            "bad config json: "@,
            current,
        ) == PutStepView::Save(dump),
        config::same_name_same_password(dump.wifi.networks) ==> accepted_or_refused(
            Ok(dump),
            "bad config json: "@,
            dump,
        ) == PutStepView::Save(dump),
{
    if current == current.redacted() {
        config::blank_secrets_add_nothing(dump, current);
    }
    if config::same_name_same_password(dump.wifi.networks) {
        config::own_secrets_add_nothing(dump);
    }
}

/// The names of the sections are those of the members of the configuration.
pub proof fn sections_are_named_as_members(s: Section)
    ensures
        s.name() == (match s {
            Section::Wifi => "wifi"@,
            Section::Mqtt => "mqtt"@,
            Section::Https => "https"@,
            Section::Switches => "switches"@,
            Section::Sensors => "sensors"@,
            Section::FlowAlarm => "flow_alarm"@,
            Section::Timezone => "timezone"@,
            Section::SntpServers => "sntp_servers"@,
            Section::Schedule => "schedule"@,
            Section::Wireguard => "wireguard"@,
            Section::AdminToken => "admin_token"@,
            Section::Webhooks => "webhooks"@,
        }),
{
}

/// Below `/api` a name is read, written or acted on by the method, below a group
/// it goes to that group, and the three paths that stand for themselves go
/// nowhere else. A name is at most 24 bytes long and holds no slash.
pub proof fn paths_lead_to_their_routes(method: Method, name: Seq<char>)
    requires
        forall|i: int| 0 <= i < name.len() ==> #[trigger] name[i] != '/',
        vstd::utf8::encode_utf8(name).len() <= 24,
        name != "ota"@,
    ensures
        method == Method::Get ==> route_at(method, "/api/"@ + name) == Some(RouteView::Read(name)),
        method == Method::Put ==> route_at(method, "/api/"@ + name) == Some(RouteView::Write(name)),
        method == Method::Post ==> route_at(method, "/api/"@ + name) == Some(RouteView::Act(name)),
        method == Method::Get ==> route_at(method, "/api/config/"@ + name) == Some(
            RouteView::ReadSection(name),
        ),
        method == Method::Get ==> route_at(method, "/api/wifi/"@ + name) == Some(
            RouteView::ReadWifi(name),
        ),
        method == Method::Put ==> route_at(method, "/api/config/"@ + name) == Some(
            RouteView::WriteSection(name),
        ),
        method == Method::Post ==> route_at(method, "/api/wifi/"@ + name) == Some(
            RouteView::ActWifi(name),
        ),
        method == Method::Post ==> route_at(method, "/api/alarm/"@ + name) == Some(
            RouteView::ActAlarm(name),
        ),
        method == Method::Post ==> route_at(method, "/api/webhooks/"@ + name) == Some(
            RouteView::ActWebhooks(name),
        ),
        method != Method::Get && method != Method::Put ==> route_at(method, "/api/config/"@ + name)
            is None,
        method == Method::Put ==> route_at(method, "/api/wifi/"@ + name) is None,
        route_at(Method::Get, "/"@) == Some(RouteView::Index),
        route_at(Method::Get, "/ws/logs"@) == Some(RouteView::Logs),
        route_at(Method::Post, "/api/ota"@) == Some(RouteView::Upload),
        method != Method::Post ==> route_at(method, "/api/ota"@) is None,
{
    reveal_strlit("/");
    reveal_strlit("/ws/logs");
    reveal_strlit("/api/ota");
    reveal_strlit("api");
    reveal_strlit("ota");
    reveal_strlit("/api/");
    let path = "/api/"@ + name;
    assert(path =~= Seq::<char>::empty() + seq!['/'] + ("api"@ + seq!['/'] + name));
    text::parts_stand_between_separators(Seq::empty(), "api"@ + seq!['/'] + name, '/');
    text::parts_stand_between_separators("api"@, name, '/');
    text::parts_stand_between_separators(name, name, '/');
    let parts = text::split_at_char(path, '/');
    assert(parts =~= seq![Seq::<char>::empty(), "api"@, name]);
    assert(path[1] == 'a' && "/ws/logs"@[1] == 'w' && path.len() >= 5 && "/"@.len() == 1);
    assert(path != "/api/ota"@) by {
        if path == "/api/ota"@ {
            assert("/api/ota"@.skip(5) =~= "ota"@);
            assert(path.skip(5) =~= name);
        }
    }
    reveal_strlit("config");
    reveal_strlit("wifi");
    reveal_strlit("alarm");
    reveal_strlit("webhooks");
    reveal_strlit("/api/config/");
    reveal_strlit("/api/wifi/");
    reveal_strlit("/api/alarm/");
    reveal_strlit("/api/webhooks/");
    assert("config"@.len() == 6 && "wifi"@.len() == 4 && "alarm"@.len() == 5 && "webhooks"@.len()
        == 8);
    group_is_found("/api/config/"@, "config"@, name);
    group_is_found("/api/wifi/"@, "wifi"@, name);
    group_is_found("/api/alarm/"@, "alarm"@, name);
    group_is_found("/api/webhooks/"@, "webhooks"@, name);
}

proof fn group_is_found(prefix: Seq<char>, group: Seq<char>, name: Seq<char>)
    requires
        forall|i: int| 0 <= i < name.len() ==> #[trigger] name[i] != '/',
        forall|i: int| 0 <= i < group.len() ==> #[trigger] group[i] != '/',
        group.len() >= 4,
        prefix =~= "/api/"@ + group + "/"@,
    ensures
        text::split_at_char(prefix + name, '/') == seq![Seq::<char>::empty(), "api"@, group, name],
        prefix + name != "/"@,
        prefix + name != "/ws/logs"@,
        prefix + name != "/api/ota"@,
{
    reveal_strlit("/");
    reveal_strlit("/ws/logs");
    reveal_strlit("/api/ota");
    reveal_strlit("api");
    reveal_strlit("/api/");
    let path = prefix + name;
    let last = group + seq!['/'] + name;
    let rest = "api"@ + seq!['/'] + last;
    assert(path =~= Seq::<char>::empty() + seq!['/'] + rest);
    text::parts_stand_between_separators(Seq::empty(), rest, '/');
    text::parts_stand_between_separators("api"@, last, '/');
    text::parts_stand_between_separators(group, name, '/');
    text::parts_stand_between_separators(name, name, '/');
    assert(text::split_at_char(path, '/') =~= seq![Seq::<char>::empty(), "api"@, group, name]);
    assert(path.len() >= 10 && "/"@.len() == 1 && "/ws/logs"@.len() == 8 && "/api/ota"@.len() == 8);
}

/// A longer name than 24 bytes leads nowhere.
pub proof fn long_names_lead_nowhere(method: Method, name: Seq<char>)
    requires
        forall|i: int| 0 <= i < name.len() ==> #[trigger] name[i] != '/',
        vstd::utf8::encode_utf8(name).len() > 24,
        name.len() > 3,
    ensures
        route_at(method, "/api/"@ + name) is None,
{
    reveal_strlit("/");
    reveal_strlit("/ws/logs");
    reveal_strlit("/api/ota");
    reveal_strlit("api");
    reveal_strlit("/api/");
    let path = "/api/"@ + name;
    assert(path =~= Seq::<char>::empty() + seq!['/'] + ("api"@ + seq!['/'] + name));
    text::parts_stand_between_separators(Seq::empty(), "api"@ + seq!['/'] + name, '/');
    text::parts_stand_between_separators("api"@, name, '/');
    text::parts_stand_between_separators(name, name, '/');
    assert(text::split_at_char(path, '/') =~= seq![Seq::<char>::empty(), "api"@, name]);
    assert(path.len() >= 9 && "/"@.len() == 1 && "/ws/logs"@.len() == 8 && "/api/ota"@.len() == 8);
}

/// Status and diagnostics are of the current state, the configuration is shown
/// without its secrets unless everything is asked for, and other names are
/// answered with an error.
pub proof fn reading_shows_what_is_asked_for(
    m: app::AppModel,
    seg: Seq<char>,
    all: bool,
    uptime_s: u64,
    free: usize,
    used: usize,
)
    ensures
        ({
            let r = got(m, seg, all, uptime_s, free, used);
            &&& r is Status <==> seg == "status"@
            &&& r is FullConfig <==> seg == "config"@ && all
            &&& r is RedactedConfig <==> seg == "config"@ && !all
            &&& r matches ApiRespView::Status(s) ==> s == m.state
            &&& r matches ApiRespView::FullConfig(c) ==> c == m.config
            &&& r matches ApiRespView::RedactedConfig(c) ==> {
                &&& c.mqtt.password.len() == 0 && c.admin_token.len() == 0
                &&& c.mqtt.base_topic == m.config.mqtt.base_topic
                &&& c.switches == m.config.switches && c.schedule == m.config.schedule
            }
            &&& seg == "diag"@ ==> r == ApiRespView::Json(diag_text(m.state, uptime_s, free, used))
            &&& seg != "diag"@ && seg != "status"@ && seg != "config"@ ==> r == ApiRespView::Json(
                "{\"error\":\"unknown endpoint\"}"@,
            )
        }),
{
    reveal_strlit("diag");
    reveal_strlit("status");
    reveal_strlit("config");
    assert("diag"@.len() == 4 && "status"@.len() == 6 && "config"@.len() == 6);
    assert("status"@[0] != "config"@[0]);
}

/// What is stored of a new configuration is what came, but for blank secrets,
/// which stay as they are stored, and for webhook targets past the fourth. What
/// could not be parsed is answered with its error and stores nothing.
pub proof fn new_configuration_is_stored_as_it_came(
    incoming: config::ConfigView,
    error: Seq<char>,
    what: Seq<char>,
    current: config::ConfigView,
)
    ensures
        accepted_or_refused(Err(error), what, current) == PutStepView::Answer(
            "{\"error\":\""@ + what + error + "\"}"@,
        ),
        accepted_or_refused(Ok(incoming), what, current) matches PutStepView::Save(c) && {
            &&& c.switches == incoming.switches && c.sensors == incoming.sensors
            &&& c.flow_alarm == incoming.flow_alarm && c.schedule == incoming.schedule
            &&& c.timezone == incoming.timezone && c.sntp_servers == incoming.sntp_servers
            &&& c.wifi.hostname == incoming.wifi.hostname
            &&& c.mqtt.broker_url == incoming.mqtt.broker_url
            &&& c.mqtt.enabled == incoming.mqtt.enabled
            &&& c.webhooks.len() <= 4 && c.webhooks.is_prefix_of(incoming.webhooks)
            &&& incoming.admin_token.len() == 0 ==> c.admin_token == current.admin_token
            &&& incoming.admin_token.len() > 0 ==> c.admin_token == incoming.admin_token
            &&& incoming.mqtt.password.len() == 0 ==> c.mqtt.password == current.mqtt.password
        },
{
    config::blank_secrets_stay_as_stored(incoming, current);
    config::four_targets_are_kept(incoming.restored(current));
    config::new_secrets_win(incoming, current);
}

/// Everything is asked for where `all` is one of the names behind the question
/// mark, with or without a value, and nowhere else.
pub proof fn all_is_asked_for_by_name(
    path: Seq<char>,
    key: Seq<char>,
    value: Seq<char>,
    more: Seq<char>,
)
    requires
        forall|i: int| 0 <= i < path.len() ==> #[trigger] path[i] != '?',
        forall|i: int| 0 <= i < key.len() ==> #[trigger] key[i] != '=' && key[i] != '&',
        forall|i: int| 0 <= i < value.len() ==> #[trigger] value[i] != '&',
    ensures
        !asks_for_all(path),
        asks_for_all(path + seq!['?'] + key) <==> key == "all"@,
        asks_for_all(path + seq!['?'] + (key + seq!['='] + value)) <==> key == "all"@,
        asks_for_all(path + seq!['?'] + (key + seq!['&'] + more)) <==> key == "all"@ || asks_for_all(
            path + seq!['?'] + more,
        ),
{
    reveal_strlit("all");
    text::first_index_is_first(path, '?');
    assert(query_of(path) =~= Seq::<char>::empty());
    text::parts_stand_between_separators(Seq::empty(), more, '&');
    text::parts_stand_between_separators(Seq::empty(), more, '=');
    assert(text::split_at_char(text::split_at_char(query_of(path), '&')[0], '=')[0].len() == 0);
    query_is_found(path, key);
    query_is_found(path, key + seq!['='] + value);
    query_is_found(path, key + seq!['&'] + more);
    query_is_found(path, more);
    let pair = key + seq!['='] + value;
    assert forall|i: int| 0 <= i < pair.len() implies #[trigger] pair[i] != '&' by {
        if i < key.len() {
            assert(pair[i] == key[i]);
        } else if i > key.len() {
            assert(pair[i] == value[i - key.len() - 1]);
        }
    }
    text::parts_stand_between_separators(key, more, '&');
    text::parts_stand_between_separators(pair, more, '&');
    text::parts_stand_between_separators(key, value, '=');
    let a = path + seq!['?'] + key;
    let b = path + seq!['?'] + pair;
    assert(text::split_at_char(query_of(a), '&')[0] == key);
    assert(text::split_at_char(query_of(b), '&')[0] == pair);
    let c = path + seq!['?'] + (key + seq!['&'] + more);
    let d = path + seq!['?'] + more;
    let pc = text::split_at_char(query_of(c), '&');
    let pd = text::split_at_char(query_of(d), '&');
    assert(pc == seq![key] + pd);
    assert(pc[0] == key);
    if asks_for_all(c) {
        let k = choose|k: int|
            0 <= k < pc.len() && text::split_at_char(#[trigger] pc[k], '=')[0] == "all"@;
        if k > 0 {
            assert(pc[k] == pd[k - 1]);
        }
    }
    if asks_for_all(d) {
        let k = choose|k: int|
            0 <= k < pd.len() && text::split_at_char(#[trigger] pd[k], '=')[0] == "all"@;
        assert(pc[k + 1] == pd[k]);
    }
}

proof fn query_is_found(path: Seq<char>, query: Seq<char>)
    requires
        forall|i: int| 0 <= i < path.len() ==> #[trigger] path[i] != '?',
    ensures
        query_of(path + seq!['?'] + query) == query,
{
    let uri = path + seq!['?'] + query;
    text::first_index_is_first(uri, '?');
    let f = text::first_index(uri, '?');
    assert(uri[path.len() as int] == '?');
    if f < path.len() {
        assert(uri[f] == path[f]);
    }
    assert(uri.skip(path.len() as int + 1) =~= query);
}

/// The diagnostics show each number under its own name: the uptime, what is
/// free, what is used, both together, the least that was ever free, and then why
/// the device was reset.
pub proof fn diagnostics_name_their_numbers(
    snap: DeviceSnapshot,
    uptime_s: u64,
    free: usize,
    used: usize,
)
    ensures
        ({
            let least = match snap.diagnostics.min_free_heap_bytes {
                Some(n) => n as nat,
                None => 0,
            };
            let why = match snap.diagnostics.reset_reason {
                Some(r) => r@,
                None => "unknown"@,
            };
            let a = "{\"uptime_s\":"@ + text::decimal(uptime_s as nat);
            let b = ",\"heap\":{\"total_free_bytes\":"@ + text::decimal(free as nat);
            let c = ",\"total_used_bytes\":"@ + text::decimal(used as nat);
            let d = ",\"total_allocated_bytes\":"@ + text::decimal(used as nat);
            let e = ",\"capacity_bytes\":"@ + text::decimal((free + used) as nat);
            let f = ",\"min_ever_free_bytes\":"@ + text::decimal(least);
            let g = "},\"reset_reason\":\""@ + why + "\",\"fw\":\"wc-nostd\"}"@;
            diag_text(snap, uptime_s, free, used) == a + (b + (c + (d + (e + (f + g)))))
        }),
{
    let least = match snap.diagnostics.min_free_heap_bytes {
        Some(n) => n as nat,
        None => 0,
    };
    let why = match snap.diagnostics.reset_reason {
        Some(r) => r@,
        None => "unknown"@,
    };
    let a = "{\"uptime_s\":"@ + text::decimal(uptime_s as nat);
    let b = ",\"heap\":{\"total_free_bytes\":"@ + text::decimal(free as nat);
    let c = ",\"total_used_bytes\":"@ + text::decimal(used as nat);
    let d = ",\"total_allocated_bytes\":"@ + text::decimal(used as nat);
    let e = ",\"capacity_bytes\":"@ + text::decimal((free + used) as nat);
    let f = ",\"min_ever_free_bytes\":"@ + text::decimal(least);
    let g = "},\"reset_reason\":\""@ + why + "\",\"fw\":\"wc-nostd\"}"@;
    assert(diag_text(snap, uptime_s, free, used) =~= a + (b + (c + (d + (e + (f + g))))));
}

/// Outside of `/api/` only the main page and the log are found.
pub proof fn only_the_interface_is_found(method: Method, path: Seq<char>)
    requires
        route_at(method, path) is Some,
    ensures
        path == "/"@ || path == "/ws/logs"@ || "/api/"@.is_prefix_of(path),
        path == "/"@ || path == "/ws/logs"@ ==> method == Method::Get,
{
    reveal_strlit("/");
    reveal_strlit("/ws/logs");
    reveal_strlit("/api/ota");
    reveal_strlit("/api/");
    reveal_strlit("api");
    assert("/"@.len() == 1 && "/ws/logs"@.len() == 8 && "/api/ota"@.len() == 8);
    if path == "/api/ota"@ {
        assert(path.subrange(0, 5) =~= "/api/"@);
    } else if path != "/"@ && path != "/ws/logs"@ {
        let a = text::first_index(path, '/');
        text::first_index_is_first(path, '/');
        let parts = text::split_at_char(path, '/');
        assert(parts[0] == path.take(a)) by {
            if a == path.len() {
                assert(parts == seq![path]);
            }
        }
        assert(a == 0);
        let rest = path.skip(1);
        assert(parts == seq![path.take(0)] + text::split_at_char(rest, '/'));
        let b = text::first_index(rest, '/');
        text::first_index_is_first(rest, '/');
        assert(parts[1] == text::split_at_char(rest, '/')[0]);
        if b == rest.len() {
            assert(text::split_at_char(rest, '/') == seq![rest]);
            assert(parts.len() == 2);
        }
        assert(rest.take(b) == "api"@);
        assert(b == 3);
        assert(path[1] == rest.take(b)[0] && path[2] == rest.take(b)[1] && path[3] == rest.take(
            b,
        )[2]);
        assert(path[4] == rest[3]);
        assert(path.subrange(0, 5) =~= "/api/"@);
    }
}

} // verus!
