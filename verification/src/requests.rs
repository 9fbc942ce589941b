//! Requests: what a line from a client asks for, what it is answered, and how
//! an operation goes forward as the outside answers.

use vstd::prelude::*;

use crate::daemon::{announced, refreshed, Core, CoreView, Daemon, DaemonView};
use crate::json;
use crate::json::{
    found, json_field, json_flag, json_natural, json_string, json_value, scalar,
};
use crate::operations::{
    abandoned, adb_refreshed, adjusted, applied, coupled, dismissed, previewed, readdressed,
    reaped, refusal, selected, started, stopped, Refusal, RefusalView,
};
use crate::outside::{Act, Answer, AnswerView, Outside, OutsideView};
use crate::plain::{shown, Plain};
use crate::protocol;
use crate::protocol::{answers, error_text, ok_text, ConnectionView, PreviewStyle, MAX_MESSAGE, VERSION};
use crate::text;
use crate::text::{debug_text, decimal, parsed_unsigned};

verus! {

/// What the daemon can be asked to do.
#[derive(Debug)]
pub enum Operation {
    /// Look at the phones.
    Survey,
    /// Look at the phones and at the writer, as is done now and then.
    Watch,
    Refresh,
    Select { serial: String },
    Change { setting: String, json: String },
    Start { stay_awake: bool, style: PreviewStyle },
    Preview { visible: bool, style: PreviewStyle },
    Apply,
    Discard,
    Pair { pair_address: String, code: String, connect_address: String },
    BeginPairing,
    Connect { serial: String, connect_address: String },
    Forget { serial: String },
    Stop,
}

#[verifier::ext_equal]
pub enum OperationView {
    Survey,
    Watch,
    Refresh,
    Select { serial: Seq<char> },
    Change { setting: Seq<char>, json: Seq<char> },
    Start { stay_awake: bool, style: PreviewStyle },
    Preview { visible: bool, style: PreviewStyle },
    Apply,
    Discard,
    Pair { pair_address: Seq<char>, code: Seq<char>, connect_address: Seq<char> },
    BeginPairing,
    Connect { serial: Seq<char>, connect_address: Seq<char> },
    Forget { serial: Seq<char> },
    Stop,
}

impl View for Operation {
    type V = OperationView;

    open spec fn view(&self) -> OperationView {
        match self {
            Operation::Survey => OperationView::Survey,
            Operation::Watch => OperationView::Watch,
            Operation::Refresh => OperationView::Refresh,
            Operation::Select { serial } => OperationView::Select { serial: serial.deep_view() },
            Operation::Change { setting, json } => OperationView::Change {
                setting: setting.deep_view(),
                json: json.deep_view(),
            },
            Operation::Start { stay_awake, style } => OperationView::Start {
                stay_awake: stay_awake.deep_view(),
                style: style.deep_view(),
            },
            Operation::Preview { visible, style } => OperationView::Preview {
                visible: visible.deep_view(),
                style: style.deep_view(),
            },
            Operation::Apply => OperationView::Apply,
            Operation::Discard => OperationView::Discard,
            Operation::Pair { pair_address, code, connect_address } => OperationView::Pair {
                pair_address: pair_address.deep_view(),
                code: code.deep_view(),
                connect_address: connect_address.deep_view(),
            },
            Operation::BeginPairing => OperationView::BeginPairing,
            Operation::Connect { serial, connect_address } => OperationView::Connect {
                serial: serial.deep_view(),
                connect_address: connect_address.deep_view(),
            },
            Operation::Forget { serial } => OperationView::Forget { serial: serial.deep_view() },
            Operation::Stop => OperationView::Stop,
        }
    }
}

impl DeepView for Operation {
    type V = OperationView;

    open spec fn deep_view(&self) -> OperationView {
        self@
    }
}

/// An operation, and how it ends.
pub open spec fn performed(d: DaemonView, operation: OperationView) -> (
    DaemonView,
    Result<(), RefusalView>,
) {
    match operation {
        OperationView::Survey => (refreshed(d).0, Ok(())),
        OperationView::Watch => (reaped(refreshed(d).0), Ok(())),
        OperationView::Refresh => {
            let (d, ok) = adb_refreshed(d);
            (
                d,
                if ok {
                    Ok(())
                } else {
                    refusal("adb_unavailable"@, "adb start-server failed"@)
                },
            )
        },
        OperationView::Select { serial } => selected(d, serial),
        OperationView::Change { setting, json } => adjusted(d, setting, json),
        OperationView::Start { stay_awake, style } => started(d, stay_awake, style),
        OperationView::Preview { visible, style } => previewed(d, visible, style),
        OperationView::Apply => applied(d),
        OperationView::Discard => abandoned(d),
        OperationView::Pair { pair_address, code, connect_address } => coupled(
            d,
            pair_address,
            code,
            connect_address,
        ),
        OperationView::BeginPairing => (
            announced(d, ConnectionView::NeedsPairing, d.core.state.attached),
            Ok(()),
        ),
        OperationView::Connect { serial, connect_address } => readdressed(
            d,
            serial,
            connect_address,
        ),
        OperationView::Forget { serial } => dismissed(d, serial),
        OperationView::Stop => (refreshed(stopped(d)).0, Ok(())),
    }
}

impl Daemon {
    /// Performs an operation, as far as the answers go.
    pub fn perform(&mut self, operation: &Operation) -> (r: Result<(), Refusal>)
        requires
            old(self).core.wf(),
            old(self).core.rev + 8 <= u64::MAX,
        ensures
            final(self).core.wf(),
            final(self).core.rev <= old(self).core.rev + 8,
            (final(self)@, shown(r)) == performed(old(self)@, operation@),
    {
        match operation {
            Operation::Survey => {
                let _ = self.refresh_connection();
                Ok(())
            },
            Operation::Watch => {
                let _ = self.refresh_connection();
                self.reap_capture();
                Ok(())
            },
            Operation::Refresh => {
                if self.refresh_adb() {
                    Ok(())
                } else {
                    Err(
                        Refusal {
                            code: text::of("adb_unavailable"),
                            message: text::of("adb start-server failed"),
                        },
                    )
                }
            },
            Operation::Select { serial } => self.select_phone(serial),
            Operation::Change { setting, json } => self.set_setting(setting, json),
            Operation::Start { stay_awake, style } => self.start_capture(*stay_awake, *style),
            Operation::Preview { visible, style } => self.set_preview(*visible, *style),
            Operation::Apply => self.apply_settings(),
            Operation::Discard => self.discard_settings(),
            Operation::Pair { pair_address, code, connect_address } => self.pair_phone(
                pair_address,
                code,
                connect_address,
            ),
            Operation::BeginPairing => {
                self.begin_pairing();
                Ok(())
            },
            Operation::Connect { serial, connect_address } => self.update_connect_address(
                serial,
                connect_address,
            ),
            Operation::Forget { serial } => self.forget_phone(serial),
            Operation::Stop => {
                self.stop_writer();
                let _ = self.refresh_connection();
                Ok(())
            },
        }
    }
}

// ---------------------------------------------------------------------------
// Going forward

/// The most times that one operation publishes.
pub const PUBLICATIONS: u64 = 8;

/// A daemon that is about to perform an operation with these answers.
pub open spec fn fresh(
    core: CoreView,
    answers: Seq<AnswerView>,
    startup_ms: u64,
    preview_ms: u64,
) -> DaemonView {
    DaemonView {
        core,
        outside: OutsideView {
            answers,
            used: 0,
            waiting: false,
            trace: Seq::empty(),
            startup_ms,
            preview_ms,
        },
    }
}

/// How far an operation has got.
#[derive(Debug)]
pub struct Progress {
    pub core: Core,
    /// Every act so far. The last is the one that waits for an answer, where
    /// there is no result.
    pub trace: Vec<Act>,
    pub result: Option<Result<(), Refusal>>,
}

/// Runs an operation from its beginning with the answers given so far.
pub fn advance(
    core: &Core,
    operation: &Operation,
    answers: Vec<Answer>,
    startup_ms: u64,
    preview_ms: u64,
) -> (r: Progress)
    requires
        core.wf(),
        core.rev + PUBLICATIONS <= u64::MAX,
    ensures
        r.core.wf(),
        ({
            let (d, result) = performed(
                fresh(core@, answers.deep_view(), startup_ms, preview_ms),
                operation@,
            );
            &&& r.core@ == d.core
            &&& r.trace.deep_view() == d.outside.trace
            &&& match r.result {
                Some(own) => !d.outside.waiting && shown(own) == result,
                None => d.outside.waiting,
            }
        }),
{
    let mut daemon = Daemon {
        core: core.copy(),
        outside: Outside::new(answers, startup_ms, preview_ms),
    };
    let result = daemon.perform(operation);
    let waiting = daemon.outside.waiting;
    Progress {
        core: daemon.core,
        trace: daemon.outside.trace,
        result: if waiting {
            None
        } else {
            Some(result)
        },
    }
}

// ---------------------------------------------------------------------------
// Lines

/// What is to be done with what was read of a client's line.
pub enum Frame {
    /// The client is done, or stopped in the middle of a line.
    End,
    /// The line is too long: it is answered, and the client is done.
    Last { message: String },
    /// A whole request.
    Request,
}

pub open spec fn too_large() -> Seq<char> {
    "request exceeds "@ + decimal(MAX_MESSAGE as nat) + " bytes"@
}

/// Decides what to do with what was read up to a newline, to the end or to one
/// byte past the longest line.
pub fn frame(line: &Vec<u8>, rev: u64) -> (r: Frame)
    ensures
        match r {
            Frame::Last { message } => line.len() > MAX_MESSAGE && message@ == error_text(
                "null"@,
                rev,
                "message_too_large"@,
                too_large(),
            ),
            Frame::Request => 0 < line.len() <= MAX_MESSAGE && line@.last() == 10,
            Frame::End => line.len() == 0 || (line.len() <= MAX_MESSAGE && line@.last() != 10),
        },
{
    if line.len() == 0 {
        return Frame::End;
    }
    if line.len() > MAX_MESSAGE {
        let limit = text::of("request exceeds ").concat(&text::number(MAX_MESSAGE as u64)).concat(
            " bytes",
        );
        return Frame::Last {
            message: protocol::error_message("null", rev, "message_too_large", &limit),
        };
    }
    if line[line.len() - 1] != 10 {
        return Frame::End;
    }
    Frame::Request
}

/// What a field of a request says as text, nothing where it says none.
pub open spec fn text_in(request: Seq<char>, key: Seq<char>) -> Seq<char> {
    match json_field(request, key) {
        Some(v) => match json_string(v) {
            Some(s) => s,
            None => Seq::empty(),
        },
        None => Seq::empty(),
    }
}

pub open spec fn flag_in(request: Seq<char>, key: Seq<char>) -> Option<bool> {
    match json_field(request, key) {
        Some(v) => json_flag(v),
        None => None,
    }
}

pub open spec fn natural_in(request: Seq<char>, key: Seq<char>) -> Option<u64> {
    match json_field(request, key) {
        Some(v) => json_natural(v),
        None => None,
    }
}

/// A measure of the style, held to what the compositor supports.
pub open spec fn held(measure: Option<u64>, default: u64) -> u64 {
    let n = match measure {
        Some(n) => n,
        None => default,
    };
    if n < 20 {
        n
    } else {
        20
    }
}

/// The live style that arrives with a request.
pub open spec fn style_in(request: Seq<char>) -> PreviewStyle {
    PreviewStyle {
        rounding: held(natural_in(request, "rounding"@), 0),
        border_size: held(natural_in(request, "border_size"@), 1),
    }
}

fn text_field(request: &str, key: &str) -> (r: String)
    ensures
        r@ == text_in(request@, key@),
{
    match json::field(request, key) {
        Some(v) => match json::string(&v) {
            Some(s) => s,
            None => String::new(),
        },
        None => String::new(),
    }
}

fn flag_field(request: &str, key: &str) -> (r: Option<bool>)
    ensures
        r == flag_in(request@, key@),
{
    match json::field(request, key) {
        Some(v) => json::flag(&v),
        None => None,
    }
}

fn natural_field(request: &str, key: &str) -> (r: Option<u64>)
    ensures
        r == natural_in(request@, key@),
{
    match json::field(request, key) {
        Some(v) => json::natural(&v),
        None => None,
    }
}

fn hold(measure: Option<u64>, default: u64) -> (r: u64)
    ensures
        r == held(measure, default),
{
    let n: u64 = match measure {
        Some(n) => n,
        None => default,
    };
    if n < 20 {
        n
    } else {
        20
    }
}

fn preview_style(request: &str) -> (r: PreviewStyle)
    ensures
        r == style_in(request@),
{
    PreviewStyle {
        rounding: hold(natural_field(request, "rounding"), 0),
        border_size: hold(natural_field(request, "border_size"), 1),
    }
}

/// What becomes of a request: an answer at once, or an operation whose end is
/// the answer.
#[derive(Debug)]
pub enum Request {
    Answered { message: String },
    Begin { id: String, operation: Operation },
}

#[verifier::ext_equal]
pub enum RequestView {
    Answered { message: Seq<char> },
    Begin { id: Seq<char>, operation: OperationView },
}

impl View for Request {
    type V = RequestView;

    open spec fn view(&self) -> RequestView {
        match self {
            Request::Answered { message } => RequestView::Answered { message: message.deep_view() },
            Request::Begin { id, operation } => RequestView::Begin {
                id: id.deep_view(),
                operation: operation.deep_view(),
            },
        }
    }
}

impl DeepView for Request {
    type V = RequestView;

    open spec fn deep_view(&self) -> RequestView {
        self@
    }
}

/// An optional number as it is shown.
pub open spec fn optional_number(n: Option<u64>) -> Seq<char> {
    match n {
        None => "None"@,
        Some(n) => "Some("@ + decimal(n as nat) + ")"@,
    }
}

pub fn show_number(n: Option<u64>) -> (r: String)
    ensures
        r@ == optional_number(n),
{
    match n {
        None => text::of("None"),
        Some(n) => text::of("Some(").concat(&text::number(n)).concat(")"),
    }
}

/// An optional text as it is shown.
pub open spec fn optional_text(s: Option<Seq<char>>) -> Seq<char> {
    match s {
        None => "None"@,
        Some(s) => "Some("@ + debug_text(s) + ")"@,
    }
}

fn show_text(s: &Option<String>) -> (r: String)
    ensures
        r@ == optional_text(s.deep_view()),
{
    match s {
        None => text::of("None"),
        Some(s) => text::of("Some(").concat(&text::quoted(s)).concat(")"),
    }
}

/// What the kind of a request asks for.
pub open spec fn asked_for(kind: Seq<char>, request: Seq<char>) -> Option<OperationView> {
    if kind == "refresh"@ {
        Some(OperationView::Refresh)
    } else if kind == "select"@ {
        Some(OperationView::Select { serial: text_in(request, "serial"@) })
    } else if kind == "set"@ {
        Some(
            OperationView::Change {
                setting: text_in(request, "setting"@),
                json: match json_field(request, "value"@) {
                    Some(v) => v,
                    None => "null"@,
                },
            },
        )
    } else if kind == "start"@ {
        Some(
            OperationView::Start {
                stay_awake: flag_in(request, "stay_awake"@) == Some(true),
                style: style_in(request),
            },
        )
    } else if kind == "preview"@ {
        match flag_in(request, "visible"@) {
            Some(visible) => Some(OperationView::Preview { visible, style: style_in(request) }),
            None => None,
        }
    } else if kind == "apply"@ {
        Some(OperationView::Apply)
    } else if kind == "discard"@ {
        Some(OperationView::Discard)
    } else if kind == "pair"@ {
        Some(
            OperationView::Pair {
                pair_address: text_in(request, "pair_address"@),
                code: text_in(request, "code"@),
                connect_address: text_in(request, "connect_address"@),
            },
        )
    } else if kind == "begin_pairing"@ {
        Some(OperationView::BeginPairing)
    } else if kind == "connect"@ {
        Some(
            OperationView::Connect {
                serial: text_in(request, "serial"@),
                connect_address: text_in(request, "connect_address"@),
            },
        )
    } else if kind == "forget"@ {
        Some(OperationView::Forget { serial: text_in(request, "serial"@) })
    } else if kind == "stop"@ {
        Some(OperationView::Stop)
    } else {
        None
    }
}

fn operation_for(kind: &str, request: &str) -> (r: Option<Operation>)
    ensures
        match r {
            Some(operation) => asked_for(kind@, request@) == Some(operation@),
            None => asked_for(kind@, request@) is None,
        },
{
    if text::same(kind, "refresh") {
        Some(Operation::Refresh)
    } else if text::same(kind, "select") {
        Some(Operation::Select { serial: text_field(request, "serial") })
    } else if text::same(kind, "set") {
        Some(
            Operation::Change {
                setting: text_field(request, "setting"),
                json: match json::field(request, "value") {
                    Some(v) => v,
                    None => text::of("null"),
                },
            },
        )
    } else if text::same(kind, "start") {
        let stay_awake = match flag_field(request, "stay_awake") {
            Some(b) => b,
            None => false,
        };
        Some(Operation::Start { stay_awake, style: preview_style(request) })
    } else if text::same(kind, "preview") {
        match flag_field(request, "visible") {
            Some(visible) => Some(
                Operation::Preview { visible, style: preview_style(request) },
            ),
            None => None,
        }
    } else if text::same(kind, "apply") {
        Some(Operation::Apply)
    } else if text::same(kind, "discard") {
        Some(Operation::Discard)
    } else if text::same(kind, "pair") {
        Some(
            Operation::Pair {
                pair_address: text_field(request, "pair_address"),
                code: text_field(request, "code"),
                connect_address: text_field(request, "connect_address"),
            },
        )
    } else if text::same(kind, "begin_pairing") {
        Some(Operation::BeginPairing)
    } else if text::same(kind, "connect") {
        Some(
            Operation::Connect {
                serial: text_field(request, "serial"),
                connect_address: text_field(request, "connect_address"),
            },
        )
    } else if text::same(kind, "forget") {
        Some(Operation::Forget { serial: text_field(request, "serial") })
    } else if text::same(kind, "stop") {
        Some(Operation::Stop)
    } else {
        None
    }
}

/// The id that a request carries, null where it carries none.
pub open spec fn id_in(request: Seq<char>) -> Seq<char> {
    match json_field(request, "id"@) {
        Some(id) => id,
        None => "null"@,
    }
}

/// What the kind of a request is.
pub open spec fn kind_in(request: Seq<char>) -> Option<Seq<char>> {
    match json_field(request, "kind"@) {
        Some(v) => json_string(v),
        None => None,
    }
}

/// What becomes of a request that is JSON.
pub open spec fn understood(request: Seq<char>, rev: u64) -> RequestView {
    let id = id_in(request);
    let version = natural_in(request, "v"@);
    let kind = kind_in(request);
    if version != Some(VERSION as u64) {
        RequestView::Answered {
            message: error_text(
                id,
                rev,
                "unsupported_version"@,
                "daemon speaks protocol "@ + decimal(VERSION as nat) + ", client sent "@
                    + optional_number(version),
            ),
        }
    } else if id == "null"@ {
        RequestView::Answered {
            message: error_text(id, rev, "missing_id"@, "every request needs an id"@),
        }
    } else if kind == Some("status"@) {
        RequestView::Answered { message: ok_text(id, rev) }
    } else {
        match kind {
            Some(k) => match asked_for(k, request) {
                Some(operation) => RequestView::Begin { id, operation },
                None => if k == "preview"@ {
                    RequestView::Answered {
                        message: error_text(
                            id,
                            rev,
                            "bad_request"@,
                            "preview needs a boolean visible field"@,
                        ),
                    }
                } else {
                    unknown(id, rev, kind)
                },
            },
            None => unknown(id, rev, kind),
        }
    }
}

pub open spec fn unknown(id: Seq<char>, rev: u64, kind: Option<Seq<char>>) -> RequestView {
    RequestView::Answered {
        message: error_text(
            id,
            rev,
            "unknown_request"@,
            "no such request kind: "@ + optional_text(kind),
        ),
    }
}

/// What becomes of a request. It is read loosely enough to be answered under
/// its own id even where its version is wrong or its kind is unknown.
pub open spec fn handled(line: Seq<u8>, rev: u64) -> RequestView {
    match json_value(line) {
        Err(e) => RequestView::Answered { message: error_text("null"@, rev, "bad_json"@, e) },
        Ok(request) => understood(request, rev),
    }
}

/// Reads a request: a line of JSON.
pub fn handle(line: &Vec<u8>, rev: u64) -> (r: Request)
    ensures
        r@ == handled(line.deep_view(), rev),
{
    match json::read(line) {
        Err(e) => Request::Answered {
            message: protocol::error_message("null", rev, "bad_json", &e),
        },
        Ok(request) => understand(&request, rev),
    }
}

/// Reads a request that is JSON. Whatever becomes of it goes by the id that it
/// carries.
pub fn understand(request: &str, rev: u64) -> (r: Request)
    ensures
        r@ == understood(request@, rev),
        match r {
            Request::Answered { message } => json_field(message@, "id"@) == Some(id_in(request@)),
            Request::Begin { id, .. } => id@ == id_in(request@) && found(id@),
        },
{
    let id = match json::field(request, "id") {
        Some(id) => id,
        None => text::of("null"),
    };
    assert(scalar(id@) || found(id@));
    let version = natural_field(request, "v");
    if version != Some(VERSION as u64) {
        let message = text::of("daemon speaks protocol ").concat(
            &text::number(VERSION as u64),
        ).concat(", client sent ").concat(&show_number(version));
        return Request::Answered {
            message: protocol::error_message(&id, rev, "unsupported_version", &message),
        };
    }
    if text::same(&id, "null") {
        return Request::Answered {
            message: protocol::error_message(
                &id,
                rev,
                "missing_id",
                "every request needs an id",
            ),
        };
    }
    let kind = match json::field(request, "kind") {
        Some(v) => json::string(&v),
        None => None,
    };
    if text::same_as(&kind, "status") {
        return Request::Answered { message: protocol::ok_message(&id, rev) };
    }
    match &kind {
        Some(k) => match operation_for(k, request) {
            Some(operation) => {
                return Request::Begin { id, operation };
            },
            None => {
                if text::same(k, "preview") {
                    return Request::Answered {
                        message: protocol::error_message(
                            &id,
                            rev,
                            "bad_request",
                            "preview needs a boolean visible field",
                        ),
                    };
                }
            },
        },
        None => {},
    }
    let message = text::of("no such request kind: ").concat(&show_text(&kind));
    Request::Answered { message: protocol::error_message(&id, rev, "unknown_request", &message) }
}

/// What an operation that ended is answered.
pub open spec fn reply(id: Seq<char>, rev: u64, result: Result<(), RefusalView>) -> Seq<char> {
    match result {
        Ok(()) => ok_text(id, rev),
        Err(refusal) => error_text(id, rev, refusal.code, refusal.message),
    }
}

/// Answers a request whose operation has ended, under the request's id.
fn respond(id: &str, rev: u64, result: &Result<(), Refusal>) -> (r: String)
    ensures
        r@ == reply(id@, rev, shown(*result)),
        found(id@) ==> answers(r@, id@, rev, result is Ok),
{
    match result {
        Ok(()) => protocol::ok_message(id, rev),
        Err(refusal) => protocol::error_message(id, rev, &refusal.code, &refusal.message),
    }
}

impl Progress {
    /// The answer to the request that an operation was for, once the operation
    /// has ended. It names the revision that the operation left.
    pub fn answer(&self, id: &str) -> (r: Option<String>)
        ensures
            match self.result {
                None => r is None,
                Some(result) => r matches Some(message) && message@ == reply(
                    id@,
                    self.core@.rev,
                    shown(result),
                ) && (found(id@) ==> answers(message@, id@, self.core@.rev, result is Ok)),
            },
    {
        match &self.result {
            None => None,
            Some(result) => Some(respond(id, self.core.rev, result)),
        }
    }
}

// ---------------------------------------------------------------------------
// What the environment says

/// A time in milliseconds that the environment may set.
pub open spec fn milliseconds_of(told: Option<Seq<char>>, default: u64, least: u64) -> u64 {
    let ms = match told {
        Some(s) => match parsed_unsigned(s, u64::MAX as nat) {
            Some(n) => n as u64,
            None => default,
        },
        None => default,
    };
    if ms < least {
        least
    } else {
        ms
    }
}

fn milliseconds(told: &Option<String>, default: u64, least: u64) -> (r: u64)
    ensures
        r == milliseconds_of(told.deep_view(), default, least),
{
    let ms: u64 = match told {
        Some(s) => match text::parse_unsigned(s, u64::MAX) {
            Some(n) => n,
            None => default,
        },
        None => default,
    };
    if ms < least {
        least
    } else {
        ms
    }
}

/// How often adb is asked what is attached, given `OMAVCAM_POLL_MS`. It has a
/// floor, so nothing can turn the poll into a loop spawning adb as fast as it
/// can.
pub fn poll_interval(told: &Option<String>) -> (r: u64)
    ensures
        r == milliseconds_of(told.deep_view(), 1000, 10),
{
    milliseconds(told, 1000, 10)
}

/// How long a tool may take, given `OMAVCAM_COMMAND_MS`.
pub fn command_limit(told: &Option<String>) -> (r: u64)
    ensures
        r == milliseconds_of(told.deep_view(), 10000, 10),
{
    milliseconds(told, 10000, 10)
}

/// How long scrcpy may take to feed frames, given `OMAVCAM_STARTUP_MS`; and how
/// long its window may take to appear, given `OMAVCAM_PREVIEW_MS`.
pub fn start_limit(told: &Option<String>) -> (r: u64)
    ensures
        r == milliseconds_of(told.deep_view(), 5000, 0),
{
    milliseconds(told, 5000, 0)
}

/// Where the daemon keeps its state.
pub open spec fn state_directory(
    told: Option<Seq<char>>,
    state_home: Option<Seq<char>>,
    home: Option<Seq<char>>,
) -> Seq<char> {
    match told {
        Some(directory) => directory,
        None => protocol::under(
            match state_home {
                Some(directory) => directory,
                None => match home {
                    Some(home) => home + "/.local/state"@,
                    None => "/.local/state"@,
                },
            },
            "omavcam"@,
        ),
    }
}

/// Where the daemon keeps its state, given `OMAVCAM_STATE_DIR`,
/// `XDG_STATE_HOME` and `HOME`.
pub fn state_dir(
    told: &Option<String>,
    state_home: &Option<String>,
    home: &Option<String>,
) -> (r: String)
    ensures
        r@ == state_directory(told.deep_view(), state_home.deep_view(), home.deep_view()),
{
    match told {
        Some(directory) => directory.copy(),
        None => {
            let base = match state_home {
                Some(directory) => directory.copy(),
                None => match home {
                    Some(home) => home.copy().concat("/.local/state"),
                    None => text::of("/.local/state"),
                },
            };
            protocol::path_under(&base, "omavcam")
        },
    }
}

/// Whether systemd handed the listening socket in, given `LISTEN_FDS` and
/// `LISTEN_PID`.
pub fn activated(fds: &Option<String>, pid: &Option<String>, own: u32) -> (r: bool)
    ensures
        r == (fds.deep_view() == Some("1"@) && pid.deep_view() == Some(decimal(own as nat))),
{
    text::same_as(fds, "1") && text::same_as(pid, &text::number(own as u64))
}

/// How binding the socket's path went.
#[derive(Debug, Clone, Copy, PartialEq, Eq, Structural)]
pub enum Binding {
    Bound,
    /// The path is there already.
    Taken,
    Failed,
}

/// What to do about the socket's path.
#[derive(Debug, Clone, Copy, PartialEq, Eq, Structural)]
pub enum Claim {
    /// Keep it, and let nobody else open it.
    Keep,
    /// See whether a daemon answers there.
    Probe,
    /// Leave it to whoever has it.
    Refuse,
    /// Remove what an earlier daemon left there, and bind it again.
    Replace,
}

/// Decides about the socket's path, given whether a daemon answered there where
/// that was seen: a path that someone listens at is never taken away.
pub fn claim(binding: Binding, answered: Option<bool>) -> (r: Claim)
    ensures
        r == (match (binding, answered) {
            (Binding::Bound, _) => Claim::Keep,
            (Binding::Failed, _) => Claim::Refuse,
            (Binding::Taken, None) => Claim::Probe,
            (Binding::Taken, Some(true)) => Claim::Refuse,
            (Binding::Taken, Some(false)) => Claim::Replace,
        }),
{
    match binding {
        Binding::Bound => Claim::Keep,
        Binding::Failed => Claim::Refuse,
        Binding::Taken => match answered {
            None => Claim::Probe,
            Some(answered) => {
                if answered {
                    Claim::Refuse
                } else {
                    Claim::Replace
                }
            },
        },
    }
}

} // verus!
