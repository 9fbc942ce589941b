//! The wire protocol: line-delimited JSON over a unix socket.
//!
//! Two message types travel from the daemon to a client:
//!
//! ```text
//! {"rev":4,"state":{...},"type":"state","v":4}
//! {"id":"7","ok":true,"rev":4,"type":"response","v":4}
//! {"error":{"code":"...","message":"..."},"id":"7","ok":false,"rev":4,"type":"response","v":4}
//! ```
//!
//! and one from a client to the daemon:
//!
//! ```text
//! {"v":4,"id":"7","kind":"status"}
//! {"v":4,"id":"8","kind":"select","serial":"39281FDJH0031T"}
//! {"v":4,"id":"9","kind":"start"}
//! {"v":4,"id":"10","kind":"set","setting":"zoom","value":2}
//! {"v":4,"id":"11","kind":"apply"}
//! ```
//!
//! The daemon pushes the whole state, unprompted, to every connected client
//! whenever it changes, and once on connect. Nothing polls. Every response
//! carries the revision at which the request's effect is visible, so a client
//! knows which pushed state reflects its request.

use vstd::prelude::*;

use crate::json;
use crate::json::{found, json_field, json_object, json_quote, plain_fields, scalar};
use crate::plain::Plain;
use crate::settings::{SettingsState, SettingsStateView};
use crate::text;
use crate::text::decimal;

verus! {

/// Bumped whenever the shape of a message changes incompatibly. A client
/// sending anything else is rejected with an error rather than misparsed.
pub const VERSION: u32 = 4;

/// Longest accepted request line, newline included. A client cannot make the
/// daemon allocate past this.
pub const MAX_MESSAGE: usize = 65536;

/// One Android device, identified by the serial adb reports, under a name a
/// person recognises: adb's `model:`, or the serial when adb has none.
#[derive(Debug, PartialEq)]
pub struct Phone {
    pub serial: String,
    pub name: String,
}

#[verifier::ext_equal]
pub struct PhoneView {
    pub serial: Seq<char>,
    pub name: Seq<char>,
}

impl View for Phone {
    type V = PhoneView;

    open spec fn view(&self) -> PhoneView {
        PhoneView {
            serial: self.serial.deep_view(),
            name: self.name.deep_view(),
        }
    }
}

impl DeepView for Phone {
    type V = PhoneView;

    open spec fn deep_view(&self) -> PhoneView {
        self@
    }
}

impl Plain for Phone {
    fn same(&self, other: &Self) -> bool {
        self.serial.same(&other.serial)
            && self.name.same(&other.name)
    }

    fn copy(&self) -> Self {
        Phone {
            serial: self.serial.copy(),
            name: self.name.copy(),
        }
    }
}

/// One phone adb reports, and whether adb will talk to it.
#[derive(Debug, PartialEq)]
pub struct Attached {
    pub phone: Phone,
    /// False while the debugging prompt has not been accepted. Such a phone is
    /// still listed: hiding it makes a phone that needs one tap look like a
    /// phone that is not plugged in.
    pub authorised: bool,
}

#[verifier::ext_equal]
pub struct AttachedView {
    pub phone: PhoneView,
    pub authorised: bool,
}

impl View for Attached {
    type V = AttachedView;

    open spec fn view(&self) -> AttachedView {
        AttachedView {
            phone: self.phone.deep_view(),
            authorised: self.authorised.deep_view(),
        }
    }
}

impl DeepView for Attached {
    type V = AttachedView;

    open spec fn deep_view(&self) -> AttachedView {
        self@
    }
}

impl Plain for Attached {
    fn same(&self, other: &Self) -> bool {
        self.phone.same(&other.phone)
            && self.authorised.same(&other.authorised)
    }

    fn copy(&self) -> Self {
        Attached {
            phone: self.phone.copy(),
            authorised: self.authorised.copy(),
        }
    }
}

/// One requested stream from a phone into the virtual camera. Everything about
/// it is fixed at launch: changing any of it means replacing the capture.
#[derive(Debug, PartialEq)]
pub struct Capture {
    pub phone: Phone,
    /// The virtual camera being written, found by its label.
    pub node: String,
    /// The frame size, fixed for this capture's lifetime: a restart at another
    /// size freezes whatever is watching.
    pub size: String,
    /// Always false: scrcpy refuses to keep the phone awake without control,
    /// and a preview must not have control.
    pub stay_awake: bool,
    /// Whether scrcpy's own window is on-screen. Hiding moves that same
    /// window; it never replaces the capture.
    pub preview: bool,
}

#[verifier::ext_equal]
pub struct CaptureView {
    pub phone: PhoneView,
    pub node: Seq<char>,
    pub size: Seq<char>,
    pub stay_awake: bool,
    pub preview: bool,
}

impl View for Capture {
    type V = CaptureView;

    open spec fn view(&self) -> CaptureView {
        CaptureView {
            phone: self.phone.deep_view(),
            node: self.node.deep_view(),
            size: self.size.deep_view(),
            stay_awake: self.stay_awake.deep_view(),
            preview: self.preview.deep_view(),
        }
    }
}

impl DeepView for Capture {
    type V = CaptureView;

    open spec fn deep_view(&self) -> CaptureView {
        self@
    }
}

impl Plain for Capture {
    fn same(&self, other: &Self) -> bool {
        self.phone.same(&other.phone)
            && self.node.same(&other.node)
            && self.size.same(&other.size)
            && self.stay_awake.same(&other.stay_awake)
            && self.preview.same(&other.preview)
    }

    fn copy(&self) -> Self {
        Capture {
            phone: self.phone.copy(),
            node: self.node.copy(),
            size: self.size.copy(),
            stay_awake: self.stay_awake.copy(),
            preview: self.preview.copy(),
        }
    }
}

/// How a phone is reached.
#[derive(Debug, Clone, Copy, PartialEq, Eq, Structural)]
pub enum Transport {
    Wired,
    Wireless,
}

impl DeepView for Transport {
    type V = Transport;

    open spec fn deep_view(&self) -> Transport {
        *self
    }
}

impl Plain for Transport {
    fn same(&self, other: &Self) -> bool {
        *self == *other
    }

    fn copy(&self) -> Self {
        *self
    }
}

/// A phone remembered between runs.
#[derive(Debug, PartialEq)]
pub struct KnownPhone {
    /// Durable identity for per-phone settings. A provisional wireless entry
    /// starts with its endpoint here; learning the device ID replaces that
    /// value while moving its settings, after which port changes leave it alone.
    pub id: String,
    /// What the device itself answers when asked who it is.
    pub hardware_id: Option<String>,
    pub phone: Phone,
    pub transport: Transport,
    /// Wireless debugging's connect endpoint. Pairing uses a separate,
    /// transient endpoint, which is never kept.
    pub connect_address: Option<String>,
}

#[verifier::ext_equal]
pub struct KnownPhoneView {
    pub id: Seq<char>,
    pub hardware_id: Option<Seq<char>>,
    pub phone: PhoneView,
    pub transport: Transport,
    pub connect_address: Option<Seq<char>>,
}

impl View for KnownPhone {
    type V = KnownPhoneView;

    open spec fn view(&self) -> KnownPhoneView {
        KnownPhoneView {
            id: self.id.deep_view(),
            hardware_id: self.hardware_id.deep_view(),
            phone: self.phone.deep_view(),
            transport: self.transport.deep_view(),
            connect_address: self.connect_address.deep_view(),
        }
    }
}

impl DeepView for KnownPhone {
    type V = KnownPhoneView;

    open spec fn deep_view(&self) -> KnownPhoneView {
        self@
    }
}

impl Plain for KnownPhone {
    fn same(&self, other: &Self) -> bool {
        self.id.same(&other.id)
            && self.hardware_id.same(&other.hardware_id)
            && self.phone.same(&other.phone)
            && self.transport.same(&other.transport)
            && self.connect_address.same(&other.connect_address)
    }

    fn copy(&self) -> Self {
        KnownPhone {
            id: self.id.copy(),
            hardware_id: self.hardware_id.copy(),
            phone: self.phone.copy(),
            transport: self.transport.copy(),
            connect_address: self.connect_address.copy(),
        }
    }
}

/// Why pairing failed.
#[derive(Debug, Clone, Copy, PartialEq, Eq, Structural)]
pub enum PairingFailure {
    WrongCode,
    WrongAddress,
    Unreachable,
}

impl DeepView for PairingFailure {
    type V = PairingFailure;

    open spec fn deep_view(&self) -> PairingFailure {
        *self
    }
}

impl Plain for PairingFailure {
    fn same(&self, other: &Self) -> bool {
        *self == *other
    }

    fn copy(&self) -> Self {
        *self
    }
}

/// How far the connection to a phone has got. A phase with its own states and
/// its own advice, not a precondition that holds or doesn't.
#[derive(Debug, PartialEq)]
pub enum Connection {
    NoPhone,
    /// Several attached and none chosen. The daemon does not pick for you.
    Unselected { available: Vec<Phone> },
    /// Selected, but the debugging prompt on the phone was never accepted.
    Unauthorised { phone: Phone },
    Connecting { phone: Phone },
    Connected { phone: Phone },
    /// A logical capture still owns the virtual camera while its selected
    /// phone or writer is being recovered.
    Reconnecting { phone: Phone },
    NeedsPairing,
    PairingFailed { reason: PairingFailure },
    Unreachable { phone: Phone, connect_address: String },
}

#[verifier::ext_equal]
pub enum ConnectionView {
    NoPhone,
    Unselected { available: Seq<PhoneView> },
    Unauthorised { phone: PhoneView },
    Connecting { phone: PhoneView },
    Connected { phone: PhoneView },
    Reconnecting { phone: PhoneView },
    NeedsPairing,
    PairingFailed { reason: PairingFailure },
    Unreachable { phone: PhoneView, connect_address: Seq<char> },
}

impl View for Connection {
    type V = ConnectionView;

    open spec fn view(&self) -> ConnectionView {
        match self {
            Connection::NoPhone => ConnectionView::NoPhone,
            Connection::Unselected { available } => ConnectionView::Unselected {
                available: available.deep_view(),
            },
            Connection::Unauthorised { phone } => ConnectionView::Unauthorised { phone: phone@ },
            Connection::Connecting { phone } => ConnectionView::Connecting { phone: phone@ },
            Connection::Connected { phone } => ConnectionView::Connected { phone: phone@ },
            Connection::Reconnecting { phone } => ConnectionView::Reconnecting { phone: phone@ },
            Connection::NeedsPairing => ConnectionView::NeedsPairing,
            Connection::PairingFailed { reason } => ConnectionView::PairingFailed {
                reason: *reason,
            },
            Connection::Unreachable { phone, connect_address } => ConnectionView::Unreachable {
                phone: phone@,
                connect_address: connect_address@,
            },
        }
    }
}

impl DeepView for Connection {
    type V = ConnectionView;

    open spec fn deep_view(&self) -> ConnectionView {
        self@
    }
}

impl Plain for Connection {
    fn same(&self, other: &Self) -> bool {
        match (self, other) {
            (Connection::NoPhone, Connection::NoPhone) => true,
            (
                Connection::Unselected { available: a },
                Connection::Unselected { available: b },
            ) => a.same(b),
            (Connection::Unauthorised { phone: a }, Connection::Unauthorised { phone: b }) => a.same(
                b,
            ),
            (Connection::Connecting { phone: a }, Connection::Connecting { phone: b }) => a.same(b),
            (Connection::Connected { phone: a }, Connection::Connected { phone: b }) => a.same(b),
            (Connection::Reconnecting { phone: a }, Connection::Reconnecting { phone: b }) => a.same(
                b,
            ),
            (Connection::NeedsPairing, Connection::NeedsPairing) => true,
            (
                Connection::PairingFailed { reason: a },
                Connection::PairingFailed { reason: b },
            ) => a.same(b),
            (
                Connection::Unreachable { phone: a, connect_address: x },
                Connection::Unreachable { phone: b, connect_address: y },
            ) => a.same(b) && x.same(y),
            _ => false,
        }
    }

    fn copy(&self) -> Self {
        match self {
            Connection::NoPhone => Connection::NoPhone,
            Connection::Unselected { available } => Connection::Unselected {
                available: available.copy(),
            },
            Connection::Unauthorised { phone } => Connection::Unauthorised { phone: phone.copy() },
            Connection::Connecting { phone } => Connection::Connecting { phone: phone.copy() },
            Connection::Connected { phone } => Connection::Connected { phone: phone.copy() },
            Connection::Reconnecting { phone } => Connection::Reconnecting { phone: phone.copy() },
            Connection::NeedsPairing => Connection::NeedsPairing,
            Connection::PairingFailed { reason } => Connection::PairingFailed { reason: *reason },
            Connection::Unreachable { phone, connect_address } => Connection::Unreachable {
                phone: phone.copy(),
                connect_address: connect_address.copy(),
            },
        }
    }
}

impl Default for Connection {
    fn default() -> (r: Self)
        ensures
            r@ == ConnectionView::NoPhone,
    {
        Connection::NoPhone
    }
}

/// The compositor values applied to the preview.
#[derive(Debug, Clone, Copy, PartialEq, Eq, Structural)]
pub struct PreviewStyle {
    pub rounding: u64,
    pub border_size: u64,
}

impl DeepView for PreviewStyle {
    type V = PreviewStyle;

    open spec fn deep_view(&self) -> PreviewStyle {
        *self
    }
}

impl Plain for PreviewStyle {
    fn same(&self, other: &Self) -> bool {
        *self == *other
    }

    fn copy(&self) -> Self {
        *self
    }
}

impl Default for PreviewStyle {
    fn default() -> (r: Self)
        ensures
            r == (PreviewStyle { rounding: 0, border_size: 1 }),
    {
        PreviewStyle { rounding: 0, border_size: 1 }
    }
}

/// Something a capture needs and this machine does not have.
#[derive(Debug, PartialEq)]
pub struct Missing {
    /// The tool, the way the user knows it.
    pub what: String,
    /// The command that supplies it.
    pub install: String,
}

#[verifier::ext_equal]
pub struct MissingView {
    pub what: Seq<char>,
    pub install: Seq<char>,
}

impl View for Missing {
    type V = MissingView;

    open spec fn view(&self) -> MissingView {
        MissingView {
            what: self.what.deep_view(),
            install: self.install.deep_view(),
        }
    }
}

impl DeepView for Missing {
    type V = MissingView;

    open spec fn deep_view(&self) -> MissingView {
        self@
    }
}

impl Plain for Missing {
    fn same(&self, other: &Self) -> bool {
        self.what.same(&other.what)
            && self.install.same(&other.install)
    }

    fn copy(&self) -> Self {
        Missing {
            what: self.what.copy(),
            install: self.install.copy(),
        }
    }
}

/// Everything the daemon knows. Pushed whole, never as a delta, so a client
/// that reconnects after a daemon restart is correct immediately.
#[derive(Debug)]
pub struct State {
    /// Whether the latest adb server probe or device scan succeeded.
    pub adb_ok: bool,
    pub connection: Connection,
    /// The requested capture, retained while its writer reconnects. The
    /// connection phase says whether it is currently feeding frames.
    pub capture: Option<Capture>,
    /// Every phone adb can see, whatever phase the connection is in.
    pub attached: Vec<Attached>,
    /// Camera capabilities and the selected phone's applied and pending
    /// settings. Absent until a connected phone has answered the probe.
    pub settings: Option<SettingsState>,
    /// Every phone remembered in the one wired and wireless registry.
    pub known: Vec<KnownPhone>,
    /// The compositor values actually applied to the preview. Clients compare
    /// their live theme with these rather than assuming a one-shot sync held.
    pub preview_style: PreviewStyle,
    /// What this machine lacks, and how to install it.
    pub missing: Vec<Missing>,
}

#[verifier::ext_equal]
pub struct StateView {
    pub adb_ok: bool,
    pub connection: ConnectionView,
    pub capture: Option<CaptureView>,
    pub attached: Seq<AttachedView>,
    pub settings: Option<SettingsStateView>,
    pub known: Seq<KnownPhoneView>,
    pub preview_style: PreviewStyle,
    pub missing: Seq<MissingView>,
}

impl View for State {
    type V = StateView;

    open spec fn view(&self) -> StateView {
        StateView {
            adb_ok: self.adb_ok.deep_view(),
            connection: self.connection.deep_view(),
            capture: self.capture.deep_view(),
            attached: self.attached.deep_view(),
            settings: self.settings.deep_view(),
            known: self.known.deep_view(),
            preview_style: self.preview_style.deep_view(),
            missing: self.missing.deep_view(),
        }
    }
}

impl DeepView for State {
    type V = StateView;

    open spec fn deep_view(&self) -> StateView {
        self@
    }
}

impl Plain for State {
    fn same(&self, other: &Self) -> bool {
        self.adb_ok.same(&other.adb_ok)
            && self.connection.same(&other.connection)
            && self.capture.same(&other.capture)
            && self.attached.same(&other.attached)
            && self.settings.same(&other.settings)
            && self.known.same(&other.known)
            && self.preview_style.same(&other.preview_style)
            && self.missing.same(&other.missing)
    }

    fn copy(&self) -> Self {
        State {
            adb_ok: self.adb_ok.copy(),
            connection: self.connection.copy(),
            capture: self.capture.copy(),
            attached: self.attached.copy(),
            settings: self.settings.copy(),
            known: self.known.copy(),
            preview_style: self.preview_style.copy(),
            missing: self.missing.copy(),
        }
    }
}

impl Default for State {
    fn default() -> (r: Self)
        ensures
            r@ == blank(),
    {
        let r = State {
            adb_ok: false,
            connection: Connection::NoPhone,
            capture: None,
            attached: Vec::new(),
            settings: None,
            known: Vec::new(),
            preview_style: PreviewStyle { rounding: 0, border_size: 1 },
            missing: Vec::new(),
        };
        assert(r@ =~= blank());
        r
    }
}

/// Nothing known yet.
pub open spec fn blank() -> StateView {
    StateView {
        adb_ok: false,
        connection: ConnectionView::NoPhone,
        capture: None,
        attached: Seq::empty(),
        settings: None,
        known: Seq::empty(),
        preview_style: PreviewStyle { rounding: 0, border_size: 1 },
        missing: Seq::empty(),
    }
}

// ---------------------------------------------------------------------------
// Messages

/// A pushed state, at its revision. The state is given as JSON.
pub open spec fn state_text(rev: u64, state: Seq<char>) -> Seq<char> {
    json_object(
        seq![
            ("type"@, json_quote("state"@)),
            ("v"@, decimal(VERSION as nat)),
            ("rev"@, decimal(rev as nat)),
            ("state"@, state),
        ],
    )
}

/// The answer to a request that was done.
pub open spec fn ok_text(id: Seq<char>, rev: u64) -> Seq<char> {
    json_object(
        seq![
            ("type"@, json_quote("response"@)),
            ("v"@, decimal(VERSION as nat)),
            ("id"@, id),
            ("rev"@, decimal(rev as nat)),
            ("ok"@, "true"@),
        ],
    )
}

/// What an error says.
pub open spec fn error_body(code: Seq<char>, message: Seq<char>) -> Seq<char> {
    json_object(seq![("code"@, json_quote(code)), ("message"@, json_quote(message))])
}

/// The answer to a request that was not done.
pub open spec fn error_text(id: Seq<char>, rev: u64, code: Seq<char>, message: Seq<char>) -> Seq<
    char,
> {
    json_object(
        seq![
            ("type"@, json_quote("response"@)),
            ("v"@, decimal(VERSION as nat)),
            ("id"@, id),
            ("rev"@, decimal(rev as nat)),
            ("ok"@, "false"@),
            ("error"@, error_body(code, message)),
        ],
    )
}

/// Whether a message is the answer to the request with an id.
pub open spec fn answers(message: Seq<char>, id: Seq<char>, rev: u64, ok: bool) -> bool {
    &&& json_field(message, "type"@) == Some(json_quote("response"@))
    &&& json_field(message, "v"@) == Some(decimal(VERSION as nat))
    &&& json_field(message, "id"@) == Some(id)
    &&& json_field(message, "rev"@) == Some(decimal(rev as nat))
    &&& json_field(message, "ok"@) == Some(
        if ok {
            "true"@
        } else {
            "false"@
        },
    )
}

/// Whether a message says why a request was not done.
pub open spec fn explains(message: Seq<char>, code: Seq<char>, why: Seq<char>) -> bool {
    &&& json_field(message, "error"@) == Some(error_body(code, why))
    &&& json_field(error_body(code, why), "code"@) == Some(json_quote(code))
    &&& json_field(error_body(code, why), "message"@) == Some(json_quote(why))
}

/// The names of the fields differ.
proof fn lemma_keys()
    ensures
        "type"@ != "v"@,
        "type"@ != "id"@,
        "type"@ != "rev"@,
        "type"@ != "ok"@,
        "type"@ != "error"@,
        "v"@ != "id"@,
        "v"@ != "rev"@,
        "v"@ != "ok"@,
        "v"@ != "error"@,
        "id"@ != "rev"@,
        "id"@ != "ok"@,
        "id"@ != "error"@,
        "rev"@ != "ok"@,
        "rev"@ != "error"@,
        "ok"@ != "error"@,
        "code"@ != "message"@,
{
    reveal_strlit("type");
    reveal_strlit("v");
    reveal_strlit("id");
    reveal_strlit("rev");
    reveal_strlit("ok");
    reveal_strlit("error");
    reveal_strlit("code");
    reveal_strlit("message");
    assert("type"@.len() == 4 && "v"@.len() == 1 && "rev"@.len() == 3 && "error"@.len() == 5);
    assert("id"@.len() == 2 && "ok"@.len() == 2 && "code"@.len() == 4 && "message"@.len() == 7);
    assert("id"@[0] == 'i' && "ok"@[0] == 'o');
}

/// A state, given as JSON, at its revision.
pub fn state_message(rev: u64, state: &str) -> (r: String)
    ensures
        r@ == state_text(rev, state@),
{
    let fields = vec![
        json::entry("type", json::quote("state")),
        json::entry("v", text::number(VERSION as u64)),
        json::entry("rev", text::number(rev)),
        json::entry("state", text::of(state)),
    ];
    assert(fields.deep_view() =~= seq![
        ("type"@, json_quote("state"@)),
        ("v"@, decimal(VERSION as nat)),
        ("rev"@, decimal(rev as nat)),
        ("state"@, state@),
    ]);
    json::object(&fields)
}

/// A request was done. The id, given as JSON, is the request's own, and the
/// answer is found under it.
pub fn ok_message(id: &str, rev: u64) -> (r: String)
    ensures
        r@ == ok_text(id@, rev),
        scalar(id@) || found(id@) ==> answers(r@, id@, rev, true),
{
    let fields = vec![
        json::entry("type", json::quote("response")),
        json::entry("v", text::number(VERSION as u64)),
        json::entry("id", text::of(id)),
        json::entry("rev", text::number(rev)),
        json::entry("ok", json::truth(true)),
    ];
    let ghost list = fields.deep_view();
    assert(list =~= seq![
        ("type"@, json_quote("response"@)),
        ("v"@, decimal(VERSION as nat)),
        ("id"@, id@),
        ("rev"@, decimal(rev as nat)),
        ("ok"@, "true"@),
    ]);
    let r = json::object(&fields);
    proof {
        lemma_keys();
        if scalar(id@) || found(id@) {
            assert(decimal(VERSION as nat) == decimal((VERSION as u64) as nat));
            assert(plain_fields(list));
            assert(list[0].0 == "type"@ && list[1].0 == "v"@ && list[2].0 == "id"@);
            assert(list[3].0 == "rev"@ && list[4].0 == "ok"@);
        }
    }
    r
}

/// A request was not done, and why. The answer is found under the request's id.
pub fn error_message(id: &str, rev: u64, code: &str, message: &str) -> (r: String)
    ensures
        r@ == error_text(id@, rev, code@, message@),
        scalar(id@) || found(id@) ==> answers(r@, id@, rev, false) && explains(
            r@,
            code@,
            message@,
        ),
{
    let body = vec![
        json::entry("code", json::quote(code)),
        json::entry("message", json::quote(message)),
    ];
    let ghost inner = body.deep_view();
    assert(inner =~= seq![("code"@, json_quote(code@)), ("message"@, json_quote(message@))]);
    let error = json::object(&body);
    proof {
        lemma_keys();
        assert(plain_fields(inner));
        assert(inner[0].0 == "code"@ && inner[1].0 == "message"@);
        assert(crate::json::flat(error@));
    }
    let fields = vec![
        json::entry("type", json::quote("response")),
        json::entry("v", text::number(VERSION as u64)),
        json::entry("id", text::of(id)),
        json::entry("rev", text::number(rev)),
        json::entry("ok", json::truth(false)),
        json::entry("error", error),
    ];
    let ghost list = fields.deep_view();
    assert(list =~= seq![
        ("type"@, json_quote("response"@)),
        ("v"@, decimal(VERSION as nat)),
        ("id"@, id@),
        ("rev"@, decimal(rev as nat)),
        ("ok"@, "false"@),
        ("error"@, error@),
    ]);
    let r = json::object(&fields);
    proof {
        if scalar(id@) || found(id@) {
            assert(decimal(VERSION as nat) == decimal((VERSION as u64) as nat));
            assert(plain_fields(list));
            assert(list[0].0 == "type"@ && list[1].0 == "v"@ && list[2].0 == "id"@);
            assert(list[3].0 == "rev"@ && list[4].0 == "ok"@ && list[5].0 == "error"@);
        }
    }
    r
}

// ---------------------------------------------------------------------------
// Where the socket is

/// A file in a directory, as a path: one slash between the two.
pub open spec fn under(directory: Seq<char>, name: Seq<char>) -> Seq<char> {
    if directory.len() == 0 || directory.last() == '/' {
        directory + name
    } else {
        directory + "/"@ + name
    }
}

pub fn path_under(directory: &str, name: &str) -> (r: String)
    ensures
        r@ == under(directory@, name@),
{
    let v = text::chars(directory);
    if v.len() == 0 || v[v.len() - 1] == '/' {
        text::of(directory).concat(name)
    } else {
        text::of(directory).concat("/").concat(name)
    }
}

/// The socket's path: as told, else in the runtime directory.
pub open spec fn socket(told: Option<Seq<char>>, runtime: Option<Seq<char>>) -> Seq<char> {
    match told {
        Some(path) => path,
        None => under(
            match runtime {
                Some(directory) => directory,
                None => "/tmp"@,
            },
            "omavcam.sock"@,
        ),
    }
}

/// Where the socket is, given what `OMAVCAM_SOCKET` and `XDG_RUNTIME_DIR` say.
pub fn socket_path(told: &Option<String>, runtime: &Option<String>) -> (r: String)
    ensures
        r@ == socket(told.deep_view(), runtime.deep_view()),
{
    match told {
        Some(path) => path.copy(),
        None => match runtime {
            Some(directory) => path_under(directory, "omavcam.sock"),
            None => path_under("/tmp", "omavcam.sock"),
        },
    }
}

} // verus!
