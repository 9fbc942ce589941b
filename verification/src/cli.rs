//! The command line: what a command asks of the daemon, what of the daemon's
//! messages belongs to it, and what is printed.

use vstd::prelude::*;

use crate::json;
use crate::json::{json_field, json_object, json_quote, json_string, json_value};
use crate::plain::{shown, Plain};
use crate::protocol::{
    answers, explains, CaptureView, Connection, ConnectionView, KnownPhone,
    KnownPhoneView, Missing, MissingView, PairingFailure, Phone, PhoneView, State, StateView,
    Transport, VERSION,
};
use crate::requests::{natural_in, optional_number, show_number};
use crate::settings::{Lens, LensView, SettingsState, SettingsStateView};
use crate::text;
use crate::text::{debug_text, decimal, joined, parsed_unsigned, pieces, replaced};

verus! {

// ---------------------------------------------------------------------------
// Arguments

/// What a command line asks for.
#[derive(Debug)]
pub enum Invocation {
    /// Be the daemon.
    Daemon,
    /// Send a request, with further fields.
    Send { kind: String, fields: Vec<(String, String)> },
    /// Change a setting.
    Change { setting: String, value: String },
    /// Nothing that is understood.
    Usage { command: Option<String> },
}

#[verifier::ext_equal]
pub enum InvocationView {
    Daemon,
    Send { kind: Seq<char>, fields: Seq<(Seq<char>, Seq<char>)> },
    Change { setting: Seq<char>, value: Seq<char> },
    Usage { command: Option<Seq<char>> },
}

impl View for Invocation {
    type V = InvocationView;

    open spec fn view(&self) -> InvocationView {
        match self {
            Invocation::Daemon => InvocationView::Daemon,
            Invocation::Send { kind, fields } => InvocationView::Send {
                kind: kind.deep_view(),
                fields: fields.deep_view(),
            },
            Invocation::Change { setting, value } => InvocationView::Change {
                setting: setting.deep_view(),
                value: value.deep_view(),
            },
            Invocation::Usage { command } => InvocationView::Usage { command: command.deep_view() },
        }
    }
}

impl DeepView for Invocation {
    type V = InvocationView;

    open spec fn deep_view(&self) -> InvocationView {
        self@
    }
}

pub const USAGE: &'static str =
    "usage: omavcam [status|phones|refresh|select <serial>|pair [<pair-address> <code> <connect-address>]|connect <serial> <connect-address>|forget <serial>|start [--stay-awake]|stop|set <lens|resolution|frame-rate|aspect-ratio|zoom|crop> <value>|apply|discard|daemon]";

/// A request with no further fields.
pub open spec fn bare(kind: Seq<char>) -> InvocationView {
    InvocationView::Send { kind, fields: Seq::empty() }
}

/// What a command line of one word asks for.
pub open spec fn invoked_one(a: Seq<char>) -> Option<InvocationView> {
    if a == "daemon"@ {
        Some(InvocationView::Daemon)
    } else if a == "status"@ || a == "refresh"@ || a == "start"@ || a == "stop"@ || a == "apply"@
        || a == "discard"@ {
        Some(bare(a))
    } else if a == "phones"@ {
        Some(bare("status"@))
    } else if a == "pair"@ {
        Some(bare("begin_pairing"@))
    } else if a == "select"@ {
        Some(
            InvocationView::Send {
                kind: "select"@,
                fields: seq![("serial"@, json_quote(""@))],
            },
        )
    } else {
        None
    }
}

/// What a command line of two words asks for.
pub open spec fn invoked_two(a: Seq<char>, b: Seq<char>) -> Option<InvocationView> {
    if a == "forget"@ || a == "select"@ {
        Some(InvocationView::Send { kind: a, fields: seq![("serial"@, json_quote(b))] })
    } else if a == "start"@ && b == "--stay-awake"@ {
        Some(InvocationView::Send { kind: a, fields: seq![("stay_awake"@, "true"@)] })
    } else {
        None
    }
}

/// What a command line of three words asks for.
pub open spec fn invoked_three(a: Seq<char>, b: Seq<char>, c: Seq<char>) -> Option<
    InvocationView,
> {
    if a == "set"@ {
        Some(InvocationView::Change { setting: b, value: c })
    } else if a == "connect"@ {
        Some(
            InvocationView::Send {
                kind: a,
                fields: seq![("serial"@, json_quote(b)), ("connect_address"@, json_quote(c))],
            },
        )
    } else {
        None
    }
}

/// What a command line of four words asks for.
pub open spec fn invoked_four(a: Seq<char>, b: Seq<char>, c: Seq<char>, d: Seq<char>) -> Option<
    InvocationView,
> {
    if a == "pair"@ {
        Some(
            InvocationView::Send {
                kind: a,
                fields: seq![
                    ("pair_address"@, json_quote(b)),
                    ("code"@, json_quote(c)),
                    ("connect_address"@, json_quote(d)),
                ],
            },
        )
    } else {
        None
    }
}

/// What a command line asks for.
pub open spec fn invoked(args: Seq<Seq<char>>) -> InvocationView {
    let known = if args.len() == 1 {
        invoked_one(args[0])
    } else if args.len() == 2 {
        invoked_two(args[0], args[1])
    } else if args.len() == 3 {
        invoked_three(args[0], args[1], args[2])
    } else if args.len() == 4 {
        invoked_four(args[0], args[1], args[2], args[3])
    } else {
        None
    };
    match known {
        Some(invocation) => invocation,
        None => InvocationView::Usage {
            command: if args.len() > 0 {
                Some(args[0])
            } else {
                None
            },
        },
    }
}

fn send(kind: &str) -> (r: Option<Invocation>)
    ensures
        r matches Some(i) && i@ == bare(kind@),
{
    let fields: Vec<(String, String)> = Vec::new();
    assert(fields.deep_view() =~= Seq::empty());
    Some(Invocation::Send { kind: text::of(kind), fields })
}

fn invoke_one(a: &str) -> (r: Option<Invocation>)
    ensures
        match r {
            Some(i) => invoked_one(a@) == Some(i@),
            None => invoked_one(a@) is None,
        },
{
    if text::same(a, "daemon") {
        Some(Invocation::Daemon)
    } else if text::same(a, "status") || text::same(a, "refresh") || text::same(a, "start")
        || text::same(a, "stop") || text::same(a, "apply") || text::same(a, "discard") {
        send(a)
    } else if text::same(a, "phones") {
        send("status")
    } else if text::same(a, "pair") {
        send("begin_pairing")
    } else if text::same(a, "select") {
        let fields = vec![json::entry("serial", json::quote(""))];
        assert(fields.deep_view() =~= seq![("serial"@, json_quote(""@))]);
        Some(Invocation::Send { kind: text::of("select"), fields })
    } else {
        None
    }
}

fn invoke_two(a: &str, b: &str) -> (r: Option<Invocation>)
    ensures
        match r {
            Some(i) => invoked_two(a@, b@) == Some(i@),
            None => invoked_two(a@, b@) is None,
        },
{
    if text::same(a, "forget") || text::same(a, "select") {
        let fields = vec![json::entry("serial", json::quote(b))];
        assert(fields.deep_view() =~= seq![("serial"@, json_quote(b@))]);
        Some(Invocation::Send { kind: text::of(a), fields })
    } else if text::same(a, "start") && text::same(b, "--stay-awake") {
        let fields = vec![json::entry("stay_awake", json::truth(true))];
        assert(fields.deep_view() =~= seq![("stay_awake"@, "true"@)]);
        Some(Invocation::Send { kind: text::of(a), fields })
    } else {
        None
    }
}

fn invoke_three(a: &str, b: &str, c: &str) -> (r: Option<Invocation>)
    ensures
        match r {
            Some(i) => invoked_three(a@, b@, c@) == Some(i@),
            None => invoked_three(a@, b@, c@) is None,
        },
{
    if text::same(a, "set") {
        Some(Invocation::Change { setting: text::of(b), value: text::of(c) })
    } else if text::same(a, "connect") {
        let fields = vec![
            json::entry("serial", json::quote(b)),
            json::entry("connect_address", json::quote(c)),
        ];
        assert(fields.deep_view() =~= seq![
            ("serial"@, json_quote(b@)),
            ("connect_address"@, json_quote(c@)),
        ]);
        Some(Invocation::Send { kind: text::of(a), fields })
    } else {
        None
    }
}

fn invoke_four(a: &str, b: &str, c: &str, d: &str) -> (r: Option<Invocation>)
    ensures
        match r {
            Some(i) => invoked_four(a@, b@, c@, d@) == Some(i@),
            None => invoked_four(a@, b@, c@, d@) is None,
        },
{
    if text::same(a, "pair") {
        let fields = vec![
            json::entry("pair_address", json::quote(b)),
            json::entry("code", json::quote(c)),
            json::entry("connect_address", json::quote(d)),
        ];
        assert(fields.deep_view() =~= seq![
            ("pair_address"@, json_quote(b@)),
            ("code"@, json_quote(c@)),
            ("connect_address"@, json_quote(d@)),
        ]);
        Some(Invocation::Send { kind: text::of(a), fields })
    } else {
        None
    }
}

/// Reads a command line, without the program's name.
pub fn parse(args: &Vec<String>) -> (r: Invocation)
    ensures
        r@ == invoked(args.deep_view()),
{
    let ghost all = args.deep_view();
    assert(forall|i: int| 0 <= i < args.len() ==> #[trigger] all[i] == args[i]@);
    let known = if args.len() == 1 {
        invoke_one(&args[0])
    } else if args.len() == 2 {
        invoke_two(&args[0], &args[1])
    } else if args.len() == 3 {
        invoke_three(&args[0], &args[1], &args[2])
    } else if args.len() == 4 {
        invoke_four(&args[0], &args[1], &args[2], &args[3])
    } else {
        None
    };
    match known {
        Some(invocation) => invocation,
        None => Invocation::Usage {
            command: if args.len() > 0 {
                Some(args[0].copy())
            } else {
                None
            },
        },
    }
}

// ---------------------------------------------------------------------------
// A setting's value

pub const CROP_HELP: &'static str = "crop must be normalized x:y:width:height or none";

/// The texts in a setting's value that are to be read as numbers.
pub open spec fn numerals_of(setting: Seq<char>, value: Seq<char>) -> Seq<Seq<char>> {
    if setting == "zoom"@ {
        seq![value]
    } else if setting == "crop"@ && value != "none"@ {
        pieces(value, ':')
    } else {
        Seq::empty()
    }
}

pub fn numerals(setting: &str, value: &str) -> (r: Vec<String>)
    ensures
        r.deep_view() == numerals_of(setting@, value@),
{
    if text::same(setting, "zoom") {
        let r = vec![text::of(value)];
        assert(r.deep_view() =~= seq![value@]);
        r
    } else if text::same(setting, "crop") && !text::same(value, "none") {
        text::split(value, ':')
    } else {
        let r: Vec<String> = Vec::new();
        assert(r.deep_view() =~= Seq::empty());
        r
    }
}

/// Whether every text was a number.
pub open spec fn all_read(numbers: Seq<Option<Seq<char>>>) -> bool {
    forall|i: int| 0 <= i < numbers.len() ==> (#[trigger] numbers[i]) is Some
}

/// A setting's value as JSON, given what its numerals are as JSON numbers.
pub open spec fn value_of(
    setting: Seq<char>,
    value: Seq<char>,
    numbers: Seq<Option<Seq<char>>>,
) -> Result<Seq<char>, Seq<char>> {
    if setting == "frame-rate"@ {
        match parsed_unsigned(value, u32::MAX as nat) {
            Some(n) => Ok(decimal(n)),
            None => Err("frame-rate must be a positive integer"@),
        }
    } else if setting == "zoom"@ {
        if numbers.len() == 1 && all_read(numbers) {
            Ok(numbers[0]->0)
        } else {
            Err("zoom must be a number"@)
        }
    } else if setting == "crop"@ {
        if value == "none"@ {
            Ok("null"@)
        } else if numbers.len() == 4 && all_read(numbers) {
            Ok(
                json_object(
                    seq![
                        ("x"@, numbers[0]->0),
                        ("y"@, numbers[1]->0),
                        ("width"@, numbers[2]->0),
                        ("height"@, numbers[3]->0),
                    ],
                ),
            )
        } else {
            Err(CROP_HELP@)
        }
    } else if setting == "frame_rate"@ || setting == "aspect_ratio"@ {
        Err("use "@ + replaced(setting, '_', '-'))
    } else if setting == "lens"@ || setting == "resolution"@ || setting == "aspect-ratio"@ {
        Ok(json_quote(value))
    } else {
        Err("no such setting "@ + debug_text(setting))
    }
}

fn crop_value(numbers: &Vec<Option<String>>) -> (r: Option<String>)
    ensures
        match r {
            Some(json) => numbers.len() == 4 && all_read(numbers.deep_view()) && json@
                == json_object(
                seq![
                    ("x"@, numbers.deep_view()[0]->0),
                    ("y"@, numbers.deep_view()[1]->0),
                    ("width"@, numbers.deep_view()[2]->0),
                    ("height"@, numbers.deep_view()[3]->0),
                ],
            ),
            None => !(numbers.len() == 4 && all_read(numbers.deep_view())),
        },
{
    let ghost all = numbers.deep_view();
    if numbers.len() != 4 {
        return None;
    }
    assert(all[0] == numbers[0].deep_view());
    assert(all[1] == numbers[1].deep_view());
    assert(all[2] == numbers[2].deep_view());
    assert(all[3] == numbers[3].deep_view());
    match (&numbers[0], &numbers[1], &numbers[2], &numbers[3]) {
        (Some(x), Some(y), Some(width), Some(height)) => {
            let fields = vec![
                json::entry("x", x.copy()),
                json::entry("y", y.copy()),
                json::entry("width", width.copy()),
                json::entry("height", height.copy()),
            ];
            assert(fields.deep_view() =~= seq![
                ("x"@, all[0]->0),
                ("y"@, all[1]->0),
                ("width"@, all[2]->0),
                ("height"@, all[3]->0),
            ]);
            Some(json::object(&fields))
        },
        _ => None,
    }
}

/// Reads a setting's value, given its numerals as JSON numbers.
pub fn setting_value(setting: &str, value: &str, numbers: &Vec<Option<String>>) -> (r: Result<
    String,
    String,
>)
    ensures
        shown(r) == value_of(setting@, value@, numbers.deep_view()),
{
    if text::same(setting, "frame-rate") {
        match text::parse_unsigned(value, u32::MAX as u64) {
            Some(n) => Ok(text::number(n)),
            None => Err(text::of("frame-rate must be a positive integer")),
        }
    } else if text::same(setting, "zoom") {
        if numbers.len() == 1 {
            assert(numbers.deep_view()[0] == numbers[0].deep_view());
            match &numbers[0] {
                Some(json) => {
                    return Ok(json.copy());
                },
                None => {},
            }
        }
        Err(text::of("zoom must be a number"))
    } else if text::same(setting, "crop") {
        if text::same(value, "none") {
            return Ok(text::of("null"));
        }
        match crop_value(numbers) {
            Some(json) => Ok(json),
            None => Err(text::of(CROP_HELP)),
        }
    } else if text::same(setting, "frame_rate") || text::same(setting, "aspect_ratio") {
        Err(text::of("use ").concat(&text::replace(setting, '_', '-')))
    } else if text::same(setting, "lens") || text::same(setting, "resolution") || text::same(
        setting,
        "aspect-ratio",
    ) {
        Ok(json::quote(value))
    } else {
        Err(text::of("no such setting ").concat(&text::quoted(setting)))
    }
}

/// The fields of a request that changes a setting.
pub fn setting_fields(setting: &str, json: String) -> (r: Vec<(String, String)>)
    ensures
        r.deep_view() == seq![
            ("setting"@, json_quote(replaced(setting@, '-', '_'))),
            ("value"@, json@),
        ],
{
    let r = vec![
        json::entry("setting", json::quote(&text::replace(setting, '-', '_'))),
        json::entry("value", json),
    ];
    assert(r.deep_view() =~= seq![
        ("setting"@, json_quote(replaced(setting@, '-', '_'))),
        ("value"@, json@),
    ]);
    r
}

// ---------------------------------------------------------------------------
// The exchange

/// The id that the one request of a command carries.
pub open spec fn own_id() -> Seq<char> {
    json_quote("1"@)
}

/// A request as it is sent, without the newline.
pub open spec fn request_text(kind: Seq<char>, fields: Seq<(Seq<char>, Seq<char>)>) -> Seq<char> {
    json_object(
        seq![
            ("v"@, decimal(VERSION as nat)),
            ("id"@, own_id()),
            ("kind"@, json_quote(kind)),
        ] + fields,
    )
}

/// Writes a request.
pub fn request(kind: &str, fields: &Vec<(String, String)>) -> (r: String)
    ensures
        r@ == request_text(kind@, fields.deep_view()),
{
    let mut all = vec![
        json::entry("v", text::number(VERSION as u64)),
        json::entry("id", json::quote("1")),
        json::entry("kind", json::quote(kind)),
    ];
    let ghost head = seq![
        ("v"@, decimal(VERSION as nat)),
        ("id"@, own_id()),
        ("kind"@, json_quote(kind@)),
    ];
    assert(all.deep_view() =~= head);
    let mut i: usize = 0;
    assert(head + fields.deep_view().take(0) =~= head);
    while i < fields.len()
        invariant
            i <= fields.len(),
            all.deep_view() == head + fields.deep_view().take(i as int),
        decreases fields.len() - i,
    {
        let ghost before = all.deep_view();
        let one = fields[i].copy();
        all.push(one);
        assert(all.deep_view() =~= before.push(one.deep_view()));
        assert(fields.deep_view()[i as int] == one.deep_view());
        assert(head + fields.deep_view().take(i + 1) =~= (head + fields.deep_view().take(
            i as int,
        )).push(fields.deep_view()[i as int]));
        i = i + 1;
    }
    assert(fields.deep_view().take(i as int) =~= fields.deep_view());
    json::object(&all)
}

/// What a command has received: the last state, with its revision, and the
/// answer to its request. Both are JSON.
#[derive(Debug)]
pub struct Client {
    pub latest: Option<(u64, String)>,
    pub response: Option<String>,
}

#[verifier::ext_equal]
pub struct ClientView {
    pub latest: Option<(u64, Seq<char>)>,
    pub response: Option<Seq<char>>,
}

impl View for Client {
    type V = ClientView;

    open spec fn view(&self) -> ClientView {
        ClientView {
            latest: self.latest.deep_view(),
            response: self.response.deep_view(),
        }
    }
}

impl DeepView for Client {
    type V = ClientView;

    open spec fn deep_view(&self) -> ClientView {
        self@
    }
}

/// What a message adds to what was received. Messages that are neither a state
/// nor the answer to the command's own request add nothing.
pub open spec fn heard(client: ClientView, message: Seq<char>) -> Result<ClientView, Seq<char>> {
    let version = natural_in(message, "v"@);
    let kind = match json_field(message, "type"@) {
        Some(v) => json_string(v),
        None => None,
    };
    if version != Some(VERSION as u64) {
        Err(
            "daemon speaks protocol "@ + optional_number(version) + ", client expects "@ + decimal(
                VERSION as nat,
            ),
        )
    } else if kind == Some("state"@) {
        Ok(
            ClientView {
                latest: Some(
                    (
                        match natural_in(message, "rev"@) {
                            Some(rev) => rev,
                            None => 0,
                        },
                        match json_field(message, "state"@) {
                            Some(state) => state,
                            None => "null"@,
                        },
                    ),
                ),
                ..client
            },
        )
    } else if kind == Some("response"@) && json_field(message, "id"@) == Some(own_id()) {
        Ok(ClientView { response: Some(message), ..client })
    } else {
        Ok(client)
    }
}

/// Whether the last state reflects the request: it is at or after the revision
/// that the answer names.
pub open spec fn settled(client: ClientView) -> bool {
    match (client.latest, client.response) {
        (Some((rev, _)), Some(response)) => rev >= (match natural_in(response, "rev"@) {
            Some(n) => n,
            None => 0,
        }),
        _ => false,
    }
}

impl Client {
    pub fn new() -> (r: Self)
        ensures
            r@ == (ClientView { latest: None, response: None }),
    {
        Client { latest: None, response: None }
    }

    /// Takes a line from the daemon.
    pub fn receive(&mut self, line: &Vec<u8>) -> (r: Result<(), String>)
        ensures
            match json_value(line.deep_view()) {
                Err(e) => r matches Err(own) && own@ == e && final(self)@ == old(self)@,
                Ok(message) => match heard(old(self)@, message) {
                    Ok(client) => r is Ok && final(self)@ == client,
                    Err(e) => r matches Err(own) && own@ == e && final(self)@ == old(self)@,
                },
            },
    {
        match json::read(line) {
            Err(e) => Err(e),
            Ok(message) => self.hear(&message),
        }
    }

    /// Takes a message from the daemon that is JSON.
    pub fn hear(&mut self, message: &str) -> (r: Result<(), String>)
        ensures
            match heard(old(self)@, message@) {
                Ok(client) => r is Ok && final(self)@ == client,
                Err(e) => r matches Err(own) && own@ == e && final(self)@ == old(self)@,
            },
            forall|rev: u64, ok: bool| #[trigger]
                answers(message@, own_id(), rev, ok) ==> r is Ok && final(self)@ == (ClientView {
                    response: Some(message@),
                    ..old(self)@
                }),
    {
        proof {
            reveal_strlit("state");
            reveal_strlit("response");
            assert("state"@.len() == 5 && "response"@.len() == 8);
            assert(decimal(VERSION as nat) == decimal((VERSION as u64) as nat));
        }
        let version = natural_field(message, "v");
        if version != Some(VERSION as u64) {
            return Err(
                text::of("daemon speaks protocol ").concat(&show_number(version)).concat(
                    ", client expects ",
                ).concat(&text::number(VERSION as u64)),
            );
        }
        let kind = match json::field(message, "type") {
            Some(v) => json::string(&v),
            None => None,
        };
        if text::same_as(&kind, "state") {
            let rev: u64 = match natural_field(message, "rev") {
                Some(rev) => rev,
                None => 0,
            };
            let state = match json::field(message, "state") {
                Some(state) => state,
                None => text::of("null"),
            };
            self.latest = Some((rev, state));
        } else if text::same_as(&kind, "response") && text::same_as(
            &json::field(message, "id"),
            &json::quote("1"),
        ) {
            self.response = Some(text::of(message));
        }
        Ok(())
    }

    /// Whether the last state reflects the request.
    pub fn ready(&self) -> (r: bool)
        ensures
            r == settled(self@),
            forall|response: Seq<char>, rev: u64, ok: bool|
                self@.response == Some(response) && #[trigger] answers(response, own_id(), rev, ok)
                    ==> r == (self@.latest matches Some(latest) && latest.0 >= rev),
    {
        match (&self.latest, &self.response) {
            (Some((rev, _)), Some(response)) => {
                let named: u64 = match natural_field(response, "rev") {
                    Some(n) => n,
                    None => 0,
                };
                *rev >= named
            },
            _ => false,
        }
    }
}

fn natural_field(value: &str, key: &str) -> (r: Option<u64>)
    ensures
        r == natural_in(value@, key@),
        forall|n: u64| json_field(value@, key@) == Some(#[trigger] decimal(n as nat)) ==> r == Some(
            n,
        ),
{
    match json::field(value, key) {
        Some(v) => json::natural(&v),
        None => None,
    }
}

/// How a request went, as its answer says.
#[derive(Debug)]
pub struct Verdict {
    pub ok: bool,
    pub code: String,
    pub message: String,
}

#[verifier::ext_equal]
pub struct VerdictView {
    pub ok: bool,
    pub code: Seq<char>,
    pub message: Seq<char>,
}

impl View for Verdict {
    type V = VerdictView;

    open spec fn view(&self) -> VerdictView {
        VerdictView {
            ok: self.ok.deep_view(),
            code: self.code.deep_view(),
            message: self.message.deep_view(),
        }
    }
}

impl DeepView for Verdict {
    type V = VerdictView;

    open spec fn deep_view(&self) -> VerdictView {
        self@
    }
}

/// What a field of an answer's error says.
pub open spec fn error_field(response: Seq<char>, key: Seq<char>) -> Option<Seq<char>> {
    match json_field(response, "error"@) {
        Some(error) => match json_field(error, key) {
            Some(v) => json_string(v),
            None => None,
        },
        None => None,
    }
}

/// How a request went.
pub open spec fn verdict_of(response: Seq<char>) -> VerdictView {
    VerdictView {
        ok: json_field(response, "ok"@) == Some("true"@),
        code: match error_field(response, "code"@) {
            Some(code) => code,
            None => "error"@,
        },
        message: match error_field(response, "message"@) {
            Some(message) => message,
            None => Seq::empty(),
        },
    }
}

fn field_of_error(response: &str, key: &str) -> (r: Option<String>)
    ensures
        r.deep_view() == error_field(response@, key@),
        forall|s: Seq<char>|
            (json_field(response@, "error"@) matches Some(error) && json_field(error, key@) == Some(
                #[trigger] json_quote(s),
            )) ==> r.deep_view() == Some(s),
{
    match json::field(response, "error") {
        Some(error) => match json::field(&error, key) {
            Some(v) => json::string(&v),
            None => None,
        },
        None => None,
    }
}

/// Reads how a request went: what the daemon wrote is what is read.
pub fn verdict(response: &str) -> (r: Verdict)
    ensures
        r@ == verdict_of(response@),
        forall|id: Seq<char>, rev: u64, ok: bool| #[trigger]
            answers(response@, id, rev, ok) ==> r.ok == ok,
        forall|code: Seq<char>, why: Seq<char>| #[trigger]
            explains(response@, code, why) ==> r.code@ == code && r.message@ == why,
{
    proof {
        reveal_strlit("true");
        reveal_strlit("false");
        assert("true"@.len() == 4 && "false"@.len() == 5);
    }
    Verdict {
        ok: text::same_as(&json::field(response, "ok"), "true"),
        code: match field_of_error(response, "code") {
            Some(code) => code,
            None => text::of("error"),
        },
        message: match field_of_error(response, "message") {
            Some(message) => message,
            None => String::new(),
        },
    }
}

/// Not part of the error: the daemon cannot tell why scrcpy gave up, and this
/// is something only the person holding the phone can act on.
pub const TIP: &'static str =
    "tip: another app on the phone may be holding the camera — close it and try again; face unlock is one of them, so unlock with a PIN while a capture is running";

/// What is said of a request that was not done.
pub open spec fn complaint_of(verdict: VerdictView) -> Seq<char> {
    let line = "omavcam: "@ + verdict.code + ": "@ + verdict.message;
    if verdict.code == "capture_failed"@ {
        line + "\n"@ + TIP@
    } else {
        line
    }
}

/// The words for a request that was not done, and nothing for one that was.
pub fn complaint(verdict: &Verdict) -> (r: Option<String>)
    ensures
        match r {
            Some(words) => !verdict.ok && words@ == complaint_of(verdict@),
            None => verdict.ok,
        },
{
    if verdict.ok {
        return None;
    }
    let line = text::of("omavcam: ").concat(&verdict.code).concat(": ").concat(&verdict.message);
    if text::same(&verdict.code, "capture_failed") {
        Some(line.concat("\n").concat(TIP))
    } else {
        Some(line)
    }
}

/// What a command exits with once it was answered.
pub fn exit_code(verdict: &Verdict) -> (r: u8)
    ensures
        r == (if verdict.ok {
            0u8
        } else {
            1u8
        }),
{
    if verdict.ok {
        0
    } else {
        1
    }
}

// ---------------------------------------------------------------------------
// The state in words

/// A phone by the name a person recognises and by its serial.
pub open spec fn who(phone: PhoneView) -> Seq<char> {
    phone.name + " ("@ + phone.serial + ")"@
}

fn name_phone(phone: &Phone) -> (r: String)
    ensures
        r@ == who(phone@),
{
    phone.name.copy().concat(" (").concat(&phone.serial).concat(")")
}

pub open spec fn phone_entry(phone: PhoneView) -> Seq<char> {
    "  "@ + who(phone) + "\n"@
}

fn enter_phone(phone: &Phone) -> (r: String)
    ensures
        r@ == phone_entry(phone@),
{
    text::of("  ").concat(&name_phone(phone)).concat("\n")
}

/// Phones, a line each.
pub open spec fn phone_entries(list: Seq<PhoneView>) -> Seq<char>
    decreases list.len(),
{
    if list.len() == 0 {
        Seq::empty()
    } else {
        phone_entries(list.drop_last()) + phone_entry(list.last())
    }
}

fn list_phones(list: &Vec<Phone>) -> (r: String)
    ensures
        r@ == phone_entries(list.deep_view()),
{
    let ghost all = list.deep_view();
    let mut r: String = String::new();
    let mut i: usize = 0;
    assert(all.take(0) =~= Seq::empty());
    while i < list.len()
        invariant
            i <= list.len(),
            all == list.deep_view(),
            r@ == phone_entries(all.take(i as int)),
        decreases list.len() - i,
    {
        assert(all.take(i + 1).drop_last() =~= all.take(i as int));
        assert(all.take(i + 1).last() == list[i as int]@);
        r = r.concat(&enter_phone(&list[i]));
        i = i + 1;
    }
    assert(all.take(i as int) =~= all);
    r
}

pub const PAIRING_GUIDE: &'static str =
    "phone: wireless pairing needed\nopen Developer options → Wireless debugging → Pair device with pairing code; the pairing address beside the six-digit code and the connect address on the main screen are different\nthen run: omavcam pair <pair-address> <code> <connect-address>";

pub const UNREACHABLE_GUIDE: &'static str =
    "\nwake it and check both devices are on the same network; if the phone rebooted or wireless debugging was toggled, re-read the connect address from its main wireless debugging screen — do not pair again";

/// The connection, with the advice that belongs to it: which phone to look at,
/// or which command to run next.
pub open spec fn connection_words(connection: ConnectionView) -> Seq<char> {
    match connection {
        ConnectionView::NoPhone => "phone: none"@,
        ConnectionView::Unselected { available } => "phone: "@ + decimal(available.len())
            + " attached, none selected\n"@ + phone_entries(available)
            + "choose one with: omavcam select <serial>"@,
        ConnectionView::Unauthorised { phone } => "phone: "@ + who(phone)
            + " — unauthorised\naccept the debugging prompt on the phone"@,
        ConnectionView::Connecting { phone } => "phone: "@ + who(phone) + " — connecting"@,
        ConnectionView::Connected { phone } => "phone: "@ + who(phone) + " — connected"@,
        ConnectionView::Reconnecting { phone } => "phone: "@ + who(phone) + " — reconnecting"@,
        ConnectionView::NeedsPairing => PAIRING_GUIDE@,
        ConnectionView::PairingFailed { reason } => "phone: wireless pairing failed — "@ + (
        match reason {
            PairingFailure::WrongCode => "wrong code"@,
            PairingFailure::WrongAddress => "wrong pairing address"@,
            PairingFailure::Unreachable =>
                "unreachable; check both devices are on the same network"@,
        }),
        ConnectionView::Unreachable { phone, connect_address } => "phone: "@ + who(phone)
            + " — unreachable at "@ + connect_address + UNREACHABLE_GUIDE@,
    }
}

fn describe_connection(connection: &Connection) -> (r: String)
    ensures
        r@ == connection_words(connection@),
{
    match connection {
        Connection::NoPhone => text::of("phone: none"),
        Connection::Unselected { available } => text::of("phone: ").concat(
            &text::number(available.len() as u64),
        ).concat(" attached, none selected\n").concat(&list_phones(available)).concat(
            "choose one with: omavcam select <serial>",
        ),
        Connection::Unauthorised { phone } => text::of("phone: ").concat(&name_phone(phone)).concat(
            " — unauthorised\naccept the debugging prompt on the phone",
        ),
        Connection::Connecting { phone } => text::of("phone: ").concat(&name_phone(phone)).concat(
            " — connecting",
        ),
        Connection::Connected { phone } => text::of("phone: ").concat(&name_phone(phone)).concat(
            " — connected",
        ),
        Connection::Reconnecting { phone } => text::of("phone: ").concat(&name_phone(phone)).concat(
            " — reconnecting",
        ),
        Connection::NeedsPairing => text::of(PAIRING_GUIDE),
        Connection::PairingFailed { reason } => text::of("phone: wireless pairing failed — ").concat(
            match reason {
                PairingFailure::WrongCode => "wrong code",
                PairingFailure::WrongAddress => "wrong pairing address",
                PairingFailure::Unreachable =>
                    "unreachable; check both devices are on the same network",
            },
        ),
        Connection::Unreachable { phone, connect_address } => text::of("phone: ").concat(
            &name_phone(phone),
        ).concat(" — unreachable at ").concat(connect_address).concat(UNREACHABLE_GUIDE),
    }
}

pub open spec fn known_entry(known: KnownPhoneView) -> Seq<char> {
    "\n  "@ + who(known.phone) + " — "@ + (match known.transport {
        Transport::Wired => "wired"@,
        Transport::Wireless => "wireless"@,
    })
}

fn enter_known(known: &KnownPhone) -> (r: String)
    ensures
        r@ == known_entry(known@),
{
    text::of("\n  ").concat(&name_phone(&known.phone)).concat(" — ").concat(
        match known.transport {
            Transport::Wired => "wired",
            Transport::Wireless => "wireless",
        },
    )
}

/// Known phones, a line each.
pub open spec fn known_entries(list: Seq<KnownPhoneView>) -> Seq<char>
    decreases list.len(),
{
    if list.len() == 0 {
        Seq::empty()
    } else {
        known_entries(list.drop_last()) + known_entry(list.last())
    }
}

fn list_known(list: &Vec<KnownPhone>) -> (r: String)
    ensures
        r@ == known_entries(list.deep_view()),
{
    let ghost all = list.deep_view();
    let mut r: String = String::new();
    let mut i: usize = 0;
    assert(all.take(0) =~= Seq::empty());
    while i < list.len()
        invariant
            i <= list.len(),
            all == list.deep_view(),
            r@ == known_entries(all.take(i as int)),
        decreases list.len() - i,
    {
        assert(all.take(i + 1).drop_last() =~= all.take(i as int));
        assert(all.take(i + 1).last() == list[i as int]@);
        r = r.concat(&enter_known(&list[i]));
        i = i + 1;
    }
    assert(all.take(i as int) =~= all);
    r
}

/// Frame rates as texts.
pub open spec fn rate_texts(rates: Seq<u32>) -> Seq<Seq<char>> {
    rates.map_values(|rate: u32| decimal(rate as nat))
}

fn write_rates(rates: &Vec<u32>) -> (r: Vec<String>)
    ensures
        r.deep_view() == rate_texts(rates.deep_view()),
{
    let ghost all = rate_texts(rates.deep_view());
    let mut r: Vec<String> = Vec::new();
    let mut i: usize = 0;
    while i < rates.len()
        invariant
            i <= rates.len(),
            all == rate_texts(rates.deep_view()),
            r.deep_view() == all.take(i as int),
        decreases rates.len() - i,
    {
        let ghost before = r.deep_view();
        let one = text::number(rates[i] as u64);
        assert(one@ == all[i as int]);
        r.push(one);
        assert(r.deep_view() =~= before.push(one@));
        assert(all.take(i + 1) =~= all.take(i as int).push(all[i as int]));
        i = i + 1;
    }
    assert(all.take(i as int) =~= all);
    r
}

/// What a lens can do.
pub open spec fn lens_entry(lens: LensView) -> Seq<char> {
    "\n  lens "@ + lens.id + " — "@ + lens.facing + ", sensor "@ + lens.sensor_size
        + "\n    resolutions "@ + joined(lens.resolutions, ", "@) + "\n    fps "@ + joined(
        rate_texts(lens.frame_rates),
        ", "@,
    ) + "\n    zoom ["@ + lens.zoom_min.text + ", "@ + lens.zoom_max.text + "]"@
}

fn enter_lens(lens: &Lens) -> (r: String)
    ensures
        r@ == lens_entry(lens@),
{
    text::of("\n  lens ").concat(&lens.id).concat(" — ").concat(&lens.facing).concat(
        ", sensor ",
    ).concat(&lens.sensor_size).concat("\n    resolutions ").concat(
        &text::join(&lens.resolutions, ", "),
    ).concat("\n    fps ").concat(&text::join(&write_rates(&lens.frame_rates), ", ")).concat(
        "\n    zoom [",
    ).concat(&lens.zoom_min.text).concat(", ").concat(&lens.zoom_max.text).concat("]")
}

/// Lenses, one after the other.
pub open spec fn lens_entries(list: Seq<LensView>) -> Seq<char>
    decreases list.len(),
{
    if list.len() == 0 {
        Seq::empty()
    } else {
        lens_entries(list.drop_last()) + lens_entry(list.last())
    }
}

fn list_lenses(list: &Vec<Lens>) -> (r: String)
    ensures
        r@ == lens_entries(list.deep_view()),
{
    let ghost all = list.deep_view();
    let mut r: String = String::new();
    let mut i: usize = 0;
    assert(all.take(0) =~= Seq::empty());
    while i < list.len()
        invariant
            i <= list.len(),
            all == list.deep_view(),
            r@ == lens_entries(all.take(i as int)),
        decreases list.len() - i,
    {
        assert(all.take(i + 1).drop_last() =~= all.take(i as int));
        assert(all.take(i + 1).last() == list[i as int]@);
        r = r.concat(&enter_lens(&list[i]));
        i = i + 1;
    }
    assert(all.take(i as int) =~= all);
    r
}

/// The settings, what the cameras can do, and why an Apply was rejected.
pub open spec fn settings_words(settings: Option<SettingsStateView>) -> Seq<char> {
    match settings {
        None => "settings: unavailable"@,
        Some(s) => "settings: lens "@ + s.pending.lens + ", "@ + s.pending.resolution + ", "@
            + decimal(s.pending.frame_rate as nat) + "fps, "@ + s.pending.aspect_ratio + ", zoom "@
            + s.pending.zoom.text + (if s.has_pending_changes {
            " — pending Apply"@
        } else {
            " — applied"@
        }) + lens_entries(s.lenses) + "\noffered resolutions: "@ + joined(
            s.offered_resolutions,
            ", "@,
        ) + (match s.rejected {
            Some(message) => "\nrejected: "@ + message,
            None => Seq::empty(),
        }),
    }
}

fn describe_settings(settings: &Option<SettingsState>) -> (r: String)
    ensures
        r@ == settings_words(settings.deep_view()),
{
    match settings {
        None => text::of("settings: unavailable"),
        Some(s) => {
            let rejected = match &s.rejected {
                Some(message) => text::of("\nrejected: ").concat(message),
                None => String::new(),
            };
            text::of("settings: lens ").concat(&s.pending.lens).concat(", ").concat(
                &s.pending.resolution,
            ).concat(", ").concat(&text::number(s.pending.frame_rate as u64)).concat(
                "fps, ",
            ).concat(&s.pending.aspect_ratio).concat(", zoom ").concat(
                &s.pending.zoom.text,
            ).concat(
                if s.has_pending_changes {
                    " — pending Apply"
                } else {
                    " — applied"
                },
            ).concat(&list_lenses(&s.lenses)).concat("\noffered resolutions: ").concat(
                &text::join(&s.offered_resolutions, ", "),
            ).concat(&rejected)
        },
    }
}

/// The capture.
pub open spec fn capture_words(capture: Option<CaptureView>) -> Seq<char> {
    match capture {
        None => "none"@,
        Some(c) => c.size + " from "@ + who(c.phone) + " to "@ + c.node + (if c.stay_awake {
            " — staying awake"@
        } else {
            Seq::empty()
        }),
    }
}

fn describe_capture(state: &State) -> (r: String)
    ensures
        r@ == capture_words(state@.capture),
{
    match &state.capture {
        None => text::of("none"),
        Some(c) => {
            let line = c.size.copy().concat(" from ").concat(&name_phone(&c.phone)).concat(
                " to ",
            ).concat(&c.node);
            if c.stay_awake {
                line.concat(" — staying awake")
            } else {
                assert(line@ + Seq::<char>::empty() =~= line@);
                line
            }
        },
    }
}

pub open spec fn missing_entry(missing: MissingView) -> Seq<char> {
    "\nmissing: "@ + missing.what + " — install with: "@ + missing.install
}

fn enter_missing(missing: &Missing) -> (r: String)
    ensures
        r@ == missing_entry(missing@),
{
    text::of("\nmissing: ").concat(&missing.what).concat(" — install with: ").concat(
        &missing.install,
    )
}

/// What is missing, a line each.
pub open spec fn missing_entries(list: Seq<MissingView>) -> Seq<char>
    decreases list.len(),
{
    if list.len() == 0 {
        Seq::empty()
    } else {
        missing_entries(list.drop_last()) + missing_entry(list.last())
    }
}

fn list_missing(list: &Vec<Missing>) -> (r: String)
    ensures
        r@ == missing_entries(list.deep_view()),
{
    let ghost all = list.deep_view();
    let mut r: String = String::new();
    let mut i: usize = 0;
    assert(all.take(0) =~= Seq::empty());
    while i < list.len()
        invariant
            i <= list.len(),
            all == list.deep_view(),
            r@ == missing_entries(all.take(i as int)),
        decreases list.len() - i,
    {
        assert(all.take(i + 1).drop_last() =~= all.take(i as int));
        assert(all.take(i + 1).last() == list[i as int]@);
        r = r.concat(&enter_missing(&list[i]));
        i = i + 1;
    }
    assert(all.take(i as int) =~= all);
    r
}

/// What a command prints of a state.
pub open spec fn rendered(state: StateView) -> Seq<char> {
    "adb: "@ + (if state.adb_ok {
        "ok"@
    } else {
        "unavailable"@
    }) + "\n"@ + connection_words(state.connection) + "\n"@ + (if state.known.len() == 0 {
        "known phones: none"@
    } else {
        "known phones:"@ + known_entries(state.known)
    }) + "\ncapture: "@ + capture_words(state.capture) + "\n"@ + settings_words(state.settings)
        + missing_entries(state.missing)
}

pub fn render(state: &State) -> (r: String)
    ensures
        r@ == rendered(state@),
{
    let known = if state.known.len() == 0 {
        text::of("known phones: none")
    } else {
        text::of("known phones:").concat(&list_known(&state.known))
    };
    text::of("adb: ").concat(
        if state.adb_ok {
            "ok"
        } else {
            "unavailable"
        },
    ).concat("\n").concat(&describe_connection(&state.connection)).concat("\n").concat(
        &known,
    ).concat("\ncapture: ").concat(&describe_capture(state)).concat("\n").concat(
        &describe_settings(&state.settings),
    ).concat(&list_missing(&state.missing))
}

} // verus!
