//! Which phones adb can see, which one is selected, and what that adds up to.
//!
//! The rule that matters is that the daemon never guesses: the second phone on
//! the desk is usually charging, not waiting to be a webcam.

use vstd::prelude::*;

use crate::lists;
use crate::lists::{first, found, kept, key_of, lemma_first, lemma_kept_push, sorted, Order};
use crate::outside::{succeeded, Outcome, OutcomeView, Outside, OutsideView};
use crate::plain::{shown, Plain};
use crate::protocol;
use crate::protocol::{
    Connection, ConnectionView, KnownPhone, KnownPhoneView, PairingFailure, Phone, PhoneView,
    Transport,
};
use crate::settings::{CameraSettings, CameraSettingsView};
use crate::table::{lookup, Table};
use crate::text;
use crate::text::{
    all_digits, begins, decimal, holds, last_halves, lossy_text, lowercase_text, parsed_unsigned,
    replaced, text_lines, trimmed, without_prefix, words,
};

verus! {

/// One line of `adb devices -l`: the serial, adb's own word for its state, and
/// the model if adb knows it: an unauthorised phone reports none.
#[derive(Debug, PartialEq)]
pub struct Attached {
    pub serial: String,
    pub adb_state: String,
    pub name: String,
}

#[verifier::ext_equal]
pub struct AttachedView {
    pub serial: Seq<char>,
    pub adb_state: Seq<char>,
    pub name: Seq<char>,
}

impl View for Attached {
    type V = AttachedView;

    open spec fn view(&self) -> AttachedView {
        AttachedView {
            serial: self.serial.deep_view(),
            adb_state: self.adb_state.deep_view(),
            name: self.name.deep_view(),
        }
    }
}

impl DeepView for Attached {
    type V = AttachedView;

    open spec fn deep_view(&self) -> AttachedView {
        self@
    }
}

impl Plain for Attached {
    fn same(&self, other: &Self) -> bool {
        self.serial.same(&other.serial)
            && self.adb_state.same(&other.adb_state)
            && self.name.same(&other.name)
    }

    fn copy(&self) -> Self {
        Attached {
            serial: self.serial.copy(),
            adb_state: self.adb_state.copy(),
            name: self.name.copy(),
        }
    }
}

/// The phone that a line is about.
pub open spec fn phone_of(attached: AttachedView) -> PhoneView {
    PhoneView { serial: attached.serial, name: attached.name }
}

/// What a client is told about an attached phone. adb's own vocabulary does
/// not travel: the only part of it a client can act on is whether the phone
/// will answer.
pub open spec fn told_of(attached: AttachedView) -> protocol::AttachedView {
    protocol::AttachedView {
        phone: phone_of(attached),
        authorised: attached.adb_state != "unauthorized"@,
    }
}

/// What a client is told about every attached phone.
pub open spec fn told(attached: Seq<AttachedView>) -> Seq<protocol::AttachedView> {
    attached.map_values(|a: AttachedView| told_of(a))
}

/// The phones that lines are about.
pub open spec fn phones_of(attached: Seq<AttachedView>) -> Seq<PhoneView> {
    attached.map_values(|a: AttachedView| phone_of(a))
}

impl Attached {
    pub fn phone(&self) -> (r: Phone)
        ensures
            r@ == phone_of(self@),
    {
        Phone { serial: self.serial.copy(), name: self.name.copy() }
    }

    pub fn told(&self) -> (r: protocol::Attached)
        ensures
            r@ == told_of(self@),
    {
        protocol::Attached {
            phone: self.phone(),
            authorised: !text::same(&self.adb_state, "unauthorized"),
        }
    }
}

/// What a client is told about every attached phone.
pub fn listed(attached: &Vec<Attached>) -> (r: Vec<protocol::Attached>)
    ensures
        r.deep_view() == told(attached.deep_view()),
{
    let ghost all = told(attached.deep_view());
    let mut r: Vec<protocol::Attached> = Vec::new();
    let mut i: usize = 0;
    while i < attached.len()
        invariant
            i <= attached.len(),
            all == told(attached.deep_view()),
            r.deep_view() == all.take(i as int),
        decreases attached.len() - i,
    {
        let ghost sofar = r.deep_view();
        let one = attached[i].told();
        assert(one@ == all[i as int]);
        r.push(one);
        assert(r.deep_view() =~= sofar.push(one@));
        assert(all.take(i + 1) =~= all.take(i as int).push(all[i as int]));
        i = i + 1;
    }
    assert(all.take(i as int) =~= all);
    r
}

// ---------------------------------------------------------------------------
// What adb prints

/// Whether a line is the header or adb's own chatter, told by what it says
/// rather than by where it is.
pub open spec fn chatter(line: Seq<char>) -> bool {
    begins(line, "List of devices"@) || begins(line, "*"@)
}

/// A field that names the model.
pub open spec fn names_model() -> spec_fn(Seq<char>) -> bool {
    |field: Seq<char>| without_prefix(field, "model:"@) is Some
}

/// The phone that a line of `adb devices -l` describes, if it does.
pub open spec fn phone_line(line: Seq<char>) -> Option<AttachedView> {
    let fields = words(line);
    if chatter(line) || fields.len() < 2 {
        None
    } else {
        Some(
            AttachedView {
                serial: fields[0],
                adb_state: fields[1],
                name: match found(fields.skip(2), names_model()) {
                    Some(field) => replaced(without_prefix(field, "model:"@)->0, '_', ' '),
                    None => fields[0],
                },
            },
        )
    }
}

/// The phones that lines describe.
pub open spec fn phone_lines(lines: Seq<Seq<char>>) -> Seq<AttachedView>
    decreases lines.len(),
{
    if lines.len() == 0 {
        Seq::empty()
    } else {
        let front = phone_lines(lines.drop_last());
        match phone_line(lines.last()) {
            Some(phone) => front.push(phone),
            None => front,
        }
    }
}

fn parse_line(line: &str) -> (r: Option<Attached>)
    ensures
        r.deep_view() == phone_line(line@),
{
    if text::starts_with(line, "List of devices") || text::starts_with(line, "*") {
        return None;
    }
    let fields = text::split_words(line);
    if fields.len() < 2 {
        return None;
    }
    let ghost rest = fields.deep_view().skip(2);
    let serial = fields[0].copy();
    let adb_state = fields[1].copy();
    let mut i: usize = 2;
    proof {
        lemma_first(rest, names_model());
    }
    while i < fields.len()
        invariant
            2 <= i <= fields.len(),
            fields.deep_view() == words(line@),
            !chatter(line@),
            rest == fields.deep_view().skip(2),
            serial@ == words(line@)[0],
            adb_state@ == words(line@)[1],
            forall|j: int| 0 <= j < i - 2 ==> !names_model()(#[trigger] rest[j]),
        decreases fields.len() - i,
    {
        assert(rest[i - 2] == fields[i as int]@);
        match text::strip_prefix(&fields[i], "model:") {
            Some(model) => {
                proof {
                    lemma_first(rest, names_model());
                }
                return Some(
                    Attached { serial, adb_state, name: text::replace(&model, '_', ' ') },
                );
            },
            None => {},
        }
        i = i + 1;
    }
    let name = serial.copy();
    Some(Attached { serial, adb_state, name })
}

/// The phones that `adb devices -l` lists.
pub fn parse(output: &str) -> (r: Vec<Attached>)
    ensures
        r.deep_view() == phone_lines(text_lines(output@)),
{
    let lines = text::lines(output);
    let ghost all = lines.deep_view();
    let mut r: Vec<Attached> = Vec::new();
    let mut i: usize = 0;
    assert(r.deep_view() =~= Seq::empty());
    assert(all.take(0) =~= Seq::empty());
    while i < lines.len()
        invariant
            i <= lines.len(),
            all == lines.deep_view(),
            r.deep_view() == phone_lines(all.take(i as int)),
        decreases lines.len() - i,
    {
        assert(all.take(i + 1).drop_last() =~= all.take(i as int));
        assert(all.take(i + 1).last() == lines[i as int]@);
        match parse_line(&lines[i]) {
            Some(phone) => {
                let ghost sofar = r.deep_view();
                r.push(phone);
                assert(r.deep_view() =~= sofar.push(phone@));
            },
            None => {},
        }
        i = i + 1;
    }
    assert(all.take(i as int) =~= all);
    r
}

/// By serial.
pub struct BySerial;

impl Order<Attached> for BySerial {
    open spec fn key(v: AttachedView) -> Seq<char> {
        v.serial
    }

    fn key_text(item: &Attached) -> String {
        item.serial.copy()
    }
}

impl Order<KnownPhone> for BySerial {
    open spec fn key(v: KnownPhoneView) -> Seq<char> {
        v.phone.serial
    }

    fn key_text(item: &KnownPhone) -> String {
        item.phone.serial.copy()
    }
}

/// By identity.
pub struct ById;

impl Order<KnownPhone> for ById {
    open spec fn key(v: KnownPhoneView) -> Seq<char> {
        v.id
    }

    fn key_text(item: &KnownPhone) -> String {
        item.id.copy()
    }
}

/// The attached phones in the order of their serials: adb's own order is no
/// promise, and two phones changing places is no change.
pub open spec fn by_serial(attached: Seq<AttachedView>) -> Seq<AttachedView> {
    sorted(attached, key_of::<Attached, BySerial>())
}

// ---------------------------------------------------------------------------
// Asking adb

pub open spec fn devices_command() -> Seq<Seq<char>> {
    seq!["adb"@, "devices"@, "-l"@]
}

/// The phones adb can see, or why it cannot say.
#[verifier::opaque]
pub open spec fn scanned(o: OutsideView) -> (
    OutsideView,
    Result<Seq<AttachedView>, Seq<char>>,
) {
    let (o, outcome) = o.run(devices_command(), true);
    (
        o,
        match outcome {
            OutcomeView::Failed { error, .. } => Err(error),
            OutcomeView::Exited { success, status, stdout, .. } => if success {
                Ok(by_serial(phone_lines(text_lines(lossy_text(stdout)))))
            } else {
                Err("adb devices failed with "@ + status)
            },
        },
    )
}

/// Asks adb which phones it can see. This and starting its server are the only
/// calls with no phone to name; every other one is targeted.
pub fn scan(o: &mut Outside) -> (r: Result<Vec<Attached>, String>)
    ensures
        (final(o)@, shown(r)) == scanned(old(o)@),
{
    proof {
        reveal(scanned);
    }
    let argv = vec![text::of("adb"), text::of("devices"), text::of("-l")];
    assert(argv.deep_view() =~= devices_command());
    match o.run(argv, true) {
        Outcome::Failed { error, .. } => Err(error),
        Outcome::Exited { success, status, stdout, .. } => {
            if success {
                Ok(lists::sort::<Attached, BySerial>(&parse(&text::decoded(&stdout))))
            } else {
                Err(text::of("adb devices failed with ").concat(&status))
            }
        },
    }
}

pub open spec fn state_command(serial: Seq<char>) -> Seq<Seq<char>> {
    seq!["adb"@, "-s"@, serial, "get-state"@]
}

/// Whether a phone answers when it is asked directly.
#[verifier::opaque]
pub open spec fn answered(o: OutsideView, serial: Seq<char>) -> (OutsideView, bool) {
    let (o, outcome) = o.run(state_command(serial), false);
    (o, succeeded(outcome))
}

/// Asks the selected phone directly whether it is there. Its answer is the
/// exit status, not the output, so it stays honest even when adb is chatty.
pub fn connect(o: &mut Outside, serial: &str) -> (r: bool)
    ensures
        (final(o)@, r) == answered(old(o)@, serial@),
{
    proof {
        reveal(answered);
    }
    let argv = vec![text::of("adb"), text::of("-s"), text::of(serial), text::of("get-state")];
    assert(argv.deep_view() =~= state_command(serial@));
    o.run(argv, false).success()
}

/// Whether a text is a host and a port.
pub open spec fn endpoint(s: Seq<char>) -> bool {
    match last_halves(s, ':') {
        None => false,
        Some((host, port)) => {
            &&& host.len() > 0
            &&& !text::has_space(host)
            &&& parsed_unsigned(port, u16::MAX as nat) matches Some(n) && n != 0
        },
    }
}

pub fn valid_endpoint(endpoint: &str) -> (r: bool)
    ensures
        r == self::endpoint(endpoint@),
{
    match text::rsplit_once(endpoint, ':') {
        None => false,
        Some((host, port)) => {
            let port: Option<u64> = text::parse_unsigned(&port, u16::MAX as u64);
            text::chars(&host).len() > 0 && !text::any_space(&host) && match port {
                Some(n) => n != 0,
                None => false,
            }
        },
    }
}

/// Whether a text holds one of several others.
pub open spec fn holds_any(s: Seq<char>, needles: Seq<Seq<char>>) -> bool {
    exists|i: int| 0 <= i < needles.len() && holds(s, #[trigger] needles[i])
}

fn contains_any(s: &str, needles: &Vec<String>) -> (r: bool)
    ensures
        r == holds_any(s@, needles.deep_view()),
{
    let mut i: usize = 0;
    while i < needles.len()
        invariant
            i <= needles.len(),
            forall|j: int| 0 <= j < i ==> !holds(s@, #[trigger] needles.deep_view()[j]),
        decreases needles.len() - i,
    {
        assert(needles.deep_view()[i as int] == needles[i as int]@);
        if text::contains(s, &needles[i]) {
            return true;
        }
        i = i + 1;
    }
    false
}

/// Everything a tool said, in lower case.
pub open spec fn said(stdout: Seq<u8>, stderr: Seq<u8>) -> Seq<char> {
    lowercase_text(lossy_text(stdout) + " "@ + lossy_text(stderr))
}

fn everything(stdout: &Vec<u8>, stderr: &Vec<u8>) -> (r: String)
    ensures
        r@ == said(stdout.deep_view(), stderr.deep_view()),
{
    text::lowercase(&text::decoded(stdout).concat(" ").concat(&text::decoded(stderr)))
}

pub open spec fn pair_command(address: Seq<char>, code: Seq<char>) -> Seq<Seq<char>> {
    seq!["adb"@, "pair"@, address, code]
}

/// The words that adb has for a wrong address.
pub open spec fn address_words() -> Seq<Seq<char>> {
    seq!["unknown host"@, "bad port"@, "invalid address"@, "name or service"@]
}

/// How pairing ended, by what adb said.
pub open spec fn pairing_verdict(outcome: OutcomeView) -> Result<(), PairingFailure> {
    match outcome {
        OutcomeView::Failed { .. } => Err(PairingFailure::Unreachable),
        OutcomeView::Exited { success, stdout, stderr, .. } => {
            let words = said(stdout, stderr);
            if success {
                Ok(())
            } else if holds(words, "wrong password"@) || holds(words, "pairing code"@) {
                Err(PairingFailure::WrongCode)
            } else if holds_any(words, address_words()) {
                Err(PairingFailure::WrongAddress)
            } else {
                Err(PairingFailure::Unreachable)
            }
        },
    }
}

/// Whether a text is a pairing code: six digits.
pub open spec fn pairing_code(code: Seq<char>) -> bool {
    code.len() == 6 && all_digits(code)
}

/// Pairing with an address and a code. What is no address or no code never
/// reaches adb.
#[verifier::opaque]
pub open spec fn paired(o: OutsideView, address: Seq<char>, code: Seq<char>) -> (
    OutsideView,
    Result<(), PairingFailure>,
) {
    if !endpoint(address) {
        (o, Err(PairingFailure::WrongAddress))
    } else if !pairing_code(code) {
        (o, Err(PairingFailure::WrongCode))
    } else {
        let (o, outcome) = o.run(pair_command(address, code), true);
        (o, pairing_verdict(outcome))
    }
}

fn six_digits(code: &str) -> (r: bool)
    ensures
        r == pairing_code(code@),
{
    let v = text::chars(code);
    if v.len() != 6 {
        return false;
    }
    let mut i: usize = 0;
    while i < v.len()
        invariant
            i <= v.len(),
            v@ == code@,
            forall|j: int| 0 <= j < i ==> text::is_digit(#[trigger] v@[j]),
        decreases v.len() - i,
    {
        if !('0' <= v[i] && v[i] <= '9') {
            return false;
        }
        i = i + 1;
    }
    true
}

/// Pairs with a phone.
pub fn pair(o: &mut Outside, address: &str, code: &str) -> (r: Result<(), PairingFailure>)
    ensures
        (final(o)@, r) == paired(old(o)@, address@, code@),
{
    proof {
        reveal(paired);
    }
    if !valid_endpoint(address) {
        return Err(PairingFailure::WrongAddress);
    }
    if !six_digits(code) {
        return Err(PairingFailure::WrongCode);
    }
    let argv = vec![text::of("adb"), text::of("pair"), text::of(address), text::of(code)];
    assert(argv.deep_view() =~= pair_command(address@, code@));
    match o.run(argv, true) {
        Outcome::Failed { .. } => Err(PairingFailure::Unreachable),
        Outcome::Exited { success, stdout, stderr, .. } => {
            if success {
                return Ok(());
            }
            let words = everything(&stdout, &stderr);
            let needles = vec![
                text::of("unknown host"),
                text::of("bad port"),
                text::of("invalid address"),
                text::of("name or service"),
            ];
            assert(needles.deep_view() =~= address_words());
            if text::contains(&words, "wrong password") || text::contains(&words, "pairing code") {
                Err(PairingFailure::WrongCode)
            } else if contains_any(&words, &needles) {
                Err(PairingFailure::WrongAddress)
            } else {
                Err(PairingFailure::Unreachable)
            }
        },
    }
}

pub open spec fn connect_command(address: Seq<char>) -> Seq<Seq<char>> {
    seq!["adb"@, "connect"@, address]
}

/// The words that adb has for a connection it did not make.
pub open spec fn failure_words() -> Seq<Seq<char>> {
    seq!["failed"@, "unable"@, "cannot"@]
}

/// Whether adb connected, by its status and its words.
pub open spec fn connection_verdict(outcome: OutcomeView) -> bool {
    match outcome {
        OutcomeView::Failed { .. } => false,
        OutcomeView::Exited { success, stdout, stderr, .. } => success && !holds_any(
            said(stdout, stderr),
            failure_words(),
        ),
    }
}

/// Connecting to an endpoint. What is no endpoint never reaches adb.
#[verifier::opaque]
pub open spec fn joined(o: OutsideView, address: Seq<char>) -> (OutsideView, bool) {
    if !endpoint(address) {
        (o, false)
    } else {
        let (o, outcome) = o.run(connect_command(address), true);
        (o, connection_verdict(outcome))
    }
}

/// Connects to a phone over the network.
pub fn connect_wireless(o: &mut Outside, address: &str) -> (r: bool)
    ensures
        (final(o)@, r) == joined(old(o)@, address@),
{
    proof {
        reveal(joined);
    }
    if !valid_endpoint(address) {
        return false;
    }
    let argv = vec![text::of("adb"), text::of("connect"), text::of(address)];
    assert(argv.deep_view() =~= connect_command(address@));
    match o.run(argv, true) {
        Outcome::Failed { .. } => false,
        Outcome::Exited { success, stdout, stderr, .. } => {
            let words = everything(&stdout, &stderr);
            let needles = vec![text::of("failed"), text::of("unable"), text::of("cannot")];
            assert(needles.deep_view() =~= failure_words());
            success && !contains_any(&words, &needles)
        },
    }
}

pub open spec fn disconnect_command(address: Seq<char>) -> Seq<Seq<char>> {
    seq!["adb"@, "disconnect"@, address]
}

#[verifier::opaque]
pub open spec fn parted(o: OutsideView, address: Seq<char>) -> (OutsideView, bool) {
    let (o, outcome) = o.run(disconnect_command(address), false);
    (o, succeeded(outcome))
}

/// Drops a connection over the network, and says whether adb did.
pub fn disconnect_wireless(o: &mut Outside, address: &str) -> (r: bool)
    ensures
        (final(o)@, r) == parted(old(o)@, address@),
{
    proof {
        reveal(parted);
    }
    let argv = vec![text::of("adb"), text::of("disconnect"), text::of(address)];
    assert(argv.deep_view() =~= disconnect_command(address@));
    o.run(argv, false).success()
}

pub open spec fn identity_command(serial: Seq<char>) -> Seq<Seq<char>> {
    seq!["adb"@, "-s"@, serial, "shell"@, "getprop"@, "ro.serialno"@]
}

/// Who a device says it is.
#[verifier::opaque]
pub open spec fn identified(o: OutsideView, serial: Seq<char>) -> (
    OutsideView,
    Option<Seq<char>>,
) {
    let (o, outcome) = o.run(identity_command(serial), true);
    (
        o,
        match outcome {
            OutcomeView::Failed { .. } => None,
            OutcomeView::Exited { success, stdout, .. } => {
                let id = trimmed(lossy_text(stdout));
                if success && id.len() > 0 {
                    Some(id)
                } else {
                    None
                }
            },
        },
    )
}

/// Asks a device who it is.
pub fn stable_id(o: &mut Outside, serial: &str) -> (r: Option<String>)
    ensures
        (final(o)@, r.deep_view()) == identified(old(o)@, serial@),
{
    proof {
        reveal(identified);
    }
    let argv = vec![
        text::of("adb"),
        text::of("-s"),
        text::of(serial),
        text::of("shell"),
        text::of("getprop"),
        text::of("ro.serialno"),
    ];
    assert(argv.deep_view() =~= identity_command(serial@));
    match o.run(argv, true) {
        Outcome::Failed { .. } => None,
        Outcome::Exited { success, stdout, .. } => {
            let id = text::trim(&text::decoded(&stdout));
            if success && text::chars(&id).len() > 0 {
                Some(id)
            } else {
                None
            }
        },
    }
}

// ---------------------------------------------------------------------------
// Which phone it is

pub open spec fn has_serial(serial: Seq<char>) -> spec_fn(AttachedView) -> bool {
    |a: AttachedView| a.serial == serial
}

/// The place of the phone that is meant: the remembered one if it is there,
/// the only one if none is remembered.
pub open spec fn meant(attached: Seq<AttachedView>, selected: Option<Seq<char>>) -> Option<int> {
    match selected {
        Some(serial) => first(attached, has_serial(serial)),
        None => if attached.len() == 1 {
            Some(0)
        } else {
            None
        },
    }
}

/// What the attached phones mean, given the remembered selection; and, when a
/// phone was selected by being the only one there, the serial to remember.
///
/// Only a phone that answers is worth remembering. Remembering one that has
/// never accepted the debugging prompt would let the charging phone win the
/// next time both are attached.
pub open spec fn resolved(attached: Seq<AttachedView>, selected: Option<Seq<char>>) -> (
    ConnectionView,
    Option<Seq<char>>,
) {
    match meant(attached, selected) {
        Some(i) => {
            let phone = phone_of(attached[i]);
            (
                if attached[i].adb_state == "unauthorized"@ {
                    ConnectionView::Unauthorised { phone }
                } else {
                    ConnectionView::Connecting { phone }
                },
                if selected is None && attached[i].adb_state == "device"@ {
                    Some(attached[i].serial)
                } else {
                    None
                },
            )
        },
        None => if selected is None && attached.len() > 0 {
            (ConnectionView::Unselected { available: phones_of(attached) }, None)
        } else {
            (ConnectionView::NoPhone, None)
        },
    }
}

/// Works out what the attached phones mean. `Connecting` means that a phone is
/// selected and adb says it is usable; the daemon asks the phone itself before
/// calling it connected.
pub fn resolve(attached: &[Attached], selected: Option<&str>) -> (r: (Connection, Option<String>))
    ensures
        (r.0@, r.1.deep_view()) == resolved(
            attached.deep_view(),
            match selected {
                Some(serial) => Some(serial@),
                None => None,
            },
        ),
{
    let ghost all = attached.deep_view();
    let mut at: Option<usize> = None;
    match selected {
        Some(serial) => {
            let mut i: usize = 0;
            proof {
                lemma_first(all, has_serial(serial@));
            }
            while i < attached.len() && at.is_none()
                invariant
                    i <= attached.len(),
                    all == attached.deep_view(),
                    at is None ==> forall|j: int|
                        0 <= j < i ==> !has_serial(serial@)(#[trigger] all[j]),
                    at matches Some(k) ==> k < attached.len() && first(all, has_serial(serial@))
                        == Some(k as int),
                decreases attached.len() - i + (if at is None {
                    1int
                } else {
                    0int
                }),
            {
                assert(all[i as int] == attached[i as int]@);
                if text::same(&attached[i].serial, serial) {
                    proof {
                        lemma_first(all, has_serial(serial@));
                    }
                    at = Some(i);
                } else {
                    i = i + 1;
                }
            }
            proof {
                lemma_first(all, has_serial(serial@));
            }
        },
        None => {
            if attached.len() == 1 {
                at = Some(0);
            }
        },
    }
    match at {
        Some(i) => {
            assert(all[i as int] == attached[i as int]@);
            let phone = attached[i].phone();
            let connection = if text::same(&attached[i].adb_state, "unauthorized") {
                Connection::Unauthorised { phone }
            } else {
                Connection::Connecting { phone }
            };
            let remember = if selected.is_none() && text::same(&attached[i].adb_state, "device") {
                Some(attached[i].serial.copy())
            } else {
                None
            };
            (connection, remember)
        },
        None => {
            if selected.is_none() && attached.len() > 0 {
                let mut available: Vec<Phone> = Vec::new();
                let mut i: usize = 0;
                while i < attached.len()
                    invariant
                        i <= attached.len(),
                        all == attached.deep_view(),
                        available.deep_view() == phones_of(all).take(i as int),
                    decreases attached.len() - i,
                {
                    let ghost sofar = available.deep_view();
                    let phone = attached[i].phone();
                    assert(phone@ == phones_of(all)[i as int]);
                    available.push(phone);
                    assert(available.deep_view() =~= sofar.push(phone@));
                    assert(phones_of(all).take(i + 1) =~= phones_of(all).take(i as int).push(
                        phones_of(all)[i as int],
                    ));
                    i = i + 1;
                }
                assert(phones_of(all).take(i as int) =~= phones_of(all));
                (Connection::Unselected { available }, None)
            } else {
                (Connection::NoPhone, None)
            }
        },
    }
}

// ---------------------------------------------------------------------------
// The registry

/// What is remembered about phones between runs: the selected one, the phones
/// there were, and the settings of each. One registry, not two.
#[derive(Debug)]
pub struct Registry {
    pub selected: Option<String>,
    pub settings: Table<CameraSettings>,
    pub phones: Vec<KnownPhone>,
}

#[verifier::ext_equal]
pub struct RegistryView {
    pub selected: Option<Seq<char>>,
    pub settings: Map<Seq<char>, CameraSettingsView>,
    pub phones: Seq<KnownPhoneView>,
}

impl View for Registry {
    type V = RegistryView;

    open spec fn view(&self) -> RegistryView {
        RegistryView {
            selected: self.selected.deep_view(),
            settings: self.settings.deep_view(),
            phones: self.phones.deep_view(),
        }
    }
}

impl DeepView for Registry {
    type V = RegistryView;

    open spec fn deep_view(&self) -> RegistryView {
        self@
    }
}

impl Plain for Registry {
    fn same(&self, other: &Self) -> bool {
        self.selected.same(&other.selected)
            && self.settings.same(&other.settings)
            && self.phones.same(&other.phones)
    }

    fn copy(&self) -> Self {
        Registry {
            selected: self.selected.copy(),
            settings: self.settings.copy(),
            phones: self.phones.copy(),
        }
    }
}

impl Default for Registry {
    fn default() -> (r: Self)
        ensures
            r@ == (RegistryView { selected: None, settings: Map::empty(), phones: Seq::empty() }),
    {
        let r = Registry { selected: None, settings: Table::new(), phones: Vec::new() };
        assert(r.phones.deep_view() =~= Seq::empty());
        r
    }
}

/// A phone with a serial.
pub open spec fn known_serial(serial: Seq<char>) -> spec_fn(KnownPhoneView) -> bool {
    |k: KnownPhoneView| k.phone.serial == serial
}

pub fn find_known_serial(list: &Vec<KnownPhone>, serial: &str) -> (r: Option<usize>)
    ensures
        match r {
            Some(i) => i < list.len()
                && first(list.deep_view(), known_serial(serial@)) == Some(i as int),
            None => first(list.deep_view(), known_serial(serial@)) is None,
        },
{
    let ghost all = list.deep_view();
    let mut i: usize = 0;
    proof {
        lemma_first(all, known_serial(serial@));
    }
    while i < list.len()
        invariant
            i <= list.len(),
            all == list.deep_view(),
            forall|j: int| 0 <= j < i ==> !known_serial(serial@)(#[trigger] all[j]),
        decreases list.len() - i,
    {
        let k = &list[i];
        assert(all[i as int] == k@);
        if text::same(&k.phone.serial, serial) {
            proof {
                lemma_first(all, known_serial(serial@));
            }
            return Some(i);
        }
        i = i + 1;
    }
    None
}

/// A phone with a serial that is reached over the network.
pub open spec fn known_wireless(serial: Seq<char>) -> spec_fn(KnownPhoneView) -> bool {
    |k: KnownPhoneView| k.phone.serial == serial && k.transport == Transport::Wireless
}

pub fn find_known_wireless(list: &Vec<KnownPhone>, serial: &str) -> (r: Option<usize>)
    ensures
        match r {
            Some(i) => i < list.len()
                && first(list.deep_view(), known_wireless(serial@)) == Some(i as int),
            None => first(list.deep_view(), known_wireless(serial@)) is None,
        },
{
    let ghost all = list.deep_view();
    let mut i: usize = 0;
    proof {
        lemma_first(all, known_wireless(serial@));
    }
    while i < list.len()
        invariant
            i <= list.len(),
            all == list.deep_view(),
            forall|j: int| 0 <= j < i ==> !known_wireless(serial@)(#[trigger] all[j]),
        decreases list.len() - i,
    {
        let k = &list[i];
        assert(all[i as int] == k@);
        if text::same(&k.phone.serial, serial) && k.transport == Transport::Wireless {
            proof {
                lemma_first(all, known_wireless(serial@));
            }
            return Some(i);
        }
        i = i + 1;
    }
    None
}

/// A phone at an address, or at the one it had before.
pub open spec fn known_address(
    address: Seq<char>,
    previous: Option<Seq<char>>,
) -> spec_fn(KnownPhoneView) -> bool {
    |k: KnownPhoneView| k.phone.serial == address || previous == Some(k.phone.serial)
}

fn find_known_address(
    list: &Vec<KnownPhone>,
    address: &str,
    previous: &Option<String>,
) -> (r: Option<usize>)
    ensures
        match r {
            Some(i) => i < list.len()
                && first(list.deep_view(), known_address(address@, previous.deep_view())) == Some(i as int),
            None => first(list.deep_view(), known_address(address@, previous.deep_view())) is None,
        },
{
    let ghost all = list.deep_view();
    let mut i: usize = 0;
    proof {
        lemma_first(all, known_address(address@, previous.deep_view()));
    }
    while i < list.len()
        invariant
            i <= list.len(),
            all == list.deep_view(),
            forall|j: int| 0 <= j < i
                ==> !known_address(address@, previous.deep_view())(#[trigger] all[j]),
        decreases list.len() - i,
    {
        let k = &list[i];
        assert(all[i as int] == k@);
        if text::same(&k.phone.serial, address) || text::same_as(previous, &k.phone.serial) {
            proof {
                lemma_first(all, known_address(address@, previous.deep_view()));
            }
            return Some(i);
        }
        i = i + 1;
    }
    None
}

/// A phone that said who it is.
pub open spec fn known_hardware(id: Seq<char>) -> spec_fn(KnownPhoneView) -> bool {
    |k: KnownPhoneView| k.hardware_id == Some(id)
}

pub fn find_known_hardware(list: &Vec<KnownPhone>, id: &str) -> (r: Option<usize>)
    ensures
        match r {
            Some(i) => i < list.len()
                && first(list.deep_view(), known_hardware(id@)) == Some(i as int),
            None => first(list.deep_view(), known_hardware(id@)) is None,
        },
{
    let ghost all = list.deep_view();
    let mut i: usize = 0;
    proof {
        lemma_first(all, known_hardware(id@));
    }
    while i < list.len()
        invariant
            i <= list.len(),
            all == list.deep_view(),
            forall|j: int| 0 <= j < i ==> !known_hardware(id@)(#[trigger] all[j]),
        decreases list.len() - i,
    {
        let k = &list[i];
        assert(all[i as int] == k@);
        if text::same_as(&k.hardware_id, id) {
            proof {
                lemma_first(all, known_hardware(id@));
            }
            return Some(i);
        }
        i = i + 1;
    }
    None
}

/// A phone that is who another says it is.
pub open spec fn known_physical(id: Seq<char>) -> spec_fn(KnownPhoneView) -> bool {
    |k: KnownPhoneView| k.hardware_id == Some(id) || k.id == id
}

fn find_known_physical(list: &Vec<KnownPhone>, id: &str) -> (r: Option<usize>)
    ensures
        match r {
            Some(i) => i < list.len()
                && first(list.deep_view(), known_physical(id@)) == Some(i as int),
            None => first(list.deep_view(), known_physical(id@)) is None,
        },
{
    let ghost all = list.deep_view();
    let mut i: usize = 0;
    proof {
        lemma_first(all, known_physical(id@));
    }
    while i < list.len()
        invariant
            i <= list.len(),
            all == list.deep_view(),
            forall|j: int| 0 <= j < i ==> !known_physical(id@)(#[trigger] all[j]),
        decreases list.len() - i,
    {
        let k = &list[i];
        assert(all[i as int] == k@);
        if text::same_as(&k.hardware_id, id) || text::same(&k.id, id) {
            proof {
                lemma_first(all, known_physical(id@));
            }
            return Some(i);
        }
        i = i + 1;
    }
    None
}

/// A phone with an identity.
pub open spec fn known_id(id: Seq<char>) -> spec_fn(KnownPhoneView) -> bool {
    |k: KnownPhoneView| k.id == id
}

fn find_known_id(list: &Vec<KnownPhone>, id: &str) -> (r: Option<usize>)
    ensures
        match r {
            Some(i) => i < list.len() && first(list.deep_view(), known_id(id@)) == Some(i as int),
            None => first(list.deep_view(), known_id(id@)) is None,
        },
{
    let ghost all = list.deep_view();
    let mut i: usize = 0;
    proof {
        lemma_first(all, known_id(id@));
    }
    while i < list.len()
        invariant
            i <= list.len(),
            all == list.deep_view(),
            forall|j: int| 0 <= j < i ==> !known_id(id@)(#[trigger] all[j]),
        decreases list.len() - i,
    {
        let k = &list[i];
        assert(all[i as int] == k@);
        if text::same(&k.id, id) {
            proof {
                lemma_first(all, known_id(id@));
            }
            return Some(i);
        }
        i = i + 1;
    }
    None
}

/// A phone that goes by a serial in any way.
pub open spec fn known_attached(serial: Seq<char>) -> spec_fn(KnownPhoneView) -> bool {
    |k: KnownPhoneView| k.phone.serial == serial || k.id == serial || k.hardware_id == Some(serial)
}

fn find_known_attached(list: &Vec<KnownPhone>, serial: &str) -> (r: Option<usize>)
    ensures
        match r {
            Some(i) => i < list.len()
                && first(list.deep_view(), known_attached(serial@)) == Some(i as int),
            None => first(list.deep_view(), known_attached(serial@)) is None,
        },
{
    let ghost all = list.deep_view();
    let mut i: usize = 0;
    proof {
        lemma_first(all, known_attached(serial@));
    }
    while i < list.len()
        invariant
            i <= list.len(),
            all == list.deep_view(),
            forall|j: int| 0 <= j < i ==> !known_attached(serial@)(#[trigger] all[j]),
        decreases list.len() - i,
    {
        let k = &list[i];
        assert(all[i as int] == k@);
        if text::same(&k.phone.serial, serial)
            || text::same(&k.id, serial)
            || text::same_as(&k.hardware_id, serial)
        {
            proof {
                lemma_first(all, known_attached(serial@));
            }
            return Some(i);
        }
        i = i + 1;
    }
    None
}

/// What a phone's settings are kept under: its identity where it is known,
/// else its serial.
pub open spec fn key_for(registry: RegistryView, serial: Seq<char>) -> Seq<char> {
    match found(registry.phones, known_serial(serial)) {
        Some(known) => known.id,
        None => serial,
    }
}

/// A phone whose hardware identity was not written down: a wired phone's
/// serial is it, and so is an identity that is no endpoint.
pub open spec fn migrated(known: KnownPhoneView) -> KnownPhoneView {
    if known.hardware_id is Some {
        known
    } else if known.transport == Transport::Wired {
        KnownPhoneView { hardware_id: Some(known.phone.serial), ..known }
    } else if known.id.len() > 0 && known.connect_address != Some(known.id) && !endpoint(known.id) {
        KnownPhoneView { hardware_id: Some(known.id), ..known }
    } else {
        known
    }
}

/// A phone as a line of `adb devices` makes it known.
pub open spec fn wired(attached: AttachedView) -> KnownPhoneView {
    KnownPhoneView {
        id: attached.serial,
        hardware_id: Some(attached.serial),
        phone: phone_of(attached),
        transport: Transport::Wired,
        connect_address: None,
    }
}

/// The known phones with one that is attached brought up to date.
pub open spec fn met(phones: Seq<KnownPhoneView>, attached: AttachedView) -> Seq<KnownPhoneView> {
    match first(phones, known_attached(attached.serial)) {
        Some(i) => phones.update(i, KnownPhoneView { phone: phone_of(attached), ..phones[i] }),
        None => phones.push(wired(attached)),
    }
}

/// Whether an attached phone is the selected one and answers.
pub open spec fn in_use(attached: AttachedView, selected: Option<Seq<char>>) -> bool {
    attached.adb_state == "device"@ && selected == Some(attached.serial)
}

/// The known phones with the selected one, if attached, brought up to date.
pub open spec fn met_all(
    phones: Seq<KnownPhoneView>,
    attached: Seq<AttachedView>,
    selected: Option<Seq<char>>,
) -> Seq<KnownPhoneView>
    decreases attached.len(),
{
    if attached.len() == 0 {
        phones
    } else {
        let front = met_all(phones, attached.drop_last(), selected);
        if in_use(attached.last(), selected) {
            met(front, attached.last())
        } else {
            front
        }
    }
}

/// Whether bringing the known phones up to date changes any.
pub open spec fn met_news(
    phones: Seq<KnownPhoneView>,
    attached: Seq<AttachedView>,
    selected: Option<Seq<char>>,
) -> bool
    decreases attached.len(),
{
    if attached.len() == 0 {
        false
    } else {
        let front = met_all(phones, attached.drop_last(), selected);
        met_news(phones, attached.drop_last(), selected) || (in_use(attached.last(), selected)
            && met(front, attached.last()) != front)
    }
}

/// The registry after the selected phone was seen: in the order of serials
/// where anything is new.
pub open spec fn seen(registry: RegistryView, attached: Seq<AttachedView>) -> RegistryView {
    if met_news(registry.phones, attached, registry.selected) {
        RegistryView {
            phones: sorted(
                met_all(registry.phones, attached, registry.selected),
                key_of::<KnownPhone, BySerial>(),
            ),
            ..registry
        }
    } else {
        registry
    }
}

/// The identity under which a phone at an address is already known: that of
/// the device it says it is, else that of the address.
pub open spec fn canonical(
    phones: Seq<KnownPhoneView>,
    address: Seq<char>,
    stable: Option<Seq<char>>,
    previous: Option<Seq<char>>,
) -> Option<int> {
    let by_device = match stable {
        Some(id) => found(phones, known_physical(id)),
        None => None,
    };
    match by_device {
        Some(known) => first(phones, known_id(known.id)),
        None => match found(phones, known_address(address, previous)) {
            Some(known) => first(phones, known_id(known.id)),
            None => None,
        },
    }
}

/// A list without one of its items.
pub open spec fn without<T>(s: Seq<T>, at: Option<int>) -> Seq<T> {
    match at {
        Some(i) => s.remove(i),
        None => s,
    }
}

/// Whether an entry is about another phone than the one at an address.
pub open spec fn unrelated(address: Seq<char>, stable: Option<Seq<char>>) -> spec_fn(
    KnownPhoneView,
) -> bool {
    |k: KnownPhoneView|
        k.phone.serial != address && (stable matches Some(id) ==> k.hardware_id != Some(id) && k.id
            != id)
}

/// A phone that is reached at an address, as it is remembered from then on.
pub open spec fn reached(
    known: KnownPhoneView,
    address: Seq<char>,
    name: Seq<char>,
    stable: Option<Seq<char>>,
) -> KnownPhoneView {
    KnownPhoneView {
        id: match stable {
            Some(id) => id,
            None => known.id,
        },
        hardware_id: match stable {
            Some(id) => Some(id),
            // An endpoint recorded as identity is no identity at all.
            None => if known.hardware_id == Some(address) {
                None
            } else {
                known.hardware_id
            },
        },
        phone: PhoneView { serial: address, name },
        transport: Transport::Wireless,
        connect_address: Some(address),
    }
}

/// Settings kept under one identity, moved to another.
pub open spec fn moved(
    settings: Map<Seq<char>, CameraSettingsView>,
    from: Seq<char>,
    to: Seq<char>,
) -> Map<Seq<char>, CameraSettingsView> {
    match lookup(settings, from) {
        Some(own) => if from == to {
            settings
        } else {
            settings.remove(from).insert(to, own)
        },
        None => settings,
    }
}

/// The registry after a phone was reached at an address. It is one entry
/// whatever it was known by before, its settings follow it, and entries for the
/// address or for the device it says it is are merged into it.
#[verifier::opaque]
pub open spec fn remembered(
    registry: RegistryView,
    address: Seq<char>,
    name: Seq<char>,
    stable: Option<Seq<char>>,
    previous: Option<Seq<char>>,
    select: bool,
) -> RegistryView {
    let at = canonical(registry.phones, address, stable, previous);
    let known = match at {
        Some(i) => registry.phones[i],
        None => KnownPhoneView {
            id: address,
            hardware_id: None,
            phone: PhoneView { serial: address, name },
            transport: Transport::Wireless,
            connect_address: Some(address),
        },
    };
    let rest = without(registry.phones, at);
    let others = match found(registry.phones, known_address(address, previous)) {
        Some(other) => if other.id != known.id {
            without(rest, first(rest, known_id(other.id)))
        } else {
            rest
        },
        None => rest,
    };
    let now = reached(known, address, name, stable);
    RegistryView {
        selected: if select {
            Some(address)
        } else {
            registry.selected
        },
        settings: moved(registry.settings, known.id, now.id),
        phones: sorted(
            kept(others, unrelated(address, stable)).push(now),
            key_of::<KnownPhone, ById>(),
        ),
    }
}

/// The registry without one of its phones and that phone's settings.
pub open spec fn forgotten(registry: RegistryView, at: int) -> RegistryView {
    let known = registry.phones[at];
    RegistryView {
        selected: if registry.selected == Some(known.phone.serial) {
            None
        } else {
            registry.selected
        },
        settings: registry.settings.remove(known.id),
        phones: registry.phones.remove(at),
    }
}

fn remove_at(list: &mut Vec<KnownPhone>, at: usize) -> (r: KnownPhone)
    requires
        at < old(list).len(),
    ensures
        r@ == old(list).deep_view()[at as int],
        final(list).deep_view() == old(list).deep_view().remove(at as int),
{
    let ghost before = list.deep_view();
    let r = list.remove(at);
    assert(list.deep_view() =~= before.remove(at as int));
    r
}

impl Registry {
    pub fn migrate_hardware_ids(&mut self)
        ensures
            final(self)@ == (RegistryView {
                phones: old(self)@.phones.map_values(|k: KnownPhoneView| migrated(k)),
                ..old(self)@
            }),
    {
        let ghost all = self@.phones.map_values(|k: KnownPhoneView| migrated(k));
        let mut phones: Vec<KnownPhone> = Vec::new();
        let mut i: usize = 0;
        while i < self.phones.len()
            invariant
                i <= self.phones.len(),
                self@ == old(self)@,
                all == self@.phones.map_values(|k: KnownPhoneView| migrated(k)),
                phones.deep_view() == all.take(i as int),
            decreases self.phones.len() - i,
        {
            let mut known = self.phones[i].copy();
            assert(known@ == self@.phones[i as int]);
            if known.hardware_id.is_none() {
                if known.transport == Transport::Wired {
                    known.hardware_id = Some(known.phone.serial.copy());
                } else if text::chars(&known.id).len() > 0 && !text::same_as(
                    &known.connect_address,
                    &known.id,
                ) && !valid_endpoint(&known.id) {
                    known.hardware_id = Some(known.id.copy());
                }
            }
            assert(known@ == all[i as int]);
            let ghost sofar = phones.deep_view();
            phones.push(known);
            assert(phones.deep_view() =~= sofar.push(known@));
            assert(all.take(i + 1) =~= all.take(i as int).push(all[i as int]));
            i = i + 1;
        }
        assert(all.take(i as int) =~= all);
        self.phones = phones;
    }

    /// What a phone's settings are kept under.
    pub fn settings_key(&self, serial: &str) -> (r: String)
        ensures
            r@ == key_for(self@, serial@),
    {
        match find_known_serial(&self.phones, serial) {
            Some(i) => self.phones[i].id.copy(),
            None => text::of(serial),
        }
    }

    /// Brings the selected phone up to date, and says whether anything changed.
    pub fn remember_attached(&mut self, attached: &Vec<Attached>) -> (r: bool)
        ensures
            final(self)@ == seen(old(self)@, attached.deep_view()),
            r == met_news(old(self)@.phones, attached.deep_view(), old(self)@.selected),
    {
        let ghost all = attached.deep_view();
        let ghost start = self@.phones;
        let mut phones = self.phones.copy();
        let mut changed = false;
        let mut i: usize = 0;
        assert(all.take(0) =~= Seq::empty());
        while i < attached.len()
            invariant
                i <= attached.len(),
                all == attached.deep_view(),
                self@ == old(self)@,
                start == old(self)@.phones,
                phones.deep_view() == met_all(start, all.take(i as int), self@.selected),
                changed == met_news(start, all.take(i as int), self@.selected),
            decreases attached.len() - i,
        {
            let one = &attached[i];
            let ghost before = phones.deep_view();
            proof {
                assert(all.take(i + 1).drop_last() =~= all.take(i as int));
                assert(all.take(i + 1).last() == one@);
            }
            if text::same(&one.adb_state, "device") && text::same_as(&self.selected, &one.serial) {
                match find_known_attached(&phones, &one.serial) {
                    Some(at) => {
                        let ghost old_entry = before[at as int];
                        assert(old_entry == phones[at as int]@);
                        let mut known = phones[at].copy();
                        let fresh = one.phone();
                        if !known.phone.same(&fresh) {
                            changed = true;
                            proof {
                                let after = before.update(
                                    at as int,
                                    KnownPhoneView { phone: fresh@, ..old_entry },
                                );
                                assert(after[at as int] != before[at as int]);
                            }
                        } else {
                            assert(before.update(
                                at as int,
                                KnownPhoneView { phone: fresh@, ..old_entry },
                            ) =~= before);
                        }
                        known.phone = fresh;
                        phones.set(at, known);
                        assert(phones.deep_view() =~= before.update(
                            at as int,
                            KnownPhoneView { phone: fresh@, ..old_entry },
                        ));
                    },
                    None => {
                        let known = KnownPhone {
                            id: one.serial.copy(),
                            hardware_id: Some(one.serial.copy()),
                            phone: one.phone(),
                            transport: Transport::Wired,
                            connect_address: None,
                        };
                        phones.push(known);
                        changed = true;
                        assert(phones.deep_view() =~= before.push(known@));
                        assert(before.push(known@).len() != before.len());
                    },
                }
            }
            i = i + 1;
        }
        assert(all.take(i as int) =~= all);
        if changed {
            self.phones = lists::sort::<KnownPhone, BySerial>(&phones);
        }
        changed
    }

    /// Remembers a phone that was reached at an address.
    pub fn remember_wireless(
        &mut self,
        address: &str,
        name: &str,
        stable: &Option<String>,
        previous: &Option<String>,
        select: bool,
    )
        ensures
            final(self)@ == remembered(
                old(self)@,
                address@,
                name@,
                stable.deep_view(),
                previous.deep_view(),
                select,
            ),
    {
        proof {
            reveal(remembered);
        }
        let mut phones = self.phones.copy();
        let ghost all = phones.deep_view();
        let address_id = match find_known_address(&phones, address, previous) {
            Some(i) => {
                assert(all[i as int] == phones[i as int]@);
                Some(phones[i].id.copy())
            },
            None => None,
        };
        let physical_id = match stable {
            Some(id) => match find_known_physical(&phones, id) {
                Some(i) => {
                    assert(all[i as int] == phones[i as int]@);
                    Some(phones[i].id.copy())
                },
                None => None,
            },
            None => None,
        };
        let canonical_id = match &physical_id {
            Some(id) => Some(id.copy()),
            None => address_id.copy(),
        };
        let at = match &canonical_id {
            Some(id) => find_known_id(&phones, id),
            None => None,
        };
        let mut known = match at {
            Some(i) => remove_at(&mut phones, i),
            None => KnownPhone {
                id: text::of(address),
                hardware_id: None,
                phone: Phone { serial: text::of(address), name: text::of(name) },
                transport: Transport::Wireless,
                connect_address: Some(text::of(address)),
            },
        };
        let ghost was = known@;
        match &address_id {
            Some(id) => {
                if !text::same(id, &known.id) {
                    match find_known_id(&phones, id) {
                        Some(i) => {
                            let _ = remove_at(&mut phones, i);
                        },
                        None => {},
                    }
                }
            },
            None => {},
        }
        let old_id = known.id.copy();
        known.phone = Phone { serial: text::of(address), name: text::of(name) };
        known.transport = Transport::Wireless;
        known.connect_address = Some(text::of(address));
        if text::same_as(&known.hardware_id, address) {
            known.hardware_id = None;
        }
        match stable {
            Some(id) => {
                known.hardware_id = Some(id.copy());
                known.id = id.copy();
            },
            None => {},
        }
        assert(known@ == reached(was, address@, name@, stable.deep_view()));
        if !text::same(&old_id, &known.id) {
            match self.settings.get(&old_id) {
                Some(own) => {
                    self.settings.remove(&old_id);
                    self.settings.insert(known.id.copy(), own);
                },
                None => {},
            }
        }
        let mut others = keep_unrelated(&phones, address, stable);
        let ghost sofar = others.deep_view();
        others.push(known);
        assert(others.deep_view() =~= sofar.push(known@));
        self.phones = lists::sort::<KnownPhone, ById>(&others);
        if select {
            self.selected = Some(text::of(address));
        }
    }

    /// Forgets a phone and its settings.
    pub fn forget(&mut self, at: usize) -> (r: KnownPhone)
        requires
            at < old(self).phones.len(),
        ensures
            r@ == old(self)@.phones[at as int],
            final(self)@ == forgotten(old(self)@, at as int),
    {
        let known = remove_at(&mut self.phones, at);
        self.settings.remove(&known.id);
        if text::same_as(&self.selected, &known.phone.serial) {
            self.selected = None;
        }
        known
    }
}

fn keep_unrelated(phones: &Vec<KnownPhone>, address: &str, stable: &Option<String>) -> (r: Vec<
    KnownPhone,
>)
    ensures
        r.deep_view() == kept(phones.deep_view(), unrelated(address@, stable.deep_view())),
{
    let ghost all = phones.deep_view();
    let ghost test = unrelated(address@, stable.deep_view());
    let mut r: Vec<KnownPhone> = Vec::new();
    let mut i: usize = 0;
    assert(r.deep_view() =~= Seq::empty());
    assert(all.take(0) =~= Seq::empty());
    while i < phones.len()
        invariant
            i <= phones.len(),
            all == phones.deep_view(),
            test == unrelated(address@, stable.deep_view()),
            r.deep_view() == kept(all.take(i as int), test),
        decreases phones.len() - i,
    {
        let k = &phones[i];
        proof {
            assert(all.take(i + 1) =~= all.take(i as int).push(all[i as int]));
            lemma_kept_push(all.take(i as int), all[i as int], test);
            assert(all[i as int] == k@);
        }
        let other = match stable {
            Some(id) => !text::same_as(&k.hardware_id, id) && !text::same(&k.id, id),
            None => true,
        };
        if !text::same(&k.phone.serial, address) && other {
            let ghost sofar = r.deep_view();
            let kept_one = k.copy();
            r.push(kept_one);
            assert(r.deep_view() =~= sofar.push(kept_one@));
        }
        i = i + 1;
    }
    assert(all.take(i as int) =~= all);
    r
}

// ---------------------------------------------------------------------------
// Laws

/// The order in which adb lists phones makes no difference: the same phones,
/// each under a serial of its own, are the same scan.
pub proof fn the_order_of_phones_is_no_news(a: Seq<AttachedView>, b: Seq<AttachedView>)
    requires
        a.to_multiset() == b.to_multiset(),
        forall|x: AttachedView, y: AttachedView| #[trigger]
            a.contains(x) && #[trigger] a.contains(y) && x.serial == y.serial ==> x == y,
    ensures
        by_serial(a) == by_serial(b),
{
    lists::sorting_forgets_the_order(a, b, key_of::<Attached, BySerial>());
}

/// The daemon never picks a phone for you. A remembered phone is that phone or
/// none; with nothing remembered, several phones are offered and none is
/// taken; and only a lone phone that answers is remembered.
pub proof fn selection_is_never_guessed(
    attached: Seq<AttachedView>,
    selected: Option<Seq<char>>,
)
    ensures
        selected matches Some(serial) ==> {
            &&& resolved(attached, selected).1 is None
            &&& match resolved(attached, selected).0 {
                ConnectionView::NoPhone => true,
                ConnectionView::Unauthorised { phone } => phone.serial == serial,
                ConnectionView::Connecting { phone } => phone.serial == serial,
                _ => false,
            }
        },
        selected is None && attached.len() > 1 ==> resolved(attached, selected) == (
            ConnectionView::Unselected { available: phones_of(attached) },
            None::<Seq<char>>,
        ),
        resolved(attached, selected).1 matches Some(serial) ==> attached.len() == 1
            && attached[0].serial == serial && attached[0].adb_state == "device"@,
{
    match selected {
        Some(serial) => lemma_first(attached, has_serial(serial)),
        None => {},
    }
}

/// A remembered phone that is not attached is no phone, whatever else is.
pub proof fn an_absent_selection_is_no_phone(attached: Seq<AttachedView>, serial: Seq<char>)
    requires
        forall|i: int| 0 <= i < attached.len() ==> (#[trigger] attached[i]).serial != serial,
    ensures
        resolved(attached, Some(serial)) == (ConnectionView::NoPhone, None::<Seq<char>>),
{
    lemma_first(attached, has_serial(serial));
}

proof fn lemma_sorted_contains<T>(s: Seq<T>, key: spec_fn(T) -> Seq<char>, x: T)
    ensures
        sorted(s, key).contains(x) <==> s.contains(x),
{
    broadcast use vstd::seq_lib::group_to_multiset_ensures;

    lists::sorting_orders(s, key);
    assert(sorted(s, key).to_multiset().contains(x) <==> s.to_multiset().contains(x));
}

/// Once a phone was reached at an address, the registry holds that phone as
/// the one entry for the address, under the identity that the device gave.
pub proof fn a_phone_is_one_entry(
    registry: RegistryView,
    address: Seq<char>,
    name: Seq<char>,
    stable: Option<Seq<char>>,
    previous: Option<Seq<char>>,
    select: bool,
)
    ensures
        ({
            let after = remembered(registry, address, name, stable, previous, select);
            &&& found(after.phones, known_serial(address)) matches Some(known)
                && known.connect_address == Some(address) && known.transport == Transport::Wireless
                && known.phone.name == name && (stable matches Some(id) ==> known.id == id
                && known.hardware_id == Some(id))
            &&& forall|x: KnownPhoneView, y: KnownPhoneView|
                #![trigger after.phones.contains(x), after.phones.contains(y)]
                after.phones.contains(x) && after.phones.contains(y) && x.phone.serial == address
                    && y.phone.serial == address ==> x == y
            &&& select ==> after.selected == Some(address)
            &&& !select ==> after.selected == registry.selected
        }),
{
    reveal(remembered);
    let at = canonical(registry.phones, address, stable, previous);
    let known = match at {
        Some(i) => registry.phones[i],
        None => KnownPhoneView {
            id: address,
            hardware_id: None,
            phone: PhoneView { serial: address, name },
            transport: Transport::Wireless,
            connect_address: Some(address),
        },
    };
    let rest = without(registry.phones, at);
    let others = match found(registry.phones, known_address(address, previous)) {
        Some(other) => if other.id != known.id {
            without(rest, first(rest, known_id(other.id)))
        } else {
            rest
        },
        None => rest,
    };
    let now = reached(known, address, name, stable);
    let staying = kept(others, unrelated(address, stable));
    let key = key_of::<KnownPhone, ById>();
    let phones = sorted(staying.push(now), key);
    lists::lemma_kept(others, unrelated(address, stable));
    assert forall|x: KnownPhoneView| #[trigger] phones.contains(x) && x.phone.serial
        == address implies x == now by {
        lemma_sorted_contains(staying.push(now), key, x);
        let i = choose|i: int| 0 <= i < staying.push(now).len() && staying.push(now)[i] == x;
        if i < staying.len() {
            assert(staying.contains(staying[i]));
        }
    }
    lemma_sorted_contains(staying.push(now), key, now);
    assert(staying.push(now)[staying.len() as int] == now);
    lemma_first(phones, known_serial(address));
    let i = choose|i: int| 0 <= i < phones.len() && phones[i] == now;
    assert(known_serial(address)(phones[i]));
    match first(phones, known_serial(address)) {
        Some(j) => {
            assert(phones.contains(phones[j]));
        },
        None => {},
    }
}

/// A phone's settings follow it: what was kept under the identity it had is
/// kept under the identity it has once it was reached.
pub proof fn settings_follow_the_phone(
    registry: RegistryView,
    address: Seq<char>,
    name: Seq<char>,
    stable: Option<Seq<char>>,
    previous: Option<Seq<char>>,
    select: bool,
)
    ensures
        ({
            let after = remembered(registry, address, name, stable, previous, select);
            canonical(registry.phones, address, stable, previous) matches Some(i) ==> (lookup(
                registry.settings,
                registry.phones[i].id,
            ) matches Some(own) ==> lookup(after.settings, key_for(after, address)) == Some(own))
        }),
{
    reveal(remembered);
    a_phone_is_one_entry(registry, address, name, stable, previous, select);
    let after = remembered(registry, address, name, stable, previous, select);
    match canonical(registry.phones, address, stable, previous) {
        Some(i) => {
            let known = registry.phones[i];
            let now = reached(known, address, name, stable);
            let at = canonical(registry.phones, address, stable, previous);
            let rest = without(registry.phones, at);
            let others = match found(registry.phones, known_address(address, previous)) {
                Some(other) => if other.id != known.id {
                    without(rest, first(rest, known_id(other.id)))
                } else {
                    rest
                },
                None => rest,
            };
            let staying = kept(others, unrelated(address, stable));
            let key = key_of::<KnownPhone, ById>();
            assert(staying.push(now)[staying.len() as int] == now);
            lemma_sorted_contains(staying.push(now), key, now);
            assert(after.phones.contains(now));
            lemma_first(after.phones, known_serial(address));
            match first(after.phones, known_serial(address)) {
                Some(j) => {
                    assert(after.phones.contains(after.phones[j]));
                },
                None => {},
            }
        },
        None => {},
    }
}

/// A forgotten phone is gone: its settings, and the selection if it was
/// selected.
pub proof fn forgetting_leaves_nothing(registry: RegistryView, at: int)
    requires
        0 <= at < registry.phones.len(),
    ensures
        lookup(forgotten(registry, at).settings, registry.phones[at].id) is None,
        forgotten(registry, at).selected != Some(registry.phones[at].phone.serial),
        forgotten(registry, at).phones.len() == registry.phones.len() - 1,
        forall|key: Seq<char>|
            key != registry.phones[at].id ==> #[trigger] lookup(
                forgotten(registry, at).settings,
                key,
            ) == lookup(registry.settings, key),
{
}

/// Forgetting takes out the entry that was named and no other: those before it
/// stay in their places, those after it move up by one, and whoever else was
/// selected stays selected.
pub proof fn forgetting_takes_out_one_entry(registry: RegistryView, at: int)
    requires
        0 <= at < registry.phones.len(),
    ensures
        ({
            let after = forgotten(registry, at);
            &&& after.phones.len() + 1 == registry.phones.len()
            &&& forall|i: int| 0 <= i < at ==> #[trigger] after.phones[i] == registry.phones[i]
            &&& forall|i: int|
                at < i < registry.phones.len() ==> after.phones[i - 1] == #[trigger] registry.phones[i]
            &&& registry.selected != Some(registry.phones[at].phone.serial) ==> after.selected
                == registry.selected
            &&& registry.selected == Some(registry.phones[at].phone.serial) ==> after.selected is None
        }),
{
}

/// Whether an entry is about the phone that was reached: it has the address, or
/// the one that the phone had before, or the identity that the device gives.
pub open spec fn about(
    k: KnownPhoneView,
    address: Seq<char>,
    stable: Option<Seq<char>>,
    previous: Option<Seq<char>>,
) -> bool {
    ||| k.phone.serial == address
    ||| previous == Some(k.phone.serial)
    ||| stable matches Some(id) && (k.id == id || k.hardware_id == Some(id))
}

proof fn lemma_taken_out<T>(s: Seq<T>, at: Option<int>, x: T)
    requires
        at matches Some(i) ==> 0 <= i < s.len(),
    ensures
        without(s, at).contains(x) ==> s.contains(x),
        s.contains(x) && (at matches Some(i) ==> s[i] != x) ==> without(s, at).contains(x),
{
    if let Some(i) = at {
        let t = s.remove(i);
        if t.contains(x) {
            let j = choose|j: int| 0 <= j < t.len() && t[j] == x;
            if j < i {
                assert(s[j] == x);
            } else {
                assert(s[j + 1] == x);
            }
        }
        if s.contains(x) && s[i] != x {
            let j = choose|j: int| 0 <= j < s.len() && s[j] == x;
            if j < i {
                assert(t[j] == x);
            } else {
                assert(t[j - 1] == x);
            }
        }
    }
}

/// Reaching a phone leaves every other phone known as it was: an entry that is
/// not about the phone, and shares no identity with one that is, stays. And it
/// makes nothing up: whatever is known afterwards was known before, but for the
/// phone itself.
pub proof fn reaching_a_phone_leaves_the_others(
    registry: RegistryView,
    address: Seq<char>,
    name: Seq<char>,
    stable: Option<Seq<char>>,
    previous: Option<Seq<char>>,
    select: bool,
    k: KnownPhoneView,
)
    ensures
        ({
            let after = remembered(registry, address, name, stable, previous, select);
            &&& registry.phones.contains(k) && !about(k, address, stable, previous) && (forall|
                x: KnownPhoneView,
            | #[trigger]
                registry.phones.contains(x) && about(x, address, stable, previous) ==> x.id != k.id)
                ==> after.phones.contains(k)
            &&& after.phones.contains(k) && k.phone.serial != address ==> registry.phones.contains(k)
        }),
{
    reveal(remembered);
    let phones = registry.phones;
    let at = canonical(phones, address, stable, previous);
    if let Some(id) = stable {
        lemma_first(phones, known_physical(id));
        if let Some(known) = found(phones, known_physical(id)) {
            assert(phones.contains(known));
            lemma_first(phones, known_id(known.id));
        }
    }
    lemma_first(phones, known_address(address, previous));
    if let Some(known) = found(phones, known_address(address, previous)) {
        assert(phones.contains(known));
        lemma_first(phones, known_id(known.id));
    }
    let known = match at {
        Some(i) => phones[i],
        None => KnownPhoneView {
            id: address,
            hardware_id: None,
            phone: PhoneView { serial: address, name },
            transport: Transport::Wireless,
            connect_address: Some(address),
        },
    };
    let rest = without(phones, at);
    lemma_taken_out(phones, at, k);
    let others = match found(phones, known_address(address, previous)) {
        Some(other) => {
            lemma_first(rest, known_id(other.id));
            lemma_taken_out(rest, first(rest, known_id(other.id)), k);
            if other.id != known.id {
                without(rest, first(rest, known_id(other.id)))
            } else {
                rest
            }
        },
        None => rest,
    };
    let now = reached(known, address, name, stable);
    lists::lemma_kept(others, unrelated(address, stable));
    let staying = kept(others, unrelated(address, stable));
    lemma_sorted_contains(staying.push(now), key_of::<KnownPhone, ById>(), k);
    if staying.contains(k) {
        let j = choose|j: int| 0 <= j < staying.len() && staying[j] == k;
        assert(staying.push(now)[j] == k);
    }
    if staying.push(now).contains(k) && k != now {
        let j = choose|j: int| 0 <= j < staying.push(now).len() && staying.push(now)[j] == k;
        assert(staying[j] == k);
    }
}

/// What was kept for a phone is kept for it once it was reached, and what was
/// kept for any other identity stays. The phone is the first entry with the
/// identity that the device gives; where there is none, the first with the
/// address or the one before.
pub proof fn a_reached_phone_has_its_settings(
    registry: RegistryView,
    address: Seq<char>,
    name: Seq<char>,
    stable: Option<Seq<char>>,
    previous: Option<Seq<char>>,
    select: bool,
    i: int,
)
    requires
        0 <= i < registry.phones.len(),
        ({
            let by_device = |k: KnownPhoneView|
                stable matches Some(id) && (k.hardware_id == Some(id) || k.id == id);
            let by_address = |k: KnownPhoneView|
                k.phone.serial == address || previous == Some(k.phone.serial);
            ||| by_device(registry.phones[i]) && forall|j: int|
                0 <= j < i ==> !by_device(#[trigger] registry.phones[j])
            ||| by_address(registry.phones[i]) && (forall|j: int|
                0 <= j < i ==> !by_address(#[trigger] registry.phones[j])) && forall|j: int|
                0 <= j < registry.phones.len() ==> !by_device(#[trigger] registry.phones[j])
        }),
    ensures
        ({
            let after = remembered(registry, address, name, stable, previous, select);
            let own = registry.phones[i].id;
            &&& exists|x: KnownPhoneView| #[trigger]
                after.phones.contains(x) && x.phone.serial == address && (stable is None ==> x.id
                    == own) && (lookup(registry.settings, own) is Some ==> lookup(
                    after.settings,
                    x.id,
                ) == lookup(registry.settings, own))
            &&& forall|key: Seq<char>|
                key != own && stable != Some(key) ==> #[trigger] lookup(after.settings, key)
                    == lookup(registry.settings, key)
        }),
{
    reveal(remembered);
    let phones = registry.phones;
    let own = phones[i].id;
    if let Some(id) = stable {
        lemma_first(phones, known_physical(id));
        if let Some(j) = first(phones, known_physical(id)) {
            assert(known_physical(id)(phones[j]));
            if j < i {
                assert(phones[j] == phones[j]);
            } else if i < j {
                assert(!known_physical(id)(phones[i]));
            }
        } else {
            assert(!known_physical(id)(phones[i]));
        }
    }
    lemma_first(phones, known_address(address, previous));
    if let Some(j) = first(phones, known_address(address, previous)) {
        assert(known_address(address, previous)(phones[j]));
        if i < j {
            assert(!known_address(address, previous)(phones[i]));
        }
    } else {
        assert(!known_address(address, previous)(phones[i]));
    }
    lemma_first(phones, known_id(own));
    assert(known_id(own)(phones[i]));
    let at = canonical(phones, address, stable, previous);
    assert(at == first(phones, known_id(own)));
    let known = phones[at->0];
    let rest = without(phones, at);
    let others = match found(phones, known_address(address, previous)) {
        Some(other) => if other.id != known.id {
            without(rest, first(rest, known_id(other.id)))
        } else {
            rest
        },
        None => rest,
    };
    let now = reached(known, address, name, stable);
    let staying = kept(others, unrelated(address, stable));
    assert(staying.push(now)[staying.len() as int] == now);
    lemma_sorted_contains(staying.push(now), key_of::<KnownPhone, ById>(), now);
    assert(remembered(registry, address, name, stable, previous, select).phones.contains(now));
}

/// A phone's settings are kept under the identity of the first entry with its
/// serial, and under the serial where there is no entry.
pub proof fn settings_are_kept_under_the_identity(registry: RegistryView, serial: Seq<char>)
    ensures
        (forall|i: int|
            0 <= i < registry.phones.len() ==> (#[trigger] registry.phones[i]).phone.serial
                != serial) ==> key_for(registry, serial) == serial,
        forall|i: int|
            0 <= i < registry.phones.len() && (#[trigger] registry.phones[i]).phone.serial == serial
                && (forall|j: int|
                0 <= j < i ==> (#[trigger] registry.phones[j]).phone.serial != serial) ==> key_for(
                registry,
                serial,
            ) == registry.phones[i].id,
{
    lemma_first(registry.phones, known_serial(serial));
    let p = known_serial(serial);
    assert forall|i: int| 0 <= i < registry.phones.len() implies p(#[trigger] registry.phones[i])
        == (registry.phones[i].phone.serial == serial) by {}
}

/// A host without blanks, a colon and a port of one to 65535 make an endpoint;
/// without a host, or with any other port, they do not.
pub proof fn endpoints_are_hosts_and_ports(host: Seq<char>, port: nat)
    ensures
        endpoint(host.push(':') + decimal(port)) <==> host.len() > 0 && !text::has_space(host) && 1
            <= port <= 65535,
{
    text::lemma_decimal(port);
    let digits = decimal(port);
    if digits.contains(':') {
        let i = choose|i: int| 0 <= i < digits.len() && digits[i] == ':';
        assert(text::is_digit(digits[i]));
    }
    text::last_halves_make_the_whole(host, digits, ':');
    text::numbers_are_read_back(port, u16::MAX as nat);
}

/// A phone is authorised for clients unless adb says that it is not, and goes by
/// the serial and the name that adb gives; none is left out, none added.
pub proof fn clients_are_told_of_every_phone(attached: Seq<AttachedView>)
    ensures
        told(attached).len() == attached.len(),
        forall|i: int|
            0 <= i < attached.len() ==> {
                let one = #[trigger] told(attached)[i];
                &&& one.phone.serial == attached[i].serial
                &&& one.phone.name == attached[i].name
                &&& one.authorised == (attached[i].adb_state != "unauthorized"@)
            },
        phones_of(attached).len() == attached.len(),
        forall|i: int|
            0 <= i < attached.len() ==> {
                let one = #[trigger] phones_of(attached)[i];
                one.serial == attached[i].serial && one.name == attached[i].name
            },
{
}

/// A phone that is there is the one that is meant, by its serial and its name,
/// if it is the selected one or there is no other to choose; it waits for the
/// user only where adb says that it is not authorised.
pub proof fn a_phone_that_is_there_is_meant(
    attached: Seq<AttachedView>,
    selected: Option<Seq<char>>,
    i: int,
)
    requires
        0 <= i < attached.len(),
        selected == Some(attached[i].serial) || (selected is None && attached.len() == 1),
        forall|j: int| 0 <= j < i ==> (#[trigger] attached[j]).serial != attached[i].serial,
    ensures
        ({
            let phone = PhoneView { serial: attached[i].serial, name: attached[i].name };
            let (connection, remember) = resolved(attached, selected);
            &&& attached[i].adb_state == "unauthorized"@ ==> connection == (
            ConnectionView::Unauthorised { phone })
            &&& attached[i].adb_state != "unauthorized"@ ==> connection == (
            ConnectionView::Connecting { phone })
            &&& selected is None && attached[i].adb_state == "device"@ ==> remember == Some(
                attached[i].serial,
            )
        }),
{
    if let Some(serial) = selected {
        lemma_first(attached, has_serial(serial));
        assert(has_serial(serial)(attached[i]));
        if let Some(j) = first(attached, has_serial(serial)) {
            assert(has_serial(serial)(attached[j]));
        }
    }
}

/// With nothing attached there is no phone, whatever is remembered.
pub proof fn nothing_attached_is_no_phone(selected: Option<Seq<char>>)
    ensures
        resolved(Seq::empty(), selected) == (ConnectionView::NoPhone, None::<Seq<char>>),
{
    if let Some(serial) = selected {
        lemma_first(Seq::<AttachedView>::empty(), has_serial(serial));
    }
}

/// Whether a line gives a phone's serial and state.
pub open spec fn gives(line: Seq<char>, phone: AttachedView) -> bool {
    &&& words(line).len() >= 2
    &&& !begins(line, "List of devices"@) && !begins(line, "*"@)
    &&& phone.serial == words(line)[0]
    &&& phone.adb_state == words(line)[1]
}

/// Every line of adb's list that is no chatter and has a serial and a state is
/// one phone, under its first word and with its second; and there is no phone
/// without such a line.
pub proof fn phones_are_the_lines(lines: Seq<Seq<char>>)
    ensures
        forall|i: int|
            0 <= i < lines.len() && words(#[trigger] lines[i]).len() >= 2 && !begins(
                lines[i],
                "List of devices"@,
            ) && !begins(lines[i], "*"@) ==> exists|k: int|
                0 <= k < phone_lines(lines).len() && gives(
                    lines[i],
                    #[trigger] phone_lines(lines)[k],
                ),
        forall|k: int|
            0 <= k < phone_lines(lines).len() ==> any_gives(lines, #[trigger] phone_lines(lines)[k]),
        phone_lines(lines).len() <= lines.len(),
    decreases lines.len(),
{
    if lines.len() > 0 {
        let front = lines.drop_last();
        phones_are_the_lines(front);
        let all = phone_lines(lines);
        let before = phone_lines(front);
        assert forall|i: int|
            0 <= i < lines.len() && words(#[trigger] lines[i]).len() >= 2 && !begins(
                lines[i],
                "List of devices"@,
            ) && !begins(lines[i], "*"@) implies exists|k: int|
            0 <= k < all.len() && gives(lines[i], #[trigger] all[k]) by {
            if i < front.len() {
                assert(front[i] == lines[i]);
                let k = choose|k: int|
                    0 <= k < before.len() && gives(front[i], #[trigger] before[k]);
                assert(gives(lines[i], all[k]));
            } else {
                assert(gives(lines[i], all[before.len() as int]));
            }
        }
        assert forall|k: int| 0 <= k < all.len() implies any_gives(lines, #[trigger] all[k]) by {
            if k < before.len() {
                assert(all[k] == before[k]);
                let i = choose|i: int| 0 <= i < front.len() && gives(#[trigger] front[i], before[k]);
                assert(gives(lines[i], all[k]));
            } else {
                assert(gives(lines[lines.len() - 1], all[k]));
            }
        }
    }
}

/// Whether one of some lines gives a phone.
pub open spec fn any_gives(lines: Seq<Seq<char>>, phone: AttachedView) -> bool {
    exists|i: int| 0 <= i < lines.len() && gives(#[trigger] lines[i], phone)
}

/// Writing down hardware identities changes nothing else of an entry, and
/// nothing of one that has its own. A wired phone's is its serial; another's is
/// its identity, where that is no endpoint.
pub proof fn migrating_only_writes_identities_down(k: KnownPhoneView)
    ensures
        ({
            let m = migrated(k);
            &&& m.id == k.id && m.phone == k.phone && m.transport == k.transport
                && m.connect_address == k.connect_address
            &&& k.hardware_id is Some ==> m.hardware_id == k.hardware_id
            &&& k.hardware_id is None && k.transport == Transport::Wired ==> m.hardware_id == Some(
                k.phone.serial,
            )
            &&& k.hardware_id is None && k.transport == Transport::Wireless ==> (
            m.hardware_id is Some <==> k.id.len() > 0 && k.connect_address != Some(k.id)
                && !endpoint(k.id)) && (m.hardware_id is Some ==> m.hardware_id == Some(k.id))
            &&& migrated(m) == m
        }),
{
}

/// Whether an entry is the phone that has a serial, by any of its names.
pub open spec fn goes_by(k: KnownPhoneView, serial: Seq<char>) -> bool {
    k.phone.serial == serial || k.id == serial || k.hardware_id == Some(serial)
}

proof fn lemma_met_all(
    phones: Seq<KnownPhoneView>,
    attached: Seq<AttachedView>,
    serial: Seq<char>,
)
    ensures
        ({
            let after = met_all(phones, attached, Some(serial));
            &&& forall|k: KnownPhoneView| #[trigger]
                phones.contains(k) && !goes_by(k, serial) ==> after.contains(k)
            &&& forall|k: KnownPhoneView| #[trigger]
                after.contains(k) && !phones.contains(k) ==> goes_by(k, serial) && exists|j: int|
                    0 <= j < attached.len() && (#[trigger] attached[j]).serial == serial
                        && attached[j].adb_state == "device"@ && k.phone.name == attached[j].name
                        && k.phone.serial == serial
            &&& forall|j: int|
                0 <= j < attached.len() && (#[trigger] attached[j]).serial == serial
                    && attached[j].adb_state == "device"@ ==> exists|i: int|
                    0 <= i < after.len() && (#[trigger] after[i]).phone.serial == serial
            &&& after.len() >= phones.len()
            &&& forall|i: int|
                0 <= i < phones.len() ==> (#[trigger] after[i]).id == phones[i].id
                    && after[i].hardware_id == phones[i].hardware_id && after[i].transport
                    == phones[i].transport && after[i].connect_address == phones[i].connect_address
            &&& forall|i: int|
                phones.len() <= i < after.len() ==> (#[trigger] after[i]).id == serial
                    && after[i].hardware_id == Some(serial) && after[i].transport
                    == Transport::Wired && after[i].connect_address is None
        }),
    decreases attached.len(),
{
    if attached.len() > 0 {
        let prior = attached.drop_last();
        let one = attached.last();
        lemma_met_all(phones, prior, serial);
        let front = met_all(phones, prior, Some(serial));
        let after = met_all(phones, attached, Some(serial));
        assert(attached[attached.len() - 1] == one);
        assert forall|j: int| 0 <= j < prior.len() implies attached[j] == #[trigger] prior[j] by {}
        if in_use(one, Some(serial)) {
            lemma_first(front, known_attached(serial));
            assert forall|k: KnownPhoneView| #[trigger]
                phones.contains(k) && !goes_by(k, serial) implies after.contains(k) by {
                assert(front.contains(k));
                let i = choose|i: int| 0 <= i < front.len() && front[i] == k;
                assert(after[i] == k);
            }
            assert forall|k: KnownPhoneView| #[trigger]
                after.contains(k) && !phones.contains(k) implies goes_by(k, serial) && exists|
                j: int,
            |
                0 <= j < attached.len() && (#[trigger] attached[j]).serial == serial
                    && attached[j].adb_state == "device"@ && k.phone.name == attached[j].name
                    && k.phone.serial == serial by {
                let i = choose|i: int| 0 <= i < after.len() && after[i] == k;
                if i < front.len() && after[i] == front[i] {
                    assert(front.contains(k));
                    let j = choose|j: int|
                        0 <= j < prior.len() && (#[trigger] prior[j]).serial == serial
                            && prior[j].adb_state == "device"@ && k.phone.name == prior[j].name
                            && k.phone.serial == serial;
                    assert(attached[j] == prior[j]);
                } else {
                    assert(k.phone == phone_of(one));
                    assert(attached[attached.len() - 1].serial == serial);
                }
            }
            match first(front, known_attached(serial)) {
                Some(i) => {
                    assert(after[i].phone.serial == serial);
                },
                None => {
                    assert(after[front.len() as int].phone.serial == serial);
                },
            }
        } else {
            assert forall|j: int|
                0 <= j < attached.len() && (#[trigger] attached[j]).serial == serial
                    && attached[j].adb_state == "device"@ implies exists|i: int|
                0 <= i < after.len() && (#[trigger] after[i]).phone.serial == serial by {
                assert(prior[j] == attached[j]);
            }
        }
    } else {
        assert forall|k: KnownPhoneView| #[trigger]
            met_all(phones, attached, Some(serial)).contains(k) implies phones.contains(k) by {}
    }
}

/// Seeing the selected phone makes it known, under the name it has, and changes
/// nothing of any other phone, of the selection or of what is kept for phones.
/// A phone that is not seen changes nothing at all.
pub proof fn seeing_a_phone_touches_no_other(
    registry: RegistryView,
    attached: Seq<AttachedView>,
    k: KnownPhoneView,
)
    ensures
        ({
            let after = seen(registry, attached);
            &&& after.selected == registry.selected
            &&& after.settings == registry.settings
            &&& registry.selected is None ==> after == registry
            &&& registry.selected matches Some(serial) ==> {
                &&& registry.phones.contains(k) && !goes_by(k, serial) ==> after.phones.contains(k)
                &&& after.phones.contains(k) && !registry.phones.contains(k) ==> k.phone.serial
                    == serial && exists|j: int|
                    0 <= j < attached.len() && (#[trigger] attached[j]).serial == serial
                        && attached[j].adb_state == "device"@ && k.phone.name == attached[j].name
                &&& (exists|j: int|
                    0 <= j < attached.len() && (#[trigger] attached[j]).serial == serial
                        && attached[j].adb_state == "device"@) ==> exists|i: int|
                    0 <= i < after.phones.len() && (#[trigger] after.phones[i]).phone.serial
                        == serial
            }
        }),
{
    let phones = registry.phones;
    match registry.selected {
        None => lemma_unmet(phones, attached),
        Some(serial) => {
            lemma_met_all(phones, attached, serial);
            lemma_met_same(phones, attached, Some(serial));
            let met = met_all(phones, attached, Some(serial));
            let after = seen(registry, attached);
            let key = key_of::<KnownPhone, BySerial>();
            lemma_sorted_contains(met, key, k);
            if exists|i: int| 0 <= i < met.len() && (#[trigger] met[i]).phone.serial == serial {
                let i = choose|i: int| 0 <= i < met.len() && (#[trigger] met[i]).phone.serial
                    == serial;
                lemma_sorted_contains(met, key, met[i]);
                assert(met.contains(met[i]));
                assert(after.phones.contains(met[i]));
                let m = choose|m: int| 0 <= m < after.phones.len() && after.phones[m] == met[i];
                assert(after.phones[m].phone.serial == serial);
            }
        },
    }
}

proof fn lemma_met_same(
    phones: Seq<KnownPhoneView>,
    attached: Seq<AttachedView>,
    selected: Option<Seq<char>>,
)
    ensures
        !met_news(phones, attached, selected) ==> met_all(phones, attached, selected) == phones,
    decreases attached.len(),
{
    if attached.len() > 0 {
        lemma_met_same(phones, attached.drop_last(), selected);
    }
}

proof fn lemma_unmet(phones: Seq<KnownPhoneView>, attached: Seq<AttachedView>)
    ensures
        !met_news(phones, attached, None),
    decreases attached.len(),
{
    if attached.len() > 0 {
        lemma_unmet(phones, attached.drop_last());
    }
}

/// An endpoint has a host without blanks before its last colon, and something
/// after it.
pub proof fn an_endpoint_has_a_host_and_a_port(s: Seq<char>)
    requires
        endpoint(s),
    ensures
        exists|n: int|
            0 < n < s.len() - 1 && #[trigger] s[n] == ':' && !text::has_space(s.take(n)) && !s.skip(
                n + 1,
            ).contains(':'),
{
    text::lemma_last_halves(s, ':');
    let (host, port) = last_halves(s, ':')->0;
    let n = host.len() as int;
    assert(s[n] == ':');
    assert(s.take(n) =~= host);
    assert(s.skip(n + 1) =~= port);
}

} // verus!
