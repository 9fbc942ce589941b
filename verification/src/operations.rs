//! What clients can ask of the daemon, each as one operation from its beginning
//! to its end.

use vstd::prelude::*;

use crate::capture;
use crate::capture::{
    commanded, consumed, controlled, hiding, located, node_found, polled, preview_rule,
    reconnect_rule, show_text, spawned, style_rule, PREVIEW_SELECTOR,
};
use crate::daemon::{
    adb_lost, address_of, announced, chosen, equipped, find_usable_as, not_reached, pairing,
    persisted, prepared, published, recalled, refreshed, registry_saved, replaced,
    spawn_replacement, usable_as, Daemon, DaemonView,
};
use crate::lists::{any, first, found, kept, lemma_kept_push};
use crate::outside::{
    succeeded, Act, ActView, Answer, AnswerView, Outside, OutsideView, Writer, WriterView,
};
use crate::phones;
use crate::phones::{
    endpoint, forgotten, has_serial, identified, joined, known_hardware, known_serial,
    known_wireless, paired, parted, scanned, told, Attached, AttachedView, RegistryView,
};
use crate::plain::{shown, Plain};
use crate::protocol;
use crate::protocol::{
    Capture, CaptureView, Connection, ConnectionView, KnownPhoneView, PairingFailure, Phone,
    PhoneView, PreviewStyle, StateView, Transport,
};
use crate::settings;
use crate::settings::{
    accepted, changed, discarded, frame_size, noted, refused, CameraSettings, CameraSettingsView,
    SettingValue, SettingValueView, SettingsState, SettingsStateView,
};
use crate::text;
use crate::text::{debug_text, decimal};

verus! {

/// Why a request was not done: a code for clients, and words for people.
#[derive(Debug)]
pub struct Refusal {
    pub code: String,
    pub message: String,
}

#[verifier::ext_equal]
pub struct RefusalView {
    pub code: Seq<char>,
    pub message: Seq<char>,
}

impl View for Refusal {
    type V = RefusalView;

    open spec fn view(&self) -> RefusalView {
        RefusalView {
            code: self.code.deep_view(),
            message: self.message.deep_view(),
        }
    }
}

impl DeepView for Refusal {
    type V = RefusalView;

    open spec fn deep_view(&self) -> RefusalView {
        self@
    }
}

pub open spec fn refusal(code: Seq<char>, message: Seq<char>) -> Result<(), RefusalView> {
    Err(RefusalView { code, message })
}

fn refuse(code: &str, message: String) -> (r: Result<(), Refusal>)
    ensures
        shown(r) == refusal(code@, message@),
{
    Err(Refusal { code: text::of(code), message })
}

// ---------------------------------------------------------------------------
// What is said

/// Why pairing failed, in words.
pub open spec fn pairing_words(reason: PairingFailure) -> Seq<char> {
    match reason {
        PairingFailure::WrongCode => "the pairing code is wrong; re-read the six-digit code"@,
        PairingFailure::WrongAddress =>
            "the pairing address is wrong; use the address beside the six-digit code"@,
        PairingFailure::Unreachable =>
            "the pairing address is unreachable; the phone may be asleep or on a different network"@,
    }
}

pub fn pairing_message(reason: PairingFailure) -> (r: String)
    ensures
        r@ == pairing_words(reason),
{
    match reason {
        PairingFailure::WrongCode => text::of(
            "the pairing code is wrong; re-read the six-digit code",
        ),
        PairingFailure::WrongAddress => text::of(
            "the pairing address is wrong; use the address beside the six-digit code",
        ),
        PairingFailure::Unreachable => text::of(
            "the pairing address is unreachable; the phone may be asleep or on a different network",
        ),
    }
}

/// The code for a pairing failure.
pub open spec fn pairing_failure_code(reason: PairingFailure) -> Seq<char> {
    match reason {
        PairingFailure::WrongCode => "wrong_code"@,
        PairingFailure::WrongAddress => "wrong_pair_address"@,
        PairingFailure::Unreachable => "unreachable"@,
    }
}

pub const UNREACHABLE: &'static str =
    "the paired phone is unreachable; wake it, check both devices are on the same network, and re-read the connect address from the main wireless debugging screen";

pub const WRONG_CONNECT_ADDRESS: &'static str =
    "the connect address is wrong; re-read it from the main wireless debugging screen";

/// Why a capture cannot start, in the words the connection is already using.
pub open spec fn reason_for(connection: ConnectionView) -> Seq<char> {
    match connection {
        ConnectionView::Unselected { available } => decimal(available.len())
            + " phones are attached and none is selected; choose one with: omavcam select <serial>"@,
        ConnectionView::Unauthorised { phone } => phone.name
            + " has not accepted the debugging prompt; accept it on the phone"@,
        ConnectionView::Connecting { phone } => "still connecting to "@ + phone.name,
        ConnectionView::Reconnecting { phone } => "reconnecting to "@ + phone.name,
        ConnectionView::NeedsPairing => "wireless pairing is needed; run: omavcam pair"@,
        ConnectionView::PairingFailed { reason } => pairing_words(reason),
        ConnectionView::Unreachable { phone, connect_address } => phone.name
            + " is unreachable at "@ + connect_address
            + "; wake it, check both devices are on the same network, and re-read the connect address — do not pair again"@,
        _ => "no phone is attached; plug one in and select it with: omavcam select <serial>"@,
    }
}

pub fn refusal_reason(connection: &Connection) -> (r: String)
    ensures
        r@ == reason_for(connection@),
{
    match connection {
        Connection::Unselected { available } => text::number(available.len() as u64).concat(
            " phones are attached and none is selected; choose one with: omavcam select <serial>",
        ),
        Connection::Unauthorised { phone } => text::of(&phone.name).concat(
            " has not accepted the debugging prompt; accept it on the phone",
        ),
        Connection::Connecting { phone } => text::of("still connecting to ").concat(&phone.name),
        Connection::Reconnecting { phone } => text::of("reconnecting to ").concat(&phone.name),
        Connection::NeedsPairing => text::of("wireless pairing is needed; run: omavcam pair"),
        Connection::PairingFailed { reason } => pairing_message(*reason),
        Connection::Unreachable { phone, connect_address } => text::of(&phone.name).concat(
            " is unreachable at ",
        ).concat(connect_address).concat(
            "; wake it, check both devices are on the same network, and re-read the connect address — do not pair again",
        ),
        _ => text::of(
            "no phone is attached; plug one in and select it with: omavcam select <serial>",
        ),
    }
}

/// Whether a phone is connected.
pub open spec fn connected_to(state: StateView, serial: Seq<char>) -> bool {
    state.connection matches ConnectionView::Connected { phone } && phone.serial == serial
}

/// Whether the capture is some phone's.
pub open spec fn capture_of(state: StateView, serial: Seq<char>) -> bool {
    state.capture matches Some(capture) && capture.phone.serial == serial
}

// ---------------------------------------------------------------------------
// Stopping, and losing the writer

/// Ending the capture. Ending one that is not running changes nothing.
#[verifier::opaque]
pub open spec fn stopped(d: DaemonView) -> DaemonView {
    let d = d.hold_position(None).end_writer();
    published(
        d,
        StateView {
            connection: if d.core.state.connection is Reconnecting {
                ConnectionView::NoPhone
            } else {
                d.core.state.connection
            },
            capture: None,
            ..d.core.state
        },
    )
}

/// Seeing whether the writer is still there. Losing it retains the requested
/// capture: an open consumer keeps the node and its format while the capture
/// is resumed.
#[verifier::opaque]
pub open spec fn reaped(d: DaemonView) -> DaemonView {
    if d.core.writer is None {
        d
    } else {
        let (o, writer) = polled(d.outside);
        let d = d.with(o);
        match writer {
            WriterView::Running => d,
            _ => {
                let d = prepared(d).hold_writer(None);
                match d.core.state.capture {
                    Some(capture) => announced(
                        d,
                        ConnectionView::Reconnecting { phone: capture.phone },
                        d.core.state.attached,
                    ),
                    None => d,
                }
            },
        }
    }
}

// ---------------------------------------------------------------------------
// Starting

pub const PREVIEW_CONFLICT: &'static str =
    "the preview requires scrcpy --no-control, which cannot be combined with --stay-awake; start without --stay-awake";

/// Launching a capture from a connected phone.
#[verifier::opaque]
pub open spec fn begun(d: DaemonView, phone: PhoneView, style: PreviewStyle) -> (
    DaemonView,
    Result<(), RefusalView>,
) {
    let (d, equipped) = equipped(d, phone.serial);
    match equipped {
        Err(e) => (d, refusal("capabilities_failed"@, e)),
        Ok(settings) => {
            let (o, node) = node_found(d.outside);
            let d = d.with(o);
            match node {
                Err(e) => (d, refusal("no_virtual_camera"@, e)),
                Ok(node) => launched(
                    d.with(controlled(d.outside, node)),
                    phone,
                    style,
                    settings.applied,
                    node,
                ),
            }
        },
    }
}

/// Preparing the windows and launching scrcpy.
#[verifier::opaque]
pub open spec fn launched(
    d: DaemonView,
    phone: PhoneView,
    style: PreviewStyle,
    settings: CameraSettingsView,
    node: Seq<char>,
) -> (DaemonView, Result<(), RefusalView>) {
    let (o, ready) = commanded(
        d.outside,
        "eval"@,
        preview_rule(style.rounding, style.border_size, None),
    );
    match ready {
        Err(e) => (
            d.with(o),
            refusal("capture_failed"@, "could not prepare the preview: "@ + e),
        ),
        Ok(()) => {
            let (o, ready) = commanded(
                o,
                "eval"@,
                reconnect_rule(style.rounding, style.border_size, None),
            );
            match ready {
                Err(e) => (
                    d.with(o),
                    refusal("capture_failed"@, "could not prepare the reconnect preview: "@ + e),
                ),
                Ok(()) => {
                    let (o, writer) = spawned(o, phone.serial, node, settings);
                    match writer {
                        Err(f) => (
                            d.with(o),
                            refusal(
                                "capture_failed"@,
                                if f.not_found {
                                    "could not launch scrcpy: "@ + f.message
                                        + "; install scrcpy and try again"@
                                } else {
                                    "scrcpy did not start: "@ + f.message
                                },
                            ),
                        ),
                        Ok(pid) => {
                            let (o, at) = located(o);
                            let d = d.with(o).hold_writer(Some(pid)).hold_position(
                                match at {
                                    Ok(at) => Some(at),
                                    Err(_) => None,
                                },
                            );
                            (
                                published(
                                    d,
                                    StateView {
                                        capture: Some(
                                            CaptureView {
                                                phone,
                                                node,
                                                size: frame_size(settings),
                                                stay_awake: false,
                                                preview: true,
                                            },
                                        ),
                                        preview_style: style,
                                        ..d.core.state
                                    },
                                ),
                                Ok(()),
                            )
                        },
                    }
                },
            }
        },
    }
}

/// Starting a capture. It answers from what is true now, not from what the
/// last pass saw; a capture that is already requested is left to run.
#[verifier::opaque]
pub open spec fn started(d: DaemonView, stay_awake: bool, style: PreviewStyle) -> (
    DaemonView,
    Result<(), RefusalView>,
) {
    if stay_awake {
        (d, refusal("preview_conflict"@, PREVIEW_CONFLICT@))
    } else {
        let (d, adb_ok) = refreshed(reaped(d));
        if d.core.state.capture is Some {
            (d, Ok(()))
        } else if !adb_ok {
            (d, refusal("adb_unavailable"@, "adb devices failed"@))
        } else {
            match d.core.state.connection {
                ConnectionView::Connected { phone } => begun(d, phone, style),
                other => (d, refusal("no_phone"@, reason_for(other))),
            }
        }
    }
}

// ---------------------------------------------------------------------------
// The preview

/// Theming the preview's windows.
#[verifier::opaque]
pub open spec fn themed(
    d: DaemonView,
    style: PreviewStyle,
) -> (DaemonView, Result<(), RefusalView>) {
    let (o, r) = commanded(
        d.outside,
        "eval"@,
        style_rule(style.rounding, style.border_size),
    );
    match r {
        Err(e) => (d.with(o), refusal("preview_failed"@, "could not theme the preview: "@ + e)),
        Ok(()) => {
            let (o, r) = commanded(
                o,
                "eval"@,
                reconnect_rule(style.rounding, style.border_size, d.core.position),
            );
            match r {
                Err(e) => (
                    d.with(o),
                    refusal("preview_failed"@, "could not theme the reconnect preview: "@ + e),
                ),
                Ok(()) => {
                    let d = d.with(o);
                    (
                        published(d, StateView { preview_style: style, ..d.core.state }),
                        Ok(()),
                    )
                },
            }
        },
    }
}

/// Moving the preview on or off the screen.
#[verifier::opaque]
pub open spec fn turned(d: DaemonView, visible: bool) -> (DaemonView, Result<(), RefusalView>) {
    if visible {
        let (o, r) = commanded(
            d.outside,
            "dispatch"@,
            show_text(PREVIEW_SELECTOR@, d.core.position),
        );
        (
            d.with(o),
            match r {
                Err(e) => refusal("preview_failed"@, "could not show the preview: "@ + e),
                Ok(()) => Ok(()),
            },
        )
    } else {
        let (o, at) = located(d.outside);
        match at {
            Err(e) => (
                d.with(o),
                refusal("preview_failed"@, "could not locate the preview: "@ + e),
            ),
            Ok(at) => {
                let (o, r) = hiding(o);
                match r {
                    Err(e) => (
                        d.with(o),
                        refusal("preview_failed"@, "could not hide the preview: "@ + e),
                    ),
                    Ok(()) => (d.with(o).hold_position(Some(at)), Ok(())),
                }
            },
        }
    }
}

/// Showing or hiding the preview of the capture, in the style of the moment.
#[verifier::opaque]
pub open spec fn previewed(d: DaemonView, visible: bool, style: PreviewStyle) -> (
    DaemonView,
    Result<(), RefusalView>,
) {
    let d = reaped(d);
    match d.core.state.capture {
        None => (d, refusal("no_capture"@, "start a capture before opening its preview"@)),
        Some(public) => {
            let (d, r) = themed(d, style);
            match r {
                Err(_) => (d, r),
                Ok(()) => if public.preview == visible {
                    (d, Ok(()))
                } else {
                    let (d, r) = turned(d, visible);
                    match r {
                        Err(_) => (d, r),
                        Ok(()) => (
                            published(
                                d,
                                StateView {
                                    capture: Some(CaptureView { preview: visible, ..public }),
                                    ..d.core.state
                                },
                            ),
                            Ok(()),
                        ),
                    }
                },
            }
        },
    }
}

// ---------------------------------------------------------------------------
// Pairing

/// Answering by whether a phone is connected in the end.
pub open spec fn reached_in_the_end(d: DaemonView, serial: Seq<char>) -> Result<(), RefusalView> {
    if connected_to(d.core.state, serial) {
        Ok(())
    } else {
        refusal("unreachable"@, UNREACHABLE@)
    }
}

/// Connecting to the phone that was just paired.
#[verifier::opaque]
pub open spec fn attached_anew(d: DaemonView, address: Seq<char>) -> (
    DaemonView,
    Result<(), RefusalView>,
) {
    let provisional = PhoneView { serial: address, name: address };
    let away = ConnectionView::Unreachable { phone: provisional, connect_address: address };
    let (o, ok) = joined(d.outside, address);
    let d = d.with(o);
    if !ok {
        (
            announced(d, away, d.core.state.attached),
            refusal("unreachable"@, UNREACHABLE@),
        )
    } else {
        let (o, scan) = scanned(d.outside);
        let d = d.with(o);
        match scan {
            Err(e) => (
                adb_lost(d.log("could not scan phones after connecting: "@ + e)),
                refusal("adb_unavailable"@, e),
            ),
            Ok(attached) => match found(attached, usable_as(address)) {
                None => (
                    announced(d, away, told(attached)),
                    refusal("unreachable"@, UNREACHABLE@),
                ),
                Some(there) => {
                    let (o, stable) = identified(d.outside, address);
                    let d = recalled(d.with(o), address, there.name, stable, None, true);
                    let d = announced(
                        d,
                        ConnectionView::Connecting {
                            phone: PhoneView { serial: address, name: there.name },
                        },
                        told(attached),
                    );
                    let (d, _) = refreshed(d);
                    (d, reached_in_the_end(d, address))
                },
            },
        }
    }
}

/// Pairing with a phone and connecting to it. Pairing and connecting use their
/// own endpoints; a capture of another phone ends.
#[verifier::opaque]
pub open spec fn coupled(
    d: DaemonView,
    pair_address: Seq<char>,
    code: Seq<char>,
    address: Seq<char>,
) -> (DaemonView, Result<(), RefusalView>) {
    if !endpoint(address) {
        (d, refusal("wrong_connect_address"@, WRONG_CONNECT_ADDRESS@))
    } else {
        let (o, r) = paired(d.outside, pair_address, code);
        let d = d.with(o);
        match r {
            Err(reason) => (
                announced(
                    d,
                    ConnectionView::PairingFailed { reason },
                    d.core.state.attached,
                ),
                refusal(pairing_failure_code(reason), pairing_words(reason)),
            ),
            Ok(()) => {
                let d = if d.core.state.capture is Some && !capture_of(d.core.state, address) {
                    stopped(d)
                } else {
                    d
                };
                attached_anew(recalled(d, address, address, None, None, true), address)
            },
        }
    }
}

// ---------------------------------------------------------------------------
// A new connect address

pub open spec fn others_than(serial: Seq<char>) -> spec_fn(protocol::AttachedView) -> bool {
    |a: protocol::AttachedView| a.phone.serial != serial
}

/// Whether a serial is a phone's own or the one that its device goes by.
pub open spec fn same_device(
    registry: RegistryView,
    serial: Seq<char>,
    stable: Seq<char>,
    candidate: Seq<char>,
) -> bool {
    candidate == serial || (found(registry.phones, known_hardware(stable)) matches Some(known)
        && known.phone.serial == candidate)
}

/// The state with the capture following its phone to a new address.
pub open spec fn following(state: StateView, address: Seq<char>, name: Seq<char>) -> StateView {
    match state.capture {
        None => state,
        Some(capture) => StateView {
            capture: Some(
                CaptureView { phone: PhoneView { serial: address, name }, ..capture },
            ),
            settings: match state.settings {
                Some(settings) => if settings.phone == capture.phone.serial {
                    Some(SettingsStateView { phone: address, ..settings })
                } else {
                    Some(settings)
                },
                None => None,
            },
            ..state
        },
    }
}

/// A phone that proved its identity at a new address: the capture follows it,
/// and so does the selection.
#[verifier::opaque]
pub open spec fn followed(
    d: DaemonView,
    serial: Seq<char>,
    address: Seq<char>,
    name: Seq<char>,
    stable: Seq<char>,
    attached: Seq<protocol::AttachedView>,
) -> (DaemonView, Result<(), RefusalView>) {
    let registry = d.core.registry;
    let captured = d.core.state.capture matches Some(capture) && same_device(
        registry,
        serial,
        stable,
        capture.phone.serial,
    );
    let selected = registry.selected matches Some(s) && same_device(registry, serial, stable, s);
    let d = if captured {
        let d = d.end_writer();
        d.hold_state(following(d.core.state, address, name))
    } else {
        d
    };
    let d = recalled(d, address, name, Some(stable), Some(serial), selected);
    let d = if selected {
        announced(
            d,
            ConnectionView::Connecting { phone: PhoneView { serial: address, name } },
            attached,
        )
    } else {
        d
    };
    let (d, _) = refreshed(d);
    (
        d,
        if selected {
            reached_in_the_end(d, address)
        } else {
            Ok(())
        },
    )
}

/// Looking who answers at a new address, and dropping whoever it should not be.
#[verifier::opaque]
pub open spec fn examined(
    d: DaemonView,
    known: KnownPhoneView,
    serial: Seq<char>,
    address: Seq<char>,
) -> (DaemonView, Result<(), RefusalView>) {
    let (o, scan) = scanned(d.outside);
    let d = d.with(o);
    match scan {
        Err(e) => {
            let (o, _) = parted(d.outside, address);
            (
                adb_lost(d.with(o).log("could not scan phones after connecting: "@ + e)),
                refusal("adb_unavailable"@, e),
            )
        },
        Ok(attached) => match found(attached, usable_as(address)) {
            None => {
                let (o, gone) = parted(d.outside, address);
                (
                    not_reached(
                        d.with(o),
                        known.phone,
                        address,
                        if gone {
                            kept(told(attached), others_than(address))
                        } else {
                            told(attached)
                        },
                    ),
                    refusal("unreachable"@, UNREACHABLE@),
                )
            },
            Some(there) => {
                let (o, stable) = identified(d.outside, address);
                let d = d.with(o);
                match stable {
                    None => {
                        let (o, _) = parted(d.outside, address);
                        (
                            d.with(o),
                            refusal(
                                "phone_identity_failed"@,
                                "could not verify that the new connect address belongs to the paired phone"@,
                            ),
                        )
                    },
                    Some(id) => if known.hardware_id is Some && known.hardware_id != stable {
                        let (o, _) = parted(d.outside, address);
                        (
                            d.with(o),
                            refusal(
                                "wrong_phone"@,
                                "the new connect address belongs to a different phone; selection was not changed"@,
                            ),
                        )
                    } else {
                        followed(d, serial, address, there.name, id, told(attached))
                    },
                }
            },
        },
    }
}

/// Giving a paired phone a new connect address, without pairing again.
#[verifier::opaque]
pub open spec fn readdressed(d: DaemonView, serial: Seq<char>, address: Seq<char>) -> (
    DaemonView,
    Result<(), RefusalView>,
) {
    if !endpoint(address) {
        (d, refusal("wrong_connect_address"@, WRONG_CONNECT_ADDRESS@))
    } else {
        match found(d.core.registry.phones, known_wireless(serial)) {
            None => (
                d,
                refusal(
                    "no_such_phone"@,
                    "no paired phone "@ + debug_text(serial) + " is known"@,
                ),
            ),
            Some(known) => if address_of(known) == address {
                (d, Ok(()))
            } else {
                let (o, ok) = joined(d.outside, address);
                let d = d.with(o);
                if !ok {
                    (
                        not_reached(d, known.phone, address, d.core.state.attached),
                        refusal("unreachable"@, UNREACHABLE@),
                    )
                } else {
                    examined(d, known, serial, address)
                }
            },
        }
    }
}

// ---------------------------------------------------------------------------
// Forgetting and selecting

/// Forgetting a phone: its entry, its settings, its connection and its capture.
#[verifier::opaque]
pub open spec fn dismissed(d: DaemonView, serial: Seq<char>) -> (
    DaemonView,
    Result<(), RefusalView>,
) {
    match first(d.core.registry.phones, known_serial(serial)) {
        None => (d, refusal("no_such_phone"@, "no known phone "@ + debug_text(serial))),
        Some(at) => {
            let known = d.core.registry.phones[at];
            let d = registry_saved(d.hold_registry(forgotten(d.core.registry, at)));
            let d = if known.transport == Transport::Wireless {
                d.with(parted(d.outside, address_of(known)).0)
            } else {
                d
            };
            let d = if capture_of(d.core.state, serial) {
                stopped(d)
            } else {
                d
            };
            (emptied(d), Ok(()))
        },
    }
}

/// With nothing selected and nothing attached there is only pairing to offer.
#[verifier::opaque]
pub open spec fn emptied(d: DaemonView) -> DaemonView {
    if d.core.registry.selected is None {
        let (o, scan) = scanned(d.outside);
        let d = d.with(o);
        match scan {
            Ok(attached) if attached.len() == 0 => announced(
                d,
                ConnectionView::NeedsPairing,
                Seq::empty(),
            ),
            _ => refreshed(d).0,
        }
    } else {
        refreshed(d).0
    }
}

/// The serials of the attached phones.
pub open spec fn serials(attached: Seq<AttachedView>) -> Seq<Seq<char>> {
    attached.map_values(|a: AttachedView| a.serial)
}

/// What is said of a phone that is not there: what is, since the caller cannot
/// always see it.
pub open spec fn no_such_phone(serial: Seq<char>, attached: Seq<AttachedView>) -> Seq<char> {
    let there = if attached.len() == 0 {
        "none"@
    } else {
        text::joined(serials(attached), ", "@)
    };
    if serial.len() == 0 {
        "name a phone; attached: "@ + there
    } else {
        "no phone "@ + debug_text(serial) + " is attached; attached: "@ + there
    }
}

/// Selecting a phone. A capture of another phone ends.
#[verifier::opaque]
pub open spec fn selected(d: DaemonView, serial: Seq<char>) -> (
    DaemonView,
    Result<(), RefusalView>,
) {
    let (o, scan) = scanned(d.outside);
    let d = d.with(o);
    match scan {
        Err(e) => (d, refusal("adb_unavailable"@, e)),
        Ok(attached) => if found(d.core.registry.phones, known_wireless(serial)) is None && !any(
            attached,
            has_serial(serial),
        ) {
            (d, refusal("no_such_phone"@, no_such_phone(serial, attached)))
        } else {
            let d = if d.core.state.capture is Some && !capture_of(d.core.state, serial) {
                stopped(d)
            } else {
                d
            };
            let d = chosen(d, serial);
            let d = if pairing(d.core.state.connection) {
                announced(d, ConnectionView::NoPhone, told(attached))
            } else {
                d
            };
            (refreshed(d).0, Ok(()))
        },
    }
}

pub open spec fn server_command() -> Seq<Seq<char>> {
    seq!["adb"@, "start-server"@]
}

/// Starting adb's server and looking again.
#[verifier::opaque]
pub open spec fn adb_refreshed(d: DaemonView) -> (DaemonView, bool) {
    let (o, outcome) = d.outside.run(server_command(), false);
    let d = d.with(o);
    if succeeded(outcome) {
        refreshed(d)
    } else {
        (adb_lost(d), false)
    }
}

// ---------------------------------------------------------------------------
// Settings

/// What a setting's new value is, as a number and as a rectangle.
pub open spec fn valued(o: OutsideView, json: Seq<char>) -> (OutsideView, SettingValueView) {
    let (o, answer) = o.ask(ActView::Value { json });
    (
        o,
        match answer {
            AnswerView::Value { number, crop } => SettingValueView { json, number, crop },
            _ => SettingValueView { json, number: None, crop: None },
        },
    )
}

/// Changing one pending setting of the connected phone.
#[verifier::opaque]
pub open spec fn adjusted(d: DaemonView, name: Seq<char>, json: Seq<char>) -> (
    DaemonView,
    Result<(), RefusalView>,
) {
    let (d, adb_ok) = refreshed(d);
    if !adb_ok {
        (d, refusal("adb_unavailable"@, "adb devices failed"@))
    } else {
        match d.core.state.connection {
            ConnectionView::Connected { phone } => {
                let (d, equipped) = equipped(d, phone.serial);
                match equipped {
                    Err(e) => (d, refusal("capabilities_failed"@, e)),
                    Ok(settings) => {
                        let (o, value) = valued(d.outside, json);
                        let d = d.with(o);
                        match changed(settings, name, value) {
                            Err(e) => (d, refusal("invalid_setting"@, e)),
                            Ok(settings) => (
                                published(
                                    d,
                                    StateView { settings: Some(settings), ..d.core.state },
                                ),
                                Ok(()),
                            ),
                        }
                    },
                }
            },
            other => (d, refusal("no_phone"@, reason_for(other))),
        }
    }
}

/// Throwing the pending settings away.
#[verifier::opaque]
pub open spec fn abandoned(d: DaemonView) -> (DaemonView, Result<(), RefusalView>) {
    match d.core.state.settings {
        None => (d, refusal("no_phone"@, "no connected phone has camera settings"@)),
        Some(settings) => (
            published(
                d,
                StateView { settings: Some(discarded(settings)), ..d.core.state },
            ),
            Ok(()),
        ),
    }
}

/// A capture that runs with new settings, in the state.
pub open spec fn running_with(
    d: DaemonView,
    capture: Option<CaptureView>,
    settings: SettingsStateView,
) -> DaemonView {
    published(d, StateView { capture, settings: Some(settings), ..d.core.state })
}

/// What a rejected Apply is answered, and the code that goes with it.
pub open spec fn rejection(
    rejected: Seq<char>,
    kept: Result<(), Seq<char>>,
    restarted: Result<u32, Seq<char>>,
) -> (Seq<char>, Seq<char>) {
    match (restarted, kept) {
        (Ok(_), Ok(())) => (
            "capture_failed"@,
            "scrcpy rejected "@ + rejected + "; previous capture restarted"@,
        ),
        (Ok(_), Err(e)) => (
            "rollback_failed"@,
            "scrcpy rejected "@ + rejected
                + "; previous capture restarted, but its settings could not be restored on disk: "@
                + e,
        ),
        (Err(e), _) => (
            "rollback_failed"@,
            "scrcpy rejected "@ + rejected
                + "; restarting the previous capture also failed: "@ + e,
        ),
    }
}

pub open spec fn described(o: OutsideView, settings: CameraSettingsView) -> (
    OutsideView,
    Seq<char>,
) {
    let (o, answer) = o.ask(ActView::Describe { settings });
    (
        o,
        match answer {
            AnswerView::Described { json } => json,
            _ => Seq::empty(),
        },
    )
}

/// Going back to the settings that were applied, on disk and in the capture.
#[verifier::opaque]
pub open spec fn rolled_back(
    d: DaemonView,
    phone: PhoneView,
    view: SettingsStateView,
    capture: CaptureView,
    position: Option<[i64; 2]>,
    error: Seq<char>,
) -> (DaemonView, Result<(), RefusalView>) {
    let (o, json) = described(d.outside, view.pending);
    let rejected = json + " ("@ + error + ")"@;
    let (d, kept) = persisted(d.with(o), phone.serial, view.applied);
    let (o, restarted) = replaced(
        d.outside,
        phone.serial,
        capture,
        view.applied,
        d.core.state.preview_style,
        position,
    );
    let d = d.with(o);
    let (code, message) = rejection(rejected, kept, restarted);
    let d = match restarted {
        Ok(pid) => d.hold_writer(Some(pid)),
        Err(_) => d,
    };
    (
        running_with(
            d,
            match restarted {
                Ok(_) => Some(capture),
                Err(_) => None,
            },
            refused(view, message),
        ),
        refusal(code, message),
    )
}

/// Replacing the running capture by one with the pending settings.
#[verifier::opaque]
pub open spec fn relaunched(
    d: DaemonView,
    phone: PhoneView,
    view: SettingsStateView,
    capture: CaptureView,
    position: Option<[i64; 2]>,
) -> (DaemonView, Result<(), RefusalView>) {
    let d = d.end_writer();
    let (o, started) = replaced(
        d.outside,
        phone.serial,
        capture,
        view.pending,
        d.core.state.preview_style,
        position,
    );
    let d = d.with(o);
    match started {
        Ok(pid) => (
            running_with(
                d.hold_writer(Some(pid)),
                Some(
                    CaptureView {
                        phone,
                        node: capture.node,
                        size: frame_size(view.pending),
                        stay_awake: false,
                        preview: capture.preview,
                    },
                ),
                accepted(view),
            ),
            Ok(()),
        ),
        Err(e) => rolled_back(d, phone, view, capture, position, e),
    }
}

/// What is said of a frame size that an application pins.
pub open spec fn in_use(node: Seq<char>, view: SettingsStateView) -> Seq<char> {
    node + " is in use; close the application using it before changing frame size from "@
        + frame_size(view.applied) + " to "@ + frame_size(view.pending)
}

/// Whether the pending settings may replace the applied ones in a running
/// capture: the frame size changes only while nobody watches.
#[verifier::opaque]
pub open spec fn cleared(d: DaemonView, view: SettingsStateView, node: Seq<char>, writer: u32) -> (
    DaemonView,
    Result<(), RefusalView>,
) {
    if frame_size(view.pending) == frame_size(view.applied) {
        (d, Ok(()))
    } else {
        let (o, consumer) = consumed(d.outside, node, writer);
        let d = d.with(o);
        match consumer {
            Err(e) => (
                d,
                refusal(
                    "consumer_check_failed"@,
                    "could not inspect who is using "@ + node + ": "@ + e,
                ),
            ),
            Ok(false) => (d, Ok(())),
            Ok(true) => {
                let message = in_use(node, view);
                (
                    published(
                        d,
                        StateView { settings: Some(noted(view, message)), ..d.core.state },
                    ),
                    refusal("camera_in_use"@, message),
                )
            },
        }
    }
}

/// Where a running capture's preview is to be after Apply.
#[verifier::opaque]
pub open spec fn placed(d: DaemonView, capture: CaptureView) -> (
    DaemonView,
    Result<Option<[i64; 2]>, Seq<char>>,
) {
    if capture.preview {
        let (o, at) = located(d.outside);
        (
            d.with(o),
            match at {
                Ok(at) => Ok(Some(at)),
                Err(e) => Err(e),
            },
        )
    } else {
        (d, Ok(d.core.position))
    }
}

/// Applying to a running capture.
#[verifier::opaque]
pub open spec fn applied_live(
    d: DaemonView,
    phone: PhoneView,
    view: SettingsStateView,
    capture: CaptureView,
    writer: u32,
) -> (DaemonView, Result<(), RefusalView>) {
    let (d, clear) = cleared(d, view, capture.node, writer);
    match clear {
        Err(_) => (d, clear),
        Ok(()) => {
            let (d, position) = placed(d, capture);
            match position {
                Err(e) => (
                    d,
                    refusal(
                        "preview_failed"@,
                        "could not locate the preview before Apply: "@ + e,
                    ),
                ),
                Ok(position) => {
                    let (d, kept) = persisted(d, phone.serial, view.pending);
                    match kept {
                        Err(e) => (
                            d,
                            refusal("apply_not_persisted"@, "could not persist Apply: "@ + e),
                        ),
                        Ok(()) => relaunched(d, phone, view, capture, position),
                    }
                },
            }
        },
    }
}

/// Applying with no capture running: the settings are kept for the next one.
#[verifier::opaque]
pub open spec fn applied_idle(d: DaemonView, phone: PhoneView, view: SettingsStateView) -> (
    DaemonView,
    Result<(), RefusalView>,
) {
    let (d, kept) = persisted(d, phone.serial, view.pending);
    match kept {
        Err(e) => (d, refusal("apply_not_persisted"@, "could not persist Apply: "@ + e)),
        Ok(()) => (
            published(d, StateView { settings: Some(accepted(view)), ..d.core.state }),
            Ok(()),
        ),
    }
}

/// Putting the pending settings in force.
#[verifier::opaque]
pub open spec fn applied(d: DaemonView) -> (DaemonView, Result<(), RefusalView>) {
    let (d, adb_ok) = refreshed(d);
    if !adb_ok {
        (d, refusal("adb_unavailable"@, "adb devices failed"@))
    } else {
        let d = reaped(d);
        match d.core.state.connection {
            ConnectionView::Connected { phone } => {
                let (d, equipped) = equipped(d, phone.serial);
                match equipped {
                    Err(e) => (d, refusal("capabilities_failed"@, e)),
                    Ok(view) => if !view.has_pending_changes {
                        (d, Ok(()))
                    } else {
                        match (d.core.state.capture, d.core.writer) {
                            (Some(capture), Some(writer)) => applied_live(
                                d,
                                phone,
                                view,
                                capture,
                                writer,
                            ),
                            _ => applied_idle(d, phone, view),
                        }
                    },
                }
            },
            other => (d, refusal("no_phone"@, reason_for(other))),
        }
    }
}

// ---------------------------------------------------------------------------
// Doing it

impl Daemon {
    fn connected_to(&self, serial: &str) -> (r: bool)
        ensures
            r == connected_to(self@.core.state, serial@),
    {
        match &self.core.state.connection {
            Connection::Connected { phone } => text::same(&phone.serial, serial),
            _ => false,
        }
    }

    fn capture_of(&self, serial: &str) -> (r: bool)
        ensures
            r == capture_of(self@.core.state, serial@),
    {
        match &self.core.state.capture {
            Some(capture) => text::same(&capture.phone.serial, serial),
            None => false,
        }
    }

    pub fn stop_writer(&mut self)
        requires
            old(self).core.wf(),
            old(self).core.rev + 1 <= u64::MAX,
        ensures
            final(self).core.wf(),
            final(self).core.rev <= old(self).core.rev + 1,
            final(self)@ == stopped(old(self)@),
    {
        proof {
            reveal(stopped);
        }
        self.hold_position(None);
        self.end_writer();
        let mut state = self.core.state.copy();
        let reconnecting = match &state.connection {
            Connection::Reconnecting { .. } => true,
            _ => false,
        };
        if reconnecting {
            state.connection = Connection::NoPhone;
        }
        state.capture = None;
        self.publish(state);
    }

    pub fn reap_capture(&mut self)
        requires
            old(self).core.wf(),
            old(self).core.rev + 1 <= u64::MAX,
        ensures
            final(self).core.wf(),
            final(self).core.rev <= old(self).core.rev + 1,
            final(self)@ == reaped(old(self)@),
    {
        proof {
            reveal(reaped);
        }
        if self.core.writer.is_none() {
            return;
        }
        let running = match capture::poll(&mut self.outside) {
            Writer::Running => true,
            _ => false,
        };
        if running {
            return;
        }
        self.prepare_reconnect_preview();
        self.hold_writer(None);
        let phone = match &self.core.state.capture {
            Some(capture) => capture.phone.copy(),
            None => return,
        };
        let attached = self.core.state.attached.copy();
        self.publish_connection(Connection::Reconnecting { phone }, attached);
    }

    fn launch_capture(
        &mut self,
        phone: Phone,
        style: PreviewStyle,
        settings: &CameraSettings,
        node: String,
    ) -> (r: Result<(), Refusal>)
        requires
            old(self).core.wf(),
            old(self).core.rev + 1 <= u64::MAX,
        ensures
            final(self).core.wf(),
            final(self).core.rev <= old(self).core.rev + 1,
            (final(self)@, shown(r)) == launched(old(self)@, phone@, style, settings@, node@),
    {
        proof {
            reveal(launched);
        }
        match capture::apply_preview_rule(
            &mut self.outside,
            style.rounding,
            style.border_size,
            None,
        ) {
            Err(e) => return refuse(
                "capture_failed",
                text::of("could not prepare the preview: ").concat(&e),
            ),
            Ok(()) => {},
        }
        match capture::apply_reconnect_rule(
            &mut self.outside,
            style.rounding,
            style.border_size,
            None,
        ) {
            Err(e) => return refuse(
                "capture_failed",
                text::of("could not prepare the reconnect preview: ").concat(&e),
            ),
            Ok(()) => {},
        }
        match capture::spawn(&mut self.outside, &phone.serial, &node, settings) {
            Err(f) => {
                if f.not_found {
                    refuse(
                        "capture_failed",
                        text::of("could not launch scrcpy: ").concat(&f.message).concat(
                            "; install scrcpy and try again",
                        ),
                    )
                } else {
                    refuse(
                        "capture_failed",
                        text::of("scrcpy did not start: ").concat(&f.message),
                    )
                }
            },
            Ok(pid) => {
                let position = match capture::preview_position(&mut self.outside) {
                    Ok(at) => Some(at),
                    Err(_) => None,
                };
                self.hold_writer(Some(pid));
                self.hold_position(position);
                let mut state = self.core.state.copy();
                state.capture =
                Some(
                    Capture {
                        phone,
                        node,
                        size: settings::output_size(settings),
                        stay_awake: false,
                        preview: true,
                    },
                );
                state.preview_style = style;
                self.publish(state);
                Ok(())
            },
        }
    }

    fn begin_capture(&mut self, phone: Phone, style: PreviewStyle) -> (r: Result<(), Refusal>)
        requires
            old(self).core.wf(),
            old(self).core.rev + 2 <= u64::MAX,
        ensures
            final(self).core.wf(),
            final(self).core.rev <= old(self).core.rev + 2,
            (final(self)@, shown(r)) == begun(old(self)@, phone@, style),
    {
        proof {
            reveal(begun);
        }
        let settings = match self.ensure_settings(&phone.serial) {
            Err(e) => return refuse("capabilities_failed", e),
            Ok(settings) => settings,
        };
        let node = match capture::find_node(&mut self.outside) {
            Err(e) => return refuse("no_virtual_camera", e),
            Ok(node) => node,
        };
        capture::set_controls(&mut self.outside, &node);
        self.launch_capture(phone, style, &settings.applied, node)
    }

    pub fn start_capture(
        &mut self,
        stay_awake: bool,
        style: PreviewStyle,
    ) -> (r: Result<(), Refusal>)
        requires
            old(self).core.wf(),
            old(self).core.rev + 8 <= u64::MAX,
        ensures
            final(self).core.wf(),
            final(self).core.rev <= old(self).core.rev + 8,
            (final(self)@, shown(r)) == started(old(self)@, stay_awake, style),
    {
        proof {
            reveal(started);
        }
        if stay_awake {
            return refuse("preview_conflict", text::of(PREVIEW_CONFLICT));
        }
        self.reap_capture();
        let adb_ok = self.refresh_connection();
        if self.core.state.capture.is_some() {
            return Ok(());
        }
        if !adb_ok {
            return refuse("adb_unavailable", text::of("adb devices failed"));
        }
        let phone = match &self.core.state.connection {
            Connection::Connected { phone } => phone.copy(),
            other => return refuse("no_phone", refusal_reason(other)),
        };
        self.begin_capture(phone, style)
    }

    fn theme_preview(&mut self, style: PreviewStyle) -> (r: Result<(), Refusal>)
        requires
            old(self).core.wf(),
            old(self).core.rev + 1 <= u64::MAX,
        ensures
            final(self).core.wf(),
            final(self).core.rev <= old(self).core.rev + 1,
            (final(self)@, shown(r)) == themed(old(self)@, style),
    {
        proof {
            reveal(themed);
        }
        match capture::apply_preview_style(&mut self.outside, style.rounding, style.border_size) {
            Err(e) => return refuse(
                "preview_failed",
                text::of("could not theme the preview: ").concat(&e),
            ),
            Ok(()) => {},
        }
        match capture::apply_reconnect_rule(
            &mut self.outside,
            style.rounding,
            style.border_size,
            self.core.position,
        ) {
            Err(e) => return refuse(
                "preview_failed",
                text::of("could not theme the reconnect preview: ").concat(&e),
            ),
            Ok(()) => {},
        }
        let mut state = self.core.state.copy();
        state.preview_style = style;
        self.publish(state);
        Ok(())
    }

    fn turn_preview(&mut self, visible: bool) -> (r: Result<(), Refusal>)
        requires
            old(self).core.wf(),
        ensures
            final(self).core.wf(),
            final(self).core.rev == old(self).core.rev,
            (final(self)@, shown(r)) == turned(old(self)@, visible),
    {
        proof {
            reveal(turned);
        }
        if visible {
            let shown = match self.core.position {
                Some(at) => capture::move_preview(&mut self.outside, at),
                None => capture::center_preview(&mut self.outside),
            };
            return match shown {
                Err(e) => refuse(
                    "preview_failed",
                    text::of("could not show the preview: ").concat(&e),
                ),
                Ok(()) => Ok(()),
            };
        }
        let at = match capture::preview_position(&mut self.outside) {
            Err(e) => return refuse(
                "preview_failed",
                text::of("could not locate the preview: ").concat(&e),
            ),
            Ok(at) => at,
        };
        match capture::hide_preview(&mut self.outside) {
            Err(e) => return refuse(
                "preview_failed",
                text::of("could not hide the preview: ").concat(&e),
            ),
            Ok(()) => {},
        }
        self.hold_position(Some(at));
        Ok(())
    }

    pub fn set_preview(&mut self, visible: bool, style: PreviewStyle) -> (r: Result<(), Refusal>)
        requires
            old(self).core.wf(),
            old(self).core.rev + 3 <= u64::MAX,
        ensures
            final(self).core.wf(),
            final(self).core.rev <= old(self).core.rev + 3,
            (final(self)@, shown(r)) == previewed(old(self)@, visible, style),
    {
        proof {
            reveal(previewed);
        }
        self.reap_capture();
        let mut public = match &self.core.state.capture {
            None => return refuse(
                "no_capture",
                text::of("start a capture before opening its preview"),
            ),
            Some(public) => public.copy(),
        };
        match self.theme_preview(style) {
            Err(e) => return Err(e),
            Ok(()) => {},
        }
        if public.preview == visible {
            return Ok(());
        }
        match self.turn_preview(visible) {
            Err(e) => return Err(e),
            Ok(()) => {},
        }
        public.preview = visible;
        let mut state = self.core.state.copy();
        state.capture = Some(public);
        self.publish(state);
        Ok(())
    }

    fn attach_anew(&mut self, address: &str) -> (r: Result<(), Refusal>)
        requires
            old(self).core.wf(),
            old(self).core.rev + 6 <= u64::MAX,
        ensures
            final(self).core.wf(),
            final(self).core.rev <= old(self).core.rev + 6,
            (final(self)@, shown(r)) == attached_anew(old(self)@, address@),
    {
        proof {
            reveal(attached_anew);
        }
        if !phones::connect_wireless(&mut self.outside, address) {
            let attached = self.core.state.attached.copy();
            self.publish_connection(away(address), attached);
            return refuse("unreachable", text::of(UNREACHABLE));
        }
        let attached = match phones::scan(&mut self.outside) {
            Err(e) => {
                self.log(text::of("could not scan phones after connecting: ").concat(&e));
                self.publish_adb_failure();
                return refuse("adb_unavailable", e);
            },
            Ok(attached) => attached,
        };
        let name = match find_usable_as(&attached, address) {
            None => {
                self.publish_connection(away(address), phones::listed(&attached));
                return refuse("unreachable", text::of(UNREACHABLE));
            },
            Some(i) => {
                assert(attached.deep_view()[i as int] == attached[i as int]@);
                attached[i].name.copy()
            },
        };
        let stable = phones::stable_id(&mut self.outside, address);
        self.remember_wireless(address, &name, &stable, &None, true);
        self.publish_connection(
            Connection::Connecting { phone: Phone { serial: text::of(address), name } },
            phones::listed(&attached),
        );
        let _ = self.refresh_connection();
        if self.connected_to(address) {
            Ok(())
        } else {
            refuse("unreachable", text::of(UNREACHABLE))
        }
    }

    pub fn pair_phone(
        &mut self,
        pair_address: &str,
        code: &str,
        connect_address: &str,
    ) -> (r: Result<(), Refusal>)
        requires
            old(self).core.wf(),
            old(self).core.rev + 7 <= u64::MAX,
        ensures
            final(self).core.wf(),
            final(self).core.rev <= old(self).core.rev + 7,
            (final(self)@, shown(r)) == coupled(
            old(self)@,
            pair_address@,
            code@,
            connect_address@,
            ),
    {
        proof {
            reveal(coupled);
        }
        if !phones::valid_endpoint(connect_address) {
            return refuse("wrong_connect_address", text::of(WRONG_CONNECT_ADDRESS));
        }
        match phones::pair(&mut self.outside, pair_address, code) {
            Err(reason) => {
                let attached = self.core.state.attached.copy();
                self.publish_connection(Connection::PairingFailed { reason }, attached);
                let code = match reason {
                    PairingFailure::WrongCode => "wrong_code",
                    PairingFailure::WrongAddress => "wrong_pair_address",
                    PairingFailure::Unreachable => "unreachable",
                };
                return refuse(code, pairing_message(reason));
            },
            Ok(()) => {},
        }
        if self.core.state.capture.is_some() && !self.capture_of(connect_address) {
            self.stop_writer();
        }
        self.remember_wireless(connect_address, connect_address, &None, &None, true);
        self.attach_anew(connect_address)
    }

    pub fn begin_pairing(&mut self)
        requires
            old(self).core.wf(),
            old(self).core.rev + 1 <= u64::MAX,
        ensures
            final(self).core.wf(),
            final(self).core.rev <= old(self).core.rev + 1,
            final(self)@ == announced(
            old(self)@,
            ConnectionView::NeedsPairing,
            old(self)@.core.state.attached,
            ),
    {
        let attached = self.core.state.attached.copy();
        self.publish_connection(Connection::NeedsPairing, attached);
    }

    fn same_device(&self, serial: &str, stable: &str, candidate: &str) -> (r: bool)
        ensures
            r == same_device(self@.core.registry, serial@, stable@, candidate@),
    {
        if text::same(candidate, serial) {
            return true;
        }
        match phones::find_known_hardware(&self.core.registry.phones, stable) {
            Some(i) => text::same(&self.core.registry.phones[i].phone.serial, candidate),
            None => false,
        }
    }

    fn follow_capture(&mut self, address: &str, name: &str)
        requires
            old(self).core.wf(),
        ensures
            final(self).core.wf(),
            final(self).core.rev == old(self).core.rev,
            final(self)@ == old(self)@.hold_state(
                following(old(self)@.core.state, address@, name@),
            ),
    {
        let mut state = self.core.state.copy();
        let old_serial = match &state.capture {
            None => {
                self.hold_state(state);
                return;
            },
            Some(capture) => capture.phone.serial.copy(),
        };
        let mut capture = state.capture.copy();
        match capture {
            Some(mut c) => {
                c.phone = Phone { serial: text::of(address), name: text::of(name) };
                capture = Some(c);
            },
            None => {},
        }
        state.capture = capture;
        let mut settings = state.settings.copy();
        match settings {
            Some(mut s) => {
                if text::same(&s.phone, &old_serial) {
                    s.phone = text::of(address);
                }
                settings = Some(s);
            },
            None => {},
        }
        state.settings = settings;
        self.hold_state(state);
    }

    fn follow(
        &mut self,
        serial: &str,
        address: &str,
        name: &str,
        stable: String,
        attached: Vec<protocol::Attached>,
    ) -> (r: Result<(), Refusal>)
        requires
            old(self).core.wf(),
            old(self).core.rev + 6 <= u64::MAX,
        ensures
            final(self).core.wf(),
            final(self).core.rev <= old(self).core.rev + 6,
            (final(self)@, shown(r)) == followed(
            old(self)@,
            serial@,
            address@,
            name@,
            stable@,
            attached.deep_view(),
            ),
    {
        proof {
            reveal(followed);
        }
        let captured = match &self.core.state.capture {
            Some(capture) => self.same_device(serial, &stable, &capture.phone.serial),
            None => false,
        };
        let selected = match &self.core.registry.selected {
            Some(s) => self.same_device(serial, &stable, s),
            None => false,
        };
        if captured {
            self.end_writer();
            self.follow_capture(address, name);
        }
        self.remember_wireless(address, name, &Some(stable), &Some(text::of(serial)), selected);
        if selected {
            self.publish_connection(
                Connection::Connecting {
                    phone: Phone { serial: text::of(address), name: text::of(name) },
                },
                attached,
            );
        }
        let _ = self.refresh_connection();
        if !selected || self.connected_to(address) {
            Ok(())
        } else {
            refuse("unreachable", text::of(UNREACHABLE))
        }
    }

    fn examine(
        &mut self,
        known: protocol::KnownPhone,
        serial: &str,
        address: &str,
    ) -> (r: Result<(), Refusal>)
        requires
            old(self).core.wf(),
            old(self).core.rev + 6 <= u64::MAX,
        ensures
            final(self).core.wf(),
            final(self).core.rev <= old(self).core.rev + 6,
            (final(self)@, shown(r)) == examined(old(self)@, known@, serial@, address@),
    {
        proof {
            reveal(examined);
        }
        let attached = match phones::scan(&mut self.outside) {
            Err(e) => {
                let _ = phones::disconnect_wireless(&mut self.outside, address);
                self.log(text::of("could not scan phones after connecting: ").concat(&e));
                self.publish_adb_failure();
                return refuse("adb_unavailable", e);
            },
            Ok(attached) => attached,
        };
        let name = match find_usable_as(&attached, address) {
            None => {
                let mut listed = phones::listed(&attached);
                if phones::disconnect_wireless(&mut self.outside, address) {
                    listed = without_serial(&listed, address);
                }
                self.not_reached(known.phone, address, listed);
                return refuse("unreachable", text::of(UNREACHABLE));
            },
            Some(i) => {
                assert(attached.deep_view()[i as int] == attached[i as int]@);
                attached[i].name.copy()
            },
        };
        let stable = match phones::stable_id(&mut self.outside, address) {
            None => {
                let _ = phones::disconnect_wireless(&mut self.outside, address);
                return refuse(
                    "phone_identity_failed",
                    text::of(
                        "could not verify that the new connect address belongs to the paired phone",
                    ),
                );
            },
            Some(stable) => stable,
        };
        if known.hardware_id.is_some() && !text::same_as(&known.hardware_id, &stable) {
            let _ = phones::disconnect_wireless(&mut self.outside, address);
            return refuse(
                "wrong_phone",
                text::of(
                    "the new connect address belongs to a different phone; selection was not changed",
                ),
            );
        }
        self.follow(serial, address, &name, stable, phones::listed(&attached))
    }

    pub fn update_connect_address(
        &mut self,
        serial: &str,
        connect_address: &str,
    ) -> (r: Result<(), Refusal>)
        requires
            old(self).core.wf(),
            old(self).core.rev + 6 <= u64::MAX,
        ensures
            final(self).core.wf(),
            final(self).core.rev <= old(self).core.rev + 6,
            (final(self)@, shown(r)) == readdressed(old(self)@, serial@, connect_address@),
    {
        proof {
            reveal(readdressed);
        }
        if !phones::valid_endpoint(connect_address) {
            return refuse("wrong_connect_address", text::of(WRONG_CONNECT_ADDRESS));
        }
        let known = match phones::find_known_wireless(&self.core.registry.phones, serial) {
            None => return refuse(
                "no_such_phone",
                text::of("no paired phone ").concat(&text::quoted(serial)).concat(" is known"),
            ),
            Some(i) => self.core.registry.phones[i].copy(),
        };
        let current = match &known.connect_address {
            Some(address) => address.copy(),
            None => known.phone.serial.copy(),
        };
        if text::same(&current, connect_address) {
            return Ok(());
        }
        if !phones::connect_wireless(&mut self.outside, connect_address) {
            let attached = self.core.state.attached.copy();
            self.not_reached(known.phone, connect_address, attached);
            return refuse("unreachable", text::of(UNREACHABLE));
        }
        self.examine(known, serial, connect_address)
    }

    fn offer_pairing_or_refresh(&mut self)
        requires
            old(self).core.wf(),
            old(self).core.rev + 5 <= u64::MAX,
        ensures
            final(self).core.wf(),
            final(self).core.rev <= old(self).core.rev + 5,
            final(self)@ == emptied(old(self)@),
    {
        proof {
            reveal(emptied);
        }
        if self.core.registry.selected.is_none() {
            let empty = match phones::scan(&mut self.outside) {
                Ok(attached) => attached.len() == 0,
                Err(_) => false,
            };
            if empty {
                let none: Vec<protocol::Attached> = Vec::new();
                assert(none.deep_view() =~= Seq::empty());
                self.publish_connection(Connection::NeedsPairing, none);
                return;
            }
        }
        let _ = self.refresh_connection();
    }

    pub fn forget_phone(&mut self, serial: &str) -> (r: Result<(), Refusal>)
        requires
            old(self).core.wf(),
            old(self).core.rev + 6 <= u64::MAX,
        ensures
            final(self).core.wf(),
            final(self).core.rev <= old(self).core.rev + 6,
            (final(self)@, shown(r)) == dismissed(old(self)@, serial@),
    {
        proof {
            reveal(dismissed);
        }
        let at = match phones::find_known_serial(&self.core.registry.phones, serial) {
            None => return refuse(
                "no_such_phone",
                text::of("no known phone ").concat(&text::quoted(serial)),
            ),
            Some(at) => at,
        };
        let mut registry = self.core.registry.copy();
        let known = registry.forget(at);
        self.hold_registry(registry);
        self.save_registry();
        if known.transport == Transport::Wireless {
            let address = match &known.connect_address {
                Some(address) => address.copy(),
                None => known.phone.serial.copy(),
            };
            let _ = phones::disconnect_wireless(&mut self.outside, &address);
        }
        if self.capture_of(serial) {
            self.stop_writer();
        }
        self.offer_pairing_or_refresh();
        Ok(())
    }

    pub fn select_phone(&mut self, serial: &str) -> (r: Result<(), Refusal>)
        requires
            old(self).core.wf(),
            old(self).core.rev + 7 <= u64::MAX,
        ensures
            final(self).core.wf(),
            final(self).core.rev <= old(self).core.rev + 7,
            (final(self)@, shown(r)) == selected(old(self)@, serial@),
    {
        proof {
            reveal(selected);
        }
        let attached = match phones::scan(&mut self.outside) {
            Err(e) => return refuse("adb_unavailable", e),
            Ok(attached) => attached,
        };
        let known = phones::find_known_wireless(&self.core.registry.phones, serial).is_some();
        if !known && !is_attached(&attached, serial) {
            return refuse("no_such_phone", unknown_phone(serial, &attached));
        }
        if self.core.state.capture.is_some() && !self.capture_of(serial) {
            self.stop_writer();
        }
        self.remember_selection(serial);
        let pairing = match &self.core.state.connection {
            Connection::NeedsPairing => true,
            Connection::PairingFailed { .. } => true,
            _ => false,
        };
        if pairing {
            self.publish_connection(Connection::NoPhone, phones::listed(&attached));
        }
        let _ = self.refresh_connection();
        Ok(())
    }

    pub fn refresh_adb(&mut self) -> (r: bool)
        requires
            old(self).core.wf(),
            old(self).core.rev + 5 <= u64::MAX,
        ensures
            final(self).core.wf(),
            final(self).core.rev <= old(self).core.rev + 5,
            (final(self)@, r) == adb_refreshed(old(self)@),
    {
        proof {
            reveal(adb_refreshed);
        }
        let argv = vec![text::of("adb"), text::of("start-server")];
        assert(argv.deep_view() =~= server_command());
        if !self.outside.run(argv, false).success() {
            self.publish_adb_failure();
            return false;
        }
        self.refresh_connection()
    }

    pub fn set_setting(&mut self, name: &str, json: &str) -> (r: Result<(), Refusal>)
        requires
            old(self).core.wf(),
            old(self).core.rev + 7 <= u64::MAX,
        ensures
            final(self).core.wf(),
            final(self).core.rev <= old(self).core.rev + 7,
            (final(self)@, shown(r)) == adjusted(old(self)@, name@, json@),
    {
        proof {
            reveal(adjusted);
        }
        if !self.refresh_connection() {
            return refuse("adb_unavailable", text::of("adb devices failed"));
        }
        let phone = match &self.core.state.connection {
            Connection::Connected { phone } => phone.copy(),
            other => return refuse("no_phone", refusal_reason(other)),
        };
        let mut settings = match self.ensure_settings(&phone.serial) {
            Err(e) => return refuse("capabilities_failed", e),
            Ok(settings) => settings,
        };
        let value = read_value(&mut self.outside, json);
        match settings.change(name, &value) {
            Err(e) => refuse("invalid_setting", e),
            Ok(()) => {
                self.publish_settings(settings);
                Ok(())
            },
        }
    }

    pub fn discard_settings(&mut self) -> (r: Result<(), Refusal>)
        requires
            old(self).core.wf(),
            old(self).core.rev + 1 <= u64::MAX,
        ensures
            final(self).core.wf(),
            final(self).core.rev <= old(self).core.rev + 1,
            (final(self)@, shown(r)) == abandoned(old(self)@),
    {
        proof {
            reveal(abandoned);
        }
        let mut settings = match &self.core.state.settings {
            None => return refuse(
                "no_phone",
                text::of("no connected phone has camera settings"),
            ),
            Some(settings) => settings.copy(),
        };
        settings.discard();
        self.publish_settings(settings);
        Ok(())
    }

    fn run_with(&mut self, capture: Option<Capture>, settings: SettingsState)
        requires
            old(self).core.wf(),
            old(self).core.rev + 1 <= u64::MAX,
            settings.wf(),
        ensures
            final(self).core.wf(),
            final(self).core.rev <= old(self).core.rev + 1,
            final(self)@ == running_with(old(self)@, capture.deep_view(), settings@),
    {
        let mut state = self.core.state.copy();
        state.capture = capture;
        state.settings = Some(settings);
        self.publish(state);
    }

    fn roll_back(
        &mut self,
        phone: Phone,
        view: SettingsState,
        capture: Capture,
        position: Option<[i64; 2]>,
        error: String,
    ) -> (r: Result<(), Refusal>)
        requires
            old(self).core.wf(),
            old(self).core.rev + 1 <= u64::MAX,
            view.wf(),
        ensures
            final(self).core.wf(),
            final(self).core.rev <= old(self).core.rev + 1,
            (final(self)@, shown(r)) == rolled_back(
            old(self)@,
            phone@,
            view@,
            capture@,
            position,
            error@,
            ),
    {
        proof {
            reveal(rolled_back);
        }
        let mut view = view;
        let json = match self.outside.ask(Act::Describe { settings: view.pending.copy() }) {
            Answer::Described { json } => json,
            _ => String::new(),
        };
        let rejected = json.concat(" (").concat(&error).concat(")");
        let kept = self.persist_settings(&phone.serial, view.applied.copy());
        let restarted = spawn_replacement(
            &mut self.outside,
            &phone.serial,
            &capture,
            &view.applied,
            self.core.state.preview_style,
            position,
        );
        match restarted {
            Ok(pid) => {
                self.hold_writer(Some(pid));
                let (code, message) = match kept {
                    Ok(()) => (
                        "capture_failed",
                        text::of("scrcpy rejected ").concat(&rejected).concat(
                            "; previous capture restarted",
                        ),
                    ),
                    Err(e) => (
                        "rollback_failed",
                        text::of("scrcpy rejected ").concat(&rejected).concat(
                            "; previous capture restarted, but its settings could not be restored on disk: ",
                        ).concat(&e),
                    ),
                };
                view.reject(message.copy());
                self.run_with(Some(capture), view);
                refuse(code, message)
            },
            Err(e) => {
                let message = text::of("scrcpy rejected ").concat(&rejected).concat(
                    "; restarting the previous capture also failed: ",
                ).concat(&e);
                view.reject(message.copy());
                self.run_with(None, view);
                refuse("rollback_failed", message)
            },
        }
    }

    fn relaunch(
        &mut self,
        phone: Phone,
        view: SettingsState,
        capture: Capture,
        position: Option<[i64; 2]>,
    ) -> (r: Result<(), Refusal>)
        requires
            old(self).core.wf(),
            old(self).core.rev + 1 <= u64::MAX,
            view.wf(),
        ensures
            final(self).core.wf(),
            final(self).core.rev <= old(self).core.rev + 1,
            (final(self)@, shown(r)) == relaunched(old(self)@, phone@, view@, capture@, position),
    {
        proof {
            reveal(relaunched);
        }
        let mut view = view;
        self.end_writer();
        let started = spawn_replacement(
            &mut self.outside,
            &phone.serial,
            &capture,
            &view.pending,
            self.core.state.preview_style,
            position,
        );
        match started {
            Ok(pid) => {
                self.hold_writer(Some(pid));
                let running = Capture {
                    phone,
                    node: capture.node,
                    size: settings::output_size(&view.pending),
                    stay_awake: false,
                    preview: capture.preview,
                };
                view.applied();
                self.run_with(Some(running), view);
                Ok(())
            },
            Err(e) => self.roll_back(phone, view, capture, position, e),
        }
    }

    fn clear(&mut self, view: &SettingsState, node: &str, writer: u32) -> (r: Result<(), Refusal>)
        requires
            old(self).core.wf(),
            old(self).core.rev + 1 <= u64::MAX,
            view.wf(),
        ensures
            final(self).core.wf(),
            final(self).core.rev <= old(self).core.rev + 1,
            (final(self)@, shown(r)) == cleared(old(self)@, view@, node@, writer),
            r is Ok ==> final(self).core.rev == old(self).core.rev,
    {
        proof {
            reveal(cleared);
        }
        let now = settings::output_size(&view.applied);
        let wanted = settings::output_size(&view.pending);
        if text::same(&wanted, &now) {
            return Ok(());
        }
        match capture::has_consumer(&mut self.outside, node, writer) {
            Err(e) => refuse(
                "consumer_check_failed",
                text::of("could not inspect who is using ").concat(node).concat(": ").concat(&e),
            ),
            Ok(false) => Ok(()),
            Ok(true) => {
                let message = text::of(node).concat(
                    " is in use; close the application using it before changing frame size from ",
                ).concat(&now).concat(" to ").concat(&wanted);
                let mut settings = view.copy();
                settings.note_rejection(message.copy());
                self.publish_settings(settings);
                refuse("camera_in_use", message)
            },
        }
    }

    fn place_preview(&mut self, capture: &Capture) -> (r: Result<Option<[i64; 2]>, String>)
        requires
            old(self).core.wf(),
        ensures
            final(self).core.wf(),
            final(self).core.rev == old(self).core.rev,
            match r {
            Ok(position) => (final(self)@, Ok::<Option<[i64; 2]>, Seq<char>>(position)) == placed(
            old(self)@,
            capture@,
            ),
            Err(e) => (final(self)@, Err::<Option<[i64; 2]>, Seq<char>>(e@)) == placed(
            old(self)@,
            capture@,
            ),
            },
    {
        proof {
            reveal(placed);
        }
        if capture.preview {
            match capture::preview_position(&mut self.outside) {
                Ok(at) => Ok(Some(at)),
                Err(e) => Err(e),
            }
        } else {
            Ok(self.core.position)
        }
    }

    fn apply_live(
        &mut self,
        phone: Phone,
        view: SettingsState,
        capture: Capture,
        writer: u32,
    ) -> (r: Result<(), Refusal>)
        requires
            old(self).core.wf(),
            old(self).core.rev + 1 <= u64::MAX,
            view.wf(),
        ensures
            final(self).core.wf(),
            final(self).core.rev <= old(self).core.rev + 1,
            (final(self)@, shown(r)) == applied_live(old(self)@, phone@, view@, capture@, writer),
    {
        proof {
            reveal(applied_live);
        }
        match self.clear(&view, &capture.node, writer) {
            Err(e) => return Err(e),
            Ok(()) => {},
        }
        let position = match self.place_preview(&capture) {
            Err(e) => return refuse(
                "preview_failed",
                text::of("could not locate the preview before Apply: ").concat(&e),
            ),
            Ok(position) => position,
        };
        match self.persist_settings(&phone.serial, view.pending.copy()) {
            Err(e) => return refuse(
                "apply_not_persisted",
                text::of("could not persist Apply: ").concat(&e),
            ),
            Ok(()) => {},
        }
        self.relaunch(phone, view, capture, position)
    }

    fn apply_idle(&mut self, phone: Phone, view: SettingsState) -> (r: Result<(), Refusal>)
        requires
            old(self).core.wf(),
            old(self).core.rev + 1 <= u64::MAX,
            view.wf(),
        ensures
            final(self).core.wf(),
            final(self).core.rev <= old(self).core.rev + 1,
            (final(self)@, shown(r)) == applied_idle(old(self)@, phone@, view@),
    {
        proof {
            reveal(applied_idle);
        }
        let mut view = view;
        match self.persist_settings(&phone.serial, view.pending.copy()) {
            Err(e) => return refuse(
                "apply_not_persisted",
                text::of("could not persist Apply: ").concat(&e),
            ),
            Ok(()) => {},
        }
        view.applied();
        self.publish_settings(view);
        Ok(())
    }

    pub fn apply_settings(&mut self) -> (r: Result<(), Refusal>)
        requires
            old(self).core.wf(),
            old(self).core.rev + 8 <= u64::MAX,
        ensures
            final(self).core.wf(),
            final(self).core.rev <= old(self).core.rev + 8,
            (final(self)@, shown(r)) == applied(old(self)@),
    {
        proof {
            reveal(applied);
        }
        if !self.refresh_connection() {
            return refuse("adb_unavailable", text::of("adb devices failed"));
        }
        self.reap_capture();
        let phone = match &self.core.state.connection {
            Connection::Connected { phone } => phone.copy(),
            other => return refuse("no_phone", refusal_reason(other)),
        };
        let view = match self.ensure_settings(&phone.serial) {
            Err(e) => return refuse("capabilities_failed", e),
            Ok(view) => view,
        };
        if !view.has_pending_changes {
            return Ok(());
        }
        match (self.core.state.capture.copy(), self.core.writer) {
            (Some(capture), Some(writer)) => self.apply_live(phone, view, capture, writer),
            _ => self.apply_idle(phone, view),
        }
    }

}

fn away(address: &str) -> (r: Connection)
    ensures
        r@ == (ConnectionView::Unreachable {
            phone: PhoneView { serial: address@, name: address@ },
            connect_address: address@,
        }),
{
    Connection::Unreachable {
        phone: Phone { serial: text::of(address), name: text::of(address) },
        connect_address: text::of(address),
    }
}

fn read_value(o: &mut Outside, json: &str) -> (r: SettingValue)
    ensures
        (final(o)@, r@) == valued(old(o)@, json@),
{
    match o.ask(Act::Value { json: text::of(json) }) {
        Answer::Value { number, crop } => SettingValue { json: text::of(json), number, crop },
        _ => SettingValue { json: text::of(json), number: None, crop: None },
    }
}

fn without_serial(listed: &Vec<protocol::Attached>, serial: &str) -> (r: Vec<protocol::Attached>)
    ensures
        r.deep_view() == kept(listed.deep_view(), others_than(serial@)),
{
    let ghost all = listed.deep_view();
    let mut r: Vec<protocol::Attached> = Vec::new();
    let mut i: usize = 0;
    assert(r.deep_view() =~= Seq::empty());
    assert(all.take(0) =~= Seq::empty());
    while i < listed.len()
        invariant
            i <= listed.len(),
            all == listed.deep_view(),
            r.deep_view() == kept(all.take(i as int), others_than(serial@)),
        decreases listed.len() - i,
    {
        let one = &listed[i];
        proof {
            assert(all.take(i + 1) =~= all.take(i as int).push(all[i as int]));
            lemma_kept_push(all.take(i as int), all[i as int], others_than(serial@));
            assert(all[i as int] == one@);
        }
        if !text::same(&one.phone.serial, serial) {
            let ghost sofar = r.deep_view();
            let copy = one.copy();
            r.push(copy);
            assert(r.deep_view() =~= sofar.push(copy@));
        }
        i = i + 1;
    }
    assert(all.take(i as int) =~= all);
    r
}

fn is_attached(attached: &Vec<Attached>, serial: &str) -> (r: bool)
    ensures
        r == any(attached.deep_view(), has_serial(serial@)),
{
    let ghost all = attached.deep_view();
    let mut i: usize = 0;
    while i < attached.len()
        invariant
            i <= attached.len(),
            all == attached.deep_view(),
            forall|j: int| 0 <= j < i ==> !has_serial(serial@)(#[trigger] all[j]),
        decreases attached.len() - i,
    {
        assert(all[i as int] == attached[i as int]@);
        if text::same(&attached[i].serial, serial) {
            assert(has_serial(serial@)(all[i as int]));
            return true;
        }
        i = i + 1;
    }
    false
}

fn unknown_phone(serial: &str, attached: &Vec<Attached>) -> (r: String)
    ensures
        r@ == no_such_phone(serial@, attached.deep_view()),
{
    let ghost all = serials(attached.deep_view());
    let mut list: Vec<String> = Vec::new();
    let mut i: usize = 0;
    while i < attached.len()
        invariant
            i <= attached.len(),
            all == serials(attached.deep_view()),
            list.deep_view() == all.take(i as int),
        decreases attached.len() - i,
    {
        let ghost sofar = list.deep_view();
        let one = attached[i].serial.copy();
        assert(one@ == all[i as int]);
        list.push(one);
        assert(list.deep_view() =~= sofar.push(one@));
        assert(all.take(i + 1) =~= all.take(i as int).push(all[i as int]));
        i = i + 1;
    }
    assert(all.take(i as int) =~= all);
    let there = if attached.len() == 0 {
        text::of("none")
    } else {
        text::join(&list, ", ")
    };
    if text::chars(serial).len() == 0 {
        text::of("name a phone; attached: ").concat(&there)
    } else {
        text::of("no phone ").concat(&text::quoted(serial)).concat(" is attached; attached: ").concat(
            &there,
        )
    }
}

} // verus!
