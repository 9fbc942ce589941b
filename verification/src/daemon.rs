//! The daemon: one long-lived process that owns the state and pushes it. Here
//! is what it holds, what it publishes, and how it works out the connection.

use vstd::prelude::*;

use crate::capture;
use crate::capture::{
    commanded, hidden, located, missed, move_text, preview_rule, reconnect_rule, show_text,
    spawned, PREVIEW_WIDTH, RECONNECT_SELECTOR,
};
use crate::lists::{any, first, found, lemma_first};
use crate::outside::{Act, ActView, Answer, AnswerView, Outside, OutsideView};
use crate::phones;
use crate::phones::{
    answered, identified, joined, key_for, known_wireless, met_news, parted, remembered, resolved,
    scanned, seen, told, Attached, AttachedView, Registry, RegistryView,
};
use crate::plain::{shown, Plain};
use crate::protocol;
use crate::protocol::{
    Capture, CaptureView, Connection, ConnectionView, KnownPhone, KnownPhoneView, Phone, PhoneView,
    PreviewStyle, State, StateView,
};
use crate::settings;
use crate::settings::{
    equal_states, frame_size, inspected, opened, usable_all, CameraSettings,
    CameraSettingsView, SettingsState, SettingsStateView,
};
use crate::table::lookup;
use crate::text;

verus! {

/// Everything one running daemon holds.
#[derive(Debug)]
pub struct Core {
    pub rev: u64,
    pub state: State,
    pub registry: Registry,
    /// The running scrcpy, if there is one. The state's logical capture stays
    /// present while this is absent during reconnection.
    pub writer: Option<u32>,
    /// Where the preview was before it was hidden. Size stays on the same
    /// scrcpy window, so only its position needs restoring.
    pub position: Option<[i64; 2]>,
}

#[verifier::ext_equal]
pub struct CoreView {
    pub rev: u64,
    pub state: StateView,
    pub registry: RegistryView,
    pub writer: Option<u32>,
    pub position: Option<[i64; 2]>,
}

impl View for Core {
    type V = CoreView;

    open spec fn view(&self) -> CoreView {
        CoreView {
            rev: self.rev,
            state: self.state@,
            registry: self.registry@,
            writer: self.writer,
            position: self.position,
        }
    }
}

/// The daemon in the middle of an operation.
#[derive(Debug)]
pub struct Daemon {
    pub core: Core,
    pub outside: Outside,
}

#[verifier::ext_equal]
pub struct DaemonView {
    pub core: CoreView,
    pub outside: OutsideView,
}

impl View for Daemon {
    type V = DaemonView;

    open spec fn view(&self) -> DaemonView {
        DaemonView { core: self.core@, outside: self.outside@ }
    }
}

/// Whether the settings in a state are some phone's real ones.
pub open spec fn sound(state: StateView) -> bool {
    state.settings matches Some(settings) ==> usable_all(settings.lenses)
}

impl Core {
    pub fn copy(&self) -> (r: Self)
        ensures
            r@ == self@,
    {
        Core {
            rev: self.rev,
            state: self.state.copy(),
            registry: self.registry.copy(),
            writer: self.writer,
            position: self.position,
        }
    }

    /// The settings in the state are some phone's real ones.
    pub open spec fn wf(self) -> bool {
        sound(self@.state)
    }

    /// What the daemon holds when it begins.
    pub fn new(registry: Registry, adb_ok: bool, missing: Vec<protocol::Missing>) -> (r: Self)
        ensures
            r.wf(),
            r@ == (CoreView {
                rev: 1,
                state: StateView {
                    adb_ok,
                    known: registry@.phones,
                    missing: missing.deep_view(),
                    ..protocol::blank()
                },
                registry: registry@,
                writer: None,
                position: None,
            }),
    {
        let mut state = State::default();
        state.adb_ok = adb_ok;
        state.known = registry.phones.copy();
        state.missing = missing;
        Core { rev: 1, state, registry, writer: None, position: None }
    }
}

impl DaemonView {
    /// The same daemon, having asked.
    pub open spec fn with(self, outside: OutsideView) -> DaemonView {
        DaemonView { outside, ..self }
    }

    /// The same daemon, holding something else. While it waits it holds on.
    pub open spec fn hold(self, core: CoreView) -> DaemonView {
        if self.outside.waiting {
            self
        } else {
            DaemonView { core, ..self }
        }
    }

    pub open spec fn log(self, text: Seq<char>) -> DaemonView {
        self.with(self.outside.log(text))
    }

    pub open spec fn hold_writer(self, writer: Option<u32>) -> DaemonView {
        self.hold(CoreView { writer, ..self.core })
    }

    pub open spec fn hold_position(self, position: Option<[i64; 2]>) -> DaemonView {
        self.hold(CoreView { position, ..self.core })
    }

    pub open spec fn hold_registry(self, registry: RegistryView) -> DaemonView {
        self.hold(CoreView { registry, ..self.core })
    }

    pub open spec fn hold_state(self, state: StateView) -> DaemonView {
        self.hold(CoreView { state, ..self.core })
    }

    /// The writer ended.
    pub open spec fn end_writer(self) -> DaemonView {
        if self.core.writer is Some {
            self.with(self.outside.tell(ActView::Kill)).hold_writer(None)
        } else {
            self
        }
    }

    /// Whether a capture was requested that nothing writes.
    pub open spec fn needs_writer(self) -> bool {
        self.core.state.capture is Some && self.core.writer is None
    }
}

/// Whether two states are equal. Numbers are compared as numbers: the two zeros
/// are equal, and what is no number equals nothing.
pub open spec fn equal(a: StateView, b: StateView) -> bool {
    &&& a == StateView { settings: a.settings, ..b }
    &&& match (a.settings, b.settings) {
        (None, None) => true,
        (Some(own), Some(other)) => equal_states(own, other),
        _ => false,
    }
}

fn are_equal(a: &State, b: &State) -> (r: bool)
    ensures
        r == equal(a@, b@),
{
    let settings = match (&a.settings, &b.settings) {
        (None, None) => true,
        (Some(own), Some(other)) => own.equals(other),
        _ => false,
    };
    settings && a.adb_ok == b.adb_ok && a.connection.same(&b.connection) && a.capture.same(
        &b.capture,
    ) && a.attached.same(&b.attached) && a.known.same(&b.known) && a.preview_style.same(
        &b.preview_style,
    ) && a.missing.same(&b.missing)
}

/// Whether a state is news to whoever has another.
pub open spec fn is_news(state: StateView, had: StateView) -> bool {
    !equal(state, had)
}

/// Making a state the state, and pushing the whole of it to everyone. The
/// revision counts changes rather than requests: a state that is already there
/// is not pushed again.
pub open spec fn published(d: DaemonView, state: StateView) -> DaemonView {
    if d.outside.waiting || !is_news(state, d.core.state) {
        d
    } else {
        let rev = (d.core.rev + 1) as u64;
        DaemonView {
            core: CoreView { rev, state, ..d.core },
            outside: d.outside.tell(ActView::Push { rev, state }),
        }
    }
}

/// The settings that go with a phone.
pub open spec fn settings_for(
    settings: Option<SettingsStateView>,
    serial: Seq<char>,
) -> Option<SettingsStateView> {
    match settings {
        Some(s) => if s.phone == serial {
            Some(s)
        } else {
            None
        },
        None => None,
    }
}

/// The settings that go with a connection: a connected phone's own.
pub open spec fn settings_at(state: StateView, connection: ConnectionView) -> Option<
    SettingsStateView,
> {
    match connection {
        ConnectionView::Connected { phone } => settings_for(state.settings, phone.serial),
        ConnectionView::Reconnecting { phone } => settings_for(state.settings, phone.serial),
        _ => None,
    }
}

/// Publishing a connection and the phones that are attached. What is missing
/// is looked at each time: a user who installs it while the daemon is up
/// should see the offer disappear.
#[verifier::opaque]
pub open spec fn announced(
    d: DaemonView,
    connection: ConnectionView,
    attached: Seq<protocol::AttachedView>,
) -> DaemonView {
    let (o, missing) = missed(d.outside);
    published(
        d.with(o),
        StateView {
            adb_ok: true,
            connection,
            attached,
            known: d.core.registry.phones,
            settings: settings_at(d.core.state, connection),
            missing,
            ..d.core.state
        },
    )
}

/// Placing the window that stands in for a visible preview where that was.
#[verifier::opaque]
pub open spec fn prepared(d: DaemonView) -> DaemonView {
    match d.core.state.capture {
        Some(capture) => if capture.preview {
            let style = d.core.state.preview_style;
            let (o, at) = located(d.outside);
            let position = match at {
                Ok(at) => Some(at),
                Err(_) => d.core.position,
            };
            let d = d.with(o).hold_position(position);
            let (o, r) = commanded(
                d.outside,
                "eval"@,
                reconnect_rule(style.rounding, style.border_size, position),
            );
            match r {
                Ok(()) => d.with(o),
                Err(e) => d.with(o).log("could not place the reconnect preview: "@ + e),
            }
        } else {
            d
        },
        None => d,
    }
}

/// The connection to show where it is not connected: a capture that was
/// requested is reconnecting, and its writer is ended.
#[verifier::opaque]
pub open spec fn reconnecting(d: DaemonView, connection: ConnectionView) -> (
    DaemonView,
    ConnectionView,
) {
    if connection is Connected {
        (d, connection)
    } else {
        let visible = d.core.writer is Some && (d.core.state.capture matches Some(c) && c.preview);
        let d = if visible {
            prepared(d)
        } else {
            d
        };
        let d = d.end_writer();
        (
            d,
            match d.core.state.capture {
                Some(capture) => ConnectionView::Reconnecting { phone: capture.phone },
                None => connection,
            },
        )
    }
}

/// adb could not describe the desk, so the daemon cannot either. A requested
/// capture is the one exception to no phone: that phone's state is retained
/// while its writer reconnects.
#[verifier::opaque]
pub open spec fn adb_lost(d: DaemonView) -> DaemonView {
    let (d, connection) = reconnecting(d, ConnectionView::NoPhone);
    let (o, missing) = missed(d.outside);
    published(
        d.with(o),
        StateView {
            adb_ok: false,
            connection,
            attached: Seq::empty(),
            known: d.core.registry.phones,
            settings: settings_at(d.core.state, connection),
            missing,
            ..d.core.state
        },
    )
}

/// Launching scrcpy again for a capture that was requested: where the preview
/// was, or out of sight if it was hidden.
#[verifier::opaque]
pub open spec fn replaced(
    o: OutsideView,
    serial: Seq<char>,
    public: CaptureView,
    settings: CameraSettingsView,
    style: PreviewStyle,
    position: Option<[i64; 2]>,
) -> (OutsideView, Result<u32, Seq<char>>) {
    let (o, place) = if public.preview {
        (o, Ok(position))
    } else {
        let (o, at) = hidden(o, PREVIEW_WIDTH as i64);
        (
            o,
            match at {
                Ok(at) => Ok(Some(at)),
                Err(e) => Err(e),
            },
        )
    };
    match place {
        Err(e) => (o, Err(e)),
        Ok(place) => {
            let (o, r) = commanded(
                o,
                "eval"@,
                preview_rule(style.rounding, style.border_size, place),
            );
            match r {
                Err(e) => (o, Err(e)),
                Ok(()) => {
                    let (o, r) = spawned(o, serial, public.node, settings);
                    (
                        o,
                        match r {
                            Ok(pid) => Ok(pid),
                            Err(f) => Err(f.message),
                        },
                    )
                },
            }
        },
    }
}

/// What a capture is resumed with, where it can be: it is for that phone, and
/// the phone's own settings are known.
pub open spec fn resumable(d: DaemonView, phone: PhoneView) -> Option<
    (CaptureView, CameraSettingsView),
> {
    match (d.core.writer, d.core.state.capture, settings_for(d.core.state.settings, phone.serial)) {
        (None, Some(public), Some(settings)) => if public.phone.serial == phone.serial {
            Some((public, settings.applied))
        } else {
            None
        },
        _ => None,
    }
}

/// Hiding the window that stands in, so that the preview can take its place.
#[verifier::opaque]
pub open spec fn stand_in_hidden(
    o: OutsideView,
    style: PreviewStyle,
    position: Option<[i64; 2]>,
) -> (
    OutsideView,
    bool,
) {
    let (o, at) = hidden(o, PREVIEW_WIDTH as i64);
    match at {
        Err(e) => (o.log("could not place the reconnect preview offscreen: "@ + e), false),
        Ok(at) => {
            let (o, r) = commanded(
                o,
                "eval"@,
                reconnect_rule(style.rounding, style.border_size, Some(at)),
            );
            let (o, r) = match r {
                Err(e) => (o, Err(e)),
                Ok(()) => commanded(o, "dispatch"@, move_text(RECONNECT_SELECTOR@, at)),
            };
            match r {
                Ok(()) => (o, true),
                Err(e) => {
                    let o = o.log("could not hide the reconnect preview: "@ + e);
                    let (o, _) = commanded(
                        o,
                        "eval"@,
                        reconnect_rule(style.rounding, style.border_size, position),
                    );
                    (o, false)
                },
            }
        },
    }
}

/// Showing the window that stands in again.
#[verifier::opaque]
pub open spec fn stand_in_restored(
    o: OutsideView,
    style: PreviewStyle,
    position: Option<[i64; 2]>,
) -> OutsideView {
    let (o, r) = commanded(
        o,
        "eval"@,
        reconnect_rule(style.rounding, style.border_size, position),
    );
    let (o, r) = match r {
        Err(e) => (o, Err(e)),
        Ok(()) => commanded(o, "dispatch"@, show_text(RECONNECT_SELECTOR@, position)),
    };
    match r {
        Ok(()) => o,
        Err(e) => o.log("could not restore the reconnect preview: "@ + e),
    }
}

/// Resuming the exact capture that was requested, at the frame size it had:
/// another size would freeze whatever is watching.
#[verifier::opaque]
pub open spec fn resumed(d: DaemonView, phone: PhoneView) -> DaemonView {
    match resumable(d, phone) {
        None => d,
        Some((public, settings)) => {
            let style = d.core.state.preview_style;
            let position = d.core.position;
            if frame_size(settings) != public.size {
                d.log(
                    "refusing to reconnect "@ + phone.name + " at a different frame size"@,
                )
            } else {
                let (o, ready) = if public.preview {
                    stand_in_hidden(d.outside, style, position)
                } else {
                    (d.outside, true)
                };
                let d = d.with(o);
                if !ready {
                    d
                } else {
                    let (o, started) = replaced(
                        d.outside,
                        phone.serial,
                        public,
                        settings,
                        style,
                        position,
                    );
                    let d = d.with(o);
                    match started {
                        Ok(pid) => d.hold_writer(Some(pid)),
                        Err(e) => {
                            let d = if public.preview {
                                d.with(stand_in_restored(d.outside, style, position))
                            } else {
                                d
                            };
                            let d = d.log("could not reconnect "@ + phone.name + ": "@ + e);
                            announced(
                                d,
                                ConnectionView::Reconnecting { phone },
                                d.core.state.attached,
                            )
                        },
                    }
                }
            }
        },
    }
}

/// A phone's settings: those in the state, or those that its cameras and what
/// was saved for it give. Lens ids never leak between phones.
#[verifier::opaque]
pub open spec fn equipped(d: DaemonView, serial: Seq<char>) -> (
    DaemonView,
    Result<SettingsStateView, Seq<char>>,
) {
    match settings_for(d.core.state.settings, serial) {
        Some(settings) => (d, Ok(settings)),
        None => {
            let saved = lookup(d.core.registry.settings, key_for(d.core.registry, serial));
            let (o, lenses) = inspected(d.outside, serial);
            match lenses {
                Err(e) => (d.with(o), Err(e)),
                Ok(lenses) => {
                    let settings = opened(serial, lenses, saved);
                    (
                        published(
                            d.with(o),
                            StateView { settings: Some(settings), ..d.core.state },
                        ),
                        Ok(settings),
                    )
                },
            }
        },
    }
}

/// Keeping the registry, or why it was not kept.
#[verifier::opaque]
pub open spec fn kept_on_disk(d: DaemonView) -> (DaemonView, Result<(), Seq<char>>) {
    let (o, answer) = d.outside.ask(ActView::Save { registry: d.core.registry });
    (
        d.with(o),
        match answer {
            AnswerView::Done => Ok(()),
            AnswerView::Failed { error } => Err(error),
            _ => Err(Seq::empty()),
        },
    )
}

/// Keeping a phone's settings. What could not be kept is not held either.
#[verifier::opaque]
pub open spec fn persisted(d: DaemonView, serial: Seq<char>, settings: CameraSettingsView) -> (
    DaemonView,
    Result<(), Seq<char>>,
) {
    let before = d.core.registry;
    let key = key_for(before, serial);
    let d = d.hold_registry(
        RegistryView { settings: before.settings.insert(key, settings), ..before },
    );
    let (d, r) = kept_on_disk(d);
    match r {
        Ok(()) => (d, r),
        Err(_) => (d.hold_registry(before), r),
    }
}

/// Keeping the registry. The daemon goes on where that fails.
#[verifier::opaque]
pub open spec fn registry_saved(d: DaemonView) -> DaemonView {
    let (d, r) = kept_on_disk(d);
    match r {
        Ok(()) => d,
        Err(e) => d.log("could not remember phones: "@ + e),
    }
}

/// Remembering which phone is in use, so choosing is a one-time act. The
/// selection holds until the daemon ends where it cannot be kept.
#[verifier::opaque]
pub open spec fn chosen(d: DaemonView, serial: Seq<char>) -> DaemonView {
    if d.core.registry.selected == Some(serial) {
        d
    } else {
        let d = d.hold_registry(RegistryView { selected: Some(serial), ..d.core.registry });
        let (d, r) = kept_on_disk(d);
        match r {
            Ok(()) => d,
            Err(e) => d.log("could not remember the selected phone: "@ + e),
        }
    }
}

/// Remembering a phone that was reached at an address.
#[verifier::opaque]
pub open spec fn recalled(
    d: DaemonView,
    address: Seq<char>,
    name: Seq<char>,
    stable: Option<Seq<char>>,
    previous: Option<Seq<char>>,
    select: bool,
) -> DaemonView {
    registry_saved(
        d.hold_registry(remembered(d.core.registry, address, name, stable, previous, select)),
    )
}

/// Remembering the selected phone as it is attached.
#[verifier::opaque]
pub open spec fn noticed(d: DaemonView, attached: Seq<AttachedView>) -> DaemonView {
    let registry = d.core.registry;
    if met_news(registry.phones, attached, registry.selected) {
        registry_saved(d.hold_registry(seen(registry, attached)))
    } else {
        d
    }
}

/// An attached phone that can be used under a serial.
pub open spec fn usable_as(serial: Seq<char>) -> spec_fn(AttachedView) -> bool {
    |a: AttachedView| a.serial == serial && a.adb_state == "device"@
}

/// The phone to reach over the network: the selected one, known to be reached
/// so, and not there.
pub open spec fn awaited(registry: RegistryView, attached: Seq<AttachedView>) -> Option<
    KnownPhoneView,
> {
    match registry.selected {
        None => None,
        Some(serial) => if any(attached, usable_as(serial)) {
            None
        } else {
            found(registry.phones, known_wireless(serial))
        },
    }
}

/// Where a phone is reached.
pub open spec fn address_of(known: KnownPhoneView) -> Seq<char> {
    match known.connect_address {
        Some(address) => address,
        None => known.phone.serial,
    }
}

/// Showing that a phone is not reached, unless a capture is reconnecting.
#[verifier::opaque]
pub open spec fn not_reached(
    d: DaemonView,
    phone: PhoneView,
    connect_address: Seq<char>,
    attached: Seq<protocol::AttachedView>,
) -> DaemonView {
    let (d, connection) = reconnecting(d, ConnectionView::Unreachable { phone, connect_address });
    announced(d, connection, attached)
}

/// Whether a phone says it is another than the one that is known.
pub open spec fn mistaken(known: KnownPhoneView, stable: Option<Seq<char>>) -> bool {
    known.hardware_id is Some && stable != known.hardware_id
}

/// Reaching a known phone again over the network. Another device at its
/// address is dropped.
#[verifier::opaque]
pub open spec fn rejoined(d: DaemonView, known: KnownPhoneView, attached: Seq<AttachedView>) -> (
    DaemonView,
    bool,
) {
    let address = address_of(known);
    let (o, ok) = joined(d.outside, address);
    let d = d.with(o);
    if !ok {
        (not_reached(d, known.phone, address, told(attached)), true)
    } else {
        let (o, scan) = scanned(d.outside);
        let d = d.with(o);
        match scan {
            Err(e) => (
                adb_lost(d.log("could not scan phones after connecting: "@ + e)),
                false,
            ),
            Ok(attached) => match found(attached, usable_as(address)) {
                None => (not_reached(d, known.phone, address, told(attached)), true),
                Some(there) => {
                    let (o, stable) = identified(d.outside, address);
                    let d = d.with(o);
                    if mistaken(known, stable) {
                        let (o, _) = parted(d.outside, address);
                        (
                            announced(
                                d.with(o),
                                ConnectionView::Unreachable {
                                    phone: known.phone,
                                    connect_address: address,
                                },
                                told(attached),
                            ),
                            true,
                        )
                    } else {
                        let d = recalled(d, address, there.name, stable, None, true);
                        (
                            worked_out(
                                d,
                                attached,
                                if stable is Some {
                                    Some(address)
                                } else {
                                    None
                                },
                            ),
                            true,
                        )
                    }
                },
            },
        }
    }
}

/// Whether a phone that is to be connected is connected already and still
/// reported as usable.
pub open spec fn still_connected(
    previous: ConnectionView,
    connection: ConnectionView,
    attached: Seq<AttachedView>,
) -> bool {
    match (connection, previous) {
        (
            ConnectionView::Connecting { phone },
            ConnectionView::Connected { phone: same },
        ) => phone == same && any(attached, usable_as(phone.serial)),
        _ => false,
    }
}

/// Making sure that a phone reached over the network is the one that is known,
/// before anything calls it connected. Says whether it may be.
#[verifier::opaque]
pub open spec fn vetted(
    d: DaemonView,
    connection: ConnectionView,
    attached: Seq<AttachedView>,
    verified: Option<Seq<char>>,
) -> (DaemonView, bool) {
    match connection {
        ConnectionView::Connecting { phone } => match found(
            d.core.registry.phones,
            known_wireless(phone.serial),
        ) {
            None => (d, true),
            Some(known) => if verified == Some(phone.serial) {
                (d, true)
            } else {
                let (o, stable) = identified(d.outside, phone.serial);
                let d = d.with(o);
                if mistaken(known, stable) {
                    let (o, _) = parted(d.outside, phone.serial);
                    (
                        announced(
                            d.with(o),
                            ConnectionView::Unreachable {
                                phone: known.phone,
                                connect_address: phone.serial,
                            },
                            told(attached),
                        ),
                        false,
                    )
                } else {
                    match stable {
                        Some(_) => (
                            recalled(d, phone.serial, phone.name, stable, None, true),
                            true,
                        ),
                        None => (d, true),
                    }
                }
            },
        },
        _ => (d, true),
    }
}

/// With a phone that answers: its settings, and the capture that it lost.
#[verifier::opaque]
pub open spec fn confirmed(
    d: DaemonView,
    phone: PhoneView,
    attached: Seq<protocol::AttachedView>,
) -> DaemonView {
    let (d, r) = equipped(d, phone.serial);
    let d = match r {
        Ok(_) => d,
        Err(e) => d.log("could not inspect "@ + phone.name + "'s cameras: "@ + e),
    };
    if d.needs_writer() {
        let d = resumed(d, phone);
        if d.core.writer is Some {
            announced(d, ConnectionView::Connected { phone }, attached)
        } else {
            d
        }
    } else {
        d
    }
}

/// Showing a connection, and asking a phone that is to be connected whether it
/// is there. One that does not answer stays as it is, and is asked again on
/// the next pass.
#[verifier::opaque]
pub open spec fn concluded(
    d: DaemonView,
    connection: ConnectionView,
    attached: Seq<protocol::AttachedView>,
) -> DaemonView {
    let (d, shown) = reconnecting(d, connection);
    let d = announced(d, shown, attached);
    match connection {
        ConnectionView::Connected { phone } => confirmed(d, phone, attached),
        ConnectionView::Connecting { phone } => {
            let (o, ok) = answered(d.outside, phone.serial);
            let d = d.with(o);
            if ok {
                let d = announced(
                    d,
                    if d.needs_writer() {
                        ConnectionView::Reconnecting { phone }
                    } else {
                        ConnectionView::Connected { phone }
                    },
                    attached,
                );
                confirmed(d, phone, attached)
            } else {
                d
            }
        },
        _ => d,
    }
}

/// What the attached phones add up to, published.
#[verifier::opaque]
pub open spec fn worked_out(
    d: DaemonView,
    attached: Seq<AttachedView>,
    verified: Option<Seq<char>>,
) -> DaemonView {
    let (connection, remember) = resolved(attached, d.core.registry.selected);
    let d = match remember {
        Some(serial) => chosen(d, serial),
        None => d,
    };
    let already = still_connected(d.core.state.connection, connection, attached);
    let (d, go) = if already {
        (d, true)
    } else {
        vetted(d, connection, attached, verified)
    };
    if go {
        concluded(
            noticed(d, attached),
            match connection {
                ConnectionView::Connecting { phone } => if already {
                    ConnectionView::Connected { phone }
                } else {
                    connection
                },
                _ => connection,
            },
            told(attached),
        )
    } else {
        d
    }
}

/// Whether the user is pairing.
pub open spec fn pairing(connection: ConnectionView) -> bool {
    connection is NeedsPairing || connection is PairingFailed
}

/// Working out the connection from what adb reports. Says whether adb
/// answered. While the user is pairing the guidance stays.
#[verifier::opaque]
pub open spec fn refreshed(d: DaemonView) -> (DaemonView, bool) {
    let (o, scan) = scanned(d.outside);
    let d = d.with(o);
    match scan {
        Err(e) => (adb_lost(d.log("could not scan phones: "@ + e)), false),
        Ok(attached) => if pairing(d.core.state.connection) {
            (announced(d, d.core.state.connection, told(attached)), true)
        } else {
            match awaited(d.core.registry, attached) {
                None => (worked_out(d, attached, None), true),
                Some(known) => rejoined(d, known, attached),
            }
        },
    }
}

// ---------------------------------------------------------------------------
// Doing it

pub fn find_usable_as(list: &Vec<Attached>, serial: &str) -> (r: Option<usize>)
    ensures
        match r {
            Some(i) => i < list.len()
                && first(list.deep_view(), usable_as(serial@)) == Some(i as int),
            None => first(list.deep_view(), usable_as(serial@)) is None,
        },
{
    let ghost all = list.deep_view();
    let mut i: usize = 0;
    proof {
        lemma_first(all, usable_as(serial@));
    }
    while i < list.len()
        invariant
            i <= list.len(),
            all == list.deep_view(),
            forall|j: int| 0 <= j < i ==> !usable_as(serial@)(#[trigger] all[j]),
        decreases list.len() - i,
    {
        let k = &list[i];
        assert(all[i as int] == k@);
        if text::same(&k.serial, serial) && text::same(&k.adb_state, "device") {
            proof {
                lemma_first(all, usable_as(serial@));
            }
            return Some(i);
        }
        i = i + 1;
    }
    None
}

impl Daemon {
    pub fn log(&mut self, text: String)
        ensures
            final(self)@ == old(self)@.log(text@),
    {
        self.outside.log(text);
    }

    pub fn hold_writer(&mut self, writer: Option<u32>)
        ensures
            final(self)@ == old(self)@.hold_writer(writer),
    {
        if !self.outside.waiting {
            self.core.writer = writer;
        }
    }

    pub fn hold_position(&mut self, position: Option<[i64; 2]>)
        ensures
            final(self)@ == old(self)@.hold_position(position),
    {
        if !self.outside.waiting {
            self.core.position = position;
        }
    }

    pub fn hold_registry(&mut self, registry: Registry)
        ensures
            final(self)@ == old(self)@.hold_registry(registry@),
    {
        if !self.outside.waiting {
            self.core.registry = registry;
        }
    }

    pub fn hold_state(&mut self, state: State)
        ensures
            final(self)@ == old(self)@.hold_state(state@),
    {
        if !self.outside.waiting {
            self.core.state = state;
        }
    }

    pub fn end_writer(&mut self)
        ensures
            final(self)@ == old(self)@.end_writer(),
    {
        if self.core.writer.is_some() {
            self.outside.tell(Act::Kill);
            self.hold_writer(None);
        }
    }

    pub fn needs_writer(&self) -> (r: bool)
        ensures
            r == self@.needs_writer(),
    {
        self.core.state.capture.is_some() && self.core.writer.is_none()
    }

    pub fn publish(&mut self, state: State)
        requires
            old(self).core.wf(),
            old(self).core.rev + 1 <= u64::MAX,
            sound(state@),
        ensures
            final(self).core.wf(),
            final(self).core.rev <= old(self).core.rev + 1,
            final(self)@ == published(old(self)@, state@),
    {
        if self.outside.waiting || are_equal(&state, &self.core.state) {
            return;
        }
        self.core.rev = self.core.rev + 1;
        let copy = state.copy();
        self.core.state = state;
        self.outside.tell(Act::Push { rev: self.core.rev, state: copy });
    }

    fn settings_for(&self, serial: &str) -> (r: Option<SettingsState>)
        ensures
            r.deep_view() == settings_for(self@.core.state.settings, serial@),
    {
        match &self.core.state.settings {
            Some(settings) => if text::same(&settings.phone, serial) {
                Some(settings.copy())
            } else {
                None
            },
            None => None,
        }
    }

    fn settings_at(&self, connection: &Connection) -> (r: Option<SettingsState>)
        ensures
            r.deep_view() == settings_at(self@.core.state, connection@),
    {
        match connection {
            Connection::Connected { phone } => self.settings_for(&phone.serial),
            Connection::Reconnecting { phone } => self.settings_for(&phone.serial),
            _ => None,
        }
    }

    pub fn publish_connection(&mut self, connection: Connection, attached: Vec<protocol::Attached>)
        requires
            old(self).core.wf(),
            old(self).core.rev + 1 <= u64::MAX,
        ensures
            final(self).core.wf(),
            final(self).core.rev <= old(self).core.rev + 1,
            final(self)@ == announced(old(self)@, connection@, attached.deep_view()),
    {
        proof {
            reveal(announced);
        }
        let known = self.core.registry.phones.copy();
        let settings = self.settings_at(&connection);
        let missing = capture::missing(&mut self.outside);
        let state = State {
            adb_ok: true,
            connection,
            capture: self.core.state.capture.copy(),
            attached,
            settings,
            known,
            preview_style: self.core.state.preview_style,
            missing,
        };
        self.publish(state);
    }

    pub fn prepare_reconnect_preview(&mut self)
        requires
            old(self).core.wf(),
        ensures
            final(self).core.wf(),
            final(self).core.rev == old(self).core.rev,
            final(self)@ == prepared(old(self)@),
    {
        proof {
            reveal(prepared);
        }
        let visible = match &self.core.state.capture {
            Some(capture) => capture.preview,
            None => false,
        };
        if !visible {
            return;
        }
        let style = self.core.state.preview_style;
        let position = match capture::preview_position(&mut self.outside) {
            Ok(at) => Some(at),
            Err(_) => self.core.position,
        };
        self.hold_position(position);
        match capture::apply_reconnect_rule(
            &mut self.outside,
            style.rounding,
            style.border_size,
            position,
        ) {
            Ok(()) => {},
            Err(e) => {
                self.log(text::of("could not place the reconnect preview: ").concat(&e));
            },
        }
    }

    pub fn reconnecting_or(&mut self, connection: Connection) -> (r: Connection)
        requires
            old(self).core.wf(),
        ensures
            final(self).core.wf(),
            final(self).core.rev == old(self).core.rev,
            (final(self)@, r@) == reconnecting(old(self)@, connection@),
    {
        proof {
            reveal(reconnecting);
        }
        let connected = match &connection {
            Connection::Connected { .. } => true,
            _ => false,
        };
        if connected {
            return connection;
        }
        let visible = self.core.writer.is_some() && match &self.core.state.capture {
            Some(capture) => capture.preview,
            None => false,
        };
        if visible {
            self.prepare_reconnect_preview();
        }
        self.end_writer();
        match &self.core.state.capture {
            Some(capture) => Connection::Reconnecting { phone: capture.phone.copy() },
            None => connection,
        }
    }

    pub fn publish_adb_failure(&mut self)
        requires
            old(self).core.wf(),
            old(self).core.rev + 1 <= u64::MAX,
        ensures
            final(self).core.wf(),
            final(self).core.rev <= old(self).core.rev + 1,
            final(self)@ == adb_lost(old(self)@),
    {
        proof {
            reveal(adb_lost);
        }
        let connection = self.reconnecting_or(Connection::NoPhone);
        let known = self.core.registry.phones.copy();
        let settings = self.settings_at(&connection);
        let missing = capture::missing(&mut self.outside);
        let attached: Vec<protocol::Attached> = Vec::new();
        assert(attached.deep_view() =~= Seq::empty());
        let state = State {
            adb_ok: false,
            connection,
            capture: self.core.state.capture.copy(),
            attached,
            settings,
            known,
            preview_style: self.core.state.preview_style,
            missing,
        };
        self.publish(state);
    }

    fn resumable(&self, phone: &Phone) -> (r: Option<(Capture, CameraSettings)>)
        ensures
            r.deep_view() == resumable(self@, phone@),
    {
        if self.core.writer.is_some() {
            return None;
        }
        match (&self.core.state.capture, self.settings_for(&phone.serial)) {
            (Some(public), Some(settings)) => {
                if text::same(&public.phone.serial, &phone.serial) {
                    Some((public.copy(), settings.applied))
                } else {
                    None
                }
            },
            _ => None,
        }
    }

    pub fn resume_capture(&mut self, phone: &Phone)
        requires
            old(self).core.wf(),
            old(self).core.rev + 1 <= u64::MAX,
        ensures
            final(self).core.wf(),
            final(self).core.rev <= old(self).core.rev + 1,
            final(self)@ == resumed(old(self)@, phone@),
    {
        proof {
            reveal(resumed);
        }
        let (public, settings) = match self.resumable(phone) {
            None => return,
            Some(pair) => pair,
        };
        let style = self.core.state.preview_style;
        let position = self.core.position;
        if !text::same(&settings::output_size(&settings), &public.size) {
            self.log(
                text::of("refusing to reconnect ").concat(&phone.name).concat(
                    " at a different frame size",
                ),
            );
            return;
        }
        if public.preview {
            if !hide_stand_in(&mut self.outside, style, position) {
                return;
            }
        }
        match spawn_replacement(
            &mut self.outside,
            &phone.serial,
            &public,
            &settings,
            style,
            position,
        ) {
            Ok(pid) => {
                self.hold_writer(Some(pid));
            },
            Err(e) => {
                if public.preview {
                    restore_stand_in(&mut self.outside, style, position);
                }
                self.log(text::of("could not reconnect ").concat(&phone.name).concat(": ").concat(&e));
                let attached = self.core.state.attached.copy();
                self.publish_connection(Connection::Reconnecting { phone: phone.copy() }, attached);
            },
        }
    }

    pub fn ensure_settings(&mut self, serial: &str) -> (r: Result<SettingsState, String>)
        requires
            old(self).core.wf(),
            old(self).core.rev + 1 <= u64::MAX,
        ensures
            final(self).core.wf(),
            final(self).core.rev <= old(self).core.rev + 1,
            (final(self)@, shown(r)) == equipped(old(self)@, serial@),
            r matches Ok(settings) ==> settings.wf(),
    {
        proof {
            reveal(equipped);
        }
        match self.settings_for(serial) {
            Some(settings) => {
                return Ok(settings);
            },
            None => {},
        }
        let key = self.core.registry.settings_key(serial);
        let saved = self.core.registry.settings.get(&key);
        match settings::inspect(&mut self.outside, serial) {
            Err(e) => Err(e),
            Ok(lenses) => {
                let settings = SettingsState::new(text::of(serial), lenses, saved);
                self.publish_settings(settings.copy());
                Ok(settings)
            },
        }
    }

    pub fn publish_settings(&mut self, settings: SettingsState)
        requires
            old(self).core.wf(),
            old(self).core.rev + 1 <= u64::MAX,
            settings.wf(),
        ensures
            final(self).core.wf(),
            final(self).core.rev <= old(self).core.rev + 1,
            final(self)@ == published(
            old(self)@,
            StateView { settings: Some(settings@), ..old(self)@.core.state },
            ),
    {
        let mut state = self.core.state.copy();
        state.settings = Some(settings);
        self.publish(state);
    }

    fn save(&mut self) -> (r: Result<(), String>)
        requires
            old(self).core.wf(),
        ensures
            final(self).core.wf(),
            final(self).core.rev == old(self).core.rev,
            (final(self)@, shown(r)) == kept_on_disk(old(self)@),
    {
        proof {
            reveal(kept_on_disk);
        }
        let registry = self.core.registry.copy();
        match self.outside.ask(Act::Save { registry }) {
            Answer::Done => Ok(()),
            Answer::Failed { error } => Err(error),
            _ => Err(String::new()),
        }
    }

    pub fn persist_settings(&mut self, serial: &str, settings: CameraSettings) -> (r: Result<
        (),
        String,
    >)
        requires
            old(self).core.wf(),
        ensures
            final(self).core.wf(),
            final(self).core.rev == old(self).core.rev,
            (final(self)@, shown(r)) == persisted(old(self)@, serial@, settings@),
    {
        proof {
            reveal(persisted);
        }
        let before = self.core.registry.copy();
        let key = before.settings_key(serial);
        let mut registry = before.copy();
        registry.settings.insert(key, settings);
        self.hold_registry(registry);
        match self.save() {
            Ok(()) => Ok(()),
            Err(e) => {
                self.hold_registry(before);
                Err(e)
            },
        }
    }

    pub fn save_registry(&mut self)
        requires
            old(self).core.wf(),
        ensures
            final(self).core.wf(),
            final(self).core.rev == old(self).core.rev,
            final(self)@ == registry_saved(old(self)@),
    {
        proof {
            reveal(registry_saved);
        }
        match self.save() {
            Ok(()) => {},
            Err(e) => {
                self.log(text::of("could not remember phones: ").concat(&e));
            },
        }
    }

    pub fn remember_selection(&mut self, serial: &str)
        requires
            old(self).core.wf(),
        ensures
            final(self).core.wf(),
            final(self).core.rev == old(self).core.rev,
            final(self)@ == chosen(old(self)@, serial@),
    {
        proof {
            reveal(chosen);
        }
        if text::same_as(&self.core.registry.selected, serial) {
            return;
        }
        let mut registry = self.core.registry.copy();
        registry.selected = Some(text::of(serial));
        self.hold_registry(registry);
        match self.save() {
            Ok(()) => {},
            Err(e) => {
                self.log(text::of("could not remember the selected phone: ").concat(&e));
            },
        }
    }

    pub fn remember_wireless(
        &mut self,
        address: &str,
        name: &str,
        stable: &Option<String>,
        previous: &Option<String>,
        select: bool,
    )
        requires
            old(self).core.wf(),
        ensures
            final(self).core.wf(),
            final(self).core.rev == old(self).core.rev,
            final(self)@ == recalled(
                old(self)@,
                address@,
                name@,
                stable.deep_view(),
                previous.deep_view(),
                select,
            ),
    {
        proof {
            reveal(recalled);
        }
        let mut registry = self.core.registry.copy();
        registry.remember_wireless(address, name, stable, previous, select);
        self.hold_registry(registry);
        self.save_registry();
    }

    pub fn remember_attached(&mut self, attached: &Vec<Attached>)
        requires
            old(self).core.wf(),
        ensures
            final(self).core.wf(),
            final(self).core.rev == old(self).core.rev,
            final(self)@ == noticed(old(self)@, attached.deep_view()),
    {
        proof {
            reveal(noticed);
        }
        let mut registry = self.core.registry.copy();
        if registry.remember_attached(attached) {
            self.hold_registry(registry);
            self.save_registry();
        }
    }

    fn awaited(&self, attached: &Vec<Attached>) -> (r: Option<KnownPhone>)
        ensures
            r.deep_view() == awaited(self@.core.registry, attached.deep_view()),
    {
        match &self.core.registry.selected {
            None => None,
            Some(serial) => {
                proof {
                    lemma_first(attached.deep_view(), usable_as(serial@));
                }
                if find_usable_as(attached, serial).is_some() {
                    return None;
                }
                match phones::find_known_wireless(&self.core.registry.phones, serial) {
                    Some(i) => Some(self.core.registry.phones[i].copy()),
                    None => None,
                }
            },
        }
    }

    pub fn not_reached(
        &mut self,
        phone: Phone,
        connect_address: &str,
        attached: Vec<protocol::Attached>,
    )
        requires
            old(self).core.wf(),
            old(self).core.rev + 1 <= u64::MAX,
        ensures
            final(self).core.wf(),
            final(self).core.rev <= old(self).core.rev + 1,
            final(self)@ == not_reached(
            old(self)@,
            phone@,
            connect_address@,
            attached.deep_view(),
            ),
    {
        proof {
            reveal(not_reached);
        }
        let connection = self.reconnecting_or(
            Connection::Unreachable { phone, connect_address: text::of(connect_address) },
        );
        self.publish_connection(connection, attached);
    }

    fn rejoin(&mut self, known: KnownPhone, attached: Vec<Attached>) -> (r: bool)
        requires
            old(self).core.wf(),
            old(self).core.rev + 5 <= u64::MAX,
        ensures
            final(self).core.wf(),
            final(self).core.rev <= old(self).core.rev + 5,
            (final(self)@, r) == rejoined(old(self)@, known@, attached.deep_view()),
    {
        proof {
            reveal(rejoined);
        }
        let address = match &known.connect_address {
            Some(address) => address.copy(),
            None => known.phone.serial.copy(),
        };
        if !phones::connect_wireless(&mut self.outside, &address) {
            self.not_reached(known.phone, &address, phones::listed(&attached));
            return true;
        }
        let attached = match phones::scan(&mut self.outside) {
            Err(e) => {
                self.log(text::of("could not scan phones after connecting: ").concat(&e));
                self.publish_adb_failure();
                return false;
            },
            Ok(attached) => attached,
        };
        let name = match find_usable_as(&attached, &address) {
            None => {
                self.not_reached(known.phone, &address, phones::listed(&attached));
                return true;
            },
            Some(i) => {
                assert(attached.deep_view()[i as int] == attached[i as int]@);
                attached[i].name.copy()
            },
        };
        let stable = phones::stable_id(&mut self.outside, &address);
        if known.hardware_id.is_some() && !text::same_option(&stable, &known.hardware_id) {
            let _ = phones::disconnect_wireless(&mut self.outside, &address);
            self.publish_connection(
                Connection::Unreachable { phone: known.phone, connect_address: address },
                phones::listed(&attached),
            );
            return true;
        }
        self.remember_wireless(&address, &name, &stable, &None, true);
        let verified = if stable.is_some() {
            Some(address)
        } else {
            None
        };
        self.work_out(attached, verified);
        true
    }

    fn vet(
        &mut self,
        connection: &Connection,
        attached: &Vec<Attached>,
        verified: &Option<String>,
    ) -> (r: bool)
        requires
            old(self).core.wf(),
            old(self).core.rev + 1 <= u64::MAX,
        ensures
            final(self).core.wf(),
            final(self).core.rev <= old(self).core.rev + 1,
            (final(self)@, r) == vetted(
            old(self)@,
            connection@,
            attached.deep_view(),
            verified.deep_view(),
            ),
            r ==> final(self).core.rev == old(self).core.rev,
    {
        proof {
            reveal(vetted);
        }
        let phone = match connection {
            Connection::Connecting { phone } => phone,
            _ => return true,
        };
        let known = match phones::find_known_wireless(&self.core.registry.phones, &phone.serial) {
            None => return true,
            Some(i) => self.core.registry.phones[i].copy(),
        };
        if text::same_as(verified, &phone.serial) {
            return true;
        }
        let stable = phones::stable_id(&mut self.outside, &phone.serial);
        if known.hardware_id.is_some() && !text::same_option(&stable, &known.hardware_id) {
            let _ = phones::disconnect_wireless(&mut self.outside, &phone.serial);
            self.publish_connection(
                Connection::Unreachable {
                    phone: known.phone,
                    connect_address: phone.serial.copy(),
                },
                phones::listed(attached),
            );
            return false;
        }
        if stable.is_some() {
            self.remember_wireless(&phone.serial, &phone.name, &stable, &None, true);
        }
        true
    }

    fn confirm(&mut self, phone: &Phone, attached: Vec<protocol::Attached>)
        requires
            old(self).core.wf(),
            old(self).core.rev + 3 <= u64::MAX,
        ensures
            final(self).core.wf(),
            final(self).core.rev <= old(self).core.rev + 3,
            final(self)@ == confirmed(old(self)@, phone@, attached.deep_view()),
    {
        proof {
            reveal(confirmed);
        }
        match self.ensure_settings(&phone.serial) {
            Ok(_) => {},
            Err(e) => {
                self.log(
                    text::of("could not inspect ").concat(&phone.name).concat("'s cameras: ").concat(
                        &e,
                    ),
                );
            },
        }
        if self.needs_writer() {
            self.resume_capture(phone);
            if self.core.writer.is_some() {
                self.publish_connection(Connection::Connected { phone: phone.copy() }, attached);
            }
        }
    }

    fn conclude(&mut self, connection: Connection, attached: Vec<protocol::Attached>)
        requires
            old(self).core.wf(),
            old(self).core.rev + 5 <= u64::MAX,
        ensures
            final(self).core.wf(),
            final(self).core.rev <= old(self).core.rev + 5,
            final(self)@ == concluded(old(self)@, connection@, attached.deep_view()),
    {
        proof {
            reveal(concluded);
        }
        let shown = self.reconnecting_or(connection.copy());
        self.publish_connection(shown, attached.copy());
        match connection {
            Connection::Connected { phone } => {
                self.confirm(&phone, attached);
            },
            Connection::Connecting { phone } => {
                if phones::connect(&mut self.outside, &phone.serial) {
                    let next = if self.needs_writer() {
                        Connection::Reconnecting { phone: phone.copy() }
                    } else {
                        Connection::Connected { phone: phone.copy() }
                    };
                    self.publish_connection(next, attached.copy());
                    self.confirm(&phone, attached);
                }
            },
            _ => {},
        }
    }

    fn work_out(&mut self, attached: Vec<Attached>, verified: Option<String>)
        requires
            old(self).core.wf(),
            old(self).core.rev + 5 <= u64::MAX,
        ensures
            final(self).core.wf(),
            final(self).core.rev <= old(self).core.rev + 5,
            final(self)@ == worked_out(old(self)@, attached.deep_view(), verified.deep_view()),
    {
        proof {
            reveal(worked_out);
        }
        let selected = self.core.registry.selected.copy();
        let list = attached.as_slice();
        assert(list.deep_view() =~= attached.deep_view());
        let (connection, remember) = phones::resolve(
            list,
            match &selected {
                Some(serial) => Some(serial.as_str()),
                None => None,
            },
        );
        match &remember {
            Some(serial) => {
                self.remember_selection(serial);
            },
            None => {},
        }
        let already = match (&connection, &self.core.state.connection) {
            (Connection::Connecting { phone }, Connection::Connected { phone: same }) => {
                proof {
                    lemma_first(attached.deep_view(), usable_as(phone@.serial));
                }
                phone.same(same) && find_usable_as(&attached, &phone.serial).is_some()
            },
            _ => false,
        };
        if !already {
            if !self.vet(&connection, &attached, &verified) {
                return;
            }
        }
        self.remember_attached(&attached);
        let connection = match connection {
            Connection::Connecting { phone } => {
                if already {
                    Connection::Connected { phone }
                } else {
                    Connection::Connecting { phone }
                }
            },
            other => other,
        };
        self.conclude(connection, phones::listed(&attached));
    }

    /// Works out the connection, publishes it, and connects to the selected
    /// phone. Says whether adb answered.
    pub fn refresh_connection(&mut self) -> (r: bool)
        requires
            old(self).core.wf(),
            old(self).core.rev + 5 <= u64::MAX,
        ensures
            final(self).core.wf(),
            final(self).core.rev <= old(self).core.rev + 5,
            (final(self)@, r) == refreshed(old(self)@),
    {
        proof {
            reveal(refreshed);
        }
        let attached = match phones::scan(&mut self.outside) {
            Err(e) => {
                self.log(text::of("could not scan phones: ").concat(&e));
                self.publish_adb_failure();
                return false;
            },
            Ok(attached) => attached,
        };
        let pairing = match &self.core.state.connection {
            Connection::NeedsPairing => true,
            Connection::PairingFailed { .. } => true,
            _ => false,
        };
        if pairing {
            let connection = self.core.state.connection.copy();
            self.publish_connection(connection, phones::listed(&attached));
            return true;
        }
        match self.awaited(&attached) {
            None => {
                self.work_out(attached, None);
                true
            },
            Some(known) => self.rejoin(known, attached),
        }
    }

}

pub fn spawn_replacement(
    o: &mut Outside,
    serial: &str,
    public: &Capture,
    settings: &CameraSettings,
    style: PreviewStyle,
    position: Option<[i64; 2]>,
) -> (r: Result<u32, String>)
    ensures
        (final(o)@, shown(r)) == replaced(
            old(o)@,
            serial@,
            public@,
            settings@,
            style,
            position,
        ),
{
    proof {
        reveal(replaced);
    }
    let place = if public.preview {
        position
    } else {
        match capture::initial_hidden_position(o) {
            Err(e) => return Err(e),
            Ok(at) => Some(at),
        }
    };
    match capture::apply_preview_rule(o, style.rounding, style.border_size, place) {
        Err(e) => return Err(e),
        Ok(()) => {},
    }
    match capture::spawn(o, serial, &public.node, settings) {
        Ok(pid) => Ok(pid),
        Err(f) => Err(f.message),
    }
}

fn hide_stand_in(o: &mut Outside, style: PreviewStyle, position: Option<[i64; 2]>) -> (r: bool)
    ensures
        (final(o)@, r) == stand_in_hidden(old(o)@, style, position),
{
    proof {
        reveal(stand_in_hidden);
    }
    let at = match capture::initial_hidden_position(o) {
        Err(e) => {
            o.log(text::of("could not place the reconnect preview offscreen: ").concat(&e));
            return false;
        },
        Ok(at) => at,
    };
    let hidden = match capture::apply_reconnect_rule(
        o,
        style.rounding,
        style.border_size,
        Some(at),
    ) {
        Err(e) => Err(e),
        Ok(()) => capture::hide_reconnect_preview(o, at),
    };
    match hidden {
        Ok(()) => true,
        Err(e) => {
            o.log(text::of("could not hide the reconnect preview: ").concat(&e));
            let _ = capture::apply_reconnect_rule(o, style.rounding, style.border_size, position);
            false
        },
    }
}

fn restore_stand_in(o: &mut Outside, style: PreviewStyle, position: Option<[i64; 2]>)
    ensures
        final(o)@ == stand_in_restored(old(o)@, style, position),
{
    proof {
        reveal(stand_in_restored);
    }
    let shown = match capture::apply_reconnect_rule(
        o,
        style.rounding,
        style.border_size,
        position,
    ) {
        Err(e) => Err(e),
        Ok(()) => capture::show_reconnect_preview(o, position),
    };
    match shown {
        Ok(()) => {},
        Err(e) => {
            o.log(text::of("could not restore the reconnect preview: ").concat(&e));
        },
    }
}

// ---------------------------------------------------------------------------
// Laws

/// A state is news wherever anything that clients see in it differs: whether adb
/// answers, the connection, the capture, the attached phones, those that are
/// known, the preview's style, what is missing, or the settings of a phone.
pub proof fn anything_that_differs_is_news(a: StateView, b: StateView)
    ensures
        !is_news(a, b) ==> {
            &&& a.adb_ok == b.adb_ok
            &&& a.connection == b.connection
            &&& a.capture == b.capture
            &&& a.attached == b.attached
            &&& a.known == b.known
            &&& a.preview_style == b.preview_style
            &&& a.missing == b.missing
            &&& a.settings is Some <==> b.settings is Some
            &&& (a.settings is Some && b.settings is Some) ==> {
                let x = a.settings->0;
                let y = b.settings->0;
                &&& x.phone == y.phone
                &&& x.lenses.len() == y.lenses.len()
                &&& settings::equals(x.applied, y.applied)
                &&& settings::equals(x.pending, y.pending)
                &&& x.offered_resolutions == y.offered_resolutions
                &&& x.has_pending_changes == y.has_pending_changes
                &&& x.rejected == y.rejected
                &&& forall|i: int|
                    0 <= i < x.lenses.len() ==> {
                        let l = #[trigger] x.lenses[i];
                        &&& l.id == y.lenses[i].id
                        &&& l.facing == y.lenses[i].facing
                        &&& l.sensor_size == y.lenses[i].sensor_size
                        &&& l.resolutions == y.lenses[i].resolutions
                        &&& l.frame_rates == y.lenses[i].frame_rates
                    }
            }
        },
        a.settings is None ==> !is_news(a, a),
{
}

/// A phone is looked for over the network exactly where it is selected, adb does
/// not list it as usable, and it is known to be reached so; it is then the first
/// such entry.
pub proof fn only_an_absent_phone_is_awaited(
    registry: RegistryView,
    attached: Seq<AttachedView>,
    serial: Seq<char>,
    i: int,
)
    requires
        registry.selected == Some(serial),
    ensures
        (exists|j: int|
            0 <= j < attached.len() && (#[trigger] attached[j]).serial == serial
                && attached[j].adb_state == "device"@) ==> awaited(registry, attached) is None,
        (forall|j: int|
            0 <= j < registry.phones.len() ==> (#[trigger] registry.phones[j]).phone.serial
                != serial || registry.phones[j].transport == protocol::Transport::Wired) ==> awaited(
            registry,
            attached,
        ) is None,
        (forall|j: int|
            0 <= j < attached.len() ==> (#[trigger] attached[j]).serial != serial
                || attached[j].adb_state != "device"@) && 0 <= i < registry.phones.len()
            && registry.phones[i].phone.serial == serial && registry.phones[i].transport
            == protocol::Transport::Wireless && (forall|j: int|
            0 <= j < i ==> (#[trigger] registry.phones[j]).phone.serial != serial
                || registry.phones[j].transport == protocol::Transport::Wired) ==> awaited(registry, attached)
            == Some(registry.phones[i]),
{
    let phones = registry.phones;
    lemma_first(phones, known_wireless(serial));
    assert forall|j: int| 0 <= j < attached.len() implies usable_as(serial)(#[trigger] attached[j])
        == (attached[j].serial == serial && attached[j].adb_state == "device"@) by {}
    assert forall|j: int| 0 <= j < phones.len() implies known_wireless(serial)(#[trigger] phones[j])
        == (phones[j].phone.serial == serial && phones[j].transport == protocol::Transport::Wireless) by {}
}

/// A phone's settings are those that clients already see for it; otherwise they
/// are opened from its lenses and from what is kept under its identity.
pub proof fn settings_are_opened_from_what_is_kept(d: DaemonView, serial: Seq<char>)
    ensures
        ({
            let (e, r) = equipped(d, serial);
            &&& (d.core.state.settings matches Some(s) && s.phone == serial) ==> e == d && r == Ok::<
                SettingsStateView,
                Seq<char>,
            >(d.core.state.settings->0)
            &&& (d.core.state.settings matches Some(s) ==> s.phone != serial) ==> {
                &&& r is Ok <==> inspected(d.outside, serial).1 is Ok
                &&& r matches Ok(settings) ==> settings == opened(
                    serial,
                    inspected(d.outside, serial).1->Ok_0,
                    lookup(d.core.registry.settings, key_for(d.core.registry, serial)),
                )
            }
            &&& e.core.registry == d.core.registry
            &&& e.core.writer == d.core.writer
        }),
{
    reveal(equipped);
}

/// Where the preview was is remembered while its window is gone: the place is
/// the window's own as long as it can be found, and the last one known after.
pub proof fn the_place_outlives_the_window(d: DaemonView)
    requires
        !prepared(d).outside.waiting,
    ensures
        d.core.state.capture matches Some(c) ==> c.preview ==> prepared(d).core.position == (
        match located(d.outside).1 {
            Ok(at) => Some(at),
            Err(_) => d.core.position,
        }),
        (d.core.state.capture matches Some(c) ==> !c.preview) ==> prepared(d) == d,
        prepared(d).core.state == d.core.state,
        prepared(d).core.registry == d.core.registry,
{
    broadcast use crate::laws::group_goes_on_all;

    reveal(prepared);
}

} // verus!
