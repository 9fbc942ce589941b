//! What each operation does on the way: which acts it asks for, in which order,
//! and what it shows and remembers of the answers.

use vstd::prelude::*;

use crate::capture::{
    controlled, hidden, lacking, located, move_text, node_found, polled, preview_rule,
    reconnect_rule, show_text, spawned, style_rule, CONTROLS, PREVIEW_WIDTH, RECONNECT_SELECTOR,
};
use crate::daemon::{
    address_of, announced, chosen, concluded, equipped, kept_on_disk, noticed, pairing, prepared,
    recalled, reconnecting, refreshed, registry_saved, rejoined, replaced,
    resumed, stand_in_hidden, stand_in_restored, still_connected, usable_as, vetted, worked_out,
    DaemonView,
};
use crate::laws::{extends, goes_on, launches, leads, steps};
use crate::lists::found;
use crate::operations::{
    applied, applied_idle, applied_live, attached_anew, begun, capture_of, coupled, emptied,
    examined, followed, following, launched, placed, previewed, readdressed, reaped, reason_for,
    rejection, same_device, selected, started, stopped, themed, turned,
};
use crate::outside::{ActView, AnswerView, OutsideView};
use crate::phones::{
    answered, identified, joined, known_serial, known_wireless, paired, parted, remembered, scanned,
    seen, told, AttachedView, RegistryView,
};
use crate::protocol;
use crate::protocol::{
    CaptureView, ConnectionView, KnownPhoneView, PhoneView, PreviewStyle, StateView, Transport,
};
use crate::requests::{performed, OperationView};
use crate::settings::{CameraSettingsView, SettingsStateView};

verus! {

// ---------------------------------------------------------------------------
// What is shown

/// The settings that clients see are those of the phone that is connected or
/// reconnecting, as they were; with any other connection there are none. What
/// is missing is looked at each time.
pub proof fn the_settings_shown_are_the_phones_own(
    d: DaemonView,
    connection: ConnectionView,
    attached: Seq<protocol::AttachedView>,
)
    requires
        !announced(d, connection, attached).outside.waiting,
    ensures
        ({
            let e = announced(d, connection, attached);
            let phone = match connection {
                ConnectionView::Connected { phone } => Some(phone.serial),
                ConnectionView::Reconnecting { phone } => Some(phone.serial),
                _ => None,
            };
            let n = d.outside.trace.len() as int;
            &&& match (phone, d.core.state.settings) {
                (Some(serial), Some(own)) => if own.phone == serial {
                    e.core.state.settings == Some(own)
                } else {
                    e.core.state.settings is None
                },
                _ => e.core.state.settings is None,
            }
            &&& e.outside.trace.len() > n && e.outside.trace[n] == ActView::Inspect
            &&& d.outside.answers[d.outside.used] matches AnswerView::Equipped { equipment }
                ==> e.core.state.missing == lacking(equipment)
        }),
{
    reveal(announced);
    reveal(crate::capture::missed);
}

/// A phone that is to be connected is asked whether it is there, and is not
/// called connected unless it said so.
pub proof fn a_phone_is_connected_where_it_answers(
    d: DaemonView,
    phone: PhoneView,
    attached: Seq<protocol::AttachedView>,
)
    requires
        d.core.state.capture is None,
    ensures
        ({
            let connection = ConnectionView::Connecting { phone };
            let e = concluded(d, connection, attached);
            let m = announced(reconnecting(d, connection).0, connection, attached);
            let n = m.outside.trace.len() as int;
            !e.outside.waiting ==> {
                &&& e.outside.trace[n] == (ActView::Run {
                    argv: seq!["adb"@, "-s"@, phone.serial, "get-state"@],
                    collect: false,
                })
                &&& !answered(m.outside, phone.serial).1 ==> e.core.state.connection == connection
                &&& answered(m.outside, phone.serial).1 ==> e.core.state.connection == (
                ConnectionView::Connected { phone })
            }
        }),
{
    broadcast use crate::laws::group_goes_on_all;

    reveal(concluded);
    reveal(reconnecting);
    reveal(announced);
    reveal(answered);
    reveal(crate::daemon::confirmed);
    reveal(equipped);
    reveal(goes_on);
    reveal(leads);
    let connection = ConnectionView::Connecting { phone };
    let m = announced(reconnecting(d, connection).0, connection, attached);
    let (o, ok) = answered(m.outside, phone.serial);
    let e = concluded(d, connection, attached);
    crate::laws::goes_on_concluded(d, connection, attached);
    if ok {
        let a = announced(m.with(o), ConnectionView::Connected { phone }, attached);
        assert(goes_on(m.with(o), a));
        assert(goes_on(a, crate::daemon::confirmed(a, phone, attached)));
    }
}

/// Only the phone that is connected is still connected, and only while adb
/// lists it as usable.
pub proof fn only_the_same_phone_is_still_connected(
    previous: ConnectionView,
    connection: ConnectionView,
    attached: Seq<AttachedView>,
)
    ensures
        still_connected(previous, connection, attached) <==> exists|i: int|
            0 <= i < attached.len() && (#[trigger] attached[i]).adb_state == "device"@ && (
            connection matches ConnectionView::Connecting { phone } && previous == (
            ConnectionView::Connected { phone }) && attached[i].serial == phone.serial),
{
    if let ConnectionView::Connecting { phone } = connection {
        if exists|i: int|
            0 <= i < attached.len() && (#[trigger] attached[i]).adb_state == "device"@
                && attached[i].serial == phone.serial {
            let i = choose|i: int|
                0 <= i < attached.len() && (#[trigger] attached[i]).adb_state == "device"@
                    && attached[i].serial == phone.serial;
            assert(usable_as(phone.serial)(attached[i]));
        }
    }
}

/// With nothing selected and nothing attached, pairing is offered; with a phone
/// attached it is not.
pub proof fn pairing_is_offered_where_nothing_is_left(d: DaemonView)
    requires
        d.core.registry.selected is None,
        scanned(d.outside).1 is Ok,
    ensures
        ({
            let e = emptied(d);
            let attached = scanned(d.outside).1->Ok_0;
            &&& attached.len() == 0 && !e.outside.waiting ==> e.core.state.connection
                is NeedsPairing && e.core.state.attached =~= Seq::empty()
            &&& attached.len() > 0 ==> e == refreshed(d.with(scanned(d.outside).0)).0
        }),
{
    reveal(emptied);
    reveal(announced);
}

// ---------------------------------------------------------------------------
// What is remembered

/// The selected phone, as it is attached, is written down before anything is
/// made of it.
pub proof fn the_selected_phone_is_written_down(d: DaemonView, attached: Seq<AttachedView>)
    ensures
        ({
            let e = noticed(d, attached);
            &&& !d.outside.waiting ==> e.core.registry == seen(d.core.registry, attached)
            &&& !d.outside.waiting && e.core.registry != d.core.registry
                ==> e.outside.trace.len() > d.outside.trace.len()
                && e.outside.trace[d.outside.trace.len() as int] == (ActView::Save {
                registry: e.core.registry,
            })
            &&& e.core.state == d.core.state
        }),
{
    broadcast use crate::laws::group_goes_on_all;

    reveal(noticed);
    reveal(registry_saved);
    reveal(kept_on_disk);
}

/// Whether a registry has a phone, at an address, under the identity it gave.
pub open spec fn has_at(
    registry: RegistryView,
    address: Seq<char>,
    name: Seq<char>,
    stable: Option<Seq<char>>,
) -> bool {
    found(registry.phones, known_serial(address)) matches Some(known) && {
        &&& known.phone == PhoneView { serial: address, name }
        &&& known.connect_address == Some(address)
        &&& known.transport == Transport::Wireless
        &&& stable matches Some(id) ==> known.id == id && known.hardware_id == Some(id)
    }
}

proof fn lemma_recalled(
    d: DaemonView,
    address: Seq<char>,
    name: Seq<char>,
    stable: Option<Seq<char>>,
    previous: Option<Seq<char>>,
    select: bool,
)
    requires
        !d.outside.waiting,
    ensures
        ({
            let e = recalled(d, address, name, stable, previous, select);
            let n = d.outside.trace.len() as int;
            &&& e.outside.trace.len() > n
            &&& e.outside.trace[n] matches ActView::Save { registry } && {
                &&& has_at(registry, address, name, stable)
                &&& registry.selected == if select {
                    Some(address)
                } else {
                    d.core.registry.selected
                }
                &&& registry == remembered(
                    d.core.registry,
                    address,
                    name,
                    stable,
                    previous,
                    select,
                )
            }
            &&& e.core.state == d.core.state
        }),
{
    reveal(recalled);
    reveal(registry_saved);
    reveal(kept_on_disk);
    crate::phones::a_phone_is_one_entry(d.core.registry, address, name, stable, previous, select);
    let after = remembered(d.core.registry, address, name, stable, previous, select);
    crate::lists::lemma_first(after.phones, known_serial(address));
}

/// A phone that was just paired is written down at its connect address, under
/// the name and the identity that it gives, and selected.
pub proof fn a_paired_phone_is_written_down(d: DaemonView, address: Seq<char>)
    requires
        ({
            let (o, ok) = joined(d.outside, address);
            let (o, scan) = scanned(o);
            ok && scan is Ok && found(scan->Ok_0, usable_as(address)) is Some && !identified(
                o,
                address,
            ).0.waiting
        }),
    ensures
        ({
            let (e, r) = attached_anew(d, address);
            let (o, scan) = scanned(joined(d.outside, address).0);
            let (o, stable) = identified(o, address);
            let there = found(scan->Ok_0, usable_as(address))->0;
            let n = o.trace.len() as int;
            &&& e.outside.trace.len() > n
            &&& e.outside.trace[n] matches ActView::Save { registry } && has_at(
                registry,
                address,
                there.name,
                stable,
            ) && registry.selected == Some(address)
            &&& r is Ok <==> crate::operations::connected_to(e.core.state, address)
        }),
{
    broadcast use crate::laws::group_goes_on_all;

    reveal(attached_anew);
    reveal(goes_on);
    reveal(leads);
    let (o, scan) = scanned(joined(d.outside, address).0);
    let (o, stable) = identified(o, address);
    let there = found(scan->Ok_0, usable_as(address))->0;
    let m = d.with(o);
    lemma_recalled(m, address, there.name, stable, None, true);
    let k = recalled(m, address, there.name, stable, None, true);
    let shown = ConnectionView::Connecting {
        phone: PhoneView { serial: address, name: there.name },
    };
    let a = announced(k, shown, told(scan->Ok_0));
    assert(goes_on(k, a));
    assert(goes_on(a, refreshed(a).0));
}

/// The same of a known phone that was reached again over the network. It is
/// sought at the address where it was last reached.
pub proof fn a_phone_reached_again_is_written_down(
    d: DaemonView,
    known: KnownPhoneView,
    attached: Seq<AttachedView>,
)
    requires
        !d.outside.waiting,
    ensures
        ({
            let (e, _) = rejoined(d, known, attached);
            let address = match known.connect_address {
                Some(address) => address,
                None => known.phone.serial,
            };
            let (o, ok) = joined(d.outside, address);
            let (o, scan) = scanned(o);
            let (o, stable) = identified(o, address);
            let n = d.outside.trace.len() as int;
            &&& crate::phones::endpoint(address) ==> e.outside.trace.len() > n
                && e.outside.trace[n] == (ActView::Run {
                argv: seq!["adb"@, "connect"@, address],
                collect: true,
            })
            &&& ok && scan is Ok && !o.waiting && (stable == known.hardware_id
                || known.hardware_id is None) ==> (found(
                scan->Ok_0,
                usable_as(address),
            ) matches Some(there) ==> {
                &&& e.outside.trace.len() > o.trace.len()
                &&& e.outside.trace[o.trace.len() as int] matches ActView::Save { registry }
                &&& has_at(registry, address, there.name, stable)
                &&& registry.selected == Some(address)
            })
        }),
{
    broadcast use crate::laws::group_goes_on_all;

    reveal(goes_on);
    reveal(leads);
    let address = address_of(known);
    let (o, ok) = joined(d.outside, address);
    let j = d.with(o);
    let e = rejoined(d, known, attached).0;
    assert(goes_on(d, j)) by {
        reveal(joined);
    }
    assert(goes_on(j, e)) by {
        lemma_rejoined_on(d, known, attached);
    }
    assert(crate::phones::endpoint(address) ==> j.outside.trace == d.outside.trace.push(
        ActView::Run { argv: seq!["adb"@, "connect"@, address], collect: true },
    )) by {
        reveal(joined);
    }
    reveal(rejoined);
    let (o, scan) = scanned(o);
    let (o, stable) = identified(o, address);
    let m = d.with(o);
    if ok && scan is Ok && !o.waiting && (stable == known.hardware_id || known.hardware_id
        is None) {
        if let Some(there) = found(scan->Ok_0, usable_as(address)) {
            lemma_recalled(m, address, there.name, stable, None, true);
            let k = recalled(m, address, there.name, stable, None, true);
            crate::laws::goes_on_worked_out(
                k,
                scan->Ok_0,
                if stable is Some {
                    Some(address)
                } else {
                    None
                },
            );
        }
    }
}

proof fn lemma_rejoined_on(d: DaemonView, known: KnownPhoneView, attached: Seq<AttachedView>)
    ensures
        goes_on(
            d.with(joined(d.outside, address_of(known)).0),
            rejoined(d, known, attached).0,
        ),
{
    broadcast use crate::laws::group_goes_on_all;

    reveal(rejoined);
    let address = address_of(known);
    let (o, scan) = scanned(joined(d.outside, address).0);
    if let Ok(attached) = scan {
        if let Some(there) = found(attached, usable_as(address)) {
            let (o, stable) = identified(o, address);
            crate::laws::goes_on_worked_out(
                recalled(d.with(o), address, there.name, stable, None, true),
                attached,
                if stable is Some {
                    Some(address)
                } else {
                    None
                },
            );
        }
    }
}

/// A phone that proved its identity at a new address is written down there, and
/// nowhere else; the selection follows it where it was the selected phone, and
/// is left alone where it was not.
pub proof fn a_moved_phone_is_written_down(
    d: DaemonView,
    serial: Seq<char>,
    address: Seq<char>,
    name: Seq<char>,
    stable: Seq<char>,
    attached: Seq<protocol::AttachedView>,
)
    requires
        !d.outside.waiting,
    ensures
        ({
            let (e, r) = followed(d, serial, address, name, stable, attached);
            let mine = d.core.registry.selected matches Some(s) && (s == serial || (found(
                d.core.registry.phones,
                crate::phones::known_hardware(stable),
            ) matches Some(known) && known.phone.serial == s));
            let ended = d.core.writer is Some && (d.core.state.capture matches Some(c)
                && same_device(d.core.registry, serial, stable, c.phone.serial));
            let n = if ended {
                d.outside.trace.len() as int + 1
            } else {
                d.outside.trace.len() as int
            };
            &&& ended ==> e.outside.trace[n - 1] == ActView::Kill
            &&& e.outside.trace.len() > n
            &&& e.outside.trace[n] matches ActView::Save { registry } && {
                &&& has_at(registry, address, name, Some(stable))
                &&& registry.selected == if mine {
                    Some(address)
                } else {
                    d.core.registry.selected
                }
            }
            &&& !mine ==> r is Ok
            &&& mine ==> (r is Ok <==> crate::operations::connected_to(e.core.state, address))
        }),
{
    broadcast use crate::laws::group_goes_on_all;

    reveal(followed);
    reveal(goes_on);
    reveal(leads);
    let registry = d.core.registry;
    let captured = d.core.state.capture matches Some(c) && same_device(
        registry,
        serial,
        stable,
        c.phone.serial,
    );
    let mine = registry.selected matches Some(s) && same_device(registry, serial, stable, s);
    let m = if captured {
        let k = d.end_writer();
        k.hold_state(following(k.core.state, address, name))
    } else {
        d
    };
    lemma_recalled(m, address, name, Some(stable), Some(serial), mine);
    let k = recalled(m, address, name, Some(stable), Some(serial), mine);
    let a = if mine {
        announced(
            k,
            ConnectionView::Connecting { phone: PhoneView { serial: address, name } },
            attached,
        )
    } else {
        k
    };
    assert(goes_on(k, a));
    assert(goes_on(a, refreshed(a).0));
}

/// The state that follows a phone is the old one but for where its phone is:
/// the capture is that of the new address, and so are the settings where they
/// were the captured phone's.
pub proof fn following_changes_the_address_alone(
    state: StateView,
    address: Seq<char>,
    name: Seq<char>,
)
    ensures
        ({
            let after = following(state, address, name);
            &&& after == StateView { capture: after.capture, settings: after.settings, ..state }
            &&& match (state.capture, after.capture) {
                (Some(was), Some(now)) => now.phone.serial == address && now.phone.name == name
                    && now.node == was.node && now.size == was.size && now.preview == was.preview
                    && now.stay_awake == was.stay_awake,
                (None, None) => after == state,
                _ => false,
            }
            &&& match (state.settings, after.settings) {
                (Some(was), Some(now)) => now == (SettingsStateView { phone: now.phone, ..was })
                    && now.phone == if state.capture matches Some(c) && c.phone.serial
                    == was.phone {
                    address
                } else {
                    was.phone
                },
                (None, None) => true,
                _ => false,
            }
        }),
{
}

// ---------------------------------------------------------------------------
// Who is let in

/// A phone reached over the network is made sure of before anything calls it
/// connected: one that gives another identity than the known one is dropped and
/// shown as unreachable, and nothing that is remembered changes. Any other goes
/// on.
pub proof fn a_phone_is_vetted_by_its_identity(
    d: DaemonView,
    phone: PhoneView,
    attached: Seq<AttachedView>,
    known: KnownPhoneView,
)
    requires
        found(d.core.registry.phones, known_wireless(phone.serial)) == Some(known),
        known.hardware_id is Some,
    ensures
        ({
            let (e, go) = vetted(d, ConnectionView::Connecting { phone }, attached, None);
            let (o, stable) = identified(d.outside, phone.serial);
            &&& go <==> stable == known.hardware_id
            &&& !go ==> e.core.registry == d.core.registry && e.core.writer == d.core.writer
            &&& !go && !e.outside.waiting ==> e.outside.trace[o.trace.len() as int] == (
            ActView::Run { argv: seq!["adb"@, "disconnect"@, phone.serial], collect: false })
                && e.core.state.connection == (ConnectionView::Unreachable {
                phone: known.phone,
                connect_address: phone.serial,
            })
        }),
{
    broadcast use crate::laws::group_goes_on_all;

    reveal(vetted);
    reveal(announced);
    reveal(parted);
    reveal(goes_on);
    reveal(leads);
    let (o, stable) = identified(d.outside, phone.serial);
    let m = d.with(parted(o, phone.serial).0);
    let shown = ConnectionView::Unreachable { phone: known.phone, connect_address: phone.serial };
    assert(goes_on(m, announced(m, shown, told(attached))));
}

/// Whoever answers at a new address and gives no identity is dropped, and
/// nothing that is remembered or shown changes.
pub proof fn without_an_identity_nobody_is_let_in(
    d: DaemonView,
    known: KnownPhoneView,
    serial: Seq<char>,
    address: Seq<char>,
)
    requires
        ({
            let (o, scan) = scanned(d.outside);
            scan is Ok && found(scan->Ok_0, usable_as(address)) is Some && identified(
                o,
                address,
            ).1 is None
        }),
    ensures
        ({
            let (e, r) = examined(d, known, serial, address);
            &&& r matches Err(why) && why.code == "phone_identity_failed"@
            &&& e.core == d.core
            &&& !e.outside.waiting ==> e.outside.trace.last() == (ActView::Run {
                argv: seq!["adb"@, "disconnect"@, address],
                collect: false,
            })
        }),
{
    reveal(examined);
    reveal(parted);
}

/// A phone that is known at an address needs nothing done to be connected
/// there; at any other address it is tried.
pub proof fn a_new_address_is_tried(
    d: DaemonView,
    serial: Seq<char>,
    address: Seq<char>,
    known: KnownPhoneView,
)
    requires
        found(d.core.registry.phones, known_wireless(serial)) == Some(known),
        known.connect_address is Some,
        crate::phones::endpoint(address),
        !d.outside.waiting,
    ensures
        ({
            let (e, r) = readdressed(d, serial, address);
            let n = d.outside.trace.len() as int;
            &&& known.connect_address == Some(address) ==> e == d && r is Ok
            &&& known.connect_address != Some(address) ==> e.outside.trace.len() > n
                && e.outside.trace[n] == (ActView::Run {
                argv: seq!["adb"@, "connect"@, address],
                collect: true,
            })
        }),
{
    broadcast use crate::laws::group_goes_on_all;

    reveal(readdressed);
    reveal(joined);
    reveal(goes_on);
    reveal(leads);
    let (o, ok) = joined(d.outside, address);
    let m = d.with(o);
    assert(goes_on(m, examined(m, known, serial, address).0));
    assert(goes_on(
        m,
        crate::daemon::not_reached(m, known.phone, address, m.core.state.attached),
    ));
}

// ---------------------------------------------------------------------------
// The capture and its preview

/// The compositor is told of both windows, in the style that was asked for,
/// before scrcpy is launched, and where the preview then is, is remembered.
pub proof fn a_launch_begins_with_the_windows(
    d: DaemonView,
    phone: PhoneView,
    style: PreviewStyle,
    settings: CameraSettingsView,
    node: Seq<char>,
)
    requires
        launched(d, phone, style, settings, node).1 is Ok,
        !launched(d, phone, style, settings, node).0.outside.waiting,
    ensures
        ({
            let (e, _) = launched(d, phone, style, settings, node);
            let n = d.outside.trace.len() as int;
            &&& e.outside.trace.len() > n + 1
            &&& e.outside.trace[n] == (ActView::Run {
                argv: seq![
                    "hyprctl"@,
                    "eval"@,
                    preview_rule(style.rounding, style.border_size, None),
                ],
                collect: false,
            })
            &&& e.outside.trace[n + 1] == (ActView::Run {
                argv: seq![
                    "hyprctl"@,
                    "eval"@,
                    reconnect_rule(style.rounding, style.border_size, None),
                ],
                collect: false,
            })
            &&& exists|o: OutsideView|
                {
                    &&& (#[trigger] located(o)).0.answers == d.outside.answers
                    &&& leads(located(o).0.trace, e.outside.trace)
                    &&& e.outside.trace.len() <= located(o).0.trace.len() + 1
                    &&& e.core.position == match located(o).1 {
                        Ok(at) => Some(at),
                        Err(_) => None,
                    }
                }
        }),
{
    broadcast use crate::laws::group_goes_on_all;

    reveal(launched);
    reveal(crate::capture::commanded);
    reveal(goes_on);
    reveal(leads);
    let (e, _) = launched(d, phone, style, settings, node);
    let (o1, _) = crate::capture::commanded(
        d.outside,
        "eval"@,
        preview_rule(style.rounding, style.border_size, None),
    );
    let (o2, _) = crate::capture::commanded(
        o1,
        "eval"@,
        reconnect_rule(style.rounding, style.border_size, None),
    );
    let (o3, writer) = spawned(o2, phone.serial, node, settings);
    let (o4, at) = located(o3);
    reveal(steps);
    reveal(extends);
    assert(steps(o2, o3));
    assert(steps(o3, o4));
    assert(leads(o4.trace, e.outside.trace));
}

/// The controls that decide what an application sees when frames stop are set
/// on the virtual camera before scrcpy is launched for it.
pub proof fn the_controls_are_set_before_the_launch(
    d: DaemonView,
    phone: PhoneView,
    style: PreviewStyle,
)
    requires
        begun(d, phone, style).1 is Ok,
        !begun(d, phone, style).0.outside.waiting,
    ensures
        ({
            let (e, _) = begun(d, phone, style);
            e.core.state.capture matches Some(c) && exists|i: int|
                {
                    &&& d.outside.trace.len() <= i < e.outside.trace.len()
                    &&& (#[trigger] e.outside.trace[i]) == (ActView::Run {
                        argv: seq!["v4l2-ctl"@, "-d"@, c.node, "-c"@, CONTROLS@],
                        collect: false,
                    })
                    &&& launches(e.outside.trace.take(i)) == launches(d.outside.trace)
                }
        }),
{
    broadcast use crate::laws::group_goes_on_all;

    reveal(begun);
    reveal(goes_on);
    reveal(leads);
    let (e, _) = begun(d, phone, style);
    let (m, settings) = equipped(d, phone.serial);
    let (o, node) = node_found(m.outside);
    let k = m.with(o);
    let node = node->Ok_0;
    let c = m.with(controlled(k.outside, node));
    let n = o.trace.len() as int;
    reveal(steps);
    reveal(extends);
    assert(steps(o, c.outside));
    assert(c.outside.trace.len() > n && c.outside.trace[n] == (ActView::Run {
        argv: seq!["v4l2-ctl"@, "-d"@, node, "-c"@, CONTROLS@],
        collect: false,
    })) by {
        reveal(controlled);
    }
    assert(goes_on(c, e));
    assert(e.outside.trace.take(n) =~= o.trace);
    assert(launches(o.trace) == launches(d.outside.trace));
    reveal(launched);
    assert(e.core.state.capture matches Some(now) && now.node == node);
    assert(e.outside.trace[n] == c.outside.trace[n]);
}

/// Stopping ends the writer at once, forgets where the preview was, and leaves
/// the connection as it was, but for one that was reconnecting the capture.
pub proof fn stopping_forgets_the_place(d: DaemonView)
    requires
        !d.outside.waiting,
    ensures
        ({
            let e = stopped(d);
            let n = d.outside.trace.len() as int;
            &&& e.core.position is None
            &&& e.core.writer is None
            &&& e.core.state.capture is None
            &&& e.core.registry == d.core.registry
            &&& e.core.state.connection == if d.core.state.connection is Reconnecting {
                ConnectionView::NoPhone
            } else {
                d.core.state.connection
            }
            &&& d.core.writer is Some ==> e.outside.trace.len() > n && e.outside.trace[n]
                == ActView::Kill
        }),
{
    reveal(stopped);
}

/// Where a visible preview was is remembered when its writer is lost, so that
/// the window that stands in for it is there.
pub proof fn a_lost_preview_leaves_its_place(d: DaemonView, capture: CaptureView)
    requires
        d.core.writer is Some,
        d.core.state.capture == Some(capture),
        capture.preview,
    ensures
        polled(d.outside).1 !is Running && !reaped(d).outside.waiting ==> reaped(d).core.position
            == (match located(polled(d.outside).0).1 {
            Ok(at) => Some(at),
            Err(_) => d.core.position,
        }),
        ({
            let (e, _) = reconnecting(d, ConnectionView::NoPhone);
            !e.outside.waiting ==> e.core.position == match located(d.outside).1 {
                Ok(at) => Some(at),
                Err(_) => d.core.position,
            }
        }),
{
    broadcast use crate::laws::group_goes_on_all;

    reveal(reaped);
    reveal(reconnecting);
    reveal(announced);
    reveal(prepared);
}

/// A preview that is launched again is where it was if it was visible, and at a
/// place that the monitors leave free if it was hidden; the place is told to the
/// compositor before scrcpy is launched.
pub proof fn a_preview_is_launched_again_in_its_place(
    o: OutsideView,
    serial: Seq<char>,
    public: CaptureView,
    settings: CameraSettingsView,
    style: PreviewStyle,
    position: Option<[i64; 2]>,
)
    requires
        replaced(o, serial, public, settings, style, position).1 is Ok,
    ensures
        ({
            let (p, _) = replaced(o, serial, public, settings, style, position);
            let (n, place) = if public.preview {
                (o.trace.len() as int, position)
            } else {
                (
                    o.trace.len() as int + 1,
                    match hidden(o, PREVIEW_WIDTH as i64).1 {
                        Ok(at) => Some(at),
                        Err(_) => None,
                    },
                )
            };
            &&& !public.preview ==> place is Some
            &&& p.trace.len() > n
            &&& p.trace[n] == (ActView::Run {
                argv: seq![
                    "hyprctl"@,
                    "eval"@,
                    preview_rule(style.rounding, style.border_size, place),
                ],
                collect: false,
            })
        }),
{
    broadcast use crate::laws::group_goes_on_all;

    reveal(replaced);
    reveal(hidden);
    reveal(crate::capture::commanded);
    reveal(extends);
    let (p, _) = replaced(o, serial, public, settings, style, position);
    let place = if public.preview {
        position
    } else {
        match hidden(o, PREVIEW_WIDTH as i64).1 {
            Ok(at) => Some(at),
            Err(_) => None,
        }
    };
    let before = if public.preview {
        o
    } else {
        hidden(o, PREVIEW_WIDTH as i64).0
    };
    let (k, _) = crate::capture::commanded(
        before,
        "eval"@,
        preview_rule(style.rounding, style.border_size, place),
    );
    assert(p == spawned(k, serial, public.node, settings).0);
    reveal(steps);
}

/// Apply leaves a visible preview where it is, and asks nothing about a hidden
/// one.
pub proof fn apply_finds_the_preview(d: DaemonView, capture: CaptureView)
    ensures
        capture.preview ==> placed(d, capture).0 == d.with(located(d.outside).0) && (
        match located(d.outside).1 {
            Ok(at) => placed(d, capture).1 == Ok::<Option<[i64; 2]>, Seq<char>>(Some(at)),
            Err(_) => placed(d, capture).1 is Err,
        }),
        !capture.preview ==> placed(d, capture).0 == d && placed(d, capture).1 is Ok,
{
    reveal(placed);
}

/// A rejected Apply is answered as a failed capture where everything is as it
/// was before, and as a failed rollback wherever it is not.
pub proof fn a_rejection_tells_what_was_restored(
    rejected: Seq<char>,
    kept: Result<(), Seq<char>>,
    restarted: Result<u32, Seq<char>>,
)
    ensures
        rejection(rejected, kept, restarted).0 == if kept is Ok && restarted is Ok {
            "capture_failed"@
        } else {
            "rollback_failed"@
        },
{
}

// ---------------------------------------------------------------------------
// Guidance and failures

/// While the user is pairing, looking at the desk keeps the guidance and
/// remembers nothing.
pub proof fn guidance_stays_while_pairing(d: DaemonView)
    requires
        pairing(d.core.state.connection),
        scanned(d.outside).1 is Ok,
    ensures
        refreshed(d).1,
        refreshed(d).0.core.registry == d.core.registry,
        refreshed(d).0.core.writer == d.core.writer,
        refreshed(d).0.core.state.connection == d.core.state.connection,
{
    reveal(refreshed);
    reveal(announced);
}

/// Selecting a phone ends the guidance: the desk is looked at for the phone that
/// was selected, and no longer for one to pair.
pub proof fn selecting_ends_the_guidance(d: DaemonView, serial: Seq<char>)
    requires
        selected(d, serial).1 is Ok,
        !selected(d, serial).0.outside.waiting,
    ensures
        exists|m: DaemonView|
            {
                &&& selected(d, serial).0 == (#[trigger] refreshed(m)).0
                &&& !pairing(m.core.state.connection)
                &&& m.core.registry.selected == Some(serial)
                &&& m.core.state.capture is None || capture_of(m.core.state, serial)
            },
{
    broadcast use crate::laws::group_goes_on_all;

    reveal(selected);
    reveal(stopped);
    reveal(chosen);
    reveal(kept_on_disk);
    reveal(announced);
    reveal(goes_on);
    let (o, scan) = scanned(d.outside);
    let s = d.with(o);
    let attached = scan->Ok_0;
    let s = if s.core.state.capture is Some && !capture_of(s.core.state, serial) {
        stopped(s)
    } else {
        s
    };
    let c = chosen(s, serial);
    let m = if pairing(c.core.state.connection) {
        announced(c, ConnectionView::NoPhone, told(attached))
    } else {
        c
    };
    assert(goes_on(m, refreshed(m).0));
    assert(!m.outside.waiting);
}

/// A phone that was paired is remembered before it is connected to, and stays
/// remembered where connecting fails.
pub proof fn a_pairing_is_remembered_at_once(
    d: DaemonView,
    pair_address: Seq<char>,
    code: Seq<char>,
    address: Seq<char>,
)
    requires
        crate::phones::endpoint(address),
        paired(d.outside, pair_address, code).1 is Ok,
        !paired(d.outside, pair_address, code).0.waiting,
        d.core.state.capture is None,
    ensures
        ({
            let (e, _) = coupled(d, pair_address, code, address);
            let n = paired(d.outside, pair_address, code).0.trace.len() as int;
            &&& e.outside.trace.len() > n
            &&& e.outside.trace[n] matches ActView::Save { registry } && has_at(
                registry,
                address,
                address,
                None,
            ) && registry.selected == Some(address)
        }),
{
    broadcast use crate::laws::group_goes_on_all;

    reveal(coupled);
    reveal(goes_on);
    reveal(leads);
    let m = d.with(paired(d.outside, pair_address, code).0);
    lemma_recalled(m, address, address, None, None, true);
    let k = recalled(m, address, address, None, None, true);
    assert(goes_on(k, attached_anew(k, address).0));
}

/// A paired phone that cannot be connected to is shown as unreachable at its
/// connect address.
pub proof fn a_paired_phone_that_is_away_is_shown_so(d: DaemonView, address: Seq<char>)
    requires
        ({
            let (o, ok) = joined(d.outside, address);
            let (o, scan) = scanned(o);
            !ok || (scan is Ok && found(scan->Ok_0, usable_as(address)) is None)
        }),
    ensures
        ({
            let (e, r) = attached_anew(d, address);
            &&& r matches Err(why) && why.code == "unreachable"@
            &&& e.core.registry == d.core.registry
            &&& !e.outside.waiting ==> e.core.state.connection == (ConnectionView::Unreachable {
                phone: PhoneView { serial: address, name: address },
                connect_address: address,
            })
        }),
{
    reveal(attached_anew);
    reveal(announced);
}

/// An address at which nobody answers leaves everything that is remembered as it
/// was, and the known phone is shown as unreachable there, unless its capture is
/// reconnecting.
pub proof fn a_silent_address_changes_nothing(
    d: DaemonView,
    serial: Seq<char>,
    address: Seq<char>,
    known: KnownPhoneView,
)
    requires
        found(d.core.registry.phones, known_wireless(serial)) == Some(known),
        address_of(known) != address,
        ({
            let (o, ok) = joined(d.outside, address);
            let (o, scan) = scanned(o);
            !ok || (scan is Ok && found(scan->Ok_0, usable_as(address)) is None)
        }),
    ensures
        ({
            let (e, r) = readdressed(d, serial, address);
            &&& r is Err
            &&& e.core.registry == d.core.registry
            &&& !e.outside.waiting && crate::phones::endpoint(address) ==> e.core.state.connection
                == (match d.core.state.capture {
                Some(c) => ConnectionView::Reconnecting { phone: c.phone },
                None => ConnectionView::Unreachable {
                    phone: known.phone,
                    connect_address: address,
                },
            })
        }),
{
    broadcast use crate::laws::group_goes_on_all;

    reveal(readdressed);
    reveal(examined);
    reveal(crate::daemon::not_reached);
    reveal(reconnecting);
    reveal(prepared);
    reveal(announced);
}

/// Why a capture cannot start is said of the phone that the connection is
/// about, by its name.
pub proof fn a_refusal_names_the_phone(connection: ConnectionView, phone: PhoneView)
    requires
        ({
            ||| connection == ConnectionView::Unauthorised { phone }
            ||| connection == ConnectionView::Connecting { phone }
            ||| connection == ConnectionView::Reconnecting { phone }
            ||| connection matches ConnectionView::Unreachable { phone: own, .. } && own == phone
        }),
    ensures
        exists|a: Seq<char>, b: Seq<char>|
            reason_for(connection) == #[trigger] (a + phone.name + b),
{
    let none = Seq::<char>::empty();
    match connection {
        ConnectionView::Unauthorised { .. } => {
            let b = " has not accepted the debugging prompt; accept it on the phone"@;
            assert(reason_for(connection) =~= none + phone.name + b);
        },
        ConnectionView::Connecting { .. } => {
            assert(reason_for(connection) =~= "still connecting to "@ + phone.name + none);
        },
        ConnectionView::Reconnecting { .. } => {
            assert(reason_for(connection) =~= "reconnecting to "@ + phone.name + none);
        },
        ConnectionView::Unreachable { connect_address, .. } => {
            let b = reason_for(connection).skip(phone.name.len() as int);
            assert(reason_for(connection).take(phone.name.len() as int) =~= phone.name);
            assert(reason_for(connection) =~= none + phone.name + b);
        },
        _ => {},
    }
}

// ---------------------------------------------------------------------------
// What is looked at first

/// A phone that is alone on the desk, with none selected, is selected for good:
/// that is written down before anything else is done.
pub proof fn a_lone_phone_is_selected_for_good(
    d: DaemonView,
    attached: Seq<AttachedView>,
    verified: Option<Seq<char>>,
)
    requires
        !d.outside.waiting,
        d.core.registry.selected is None,
        attached.len() == 1,
        attached[0].adb_state == "device"@,
    ensures
        ({
            let e = worked_out(d, attached, verified);
            let n = d.outside.trace.len() as int;
            &&& e.outside.trace.len() > n
            &&& e.outside.trace[n] == (ActView::Save {
                registry: RegistryView {
                    selected: Some(attached[0].serial),
                    ..d.core.registry
                },
            })
        }),
{
    broadcast use crate::laws::group_goes_on_all;

    reveal(worked_out);
    reveal(chosen);
    reveal(kept_on_disk);
    reveal(goes_on);
    reveal(leads);
    reveal_strlit("device");
    reveal_strlit("unauthorized");
    assert("device"@.len() != "unauthorized"@.len());
    let c = chosen(d, attached[0].serial);
    let phone = crate::phones::phone_of(attached[0]);
    let connection = ConnectionView::Connecting { phone };
    crate::laws::goes_on_vetted(c, connection, attached, verified);
    let (v, go) = if still_connected(c.core.state.connection, connection, attached) {
        (c, true)
    } else {
        vetted(c, connection, attached, verified)
    };
    crate::laws::goes_on_noticed(v, attached);
    crate::laws::goes_on_concluded(noticed(v, attached), connection, told(attached));
    crate::laws::goes_on_concluded(
        noticed(v, attached),
        ConnectionView::Connected { phone },
        told(attached),
    );
    assert(goes_on(c, v));
}

/// Whether the writer is still there is asked before anything is made of the
/// capture: at once where a capture is to be started or its preview turned, and
/// after the desk was looked at where settings are applied or the watch is kept.
pub proof fn the_writer_is_asked_after(
    d: DaemonView,
    visible: bool,
    style: PreviewStyle,
)
    requires
        !d.outside.waiting,
        d.core.writer is Some,
    ensures
        ({
            let n = d.outside.trace.len() as int;
            let s = started(d, false, style).0.outside.trace;
            let p = previewed(d, visible, style).0.outside.trace;
            &&& s.len() > n && s[n] == ActView::Poll
            &&& p.len() > n && p[n] == ActView::Poll
        }),
        ({
            let m = refreshed(d).0;
            let n = m.outside.trace.len() as int;
            let w = performed(d, OperationView::Watch).0.outside.trace;
            let a = applied(d).0.outside.trace;
            !m.outside.waiting && m.core.writer is Some ==> {
                &&& w.len() > n && w[n] == ActView::Poll
                &&& refreshed(d).1 ==> a.len() > n && a[n] == ActView::Poll
            }
        }),
{
    broadcast use crate::laws::group_goes_on_all;

    reveal(goes_on);
    reveal(leads);
    reveal(started);
    reveal(previewed);
    reveal(applied);
    let r = reaped(d);
    lemma_reaped_polls(d);
    let k = refreshed(r).0;
    assert(goes_on(r, k));
    if let ConnectionView::Connected { phone } = k.core.state.connection {
        assert(goes_on(k, begun(k, phone, style).0));
    }
    assert(goes_on(r, themed(r, style).0));
    let t = themed(r, style).0;
    assert(goes_on(t, turned(t, visible).0));
    let m = refreshed(d).0;
    if !m.outside.waiting && m.core.writer is Some {
        lemma_reaped_polls(m);
        let x = reaped(m);
        if let ConnectionView::Connected { phone } = x.core.state.connection {
            let (y, own) = equipped(x, phone.serial);
            assert(goes_on(x, y));
            if let Ok(view) = own {
                if let (Some(capture), Some(writer)) = (y.core.state.capture, y.core.writer) {
                    assert(goes_on(y, applied_live(y, phone, view, capture, writer).0));
                }
                assert(goes_on(y, applied_idle(y, phone, view).0));
            }
        }
    }
}

proof fn lemma_reaped_polls(d: DaemonView)
    requires
        !d.outside.waiting,
        d.core.writer is Some,
    ensures
        reaped(d).outside.trace.len() > d.outside.trace.len(),
        reaped(d).outside.trace[d.outside.trace.len() as int] == ActView::Poll,
{
    broadcast use crate::laws::group_goes_on_all;

    reveal(goes_on);
    reveal(leads);
    reveal(reaped);
    let p = d.with(polled(d.outside).0);
    let k = prepared(p).hold_writer(None);
    assert(goes_on(p, prepared(p)));
    if let Some(c) = k.core.state.capture {
        assert(goes_on(
            k,
            announced(
                k,
                ConnectionView::Reconnecting { phone: c.phone },
                k.core.state.attached,
            ),
        ));
    }
}

/// Stopping looks at the desk again once the capture has ended.
pub proof fn stopping_looks_again(d: DaemonView)
    requires
        !d.outside.waiting,
    ensures
        ({
            let n = stopped(d).outside.trace.len() as int;
            let t = performed(d, OperationView::Stop).0.outside.trace;
            t.len() > n && t[n] == (ActView::Run {
                argv: seq!["adb"@, "devices"@, "-l"@],
                collect: true,
            })
        }),
{
    broadcast use crate::laws::group_goes_on_all;

    reveal(goes_on);
    reveal(leads);
    reveal(stopped);
    let m = stopped(d);
    let k = m.with(scanned(m.outside).0);
    assert(k.outside.trace.len() > m.outside.trace.len()
        && k.outside.trace[m.outside.trace.len() as int] == (ActView::Run {
        argv: seq!["adb"@, "devices"@, "-l"@],
        collect: true,
    })) by {
        reveal(scanned);
    }
    lemma_refreshed_on(m);
}

/// Looking at the desk goes on from listing the phones.
proof fn lemma_refreshed_on(d: DaemonView)
    ensures
        goes_on(d.with(scanned(d.outside).0), refreshed(d).0),
{
    broadcast use crate::laws::group_goes_on_all;

    reveal(refreshed);
    let (o, scan) = scanned(d.outside);
    let m = d.with(o);
    if let Ok(attached) = scan {
        crate::laws::goes_on_worked_out(m, attached, None);
        if let Some(known) = crate::daemon::awaited(m.core.registry, attached) {
            crate::laws::goes_on_rejoined(m, known, attached);
        }
    }
}

// ---------------------------------------------------------------------------
// The window that stands in

/// The window that stands in for a lost preview is moved off every monitor
/// before the preview takes its place: for whenever it opens again, and now.
pub proof fn the_stand_in_gives_way(
    o: OutsideView,
    style: PreviewStyle,
    position: Option<[i64; 2]>,
)
    requires
        stand_in_hidden(o, style, position).1,
        !stand_in_hidden(o, style, position).0.waiting,
    ensures
        ({
            let t = stand_in_hidden(o, style, position).0.trace;
            let n = o.trace.len() as int;
            hidden(o, PREVIEW_WIDTH as i64).1 matches Ok(at) && {
                &&& t.len() == n + 3
                &&& t[n + 1] == (ActView::Run {
                    argv: seq![
                        "hyprctl"@,
                        "eval"@,
                        reconnect_rule(style.rounding, style.border_size, Some(at)),
                    ],
                    collect: false,
                })
                &&& t[n + 2] == (ActView::Run {
                    argv: seq!["hyprctl"@, "dispatch"@, move_text(RECONNECT_SELECTOR@, at)],
                    collect: false,
                })
            }
        }),
{
    reveal(stand_in_hidden);
    reveal(hidden);
    reveal(crate::capture::commanded);
}

/// It is shown again where the preview was.
pub proof fn the_stand_in_returns(
    o: OutsideView,
    style: PreviewStyle,
    position: Option<[i64; 2]>,
)
    requires
        !o.waiting,
    ensures
        ({
            let t = stand_in_restored(o, style, position).trace;
            let n = o.trace.len() as int;
            &&& t.len() > n
            &&& t[n] == (ActView::Run {
                argv: seq![
                    "hyprctl"@,
                    "eval"@,
                    reconnect_rule(style.rounding, style.border_size, position),
                ],
                collect: false,
            })
            &&& crate::capture::commanded(
                o,
                "eval"@,
                reconnect_rule(style.rounding, style.border_size, position),
            ).1 is Ok ==> t.len() > n + 1 && t[n + 1] == (ActView::Run {
                argv: seq!["hyprctl"@, "dispatch"@, show_text(RECONNECT_SELECTOR@, position)],
                collect: false,
            })
        }),
{
    reveal(stand_in_restored);
    reveal(crate::capture::commanded);
}

/// A capture that could not be resumed is still reconnecting its phone: the
/// connection is as it was, or says so.
pub proof fn a_failed_resume_is_still_reconnecting(d: DaemonView, phone: PhoneView)
    requires
        d.core.writer is None,
        resumed(d, phone).core.writer is None,
        !resumed(d, phone).outside.waiting,
    ensures
        ({
            let e = resumed(d, phone);
            &&& e.core.state.connection == d.core.state.connection || e.core.state.connection == (
            ConnectionView::Reconnecting { phone })
            &&& e.core.state.capture == d.core.state.capture
            &&& e.core.registry == d.core.registry
            &&& e.core.position == d.core.position
        }),
{
    broadcast use crate::laws::group_goes_on_all;

    reveal(resumed);
    reveal(announced);
}

/// Theming tells the compositor of both windows, in the style that was asked
/// for, and leaves the one that stands in where the preview was.
pub proof fn theming_leaves_the_windows_in_place(d: DaemonView, style: PreviewStyle)
    requires
        themed(d, style).1 is Ok,
        !themed(d, style).0.outside.waiting,
    ensures
        ({
            let e = themed(d, style).0;
            let n = d.outside.trace.len() as int;
            &&& e.outside.trace.len() > n + 1
            &&& e.outside.trace[n] == (ActView::Run {
                argv: seq![
                    "hyprctl"@,
                    "eval"@,
                    style_rule(style.rounding, style.border_size),
                ],
                collect: false,
            })
            &&& e.outside.trace[n + 1] == (ActView::Run {
                argv: seq![
                    "hyprctl"@,
                    "eval"@,
                    reconnect_rule(style.rounding, style.border_size, d.core.position),
                ],
                collect: false,
            })
            &&& e.core.position == d.core.position
            &&& e.core.state.preview_style == style
        }),
{
    reveal(themed);
    reveal(crate::capture::commanded);
}

/// A phone that proved to be the known one is written down as it is now, under
/// the identity that it gave; one that gave none, where none is known, is left as
/// it is. Only a phone that is reached over the network can be given a new
/// address.
pub proof fn a_vetted_phone_is_written_down(
    d: DaemonView,
    phone: PhoneView,
    attached: Seq<AttachedView>,
    known: KnownPhoneView,
    serial: Seq<char>,
    address: Seq<char>,
)
    requires
        found(d.core.registry.phones, known_wireless(phone.serial)) == Some(known),
    ensures
        ({
            let (e, go) = vetted(d, ConnectionView::Connecting { phone }, attached, None);
            let (o, stable) = identified(d.outside, phone.serial);
            go && !o.waiting ==> {
                &&& stable is Some ==> e.outside.trace.len() > o.trace.len() && (
                e.outside.trace[o.trace.len() as int] matches ActView::Save { registry } && has_at(
                    registry,
                    phone.serial,
                    phone.name,
                    stable,
                ))
                &&& stable is None ==> e == d.with(o)
            }
        }),
        (forall|i: int|
            0 <= i < d.core.registry.phones.len() && (
            #[trigger] d.core.registry.phones[i]).phone.serial == serial
                ==> d.core.registry.phones[i].transport == Transport::Wired) ==> readdressed(
            d,
            serial,
            address,
        ).0 == d && readdressed(d, serial, address).1 is Err,
{
    reveal(vetted);
    reveal(readdressed);
    let (o, stable) = identified(d.outside, phone.serial);
    if !o.waiting {
        lemma_recalled(d.with(o), phone.serial, phone.name, stable, None, true);
    }
    crate::lists::lemma_first(d.core.registry.phones, known_wireless(serial));
}

} // verus!
