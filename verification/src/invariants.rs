//! What every operation keeps true of what the daemon holds, and what each of
//! them does to the capture and to the settings.

use vstd::prelude::*;

use crate::capture::{consumed, launch_says, located, move_text, polled, PREVIEW_SELECTOR};
use crate::daemon::{
    adb_lost, address_of, announced, awaited, chosen, concluded, confirmed, equal, equipped,
    kept_on_disk, not_reached, noticed, pairing, persisted, prepared, published, recalled,
    reconnecting, refreshed, registry_saved, rejoined, replaced, resumed, settings_for,
    still_connected, usable_as, vetted, worked_out, CoreView, DaemonView,
};
use crate::laws::{
    alive, alone, any_sent, clients_have_the_state, extends, goes_on, last_save, last_sent,
    launched_once, launches, leads, lemma_last_save, lemma_sent_later, lemma_tells_caught_up,
    single, steps, tells, yields,
};
use crate::lists::{first, found, lemma_first};
use crate::operations::{
    abandoned, adb_refreshed, adjusted, applied, applied_idle, applied_live, attached_anew, begun,
    capture_of, cleared, coupled, described, dismissed, emptied, examined, followed, following,
    in_use, launched, placed, previewed, readdressed, reaped, refusal, relaunched, rolled_back, same_device,
    selected, started, stopped, themed, turned, valued,
};
use crate::outside::{ActView, AnswerView};
use crate::phones::{
    answered, forgotten, has_serial, identified, joined, key_for, known_hardware, known_serial,
    known_wireless, paired, parted, resolved, scanned, told, AttachedView, RegistryView,
};
use crate::protocol;
use crate::protocol::{
    CaptureView, ConnectionView, KnownPhoneView, PairingFailure, PhoneView, PreviewStyle, StateView,
    Transport,
};
use crate::requests::{fresh, performed, OperationView};
use crate::settings::{
    accepted, changed, changes_stay_allowed, comparable, equal_states, equals, frame_size,
    inspected, opened_settings_are_allowed, sound_list, standing, CameraSettingsView,
    SettingValueView, SettingsStateView,
};
use crate::table::lookup;

verus! {

/// What is always true of a state: its settings are some phone's real ones, and
/// nothing reconnects but a capture that was requested.
#[verifier::opaque]
pub open spec fn true_state(state: StateView) -> bool {
    &&& state.settings matches Some(settings) ==> standing(settings)
    &&& state.connection is Reconnecting ==> state.capture is Some
}

/// What is always true of what the daemon holds: its state, and that nothing
/// writes but for a capture that was requested.
#[verifier::opaque]
pub open spec fn coherent(core: CoreView) -> bool {
    &&& true_state(core.state)
    &&& core.writer is Some ==> core.state.capture is Some
}

/// Whether some settings are others, or equal to them as numbers go.
pub open spec fn amounts_to(held: CameraSettingsView, asked: CameraSettingsView) -> bool {
    held == asked || equals(asked, held)
}

/// The same of a phone's settings.
pub open spec fn came_about(held: Option<SettingsStateView>, asked: SettingsStateView) -> bool {
    held matches Some(s) && (s == asked || equal_states(asked, s))
}

/// Whether a state is the one that was asked for, or was equal to it already.
pub open spec fn comes_to(held: StateView, asked: StateView) -> bool {
    held == asked || equal(asked, held)
}

broadcast proof fn keeps_published(d: DaemonView, state: StateView)
    requires
        coherent(d.core),
        true_state(state),
        d.core.writer is Some ==> state.capture is Some,
    ensures
        coherent((#[trigger] published(d, state)).core),
        !d.outside.waiting ==> comes_to(published(d, state).core.state, state),
        d.outside.waiting ==> published(d, state) == d,
        published(d, state).core.writer == d.core.writer,
        published(d, state).core.registry == d.core.registry,
        published(d, state).core.position == d.core.position,
        published(d, state).outside.waiting == d.outside.waiting,
{
    reveal(coherent);
}

broadcast group group_keeps_published {
    keeps_published,
}

broadcast proof fn keeps_announced(
    d: DaemonView,
    connection: ConnectionView,
    attached: Seq<protocol::AttachedView>,
)
    requires
        coherent(d.core),
        connection is Reconnecting ==> d.core.state.capture is Some,
    ensures
        coherent((#[trigger] announced(d, connection, attached)).core),
        announced(d, connection, attached).core.state.capture == d.core.state.capture,
        announced(d, connection, attached).core.writer == d.core.writer,
        announced(d, connection, attached).core.registry == d.core.registry,
        announced(d, connection, attached).core.position == d.core.position,
        !announced(d, connection, attached).outside.waiting
            ==> announced(d, connection, attached).core.state.connection == connection,
        d.outside.waiting ==> announced(d, connection, attached) == d,
{
    broadcast use group_keeps_published;
    broadcast use crate::laws::group_goes_on_all;

    reveal(coherent);
    reveal(true_state);
    reveal(announced);
}

broadcast proof fn keeps_prepared(d: DaemonView)
    requires
        coherent(d.core),
    ensures
        coherent((#[trigger] prepared(d)).core),
        prepared(d).core.state == d.core.state,
        prepared(d).core.writer == d.core.writer,
        prepared(d).core.registry == d.core.registry,
{
    broadcast use group_keeps_published;
    broadcast use crate::laws::group_goes_on_all;

    reveal(coherent);
    reveal(true_state);
    reveal(prepared);
}

broadcast proof fn keeps_kept_on_disk(d: DaemonView)
    requires
        coherent(d.core),
    ensures
        coherent((#[trigger] kept_on_disk(d)).0.core),
        kept_on_disk(d).0.core == d.core,
{
    broadcast use group_keeps_published;
    broadcast use crate::laws::group_goes_on_all;

    reveal(coherent);
    reveal(true_state);
    reveal(kept_on_disk);
}

broadcast group group_keeps_publish {
    keeps_published,
    keeps_announced,
    keeps_prepared,
    keeps_kept_on_disk,
}

broadcast proof fn keeps_reconnecting(d: DaemonView, connection: ConnectionView)
    requires
        coherent(d.core),
        connection !is Reconnecting,
    ensures
        coherent((#[trigger] reconnecting(d, connection)).0.core),
        reconnecting(d, connection).0.core.state == d.core.state,
        reconnecting(d, connection).0.core.registry == d.core.registry,
        reconnecting(d, connection).1 is Reconnecting ==> d.core.state.capture is Some,
{
    broadcast use group_keeps_publish;
    broadcast use crate::laws::group_goes_on_all;

    reveal(coherent);
    reveal(true_state);
    reveal(reconnecting);
}

broadcast proof fn keeps_registry_saved(d: DaemonView)
    requires
        coherent(d.core),
    ensures
        coherent((#[trigger] registry_saved(d)).core),
        registry_saved(d).core == d.core,
{
    broadcast use group_keeps_publish;
    broadcast use crate::laws::group_goes_on_all;

    reveal(coherent);
    reveal(true_state);
    reveal(registry_saved);
}

broadcast proof fn keeps_chosen(d: DaemonView, serial: Seq<char>)
    requires
        coherent(d.core),
    ensures
        coherent((#[trigger] chosen(d, serial)).core),
        chosen(d, serial).core.state == d.core.state,
        chosen(d, serial).core.writer == d.core.writer,
        !chosen(d, serial).outside.waiting
            ==> chosen(d, serial).core.registry.selected == Some(serial),
{
    broadcast use group_keeps_publish;
    broadcast use crate::laws::group_goes_on_all;

    reveal(coherent);
    reveal(true_state);
    reveal(chosen);
}

broadcast proof fn keeps_persisted(d: DaemonView, serial: Seq<char>, settings: CameraSettingsView)
    requires
        coherent(d.core),
    ensures
        coherent((#[trigger] persisted(d, serial, settings)).0.core),
        persisted(d, serial, settings).0.core.state == d.core.state,
        persisted(d, serial, settings).0.core.writer == d.core.writer,
        persisted(d, serial, settings).0.core.position == d.core.position,
        !persisted(d, serial, settings).0.outside.waiting && persisted(d, serial, settings).1 is Ok
            ==> persisted(d, serial, settings).0.core.registry == (RegistryView {
            settings: d.core.registry.settings.insert(key_for(d.core.registry, serial), settings),
            ..d.core.registry
        }),
        !persisted(d, serial, settings).0.outside.waiting && persisted(d, serial, settings).1 is Err
            ==> persisted(d, serial, settings).0.core.registry == d.core.registry,
{
    broadcast use group_keeps_publish;
    broadcast use crate::laws::group_goes_on_all;

    reveal(coherent);
    reveal(true_state);
    reveal(persisted);
}

broadcast proof fn keeps_equipped(d: DaemonView, serial: Seq<char>)
    requires
        coherent(d.core),
    ensures
        coherent((#[trigger] equipped(d, serial)).0.core),
        equipped(d, serial).0.core.state.capture == d.core.state.capture,
        equipped(d, serial).0.core.writer == d.core.writer,
        equipped(d, serial).0.core.registry == d.core.registry,
        equipped(d, serial).0.core.state.connection == d.core.state.connection,
        equipped(d, serial).1 matches Ok(settings)
            ==> standing(settings)
                && settings.phone == serial
                && (equipped(d, serial).0.outside.waiting || equipped(d, serial).0.core.state.settings == Some(settings)),
{
    broadcast use group_keeps_publish;
    broadcast use crate::laws::group_goes_on_all;

    reveal(coherent);
    reveal(true_state);
    reveal(equipped);
    sound_list(d.outside, serial);
    let saved = lookup(d.core.registry.settings, key_for(d.core.registry, serial));
    match inspected(d.outside, serial).1 {
        Ok(lenses) => opened_settings_are_allowed(serial, lenses, saved),
        Err(_) => {},
    }
}

broadcast group group_keeps_hold {
    keeps_published,
    keeps_announced,
    keeps_prepared,
    keeps_kept_on_disk,
    keeps_reconnecting,
    keeps_registry_saved,
    keeps_chosen,
    keeps_persisted,
    keeps_equipped,
}

broadcast proof fn keeps_adb_lost(d: DaemonView)
    requires
        coherent(d.core),
    ensures
        coherent((#[trigger] adb_lost(d)).core),
        adb_lost(d).core.state.capture == d.core.state.capture,
        adb_lost(d).core.registry == d.core.registry,
{
    broadcast use group_keeps_hold;
    broadcast use crate::laws::group_goes_on_all;

    reveal(coherent);
    reveal(true_state);
    reveal(adb_lost);
}

broadcast proof fn keeps_resumed(d: DaemonView, phone: PhoneView)
    requires
        coherent(d.core),
    ensures
        coherent((#[trigger] resumed(d, phone)).core),
        resumed(d, phone).core.state.capture == d.core.state.capture,
        resumed(d, phone).core.registry == d.core.registry,
{
    broadcast use group_keeps_hold;
    broadcast use crate::laws::group_goes_on_all;

    reveal(coherent);
    reveal(true_state);
    reveal(resumed);
}

broadcast proof fn keeps_recalled(
    d: DaemonView,
    address: Seq<char>,
    name: Seq<char>,
    stable: Option<Seq<char>>,
    previous: Option<Seq<char>>,
    select: bool,
)
    requires
        coherent(d.core),
    ensures
        coherent((#[trigger] recalled(d, address, name, stable, previous, select)).core),
        recalled(d, address, name, stable, previous, select).core.state == d.core.state,
        recalled(d, address, name, stable, previous, select).core.writer == d.core.writer,
{
    broadcast use group_keeps_hold;
    broadcast use crate::laws::group_goes_on_all;

    reveal(coherent);
    reveal(true_state);
    reveal(recalled);
}

broadcast proof fn keeps_noticed(d: DaemonView, attached: Seq<AttachedView>)
    requires
        coherent(d.core),
    ensures
        coherent((#[trigger] noticed(d, attached)).core),
        noticed(d, attached).core.state == d.core.state,
        noticed(d, attached).core.writer == d.core.writer,
{
    broadcast use group_keeps_hold;
    broadcast use crate::laws::group_goes_on_all;

    reveal(coherent);
    reveal(true_state);
    reveal(noticed);
}

broadcast proof fn keeps_not_reached(
    d: DaemonView,
    phone: PhoneView,
    connect_address: Seq<char>,
    attached: Seq<protocol::AttachedView>,
)
    requires
        coherent(d.core),
    ensures
        coherent((#[trigger] not_reached(d, phone, connect_address, attached)).core),
        not_reached(d, phone, connect_address, attached).core.state.capture == d.core.state.capture,
        not_reached(d, phone, connect_address, attached).core.registry == d.core.registry,
{
    broadcast use group_keeps_hold;
    broadcast use crate::laws::group_goes_on_all;

    reveal(coherent);
    reveal(true_state);
    reveal(not_reached);
}

broadcast group group_keeps_registry {
    keeps_published,
    keeps_announced,
    keeps_prepared,
    keeps_kept_on_disk,
    keeps_reconnecting,
    keeps_registry_saved,
    keeps_chosen,
    keeps_persisted,
    keeps_equipped,
    keeps_adb_lost,
    keeps_resumed,
    keeps_recalled,
    keeps_noticed,
    keeps_not_reached,
}

broadcast proof fn keeps_confirmed(
    d: DaemonView,
    phone: PhoneView,
    attached: Seq<protocol::AttachedView>,
)
    requires
        coherent(d.core),
    ensures
        coherent((#[trigger] confirmed(d, phone, attached)).core),
        confirmed(d, phone, attached).core.state.capture == d.core.state.capture,
{
    broadcast use group_keeps_registry;
    broadcast use crate::laws::group_goes_on_all;

    reveal(coherent);
    reveal(true_state);
    reveal(confirmed);
}

broadcast proof fn keeps_vetted(
    d: DaemonView,
    connection: ConnectionView,
    attached: Seq<AttachedView>,
    verified: Option<Seq<char>>,
)
    requires
        coherent(d.core),
    ensures
        coherent((#[trigger] vetted(d, connection, attached, verified)).0.core),
        vetted(d, connection, attached, verified).0.core.state.capture == d.core.state.capture,
{
    broadcast use group_keeps_registry;
    broadcast use crate::laws::group_goes_on_all;

    reveal(coherent);
    reveal(true_state);
    reveal(vetted);
}

broadcast group group_keeps_confirm {
    keeps_published,
    keeps_announced,
    keeps_prepared,
    keeps_kept_on_disk,
    keeps_reconnecting,
    keeps_registry_saved,
    keeps_chosen,
    keeps_persisted,
    keeps_equipped,
    keeps_adb_lost,
    keeps_resumed,
    keeps_recalled,
    keeps_noticed,
    keeps_not_reached,
    keeps_confirmed,
    keeps_vetted,
}

broadcast proof fn keeps_concluded(
    d: DaemonView,
    connection: ConnectionView,
    attached: Seq<protocol::AttachedView>,
)
    requires
        coherent(d.core),
        connection !is Reconnecting,
    ensures
        coherent((#[trigger] concluded(d, connection, attached)).core),
        concluded(d, connection, attached).core.state.capture == d.core.state.capture,
{
    broadcast use group_keeps_confirm;
    broadcast use crate::laws::group_goes_on_all;

    reveal(coherent);
    reveal(true_state);
    reveal(concluded);
}

broadcast group group_keeps_conclude {
    keeps_published,
    keeps_announced,
    keeps_prepared,
    keeps_kept_on_disk,
    keeps_reconnecting,
    keeps_registry_saved,
    keeps_chosen,
    keeps_persisted,
    keeps_equipped,
    keeps_adb_lost,
    keeps_resumed,
    keeps_recalled,
    keeps_noticed,
    keeps_not_reached,
    keeps_confirmed,
    keeps_vetted,
    keeps_concluded,
}

broadcast proof fn keeps_worked_out(
    d: DaemonView,
    attached: Seq<AttachedView>,
    verified: Option<Seq<char>>,
)
    requires
        coherent(d.core),
    ensures
        coherent((#[trigger] worked_out(d, attached, verified)).core),
        worked_out(d, attached, verified).core.state.capture == d.core.state.capture,
{
    broadcast use group_keeps_conclude;
    broadcast use crate::laws::group_goes_on_all;

    reveal(coherent);
    reveal(true_state);
    reveal(worked_out);
}

broadcast group group_keeps_work {
    keeps_published,
    keeps_announced,
    keeps_prepared,
    keeps_kept_on_disk,
    keeps_reconnecting,
    keeps_registry_saved,
    keeps_chosen,
    keeps_persisted,
    keeps_equipped,
    keeps_adb_lost,
    keeps_resumed,
    keeps_recalled,
    keeps_noticed,
    keeps_not_reached,
    keeps_confirmed,
    keeps_vetted,
    keeps_concluded,
    keeps_worked_out,
}

broadcast proof fn keeps_rejoined(d: DaemonView, known: KnownPhoneView, attached: Seq<AttachedView>)
    requires
        coherent(d.core),
    ensures
        coherent((#[trigger] rejoined(d, known, attached)).0.core),
        rejoined(d, known, attached).0.core.state.capture == d.core.state.capture,
{
    broadcast use group_keeps_work;
    broadcast use crate::laws::group_goes_on_all;

    reveal(coherent);
    reveal(true_state);
    reveal(rejoined);
}

broadcast group group_keeps_rejoin {
    keeps_published,
    keeps_announced,
    keeps_prepared,
    keeps_kept_on_disk,
    keeps_reconnecting,
    keeps_registry_saved,
    keeps_chosen,
    keeps_persisted,
    keeps_equipped,
    keeps_adb_lost,
    keeps_resumed,
    keeps_recalled,
    keeps_noticed,
    keeps_not_reached,
    keeps_confirmed,
    keeps_vetted,
    keeps_concluded,
    keeps_worked_out,
    keeps_rejoined,
}

broadcast proof fn keeps_refreshed(d: DaemonView)
    requires
        coherent(d.core),
    ensures
        coherent((#[trigger] refreshed(d)).0.core),
        refreshed(d).0.core.state.capture == d.core.state.capture,
{
    broadcast use group_keeps_rejoin;
    broadcast use crate::laws::group_goes_on_all;

    reveal(coherent);
    reveal(true_state);
    reveal(refreshed);
}

broadcast group group_keeps_refresh {
    keeps_published,
    keeps_announced,
    keeps_prepared,
    keeps_kept_on_disk,
    keeps_reconnecting,
    keeps_registry_saved,
    keeps_chosen,
    keeps_persisted,
    keeps_equipped,
    keeps_adb_lost,
    keeps_resumed,
    keeps_recalled,
    keeps_noticed,
    keeps_not_reached,
    keeps_confirmed,
    keeps_vetted,
    keeps_concluded,
    keeps_worked_out,
    keeps_rejoined,
    keeps_refreshed,
}

broadcast group group_keeps_daemon {
    keeps_published,
    keeps_announced,
    keeps_prepared,
    keeps_kept_on_disk,
    keeps_reconnecting,
    keeps_registry_saved,
    keeps_chosen,
    keeps_persisted,
    keeps_equipped,
    keeps_adb_lost,
    keeps_recalled,
    keeps_not_reached,
    keeps_refreshed,
}

broadcast proof fn keeps_stopped(d: DaemonView)
    requires
        coherent(d.core),
    ensures
        coherent((#[trigger] stopped(d)).core),
        !stopped(d).outside.waiting
            ==> stopped(d).core.state.capture is None && stopped(d).core.writer is None,
        stopped(d).core.registry == d.core.registry,
{
    broadcast use group_keeps_daemon;
    broadcast use crate::laws::group_goes_on_all;

    reveal(coherent);
    reveal(true_state);
    reveal(stopped);
}

broadcast proof fn keeps_reaped(d: DaemonView)
    requires
        coherent(d.core),
    ensures
        coherent((#[trigger] reaped(d)).core),
        reaped(d).core.state.capture == d.core.state.capture,
        reaped(d).core.writer is Some ==> reaped(d).core.writer == d.core.writer,
        reaped(d).core.registry == d.core.registry,
{
    broadcast use group_keeps_daemon;
    broadcast use crate::laws::group_goes_on_all;

    reveal(coherent);
    reveal(true_state);
    reveal(reaped);
}

broadcast proof fn keeps_launched(
    d: DaemonView,
    phone: PhoneView,
    style: PreviewStyle,
    settings: CameraSettingsView,
    node: Seq<char>,
)
    requires
        coherent(d.core),
    ensures
        coherent((#[trigger] launched(d, phone, style, settings, node)).0.core),
        !launched(d, phone, style, settings, node).0.outside.waiting
            && launched(d, phone, style, settings, node).1 is Ok
            ==> launched(d, phone, style, settings, node).0.core.state.capture == Some(
        CaptureView {
            phone,
            node,
            size: frame_size(settings),
            stay_awake: false,
            preview: true,
        },
        ),
        launched(d, phone, style, settings, node).1 is Err
            ==> launched(d, phone, style, settings, node).0.core.state == d.core.state,
{
    broadcast use group_keeps_daemon;
    broadcast use crate::laws::group_goes_on_all;

    reveal(coherent);
    reveal(true_state);
    reveal(launched);
}

broadcast proof fn keeps_themed(d: DaemonView, style: PreviewStyle)
    requires
        coherent(d.core),
    ensures
        coherent((#[trigger] themed(d, style)).0.core),
        themed(d, style).0.core.state.capture == d.core.state.capture,
        themed(d, style).0.core.writer == d.core.writer,
{
    broadcast use group_keeps_daemon;
    broadcast use crate::laws::group_goes_on_all;

    reveal(coherent);
    reveal(true_state);
    reveal(themed);
}

broadcast proof fn keeps_turned(d: DaemonView, visible: bool)
    requires
        coherent(d.core),
    ensures
        coherent((#[trigger] turned(d, visible)).0.core),
        turned(d, visible).0.core.state == d.core.state,
        turned(d, visible).0.core.writer == d.core.writer,
{
    broadcast use group_keeps_daemon;
    broadcast use crate::laws::group_goes_on_all;

    reveal(coherent);
    reveal(true_state);
    reveal(turned);
}

broadcast proof fn keeps_attached_anew(d: DaemonView, address: Seq<char>)
    requires
        coherent(d.core),
    ensures
        coherent((#[trigger] attached_anew(d, address)).0.core),
        attached_anew(d, address).0.core.state.capture == d.core.state.capture,
{
    broadcast use group_keeps_daemon;
    broadcast use crate::laws::group_goes_on_all;

    reveal(coherent);
    reveal(true_state);
    reveal(attached_anew);
}

broadcast proof fn keeps_followed(
    d: DaemonView,
    serial: Seq<char>,
    address: Seq<char>,
    name: Seq<char>,
    stable: Seq<char>,
    attached: Seq<protocol::AttachedView>,
)
    requires
        coherent(d.core),
    ensures
        coherent((#[trigger] followed(d, serial, address, name, stable, attached)).0.core),
        followed(d, serial, address, name, stable, attached).0.core.state.capture is Some <==> d.core.state.capture is Some,
{
    broadcast use group_keeps_daemon;
    broadcast use crate::laws::group_goes_on_all;

    reveal(coherent);
    reveal(true_state);
    reveal(followed);
}

broadcast proof fn keeps_emptied(d: DaemonView)
    requires
        coherent(d.core),
    ensures
        coherent((#[trigger] emptied(d)).core),
        emptied(d).core.state.capture == d.core.state.capture,
{
    broadcast use group_keeps_daemon;
    broadcast use crate::laws::group_goes_on_all;

    reveal(coherent);
    reveal(true_state);
    reveal(emptied);
}

broadcast proof fn keeps_adb_refreshed(d: DaemonView)
    requires
        coherent(d.core),
    ensures
        coherent((#[trigger] adb_refreshed(d)).0.core),
        adb_refreshed(d).0.core.state.capture == d.core.state.capture,
{
    broadcast use group_keeps_daemon;
    broadcast use crate::laws::group_goes_on_all;

    reveal(coherent);
    reveal(true_state);
    reveal(adb_refreshed);
}

broadcast proof fn keeps_abandoned(d: DaemonView)
    requires
        coherent(d.core),
    ensures
        coherent((#[trigger] abandoned(d)).0.core),
        abandoned(d).0.core.state.capture == d.core.state.capture,
{
    broadcast use group_keeps_daemon;
    broadcast use crate::laws::group_goes_on_all;

    reveal(coherent);
    reveal(true_state);
    reveal(abandoned);
}

broadcast proof fn keeps_rolled_back(
    d: DaemonView,
    phone: PhoneView,
    view: SettingsStateView,
    capture: CaptureView,
    position: Option<[i64; 2]>,
    error: Seq<char>,
)
    requires
        coherent(d.core),
        standing(view),
        d.outside.waiting || d.core.writer is None,
        d.core.state.connection !is Reconnecting,
    ensures
        coherent((#[trigger] rolled_back(d, phone, view, capture, position, error)).0.core),
        rolled_back(d, phone, view, capture, position, error).1 is Err,
        !rolled_back(d, phone, view, capture, position, error).0.outside.waiting
            ==> (rolled_back(d, phone, view, capture, position, error).0.core.state.settings matches Some(s) && amounts_to(s.applied, view.applied)),
        !rolled_back(d, phone, view, capture, position, error).0.outside.waiting
            ==> rolled_back(d, phone, view, capture, position, error).0.core.state.capture is None
                || rolled_back(d, phone, view, capture, position, error).0.core.state.capture == Some(capture),
        !rolled_back(d, phone, view, capture, position, error).0.outside.waiting
            && rolled_back(d, phone, view, capture, position, error).0.core.state.capture is Some
            ==> rolled_back(d, phone, view, capture, position, error).0.core.writer is Some,
        !rolled_back(d, phone, view, capture, position, error).0.outside.waiting
            && rolled_back(d, phone, view, capture, position, error).1 == refusal(
                "capture_failed"@,
                (rolled_back(d, phone, view, capture, position, error).1->Err_0).message,
            )
            ==> lookup(
            rolled_back(d, phone, view, capture, position, error).0.core.registry.settings,
            key_for(d.core.registry, phone.serial),
        ) == Some(view.applied),
{
    broadcast use group_keeps_daemon;
    broadcast use crate::laws::group_goes_on_all;

    reveal(coherent);
    reveal(true_state);
    reveal(rolled_back);
    reveal_strlit("capture_failed");
    reveal_strlit("rollback_failed");
    assert("capture_failed"@.len() == 14 && "rollback_failed"@.len() == 15);
}

broadcast proof fn keeps_cleared(
    d: DaemonView,
    view: SettingsStateView,
    node: Seq<char>,
    writer: u32,
)
    requires
        coherent(d.core),
        standing(view),
    ensures
        coherent((#[trigger] cleared(d, view, node, writer)).0.core),
        cleared(d, view, node, writer).0.core.state.capture == d.core.state.capture,
        cleared(d, view, node, writer).0.core.writer == d.core.writer,
        cleared(d, view, node, writer).0.core.registry == d.core.registry,
        cleared(d, view, node, writer).0.core.state.connection == d.core.state.connection,
        cleared(d, view, node, writer).1 is Ok ==> cleared(d, view, node, writer).0.core == d.core,
        cleared(d, view, node, writer).1 is Err && !cleared(d, view, node, writer).0.outside.waiting
            ==> cleared(d, view, node, writer).0.core.state.settings == d.core.state.settings
                || (cleared(d, view, node, writer).0.core.state.settings matches Some(s) && amounts_to(s.applied, view.applied) && amounts_to(s.pending, view.pending)),
{
    broadcast use group_keeps_daemon;
    broadcast use crate::laws::group_goes_on_all;

    reveal(coherent);
    reveal(true_state);
    reveal(cleared);
}

broadcast proof fn keeps_placed(d: DaemonView, capture: CaptureView)
    requires
        coherent(d.core),
    ensures
        coherent((#[trigger] placed(d, capture)).0.core),
        placed(d, capture).0.core == d.core,
{
    broadcast use group_keeps_daemon;
    broadcast use crate::laws::group_goes_on_all;

    reveal(coherent);
    reveal(true_state);
    reveal(placed);
}

broadcast proof fn keeps_applied_idle(d: DaemonView, phone: PhoneView, view: SettingsStateView)
    requires
        coherent(d.core),
        standing(view),
    ensures
        coherent((#[trigger] applied_idle(d, phone, view)).0.core),
        applied_idle(d, phone, view).0.core.state.capture == d.core.state.capture,
        !applied_idle(d, phone, view).0.outside.waiting && applied_idle(d, phone, view).1 is Ok
            ==> came_about(applied_idle(d, phone, view).0.core.state.settings, accepted(view)),
{
    broadcast use group_keeps_daemon;
    broadcast use crate::laws::group_goes_on_all;

    reveal(coherent);
    reveal(true_state);
    reveal(applied_idle);
}

broadcast group group_keeps_parts {
    keeps_published,
    keeps_announced,
    keeps_prepared,
    keeps_kept_on_disk,
    keeps_reconnecting,
    keeps_registry_saved,
    keeps_chosen,
    keeps_persisted,
    keeps_equipped,
    keeps_adb_lost,
    keeps_recalled,
    keeps_not_reached,
    keeps_refreshed,
    keeps_stopped,
    keeps_reaped,
    keeps_launched,
    keeps_themed,
    keeps_turned,
    keeps_attached_anew,
    keeps_followed,
    keeps_emptied,
    keeps_adb_refreshed,
    keeps_abandoned,
    keeps_rolled_back,
    keeps_cleared,
    keeps_placed,
    keeps_applied_idle,
}

broadcast proof fn keeps_begun(d: DaemonView, phone: PhoneView, style: PreviewStyle)
    requires
        coherent(d.core),
    ensures
        coherent((#[trigger] begun(d, phone, style)).0.core),
        !begun(d, phone, style).0.outside.waiting && begun(d, phone, style).1 is Ok
            ==> (begun(d, phone, style).0.core.state.capture matches Some(c) && c.phone == phone && c.preview),
        begun(d, phone, style).1 is Err
            ==> begun(d, phone, style).0.core.state.capture == d.core.state.capture,
{
    broadcast use group_keeps_parts;
    broadcast use crate::laws::group_goes_on_all;

    reveal(coherent);
    reveal(true_state);
    reveal(begun);
}

broadcast proof fn keeps_previewed(d: DaemonView, visible: bool, style: PreviewStyle)
    requires
        coherent(d.core),
    ensures
        coherent((#[trigger] previewed(d, visible, style)).0.core),
        previewed(d, visible, style).0.core.state.capture is Some <==> d.core.state.capture is Some,
        !previewed(d, visible, style).0.outside.waiting && previewed(d, visible, style).1 is Ok
            ==> (previewed(d, visible, style).0.core.state.capture matches Some(c) && c.preview == visible),
{
    broadcast use group_keeps_parts;
    broadcast use crate::laws::group_goes_on_all;

    reveal(coherent);
    reveal(true_state);
    reveal(previewed);
}

broadcast proof fn keeps_coupled(
    d: DaemonView,
    pair_address: Seq<char>,
    code: Seq<char>,
    address: Seq<char>,
)
    requires
        coherent(d.core),
    ensures
        coherent((#[trigger] coupled(d, pair_address, code, address)).0.core),
{
    broadcast use group_keeps_parts;
    broadcast use crate::laws::group_goes_on_all;

    reveal(coherent);
    reveal(true_state);
    reveal(coupled);
}

broadcast proof fn keeps_examined(
    d: DaemonView,
    known: KnownPhoneView,
    serial: Seq<char>,
    address: Seq<char>,
)
    requires
        coherent(d.core),
    ensures
        coherent((#[trigger] examined(d, known, serial, address)).0.core),
        examined(d, known, serial, address).0.core.state.capture is Some <==> d.core.state.capture is Some,
{
    broadcast use group_keeps_parts;
    broadcast use crate::laws::group_goes_on_all;

    reveal(coherent);
    reveal(true_state);
    reveal(examined);
}

broadcast proof fn keeps_dismissed(d: DaemonView, serial: Seq<char>)
    requires
        coherent(d.core),
    ensures
        coherent((#[trigger] dismissed(d, serial)).0.core),
        !dismissed(d, serial).0.outside.waiting && dismissed(d, serial).1 is Ok
            ==> !capture_of(dismissed(d, serial).0.core.state, serial),
{
    broadcast use group_keeps_parts;
    broadcast use crate::laws::group_goes_on_all;

    reveal(coherent);
    reveal(true_state);
    reveal(dismissed);
}

broadcast proof fn keeps_selected(d: DaemonView, serial: Seq<char>)
    requires
        coherent(d.core),
    ensures
        coherent((#[trigger] selected(d, serial)).0.core),
        !selected(d, serial).0.outside.waiting && selected(d, serial).1 is Ok
            ==> selected(d, serial).0.core.state.capture is None
                || capture_of(selected(d, serial).0.core.state, serial),
{
    broadcast use group_keeps_parts;
    broadcast use crate::laws::group_goes_on_all;

    reveal(coherent);
    reveal(true_state);
    reveal(selected);
}

broadcast proof fn keeps_adjusted(d: DaemonView, name: Seq<char>, json: Seq<char>)
    requires
        coherent(d.core),
    ensures
        coherent((#[trigger] adjusted(d, name, json)).0.core),
        adjusted(d, name, json).0.core.state.capture == d.core.state.capture,
{
    broadcast use group_keeps_parts;
    broadcast use crate::laws::group_goes_on_all;

    reveal(coherent);
    reveal(true_state);
    reveal(adjusted);
    let e = refreshed(d).0;
    match e.core.state.connection {
        ConnectionView::Connected { phone } => {
            let (f, r) = equipped(e, phone.serial);
            match r {
                Ok(settings) => {
                    let (o, value) = crate::operations::valued(f.outside, json);
                    changes_stay_allowed(settings, name, value);
                },
                Err(_) => {},
            }
        },
        _ => {},
    }
}

broadcast proof fn keeps_relaunched(
    d: DaemonView,
    phone: PhoneView,
    view: SettingsStateView,
    capture: CaptureView,
    position: Option<[i64; 2]>,
)
    requires
        coherent(d.core),
        standing(view),
        d.core.state.connection !is Reconnecting,
    ensures
        coherent((#[trigger] relaunched(d, phone, view, capture, position)).0.core),
        !relaunched(d, phone, view, capture, position).0.outside.waiting
            && relaunched(d, phone, view, capture, position).1 is Ok
            ==> came_about(relaunched(d, phone, view, capture, position).0.core.state.settings, accepted(view))
                && (relaunched(d, phone, view, capture, position).0.core.state.capture matches Some(c) && c.size == frame_size(view.pending) && c.node == capture.node && c.preview == capture.preview && c.phone == phone),
        !relaunched(d, phone, view, capture, position).0.outside.waiting
            && relaunched(d, phone, view, capture, position).1 is Err
            ==> (relaunched(d, phone, view, capture, position).0.core.state.settings matches Some(s) && amounts_to(s.applied, view.applied))
                && (relaunched(d, phone, view, capture, position).0.core.state.capture is None || relaunched(d, phone, view, capture, position).0.core.state.capture == Some(capture)),
{
    broadcast use group_keeps_parts;
    broadcast use crate::laws::group_goes_on_all;

    reveal(coherent);
    reveal(true_state);
    reveal(relaunched);
}

broadcast group group_keeps_more {
    keeps_published,
    keeps_announced,
    keeps_prepared,
    keeps_kept_on_disk,
    keeps_reconnecting,
    keeps_registry_saved,
    keeps_chosen,
    keeps_persisted,
    keeps_equipped,
    keeps_adb_lost,
    keeps_recalled,
    keeps_not_reached,
    keeps_refreshed,
    keeps_stopped,
    keeps_reaped,
    keeps_launched,
    keeps_themed,
    keeps_turned,
    keeps_attached_anew,
    keeps_followed,
    keeps_emptied,
    keeps_adb_refreshed,
    keeps_abandoned,
    keeps_rolled_back,
    keeps_cleared,
    keeps_placed,
    keeps_applied_idle,
    keeps_begun,
    keeps_previewed,
    keeps_coupled,
    keeps_examined,
    keeps_dismissed,
    keeps_selected,
    keeps_adjusted,
    keeps_relaunched,
}

broadcast proof fn keeps_started(d: DaemonView, stay_awake: bool, style: PreviewStyle)
    requires
        coherent(d.core),
    ensures
        coherent((#[trigger] started(d, stay_awake, style)).0.core),
        !started(d, stay_awake, style).0.outside.waiting && started(d, stay_awake, style).1 is Ok
            ==> started(d, stay_awake, style).0.core.state.capture is Some,
        started(d, stay_awake, style).1 is Err
            ==> started(d, stay_awake, style).0.core.state.capture == d.core.state.capture,
{
    broadcast use group_keeps_more;
    broadcast use crate::laws::group_goes_on_all;

    reveal(coherent);
    reveal(true_state);
    reveal(started);
}

broadcast proof fn keeps_readdressed(d: DaemonView, serial: Seq<char>, address: Seq<char>)
    requires
        coherent(d.core),
    ensures
        coherent((#[trigger] readdressed(d, serial, address)).0.core),
        readdressed(d, serial, address).0.core.state.capture is Some <==> d.core.state.capture is Some,
{
    broadcast use group_keeps_more;
    broadcast use crate::laws::group_goes_on_all;

    reveal(coherent);
    reveal(true_state);
    reveal(readdressed);
}

broadcast proof fn keeps_applied_live(
    d: DaemonView,
    phone: PhoneView,
    view: SettingsStateView,
    capture: CaptureView,
    writer: u32,
)
    requires
        coherent(d.core),
        standing(view),
        d.outside.waiting || d.core.state.settings == Some(view),
        d.core.state.connection !is Reconnecting,
    ensures
        coherent((#[trigger] applied_live(d, phone, view, capture, writer)).0.core),
        !applied_live(d, phone, view, capture, writer).0.outside.waiting
            && applied_live(d, phone, view, capture, writer).1 is Ok
            ==> came_about(applied_live(d, phone, view, capture, writer).0.core.state.settings, accepted(view))
                && (applied_live(d, phone, view, capture, writer).0.core.state.capture matches Some(c) && c.size == frame_size(view.pending)),
        !applied_live(d, phone, view, capture, writer).0.outside.waiting
            && applied_live(d, phone, view, capture, writer).1 is Err
            ==> (applied_live(d, phone, view, capture, writer).0.core.state.settings matches Some(s) && amounts_to(s.applied, view.applied)),
{
    broadcast use group_keeps_more;
    broadcast use crate::laws::group_goes_on_all;

    reveal(coherent);
    reveal(true_state);
    reveal(applied_live);
}

broadcast group group_keeps_live {
    keeps_published,
    keeps_announced,
    keeps_prepared,
    keeps_kept_on_disk,
    keeps_reconnecting,
    keeps_registry_saved,
    keeps_chosen,
    keeps_persisted,
    keeps_equipped,
    keeps_adb_lost,
    keeps_recalled,
    keeps_not_reached,
    keeps_refreshed,
    keeps_stopped,
    keeps_reaped,
    keeps_launched,
    keeps_themed,
    keeps_turned,
    keeps_attached_anew,
    keeps_followed,
    keeps_emptied,
    keeps_adb_refreshed,
    keeps_abandoned,
    keeps_rolled_back,
    keeps_cleared,
    keeps_placed,
    keeps_applied_idle,
    keeps_begun,
    keeps_previewed,
    keeps_coupled,
    keeps_examined,
    keeps_dismissed,
    keeps_selected,
    keeps_adjusted,
    keeps_relaunched,
    keeps_started,
    keeps_readdressed,
    keeps_applied_live,
}

broadcast proof fn keeps_applied(d: DaemonView)
    requires
        coherent(d.core),
    ensures
        coherent((#[trigger] applied(d)).0.core),
{
    broadcast use group_keeps_live;
    broadcast use crate::laws::group_goes_on_all;

    reveal(coherent);
    reveal(true_state);
    reveal(applied);
}

broadcast group group_keeps_applied {
    keeps_published,
    keeps_announced,
    keeps_prepared,
    keeps_kept_on_disk,
    keeps_reconnecting,
    keeps_registry_saved,
    keeps_chosen,
    keeps_persisted,
    keeps_equipped,
    keeps_adb_lost,
    keeps_recalled,
    keeps_not_reached,
    keeps_refreshed,
    keeps_stopped,
    keeps_reaped,
    keeps_launched,
    keeps_themed,
    keeps_turned,
    keeps_attached_anew,
    keeps_followed,
    keeps_emptied,
    keeps_adb_refreshed,
    keeps_abandoned,
    keeps_rolled_back,
    keeps_cleared,
    keeps_placed,
    keeps_applied_idle,
    keeps_begun,
    keeps_previewed,
    keeps_coupled,
    keeps_examined,
    keeps_dismissed,
    keeps_selected,
    keeps_adjusted,
    keeps_relaunched,
    keeps_started,
    keeps_readdressed,
    keeps_applied_live,
    keeps_applied,
}

broadcast proof fn keeps_performed(d: DaemonView, operation: OperationView)
    requires
        coherent(d.core),
    ensures
        coherent((#[trigger] performed(d, operation)).0.core),
{
    broadcast use group_keeps_applied;
    broadcast use crate::laws::group_goes_on_all;

    reveal(coherent);
    reveal(true_state);
}

broadcast group group_keeps_all {
    keeps_published,
    keeps_announced,
    keeps_prepared,
    keeps_kept_on_disk,
    keeps_reconnecting,
    keeps_registry_saved,
    keeps_chosen,
    keeps_persisted,
    keeps_equipped,
    keeps_adb_lost,
    keeps_recalled,
    keeps_not_reached,
    keeps_refreshed,
    keeps_stopped,
    keeps_reaped,
    keeps_launched,
    keeps_themed,
    keeps_turned,
    keeps_attached_anew,
    keeps_followed,
    keeps_emptied,
    keeps_adb_refreshed,
    keeps_abandoned,
    keeps_rolled_back,
    keeps_cleared,
    keeps_placed,
    keeps_applied_idle,
    keeps_begun,
    keeps_previewed,
    keeps_coupled,
    keeps_examined,
    keeps_dismissed,
    keeps_selected,
    keeps_adjusted,
    keeps_relaunched,
    keeps_started,
    keeps_readdressed,
    keeps_applied_live,
    keeps_applied,
    keeps_performed,
}

/// A capture is started only where none was requested, and so where nothing
/// writes.
proof fn lemma_start_yields(d: DaemonView, stay_awake: bool, style: PreviewStyle)
    requires
        coherent(d.core),
    ensures
        yields(d, started(d, stay_awake, style).0),
{
    broadcast use group_keeps_all;
    broadcast use crate::laws::group_goes_on_all;

    reveal(started);
    reveal(coherent);
}

// ---------------------------------------------------------------------------
// Laws

/// Every operation keeps what the daemon holds coherent, at every moment of it
/// and whatever the outside answers: the settings are ones that the phone's
/// lenses allow, nothing reconnects but a requested capture, and nothing writes
/// but for one.
pub proof fn the_daemon_stays_coherent(
    core: CoreView,
    operation: OperationView,
    answers: Seq<AnswerView>,
    startup_ms: u64,
    preview_ms: u64,
)
    requires
        coherent(core),
    ensures
        coherent(performed(fresh(core, answers, startup_ms, preview_ms), operation).0.core),
{
    keeps_performed(fresh(core, answers, startup_ms, preview_ms), operation);
}

/// The daemon begins coherent.
pub proof fn the_daemon_begins_coherent(core: CoreView)
    requires
        core.state.settings is None,
        core.state.capture is None,
        core.state.connection is NoPhone,
        core.writer is None,
    ensures
        coherent(core),
{
    reveal(coherent);
    reveal(true_state);
}

/// One capture process owns the node: whatever the outside answers, an operation
/// launches scrcpy only while none that was launched is there, and the daemon
/// holds a writer exactly where one is.
pub proof fn scrcpy_runs_alone(
    core: CoreView,
    operation: OperationView,
    answers: Seq<AnswerView>,
    startup_ms: u64,
    preview_ms: u64,
)
    requires
        coherent(core),
    ensures
        ({
            let (d, _) = performed(fresh(core, answers, startup_ms, preview_ms), operation);
            &&& alone(core.writer is Some, d.outside.trace, answers)
            &&& !d.outside.waiting ==> d.core.writer is Some == alive(
                core.writer is Some,
                d.outside.trace,
                answers,
            )
        }),
{
    let a = fresh(core, answers, startup_ms, preview_ms);
    let (d, _) = performed(a, operation);
    crate::laws::goes_on_performed(a, operation);
    if let OperationView::Start { stay_awake, style } = operation {
        lemma_start_yields(a, stay_awake, style);
    }
    assert(single(core.writer is Some, a));
    assert(d.outside.answers == answers) by {
        reveal(goes_on);
    }
    reveal(yields);
}

/// Looking at the phones and at the writer, changing or discarding settings and
/// beginning to pair neither start, end nor change the capture. A phone that
/// goes away does not end it.
pub proof fn looking_keeps_the_capture(
    core: CoreView,
    operation: OperationView,
    answers: Seq<AnswerView>,
    startup_ms: u64,
    preview_ms: u64,
)
    requires
        coherent(core),
        operation is Survey || operation is Watch || operation is Refresh || operation is Change
            || operation is Discard || operation is BeginPairing,
    ensures
        performed(fresh(core, answers, startup_ms, preview_ms), operation).0.core.state.capture
            == core.state.capture,
{
    broadcast use group_keeps_all;

}

/// Once a phone is selected, no capture of another phone is left.
pub proof fn selecting_ends_other_captures(d: DaemonView, serial: Seq<char>)
    requires
        coherent(d.core),
    ensures
        ({
            let (e, r) = selected(d, serial);
            !e.outside.waiting && r is Ok ==> e.core.state.capture is None || capture_of(
                e.core.state,
                serial,
            )
        }),
{
    broadcast use group_keeps_all;

}

/// A selection that is refused changes nothing: a running capture runs on.
pub proof fn a_refused_selection_changes_nothing(d: DaemonView, serial: Seq<char>)
    requires
        selected(d, serial).1 is Err,
    ensures
        selected(d, serial).0.core == d.core,
{
    reveal(selected);
}

/// Once a phone is forgotten, no capture of it is left.
pub proof fn forgetting_ends_the_capture(d: DaemonView, serial: Seq<char>)
    requires
        coherent(d.core),
    ensures
        ({
            let (e, r) = dismissed(d, serial);
            !e.outside.waiting && r is Ok ==> !capture_of(e.core.state, serial)
        }),
{
    broadcast use group_keeps_all;

}

/// Stopping ends the capture, whether or not one was running.
pub proof fn stopping_ends_the_capture(
    core: CoreView,
    answers: Seq<AnswerView>,
    startup_ms: u64,
    preview_ms: u64,
)
    requires
        coherent(core),
    ensures
        ({
            let (d, r) = performed(
                fresh(core, answers, startup_ms, preview_ms),
                OperationView::Stop,
            );
            r is Ok && (!d.outside.waiting ==> d.core.state.capture is None && d.core.writer
                is None)
        }),
{
    broadcast use group_keeps_all;
    broadcast use crate::laws::group_goes_on_all;

    reveal(coherent);
    let e = stopped(fresh(core, answers, startup_ms, preview_ms));
    keeps_refreshed(e);
}

/// Starting a capture gives one, or says why and leaves the capture as it was.
pub proof fn starting_gives_a_capture(d: DaemonView, stay_awake: bool, style: PreviewStyle)
    requires
        coherent(d.core),
    ensures
        ({
            let (e, r) = started(d, stay_awake, style);
            &&& !e.outside.waiting && r is Ok ==> e.core.state.capture is Some
            &&& r is Err ==> e.core.state.capture == d.core.state.capture
        }),
{
    broadcast use group_keeps_all;

}

/// Keeping the phone awake is refused before anything is done: scrcpy cannot
/// keep it awake without control, and the preview must not have control.
pub proof fn staying_awake_is_refused_at_once(d: DaemonView, style: PreviewStyle)
    ensures
        started(d, true, style) == (
            d,
            refusal("preview_conflict"@, crate::operations::PREVIEW_CONFLICT@),
        ),
{
    reveal(started);
}

/// A connect address that is none is refused before anything is done.
pub proof fn a_bad_connect_address_does_nothing(
    d: DaemonView,
    serial: Seq<char>,
    pair_address: Seq<char>,
    code: Seq<char>,
    address: Seq<char>,
)
    requires
        !crate::phones::endpoint(address),
    ensures
        coupled(d, pair_address, code, address).0 == d,
        coupled(d, pair_address, code, address).1 is Err,
        readdressed(d, serial, address).0 == d,
        readdressed(d, serial, address).1 is Err,
{
    reveal(coupled);
    reveal(readdressed);
}

/// An Apply to a running capture either puts the pending settings in force, or
/// leaves the applied ones as they were.
pub proof fn apply_is_all_or_nothing(
    d: DaemonView,
    phone: PhoneView,
    view: SettingsStateView,
    capture: CaptureView,
    writer: u32,
)
    requires
        coherent(d.core),
        standing(view),
        d.core.state.settings == Some(view),
        d.core.state.connection is Connected,
    ensures
        ({
            let (e, r) = applied_live(d, phone, view, capture, writer);
            &&& !e.outside.waiting && r is Ok ==> came_about(e.core.state.settings, accepted(view))
                && (e.core.state.capture matches Some(c) && c.size == frame_size(view.pending))
            &&& !e.outside.waiting && r is Err ==> (e.core.state.settings matches Some(s)
                && amounts_to(s.applied, view.applied))
        }),
{
    broadcast use group_keeps_all;

}

/// Where scrcpy rejects the pending settings and the previous capture could be
/// restarted, that capture is in the state again, something writes it, and what
/// is kept on disk for the phone is what is applied.
pub proof fn a_rejected_apply_restores_the_capture(
    d: DaemonView,
    phone: PhoneView,
    view: SettingsStateView,
    capture: CaptureView,
    position: Option<[i64; 2]>,
    error: Seq<char>,
)
    requires
        coherent(d.core),
        standing(view),
        d.core.writer is None,
        d.core.state.connection is Connected,
    ensures
        ({
            let (e, r) = rolled_back(d, phone, view, capture, position, error);
            &&& r is Err
            &&& !e.outside.waiting ==> (e.core.state.settings matches Some(s) && amounts_to(
                s.applied,
                view.applied,
            ))
            &&& !e.outside.waiting && e.core.state.capture is Some ==> e.core.state.capture == Some(
                capture,
            ) && e.core.writer is Some
            &&& !e.outside.waiting && (r matches Err(why) && why.code == "capture_failed"@)
                ==> lookup(e.core.registry.settings, key_for(d.core.registry, phone.serial))
                == Some(view.applied)
        }),
{
    keeps_rolled_back(d, phone, view, capture, position, error);
}

/// A successful Apply leaves nothing pending: what is pending equals what is
/// applied, wherever it equals itself.
pub proof fn applying_leaves_nothing_pending(d: DaemonView)
    requires
        coherent(d.core),
    ensures
        ({
            let (e, r) = applied(d);
            !e.outside.waiting && r is Ok ==> (e.core.state.settings matches Some(s) && {
                &&& s.applied == s.pending || equals(s.pending, s.applied)
                &&& comparable(s.applied) ==> !s.has_pending_changes
            })
        }),
{
    broadcast use group_keeps_all;
    broadcast use crate::laws::group_goes_on_all;

    reveal(applied);
}

/// The frame size of a running capture changes only where looking has found
/// nobody watching it.
pub proof fn the_frame_size_changes_only_unwatched(
    d: DaemonView,
    phone: PhoneView,
    view: SettingsStateView,
    capture: CaptureView,
    writer: u32,
)
    requires
        frame_size(view.pending) != frame_size(view.applied),
        applied_live(d, phone, view, capture, writer).1 is Ok,
    ensures
        consumed(d.outside, capture.node, writer).1 == Ok::<bool, Seq<char>>(false),
{
    reveal(applied_live);
    reveal(cleared);
}

/// The frame size of a capture that is being watched stays: an Apply that would
/// change it is refused, the capture and what is applied stay as they were, and
/// the pending settings are kept.
pub proof fn a_watched_frame_size_stays(
    d: DaemonView,
    view: SettingsStateView,
    node: Seq<char>,
    writer: u32,
)
    requires
        coherent(d.core),
        standing(view),
        frame_size(view.pending) != frame_size(view.applied),
        consumed(d.outside, node, writer).1 == Ok::<bool, Seq<char>>(true),
    ensures
        ({
            let (e, r) = cleared(d, view, node, writer);
            &&& r == refusal("camera_in_use"@, in_use(node, view))
            &&& !e.outside.waiting ==> (e.core.state.settings matches Some(s) && amounts_to(
                s.applied,
                view.applied,
            ) && amounts_to(s.pending, view.pending))
            &&& e.core.state.capture == d.core.state.capture
            &&& e.core.writer == d.core.writer
            &&& e.core.registry == d.core.registry
        }),
{
    broadcast use group_keeps_all;

    reveal(cleared);
}

/// A capture is only ever resumed at the frame size it had.
pub proof fn resuming_keeps_the_frame_size(d: DaemonView, phone: PhoneView)
    requires
        d.core.writer is None,
        resumed(d, phone).core.writer is Some,
    ensures
        d.core.state.capture matches Some(c) && c.phone.serial == phone.serial && (settings_for(
            d.core.state.settings,
            phone.serial,
        ) matches Some(s) && frame_size(s.applied) == c.size),
{
    reveal(resumed);
    reveal(announced);
}

/// Keeping one phone's settings leaves every other phone's as they were, and
/// what could not be kept is not held.
pub proof fn settings_are_kept_per_phone(
    d: DaemonView,
    serial: Seq<char>,
    settings: CameraSettingsView,
    other: Seq<char>,
)
    requires
        coherent(d.core),
        other != key_for(d.core.registry, serial),
    ensures
        ({
            let (e, r) = persisted(d, serial, settings);
            &&& lookup(e.core.registry.settings, other) == lookup(d.core.registry.settings, other)
            &&& !e.outside.waiting && r is Ok ==> lookup(
                e.core.registry.settings,
                key_for(d.core.registry, serial),
            ) == Some(settings)
            &&& !e.outside.waiting && r is Err ==> e.core.registry == d.core.registry
        }),
{
    reveal(persisted);
    reveal(kept_on_disk);
}

/// Showing or hiding the preview changes nothing of the capture but that, and
/// launches nothing.
pub proof fn the_preview_is_only_moved(d: DaemonView, visible: bool, style: PreviewStyle)
    requires
        coherent(d.core),
    ensures
        ({
            let (e, r) = previewed(d, visible, style);
            &&& !e.outside.waiting && r is Ok ==> (d.core.state.capture matches Some(c)
                && e.core.state.capture == Some(CaptureView { preview: visible, ..c }))
            &&& r is Err ==> e.core.state.capture == d.core.state.capture
            &&& e.core.writer is Some ==> e.core.writer == d.core.writer
        }),
{
    broadcast use group_keeps_all;
    broadcast use crate::laws::group_goes_on_all;

    reveal(previewed);
}

/// A preview that was hidden is shown again where it was.
pub proof fn a_shown_preview_returns(d: DaemonView, later: DaemonView, at: [i64; 2])
    requires
        located(d.outside).1 == Ok::<[i64; 2], Seq<char>>(at),
        turned(d, false).1 is Ok,
        !turned(d, false).0.outside.waiting,
        later.core.position == turned(d, false).0.core.position,
        !later.outside.waiting,
    ensures
        turned(later, true).0.outside.trace == later.outside.trace.push(
            ActView::Run {
                argv: seq![
                    "hyprctl"@,
                    "dispatch"@,
                    move_text(PREVIEW_SELECTOR@, at),
                ],
                collect: false,
            },
        ),
{
    reveal(turned);
    reveal(crate::capture::commanded);
}

// ---------------------------------------------------------------------------
// Where looking at the desk ends

/// With a capture, the connection that is shown is never that of a phone which
/// has yet to answer.
proof fn lands_reconnecting(d: DaemonView, connection: ConnectionView)
    requires
        coherent(d.core),
        d.core.state.capture is Some,
        connection !is Reconnecting,
    ensures
        reconnecting(d, connection).1 !is Connecting,
{
    broadcast use group_keeps_publish;
    broadcast use crate::laws::group_goes_on_all;

    reveal(reconnecting);
}

proof fn lands_adb_lost(d: DaemonView)
    requires
        coherent(d.core),
        d.core.state.capture is Some,
    ensures
        !adb_lost(d).outside.waiting ==> adb_lost(d).core.state.connection !is Connecting,
{
    broadcast use group_keeps_hold;
    broadcast use crate::laws::group_goes_on_all;

    reveal(coherent);
    reveal(true_state);
    reveal(adb_lost);
    lands_reconnecting(d, ConnectionView::NoPhone);
}

proof fn lands_not_reached(
    d: DaemonView,
    phone: PhoneView,
    connect_address: Seq<char>,
    attached: Seq<protocol::AttachedView>,
)
    requires
        coherent(d.core),
        d.core.state.capture is Some,
    ensures
        !not_reached(d, phone, connect_address, attached).outside.waiting ==> not_reached(
            d,
            phone,
            connect_address,
            attached,
        ).core.state.connection !is Connecting,
{
    broadcast use group_keeps_hold;
    broadcast use crate::laws::group_goes_on_all;

    reveal(not_reached);
    lands_reconnecting(d, ConnectionView::Unreachable { phone, connect_address });
}

proof fn lands_confirmed(
    d: DaemonView,
    phone: PhoneView,
    attached: Seq<protocol::AttachedView>,
)
    requires
        coherent(d.core),
        !d.outside.waiting ==> d.core.state.connection !is Connecting,
    ensures
        !confirmed(d, phone, attached).outside.waiting ==> confirmed(
            d,
            phone,
            attached,
        ).core.state.connection !is Connecting,
{
    broadcast use group_keeps_registry;
    broadcast use crate::laws::group_goes_on_all;

    reveal(coherent);
    reveal(true_state);
    reveal(confirmed);
    reveal(resumed);
}

proof fn lands_concluded(
    d: DaemonView,
    connection: ConnectionView,
    attached: Seq<protocol::AttachedView>,
)
    requires
        coherent(d.core),
        d.core.state.capture is Some,
        connection !is Reconnecting,
    ensures
        !concluded(d, connection, attached).outside.waiting ==> concluded(
            d,
            connection,
            attached,
        ).core.state.connection !is Connecting,
{
    broadcast use group_keeps_confirm;
    broadcast use crate::laws::group_goes_on_all;

    reveal(concluded);
    lands_reconnecting(d, connection);
    let (d, shown) = reconnecting(d, connection);
    let d = announced(d, shown, attached);
    match connection {
        ConnectionView::Connected { phone } => lands_confirmed(d, phone, attached),
        ConnectionView::Connecting { phone } => {
            let (o, _) = answered(d.outside, phone.serial);
            let d = d.with(o);
            let d = announced(
                d,
                if d.needs_writer() {
                    ConnectionView::Reconnecting { phone }
                } else {
                    ConnectionView::Connected { phone }
                },
                attached,
            );
            lands_confirmed(d, phone, attached);
        },
        _ => {},
    }
}

proof fn lands_worked_out(d: DaemonView, attached: Seq<AttachedView>, verified: Option<Seq<char>>)
    requires
        coherent(d.core),
        d.core.state.capture is Some,
    ensures
        !worked_out(d, attached, verified).outside.waiting ==> worked_out(
            d,
            attached,
            verified,
        ).core.state.connection !is Connecting,
{
    broadcast use group_keeps_conclude;
    broadcast use crate::laws::group_goes_on_all;

    reveal(worked_out);
    reveal(vetted);
    let (connection, remember) = resolved(attached, d.core.registry.selected);
    let d = match remember {
        Some(serial) => chosen(d, serial),
        None => d,
    };
    let already = still_connected(d.core.state.connection, connection, attached);
    let (d, _) = if already {
        (d, true)
    } else {
        vetted(d, connection, attached, verified)
    };
    lands_concluded(
        noticed(d, attached),
        match connection {
            ConnectionView::Connecting { phone } => if already {
                ConnectionView::Connected { phone }
            } else {
                connection
            },
            _ => connection,
        },
        told(attached),
    );
}

proof fn lands_rejoined(d: DaemonView, known: KnownPhoneView, attached: Seq<AttachedView>)
    requires
        coherent(d.core),
        d.core.state.capture is Some,
    ensures
        !rejoined(d, known, attached).0.outside.waiting ==> rejoined(
            d,
            known,
            attached,
        ).0.core.state.connection !is Connecting,
{
    broadcast use group_keeps_work;
    broadcast use crate::laws::group_goes_on_all;

    reveal(rejoined);
    let address = address_of(known);
    let (o, ok) = joined(d.outside, address);
    let d = d.with(o);
    if !ok {
        lands_not_reached(d, known.phone, address, told(attached));
    } else {
        let (o, scan) = scanned(d.outside);
        let d = d.with(o);
        match scan {
            Err(e) => lands_adb_lost(d.log("could not scan phones after connecting: "@ + e)),
            Ok(attached) => match found(attached, usable_as(address)) {
                None => lands_not_reached(d, known.phone, address, told(attached)),
                Some(there) => {
                    let (o, stable) = identified(d.outside, address);
                    let d = recalled(d.with(o), address, there.name, stable, None, true);
                    lands_worked_out(
                        d,
                        attached,
                        if stable is Some {
                            Some(address)
                        } else {
                            None
                        },
                    );
                },
            },
        }
    }
}

proof fn lands_refreshed(d: DaemonView)
    requires
        coherent(d.core),
        d.core.state.capture is Some,
    ensures
        !refreshed(d).0.outside.waiting ==> refreshed(d).0.core.state.connection !is Connecting,
{
    broadcast use group_keeps_rejoin;
    broadcast use crate::laws::group_goes_on_all;

    reveal(coherent);
    reveal(true_state);
    reveal(refreshed);
    let (o, scan) = scanned(d.outside);
    let d = d.with(o);
    match scan {
        Err(e) => lands_adb_lost(d.log("could not scan phones: "@ + e)),
        Ok(attached) => match awaited(d.core.registry, attached) {
            None => lands_worked_out(d, attached, None),
            Some(known) => lands_rejoined(d, known, attached),
        },
    }
}

/// Whether clients were sent every state, or some state since.
spec fn told_of(d: DaemonView, e: DaemonView) -> bool {
    tells(d, e) || any_sent(e.outside.trace.skip(d.outside.trace.len() as int))
}

proof fn lemma_told_of(d: DaemonView, m: DaemonView, e: DaemonView)
    requires
        goes_on(d, m),
        tells(d, m),
        goes_on(m, e),
        told_of(m, e),
    ensures
        told_of(d, e),
{
    broadcast use crate::laws::group_goes_on_all;

    if !tells(m, e) {
        lemma_sent_later(d, m, e);
    }
}

/// A captured phone that is selected, at its new address.
proof fn lands_followed(
    d: DaemonView,
    serial: Seq<char>,
    address: Seq<char>,
    name: Seq<char>,
    stable: Seq<char>,
    attached: Seq<protocol::AttachedView>,
)
    requires
        coherent(d.core),
        d.core.state.capture matches Some(c) ==> d.core.registry.selected == Some(c.phone.serial),
    ensures
        ({
            let e = followed(d, serial, address, name, stable, attached).0;
            !e.outside.waiting ==> told_of(d, e)
        }),
{
    broadcast use group_keeps_refresh;
    broadcast use crate::laws::group_goes_on_all;

    reveal(coherent);
    reveal(true_state);
    reveal(followed);
    let e = followed(d, serial, address, name, stable, attached).0;
    let captured = d.core.state.capture matches Some(capture) && same_device(
        d.core.registry,
        serial,
        stable,
        capture.phone.serial,
    );
    if captured {
        let ended = d.end_writer();
        let held = ended.hold_state(following(ended.core.state, address, name));
        let kept = recalled(held, address, name, Some(stable), Some(serial), true);
        let shown = announced(
            kept,
            ConnectionView::Connecting { phone: PhoneView { serial: address, name } },
            attached,
        );
        assert(coherent(held.core));
        lands_refreshed(shown);
        if !e.outside.waiting {
            lemma_tells_caught_up(shown, e);
            lemma_sent_later(d, shown, e);
        }
    }
}

proof fn lands_examined(
    d: DaemonView,
    known: KnownPhoneView,
    serial: Seq<char>,
    address: Seq<char>,
)
    requires
        coherent(d.core),
        d.core.state.capture matches Some(c) ==> d.core.registry.selected == Some(c.phone.serial),
    ensures
        ({
            let e = examined(d, known, serial, address).0;
            !e.outside.waiting ==> told_of(d, e)
        }),
{
    broadcast use crate::laws::group_goes_on_all;

    reveal(examined);
    let e = examined(d, known, serial, address).0;
    let (o, scan) = scanned(d.outside);
    let (p, stable) = identified(o, address);
    let m = d.with(o).with(p);
    if let Ok(attached) = scan {
        if let Some(there) = found(attached, usable_as(address)) {
            if let Some(id) = stable {
                let f = followed(m, serial, address, there.name, id, told(attached)).0;
                lands_followed(m, serial, address, there.name, id, told(attached));
                if !f.outside.waiting {
                    lemma_told_of(d, m, f);
                }
            }
        }
    }
}

/// Giving a phone a new address ends with clients having what the daemon holds,
/// wherever the phone that is captured is the one that is selected.
pub proof fn a_moved_capture_is_told(
    core: CoreView,
    serial: Seq<char>,
    connect_address: Seq<char>,
    answers: Seq<AnswerView>,
    startup_ms: u64,
    preview_ms: u64,
)
    requires
        coherent(core),
        core.state.capture matches Some(c) ==> core.registry.selected == Some(c.phone.serial),
    ensures
        ({
            let operation = OperationView::Connect { serial, connect_address };
            let (d, _) = performed(fresh(core, answers, startup_ms, preview_ms), operation);
            !d.outside.waiting ==> d.core.state == last_sent(core.state, d.outside.trace)
        }),
{
    broadcast use crate::laws::group_goes_on_all;

    let a = fresh(core, answers, startup_ms, preview_ms);
    let e = readdressed(a, serial, connect_address).0;
    clients_have_the_state(
        core,
        OperationView::Connect { serial, connect_address },
        answers,
        startup_ms,
        preview_ms,
    );
    reveal(readdressed);
    if let Some(known) = found(core.registry.phones, known_wireless(serial)) {
        let (o, _) = joined(a.outside, connect_address);
        let m = a.with(o);
        let f = examined(m, known, serial, connect_address).0;
        lands_examined(m, known, serial, connect_address);
        if !f.outside.waiting {
            lemma_told_of(a, m, f);
        }
    }
    assert(e.outside.trace.skip(0) =~= e.outside.trace);
    assert(tells(a, e) ==> e.core.state == last_sent(core.state, e.outside.trace)) by {
        reveal(tells);
    }
}

// ---------------------------------------------------------------------------
// What is launched, and what is kept

proof fn rests_confirmed(d: DaemonView, phone: PhoneView, attached: Seq<protocol::AttachedView>)
    requires
        coherent(d.core),
        d.core.state.capture is None,
    ensures
        launches(confirmed(d, phone, attached).outside.trace) == launches(d.outside.trace),
{
    broadcast use group_keeps_registry;
    broadcast use crate::laws::group_goes_on_all;

    reveal(confirmed);
}

proof fn rests_concluded(
    d: DaemonView,
    connection: ConnectionView,
    attached: Seq<protocol::AttachedView>,
)
    requires
        coherent(d.core),
        d.core.state.capture is None,
        connection !is Reconnecting,
    ensures
        launches(concluded(d, connection, attached).outside.trace) == launches(d.outside.trace),
{
    broadcast use group_keeps_confirm;
    broadcast use crate::laws::group_goes_on_all;

    reveal(concluded);
    let (d, shown) = reconnecting(d, connection);
    let d = announced(d, shown, attached);
    match connection {
        ConnectionView::Connected { phone } => rests_confirmed(d, phone, attached),
        ConnectionView::Connecting { phone } => {
            let (o, _) = answered(d.outside, phone.serial);
            let d = d.with(o);
            let d = announced(d, ConnectionView::Connected { phone }, attached);
            rests_confirmed(d, phone, attached);
        },
        _ => {},
    }
}

proof fn rests_worked_out(d: DaemonView, attached: Seq<AttachedView>, verified: Option<Seq<char>>)
    requires
        coherent(d.core),
        d.core.state.capture is None,
    ensures
        launches(worked_out(d, attached, verified).outside.trace) == launches(d.outside.trace),
{
    broadcast use group_keeps_conclude;
    broadcast use crate::laws::group_goes_on_all;

    reveal(worked_out);
    let (connection, remember) = resolved(attached, d.core.registry.selected);
    let d = match remember {
        Some(serial) => chosen(d, serial),
        None => d,
    };
    let already = still_connected(d.core.state.connection, connection, attached);
    crate::laws::goes_on_vetted(d, connection, attached, verified);
    let (d, _) = if already {
        (d, true)
    } else {
        vetted(d, connection, attached, verified)
    };
    crate::laws::goes_on_noticed(d, attached);
    rests_concluded(
        noticed(d, attached),
        match connection {
            ConnectionView::Connecting { phone } => if already {
                ConnectionView::Connected { phone }
            } else {
                connection
            },
            _ => connection,
        },
        told(attached),
    );
}

proof fn rests_rejoined(d: DaemonView, known: KnownPhoneView, attached: Seq<AttachedView>)
    requires
        coherent(d.core),
        d.core.state.capture is None,
    ensures
        launches(rejoined(d, known, attached).0.outside.trace) == launches(d.outside.trace),
{
    broadcast use group_keeps_work;
    broadcast use crate::laws::group_goes_on_all;

    reveal(rejoined);
    let address = address_of(known);
    let (o, _) = joined(d.outside, address);
    let d = d.with(o);
    let (o, scan) = scanned(d.outside);
    let d = d.with(o);
    if let Ok(attached) = scan {
        if let Some(there) = found(attached, usable_as(address)) {
            let (o, stable) = identified(d.outside, address);
            let d = recalled(d.with(o), address, there.name, stable, None, true);
            rests_worked_out(
                d,
                attached,
                if stable is Some {
                    Some(address)
                } else {
                    None
                },
            );
        }
    }
}

/// Without a capture, looking at the desk launches nothing.
pub proof fn looking_launches_nothing_unasked(d: DaemonView)
    requires
        coherent(d.core),
        d.core.state.capture is None,
    ensures
        launches(refreshed(d).0.outside.trace) == launches(d.outside.trace),
{
    broadcast use group_keeps_rejoin;
    broadcast use crate::laws::group_goes_on_all;

    reveal(refreshed);
    let (o, scan) = scanned(d.outside);
    let d = d.with(o);
    if let Ok(attached) = scan {
        match awaited(d.core.registry, attached) {
            None => rests_worked_out(d, attached, None),
            Some(known) => rests_rejoined(d, known, attached),
        }
    }
}

/// A capture begins with one launch of scrcpy, for the phone, with the settings
/// that are applied to it; what is pending has no part in it. The capture that
/// clients then see is that one. Beginning it changes neither what is applied
/// nor what is pending.
pub proof fn a_capture_begins_with_what_is_applied(
    d: DaemonView,
    phone: PhoneView,
    style: PreviewStyle,
)
    requires
        coherent(d.core),
    ensures
        ({
            let (e, r) = begun(d, phone, style);
            &&& r is Ok && !e.outside.waiting ==> {
                &&& e.core.state.settings matches Some(s) && e.core.state.capture matches Some(c)
                    && {
                    &&& s.phone == phone.serial
                    &&& c.phone == phone
                    &&& c.size == frame_size(s.applied)
                    &&& c.preview && !c.stay_awake
                    &&& launched_once(d.outside, e.outside, phone.serial, c.node, s.applied)
                }
                &&& e.core.writer is Some
                &&& e.core.state.preview_style == style
            }
            &&& r is Err ==> e.core.writer == d.core.writer
            &&& settings_for(d.core.state.settings, phone.serial) matches Some(s) ==> e.core.state.settings
                == d.core.state.settings
            &&& e.core.registry == d.core.registry
        }),
{
    broadcast use group_keeps_hold;
    broadcast use crate::laws::group_goes_on_all;

    reveal(begun);
    reveal(launched);
    let e = begun(d, phone, style).0;
    reveal(equipped);
    reveal(coherent);
}

/// Start ends with one launch of scrcpy, for the connected phone, with the
/// settings that are then applied to it, onto the node that clients then see;
/// the frame size is the one that those settings give.
pub proof fn starting_launches_what_is_applied(
    core: CoreView,
    stay_awake: bool,
    style: PreviewStyle,
    answers: Seq<AnswerView>,
    startup_ms: u64,
    preview_ms: u64,
)
    requires
        coherent(core),
        core.state.capture is None,
    ensures
        ({
            let operation = OperationView::Start { stay_awake, style };
            let (d, r) = performed(fresh(core, answers, startup_ms, preview_ms), operation);
            let argv = launches(d.outside.trace);
            r is Ok && !d.outside.waiting ==> {
                &&& d.core.state.capture matches Some(c) && d.core.state.settings matches Some(s)
                    && {
                    &&& d.core.state.connection == (ConnectionView::Connected { phone: c.phone })
                    &&& s.phone == c.phone.serial
                    &&& c.size == frame_size(s.applied)
                    &&& argv.len() == 1
                    &&& launch_says(argv[0], c.phone.serial, c.node, s.applied)
                }
                &&& d.core.writer is Some
            }
        }),
{
    broadcast use group_keeps_refresh;
    broadcast use crate::laws::group_goes_on_all;

    let a = fresh(core, answers, startup_ms, preview_ms);
    assert(launches(a.outside.trace) =~= Seq::empty());
    reveal(started);
    reveal(reaped);
    reveal(coherent);
    looking_launches_nothing_unasked(a);
    let (m, _) = refreshed(a);
    if let ConnectionView::Connected { phone } = m.core.state.connection {
        a_capture_begins_with_what_is_applied(m, phone, style);
        reveal(begun);
        reveal(launched);
        reveal(equipped);
    }
}

/// Whether what is kept for a phone, in what a daemon holds and on the disk, has
/// become some settings, and nothing else that is remembered has changed.
pub open spec fn keeps_for(
    d: DaemonView,
    e: DaemonView,
    serial: Seq<char>,
    settings: CameraSettingsView,
) -> bool {
    let key = key_for(d.core.registry, serial);
    &&& lookup(e.core.registry.settings, key) == Some(settings)
    &&& forall|other: Seq<char>|
        other != key ==> #[trigger] lookup(e.core.registry.settings, other) == lookup(
            d.core.registry.settings,
            other,
        )
    &&& e.core.registry.phones == d.core.registry.phones
    &&& e.core.registry.selected == d.core.registry.selected
    &&& last_save(d.core.registry, e.outside.trace) == e.core.registry
}

proof fn lemma_persisted(d: DaemonView, serial: Seq<char>, settings: CameraSettingsView)
    ensures
        ({
            let (e, r) = persisted(d, serial, settings);
            &&& r is Ok && !e.outside.waiting ==> keeps_for(d, e, serial, settings) && forall|
                before: RegistryView,
            | #[trigger] last_save(before, e.outside.trace) == e.core.registry
            &&& e.core.state == d.core.state && e.core.writer == d.core.writer
            &&& launches(e.outside.trace) == launches(d.outside.trace)
        }),
{
    broadcast use crate::laws::group_goes_on_all;

    reveal(persisted);
    reveal(kept_on_disk);
    let (e, r) = persisted(d, serial, settings);
    if r is Ok && !e.outside.waiting {
        assert(e.outside.trace.last() == (ActView::Save { registry: e.core.registry }));
    }
}

proof fn lemma_relaunched_saves_nothing(
    d: DaemonView,
    phone: PhoneView,
    view: SettingsStateView,
    capture: CaptureView,
    position: Option<[i64; 2]>,
)
    ensures
        ({
            let (e, r) = relaunched(d, phone, view, capture, position);
            r is Ok ==> {
                &&& e.core.registry == d.core.registry
                &&& forall|i: int|
                    d.outside.trace.len() <= i < e.outside.trace.len() ==> (
                    #[trigger] e.outside.trace[i]) !is Save
                &&& leads(d.outside.trace, e.outside.trace)
            }
        }),
{
    broadcast use crate::laws::group_goes_on_all;

    reveal(relaunched);
    reveal(rolled_back);
    reveal(leads);
    reveal(steps);
    reveal(extends);
    reveal(goes_on);
    let w = d.end_writer();
    let (o, _) = replaced(
        w.outside,
        phone.serial,
        capture,
        view.pending,
        w.core.state.preview_style,
        position,
    );
    assert(steps(w.outside, o));
}

proof fn lemma_relaunched_launches(
    d: DaemonView,
    phone: PhoneView,
    view: SettingsStateView,
    capture: CaptureView,
    position: Option<[i64; 2]>,
)
    ensures
        ({
            let (e, r) = relaunched(d, phone, view, capture, position);
            r is Ok && !e.outside.waiting ==> launched_once(
                d.outside,
                e.outside,
                phone.serial,
                capture.node,
                view.pending,
            ) && e.core.writer is Some
        }),
{
    broadcast use crate::laws::group_goes_on_all;

    reveal(relaunched);
    reveal(rolled_back);
}

/// An Apply to a running capture that succeeds launches scrcpy once, for the
/// phone, with the settings that were pending; it keeps exactly those settings
/// for the phone, in what the daemon holds and on the disk, and nothing else is
/// remembered otherwise. The capture that clients then see has the frame size of
/// those settings, on the node it had.
pub proof fn applying_launches_and_keeps_what_was_pending(
    d: DaemonView,
    phone: PhoneView,
    view: SettingsStateView,
    capture: CaptureView,
    writer: u32,
)
    requires
        coherent(d.core),
        standing(view),
        d.core.state.settings == Some(view),
        d.core.state.capture is Some,
        d.core.state.connection is Connected,
    ensures
        ({
            let (e, r) = applied_live(d, phone, view, capture, writer);
            r is Ok && !e.outside.waiting ==> {
                &&& keeps_for(d, e, phone.serial, view.pending)
                &&& launched_once(d.outside, e.outside, phone.serial, capture.node, view.pending)
                &&& e.core.state.capture matches Some(c) && {
                    &&& c.phone == phone
                    &&& c.node == capture.node
                    &&& c.preview == capture.preview
                    &&& c.size == frame_size(view.pending)
                }
                &&& e.core.state.settings matches Some(s) && amounts_to(s.applied, view.pending)
                    && amounts_to(s.pending, view.pending)
                &&& e.core.writer is Some
            }
        }),
{
    broadcast use group_keeps_all;
    broadcast use crate::laws::group_goes_on_all;

    reveal(applied_live);
    reveal(cleared);
    reveal(placed);
    let (c, clear) = cleared(d, view, capture.node, writer);
    if clear is Ok {
        let (p, position) = placed(c, capture);
        if let Ok(position) = position {
            lemma_persisted(p, phone.serial, view.pending);
            let (k, kept) = persisted(p, phone.serial, view.pending);
            if kept is Ok {
                lemma_relaunched_saves_nothing(k, phone, view, capture, position);
                let (e, r) = relaunched(k, phone, view, capture, position);
                if r is Ok && !e.outside.waiting {
                    lemma_last_save(d.core.registry, k.outside.trace, e.outside.trace);
                    assert(p.core == d.core);
                    lemma_relaunched_launches(k, phone, view, capture, position);
                }
            }
        }
    }
}

/// An Apply without a running capture that succeeds keeps exactly the pending
/// settings for the phone, in what the daemon holds and on the disk, and
/// launches nothing.
pub proof fn applying_idle_keeps_what_was_pending(
    d: DaemonView,
    phone: PhoneView,
    view: SettingsStateView,
)
    requires
        coherent(d.core),
        standing(view),
        d.core.state.settings == Some(view),
    ensures
        ({
            let (e, r) = applied_idle(d, phone, view);
            &&& r is Ok && !e.outside.waiting ==> keeps_for(d, e, phone.serial, view.pending) && (
            e.core.state.settings matches Some(s) && amounts_to(s.applied, view.pending)
                && amounts_to(s.pending, view.pending))
            &&& launches(e.outside.trace) == launches(d.outside.trace)
            &&& e.core.state.capture == d.core.state.capture
            &&& e.core.writer == d.core.writer
            &&& r is Err && !e.outside.waiting ==> e.core.registry == d.core.registry
                && e.core.state == d.core.state
        }),
{
    broadcast use group_keeps_all;
    broadcast use crate::laws::group_goes_on_all;

    reveal(applied_idle);
    lemma_persisted(d, phone.serial, view.pending);
    let (k, kept) = persisted(d, phone.serial, view.pending);
    let (e, r) = applied_idle(d, phone, view);
    if r is Ok && !e.outside.waiting {
        reveal(leads);
        lemma_last_save(d.core.registry, k.outside.trace, e.outside.trace);
    }
}

/// Apply puts the pending settings of the connected phone in force: those it has
/// once the desk has been looked at. They are then applied and kept for the
/// phone; with a capture running, scrcpy was launched once with them.
pub proof fn apply_is_for_the_connected_phone(d: DaemonView, phone: PhoneView)
    requires
        coherent(d.core),
        ({
            let (m, ok) = refreshed(d);
            ok && reaped(m).core.state.connection == (ConnectionView::Connected { phone })
        }),
    ensures
        ({
            let m = reaped(refreshed(d).0);
            let (n, equipped) = equipped(m, phone.serial);
            let (e, r) = applied(d);
            r is Ok && !e.outside.waiting ==> {
                &&& equipped matches Ok(view) && (view.has_pending_changes ==> {
                    &&& keeps_for(n, e, phone.serial, view.pending)
                    &&& e.core.state.settings matches Some(s) && amounts_to(s.applied, view.pending)
                    &&& n.core.writer is Some ==> (n.core.state.capture matches Some(c)
                        && launched_once(n.outside, e.outside, phone.serial, c.node, view.pending))
                    &&& n.core.writer is None ==> launches(e.outside.trace) == launches(
                        n.outside.trace,
                    )
                })
            }
        }),
{
    broadcast use group_keeps_all;
    broadcast use crate::laws::group_goes_on_all;

    reveal(applied);
    let m = reaped(refreshed(d).0);
    keeps_equipped(m, phone.serial);
    let (n, r) = equipped(m, phone.serial);
    if let Ok(view) = r {
        if view.has_pending_changes && !n.outside.waiting {
            match (n.core.state.capture, n.core.writer) {
                (Some(capture), Some(writer)) => {
                    applying_launches_and_keeps_what_was_pending(n, phone, view, capture, writer);
                },
                _ => {
                    reveal(coherent);
                    applying_idle_keeps_what_was_pending(n, phone, view);
                },
            }
        }
    }
}

/// A capture is resumed with one launch of scrcpy, for its phone, onto its node,
/// with the settings that are applied to the phone.
pub proof fn resuming_launches_what_is_applied(d: DaemonView, phone: PhoneView)
    requires
        d.core.writer is None,
        resumed(d, phone).core.writer is Some,
    ensures
        d.core.state.capture matches Some(c) && d.core.state.settings matches Some(s) && {
            &&& c.phone.serial == phone.serial
            &&& s.phone == phone.serial
            &&& launched_once(d.outside, resumed(d, phone).outside, phone.serial, c.node, s.applied)
        },
{
    broadcast use crate::laws::group_goes_on_all;

    reveal(resumed);
    reveal(announced);
}

/// Where scrcpy rejects the pending settings and the previous capture could be
/// restarted, the last launch is with the settings that were applied, onto the
/// node that the capture had.
pub proof fn a_rejected_apply_launches_what_was_applied(
    d: DaemonView,
    phone: PhoneView,
    view: SettingsStateView,
    capture: CaptureView,
    position: Option<[i64; 2]>,
    error: Seq<char>,
)
    requires
        coherent(d.core),
        standing(view),
        d.core.writer is None,
        d.core.state.connection is Connected,
    ensures
        ({
            let (e, r) = rolled_back(d, phone, view, capture, position, error);
            !e.outside.waiting && e.core.writer is Some ==> launched_once(
                d.outside,
                e.outside,
                phone.serial,
                capture.node,
                view.applied,
            )
        }),
{
    broadcast use crate::laws::group_goes_on_all;

    reveal(rolled_back);
    lemma_persisted(d.with(described(d.outside, view.pending).0), phone.serial, view.applied);
}

// ---------------------------------------------------------------------------
// Selecting

/// A phone can be selected exactly where adb lists it, or where it is known to
/// be reached over the network.
pub proof fn any_phone_that_is_there_can_be_selected(
    d: DaemonView,
    serial: Seq<char>,
    attached: Seq<AttachedView>,
)
    ensures
        scanned(d.outside).1 is Err ==> selected(d, serial).1 is Err,
        scanned(d.outside).1 == Ok::<Seq<AttachedView>, Seq<char>>(attached) ==> (selected(
            d,
            serial,
        ).1 is Ok <==> (exists|i: int|
            0 <= i < attached.len() && (#[trigger] attached[i]).serial == serial) || (exists|i: int|
            0 <= i < d.core.registry.phones.len() && (
            #[trigger] d.core.registry.phones[i]).phone.serial == serial
                && d.core.registry.phones[i].transport == Transport::Wireless)),
{
    reveal(selected);
    let phones = d.core.registry.phones;
    lemma_first(phones, known_wireless(serial));
    assert forall|i: int| 0 <= i < phones.len() implies known_wireless(serial)(
        #[trigger] phones[i],
    ) == (phones[i].phone.serial == serial && phones[i].transport == Transport::Wireless) by {}
    assert forall|i: int| 0 <= i < attached.len() implies has_serial(serial)(#[trigger] attached[i])
        == (attached[i].serial == serial) by {}
}

proof fn settles_confirmed(d: DaemonView, phone: PhoneView, attached: Seq<protocol::AttachedView>)
    requires
        coherent(d.core),
    ensures
        confirmed(d, phone, attached).core.registry == d.core.registry,
{
    broadcast use group_keeps_registry;
    broadcast use crate::laws::group_goes_on_all;

    reveal(confirmed);
}

proof fn settles_concluded(
    d: DaemonView,
    connection: ConnectionView,
    attached: Seq<protocol::AttachedView>,
)
    requires
        coherent(d.core),
        connection !is Reconnecting,
    ensures
        concluded(d, connection, attached).core.registry == d.core.registry,
{
    broadcast use group_keeps_confirm;
    broadcast use crate::laws::group_goes_on_all;

    reveal(concluded);
    let (d, shown) = reconnecting(d, connection);
    let d = announced(d, shown, attached);
    match connection {
        ConnectionView::Connected { phone } => settles_confirmed(d, phone, attached),
        ConnectionView::Connecting { phone } => {
            let (o, _) = answered(d.outside, phone.serial);
            let d = d.with(o);
            let d = announced(
                d,
                if d.needs_writer() {
                    ConnectionView::Reconnecting { phone }
                } else {
                    ConnectionView::Connected { phone }
                },
                attached,
            );
            settles_confirmed(d, phone, attached);
        },
        _ => {},
    }
}

/// Whether the phone with a serial, if it is reached over the network, is
/// reached there.
pub open spec fn at_home(registry: RegistryView, serial: Seq<char>) -> bool {
    forall|i: int|
        0 <= i < registry.phones.len() && (#[trigger] registry.phones[i]).phone.serial == serial
            && registry.phones[i].transport == Transport::Wireless ==> address_of(
            registry.phones[i],
        ) == serial
}

proof fn settles_recalled(
    d: DaemonView,
    address: Seq<char>,
    name: Seq<char>,
    stable: Option<Seq<char>>,
    previous: Option<Seq<char>>,
)
    ensures
        !recalled(d, address, name, stable, previous, true).outside.waiting ==> recalled(
            d,
            address,
            name,
            stable,
            previous,
            true,
        ).core.registry.selected == Some(address),
{
    broadcast use crate::laws::group_goes_on_all;

    reveal(recalled);
    reveal(registry_saved);
    reveal(kept_on_disk);
    crate::phones::a_phone_is_one_entry(d.core.registry, address, name, stable, previous, true);
}

proof fn settles_worked_out(
    d: DaemonView,
    attached: Seq<AttachedView>,
    verified: Option<Seq<char>>,
    serial: Seq<char>,
)
    requires
        coherent(d.core),
        d.core.registry.selected == Some(serial),
    ensures
        !worked_out(d, attached, verified).outside.waiting ==> worked_out(
            d,
            attached,
            verified,
        ).core.registry.selected == Some(serial),
{
    broadcast use group_keeps_conclude;
    broadcast use crate::laws::group_goes_on_all;

    reveal(worked_out);
    reveal(vetted);
    reveal(noticed);
    reveal(registry_saved);
    reveal(kept_on_disk);
    let (connection, _) = resolved(attached, d.core.registry.selected);
    crate::phones::selection_is_never_guessed(attached, d.core.registry.selected);
    let already = still_connected(d.core.state.connection, connection, attached);
    if let ConnectionView::Connecting { phone } = connection {
        let (o, stable) = identified(d.outside, phone.serial);
        settles_recalled(d.with(o), phone.serial, phone.name, stable, None);
    }
    let (m, _) = if already {
        (d, true)
    } else {
        vetted(d, connection, attached, verified)
    };
    crate::laws::goes_on_vetted(d, connection, attached, verified);
    crate::laws::goes_on_noticed(m, attached);
    crate::phones::seeing_a_phone_touches_no_other(
        m.core.registry,
        attached,
        KnownPhoneView {
            id: serial,
            hardware_id: None,
            phone: PhoneView { serial, name: serial },
            transport: Transport::Wired,
            connect_address: None,
        },
    );
    let n = noticed(m, attached);
    let shown = match connection {
        ConnectionView::Connecting { phone } => if already {
            ConnectionView::Connected { phone }
        } else {
            connection
        },
        _ => connection,
    };
    settles_concluded(n, shown, told(attached));
    crate::laws::goes_on_concluded(n, shown, told(attached));
}

proof fn settles_refreshed(d: DaemonView, serial: Seq<char>)
    requires
        coherent(d.core),
        d.core.registry.selected == Some(serial),
        at_home(d.core.registry, serial),
    ensures
        !refreshed(d).0.outside.waiting ==> refreshed(d).0.core.registry.selected == Some(serial),
{
    broadcast use group_keeps_rejoin;
    broadcast use crate::laws::group_goes_on_all;

    reveal(refreshed);
    reveal(rejoined);
    let phones = d.core.registry.phones;
    let (o, scan) = scanned(d.outside);
    let d = d.with(o);
    if let Ok(attached) = scan {
        match awaited(d.core.registry, attached) {
            None => settles_worked_out(d, attached, None, serial),
            Some(known) => {
                lemma_first(phones, known_wireless(serial));
                let address = address_of(known);
                assert(address == serial) by {
                    let i = first(phones, known_wireless(serial))->0;
                    assert(phones[i] == known);
                }
                let (o, ok) = joined(d.outside, address);
                let d = d.with(o);
                let (o, scan) = scanned(d.outside);
                let d = d.with(o);
                if let Ok(attached) = scan {
                    if let Some(there) = found(attached, usable_as(address)) {
                        let (o, stable) = identified(d.outside, address);
                        let d = d.with(o);
                        settles_recalled(d, address, there.name, stable, None);
                        let m = recalled(d, address, there.name, stable, None, true);
                        let verified = if stable is Some {
                            Some(address)
                        } else {
                            None
                        };
                        crate::laws::goes_on_worked_out(m, attached, verified);
                        if !m.outside.waiting {
                            settles_worked_out(m, attached, verified, serial);
                        }
                    }
                }
            },
        }
    }
}

/// A phone that was selected is the selected phone from then on, and the capture
/// of no other is left. A phone that is reached over the network at another
/// address than the one it goes by is then selected by that address.
pub proof fn a_selected_phone_is_the_selected_one(d: DaemonView, serial: Seq<char>)
    requires
        coherent(d.core),
        at_home(d.core.registry, serial),
    ensures
        ({
            let (e, r) = selected(d, serial);
            r is Ok && !e.outside.waiting ==> e.core.registry.selected == Some(serial)
        }),
{
    broadcast use group_keeps_refresh;
    broadcast use crate::laws::group_goes_on_all;

    reveal(selected);
    reveal(chosen);
    reveal(kept_on_disk);
    let (o, scan) = scanned(d.outside);
    let d = d.with(o);
    if let Ok(attached) = scan {
        let s = if d.core.state.capture is Some && !capture_of(d.core.state, serial) {
            stopped(d)
        } else {
            d
        };
        keeps_stopped(d);
        let c = chosen(s, serial);
        let m = if pairing(c.core.state.connection) {
            announced(c, ConnectionView::NoPhone, told(attached))
        } else {
            c
        };
        if !m.outside.waiting {
            assert(m.core.registry.phones == d.core.registry.phones);
            settles_refreshed(m, serial);
        }
    }
}

// ---------------------------------------------------------------------------
// What each request leaves

/// Changing a setting changes what is pending and nothing else, once the desk
/// has been looked at: not what is applied, not the capture, not what is
/// remembered, and nothing is launched. A change that is refused changes
/// nothing.
pub proof fn a_change_is_only_pending(d: DaemonView, name: Seq<char>, json: Seq<char>)
    requires
        coherent(d.core),
    ensures
        ({
            let m = refreshed(d).0;
            let (e, r) = adjusted(d, name, json);
            &&& e.core.registry == m.core.registry
            &&& e.core.state.capture == m.core.state.capture
            &&& e.core.state.connection == m.core.state.connection
            &&& e.core.writer == m.core.writer
            &&& launches(e.outside.trace) == launches(m.outside.trace)
            &&& r is Ok && !e.outside.waiting ==> (m.core.state.connection matches
                ConnectionView::Connected { phone } && e.core.state.settings matches Some(s) && {
                &&& s.phone == phone.serial
                &&& settings_for(m.core.state.settings, phone.serial) matches Some(before)
                    ==> amounts_to(s.applied, before.applied) && exists|v: SettingValueView|
                    v.json == json && ((#[trigger] changed(before, name, v)) matches Ok(next)
                        && amounts_to(s.pending, next.pending))
            })
        }),
{
    broadcast use group_keeps_refresh;
    broadcast use crate::laws::group_goes_on_all;

    reveal(adjusted);
    reveal(equipped);
    let m = refreshed(d).0;
    if let ConnectionView::Connected { phone } = m.core.state.connection {
        keeps_equipped(m, phone.serial);
    }
    lemma_changed_keeps();
    keeps_adjusted(d, name, json);
    if let ConnectionView::Connected { phone } = m.core.state.connection {
        if let Some(before) = settings_for(m.core.state.settings, phone.serial) {
            let v = valued(m.outside, json).1;
            assert(changed(before, name, v) == changed(before, name, v));
        }
    }
}

/// Changing a setting keeps the phone, its lenses and what is applied.
proof fn lemma_changed_keeps()
    ensures
        forall|s: SettingsStateView, name: Seq<char>, value: SettingValueView|
            (#[trigger] changed(s, name, value)) matches Ok(next) ==> next.phone == s.phone
                && next.applied == s.applied && next.lenses == s.lenses,
{
}

/// Throwing the pending settings away leaves those that are applied, for the
/// same phone, and changes nothing else at all.
pub proof fn discarding_leaves_what_is_applied(d: DaemonView)
    requires
        coherent(d.core),
        !d.outside.waiting,
    ensures
        ({
            let (e, r) = abandoned(d);
            &&& r is Ok <==> d.core.state.settings is Some
            &&& d.core.state.settings matches Some(before) ==> e.core.state.settings matches Some(s)
                && {
                &&& s.phone == before.phone
                &&& amounts_to(s.applied, before.applied)
                &&& amounts_to(s.pending, before.applied)
                &&& s.rejected is None
            }
            &&& e.core.registry == d.core.registry
            &&& e.core.state.capture == d.core.state.capture
            &&& e.core.state.connection == d.core.state.connection
            &&& e.core.writer == d.core.writer
            &&& launches(e.outside.trace) == launches(d.outside.trace)
        }),
{
    broadcast use group_keeps_all;
    broadcast use crate::laws::group_goes_on_all;

    reveal(abandoned);
    reveal(coherent);
    reveal(true_state);
}

/// The preview is shown or hidden as it was asked, in the style that came with
/// the request, and nothing is launched for it.
pub proof fn the_preview_is_as_it_was_asked(d: DaemonView, visible: bool, style: PreviewStyle)
    requires
        coherent(d.core),
    ensures
        ({
            let (e, r) = previewed(d, visible, style);
            &&& r is Ok && !e.outside.waiting ==> {
                &&& e.core.state.capture matches Some(c) && c.preview == visible
                &&& e.core.state.preview_style == style
            }
            &&& launches(e.outside.trace) == launches(d.outside.trace)
            &&& e.core.registry == d.core.registry
            &&& d.core.state.capture is None ==> r is Err
        }),
{
    broadcast use group_keeps_all;
    broadcast use crate::laws::group_goes_on_all;

    reveal(previewed);
    reveal(themed);
    reveal(turned);
    reveal(reaped);
    reveal(prepared);
    reveal(announced);
    reveal(coherent);
}

/// Forgetting a known phone gives the disk the registry without its first entry,
/// the others as they were, before anything else is done; a phone that is not
/// known is refused, and nothing is done.
pub proof fn forgetting_is_remembered(d: DaemonView, serial: Seq<char>, at: int)
    requires
        !d.outside.waiting,
    ensures
        ({
            let phones = d.core.registry.phones;
            let n = d.outside.trace.len() as int;
            let (e, r) = dismissed(d, serial);
            &&& (forall|i: int| 0 <= i < phones.len() ==> (#[trigger] phones[i]).phone.serial != serial)
                ==> r is Err && e == d
            &&& 0 <= at < phones.len() && phones[at].phone.serial == serial && (forall|i: int|
                0 <= i < at ==> (#[trigger] phones[i]).phone.serial != serial) ==> {
                &&& r is Ok
                &&& e.outside.trace.len() > n
                &&& e.outside.trace[n] matches ActView::Save { registry } && {
                    &&& registry.phones.len() + 1 == phones.len()
                    &&& forall|i: int| 0 <= i < at ==> #[trigger] registry.phones[i] == phones[i]
                    &&& forall|i: int|
                        at < i < phones.len() ==> registry.phones[i - 1] == #[trigger] phones[i]
                    &&& lookup(registry.settings, phones[at].id) is None
                    &&& registry.selected == (if d.core.registry.selected == Some(serial) {
                        None
                    } else {
                        d.core.registry.selected
                    })
                }
            }
        }),
{
    broadcast use crate::laws::group_goes_on_all;

    let phones = d.core.registry.phones;
    lemma_first(phones, known_serial(serial));
    assert forall|i: int| 0 <= i < phones.len() implies known_serial(serial)(#[trigger] phones[i])
        == (phones[i].phone.serial == serial) by {}
    reveal(dismissed);
    if let Some(i) = first(phones, known_serial(serial)) {
        crate::phones::forgetting_takes_out_one_entry(d.core.registry, i);
        crate::phones::forgetting_leaves_nothing(d.core.registry, i);
        let known = phones[i];
        let held = d.hold_registry(forgotten(d.core.registry, i));
        let kept = registry_saved(held);
        let parted = if known.transport == Transport::Wireless {
            kept.with(parted(kept.outside, address_of(known)).0)
        } else {
            kept
        };
        let ended = if capture_of(parted.core.state, serial) {
            stopped(parted)
        } else {
            parted
        };
        let e = emptied(ended);
        assert(goes_on(kept, e));
        reveal(registry_saved);
        reveal(kept_on_disk);
        reveal(goes_on);
        reveal(leads);
        let n = d.outside.trace.len() as int;
        assert(kept.outside.trace[n] == (ActView::Save { registry: held.core.registry }));
    }
}

/// Forgetting a phone that is reached over the network drops its connection.
pub proof fn forgetting_drops_the_connection(d: DaemonView, serial: Seq<char>, at: int)
    requires
        0 <= at < d.core.registry.phones.len(),
        d.core.registry.phones[at].phone.serial == serial,
        d.core.registry.phones[at].transport == Transport::Wireless,
        forall|i: int|
            0 <= i < at ==> (#[trigger] d.core.registry.phones[i]).phone.serial != serial,
    ensures
        ({
            let e = dismissed(d, serial).0;
            !e.outside.waiting ==> e.outside.trace.contains(
                ActView::Run {
                    argv: seq![
                        "adb"@,
                        "disconnect"@,
                        address_of(d.core.registry.phones[at]),
                    ],
                    collect: false,
                },
            )
        }),
{
    broadcast use crate::laws::group_goes_on_all;

    let phones = d.core.registry.phones;
    lemma_first(phones, known_serial(serial));
    assert(known_serial(serial)(phones[at]));
    reveal(dismissed);
    let known = phones[at];
    assert(first(phones, known_serial(serial)) == Some(at)) by {
        let i = first(phones, known_serial(serial))->0;
        assert(known_serial(serial)(phones[i]));
    }
    let kept = registry_saved(d.hold_registry(forgotten(d.core.registry, at)));
    let parted = kept.with(parted(kept.outside, address_of(known)).0);
    let ended = if capture_of(parted.core.state, serial) {
        stopped(parted)
    } else {
        parted
    };
    let e = emptied(ended);
    assert(goes_on(parted, e));
    if !e.outside.waiting {
        reveal(crate::phones::parted);
        reveal(goes_on);
        reveal(leads);
        let n = kept.outside.trace.len() as int;
        let act = ActView::Run {
            argv: seq!["adb"@, "disconnect"@, address_of(known)],
            collect: false,
        };
        assert(parted.outside.trace[n] == act);
        assert(e.outside.trace[n] == act);
    }
}

/// Pairing gives adb the pairing address and the code, and then the connect
/// address: each its own. A pairing that succeeds ends with the phone connected
/// at its connect address.
pub proof fn pairing_uses_both_addresses(
    d: DaemonView,
    pair_address: Seq<char>,
    code: Seq<char>,
    address: Seq<char>,
)
    requires
        !d.outside.waiting,
    ensures
        ({
            let (e, r) = coupled(d, pair_address, code, address);
            let n = d.outside.trace.len() as int;
            &&& r is Ok && !e.outside.waiting ==> {
                &&& e.core.state.connection matches ConnectionView::Connected { phone }
                    && phone.serial == address
                &&& e.outside.trace.len() > n
                &&& e.outside.trace[n] == (ActView::Run {
                    argv: seq!["adb"@, "pair"@, pair_address, code],
                    collect: true,
                })
                &&& e.outside.trace.contains(
                    ActView::Run { argv: seq!["adb"@, "connect"@, address], collect: true },
                )
            }
        }),
{
    broadcast use crate::laws::group_goes_on_all;

    reveal(coupled);
    let (e, r) = coupled(d, pair_address, code, address);
    if r is Ok && !e.outside.waiting {
        let (o, _) = paired(d.outside, pair_address, code);
        let p = d.with(o);
        let s = if p.core.state.capture is Some && !capture_of(p.core.state, address) {
            stopped(p)
        } else {
            p
        };
        let k = recalled(s, address, address, None, None, true);
        reveal(attached_anew);
        let j = k.with(joined(k.outside, address).0);
        assert(goes_on(p, e));
        assert(goes_on(j, e));
        reveal(paired);
        reveal(joined);
        reveal(goes_on);
        reveal(leads);
        let n = d.outside.trace.len() as int;
        let m = k.outside.trace.len() as int;
        assert(p.outside.trace[n] == (ActView::Run {
            argv: seq!["adb"@, "pair"@, pair_address, code],
            collect: true,
        }));
        assert(j.outside.trace[m] == (ActView::Run {
            argv: seq!["adb"@, "connect"@, address],
            collect: true,
        }));
        assert(e.outside.trace[m] == j.outside.trace[m]);
    }
}

// ---------------------------------------------------------------------------
// What looking shows

/// Whether clients see some attached phones, that adb answered, and the phones
/// that are remembered.
pub open spec fn shows(d: DaemonView, attached: Seq<protocol::AttachedView>) -> bool {
    !d.outside.waiting ==> {
        &&& d.core.state.attached == attached
        &&& d.core.state.adb_ok
        &&& d.core.state.known == d.core.registry.phones
    }
}

proof fn shows_announced(
    d: DaemonView,
    connection: ConnectionView,
    attached: Seq<protocol::AttachedView>,
)
    ensures
        shows(announced(d, connection, attached), attached),
        !announced(d, connection, attached).outside.waiting ==> announced(
            d,
            connection,
            attached,
        ).core.state.connection == connection,
{
    reveal(announced);
}

proof fn shows_confirmed(d: DaemonView, phone: PhoneView, attached: Seq<protocol::AttachedView>)
    requires
        coherent(d.core),
        shows(d, attached),
    ensures
        shows(confirmed(d, phone, attached), attached),
{
    broadcast use group_keeps_registry;
    broadcast use crate::laws::group_goes_on_all;

    reveal(confirmed);
    reveal(equipped);
    reveal(resumed);
    let e = equipped(d, phone.serial).0;
    let e = match equipped(d, phone.serial).1 {
        Ok(_) => e,
        Err(why) => e.log("could not inspect "@ + phone.name + "'s cameras: "@ + why),
    };
    assert(shows(e, attached));
    let m = resumed(e, phone);
    crate::laws::goes_on_resumed(e, phone);
    assert(shows(m, attached)) by {
        if let Some((public, settings)) = crate::daemon::resumable(e, phone) {
            let style = e.core.state.preview_style;
            let position = e.core.position;
            let (o, _) = if public.preview {
                crate::daemon::stand_in_hidden(e.outside, style, position)
            } else {
                (e.outside, true)
            };
            let f = e.with(o);
            let (o, started) = replaced(
                f.outside,
                phone.serial,
                public,
                settings,
                style,
                position,
            );
            let f = f.with(o);
            if let Err(why) = started {
                let f = if public.preview {
                    f.with(crate::daemon::stand_in_restored(f.outside, style, position))
                } else {
                    f
                };
                let f = f.log("could not reconnect "@ + phone.name + ": "@ + why);
                shows_announced(f, ConnectionView::Reconnecting { phone }, f.core.state.attached);
                crate::laws::goes_on_announced(
                    f,
                    ConnectionView::Reconnecting { phone },
                    f.core.state.attached,
                );
            }
        }
    }
    shows_announced(m, ConnectionView::Connected { phone }, attached);
}

proof fn shows_concluded(
    d: DaemonView,
    connection: ConnectionView,
    attached: Seq<protocol::AttachedView>,
)
    requires
        coherent(d.core),
        connection !is Reconnecting,
    ensures
        shows(concluded(d, connection, attached), attached),
{
    broadcast use group_keeps_confirm;
    broadcast use crate::laws::group_goes_on_all;

    reveal(concluded);
    let (d, shown) = reconnecting(d, connection);
    shows_announced(d, shown, attached);
    let d = announced(d, shown, attached);
    match connection {
        ConnectionView::Connected { phone } => shows_confirmed(d, phone, attached),
        ConnectionView::Connecting { phone } => {
            let (o, _) = answered(d.outside, phone.serial);
            let d = d.with(o);
            let shown = if d.needs_writer() {
                ConnectionView::Reconnecting { phone }
            } else {
                ConnectionView::Connected { phone }
            };
            shows_announced(d, shown, attached);
            shows_confirmed(announced(d, shown, attached), phone, attached);
        },
        _ => {},
    }
}

proof fn shows_worked_out(d: DaemonView, attached: Seq<AttachedView>, verified: Option<Seq<char>>)
    requires
        coherent(d.core),
    ensures
        shows(worked_out(d, attached, verified), told(attached)),
{
    broadcast use group_keeps_conclude;
    broadcast use crate::laws::group_goes_on_all;

    reveal(worked_out);
    reveal(vetted);
    let (connection, remember) = resolved(attached, d.core.registry.selected);
    let d = match remember {
        Some(serial) => chosen(d, serial),
        None => d,
    };
    let already = still_connected(d.core.state.connection, connection, attached);
    if let ConnectionView::Connecting { phone } = connection {
        if let Some(known) = found(d.core.registry.phones, known_wireless(phone.serial)) {
            let d = d.with(identified(d.outside, phone.serial).0);
            let d = d.with(parted(d.outside, phone.serial).0);
            shows_announced(
                d,
                ConnectionView::Unreachable { phone: known.phone, connect_address: phone.serial },
                told(attached),
            );
        }
    }
    let (d, _) = if already {
        (d, true)
    } else {
        vetted(d, connection, attached, verified)
    };
    shows_concluded(
        noticed(d, attached),
        match connection {
            ConnectionView::Connecting { phone } => if already {
                ConnectionView::Connected { phone }
            } else {
                connection
            },
            _ => connection,
        },
        told(attached),
    );
}

/// Looking at the desk shows clients every phone that adb lists, that adb
/// answered, and the phones that are remembered; where adb does not answer, it
/// shows that, and no phone as attached. Where the selected phone is not there
/// but can be reached over the network, it is looked for first.
pub proof fn looking_shows_what_is_there(d: DaemonView, attached: Seq<AttachedView>)
    requires
        coherent(d.core),
    ensures
        ({
            let (e, ok) = refreshed(d);
            let (_, scan) = scanned(d.outside);
            &&& scan == Ok::<Seq<AttachedView>, Seq<char>>(attached) && awaited(
                d.core.registry,
                attached,
            ) is None ==> ok && shows(e, told(attached))
            &&& scan is Err ==> !ok && (!e.outside.waiting ==> {
                &&& !e.core.state.adb_ok
                &&& e.core.state.attached =~= Seq::empty()
                &&& e.core.state.known == e.core.registry.phones
                &&& e.core.state.connection is NoPhone || e.core.state.connection is Reconnecting
                &&& e.core.writer is None
            })
        }),
{
    broadcast use group_keeps_rejoin;
    broadcast use crate::laws::group_goes_on_all;

    reveal(refreshed);
    let (o, scan) = scanned(d.outside);
    let d = d.with(o);
    match scan {
        Err(e) => {
            reveal(adb_lost);
            reveal(reconnecting);
            let lost = d.log("could not scan phones: "@ + e);
            let (m, connection) = reconnecting(lost, ConnectionView::NoPhone);
        },
        Ok(attached) => {
            if pairing(d.core.state.connection) {
                shows_announced(d, d.core.state.connection, told(attached));
            } else if awaited(d.core.registry, attached) is None {
                shows_worked_out(d, attached, None);
            }
        },
    }
}

// ---------------------------------------------------------------------------
// Losing and refusing

/// A writer that is no longer running is no writer, and the capture it wrote for
/// is kept and shown as reconnecting; one that runs is left alone.
pub proof fn a_lost_writer_is_reconnecting(d: DaemonView)
    requires
        coherent(d.core),
        d.core.writer is Some,
    ensures
        ({
            let e = reaped(d);
            let seen = polled(d.outside).1;
            &&& e.core.state.capture == d.core.state.capture
            &&& e.core.registry == d.core.registry
            &&& launches(e.outside.trace) == launches(d.outside.trace)
            &&& !e.outside.waiting && seen is Running ==> e.core == d.core
            &&& !e.outside.waiting && seen !is Running ==> e.core.writer is None && (
            d.core.state.capture matches Some(c) && e.core.state.connection == (
            ConnectionView::Reconnecting { phone: c.phone }))
        }),
{
    broadcast use group_keeps_publish;
    broadcast use crate::laws::group_goes_on_all;

    reveal(reaped);
    reveal(coherent);
    let m = prepared(d.with(polled(d.outside).0)).hold_writer(None);
    if let Some(c) = d.core.state.capture {
        shows_announced(
            m,
            ConnectionView::Reconnecting { phone: c.phone },
            m.core.state.attached,
        );
    }
}

/// A capture whose phone is not connected is not written: the writer is ended,
/// and clients see that the capture's phone is being reconnected. A connected
/// phone keeps its writer.
pub proof fn a_capture_without_its_phone_is_not_written(d: DaemonView, connection: ConnectionView)
    requires
        coherent(d.core),
        connection !is Reconnecting,
    ensures
        ({
            let (e, shown) = reconnecting(d, connection);
            &&& connection is Connected ==> e == d && shown == connection
            &&& connection !is Connected && !e.outside.waiting ==> e.core.writer is None
            &&& connection !is Connected ==> shown == (match d.core.state.capture {
                Some(c) => ConnectionView::Reconnecting { phone: c.phone },
                None => connection,
            })
        }),
{
    broadcast use group_keeps_publish;
    broadcast use crate::laws::group_goes_on_all;

    reveal(reconnecting);
}

/// Without a connected phone nothing is started and nothing is launched. A
/// capture that was requested before is left as it was, and starting it again is
/// no error, whatever adb says.
pub proof fn starting_needs_a_connected_phone(
    d: DaemonView,
    stay_awake: bool,
    style: PreviewStyle,
)
    requires
        coherent(d.core),
    ensures
        ({
            let (e, r) = started(d, stay_awake, style);
            let m = refreshed(reaped(d)).0;
            &&& d.core.state.capture is Some ==> e.core.state.capture == d.core.state.capture
            &&& d.core.state.capture is Some && !stay_awake ==> r is Ok && e == m
            &&& d.core.state.capture is None && m.core.state.connection !is Connected ==> r is Err
                && launches(e.outside.trace) == launches(d.outside.trace)
            &&& d.core.state.capture is None && m.core.state.connection !is Connected && !stay_awake
                ==> e == m
        }),
{
    broadcast use group_keeps_all;
    broadcast use crate::laws::group_goes_on_all;

    reveal(started);
    if d.core.state.capture is None {
        reveal(coherent);
        reveal(reaped);
        looking_launches_nothing_unasked(d);
    }
}

/// A pairing that failed says so, to whoever asked and to every client, and
/// remembers nothing: neither a phone nor a selection.
pub proof fn a_failed_pairing_is_shown(
    d: DaemonView,
    pair_address: Seq<char>,
    code: Seq<char>,
    address: Seq<char>,
    reason: PairingFailure,
)
    requires
        coherent(d.core),
        crate::phones::endpoint(address),
        paired(d.outside, pair_address, code).1 == Err::<(), PairingFailure>(reason),
    ensures
        ({
            let (e, r) = coupled(d, pair_address, code, address);
            &&& r is Err
            &&& !e.outside.waiting ==> e.core.state.connection == (
            ConnectionView::PairingFailed { reason })
            &&& e.core.registry == d.core.registry
            &&& e.core.state.capture == d.core.state.capture
            &&& e.core.writer == d.core.writer
        }),
{
    broadcast use group_keeps_all;
    broadcast use crate::laws::group_goes_on_all;

    reveal(coupled);
    let p = d.with(paired(d.outside, pair_address, code).0);
    shows_announced(p, ConnectionView::PairingFailed { reason }, p.core.state.attached);
}

/// A phone that was paired and connected is the selected phone, and no capture
/// of another is left.
pub proof fn a_paired_phone_is_selected(
    d: DaemonView,
    pair_address: Seq<char>,
    code: Seq<char>,
    address: Seq<char>,
)
    requires
        coherent(d.core),
    ensures
        ({
            let (e, r) = coupled(d, pair_address, code, address);
            r is Ok && !e.outside.waiting ==> {
                &&& e.core.registry.selected == Some(address)
                &&& e.core.state.capture is None || capture_of(e.core.state, address)
            }
        }),
{
    broadcast use group_keeps_refresh;
    broadcast use crate::laws::group_goes_on_all;

    reveal(coupled);
    let (e, r) = coupled(d, pair_address, code, address);
    if r is Ok && !e.outside.waiting {
        let p = d.with(paired(d.outside, pair_address, code).0);
        keeps_stopped(p);
        let s = if p.core.state.capture is Some && !capture_of(p.core.state, address) {
            stopped(p)
        } else {
            p
        };
        let k = recalled(s, address, address, None, None, true);
        reveal(attached_anew);
        let j = k.with(joined(k.outside, address).0);
        let (o, scan) = scanned(j.outside);
        let j = j.with(o);
        let attached = scan->Ok_0;
        let there = found(attached, usable_as(address))->0;
        let (o, stable) = identified(j.outside, address);
        let i = j.with(o);
        let m = recalled(i, address, there.name, stable, None, true);
        let phone = PhoneView { serial: address, name: there.name };
        let shown = ConnectionView::Connecting { phone };
        let a = announced(m, shown, told(attached));
        settles_recalled(i, address, there.name, stable, None);
        lemma_recalled_at_home(i, address, there.name, stable, None);
        keeps_recalled(i, address, there.name, stable, None, true);
        keeps_announced(m, shown, told(attached));
        if !a.outside.waiting {
            settles_refreshed(a, address);
        }
    }
}

proof fn lemma_recalled_at_home(
    d: DaemonView,
    address: Seq<char>,
    name: Seq<char>,
    stable: Option<Seq<char>>,
    previous: Option<Seq<char>>,
)
    ensures
        !recalled(d, address, name, stable, previous, true).outside.waiting ==> at_home(
            recalled(d, address, name, stable, previous, true).core.registry,
            address,
        ),
{
    broadcast use crate::laws::group_goes_on_all;

    reveal(recalled);
    reveal(registry_saved);
    reveal(kept_on_disk);
    crate::phones::a_phone_is_one_entry(d.core.registry, address, name, stable, previous, true);
    let after = crate::phones::remembered(
        d.core.registry,
        address,
        name,
        stable,
        previous,
        true,
    );
    lemma_first(after.phones, known_serial(address));
    let own = found(after.phones, known_serial(address))->0;
    assert(after.phones.contains(own));
    assert forall|i: int|
        0 <= i < after.phones.len() && (#[trigger] after.phones[i]).phone.serial == address
            && after.phones[i].transport == Transport::Wireless implies address_of(after.phones[i])
        == address by {
        assert(after.phones.contains(after.phones[i]));
    }
}

/// A device that is not the phone that is known is dropped, not taken for it:
/// whoever answers at a new address must give the identity that is known.
/// Nothing that is remembered or shown changes.
pub proof fn a_wrong_phone_changes_nothing(
    d: DaemonView,
    known: KnownPhoneView,
    serial: Seq<char>,
    address: Seq<char>,
)
    requires
        known.hardware_id is Some,
        ({
            let (o, scan) = scanned(d.outside);
            scan is Ok && found(scan->Ok_0, usable_as(address)) is Some && identified(o, address).1
                != known.hardware_id
        }),
    ensures
        ({
            let (e, r) = examined(d, known, serial, address);
            &&& r is Err
            &&& e.core == d.core
            &&& !e.outside.waiting ==> e.outside.trace.last() == (ActView::Run {
                argv: seq!["adb"@, "disconnect"@, address],
                collect: false,
            })
        }),
{
    reveal(examined);
    reveal(crate::phones::parted);
}

/// The same of a known phone that is reached again: another device at its
/// address is dropped, the phone is shown as unreachable, and nothing that is
/// remembered changes.
pub proof fn another_device_is_not_the_known_phone(
    d: DaemonView,
    known: KnownPhoneView,
    attached: Seq<AttachedView>,
)
    requires
        coherent(d.core),
        known.hardware_id is Some,
        ({
            let address = address_of(known);
            let (o, ok) = joined(d.outside, address);
            let (o, scan) = scanned(o);
            ok && scan is Ok && found(scan->Ok_0, usable_as(address)) is Some && identified(
                o,
                address,
            ).1 != known.hardware_id
        }),
    ensures
        ({
            let (e, _) = rejoined(d, known, attached);
            &&& e.core.registry == d.core.registry
            &&& !e.outside.waiting ==> e.core.state.connection == (ConnectionView::Unreachable {
                phone: known.phone,
                connect_address: address_of(known),
            })
            &&& e.core.writer == d.core.writer
            &&& launches(e.outside.trace) == launches(d.outside.trace)
        }),
{
    broadcast use group_keeps_work;
    broadcast use crate::laws::group_goes_on_all;

    reveal(rejoined);
    let address = address_of(known);
    let (o, _) = joined(d.outside, address);
    let (o, scan) = scanned(o);
    let (o, _) = identified(o, address);
    let (o, _) = parted(o, address);
    let m = d.with(o);
    shows_announced(
        m,
        ConnectionView::Unreachable { phone: known.phone, connect_address: address },
        told(scan->Ok_0),
    );
}

/// A capture follows its phone to a new address: it stays on its node, at its
/// frame size, shown or hidden as it was. A capture of another phone is left as
/// it was.
pub proof fn a_capture_follows_its_phone(
    d: DaemonView,
    serial: Seq<char>,
    address: Seq<char>,
    name: Seq<char>,
    stable: Seq<char>,
    attached: Seq<protocol::AttachedView>,
)
    requires
        coherent(d.core),
    ensures
        ({
            let e = followed(d, serial, address, name, stable, attached).0;
            !e.outside.waiting ==> match d.core.state.capture {
                None => e.core.state.capture is None,
                Some(c) => e.core.state.capture matches Some(now) && {
                    &&& c.phone.serial == serial ==> now == (CaptureView {
                        phone: PhoneView { serial: address, name },
                        ..c
                    })
                    &&& c.phone.serial != serial && (forall|i: int|
                        0 <= i < d.core.registry.phones.len() && (
                        #[trigger] d.core.registry.phones[i]).hardware_id == Some(stable)
                            ==> d.core.registry.phones[i].phone.serial != c.phone.serial) ==> now
                        == c
                },
            }
        }),
{
    broadcast use group_keeps_daemon;
    broadcast use crate::laws::group_goes_on_all;

    reveal(coherent);
    reveal(true_state);
    reveal(followed);
    let phones = d.core.registry.phones;
    lemma_first(phones, known_hardware(stable));
    if let Some(i) = first(phones, known_hardware(stable)) {
        assert(known_hardware(stable)(phones[i]));
    }
}

/// Selecting the phone that is captured leaves the capture as it was, and so
/// does forgetting a phone that is not.
pub proof fn the_capture_of_a_kept_phone_stays(d: DaemonView, serial: Seq<char>)
    requires
        coherent(d.core),
    ensures
        capture_of(d.core.state, serial) ==> selected(d, serial).0.core.state.capture
            == d.core.state.capture,
        !capture_of(d.core.state, serial) ==> dismissed(d, serial).0.core.state.capture
            == d.core.state.capture,
{
    broadcast use group_keeps_all;
    broadcast use crate::laws::group_goes_on_all;

    reveal(coherent);
    reveal(true_state);
    reveal(selected);
    reveal(dismissed);
}

/// With nothing pending there is nothing to apply: nothing is launched and
/// nothing is kept. Where it cannot be told whether anybody watches, an Apply
/// that would change the frame size leaves everything as it was.
pub proof fn an_apply_that_does_nothing(
    d: DaemonView,
    phone: PhoneView,
    view: SettingsStateView,
    capture: CaptureView,
    writer: u32,
)
    requires
        coherent(d.core),
    ensures
        frame_size(view.pending) != frame_size(view.applied) && consumed(
            d.outside,
            capture.node,
            writer,
        ).1 is Err ==> {
            let (e, r) = applied_live(d, phone, view, capture, writer);
            r is Err && e.core == d.core && launches(e.outside.trace) == launches(d.outside.trace)
        },
        ({
            let m = reaped(refreshed(d).0);
            let (n, equipped) = equipped(m, phone.serial);
            m.core.state.connection == (ConnectionView::Connected { phone }) && refreshed(d).1 && (
            equipped matches Ok(own) && !own.has_pending_changes) ==> applied(d) == (
                n,
                Ok::<(), crate::operations::RefusalView>(()),
            )
        }),
{
    broadcast use crate::laws::group_goes_on_all;

    reveal(applied_live);
    reveal(cleared);
    reveal(applied);
}

/// Refreshing starts adb's server before anything else; where that fails, adb is
/// shown as not answering, and where it does not, the desk is looked at.
pub proof fn refreshing_starts_the_server(d: DaemonView)
    requires
        coherent(d.core),
        !d.outside.waiting,
    ensures
        ({
            let (e, ok) = adb_refreshed(d);
            let n = d.outside.trace.len() as int;
            &&& e.outside.trace.len() > n && e.outside.trace[n] == (ActView::Run {
                argv: seq!["adb"@, "start-server"@],
                collect: false,
            })
            &&& ok && !e.outside.waiting ==> e.core.state.adb_ok
            &&& !ok && !e.outside.waiting ==> !e.core.state.adb_ok
        }),
{
    broadcast use group_keeps_rejoin;
    broadcast use crate::laws::group_goes_on_all;

    reveal(adb_refreshed);
    let (o, outcome) = d.outside.run(crate::operations::server_command(), false);
    let m = d.with(o);
    let e = adb_refreshed(d).0;
    assert(goes_on(m, e));
    let n = d.outside.trace.len() as int;
    assert(m.outside.trace[n] == e.outside.trace[n] && e.outside.trace.len() > n) by {
        reveal(goes_on);
        reveal(leads);
    }
    reveal(adb_lost);
    reveal(refreshed);
    let (p, scan) = scanned(m.outside);
    let q = m.with(p);
    if let Ok(attached) = scan {
        if pairing(q.core.state.connection) {
            shows_announced(q, q.core.state.connection, told(attached));
        } else {
            match awaited(q.core.registry, attached) {
                None => shows_worked_out(q, attached, None),
                Some(known) => shows_rejoined(q, known, attached),
            }
        }
    }
}

/// Looking for a phone over the network shows what adb then lists, or that adb
/// does not answer.
proof fn shows_rejoined(d: DaemonView, known: KnownPhoneView, attached: Seq<AttachedView>)
    requires
        coherent(d.core),
    ensures
        ({
            let (e, ok) = rejoined(d, known, attached);
            !e.outside.waiting ==> e.core.state.adb_ok == ok && e.core.state.known
                == e.core.registry.phones
        }),
{
    broadcast use group_keeps_work;
    broadcast use crate::laws::group_goes_on_all;

    reveal(rejoined);
    reveal(not_reached);
    reveal(adb_lost);
    let address = address_of(known);
    let (o, ok) = joined(d.outside, address);
    let d = d.with(o);
    let away = ConnectionView::Unreachable { phone: known.phone, connect_address: address };
    if !ok {
        let (m, shown) = reconnecting(d, away);
        shows_announced(m, shown, told(attached));
    } else {
        let (o, scan) = scanned(d.outside);
        let d = d.with(o);
        if let Ok(attached) = scan {
            match found(attached, usable_as(address)) {
                None => {
                    let (m, shown) = reconnecting(d, away);
                    shows_announced(m, shown, told(attached));
                },
                Some(there) => {
                    let (o, stable) = identified(d.outside, address);
                    let d = d.with(o);
                    shows_announced(d.with(parted(d.outside, address).0), away, told(attached));
                    shows_worked_out(
                        recalled(d, address, there.name, stable, None, true),
                        attached,
                        if stable is Some {
                            Some(address)
                        } else {
                            None
                        },
                    );
                },
            }
        }
    }
}

} // verus!
