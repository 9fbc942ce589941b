//! How what is reported is read: what the tools print, what processes have open,
//! what clients ask for and what they are answered.

use vstd::prelude::*;

use crate::capture::{
    appeared, attended, consumed, consumes, feeding, hides, left, move_text, placement, reads,
    some_consumes, some_hides, spawned, stream_command, window,
};
use crate::cli::{
    capture_words, connection_words, heard, invoked, known_entries, missing_entries, own_id,
    phone_entries, rendered, settings_words, settled, value_of, ClientView, InvocationView,
};
use crate::json::{json_field, json_natural, json_quote, json_string};
use crate::lists::lemma_first;
use crate::outside::{
    ActView, AnswerView, FdView, FdsView, OutcomeView, OutsideView, ProcessView,
};
use crate::phones::{
    connection_verdict, identified, moved, names_model, pairing_verdict, phone_line, reached, said,
};
use crate::protocol;
use crate::protocol::{
    CaptureView, KnownPhoneView, MissingView, PairingFailure, PhoneView, StateView, Transport,
    VERSION,
};
use crate::requests::{
    held, milliseconds_of, state_directory, style_in, understood, OperationView, RequestView,
};
use crate::settings::{line_read, size_of, CameraSettingsView, ReadingView};
use crate::table::lookup;
use crate::text;
use crate::text::{
    begins, decimal, holds, lossy_text, replaced, signed_decimal, trimmed, words,
};

verus! {

// ---------------------------------------------------------------------------
// adb

/// adb made a connection only where it exited with success and said neither that
/// it failed nor that it could not.
pub proof fn adb_connects_where_nothing_speaks_against_it(outcome: OutcomeView)
    ensures
        connection_verdict(outcome) <==> (outcome matches OutcomeView::Exited {
            success,
            stdout,
            stderr,
            ..
        } && success && !holds(said(stdout, stderr), "failed"@) && !holds(
            said(stdout, stderr),
            "unable"@,
        ) && !holds(said(stdout, stderr), "cannot"@)),
{
    let list = crate::phones::failure_words();
    assert(list[0] == "failed"@ && list[1] == "unable"@ && list[2] == "cannot"@);
    if let OutcomeView::Exited { stdout, stderr, .. } = outcome {
        let s = said(stdout, stderr);
        if holds(s, "failed"@) {
            assert(holds(s, list[0]));
        }
        if holds(s, "unable"@) {
            assert(holds(s, list[1]));
        }
        if holds(s, "cannot"@) {
            assert(holds(s, list[2]));
        }
    }
}

/// Pairing succeeds where adb exits with success, and nowhere else. The code is
/// blamed where adb speaks of it, the address only where adb does not, and a
/// tool that did not run at all blames neither.
pub proof fn pairing_blames_what_adb_blames(outcome: OutcomeView)
    ensures
        pairing_verdict(outcome) is Ok <==> crate::outside::succeeded(outcome),
        outcome is Failed ==> pairing_verdict(outcome) == Err::<(), PairingFailure>(
            PairingFailure::Unreachable,
        ),
        outcome matches OutcomeView::Exited { success, stdout, stderr, .. } ==> !success ==> {
            let s = said(stdout, stderr);
            pairing_verdict(outcome) == Err::<(), PairingFailure>(
                if holds(s, "wrong password"@) || holds(s, "pairing code"@) {
                    PairingFailure::WrongCode
                } else if holds(s, "unknown host"@) || holds(s, "bad port"@) || holds(
                    s,
                    "invalid address"@,
                ) || holds(s, "name or service"@) {
                    PairingFailure::WrongAddress
                } else {
                    PairingFailure::Unreachable
                },
            )
        },
{
    let list = crate::phones::address_words();
    assert(list[0] == "unknown host"@ && list[1] == "bad port"@);
    assert(list[2] == "invalid address"@ && list[3] == "name or service"@);
    if let OutcomeView::Exited { stdout, stderr, .. } = outcome {
        let s = said(stdout, stderr);
        if holds(s, "unknown host"@) {
            assert(holds(s, list[0]));
        }
        if holds(s, "bad port"@) {
            assert(holds(s, list[1]));
        }
        if holds(s, "invalid address"@) {
            assert(holds(s, list[2]));
        }
        if holds(s, "name or service"@) {
            assert(holds(s, list[3]));
        }
    }
}

/// A phone's identity is what it printed, without the space around it; a phone
/// that could not be asked, or that printed nothing, has none.
pub proof fn an_identity_is_what_the_phone_said(o: OutsideView, serial: Seq<char>)
    ensures
        ({
            let (_, outcome) = o.run(
                seq!["adb"@, "-s"@, serial, "shell"@, "getprop"@, "ro.serialno"@],
                true,
            );
            identified(o, serial).1 matches Some(id) <==> (outcome matches OutcomeView::Exited {
                success,
                stdout,
                ..
            } && success && trimmed(lossy_text(stdout)).len() > 0)
        }),
        ({
            let (_, outcome) = o.run(
                seq!["adb"@, "-s"@, serial, "shell"@, "getprop"@, "ro.serialno"@],
                true,
            );
            identified(o, serial).1 matches Some(id) ==> (outcome matches OutcomeView::Exited {
                stdout,
                ..
            } && id == trimmed(lossy_text(stdout)))
        }),
{
    reveal(identified);
}

/// Whether a word of a line, past the serial and the state, says the model.
pub open spec fn says_model(line: Seq<char>, j: int) -> bool {
    2 <= j < words(line).len() && begins(words(line)[j], "model:"@)
}

/// A phone is called by the model that its line gives, with spaces for the
/// underscores, and by its serial where the line gives none.
pub proof fn phones_are_named_by_their_model(line: Seq<char>)
    ensures
        phone_line(line) matches Some(a) ==> {
            ||| (forall|j: int| !#[trigger] says_model(line, j)) && a.name == a.serial
            ||| exists|j: int| #[trigger]
                says_model(line, j) && a.name == replaced(
                    words(line)[j].skip("model:"@.len() as int),
                    '_',
                    ' ',
                )
        },
{
    if let Some(a) = phone_line(line) {
        let rest = words(line).skip(2);
        lemma_first(rest, names_model());
        match crate::lists::first(rest, names_model()) {
            Some(i) => {
                assert(rest[i] == words(line)[i + 2]);
                assert(says_model(line, i + 2));
            },
            None => {
                assert forall|j: int| !#[trigger] says_model(line, j) by {
                    if says_model(line, j) {
                        assert(rest[j - 2] == words(line)[j]);
                        assert(names_model()(rest[j - 2]));
                    }
                }
            },
        }
    }
}

/// A phone that gives no identity keeps the one it had; an address is no
/// identity. One that gives an identity has it.
pub proof fn a_phone_keeps_its_identity(
    known: KnownPhoneView,
    address: Seq<char>,
    name: Seq<char>,
    id: Seq<char>,
)
    ensures
        reached(known, address, name, None).id == known.id,
        known.hardware_id != Some(address) ==> reached(known, address, name, None).hardware_id
            == known.hardware_id,
        known.hardware_id == Some(address) ==> reached(known, address, name, None).hardware_id
            is None,
        reached(known, address, name, Some(id)).id == id,
        reached(known, address, name, Some(id)).hardware_id == Some(id),
{
}

/// Settings that move to another identity leave nothing behind and disturb no
/// other phone's.
pub proof fn moved_settings_leave_nothing_behind(
    settings: Map<Seq<char>, CameraSettingsView>,
    from: Seq<char>,
    to: Seq<char>,
    other: Seq<char>,
)
    requires
        from != to,
        other != from,
        other != to,
    ensures
        lookup(moved(settings, from, to), from) is None,
        lookup(settings, from) is Some ==> lookup(moved(settings, from, to), to) == lookup(
            settings,
            from,
        ),
        lookup(settings, from) is None ==> moved(settings, from, to) == settings,
        lookup(moved(settings, from, to), other) == lookup(settings, other),
        moved(settings, to, to) == settings,
{
}

// ---------------------------------------------------------------------------
// The virtual camera

/// The node can be captured from where v4l2-ctl exits with success and lists
/// that it can.
pub proof fn a_node_feeds_where_it_says_so(o: OutsideView, node: Seq<char>)
    ensures
        ({
            let (p, outcome) = o.run(seq!["v4l2-ctl"@, "-d"@, node, "-D"@], true);
            &&& feeding(o, node).0 == p
            &&& feeding(o, node).1 matches Ok(feeds) ==> (outcome matches OutcomeView::Exited {
                success,
                stdout,
                ..
            } && success && feeds == holds(lossy_text(stdout), "Video Capture"@))
            &&& crate::outside::succeeded(outcome) ==> feeding(o, node).1 is Ok
        }),
{
    reveal(feeding);
}

/// A node that somebody feeds already is left alone: nothing is launched for it.
pub proof fn a_fed_node_is_left_alone(
    o: OutsideView,
    serial: Seq<char>,
    node: Seq<char>,
    settings: CameraSettingsView,
)
    requires
        !(feeding(o, node).1 matches Ok(feeds) && !feeds),
    ensures
        spawned(o, serial, node, settings).1 is Err,
        spawned(o, serial, node, settings).0 == feeding(o, node).0,
{
    reveal(spawned);
}

/// scrcpy is taken to feed the node only once the node said so.
pub proof fn waiting_ends_when_the_node_feeds(o: OutsideView, node: Seq<char>)
    ensures
        attended(o, node).1 is Ok ==> exists|p: OutsideView| #[trigger]
            feeding(p, node) == (
                attended(o, node).0,
                Ok::<bool, crate::capture::FailureView>(true),
            ),
    decreases left(o),
{
    reveal_with_fuel(attended, 2);
    let (o1, writer) = crate::capture::polled(o);
    if writer is Running {
        let (o2, feeds) = feeding(o1, node);
        if feeds == Ok::<bool, crate::capture::FailureView>(true) {
            assert(feeding(o1, node) == (o2, Ok::<bool, crate::capture::FailureView>(true)));
        } else if feeds is Ok {
            let (o3, expired) = crate::capture::paused(o2, 25);
            if !expired && left(o3) < left(o) {
                waiting_ends_when_the_node_feeds(o3, node);
            }
        }
    }
}

/// The preview is taken to be there only once the compositor listed it.
pub proof fn waiting_ends_when_the_window_is_there(o: OutsideView)
    ensures
        appeared(o).1 is Ok ==> exists|p: OutsideView|
            (#[trigger] window(p)).1 is Ok && window(p).0 == appeared(o).0,
    decreases left(o),
{
    reveal_with_fuel(appeared, 2);
    let (o1, client) = window(o);
    if client is Err {
        let (o2, expired) = crate::capture::paused(o1, 50);
        if !expired && left(o2) < left(o) {
            waiting_ends_when_the_window_is_there(o2);
        }
    }
}

/// Whether anybody watches is told by what the processes have open: one that is
/// not the writer and has the node open does, and where all of them can be
/// looked into and none has it open, nobody does. Where one cannot be looked
/// into, a second reader is tried: it gets a frame where nobody watches, and is
/// told that the device is busy where somebody does.
pub proof fn watching_is_told_by_what_is_open(
    o: OutsideView,
    node: Seq<char>,
    writer: u32,
    processes: Seq<ProcessView>,
)
    requires
        o.ask(ActView::Processes).1 == (AnswerView::Processes { processes }),
    ensures
        ({
            let (p, r) = consumed(o, node, writer);
            let (o1, _) = o.ask(ActView::Processes);
            let (o2, outcome) = o1.run(stream_command(node), true);
            let told = match outcome {
                OutcomeView::Exited { stderr, .. } => lossy_text(stderr),
                OutcomeView::Failed { .. } => Seq::empty(),
            };
            if some_consumes(processes, node, writer) {
                p == o1 && r == Ok::<bool, Seq<char>>(true)
            } else if !some_hides(processes, writer) {
                p == o1 && r == Ok::<bool, Seq<char>>(false)
            } else {
                &&& p == o2
                &&& r == Ok::<bool, Seq<char>>(false) <==> crate::outside::succeeded(outcome)
                &&& r == Ok::<bool, Seq<char>>(true) <==> outcome is Exited
                    && !crate::outside::succeeded(outcome) && holds(
                    told,
                    "Device or resource busy"@,
                )
            }
        }),
{
    reveal(consumed);
}

/// A process that is no longer there has nothing open and hides nothing, and so
/// has the writer. Any other hides something wherever it, the list of what it
/// has open, or an entry of that list cannot be read.
pub proof fn what_cannot_be_read_hides(
    name: Seq<char>,
    fds: Seq<FdView>,
    node: Seq<char>,
    writer: u32,
    pid: u32,
)
    requires
        name == decimal(pid as nat),
    ensures
        !hides(ProcessView::Gone, writer) && hides(ProcessView::Opaque, writer),
        !hides(ProcessView::Entry { name, fds: FdsView::Gone }, writer),
        hides(ProcessView::Entry { name, fds: FdsView::Opaque }, writer) <==> pid != writer,
        hides(ProcessView::Entry { name, fds: FdsView::Listed { fds } }, writer) <==> pid != writer
            && fds.contains(FdView::Opaque),
        consumes(ProcessView::Entry { name, fds: FdsView::Listed { fds } }, node, writer) <==> pid
            != writer && reads(fds, node),
        fds.contains(FdView::Target { path: node }) ==> reads(fds, node),
        !consumes(ProcessView::Gone, node, writer) && !consumes(ProcessView::Opaque, node, writer),
{
    text::numbers_are_read_back(pid as nat, u32::MAX as nat);
    if fds.contains(FdView::Target { path: node }) {
        let i = choose|i: int| 0 <= i < fds.len() && fds[i] == (FdView::Target { path: node });
        assert(crate::capture::is_node(fds[i], node));
    }
}

/// A place is said across first and down second, to the rule for a window and
/// to the window itself.
pub proof fn places_are_said_across_and_down(selector: Seq<char>, x: i64, y: i64)
    ensures
        placement(Some([x, y])) == "move = { "@ + signed_decimal(x as int) + ", "@ + signed_decimal(
            y as int,
        ) + " }"@,
        move_text(selector, [x, y]) == "hl.dsp.window.move({ window = \""@ + selector + "\", x = "@
            + signed_decimal(x as int) + ", y = "@ + signed_decimal(y as int) + " })"@,
{
}

// ---------------------------------------------------------------------------
// What cameras a phone has

/// A size that is listed is one more of the lens above it, and nothing else
/// changes; among the high-speed sizes it is passed over.
pub proof fn a_size_is_the_lens_aboves(
    o: OutsideView,
    reading: ReadingView,
    size: Seq<char>,
    lens: crate::settings::LensView,
)
    requires
        size_of(size) is Some,
        reading.current == Some(lens),
    ensures
        ({
            let (p, r) = line_read(o, reading, "- "@ + size);
            &&& p == o
            &&& r matches Ok(after) && {
                &&& after.lenses == reading.lenses
                &&& after.high_speed == reading.high_speed
                &&& after.current matches Some(now) && now == (crate::settings::LensView {
                    resolutions: now.resolutions,
                    ..lens
                }) && now.resolutions == if reading.high_speed {
                    lens.resolutions
                } else {
                    lens.resolutions.push(size)
                }
            }
        }),
{
    reveal_strlit("- ");
    reveal_strlit("--camera-id=");
    reveal_strlit("High speed capture");
    let line = "- "@ + size;
    assert(line[1] == ' ' && line[0] == '-');
    if begins(line, "--camera-id="@) {
        assert(line.take("--camera-id="@.len() as int)[1] == '-');
    }
    if begins(line, "High speed capture"@) {
        assert(line.take("High speed capture"@.len() as int)[0] == 'H');
    }
    assert(line.take(2) =~= "- "@);
    assert(line.skip(2) =~= size);
}

/// A line for a lens ends the lens before it, which is then read, and begins one
/// without sizes, whose sizes are no high-speed ones.
pub proof fn a_lens_begins_with_no_sizes(o: OutsideView, reading: ReadingView, rest: Seq<char>)
    ensures
        ({
            let (_, r) = line_read(o, reading, "--camera-id="@ + rest);
            r matches Ok(after) ==> {
                &&& match reading.current {
                    Some(lens) => after.lenses == reading.lenses.push(lens),
                    None => after.lenses == reading.lenses,
                }
                &&& !after.high_speed
                &&& after.current matches Some(lens) && lens.resolutions.len() == 0
                    && !lens.frame_rates.contains(0u32) && begins(rest, lens.id)
            }
        }),
{
    let line = "--camera-id="@ + rest;
    assert(line.take("--camera-id="@.len() as int) =~= "--camera-id="@);
    assert(line.skip("--camera-id="@.len() as int) =~= rest);
    let end = text::prefix_len(rest, crate::settings::solid());
    text::lemma_prefix_bounds(rest, crate::settings::solid());
    assert(rest.take(end).len() == end);
}

// ---------------------------------------------------------------------------
// Requests

/// A request is begun only where it speaks this protocol and has an id, and it
/// is begun under that id. Every other one is answered at once.
pub proof fn requests_are_begun_under_their_id(request: Seq<char>, rev: u64)
    ensures
        understood(request, rev) matches RequestView::Begin { id, .. } ==> {
            &&& json_field(request, "id"@) == Some(id) && id != "null"@
            &&& json_field(request, "v"@) matches Some(v) && json_natural(v) == Some(
                VERSION as u64,
            )
            &&& json_field(request, "kind"@) matches Some(v) && json_string(v) is Some
        },
        understood(request, rev) matches RequestView::Answered { message } ==> {
            ||| message == protocol::ok_text(crate::requests::id_in(request), rev)
            ||| exists|code: Seq<char>, why: Seq<char>|
                message == #[trigger] protocol::error_text(
                    crate::requests::id_in(request),
                    rev,
                    code,
                    why,
                )
        },
{
}

/// A request that begins asks for what its kind says, about the phone, the
/// address or the setting that it names.
pub proof fn requests_ask_for_what_they_name(request: Seq<char>, rev: u64, kind: Seq<char>)
    requires
        json_field(request, "kind"@) matches Some(v) && json_string(v) == Some(kind),
    ensures
        understood(request, rev) matches RequestView::Begin { operation, .. } ==> match operation {
            OperationView::Select { serial } => kind == "select"@ && serial
                == crate::requests::text_in(request, "serial"@),
            OperationView::Forget { serial } => kind == "forget"@ && serial
                == crate::requests::text_in(request, "serial"@),
            OperationView::Connect { serial, connect_address } => kind == "connect"@ && serial
                == crate::requests::text_in(request, "serial"@) && connect_address
                == crate::requests::text_in(request, "connect_address"@),
            OperationView::Pair { pair_address, code, connect_address } => kind == "pair"@
                && pair_address == crate::requests::text_in(request, "pair_address"@) && code
                == crate::requests::text_in(request, "code"@) && connect_address
                == crate::requests::text_in(request, "connect_address"@),
            OperationView::Change { setting, json } => kind == "set"@ && setting
                == crate::requests::text_in(request, "setting"@) && (json_field(
                request,
                "value"@,
            ) matches Some(v) ==> json == v),
            OperationView::Start { stay_awake, style } => kind == "start"@ && (stay_awake <==> (
            json_field(request, "stay_awake"@) matches Some(v) && crate::json::json_flag(v) == Some(
                true,
            ))) && style == style_in(request),
            OperationView::Preview { visible, style } => kind == "preview"@ && (json_field(
                request,
                "visible"@,
            ) matches Some(v) && crate::json::json_flag(v) == Some(visible)) && style == style_in(
                request,
            ),
            OperationView::Apply => kind == "apply"@,
            OperationView::Discard => kind == "discard"@,
            OperationView::BeginPairing => kind == "begin_pairing"@,
            OperationView::Stop => kind == "stop"@,
            OperationView::Refresh => kind == "refresh"@,
            OperationView::Survey => false,
            OperationView::Watch => false,
        },
{
}

/// A measure of the preview's style is what was asked for, up to a limit; it has
/// a default where nothing was asked for.
pub proof fn measures_are_kept_in_range(n: u64, default: u64)
    requires
        default <= 20,
    ensures
        held(Some(n), default) <= n && held(Some(n), default) <= 20,
        n <= 20 ==> held(Some(n), default) == n,
        n > 20 ==> held(Some(n), default) == 20,
        held(None, default) == default,
{
}

/// A limit in milliseconds is the one that was written down, or the default, and
/// never under the least.
pub proof fn limits_are_read_back(n: u64, default: u64, least: u64)
    requires
        least <= default,
    ensures
        milliseconds_of(None, default, least) == default,
        milliseconds_of(Some(decimal(n as nat)), default, least) == if n < least {
            least
        } else {
            n
        },
{
    text::numbers_are_read_back(n as nat, u64::MAX as nat);
}

/// A directory or a socket that was named is the one that is used; otherwise the
/// session's own directory comes before the general one.
pub proof fn a_named_place_is_used(
    named: Seq<char>,
    own: Option<Seq<char>>,
    home: Option<Seq<char>>,
    base: Seq<char>,
)
    requires
        base.len() > 0,
        base.last() != '/',
    ensures
        state_directory(Some(named), own, home) == named,
        state_directory(None, Some(base), home) == base + "/"@ + "omavcam"@,
        protocol::socket(Some(named), own) == named,
        protocol::socket(None, Some(base)) == base + "/"@ + "omavcam.sock"@,
{
}

// ---------------------------------------------------------------------------
// Clients

/// A client hears only what its daemon's protocol says to it: the last state,
/// and the answer to its own request.
pub proof fn a_client_hears_its_own_answer(client: ClientView, message: Seq<char>)
    ensures
        heard(client, message) is Ok <==> (json_field(message, "v"@) matches Some(v)
            && json_natural(v) == Some(VERSION as u64)),
        heard(client, message) matches Ok(after) ==> {
            let kind = match json_field(message, "type"@) {
                Some(v) => json_string(v),
                None => None,
            };
            &&& after.response != client.response ==> kind == Some("response"@) && json_field(
                message,
                "id"@,
            ) == Some(own_id()) && after.response == Some(message)
            &&& kind == Some("response"@) && json_field(message, "id"@) == Some(own_id())
                ==> after.response == Some(message) && after.latest == client.latest
            &&& kind == Some("state"@) ==> after.response == client.response && (
            after.latest matches Some((rev, state)) && (json_field(
                message,
                "state"@,
            ) matches Some(s) ==> state == s) && (json_field(message, "rev"@) matches Some(v)
                ==> json_natural(v) matches Some(n) ==> rev == n))
            &&& kind != Some("state"@) ==> after.latest == client.latest
        },
{
    reveal_strlit("state");
    reveal_strlit("response");
    assert("state"@.len() != "response"@.len());
}

/// A client has what it waits for once it has an answer and a state that is no
/// older than that answer.
pub proof fn a_client_waits_for_its_state(client: ClientView, rev: u64, state: Seq<char>, n: u64)
    requires
        client.latest == Some((rev, state)),
        client.response matches Some(m) && (json_field(m, "rev"@) matches Some(v)
            && json_natural(v) == Some(n)),
    ensures
        settled(client) <==> n <= rev,
        !settled(ClientView { latest: None, ..client }),
        !settled(ClientView { response: None, ..client }),
{
}

/// A frame rate that is typed is sent as the number it is, and a name as the
/// text it is.
pub proof fn what_is_typed_is_sent(rate: u32, value: Seq<char>, numbers: Seq<Option<Seq<char>>>)
    ensures
        value_of("frame-rate"@, decimal(rate as nat), numbers) == Ok::<Seq<char>, Seq<char>>(
            decimal(rate as nat),
        ),
        value_of("lens"@, value, numbers) == Ok::<Seq<char>, Seq<char>>(json_quote(value)),
        value_of("resolution"@, value, numbers) == Ok::<Seq<char>, Seq<char>>(json_quote(value)),
        value_of("aspect-ratio"@, value, numbers) == Ok::<Seq<char>, Seq<char>>(json_quote(value)),
{
    text::numbers_are_read_back(rate as nat, u32::MAX as nat);
    reveal_strlit("frame-rate");
    reveal_strlit("zoom");
    reveal_strlit("crop");
    reveal_strlit("frame_rate");
    reveal_strlit("aspect_ratio");
    reveal_strlit("lens");
    reveal_strlit("resolution");
    reveal_strlit("aspect-ratio");
    assert("aspect-ratio"@[6] == '-' && "aspect_ratio"@[6] == '_');
    assert("lens"@[0] == 'l' && "zoom"@[0] == 'z' && "crop"@[0] == 'c');
    assert("resolution"@.len() == 10 && "resolution"@[0] == 'r' && "frame-rate"@[0] == 'f'
        && "frame_rate"@[0] == 'f');
}

/// Whether a text stands somewhere in another.
pub open spec fn within(part: Seq<char>, whole: Seq<char>) -> bool {
    exists|a: Seq<char>, b: Seq<char>| whole == #[trigger] (a + part + b)
}

proof fn lemma_within(part: Seq<char>, whole: Seq<char>, before: Seq<char>, after: Seq<char>)
    requires
        within(part, whole),
    ensures
        within(part, before + whole + after),
{
    let (a, b) = choose|a: Seq<char>, b: Seq<char>| whole == #[trigger] (a + part + b);
    assert(before + whole + after =~= (before + a) + part + (b + after));
}

/// The list of known phones names each of them and how it is reached, and so do
/// the lists of what is attached and of what is missing.
pub proof fn lists_name_every_entry(
    known: Seq<KnownPhoneView>,
    attached: Seq<PhoneView>,
    missing: Seq<MissingView>,
    i: int,
)
    ensures
        0 <= i < known.len() ==> within(
            known[i].phone.name + " ("@ + known[i].phone.serial + ")"@ + " — "@ + (
            match known[i].transport {
                Transport::Wired => "wired"@,
                Transport::Wireless => "wireless"@,
            }),
            known_entries(known),
        ),
        0 <= i < attached.len() ==> within(
            attached[i].name + " ("@ + attached[i].serial + ")"@,
            phone_entries(attached),
        ),
        0 <= i < missing.len() ==> within(missing[i].what, missing_entries(missing)) && within(
            missing[i].install,
            missing_entries(missing),
        ),
    decreases known.len() + attached.len() + missing.len(),
{
    let none = Seq::<char>::empty();
    if 0 <= i < known.len() {
        let k = known[i];
        let part = k.phone.name + " ("@ + k.phone.serial + ")"@ + " — "@ + (match k.transport {
            Transport::Wired => "wired"@,
            Transport::Wireless => "wireless"@,
        });
        let front = known_entries(known.drop_last());
        if i == known.len() - 1 {
            assert(known_entries(known) =~= (front + "\n  "@) + part + none);
        } else {
            lists_name_every_entry(known.drop_last(), Seq::empty(), Seq::empty(), i);
            assert(known.drop_last()[i] == k);
            lemma_within(part, front, none, crate::cli::known_entry(known.last()));
            assert(none + front + crate::cli::known_entry(known.last()) =~= known_entries(known));
        }
    }
    if 0 <= i < attached.len() {
        let p = attached[i];
        let part = p.name + " ("@ + p.serial + ")"@;
        let front = phone_entries(attached.drop_last());
        if i == attached.len() - 1 {
            assert(phone_entries(attached) =~= (front + "  "@) + part + "\n"@);
        } else {
            lists_name_every_entry(Seq::empty(), attached.drop_last(), Seq::empty(), i);
            assert(attached.drop_last()[i] == p);
            lemma_within(part, front, none, crate::cli::phone_entry(attached.last()));
            assert(none + front + crate::cli::phone_entry(attached.last()) =~= phone_entries(
                attached,
            ));
        }
    }
    if 0 <= i < missing.len() {
        let m = missing[i];
        let front = missing_entries(missing.drop_last());
        if i == missing.len() - 1 {
            assert(missing_entries(missing) =~= (front + "\nmissing: "@) + m.what + (
            " — install with: "@ + m.install));
            assert(missing_entries(missing) =~= (front + "\nmissing: "@ + m.what
                + " — install with: "@) + m.install + none);
        } else {
            lists_name_every_entry(Seq::empty(), Seq::empty(), missing.drop_last(), i);
            assert(missing.drop_last()[i] == m);
            let last = crate::cli::missing_entry(missing.last());
            lemma_within(m.what, front, none, last);
            lemma_within(m.install, front, none, last);
            assert(none + front + last =~= missing_entries(missing));
        }
    }
}

proof fn lemma_within_first(part: Seq<char>, before: Seq<char>)
    ensures
        within(part, before + part),
        within(part, part),
{
    let none = Seq::<char>::empty();
    assert(before + part =~= before + part + none);
    assert(part =~= none + part + none);
}

proof fn lemma_within_more(part: Seq<char>, whole: Seq<char>, after: Seq<char>)
    requires
        within(part, whole),
    ensures
        within(part, whole + after),
        within(part, after + whole),
{
    let none = Seq::<char>::empty();
    lemma_within(part, whole, none, after);
    assert(none + whole + after =~= whole + after);
    lemma_within(part, whole, after, none);
    assert(after + whole + none =~= after + whole);
}

proof fn lemma_within_all(part: Seq<char>, s: Seq<char>, a: Seq<char>, b: Seq<char>, c: Seq<char>)
    requires
        within(part, s),
    ensures
        within(part, s + a + b + c),
{
    lemma_within_more(part, s, a);
    lemma_within_more(part, s + a, b);
    lemma_within_more(part, s + a + b, c);
}

/// The status that people are shown has all of it: the connection, the phones
/// that are known, the capture, the settings and what is missing.
pub proof fn the_status_shows_the_whole_state(state: StateView)
    ensures
        within(connection_words(state.connection), rendered(state)),
        state.known.len() > 0 ==> within(known_entries(state.known), rendered(state)),
        within(capture_words(state.capture), rendered(state)),
        within(settings_words(state.settings), rendered(state)),
        within(missing_entries(state.missing), rendered(state)),
{
    let connection = connection_words(state.connection);
    let known = if state.known.len() == 0 {
        "known phones: none"@
    } else {
        "known phones:"@ + known_entries(state.known)
    };
    let label = "\ncapture: "@;
    let capture = capture_words(state.capture);
    let settings = settings_words(state.settings);
    let missing = missing_entries(state.missing);
    let p1 = "adb: "@ + (if state.adb_ok {
        "ok"@
    } else {
        "unavailable"@
    }) + "\n"@;
    let p2 = p1 + connection;
    let p4 = p2 + "\n"@ + known;
    let p6 = p4 + label + capture;
    let p8 = p6 + "\n"@ + settings;
    assert(rendered(state) == p8 + missing);
    lemma_within_first(connection, p1);
    lemma_within_more(connection, p2, "\n"@);
    lemma_within_more(connection, p2 + "\n"@, known);
    lemma_within_more(connection, p4, label);
    lemma_within_all(connection, p4 + label, capture, "\n"@, settings);
    lemma_within_more(connection, p8, missing);
    if state.known.len() > 0 {
        let list = known_entries(state.known);
        lemma_within_first(list, "known phones:"@);
        lemma_within_more(list, known, p2 + "\n"@);
        lemma_within_more(list, p4, label);
        lemma_within_all(list, p4 + label, capture, "\n"@, settings);
        lemma_within_more(list, p8, missing);
    }
    lemma_within_first(capture, p4 + label);
    lemma_within_all(capture, p6, "\n"@, settings, missing);
    lemma_within_first(settings, p6 + "\n"@);
    lemma_within_more(settings, p8, missing);
    lemma_within_first(missing, p8);
}

/// A capture is told by its frame size, its phone and its node.
pub proof fn a_capture_is_told_in_full(c: CaptureView)
    ensures
        within(c.size, capture_words(Some(c))),
        within(c.phone.name, capture_words(Some(c))),
        within(c.phone.serial, capture_words(Some(c))),
        within(c.node, capture_words(Some(c))),
{
    let awake = if c.stay_awake {
        " — staying awake"@
    } else {
        Seq::empty()
    };
    let person = crate::cli::who(c.phone);
    let head = c.size + " from "@;
    let all = head + person + " to "@ + c.node + awake;
    lemma_within_first(c.size, Seq::empty());
    lemma_within_more(c.size, c.size, " from "@);
    lemma_within_all(c.size, head, person, " to "@, c.node);
    lemma_within_more(c.size, head + person + " to "@ + c.node, awake);
    lemma_within_first(c.phone.name, Seq::empty());
    lemma_within_all(c.phone.name, c.phone.name, " ("@, c.phone.serial, ")"@);
    lemma_within_more(c.phone.name, person, head);
    lemma_within_all(c.phone.name, head + person, " to "@, c.node, awake);
    lemma_within_first(c.phone.serial, c.phone.name + " ("@);
    lemma_within_more(c.phone.serial, c.phone.name + " ("@ + c.phone.serial, ")"@);
    lemma_within_more(c.phone.serial, person, head);
    lemma_within_all(c.phone.serial, head + person, " to "@, c.node, awake);
    lemma_within_first(c.node, head + person + " to "@);
    lemma_within_more(c.node, head + person + " to "@ + c.node, awake);
    assert(capture_words(Some(c)) == all);
}

/// A command sends what was typed after it, each part under its own name, and a
/// command with a part too many or too few sends nothing.
pub proof fn commands_send_what_was_typed(
    a: Seq<char>,
    b: Seq<char>,
    c: Seq<char>,
    more: Seq<Seq<char>>,
)
    ensures
        invoked(seq!["select"@, a]) == (InvocationView::Send {
            kind: "select"@,
            fields: seq![("serial"@, json_quote(a))],
        }),
        invoked(seq!["forget"@, a]) == (InvocationView::Send {
            kind: "forget"@,
            fields: seq![("serial"@, json_quote(a))],
        }),
        invoked(seq!["set"@, a, b]) == (InvocationView::Change { setting: a, value: b }),
        invoked(seq!["connect"@, a, b]) == (InvocationView::Send {
            kind: "connect"@,
            fields: seq![("serial"@, json_quote(a)), ("connect_address"@, json_quote(b))],
        }),
        invoked(seq!["pair"@, a, b, c]) == (InvocationView::Send {
            kind: "pair"@,
            fields: seq![
                ("pair_address"@, json_quote(a)),
                ("code"@, json_quote(b)),
                ("connect_address"@, json_quote(c)),
            ],
        }),
        more.len() > 4 ==> invoked(more) == (InvocationView::Usage { command: Some(more[0]) }),
{
    reveal_strlit("set");
    reveal_strlit("connect");
    assert("set"@.len() != "connect"@.len());
}

} // verus!
