//! What holds of every operation, whatever the outside answers: what it may run,
//! that it never takes an act back, and that it waits where it must.

use vstd::prelude::*;

use crate::capture::{
    appeared, attended, commanded, consumed, controlled, feeding, hidden, hiding, launch_command,
    launch_says, launches_say_what_was_asked, left, located, missed, node_found, paused, polled,
    spawned, window,
};
use crate::daemon::{
    adb_lost, address_of, announced, chosen, concluded, confirmed, equipped, is_news, kept_on_disk,
    not_reached, noticed, persisted, prepared, published, recalled, reconnecting, refreshed,
    registry_saved, rejoined, replaced, resumed, stand_in_hidden, stand_in_restored, usable_as,
    vetted, worked_out, CoreView, DaemonView,
};
use crate::lists::found;
use crate::operations::{
    abandoned, adb_refreshed, adjusted, applied, applied_idle, applied_live, attached_anew, begun,
    cleared, coupled, described, dismissed, emptied, examined, followed, following, launched,
    placed, previewed, readdressed, reaped, relaunched, rolled_back, same_device, selected, started,
    stopped, themed, turned, valued,
};
use crate::outside::{ActView, AnswerView, OutsideView};
use crate::phones::{
    answered, endpoint, identified, joined, known_wireless, paired, parted, scanned, AttachedView,
    RegistryView,
};
use crate::protocol;
use crate::protocol::{
    CaptureView, ConnectionView, KnownPhoneView, PhoneView, PreviewStyle, StateView,
};
use crate::requests::{fresh, performed, OperationView};
use crate::settings::{
    inspected, lens_detailed, lens_line, lenses_read, line_read, lines_read, numbers_of,
    CameraSettingsView, ReadingView, SettingsStateView,
};

verus! {

/// The tools that are run to their end. Only starting adb's server, listing
/// what it sees, pairing and connecting have no phone to name; every other
/// call of adb, and every call of scrcpy, names one.
pub open spec fn permitted(argv: Seq<Seq<char>>) -> bool {
    argv.len() > 1 && {
        ||| argv[0] == "adb"@ && (argv[1] == "-s"@ || argv[1] == "start-server"@ || argv[1]
            == "devices"@ || argv[1] == "pair"@ || argv[1] == "connect"@ || argv[1]
            == "disconnect"@)
        ||| argv[0] == "scrcpy"@ && argv[1] == "-s"@
        ||| argv[0] == "v4l2-ctl"@
        ||| argv[0] == "hyprctl"@
    }
}

/// The one tool that stays: scrcpy, for a named phone and without control.
pub open spec fn launchable(argv: Seq<Seq<char>>) -> bool {
    argv.len() > 1 && argv[0] == "scrcpy"@ && argv[1] == "-s"@ && argv.contains("--no-control"@)
}

/// What an operation may do.
pub open spec fn safe(act: ActView) -> bool {
    match act {
        ActView::Run { argv, .. } => permitted(argv),
        ActView::Launch { argv } => launchable(argv),
        _ => true,
    }
}

/// Whether an act is answered.
pub open spec fn expects(act: ActView) -> bool {
    match act {
        ActView::Kill => false,
        ActView::Deadline { .. } => false,
        ActView::Push { .. } => false,
        ActView::Log { .. } => false,
        _ => true,
    }
}

/// Whether a trace goes on from another.
#[verifier::opaque]
pub open spec fn leads(a: Seq<ActView>, b: Seq<ActView>) -> bool {
    &&& a.len() <= b.len()
    &&& forall|i: int| 0 <= i < a.len() ==> #[trigger] a[i] == b[i]
}

/// Whether a trace goes on from another with nothing but what is safe, and
/// without a state for clients or for the disk.
#[verifier::opaque]
pub open spec fn extends(a: Seq<ActView>, b: Seq<ActView>) -> bool {
    &&& a.len() <= b.len()
    &&& forall|i: int| 0 <= i < a.len() ==> #[trigger] a[i] == b[i]
    &&& forall|i: int|
        a.len() <= i < b.len() ==> safe(#[trigger] b[i]) && b[i] !is Push && b[i] !is Save
}

/// Whether an exchange is how another went on: nothing is taken back, and
/// nothing happens while it waits; it waits only where every answer was used,
/// with the act that is to be answered last.
#[verifier::opaque]
pub open spec fn steps(o: OutsideView, p: OutsideView) -> bool {
    &&& p.answers == o.answers
    &&& p.startup_ms == o.startup_ms
    &&& p.preview_ms == o.preview_ms
    &&& extends(o.trace, p.trace)
    &&& o.waiting ==> p == o
    &&& o.used <= p.used
    &&& p.used <= o.used || p.used <= p.answers.len()
    &&& p.waiting && !o.waiting ==> p.used >= p.answers.len() && p.trace.len() > o.trace.len()
        && expects(p.trace.last())
    &&& asked(p.trace) - asked(o.trace) == owed(p) - owed(o)
}

/// Whether two exchanges are the same but for what the second was answered
/// beyond the first; or the first waits, and the second goes on from there.
#[verifier::opaque]
pub open spec fn twin(o: OutsideView, p: OutsideView) -> bool {
    &&& o.answers.len() <= p.answers.len()
    &&& forall|i: int| 0 <= i < o.answers.len() ==> #[trigger] o.answers[i] == p.answers[i]
    &&& p.startup_ms == o.startup_ms
    &&& p.preview_ms == o.preview_ms
    &&& if o.waiting {
        leads(o.trace, p.trace)
    } else {
        !p.waiting && p.used == o.used && p.trace == o.trace && 0 <= o.used
    }
}

/// Whether an act exchanges a pairing code with a phone.
pub open spec fn pairing(act: ActView) -> bool {
    act matches ActView::Run { argv, .. } && argv.len() > 1 && argv[0] == "adb"@ && argv[1]
        == "pair"@
}

/// Whether a trace goes on from another without pairing.
#[verifier::opaque]
pub open spec fn unpaired(a: Seq<ActView>, b: Seq<ActView>) -> bool {
    &&& a.len() <= b.len()
    &&& forall|i: int| 0 <= i < a.len() ==> #[trigger] a[i] == b[i]
    &&& forall|i: int| a.len() <= i < b.len() ==> !pairing(#[trigger] b[i])
}

/// Whether an exchange is how another went on without pairing.
pub open spec fn mute(o: OutsideView, p: OutsideView) -> bool {
    unpaired(o.trace, p.trace)
}

/// Whether a daemon is how another went on without pairing.
pub open spec fn mutes(d: DaemonView, e: DaemonView) -> bool {
    unpaired(d.outside.trace, e.outside.trace)
}

/// How many of some acts are answered.
pub open spec fn asked(acts: Seq<ActView>) -> int
    decreases acts.len(),
{
    if acts.len() == 0 {
        0
    } else if expects(acts.last()) {
        asked(acts.drop_last()) + 1
    } else {
        asked(acts.drop_last())
    }
}

/// How many answers an exchange has used or waits for.
pub open spec fn owed(o: OutsideView) -> int {
    if o.waiting {
        o.used + 1
    } else {
        o.used
    }
}

/// What the act after some others was answered.
pub open spec fn reply(acts: Seq<ActView>, answers: Seq<AnswerView>) -> AnswerView {
    if 0 <= asked(acts) < answers.len() {
        answers[asked(acts)]
    } else {
        AnswerView::Silence
    }
}

/// Whether a launched scrcpy is there after some acts, given whether one was
/// before. It is there from its launch until it is ended, or is found to be no
/// longer running.
pub open spec fn alive(before: bool, acts: Seq<ActView>, answers: Seq<AnswerView>) -> bool
    decreases acts.len(),
{
    if acts.len() == 0 {
        before
    } else {
        let prior = acts.drop_last();
        match acts.last() {
            ActView::Kill => false,
            ActView::Launch { .. } => reply(prior, answers) is Launched,
            ActView::Poll => alive(before, prior, answers) && (reply(prior, answers) matches
                AnswerView::Polled { writer } && writer is Running),
            _ => alive(before, prior, answers),
        }
    }
}

/// Whether scrcpy is launched only while none is there.
pub open spec fn alone(before: bool, acts: Seq<ActView>, answers: Seq<AnswerView>) -> bool
    decreases acts.len(),
{
    acts.len() > 0 ==> {
        let prior = acts.drop_last();
        &&& alone(before, prior, answers)
        &&& acts.last() is Launch ==> !alive(before, prior, answers)
    }
}

/// Whether an exchange has launched scrcpy only while none was there, and has
/// used an answer for each act that is answered but the one it waits for.
pub open spec fn orderly(before: bool, o: OutsideView) -> bool {
    &&& alone(before, o.trace, o.answers)
    &&& 0 <= o.used <= o.answers.len()
    &&& asked(o.trace) == (if o.waiting {
        o.used + 1
    } else {
        o.used
    })
}

/// Whether a launched scrcpy is there after an exchange.
pub open spec fn manned(before: bool, o: OutsideView) -> bool {
    alive(before, o.trace, o.answers)
}

/// Whether an exchange is how another went on with no launch, and with nothing
/// that a launched scrcpy could end by.
#[verifier::opaque]
pub open spec fn quiet(o: OutsideView, p: OutsideView) -> bool {
    &&& forall|before: bool| #[trigger]
        orderly(before, o) ==> orderly(before, p) && (!p.waiting ==> !o.waiting && manned(before, p)
            == manned(before, o))
    &&& launches(p.trace) == launches(o.trace)
}

/// Whether an exchange is how another went on with one launch of scrcpy, for a
/// phone, onto a node and with some settings.
pub open spec fn launched_once(
    o: OutsideView,
    p: OutsideView,
    serial: Seq<char>,
    node: Seq<char>,
    settings: CameraSettingsView,
) -> bool {
    &&& launches(p.trace).len() == launches(o.trace).len() + 1
    &&& launches(p.trace).drop_last() == launches(o.trace)
    &&& launch_says(launches(p.trace).last(), serial, node, settings)
}

/// What scrcpy was launched with, launch by launch.
pub open spec fn launches(acts: Seq<ActView>) -> Seq<Seq<Seq<char>>>
    decreases acts.len(),
{
    if acts.len() == 0 {
        Seq::empty()
    } else if let ActView::Launch { argv } = acts.last() {
        launches(acts.drop_last()).push(argv)
    } else {
        launches(acts.drop_last())
    }
}

/// Whether an exchange is how another went on from where a launched scrcpy was
/// there or not to where one is there or not.
#[verifier::opaque]
pub open spec fn turns(o: OutsideView, p: OutsideView, from: bool, to: bool) -> bool {
    forall|before: bool| #[trigger]
        orderly(before, o) && (!o.waiting ==> manned(before, o) == from) ==> orderly(before, p) && (
        !p.waiting ==> !o.waiting && manned(before, p) == to)
}

proof fn lemma_extends_on(a: Seq<ActView>, b: Seq<ActView>, c: Seq<ActView>)
    requires
        extends(a, b),
        extends(b, c),
    ensures
        extends(a, c),
{
    reveal(extends);
    assert forall|i: int| 0 <= i < a.len() implies #[trigger] a[i] == c[i] by {
        assert(a[i] == b[i]);
    }
    assert forall|i: int| a.len() <= i < c.len() implies safe(#[trigger] c[i]) && c[i] !is Push
        && c[i] !is Save by {
        if i < b.len() {
            assert(b[i] == c[i]);
        }
    }
}

proof fn lemma_leads_on(a: Seq<ActView>, b: Seq<ActView>, c: Seq<ActView>)
    requires
        leads(a, b),
        leads(b, c),
    ensures
        leads(a, c),
{
    reveal(leads);
    assert forall|i: int| 0 <= i < a.len() implies #[trigger] a[i] == c[i] by {
        assert(a[i] == b[i]);
    }
}

pub(crate) broadcast proof fn steps_on(o: OutsideView, p: OutsideView, q: OutsideView)
    requires
        #[trigger] steps(o, p),
        #[trigger] steps(p, q),
    ensures
        steps(o, q),
{
    reveal(steps);
    lemma_extends_on(o.trace, p.trace, q.trace);
    assert(extends(p.trace, q.trace) ==> p.trace.len() <= q.trace.len()) by {
        reveal(extends);
    }
    assert(extends(o.trace, p.trace) ==> o.trace.len() <= p.trace.len()) by {
        reveal(extends);
    }
}

pub(crate) broadcast proof fn quiet_on(o: OutsideView, p: OutsideView, q: OutsideView)
    requires
        #[trigger] quiet(o, p),
        #[trigger] quiet(p, q),
    ensures
        quiet(o, q),
{
    reveal(quiet);
}

proof fn lemma_unpaired_on(a: Seq<ActView>, b: Seq<ActView>, c: Seq<ActView>)
    requires
        unpaired(a, b),
        unpaired(b, c),
    ensures
        unpaired(a, c),
{
    reveal(unpaired);
    assert forall|i: int| 0 <= i < a.len() implies #[trigger] a[i] == c[i] by {
        assert(a[i] == b[i]);
    }
    assert forall|i: int| a.len() <= i < c.len() implies !pairing(#[trigger] c[i]) by {
        if i < b.len() {
            assert(b[i] == c[i]);
        }
    }
}

pub(crate) broadcast proof fn mute_on(o: OutsideView, p: OutsideView, q: OutsideView)
    requires
        #[trigger] mute(o, p),
        #[trigger] mute(p, q),
    ensures
        mute(o, q),
{
    lemma_unpaired_on(o.trace, p.trace, q.trace);
}

pub(crate) broadcast proof fn mute_none(o: OutsideView)
    ensures
        #[trigger] mute(o, o),
{
    reveal(unpaired);
}

pub(crate) broadcast proof fn mutes_on(d: DaemonView, e: DaemonView, f: DaemonView)
    requires
        #[trigger] mutes(d, e),
        #[trigger] mutes(e, f),
    ensures
        mutes(d, f),
{
    lemma_unpaired_on(d.outside.trace, e.outside.trace, f.outside.trace);
}

pub(crate) broadcast proof fn mutes_none(d: DaemonView)
    ensures
        #[trigger] mutes(d, d),
{
    reveal(unpaired);
}

/// The words that begin each call, apart from those that begin pairing.
proof fn lemma_words()
    ensures
        "pair"@ != "-s"@,
        "pair"@ != "devices"@,
        "pair"@ != "start-server"@,
        "pair"@ != "connect"@,
        "pair"@ != "disconnect"@,
        "adb"@ != "scrcpy"@,
        "adb"@ != "v4l2-ctl"@,
        "adb"@ != "hyprctl"@,
{
    reveal_strlit("pair");
    reveal_strlit("-s");
    reveal_strlit("devices");
    reveal_strlit("start-server");
    reveal_strlit("connect");
    reveal_strlit("disconnect");
    reveal_strlit("adb");
    reveal_strlit("scrcpy");
    reveal_strlit("v4l2-ctl");
    reveal_strlit("hyprctl");
    assert("pair"@.len() == 4 && "-s"@.len() == 2 && "devices"@.len() == 7);
    assert("start-server"@.len() == 12 && "connect"@.len() == 7 && "disconnect"@.len() == 10);
    assert("adb"@.len() == 3 && "scrcpy"@.len() == 6 && "v4l2-ctl"@.len() == 8);
    assert("hyprctl"@.len() == 7);
}

pub(crate) broadcast proof fn twin_on(o: OutsideView, p: OutsideView, q: OutsideView)
    requires
        #[trigger] twin(o, p),
        o.waiting,
        #[trigger] steps(p, q),
    ensures
        twin(o, q),
{
    reveal(steps);
    reveal(twin);
    assert(leads(p.trace, q.trace)) by {
        reveal(extends);
        reveal(leads);
    }
    lemma_leads_on(o.trace, p.trace, q.trace);
}

pub(crate) broadcast proof fn steps_none(o: OutsideView)
    ensures
        #[trigger] steps(o, o),
{
    reveal(steps);
    reveal(extends);
}

pub(crate) broadcast proof fn quiet_launches(o: OutsideView, p: OutsideView)
    requires
        #[trigger] quiet(o, p),
    ensures
        launches(p.trace) == launches(o.trace),
{
    reveal(quiet);
}

pub(crate) broadcast proof fn quiet_none(o: OutsideView)
    ensures
        #[trigger] quiet(o, o),
{
    reveal(quiet);
}

pub(crate) broadcast proof fn steps_limits(o: OutsideView, p: OutsideView)
    requires
        #[trigger] steps(o, p),
    ensures
        p.startup_ms == o.startup_ms,
        p.preview_ms == o.preview_ms,
{
    reveal(steps);
}

pub(crate) broadcast proof fn twin_limits(o: OutsideView, p: OutsideView)
    requires
        #[trigger] twin(o, p),
    ensures
        p.startup_ms == o.startup_ms,
        p.preview_ms == o.preview_ms,
{
    reveal(twin);
}

pub(crate) broadcast proof fn steps_waiting(o: OutsideView, p: OutsideView)
    requires
        #[trigger] steps(o, p),
    ensures
        o.waiting ==> p == o,
{
    reveal(steps);
}

proof fn lemma_steps_ask(o: OutsideView, act: ActView)
    requires
        safe(act),
        expects(act),
        act !is Save,
    ensures
        steps(o, o.ask(act).0),
{
    reveal(steps);
    reveal(extends);
    assert(o.trace.push(act).drop_last() =~= o.trace);
}

proof fn lemma_steps_tell(o: OutsideView, act: ActView)
    requires
        safe(act),
        !expects(act),
        act !is Push,
    ensures
        steps(o, o.tell(act)),
{
    reveal(steps);
    reveal(extends);
    assert(o.trace.push(act).drop_last() =~= o.trace);
}

proof fn lemma_quiet_ask(o: OutsideView, act: ActView)
    requires
        expects(act),
        act !is Launch,
        act !is Poll,
    ensures
        quiet(o, o.ask(act).0),
{
    reveal(quiet);
    assert(o.trace.push(act).drop_last() =~= o.trace);
}

proof fn lemma_quiet_tell(o: OutsideView, act: ActView)
    requires
        !expects(act),
        act !is Kill,
    ensures
        quiet(o, o.tell(act)),
{
    reveal(quiet);
    assert(o.trace.push(act).drop_last() =~= o.trace);
}

proof fn lemma_turns_kill(o: OutsideView, from: bool)
    ensures
        turns(o, crate::capture::kill(o), from, false),
{
    reveal(turns);
    assert(o.trace.push(ActView::Kill).drop_last() =~= o.trace);
}

proof fn lemma_launches_kill(o: OutsideView)
    ensures
        launches(crate::capture::kill(o).trace) == launches(o.trace),
{
    assert(o.trace.push(ActView::Kill).drop_last() =~= o.trace);
}

proof fn lemma_turns_polled(o: OutsideView, from: bool)
    ensures
        turns(o, polled(o).0, from, from && polled(o).1 is Running),
{
    reveal(turns);
    assert(o.trace.push(ActView::Poll).drop_last() =~= o.trace);
}

proof fn lemma_turns_launch(o: OutsideView, argv: Seq<Seq<char>>)
    ensures
        turns(
            o,
            o.ask(ActView::Launch { argv }).0,
            false,
            o.ask(ActView::Launch { argv }).1 is Launched,
        ),
{
    reveal(turns);
    assert(o.trace.push(ActView::Launch { argv }).drop_last() =~= o.trace);
}

pub(crate) broadcast proof fn turns_on(
    o: OutsideView,
    p: OutsideView,
    q: OutsideView,
    a: bool,
    b: bool,
    c: bool,
)
    requires
        #[trigger] turns(o, p, a, b),
        #[trigger] turns(p, q, b, c),
    ensures
        turns(o, q, a, c),
{
    reveal(turns);
}

pub(crate) broadcast proof fn turns_then_quiet(
    o: OutsideView,
    p: OutsideView,
    q: OutsideView,
    a: bool,
    b: bool,
)
    requires
        #[trigger] turns(o, p, a, b),
        #[trigger] quiet(p, q),
    ensures
        turns(o, q, a, b),
{
    reveal(turns);
    reveal(quiet);
}

pub(crate) broadcast proof fn quiet_then_turns(
    o: OutsideView,
    p: OutsideView,
    q: OutsideView,
    a: bool,
    b: bool,
)
    requires
        #[trigger] quiet(o, p),
        #[trigger] turns(p, q, a, b),
    ensures
        turns(o, q, a, b),
{
    reveal(turns);
    reveal(quiet);
}

pub(crate) proof fn turns_nothing(o: OutsideView, p: OutsideView, a: bool)
    requires
        quiet(o, p),
    ensures
        turns(o, p, a, a),
{
    reveal(turns);
    reveal(quiet);
}

pub(crate) broadcast group group_turns {
    turns_on,
    turns_then_quiet,
    quiet_then_turns,
}

proof fn lemma_twin_ask(o: OutsideView, p: OutsideView, act: ActView)
    requires
        !o.waiting,
        twin(o, p),
        safe(act),
    ensures
        twin(o.ask(act).0, p.ask(act).0),
        !o.ask(act).0.waiting ==> o.ask(act).1 == p.ask(act).1,
{
    reveal(twin);
    reveal(leads);
}

proof fn lemma_twin_tell(o: OutsideView, p: OutsideView, act: ActView)
    requires
        !o.waiting,
        twin(o, p),
    ensures
        twin(o.tell(act), p.tell(act)),
        !o.tell(act).waiting,
{
    reveal(twin);
}

pub(crate) broadcast group group_steps_basic {
    steps_on,
    quiet_on,
    quiet_launches,
    quiet_none,
    mute_on,
    mute_none,
    steps_none,
    steps_waiting,
    steps_limits,
}

pub(crate) broadcast group group_twin_basic {
    twin_on,
    twin_limits,
}

pub(crate) broadcast proof fn steps_run(o: OutsideView, argv: Seq<Seq<char>>, collect: bool)
    requires
        permitted(argv),
    ensures
        steps(o, (#[trigger] o.run(argv, collect)).0),
        quiet(o, o.run(argv, collect).0),
        argv[0] != "adb"@ || argv[1] != "pair"@ ==> mute(o, o.run(argv, collect).0),
{
    reveal(unpaired);
    lemma_quiet_ask(o, ActView::Run { argv, collect });
    lemma_steps_ask(o, ActView::Run { argv, collect });
}

pub(crate) broadcast proof fn twin_run(
    o: OutsideView,
    p: OutsideView,
    argv: Seq<Seq<char>>,
    collect: bool,
)
    requires
        !o.waiting,
        twin(o, p),
        permitted(argv),
    ensures
        twin((#[trigger] o.run(argv, collect)).0, (#[trigger] p.run(argv, collect)).0),
        !o.run(argv, collect).0.waiting ==> o.run(argv, collect).1 == p.run(argv, collect).1,
{
    lemma_twin_ask(o, p, ActView::Run { argv, collect });
}

pub(crate) broadcast proof fn steps_log(o: OutsideView, text: Seq<char>)
    ensures
        steps(o, #[trigger] o.log(text)),
        quiet(o, o.log(text)),
        mute(o, o.log(text)),
{
    reveal(unpaired);
    lemma_quiet_tell(o, ActView::Log { text });
    lemma_steps_tell(o, ActView::Log { text });
}

pub(crate) broadcast proof fn twin_log(o: OutsideView, p: OutsideView, text: Seq<char>)
    requires
        !o.waiting,
        twin(o, p),
    ensures
        twin(#[trigger] o.log(text), #[trigger] p.log(text)),
        !o.log(text).waiting,
{
    lemma_twin_tell(o, p, ActView::Log { text });
}

pub(crate) broadcast proof fn steps_ask(o: OutsideView, act: ActView)
    requires
        safe(act),
        expects(act),
        act !is Save,
    ensures
        steps(o, (#[trigger] o.ask(act)).0),
        act !is Launch && act !is Poll ==> quiet(o, o.ask(act).0),
        act !is Run ==> mute(o, o.ask(act).0),
{
    reveal(unpaired);
    if act !is Launch && act !is Poll {
        lemma_quiet_ask(o, act);
    }
    lemma_steps_ask(o, act);
}

pub(crate) broadcast proof fn twin_ask(o: OutsideView, p: OutsideView, act: ActView)
    requires
        !o.waiting,
        twin(o, p),
        safe(act),
    ensures
        twin((#[trigger] o.ask(act)).0, (#[trigger] p.ask(act)).0),
        !o.ask(act).0.waiting ==> o.ask(act).1 == p.ask(act).1,
{
    lemma_twin_ask(o, p, act);
}

pub(crate) broadcast proof fn steps_tell(o: OutsideView, act: ActView)
    requires
        safe(act),
        !expects(act),
        act !is Push,
    ensures
        steps(o, #[trigger] o.tell(act)),
        act !is Kill ==> quiet(o, o.tell(act)),
        act !is Run ==> mute(o, o.tell(act)),
{
    reveal(unpaired);
    if act !is Kill {
        lemma_quiet_tell(o, act);
    }
    lemma_steps_tell(o, act);
}

pub(crate) broadcast proof fn twin_tell(o: OutsideView, p: OutsideView, act: ActView)
    requires
        !o.waiting,
        twin(o, p),
    ensures
        twin(#[trigger] o.tell(act), #[trigger] p.tell(act)),
        !o.tell(act).waiting,
{
    lemma_twin_tell(o, p, act);
}

pub(crate) broadcast group group_steps_run {
    group_steps_basic,
    steps_run,
    steps_log,
    steps_ask,
    steps_tell,
}

pub(crate) broadcast group group_twin_run {
    group_twin_basic,
    twin_run,
    twin_log,
    twin_ask,
    twin_tell,
}

pub(crate) broadcast proof fn steps_scanned(o: OutsideView)
    ensures
        steps(o, (#[trigger] scanned(o)).0),
        mute(o, scanned(o).0),
        quiet(o, scanned(o).0),
{
    broadcast use group_steps_run;

    lemma_words();

    reveal(scanned);
}

pub(crate) broadcast proof fn twin_scanned(o: OutsideView, p: OutsideView)
    requires
        !o.waiting,
        twin(o, p),
    ensures
        twin((#[trigger] scanned(o)).0, (#[trigger] scanned(p)).0),
        !scanned(o).0.waiting ==> scanned(o).1 == scanned(p).1,
{
    broadcast use group_steps_run;
    broadcast use group_twin_run;

    reveal(scanned);
}

pub(crate) broadcast proof fn steps_answered(o: OutsideView, serial: Seq<char>)
    ensures
        steps(o, (#[trigger] answered(o, serial)).0),
        mute(o, answered(o, serial).0),
        quiet(o, answered(o, serial).0),
{
    broadcast use group_steps_run;

    lemma_words();

    reveal(answered);
}

pub(crate) broadcast proof fn twin_answered(o: OutsideView, p: OutsideView, serial: Seq<char>)
    requires
        !o.waiting,
        twin(o, p),
    ensures
        twin((#[trigger] answered(o, serial)).0, (#[trigger] answered(p, serial)).0),
        !answered(o, serial).0.waiting ==> answered(o, serial).1 == answered(p, serial).1,
{
    broadcast use group_steps_run;
    broadcast use group_twin_run;

    reveal(answered);
}

pub(crate) broadcast proof fn steps_paired(o: OutsideView, address: Seq<char>, code: Seq<char>)
    ensures
        steps(o, (#[trigger] paired(o, address, code)).0),
        quiet(o, paired(o, address, code).0),
{
    broadcast use group_steps_run;

    reveal(paired);
}

pub(crate) broadcast proof fn twin_paired(
    o: OutsideView,
    p: OutsideView,
    address: Seq<char>,
    code: Seq<char>,
)
    requires
        !o.waiting,
        twin(o, p),
    ensures
        twin((#[trigger] paired(o, address, code)).0, (#[trigger] paired(p, address, code)).0),
        !paired(o, address, code).0.waiting
            ==> paired(o, address, code).1 == paired(p, address, code).1,
{
    broadcast use group_steps_run;
    broadcast use group_twin_run;

    reveal(paired);
}

pub(crate) broadcast proof fn steps_joined(o: OutsideView, address: Seq<char>)
    ensures
        steps(o, (#[trigger] joined(o, address)).0),
        mute(o, joined(o, address).0),
        quiet(o, joined(o, address).0),
{
    broadcast use group_steps_run;

    lemma_words();

    reveal(joined);
}

pub(crate) broadcast proof fn twin_joined(o: OutsideView, p: OutsideView, address: Seq<char>)
    requires
        !o.waiting,
        twin(o, p),
    ensures
        twin((#[trigger] joined(o, address)).0, (#[trigger] joined(p, address)).0),
        !joined(o, address).0.waiting ==> joined(o, address).1 == joined(p, address).1,
{
    broadcast use group_steps_run;
    broadcast use group_twin_run;

    reveal(joined);
}

pub(crate) broadcast proof fn steps_parted(o: OutsideView, address: Seq<char>)
    ensures
        steps(o, (#[trigger] parted(o, address)).0),
        mute(o, parted(o, address).0),
        quiet(o, parted(o, address).0),
{
    broadcast use group_steps_run;

    lemma_words();

    reveal(parted);
}

pub(crate) broadcast proof fn twin_parted(o: OutsideView, p: OutsideView, address: Seq<char>)
    requires
        !o.waiting,
        twin(o, p),
    ensures
        twin((#[trigger] parted(o, address)).0, (#[trigger] parted(p, address)).0),
        !parted(o, address).0.waiting ==> parted(o, address).1 == parted(p, address).1,
{
    broadcast use group_steps_run;
    broadcast use group_twin_run;

    reveal(parted);
}

pub(crate) broadcast proof fn steps_identified(o: OutsideView, serial: Seq<char>)
    ensures
        steps(o, (#[trigger] identified(o, serial)).0),
        mute(o, identified(o, serial).0),
        quiet(o, identified(o, serial).0),
{
    broadcast use group_steps_run;

    lemma_words();

    reveal(identified);
}

pub(crate) broadcast proof fn twin_identified(o: OutsideView, p: OutsideView, serial: Seq<char>)
    requires
        !o.waiting,
        twin(o, p),
    ensures
        twin((#[trigger] identified(o, serial)).0, (#[trigger] identified(p, serial)).0),
        !identified(o, serial).0.waiting ==> identified(o, serial).1 == identified(p, serial).1,
{
    broadcast use group_steps_run;
    broadcast use group_twin_run;

    reveal(identified);
}

pub(crate) broadcast group group_steps_phones {
    group_steps_basic,
    steps_run,
    steps_log,
    steps_ask,
    steps_tell,
    steps_scanned,
    steps_answered,
    steps_paired,
    steps_joined,
    steps_parted,
    steps_identified,
}

pub(crate) broadcast group group_twin_phones {
    group_twin_basic,
    twin_run,
    twin_log,
    twin_ask,
    twin_tell,
    twin_scanned,
    twin_answered,
    twin_paired,
    twin_joined,
    twin_parted,
    twin_identified,
}

pub(crate) broadcast proof fn steps_numbers_of(o: OutsideView, texts: Seq<Seq<char>>)
    ensures
        steps(o, (#[trigger] numbers_of(o, texts)).0),
        mute(o, numbers_of(o, texts).0),
        quiet(o, numbers_of(o, texts).0),
    decreases texts.len(),
{
    broadcast use group_steps_run;

    if texts.len() > 0 {
        steps_numbers_of(o, texts.drop_last());
    }
}

pub(crate) broadcast proof fn twin_numbers_of(o: OutsideView, p: OutsideView, texts: Seq<Seq<char>>)
    requires
        !o.waiting,
        twin(o, p),
    ensures
        twin((#[trigger] numbers_of(o, texts)).0, (#[trigger] numbers_of(p, texts)).0),
        !numbers_of(o, texts).0.waiting ==> numbers_of(o, texts).1 == numbers_of(p, texts).1,
    decreases texts.len(),
{
    broadcast use group_steps_run;
    broadcast use group_twin_run;

    if texts.len() > 0 {
        steps_numbers_of(o, texts.drop_last());
        steps_numbers_of(p, texts.drop_last());
        twin_numbers_of(o, p, texts.drop_last());
    }
}

pub(crate) broadcast group group_steps_numbers {
    group_steps_basic,
    steps_run,
    steps_log,
    steps_ask,
    steps_tell,
    steps_scanned,
    steps_answered,
    steps_paired,
    steps_joined,
    steps_parted,
    steps_identified,
    steps_numbers_of,
}

pub(crate) broadcast group group_twin_numbers {
    group_twin_basic,
    twin_run,
    twin_log,
    twin_ask,
    twin_tell,
    twin_scanned,
    twin_answered,
    twin_paired,
    twin_joined,
    twin_parted,
    twin_identified,
    twin_numbers_of,
}

pub(crate) broadcast proof fn steps_lens_detailed(
    o: OutsideView,
    rest: Seq<char>,
    id: Seq<char>,
    details: Seq<char>,
)
    ensures
        steps(o, (#[trigger] lens_detailed(o, rest, id, details)).0),
        mute(o, lens_detailed(o, rest, id, details).0),
        quiet(o, lens_detailed(o, rest, id, details).0),
{
    broadcast use group_steps_numbers;

}

pub(crate) broadcast proof fn twin_lens_detailed(
    o: OutsideView,
    p: OutsideView,
    rest: Seq<char>,
    id: Seq<char>,
    details: Seq<char>,
)
    requires
        !o.waiting,
        twin(o, p),
    ensures
        twin(
            (#[trigger] lens_detailed(o, rest, id, details)).0,
            (#[trigger] lens_detailed(p, rest, id, details)).0,
        ),
        !lens_detailed(o, rest, id, details).0.waiting
            ==> lens_detailed(o, rest, id, details).1 == lens_detailed(p, rest, id, details).1,
{
    broadcast use group_steps_numbers;
    broadcast use group_twin_numbers;

}

pub(crate) broadcast group group_steps_details {
    group_steps_basic,
    steps_run,
    steps_log,
    steps_ask,
    steps_tell,
    steps_scanned,
    steps_answered,
    steps_paired,
    steps_joined,
    steps_parted,
    steps_identified,
    steps_numbers_of,
    steps_lens_detailed,
}

pub(crate) broadcast group group_twin_details {
    group_twin_basic,
    twin_run,
    twin_log,
    twin_ask,
    twin_tell,
    twin_scanned,
    twin_answered,
    twin_paired,
    twin_joined,
    twin_parted,
    twin_identified,
    twin_numbers_of,
    twin_lens_detailed,
}

pub(crate) broadcast proof fn steps_lens_line(o: OutsideView, rest: Seq<char>)
    ensures
        steps(o, (#[trigger] lens_line(o, rest)).0),
        mute(o, lens_line(o, rest).0),
        quiet(o, lens_line(o, rest).0),
{
    broadcast use group_steps_details;

}

pub(crate) broadcast proof fn twin_lens_line(o: OutsideView, p: OutsideView, rest: Seq<char>)
    requires
        !o.waiting,
        twin(o, p),
    ensures
        twin((#[trigger] lens_line(o, rest)).0, (#[trigger] lens_line(p, rest)).0),
        !lens_line(o, rest).0.waiting ==> lens_line(o, rest).1 == lens_line(p, rest).1,
{
    broadcast use group_steps_details;
    broadcast use group_twin_details;

}

pub(crate) broadcast group group_steps_lens {
    group_steps_basic,
    steps_run,
    steps_log,
    steps_ask,
    steps_tell,
    steps_scanned,
    steps_answered,
    steps_paired,
    steps_joined,
    steps_parted,
    steps_identified,
    steps_numbers_of,
    steps_lens_detailed,
    steps_lens_line,
}

pub(crate) broadcast group group_twin_lens {
    group_twin_basic,
    twin_run,
    twin_log,
    twin_ask,
    twin_tell,
    twin_scanned,
    twin_answered,
    twin_paired,
    twin_joined,
    twin_parted,
    twin_identified,
    twin_numbers_of,
    twin_lens_detailed,
    twin_lens_line,
}

pub(crate) broadcast proof fn steps_line_read(o: OutsideView, reading: ReadingView, line: Seq<char>)
    ensures
        steps(o, (#[trigger] line_read(o, reading, line)).0),
        mute(o, line_read(o, reading, line).0),
        quiet(o, line_read(o, reading, line).0),
{
    broadcast use group_steps_lens;

}

pub(crate) broadcast proof fn twin_line_read(
    o: OutsideView,
    p: OutsideView,
    reading: ReadingView,
    line: Seq<char>,
)
    requires
        !o.waiting,
        twin(o, p),
    ensures
        twin(
            (#[trigger] line_read(o, reading, line)).0,
            (#[trigger] line_read(p, reading, line)).0,
        ),
        !line_read(o, reading, line).0.waiting
            ==> line_read(o, reading, line).1 == line_read(p, reading, line).1,
{
    broadcast use group_steps_lens;
    broadcast use group_twin_lens;

}

pub(crate) broadcast group group_steps_line {
    group_steps_basic,
    steps_run,
    steps_log,
    steps_ask,
    steps_tell,
    steps_scanned,
    steps_answered,
    steps_paired,
    steps_joined,
    steps_parted,
    steps_identified,
    steps_numbers_of,
    steps_lens_detailed,
    steps_lens_line,
    steps_line_read,
}

pub(crate) broadcast group group_twin_line {
    group_twin_basic,
    twin_run,
    twin_log,
    twin_ask,
    twin_tell,
    twin_scanned,
    twin_answered,
    twin_paired,
    twin_joined,
    twin_parted,
    twin_identified,
    twin_numbers_of,
    twin_lens_detailed,
    twin_lens_line,
    twin_line_read,
}

pub(crate) broadcast proof fn steps_lines_read(
    o: OutsideView,
    reading: ReadingView,
    lines: Seq<Seq<char>>,
)
    ensures
        steps(o, (#[trigger] lines_read(o, reading, lines)).0),
        mute(o, lines_read(o, reading, lines).0),
        quiet(o, lines_read(o, reading, lines).0),
    decreases lines.len(),
{
    broadcast use group_steps_line;

    if lines.len() > 0 {
        let (o1, next) = line_read(o, reading, crate::text::trimmed(lines[0]));
        match next {
            Ok(reading) => steps_lines_read(o1, reading, lines.drop_first()),
            Err(_) => {},
        }
    }
}

pub(crate) broadcast proof fn twin_lines_read(
    o: OutsideView,
    p: OutsideView,
    reading: ReadingView,
    lines: Seq<Seq<char>>,
)
    requires
        !o.waiting,
        twin(o, p),
    ensures
        twin(
            (#[trigger] lines_read(o, reading, lines)).0,
            (#[trigger] lines_read(p, reading, lines)).0,
        ),
        !lines_read(o, reading, lines).0.waiting ==> lines_read(o, reading, lines).1 == lines_read(
            p,
            reading,
            lines,
        ).1,
    decreases lines.len(),
{
    broadcast use group_steps_line;
    broadcast use group_twin_line;

    if lines.len() > 0 {
        let (o1, next) = line_read(o, reading, crate::text::trimmed(lines[0]));
        let (p1, other) = line_read(p, reading, crate::text::trimmed(lines[0]));
        match next {
            Ok(reading) => steps_lines_read(o1, reading, lines.drop_first()),
            Err(_) => {},
        }
        match other {
            Ok(reading) => steps_lines_read(p1, reading, lines.drop_first()),
            Err(_) => {},
        }
        if !o1.waiting {
            match next {
                Ok(reading) => twin_lines_read(o1, p1, reading, lines.drop_first()),
                Err(_) => {},
            }
        }
    }
}

pub(crate) broadcast group group_steps_lines {
    group_steps_basic,
    steps_run,
    steps_log,
    steps_ask,
    steps_tell,
    steps_scanned,
    steps_answered,
    steps_paired,
    steps_joined,
    steps_parted,
    steps_identified,
    steps_numbers_of,
    steps_lens_detailed,
    steps_lens_line,
    steps_line_read,
    steps_lines_read,
}

pub(crate) broadcast group group_twin_lines {
    group_twin_basic,
    twin_run,
    twin_log,
    twin_ask,
    twin_tell,
    twin_scanned,
    twin_answered,
    twin_paired,
    twin_joined,
    twin_parted,
    twin_identified,
    twin_numbers_of,
    twin_lens_detailed,
    twin_lens_line,
    twin_line_read,
    twin_lines_read,
}

pub(crate) broadcast proof fn steps_lenses_read(o: OutsideView, list: Seq<char>)
    ensures
        steps(o, (#[trigger] lenses_read(o, list)).0),
        mute(o, lenses_read(o, list).0),
        quiet(o, lenses_read(o, list).0),
{
    broadcast use group_steps_lines;

}

pub(crate) broadcast proof fn twin_lenses_read(o: OutsideView, p: OutsideView, list: Seq<char>)
    requires
        !o.waiting,
        twin(o, p),
    ensures
        twin((#[trigger] lenses_read(o, list)).0, (#[trigger] lenses_read(p, list)).0),
        !lenses_read(o, list).0.waiting ==> lenses_read(o, list).1 == lenses_read(p, list).1,
{
    broadcast use group_steps_lines;
    broadcast use group_twin_lines;

}

pub(crate) broadcast group group_steps_lenses {
    group_steps_basic,
    steps_run,
    steps_log,
    steps_ask,
    steps_tell,
    steps_scanned,
    steps_answered,
    steps_paired,
    steps_joined,
    steps_parted,
    steps_identified,
    steps_numbers_of,
    steps_lens_detailed,
    steps_lens_line,
    steps_line_read,
    steps_lines_read,
    steps_lenses_read,
}

pub(crate) broadcast group group_twin_lenses {
    group_twin_basic,
    twin_run,
    twin_log,
    twin_ask,
    twin_tell,
    twin_scanned,
    twin_answered,
    twin_paired,
    twin_joined,
    twin_parted,
    twin_identified,
    twin_numbers_of,
    twin_lens_detailed,
    twin_lens_line,
    twin_line_read,
    twin_lines_read,
    twin_lenses_read,
}

pub(crate) broadcast proof fn steps_inspected(o: OutsideView, serial: Seq<char>)
    ensures
        steps(o, (#[trigger] inspected(o, serial)).0),
        mute(o, inspected(o, serial).0),
        quiet(o, inspected(o, serial).0),
{
    broadcast use group_steps_lenses;

    lemma_words();

    reveal(inspected);
}

pub(crate) broadcast proof fn twin_inspected(o: OutsideView, p: OutsideView, serial: Seq<char>)
    requires
        !o.waiting,
        twin(o, p),
    ensures
        twin((#[trigger] inspected(o, serial)).0, (#[trigger] inspected(p, serial)).0),
        !inspected(o, serial).0.waiting ==> inspected(o, serial).1 == inspected(p, serial).1,
{
    broadcast use group_steps_lenses;
    broadcast use group_twin_lenses;

    reveal(inspected);
}

pub(crate) broadcast group group_steps_inspected {
    group_steps_basic,
    steps_run,
    steps_log,
    steps_ask,
    steps_tell,
    steps_scanned,
    steps_answered,
    steps_paired,
    steps_joined,
    steps_parted,
    steps_identified,
    steps_numbers_of,
    steps_lens_detailed,
    steps_lens_line,
    steps_line_read,
    steps_lines_read,
    steps_lenses_read,
    steps_inspected,
}

pub(crate) broadcast group group_twin_inspected {
    group_twin_basic,
    twin_run,
    twin_log,
    twin_ask,
    twin_tell,
    twin_scanned,
    twin_answered,
    twin_paired,
    twin_joined,
    twin_parted,
    twin_identified,
    twin_numbers_of,
    twin_lens_detailed,
    twin_lens_line,
    twin_line_read,
    twin_lines_read,
    twin_lenses_read,
    twin_inspected,
}

pub(crate) broadcast group group_steps_settings {
    group_steps_basic,
    steps_run,
    steps_log,
    steps_ask,
    steps_tell,
    steps_scanned,
    steps_answered,
    steps_paired,
    steps_joined,
    steps_parted,
    steps_identified,
    steps_inspected,
}

pub(crate) broadcast group group_twin_settings {
    group_twin_basic,
    twin_run,
    twin_log,
    twin_ask,
    twin_tell,
    twin_scanned,
    twin_answered,
    twin_paired,
    twin_joined,
    twin_parted,
    twin_identified,
    twin_inspected,
}

pub(crate) broadcast proof fn steps_node_found(o: OutsideView)
    ensures
        steps(o, (#[trigger] node_found(o)).0),
        mute(o, node_found(o).0),
        quiet(o, node_found(o).0),
{
    broadcast use group_steps_settings;

    reveal(node_found);
}

pub(crate) broadcast proof fn twin_node_found(o: OutsideView, p: OutsideView)
    requires
        !o.waiting,
        twin(o, p),
    ensures
        twin((#[trigger] node_found(o)).0, (#[trigger] node_found(p)).0),
        !node_found(o).0.waiting ==> node_found(o).1 == node_found(p).1,
{
    broadcast use group_steps_settings;
    broadcast use group_twin_settings;

    reveal(node_found);
}

pub(crate) broadcast proof fn steps_missed(o: OutsideView)
    ensures
        steps(o, (#[trigger] missed(o)).0),
        mute(o, missed(o).0),
        quiet(o, missed(o).0),
{
    broadcast use group_steps_settings;

    reveal(missed);
}

pub(crate) broadcast proof fn twin_missed(o: OutsideView, p: OutsideView)
    requires
        !o.waiting,
        twin(o, p),
    ensures
        twin((#[trigger] missed(o)).0, (#[trigger] missed(p)).0),
        !missed(o).0.waiting ==> missed(o).1 == missed(p).1,
{
    broadcast use group_steps_settings;
    broadcast use group_twin_settings;

    reveal(missed);
}

pub(crate) broadcast proof fn steps_controlled(o: OutsideView, node: Seq<char>)
    ensures
        steps(o, #[trigger] controlled(o, node)),
        mute(o, controlled(o, node)),
        quiet(o, controlled(o, node)),
{
    broadcast use group_steps_settings;

    lemma_words();

    reveal(controlled);
}

pub(crate) broadcast proof fn twin_controlled(o: OutsideView, p: OutsideView, node: Seq<char>)
    requires
        !o.waiting,
        twin(o, p),
    ensures
        twin(#[trigger] controlled(o, node), #[trigger] controlled(p, node)),
{
    broadcast use group_steps_settings;
    broadcast use group_twin_settings;

    reveal(controlled);
}

pub(crate) broadcast proof fn steps_feeding(o: OutsideView, node: Seq<char>)
    ensures
        steps(o, (#[trigger] feeding(o, node)).0),
        mute(o, feeding(o, node).0),
        quiet(o, feeding(o, node).0),
{
    broadcast use group_steps_settings;

    lemma_words();

    reveal(feeding);
}

pub(crate) broadcast proof fn twin_feeding(o: OutsideView, p: OutsideView, node: Seq<char>)
    requires
        !o.waiting,
        twin(o, p),
    ensures
        twin((#[trigger] feeding(o, node)).0, (#[trigger] feeding(p, node)).0),
        !feeding(o, node).0.waiting ==> feeding(o, node).1 == feeding(p, node).1,
{
    broadcast use group_steps_settings;
    broadcast use group_twin_settings;

    reveal(feeding);
}

pub(crate) broadcast proof fn steps_commanded(o: OutsideView, verb: Seq<char>, what: Seq<char>)
    ensures
        steps(o, (#[trigger] commanded(o, verb, what)).0),
        mute(o, commanded(o, verb, what).0),
        quiet(o, commanded(o, verb, what).0),
{
    broadcast use group_steps_settings;

    lemma_words();

    reveal(commanded);
}

pub(crate) broadcast proof fn twin_commanded(
    o: OutsideView,
    p: OutsideView,
    verb: Seq<char>,
    what: Seq<char>,
)
    requires
        !o.waiting,
        twin(o, p),
    ensures
        twin((#[trigger] commanded(o, verb, what)).0, (#[trigger] commanded(p, verb, what)).0),
        !commanded(o, verb, what).0.waiting
            ==> commanded(o, verb, what).1 == commanded(p, verb, what).1,
{
    broadcast use group_steps_settings;
    broadcast use group_twin_settings;

    reveal(commanded);
}

pub(crate) broadcast proof fn steps_window(o: OutsideView)
    ensures
        steps(o, (#[trigger] window(o)).0),
        mute(o, window(o).0),
        quiet(o, window(o).0),
{
    broadcast use group_steps_settings;

    lemma_words();

    reveal(window);
}

pub(crate) broadcast proof fn twin_window(o: OutsideView, p: OutsideView)
    requires
        !o.waiting,
        twin(o, p),
    ensures
        twin((#[trigger] window(o)).0, (#[trigger] window(p)).0),
        !window(o).0.waiting ==> window(o).1 == window(p).1,
{
    broadcast use group_steps_settings;
    broadcast use group_twin_settings;

    reveal(window);
}

pub(crate) broadcast proof fn steps_hidden(o: OutsideView, width: i64)
    ensures
        steps(o, (#[trigger] hidden(o, width)).0),
        mute(o, hidden(o, width).0),
        quiet(o, hidden(o, width).0),
{
    broadcast use group_steps_settings;

    lemma_words();

    reveal(hidden);
}

pub(crate) broadcast proof fn twin_hidden(o: OutsideView, p: OutsideView, width: i64)
    requires
        !o.waiting,
        twin(o, p),
    ensures
        twin((#[trigger] hidden(o, width)).0, (#[trigger] hidden(p, width)).0),
        !hidden(o, width).0.waiting ==> hidden(o, width).1 == hidden(p, width).1,
{
    broadcast use group_steps_settings;
    broadcast use group_twin_settings;

    reveal(hidden);
}

pub(crate) broadcast proof fn steps_polled(o: OutsideView)
    ensures
        steps(o, (#[trigger] polled(o)).0),
        mute(o, polled(o).0),
        launches(polled(o).0.trace) == launches(o.trace),
{
    broadcast use group_steps_settings;

    assert(o.trace.push(ActView::Poll).drop_last() =~= o.trace);
}

pub(crate) broadcast proof fn twin_polled(o: OutsideView, p: OutsideView)
    requires
        !o.waiting,
        twin(o, p),
    ensures
        twin((#[trigger] polled(o)).0, (#[trigger] polled(p)).0),
        !polled(o).0.waiting ==> polled(o).1 == polled(p).1,
{
    broadcast use group_steps_settings;
    broadcast use group_twin_settings;

}

pub(crate) broadcast proof fn steps_paused(o: OutsideView, ms: u64)
    ensures
        steps(o, (#[trigger] paused(o, ms)).0),
        mute(o, paused(o, ms).0),
        quiet(o, paused(o, ms).0),
{
    broadcast use group_steps_settings;

}

pub(crate) broadcast proof fn twin_paused(o: OutsideView, p: OutsideView, ms: u64)
    requires
        !o.waiting,
        twin(o, p),
    ensures
        twin((#[trigger] paused(o, ms)).0, (#[trigger] paused(p, ms)).0),
        !paused(o, ms).0.waiting ==> paused(o, ms).1 == paused(p, ms).1,
{
    broadcast use group_steps_settings;
    broadcast use group_twin_settings;

}

pub(crate) broadcast group group_steps_node {
    group_steps_basic,
    steps_run,
    steps_log,
    steps_ask,
    steps_tell,
    steps_scanned,
    steps_answered,
    steps_paired,
    steps_joined,
    steps_parted,
    steps_identified,
    steps_inspected,
    steps_node_found,
    steps_missed,
    steps_controlled,
    steps_feeding,
    steps_commanded,
    steps_window,
    steps_hidden,
    steps_polled,
    steps_paused,
}

pub(crate) broadcast group group_twin_node {
    group_twin_basic,
    twin_run,
    twin_log,
    twin_ask,
    twin_tell,
    twin_scanned,
    twin_answered,
    twin_paired,
    twin_joined,
    twin_parted,
    twin_identified,
    twin_inspected,
    twin_node_found,
    twin_missed,
    twin_controlled,
    twin_feeding,
    twin_commanded,
    twin_window,
    twin_hidden,
    twin_polled,
    twin_paused,
}

pub(crate) broadcast proof fn steps_located(o: OutsideView)
    ensures
        steps(o, (#[trigger] located(o)).0),
        mute(o, located(o).0),
        quiet(o, located(o).0),
{
    broadcast use group_steps_node;

    reveal(located);
}

pub(crate) broadcast proof fn twin_located(o: OutsideView, p: OutsideView)
    requires
        !o.waiting,
        twin(o, p),
    ensures
        twin((#[trigger] located(o)).0, (#[trigger] located(p)).0),
        !located(o).0.waiting ==> located(o).1 == located(p).1,
{
    broadcast use group_steps_node;
    broadcast use group_twin_node;

    reveal(located);
}

pub(crate) broadcast proof fn steps_hiding(o: OutsideView)
    ensures
        steps(o, (#[trigger] hiding(o)).0),
        mute(o, hiding(o).0),
        quiet(o, hiding(o).0),
{
    broadcast use group_steps_node;

    reveal(hiding);
}

pub(crate) broadcast proof fn twin_hiding(o: OutsideView, p: OutsideView)
    requires
        !o.waiting,
        twin(o, p),
    ensures
        twin((#[trigger] hiding(o)).0, (#[trigger] hiding(p)).0),
        !hiding(o).0.waiting ==> hiding(o).1 == hiding(p).1,
{
    broadcast use group_steps_node;
    broadcast use group_twin_node;

    reveal(hiding);
}

pub(crate) broadcast group group_steps_preview {
    group_steps_basic,
    steps_run,
    steps_log,
    steps_ask,
    steps_tell,
    steps_scanned,
    steps_answered,
    steps_paired,
    steps_joined,
    steps_parted,
    steps_identified,
    steps_inspected,
    steps_node_found,
    steps_missed,
    steps_controlled,
    steps_feeding,
    steps_commanded,
    steps_window,
    steps_hidden,
    steps_polled,
    steps_paused,
    steps_located,
    steps_hiding,
}

pub(crate) broadcast group group_twin_preview {
    group_twin_basic,
    twin_run,
    twin_log,
    twin_ask,
    twin_tell,
    twin_scanned,
    twin_answered,
    twin_paired,
    twin_joined,
    twin_parted,
    twin_identified,
    twin_inspected,
    twin_node_found,
    twin_missed,
    twin_controlled,
    twin_feeding,
    twin_commanded,
    twin_window,
    twin_hidden,
    twin_polled,
    twin_paused,
    twin_located,
    twin_hiding,
}

pub(crate) broadcast proof fn steps_attended(o: OutsideView, node: Seq<char>)
    ensures
        steps(o, (#[trigger] attended(o, node)).0),
        mute(o, attended(o, node).0),
        turns(o, attended(o, node).0, true, attended(o, node).1 is Ok),
        launches(attended(o, node).0.trace) == launches(o.trace),
    decreases left(o),
{
    broadcast use group_steps_preview;
    broadcast use group_turns;

    let (o1, writer) = polled(o);
    let (o2, _) = feeding(o1, node);
    let (o3, _) = paused(o2, 25);
    lemma_turns_polled(o, true);
    lemma_turns_kill(o1, false);
    lemma_turns_kill(o2, true);
    lemma_turns_kill(o3, true);
    lemma_launches_kill(o1);
    lemma_launches_kill(o2);
    lemma_launches_kill(o3);
    if left(o3) < left(o) {
        steps_attended(o3, node);
    } else {
        assert(turns(o, o3, true, writer is Running));
        assert(turns(o, o3, true, false)) by {
            reveal(turns);
            reveal(steps);
        }
    }
}

pub(crate) broadcast proof fn twin_attended(o: OutsideView, p: OutsideView, node: Seq<char>)
    requires
        !o.waiting,
        twin(o, p),
    ensures
        twin((#[trigger] attended(o, node)).0, (#[trigger] attended(p, node)).0),
        !attended(o, node).0.waiting ==> attended(o, node).1 == attended(p, node).1,
    decreases left(o),
{
    broadcast use group_steps_preview;
    broadcast use group_twin_preview;

    let (o1, w1) = polled(o);
    let (p1, _) = polled(p);
    let (o2, c1) = feeding(o1, node);
    let (p2, _) = feeding(p1, node);
    let (o3, e1) = paused(o2, 25);
    let (p3, _) = paused(p2, 25);
    steps_attended(o3, node);
    steps_attended(p3, node);
    if !o1.waiting && !o2.waiting && !o3.waiting {
        lemma_left(o, o3, p, p3);
        if left(o3) < left(o) {
            twin_attended(o3, p3, node);
        }
    }
}

/// As many answers are used in twins.
proof fn lemma_left(o: OutsideView, o3: OutsideView, p: OutsideView, p3: OutsideView)
    requires
        twin(o, p),
        twin(o3, p3),
        steps(o, o3),
        steps(p, p3),
        !o.waiting,
        !o3.waiting,
    ensures
        left(o3) < left(o) <==> left(p3) < left(p),
{
    reveal(twin);
    reveal(steps);
}

pub(crate) broadcast proof fn steps_appeared(o: OutsideView)
    ensures
        steps(o, (#[trigger] appeared(o)).0),
        mute(o, appeared(o).0),
        quiet(o, appeared(o).0),
    decreases left(o),
{
    broadcast use group_steps_preview;

    let (o1, _) = window(o);
    let (o2, _) = paused(o1, 50);
    if left(o2) < left(o) {
        steps_appeared(o2);
    }
}

pub(crate) broadcast proof fn twin_appeared(o: OutsideView, p: OutsideView)
    requires
        !o.waiting,
        twin(o, p),
    ensures
        twin((#[trigger] appeared(o)).0, (#[trigger] appeared(p)).0),
        !appeared(o).0.waiting ==> appeared(o).1 == appeared(p).1,
    decreases left(o),
{
    broadcast use group_steps_preview;
    broadcast use group_twin_preview;

    let (o1, c1) = window(o);
    let (p1, _) = window(p);
    let (o2, e1) = paused(o1, 50);
    let (p2, _) = paused(p1, 50);
    steps_appeared(o2);
    steps_appeared(p2);
    if !o1.waiting && !o2.waiting {
        lemma_left(o, o2, p, p2);
        if left(o2) < left(o) {
            twin_appeared(o2, p2);
        }
    }
}

pub(crate) broadcast group group_steps_waits {
    group_steps_basic,
    steps_run,
    steps_log,
    steps_ask,
    steps_tell,
    steps_scanned,
    steps_answered,
    steps_paired,
    steps_joined,
    steps_parted,
    steps_identified,
    steps_inspected,
    steps_node_found,
    steps_missed,
    steps_controlled,
    steps_feeding,
    steps_commanded,
    steps_window,
    steps_hidden,
    steps_polled,
    steps_paused,
    steps_located,
    steps_hiding,
    steps_attended,
    steps_appeared,
}

pub(crate) broadcast group group_twin_waits {
    group_twin_basic,
    twin_run,
    twin_log,
    twin_ask,
    twin_tell,
    twin_scanned,
    twin_answered,
    twin_paired,
    twin_joined,
    twin_parted,
    twin_identified,
    twin_inspected,
    twin_node_found,
    twin_missed,
    twin_controlled,
    twin_feeding,
    twin_commanded,
    twin_window,
    twin_hidden,
    twin_polled,
    twin_paused,
    twin_located,
    twin_hiding,
    twin_attended,
    twin_appeared,
}

pub(crate) broadcast proof fn steps_spawned(
    o: OutsideView,
    serial: Seq<char>,
    node: Seq<char>,
    settings: CameraSettingsView,
)
    ensures
        steps(o, (#[trigger] spawned(o, serial, node, settings)).0),
        mute(o, spawned(o, serial, node, settings).0),
        turns(
            o,
            spawned(o, serial, node, settings).0,
            false,
            spawned(o, serial, node, settings).1 is Ok,
        ),
        launched_once(o, spawned(o, serial, node, settings).0, serial, node, settings) || (
        spawned(o, serial, node, settings).1 is Err && launches(
            spawned(o, serial, node, settings).0.trace,
        ) == launches(o.trace)),
{
    broadcast use group_steps_waits;
    broadcast use group_turns;

    reveal(spawned);
    let (o1, busy) = feeding(o, node);
    turns_nothing(o, o1, false);
    if let Some((width, height)) = crate::capture::dimensions(
        crate::settings::frame_size(settings),
    ) {
        let argv = launch_command(
            serial,
            node,
            settings,
            crate::capture::window_height(width, height),
        );
        lemma_turns_launch(o1, argv);
        launches_say_what_was_asked(
            serial,
            node,
            settings,
            crate::capture::window_height(width, height),
        );
        assert(o1.trace.push(ActView::Launch { argv }).drop_last() =~= o1.trace);
        assert(launches(o1.trace).push(argv).drop_last() =~= launches(o1.trace));
        let o2 = o1.ask(ActView::Launch { argv }).0;
        let (o3, _) = attended(o2.tell(ActView::Deadline { ms: o2.startup_ms }), node);
        let (o4, _) = appeared(o3.tell(ActView::Deadline { ms: o3.preview_ms }));
        lemma_turns_kill(o4, true);
        lemma_launches_kill(o4);
    }
    assert forall|height: nat| launchable(#[trigger] launch_command(serial, node, settings, height)) by {
        let argv = launch_command(serial, node, settings, height);
        assert(argv[10] == "--no-control"@);
    }
}

pub(crate) broadcast proof fn twin_spawned(
    o: OutsideView,
    p: OutsideView,
    serial: Seq<char>,
    node: Seq<char>,
    settings: CameraSettingsView,
)
    requires
        !o.waiting,
        twin(o, p),
    ensures
        twin(
            (#[trigger] spawned(o, serial, node, settings)).0,
            (#[trigger] spawned(p, serial, node, settings)).0,
        ),
        !spawned(o, serial, node, settings).0.waiting
            ==> spawned(o, serial, node, settings).1 == spawned(p, serial, node, settings).1,
{
    broadcast use group_steps_waits;
    broadcast use group_twin_waits;

    reveal(spawned);
    assert forall|height: nat| launchable(#[trigger] launch_command(serial, node, settings, height)) by {
        let argv = launch_command(serial, node, settings, height);
        assert(argv[10] == "--no-control"@);
    }
}

pub(crate) broadcast proof fn steps_consumed(o: OutsideView, node: Seq<char>, writer: u32)
    ensures
        steps(o, (#[trigger] consumed(o, node, writer)).0),
        mute(o, consumed(o, node, writer).0),
        quiet(o, consumed(o, node, writer).0),
{
    broadcast use group_steps_waits;

    lemma_words();

    reveal(consumed);
}

pub(crate) broadcast proof fn twin_consumed(
    o: OutsideView,
    p: OutsideView,
    node: Seq<char>,
    writer: u32,
)
    requires
        !o.waiting,
        twin(o, p),
    ensures
        twin((#[trigger] consumed(o, node, writer)).0, (#[trigger] consumed(p, node, writer)).0),
        !consumed(o, node, writer).0.waiting
            ==> consumed(o, node, writer).1 == consumed(p, node, writer).1,
{
    broadcast use group_steps_waits;
    broadcast use group_twin_waits;

    reveal(consumed);
}

pub(crate) broadcast group group_steps_spawned {
    group_steps_basic,
    steps_run,
    steps_log,
    steps_ask,
    steps_tell,
    steps_scanned,
    steps_answered,
    steps_paired,
    steps_joined,
    steps_parted,
    steps_identified,
    steps_inspected,
    steps_node_found,
    steps_missed,
    steps_controlled,
    steps_feeding,
    steps_commanded,
    steps_window,
    steps_hidden,
    steps_polled,
    steps_paused,
    steps_located,
    steps_hiding,
    steps_attended,
    steps_appeared,
    steps_spawned,
    steps_consumed,
}

pub(crate) broadcast group group_twin_spawned {
    group_twin_basic,
    twin_run,
    twin_log,
    twin_ask,
    twin_tell,
    twin_scanned,
    twin_answered,
    twin_paired,
    twin_joined,
    twin_parted,
    twin_identified,
    twin_inspected,
    twin_node_found,
    twin_missed,
    twin_controlled,
    twin_feeding,
    twin_commanded,
    twin_window,
    twin_hidden,
    twin_polled,
    twin_paused,
    twin_located,
    twin_hiding,
    twin_attended,
    twin_appeared,
    twin_spawned,
    twin_consumed,
}

pub(crate) broadcast proof fn steps_replaced(
    o: OutsideView,
    serial: Seq<char>,
    public: CaptureView,
    settings: CameraSettingsView,
    style: PreviewStyle,
    position: Option<[i64; 2]>,
)
    ensures
        steps(o, (#[trigger] replaced(o, serial, public, settings, style, position)).0),
        mute(o, replaced(o, serial, public, settings, style, position).0),
        turns(
            o,
            replaced(o, serial, public, settings, style, position).0,
            false,
            replaced(o, serial, public, settings, style, position).1 is Ok,
        ),
        launched_once(
            o,
            replaced(o, serial, public, settings, style, position).0,
            serial,
            public.node,
            settings,
        ) || (replaced(o, serial, public, settings, style, position).1 is Err && launches(
            replaced(o, serial, public, settings, style, position).0.trace,
        ) == launches(o.trace)),
{
    broadcast use group_steps_spawned;
    broadcast use group_turns;

    assert forall|p: OutsideView| #[trigger] quiet(o, p) implies turns(o, p, false, false) by {
        turns_nothing(o, p, false);
    }

    reveal(replaced);
}

pub(crate) broadcast proof fn twin_replaced(
    o: OutsideView,
    p: OutsideView,
    serial: Seq<char>,
    public: CaptureView,
    settings: CameraSettingsView,
    style: PreviewStyle,
    position: Option<[i64; 2]>,
)
    requires
        !o.waiting,
        twin(o, p),
    ensures
        twin(
            (#[trigger] replaced(o, serial, public, settings, style, position)).0,
            (#[trigger] replaced(p, serial, public, settings, style, position)).0,
        ),
        !replaced(o, serial, public, settings, style, position).0.waiting
            ==> replaced(o, serial, public, settings, style, position).1 == replaced(p, serial, public, settings, style, position).1,
{
    broadcast use group_steps_spawned;
    broadcast use group_twin_spawned;

    reveal(replaced);
}

pub(crate) broadcast proof fn steps_stand_in_hidden(
    o: OutsideView,
    style: PreviewStyle,
    position: Option<[i64; 2]>,
)
    ensures
        steps(o, (#[trigger] stand_in_hidden(o, style, position)).0),
        mute(o, stand_in_hidden(o, style, position).0),
        quiet(o, stand_in_hidden(o, style, position).0),
{
    broadcast use group_steps_spawned;

    reveal(stand_in_hidden);
}

pub(crate) broadcast proof fn twin_stand_in_hidden(
    o: OutsideView,
    p: OutsideView,
    style: PreviewStyle,
    position: Option<[i64; 2]>,
)
    requires
        !o.waiting,
        twin(o, p),
    ensures
        twin(
            (#[trigger] stand_in_hidden(o, style, position)).0,
            (#[trigger] stand_in_hidden(p, style, position)).0,
        ),
        !stand_in_hidden(o, style, position).0.waiting
            ==> stand_in_hidden(o, style, position).1 == stand_in_hidden(p, style, position).1,
{
    broadcast use group_steps_spawned;
    broadcast use group_twin_spawned;

    reveal(stand_in_hidden);
}

pub(crate) broadcast proof fn steps_stand_in_restored(
    o: OutsideView,
    style: PreviewStyle,
    position: Option<[i64; 2]>,
)
    ensures
        steps(o, #[trigger] stand_in_restored(o, style, position)),
        mute(o, stand_in_restored(o, style, position)),
        quiet(o, stand_in_restored(o, style, position)),
{
    broadcast use group_steps_spawned;

    reveal(stand_in_restored);
}

pub(crate) broadcast proof fn twin_stand_in_restored(
    o: OutsideView,
    p: OutsideView,
    style: PreviewStyle,
    position: Option<[i64; 2]>,
)
    requires
        !o.waiting,
        twin(o, p),
    ensures
        twin(
            #[trigger] stand_in_restored(o, style, position),
            #[trigger] stand_in_restored(p, style, position),
        ),
{
    broadcast use group_steps_spawned;
    broadcast use group_twin_spawned;

    reveal(stand_in_restored);
}

pub(crate) broadcast proof fn steps_valued(o: OutsideView, json: Seq<char>)
    ensures
        steps(o, (#[trigger] valued(o, json)).0),
        mute(o, valued(o, json).0),
        quiet(o, valued(o, json).0),
{
    broadcast use group_steps_spawned;

}

pub(crate) broadcast proof fn twin_valued(o: OutsideView, p: OutsideView, json: Seq<char>)
    requires
        !o.waiting,
        twin(o, p),
    ensures
        twin((#[trigger] valued(o, json)).0, (#[trigger] valued(p, json)).0),
        !valued(o, json).0.waiting ==> valued(o, json).1 == valued(p, json).1,
{
    broadcast use group_steps_spawned;
    broadcast use group_twin_spawned;

}

pub(crate) broadcast proof fn steps_described(o: OutsideView, settings: CameraSettingsView)
    ensures
        steps(o, (#[trigger] described(o, settings)).0),
        mute(o, described(o, settings).0),
        quiet(o, described(o, settings).0),
{
    broadcast use group_steps_spawned;

}

pub(crate) broadcast proof fn twin_described(
    o: OutsideView,
    p: OutsideView,
    settings: CameraSettingsView,
)
    requires
        !o.waiting,
        twin(o, p),
    ensures
        twin((#[trigger] described(o, settings)).0, (#[trigger] described(p, settings)).0),
        !described(o, settings).0.waiting ==> described(o, settings).1 == described(p, settings).1,
{
    broadcast use group_steps_spawned;
    broadcast use group_twin_spawned;

}

pub(crate) broadcast group group_steps_outside {
    group_steps_basic,
    steps_run,
    steps_log,
    steps_ask,
    steps_tell,
    steps_scanned,
    steps_answered,
    steps_paired,
    steps_joined,
    steps_parted,
    steps_identified,
    steps_inspected,
    steps_node_found,
    steps_missed,
    steps_controlled,
    steps_feeding,
    steps_commanded,
    steps_window,
    steps_hidden,
    steps_polled,
    steps_paused,
    steps_located,
    steps_hiding,
    steps_spawned,
    steps_consumed,
    steps_replaced,
    steps_stand_in_hidden,
    steps_stand_in_restored,
    steps_valued,
    steps_described,
}

pub(crate) broadcast group group_twin_outside {
    group_twin_basic,
    twin_run,
    twin_log,
    twin_ask,
    twin_tell,
    twin_scanned,
    twin_answered,
    twin_paired,
    twin_joined,
    twin_parted,
    twin_identified,
    twin_inspected,
    twin_node_found,
    twin_missed,
    twin_controlled,
    twin_feeding,
    twin_commanded,
    twin_window,
    twin_hidden,
    twin_polled,
    twin_paused,
    twin_located,
    twin_hiding,
    twin_spawned,
    twin_consumed,
    twin_replaced,
    twin_stand_in_hidden,
    twin_stand_in_restored,
    twin_valued,
    twin_described,
}

// ---------------------------------------------------------------------------
// Operations

/// The revision that some acts lead to: each state for clients is the next.
pub open spec fn counted(rev: u64, acts: Seq<ActView>) -> u64
    decreases acts.len(),
{
    if acts.len() == 0 {
        rev
    } else if acts.last() is Push {
        (counted(rev, acts.drop_last()) + 1) as u64
    } else {
        counted(rev, acts.drop_last())
    }
}

/// Whether each state for clients carries the revision it leads to.
pub open spec fn numbered(rev: u64, acts: Seq<ActView>) -> bool
    decreases acts.len(),
{
    acts.len() > 0 ==> numbered(rev, acts.drop_last()) && (acts.last() matches ActView::Push {
        rev: own,
        ..
    } ==> own == counted(rev, acts))
}

proof fn lemma_counted_on(rev: u64, a: Seq<ActView>, b: Seq<ActView>)
    ensures
        counted(rev, a + b) == counted(counted(rev, a), b),
        numbered(rev, a) && numbered(counted(rev, a), b) ==> numbered(rev, a + b),
    decreases b.len(),
{
    if b.len() == 0 {
        assert(a + b =~= a);
    } else {
        lemma_counted_on(rev, a, b.drop_last());
        assert((a + b).drop_last() =~= a + b.drop_last());
        assert((a + b).last() == b.last());
    }
}

proof fn lemma_counted_quiet(rev: u64, acts: Seq<ActView>)
    requires
        forall|i: int| 0 <= i < acts.len() ==> (#[trigger] acts[i]) !is Push,
    ensures
        counted(rev, acts) == rev,
        numbered(rev, acts),
    decreases acts.len(),
{
    if acts.len() > 0 {
        assert(acts[acts.len() - 1] == acts.last());
        lemma_counted_quiet(rev, acts.drop_last());
    }
}

/// Whether a daemon is how another went on. What was done is not taken back,
/// nothing unsafe was done, nothing happens while it waits, and the revision
/// counts the states that were sent.
#[verifier::opaque]
pub open spec fn goes_on(d: DaemonView, e: DaemonView) -> bool {
    let n = d.outside.trace.len() as int;
    let acts = e.outside.trace.skip(n);
    &&& e.outside.answers == d.outside.answers
    &&& e.outside.startup_ms == d.outside.startup_ms
    &&& e.outside.preview_ms == d.outside.preview_ms
    &&& leads(d.outside.trace, e.outside.trace)
    &&& forall|i: int| n <= i < e.outside.trace.len() ==> safe(#[trigger] e.outside.trace[i])
    &&& d.outside.waiting ==> e == d
    &&& d.outside.used <= e.outside.used
    &&& e.outside.used <= d.outside.used || e.outside.used <= e.outside.answers.len()
    &&& e.outside.waiting && !d.outside.waiting ==> e.outside.used >= e.outside.answers.len()
        && e.outside.trace.len() > n && expects(e.outside.trace.last())
    &&& e.core.rev == counted(d.core.rev, acts)
    &&& numbered(d.core.rev, acts)
    &&& asked(e.outside.trace) - asked(d.outside.trace) == owed(e.outside) - owed(d.outside)
}

/// The state that clients were sent last, given the one they had.
pub open spec fn last_sent(state: StateView, acts: Seq<ActView>) -> StateView
    decreases acts.len(),
{
    if acts.len() == 0 {
        state
    } else if let ActView::Push { state: own, .. } = acts.last() {
        own
    } else {
        last_sent(state, acts.drop_last())
    }
}

/// Whether each state for clients differs from the one they had.
pub open spec fn all_news(state: StateView, acts: Seq<ActView>) -> bool
    decreases acts.len(),
{
    acts.len() > 0 ==> all_news(state, acts.drop_last()) && (acts.last() matches ActView::Push {
        state: own,
        ..
    } ==> is_news(own, last_sent(state, acts.drop_last())))
}

proof fn lemma_sent_on(state: StateView, a: Seq<ActView>, b: Seq<ActView>)
    ensures
        last_sent(state, a + b) == last_sent(last_sent(state, a), b),
        all_news(state, a) && all_news(last_sent(state, a), b) ==> all_news(state, a + b),
    decreases b.len(),
{
    if b.len() == 0 {
        assert(a + b =~= a);
    } else {
        lemma_sent_on(state, a, b.drop_last());
        assert((a + b).drop_last() =~= a + b.drop_last());
        assert((a + b).last() == b.last());
    }
}

proof fn lemma_sent_nothing(state: StateView, acts: Seq<ActView>)
    requires
        forall|i: int| 0 <= i < acts.len() ==> (#[trigger] acts[i]) !is Push,
    ensures
        last_sent(state, acts) == state,
        all_news(state, acts),
    decreases acts.len(),
{
    if acts.len() > 0 {
        assert(acts[acts.len() - 1] == acts.last());
        lemma_sent_nothing(state, acts.drop_last());
    }
}

/// Whether a daemon is how another went on that sent clients every state it
/// came to hold, and none that they had.
#[verifier::opaque]
pub open spec fn tells(d: DaemonView, e: DaemonView) -> bool {
    let acts = e.outside.trace.skip(d.outside.trace.len() as int);
    &&& leads(d.outside.trace, e.outside.trace)
    &&& e.core.state == last_sent(d.core.state, acts)
    &&& all_news(d.core.state, acts)
}

/// Whether some acts send clients a state.
pub open spec fn any_sent(acts: Seq<ActView>) -> bool {
    exists|i: int| 0 <= i < acts.len() && (#[trigger] acts[i]) is Push
}

proof fn lemma_sent_last(a: StateView, b: StateView, acts: Seq<ActView>)
    ensures
        any_sent(acts) ==> last_sent(a, acts) == last_sent(b, acts),
        !any_sent(acts) ==> last_sent(a, acts) == a,
    decreases acts.len(),
{
    if acts.len() > 0 {
        let prior = acts.drop_last();
        lemma_sent_last(a, b, prior);
        assert(acts[acts.len() - 1] == acts.last());
        if acts.last() !is Push {
            if any_sent(acts) {
                let i = choose|i: int| 0 <= i < acts.len() && (#[trigger] acts[i]) is Push;
                assert(prior[i] is Push);
            } else {
                assert forall|i: int| 0 <= i < prior.len() implies (#[trigger] prior[i]) !is Push by {
                    assert(acts[i] == prior[i]);
                }
            }
        }
    }
}

/// Whether what a daemon holds is what clients were sent last, if they were
/// sent anything after a trace.
#[verifier::opaque]
pub open spec fn caught_up(trace: Seq<ActView>, e: DaemonView) -> bool {
    let acts = e.outside.trace.skip(trace.len() as int);
    &&& leads(trace, e.outside.trace)
    &&& any_sent(acts) ==> forall|had: StateView| e.core.state == #[trigger] last_sent(had, acts)
}

pub(crate) proof fn lemma_tells_caught_up(d: DaemonView, e: DaemonView)
    requires
        tells(d, e),
    ensures
        caught_up(d.outside.trace, e),
        d.core.state != e.core.state ==> any_sent(
            e.outside.trace.skip(d.outside.trace.len() as int),
        ),
{
    reveal(tells);
    reveal(caught_up);
    let acts = e.outside.trace.skip(d.outside.trace.len() as int);
    lemma_sent_last(d.core.state, d.core.state, acts);
    assert forall|had: StateView| any_sent(acts) implies e.core.state == #[trigger] last_sent(
        had,
        acts,
    ) by {
        lemma_sent_last(d.core.state, had, acts);
    }
}

/// What is sent later is sent.
pub(crate) proof fn lemma_sent_later(d: DaemonView, m: DaemonView, e: DaemonView)
    requires
        goes_on(d, m),
        goes_on(m, e),
        any_sent(e.outside.trace.skip(m.outside.trace.len() as int)),
    ensures
        any_sent(e.outside.trace.skip(d.outside.trace.len() as int)),
{
    reveal(goes_on);
    reveal(leads);
    let a = d.outside.trace.len() as int;
    let b = m.outside.trace.len() as int;
    let late = e.outside.trace.skip(b);
    let i = choose|i: int| 0 <= i < late.len() && (#[trigger] late[i]) is Push;
    assert(e.outside.trace.skip(a)[b - a + i] == late[i]);
}

/// Acts that send nothing come before as well.
pub(crate) proof fn lemma_caught_up_on(o: OutsideView, p: OutsideView, e: DaemonView)
    requires
        steps(o, p),
        caught_up(p.trace, e),
    ensures
        caught_up(o.trace, e),
{
    reveal(steps);
    reveal(extends);
    reveal(leads);
    reveal(caught_up);
    let n = o.trace.len() as int;
    let m = p.trace.len() as int;
    let a = p.trace.skip(n);
    let b = e.outside.trace.skip(m);
    let acts = e.outside.trace.skip(n);
    assert forall|i: int| n <= i < m implies #[trigger] e.outside.trace[i] == a[i - n] by {
        assert(p.trace[i] == e.outside.trace[i]);
    }
    assert(acts =~= a + b);
    assert forall|i: int| 0 <= i < a.len() implies (#[trigger] a[i]) !is Push by {
        assert(a[i] == p.trace[n + i]);
    }
    if any_sent(acts) {
        let i = choose|i: int| 0 <= i < acts.len() && (#[trigger] acts[i]) is Push;
        assert(i >= a.len());
        assert(b[i - a.len()] is Push);
        assert forall|had: StateView| e.core.state == #[trigger] last_sent(had, acts) by {
            lemma_sent_on(had, a, b);
            assert(e.core.state == last_sent(last_sent(had, a), b));
        }
    }
}

/// Whether a daemon has launched scrcpy only while none was there, and holds a
/// writer exactly where one is.
pub open spec fn single(before: bool, d: DaemonView) -> bool {
    orderly(before, d.outside) && (!d.outside.waiting ==> manned(before, d.outside)
        == d.core.writer is Some)
}

/// Whether a daemon is how another went on that launched scrcpy only while none
/// was there, and that holds a writer exactly where one is.
#[verifier::opaque]
pub open spec fn yields(d: DaemonView, e: DaemonView) -> bool {
    forall|before: bool| #[trigger] single(before, d) ==> single(before, e)
}

/// Whether two daemons are the same but for what the second was answered
/// beyond the first; or the first waits, and the second goes on from there.
#[verifier::opaque]
pub open spec fn alike(d: DaemonView, e: DaemonView) -> bool {
    twin(d.outside, e.outside) && (!d.outside.waiting ==> d.core == e.core)
}

/// The registry that was given to the disk last, given the one that was there.
pub open spec fn last_save(registry: RegistryView, acts: Seq<ActView>) -> RegistryView
    decreases acts.len(),
{
    if acts.len() == 0 {
        registry
    } else if let ActView::Save { registry: own } = acts.last() {
        own
    } else {
        last_save(registry, acts.drop_last())
    }
}

/// Whether the disk took every registry that it was given.
pub open spec fn all_written(acts: Seq<ActView>, answers: Seq<AnswerView>) -> bool {
    forall|i: int|
        0 <= i < acts.len() && (#[trigger] acts[i]) is Save ==> reply(acts.take(i), answers) is Done
}

/// Whether the disk has the registry that a daemon holds, if it took every one
/// that it was given.
pub open spec fn filed(before: RegistryView, d: DaemonView) -> bool {
    &&& asked(d.outside.trace) == owed(d.outside)
    &&& !d.outside.waiting && all_written(d.outside.trace, d.outside.answers) ==> d.core.registry
        == last_save(before, d.outside.trace)
}

/// Whether a daemon is how another went on that gave the disk every registry it
/// came to hold.
#[verifier::opaque]
pub open spec fn files(d: DaemonView, e: DaemonView) -> bool {
    forall|before: RegistryView| #[trigger] filed(before, d) ==> filed(before, e)
}

/// Whether a daemon is how another went on that gave the disk what it holds,
/// whatever was there.
#[verifier::opaque]
pub open spec fn saves(d: DaemonView, e: DaemonView) -> bool {
    forall|before: RegistryView|
        !d.outside.waiting && asked(d.outside.trace) == owed(d.outside) ==> #[trigger] filed(
            before,
            e,
        )
}

pub(crate) broadcast proof fn files_on(d: DaemonView, e: DaemonView, f: DaemonView)
    requires
        #[trigger] files(d, e),
        #[trigger] files(e, f),
    ensures
        files(d, f),
{
    reveal(files);
}

pub(crate) broadcast proof fn files_none(d: DaemonView)
    ensures
        #[trigger] files(d, d),
{
    reveal(files);
}

pub(crate) broadcast proof fn saves_files(d: DaemonView, e: DaemonView)
    requires
        #[trigger] saves(d, e),
        goes_on(d, e),
    ensures
        files(d, e),
{
    reveal(saves);
    reveal(files);
    reveal(goes_on);
}

pub(crate) broadcast proof fn saves_later(d: DaemonView, e: DaemonView, f: DaemonView)
    requires
        #[trigger] goes_on(d, e),
        #[trigger] saves(e, f),
        goes_on(e, f),
    ensures
        saves(d, f),
{
    reveal(saves);
    reveal(goes_on);
}

pub(crate) broadcast proof fn saves_on(d: DaemonView, e: DaemonView, f: DaemonView)
    requires
        #[trigger] saves(d, e),
        #[trigger] files(e, f),
        goes_on(d, e),
        goes_on(e, f),
    ensures
        saves(d, f),
{
    reveal(saves);
    reveal(files);
    assert forall|before: RegistryView|
        !d.outside.waiting && asked(d.outside.trace) == owed(d.outside) implies #[trigger] filed(
        before,
        f,
    ) by {
        assert(filed(before, e));
    }
}

proof fn lemma_all_written(a: Seq<ActView>, b: Seq<ActView>, answers: Seq<AnswerView>)
    requires
        leads(a, b),
        all_written(b, answers),
    ensures
        all_written(a, answers),
{
    reveal(leads);
    assert forall|i: int| 0 <= i < a.len() && (#[trigger] a[i]) is Save implies reply(
        a.take(i),
        answers,
    ) is Done by {
        assert(a[i] == b[i]);
        assert(a.take(i) =~= b.take(i));
    }
}

pub(crate) proof fn lemma_last_save(registry: RegistryView, a: Seq<ActView>, b: Seq<ActView>)
    requires
        leads(a, b),
        forall|i: int| a.len() <= i < b.len() ==> (#[trigger] b[i]) !is Save,
    ensures
        last_save(registry, b) == last_save(registry, a),
    decreases b.len(),
{
    reveal(leads);
    if a.len() == b.len() {
        assert(a =~= b);
    } else {
        assert(b[b.len() - 1] == b.last());
        lemma_last_save(registry, a, b.drop_last());
    }
}

/// A daemon that gives the disk nothing and holds the registry it held.
proof fn lemma_files(d: DaemonView, e: DaemonView)
    requires
        goes_on(d, e),
        e.core.registry == d.core.registry,
        forall|i: int|
            d.outside.trace.len() <= i < e.outside.trace.len() ==> (
            #[trigger] e.outside.trace[i]) !is Save,
    ensures
        files(d, e),
{
    reveal(files);
    reveal(goes_on);
    assert forall|before: RegistryView| #[trigger] filed(before, d) implies filed(before, e) by {
        lemma_last_save(before, d.outside.trace, e.outside.trace);
        if all_written(e.outside.trace, e.outside.answers) {
            lemma_all_written(d.outside.trace, e.outside.trace, e.outside.answers);
        }
    }
}

pub(crate) broadcast proof fn goes_on_on(d: DaemonView, e: DaemonView, f: DaemonView)
    requires
        #[trigger] goes_on(d, e),
        #[trigger] goes_on(e, f),
    ensures
        goes_on(d, f),
{
    reveal(goes_on);
    lemma_leads_on(d.outside.trace, e.outside.trace, f.outside.trace);
    let n = d.outside.trace.len() as int;
    let m = e.outside.trace.len() as int;
    let a = e.outside.trace.skip(n);
    let b = f.outside.trace.skip(m);
    assert(n <= m <= f.outside.trace.len() && f.outside.trace.skip(n) =~= a + b) by {
        reveal(leads);
        assert forall|i: int| 0 <= i < m implies #[trigger] e.outside.trace[i]
            == f.outside.trace[i] by {}
        assert forall|i: int| n <= i < m implies #[trigger] f.outside.trace[i] == a[i - n] by {
            assert(e.outside.trace[i] == f.outside.trace[i]);
        }
    }
    lemma_counted_on(d.core.rev, a, b);
    assert forall|i: int| n <= i < f.outside.trace.len() implies safe(
        #[trigger] f.outside.trace[i],
    ) by {
        reveal(leads);
        if i < m {
            assert(e.outside.trace[i] == f.outside.trace[i]);
        }
    }
}

pub(crate) broadcast proof fn tells_on(d: DaemonView, e: DaemonView, f: DaemonView)
    requires
        #[trigger] tells(d, e),
        #[trigger] tells(e, f),
    ensures
        tells(d, f),
{
    reveal(tells);
    lemma_leads_on(d.outside.trace, e.outside.trace, f.outside.trace);
    let n = d.outside.trace.len() as int;
    let m = e.outside.trace.len() as int;
    let a = e.outside.trace.skip(n);
    let b = f.outside.trace.skip(m);
    assert(n <= m <= f.outside.trace.len() && f.outside.trace.skip(n) =~= a + b) by {
        reveal(leads);
        assert forall|i: int| n <= i < m implies #[trigger] f.outside.trace[i] == a[i - n] by {
            assert(e.outside.trace[i] == f.outside.trace[i]);
        }
    }
    lemma_sent_on(d.core.state, a, b);
}

pub(crate) broadcast proof fn yields_on(d: DaemonView, e: DaemonView, f: DaemonView)
    requires
        #[trigger] yields(d, e),
        #[trigger] yields(e, f),
    ensures
        yields(d, f),
{
    reveal(yields);
}

pub(crate) broadcast proof fn goes_on_none(d: DaemonView)
    ensures
        #[trigger] goes_on(d, d),
{
    reveal(goes_on);
    reveal(leads);
    assert(d.outside.trace.skip(d.outside.trace.len() as int) =~= Seq::empty());
}

pub(crate) broadcast proof fn tells_none(d: DaemonView)
    ensures
        #[trigger] tells(d, d),
{
    reveal(tells);
    reveal(leads);
    assert(d.outside.trace.skip(d.outside.trace.len() as int) =~= Seq::empty());
}

pub(crate) broadcast proof fn yields_none(d: DaemonView)
    ensures
        #[trigger] yields(d, d),
{
    reveal(yields);
}

pub(crate) broadcast proof fn goes_on_waiting(d: DaemonView, e: DaemonView)
    requires
        #[trigger] goes_on(d, e),
    ensures
        d.outside.waiting ==> e == d,
{
    reveal(goes_on);
}

/// A daemon that holds a writer exactly where one is there.
pub(crate) proof fn lemma_yields(d: DaemonView, e: DaemonView, to: bool)
    requires
        turns(d.outside, e.outside, d.core.writer is Some, to),
        !e.outside.waiting ==> to == (e.core.writer is Some),
    ensures
        yields(d, e),
{
    reveal(yields);
    reveal(turns);
}

pub(crate) broadcast proof fn alike_on(d: DaemonView, e: DaemonView, f: DaemonView)
    requires
        #[trigger] alike(d, e),
        d.outside.waiting,
        #[trigger] goes_on(e, f),
    ensures
        alike(d, f),
{
    reveal(alike);
    reveal(goes_on);
    reveal(twin);
    lemma_leads_on(d.outside.trace, e.outside.trace, f.outside.trace);
}

pub(crate) broadcast proof fn alike_same(d: DaemonView, e: DaemonView)
    requires
        #[trigger] alike(d, e),
    ensures
        !d.outside.waiting ==> d.core == e.core && !e.outside.waiting,
        twin(d.outside, e.outside),
{
    reveal(alike);
    reveal(twin);
}

pub(crate) broadcast proof fn goes_on_with(d: DaemonView, o: OutsideView)
    requires
        steps(d.outside, o),
    ensures
        goes_on(d, #[trigger] d.with(o)),
        tells(d, d.with(o)),
        quiet(d.outside, o) ==> yields(d, d.with(o)),
        mute(d.outside, o) ==> mutes(d, d.with(o)),
        files(d, d.with(o)),
        quiet(d.outside, o) ==> launches(o.trace) == launches(d.outside.trace),
{
    reveal(goes_on);
    reveal(tells);
    reveal(yields);
    reveal(quiet);
    reveal(steps);
    reveal(extends);
    reveal(leads);
    let n = d.outside.trace.len() as int;
    let acts = o.trace.skip(n);
    assert forall|i: int| 0 <= i < acts.len() implies (#[trigger] acts[i]) !is Push by {
        assert(acts[i] == o.trace[n + i]);
    }
    lemma_counted_quiet(d.core.rev, acts);
    lemma_sent_nothing(d.core.state, acts);
    lemma_files(d, d.with(o));
}

pub(crate) broadcast proof fn alike_with(
    d: DaemonView,
    e: DaemonView,
    o: OutsideView,
    p: OutsideView,
)
    requires
        !d.outside.waiting,
        alike(d, e),
        twin(o, p),
    ensures
        alike(#[trigger] d.with(o), #[trigger] e.with(p)),
{
    reveal(alike);
}

pub(crate) broadcast proof fn goes_on_hold(d: DaemonView, core: CoreView)
    requires
        core.rev == d.core.rev,
    ensures
        goes_on(d, #[trigger] d.hold(core)),
        core.state == d.core.state ==> tells(d, d.hold(core)),
        core.writer == d.core.writer ==> yields(d, d.hold(core)),
        mutes(d, d.hold(core)),
        core.registry == d.core.registry ==> files(d, d.hold(core)),
{
    reveal(unpaired);
    reveal(goes_on);
    reveal(tells);
    reveal(yields);
    reveal(leads);
    assert(d.outside.trace.skip(d.outside.trace.len() as int) =~= Seq::empty());
    if core.registry == d.core.registry {
        lemma_files(d, d.hold(core));
    }
}

pub(crate) broadcast proof fn alike_hold(d: DaemonView, e: DaemonView, core: CoreView)
    requires
        !d.outside.waiting,
        alike(d, e),
    ensures
        alike(#[trigger] d.hold(core), #[trigger] e.hold(core)),
        !d.hold(core).outside.waiting,
{
    reveal(alike);
    reveal(twin);
}

pub(crate) broadcast proof fn goes_on_published(d: DaemonView, state: StateView)
    ensures
        goes_on(d, #[trigger] published(d, state)),
        tells(d, published(d, state)),
        yields(d, published(d, state)),
        mutes(d, published(d, state)),
        files(d, published(d, state)),
        launches(published(d, state).outside.trace) == launches(d.outside.trace),
{
    reveal(unpaired);
    reveal(goes_on);
    reveal(tells);
    reveal(yields);
    reveal_with_fuel(last_sent, 2);
    reveal_with_fuel(all_news, 2);
    reveal(leads);
    let n = d.outside.trace.len() as int;
    let e = published(d, state);
    assert(d.outside.trace.skip(n) =~= Seq::empty());
    assert(counted(d.core.rev, Seq::empty()) == d.core.rev);
    assert(numbered(d.core.rev, Seq::empty()));
    if !d.outside.waiting && is_news(state, d.core.state) {
        let rev = (d.core.rev + 1) as u64;
        let act = ActView::Push { rev, state };
        let acts = e.outside.trace.skip(n);
        assert(acts =~= seq![act]);
        assert(acts.drop_last() =~= Seq::empty());
        assert(acts.last() == act);
        lemma_quiet_tell(d.outside, act);
        reveal(quiet);
        assert(d.outside.trace.push(act).drop_last() =~= d.outside.trace);
    }
    lemma_files(d, e);
}

pub(crate) broadcast proof fn alike_published(d: DaemonView, e: DaemonView, state: StateView)
    requires
        !d.outside.waiting,
        alike(d, e),
    ensures
        alike(#[trigger] published(d, state), #[trigger] published(e, state)),
        !published(d, state).outside.waiting,
{
    reveal(alike);
    reveal(twin);
}

pub(crate) broadcast proof fn goes_on_end_writer(d: DaemonView)
    ensures
        goes_on(d, #[trigger] d.end_writer()),
        tells(d, d.end_writer()),
        yields(d, d.end_writer()),
        mutes(d, d.end_writer()),
        files(d, d.end_writer()),
        launches(d.end_writer().outside.trace) == launches(d.outside.trace),
        d.outside.waiting || d.end_writer().core.writer is None,
{
    broadcast use group_steps_run;

    reveal(unpaired);
    assert(tells(d, d.end_writer())) by {
        reveal(tells);
        reveal(leads);
        let acts = d.end_writer().outside.trace.skip(d.outside.trace.len() as int);
        assert forall|i: int| 0 <= i < acts.len() implies (#[trigger] acts[i]) !is Push by {}
        lemma_sent_nothing(d.core.state, acts);
    }
    lemma_turns_kill(d.outside, true);
    lemma_turns_kill(d.outside, false);
    assert(yields(d, d.end_writer())) by {
        reveal(yields);
        reveal(turns);
    }

    goes_on_with(d, d.outside.tell(ActView::Kill));
    goes_on_hold(
        d.with(d.outside.tell(ActView::Kill)),
        CoreView { writer: None, ..d.core },
    );
    goes_on_on(
        d,
        d.with(d.outside.tell(ActView::Kill)),
        d.with(d.outside.tell(ActView::Kill)).hold_writer(None),
    );
    goes_on_none(d);
    let killed = d.outside.tell(ActView::Kill);
    assert(d.outside.trace.push(ActView::Kill).drop_last() =~= d.outside.trace);
    files_on(d, d.with(killed), d.with(killed).hold_writer(None));
    files_none(d);
}

pub(crate) broadcast proof fn alike_end_writer(d: DaemonView, e: DaemonView)
    requires
        !d.outside.waiting,
        alike(d, e),
    ensures
        alike(#[trigger] d.end_writer(), #[trigger] e.end_writer()),
        !d.end_writer().outside.waiting,
{
    reveal(alike);
    reveal(twin);
}

pub(crate) broadcast group group_goes_on_basic {
    group_steps_outside,
    goes_on_on,
    tells_on,
    tells_none,
    files_on,
    files_none,
    saves_files,
    saves_later,
    saves_on,
    yields_on,
    yields_none,
    mutes_on,
    mutes_none,
    goes_on_none,
    goes_on_waiting,
    goes_on_with,
    goes_on_hold,
    goes_on_published,
    goes_on_end_writer,
}

pub(crate) broadcast group group_alike_basic {
    group_twin_outside,
    alike_on,
    alike_same,
    alike_with,
    alike_hold,
    alike_published,
    alike_end_writer,
}

pub(crate) broadcast proof fn goes_on_announced(
    d: DaemonView,
    connection: ConnectionView,
    attached: Seq<protocol::AttachedView>,
)
    ensures
        goes_on(d, #[trigger] announced(d, connection, attached)),
        mutes(d, announced(d, connection, attached)),
        files(d, announced(d, connection, attached)),
        tells(d, announced(d, connection, attached)),
        yields(d, announced(d, connection, attached)),
        launches(announced(d, connection, attached).outside.trace) == launches(d.outside.trace),
{
    broadcast use group_goes_on_basic;

    reveal(announced);
}

pub(crate) broadcast proof fn alike_announced(
    d: DaemonView,
    e: DaemonView,
    connection: ConnectionView,
    attached: Seq<protocol::AttachedView>,
)
    requires
        !d.outside.waiting,
        alike(d, e),
    ensures
        alike(
            #[trigger] announced(d, connection, attached),
            #[trigger] announced(e, connection, attached),
        ),
{
    broadcast use group_goes_on_basic;
    broadcast use group_alike_basic;

    reveal(announced);
}

pub(crate) broadcast proof fn goes_on_prepared(d: DaemonView)
    ensures
        goes_on(d, #[trigger] prepared(d)),
        mutes(d, prepared(d)),
        files(d, prepared(d)),
        tells(d, prepared(d)),
        yields(d, prepared(d)),
        quiet(d.outside, prepared(d).outside),
        prepared(d).core.writer == d.core.writer,
        launches(prepared(d).outside.trace) == launches(d.outside.trace),
{
    broadcast use group_goes_on_basic;

    reveal(prepared);
}

pub(crate) broadcast proof fn alike_prepared(d: DaemonView, e: DaemonView)
    requires
        !d.outside.waiting,
        alike(d, e),
    ensures
        alike(#[trigger] prepared(d), #[trigger] prepared(e)),
{
    broadcast use group_goes_on_basic;
    broadcast use group_alike_basic;

    reveal(prepared);
}

pub(crate) broadcast proof fn goes_on_kept_on_disk(d: DaemonView)
    ensures
        goes_on(d, (#[trigger] kept_on_disk(d)).0),
        mutes(d, kept_on_disk(d).0),
        files(d, kept_on_disk(d).0),
        tells(d, kept_on_disk(d).0),
        yields(d, kept_on_disk(d).0),
        kept_on_disk(d).0.core == d.core,
        saves(d, kept_on_disk(d).0),
        launches(kept_on_disk(d).0.outside.trace) == launches(d.outside.trace),
{
    reveal(kept_on_disk);
    reveal(unpaired);
    reveal(goes_on);
    reveal(tells);
    reveal(yields);
    reveal(leads);
    reveal(quiet);
    reveal_with_fuel(last_sent, 2);
    reveal_with_fuel(all_news, 2);
    let act = ActView::Save { registry: d.core.registry };
    let e = kept_on_disk(d).0;
    let n = d.outside.trace.len() as int;
    let acts = e.outside.trace.skip(n);
    lemma_quiet_ask(d.outside, act);
    assert(d.outside.trace.push(act).drop_last() =~= d.outside.trace);
    assert(counted(d.core.rev, Seq::empty()) == d.core.rev);
    assert(numbered(d.core.rev, Seq::empty()));
    if d.outside.waiting {
        assert(acts =~= Seq::empty());
    } else {
        assert(acts =~= seq![act]);
        assert(acts.drop_last() =~= Seq::empty());
        assert(acts.last() == act);
        lemma_counted_quiet(d.core.rev, acts);
        assert(e.outside.trace.last() == act);
    }
    reveal(saves);
    saves_files(d, e);
}

pub(crate) broadcast proof fn alike_kept_on_disk(d: DaemonView, e: DaemonView)
    requires
        !d.outside.waiting,
        alike(d, e),
    ensures
        alike((#[trigger] kept_on_disk(d)).0, (#[trigger] kept_on_disk(e)).0),
        !kept_on_disk(d).0.outside.waiting ==> kept_on_disk(d).1 == kept_on_disk(e).1,
{
    broadcast use group_goes_on_basic;
    broadcast use group_alike_basic;

    reveal(kept_on_disk);
}

pub(crate) broadcast group group_goes_on_publish {
    group_steps_outside,
    goes_on_on,
    tells_on,
    tells_none,
    files_on,
    files_none,
    saves_files,
    saves_later,
    saves_on,
    yields_on,
    yields_none,
    mutes_on,
    mutes_none,
    goes_on_none,
    goes_on_waiting,
    goes_on_with,
    goes_on_hold,
    goes_on_published,
    goes_on_end_writer,
    goes_on_announced,
    goes_on_prepared,
    goes_on_kept_on_disk,
}

pub(crate) broadcast group group_alike_publish {
    group_twin_outside,
    alike_on,
    alike_same,
    alike_with,
    alike_hold,
    alike_published,
    alike_end_writer,
    alike_announced,
    alike_prepared,
    alike_kept_on_disk,
}

pub(crate) broadcast proof fn goes_on_reconnecting(d: DaemonView, connection: ConnectionView)
    ensures
        goes_on(d, (#[trigger] reconnecting(d, connection)).0),
        mutes(d, reconnecting(d, connection).0),
        files(d, reconnecting(d, connection).0),
        tells(d, reconnecting(d, connection).0),
        yields(d, reconnecting(d, connection).0),
        launches(reconnecting(d, connection).0.outside.trace) == launches(d.outside.trace),
{
    broadcast use group_goes_on_publish;

    reveal(reconnecting);
}

pub(crate) broadcast proof fn alike_reconnecting(
    d: DaemonView,
    e: DaemonView,
    connection: ConnectionView,
)
    requires
        !d.outside.waiting,
        alike(d, e),
    ensures
        alike(
            (#[trigger] reconnecting(d, connection)).0,
            (#[trigger] reconnecting(e, connection)).0,
        ),
        !reconnecting(d, connection).0.outside.waiting
            ==> reconnecting(d, connection).1 == reconnecting(e, connection).1,
{
    broadcast use group_goes_on_publish;
    broadcast use group_alike_publish;

    reveal(reconnecting);
}

pub(crate) broadcast proof fn goes_on_registry_saved(d: DaemonView)
    ensures
        goes_on(d, #[trigger] registry_saved(d)),
        mutes(d, registry_saved(d)),
        files(d, registry_saved(d)),
        tells(d, registry_saved(d)),
        yields(d, registry_saved(d)),
        saves(d, registry_saved(d)),
        launches(registry_saved(d).outside.trace) == launches(d.outside.trace),
{
    broadcast use group_goes_on_publish;

    reveal(registry_saved);
}

pub(crate) broadcast proof fn alike_registry_saved(d: DaemonView, e: DaemonView)
    requires
        !d.outside.waiting,
        alike(d, e),
    ensures
        alike(#[trigger] registry_saved(d), #[trigger] registry_saved(e)),
{
    broadcast use group_goes_on_publish;
    broadcast use group_alike_publish;

    reveal(registry_saved);
}

pub(crate) broadcast proof fn goes_on_chosen(d: DaemonView, serial: Seq<char>)
    ensures
        goes_on(d, #[trigger] chosen(d, serial)),
        mutes(d, chosen(d, serial)),
        files(d, chosen(d, serial)),
        tells(d, chosen(d, serial)),
        yields(d, chosen(d, serial)),
        launches(chosen(d, serial).outside.trace) == launches(d.outside.trace),
{
    broadcast use group_goes_on_publish;

    reveal(chosen);
}

pub(crate) broadcast proof fn alike_chosen(d: DaemonView, e: DaemonView, serial: Seq<char>)
    requires
        !d.outside.waiting,
        alike(d, e),
    ensures
        alike(#[trigger] chosen(d, serial), #[trigger] chosen(e, serial)),
{
    broadcast use group_goes_on_publish;
    broadcast use group_alike_publish;

    reveal(chosen);
}

pub(crate) broadcast proof fn goes_on_persisted(
    d: DaemonView,
    serial: Seq<char>,
    settings: CameraSettingsView,
)
    ensures
        goes_on(d, (#[trigger] persisted(d, serial, settings)).0),
        mutes(d, persisted(d, serial, settings).0),
        files(d, persisted(d, serial, settings).0),
        tells(d, persisted(d, serial, settings).0),
        yields(d, persisted(d, serial, settings).0),
        persisted(d, serial, settings).0.core.writer == d.core.writer,
        launches(persisted(d, serial, settings).0.outside.trace) == launches(d.outside.trace),
{
    broadcast use group_goes_on_publish;

    reveal(persisted);
    let before = d.core.registry;
    let key = crate::phones::key_for(before, serial);
    let held = d.hold_registry(
        RegistryView { settings: before.settings.insert(key, settings), ..before },
    );
    let (kept, r) = kept_on_disk(held);
    let e = persisted(d, serial, settings).0;
    assert(files(d, e)) by {
        reveal(goes_on);
        if r is Err && !kept.outside.waiting {
            reveal(kept_on_disk);
            reveal(files);
            let n = held.outside.trace.len() as int;
            assert forall|was: RegistryView| #[trigger] filed(was, d) implies filed(was, e) by {
                assert(kept.outside.trace[n] is Save);
                assert(kept.outside.trace.take(n) =~= held.outside.trace);
                assert(!all_written(kept.outside.trace, kept.outside.answers));
            }
        }
    }
}

pub(crate) broadcast proof fn alike_persisted(
    d: DaemonView,
    e: DaemonView,
    serial: Seq<char>,
    settings: CameraSettingsView,
)
    requires
        !d.outside.waiting,
        alike(d, e),
    ensures
        alike(
            (#[trigger] persisted(d, serial, settings)).0,
            (#[trigger] persisted(e, serial, settings)).0,
        ),
        !persisted(d, serial, settings).0.outside.waiting
            ==> persisted(d, serial, settings).1 == persisted(e, serial, settings).1,
{
    broadcast use group_goes_on_publish;
    broadcast use group_alike_publish;

    reveal(persisted);
}

pub(crate) broadcast proof fn goes_on_equipped(d: DaemonView, serial: Seq<char>)
    ensures
        goes_on(d, (#[trigger] equipped(d, serial)).0),
        mutes(d, equipped(d, serial).0),
        files(d, equipped(d, serial).0),
        tells(d, equipped(d, serial).0),
        yields(d, equipped(d, serial).0),
        equipped(d, serial).0.core.writer == d.core.writer,
        launches(equipped(d, serial).0.outside.trace) == launches(d.outside.trace),
{
    broadcast use group_goes_on_publish;

    reveal(equipped);
}

pub(crate) broadcast proof fn alike_equipped(d: DaemonView, e: DaemonView, serial: Seq<char>)
    requires
        !d.outside.waiting,
        alike(d, e),
    ensures
        alike((#[trigger] equipped(d, serial)).0, (#[trigger] equipped(e, serial)).0),
        !equipped(d, serial).0.outside.waiting ==> equipped(d, serial).1 == equipped(e, serial).1,
{
    broadcast use group_goes_on_publish;
    broadcast use group_alike_publish;

    reveal(equipped);
}

pub(crate) broadcast group group_goes_on_hold {
    group_steps_outside,
    goes_on_on,
    tells_on,
    tells_none,
    files_on,
    files_none,
    saves_files,
    saves_later,
    saves_on,
    yields_on,
    yields_none,
    mutes_on,
    mutes_none,
    goes_on_none,
    goes_on_waiting,
    goes_on_with,
    goes_on_hold,
    goes_on_published,
    goes_on_end_writer,
    goes_on_announced,
    goes_on_prepared,
    goes_on_kept_on_disk,
    goes_on_reconnecting,
    goes_on_registry_saved,
    goes_on_chosen,
    goes_on_persisted,
    goes_on_equipped,
}

pub(crate) broadcast group group_alike_hold {
    group_twin_outside,
    alike_on,
    alike_same,
    alike_with,
    alike_hold,
    alike_published,
    alike_end_writer,
    alike_announced,
    alike_prepared,
    alike_kept_on_disk,
    alike_reconnecting,
    alike_registry_saved,
    alike_chosen,
    alike_persisted,
    alike_equipped,
}

pub(crate) broadcast proof fn goes_on_adb_lost(d: DaemonView)
    ensures
        goes_on(d, #[trigger] adb_lost(d)),
        mutes(d, adb_lost(d)),
        files(d, adb_lost(d)),
        tells(d, adb_lost(d)),
        yields(d, adb_lost(d)),
        launches(adb_lost(d).outside.trace) == launches(d.outside.trace),
{
    broadcast use group_goes_on_hold;

    reveal(adb_lost);
}

pub(crate) broadcast proof fn alike_adb_lost(d: DaemonView, e: DaemonView)
    requires
        !d.outside.waiting,
        alike(d, e),
    ensures
        alike(#[trigger] adb_lost(d), #[trigger] adb_lost(e)),
{
    broadcast use group_goes_on_hold;
    broadcast use group_alike_hold;

    reveal(adb_lost);
}

pub(crate) broadcast proof fn goes_on_resumed(d: DaemonView, phone: PhoneView)
    ensures
        goes_on(d, #[trigger] resumed(d, phone)),
        mutes(d, resumed(d, phone)),
        files(d, resumed(d, phone)),
        tells(d, resumed(d, phone)),
        yields(d, resumed(d, phone)),
{
    broadcast use group_goes_on_hold;
    broadcast use group_turns;

    reveal(resumed);
    if let Some((public, settings)) = crate::daemon::resumable(d, phone) {
        let style = d.core.state.preview_style;
        let position = d.core.position;
        let e = if public.preview {
            d.with(stand_in_hidden(d.outside, style, position).0)
        } else {
            d
        };
        let (o, started) = replaced(e.outside, phone.serial, public, settings, style, position);
        let f = e.with(o);
        match started {
            Ok(pid) => lemma_yields(e, f.hold_writer(Some(pid)), true),
            Err(_) => lemma_yields(e, f, false),
        }
    }
}

pub(crate) broadcast proof fn alike_resumed(d: DaemonView, e: DaemonView, phone: PhoneView)
    requires
        !d.outside.waiting,
        alike(d, e),
    ensures
        alike(#[trigger] resumed(d, phone), #[trigger] resumed(e, phone)),
{
    broadcast use group_goes_on_hold;
    broadcast use group_alike_hold;

    reveal(resumed);
}

pub(crate) broadcast proof fn goes_on_recalled(
    d: DaemonView,
    address: Seq<char>,
    name: Seq<char>,
    stable: Option<Seq<char>>,
    previous: Option<Seq<char>>,
    select: bool,
)
    ensures
        goes_on(d, #[trigger] recalled(d, address, name, stable, previous, select)),
        mutes(d, recalled(d, address, name, stable, previous, select)),
        files(d, recalled(d, address, name, stable, previous, select)),
        tells(d, recalled(d, address, name, stable, previous, select)),
        yields(d, recalled(d, address, name, stable, previous, select)),
        launches(recalled(d, address, name, stable, previous, select).outside.trace) == launches(d.outside.trace),
{
    broadcast use group_goes_on_hold;

    reveal(recalled);
}

pub(crate) broadcast proof fn alike_recalled(
    d: DaemonView,
    e: DaemonView,
    address: Seq<char>,
    name: Seq<char>,
    stable: Option<Seq<char>>,
    previous: Option<Seq<char>>,
    select: bool,
)
    requires
        !d.outside.waiting,
        alike(d, e),
    ensures
        alike(
            #[trigger] recalled(d, address, name, stable, previous, select),
            #[trigger] recalled(e, address, name, stable, previous, select),
        ),
{
    broadcast use group_goes_on_hold;
    broadcast use group_alike_hold;

    reveal(recalled);
}

pub(crate) broadcast proof fn goes_on_noticed(d: DaemonView, attached: Seq<AttachedView>)
    ensures
        goes_on(d, #[trigger] noticed(d, attached)),
        mutes(d, noticed(d, attached)),
        files(d, noticed(d, attached)),
        tells(d, noticed(d, attached)),
        yields(d, noticed(d, attached)),
        launches(noticed(d, attached).outside.trace) == launches(d.outside.trace),
{
    broadcast use group_goes_on_hold;

    reveal(noticed);
}

pub(crate) broadcast proof fn alike_noticed(
    d: DaemonView,
    e: DaemonView,
    attached: Seq<AttachedView>,
)
    requires
        !d.outside.waiting,
        alike(d, e),
    ensures
        alike(#[trigger] noticed(d, attached), #[trigger] noticed(e, attached)),
{
    broadcast use group_goes_on_hold;
    broadcast use group_alike_hold;

    reveal(noticed);
}

pub(crate) broadcast proof fn goes_on_not_reached(
    d: DaemonView,
    phone: PhoneView,
    connect_address: Seq<char>,
    attached: Seq<protocol::AttachedView>,
)
    ensures
        goes_on(d, #[trigger] not_reached(d, phone, connect_address, attached)),
        mutes(d, not_reached(d, phone, connect_address, attached)),
        files(d, not_reached(d, phone, connect_address, attached)),
        tells(d, not_reached(d, phone, connect_address, attached)),
        yields(d, not_reached(d, phone, connect_address, attached)),
        launches(not_reached(d, phone, connect_address, attached).outside.trace) == launches(d.outside.trace),
{
    broadcast use group_goes_on_hold;

    reveal(not_reached);
}

pub(crate) broadcast proof fn alike_not_reached(
    d: DaemonView,
    e: DaemonView,
    phone: PhoneView,
    connect_address: Seq<char>,
    attached: Seq<protocol::AttachedView>,
)
    requires
        !d.outside.waiting,
        alike(d, e),
    ensures
        alike(
            #[trigger] not_reached(d, phone, connect_address, attached),
            #[trigger] not_reached(e, phone, connect_address, attached),
        ),
{
    broadcast use group_goes_on_hold;
    broadcast use group_alike_hold;

    reveal(not_reached);
}

pub(crate) broadcast group group_goes_on_registry {
    group_steps_outside,
    goes_on_on,
    tells_on,
    tells_none,
    files_on,
    files_none,
    saves_files,
    saves_later,
    saves_on,
    yields_on,
    yields_none,
    mutes_on,
    mutes_none,
    goes_on_none,
    goes_on_waiting,
    goes_on_with,
    goes_on_hold,
    goes_on_published,
    goes_on_end_writer,
    goes_on_announced,
    goes_on_prepared,
    goes_on_kept_on_disk,
    goes_on_reconnecting,
    goes_on_registry_saved,
    goes_on_chosen,
    goes_on_persisted,
    goes_on_equipped,
    goes_on_adb_lost,
    goes_on_resumed,
    goes_on_recalled,
    goes_on_noticed,
    goes_on_not_reached,
}

pub(crate) broadcast group group_alike_registry {
    group_twin_outside,
    alike_on,
    alike_same,
    alike_with,
    alike_hold,
    alike_published,
    alike_end_writer,
    alike_announced,
    alike_prepared,
    alike_kept_on_disk,
    alike_reconnecting,
    alike_registry_saved,
    alike_chosen,
    alike_persisted,
    alike_equipped,
    alike_adb_lost,
    alike_resumed,
    alike_recalled,
    alike_noticed,
    alike_not_reached,
}

pub(crate) broadcast proof fn goes_on_confirmed(
    d: DaemonView,
    phone: PhoneView,
    attached: Seq<protocol::AttachedView>,
)
    ensures
        goes_on(d, #[trigger] confirmed(d, phone, attached)),
        mutes(d, confirmed(d, phone, attached)),
        files(d, confirmed(d, phone, attached)),
        tells(d, confirmed(d, phone, attached)),
        yields(d, confirmed(d, phone, attached)),
{
    broadcast use group_goes_on_registry;

    reveal(confirmed);
}

pub(crate) broadcast proof fn alike_confirmed(
    d: DaemonView,
    e: DaemonView,
    phone: PhoneView,
    attached: Seq<protocol::AttachedView>,
)
    requires
        !d.outside.waiting,
        alike(d, e),
    ensures
        alike(#[trigger] confirmed(d, phone, attached), #[trigger] confirmed(e, phone, attached)),
{
    broadcast use group_goes_on_registry;
    broadcast use group_alike_registry;

    reveal(confirmed);
}

pub(crate) broadcast proof fn goes_on_vetted(
    d: DaemonView,
    connection: ConnectionView,
    attached: Seq<AttachedView>,
    verified: Option<Seq<char>>,
)
    ensures
        goes_on(d, (#[trigger] vetted(d, connection, attached, verified)).0),
        mutes(d, vetted(d, connection, attached, verified).0),
        files(d, vetted(d, connection, attached, verified).0),
        tells(d, vetted(d, connection, attached, verified).0),
        yields(d, vetted(d, connection, attached, verified).0),
        launches(vetted(d, connection, attached, verified).0.outside.trace) == launches(d.outside.trace),
{
    broadcast use group_goes_on_registry;

    reveal(vetted);
}

pub(crate) broadcast proof fn alike_vetted(
    d: DaemonView,
    e: DaemonView,
    connection: ConnectionView,
    attached: Seq<AttachedView>,
    verified: Option<Seq<char>>,
)
    requires
        !d.outside.waiting,
        alike(d, e),
    ensures
        alike(
            (#[trigger] vetted(d, connection, attached, verified)).0,
            (#[trigger] vetted(e, connection, attached, verified)).0,
        ),
        !vetted(d, connection, attached, verified).0.outside.waiting
            ==> vetted(d, connection, attached, verified).1 == vetted(e, connection, attached, verified).1,
{
    broadcast use group_goes_on_registry;
    broadcast use group_alike_registry;

    reveal(vetted);
}

pub(crate) broadcast group group_goes_on_confirm {
    group_steps_outside,
    goes_on_on,
    tells_on,
    tells_none,
    files_on,
    files_none,
    saves_files,
    saves_later,
    saves_on,
    yields_on,
    yields_none,
    mutes_on,
    mutes_none,
    goes_on_none,
    goes_on_waiting,
    goes_on_with,
    goes_on_hold,
    goes_on_published,
    goes_on_end_writer,
    goes_on_announced,
    goes_on_prepared,
    goes_on_kept_on_disk,
    goes_on_reconnecting,
    goes_on_registry_saved,
    goes_on_chosen,
    goes_on_persisted,
    goes_on_equipped,
    goes_on_adb_lost,
    goes_on_resumed,
    goes_on_recalled,
    goes_on_noticed,
    goes_on_not_reached,
    goes_on_confirmed,
    goes_on_vetted,
}

pub(crate) broadcast group group_alike_confirm {
    group_twin_outside,
    alike_on,
    alike_same,
    alike_with,
    alike_hold,
    alike_published,
    alike_end_writer,
    alike_announced,
    alike_prepared,
    alike_kept_on_disk,
    alike_reconnecting,
    alike_registry_saved,
    alike_chosen,
    alike_persisted,
    alike_equipped,
    alike_adb_lost,
    alike_resumed,
    alike_recalled,
    alike_noticed,
    alike_not_reached,
    alike_confirmed,
    alike_vetted,
}

pub(crate) broadcast proof fn goes_on_concluded(
    d: DaemonView,
    connection: ConnectionView,
    attached: Seq<protocol::AttachedView>,
)
    ensures
        goes_on(d, #[trigger] concluded(d, connection, attached)),
        mutes(d, concluded(d, connection, attached)),
        files(d, concluded(d, connection, attached)),
        tells(d, concluded(d, connection, attached)),
        yields(d, concluded(d, connection, attached)),
{
    broadcast use group_goes_on_confirm;

    reveal(concluded);
}

pub(crate) broadcast proof fn alike_concluded(
    d: DaemonView,
    e: DaemonView,
    connection: ConnectionView,
    attached: Seq<protocol::AttachedView>,
)
    requires
        !d.outside.waiting,
        alike(d, e),
    ensures
        alike(
            #[trigger] concluded(d, connection, attached),
            #[trigger] concluded(e, connection, attached),
        ),
{
    broadcast use group_goes_on_confirm;
    broadcast use group_alike_confirm;

    reveal(concluded);
}

pub(crate) broadcast group group_goes_on_conclude {
    group_steps_outside,
    goes_on_on,
    tells_on,
    tells_none,
    files_on,
    files_none,
    saves_files,
    saves_later,
    saves_on,
    yields_on,
    yields_none,
    mutes_on,
    mutes_none,
    goes_on_none,
    goes_on_waiting,
    goes_on_with,
    goes_on_hold,
    goes_on_published,
    goes_on_end_writer,
    goes_on_announced,
    goes_on_prepared,
    goes_on_kept_on_disk,
    goes_on_reconnecting,
    goes_on_registry_saved,
    goes_on_chosen,
    goes_on_persisted,
    goes_on_equipped,
    goes_on_adb_lost,
    goes_on_resumed,
    goes_on_recalled,
    goes_on_noticed,
    goes_on_not_reached,
    goes_on_confirmed,
    goes_on_vetted,
    goes_on_concluded,
}

pub(crate) broadcast group group_alike_conclude {
    group_twin_outside,
    alike_on,
    alike_same,
    alike_with,
    alike_hold,
    alike_published,
    alike_end_writer,
    alike_announced,
    alike_prepared,
    alike_kept_on_disk,
    alike_reconnecting,
    alike_registry_saved,
    alike_chosen,
    alike_persisted,
    alike_equipped,
    alike_adb_lost,
    alike_resumed,
    alike_recalled,
    alike_noticed,
    alike_not_reached,
    alike_confirmed,
    alike_vetted,
    alike_concluded,
}

pub(crate) broadcast proof fn goes_on_worked_out(
    d: DaemonView,
    attached: Seq<AttachedView>,
    verified: Option<Seq<char>>,
)
    ensures
        goes_on(d, #[trigger] worked_out(d, attached, verified)),
        mutes(d, worked_out(d, attached, verified)),
        files(d, worked_out(d, attached, verified)),
        tells(d, worked_out(d, attached, verified)),
        yields(d, worked_out(d, attached, verified)),
{
    broadcast use group_goes_on_conclude;

    reveal(worked_out);
}

pub(crate) broadcast proof fn alike_worked_out(
    d: DaemonView,
    e: DaemonView,
    attached: Seq<AttachedView>,
    verified: Option<Seq<char>>,
)
    requires
        !d.outside.waiting,
        alike(d, e),
    ensures
        alike(
            #[trigger] worked_out(d, attached, verified),
            #[trigger] worked_out(e, attached, verified),
        ),
{
    broadcast use group_goes_on_conclude;
    broadcast use group_alike_conclude;

    reveal(worked_out);
}

pub(crate) broadcast group group_goes_on_work {
    group_steps_outside,
    goes_on_on,
    tells_on,
    tells_none,
    files_on,
    files_none,
    saves_files,
    saves_later,
    saves_on,
    yields_on,
    yields_none,
    mutes_on,
    mutes_none,
    goes_on_none,
    goes_on_waiting,
    goes_on_with,
    goes_on_hold,
    goes_on_published,
    goes_on_end_writer,
    goes_on_announced,
    goes_on_prepared,
    goes_on_kept_on_disk,
    goes_on_reconnecting,
    goes_on_registry_saved,
    goes_on_chosen,
    goes_on_persisted,
    goes_on_equipped,
    goes_on_adb_lost,
    goes_on_resumed,
    goes_on_recalled,
    goes_on_noticed,
    goes_on_not_reached,
    goes_on_confirmed,
    goes_on_vetted,
    goes_on_concluded,
    goes_on_worked_out,
}

pub(crate) broadcast group group_alike_work {
    group_twin_outside,
    alike_on,
    alike_same,
    alike_with,
    alike_hold,
    alike_published,
    alike_end_writer,
    alike_announced,
    alike_prepared,
    alike_kept_on_disk,
    alike_reconnecting,
    alike_registry_saved,
    alike_chosen,
    alike_persisted,
    alike_equipped,
    alike_adb_lost,
    alike_resumed,
    alike_recalled,
    alike_noticed,
    alike_not_reached,
    alike_confirmed,
    alike_vetted,
    alike_concluded,
    alike_worked_out,
}

pub(crate) broadcast proof fn goes_on_rejoined(
    d: DaemonView,
    known: KnownPhoneView,
    attached: Seq<AttachedView>,
)
    ensures
        goes_on(d, (#[trigger] rejoined(d, known, attached)).0),
        mutes(d, rejoined(d, known, attached).0),
        files(d, rejoined(d, known, attached).0),
        tells(d, rejoined(d, known, attached).0),
        yields(d, rejoined(d, known, attached).0),
{
    broadcast use group_goes_on_work;

    reveal(rejoined);
}

pub(crate) broadcast proof fn alike_rejoined(
    d: DaemonView,
    e: DaemonView,
    known: KnownPhoneView,
    attached: Seq<AttachedView>,
)
    requires
        !d.outside.waiting,
        alike(d, e),
    ensures
        alike(
            (#[trigger] rejoined(d, known, attached)).0,
            (#[trigger] rejoined(e, known, attached)).0,
        ),
        !rejoined(d, known, attached).0.outside.waiting
            ==> rejoined(d, known, attached).1 == rejoined(e, known, attached).1,
{
    broadcast use group_goes_on_work;
    broadcast use group_alike_work;

    reveal(rejoined);
}

pub(crate) broadcast group group_goes_on_rejoin {
    group_steps_outside,
    goes_on_on,
    tells_on,
    tells_none,
    files_on,
    files_none,
    saves_files,
    saves_later,
    saves_on,
    yields_on,
    yields_none,
    mutes_on,
    mutes_none,
    goes_on_none,
    goes_on_waiting,
    goes_on_with,
    goes_on_hold,
    goes_on_published,
    goes_on_end_writer,
    goes_on_announced,
    goes_on_prepared,
    goes_on_kept_on_disk,
    goes_on_reconnecting,
    goes_on_registry_saved,
    goes_on_chosen,
    goes_on_persisted,
    goes_on_equipped,
    goes_on_adb_lost,
    goes_on_resumed,
    goes_on_recalled,
    goes_on_noticed,
    goes_on_not_reached,
    goes_on_confirmed,
    goes_on_vetted,
    goes_on_concluded,
    goes_on_worked_out,
    goes_on_rejoined,
}

pub(crate) broadcast group group_alike_rejoin {
    group_twin_outside,
    alike_on,
    alike_same,
    alike_with,
    alike_hold,
    alike_published,
    alike_end_writer,
    alike_announced,
    alike_prepared,
    alike_kept_on_disk,
    alike_reconnecting,
    alike_registry_saved,
    alike_chosen,
    alike_persisted,
    alike_equipped,
    alike_adb_lost,
    alike_resumed,
    alike_recalled,
    alike_noticed,
    alike_not_reached,
    alike_confirmed,
    alike_vetted,
    alike_concluded,
    alike_worked_out,
    alike_rejoined,
}

pub(crate) broadcast proof fn goes_on_refreshed(d: DaemonView)
    ensures
        goes_on(d, (#[trigger] refreshed(d)).0),
        mutes(d, refreshed(d).0),
        files(d, refreshed(d).0),
        tells(d, refreshed(d).0),
        yields(d, refreshed(d).0),
{
    broadcast use group_goes_on_rejoin;

    reveal(refreshed);
}

pub(crate) broadcast proof fn alike_refreshed(d: DaemonView, e: DaemonView)
    requires
        !d.outside.waiting,
        alike(d, e),
    ensures
        alike((#[trigger] refreshed(d)).0, (#[trigger] refreshed(e)).0),
        !refreshed(d).0.outside.waiting ==> refreshed(d).1 == refreshed(e).1,
{
    broadcast use group_goes_on_rejoin;
    broadcast use group_alike_rejoin;

    reveal(refreshed);
}

pub(crate) broadcast group group_goes_on_refresh {
    group_steps_outside,
    goes_on_on,
    tells_on,
    tells_none,
    files_on,
    files_none,
    saves_files,
    saves_later,
    saves_on,
    yields_on,
    yields_none,
    mutes_on,
    mutes_none,
    goes_on_none,
    goes_on_waiting,
    goes_on_with,
    goes_on_hold,
    goes_on_published,
    goes_on_end_writer,
    goes_on_announced,
    goes_on_prepared,
    goes_on_kept_on_disk,
    goes_on_reconnecting,
    goes_on_registry_saved,
    goes_on_chosen,
    goes_on_persisted,
    goes_on_equipped,
    goes_on_adb_lost,
    goes_on_resumed,
    goes_on_recalled,
    goes_on_noticed,
    goes_on_not_reached,
    goes_on_confirmed,
    goes_on_vetted,
    goes_on_concluded,
    goes_on_worked_out,
    goes_on_rejoined,
    goes_on_refreshed,
}

pub(crate) broadcast group group_alike_refresh {
    group_twin_outside,
    alike_on,
    alike_same,
    alike_with,
    alike_hold,
    alike_published,
    alike_end_writer,
    alike_announced,
    alike_prepared,
    alike_kept_on_disk,
    alike_reconnecting,
    alike_registry_saved,
    alike_chosen,
    alike_persisted,
    alike_equipped,
    alike_adb_lost,
    alike_resumed,
    alike_recalled,
    alike_noticed,
    alike_not_reached,
    alike_confirmed,
    alike_vetted,
    alike_concluded,
    alike_worked_out,
    alike_rejoined,
    alike_refreshed,
}

pub(crate) broadcast group group_goes_on_daemon {
    group_steps_outside,
    goes_on_on,
    tells_on,
    tells_none,
    files_on,
    files_none,
    saves_files,
    saves_later,
    saves_on,
    yields_on,
    yields_none,
    mutes_on,
    mutes_none,
    goes_on_none,
    goes_on_waiting,
    goes_on_with,
    goes_on_hold,
    goes_on_published,
    goes_on_end_writer,
    goes_on_announced,
    goes_on_prepared,
    goes_on_reconnecting,
    goes_on_registry_saved,
    goes_on_chosen,
    goes_on_persisted,
    goes_on_equipped,
    goes_on_adb_lost,
    goes_on_recalled,
    goes_on_not_reached,
    goes_on_refreshed,
}

pub(crate) broadcast group group_alike_daemon {
    group_twin_outside,
    alike_on,
    alike_same,
    alike_with,
    alike_hold,
    alike_published,
    alike_end_writer,
    alike_announced,
    alike_prepared,
    alike_reconnecting,
    alike_registry_saved,
    alike_chosen,
    alike_persisted,
    alike_equipped,
    alike_adb_lost,
    alike_recalled,
    alike_not_reached,
    alike_refreshed,
}

pub(crate) broadcast proof fn goes_on_stopped(d: DaemonView)
    ensures
        goes_on(d, #[trigger] stopped(d)),
        mutes(d, stopped(d)),
        files(d, stopped(d)),
        tells(d, stopped(d)),
        yields(d, stopped(d)),
        launches(stopped(d).outside.trace) == launches(d.outside.trace),
{
    broadcast use group_goes_on_daemon;

    reveal(stopped);
}

pub(crate) broadcast proof fn alike_stopped(d: DaemonView, e: DaemonView)
    requires
        !d.outside.waiting,
        alike(d, e),
    ensures
        alike(#[trigger] stopped(d), #[trigger] stopped(e)),
{
    broadcast use group_goes_on_daemon;
    broadcast use group_alike_daemon;

    reveal(stopped);
}

pub(crate) broadcast proof fn goes_on_reaped(d: DaemonView)
    ensures
        goes_on(d, #[trigger] reaped(d)),
        mutes(d, reaped(d)),
        files(d, reaped(d)),
        tells(d, reaped(d)),
        yields(d, reaped(d)),
        launches(reaped(d).outside.trace) == launches(d.outside.trace),
{
    broadcast use group_goes_on_daemon;
    broadcast use group_turns;

    reveal(reaped);
    if d.core.writer is Some {
        let (o, writer) = polled(d.outside);
        lemma_turns_polled(d.outside, true);
        let e = d.with(o);
        if writer is Running {
            lemma_yields(d, e, true);
        } else {
            lemma_yields(d, prepared(e).hold_writer(None), false);
        }
    }
}

pub(crate) broadcast proof fn alike_reaped(d: DaemonView, e: DaemonView)
    requires
        !d.outside.waiting,
        alike(d, e),
    ensures
        alike(#[trigger] reaped(d), #[trigger] reaped(e)),
{
    broadcast use group_goes_on_daemon;
    broadcast use group_alike_daemon;

    reveal(reaped);
}

pub(crate) broadcast proof fn goes_on_launched(
    d: DaemonView,
    phone: PhoneView,
    style: PreviewStyle,
    settings: CameraSettingsView,
    node: Seq<char>,
)
    ensures
        goes_on(d, (#[trigger] launched(d, phone, style, settings, node)).0),
        mutes(d, launched(d, phone, style, settings, node).0),
        files(d, launched(d, phone, style, settings, node).0),
        tells(d, launched(d, phone, style, settings, node).0),
        d.core.writer is None ==> yields(d, launched(d, phone, style, settings, node).0),
{
    broadcast use group_goes_on_daemon;
    broadcast use group_turns;

    reveal(launched);
    let (o, r) = commanded(
        d.outside,
        "eval"@,
        crate::capture::preview_rule(style.rounding, style.border_size, None),
    );
    if r is Ok && d.core.writer is None {
        let (o, r) = commanded(
            o,
            "eval"@,
            crate::capture::reconnect_rule(style.rounding, style.border_size, None),
        );
        if r is Ok {
            let (o, writer) = spawned(o, phone.serial, node, settings);
            match writer {
                Err(_) => lemma_yields(d, d.with(o), false),
                Ok(pid) => {
                    let (o, _) = located(o);
                    lemma_yields(d, d.with(o).hold_writer(Some(pid)), true);
                },
            }
        }
    }
}

pub(crate) broadcast proof fn alike_launched(
    d: DaemonView,
    e: DaemonView,
    phone: PhoneView,
    style: PreviewStyle,
    settings: CameraSettingsView,
    node: Seq<char>,
)
    requires
        !d.outside.waiting,
        alike(d, e),
    ensures
        alike(
            (#[trigger] launched(d, phone, style, settings, node)).0,
            (#[trigger] launched(e, phone, style, settings, node)).0,
        ),
        !launched(d, phone, style, settings, node).0.outside.waiting
            ==> launched(d, phone, style, settings, node).1 == launched(e, phone, style, settings, node).1,
{
    broadcast use group_goes_on_daemon;
    broadcast use group_alike_daemon;

    reveal(launched);
}

pub(crate) broadcast proof fn goes_on_themed(d: DaemonView, style: PreviewStyle)
    ensures
        goes_on(d, (#[trigger] themed(d, style)).0),
        mutes(d, themed(d, style).0),
        files(d, themed(d, style).0),
        tells(d, themed(d, style).0),
        yields(d, themed(d, style).0),
        launches(themed(d, style).0.outside.trace) == launches(d.outside.trace),
{
    broadcast use group_goes_on_daemon;

    reveal(themed);
}

pub(crate) broadcast proof fn alike_themed(d: DaemonView, e: DaemonView, style: PreviewStyle)
    requires
        !d.outside.waiting,
        alike(d, e),
    ensures
        alike((#[trigger] themed(d, style)).0, (#[trigger] themed(e, style)).0),
        !themed(d, style).0.outside.waiting ==> themed(d, style).1 == themed(e, style).1,
{
    broadcast use group_goes_on_daemon;
    broadcast use group_alike_daemon;

    reveal(themed);
}

pub(crate) broadcast proof fn goes_on_turned(d: DaemonView, visible: bool)
    ensures
        goes_on(d, (#[trigger] turned(d, visible)).0),
        mutes(d, turned(d, visible).0),
        files(d, turned(d, visible).0),
        tells(d, turned(d, visible).0),
        yields(d, turned(d, visible).0),
        launches(turned(d, visible).0.outside.trace) == launches(d.outside.trace),
{
    broadcast use group_goes_on_daemon;

    reveal(turned);
}

pub(crate) broadcast proof fn alike_turned(d: DaemonView, e: DaemonView, visible: bool)
    requires
        !d.outside.waiting,
        alike(d, e),
    ensures
        alike((#[trigger] turned(d, visible)).0, (#[trigger] turned(e, visible)).0),
        !turned(d, visible).0.outside.waiting ==> turned(d, visible).1 == turned(e, visible).1,
{
    broadcast use group_goes_on_daemon;
    broadcast use group_alike_daemon;

    reveal(turned);
}

pub(crate) broadcast proof fn goes_on_attached_anew(d: DaemonView, address: Seq<char>)
    ensures
        goes_on(d, (#[trigger] attached_anew(d, address)).0),
        mutes(d, attached_anew(d, address).0),
        files(d, attached_anew(d, address).0),
        tells(d, attached_anew(d, address).0),
        yields(d, attached_anew(d, address).0),
{
    broadcast use group_goes_on_daemon;

    reveal(attached_anew);
}

pub(crate) broadcast proof fn alike_attached_anew(d: DaemonView, e: DaemonView, address: Seq<char>)
    requires
        !d.outside.waiting,
        alike(d, e),
    ensures
        alike((#[trigger] attached_anew(d, address)).0, (#[trigger] attached_anew(e, address)).0),
        !attached_anew(d, address).0.outside.waiting
            ==> attached_anew(d, address).1 == attached_anew(e, address).1,
{
    broadcast use group_goes_on_daemon;
    broadcast use group_alike_daemon;

    reveal(attached_anew);
}

pub(crate) broadcast proof fn goes_on_followed(
    d: DaemonView,
    serial: Seq<char>,
    address: Seq<char>,
    name: Seq<char>,
    stable: Seq<char>,
    attached: Seq<protocol::AttachedView>,
)
    ensures
        goes_on(d, (#[trigger] followed(d, serial, address, name, stable, attached)).0),
        mutes(d, followed(d, serial, address, name, stable, attached).0),
        files(d, followed(d, serial, address, name, stable, attached).0),
        yields(d, followed(d, serial, address, name, stable, attached).0),
        d.core.state.capture is None ==> tells(
            d,
            followed(d, serial, address, name, stable, attached).0,
        ),
        caught_up(d.outside.trace, followed(d, serial, address, name, stable, attached).0),
{
    broadcast use group_goes_on_daemon;

    reveal(followed);
    let e = followed(d, serial, address, name, stable, attached).0;
    let registry = d.core.registry;
    let captured = d.core.state.capture matches Some(capture) && same_device(
        registry,
        serial,
        stable,
        capture.phone.serial,
    );
    if captured {
        let ended = d.end_writer();
        let held = ended.hold_state(following(ended.core.state, address, name));
        lemma_tells_caught_up(held, e);
        assert(steps(d.outside, held.outside));
        lemma_caught_up_on(d.outside, held.outside, e);
    } else {
        lemma_tells_caught_up(d, e);
    }
}

pub(crate) broadcast proof fn alike_followed(
    d: DaemonView,
    e: DaemonView,
    serial: Seq<char>,
    address: Seq<char>,
    name: Seq<char>,
    stable: Seq<char>,
    attached: Seq<protocol::AttachedView>,
)
    requires
        !d.outside.waiting,
        alike(d, e),
    ensures
        alike(
            (#[trigger] followed(d, serial, address, name, stable, attached)).0,
            (#[trigger] followed(e, serial, address, name, stable, attached)).0,
        ),
        !followed(d, serial, address, name, stable, attached).0.outside.waiting
            ==> followed(d, serial, address, name, stable, attached).1 == followed(e, serial, address, name, stable, attached).1,
{
    broadcast use group_goes_on_daemon;
    broadcast use group_alike_daemon;

    reveal(followed);
}

pub(crate) broadcast proof fn goes_on_emptied(d: DaemonView)
    ensures
        goes_on(d, #[trigger] emptied(d)),
        mutes(d, emptied(d)),
        files(d, emptied(d)),
        tells(d, emptied(d)),
        yields(d, emptied(d)),
{
    broadcast use group_goes_on_daemon;

    reveal(emptied);
}

pub(crate) broadcast proof fn alike_emptied(d: DaemonView, e: DaemonView)
    requires
        !d.outside.waiting,
        alike(d, e),
    ensures
        alike(#[trigger] emptied(d), #[trigger] emptied(e)),
{
    broadcast use group_goes_on_daemon;
    broadcast use group_alike_daemon;

    reveal(emptied);
}

pub(crate) broadcast proof fn goes_on_adb_refreshed(d: DaemonView)
    ensures
        goes_on(d, (#[trigger] adb_refreshed(d)).0),
        mutes(d, adb_refreshed(d).0),
        files(d, adb_refreshed(d).0),
        tells(d, adb_refreshed(d).0),
        yields(d, adb_refreshed(d).0),
{
    broadcast use group_goes_on_daemon;

    lemma_words();

    reveal(adb_refreshed);
}

pub(crate) broadcast proof fn alike_adb_refreshed(d: DaemonView, e: DaemonView)
    requires
        !d.outside.waiting,
        alike(d, e),
    ensures
        alike((#[trigger] adb_refreshed(d)).0, (#[trigger] adb_refreshed(e)).0),
        !adb_refreshed(d).0.outside.waiting ==> adb_refreshed(d).1 == adb_refreshed(e).1,
{
    broadcast use group_goes_on_daemon;
    broadcast use group_alike_daemon;

    reveal(adb_refreshed);
}

pub(crate) broadcast proof fn goes_on_abandoned(d: DaemonView)
    ensures
        goes_on(d, (#[trigger] abandoned(d)).0),
        mutes(d, abandoned(d).0),
        files(d, abandoned(d).0),
        tells(d, abandoned(d).0),
        yields(d, abandoned(d).0),
        launches(abandoned(d).0.outside.trace) == launches(d.outside.trace),
{
    broadcast use group_goes_on_daemon;

    reveal(abandoned);
}

pub(crate) broadcast proof fn alike_abandoned(d: DaemonView, e: DaemonView)
    requires
        !d.outside.waiting,
        alike(d, e),
    ensures
        alike((#[trigger] abandoned(d)).0, (#[trigger] abandoned(e)).0),
        !abandoned(d).0.outside.waiting ==> abandoned(d).1 == abandoned(e).1,
{
    broadcast use group_goes_on_daemon;
    broadcast use group_alike_daemon;

    reveal(abandoned);
}

pub(crate) broadcast proof fn goes_on_rolled_back(
    d: DaemonView,
    phone: PhoneView,
    view: SettingsStateView,
    capture: CaptureView,
    position: Option<[i64; 2]>,
    error: Seq<char>,
)
    ensures
        goes_on(d, (#[trigger] rolled_back(d, phone, view, capture, position, error)).0),
        mutes(d, rolled_back(d, phone, view, capture, position, error).0),
        files(d, rolled_back(d, phone, view, capture, position, error).0),
        tells(d, rolled_back(d, phone, view, capture, position, error).0),
        d.outside.waiting || d.core.writer is None ==> yields(
            d,
            rolled_back(d, phone, view, capture, position, error).0,
        ),
{
    broadcast use group_goes_on_daemon;
    broadcast use group_turns;

    reveal(rolled_back);
    let (o, _) = described(d.outside, view.pending);
    let (e, _) = persisted(d.with(o), phone.serial, view.applied);
    let (o, restarted) = replaced(
        e.outside,
        phone.serial,
        capture,
        view.applied,
        e.core.state.preview_style,
        position,
    );
    if !d.outside.waiting && d.core.writer is None {
        match restarted {
            Ok(pid) => lemma_yields(e, e.with(o).hold_writer(Some(pid)), true),
            Err(_) => lemma_yields(e, e.with(o), false),
        }
    }
}

pub(crate) broadcast proof fn alike_rolled_back(
    d: DaemonView,
    e: DaemonView,
    phone: PhoneView,
    view: SettingsStateView,
    capture: CaptureView,
    position: Option<[i64; 2]>,
    error: Seq<char>,
)
    requires
        !d.outside.waiting,
        alike(d, e),
    ensures
        alike(
            (#[trigger] rolled_back(d, phone, view, capture, position, error)).0,
            (#[trigger] rolled_back(e, phone, view, capture, position, error)).0,
        ),
        !rolled_back(d, phone, view, capture, position, error).0.outside.waiting
            ==> rolled_back(d, phone, view, capture, position, error).1 == rolled_back(e, phone, view, capture, position, error).1,
{
    broadcast use group_goes_on_daemon;
    broadcast use group_alike_daemon;

    reveal(rolled_back);
}

pub(crate) broadcast proof fn goes_on_cleared(
    d: DaemonView,
    view: SettingsStateView,
    node: Seq<char>,
    writer: u32,
)
    ensures
        goes_on(d, (#[trigger] cleared(d, view, node, writer)).0),
        mutes(d, cleared(d, view, node, writer).0),
        files(d, cleared(d, view, node, writer).0),
        tells(d, cleared(d, view, node, writer).0),
        yields(d, cleared(d, view, node, writer).0),
        launches(cleared(d, view, node, writer).0.outside.trace) == launches(d.outside.trace),
{
    broadcast use group_goes_on_daemon;

    reveal(cleared);
}

pub(crate) broadcast proof fn alike_cleared(
    d: DaemonView,
    e: DaemonView,
    view: SettingsStateView,
    node: Seq<char>,
    writer: u32,
)
    requires
        !d.outside.waiting,
        alike(d, e),
    ensures
        alike(
            (#[trigger] cleared(d, view, node, writer)).0,
            (#[trigger] cleared(e, view, node, writer)).0,
        ),
        !cleared(d, view, node, writer).0.outside.waiting
            ==> cleared(d, view, node, writer).1 == cleared(e, view, node, writer).1,
{
    broadcast use group_goes_on_daemon;
    broadcast use group_alike_daemon;

    reveal(cleared);
}

pub(crate) broadcast proof fn goes_on_placed(d: DaemonView, capture: CaptureView)
    ensures
        goes_on(d, (#[trigger] placed(d, capture)).0),
        mutes(d, placed(d, capture).0),
        files(d, placed(d, capture).0),
        tells(d, placed(d, capture).0),
        yields(d, placed(d, capture).0),
        launches(placed(d, capture).0.outside.trace) == launches(d.outside.trace),
{
    broadcast use group_goes_on_daemon;

    reveal(placed);
}

pub(crate) broadcast proof fn alike_placed(d: DaemonView, e: DaemonView, capture: CaptureView)
    requires
        !d.outside.waiting,
        alike(d, e),
    ensures
        alike((#[trigger] placed(d, capture)).0, (#[trigger] placed(e, capture)).0),
        !placed(d, capture).0.outside.waiting ==> placed(d, capture).1 == placed(e, capture).1,
{
    broadcast use group_goes_on_daemon;
    broadcast use group_alike_daemon;

    reveal(placed);
}

pub(crate) broadcast proof fn goes_on_applied_idle(
    d: DaemonView,
    phone: PhoneView,
    view: SettingsStateView,
)
    ensures
        goes_on(d, (#[trigger] applied_idle(d, phone, view)).0),
        mutes(d, applied_idle(d, phone, view).0),
        files(d, applied_idle(d, phone, view).0),
        tells(d, applied_idle(d, phone, view).0),
        yields(d, applied_idle(d, phone, view).0),
        launches(applied_idle(d, phone, view).0.outside.trace) == launches(d.outside.trace),
{
    broadcast use group_goes_on_daemon;

    reveal(applied_idle);
}

pub(crate) broadcast proof fn alike_applied_idle(
    d: DaemonView,
    e: DaemonView,
    phone: PhoneView,
    view: SettingsStateView,
)
    requires
        !d.outside.waiting,
        alike(d, e),
    ensures
        alike(
            (#[trigger] applied_idle(d, phone, view)).0,
            (#[trigger] applied_idle(e, phone, view)).0,
        ),
        !applied_idle(d, phone, view).0.outside.waiting
            ==> applied_idle(d, phone, view).1 == applied_idle(e, phone, view).1,
{
    broadcast use group_goes_on_daemon;
    broadcast use group_alike_daemon;

    reveal(applied_idle);
}

pub(crate) broadcast group group_goes_on_parts {
    group_steps_outside,
    goes_on_on,
    tells_on,
    tells_none,
    files_on,
    files_none,
    saves_files,
    saves_later,
    saves_on,
    yields_on,
    yields_none,
    mutes_on,
    mutes_none,
    goes_on_none,
    goes_on_waiting,
    goes_on_with,
    goes_on_hold,
    goes_on_published,
    goes_on_end_writer,
    goes_on_announced,
    goes_on_prepared,
    goes_on_reconnecting,
    goes_on_registry_saved,
    goes_on_chosen,
    goes_on_persisted,
    goes_on_equipped,
    goes_on_adb_lost,
    goes_on_recalled,
    goes_on_not_reached,
    goes_on_refreshed,
    goes_on_stopped,
    goes_on_reaped,
    goes_on_launched,
    goes_on_themed,
    goes_on_turned,
    goes_on_attached_anew,
    goes_on_followed,
    goes_on_emptied,
    goes_on_adb_refreshed,
    goes_on_abandoned,
    goes_on_rolled_back,
    goes_on_cleared,
    goes_on_placed,
    goes_on_applied_idle,
}

pub(crate) broadcast group group_alike_parts {
    group_twin_outside,
    alike_on,
    alike_same,
    alike_with,
    alike_hold,
    alike_published,
    alike_end_writer,
    alike_announced,
    alike_prepared,
    alike_reconnecting,
    alike_registry_saved,
    alike_chosen,
    alike_persisted,
    alike_equipped,
    alike_adb_lost,
    alike_recalled,
    alike_not_reached,
    alike_refreshed,
    alike_stopped,
    alike_reaped,
    alike_launched,
    alike_themed,
    alike_turned,
    alike_attached_anew,
    alike_followed,
    alike_emptied,
    alike_adb_refreshed,
    alike_abandoned,
    alike_rolled_back,
    alike_cleared,
    alike_placed,
    alike_applied_idle,
}

pub(crate) broadcast proof fn goes_on_begun(d: DaemonView, phone: PhoneView, style: PreviewStyle)
    ensures
        goes_on(d, (#[trigger] begun(d, phone, style)).0),
        mutes(d, begun(d, phone, style).0),
        files(d, begun(d, phone, style).0),
        tells(d, begun(d, phone, style).0),
        d.core.writer is None ==> yields(d, begun(d, phone, style).0),
{
    broadcast use group_goes_on_parts;

    reveal(begun);
}

pub(crate) broadcast proof fn alike_begun(
    d: DaemonView,
    e: DaemonView,
    phone: PhoneView,
    style: PreviewStyle,
)
    requires
        !d.outside.waiting,
        alike(d, e),
    ensures
        alike((#[trigger] begun(d, phone, style)).0, (#[trigger] begun(e, phone, style)).0),
        !begun(d, phone, style).0.outside.waiting
            ==> begun(d, phone, style).1 == begun(e, phone, style).1,
{
    broadcast use group_goes_on_parts;
    broadcast use group_alike_parts;

    reveal(begun);
}

pub(crate) broadcast proof fn goes_on_previewed(d: DaemonView, visible: bool, style: PreviewStyle)
    ensures
        goes_on(d, (#[trigger] previewed(d, visible, style)).0),
        mutes(d, previewed(d, visible, style).0),
        files(d, previewed(d, visible, style).0),
        tells(d, previewed(d, visible, style).0),
        yields(d, previewed(d, visible, style).0),
{
    broadcast use group_goes_on_parts;

    reveal(previewed);
}

pub(crate) broadcast proof fn alike_previewed(
    d: DaemonView,
    e: DaemonView,
    visible: bool,
    style: PreviewStyle,
)
    requires
        !d.outside.waiting,
        alike(d, e),
    ensures
        alike(
            (#[trigger] previewed(d, visible, style)).0,
            (#[trigger] previewed(e, visible, style)).0,
        ),
        !previewed(d, visible, style).0.outside.waiting
            ==> previewed(d, visible, style).1 == previewed(e, visible, style).1,
{
    broadcast use group_goes_on_parts;
    broadcast use group_alike_parts;

    reveal(previewed);
}

pub(crate) broadcast proof fn goes_on_coupled(
    d: DaemonView,
    pair_address: Seq<char>,
    code: Seq<char>,
    address: Seq<char>,
)
    ensures
        goes_on(d, (#[trigger] coupled(d, pair_address, code, address)).0),
        tells(d, coupled(d, pair_address, code, address).0),
        files(d, coupled(d, pair_address, code, address).0),
        yields(d, coupled(d, pair_address, code, address).0),
{
    broadcast use group_goes_on_parts;

    reveal(coupled);
}

pub(crate) broadcast proof fn alike_coupled(
    d: DaemonView,
    e: DaemonView,
    pair_address: Seq<char>,
    code: Seq<char>,
    address: Seq<char>,
)
    requires
        !d.outside.waiting,
        alike(d, e),
    ensures
        alike(
            (#[trigger] coupled(d, pair_address, code, address)).0,
            (#[trigger] coupled(e, pair_address, code, address)).0,
        ),
        !coupled(d, pair_address, code, address).0.outside.waiting
            ==> coupled(d, pair_address, code, address).1 == coupled(e, pair_address, code, address).1,
{
    broadcast use group_goes_on_parts;
    broadcast use group_alike_parts;

    reveal(coupled);
}

pub(crate) broadcast proof fn goes_on_examined(
    d: DaemonView,
    known: KnownPhoneView,
    serial: Seq<char>,
    address: Seq<char>,
)
    ensures
        goes_on(d, (#[trigger] examined(d, known, serial, address)).0),
        mutes(d, examined(d, known, serial, address).0),
        files(d, examined(d, known, serial, address).0),
        yields(d, examined(d, known, serial, address).0),
        d.core.state.capture is None ==> tells(d, examined(d, known, serial, address).0),
        caught_up(d.outside.trace, examined(d, known, serial, address).0),
{
    broadcast use group_goes_on_parts;

    reveal(examined);
    let e = examined(d, known, serial, address).0;
    let (o, scan) = scanned(d.outside);
    let (p, stable) = identified(o, address);
    assert(steps(d.outside, o) && steps(o, p));
    match scan {
        Ok(attached) if found(attached, usable_as(address)) is Some && stable is Some && !(
        known.hardware_id is Some && known.hardware_id != stable) => {
            lemma_caught_up_on(o, p, e);
            lemma_caught_up_on(d.outside, o, e);
        },
        _ => lemma_tells_caught_up(d, e),
    }
}

pub(crate) broadcast proof fn alike_examined(
    d: DaemonView,
    e: DaemonView,
    known: KnownPhoneView,
    serial: Seq<char>,
    address: Seq<char>,
)
    requires
        !d.outside.waiting,
        alike(d, e),
    ensures
        alike(
            (#[trigger] examined(d, known, serial, address)).0,
            (#[trigger] examined(e, known, serial, address)).0,
        ),
        !examined(d, known, serial, address).0.outside.waiting
            ==> examined(d, known, serial, address).1 == examined(e, known, serial, address).1,
{
    broadcast use group_goes_on_parts;
    broadcast use group_alike_parts;

    reveal(examined);
}

pub(crate) broadcast proof fn goes_on_dismissed(d: DaemonView, serial: Seq<char>)
    ensures
        goes_on(d, (#[trigger] dismissed(d, serial)).0),
        mutes(d, dismissed(d, serial).0),
        files(d, dismissed(d, serial).0),
        tells(d, dismissed(d, serial).0),
        yields(d, dismissed(d, serial).0),
{
    broadcast use group_goes_on_parts;

    reveal(dismissed);
}

pub(crate) broadcast proof fn alike_dismissed(d: DaemonView, e: DaemonView, serial: Seq<char>)
    requires
        !d.outside.waiting,
        alike(d, e),
    ensures
        alike((#[trigger] dismissed(d, serial)).0, (#[trigger] dismissed(e, serial)).0),
        !dismissed(d, serial).0.outside.waiting
            ==> dismissed(d, serial).1 == dismissed(e, serial).1,
{
    broadcast use group_goes_on_parts;
    broadcast use group_alike_parts;

    reveal(dismissed);
}

pub(crate) broadcast proof fn goes_on_selected(d: DaemonView, serial: Seq<char>)
    ensures
        goes_on(d, (#[trigger] selected(d, serial)).0),
        mutes(d, selected(d, serial).0),
        files(d, selected(d, serial).0),
        tells(d, selected(d, serial).0),
        yields(d, selected(d, serial).0),
{
    broadcast use group_goes_on_parts;

    reveal(selected);
}

pub(crate) broadcast proof fn alike_selected(d: DaemonView, e: DaemonView, serial: Seq<char>)
    requires
        !d.outside.waiting,
        alike(d, e),
    ensures
        alike((#[trigger] selected(d, serial)).0, (#[trigger] selected(e, serial)).0),
        !selected(d, serial).0.outside.waiting ==> selected(d, serial).1 == selected(e, serial).1,
{
    broadcast use group_goes_on_parts;
    broadcast use group_alike_parts;

    reveal(selected);
}

pub(crate) broadcast proof fn goes_on_adjusted(d: DaemonView, name: Seq<char>, json: Seq<char>)
    ensures
        goes_on(d, (#[trigger] adjusted(d, name, json)).0),
        mutes(d, adjusted(d, name, json).0),
        files(d, adjusted(d, name, json).0),
        tells(d, adjusted(d, name, json).0),
        yields(d, adjusted(d, name, json).0),
{
    broadcast use group_goes_on_parts;

    reveal(adjusted);
}

pub(crate) broadcast proof fn alike_adjusted(
    d: DaemonView,
    e: DaemonView,
    name: Seq<char>,
    json: Seq<char>,
)
    requires
        !d.outside.waiting,
        alike(d, e),
    ensures
        alike((#[trigger] adjusted(d, name, json)).0, (#[trigger] adjusted(e, name, json)).0),
        !adjusted(d, name, json).0.outside.waiting
            ==> adjusted(d, name, json).1 == adjusted(e, name, json).1,
{
    broadcast use group_goes_on_parts;
    broadcast use group_alike_parts;

    reveal(adjusted);
}

pub(crate) broadcast proof fn goes_on_relaunched(
    d: DaemonView,
    phone: PhoneView,
    view: SettingsStateView,
    capture: CaptureView,
    position: Option<[i64; 2]>,
)
    ensures
        goes_on(d, (#[trigger] relaunched(d, phone, view, capture, position)).0),
        mutes(d, relaunched(d, phone, view, capture, position).0),
        files(d, relaunched(d, phone, view, capture, position).0),
        tells(d, relaunched(d, phone, view, capture, position).0),
        yields(d, relaunched(d, phone, view, capture, position).0),
{
    broadcast use group_goes_on_parts;
    broadcast use group_turns;

    reveal(relaunched);
    let e = d.end_writer();
    let (o, started) = replaced(
        e.outside,
        phone.serial,
        capture,
        view.pending,
        e.core.state.preview_style,
        position,
    );
    let f = e.with(o);
    if !d.outside.waiting {
        match started {
            Ok(pid) => lemma_yields(e, f.hold_writer(Some(pid)), true),
            Err(_) => lemma_yields(e, f, false),
        }
    }
}

pub(crate) broadcast proof fn alike_relaunched(
    d: DaemonView,
    e: DaemonView,
    phone: PhoneView,
    view: SettingsStateView,
    capture: CaptureView,
    position: Option<[i64; 2]>,
)
    requires
        !d.outside.waiting,
        alike(d, e),
    ensures
        alike(
            (#[trigger] relaunched(d, phone, view, capture, position)).0,
            (#[trigger] relaunched(e, phone, view, capture, position)).0,
        ),
        !relaunched(d, phone, view, capture, position).0.outside.waiting
            ==> relaunched(d, phone, view, capture, position).1 == relaunched(e, phone, view, capture, position).1,
{
    broadcast use group_goes_on_parts;
    broadcast use group_alike_parts;

    reveal(relaunched);
}

pub(crate) broadcast group group_goes_on_more {
    group_steps_outside,
    goes_on_on,
    tells_on,
    tells_none,
    files_on,
    files_none,
    saves_files,
    saves_later,
    saves_on,
    yields_on,
    yields_none,
    mutes_on,
    mutes_none,
    goes_on_none,
    goes_on_waiting,
    goes_on_with,
    goes_on_hold,
    goes_on_published,
    goes_on_end_writer,
    goes_on_announced,
    goes_on_prepared,
    goes_on_reconnecting,
    goes_on_registry_saved,
    goes_on_chosen,
    goes_on_persisted,
    goes_on_equipped,
    goes_on_adb_lost,
    goes_on_recalled,
    goes_on_not_reached,
    goes_on_refreshed,
    goes_on_stopped,
    goes_on_reaped,
    goes_on_launched,
    goes_on_themed,
    goes_on_turned,
    goes_on_attached_anew,
    goes_on_followed,
    goes_on_emptied,
    goes_on_adb_refreshed,
    goes_on_abandoned,
    goes_on_rolled_back,
    goes_on_cleared,
    goes_on_placed,
    goes_on_applied_idle,
    goes_on_begun,
    goes_on_previewed,
    goes_on_coupled,
    goes_on_examined,
    goes_on_dismissed,
    goes_on_selected,
    goes_on_adjusted,
    goes_on_relaunched,
}

pub(crate) broadcast group group_alike_more {
    group_twin_outside,
    alike_on,
    alike_same,
    alike_with,
    alike_hold,
    alike_published,
    alike_end_writer,
    alike_announced,
    alike_prepared,
    alike_reconnecting,
    alike_registry_saved,
    alike_chosen,
    alike_persisted,
    alike_equipped,
    alike_adb_lost,
    alike_recalled,
    alike_not_reached,
    alike_refreshed,
    alike_stopped,
    alike_reaped,
    alike_launched,
    alike_themed,
    alike_turned,
    alike_attached_anew,
    alike_followed,
    alike_emptied,
    alike_adb_refreshed,
    alike_abandoned,
    alike_rolled_back,
    alike_cleared,
    alike_placed,
    alike_applied_idle,
    alike_begun,
    alike_previewed,
    alike_coupled,
    alike_examined,
    alike_dismissed,
    alike_selected,
    alike_adjusted,
    alike_relaunched,
}

pub(crate) broadcast proof fn goes_on_started(d: DaemonView, stay_awake: bool, style: PreviewStyle)
    ensures
        goes_on(d, (#[trigger] started(d, stay_awake, style)).0),
        mutes(d, started(d, stay_awake, style).0),
        files(d, started(d, stay_awake, style).0),
        tells(d, started(d, stay_awake, style).0),
{
    broadcast use group_goes_on_more;

    reveal(started);
}

pub(crate) broadcast proof fn alike_started(
    d: DaemonView,
    e: DaemonView,
    stay_awake: bool,
    style: PreviewStyle,
)
    requires
        !d.outside.waiting,
        alike(d, e),
    ensures
        alike(
            (#[trigger] started(d, stay_awake, style)).0,
            (#[trigger] started(e, stay_awake, style)).0,
        ),
        !started(d, stay_awake, style).0.outside.waiting
            ==> started(d, stay_awake, style).1 == started(e, stay_awake, style).1,
{
    broadcast use group_goes_on_more;
    broadcast use group_alike_more;

    reveal(started);
}

pub(crate) broadcast proof fn goes_on_readdressed(
    d: DaemonView,
    serial: Seq<char>,
    address: Seq<char>,
)
    ensures
        goes_on(d, (#[trigger] readdressed(d, serial, address)).0),
        mutes(d, readdressed(d, serial, address).0),
        files(d, readdressed(d, serial, address).0),
        yields(d, readdressed(d, serial, address).0),
        d.core.state.capture is None ==> tells(d, readdressed(d, serial, address).0),
        caught_up(d.outside.trace, readdressed(d, serial, address).0),
{
    broadcast use group_goes_on_more;

    reveal(readdressed);
    let e = readdressed(d, serial, address).0;
    let (o, ok) = joined(d.outside, address);
    assert(steps(d.outside, o));
    match found(d.core.registry.phones, known_wireless(serial)) {
        Some(known) if endpoint(address) && address_of(known) != address && ok => {
            lemma_caught_up_on(d.outside, o, e);
        },
        _ => lemma_tells_caught_up(d, e),
    }
}

pub(crate) broadcast proof fn alike_readdressed(
    d: DaemonView,
    e: DaemonView,
    serial: Seq<char>,
    address: Seq<char>,
)
    requires
        !d.outside.waiting,
        alike(d, e),
    ensures
        alike(
            (#[trigger] readdressed(d, serial, address)).0,
            (#[trigger] readdressed(e, serial, address)).0,
        ),
        !readdressed(d, serial, address).0.outside.waiting
            ==> readdressed(d, serial, address).1 == readdressed(e, serial, address).1,
{
    broadcast use group_goes_on_more;
    broadcast use group_alike_more;

    reveal(readdressed);
}

pub(crate) broadcast proof fn goes_on_applied_live(
    d: DaemonView,
    phone: PhoneView,
    view: SettingsStateView,
    capture: CaptureView,
    writer: u32,
)
    ensures
        goes_on(d, (#[trigger] applied_live(d, phone, view, capture, writer)).0),
        mutes(d, applied_live(d, phone, view, capture, writer).0),
        files(d, applied_live(d, phone, view, capture, writer).0),
        tells(d, applied_live(d, phone, view, capture, writer).0),
        yields(d, applied_live(d, phone, view, capture, writer).0),
{
    broadcast use group_goes_on_more;

    reveal(applied_live);
}

pub(crate) broadcast proof fn alike_applied_live(
    d: DaemonView,
    e: DaemonView,
    phone: PhoneView,
    view: SettingsStateView,
    capture: CaptureView,
    writer: u32,
)
    requires
        !d.outside.waiting,
        alike(d, e),
    ensures
        alike(
            (#[trigger] applied_live(d, phone, view, capture, writer)).0,
            (#[trigger] applied_live(e, phone, view, capture, writer)).0,
        ),
        !applied_live(d, phone, view, capture, writer).0.outside.waiting
            ==> applied_live(d, phone, view, capture, writer).1 == applied_live(e, phone, view, capture, writer).1,
{
    broadcast use group_goes_on_more;
    broadcast use group_alike_more;

    reveal(applied_live);
}

pub(crate) broadcast group group_goes_on_live {
    group_steps_outside,
    goes_on_on,
    tells_on,
    tells_none,
    files_on,
    files_none,
    saves_files,
    saves_later,
    saves_on,
    yields_on,
    yields_none,
    mutes_on,
    mutes_none,
    goes_on_none,
    goes_on_waiting,
    goes_on_with,
    goes_on_hold,
    goes_on_published,
    goes_on_end_writer,
    goes_on_announced,
    goes_on_prepared,
    goes_on_reconnecting,
    goes_on_registry_saved,
    goes_on_chosen,
    goes_on_persisted,
    goes_on_equipped,
    goes_on_adb_lost,
    goes_on_recalled,
    goes_on_not_reached,
    goes_on_refreshed,
    goes_on_stopped,
    goes_on_reaped,
    goes_on_launched,
    goes_on_themed,
    goes_on_turned,
    goes_on_attached_anew,
    goes_on_followed,
    goes_on_emptied,
    goes_on_adb_refreshed,
    goes_on_abandoned,
    goes_on_rolled_back,
    goes_on_cleared,
    goes_on_placed,
    goes_on_applied_idle,
    goes_on_begun,
    goes_on_previewed,
    goes_on_coupled,
    goes_on_examined,
    goes_on_dismissed,
    goes_on_selected,
    goes_on_adjusted,
    goes_on_relaunched,
    goes_on_started,
    goes_on_readdressed,
    goes_on_applied_live,
}

pub(crate) broadcast group group_alike_live {
    group_twin_outside,
    alike_on,
    alike_same,
    alike_with,
    alike_hold,
    alike_published,
    alike_end_writer,
    alike_announced,
    alike_prepared,
    alike_reconnecting,
    alike_registry_saved,
    alike_chosen,
    alike_persisted,
    alike_equipped,
    alike_adb_lost,
    alike_recalled,
    alike_not_reached,
    alike_refreshed,
    alike_stopped,
    alike_reaped,
    alike_launched,
    alike_themed,
    alike_turned,
    alike_attached_anew,
    alike_followed,
    alike_emptied,
    alike_adb_refreshed,
    alike_abandoned,
    alike_rolled_back,
    alike_cleared,
    alike_placed,
    alike_applied_idle,
    alike_begun,
    alike_previewed,
    alike_coupled,
    alike_examined,
    alike_dismissed,
    alike_selected,
    alike_adjusted,
    alike_relaunched,
    alike_started,
    alike_readdressed,
    alike_applied_live,
}

pub(crate) broadcast proof fn goes_on_applied(d: DaemonView)
    ensures
        goes_on(d, (#[trigger] applied(d)).0),
        mutes(d, applied(d).0),
        files(d, applied(d).0),
        tells(d, applied(d).0),
        yields(d, applied(d).0),
{
    broadcast use group_goes_on_live;

    reveal(applied);
}

pub(crate) broadcast proof fn alike_applied(d: DaemonView, e: DaemonView)
    requires
        !d.outside.waiting,
        alike(d, e),
    ensures
        alike((#[trigger] applied(d)).0, (#[trigger] applied(e)).0),
        !applied(d).0.outside.waiting ==> applied(d).1 == applied(e).1,
{
    broadcast use group_goes_on_live;
    broadcast use group_alike_live;

    reveal(applied);
}

pub(crate) broadcast group group_goes_on_applied {
    group_steps_outside,
    goes_on_on,
    tells_on,
    tells_none,
    files_on,
    files_none,
    saves_files,
    saves_later,
    saves_on,
    yields_on,
    yields_none,
    mutes_on,
    mutes_none,
    goes_on_none,
    goes_on_waiting,
    goes_on_with,
    goes_on_hold,
    goes_on_published,
    goes_on_end_writer,
    goes_on_announced,
    goes_on_prepared,
    goes_on_reconnecting,
    goes_on_registry_saved,
    goes_on_chosen,
    goes_on_persisted,
    goes_on_equipped,
    goes_on_adb_lost,
    goes_on_recalled,
    goes_on_not_reached,
    goes_on_refreshed,
    goes_on_stopped,
    goes_on_reaped,
    goes_on_launched,
    goes_on_themed,
    goes_on_turned,
    goes_on_attached_anew,
    goes_on_followed,
    goes_on_emptied,
    goes_on_adb_refreshed,
    goes_on_abandoned,
    goes_on_rolled_back,
    goes_on_cleared,
    goes_on_placed,
    goes_on_applied_idle,
    goes_on_begun,
    goes_on_previewed,
    goes_on_coupled,
    goes_on_examined,
    goes_on_dismissed,
    goes_on_selected,
    goes_on_adjusted,
    goes_on_relaunched,
    goes_on_started,
    goes_on_readdressed,
    goes_on_applied_live,
    goes_on_applied,
}

pub(crate) broadcast group group_alike_applied {
    group_twin_outside,
    alike_on,
    alike_same,
    alike_with,
    alike_hold,
    alike_published,
    alike_end_writer,
    alike_announced,
    alike_prepared,
    alike_reconnecting,
    alike_registry_saved,
    alike_chosen,
    alike_persisted,
    alike_equipped,
    alike_adb_lost,
    alike_recalled,
    alike_not_reached,
    alike_refreshed,
    alike_stopped,
    alike_reaped,
    alike_launched,
    alike_themed,
    alike_turned,
    alike_attached_anew,
    alike_followed,
    alike_emptied,
    alike_adb_refreshed,
    alike_abandoned,
    alike_rolled_back,
    alike_cleared,
    alike_placed,
    alike_applied_idle,
    alike_begun,
    alike_previewed,
    alike_coupled,
    alike_examined,
    alike_dismissed,
    alike_selected,
    alike_adjusted,
    alike_relaunched,
    alike_started,
    alike_readdressed,
    alike_applied_live,
    alike_applied,
}

pub(crate) broadcast proof fn goes_on_performed(d: DaemonView, operation: OperationView)
    ensures
        goes_on(d, (#[trigger] performed(d, operation)).0),
        operation !is Connect || d.core.state.capture is None ==> tells(
            d,
            performed(d, operation).0,
        ),
        operation is Connect ==> caught_up(d.outside.trace, performed(d, operation).0),
        operation !is Start ==> yields(d, performed(d, operation).0),
        operation !is Pair ==> mutes(d, performed(d, operation).0),
        files(d, performed(d, operation).0),
{
    broadcast use group_goes_on_applied;

}

pub(crate) broadcast proof fn alike_performed(
    d: DaemonView,
    e: DaemonView,
    operation: OperationView,
)
    requires
        !d.outside.waiting,
        alike(d, e),
    ensures
        alike((#[trigger] performed(d, operation)).0, (#[trigger] performed(e, operation)).0),
        !performed(d, operation).0.outside.waiting
            ==> performed(d, operation).1 == performed(e, operation).1,
{
    broadcast use group_goes_on_applied;
    broadcast use group_alike_applied;

}

pub(crate) broadcast group group_goes_on_all {
    group_steps_outside,
    goes_on_on,
    tells_on,
    tells_none,
    files_on,
    files_none,
    saves_files,
    saves_later,
    saves_on,
    yields_on,
    yields_none,
    mutes_on,
    mutes_none,
    goes_on_none,
    goes_on_waiting,
    goes_on_with,
    goes_on_hold,
    goes_on_published,
    goes_on_end_writer,
    goes_on_announced,
    goes_on_prepared,
    goes_on_reconnecting,
    goes_on_registry_saved,
    goes_on_chosen,
    goes_on_persisted,
    goes_on_equipped,
    goes_on_adb_lost,
    goes_on_recalled,
    goes_on_not_reached,
    goes_on_refreshed,
    goes_on_stopped,
    goes_on_reaped,
    goes_on_launched,
    goes_on_themed,
    goes_on_turned,
    goes_on_attached_anew,
    goes_on_followed,
    goes_on_emptied,
    goes_on_adb_refreshed,
    goes_on_abandoned,
    goes_on_rolled_back,
    goes_on_cleared,
    goes_on_placed,
    goes_on_applied_idle,
    goes_on_begun,
    goes_on_previewed,
    goes_on_coupled,
    goes_on_examined,
    goes_on_dismissed,
    goes_on_selected,
    goes_on_adjusted,
    goes_on_relaunched,
    goes_on_started,
    goes_on_readdressed,
    goes_on_applied_live,
    goes_on_applied,
    goes_on_performed,
}

pub(crate) broadcast group group_alike_all {
    group_twin_outside,
    alike_on,
    alike_same,
    alike_with,
    alike_hold,
    alike_published,
    alike_end_writer,
    alike_announced,
    alike_prepared,
    alike_reconnecting,
    alike_registry_saved,
    alike_chosen,
    alike_persisted,
    alike_equipped,
    alike_adb_lost,
    alike_recalled,
    alike_not_reached,
    alike_refreshed,
    alike_stopped,
    alike_reaped,
    alike_launched,
    alike_themed,
    alike_turned,
    alike_attached_anew,
    alike_followed,
    alike_emptied,
    alike_adb_refreshed,
    alike_abandoned,
    alike_rolled_back,
    alike_cleared,
    alike_placed,
    alike_applied_idle,
    alike_begun,
    alike_previewed,
    alike_coupled,
    alike_examined,
    alike_dismissed,
    alike_selected,
    alike_adjusted,
    alike_relaunched,
    alike_started,
    alike_readdressed,
    alike_applied_live,
    alike_applied,
    alike_performed,
}

/// Two runs of one operation, the second with further answers, begin alike.
proof fn lemma_begin(
    core: CoreView,
    answers: Seq<AnswerView>,
    more: Seq<AnswerView>,
    startup_ms: u64,
    preview_ms: u64,
)
    requires
        answers.len() <= more.len(),
        answers == more.take(answers.len() as int),
    ensures
        alike(
            fresh(core, answers, startup_ms, preview_ms),
            fresh(core, more, startup_ms, preview_ms),
        ),
{
    reveal(alike);
    reveal(twin);
    assert forall|i: int| 0 <= i < answers.len() implies #[trigger] answers[i] == more[i] by {
        assert(more.take(answers.len() as int)[i] == more[i]);
    }
}

/// An operation never takes back what it did. Whatever further answers come,
/// its acts begin with the acts it had listed; and once it has ended, it has
/// ended: its acts, what the daemon holds and how it ended stay as they were.
pub proof fn nothing_is_taken_back(
    core: CoreView,
    operation: OperationView,
    answers: Seq<AnswerView>,
    more: Seq<AnswerView>,
    startup_ms: u64,
    preview_ms: u64,
)
    requires
        answers.len() <= more.len(),
        answers == more.take(answers.len() as int),
    ensures
        ({
            let (d, r) = performed(fresh(core, answers, startup_ms, preview_ms), operation);
            let (e, s) = performed(fresh(core, more, startup_ms, preview_ms), operation);
            &&& d.outside.trace.len() <= e.outside.trace.len()
            &&& forall|i: int|
                0 <= i < d.outside.trace.len() ==> #[trigger] d.outside.trace[i]
                    == e.outside.trace[i]
            &&& !d.outside.waiting ==> !e.outside.waiting && e.outside.trace == d.outside.trace
                && e.core == d.core && r == s
        }),
{
    let a = fresh(core, answers, startup_ms, preview_ms);
    let b = fresh(core, more, startup_ms, preview_ms);
    lemma_begin(core, answers, more, startup_ms, preview_ms);
    alike_performed(a, b, operation);
    reveal(alike);
    reveal(twin);
    reveal(leads);
}

/// Whatever the outside answers, an operation runs nothing but adb, scrcpy,
/// v4l2-ctl and hyprctl; it names the phone in every call of scrcpy, and in
/// every call of adb that has one to name; and it launches scrcpy only without
/// control.
pub proof fn only_permitted_acts(
    core: CoreView,
    operation: OperationView,
    answers: Seq<AnswerView>,
    startup_ms: u64,
    preview_ms: u64,
)
    ensures
        ({
            let (d, _) = performed(fresh(core, answers, startup_ms, preview_ms), operation);
            forall|i: int| 0 <= i < d.outside.trace.len() ==> safe(#[trigger] d.outside.trace[i])
        }),
{
    goes_on_performed(fresh(core, answers, startup_ms, preview_ms), operation);
    reveal(goes_on);
}

/// Pairing is done once: nothing exchanges a pairing code but the request to
/// pair. Every later connection goes by the connect address alone.
pub proof fn pairing_only_on_request(
    core: CoreView,
    operation: OperationView,
    answers: Seq<AnswerView>,
    startup_ms: u64,
    preview_ms: u64,
)
    requires
        operation !is Pair,
    ensures
        ({
            let (d, _) = performed(fresh(core, answers, startup_ms, preview_ms), operation);
            forall|i: int|
                0 <= i < d.outside.trace.len() ==> !pairing(#[trigger] d.outside.trace[i])
        }),
{
    goes_on_performed(fresh(core, answers, startup_ms, preview_ms), operation);
    reveal(unpaired);
}

/// An operation that has not ended waits for the answer to its last act, and
/// for no other: every answer was used.
pub proof fn an_operation_waits_for_its_last_act(
    core: CoreView,
    operation: OperationView,
    answers: Seq<AnswerView>,
    startup_ms: u64,
    preview_ms: u64,
)
    ensures
        ({
            let (d, _) = performed(fresh(core, answers, startup_ms, preview_ms), operation);
            d.outside.waiting ==> {
                &&& d.outside.trace.len() > 0
                &&& expects(d.outside.trace.last())
                &&& d.outside.used == answers.len()
            }
        }),
{
    goes_on_performed(fresh(core, answers, startup_ms, preview_ms), operation);
    reveal(goes_on);
}

/// Clients are sent the whole state whenever it changes, and only then: what they
/// were sent last is what the daemon holds, and no state is sent that equals the
/// one they had. While a captured phone is given a new address, the capture
/// follows it before clients are told; whenever they were told anything, what
/// they were told last is again what the daemon holds.
pub proof fn clients_have_the_state(
    core: CoreView,
    operation: OperationView,
    answers: Seq<AnswerView>,
    startup_ms: u64,
    preview_ms: u64,
)
    ensures
        ({
            let (d, _) = performed(fresh(core, answers, startup_ms, preview_ms), operation);
            &&& operation !is Connect || core.state.capture is None ==> d.core.state == last_sent(
                core.state,
                d.outside.trace,
            ) && all_news(core.state, d.outside.trace)
            &&& any_sent(d.outside.trace) ==> d.core.state == last_sent(
                core.state,
                d.outside.trace,
            )
        }),
{
    let a = fresh(core, answers, startup_ms, preview_ms);
    goes_on_performed(a, operation);
    reveal(tells);
    reveal(caught_up);
    let (d, _) = performed(a, operation);
    assert(d.outside.trace.skip(0) =~= d.outside.trace);
}

/// The revision counts changes: each state that is sent to clients carries the
/// next one, and where none is sent the revision stays.
pub proof fn revisions_count_the_states_sent(
    core: CoreView,
    operation: OperationView,
    answers: Seq<AnswerView>,
    startup_ms: u64,
    preview_ms: u64,
)
    ensures
        ({
            let (d, _) = performed(fresh(core, answers, startup_ms, preview_ms), operation);
            d.core.rev == counted(core.rev, d.outside.trace) && numbered(
                core.rev,
                d.outside.trace,
            )
        }),
{
    let a = fresh(core, answers, startup_ms, preview_ms);
    goes_on_performed(a, operation);
    reveal(goes_on);
    let (d, _) = performed(a, operation);
    assert(d.outside.trace.skip(0) =~= d.outside.trace);
}

/// The disk has what the daemon holds: after every operation, the registry that
/// it was given last is the registry that the daemon holds, as long as the disk
/// took every one that it was given. Where nothing was given to it, the
/// registry is the one there was.
pub proof fn the_disk_has_the_registry(
    core: CoreView,
    operation: OperationView,
    answers: Seq<AnswerView>,
    startup_ms: u64,
    preview_ms: u64,
)
    ensures
        ({
            let (d, _) = performed(fresh(core, answers, startup_ms, preview_ms), operation);
            !d.outside.waiting && all_written(d.outside.trace, answers) ==> d.core.registry
                == last_save(core.registry, d.outside.trace)
        }),
{
    let a = fresh(core, answers, startup_ms, preview_ms);
    goes_on_performed(a, operation);
    reveal(goes_on);
    reveal(files);
    assert(filed(core.registry, a));
}

} // verus!
