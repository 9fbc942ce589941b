//! The capture: one scrcpy process reading the phone's camera and writing the
//! virtual camera. The daemon owns the process; this module knows where the
//! node is, how it must be configured, and what scrcpy is launched with.

use vstd::prelude::*;

use crate::json;
use crate::json::{json_field, json_integer, json_items, json_string, json_value};
use crate::lists;
use crate::lists::{found, kept, key_of, lemma_first, lemma_kept_push, sorted, Order};
use crate::outside::{
    Act, ActView, Answer, AnswerView, Candidate, Equipment, EquipmentView, Fd, FdView, Fds,
    FdsView, Listing, ListingView, Node, NodeView, Outcome, OutcomeView, Outside, OutsideView,
    Process, ProcessView, Writer, WriterView,
};
use crate::plain::{shown, Plain};
use crate::protocol::{Missing, MissingView};
use crate::settings;
use crate::settings::{frame_size, pixels, CameraSettings, CameraSettingsView};
use crate::text;
use crate::text::{
    begins, debug_text, decimal, halves, holds, joined, lossy_text, parsed_unsigned, pieces,
    signed_decimal, trimmed,
};

verus! {

/// The package that ships the daemon and the module configuration. Named in
/// every message about something being missing, because "install the package"
/// is not an instruction anyone can follow.
pub const PACKAGE: &'static str = "omavcam-git";

/// The label that the package's configuration gives the virtual camera, and
/// the only thing that identifies it. The number is a request, not a guarantee:
/// another device can already hold it.
pub const CARD_LABEL: &'static str = "omavcam";

/// scrcpy's window is the preview. Its title is the stable selector shared by
/// every rule and compositor operation.
pub const PREVIEW_TITLE: &'static str = "omavcam preview";

pub const PREVIEW_SELECTOR: &'static str = "title:^(omavcam preview)$";

pub const RECONNECT_SELECTOR: &'static str = "title:^(omavcam reconnecting)$";

pub const PREVIEW_WIDTH: u32 = 640;

/// Why something outside did not happen, and whether for want of the tool.
#[derive(Debug)]
pub struct Failure {
    pub not_found: bool,
    pub message: String,
}

#[verifier::ext_equal]
pub struct FailureView {
    pub not_found: bool,
    pub message: Seq<char>,
}

impl View for Failure {
    type V = FailureView;

    open spec fn view(&self) -> FailureView {
        FailureView {
            not_found: self.not_found.deep_view(),
            message: self.message.deep_view(),
        }
    }
}

impl DeepView for Failure {
    type V = FailureView;

    open spec fn deep_view(&self) -> FailureView {
        self@
    }
}

// ---------------------------------------------------------------------------
// The node

/// Whether a node carries the label.
pub open spec fn labelled(node: NodeView) -> bool {
    node.label matches Some(label) && trimmed(label) == CARD_LABEL@
}

/// The names of the nodes that carry the label.
pub open spec fn labelled_names(nodes: Seq<NodeView>) -> Seq<Seq<char>>
    decreases nodes.len(),
{
    if nodes.len() == 0 {
        Seq::empty()
    } else {
        let front = labelled_names(nodes.drop_last());
        if labelled(nodes.last()) {
            front.push(nodes.last().name)
        } else {
            front
        }
    }
}

/// By the text itself.
pub struct ByText;

impl Order<String> for ByText {
    open spec fn key(v: Seq<char>) -> Seq<char> {
        v
    }

    fn key_text(item: &String) -> String {
        item.copy()
    }
}

/// The virtual camera's path: the one node with the label. A missing module is
/// a packaging failure, not something the daemon can repair, and two nodes are
/// not a choice it makes.
pub open spec fn node_of(listing: ListingView) -> Result<Seq<char>, Seq<char>> {
    match listing.error {
        Some(e) => Err(
            "could not inspect "@ + listing.directory + ": "@ + e
                + ". The v4l2loopback module is not loaded; install "@ + PACKAGE@
                + ", which creates and labels its nodes at boot"@,
        ),
        None => {
            let names = sorted(labelled_names(listing.nodes), key_of::<String, ByText>());
            if names.len() == 1 {
                Ok("/dev/"@ + names[0])
            } else if names.len() == 0 {
                Err(
                    "no video node is labelled "@ + debug_text(CARD_LABEL@)
                        + ": the v4l2loopback module is not loaded. Install "@ + PACKAGE@
                        + ", which ships the modules-load.d and modprobe.d files that load and label it — a user daemon cannot load a module itself."@,
                )
            } else {
                Err(
                    "more than one video node is labelled "@ + debug_text(CARD_LABEL@) + " ("@
                        + joined(names, ", "@)
                        + "); repair the package's v4l2loopback configuration rather than guessing"@,
                )
            }
        },
    }
}

fn names_labelled(nodes: &Vec<Node>) -> (r: Vec<String>)
    ensures
        r.deep_view() == labelled_names(nodes.deep_view()),
{
    let ghost all = nodes.deep_view();
    let mut r: Vec<String> = Vec::new();
    let mut i: usize = 0;
    assert(r.deep_view() =~= Seq::empty());
    assert(all.take(0) =~= Seq::empty());
    while i < nodes.len()
        invariant
            i <= nodes.len(),
            all == nodes.deep_view(),
            r.deep_view() == labelled_names(all.take(i as int)),
        decreases nodes.len() - i,
    {
        let node = &nodes[i];
        assert(all.take(i + 1).drop_last() =~= all.take(i as int));
        assert(all.take(i + 1).last() == node@);
        let carries = match &node.label {
            Some(label) => text::same(&text::trim(label), CARD_LABEL),
            None => false,
        };
        if carries {
            let ghost sofar = r.deep_view();
            let name = node.name.copy();
            r.push(name);
            assert(r.deep_view() =~= sofar.push(name@));
        }
        i = i + 1;
    }
    assert(all.take(i as int) =~= all);
    r
}

/// The virtual camera among the listed nodes.
pub fn node_in(listing: &Listing) -> (r: Result<String, String>)
    ensures
        shown(r) == node_of(listing@),
{
    match &listing.error {
        Some(e) => Err(
            text::of("could not inspect ").concat(&listing.directory).concat(": ").concat(e).concat(
                ". The v4l2loopback module is not loaded; install ",
            ).concat(PACKAGE).concat(", which creates and labels its nodes at boot"),
        ),
        None => {
            let names = lists::sort::<String, ByText>(&names_labelled(&listing.nodes));
            if names.len() == 1 {
                Ok(text::of("/dev/").concat(&names[0]))
            } else if names.len() == 0 {
                Err(
                    text::of("no video node is labelled ").concat(
                        &text::quoted(CARD_LABEL),
                    ).concat(": the v4l2loopback module is not loaded. Install ").concat(
                        PACKAGE,
                    ).concat(
                        ", which ships the modules-load.d and modprobe.d files that load and label it — a user daemon cannot load a module itself.",
                    ),
                )
            } else {
                Err(
                    text::of("more than one video node is labelled ").concat(
                        &text::quoted(CARD_LABEL),
                    ).concat(" (").concat(&text::join(&names, ", ")).concat(
                        "); repair the package's v4l2loopback configuration rather than guessing",
                    ),
                )
            }
        },
    }
}

/// Nothing listed, for want of an answer.
pub open spec fn unlisted() -> ListingView {
    ListingView { directory: Seq::empty(), error: Some(Seq::empty()), nodes: Seq::empty() }
}

#[verifier::opaque]
pub open spec fn node_found(o: OutsideView) -> (OutsideView, Result<Seq<char>, Seq<char>>) {
    let (o, answer) = o.ask(ActView::Nodes);
    (
        o,
        node_of(
            match answer {
                AnswerView::Nodes { listing } => listing,
                _ => unlisted(),
            },
        ),
    )
}

/// Looks the virtual camera up by its label.
pub fn find_node(o: &mut Outside) -> (r: Result<String, String>)
    ensures
        (final(o)@, shown(r)) == node_found(old(o)@),
{
    proof {
        reveal(node_found);
    }
    let listing = match o.ask(Act::Nodes) {
        Answer::Nodes { listing } => listing,
        _ => {
            let none: Vec<Node> = Vec::new();
            assert(none.deep_view() =~= Seq::empty());
            Listing { directory: String::new(), error: Some(String::new()), nodes: none }
        },
    };
    node_in(&listing)
}

// ---------------------------------------------------------------------------
// What is missing

/// Whether a file can be run.
pub open spec fn runnable(file: Candidate) -> bool {
    file.is_file && (file.mode / 64 % 2 == 1 || file.mode / 8 % 2 == 1 || file.mode % 2 == 1)
}

/// Whether a search came across something that can be run.
pub open spec fn on_path(files: Seq<Candidate>) -> bool {
    exists|i: int| 0 <= i < files.len() && runnable(#[trigger] files[i])
}

fn any_runnable(files: &Vec<Candidate>) -> (r: bool)
    ensures
        r == on_path(files.deep_view()),
{
    let mut i: usize = 0;
    while i < files.len()
        invariant
            i <= files.len(),
            forall|j: int| 0 <= j < i ==> !runnable(#[trigger] files.deep_view()[j]),
        decreases files.len() - i,
    {
        let file = files[i];
        assert(files.deep_view()[i as int] == file);
        if file.is_file && (file.mode / 64 % 2 == 1 || file.mode / 8 % 2 == 1 || file.mode % 2
            == 1) {
            return true;
        }
        i = i + 1;
    }
    false
}

/// A tool that a package supplies.
pub open spec fn lacks(what: Seq<char>, package: Seq<char>) -> MissingView {
    MissingView { what, install: "sudo pacman -S --needed "@ + package }
}

/// A tool, if it is missing.
pub open spec fn lacked(files: Seq<Candidate>, what: Seq<char>, package: Seq<char>) -> Seq<
    MissingView,
> {
    if on_path(files) {
        Seq::empty()
    } else {
        seq![lacks(what, package)]
    }
}

/// What a capture needs and this machine does not have. The node, not the
/// module: a module present but unconfigured leaves the same hole, and the
/// label is the only thing that proves the configuration is in force.
pub open spec fn lacking(equipment: EquipmentView) -> Seq<MissingView> {
    lacked(equipment.adb, "adb"@, "android-tools"@) + lacked(
        equipment.scrcpy,
        "scrcpy"@,
        "scrcpy"@,
    ) + lacked(equipment.v4l2_ctl, "v4l2-ctl"@, "v4l-utils"@) + lacked(
        equipment.hyprctl,
        "hyprctl"@,
        "hyprland"@,
    ) + (if node_of(equipment.listing) is Ok {
        Seq::empty()
    } else {
        seq![
            MissingView {
                what: "the virtual camera"@,
                install:
                    "sudo pacman -S --needed v4l2loopback-dkms && sudo modprobe v4l2loopback"@,
            },
        ]
    })
}

fn note_missing(list: &mut Vec<Missing>, files: &Vec<Candidate>, what: &str, package: &str)
    ensures
        final(list).deep_view() == old(list).deep_view() + lacked(
            files.deep_view(),
            what@,
            package@,
        ),
{
    let ghost before = list.deep_view();
    if !any_runnable(files) {
        let one = Missing {
            what: text::of(what),
            install: text::of("sudo pacman -S --needed ").concat(package),
        };
        list.push(one);
        assert(list.deep_view() =~= before.push(one@));
        assert(before + seq![lacks(what@, package@)] =~= before.push(one@));
    } else {
        assert(before + Seq::<MissingView>::empty() =~= before);
    }
}

/// What some equipment lacks.
pub fn missing_in(equipment: &Equipment) -> (r: Vec<Missing>)
    ensures
        r.deep_view() == lacking(equipment@),
{
    let mut list: Vec<Missing> = Vec::new();
    assert(list.deep_view() =~= Seq::empty());
    note_missing(&mut list, &equipment.adb, "adb", "android-tools");
    note_missing(&mut list, &equipment.scrcpy, "scrcpy", "scrcpy");
    note_missing(&mut list, &equipment.v4l2_ctl, "v4l2-ctl", "v4l-utils");
    note_missing(&mut list, &equipment.hyprctl, "hyprctl", "hyprland");
    let ghost before = list.deep_view();
    if node_in(&equipment.listing).is_err() {
        let one = Missing {
            what: text::of("the virtual camera"),
            install: text::of(
                "sudo pacman -S --needed v4l2loopback-dkms && sudo modprobe v4l2loopback",
            ),
        };
        list.push(one);
        assert(list.deep_view() =~= before + seq![one@]);
    } else {
        assert(before + Seq::<MissingView>::empty() =~= before);
    }
    assert(list.deep_view() =~= lacking(equipment@));
    list
}

/// Nothing found, for want of an answer.
pub open spec fn bare() -> EquipmentView {
    EquipmentView {
        adb: Seq::empty(),
        scrcpy: Seq::empty(),
        v4l2_ctl: Seq::empty(),
        hyprctl: Seq::empty(),
        listing: unlisted(),
    }
}

#[verifier::opaque]
pub open spec fn missed(o: OutsideView) -> (OutsideView, Seq<MissingView>) {
    let (o, answer) = o.ask(ActView::Inspect);
    (
        o,
        lacking(
            match answer {
                AnswerView::Equipped { equipment } => equipment,
                _ => bare(),
            },
        ),
    )
}

/// Looks at what this machine lacks.
pub fn missing(o: &mut Outside) -> (r: Vec<Missing>)
    ensures
        (final(o)@, r.deep_view()) == missed(old(o)@),
{
    proof {
        reveal(missed);
    }
    let equipment = match o.ask(Act::Inspect) {
        Answer::Equipped { equipment } => equipment,
        _ => {
            let e = Equipment {
                adb: Vec::new(),
                scrcpy: Vec::new(),
                v4l2_ctl: Vec::new(),
                hyprctl: Vec::new(),
                listing: Listing {
                    directory: String::new(),
                    error: Some(String::new()),
                    nodes: Vec::new(),
                },
            };
            assert(e@.adb =~= Seq::empty());
            assert(e@.scrcpy =~= Seq::empty());
            assert(e@.v4l2_ctl =~= Seq::empty());
            assert(e@.hyprctl =~= Seq::empty());
            assert(e@.listing.nodes =~= Seq::empty());
            e
        },
    };
    missing_in(&equipment)
}

// ---------------------------------------------------------------------------
// The node's controls

/// An open consumer pins the format by itself, so the format is not kept while
/// nobody watches; and the last queued frame is repeated once frames stop.
pub const CONTROLS: &'static str = "keep_format=0,sustain_framerate=1,timeout=0";

pub open spec fn controls_command(node: Seq<char>) -> Seq<Seq<char>> {
    seq!["v4l2-ctl"@, "-d"@, node, "-c"@, CONTROLS@]
}

/// Setting the controls that decide what a watching application sees when
/// frames stop. The capture works without them, so a refusal is only said.
#[verifier::opaque]
pub open spec fn controlled(o: OutsideView, node: Seq<char>) -> OutsideView {
    let (o, outcome) = o.run(controls_command(node), false);
    match outcome {
        OutcomeView::Exited { success, status, .. } => if success {
            o
        } else {
            o.log(
                "v4l2-ctl refused "@ + node + "'s controls ("@ + status
                    + "); the capture will run without them"@,
            )
        },
        OutcomeView::Failed { missing, error } => if missing {
            o.log(
                "could not run v4l2-ctl ("@ + error
                    + "); install v4l-utils — the capture will run without "@ + node
                    + "'s controls"@,
            )
        } else {
            o.log(
                "could not configure "@ + node + " with v4l2-ctl ("@ + error
                    + "); the capture will run without its controls"@,
            )
        },
    }
}

pub fn set_controls(o: &mut Outside, node: &str)
    ensures
        final(o)@ == controlled(old(o)@, node@),
{
    proof {
        reveal(controlled);
    }
    let argv = vec![
        text::of("v4l2-ctl"),
        text::of("-d"),
        text::of(node),
        text::of("-c"),
        text::of(CONTROLS),
    ];
    assert(argv.deep_view() =~= controls_command(node@));
    match o.run(argv, false) {
        Outcome::Exited { success, status, .. } => {
            if !success {
                o.log(
                    text::of("v4l2-ctl refused ").concat(node).concat("'s controls (").concat(
                        &status,
                    ).concat("); the capture will run without them"),
                );
            }
        },
        Outcome::Failed { missing, error } => {
            if missing {
                o.log(
                    text::of("could not run v4l2-ctl (").concat(&error).concat(
                        "); install v4l-utils — the capture will run without ",
                    ).concat(node).concat("'s controls"),
                );
            } else {
                o.log(
                    text::of("could not configure ").concat(node).concat(
                        " with v4l2-ctl (",
                    ).concat(&error).concat("); the capture will run without its controls"),
                );
            }
        },
    }
}

pub open spec fn probe_command(node: Seq<char>) -> Seq<Seq<char>> {
    seq!["v4l2-ctl"@, "-d"@, node, "-D"@]
}

/// Whether a node can be captured from: a producer has attached to it.
#[verifier::opaque]
pub open spec fn feeding(o: OutsideView, node: Seq<char>) -> (
    OutsideView,
    Result<bool, FailureView>,
) {
    let (o, outcome) = o.run(probe_command(node), true);
    (
        o,
        match outcome {
            OutcomeView::Failed { missing, error } => Err(
                FailureView { not_found: missing, message: error },
            ),
            OutcomeView::Exited { success, status, stdout, .. } => if success {
                Ok(holds(lossy_text(stdout), "Video Capture"@))
            } else {
                Err(
                    FailureView {
                        not_found: false,
                        message: "v4l2-ctl could not inspect "@ + node + " ("@ + status + ")"@,
                    },
                )
            },
        },
    )
}

fn node_is_capture(o: &mut Outside, node: &str) -> (r: Result<bool, Failure>)
    ensures
        (final(o)@, shown(r)) == feeding(old(o)@, node@),
{
    proof {
        reveal(feeding);
    }
    let argv = vec![text::of("v4l2-ctl"), text::of("-d"), text::of(node), text::of("-D")];
    assert(argv.deep_view() =~= probe_command(node@));
    match o.run(argv, true) {
        Outcome::Failed { missing, error } => Err(Failure { not_found: missing, message: error }),
        Outcome::Exited { success, status, stdout, .. } => {
            if success {
                Ok(text::contains(&text::decoded(&stdout), "Video Capture"))
            } else {
                Err(
                    Failure {
                        not_found: false,
                        message: text::of("v4l2-ctl could not inspect ").concat(node).concat(
                            " (",
                        ).concat(&status).concat(")"),
                    },
                )
            }
        },
    }
}

// ---------------------------------------------------------------------------
// The compositor

pub open spec fn hyprctl_command(verb: Seq<char>, what: Seq<char>) -> Seq<Seq<char>> {
    seq!["hyprctl"@, verb, what]
}

/// Telling the compositor something.
#[verifier::opaque]
pub open spec fn commanded(o: OutsideView, verb: Seq<char>, what: Seq<char>) -> (
    OutsideView,
    Result<(), Seq<char>>,
) {
    let (o, outcome) = o.run(hyprctl_command(verb, what), false);
    (
        o,
        match outcome {
            OutcomeView::Failed { error, .. } => Err(error),
            OutcomeView::Exited { success, status, .. } => if success {
                Ok(())
            } else {
                Err("hyprctl "@ + verb + " failed ("@ + status + ")"@)
            },
        },
    )
}

fn hyprctl(o: &mut Outside, verb: &str, what: &str) -> (r: Result<(), String>)
    ensures
        (final(o)@, shown(r)) == commanded(old(o)@, verb@, what@),
{
    proof {
        reveal(commanded);
    }
    let argv = vec![text::of("hyprctl"), text::of(verb), text::of(what)];
    assert(argv.deep_view() =~= hyprctl_command(verb@, what@));
    match o.run(argv, false) {
        Outcome::Failed { error, .. } => Err(error),
        Outcome::Exited { success, status, .. } => {
            if success {
                Ok(())
            } else {
                Err(
                    text::of("hyprctl ").concat(verb).concat(" failed (").concat(&status).concat(
                        ")",
                    ),
                )
            }
        },
    }
}

/// Where a rule puts a window: where it was, or in the middle.
pub open spec fn placement(position: Option<[i64; 2]>) -> Seq<char> {
    match position {
        None => "center = true"@,
        Some(at) => "move = { "@ + signed_decimal(at[0] as int) + ", "@ + signed_decimal(
            at[1] as int,
        ) + " }"@,
    }
}

fn place(position: Option<[i64; 2]>) -> (r: String)
    ensures
        r@ == placement(position),
{
    match position {
        None => text::of("center = true"),
        Some(at) => text::of("move = { ").concat(&text::signed(at[0])).concat(", ").concat(
            &text::signed(at[1]),
        ).concat(" }"),
    }
}

pub const PREVIEW_RULE: &'static str =
    "o.window({ title = \"^(omavcam preview)$\" }, { name = \"omavcam-preview\", float = true, pin = true, no_dim = true, no_initial_focus = true, keep_aspect_ratio = true, ";

pub const RECONNECT_RULE: &'static str =
    "o.window({ title = \"^(omavcam reconnecting)$\" }, { name = \"omavcam-reconnecting\", float = true, pin = true, no_dim = true, no_focus = true, no_initial_focus = true, keep_aspect_ratio = true, ";

/// The compositor's only close guard is measured in milliseconds. Its maximum
/// protects an open preview for just under 25 days; reapplying the style
/// rearms it.
pub const CLOSE_GUARD: &'static str = "no_close_for = 2147483647, ";

pub const RULE_END: &'static str = ", opacity = \"1 1\", tag = \"-default-opacity\" })";

pub open spec fn styled(rounding: u64, border_size: u64) -> Seq<char> {
    "rounding = "@ + decimal(rounding as nat) + ", border_size = "@ + decimal(border_size as nat)
        + RULE_END@
}

fn style(rounding: u64, border_size: u64) -> (r: String)
    ensures
        r@ == styled(rounding, border_size),
{
    text::of("rounding = ").concat(&text::number(rounding)).concat(", border_size = ").concat(
        &text::number(border_size),
    ).concat(RULE_END)
}

/// The rule for the preview's window. The window can take the focus when it is
/// clicked, never when it appears.
pub open spec fn preview_rule(rounding: u64, border_size: u64, position: Option<[i64; 2]>) -> Seq<
    char,
> {
    PREVIEW_RULE@ + placement(position) + ", "@ + CLOSE_GUARD@ + styled(rounding, border_size)
}

/// The same rule, leaving a window where it is.
pub open spec fn style_rule(rounding: u64, border_size: u64) -> Seq<char> {
    PREVIEW_RULE@ + CLOSE_GUARD@ + styled(rounding, border_size)
}

/// The rule for the window that stands in while a phone reconnects.
pub open spec fn reconnect_rule(
    rounding: u64,
    border_size: u64,
    position: Option<[i64; 2]>,
) -> Seq<char> {
    RECONNECT_RULE@ + placement(position) + ", "@ + styled(rounding, border_size)
}

/// Applied before the window maps, so it never flashes tiled, misplaced, or
/// focused. Placement belongs to the compositor.
pub fn apply_preview_rule(
    o: &mut Outside,
    rounding: u64,
    border_size: u64,
    position: Option<[i64; 2]>,
) -> (r: Result<(), String>)
    ensures
        (final(o)@, shown(r)) == commanded(
            old(o)@,
            "eval"@,
            preview_rule(rounding, border_size, position),
        ),
{
    let rule = text::of(PREVIEW_RULE).concat(&place(position)).concat(", ").concat(
        CLOSE_GUARD,
    ).concat(&style(rounding, border_size));
    hyprctl(o, "eval", &rule)
}

/// Reapplies live theme values without moving an existing preview.
pub fn apply_preview_style(o: &mut Outside, rounding: u64, border_size: u64) -> (r: Result<
    (),
    String,
>)
    ensures
        (final(o)@, shown(r)) == commanded(old(o)@, "eval"@, style_rule(rounding, border_size)),
{
    let rule = text::of(PREVIEW_RULE).concat(CLOSE_GUARD).concat(&style(rounding, border_size));
    hyprctl(o, "eval", &rule)
}

/// Places and themes the window that stands in while a phone reconnects.
pub fn apply_reconnect_rule(
    o: &mut Outside,
    rounding: u64,
    border_size: u64,
    position: Option<[i64; 2]>,
) -> (r: Result<(), String>)
    ensures
        (final(o)@, shown(r)) == commanded(
            old(o)@,
            "eval"@,
            reconnect_rule(rounding, border_size, position),
        ),
{
    let rule = text::of(RECONNECT_RULE).concat(&place(position)).concat(", ").concat(
        &style(rounding, border_size),
    );
    hyprctl(o, "eval", &rule)
}

pub open spec fn move_text(selector: Seq<char>, at: [i64; 2]) -> Seq<char> {
    "hl.dsp.window.move({ window = \""@ + selector + "\", x = "@ + signed_decimal(at[0] as int)
        + ", y = "@ + signed_decimal(at[1] as int) + " })"@
}

pub open spec fn center_text(selector: Seq<char>) -> Seq<char> {
    "hl.dsp.window.center({ window = \""@ + selector + "\" })"@
}

fn move_window(o: &mut Outside, selector: &str, at: [i64; 2]) -> (r: Result<(), String>)
    ensures
        (final(o)@, shown(r)) == commanded(old(o)@, "dispatch"@, move_text(selector@, at)),
{
    let what = text::of("hl.dsp.window.move({ window = \"").concat(selector).concat(
        "\", x = ",
    ).concat(&text::signed(at[0])).concat(", y = ").concat(&text::signed(at[1])).concat(" })");
    hyprctl(o, "dispatch", &what)
}

fn center_window(o: &mut Outside, selector: &str) -> (r: Result<(), String>)
    ensures
        (final(o)@, shown(r)) == commanded(old(o)@, "dispatch"@, center_text(selector@)),
{
    let what = text::of("hl.dsp.window.center({ window = \"").concat(selector).concat("\" })");
    hyprctl(o, "dispatch", &what)
}

pub fn move_preview(o: &mut Outside, at: [i64; 2]) -> (r: Result<(), String>)
    ensures
        (final(o)@, shown(r)) == commanded(
            old(o)@,
            "dispatch"@,
            move_text(PREVIEW_SELECTOR@, at),
        ),
{
    move_window(o, PREVIEW_SELECTOR, at)
}

pub fn center_preview(o: &mut Outside) -> (r: Result<(), String>)
    ensures
        (final(o)@, shown(r)) == commanded(
            old(o)@,
            "dispatch"@,
            center_text(PREVIEW_SELECTOR@),
        ),
{
    center_window(o, PREVIEW_SELECTOR)
}

pub fn hide_reconnect_preview(o: &mut Outside, at: [i64; 2]) -> (r: Result<(), String>)
    ensures
        (final(o)@, shown(r)) == commanded(
            old(o)@,
            "dispatch"@,
            move_text(RECONNECT_SELECTOR@, at),
        ),
{
    move_window(o, RECONNECT_SELECTOR, at)
}

/// What shows a window where it was, or in the middle.
pub open spec fn show_text(selector: Seq<char>, position: Option<[i64; 2]>) -> Seq<char> {
    match position {
        Some(at) => move_text(selector, at),
        None => center_text(selector),
    }
}

pub fn show_reconnect_preview(o: &mut Outside, position: Option<[i64; 2]>) -> (r: Result<
    (),
    String,
>)
    ensures
        (final(o)@, shown(r)) == commanded(
            old(o)@,
            "dispatch"@,
            show_text(RECONNECT_SELECTOR@, position),
        ),
{
    match position {
        Some(at) => move_window(o, RECONNECT_SELECTOR, at),
        None => center_window(o, RECONNECT_SELECTOR),
    }
}

// ---------------------------------------------------------------------------
// What the compositor says

/// What a field of a value is as an integer.
pub open spec fn field_integer(value: Seq<char>, key: Seq<char>) -> Option<i64> {
    match json_field(value, key) {
        Some(v) => json_integer(v),
        None => None,
    }
}

/// The items of a field of a value.
pub open spec fn field_items(value: Seq<char>, key: Seq<char>) -> Option<Seq<Seq<char>>> {
    match json_field(value, key) {
        Some(v) => json_items(v),
        None => None,
    }
}

fn integer_field(value: &str, key: &str) -> (r: Option<i64>)
    ensures
        r == field_integer(value@, key@),
{
    match json::field(value, key) {
        Some(v) => json::integer(&v),
        None => None,
    }
}

fn items_field(value: &str, key: &str) -> (r: Option<Vec<String>>)
    ensures
        r.deep_view() == field_items(value@, key@),
{
    match json::field(value, key) {
        Some(v) => json::items(&v),
        None => None,
    }
}

/// A window with the preview's title.
pub open spec fn titled() -> spec_fn(Seq<char>) -> bool {
    |client: Seq<char>|
        json_field(client, "title"@) matches Some(title) && json_string(title) == Some(
            PREVIEW_TITLE@,
        )
}

/// The JSON that the compositor answered, or what is wrong with it.
pub open spec fn reported(outcome: OutcomeView, what: Seq<char>) -> Result<Seq<char>, Seq<char>> {
    match outcome {
        OutcomeView::Failed { error, .. } => Err(error),
        OutcomeView::Exited { success, status, stdout, .. } => if success {
            json_value(stdout)
        } else {
            Err("hyprctl "@ + what + " failed ("@ + status + ")"@)
        },
    }
}

fn report(o: &mut Outside, what: &str) -> (r: Result<String, String>)
    ensures
        ({
            let (after, outcome) = old(o)@.run(hyprctl_command(what@, "-j"@), true);
            final(o)@ == after && shown(r) == reported(outcome, what@)
        }),
{
    let argv = vec![text::of("hyprctl"), text::of(what), text::of("-j")];
    assert(argv.deep_view() =~= hyprctl_command(what@, "-j"@));
    match o.run(argv, true) {
        Outcome::Failed { error, .. } => Err(error),
        Outcome::Exited { success, status, stdout, .. } => {
            if success {
                json::read(&stdout)
            } else {
                Err(
                    text::of("hyprctl ").concat(what).concat(" failed (").concat(&status).concat(
                        ")",
                    ),
                )
            }
        },
    }
}

/// The preview's window among the clients.
pub open spec fn window_in(clients: Result<Seq<char>, Seq<char>>) -> Result<Seq<char>, Seq<char>> {
    match clients {
        Err(e) => Err(e),
        Ok(clients) => match json_items(clients) {
            None => Err("preview window is not mapped"@),
            Some(list) => match found(list, titled()) {
                Some(client) => Ok(client),
                None => Err("preview window is not mapped"@),
            },
        },
    }
}

#[verifier::opaque]
pub open spec fn window(o: OutsideView) -> (OutsideView, Result<Seq<char>, Seq<char>>) {
    let (o, outcome) = o.run(hyprctl_command("clients"@, "-j"@), true);
    (o, window_in(reported(outcome, "clients"@)))
}

fn preview_client(o: &mut Outside) -> (r: Result<String, String>)
    ensures
        (final(o)@, shown(r)) == window(old(o)@),
{
    proof {
        reveal(window);
    }
    let clients = match report(o, "clients") {
        Err(e) => return Err(e),
        Ok(clients) => clients,
    };
    let list = match json::items(&clients) {
        None => return Err(text::of("preview window is not mapped")),
        Some(list) => list,
    };
    let ghost all = list.deep_view();
    let ghost after = o@;
    let mut i: usize = 0;
    proof {
        lemma_first(all, titled());
    }
    while i < list.len()
        invariant
            i <= list.len(),
            all == list.deep_view(),
            o@ == after,
            window(old(o)@) == (after, window_in(Ok(clients@))),
            json_items(clients@) == Some(all),
            forall|j: int| 0 <= j < i ==> !titled()(#[trigger] all[j]),
        decreases list.len() - i,
    {
        let client = &list[i];
        assert(all[i as int] == client@);
        match json::field(client, "title") {
            Some(title) => {
                if text::same_as(&json::string(&title), PREVIEW_TITLE) {
                    proof {
                        lemma_first(all, titled());
                    }
                    return Ok(client.copy());
                }
            },
            None => {},
        }
        i = i + 1;
    }
    Err(text::of("preview window is not mapped"))
}

/// Where a window is.
pub open spec fn position_of(client: Seq<char>) -> Option<[i64; 2]> {
    match field_items(client, "at"@) {
        Some(at) => if at.len() == 2 {
            match (json_integer(at[0]), json_integer(at[1])) {
                (Some(x), Some(y)) => Some([x, y]),
                _ => None,
            }
        } else {
            None
        },
        None => None,
    }
}

#[verifier::opaque]
pub open spec fn located(o: OutsideView) -> (OutsideView, Result<[i64; 2], Seq<char>>) {
    let (o, client) = window(o);
    (
        o,
        match client {
            Err(e) => Err(e),
            Ok(client) => match position_of(client) {
                Some(at) => Ok(at),
                None => Err("Hyprland reported no preview position"@),
            },
        },
    )
}

/// Asks the compositor where the preview is.
pub fn preview_position(o: &mut Outside) -> (r: Result<[i64; 2], String>)
    ensures
        match r {
            Ok(at) => (final(o)@, Ok::<[i64; 2], Seq<char>>(at)) == located(old(o)@),
            Err(e) => (final(o)@, Err::<[i64; 2], Seq<char>>(e@)) == located(old(o)@),
        },
{
    proof {
        reveal(located);
    }
    let client = match preview_client(o) {
        Err(e) => return Err(e),
        Ok(client) => client,
    };
    let at = match items_field(&client, "at") {
        Some(at) => if at.len() == 2 {
            assert(at.deep_view()[0] == at[0]@ && at.deep_view()[1] == at[1]@);
            match (json::integer(&at[0]), json::integer(&at[1])) {
                (Some(x), Some(y)) => Some([x, y]),
                _ => None,
            }
        } else {
            None
        },
        None => None,
    };
    match at {
        Some(at) => Ok(at),
        None => Err(text::of("Hyprland reported no preview position")),
    }
}

/// How far left the leftmost monitor is.
pub open spec fn leftmost(monitors: Seq<Seq<char>>) -> Option<i64>
    decreases monitors.len(),
{
    if monitors.len() == 0 {
        None
    } else {
        match (leftmost(monitors.drop_last()), field_integer(monitors.last(), "x"@)) {
            (Some(a), Some(b)) => Some(
                if b < a {
                    b
                } else {
                    a
                },
            ),
            (Some(a), None) => Some(a),
            (None, b) => b,
        }
    }
}

/// A difference, held to the range there is.
pub open spec fn difference(a: i64, b: int) -> i64 {
    if a - b < i64::MIN {
        i64::MIN
    } else if a - b > i64::MAX {
        i64::MAX
    } else {
        (a - b) as i64
    }
}

fn subtract(a: i64, b: i64) -> (r: i64)
    ensures
        r == difference(a, b as int),
{
    let d: i128 = a as i128 - b as i128;
    if d < i64::MIN as i128 {
        i64::MIN
    } else if d > i64::MAX as i128 {
        i64::MAX
    } else {
        d as i64
    }
}

/// A place wholly left of every monitor, for a window so wide. A fixed
/// negative coordinate can be visible on a monitor arranged to the left of the
/// primary one.
pub open spec fn offscreen(monitors: Result<Seq<char>, Seq<char>>, width: i64) -> Result<
    [i64; 2],
    Seq<char>,
> {
    match monitors {
        Err(e) => Err(e),
        Ok(monitors) => match json_items(monitors) {
            None => Err("Hyprland reported no monitors"@),
            Some(list) => match leftmost(list) {
                None => Err("Hyprland reported no monitors"@),
                Some(left) => Ok([difference(difference(left, width as int), 1), 0]),
            },
        },
    }
}

#[verifier::opaque]
pub open spec fn hidden(o: OutsideView, width: i64) -> (OutsideView, Result<[i64; 2], Seq<char>>) {
    let (o, outcome) = o.run(hyprctl_command("monitors"@, "-j"@), true);
    (o, offscreen(reported(outcome, "monitors"@), width))
}

fn hidden_position(o: &mut Outside, width: i64) -> (r: Result<[i64; 2], String>)
    ensures
        match r {
            Ok(at) => (final(o)@, Ok::<[i64; 2], Seq<char>>(at)) == hidden(old(o)@, width),
            Err(e) => (final(o)@, Err::<[i64; 2], Seq<char>>(e@)) == hidden(old(o)@, width),
        },
{
    proof {
        reveal(hidden);
    }
    let monitors = match report(o, "monitors") {
        Err(e) => return Err(e),
        Ok(monitors) => monitors,
    };
    let list = match json::items(&monitors) {
        None => return Err(text::of("Hyprland reported no monitors")),
        Some(list) => list,
    };
    let ghost all = list.deep_view();
    let ghost after = o@;
    let mut left: Option<i64> = None;
    let mut i: usize = 0;
    assert(all.take(0) =~= Seq::empty());
    while i < list.len()
        invariant
            i <= list.len(),
            all == list.deep_view(),
            left == leftmost(all.take(i as int)),
        decreases list.len() - i,
    {
        assert(all.take(i + 1).drop_last() =~= all.take(i as int));
        assert(all.take(i + 1).last() == list[i as int]@);
        left =
        match (left, integer_field(&list[i], "x")) {
            (Some(a), Some(b)) => Some(
                if b < a {
                    b
                } else {
                    a
                },
            ),
            (Some(a), None) => Some(a),
            (None, b) => b,
        };
        i = i + 1;
    }
    assert(all.take(i as int) =~= all);
    match left {
        None => Err(text::of("Hyprland reported no monitors")),
        Some(left) => Ok([subtract(subtract(left, width), 1), 0]),
    }
}

/// Where a preview that has not appeared yet is out of sight.
pub fn initial_hidden_position(o: &mut Outside) -> (r: Result<[i64; 2], String>)
    ensures
        match r {
            Ok(at) => (final(o)@, Ok::<[i64; 2], Seq<char>>(at)) == hidden(
                old(o)@,
                PREVIEW_WIDTH as i64,
            ),
            Err(e) => (final(o)@, Err::<[i64; 2], Seq<char>>(e@)) == hidden(
                old(o)@,
                PREVIEW_WIDTH as i64,
            ),
        },
{
    hidden_position(o, PREVIEW_WIDTH as i64)
}

/// How wide a window is.
pub open spec fn width_of(client: Seq<char>) -> Option<i64> {
    match field_items(client, "size"@) {
        Some(size) => if size.len() > 0 {
            json_integer(size[0])
        } else {
            None
        },
        None => None,
    }
}

/// Moving the preview wholly left of every monitor.
#[verifier::opaque]
pub open spec fn hiding(o: OutsideView) -> (OutsideView, Result<(), Seq<char>>) {
    let (o, client) = window(o);
    match client {
        Err(e) => (o, Err(e)),
        Ok(client) => match width_of(client) {
            None => (o, Err("Hyprland reported no preview width"@)),
            Some(width) => {
                let (o, at) = hidden(o, width);
                match at {
                    Err(e) => (o, Err(e)),
                    Ok(at) => commanded(o, "dispatch"@, move_text(PREVIEW_SELECTOR@, at)),
                }
            },
        },
    }
}

pub fn hide_preview(o: &mut Outside) -> (r: Result<(), String>)
    ensures
        (final(o)@, shown(r)) == hiding(old(o)@),
{
    proof {
        reveal(hiding);
    }
    let client = match preview_client(o) {
        Err(e) => return Err(e),
        Ok(client) => client,
    };
    let width: Option<i64> = match items_field(&client, "size") {
        Some(size) => if size.len() > 0 {
            assert(size.deep_view()[0] == size[0]@);
            json::integer(&size[0])
        } else {
            None
        },
        None => None,
    };
    match width {
        None => Err(text::of("Hyprland reported no preview width")),
        Some(width) => match hidden_position(o, width) {
            Err(e) => Err(e),
            Ok(at) => move_preview(o, at),
        },
    }
}

// ---------------------------------------------------------------------------
// Launching

/// The width and height that a size names.
pub open spec fn dimensions(size: Seq<char>) -> Option<(nat, nat)> {
    match halves(size, "x"@) {
        None => None,
        Some((w, h)) => match (
            parsed_unsigned(w, u32::MAX as nat),
            parsed_unsigned(h, u32::MAX as nat),
        ) {
            (Some(width), Some(height)) => if width > 0 {
                Some((width, height))
            } else {
                None
            },
            _ => None,
        },
    }
}

/// The height of the preview's window, for a frame of a shape.
pub open spec fn window_height(width: nat, height: nat) -> nat {
    let scaled = PREVIEW_WIDTH as nat * height / width;
    if scaled >= 1 {
        scaled
    } else {
        1
    }
}

/// What scrcpy is launched with. Control is always off, or its window forwards
/// input to the phone.
pub open spec fn launch_command(
    serial: Seq<char>,
    node: Seq<char>,
    settings: CameraSettingsView,
    height: nat,
) -> Seq<Seq<char>> {
    let argv = seq![
        "scrcpy"@,
        "-s"@,
        serial,
        "--video-source=camera"@,
        "--camera-id="@ + settings.lens,
        "--camera-size="@ + settings.resolution,
        "--camera-fps="@ + decimal(settings.frame_rate as nat),
        "--camera-zoom="@ + settings.zoom.text,
        "--v4l2-sink="@ + node,
        "--no-audio"@,
        "--no-control"@,
        "--window-title="@ + PREVIEW_TITLE@,
        "--window-width="@ + decimal(PREVIEW_WIDTH as nat),
        "--window-height="@ + decimal(height),
    ];
    match pixels(settings) {
        None => argv,
        Some((w, h, x, y)) => argv.push(
            "--crop="@ + decimal(w as nat) + ":"@ + decimal(h as nat) + ":"@ + decimal(x as nat)
                + ":"@ + decimal(y as nat),
        ),
    }
}

fn launch_words(serial: &str, node: &str, settings: &CameraSettings, height: u64) -> (r: Vec<
    String,
>)
    ensures
        r.deep_view() == launch_command(serial@, node@, settings@, height as nat),
{
    let mut argv = vec![
        text::of("scrcpy"),
        text::of("-s"),
        text::of(serial),
        text::of("--video-source=camera"),
        text::of("--camera-id=").concat(&settings.lens),
        text::of("--camera-size=").concat(&settings.resolution),
        text::of("--camera-fps=").concat(&text::number(settings.frame_rate as u64)),
        text::of("--camera-zoom=").concat(&settings.zoom.text),
        text::of("--v4l2-sink=").concat(node),
        text::of("--no-audio"),
        text::of("--no-control"),
        text::of("--window-title=").concat(PREVIEW_TITLE),
        text::of("--window-width=").concat(&text::number(PREVIEW_WIDTH as u64)),
        text::of("--window-height=").concat(&text::number(height)),
    ];
    let ghost words = argv.deep_view();
    assert(words =~= seq![
        "scrcpy"@,
        "-s"@,
        serial@,
        "--video-source=camera"@,
        "--camera-id="@ + settings@.lens,
        "--camera-size="@ + settings@.resolution,
        "--camera-fps="@ + decimal(settings@.frame_rate as nat),
        "--camera-zoom="@ + settings@.zoom.text,
        "--v4l2-sink="@ + node@,
        "--no-audio"@,
        "--no-control"@,
        "--window-title="@ + PREVIEW_TITLE@,
        "--window-width="@ + decimal(PREVIEW_WIDTH as nat),
        "--window-height="@ + decimal(height as nat),
    ]);
    match settings::crop_pixels(settings) {
        None => {},
        Some((w, h, x, y)) => {
            let crop = text::of("--crop=").concat(&text::number(w as u64)).concat(":").concat(
                &text::number(h as u64),
            ).concat(":").concat(&text::number(x as u64)).concat(":").concat(
                &text::number(y as u64),
            );
            argv.push(crop);
            assert(argv.deep_view() =~= words.push(crop@));
        },
    }
    argv
}

/// How many answers are left.
pub open spec fn left(o: OutsideView) -> nat {
    if o.used < o.answers.len() {
        (o.answers.len() - o.used) as nat
    } else {
        0
    }
}

pub open spec fn failure(message: Seq<char>) -> FailureView {
    FailureView { not_found: false, message }
}

/// What became of the tool that was launched last.
pub open spec fn polled(o: OutsideView) -> (OutsideView, WriterView) {
    let (o, answer) = o.ask(ActView::Poll);
    (
        o,
        match answer {
            AnswerView::Polled { writer } => writer,
            _ => WriterView::Lost { error: Seq::empty() },
        },
    )
}

pub fn poll(o: &mut Outside) -> (r: Writer)
    ensures
        (final(o)@, r@) == polled(old(o)@),
{
    match o.ask(Act::Poll) {
        Answer::Polled { writer } => writer,
        _ => Writer::Lost { error: String::new() },
    }
}

/// Sleeping, unless the deadline has passed.
pub open spec fn paused(o: OutsideView, ms: u64) -> (OutsideView, bool) {
    let (o, answer) = o.ask(ActView::Pause { ms });
    (
        o,
        match answer {
            AnswerView::Paused { expired } => expired,
            _ => true,
        },
    )
}

fn pause(o: &mut Outside, ms: u64) -> (r: bool)
    ensures
        (final(o)@, r) == paused(old(o)@, ms),
{
    match o.ask(Act::Pause { ms }) {
        Answer::Paused { expired } => expired,
        _ => true,
    }
}

pub open spec fn kill(o: OutsideView) -> OutsideView {
    o.tell(ActView::Kill)
}

/// Waiting until scrcpy feeds frames. Launching only proves that the tool
/// existed; the node becoming one to capture from is the point at which
/// applications can use it.
pub open spec fn attended(o: OutsideView, node: Seq<char>) -> (
    OutsideView,
    Result<(), FailureView>,
)
    decreases left(o),
{
    let (o1, writer) = polled(o);
    match writer {
        WriterView::Exited { status } => (
            o1,
            Err(failure("scrcpy exited during startup with "@ + status)),
        ),
        WriterView::Lost { error } => (kill(o1), Err(failure(error))),
        WriterView::Running => {
            let (o2, capture) = feeding(o1, node);
            match capture {
                Err(f) => (kill(o2), Err(f)),
                Ok(true) => (o2, Ok(())),
                Ok(false) => {
                    let (o3, expired) = paused(o2, 25);
                    if expired {
                        (
                            kill(o3),
                            Err(
                                failure(
                                    "scrcpy did not make "@ + node + " capture-capable within "@
                                        + decimal(o.startup_ms as nat) + "ms"@,
                                ),
                            ),
                        )
                    } else if left(o3) < left(o) {
                        attended(o3, node)
                    } else {
                        (o3, Err(failure(Seq::empty())))
                    }
                },
            }
        },
    }
}

fn attend(o: &mut Outside, node: &str) -> (r: Result<(), Failure>)
    ensures
        (final(o)@, shown(r)) == attended(old(o)@, node@),
{
    loop
        invariant
            attended(o@, node@) == attended(old(o)@, node@),
        decreases left(o@),
    {
        let ghost before = o@;
        match poll(o) {
            Writer::Exited { status } => {
                return Err(
                    Failure {
                        not_found: false,
                        message: text::of("scrcpy exited during startup with ").concat(&status),
                    },
                );
            },
            Writer::Lost { error } => {
                o.tell(Act::Kill);
                return Err(Failure { not_found: false, message: error });
            },
            Writer::Running => {},
        }
        match node_is_capture(o, node) {
            Err(f) => {
                o.tell(Act::Kill);
                return Err(f);
            },
            Ok(true) => return Ok(()),
            Ok(false) => {},
        }
        if pause(o, 25) {
            proof {
                reveal(feeding);
            }
            o.tell(Act::Kill);
            return Err(
                Failure {
                    not_found: false,
                    message: text::of("scrcpy did not make ").concat(node).concat(
                        " capture-capable within ",
                    ).concat(&text::number(o.startup_ms)).concat("ms"),
                },
            );
        }
        proof {
            lemma_answers_pass(before);
            lemma_answers_pass(polled(before).0);
            lemma_answers_pass(feeding(polled(before).0, node@).0);
        }
    }
}

/// An answer that was given is one answer fewer.
proof fn lemma_answers_pass(o: OutsideView)
    ensures
        polled(o).1 !is Lost ==> left(polled(o).0) < left(o),
        forall|node: Seq<char>|
            left((#[trigger] feeding(o, node)).0) <= left(o),
        forall|ms: u64| left((#[trigger] paused(o, ms)).0) <= left(o),
{
    reveal(feeding);
}

/// Waiting until the preview's window has appeared.
pub open spec fn appeared(o: OutsideView) -> (OutsideView, Result<(), Seq<char>>)
    decreases left(o),
{
    let (o1, client) = window(o);
    match client {
        Ok(_) => (o1, Ok(())),
        Err(e) => {
            let (o2, expired) = paused(o1, 50);
            if expired {
                (
                    o2,
                    Err(
                        "preview window did not appear within "@ + decimal(o.preview_ms as nat)
                            + "ms: "@ + e,
                    ),
                )
            } else if left(o2) < left(o) {
                appeared(o2)
            } else {
                (o2, Err(Seq::empty()))
            }
        },
    }
}

fn wait_for_preview(o: &mut Outside) -> (r: Result<(), String>)
    ensures
        (final(o)@, shown(r)) == appeared(old(o)@),
{
    loop
        invariant
            appeared(o@) == appeared(old(o)@),
        decreases left(o@),
    {
        proof {
            reveal(window);
        }
        match preview_client(o) {
            Ok(_) => return Ok(()),
            Err(e) => {
                if pause(o, 50) {
                    return Err(
                        text::of("preview window did not appear within ").concat(
                            &text::number(o.preview_ms),
                        ).concat("ms: ").concat(&e),
                    );
                }
            },
        }
    }
}

/// Launching the one process that writes the virtual camera and draws its own
/// preview. Nothing is left running where it fails.
#[verifier::opaque]
pub open spec fn spawned(
    o: OutsideView,
    serial: Seq<char>,
    node: Seq<char>,
    settings: CameraSettingsView,
) -> (OutsideView, Result<u32, FailureView>) {
    let (o, busy) = feeding(o, node);
    match (busy, dimensions(frame_size(settings))) {
        (Err(f), _) => (o, Err(f)),
        (Ok(true), _) => (o, Err(failure(node + " already has a producer"@))),
        (_, None) => (o, Err(failure("invalid output size "@ + frame_size(settings)))),
        (_, Some((width, height))) => {
            let argv = launch_command(serial, node, settings, window_height(width, height));
            let (o, answer) = o.ask(ActView::Launch { argv });
            match answer {
                AnswerView::Launched { pid } => {
                    let o = o.tell(ActView::Deadline { ms: o.startup_ms });
                    let (o, attended) = attended(o, node);
                    match attended {
                        Err(f) => (o, Err(f)),
                        Ok(()) => {
                            let o = o.tell(ActView::Deadline { ms: o.preview_ms });
                            let (o, appeared) = appeared(o);
                            match appeared {
                                Err(e) => (kill(o), Err(failure(e))),
                                Ok(()) => (o, Ok(pid)),
                            }
                        },
                    }
                },
                AnswerView::NotLaunched { missing, error } => (
                    o,
                    Err(FailureView { not_found: missing, message: error }),
                ),
                _ => (o, Err(failure(Seq::empty()))),
            }
        },
    }
}

/// Launches scrcpy and waits until it feeds frames and its window is there.
pub fn spawn(o: &mut Outside, serial: &str, node: &str, settings: &CameraSettings) -> (r: Result<
    u32,
    Failure,
>)
    ensures
        (final(o)@, shown(r)) == spawned(old(o)@, serial@, node@, settings@),
{
    proof {
        reveal(spawned);
    }
    match node_is_capture(o, node) {
        Err(f) => return Err(f),
        Ok(true) => return Err(
            Failure {
                not_found: false,
                message: text::of(node).concat(" already has a producer"),
            },
        ),
        Ok(false) => {},
    }
    let size = settings::output_size(settings);
    let dimensions: Option<(u64, u64)> = match text::split_once(&size, "x") {
        None => None,
        Some((w, h)) => {
            let width = text::parse_unsigned(&w, u32::MAX as u64);
            let height = text::parse_unsigned(&h, u32::MAX as u64);
            match (width, height) {
                (Some(width), Some(height)) => {
                    if width > 0 {
                        Some((width, height))
                    } else {
                        None
                    }
                },
                _ => None,
            }
        },
    };
    let (width, height) = match dimensions {
        None => return Err(
            Failure {
                not_found: false,
                message: text::of("invalid output size ").concat(&size),
            },
        ),
        Some(size) => size,
    };
    let scaled: u64 = PREVIEW_WIDTH as u64 * height / width;
    let tall: u64 = if scaled >= 1 {
        scaled
    } else {
        1
    };
    let argv = launch_words(serial, node, settings, tall);
    match o.ask(Act::Launch { argv }) {
        Answer::Launched { pid } => {
            o.tell(Act::Deadline { ms: o.startup_ms });
            match attend(o, node) {
                Err(f) => Err(f),
                Ok(()) => {
                    o.tell(Act::Deadline { ms: o.preview_ms });
                    match wait_for_preview(o) {
                        Err(e) => {
                            o.tell(Act::Kill);
                            Err(Failure { not_found: false, message: e })
                        },
                        Ok(()) => Ok(pid),
                    }
                },
            }
        },
        Answer::NotLaunched { missing, error } => Err(
            Failure { not_found: missing, message: error },
        ),
        _ => Err(Failure { not_found: false, message: String::new() }),
    }
}

// ---------------------------------------------------------------------------
// Who else has the node open

/// Whether a process is one to look at: a process at all, and not the writer.
pub open spec fn suspect(name: Seq<char>, writer: u32) -> bool {
    parsed_unsigned(name, u32::MAX as nat) matches Some(pid) && pid != writer
}

/// Whether a part of a path names something: it is neither empty nor a dot.
pub open spec fn names() -> spec_fn(Seq<char>) -> bool {
    |part: Seq<char>| part != ""@ && part != "."@
}

/// What a path is made of: whether it begins at the root, whether it begins at
/// a dot, and the names along it. Repeated and trailing slashes and dots
/// further on make no difference.
pub open spec fn components(path: Seq<char>) -> (bool, bool, Seq<Seq<char>>) {
    (begins(path, "/"@), pieces(path, '/').first() == "."@, kept(pieces(path, '/'), names()))
}

/// Whether an open file is the node: paths are compared by their components.
pub open spec fn is_node(fd: FdView, node: Seq<char>) -> bool {
    fd matches FdView::Target { path } && components(path) == components(node)
}

pub open spec fn reads(fds: Seq<FdView>, node: Seq<char>) -> bool {
    exists|i: int| 0 <= i < fds.len() && is_node(#[trigger] fds[i], node)
}

/// Whether a process other than the writer has the node open.
pub open spec fn consumes(process: ProcessView, node: Seq<char>, writer: u32) -> bool {
    match process {
        ProcessView::Entry { name, fds: FdsView::Listed { fds } } => suspect(name, writer) && reads(
            fds,
            node,
        ),
        _ => false,
    }
}

/// Whether a process may have the node open unseen.
pub open spec fn hides(process: ProcessView, writer: u32) -> bool {
    match process {
        ProcessView::Gone => false,
        ProcessView::Opaque => true,
        ProcessView::Entry { name, fds } => suspect(name, writer) && match fds {
            FdsView::Gone => false,
            FdsView::Opaque => true,
            FdsView::Listed { fds } => fds.contains(FdView::Opaque),
        },
    }
}

pub open spec fn some_consumes(processes: Seq<ProcessView>, node: Seq<char>, writer: u32) -> bool {
    exists|i: int| 0 <= i < processes.len() && consumes(#[trigger] processes[i], node, writer)
}

pub open spec fn some_hides(processes: Seq<ProcessView>, writer: u32) -> bool {
    exists|i: int| 0 <= i < processes.len() && hides(#[trigger] processes[i], writer)
}

fn is_suspect(name: &str, writer: u32) -> (r: bool)
    ensures
        r == suspect(name@, writer),
{
    match text::parse_unsigned(name, u32::MAX as u64) {
        Some(pid) => pid != writer as u64,
        None => false,
    }
}

/// The components of a path.
fn taken_apart(path: &str) -> (r: (bool, bool, Vec<String>))
    ensures
        r.deep_view() == components(path@),
{
    let parts = text::split(path, '/');
    let ghost all = parts.deep_view();
    let mut r: Vec<String> = Vec::new();
    let mut i: usize = 0;
    assert(r.deep_view() =~= Seq::empty());
    assert(all.take(0) =~= Seq::empty());
    while i < parts.len()
        invariant
            i <= parts.len(),
            all == parts.deep_view(),
            r.deep_view() == kept(all.take(i as int), names()),
        decreases parts.len() - i,
    {
        proof {
            assert(all.take(i + 1) =~= all.take(i as int).push(all[i as int]));
            lemma_kept_push(all.take(i as int), all[i as int], names());
        }
        if !text::same(&parts[i], "") && !text::same(&parts[i], ".") {
            let ghost sofar = r.deep_view();
            let part = parts[i].copy();
            r.push(part);
            assert(r.deep_view() =~= sofar.push(part@));
        }
        i = i + 1;
    }
    assert(all.take(i as int) =~= all);
    let dot = parts.len() > 0 && text::same(&parts[0], ".");
    (text::starts_with(path, "/"), dot, r)
}

/// Whether the node is among some open files, and whether any is hidden.
fn look(fds: &Vec<Fd>, node: &str) -> (r: (bool, bool))
    ensures
        r.0 == reads(fds.deep_view(), node@),
        r.1 == fds.deep_view().contains(FdView::Opaque),
{
    let ghost all = fds.deep_view();
    let own = taken_apart(node);
    let mut open = false;
    let mut opaque = false;
    let mut i: usize = 0;
    while i < fds.len()
        invariant
            i <= fds.len(),
            all == fds.deep_view(),
            open == exists|j: int| 0 <= j < i && is_node(#[trigger] all[j], node@),
            own.deep_view() == components(node@),
            opaque == exists|j: int| 0 <= j < i && #[trigger] all[j] == FdView::Opaque,
        decreases fds.len() - i,
    {
        let fd = &fds[i];
        assert(all[i as int] == fd@);
        match fd {
            Fd::Gone => {},
            Fd::Opaque => {
                opaque = true;
            },
            Fd::Target { path } => {
                let parts = taken_apart(path);
                if parts.0 == own.0 && parts.1 == own.1 && parts.2.same(&own.2) {
                    open = true;
                }
            },
        }
        i = i + 1;
    }
    (open, opaque)
}

fn survey(processes: &Vec<Process>, node: &str, writer: u32) -> (r: (bool, bool))
    ensures
        r.0 == some_consumes(processes.deep_view(), node@, writer),
        r.1 == some_hides(processes.deep_view(), writer),
{
    let ghost all = processes.deep_view();
    let mut open = false;
    let mut opaque = false;
    let mut i: usize = 0;
    while i < processes.len()
        invariant
            i <= processes.len(),
            all == processes.deep_view(),
            open == exists|j: int| 0 <= j < i && consumes(#[trigger] all[j], node@, writer),
            opaque == exists|j: int| 0 <= j < i && hides(#[trigger] all[j], writer),
        decreases processes.len() - i,
    {
        let process = &processes[i];
        assert(all[i as int] == process@);
        match process {
            Process::Gone => {},
            Process::Opaque => {
                opaque = true;
            },
            Process::Entry { name, fds } => {
                if is_suspect(name, writer) {
                    match fds {
                        Fds::Gone => {},
                        Fds::Opaque => {
                            opaque = true;
                        },
                        Fds::Listed { fds } => {
                            let (seen, hidden) = look(fds, node);
                            if seen {
                                open = true;
                            }
                            if hidden {
                                opaque = true;
                            }
                        },
                    }
                }
            },
        }
        i = i + 1;
    }
    (open, opaque)
}

pub open spec fn stream_command(node: Seq<char>) -> Seq<Seq<char>> {
    seq![
        "v4l2-ctl"@,
        "-d"@,
        node,
        "--stream-mmap"@,
        "--stream-count=1"@,
        "--stream-poll"@,
    ]
}

/// What a second reader's attempt shows: the node is free, or in use, or it
/// cannot be told. What cannot be told is never free.
pub open spec fn stream_verdict(outcome: OutcomeView, node: Seq<char>) -> Result<bool, Seq<char>> {
    match outcome {
        OutcomeView::Failed { error, .. } => Err(error),
        OutcomeView::Exited { success, status, stderr, .. } => {
            let words = lossy_text(stderr);
            if success {
                Ok(false)
            } else if holds(words, "Device or resource busy"@) {
                Ok(true)
            } else {
                Err(
                    "could not inspect "@ + node + "'s consumers: v4l2-ctl stream probe failed ("@
                        + status + ")"@ + (if trimmed(words).len() == 0 {
                        Seq::empty()
                    } else {
                        ": "@ + trimmed(words)
                    }),
                )
            }
        },
    }
}

/// Whether another process has the virtual camera open. scrcpy itself is the
/// writer and does not count; any other is an application that has pinned the
/// frame size. Where a process hides what it has open, the device is asked.
#[verifier::opaque]
pub open spec fn consumed(o: OutsideView, node: Seq<char>, writer: u32) -> (
    OutsideView,
    Result<bool, Seq<char>>,
) {
    let (o, answer) = o.ask(ActView::Processes);
    match answer {
        AnswerView::Processes { processes } => if some_consumes(processes, node, writer) {
            (o, Ok(true))
        } else if !some_hides(processes, writer) {
            (o, Ok(false))
        } else {
            let (o, outcome) = o.run(stream_command(node), true);
            (o, stream_verdict(outcome, node))
        },
        AnswerView::Failed { error } => (o, Err(error)),
        _ => (o, Err(Seq::empty())),
    }
}

pub fn has_consumer(o: &mut Outside, node: &str, writer_pid: u32) -> (r: Result<bool, String>)
    ensures
        (final(o)@, shown(r)) == consumed(old(o)@, node@, writer_pid),
{
    proof {
        reveal(consumed);
    }
    match o.ask(Act::Processes) {
        Answer::Processes { processes } => {
            let (open, opaque) = survey(&processes, node, writer_pid);
            if open {
                return Ok(true);
            }
            if !opaque {
                return Ok(false);
            }
            let argv = vec![
                text::of("v4l2-ctl"),
                text::of("-d"),
                text::of(node),
                text::of("--stream-mmap"),
                text::of("--stream-count=1"),
                text::of("--stream-poll"),
            ];
            assert(argv.deep_view() =~= stream_command(node@));
            match o.run(argv, true) {
                Outcome::Failed { error, .. } => Err(error),
                Outcome::Exited { success, status, stderr, .. } => {
                    let words = text::decoded(&stderr);
                    if success {
                        return Ok(false);
                    }
                    if text::contains(&words, "Device or resource busy") {
                        return Ok(true);
                    }
                    let said = text::trim(&words);
                    let detail = if text::chars(&said).len() == 0 {
                        String::new()
                    } else {
                        text::of(": ").concat(&said)
                    };
                    Err(
                        text::of("could not inspect ").concat(node).concat(
                            "'s consumers: v4l2-ctl stream probe failed (",
                        ).concat(&status).concat(")").concat(&detail),
                    )
                },
            }
        },
        Answer::Failed { error } => Err(error),
        _ => Err(String::new()),
    }
}

/// Where the kernel lists video devices, given what `OMAVCAM_V4L2_DIR` says.
pub fn v4l2_dir(told: &Option<String>) -> (r: String)
    ensures
        r@ == (match told.deep_view() {
            Some(directory) => directory,
            None => "/sys/class/video4linux"@,
        }),
{
    match told {
        Some(directory) => directory.copy(),
        None => text::of("/sys/class/video4linux"),
    }
}

/// Where the kernel lists processes, given what `OMAVCAM_PROC_DIR` says.
pub fn proc_dir(told: &Option<String>) -> (r: String)
    ensures
        r@ == (match told.deep_view() {
            Some(directory) => directory,
            None => "/proc"@,
        }),
{
    match told {
        Some(directory) => directory.copy(),
        None => text::of("/proc"),
    }
}

// ---------------------------------------------------------------------------
// Laws

/// A reader that can be seen is never missed, whatever else hides: the node
/// is then in use.
pub proof fn a_visible_reader_is_never_missed(
    o: OutsideView,
    node: Seq<char>,
    writer: u32,
    processes: Seq<ProcessView>,
)
    requires
        o.ask(ActView::Processes).1 == (AnswerView::Processes { processes }),
        some_consumes(processes, node, writer),
    ensures
        consumed(o, node, writer).1 == Ok::<bool, Seq<char>>(true),
{
    reveal(consumed);
}

/// The node is called free only where every process could be looked at, or
/// where a second reader did get a frame.
pub proof fn uncertainty_is_never_free(o: OutsideView, node: Seq<char>, writer: u32)
    ensures
        consumed(o, node, writer).1 == Ok::<bool, Seq<char>>(false) ==> {
            let (o2, answer) = o.ask(ActView::Processes);
            answer matches AnswerView::Processes { processes } && !some_consumes(
                processes,
                node,
                writer,
            ) && (!some_hides(processes, writer) || crate::outside::succeeded(
                o2.run(stream_command(node), true).1,
            ))
        },
{
    reveal(consumed);
}

proof fn lemma_leftmost(monitors: Seq<Seq<char>>, i: int)
    requires
        0 <= i < monitors.len(),
    ensures
        field_integer(monitors[i], "x"@) matches Some(x) ==> leftmost(monitors) matches Some(l)
            && l <= x,
    decreases monitors.len(),
{
    if i < monitors.len() - 1 {
        lemma_leftmost(monitors.drop_last(), i);
    }
}

/// A hidden window ends left of where every monitor begins.
pub proof fn a_hidden_window_is_on_no_monitor(
    monitors: Seq<char>,
    width: i64,
    list: Seq<Seq<char>>,
    i: int,
)
    requires
        json_items(monitors) == Some(list),
        0 <= i < list.len(),
        0 <= width,
        leftmost(list) matches Some(left) && left - width - 1 >= i64::MIN,
    ensures
        offscreen(Ok(monitors), width) matches Ok(at) && (field_integer(list[i], "x"@) matches Some(
            x,
        ) ==> at[0] + width < x),
{
    lemma_leftmost(list, i);
}

/// scrcpy is only ever launched for the named phone and without control.
pub proof fn launches_are_targeted_and_without_control(
    serial: Seq<char>,
    node: Seq<char>,
    settings: CameraSettingsView,
    height: nat,
)
    ensures
        launch_command(serial, node, settings, height)[0] == "scrcpy"@,
        launch_command(serial, node, settings, height)[1] == "-s"@,
        launch_command(serial, node, settings, height)[2] == serial,
        launch_command(serial, node, settings, height)[10] == "--no-control"@,
        launch_command(serial, node, settings, height)[8] == "--v4l2-sink="@ + node,
{
}

/// Whether no underscore stands at an edge or between an `o` and an `f`.
spec fn avoids_no_focus(s: Seq<char>) -> bool {
    forall|i: int|
        0 <= i < s.len() && #[trigger] s[i] == '_' ==> 0 < i < s.len() - 1 && !(s[i - 1] == 'o'
            && s[i + 1] == 'f')
}

proof fn lemma_avoiding_is_joined(a: Seq<char>, b: Seq<char>)
    requires
        avoids_no_focus(a),
        avoids_no_focus(b),
    ensures
        avoids_no_focus(a + b),
{
    let s = a + b;
    assert forall|i: int| 0 <= i < s.len() && #[trigger] s[i] == '_' implies 0 < i < s.len() - 1
        && !(s[i - 1] == 'o' && s[i + 1] == 'f') by {
        if i < a.len() {
            assert(a[i] == '_');
        } else {
            assert(b[i - a.len()] == '_');
        }
    }
}

proof fn lemma_avoiding_is_enough(s: Seq<char>)
    requires
        avoids_no_focus(s),
    ensures
        !holds(s, "no_focus"@),
{
    reveal_strlit("no_focus");
    text::lemma_position(s, "no_focus"@);
    if let Some(i) = text::position(s, "no_focus"@) {
        let there = s.subrange(i, i + 8);
        assert(there[1] == s[i + 1] && there[2] == s[i + 2] && there[3] == s[i + 3]);
    }
}

/// The underscores among the first `n` characters.
spec fn avoids_up_to(s: Seq<char>, n: nat) -> bool
    decreases n,
{
    n == 0 || {
        &&& avoids_up_to(s, (n - 1) as nat)
        &&& s[n - 1] == '_' ==> 1 < n < s.len() && !(s[n - 2] == 'o' && s[n as int] == 'f')
    }
}

proof fn lemma_avoids_up_to(s: Seq<char>, n: nat)
    requires
        avoids_up_to(s, n),
        n <= s.len(),
    ensures
        forall|i: int|
            0 <= i < n && #[trigger] s[i] == '_' ==> 0 < i < s.len() - 1 && !(s[i - 1] == 'o'
                && s[i + 1] == 'f'),
    decreases n,
{
    if n > 0 {
        lemma_avoids_up_to(s, (n - 1) as nat);
    }
}

proof fn lemma_window_avoids()
    ensures
        avoids_no_focus(PREVIEW_RULE@),
{
    reveal_strlit(
        "o.window({ title = \"^(omavcam preview)$\" }, { name = \"omavcam-preview\", float = true, pin = true, no_dim = true, no_initial_focus = true, keep_aspect_ratio = true, ",
    );
    reveal_with_fuel(avoids_up_to, 42);
    let s = PREVIEW_RULE@;
    assert(s.len() == 164);
    assert(avoids_up_to(s, 41));
    assert(avoids_up_to(s, 82));
    assert(avoids_up_to(s, 123));
    assert(avoids_up_to(s, 164));
    lemma_avoids_up_to(s, 164);
}

proof fn lemma_style_avoids(rounding: u64, border_size: u64)
    ensures
        avoids_no_focus(styled(rounding, border_size)),
{
    reveal_strlit("rounding = ");
    reveal_strlit(", border_size = ");
    reveal_strlit(", opacity = \"1 1\", tag = \"-default-opacity\" })");
    text::lemma_decimal(rounding as nat);
    text::lemma_decimal(border_size as nat);
    lemma_avoiding_is_joined("rounding = "@, decimal(rounding as nat));
    let s = "rounding = "@ + decimal(rounding as nat);
    lemma_avoiding_is_joined(s, ", border_size = "@);
    let s = s + ", border_size = "@;
    lemma_avoiding_is_joined(s, decimal(border_size as nat));
    lemma_avoiding_is_joined(s + decimal(border_size as nat), RULE_END@);
}

proof fn lemma_placement_avoids(position: Option<[i64; 2]>)
    ensures
        avoids_no_focus(placement(position)),
{
    reveal_strlit("center = true");
    reveal_strlit("move = { ");
    reveal_strlit(", ");
    reveal_strlit(" }");
    if let Some(at) = position {
        let x = signed_decimal(at[0] as int);
        let y = signed_decimal(at[1] as int);
        text::lemma_decimal((if at[0] < 0 { -at[0] } else { at[0] as int }) as nat);
        text::lemma_decimal((if at[1] < 0 { -at[1] } else { at[1] as int }) as nat);
        lemma_avoiding_is_joined("move = { "@, x);
        lemma_avoiding_is_joined("move = { "@ + x, ", "@);
        lemma_avoiding_is_joined("move = { "@ + x + ", "@, y);
        lemma_avoiding_is_joined("move = { "@ + x + ", "@ + y, " }"@);
    }
}

/// The preview's window can always be picked out and dragged: no rule for it
/// ever sets `no_focus`.
pub proof fn the_preview_stays_in_reach(
    rounding: u64,
    border_size: u64,
    position: Option<[i64; 2]>,
)
    ensures
        !holds(preview_rule(rounding, border_size, position), "no_focus"@),
        !holds(style_rule(rounding, border_size), "no_focus"@),
{
    reveal_strlit(", ");
    reveal_strlit("no_close_for = 2147483647, ");
    lemma_window_avoids();
    lemma_placement_avoids(position);
    lemma_style_avoids(rounding, border_size);
    let s = PREVIEW_RULE@ + placement(position);
    lemma_avoiding_is_joined(PREVIEW_RULE@, placement(position));
    lemma_avoiding_is_joined(s, ", "@);
    lemma_avoiding_is_joined(s + ", "@, CLOSE_GUARD@);
    lemma_avoiding_is_joined(s + ", "@ + CLOSE_GUARD@, styled(rounding, border_size));
    lemma_avoiding_is_enough(preview_rule(rounding, border_size, position));
    lemma_avoiding_is_joined(PREVIEW_RULE@, CLOSE_GUARD@);
    lemma_avoiding_is_joined(PREVIEW_RULE@ + CLOSE_GUARD@, styled(rounding, border_size));
    lemma_avoiding_is_enough(style_rule(rounding, border_size));
}

/// The preview's window never takes the focus when it appears, and every rule
/// for it arms the close guard.
pub proof fn the_preview_neither_steals_focus_nor_closes(
    rounding: u64,
    border_size: u64,
    position: Option<[i64; 2]>,
)
    ensures
        holds(preview_rule(rounding, border_size, position), "no_initial_focus = true"@),
        holds(style_rule(rounding, border_size), "no_initial_focus = true"@),
        holds(preview_rule(rounding, border_size, position), CLOSE_GUARD@),
        holds(style_rule(rounding, border_size), CLOSE_GUARD@),
{
    reveal_strlit(
        "o.window({ title = \"^(omavcam preview)$\" }, { name = \"omavcam-preview\", float = true, pin = true, no_dim = true, no_initial_focus = true, keep_aspect_ratio = true, ",
    );
    reveal_strlit("no_initial_focus = true");
    let words = "no_initial_focus = true"@;
    assert(PREVIEW_RULE@.subrange(113, 136) =~= words);
    let first = preview_rule(rounding, border_size, position);
    assert(first.subrange(113, 136) =~= PREVIEW_RULE@.subrange(113, 136));
    text::lemma_holds(first, words, 113);
    let later = style_rule(rounding, border_size);
    assert(later.subrange(113, 136) =~= PREVIEW_RULE@.subrange(113, 136));
    text::lemma_holds(later, words, 113);
    let at = (PREVIEW_RULE@ + placement(position) + ", "@).len() as int;
    assert(first.subrange(at, at + CLOSE_GUARD@.len()) =~= CLOSE_GUARD@);
    text::lemma_holds(first, CLOSE_GUARD@, at);
    let at = PREVIEW_RULE@.len() as int;
    assert(later.subrange(at, at + CLOSE_GUARD@.len()) =~= CLOSE_GUARD@);
    text::lemma_holds(later, CLOSE_GUARD@, at);
}

/// Whether some words launch scrcpy for a phone, onto a node, with some settings:
/// each of them is said, once and under its own name, and a rectangle only
/// where the lens has one.
pub open spec fn launch_says(
    argv: Seq<Seq<char>>,
    serial: Seq<char>,
    node: Seq<char>,
    settings: CameraSettingsView,
) -> bool {
    &&& argv.len() == (if pixels(settings) is Some {
        15nat
    } else {
        14nat
    })
    &&& argv[0] == "scrcpy"@
    &&& argv[1] == "-s"@
    &&& argv[2] == serial
    &&& argv.contains("--video-source=camera"@)
    &&& argv.contains("--camera-id="@ + settings.lens)
    &&& argv.contains("--camera-size="@ + settings.resolution)
    &&& argv.contains("--camera-fps="@ + decimal(settings.frame_rate as nat))
    &&& argv.contains("--camera-zoom="@ + settings.zoom.text)
    &&& argv.contains("--v4l2-sink="@ + node)
    &&& argv.contains("--no-audio"@)
    &&& argv.contains("--no-control"@)
    &&& argv.contains("--window-title="@ + PREVIEW_TITLE@)
    &&& argv.contains("--window-width="@ + decimal(PREVIEW_WIDTH as nat))
    &&& pixels(settings) matches Some((w, h, x, y)) ==> argv.contains(
        "--crop="@ + decimal(w as nat) + ":"@ + decimal(h as nat) + ":"@ + decimal(x as nat) + ":"@
            + decimal(y as nat),
    )
}

/// scrcpy is told the phone, the lens, the size, the frame rate, the zoom, the
/// rectangle and the node that were asked for.
pub proof fn launches_say_what_was_asked(
    serial: Seq<char>,
    node: Seq<char>,
    settings: CameraSettingsView,
    height: nat,
)
    ensures
        launch_says(launch_command(serial, node, settings, height), serial, node, settings),
        launch_command(serial, node, settings, height).contains(
            "--window-height="@ + decimal(height),
        ),
{
    let argv = launch_command(serial, node, settings, height);
    assert(argv[3] == "--video-source=camera"@);
    assert(argv[4] == "--camera-id="@ + settings.lens);
    assert(argv[5] == "--camera-size="@ + settings.resolution);
    assert(argv[6] == "--camera-fps="@ + decimal(settings.frame_rate as nat));
    assert(argv[7] == "--camera-zoom="@ + settings.zoom.text);
    assert(argv[8] == "--v4l2-sink="@ + node);
    assert(argv[9] == "--no-audio"@);
    assert(argv[10] == "--no-control"@);
    assert(argv[11] == "--window-title="@ + PREVIEW_TITLE@);
    assert(argv[12] == "--window-width="@ + decimal(PREVIEW_WIDTH as nat));
    assert(argv[13] == "--window-height="@ + decimal(height));
    if let Some((w, h, x, y)) = pixels(settings) {
        assert(argv[14] == "--crop="@ + decimal(w as nat) + ":"@ + decimal(h as nat) + ":"@
            + decimal(x as nat) + ":"@ + decimal(y as nat));
    }
}

/// The preview's window has the shape of the frames, to a pixel, and never no
/// height at all.
pub proof fn the_preview_has_the_shape_of_the_frames(width: nat, height: nat)
    requires
        width > 0,
    ensures
        ({
            let tall = window_height(width, height);
            &&& tall >= 1
            &&& PREVIEW_WIDTH * height >= width ==> tall * width <= PREVIEW_WIDTH * height < (tall
                + 1) * width
            &&& PREVIEW_WIDTH * height < width ==> tall == 1
        }),
{
    let n = PREVIEW_WIDTH as nat * height;
    vstd::arithmetic::div_mod::lemma_fundamental_div_mod(n as int, width as int);
    let q = n / width;
    assert(q * width <= n < (q + 1) * width) by (nonlinear_arith)
        requires
            n == width * q + n % width,
            0 <= n % width < width,
    ;
    if n >= width {
        assert(q >= 1) by (nonlinear_arith)
            requires
                n < (q + 1) * width,
                n >= width,
        ;
    } else {
        assert(q == 0) by (nonlinear_arith)
            requires
                q * width <= n,
                n < width,
        ;
    }
}

proof fn lemma_labelled_names(nodes: Seq<NodeView>)
    ensures
        forall|name: Seq<char>| #[trigger]
            labelled_names(nodes).contains(name) <==> exists|i: int|
                0 <= i < nodes.len() && labelled(#[trigger] nodes[i]) && nodes[i].name == name,
        forall|i: int, j: int|
            0 <= i < j < nodes.len() && labelled(#[trigger] nodes[i]) && labelled(
                #[trigger] nodes[j],
            ) ==> labelled_names(nodes).len() >= 2,
        forall|i: int|
            0 <= i < nodes.len() && labelled(#[trigger] nodes[i]) ==> labelled_names(nodes).len()
                >= 1,
        labelled_names(nodes).len() >= 2 ==> exists|i: int, j: int|
            0 <= i < j < nodes.len() && labelled(#[trigger] nodes[i]) && labelled(
                #[trigger] nodes[j],
            ),
        labelled_names(nodes).len() >= 1 ==> exists|i: int|
            0 <= i < nodes.len() && labelled(#[trigger] nodes[i]),
    decreases nodes.len(),
{
    if nodes.len() > 0 {
        let front = nodes.drop_last();
        let before = labelled_names(front);
        let all = labelled_names(nodes);
        lemma_labelled_names(front);
        assert forall|i: int| 0 <= i < front.len() implies nodes[i] == #[trigger] front[i] by {}
        let last = nodes.len() - 1;
        assert(nodes[last] == nodes.last());
        assert forall|name: Seq<char>| #[trigger] all.contains(name) <==> exists|i: int|
            0 <= i < nodes.len() && labelled(#[trigger] nodes[i]) && nodes[i].name == name by {
            if all.contains(name) {
                let k = choose|k: int| 0 <= k < all.len() && all[k] == name;
                if k < before.len() {
                    assert(before[k] == name);
                    assert(before.contains(name));
                    let i = choose|i: int|
                        0 <= i < front.len() && labelled(#[trigger] front[i]) && front[i].name
                            == name;
                    assert(labelled(nodes[i]));
                } else {
                    assert(labelled(nodes[last]) && nodes[last].name == name);
                }
            }
            if exists|i: int|
                0 <= i < nodes.len() && labelled(#[trigger] nodes[i]) && nodes[i].name == name {
                let i = choose|i: int|
                    0 <= i < nodes.len() && labelled(#[trigger] nodes[i]) && nodes[i].name == name;
                if i < last {
                    assert(labelled(front[i]));
                    assert(before.contains(name));
                    let k = choose|k: int| 0 <= k < before.len() && before[k] == name;
                    assert(all[k] == name);
                } else {
                    assert(all[before.len() as int] == name);
                }
            }
        }
        if all.len() >= 2 {
            if before.len() >= 2 {
                let (i, j) = choose|i: int, j: int|
                    0 <= i < j < front.len() && labelled(#[trigger] front[i]) && labelled(
                        #[trigger] front[j],
                    );
                assert(labelled(nodes[i]) && labelled(nodes[j]));
            } else {
                let i = choose|i: int| 0 <= i < front.len() && labelled(#[trigger] front[i]);
                assert(labelled(nodes[i]) && labelled(nodes[last]));
            }
        }
        if all.len() >= 1 {
            if before.len() >= 1 {
                let i = choose|i: int| 0 <= i < front.len() && labelled(#[trigger] front[i]);
                assert(labelled(nodes[i]));
            } else {
                assert(labelled(nodes[last]));
            }
        }
        assert forall|i: int, j: int|
            0 <= i < j < nodes.len() && labelled(#[trigger] nodes[i]) && labelled(
                #[trigger] nodes[j],
            ) implies all.len() >= 2 by {
            assert(labelled(front[i]));
            if j < last {
                assert(labelled(front[j]));
            }
        }
        assert forall|i: int|
            0 <= i < nodes.len() && labelled(#[trigger] nodes[i]) implies all.len() >= 1 by {
            if i < last {
                assert(labelled(front[i]));
            }
        }
    }
}

/// The virtual camera is the one node that carries the label, at its path under
/// `/dev`. No such node, two of them, and nodes that cannot be listed are all
/// refused.
pub proof fn the_camera_is_the_one_labelled_node(listing: ListingView, i: int)
    requires
        0 <= i < listing.nodes.len(),
    ensures
        ({
            let carries = |n: NodeView|
                n.label matches Some(label) && trimmed(label) == "omavcam"@;
            &&& listing.error is Some ==> node_of(listing) is Err
            &&& (forall|j: int|
                0 <= j < listing.nodes.len() ==> !carries(#[trigger] listing.nodes[j])) ==> node_of(
                listing,
            ) is Err
            &&& listing.error is None && carries(listing.nodes[i]) && (forall|j: int|
                0 <= j < listing.nodes.len() && j != i ==> !carries(#[trigger] listing.nodes[j]))
                ==> node_of(listing) == Ok::<Seq<char>, Seq<char>>("/dev/"@ + listing.nodes[i].name)
            &&& (exists|j: int|
                0 <= j < listing.nodes.len() && j != i && carries(#[trigger] listing.nodes[j]))
                && carries(listing.nodes[i]) ==> node_of(listing) is Err
        }),
{
    let nodes = listing.nodes;
    lemma_labelled_names(nodes);
    let names = labelled_names(nodes);
    let key = key_of::<String, ByText>();
    lists::sorting_orders(names, key);
    let carries = |n: NodeView| n.label matches Some(label) && trimmed(label) == "omavcam"@;
    assert forall|j: int| 0 <= j < nodes.len() implies labelled(#[trigger] nodes[j]) == carries(
        nodes[j],
    ) by {}
    if names.len() == 1 {
        broadcast use vstd::seq_lib::group_to_multiset_ensures;

        assert(sorted(names, key).to_multiset().contains(sorted(names, key)[0]));
        assert(names.contains(sorted(names, key)[0]));
    }
}

/// A file can be run exactly where it is a file and somebody may execute it.
pub proof fn files_are_run_by_their_mode(file: Candidate)
    ensures
        runnable(file) <==> file.is_file && file.mode & 0o111 != 0,
{
    let m = file.mode;
    assert((m / 64 % 2 == 1 || m / 8 % 2 == 1 || m % 2 == 1) <==> m & 0o111 != 0) by (bit_vector);
}

/// Whether something is named among what is missing.
pub open spec fn names_missing(missing: Seq<MissingView>, what: Seq<char>) -> bool {
    exists|i: int| 0 <= i < missing.len() && (#[trigger] missing[i]).what == what
}

proof fn lemma_names_missing(a: Seq<MissingView>, b: Seq<MissingView>, what: Seq<char>)
    ensures
        names_missing(a + b, what) <==> names_missing(a, what) || names_missing(b, what),
{
    let s = a + b;
    if names_missing(s, what) {
        let i = choose|i: int| 0 <= i < s.len() && (#[trigger] s[i]).what == what;
        if i < a.len() {
            assert(a[i].what == what);
        } else {
            assert(b[i - a.len()].what == what);
        }
    }
    if names_missing(a, what) {
        let i = choose|i: int| 0 <= i < a.len() && (#[trigger] a[i]).what == what;
        assert(s[i].what == what);
    }
    if names_missing(b, what) {
        let i = choose|i: int| 0 <= i < b.len() && (#[trigger] b[i]).what == what;
        assert(s[a.len() + i].what == what);
    }
}

proof fn lemma_lacked(files: Seq<Candidate>, own: Seq<char>, package: Seq<char>, what: Seq<char>)
    ensures
        names_missing(lacked(files, own, package), what) <==> own == what && !on_path(files),
{
    let s = lacked(files, own, package);
    if !on_path(files) {
        assert(s[0].what == own);
    }
}

/// What is missing is exactly what this machine has not got: a tool of which no
/// file on the path can be run, and the virtual camera where there is no one
/// node for it.
pub proof fn what_is_missing_is_named(equipment: EquipmentView)
    ensures
        ({
            let missing = lacking(equipment);
            let none = |files: Seq<Candidate>|
                forall|i: int| 0 <= i < files.len() ==> !runnable(#[trigger] files[i]);
            &&& names_missing(missing, "adb"@) <==> none(equipment.adb)
            &&& names_missing(missing, "scrcpy"@) <==> none(equipment.scrcpy)
            &&& names_missing(missing, "v4l2-ctl"@) <==> none(equipment.v4l2_ctl)
            &&& names_missing(missing, "hyprctl"@) <==> none(equipment.hyprctl)
            &&& names_missing(missing, "the virtual camera"@) <==> node_of(
                equipment.listing,
            ) is Err
            &&& missing.len() <= 5
        }),
{
    reveal_strlit("adb");
    reveal_strlit("scrcpy");
    reveal_strlit("v4l2-ctl");
    reveal_strlit("hyprctl");
    reveal_strlit("the virtual camera");
    assert("adb"@.len() == 3 && "scrcpy"@.len() == 6 && "v4l2-ctl"@.len() == 8);
    assert("hyprctl"@.len() == 7 && "the virtual camera"@.len() == 18);
    let a = lacked(equipment.adb, "adb"@, "android-tools"@);
    let b = lacked(equipment.scrcpy, "scrcpy"@, "scrcpy"@);
    let c = lacked(equipment.v4l2_ctl, "v4l2-ctl"@, "v4l-utils"@);
    let d = lacked(equipment.hyprctl, "hyprctl"@, "hyprland"@);
    let missing = lacking(equipment);
    let e = missing.skip((a + b + c + d).len() as int);
    assert(missing =~= a + b + c + d + e);
    assert forall|what: Seq<char>| #[trigger] names_missing(e, what) <==> what
        == "the virtual camera"@ && node_of(equipment.listing) is Err by {
        if node_of(equipment.listing) is Err {
            assert(e[0].what == "the virtual camera"@);
        }
    }
    assert forall|what: Seq<char>| #[trigger]
        names_missing(missing, what) <==> names_missing(a, what) || names_missing(b, what)
            || names_missing(c, what) || names_missing(d, what) || names_missing(e, what) by {
        lemma_names_missing(a, b, what);
        lemma_names_missing(a + b, c, what);
        lemma_names_missing(a + b + c, d, what);
        lemma_names_missing(a + b + c + d, e, what);
    }
    assert forall|what: Seq<char>| #[trigger] names_missing(a, what) <==> what == "adb"@ && !on_path(
        equipment.adb,
    ) by {
        lemma_lacked(equipment.adb, "adb"@, "android-tools"@, what);
    }
    assert forall|what: Seq<char>| #[trigger] names_missing(b, what) <==> what == "scrcpy"@
        && !on_path(equipment.scrcpy) by {
        lemma_lacked(equipment.scrcpy, "scrcpy"@, "scrcpy"@, what);
    }
    assert forall|what: Seq<char>| #[trigger] names_missing(c, what) <==> what == "v4l2-ctl"@
        && !on_path(equipment.v4l2_ctl) by {
        lemma_lacked(equipment.v4l2_ctl, "v4l2-ctl"@, "v4l-utils"@, what);
    }
    assert forall|what: Seq<char>| #[trigger] names_missing(d, what) <==> what == "hyprctl"@
        && !on_path(equipment.hyprctl) by {
        lemma_lacked(equipment.hyprctl, "hyprctl"@, "hyprland"@, what);
    }
}

} // verus!
