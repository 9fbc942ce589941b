//! What an operation asks of the outside, and what it was answered.
//!
//! An operation is a function of where it began and of the answers given so
//! far. It is run from its beginning each time another answer has come; the
//! acts that it lists begin with those it listed before. When it asks something
//! that was not answered yet it waits there: nothing it does from then on has
//! an effect. The program around the engine performs each new act once, in
//! order, and hands the answer to the last of them back.

use vstd::prelude::*;

use crate::number::{Number, NumberView};
use crate::phones::{Registry, RegistryView};
use crate::plain::Plain;
use crate::protocol::{State, StateView};
use crate::settings::{CameraSettings, CameraSettingsView, Crop, CropView};

verus! {

impl Plain for u8 {
    fn same(&self, other: &Self) -> bool {
        *self == *other
    }

    fn copy(&self) -> Self {
        *self
    }
}

// ---------------------------------------------------------------------------
// Answers

/// How an external tool ended.
#[derive(Debug)]
pub enum Outcome {
    /// It could not be started or did not finish. `missing` says that there is
    /// no such tool.
    Failed { missing: bool, error: String },
    /// It exited. What it printed is empty where it was not collected.
    Exited { success: bool, status: String, stdout: Vec<u8>, stderr: Vec<u8> },
}

#[verifier::ext_equal]
pub enum OutcomeView {
    Failed { missing: bool, error: Seq<char> },
    Exited { success: bool, status: Seq<char>, stdout: Seq<u8>, stderr: Seq<u8> },
}

impl View for Outcome {
    type V = OutcomeView;

    open spec fn view(&self) -> OutcomeView {
        match self {
            Outcome::Failed { missing, error } => OutcomeView::Failed {
                missing: missing.deep_view(),
                error: error.deep_view(),
            },
            Outcome::Exited { success, status, stdout, stderr } => OutcomeView::Exited {
                success: success.deep_view(),
                status: status.deep_view(),
                stdout: stdout.deep_view(),
                stderr: stderr.deep_view(),
            },
        }
    }
}

impl DeepView for Outcome {
    type V = OutcomeView;

    open spec fn deep_view(&self) -> OutcomeView {
        self@
    }
}

impl Plain for Outcome {
    fn same(&self, other: &Self) -> bool {
        match (self, other) {
            (Outcome::Failed { missing: a0, error: a1 }, Outcome::Failed { missing: b0, error: b1 }) => a0.same(b0)
                && a1.same(b1),
            (Outcome::Exited { success: a0, status: a1, stdout: a2, stderr: a3 }, Outcome::Exited { success: b0, status: b1, stdout: b2, stderr: b3 }) => a0.same(b0)
                && a1.same(b1)
                && a2.same(b2)
                && a3.same(b3),
            _ => false,
        }
    }

    fn copy(&self) -> Self {
        match self {
            Outcome::Failed { missing, error } => Outcome::Failed {
                missing: missing.copy(),
                error: error.copy(),
            },
            Outcome::Exited { success, status, stdout, stderr } => Outcome::Exited {
                success: success.copy(),
                status: status.copy(),
                stdout: stdout.copy(),
                stderr: stderr.copy(),
            },
        }
    }
}

/// One open file of a process.
#[derive(Debug)]
pub enum Fd {
    /// It was closed meanwhile.
    Gone,
    /// It cannot be looked at.
    Opaque,
    Target { path: String },
}

#[verifier::ext_equal]
pub enum FdView {
    Gone,
    Opaque,
    Target { path: Seq<char> },
}

impl View for Fd {
    type V = FdView;

    open spec fn view(&self) -> FdView {
        match self {
            Fd::Gone => FdView::Gone,
            Fd::Opaque => FdView::Opaque,
            Fd::Target { path } => FdView::Target { path: path.deep_view() },
        }
    }
}

impl DeepView for Fd {
    type V = FdView;

    open spec fn deep_view(&self) -> FdView {
        self@
    }
}

impl Plain for Fd {
    fn same(&self, other: &Self) -> bool {
        match (self, other) {
            (Fd::Gone, Fd::Gone) => true,
            (Fd::Opaque, Fd::Opaque) => true,
            (Fd::Target { path: a0 }, Fd::Target { path: b0 }) => a0.same(b0),
            _ => false,
        }
    }

    fn copy(&self) -> Self {
        match self {
            Fd::Gone => Fd::Gone,
            Fd::Opaque => Fd::Opaque,
            Fd::Target { path } => Fd::Target { path: path.copy() },
        }
    }
}

/// The open files of a process.
#[derive(Debug)]
pub enum Fds {
    /// The process ended meanwhile.
    Gone,
    /// They cannot be looked at.
    Opaque,
    Listed { fds: Vec<Fd> },
}

#[verifier::ext_equal]
pub enum FdsView {
    Gone,
    Opaque,
    Listed { fds: Seq<FdView> },
}

impl View for Fds {
    type V = FdsView;

    open spec fn view(&self) -> FdsView {
        match self {
            Fds::Gone => FdsView::Gone,
            Fds::Opaque => FdsView::Opaque,
            Fds::Listed { fds } => FdsView::Listed { fds: fds.deep_view() },
        }
    }
}

impl DeepView for Fds {
    type V = FdsView;

    open spec fn deep_view(&self) -> FdsView {
        self@
    }
}

impl Plain for Fds {
    fn same(&self, other: &Self) -> bool {
        match (self, other) {
            (Fds::Gone, Fds::Gone) => true,
            (Fds::Opaque, Fds::Opaque) => true,
            (Fds::Listed { fds: a0 }, Fds::Listed { fds: b0 }) => a0.same(b0),
            _ => false,
        }
    }

    fn copy(&self) -> Self {
        match self {
            Fds::Gone => Fds::Gone,
            Fds::Opaque => Fds::Opaque,
            Fds::Listed { fds } => Fds::Listed { fds: fds.copy() },
        }
    }
}

/// One entry of the process table.
#[derive(Debug)]
pub enum Process {
    /// It ended meanwhile.
    Gone,
    /// It cannot be looked at.
    Opaque,
    Entry { name: String, fds: Fds },
}

#[verifier::ext_equal]
pub enum ProcessView {
    Gone,
    Opaque,
    Entry { name: Seq<char>, fds: FdsView },
}

impl View for Process {
    type V = ProcessView;

    open spec fn view(&self) -> ProcessView {
        match self {
            Process::Gone => ProcessView::Gone,
            Process::Opaque => ProcessView::Opaque,
            Process::Entry { name, fds } => ProcessView::Entry {
                name: name.deep_view(),
                fds: fds.deep_view(),
            },
        }
    }
}

impl DeepView for Process {
    type V = ProcessView;

    open spec fn deep_view(&self) -> ProcessView {
        self@
    }
}

impl Plain for Process {
    fn same(&self, other: &Self) -> bool {
        match (self, other) {
            (Process::Gone, Process::Gone) => true,
            (Process::Opaque, Process::Opaque) => true,
            (Process::Entry { name: a0, fds: a1 }, Process::Entry { name: b0, fds: b1 }) => a0.same(b0)
                && a1.same(b1),
            _ => false,
        }
    }

    fn copy(&self) -> Self {
        match self {
            Process::Gone => Process::Gone,
            Process::Opaque => Process::Opaque,
            Process::Entry { name, fds } => Process::Entry { name: name.copy(), fds: fds.copy() },
        }
    }
}

/// A video device, and the label it carries.
#[derive(Debug)]
pub struct Node {
    pub name: String,
    pub label: Option<String>,
}

#[verifier::ext_equal]
pub struct NodeView {
    pub name: Seq<char>,
    pub label: Option<Seq<char>>,
}

impl View for Node {
    type V = NodeView;

    open spec fn view(&self) -> NodeView {
        NodeView {
            name: self.name.deep_view(),
            label: self.label.deep_view(),
        }
    }
}

impl DeepView for Node {
    type V = NodeView;

    open spec fn deep_view(&self) -> NodeView {
        self@
    }
}

impl Plain for Node {
    fn same(&self, other: &Self) -> bool {
        self.name.same(&other.name)
            && self.label.same(&other.label)
    }

    fn copy(&self) -> Self {
        Node {
            name: self.name.copy(),
            label: self.label.copy(),
        }
    }
}

/// The video devices that the kernel lists, or why they cannot be listed.
#[derive(Debug)]
pub struct Listing {
    pub directory: String,
    pub error: Option<String>,
    pub nodes: Vec<Node>,
}

#[verifier::ext_equal]
pub struct ListingView {
    pub directory: Seq<char>,
    pub error: Option<Seq<char>>,
    pub nodes: Seq<NodeView>,
}

impl View for Listing {
    type V = ListingView;

    open spec fn view(&self) -> ListingView {
        ListingView {
            directory: self.directory.deep_view(),
            error: self.error.deep_view(),
            nodes: self.nodes.deep_view(),
        }
    }
}

impl DeepView for Listing {
    type V = ListingView;

    open spec fn deep_view(&self) -> ListingView {
        self@
    }
}

impl Plain for Listing {
    fn same(&self, other: &Self) -> bool {
        self.directory.same(&other.directory)
            && self.error.same(&other.error)
            && self.nodes.same(&other.nodes)
    }

    fn copy(&self) -> Self {
        Listing {
            directory: self.directory.copy(),
            error: self.error.copy(),
            nodes: self.nodes.copy(),
        }
    }
}

/// A file that a search for a tool came across.
#[derive(Debug, Clone, Copy, PartialEq, Eq, Structural)]
pub struct Candidate {
    pub is_file: bool,
    pub mode: u32,
}

impl DeepView for Candidate {
    type V = Candidate;

    open spec fn deep_view(&self) -> Candidate {
        *self
    }
}

impl Plain for Candidate {
    fn same(&self, other: &Self) -> bool {
        *self == *other
    }

    fn copy(&self) -> Self {
        *self
    }
}

/// What this machine has: for each tool, the files by its name on the path;
/// and the video devices.
#[derive(Debug)]
pub struct Equipment {
    pub adb: Vec<Candidate>,
    pub scrcpy: Vec<Candidate>,
    pub v4l2_ctl: Vec<Candidate>,
    pub hyprctl: Vec<Candidate>,
    pub listing: Listing,
}

#[verifier::ext_equal]
pub struct EquipmentView {
    pub adb: Seq<Candidate>,
    pub scrcpy: Seq<Candidate>,
    pub v4l2_ctl: Seq<Candidate>,
    pub hyprctl: Seq<Candidate>,
    pub listing: ListingView,
}

impl View for Equipment {
    type V = EquipmentView;

    open spec fn view(&self) -> EquipmentView {
        EquipmentView {
            adb: self.adb.deep_view(),
            scrcpy: self.scrcpy.deep_view(),
            v4l2_ctl: self.v4l2_ctl.deep_view(),
            hyprctl: self.hyprctl.deep_view(),
            listing: self.listing.deep_view(),
        }
    }
}

impl DeepView for Equipment {
    type V = EquipmentView;

    open spec fn deep_view(&self) -> EquipmentView {
        self@
    }
}

impl Plain for Equipment {
    fn same(&self, other: &Self) -> bool {
        self.adb.same(&other.adb)
            && self.scrcpy.same(&other.scrcpy)
            && self.v4l2_ctl.same(&other.v4l2_ctl)
            && self.hyprctl.same(&other.hyprctl)
            && self.listing.same(&other.listing)
    }

    fn copy(&self) -> Self {
        Equipment {
            adb: self.adb.copy(),
            scrcpy: self.scrcpy.copy(),
            v4l2_ctl: self.v4l2_ctl.copy(),
            hyprctl: self.hyprctl.copy(),
            listing: self.listing.copy(),
        }
    }
}

/// What became of the running scrcpy.
#[derive(Debug)]
pub enum Writer {
    Running,
    Exited { status: String },
    /// It can no longer be asked about.
    Lost { error: String },
}

#[verifier::ext_equal]
pub enum WriterView {
    Running,
    Exited { status: Seq<char> },
    Lost { error: Seq<char> },
}

impl View for Writer {
    type V = WriterView;

    open spec fn view(&self) -> WriterView {
        match self {
            Writer::Running => WriterView::Running,
            Writer::Exited { status } => WriterView::Exited { status: status.deep_view() },
            Writer::Lost { error } => WriterView::Lost { error: error.deep_view() },
        }
    }
}

impl DeepView for Writer {
    type V = WriterView;

    open spec fn deep_view(&self) -> WriterView {
        self@
    }
}

impl Plain for Writer {
    fn same(&self, other: &Self) -> bool {
        match (self, other) {
            (Writer::Running, Writer::Running) => true,
            (Writer::Exited { status: a0 }, Writer::Exited { status: b0 }) => a0.same(b0),
            (Writer::Lost { error: a0 }, Writer::Lost { error: b0 }) => a0.same(b0),
            _ => false,
        }
    }

    fn copy(&self) -> Self {
        match self {
            Writer::Running => Writer::Running,
            Writer::Exited { status } => Writer::Exited { status: status.copy() },
            Writer::Lost { error } => Writer::Lost { error: error.copy() },
        }
    }
}

/// What the outside answered.
#[derive(Debug)]
pub enum Answer {
    /// Nothing yet.
    Silence,
    /// How a tool ended.
    Ran { outcome: Outcome },
    /// A tool was launched, and stays.
    Launched { pid: u32 },
    /// A tool could not be launched.
    NotLaunched { missing: bool, error: String },
    /// What became of the tool that was launched last.
    Polled { writer: Writer },
    /// Whether the deadline has passed.
    Paused { expired: bool },
    Equipped { equipment: Equipment },
    Nodes { listing: Listing },
    Processes { processes: Vec<Process> },
    /// It was done.
    Done,
    /// It could not be done.
    Failed { error: String },
    /// What a value is written as.
    Described { json: String },
    /// The number that a text is, where it is one.
    Number { number: Option<Number> },
    /// The number and the rectangle that a JSON value is, where it is one.
    Value { number: Option<Number>, crop: Option<Crop> },
}

#[verifier::ext_equal]
pub enum AnswerView {
    Silence,
    Ran { outcome: OutcomeView },
    Launched { pid: u32 },
    NotLaunched { missing: bool, error: Seq<char> },
    Polled { writer: WriterView },
    Paused { expired: bool },
    Equipped { equipment: EquipmentView },
    Nodes { listing: ListingView },
    Processes { processes: Seq<ProcessView> },
    Done,
    Failed { error: Seq<char> },
    Described { json: Seq<char> },
    Number { number: Option<NumberView> },
    Value { number: Option<NumberView>, crop: Option<CropView> },
}

impl View for Answer {
    type V = AnswerView;

    open spec fn view(&self) -> AnswerView {
        match self {
            Answer::Silence => AnswerView::Silence,
            Answer::Ran { outcome } => AnswerView::Ran { outcome: outcome.deep_view() },
            Answer::Launched { pid } => AnswerView::Launched { pid: pid.deep_view() },
            Answer::NotLaunched { missing, error } => AnswerView::NotLaunched {
                missing: missing.deep_view(),
                error: error.deep_view(),
            },
            Answer::Polled { writer } => AnswerView::Polled { writer: writer.deep_view() },
            Answer::Paused { expired } => AnswerView::Paused { expired: expired.deep_view() },
            Answer::Equipped { equipment } => AnswerView::Equipped {
                equipment: equipment.deep_view(),
            },
            Answer::Nodes { listing } => AnswerView::Nodes { listing: listing.deep_view() },
            Answer::Processes { processes } => AnswerView::Processes {
                processes: processes.deep_view(),
            },
            Answer::Done => AnswerView::Done,
            Answer::Failed { error } => AnswerView::Failed { error: error.deep_view() },
            Answer::Described { json } => AnswerView::Described { json: json.deep_view() },
            Answer::Number { number } => AnswerView::Number { number: number.deep_view() },
            Answer::Value { number, crop } => AnswerView::Value {
                number: number.deep_view(),
                crop: crop.deep_view(),
            },
        }
    }
}

impl DeepView for Answer {
    type V = AnswerView;

    open spec fn deep_view(&self) -> AnswerView {
        self@
    }
}

impl Plain for Answer {
    fn same(&self, other: &Self) -> bool {
        match (self, other) {
            (Answer::Silence, Answer::Silence) => true,
            (Answer::Ran { outcome: a0 }, Answer::Ran { outcome: b0 }) => a0.same(b0),
            (Answer::Launched { pid: a0 }, Answer::Launched { pid: b0 }) => a0.same(b0),
            (Answer::NotLaunched { missing: a0, error: a1 }, Answer::NotLaunched { missing: b0, error: b1 }) => a0.same(b0)
                && a1.same(b1),
            (Answer::Polled { writer: a0 }, Answer::Polled { writer: b0 }) => a0.same(b0),
            (Answer::Paused { expired: a0 }, Answer::Paused { expired: b0 }) => a0.same(b0),
            (Answer::Equipped { equipment: a0 }, Answer::Equipped { equipment: b0 }) => a0.same(b0),
            (Answer::Nodes { listing: a0 }, Answer::Nodes { listing: b0 }) => a0.same(b0),
            (Answer::Processes { processes: a0 }, Answer::Processes { processes: b0 }) => a0.same(b0),
            (Answer::Done, Answer::Done) => true,
            (Answer::Failed { error: a0 }, Answer::Failed { error: b0 }) => a0.same(b0),
            (Answer::Described { json: a0 }, Answer::Described { json: b0 }) => a0.same(b0),
            (Answer::Number { number: a0 }, Answer::Number { number: b0 }) => a0.same(b0),
            (Answer::Value { number: a0, crop: a1 }, Answer::Value { number: b0, crop: b1 }) => a0.same(b0)
                && a1.same(b1),
            _ => false,
        }
    }

    fn copy(&self) -> Self {
        match self {
            Answer::Silence => Answer::Silence,
            Answer::Ran { outcome } => Answer::Ran { outcome: outcome.copy() },
            Answer::Launched { pid } => Answer::Launched { pid: pid.copy() },
            Answer::NotLaunched { missing, error } => Answer::NotLaunched {
                missing: missing.copy(),
                error: error.copy(),
            },
            Answer::Polled { writer } => Answer::Polled { writer: writer.copy() },
            Answer::Paused { expired } => Answer::Paused { expired: expired.copy() },
            Answer::Equipped { equipment } => Answer::Equipped { equipment: equipment.copy() },
            Answer::Nodes { listing } => Answer::Nodes { listing: listing.copy() },
            Answer::Processes { processes } => Answer::Processes { processes: processes.copy() },
            Answer::Done => Answer::Done,
            Answer::Failed { error } => Answer::Failed { error: error.copy() },
            Answer::Described { json } => Answer::Described { json: json.copy() },
            Answer::Number { number } => Answer::Number { number: number.copy() },
            Answer::Value { number, crop } => Answer::Value {
                number: number.copy(),
                crop: crop.copy(),
            },
        }
    }
}

// ---------------------------------------------------------------------------
// Acts

/// What an operation does outside. The first half is answered; the rest is
/// performed and no more.
#[derive(Debug)]
pub enum Act {
    /// Run a tool to its end, and collect what it prints where `collect` says.
    Run { argv: Vec<String>, collect: bool },
    /// Launch a tool that stays.
    Launch { argv: Vec<String> },
    /// See what became of the tool that was launched last.
    Poll,
    /// Where the deadline has not passed, sleep so many milliseconds.
    Pause { ms: u64 },
    /// Look at what this machine has.
    Inspect,
    /// List the video devices.
    Nodes,
    /// List the processes and their open files.
    Processes,
    /// Keep the registry.
    Save { registry: Registry },
    /// Write some settings as JSON.
    Describe { settings: CameraSettings },
    /// Read a text as a number.
    Number { text: String },
    /// Read a JSON value as a number and as a rectangle.
    Value { json: String },
    /// End the tool that was launched last, and wait for it.
    Kill,
    /// Begin a deadline, so many milliseconds from now.
    Deadline { ms: u64 },
    /// Send the state to every client.
    Push { rev: u64, state: State },
    /// Say something in the log.
    Log { text: String },
}

#[verifier::ext_equal]
pub enum ActView {
    Run { argv: Seq<Seq<char>>, collect: bool },
    Launch { argv: Seq<Seq<char>> },
    Poll,
    Pause { ms: u64 },
    Inspect,
    Nodes,
    Processes,
    Save { registry: RegistryView },
    Describe { settings: CameraSettingsView },
    Number { text: Seq<char> },
    Value { json: Seq<char> },
    Kill,
    Deadline { ms: u64 },
    Push { rev: u64, state: StateView },
    Log { text: Seq<char> },
}

impl View for Act {
    type V = ActView;

    open spec fn view(&self) -> ActView {
        match self {
            Act::Run { argv, collect } => ActView::Run {
                argv: argv.deep_view(),
                collect: collect.deep_view(),
            },
            Act::Launch { argv } => ActView::Launch { argv: argv.deep_view() },
            Act::Poll => ActView::Poll,
            Act::Pause { ms } => ActView::Pause { ms: ms.deep_view() },
            Act::Inspect => ActView::Inspect,
            Act::Nodes => ActView::Nodes,
            Act::Processes => ActView::Processes,
            Act::Save { registry } => ActView::Save { registry: registry.deep_view() },
            Act::Describe { settings } => ActView::Describe { settings: settings.deep_view() },
            Act::Number { text } => ActView::Number { text: text.deep_view() },
            Act::Value { json } => ActView::Value { json: json.deep_view() },
            Act::Kill => ActView::Kill,
            Act::Deadline { ms } => ActView::Deadline { ms: ms.deep_view() },
            Act::Push { rev, state } => ActView::Push {
                rev: rev.deep_view(),
                state: state.deep_view(),
            },
            Act::Log { text } => ActView::Log { text: text.deep_view() },
        }
    }
}

impl DeepView for Act {
    type V = ActView;

    open spec fn deep_view(&self) -> ActView {
        self@
    }
}

// ---------------------------------------------------------------------------
// The exchange

/// The answers so far, and the acts they led to.
#[derive(Debug)]
pub struct Outside {
    pub answers: Vec<Answer>,
    pub used: usize,
    pub waiting: bool,
    pub trace: Vec<Act>,
    /// How long scrcpy may take until it feeds frames.
    pub startup_ms: u64,
    /// How long its window may take to appear.
    pub preview_ms: u64,
}

#[verifier::ext_equal]
pub struct OutsideView {
    pub answers: Seq<AnswerView>,
    pub used: int,
    pub waiting: bool,
    pub trace: Seq<ActView>,
    pub startup_ms: u64,
    pub preview_ms: u64,
}

impl View for Outside {
    type V = OutsideView;

    open spec fn view(&self) -> OutsideView {
        OutsideView {
            answers: self.answers.deep_view(),
            used: self.used as int,
            waiting: self.waiting,
            trace: self.trace.deep_view(),
            startup_ms: self.startup_ms,
            preview_ms: self.preview_ms,
        }
    }
}

impl OutsideView {
    /// An act that is answered. Without an answer the operation waits.
    pub open spec fn ask(self, act: ActView) -> (OutsideView, AnswerView) {
        if self.waiting {
            (self, AnswerView::Silence)
        } else if self.used < self.answers.len() {
            (
                OutsideView { used: self.used + 1, trace: self.trace.push(act), ..self },
                self.answers[self.used],
            )
        } else {
            (
                OutsideView { waiting: true, trace: self.trace.push(act), ..self },
                AnswerView::Silence,
            )
        }
    }

    /// An act that is performed and no more.
    pub open spec fn tell(self, act: ActView) -> OutsideView {
        if self.waiting {
            self
        } else {
            OutsideView { trace: self.trace.push(act), ..self }
        }
    }

    pub open spec fn log(self, text: Seq<char>) -> OutsideView {
        self.tell(ActView::Log { text })
    }

    /// Runs a tool to its end.
    pub open spec fn run(self, argv: Seq<Seq<char>>, collect: bool) -> (OutsideView, OutcomeView) {
        let (o, answer) = self.ask(ActView::Run { argv, collect });
        (
            o,
            match answer {
                AnswerView::Ran { outcome } => outcome,
                _ => OutcomeView::Failed { missing: false, error: Seq::empty() },
            },
        )
    }
}

/// Whether a tool exited, and with success.
pub open spec fn succeeded(outcome: OutcomeView) -> bool {
    outcome matches OutcomeView::Exited { success, .. } && success
}

impl Outcome {
    pub fn success(&self) -> (r: bool)
        ensures
            r == succeeded(self@),
    {
        match self {
            Outcome::Exited { success, .. } => *success,
            Outcome::Failed { .. } => false,
        }
    }
}

impl Outside {
    pub fn new(answers: Vec<Answer>, startup_ms: u64, preview_ms: u64) -> (r: Self)
        ensures
            r@ == (OutsideView {
                answers: answers.deep_view(),
                used: 0,
                waiting: false,
                trace: Seq::empty(),
                startup_ms,
                preview_ms,
            }),
    {
        let r = Outside {
            answers,
            used: 0,
            waiting: false,
            trace: Vec::new(),
            startup_ms,
            preview_ms,
        };
        assert(r.trace.deep_view() =~= Seq::empty());
        r
    }

    fn list(&mut self, act: Act)
        ensures
            final(self)@ == (OutsideView { trace: old(self)@.trace.push(act@), ..old(self)@ }),
    {
        let ghost before = self.trace.deep_view();
        self.trace.push(act);
        assert(self.trace.deep_view() =~= before.push(act@));
    }

    pub fn ask(&mut self, act: Act) -> (r: Answer)
        ensures
            (final(self)@, r@) == old(self)@.ask(act@),
    {
        if self.waiting {
            return Answer::Silence;
        }
        self.list(act);
        if self.used < self.answers.len() {
            let answer = self.answers[self.used].copy();
            self.used = self.used + 1;
            answer
        } else {
            self.waiting = true;
            Answer::Silence
        }
    }

    pub fn tell(&mut self, act: Act)
        ensures
            final(self)@ == old(self)@.tell(act@),
    {
        if !self.waiting {
            self.list(act);
        }
    }

    pub fn log(&mut self, text: String)
        ensures
            final(self)@ == old(self)@.log(text@),
    {
        self.tell(Act::Log { text });
    }

    pub fn run(&mut self, argv: Vec<String>, collect: bool) -> (r: Outcome)
        ensures
            (final(self)@, r@) == old(self)@.run(argv.deep_view(), collect),
    {
        match self.ask(Act::Run { argv, collect }) {
            Answer::Ran { outcome } => outcome,
            _ => Outcome::Failed { missing: false, error: String::new() },
        }
    }
}

} // verus!
