//! The daemon on a simulated desk: phones, tools and a compositor that answer
//! as they are told to, and a record of everything that was run.

use serde_json::Value;

use omavcam::capture::missing_in;
use omavcam::cli;
use omavcam::command::timed_out;
use omavcam::daemon::Core;
use omavcam::number::Number;
use omavcam::outside::{
    Act, Answer, Candidate, Equipment, Fd, Fds, Listing, Node, Outcome, Process, Writer,
};
use omavcam::phones::Registry;
use omavcam::plain::Plain;
use omavcam::protocol::{
    state_message, Connection, PairingFailure, Phone, PreviewStyle, State, Transport,
};
use omavcam::requests::{advance, frame, handle, Frame, Operation, Request};
use omavcam::settings::{CameraSettings, Crop, SettingsState};

const PIXEL: &str = "39281FDJH0031T";
const GALAXY: &str = "R5CT10ABCDE";
const PAIR_ADDRESS: &str = "192.168.1.40:37123";
const CONNECT_ADDRESS: &str = "192.168.1.40:42877";
const NEW_CONNECT_ADDRESS: &str = "192.168.1.40:43991";
const CODE: &str = "123456";
const WIRED: &str = "R5CT10ABCDE";
const STABLE_ID: &str = "RF8M90ABCDEF";

const COMMAND_MS: u64 = 100;
const STARTUP_MS: u64 = 500;
const PREVIEW_MS: u64 = 500;

const CAMERAS: &str = "[server] INFO: List of cameras:\n    \
    --camera-id=0    (back, 4080x3060, fps={15, 20, 24, 30}, zoom-range=[1, 8])\n        \
    - 1920x1080\n        - 1280x720\n        - 640x480\n      \
    High speed capture (--camera-high-speed):\n        - 1280x720 (fps={120, 240})\n    \
    --camera-id=1    (front, 3840x2160, fps={15, 24, 30}, zoom-range=[1, 4])\n        \
    - 1920x1080\n        - 1280x720\n        - 640x480\n";

// ---------------------------------------------------------------------------
// The desk

struct Desk {
    core: Core,
    /// Whether the desk is looked at without being asked.
    watched: bool,
    devices: String,
    devices_on_connect: Option<String>,
    printed: Vec<(String, String)>,
    codes: Vec<(String, i32)>,
    held: Vec<String>,
    failing_once: Vec<(String, i32)>,
    cameras: String,
    nodes: Vec<String>,
    absent: Vec<String>,
    monitors: Vec<[i64; 4]>,
    window: Option<[i64; 2]>,
    consumer: bool,
    uncertain: bool,
    unwritable: bool,
    /// Whether scrcpy attaches to the node once it runs.
    feeds: bool,
    /// The launched scrcpy: still running, or the status it ended with.
    writer: Option<(u32, Option<i32>)>,
    launches: u32,
    now: u64,
    deadline: u64,
    saved: Registry,
    run: Vec<String>,
    pushed: Vec<(u64, State)>,
    logged: Vec<String>,
    requests: u64,
}

struct Response {
    ok: bool,
    code: String,
    message: String,
    rev: u64,
    id: Value,
}

struct Printed {
    stdout: String,
    stderr: String,
    code: u8,
}

impl Desk {
    /// A desk with nothing running yet.
    fn new() -> Desk {
        Desk {
            core: Core::new(Registry::default(), false, vec![]),
            watched: true,
            devices: String::new(),
            devices_on_connect: None,
            printed: vec![],
            codes: vec![],
            held: vec![],
            failing_once: vec![],
            cameras: CAMERAS.to_string(),
            nodes: vec!["video42".to_string()],
            absent: vec![],
            monitors: vec![[0, 0, 1920, 1080]],
            window: Some([120, 80]),
            consumer: false,
            uncertain: false,
            unwritable: false,
            feeds: true,
            writer: None,
            launches: 0,
            now: 0,
            deadline: 0,
            saved: Registry::default(),
            run: vec![],
            pushed: vec![],
            logged: vec![],
            requests: 0,
        }
    }

    /// A daemon that looks at the desk now and then.
    fn start() -> Desk {
        let mut desk = Desk::new();
        desk.spawn();
        desk
    }

    /// A daemon that looks at the desk only when it is asked to.
    fn slow_poll() -> Desk {
        let mut desk = Desk::new();
        desk.watched = false;
        desk.spawn();
        desk
    }

    fn spawn(&mut self) {
        let argv = words(&["adb", "start-server"]);
        let adb_ok = matches!(self.tool(&argv), Outcome::Exited { success: true, .. });
        let mut registry = self.saved.copy();
        registry.migrate_hardware_ids();
        self.core = Core::new(registry, adb_ok, missing_in(&self.equipment()));
        self.pushed.push((self.core.rev, self.core.state.copy()));
        if adb_ok {
            let _ = self.perform("null", &Operation::Survey);
        }
    }

    fn restart(&mut self) {
        self.writer = None;
        self.pushed.clear();
        self.spawn();
        if !self.watched {
            self.watch();
        }
    }

    fn watch(&mut self) {
        let _ = self.perform("null", &Operation::Watch);
    }

    /// Performs an operation: each act once, in order, as it comes up.
    fn perform(&mut self, id: &str, operation: &Operation) -> String {
        let mut answers: Vec<Answer> = vec![];
        let mut done = 0;
        loop {
            let progress =
                advance(&self.core, operation, answers.copy(), STARTUP_MS, PREVIEW_MS);
            for act in &progress.trace[done..] {
                if let Some(answer) = self.act(act) {
                    answers.push(answer);
                }
            }
            done = progress.trace.len();
            if let Some(message) = progress.answer(id) {
                self.core = progress.core;
                return message;
            }
            assert!(progress.result.is_none());
        }
    }

    fn act(&mut self, act: &Act) -> Option<Answer> {
        match act {
            Act::Run { argv, collect } => {
                let outcome = match self.tool(argv) {
                    Outcome::Exited { success, status, .. } if !collect => {
                        Outcome::Exited { success, status, stdout: vec![], stderr: vec![] }
                    }
                    outcome => outcome,
                };
                Some(Answer::Ran { outcome })
            }
            Act::Launch { argv } => {
                self.run.push(argv.join(" "));
                assert!(
                    !matches!(self.writer, Some((_, None))),
                    "a second scrcpy was launched while one runs"
                );
                if self.absent.contains(&argv[0]) {
                    let error = "No such file or directory (os error 2)".to_string();
                    return Some(Answer::NotLaunched { missing: true, error });
                }
                self.launches += 1;
                let pid = 1000 + self.launches;
                self.writer = Some((pid, self.scrcpy_end(argv)));
                Some(Answer::Launched { pid })
            }
            Act::Poll => {
                let writer = match self.writer {
                    Some((_, Some(code))) => Writer::Exited { status: status(code) },
                    Some((_, None)) => Writer::Running,
                    None => Writer::Lost { error: "No child processes".to_string() },
                };
                Some(Answer::Polled { writer })
            }
            Act::Pause { ms } => {
                let expired = self.now >= self.deadline;
                if !expired {
                    self.now += ms;
                }
                Some(Answer::Paused { expired })
            }
            Act::Inspect => Some(Answer::Equipped { equipment: self.equipment() }),
            Act::Nodes => Some(Answer::Nodes { listing: self.listing() }),
            Act::Processes => Some(Answer::Processes { processes: self.processes() }),
            Act::Save { registry } => {
                if self.unwritable {
                    return Some(Answer::Failed { error: "No space left on device".to_string() });
                }
                self.saved = registry.copy();
                Some(Answer::Done)
            }
            Act::Describe { settings } => Some(Answer::Described { json: describe(settings) }),
            Act::Number { text } => Some(Answer::Number {
                number: text.parse::<f64>().ok().map(number),
            }),
            Act::Value { json } => {
                let value: Value = serde_json::from_str(json).unwrap();
                let part = |key: &str| value.get(key).and_then(Value::as_f64).map(f64::to_bits);
                let crop = match (part("x"), part("y"), part("width"), part("height")) {
                    (Some(x), Some(y), Some(width), Some(height)) => {
                        Some(Crop { x, y, width, height })
                    }
                    _ => None,
                };
                Some(Answer::Value { number: value.as_f64().map(number), crop })
            }
            Act::Kill => {
                self.writer = None;
                None
            }
            Act::Deadline { ms } => {
                self.deadline = self.now + ms;
                None
            }
            Act::Push { rev, state } => {
                self.pushed.push((*rev, state.copy()));
                None
            }
            Act::Log { text } => {
                self.logged.push(text.copy());
                None
            }
        }
    }

    /// How a launched scrcpy ends, where it does not stay.
    fn scrcpy_end(&mut self, argv: &[String]) -> Option<i32> {
        let found = self.failing_once.iter().position(|(argument, _)| argv.contains(argument));
        if let Some(at) = found {
            return Some(self.failing_once.remove(at).1);
        }
        if self.held.contains(&"scrcpy".to_string()) {
            None
        } else {
            Some(self.code("scrcpy", ""))
        }
    }

    /// Runs a tool to its end.
    fn tool(&mut self, argv: &[String]) -> Outcome {
        let name = argv[0].as_str();
        let listing = argv.contains(&"--list-camera-sizes".to_string());
        let line = argv.join(" ");
        self.run.push(if listing {
            line.replacen("scrcpy ", "scrcpy-list ", 1)
        } else {
            line
        });
        if self.absent.contains(&argv[0]) {
            return Outcome::Failed {
                missing: true,
                error: "No such file or directory (os error 2)".to_string(),
            };
        }
        if name != "scrcpy" && self.held.contains(&argv[0]) {
            return Outcome::Failed { missing: false, error: timed_out(name, COMMAND_MS) };
        }
        let command = match (name, argv.get(1).map(String::as_str)) {
            ("scrcpy", _) => "list",
            (_, Some("-s")) => argv[3].as_str(),
            (_, Some(word)) => word,
            (_, None) => "",
        };
        let code = self.code(name, command);
        if name == "adb" && command == "connect" && code == 0 {
            if let Some(devices) = self.devices_on_connect.take() {
                self.devices = devices;
            }
        }
        let key = format!("{name}.{command}");
        let scripted = self.printed.iter().rev().find(|(k, _)| *k == key);
        let stdout = match (scripted, name, command) {
            (Some((_, text)), _, _) => text.clone(),
            (None, "adb", "devices") => self.devices.clone(),
            (None, "scrcpy", _) => self.cameras.clone(),
            (None, "v4l2-ctl", _) if argv.contains(&"-D".to_string()) => {
                if self.feeds && matches!(self.writer, Some((_, None))) {
                    "Device Caps : Video Capture\n".to_string()
                } else {
                    "Device Caps : Video Output\n".to_string()
                }
            }
            (None, "hyprctl", "clients") => match self.window {
                Some([x, y]) => format!(
                    "[{{\"title\":\"other\",\"at\":[5,5],\"size\":[9,9]}},\
                     {{\"title\":\"omavcam preview\",\"at\":[{x},{y}],\"size\":[640,360]}}]"
                ),
                None => "[]".to_string(),
            },
            (None, "hyprctl", "monitors") => {
                let listed: Vec<String> = self
                    .monitors
                    .iter()
                    .map(|[x, y, w, h]| {
                        format!("{{\"x\":{x},\"y\":{y},\"width\":{w},\"height\":{h}}}")
                    })
                    .collect();
                format!("[{}]", listed.join(","))
            }
            _ => String::new(),
        };
        Outcome::Exited {
            success: code == 0,
            status: status(code),
            stdout: stdout.into_bytes(),
            stderr: vec![],
        }
    }

    fn code(&self, tool: &str, command: &str) -> i32 {
        let for_command = format!("{tool}.{command}");
        for wanted in [for_command.as_str(), tool] {
            if let Some((_, code)) = self.codes.iter().rev().find(|(key, _)| key == wanted) {
                return *code;
            }
        }
        0
    }

    fn listing(&self) -> Listing {
        let mut nodes = vec![Node {
            name: "video0".to_string(),
            label: Some("HP Wide Vision HD Camera\n".to_string()),
        }];
        for name in &self.nodes {
            nodes.push(Node { name: name.clone(), label: Some("omavcam\n".to_string()) });
        }
        Listing { directory: "/sys/class/video4linux".to_string(), error: None, nodes }
    }

    fn equipment(&self) -> Equipment {
        let found = |tool: &str| {
            if self.absent.contains(&tool.to_string()) {
                vec![]
            } else {
                vec![Candidate { is_file: true, mode: 0o100755 }]
            }
        };
        Equipment {
            adb: found("adb"),
            scrcpy: found("scrcpy"),
            v4l2_ctl: found("v4l2-ctl"),
            hyprctl: found("hyprctl"),
            listing: self.listing(),
        }
    }

    fn processes(&self) -> Vec<Process> {
        let node = || Fd::Target { path: "/dev/video42".to_string() };
        let mut processes = vec![
            Process::Entry { name: "self".to_string(), fds: Fds::Listed { fds: vec![node()] } },
            Process::Entry {
                name: "1".to_string(),
                fds: Fds::Listed { fds: vec![Fd::Target { path: "/dev/null".to_string() }] },
            },
        ];
        if let Some((pid, None)) = self.writer {
            processes.push(Process::Entry {
                name: pid.to_string(),
                fds: Fds::Listed { fds: vec![node()] },
            });
        }
        if self.uncertain {
            processes.push(Process::Entry { name: "77".to_string(), fds: Fds::Opaque });
        }
        if self.consumer {
            processes.push(Process::Entry {
                name: "4242".to_string(),
                fds: Fds::Listed { fds: vec![node()] },
            });
        }
        processes
    }

    // What the desk is told to do.

    fn script_devices(&mut self, attached: &[(&str, &str, Option<&str>)]) {
        self.devices = devices(attached);
    }

    fn script_devices_on_connect(&mut self, attached: &[(&str, &str, Option<&str>)]) {
        self.devices_on_connect = Some(devices(attached));
    }

    fn script_output_for(&mut self, tool: &str, command: &str, text: &str) {
        self.printed.push((format!("{tool}.{command}"), text.to_string()));
    }

    fn script_exit(&mut self, tool: &str, code: i32) {
        self.codes.push((tool.to_string(), code));
    }

    fn script_exit_for(&mut self, tool: &str, command: &str, code: i32) {
        self.codes.push((format!("{tool}.{command}"), code));
    }

    fn script_fail_once(&mut self, argument: &str, code: i32) {
        self.failing_once.push((argument.to_string(), code));
    }

    fn script_hold(&mut self, tool: &str) {
        self.held.push(tool.to_string());
    }

    /// Lets a held tool end by itself.
    fn script_release(&mut self, tool: &str) {
        self.held.retain(|held| held != tool);
        if tool == "scrcpy" {
            if let Some((pid, None)) = self.writer {
                self.writer = Some((pid, Some(0)));
            }
        }
    }

    fn script_virtual_cameras(&mut self, nodes: &[&str]) {
        self.nodes = words(nodes);
    }

    // What is seen of it.

    fn state(&self) -> &State {
        &self.core.state
    }

    fn capture_size(&self) -> &str {
        &self.state().capture.as_ref().unwrap().size
    }

    fn settings(&self) -> &SettingsState {
        self.state().settings.as_ref().unwrap()
    }

    fn await_state(&mut self, what: &str, want: impl Fn(&State) -> bool) {
        for _ in 0..20 {
            if want(self.state()) {
                return;
            }
            assert!(self.watched, "{what} never came: {:?}", self.state());
            self.watch();
        }
        panic!("{what} never came: {:?}", self.state());
    }

    fn await_connection(&mut self, word: &str) {
        self.await_state(word, |state| phase(&state.connection) == word);
    }

    fn calls(&self, tool: &str) -> Vec<String> {
        let prefix = format!("{tool} ");
        self.run.iter().filter(|line| line.starts_with(&prefix)).cloned().collect()
    }

    fn send(&mut self, line: &str) -> Response {
        let mut bytes = line.as_bytes().to_vec();
        bytes.push(b'\n');
        bytes.truncate(64 * 1024 + 1);
        let message = match frame(&bytes, self.core.rev) {
            Frame::End => panic!("the line was not whole"),
            Frame::Last { message } => message,
            Frame::Request => match handle(&bytes, self.core.rev) {
                Request::Answered { message } => message,
                Request::Begin { id, operation } => self.perform(&id, &operation),
            },
        };
        let value: Value = serde_json::from_str(&message).unwrap();
        assert_eq!(value["type"], "response");
        assert_eq!(value["v"], 4);
        let verdict = cli::verdict(&message);
        assert_eq!(value["ok"], verdict.ok);
        Response {
            ok: verdict.ok,
            code: value["error"]["code"].as_str().unwrap_or("").to_string(),
            message: value["error"]["message"].as_str().unwrap_or("").to_string(),
            rev: value["rev"].as_u64().unwrap(),
            id: value["id"].clone(),
        }
    }

    fn request(&mut self, kind: &str) -> Response {
        self.request_with(kind, "")
    }

    fn request_with(&mut self, kind: &str, fields: &str) -> Response {
        self.requests += 1;
        let id = self.requests.to_string();
        let comma = if fields.is_empty() { "" } else { "," };
        let line = format!("{{\"v\":4,\"id\":\"{id}\",\"kind\":\"{kind}\"{comma}{fields}}}");
        let response = self.send(&line);
        assert_eq!(response.id, id.as_str(), "a response carries the id of its request");
        response
    }

    fn set(&mut self, setting: &str, value: &str) -> Response {
        self.request_with("set", &format!("\"setting\":\"{setting}\",\"value\":{value}"))
    }

    fn select(&mut self, serial: &str) -> Response {
        self.request_with("select", &format!("\"serial\":\"{serial}\""))
    }

    fn pair(&mut self, pair_address: &str) -> Response {
        self.request_with(
            "pair",
            &format!(
                "\"pair_address\":\"{pair_address}\",\"code\":\"{CODE}\",\
                 \"connect_address\":\"{CONNECT_ADDRESS}\""
            ),
        )
    }

    /// A command, from its arguments to what it prints.
    fn cli(&mut self, args: &[&str]) -> Printed {
        let usage = |said: String| Printed { stdout: String::new(), stderr: said, code: 2 };
        let line = match cli::parse(&words(args)) {
            cli::Invocation::Daemon => panic!("there is a daemon already"),
            cli::Invocation::Usage { command } => {
                let first = match command {
                    Some(command) => format!("omavcam: invalid command: {command}\n"),
                    None => String::new(),
                };
                return usage(format!("{first}{}", cli::USAGE));
            }
            cli::Invocation::Send { kind, fields } => cli::request(&kind, &fields),
            cli::Invocation::Change { setting, value } => {
                let numbers: Vec<Option<String>> = cli::numerals(&setting, &value)
                    .iter()
                    .map(|text| text.parse::<f64>().ok().map(|n| Value::from(n).to_string()))
                    .collect();
                match cli::setting_value(&setting, &value, &numbers) {
                    Err(message) => {
                        return usage(format!("omavcam: invalid setting: {message}"));
                    }
                    Ok(json) => cli::request("set", &cli::setting_fields(&setting, json)),
                }
            }
        };
        let mut client = cli::Client::new();
        let hello = state_message(self.core.rev, "{\"first\":true}");
        assert!(client.receive(&hello.into_bytes()).is_ok());
        let seen = self.pushed.len();
        let mut bytes = line.into_bytes();
        bytes.push(b'\n');
        let response = match handle(&bytes, self.core.rev) {
            Request::Answered { message } => message,
            Request::Begin { id, operation } => self.perform(&id, &operation),
        };
        for (rev, _) in &self.pushed[seen..] {
            let message = state_message(*rev, "{\"later\":true}");
            assert!(client.receive(&message.into_bytes()).is_ok());
        }
        assert!(!client.ready(), "nothing has answered yet");
        assert!(client.receive(&response.into_bytes()).is_ok());
        assert!(client.ready(), "the state that reflects the request has arrived");
        let verdict = cli::verdict(client.response.as_ref().unwrap());
        Printed {
            stdout: cli::render(self.state()),
            stderr: cli::complaint(&verdict).unwrap_or_default(),
            code: cli::exit_code(&verdict),
        }
    }
}

fn words(list: &[&str]) -> Vec<String> {
    list.iter().map(|word| word.to_string()).collect()
}

fn status(code: i32) -> String {
    format!("exit status: {code}")
}

fn number(value: f64) -> Number {
    Number { bits: value.to_bits(), text: value.to_string() }
}

fn describe(settings: &CameraSettings) -> String {
    format!(
        "{{\"lens\":\"{}\",\"resolution\":\"{}\",\"frame_rate\":{},\"aspect_ratio\":\"{}\",\
         \"zoom\":{}}}",
        settings.lens,
        settings.resolution,
        settings.frame_rate,
        settings.aspect_ratio,
        settings.zoom.text
    )
}

fn devices(attached: &[(&str, &str, Option<&str>)]) -> String {
    let mut out = String::from("List of devices attached\n");
    for (serial, status, model) in attached {
        out.push_str(&format!("{serial}\t{status} usb:1-4"));
        if let Some(model) = model {
            out.push_str(&format!(" product:x model:{model} device:x"));
        }
        out.push_str(" transport_id:1\n");
    }
    out
}

fn phase(connection: &Connection) -> &'static str {
    match connection {
        Connection::NoPhone => "no_phone",
        Connection::Unselected { .. } => "unselected",
        Connection::Unauthorised { .. } => "unauthorised",
        Connection::Connecting { .. } => "connecting",
        Connection::Connected { .. } => "connected",
        Connection::Reconnecting { .. } => "reconnecting",
        Connection::NeedsPairing => "needs_pairing",
        Connection::PairingFailed { .. } => "pairing_failed",
        Connection::Unreachable { .. } => "unreachable",
    }
}

fn at_phone(connection: &Connection) -> &Phone {
    match connection {
        Connection::Unauthorised { phone }
        | Connection::Connecting { phone }
        | Connection::Connected { phone }
        | Connection::Reconnecting { phone }
        | Connection::Unreachable { phone, .. } => phone,
        other => panic!("no phone in {other:?}"),
    }
}

fn running(state: &State) -> bool {
    state.capture.is_some()
}

fn zoom(settings: &CameraSettings) -> f64 {
    f64::from_bits(settings.zoom.bits)
}

/// A daemon with one phone connected and a scrcpy that stays up once launched.
fn ready() -> Desk {
    let mut desk = Desk::start();
    desk.script_hold("scrcpy");
    desk.script_devices(&[(PIXEL, "device", Some("Pixel_7"))]);
    desk.await_connection("connected");
    desk.await_state("camera settings", |state| state.settings.is_some());
    desk
}

// ---------------------------------------------------------------------------
// Captures

#[test]
fn start_launches_a_capture_against_the_selected_phone() {
    let mut f = ready();

    let response = f.request("start");
    assert!(response.ok, "{}", response.message);

    let capture = f.state().capture.as_ref().unwrap();
    assert_eq!(capture.phone.serial, PIXEL);
    assert_eq!(capture.node, "/dev/video42");
    assert!(capture.preview);

    let calls = f.calls("scrcpy");
    assert_eq!(calls.len(), 1, "one capture, one scrcpy: {calls:?}");
    for argument in [
        &format!("-s {PIXEL}"),
        "--video-source=camera",
        "--v4l2-sink=/dev/video42",
        "--no-control",
        "--window-title=omavcam preview",
    ] {
        assert!(calls[0].contains(argument), "scrcpy was not given {argument}: {calls:?}");
    }
    assert!(!calls[0].contains("--no-window"), "{calls:?}");
    assert!(!calls[0].contains("--window-x"), "{calls:?}");

    let rule = f.run.iter().position(|line| line.starts_with("hyprctl eval ")).unwrap();
    let scrcpy = f.run.iter().position(|line| line.starts_with("scrcpy ")).unwrap();
    assert!(rule < scrcpy, "the rule must exist before the window maps: {:?}", f.run);
    for setting in [
        "float = true",
        "pin = true",
        "no_initial_focus = true",
        "keep_aspect_ratio = true",
        "center = true",
        "no_close_for = 2147483647",
    ] {
        assert!(f.run[rule].contains(setting), "{setting} missing: {}", f.run[rule]);
    }
    assert!(!f.run[rule].contains("no_focus"), "the preview is undraggable: {}", f.run[rule]);
    assert!(f
        .run
        .iter()
        .any(|line| line.starts_with("hyprctl eval ") && line.contains("omavcam reconnecting")));
    let probes = f.calls("hyprctl clients").len();
    f.watch();
    f.watch();
    assert_eq!(
        f.calls("hyprctl clients").len(),
        probes,
        "window discovery is a startup wait, not a permanent poll"
    );
}

#[test]
fn preview_hides_and_returns_without_disturbing_the_capture() {
    let mut f = ready();
    f.monitors = vec![[-3840, 0, 3840, 2160], [0, 0, 1920, 1080]];
    f.request_with("start", "\"rounding\":8,\"border_size\":2");
    assert!(f.state().capture.as_ref().unwrap().preview);

    let hide = "\"visible\":false,\"rounding\":8,\"border_size\":2";
    assert!(f.request_with("preview", hide).ok);
    assert!(!f.state().capture.as_ref().unwrap().preview, "hiding is not stopping");
    assert!(
        f.run
            .iter()
            .any(|line| line.contains("hl.dsp.window.move") && line.contains("x = -4481")),
        "the preview was not moved off-screen: {:?}",
        f.run
    );

    let show = "\"visible\":true,\"rounding\":8,\"border_size\":2";
    assert!(f.request_with("preview", show).ok);
    assert!(f.state().capture.as_ref().unwrap().preview);
    assert_eq!(f.calls("scrcpy").len(), 1, "showing the window must not replace the capture");
    assert!(
        f.run.iter().any(|line| {
            line.contains("hl.dsp.window.move")
                && line.contains("x = 120")
                && line.contains("y = 80")
        }),
        "the preview did not return to its saved position: {:?}",
        f.run
    );
    let themed =
        f.run.iter().rev().find(|line| line.starts_with("hyprctl eval ")).unwrap().clone();
    assert!(themed.contains("rounding = 8"), "{themed}");
    assert!(themed.contains("border_size = 2"), "{themed}");
}

#[test]
fn the_virtual_camera_is_found_by_its_card_label() {
    let mut f = ready();
    f.script_virtual_cameras(&["video7"]);

    assert!(f.request("start").ok);
    assert_eq!(f.state().capture.as_ref().unwrap().node, "/dev/video7");
    let calls = f.calls("scrcpy");
    assert!(calls[0].contains("--v4l2-sink=/dev/video7"), "{calls:?}");
}

#[test]
fn duplicate_public_labels_are_a_packaging_error_not_a_guess() {
    let mut f = ready();
    f.script_virtual_cameras(&["video7", "video42"]);

    let response = f.request("start");

    assert!(!response.ok);
    assert_eq!(response.code, "no_virtual_camera");
    assert!(response.message.contains("more than one"), "{}", response.message);
    assert!(f.calls("scrcpy").is_empty(), "no arbitrary node was chosen: {:?}", f.run);
}

#[test]
fn the_virtual_cameras_controls_are_set_before_anything_writes_to_it() {
    let mut f = ready();
    f.request("start");

    let ctl = f.run.iter().position(|line| line.starts_with("v4l2-ctl ")).unwrap();
    let scrcpy = f.run.iter().position(|line| line.starts_with("scrcpy ")).unwrap();
    assert!(ctl < scrcpy, "the controls are set first: {:?}", f.run);
    assert!(f.run[ctl].contains("/dev/video42"), "{}", f.run[ctl]);
    for control in ["keep_format=0", "sustain_framerate=1", "timeout=0"] {
        assert!(f.run[ctl].contains(control), "{control} unset: {}", f.run[ctl]);
    }
}

#[test]
fn an_immediate_scrcpy_failure_is_a_failed_start() {
    let mut f = Desk::start();
    f.script_exit("scrcpy", 2);
    f.script_exit_for("scrcpy", "list", 0);
    f.script_devices(&[(PIXEL, "device", Some("Pixel_7"))]);
    f.await_connection("connected");

    let response = f.request("start");

    assert!(!response.ok);
    assert_eq!(response.code, "capture_failed");
    assert_eq!(
        response.message,
        "scrcpy did not start: scrcpy exited during startup with exit status: 2"
    );
    assert!(f.state().capture.is_none());
}

#[test]
fn starting_with_no_phone_selected_is_refused_by_name() {
    let mut f = Desk::start();
    f.script_hold("scrcpy");
    f.script_devices(&[
        (PIXEL, "device", Some("Pixel_7")),
        (GALAXY, "device", Some("Galaxy_S21")),
    ]);
    f.await_connection("unselected");

    let response = f.request("start");

    assert!(!response.ok);
    assert_eq!(response.code, "no_phone");
    assert!(response.message.contains("select"), "{}", response.message);
    assert!(f.state().capture.is_none());
    assert!(f.calls("scrcpy").is_empty(), "nothing was launched: {:?}", f.run);

    let out = f.cli(&["start"]);
    assert_eq!(out.code, 1, "{}", out.stderr);
    assert!(out.stderr.contains("no_phone"), "{}", out.stderr);
    assert!(out.stdout.contains("capture: none"), "the state is still printed");
}

#[test]
fn stop_ends_the_capture() {
    let mut f = ready();
    f.request("start");
    assert!(running(f.state()));

    assert!(f.request("stop").ok);

    assert!(f.state().capture.is_none());
    assert!(f.writer.is_none(), "the process is gone");
    f.script_release("scrcpy");
    f.watch();
    assert!(f.state().capture.is_none());
}

#[test]
fn stopping_a_capture_that_is_not_running_is_a_no_op() {
    let mut f = ready();
    assert!(f.request("stop").ok);
    assert!(f.state().capture.is_none());
}

#[test]
fn starting_a_capture_that_is_already_running_leaves_it_alone() {
    let mut f = ready();
    f.request("start");

    let response = f.request("start");

    assert!(response.ok, "{}", response.message);
    assert!(running(f.state()));
    assert_eq!(f.calls("scrcpy").len(), 1, "{:?}", f.run);
}

#[test]
fn selecting_another_phone_stops_the_running_capture() {
    let mut f = ready();
    f.request("start");
    f.script_devices(&[
        (PIXEL, "device", Some("Pixel_7")),
        (GALAXY, "device", Some("Galaxy_S21")),
    ]);

    let response = f.select(GALAXY);

    assert!(response.ok, "{}", response.message);
    assert!(f.state().capture.is_none());
    assert_eq!(at_phone(&f.state().connection).serial, GALAXY);
}

#[test]
fn selecting_an_absent_remembered_wired_phone_does_not_stop_capture() {
    let mut f = ready();
    f.script_devices(&[
        (PIXEL, "device", Some("Pixel_7")),
        (GALAXY, "device", Some("Galaxy_S21")),
    ]);
    assert!(f.select(GALAXY).ok);
    assert!(f.select(PIXEL).ok);
    f.request("start");
    assert!(running(f.state()));
    f.script_devices(&[(PIXEL, "device", Some("Pixel_7"))]);

    let response = f.select(GALAXY);

    assert_eq!(response.code, "no_such_phone");
    assert_eq!(f.state().capture.as_ref().unwrap().phone.serial, PIXEL);
    assert_eq!(f.calls("scrcpy").len(), 1);
}

#[test]
fn a_capture_dying_on_its_own_is_restarted_without_dropping_the_logical_capture() {
    let mut f = ready();
    f.request("start");
    let before = f.capture_size().to_string();

    f.window = None;
    f.script_release("scrcpy");
    f.await_connection("reconnecting");
    assert_eq!(f.capture_size(), before);
    assert!(f.state().capture.as_ref().unwrap().preview);
    assert!(
        f.run.iter().any(|line| {
            line.starts_with("hyprctl eval ")
                && line.contains("omavcam reconnecting")
                && line.contains("move = { 120, 80 }")
        }),
        "the reconnect status did not inherit the preview position: {:?}",
        f.run
    );

    f.script_hold("scrcpy");
    f.window = Some([120, 80]);
    f.await_connection("connected");
    assert_eq!(f.calls("scrcpy").len(), 2);
    assert!(f.state().capture.as_ref().unwrap().preview);
    let argv = &f.run;
    let replacement = nth_launch(argv, 1);
    let hidden = argv[..replacement]
        .iter()
        .rposition(|line| {
            line.contains("hl.dsp.window.move") && line.contains("omavcam reconnecting")
        })
        .expect("the reconnect status was not hidden before replacement");
    let hidden_rule = argv[..hidden]
        .iter()
        .rposition(|line| {
            line.starts_with("hyprctl eval ")
                && line.contains("omavcam reconnecting")
                && line.contains("move = { -641, 0 }")
        })
        .expect("the reconnect status had no persistent offscreen rule");
    let preview_rule = argv[..replacement]
        .iter()
        .rposition(|line| {
            line.starts_with("hyprctl eval ")
                && line.contains("omavcam-preview")
                && line.contains("move = { 120, 80 }")
        })
        .expect("the replacement preview had no saved-position rule");
    assert!(hidden_rule < hidden && hidden < preview_rule && preview_rule < replacement);
    assert!(argv[hidden + 1..replacement].iter().all(|line| {
        !(line.starts_with("hyprctl eval ") && line.contains("omavcam reconnecting"))
    }));
}

fn nth_launch(argv: &[String], n: usize) -> usize {
    argv.iter().enumerate().filter(|(_, line)| line.starts_with("scrcpy ")).nth(n).unwrap().0
}

#[test]
fn a_hidden_preview_maps_offscreen_when_the_writer_is_replaced() {
    let mut f = ready();
    f.request("start");
    f.request_with("preview", "\"visible\":false");
    f.script_devices(&[]);
    f.request("refresh");
    f.script_devices(&[(PIXEL, "device", Some("Pixel_7"))]);
    f.request("refresh");
    f.await_connection("connected");

    assert_eq!(f.calls("scrcpy").len(), 2);
    let replacement = nth_launch(&f.run, 1);
    assert!(
        f.run[..replacement].iter().rev().any(|line| {
            line.starts_with("hyprctl eval ")
                && line.contains("omavcam-preview")
                && line.contains("move = { -641, 0 }")
        }),
        "the hidden replacement had no offscreen compositor rule: {:?}",
        f.run
    );
    assert!(!f.state().capture.as_ref().unwrap().preview);
}

#[test]
fn a_failed_replacement_never_claims_the_capture_is_connected() {
    let mut f = Desk::slow_poll();
    f.script_hold("scrcpy");
    f.script_devices(&[(PIXEL, "device", Some("Pixel_7"))]);
    f.request("refresh");
    assert_eq!(phase(&f.state().connection), "connected");
    assert!(f.request("start").ok);

    f.script_devices(&[]);
    f.request("refresh");
    assert_eq!(phase(&f.state().connection), "reconnecting");

    f.script_release("scrcpy");
    f.script_exit("scrcpy", 2);
    f.script_exit_for("scrcpy", "list", 0);
    f.script_devices(&[(PIXEL, "device", Some("Pixel_7"))]);
    let before = f.pushed.len();
    f.request("refresh");

    assert_eq!(phase(&f.state().connection), "reconnecting");
    assert!(
        f.pushed[before..].iter().all(|(_, state)| phase(&state.connection) != "connected"),
        "a dead replacement was briefly advertised as connected"
    );
}

#[test]
fn losing_and_returning_wired_phone_keeps_the_capture_and_applied_frame_size() {
    let mut f = ready();
    f.request("start");
    let before = f.state().capture.copy();
    assert_eq!(f.capture_size(), "1280x720");
    assert!(f.set("resolution", "\"1920x1080\"").ok);
    f.consumer = true;

    f.script_devices(&[(GALAXY, "device", Some("Galaxy_S21"))]);
    f.await_connection("reconnecting");
    assert_eq!(at_phone(&f.state().connection).serial, PIXEL);
    assert_eq!(f.state().capture, before);
    assert_eq!(f.state().attached[0].phone.serial, GALAXY);

    f.script_devices(&[
        (GALAXY, "device", Some("Galaxy_S21")),
        (PIXEL, "device", Some("Pixel_7")),
    ]);
    f.await_connection("connected");
    assert_eq!(f.state().capture.as_ref().unwrap().phone.serial, PIXEL);
    assert_eq!(f.capture_size(), "1280x720");
    let calls = f.calls("scrcpy");
    assert_eq!(calls.len(), 2);
    assert!(calls[1].contains(&format!("-s {PIXEL}")), "{calls:?}");
    assert!(calls[1].contains("--camera-size=1280x720"), "{calls:?}");
    assert!(!calls.iter().any(|call| call.contains(GALAXY)), "{calls:?}");
}

#[test]
fn stop_while_reconnecting_cancels_the_restart_and_releases_the_node() {
    let mut f = ready();
    f.request("start");
    f.script_devices(&[]);
    f.await_connection("reconnecting");

    assert!(f.request("stop").ok);
    assert!(f.state().capture.is_none());
    assert_ne!(phase(&f.state().connection), "reconnecting");
    assert!(f.pushed.iter().all(|(_, state)| {
        !(state.capture.is_none() && phase(&state.connection) == "reconnecting")
    }));
    f.script_devices(&[(PIXEL, "device", Some("Pixel_7"))]);
    f.await_connection("connected");
    f.watch();
    f.watch();
    assert_eq!(f.calls("scrcpy").len(), 1);
}

#[test]
fn applied_preview_style_is_part_of_whole_state_and_revision() {
    let mut f = ready();
    let started = f.request_with("start", "\"rounding\":8,\"border_size\":2");
    assert_eq!(f.state().preview_style, PreviewStyle { rounding: 8, border_size: 2 });

    let restyled =
        f.request_with("preview", "\"visible\":true,\"rounding\":9,\"border_size\":3");
    assert!(restyled.rev > started.rev);
    assert_eq!(f.state().preview_style, PreviewStyle { rounding: 9, border_size: 3 });
}

#[test]
fn a_restart_keeps_the_frame_size_it_started_with() {
    let mut f = ready();
    f.request("start");
    let first = f.capture_size().to_string();
    f.request("stop");
    assert!(f.state().capture.is_none());
    f.request("start");
    assert_eq!(first, f.capture_size(), "the size is fixed for the capture's lifetime");

    let sizes: Vec<String> = f
        .calls("scrcpy")
        .iter()
        .map(|call| {
            call.split_whitespace()
                .find_map(|argument| argument.strip_prefix("--camera-size="))
                .unwrap_or("unset")
                .to_string()
        })
        .collect();
    assert_eq!(sizes.len(), 2);
    assert_eq!(sizes[0], sizes[1]);
    assert_eq!(sizes[0], first, "the state names the size in use");
}

#[test]
fn a_missing_module_is_a_packaging_problem_and_not_a_crash() {
    let mut f = ready();
    f.script_virtual_cameras(&[]);

    let response = f.request("start");

    assert!(!response.ok);
    assert_eq!(response.code, "no_virtual_camera");
    assert!(response.message.contains("v4l2loopback"), "{}", response.message);
    assert!(response.message.to_lowercase().contains("install"), "{}", response.message);
    assert!(f.request("status").ok);
}

#[test]
fn the_daemon_never_loads_the_module_itself() {
    let mut f = ready();
    f.request("start");
    f.script_virtual_cameras(&[]);
    f.request("stop");
    f.request("start");

    assert!(!f.run.iter().any(|line| line.starts_with("modprobe")), "{:?}", f.run);
}

#[test]
fn the_cli_starts_and_stops_the_capture() {
    let mut f = ready();

    let out = f.cli(&["start"]);
    assert_eq!(out.code, 0, "start failed: {}", out.stdout);
    assert!(out.stdout.contains("Pixel 7"), "{}", out.stdout);
    assert!(out.stdout.contains("/dev/video42"), "{}", out.stdout);

    let out = f.cli(&["stop"]);
    assert_eq!(out.code, 0, "stop failed: {}", out.stdout);
    assert!(out.stdout.contains("capture: none"), "{}", out.stdout);
}

#[test]
fn starting_again_after_the_capture_died_launches_a_new_one() {
    let mut f = Desk::slow_poll();
    f.script_hold("scrcpy");
    f.script_devices(&[(PIXEL, "device", Some("Pixel_7"))]);
    f.request("refresh");
    assert_eq!(phase(&f.state().connection), "connected");
    f.request("start");
    assert!(running(f.state()));
    f.script_release("scrcpy");
    f.script_hold("scrcpy");

    let response = f.request("start");

    assert!(response.ok, "{}", response.message);
    assert_eq!(f.calls("scrcpy").len(), 2, "the dead capture was replaced");
    assert!(running(f.state()));
}

#[test]
fn stay_awake_is_refused_because_the_preview_requires_control_off() {
    let mut f = ready();

    let response = f.request_with("start", "\"stay_awake\":true");

    assert!(!response.ok);
    assert_eq!(response.code, "preview_conflict");
    assert!(response.message.contains("--no-control"), "{}", response.message);
    assert!(f.state().capture.is_none());
    assert!(f.calls("scrcpy").is_empty(), "{:?}", f.run);

    let out = f.cli(&["start", "--stay-awake"]);
    assert_eq!(out.code, 1, "{}", out.stderr);
    assert!(out.stderr.contains("preview_conflict"), "{}", out.stderr);
    assert!(out.stderr.contains("--no-control"), "{}", out.stderr);
}

#[test]
fn a_capture_that_never_asked_keeps_control_off() {
    let mut f = ready();
    f.request("start");

    assert!(!f.state().capture.as_ref().unwrap().stay_awake);
    let calls = f.calls("scrcpy");
    assert!(calls[0].contains("--no-control"), "{calls:?}");
    assert!(!calls[0].contains("--stay-awake"), "{calls:?}");
    assert!(!calls[0].contains("--no-window"), "{calls:?}");
}

#[test]
fn a_failed_start_offers_the_camera_owner_tip() {
    let mut f = Desk::start();
    f.script_exit("scrcpy", 2);
    f.script_exit_for("scrcpy", "list", 0);
    f.script_devices(&[(PIXEL, "device", Some("Pixel_7"))]);
    f.await_connection("connected");

    let out = f.cli(&["start"]);

    assert_eq!(out.code, 1, "{}", out.stderr);
    assert!(out.stderr.contains("holding the camera"), "{}", out.stderr);
    assert!(!out.stderr.contains("--stay-awake"), "{}", out.stderr);
}

// ---------------------------------------------------------------------------
// Connections

#[test]
fn one_attached_phone_is_selected_automatically_and_named() {
    let mut f = Desk::start();
    f.script_devices(&[(PIXEL, "device", Some("Pixel_7"))]);

    f.await_connection("connected");
    assert_eq!(at_phone(&f.state().connection).serial, PIXEL);
    assert_eq!(at_phone(&f.state().connection).name, "Pixel 7");

    let out = f.cli(&["status"]);
    assert!(out.stdout.contains("Pixel 7"), "{}", out.stdout);
}

#[test]
fn an_unaccepted_debugging_prompt_is_not_the_same_as_no_phone() {
    let mut f = Desk::start();
    f.script_devices(&[(PIXEL, "unauthorized", None)]);

    f.await_connection("unauthorised");
    assert_eq!(at_phone(&f.state().connection).serial, PIXEL);

    let out = f.cli(&["status"]);
    assert!(out.stdout.contains("unauthorised"), "{}", out.stdout);
    assert!(out.stdout.contains("debugging prompt"), "{}", out.stdout);
}

#[test]
fn two_attached_phones_are_not_guessed_between() {
    let mut f = Desk::start();
    f.script_devices(&[
        (PIXEL, "device", Some("Pixel_7")),
        (GALAXY, "device", Some("Galaxy_S21")),
    ]);

    f.await_connection("unselected");
    let Connection::Unselected { available } = &f.state().connection else {
        panic!("unselected");
    };
    let serials: Vec<&str> = available.iter().map(|phone| phone.serial.as_str()).collect();
    assert_eq!(serials, vec![PIXEL, GALAXY]);

    let out = f.cli(&["status"]);
    assert!(out.stdout.contains(PIXEL) && out.stdout.contains(GALAXY), "{}", out.stdout);
}

#[test]
fn an_unauthorised_second_phone_is_never_selected_over_an_authorised_one() {
    let mut f = Desk::start();
    f.script_devices(&[(GALAXY, "unauthorized", None), (PIXEL, "device", Some("Pixel_7"))]);

    f.await_connection("unselected");
    assert!(!f.run.iter().any(|line| line.contains(" -s ")), "{:?}", f.run);
}

#[test]
fn a_selected_phone_survives_a_daemon_restart() {
    let mut f = Desk::start();
    f.script_devices(&[
        (PIXEL, "device", Some("Pixel_7")),
        (GALAXY, "device", Some("Galaxy_S21")),
    ]);
    f.await_connection("unselected");

    let response = f.select(GALAXY);
    assert!(response.ok, "{}", response.message);
    f.await_connection("connected");
    assert_eq!(at_phone(&f.state().connection).serial, GALAXY);

    f.restart();

    f.await_connection("connected");
    assert_eq!(at_phone(&f.state().connection).serial, GALAXY, "the choice is remembered");
}

#[test]
fn the_last_used_phone_is_reselected_when_it_reappears_among_several() {
    let mut f = Desk::start();
    f.script_devices(&[(PIXEL, "device", Some("Pixel_7"))]);
    f.await_connection("connected");

    f.script_devices(&[
        (GALAXY, "device", Some("Galaxy_S21")),
        (PIXEL, "device", Some("Pixel_7")),
    ]);
    f.request("refresh");

    assert_eq!(phase(&f.state().connection), "connected");
    assert_eq!(at_phone(&f.state().connection).serial, PIXEL);
}

#[test]
fn unplugging_the_phone_returns_to_no_phone() {
    let mut f = Desk::start();
    f.script_devices(&[(PIXEL, "device", Some("Pixel_7"))]);
    f.await_connection("connected");

    f.script_devices(&[]);

    f.await_connection("no_phone");
}

#[test]
fn an_offline_phone_is_not_left_connected() {
    let mut f = Desk::start();
    f.script_devices(&[(PIXEL, "device", Some("Pixel_7"))]);
    f.await_connection("connected");

    f.script_devices(&[(PIXEL, "offline", Some("Pixel_7"))]);
    f.script_exit_for("adb", "get-state", 1);
    f.request("refresh");

    assert_eq!(phase(&f.state().connection), "connecting");
}

#[test]
fn every_adb_call_that_addresses_a_phone_names_its_serial() {
    let mut f = Desk::start();
    f.script_devices(&[(PIXEL, "device", Some("Pixel_7"))]);
    f.await_connection("connected");

    let targeted: Vec<String> = f
        .run
        .iter()
        .filter_map(|line| line.strip_prefix("adb ").map(str::to_string))
        .filter(|args| !args.starts_with("start-server") && !args.starts_with("devices"))
        .collect();

    assert!(!targeted.is_empty(), "adb was asked about the phone at all");
    for args in &targeted {
        assert!(args.starts_with(&format!("-s {PIXEL} ")), "untargeted: adb {args}");
    }
}

#[test]
fn selecting_a_phone_that_is_not_attached_is_a_clear_error() {
    let mut f = Desk::start();
    f.script_devices(&[(PIXEL, "device", Some("Pixel_7"))]);
    f.await_connection("connected");

    let response = f.select("nosuchphone");

    assert!(!response.ok);
    assert_eq!(response.code, "no_such_phone");
    assert!(response.message.contains(PIXEL), "{}", response.message);
}

#[test]
fn a_stalled_adb_scan_times_out_instead_of_wedging_the_daemon() {
    let mut f = Desk::slow_poll();
    f.script_hold("adb");

    let response = f.select(PIXEL);

    f.script_release("adb");
    assert!(!response.ok);
    assert_eq!(response.code, "adb_unavailable");
    assert!(f.request("status").ok);
}

#[test]
fn the_cli_can_select_a_phone() {
    let mut f = Desk::start();
    f.script_devices(&[
        (PIXEL, "device", Some("Pixel_7")),
        (GALAXY, "device", Some("Galaxy_S21")),
    ]);
    f.await_connection("unselected");

    let out = f.cli(&["select", GALAXY]);

    assert_eq!(out.code, 0, "select failed: {}", out.stdout);
    assert!(out.stdout.contains("Galaxy S21"), "{}", out.stdout);
}

#[test]
fn select_with_no_serial_says_which_phones_are_attached() {
    let mut f = Desk::start();
    f.script_devices(&[(PIXEL, "device", Some("Pixel_7"))]);
    f.await_connection("connected");

    let out = f.cli(&["select"]);

    assert_eq!(out.code, 1, "{}", out.stderr);
    assert!(out.stderr.contains(PIXEL), "{}", out.stderr);
}

#[test]
fn every_connection_state_carries_the_attached_phones() {
    let mut f = Desk::start();
    f.script_devices(&[(GALAXY, "unauthorized", None), (PIXEL, "device", Some("Pixel_7"))]);

    f.await_state("both phones to be listed", |state| state.attached.len() == 2);
    let attached = &f.state().attached;
    assert_eq!(attached[0].phone.serial, PIXEL);
    assert!(attached[0].authorised);
    assert_eq!(attached[1].phone.serial, GALAXY);
    assert!(!attached[1].authorised);

    f.select(PIXEL);
    f.await_connection("connected");
    assert_eq!(f.state().attached.len(), 2, "the other phone is still on the desk");
}

#[test]
fn adb_reordering_its_output_is_not_a_change() {
    let mut f = Desk::start();
    f.script_devices(&[
        (PIXEL, "device", Some("Pixel_7")),
        (GALAXY, "device", Some("Galaxy_S21")),
    ]);
    f.await_connection("unselected");
    let settled = f.request("status").rev;

    f.script_devices(&[
        (GALAXY, "device", Some("Galaxy_S21")),
        (PIXEL, "device", Some("Pixel_7")),
    ]);
    f.watch();
    f.watch();

    assert_eq!(f.request("status").rev, settled);
}

#[test]
fn selecting_the_selected_phone_burns_no_revision() {
    let mut f = Desk::start();
    f.script_devices(&[
        (PIXEL, "device", Some("Pixel_7")),
        (GALAXY, "device", Some("Galaxy_S21")),
    ]);
    f.await_connection("unselected");

    let first = f.select(PIXEL);
    let again = f.select(PIXEL);

    assert!(first.ok);
    assert!(again.ok);
    assert_eq!(again.rev, first.rev, "the revision counts changes, not requests");
}

// ---------------------------------------------------------------------------
// What is missing

#[test]
fn a_missing_tool_is_named_with_the_package_that_supplies_it() {
    let mut f = Desk::new();
    f.absent.push("scrcpy".to_string());
    f.spawn();

    let missing = &f.state().missing;
    assert_eq!(missing.len(), 1);
    assert_eq!(missing[0].what, "scrcpy");
    assert_eq!(missing[0].install, "sudo pacman -S --needed scrcpy");
}

#[test]
fn a_missing_virtual_camera_is_an_install_and_says_so() {
    let mut f = Desk::start();
    f.script_virtual_cameras(&[]);
    f.await_state("the virtual camera to be missing", |state| !state.missing.is_empty());

    let out = f.cli(&["status"]);
    assert!(out.stdout.contains("the virtual camera"), "{}", out.stdout);
    assert!(
        out.stdout.contains("sudo pacman -S --needed v4l2loopback-dkms"),
        "{}",
        out.stdout
    );
    assert!(out.stdout.contains("modprobe v4l2loopback"), "{}", out.stdout);
}

#[test]
fn a_complete_install_is_missing_nothing() {
    let f = Desk::start();
    assert!(f.state().missing.is_empty(), "{:?}", f.state());
}

// ---------------------------------------------------------------------------
// Settings

#[test]
fn capabilities_are_parsed_and_aspect_ratio_filters_resolutions() {
    let mut f = ready();
    let lens = &f.settings().lenses[0];
    assert_eq!(lens.id, "0");
    assert_eq!(lens.facing, "back");
    assert_eq!(lens.sensor_size, "4080x3060");
    assert_eq!(lens.frame_rates, vec![15, 20, 24, 30]);
    assert_eq!(f64::from_bits(lens.zoom_min.bits), 1.0);
    assert_eq!(f64::from_bits(lens.zoom_max.bits), 8.0);

    assert!(f.set("aspect_ratio", "\"4:3\"").ok);
    assert_eq!(f.settings().offered_resolutions, vec!["640x480"]);
    assert_eq!(f.set("resolution", "\"1280x720\"").code, "invalid_setting");
    assert_eq!(f.set("zoom", "8.1").code, "invalid_setting");
    assert!(f.run.iter().any(|line| line.starts_with("scrcpy-list ")));
}

#[test]
fn malformed_camera_dimensions_are_reported_without_killing_the_daemon() {
    let mut f = Desk::start();
    f.cameras = "--camera-id=0 (back, 0x0, fps={30}, zoom-range=[1, 8])\n  - 0x0\n".to_string();
    f.script_devices(&[(PIXEL, "device", Some("Pixel_7"))]);
    f.await_connection("connected");

    assert!(f.state().settings.is_none());
    assert!(f.request("status").ok);
    assert!(f.logged.iter().any(|line| line.contains("cameras")), "{:?}", f.logged);
}

#[test]
fn malformed_camera_characteristics_are_rejected() {
    for capabilities in [
        "--camera-id=0 (, 1920x1080, fps={30}, zoom-range=[1, 8])\n  - 1280x720\n",
        "--camera-id=0 (back, 1920x1080, fps={0}, zoom-range=[1, 8])\n  - 1280x720\n",
        "--camera-id=0 (back, 1920x1080, fps={30}, zoom-range=[NaN, 8])\n  - 1280x720\n",
        "--camera-id=0 (back, 1920x1080, fps={30}, zoom-range=[8, 1])\n  - 1280x720\n",
        "--camera-id=0 (back, 1920x1080, fps={30}, zoom-range=[-1, 8])\n  - 1280x720\n",
        "--camera-id=0 (back, 1x1080, fps={30}, zoom-range=[1, 8])\n  - 1280x720\n",
        "--camera-id=0 (back, 1920x1080, fps={30}, zoom-range=[1, 8])\n  - 1x1\n",
    ] {
        let mut f = Desk::start();
        f.cameras = capabilities.to_string();
        f.script_devices(&[(PIXEL, "device", Some("Pixel_7"))]);
        f.await_connection("connected");
        assert!(f.state().settings.is_none(), "{capabilities}");
    }
}

#[test]
fn switching_phones_clears_stale_settings_when_the_new_probe_fails() {
    let mut f = ready();
    assert_eq!(f.settings().phone, PIXEL);
    f.script_devices(&[
        (PIXEL, "device", Some("Pixel_7")),
        (GALAXY, "device", Some("Galaxy_S21")),
    ]);
    f.script_exit_for("scrcpy", "list", 1);

    assert!(f.select(GALAXY).ok);
    assert_eq!(at_phone(&f.state().connection).serial, GALAXY);
    assert!(f.state().settings.is_none());
}

#[test]
fn adb_failure_clears_idle_settings_but_preserves_the_reconnecting_phone() {
    let mut f = ready();
    f.script_exit_for("adb", "devices", 1);

    f.request("refresh");

    assert_eq!(phase(&f.state().connection), "no_phone");
    assert!(f.state().settings.is_none());

    f.script_exit_for("adb", "devices", 0);
    f.request("refresh");
    f.await_state("settings to return", |state| state.settings.is_some());
    assert_eq!(f.settings().phone, PIXEL);
    assert!(f.request("start").ok);
    f.script_exit_for("adb", "start-server", 1);

    f.request("refresh");

    assert_eq!(phase(&f.state().connection), "reconnecting");
    assert_eq!(f.settings().phone, PIXEL);
    assert_eq!(f.state().capture.as_ref().unwrap().phone.serial, PIXEL);
}

#[test]
fn changes_are_pending_until_applied_and_discard_leaves_capture_alone() {
    let mut f = ready();
    f.request("start");

    assert!(f.set("zoom", "2.5").ok);
    assert_eq!(zoom(&f.settings().applied), 1.0);
    assert_eq!(zoom(&f.settings().pending), 2.5);
    assert!(f.settings().has_pending_changes);

    assert!(f.request("discard").ok);
    assert_eq!(zoom(&f.settings().pending), 1.0);
    assert_eq!(f.calls("scrcpy").len(), 1);
}

#[test]
fn apply_uses_only_compatible_camera_flags_and_persists_per_phone() {
    let mut f = ready();
    for (name, value) in [
        ("lens", "\"1\""),
        ("aspect_ratio", "\"16:9\""),
        ("resolution", "\"1920x1080\""),
        ("frame_rate", "24"),
        ("zoom", "3.0"),
    ] {
        assert!(f.set(name, value).ok, "{name}");
    }
    assert!(f.request("apply").ok);
    assert!(f.state().capture.is_none(), "Apply does not launch a stopped capture");

    f.request("start");
    let calls = f.calls("scrcpy");
    for argument in [
        "--camera-id=1",
        "--camera-size=1920x1080",
        "--camera-fps=24",
        "--camera-zoom=3",
    ] {
        assert!(calls[0].contains(argument), "missing {argument}: {calls:?}");
    }
    for forbidden in ["--camera-facing", "--camera-ar", "--max-size", " -m "] {
        assert!(!calls[0].contains(forbidden), "forbidden {forbidden}: {calls:?}");
    }

    f.request("stop");
    f.restart();
    f.await_state("restored settings", |state| state.settings.is_some());
    assert_eq!(f.settings().applied.lens, "1");
    assert!(f.settings().pending.same(&f.settings().applied));

    f.script_devices(&[
        (PIXEL, "device", Some("Pixel_7")),
        (GALAXY, "device", Some("Galaxy_S21")),
    ]);
    assert!(f.select(GALAXY).ok);
    assert_eq!(f.settings().phone, GALAXY);
    assert_eq!(f.settings().applied.lens, "0");
    assert!(f.select(PIXEL).ok);
    assert_eq!(f.settings().phone, PIXEL);
    assert_eq!(f.settings().applied.lens, "1");
}

#[test]
fn crop_is_normalized_clamped_and_even_after_a_resolution_change() {
    let mut f = ready();
    let crop = |settings: &CameraSettings, lens: &str| {
        settings.crops.get(lens).map(|crop| {
            [crop.x, crop.y, crop.width, crop.height].map(f64::from_bits)
        })
    };
    assert!(f.set("crop", "{\"x\":0.73,\"y\":0.0,\"width\":0.4,\"height\":0.501}").ok);
    assert!(f.request("apply").ok);
    assert!(f.set("lens", "\"1\"").ok);
    assert_eq!(crop(&f.settings().pending, "1"), None);
    assert!(f.set("lens", "\"0\"").ok);
    assert_eq!(crop(&f.settings().pending, "0"), Some([0.73, 0.0, 0.4, 0.501]));
    assert!(f.set("resolution", "\"1920x1080\"").ok);
    assert!(f.request("apply").ok);
    f.request("start");

    let calls = f.calls("scrcpy");
    assert!(calls[0].contains("--crop=520:540:1400:0"), "{calls:?}");
    assert_eq!(f.capture_size(), "520x540");
    assert_eq!(crop(&f.settings().applied, "0"), Some([0.73, 0.0, 0.4, 0.501]));
}

#[test]
fn size_change_is_refused_for_a_consumer_but_live_safe_apply_restarts() {
    let mut f = ready();
    f.request("start");
    f.consumer = true;

    f.set("resolution", "\"1920x1080\"");
    let refused = f.request("apply");
    assert_eq!(refused.code, "camera_in_use");
    assert!(refused.message.contains("close"), "{}", refused.message);
    assert_eq!(f.calls("scrcpy").len(), 1, "capture was untouched");

    f.request("discard");
    f.set("zoom", "2.0");
    assert!(f.request("apply").ok);
    assert_eq!(f.calls("scrcpy").len(), 2, "same-size capture restarted");
    assert_eq!(zoom(&f.settings().applied), 2.0);

    f.consumer = false;
    f.set("resolution", "\"1920x1080\"");
    assert!(f.request("apply").ok);
    assert_eq!(f.calls("scrcpy").len(), 3, "size change is allowed with no consumer");
    assert_eq!(f.capture_size(), "1920x1080");
}

#[test]
fn uncertain_consumer_inspection_refuses_a_size_change() {
    let mut f = ready();
    f.request("start");
    f.uncertain = true;
    f.script_exit("v4l2-ctl", 2);
    f.set("resolution", "\"1920x1080\"");

    let refused = f.request("apply");

    assert_eq!(refused.code, "consumer_check_failed");
    assert_eq!(f.calls("scrcpy").len(), 1);
}

#[test]
fn bounded_probe_can_prove_an_opaque_process_is_not_a_consumer() {
    let mut f = ready();
    f.request("start");
    f.uncertain = true;
    f.set("resolution", "\"1920x1080\"");

    assert!(f.request("apply").ok);

    assert_eq!(f.calls("scrcpy").len(), 2);
    assert_eq!(f.capture_size(), "1920x1080");
}

#[test]
fn an_opaque_consumer_probe_cannot_hang_apply() {
    let mut f = ready();
    f.request("start");
    f.uncertain = true;
    f.script_hold("v4l2-ctl");
    f.set("resolution", "\"1920x1080\"");

    let refused = f.request("apply");

    assert_eq!(refused.code, "consumer_check_failed");
    assert!(refused.message.contains("did not finish within"), "{}", refused.message);
    assert_eq!(f.calls("scrcpy").len(), 1);
}

#[test]
fn cli_status_enumerates_camera_capabilities() {
    let mut f = ready();

    let output = f.cli(&["status"]).stdout;

    for detail in [
        "lens 0 — back, sensor 4080x3060",
        "resolutions 1920x1080, 1280x720, 640x480",
        "fps 15, 20, 24, 30",
        "zoom [1, 8]",
        "offered resolutions: 1920x1080, 1280x720",
    ] {
        assert!(output.contains(detail), "missing {detail:?}: {output}");
    }
}

#[test]
fn cli_sets_applies_and_discards_settings() {
    let mut f = ready();

    let output = f.cli(&["set", "zoom", "2"]);
    assert_eq!(output.code, 0, "{}", output.stderr);
    assert_eq!(zoom(&f.settings().pending), 2.0);
    assert!(output.stdout.contains("pending Apply"), "{}", output.stdout);

    let output = f.cli(&["discard"]);
    assert_eq!(output.code, 0, "{}", output.stderr);
    assert_eq!(zoom(&f.settings().pending), 1.0);
}

#[test]
fn failed_apply_restarts_the_previous_capture_and_reports_the_rejection() {
    let mut f = ready();
    f.request("start");
    f.script_fail_once("--camera-zoom=2", 2);

    f.set("zoom", "2.0");
    let response = f.request("apply");

    assert_eq!(response.code, "capture_failed", "{}", response.message);
    assert!(response.message.contains("previous capture restarted"), "{}", response.message);
    assert_eq!(zoom(&f.settings().applied), 1.0);
    assert_eq!(zoom(&f.settings().pending), 1.0);
    assert!(f.settings().rejected.as_ref().unwrap().contains("zoom"));
    assert!(running(f.state()));
    let calls = f.calls("scrcpy");
    assert_eq!(calls.len(), 3);
    assert!(calls[1].contains("--camera-zoom=2"), "{calls:?}");
    assert!(calls[2].contains("--camera-zoom=1"), "{calls:?}");
}

#[test]
fn apply_preserves_preview_visibility_and_position() {
    let mut f = ready();
    f.window = Some([333, 222]);
    f.request_with("start", "\"rounding\":8,\"border_size\":2");

    f.set("zoom", "2.0");
    assert!(f.request("apply").ok);
    assert!(f.state().capture.as_ref().unwrap().preview);
    let placed = |argv: &[String], before: usize, placement: &str| {
        argv[..before].iter().rev().any(|line| {
            line.starts_with("hyprctl eval ")
                && line.contains("omavcam-preview")
                && line.contains(placement)
        })
    };
    assert!(placed(&f.run, nth_launch(&f.run, 1), "move = { 333, 222 }"), "{:?}", f.run);

    f.request_with("preview", "\"visible\":false,\"rounding\":8,\"border_size\":2");
    f.set("zoom", "3.0");
    assert!(f.request("apply").ok);
    assert!(!f.state().capture.as_ref().unwrap().preview);
    assert!(placed(&f.run, nth_launch(&f.run, 2), "move = { -641, 0 }"), "{:?}", f.run);

    f.request_with("preview", "\"visible\":true,\"rounding\":8,\"border_size\":2");
    assert!(f.run.iter().rev().any(|line| {
        line.contains("hl.dsp.window.move") && line.contains("x = 333") && line.contains("y = 222")
    }));
}

// ---------------------------------------------------------------------------
// The protocol

#[test]
fn status_prints_the_state_and_exits_zero() {
    let mut f = Desk::start();
    let out = f.cli(&["status"]);

    assert_eq!(out.code, 0, "status failed: {}", out.stdout);
    assert!(out.stdout.contains("phone: none"), "{}", out.stdout);
    assert!(out.stdout.contains("capture: none"), "{}", out.stdout);
}

#[test]
fn extra_cli_arguments_are_rejected_instead_of_ignored() {
    let mut f = Desk::start();

    let out = f.cli(&["status", "surprise"]);

    assert_eq!(out.code, 2);
    assert!(out.stderr.contains("usage:"), "{}", out.stderr);
}

#[test]
fn the_first_activated_status_includes_an_already_attached_phone() {
    let mut f = Desk::new();
    f.script_devices(&[("39281FDJH0031T", "device", Some("Pixel_7"))]);
    f.spawn();

    let out = f.cli(&["status"]);

    assert_eq!(out.code, 0, "{}", out.stderr);
    assert!(out.stdout.contains("Pixel 7"), "{}", out.stdout);
    assert!(out.stdout.contains("connected"), "{}", out.stdout);
}

#[test]
fn the_harness_records_argv() {
    let mut f = Desk::start();
    f.run.clear();
    f.request("refresh");

    assert!(f.run.iter().any(|line| line == "adb start-server"), "{:?}", f.run);
}

#[test]
fn every_client_is_pushed_the_whole_state_when_it_changes() {
    let mut f = Desk::start();
    let before = f.core.rev;
    assert!(f.state().adb_ok);
    let seen = f.pushed.len();

    f.script_exit("adb", 1);
    f.request("refresh");

    let (rev, state) = &f.pushed[seen];
    assert!(!state.adb_ok);
    assert!(*rev > before, "revision must increase: {before} then {rev}");
    let message: Value = serde_json::from_str(&state_message(*rev, "{\"adb_ok\":false}")).unwrap();
    assert_eq!(message["v"], 4);
    assert_eq!(message["type"], "state");
    assert_eq!(message["rev"], *rev);
    assert_eq!(message["state"]["adb_ok"], false);
}

#[test]
fn a_response_names_the_revision_that_reflects_it() {
    let mut f = Desk::start();
    let initial = f.core.rev;

    f.script_exit("adb", 1);
    let response = f.request("refresh");

    let (rev, state) = f.pushed.last().unwrap();
    assert_eq!(response.rev, *rev);
    assert!(response.rev > initial);
    assert!(!state.adb_ok);
}

#[test]
fn a_request_that_changes_nothing_does_not_burn_a_revision() {
    let mut f = Desk::start();
    let initial = f.core.rev;

    let response = f.request("refresh");

    assert!(response.ok);
    assert_eq!(response.rev, initial, "the revision counts changes, not requests");
}

#[test]
fn reconnecting_after_a_daemon_restart_needs_no_resync() {
    let mut f = Desk::start();
    f.restart();
    assert!(f.pushed[0].1.capture.is_none());
    assert!(f.state().capture.is_none());
}

#[test]
fn an_unknown_protocol_version_is_rejected_clearly() {
    let mut f = Desk::start();

    let response = f.send("{\"v\":99,\"id\":\"x\",\"kind\":\"status\"}");

    assert!(!response.ok);
    assert_eq!(response.id, "x", "the id still comes back");
    assert_eq!(response.code, "unsupported_version");
    assert_eq!(response.message, "daemon speaks protocol 4, client sent Some(99)");
}

#[test]
fn an_unknown_request_is_an_error_not_a_hang() {
    let mut f = Desk::start();

    let response = f.request("teleport");

    assert!(!response.ok);
    assert_eq!(response.code, "unknown_request");
    assert_eq!(response.message, "no such request kind: Some(\"teleport\")");
}

#[test]
fn a_message_past_the_bound_is_rejected() {
    let mut f = Desk::start();

    let huge = "x".repeat(200 * 1024);
    let response = f.send(&format!("{{\"v\":4,\"id\":\"x\",\"kind\":\"{huge}\"}}"));

    assert_eq!(response.code, "message_too_large");
}

#[test]
fn a_newline_one_byte_past_the_bound_is_rejected() {
    let mut f = Desk::start();
    let prefix = r#"{"v":4,"id":"x","kind":""#;
    let suffix = r#""}"#;
    let raw =
        format!("{prefix}{}{suffix}", "x".repeat(64 * 1024 - prefix.len() - suffix.len()));
    assert_eq!(raw.len(), 64 * 1024);

    let response = f.send(&raw);

    assert_eq!(response.code, "message_too_large");
    assert_eq!(response.message, "request exceeds 65536 bytes");
}

#[test]
fn the_cli_exit_code_reflects_a_failed_request() {
    let mut f = Desk::start();
    f.script_exit("adb", 1);

    let out = f.cli(&["refresh"]);

    assert_eq!(out.code, 1, "stderr: {}", out.stderr);
    assert!(out.stderr.contains("adb_unavailable"), "{}", out.stderr);
    assert!(out.stdout.contains("adb: unavailable"), "{}", out.stdout);
}

// ---------------------------------------------------------------------------
// Wireless

#[test]
fn pairing_and_connecting_use_their_own_endpoints() {
    let mut f = Desk::slow_poll();
    f.script_output_for("adb", "pair", "Successfully paired\n");
    f.script_output_for("adb", "connect", &format!("connected to {CONNECT_ADDRESS}\n"));
    f.script_output_for("adb", "shell", &format!("{STABLE_ID}\n"));
    f.script_devices(&[(CONNECT_ADDRESS, "device", Some("Pixel_7"))]);

    let response = f.pair(PAIR_ADDRESS);

    assert!(response.ok, "{}", response.message);
    assert_eq!(phase(&f.state().connection), "connected");
    assert_eq!(f.state().known[0].phone.name, "Pixel 7");
    let calls = f.run.clone();
    assert!(calls.contains(&format!("adb pair {PAIR_ADDRESS} {CODE}")), "{calls:?}");
    assert!(calls.contains(&format!("adb connect {CONNECT_ADDRESS}")), "{calls:?}");
    assert!(calls.contains(&format!("adb -s {CONNECT_ADDRESS} get-state")), "{calls:?}");
    assert!(!calls.iter().any(|call| call.contains("tcpip")), "{calls:?}");
    for call in calls.iter().filter_map(|call| call.strip_prefix("adb ")) {
        if ["start-server", "devices", "pair", "connect", "disconnect"]
            .iter()
            .any(|global| call.starts_with(global))
        {
            continue;
        }
        assert!(call.starts_with(&format!("-s {CONNECT_ADDRESS} ")), "untargeted: adb {call}");
    }
}

#[test]
fn a_paired_phone_reconnects_after_a_daemon_restart_without_pairing_again() {
    let mut f = Desk::slow_poll();
    f.script_output_for("adb", "pair", "Successfully paired\n");
    f.script_output_for("adb", "connect", "connected\n");
    f.script_output_for("adb", "shell", &format!("{STABLE_ID}\n"));
    f.script_devices(&[(CONNECT_ADDRESS, "device", Some("Pixel_7"))]);
    assert!(f.pair(PAIR_ADDRESS).ok);

    f.script_devices(&[]);
    f.script_devices_on_connect(&[(CONNECT_ADDRESS, "device", Some("Pixel_7"))]);
    f.restart();

    assert_eq!(phase(&f.state().connection), "connected");
    assert_eq!(f.calls("adb pair").len(), 1, "{:?}", f.run);
    let connects =
        f.run.iter().filter(|call| **call == format!("adb connect {CONNECT_ADDRESS}")).count();
    assert!(connects >= 2, "{:?}", f.run);
}

#[test]
fn a_wrong_pairing_code_is_named() {
    let mut f = Desk::slow_poll();
    f.script_devices(&[(WIRED, "device", Some("Galaxy_S21"))]);
    f.request("refresh");
    assert_eq!(phase(&f.state().connection), "connected");
    f.request("begin_pairing");
    f.script_output_for("adb", "pair", "Failed: Wrong password\n");
    f.script_exit_for("adb", "pair", 1);

    let response = f.pair(PAIR_ADDRESS);

    assert_eq!(response.code, "wrong_code", "{}", response.message);
    assert_eq!(
        f.state().connection,
        Connection::PairingFailed { reason: PairingFailure::WrongCode }
    );
    assert_eq!(f.state().attached[0].phone.serial, WIRED);
}

#[test]
fn a_wrong_pairing_address_is_named_without_running_malformed_adb() {
    let mut f = Desk::slow_poll();

    let response = f.pair("not-an-endpoint");

    assert_eq!(response.code, "wrong_pair_address", "{}", response.message);
    assert_eq!(
        f.state().connection,
        Connection::PairingFailed { reason: PairingFailure::WrongAddress }
    );
    assert!(f.calls("adb pair").is_empty());
}

#[test]
fn an_unreachable_pairing_host_names_the_network() {
    let mut f = Desk::slow_poll();
    f.script_output_for("adb", "pair", "failed to connect: Connection timed out\n");
    f.script_exit_for("adb", "pair", 1);

    let response = f.pair(PAIR_ADDRESS);

    assert_eq!(response.code, "unreachable", "{}", response.message);
    assert!(response.message.contains("different network"), "{}", response.message);
    assert_eq!(
        f.state().connection,
        Connection::PairingFailed { reason: PairingFailure::Unreachable }
    );
}

#[test]
fn a_paired_phone_with_a_changed_port_is_unreachable_then_reconnected_without_pairing() {
    let mut f = Desk::slow_poll();
    f.script_output_for("adb", "pair", "Successfully paired\n");
    f.script_output_for("adb", "connect", "connected\n");
    f.script_output_for("adb", "shell", &format!("{STABLE_ID}\n"));
    f.script_devices(&[(CONNECT_ADDRESS, "device", Some("Pixel_7"))]);
    assert!(f.pair(PAIR_ADDRESS).ok);

    f.script_devices(&[]);
    f.script_exit_for("adb", "connect", 1);
    f.request("refresh");
    assert_eq!(phase(&f.state().connection), "unreachable");
    let status = f.cli(&["status"]).stdout;
    assert!(status.contains("same network"), "{status}");
    assert!(status.contains("do not pair again"), "{status}");

    f.script_exit_for("adb", "connect", 0);
    f.script_devices_on_connect(&[(NEW_CONNECT_ADDRESS, "device", Some("Pixel_7"))]);
    let response = f.request_with(
        "connect",
        &format!(
            "\"serial\":\"{CONNECT_ADDRESS}\",\"connect_address\":\"{NEW_CONNECT_ADDRESS}\""
        ),
    );

    assert!(response.ok, "{}", response.message);
    assert_eq!(phase(&f.state().connection), "connected");
    assert_eq!(at_phone(&f.state().connection).serial, NEW_CONNECT_ADDRESS);
    assert_eq!(f.state().known.len(), 1);
    assert_eq!(f.state().known[0].id, STABLE_ID);
    assert_eq!(f.state().known[0].phone.name, "Pixel 7");
    assert!(f.run.contains(&format!("adb connect {NEW_CONNECT_ADDRESS}")), "{:?}", f.run);
    assert_eq!(f.calls("adb pair").len(), 1, "{:?}", f.run);
}

#[test]
fn wired_and_wireless_phones_share_the_registry_and_selection() {
    let mut f = Desk::slow_poll();
    f.script_output_for("adb", "pair", "Successfully paired\n");
    f.script_output_for("adb", "connect", "connected\n");
    f.script_devices(&[(CONNECT_ADDRESS, "device", Some("Pixel_7"))]);
    f.pair(PAIR_ADDRESS);

    f.script_devices(&[
        (CONNECT_ADDRESS, "device", Some("Pixel_7")),
        (WIRED, "device", Some("Galaxy_S21")),
    ]);
    let response = f.select(WIRED);

    assert!(response.ok, "{}", response.message);
    let known = &f.state().known;
    assert_eq!(known.len(), 2, "{known:?}");
    assert!(known.iter().any(|known| {
        known.phone.name == "Pixel 7" && known.transport == Transport::Wireless
    }));
    assert!(known.iter().any(|known| {
        known.phone.name == "Galaxy S21" && known.transport == Transport::Wired
    }));

    f.restart();
    assert_eq!(phase(&f.state().connection), "connected");
    assert_eq!(at_phone(&f.state().connection).serial, WIRED);
    assert_eq!(f.state().known.len(), 2);
}

#[test]
fn the_same_phone_is_one_registry_entry_across_transports() {
    let mut f = Desk::slow_poll();
    f.script_devices(&[(STABLE_ID, "device", Some("Pixel_7"))]);
    f.request("refresh");
    assert_eq!(phase(&f.state().connection), "connected");
    assert_eq!(f.state().known.len(), 1);

    f.request("begin_pairing");
    f.script_output_for("adb", "pair", "Successfully paired\n");
    f.script_output_for("adb", "connect", "connected\n");
    f.script_output_for("adb", "shell", &format!("{STABLE_ID}\n"));
    f.script_devices(&[(CONNECT_ADDRESS, "device", Some("Pixel_7"))]);
    let response = f.pair(PAIR_ADDRESS);

    assert!(response.ok, "{}", response.message);
    let known = &f.state().known;
    assert_eq!(known.len(), 1, "{known:?}");
    assert_eq!(known[0].id, STABLE_ID);
    assert_eq!(known[0].transport, Transport::Wireless);
    assert_eq!(known[0].connect_address.as_deref(), Some(CONNECT_ADDRESS));

    f.script_devices(&[(STABLE_ID, "device", Some("Pixel_7"))]);
    assert!(f.select(STABLE_ID).ok);
    assert_eq!(f.state().known.len(), 1);
    assert_eq!(f.state().known[0].connect_address.as_deref(), Some(CONNECT_ADDRESS));

    f.script_devices(&[]);
    f.script_devices_on_connect(&[(CONNECT_ADDRESS, "device", Some("Pixel_7"))]);
    f.request("refresh");
    assert_eq!(phase(&f.state().connection), "connected");
    assert_eq!(at_phone(&f.state().connection).serial, CONNECT_ADDRESS);
    assert_eq!(f.state().known.len(), 1);
}

#[test]
fn a_paired_phone_can_be_forgotten() {
    let mut f = Desk::slow_poll();
    f.script_output_for("adb", "pair", "Successfully paired\n");
    f.script_output_for("adb", "connect", "connected\n");
    f.script_devices(&[(CONNECT_ADDRESS, "device", Some("Pixel_7"))]);
    f.pair(PAIR_ADDRESS);
    f.script_devices(&[]);

    let response = f.request_with("forget", &format!("\"serial\":\"{CONNECT_ADDRESS}\""));

    assert!(response.ok, "{}", response.message);
    assert!(f.state().known.is_empty());
    assert_eq!(phase(&f.state().connection), "needs_pairing");
    assert!(f.run.contains(&format!("adb disconnect {CONNECT_ADDRESS}")), "{:?}", f.run);
}

#[test]
fn an_unreachable_known_wireless_phone_can_still_be_selected() {
    let mut f = Desk::slow_poll();
    f.script_output_for("adb", "pair", "Successfully paired\n");
    f.script_output_for("adb", "connect", "connected\n");
    f.script_devices(&[(CONNECT_ADDRESS, "device", Some("Pixel_7"))]);
    f.pair(PAIR_ADDRESS);
    f.script_devices(&[(WIRED, "device", Some("Galaxy_S21"))]);
    f.select(WIRED);
    f.script_exit_for("adb", "connect", 1);

    let response = f.select(CONNECT_ADDRESS);

    assert!(response.ok, "{}", response.message);
    assert_eq!(phase(&f.state().connection), "unreachable");
    assert_eq!(at_phone(&f.state().connection).name, "Pixel 7");
}

#[test]
fn the_cli_enters_pairing_and_accepts_both_endpoints() {
    let mut f = Desk::slow_poll();
    let pairing = f.cli(&["pair"]);
    assert_eq!(pairing.code, 0);
    assert!(pairing.stdout.contains("Pair device with pairing code"), "{}", pairing.stdout);
    assert!(pairing.stdout.contains("different"), "{}", pairing.stdout);

    f.script_output_for("adb", "pair", "Successfully paired\n");
    f.script_output_for("adb", "connect", "connected\n");
    f.script_output_for("adb", "shell", &format!("{STABLE_ID}\n"));
    f.script_devices(&[(CONNECT_ADDRESS, "device", Some("Pixel_7"))]);
    let paired = f.cli(&["pair", PAIR_ADDRESS, CODE, CONNECT_ADDRESS]);

    assert_eq!(paired.code, 0, "{}", paired.stdout);
    assert!(paired.stdout.contains("Pixel 7"), "{}", paired.stdout);
    let listed = f.cli(&["phones"]).stdout;
    assert!(listed.contains("Pixel 7"), "{listed}");
    assert!(listed.contains("wireless"), "{listed}");
}

#[test]
fn pairing_guidance_is_a_phase_not_a_polling_blip() {
    let mut f = Desk::start();
    f.script_devices(&[(WIRED, "device", Some("Galaxy_S21"))]);
    f.await_connection("connected");
    assert!(f.request("begin_pairing").ok);

    f.watch();
    f.watch();

    f.request("status");
    assert_eq!(phase(&f.state().connection), "needs_pairing");
}

#[test]
fn connect_output_alone_does_not_make_an_absent_phone_connected() {
    let mut f = Desk::slow_poll();
    f.script_output_for("adb", "pair", "Successfully paired\n");
    f.script_output_for("adb", "connect", "connected\n");
    f.script_devices(&[]);

    let response = f.pair(PAIR_ADDRESS);

    assert_eq!(response.code, "unreachable", "{}", response.message);
    assert_eq!(phase(&f.state().connection), "unreachable");
}

// ---------------------------------------------------------------------------
// What is refused, and how

#[test]
fn requests_that_say_too_little_are_refused() {
    let mut f = Desk::start();
    let nothing = f.send("not json");
    assert_eq!(nothing.code, "bad_json");
    assert_eq!(nothing.message, "expected ident at line 1 column 2");
    assert!(nothing.id.is_null());

    let anonymous = f.send("{\"v\":4,\"kind\":\"status\"}");
    assert_eq!(anonymous.code, "missing_id");
    assert_eq!(anonymous.message, "every request needs an id");

    let unversioned = f.send("{\"id\":7,\"kind\":\"status\"}");
    assert_eq!(unversioned.code, "unsupported_version");
    assert_eq!(unversioned.message, "daemon speaks protocol 4, client sent None");
    assert_eq!(unversioned.id, 7);

    let kindless = f.send("{\"v\":4,\"id\":\"x\"}");
    assert_eq!(kindless.code, "unknown_request");
    assert_eq!(kindless.message, "no such request kind: None");

    let vague = f.request("preview");
    assert_eq!(vague.code, "bad_request");
    assert_eq!(vague.message, "preview needs a boolean visible field");
}

#[test]
fn any_id_comes_back_as_it_was() {
    let mut f = Desk::start();
    for id in ["\"7\"", "7", "-1", "0.1", "1.2345678901234567e-100", "[1,{\"a\":null}]", "true"] {
        let response = f.send(&format!("{{\"v\":4,\"id\":{id},\"kind\":\"status\"}}"));
        assert!(response.ok);
        let sent: Value = serde_json::from_str(id).unwrap();
        assert_eq!(response.id, sent, "{id}");
    }
}

#[test]
fn a_preview_needs_a_capture() {
    let mut f = ready();
    let response = f.request_with("preview", "\"visible\":true");
    assert_eq!(response.code, "no_capture");
    assert_eq!(response.message, "start a capture before opening its preview");
}

#[test]
fn the_preview_style_is_kept_in_range() {
    let mut f = ready();
    f.request_with("start", "\"rounding\":21,\"border_size\":1000");
    assert_eq!(f.state().preview_style, PreviewStyle { rounding: 20, border_size: 20 });
    f.request_with("preview", "\"visible\":true");
    assert_eq!(f.state().preview_style, PreviewStyle { rounding: 0, border_size: 1 });
}

#[test]
fn a_missing_scrcpy_is_named_when_it_is_launched() {
    let mut f = ready();
    f.absent.push("scrcpy".to_string());
    let response = f.request("start");
    assert_eq!(response.code, "capture_failed");
    assert_eq!(
        response.message,
        "could not launch scrcpy: No such file or directory (os error 2); \
         install scrcpy and try again"
    );
}

#[test]
fn a_scrcpy_that_never_feeds_is_ended() {
    let mut f = ready();
    f.feeds = false;
    let response = f.request("start");
    assert_eq!(response.code, "capture_failed");
    assert_eq!(
        response.message,
        "scrcpy did not start: scrcpy did not make /dev/video42 capture-capable within 500ms"
    );
    assert!(f.writer.is_none());
    assert!(f.state().capture.is_none());
}

#[test]
fn a_preview_that_never_appears_ends_the_capture() {
    let mut f = ready();
    f.window = None;
    let response = f.request("start");
    assert_eq!(response.code, "capture_failed");
    assert_eq!(
        response.message,
        "scrcpy did not start: preview window did not appear within 500ms: \
         preview window is not mapped"
    );
    assert!(f.writer.is_none());
}

#[test]
fn a_compositor_that_refuses_the_rule_fails_the_start() {
    let mut f = ready();
    f.script_exit_for("hyprctl", "eval", 3);
    let response = f.request("start");
    assert_eq!(response.code, "capture_failed");
    assert_eq!(
        response.message,
        "could not prepare the preview: hyprctl eval failed (exit status: 3)"
    );
    assert!(f.calls("scrcpy").is_empty());
}

#[test]
fn a_preview_that_cannot_be_found_is_not_hidden() {
    let mut f = ready();
    f.request("start");
    f.window = None;
    let response = f.request_with("preview", "\"visible\":false");
    assert_eq!(response.code, "preview_failed");
    assert_eq!(
        response.message,
        "could not locate the preview: preview window is not mapped"
    );
    assert!(f.state().capture.as_ref().unwrap().preview);
}

#[test]
fn settings_of_a_phone_that_lists_no_cameras_are_refused() {
    let mut f = Desk::start();
    f.cameras = "no cameras here\n".to_string();
    f.script_devices(&[(PIXEL, "device", Some("Pixel_7"))]);
    f.await_connection("connected");
    for kind in ["start", "apply"] {
        let response = f.request(kind);
        assert_eq!(response.code, "capabilities_failed");
        assert_eq!(response.message, "scrcpy returned no usable camera capabilities");
    }
    assert_eq!(f.set("zoom", "2").code, "capabilities_failed");
    assert_eq!(f.request("discard").code, "no_phone");
}

#[test]
fn nothing_is_set_without_a_phone() {
    let mut f = Desk::start();
    let response = f.set("zoom", "2");
    assert_eq!(response.code, "no_phone");
    assert_eq!(
        response.message,
        "no phone is attached; plug one in and select it with: omavcam select <serial>"
    );
    assert_eq!(f.request("apply").code, "no_phone");
    assert_eq!(f.request("start").code, "no_phone");
    f.script_exit_for("adb", "devices", 1);
    assert_eq!(f.set("zoom", "2").code, "adb_unavailable");
    assert_eq!(f.request("apply").code, "adb_unavailable");
    assert_eq!(f.request("start").code, "adb_unavailable");
    assert_eq!(f.select(PIXEL).code, "adb_unavailable");
}

#[test]
fn values_that_are_none_are_refused() {
    let mut f = ready();
    for (setting, value, message) in [
        ("lens", "3", "setting value must be a string"),
        ("lens", "\"9\"", "lens \"9\" is not available"),
        ("resolution", "\"1x1\"", "invalid resolution \"1x1\""),
        (
            "resolution",
            "\"640x480\"",
            "resolution \"640x480\" is not offered for lens 0 at 16:9",
        ),
        ("frame_rate", "29.5", "frame_rate must be a positive integer"),
        ("frame_rate", "60", "frame rate 60 is not reported by lens 0"),
        ("aspect_ratio", "\"1:1\"", "aspect ratio \"1:1\" is not offered by lens 0"),
        ("zoom", "\"2\"", "zoom must be a number"),
        ("zoom", "8.1", "zoom 8.1 is outside lens 0's range [1, 8]"),
        ("zoom", "0.5", "zoom 0.5 is outside lens 0's range [1, 8]"),
        ("crop", "{\"x\":0}", "crop must contain numeric x, y, width and height"),
        (
            "crop",
            "{\"x\":1,\"y\":0,\"width\":1,\"height\":1}",
            "crop coordinates must be finite normalized values",
        ),
        (
            "crop",
            "{\"x\":0,\"y\":0,\"width\":0,\"height\":1}",
            "crop coordinates must be finite normalized values",
        ),
        ("exposure", "1", "no such camera setting: \"exposure\""),
    ] {
        let response = f.set(setting, value);
        assert_eq!(response.code, "invalid_setting", "{setting} {value}");
        if message.starts_with("invalid resolution") {
            continue;
        }
        assert_eq!(response.message, message, "{setting} {value}");
    }
    assert!(!f.settings().has_pending_changes);
}

#[test]
fn settings_that_cannot_be_kept_are_not_applied() {
    let mut f = ready();
    f.request("start");
    f.set("zoom", "2");
    f.unwritable = true;
    let response = f.request("apply");
    assert_eq!(response.code, "apply_not_persisted");
    assert_eq!(response.message, "could not persist Apply: No space left on device");
    assert_eq!(zoom(&f.settings().applied), 1.0);
    assert_eq!(zoom(&f.settings().pending), 2.0);
    assert!(f.core.registry.settings.get(PIXEL).is_none());
    assert_eq!(f.calls("scrcpy").len(), 1);
}

#[test]
fn a_rollback_that_fails_ends_the_capture() {
    let mut f = ready();
    f.request("start");
    f.set("zoom", "2");
    f.script_fail_once("--camera-zoom=2", 2);
    f.script_fail_once("--camera-zoom=1", 3);
    let response = f.request("apply");
    assert_eq!(response.code, "rollback_failed");
    assert!(
        response.message.ends_with(
            "restarting the previous capture also failed: \
             scrcpy exited during startup with exit status: 3"
        ),
        "{}",
        response.message
    );
    assert!(f.state().capture.is_none());
    assert!(!matches!(f.writer, Some((_, None))), "nothing runs");
    assert_eq!(zoom(&f.settings().applied), 1.0);
    assert_eq!(f.settings().rejected.as_ref(), Some(&response.message));
}

#[test]
fn a_camera_in_use_keeps_what_is_pending() {
    let mut f = ready();
    f.request("start");
    f.consumer = true;
    f.set("resolution", "\"1920x1080\"");
    let response = f.request("apply");
    assert_eq!(
        response.message,
        "/dev/video42 is in use; close the application using it before changing frame size \
         from 1280x720 to 1920x1080"
    );
    assert_eq!(f.settings().applied.resolution, "1280x720");
    assert_eq!(f.settings().pending.resolution, "1920x1080");
    assert_eq!(f.settings().rejected.as_ref(), Some(&response.message));
    assert_eq!(f.capture_size(), "1280x720");
}

#[test]
fn a_wrong_connect_address_is_refused_before_anything_runs() {
    let mut f = Desk::slow_poll();
    f.run.clear();
    let fields = "\"serial\":\"x\",\"connect_address\":\"nowhere\"";
    let response = f.request_with("connect", fields);
    assert_eq!(response.code, "wrong_connect_address");
    let response = f.request_with(
        "pair",
        &format!(
            "\"pair_address\":\"{PAIR_ADDRESS}\",\"code\":\"{CODE}\",\
             \"connect_address\":\"nowhere\""
        ),
    );
    assert_eq!(response.code, "wrong_connect_address");
    assert!(f.run.is_empty(), "{:?}", f.run);
    let fields = format!("\"serial\":\"x\",\"connect_address\":\"{CONNECT_ADDRESS}\"");
    let response = f.request_with("connect", &fields);
    assert_eq!(response.code, "no_such_phone");
    assert_eq!(response.message, "no paired phone \"x\" is known");
    let response = f.request_with("forget", "\"serial\":\"x\"");
    assert_eq!(response.code, "no_such_phone");
    assert_eq!(response.message, "no known phone \"x\"");
}

fn paired() -> Desk {
    let mut f = Desk::slow_poll();
    f.script_output_for("adb", "pair", "Successfully paired\n");
    f.script_output_for("adb", "connect", "connected\n");
    f.script_output_for("adb", "shell", &format!("{STABLE_ID}\n"));
    f.script_devices(&[(CONNECT_ADDRESS, "device", Some("Pixel_7"))]);
    assert!(f.pair(PAIR_ADDRESS).ok);
    f
}

fn reconnect(f: &mut Desk) -> Response {
    f.script_devices_on_connect(&[(NEW_CONNECT_ADDRESS, "device", Some("Pixel_7"))]);
    f.request_with(
        "connect",
        &format!(
            "\"serial\":\"{CONNECT_ADDRESS}\",\"connect_address\":\"{NEW_CONNECT_ADDRESS}\""
        ),
    )
}

#[test]
fn a_new_address_must_prove_to_be_the_same_phone() {
    let mut f = paired();
    f.script_output_for("adb", "shell", "SOMEONE-ELSE\n");
    let response = reconnect(&mut f);
    assert_eq!(response.code, "wrong_phone");
    assert!(f.run.contains(&format!("adb disconnect {NEW_CONNECT_ADDRESS}")), "{:?}", f.run);
    assert_eq!(f.core.registry.selected.as_deref(), Some(CONNECT_ADDRESS));

    let mut f = paired();
    f.script_exit_for("adb", "shell", 1);
    let response = reconnect(&mut f);
    assert_eq!(response.code, "phone_identity_failed");
    assert_eq!(f.state().known[0].connect_address.as_deref(), Some(CONNECT_ADDRESS));
}

#[test]
fn a_capture_follows_its_phone_to_a_new_address() {
    let mut f = paired();
    f.script_hold("scrcpy");
    assert!(f.request("start").ok);
    assert_eq!(f.state().capture.as_ref().unwrap().phone.serial, CONNECT_ADDRESS);
    assert!(reconnect(&mut f).ok);
    assert_eq!(f.state().capture.as_ref().unwrap().phone.serial, NEW_CONNECT_ADDRESS);
    let calls = f.calls("scrcpy");
    assert_eq!(calls.len(), 2);
    assert!(calls[1].contains(&format!("-s {NEW_CONNECT_ADDRESS}")), "{calls:?}");
    let (rev, state) = f.pushed.last().unwrap();
    assert_eq!(*rev, f.core.rev);
    assert!(state.same(&f.core.state), "clients have the state that the move left");
}

#[test]
fn forgetting_the_captured_phone_ends_its_capture() {
    let mut f = ready();
    f.request("start");
    let response = f.request_with("forget", &format!("\"serial\":\"{PIXEL}\""));
    assert!(response.ok, "{}", response.message);
    assert!(f.state().capture.is_none());
    assert!(f.writer.is_none());
    assert!(f.core.registry.settings.get(PIXEL).is_none());
}

// ---------------------------------------------------------------------------
// What holds of every operation

fn busy_day() -> Desk {
    let mut f = ready();
    f.request("start");
    f.request_with("preview", "\"visible\":false");
    f.request_with("preview", "\"visible\":true");
    f.set("zoom", "2");
    f.request("apply");
    f.script_devices(&[]);
    f.watch();
    f.script_devices(&[(PIXEL, "device", Some("Pixel_7")), (GALAXY, "device", None)]);
    f.watch();
    f.script_release("scrcpy");
    f.script_hold("scrcpy");
    f.watch();
    f.watch();
    f.select(GALAXY);
    f.request("start");
    f.request("begin_pairing");
    f.request_with("forget", &format!("\"serial\":\"{GALAXY}\""));
    f.select(PIXEL);
    f.request("stop");
    f
}

#[test]
fn clients_have_every_state_once() {
    let f = busy_day();
    assert!(f.pushed.len() > 10);
    for pair in f.pushed.windows(2) {
        assert_eq!(pair[1].0, pair[0].0 + 1, "each state carries the next revision");
        assert!(!pair[1].1.same(&pair[0].1), "a state was sent twice");
    }
    let (rev, state) = f.pushed.last().unwrap();
    assert_eq!(*rev, f.core.rev);
    assert!(state.same(&f.core.state));
}

#[test]
fn only_known_tools_are_run_and_phones_are_named() {
    let f = busy_day();
    for line in &f.run {
        let argv: Vec<&str> = line.split(' ').collect();
        match argv[0] {
            "adb" => assert!(
                ["-s", "start-server", "devices", "connect", "disconnect"].contains(&argv[1]),
                "{line}"
            ),
            "scrcpy" => {
                assert_eq!(argv[1], "-s", "{line}");
                assert!(argv.contains(&"--no-control"), "{line}");
            }
            "scrcpy-list" => assert_eq!(argv[1], "-s", "{line}"),
            "v4l2-ctl" | "hyprctl" => {}
            other => panic!("{other} was run"),
        }
    }
}

#[test]
fn an_operation_goes_on_from_what_it_was_answered() {
    let mut f = Desk::start();
    f.script_devices(&[(PIXEL, "device", Some("Pixel_7"))]);
    let operation = Operation::Survey;
    let mut answers: Vec<Answer> = vec![];
    let mut before: Vec<String> = vec![];
    let mut ends = 0;
    loop {
        let progress = advance(&f.core, &operation, answers.copy(), STARTUP_MS, PREVIEW_MS);
        let trace: Vec<String> = progress.trace.iter().map(|act| format!("{act:?}")).collect();
        assert!(trace.len() >= before.len() && trace[..before.len()] == before[..]);
        if let Some(result) = &progress.result {
            assert!(result.is_ok());
            ends += 1;
            if ends == 2 {
                assert_eq!(trace, before, "what has ended has ended");
                break;
            }
            answers.push(Answer::Done);
            before = trace;
            continue;
        }
        for act in &progress.trace[before.len()..] {
            if let Some(answer) = f.act(act) {
                answers.push(answer);
            }
        }
        before = trace;
    }
    assert!(answers.len() > 3);
}

#[test]
fn an_operation_without_answers_waits_for_its_first_act() {
    let f = Desk::start();
    let progress = advance(&f.core, &Operation::Refresh, vec![], STARTUP_MS, PREVIEW_MS);
    assert!(progress.result.is_none());
    assert_eq!(progress.trace.len(), 1);
    let Act::Run { argv, collect } = &progress.trace[0] else {
        panic!("{:?}", progress.trace);
    };
    assert_eq!(argv.join(" "), "adb start-server");
    assert!(!collect);
    assert!(progress.core.state.same(&f.core.state));
}

#[test]
fn settings_are_kept_for_each_phone() {
    let mut f = ready();
    f.set("zoom", "2");
    assert!(f.request("apply").ok);
    f.script_devices(&[(PIXEL, "device", Some("Pixel_7")), (GALAXY, "device", None)]);
    f.select(GALAXY);
    f.set("zoom", "3");
    assert!(f.request("apply").ok);
    assert_eq!(f64::from_bits(f.saved.settings.get(PIXEL).unwrap().zoom.bits), 2.0);
    assert_eq!(f64::from_bits(f.saved.settings.get(GALAXY).unwrap().zoom.bits), 3.0);
    assert!(!f.settings().has_pending_changes);
}

#[test]
fn a_wireless_phone_that_turned_into_another_is_dropped() {
    let mut f = paired();
    f.script_output_for("adb", "shell", "SOMEONE-ELSE\n");
    f.restart();
    assert_eq!(phase(&f.state().connection), "unreachable");
    assert!(f.run.contains(&format!("adb disconnect {CONNECT_ADDRESS}")), "{:?}", f.run);
    assert_eq!(f.calls("adb pair").len(), 1);
}
