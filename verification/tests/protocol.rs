//! Messages, lines and where things are.

use serde_json::Value;

use omavcam::capture::{missing_in, node_in, proc_dir, v4l2_dir};
use omavcam::command::{next, timed_out, Look, Next};
use omavcam::outside::{Candidate, Equipment, Listing, Node};
use omavcam::protocol::{error_message, ok_message, path_under, socket_path, state_message};
use omavcam::requests::{
    activated, claim, command_limit, frame, poll_interval, start_limit, state_dir, Binding,
    Claim, Frame,
};

fn some(text: &str) -> Option<String> {
    Some(text.to_string())
}

fn parsed(message: &str) -> Value {
    serde_json::from_str(message).unwrap()
}

#[test]
fn messages_say_what_they_answer() {
    let ok = parsed(&ok_message("\"7\"", 4));
    assert_eq!(ok["type"], "response");
    assert_eq!(ok["v"], 4);
    assert_eq!(ok["id"], "7");
    assert_eq!(ok["rev"], 4);
    assert_eq!(ok["ok"], true);
    assert!(ok.get("error").is_none());

    let error = parsed(&error_message("null", 9, "no_phone", "say \"hi\"\n"));
    assert!(error["id"].is_null());
    assert_eq!(error["ok"], false);
    assert_eq!(error["error"]["code"], "no_phone");
    assert_eq!(error["error"]["message"], "say \"hi\"\n");

    let state = parsed(&state_message(18446744073709551615, "{\"adb_ok\":true}"));
    assert_eq!(state["type"], "state");
    assert_eq!(state["rev"], 18446744073709551615u64);
    assert_eq!(state["state"]["adb_ok"], true);
}

#[test]
fn lines_are_whole_or_they_are_nothing() {
    assert!(matches!(frame(&vec![], 1), Frame::End));
    assert!(matches!(frame(&b"half".to_vec(), 1), Frame::End));
    assert!(matches!(frame(&b"whole\n".to_vec(), 1), Frame::Request));
    assert!(matches!(frame(&vec![b'\n'; 65536], 1), Frame::Request));
    let Frame::Last { message } = frame(&vec![b'x'; 65537], 3) else {
        panic!("too long");
    };
    let message = parsed(&message);
    assert_eq!(message["error"]["code"], "message_too_large");
    assert_eq!(message["rev"], 3);
    assert!(message["id"].is_null());
}

#[test]
fn paths_follow_the_environment() {
    assert_eq!(socket_path(&some("/x/y"), &some("/run")), "/x/y");
    assert_eq!(socket_path(&None, &some("/run/user/1000")), "/run/user/1000/omavcam.sock");
    assert_eq!(socket_path(&None, &None), "/tmp/omavcam.sock");
    assert_eq!(state_dir(&some("/s"), &some("/t"), &some("/h")), "/s");
    assert_eq!(state_dir(&None, &some("/t"), &some("/h")), "/t/omavcam");
    assert_eq!(state_dir(&None, &None, &some("/h")), "/h/.local/state/omavcam");
    assert_eq!(state_dir(&None, &None, &None), "/.local/state/omavcam");
    assert_eq!(v4l2_dir(&None), "/sys/class/video4linux");
    assert_eq!(v4l2_dir(&some("/v")), "/v");
    assert_eq!(proc_dir(&None), "/proc");
    assert_eq!(proc_dir(&some("/p")), "/p");
    for directory in ["/a", "/a/", "", "/", "a/b", "a//"] {
        let joined = std::path::Path::new(directory).join("name");
        assert_eq!(path_under(directory, "name"), joined.to_str().unwrap(), "{directory}");
    }
}

#[test]
fn limits_have_defaults_and_floors() {
    assert_eq!(poll_interval(&None), 1000);
    assert_eq!(poll_interval(&some("25")), 25);
    assert_eq!(poll_interval(&some("0")), 10);
    assert_eq!(poll_interval(&some("soon")), 1000);
    assert_eq!(command_limit(&None), 10000);
    assert_eq!(command_limit(&some("1")), 10);
    assert_eq!(start_limit(&None), 5000);
    assert_eq!(start_limit(&some("0")), 0);
    assert_eq!(start_limit(&some("18446744073709551616")), 5000);
}

#[test]
fn a_socket_is_handed_in_for_one_process() {
    assert!(activated(&some("1"), &some("42"), 42));
    assert!(!activated(&some("2"), &some("42"), 42));
    assert!(!activated(&some("1"), &some("43"), 42));
    assert!(!activated(&some("1"), &None, 42));
    assert!(!activated(&None, &some("42"), 42));
}

#[test]
fn a_live_socket_is_never_stolen() {
    assert_eq!(claim(Binding::Bound, None), Claim::Keep);
    assert_eq!(claim(Binding::Taken, None), Claim::Probe);
    assert_eq!(claim(Binding::Taken, Some(true)), Claim::Refuse);
    assert_eq!(claim(Binding::Taken, Some(false)), Claim::Replace);
    assert_eq!(claim(Binding::Failed, None), Claim::Refuse);
}

#[test]
fn tools_are_given_up_on_in_time() {
    assert_eq!(next(Look::Exited, true), Next::Finish);
    assert_eq!(next(Look::Exited, false), Next::Finish);
    assert_eq!(next(Look::Lost, false), Next::Abandon);
    assert_eq!(next(Look::Running, false), Next::Wait);
    assert_eq!(next(Look::Running, true), Next::Expire);
    assert_eq!(timed_out("adb", 100), "adb did not finish within 100ms");
    assert_eq!(timed_out("adb", 10000), "adb did not finish within 10s");
    assert_eq!(timed_out("adb", 1500), "adb did not finish within 1.5s");
}

fn listing(nodes: &[(&str, Option<&str>)]) -> Listing {
    Listing {
        directory: "/sys".into(),
        error: None,
        nodes: nodes
            .iter()
            .map(|(name, label)| Node {
                name: name.to_string(),
                label: label.map(str::to_string),
            })
            .collect(),
    }
}

#[test]
fn the_node_is_the_one_that_carries_the_label() {
    let one = [("video0", Some("webcam\n")), ("video7", Some("  omavcam\n")), ("video9", None)];
    assert_eq!(node_in(&listing(&one)), Ok("/dev/video7".to_string()));
    let none = node_in(&listing(&[("video0", Some("omavcam studio"))])).unwrap_err();
    assert!(none.starts_with("no video node is labelled \"omavcam\""), "{none}");
    let two = [("video9", Some("omavcam")), ("video10", Some("omavcam"))];
    let two = node_in(&listing(&two)).unwrap_err();
    assert!(two.contains("(video10, video9)"), "{two}");
    let broken = Listing { error: some("denied"), ..listing(&[]) };
    let broken = node_in(&broken).unwrap_err();
    assert!(broken.starts_with("could not inspect /sys: denied. "), "{broken}");
}

#[test]
fn a_tool_is_there_where_something_executable_is() {
    let there = || vec![Candidate { is_file: true, mode: 0o100001 }];
    let equipment = Equipment {
        adb: vec![
            Candidate { is_file: false, mode: 0o40755 },
            Candidate { is_file: true, mode: 0o100644 },
        ],
        scrcpy: there(),
        v4l2_ctl: vec![],
        hyprctl: vec![
            Candidate { is_file: true, mode: 0o100644 },
            Candidate { is_file: true, mode: 0o100010 },
        ],
        listing: listing(&[("video1", Some("omavcam"))]),
    };
    let missing = missing_in(&equipment);
    let named: Vec<&str> = missing.iter().map(|entry| entry.what.as_str()).collect();
    assert_eq!(named, vec!["adb", "v4l2-ctl"]);
    assert_eq!(missing[0].install, "sudo pacman -S --needed android-tools");
    assert_eq!(missing[1].install, "sudo pacman -S --needed v4l-utils");
}
