//! The command line: what is asked for, and what is said of the answer.

use omavcam::cli::{
    complaint, exit_code, numerals, parse, render, request, setting_fields, setting_value,
    verdict, Client, Invocation, Verdict,
};
use omavcam::protocol::{
    error_message, ok_message, state_message, Capture, Connection, PairingFailure, Phone, State,
};

fn args(list: &[&str]) -> Vec<String> {
    list.iter().map(|word| word.to_string()).collect()
}

fn sent(list: &[&str]) -> String {
    match parse(&args(list)) {
        Invocation::Send { kind, fields } => request(&kind, &fields),
        other => panic!("{other:?}"),
    }
}

fn read(setting: &str, value: &str) -> Result<String, String> {
    let numbers: Vec<Option<String>> = numerals(setting, value)
        .iter()
        .map(|text| text.parse::<f64>().ok().map(|n| serde_json::Value::from(n).to_string()))
        .collect();
    setting_value(setting, value, &numbers)
}

#[test]
fn commands_become_requests() {
    assert_eq!(sent(&["status"]), "{\"id\":\"1\",\"kind\":\"status\",\"v\":4}");
    assert_eq!(sent(&["phones"]), sent(&["status"]));
    assert_eq!(sent(&["pair"]), "{\"id\":\"1\",\"kind\":\"begin_pairing\",\"v\":4}");
    assert_eq!(
        sent(&["select"]),
        "{\"id\":\"1\",\"kind\":\"select\",\"serial\":\"\",\"v\":4}"
    );
    assert_eq!(
        sent(&["forget", "a\"b"]),
        "{\"id\":\"1\",\"kind\":\"forget\",\"serial\":\"a\\\"b\",\"v\":4}"
    );
    assert_eq!(
        sent(&["start", "--stay-awake"]),
        "{\"id\":\"1\",\"kind\":\"start\",\"stay_awake\":true,\"v\":4}"
    );
    assert_eq!(
        sent(&["connect", "a", "b"]),
        "{\"connect_address\":\"b\",\"id\":\"1\",\"kind\":\"connect\",\"serial\":\"a\",\"v\":4}"
    );
    assert_eq!(
        sent(&["pair", "a", "b", "c"]),
        "{\"code\":\"b\",\"connect_address\":\"c\",\"id\":\"1\",\"kind\":\"pair\",\
         \"pair_address\":\"a\",\"v\":4}"
    );
    assert!(matches!(parse(&args(&["daemon"])), Invocation::Daemon));
    for wrong in [&["dance"][..], &["start", "now"], &["set", "zoom"], &["pair", "a"]] {
        let Invocation::Usage { command } = parse(&args(wrong)) else {
            panic!("{wrong:?}");
        };
        assert_eq!(command.as_deref(), Some(wrong[0]));
    }
    assert!(matches!(parse(&vec![]), Invocation::Usage { command: None }));
}

#[test]
fn values_are_read_by_their_setting() {
    assert_eq!(read("frame-rate", "24"), Ok("24".to_string()));
    assert_eq!(
        read("frame-rate", "4294967296"),
        Err("frame-rate must be a positive integer".to_string())
    );
    assert_eq!(read("zoom", "2.5"), Ok("2.5".to_string()));
    assert_eq!(read("zoom", "wide"), Err("zoom must be a number".to_string()));
    assert_eq!(read("crop", "none"), Ok("null".to_string()));
    assert_eq!(
        read("crop", "0.1:0.1:0.8:0.5"),
        Ok("{\"height\":0.5,\"width\":0.8,\"x\":0.1,\"y\":0.1}".to_string())
    );
    let help = "crop must be normalized x:y:width:height or none";
    assert_eq!(read("crop", "0.1:0.1:0.8"), Err(help.to_string()));
    assert_eq!(read("crop", "a:b:c:d"), Err(help.to_string()));
    assert_eq!(read("lens", "1"), Ok("\"1\"".to_string()));
    assert_eq!(read("aspect-ratio", "16:9"), Ok("\"16:9\"".to_string()));
    assert_eq!(read("aspect_ratio", "16:9"), Err("use aspect-ratio".to_string()));
    assert_eq!(read("frame_rate", "24"), Err("use frame-rate".to_string()));
    assert_eq!(read("shutter", "1"), Err("no such setting \"shutter\"".to_string()));
    assert_eq!(
        request("set", &setting_fields("aspect-ratio", "\"16:9\"".to_string())),
        "{\"id\":\"1\",\"kind\":\"set\",\"setting\":\"aspect_ratio\",\"v\":4,\"value\":\"16:9\"}"
    );
}

#[test]
fn a_client_waits_for_the_state_that_reflects_its_request() {
    let mut client = Client::new();
    let mut hear = |client: &mut Client, message: String| client.receive(&message.into_bytes());
    assert!(hear(&mut client, state_message(3, "{\"a\":1}")).is_ok());
    assert!(hear(&mut client, ok_message("\"2\"", 3)).is_ok());
    assert!(!client.ready(), "someone else was answered");
    assert!(hear(&mut client, ok_message("\"1\"", 5)).is_ok());
    assert!(!client.ready(), "the state is too old");
    assert!(hear(&mut client, state_message(5, "{\"a\":2}")).is_ok());
    assert!(client.ready());
    assert_eq!(client.latest, Some((5, "{\"a\":2}".to_string())));
    assert_eq!(
        hear(&mut client, "{\"v\":3}".to_string()),
        Err("daemon speaks protocol Some(3), client expects 4".to_string())
    );
    assert!(hear(&mut client, "what".to_string()).is_err());
    assert!(client.ready(), "what cannot be read changes nothing");
}

#[test]
fn answers_are_told_to_people() {
    let ok = verdict(&ok_message("\"1\"", 1));
    assert!(ok.ok);
    assert_eq!(complaint(&ok), None);
    assert_eq!(exit_code(&ok), 0);
    let refused = verdict(&error_message("\"1\"", 1, "no_phone", "plug one in"));
    assert_eq!(complaint(&refused).as_deref(), Some("omavcam: no_phone: plug one in"));
    assert_eq!(exit_code(&refused), 1);
    let odd = verdict("{}");
    assert_eq!(complaint(&odd).as_deref(), Some("omavcam: error: "));
    let failed =
        Verdict { ok: false, code: "capture_failed".into(), message: "scrcpy died".into() };
    let said = complaint(&failed).unwrap();
    assert!(said.starts_with("omavcam: capture_failed: scrcpy died\ntip: "), "{said}");
}

#[test]
fn every_connection_has_its_own_words() {
    let phone = || Phone { serial: "S".into(), name: "Pixel".into() };
    let shown = |connection: Connection| {
        let mut state = State::default();
        state.connection = connection;
        render(&state)
    };
    for (connection, words) in [
        (Connection::NoPhone, "\nphone: none\n"),
        (
            Connection::Unselected { available: vec![phone(), phone()] },
            "phone: 2 attached, none selected\n  Pixel (S)\n  Pixel (S)\n\
             choose one with: omavcam select <serial>\n",
        ),
        (
            Connection::Unauthorised { phone: phone() },
            "phone: Pixel (S) — unauthorised\naccept the debugging prompt on the phone\n",
        ),
        (Connection::Connecting { phone: phone() }, "phone: Pixel (S) — connecting\n"),
        (Connection::Connected { phone: phone() }, "phone: Pixel (S) — connected\n"),
        (Connection::Reconnecting { phone: phone() }, "phone: Pixel (S) — reconnecting"),
        (
            Connection::PairingFailed { reason: PairingFailure::WrongCode },
            "phone: wireless pairing failed — wrong code\n",
        ),
        (
            Connection::PairingFailed { reason: PairingFailure::WrongAddress },
            "phone: wireless pairing failed — wrong pairing address\n",
        ),
        (
            Connection::PairingFailed { reason: PairingFailure::Unreachable },
            "unreachable; check both devices are on the same network\n",
        ),
        (
            Connection::Unreachable { phone: phone(), connect_address: "a:1".into() },
            "phone: Pixel (S) — unreachable at a:1\n",
        ),
    ] {
        let text = shown(connection);
        assert!(text.contains(words), "{text}");
        assert!(text.starts_with("adb: unavailable\n"), "{text}");
        assert!(text.contains("known phones: none\ncapture: none\nsettings: unavailable"));
    }
    let mut state = State::default();
    state.adb_ok = true;
    state.capture = Some(Capture {
        phone: phone(),
        node: "/dev/video42".into(),
        size: "1280x720".into(),
        stay_awake: false,
        preview: true,
    });
    let text = render(&state);
    assert!(text.contains("capture: 1280x720 from Pixel (S) to /dev/video42\n"), "{text}");
}
