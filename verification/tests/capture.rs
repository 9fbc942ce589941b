//! Who else has the virtual camera open.

use std::path::Path;

use omavcam::capture::has_consumer;
use omavcam::outside::{Act, Answer, Fd, Fds, Outside, Process};

/// Whether a process with one open file reads the node.
fn reads(target: &str, node: &str) -> bool {
    let fds = Fds::Listed { fds: vec![Fd::Target { path: target.to_string() }] };
    let process = Process::Entry { name: "4242".to_string(), fds };
    let mut outside = Outside::new(vec![Answer::Processes { processes: vec![process] }], 0, 0);
    let found = has_consumer(&mut outside, node, 1000).unwrap();
    assert!(matches!(outside.trace[..], [Act::Processes]));
    found
}

#[test]
fn open_files_are_compared_as_paths() {
    assert!(reads("/dev/video42", "/dev/video42"));
    assert!(reads("/dev//./video42/", "/dev/video42"));
    assert!(!reads("/dev/video4", "/dev/video42"));
    assert!(!reads("dev/video42", "/dev/video42"));
    assert!(!reads("/dev/../dev/video42", "/dev/video42"));
    let paths = [
        "", "/", "//", ".", "./", "/.", "..", "./..", "a", "a/", "a/.", "./a", ".//a", "/a", "//a",
        "a/b", "a//b", "a/./b", "a/b/", "a/../b", "/a/b", "/./a/b/.", ".a", "a.", "...",
    ];
    for a in paths {
        for b in paths {
            assert_eq!(reads(a, b), Path::new(a) == Path::new(b), "{a:?} and {b:?}");
        }
    }
}
