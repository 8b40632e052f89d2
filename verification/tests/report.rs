//! The report renderer: exact byte-for-byte layout.

use nrbt::aggregate::Aggregate;
use nrbt::report::render_report;

fn aggregate(exit_code: Option<i32>, signal: Option<i32>, stdout: &[u8], stderr: &[u8]) -> Aggregate {
    Aggregate { exit_code, signal, stdout: stdout.to_vec(), stderr: stderr.to_vec() }
}

#[test]
fn report_layout_for_a_clean_exit() {
    let agg = aggregate(Some(0), None, b"", b"");
    let report = render_report(
        "true",
        &agg,
        0,
        "Thu, 01 Jan 1970 00:00:00 +0000",
        "Thu, 01 Jan 1970 00:00:01 +0000",
    );
    let expected = "Run of command: \"true\"\n\
                    \n\
                    Exit code: 0\n\
                    \n\
                    Duration: 0 seconds\n\
                    Started at: Thu, 01 Jan 1970 00:00:00 +0000\n\
                    Ended at: Thu, 01 Jan 1970 00:00:01 +0000\n\
                    \n\
                    Stdout\n\
                    ------\n\
                    \n\
                    Stderr\n\
                    ------\n\
                    \n";
    assert_eq!(report, expected.as_bytes().to_vec());
}

#[test]
fn report_carries_captured_output() {
    let agg = aggregate(Some(127), None, b"ABC", b"command not found: xyz");
    let report = render_report("xyz", &agg, 61, "start", "end");
    let expected = "Run of command: \"xyz\"\n\
                    \n\
                    Exit code: 127\n\
                    \n\
                    Duration: 61 seconds\n\
                    Started at: start\n\
                    Ended at: end\n\
                    \n\
                    Stdout\n\
                    ------\n\
                    ABC\n\
                    Stderr\n\
                    ------\n\
                    command not found: xyz\n";
    assert_eq!(report, expected.as_bytes().to_vec());
}

#[test]
fn report_shows_the_signal_when_no_exit_code_is_set() {
    let agg = aggregate(None, Some(9), b"", b"");
    let report = render_report("sleep 100", &agg, 2, "s", "e");
    let expected = "Run of command: \"sleep 100\"\n\
                    \n\
                    Terminated by signal: 9\n\
                    \n\
                    Duration: 2 seconds\n\
                    Started at: s\n\
                    Ended at: e\n\
                    \n\
                    Stdout\n\
                    ------\n\
                    \n\
                    Stderr\n\
                    ------\n\
                    \n";
    assert_eq!(report, expected.as_bytes().to_vec());
}

#[test]
fn report_omits_the_status_when_nothing_ran() {
    let agg = aggregate(None, None, b"", b"");
    let report = render_report("", &agg, 0, "s", "e");
    let expected = "Run of command: \"\"\n\
                    \n\
                    Duration: 0 seconds\n\
                    Started at: s\n\
                    Ended at: e\n\
                    \n\
                    Stdout\n\
                    ------\n\
                    \n\
                    Stderr\n\
                    ------\n\
                    \n";
    assert_eq!(report, expected.as_bytes().to_vec());
}

#[test]
fn report_decodes_invalid_utf8_lossily() {
    let agg = aggregate(Some(0), None, &[0xff, b'o', b'k'], b"");
    let report = render_report("x", &agg, 0, "s", "e");
    let text = String::from_utf8(report).expect("the report itself is valid UTF-8");
    assert!(text.contains("\u{fffd}ok\n"));
}

#[test]
fn report_renders_negative_exit_codes() {
    let agg = aggregate(Some(-1), None, b"", b"");
    let report = render_report("x", &agg, 0, "s", "e");
    let text = String::from_utf8(report).unwrap();
    assert!(text.contains("Exit code: -1\n"));
}
