use tdos::qemu::QemuExitCode;
use tdos::serial::SerialChannel;
use tdos::test_runner::{push_decimal, HarnessState, TestRunner};

fn count_occurrences(haystack: &str, needle: &str) -> usize {
    haystack.matches(needle).count()
}

#[test]
fn two_passes_then_one_failure() {
    let mut serial = SerialChannel::new();
    let mut runner = TestRunner::new(3);
    runner.start(&mut serial);
    assert_eq!(runner.exit_code(), None);

    runner.begin_case("alpha", &mut serial);
    runner.case_passed(&mut serial);
    runner.begin_case("beta", &mut serial);
    runner.case_passed(&mut serial);
    runner.begin_case("gamma", &mut serial);
    let code = runner.case_faulted("assertion failed: 1 == 2", &mut serial);

    assert_eq!(code, QemuExitCode::Failed);
    assert_eq!(runner.exit_code(), Some(QemuExitCode::Failed));
    assert_eq!(runner.current_state(), HarnessState::OneFailed);
    let transcript = serial.transcript();
    assert_eq!(
        transcript,
        "Running 3 tests\nalpha... [ok]\nbeta... [ok]\ngamma... [failed]\nassertion failed: 1 == 2\n",
    );
    assert_eq!(count_occurrences(transcript, "[ok]"), 2);
    assert_eq!(count_occurrences(transcript, "[failed]"), 1);
}

#[test]
fn all_cases_pass() {
    let mut serial = SerialChannel::new();
    let mut runner = TestRunner::new(2);
    runner.start(&mut serial);
    runner.begin_case("first", &mut serial);
    runner.case_passed(&mut serial);
    assert_eq!(runner.exit_code(), None);
    runner.begin_case("second", &mut serial);
    runner.case_passed(&mut serial);
    assert_eq!(runner.exit_code(), Some(QemuExitCode::Success));
    assert_eq!(
        serial.transcript(),
        "Running 2 tests\nfirst... [ok]\nsecond... [ok]\n",
    );
}

#[test]
fn empty_suite_passes_at_once() {
    let mut serial = SerialChannel::new();
    let mut runner = TestRunner::new(0);
    runner.start(&mut serial);
    assert_eq!(runner.exit_code(), Some(QemuExitCode::Success));
    assert_eq!(serial.transcript(), "Running 0 tests\n");
}

#[test]
fn decimal_rendering() {
    let mut s = String::new();
    push_decimal(&mut s, 0);
    assert_eq!(s, "0");
    let mut s = String::new();
    push_decimal(&mut s, 10);
    assert_eq!(s, "10");
    let mut s = String::new();
    push_decimal(&mut s, 12345);
    assert_eq!(s, "12345");
    let mut s = String::new();
    push_decimal(&mut s, 300);
    assert_eq!(s, "300");
}

#[test]
fn serial_print_appends() {
    let mut serial = SerialChannel::new();
    tdos::serial::_print(&mut serial, "diag: ");
    tdos::serial::_print(&mut serial, "ready");
    assert_eq!(serial.transcript(), "diag: ready");
}
