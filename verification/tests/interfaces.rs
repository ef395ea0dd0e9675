use coretun::interfaces::linux::LinuxInterface;
use coretun::interfaces::macos::MacosInterface;
use coretun::ErrorIO;
use coretun::ErrorOS;
use coretun::Handle;

#[test]
fn linux_open_failure_is_code_minus_one() {
    assert_eq!(LinuxInterface::from_status(-1), Err(ErrorOS::LinuxErr(String::from("OpenErr"))));
}

#[test]
fn linux_control_failure_is_code_minus_two() {
    assert_eq!(LinuxInterface::from_status(-2), Err(ErrorOS::LinuxErr(String::from("CtrlErr"))));
}

#[test]
fn linux_codes_without_a_reason_are_unknown() {
    assert_eq!(LinuxInterface::from_status(-3), Err(ErrorOS::Unknown));
    assert_eq!(LinuxInterface::from_status(-4), Err(ErrorOS::Unknown));
    assert_eq!(LinuxInterface::from_status(i32::MIN), Err(ErrorOS::Unknown));
}

#[test]
fn macos_failures_follow_the_table() {
    assert_eq!(MacosInterface::from_status(-1), Err(ErrorOS::MacosErr(String::from("SockErr"))));
    assert_eq!(MacosInterface::from_status(-2), Err(ErrorOS::MacosErr(String::from("InfoErr"))));
    assert_eq!(MacosInterface::from_status(-3), Err(ErrorOS::MacosErr(String::from("AddrErr"))));
    assert_eq!(MacosInterface::from_status(-4), Err(ErrorOS::MacosErr(String::from("NameErr"))));
}

#[test]
fn macos_codes_without_a_reason_are_unknown() {
    assert_eq!(MacosInterface::from_status(-5), Err(ErrorOS::Unknown));
    assert_eq!(MacosInterface::from_status(i32::MIN), Err(ErrorOS::Unknown));
}

#[test]
fn failure_tables_stand_alone() {
    assert_eq!(LinuxInterface::failure(-1), ErrorOS::LinuxErr(String::from("OpenErr")));
    assert_eq!(LinuxInterface::failure(-9), ErrorOS::Unknown);
    assert_eq!(MacosInterface::failure(-3), ErrorOS::MacosErr(String::from("AddrErr")));
    assert_eq!(MacosInterface::failure(-9), ErrorOS::Unknown);
}

#[test]
fn status_that_is_not_negative_is_the_handle() {
    let linux = LinuxInterface::from_status(5).unwrap();
    assert_eq!(linux.handle(), Some(5));
    let zero = LinuxInterface::from_status(0).unwrap();
    assert_eq!(zero.handle(), Some(0));
    let macos = MacosInterface::from_status(i32::MAX).unwrap();
    assert_eq!(macos.handle(), Some(i32::MAX));
}

#[test]
fn handle_is_released_once() {
    let mut interface = LinuxInterface::from_status(7).unwrap();
    assert_eq!(interface.handle(), Some(7));
    assert_eq!(interface.handle(), Some(7));
    assert_eq!(interface.release(), Some(7));
    assert_eq!(interface.release(), None);
    assert_eq!(interface.release(), None);
    assert_eq!(interface.handle(), None);
}

#[test]
fn macos_handle_is_released_once() {
    let mut interface = MacosInterface::from_status(3).unwrap();
    assert_eq!(interface.release(), Some(3));
    assert_eq!(interface.release(), None);
    assert_eq!(interface.handle(), None);
}

#[test]
fn adopt_takes_only_what_is_not_negative() {
    assert_eq!(Handle::adopt(-1), None);
    assert_eq!(Handle::adopt(i32::MIN), None);
    let mut handle = Handle::adopt(0).unwrap();
    assert_eq!(handle.get(), Some(0));
    assert_eq!(handle.release(), Some(0));
    assert_eq!(handle.get(), None);
    assert_eq!(handle.release(), None);
}

#[test]
fn open_errors_render_one_line_each() {
    assert_eq!(ErrorOS::NoError.describe(), "NO OS ERROR");
    assert_eq!(ErrorOS::LinuxErr(String::from("OpenErr")).describe(), "LINUX OS ERROR: OpenErr");
    assert_eq!(ErrorOS::MacosErr(String::from("SockErr")).describe(), "MACOS OS ERROR: SockErr");
    assert_eq!(ErrorOS::Unknown.describe(), "UNKNOWN OS ERROR");
}

#[test]
fn transfer_errors_render_one_line_each() {
    assert_eq!(ErrorIO::NoError.describe(), "NO IO ERROR");
    assert_eq!(ErrorIO::LinuxErr(String::from("EIO")).describe(), "LINUX IO ERROR: EIO");
    assert_eq!(ErrorIO::MacosErr(String::from("EPERM")).describe(), "MACOS IO ERROR: EPERM");
    assert_eq!(ErrorIO::Unknown.describe(), "UNKNOWN IO ERROR");
}

#[test]
fn rendering_keeps_an_empty_reason() {
    assert_eq!(ErrorOS::LinuxErr(String::new()).describe(), "LINUX OS ERROR: ");
    assert_eq!(ErrorIO::MacosErr(String::new()).describe(), "MACOS IO ERROR: ");
}
