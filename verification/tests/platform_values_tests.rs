use reniced::model::IoClass;
use reniced::platform::linux::{io_class_number, io_priority_value, ioprio_value};
use reniced::platform::windows::{
    io_priority_hint, nice_to_windows_priority, IoPriorityHint, ABOVE_NORMAL_PRIORITY_CLASS,
    BELOW_NORMAL_PRIORITY_CLASS, HIGH_PRIORITY_CLASS, IDLE_PRIORITY_CLASS, NORMAL_PRIORITY_CLASS,
    REALTIME_PRIORITY_CLASS,
};
use reniced::{check_threads, RunError};

#[test]
fn ioprio_encoding_matches_the_kernel_macro() {
    assert_eq!(ioprio_value(2, 4), 16388);
    assert_eq!(ioprio_value(3, 0), 24576);
    assert_eq!(ioprio_value(1, 7), (1 << 13) | 7);
    assert_eq!(io_priority_value(IoClass::BestEffort, Some(4)), 16388);
    assert_eq!(io_priority_value(IoClass::Idle, None), 24576);
    assert_eq!(io_priority_value(IoClass::Realtime, Some(0)), 8192);
    let v = io_priority_value(IoClass::Realtime, Some(6));
    assert_eq!(v >> 13, 1);
    assert_eq!(v & 0x1fff, 6);
    assert_eq!(io_class_number(IoClass::Realtime), 1);
    assert_eq!(io_class_number(IoClass::BestEffort), 2);
    assert_eq!(io_class_number(IoClass::Idle), 3);
}

#[test]
fn windows_priority_table() {
    assert_eq!(nice_to_windows_priority(-20), REALTIME_PRIORITY_CLASS);
    assert_eq!(nice_to_windows_priority(-16), REALTIME_PRIORITY_CLASS);
    assert_eq!(nice_to_windows_priority(-15), HIGH_PRIORITY_CLASS);
    assert_eq!(nice_to_windows_priority(-10), HIGH_PRIORITY_CLASS);
    assert_eq!(nice_to_windows_priority(-9), HIGH_PRIORITY_CLASS);
    assert_eq!(nice_to_windows_priority(-8), ABOVE_NORMAL_PRIORITY_CLASS);
    assert_eq!(nice_to_windows_priority(-1), ABOVE_NORMAL_PRIORITY_CLASS);
    assert_eq!(nice_to_windows_priority(0), NORMAL_PRIORITY_CLASS);
    assert_eq!(nice_to_windows_priority(4), NORMAL_PRIORITY_CLASS);
    assert_eq!(nice_to_windows_priority(5), BELOW_NORMAL_PRIORITY_CLASS);
    assert_eq!(nice_to_windows_priority(10), BELOW_NORMAL_PRIORITY_CLASS);
    assert_eq!(nice_to_windows_priority(11), IDLE_PRIORITY_CLASS);
    assert_eq!(nice_to_windows_priority(19), IDLE_PRIORITY_CLASS);
    assert_eq!(nice_to_windows_priority(i32::MIN), REALTIME_PRIORITY_CLASS);
    assert_eq!(nice_to_windows_priority(i32::MAX), IDLE_PRIORITY_CLASS);
    assert_eq!(REALTIME_PRIORITY_CLASS, 0x100);
    assert_eq!(ABOVE_NORMAL_PRIORITY_CLASS, 0x8000);
}

#[test]
fn windows_io_hints() {
    assert_eq!(io_priority_hint(IoClass::Realtime), IoPriorityHint::High);
    assert_eq!(io_priority_hint(IoClass::BestEffort), IoPriorityHint::Normal);
    assert_eq!(io_priority_hint(IoClass::Idle), IoPriorityHint::VeryLow);
    assert_eq!(IoPriorityHint::High.value(), 3);
    assert_eq!(IoPriorityHint::VeryLow.value(), 0);
}

#[test]
fn thread_requests_need_linux_and_privileges() {
    assert_eq!(check_threads(false, false, false), Ok(()));
    assert_eq!(check_threads(true, true, true), Ok(()));
    assert_eq!(check_threads(true, false, true), Err(RunError::ThreadsUnsupported));
    assert_eq!(check_threads(true, true, false), Err(RunError::ThreadsNeedPrivilege));
    assert!(RunError::ThreadsNeedPrivilege.message().contains("root privileges"));
    assert!(RunError::ThreadsUnsupported.message().contains("only supported on Linux"));
}
