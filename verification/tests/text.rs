use playground::camera::{camera_stop_line, camera_wait_secs, CameraSignal};
use playground::logline::{level_text, log_line, LogLevel};
use playground::mac::mac_report;
use playground::receiver::{on_delivery, Delivery, ReceiverNext};
use playground::tasks::task_label;
use playground::viewer::{Viewer, ViewerAction, ViewerKey};

#[test]
fn mac_report_lines() {
    assert_eq!(mac_report(Some([128, 250, 91, 65, 16, 107])), "mac = \"80:FA:5B:41:10:6B\"");
    assert_eq!(mac_report(Some([0x01, 0x23, 0x45, 0x67, 0x89, 0xAB])), "mac = \"01:23:45:67:89:AB\"");
    assert_eq!(mac_report(None), "no mac");
}

#[test]
fn log_lines() {
    assert_eq!(log_line("aaa.log", LogLevel::Info, "finish async world!"), "[zuolar]aaa.log INFO | finish async world!`");
    assert_eq!(level_text(LogLevel::Error), "ERROR");
    assert_eq!(level_text(LogLevel::Warn), "WARN");
    assert_eq!(level_text(LogLevel::Debug), "DEBUG");
    assert_eq!(level_text(LogLevel::Trace), "TRACE");
}

#[test]
fn camera_waits_and_stop_lines() {
    assert_eq!(camera_wait_secs(1), 4);
    assert_eq!(camera_wait_secs(4), 1);
    assert_eq!(camera_wait_secs(6), u64::MAX);
    assert_eq!(camera_stop_line(2, CameraSignal::CtrlC), "Got Ctrl+C signal, break loop... task2");
    assert_eq!(camera_stop_line(3, CameraSignal::Cancel), "Got cancel, break loop... task3");
    assert_eq!(camera_stop_line(4, CameraSignal::Elapsed), "Finish, break loop... task4");
}

#[test]
fn broadcast_outcomes() {
    let r = on_delivery("task1", "tx closed", Delivery::Value(123));
    assert_eq!(r.line.as_deref(), Some("task1 recv => 123"));
    assert_eq!(r.next, ReceiverNext::AfterPause);
    let r = on_delivery("task2", "tx closed", Delivery::Lagged(2));
    assert_eq!(r.line.as_deref(), Some("task2 Lagged: 2"));
    assert_eq!(r.next, ReceiverNext::Immediately);
    let r = on_delivery("task1", "rx closed", Delivery::Closed);
    assert_eq!(r.line.as_deref(), Some("task1 rx closed: Closed"));
    assert_eq!(r.next, ReceiverNext::Leave);
    let r = on_delivery("task2", "rx closed", Delivery::TimedOut);
    assert_eq!(r.line.as_deref(), Some("task2 recv timeout"));
    assert_eq!(r.next, ReceiverNext::Leave);
    let r = on_delivery("task2", "rx closed", Delivery::Shutdown);
    assert_eq!(r.line, None);
    assert_eq!(r.next, ReceiverNext::Exit);
}

#[test]
fn task_labels() {
    assert_eq!(task_label(1), "1 + 1 + 1");
    assert_eq!(task_label(12), "12 + 12 + 12");
}

#[test]
fn viewer_keys() {
    let mut v = Viewer::new();
    assert!(!v.is_gray());
    assert_eq!(v.on_key(false, Some(ViewerKey::G)), ViewerAction::Ignore);
    assert_eq!(v.on_key(true, Some(ViewerKey::G)), ViewerAction::ShowGray);
    assert!(v.is_gray());
    assert_eq!(v.on_key(true, None), ViewerAction::Ignore);
    assert_eq!(v.on_key(true, Some(ViewerKey::Other)), ViewerAction::Ignore);
    assert_eq!(v.on_key(true, Some(ViewerKey::G)), ViewerAction::ShowNormal);
    assert!(!v.is_gray());
    assert_eq!(v.on_key(true, Some(ViewerKey::Q)), ViewerAction::Quit);
    assert_eq!(v.on_key(true, Some(ViewerKey::Escape)), ViewerAction::Quit);
}
