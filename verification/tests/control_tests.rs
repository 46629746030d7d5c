use keyboard_usage_tracker::control::{tray_action, CaptureControl, TrayAction};

#[test]
fn restart_also_stops() {
    let mut c = CaptureControl::new();
    assert!(!c.should_restart());
    assert!(!c.should_stop());
    c.signal_restart();
    assert!(c.should_restart());
    assert!(c.should_stop());
}

#[test]
fn stop_keeps_an_earlier_restart() {
    let mut c = CaptureControl::new();
    c.signal_stop();
    assert!(c.should_stop());
    assert!(!c.should_restart());
    c.signal_restart();
    c.signal_stop();
    assert!(c.should_restart());
}

#[test]
fn tray_messages() {
    assert_eq!(tray_action(0x00FF, 0, 0), TrayAction::ReadRawInput);
    assert_eq!(tray_action(0x8001, 0, 0x0205), TrayAction::ShowMenu);
    assert_eq!(tray_action(0x8001, 0, 0x1_0205), TrayAction::ShowMenu);
    assert_eq!(tray_action(0x8001, 0, 0x0202), TrayAction::Handled);
    assert_eq!(tray_action(0x0111, 1001, 0), TrayAction::OpenDashboard);
    assert_eq!(tray_action(0x0111, 0x1_0000 + 1002, 0), TrayAction::Restart);
    assert_eq!(tray_action(0x0111, 1003, 0), TrayAction::Close);
    assert_eq!(tray_action(0x0111, 7, 0), TrayAction::Handled);
    assert_eq!(tray_action(0x8002, 0, 0), TrayAction::Restart);
    assert_eq!(tray_action(0x8003, 0, 0), TrayAction::Close);
    assert_eq!(tray_action(0x0002, 0, 0), TrayAction::Quit);
    assert_eq!(tray_action(0x0010, 0, 0), TrayAction::Default);
}

#[test]
fn restart_stays_requested_after_stops() {
    let mut c = CaptureControl::new();
    c.signal_stop();
    c.signal_stop();
    assert!(!c.should_restart());
    c.signal_restart();
    c.signal_stop();
    assert!(c.should_restart());
    assert!(c.should_restart());
    assert!(c.should_stop());
}
