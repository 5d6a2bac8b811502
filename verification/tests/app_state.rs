//! Tests for the application state: device views, selection and the
//! per-tick batch update.

use winload::sample::RawSample;
use winload::{App, DeviceInfo};

fn devices() -> Vec<DeviceInfo> {
    vec![
        DeviceInfo { name: String::from("Ethernet"), addrs: vec![String::from("192.0.2.1")] },
        DeviceInfo { name: String::from("Wi-Fi"), addrs: vec![] },
        DeviceInfo { name: String::from("Loopback Pseudo-Interface"), addrs: vec![] },
    ]
}

fn sample(rx: u64, tx: u64, time_ms: u64) -> RawSample {
    RawSample { rx_bytes: rx, tx_bytes: tx, time_ms }
}

#[test]
fn new_builds_one_view_per_device() {
    let app = App::new(500, 300, &None, devices());
    assert_eq!(app.views.len(), 3);
    assert_eq!(app.current_idx, 0);
    assert_eq!(app.views[1].info.name, "Wi-Fi");
    assert_eq!(app.views[0].engine.incoming.total, 0);
}

#[test]
fn device_filter_matches_case_insensitively() {
    let app = App::new(500, 300, &Some(String::from("wi-fi")), devices());
    assert_eq!(app.current_idx, 1);
    let app = App::new(500, 300, &Some(String::from("LOOP")), devices());
    assert_eq!(app.current_idx, 2);
    // No match falls back to the first device.
    let app = App::new(500, 300, &Some(String::from("bridge")), devices());
    assert_eq!(app.current_idx, 0);
}

#[test]
fn current_view_follows_selection() {
    let mut app = App::new(500, 300, &None, devices());
    assert_eq!(app.current_view().unwrap().info.name, "Ethernet");
    app.next_device();
    assert_eq!(app.current_view().unwrap().info.name, "Wi-Fi");
    app.next_device();
    app.next_device();
    // Wrapped past the end.
    assert_eq!(app.current_idx, 0);
    app.prev_device();
    assert_eq!(app.current_view().unwrap().info.name, "Loopback Pseudo-Interface");
}

#[test]
fn empty_device_list_has_no_view() {
    let mut app = App::new(500, 300, &None, Vec::new());
    assert!(app.current_view().is_none());
    app.next_device();
    app.prev_device();
    assert_eq!(app.current_idx, 0);
}

#[test]
fn update_folds_batch_by_device_name() {
    let mut app = App::new(500, 300, &None, devices());
    app.update(&vec![
        (String::from("Ethernet"), sample(0, 0, 0)),
        (String::from("Wi-Fi"), sample(0, 0, 0)),
    ]);
    app.update(&vec![
        (String::from("Ethernet"), sample(5000, 2500, 500)),
        (String::from("Wi-Fi"), sample(1000, 0, 500)),
    ]);
    assert_eq!(app.views[0].engine.incoming.current, 10_000);
    assert_eq!(app.views[0].engine.outgoing.current, 5_000);
    assert_eq!(app.views[1].engine.incoming.current, 2_000);
    // A device absent from the batch is left unchanged, not reset.
    assert_eq!(app.views[2].engine.incoming.current, 0);
    assert_eq!(app.views[2].engine.incoming_history.len(), 0);
}
