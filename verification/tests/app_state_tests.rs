use rtabc::icon::{fallback_icon, load_icon, FALLBACK_ICON_SIZE};
use rtabc::session::{ServerSession, StartPlan, StopPlan};
use rtabc::ui::App;
use rtabc::windows_mixer::VolumeManager;
use rtabc::{NetworkEvent, UiCommand};

#[test]
fn window_opens_stopped() {
    let app = App::new(Ok("192.168.1.20".to_string()));
    assert!(!app.server_running);
    assert!(!app.mute_local_pc);
    assert_eq!(app.status_message, "Server Stopped.");
    assert_eq!(app.label, "RTABC - Listen on Local Network");
    assert_eq!(app.local_ip_str, "192.168.1.20");
    let app = App::new(Err("no route".to_string()));
    assert_eq!(app.local_ip_str, "Error getting IP: no route");
}

#[test]
fn button_toggles_server() {
    let mut app = App::new(Ok("10.0.0.2".to_string()));
    app.mute_local_pc = true;
    assert_eq!(app.button_text(), "▶ Start Streaming");
    assert_eq!(app.toggle_server(), UiCommand::StartServer(true));
    assert!(app.server_running);
    assert_eq!(app.status_message, "Starting UDP Broadcaster...");
    assert_eq!(app.button_text(), "⏹ Stop Broadcast");
    assert_eq!(app.quit_command(), Some(UiCommand::StopServer));
    assert_eq!(app.toggle_server(), UiCommand::StopServer);
    assert!(!app.server_running);
    assert_eq!(app.status_message, "Server Stopped.");
    assert_eq!(app.quit_command(), None);
}

#[test]
fn network_events_update_status() {
    let mut app = App::new(Ok("x".to_string()));
    app.toggle_server();
    app.apply_network_event(NetworkEvent::DiscoveryStarted("Waiting for Ping on port 8888".to_string()));
    assert_eq!(app.status_message, "Activated: Waiting for Ping on port 8888");
    assert!(app.server_running);
    app.apply_network_event(NetworkEvent::ClientConnected("1.2.3.4:5555".to_string()));
    assert_eq!(app.status_message, "Connected to client Tauri: 1.2.3.4:5555");
    app.apply_network_event(NetworkEvent::Error("boom".to_string()));
    assert_eq!(app.status_message, "Error de Red: boom");
    assert!(!app.server_running);
}

#[test]
fn session_start_and_stop() {
    let mut s = ServerSession::new();
    let plan = s.on_capture_result(true, true);
    assert_eq!(plan, StartPlan { report_capture_error: false, mute_speakers: true, restore_speakers: false, spawn_tasks: true });
    assert!(s.speakers_muted && s.mute_held && s.tasks_running && s.capturing);
    let stop = s.on_stop();
    assert_eq!(stop, StopPlan { stop_tasks: true, clear_client: true, stop_capture: true, restore_speakers: true });
    assert_eq!(s, ServerSession::new());
    let stop = s.on_stop();
    assert_eq!(stop, StopPlan { stop_tasks: false, clear_client: true, stop_capture: false, restore_speakers: false });
}

#[test]
fn session_capture_failure_changes_nothing() {
    let mut s = ServerSession::new();
    let plan = s.on_capture_result(true, false);
    assert!(plan.report_capture_error && !plan.spawn_tasks && !plan.mute_speakers);
    assert_eq!(s, ServerSession::new());
}

#[test]
fn session_second_muted_start_releases_first_handle() {
    let mut s = ServerSession::new();
    s.on_capture_result(true, true);
    let plan = s.on_capture_result(true, true);
    assert!(plan.mute_speakers && plan.restore_speakers && plan.spawn_tasks);
    assert!(s.mute_held && !s.speakers_muted);
    let plan = s.on_capture_result(false, true);
    assert!(!plan.mute_speakers && !plan.restore_speakers);
    assert!(s.mute_held);
}

#[test]
fn fallback_icon_is_accent_square() {
    let icon = fallback_icon();
    assert_eq!(icon.width, FALLBACK_ICON_SIZE);
    assert_eq!(icon.height, 32);
    assert_eq!(icon.rgba.len(), 32 * 32 * 4);
    for px in icon.rgba.chunks(4) {
        assert_eq!(px, &[65, 175, 255, 255]);
    }
}

#[test]
fn garbage_bytes_give_fallback_icon() {
    let icon = load_icon(b"not a png");
    assert_eq!((icon.width, icon.height), (32, 32));
    assert_eq!(icon.rgba, fallback_icon().rgba);
}

#[test]
fn png_icon_is_decoded() {
    let mut img = image::RgbaImage::new(3, 2);
    img.put_pixel(1, 1, image::Rgba([1, 2, 3, 4]));
    let mut png = Vec::new();
    img.write_to(&mut std::io::Cursor::new(&mut png), image::ImageFormat::Png).unwrap();
    let icon = load_icon(&png);
    assert_eq!((icon.width, icon.height), (3, 2));
    assert_eq!(icon.rgba.len(), 24);
    assert_eq!(&icon.rgba[16..20], &[1, 2, 3, 4]);
    assert_eq!(&icon.rgba[0..4], &[0, 0, 0, 0]);
}

#[test]
fn volume_manager_creation_succeeds() {
    assert!(VolumeManager::new().is_ok());
}
