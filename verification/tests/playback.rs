use wallpaper_controller::monitor::{LoopStep, VisibilityMonitor};
use wallpaper_controller::sample::{MonitorMessage, VisibilitySample};
use wallpaper_controller::wallpaper::{PlaybackCommand, PlaybackRequest, WallpaperController};

fn sample(monitor_index: i64, current_visible: i64, max_visible: i64) -> VisibilitySample {
    VisibilitySample {
        monitor_id: 100 + monitor_index,
        monitor_index,
        current_visible,
        max_visible,
        total_area: max_visible,
    }
}

fn pause(monitor_index: Option<i64>) -> PlaybackRequest {
    PlaybackRequest { command: PlaybackCommand::Pause, monitor_index }
}

fn play(monitor_index: Option<i64>) -> PlaybackRequest {
    PlaybackRequest { command: PlaybackCommand::Play, monitor_index }
}

fn session(per_monitor: bool, threshold: u8) -> VisibilityMonitor {
    let controller = WallpaperController::new(String::from("C:\\renderer"), false);
    VisibilityMonitor::new(controller, per_monitor, threshold, None)
}

#[test]
fn global_mode_pauses_resumes_and_then_keeps_quiet() {
    let mut monitor = session(false, 20);
    assert_eq!(monitor.apply_update(&vec![sample(1, 10, 100)]), vec![pause(None)]);
    assert!(!monitor.get_controller().is_playing(None));
    assert_eq!(monitor.apply_update(&vec![sample(1, 90, 100)]), vec![play(None)]);
    assert!(monitor.get_controller().is_playing(None));
    assert_eq!(monitor.apply_update(&vec![sample(1, 90, 100)]), vec![]);
    assert!(monitor.get_controller().is_playing(None));
}

#[test]
fn per_monitor_mode_pauses_only_the_covered_monitor() {
    let mut monitor = session(true, 50);
    let requests = monitor.apply_update(&vec![sample(1, 30, 100), sample(2, 70, 100)]);
    assert_eq!(requests, vec![pause(Some(1))]);
    assert!(!monitor.get_controller().is_playing(Some(1)));
    assert!(monitor.get_controller().is_playing(Some(2)));
    assert!(monitor.get_controller().is_playing(None));
}

#[test]
fn decision_loop_ends_on_shutdown_and_on_a_closed_queue() {
    let mut monitor = session(false, 20);
    let step = monitor.process_visibility_updates(Some(MonitorMessage::VisibilityUpdate(vec![
        sample(1, 0, 100),
    ])));
    assert_eq!(step, LoopStep::Issue(vec![pause(None)]));
    assert_eq!(monitor.process_visibility_updates(Some(MonitorMessage::Shutdown)), LoopStep::Finished);
    assert_eq!(monitor.process_visibility_updates(None), LoopStep::Finished);
}
