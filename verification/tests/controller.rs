use wallpaper_controller::wallpaper::{
    conclude, CommandOutcome, Conclusion, Invocation, PlaybackCommand, WallpaperController,
    COMMAND_TIMEOUT_SECS,
};

fn strings(words: &[&str]) -> Vec<String> {
    words.iter().map(|word| word.to_string()).collect()
}

#[test]
fn fresh_controller_assumes_playing() {
    let controller = WallpaperController::new(String::from("C:\\renderer"), true);
    assert!(controller.is_playing(None));
    assert!(controller.is_playing(Some(1)));
    assert!(controller.is_playing(Some(-4)));
    assert_eq!(controller.observed_monitors(), Vec::<i64>::new());
}

#[test]
fn pause_and_play_set_what_a_scope_counts_as() {
    let mut controller = WallpaperController::new(String::from("C:\\renderer"), true);
    controller.pause(None);
    assert!(!controller.is_playing(None));
    assert!(controller.is_playing(Some(1)));
    controller.pause(Some(1));
    assert!(!controller.is_playing(Some(1)));
    assert!(controller.is_playing(Some(2)));
    controller.play(None);
    assert!(controller.is_playing(None));
    assert!(!controller.is_playing(Some(1)));
    controller.play(Some(1));
    assert!(controller.is_playing(Some(1)));
}

#[test]
fn global_command_has_two_arguments() {
    let mut controller = WallpaperController::new(String::from("C:\\renderer"), false);
    assert_eq!(
        controller.pause(None),
        Invocation {
            directory: String::from("C:\\renderer"),
            binary: String::from("wallpaper32.exe"),
            args: strings(&["-control", "pause"]),
        }
    );
    assert_eq!(
        controller.play(None),
        Invocation {
            directory: String::from("C:\\renderer"),
            binary: String::from("wallpaper32.exe"),
            args: strings(&["-control", "play"]),
        }
    );
}

#[test]
fn monitor_command_names_the_monitor() {
    let mut controller = WallpaperController::new(String::from("D:\\we"), true);
    assert_eq!(
        controller.pause(Some(2)),
        Invocation {
            directory: String::from("D:\\we"),
            binary: String::from("wallpaper64.exe"),
            args: strings(&["-control", "pause", "-monitor", "2"]),
        }
    );
    assert_eq!(controller.play(Some(-17)).args, strings(&["-control", "play", "-monitor", "-17"]));
    assert_eq!(
        controller.play(Some(i64::MIN)).args,
        strings(&["-control", "play", "-monitor", "-9223372036854775808"])
    );
    assert_eq!(
        controller.play(Some(i64::MAX)).args,
        strings(&["-control", "play", "-monitor", "9223372036854775807"])
    );
    assert_eq!(controller.play(Some(0)).args, strings(&["-control", "play", "-monitor", "0"]));
}

#[test]
fn invocation_changes_nothing() {
    let controller = WallpaperController::new(String::from("D:\\we"), true);
    let call = controller.invocation(PlaybackCommand::Pause, Some(3));
    assert_eq!(call.args, strings(&["-control", "pause", "-monitor", "3"]));
    assert!(controller.is_playing(Some(3)));
    assert_eq!(controller.observed_monitors(), Vec::<i64>::new());
}

#[test]
fn monitors_are_listed_once_in_the_order_of_their_appearance() {
    let mut controller = WallpaperController::new(String::from("D:\\we"), true);
    controller.observe(5);
    controller.pause(Some(2));
    controller.observe(5);
    controller.play(Some(2));
    controller.play(Some(9));
    controller.pause(None);
    assert_eq!(controller.observed_monitors(), vec![5, 2, 9]);
    assert!(controller.is_playing(Some(5)));
}

#[test]
fn timed_out_call_fails_and_is_killed_and_the_intent_stands() {
    assert_eq!(COMMAND_TIMEOUT_SECS, 5);
    assert_eq!(conclude(CommandOutcome::TimedOut), Conclusion { success: false, kill: true });
    let mut controller = WallpaperController::new(String::from("D:\\we"), true);
    controller.pause(Some(1));
    assert!(!conclude(CommandOutcome::TimedOut).success);
    assert!(!controller.is_playing(Some(1)));
    controller.play(Some(1));
    assert!(controller.is_playing(Some(1)));
}

#[test]
fn only_a_clean_exit_succeeds() {
    assert_eq!(
        conclude(CommandOutcome::Exited { success: true }),
        Conclusion { success: true, kill: false }
    );
    assert_eq!(
        conclude(CommandOutcome::Exited { success: false }),
        Conclusion { success: false, kill: false }
    );
    assert_eq!(conclude(CommandOutcome::SpawnFailed), Conclusion { success: false, kill: false });
    assert_eq!(conclude(CommandOutcome::WaitFailed), Conclusion { success: false, kill: false });
}
