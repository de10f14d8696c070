use movie_player::{
    format_time, key_pressed, seek_target_nanos, seek_target_seconds, time_text, Command, Key,
    SEEK_STEP_SECONDS,
};

#[test]
fn times_as_they_are_shown() {
    assert_eq!(format_time(0), "00:00");
    assert_eq!(format_time(-5), "00:00");
    assert_eq!(format_time(i64::MIN), "00:00");
    assert_eq!(format_time(59), "00:59");
    assert_eq!(format_time(60), "01:00");
    assert_eq!(format_time(3599), "59:59");
    assert_eq!(format_time(3600), "01:00:00");
    assert_eq!(format_time(36_610), "10:10:10");
    assert_eq!(format_time(360_000), "100:00:00");
    assert_eq!(format_time(i64::MAX), "2562047788015215:30:07");
    assert_eq!(time_text(0, 0), "00:00 / 00:00");
    assert_eq!(time_text(75, 3725), "01:15 / 01:02:05");
}

#[test]
fn different_times_look_different() {
    let mut shown: Vec<String> = (0..8000).map(format_time).collect();
    shown.sort();
    shown.dedup();
    assert_eq!(shown.len(), 8000);
}

#[test]
fn steps_stay_in_the_file() {
    assert_eq!(seek_target_seconds(30, 100, SEEK_STEP_SECONDS), 40);
    assert_eq!(seek_target_seconds(30, 100, -SEEK_STEP_SECONDS), 20);
    assert_eq!(seek_target_seconds(3, 100, -SEEK_STEP_SECONDS), 0);
    assert_eq!(seek_target_seconds(95, 100, SEEK_STEP_SECONDS), 100);
    assert_eq!(seek_target_seconds(95, 0, SEEK_STEP_SECONDS), 105);
    assert_eq!(seek_target_seconds(95, -1, SEEK_STEP_SECONDS), 105);
    assert_eq!(seek_target_seconds(i64::MAX, 0, 10), i64::MAX as u64);
    assert_eq!(seek_target_seconds(i64::MIN, 0, -10), 0);
    assert_eq!(seek_target_seconds(i64::MAX, 7, 10), 7);
}

#[test]
fn steps_back_and_forth_cancel_out() {
    let back = seek_target_seconds(42, 100, -10) as i64;
    assert_eq!(back, 32);
    assert_eq!(seek_target_seconds(back, 100, 10), 42);
}

#[test]
fn places_on_the_seek_bar() {
    assert_eq!(seek_target_nanos(-1, 100), 0);
    assert_eq!(seek_target_nanos(i128::MIN, 0), 0);
    assert_eq!(seek_target_nanos(50, 100), 50);
    assert_eq!(seek_target_nanos(500, 100), 100);
    assert_eq!(seek_target_nanos(500, 0), 500);
    assert_eq!(seek_target_nanos(1 << 64, 0), 0);
    assert_eq!(seek_target_nanos((1 << 64) + 7, 0), 7);
    assert_eq!(seek_target_nanos(i128::MAX, 0), u64::MAX);
    assert_eq!(seek_target_nanos(i128::MAX, u64::MAX), u64::MAX);
}

#[test]
fn keys_and_what_they_stand_for() {
    assert_eq!(key_pressed(Key::Space), Some(Command::TogglePlayPause));
    assert_eq!(key_pressed(Key::Left), Some(Command::SeekRelative(-10)));
    assert_eq!(key_pressed(Key::Right), Some(Command::SeekRelative(10)));
    assert_eq!(key_pressed(Key::Other), None);
}
