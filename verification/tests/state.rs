use movie_player::{MediaPath, PersistedState, MAX_HISTORY_ITEMS};

fn texts(paths: &[MediaPath]) -> Vec<String> {
    paths.iter().map(|path| path.to_text()).collect()
}

fn state(loop_enabled: bool, history: &[&str]) -> PersistedState {
    PersistedState {
        loop_enabled,
        history: history.iter().map(|text| MediaPath::from_text(text)).collect(),
    }
}

fn all(count: usize) -> Vec<bool> {
    vec![true; count]
}

fn play(state: &mut PersistedState, text: &str) {
    let path = MediaPath::from_text(text);
    let present = all(state.recent_candidates(&path).len());
    state.record_recent_file(&path, &present);
}

#[test]
fn nothing_is_remembered_at_first() {
    let fresh = PersistedState::default();
    assert!(!fresh.loop_enabled);
    assert!(fresh.history.is_empty());
    let listed = PersistedState::listed(None);
    assert!(!listed.loop_enabled);
    assert!(listed.history.is_empty());
    assert_eq!(fresh.save(), "loop=0");
}

#[test]
fn saved_text_has_one_line_for_each_setting() {
    assert_eq!(
        state(true, &["/v/a.mp4", "/v/b.mp4"]).save(),
        "loop=1\nhistory=/v/a.mp4\nhistory=/v/b.mp4"
    );
}

#[test]
fn saved_text_holds_at_most_fifty_files() {
    let names: Vec<String> = (0..60).map(|i| format!("/v/{}", i)).collect();
    let refs: Vec<&str> = names.iter().map(|name| name.as_str()).collect();
    let text = state(false, &refs).save();
    assert_eq!(text.lines().count(), 1 + MAX_HISTORY_ITEMS);
    assert!(text.ends_with("\nhistory=/v/49"));
}

#[test]
fn saved_text_of_a_path_that_is_not_utf8() {
    let broken = PersistedState {
        loop_enabled: false,
        history: vec![MediaPath {
            bytes: vec![b'f', 0xff],
        }],
    };
    assert_eq!(broken.save(), "loop=0\nhistory=f\u{FFFD}");
    let back = PersistedState::listed(Some(&broken.save()));
    assert_ne!(back.history[0].bytes, broken.history[0].bytes);
}

#[test]
fn saved_states_read_back() {
    let before = state(true, &["/v/a.mp4", "/動画/映画.mkv", "b\r"]);
    let listed = PersistedState::listed(Some(&before.save()));
    let after = PersistedState::load(&listed, &all(3));
    assert!(after.loop_enabled);
    assert_eq!(texts(&after.history), texts(&before.history));
}

#[test]
fn paths_that_do_not_read_back() {
    let back = |history: &[&str]| {
        texts(&PersistedState::listed(Some(&state(false, history).save())).history)
    };
    assert_eq!(back(&["a\r", "b"]), ["a", "b"]);
    assert_eq!(back(&["a\nb"]), ["a"]);
    assert_eq!(back(&["", "b"]), ["b"]);
}

#[test]
fn reading_goes_line_by_line() {
    let check = |text: &str, loop_enabled: bool, history: &[&str]| {
        let listed = PersistedState::listed(Some(text));
        assert_eq!(listed.loop_enabled, loop_enabled, "{:?}", text);
        assert_eq!(texts(&listed.history), history, "{:?}", text);
    };
    check("", false, &[]);
    check("loop=1", true, &[]);
    check("loop=1\n", true, &[]);
    check("loop=1\r\nhistory=a\r\n", true, &["a"]);
    check("loop=1\r", false, &[]);
    check("loop=11", false, &[]);
    check("loop=", false, &[]);
    check("loop=1\nloop=0", false, &[]);
    check("loop=0\nloop=1", true, &[]);
    check(" loop=1", false, &[]);
    check("history=\nhistory=a\n\nother\nhistory=b", false, &["a", "b"]);
    check("history=a\nhistory=a", false, &["a", "a"]);
    check("history=loop=1", false, &["loop=1"]);
    check("History=a\nhistory =a\nhistory= a", false, &[" a"]);
}

#[test]
fn reading_agrees_with_the_lines_of_std() {
    let pieces = ["loop=1", "loop=0", "history=x", "history=", "é", "", "\r", "history=y\r"];
    let ends = ["\n", "\r\n", "", "\r"];
    for a in pieces {
        for first in ends {
            for b in pieces {
                for second in ends {
                    let text = format!("{}{}{}{}", a, first, b, second);
                    let mut loop_enabled = false;
                    let mut history: Vec<String> = Vec::new();
                    for line in text.lines() {
                        if let Some(value) = line.strip_prefix("loop=") {
                            loop_enabled = value == "1";
                        } else if let Some(value) = line.strip_prefix("history=") {
                            if !value.is_empty() {
                                history.push(value.to_string());
                            }
                        }
                    }
                    let listed = PersistedState::listed(Some(&text));
                    assert_eq!(listed.loop_enabled, loop_enabled, "{:?}", text);
                    assert_eq!(texts(&listed.history), history, "{:?}", text);
                }
            }
        }
    }
}

#[test]
fn loading_keeps_the_files_that_exist() {
    let listed = state(true, &["a", "b", "c"]);
    let loaded = PersistedState::load(&listed, &vec![true, false, true]);
    assert!(loaded.loop_enabled);
    assert_eq!(texts(&loaded.history), ["a", "c"]);
}

#[test]
fn loading_counts_only_files_that_exist() {
    let names: Vec<String> = (0..120).map(|i| format!("{}", i)).collect();
    let refs: Vec<&str> = names.iter().map(|name| name.as_str()).collect();
    let present: Vec<bool> = (0..120).map(|i| i % 2 == 1).collect();
    let loaded = PersistedState::load(&state(false, &refs), &present);
    assert_eq!(loaded.history.len(), MAX_HISTORY_ITEMS);
    assert_eq!(loaded.history[0].to_text(), "1");
    assert_eq!(loaded.history[49].to_text(), "99");
}

#[test]
fn played_files_come_first_and_once() {
    let mut remembered = PersistedState::default();
    play(&mut remembered, "/v/a");
    play(&mut remembered, "/v/b");
    assert_eq!(texts(&remembered.history), ["/v/b", "/v/a"]);
    play(&mut remembered, "/v//a");
    assert_eq!(texts(&remembered.history), ["/v//a", "/v/b"]);
    play(&mut remembered, "/v//a");
    assert_eq!(texts(&remembered.history), ["/v//a", "/v/b"]);
    assert!(!remembered.loop_enabled);
}

#[test]
fn playing_a_missing_file_again_changes_nothing() {
    let mut remembered = state(false, &["a", "gone", "b"]);
    let path = MediaPath::from_text("gone");
    remembered.record_recent_file(&path, &vec![false, true, true]);
    assert_eq!(texts(&remembered.history), ["a", "b"]);
    assert_eq!(texts(&remembered.recent_candidates(&path)), ["gone", "a", "b"]);
    remembered.record_recent_file(&path, &vec![false, true, true]);
    assert_eq!(texts(&remembered.history), ["a", "b"]);
}

#[test]
fn the_oldest_file_makes_room() {
    let mut remembered = PersistedState::default();
    for i in 0..51 {
        play(&mut remembered, &format!("/v/{}", i));
    }
    assert_eq!(remembered.history.len(), MAX_HISTORY_ITEMS);
    assert_eq!(remembered.history[0].to_text(), "/v/50");
    assert_eq!(remembered.history[49].to_text(), "/v/1");
}

#[test]
fn files_that_are_gone_leave_the_history() {
    let mut remembered = state(true, &["a", "b", "c"]);
    let path = MediaPath::from_text("b");
    assert_eq!(texts(&remembered.recent_candidates(&path)), ["b", "a", "c"]);
    remembered.record_recent_file(&path, &vec![false, true, true]);
    assert_eq!(texts(&remembered.history), ["a", "c"]);
    remembered.forget_missing(&vec![false, true]);
    assert_eq!(texts(&remembered.history), ["c"]);
    assert!(remembered.loop_enabled);
}
