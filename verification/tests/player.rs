use movie_player::{
    history_actions, history_menu, init_error_text, is_playing, preferred_renderer,
    video_extensions, Action, ButtonFace, MediaPath, PersistedState, PipelineState, PlayerUi,
    MAX_HISTORY_ITEMS,
};

fn show(actions: &[Action]) -> Vec<String> {
    actions
        .iter()
        .map(|action| match action {
            Action::SetMedia(path) => format!("SetMedia({})", path.to_text()),
            Action::StartMedia(path) => format!("StartMedia({})", path.to_text()),
            Action::RecordRecent(path) => format!("RecordRecent({})", path.to_text()),
            Action::ProbeFile(path) => format!("ProbeFile({})", path.to_text()),
            Action::ShowHistory(entries) => {
                let shown: Vec<String> = entries
                    .iter()
                    .map(|entry| format!("{}>{}", entry.label, entry.action))
                    .collect();
                format!("ShowHistory({})", shown.join("|"))
            }
            other => format!("{:?}", other),
        })
        .collect()
}

fn player(loop_enabled: bool, history: &[&str]) -> PlayerUi {
    PlayerUi::new(PersistedState {
        loop_enabled,
        history: history.iter().map(|text| MediaPath::from_text(text)).collect(),
    })
}

const PLAYING: (PipelineState, PipelineState) =
    (PipelineState::Playing, PipelineState::VoidPending);
const PAUSED: (PipelineState, PipelineState) = (PipelineState::Paused, PipelineState::VoidPending);

#[test]
fn playing_now_or_soon() {
    assert!(is_playing(PipelineState::Playing, PipelineState::VoidPending));
    assert!(is_playing(PipelineState::Paused, PipelineState::Playing));
    assert!(is_playing(PipelineState::Playing, PipelineState::Paused));
    assert!(!is_playing(PipelineState::Paused, PipelineState::VoidPending));
    assert!(!is_playing(PipelineState::Null, PipelineState::Ready));
}

#[test]
fn button_faces() {
    assert_eq!(ButtonFace::Play.label(), "▶");
    assert_eq!(ButtonFace::Pause.label(), "⏸");
}

#[test]
fn opening_a_file() {
    let path = MediaPath::from_text("/v/a.mp4");
    assert_eq!(
        show(&PlayerUi::set_media_file(&path)),
        ["SetPipeline(Ready)", "SetMedia(/v/a.mp4)", "StartMedia(/v/a.mp4)"]
    );
    assert_eq!(
        show(&PlayerUi::media_started(&path, false)),
        ["SetButton(Pause)", "RecordRecent(/v/a.mp4)", "RefreshSeekUi"]
    );
    let failed = PlayerUi::media_started(&path, true);
    assert!(matches!(&failed[0], Action::ShowError(text)
        if text == "動画を再生できませんでした。\nGStreamer のプラグイン/コーデックを確認してください。"));
    assert_eq!(
        show(&failed[1..]),
        ["SetButton(Play)", "RecordRecent(/v/a.mp4)", "RefreshSeekUi"]
    );
}

#[test]
fn a_played_file_is_saved_and_listed() {
    let mut ui = player(true, &["/v/b.mp4"]);
    let path = MediaPath::from_text("/v/a.mp4");
    assert_eq!(ui.recent_candidates(&path).len(), 2);
    let actions = ui.record_recent_file(&path, &vec![true, true]);
    assert_eq!(
        show(&actions),
        [
            "SaveState(\"loop=1\\nhistory=/v/a.mp4\\nhistory=/v/b.mp4\")",
            "ShowHistory(1. a.mp4>win.open-history-0|2. b.mp4>win.open-history-1)",
        ]
    );
    assert_eq!(ui.history()[0].to_text(), "/v/a.mp4");
}

#[test]
fn the_loop_setting_is_saved() {
    let mut ui = player(false, &["a"]);
    assert!(!ui.loop_enabled());
    assert_eq!(
        show(&ui.set_loop_enabled(true)),
        ["SaveState(\"loop=1\\nhistory=a\")"]
    );
    assert!(ui.loop_enabled());
    assert_eq!(
        show(&ui.set_loop_enabled(false)),
        ["SaveState(\"loop=0\\nhistory=a\")"]
    );
    assert!(!ui.loop_enabled());
}

#[test]
fn files_of_the_history_are_opened_by_index() {
    let mut ui = player(false, &["a", "b"]);
    assert_eq!(show(&ui.open_history_index(1)), ["ProbeFile(b)"]);
    assert!(ui.open_history_index(2).is_empty());
    assert!(ui.open_history_index(usize::MAX).is_empty());
    let path = MediaPath::from_text("b");
    assert_eq!(
        show(&PlayerUi::history_file_probed(&path, true)),
        ["SetPipeline(Ready)", "SetMedia(b)", "StartMedia(b)"]
    );
    assert_eq!(
        show(&PlayerUi::history_file_probed(&path, false)),
        ["ShowError(\"履歴のファイルが見つかりませんでした。\")", "PruneHistory"]
    );
    assert_eq!(
        show(&ui.prune_history(&vec![true, false])),
        ["SaveState(\"loop=0\\nhistory=a\")", "ShowHistory(1. a>win.open-history-0)"]
    );
    assert_eq!(ui.history().len(), 1);
}

#[test]
fn menu_entries_name_registered_actions() {
    let names = history_actions();
    assert_eq!(names.len(), MAX_HISTORY_ITEMS);
    assert_eq!(names[0], "open-history-0");
    assert_eq!(names[49], "open-history-49");
    let history: Vec<MediaPath> =
        (0..50).map(|i| MediaPath::from_text(&format!("/v/{}", i))).collect();
    for (index, entry) in history_menu(&history).iter().enumerate() {
        assert_eq!(entry.action, format!("win.{}", names[index]));
        assert_eq!(entry.label, format!("{}. {}", index + 1, index));
    }
    assert!(matches!(player(false, &[]).refresh_history_menu(),
        Action::ShowHistory(entries) if entries.is_empty()));
}

#[test]
fn toggling_alternates() {
    assert_eq!(
        show(&PlayerUi::toggle_play_pause(PLAYING.0, PLAYING.1)),
        ["SetPipeline(Paused)", "SetButton(Play)"]
    );
    assert_eq!(
        show(&PlayerUi::toggle_play_pause(PAUSED.0, PAUSED.1)),
        ["SetPipeline(Playing)", "SetButton(Pause)"]
    );
}

#[test]
fn stepping_seeks_and_refreshes() {
    assert_eq!(
        show(&PlayerUi::seek_relative_seconds(95, 100, 10)),
        ["SeekSeconds(100)", "RefreshSeekUi"]
    );
}

#[test]
fn own_changes_of_the_seek_bar_go_unheard() {
    let mut ui = player(false, &[]);
    assert!(ui.refresh_seek_ui(0, 0).0);
    assert!(ui.scale_changed(PLAYING.0, PLAYING.1).is_empty());
    ui.release_scale();
    assert!(!ui.scale_changed(PLAYING.0, PLAYING.1).is_empty());
    assert!(!ui.refresh_seek_ui(0, 0).0);
}

#[test]
fn a_seek_resumes_what_was_playing() {
    let mut ui = player(false, &[]);
    assert_eq!(
        show(&ui.scale_changed(PLAYING.0, PLAYING.1)),
        [
            "SetPipeline(Paused)",
            "SetButton(Play)",
            "SeekToScale",
            "ShowScaleTime",
            "StartSeekTimer(180)"
        ]
    );
    assert_eq!(
        show(&ui.scale_changed(PAUSED.0, PAUSED.1)),
        ["SeekToScale", "ShowScaleTime", "CancelSeekTimer", "StartSeekTimer(180)"]
    );
    assert_eq!(
        show(&ui.seek_timer_fired()),
        ["SetPipeline(Playing)", "SetButton(Pause)", "RefreshSeekUi", "ForgetSeekTimer"]
    );
    ui.forget_seek_timer();
    assert_eq!(
        show(&ui.scale_changed(PAUSED.0, PAUSED.1)),
        ["SeekToScale", "ShowScaleTime", "StartSeekTimer(180)"]
    );
}

#[test]
fn a_seek_leaves_a_paused_file_paused() {
    let mut ui = player(false, &[]);
    assert_eq!(
        show(&ui.scale_changed(PAUSED.0, PAUSED.1)),
        ["SeekToScale", "ShowScaleTime", "StartSeekTimer(180)"]
    );
    assert_eq!(
        show(&ui.seek_timer_fired()),
        ["SetButton(Play)", "RefreshSeekUi", "ForgetSeekTimer"]
    );
    assert!(ui.refresh_seek_ui(0, 0).0);
}

#[test]
fn the_end_of_a_file() {
    let mut once = player(false, &[]);
    assert_eq!(show(&once.end_of_stream()), ["SetButton(Play)"]);
    let mut looping = player(true, &[]);
    assert_eq!(
        show(&looping.end_of_stream()),
        ["SetPipeline(Paused)", "SeekToStart"]
    );
    looping.scale_changed(PLAYING.0, PLAYING.1);
    assert_eq!(
        show(&looping.end_of_stream()),
        ["CancelSeekTimer", "SetPipeline(Paused)", "SeekToStart"]
    );
    assert!(looping.refresh_seek_ui(0, 0).0);
    assert_eq!(
        show(&PlayerUi::restart_seeked(false)),
        ["SetPipeline(Playing)", "SettlePipeline(100)", "SetButton(Pause)", "RefreshSeekUi"]
    );
    assert_eq!(
        show(&PlayerUi::restart_seeked(true)),
        [
            "SetPipeline(Ready)",
            "SetPipeline(Playing)",
            "SettlePipeline(100)",
            "SetButton(Pause)",
            "RefreshSeekUi"
        ]
    );
}

#[test]
fn a_refresh_moves_the_bar_unless_the_user_holds_it() {
    let mut ui = player(false, &[]);
    assert_eq!(ui.refresh_seek_ui(75, 3725), (true, String::from("01:15 / 01:02:05")));
    assert!(ui.scale_changed(PLAYING.0, PLAYING.1).is_empty());
    ui.release_scale();
    assert!(!ui.scale_changed(PAUSED.0, PAUSED.1).is_empty());
    assert_eq!(ui.refresh_seek_ui(-1, 60), (false, String::from("00:00 / 01:00")));
    assert!(!ui.scale_changed(PAUSED.0, PAUSED.1).is_empty());
}

#[test]
fn a_refresh_at_the_end_offers_to_play() {
    assert_eq!(
        show(&PlayerUi::playback_shown(PAUSED.0, PAUSED.1, true)),
        ["SetButton(Play)"]
    );
    assert!(PlayerUi::playback_shown(PAUSED.0, PAUSED.1, false).is_empty());
    assert!(PlayerUi::playback_shown(PLAYING.0, PLAYING.1, true).is_empty());
}

#[test]
fn messages_of_the_pipeline() {
    assert_eq!(
        show(&PlayerUi::pipeline_failed("no codec", "src.c")),
        [
            "ShowError(\"動画を再生できませんでした: no codec (src.c)\")",
            "SetButton(Play)"
        ]
    );
    assert_eq!(
        show(&PlayerUi::state_changed(true, PipelineState::Playing)),
        ["SetButton(Pause)"]
    );
    assert!(PlayerUi::state_changed(true, PipelineState::Paused).is_empty());
    assert!(PlayerUi::state_changed(false, PipelineState::Playing).is_empty());
}

#[test]
fn choices_at_the_start() {
    assert_eq!(preferred_renderer(true, false), Some("gl"));
    assert_eq!(preferred_renderer(true, true), None);
    assert_eq!(preferred_renderer(false, false), None);
    assert_eq!(init_error_text("x"), "GStreamer 初期化に失敗しました: x");
    assert_eq!(video_extensions(), ["mp4", "mkv", "webm", "mov", "avi", "m4v"]);
}
