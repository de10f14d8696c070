//! The player's own state, and how it reacts to each event.

use crate::action::{act_views, Act, Action, ButtonFace, PipelineState};
use crate::menu::{history_menu, menu};
use crate::path::{path_views, MediaPath};
use crate::seek::{clock_pair, seek_target_seconds, stepped, time_text, SEEK_STEP_SECONDS};
use crate::select::{flagged, lemma_flagged_len};
use crate::state::{candidates, recorded, saved_text, PersistedState, Remembered};
use vstd::prelude::*;
use vstd::string::StringExecFns;

verus! {

/// How long the pipeline has to settle after a restart, in milliseconds.
pub const SETTLE_MILLIS: u64 = 100;

/// How long the seek bar has to rest before playback goes on, in
/// milliseconds.
pub const SEEK_REST_MILLIS: u64 = 180;

/// What the player keeps track of while it runs.
#[derive(Debug)]
pub struct PlayerUi {
    state: PersistedState,
    loop_enabled: bool,
    suppress_seek_signal: bool,
    user_seeking: bool,
    was_playing_before_seek: bool,
    seek_timer_pending: bool,
}

/// A `PlayerUi` as plain mathematics.
pub struct PlayerModel {
    pub remembered: Remembered,
    /// Whether the end of a file leads back to its start.
    pub loop_enabled: bool,
    /// Whether a change of the seek bar is the player's own.
    pub suppress_seek_signal: bool,
    /// Whether the user is moving the seek bar.
    pub user_seeking: bool,
    /// Whether the file was playing when the user took the seek bar.
    pub was_playing_before_seek: bool,
    /// Whether a timer that ends the user's seek can be cancelled.
    pub seek_timer_pending: bool,
}

impl View for PlayerUi {
    type V = PlayerModel;

    closed spec fn view(&self) -> PlayerModel {
        PlayerModel {
            remembered: self.state@,
            loop_enabled: self.loop_enabled,
            suppress_seek_signal: self.suppress_seek_signal,
            user_seeking: self.user_seeking,
            was_playing_before_seek: self.was_playing_before_seek,
            seek_timer_pending: self.seek_timer_pending,
        }
    }
}

/// A key that was pressed.
#[derive(Clone, Copy, Debug, PartialEq, Eq, Structural)]
pub enum Key {
    Space,
    Left,
    Right,
    Other,
}

/// What the user asks for with a key or a button.
#[derive(Clone, Copy, Debug, PartialEq, Eq, Structural)]
pub enum Command {
    TogglePlayPause,
    /// Step by so many seconds.
    SeekRelative(i64),
}

/// Whether a pipeline plays, or is about to.
pub open spec fn playing(current: PipelineState, pending: PipelineState) -> bool {
    current == PipelineState::Playing || pending == PipelineState::Playing
}

/// The steps that start to play a file.
pub open spec fn media_acts(path: Seq<u8>) -> Seq<Act> {
    seq![Act::SetPipeline(PipelineState::Ready), Act::SetMedia(path), Act::StartMedia(path)]
}

/// The steps that follow once the pipeline was asked to play a file.
pub open spec fn started_acts(path: Seq<u8>, failed: bool) -> Seq<Act> {
    let shown = if failed {
        seq![
            Act::ShowError("動画を再生できませんでした。\nGStreamer のプラグイン/コーデックを確認してください。"@),
            Act::SetButton(ButtonFace::Play),
        ]
    } else {
        seq![Act::SetButton(ButtonFace::Pause)]
    };
    shown + seq![Act::RecordRecent(path), Act::RefreshSeekUi]
}

/// The steps that keep what is remembered, on disk and in the menu.
pub open spec fn history_acts(state: Remembered) -> Seq<Act> {
    seq![Act::SaveState(saved_text(state)), Act::ShowHistory(menu(state.history))]
}

/// The steps that open the file of the history at `index`.
pub open spec fn opened_acts(history: Seq<Seq<u8>>, index: nat) -> Seq<Act> {
    if index < history.len() {
        seq![Act::ProbeFile(history[index as int])]
    } else {
        Seq::empty()
    }
}

/// The steps that follow once it is known whether a file of the history is
/// there: a file that is there is played as any other.
pub open spec fn probed_acts(path: Seq<u8>, present: bool) -> Seq<Act> {
    if present {
        media_acts(path)
    } else {
        seq![Act::ShowError("履歴のファイルが見つかりませんでした。"@), Act::PruneHistory]
    }
}

/// The steps that switch between playing and pausing.
pub open spec fn toggle_acts(was_playing: bool) -> Seq<Act> {
    if was_playing {
        seq![Act::SetPipeline(PipelineState::Paused), Act::SetButton(ButtonFace::Play)]
    } else {
        seq![Act::SetPipeline(PipelineState::Playing), Act::SetButton(ButtonFace::Pause)]
    }
}

/// The steps that follow the attempt to go back to the start of the file.
pub open spec fn restarted_acts(failed: bool) -> Seq<Act> {
    let fallback = if failed {
        seq![Act::SetPipeline(PipelineState::Ready)]
    } else {
        Seq::empty()
    };
    fallback + seq![
        Act::SetPipeline(PipelineState::Playing),
        Act::SettlePipeline(SETTLE_MILLIS as nat),
        Act::SetButton(ButtonFace::Pause),
        Act::RefreshSeekUi,
    ]
}

/// The text that reports an error of the pipeline.
pub open spec fn pipeline_error(error: Seq<char>, debug: Seq<char>) -> Seq<char> {
    "動画を再生できませんでした: "@ + error + " ("@ + debug + ")"@
}

/// What a key stands for.
pub open spec fn key_meaning(key: Key) -> Option<Command> {
    match key {
        Key::Space => Some(Command::TogglePlayPause),
        Key::Left => Some(Command::SeekRelative((0 - SEEK_STEP_SECONDS) as i64)),
        Key::Right => Some(Command::SeekRelative(SEEK_STEP_SECONDS)),
        Key::Other => None,
    }
}

impl PlayerModel {
    /// The history keeps its limit, and the loop setting in force is the one
    /// that is remembered.
    pub open spec fn wf(self) -> bool {
        self.remembered.wf() && self.loop_enabled == self.remembered.loop_enabled
    }

    /// The player at its start.
    pub open spec fn fresh(state: Remembered) -> PlayerModel {
        PlayerModel {
            remembered: state,
            loop_enabled: state.loop_enabled,
            suppress_seek_signal: false,
            user_seeking: false,
            was_playing_before_seek: false,
            seek_timer_pending: false,
        }
    }

    /// The player with the loop setting changed.
    pub open spec fn with_loop(self, enabled: bool) -> PlayerModel {
        PlayerModel {
            loop_enabled: enabled,
            remembered: Remembered { loop_enabled: enabled, history: self.remembered.history },
            ..self
        }
    }

    /// The player with another history.
    pub open spec fn with_history(self, history: Seq<Seq<u8>>) -> PlayerModel {
        PlayerModel {
            remembered: Remembered { loop_enabled: self.remembered.loop_enabled, history },
            ..self
        }
    }

    /// The player while it moves the seek bar itself.
    pub open spec fn scale_held(self) -> PlayerModel {
        if self.user_seeking {
            self
        } else {
            PlayerModel { suppress_seek_signal: true, ..self }
        }
    }

    /// The player once it has moved the seek bar itself.
    pub open spec fn scale_released(self) -> PlayerModel {
        PlayerModel { suppress_seek_signal: false, ..self }
    }

    /// The player once the seek bar has changed.
    pub open spec fn scale_moved(self, is_playing: bool) -> PlayerModel {
        if self.suppress_seek_signal {
            self
        } else {
            PlayerModel {
                user_seeking: true,
                was_playing_before_seek: if self.user_seeking {
                    self.was_playing_before_seek
                } else {
                    is_playing
                },
                seek_timer_pending: true,
                ..self
            }
        }
    }

    /// The steps that follow a change of the seek bar: the first of a seek
    /// pauses what is playing, and each leads to the place that the seek bar
    /// shows and starts the timer that ends the seek anew. There are none
    /// where the change was the player's own.
    pub open spec fn scale_acts(self, is_playing: bool) -> Seq<Act> {
        if self.suppress_seek_signal {
            Seq::empty()
        } else {
            let begun = if !self.user_seeking && is_playing {
                seq![Act::SetPipeline(PipelineState::Paused), Act::SetButton(ButtonFace::Play)]
            } else {
                Seq::empty()
            };
            begun + seq![Act::SeekToScale, Act::ShowScaleTime] + self.timer_acts()
        }
    }

    /// The steps that start the timer that ends the user's seek anew.
    pub open spec fn timer_acts(self) -> Seq<Act> {
        let cancel = if self.seek_timer_pending {
            seq![Act::CancelSeekTimer]
        } else {
            Seq::empty()
        };
        cancel + seq![Act::StartSeekTimer(SEEK_REST_MILLIS as nat)]
    }

    /// The player once the user's seek is over.
    pub open spec fn seek_ended(self) -> PlayerModel {
        PlayerModel { user_seeking: false, ..self }
    }

    /// The steps that end the user's seek.
    pub open spec fn seek_end_acts(self) -> Seq<Act> {
        let resumed = if self.was_playing_before_seek {
            seq![Act::SetPipeline(PipelineState::Playing), Act::SetButton(ButtonFace::Pause)]
        } else {
            seq![Act::SetButton(ButtonFace::Play)]
        };
        resumed + seq![Act::RefreshSeekUi, Act::ForgetSeekTimer]
    }

    /// The player once the timer is forgotten.
    pub open spec fn timer_forgotten(self) -> PlayerModel {
        PlayerModel { seek_timer_pending: false, ..self }
    }

    /// The player once it goes back to the start of the file.
    pub open spec fn restarted(self) -> PlayerModel {
        PlayerModel { user_seeking: false, seek_timer_pending: false, ..self }
    }

    /// The steps that go back to the start of the file.
    pub open spec fn restart_acts(self) -> Seq<Act> {
        let cancel = if self.seek_timer_pending {
            seq![Act::CancelSeekTimer]
        } else {
            Seq::empty()
        };
        cancel + seq![Act::SetPipeline(PipelineState::Paused), Act::SeekToStart]
    }
}

/// Whether a pipeline plays, or is about to.
pub fn is_playing(current: PipelineState, pending: PipelineState) -> (answer: bool)
    ensures
        answer == playing(current, pending),
{
    current == PipelineState::Playing || pending == PipelineState::Playing
}

/// What a key stands for. A key that stands for nothing is left to others.
pub fn key_pressed(key: Key) -> (command: Option<Command>)
    ensures
        command == key_meaning(key),
{
    match key {
        Key::Space => Some(Command::TogglePlayPause),
        Key::Left => Some(Command::SeekRelative(-SEEK_STEP_SECONDS)),
        Key::Right => Some(Command::SeekRelative(SEEK_STEP_SECONDS)),
        Key::Other => None,
    }
}

impl PlayerUi {
    /// The player at its start.
    pub fn new(state: PersistedState) -> (player: PlayerUi)
        ensures
            player@ == PlayerModel::fresh(state@),
            player@.remembered == state@,
            player@.loop_enabled == state.loop_enabled,
            !player@.suppress_seek_signal,
            !player@.user_seeking,
            !player@.was_playing_before_seek,
            !player@.seek_timer_pending,
            state@.wf() ==> player@.wf(),
    {
        let loop_enabled = state.loop_enabled;
        PlayerUi {
            state,
            loop_enabled,
            suppress_seek_signal: false,
            user_seeking: false,
            was_playing_before_seek: false,
            seek_timer_pending: false,
        }
    }

    /// Whether the end of a file leads back to its start.
    pub fn loop_enabled(&self) -> (answer: bool)
        ensures
            answer == self@.loop_enabled,
    {
        self.loop_enabled
    }

    /// The files of the history, the latest first.
    pub fn history(&self) -> (paths: &Vec<MediaPath>)
        ensures
            path_views(paths@) == self@.remembered.history,
    {
        &self.state.history
    }

    /// The paths that the history would hold once `path` has been played, if
    /// all of them existed and it had no limit.
    pub fn recent_candidates(&self, path: &MediaPath) -> (paths: Vec<MediaPath>)
        ensures
            path_views(paths@) == candidates(self@.remembered.history, path@),
    {
        self.state.recent_candidates(path)
    }

    /// Starts to play a file.
    pub fn set_media_file(path: &MediaPath) -> (actions: Vec<Action>)
        ensures
            act_views(actions@) == media_acts(path@),
    {
        let mut actions: Vec<Action> = Vec::new();
        actions.push(Action::SetPipeline(PipelineState::Ready));
        actions.push(Action::SetMedia(path.clone()));
        actions.push(Action::StartMedia(path.clone()));
        assert(act_views(actions@) =~= media_acts(path@));
        actions
    }

    /// Goes on once the pipeline was asked to play a file.
    pub fn media_started(path: &MediaPath, failed: bool) -> (actions: Vec<Action>)
        ensures
            act_views(actions@) == started_acts(path@, failed),
    {
        let mut actions: Vec<Action> = Vec::new();
        if failed {
            actions.push(
                Action::ShowError(
                    "動画を再生できませんでした。\nGStreamer のプラグイン/コーデックを確認してください。".to_owned(),
                ),
            );
            actions.push(Action::SetButton(ButtonFace::Play));
        } else {
            actions.push(Action::SetButton(ButtonFace::Pause));
        }
        actions.push(Action::RecordRecent(path.clone()));
        actions.push(Action::RefreshSeekUi);
        assert(act_views(actions@) =~= started_acts(path@, failed));
        actions
    }

    /// Changes the loop setting, and keeps it.
    pub fn set_loop_enabled(&mut self, enabled: bool) -> (actions: Vec<Action>)
        ensures
            final(self)@ == old(self)@.with_loop(enabled),
            final(self)@.loop_enabled == enabled,
            final(self)@.remembered.loop_enabled == enabled,
            final(self)@.remembered.history == old(self)@.remembered.history,
            final(self)@.suppress_seek_signal == old(self)@.suppress_seek_signal,
            final(self)@.user_seeking == old(self)@.user_seeking,
            final(self)@.was_playing_before_seek == old(self)@.was_playing_before_seek,
            final(self)@.seek_timer_pending == old(self)@.seek_timer_pending,
            act_views(actions@) == seq![Act::SaveState(saved_text(final(self)@.remembered))],
            old(self)@.wf() ==> final(self)@.wf(),
    {
        self.loop_enabled = enabled;
        self.state.loop_enabled = enabled;
        let mut actions: Vec<Action> = Vec::new();
        actions.push(Action::SaveState(self.state.save()));
        assert(act_views(actions@) =~= seq![Act::SaveState(saved_text(self@.remembered))]);
        actions
    }

    fn keep_history(&self) -> (actions: Vec<Action>)
        ensures
            act_views(actions@) == history_acts(self@.remembered),
    {
        let mut actions: Vec<Action> = Vec::new();
        actions.push(Action::SaveState(self.state.save()));
        actions.push(self.refresh_history_menu());
        assert(act_views(actions@) =~= history_acts(self@.remembered));
        actions
    }

    /// Puts a file at the front of the history, where `present` says of each
    /// candidate whether it is there.
    pub fn record_recent_file(&mut self, path: &MediaPath, present: &Vec<bool>) -> (actions: Vec<
        Action,
    >)
        requires
            present@.len() == candidates(old(self)@.remembered.history, path@).len(),
        ensures
            final(self)@ == old(self)@.with_history(
                recorded(old(self)@.remembered.history, path@, present@),
            ),
            final(self)@.remembered.history == recorded(
                old(self)@.remembered.history,
                path@,
                present@,
            ),
            final(self)@.remembered.loop_enabled == old(self)@.remembered.loop_enabled,
            final(self)@.loop_enabled == old(self)@.loop_enabled,
            final(self)@.suppress_seek_signal == old(self)@.suppress_seek_signal,
            final(self)@.user_seeking == old(self)@.user_seeking,
            final(self)@.was_playing_before_seek == old(self)@.was_playing_before_seek,
            final(self)@.seek_timer_pending == old(self)@.seek_timer_pending,
            act_views(actions@) == history_acts(final(self)@.remembered),
            old(self)@.wf() ==> final(self)@.wf(),
    {
        self.state.record_recent_file(path, present);
        self.keep_history()
    }

    /// Shows the history in its menu.
    pub fn refresh_history_menu(&self) -> (action: Action)
        ensures
            action@ == Act::ShowHistory(menu(self@.remembered.history)),
    {
        Action::ShowHistory(history_menu(&self.state.history))
    }

    /// Opens the file of the history at `index`, if there is one.
    pub fn open_history_index(&self, index: usize) -> (actions: Vec<Action>)
        ensures
            act_views(actions@) == opened_acts(self@.remembered.history, index as nat),
    {
        let mut actions: Vec<Action> = Vec::new();
        if index < self.state.history.len() {
            actions.push(Action::ProbeFile(self.state.history[index].clone()));
        }
        assert(act_views(actions@) =~= opened_acts(self@.remembered.history, index as nat));
        actions
    }

    /// Goes on once it is known whether a file of the history is there.
    pub fn history_file_probed(path: &MediaPath, present: bool) -> (actions: Vec<Action>)
        ensures
            act_views(actions@) == probed_acts(path@, present),
    {
        if present {
            return PlayerUi::set_media_file(path);
        }
        let mut actions: Vec<Action> = Vec::new();
        actions.push(Action::ShowError("履歴のファイルが見つかりませんでした。".to_owned()));
        actions.push(Action::PruneHistory);
        assert(act_views(actions@) =~= probed_acts(path@, present));
        actions
    }

    /// Drops the files of the history that are gone, where `present` says of
    /// each whether it is there.
    pub fn prune_history(&mut self, present: &Vec<bool>) -> (actions: Vec<Action>)
        requires
            present@.len() == old(self)@.remembered.history.len(),
        ensures
            final(self)@ == old(self)@.with_history(
                flagged(old(self)@.remembered.history, present@),
            ),
            final(self)@.remembered.history == flagged(old(self)@.remembered.history, present@),
            final(self)@.remembered.loop_enabled == old(self)@.remembered.loop_enabled,
            final(self)@.loop_enabled == old(self)@.loop_enabled,
            final(self)@.suppress_seek_signal == old(self)@.suppress_seek_signal,
            final(self)@.user_seeking == old(self)@.user_seeking,
            final(self)@.was_playing_before_seek == old(self)@.was_playing_before_seek,
            final(self)@.seek_timer_pending == old(self)@.seek_timer_pending,
            act_views(actions@) == history_acts(final(self)@.remembered),
            old(self)@.wf() ==> final(self)@.wf(),
    {
        self.state.forget_missing(present);
        proof {
            lemma_flagged_len(old(self)@.remembered.history, present@);
        }
        self.keep_history()
    }

    /// Switches between playing and pausing.
    pub fn toggle_play_pause(current: PipelineState, pending: PipelineState) -> (actions: Vec<
        Action,
    >)
        ensures
            act_views(actions@) == toggle_acts(playing(current, pending)),
    {
        let mut actions: Vec<Action> = Vec::new();
        if is_playing(current, pending) {
            actions.push(Action::SetPipeline(PipelineState::Paused));
            actions.push(Action::SetButton(ButtonFace::Play));
        } else {
            actions.push(Action::SetPipeline(PipelineState::Playing));
            actions.push(Action::SetButton(ButtonFace::Pause));
        }
        assert(act_views(actions@) =~= toggle_acts(playing(current, pending)));
        actions
    }

    /// Steps by `seconds` from the second `position`, where a `duration` of
    /// zero or less is not known.
    pub fn seek_relative_seconds(position: i64, duration: i64, seconds: i64) -> (actions: Vec<
        Action,
    >)
        ensures
            act_views(actions@) == seq![
                Act::SeekSeconds(
                    stepped(position as int, duration as int, seconds as int) as nat,
                ),
                Act::RefreshSeekUi,
            ],
    {
        let mut actions: Vec<Action> = Vec::new();
        actions.push(Action::SeekSeconds(seek_target_seconds(position, duration, seconds)));
        actions.push(Action::RefreshSeekUi);
        assert(act_views(actions@) =~= seq![
            Act::SeekSeconds(stepped(position as int, duration as int, seconds as int) as nat),
            Act::RefreshSeekUi,
        ]);
        actions
    }

    /// Brings the seek bar and the time up to date with one reading of the
    /// pipeline. Says whether the player may move the seek bar to the
    /// position, and what the time is to show. Where it may, changes of the
    /// seek bar are its own until `release_scale`.
    pub fn refresh_seek_ui(&mut self, position: i64, duration: i64) -> (shown: (bool, String))
        ensures
            shown.0 == !old(self)@.user_seeking,
            shown.1@ == clock_pair(position as int, duration as int),
            final(self)@ == old(self)@.scale_held(),
            final(self)@.suppress_seek_signal == (old(self)@.suppress_seek_signal
                || !old(self)@.user_seeking),
            final(self)@.remembered == old(self)@.remembered,
            final(self)@.loop_enabled == old(self)@.loop_enabled,
            final(self)@.user_seeking == old(self)@.user_seeking,
            final(self)@.was_playing_before_seek == old(self)@.was_playing_before_seek,
            final(self)@.seek_timer_pending == old(self)@.seek_timer_pending,
            old(self)@.wf() ==> final(self)@.wf(),
    {
        let held = !self.user_seeking;
        if held {
            self.suppress_seek_signal = true;
        }
        (held, time_text(position, duration))
    }

    /// Changes of the seek bar are the user's again.
    pub fn release_scale(&mut self)
        ensures
            final(self)@ == old(self)@.scale_released(),
            !final(self)@.suppress_seek_signal,
            final(self)@.remembered == old(self)@.remembered,
            final(self)@.loop_enabled == old(self)@.loop_enabled,
            final(self)@.user_seeking == old(self)@.user_seeking,
            final(self)@.was_playing_before_seek == old(self)@.was_playing_before_seek,
            final(self)@.seek_timer_pending == old(self)@.seek_timer_pending,
            old(self)@.wf() ==> final(self)@.wf(),
    {
        self.suppress_seek_signal = false;
    }

    /// The last step of a refresh: the button offers to play once the file
    /// has come to its end.
    pub fn playback_shown(
        current: PipelineState,
        pending: PipelineState,
        at_end: bool,
    ) -> (actions: Vec<Action>)
        ensures
            act_views(actions@) == if !playing(current, pending) && at_end {
                seq![Act::SetButton(ButtonFace::Play)]
            } else {
                Seq::empty()
            },
    {
        let mut actions: Vec<Action> = Vec::new();
        if !is_playing(current, pending) && at_end {
            actions.push(Action::SetButton(ButtonFace::Play));
            assert(act_views(actions@) =~= seq![Act::SetButton(ButtonFace::Play)]);
        } else {
            assert(act_views(actions@) =~= Seq::empty());
        }
        actions
    }

    /// Goes back to the start of the file.
    pub fn restart_from_beginning(&mut self) -> (actions: Vec<Action>)
        ensures
            final(self)@ == old(self)@.restarted(),
            !final(self)@.user_seeking,
            !final(self)@.seek_timer_pending,
            final(self)@.remembered == old(self)@.remembered,
            final(self)@.loop_enabled == old(self)@.loop_enabled,
            final(self)@.suppress_seek_signal == old(self)@.suppress_seek_signal,
            final(self)@.was_playing_before_seek == old(self)@.was_playing_before_seek,
            act_views(actions@) == old(self)@.restart_acts(),
            old(self)@.wf() ==> final(self)@.wf(),
    {
        let mut actions: Vec<Action> = Vec::new();
        self.user_seeking = false;
        if self.seek_timer_pending {
            self.seek_timer_pending = false;
            actions.push(Action::CancelSeekTimer);
        }
        actions.push(Action::SetPipeline(PipelineState::Paused));
        actions.push(Action::SeekToStart);
        assert(act_views(actions@) =~= old(self)@.restart_acts());
        actions
    }

    /// Goes on once the seek to the start of the file was tried. Some short
    /// files refuse it at their end: those start over from `Ready`.
    pub fn restart_seeked(failed: bool) -> (actions: Vec<Action>)
        ensures
            act_views(actions@) == restarted_acts(failed),
    {
        let mut actions: Vec<Action> = Vec::new();
        if failed {
            actions.push(Action::SetPipeline(PipelineState::Ready));
        }
        actions.push(Action::SetPipeline(PipelineState::Playing));
        actions.push(Action::SettlePipeline(SETTLE_MILLIS));
        actions.push(Action::SetButton(ButtonFace::Pause));
        actions.push(Action::RefreshSeekUi);
        assert(act_views(actions@) =~= restarted_acts(failed));
        actions
    }

    /// The pipeline reports an error.
    pub fn pipeline_failed(error: &str, debug: &str) -> (actions: Vec<Action>)
        ensures
            act_views(actions@) == seq![
                Act::ShowError(pipeline_error(error@, debug@)),
                Act::SetButton(ButtonFace::Play),
            ],
    {
        let mut text = "動画を再生できませんでした: ".to_owned();
        text.append(error);
        text.append(" (");
        text.append(debug);
        text.append(")");
        let mut actions: Vec<Action> = Vec::new();
        actions.push(Action::ShowError(text));
        actions.push(Action::SetButton(ButtonFace::Play));
        assert(act_views(actions@) =~= seq![
            Act::ShowError(pipeline_error(error@, debug@)),
            Act::SetButton(ButtonFace::Play),
        ]);
        actions
    }

    /// The file has come to its end.
    pub fn end_of_stream(&mut self) -> (actions: Vec<Action>)
        ensures
            old(self)@.loop_enabled ==> final(self)@ == old(self)@.restarted() && act_views(
                actions@,
            ) == old(self)@.restart_acts(),
            !old(self)@.loop_enabled ==> final(self)@ == old(self)@ && act_views(actions@)
                == seq![Act::SetButton(ButtonFace::Play)],
            final(self)@.remembered == old(self)@.remembered,
            final(self)@.loop_enabled == old(self)@.loop_enabled,
            final(self)@.suppress_seek_signal == old(self)@.suppress_seek_signal,
            final(self)@.was_playing_before_seek == old(self)@.was_playing_before_seek,
            old(self)@.wf() ==> final(self)@.wf(),
    {
        if self.loop_enabled {
            self.restart_from_beginning()
        } else {
            let mut actions: Vec<Action> = Vec::new();
            actions.push(Action::SetButton(ButtonFace::Play));
            assert(act_views(actions@) =~= seq![Act::SetButton(ButtonFace::Play)]);
            actions
        }
    }

    /// A part of the pipeline, or the pipeline as a whole (`whole`), has
    /// changed its state.
    pub fn state_changed(whole: bool, current: PipelineState) -> (actions: Vec<Action>)
        ensures
            act_views(actions@) == if whole && current == PipelineState::Playing {
                seq![Act::SetButton(ButtonFace::Pause)]
            } else {
                Seq::empty()
            },
    {
        let mut actions: Vec<Action> = Vec::new();
        if whole && current == PipelineState::Playing {
            actions.push(Action::SetButton(ButtonFace::Pause));
            assert(act_views(actions@) =~= seq![Act::SetButton(ButtonFace::Pause)]);
        } else {
            assert(act_views(actions@) =~= Seq::empty());
        }
        actions
    }

    /// The seek bar has changed.
    pub fn scale_changed(
        &mut self,
        current: PipelineState,
        pending: PipelineState,
    ) -> (actions: Vec<Action>)
        ensures
            final(self)@ == old(self)@.scale_moved(playing(current, pending)),
            final(self)@.remembered == old(self)@.remembered,
            final(self)@.loop_enabled == old(self)@.loop_enabled,
            final(self)@.suppress_seek_signal == old(self)@.suppress_seek_signal,
            act_views(actions@) == old(self)@.scale_acts(playing(current, pending)),
            old(self)@.wf() ==> final(self)@.wf(),
    {
        let mut actions: Vec<Action> = Vec::new();
        if !self.suppress_seek_signal {
            if !self.user_seeking {
                let was_playing = is_playing(current, pending);
                self.user_seeking = true;
                self.was_playing_before_seek = was_playing;
                if was_playing {
                    actions.push(Action::SetPipeline(PipelineState::Paused));
                    actions.push(Action::SetButton(ButtonFace::Play));
                }
            }
            actions.push(Action::SeekToScale);
            actions.push(Action::ShowScaleTime);
            if self.seek_timer_pending {
                actions.push(Action::CancelSeekTimer);
            }
            actions.push(Action::StartSeekTimer(SEEK_REST_MILLIS));
            self.seek_timer_pending = true;
        }
        assert(act_views(actions@) =~= old(self)@.scale_acts(playing(current, pending)));
        actions
    }

    /// The seek bar has rested: the user's seek is over.
    pub fn seek_timer_fired(&mut self) -> (actions: Vec<Action>)
        ensures
            final(self)@ == old(self)@.seek_ended(),
            !final(self)@.user_seeking,
            final(self)@.remembered == old(self)@.remembered,
            final(self)@.loop_enabled == old(self)@.loop_enabled,
            final(self)@.suppress_seek_signal == old(self)@.suppress_seek_signal,
            final(self)@.was_playing_before_seek == old(self)@.was_playing_before_seek,
            final(self)@.seek_timer_pending == old(self)@.seek_timer_pending,
            act_views(actions@) == old(self)@.seek_end_acts(),
            old(self)@.wf() ==> final(self)@.wf(),
    {
        self.user_seeking = false;
        let mut actions: Vec<Action> = Vec::new();
        if self.was_playing_before_seek {
            actions.push(Action::SetPipeline(PipelineState::Playing));
            actions.push(Action::SetButton(ButtonFace::Pause));
        } else {
            actions.push(Action::SetButton(ButtonFace::Play));
        }
        actions.push(Action::RefreshSeekUi);
        actions.push(Action::ForgetSeekTimer);
        assert(act_views(actions@) =~= old(self)@.seek_end_acts());
        actions
    }

    /// The timer that ends the user's seek can no longer be cancelled.
    pub fn forget_seek_timer(&mut self)
        ensures
            final(self)@ == old(self)@.timer_forgotten(),
            !final(self)@.seek_timer_pending,
            final(self)@.remembered == old(self)@.remembered,
            final(self)@.loop_enabled == old(self)@.loop_enabled,
            final(self)@.suppress_seek_signal == old(self)@.suppress_seek_signal,
            final(self)@.user_seeking == old(self)@.user_seeking,
            final(self)@.was_playing_before_seek == old(self)@.was_playing_before_seek,
            old(self)@.wf() ==> final(self)@.wf(),
    {
        self.seek_timer_pending = false;
    }
}

} // verus!
