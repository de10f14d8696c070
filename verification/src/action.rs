//! What the player asks of the media pipeline and of the window.

use crate::menu::{entry_views, Entry, MenuEntry};
use crate::path::MediaPath;
use vstd::prelude::*;

verus! {

/// A state of the media pipeline.
#[derive(Clone, Copy, Debug, PartialEq, Eq, Structural)]
pub enum PipelineState {
    /// No state change is under way.
    VoidPending,
    Null,
    Ready,
    Paused,
    Playing,
}

/// What the play button offers.
#[derive(Clone, Copy, Debug, PartialEq, Eq, Structural)]
pub enum ButtonFace {
    Play,
    Pause,
}

/// The text on the play button.
pub open spec fn face_text(face: ButtonFace) -> Seq<char> {
    match face {
        ButtonFace::Play => "▶"@,
        ButtonFace::Pause => "⏸"@,
    }
}

impl ButtonFace {
    /// The text on the play button.
    pub fn label(self) -> (text: &'static str)
        ensures
            text@ == face_text(self),
    {
        match self {
            ButtonFace::Play => "▶",
            ButtonFace::Pause => "⏸",
        }
    }
}

/// A step that is carried out outside the library. Steps are carried out in
/// the order in which they are listed; where a step reports back, what its
/// report leads to is carried out before the next step.
#[derive(Debug)]
pub enum Action {
    /// Ask the pipeline to change to a state, and go on whatever it answers.
    SetPipeline(PipelineState),
    /// Hand the pipeline the file to play.
    SetMedia(MediaPath),
    /// Ask the pipeline to play the file, then report to
    /// `PlayerUi::media_started` whether it refused.
    StartMedia(MediaPath),
    /// Seek to a second, at a key frame.
    SeekSeconds(u64),
    /// Seek to the place that the seek bar shows (`seek_target_nanos`): an
    /// accurate seek, with a key frame asked for too.
    SeekToScale,
    /// Seek to the very start, accurately, then report to `PlayerUi::restart_seeked`
    /// whether that failed.
    SeekToStart,
    /// Wait at most so many milliseconds for the pipeline to settle.
    SettlePipeline(u64),
    SetButton(ButtonFace),
    ShowError(String),
    /// Write the text to the state file.
    SaveState(String),
    /// Replace the entries of the history menu.
    ShowHistory(Vec<MenuEntry>),
    /// Look which of the candidates exist, then report to
    /// `PlayerUi::record_recent_file`.
    RecordRecent(MediaPath),
    /// Look whether a file exists, then report to
    /// `PlayerUi::history_file_probed`.
    ProbeFile(MediaPath),
    /// Look which files of the history exist, then report to
    /// `PlayerUi::prune_history`.
    PruneHistory,
    /// Read the position and the duration, and report them to
    /// `PlayerUi::refresh_seek_ui`; show what it says, then report to
    /// `PlayerUi::playback_shown` whether the file has come to its end.
    RefreshSeekUi,
    /// Show the time of the place that the seek bar shows: `time_text`.
    ShowScaleTime,
    CancelSeekTimer,
    /// Report to `PlayerUi::seek_timer_fired` after so many milliseconds.
    StartSeekTimer(u64),
    /// Report to `PlayerUi::forget_seek_timer`.
    ForgetSeekTimer,
}

/// An `Action` as plain mathematics.
pub enum Act {
    SetPipeline(PipelineState),
    SetMedia(Seq<u8>),
    StartMedia(Seq<u8>),
    SeekSeconds(nat),
    SeekToScale,
    SeekToStart,
    SettlePipeline(nat),
    SetButton(ButtonFace),
    ShowError(Seq<char>),
    SaveState(Seq<char>),
    ShowHistory(Seq<Entry>),
    RecordRecent(Seq<u8>),
    ProbeFile(Seq<u8>),
    PruneHistory,
    RefreshSeekUi,
    ShowScaleTime,
    CancelSeekTimer,
    StartSeekTimer(nat),
    ForgetSeekTimer,
}

impl View for Action {
    type V = Act;

    open spec fn view(&self) -> Act {
        match self {
            Action::SetPipeline(state) => Act::SetPipeline(*state),
            Action::SetMedia(path) => Act::SetMedia(path@),
            Action::StartMedia(path) => Act::StartMedia(path@),
            Action::SeekSeconds(seconds) => Act::SeekSeconds(*seconds as nat),
            Action::SeekToScale => Act::SeekToScale,
            Action::SeekToStart => Act::SeekToStart,
            Action::SettlePipeline(millis) => Act::SettlePipeline(*millis as nat),
            Action::SetButton(face) => Act::SetButton(*face),
            Action::ShowError(text) => Act::ShowError(text@),
            Action::SaveState(text) => Act::SaveState(text@),
            Action::ShowHistory(entries) => Act::ShowHistory(entry_views(entries@)),
            Action::RecordRecent(path) => Act::RecordRecent(path@),
            Action::ProbeFile(path) => Act::ProbeFile(path@),
            Action::PruneHistory => Act::PruneHistory,
            Action::RefreshSeekUi => Act::RefreshSeekUi,
            Action::ShowScaleTime => Act::ShowScaleTime,
            Action::CancelSeekTimer => Act::CancelSeekTimer,
            Action::StartSeekTimer(millis) => Act::StartSeekTimer(*millis as nat),
            Action::ForgetSeekTimer => Act::ForgetSeekTimer,
        }
    }
}

/// The views of a list of actions.
pub open spec fn act_views(actions: Seq<Action>) -> Seq<Act> {
    actions.map_values(|action: Action| action@)
}

/// The state that the pipeline was last asked for, where it was in `before`.
pub open spec fn asked_state(acts: Seq<Act>, before: PipelineState) -> PipelineState
    decreases acts.len(),
{
    if acts.len() == 0 {
        before
    } else {
        match acts.last() {
            Act::SetPipeline(state) => state,
            Act::StartMedia(_) => PipelineState::Playing,
            _ => asked_state(acts.drop_last(), before),
        }
    }
}

/// What the play button shows at the end, where it showed `before`.
pub open spec fn shown_face(acts: Seq<Act>, before: ButtonFace) -> ButtonFace
    decreases acts.len(),
{
    if acts.len() == 0 {
        before
    } else {
        match acts.last() {
            Act::SetButton(face) => face,
            _ => shown_face(acts.drop_last(), before),
        }
    }
}

} // verus!
