//! What the values that callers hand in and get back stand for.

use crate::action::{act_views, face_text, Act, Action, ButtonFace};
use crate::menu::{entry_views, MenuEntry};
use crate::path::{byte_lists, path_views, MediaPath};
use crate::startup::{init_error, offered_endings};
use crate::state::PersistedState;
use vstd::prelude::*;

verus! {

/// A path stands for its bytes, and a list of paths for theirs, one by one.
pub proof fn law_paths_stand_for_their_bytes(path: MediaPath, paths: Seq<MediaPath>, i: int)
    ensures
        path@ == path.bytes@,
        path_views(paths).len() == paths.len(),
        0 <= i < paths.len() ==> path_views(paths)[i] == paths[i].bytes@,
{
}

/// A list of byte strings stands for their bytes, one by one.
pub proof fn law_byte_strings_stand_for_their_bytes(lists: Seq<Vec<u8>>, i: int)
    ensures
        byte_lists(lists).len() == lists.len(),
        0 <= i < lists.len() ==> byte_lists(lists)[i] == lists[i]@,
{
}

/// A state stands for its loop setting and for the bytes of every path of its
/// history, in order.
pub proof fn law_states_stand_for_what_they_hold(state: PersistedState, i: int)
    ensures
        state@.loop_enabled == state.loop_enabled,
        state@.history.len() == state.history@.len(),
        0 <= i < state.history@.len() ==> state@.history[i] == state.history@[i].bytes@,
{
}

/// A menu entry stands for its two texts, and a list of entries for theirs,
/// one by one.
pub proof fn law_entries_stand_for_their_texts(
    entry: MenuEntry,
    entries: Seq<MenuEntry>,
    i: int,
)
    ensures
        entry@.label == entry.label@,
        entry@.action == entry.action@,
        entry_views(entries).len() == entries.len(),
        0 <= i < entries.len() ==> entry_views(entries)[i].label == entries[i].label@
            && entry_views(entries)[i].action == entries[i].action@,
{
}

/// A list of steps stands for its steps, one by one.
pub proof fn law_lists_of_steps_stand_for_their_steps(actions: Seq<Action>, i: int)
    ensures
        act_views(actions).len() == actions.len(),
        0 <= i < actions.len() ==> act_views(actions)[i] == actions[i]@,
{
}

/// Two steps stand for the same only if they are of the same kind and hold
/// the same state, number, text, bytes or entries.
pub proof fn law_different_steps_stand_for_different_things(action: Action, act: Act)
    requires
        action@ == act,
    ensures
        match act {
            Act::SetPipeline(state) => action matches Action::SetPipeline(own) && own == state,
            Act::SetMedia(path) => action matches Action::SetMedia(own) && own.bytes@ == path,
            Act::StartMedia(path) => action matches Action::StartMedia(own) && own.bytes@ == path,
            Act::SeekSeconds(n) => action matches Action::SeekSeconds(own) && own == n,
            Act::SeekToScale => action is SeekToScale,
            Act::SeekToStart => action is SeekToStart,
            Act::SettlePipeline(n) => action matches Action::SettlePipeline(own) && own == n,
            Act::SetButton(face) => action matches Action::SetButton(own) && own == face,
            Act::ShowError(text) => action matches Action::ShowError(own) && own@ == text,
            Act::SaveState(text) => action matches Action::SaveState(own) && own@ == text,
            Act::ShowHistory(menu) => action matches Action::ShowHistory(own) && entry_views(own@)
                == menu,
            Act::RecordRecent(path) => action matches Action::RecordRecent(own) && own.bytes@
                == path,
            Act::ProbeFile(path) => action matches Action::ProbeFile(own) && own.bytes@ == path,
            Act::PruneHistory => action is PruneHistory,
            Act::RefreshSeekUi => action is RefreshSeekUi,
            Act::ShowScaleTime => action is ShowScaleTime,
            Act::CancelSeekTimer => action is CancelSeekTimer,
            Act::StartSeekTimer(n) => action matches Action::StartSeekTimer(own) && own == n,
            Act::ForgetSeekTimer => action is ForgetSeekTimer,
        },
{
}

/// The button shows a triangle where it offers to play and two bars where it
/// offers to pause.
pub proof fn law_button_texts()
    ensures
        face_text(ButtonFace::Play) == seq!['▶'],
        face_text(ButtonFace::Pause) == seq!['⏸'],
{
    reveal_strlit("▶");
    reveal_strlit("⏸");
}

/// A report that the media framework did not start ends with the error, all
/// of it, behind the same words.
pub proof fn law_start_errors_are_reported_in_full(error: Seq<char>)
    ensures
        init_error(error) == "GStreamer 初期化に失敗しました: "@ + error,
{
}

/// The file dialog offers six kinds of files.
pub proof fn law_offered_endings()
    ensures
        offered_endings().len() == 6,
        offered_endings().contains("mp4"@),
        offered_endings().contains("mkv"@),
        offered_endings().contains("webm"@),
        offered_endings().contains("mov"@),
        offered_endings().contains("avi"@),
        offered_endings().contains("m4v"@),
        offered_endings() == seq!["mp4"@, "mkv"@, "webm"@, "mov"@, "avi"@, "m4v"@],
{
    assert(offered_endings()[0] == "mp4"@);
    assert(offered_endings()[1] == "mkv"@);
    assert(offered_endings()[2] == "webm"@);
    assert(offered_endings()[3] == "mov"@);
    assert(offered_endings()[4] == "avi"@);
    assert(offered_endings()[5] == "m4v"@);
}

} // verus!
