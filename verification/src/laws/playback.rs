//! How playback goes on through toggles, seeks and loops.

use crate::action::{asked_state, shown_face, Act, ButtonFace, PipelineState};
use crate::menu::menu;
use crate::player::{
    history_acts, key_meaning, media_acts, pipeline_error, playing, probed_acts, restarted_acts,
    started_acts, toggle_acts, Command, Key, PlayerModel, SEEK_REST_MILLIS, SETTLE_MILLIS,
};
use crate::state::{saved_text, Remembered};
use vstd::prelude::*;

verus! {

/// To toggle twice is to be back where one was: each time the pipeline is
/// asked for the opposite of what it did.
pub proof fn law_toggle_alternates(current: PipelineState, pending: PipelineState)
    ensures
        ({
            let first = toggle_acts(playing(current, pending));
            let reached = asked_state(first, current);
            let second = toggle_acts(playing(reached, PipelineState::VoidPending));
            &&& playing(reached, PipelineState::VoidPending) == !playing(current, pending)
            &&& playing(asked_state(second, reached), PipelineState::VoidPending) == playing(
                current,
                pending,
            )
        }),
{
    reveal_with_fuel(asked_state, 3);
}

/// After a toggle, a start, a restart or the end of a seek, the button offers
/// to pause a file that plays, and to play one that does not.
pub proof fn law_button_follows_the_pipeline(
    model: PlayerModel,
    path: Seq<u8>,
    is_playing: bool,
    failed: bool,
    state: PipelineState,
    face: ButtonFace,
)
    ensures
        shown_face(toggle_acts(is_playing), face) == ButtonFace::Pause <==> asked_state(
            toggle_acts(is_playing),
            state,
        ) == PipelineState::Playing,
        shown_face(started_acts(path, false), face) == ButtonFace::Pause,
        shown_face(started_acts(path, true), face) == ButtonFace::Play,
        shown_face(restarted_acts(failed), face) == ButtonFace::Pause,
        asked_state(restarted_acts(failed), state) == PipelineState::Playing,
        shown_face(model.seek_end_acts(), face) == ButtonFace::Pause
            <==> model.was_playing_before_seek,
        model.was_playing_before_seek ==> asked_state(model.seek_end_acts(), state)
            == PipelineState::Playing,
        !model.was_playing_before_seek ==> asked_state(model.seek_end_acts(), state) == state,
{
    reveal_with_fuel(asked_state, 6);
    reveal_with_fuel(shown_face, 6);
}

/// The player after the user has moved the seek bar several times, where
/// `readings` says whether the file was playing at each move.
pub open spec fn dragged(model: PlayerModel, readings: Seq<bool>) -> PlayerModel
    decreases readings.len(),
{
    if readings.len() == 0 {
        model
    } else {
        dragged(model, readings.drop_last()).scale_moved(readings.last())
    }
}

/// Moving the seek bar does not change whose changes of it are.
proof fn lemma_dragged_keeps_signal(model: PlayerModel, readings: Seq<bool>)
    ensures
        dragged(model, readings).suppress_seek_signal == model.suppress_seek_signal,
    decreases readings.len(),
{
    if readings.len() > 0 {
        lemma_dragged_keeps_signal(model, readings.drop_last());
    }
}

/// However often the seek bar moves in one seek, playback goes on afterwards
/// exactly if the file was playing when the seek began. No timer is left
/// then, and all that has changed is the note whether the file was playing.
pub proof fn law_seek_restores_playback(model: PlayerModel, readings: Seq<bool>)
    requires
        !model.suppress_seek_signal,
        !model.user_seeking,
        readings.len() > 0,
    ensures
        ({
            let held = dragged(model, readings);
            &&& held.user_seeking
            &&& held.seek_timer_pending
            &&& held.was_playing_before_seek == readings[0]
            &&& held.seek_end_acts().contains(Act::SetPipeline(PipelineState::Playing))
                <==> readings[0]
            &&& held.seek_ended().timer_forgotten() == (PlayerModel {
                was_playing_before_seek: readings[0],
                seek_timer_pending: false,
                ..model
            })
        }),
    decreases readings.len(),
{
    let front = readings.drop_last();
    if readings.len() > 1 {
        law_seek_restores_playback(model, front);
    } else {
        assert(dragged(model, front) == model);
    }
    let held = dragged(model, readings);
    if readings[0] {
        assert(held.seek_end_acts()[0] == Act::SetPipeline(PipelineState::Playing));
    }
}

/// Each move of a seek leads to the place that the seek bar shows and starts
/// the timer that ends the seek, and every later move cancels the timer of the
/// one before; but only the first pauses the file, and only if it was playing.
pub proof fn law_seek_pauses_once(model: PlayerModel, readings: Seq<bool>, is_playing: bool)
    requires
        !model.suppress_seek_signal,
        !model.user_seeking,
    ensures
        dragged(model, readings).scale_acts(is_playing).contains(Act::SeekToScale),
        dragged(model, readings).scale_acts(is_playing).last() == Act::StartSeekTimer(
            SEEK_REST_MILLIS as nat,
        ),
        readings.len() > 0 ==> dragged(model, readings).scale_acts(is_playing).contains(
            Act::CancelSeekTimer,
        ),
        dragged(model, readings).scale_acts(is_playing).contains(
            Act::SetPipeline(PipelineState::Paused),
        ) <==> readings.len() == 0 && is_playing,
{
    lemma_dragged_keeps_signal(model, readings);
    if readings.len() > 0 {
        law_seek_restores_playback(model, readings);
    }
    let acts = dragged(model, readings).scale_acts(is_playing);
    let begun = if readings.len() == 0 && is_playing {
        2int
    } else {
        0
    };
    assert(acts[begun] == Act::SeekToScale);
    if readings.len() > 0 {
        assert(acts[2] == Act::CancelSeekTimer);
    }
    if readings.len() == 0 && is_playing {
        assert(acts[0] == Act::SetPipeline(PipelineState::Paused));
    }
}

/// While the player moves the seek bar itself, changes of the seek bar go
/// unheard, and the player is afterwards what it was.
pub proof fn law_own_changes_go_unheard(model: PlayerModel, is_playing: bool)
    requires
        !model.suppress_seek_signal,
        !model.user_seeking,
    ensures
        model.scale_held().scale_acts(is_playing) == Seq::<Act>::empty(),
        model.scale_held().scale_moved(is_playing) == model.scale_held(),
        model.scale_held().scale_moved(is_playing).scale_released() == model,
{
}

/// While the user moves the seek bar, the player leaves it alone.
pub proof fn law_user_holds_the_seek_bar(model: PlayerModel)
    requires
        model.user_seeking,
    ensures
        model.scale_held() == model,
{
}

/// To go back to the start of a file, as a looping player does at its end, is
/// to play it again, whether or not the pipeline takes the seek; a seek of the
/// user's is over then.
pub proof fn law_loop_plays_again(model: PlayerModel, failed: bool, state: PipelineState)
    ensures
        model.restart_acts().last() == Act::SeekToStart,
        asked_state(model.restart_acts() + restarted_acts(failed), state)
            == PipelineState::Playing,
        !model.restarted().user_seeking,
        !model.restarted().seek_timer_pending,
{
    let whole = model.restart_acts() + restarted_acts(failed);
    assert(whole.last() == Act::RefreshSeekUi);
    assert(whole.drop_last().last() == Act::SetButton(ButtonFace::Pause));
    assert(whole.drop_last().drop_last().last() matches Act::SettlePipeline(_));
    assert(whole.drop_last().drop_last().drop_last().last() == Act::SetPipeline(
        PipelineState::Playing,
    ));
    reveal_with_fuel(asked_state, 5);
}

/// Whether a step asks the pipeline for another place in the file.
pub open spec fn is_seek(act: Act) -> bool {
    match act {
        Act::SeekSeconds(_) => true,
        Act::SeekToScale => true,
        Act::SeekToStart => true,
        _ => false,
    }
}

/// The seeks among some steps, in order.
pub open spec fn seeks(acts: Seq<Act>) -> Seq<Act>
    decreases acts.len(),
{
    if acts.len() == 0 {
        Seq::empty()
    } else if is_seek(acts.last()) {
        seeks(acts.drop_last()).push(acts.last())
    } else {
        seeks(acts.drop_last())
    }
}

/// The seeks of steps that follow each other follow each other.
proof fn lemma_seeks_concat(a: Seq<Act>, b: Seq<Act>)
    ensures
        seeks(a + b) == seeks(a) + seeks(b),
    decreases b.len(),
{
    if b.len() == 0 {
        assert(a + b =~= a);
        assert(seeks(a) + seeks(b) =~= seeks(a));
    } else {
        lemma_seeks_concat(a, b.drop_last());
        assert((a + b).drop_last() =~= a + b.drop_last());
        assert((a + b).last() == b.last());
        assert(seeks(a + b) =~= seeks(a) + seeks(b));
    }
}

/// Where no step is a seek, there are no seeks.
proof fn lemma_no_seeks(acts: Seq<Act>)
    requires
        forall|i: int| 0 <= i < acts.len() ==> !is_seek(#[trigger] acts[i]),
    ensures
        seeks(acts) == Seq::<Act>::empty(),
    decreases acts.len(),
{
    if acts.len() > 0 {
        assert forall|i: int| 0 <= i < acts.drop_last().len() implies !is_seek(
            #[trigger] acts.drop_last()[i],
        ) by {
            assert(acts[i] == acts.drop_last()[i]);
        }
        lemma_no_seeks(acts.drop_last());
        assert(!is_seek(acts[acts.len() - 1]));
    }
}

/// The steps of a drag: those of each move of the seek bar, where `readings`
/// says whether the file was playing at each.
pub open spec fn drag_acts(model: PlayerModel, readings: Seq<bool>) -> Seq<Act>
    decreases readings.len(),
{
    if readings.len() == 0 {
        Seq::empty()
    } else {
        drag_acts(model, readings.drop_last()) + dragged(model, readings.drop_last()).scale_acts(
            readings.last(),
        )
    }
}

/// The end of a user's seek asks for no other place: none of its steps is a
/// seek, whatever the player remembers and whether or not it loops.
pub proof fn law_seek_end_stays_in_place(model: PlayerModel, k: int)
    requires
        0 <= k < model.seek_end_acts().len(),
    ensures
        !is_seek(model.seek_end_acts()[k]),
{
}

/// A move of the seek bar asks for one place, the one that it shows; a change
/// of the player's own asks for none.
pub proof fn law_each_move_seeks_once(model: PlayerModel, is_playing: bool)
    ensures
        seeks(model.scale_acts(is_playing)) == if model.suppress_seek_signal {
            Seq::<Act>::empty()
        } else {
            seq![Act::SeekToScale]
        },
{
    let acts = model.scale_acts(is_playing);
    if !model.suppress_seek_signal {
        let at: int = if !model.user_seeking && is_playing {
            2
        } else {
            0
        };
        let front = acts.take(at);
        let tail = acts.skip(at + 1);
        lemma_no_seeks(front);
        lemma_no_seeks(tail);
        let one = seq![Act::SeekToScale];
        assert(one.drop_last() =~= Seq::empty());
        assert(seeks(one.drop_last()) =~= Seq::empty());
        assert(seeks(one) =~= one);
        lemma_seeks_concat(front, one);
        lemma_seeks_concat(front + one, tail);
        assert(acts =~= front + one + tail);
        assert(seeks(acts) =~= one);
    }
}

/// A drag asks for one place per move, each time the one that the seek bar
/// shows, and its end asks for no other: the file stays at the place of the
/// last move.
pub proof fn law_drag_ends_where_the_seek_bar_is(model: PlayerModel, readings: Seq<bool>)
    requires
        !model.suppress_seek_signal,
    ensures
        ({
            let held = dragged(model, readings);
            let asked = seeks(drag_acts(model, readings) + held.seek_end_acts());
            &&& asked.len() == readings.len()
            &&& forall|i: int| 0 <= i < asked.len() ==> #[trigger] asked[i] == Act::SeekToScale
        }),
    decreases readings.len(),
{
    let held = dragged(model, readings);
    lemma_seeks_concat(drag_acts(model, readings), held.seek_end_acts());
    assert forall|k: int| 0 <= k < held.seek_end_acts().len() implies !is_seek(
        #[trigger] held.seek_end_acts()[k],
    ) by {
        law_seek_end_stays_in_place(held, k);
    }
    lemma_no_seeks(held.seek_end_acts());
    if readings.len() > 0 {
        let front = readings.drop_last();
        let before = dragged(model, front);
        law_drag_ends_where_the_seek_bar_is(model, front);
        lemma_seeks_concat(drag_acts(model, front), before.seek_end_acts());
        assert forall|k: int| 0 <= k < before.seek_end_acts().len() implies !is_seek(
            #[trigger] before.seek_end_acts()[k],
        ) by {
            law_seek_end_stays_in_place(before, k);
        }
        lemma_no_seeks(before.seek_end_acts());
        assert(seeks(drag_acts(model, front)) + Seq::<Act>::empty() =~= seeks(
            drag_acts(model, front),
        ));
        lemma_dragged_keeps_signal(model, front);
        law_each_move_seeks_once(before, readings.last());
        lemma_seeks_concat(drag_acts(model, front), before.scale_acts(readings.last()));
    }
}

/// The end of a user's seek lets a file that was playing play on, then brings
/// the window up to date and gives up the timer. Nothing but whether the file
/// was playing counts.
pub proof fn law_seek_end_steps(model: PlayerModel)
    ensures
        model.was_playing_before_seek ==> model.seek_end_acts() == seq![
            Act::SetPipeline(PipelineState::Playing),
            Act::SetButton(ButtonFace::Pause),
            Act::RefreshSeekUi,
            Act::ForgetSeekTimer,
        ],
        !model.was_playing_before_seek ==> model.seek_end_acts() == seq![
            Act::SetButton(ButtonFace::Play),
            Act::RefreshSeekUi,
            Act::ForgetSeekTimer,
        ],
{
}

/// Each move of a seek goes to the place that the seek bar shows, shows its
/// time and starts the timer of 180 milliseconds anew; the first also pauses
/// a file that plays. Neither the history nor the loop setting counts.
pub proof fn law_move_steps(model: PlayerModel, is_playing: bool)
    ensures
        ({
            let acts = model.scale_acts(is_playing);
            let moved = seq![Act::SeekToScale, Act::ShowScaleTime];
            let paused = seq![
                Act::SetPipeline(PipelineState::Paused),
                Act::SetButton(ButtonFace::Play),
            ];
            let timed = if model.seek_timer_pending {
                seq![Act::CancelSeekTimer, Act::StartSeekTimer(180)]
            } else {
                seq![Act::StartSeekTimer(180)]
            };
            &&& model.suppress_seek_signal ==> acts == Seq::<Act>::empty()
            &&& !model.suppress_seek_signal && model.user_seeking ==> acts == moved + timed
            &&& !model.suppress_seek_signal && !is_playing ==> acts == moved + timed
            &&& !model.suppress_seek_signal && !model.user_seeking && is_playing ==> acts == paused
                + moved + timed
        }),
{
}

/// To go back to the start is to cancel the timer of a seek, if there is one,
/// to pause and to seek to the start; then the file plays on, from `Ready` if
/// the seek failed, and has 100 milliseconds to settle.
pub proof fn law_restart_steps(model: PlayerModel, failed: bool)
    ensures
        model.seek_timer_pending ==> model.restart_acts() == seq![
            Act::CancelSeekTimer,
            Act::SetPipeline(PipelineState::Paused),
            Act::SeekToStart,
        ],
        !model.seek_timer_pending ==> model.restart_acts() == seq![
            Act::SetPipeline(PipelineState::Paused),
            Act::SeekToStart,
        ],
        restarted_acts(false) == seq![
            Act::SetPipeline(PipelineState::Playing),
            Act::SettlePipeline(100),
            Act::SetButton(ButtonFace::Pause),
            Act::RefreshSeekUi,
        ],
        restarted_acts(true) == seq![Act::SetPipeline(PipelineState::Ready)] + restarted_acts(
            false,
        ),
        SETTLE_MILLIS == 100,
        SEEK_REST_MILLIS == 180,
{
}

/// A file is played from `Ready`, under its own path; once it was started, it
/// is put into the history and the window is brought up to date, whether or
/// not the pipeline refused it. A refusal is reported.
pub proof fn law_media_steps(path: Seq<u8>)
    ensures
        media_acts(path) == seq![
            Act::SetPipeline(PipelineState::Ready),
            Act::SetMedia(path),
            Act::StartMedia(path),
        ],
        started_acts(path, false) == seq![
            Act::SetButton(ButtonFace::Pause),
            Act::RecordRecent(path),
            Act::RefreshSeekUi,
        ],
        started_acts(path, true) == seq![
            Act::ShowError(
                "動画を再生できませんでした。\nGStreamer のプラグイン/コーデックを確認してください。"@,
            ),
            Act::SetButton(ButtonFace::Play),
            Act::RecordRecent(path),
            Act::RefreshSeekUi,
        ],
        probed_acts(path, true) == seq![
            Act::SetPipeline(PipelineState::Ready),
            Act::SetMedia(path),
            Act::StartMedia(path),
        ],
{
}

/// A pipeline plays if it is playing or about to, and not otherwise; a toggle
/// pauses one that plays and lets any other play.
pub proof fn law_toggle_steps(current: PipelineState, pending: PipelineState)
    ensures
        playing(PipelineState::Playing, pending),
        playing(current, PipelineState::Playing),
        current != PipelineState::Playing && pending != PipelineState::Playing ==> !playing(
            current,
            pending,
        ),
        toggle_acts(true) == seq![
            Act::SetPipeline(PipelineState::Paused),
            Act::SetButton(ButtonFace::Play),
        ],
        toggle_acts(false) == seq![
            Act::SetPipeline(PipelineState::Playing),
            Act::SetButton(ButtonFace::Pause),
        ],
{
}

/// What is remembered is kept in both places at once: the text that saves it,
/// and the menu of its history.
pub proof fn law_history_steps(state: Remembered)
    ensures
        history_acts(state) == seq![
            Act::SaveState(saved_text(state)),
            Act::ShowHistory(menu(state.history)),
        ],
{
}

/// An error of the pipeline is reported with its text and, in brackets, its
/// details.
pub proof fn law_errors_are_reported_in_full(error: Seq<char>, debug: Seq<char>)
    ensures
        pipeline_error(error, debug) == "動画を再生できませんでした: "@ + error + seq![' ', '(']
            + debug + seq![')'],
{
    reveal_strlit(" (");
    reveal_strlit(")");
    assert(" ("@ =~= seq![' ', '(']);
    assert(")"@ =~= seq![')']);
}

/// The space bar toggles, the arrow keys step ten seconds back and forward,
/// and no other key stands for anything.
pub proof fn law_keys(key: Key)
    ensures
        key == Key::Space ==> key_meaning(key) == Some(Command::TogglePlayPause),
        key == Key::Left ==> key_meaning(key) == Some(Command::SeekRelative(-10i64)),
        key == Key::Right ==> key_meaning(key) == Some(Command::SeekRelative(10)),
        key_meaning(key) is None <==> key == Key::Other,
{
}

/// A player starts with what is remembered, with that loop setting, and with
/// no seek under way.
pub proof fn law_players_start_afresh(state: Remembered)
    ensures
        PlayerModel::fresh(state).remembered == state,
        PlayerModel::fresh(state).loop_enabled == state.loop_enabled,
        !PlayerModel::fresh(state).suppress_seek_signal,
        !PlayerModel::fresh(state).user_seeking,
        !PlayerModel::fresh(state).was_playing_before_seek,
        !PlayerModel::fresh(state).seek_timer_pending,
{
}

/// The same seek, or none, is under way in two players.
pub open spec fn seek_alike(a: PlayerModel, b: PlayerModel) -> bool {
    &&& a.suppress_seek_signal == b.suppress_seek_signal
    &&& a.user_seeking == b.user_seeking
    &&& a.was_playing_before_seek == b.was_playing_before_seek
    &&& a.seek_timer_pending == b.seek_timer_pending
}

/// To change the loop setting changes it in force and as it is remembered,
/// and nothing else; to change the history changes the history, all of it,
/// and nothing else.
pub proof fn law_settings_change_nothing_else(
    model: PlayerModel,
    enabled: bool,
    history: Seq<Seq<u8>>,
)
    ensures
        model.with_loop(enabled).loop_enabled == enabled,
        model.with_loop(enabled).remembered.loop_enabled == enabled,
        model.with_loop(enabled).remembered.history == model.remembered.history,
        seek_alike(model.with_loop(enabled), model),
        model.with_history(history).remembered.history == history,
        model.with_history(history).remembered.loop_enabled == model.remembered.loop_enabled,
        model.with_history(history).loop_enabled == model.loop_enabled,
        seek_alike(model.with_history(history), model),
{
}

/// No seek and no restart changes the loop setting or what is remembered.
pub proof fn law_seeks_keep_the_settings(model: PlayerModel, is_playing: bool)
    ensures
        model.scale_held().remembered == model.remembered,
        model.scale_held().loop_enabled == model.loop_enabled,
        model.scale_released().remembered == model.remembered,
        model.scale_released().loop_enabled == model.loop_enabled,
        model.scale_moved(is_playing).remembered == model.remembered,
        model.scale_moved(is_playing).loop_enabled == model.loop_enabled,
        model.seek_ended().remembered == model.remembered,
        model.seek_ended().loop_enabled == model.loop_enabled,
        model.timer_forgotten().remembered == model.remembered,
        model.timer_forgotten().loop_enabled == model.loop_enabled,
        model.restarted().remembered == model.remembered,
        model.restarted().loop_enabled == model.loop_enabled,
{
}

/// Each event of a seek changes its own notes and leaves the others.
pub proof fn law_seek_events_keep_to_their_notes(model: PlayerModel, is_playing: bool)
    ensures
        seek_alike(
            model.scale_held(),
            (PlayerModel {
                suppress_seek_signal: model.suppress_seek_signal || !model.user_seeking,
                ..model
            }),
        ),
        seek_alike(
            model.scale_released(),
            (PlayerModel { suppress_seek_signal: false, ..model }),
        ),
        model.suppress_seek_signal ==> seek_alike(model.scale_moved(is_playing), model),
        !model.suppress_seek_signal ==> {
            let moved = model.scale_moved(is_playing);
            &&& !moved.suppress_seek_signal
            &&& moved.user_seeking
            &&& moved.seek_timer_pending
            &&& model.user_seeking ==> moved.was_playing_before_seek
                == model.was_playing_before_seek
            &&& !model.user_seeking ==> moved.was_playing_before_seek == is_playing
        },
        seek_alike(model.seek_ended(), (PlayerModel { user_seeking: false, ..model })),
        seek_alike(model.timer_forgotten(), (PlayerModel { seek_timer_pending: false, ..model })),
        !model.restarted().user_seeking,
        !model.restarted().seek_timer_pending,
        model.restarted().suppress_seek_signal == model.suppress_seek_signal,
        model.restarted().was_playing_before_seek == model.was_playing_before_seek,
{
}

/// The player after its file has come to an end so many times, where each end
/// of a looping player leads back to the start.
pub open spec fn after_ends(model: PlayerModel, ends: nat) -> PlayerModel
    decreases ends,
{
    if ends == 0 {
        model
    } else {
        let before = after_ends(model, (ends - 1) as nat);
        if before.loop_enabled {
            before.restarted()
        } else {
            before
        }
    }
}

/// A player that loops goes back to the start at every end of its file, and
/// goes on looping until the user changes that; one that does not loop stays
/// as it is. Neither forgets anything.
pub proof fn law_looping_players_go_on_looping(model: PlayerModel, ends: nat)
    ensures
        after_ends(model, ends).loop_enabled == model.loop_enabled,
        after_ends(model, ends).remembered == model.remembered,
        after_ends(model, ends).suppress_seek_signal == model.suppress_seek_signal,
        after_ends(model, ends).was_playing_before_seek == model.was_playing_before_seek,
        after_ends(model, ends).restart_acts().last() == Act::SeekToStart,
        model.loop_enabled && ends > 0 ==> after_ends(model, ends).restart_acts() == seq![
            Act::SetPipeline(PipelineState::Paused),
            Act::SeekToStart,
        ],
        !model.loop_enabled ==> after_ends(model, ends) == model,
    decreases ends,
{
    if ends > 0 {
        law_looping_players_go_on_looping(model, (ends - 1) as nat);
    }
}

/// The loop setting in force is the one that is remembered, and the history
/// keeps its limit of fifty files.
pub proof fn law_players_keep_their_settings_in_step(model: PlayerModel)
    ensures
        model.wf() <==> model.loop_enabled == model.remembered.loop_enabled
            && model.remembered.history.len() <= 50,
{
}

} // verus!
