//! What the history of played files keeps to.

use crate::action::Act;
use crate::decimal::{decimal, lemma_decimal_injective};
use crate::laws::paths::{
    below, is_piece, law_files_are_called_by_their_last_piece, says_nothing,
};
use crate::menu::{action_name, display_name, label, menu};
use crate::path::same_path;
use crate::player::{media_acts, opened_acts, probed_acts};
use crate::select::{
    first_items, flagged, flags_of, lemma_flagged_all, lemma_flagged_complete, lemma_flagged_first,
    lemma_flagged_first_two, lemma_flagged_len, lemma_flagged_places, lemma_flagged_rest,
};
use crate::state::{candidates, recorded, without, Remembered, MAX_HISTORY_ITEMS};
use vstd::prelude::*;
use vstd::utf8::{
    encode_utf8, encode_utf8_decode_utf8, encode_utf8_valid_utf8, is_ascii_chars_encode_utf8,
    valid_utf8,
};

verus! {

/// No two of the paths are the same.
pub open spec fn distinct(history: Seq<Seq<u8>>) -> bool {
    forall|i: int, j: int|
        0 <= i < j < history.len() ==> !same_path(#[trigger] history[i], #[trigger] history[j])
}

/// Whether `path` is one of the paths that are there.
pub open spec fn still_there(history: Seq<Seq<u8>>, present: Seq<bool>, path: Seq<u8>) -> bool {
    exists|i: int| 0 <= i < history.len() && present[i] && #[trigger] history[i] == path
}

/// What is left without `path` are the paths that differ from it.
proof fn lemma_without(history: Seq<Seq<u8>>, path: Seq<u8>)
    ensures
        forall|i: int|
            0 <= i < without(history, path).len() ==> !same_path(
                #[trigger] without(history, path)[i],
                path,
            ),
        distinct(history) ==> distinct(without(history, path)),
        (forall|i: int| 0 <= i < history.len() ==> !same_path(#[trigger] history[i], path))
            ==> without(history, path) == history,
        forall|i: int|
            0 <= i < without(history, path).len() ==> history.contains(
                #[trigger] without(history, path)[i],
            ),
    decreases history.len(),
{
    reveal(Seq::filter);
    if history.len() > 0 {
        let front = history.drop_last();
        let last = history.last();
        lemma_without(front, path);
        let kept = without(history, path);
        assert(kept == if same_path(last, path) {
            without(front, path)
        } else {
            without(front, path).push(last)
        });
        assert(forall|x: Seq<u8>| front.contains(x) ==> history.contains(x));
        if distinct(history) {
            assert(distinct(front));
            assert forall|i: int, j: int| 0 <= i < j < kept.len() implies !same_path(
                #[trigger] kept[i],
                #[trigger] kept[j],
            ) by {
                if j == without(front, path).len() {
                    assert(front.contains(kept[i]));
                    let at = choose|at: int| 0 <= at < front.len() && front[at] == kept[i];
                    assert(history[at] == kept[i]);
                    assert(history[history.len() - 1] == kept[j]);
                }
            }
        }
        if forall|i: int| 0 <= i < history.len() ==> !same_path(#[trigger] history[i], path) {
            assert(forall|i: int|
                0 <= i < front.len() ==> #[trigger] front[i] == history[i]);
            assert(!same_path(history[history.len() - 1], path));
            assert(front.push(last) =~= history);
        }
    }
}

/// A first entry that is the same as `path` is left out, and the rest is
/// treated as it would be alone.
proof fn lemma_without_first(history: Seq<Seq<u8>>, path: Seq<u8>)
    requires
        history.len() > 0,
        same_path(history[0], path),
    ensures
        without(history, path) == without(history.drop_first(), path),
    decreases history.len(),
{
    reveal(Seq::filter);
    if history.len() == 1 {
        assert(history.drop_last() =~= Seq::empty());
        assert(history.drop_first() =~= Seq::empty());
        assert(without(history.drop_last(), path) =~= Seq::empty());
        assert(without(history, path) =~= without(history.drop_first(), path));
    } else {
        lemma_without_first(history.drop_last(), path);
        assert(history.drop_last().drop_first() =~= history.drop_first().drop_last());
    }
}

/// A first entry that is not the same as `path` stays first.
proof fn lemma_without_keeps_first(history: Seq<Seq<u8>>, path: Seq<u8>)
    requires
        history.len() > 0,
        !same_path(history[0], path),
    ensures
        without(history, path).len() > 0,
        without(history, path)[0] == history[0],
    decreases history.len(),
{
    reveal(Seq::filter);
    if history.len() > 1 {
        lemma_without_keeps_first(history.drop_last(), path);
    } else {
        assert(without(history.drop_last(), path) =~= Seq::empty());
    }
}

/// Sameness of paths is an equivalence.
pub proof fn law_same_path_is_an_equivalence(a: Seq<u8>, b: Seq<u8>, c: Seq<u8>)
    ensures
        same_path(a, a),
        same_path(a, b) ==> same_path(b, a),
        same_path(a, b) && same_path(b, c) ==> same_path(a, c),
{
}

/// A file that was just played stands first in the history, if it exists.
pub proof fn law_played_file_comes_first(
    history: Seq<Seq<u8>>,
    path: Seq<u8>,
    present: Seq<bool>,
)
    requires
        present.len() == candidates(history, path).len(),
        present[0],
    ensures
        recorded(history, path, present).len() > 0,
        recorded(history, path, present)[0] == path,
{
    lemma_flagged_first(candidates(history, path), present);
}

/// Of two different files, the one that was played later stands first, right
/// before the other, if both exist.
pub proof fn law_later_files_come_first(
    history: Seq<Seq<u8>>,
    earlier: Seq<u8>,
    present: Seq<bool>,
    later: Seq<u8>,
    then_present: Seq<bool>,
)
    requires
        !same_path(earlier, later),
        present.len() == candidates(history, earlier).len(),
        present[0],
        then_present.len() == candidates(recorded(history, earlier, present), later).len(),
        then_present[0],
        then_present[1],
    ensures
        ({
            let after = recorded(recorded(history, earlier, present), later, then_present);
            &&& after.len() >= 2
            &&& after[0] == later
            &&& after[1] == earlier
        }),
{
    let before = recorded(history, earlier, present);
    law_played_file_comes_first(history, earlier, present);
    lemma_without_keeps_first(before, later);
    let items = candidates(before, later);
    assert(items[1] == earlier);
    lemma_flagged_first_two(items, then_present);
}

/// The history holds only files that exist, each of which was just played or
/// was in the history before.
pub proof fn law_history_holds_existing_files(
    history: Seq<Seq<u8>>,
    path: Seq<u8>,
    present: Seq<bool>,
    k: int,
)
    requires
        present.len() == candidates(history, path).len(),
        0 <= k < recorded(history, path, present).len(),
    ensures
        still_there(
            candidates(history, path),
            present,
            recorded(history, path, present)[k],
        ),
        recorded(history, path, present)[k] == path || history.contains(
            recorded(history, path, present)[k],
        ),
{
    let items = candidates(history, path);
    let places = lemma_flagged_places(items, present);
    lemma_without(history, path);
    let i = places[k];
    assert(items[i] == recorded(history, path, present)[k]);
    if i > 0 {
        assert(items[i] == without(history, path)[i - 1]);
    }
}

/// After a file was played, no other entry of the history is the same file,
/// however its path is spelled.
pub proof fn law_played_file_is_listed_once(
    history: Seq<Seq<u8>>,
    path: Seq<u8>,
    present: Seq<bool>,
    k: int,
)
    requires
        present.len() == candidates(history, path).len(),
        0 <= k < recorded(history, path, present).len(),
        same_path(recorded(history, path, present)[k], path),
    ensures
        k == 0,
        present[0],
{
    let items = candidates(history, path);
    let places = lemma_flagged_places(items, present);
    lemma_without(history, path);
    assert(items[places[k]] == recorded(history, path, present)[k]);
    if places[k] > 0 {
        assert(items[places[k]] == without(history, path)[places[k] - 1]);
    }
    if k > 0 {
        assert(places[0] < places[k]);
    }
}

/// A history without repetitions stays one.
pub proof fn law_history_stays_distinct(
    history: Seq<Seq<u8>>,
    path: Seq<u8>,
    present: Seq<bool>,
)
    requires
        present.len() == candidates(history, path).len(),
        distinct(history),
    ensures
        distinct(recorded(history, path, present)),
{
    let items = candidates(history, path);
    let kept = recorded(history, path, present);
    let others = without(history, path);
    let places = lemma_flagged_places(items, present);
    lemma_without(history, path);
    assert forall|i: int, j: int| 0 <= i < j < kept.len() implies !same_path(
        #[trigger] kept[i],
        #[trigger] kept[j],
    ) by {
        assert(places[i] < places[j]);
        assert(items[places[i]] == kept[i] && items[places[j]] == kept[j]);
        assert(items[places[j]] == others[places[j] - 1]);
        if places[i] > 0 {
            assert(items[places[i]] == others[places[i] - 1]);
        }
    }
}

/// The history once `path` has been played, where `there` says of each path
/// whether it exists.
pub open spec fn recorded_where(
    history: Seq<Seq<u8>>,
    path: Seq<u8>,
    there: spec_fn(Seq<u8>) -> bool,
) -> Seq<Seq<u8>> {
    recorded(history, path, flags_of(candidates(history, path), there))
}

/// To play a file once more leaves the history as it is, whether or not the
/// file exists.
pub proof fn law_playing_again_changes_nothing(
    history: Seq<Seq<u8>>,
    path: Seq<u8>,
    there: spec_fn(Seq<u8>) -> bool,
)
    ensures
        recorded_where(recorded_where(history, path, there), path, there) == recorded_where(
            history,
            path,
            there,
        ),
{
    let items = candidates(history, path);
    let present = flags_of(items, there);
    let kept = recorded(history, path, present);
    let again = candidates(kept, path);
    let flags = flags_of(again, there);
    let places = lemma_flagged_places(items, present);
    assert forall|i: int| 0 <= i < kept.len() implies there(#[trigger] kept[i]) by {
        assert(items[places[i]] == kept[i]);
    }
    if there(path) {
        law_played_file_comes_first(history, path, present);
        let rest = kept.drop_first();
        assert forall|i: int| 0 <= i < rest.len() implies !same_path(
            #[trigger] rest[i],
            path,
        ) by {
            if same_path(rest[i], path) {
                law_played_file_is_listed_once(history, path, present, i + 1);
            }
        }
        lemma_without(rest, path);
        lemma_without_first(kept, path);
        assert(again =~= kept);
        lemma_flagged_all(again, flags);
    } else {
        assert forall|i: int| 0 <= i < kept.len() implies !same_path(
            #[trigger] kept[i],
            path,
        ) by {
            if same_path(kept[i], path) {
                law_played_file_is_listed_once(history, path, present, i);
            }
        }
        lemma_without(kept, path);
        lemma_flagged_rest(again, flags);
        assert(again.drop_first() =~= kept);
    }
}

/// An entry of the history that is there is played as any other file; one
/// that is gone is reported, and then dropped with all others that are gone;
/// and beyond the last entry nothing happens.
pub proof fn law_history_entries_are_played(history: Seq<Seq<u8>>, index: nat)
    ensures
        index < history.len() ==> opened_acts(history, index) == seq![
            Act::ProbeFile(history[index as int]),
        ] && probed_acts(history[index as int], true) == media_acts(history[index as int])
            && probed_acts(history[index as int], false) == seq![
            Act::ShowError("履歴のファイルが見つかりませんでした。"@),
            Act::PruneHistory,
        ],
        index >= history.len() ==> opened_acts(history, index) == Seq::<Act>::empty(),
{
}

/// Dropping the files that are gone keeps every other, and nothing else, and
/// brings in no repetition.
pub proof fn law_pruning_keeps_what_exists(
    history: Seq<Seq<u8>>,
    present: Seq<bool>,
    path: Seq<u8>,
)
    requires
        present.len() == history.len(),
    ensures
        flagged(history, present).contains(path) <==> still_there(history, present, path),
        distinct(history) ==> distinct(flagged(history, present)),
{
    let kept = flagged(history, present);
    let places = lemma_flagged_places(history, present);
    if kept.contains(path) {
        let k = choose|k: int| 0 <= k < kept.len() && kept[k] == path;
        assert(history[places[k]] == path);
    }
    if distinct(history) {
        assert forall|i: int, j: int| 0 <= i < j < kept.len() implies !same_path(
            #[trigger] kept[i],
            #[trigger] kept[j],
        ) by {
            assert(history[places[i]] == kept[i] && history[places[j]] == kept[j]);
        }
    }
    lemma_flagged_complete(history, present);
}

/// Each entry of the menu activates the action of its own index, which is
/// one of those that are registered, and no two indices share an action.
pub proof fn law_menu_entries_reach_their_files(state: Remembered, i: nat, j: nat)
    requires
        state.wf(),
        i < state.history.len(),
    ensures
        menu(state.history)[i as int].action == "win."@ + action_name(i),
        i < MAX_HISTORY_ITEMS,
        action_name(i) == action_name(j) ==> i == j,
{
    if action_name(i) == action_name(j) {
        let n = "open-history-"@.len() as int;
        assert(action_name(i).skip(n) =~= decimal(i));
        assert(action_name(j).skip(n) =~= decimal(j));
        lemma_decimal_injective(i, j);
    }
}

/// Items are kept or dropped one by one, each by its own flag, and stay in
/// order.
pub proof fn law_items_are_kept_by_their_flags<T>(
    items: Seq<T>,
    flags: Seq<bool>,
    item: T,
    flag: bool,
)
    requires
        flags.len() == items.len(),
    ensures
        flagged(items.push(item), flags.push(flag)) == if flag {
            flagged(items, flags).push(item)
        } else {
            flagged(items, flags)
        },
        flagged(Seq::<T>::empty(), flags) == Seq::<T>::empty(),
{
    assert(items.push(item).drop_last() =~= items);
    lemma_flagged_same_flags(items, flags, flags.push(flag));
}

/// Only the flags of the items count.
proof fn lemma_flagged_same_flags<T>(items: Seq<T>, flags: Seq<bool>, other: Seq<bool>)
    requires
        forall|i: int| 0 <= i < items.len() ==> flags[i] == other[i],
    ensures
        flagged(items, flags) == flagged(items, other),
    decreases items.len(),
{
    if items.len() > 0 {
        lemma_flagged_same_flags(items.drop_last(), flags, other);
    }
}

/// Of a list the first items are taken, as many as asked for or as there are.
pub proof fn law_first_items_come_first<T>(items: Seq<T>, n: nat)
    ensures
        first_items(items, n).is_prefix_of(items),
        items.len() <= n ==> first_items(items, n).len() == items.len(),
        items.len() > n ==> first_items(items, n).len() == n,
{
}

/// The candidates are the file that was played, and behind it the history
/// without that file, in order.
pub proof fn law_candidates_are_the_file_and_the_others(
    history: Seq<Seq<u8>>,
    entry: Seq<u8>,
    path: Seq<u8>,
)
    ensures
        candidates(Seq::empty(), path) == seq![path],
        candidates(history.push(entry), path) == if same_path(entry, path) {
            candidates(history, path)
        } else {
            candidates(history, path).push(entry)
        },
{
    reveal(Seq::filter);
    assert(candidates(Seq::empty(), path) =~= seq![path]);
    assert(history.push(entry).drop_last() =~= history);
    assert(candidates(history.push(entry), path) =~= if same_path(entry, path) {
        candidates(history, path)
    } else {
        candidates(history, path).push(entry)
    });
}

/// Of the candidates that exist, all are remembered up to the fiftieth, in
/// order.
pub proof fn law_history_keeps_the_first_fifty(
    history: Seq<Seq<u8>>,
    path: Seq<u8>,
    present: Seq<bool>,
)
    ensures
        ({
            let all = flagged(candidates(history, path), present);
            &&& all.len() <= 50 ==> recorded(history, path, present) == all
            &&& all.len() > 50 ==> recorded(history, path, present) == all.take(50)
        }),
{
}

/// Every candidate that exists is remembered, as long as there are no more
/// than fifty.
pub proof fn law_every_existing_file_is_remembered(
    history: Seq<Seq<u8>>,
    path: Seq<u8>,
    present: Seq<bool>,
    file: Seq<u8>,
)
    requires
        present.len() == candidates(history, path).len(),
        candidates(history, path).len() <= 50,
    ensures
        recorded(history, path, present).contains(file) <==> still_there(
            candidates(history, path),
            present,
            file,
        ),
{
    lemma_flagged_len(candidates(history, path), present);
    law_history_keeps_the_first_fifty(history, path, present);
    law_pruning_keeps_what_exists(candidates(history, path), present, file);
}

/// A file that is new to the history goes in front of it, and the fiftieth
/// entry makes room where there is no other.
pub proof fn law_new_files_go_in_front(
    history: Seq<Seq<u8>>,
    path: Seq<u8>,
    present: Seq<bool>,
)
    requires
        forall|i: int| 0 <= i < history.len() ==> !same_path(#[trigger] history[i], path),
        forall|i: int| 0 <= i <= history.len() ==> present[i],
    ensures
        history.len() < 50 ==> recorded(history, path, present) == seq![path] + history,
        history.len() >= 50 ==> recorded(history, path, present) == seq![path] + history.take(49),
{
    lemma_without(history, path);
    let all = candidates(history, path);
    assert(all =~= seq![path] + history);
    lemma_flagged_all(all, present);
    if history.len() >= 50 {
        assert(all.take(50) =~= seq![path] + history.take(49));
    }
}

/// A file of the history that is played again moves to its front, under the
/// path by which it was played, and the others keep their order.
pub proof fn law_known_files_move_to_the_front(
    before: Seq<Seq<u8>>,
    known: Seq<u8>,
    behind: Seq<Seq<u8>>,
    path: Seq<u8>,
    present: Seq<bool>,
)
    requires
        same_path(known, path),
        forall|i: int| 0 <= i < before.len() ==> !same_path(#[trigger] before[i], path),
        forall|i: int| 0 <= i < behind.len() ==> !same_path(#[trigger] behind[i], path),
        before.len() + behind.len() < 50,
        forall|i: int| 0 <= i <= before.len() + behind.len() ==> present[i],
    ensures
        recorded(before + seq![known] + behind, path, present) == seq![path] + before + behind,
{
    let history = before + seq![known] + behind;
    lemma_without_concat(before + seq![known], behind, path);
    lemma_without_concat(before, seq![known], path);
    lemma_without(before, path);
    lemma_without(behind, path);
    lemma_without_first(seq![known], path);
    assert(seq![known].drop_first() =~= Seq::empty());
    lemma_without(Seq::empty(), path);
    assert(without(seq![known], path) =~= Seq::empty());
    let all = candidates(history, path);
    assert(all =~= seq![path] + before + behind);
    lemma_flagged_all(all, present);
}

/// Two parts of a history are looked through one after the other.
proof fn lemma_without_concat(a: Seq<Seq<u8>>, b: Seq<Seq<u8>>, path: Seq<u8>)
    ensures
        without(a + b, path) == without(a, path) + without(b, path),
    decreases b.len(),
{
    reveal(Seq::filter);
    if b.len() == 0 {
        assert(a + b =~= a);
        assert(without(b, path) =~= Seq::empty());
        assert(without(a, path) + without(b, path) =~= without(a, path));
    } else {
        lemma_without_concat(a, b.drop_last(), path);
        assert((a + b).drop_last() =~= a + b.drop_last());
        assert((a + b).last() == b.last());
        assert(without(a + b, path) =~= without(a, path) + without(b, path));
    }
}

/// The history holds at most fifty files.
pub proof fn law_history_is_limited_to_fifty(state: Remembered)
    ensures
        state.wf() <==> state.history.len() <= 50,
        MAX_HISTORY_ITEMS == 50,
{
}

/// The menu has one entry for each file of the history, in order: its number
/// from one on, a point, its name; and the action of its index.
pub proof fn law_menu_lists_every_file(history: Seq<Seq<u8>>, i: int)
    requires
        0 <= i < history.len(),
    ensures
        menu(history).len() == history.len(),
        menu(history)[i].label == decimal((i + 1) as nat) + ". "@ + display_name(history[i]),
        menu(history)[i].action == "win.open-history-"@ + decimal(i as nat),
        label(i as nat, history[i]) == menu(history)[i].label,
        "win."@ + action_name(i as nat) == menu(history)[i].action,
{
    reveal_strlit("win.");
    reveal_strlit("open-history-");
    reveal_strlit("win.open-history-");
    assert(menu(history)[i].action =~= "win.open-history-"@ + decimal(i as nat));
}

/// A file is listed by the last piece of its path, if that is UTF-8, however
/// deep its directory is; one without such a name is listed as unknown.
pub proof fn law_files_are_listed_by_name(dir: Seq<u8>, name: Seq<char>, piece: Seq<u8>)
    requires
        is_piece(encode_utf8(name)),
        !says_nothing(encode_utf8(name)),
        encode_utf8(name) != seq!['.' as u8, '.' as u8],
        is_piece(piece),
    ensures
        display_name(below(dir, encode_utf8(name))) == name,
        display_name(encode_utf8(name)) == name,
        !valid_utf8(piece) ==> display_name(below(dir, piece)) == "(unknown)"@,
        piece == seq!['.' as u8, '.' as u8] ==> display_name(below(dir, piece))
            == "(unknown)"@,
        says_nothing(piece) ==> display_name(below(dir, piece)) == display_name(dir),
        says_nothing(piece) ==> display_name(piece) == "(unknown)"@,
{
    law_files_are_called_by_their_last_piece(dir, encode_utf8(name));
    law_files_are_called_by_their_last_piece(dir, piece);
    encode_utf8_valid_utf8(name);
    encode_utf8_decode_utf8(name);
    if !valid_utf8(piece) {
        assert(valid_utf8(Seq::empty()));
        let dot = seq!['.' as char];
        encode_utf8_valid_utf8(dot);
        reveal_with_fuel(encode_utf8, 2);
        is_ascii_chars_encode_utf8(dot);
        assert(encode_utf8(dot) =~= seq!['.' as u8]);
        let dots = seq!['.' as char, '.' as char];
        encode_utf8_valid_utf8(dots);
        is_ascii_chars_encode_utf8(dots);
        assert(encode_utf8(dots) =~= seq!['.' as u8, '.' as u8]);
        if piece.len() == 0 {
            assert(piece =~= Seq::empty());
        }
    }
}

} // verus!
