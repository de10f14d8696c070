//! What a saved state gives back.

use crate::laws::lines::{
    law_fields_follow_their_keys, law_joined_lines_have_a_feed_between_them,
};
use crate::path::path_text;
use crate::select::{first_items, flagged, lemma_flagged_all, lemma_flagged_len};
use crate::state::{
    forgotten, history_line, listed, listed_history, listed_loop, listed_path, loaded, loop_line,
    saved_lines, saved_text, Remembered, MAX_HISTORY_ITEMS,
};
use crate::text::{
    field, lemma_lines_hold_no_feed, lemma_lines_joined, lines, reread, without_return,
};
use vstd::prelude::*;
use vstd::utf8::{
    decode_utf8, decode_utf8_encode_utf8, encode_utf8, encode_utf8_decode_utf8,
    encode_utf8_valid_utf8, valid_utf8,
};

verus! {

/// Whether a saved path reads back as it was: it is UTF-8, not empty, holds
/// no line feed and, unless it stands in the last line, does not end in a
/// carriage return.
pub open spec fn storable(path: Seq<u8>, last: bool) -> bool {
    &&& valid_utf8(path)
    &&& path.len() > 0
    &&& !decode_utf8(path).contains('\n')
    &&& last || decode_utf8(path).last() != '\r'
}

/// Whether each path that is saved reads back as it was.
pub open spec fn all_storable(history: Seq<Seq<u8>>) -> bool {
    forall|i: int|
        0 <= i < history.len() ==> storable(#[trigger] history[i], i == history.len() - 1)
}

/// The line of a storable path gives the path back.
proof fn lemma_history_line(path: Seq<u8>, last: bool)
    requires
        storable(path, last),
    ensures
        field(history_line(path), "loop="@) is None,
        listed_path(history_line(path)) == Some(path),
        !history_line(path).contains('\n'),
        history_line(path).len() > 0,
        !last ==> without_return(history_line(path)) == history_line(path),
{
    reveal_strlit("loop=");
    reveal_strlit("history=");
    let text = path_text(path);
    let line = history_line(path);
    decode_utf8_encode_utf8(path);
    assert(text.len() > 0) by {
        if text.len() == 0 {
            assert(encode_utf8(text) =~= Seq::empty());
        }
    }
    assert(line.subrange(0, 5)[0] == 'h');
    assert(line.subrange(0, 8) =~= "history="@);
    assert(line.skip(8) =~= text);
    assert forall|k: int| 0 <= k < line.len() implies line[k] != '\n' by {
        if k >= 8 {
            assert(line[k] == text[k - 8]);
            assert(text.contains(text[k - 8]));
        }
    }
    assert(line.last() == text.last());
}

/// The line of a loop setting gives the setting back.
proof fn lemma_loop_line(enabled: bool)
    ensures
        field(loop_line(enabled), "loop="@) == Some(
            if enabled {
                "1"@
            } else {
                "0"@
            },
        ),
        "0"@ != "1"@,
        !loop_line(enabled).contains('\n'),
        loop_line(enabled).len() > 0,
        without_return(loop_line(enabled)) == loop_line(enabled),
{
    reveal_strlit("loop=");
    reveal_strlit("0");
    reveal_strlit("1");
    let line = loop_line(enabled);
    assert("0"@[0] != "1"@[0]);
    assert(line.subrange(0, 5) =~= "loop="@);
    assert(line.skip(5) =~= if enabled {
        "1"@
    } else {
        "0"@
    });
}

/// The first lines of a saved text give back the first paths.
proof fn lemma_listed_prefix(state: Remembered, count: nat)
    requires
        count <= first_items(state.history, MAX_HISTORY_ITEMS as nat).len(),
        all_storable(first_items(state.history, MAX_HISTORY_ITEMS as nat)),
    ensures
        listed_loop(saved_lines(state).take(count as int + 1)) == state.loop_enabled,
        listed_history(saved_lines(state).take(count as int + 1)) == first_items(
            state.history,
            MAX_HISTORY_ITEMS as nat,
        ).take(count as int),
    decreases count,
{
    let kept = first_items(state.history, MAX_HISTORY_ITEMS as nat);
    let all = saved_lines(state);
    let part = all.take(count as int + 1);
    if count == 0 {
        lemma_loop_line(state.loop_enabled);
        assert(part.last() == loop_line(state.loop_enabled));
        assert(listed_path(part.last()) is None);
        assert(part.drop_last().len() == 0);
        assert(listed_history(part.drop_last()) =~= kept.take(0));
    } else {
        let i = count - 1;
        lemma_listed_prefix(state, i as nat);
        lemma_history_line(kept[i], i == kept.len() - 1);
        assert(part.last() == history_line(kept[i]));
        assert(part.drop_last() =~= all.take(count as int));
        assert(kept.take(count as int) =~= kept.take(i).push(kept[i]));
    }
}

/// A saved state reads back: the loop setting as it was, and the files that
/// the text holds as they were, in the same order.
pub proof fn law_saved_text_reads_back(state: Remembered)
    requires
        all_storable(first_items(state.history, MAX_HISTORY_ITEMS as nat)),
    ensures
        listed(saved_text(state)) == (Remembered {
            loop_enabled: state.loop_enabled,
            history: first_items(state.history, MAX_HISTORY_ITEMS as nat),
        }),
{
    let kept = first_items(state.history, MAX_HISTORY_ITEMS as nat);
    let all = saved_lines(state);
    lemma_loop_line(state.loop_enabled);
    assert forall|i: int| 0 <= i < all.len() implies !(#[trigger] all[i]).contains('\n')
        && all[i].len() > 0 && (i < all.len() - 1 ==> without_return(all[i]) == all[i]) by {
        if i > 0 {
            assert(all[i] == history_line(kept[i - 1]));
            lemma_history_line(kept[i - 1], i - 1 == kept.len() - 1);
        }
    }
    lemma_lines_joined(all);
    assert(reread(all) =~= all);
    lemma_listed_prefix(state, kept.len());
    assert(all.take(kept.len() as int + 1) =~= all);
    assert(kept.take(kept.len() as int) =~= kept);
}

/// Every path that a text gives is UTF-8, is not empty and holds no line feed.
proof fn lemma_listed_paths(parts: Seq<Seq<char>>)
    requires
        forall|i: int| 0 <= i < parts.len() ==> !(#[trigger] parts[i]).contains('\n'),
    ensures
        forall|i: int|
            0 <= i < listed_history(parts).len() ==> storable(
                #[trigger] listed_history(parts)[i],
                true,
            ),
        listed_history(parts).len() <= parts.len(),
    decreases parts.len(),
{
    if parts.len() > 0 {
        let line = parts.last();
        lemma_listed_paths(parts.drop_last());
        if listed_path(line) is Some {
            let value = field(line, "history="@)->0;
            assert(value == line.skip("history="@.len() as int));
            encode_utf8_valid_utf8(value);
            encode_utf8_decode_utf8(value);
            assert(encode_utf8(value).len() > 0);
            assert(!value.contains('\n')) by {
                if value.contains('\n') {
                    let k = choose|k: int| 0 <= k < value.len() && value[k] == '\n';
                    assert(line[k + "history="@.len()] == '\n');
                    assert(parts[parts.len() - 1].contains('\n'));
                }
            }
        }
    }
}

/// Where each line but the first gives a path, the paths stand in the order
/// of the lines.
proof fn lemma_listed_places(parts: Seq<Seq<char>>)
    requires
        parts.len() > 0,
        listed_path(parts[0]) is None,
    ensures
        listed_history(parts).len() < parts.len(),
        listed_history(parts).len() == parts.len() - 1 ==> forall|i: int|
            1 <= i < parts.len() ==> listed_path(#[trigger] parts[i]) == Some(
                listed_history(parts)[i - 1],
            ),
    decreases parts.len(),
{
    let front = parts.drop_last();
    if parts.len() > 1 {
        lemma_listed_places(front);
        if listed_history(parts).len() == parts.len() - 1 {
            assert forall|i: int| 1 <= i < parts.len() implies listed_path(#[trigger] parts[i])
                == Some(listed_history(parts)[i - 1]) by {
                if i < front.len() {
                    assert(front[i] == parts[i]);
                }
            }
        }
    } else {
        assert(listed_history(front).len() == 0);
    }
}

/// The line of a path that ends in a carriage return does not give the path
/// back once it has lost that.
proof fn lemma_shorter_line(path: Seq<u8>)
    requires
        storable(path, true),
        decode_utf8(path).last() == '\r',
    ensures
        listed_path(without_return(history_line(path))) != Some(path),
{
    reveal_strlit("history=");
    let text = decode_utf8(path);
    let line = history_line(path);
    let short = without_return(line);
    decode_utf8_encode_utf8(path);
    assert(text.len() > 0) by {
        if text.len() == 0 {
            assert(encode_utf8(text) =~= Seq::empty());
        }
    }
    assert(line.last() == text.last());
    assert(short == line.drop_last());
    if listed_path(short) == Some(path) {
        let value = short.skip(8);
        assert(field(short, "history="@) == Some(value));
        encode_utf8_decode_utf8(value);
        assert(value.len() == text.len() - 1);
    }
}

/// No other state reads back: a file that the text holds and that comes back
/// as it was is storable.
pub proof fn law_only_storable_paths_read_back(state: Remembered)
    requires
        listed(saved_text(state)).history == first_items(
            state.history,
            MAX_HISTORY_ITEMS as nat,
        ),
    ensures
        all_storable(first_items(state.history, MAX_HISTORY_ITEMS as nat)),
{
    let kept = first_items(state.history, MAX_HISTORY_ITEMS as nat);
    let all = saved_lines(state);
    lemma_lines_hold_no_feed(saved_text(state));
    lemma_listed_paths(lines(saved_text(state)));
    lemma_loop_line(state.loop_enabled);
    assert forall|i: int| 0 <= i < all.len() implies !(#[trigger] all[i]).contains('\n')
        && all[i].len() > 0 by {
        if i > 0 {
            assert(all[i] == history_line(kept[i - 1]));
            assert(storable(kept[i - 1], true));
            lemma_history_line(kept[i - 1], true);
        }
    }
    lemma_lines_joined(all);
    lemma_listed_places(reread(all));
    assert forall|i: int| 0 <= i < kept.len() implies storable(
        #[trigger] kept[i],
        i == kept.len() - 1,
    ) by {
        let path = kept[i];
        let text = decode_utf8(path);
        assert(storable(path, true));
        if i < kept.len() - 1 && text.last() == '\r' {
            lemma_history_line(path, true);
            let line = history_line(path);
            assert(all[i + 1] == line);
            assert(reread(all)[i + 1] == without_return(line));
            assert(listed_path(reread(all)[i + 1]) == Some(path));
            lemma_shorter_line(path);
        }
    }
}

/// What one run saves, the next one loads, as far as the files still exist.
pub proof fn law_load_gives_back_what_was_saved(state: Remembered, present: Seq<bool>)
    requires
        state.wf(),
        all_storable(state.history),
    ensures
        loaded(listed(saved_text(state)), present) == (Remembered {
            loop_enabled: state.loop_enabled,
            history: flagged(state.history, present),
        }),
        (forall|i: int| 0 <= i < state.history.len() ==> present[i]) ==> loaded(
            listed(saved_text(state)),
            present,
        ) == state,
{
    law_saved_text_reads_back(state);
    lemma_flagged_len(state.history, present);
    if forall|i: int| 0 <= i < state.history.len() ==> present[i] {
        lemma_flagged_all(state.history, present);
    }
}

/// The loop setting of a saved text is that of its last `loop=` line: on only
/// where that line says `1`, and off where there is none.
pub proof fn law_last_loop_line_counts(before: Seq<Seq<char>>, line: Seq<char>, value: Seq<char>)
    ensures
        listed_loop(before.push("loop="@ + value)) <==> value == "1"@,
        !"loop="@.is_prefix_of(line) ==> listed_loop(before.push(line)) == listed_loop(before),
        !listed_loop(Seq::empty()),
{
    law_fields_follow_their_keys("loop="@, value, line);
    assert(before.push("loop="@ + value).drop_last() =~= before);
    assert(before.push(line).drop_last() =~= before);
}

/// Each `history=` line of a saved text that is not empty gives one path, in
/// the order of the lines, and no other line gives any.
pub proof fn law_each_history_line_gives_its_path(
    before: Seq<Seq<char>>,
    line: Seq<char>,
    value: Seq<char>,
)
    ensures
        value.len() > 0 ==> listed_history(before.push("history="@ + value)) == listed_history(
            before,
        ).push(encode_utf8(value)),
        value.len() == 0 ==> listed_history(before.push("history="@ + value)) == listed_history(
            before,
        ),
        !"history="@.is_prefix_of(line) ==> listed_history(before.push(line)) == listed_history(
            before,
        ),
        listed_history(Seq::empty()) == Seq::<Seq<u8>>::empty(),
{
    reveal_strlit("loop=");
    reveal_strlit("history=");
    let own = "history="@ + value;
    law_fields_follow_their_keys("history="@, value, line);
    assert(own.subrange(0, 5)[0] == 'h');
    assert(field(own, "loop="@) is None);
    assert(before.push(own).drop_last() =~= before);
    assert(before.push(line).drop_last() =~= before);
}

/// A saved text says what its lines say.
pub proof fn law_a_text_says_what_its_lines_say(text: Seq<char>)
    ensures
        listed(text).loop_enabled == listed_loop(lines(text)),
        listed(text).history == listed_history(lines(text)),
{
}

/// Without a saved text the loop is off and the history is empty.
pub proof fn law_nothing_saved_is_nothing_remembered()
    ensures
        !forgotten().loop_enabled,
        forgotten().history == Seq::<Seq<u8>>::empty(),
{
}

/// A saved text starts with the loop setting, and each path of the history
/// adds a line of its own at the end, up to the fiftieth.
pub proof fn law_saved_text_grows_line_by_line(state: Remembered, path: Seq<u8>)
    ensures
        saved_text(Remembered { loop_enabled: true, history: Seq::empty() }) == "loop=1"@,
        saved_text(Remembered { loop_enabled: false, history: Seq::empty() }) == "loop=0"@,
        ({
            let longer = Remembered {
                loop_enabled: state.loop_enabled,
                history: state.history.push(path),
            };
            &&& state.history.len() < 50 ==> saved_text(longer) == saved_text(state)
                + "\nhistory="@ + path_text(path)
            &&& state.history.len() >= 50 ==> saved_text(longer) == saved_text(state)
        }),
{
    reveal_strlit("loop=");
    reveal_strlit("loop=1");
    reveal_strlit("loop=0");
    reveal_strlit("1");
    reveal_strlit("0");
    reveal_strlit("history=");
    reveal_strlit("\nhistory=");
    let on = Remembered { loop_enabled: true, history: Seq::empty() };
    let off = Remembered { loop_enabled: false, history: Seq::empty() };
    assert(saved_lines(on) =~= seq![loop_line(true)]);
    assert(saved_lines(off) =~= seq![loop_line(false)]);
    assert(loop_line(true) =~= "loop=1"@);
    assert(loop_line(false) =~= "loop=0"@);
    let longer = Remembered {
        loop_enabled: state.loop_enabled,
        history: state.history.push(path),
    };
    if state.history.len() < 50 {
        let before = saved_lines(state);
        assert(saved_lines(longer) =~= before.push(history_line(path)));
        law_joined_lines_have_a_feed_between_them(before, history_line(path));
        assert(saved_text(longer) =~= saved_text(state) + "\nhistory="@ + path_text(path));
    } else {
        assert(first_items(longer.history, 50) =~= first_items(state.history, 50));
    }
}

/// At the start of a run the loop setting is the saved one, and of the files
/// that still exist the first fifty are remembered.
pub proof fn law_load_keeps_the_first_fifty(saved: Remembered, present: Seq<bool>)
    ensures
        ({
            let all = flagged(saved.history, present);
            let state = loaded(saved, present);
            &&& state.loop_enabled == saved.loop_enabled
            &&& all.len() <= 50 ==> state.history == all
            &&& all.len() > 50 ==> state.history == all.take(50)
        }),
{
}

} // verus!
