//! What the player remembers between runs: the loop setting and the files
//! that were played last.

use crate::path::{path_text, path_views, pushed, same_path, MediaPath};
use crate::select::{first_items, flagged};
use crate::text::{chars_of, field, field_start, joined, lines, next_line};
use vstd::prelude::*;
use vstd::string::{StrSliceExecFns, StringExecFns};
use vstd::utf8::encode_utf8;

verus! {

/// The most files that the history holds.
pub const MAX_HISTORY_ITEMS: usize = 50;

/// What is remembered between runs.
#[derive(Debug)]
pub struct PersistedState {
    pub loop_enabled: bool,
    /// The files played last, the latest first.
    pub history: Vec<MediaPath>,
}

/// A `PersistedState` as plain mathematics.
#[verifier::ext_equal]
pub struct Remembered {
    pub loop_enabled: bool,
    pub history: Seq<Seq<u8>>,
}

impl View for PersistedState {
    type V = Remembered;

    open spec fn view(&self) -> Remembered {
        Remembered { loop_enabled: self.loop_enabled, history: path_views(self.history@) }
    }
}

impl Remembered {
    /// The history does not outgrow its limit.
    pub open spec fn wf(self) -> bool {
        self.history.len() <= MAX_HISTORY_ITEMS
    }

    /// What is remembered once one more line of a saved text is taken in.
    pub open spec fn with_line(self, line: Seq<char>) -> Remembered {
        Remembered {
            loop_enabled: match field(line, "loop="@) {
                Some(value) => value == "1"@,
                None => self.loop_enabled,
            },
            history: match listed_path(line) {
                Some(path) => self.history.push(path),
                None => self.history,
            },
        }
    }
}

/// What is remembered where nothing was saved.
pub open spec fn forgotten() -> Remembered {
    Remembered { loop_enabled: false, history: Seq::empty() }
}

/// The history without any path that is the same as `path`.
pub open spec fn without(history: Seq<Seq<u8>>, path: Seq<u8>) -> Seq<Seq<u8>> {
    history.filter(|other: Seq<u8>| !same_path(other, path))
}

/// The history with `path` moved to its front, before anything is dropped.
pub open spec fn candidates(history: Seq<Seq<u8>>, path: Seq<u8>) -> Seq<Seq<u8>> {
    seq![path] + without(history, path)
}

/// The history once `path` has been played: of its candidates, the files that
/// exist, as many as it may hold.
pub open spec fn recorded(
    history: Seq<Seq<u8>>,
    path: Seq<u8>,
    present: Seq<bool>,
) -> Seq<Seq<u8>> {
    first_items(flagged(candidates(history, path), present), MAX_HISTORY_ITEMS as nat)
}

/// The loop setting that a saved text gives: that of its last `loop=` line.
pub open spec fn listed_loop(lines: Seq<Seq<char>>) -> bool
    decreases lines.len(),
{
    if lines.len() == 0 {
        false
    } else {
        match field(lines.last(), "loop="@) {
            Some(value) => value == "1"@,
            None => listed_loop(lines.drop_last()),
        }
    }
}

/// The path that a line of a saved text gives.
pub open spec fn listed_path(line: Seq<char>) -> Option<Seq<u8>> {
    if field(line, "loop="@) is Some {
        None
    } else {
        match field(line, "history="@) {
            Some(value) => if value.len() == 0 {
                None
            } else {
                Some(encode_utf8(value))
            },
            None => None,
        }
    }
}

/// The paths that the lines of a saved text give, in order.
pub open spec fn listed_history(lines: Seq<Seq<char>>) -> Seq<Seq<u8>>
    decreases lines.len(),
{
    if lines.len() == 0 {
        Seq::empty()
    } else {
        match listed_path(lines.last()) {
            Some(path) => listed_history(lines.drop_last()).push(path),
            None => listed_history(lines.drop_last()),
        }
    }
}

/// What the lines of a saved text say.
pub open spec fn listed_lines(lines: Seq<Seq<char>>) -> Remembered {
    Remembered { loop_enabled: listed_loop(lines), history: listed_history(lines) }
}

/// What a saved text says, whether or not its files still exist.
pub open spec fn listed(text: Seq<char>) -> Remembered {
    listed_lines(lines(text))
}

/// What is remembered of `saved` at the start of a run: the files that still
/// exist, as many as the history may hold.
pub open spec fn loaded(saved: Remembered, present: Seq<bool>) -> Remembered {
    Remembered {
        loop_enabled: saved.loop_enabled,
        history: first_items(flagged(saved.history, present), MAX_HISTORY_ITEMS as nat),
    }
}

/// The line that saves the loop setting.
pub open spec fn loop_line(enabled: bool) -> Seq<char> {
    "loop="@ + if enabled {
        "1"@
    } else {
        "0"@
    }
}

/// The line that saves a path.
pub open spec fn history_line(path: Seq<u8>) -> Seq<char> {
    "history="@ + path_text(path)
}

/// The lines that save what is remembered.
pub open spec fn saved_lines(state: Remembered) -> Seq<Seq<char>> {
    seq![loop_line(state.loop_enabled)] + first_items(
        state.history,
        MAX_HISTORY_ITEMS as nat,
    ).map_values(|path: Seq<u8>| history_line(path))
}

/// The text that saves what is remembered.
pub open spec fn saved_text(state: Remembered) -> Seq<char> {
    joined(saved_lines(state))
}

/// Where the state is kept below the home directory.
pub open spec fn state_path(home: Seq<u8>, macos: bool) -> Seq<u8> {
    let config = if macos {
        pushed(pushed(home, encode_utf8("Library"@)), encode_utf8("Application Support"@))
    } else {
        pushed(home, encode_utf8(".config"@))
    };
    pushed(pushed(config, encode_utf8("movie_player"@)), encode_utf8("state.txt"@))
}

/// The paths whose flag is set, in order.
fn keep_flagged(paths: &Vec<MediaPath>, flags: &Vec<bool>) -> (kept: Vec<MediaPath>)
    requires
        flags@.len() == paths@.len(),
    ensures
        path_views(kept@) == flagged(path_views(paths@), flags@),
{
    let mut kept: Vec<MediaPath> = Vec::new();
    let ghost all = path_views(paths@);
    let mut i: usize = 0;
    assert(path_views(kept@) =~= flagged(all.take(0), flags@));
    while i < paths.len()
        invariant
            i <= paths@.len() == flags@.len(),
            all == path_views(paths@),
            path_views(kept@) == flagged(all.take(i as int), flags@),
        decreases paths@.len() - i,
    {
        let ghost before = kept@;
        assert(all.take(i + 1).drop_last() =~= all.take(i as int));
        if flags[i] {
            kept.push(paths[i].clone());
            assert(path_views(kept@) =~= path_views(before).push(all[i as int]));
        }
        i = i + 1;
    }
    assert(all.take(i as int) =~= all);
    kept
}

/// Drops what follows the first `MAX_HISTORY_ITEMS` paths.
fn limit_history(paths: &mut Vec<MediaPath>)
    ensures
        path_views(final(paths)@) == first_items(
            path_views(old(paths)@),
            MAX_HISTORY_ITEMS as nat,
        ),
{
    paths.truncate(MAX_HISTORY_ITEMS);
    assert(path_views(paths@) =~= first_items(path_views(old(paths)@), MAX_HISTORY_ITEMS as nat));
}

impl Default for PersistedState {
    fn default() -> (state: Self)
        ensures
            state@ == forgotten(),
    {
        let state = PersistedState { loop_enabled: false, history: Vec::new() };
        assert(path_views(state.history@) =~= Seq::empty());
        state
    }
}

impl PersistedState {
    /// The file that keeps the state, given the home directory.
    pub fn state_file_path(home: Option<&MediaPath>, macos: bool) -> (path: Option<MediaPath>)
        ensures
            match (home, path) {
                (Some(home), Some(path)) => path@ == state_path(home@, macos),
                (None, None) => true,
                _ => false,
            },
    {
        match home {
            None => None,
            Some(home) => {
                let config = if macos {
                    home.join("Library").join("Application Support")
                } else {
                    home.join(".config")
                };
                Some(config.join("movie_player").join("state.txt"))
            },
        }
    }

    /// What a saved text says, whether or not its files still exist. Without
    /// a text, nothing is remembered.
    pub fn listed(content: Option<&str>) -> (state: PersistedState)
        ensures
            match content {
                Some(text) => state@ == listed(text@),
                None => state@ == forgotten(),
            },
    {
        match content {
            None => PersistedState::default(),
            Some(text) => PersistedState::parse(text),
        }
    }

    /// Takes in one line of a saved text, `chars[from..to]`.
    fn take_line(&mut self, content: &str, chars: &Vec<char>, from: usize, to: usize)
        requires
            chars@ == content@,
            from <= to <= chars@.len(),
        ensures
            final(self)@ == old(self)@.with_line(content@.subrange(from as int, to as int)),
    {
        match field_start(chars, from, to, "loop=") {
            Some(at) => {
                proof {
                    reveal_strlit("1");
                }
                self.loop_enabled = to - at == 1 && chars[at] == '1';
                proof {
                    let value = chars@.subrange(at as int, to as int);
                    if value.len() == 1 && value[0] == '1' {
                        assert(value =~= "1"@);
                    } else if value == "1"@ {
                        assert(value.len() == 1 && value[0] == '1');
                    }
                }
            },
            None => {
                match field_start(chars, from, to, "history=") {
                    Some(at) => {
                        if at < to {
                            self.history.push(MediaPath::from_text(content.substring_char(at, to)));
                            assert(path_views(self.history@) =~= path_views(
                                old(self).history@,
                            ).push(encode_utf8(content@.subrange(at as int, to as int))));
                        }
                    },
                    None => {},
                }
            },
        }
    }

    #[verifier::spinoff_prover]
    fn parse(content: &str) -> (state: PersistedState)
        ensures
            state@ == listed(content@),
    {
        let chars = chars_of(content);
        let ghost text = content@;
        let mut state = PersistedState::default();
        let mut start: usize = 0;
        let ghost mut done: Seq<Seq<char>> = Seq::empty();
        proof {
            assert(text.skip(0) =~= text);
            assert(done + lines(text) =~= lines(text));
        }
        while start < chars.len()
            invariant
                chars@ == text,
                text == content@,
                start <= chars@.len(),
                lines(text) == done + lines(text.skip(start as int)),
                state@ == listed_lines(done),
            decreases chars@.len() - start,
        {
            let found = next_line(&chars, start);
            state.take_line(content, &chars, start, found.0);
            proof {
                let line = text.subrange(start as int, found.0 as int);
                let rest = lines(text.skip(found.1 as int));
                let grown = done.push(line);
                assert(grown.drop_last() =~= done);
                assert(done + (seq![line] + rest) =~= grown + rest);
                done = grown;
            }
            start = found.1;
        }
        assert(lines(text.skip(start as int)) =~= Seq::empty());
        assert(done + Seq::<Seq<char>>::empty() =~= done);
        state
    }

    /// What is remembered at the start of a run of what was saved, where
    /// `present` says of each listed file whether it is still there.
    pub fn load(saved: &PersistedState, present: &Vec<bool>) -> (state: PersistedState)
        requires
            present@.len() == saved.history@.len(),
        ensures
            state@ == loaded(saved@, present@),
            state@.wf(),
    {
        let mut history = keep_flagged(&saved.history, present);
        limit_history(&mut history);
        PersistedState { loop_enabled: saved.loop_enabled, history }
    }

    /// The text that saves the state.
    pub fn save(&self) -> (text: String)
        ensures
            text@ == saved_text(self@),
    {
        let mut text = "loop=".to_owned();
        if self.loop_enabled {
            text.append("1");
        } else {
            text.append("0");
        }
        let count: usize = if self.history.len() < MAX_HISTORY_ITEMS {
            self.history.len()
        } else {
            MAX_HISTORY_ITEMS
        };
        let ghost all = saved_lines(self@);
        let mut i: usize = 0;
        assert(all.take(1) =~= seq![loop_line(self.loop_enabled)]);
        while i < count
            invariant
                i <= count <= self.history@.len(),
                all == saved_lines(self@),
                all.len() == count + 1,
                forall|k: int|
                    0 <= k < count ==> all[k + 1] == history_line(#[trigger] self.history@[k]@),
                text@ == joined(all.take(i + 1)),
            decreases count - i,
        {
            proof {
                reveal_strlit("\n");
            }
            text.append("\n");
            text.append("history=");
            text.append(self.history[i].to_text().as_str());
            proof {
                assert(all.take(i + 2).drop_last() =~= all.take(i + 1));
                assert(all[i + 1] == history_line(self.history@[i as int]@));
                assert(text@ =~= joined(all.take(i + 1)).push('\n') + history_line(
                    self.history@[i as int]@,
                ));
            }
            i = i + 1;
        }
        assert(all.take(i + 1) =~= all);
        text
    }

    /// The paths that the history would hold once `path` has been played, if
    /// all of them existed and it had no limit.
    pub fn recent_candidates(&self, path: &MediaPath) -> (paths: Vec<MediaPath>)
        ensures
            path_views(paths@) == candidates(self@.history, path@),
    {
        let mut paths: Vec<MediaPath> = Vec::new();
        paths.push(path.clone());
        let ghost all = path_views(self.history@);
        let ghost keep = |other: Seq<u8>| !same_path(other, path@);
        let mut i: usize = 0;
        proof {
            reveal(Seq::filter);
            assert(path_views(paths@) =~= seq![path@] + all.take(0).filter(keep));
        }
        while i < self.history.len()
            invariant
                i <= self.history@.len(),
                all == path_views(self.history@),
                keep == |other: Seq<u8>| !same_path(other, path@),
                path_views(paths@) == seq![path@] + all.take(i as int).filter(keep),
            decreases self.history@.len() - i,
        {
            let ghost before = paths@;
            proof {
                reveal(Seq::filter);
                assert(all.take(i + 1).drop_last() =~= all.take(i as int));
                assert(all.take(i + 1).last() == all[i as int]);
            }
            if !self.history[i].same(path) {
                paths.push(self.history[i].clone());
                assert(path_views(paths@) =~= path_views(before).push(all[i as int]));
                assert(path_views(paths@) =~= seq![path@] + all.take(i + 1).filter(keep));
            }
            i = i + 1;
        }
        assert(all.take(i as int) =~= all);
        paths
    }

    /// Puts `path` at the front of the history, where `present` says of each
    /// candidate whether it is there.
    pub fn record_recent_file(&mut self, path: &MediaPath, present: &Vec<bool>)
        requires
            present@.len() == candidates(old(self)@.history, path@).len(),
        ensures
            final(self)@ == (Remembered {
                loop_enabled: old(self)@.loop_enabled,
                history: recorded(old(self)@.history, path@, present@),
            }),
            final(self)@.wf(),
    {
        let paths = self.recent_candidates(path);
        assert(path_views(paths@).len() == paths@.len());
        let mut history = keep_flagged(&paths, present);
        limit_history(&mut history);
        self.history = history;
    }

    /// Drops the files of the history that are gone, where `present` says of
    /// each whether it is there.
    pub fn forget_missing(&mut self, present: &Vec<bool>)
        requires
            present@.len() == old(self)@.history.len(),
        ensures
            final(self)@ == (Remembered {
                loop_enabled: old(self)@.loop_enabled,
                history: flagged(old(self)@.history, present@),
            }),
    {
        self.history = keep_flagged(&self.history, present);
    }
}

} // verus!
