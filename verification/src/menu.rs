//! The history menu and the actions behind its entries.

use crate::decimal::{decimal, decimal_text};
use crate::path::{file_name, path_views, utf8_text, MediaPath};
use crate::state::MAX_HISTORY_ITEMS;
use vstd::prelude::*;
use vstd::string::StringExecFns;
use vstd::utf8::{decode_utf8, valid_utf8};

verus! {

/// An entry of the history menu.
#[derive(Debug)]
pub struct MenuEntry {
    pub label: String,
    /// The action that the entry activates.
    pub action: String,
}

/// A `MenuEntry` as plain mathematics.
pub struct Entry {
    pub label: Seq<char>,
    pub action: Seq<char>,
}

impl View for MenuEntry {
    type V = Entry;

    open spec fn view(&self) -> Entry {
        Entry { label: self.label@, action: self.action@ }
    }
}

/// The views of a list of menu entries.
pub open spec fn entry_views(entries: Seq<MenuEntry>) -> Seq<Entry> {
    entries.map_values(|entry: MenuEntry| entry@)
}

/// The name by which a file is listed.
pub open spec fn display_name(path: Seq<u8>) -> Seq<char> {
    match file_name(path) {
        Some(name) => if valid_utf8(name) {
            decode_utf8(name)
        } else {
            "(unknown)"@
        },
        None => "(unknown)"@,
    }
}

/// The label of the entry for the file at `index`: its number, from one on,
/// and its name.
pub open spec fn label(index: nat, path: Seq<u8>) -> Seq<char> {
    decimal(index + 1) + ". "@ + display_name(path)
}

/// The name of the action that opens the file at `index`.
pub open spec fn action_name(index: nat) -> Seq<char> {
    "open-history-"@ + decimal(index)
}

/// The menu of a history.
pub open spec fn menu(history: Seq<Seq<u8>>) -> Seq<Entry> {
    Seq::new(
        history.len(),
        |i: int|
            Entry { label: label(i as nat, history[i]), action: "win."@ + action_name(i as nat) },
    )
}

/// The label of the entry for the file at `index`.
pub fn history_label(index: usize, path: &MediaPath) -> (text: String)
    requires
        index < usize::MAX,
    ensures
        text@ == label(index as nat, path@),
{
    let mut text = decimal_text((index + 1) as u64);
    text.append(". ");
    let name = match path.file_name() {
        Some(bytes) => utf8_text(&bytes),
        None => None,
    };
    match name {
        Some(name) => text.append(name.as_str()),
        None => text.append("(unknown)"),
    }
    text
}

/// The name of the action that opens the file at `index`.
pub fn history_action(index: usize) -> (name: String)
    ensures
        name@ == action_name(index as nat),
{
    let mut name = "open-history-".to_owned();
    name.append(decimal_text(index as u64).as_str());
    name
}

/// The names of the actions that open a file of the history, by its index.
pub fn history_actions() -> (names: Vec<String>)
    ensures
        names@.len() == MAX_HISTORY_ITEMS,
        forall|i: int| 0 <= i < names@.len() ==> (#[trigger] names@[i])@ == action_name(i as nat),
{
    let mut names: Vec<String> = Vec::new();
    let mut i: usize = 0;
    while i < MAX_HISTORY_ITEMS
        invariant
            i <= MAX_HISTORY_ITEMS,
            names@.len() == i,
            forall|k: int|
                0 <= k < names@.len() ==> (#[trigger] names@[k])@ == action_name(k as nat),
        decreases MAX_HISTORY_ITEMS - i,
    {
        names.push(history_action(i));
        i = i + 1;
    }
    names
}

/// The menu of a history.
pub fn history_menu(history: &Vec<MediaPath>) -> (entries: Vec<MenuEntry>)
    ensures
        entry_views(entries@) == menu(path_views(history@)),
{
    let mut entries: Vec<MenuEntry> = Vec::new();
    let ghost whole = menu(path_views(history@));
    let mut i: usize = 0;
    while i < history.len()
        invariant
            i <= history@.len(),
            whole == menu(path_views(history@)),
            entries@.len() == i,
            forall|k: int| 0 <= k < entries@.len() ==> (#[trigger] entries@[k])@ == whole[k],
        decreases history@.len() - i,
    {
        let mut action = "win.".to_owned();
        action.append(history_action(i).as_str());
        entries.push(MenuEntry { label: history_label(i, &history[i]), action });
        i = i + 1;
    }
    assert(entry_views(entries@) =~= whole);
    entries
}

} // verus!
