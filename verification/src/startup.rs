//! Choices that are made once, before the window opens, and what the file
//! dialog offers.

use vstd::prelude::*;
use vstd::string::StringExecFns;

verus! {

/// The text that reports that the media framework did not start.
pub open spec fn init_error(error: Seq<char>) -> Seq<char> {
    "GStreamer 初期化に失敗しました: "@ + error
}

/// The endings of the files that the file dialog offers.
pub open spec fn offered_endings() -> Seq<Seq<char>> {
    seq!["mp4"@, "mkv"@, "webm"@, "mov"@, "avi"@, "m4v"@]
}

/// The text that reports that the media framework did not start.
pub fn init_error_text(error: &str) -> (text: String)
    ensures
        text@ == init_error(error@),
{
    let mut text = "GStreamer 初期化に失敗しました: ".to_owned();
    text.append(error);
    text
}

/// The renderer to ask for. On macOS the fallback can wash out the colours of
/// a video, so the GPU renderer is asked for unless the user chose one.
pub fn preferred_renderer(macos: bool, chosen: bool) -> (renderer: Option<&'static str>)
    ensures
        match renderer {
            Some(name) => macos && !chosen && name@ == "gl"@,
            None => !macos || chosen,
        },
{
    if macos && !chosen {
        Some("gl")
    } else {
        None
    }
}

/// The endings of the files that the file dialog offers.
pub fn video_extensions() -> (endings: Vec<&'static str>)
    ensures
        endings@.map_values(|ending: &'static str| ending@) == offered_endings(),
{
    let mut endings: Vec<&'static str> = Vec::new();
    endings.push("mp4");
    endings.push("mkv");
    endings.push("webm");
    endings.push("mov");
    endings.push("avi");
    endings.push("m4v");
    assert(endings@.map_values(|ending: &'static str| ending@) =~= offered_endings());
    endings
}

} // verus!
