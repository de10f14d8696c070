# movie_player

A small desktop player for local videos: open a file, play and pause it, step
back and forward by ten seconds, seek with a bar, loop, and come back to the
files that were played last.

The decisions of the player are a library in `src/`, verified with Verus. The
window and the media pipeline (GTK 4, GStreamer, the system's file dialog) are
an ordinary program around it in `app/`.

## The library

| module | what it decides |
| --- | --- |
| `state` | what is remembered between runs: the loop setting and up to fifty files, the latest first; the text that saves it |
| `path` | when two paths are the same, and what a file is called |
| `text`, `split`, `select`, `decimal` | lines and fields, cutting, choosing, numbers |
| `menu` | the history menu and the actions behind its entries |
| `seek` | where a seek lands, and how a time is shown |
| `action` | what is asked of the pipeline and the window |
| `player` | how the player reacts to each event |
| `startup` | the renderer, the file dialog's endings |
| `laws` | what holds of all this together |

A path is the byte string that Unix systems keep it in, so files whose names
are not UTF-8 can be played and listed too.

Nothing in the library reads a disk, a clock or a pipeline. `PlayerUi` is told
what happened and what was found, and answers with a list of `Action`s. The
program carries them out in order and reports back where an action asks for it.

## The state file

`$HOME/Library/Application Support/movie_player/state.txt` on macOS,
`$HOME/.config/movie_player/state.txt` elsewhere:

```
loop=1
history=/videos/a.mp4
history=/videos/b.mp4
```

## Keys

- `Space`: play / pause
- `Left`: ten seconds back
- `Right`: ten seconds forward

## Running it

The program needs GTK 4 and GStreamer with `gtk4paintablesink`; on macOS,
`brew install gtk4 pkg-config gstreamer`.
